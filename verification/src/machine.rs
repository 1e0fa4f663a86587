//! What the operations do: a machine that runs the code of a function on
//! integers.

use vstd::prelude::*;

use crate::code::{Arith, Cond, Conversion, Negation, OpV, Width};
use crate::hir::HirBinOp;
use crate::ty::IntTy;

verus! {

// ---- integers of a width ----

/// How many values a width has.
pub open spec fn span_of(w: Width) -> int {
    match w {
        Width::I8 => 0x100,
        Width::I16 => 0x1_0000,
        Width::I32 => 0x1_0000_0000,
        _ => 0x1_0000_0000_0000_0000,
    }
}

/// How many bits a width has.
pub open spec fn bits_of(w: Width) -> nat {
    match w {
        Width::I8 => 8,
        Width::I16 => 16,
        Width::I32 => 32,
        _ => 64,
    }
}

/// The bits of an integer, read as a number.
pub open spec fn pattern(w: Width, n: int) -> int {
    n % span_of(w)
}

/// The bits of an integer, read as a number with a sign.
pub open spec fn signed_value(w: Width, n: int) -> int {
    if pattern(w, n) < span_of(w) / 2 {
        pattern(w, n)
    } else {
        pattern(w, n) - span_of(w)
    }
}

pub open spec fn two_to(n: nat) -> int
    decreases n,
{
    if n == 0 {
        1
    } else {
        2 * two_to((n - 1) as nat)
    }
}

/// Division towards zero.
pub open spec fn quotient(a: int, b: int) -> int {
    if a >= 0 && b > 0 {
        a / b
    } else if a >= 0 {
        -(a / (-b))
    } else if b > 0 {
        -((-a) / b)
    } else {
        (-a) / (-b)
    }
}

/// What is left of a division towards zero.
pub open spec fn remainder(a: int, b: int) -> int {
    a - b * quotient(a, b)
}

pub open spec fn both_bits(a: int, b: int) -> int {
    ((a as u64) & (b as u64)) as int
}

pub open spec fn either_bits(a: int, b: int) -> int {
    ((a as u64) | (b as u64)) as int
}

pub open spec fn differing_bits(a: int, b: int) -> int {
    ((a as u64) ^ (b as u64)) as int
}

// ---- single operations ----

/// The bits that an operation on two integers of a width makes; nothing where
/// it stops the program, or is for floats.
pub open spec fn computes(a: Arith, w: Width, x: int, y: int) -> Option<int> {
    let (ux, uy) = (pattern(w, x), pattern(w, y));
    let (sx, sy) = (signed_value(w, x), signed_value(w, y));
    match a {
        Arith::Add => Some(pattern(w, x + y)),
        Arith::Sub => Some(pattern(w, x - y)),
        Arith::Mul => Some(pattern(w, x * y)),
        Arith::SDiv => if sy == 0 || (sy == -1 && sx == -(span_of(w) / 2)) {
            None
        } else {
            Some(pattern(w, quotient(sx, sy)))
        },
        Arith::UDiv => if uy == 0 {
            None
        } else {
            Some(pattern(w, ux / uy))
        },
        Arith::SRem => if sy == 0 {
            None
        } else {
            Some(pattern(w, remainder(sx, sy)))
        },
        Arith::URem => if uy == 0 {
            None
        } else {
            Some(pattern(w, ux % uy))
        },
        Arith::And => Some(pattern(w, both_bits(ux, uy))),
        Arith::Or => Some(pattern(w, either_bits(ux, uy))),
        Arith::Xor => Some(pattern(w, differing_bits(ux, uy))),
        Arith::Shl => Some(pattern(w, ux * two_to((uy % bits_of(w) as int) as nat))),
        Arith::SShr => Some(pattern(w, sx / two_to((uy % bits_of(w) as int) as nat))),
        Arith::UShr => Some(pattern(w, ux / two_to((uy % bits_of(w) as int) as nat))),
        Arith::FAdd | Arith::FSub | Arith::FMul | Arith::FDiv => None,
    }
}

/// Whether a comparison of two integers of a width holds.
pub open spec fn holds_of(c: Cond, w: Width, x: int, y: int) -> bool {
    let (ux, uy) = (pattern(w, x), pattern(w, y));
    let (sx, sy) = (signed_value(w, x), signed_value(w, y));
    match c {
        Cond::Equal => ux == uy,
        Cond::NotEqual => ux != uy,
        Cond::SLess => sx < sy,
        Cond::SGreater => sx > sy,
        Cond::SLessEqual => sx <= sy,
        Cond::SGreaterEqual => sx >= sy,
        Cond::ULess => ux < uy,
        Cond::UGreater => ux > uy,
        Cond::ULessEqual => ux <= uy,
        Cond::UGreaterEqual => ux >= uy,
    }
}

/// The bits that a conversion of an integer makes.
pub open spec fn converts(c: Conversion, from: Width, to: Width, x: int) -> Option<int> {
    match c {
        Conversion::SignExtend => Some(pattern(to, signed_value(from, x))),
        Conversion::ZeroExtend => Some(pattern(to, pattern(from, x))),
        Conversion::Truncate => Some(pattern(to, x)),
        _ => None,
    }
}

pub open spec fn is_whole(w: Width) -> bool {
    !(w is F32) && !(w is F64)
}

pub open spec fn truth(b: bool) -> int {
    if b {
        1
    } else {
        0
    }
}

// ---- running ----

/// A value: its width and its bits.
pub struct Word {
    pub width: Width,
    pub bits: int,
}

pub open spec fn word_of(width: Width, n: int) -> Word {
    Word { width, bits: pattern(width, n) }
}

/// Where a run stands: the next operation, what each operation made last, and
/// what each variable holds.
pub struct Machine {
    pub at: nat,
    pub made: Map<usize, Word>,
    pub held: Map<usize, Word>,
}

/// Where the code of a block begins: after the first operation that switches to
/// it.
pub open spec fn entry(ops: Seq<OpV>, b: usize, i: nat) -> Option<nat>
    decreases ops.len() - i,
{
    if i >= ops.len() {
        None
    } else if ops[i as int] == OpV::Switch(b) {
        Some(i + 1)
    } else {
        entry(ops, b, i + 1)
    }
}

/// The values of a block's parameters: one for each, in order.
pub open spec fn given(ops: Seq<OpV>, made: Map<usize, Word>, b: usize, args: Seq<Word>, i: nat) -> Map<usize, Word>
    decreases ops.len() - i,
{
    if i >= ops.len() || args.len() == 0 {
        made
    } else {
        match ops[i as int] {
            OpV::BlockParam(c, _) => if c == b {
                given(ops, made.insert(i as usize, args[0]), b, args.drop_first(), i + 1)
            } else {
                given(ops, made, b, args, i + 1)
            },
            _ => given(ops, made, b, args, i + 1),
        }
    }
}

/// The run that goes on with another value made.
pub open spec fn with_word(m: Machine, v: Word) -> Machine {
    Machine { at: m.at + 1, made: m.made.insert(m.at as usize, v), ..m }
}

pub open spec fn going_on(m: Machine) -> Machine {
    Machine { at: m.at + 1, ..m }
}

pub open spec fn jumping(ops: Seq<OpV>, m: Machine, b: usize, args: Seq<Word>) -> Option<Machine> {
    match entry(ops, b, 0) {
        Some(i) => Some(Machine { at: i, made: given(ops, m.made, b, args, 0), ..m }),
        None => None,
    }
}

pub open spec fn all_made_before(m: Machine, vs: Seq<usize>) -> bool {
    forall|i: int| 0 <= i < vs.len() ==> m.made.contains_key(#[trigger] vs[i])
}

/// One step of a run; nothing where it ends, or does what is not about
/// integers.
pub open spec fn stepping(ops: Seq<OpV>, m: Machine) -> Option<Machine> {
    if m.at >= ops.len() {
        None
    } else {
        match ops[m.at as int] {
            OpV::Block | OpV::BlockParam(_, _) | OpV::Seal(_) | OpV::Var(_) => Some(going_on(m)),
            OpV::Int(w, v) => Some(with_word(m, word_of(w, v as int))),
            OpV::Arith(a, l, r) => if m.made.contains_key(l) && m.made.contains_key(r) && m.made[l].width
                == m.made[r].width && is_whole(m.made[l].width) {
                match computes(a, m.made[l].width, m.made[l].bits, m.made[r].bits) {
                    Some(n) => Some(with_word(m, word_of(m.made[l].width, n))),
                    None => None,
                }
            } else {
                None
            },
            OpV::Negate(n, v) => if m.made.contains_key(v) && is_whole(m.made[v].width) {
                match n {
                    Negation::Int => Some(with_word(m, word_of(m.made[v].width, -m.made[v].bits))),
                    Negation::Bits => Some(with_word(m, word_of(m.made[v].width, -m.made[v].bits - 1))),
                    Negation::Float => None,
                }
            } else {
                None
            },
            OpV::Compare(c, l, r) => if m.made.contains_key(l) && m.made.contains_key(r) && m.made[l].width
                == m.made[r].width && is_whole(m.made[l].width) {
                Some(
                    with_word(
                        m,
                        word_of(Width::I8, truth(holds_of(c, m.made[l].width, m.made[l].bits, m.made[r].bits))),
                    ),
                )
            } else {
                None
            },
            OpV::Convert(c, w, v) => if m.made.contains_key(v) && is_whole(m.made[v].width) && is_whole(w) {
                match converts(c, m.made[v].width, w, m.made[v].bits) {
                    Some(n) => Some(with_word(m, word_of(w, n))),
                    None => None,
                }
            } else {
                None
            },
            OpV::Assign(x, v) => if m.made.contains_key(v) {
                Some(Machine { at: m.at + 1, held: m.held.insert(x, m.made[v]), ..m })
            } else {
                None
            },
            OpV::Read(x) => if m.held.contains_key(x) {
                Some(with_word(m, m.held[x]))
            } else {
                None
            },
            OpV::Jump(b, args) => if all_made_before(m, args) {
                jumping(ops, m, b, Seq::new(args.len(), |i: int| m.made[args[i]]))
            } else {
                None
            },
            OpV::Branch(c, yes, no) => if m.made.contains_key(c) {
                jumping(
                    ops,
                    m,
                    if m.made[c].bits != 0 {
                        yes
                    } else {
                        no
                    },
                    seq![],
                )
            } else {
                None
            },
            _ => None,
        }
    }
}

/// So many steps of a run.
pub open spec fn running(ops: Seq<OpV>, m: Machine, n: nat) -> Option<Machine>
    decreases n,
{
    if n == 0 {
        Some(m)
    } else {
        match stepping(ops, m) {
            Some(m1) => running(ops, m1, (n - 1) as nat),
            None => None,
        }
    }
}

// ---- what operators mean ----

/// The integers of a type.
pub open spec fn in_type(t: IntTy, n: int) -> bool {
    match t {
        IntTy::I8 => -0x80 <= n < 0x80,
        IntTy::I16 => -0x8000 <= n < 0x8000,
        IntTy::I32 => -0x8000_0000 <= n < 0x8000_0000,
        IntTy::I64 | IntTy::ISize => -0x8000_0000_0000_0000 <= n < 0x8000_0000_0000_0000,
        IntTy::U8 => 0 <= n < 0x100,
        IntTy::U16 => 0 <= n < 0x1_0000,
        IntTy::U32 => 0 <= n < 0x1_0000_0000,
        IntTy::U64 | IntTy::USize => 0 <= n < 0x1_0000_0000_0000_0000,
    }
}

/// The width that a type's integers take.
pub open spec fn room_of(t: IntTy) -> Width {
    match t {
        IntTy::I8 | IntTy::U8 => Width::I8,
        IntTy::I16 | IntTy::U16 => Width::I16,
        IntTy::I32 | IntTy::U32 => Width::I32,
        IntTy::I64 | IntTy::U64 | IntTy::ISize | IntTy::USize => Width::I64,
    }
}

/// What an operator gives on two integers, before it is brought into the range
/// of their type; nothing where there is no result. The bits of integers are
/// those of a width.
pub open spec fn means(op: HirBinOp, w: Width, a: int, b: int) -> Option<int> {
    match op {
        HirBinOp::Add => Some(a + b),
        HirBinOp::Sub => Some(a - b),
        HirBinOp::Mul => Some(a * b),
        HirBinOp::Div => if b == 0 {
            None
        } else {
            Some(quotient(a, b))
        },
        HirBinOp::Mod => if b == 0 {
            None
        } else {
            Some(remainder(a, b))
        },
        HirBinOp::Eq => Some(truth(a == b)),
        HirBinOp::Ne => Some(truth(a != b)),
        HirBinOp::Lt => Some(truth(a < b)),
        HirBinOp::Gt => Some(truth(a > b)),
        HirBinOp::Le => Some(truth(a <= b)),
        HirBinOp::Ge => Some(truth(a >= b)),
        HirBinOp::BitAnd => Some(both_bits(pattern(w, a), pattern(w, b))),
        HirBinOp::BitOr => Some(either_bits(pattern(w, a), pattern(w, b))),
        HirBinOp::BitXor => Some(differing_bits(pattern(w, a), pattern(w, b))),
        HirBinOp::Shl => Some(a * two_to((b % bits_of(w) as int) as nat)),
        HirBinOp::Shr => Some(a / two_to((b % bits_of(w) as int) as nat)),
    }
}

pub open spec fn compares(op: HirBinOp) -> bool {
    op is Eq || op is Ne || op is Lt || op is Gt || op is Le || op is Ge
}

} // verus!
