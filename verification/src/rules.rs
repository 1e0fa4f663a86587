//! What code each piece of a program becomes.

use vstd::prelude::*;

use crate::code::{
    Arith, CalleeV, Cond, Conversion, FloatCond, Gen, Negation, OpV, Width, here, no_code, put,
};
use crate::hir::{
    HirBinOp, HirBlock, HirExpr, HirExprKind, HirFn, HirItem, HirLet, HirLit, HirMatchArm,
    HirModule, HirParam, HirPattern, HirStmt, HirUnOp,
};
use crate::search::first_where;
use crate::table::lookup;
use crate::text::dec;
use crate::ty::{
    FloatTy, IntTy, SymbolId, Ty, TyV, float_name, int_name, int_signed, next_number, ty_text,
};
use crate::typing::position;

verus! {

/// What code generation reads: the program, and what each declared function
/// returns.
pub struct Env {
    pub hir: HirModule,
    pub fns: Map<SymbolId, Option<Width>>,
}

/// The code with a piece added and the value it gives, or why there is none.
pub type Made = Result<(Gen, Option<usize>), Seq<char>>;

// ---- types ----

pub open spec fn int_width(t: IntTy) -> Width {
    match t {
        IntTy::I8 | IntTy::U8 => Width::I8,
        IntTy::I16 | IntTy::U16 => Width::I16,
        IntTy::I32 | IntTy::U32 => Width::I32,
        IntTy::I64 | IntTy::U64 | IntTy::ISize | IntTy::USize => Width::I64,
    }
}

/// The machine type of a type's values: heap values are addresses.
pub open spec fn width_of(t: TyV) -> Result<Width, Seq<char>> {
    match t {
        TyV::Bool => Ok(Width::I8),
        TyV::Int(i) => Ok(int_width(i)),
        TyV::Float(FloatTy::F32) => Ok(Width::F32),
        TyV::Float(FloatTy::F64) => Ok(Width::F64),
        TyV::Char => Ok(Width::I32),
        TyV::Array(_, _) | TyV::Str | TyV::Struct(_, _) | TyV::Vec(_) | TyV::Enum(_, _) | TyV::Weak(_)
        | TyV::Dyn(_, _) => Ok(Width::I64),
        _ => Err("type `"@ + ty_text(t) + "` not supported in codegen"@),
    }
}

/// The machine type of a field: a type parameter takes a whole word.
pub open spec fn field_width(t: TyV) -> Result<Width, Seq<char>> {
    if t is TypeVar {
        Ok(Width::I64)
    } else {
        width_of(t)
    }
}

/// How many bytes an array element takes.
pub open spec fn elem_bytes(t: TyV) -> Result<u32, Seq<char>> {
    match t {
        TyV::Bool => Ok(1),
        TyV::Int(i) => Ok(width_bytes(int_width(i))),
        TyV::Char => Ok(4),
        TyV::Float(FloatTy::F32) => Ok(4),
        TyV::Float(FloatTy::F64) => Ok(8),
        TyV::Array(_, _) | TyV::Str | TyV::Struct(_, _) | TyV::Vec(_) | TyV::Enum(_, _) | TyV::Weak(_)
        | TyV::Dyn(_, _) => Ok(8),
        _ => Err("cannot determine size of `"@ + ty_text(t) + "`"@),
    }
}

pub open spec fn width_bytes(w: Width) -> u32 {
    match w {
        Width::I8 => 1,
        Width::I16 => 2,
        Width::I32 | Width::F32 => 4,
        Width::I64 | Width::F64 => 8,
    }
}

/// The size of so many eight-byte words, as far as offsets reach.
pub open spec fn words(n: nat) -> i32 {
    if n <= 0x0fff_ffff {
        (8 * n) as i32
    } else {
        i32::MAX
    }
}

/// The size of an array of so many elements, in whole words. Its count stands
/// after them.
pub open spec fn array_room(n: nat, each: u32) -> i32 {
    words(((n * each + 7) / 8) as nat)
}

pub open spec fn elem_offset(i: nat, each: u32) -> i32 {
    if i * each <= i32::MAX {
        (i * each) as i32
    } else {
        i32::MAX
    }
}

pub open spec fn is_signed_ty(t: TyV) -> bool {
    match t {
        TyV::Int(i) => int_signed(i),
        _ => false,
    }
}

/// Whether a type's values are reference counted.
pub open spec fn is_counted(hir: HirModule, t: TyV) -> bool {
    match t {
        TyV::Vec(_) | TyV::Str | TyV::Struct(_, _) | TyV::Weak(_) | TyV::Array(_, _) | TyV::Dyn(_, _) => true,
        TyV::Enum(s, _) => hir.enum_has_payload@.contains(s),
        _ => false,
    }
}

/// The most payloads among the first `k` variants.
pub open spec fn most(vs: Seq<Vec<Ty>>, k: nat) -> nat
    decreases k,
{
    if k == 0 || k > vs.len() {
        0
    } else {
        let before = most(vs, (k - 1) as nat);
        if vs[k - 1]@.len() > before {
            vs[k - 1]@.len()
        } else {
            before
        }
    }
}

/// The most payloads a variant of an enum has.
pub open spec fn max_arity(hir: HirModule, s: SymbolId) -> nat {
    if hir.enum_payload_tys@.contains_key(s) {
        most(hir.enum_payload_tys@[s]@, hir.enum_payload_tys@[s]@.len())
    } else {
        0
    }
}

/// The size of an enum's tag and payloads, after which its count stands.
pub open spec fn enum_size(hir: HirModule, s: SymbolId) -> i32 {
    words(max_arity(hir, s) + 1)
}

pub open spec fn struct_size(hir: HirModule, s: SymbolId) -> u32 {
    if hir.struct_sizes@.contains_key(s) {
        hir.struct_sizes@[s]
    } else {
        0
    }
}

/// Which element types are a type.
pub open spec fn elem_is(ts: Seq<Ty>, t: TyV) -> spec_fn(int) -> bool {
    |i: int| ts[i]@ == t
}

/// The position of a counted element type.
pub open spec fn elem_position(hir: HirModule, t: TyV) -> Option<int> {
    first_where(elem_is(hir.vec_arc_elem_tys@, t), hir.vec_arc_elem_tys@.len())
}

/// The position of an array type.
pub open spec fn array_position(hir: HirModule, t: TyV) -> Option<int> {
    first_where(elem_is(hir.array_tys@, t), hir.array_tys@.len())
}

/// The methods of a trait's objects in the order of their slots: its own, then
/// those of the traits it builds on.
pub open spec fn object_methods(hir: HirModule, t: SymbolId) -> Option<Seq<Seq<char>>> {
    if hir.trait_methods_flat@.contains_key(t) {
        let slots = hir.trait_methods_flat@[t]@;
        Some(Seq::new(slots.len(), |i: int| slots[i].1@))
    } else {
        None
    }
}

/// The size of a trait object with so many methods: their addresses, the value
/// and the address of the value's release function. Its count stands after
/// them.
pub open spec fn object_size(n: nat) -> i32 {
    words(n + 2)
}

// ---- the runtime ----

/// The parameters and the result of a runtime function.
pub struct RuntimeSig {
    pub name: Seq<char>,
    pub params: nat,
    pub ret: Option<Width>,
}

/// The functions of the runtime, by the short names code generation uses.
/// Every parameter is a word.
pub open spec fn runtime_sig(name: Seq<char>) -> Option<RuntimeSig> {
    if name == "print_i64"@ {
        Some(RuntimeSig { name: "rune_print_i64"@, params: 1, ret: None })
    } else if name == "vec_new"@ {
        Some(RuntimeSig { name: "rune_vec_new"@, params: 0, ret: Some(Width::I64) })
    } else if name == "vec_push"@ {
        Some(RuntimeSig { name: "rune_vec_push"@, params: 2, ret: None })
    } else if name == "vec_get"@ {
        Some(RuntimeSig { name: "rune_vec_get"@, params: 2, ret: Some(Width::I64) })
    } else if name == "vec_len"@ {
        Some(RuntimeSig { name: "rune_vec_len"@, params: 1, ret: Some(Width::I64) })
    } else if name == "print_str"@ {
        Some(RuntimeSig { name: "rune_print_str"@, params: 1, ret: None })
    } else if name == "str_eq"@ {
        Some(RuntimeSig { name: "rune_str_eq"@, params: 2, ret: Some(Width::I8) })
    } else if name == "str_concat"@ {
        Some(RuntimeSig { name: "rune_str_concat"@, params: 2, ret: Some(Width::I64) })
    } else if name == "str_slice"@ {
        Some(RuntimeSig { name: "rune_str_slice"@, params: 3, ret: Some(Width::I64) })
    } else if name == "str_starts_with"@ {
        Some(RuntimeSig { name: "rune_str_starts_with"@, params: 2, ret: Some(Width::I8) })
    } else if name == "str_ends_with"@ {
        Some(RuntimeSig { name: "rune_str_ends_with"@, params: 2, ret: Some(Width::I8) })
    } else if name == "str_contains"@ {
        Some(RuntimeSig { name: "rune_str_contains"@, params: 2, ret: Some(Width::I8) })
    } else if name == "panic_bounds"@ {
        Some(RuntimeSig { name: "rune_panic_bounds"@, params: 2, ret: None })
    } else if name == "retain_str"@ {
        Some(RuntimeSig { name: "rune_retain_str"@, params: 1, ret: None })
    } else if name == "release_str"@ {
        Some(RuntimeSig { name: "rune_release_str"@, params: 1, ret: None })
    } else if name == "retain_vec"@ {
        Some(RuntimeSig { name: "rune_retain_vec"@, params: 1, ret: None })
    } else if name == "release_vec"@ {
        Some(RuntimeSig { name: "rune_release_vec"@, params: 1, ret: None })
    } else if name == "weak_downgrade_vec"@ {
        Some(RuntimeSig { name: "rune_weak_downgrade_vec"@, params: 1, ret: Some(Width::I64) })
    } else if name == "weak_retain_vec"@ {
        Some(RuntimeSig { name: "rune_weak_retain_vec"@, params: 1, ret: None })
    } else if name == "weak_release_vec"@ {
        Some(RuntimeSig { name: "rune_weak_release_vec"@, params: 1, ret: None })
    } else if name == "weak_upgrade_vec"@ {
        Some(RuntimeSig { name: "rune_weak_upgrade_vec"@, params: 1, ret: Some(Width::I64) })
    } else if name == "weak_upgrade_or_vec"@ {
        Some(RuntimeSig { name: "rune_weak_upgrade_or_vec"@, params: 2, ret: Some(Width::I64) })
    } else if name == "struct_new"@ {
        Some(RuntimeSig { name: "rune_struct_new"@, params: 1, ret: Some(Width::I64) })
    } else if name == "struct_dealloc"@ {
        Some(RuntimeSig { name: "rune_struct_dealloc"@, params: 2, ret: None })
    } else if name == "enum_new"@ {
        Some(RuntimeSig { name: "rune_enum_new"@, params: 2, ret: Some(Width::I64) })
    } else if name == "retain_enum"@ {
        Some(RuntimeSig { name: "rune_retain_enum"@, params: 1, ret: None })
    } else if name == "release_enum"@ {
        Some(RuntimeSig { name: "rune_release_enum"@, params: 1, ret: None })
    } else if name == "enum_dealloc"@ {
        Some(RuntimeSig { name: "rune_enum_dealloc"@, params: 1, ret: None })
    } else if name == "panic_no_match"@ {
        Some(RuntimeSig { name: "rune_panic_no_match"@, params: 0, ret: None })
    } else {
        None
    }
}

/// A call of a runtime function.
pub open spec fn runtime_call(g: Gen, name: Seq<char>, args: Seq<usize>) -> Gen {
    put(g, OpV::Call(CalleeV::Runtime(name), args))
}

// ---- reference counts ----

/// The runtime function that counts a type's references up or down.
pub open spec fn counter_of(release: bool, t: TyV) -> Result<Seq<char>, Seq<char>> {
    match t {
        TyV::Vec(_) => Ok(
            if release {
                "release_vec"@
            } else {
                "retain_vec"@
            },
        ),
        TyV::Str => Ok(
            if release {
                "release_str"@
            } else {
                "retain_str"@
            },
        ),
        TyV::Enum(_, _) => Ok(
            if release {
                "release_enum"@
            } else {
                "retain_enum"@
            },
        ),
        TyV::Weak(inner) => if *inner is Vec {
            Ok(
                if release {
                    "weak_release_vec"@
                } else {
                    "weak_retain_vec"@
                },
            )
        } else {
            Err(no_counter(release, t))
        },
        _ => Err(no_counter(release, t)),
    }
}

pub open spec fn no_counter(release: bool, t: TyV) -> Seq<char> {
    "no ARC helper for action `"@ + (if release {
        "release"@
    } else {
        "retain"@
    }) + "` on `"@ + ty_text(t) + "`"@
}

/// One more reference to a heap value whose count stands at an offset.
pub open spec fn counted_up(g: Gen, v: usize, offset: i32) -> Gen {
    let g1 = put(g, OpV::Load(Width::I64, v, offset));
    let g2 = put(g1, OpV::Int(Width::I64, 1));
    let g3 = put(g2, OpV::Arith(Arith::Add, here(g), here(g1)));
    put(g3, OpV::Store(here(g2), v, offset))
}

/// The code that counts references to a value up or down.
pub open spec fn count_call(hir: HirModule, g: Gen, release: bool, t: TyV, v: usize) -> Result<Gen, Seq<char>> {
    match t {
        TyV::Struct(s, _) => if !release {
            Ok(counted_up(g, v, struct_size(hir, s) as i32))
        } else if hir.struct_sizes@.contains_key(s) {
            Ok(put(g, OpV::Call(CalleeV::ReleaseStruct(s), seq![v])))
        } else {
            Err("missing struct release fn"@)
        },
        TyV::Enum(s, _) => if hir.enum_has_payload@.contains(s) {
            if !release {
                Ok(counted_up(g, v, enum_size(hir, s)))
            } else {
                Ok(put(g, OpV::Call(CalleeV::ReleaseEnum(s), seq![v])))
            }
        } else {
            helper_call(g, release, t, v)
        },
        TyV::Vec(e) => match elem_position(hir, *e) {
            Some(i) => if release {
                Ok(put(g, OpV::Call(CalleeV::ReleaseVec(i as usize), seq![v])))
            } else {
                helper_call(g, release, t, v)
            },
            None => helper_call(g, release, t, v),
        },
        TyV::Array(e, n) => if release {
            array_release_call(hir, g, t, v)
        } else {
            match elem_bytes(*e) {
                Ok(each) => Ok(counted_up(g, v, array_room(n as nat, each))),
                Err(m) => Err(m),
            }
        },
        TyV::Dyn(d, _) => object_count_call(hir, g, release, d, v),
        _ => helper_call(g, release, t, v),
    }
}

/// The code that counts references to a trait object up or down.
pub open spec fn object_count_call(hir: HirModule, g: Gen, release: bool, t: SymbolId, v: usize) -> Result<
    Gen,
    Seq<char>,
> {
    match object_methods(hir, t) {
        None => Err("dyn: unknown trait"@),
        Some(names) => Ok(
            if release {
                put(g, OpV::Call(CalleeV::ReleaseDyn(t), seq![v]))
            } else {
                counted_up(g, v, object_size(names.len()))
            },
        ),
    }
}

pub open spec fn array_release_call(hir: HirModule, g: Gen, t: TyV, v: usize) -> Result<Gen, Seq<char>> {
    match array_position(hir, t) {
        Some(i) => Ok(put(g, OpV::Call(CalleeV::ReleaseArray(i as usize), seq![v]))),
        None => Err("missing array release fn"@),
    }
}

pub open spec fn helper_call(g: Gen, release: bool, t: TyV, v: usize) -> Result<Gen, Seq<char>> {
    match counter_of(release, t) {
        Ok(name) => Ok(runtime_call(g, name, seq![v])),
        Err(m) => Err(m),
    }
}

/// The code that releases the owning locals from the `n`th back to the
/// `target`th.
pub open spec fn released(hir: HirModule, g: Gen, target: nat, n: nat) -> Result<Gen, Seq<char>>
    decreases n,
{
    if n <= target || n > g.owned.len() {
        Ok(g)
    } else {
        let (var, t) = g.owned[n - 1];
        match count_call(hir, put(g, OpV::Read(var)), true, t, here(g)) {
            Ok(g1) => released(hir, g1, target, (n - 1) as nat),
            Err(m) => Err(m),
        }
    }
}

/// Whether an expression reads a value that something else goes on holding: a
/// local, an array's element, or a field with an array or a trait object.
pub open spec fn is_held(e: HirExpr) -> bool {
    e.kind is Local || e.kind is Index || e.kind is FieldAccess && (e.ty@ is Array || e.ty@ is Dyn)
}

/// A value kept somewhere new: when it is held already, it is counted once
/// more.
pub open spec fn kept(hir: HirModule, g: Gen, e: HirExpr, v: usize) -> Result<Gen, Seq<char>> {
    if is_counted(hir, e.ty@) && is_held(e) {
        count_call(hir, g, false, e.ty@, v)
    } else {
        Ok(g)
    }
}

// ---- small pieces ----

pub open spec fn into_block(g: Gen, b: usize) -> Gen {
    put(put(g, OpV::Switch(b)), OpV::Seal(b))
}

pub open spec fn byte_len(s: Seq<char>) -> i64 {
    (vstd::utf8::encode_utf8(s).len() as usize) as i64
}

/// A text's descriptor on the stack: its bytes, their number, and the mark of
/// a value that is never reclaimed.
pub open spec fn text_literal(g: Gen, s: Seq<char>) -> Gen {
    let g1 = if s.len() == 0 {
        put(g, OpV::Int(Width::I64, 0))
    } else {
        put(Gen { texts: next_number(g.texts), ..g }, OpV::Text(g.texts, s))
    };
    let bytes = here(g);
    let g2 = put(g1, OpV::Slot(24));
    let slot = here(g1);
    let g3 = put(g2, OpV::SlotStore(bytes, slot, 0));
    let g4 = put(g3, OpV::Int(Width::I64, byte_len(s)));
    let g5 = put(g4, OpV::SlotStore(here(g3), slot, 8));
    let g6 = put(g5, OpV::Int(Width::I64, -1i64));
    let g7 = put(g6, OpV::SlotStore(here(g5), slot, 16));
    put(g7, OpV::SlotAddr(slot))
}

/// Where `text_literal` leaves the descriptor's address.
pub open spec fn last_op(g: Gen) -> usize {
    (g.ops.len() - 1) as usize
}

pub open spec fn literal(g: Gen, lit: HirLit) -> (Gen, Option<usize>) {
    match lit {
        HirLit::Int(v, t) => (put(g, OpV::Int(int_width(t), v)), Some(here(g))),
        HirLit::Float(s, t) => (put(g, OpV::Float(t, s@)), Some(here(g))),
        HirLit::Bool(b) => (
            put(
                g,
                OpV::Int(
                    Width::I8,
                    if b {
                        1
                    } else {
                        0
                    },
                ),
            ),
            Some(here(g)),
        ),
        HirLit::Char(c) => (put(g, OpV::Int(Width::I32, c as i64)), Some(here(g))),
        HirLit::Str(s) => (text_literal(g, s@), Some(last_op(text_literal(g, s@)))),
        HirLit::Unit => (g, None),
    }
}

/// Whether a type has a value at run time.
pub open spec fn has_value(t: TyV) -> bool {
    !(t is Unit) && !(t is Never)
}

/// The checks that an index lies in range, and the block to go on in.
pub open spec fn bounds_checked(g: Gen, i: usize, len: usize) -> Gen {
    let g1 = put(g, OpV::Int(Width::I64, 0));
    let g2 = put(g1, OpV::Compare(Cond::SGreaterEqual, i, here(g)));
    let g3 = put(g2, OpV::Compare(Cond::SLess, i, len));
    let g4 = put(g3, OpV::Arith(Arith::And, here(g1), here(g2)));
    let g5 = put(g4, OpV::Block);
    let ok = here(g4);
    let g6 = put(g5, OpV::Block);
    let bad = here(g5);
    let g7 = into_block(put(g6, OpV::Branch(here(g3), ok, bad)), bad);
    let g8 = put(runtime_call(g7, "panic_bounds"@, seq![i, len]), OpV::Trap(1));
    into_block(g8, ok)
}

// ---- operators ----

pub open spec fn int_op(op: HirBinOp, signed: bool) -> Option<Arith> {
    match op {
        HirBinOp::Add => Some(Arith::Add),
        HirBinOp::Sub => Some(Arith::Sub),
        HirBinOp::Mul => Some(Arith::Mul),
        HirBinOp::Div => Some(
            if signed {
                Arith::SDiv
            } else {
                Arith::UDiv
            },
        ),
        HirBinOp::Mod => Some(
            if signed {
                Arith::SRem
            } else {
                Arith::URem
            },
        ),
        HirBinOp::BitAnd => Some(Arith::And),
        HirBinOp::BitOr => Some(Arith::Or),
        HirBinOp::BitXor => Some(Arith::Xor),
        HirBinOp::Shl => Some(Arith::Shl),
        HirBinOp::Shr => Some(
            if signed {
                Arith::SShr
            } else {
                Arith::UShr
            },
        ),
        _ => None,
    }
}

pub open spec fn float_op(op: HirBinOp) -> Option<Arith> {
    match op {
        HirBinOp::Add => Some(Arith::FAdd),
        HirBinOp::Sub => Some(Arith::FSub),
        HirBinOp::Mul => Some(Arith::FMul),
        HirBinOp::Div => Some(Arith::FDiv),
        _ => None,
    }
}

pub open spec fn int_cond(op: HirBinOp, signed: bool) -> Option<Cond> {
    match op {
        HirBinOp::Eq => Some(Cond::Equal),
        HirBinOp::Ne => Some(Cond::NotEqual),
        HirBinOp::Lt => Some(
            if signed {
                Cond::SLess
            } else {
                Cond::ULess
            },
        ),
        HirBinOp::Gt => Some(
            if signed {
                Cond::SGreater
            } else {
                Cond::UGreater
            },
        ),
        HirBinOp::Le => Some(
            if signed {
                Cond::SLessEqual
            } else {
                Cond::ULessEqual
            },
        ),
        HirBinOp::Ge => Some(
            if signed {
                Cond::SGreaterEqual
            } else {
                Cond::UGreaterEqual
            },
        ),
        _ => None,
    }
}

pub open spec fn float_cond(op: HirBinOp) -> Option<FloatCond> {
    match op {
        HirBinOp::Eq => Some(FloatCond::Equal),
        HirBinOp::Ne => Some(FloatCond::NotEqual),
        HirBinOp::Lt => Some(FloatCond::Less),
        HirBinOp::Gt => Some(FloatCond::Greater),
        HirBinOp::Le => Some(FloatCond::LessEqual),
        HirBinOp::Ge => Some(FloatCond::GreaterEqual),
        _ => None,
    }
}

/// An operator on two values of a type. The result is the last operation.
pub open spec fn operation(g: Gen, op: HirBinOp, l: usize, r: usize, t: TyV) -> Result<Gen, Seq<char>> {
    if t is Str && op is Add {
        Ok(runtime_call(g, "str_concat"@, seq![l, r]))
    } else if t is Str && (op is Eq || op is Ne) {
        let g1 = runtime_call(g, "str_eq"@, seq![l, r]);
        if op is Eq {
            Ok(g1)
        } else {
            let g2 = put(g1, OpV::Int(Width::I8, 1));
            Ok(put(g2, OpV::Arith(Arith::Xor, here(g), here(g1))))
        }
    } else if t is Float && op is Mod {
        Err("float modulo not supported"@)
    } else if t is Float && float_op(op) is Some {
        Ok(put(g, OpV::Arith(float_op(op)->0, l, r)))
    } else if t is Float && float_cond(op) is Some {
        Ok(put(g, OpV::CompareFloat(float_cond(op)->0, l, r)))
    } else {
        match int_op(op, is_signed_ty(t)) {
            Some(a) => Ok(put(g, OpV::Arith(a, l, r))),
            None => match int_cond(op, is_signed_ty(t)) {
                Some(c) => Ok(put(g, OpV::Compare(c, l, r))),
                None => Ok(g),
            },
        }
    }
}

/// An operator, with where its result is.
pub open spec fn value_of_operation(g: Gen, op: HirBinOp, l: usize, r: usize, t: TyV) -> Result<(Gen, usize), Seq<char>> {
    match operation(g, op, l, r, t) {
        Ok(g1) => Ok((g1, last_op(g1))),
        Err(m) => Err(m),
    }
}

pub open spec fn value_of_unary(g: Gen, op: HirUnOp, v: usize, t: TyV) -> Result<(Gen, usize), Seq<char>> {
    match unary(g, op, v, t) {
        Ok(g1) => Ok((g1, last_op(g1))),
        Err(m) => Err(m),
    }
}

pub open spec fn unary(g: Gen, op: HirUnOp, v: usize, t: TyV) -> Result<Gen, Seq<char>> {
    match op {
        HirUnOp::Neg => match t {
            TyV::Int(_) => Ok(put(g, OpV::Negate(Negation::Int, v))),
            TyV::Float(_) => Ok(put(g, OpV::Negate(Negation::Float, v))),
            _ => Err("cannot negate `"@ + ty_text(t) + "`"@),
        },
        HirUnOp::Not => Ok(put(put(g, OpV::Int(Width::I8, 1)), OpV::Arith(Arith::Xor, v, here(g)))),
        HirUnOp::BitNot => Ok(put(g, OpV::Negate(Negation::Bits, v))),
    }
}

/// A value of one type as a value of another: the code, and where the
/// result is.
pub open spec fn converted(g: Gen, v: usize, from: TyV, to: TyV) -> Result<(Gen, usize), Seq<char>> {
    if from == to {
        Ok((g, v))
    } else {
        match (width_of(to), width_of(from)) {
            (Err(m), _) => Err(m),
            (Ok(_), Err(m)) => Err(m),
            (Ok(tw), Ok(fw)) => {
                let from_whole = from is Int || from is Bool || from is Char;
                if from_whole && (to is Int || to is Char) {
                    if width_bytes(tw) == width_bytes(fw) {
                        Ok((g, v))
                    } else if width_bytes(tw) > width_bytes(fw) {
                        if is_signed_ty(from) {
                            Ok((put(g, OpV::Convert(Conversion::SignExtend, tw, v)), here(g)))
                        } else {
                            Ok((put(g, OpV::Convert(Conversion::ZeroExtend, tw, v)), here(g)))
                        }
                    } else {
                        Ok((put(g, OpV::Convert(Conversion::Truncate, tw, v)), here(g)))
                    }
                } else if (from is Int || from is Char) && to is Bool {
                    let g1 = put(g, OpV::Int(fw, 0));
                    Ok((put(g1, OpV::Compare(Cond::NotEqual, v, here(g))), here(g1)))
                } else if from is Bool && to is Float {
                    let g1 = put(g, OpV::Convert(Conversion::ZeroExtend, Width::I32, v));
                    Ok((put(g1, OpV::Convert(Conversion::FloatFromUnsigned, tw, here(g))), here(g1)))
                } else if from is Int && to is Float {
                    Ok(
                        (
                            put(
                                g,
                                OpV::Convert(
                                    if is_signed_ty(from) {
                                        Conversion::FloatFromSigned
                                    } else {
                                        Conversion::FloatFromUnsigned
                                    },
                                    tw,
                                    v,
                                ),
                            ),
                            here(g),
                        ),
                    )
                } else if from is Float && to is Int {
                    Ok(
                        (
                            put(
                                g,
                                OpV::Convert(
                                    if is_signed_ty(to) {
                                        Conversion::SignedFromFloat
                                    } else {
                                        Conversion::UnsignedFromFloat
                                    },
                                    tw,
                                    v,
                                ),
                            ),
                            here(g),
                        ),
                    )
                } else if from is Float && to is Float {
                    if width_bytes(tw) > width_bytes(fw) {
                        Ok((put(g, OpV::Convert(Conversion::Promote, tw, v)), here(g)))
                    } else if width_bytes(tw) < width_bytes(fw) {
                        Ok((put(g, OpV::Convert(Conversion::Demote, tw, v)), here(g)))
                    } else {
                        Ok((g, v))
                    }
                } else {
                    Err("no `as` codegen for `"@ + ty_text(from) + "` -> `"@ + ty_text(to) + "`"@)
                }
            },
        }
    }
}

/// A value widened to a word.
pub open spec fn widened(g: Gen, v: usize, w: Width, signed: bool) -> (Gen, usize) {
    if w is I64 {
        (g, v)
    } else if signed {
        (put(g, OpV::Convert(Conversion::SignExtend, Width::I64, v)), here(g))
    } else {
        (put(g, OpV::Convert(Conversion::ZeroExtend, Width::I64, v)), here(g))
    }
}

/// A word narrowed to a width.
pub open spec fn narrowed(g: Gen, v: usize, w: Width) -> (Gen, usize) {
    if w is I64 {
        (g, v)
    } else {
        (put(g, OpV::Convert(Conversion::Truncate, w, v)), here(g))
    }
}

/// Whether a payload is widened with its sign.
pub open spec fn extends_sign(t: TyV) -> bool {
    match t {
        TyV::Int(IntTy::I8) | TyV::Int(IntTy::I16) | TyV::Int(IntTy::I32) | TyV::Int(IntTy::ISize) => true,
        _ => false,
    }
}

/// A new heap block of a size. Its address is the last operation.
pub open spec fn allocated(g: Gen, size: i64) -> Gen {
    runtime_call(put(g, OpV::Int(Width::I64, size)), "struct_new"@, seq![here(g)])
}

/// A new enum value with its tag set. Its address is two operations back.
pub open spec fn tagged(g: Gen, size: i64, tag: u32) -> Gen {
    let g1 = allocated(g, size);
    let g2 = put(g1, OpV::Int(Width::I64, tag as i64));
    put(g2, OpV::Store(here(g1), last_op(g1), 0))
}

pub open spec fn unit_variant(hir: HirModule, g: Gen, t: TyV, tag: u32) -> (Gen, usize) {
    match t {
        TyV::Enum(s, _) => if hir.enum_has_payload@.contains(s) {
            (
                tagged(g, enum_size(hir, s) as i64, tag),
                last_op(allocated(g, enum_size(hir, s) as i64)),
            )
        } else {
            (put(g, OpV::Int(Width::I64, tag as i64)), here(g))
        },
        _ => (put(g, OpV::Int(Width::I64, tag as i64)), here(g)),
    }
}

/// The next round of a counted loop.
pub open spec fn stepped(g: Gen, counter: usize, header: usize) -> Gen {
    if g.filled {
        g
    } else {
        let g1 = put(g, OpV::Read(counter));
        let g2 = put(g1, OpV::Int(Width::I64, 1));
        let g3 = put(g2, OpV::Arith(Arith::Add, here(g), here(g1)));
        put(put(g3, OpV::Assign(counter, here(g2))), OpV::Jump(header, seq![]))
    }
}

/// The end of a loop: its header takes no more jumps, and code goes on after
/// it.
pub open spec fn loop_closed(g: Gen, header: usize, exit: usize) -> Gen {
    into_block(
        put(
            Gen {
                loops: if g.loops.len() == 0 {
                    g.loops
                } else {
                    g.loops.drop_last()
                },
                ..g
            },
            OpV::Seal(header),
        ),
        exit,
    )
}

pub open spec fn in_loop(g: Gen, exit: usize) -> Gen {
    Gen { loops: g.loops.push((exit, g.owned.len() as usize)), ..g }
}

/// A jump to the block a value is merged in.
pub open spec fn merged(g: Gen, merge: usize, wants: bool, v: Option<usize>, msg: Seq<char>) -> Result<Gen, Seq<char>> {
    if g.filled {
        Ok(g)
    } else if wants {
        match v {
            Some(v) => Ok(put(g, OpV::Jump(merge, seq![v]))),
            None => Err(msg),
        }
    } else {
        Ok(put(g, OpV::Jump(merge, seq![])))
    }
}

// ---- patterns ----

/// A binding of a payload pattern: the payload loaded into a variable.
pub open spec fn payload_bound(g: Gen, v: usize, t: TyV, s: Option<SymbolId>, offset: i32) -> Result<Gen, Seq<char>> {
    match s {
        None => Ok(g),
        Some(s) => {
            let g2 = put(g, OpV::Load(Width::I64, v, offset));
            match width_of(t) {
                Err(m) => Err(m),
                Ok(w) => {
                    let (g3, x) = narrowed(g2, here(g), w);
                    let g4 = put(put(g3, OpV::Var(w)), OpV::Assign(here(g3), x));
                    Ok(Gen { vars: g4.vars.insert(s, here(g3)), ..g4 })
                },
            }
        },
    }
}

/// The first `k` bindings of a payload pattern: each loaded into a variable.
pub open spec fn payloads_bound(
    g: Gen,
    v: usize,
    bs: Seq<(Ty, Option<SymbolId>)>,
    k: nat,
) -> Result<Gen, Seq<char>>
    decreases k,
{
    if k == 0 || k > bs.len() {
        Ok(g)
    } else {
        match payloads_bound(g, v, bs, (k - 1) as nat) {
            Err(m) => Err(m),
            Ok(g1) => payload_bound(g1, v, bs[k - 1].0@, bs[k - 1].1, words(k)),
        }
    }
}

/// The check of a pattern against a value: on to one block when it matches,
/// to another when it does not.
pub open spec fn pattern_checked(
    hir: HirModule,
    g: Gen,
    p: HirPattern,
    v: usize,
    t: TyV,
    yes: usize,
    no: usize,
) -> Result<Gen, Seq<char>> {
    match p {
        HirPattern::Wildcard => Ok(put(g, OpV::Jump(yes, seq![]))),
        HirPattern::Bind(_) => Ok(put(g, OpV::Jump(yes, seq![]))),
        HirPattern::IntLit(n) => match width_of(t) {
            Err(m) => Err(m),
            Ok(w) => {
                let g1 = put(g, OpV::Int(w, n));
                let g2 = put(g1, OpV::Compare(Cond::Equal, v, here(g)));
                Ok(put(g2, OpV::Branch(here(g1), yes, no)))
            },
        },
        HirPattern::BoolLit(b) => {
            let g1 = put(
                g,
                OpV::Int(
                    Width::I8,
                    if b {
                        1
                    } else {
                        0
                    },
                ),
            );
            let g2 = put(g1, OpV::Compare(Cond::Equal, v, here(g)));
            Ok(put(g2, OpV::Branch(here(g1), yes, no)))
        },
        HirPattern::StrLit(s) => {
            let g1 = text_literal(g, s@);
            let g2 = runtime_call(g1, "str_eq"@, seq![v, last_op(g1)]);
            Ok(put(g2, OpV::Branch(here(g1), yes, no)))
        },
        HirPattern::EnumVariant { discriminant } => {
            let loads = match t {
                TyV::Enum(s, _) => hir.enum_has_payload@.contains(s),
                _ => false,
            };
            let (g1, tag) = if loads {
                (put(g, OpV::Load(Width::I64, v, 0)), here(g))
            } else {
                (g, v)
            };
            let g2 = put(g1, OpV::Int(Width::I64, discriminant as i64));
            let g3 = put(g2, OpV::Compare(Cond::Equal, tag, here(g1)));
            Ok(put(g3, OpV::Branch(here(g2), yes, no)))
        },
        HirPattern::EnumPayload { discriminant, bindings } => {
            let g1 = put(g, OpV::Load(Width::I64, v, 0));
            let g2 = put(g1, OpV::Int(Width::I64, discriminant as i64));
            let g3 = put(g2, OpV::Compare(Cond::Equal, here(g), here(g1)));
            let g4 = put(g3, OpV::Block);
            let g5 = into_block(put(g4, OpV::Branch(here(g2), here(g3), no)), here(g3));
            match payloads_bound(g5, v, bindings@, bindings@.len()) {
                Err(m) => Err(m),
                Ok(g6) => Ok(put(g6, OpV::Jump(yes, seq![]))),
            }
        },
        HirPattern::IntRange { lo, hi, inclusive } => match width_of(t) {
            Err(m) => Err(m),
            Ok(w) => {
                let signed = is_signed_ty(t) || t is Char;
                let at_most = if signed {
                    Cond::SLessEqual
                } else {
                    Cond::ULessEqual
                };
                let below = if signed {
                    Cond::SLess
                } else {
                    Cond::ULess
                };
                let g1 = put(g, OpV::Int(w, lo));
                let g2 = put(g1, OpV::Int(w, hi));
                let g3 = put(g2, OpV::Compare(at_most, here(g), v));
                let g4 = put(g3, OpV::Block);
                let g5 = into_block(put(g4, OpV::Branch(here(g2), here(g3), no)), here(g3));
                let g6 = put(
                    g5,
                    OpV::Compare(
                        if inclusive {
                            at_most
                        } else {
                            below
                        },
                        v,
                        here(g1),
                    ),
                );
                Ok(put(g6, OpV::Branch(here(g5), yes, no)))
            },
        },
    }
}

/// The first `k` alternatives of an arm: the first that matches leads to the
/// body, and the last one's failure to the next arm.
pub open spec fn alternatives_checked(
    hir: HirModule,
    g: Gen,
    ps: Seq<HirPattern>,
    v: usize,
    t: TyV,
    body: usize,
    next: usize,
    k: nat,
) -> Result<Gen, Seq<char>>
    decreases k,
{
    if k == 0 || k > ps.len() {
        Ok(g)
    } else {
        match alternatives_checked(hir, g, ps, v, t, body, next, (k - 1) as nat) {
            Err(m) => Err(m),
            Ok(g1) => if k == ps.len() {
                pattern_checked(hir, g1, ps[k - 1], v, t, body, next)
            } else {
                match pattern_checked(hir, put(g1, OpV::Block), ps[k - 1], v, t, body, here(g1)) {
                    Err(m) => Err(m),
                    Ok(g2) => Ok(into_block(g2, here(g1))),
                }
            },
        }
    }
}

/// The first `k` blocks of a row of new blocks.
pub open spec fn new_blocks(g: Gen, k: nat) -> (Gen, Seq<usize>)
    decreases k,
{
    if k == 0 {
        (g, seq![])
    } else {
        let (g1, bs) = new_blocks(g, (k - 1) as nat);
        (put(g1, OpV::Block), bs.push(here(g1)))
    }
}

// ---- expressions ----

pub open spec fn wanted(m: Made, msg: Seq<char>) -> Result<(Gen, usize), Seq<char>> {
    match m {
        Ok((g, Some(v))) => Ok((g, v)),
        Ok((_, None)) => Err(msg),
        Err(m) => Err(m),
    }
}

/// The first `k` of some expressions, each of which must give a value.
pub open spec fn all_made(env: Env, g: Gen, es: Seq<HirExpr>, msg: Seq<char>, k: nat) -> Result<
    (Gen, Seq<usize>),
    Seq<char>,
>
    decreases es, k,
{
    if k == 0 || k > es.len() {
        Ok((g, seq![]))
    } else {
        match all_made(env, g, es, msg, (k - 1) as nat) {
            Err(m) => Err(m),
            Ok((g1, vs)) => match wanted(made(env, g1, es[k - 1]), msg) {
                Err(m) => Err(m),
                Ok((g2, v)) => Ok((g2, vs.push(v))),
            },
        }
    }
}

/// An expression that must give a value.
pub open spec fn value_made(env: Env, g: Gen, e: HirExpr, msg: Seq<char>) -> Result<(Gen, usize), Seq<char>>
    decreases e, 3nat,
{
    wanted(made(env, g, e), msg)
}

/// The result of a call whose result may be nothing.
pub open spec fn call_result(g: Gen, ret: Option<Width>) -> Option<usize> {
    match ret {
        Some(_) => Some(here(g)),
        None => None,
    }
}

pub open spec fn runtime_result(g: Gen, name: Seq<char>) -> Option<usize> {
    match runtime_sig(name) {
        Some(sig) => call_result(g, sig.ret),
        None => None,
    }
}

/// The code of an expression.
pub open spec fn made(env: Env, g: Gen, e: HirExpr) -> Made
    decreases e, 2nat,
{
    match e.kind {
        HirExprKind::Lit(lit) => Ok(literal(g, lit)),
        HirExprKind::Local(s) => match lookup(g.vars, s) {
            Some(x) => Ok((put(g, OpV::Read(x)), Some(here(g)))),
            None => Err("unknown local"@),
        },
        HirExprKind::Fn(_) => Err("first-class function values are not supported"@),
        HirExprKind::EnumVariant { discriminant } => {
            let (g1, v) = unit_variant(env.hir, g, e.ty@, discriminant);
            Ok((g1, Some(v)))
        },
        HirExprKind::EnumPayloadCtor { .. } => made_variant(env, g, e),
        HirExprKind::Unary { op, expr } => match value_made(env, g, *expr, "unary operand produced no value"@) {
            Err(m) => Err(m),
            Ok((g1, v)) => match unary(g1, op, v, e.ty@) {
                Err(m) => Err(m),
                Ok(g2) => Ok((g2, Some(last_op(g2)))),
            },
        },
        HirExprKind::Cast { expr } => match value_made(env, g, *expr, "cast operand produced no value"@) {
            Err(m) => Err(m),
            Ok((g1, v)) => match converted(g1, v, expr.ty@, e.ty@) {
                Err(m) => Err(m),
                Ok((g2, r)) => Ok((g2, Some(r))),
            },
        },
        HirExprKind::Binary { op, lhs, rhs } => match value_made(env, g, *lhs, "lhs produced no value"@) {
            Err(m) => Err(m),
            Ok((g1, l)) => match value_made(env, g1, *rhs, "rhs produced no value"@) {
                Err(m) => Err(m),
                Ok((g2, r)) => match operation(
                    g2,
                    op,
                    l,
                    r,
                    if int_cond(op, true) is Some {
                        lhs.ty@
                    } else {
                        e.ty@
                    },
                ) {
                    Err(m) => Err(m),
                    Ok(g3) => Ok((g3, Some(last_op(g3)))),
                },
            },
        },
        HirExprKind::Logical { .. } => made_logical(env, g, e),
        HirExprKind::Assign { .. } => made_assign(env, g, e),
        HirExprKind::AssignOp { .. } => made_assign(env, g, e),
        HirExprKind::Call { callee, args } => if !env.fns.contains_key(callee) {
            Err("call to undeclared function"@)
        } else {
            match all_made(env, g, args@, "call arg produced no value"@, args@.len()) {
                Err(m) => Err(m),
                Ok((g1, vs)) => Ok(
                    (put(g1, OpV::Call(CalleeV::Fn(callee), vs)), call_result(g1, env.fns[callee])),
                ),
            }
        },
        HirExprKind::IndirectCall { .. } => Err("indirect calls are not supported"@),
        HirExprKind::BuiltinCall { name, args } => if runtime_sig(name@) is None {
            Err("unknown builtin `"@ + name@ + "`"@)
        } else {
            match all_made(env, g, args@, "builtin arg produced no value"@, args@.len()) {
                Err(m) => Err(m),
                Ok((g1, vs)) => Ok((runtime_call(g1, name@, vs), runtime_result(g1, name@))),
            }
        },
        HirExprKind::MethodCall { .. } => made_method(env, g, e),
        HirExprKind::DynBox { .. } => made_box(env, g, e),
        HirExprKind::DynCall { .. } => made_object_call(env, g, e),
        HirExprKind::StructLit { fields, size, .. } => {
            let g1 = allocated(g, size as i64);
            match fields_made(env, g1, fields@, last_op(g1), fields@.len()) {
                Err(m) => Err(m),
                Ok(g2) => Ok((g2, Some(last_op(g1)))),
            }
        },
        HirExprKind::FieldAccess { receiver, offset, field_ty } => match value_made(
            env,
            g,
            *receiver,
            "field-access receiver produced no value"@,
        ) {
            Err(m) => Err(m),
            Ok((g1, p)) => match field_width(field_ty@) {
                Err(m) => Err(m),
                Ok(w) => Ok((put(g1, OpV::Load(w, p, offset as i32)), Some(here(g1)))),
            },
        },
        HirExprKind::FieldAssign { .. } => made_field_assign(env, g, e),
        HirExprKind::Array { elems, elem_ty } => match (width_of(elem_ty@), elem_bytes(elem_ty@)) {
            (Err(m), _) => Err(m),
            (Ok(_), Err(m)) => Err(m),
            (Ok(_), Ok(each)) => if elems@.len() == 0 {
                Err("empty arrays not yet supported"@)
            } else {
                let g1 = allocated(g, array_room(elems@.len(), each) as i64);
                match elems_made(env, g1, elems@, last_op(g1), each, elems@.len()) {
                    Err(m) => Err(m),
                    Ok(g2) => Ok((g2, Some(last_op(g1)))),
                }
            },
        },
        HirExprKind::Index { .. } => made_index(env, g, e),
        HirExprKind::StrByteIndex { .. } => made_index(env, g, e),
        HirExprKind::StrSlice { .. } => made_slice(env, g, e),
        HirExprKind::For { .. } => made_for(env, g, e),
        HirExprKind::ForRange { .. } => made_for_range(env, g, e),
        HirExprKind::Block(b) => made_block(env, g, b),
        HirExprKind::If { .. } => made_if(env, g, e),
        HirExprKind::While { .. } => made_while(env, g, e),
        HirExprKind::Match { .. } => made_match(env, g, e),
        HirExprKind::Return(_) => made_return(env, g, e),
        HirExprKind::Break => if g.loops.len() == 0 {
            Err("`break` outside of a loop"@)
        } else {
            let (exit, target) = g.loops.last();
            match released(env.hir, g, target as nat, g.owned.len()) {
                Err(m) => Err(m),
                Ok(g1) => Ok((after_jump(put(g1, OpV::Jump(exit, seq![]))), None)),
            }
        },
        HirExprKind::Unsupported(m) => Err("unsupported in codegen: "@ + m@),
    }
}

/// A block that nothing leads to, for what follows a jump away.
pub open spec fn after_jump(g: Gen) -> Gen {
    into_block(put(g, OpV::Block), here(g))
}

/// The first `k` payloads of a new enum value, each widened to a word.
pub open spec fn payloads_made(env: Env, g: Gen, ps: Seq<HirExpr>, p: usize, k: nat) -> Result<Gen, Seq<char>>
    decreases ps, k,
{
    if k == 0 || k > ps.len() {
        Ok(g)
    } else {
        match payloads_made(env, g, ps, p, (k - 1) as nat) {
            Err(m) => Err(m),
            Ok(g1) => match wanted(made(env, g1, ps[k - 1]), "variant payload produced no value"@) {
                Err(m) => Err(m),
                Ok((g2, v)) => match kept(env.hir, g2, ps[k - 1], v) {
                    Err(m) => Err(m),
                    Ok(g3) => match width_of(ps[k - 1].ty@) {
                        Err(m) => Err(m),
                        Ok(w) => {
                            let (g4, x) = widened(g3, v, w, extends_sign(ps[k - 1].ty@));
                            Ok(put(g4, OpV::Store(x, p, words(k))))
                        },
                    },
                },
            },
        }
    }
}

pub open spec fn made_variant(env: Env, g: Gen, e: HirExpr) -> Made
    decreases e, 1nat,
{
    match e.kind {
        HirExprKind::EnumPayloadCtor { enum_sym, discriminant, payloads } => {
            let size = enum_size(env.hir, enum_sym) as i64;
            let p = last_op(allocated(g, size));
            match payloads_made(env, tagged(g, size, discriminant), payloads@, p, payloads@.len()) {
                Err(m) => Err(m),
                Ok(g1) => Ok((g1, Some(p))),
            }
        },
        _ => Err(""@),
    }
}

/// One side of a short-circuit operator: the right operand, or a constant.
pub open spec fn side_made(env: Env, g: Gen, e: HirExpr, runs: bool, constant: i64) -> Result<(Gen, usize), Seq<char>>
    decreases e, 3nat,
{
    if runs {
        wanted(made(env, g, e), "logical rhs produced no value"@)
    } else {
        Ok((put(g, OpV::Int(Width::I8, constant)), here(g)))
    }
}

pub open spec fn jumped(g: Gen, b: usize, v: usize) -> Gen {
    if g.filled {
        g
    } else {
        put(g, OpV::Jump(b, seq![v]))
    }
}

pub open spec fn made_logical(env: Env, g: Gen, e: HirExpr) -> Made
    decreases e, 1nat,
{
    match e.kind {
        HirExprKind::Logical { op, lhs, rhs } => match value_made(env, g, *lhs, "logical lhs produced no value"@) {
            Err(m) => Err(m),
            Ok((g0, l)) => {
                let g1 = put(g0, OpV::Block);
                let g2 = put(g1, OpV::Block);
                let g3 = put(g2, OpV::Block);
                let (yes, no, merge) = (here(g0), here(g1), here(g2));
                let g4 = put(g3, OpV::BlockParam(merge, Width::I8));
                let out = here(g3);
                let g5 = into_block(put(g4, OpV::Branch(l, yes, no)), yes);
                match side_made(env, g5, *rhs, op is And, 1) {
                    Err(m) => Err(m),
                    Ok((g6, a)) => match side_made(env, into_block(jumped(g6, merge, a), no), *rhs, op is Or, 0) {
                        Err(m) => Err(m),
                        Ok((g7, b)) => Ok((into_block(jumped(g7, merge, b), merge), Some(out))),
                    },
                }
            },
        },
        _ => Err(""@),
    }
}

pub open spec fn made_assign(env: Env, g: Gen, e: HirExpr) -> Made
    decreases e, 1nat,
{
    match e.kind {
        HirExprKind::Assign { lhs, rhs } => match value_made(env, g, *rhs, "assignment rhs produced no value"@) {
            Err(m) => Err(m),
            Ok((g1, v)) => match lookup(g1.vars, lhs) {
                None => Err("assignment to unknown local"@),
                Some(x) => match swapped(env.hir, g1, *rhs, v, x) {
                    Err(m) => Err(m),
                    Ok(g2) => Ok((put(g2, OpV::Assign(x, v)), None)),
                },
            },
        },
        HirExprKind::AssignOp { lhs, op, rhs } => match lookup(g.vars, lhs) {
            None => Err("compound assign to unknown local"@),
            Some(x) => {
                let cur = here(g);
                match value_made(env, put(g, OpV::Read(x)), *rhs, "compound assign rhs produced no value"@) {
                    Err(m) => Err(m),
                    Ok((g1, r)) => match operation(g1, op, cur, r, rhs.ty@) {
                        Err(m) => Err(m),
                        Ok(g2) => match old_released(env.hir, g2, rhs.ty@, cur) {
                            Err(m) => Err(m),
                            Ok(g3) => Ok((put(g3, OpV::Assign(x, last_op(g2))), None)),
                        },
                    },
                }
            },
        },
        _ => Err(""@),
    }
}

pub open spec fn old_released(hir: HirModule, g: Gen, t: TyV, old_value: usize) -> Result<Gen, Seq<char>> {
    if is_counted(hir, t) {
        count_call(hir, g, true, t, old_value)
    } else {
        Ok(g)
    }
}

/// The counts around a local taking a new value: the new one up when it is
/// held elsewhere, then the old one down.
pub open spec fn swapped(hir: HirModule, g: Gen, rhs: HirExpr, v: usize, x: usize) -> Result<Gen, Seq<char>> {
    if is_counted(hir, rhs.ty@) {
        match kept(hir, g, rhs, v) {
            Err(m) => Err(m),
            Ok(g1) => count_call(hir, put(g1, OpV::Read(x)), true, rhs.ty@, here(g1)),
        }
    } else {
        Ok(g)
    }
}

/// The first `k` fields of a new struct value.
pub open spec fn fields_made(env: Env, g: Gen, fs: Seq<(u32, HirExpr)>, p: usize, k: nat) -> Result<Gen, Seq<char>>
    decreases fs, k,
{
    if k == 0 || k > fs.len() {
        Ok(g)
    } else {
        match fields_made(env, g, fs, p, (k - 1) as nat) {
            Err(m) => Err(m),
            Ok(g1) => match wanted(made(env, g1, fs[k - 1].1), "struct field produced no value"@) {
                Err(m) => Err(m),
                Ok((g2, v)) => match kept(env.hir, g2, fs[k - 1].1, v) {
                    Err(m) => Err(m),
                    Ok(g3) => Ok(put(g3, OpV::Store(v, p, fs[k - 1].0 as i32))),
                },
            },
        }
    }
}

pub open spec fn made_field_assign(env: Env, g: Gen, e: HirExpr) -> Made
    decreases e, 1nat,
{
    match e.kind {
        HirExprKind::FieldAssign { receiver, offset, field_ty, rhs } => match value_made(
            env,
            g,
            *receiver,
            "field-assign receiver produced no value"@,
        ) {
            Err(m) => Err(m),
            Ok((g1, p)) => match value_made(env, g1, *rhs, "field-assign rhs produced no value"@) {
                Err(m) => Err(m),
                Ok((g2, v)) => match field_width(field_ty@) {
                    Err(m) => Err(m),
                    Ok(w) => match field_swapped(env.hir, g2, field_ty@, w, p, offset as i32, *rhs, v) {
                        Err(m) => Err(m),
                        Ok(g3) => Ok((put(g3, OpV::Store(v, p, offset as i32)), None)),
                    },
                },
            },
        },
        _ => Err(""@),
    }
}

/// The counts around a field taking a new value: the old one down, then the
/// new one up when it is held elsewhere.
pub open spec fn field_swapped(
    hir: HirModule,
    g: Gen,
    t: TyV,
    w: Width,
    p: usize,
    offset: i32,
    rhs: HirExpr,
    v: usize,
) -> Result<Gen, Seq<char>> {
    if is_counted(hir, t) {
        match count_call(hir, put(g, OpV::Load(w, p, offset)), true, t, here(g)) {
            Err(m) => Err(m),
            Ok(g1) => if is_held(rhs) {
                count_call(hir, g1, false, t, v)
            } else {
                Ok(g1)
            },
        }
    } else {
        Ok(g)
    }
}

/// The first `k` elements of a new array.
pub open spec fn elems_made(env: Env, g: Gen, es: Seq<HirExpr>, p: usize, each: u32, k: nat) -> Result<
    Gen,
    Seq<char>,
>
    decreases es, k,
{
    if k == 0 || k > es.len() {
        Ok(g)
    } else {
        match elems_made(env, g, es, p, each, (k - 1) as nat) {
            Err(m) => Err(m),
            Ok(g1) => match wanted(made(env, g1, es[k - 1]), "array element produced no value"@) {
                Err(m) => Err(m),
                Ok((g2, v)) => match kept(env.hir, g2, es[k - 1], v) {
                    Err(m) => Err(m),
                    Ok(g3) => Ok(put(g3, OpV::Store(v, p, elem_offset((k - 1) as nat, each)))),
                },
            },
        }
    }
}

/// The element of an array at an index. The result is the last operation.
pub open spec fn element(g: Gen, base: usize, i: usize, w: Width, each: u32) -> Gen {
    let g1 = put(g, OpV::Int(Width::I64, each as i64));
    let g2 = put(g1, OpV::Arith(Arith::Mul, i, here(g)));
    let g3 = put(g2, OpV::Arith(Arith::Add, base, here(g1)));
    put(g3, OpV::Load(w, here(g2), 0))
}

pub open spec fn made_index(env: Env, g: Gen, e: HirExpr) -> Made
    decreases e, 1nat,
{
    match e.kind {
        HirExprKind::Index { array, index, elem_ty } => match array.ty@ {
            TyV::Array(_, n) => match value_made(env, g, *array, "array operand produced no value"@) {
                Err(m) => Err(m),
                Ok((g1, a)) => match value_made(env, g1, *index, "index operand produced no value"@) {
                    Err(m) => Err(m),
                    Ok((g2, i)) => {
                        let g3 = bounds_checked(put(g2, OpV::Int(Width::I64, n as i64)), i, here(g2));
                        match (width_of(elem_ty@), elem_bytes(elem_ty@)) {
                            (Err(m), _) => Err(m),
                            (Ok(_), Err(m)) => Err(m),
                            (Ok(w), Ok(each)) => {
                                let g4 = element(g3, a, i, w, each);
                                Ok((g4, Some(last_op(g4))))
                            },
                        }
                    },
                },
            },
            _ => Err("indexing non-array type `"@ + ty_text(array.ty@) + "`"@),
        },
        HirExprKind::StrByteIndex { str_val, index } => match value_made(
            env,
            g,
            *str_val,
            "str receiver produced no value"@,
        ) {
            Err(m) => Err(m),
            Ok((g1, s)) => match value_made(env, g1, *index, "str index produced no value"@) {
                Err(m) => Err(m),
                Ok((g2, i)) => {
                    let g3 = put(g2, OpV::Load(Width::I64, s, 0));
                    let g4 = put(g3, OpV::Load(Width::I64, s, 8));
                    let g5 = bounds_checked(g4, i, here(g3));
                    let g6 = put(g5, OpV::Arith(Arith::Add, here(g2), i));
                    let g7 = put(g6, OpV::Load(Width::I8, here(g5), 0));
                    Ok((put(g7, OpV::Convert(Conversion::ZeroExtend, Width::I64, here(g6))), Some(here(g7))))
                },
            },
        },
        _ => Err(""@),
    }
}

/// An end made exclusive.
pub open spec fn past_end(g: Gen, v: usize, inclusive: bool) -> (Gen, usize) {
    if inclusive {
        let g1 = put(g, OpV::Int(Width::I64, 1));
        (put(g1, OpV::Arith(Arith::Add, v, here(g))), here(g1))
    } else {
        (g, v)
    }
}

pub open spec fn made_slice(env: Env, g: Gen, e: HirExpr) -> Made
    decreases e, 1nat,
{
    match e.kind {
        HirExprKind::StrSlice { str_val, start, end, inclusive } => match value_made(
            env,
            g,
            *str_val,
            "str receiver produced no value"@,
        ) {
            Err(m) => Err(m),
            Ok((g1, s)) => match value_made(env, g1, *start, "slice start produced no value"@) {
                Err(m) => Err(m),
                Ok((g2, a)) => match value_made(env, g2, *end, "slice end produced no value"@) {
                    Err(m) => Err(m),
                    Ok((g3, b)) => {
                        let (g4, b) = past_end(g3, b, inclusive);
                        Ok((runtime_call(g4, "str_slice"@, seq![s, a, b]), Some(here(g4))))
                    },
                },
            },
        },
        _ => Err(""@),
    }
}

/// The code of a method of a built-in type, its receiver and arguments made.
pub open spec fn builtin_method_made(
    hir: HirModule,
    g: Gen,
    t: TyV,
    name: Seq<char>,
    recv: usize,
    args: Seq<HirExpr>,
    vs: Seq<usize>,
) -> Made {
    match t {
        TyV::Str => if name == "len"@ {
            Ok((put(g, OpV::Load(Width::I64, recv, 8)), Some(here(g))))
        } else if name == "is_empty"@ {
            let g1 = put(g, OpV::Load(Width::I64, recv, 8));
            let g2 = put(g1, OpV::Int(Width::I64, 0));
            Ok((put(g2, OpV::Compare(Cond::Equal, here(g), here(g1))), Some(here(g2))))
        } else if name == "starts_with"@ && vs.len() > 0 {
            Ok((runtime_call(g, "str_starts_with"@, seq![recv, vs[0]]), Some(here(g))))
        } else if name == "ends_with"@ && vs.len() > 0 {
            Ok((runtime_call(g, "str_ends_with"@, seq![recv, vs[0]]), Some(here(g))))
        } else if name == "contains"@ && vs.len() > 0 {
            Ok((runtime_call(g, "str_contains"@, seq![recv, vs[0]]), Some(here(g))))
        } else {
            Err(no_method(name, t))
        },
        TyV::Array(_, n) => if name == "len"@ {
            Ok((put(g, OpV::Int(Width::I64, n as i64)), Some(here(g))))
        } else {
            Err(no_method(name, t))
        },
        TyV::Vec(elem) => if name == "push"@ || name == "get"@ || name == "len"@ {
            vec_method_made(hir, g, *elem, name, recv, args, vs)
        } else {
            Err(no_method(name, t))
        },
        _ => Err(no_method(name, t)),
    }
}

pub open spec fn no_method(name: Seq<char>, t: TyV) -> Seq<char> {
    "method `."@ + name + "` on `"@ + ty_text(t) + "` is not implemented"@
}

/// The methods of vectors. A pushed element is kept and widened to its slot;
/// an element read out is counted once more, or narrowed.
pub open spec fn vec_method_made(
    hir: HirModule,
    g: Gen,
    elem: TyV,
    name: Seq<char>,
    recv: usize,
    args: Seq<HirExpr>,
    vs: Seq<usize>,
) -> Made {
    match width_of(elem) {
        Err(m) => Err(m),
        Ok(w) => if name == "push"@ {
            if vs.len() == 0 || args.len() == 0 {
                Err("method arg produced no value"@)
            } else {
                let counts = if is_counted(hir, elem) && is_held(args[0]) {
                    count_call(hir, g, false, elem, vs[0])
                } else {
                    Ok(g)
                };
                match counts {
                    Err(m) => Err(m),
                    Ok(g1) => {
                        let (g2, x) = widened(g1, vs[0], w, false);
                        Ok((runtime_call(g2, "vec_push"@, seq![recv, x]), None))
                    },
                }
            }
        } else if name == "get"@ {
            let g1 = runtime_call(g, "vec_get"@, seq![recv] + vs);
            if is_counted(hir, elem) {
                match count_call(hir, g1, false, elem, here(g)) {
                    Err(m) => Err(m),
                    Ok(g2) => Ok((g2, Some(here(g)))),
                }
            } else {
                let (g2, x) = narrowed(g1, here(g), w);
                Ok((g2, Some(x)))
            }
        } else {
            Ok((runtime_call(g, "vec_len"@, seq![recv] + vs), Some(here(g))))
        },
    }
}

pub open spec fn made_method(env: Env, g: Gen, e: HirExpr) -> Made
    decreases e, 1nat,
{
    match e.kind {
        HirExprKind::MethodCall { receiver, method, args } => match value_made(
            env,
            g,
            *receiver,
            "method receiver produced no value"@,
        ) {
            Err(m) => Err(m),
            Ok((g1, recv)) => match all_made(env, g1, args@, "method arg produced no value"@, args@.len()) {
                Err(m) => Err(m),
                Ok((g2, vs)) => builtin_method_made(env.hir, g2, receiver.ty@, method@, recv, args@, vs),
            },
        },
        _ => Err(""@),
    }
}

/// The first `k` entries of a trait object's method table.
pub open spec fn table_made(env: Env, g: Gen, s: SymbolId, names: Seq<Seq<char>>, cell: usize, k: nat) -> Result<
    Gen,
    Seq<char>,
>
    decreases k,
{
    if k == 0 || k > names.len() {
        Ok(g)
    } else {
        match table_made(env, g, s, names, cell, (k - 1) as nat) {
            Err(m) => Err(m),
            Ok(g1) => match lookup(env.hir.impl_methods@, (s, names[k - 1])) {
                None => Err("dyn: method `"@ + names[k - 1] + "` has no impl"@),
                Some(f) => if env.fns.contains_key(f) {
                    Ok(
                        put(
                            put(g1, OpV::FnAddr(f)),
                            OpV::Store(here(g1), cell, words((k - 1) as nat)),
                        ),
                    )
                } else {
                    Err("dyn: impl method not compiled"@)
                },
            },
        }
    }
}

/// A trait object: the addresses of the methods, the value, then the address of
/// its release function.
pub open spec fn boxed(env: Env, g: Gen, data: usize, s: SymbolId, t: SymbolId) -> Made {
    match object_methods(env.hir, t) {
        None => Err("dyn: unknown trait"@),
        Some(names) => if !env.hir.struct_sizes@.contains_key(s) {
            Err("missing struct release fn"@)
        } else {
            let g1 = allocated(g, object_size(names.len()) as i64);
            let cell = last_op(g1);
            match table_made(env, g1, s, names, cell, names.len()) {
                Err(m) => Err(m),
                Ok(g2) => {
                    let g3 = put(g2, OpV::Store(data, cell, words(names.len())));
                    let g4 = put(g3, OpV::ReleaseAddr(s));
                    Ok((put(g4, OpV::Store(here(g3), cell, words(names.len() + 1))), Some(cell)))
                },
            }
        },
    }
}

pub open spec fn made_box(env: Env, g: Gen, e: HirExpr) -> Made
    decreases e, 1nat,
{
    match e.kind {
        HirExprKind::DynBox { value, struct_sym, trait_sym } => match value_made(
            env,
            g,
            *value,
            "dyn coercion value produced no value"@,
        ) {
            Err(m) => Err(m),
            Ok((g1, data)) => match kept(env.hir, g1, *value, data) {
                Err(m) => Err(m),
                Ok(g2) => boxed(env, g2, data, struct_sym, trait_sym),
            },
        },
        _ => Err(""@),
    }
}

/// The machine types of the first `k` expressions.
pub open spec fn widths_of(es: Seq<HirExpr>, k: nat) -> Result<Seq<Width>, Seq<char>>
    decreases k,
{
    if k == 0 || k > es.len() {
        Ok(seq![])
    } else {
        match widths_of(es, (k - 1) as nat) {
            Err(m) => Err(m),
            Ok(ws) => match width_of(es[k - 1].ty@) {
                Err(m) => Err(m),
                Ok(w) => Ok(ws.push(w)),
            },
        }
    }
}

/// The machine type of a result, if there is one.
pub open spec fn ret_width(t: TyV) -> Result<Option<Width>, Seq<char>> {
    if has_value(t) {
        match width_of(t) {
            Err(m) => Err(m),
            Ok(w) => Ok(Some(w)),
        }
    } else {
        Ok(None)
    }
}

/// A call through a trait object, its arguments made.
pub open spec fn object_call(
    g: Gen,
    cell: usize,
    slots: nat,
    slot: nat,
    args: Seq<HirExpr>,
    vs: Seq<usize>,
    t: TyV,
) -> Made {
    let g1 = put(g, OpV::Load(Width::I64, cell, words(slots)));
    let g2 = put(g1, OpV::Load(Width::I64, cell, words(slot)));
    match (widths_of(args, args.len()), ret_width(t)) {
        (Err(m), _) => Err(m),
        (Ok(_), Err(m)) => Err(m),
        (Ok(ws), Ok(ret)) => Ok(
            (
                put(g2, OpV::CallIndirect(seq![Width::I64] + ws, ret, here(g1), seq![here(g)] + vs)),
                call_result(g2, ret),
            ),
        ),
    }
}

pub open spec fn made_object_call(env: Env, g: Gen, e: HirExpr) -> Made
    decreases e, 1nat,
{
    match e.kind {
        HirExprKind::DynCall { receiver, trait_sym, method, args } => match value_made(
            env,
            g,
            *receiver,
            "dyn receiver produced no value"@,
        ) {
            Err(m) => Err(m),
            Ok((g1, cell)) => match object_methods(env.hir, trait_sym) {
                None => Err("dyn: unknown trait"@),
                Some(names) => match position(names, method@) {
                    None => Err("dyn: no method `"@ + method@ + "`"@),
                    Some(i) => match all_made(
                        env,
                        g1,
                        args@,
                        "dyn call arg produced no value"@,
                        args@.len(),
                    ) {
                        Err(m) => Err(m),
                        Ok((g2, vs)) => object_call(g2, cell, names.len(), i as nat, args@, vs, e.ty@),
                    },
                },
            },
        },
        _ => Err(""@),
    }
}

/// The value merged from branches, when there is one.
pub open spec fn merge_param(g: Gen, merge: usize, t: TyV) -> Result<Gen, Seq<char>> {
    if has_value(t) {
        match width_of(t) {
            Err(m) => Err(m),
            Ok(w) => Ok(put(g, OpV::BlockParam(merge, w))),
        }
    } else {
        Ok(g)
    }
}

pub open spec fn else_made(env: Env, g: Gen, e: Option<Box<HirExpr>>) -> Made
    decreases e, 3nat,
{
    match e {
        Some(e) => made(env, g, *e),
        None => Ok((g, None)),
    }
}

pub open spec fn made_if(env: Env, g: Gen, e: HirExpr) -> Made
    decreases e, 1nat,
{
    match e.kind {
        HirExprKind::If { cond, then_b, else_b } => match value_made(
            env,
            g,
            *cond,
            "if condition produced no value"@,
        ) {
            Err(m) => Err(m),
            Ok((g0, c)) => {
                let g1 = put(g0, OpV::Block);
                let g2 = put(g1, OpV::Block);
                let g3 = put(g2, OpV::Block);
                let (yes, no, merge) = (here(g0), here(g1), here(g2));
                let wants = has_value(e.ty@);
                let out = here(g3);
                match merge_param(g3, merge, e.ty@) {
                    Err(m) => Err(m),
                    Ok(g4) => match made_block(env, into_block(put(g4, OpV::Branch(c, yes, no)), yes), then_b) {
                        Err(m) => Err(m),
                        Ok((g5, a)) => match merged(g5, merge, wants, a, "if-then branch produced no value"@) {
                            Err(m) => Err(m),
                            Ok(g6) => match else_made(env, into_block(g6, no), else_b) {
                                Err(m) => Err(m),
                                Ok((g7, b)) => match merged(
                                    g7,
                                    merge,
                                    wants,
                                    b,
                                    "if-else branch produced no value"@,
                                ) {
                                    Err(m) => Err(m),
                                    Ok(g8) => Ok(
                                        (
                                            into_block(g8, merge),
                                            if wants {
                                                Some(out)
                                            } else {
                                                None
                                            },
                                        ),
                                    ),
                                },
                            },
                        },
                    },
                }
            },
        },
        _ => Err(""@),
    }
}

pub open spec fn made_while(env: Env, g: Gen, e: HirExpr) -> Made
    decreases e, 1nat,
{
    match e.kind {
        HirExprKind::While { cond, body } => {
            let g1 = put(g, OpV::Block);
            let g2 = put(g1, OpV::Block);
            let g3 = put(g2, OpV::Block);
            let (header, inside, exit) = (here(g), here(g1), here(g2));
            let g4 = put(put(g3, OpV::Jump(header, seq![])), OpV::Switch(header));
            match value_made(env, g4, *cond, "while condition produced no value"@) {
                Err(m) => Err(m),
                Ok((g5, c)) => {
                    let g6 = in_loop(into_block(put(g5, OpV::Branch(c, inside, exit)), inside), exit);
                    match made_block(env, g6, body) {
                        Err(m) => Err(m),
                        Ok((g7, _)) => {
                            let g8 = if g7.filled {
                                g7
                            } else {
                                put(g7, OpV::Jump(header, seq![]))
                            };
                            Ok((loop_closed(g8, header, exit), None))
                        },
                    }
                },
            }
        },
        _ => Err(""@),
    }
}

/// The start of a loop over an array: the counter, and the variable for the
/// element when it has a name.
pub open spec fn for_begun(g: Gen, local: Option<SymbolId>, w: Width) -> (Gen, usize, Option<usize>) {
    let g1 = put(g, OpV::Var(Width::I64));
    let counter = here(g);
    let g2 = put(g1, OpV::Int(Width::I64, 0));
    let g3 = put(g2, OpV::Assign(counter, here(g1)));
    match local {
        Some(s) => {
            let g4 = put(g3, OpV::Var(w));
            (Gen { vars: g4.vars.insert(s, here(g3)), ..g4 }, counter, Some(here(g3)))
        },
        None => (g3, counter, None),
    }
}

/// The test of a counted loop, and the block its body goes in.
pub open spec fn counting(g: Gen, counter: usize, limit: Option<i64>, end: usize, header: usize, inside: usize, exit: usize) -> Gen {
    let g1 = put(put(g, OpV::Jump(header, seq![])), OpV::Switch(header));
    let g2 = put(g1, OpV::Read(counter));
    let (g3, n) = match limit {
        Some(n) => (put(g2, OpV::Int(Width::I64, n)), here(g2)),
        None => (g2, end),
    };
    let g4 = put(g3, OpV::Compare(Cond::SLess, here(g1), n));
    in_loop(into_block(put(g4, OpV::Branch(here(g3), inside, exit)), inside), exit)
}

/// The element of the current round, in its variable when it has one.
pub open spec fn element_bound(g: Gen, base: usize, counter: usize, w: Width, each: u32, x: Option<usize>) -> Gen {
    let g1 = put(g, OpV::Read(counter));
    let g2 = element(g1, base, here(g), w, each);
    match x {
        Some(x) => put(g2, OpV::Assign(x, last_op(g2))),
        None => g2,
    }
}

pub open spec fn made_for(env: Env, g: Gen, e: HirExpr) -> Made
    decreases e, 1nat,
{
    match e.kind {
        HirExprKind::For { local, iter, body, elem_ty, length } => match value_made(
            env,
            g,
            *iter,
            "for-loop iterator produced no value"@,
        ) {
            Err(m) => Err(m),
            Ok((g0, base)) => match (width_of(elem_ty@), elem_bytes(elem_ty@)) {
                (Err(m), _) => Err(m),
                (Ok(_), Err(m)) => Err(m),
                (Ok(w), Ok(each)) => {
                    let (g1, counter, x) = for_begun(g0, local, w);
                    let g2 = put(g1, OpV::Block);
                    let g3 = put(g2, OpV::Block);
                    let g4 = put(g3, OpV::Block);
                    let (header, inside, exit) = (here(g1), here(g2), here(g3));
                    let g5 = counting(g4, counter, Some(length as i64), 0, header, inside, exit);
                    match made_block(env, element_bound(g5, base, counter, w, each, x), body) {
                        Err(m) => Err(m),
                        Ok((g6, _)) => Ok((loop_closed(stepped(g6, counter, header), header, exit), None)),
                    }
                },
            },
        },
        _ => Err(""@),
    }
}

pub open spec fn range_begun(g: Gen, local: Option<SymbolId>, start: usize) -> Gen {
    let g1 = put(put(g, OpV::Var(Width::I64)), OpV::Assign(here(g), start));
    match local {
        Some(s) => Gen { vars: g1.vars.insert(s, here(g)), ..g1 },
        None => g1,
    }
}

pub open spec fn made_for_range(env: Env, g: Gen, e: HirExpr) -> Made
    decreases e, 1nat,
{
    match e.kind {
        HirExprKind::ForRange { local, start, end, inclusive, body } => match value_made(
            env,
            g,
            *start,
            "range start produced no value"@,
        ) {
            Err(m) => Err(m),
            Ok((ga, a)) => match value_made(env, ga, *end, "range end produced no value"@) {
                Err(m) => Err(m),
                Ok((gb, b)) => {
                    let (g0, limit) = past_end(gb, b, inclusive);
                    let counter = here(g0);
                    let g1 = range_begun(g0, local, a);
                    let g2 = put(g1, OpV::Block);
                    let g3 = put(g2, OpV::Block);
                    let g4 = put(g3, OpV::Block);
                    let (header, inside, exit) = (here(g1), here(g2), here(g3));
                    match made_block(env, counting(g4, counter, None, limit, header, inside, exit), body) {
                        Err(m) => Err(m),
                        Ok((g6, _)) => Ok((loop_closed(stepped(g6, counter, header), header, exit), None)),
                    }
                },
            },
        },
        _ => Err(""@),
    }
}

/// The name an arm's only pattern binds to the whole value.
pub open spec fn arm_bound(g: Gen, ps: Seq<HirPattern>, v: usize, t: TyV) -> Result<Gen, Seq<char>> {
    if ps.len() == 1 {
        match ps[0] {
            HirPattern::Bind(s) => match width_of(t) {
                Err(m) => Err(m),
                Ok(w) => {
                    let g1 = put(put(g, OpV::Var(w)), OpV::Assign(here(g), v));
                    Ok(Gen { vars: g1.vars.insert(s, here(g)), ..g1 })
                },
            },
            _ => Ok(g),
        }
    } else {
        Ok(g)
    }
}

pub open spec fn guard_made(env: Env, g: Gen, guard: Option<HirExpr>, next: usize) -> Result<Gen, Seq<char>>
    decreases guard, 3nat,
{
    match guard {
        Some(e) => match wanted(made(env, g, e), "match guard produced no value"@) {
            Err(m) => Err(m),
            Ok((g1, c)) => Ok(
                into_block(put(put(g1, OpV::Block), OpV::Branch(c, here(g1), next)), here(g1)),
            ),
        },
        None => Ok(g),
    }
}

/// The first `k` arms of a match: each with a block to start in and the next
/// arm's to fall through to.
pub open spec fn arms_made(
    env: Env,
    g: Gen,
    arms: Seq<HirMatchArm>,
    v: usize,
    t: TyV,
    blocks: Seq<usize>,
    merge: usize,
    wants: bool,
    k: nat,
) -> Result<Gen, Seq<char>>
    decreases arms, k,
{
    if k == 0 || k > arms.len() {
        Ok(g)
    } else {
        match arms_made(env, g, arms, v, t, blocks, merge, wants, (k - 1) as nat) {
            Err(m) => Err(m),
            Ok(g1) => arm_made(env, g1, arms[k - 1], v, t, blocks[k - 1], blocks[k as int], merge, wants),
        }
    }
}

pub open spec fn arm_made(
    env: Env,
    g: Gen,
    arm: HirMatchArm,
    v: usize,
    t: TyV,
    block: usize,
    next: usize,
    merge: usize,
    wants: bool,
) -> Result<Gen, Seq<char>>
    decreases arm, 1nat,
{
    let body = here(g);
    let g1 = into_block(put(g, OpV::Block), block);
    match alternatives_checked(env.hir, g1, arm.patterns@, v, t, body, next, arm.patterns@.len()) {
        Err(m) => Err(m),
        Ok(g2) => match arm_bound(into_block(g2, body), arm.patterns@, v, t) {
            Err(m) => Err(m),
            Ok(g3) => match guard_made(env, g3, arm.guard, next) {
                Err(m) => Err(m),
                Ok(g4) => match made(env, g4, arm.body) {
                    Err(m) => Err(m),
                    Ok((g5, r)) => if g5.filled {
                        Ok(g5)
                    } else if arm.body.ty@ is Never {
                        Ok(put(g5, OpV::Trap(2)))
                    } else {
                        merged(g5, merge, wants, r, "match arm produced no value"@)
                    },
                },
            },
        },
    }
}

pub open spec fn made_match(env: Env, g: Gen, e: HirExpr) -> Made
    decreases e, 1nat,
{
    match e.kind {
        HirExprKind::Match { scrutinee, arms } => match value_made(
            env,
            g,
            *scrutinee,
            "match scrutinee produced no value"@,
        ) {
            Err(m) => Err(m),
            Ok((g0, v)) => {
                let merge = here(g0);
                let g1 = put(g0, OpV::Block);
                let wants = has_value(e.ty@);
                let out = here(g1);
                match merge_param(g1, merge, e.ty@) {
                    Err(m) => Err(m),
                    Ok(g2) => {
                        let (g3, blocks) = new_blocks(g2, arms@.len() + 1);
                        match arms_made(
                            env,
                            put(g3, OpV::Jump(blocks[0], seq![])),
                            arms@,
                            v,
                            scrutinee.ty@,
                            blocks,
                            merge,
                            wants,
                            arms@.len(),
                        ) {
                            Err(m) => Err(m),
                            Ok(g4) => {
                                let g5 = into_block(g4, blocks[arms@.len() as int]);
                                let g6 = put(runtime_call(g5, "panic_no_match"@, seq![]), OpV::Trap(2));
                                Ok(
                                    (
                                        into_block(g6, merge),
                                        if wants {
                                            Some(out)
                                        } else {
                                            None
                                        },
                                    ),
                                )
                            },
                        }
                    },
                }
            },
        },
        _ => Err(""@),
    }
}

pub open spec fn made_return(env: Env, g: Gen, e: HirExpr) -> Made
    decreases e, 1nat,
{
    match e.kind {
        HirExprKind::Return(value) => match value {
            Some(x) => match value_made(env, g, *x, "return value produced no value"@) {
                Err(m) => Err(m),
                Ok((g1, v)) => match kept(env.hir, g1, *x, v) {
                    Err(m) => Err(m),
                    Ok(g2) => match released(env.hir, g2, 0, g2.owned.len()) {
                        Err(m) => Err(m),
                        Ok(g3) => Ok((after_jump(put(g3, OpV::Return(seq![v]))), None)),
                    },
                },
            },
            None => match released(env.hir, g, 0, g.owned.len()) {
                Err(m) => Err(m),
                Ok(g1) => Ok((after_jump(put(g1, OpV::Return(seq![]))), None)),
            },
        },
        _ => Err(""@),
    }
}

// ---- statements ----

pub open spec fn let_made(env: Env, g: Gen, l: HirLet) -> Result<Gen, Seq<char>>
    decreases l, 1nat,
{
    match width_of(l.ty@) {
        Err(m) => Err(m),
        Ok(w) => {
            let x = here(g);
            let g1 = put(g, OpV::Var(w));
            match l.init {
                Some(e) => match wanted(made(env, g1, e), "let initializer produced no value"@) {
                    Err(m) => Err(m),
                    Ok((g2, v)) => {
                        let counts = if is_counted(env.hir, l.ty@) && is_held(e) {
                            count_call(env.hir, g2, false, l.ty@, v)
                        } else {
                            Ok(g2)
                        };
                        match counts {
                            Err(m) => Err(m),
                            Ok(g3) => Ok(
                                let_bound(put(g3, OpV::Assign(x, v)), l, x, is_counted(env.hir, l.ty@)),
                            ),
                        }
                    },
                },
                None => Ok(
                    let_bound(
                        put(put(g1, OpV::Int(w, 0)), OpV::Assign(x, here(g1))),
                        l,
                        x,
                        false,
                    ),
                ),
            }
        },
    }
}

/// A binding's variable under its name, owning its value when that is
/// counted.
pub open spec fn let_bound(g: Gen, l: HirLet, x: usize, owns: bool) -> Gen {
    Gen {
        vars: match l.sym {
            Some(s) => g.vars.insert(s, x),
            None => g.vars,
        },
        owned: if owns {
            g.owned.push((x, l.ty@))
        } else {
            g.owned
        },
        ..g
    }
}

pub open spec fn stmt_made(env: Env, g: Gen, s: HirStmt) -> Made
    decreases s, 1nat,
{
    match s {
        HirStmt::Let(l) => match let_made(env, g, l) {
            Err(m) => Err(m),
            Ok(g1) => Ok((g1, None)),
        },
        HirStmt::Expr(e, semi) => match made(env, g, e) {
            Err(m) => Err(m),
            Ok((g1, v)) => Ok(
                (
                    g1,
                    if semi {
                        None
                    } else {
                        v
                    },
                ),
            ),
        },
    }
}

/// The first `k` statements, up to the first that ends its block for good.
/// Also says whether one did.
pub open spec fn stmts_made(env: Env, g: Gen, ss: Seq<HirStmt>, k: nat) -> Result<
    (Gen, Option<usize>, bool),
    Seq<char>,
>
    decreases ss, k,
{
    if k == 0 || k > ss.len() {
        Ok((g, None, false))
    } else {
        match stmts_made(env, g, ss, (k - 1) as nat) {
            Err(m) => Err(m),
            Ok((g1, v, stopped)) => if stopped {
                Ok((g1, v, true))
            } else {
                match stmt_made(env, g1, ss[k - 1]) {
                    Err(m) => Err(m),
                    Ok((g2, v2)) => Ok((g2, v2, g2.filled)),
                }
            },
        }
    }
}

/// The type of the held value a block ends with reading, when it is counted.
pub open spec fn tail_held(hir: HirModule, ss: Seq<HirStmt>) -> Option<TyV> {
    if ss.len() == 0 {
        None
    } else {
        match ss.last() {
            HirStmt::Expr(e, semi) => if !semi && is_held(e) && is_counted(hir, e.ty@) {
                Some(e.ty@)
            } else {
                None
            },
            _ => None,
        }
    }
}

/// The end of a block: the value it ends with kept, then the locals it owns
/// released.
pub open spec fn scope_closed(hir: HirModule, g: Gen, v: Option<usize>, tail: Option<TyV>, target: nat) -> Result<
    Gen,
    Seq<char>,
> {
    let up = match (v, tail) {
        (Some(v), Some(t)) => count_call(hir, g, false, t, v),
        _ => Ok(g),
    };
    match up {
        Err(m) => Err(m),
        Ok(g1) => released(hir, g1, target, g1.owned.len()),
    }
}

pub open spec fn owning_first(g: Gen, n: nat) -> Gen {
    Gen {
        owned: if n <= g.owned.len() {
            g.owned.take(n as int)
        } else {
            g.owned
        },
        ..g
    }
}

pub open spec fn made_block(env: Env, g: Gen, b: HirBlock) -> Made
    decreases b, 1nat,
{
    match stmts_made(env, g, b.stmts@, b.stmts@.len()) {
        Err(m) => Err(m),
        Ok((g1, v, _)) => if g1.filled {
            Ok((owning_first(g1, g.owned.len()), v))
        } else {
            match scope_closed(env.hir, g1, v, tail_held(env.hir, b.stmts@), g.owned.len()) {
                Err(m) => Err(m),
                Ok(g2) => Ok((owning_first(g2, g.owned.len()), v)),
            }
        },
    }
}

// ---- functions ----

/// The first `k` parameters, each in a variable.
pub open spec fn params_made(g: Gen, ps: Seq<HirParam>, k: nat) -> Result<Gen, Seq<char>>
    decreases k,
{
    if k == 0 || k > ps.len() {
        Ok(g)
    } else {
        match params_made(g, ps, (k - 1) as nat) {
            Err(m) => Err(m),
            Ok(g1) => match width_of(ps[k - 1].ty@) {
                Err(m) => Err(m),
                Ok(w) => {
                    let x = here(g1);
                    let g2 = put(g1, OpV::Var(w));
                    let g3 = put(g2, OpV::Param((k - 1) as usize));
                    let g4 = put(g3, OpV::Assign(x, here(g2)));
                    Ok(Gen { vars: g4.vars.insert(ps[k - 1].sym, x), ..g4 })
                },
            },
        }
    }
}

pub open spec fn begun(texts: u32) -> Gen {
    into_block(put(no_code(texts), OpV::Block), 0)
}

/// The end of a function: its body's value returned.
pub open spec fn fn_closed(g: Gen, f: HirFn, v: Option<usize>) -> Result<Gen, Seq<char>> {
    if g.filled {
        Ok(g)
    } else if f.ret_ty@ is Unit {
        Ok(put(g, OpV::Return(seq![])))
    } else {
        match v {
            Some(v) => Ok(put(g, OpV::Return(seq![v]))),
            None => Err(
                "function `"@ + f.name@ + "` declared `"@ + ty_text(f.ret_ty@) + "` but body produced no value"@,
            ),
        }
    }
}

/// The code of a function.
pub open spec fn fn_made(env: Env, texts: u32, f: HirFn) -> Result<Gen, Seq<char>> {
    match params_made(begun(texts), f.params@, f.params@.len()) {
        Err(m) => Err(m),
        Ok(g) => match made_block(env, g, f.body) {
            Err(m) => Err(m),
            Ok((g1, v)) => fn_closed(g1, f, v),
        },
    }
}

// ---- release functions ----

/// The release of a field whose value is loaded.
pub open spec fn field_released(hir: HirModule, g: Gen, t: TyV, v: usize) -> Result<Gen, Seq<char>> {
    match t {
        TyV::Struct(s, _) => if hir.struct_sizes@.contains_key(s) {
            Ok(put(g, OpV::Call(CalleeV::ReleaseStruct(s), seq![v])))
        } else {
            Err("nested struct missing release"@)
        },
        TyV::Enum(s, _) => if hir.enum_has_payload@.contains(s) {
            Ok(put(g, OpV::Call(CalleeV::ReleaseEnum(s), seq![v])))
        } else {
            Ok(g)
        },
        TyV::Vec(e) => match elem_position(hir, *e) {
            Some(i) => Ok(put(g, OpV::Call(CalleeV::ReleaseVec(i as usize), seq![v]))),
            None => helper_call(g, true, t, v),
        },
        TyV::Array(_, _) => array_release_call(hir, g, t, v),
        TyV::Dyn(d, _) => object_count_call(hir, g, true, d, v),
        _ => helper_call(g, true, t, v),
    }
}

/// The start of a release function of one parameter: its value is the last
/// operation.
pub open spec fn release_begun() -> Gen {
    put(begun(0), OpV::Param(0))
}

/// The first `k` counted fields of a struct, released.
pub open spec fn fields_released(hir: HirModule, g: Gen, p: usize, fs: Seq<(u32, Ty)>, k: nat) -> Result<Gen, Seq<char>>
    decreases k,
{
    if k == 0 || k > fs.len() {
        Ok(g)
    } else {
        match fields_released(hir, g, p, fs, (k - 1) as nat) {
            Err(m) => Err(m),
            Ok(g1) => match width_of(fs[k - 1].1@) {
                Err(m) => Err(m),
                Ok(w) => field_released(
                    hir,
                    put(g1, OpV::Load(w, p, fs[k - 1].0 as i32)),
                    fs[k - 1].1@,
                    here(g1),
                ),
            },
        }
    }
}

/// The end of a release function: the block given back, then the way out.
pub open spec fn freed(g: Gen, p: usize, size: i64, done: usize) -> Gen {
    let g1 = put(g, OpV::Int(Width::I64, size));
    let g2 = runtime_call(g1, "struct_dealloc"@, seq![p, here(g)]);
    put(into_block(put(g2, OpV::Jump(done, seq![])), done), OpV::Return(seq![]))
}

pub open spec fn arc_fields(hir: HirModule, s: SymbolId) -> Seq<(u32, Ty)> {
    if hir.struct_arc_fields@.contains_key(s) {
        hir.struct_arc_fields@[s]@
    } else {
        seq![]
    }
}

/// The release function of a struct: one reference fewer; with none left, its
/// counted fields are released and it is given back.
pub open spec fn struct_release(hir: HirModule, s: SymbolId) -> Result<Gen, Seq<char>> {
    let size = struct_size(hir, s);
    let g0 = release_begun();
    let p = last_op(g0);
    let g1 = put(g0, OpV::Load(Width::I64, p, size as i32));
    let g2 = put(g1, OpV::Int(Width::I64, 1));
    let g3 = put(g2, OpV::Arith(Arith::Sub, here(g0), here(g1)));
    let g4 = put(g3, OpV::Store(here(g2), p, size as i32));
    let g5 = put(g4, OpV::Int(Width::I64, 0));
    let g6 = put(g5, OpV::Compare(Cond::SGreater, here(g2), here(g4)));
    let g7 = put(g6, OpV::Block);
    let g8 = put(g7, OpV::Block);
    let (free, done) = (here(g6), here(g7));
    let g9 = into_block(put(g8, OpV::Branch(here(g5), done, free)), free);
    match fields_released(hir, g9, p, arc_fields(hir, s), arc_fields(hir, s).len()) {
        Err(m) => Err(m),
        Ok(g10) => Ok(freed(g10, p, size as i64, done)),
    }
}

/// Whether one of the first `k` payloads is counted.
pub open spec fn any_counted(hir: HirModule, ts: Seq<Ty>, k: nat) -> bool {
    exists|i: int| 0 <= i < k && i < ts.len() && is_counted(hir, (#[trigger] ts[i])@)
}

/// The first `k` payloads of a variant: the counted ones released.
pub open spec fn payloads_released(hir: HirModule, g: Gen, p: usize, ts: Seq<Ty>, k: nat) -> Result<Gen, Seq<char>>
    decreases k,
{
    if k == 0 || k > ts.len() {
        Ok(g)
    } else {
        match payloads_released(hir, g, p, ts, (k - 1) as nat) {
            Err(m) => Err(m),
            Ok(g1) => if !is_counted(hir, ts[k - 1]@) {
                Ok(g1)
            } else {
                let g2 = put(g1, OpV::Load(Width::I64, p, words(k)));
                match width_of(ts[k - 1]@) {
                    Err(m) => Err(m),
                    Ok(w) => {
                        let (g3, v) = narrowed(g2, here(g1), w);
                        field_released(hir, g3, ts[k - 1]@, v)
                    },
                }
            },
        }
    }
}

/// The first `k` variants of an enum: each with counted payloads has a block
/// that releases them.
pub open spec fn variants_released(
    hir: HirModule,
    g: Gen,
    p: usize,
    tag: usize,
    dealloc: usize,
    vs: Seq<Vec<Ty>>,
    k: nat,
) -> Result<Gen, Seq<char>>
    decreases k,
{
    if k == 0 || k > vs.len() {
        Ok(g)
    } else {
        match variants_released(hir, g, p, tag, dealloc, vs, (k - 1) as nat) {
            Err(m) => Err(m),
            Ok(g1) => if !any_counted(hir, vs[k - 1]@, vs[k - 1]@.len()) {
                Ok(g1)
            } else {
                let g2 = put(g1, OpV::Int(Width::I64, ((k - 1) as usize) as i64));
                let g3 = put(g2, OpV::Compare(Cond::Equal, tag, here(g1)));
                let g4 = put(g3, OpV::Block);
                let g5 = put(g4, OpV::Block);
                let (this, next) = (here(g3), here(g4));
                let g6 = into_block(put(g5, OpV::Branch(here(g2), this, next)), this);
                match payloads_released(hir, g6, p, vs[k - 1]@, vs[k - 1]@.len()) {
                    Err(m) => Err(m),
                    Ok(g7) => Ok(into_block(put(g7, OpV::Jump(dealloc, seq![])), next)),
                }
            },
        }
    }
}

pub open spec fn variants_of(hir: HirModule, s: SymbolId) -> Seq<Vec<Ty>> {
    if hir.enum_payload_tys@.contains_key(s) {
        hir.enum_payload_tys@[s]@
    } else {
        seq![]
    }
}

/// The release function of a payload enum: nothing for a value that is never
/// reclaimed; else one reference fewer, and with none left the payloads of
/// the variant at hand are released and the value is given back.
pub open spec fn enum_release(hir: HirModule, s: SymbolId) -> Result<Gen, Seq<char>> {
    let size = enum_size(hir, s);
    let g0 = release_begun();
    let p = last_op(g0);
    let g1 = put(g0, OpV::Load(Width::I64, p, size));
    let rc = here(g0);
    let g2 = put(g1, OpV::Int(Width::I64, -1i64));
    let g3 = put(g2, OpV::Compare(Cond::Equal, rc, here(g1)));
    let g4 = put(g3, OpV::Block);
    let g5 = put(g4, OpV::Block);
    let (lower, done) = (here(g3), here(g4));
    let g6 = into_block(put(g5, OpV::Branch(here(g2), done, lower)), lower);
    let g7 = put(g6, OpV::Int(Width::I64, 1));
    let g8 = put(g7, OpV::Arith(Arith::Sub, rc, here(g6)));
    let g9 = put(g8, OpV::Store(here(g7), p, size));
    let g10 = put(g9, OpV::Int(Width::I64, 0));
    let g11 = put(g10, OpV::Compare(Cond::SGreater, here(g7), here(g9)));
    let g12 = put(g11, OpV::Block);
    let free = here(g11);
    let g13 = into_block(put(g12, OpV::Branch(here(g10), done, free)), free);
    let g14 = put(g13, OpV::Load(Width::I64, p, 0));
    let tag = here(g13);
    let g15 = put(g14, OpV::Block);
    let dealloc = here(g14);
    match variants_released(hir, g15, p, tag, dealloc, variants_of(hir, s), variants_of(hir, s).len()) {
        Err(m) => Err(m),
        Ok(g16) => Ok(
            freed(into_block(put(g16, OpV::Jump(dealloc, seq![])), dealloc), p, size as i64, done),
        ),
    }
}

/// The release function of vectors of an element type: when this is the last
/// reference the elements are released one by one, and then the vector is.
pub open spec fn vec_release(hir: HirModule, elem: TyV) -> Result<Gen, Seq<char>> {
    let g0 = begun(0);
    let g1 = put(g0, OpV::Block);
    let g2 = put(g1, OpV::Block);
    let g3 = put(g2, OpV::Block);
    let g4 = put(g3, OpV::Block);
    let g5 = put(g4, OpV::Block);
    let (walk, header, body, finish, done) = (here(g0), here(g1), here(g2), here(g3), here(g4));
    let (g6, p, i) = walk_begun(g5, walk, header, finish, done);
    let g7 = walked(g6, p, i, body, finish);
    match field_released(hir, g7, elem, last_op(g7)) {
        Err(m) => Err(m),
        Ok(g8) => Ok(walk_ended(g8, p, i, header, finish, done)),
    }
}

/// The start of a walk over a vector's elements, which is taken when this is
/// the last reference: the vector and the counter.
pub open spec fn walk_begun(g: Gen, walk: usize, header: usize, finish: usize, done: usize) -> (Gen, usize, usize) {
    let g1 = put(g, OpV::Param(0));
    let p = here(g);
    let g2 = put(g1, OpV::Int(Width::I64, 0));
    let g3 = put(g2, OpV::Compare(Cond::Equal, p, here(g1)));
    let g4 = into_block(put(g3, OpV::Branch(here(g2), done, walk)), walk);
    let g5 = put(g4, OpV::Var(Width::I64));
    let i = here(g4);
    let g6 = put(g5, OpV::Int(Width::I64, 0));
    let g7 = put(g6, OpV::Assign(i, here(g5)));
    let g8 = put(g7, OpV::Load(Width::I64, p, 24));
    let g9 = put(g8, OpV::Int(Width::I64, 1));
    let g10 = put(g9, OpV::Compare(Cond::Equal, here(g7), here(g8)));
    (put(put(g10, OpV::Branch(here(g9), header, finish)), OpV::Switch(header)), p, i)
}

/// The test of the walk and the element at hand, which is the last operation.
pub open spec fn walked(g: Gen, p: usize, i: usize, body: usize, finish: usize) -> Gen {
    let g1 = put(g, OpV::Load(Width::I64, p, 8));
    let g2 = put(g1, OpV::Read(i));
    let g3 = put(g2, OpV::Compare(Cond::SLess, here(g1), here(g)));
    let g4 = into_block(put(g3, OpV::Branch(here(g2), body, finish)), body);
    let g5 = put(g4, OpV::Load(Width::I64, p, 0));
    let g6 = put(g5, OpV::Read(i));
    let g7 = put(g6, OpV::Int(Width::I64, 8));
    let g8 = put(g7, OpV::Arith(Arith::Mul, here(g5), here(g6)));
    let g9 = put(g8, OpV::Arith(Arith::Add, here(g4), here(g7)));
    put(g9, OpV::Load(Width::I64, here(g8), 0))
}

/// The next round of the walk, and after it the release of the vector.
pub open spec fn walk_ended(g: Gen, p: usize, i: usize, header: usize, finish: usize, done: usize) -> Gen {
    let g1 = put(g, OpV::Read(i));
    let g2 = put(g1, OpV::Int(Width::I64, 1));
    let g3 = put(g2, OpV::Arith(Arith::Add, here(g), here(g1)));
    let g4 = put(g3, OpV::Assign(i, here(g2)));
    let g5 = put(put(g4, OpV::Jump(header, seq![])), OpV::Seal(header));
    let g6 = runtime_call(into_block(g5, finish), "release_vec"@, seq![p]);
    put(into_block(put(g6, OpV::Jump(done, seq![])), done), OpV::Return(seq![]))
}

/// The start of a release function of a block whose count stands at an offset:
/// one reference fewer, and what follows is for the last one. Also the block
/// and the way out.
pub open spec fn last_one(size: i32) -> (Gen, usize, usize) {
    let g0 = release_begun();
    let p = last_op(g0);
    let g1 = put(g0, OpV::Load(Width::I64, p, size));
    let g2 = put(g1, OpV::Int(Width::I64, 1));
    let g3 = put(g2, OpV::Arith(Arith::Sub, here(g0), here(g1)));
    let g4 = put(g3, OpV::Store(here(g2), p, size));
    let g5 = put(g4, OpV::Int(Width::I64, 0));
    let g6 = put(g5, OpV::Compare(Cond::SGreater, here(g2), here(g4)));
    let g7 = put(g6, OpV::Block);
    let g8 = put(g7, OpV::Block);
    let (free, done) = (here(g6), here(g7));
    (into_block(put(g8, OpV::Branch(here(g5), done, free)), free), p, done)
}

/// The elements of an array released one by one.
pub open spec fn array_elems_released(hir: HirModule, g: Gen, p: usize, elem: TyV, w: Width, each: u32, n: usize) -> Result<
    Gen,
    Seq<char>,
> {
    let (g1, counter, _) = for_begun(g, None, w);
    let g2 = put(g1, OpV::Block);
    let g3 = put(g2, OpV::Block);
    let g4 = put(g3, OpV::Block);
    let (header, inside, exit) = (here(g1), here(g2), here(g3));
    let g5 = counting(g4, counter, Some(n as i64), 0, header, inside, exit);
    let g6 = element_bound(g5, p, counter, w, each, None);
    match field_released(hir, g6, elem, last_op(g6)) {
        Err(m) => Err(m),
        Ok(g7) => Ok(loop_closed(stepped(g7, counter, header), header, exit)),
    }
}

/// The release function of an array type: one reference fewer; with none left,
/// its elements are released when they are counted, and it is given back.
pub open spec fn array_release(hir: HirModule, elem: TyV, n: usize) -> Result<Gen, Seq<char>> {
    match (width_of(elem), elem_bytes(elem)) {
        (Err(m), _) => Err(m),
        (Ok(_), Err(m)) => Err(m),
        (Ok(w), Ok(each)) => {
            let size = array_room(n as nat, each);
            let (g, p, done) = last_one(size);
            if is_counted(hir, elem) {
                match array_elems_released(hir, g, p, elem, w, each, n) {
                    Err(m) => Err(m),
                    Ok(g1) => Ok(freed(g1, p, size as i64, done)),
                }
            } else {
                Ok(freed(g, p, size as i64, done))
            }
        },
    }
}

/// The release function of a trait's objects: one reference fewer; with none
/// left, the value is released through the address kept with it, and the object
/// is given back.
pub open spec fn object_release(hir: HirModule, t: SymbolId) -> Result<Gen, Seq<char>> {
    match object_methods(hir, t) {
        None => Err("dyn: unknown trait"@),
        Some(names) => {
            let size = object_size(names.len());
            let (g, p, done) = last_one(size);
            let g1 = put(g, OpV::Load(Width::I64, p, words(names.len())));
            let g2 = put(g1, OpV::Load(Width::I64, p, words(names.len() + 1)));
            let g3 = put(g2, OpV::CallIndirect(seq![Width::I64], None, here(g1), seq![here(g)]));
            Ok(freed(g3, p, size as i64, done))
        },
    }
}

// ---- modules ----

/// A function's code: its symbol and name, its parameters and result, and the
/// operations.
pub struct FnCodeV {
    pub sym: SymbolId,
    pub name: Seq<char>,
    pub params: Seq<Width>,
    pub ret: Option<Width>,
    pub ops: Seq<OpV>,
}

/// A release function's name and operations. It takes one word and returns
/// nothing.
pub struct ReleaseV {
    pub name: Seq<char>,
    pub ops: Seq<OpV>,
}

/// The code of a module: the functions, and the release functions by struct,
/// by enum, by vector element type, by array type and by trait.
pub struct ModuleCodeV {
    pub fns: Seq<FnCodeV>,
    pub structs: Seq<(SymbolId, ReleaseV)>,
    pub enums: Seq<(SymbolId, ReleaseV)>,
    pub vecs: Seq<ReleaseV>,
    pub arrays: Seq<ReleaseV>,
    pub objects: Seq<(SymbolId, ReleaseV)>,
    pub sigs: Map<SymbolId, Option<Width>>,
    pub texts: u32,
}

/// The machine types of the first `k` parameters.
pub open spec fn param_widths(ps: Seq<HirParam>, k: nat) -> Result<Seq<Width>, Seq<char>>
    decreases k,
{
    if k == 0 || k > ps.len() {
        Ok(seq![])
    } else {
        match param_widths(ps, (k - 1) as nat) {
            Err(m) => Err(m),
            Ok(ws) => match width_of(ps[k - 1].ty@) {
                Err(m) => Err(m),
                Ok(w) => Ok(ws.push(w)),
            },
        }
    }
}

/// A function's machine signature. Only the unit type has no result.
pub open spec fn fn_sig_of(f: HirFn) -> Result<(Seq<Width>, Option<Width>), Seq<char>> {
    match param_widths(f.params@, f.params@.len()) {
        Err(m) => Err(m),
        Ok(ws) => if f.ret_ty@ is Unit {
            Ok((ws, None))
        } else {
            match width_of(f.ret_ty@) {
                Err(m) => Err(m),
                Ok(w) => Ok((ws, Some(w))),
            }
        },
    }
}

/// What the first `k` functions return, on top of what is known.
pub open spec fn declared_sigs(known: Map<SymbolId, Option<Width>>, items: Seq<HirItem>, k: nat) -> Result<
    Map<SymbolId, Option<Width>>,
    Seq<char>,
>
    decreases k,
{
    if k == 0 || k > items.len() {
        Ok(known)
    } else {
        match declared_sigs(known, items, (k - 1) as nat) {
            Err(m) => Err(m),
            Ok(sigs) => match fn_sig_of(items[k - 1]->Fn_0) {
                Err(m) => Err(m),
                Ok((_, ret)) => Ok(sigs.insert((items[k - 1]->Fn_0).sym, ret)),
            },
        }
    }
}

/// What is known after the first `k` functions, up to the first whose signature
/// cannot be had.
pub open spec fn sigs_so_far(known: Map<SymbolId, Option<Width>>, items: Seq<HirItem>, k: nat) -> Map<
    SymbolId,
    Option<Width>,
>
    decreases k,
{
    if k == 0 || k > items.len() {
        known
    } else {
        match declared_sigs(known, items, k) {
            Ok(sigs) => sigs,
            Err(_) => sigs_so_far(known, items, (k - 1) as nat),
        }
    }
}

/// The code of a function with its signature.
pub open spec fn fn_code(env: Env, texts: u32, f: HirFn) -> Result<(FnCodeV, u32), Seq<char>> {
    match fn_made(env, texts, f) {
        Err(m) => Err(m),
        Ok(g) => match fn_sig_of(f) {
            Err(m) => Err(m),
            Ok((params, ret)) => Ok(
                (FnCodeV { sym: f.sym, name: f.name@, params, ret, ops: g.ops }, g.texts),
            ),
        },
    }
}

/// The code of the first `k` functions.
pub open spec fn fns_made(env: Env, texts: u32, items: Seq<HirItem>, k: nat) -> Result<(Seq<FnCodeV>, u32), Seq<char>>
    decreases k,
{
    if k == 0 || k > items.len() {
        Ok((seq![], texts))
    } else {
        match fns_made(env, texts, items, (k - 1) as nat) {
            Err(m) => Err(m),
            Ok((fns, n)) => match fn_code(env, n, items[k - 1]->Fn_0) {
                Err(m) => Err(m),
                Ok((f, n2)) => Ok((fns.push(f), n2)),
            },
        }
    }
}

pub open spec fn struct_release_name(s: SymbolId) -> Seq<char> {
    "__rune_release_struct$"@ + dec(s.0 as nat)
}

pub open spec fn enum_release_name(s: SymbolId) -> Seq<char> {
    "__rune_release_enum$"@ + dec(s.0 as nat)
}

pub open spec fn vec_release_name(t: TyV) -> Seq<char> {
    "__rune_release_vec$"@ + code_text(t)
}

pub open spec fn object_release_name(t: SymbolId) -> Seq<char> {
    "__rune_release_dyn$"@ + dec(t.0 as nat)
}

pub open spec fn array_release_name(t: TyV) -> Seq<char> {
    "__rune_release_array$"@ + code_text(t)
}

/// The text of a type in the name of a release function. Distinct types have
/// distinct texts: each begins with letters of its own, and says how many
/// parts follow where that is not fixed.
pub open spec fn code_text(t: TyV) -> Seq<char>
    decreases t, 0nat,
{
    match t {
        TyV::Bool => "bool"@,
        TyV::Char => "char"@,
        TyV::Int(i) => int_name(i),
        TyV::Float(f) => float_name(f),
        TyV::Str => "str"@,
        TyV::Unit => "unit"@,
        TyV::Vec(e) => "Vec_"@ + code_text(*e),
        TyV::Weak(e) => "Weak_"@ + code_text(*e),
        TyV::HashMap(k, v) => "Map_"@ + code_text(*k) + code_text(*v),
        TyV::Array(e, n) => "Arr"@ + counted_text(n as nat) + code_text(*e),
        TyV::Struct(s, args) => "S"@ + counted_text(s.0 as nat) + code_args(args),
        TyV::Enum(s, args) => "E"@ + counted_text(s.0 as nat) + code_args(args),
        TyV::TypeVar(s) => "T"@ + counted_text(s.0 as nat),
        TyV::Dyn(s, args) => "dyn"@ + counted_text(s.0 as nat) + code_args(args),
        TyV::Fn { params, ret } => "fn"@ + code_args(params) + code_text(*ret),
        TyV::Never => "never"@,
        TyV::Error => "err"@,
        TyV::SelfType => "self"@,
        TyV::Assoc(b, n) => "P"@ + counted_text(n.len()) + n + code_text(*b),
    }
}

/// A number with a mark at its end.
pub open spec fn counted_text(n: nat) -> Seq<char> {
    dec(n) + "_"@
}

/// How many types there are, and then their texts.
pub open spec fn code_args(args: Seq<TyV>) -> Seq<char>
    decreases args, args.len() + 1,
{
    counted_text(args.len()) + code_texts_from(args, 0)
}

/// The texts of the types from the `k`th on.
pub open spec fn code_texts_from(ts: Seq<TyV>, k: nat) -> Seq<char>
    decreases ts, ts.len() - k,
{
    if k >= ts.len() {
        seq![]
    } else {
        code_text(ts[k as int]) + code_texts_from(ts, k + 1)
    }
}

/// The release functions of the first `k` structs.
pub open spec fn structs_made(hir: HirModule, items: Seq<(SymbolId, u32)>, k: nat) -> Result<
    Seq<(SymbolId, ReleaseV)>,
    Seq<char>,
>
    decreases k,
{
    if k == 0 || k > items.len() {
        Ok(seq![])
    } else {
        match structs_made(hir, items, (k - 1) as nat) {
            Err(m) => Err(m),
            Ok(rs) => {
                let s = items[k - 1].0;
                match struct_release(hir, s) {
                    Err(m) => Err(m),
                    Ok(g) => Ok(rs.push((s, ReleaseV { name: struct_release_name(s), ops: g.ops }))),
                }
            },
        }
    }
}

/// The release functions of the first `k` payload enums.
pub open spec fn enums_made(hir: HirModule, syms: Seq<SymbolId>, k: nat) -> Result<Seq<(SymbolId, ReleaseV)>, Seq<char>>
    decreases k,
{
    if k == 0 || k > syms.len() {
        Ok(seq![])
    } else {
        match enums_made(hir, syms, (k - 1) as nat) {
            Err(m) => Err(m),
            Ok(rs) => {
                let s = syms[k - 1];
                match enum_release(hir, s) {
                    Err(m) => Err(m),
                    Ok(g) => Ok(rs.push((s, ReleaseV { name: enum_release_name(s), ops: g.ops }))),
                }
            },
        }
    }
}

/// The release functions of vectors of the first `k` element types.
pub open spec fn vecs_made(hir: HirModule, ts: Seq<Ty>, k: nat) -> Result<Seq<ReleaseV>, Seq<char>>
    decreases k,
{
    if k == 0 || k > ts.len() {
        Ok(seq![])
    } else {
        match vecs_made(hir, ts, (k - 1) as nat) {
            Err(m) => Err(m),
            Ok(rs) => match vec_release(hir, ts[k - 1]@) {
                Err(m) => Err(m),
                Ok(g) => Ok(rs.push(ReleaseV { name: vec_release_name(ts[k - 1]@), ops: g.ops })),
            },
        }
    }
}

/// The release functions of the array types among the first `k` types.
pub open spec fn arrays_made(hir: HirModule, ts: Seq<Ty>, k: nat) -> Result<Seq<ReleaseV>, Seq<char>>
    decreases k,
{
    if k == 0 || k > ts.len() {
        Ok(seq![])
    } else {
        match arrays_made(hir, ts, (k - 1) as nat) {
            Err(m) => Err(m),
            Ok(rs) => match ts[k - 1]@ {
                TyV::Array(e, n) => match array_release(hir, *e, n) {
                    Err(m) => Err(m),
                    Ok(g) => Ok(rs.push(ReleaseV { name: array_release_name(ts[k - 1]@), ops: g.ops })),
                },
                _ => Err("not an array type: `"@ + ty_text(ts[k - 1]@) + "`"@),
            },
        }
    }
}

/// The release functions of the objects of the first `k` traits.
pub open spec fn objects_made(hir: HirModule, items: Seq<(SymbolId, Vec<(SymbolId, String)>)>, k: nat) -> Result<
    Seq<(SymbolId, ReleaseV)>,
    Seq<char>,
>
    decreases k,
{
    if k == 0 || k > items.len() {
        Ok(seq![])
    } else {
        match objects_made(hir, items, (k - 1) as nat) {
            Err(m) => Err(m),
            Ok(rs) => {
                let t = items[k - 1].0;
                match object_release(hir, t) {
                    Err(m) => Err(m),
                    Ok(g) => Ok(rs.push((t, ReleaseV { name: object_release_name(t), ops: g.ops }))),
                }
            },
        }
    }
}

/// The code of a whole program: every function declared first, then their
/// bodies, then the release functions.
pub open spec fn module_made(known: Map<SymbolId, Option<Width>>, texts: u32, hir: HirModule) -> Result<
    ModuleCodeV,
    Seq<char>,
> {
    match declared_sigs(known, hir.items@, hir.items@.len()) {
        Err(m) => Err(m),
        Ok(sigs) => match fns_made(Env { hir, fns: sigs }, texts, hir.items@, hir.items@.len()) {
            Err(m) => Err(m),
            Ok((fns, n)) => match structs_made(hir, hir.struct_sizes.items(), hir.struct_sizes.items().len()) {
                Err(m) => Err(m),
                Ok(structs) => match enums_made(hir, hir.enum_has_payload@, hir.enum_has_payload@.len()) {
                    Err(m) => Err(m),
                    Ok(enums) => match vecs_made(hir, hir.vec_arc_elem_tys@, hir.vec_arc_elem_tys@.len()) {
                        Err(m) => Err(m),
                        Ok(vecs) => match arrays_made(hir, hir.array_tys@, hir.array_tys@.len()) {
                            Err(m) => Err(m),
                            Ok(arrays) => match objects_made(
                                hir,
                                hir.trait_methods_flat.items(),
                                hir.trait_methods_flat.items().len(),
                            ) {
                                Err(m) => Err(m),
                                Ok(objects) => Ok(
                                    ModuleCodeV { fns, structs, enums, vecs, arrays, objects, sigs, texts: n },
                                ),
                            },
                        },
                    },
                },
            },
        },
    }
}

/// The entry the operating system calls: it calls the program's own `main`
/// and cuts the result down to an exit code.
pub open spec fn main_wrapper(rune_main: SymbolId) -> Seq<OpV> {
    let g0 = begun(0);
    let g1 = put(g0, OpV::Call(CalleeV::Fn(rune_main), seq![]));
    let g2 = put(g1, OpV::Convert(Conversion::Truncate, Width::I32, here(g0)));
    put(g2, OpV::Return(seq![here(g1)])).ops
}

} // verus!
