//! Generated code: straight lines of operations over numbered blocks, values
//! and variables.

use vstd::prelude::*;

use crate::table::{Table, lookup};
use crate::text::cat2;
use crate::ty::{FloatTy, SymbolId, Ty, TyV, next_number};

verus! {

#[derive(Debug, Clone)]
pub struct CodegenError(pub String);

impl vstd::std_specs::convert::FromSpecImpl<String> for CodegenError {
    open spec fn obeys_from_spec() -> bool {
        true
    }

    open spec fn from_spec(s: String) -> Self {
        CodegenError(s)
    }
}

impl From<String> for CodegenError {
    fn from(s: String) -> (r: Self) {
        CodegenError(s)
    }
}

impl<'a> vstd::std_specs::convert::FromSpecImpl<&'a str> for CodegenError {
    open spec fn obeys_from_spec() -> bool {
        false
    }

    open spec fn from_spec(s: &'a str) -> Self {
        arbitrary()
    }
}

impl<'a> From<&'a str> for CodegenError {
    fn from(s: &'a str) -> (r: Self)
        ensures
            r.0@ == s@,
    {
        CodegenError(s.to_string())
    }
}

impl CodegenError {
    /// The error as it is shown.
    pub fn display(&self) -> (r: String)
        ensures
            r@ == "codegen error: "@ + self.0@,
    {
        cat2("codegen error: ", self.0.as_str())
    }
}

/// The machine type of a value.
#[derive(Debug, Clone, Copy, PartialEq, Eq, Structural)]
pub enum Width {
    I8,
    I16,
    I32,
    I64,
    F32,
    F64,
}

#[derive(Debug, Clone, Copy, PartialEq, Eq, Structural)]
pub enum Arith {
    Add,
    Sub,
    Mul,
    SDiv,
    UDiv,
    SRem,
    URem,
    FAdd,
    FSub,
    FMul,
    FDiv,
    And,
    Or,
    Xor,
    Shl,
    SShr,
    UShr,
}

#[derive(Debug, Clone, Copy, PartialEq, Eq, Structural)]
pub enum Negation {
    Int,
    Float,
    Bits,
}

/// A comparison of integers.
#[derive(Debug, Clone, Copy, PartialEq, Eq, Structural)]
pub enum Cond {
    Equal,
    NotEqual,
    SLess,
    SGreater,
    SLessEqual,
    SGreaterEqual,
    ULess,
    UGreater,
    ULessEqual,
    UGreaterEqual,
}

/// A comparison of floats.
#[derive(Debug, Clone, Copy, PartialEq, Eq, Structural)]
pub enum FloatCond {
    Equal,
    NotEqual,
    Less,
    Greater,
    LessEqual,
    GreaterEqual,
}

#[derive(Debug, Clone, Copy, PartialEq, Eq, Structural)]
pub enum Conversion {
    SignExtend,
    ZeroExtend,
    Truncate,
    FloatFromSigned,
    FloatFromUnsigned,
    /// Saturating.
    SignedFromFloat,
    /// Saturating.
    UnsignedFromFloat,
    Promote,
    Demote,
}

/// What a call calls.
#[derive(Debug)]
pub enum Callee {
    Fn(SymbolId),
    /// A function of the runtime, by its short name.
    Runtime(String),
    ReleaseStruct(SymbolId),
    ReleaseEnum(SymbolId),
    /// The release function of vectors of an element type, by the type's
    /// position in the module's list.
    ReleaseVec(usize),
    /// The release function of an array type, by the type's position in the
    /// module's list.
    ReleaseArray(usize),
    /// The release function of a trait's objects.
    ReleaseDyn(SymbolId),
}

pub enum CalleeV {
    Fn(SymbolId),
    Runtime(Seq<char>),
    ReleaseStruct(SymbolId),
    ReleaseEnum(SymbolId),
    ReleaseVec(usize),
    ReleaseArray(usize),
    ReleaseDyn(SymbolId),
}

/// One operation. What it makes (a value, a block, a variable, a stack slot)
/// is named by the position of the operation in its function.
#[derive(Debug)]
pub enum Op {
    /// The value of a parameter of the function.
    Param(usize),
    /// A new block. The first one is where the function starts.
    Block,
    /// A parameter of a block, and its value.
    BlockParam(usize, Width),
    /// What follows goes into a block.
    Switch(usize),
    /// No more jumps to a block will follow.
    Seal(usize),
    /// A new variable.
    Var(Width),
    Assign(usize, usize),
    Read(usize),
    Int(Width, i64),
    /// A float from its digits.
    Float(FloatTy, String),
    Arith(Arith, usize, usize),
    Negate(Negation, usize),
    Compare(Cond, usize, usize),
    CompareFloat(FloatCond, usize, usize),
    Convert(Conversion, Width, usize),
    /// Reads at an offset from an address.
    Load(Width, usize, i32),
    /// Writes a value at an offset from an address.
    Store(usize, usize, i32),
    /// A new stack slot of a size, aligned to eight bytes.
    Slot(u32),
    SlotStore(usize, usize, i32),
    SlotAddr(usize),
    /// The address of a text's bytes, kept as numbered data.
    Text(u32, String),
    Call(Callee, Vec<usize>),
    FnAddr(SymbolId),
    /// The address of a struct's release function.
    ReleaseAddr(SymbolId),
    /// A call through an address, with the signature it is called with.
    CallIndirect(Vec<Width>, Option<Width>, usize, Vec<usize>),
    Jump(usize, Vec<usize>),
    /// Jumps to the first block when the value is not zero, else to the
    /// second.
    Branch(usize, usize, usize),
    Return(Vec<usize>),
    Trap(u8),
}

pub enum OpV {
    Param(usize),
    Block,
    BlockParam(usize, Width),
    Switch(usize),
    Seal(usize),
    Var(Width),
    Assign(usize, usize),
    Read(usize),
    Int(Width, i64),
    Float(FloatTy, Seq<char>),
    Arith(Arith, usize, usize),
    Negate(Negation, usize),
    Compare(Cond, usize, usize),
    CompareFloat(FloatCond, usize, usize),
    Convert(Conversion, Width, usize),
    Load(Width, usize, i32),
    Store(usize, usize, i32),
    Slot(u32),
    SlotStore(usize, usize, i32),
    SlotAddr(usize),
    Text(u32, Seq<char>),
    Call(CalleeV, Seq<usize>),
    FnAddr(SymbolId),
    ReleaseAddr(SymbolId),
    CallIndirect(Seq<Width>, Option<Width>, usize, Seq<usize>),
    Jump(usize, Seq<usize>),
    Branch(usize, usize, usize),
    Return(Seq<usize>),
    Trap(u8),
}

pub open spec fn callee_view(c: Callee) -> CalleeV {
    match c {
        Callee::Fn(s) => CalleeV::Fn(s),
        Callee::Runtime(n) => CalleeV::Runtime(n@),
        Callee::ReleaseStruct(s) => CalleeV::ReleaseStruct(s),
        Callee::ReleaseEnum(s) => CalleeV::ReleaseEnum(s),
        Callee::ReleaseVec(i) => CalleeV::ReleaseVec(i),
        Callee::ReleaseArray(i) => CalleeV::ReleaseArray(i),
        Callee::ReleaseDyn(t) => CalleeV::ReleaseDyn(t),
    }
}

pub open spec fn op_view(op: Op) -> OpV {
    match op {
        Op::Param(i) => OpV::Param(i),
        Op::Block => OpV::Block,
        Op::BlockParam(b, w) => OpV::BlockParam(b, w),
        Op::Switch(b) => OpV::Switch(b),
        Op::Seal(b) => OpV::Seal(b),
        Op::Var(w) => OpV::Var(w),
        Op::Assign(x, v) => OpV::Assign(x, v),
        Op::Read(x) => OpV::Read(x),
        Op::Int(w, v) => OpV::Int(w, v),
        Op::Float(t, s) => OpV::Float(t, s@),
        Op::Arith(a, l, r) => OpV::Arith(a, l, r),
        Op::Negate(n, v) => OpV::Negate(n, v),
        Op::Compare(c, l, r) => OpV::Compare(c, l, r),
        Op::CompareFloat(c, l, r) => OpV::CompareFloat(c, l, r),
        Op::Convert(c, w, v) => OpV::Convert(c, w, v),
        Op::Load(w, p, o) => OpV::Load(w, p, o),
        Op::Store(v, p, o) => OpV::Store(v, p, o),
        Op::Slot(n) => OpV::Slot(n),
        Op::SlotStore(v, s, o) => OpV::SlotStore(v, s, o),
        Op::SlotAddr(s) => OpV::SlotAddr(s),
        Op::Text(n, s) => OpV::Text(n, s@),
        Op::Call(c, args) => OpV::Call(callee_view(c), args@),
        Op::FnAddr(s) => OpV::FnAddr(s),
        Op::ReleaseAddr(s) => OpV::ReleaseAddr(s),
        Op::CallIndirect(ps, r, f, args) => OpV::CallIndirect(ps@, r, f, args@),
        Op::Jump(b, args) => OpV::Jump(b, args@),
        Op::Branch(c, a, b) => OpV::Branch(c, a, b),
        Op::Return(vs) => OpV::Return(vs@),
        Op::Trap(n) => OpV::Trap(n),
    }
}

pub open spec fn op_views(ops: Seq<Op>) -> Seq<OpV> {
    Seq::new(ops.len(), |i: int| op_view(ops[i]))
}

/// Whether an operation ends its block.
pub open spec fn ends_block(op: OpV) -> bool {
    op is Jump || op is Branch || op is Return || op is Trap
}

/// The code of a function on the way: the operations, whether the current
/// block has ended, the variable of each local, the locals that own a
/// reference, and the loops around with the block each leads out to and how
/// many such locals there were before it. `texts` numbers text data across
/// the module.
pub struct Gen {
    pub ops: Seq<OpV>,
    pub filled: bool,
    pub vars: Map<SymbolId, usize>,
    pub owned: Seq<(usize, TyV)>,
    pub loops: Seq<(usize, usize)>,
    pub texts: u32,
}

/// The position the next operation gets.
pub open spec fn here(g: Gen) -> usize {
    g.ops.len() as usize
}

/// The code with an operation added.
pub open spec fn put(g: Gen, op: OpV) -> Gen {
    Gen {
        ops: g.ops.push(op),
        filled: if op is Switch {
            false
        } else {
            g.filled || ends_block(op)
        },
        ..g
    }
}

pub open spec fn owned_views(ls: Seq<(usize, Ty)>) -> Seq<(usize, TyV)> {
    Seq::new(ls.len(), |i: int| (ls[i].0, ls[i].1@))
}

pub struct Emitter {
    ops: Vec<Op>,
    filled: bool,
    vars: Table<SymbolId, usize>,
    owned: Vec<(usize, Ty)>,
    loops: Vec<(usize, usize)>,
    texts: u32,
}

impl View for Emitter {
    type V = Gen;

    closed spec fn view(&self) -> Gen {
        Gen {
            ops: op_views(self.ops@),
            filled: self.filled,
            vars: self.vars@,
            owned: owned_views(self.owned@),
            loops: self.loops@,
            texts: self.texts,
        }
    }
}

/// The code of a function before anything is in it.
pub open spec fn no_code(texts: u32) -> Gen {
    Gen { ops: seq![], filled: false, vars: Map::empty(), owned: seq![], loops: seq![], texts }
}

impl Emitter {
    pub fn new(texts: u32) -> (r: Self)
        ensures
            r@ == no_code(texts),
    {
        let r = Emitter {
            ops: Vec::new(),
            filled: false,
            vars: Table::new(),
            owned: Vec::new(),
            loops: Vec::new(),
            texts,
        };
        proof {
            assert(r@.ops =~= seq![]);
            assert(r@.owned =~= seq![]);
            assert(r@.loops =~= seq![]);
        }
        r
    }

    pub fn finish(self) -> (r: (Vec<Op>, u32))
        ensures
            op_views(r.0@) == self@.ops,
            r.1 == self@.texts,
    {
        (self.ops, self.texts)
    }

    /// Adds an operation and gives its position.
    pub fn put(&mut self, op: Op) -> (r: usize)
        ensures
            final(self)@ == put(old(self)@, op_view(op)),
            r == here(old(self)@),
    {
        let at = self.ops.len();
        match op {
            Op::Switch(_) => {
                self.filled = false;
            },
            Op::Jump(_, _) => {
                self.filled = true;
            },
            Op::Branch(_, _, _) => {
                self.filled = true;
            },
            Op::Return(_) => {
                self.filled = true;
            },
            Op::Trap(_) => {
                self.filled = true;
            },
            _ => {},
        }
        let ghost before = op_views(self.ops@);
        self.ops.push(op);
        assert(op_views(self.ops@) =~= before.push(op_view(op)));
        at
    }

    /// The position the next operation gets.
    pub fn len(&self) -> (r: usize)
        ensures
            r == here(self@),
    {
        self.ops.len()
    }

    pub fn is_filled(&self) -> (r: bool)
        ensures
            r == self@.filled,
    {
        self.filled
    }

    pub fn var(&self, s: SymbolId) -> (r: Option<usize>)
        ensures
            r == lookup(self@.vars, s),
    {
        match self.vars.get(&s) {
            Some(v) => Some(*v),
            None => None,
        }
    }

    pub fn set_var(&mut self, s: SymbolId, v: usize)
        ensures
            final(self)@ == (Gen { vars: old(self)@.vars.insert(s, v), ..old(self)@ }),
    {
        self.vars.insert(s, v);
    }

    /// Notes that a variable owns a reference.
    pub fn own(&mut self, v: usize, t: Ty)
        ensures
            final(self)@ == (Gen { owned: old(self)@.owned.push((v, t@)), ..old(self)@ }),
    {
        let ghost before = owned_views(self.owned@);
        self.owned.push((v, t));
        assert(owned_views(self.owned@) =~= before.push((v, t@)));
    }

    pub fn owned_count(&self) -> (r: usize)
        ensures
            r == self@.owned.len(),
    {
        self.owned.len()
    }

    pub fn owned_at(&self, i: usize) -> (r: (usize, Ty))
        requires
            i < self@.owned.len(),
        ensures
            (r.0, r.1@) == self@.owned[i as int],
    {
        let l = &self.owned[i];
        (l.0, l.1.copy())
    }

    /// Forgets the owning variables after the first `n`.
    pub fn forget_owned(&mut self, n: usize)
        ensures
            final(self)@ == (Gen {
                owned: if n <= old(self)@.owned.len() {
                    old(self)@.owned.take(n as int)
                } else {
                    old(self)@.owned
                },
                ..old(self)@
            }),
    {
        let ghost before = self@.owned;
        while self.owned.len() > n
            invariant
                self@ == (Gen { owned: self@.owned, ..old(self)@ }),
                before == old(self)@.owned,
                self@.owned.len() <= before.len(),
                n <= before.len() ==> n <= self@.owned.len(),
                n > before.len() ==> self@.owned == before,
                self@.owned == before.take(self@.owned.len() as int),
            decreases self.owned.len(),
        {
            let ghost mid = self@.owned;
            let _ = self.owned.pop();
            assert(self@.owned =~= mid.drop_last());
            assert(self@.owned =~= before.take(self@.owned.len() as int));
        }
    }

    pub fn enter_loop(&mut self, exit: usize)
        ensures
            final(self)@ == (Gen {
                loops: old(self)@.loops.push((exit, old(self)@.owned.len() as usize)),
                ..old(self)@
            }),
    {
        self.loops.push((exit, self.owned.len()));
    }

    pub fn leave_loop(&mut self)
        requires
            old(self)@.loops.len() > 0,
        ensures
            final(self)@ == (Gen { loops: old(self)@.loops.drop_last(), ..old(self)@ }),
    {
        let _ = self.loops.pop();
    }

    pub fn innermost_loop(&self) -> (r: Option<(usize, usize)>)
        ensures
            r == (if self@.loops.len() == 0 {
                None
            } else {
                Some(self@.loops.last())
            }),
    {
        let n = self.loops.len();
        if n == 0 {
            None
        } else {
            Some((self.loops[n - 1].0, self.loops[n - 1].1))
        }
    }

    /// The number for the next text.
    pub fn next_text(&mut self) -> (r: u32)
        ensures
            r == old(self)@.texts,
            final(self)@ == (Gen { texts: next_number(old(self)@.texts), ..old(self)@ }),
    {
        let n = self.texts;
        self.texts = n.wrapping_add(1);
        n
    }
}

} // verus!
