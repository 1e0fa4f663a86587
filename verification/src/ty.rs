//! Semantic types.

use vstd::prelude::*;

use crate::text::{dec, join, joined, push_dec, same_text, texts};

verus! {

/// A symbol's identity: its index in the symbol table.
#[derive(Debug, Clone, Copy, PartialEq, Eq, Hash, Structural)]
pub struct SymbolId(pub u32);

/// The number after `n`, wrapping at the end of the range.
pub open spec fn next_number(n: u32) -> u32 {
    if n == u32::MAX {
        0
    } else {
        (n + 1) as u32
    }
}

#[derive(Debug, Clone, Copy, PartialEq, Eq, Hash, Structural)]
pub enum IntTy {
    I8,
    I16,
    I32,
    I64,
    ISize,
    U8,
    U16,
    U32,
    U64,
    USize,
}

#[derive(Debug, Clone, Copy, PartialEq, Eq, Hash, Structural)]
pub enum FloatTy {
    F32,
    F64,
}

/// The type of an integer literal with no suffix and no context.
pub const DEFAULT_INT: IntTy = IntTy::I64;

/// The type of a float literal with no suffix and no context.
pub const DEFAULT_FLOAT: FloatTy = FloatTy::F64;

/// The source name of an integer type.
pub open spec fn int_name(t: IntTy) -> Seq<char> {
    match t {
        IntTy::I8 => "i8"@,
        IntTy::I16 => "i16"@,
        IntTy::I32 => "i32"@,
        IntTy::I64 => "i64"@,
        IntTy::ISize => "isize"@,
        IntTy::U8 => "u8"@,
        IntTy::U16 => "u16"@,
        IntTy::U32 => "u32"@,
        IntTy::U64 => "u64"@,
        IntTy::USize => "usize"@,
    }
}

/// The source name of a float type.
pub open spec fn float_name(t: FloatTy) -> Seq<char> {
    match t {
        FloatTy::F32 => "f32"@,
        FloatTy::F64 => "f64"@,
    }
}

/// Whether an integer type is signed.
pub open spec fn int_signed(t: IntTy) -> bool {
    match t {
        IntTy::I8 | IntTy::I16 | IntTy::I32 | IntTy::I64 | IntTy::ISize => true,
        _ => false,
    }
}

impl IntTy {
    pub fn name(self) -> (r: &'static str)
        ensures
            r@ == int_name(self),
    {
        match self {
            IntTy::I8 => "i8",
            IntTy::I16 => "i16",
            IntTy::I32 => "i32",
            IntTy::I64 => "i64",
            IntTy::ISize => "isize",
            IntTy::U8 => "u8",
            IntTy::U16 => "u16",
            IntTy::U32 => "u32",
            IntTy::U64 => "u64",
            IntTy::USize => "usize",
        }
    }

    pub fn is_signed(self) -> (r: bool)
        ensures
            r == int_signed(self),
    {
        match self {
            IntTy::I8 | IntTy::I16 | IntTy::I32 | IntTy::I64 | IntTy::ISize => true,
            _ => false,
        }
    }
}

impl FloatTy {
    pub fn name(self) -> (r: &'static str)
        ensures
            r@ == float_name(self),
    {
        match self {
            FloatTy::F32 => "f32",
            FloatTy::F64 => "f64",
        }
    }
}

/// A semantic type. `Error` marks a type whose computation already failed;
/// it is compatible with everything, so one mistake is reported once.
#[derive(Debug, PartialEq, Eq, Hash)]
pub enum Ty {
    Bool,
    Char,
    Str,
    Unit,
    Never,
    Error,
    /// `Self` inside a trait's signatures.
    SelfType,
    Int(IntTy),
    Float(FloatTy),
    Vec(Box<Ty>),
    Weak(Box<Ty>),
    HashMap(Box<Ty>, Box<Ty>),
    Array(Box<Ty>, usize),
    Fn { params: Vec<Ty>, ret: Box<Ty> },
    Struct(SymbolId, Vec<Ty>),
    Enum(SymbolId, Vec<Ty>),
    TypeVar(SymbolId),
    /// `Base::Name` for a base that is not concrete yet.
    Assoc(Box<Ty>, String),
    Dyn(SymbolId, Vec<Ty>),
}

/// A semantic type as a mathematical value.
pub enum TyV {
    Bool,
    Char,
    Str,
    Unit,
    Never,
    Error,
    SelfType,
    Int(IntTy),
    Float(FloatTy),
    Vec(Box<TyV>),
    Weak(Box<TyV>),
    HashMap(Box<TyV>, Box<TyV>),
    Array(Box<TyV>, usize),
    Fn { params: Seq<TyV>, ret: Box<TyV> },
    Struct(SymbolId, Seq<TyV>),
    Enum(SymbolId, Seq<TyV>),
    TypeVar(SymbolId),
    Assoc(Box<TyV>, Seq<char>),
    Dyn(SymbolId, Seq<TyV>),
}

pub open spec fn ty_view(t: Ty) -> TyV
    decreases t,
{
    match t {
        Ty::Bool => TyV::Bool,
        Ty::Char => TyV::Char,
        Ty::Str => TyV::Str,
        Ty::Unit => TyV::Unit,
        Ty::Never => TyV::Never,
        Ty::Error => TyV::Error,
        Ty::SelfType => TyV::SelfType,
        Ty::Int(i) => TyV::Int(i),
        Ty::Float(f) => TyV::Float(f),
        Ty::Vec(e) => TyV::Vec(Box::new(ty_view(*e))),
        Ty::Weak(e) => TyV::Weak(Box::new(ty_view(*e))),
        Ty::HashMap(k, v) => TyV::HashMap(Box::new(ty_view(*k)), Box::new(ty_view(*v))),
        Ty::Array(e, n) => TyV::Array(Box::new(ty_view(*e)), n),
        Ty::Fn { params, ret } => TyV::Fn { params: ty_views(params@), ret: Box::new(ty_view(*ret)) },
        Ty::Struct(s, args) => TyV::Struct(s, ty_views(args@)),
        Ty::Enum(s, args) => TyV::Enum(s, ty_views(args@)),
        Ty::TypeVar(s) => TyV::TypeVar(s),
        Ty::Assoc(b, n) => TyV::Assoc(Box::new(ty_view(*b)), n@),
        Ty::Dyn(s, args) => TyV::Dyn(s, ty_views(args@)),
    }
}

pub open spec fn ty_views(ts: Seq<Ty>) -> Seq<TyV>
    decreases ts,
{
    Seq::new(ts.len(), |i: int| if 0 <= i < ts.len() { ty_view(ts[i]) } else { TyV::Error })
}

impl View for Ty {
    type V = TyV;

    open spec fn view(&self) -> TyV {
        ty_view(*self)
    }
}

// ---- copying and comparing ----

impl Clone for Ty {
    fn clone(&self) -> (r: Self)
        ensures
            r@ == self@,
    {
        self.copy()
    }
}

impl Ty {
    /// A copy that stands for the same type.
    pub fn copy(&self) -> (r: Ty)
        ensures
            r@ == self@,
        decreases self,
    {
        match self {
            Ty::Bool => Ty::Bool,
            Ty::Char => Ty::Char,
            Ty::Str => Ty::Str,
            Ty::Unit => Ty::Unit,
            Ty::Never => Ty::Never,
            Ty::Error => Ty::Error,
            Ty::SelfType => Ty::SelfType,
            Ty::Int(i) => Ty::Int(*i),
            Ty::Float(f) => Ty::Float(*f),
            Ty::Vec(e) => Ty::Vec(Box::new(e.copy())),
            Ty::Weak(e) => Ty::Weak(Box::new(e.copy())),
            Ty::HashMap(k, v) => Ty::HashMap(Box::new(k.copy()), Box::new(v.copy())),
            Ty::Array(e, n) => Ty::Array(Box::new(e.copy()), *n),
            Ty::Fn { params, ret } => Ty::Fn { params: copy_tys(params), ret: Box::new(ret.copy()) },
            Ty::Struct(s, args) => Ty::Struct(*s, copy_tys(args)),
            Ty::Enum(s, args) => Ty::Enum(*s, copy_tys(args)),
            Ty::TypeVar(s) => Ty::TypeVar(*s),
            Ty::Assoc(b, n) => Ty::Assoc(Box::new(b.copy()), n.clone()),
            Ty::Dyn(s, args) => Ty::Dyn(*s, copy_tys(args)),
        }
    }

    /// Whether two types are the same type.
    pub fn same(&self, other: &Ty) -> (r: bool)
        ensures
            r == (self@ == other@),
        decreases self,
    {
        match (self, other) {
            (Ty::Bool, Ty::Bool) => true,
            (Ty::Char, Ty::Char) => true,
            (Ty::Str, Ty::Str) => true,
            (Ty::Unit, Ty::Unit) => true,
            (Ty::Never, Ty::Never) => true,
            (Ty::Error, Ty::Error) => true,
            (Ty::SelfType, Ty::SelfType) => true,
            (Ty::Int(a), Ty::Int(b)) => *a == *b,
            (Ty::Float(a), Ty::Float(b)) => *a == *b,
            (Ty::Vec(a), Ty::Vec(b)) => a.same(b),
            (Ty::Weak(a), Ty::Weak(b)) => a.same(b),
            (Ty::HashMap(k, v), Ty::HashMap(k2, v2)) => k.same(k2) && v.same(v2),
            (Ty::Array(a, n), Ty::Array(b, m)) => *n == *m && a.same(b),
            (Ty::Fn { params, ret }, Ty::Fn { params: params2, ret: ret2 }) => same_tys(params, params2)
                && ret.same(ret2),
            (Ty::Struct(s, a), Ty::Struct(s2, b)) => s.0 == s2.0 && same_tys(a, b),
            (Ty::Enum(s, a), Ty::Enum(s2, b)) => s.0 == s2.0 && same_tys(a, b),
            (Ty::TypeVar(s), Ty::TypeVar(s2)) => s.0 == s2.0,
            (Ty::Assoc(b, n), Ty::Assoc(b2, n2)) => b.same(b2) && same_text(n.as_str(), n2.as_str()),
            (Ty::Dyn(s, a), Ty::Dyn(s2, b)) => s.0 == s2.0 && same_tys(a, b),
            _ => false,
        }
    }
}

pub fn copy_tys(ts: &Vec<Ty>) -> (r: Vec<Ty>)
    ensures
        ty_views(r@) == ty_views(ts@),
    decreases ts,
{
    let mut out: Vec<Ty> = Vec::new();
    let mut i: usize = 0;
    while i < ts.len()
        invariant
            i <= ts.len(),
            out.len() == i,
            forall|j: int| 0 <= j < i ==> ty_view(#[trigger] out[j]) == ty_view(ts[j]),
        decreases ts.len() - i,
    {
        out.push(ts[i].copy());
        i += 1;
    }
    assert(ty_views(out@) =~= ty_views(ts@));
    out
}

pub fn same_tys(a: &Vec<Ty>, b: &Vec<Ty>) -> (r: bool)
    ensures
        r == (ty_views(a@) == ty_views(b@)),
    decreases a,
{
    if a.len() != b.len() {
        assert(ty_views(a@).len() != ty_views(b@).len());
        return false;
    }
    let mut i: usize = 0;
    while i < a.len()
        invariant
            i <= a.len(),
            a.len() == b.len(),
            forall|j: int| 0 <= j < i ==> ty_view(#[trigger] a[j]) == ty_view(b[j]),
        decreases a.len() - i,
    {
        if !a[i].same(&b[i]) {
            assert(ty_views(a@)[i as int] != ty_views(b@)[i as int]);
            return false;
        }
        i += 1;
    }
    assert(ty_views(a@) =~= ty_views(b@));
    true
}

/// Whether a list of types holds `t`.
pub fn contains_ty(ts: &Vec<Ty>, t: &Ty) -> (r: bool)
    ensures
        r == ty_views(ts@).contains(t@),
{
    let mut i: usize = 0;
    while i < ts.len()
        invariant
            i <= ts.len(),
            forall|j: int| 0 <= j < i ==> ty_view(#[trigger] ts[j]) != t@,
        decreases ts.len() - i,
    {
        if ts[i].same(t) {
            assert(ty_views(ts@)[i as int] == t@);
            return true;
        }
        i += 1;
    }
    assert forall|j: int| 0 <= j < ts.len() implies ty_views(ts@)[j] != t@ by {
        assert(ty_view(ts[j]) != t@);
    }
    false
}

// ---- predicates ----

impl Ty {
    pub fn is_error(&self) -> (r: bool)
        ensures
            r == (self@ is Error),
    {
        match self {
            Ty::Error => true,
            _ => false,
        }
    }

    pub fn is_never(&self) -> (r: bool)
        ensures
            r == (self@ is Never),
    {
        match self {
            Ty::Never => true,
            _ => false,
        }
    }

    pub fn is_integer(&self) -> (r: bool)
        ensures
            r == (self@ is Int),
    {
        match self {
            Ty::Int(_) => true,
            _ => false,
        }
    }

    pub fn is_numeric(&self) -> (r: bool)
        ensures
            r == (self@ is Int || self@ is Float),
    {
        match self {
            Ty::Int(_) | Ty::Float(_) => true,
            _ => false,
        }
    }
}

// ---- compatibility ----

/// A type parameter, or a projection.
pub open spec fn is_open(t: TyV) -> bool {
    t is TypeVar || t is Assoc
}

/// Whether a value of one type may stand where the other is expected.
/// `Error` and `Never` go with everything, and so do a type parameter and a
/// projection from one, which stand for a type that is not known yet; two
/// instances of one enum go together when either is still uninstantiated;
/// everything else goes together part by part.
pub open spec fn compatible(a: TyV, b: TyV) -> bool
    decreases a,
{
    if a is Error || b is Error || a is Never || b is Never || is_open(a) || is_open(b) {
        true
    } else {
        match a {
            TyV::Vec(x) => b is Vec && compatible(*x, *b->Vec_0),
            TyV::Weak(x) => b is Weak && compatible(*x, *b->Weak_0),
            TyV::HashMap(k, v) => b is HashMap && compatible(*k, *b->HashMap_0) && compatible(
                *v,
                *b->HashMap_1,
            ),
            TyV::Array(x, n) => b is Array && n == b->Array_1 && compatible(*x, *b->Array_0),
            TyV::Fn { params, ret } => b is Fn && all_compatible(params, b->params) && compatible(
                *ret,
                *b->ret,
            ),
            TyV::Struct(s, x) => b is Struct && s == b->Struct_0 && all_compatible(x, b->Struct_1),
            TyV::Enum(s, x) => b is Enum && s == b->Enum_0 && (x.len() == 0 || b->Enum_1.len() == 0
                || all_compatible(x, b->Enum_1)),
            _ => a == b,
        }
    }
}

/// Two equally long lists that are compatible position by position.
pub open spec fn all_compatible(xs: Seq<TyV>, ys: Seq<TyV>) -> bool
    decreases xs,
{
    &&& xs.len() == ys.len()
    &&& forall|i: int| 0 <= i < xs.len() ==> compatible(#[trigger] xs[i], ys[i])
}

/// The common type of two branches: the other side of a diverging branch,
/// the instantiated side of an enum, and nothing for incompatible types.
pub open spec fn unified(a: TyV, b: TyV) -> Option<TyV> {
    if !compatible(a, b) {
        None
    } else if a is Never {
        Some(b)
    } else if b is Never {
        Some(a)
    } else if b is Error {
        Some(b)
    } else {
        match a {
            TyV::Enum(_, args) => if args.len() == 0 {
                Some(b)
            } else {
                Some(a)
            },
            _ => Some(a),
        }
    }
}

impl Ty {
    pub fn compatible(&self, other: &Ty) -> (r: bool)
        ensures
            r == compatible(self@, other@),
        decreases self,
    {
        match (self, other) {
            (Ty::Error, _) | (_, Ty::Error) | (Ty::Never, _) | (_, Ty::Never) => true,
            (Ty::TypeVar(_), _) | (_, Ty::TypeVar(_)) | (Ty::Assoc(_, _), _) | (_, Ty::Assoc(_, _)) => true,
            (Ty::Vec(a), Ty::Vec(b)) => a.compatible(b),
            (Ty::Weak(a), Ty::Weak(b)) => a.compatible(b),
            (Ty::HashMap(k, v), Ty::HashMap(k2, v2)) => k.compatible(k2) && v.compatible(v2),
            (Ty::Array(a, n), Ty::Array(b, m)) => *n == *m && a.compatible(b),
            (Ty::Fn { params, ret }, Ty::Fn { params: params2, ret: ret2 }) => compatible_tys(
                params,
                params2,
            ) && ret.compatible(ret2),
            (Ty::Struct(s, a), Ty::Struct(s2, b)) => s.0 == s2.0 && compatible_tys(a, b),
            (Ty::Enum(s, a), Ty::Enum(s2, b)) => {
                assert(ty_views(a@).len() == a.len() && ty_views(b@).len() == b.len());
                s.0 == s2.0 && (a.len() == 0 || b.len() == 0 || compatible_tys(a, b))
            },
            _ => self.same(other),
        }
    }

    /// The common type of two branches.
    pub fn unify(&self, other: &Ty) -> (r: Option<Ty>)
        ensures
            match r {
                Some(t) => unified(self@, other@) == Some(t@),
                None => unified(self@, other@) is None,
            },
    {
        if !self.compatible(other) {
            return None;
        }
        if self.is_never() {
            return Some(other.copy());
        }
        if other.is_never() {
            return Some(self.copy());
        }
        if other.is_error() {
            return Some(Ty::Error);
        }
        match self {
            Ty::Enum(_, args) => {
                assert(ty_views(args@).len() == args.len());
                if args.len() == 0 {
                    Some(other.copy())
                } else {
                    Some(self.copy())
                }
            },
            _ => Some(self.copy()),
        }
    }
}

pub fn compatible_tys(a: &Vec<Ty>, b: &Vec<Ty>) -> (r: bool)
    ensures
        r == all_compatible(ty_views(a@), ty_views(b@)),
    decreases a,
{
    if a.len() != b.len() {
        return false;
    }
    let mut i: usize = 0;
    while i < a.len()
        invariant
            i <= a.len(),
            a.len() == b.len(),
            forall|j: int| 0 <= j < i ==> compatible(#[trigger] ty_views(a@)[j], ty_views(b@)[j]),
        decreases a.len() - i,
    {
        if !a[i].compatible(&b[i]) {
            assert(!compatible(ty_views(a@)[i as int], ty_views(b@)[i as int]));
            return false;
        }
        i += 1;
    }
    true
}

/// What could not be typed goes with everything, so that one error is not
/// reported again and again; so does what never gives a value.
pub proof fn errors_go_with_everything(t: TyV)
    ensures
        compatible(TyV::Error, t),
        compatible(t, TyV::Error),
        compatible(TyV::Never, t),
        compatible(t, TyV::Never),
{
}

/// Compatibility does not depend on which side is expected.
pub proof fn compatible_is_symmetric(a: TyV, b: TyV)
    ensures
        compatible(a, b) == compatible(b, a),
    decreases a,
{
    match (a, b) {
        (TyV::Vec(x), TyV::Vec(y)) => compatible_is_symmetric(*x, *y),
        (TyV::Weak(x), TyV::Weak(y)) => compatible_is_symmetric(*x, *y),
        (TyV::HashMap(k, v), TyV::HashMap(k2, v2)) => {
            compatible_is_symmetric(*k, *k2);
            compatible_is_symmetric(*v, *v2);
        },
        (TyV::Array(x, n), TyV::Array(y, m)) => compatible_is_symmetric(*x, *y),
        (TyV::Fn { params, ret }, TyV::Fn { params: params2, ret: ret2 }) => {
            all_compatible_is_symmetric(params, params2);
            compatible_is_symmetric(*ret, *ret2);
        },
        (TyV::Struct(s, x), TyV::Struct(s2, y)) => all_compatible_is_symmetric(x, y),
        (TyV::Enum(s, x), TyV::Enum(s2, y)) => all_compatible_is_symmetric(x, y),
        _ => {},
    }
}

proof fn all_compatible_is_symmetric(xs: Seq<TyV>, ys: Seq<TyV>)
    ensures
        all_compatible(xs, ys) == all_compatible(ys, xs),
    decreases xs,
{
    if xs.len() == ys.len() {
        assert forall|i: int| 0 <= i < xs.len() implies compatible(#[trigger] xs[i], ys[i]) == compatible(ys[i], xs[i]) by {
            compatible_is_symmetric(xs[i], ys[i]);
        }
        if all_compatible(ys, xs) {
            assert forall|i: int| 0 <= i < xs.len() implies compatible(#[trigger] xs[i], ys[i]) by {
                assert(compatible(ys[i], xs[i]));
            }
        }
        if all_compatible(xs, ys) {
            assert forall|i: int| 0 <= i < ys.len() implies compatible(#[trigger] ys[i], xs[i]) by {
                assert(compatible(xs[i], ys[i]));
            }
        }
    }
}

/// Every type is compatible with itself.
pub proof fn compatible_is_reflexive(a: TyV)
    ensures
        compatible(a, a),
    decreases a,
{
    match a {
        TyV::Vec(x) => compatible_is_reflexive(*x),
        TyV::Weak(x) => compatible_is_reflexive(*x),
        TyV::HashMap(k, v) => {
            compatible_is_reflexive(*k);
            compatible_is_reflexive(*v);
        },
        TyV::Array(x, n) => compatible_is_reflexive(*x),
        TyV::Fn { params, ret } => {
            assert forall|i: int| 0 <= i < params.len() implies compatible(#[trigger] params[i], params[i]) by {
                compatible_is_reflexive(params[i]);
            }
            assert(all_compatible(params, params));
            compatible_is_reflexive(*ret);
        },
        TyV::Struct(s, x) => {
            assert forall|i: int| 0 <= i < x.len() implies compatible(#[trigger] x[i], x[i]) by {
                compatible_is_reflexive(x[i]);
            }
            assert(all_compatible(x, x));
        },
        TyV::Enum(s, x) => {
            assert forall|i: int| 0 <= i < x.len() implies compatible(#[trigger] x[i], x[i]) by {
                compatible_is_reflexive(x[i]);
            }
            assert(all_compatible(x, x));
        },
        _ => {},
    }
}

// ---- display ----

/// The text a type is shown with in messages.
pub open spec fn ty_text(t: TyV) -> Seq<char>
    decreases t, 0nat,
{
    match t {
        TyV::Bool => "bool"@,
        TyV::Char => "char"@,
        TyV::Str => "str"@,
        TyV::Unit => "()"@,
        TyV::Never => "!"@,
        TyV::Error => "<error>"@,
        TyV::SelfType => "Self"@,
        TyV::Int(i) => int_name(i),
        TyV::Float(f) => float_name(f),
        TyV::Vec(e) => "Vec<"@ + ty_text(*e) + ">"@,
        TyV::Weak(e) => "Weak<"@ + ty_text(*e) + ">"@,
        TyV::HashMap(k, v) => "HashMap<"@ + ty_text(*k) + ", "@ + ty_text(*v) + ">"@,
        TyV::Array(e, n) => "["@ + ty_text(*e) + "; "@ + dec(n as nat) + "]"@,
        TyV::Fn { params, ret } => "fn("@ + joined(ty_texts(params), ", "@) + ") -> "@ + ty_text(*ret),
        TyV::Struct(s, args) => "struct#"@ + dec(s.0 as nat) + args_text(args),
        TyV::Enum(s, args) => "enum#"@ + dec(s.0 as nat) + args_text(args),
        TyV::TypeVar(s) => "T#"@ + dec(s.0 as nat),
        TyV::Assoc(b, n) => ty_text(*b) + "::"@ + n,
        TyV::Dyn(s, args) => "dyn#"@ + dec(s.0 as nat) + args_text(args),
    }
}

pub open spec fn ty_texts(ts: Seq<TyV>) -> Seq<Seq<char>>
    decreases ts, 0nat,
{
    Seq::new(ts.len(), |i: int| if 0 <= i < ts.len() { ty_text(ts[i]) } else { seq![] })
}

/// The bracketed type arguments, or nothing when there are none.
pub open spec fn args_text(args: Seq<TyV>) -> Seq<char>
    decreases args, 1nat,
{
    if args.len() == 0 {
        seq![]
    } else {
        "<"@ + joined(ty_texts(args), ", "@) + ">"@
    }
}

impl Ty {
    pub fn display(&self) -> (r: String)
        ensures
            r@ == ty_text(self@),
        decreases self, 0nat,
    {
        match self {
            Ty::Bool => "bool".to_owned(),
            Ty::Char => "char".to_owned(),
            Ty::Str => "str".to_owned(),
            Ty::Unit => "()".to_owned(),
            Ty::Never => "!".to_owned(),
            Ty::Error => "<error>".to_owned(),
            Ty::SelfType => "Self".to_owned(),
            Ty::Int(i) => i.name().to_owned(),
            Ty::Float(f) => f.name().to_owned(),
            Ty::Vec(e) => {
                let mut out = "Vec<".to_owned();
                out.append(e.display().as_str());
                out.append(">");
                out
            },
            Ty::Weak(e) => {
                let mut out = "Weak<".to_owned();
                out.append(e.display().as_str());
                out.append(">");
                out
            },
            Ty::HashMap(k, v) => {
                let mut out = "HashMap<".to_owned();
                out.append(k.display().as_str());
                out.append(", ");
                out.append(v.display().as_str());
                out.append(">");
                out
            },
            Ty::Array(e, n) => {
                let mut out = "[".to_owned();
                out.append(e.display().as_str());
                out.append("; ");
                push_dec(&mut out, *n as u64);
                out.append("]");
                out
            },
            Ty::Fn { params, ret } => {
                let mut out = "fn(".to_owned();
                out.append(join(&display_tys(params), ", ").as_str());
                out.append(") -> ");
                out.append(ret.display().as_str());
                out
            },
            Ty::Struct(s, args) => {
                let mut out = "struct#".to_owned();
                push_dec(&mut out, s.0 as u64);
                out.append(display_args(args).as_str());
                out
            },
            Ty::Enum(s, args) => {
                let mut out = "enum#".to_owned();
                push_dec(&mut out, s.0 as u64);
                out.append(display_args(args).as_str());
                out
            },
            Ty::TypeVar(s) => {
                let mut out = "T#".to_owned();
                push_dec(&mut out, s.0 as u64);
                out
            },
            Ty::Assoc(b, n) => {
                let mut out = b.display();
                out.append("::");
                out.append(n.as_str());
                out
            },
            Ty::Dyn(s, args) => {
                let mut out = "dyn#".to_owned();
                push_dec(&mut out, s.0 as u64);
                out.append(display_args(args).as_str());
                out
            },
        }
    }
}

fn display_tys(ts: &Vec<Ty>) -> (r: Vec<String>)
    ensures
        texts(r@) == ty_texts(ty_views(ts@)),
    decreases ts, 0nat,
{
    let mut out: Vec<String> = Vec::new();
    let mut i: usize = 0;
    while i < ts.len()
        invariant
            i <= ts.len(),
            out.len() == i,
            forall|j: int| 0 <= j < i ==> (#[trigger] out[j])@ == ty_text(ty_view(ts[j])),
        decreases ts.len() - i,
    {
        out.push(ts[i].display());
        i += 1;
    }
    assert(texts(out@) =~= ty_texts(ty_views(ts@)));
    out
}

fn display_args(args: &Vec<Ty>) -> (r: String)
    ensures
        r@ == args_text(ty_views(args@)),
    decreases args, 1nat,
{
    if args.len() == 0 {
        return String::new();
    }
    let mut out = "<".to_owned();
    out.append(join(&display_tys(args), ", ").as_str());
    out.append(">");
    out
}

} // verus!
