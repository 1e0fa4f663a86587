//! The syntax tree.

use vstd::prelude::*;

use crate::token::Span;
use crate::ty::{FloatTy, IntTy};

verus! {

#[derive(Debug, PartialEq)]
pub struct Module {
    pub items: Vec<Item>,
    pub span: Span,
}

#[derive(Debug, Clone, PartialEq)]
pub struct Ident {
    pub name: String,
    pub span: Span,
}

#[derive(Debug, Clone, Copy, PartialEq, Eq, Structural)]
pub enum Visibility {
    Private,
    Pub,
}

// ---- items ----

#[derive(Debug, PartialEq)]
pub enum Item {
    Fn(FnDecl),
    Struct(StructDecl),
    Enum(EnumDecl),
    Const(ConstDecl),
    Impl(ImplBlock),
    Trait(TraitDecl),
    Mod(ModDecl),
    Use(UseDecl),
}

/// A type parameter with the traits that bound it.
#[derive(Debug, PartialEq)]
pub struct GenericParam {
    pub name: Ident,
    pub bounds: Vec<Path>,
}

#[derive(Debug, PartialEq)]
pub struct ImplBlock {
    pub generics: Vec<GenericParam>,
    /// The trait, for `impl Trait for Type`.
    pub trait_path: Option<Path>,
    pub type_path: Path,
    pub assoc_types: Vec<AssocTypeBinding>,
    pub methods: Vec<FnDecl>,
    pub span: Span,
}

/// `type Name = Value;` inside an impl.
#[derive(Debug, PartialEq)]
pub struct AssocTypeBinding {
    pub name: Ident,
    pub value: Type,
    pub span: Span,
}

#[derive(Debug, PartialEq)]
pub struct FnDecl {
    pub vis: Visibility,
    pub name: Ident,
    pub generics: Vec<GenericParam>,
    pub params: Vec<Param>,
    pub return_type: Option<Type>,
    pub body: Block,
    pub span: Span,
}

#[derive(Debug, PartialEq)]
pub struct Param {
    pub name: Ident,
    pub ty: Type,
    pub span: Span,
}

#[derive(Debug, PartialEq)]
pub struct StructDecl {
    pub vis: Visibility,
    pub name: Ident,
    pub generics: Vec<GenericParam>,
    pub fields: Vec<Field>,
    pub span: Span,
}

#[derive(Debug, PartialEq)]
pub struct Field {
    pub vis: Visibility,
    pub name: Ident,
    pub ty: Type,
    pub span: Span,
}

#[derive(Debug, PartialEq)]
pub struct EnumDecl {
    pub vis: Visibility,
    pub name: Ident,
    pub generics: Vec<GenericParam>,
    pub variants: Vec<Variant>,
    pub span: Span,
}

#[derive(Debug, PartialEq)]
pub struct Variant {
    pub name: Ident,
    pub fields: VariantFields,
    pub span: Span,
}

#[derive(Debug, PartialEq)]
pub enum VariantFields {
    Unit,
    Tuple(Vec<Type>),
    Named(Vec<Field>),
}

#[derive(Debug, PartialEq)]
pub struct ConstDecl {
    pub vis: Visibility,
    pub name: Ident,
    pub ty: Type,
    pub value: Expr,
    pub span: Span,
}

#[derive(Debug, PartialEq)]
pub struct TraitDecl {
    pub vis: Visibility,
    pub name: Ident,
    pub generics: Vec<GenericParam>,
    pub supertraits: Vec<Path>,
    pub assoc_types: Vec<AssocTypeDecl>,
    pub methods: Vec<TraitMethodSig>,
    pub span: Span,
}

/// `type Name;` inside a trait.
#[derive(Debug, PartialEq)]
pub struct AssocTypeDecl {
    pub name: Ident,
    pub span: Span,
}

/// A trait's method, with its body when it has a default one.
#[derive(Debug, PartialEq)]
pub struct TraitMethodSig {
    pub name: Ident,
    pub params: Vec<Param>,
    pub return_type: Option<Type>,
    pub body: Option<Block>,
    pub span: Span,
}

#[derive(Debug, PartialEq)]
pub struct ModDecl {
    pub vis: Visibility,
    pub name: Ident,
    pub items: Vec<Item>,
    pub span: Span,
}

#[derive(Debug, PartialEq)]
pub struct UseDecl {
    pub path: Path,
    /// Whether the path ends in `::*`.
    pub glob: bool,
    pub alias: Option<Ident>,
    pub vis: Visibility,
    pub span: Span,
}

// ---- types ----

#[derive(Debug, PartialEq)]
pub enum Type {
    Path(Path),
    /// `dyn Trait`.
    Dyn(Path),
    Array { elem: Box<Type>, len: usize, span: Span },
    Fn { params: Vec<Type>, ret: Option<Box<Type>>, span: Span },
    Tuple { elems: Vec<Type>, span: Span },
}

pub open spec fn type_span(t: Type) -> Span {
    match t {
        Type::Path(p) => p.span,
        Type::Dyn(p) => p.span,
        Type::Array { span, .. } => span,
        Type::Fn { span, .. } => span,
        Type::Tuple { span, .. } => span,
    }
}

impl Type {
    pub fn span(&self) -> (r: Span)
        ensures
            r == type_span(*self),
    {
        match self {
            Type::Path(p) => p.span,
            Type::Dyn(p) => p.span,
            Type::Array { span, .. } => *span,
            Type::Fn { span, .. } => *span,
            Type::Tuple { span, .. } => *span,
        }
    }
}

/// `a::b::c<T, U>`.
#[derive(Debug, PartialEq)]
pub struct Path {
    pub segments: Vec<Ident>,
    pub generic_args: Vec<Type>,
    pub span: Span,
}

// ---- statements ----

#[derive(Debug, PartialEq)]
pub enum Stmt {
    Let(LetStmt),
    /// An expression, and whether a semicolon follows it.
    Expr(Expr, bool),
    Item(Item),
}

#[derive(Debug, PartialEq)]
pub struct LetStmt {
    pub mutable: bool,
    pub pat: Pattern,
    pub ty: Option<Type>,
    pub init: Option<Expr>,
    pub span: Span,
}

#[derive(Debug, PartialEq)]
pub struct Block {
    pub stmts: Vec<Stmt>,
    pub span: Span,
}

// ---- patterns ----

#[allow(inconsistent_fields)]
#[derive(Debug, PartialEq)]
pub enum Pattern {
    Wildcard(Span),
    Ident { name: Ident, mutable: bool, span: Span },
    Literal { lit: Lit, span: Span },
    /// `Enum::Variant`.
    Path { path: Path, span: Span },
    /// `lo..hi` or `lo..=hi`.
    Range { lo: Lit, hi: Lit, inclusive: bool, span: Span },
    /// `Enum::Variant(a, b)`.
    TupleVariant { path: Path, fields: Vec<Pattern>, span: Span },
    /// `Enum::Variant { name: a }`.
    NamedVariant { path: Path, fields: Vec<(Ident, Pattern)>, span: Span },
    /// `a | b`.
    Or { patterns: Vec<Pattern>, span: Span },
    /// `(a, b)`.
    Tuple { patterns: Vec<Pattern>, span: Span },
}

pub open spec fn pattern_span(p: Pattern) -> Span {
    match p {
        Pattern::Wildcard(s) => s,
        Pattern::Ident { span, .. } => span,
        Pattern::Literal { span, .. } => span,
        Pattern::Path { span, .. } => span,
        Pattern::Range { span, .. } => span,
        Pattern::TupleVariant { span, .. } => span,
        Pattern::NamedVariant { span, .. } => span,
        Pattern::Or { span, .. } => span,
        Pattern::Tuple { span, .. } => span,
    }
}

impl Pattern {
    pub fn span(&self) -> (r: Span)
        ensures
            r == pattern_span(*self),
    {
        match self {
            Pattern::Wildcard(s) => *s,
            Pattern::Ident { span, .. } => *span,
            Pattern::Literal { span, .. } => *span,
            Pattern::Path { span, .. } => *span,
            Pattern::Range { span, .. } => *span,
            Pattern::TupleVariant { span, .. } => *span,
            Pattern::NamedVariant { span, .. } => *span,
            Pattern::Or { span, .. } => *span,
            Pattern::Tuple { span, .. } => *span,
        }
    }
}

// ---- expressions ----

#[allow(inconsistent_fields)]
#[derive(Debug, PartialEq)]
pub enum Expr {
    Lit { lit: Lit, span: Span },
    Path(Path),
    Unary { op: UnOp, expr: Box<Expr>, span: Span },
    Binary { op: BinOp, lhs: Box<Expr>, rhs: Box<Expr>, span: Span },
    Assign { lhs: Box<Expr>, rhs: Box<Expr>, span: Span },
    AssignOp { op: BinOp, lhs: Box<Expr>, rhs: Box<Expr>, span: Span },
    Call { callee: Box<Expr>, args: Vec<Expr>, span: Span },
    MethodCall { receiver: Box<Expr>, method: Ident, args: Vec<Expr>, span: Span },
    Field { receiver: Box<Expr>, name: Ident, span: Span },
    /// `receiver.0`.
    TupleIndex { receiver: Box<Expr>, index: usize, span: Span },
    Index { receiver: Box<Expr>, index: Box<Expr>, span: Span },
    Try { expr: Box<Expr>, span: Span },
    Cast { expr: Box<Expr>, ty: Type, span: Span },
    Array { elems: Vec<Expr>, span: Span },
    Tuple { elems: Vec<Expr>, span: Span },
    /// `|x, y: T| body`.
    Closure { params: Vec<ClosureParam>, body: Box<Expr>, span: Span },
    Block(Block),
    If { cond: Box<Expr>, then_branch: Block, else_branch: Option<Box<Expr>>, span: Span },
    While { cond: Box<Expr>, body: Block, span: Span },
    For { pat: Pattern, iter: Box<Expr>, body: Block, span: Span },
    Match { scrutinee: Box<Expr>, arms: Vec<MatchArm>, span: Span },
    /// `Path { field: value }`.
    StructLit { path: Path, fields: Vec<FieldInit>, span: Span },
    Range { start: Option<Box<Expr>>, end: Option<Box<Expr>>, inclusive: bool, span: Span },
    Return { value: Option<Box<Expr>>, span: Span },
    Break(Span),
    Continue(Span),
}

pub open spec fn expr_span(e: Expr) -> Span {
    match e {
        Expr::Lit { span, .. } => span,
        Expr::Path(p) => p.span,
        Expr::Unary { span, .. } => span,
        Expr::Binary { span, .. } => span,
        Expr::Assign { span, .. } => span,
        Expr::AssignOp { span, .. } => span,
        Expr::Call { span, .. } => span,
        Expr::MethodCall { span, .. } => span,
        Expr::Field { span, .. } => span,
        Expr::TupleIndex { span, .. } => span,
        Expr::Index { span, .. } => span,
        Expr::Try { span, .. } => span,
        Expr::Cast { span, .. } => span,
        Expr::Array { span, .. } => span,
        Expr::Tuple { span, .. } => span,
        Expr::Closure { span, .. } => span,
        Expr::Block(b) => b.span,
        Expr::If { span, .. } => span,
        Expr::While { span, .. } => span,
        Expr::For { span, .. } => span,
        Expr::Match { span, .. } => span,
        Expr::StructLit { span, .. } => span,
        Expr::Range { span, .. } => span,
        Expr::Return { span, .. } => span,
        Expr::Break(s) => s,
        Expr::Continue(s) => s,
    }
}

impl Expr {
    pub fn span(&self) -> (r: Span)
        ensures
            r == expr_span(*self),
    {
        match self {
            Expr::Lit { span, .. } => *span,
            Expr::Path(p) => p.span,
            Expr::Unary { span, .. } => *span,
            Expr::Binary { span, .. } => *span,
            Expr::Assign { span, .. } => *span,
            Expr::AssignOp { span, .. } => *span,
            Expr::Call { span, .. } => *span,
            Expr::MethodCall { span, .. } => *span,
            Expr::Field { span, .. } => *span,
            Expr::TupleIndex { span, .. } => *span,
            Expr::Index { span, .. } => *span,
            Expr::Try { span, .. } => *span,
            Expr::Cast { span, .. } => *span,
            Expr::Array { span, .. } => *span,
            Expr::Tuple { span, .. } => *span,
            Expr::Closure { span, .. } => *span,
            Expr::Block(b) => b.span,
            Expr::If { span, .. } => *span,
            Expr::While { span, .. } => *span,
            Expr::For { span, .. } => *span,
            Expr::Match { span, .. } => *span,
            Expr::StructLit { span, .. } => *span,
            Expr::Range { span, .. } => *span,
            Expr::Return { span, .. } => *span,
            Expr::Break(s) => *s,
            Expr::Continue(s) => *s,
        }
    }
}

#[derive(Debug, PartialEq)]
pub struct ClosureParam {
    pub name: Ident,
    pub ty: Option<Type>,
    pub span: Span,
}

#[derive(Debug, PartialEq)]
pub struct FieldInit {
    pub name: Ident,
    pub value: Expr,
}

#[derive(Debug, PartialEq)]
pub struct MatchArm {
    pub pat: Pattern,
    pub guard: Option<Expr>,
    pub body: Expr,
    pub span: Span,
}

/// A literal. A number keeps the type suffix it was written with; a float
/// keeps its digits, in the form `str::parse` takes.
#[derive(Debug, PartialEq)]
pub enum Lit {
    Int(i64, Option<IntTy>),
    Float(String, Option<FloatTy>),
    Str(String),
    Char(char),
    Bool(bool),
}

// ---- operators ----

#[derive(Debug, Clone, Copy, PartialEq, Eq, Structural)]
pub enum BinOp {
    Add,
    Sub,
    Mul,
    Div,
    Mod,
    Eq,
    Ne,
    Lt,
    Gt,
    Le,
    Ge,
    And,
    Or,
    BitAnd,
    BitOr,
    BitXor,
    Shl,
    Shr,
}

#[derive(Debug, Clone, Copy, PartialEq, Eq, Structural)]
pub enum UnOp {
    Neg,
    Not,
    BitNot,
}

} // verus!
