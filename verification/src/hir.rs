//! High-level intermediate representation.
//!
//! Shaped like the syntax tree, but with paths resolved to symbols and every
//! node tagged with its type. Constructs that have no code generation are
//! carried as `Unsupported`, so lowering never has to stop.

use vstd::prelude::*;

use crate::table::Table;
use crate::ty::{FloatTy, IntTy, SymbolId, Ty, TyV};

verus! {

#[derive(Debug, Clone)]
pub struct HirModule {
    pub items: Vec<HirItem>,
    /// Per struct, the offset and type of each field that is reference
    /// counted. Only structs with at least one such field appear.
    pub struct_arc_fields: Table<SymbolId, Vec<(u32, Ty)>>,
    /// Per struct, the size of its field area in bytes.
    pub struct_sizes: Table<SymbolId, u32>,
    /// The enums with at least one payload-bearing variant, each once.
    pub enum_has_payload: Vec<SymbolId>,
    /// Per payload enum, the payload types of each variant, indexed by
    /// discriminant.
    pub enum_payload_tys: Table<SymbolId, Vec<Vec<Ty>>>,
    /// The function behind a method name on a type.
    pub impl_methods: Table<(SymbolId, String), SymbolId>,
    /// The distinct reference-counted element types of vectors used anywhere.
    pub vec_arc_elem_tys: Vec<Ty>,
    /// The distinct fixed-size array types used anywhere.
    pub array_tys: Vec<Ty>,
    /// Per trait, its own method names in declaration order.
    pub trait_methods: Table<SymbolId, Vec<String>>,
    /// Per trait, its methods and those of its supertraits: the declaring
    /// trait and the name, in slot order.
    pub trait_methods_flat: Table<SymbolId, Vec<(SymbolId, String)>>,
    /// The type bound to an associated-type name on a struct.
    pub impl_assoc_bindings_ty: Table<(SymbolId, String), Ty>,
    /// Per struct, its generic parameters in declaration order.
    pub struct_generics: Table<SymbolId, Vec<SymbolId>>,
}

#[derive(Debug, Clone)]
pub enum HirItem {
    Fn(HirFn),
}

#[derive(Debug, Clone)]
pub struct HirFn {
    pub sym: SymbolId,
    pub name: String,
    /// The type parameters of the function; empty for a concrete one.
    pub generics: Vec<SymbolId>,
    pub params: Vec<HirParam>,
    pub ret_ty: Ty,
    pub body: HirBlock,
}

#[derive(Debug, Clone)]
pub struct HirParam {
    pub sym: SymbolId,
    pub name: String,
    pub ty: Ty,
}

#[derive(Debug)]
pub struct HirBlock {
    pub stmts: Vec<HirStmt>,
    pub ty: Ty,
}

#[derive(Debug)]
pub enum HirStmt {
    Let(HirLet),
    /// The flag says whether a semicolon follows. A last statement without
    /// one gives the block its value.
    Expr(HirExpr, bool),
}

#[derive(Debug, Clone)]
pub struct HirLet {
    /// `None` for `let _ = ...`.
    pub sym: Option<SymbolId>,
    pub mutable: bool,
    pub ty: Ty,
    pub init: Option<HirExpr>,
}

#[derive(Debug)]
pub struct HirExpr {
    pub kind: HirExprKind,
    pub ty: Ty,
}

#[allow(inconsistent_fields)]
#[derive(Debug)]
pub enum HirExprKind {
    Lit(HirLit),
    /// A local, parameter or constant.
    Local(SymbolId),
    /// A function used as a value.
    Fn(SymbolId),
    /// A unit variant, represented by its discriminant.
    EnumVariant { discriminant: u32 },
    /// Construction of a payload-bearing variant.
    EnumPayloadCtor { enum_sym: SymbolId, discriminant: u32, payloads: Vec<HirExpr> },
    Unary { op: HirUnOp, expr: Box<HirExpr> },
    /// A conversion to the type of the enclosing expression.
    Cast { expr: Box<HirExpr> },
    Binary { op: HirBinOp, lhs: Box<HirExpr>, rhs: Box<HirExpr> },
    /// A short-circuit operator.
    Logical { op: LogicalOp, lhs: Box<HirExpr>, rhs: Box<HirExpr> },
    Assign { lhs: SymbolId, rhs: Box<HirExpr> },
    AssignOp { lhs: SymbolId, op: HirBinOp, rhs: Box<HirExpr> },
    /// A direct call of a named function.
    Call { callee: SymbolId, args: Vec<HirExpr> },
    /// A call through a function-typed value.
    IndirectCall { callee: Box<HirExpr>, args: Vec<HirExpr> },
    /// A call of a function the runtime provides.
    BuiltinCall { name: String, args: Vec<HirExpr> },
    MethodCall { receiver: Box<HirExpr>, method: String, args: Vec<HirExpr> },
    /// Wraps a struct value into a trait object.
    DynBox { value: Box<HirExpr>, struct_sym: SymbolId, trait_sym: SymbolId },
    /// A method call dispatched through a trait object's method table.
    DynCall { receiver: Box<HirExpr>, trait_sym: SymbolId, method: String, args: Vec<HirExpr> },
    /// Each field's byte offset and value, in declaration order.
    StructLit { sym: SymbolId, fields: Vec<(u32, HirExpr)>, size: u32 },
    FieldAccess { receiver: Box<HirExpr>, offset: u32, field_ty: Ty },
    FieldAssign { receiver: Box<HirExpr>, offset: u32, field_ty: Ty, rhs: Box<HirExpr> },
    Array { elems: Vec<HirExpr>, elem_ty: Ty },
    Index { array: Box<HirExpr>, index: Box<HirExpr>, elem_ty: Ty },
    /// One byte of a string.
    StrByteIndex { str_val: Box<HirExpr>, index: Box<HirExpr> },
    /// A substring.
    StrSlice { str_val: Box<HirExpr>, start: Box<HirExpr>, end: Box<HirExpr>, inclusive: bool },
    Block(HirBlock),
    If { cond: Box<HirExpr>, then_b: HirBlock, else_b: Option<Box<HirExpr>> },
    While { cond: Box<HirExpr>, body: HirBlock },
    /// A counted loop over an array.
    For { local: Option<SymbolId>, iter: Box<HirExpr>, body: HirBlock, elem_ty: Ty, length: usize },
    /// A counted loop over an integer range.
    ForRange {
        local: Option<SymbolId>,
        start: Box<HirExpr>,
        end: Box<HirExpr>,
        inclusive: bool,
        body: HirBlock,
    },
    Match { scrutinee: Box<HirExpr>, arms: Vec<HirMatchArm> },
    Return(Option<Box<HirExpr>>),
    Break,
    /// Something without code generation, with the reason.
    Unsupported(String),
}

#[derive(Debug, Clone)]
pub enum HirLit {
    Int(i64, IntTy),
    /// The literal's digits, in the form `str::parse` takes.
    Float(String, FloatTy),
    Bool(bool),
    Str(String),
    Char(char),
    Unit,
}

#[derive(Debug)]
pub struct HirMatchArm {
    /// Alternatives, tried in order.
    pub patterns: Vec<HirPattern>,
    pub guard: Option<HirExpr>,
    pub body: HirExpr,
}

#[derive(Debug)]
pub enum HirPattern {
    Wildcard,
    Bind(SymbolId),
    IntLit(i64),
    BoolLit(bool),
    StrLit(String),
    EnumVariant { discriminant: u32 },
    /// A variant with its payload types and, per position, the symbol bound.
    EnumPayload { discriminant: u32, bindings: Vec<(Ty, Option<SymbolId>)> },
    IntRange { lo: i64, hi: i64, inclusive: bool },
}

#[derive(Debug, Clone, Copy, PartialEq, Eq, Structural)]
pub enum HirBinOp {
    Add,
    Sub,
    Mul,
    Div,
    Mod,
    Eq,
    Ne,
    Lt,
    Gt,
    Le,
    Ge,
    BitAnd,
    BitOr,
    BitXor,
    Shl,
    Shr,
}

#[derive(Debug, Clone, Copy, PartialEq, Eq, Structural)]
pub enum LogicalOp {
    And,
    Or,
}

#[derive(Debug, Clone, Copy, PartialEq, Eq, Structural)]
pub enum HirUnOp {
    Neg,
    Not,
    BitNot,
}

// ---- the same trees as mathematical values ----

pub struct HirFnV {
    pub sym: SymbolId,
    pub name: Seq<char>,
    pub generics: Seq<SymbolId>,
    pub params: Seq<HirParamV>,
    pub ret_ty: TyV,
    pub body: HirBlockV,
}

pub struct HirParamV {
    pub sym: SymbolId,
    pub name: Seq<char>,
    pub ty: TyV,
}

pub struct HirBlockV {
    pub stmts: Seq<HirStmtV>,
    pub ty: TyV,
}

pub enum HirStmtV {
    Let(HirLetV),
    Expr(HirExprV, bool),
}

pub struct HirLetV {
    pub sym: Option<SymbolId>,
    pub mutable: bool,
    pub ty: TyV,
    pub init: Option<HirExprV>,
}

pub struct HirExprV {
    pub kind: HirKindV,
    pub ty: TyV,
}

#[allow(inconsistent_fields)]
pub enum HirKindV {
    Lit(HirLitV),
    Local(SymbolId),
    Fn(SymbolId),
    EnumVariant { discriminant: u32 },
    EnumPayloadCtor { enum_sym: SymbolId, discriminant: u32, payloads: Seq<HirExprV> },
    Unary { op: HirUnOp, expr: Box<HirExprV> },
    Cast { expr: Box<HirExprV> },
    Binary { op: HirBinOp, lhs: Box<HirExprV>, rhs: Box<HirExprV> },
    Logical { op: LogicalOp, lhs: Box<HirExprV>, rhs: Box<HirExprV> },
    Assign { lhs: SymbolId, rhs: Box<HirExprV> },
    AssignOp { lhs: SymbolId, op: HirBinOp, rhs: Box<HirExprV> },
    Call { callee: SymbolId, args: Seq<HirExprV> },
    IndirectCall { callee: Box<HirExprV>, args: Seq<HirExprV> },
    BuiltinCall { name: Seq<char>, args: Seq<HirExprV> },
    MethodCall { receiver: Box<HirExprV>, method: Seq<char>, args: Seq<HirExprV> },
    DynBox { value: Box<HirExprV>, struct_sym: SymbolId, trait_sym: SymbolId },
    DynCall { receiver: Box<HirExprV>, trait_sym: SymbolId, method: Seq<char>, args: Seq<HirExprV> },
    StructLit { sym: SymbolId, fields: Seq<(u32, HirExprV)>, size: u32 },
    FieldAccess { receiver: Box<HirExprV>, offset: u32, field_ty: TyV },
    FieldAssign { receiver: Box<HirExprV>, offset: u32, field_ty: TyV, rhs: Box<HirExprV> },
    Array { elems: Seq<HirExprV>, elem_ty: TyV },
    Index { array: Box<HirExprV>, index: Box<HirExprV>, elem_ty: TyV },
    StrByteIndex { str_val: Box<HirExprV>, index: Box<HirExprV> },
    StrSlice { str_val: Box<HirExprV>, start: Box<HirExprV>, end: Box<HirExprV>, inclusive: bool },
    Block(HirBlockV),
    If { cond: Box<HirExprV>, then_b: HirBlockV, else_b: Option<Box<HirExprV>> },
    While { cond: Box<HirExprV>, body: HirBlockV },
    For {
        local: Option<SymbolId>,
        iter: Box<HirExprV>,
        body: HirBlockV,
        elem_ty: TyV,
        length: usize,
    },
    ForRange {
        local: Option<SymbolId>,
        start: Box<HirExprV>,
        end: Box<HirExprV>,
        inclusive: bool,
        body: HirBlockV,
    },
    Match { scrutinee: Box<HirExprV>, arms: Seq<HirArmV> },
    Return(Option<Box<HirExprV>>),
    Break,
    Unsupported(Seq<char>),
}

pub enum HirLitV {
    Int(i64, IntTy),
    Float(Seq<char>, FloatTy),
    Bool(bool),
    Str(Seq<char>),
    Char(char),
    Unit,
}

pub struct HirArmV {
    pub patterns: Seq<HirPatternV>,
    pub guard: Option<HirExprV>,
    pub body: HirExprV,
}

pub enum HirPatternV {
    Wildcard,
    Bind(SymbolId),
    IntLit(i64),
    BoolLit(bool),
    StrLit(Seq<char>),
    EnumVariant { discriminant: u32 },
    EnumPayload { discriminant: u32, bindings: Seq<(TyV, Option<SymbolId>)> },
    IntRange { lo: i64, hi: i64, inclusive: bool },
}

pub open spec fn lit_view(l: HirLit) -> HirLitV {
    match l {
        HirLit::Int(v, t) => HirLitV::Int(v, t),
        HirLit::Float(s, t) => HirLitV::Float(s@, t),
        HirLit::Bool(b) => HirLitV::Bool(b),
        HirLit::Str(s) => HirLitV::Str(s@),
        HirLit::Char(c) => HirLitV::Char(c),
        HirLit::Unit => HirLitV::Unit,
    }
}

pub open spec fn bindings_view(bs: Seq<(Ty, Option<SymbolId>)>) -> Seq<(TyV, Option<SymbolId>)> {
    Seq::new(bs.len(), |i: int| (bs[i].0@, bs[i].1))
}

pub open spec fn pattern_view(p: HirPattern) -> HirPatternV {
    match p {
        HirPattern::Wildcard => HirPatternV::Wildcard,
        HirPattern::Bind(s) => HirPatternV::Bind(s),
        HirPattern::IntLit(v) => HirPatternV::IntLit(v),
        HirPattern::BoolLit(b) => HirPatternV::BoolLit(b),
        HirPattern::StrLit(s) => HirPatternV::StrLit(s@),
        HirPattern::EnumVariant { discriminant } => HirPatternV::EnumVariant { discriminant },
        HirPattern::EnumPayload { discriminant, bindings } => HirPatternV::EnumPayload {
            discriminant,
            bindings: bindings_view(bindings@),
        },
        HirPattern::IntRange { lo, hi, inclusive } => HirPatternV::IntRange { lo, hi, inclusive },
    }
}

pub open spec fn pattern_views(ps: Seq<HirPattern>) -> Seq<HirPatternV> {
    Seq::new(ps.len(), |i: int| pattern_view(ps[i]))
}

/// A filler for positions outside a sequence.
pub open spec fn no_expr() -> HirExprV {
    HirExprV { kind: HirKindV::Break, ty: TyV::Error }
}

pub open spec fn expr_view(e: HirExpr) -> HirExprV
    decreases e,
{
    HirExprV { kind: kind_view(e.kind), ty: e.ty@ }
}

pub open spec fn kind_view(k: HirExprKind) -> HirKindV
    decreases k,
{
    match k {
        HirExprKind::Lit(l) => HirKindV::Lit(lit_view(l)),
        HirExprKind::Local(s) => HirKindV::Local(s),
        HirExprKind::Fn(s) => HirKindV::Fn(s),
        HirExprKind::EnumVariant { discriminant } => HirKindV::EnumVariant { discriminant },
        HirExprKind::EnumPayloadCtor { enum_sym, discriminant, payloads } => HirKindV::EnumPayloadCtor {
            enum_sym,
            discriminant,
            payloads: expr_views(payloads@),
        },
        HirExprKind::Unary { op, expr } => HirKindV::Unary { op, expr: Box::new(expr_view(*expr)) },
        HirExprKind::Cast { expr } => HirKindV::Cast { expr: Box::new(expr_view(*expr)) },
        HirExprKind::Binary { op, lhs, rhs } => HirKindV::Binary {
            op,
            lhs: Box::new(expr_view(*lhs)),
            rhs: Box::new(expr_view(*rhs)),
        },
        HirExprKind::Logical { op, lhs, rhs } => HirKindV::Logical {
            op,
            lhs: Box::new(expr_view(*lhs)),
            rhs: Box::new(expr_view(*rhs)),
        },
        HirExprKind::Assign { lhs, rhs } => HirKindV::Assign { lhs, rhs: Box::new(expr_view(*rhs)) },
        HirExprKind::AssignOp { lhs, op, rhs } => HirKindV::AssignOp {
            lhs,
            op,
            rhs: Box::new(expr_view(*rhs)),
        },
        HirExprKind::Call { callee, args } => HirKindV::Call { callee, args: expr_views(args@) },
        HirExprKind::IndirectCall { callee, args } => HirKindV::IndirectCall {
            callee: Box::new(expr_view(*callee)),
            args: expr_views(args@),
        },
        HirExprKind::BuiltinCall { name, args } => HirKindV::BuiltinCall {
            name: name@,
            args: expr_views(args@),
        },
        HirExprKind::MethodCall { receiver, method, args } => HirKindV::MethodCall {
            receiver: Box::new(expr_view(*receiver)),
            method: method@,
            args: expr_views(args@),
        },
        HirExprKind::DynBox { value, struct_sym, trait_sym } => HirKindV::DynBox {
            value: Box::new(expr_view(*value)),
            struct_sym,
            trait_sym,
        },
        HirExprKind::DynCall { receiver, trait_sym, method, args } => HirKindV::DynCall {
            receiver: Box::new(expr_view(*receiver)),
            trait_sym,
            method: method@,
            args: expr_views(args@),
        },
        HirExprKind::StructLit { sym, fields, size } => HirKindV::StructLit {
            sym,
            fields: field_views(fields@),
            size,
        },
        HirExprKind::FieldAccess { receiver, offset, field_ty } => HirKindV::FieldAccess {
            receiver: Box::new(expr_view(*receiver)),
            offset,
            field_ty: field_ty@,
        },
        HirExprKind::FieldAssign { receiver, offset, field_ty, rhs } => HirKindV::FieldAssign {
            receiver: Box::new(expr_view(*receiver)),
            offset,
            field_ty: field_ty@,
            rhs: Box::new(expr_view(*rhs)),
        },
        HirExprKind::Array { elems, elem_ty } => HirKindV::Array {
            elems: expr_views(elems@),
            elem_ty: elem_ty@,
        },
        HirExprKind::Index { array, index, elem_ty } => HirKindV::Index {
            array: Box::new(expr_view(*array)),
            index: Box::new(expr_view(*index)),
            elem_ty: elem_ty@,
        },
        HirExprKind::StrByteIndex { str_val, index } => HirKindV::StrByteIndex {
            str_val: Box::new(expr_view(*str_val)),
            index: Box::new(expr_view(*index)),
        },
        HirExprKind::StrSlice { str_val, start, end, inclusive } => HirKindV::StrSlice {
            str_val: Box::new(expr_view(*str_val)),
            start: Box::new(expr_view(*start)),
            end: Box::new(expr_view(*end)),
            inclusive,
        },
        HirExprKind::Block(b) => HirKindV::Block(block_view(b)),
        HirExprKind::If { cond, then_b, else_b } => HirKindV::If {
            cond: Box::new(expr_view(*cond)),
            then_b: block_view(then_b),
            else_b: match else_b {
                Some(e) => Some(Box::new(expr_view(*e))),
                None => None,
            },
        },
        HirExprKind::While { cond, body } => HirKindV::While {
            cond: Box::new(expr_view(*cond)),
            body: block_view(body),
        },
        HirExprKind::For { local, iter, body, elem_ty, length } => HirKindV::For {
            local,
            iter: Box::new(expr_view(*iter)),
            body: block_view(body),
            elem_ty: elem_ty@,
            length,
        },
        HirExprKind::ForRange { local, start, end, inclusive, body } => HirKindV::ForRange {
            local,
            start: Box::new(expr_view(*start)),
            end: Box::new(expr_view(*end)),
            inclusive,
            body: block_view(body),
        },
        HirExprKind::Match { scrutinee, arms } => HirKindV::Match {
            scrutinee: Box::new(expr_view(*scrutinee)),
            arms: arm_views(arms@),
        },
        HirExprKind::Return(v) => HirKindV::Return(
            match v {
                Some(e) => Some(Box::new(expr_view(*e))),
                None => None,
            },
        ),
        HirExprKind::Break => HirKindV::Break,
        HirExprKind::Unsupported(m) => HirKindV::Unsupported(m@),
    }
}

pub open spec fn expr_views(es: Seq<HirExpr>) -> Seq<HirExprV>
    decreases es,
{
    Seq::new(es.len(), |i: int| if 0 <= i < es.len() { expr_view(es[i]) } else { no_expr() })
}

pub open spec fn field_views(fs: Seq<(u32, HirExpr)>) -> Seq<(u32, HirExprV)>
    decreases fs,
{
    Seq::new(
        fs.len(),
        |i: int| if 0 <= i < fs.len() { (fs[i].0, expr_view(fs[i].1)) } else { (0, no_expr()) },
    )
}

pub open spec fn arm_view(a: HirMatchArm) -> HirArmV
    decreases a,
{
    HirArmV {
        patterns: pattern_views(a.patterns@),
        guard: match a.guard {
            Some(g) => Some(expr_view(g)),
            None => None,
        },
        body: expr_view(a.body),
    }
}

pub open spec fn arm_views(arms: Seq<HirMatchArm>) -> Seq<HirArmV>
    decreases arms,
{
    Seq::new(
        arms.len(),
        |i: int|
            if 0 <= i < arms.len() {
                arm_view(arms[i])
            } else {
                HirArmV { patterns: seq![], guard: None, body: no_expr() }
            },
    )
}

pub open spec fn let_view(l: HirLet) -> HirLetV
    decreases l,
{
    HirLetV {
        sym: l.sym,
        mutable: l.mutable,
        ty: l.ty@,
        init: match l.init {
            Some(e) => Some(expr_view(e)),
            None => None,
        },
    }
}

pub open spec fn stmt_view(s: HirStmt) -> HirStmtV
    decreases s,
{
    match s {
        HirStmt::Let(l) => HirStmtV::Let(let_view(l)),
        HirStmt::Expr(e, semi) => HirStmtV::Expr(expr_view(e), semi),
    }
}

pub open spec fn stmt_views(ss: Seq<HirStmt>) -> Seq<HirStmtV>
    decreases ss,
{
    Seq::new(
        ss.len(),
        |i: int| if 0 <= i < ss.len() { stmt_view(ss[i]) } else { HirStmtV::Expr(no_expr(), true) },
    )
}

pub open spec fn block_view(b: HirBlock) -> HirBlockV
    decreases b,
{
    HirBlockV { stmts: stmt_views(b.stmts@), ty: b.ty@ }
}

pub open spec fn param_view(p: HirParam) -> HirParamV {
    HirParamV { sym: p.sym, name: p.name@, ty: p.ty@ }
}

pub open spec fn param_views(ps: Seq<HirParam>) -> Seq<HirParamV> {
    Seq::new(ps.len(), |i: int| param_view(ps[i]))
}

pub open spec fn fn_view(f: HirFn) -> HirFnV {
    HirFnV {
        sym: f.sym,
        name: f.name@,
        generics: f.generics@,
        params: param_views(f.params@),
        ret_ty: f.ret_ty@,
        body: block_view(f.body),
    }
}

pub open spec fn fn_views(fs: Seq<HirFn>) -> Seq<HirFnV> {
    Seq::new(fs.len(), |i: int| fn_view(fs[i]))
}

pub open spec fn item_views(items: Seq<HirItem>) -> Seq<HirFnV> {
    Seq::new(items.len(), |i: int| fn_view(items[i]->Fn_0))
}

impl View for HirLit {
    type V = HirLitV;

    open spec fn view(&self) -> HirLitV {
        lit_view(*self)
    }
}

impl View for HirPattern {
    type V = HirPatternV;

    open spec fn view(&self) -> HirPatternV {
        pattern_view(*self)
    }
}

impl View for HirExpr {
    type V = HirExprV;

    open spec fn view(&self) -> HirExprV {
        expr_view(*self)
    }
}

impl View for HirExprKind {
    type V = HirKindV;

    open spec fn view(&self) -> HirKindV {
        kind_view(*self)
    }
}

impl View for HirMatchArm {
    type V = HirArmV;

    open spec fn view(&self) -> HirArmV {
        arm_view(*self)
    }
}

impl View for HirStmt {
    type V = HirStmtV;

    open spec fn view(&self) -> HirStmtV {
        stmt_view(*self)
    }
}

impl View for HirBlock {
    type V = HirBlockV;

    open spec fn view(&self) -> HirBlockV {
        block_view(*self)
    }
}

impl View for HirParam {
    type V = HirParamV;

    open spec fn view(&self) -> HirParamV {
        param_view(*self)
    }
}

impl View for HirFn {
    type V = HirFnV;

    open spec fn view(&self) -> HirFnV {
        fn_view(*self)
    }
}

// ---- copying ----

impl HirLit {
    pub fn copy(&self) -> (r: HirLit)
        ensures
            r@ == self@,
    {
        match self {
            HirLit::Int(v, t) => HirLit::Int(*v, *t),
            HirLit::Float(s, t) => HirLit::Float(s.clone(), *t),
            HirLit::Bool(b) => HirLit::Bool(*b),
            HirLit::Str(s) => HirLit::Str(s.clone()),
            HirLit::Char(c) => HirLit::Char(*c),
            HirLit::Unit => HirLit::Unit,
        }
    }
}

// ---- building ----

/// An expression from its node and type.
pub fn mk_expr(kind: HirExprKind, ty: Ty) -> (r: HirExpr)
    ensures
        r@ == (HirExprV { kind: kind@, ty: ty@ }),
{
    HirExpr { kind, ty }
}

/// A block from its statements and type.
pub fn mk_block(stmts: Vec<HirStmt>, ty: Ty) -> (r: HirBlock)
    ensures
        r@ == (HirBlockV { stmts: stmt_views(stmts@), ty: ty@ }),
{
    HirBlock { stmts, ty }
}

/// A statement from an expression.
pub fn mk_stmt(e: HirExpr, semi: bool) -> (r: HirStmt)
    ensures
        r@ == HirStmtV::Expr(e@, semi),
{
    HirStmt::Expr(e, semi)
}

/// A binding with an initializer.
pub fn mk_let(sym: SymbolId, mutable: bool, ty: Ty, init: HirExpr) -> (r: HirStmt)
    ensures
        r@ == HirStmtV::Let(HirLetV { sym: Some(sym), mutable, ty: ty@, init: Some(init@) }),
{
    let l = HirLet { sym: Some(sym), mutable, ty, init: Some(init) };
    assert(let_view(l) == (HirLetV { sym: Some(sym), mutable, ty: ty@, init: Some(init@) }));
    HirStmt::Let(l)
}

} // verus!
