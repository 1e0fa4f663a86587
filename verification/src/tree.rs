//! Syntax trees as mathematical values: every node with its label, its span
//! and its parts.

use vstd::prelude::*;

use crate::ast::{
    AssocTypeBinding, AssocTypeDecl, BinOp, Block, ClosureParam, ConstDecl, EnumDecl, Expr,
    Field, FieldInit, FnDecl, GenericParam, Ident, ImplBlock, Item, LetStmt, Lit, MatchArm,
    ModDecl, Module, Param, Path, Pattern, Stmt, StructDecl, TraitDecl, TraitMethodSig, Type,
    UnOp, UseDecl, Variant, VariantFields, Visibility, expr_span, pattern_span, type_span,
};
use crate::token::Span;
use crate::ty::{FloatTy, IntTy};

verus! {

/// What a node is, with the data that is no part of its own.
pub enum Label {
    /// A part that is not there.
    Absent,
    /// Several parts in a row.
    List,
    Name(Seq<char>),
    Module,
    Fn(Visibility),
    Param,
    Struct(Visibility),
    Field(Visibility),
    Enum(Visibility),
    UnitVariant,
    TupleVariant,
    NamedVariant,
    Const(Visibility),
    Impl,
    Binding,
    Trait(Visibility),
    AssocType,
    Signature,
    Mod(Visibility),
    Use(bool, Visibility),
    Generic,
    Path,
    PathType,
    DynType,
    ArrayType(usize),
    FnType,
    TupleType,
    Block,
    Let(bool),
    ExprStmt(bool),
    ItemStmt,
    WildcardPattern,
    NamePattern(bool),
    LiteralPattern,
    PathPattern,
    RangePattern(bool),
    TupleVariantPattern,
    NamedVariantPattern,
    PatternField,
    OrPattern,
    TuplePattern,
    Int(i64, Option<IntTy>),
    Float(Seq<char>, Option<FloatTy>),
    Str(Seq<char>),
    Char(char),
    Bool(bool),
    Literal,
    PathExpr,
    Unary(UnOp),
    Binary(BinOp),
    Assign,
    AssignOp(BinOp),
    Call,
    MethodCall,
    FieldAccess,
    TupleIndex(usize),
    Index,
    Try,
    Cast,
    Array,
    Tuple,
    Closure,
    ClosureParam,
    BlockExpr,
    If,
    While,
    For,
    Match,
    Arm,
    StructLit,
    Init,
    Range(bool),
    Return,
    Break,
    Continue,
}

pub struct Tree {
    pub label: Label,
    pub span: Span,
    pub parts: Seq<Tree>,
}

pub open spec fn no_span() -> Span {
    Span { start: 0, end: 0 }
}

pub open spec fn leaf(label: Label, span: Span) -> Tree {
    Tree { label, span, parts: seq![] }
}

pub open spec fn node(label: Label, span: Span, parts: Seq<Tree>) -> Tree {
    Tree { label, span, parts }
}

pub open spec fn absent() -> Tree {
    leaf(Label::Absent, no_span())
}

pub open spec fn list(parts: Seq<Tree>) -> Tree {
    node(Label::List, no_span(), parts)
}

pub open spec fn name_tree(i: Ident) -> Tree {
    leaf(Label::Name(i.name@), i.span)
}

pub open spec fn opt_name_tree(i: Option<Ident>) -> Tree {
    match i {
        Some(i) => name_tree(i),
        None => absent(),
    }
}

pub open spec fn name_trees(is: Seq<Ident>) -> Seq<Tree> {
    Seq::new(is.len(), |i: int| name_tree(is[i]))
}

pub open spec fn lit_label(l: Lit) -> Label {
    match l {
        Lit::Int(v, t) => Label::Int(v, t),
        Lit::Float(s, t) => Label::Float(s@, t),
        Lit::Str(s) => Label::Str(s@),
        Lit::Char(c) => Label::Char(c),
        Lit::Bool(b) => Label::Bool(b),
    }
}

pub open spec fn lit_tree(l: Lit) -> Tree {
    leaf(lit_label(l), no_span())
}

// ---- types ----

pub open spec fn path_tree(p: Path) -> Tree
    decreases p, 0nat,
{
    node(Label::Path, p.span, seq![list(name_trees(p.segments@)), list(type_trees(p.generic_args@))])
}

pub open spec fn path_trees(ps: Seq<Path>) -> Seq<Tree> {
    Seq::new(ps.len(), |i: int| path_tree(ps[i]))
}

pub open spec fn type_tree(t: Type) -> Tree
    decreases t, 1nat,
{
    match t {
        Type::Path(p) => node(Label::PathType, p.span, seq![path_tree(p)]),
        Type::Dyn(p) => node(Label::DynType, p.span, seq![path_tree(p)]),
        Type::Array { elem, len, span } => node(Label::ArrayType(len), span, seq![type_tree(*elem)]),
        Type::Fn { params, ret, span } => node(
            Label::FnType,
            span,
            seq![
                list(type_trees(params@)),
                opt_boxed_type_tree(ret),
            ],
        ),
        Type::Tuple { elems, span } => node(Label::TupleType, span, seq![list(type_trees(elems@))]),
    }
}

pub open spec fn type_trees(ts: Seq<Type>) -> Seq<Tree>
    decreases ts, 0nat,
{
    Seq::new(ts.len(), |i: int| if 0 <= i < ts.len() { type_tree(ts[i]) } else { absent() })
}

pub open spec fn opt_boxed_type_tree(t: Option<Box<Type>>) -> Tree
    decreases t, 2nat,
{
    match t {
        Some(t) => type_tree(*t),
        None => absent(),
    }
}

pub open spec fn opt_path_tree(p: Option<Path>) -> Tree {
    match p {
        Some(p) => path_tree(p),
        None => absent(),
    }
}

pub open spec fn opt_type_tree(t: Option<Type>) -> Tree {
    match t {
        Some(t) => type_tree(t),
        None => absent(),
    }
}

pub open spec fn generic_tree(g: GenericParam) -> Tree {
    node(Label::Generic, g.name.span, seq![name_tree(g.name), list(path_trees(g.bounds@))])
}

pub open spec fn generic_trees(gs: Seq<GenericParam>) -> Seq<Tree> {
    Seq::new(gs.len(), |i: int| generic_tree(gs[i]))
}

// ---- patterns ----

pub open spec fn pattern_tree(p: Pattern) -> Tree
    decreases p, 1nat,
{
    match p {
        Pattern::Wildcard(span) => leaf(Label::WildcardPattern, span),
        Pattern::Ident { name, mutable, span } => node(Label::NamePattern(mutable), span, seq![name_tree(name)]),
        Pattern::Literal { lit, span } => node(Label::LiteralPattern, span, seq![lit_tree(lit)]),
        Pattern::Path { path, span } => node(Label::PathPattern, span, seq![path_tree(path)]),
        Pattern::Range { lo, hi, inclusive, span } => node(
            Label::RangePattern(inclusive),
            span,
            seq![lit_tree(lo), lit_tree(hi)],
        ),
        Pattern::TupleVariant { path, fields, span } => node(
            Label::TupleVariantPattern,
            span,
            seq![path_tree(path), list(pattern_trees(fields@))],
        ),
        Pattern::NamedVariant { path, fields, span } => node(
            Label::NamedVariantPattern,
            span,
            seq![path_tree(path), list(pattern_field_trees(fields@))],
        ),
        Pattern::Or { patterns, span } => node(Label::OrPattern, span, pattern_trees(patterns@)),
        Pattern::Tuple { patterns, span } => node(Label::TuplePattern, span, pattern_trees(patterns@)),
    }
}

pub open spec fn pattern_trees(ps: Seq<Pattern>) -> Seq<Tree>
    decreases ps, 0nat,
{
    Seq::new(ps.len(), |i: int| if 0 <= i < ps.len() { pattern_tree(ps[i]) } else { absent() })
}

pub open spec fn pattern_field_trees(fs: Seq<(Ident, Pattern)>) -> Seq<Tree>
    decreases fs, 0nat,
{
    Seq::new(
        fs.len(),
        |i: int|
            if 0 <= i < fs.len() {
                node(Label::PatternField, fs[i].0.span, seq![name_tree(fs[i].0), pattern_tree(fs[i].1)])
            } else {
                absent()
            },
    )
}

// ---- expressions and statements ----

pub open spec fn expr_tree(e: Expr) -> Tree
    decreases e, 1nat,
{
    match e {
        Expr::Lit { lit, span } => node(Label::Literal, span, seq![lit_tree(lit)]),
        Expr::Path(p) => node(Label::PathExpr, p.span, seq![path_tree(p)]),
        Expr::Unary { op, expr, span } => node(Label::Unary(op), span, seq![expr_tree(*expr)]),
        Expr::Binary { op, lhs, rhs, span } => node(
            Label::Binary(op),
            span,
            seq![expr_tree(*lhs), expr_tree(*rhs)],
        ),
        Expr::Assign { lhs, rhs, span } => node(Label::Assign, span, seq![expr_tree(*lhs), expr_tree(*rhs)]),
        Expr::AssignOp { op, lhs, rhs, span } => node(
            Label::AssignOp(op),
            span,
            seq![expr_tree(*lhs), expr_tree(*rhs)],
        ),
        Expr::Call { callee, args, span } => node(
            Label::Call,
            span,
            seq![expr_tree(*callee), list(expr_trees(args@))],
        ),
        Expr::MethodCall { receiver, method, args, span } => node(
            Label::MethodCall,
            span,
            seq![expr_tree(*receiver), name_tree(method), list(expr_trees(args@))],
        ),
        Expr::Field { receiver, name, span } => node(
            Label::FieldAccess,
            span,
            seq![expr_tree(*receiver), name_tree(name)],
        ),
        Expr::TupleIndex { receiver, index, span } => node(
            Label::TupleIndex(index),
            span,
            seq![expr_tree(*receiver)],
        ),
        Expr::Index { receiver, index, span } => node(
            Label::Index,
            span,
            seq![expr_tree(*receiver), expr_tree(*index)],
        ),
        Expr::Try { expr, span } => node(Label::Try, span, seq![expr_tree(*expr)]),
        Expr::Cast { expr, ty, span } => node(Label::Cast, span, seq![expr_tree(*expr), type_tree(ty)]),
        Expr::Array { elems, span } => node(Label::Array, span, expr_trees(elems@)),
        Expr::Tuple { elems, span } => node(Label::Tuple, span, expr_trees(elems@)),
        Expr::Closure { params, body, span } => node(
            Label::Closure,
            span,
            seq![list(closure_param_trees(params@)), expr_tree(*body)],
        ),
        Expr::Block(b) => node(Label::BlockExpr, b.span, seq![block_tree(b)]),
        Expr::If { cond, then_branch, else_branch, span } => node(
            Label::If,
            span,
            seq![
                expr_tree(*cond),
                block_tree(then_branch),
                opt_boxed_tree(else_branch),
            ],
        ),
        Expr::While { cond, body, span } => node(Label::While, span, seq![expr_tree(*cond), block_tree(body)]),
        Expr::For { pat, iter, body, span } => node(
            Label::For,
            span,
            seq![pattern_tree(pat), expr_tree(*iter), block_tree(body)],
        ),
        Expr::Match { scrutinee, arms, span } => node(
            Label::Match,
            span,
            seq![expr_tree(*scrutinee), list(arm_trees(arms@))],
        ),
        Expr::StructLit { path, fields, span } => node(
            Label::StructLit,
            span,
            seq![path_tree(path), list(init_trees(fields@))],
        ),
        Expr::Range { start, end, inclusive, span } => node(
            Label::Range(inclusive),
            span,
            seq![
                opt_boxed_tree(start),
                opt_boxed_tree(end),
            ],
        ),
        Expr::Return { value, span } => node(
            Label::Return,
            span,
            seq![
                opt_boxed_tree(value),
            ],
        ),
        Expr::Break(span) => leaf(Label::Break, span),
        Expr::Continue(span) => leaf(Label::Continue, span),
    }
}

pub open spec fn expr_trees(es: Seq<Expr>) -> Seq<Tree>
    decreases es, 0nat,
{
    Seq::new(es.len(), |i: int| if 0 <= i < es.len() { expr_tree(es[i]) } else { absent() })
}

pub open spec fn opt_expr_tree(e: Option<Expr>) -> Tree
    decreases e, 2nat,
{
    match e {
        Some(e) => expr_tree(e),
        None => absent(),
    }
}

pub open spec fn opt_boxed_tree(e: Option<Box<Expr>>) -> Tree
    decreases e, 2nat,
{
    match e {
        Some(e) => expr_tree(*e),
        None => absent(),
    }
}

pub open spec fn closure_param_trees(ps: Seq<ClosureParam>) -> Seq<Tree>
    decreases ps, 0nat,
{
    Seq::new(
        ps.len(),
        |i: int|
            node(Label::ClosureParam, ps[i].span, seq![name_tree(ps[i].name), opt_type_tree(ps[i].ty)]),
    )
}

pub open spec fn init_tree(f: FieldInit) -> Tree
    decreases f, 0nat,
{
    node(Label::Init, f.name.span, seq![name_tree(f.name), expr_tree(f.value)])
}

pub open spec fn init_trees(fs: Seq<FieldInit>) -> Seq<Tree>
    decreases fs, 0nat,
{
    Seq::new(fs.len(), |i: int| if 0 <= i < fs.len() { init_tree(fs[i]) } else { absent() })
}

pub open spec fn arm_tree(a: MatchArm) -> Tree
    decreases a, 0nat,
{
    node(
        Label::Arm,
        a.span,
        seq![
            pattern_tree(a.pat),
            opt_expr_tree(a.guard),
            expr_tree(a.body),
        ],
    )
}

pub open spec fn arm_trees(arms: Seq<MatchArm>) -> Seq<Tree>
    decreases arms, 0nat,
{
    Seq::new(arms.len(), |i: int| if 0 <= i < arms.len() { arm_tree(arms[i]) } else { absent() })
}

pub open spec fn block_tree(b: Block) -> Tree
    decreases b, 1nat,
{
    node(Label::Block, b.span, stmt_trees(b.stmts@))
}

pub open spec fn opt_block_tree(b: Option<Block>) -> Tree
    decreases b, 2nat,
{
    match b {
        Some(b) => block_tree(b),
        None => absent(),
    }
}

pub open spec fn let_tree(l: LetStmt) -> Tree
    decreases l, 0nat,
{
    node(
        Label::Let(l.mutable),
        l.span,
        seq![
            pattern_tree(l.pat),
            opt_type_tree(l.ty),
            opt_expr_tree(l.init),
        ],
    )
}

pub open spec fn stmt_tree(s: Stmt) -> Tree
    decreases s, 1nat,
{
    match s {
        Stmt::Let(l) => let_tree(l),
        Stmt::Expr(e, semi) => node(Label::ExprStmt(semi), expr_span(e), seq![expr_tree(e)]),
        Stmt::Item(i) => node(Label::ItemStmt, no_span(), seq![item_tree(i)]),
    }
}

pub open spec fn stmt_trees(ss: Seq<Stmt>) -> Seq<Tree>
    decreases ss, 0nat,
{
    Seq::new(ss.len(), |i: int| if 0 <= i < ss.len() { stmt_tree(ss[i]) } else { absent() })
}

// ---- items ----

pub open spec fn param_tree(p: Param) -> Tree {
    node(Label::Param, p.span, seq![name_tree(p.name), type_tree(p.ty)])
}

pub open spec fn param_trees(ps: Seq<Param>) -> Seq<Tree> {
    Seq::new(ps.len(), |i: int| param_tree(ps[i]))
}

pub open spec fn field_tree(f: Field) -> Tree {
    node(Label::Field(f.vis), f.span, seq![name_tree(f.name), type_tree(f.ty)])
}

pub open spec fn field_trees(fs: Seq<Field>) -> Seq<Tree> {
    Seq::new(fs.len(), |i: int| field_tree(fs[i]))
}

pub open spec fn fn_tree(f: FnDecl) -> Tree
    decreases f, 1nat,
{
    node(
        Label::Fn(f.vis),
        f.span,
        seq![
            name_tree(f.name),
            list(generic_trees(f.generics@)),
            list(param_trees(f.params@)),
            opt_type_tree(f.return_type),
            block_tree(f.body),
        ],
    )
}

pub open spec fn fn_trees(fs: Seq<FnDecl>) -> Seq<Tree>
    decreases fs, 0nat,
{
    Seq::new(fs.len(), |i: int| if 0 <= i < fs.len() { fn_tree(fs[i]) } else { absent() })
}

pub open spec fn struct_tree(s: StructDecl) -> Tree {
    node(
        Label::Struct(s.vis),
        s.span,
        seq![name_tree(s.name), list(generic_trees(s.generics@)), list(field_trees(s.fields@))],
    )
}

pub open spec fn variant_tree(v: Variant) -> Tree {
    match v.fields {
        VariantFields::Unit => node(Label::UnitVariant, v.span, seq![name_tree(v.name)]),
        VariantFields::Tuple(ts) => node(
            Label::TupleVariant,
            v.span,
            seq![name_tree(v.name), list(type_trees(ts@))],
        ),
        VariantFields::Named(fs) => node(
            Label::NamedVariant,
            v.span,
            seq![name_tree(v.name), list(field_trees(fs@))],
        ),
    }
}

pub open spec fn variant_trees(vs: Seq<Variant>) -> Seq<Tree> {
    Seq::new(vs.len(), |i: int| variant_tree(vs[i]))
}

pub open spec fn enum_tree(e: EnumDecl) -> Tree {
    node(
        Label::Enum(e.vis),
        e.span,
        seq![name_tree(e.name), list(generic_trees(e.generics@)), list(variant_trees(e.variants@))],
    )
}

pub open spec fn const_tree(c: ConstDecl) -> Tree
    decreases c, 0nat,
{
    node(Label::Const(c.vis), c.span, seq![name_tree(c.name), type_tree(c.ty), expr_tree(c.value)])
}

pub open spec fn binding_tree(b: AssocTypeBinding) -> Tree {
    node(Label::Binding, b.span, seq![name_tree(b.name), type_tree(b.value)])
}

pub open spec fn binding_trees(bs: Seq<AssocTypeBinding>) -> Seq<Tree> {
    Seq::new(bs.len(), |i: int| binding_tree(bs[i]))
}

pub open spec fn impl_tree(i: ImplBlock) -> Tree
    decreases i, 0nat,
{
    node(
        Label::Impl,
        i.span,
        seq![
            list(generic_trees(i.generics@)),
            opt_path_tree(i.trait_path),
            path_tree(i.type_path),
            list(binding_trees(i.assoc_types@)),
            list(fn_trees(i.methods@)),
        ],
    )
}

pub open spec fn assoc_tree(a: AssocTypeDecl) -> Tree {
    node(Label::AssocType, a.span, seq![name_tree(a.name)])
}

pub open spec fn assoc_trees(ts: Seq<AssocTypeDecl>) -> Seq<Tree> {
    Seq::new(ts.len(), |i: int| assoc_tree(ts[i]))
}

pub open spec fn sig_tree(s: TraitMethodSig) -> Tree
    decreases s, 0nat,
{
    node(
        Label::Signature,
        s.span,
        seq![
            name_tree(s.name),
            list(param_trees(s.params@)),
            opt_type_tree(s.return_type),
            opt_block_tree(s.body),
        ],
    )
}

pub open spec fn sig_trees(ss: Seq<TraitMethodSig>) -> Seq<Tree>
    decreases ss, 0nat,
{
    Seq::new(ss.len(), |i: int| if 0 <= i < ss.len() { sig_tree(ss[i]) } else { absent() })
}

pub open spec fn trait_tree(t: TraitDecl) -> Tree
    decreases t, 0nat,
{
    node(
        Label::Trait(t.vis),
        t.span,
        seq![
            name_tree(t.name),
            list(generic_trees(t.generics@)),
            list(path_trees(t.supertraits@)),
            list(assoc_trees(t.assoc_types@)),
            list(sig_trees(t.methods@)),
        ],
    )
}

pub open spec fn mod_tree(m: ModDecl) -> Tree
    decreases m, 0nat,
{
    node(Label::Mod(m.vis), m.span, seq![name_tree(m.name), list(item_trees(m.items@))])
}

pub open spec fn use_tree(u: UseDecl) -> Tree {
    node(
        Label::Use(u.glob, u.vis),
        u.span,
        seq![
            path_tree(u.path),
            opt_name_tree(u.alias),
        ],
    )
}

pub open spec fn item_tree(i: Item) -> Tree
    decreases i, 1nat,
{
    match i {
        Item::Fn(f) => fn_tree(f),
        Item::Struct(s) => struct_tree(s),
        Item::Enum(e) => enum_tree(e),
        Item::Const(c) => const_tree(c),
        Item::Impl(b) => impl_tree(b),
        Item::Trait(t) => trait_tree(t),
        Item::Mod(m) => mod_tree(m),
        Item::Use(u) => use_tree(u),
    }
}

pub open spec fn item_trees(is: Seq<Item>) -> Seq<Tree>
    decreases is, 0nat,
{
    Seq::new(is.len(), |i: int| if 0 <= i < is.len() { item_tree(is[i]) } else { absent() })
}

pub open spec fn module_tree(m: Module) -> Tree {
    node(Label::Module, m.span, item_trees(m.items@))
}

// ---- a tree's span is its node's ----

pub proof fn expr_tree_span(e: Expr)
    ensures
        expr_tree(e).span == expr_span(e),
{
}

pub proof fn type_tree_span(t: Type)
    ensures
        type_tree(t).span == type_span(t),
{
}

pub proof fn pattern_tree_span(p: Pattern)
    ensures
        pattern_tree(p).span == pattern_span(p),
{
}

// ---- expressions whose parts may be missing ----

pub fn return_expr(value: Option<Expr>, span: Span) -> (r: Expr)
    ensures
        expr_tree(r) == node(Label::Return, span, seq![opt_expr_tree(value)]),
        r is Return,
{
    match value {
        Some(e) => {
            let b = Some(Box::new(e));
            assert(opt_boxed_tree(b) == opt_expr_tree(Some(e)));
            Expr::Return { value: b, span }
        },
        None => {
            assert(opt_boxed_tree(None) == opt_expr_tree(None));
            Expr::Return { value: None, span }
        },
    }
}

pub fn if_expr(cond: Expr, then_branch: Block, other: Option<Expr>, span: Span) -> (r: Expr)
    ensures
        expr_tree(r) == node(
            Label::If,
            span,
            seq![expr_tree(cond), block_tree(then_branch), opt_expr_tree(other)],
        ),
        r is If,
{
    match other {
        Some(e) => {
            let b = Some(Box::new(e));
            assert(opt_boxed_tree(b) == opt_expr_tree(Some(e)));
            Expr::If { cond: Box::new(cond), then_branch, else_branch: b, span }
        },
        None => {
            assert(opt_boxed_tree(None) == opt_expr_tree(None));
            Expr::If { cond: Box::new(cond), then_branch, else_branch: None, span }
        },
    }
}

pub fn range_expr(lo: Expr, hi: Expr, inclusive: bool, span: Span) -> (r: Expr)
    ensures
        expr_tree(r) == node(Label::Range(inclusive), span, seq![expr_tree(lo), expr_tree(hi)]),
{
    let start = Some(Box::new(lo));
    let end = Some(Box::new(hi));
    assert(opt_boxed_tree(start) == expr_tree(lo));
    assert(opt_boxed_tree(end) == expr_tree(hi));
    Expr::Range { start, end, inclusive, span }
}

// ---- copies ----

pub fn copy_ident(i: &Ident) -> (r: Ident)
    ensures
        name_tree(r) == name_tree(*i),
        r.span == i.span,
{
    Ident { name: i.name.clone(), span: i.span }
}

pub fn copy_path(p: &Path) -> (r: Path)
    ensures
        path_tree(r) == path_tree(*p),
        r.span == p.span,
    decreases p, 0nat,
{
    let mut segments: Vec<Ident> = Vec::new();
    let mut i: usize = 0;
    while i < p.segments.len()
        invariant
            i <= p.segments.len(),
            segments.len() == i,
            forall|j: int| 0 <= j < i ==> name_tree(#[trigger] segments[j]) == name_tree(p.segments[j]),
        decreases p.segments.len() - i,
    {
        segments.push(copy_ident(&p.segments[i]));
        i += 1;
    }
    assert(name_trees(segments@) =~= name_trees(p.segments@));
    let generic_args = copy_types(&p.generic_args);
    Path { segments, generic_args, span: p.span }
}

pub fn copy_type(t: &Type) -> (r: Type)
    ensures
        type_tree(r) == type_tree(*t),
    decreases t, 1nat,
{
    match t {
        Type::Path(p) => Type::Path(copy_path(p)),
        Type::Dyn(p) => Type::Dyn(copy_path(p)),
        Type::Array { elem, len, span } => {
            let e = copy_type(elem);
            let r = Type::Array { elem: Box::new(e), len: *len, span: *span };
            assert(type_tree(r) == node(Label::ArrayType(*len), *span, seq![type_tree(e)]));
            r
        },
        Type::Fn { params, ret, span } => {
            let ps = copy_types(params);
            match ret {
                Some(t) => {
                    let q = copy_type(t);
                    let b = Some(Box::new(q));
                    assert(opt_boxed_type_tree(b) == opt_boxed_type_tree(*ret));
                    Type::Fn { params: ps, ret: b, span: *span }
                },
                None => Type::Fn { params: ps, ret: None, span: *span },
            }
        },
        Type::Tuple { elems, span } => {
            let es = copy_types(elems);
            let r = Type::Tuple { elems: es, span: *span };
            assert(type_tree(r) == node(Label::TupleType, *span, seq![list(type_trees(es@))]));
            r
        },
    }
}

pub fn copy_types(ts: &Vec<Type>) -> (r: Vec<Type>)
    ensures
        type_trees(r@) == type_trees(ts@),
    decreases ts, 0nat,
{
    let mut out: Vec<Type> = Vec::new();
    let mut i: usize = 0;
    while i < ts.len()
        invariant
            i <= ts.len(),
            out.len() == i,
            forall|j: int| 0 <= j < i ==> type_tree(#[trigger] out[j]) == type_tree(ts[j]),
        decreases ts.len() - i,
    {
        out.push(copy_type(&ts[i]));
        i += 1;
    }
    assert(type_trees(out@) =~= type_trees(ts@));
    out
}

pub fn copy_generic(g: &GenericParam) -> (r: GenericParam)
    ensures
        generic_tree(r) == generic_tree(*g),
{
    let mut bounds: Vec<Path> = Vec::new();
    let mut i: usize = 0;
    while i < g.bounds.len()
        invariant
            i <= g.bounds.len(),
            bounds.len() == i,
            forall|j: int| 0 <= j < i ==> path_tree(#[trigger] bounds[j]) == path_tree(g.bounds[j]),
        decreases g.bounds.len() - i,
    {
        bounds.push(copy_path(&g.bounds[i]));
        i += 1;
    }
    assert(path_trees(bounds@) =~= path_trees(g.bounds@));
    GenericParam { name: copy_ident(&g.name), bounds }
}

} // verus!
