//! Lowering the syntax tree to HIR.
//!
//! Walks the tree together with what name resolution and type checking found
//! and produces a tree that is ready for code generation.

use vstd::prelude::*;

use crate::ast::{
    BinOp, Block, Expr, FieldInit, FnDecl, GenericParam, Ident, Item, LetStmt, Lit, MatchArm,
    Module, Param, Path, Pattern, Stmt, TraitMethodSig, Type, UnOp, expr_span, type_span,
};
use crate::checker::{CheckResults, StructLayout, StructLayoutField, field_index};
use crate::graph::{contains_sym, next_of, reach, reached, syms_map, with_new};
use crate::hir::{
    HirArmV, HirBinOp, HirBlock, HirBlockV, HirExpr, HirExprKind, HirExprV, HirFn, HirFnV,
    HirItem, HirKindV, HirLet, HirLetV, HirLit, HirLitV, HirMatchArm, HirModule, HirParam,
    HirParamV, HirPattern, HirPatternV, HirStmt, HirStmtV, HirUnOp, LogicalOp, arm_views,
    bindings_view, expr_views, field_views, item_views, let_view, mk_block, mk_expr, mk_let,
    mk_stmt, param_view, param_views, pattern_views, stmt_views,
};
use crate::hir_walk::copy_kind;
use crate::monomorphize::{bind, ty_map, zipped};
use crate::resolver::{
    Resolutions, SymbolKind, first_sym, is_enum_named, is_struct_named, is_trait_named,
};
use crate::search::{first_where, found_stays};
use crate::table::{Key, Table, copy_syms, dup_table, entry_of_key, lookup, same_table, view_or};
use crate::text::{dec, push_dec, same_text, texts};
use crate::token::Span;
use crate::ty::{FloatTy, IntTy, SymbolId, Ty, TyV, copy_tys, next_number, ty_view, ty_views};

verus! {

/// What lowering reads.
#[derive(Clone, Copy)]
pub struct Ctx<'a, 's> {
    pub res: &'a Resolutions<'s>,
    pub check: &'a CheckResults,
}

// ---- small lookups ----

/// The checked type of the expression at a span.
pub open spec fn expr_ty(cx: Ctx<'_, '_>, s: Span) -> TyV {
    view_or(cx.check.expr_types@, s, TyV::Error)
}

/// The resolved type of the type at a span.
pub open spec fn type_ty(cx: Ctx<'_, '_>, s: Span) -> TyV {
    view_or(cx.check.type_resolutions@, s, TyV::Error)
}

pub open spec fn unsupported(m: Seq<char>) -> HirKindV {
    HirKindV::Unsupported(m)
}

/// What a path expression refers to.
pub open spec fn path_target(cx: Ctx<'_, '_>, e: Expr) -> Option<SymbolId> {
    match e {
        Expr::Path(p) => lookup(cx.res.path_to_sym@, p.span),
        _ => None,
    }
}

/// The discriminant of an enum's variant, by name.
pub open spec fn variant_disc(cx: Ctx<'_, '_>, enum_sym: SymbolId, name: Seq<char>) -> Option<u32> {
    if cx.res.enum_variants@.contains_key(enum_sym) && cx.res.enum_variants@[enum_sym]@.contains_key(name) {
        match cx.res.kind(cx.res.enum_variants@[enum_sym]@[name]) {
            SymbolKind::EnumVariant { discriminant, .. } => Some(discriminant),
            _ => None,
        }
    } else {
        None
    }
}

// ---- types ----

/// A struct's type parameters bound to type arguments.
pub open spec fn struct_subst(cx: Ctx<'_, '_>, s: SymbolId, args: Seq<TyV>) -> Map<SymbolId, TyV> {
    zipped(view_or(cx.res.struct_generics@, s, seq![]), args)
}

/// An enum's type parameters bound to the arguments of a scrutinee's type.
pub open spec fn scrutinee_subst(cx: Ctx<'_, '_>, t: TyV) -> Map<SymbolId, TyV> {
    match t {
        TyV::Enum(s, args) => zipped(view_or(cx.res.enum_generics@, s, seq![]), args),
        _ => Map::empty(),
    }
}

/// A declared type with its variables replaced. Vector elements and
/// projections are left to monomorphization.
pub open spec fn field_subst(m: Map<SymbolId, TyV>, t: TyV) -> TyV
    decreases t,
{
    match t {
        TyV::TypeVar(v) => if m.contains_key(v) {
            m[v]
        } else {
            t
        },
        TyV::Array(e, n) => TyV::Array(Box::new(field_subst(m, *e)), n),
        TyV::Fn { params, ret } => TyV::Fn {
            params: field_substs(m, params),
            ret: Box::new(field_subst(m, *ret)),
        },
        TyV::Struct(s, args) => TyV::Struct(s, field_substs(m, args)),
        TyV::Enum(s, args) => TyV::Enum(s, field_substs(m, args)),
        TyV::Weak(e) => TyV::Weak(Box::new(field_subst(m, *e))),
        _ => t,
    }
}

pub open spec fn field_substs(m: Map<SymbolId, TyV>, ts: Seq<TyV>) -> Seq<TyV>
    decreases ts,
{
    Seq::new(ts.len(), |i: int| if 0 <= i < ts.len() { field_subst(m, ts[i]) } else { TyV::Error })
}

/// How many associated-type bindings are followed one inside the other: as many
/// as can be counted.
pub const PROJECTION_DEPTH: usize = usize::MAX;

/// A type with its variables replaced, and with each projection on a struct
/// that binds the name replaced by what the struct binds it to, down to
/// `depth` bindings followed one inside the other.
pub open spec fn projected(cx: Ctx<'_, '_>, m: Map<SymbolId, TyV>, t: TyV, depth: nat) -> TyV
    decreases depth, t,
{
    match t {
        TyV::TypeVar(v) => if m.contains_key(v) {
            m[v]
        } else {
            t
        },
        TyV::Array(e, n) => TyV::Array(Box::new(projected(cx, m, *e, depth)), n),
        TyV::Vec(e) => TyV::Vec(Box::new(projected(cx, m, *e, depth))),
        TyV::Fn { params, ret } => TyV::Fn {
            params: all_projected(cx, m, params, depth),
            ret: Box::new(projected(cx, m, *ret, depth)),
        },
        TyV::Struct(s, args) => TyV::Struct(s, all_projected(cx, m, args, depth)),
        TyV::Enum(s, args) => TyV::Enum(s, all_projected(cx, m, args, depth)),
        TyV::Weak(e) => TyV::Weak(Box::new(projected(cx, m, *e, depth))),
        TyV::Assoc(base, name) => {
            let new_base = projected(cx, m, *base, depth);
            match new_base {
                TyV::Struct(s, args) => if depth > 0 && cx.check.impl_assoc_bindings_ty@.contains_key((s, name)) {
                    let raw = cx.check.impl_assoc_bindings_ty@[(s, name)]@;
                    let inside = projected(cx, struct_subst(cx, s, args), raw, (depth - 1) as nat);
                    projected(cx, m, inside, (depth - 1) as nat)
                } else {
                    TyV::Assoc(Box::new(new_base), name)
                },
                _ => TyV::Assoc(Box::new(new_base), name),
            }
        },
        _ => t,
    }
}

pub open spec fn all_projected(cx: Ctx<'_, '_>, m: Map<SymbolId, TyV>, ts: Seq<TyV>, depth: nat) -> Seq<TyV>
    decreases depth, ts,
{
    Seq::new(ts.len(), |i: int| if 0 <= i < ts.len() { projected(cx, m, ts[i], depth) } else { TyV::Error })
}

/// A type with a struct's own parameters replaced by the arguments it is
/// used with.
pub open spec fn at_use(cx: Ctx<'_, '_>, s: SymbolId, args: Seq<TyV>, t: TyV) -> TyV {
    if cx.res.struct_generics@.contains_key(s) {
        projected(cx, zipped(cx.res.struct_generics@[s]@, args), t, PROJECTION_DEPTH as nat)
    } else {
        t
    }
}

// ---- operators and literals ----

pub open spec fn hir_binop(op: BinOp) -> HirBinOp {
    match op {
        BinOp::Add => HirBinOp::Add,
        BinOp::Sub => HirBinOp::Sub,
        BinOp::Mul => HirBinOp::Mul,
        BinOp::Div => HirBinOp::Div,
        BinOp::Mod => HirBinOp::Mod,
        BinOp::Eq => HirBinOp::Eq,
        BinOp::Ne => HirBinOp::Ne,
        BinOp::Lt => HirBinOp::Lt,
        BinOp::Gt => HirBinOp::Gt,
        BinOp::Le => HirBinOp::Le,
        BinOp::Ge => HirBinOp::Ge,
        BinOp::BitAnd => HirBinOp::BitAnd,
        BinOp::BitOr => HirBinOp::BitOr,
        BinOp::BitXor => HirBinOp::BitXor,
        BinOp::Shl => HirBinOp::Shl,
        BinOp::Shr => HirBinOp::Shr,
        BinOp::And => arbitrary(),
        BinOp::Or => arbitrary(),
    }
}

pub open spec fn is_logical(op: BinOp) -> bool {
    op is And || op is Or
}

pub open spec fn hir_unop(op: UnOp) -> HirUnOp {
    match op {
        UnOp::Neg => HirUnOp::Neg,
        UnOp::Not => HirUnOp::Not,
        UnOp::BitNot => HirUnOp::BitNot,
    }
}

/// A literal, typed by what the checker found and by default otherwise.
pub open spec fn lowered_lit(lit: Lit, t: TyV) -> HirLitV {
    match lit {
        Lit::Int(v, _) => HirLitV::Int(
            v,
            match t {
                TyV::Int(it) => it,
                _ => IntTy::I64,
            },
        ),
        Lit::Float(s, _) => HirLitV::Float(
            s@,
            match t {
                TyV::Float(ft) => ft,
                _ => FloatTy::F64,
            },
        ),
        Lit::Bool(b) => HirLitV::Bool(b),
        Lit::Str(s) => HirLitV::Str(s@),
        Lit::Char(c) => HirLitV::Char(c),
    }
}

/// The integer a range pattern's bound stands for.
pub open spec fn int_bound(lit: Lit) -> Option<i64> {
    match lit {
        Lit::Int(v, _) => Some(v),
        Lit::Char(c) => Some(c as i64),
        _ => None,
    }
}

pub open spec fn zero_i64() -> HirExprV {
    HirExprV { kind: HirKindV::Lit(HirLitV::Int(0, IntTy::I64)), ty: TyV::Int(IntTy::I64) }
}

// ---- patterns ----

/// The symbol a payload position binds: none for `_`, the declared one for a
/// name, and an error for anything else.
pub open spec fn position_binding(cx: Ctx<'_, '_>, p: Pattern, msg: Seq<char>) -> Result<
    Option<SymbolId>,
    Seq<char>,
> {
    match p {
        Pattern::Wildcard(_) => Ok(None),
        Pattern::Ident { name, .. } => Ok(lookup(cx.res.decl_to_sym@, name.span)),
        _ => Err(msg),
    }
}

/// Which named fields of a pattern have a name.
pub open spec fn pattern_field_named(fields: Seq<(Ident, Pattern)>, name: Seq<char>) -> spec_fn(int) -> bool {
    |i: int| fields[i].0.name@ == name
}

/// The resolved type of a payload position.
pub open spec fn payload_ty(cx: Ctx<'_, '_>, payloads: Seq<&Type>, i: int) -> TyV {
    if i < payloads.len() {
        type_ty(cx, type_span(*payloads[i]))
    } else {
        TyV::Error
    }
}

/// The type and binding of each of the first `k` named payload fields, in
/// declaration order.
pub open spec fn named_bindings(
    cx: Ctx<'_, '_>,
    names: Seq<String>,
    payloads: Seq<&Type>,
    fields: Seq<(Ident, Pattern)>,
    m: Map<SymbolId, TyV>,
    k: nat,
) -> Result<Seq<(TyV, Option<SymbolId>)>, Seq<char>>
    decreases k,
{
    if k == 0 || k > names.len() {
        Ok(seq![])
    } else {
        match named_bindings(cx, names, payloads, fields, m, (k - 1) as nat) {
            Err(e) => Err(e),
            Ok(before) => {
                let ty = field_subst(m, payload_ty(cx, payloads, k - 1));
                let found = first_where(pattern_field_named(fields, names[k - 1]@), fields.len());
                let binding = match found {
                    Some(i) => position_binding(
                        cx,
                        fields[i].1,
                        "named-variant payload must be an identifier or `_`"@,
                    ),
                    None => Ok(None),
                };
                match binding {
                    Ok(b) => Ok(before.push((ty, b))),
                    Err(e) => Err(e),
                }
            },
        }
    }
}

/// The type and binding of each of the first `k` payload positions.
pub open spec fn tuple_bindings(
    cx: Ctx<'_, '_>,
    payloads: Seq<&Type>,
    fields: Seq<Pattern>,
    m: Map<SymbolId, TyV>,
    k: nat,
) -> Result<Seq<(TyV, Option<SymbolId>)>, Seq<char>>
    decreases k,
{
    if k == 0 || k > fields.len() {
        Ok(seq![])
    } else {
        match tuple_bindings(cx, payloads, fields, m, (k - 1) as nat) {
            Err(e) => Err(e),
            Ok(before) => {
                let ty = field_subst(m, type_ty(cx, type_span(*payloads[k - 1])));
                match position_binding(
                    cx,
                    fields[k - 1],
                    "tuple-variant payload must be an identifier or `_`"@,
                ) {
                    Ok(b) => Ok(before.push((ty, b))),
                    Err(e) => Err(e),
                }
            },
        }
    }
}

pub open spec fn arity_message(want: nat, got: nat) -> Seq<char> {
    "variant takes "@ + dec(want) + " payload"@ + (if want == 1 {
        ""@
    } else {
        "s"@
    }) + ", found "@ + dec(got)
}

/// The payload types a variant declares.
pub open spec fn payloads_of<'s>(cx: Ctx<'_, 's>, v: SymbolId) -> Seq<&'s Type> {
    if cx.res.enum_variant_payloads@.contains_key(v) {
        cx.res.enum_variant_payloads@[v]@
    } else {
        seq![]
    }
}

/// The field names a variant declares.
pub open spec fn field_names_of(cx: Ctx<'_, '_>, v: SymbolId) -> Seq<String> {
    if cx.res.enum_variant_field_names@.contains_key(v) {
        cx.res.enum_variant_field_names@[v]@
    } else {
        seq![]
    }
}

/// `acc`, then the alternatives a pattern stands for; an error for a pattern
/// that cannot be compiled.
pub open spec fn arm_patterns(
    cx: Ctx<'_, '_>,
    p: Pattern,
    acc: Seq<HirPatternV>,
    m: Map<SymbolId, TyV>,
) -> Result<Seq<HirPatternV>, Seq<char>>
    decreases p,
{
    match p {
        Pattern::Wildcard(_) => Ok(acc.push(HirPatternV::Wildcard)),
        Pattern::Ident { name, .. } => match lookup(cx.res.decl_to_sym@, name.span) {
            Some(s) => Ok(acc.push(HirPatternV::Bind(s))),
            None => Err("match ident pattern lost its binding"@),
        },
        Pattern::Literal { lit, .. } => match lit {
            Lit::Int(v, _) => Ok(acc.push(HirPatternV::IntLit(v))),
            Lit::Bool(b) => Ok(acc.push(HirPatternV::BoolLit(b))),
            Lit::Str(s) => Ok(acc.push(HirPatternV::StrLit(s@))),
            Lit::Char(c) => Ok(acc.push(HirPatternV::IntLit(c as i64))),
            Lit::Float(_, _) => Err("match on this literal kind"@),
        },
        Pattern::Path { path, .. } => match lookup(cx.res.path_to_sym@, path.span) {
            None => Err("match path pattern didn't resolve"@),
            Some(s) => match cx.res.kind(s) {
                SymbolKind::EnumVariant { discriminant, .. } => Ok(
                    acc.push(HirPatternV::EnumVariant { discriminant }),
                ),
                _ => Err("match path didn't resolve to an enum variant"@),
            },
        },
        Pattern::Range { lo, hi, inclusive, .. } => match (int_bound(lo), int_bound(hi)) {
            (Some(l), Some(h)) => Ok(acc.push(HirPatternV::IntRange { lo: l, hi: h, inclusive })),
            _ => Err("range pattern bound must be int or char"@),
        },
        Pattern::NamedVariant { path, fields, .. } => match lookup(cx.res.path_to_sym@, path.span) {
            None => Err("named-variant pattern didn't resolve"@),
            Some(s) => match cx.res.kind(s) {
                SymbolKind::EnumVariant { discriminant, .. } => {
                    let names = field_names_of(cx, s);
                    match named_bindings(cx, names, payloads_of(cx, s), fields@, m, names.len()) {
                        Ok(bindings) => Ok(acc.push(HirPatternV::EnumPayload { discriminant, bindings })),
                        Err(e) => Err(e),
                    }
                },
                _ => Err("named-variant pattern path is not an enum variant"@),
            },
        },
        Pattern::TupleVariant { path, fields, .. } => match lookup(cx.res.path_to_sym@, path.span) {
            None => Err("tuple-variant pattern didn't resolve"@),
            Some(s) => match cx.res.kind(s) {
                SymbolKind::EnumVariant { discriminant, .. } => {
                    let payloads = payloads_of(cx, s);
                    if fields@.len() != payloads.len() {
                        Err(arity_message(payloads.len(), fields@.len()))
                    } else {
                        match tuple_bindings(cx, payloads, fields@, m, fields@.len()) {
                            Ok(bindings) => Ok(acc.push(HirPatternV::EnumPayload { discriminant, bindings })),
                            Err(e) => Err(e),
                        }
                    }
                },
                _ => Err("tuple-variant pattern path is not an enum variant"@),
            },
        },
        Pattern::Or { patterns, .. } => arms_of_all(cx, patterns@, acc, m, patterns@.len()),
        Pattern::Tuple { .. } => Err("match on a tuple pattern"@),
    }
}

/// `acc`, then the alternatives of the first `k` patterns.
pub open spec fn arms_of_all(
    cx: Ctx<'_, '_>,
    ps: Seq<Pattern>,
    acc: Seq<HirPatternV>,
    m: Map<SymbolId, TyV>,
    k: nat,
) -> Result<Seq<HirPatternV>, Seq<char>>
    decreases ps, k,
{
    if k == 0 || k > ps.len() {
        Ok(acc)
    } else {
        match arms_of_all(cx, ps, acc, m, (k - 1) as nat) {
            Ok(before) => arm_patterns(cx, ps[k - 1], before, m),
            Err(e) => Err(e),
        }
    }
}

// ---- expressions ----

/// An expression lowered with fresh symbols from `n` on, and the next fresh
/// symbol after it.
pub open spec fn lowered_expr(cx: Ctx<'_, '_>, e: Expr, n: u32) -> (HirExprV, u32)
    decreases e, 2nat,
{
    let (kind, n1) = lowered_kind(cx, e, n);
    (coerced(cx, expr_span(e), HirExprV { kind, ty: expr_ty(cx, expr_span(e)) }), n1)
}

/// A value wrapped into a trait object where the checker asked for it.
pub open spec fn coerced(cx: Ctx<'_, '_>, s: Span, inner: HirExprV) -> HirExprV {
    if cx.check.dyn_coercions@.contains_key(s) {
        let c = cx.check.dyn_coercions@[s];
        HirExprV {
            kind: HirKindV::DynBox { value: Box::new(inner), struct_sym: c.0, trait_sym: c.1 },
            ty: TyV::Dyn(c.1, ty_views(c.2@)),
        }
    } else {
        inner
    }
}

/// The first `k` expressions, lowered left to right.
pub open spec fn lowered_exprs(cx: Ctx<'_, '_>, es: Seq<Expr>, k: nat, n: u32) -> (Seq<HirExprV>, u32)
    decreases es, k,
{
    if k == 0 || k > es.len() {
        (seq![], n)
    } else {
        let (before, n1) = lowered_exprs(cx, es, (k - 1) as nat, n);
        let (h, n2) = lowered_expr(cx, es[k - 1], n1);
        (before.push(h), n2)
    }
}

pub open spec fn lowered_kind(cx: Ctx<'_, '_>, e: Expr, n: u32) -> (HirKindV, u32)
    decreases e, 1nat,
{
    match e {
        Expr::Lit { lit, .. } => (HirKindV::Lit(lowered_lit(lit, expr_ty(cx, expr_span(e)))), n),
        Expr::Path(p) => (lowered_path(cx, p), n),
        Expr::Unary { op, expr, .. } => {
            let (h, n1) = lowered_expr(cx, *expr, n);
            (HirKindV::Unary { op: hir_unop(op), expr: Box::new(h) }, n1)
        },
        Expr::Binary { op, lhs, rhs, .. } => {
            let (l, n1) = lowered_expr(cx, *lhs, n);
            let (r, n2) = lowered_expr(cx, *rhs, n1);
            let kind = match op {
                BinOp::And => HirKindV::Logical { op: LogicalOp::And, lhs: Box::new(l), rhs: Box::new(r) },
                BinOp::Or => HirKindV::Logical { op: LogicalOp::Or, lhs: Box::new(l), rhs: Box::new(r) },
                _ => HirKindV::Binary { op: hir_binop(op), lhs: Box::new(l), rhs: Box::new(r) },
            };
            (kind, n2)
        },
        Expr::Assign { lhs, rhs, .. } => match *lhs {
            Expr::Field { receiver, name, .. } => {
                let (recv, n1) = lowered_expr(cx, *receiver, n);
                match recv.ty {
                    TyV::Struct(s, args) => match field_at(cx, s, name.name@) {
                        Some(f) => {
                            let (r, n2) = lowered_expr(cx, *rhs, n1);
                            (
                                HirKindV::FieldAssign {
                                    receiver: Box::new(recv),
                                    offset: f.offset,
                                    field_ty: field_subst(struct_subst(cx, s, args), f.ty@),
                                    rhs: Box::new(r),
                                },
                                n2,
                            )
                        },
                        None => (unsupported("no field `"@ + name.name@ + "` on struct"@), n1),
                    },
                    _ => (unsupported("field assignment on non-struct"@), n1),
                }
            },
            _ => match path_target(cx, *lhs) {
                Some(sym) => {
                    let (r, n1) = lowered_expr(cx, *rhs, n);
                    (HirKindV::Assign { lhs: sym, rhs: Box::new(r) }, n1)
                },
                None => (unsupported("assignment target other than a local binding or field"@), n),
            },
        },
        Expr::AssignOp { op, lhs, rhs, .. } => match path_target(cx, *lhs) {
            Some(sym) => if is_logical(op) {
                (unsupported("compound assignment with a short-circuit operator"@), n)
            } else {
                let (r, n1) = lowered_expr(cx, *rhs, n);
                (HirKindV::AssignOp { lhs: sym, op: hir_binop(op), rhs: Box::new(r) }, n1)
            },
            None => (unsupported("compound assignment target other than a local binding"@), n),
        },
        Expr::Call { callee, args, .. } => match path_target(cx, *callee) {
            Some(sym) => match cx.res.kind(sym) {
                SymbolKind::Fn => {
                    let (hs, n1) = lowered_exprs(cx, args@, args@.len(), n);
                    (HirKindV::Call { callee: sym, args: hs }, n1)
                },
                SymbolKind::BuiltinFn(bf) => {
                    let (hs, n1) = lowered_exprs(cx, args@, args@.len(), n);
                    (HirKindV::BuiltinCall { name: bf.name@, args: hs }, n1)
                },
                SymbolKind::PolyBuiltinFn(name) => {
                    let (hs, n1) = lowered_exprs(cx, args@, args@.len(), n);
                    (dispatched(name@, hs), n1)
                },
                SymbolKind::EnumVariant { enum_sym, discriminant } => {
                    let (hs, n1) = lowered_exprs(cx, args@, args@.len(), n);
                    (HirKindV::EnumPayloadCtor { enum_sym, discriminant, payloads: hs }, n1)
                },
                SymbolKind::Local { .. } => lowered_value_call(cx, e, n),
                SymbolKind::Param => lowered_value_call(cx, e, n),
                _ => (unsupported("call target other than a named function"@), n),
            },
            None => lowered_value_call(cx, e, n),
        },
        Expr::Block(b) => {
            let (h, n1) = lowered_block(cx, b, n);
            (HirKindV::Block(h), n1)
        },
        Expr::If { cond, then_branch, else_branch, .. } => {
            let (c, n1) = lowered_expr(cx, *cond, n);
            let (t, n2) = lowered_block(cx, then_branch, n1);
            match else_branch {
                Some(eb) => {
                    let (h, n3) = lowered_expr(cx, *eb, n2);
                    (HirKindV::If { cond: Box::new(c), then_b: t, else_b: Some(Box::new(h)) }, n3)
                },
                None => (HirKindV::If { cond: Box::new(c), then_b: t, else_b: None }, n2),
            }
        },
        Expr::While { cond, body, .. } => {
            let (c, n1) = lowered_expr(cx, *cond, n);
            let (b, n2) = lowered_block(cx, body, n1);
            (HirKindV::While { cond: Box::new(c), body: b }, n2)
        },
        Expr::Return { value, .. } => match value {
            Some(v) => {
                let (h, n1) = lowered_expr(cx, *v, n);
                (HirKindV::Return(Some(Box::new(h))), n1)
            },
            None => (HirKindV::Return(None), n),
        },
        Expr::Break(_) => (HirKindV::Break, n),
        Expr::Continue(_) => (unsupported("continue"@), n),
        Expr::MethodCall { receiver, method, args, .. } => {
            let (recv, n1) = lowered_expr(cx, *receiver, n);
            match method_target(cx, recv, method.name@) {
                MethodTarget::Iter(kind) => (kind, n1),
                MethodTarget::Dyn(trait_sym) => {
                    let (hs, n2) = lowered_exprs(cx, args@, args@.len(), n1);
                    (
                        HirKindV::DynCall {
                            receiver: Box::new(recv),
                            trait_sym,
                            method: method.name@,
                            args: hs,
                        },
                        n2,
                    )
                },
                MethodTarget::Fn(callee) => {
                    let (hs, n2) = lowered_exprs(cx, args@, args@.len(), n1);
                    (HirKindV::Call { callee, args: seq![recv] + hs }, n2)
                },
                MethodTarget::Builtin => {
                    let (hs, n2) = lowered_exprs(cx, args@, args@.len(), n1);
                    (
                        HirKindV::MethodCall { receiver: Box::new(recv), method: method.name@, args: hs },
                        n2,
                    )
                },
            }
        },
        Expr::StructLit { path, fields, .. } => lowered_struct_lit(cx, path, fields@, n),
        Expr::Field { receiver, name, .. } => {
            let (recv, n1) = lowered_expr(cx, *receiver, n);
            (accessed(cx, recv, name.name@), n1)
        },
        Expr::Index { receiver, index, .. } => {
            let (recv, n1) = lowered_expr(cx, *receiver, n);
            if recv.ty is Str {
                match *index {
                    Expr::Range { start, end, inclusive, .. } => {
                        let (a, n2) = lowered_bound(cx, start, n1);
                        let (b, n3) = lowered_bound(cx, end, n2);
                        (
                            HirKindV::StrSlice {
                                str_val: Box::new(recv),
                                start: Box::new(a),
                                end: Box::new(b),
                                inclusive,
                            },
                            n3,
                        )
                    },
                    _ => {
                        let (i, n2) = lowered_expr(cx, *index, n1);
                        (HirKindV::StrByteIndex { str_val: Box::new(recv), index: Box::new(i) }, n2)
                    },
                }
            } else {
                let (i, n2) = lowered_expr(cx, *index, n1);
                let elem_ty = match recv.ty {
                    TyV::Array(elem, _) => *elem,
                    _ => TyV::Error,
                };
                (HirKindV::Index { array: Box::new(recv), index: Box::new(i), elem_ty }, n2)
            }
        },
        Expr::Try { expr, span } => {
            let (scrutinee, n1) = lowered_expr(cx, *expr, n);
            tried(cx, scrutinee, span, n1)
        },
        Expr::Cast { expr, .. } => {
            let (h, n1) = lowered_expr(cx, *expr, n);
            (HirKindV::Cast { expr: Box::new(h) }, n1)
        },
        Expr::Array { elems, .. } => {
            let (hs, n1) = lowered_exprs(cx, elems@, elems@.len(), n);
            let elem_ty = if hs.len() > 0 {
                hs[0].ty
            } else {
                TyV::Error
            };
            (HirKindV::Array { elems: hs, elem_ty }, n1)
        },
        Expr::For { .. } => lowered_for(cx, e, n),
        Expr::Match { scrutinee, arms, .. } => {
            let (s, n1) = lowered_expr(cx, *scrutinee, n);
            let (r, n2) = lowered_arms(cx, arms@, arms@.len(), scrutinee_subst(cx, s.ty), n1);
            match r {
                Ok(hs) => (HirKindV::Match { scrutinee: Box::new(s), arms: hs }, n2),
                Err(msg) => (unsupported(msg), n2),
            }
        },
        Expr::Range { .. } => (
            unsupported("range expressions are only supported inside string slicing (e.g. `s[a..b]`)"@),
            n,
        ),
        Expr::TupleIndex { .. } => (unsupported("tuple index"@), n),
        Expr::Tuple { .. } => (unsupported("tuple"@), n),
        Expr::Closure { .. } => (unsupported("closure"@), n),
    }
}

pub open spec fn lowered_path(cx: Ctx<'_, '_>, p: Path) -> HirKindV {
    match lookup(cx.res.path_to_sym@, p.span) {
        None => unsupported("unresolved path"@),
        Some(s) => match cx.res.kind(s) {
            SymbolKind::Local { .. } => HirKindV::Local(s),
            SymbolKind::Param => HirKindV::Local(s),
            SymbolKind::Const => HirKindV::Local(s),
            SymbolKind::Fn => HirKindV::Fn(s),
            SymbolKind::EnumVariant { discriminant, .. } => HirKindV::EnumVariant { discriminant },
            _ => unsupported("type name used as value"@),
        },
    }
}

/// A struct's field by name, if the struct has a layout and the field.
pub open spec fn field_at(cx: Ctx<'_, '_>, s: SymbolId, name: Seq<char>) -> Option<StructLayoutField> {
    if cx.check.struct_layouts@.contains_key(s) {
        let fields = cx.check.struct_layouts@[s].fields@;
        match field_index(fields, name) {
            Some(i) => Some(fields[i]),
            None => None,
        }
    } else {
        None
    }
}

/// A field read.
pub open spec fn accessed(cx: Ctx<'_, '_>, recv: HirExprV, name: Seq<char>) -> HirKindV {
    match recv.ty {
        TyV::Struct(s, args) => if !cx.check.struct_layouts@.contains_key(s) {
            unsupported("struct without a layout"@)
        } else {
            match field_at(cx, s, name) {
                Some(f) => HirKindV::FieldAccess {
                    receiver: Box::new(recv),
                    offset: f.offset,
                    field_ty: field_subst(struct_subst(cx, s, args), f.ty@),
                },
                None => unsupported("no field `"@ + name + "`"@),
            }
        },
        _ => unsupported("field access on non-struct"@),
    }
}

/// The runtime function a polymorphic builtin stands for, by its first
/// argument's type.
pub open spec fn dispatched(name: Seq<char>, args: Seq<HirExprV>) -> HirKindV {
    let target = if args.len() == 0 {
        None
    } else if name == "print"@ && args[0].ty is Int {
        Some("print_i64"@)
    } else if name == "print"@ && args[0].ty is Str {
        Some("print_str"@)
    } else if name == "weak"@ && args[0].ty is Vec {
        Some("weak_downgrade_vec"@)
    } else if name == "upgrade_or"@ && args[0].ty is Weak && *args[0].ty->Weak_0 is Vec {
        Some("weak_upgrade_or_vec"@)
    } else {
        None
    };
    match target {
        Some(t) => HirKindV::BuiltinCall { name: t, args },
        None => unsupported(
            "no dispatch for polymorphic builtin `"@ + name + "` with that argument type"@,
        ),
    }
}

/// A call whose callee is a value: indirect when the value is a function.
pub open spec fn lowered_value_call(cx: Ctx<'_, '_>, e: Expr, n: u32) -> (HirKindV, u32)
    decreases e, 0nat,
{
    match e {
        Expr::Call { callee, args, .. } => {
            let (c, n1) = lowered_expr(cx, *callee, n);
            if c.ty is Fn {
                let (hs, n2) = lowered_exprs(cx, args@, args@.len(), n1);
                (HirKindV::IndirectCall { callee: Box::new(c), args: hs }, n2)
            } else {
                (unsupported("call target other than a named function"@), n1)
            }
        },
        _ => arbitrary(),
    }
}

/// What a method call turns into.
pub enum MethodTarget {
    /// Dispatch through a trait object.
    Dyn(SymbolId),
    /// A fresh vector iterator.
    Iter(HirKindV),
    /// A direct call with the receiver in front.
    Fn(SymbolId),
    /// A method of a builtin type.
    Builtin,
}

pub open spec fn method_target(cx: Ctx<'_, '_>, recv: HirExprV, method: Seq<char>) -> MethodTarget {
    match recv.ty {
        TyV::Dyn(t, _) => MethodTarget::Dyn(t),
        TyV::Vec(_) => if method == "iter"@ {
            match vec_iter(cx, recv) {
                Some(kind) => MethodTarget::Iter(kind),
                None => MethodTarget::Builtin,
            }
        } else {
            MethodTarget::Builtin
        },
        TyV::Struct(s, _) => if cx.res.impl_methods@.contains_key((s, method)) {
            MethodTarget::Fn(cx.res.impl_methods@[(s, method)])
        } else {
            MethodTarget::Builtin
        },
        _ => MethodTarget::Builtin,
    }
}

/// The literal that builds a vector's iterator: the vector and a zero index
/// under their field names. Nothing when the iterator struct is missing or
/// has other fields.
pub open spec fn vec_iter(cx: Ctx<'_, '_>, recv: HirExprV) -> Option<HirKindV> {
    match first_sym(cx.res.symbols@, is_struct_named(cx.res.symbols@, "VecIter"@)) {
        None => None,
        Some(s) => if !cx.check.struct_layouts@.contains_key(s) {
            None
        } else {
            let layout = cx.check.struct_layouts@[s];
            match (field_index(layout.fields@, "vec"@), field_index(layout.fields@, "idx"@)) {
                (Some(v), Some(i)) => match iter_fields(
                    layout.fields@,
                    layout.fields@[v].offset,
                    layout.fields@[i].offset,
                    recv,
                    layout.fields@.len(),
                ) {
                    Some(fields) => Some(HirKindV::StructLit { sym: s, fields, size: layout.size }),
                    None => None,
                },
                _ => None,
            }
        },
    }
}

pub open spec fn iter_fields(
    fields: Seq<StructLayoutField>,
    vec_offset: u32,
    idx_offset: u32,
    recv: HirExprV,
    k: nat,
) -> Option<Seq<(u32, HirExprV)>>
    decreases k,
{
    if k == 0 || k > fields.len() {
        Some(seq![])
    } else {
        match iter_fields(fields, vec_offset, idx_offset, recv, (k - 1) as nat) {
            None => None,
            Some(before) => if fields[k - 1].name@ == "vec"@ {
                Some(before.push((vec_offset, recv)))
            } else if fields[k - 1].name@ == "idx"@ {
                Some(before.push((idx_offset, zero_i64())))
            } else {
                None
            },
        }
    }
}

/// A range bound inside an index or a loop, zero when it is left out.
pub open spec fn lowered_bound(cx: Ctx<'_, '_>, b: Option<Box<Expr>>, n: u32) -> (HirExprV, u32)
    decreases b, 3nat,
{
    match b {
        Some(e) => lowered_expr(cx, *e, n),
        None => (zero_i64(), n),
    }
}

pub open spec fn missing_field(name: Seq<char>) -> HirKindV {
    unsupported("missing field `"@ + name + "` (caught by checker)"@)
}

/// Which initializers have a name.
pub open spec fn init_named(fields: Seq<FieldInit>, name: Seq<char>) -> spec_fn(int) -> bool {
    |i: int| fields[i].name.name@ == name
}

/// The initializer of a field, lowered; a placeholder with the given type
/// when there is none.
pub open spec fn lowered_init(
    cx: Ctx<'_, '_>,
    fields: Seq<FieldInit>,
    name: Seq<char>,
    ty: TyV,
    n: u32,
) -> (HirExprV, u32)
    decreases fields, 0nat,
{
    match first_where(init_named(fields, name), fields.len()) {
        Some(i) => if 0 <= i < fields.len() {
            lowered_expr(cx, fields[i].value, n)
        } else {
            arbitrary()
        },
        None => (HirExprV { kind: missing_field(name), ty }, n),
    }
}

/// The payloads of a variant with named fields, in declaration order.
pub open spec fn lowered_payloads(
    cx: Ctx<'_, '_>,
    names: Seq<String>,
    fields: Seq<FieldInit>,
    k: nat,
    n: u32,
) -> (Seq<HirExprV>, u32)
    decreases fields, k + 1,
{
    if k == 0 || k > names.len() {
        (seq![], n)
    } else {
        let (before, n1) = lowered_payloads(cx, names, fields, (k - 1) as nat, n);
        let (h, n2) = lowered_init(cx, fields, names[k - 1]@, TyV::Error, n1);
        (before.push(h), n2)
    }
}

/// The fields of a struct literal, in declaration order.
pub open spec fn lowered_fields(
    cx: Ctx<'_, '_>,
    decls: Seq<StructLayoutField>,
    fields: Seq<FieldInit>,
    k: nat,
    n: u32,
) -> (Seq<(u32, HirExprV)>, u32)
    decreases fields, k + 1,
{
    if k == 0 || k > decls.len() {
        (seq![], n)
    } else {
        let (before, n1) = lowered_fields(cx, decls, fields, (k - 1) as nat, n);
        let (h, n2) = lowered_init(cx, fields, decls[k - 1].name@, decls[k - 1].ty@, n1);
        (before.push((decls[k - 1].offset, h)), n2)
    }
}

/// A struct literal, or the construction of a variant with named fields.
pub open spec fn lowered_struct_lit(cx: Ctx<'_, '_>, path: Path, fields: Seq<FieldInit>, n: u32) -> (HirKindV, u32)
    decreases
        fields,
        field_names_of(cx, lookup(cx.res.path_to_sym@, path.span)->0).len()
            + cx.check.struct_layouts@[lookup(cx.res.path_to_sym@, path.span)->0].fields@.len() + 2,
{
    match lookup(cx.res.path_to_sym@, path.span) {
        None => (unsupported("unresolved struct in literal"@), n),
        Some(s) => match cx.res.kind(s) {
            SymbolKind::EnumVariant { enum_sym, discriminant } => {
                let names = field_names_of(cx, s);
                let (payloads, n1) = lowered_payloads(cx, names, fields, names.len(), n);
                (HirKindV::EnumPayloadCtor { enum_sym, discriminant, payloads }, n1)
            },
            _ => if cx.check.struct_layouts@.contains_key(s) {
                let layout = cx.check.struct_layouts@[s];
                let (fs, n1) = lowered_fields(cx, layout.fields@, fields, layout.fields@.len(), n);
                (HirKindV::StructLit { sym: s, fields: fs, size: layout.size }, n1)
            } else {
                (unsupported("struct without a layout"@), n)
            },
        },
    }
}

/// The error that `?` returns: the one it met, or what the conversion noted for
/// the place makes of it.
pub open spec fn handed_on(cx: Ctx<'_, '_>, err: HirExprV, span: Span) -> HirExprV {
    if cx.check.try_conversions@.contains_key(span) {
        let c = cx.check.try_conversions@[span];
        HirExprV { kind: HirKindV::Call { callee: c.0, args: seq![err] }, ty: c.1@ }
    } else {
        err
    }
}

/// `expr?`: yields the `Ok` payload, and returns the `Err` payload from the
/// enclosing function in an `Err`, converted where a conversion is noted.
pub open spec fn tried(cx: Ctx<'_, '_>, scrutinee: HirExprV, span: Span, n: u32) -> (HirKindV, u32) {
    match scrutinee.ty {
        TyV::Enum(s, args) => if args.len() == 2 {
            match (variant_disc(cx, s, "Ok"@), variant_disc(cx, s, "Err"@)) {
                (Some(ok_disc), Some(err_disc)) => {
                    let ok_bind = SymbolId(n);
                    let err_bind = SymbolId(next_number(n));
                    let handed = handed_on(cx, HirExprV { kind: HirKindV::Local(err_bind), ty: args[1] }, span);
                    let err_value = HirExprV {
                        kind: HirKindV::EnumPayloadCtor {
                            enum_sym: s,
                            discriminant: err_disc,
                            payloads: seq![handed],
                        },
                        ty: TyV::Enum(s, seq![args[0], handed.ty]),
                    };
                    (
                        HirKindV::Match {
                            scrutinee: Box::new(scrutinee),
                            arms: seq![
                                HirArmV {
                                    patterns: seq![
                                        HirPatternV::EnumPayload {
                                            discriminant: ok_disc,
                                            bindings: seq![(args[0], Some(ok_bind))],
                                        },
                                    ],
                                    guard: None,
                                    body: HirExprV { kind: HirKindV::Local(ok_bind), ty: args[0] },
                                },
                                HirArmV {
                                    patterns: seq![
                                        HirPatternV::EnumPayload {
                                            discriminant: err_disc,
                                            bindings: seq![(args[1], Some(err_bind))],
                                        },
                                    ],
                                    guard: None,
                                    body: HirExprV {
                                        kind: HirKindV::Return(Some(Box::new(err_value))),
                                        ty: TyV::Never,
                                    },
                                },
                            ],
                        },
                        next_number(next_number(n)),
                    )
                },
                _ => (unsupported("`?` target is not Result-shaped"@), n),
            }
        } else {
            (unsupported("`?` on a non-Result"@), n)
        },
        _ => (unsupported("`?` on a non-Result"@), n),
    }
}

/// The first `k` match arms; an error when a pattern cannot be compiled.
pub open spec fn lowered_arms(
    cx: Ctx<'_, '_>,
    arms: Seq<MatchArm>,
    k: nat,
    m: Map<SymbolId, TyV>,
    n: u32,
) -> (Result<Seq<HirArmV>, Seq<char>>, u32)
    decreases arms, k,
{
    if k == 0 || k > arms.len() {
        (Ok(seq![]), n)
    } else {
        let (r, n1) = lowered_arms(cx, arms, (k - 1) as nat, m, n);
        match r {
            Err(msg) => (Err(msg), n1),
            Ok(before) => match arm_patterns(cx, arms[k - 1].pat, seq![], m) {
                Err(msg) => (Err(msg), n1),
                Ok(patterns) => {
                    let (guard, n2) = lowered_opt(cx, arms[k - 1].guard, n1);
                    let (body, n3) = lowered_expr(cx, arms[k - 1].body, n2);
                    (Ok(before.push(HirArmV { patterns, guard, body })), n3)
                },
            },
        }
    }
}

pub open spec fn lowered_opt(cx: Ctx<'_, '_>, e: Option<Expr>, n: u32) -> (Option<HirExprV>, u32)
    decreases e, 3nat,
{
    match e {
        Some(e) => {
            let (h, n1) = lowered_expr(cx, e, n);
            (Some(h), n1)
        },
        None => (None, n),
    }
}

// ---- loops ----

/// The symbol a loop pattern binds, if the pattern is a name or `_`.
pub open spec fn loop_local(cx: Ctx<'_, '_>, p: Pattern) -> Option<Option<SymbolId>> {
    match p {
        Pattern::Wildcard(_) => Some(None),
        Pattern::Ident { name, .. } => Some(lookup(cx.res.decl_to_sym@, name.span)),
        _ => None,
    }
}

/// How a loop drives an iterator: the item type, and the option enum with
/// the discriminants of its variants.
pub struct IterPlanV {
    pub item: TyV,
    pub option_sym: SymbolId,
    pub some_disc: u32,
    pub none_disc: u32,
}

/// The item type an iterator of this type yields: what a struct's iterator
/// impl binds, or a projection on a type parameter.
pub open spec fn item_ty(cx: Ctx<'_, '_>, it: TyV) -> Option<TyV> {
    match it {
        TyV::Struct(s, args) => match first_sym(cx.res.symbols@, is_trait_named(cx.res.symbols@, "Iterator"@)) {
            None => None,
            Some(t) => if cx.res.impls_for@.contains_key(s) && cx.res.impls_for@[s]@.contains(t)
                && cx.check.impl_assoc_bindings_ty@.contains_key((s, "Item"@)) {
                Some(at_use(cx, s, args, cx.check.impl_assoc_bindings_ty@[(s, "Item"@)]@))
            } else {
                None
            },
        },
        TyV::TypeVar(_) => Some(TyV::Assoc(Box::new(it), "Item"@)),
        _ => None,
    }
}

pub open spec fn iter_plan(cx: Ctx<'_, '_>, it: TyV) -> Option<IterPlanV> {
    match (item_ty(cx, it), first_sym(cx.res.symbols@, is_enum_named(cx.res.symbols@, "Option"@))) {
        (Some(item), Some(o)) => match (variant_disc(cx, o, "Some"@), variant_disc(cx, o, "None"@)) {
            (Some(some_disc), Some(none_disc)) => Some(
                IterPlanV { item, option_sym: o, some_disc, none_disc },
            ),
            _ => None,
        },
        _ => None,
    }
}

pub open spec fn unit_expr(kind: HirKindV) -> HirExprV {
    HirExprV { kind, ty: TyV::Unit }
}

/// The binding of the loop's own variable to the item.
pub open spec fn item_let(local: Option<SymbolId>, item: TyV, x: SymbolId) -> Seq<HirStmtV> {
    match local {
        Some(u) => seq![
            HirStmtV::Let(
                HirLetV {
                    sym: Some(u),
                    mutable: false,
                    ty: item,
                    init: Some(HirExprV { kind: HirKindV::Local(x), ty: item }),
                },
            ),
        ],
        None => seq![],
    }
}

/// A loop over an iterator: keep the iterator in a fresh local `it`, and
/// until `next` gives none, run the body with the item in a fresh local `x`.
pub open spec fn iterator_loop(
    plan: IterPlanV,
    iter: HirExprV,
    local: Option<SymbolId>,
    body: Seq<HirStmtV>,
    it: SymbolId,
    x: SymbolId,
) -> HirKindV {
    let next_call = HirExprV {
        kind: HirKindV::MethodCall {
            receiver: Box::new(HirExprV { kind: HirKindV::Local(it), ty: iter.ty }),
            method: "next"@,
            args: seq![],
        },
        ty: TyV::Enum(plan.option_sym, seq![plan.item]),
    };
    let some_arm = HirArmV {
        patterns: seq![
            HirPatternV::EnumPayload { discriminant: plan.some_disc, bindings: seq![(plan.item, Some(x))] },
        ],
        guard: None,
        body: unit_expr(
            HirKindV::Block(HirBlockV { stmts: item_let(local, plan.item, x) + body, ty: TyV::Unit }),
        ),
    };
    let none_arm = HirArmV {
        patterns: seq![HirPatternV::EnumPayload { discriminant: plan.none_disc, bindings: seq![] }],
        guard: None,
        body: HirExprV { kind: HirKindV::Break, ty: TyV::Never },
    };
    let step = unit_expr(HirKindV::Match { scrutinee: Box::new(next_call), arms: seq![some_arm, none_arm] });
    let repeat = unit_expr(
        HirKindV::While {
            cond: Box::new(HirExprV { kind: HirKindV::Lit(HirLitV::Bool(true)), ty: TyV::Bool }),
            body: HirBlockV { stmts: seq![HirStmtV::Expr(step, true)], ty: TyV::Unit },
        },
    );
    HirKindV::Block(
        HirBlockV {
            stmts: seq![
                HirStmtV::Let(HirLetV { sym: Some(it), mutable: true, ty: iter.ty, init: Some(iter) }),
                HirStmtV::Expr(repeat, true),
            ],
            ty: TyV::Unit,
        },
    )
}

/// A loop: counted over a range or an array, through the iterator protocol
/// otherwise.
pub open spec fn lowered_for(cx: Ctx<'_, '_>, e: Expr, n: u32) -> (HirKindV, u32)
    decreases e, 0nat,
{
    match e {
        Expr::For { pat, iter, body, .. } => match loop_local(cx, pat) {
            None => (unsupported("for-loop pattern must be an identifier or `_`"@), n),
            Some(local) => match *iter {
                Expr::Range { start, end, inclusive, .. } => {
                    let (a, n1) = lowered_bound(cx, start, n);
                    let (b, n2) = lowered_bound(cx, end, n1);
                    let (h, n3) = lowered_block(cx, body, n2);
                    (
                        HirKindV::ForRange {
                            local,
                            start: Box::new(a),
                            end: Box::new(b),
                            inclusive,
                            body: h,
                        },
                        n3,
                    )
                },
                _ => {
                    let (it, n1) = lowered_expr(cx, *iter, n);
                    match it.ty {
                        TyV::Array(elem, length) => {
                            let (h, n2) = lowered_block(cx, body, n1);
                            (
                                HirKindV::For {
                                    local,
                                    iter: Box::new(it),
                                    body: h,
                                    elem_ty: *elem,
                                    length,
                                },
                                n2,
                            )
                        },
                        _ => match iter_plan(cx, it.ty) {
                            Some(plan) => {
                                let n3 = next_number(next_number(n1));
                                let (h, n4) = lowered_block(cx, body, n3);
                                (
                                    iterator_loop(
                                        plan,
                                        it,
                                        local,
                                        h.stmts,
                                        SymbolId(n1),
                                        SymbolId(next_number(n1)),
                                    ),
                                    n4,
                                )
                            },
                            None => (
                                unsupported(
                                    "for-loop iterator must be an array, integer range, or a struct implementing `std::Iterator`"@,
                                ),
                                n1,
                            ),
                        },
                    }
                },
            },
        },
        _ => arbitrary(),
    }
}

// ---- statements ----

/// A binding: its symbol, whether it can be assigned, its type and its
/// initializer.
pub open spec fn lowered_let(cx: Ctx<'_, '_>, l: LetStmt, n: u32) -> (HirLetV, u32)
    decreases l, 1nat,
{
    let (sym, mutable) = match l.pat {
        Pattern::Ident { name, mutable, .. } => (
            lookup(cx.res.decl_to_sym@, name.span),
            l.mutable || mutable,
        ),
        _ => (None, l.mutable),
    };
    let init_ty = match l.init {
        Some(e) => view_or(cx.check.expr_types@, expr_span(e), TyV::Unit),
        None => TyV::Unit,
    };
    let ty = match sym {
        Some(s) => view_or(cx.check.local_types@, cx.res.symbols@[s.0 as int].span, init_ty),
        None => init_ty,
    };
    let (init, n1) = lowered_opt(cx, l.init, n);
    (HirLetV { sym, mutable, ty, init }, n1)
}

/// The first `k` statements, and the type of the value they leave: that of a
/// last expression without a semicolon, and unit otherwise. Nested items
/// leave no trace.
pub open spec fn lowered_stmts(cx: Ctx<'_, '_>, ss: Seq<Stmt>, k: nat, n: u32) -> (Seq<HirStmtV>, TyV, u32)
    decreases ss, k,
{
    if k == 0 || k > ss.len() {
        (seq![], TyV::Unit, n)
    } else {
        let (before, last, n1) = lowered_stmts(cx, ss, (k - 1) as nat, n);
        match ss[k - 1] {
            Stmt::Let(l) => {
                let (h, n2) = lowered_let(cx, l, n1);
                (before.push(HirStmtV::Let(h)), TyV::Unit, n2)
            },
            Stmt::Expr(e, semi) => {
                let (h, n2) = lowered_expr(cx, e, n1);
                (
                    before.push(HirStmtV::Expr(h, semi)),
                    if semi {
                        TyV::Unit
                    } else {
                        h.ty
                    },
                    n2,
                )
            },
            Stmt::Item(_) => (before, last, n1),
        }
    }
}

pub open spec fn lowered_block(cx: Ctx<'_, '_>, b: Block, n: u32) -> (HirBlockV, u32)
    decreases b, 1nat,
{
    let (stmts, ty, n1) = lowered_stmts(cx, b.stmts@, b.stmts@.len(), n);
    (HirBlockV { stmts, ty }, n1)
}

// ---- carrying it out ----

impl<'a, 's> Ctx<'a, 's> {
    fn expr_ty(&self, s: Span) -> (r: Ty)
        ensures
            r@ == expr_ty(*self, s),
    {
        match self.check.expr_types.get(&s) {
            Some(t) => t.copy(),
            None => Ty::Error,
        }
    }

    fn type_ty(&self, s: Span) -> (r: Ty)
        ensures
            r@ == type_ty(*self, s),
    {
        match self.check.type_resolutions.get(&s) {
            Some(t) => t.copy(),
            None => Ty::Error,
        }
    }

    /// What a path expression refers to.
    fn path_symbol(&self, e: &Expr) -> (r: Option<SymbolId>)
        ensures
            r == path_target(*self, *e),
    {
        match e {
            Expr::Path(p) => match self.res.path_to_sym.get(&p.span) {
                Some(s) => Some(*s),
                None => None,
            },
            _ => None,
        }
    }

    /// The symbol a name declares.
    fn declared(&self, s: Span) -> (r: Option<SymbolId>)
        ensures
            r == lookup(self.res.decl_to_sym@, s),
    {
        match self.res.decl_to_sym.get(&s) {
            Some(s) => Some(*s),
            None => None,
        }
    }

    /// The discriminant of an enum's variant, by name.
    fn enum_variant_disc(&self, enum_sym: SymbolId, name: &str) -> (r: Option<u32>)
        requires
            self.res.wf(),
        ensures
            r == variant_disc(*self, enum_sym, name@),
    {
        match self.res.enum_variants.get(&enum_sym) {
            None => None,
            Some(variants) => {
                let key = name.to_owned();
                match variants.get(&key) {
                    None => None,
                    Some(v) => match self.res.symbol(*v).kind {
                        SymbolKind::EnumVariant { discriminant, .. } => Some(discriminant),
                        _ => None,
                    },
                }
            },
        }
    }

    /// A struct's type parameters bound to type arguments.
    fn build_struct_subst(&self, s: SymbolId, args: &Vec<Ty>) -> (r: Table<SymbolId, Ty>)
        ensures
            ty_map(r@) == struct_subst(*self, s, ty_views(args@)),
    {
        match self.res.struct_generics.get(&s) {
            Some(generics) => bind(generics, args),
            None => {
                let none: Vec<SymbolId> = Vec::new();
                assert(none@ =~= seq![]);
                bind(&none, args)
            },
        }
    }

    /// An enum's type parameters bound to the arguments of a type.
    fn build_enum_subst(&self, t: &Ty) -> (r: Table<SymbolId, Ty>)
        ensures
            ty_map(r@) == scrutinee_subst(*self, t@),
    {
        match t {
            Ty::Enum(s, args) => match self.res.enum_generics.get(s) {
                Some(generics) => bind(generics, args),
                None => {
                    let none: Vec<SymbolId> = Vec::new();
                    assert(none@ =~= seq![]);
                    bind(&none, args)
                },
            },
            _ => {
                let r: Table<SymbolId, Ty> = Table::new();
                assert(ty_map(r@) =~= Map::<SymbolId, TyV>::empty());
                r
            },
        }
    }

    /// A type with its variables replaced and its projections followed.
    fn apply_subst_ty(&self, ty: &Ty, subst: &Table<SymbolId, Ty>, depth: usize) -> (r: Ty)
        ensures
            r@ == projected(*self, ty_map(subst@), ty@, depth as nat),
        decreases depth, ty,
    {
        match ty {
            Ty::TypeVar(t) => match subst.get(t) {
                Some(bound) => bound.copy(),
                None => ty.copy(),
            },
            Ty::Array(elem, n) => Ty::Array(Box::new(self.apply_subst_ty(elem, subst, depth)), *n),
            Ty::Vec(elem) => Ty::Vec(Box::new(self.apply_subst_ty(elem, subst, depth))),
            Ty::Fn { params, ret } => Ty::Fn {
                params: self.apply_subst_tys(params, subst, depth),
                ret: Box::new(self.apply_subst_ty(ret, subst, depth)),
            },
            Ty::Struct(s, args) => Ty::Struct(*s, self.apply_subst_tys(args, subst, depth)),
            Ty::Enum(s, args) => Ty::Enum(*s, self.apply_subst_tys(args, subst, depth)),
            Ty::Weak(inner) => Ty::Weak(Box::new(self.apply_subst_ty(inner, subst, depth))),
            Ty::Assoc(base, name) => {
                let new_base = self.apply_subst_ty(base, subst, depth);
                if let Ty::Struct(s, args) = &new_base {
                    if depth > 0 {
                        let key = (*s, name.clone());
                        if let Some(raw) = self.check.impl_assoc_bindings_ty.get(&key) {
                            let own = self.build_struct_subst(*s, args);
                            let inside = self.apply_subst_ty(raw, &own, depth - 1);
                            return self.apply_subst_ty(&inside, subst, depth - 1);
                        }
                    }
                }
                Ty::Assoc(Box::new(new_base), name.clone())
            },
            _ => ty.copy(),
        }
    }

    fn apply_subst_tys(&self, ts: &Vec<Ty>, subst: &Table<SymbolId, Ty>, depth: usize) -> (r: Vec<Ty>)
        ensures
            ty_views(r@) == all_projected(*self, ty_map(subst@), ty_views(ts@), depth as nat),
        decreases depth, ts,
    {
        let mut out: Vec<Ty> = Vec::new();
        let mut i: usize = 0;
        while i < ts.len()
            invariant
                i <= ts.len(),
                out.len() == i,
                forall|j: int|
                    0 <= j < i ==> ty_view(#[trigger] out[j]) == projected(
                        *self,
                        ty_map(subst@),
                        ty_view(ts[j]),
                        depth as nat,
                    ),
            decreases ts.len() - i,
        {
            out.push(self.apply_subst_ty(&ts[i], subst, depth));
            i += 1;
        }
        assert(ty_views(out@) =~= all_projected(*self, ty_map(subst@), ty_views(ts@), depth as nat));
        out
    }

    /// A type with a struct's own parameters replaced by the arguments it is
    /// used with.
    fn subst_struct_typevars(&self, s: SymbolId, args: &Vec<Ty>, ty: &Ty) -> (r: Ty)
        ensures
            r@ == at_use(*self, s, ty_views(args@), ty@),
    {
        match self.res.struct_generics.get(&s) {
            None => ty.copy(),
            Some(generics) => {
                let subst = bind(generics, args);
                self.apply_subst_ty(ty, &subst, PROJECTION_DEPTH)
            },
        }
    }
}

fn apply_subst(ty: &Ty, subst: &Table<SymbolId, Ty>) -> (r: Ty)
    ensures
        r@ == field_subst(ty_map(subst@), ty@),
    decreases ty,
{
    match ty {
        Ty::TypeVar(t) => match subst.get(t) {
            Some(bound) => bound.copy(),
            None => ty.copy(),
        },
        Ty::Array(elem, n) => Ty::Array(Box::new(apply_subst(elem, subst)), *n),
        Ty::Fn { params, ret } => Ty::Fn {
            params: apply_substs(params, subst),
            ret: Box::new(apply_subst(ret, subst)),
        },
        Ty::Struct(s, args) => Ty::Struct(*s, apply_substs(args, subst)),
        Ty::Enum(s, args) => Ty::Enum(*s, apply_substs(args, subst)),
        Ty::Weak(inner) => Ty::Weak(Box::new(apply_subst(inner, subst))),
        _ => ty.copy(),
    }
}

fn apply_substs(ts: &Vec<Ty>, subst: &Table<SymbolId, Ty>) -> (r: Vec<Ty>)
    ensures
        ty_views(r@) == field_substs(ty_map(subst@), ty_views(ts@)),
    decreases ts,
{
    let mut out: Vec<Ty> = Vec::new();
    let mut i: usize = 0;
    while i < ts.len()
        invariant
            i <= ts.len(),
            out.len() == i,
            forall|j: int|
                0 <= j < i ==> ty_view(#[trigger] out[j]) == field_subst(ty_map(subst@), ty_view(ts[j])),
        decreases ts.len() - i,
    {
        out.push(apply_subst(&ts[i], subst));
        i += 1;
    }
    assert(ty_views(out@) =~= field_substs(ty_map(subst@), ty_views(ts@)));
    out
}

fn lit_to_int_bound(lit: &Lit) -> (r: Option<i64>)
    ensures
        r == int_bound(*lit),
{
    match lit {
        Lit::Int(v, _) => Some(*v),
        Lit::Char(c) => Some(*c as u32 as i64),
        _ => None,
    }
}

fn lower_binop(op: BinOp) -> (r: HirBinOp)
    requires
        !is_logical(op),
    ensures
        r == hir_binop(op),
{
    match op {
        BinOp::Add => HirBinOp::Add,
        BinOp::Sub => HirBinOp::Sub,
        BinOp::Mul => HirBinOp::Mul,
        BinOp::Div => HirBinOp::Div,
        BinOp::Mod => HirBinOp::Mod,
        BinOp::Eq => HirBinOp::Eq,
        BinOp::Ne => HirBinOp::Ne,
        BinOp::Lt => HirBinOp::Lt,
        BinOp::Gt => HirBinOp::Gt,
        BinOp::Le => HirBinOp::Le,
        BinOp::Ge => HirBinOp::Ge,
        BinOp::BitAnd => HirBinOp::BitAnd,
        BinOp::BitOr => HirBinOp::BitOr,
        BinOp::BitXor => HirBinOp::BitXor,
        BinOp::Shl => HirBinOp::Shl,
        BinOp::Shr | BinOp::And | BinOp::Or => HirBinOp::Shr,
    }
}

fn logical_op(op: BinOp) -> (r: Option<LogicalOp>)
    ensures
        r == (match op {
            BinOp::And => Some(LogicalOp::And),
            BinOp::Or => Some(LogicalOp::Or),
            _ => None,
        }),
{
    match op {
        BinOp::And => Some(LogicalOp::And),
        BinOp::Or => Some(LogicalOp::Or),
        _ => None,
    }
}

fn lower_unop(op: UnOp) -> (r: HirUnOp)
    ensures
        r == hir_unop(op),
{
    match op {
        UnOp::Neg => HirUnOp::Neg,
        UnOp::Not => HirUnOp::Not,
        UnOp::BitNot => HirUnOp::BitNot,
    }
}

fn lower_lit(lit: &Lit, ty: &Ty) -> (r: HirLit)
    ensures
        r@ == lowered_lit(*lit, ty@),
{
    match lit {
        Lit::Int(v, _) => HirLit::Int(
            *v,
            match ty {
                Ty::Int(it) => *it,
                _ => IntTy::I64,
            },
        ),
        Lit::Float(s, _) => HirLit::Float(
            s.clone(),
            match ty {
                Ty::Float(ft) => *ft,
                _ => FloatTy::F64,
            },
        ),
        Lit::Bool(b) => HirLit::Bool(*b),
        Lit::Str(s) => HirLit::Str(s.clone()),
        Lit::Char(c) => HirLit::Char(*c),
    }
}

fn zero_expr() -> (r: HirExpr)
    ensures
        r@ == zero_i64(),
{
    HirExpr { kind: HirExprKind::Lit(HirLit::Int(0, IntTy::I64)), ty: Ty::Int(IntTy::I64) }
}

/// A message with a name quoted in the middle.
fn quoting(before: &str, name: &str, after: &str) -> (r: String)
    ensures
        r@ == before@ + name@ + after@,
{
    let mut m = before.to_owned();
    m.append(name);
    m.append(after);
    m
}

impl<'a, 's> Ctx<'a, 's> {
    fn position_binding(&self, p: &Pattern, msg: &str) -> (r: Result<Option<SymbolId>, String>)
        ensures
            match r {
                Ok(b) => position_binding(*self, *p, msg@) == Ok::<Option<SymbolId>, Seq<char>>(b),
                Err(m) => position_binding(*self, *p, msg@) == Err::<Option<SymbolId>, Seq<char>>(m@),
            },
    {
        match p {
            Pattern::Wildcard(_) => Ok(None),
            Pattern::Ident { name, .. } => Ok(self.declared(name.span)),
            _ => Err(msg.to_owned()),
        }
    }

    fn named_variant_bindings(
        &self,
        v: SymbolId,
        fields: &Vec<(Ident, Pattern)>,
        subst: &Table<SymbolId, Ty>,
    ) -> (r: Result<Vec<(Ty, Option<SymbolId>)>, String>)
        requires
            self.res.wf(),
        ensures
            match r {
                Ok(bs) => named_bindings(
                    *self,
                    field_names_of(*self, v),
                    payloads_of(*self, v),
                    fields@,
                    ty_map(subst@),
                    field_names_of(*self, v).len(),
                ) == Ok::<Seq<(TyV, Option<SymbolId>)>, Seq<char>>(bindings_view(bs@)),
                Err(m) => named_bindings(
                    *self,
                    field_names_of(*self, v),
                    payloads_of(*self, v),
                    fields@,
                    ty_map(subst@),
                    field_names_of(*self, v).len(),
                ) == Err::<Seq<(TyV, Option<SymbolId>)>, Seq<char>>(m@),
            },
    {
        let mut out: Vec<(Ty, Option<SymbolId>)> = Vec::new();
        assert(bindings_view(out@) =~= seq![]);
        let names = match self.res.enum_variant_field_names.get(&v) {
            Some(names) => names,
            None => {
                return Ok(out);
            },
        };
        let none: Vec<&'s Type> = Vec::new();
        let payloads = match self.res.enum_variant_payloads.get(&v) {
            Some(payloads) => payloads,
            None => &none,
        };
        assert(payloads@ =~= payloads_of(*self, v));
        let ghost m = ty_map(subst@);
        assert(self.res.enum_variant_field_names@[v]@ == names@);
        let mut i: usize = 0;
        while i < names.len()
            invariant
                i <= names.len(),
                names@ == field_names_of(*self, v),
                payloads@ == payloads_of(*self, v),
                m == ty_map(subst@),
                named_bindings(*self, names@, payloads@, fields@, m, i as nat) == Ok::<
                    Seq<(TyV, Option<SymbolId>)>,
                    Seq<char>,
                >(bindings_view(out@)),
            decreases names.len() - i,
        {
            let raw_ty = if i < payloads.len() {
                self.type_ty(payloads[i].span())
            } else {
                Ty::Error
            };
            let ty = apply_subst(&raw_ty, subst);
            let ghost p = pattern_field_named(fields@, names@[i as int]@);
            let mut j: usize = 0;
            let mut found: Option<usize> = None;
            while j < fields.len() && found.is_none()
                invariant
                    j <= fields.len(),
                    i < names.len(),
                    p == pattern_field_named(fields@, names@[i as int]@),
                    match found {
                        Some(f) => f < fields.len() && first_where(p, fields@.len()) == Some(f as int),
                        None => first_where(p, j as nat) is None,
                    },
                decreases fields.len() - j, found.is_none() as int,
            {
                if same_text(fields[j].0.name.as_str(), names[i].as_str()) {
                    proof {
                        found_stays(p, (j + 1) as nat, fields@.len());
                    }
                    found = Some(j);
                } else {
                    j += 1;
                }
            }
            let ghost before = bindings_view(out@);
            let binding = match found {
                Some(f) => self.position_binding(
                    &fields[f].1,
                    "named-variant payload must be an identifier or `_`",
                ),
                None => Ok(None),
            };
            match binding {
                Ok(b) => {
                    out.push((ty, b));
                    assert(bindings_view(out@) =~= before.push((ty@, b)));
                },
                Err(msg) => {
                    proof {
                        named_error_stays(*self, names@, payloads@, fields@, m, (i + 1) as nat, names@.len());
                    }
                    return Err(msg);
                },
            }
            i += 1;
        }
        Ok(out)
    }

    fn tuple_variant_bindings(
        &self,
        payloads: &Vec<&'s Type>,
        fields: &Vec<Pattern>,
        subst: &Table<SymbolId, Ty>,
    ) -> (r: Result<Vec<(Ty, Option<SymbolId>)>, String>)
        requires
            payloads.len() == fields.len(),
        ensures
            match r {
                Ok(bs) => tuple_bindings(*self, payloads@, fields@, ty_map(subst@), fields@.len()) == Ok::<
                    Seq<(TyV, Option<SymbolId>)>,
                    Seq<char>,
                >(bindings_view(bs@)),
                Err(m) => tuple_bindings(*self, payloads@, fields@, ty_map(subst@), fields@.len()) == Err::<
                    Seq<(TyV, Option<SymbolId>)>,
                    Seq<char>,
                >(m@),
            },
    {
        let mut out: Vec<(Ty, Option<SymbolId>)> = Vec::new();
        assert(bindings_view(out@) =~= seq![]);
        let ghost m = ty_map(subst@);
        let mut i: usize = 0;
        while i < fields.len()
            invariant
                i <= fields.len(),
                payloads.len() == fields.len(),
                m == ty_map(subst@),
                tuple_bindings(*self, payloads@, fields@, m, i as nat) == Ok::<
                    Seq<(TyV, Option<SymbolId>)>,
                    Seq<char>,
                >(bindings_view(out@)),
            decreases fields.len() - i,
        {
            let raw_ty = self.type_ty(payloads[i].span());
            let ty = apply_subst(&raw_ty, subst);
            let ghost before = bindings_view(out@);
            match self.position_binding(&fields[i], "tuple-variant payload must be an identifier or `_`") {
                Ok(b) => {
                    out.push((ty, b));
                    assert(bindings_view(out@) =~= before.push((ty@, b)));
                },
                Err(msg) => {
                    proof {
                        tuple_error_stays(*self, payloads@, fields@, m, (i + 1) as nat, fields@.len());
                    }
                    return Err(msg);
                },
            }
            i += 1;
        }
        Ok(out)
    }

    /// Appends the alternatives a pattern stands for.
    fn collect_arm_patterns(
        &self,
        pat: &Pattern,
        out: &mut Vec<HirPattern>,
        subst: &Table<SymbolId, Ty>,
    ) -> (r: Result<(), String>)
        requires
            self.res.wf(),
        ensures
            match r {
                Ok(_) => arm_patterns(*self, *pat, pattern_views(old(out)@), ty_map(subst@)) == Ok::<
                    Seq<HirPatternV>,
                    Seq<char>,
                >(pattern_views(final(out)@)),
                Err(m) => arm_patterns(*self, *pat, pattern_views(old(out)@), ty_map(subst@)) == Err::<
                    Seq<HirPatternV>,
                    Seq<char>,
                >(m@),
            },
        decreases pat,
    {
        match pat {
            Pattern::Wildcard(_) => push_pattern(out, HirPattern::Wildcard),
            Pattern::Ident { name, .. } => match self.declared(name.span) {
                Some(s) => push_pattern(out, HirPattern::Bind(s)),
                None => {
                    return Err("match ident pattern lost its binding".to_owned());
                },
            },
            Pattern::Literal { lit, .. } => match lit {
                Lit::Int(v, _) => push_pattern(out, HirPattern::IntLit(*v)),
                Lit::Bool(b) => push_pattern(out, HirPattern::BoolLit(*b)),
                Lit::Str(t) => push_pattern(out, HirPattern::StrLit(t.clone())),
                Lit::Char(c) => push_pattern(out, HirPattern::IntLit(*c as u32 as i64)),
                Lit::Float(_, _) => {
                    return Err("match on this literal kind".to_owned());
                },
            },
            Pattern::Path { path, .. } => match self.res.path_to_sym.get(&path.span) {
                None => {
                    return Err("match path pattern didn't resolve".to_owned());
                },
                Some(sid) => match self.res.symbol(*sid).kind {
                    SymbolKind::EnumVariant { discriminant, .. } => push_pattern(
                        out,
                        HirPattern::EnumVariant { discriminant },
                    ),
                    _ => {
                        return Err("match path didn't resolve to an enum variant".to_owned());
                    },
                },
            },
            Pattern::Range { lo, hi, inclusive, .. } => match (lit_to_int_bound(lo), lit_to_int_bound(hi)) {
                (Some(l), Some(h)) => push_pattern(
                    out,
                    HirPattern::IntRange { lo: l, hi: h, inclusive: *inclusive },
                ),
                _ => {
                    return Err("range pattern bound must be int or char".to_owned());
                },
            },
            Pattern::NamedVariant { path, fields, .. } => match self.res.path_to_sym.get(&path.span) {
                None => {
                    return Err("named-variant pattern didn't resolve".to_owned());
                },
                Some(sid) => match self.res.symbol(*sid).kind {
                    SymbolKind::EnumVariant { discriminant, .. } => {
                        match self.named_variant_bindings(*sid, fields, subst) {
                            Ok(bindings) => push_pattern(
                                out,
                                HirPattern::EnumPayload { discriminant, bindings },
                            ),
                            Err(msg) => {
                                return Err(msg);
                            },
                        }
                    },
                    _ => {
                        return Err("named-variant pattern path is not an enum variant".to_owned());
                    },
                },
            },
            Pattern::TupleVariant { path, fields, .. } => match self.res.path_to_sym.get(&path.span) {
                None => {
                    return Err("tuple-variant pattern didn't resolve".to_owned());
                },
                Some(sid) => match self.res.symbol(*sid).kind {
                    SymbolKind::EnumVariant { discriminant, .. } => {
                        let none: Vec<&'s Type> = Vec::new();
                        let payloads = match self.res.enum_variant_payloads.get(sid) {
                            Some(p) => p,
                            None => &none,
                        };
                        assert(payloads@ =~= payloads_of(*self, *sid));
                        if fields.len() != payloads.len() {
                            return Err(arity_error(payloads.len(), fields.len()));
                        }
                        match self.tuple_variant_bindings(payloads, fields, subst) {
                            Ok(bindings) => push_pattern(
                                out,
                                HirPattern::EnumPayload { discriminant, bindings },
                            ),
                            Err(msg) => {
                                return Err(msg);
                            },
                        }
                    },
                    _ => {
                        return Err("tuple-variant pattern path is not an enum variant".to_owned());
                    },
                },
            },
            Pattern::Or { patterns, .. } => {
                let ghost acc = pattern_views(out@);
                let ghost m = ty_map(subst@);
                let mut i: usize = 0;
                while i < patterns.len()
                    invariant
                        i <= patterns.len(),
                        self.res.wf(),
                        m == ty_map(subst@),
                        acc == pattern_views(old(out)@),
                        arms_of_all(*self, patterns@, acc, m, i as nat) == Ok::<Seq<HirPatternV>, Seq<char>>(
                            pattern_views(out@),
                        ),
                        *pat is Or,
                        pat->Or_patterns == *patterns,
                    decreases patterns.len() - i,
                {
                    match self.collect_arm_patterns(&patterns[i], out, subst) {
                        Ok(_) => {},
                        Err(msg) => {
                            proof {
                                alternatives_error_stays(
                                    *self,
                                    patterns@,
                                    acc,
                                    m,
                                    (i + 1) as nat,
                                    patterns@.len(),
                                );
                            }
                            return Err(msg);
                        },
                    }
                    i += 1;
                }
            },
            Pattern::Tuple { .. } => {
                return Err("match on a tuple pattern".to_owned());
            },
        }
        Ok(())
    }
}

fn push_pattern(out: &mut Vec<HirPattern>, p: HirPattern)
    ensures
        pattern_views(final(out)@) == pattern_views(old(out)@).push(p@),
{
    out.push(p);
    assert(pattern_views(out@) =~= pattern_views(old(out)@).push(p@));
}

fn arity_error(want: usize, got: usize) -> (r: String)
    ensures
        r@ == arity_message(want as nat, got as nat),
{
    let mut m = "variant takes ".to_owned();
    push_dec(&mut m, want as u64);
    m.append(" payload");
    if want == 1 {
        m.append("");
    } else {
        m.append("s");
    }
    m.append(", found ");
    push_dec(&mut m, got as u64);
    m
}

proof fn named_error_stays(
    cx: Ctx<'_, '_>,
    names: Seq<String>,
    payloads: Seq<&Type>,
    fields: Seq<(Ident, Pattern)>,
    m: Map<SymbolId, TyV>,
    i: nat,
    k: nat,
)
    requires
        i <= k <= names.len(),
        named_bindings(cx, names, payloads, fields, m, i) is Err,
    ensures
        named_bindings(cx, names, payloads, fields, m, k) == named_bindings(cx, names, payloads, fields, m, i),
    decreases k,
{
    if i < k {
        named_error_stays(cx, names, payloads, fields, m, i, (k - 1) as nat);
    }
}

proof fn tuple_error_stays(
    cx: Ctx<'_, '_>,
    payloads: Seq<&Type>,
    fields: Seq<Pattern>,
    m: Map<SymbolId, TyV>,
    i: nat,
    k: nat,
)
    requires
        i <= k <= fields.len(),
        tuple_bindings(cx, payloads, fields, m, i) is Err,
    ensures
        tuple_bindings(cx, payloads, fields, m, k) == tuple_bindings(cx, payloads, fields, m, i),
    decreases k,
{
    if i < k {
        tuple_error_stays(cx, payloads, fields, m, i, (k - 1) as nat);
    }
}

proof fn alternatives_error_stays(
    cx: Ctx<'_, '_>,
    ps: Seq<Pattern>,
    acc: Seq<HirPatternV>,
    m: Map<SymbolId, TyV>,
    i: nat,
    k: nat,
)
    requires
        i <= k <= ps.len(),
        arms_of_all(cx, ps, acc, m, i) is Err,
    ensures
        arms_of_all(cx, ps, acc, m, k) == arms_of_all(cx, ps, acc, m, i),
    decreases k,
{
    if i < k {
        alternatives_error_stays(cx, ps, acc, m, i, (k - 1) as nat);
    }
}

pub struct Lowerer<'a, 's> {
    cx: Ctx<'a, 's>,
    /// The next fresh symbol for bindings that lowering introduces. It starts
    /// past every resolved symbol.
    next_sym: u32,
}

impl<'a, 's> Lowerer<'a, 's> {
    pub closed spec fn ctx(self) -> Ctx<'a, 's> {
        self.cx
    }

    /// The next fresh symbol.
    pub closed spec fn fresh(self) -> u32 {
        self.next_sym
    }

    pub fn new(res: &'a Resolutions<'s>, check: &'a CheckResults) -> (r: Self)
        ensures
            r.ctx() == (Ctx { res, check }),
            r.fresh() == res.symbols@.len() as u32,
    {
        Lowerer { cx: Ctx { res, check }, next_sym: res.symbols.len() as u32 }
    }

    /// Takes a fresh symbol for an introduced binding.
    fn fresh_sym(&mut self) -> (r: SymbolId)
        ensures
            final(self).cx == old(self).cx,
            r == SymbolId(old(self).next_sym),
            final(self).next_sym == next_number(old(self).next_sym),
    {
        let n = self.next_sym;
        self.next_sym = n.wrapping_add(1);
        SymbolId(n)
    }

    fn lower_expr(&mut self, e: &Expr) -> (r: HirExpr)
        requires
            old(self).cx.res.wf(),
        ensures
            final(self).cx == old(self).cx,
            (r@, final(self).next_sym) == lowered_expr(old(self).cx, *e, old(self).next_sym),
        decreases e, 3nat,
    {
        let span = e.span();
        let ty = self.cx.expr_ty(span);
        let kind = self.lower_expr_kind(e);
        let inner = mk_expr(kind, ty);
        match self.cx.check.dyn_coercions.get(&span) {
            Some(c) => {
                let boxed = HirExprKind::DynBox { value: Box::new(inner), struct_sym: c.0, trait_sym: c.1 };
                mk_expr(boxed, Ty::Dyn(c.1, copy_tys(&c.2)))
            },
            None => inner,
        }
    }

    fn lower_exprs(&mut self, es: &Vec<Expr>) -> (r: Vec<HirExpr>)
        requires
            old(self).cx.res.wf(),
        ensures
            final(self).cx == old(self).cx,
            (expr_views(r@), final(self).next_sym) == lowered_exprs(
                old(self).cx,
                es@,
                es@.len(),
                old(self).next_sym,
            ),
        decreases es, 0nat,
    {
        let mut out: Vec<HirExpr> = Vec::new();
        assert(expr_views(out@) =~= seq![]);
        let mut i: usize = 0;
        while i < es.len()
            invariant
                i <= es.len(),
                self.cx == old(self).cx,
                self.cx.res.wf(),
                (expr_views(out@), self.next_sym) == lowered_exprs(old(self).cx, es@, i as nat, old(self).next_sym),
            decreases es.len() - i,
        {
            let ghost before = expr_views(out@);
            let h = self.lower_expr(&es[i]);
            out.push(h);
            assert(expr_views(out@) =~= before.push(h@));
            i += 1;
        }
        out
    }

    fn lower_bound(&mut self, b: &Option<Box<Expr>>) -> (r: HirExpr)
        requires
            old(self).cx.res.wf(),
        ensures
            final(self).cx == old(self).cx,
            (r@, final(self).next_sym) == lowered_bound(old(self).cx, *b, old(self).next_sym),
        decreases b, 3nat,
    {
        match b {
            Some(e) => self.lower_expr(e),
            None => zero_expr(),
        }
    }

    fn lower_opt(&mut self, e: &Option<Expr>) -> (r: Option<HirExpr>)
        requires
            old(self).cx.res.wf(),
        ensures
            final(self).cx == old(self).cx,
            lowered_opt(old(self).cx, *e, old(self).next_sym) == (
                match r {
                    Some(h) => Some(h@),
                    None => None,
                },
                final(self).next_sym,
            ),
        decreases e, 3nat,
    {
        match e {
            Some(e) => Some(self.lower_expr(e)),
            None => None,
        }
    }

    fn lower_expr_kind(&mut self, e: &Expr) -> (r: HirExprKind)
        requires
            old(self).cx.res.wf(),
        ensures
            final(self).cx == old(self).cx,
            (r@, final(self).next_sym) == lowered_kind(old(self).cx, *e, old(self).next_sym),
        decreases e, 2nat,
    {
        match e {
            Expr::Lit { lit, .. } => {
                let ty = self.cx.expr_ty(e.span());
                HirExprKind::Lit(lower_lit(lit, &ty))
            },
            Expr::Path(p) => self.lower_path(p),
            Expr::Unary { op, expr, .. } => HirExprKind::Unary {
                op: lower_unop(*op),
                expr: Box::new(self.lower_expr(expr)),
            },
            Expr::Binary { op, lhs, rhs, .. } => {
                let l = self.lower_expr(lhs);
                let r = self.lower_expr(rhs);
                match logical_op(*op) {
                    Some(lop) => HirExprKind::Logical { op: lop, lhs: Box::new(l), rhs: Box::new(r) },
                    None => HirExprKind::Binary { op: lower_binop(*op), lhs: Box::new(l), rhs: Box::new(r) },
                }
            },
            Expr::Assign { .. } => self.lower_assign(e),
            Expr::AssignOp { op, lhs, rhs, .. } => match self.cx.path_symbol(lhs) {
                Some(sym) => match logical_op(*op) {
                    Some(_) => HirExprKind::Unsupported(
                        "compound assignment with a short-circuit operator".to_owned(),
                    ),
                    None => HirExprKind::AssignOp {
                        lhs: sym,
                        op: lower_binop(*op),
                        rhs: Box::new(self.lower_expr(rhs)),
                    },
                },
                None => HirExprKind::Unsupported(
                    "compound assignment target other than a local binding".to_owned(),
                ),
            },
            Expr::Call { .. } => self.lower_call(e),
            Expr::Block(b) => HirExprKind::Block(self.lower_block(b)),
            Expr::If { cond, then_branch, else_branch, .. } => {
                let c = self.lower_expr(cond);
                let t = self.lower_block(then_branch);
                let eb = match else_branch {
                    Some(x) => Some(Box::new(self.lower_expr(x))),
                    None => None,
                };
                HirExprKind::If { cond: Box::new(c), then_b: t, else_b: eb }
            },
            Expr::While { cond, body, .. } => {
                let c = self.lower_expr(cond);
                let b = self.lower_block(body);
                HirExprKind::While { cond: Box::new(c), body: b }
            },
            Expr::Return { value, .. } => HirExprKind::Return(
                match value {
                    Some(v) => Some(Box::new(self.lower_expr(v))),
                    None => None,
                },
            ),
            Expr::Break(_) => HirExprKind::Break,
            Expr::Continue(_) => HirExprKind::Unsupported("continue".to_owned()),
            Expr::MethodCall { .. } => self.lower_method_call(e),
            Expr::StructLit { path, fields, .. } => self.lower_struct_lit(path, fields),
            Expr::Field { receiver, name, .. } => {
                let recv = self.lower_expr(receiver);
                self.lower_field_access(recv, name.name.as_str())
            },
            Expr::Index { .. } => self.lower_index(e),
            Expr::Try { expr, span } => {
                let scrutinee = self.lower_expr(expr);
                self.lower_try(scrutinee, *span)
            },
            Expr::Cast { expr, .. } => HirExprKind::Cast { expr: Box::new(self.lower_expr(expr)) },
            Expr::Array { elems, .. } => {
                let hs = self.lower_exprs(elems);
                let elem_ty = if hs.len() > 0 {
                    hs[0].ty.copy()
                } else {
                    Ty::Error
                };
                assert(expr_views(hs@).len() == hs@.len());
                HirExprKind::Array { elems: hs, elem_ty }
            },
            Expr::For { .. } => self.lower_for(e),
            Expr::Match { scrutinee, arms, .. } => {
                let scrut = self.lower_expr(scrutinee);
                let subst = self.cx.build_enum_subst(&scrut.ty);
                match self.lower_arms(arms, &subst) {
                    Ok(hs) => HirExprKind::Match { scrutinee: Box::new(scrut), arms: hs },
                    Err(msg) => HirExprKind::Unsupported(msg),
                }
            },
            Expr::Range { .. } => HirExprKind::Unsupported(
                "range expressions are only supported inside string slicing (e.g. `s[a..b]`)".to_owned(),
            ),
            Expr::TupleIndex { .. } => HirExprKind::Unsupported("tuple index".to_owned()),
            Expr::Tuple { .. } => HirExprKind::Unsupported("tuple".to_owned()),
            Expr::Closure { .. } => HirExprKind::Unsupported("closure".to_owned()),
        }
    }

    /// Assignment to a local or a field.
    fn lower_assign(&mut self, e: &Expr) -> (r: HirExprKind)
        requires
            old(self).cx.res.wf(),
            e is Assign,
        ensures
            final(self).cx == old(self).cx,
            (r@, final(self).next_sym) == lowered_kind(old(self).cx, *e, old(self).next_sym),
        decreases e, 1nat,
    {
        match e {
            Expr::Assign { lhs, rhs, .. } => match &**lhs {
                Expr::Field { receiver, name, .. } => {
                    let recv = self.lower_expr(receiver);
                    let slot = match &recv.ty {
                        Ty::Struct(s, args) => match self.field_slot(*s, name.name.as_str()) {
                            Some(f) => {
                                let subst = self.cx.build_struct_subst(*s, args);
                                (f.offset, apply_subst(&f.ty, &subst))
                            },
                            None => {
                                return HirExprKind::Unsupported(
                                    quoting("no field `", name.name.as_str(), "` on struct"),
                                );
                            },
                        },
                        _ => {
                            return HirExprKind::Unsupported("field assignment on non-struct".to_owned());
                        },
                    };
                    let value = self.lower_expr(rhs);
                    HirExprKind::FieldAssign {
                        receiver: Box::new(recv),
                        offset: slot.0,
                        field_ty: slot.1,
                        rhs: Box::new(value),
                    }
                },
                _ => match self.cx.path_symbol(lhs) {
                    Some(sym) => HirExprKind::Assign { lhs: sym, rhs: Box::new(self.lower_expr(rhs)) },
                    None => HirExprKind::Unsupported(
                        "assignment target other than a local binding or field".to_owned(),
                    ),
                },
            },
            _ => HirExprKind::Break,
        }
    }

    /// A call, by what its callee names.
    fn lower_call(&mut self, e: &Expr) -> (r: HirExprKind)
        requires
            old(self).cx.res.wf(),
            e is Call,
        ensures
            final(self).cx == old(self).cx,
            (r@, final(self).next_sym) == lowered_kind(old(self).cx, *e, old(self).next_sym),
        decreases e, 1nat,
    {
        match e {
            Expr::Call { callee, args, .. } => match self.cx.path_symbol(callee) {
                Some(sym) => match &self.cx.res.symbol(sym).kind {
                    SymbolKind::Fn => HirExprKind::Call { callee: sym, args: self.lower_exprs(args) },
                    SymbolKind::BuiltinFn(bf) => HirExprKind::BuiltinCall {
                        name: bf.name.to_owned(),
                        args: self.lower_exprs(args),
                    },
                    SymbolKind::PolyBuiltinFn(name) => {
                        let hs = self.lower_exprs(args);
                        lower_poly_call(name, hs)
                    },
                    SymbolKind::EnumVariant { enum_sym, discriminant } => HirExprKind::EnumPayloadCtor {
                        enum_sym: *enum_sym,
                        discriminant: *discriminant,
                        payloads: self.lower_exprs(args),
                    },
                    SymbolKind::Local { .. } => self.lower_value_call(e),
                    SymbolKind::Param => self.lower_value_call(e),
                    _ => HirExprKind::Unsupported("call target other than a named function".to_owned()),
                },
                None => self.lower_value_call(e),
            },
            _ => HirExprKind::Break,
        }
    }

    /// A method call, by what its receiver is.
    fn lower_method_call(&mut self, e: &Expr) -> (r: HirExprKind)
        requires
            old(self).cx.res.wf(),
            e is MethodCall,
        ensures
            final(self).cx == old(self).cx,
            (r@, final(self).next_sym) == lowered_kind(old(self).cx, *e, old(self).next_sym),
        decreases e, 1nat,
    {
        match e {
            Expr::MethodCall { receiver, method, args, .. } => {
                let recv = self.lower_expr(receiver);
                let target = self.find_method(&recv, method.name.as_str());
                match target {
                    CallTarget::Iter(kind) => kind,
                    CallTarget::Dyn(trait_sym) => HirExprKind::DynCall {
                        receiver: Box::new(recv),
                        trait_sym,
                        method: method.name.clone(),
                        args: self.lower_exprs(args),
                    },
                    CallTarget::Fn(callee) => {
                        let mut hs = self.lower_exprs(args);
                        let ghost given = expr_views(hs@);
                        let ghost first = recv@;
                        let mut call_args: Vec<HirExpr> = Vec::new();
                        call_args.push(recv);
                        call_args.append(&mut hs);
                        assert(expr_views(call_args@) =~= seq![first] + given);
                        HirExprKind::Call { callee, args: call_args }
                    },
                    CallTarget::Builtin => HirExprKind::MethodCall {
                        receiver: Box::new(recv),
                        method: method.name.clone(),
                        args: self.lower_exprs(args),
                    },
                }
            },
            _ => HirExprKind::Break,
        }
    }

    /// Indexing a string or an array.
    fn lower_index(&mut self, e: &Expr) -> (r: HirExprKind)
        requires
            old(self).cx.res.wf(),
            e is Index,
        ensures
            final(self).cx == old(self).cx,
            (r@, final(self).next_sym) == lowered_kind(old(self).cx, *e, old(self).next_sym),
        decreases e, 1nat,
    {
        match e {
            Expr::Index { receiver, index, .. } => {
                let recv = self.lower_expr(receiver);
                let is_str = match recv.ty {
                    Ty::Str => true,
                    _ => false,
                };
                if is_str {
                    match &**index {
                        Expr::Range { start, end, inclusive, .. } => {
                            let a = self.lower_bound(start);
                            let b = self.lower_bound(end);
                            HirExprKind::StrSlice {
                                str_val: Box::new(recv),
                                start: Box::new(a),
                                end: Box::new(b),
                                inclusive: *inclusive,
                            }
                        },
                        _ => {
                            let i = self.lower_expr(index);
                            HirExprKind::StrByteIndex { str_val: Box::new(recv), index: Box::new(i) }
                        },
                    }
                } else {
                    let i = self.lower_expr(index);
                    let elem_ty = match &recv.ty {
                        Ty::Array(elem, _) => elem.copy(),
                        _ => Ty::Error,
                    };
                    HirExprKind::Index { array: Box::new(recv), index: Box::new(i), elem_ty }
                }
            },
            _ => HirExprKind::Break,
        }
    }

    fn lower_path(&self, p: &Path) -> (r: HirExprKind)
        requires
            self.cx.res.wf(),
        ensures
            r@ == lowered_path(self.cx, *p),
    {
        match self.cx.res.path_to_sym.get(&p.span) {
            None => HirExprKind::Unsupported("unresolved path".to_owned()),
            Some(s) => match self.cx.res.symbol(*s).kind {
                SymbolKind::Local { .. } => HirExprKind::Local(*s),
                SymbolKind::Param => HirExprKind::Local(*s),
                SymbolKind::Const => HirExprKind::Local(*s),
                SymbolKind::Fn => HirExprKind::Fn(*s),
                SymbolKind::EnumVariant { discriminant, .. } => HirExprKind::EnumVariant { discriminant },
                _ => HirExprKind::Unsupported("type name used as value".to_owned()),
            },
        }
    }

    fn field_slot(&self, s: SymbolId, name: &str) -> (r: Option<&StructLayoutField>)
        ensures
            match r {
                Some(f) => field_at(self.cx, s, name@) == Some(*f),
                None => field_at(self.cx, s, name@) is None,
            },
    {
        match self.cx.check.struct_layouts.get(&s) {
            Some(layout) => layout.field(name),
            None => None,
        }
    }

    fn lower_field_access(&self, recv: HirExpr, name: &str) -> (r: HirExprKind)
        ensures
            r@ == accessed(self.cx, recv@, name@),
    {
        let slot = match &recv.ty {
            Ty::Struct(s, args) => {
                if !self.cx.check.struct_layouts.contains(s) {
                    return HirExprKind::Unsupported("struct without a layout".to_owned());
                }
                match self.field_slot(*s, name) {
                    Some(f) => {
                        let subst = self.cx.build_struct_subst(*s, args);
                        (f.offset, apply_subst(&f.ty, &subst))
                    },
                    None => {
                        return HirExprKind::Unsupported(quoting("no field `", name, "`"));
                    },
                }
            },
            _ => {
                return HirExprKind::Unsupported("field access on non-struct".to_owned());
            },
        };
        HirExprKind::FieldAccess { receiver: Box::new(recv), offset: slot.0, field_ty: slot.1 }
    }

    fn lower_value_call(&mut self, e: &Expr) -> (r: HirExprKind)
        requires
            old(self).cx.res.wf(),
            e is Call,
        ensures
            final(self).cx == old(self).cx,
            (r@, final(self).next_sym) == lowered_value_call(old(self).cx, *e, old(self).next_sym),
        decreases e, 0nat,
    {
        match e {
            Expr::Call { callee, args, .. } => {
                let c = self.lower_expr(callee);
                let is_fn = match &c.ty {
                    Ty::Fn { .. } => true,
                    _ => false,
                };
                if is_fn {
                    let hs = self.lower_exprs(args);
                    HirExprKind::IndirectCall { callee: Box::new(c), args: hs }
                } else {
                    HirExprKind::Unsupported("call target other than a named function".to_owned())
                }
            },
            _ => HirExprKind::Break,
        }
    }

    fn find_method(&self, recv: &HirExpr, method: &str) -> (r: CallTarget)
        ensures
            target_view(r) == method_target(self.cx, recv@, method@),
    {
        match &recv.ty {
            Ty::Dyn(t, _) => CallTarget::Dyn(*t),
            Ty::Vec(_) => {
                if same_text(method, "iter") {
                    match self.lower_vec_iter(recv) {
                        Some(kind) => CallTarget::Iter(kind),
                        None => CallTarget::Builtin,
                    }
                } else {
                    CallTarget::Builtin
                }
            },
            Ty::Struct(s, _) => {
                let key = (*s, method.to_owned());
                match self.cx.res.impl_methods.get(&key) {
                    Some(f) => CallTarget::Fn(*f),
                    None => CallTarget::Builtin,
                }
            },
            _ => CallTarget::Builtin,
        }
    }

    /// The literal that builds a vector's iterator.
    fn lower_vec_iter(&self, recv: &HirExpr) -> (r: Option<HirExprKind>)
        ensures
            match r {
                Some(k) => vec_iter(self.cx, recv@) == Some(k@),
                None => vec_iter(self.cx, recv@) is None,
            },
    {
        let sym = match self.cx.res.find_struct_sym("VecIter") {
            Some(s) => s,
            None => {
                return None;
            },
        };
        let layout = match self.cx.check.struct_layouts.get(&sym) {
            Some(l) => l,
            None => {
                return None;
            },
        };
        let vec_offset = match layout.field("vec") {
            Some(f) => f.offset,
            None => {
                return None;
            },
        };
        let idx_offset = match layout.field("idx") {
            Some(f) => f.offset,
            None => {
                return None;
            },
        };
        let mut fields: Vec<(u32, HirExpr)> = Vec::new();
        assert(field_views(fields@) =~= seq![]);
        let mut i: usize = 0;
        while i < layout.fields.len()
            invariant
                i <= layout.fields.len(),
                first_sym(self.cx.res.symbols@, is_struct_named(self.cx.res.symbols@, "VecIter"@)) == Some(sym),
                self.cx.check.struct_layouts@.contains_key(sym),
                *layout == self.cx.check.struct_layouts@[sym],
                field_index(layout.fields@, "vec"@) matches Some(v) && layout.fields@[v].offset == vec_offset,
                field_index(layout.fields@, "idx"@) matches Some(v) && layout.fields@[v].offset == idx_offset,
                iter_fields(layout.fields@, vec_offset, idx_offset, recv@, i as nat) == Some(field_views(fields@)),
            decreases layout.fields.len() - i,
        {
            let name = layout.fields[i].name.as_str();
            let ghost before = field_views(fields@);
            if same_text(name, "vec") {
                let copy = HirExpr { kind: copy_kind(&recv.kind), ty: recv.ty.copy() };
                fields.push((vec_offset, copy));
                assert(field_views(fields@) =~= before.push((vec_offset, recv@)));
            } else if same_text(name, "idx") {
                let zero = zero_expr();
                fields.push((idx_offset, zero));
                assert(field_views(fields@) =~= before.push((idx_offset, zero_i64())));
            } else {
                proof {
                    iter_mismatch_stays(
                        layout.fields@,
                        vec_offset,
                        idx_offset,
                        recv@,
                        (i + 1) as nat,
                        layout.fields@.len(),
                    );
                }
                return None;
            }
            i += 1;
        }
        Some(HirExprKind::StructLit { sym, fields, size: layout.size })
    }

    fn lower_init(&mut self, fields: &Vec<FieldInit>, name: &str, ty: Ty) -> (r: HirExpr)
        requires
            old(self).cx.res.wf(),
        ensures
            final(self).cx == old(self).cx,
            (r@, final(self).next_sym) == lowered_init(old(self).cx, fields@, name@, ty@, old(self).next_sym),
        decreases fields, 0nat,
    {
        let ghost p = init_named(fields@, name@);
        let mut i: usize = 0;
        while i < fields.len()
            invariant
                i <= fields.len(),
                *self == *old(self),
                self.cx.res.wf(),
                p == init_named(fields@, name@),
                first_where(p, i as nat) is None,
            decreases fields.len() - i,
        {
            if same_text(fields[i].name.name.as_str(), name) {
                proof {
                    found_stays(p, (i + 1) as nat, fields@.len());
                }
                return self.lower_expr(&fields[i].value);
            }
            i += 1;
        }
        HirExpr {
            kind: HirExprKind::Unsupported(quoting("missing field `", name, "` (caught by checker)")),
            ty,
        }
    }

    fn lower_struct_lit(&mut self, path: &Path, fields: &Vec<FieldInit>) -> (r: HirExprKind)
        requires
            old(self).cx.res.wf(),
        ensures
            final(self).cx == old(self).cx,
            (r@, final(self).next_sym) == lowered_struct_lit(old(self).cx, *path, fields@, old(self).next_sym),
        decreases fields, 1nat,
    {
        let cx = self.cx;
        let sym = match cx.res.path_to_sym.get(&path.span) {
            None => {
                return HirExprKind::Unsupported("unresolved struct in literal".to_owned());
            },
            Some(s) => *s,
        };
        if let SymbolKind::EnumVariant { enum_sym, discriminant } = cx.res.symbol(sym).kind {
            let none: Vec<String> = Vec::new();
            let names = match cx.res.enum_variant_field_names.get(&sym) {
                Some(names) => names,
                None => &none,
            };
            assert(names@ =~= field_names_of(cx, sym));
            let mut payloads: Vec<HirExpr> = Vec::new();
            assert(expr_views(payloads@) =~= seq![]);
            let mut i: usize = 0;
            while i < names.len()
                invariant
                    i <= names.len(),
                    self.cx == old(self).cx,
                    self.cx.res.wf(),
                    (expr_views(payloads@), self.next_sym) == lowered_payloads(
                        old(self).cx,
                        names@,
                        fields@,
                        i as nat,
                        old(self).next_sym,
                    ),
                decreases names.len() - i,
            {
                let ghost before = expr_views(payloads@);
                let h = self.lower_init(fields, names[i].as_str(), Ty::Error);
                payloads.push(h);
                assert(expr_views(payloads@) =~= before.push(h@));
                i += 1;
            }
            return HirExprKind::EnumPayloadCtor { enum_sym, discriminant, payloads };
        }
        let layout = match cx.check.struct_layouts.get(&sym) {
            None => {
                return HirExprKind::Unsupported("struct without a layout".to_owned());
            },
            Some(l) => l,
        };
        let mut out: Vec<(u32, HirExpr)> = Vec::new();
        assert(field_views(out@) =~= seq![]);
        let mut i: usize = 0;
        while i < layout.fields.len()
            invariant
                i <= layout.fields.len(),
                self.cx == old(self).cx,
                self.cx.res.wf(),
                (field_views(out@), self.next_sym) == lowered_fields(
                    old(self).cx,
                    layout.fields@,
                    fields@,
                    i as nat,
                    old(self).next_sym,
                ),
            decreases layout.fields.len() - i,
        {
            let ghost before = field_views(out@);
            let decl = &layout.fields[i];
            let h = self.lower_init(fields, decl.name.as_str(), decl.ty.copy());
            out.push((decl.offset, h));
            assert(field_views(out@) =~= before.push((decl.offset, h@)));
            i += 1;
        }
        HirExprKind::StructLit { sym, fields: out, size: layout.size }
    }

    /// Turns `expr?` into a match on the two variants.
    /// The error that `?` returns, converted where that is noted.
    fn lower_handed_on(&self, err: HirExpr, span: Span) -> (r: HirExpr)
        ensures
            r@ == handed_on(self.cx, err@, span),
    {
        match self.cx.check.try_conversions.get(&span) {
            Some(c) => {
                let mut args: Vec<HirExpr> = Vec::new();
                let ghost ev = err@;
                args.push(err);
                assert(expr_views(args@) =~= seq![ev]);
                mk_expr(HirExprKind::Call { callee: c.0, args }, c.1.copy())
            },
            None => err,
        }
    }

    fn lower_try(&mut self, scrutinee: HirExpr, span: Span) -> (r: HirExprKind)
        requires
            old(self).cx.res.wf(),
        ensures
            final(self).cx == old(self).cx,
            (r@, final(self).next_sym) == tried(old(self).cx, scrutinee@, span, old(self).next_sym),
    {
        let ghost sv = scrutinee@;
        let ghost n0 = self.next_sym;
        let parts = match &scrutinee.ty {
            Ty::Enum(s, args) => {
                assert(ty_views(args@).len() == args@.len());
                if args.len() == 2 {
                    Some((*s, args[0].copy(), args[1].copy()))
                } else {
                    None
                }
            },
            _ => None,
        };
        let (rsym, ok_ty, err_ty) = match parts {
            Some(p) => p,
            None => {
                return HirExprKind::Unsupported("`?` on a non-Result".to_owned());
            },
        };
        let (ok_disc, err_disc) = match (
            self.cx.enum_variant_disc(rsym, "Ok"),
            self.cx.enum_variant_disc(rsym, "Err"),
        ) {
            (Some(a), Some(b)) => (a, b),
            _ => {
                return HirExprKind::Unsupported("`?` target is not Result-shaped".to_owned());
            },
        };
        let ok_bind = self.fresh_sym();
        let err_bind = self.fresh_sym();
        let ok_arm = arm(
            payload_pattern(ok_disc, ok_ty.copy(), ok_bind),
            mk_expr(HirExprKind::Local(ok_bind), ok_ty.copy()),
        );
        let mut payloads: Vec<HirExpr> = Vec::new();
        let handed = self.lower_handed_on(mk_expr(HirExprKind::Local(err_bind), err_ty.copy()), span);
        let ghost hv = handed@;
        let mut result_args: Vec<Ty> = Vec::new();
        result_args.push(ok_ty.copy());
        result_args.push(handed.ty.copy());
        assert(ty_views(result_args@) =~= seq![ok_ty@, hv.ty]);
        payloads.push(handed);
        assert(expr_views(payloads@) =~= seq![hv]);
        let err_value = mk_expr(
            HirExprKind::EnumPayloadCtor { enum_sym: rsym, discriminant: err_disc, payloads },
            Ty::Enum(rsym, result_args),
        );
        let err_arm = arm(
            payload_pattern(err_disc, err_ty, err_bind),
            mk_expr(HirExprKind::Return(Some(Box::new(err_value))), Ty::Never),
        );
        let mut arms: Vec<HirMatchArm> = Vec::new();
        arms.push(ok_arm);
        arms.push(err_arm);
        proof {
            let want = tried(old(self).cx, sv, span, n0).0;
            assert(want is Match);
            assert(arm_views(arms@) =~= want->arms);
        }
        HirExprKind::Match { scrutinee: Box::new(scrutinee), arms }
    }

    fn lower_arms(&mut self, arms: &Vec<MatchArm>, subst: &Table<SymbolId, Ty>) -> (r: Result<Vec<HirMatchArm>, String>)
        requires
            old(self).cx.res.wf(),
        ensures
            final(self).cx == old(self).cx,
            lowered_arms(old(self).cx, arms@, arms@.len(), ty_map(subst@), old(self).next_sym) == (
                match r {
                    Ok(hs) => Ok::<Seq<HirArmV>, Seq<char>>(arm_views(hs@)),
                    Err(m) => Err::<Seq<HirArmV>, Seq<char>>(m@),
                },
                final(self).next_sym,
            ),
        decreases arms, 0nat,
    {
        let ghost m = ty_map(subst@);
        let mut out: Vec<HirMatchArm> = Vec::new();
        assert(arm_views(out@) =~= seq![]);
        let mut i: usize = 0;
        while i < arms.len()
            invariant
                i <= arms.len(),
                self.cx == old(self).cx,
                self.cx.res.wf(),
                m == ty_map(subst@),
                lowered_arms(old(self).cx, arms@, i as nat, m, old(self).next_sym) == (
                    Ok::<Seq<HirArmV>, Seq<char>>(arm_views(out@)),
                    self.next_sym,
                ),
            decreases arms.len() - i,
        {
            let a = &arms[i];
            let ghost before = arm_views(out@);
            let mut patterns: Vec<HirPattern> = Vec::new();
            assert(pattern_views(patterns@) =~= seq![]);
            match self.cx.collect_arm_patterns(&a.pat, &mut patterns, subst) {
                Ok(_) => {},
                Err(msg) => {
                    proof {
                        arms_error_stays(
                            old(self).cx,
                            arms@,
                            m,
                            old(self).next_sym,
                            (i + 1) as nat,
                            arms@.len(),
                        );
                    }
                    return Err(msg);
                },
            }
            let guard = self.lower_opt(&a.guard);
            let body = self.lower_expr(&a.body);
            let h = HirMatchArm { patterns, guard, body };
            out.push(h);
            assert(arm_views(out@) =~= before.push(h@));
            i += 1;
        }
        Ok(out)
    }

    /// How a loop drives an iterator of this type.
    fn plan_iterator(&self, it: &Ty) -> (r: Option<IterPlan>)
        requires
            self.cx.res.wf(),
        ensures
            match r {
                Some(p) => iter_plan(self.cx, it@) == Some(p@),
                None => iter_plan(self.cx, it@) is None,
            },
    {
        let item = match it {
            Ty::Struct(s, args) => {
                let iterator = match self.cx.res.find_trait_sym("Iterator") {
                    Some(t) => t,
                    None => {
                        return None;
                    },
                };
                let implements = match self.cx.res.impls_for.get(s) {
                    Some(traits) => contains_sym(traits, iterator),
                    None => false,
                };
                if !implements {
                    return None;
                }
                let key = (*s, "Item".to_owned());
                match self.cx.check.impl_assoc_bindings_ty.get(&key) {
                    Some(raw) => self.cx.subst_struct_typevars(*s, args, raw),
                    None => {
                        return None;
                    },
                }
            },
            Ty::TypeVar(_) => Ty::Assoc(Box::new(it.copy()), "Item".to_owned()),
            _ => {
                return None;
            },
        };
        match self.cx.res.find_enum_sym("Option") {
            Some(o) => match (self.cx.enum_variant_disc(o, "Some"), self.cx.enum_variant_disc(o, "None")) {
                (Some(some_disc), Some(none_disc)) => Some(
                    IterPlan { item, option_sym: o, some_disc, none_disc },
                ),
                _ => None,
            },
            None => None,
        }
    }

    fn lower_for(&mut self, e: &Expr) -> (r: HirExprKind)
        requires
            old(self).cx.res.wf(),
            e is For,
        ensures
            final(self).cx == old(self).cx,
            (r@, final(self).next_sym) == lowered_for(old(self).cx, *e, old(self).next_sym),
        decreases e, 0nat,
    {
        match e {
            Expr::For { pat, iter, body, .. } => {
                let local = match pat {
                    Pattern::Wildcard(_) => None,
                    Pattern::Ident { name, .. } => self.cx.declared(name.span),
                    _ => {
                        return HirExprKind::Unsupported(
                            "for-loop pattern must be an identifier or `_`".to_owned(),
                        );
                    },
                };
                if let Expr::Range { start, end, inclusive, .. } = &**iter {
                    let a = self.lower_bound(start);
                    let b = self.lower_bound(end);
                    let h = self.lower_block(body);
                    return HirExprKind::ForRange {
                        local,
                        start: Box::new(a),
                        end: Box::new(b),
                        inclusive: *inclusive,
                        body: h,
                    };
                }
                let it = self.lower_expr(iter);
                let array = match &it.ty {
                    Ty::Array(elem, n) => Some((elem.copy(), *n)),
                    _ => None,
                };
                if let Some((elem_ty, length)) = array {
                    let h = self.lower_block(body);
                    return HirExprKind::For { local, iter: Box::new(it), body: h, elem_ty, length };
                }
                match self.plan_iterator(&it.ty) {
                    Some(plan) => {
                        let it_sym = self.fresh_sym();
                        let x_sym = self.fresh_sym();
                        let h = self.lower_block(body);
                        lower_for_iterator(plan, it, local, h, it_sym, x_sym)
                    },
                    None => HirExprKind::Unsupported(
                        "for-loop iterator must be an array, integer range, or a struct implementing `std::Iterator`".to_owned(),
                    ),
                }
            },
            _ => HirExprKind::Break,
        }
    }

    fn lower_let(&mut self, l: &LetStmt) -> (r: HirLet)
        requires
            old(self).cx.res.wf(),
        ensures
            final(self).cx == old(self).cx,
            (let_view(r), final(self).next_sym) == lowered_let(old(self).cx, *l, old(self).next_sym),
        decreases l, 1nat,
    {
        let (sym, mutable) = match &l.pat {
            Pattern::Ident { name, mutable, .. } => (self.cx.declared(name.span), l.mutable || *mutable),
            _ => (None, l.mutable),
        };
        let known = match sym {
            Some(s) => self.cx.check.local_types.get(&self.cx.res.symbol(s).span),
            None => None,
        };
        let ty = match known {
            Some(t) => t.copy(),
            None => match &l.init {
                Some(e) => match self.cx.check.expr_types.get(&e.span()) {
                    Some(t) => t.copy(),
                    None => Ty::Unit,
                },
                None => Ty::Unit,
            },
        };
        let init = self.lower_opt(&l.init);
        HirLet { sym, mutable, ty, init }
    }

    fn lower_block(&mut self, b: &Block) -> (r: HirBlock)
        requires
            old(self).cx.res.wf(),
        ensures
            final(self).cx == old(self).cx,
            (r@, final(self).next_sym) == lowered_block(old(self).cx, *b, old(self).next_sym),
        decreases b, 1nat,
    {
        let mut stmts: Vec<HirStmt> = Vec::new();
        assert(stmt_views(stmts@) =~= seq![]);
        let mut last_ty = Ty::Unit;
        let mut i: usize = 0;
        while i < b.stmts.len()
            invariant
                i <= b.stmts.len(),
                self.cx == old(self).cx,
                self.cx.res.wf(),
                (stmt_views(stmts@), last_ty@, self.next_sym) == lowered_stmts(
                    old(self).cx,
                    b.stmts@,
                    i as nat,
                    old(self).next_sym,
                ),
            decreases b.stmts.len() - i,
        {
            let ghost before = stmt_views(stmts@);
            match &b.stmts[i] {
                Stmt::Let(l) => {
                    let h = self.lower_let(l);
                    let st = HirStmt::Let(h);
                    stmts.push(st);
                    assert(stmt_views(stmts@) =~= before.push(st@));
                    last_ty = Ty::Unit;
                },
                Stmt::Expr(e, semi) => {
                    let h = self.lower_expr(e);
                    last_ty = if *semi {
                        Ty::Unit
                    } else {
                        h.ty.copy()
                    };
                    let st = HirStmt::Expr(h, *semi);
                    stmts.push(st);
                    assert(stmt_views(stmts@) =~= before.push(st@));
                },
                Stmt::Item(_) => {},
            }
            i += 1;
        }
        HirBlock { stmts, ty: last_ty }
    }
}

/// What a method call turns into.
enum CallTarget {
    Dyn(SymbolId),
    Iter(HirExprKind),
    Fn(SymbolId),
    Builtin,
}

spec fn target_view(t: CallTarget) -> MethodTarget {
    match t {
        CallTarget::Dyn(s) => MethodTarget::Dyn(s),
        CallTarget::Iter(k) => MethodTarget::Iter(k@),
        CallTarget::Fn(s) => MethodTarget::Fn(s),
        CallTarget::Builtin => MethodTarget::Builtin,
    }
}

struct IterPlan {
    item: Ty,
    option_sym: SymbolId,
    some_disc: u32,
    none_disc: u32,
}

impl View for IterPlan {
    type V = IterPlanV;

    closed spec fn view(&self) -> IterPlanV {
        IterPlanV {
            item: self.item@,
            option_sym: self.option_sym,
            some_disc: self.some_disc,
            none_disc: self.none_disc,
        }
    }
}

proof fn iter_mismatch_stays(
    fields: Seq<StructLayoutField>,
    vec_offset: u32,
    idx_offset: u32,
    recv: HirExprV,
    i: nat,
    k: nat,
)
    requires
        i <= k <= fields.len(),
        iter_fields(fields, vec_offset, idx_offset, recv, i) is None,
    ensures
        iter_fields(fields, vec_offset, idx_offset, recv, k) is None,
    decreases k,
{
    if i < k {
        iter_mismatch_stays(fields, vec_offset, idx_offset, recv, i, (k - 1) as nat);
    }
}

proof fn arms_error_stays(cx: Ctx<'_, '_>, arms: Seq<MatchArm>, m: Map<SymbolId, TyV>, n: u32, i: nat, k: nat)
    requires
        i <= k <= arms.len(),
        lowered_arms(cx, arms, i, m, n).0 is Err,
    ensures
        lowered_arms(cx, arms, k, m, n) == lowered_arms(cx, arms, i, m, n),
    decreases k,
{
    if i < k {
        arms_error_stays(cx, arms, m, n, i, (k - 1) as nat);
    }
}

/// A pattern that binds a variant's only payload.
fn payload_pattern(discriminant: u32, ty: Ty, sym: SymbolId) -> (r: HirPattern)
    ensures
        r@ == (HirPatternV::EnumPayload { discriminant, bindings: seq![(ty@, Some(sym))] }),
{
    let mut bindings: Vec<(Ty, Option<SymbolId>)> = Vec::new();
    bindings.push((ty, Some(sym)));
    assert(bindings_view(bindings@) =~= seq![(ty@, Some(sym))]);
    HirPattern::EnumPayload { discriminant, bindings }
}

/// An unguarded arm with one pattern.
fn arm(pattern: HirPattern, body: HirExpr) -> (r: HirMatchArm)
    ensures
        r@ == (HirArmV { patterns: seq![pattern@], guard: None, body: body@ }),
{
    let mut patterns: Vec<HirPattern> = Vec::new();
    patterns.push(pattern);
    assert(pattern_views(patterns@) =~= seq![pattern@]);
    HirMatchArm { patterns, guard: None, body }
}

fn lower_poly_call(name: &str, args: Vec<HirExpr>) -> (r: HirExprKind)
    ensures
        r@ == dispatched(name@, expr_views(args@)),
{
    proof {
        reveal_strlit("print");
        reveal_strlit("weak");
        reveal_strlit("upgrade_or");
    }
    assert(expr_views(args@).len() == args@.len());
    let target: Option<&str> = if args.len() == 0 {
        None
    } else {
        match &args[0].ty {
            Ty::Int(_) => if same_text(name, "print") {
                Some("print_i64")
            } else {
                None
            },
            Ty::Str => if same_text(name, "print") {
                Some("print_str")
            } else {
                None
            },
            Ty::Vec(_) => if same_text(name, "weak") {
                Some("weak_downgrade_vec")
            } else {
                None
            },
            Ty::Weak(inner) => {
                let on_vec = match &**inner {
                    Ty::Vec(_) => true,
                    _ => false,
                };
                assert(on_vec == (ty_view(**inner) is Vec));
                if on_vec && same_text(name, "upgrade_or") {
                    Some("weak_upgrade_or_vec")
                } else {
                    None
                }
            },
            _ => None,
        }
    };
    match target {
        Some(t) => HirExprKind::BuiltinCall { name: t.to_owned(), args },
        None => HirExprKind::Unsupported(
            quoting("no dispatch for polymorphic builtin `", name, "` with that argument type"),
        ),
    }
}

/// Builds the loop over an iterator.
fn lower_for_iterator(
    plan: IterPlan,
    iter: HirExpr,
    local: Option<SymbolId>,
    body: HirBlock,
    it_sym: SymbolId,
    x_sym: SymbolId,
) -> (r: HirExprKind)
    ensures
        r@ == iterator_loop(plan@, iter@, local, body@.stmts, it_sym, x_sym),
{
    let ghost want = iterator_loop(plan@, iter@, local, body@.stmts, it_sym, x_sym);
    let no_args: Vec<HirExpr> = Vec::new();
    assert(expr_views(no_args@) =~= seq![]);
    let mut option_args: Vec<Ty> = Vec::new();
    option_args.push(plan.item.copy());
    assert(ty_views(option_args@) =~= seq![plan@.item]);
    let next_call = mk_expr(
        HirExprKind::MethodCall {
            receiver: Box::new(mk_expr(HirExprKind::Local(it_sym), iter.ty.copy())),
            method: "next".to_owned(),
            args: no_args,
        },
        Ty::Enum(plan.option_sym, option_args),
    );
    let mut stmts: Vec<HirStmt> = Vec::new();
    if let Some(u) = local {
        stmts.push(
            mk_let(u, false, plan.item.copy(), mk_expr(HirExprKind::Local(x_sym), plan.item.copy())),
        );
    }
    assert(stmt_views(stmts@) =~= item_let(local, plan@.item, x_sym));
    let ghost bound = stmt_views(stmts@);
    let mut body_stmts = body.stmts;
    let ghost given = stmt_views(body_stmts@);
    stmts.append(&mut body_stmts);
    assert(stmt_views(stmts@) =~= bound + given);
    let some_arm = arm(
        payload_pattern(plan.some_disc, plan.item.copy(), x_sym),
        mk_expr(HirExprKind::Block(mk_block(stmts, Ty::Unit)), Ty::Unit),
    );
    let no_bindings: Vec<(Ty, Option<SymbolId>)> = Vec::new();
    assert(bindings_view(no_bindings@) =~= seq![]);
    let none_arm = arm(
        HirPattern::EnumPayload { discriminant: plan.none_disc, bindings: no_bindings },
        mk_expr(HirExprKind::Break, Ty::Never),
    );
    let mut arms: Vec<HirMatchArm> = Vec::new();
    arms.push(some_arm);
    arms.push(none_arm);
    assert(arm_views(arms@) =~= seq![some_arm@, none_arm@]);
    let step = mk_expr(HirExprKind::Match { scrutinee: Box::new(next_call), arms }, Ty::Unit);
    let ghost step_view = step@;
    let mut loop_stmts: Vec<HirStmt> = Vec::new();
    loop_stmts.push(mk_stmt(step, true));
    assert(stmt_views(loop_stmts@) =~= seq![HirStmtV::Expr(step_view, true)]);
    let repeat = mk_expr(
        HirExprKind::While {
            cond: Box::new(mk_expr(HirExprKind::Lit(HirLit::Bool(true)), Ty::Bool)),
            body: mk_block(loop_stmts, Ty::Unit),
        },
        Ty::Unit,
    );
    let ghost repeat_view = repeat@;
    let iter_ty = iter.ty.copy();
    let hold = mk_let(it_sym, true, iter_ty, iter);
    let ghost hold_view = hold@;
    let mut out: Vec<HirStmt> = Vec::new();
    out.push(hold);
    out.push(mk_stmt(repeat, true));
    assert(stmt_views(out@) =~= seq![hold_view, HirStmtV::Expr(repeat_view, true)]);
    HirExprKind::Block(mk_block(out, Ty::Unit))
}

// ---- functions and modules ----

/// The declared symbols of the first `k` type parameters.
pub open spec fn generic_syms(cx: Ctx<'_, '_>, gs: Seq<GenericParam>, k: nat) -> Seq<SymbolId>
    decreases k,
{
    if k == 0 || k > gs.len() {
        seq![]
    } else {
        let before = generic_syms(cx, gs, (k - 1) as nat);
        match lookup(cx.res.decl_to_sym@, gs[k - 1].name.span) {
            Some(s) => before.push(s),
            None => before,
        }
    }
}

pub open spec fn lowered_params(cx: Ctx<'_, '_>, ps: Seq<Param>) -> Seq<HirParamV> {
    Seq::new(
        ps.len(),
        |i: int|
            HirParamV {
                sym: cx.res.decl_to_sym@[ps[i].name.span],
                name: ps[i].name.name@,
                ty: view_or(cx.check.local_types@, ps[i].name.span, TyV::Error),
            },
    )
}

/// Whether a function's name and parameters are declared.
pub open spec fn declared_fn(cx: Ctx<'_, '_>, f: FnDecl) -> bool {
    &&& cx.res.decl_to_sym@.contains_key(f.name.span)
    &&& forall|i: int|
        0 <= i < f.params@.len() ==> cx.res.decl_to_sym@.contains_key((#[trigger] f.params@[i]).name.span)
}

/// Whether the parameters of a trait's method are declared, where it has a
/// default body.
pub open spec fn declared_default(cx: Ctx<'_, '_>, m: TraitMethodSig) -> bool {
    m.body is Some ==> forall|i: int|
        0 <= i < m.params@.len() ==> cx.res.decl_to_sym@.contains_key((#[trigger] m.params@[i]).name.span)
}

/// Whether every function, method, default method and function in a nested
/// module is declared.
pub open spec fn declared_items(cx: Ctx<'_, '_>, items: Seq<Item>) -> bool
    decreases items,
{
    forall|i: int|
        0 <= i < items.len() ==> match #[trigger] items[i] {
            Item::Fn(f) => declared_fn(cx, f),
            Item::Impl(b) => forall|j: int|
                0 <= j < b.methods@.len() ==> declared_fn(cx, #[trigger] b.methods@[j]),
            Item::Trait(t) => forall|j: int|
                0 <= j < t.methods@.len() ==> declared_default(cx, #[trigger] t.methods@[j]),
            Item::Mod(m) => declared_items(cx, m.items@),
            _ => true,
        }
}

pub open spec fn lowered_fn(cx: Ctx<'_, '_>, f: FnDecl, n: u32) -> (HirFnV, u32) {
    let sym = cx.res.decl_to_sym@[f.name.span];
    let (body, n1) = lowered_block(cx, f.body, n);
    (
        HirFnV {
            sym,
            name: cx.res.symbols@[sym.0 as int].name@,
            generics: generic_syms(cx, f.generics@, f.generics@.len()),
            params: lowered_params(cx, f.params@),
            ret_ty: match f.return_type {
                Some(t) => view_or(cx.check.type_resolutions@, type_span(t), TyV::Unit),
                None => TyV::Unit,
            },
            body,
        },
        n1,
    )
}

/// `acc`, then the first `k` functions.
pub open spec fn lowered_fns(cx: Ctx<'_, '_>, fs: Seq<FnDecl>, k: nat, acc: Seq<HirFnV>, n: u32) -> (
    Seq<HirFnV>,
    u32,
)
    decreases k,
{
    if k == 0 || k > fs.len() {
        (acc, n)
    } else {
        let (before, n1) = lowered_fns(cx, fs, (k - 1) as nat, acc, n);
        let (f, n2) = lowered_fn(cx, fs[k - 1], n1);
        (before.push(f), n2)
    }
}

/// The function of a trait method's default body and its `Self` parameter.
pub open spec fn default_fn(cx: Ctx<'_, '_>, t: Option<SymbolId>, name: Seq<char>) -> Option<(SymbolId, SymbolId)> {
    match t {
        Some(t) => match lookup(cx.res.trait_defaults@, (t, name)) {
            Some(f) => match lookup(cx.res.default_self_syms@, f) {
                Some(s) => if cx.res.knows(f) {
                    Some((f, s))
                } else {
                    None
                },
                None => None,
            },
            None => None,
        },
        None => None,
    }
}

/// `acc`, then the default bodies of a trait's first `k` methods, each a
/// function generic over its `Self`.
pub open spec fn lowered_defaults(
    cx: Ctx<'_, '_>,
    t: Option<SymbolId>,
    ms: Seq<TraitMethodSig>,
    k: nat,
    acc: Seq<HirFnV>,
    n: u32,
) -> (Seq<HirFnV>, u32)
    decreases k,
{
    if k == 0 || k > ms.len() {
        (acc, n)
    } else {
        let (before, n1) = lowered_defaults(cx, t, ms, (k - 1) as nat, acc, n);
        let m = ms[k - 1];
        match (m.body, default_fn(cx, t, m.name.name@)) {
            (Some(b), Some((sym, s))) => {
                let (body, n2) = lowered_block(cx, b, n1);
                (
                    before.push(
                        HirFnV {
                            sym,
                            name: cx.res.symbols@[sym.0 as int].name@,
                            generics: seq![s],
                            params: lowered_params(cx, m.params@),
                            ret_ty: match m.return_type {
                                Some(t) => view_or(cx.check.type_resolutions@, type_span(t), TyV::Unit),
                                None => TyV::Unit,
                            },
                            body,
                        },
                    ),
                    n2,
                )
            },
            _ => (before, n1),
        }
    }
}

/// `acc`, then the functions of the first `k` items: functions, methods,
/// default methods, and what nested modules hold, in source order. Other items
/// hold no code.
pub open spec fn lowered_items(cx: Ctx<'_, '_>, items: Seq<Item>, k: nat, acc: Seq<HirFnV>, n: u32) -> (
    Seq<HirFnV>,
    u32,
)
    decreases items, k,
{
    if k == 0 || k > items.len() {
        (acc, n)
    } else {
        let (before, n1) = lowered_items(cx, items, (k - 1) as nat, acc, n);
        match items[k - 1] {
            Item::Fn(f) => {
                let (h, n2) = lowered_fn(cx, f, n1);
                (before.push(h), n2)
            },
            Item::Impl(b) => lowered_fns(cx, b.methods@, b.methods@.len(), before, n1),
            Item::Trait(t) => lowered_defaults(
                cx,
                lookup(cx.res.decl_to_sym@, t.name.span),
                t.methods@,
                t.methods@.len(),
                before,
                n1,
            ),
            Item::Mod(m) => lowered_items(cx, m.items@, m.items@.len(), before, n1),
            _ => (before, n1),
        }
    }
}

fn lower_params<'a, 's>(cx: Ctx<'a, 's>, ps: &Vec<Param>) -> (r: Vec<HirParam>)
    requires
        forall|i: int|
            0 <= i < ps@.len() ==> cx.res.decl_to_sym@.contains_key((#[trigger] ps@[i]).name.span),
    ensures
        param_views(r@) == lowered_params(cx, ps@),
{
    let mut params: Vec<HirParam> = Vec::new();
    let mut i: usize = 0;
    while i < ps.len()
        invariant
            i <= ps.len(),
            params.len() == i,
            forall|i: int|
                0 <= i < ps@.len() ==> cx.res.decl_to_sym@.contains_key((#[trigger] ps@[i]).name.span),
            forall|j: int| 0 <= j < i ==> param_view(#[trigger] params[j]) == lowered_params(cx, ps@)[j],
        decreases ps.len() - i,
    {
        let p = &ps[i];
        assert(cx.res.decl_to_sym@.contains_key(ps@[i as int].name.span));
        let psym = match cx.res.decl_to_sym.get(&p.name.span) {
            Some(s) => *s,
            None => SymbolId(0),
        };
        let ty = match cx.check.local_types.get(&p.name.span) {
            Some(t) => t.copy(),
            None => Ty::Error,
        };
        params.push(HirParam { sym: psym, name: p.name.name.clone(), ty });
        i += 1;
    }
    assert(param_views(params@) =~= lowered_params(cx, ps@));
    params
}

fn return_type_of<'a, 's>(cx: Ctx<'a, 's>, t: &Option<Type>) -> (r: Ty)
    ensures
        r@ == (match *t {
            Some(t) => view_or(cx.check.type_resolutions@, type_span(t), TyV::Unit),
            None => TyV::Unit,
        }),
{
    match t {
        Some(t) => match cx.check.type_resolutions.get(&t.span()) {
            Some(t) => t.copy(),
            None => Ty::Unit,
        },
        None => Ty::Unit,
    }
}

fn find_default<'a, 's>(cx: Ctx<'a, 's>, t: Option<SymbolId>, name: &String) -> (r: Option<(SymbolId, SymbolId)>)
    ensures
        r == default_fn(cx, t, name@),
{
    let t = t?;
    let f = match cx.res.trait_defaults.get(&(t, name.clone())) {
        Some(f) => *f,
        None => {
            return None;
        },
    };
    match cx.res.default_self_syms.get(&f) {
        Some(s) => {
            if (f.0 as usize) < cx.res.symbols.len() {
                Some((f, *s))
            } else {
                None
            }
        },
        None => None,
    }
}

impl<'a, 's> Lowerer<'a, 's> {
    fn lower_fn(&mut self, f: &FnDecl) -> (r: HirFn)
        requires
            old(self).cx.res.wf(),
            declared_fn(old(self).cx, *f),
        ensures
            final(self).cx == old(self).cx,
            (r@, final(self).next_sym) == lowered_fn(old(self).cx, *f, old(self).next_sym),
    {
        let cx = self.cx;
        let sym = match cx.res.decl_to_sym.get(&f.name.span) {
            Some(s) => *s,
            None => SymbolId(0),
        };
        let params = lower_params(cx, &f.params);
        let ret_ty = return_type_of(cx, &f.return_type);
        let body = self.lower_block(&f.body);
        let name = cx.res.symbol(sym).name.clone();
        let mut generics: Vec<SymbolId> = Vec::new();
        let mut g: usize = 0;
        while g < f.generics.len()
            invariant
                g <= f.generics.len(),
                generics@ == generic_syms(cx, f.generics@, g as nat),
            decreases f.generics.len() - g,
        {
            if let Some(s) = cx.declared(f.generics[g].name.span) {
                generics.push(s);
            }
            g += 1;
        }
        HirFn { sym, name, generics, params, ret_ty, body }
    }

    fn lower_fns(&mut self, fs: &Vec<FnDecl>, out: &mut Vec<HirItem>)
        requires
            old(self).cx.res.wf(),
            forall|j: int| 0 <= j < fs@.len() ==> declared_fn(old(self).cx, #[trigger] fs@[j]),
        ensures
            final(self).cx == old(self).cx,
            (item_views(final(out)@), final(self).next_sym) == lowered_fns(
                old(self).cx,
                fs@,
                fs@.len(),
                item_views(old(out)@),
                old(self).next_sym,
            ),
    {
        let mut i: usize = 0;
        while i < fs.len()
            invariant
                i <= fs.len(),
                self.cx == old(self).cx,
                self.cx.res.wf(),
                forall|j: int| 0 <= j < fs@.len() ==> declared_fn(self.cx, #[trigger] fs@[j]),
                (item_views(out@), self.next_sym) == lowered_fns(
                    old(self).cx,
                    fs@,
                    i as nat,
                    item_views(old(out)@),
                    old(self).next_sym,
                ),
            decreases fs.len() - i,
        {
            let ghost before = item_views(out@);
            let f = self.lower_fn(&fs[i]);
            out.push(HirItem::Fn(f));
            assert(item_views(out@) =~= before.push(f@));
            i += 1;
        }
    }

    /// Flattens items into functions, going into modules.
    fn lower_defaults(&mut self, t: Option<SymbolId>, ms: &Vec<TraitMethodSig>, out: &mut Vec<HirItem>)
        requires
            old(self).cx.res.wf(),
            forall|j: int| 0 <= j < ms@.len() ==> declared_default(old(self).cx, #[trigger] ms@[j]),
        ensures
            final(self).cx == old(self).cx,
            (item_views(final(out)@), final(self).next_sym) == lowered_defaults(
                old(self).cx,
                t,
                ms@,
                ms@.len(),
                item_views(old(out)@),
                old(self).next_sym,
            ),
    {
        let cx = self.cx;
        let mut i: usize = 0;
        while i < ms.len()
            invariant
                i <= ms.len(),
                self.cx == old(self).cx,
                cx == self.cx,
                self.cx.res.wf(),
                forall|j: int| 0 <= j < ms@.len() ==> declared_default(self.cx, #[trigger] ms@[j]),
                (item_views(out@), self.next_sym) == lowered_defaults(
                    old(self).cx,
                    t,
                    ms@,
                    i as nat,
                    item_views(old(out)@),
                    old(self).next_sym,
                ),
            decreases ms.len() - i,
        {
            let ghost before = item_views(out@);
            let m = &ms[i];
            assert(declared_default(cx, ms@[i as int]));
            match (&m.body, find_default(cx, t, &m.name.name)) {
                (Some(b), Some((sym, s))) => {
                    let params = lower_params(cx, &m.params);
                    let ret_ty = return_type_of(cx, &m.return_type);
                    let body = self.lower_block(b);
                    let name = cx.res.symbol(sym).name.clone();
                    let mut generics: Vec<SymbolId> = Vec::new();
                    generics.push(s);
                    assert(generics@ =~= seq![s]);
                    let h = HirFn { sym, name, generics, params, ret_ty, body };
                    out.push(HirItem::Fn(h));
                    assert(item_views(out@) =~= before.push(h@));
                },
                _ => {},
            }
            i += 1;
        }
    }

    fn lower_items(&mut self, items: &Vec<Item>, out: &mut Vec<HirItem>)
        requires
            old(self).cx.res.wf(),
            declared_items(old(self).cx, items@),
        ensures
            final(self).cx == old(self).cx,
            (item_views(final(out)@), final(self).next_sym) == lowered_items(
                old(self).cx,
                items@,
                items@.len(),
                item_views(old(out)@),
                old(self).next_sym,
            ),
        decreases items, 0nat,
    {
        let mut i: usize = 0;
        while i < items.len()
            invariant
                i <= items.len(),
                self.cx == old(self).cx,
                self.cx.res.wf(),
                declared_items(self.cx, items@),
                (item_views(out@), self.next_sym) == lowered_items(
                    old(self).cx,
                    items@,
                    i as nat,
                    item_views(old(out)@),
                    old(self).next_sym,
                ),
            decreases items.len() - i,
        {
            let ghost before = item_views(out@);
            match &items[i] {
                Item::Fn(f) => {
                    assert(items@[i as int] == Item::Fn(*f));
                    let h = self.lower_fn(f);
                    out.push(HirItem::Fn(h));
                    assert(item_views(out@) =~= before.push(h@));
                },
                Item::Impl(b) => {
                    assert(items@[i as int] == Item::Impl(*b));
                    self.lower_fns(&b.methods, out);
                },
                Item::Trait(t) => {
                    assert(items@[i as int] == Item::Trait(*t));
                    let sym = self.cx.declared(t.name.span);
                    self.lower_defaults(sym, &t.methods, out);
                },
                Item::Mod(m) => {
                    assert(items@[i as int] == Item::Mod(*m));
                    self.lower_items(&m.items, out);
                },
                _ => {},
            }
            i += 1;
        }
    }
}

// ---- reference-counted structs ----

/// Whether a struct field of this type is released with the struct, given
/// which structs hold counted fields themselves.
pub open spec fn counted_field(t: TyV, structs: spec_fn(SymbolId) -> bool) -> bool {
    match t {
        TyV::Vec(_) | TyV::Str | TyV::Array(_, _) | TyV::Dyn(_, _) => true,
        TyV::Struct(s, _) => structs(s),
        _ => false,
    }
}

/// Whether a struct holds a counted field, through at most `depth` structs
/// one inside the other.
pub open spec fn counted_within(layouts: Map<SymbolId, StructLayout>, s: SymbolId, depth: nat) -> bool
    decreases depth,
{
    depth > 0 && layouts.contains_key(s) && exists|i: int|
        0 <= i < layouts[s].fields@.len() && counted_field(
            (#[trigger] layouts[s].fields@[i]).ty@,
            |t: SymbolId| counted_within(layouts, t, (depth - 1) as nat),
        )
}

/// Whether a struct holds a counted field, directly or through other
/// structs.
pub open spec fn counted_struct(layouts: Map<SymbolId, StructLayout>, s: SymbolId) -> bool {
    exists|depth: nat| counted_within(layouts, s, depth)
}

pub open spec fn counted_structs(layouts: Map<SymbolId, StructLayout>) -> spec_fn(SymbolId) -> bool {
    |s: SymbolId| counted_struct(layouts, s)
}

/// The offset and type of each counted field among the first `k`.
pub open spec fn counted_fields(
    layouts: Map<SymbolId, StructLayout>,
    fields: Seq<StructLayoutField>,
    k: nat,
) -> Seq<(u32, TyV)>
    decreases k,
{
    if k == 0 || k > fields.len() {
        seq![]
    } else {
        let before = counted_fields(layouts, fields, (k - 1) as nat);
        if counted_field(fields[k - 1].ty@, counted_structs(layouts)) {
            before.push((fields[k - 1].offset, fields[k - 1].ty@))
        } else {
            before
        }
    }
}

pub open spec fn offsets_view(fs: Seq<(u32, Ty)>) -> Seq<(u32, TyV)> {
    Seq::new(fs.len(), |i: int| (fs[i].0, fs[i].1@))
}

/// What the table of counted fields says: exactly the structs with a counted
/// field appear, each with all its counted fields in declaration order.
pub open spec fn is_arc_table(layouts: Map<SymbolId, StructLayout>, arc: Map<SymbolId, Vec<(u32, Ty)>>) -> bool {
    &&& forall|s: SymbolId| #![trigger arc.contains_key(s)] arc.contains_key(s) <==> counted_struct(layouts, s)
    &&& forall|s: SymbolId|
        #![trigger arc[s]]
        arc.contains_key(s) ==> offsets_view(arc[s]@) == counted_fields(
            layouts,
            layouts[s].fields@,
            layouts[s].fields@.len(),
        )
}

/// How many flags are not set.
spec fn unset(flags: Seq<bool>) -> nat
    decreases flags.len(),
{
    if flags.len() == 0 {
        0
    } else {
        unset(flags.drop_last()) + if flags.last() {
            0nat
        } else {
            1nat
        }
    }
}

proof fn setting_lowers(flags: Seq<bool>, i: int)
    requires
        0 <= i < flags.len(),
        !flags[i],
    ensures
        unset(flags.update(i, true)) + 1 == unset(flags),
    decreases flags.len(),
{
    if i == flags.len() - 1 {
        assert(flags.update(i, true).drop_last() =~= flags.drop_last());
    } else {
        assert(flags.update(i, true).drop_last() =~= flags.drop_last().update(i, true));
        setting_lowers(flags.drop_last(), i);
    }
}

/// Whether the flag of a struct's layout is set.
spec fn flagged(layouts: Seq<(SymbolId, StructLayout)>, flags: Seq<bool>, s: SymbolId) -> bool {
    exists|i: int| 0 <= i < layouts.len() && (#[trigger] layouts[i]).0 == s && flags[i]
}

spec fn flagged_in(layouts: Seq<(SymbolId, StructLayout)>, flags: Seq<bool>) -> spec_fn(SymbolId) -> bool {
    |s: SymbolId| flagged(layouts, flags, s)
}

fn is_flagged(layouts: &Table<SymbolId, StructLayout>, flags: &Vec<bool>, s: SymbolId) -> (r: bool)
    requires
        flags@.len() == layouts.items().len(),
    ensures
        r == flagged(layouts.items(), flags@, s),
{
    let n = layouts.len();
    let mut i: usize = 0;
    while i < n
        invariant
            i <= n,
            n == layouts.items().len(),
            flags@.len() == n,
            forall|j: int| 0 <= j < i ==> !((#[trigger] layouts.items()[j]).0 == s && flags@[j]),
        decreases n - i,
    {
        if layouts.entry(i).0.0 == s.0 && flags[i] {
            assert(layouts.items()[i as int].0 == s);
            return true;
        }
        i += 1;
    }
    false
}

fn field_ty_is_arc(ty: &Ty, layouts: &Table<SymbolId, StructLayout>, flags: &Vec<bool>) -> (r: bool)
    requires
        flags@.len() == layouts.items().len(),
    ensures
        r == counted_field(ty@, flagged_in(layouts.items(), flags@)),
{
    match ty {
        Ty::Vec(_) => true,
        Ty::Str => true,
        Ty::Struct(inner, _) => is_flagged(layouts, flags, *inner),
        Ty::Array(_, _) => true,
        Ty::Dyn(_, _) => true,
        _ => false,
    }
}

/// Whether some field is counted, given the flags.
spec fn some_counted(fields: Seq<StructLayoutField>, structs: spec_fn(SymbolId) -> bool) -> bool {
    exists|i: int| 0 <= i < fields.len() && counted_field((#[trigger] fields[i]).ty@, structs)
}

fn has_arc_field(fields: &Vec<StructLayoutField>, layouts: &Table<SymbolId, StructLayout>, flags: &Vec<bool>) -> (r: bool)
    requires
        flags@.len() == layouts.items().len(),
    ensures
        r == some_counted(fields@, flagged_in(layouts.items(), flags@)),
{
    let mut i: usize = 0;
    while i < fields.len()
        invariant
            i <= fields.len(),
            flags@.len() == layouts.items().len(),
            forall|j: int|
                0 <= j < i ==> !counted_field(
                    (#[trigger] fields@[j]).ty@,
                    flagged_in(layouts.items(), flags@),
                ),
        decreases fields.len() - i,
    {
        if field_ty_is_arc(&fields[i].ty, layouts, flags) {
            assert(counted_field(fields@[i as int].ty@, flagged_in(layouts.items(), flags@)));
            return true;
        }
        i += 1;
    }
    false
}

proof fn within_grows(layouts: Map<SymbolId, StructLayout>, s: SymbolId, d: nat, e: nat)
    requires
        d <= e,
        counted_within(layouts, s, d),
    ensures
        counted_within(layouts, s, e),
    decreases d,
{
    let i = choose|i: int|
        0 <= i < layouts[s].fields@.len() && counted_field(
            (#[trigger] layouts[s].fields@[i]).ty@,
            |t: SymbolId| counted_within(layouts, t, (d - 1) as nat),
        );
    let t = layouts[s].fields@[i].ty@;
    if let TyV::Struct(u, _) = t {
        within_grows(layouts, u, (d - 1) as nat, (e - 1) as nat);
    }
    assert(counted_field(t, |t: SymbolId| counted_within(layouts, t, (e - 1) as nat)));
}

/// A struct with a field that is counted given counted structs is counted.
proof fn counted_closes(layouts: Map<SymbolId, StructLayout>, s: SymbolId, structs: spec_fn(SymbolId) -> bool)
    requires
        layouts.contains_key(s),
        some_counted(layouts[s].fields@, structs),
        forall|t: SymbolId| structs(t) ==> counted_struct(layouts, t),
    ensures
        counted_struct(layouts, s),
{
    let i = choose|i: int|
        0 <= i < layouts[s].fields@.len() && counted_field((#[trigger] layouts[s].fields@[i]).ty@, structs);
    let t = layouts[s].fields@[i].ty@;
    let d = if let TyV::Struct(u, _) = t {
        assert(counted_struct(layouts, u));
        choose|d: nat| counted_within(layouts, u, d)
    } else {
        0
    };
    assert(counted_field(t, |t: SymbolId| counted_within(layouts, t, d)));
    assert(counted_within(layouts, s, d + 1));
}

/// When no unflagged struct has a counted field, every counted struct is
/// flagged.
proof fn closed_covers(
    table: Table<SymbolId, StructLayout>,
    flags: Seq<bool>,
    s: SymbolId,
    d: nat,
)
    requires
        flags.len() == table.items().len(),
        forall|i: int|
            0 <= i < flags.len() && !flags[i] ==> !some_counted(
                (#[trigger] table.items()[i]).1.fields@,
                flagged_in(table.items(), flags),
            ),
        counted_within(table@, s, d),
    ensures
        flagged(table.items(), flags, s),
    decreases d,
{
    entry_of_key(table, s);
    let k = choose|i: int|
        0 <= i < table.items().len() && (#[trigger] table.items()[i]).0.id() == s && table.items()[i].1 == table@[s];
    let i = choose|i: int|
        0 <= i < table@[s].fields@.len() && counted_field(
            (#[trigger] table@[s].fields@[i]).ty@,
            |t: SymbolId| counted_within(table@, t, (d - 1) as nat),
        );
    let t = table@[s].fields@[i].ty@;
    if let TyV::Struct(u, _) = t {
        closed_covers(table, flags, u, (d - 1) as nat);
    }
    assert(counted_field(t, flagged_in(table.items(), flags)));
    assert(counted_field(table.items()[k].1.fields@[i].ty@, flagged_in(table.items(), flags)));
    assert(some_counted(table.items()[k].1.fields@, flagged_in(table.items(), flags)));
}

/// Finds the structs with counted fields and lists those fields.
fn collect_arc_fields(layouts: &Table<SymbolId, StructLayout>) -> (r: Table<SymbolId, Vec<(u32, Ty)>>)
    ensures
        is_arc_table(layouts@, r@),
{
    let n = layouts.len();
    let mut flags: Vec<bool> = Vec::new();
    let mut i: usize = 0;
    while i < n
        invariant
            i <= n,
            flags@.len() == i,
            forall|j: int| 0 <= j < i ==> !flags@[j],
        decreases n - i,
    {
        flags.push(false);
        i += 1;
    }
    let mut changed = true;
    while changed
        invariant
            n == layouts.items().len(),
            flags@.len() == n,
            forall|s: SymbolId| flagged(layouts.items(), flags@, s) ==> counted_struct(layouts@, s),
            !changed ==> forall|i: int|
                0 <= i < n && !flags@[i] ==> !some_counted(
                    (#[trigger] layouts.items()[i]).1.fields@,
                    flagged_in(layouts.items(), flags@),
                ),
        decreases unset(flags@), changed as int,
    {
        changed = false;
        let ghost before = flags@;
        let mut i: usize = 0;
        while i < n
            invariant
                i <= n,
                n == layouts.items().len(),
                flags@.len() == n,
                forall|s: SymbolId| flagged(layouts.items(), flags@, s) ==> counted_struct(layouts@, s),
                !changed ==> flags@ == before,
                changed ==> unset(flags@) < unset(before),
                !changed ==> forall|j: int|
                    0 <= j < i && !flags@[j] ==> !some_counted(
                        (#[trigger] layouts.items()[j]).1.fields@,
                        flagged_in(layouts.items(), flags@),
                    ),
            decreases n - i,
        {
            if !flags[i] {
                let e = layouts.entry(i);
                if has_arc_field(&e.1.fields, layouts, &flags) {
                    let ghost prev = flags@;
                    proof {
                        setting_lowers(flags@, i as int);
                        counted_closes(layouts@, e.0, flagged_in(layouts.items(), prev));
                    }
                    flags.set(i, true);
                    proof {
                        assert forall|s: SymbolId| flagged(layouts.items(), flags@, s) implies counted_struct(
                            layouts@,
                            s,
                        ) by {
                            let k = choose|k: int|
                                0 <= k < layouts.items().len() && (#[trigger] layouts.items()[k]).0 == s && flags@[k];
                            if k != i {
                                assert(prev[k]);
                                assert(flagged(layouts.items(), prev, s));
                            }
                        }
                    }
                    changed = true;
                }
            }
            i += 1;
        }
    }
    proof {
        assert forall|s: SymbolId| flagged(layouts.items(), flags@, s) <==> counted_struct(layouts@, s) by {
            if counted_struct(layouts@, s) {
                let d = choose|d: nat| counted_within(layouts@, s, d);
                closed_covers(*layouts, flags@, s, d);
            }
        }
        assert forall|t: TyV|
            counted_field(t, flagged_in(layouts.items(), flags@)) == counted_field(t, counted_structs(layouts@)) by {
            if let TyV::Struct(s, _) = t {
                assert(flagged(layouts.items(), flags@, s) <==> counted_struct(layouts@, s));
            }
        }
    }
    let mut out: Table<SymbolId, Vec<(u32, Ty)>> = Table::new();
    let mut i: usize = 0;
    while i < n
        invariant
            i <= n,
            n == layouts.items().len(),
            flags@.len() == n,
            forall|t: TyV|
                #![trigger counted_field(t, counted_structs(layouts@))]
                counted_field(t, flagged_in(layouts.items(), flags@)) == counted_field(t, counted_structs(layouts@)),
            forall|s: SymbolId| flagged(layouts.items(), flags@, s) <==> counted_struct(layouts@, s),
            forall|j: int|
                0 <= j < i && flags@[j] ==> out@.contains_key((#[trigger] layouts.items()[j]).0),
            forall|s: SymbolId| #![trigger out@.contains_key(s)] out@.contains_key(s) ==> counted_struct(layouts@, s),
            forall|s: SymbolId|
                #![trigger out@[s]]
                out@.contains_key(s) ==> offsets_view(out@[s]@) == counted_fields(
                    layouts@,
                    layouts@[s].fields@,
                    layouts@[s].fields@.len(),
                ),
        decreases n - i,
    {
        if flags[i] {
            let e = layouts.entry(i);
            let fields = &e.1.fields;
            let mut arc: Vec<(u32, Ty)> = Vec::new();
            assert(offsets_view(arc@) =~= seq![]);
            let mut f: usize = 0;
            while f < fields.len()
                invariant
                    f <= fields.len(),
                    flags@.len() == layouts.items().len(),
                    forall|t: TyV|
                        #![trigger counted_field(t, counted_structs(layouts@))]
                        counted_field(t, flagged_in(layouts.items(), flags@)) == counted_field(
                            t,
                            counted_structs(layouts@),
                        ),
                    offsets_view(arc@) == counted_fields(layouts@, fields@, f as nat),
                decreases fields.len() - f,
            {
                let field = &fields[f];
                let ghost before = offsets_view(arc@);
                assert(counted_field(field.ty@, flagged_in(layouts.items(), flags@)) == counted_field(
                    field.ty@,
                    counted_structs(layouts@),
                ));
                if field_ty_is_arc(&field.ty, layouts, &flags) {
                    arc.push((field.offset, field.ty.copy()));
                    assert(offsets_view(arc@) =~= before.push((field.offset, field.ty@)));
                }
                f += 1;
            }
            assert(flagged(layouts.items(), flags@, e.0)) by {
                assert(layouts.items()[i as int].0 == e.0);
            }
            out.insert(e.0, arc);
        }
        i += 1;
    }
    proof {
        assert forall|s: SymbolId| counted_struct(layouts@, s) implies out@.contains_key(s) by {
            assert(flagged(layouts.items(), flags@, s));
        }
    }
    out
}

// ---- enum payloads ----

/// A list ordered by discriminant with one more variant in its place, after
/// those with the same discriminant.
pub open spec fn placed(vs: Seq<(u32, SymbolId)>, v: (u32, SymbolId)) -> Seq<(u32, SymbolId)>
    decreases vs.len(),
{
    if vs.len() == 0 || vs.last().0 <= v.0 {
        vs.push(v)
    } else {
        placed(vs.drop_last(), v).push(vs.last())
    }
}

/// The discriminant of a variant.
pub open spec fn disc_of(cx: Ctx<'_, '_>, v: SymbolId) -> u32 {
    match cx.res.kind(v) {
        SymbolKind::EnumVariant { discriminant, .. } => discriminant,
        _ => 0,
    }
}

/// The first `k` variants of an enum, ordered by discriminant.
pub open spec fn by_discriminant(cx: Ctx<'_, '_>, vs: Seq<(String, SymbolId)>, k: nat) -> Seq<(u32, SymbolId)>
    decreases k,
{
    if k == 0 || k > vs.len() {
        seq![]
    } else {
        placed(by_discriminant(cx, vs, (k - 1) as nat), (disc_of(cx, vs[k - 1].1), vs[k - 1].1))
    }
}

/// The resolved payload types of a variant.
pub open spec fn payload_types(cx: Ctx<'_, '_>, v: SymbolId) -> Seq<TyV> {
    let asts = payloads_of(cx, v);
    Seq::new(asts.len(), |i: int| type_ty(cx, type_span(*asts[i])))
}

/// The payload types of an enum's variants, ordered by discriminant.
pub open spec fn enum_payloads(cx: Ctx<'_, '_>, vs: Seq<(String, SymbolId)>) -> Seq<Seq<TyV>> {
    let ordered = by_discriminant(cx, vs, vs.len());
    Seq::new(ordered.len(), |i: int| payload_types(cx, ordered[i].1))
}

pub open spec fn ty_lists(ts: Seq<Vec<Ty>>) -> Seq<Seq<TyV>> {
    Seq::new(ts.len(), |i: int| ty_views(ts[i]@))
}

/// What the table of payload types says: each payload enum that has variants
/// appears with the payload types of its variants in discriminant order.
pub open spec fn is_payload_table(cx: Ctx<'_, '_>, m: Map<SymbolId, Vec<Vec<Ty>>>) -> bool {
    &&& forall|e: SymbolId|
        #![trigger m.contains_key(e)]
        m.contains_key(e) <==> cx.res.enum_has_payload@.contains(e) && cx.res.enum_variants@.contains_key(e)
    &&& forall|e: SymbolId|
        #![trigger m[e]]
        m.contains_key(e) ==> ty_lists(m[e]@) == enum_payloads(cx, cx.res.enum_variants@[e].items())
}

fn place(vs: &mut Vec<(u32, SymbolId)>, v: (u32, SymbolId))
    ensures
        final(vs)@ == placed(old(vs)@, v),
{
    let n = vs.len();
    let mut at: usize = n;
    proof {
        assert(vs@.take(n as int) =~= vs@);
        assert(placed(vs@, v) + vs@.skip(n as int) =~= placed(vs@, v));
    }
    while at > 0 && vs[at - 1].0 > v.0
        invariant
            at <= n,
            vs@ == old(vs)@,
            n == vs@.len(),
            placed(vs@, v) == placed(vs@.take(at as int), v) + vs@.skip(at as int),
        decreases at,
    {
        proof {
            let head = vs@.take(at as int);
            assert(head.drop_last() =~= vs@.take(at - 1));
            assert(placed(head, v) == placed(vs@.take(at - 1), v).push(vs@[at - 1]));
            assert(placed(vs@.take(at - 1), v).push(vs@[at - 1]) + vs@.skip(at as int) =~= placed(
                vs@.take(at - 1),
                v,
            ) + vs@.skip(at - 1));
        }
        at -= 1;
    }
    proof {
        let head = vs@.take(at as int);
        assert(head.len() == 0 || head.last().0 <= v.0);
        assert(placed(head, v) == head.push(v));
        assert(vs@.insert(at as int, v) =~= head.push(v) + vs@.skip(at as int));
    }
    vs.insert(at, v);
}

impl<'a, 's> Ctx<'a, 's> {
    fn payload_tys(&self, v: SymbolId) -> (r: Vec<Ty>)
        ensures
            ty_views(r@) == payload_types(*self, v),
    {
        let mut out: Vec<Ty> = Vec::new();
        match self.res.enum_variant_payloads.get(&v) {
            None => {
                assert(ty_views(out@) =~= payload_types(*self, v));
                out
            },
            Some(asts) => {
                let mut i: usize = 0;
                while i < asts.len()
                    invariant
                        i <= asts.len(),
                        asts@ == payloads_of(*self, v),
                        out.len() == i,
                        forall|j: int| 0 <= j < i ==> ty_view(#[trigger] out[j]) == payload_types(*self, v)[j],
                    decreases asts.len() - i,
                {
                    out.push(self.type_ty(asts[i].span()));
                    i += 1;
                }
                assert(ty_views(out@) =~= payload_types(*self, v));
                out
            },
        }
    }

    fn enum_payload_lists(&self, e: SymbolId, variants: &Table<String, SymbolId>) -> (r: Vec<Vec<Ty>>)
        requires
            self.res.wf(),
            self.res.enum_variants@.contains_key(e),
            self.res.enum_variants@[e] == *variants,
        ensures
            ty_lists(r@) == enum_payloads(*self, variants.items()),
    {
        let mut ordered: Vec<(u32, SymbolId)> = Vec::new();
        let n = variants.len();
        let mut i: usize = 0;
        while i < n
            invariant
                i <= n,
                n == variants.items().len(),
                self.res.wf(),
                self.res.enum_variants@.contains_key(e),
                self.res.enum_variants@[e] == *variants,
                ordered@ == by_discriminant(*self, variants.items(), i as nat),
            decreases n - i,
        {
            let entry = variants.entry(i);
            let v = entry.1;
            assert(self.res.enum_variants@[e]@[entry.0@] == v);
            let discriminant: u32 = match self.res.symbol(v).kind {
                SymbolKind::EnumVariant { discriminant, .. } => discriminant,
                _ => 0,
            };
            place(&mut ordered, (discriminant, v));
            i += 1;
        }
        let mut out: Vec<Vec<Ty>> = Vec::new();
        let mut k: usize = 0;
        while k < ordered.len()
            invariant
                k <= ordered.len(),
                out.len() == k,
                forall|j: int|
                    0 <= j < k ==> ty_views((#[trigger] out[j])@) == payload_types(*self, ordered[j].1),
            decreases ordered.len() - k,
        {
            out.push(self.payload_tys(ordered[k].1));
            k += 1;
        }
        assert(ty_lists(out@) =~= enum_payloads(*self, variants.items()));
        out
    }

    fn collect_enum_payloads(&self) -> (r: Table<SymbolId, Vec<Vec<Ty>>>)
        requires
            self.res.wf(),
        ensures
            is_payload_table(*self, r@),
    {
        let mut out: Table<SymbolId, Vec<Vec<Ty>>> = Table::new();
        let enums = &self.res.enum_has_payload;
        let mut i: usize = 0;
        while i < enums.len()
            invariant
                i <= enums.len(),
                self.res.wf(),
                enums@ == self.res.enum_has_payload@,
                forall|e: SymbolId|
                    #![trigger out@.contains_key(e)]
                    out@.contains_key(e) <==> enums@.take(i as int).contains(e)
                        && self.res.enum_variants@.contains_key(e),
                forall|e: SymbolId|
                    #![trigger out@[e]]
                    out@.contains_key(e) ==> ty_lists(out@[e]@) == enum_payloads(
                        *self,
                        self.res.enum_variants@[e].items(),
                    ),
            decreases enums.len() - i,
        {
            let e = enums[i];
            let ghost before = out@;
            if let Some(variants) = self.res.enum_variants.get(&e) {
                out.insert(e, self.enum_payload_lists(e, variants));
            }
            proof {
                let seen = enums@.take(i as int);
                let now = enums@.take(i + 1);
                assert(now =~= seen.push(e));
                assert forall|x: SymbolId| now.contains(x) <==> seen.contains(x) || x == e by {
                    if seen.contains(x) {
                        let j = choose|j: int| 0 <= j < seen.len() && seen[j] == x;
                        assert(now[j] == x);
                    }
                    assert(now[i as int] == e);
                }
            }
            i += 1;
        }
        assert(enums@.take(i as int) =~= enums@);
        out
    }
}

// ---- trait method tables ----

/// The method names a trait declares, in order.
pub open spec fn method_names(sigs: Seq<TraitMethodSig>) -> Seq<Seq<char>> {
    Seq::new(sigs.len(), |i: int| sigs[i].name.name@)
}

/// What the table of trait methods says.
pub open spec fn is_method_table(cx: Ctx<'_, '_>, m: Map<SymbolId, Vec<String>>) -> bool {
    &&& m.dom() == cx.res.trait_methods@.dom()
    &&& forall|t: SymbolId|
        #![trigger m[t]]
        m.contains_key(t) ==> texts(m[t]@) == method_names(cx.res.trait_methods@[t]@)
}

/// The names in a flat method list.
pub open spec fn flat_names(flat: Seq<(SymbolId, Seq<char>)>) -> Seq<Seq<char>> {
    Seq::new(flat.len(), |i: int| flat[i].1)
}

/// `flat`, then the first `k` methods of a trait whose names are not in it
/// yet.
pub open spec fn with_methods(
    flat: Seq<(SymbolId, Seq<char>)>,
    t: SymbolId,
    names: Seq<Seq<char>>,
    k: nat,
) -> Seq<(SymbolId, Seq<char>)>
    decreases k,
{
    if k == 0 || k > names.len() {
        flat
    } else {
        let before = with_methods(flat, t, names, (k - 1) as nat);
        if flat_names(before).contains(names[k - 1]) {
            before
        } else {
            before.push((t, names[k - 1]))
        }
    }
}

/// The method names a trait declares, or none.
pub open spec fn names_of(cx: Ctx<'_, '_>, t: SymbolId) -> Seq<Seq<char>> {
    if cx.res.trait_methods@.contains_key(t) {
        method_names(cx.res.trait_methods@[t]@)
    } else {
        seq![]
    }
}

/// The methods of the first `k` traits of a list, a name kept where it is
/// met first.
pub open spec fn flattened(cx: Ctx<'_, '_>, order: Seq<SymbolId>, k: nat) -> Seq<(SymbolId, Seq<char>)>
    decreases k,
{
    if k == 0 || k > order.len() {
        seq![]
    } else {
        with_methods(
            flattened(cx, order, (k - 1) as nat),
            order[k - 1],
            names_of(cx, order[k - 1]),
            names_of(cx, order[k - 1]).len(),
        )
    }
}

/// A trait's method slots: its own methods first, then those of its
/// supertraits breadth first, each name once.
pub open spec fn method_slots(cx: Ctx<'_, '_>, t: SymbolId) -> Seq<(SymbolId, Seq<char>)> {
    let order = reached(syms_map(cx.res.trait_supertraits@), seq![t], 0);
    flattened(cx, order, order.len())
}

pub open spec fn slots_view(s: Seq<(SymbolId, String)>) -> Seq<(SymbolId, Seq<char>)> {
    Seq::new(s.len(), |i: int| (s[i].0, s[i].1@))
}

/// What the table of method slots says.
pub open spec fn is_slot_table(cx: Ctx<'_, '_>, m: Map<SymbolId, Vec<(SymbolId, String)>>) -> bool {
    &&& m.dom() == cx.res.trait_methods@.dom()
    &&& forall|t: SymbolId| #![trigger m[t]] m.contains_key(t) ==> slots_view(m[t]@) == method_slots(cx, t)
}

fn names_contain(flat: &Vec<(SymbolId, String)>, name: &str) -> (r: bool)
    ensures
        r == flat_names(slots_view(flat@)).contains(name@),
{
    let mut i: usize = 0;
    while i < flat.len()
        invariant
            i <= flat.len(),
            forall|j: int| 0 <= j < i ==> (#[trigger] flat[j]).1@ != name@,
        decreases flat.len() - i,
    {
        if same_text(flat[i].1.as_str(), name) {
            assert(flat_names(slots_view(flat@))[i as int] == name@);
            return true;
        }
        i += 1;
    }
    assert forall|j: int| 0 <= j < flat@.len() implies flat_names(slots_view(flat@))[j] != name@ by {
        assert(flat[j].1@ != name@);
    }
    false
}

impl<'a, 's> Ctx<'a, 's> {
    fn collect_trait_methods(&self) -> (r: Table<SymbolId, Vec<String>>)
        ensures
            is_method_table(*self, r@),
    {
        let table = &self.res.trait_methods;
        let n = table.len();
        let mut out: Table<SymbolId, Vec<String>> = Table::new();
        let mut i: usize = 0;
        while i < n
            invariant
                i <= n,
                table == self.res.trait_methods,
                n == table.items().len(),
                forall|j: int| 0 <= j < i ==> out@.contains_key((#[trigger] table.items()[j]).0),
                forall|t: SymbolId| #![trigger out@.contains_key(t)] out@.contains_key(t) ==> table@.contains_key(t),
                forall|t: SymbolId|
                    #![trigger out@[t]]
                    out@.contains_key(t) ==> texts(out@[t]@) == method_names(table@[t]@),
            decreases n - i,
        {
            let e = table.entry(i);
            let sigs = e.1;
            let mut names: Vec<String> = Vec::new();
            let mut j: usize = 0;
            while j < sigs.len()
                invariant
                    j <= sigs.len(),
                    names.len() == j,
                    forall|k: int| 0 <= k < j ==> (#[trigger] names[k])@ == sigs@[k].name.name@,
                decreases sigs.len() - j,
            {
                names.push(sigs[j].name.name.clone());
                j += 1;
            }
            assert(texts(names@) =~= method_names(sigs@));
            out.insert(e.0, names);
            i += 1;
        }
        proof {
            assert forall|t: SymbolId| table@.contains_key(t) implies out@.contains_key(t) by {
                entry_of_key(*table, t);
            }
            assert(out@.dom() =~= table@.dom());
        }
        out
    }

    /// A trait and the traits it extends, breadth first.
    fn trait_order(&self, t: SymbolId) -> (r: Vec<SymbolId>)
        ensures
            r@ == reached(syms_map(self.res.trait_supertraits@), seq![t], 0),
    {
        let mut order: Vec<SymbolId> = Vec::new();
        order.push(t);
        assert(order@ =~= seq![t]);
        reach(&self.res.trait_supertraits, order)
    }

    fn flatten_methods(&self, t: SymbolId) -> (r: Vec<(SymbolId, String)>)
        ensures
            slots_view(r@) == method_slots(*self, t),
    {
        let order = self.trait_order(t);
        let mut flat: Vec<(SymbolId, String)> = Vec::new();
        assert(slots_view(flat@) =~= seq![]);
        let mut i: usize = 0;
        while i < order.len()
            invariant
                i <= order.len(),
                slots_view(flat@) == flattened(*self, order@, i as nat),
            decreases order.len() - i,
        {
            let ghost before = slots_view(flat@);
            let ghost names = names_of(*self, order@[i as int]);
            if let Some(sigs) = self.res.trait_methods.get(&order[i]) {
                let mut j: usize = 0;
                while j < sigs.len()
                    invariant
                        j <= sigs.len(),
                        i < order.len(),
                        names == method_names(sigs@),
                        slots_view(flat@) == with_methods(before, order@[i as int], names, j as nat),
                    decreases sigs.len() - j,
                {
                    let name = &sigs[j].name.name;
                    if !names_contain(&flat, name.as_str()) {
                        let ghost mid = slots_view(flat@);
                        flat.push((order[i], name.clone()));
                        assert(slots_view(flat@) =~= mid.push((order@[i as int], name@)));
                    }
                    j += 1;
                }
            }
            i += 1;
        }
        flat
    }

    fn collect_method_slots(&self) -> (r: Table<SymbolId, Vec<(SymbolId, String)>>)
        ensures
            is_slot_table(*self, r@),
    {
        let table = &self.res.trait_methods;
        let n = table.len();
        let mut out: Table<SymbolId, Vec<(SymbolId, String)>> = Table::new();
        let mut i: usize = 0;
        while i < n
            invariant
                i <= n,
                table == self.res.trait_methods,
                n == table.items().len(),
                forall|j: int| 0 <= j < i ==> out@.contains_key((#[trigger] table.items()[j]).0),
                forall|t: SymbolId| #![trigger out@.contains_key(t)] out@.contains_key(t) ==> table@.contains_key(t),
                forall|t: SymbolId|
                    #![trigger out@[t]]
                    out@.contains_key(t) ==> slots_view(out@[t]@) == method_slots(*self, t),
            decreases n - i,
        {
            let t = table.entry(i).0;
            out.insert(t, self.flatten_methods(t));
            i += 1;
        }
        proof {
            assert forall|t: SymbolId| table@.contains_key(t) implies out@.contains_key(t) by {
                entry_of_key(*table, t);
            }
            assert(out@.dom() =~= table@.dom());
        }
        out
    }

    fn collect_struct_sizes(&self) -> (r: Table<SymbolId, u32>)
        ensures
            is_size_table(self.check.struct_layouts@, r@),
    {
        let table = &self.check.struct_layouts;
        let n = table.len();
        let mut out: Table<SymbolId, u32> = Table::new();
        let mut i: usize = 0;
        while i < n
            invariant
                i <= n,
                n == table.items().len(),
                forall|j: int| 0 <= j < i ==> out@.contains_key((#[trigger] table.items()[j]).0),
                forall|s: SymbolId|
                    #![trigger out@.contains_key(s)]
                    out@.contains_key(s) ==> table@.contains_key(s) && out@[s] == table@[s].size,
            decreases n - i,
        {
            let e = table.entry(i);
            out.insert(e.0, e.1.size);
            i += 1;
        }
        proof {
            assert forall|s: SymbolId| table@.contains_key(s) implies out@.contains_key(s) by {
                entry_of_key(*table, s);
            }
            assert(out@.dom() =~= table@.dom());
        }
        out
    }
}

/// What the table of struct sizes says.
pub open spec fn is_size_table(layouts: Map<SymbolId, StructLayout>, m: Map<SymbolId, u32>) -> bool {
    &&& m.dom() == layouts.dom()
    &&& forall|s: SymbolId| #![trigger m[s]] m.contains_key(s) ==> m[s] == layouts[s].size
}

impl<'a, 's> Lowerer<'a, 's> {
    /// Lowers a module: its functions, methods and nested modules flattened
    /// in source order, with the tables that code generation reads.
    pub fn lower_module(&mut self, m: &Module) -> (r: HirModule)
        requires
            old(self).ctx().res.wf(),
            declared_items(old(self).ctx(), m.items@),
        ensures
            final(self).ctx() == old(self).ctx(),
            (item_views(r.items@), final(self).fresh()) == lowered_items(
                old(self).ctx(),
                m.items@,
                m.items@.len(),
                seq![],
                old(self).fresh(),
            ),
            is_arc_table(old(self).ctx().check.struct_layouts@, r.struct_arc_fields@),
            is_size_table(old(self).ctx().check.struct_layouts@, r.struct_sizes@),
            r.enum_has_payload@ == old(self).ctx().res.enum_has_payload@,
            is_payload_table(old(self).ctx(), r.enum_payload_tys@),
            same_table::<(SymbolId, String), SymbolId>(r.impl_methods@, old(self).ctx().res.impl_methods@),
            r.vec_arc_elem_tys@.len() == 0,
            r.array_tys@.len() == 0,
            is_method_table(old(self).ctx(), r.trait_methods@),
            is_slot_table(old(self).ctx(), r.trait_methods_flat@),
            same_table::<(SymbolId, String), Ty>(
                r.impl_assoc_bindings_ty@,
                old(self).ctx().check.impl_assoc_bindings_ty@,
            ),
            same_table::<SymbolId, Vec<SymbolId>>(r.struct_generics@, old(self).ctx().res.struct_generics@),
    {
        let cx = self.cx;
        let mut items: Vec<HirItem> = Vec::new();
        assert(item_views(items@) =~= seq![]);
        self.lower_items(&m.items, &mut items);
        HirModule {
            items,
            struct_arc_fields: collect_arc_fields(&cx.check.struct_layouts),
            struct_sizes: cx.collect_struct_sizes(),
            enum_has_payload: copy_syms(&cx.res.enum_has_payload),
            enum_payload_tys: cx.collect_enum_payloads(),
            impl_methods: dup_table(&cx.res.impl_methods),
            vec_arc_elem_tys: Vec::new(),
            array_tys: Vec::new(),
            trait_methods: cx.collect_trait_methods(),
            trait_methods_flat: cx.collect_method_slots(),
            impl_assoc_bindings_ty: dup_table(&cx.check.impl_assoc_bindings_ty),
            struct_generics: dup_table(&cx.res.struct_generics),
        }
    }
}

// ---- laws ----

/// Whether discriminants never go down along a list.
pub open spec fn ascending(vs: Seq<(u32, SymbolId)>) -> bool {
    forall|i: int, j: int| 0 <= i <= j < vs.len() ==> vs[i].0 <= vs[j].0
}

proof fn placing_keeps_order(vs: Seq<(u32, SymbolId)>, v: (u32, SymbolId))
    requires
        ascending(vs),
    ensures
        ascending(placed(vs, v)),
        placed(vs, v).len() == vs.len() + 1,
        forall|i: int| 0 <= i < placed(vs, v).len() ==> (#[trigger] placed(vs, v)[i] == v || vs.contains(
            placed(vs, v)[i],
        )),
    decreases vs.len(),
{
    if vs.len() > 0 && vs.last().0 > v.0 {
        let rest = vs.drop_last();
        placing_keeps_order(rest, v);
        let r = placed(vs, v);
        assert forall|i: int| 0 <= i < r.len() implies (#[trigger] r[i] == v || vs.contains(r[i])) by {
            if i < rest.len() + 1 {
                assert(r[i] == placed(rest, v)[i]);
                if r[i] != v {
                    let k = choose|k: int| 0 <= k < rest.len() && rest[k] == r[i];
                    assert(vs[k] == r[i]);
                }
            } else {
                assert(r[i] == vs[vs.len() - 1]);
            }
        }
        assert forall|i: int, j: int| 0 <= i <= j < r.len() implies r[i].0 <= r[j].0 by {
            if j < r.len() - 1 {
                assert(placed(rest, v)[i].0 <= placed(rest, v)[j].0);
            } else if i < r.len() - 1 {
                let x = placed(rest, v)[i];
                if x != v {
                    let k = choose|k: int| 0 <= k < rest.len() && rest[k] == x;
                    assert(vs[k].0 <= vs.last().0);
                }
            }
        }
    } else {
        let r = placed(vs, v);
        assert forall|i: int| 0 <= i < r.len() implies (#[trigger] r[i] == v || vs.contains(r[i])) by {
            if i < vs.len() {
                assert(vs[i] == r[i]);
            }
        }
    }
}

/// The payload lists of an enum are in discriminant order, one per variant.
pub proof fn payloads_follow_discriminants(cx: Ctx<'_, '_>, vs: Seq<(String, SymbolId)>, k: nat)
    requires
        k <= vs.len(),
    ensures
        ascending(by_discriminant(cx, vs, k)),
        by_discriminant(cx, vs, k).len() == k,
    decreases k,
{
    if k > 0 {
        payloads_follow_discriminants(cx, vs, (k - 1) as nat);
        placing_keeps_order(
            by_discriminant(cx, vs, (k - 1) as nat),
            (disc_of(cx, vs[k - 1].1), vs[k - 1].1),
        );
    }
}

proof fn adding_methods_keeps_names_distinct(
    flat: Seq<(SymbolId, Seq<char>)>,
    t: SymbolId,
    names: Seq<Seq<char>>,
    k: nat,
)
    requires
        flat_names(flat).no_duplicates(),
        k <= names.len(),
    ensures
        flat_names(with_methods(flat, t, names, k)).no_duplicates(),
        flat.len() <= with_methods(flat, t, names, k).len(),
        with_methods(flat, t, names, k).take(flat.len() as int) == flat,
        forall|j: int|
            0 <= j < k ==> flat_names(with_methods(flat, t, names, k)).contains(#[trigger] names[j]),
    decreases k,
{
    if k > 0 {
        adding_methods_keeps_names_distinct(flat, t, names, (k - 1) as nat);
        let before = with_methods(flat, t, names, (k - 1) as nat);
        let after = with_methods(flat, t, names, k);
        if !flat_names(before).contains(names[k - 1]) {
            assert(flat_names(after) =~= flat_names(before).push(names[k - 1]));
            assert(after.take(flat.len() as int) =~= before.take(flat.len() as int));
        }
        assert forall|j: int| 0 <= j < k implies flat_names(after).contains(#[trigger] names[j]) by {
            if j < k - 1 {
                assert(flat_names(before).contains(names[j]));
                let i = choose|i: int| 0 <= i < flat_names(before).len() && flat_names(before)[i] == names[j];
                assert(flat_names(after)[i] == names[j]);
            } else if !flat_names(before).contains(names[k - 1]) {
                assert(flat_names(after)[before.len() as int] == names[k - 1]);
            }
        }
    }
}

/// No method name has two slots, and every method of every trait in the list
/// has one.
pub proof fn slots_are_distinct_and_complete(cx: Ctx<'_, '_>, order: Seq<SymbolId>, k: nat)
    requires
        k <= order.len(),
    ensures
        flat_names(flattened(cx, order, k)).no_duplicates(),
        forall|i: int, j: int|
            #![trigger names_of(cx, order[i])[j]]
            0 <= i < k && 0 <= j < names_of(cx, order[i]).len() ==> flat_names(flattened(cx, order, k)).contains(
                names_of(cx, order[i])[j],
            ),
    decreases k,
{
    if k > 0 {
        slots_are_distinct_and_complete(cx, order, (k - 1) as nat);
        let before = flattened(cx, order, (k - 1) as nat);
        let after = flattened(cx, order, k);
        let names = names_of(cx, order[k - 1]);
        adding_methods_keeps_names_distinct(before, order[k - 1], names, names.len());
        assert forall|i: int, j: int|
            #![trigger names_of(cx, order[i])[j]]
            0 <= i < k && 0 <= j < names_of(cx, order[i]).len() implies flat_names(after).contains(
            names_of(cx, order[i])[j],
        ) by {
            if i < k - 1 {
                let name = names_of(cx, order[i])[j];
                assert(flat_names(before).contains(name));
                let x = choose|x: int| 0 <= x < flat_names(before).len() && flat_names(before)[x] == name;
                assert(after.take(before.len() as int)[x] == before[x]);
                assert(flat_names(after)[x] == name);
            }
        }
    }
}

proof fn distinct_methods_keep_their_slots(t: SymbolId, names: Seq<Seq<char>>, k: nat)
    requires
        names.no_duplicates(),
        k <= names.len(),
    ensures
        with_methods(seq![], t, names, k) == Seq::new(k, |i: int| (t, names[i])),
    decreases k,
{
    if k > 0 {
        distinct_methods_keep_their_slots(t, names, (k - 1) as nat);
        let before = with_methods(seq![], t, names, (k - 1) as nat);
        if flat_names(before).contains(names[k - 1]) {
            let i = choose|i: int| 0 <= i < flat_names(before).len() && flat_names(before)[i] == names[k - 1];
            assert(names[i] == names[k - 1]);
        }
        assert(with_methods(seq![], t, names, k) =~= Seq::new(k, |i: int| (t, names[i])));
    } else {
        assert(with_methods(seq![], t, names, 0) =~= Seq::new(0, |i: int| (t, names[i])));
    }
}

proof fn reached_starts_with(edges: Map<SymbolId, Seq<SymbolId>>, order: Seq<SymbolId>, i: nat)
    requires
        order.len() > 0,
    ensures
        reached(edges, order, i).len() > 0,
        reached(edges, order, i)[0] == order[0],
    decreases 0x1_0000_0000 - i,
{
    if i < order.len() && i < 0x1_0000_0000 {
        let more = next_of(edges, order[i as int]);
        with_new_extends(order, more, more.len());
        reached_starts_with(edges, with_new(order, more, more.len()), i + 1);
    }
}

proof fn with_new_extends(order: Seq<SymbolId>, more: Seq<SymbolId>, k: nat)
    requires
        order.len() > 0,
    ensures
        with_new(order, more, k).len() > 0,
        with_new(order, more, k)[0] == order[0],
    decreases k,
{
    if k > 0 && k <= more.len() {
        with_new_extends(order, more, (k - 1) as nat);
    }
}

proof fn flattened_extends(cx: Ctx<'_, '_>, order: Seq<SymbolId>, i: nat, k: nat)
    requires
        i <= k <= order.len(),
    ensures
        flattened(cx, order, i).len() <= flattened(cx, order, k).len(),
        flattened(cx, order, k).take(flattened(cx, order, i).len() as int) == flattened(cx, order, i),
    decreases k,
{
    if i < k {
        flattened_extends(cx, order, i, (k - 1) as nat);
        slots_are_distinct_and_complete(cx, order, (k - 1) as nat);
        let names = names_of(cx, order[k - 1]);
        let before = flattened(cx, order, (k - 1) as nat);
        adding_methods_keeps_names_distinct(before, order[k - 1], names, names.len());
        let n = flattened(cx, order, i).len() as int;
        assert(flattened(cx, order, k).take(n) =~= before.take(n)) by {
            assert(flattened(cx, order, k).take(before.len() as int) == before);
            assert forall|x: int| 0 <= x < n implies flattened(cx, order, k)[x] == before[x] by {
                assert(flattened(cx, order, k).take(before.len() as int)[x] == before[x]);
            }
        }
    } else {
        assert(flattened(cx, order, k).take(flattened(cx, order, i).len() as int) =~= flattened(cx, order, i));
    }
}

/// A trait's own methods take the first slots, in declaration order.
pub proof fn own_methods_come_first(cx: Ctx<'_, '_>, t: SymbolId)
    requires
        names_of(cx, t).no_duplicates(),
    ensures
        names_of(cx, t).len() <= method_slots(cx, t).len(),
        forall|i: int|
            0 <= i < names_of(cx, t).len() ==> #[trigger] method_slots(cx, t)[i] == (t, names_of(cx, t)[i]),
{
    let order = reached(syms_map(cx.res.trait_supertraits@), seq![t], 0);
    reached_starts_with(syms_map(cx.res.trait_supertraits@), seq![t], 0);
    let names = names_of(cx, t);
    distinct_methods_keep_their_slots(t, names, names.len());
    flattened_extends(cx, order, 1, order.len());
    assert(flattened(cx, order, 0) =~= seq![]);
    assert(flattened(cx, order, 1) == with_methods(seq![], t, names, names.len()));
    assert forall|i: int| 0 <= i < names.len() implies #[trigger] method_slots(cx, t)[i] == (t, names[i]) by {
        assert(method_slots(cx, t).take(names.len() as int)[i] == flattened(cx, order, 1)[i]);
    }
}

} // verus!
