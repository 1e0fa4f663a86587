//! Two ways through a HIR tree, each written once: a bottom-up rewrite, and
//! a listing of what the tree mentions in source order.

use vstd::prelude::*;

use crate::hir::{
    HirArmV, HirBlock, HirBlockV, HirExpr, HirExprKind, HirExprV, HirKindV, HirLet, HirLetV,
    HirMatchArm, HirPattern, HirPatternV, HirStmt, HirStmtV, arm_view, arm_views, bindings_view,
    expr_view, expr_views, field_views, no_expr, pattern_view, pattern_views, stmt_view,
    stmt_views,
};
use crate::ty::{SymbolId, Ty, TyV, ty_view, ty_views};

verus! {

/// A bottom-up rewrite: what happens to each type, and to each node once its
/// children are rewritten.
pub struct Rewrite {
    pub ty: spec_fn(TyV) -> TyV,
    pub kind: spec_fn(HirKindV) -> HirKindV,
}

/// A rewrite that can be carried out.
pub trait HirPass {
    spec fn rewrite(self) -> Rewrite;

    fn map_ty(&self, t: &Ty) -> (r: Ty)
        ensures
            r@ == (self.rewrite().ty)(t@),
    ;

    fn map_kind(&self, k: HirExprKind) -> (r: HirExprKind)
        ensures
            r@ == (self.rewrite().kind)(k@),
    ;
}

/// A tree with every node rewritten, children first.
pub open spec fn mapped_expr(p: Rewrite, e: HirExprV) -> HirExprV
    decreases e,
{
    HirExprV { kind: (p.kind)(mapped_kind(p, e.kind)), ty: (p.ty)(e.ty) }
}

/// A node with its children and its types rewritten, itself left as it is.
pub open spec fn mapped_kind(p: Rewrite, k: HirKindV) -> HirKindV
    decreases k,
{
    match k {
        HirKindV::Lit(l) => HirKindV::Lit(l),
        HirKindV::Local(s) => HirKindV::Local(s),
        HirKindV::Fn(s) => HirKindV::Fn(s),
        HirKindV::EnumVariant { discriminant } => HirKindV::EnumVariant { discriminant },
        HirKindV::EnumPayloadCtor { enum_sym, discriminant, payloads } => HirKindV::EnumPayloadCtor {
            enum_sym,
            discriminant,
            payloads: mapped_exprs(p, payloads),
        },
        HirKindV::Unary { op, expr } => HirKindV::Unary {
            op,
            expr: Box::new(mapped_expr(p, *expr)),
        },
        HirKindV::Cast { expr } => HirKindV::Cast {
            expr: Box::new(mapped_expr(p, *expr)),
        },
        HirKindV::Binary { op, lhs, rhs } => HirKindV::Binary {
            op,
            lhs: Box::new(mapped_expr(p, *lhs)),
            rhs: Box::new(mapped_expr(p, *rhs)),
        },
        HirKindV::Logical { op, lhs, rhs } => HirKindV::Logical {
            op,
            lhs: Box::new(mapped_expr(p, *lhs)),
            rhs: Box::new(mapped_expr(p, *rhs)),
        },
        HirKindV::Assign { lhs, rhs } => HirKindV::Assign {
            lhs,
            rhs: Box::new(mapped_expr(p, *rhs)),
        },
        HirKindV::AssignOp { lhs, op, rhs } => HirKindV::AssignOp {
            lhs,
            op,
            rhs: Box::new(mapped_expr(p, *rhs)),
        },
        HirKindV::Call { callee, args } => HirKindV::Call {
            callee,
            args: mapped_exprs(p, args),
        },
        HirKindV::IndirectCall { callee, args } => HirKindV::IndirectCall {
            callee: Box::new(mapped_expr(p, *callee)),
            args: mapped_exprs(p, args),
        },
        HirKindV::BuiltinCall { name, args } => HirKindV::BuiltinCall {
            name,
            args: mapped_exprs(p, args),
        },
        HirKindV::MethodCall { receiver, method, args } => HirKindV::MethodCall {
            receiver: Box::new(mapped_expr(p, *receiver)),
            method,
            args: mapped_exprs(p, args),
        },
        HirKindV::DynBox { value, struct_sym, trait_sym } => HirKindV::DynBox {
            value: Box::new(mapped_expr(p, *value)),
            struct_sym,
            trait_sym,
        },
        HirKindV::DynCall { receiver, trait_sym, method, args } => HirKindV::DynCall {
            receiver: Box::new(mapped_expr(p, *receiver)),
            trait_sym,
            method,
            args: mapped_exprs(p, args),
        },
        HirKindV::StructLit { sym, fields, size } => HirKindV::StructLit {
            sym,
            fields: mapped_fields(p, fields),
            size,
        },
        HirKindV::FieldAccess { receiver, offset, field_ty } => HirKindV::FieldAccess {
            receiver: Box::new(mapped_expr(p, *receiver)),
            offset,
            field_ty: (p.ty)(field_ty),
        },
        HirKindV::FieldAssign { receiver, offset, field_ty, rhs } => HirKindV::FieldAssign {
            receiver: Box::new(mapped_expr(p, *receiver)),
            offset,
            field_ty: (p.ty)(field_ty),
            rhs: Box::new(mapped_expr(p, *rhs)),
        },
        HirKindV::Array { elems, elem_ty } => HirKindV::Array {
            elems: mapped_exprs(p, elems),
            elem_ty: (p.ty)(elem_ty),
        },
        HirKindV::Index { array, index, elem_ty } => HirKindV::Index {
            array: Box::new(mapped_expr(p, *array)),
            index: Box::new(mapped_expr(p, *index)),
            elem_ty: (p.ty)(elem_ty),
        },
        HirKindV::StrByteIndex { str_val, index } => HirKindV::StrByteIndex {
            str_val: Box::new(mapped_expr(p, *str_val)),
            index: Box::new(mapped_expr(p, *index)),
        },
        HirKindV::StrSlice { str_val, start, end, inclusive } => HirKindV::StrSlice {
            str_val: Box::new(mapped_expr(p, *str_val)),
            start: Box::new(mapped_expr(p, *start)),
            end: Box::new(mapped_expr(p, *end)),
            inclusive,
        },
        HirKindV::If { cond, then_b, else_b } => HirKindV::If {
            cond: Box::new(mapped_expr(p, *cond)),
            then_b: mapped_block(p, then_b),
            else_b: match else_b {
                Some(e) => Some(Box::new(mapped_expr(p, *e))),
                None => None,
            },
        },
        HirKindV::While { cond, body } => HirKindV::While {
            cond: Box::new(mapped_expr(p, *cond)),
            body: mapped_block(p, body),
        },
        HirKindV::For { local, iter, body, elem_ty, length } => HirKindV::For {
            local,
            iter: Box::new(mapped_expr(p, *iter)),
            body: mapped_block(p, body),
            elem_ty: (p.ty)(elem_ty),
            length,
        },
        HirKindV::ForRange { local, start, end, inclusive, body } => HirKindV::ForRange {
            local,
            start: Box::new(mapped_expr(p, *start)),
            end: Box::new(mapped_expr(p, *end)),
            inclusive,
            body: mapped_block(p, body),
        },
        HirKindV::Match { scrutinee, arms } => HirKindV::Match {
            scrutinee: Box::new(mapped_expr(p, *scrutinee)),
            arms: mapped_arms(p, arms),
        },
        HirKindV::Block(b) => HirKindV::Block(mapped_block(p, b)),
        HirKindV::Return(v) => HirKindV::Return(
            match v {
                Some(e) => Some(Box::new(mapped_expr(p, *e))),
                None => None,
            },
        ),
        HirKindV::Break => HirKindV::Break,
        HirKindV::Unsupported(m) => HirKindV::Unsupported(m),
    }
}

pub open spec fn mapped_exprs(p: Rewrite, es: Seq<HirExprV>) -> Seq<HirExprV>
    decreases es,
{
    Seq::new(es.len(), |i: int| if 0 <= i < es.len() { mapped_expr(p, es[i]) } else { no_expr() })
}

pub open spec fn mapped_fields(p: Rewrite, fs: Seq<(u32, HirExprV)>) -> Seq<(u32, HirExprV)>
    decreases fs,
{
    Seq::new(
        fs.len(),
        |i: int|
            if 0 <= i < fs.len() {
                (fs[i].0, mapped_expr(p, fs[i].1))
            } else {
                (0, no_expr())
            },
    )
}

/// Only the payload types of a pattern are rewritten.
pub open spec fn mapped_pattern(p: Rewrite, pat: HirPatternV) -> HirPatternV {
    match pat {
        HirPatternV::EnumPayload { discriminant, bindings } => HirPatternV::EnumPayload {
            discriminant,
            bindings: Seq::new(bindings.len(), |i: int| ((p.ty)(bindings[i].0), bindings[i].1)),
        },
        _ => pat,
    }
}

pub open spec fn mapped_arm(p: Rewrite, a: HirArmV) -> HirArmV
    decreases a,
{
    HirArmV {
        patterns: Seq::new(a.patterns.len(), |i: int| mapped_pattern(p, a.patterns[i])),
        guard: match a.guard {
            Some(g) => Some(mapped_expr(p, g)),
            None => None,
        },
        body: mapped_expr(p, a.body),
    }
}

pub open spec fn mapped_arms(p: Rewrite, arms: Seq<HirArmV>) -> Seq<HirArmV>
    decreases arms,
{
    Seq::new(
        arms.len(),
        |i: int|
            if 0 <= i < arms.len() {
                mapped_arm(p, arms[i])
            } else {
                HirArmV { patterns: seq![], guard: None, body: no_expr() }
            },
    )
}

pub open spec fn mapped_stmt(p: Rewrite, s: HirStmtV) -> HirStmtV
    decreases s,
{
    match s {
        HirStmtV::Let(l) => HirStmtV::Let(
            HirLetV {
                sym: l.sym,
                mutable: l.mutable,
                ty: (p.ty)(l.ty),
                init: match l.init {
                    Some(e) => Some(mapped_expr(p, e)),
                    None => None,
                },
            },
        ),
        HirStmtV::Expr(e, semi) => HirStmtV::Expr(mapped_expr(p, e), semi),
    }
}

pub open spec fn mapped_stmts(p: Rewrite, ss: Seq<HirStmtV>) -> Seq<HirStmtV>
    decreases ss,
{
    Seq::new(
        ss.len(),
        |i: int| if 0 <= i < ss.len() { mapped_stmt(p, ss[i]) } else { HirStmtV::Expr(no_expr(), true) },
    )
}

pub open spec fn mapped_block(p: Rewrite, b: HirBlockV) -> HirBlockV
    decreases b,
{
    HirBlockV { stmts: mapped_stmts(p, b.stmts), ty: (p.ty)(b.ty) }
}

pub fn map_expr<P: HirPass>(p: &P, e: &HirExpr) -> (r: HirExpr)
    ensures
        r@ == mapped_expr(p.rewrite(), e@),
    decreases e,
{
    let kind = map_children(p, &e.kind);
    HirExpr { ty: p.map_ty(&e.ty), kind: p.map_kind(kind) }
}

fn map_children<P: HirPass>(p: &P, k: &HirExprKind) -> (r: HirExprKind)
    ensures
        r@ == mapped_kind(p.rewrite(), k@),
    decreases k,
{
    match k {
        HirExprKind::Lit(l) => HirExprKind::Lit(l.copy()),
        HirExprKind::Local(s) => HirExprKind::Local(*s),
        HirExprKind::Fn(s) => HirExprKind::Fn(*s),
        HirExprKind::EnumVariant { discriminant } => HirExprKind::EnumVariant {
            discriminant: *discriminant,
        },
        HirExprKind::EnumPayloadCtor { enum_sym, discriminant, payloads } => HirExprKind::EnumPayloadCtor {
            enum_sym: *enum_sym,
            discriminant: *discriminant,
            payloads: map_exprs(p, payloads),
        },
        HirExprKind::Unary { op, expr } => HirExprKind::Unary {
            op: *op,
            expr: Box::new(map_expr(p, expr)),
        },
        HirExprKind::Cast { expr } => HirExprKind::Cast {
            expr: Box::new(map_expr(p, expr)),
        },
        HirExprKind::Binary { op, lhs, rhs } => HirExprKind::Binary {
            op: *op,
            lhs: Box::new(map_expr(p, lhs)),
            rhs: Box::new(map_expr(p, rhs)),
        },
        HirExprKind::Logical { op, lhs, rhs } => HirExprKind::Logical {
            op: *op,
            lhs: Box::new(map_expr(p, lhs)),
            rhs: Box::new(map_expr(p, rhs)),
        },
        HirExprKind::Assign { lhs, rhs } => HirExprKind::Assign {
            lhs: *lhs,
            rhs: Box::new(map_expr(p, rhs)),
        },
        HirExprKind::AssignOp { lhs, op, rhs } => HirExprKind::AssignOp {
            lhs: *lhs,
            op: *op,
            rhs: Box::new(map_expr(p, rhs)),
        },
        HirExprKind::Call { callee, args } => HirExprKind::Call {
            callee: *callee,
            args: map_exprs(p, args),
        },
        HirExprKind::IndirectCall { callee, args } => HirExprKind::IndirectCall {
            callee: Box::new(map_expr(p, callee)),
            args: map_exprs(p, args),
        },
        HirExprKind::BuiltinCall { name, args } => HirExprKind::BuiltinCall {
            name: name.clone(),
            args: map_exprs(p, args),
        },
        HirExprKind::MethodCall { receiver, method, args } => HirExprKind::MethodCall {
            receiver: Box::new(map_expr(p, receiver)),
            method: method.clone(),
            args: map_exprs(p, args),
        },
        HirExprKind::DynBox { value, struct_sym, trait_sym } => HirExprKind::DynBox {
            value: Box::new(map_expr(p, value)),
            struct_sym: *struct_sym,
            trait_sym: *trait_sym,
        },
        HirExprKind::DynCall { receiver, trait_sym, method, args } => HirExprKind::DynCall {
            receiver: Box::new(map_expr(p, receiver)),
            trait_sym: *trait_sym,
            method: method.clone(),
            args: map_exprs(p, args),
        },
        HirExprKind::StructLit { sym, fields, size } => HirExprKind::StructLit {
            sym: *sym,
            fields: map_fields(p, fields),
            size: *size,
        },
        HirExprKind::FieldAccess { receiver, offset, field_ty } => HirExprKind::FieldAccess {
            receiver: Box::new(map_expr(p, receiver)),
            offset: *offset,
            field_ty: p.map_ty(field_ty),
        },
        HirExprKind::FieldAssign { receiver, offset, field_ty, rhs } => HirExprKind::FieldAssign {
            receiver: Box::new(map_expr(p, receiver)),
            offset: *offset,
            field_ty: p.map_ty(field_ty),
            rhs: Box::new(map_expr(p, rhs)),
        },
        HirExprKind::Array { elems, elem_ty } => HirExprKind::Array {
            elems: map_exprs(p, elems),
            elem_ty: p.map_ty(elem_ty),
        },
        HirExprKind::Index { array, index, elem_ty } => HirExprKind::Index {
            array: Box::new(map_expr(p, array)),
            index: Box::new(map_expr(p, index)),
            elem_ty: p.map_ty(elem_ty),
        },
        HirExprKind::StrByteIndex { str_val, index } => HirExprKind::StrByteIndex {
            str_val: Box::new(map_expr(p, str_val)),
            index: Box::new(map_expr(p, index)),
        },
        HirExprKind::StrSlice { str_val, start, end, inclusive } => HirExprKind::StrSlice {
            str_val: Box::new(map_expr(p, str_val)),
            start: Box::new(map_expr(p, start)),
            end: Box::new(map_expr(p, end)),
            inclusive: *inclusive,
        },
        HirExprKind::If { cond, then_b, else_b } => HirExprKind::If {
            cond: Box::new(map_expr(p, cond)),
            then_b: map_block(p, then_b),
            else_b: match else_b {
                Some(e) => Some(Box::new(map_expr(p, e))),
                None => None,
            },
        },
        HirExprKind::While { cond, body } => HirExprKind::While {
            cond: Box::new(map_expr(p, cond)),
            body: map_block(p, body),
        },
        HirExprKind::For { local, iter, body, elem_ty, length } => HirExprKind::For {
            local: *local,
            iter: Box::new(map_expr(p, iter)),
            body: map_block(p, body),
            elem_ty: p.map_ty(elem_ty),
            length: *length,
        },
        HirExprKind::ForRange { local, start, end, inclusive, body } => HirExprKind::ForRange {
            local: *local,
            start: Box::new(map_expr(p, start)),
            end: Box::new(map_expr(p, end)),
            inclusive: *inclusive,
            body: map_block(p, body),
        },
        HirExprKind::Match { scrutinee, arms } => HirExprKind::Match {
            scrutinee: Box::new(map_expr(p, scrutinee)),
            arms: map_arms(p, arms),
        },
        HirExprKind::Block(b) => HirExprKind::Block(map_block(p, b)),
        HirExprKind::Return(v) => HirExprKind::Return(
            match v {
                Some(e) => Some(Box::new(map_expr(p, e))),
                None => None,
            },
        ),
        HirExprKind::Break => HirExprKind::Break,
        HirExprKind::Unsupported(m) => HirExprKind::Unsupported(m.clone()),
    }
}

fn map_exprs<P: HirPass>(p: &P, es: &Vec<HirExpr>) -> (r: Vec<HirExpr>)
    ensures
        expr_views(r@) == mapped_exprs(p.rewrite(), expr_views(es@)),
    decreases es,
{
    let mut out: Vec<HirExpr> = Vec::new();
    let mut i: usize = 0;
    while i < es.len()
        invariant
            i <= es.len(),
            out.len() == i,
            forall|j: int| 0 <= j < i ==> expr_view(#[trigger] out[j]) == mapped_expr(p.rewrite(), expr_view(es[j])),
        decreases es.len() - i,
    {
        out.push(map_expr(p, &es[i]));
        i += 1;
    }
    assert(expr_views(out@) =~= mapped_exprs(p.rewrite(), expr_views(es@)));
    out
}

fn map_fields<P: HirPass>(p: &P, fs: &Vec<(u32, HirExpr)>) -> (r: Vec<(u32, HirExpr)>)
    ensures
        field_views(r@) == mapped_fields(p.rewrite(), field_views(fs@)),
    decreases fs,
{
    let mut out: Vec<(u32, HirExpr)> = Vec::new();
    let mut i: usize = 0;
    while i < fs.len()
        invariant
            i <= fs.len(),
            out.len() == i,
            forall|j: int|
                0 <= j < i ==> (#[trigger] out[j]).0 == fs[j].0 && expr_view(out[j].1) == mapped_expr(
                    p.rewrite(),
                    expr_view(fs[j].1),
                ),
        decreases fs.len() - i,
    {
        out.push((fs[i].0, map_expr(p, &fs[i].1)));
        i += 1;
    }
    assert(field_views(out@) =~= mapped_fields(p.rewrite(), field_views(fs@)));
    out
}

fn map_pattern<P: HirPass>(p: &P, pat: &HirPattern) -> (r: HirPattern)
    ensures
        r@ == mapped_pattern(p.rewrite(), pat@),
{
    match pat {
        HirPattern::Wildcard => HirPattern::Wildcard,
        HirPattern::Bind(s) => HirPattern::Bind(*s),
        HirPattern::IntLit(v) => HirPattern::IntLit(*v),
        HirPattern::BoolLit(b) => HirPattern::BoolLit(*b),
        HirPattern::StrLit(s) => HirPattern::StrLit(s.clone()),
        HirPattern::EnumVariant { discriminant } => HirPattern::EnumVariant {
            discriminant: *discriminant,
        },
        HirPattern::EnumPayload { discriminant, bindings } => {
            let mut out: Vec<(Ty, Option<SymbolId>)> = Vec::new();
            let mut i: usize = 0;
            while i < bindings.len()
                invariant
                    i <= bindings.len(),
                    out.len() == i,
                    forall|j: int|
                        0 <= j < i ==> (#[trigger] out[j]).0@ == (p.rewrite().ty)(bindings[j].0@) && out[j].1
                            == bindings[j].1,
                decreases bindings.len() - i,
            {
                out.push((p.map_ty(&bindings[i].0), bindings[i].1));
                i += 1;
            }
            let r = HirPattern::EnumPayload { discriminant: *discriminant, bindings: out };
            assert(r@->bindings =~= mapped_pattern(p.rewrite(), pat@)->bindings);
            r
        },
        HirPattern::IntRange { lo, hi, inclusive } => HirPattern::IntRange {
            lo: *lo,
            hi: *hi,
            inclusive: *inclusive,
        },
    }
}

fn map_arm<P: HirPass>(p: &P, a: &HirMatchArm) -> (r: HirMatchArm)
    ensures
        r@ == mapped_arm(p.rewrite(), a@),
    decreases a,
{
    let mut patterns: Vec<HirPattern> = Vec::new();
    let mut i: usize = 0;
    while i < a.patterns.len()
        invariant
            i <= a.patterns.len(),
            patterns.len() == i,
            forall|j: int|
                0 <= j < i ==> pattern_view(#[trigger] patterns[j]) == mapped_pattern(
                    p.rewrite(),
                    pattern_view(a.patterns[j]),
                ),
        decreases a.patterns.len() - i,
    {
        patterns.push(map_pattern(p, &a.patterns[i]));
        i += 1;
    }
    let guard = match &a.guard {
        Some(g) => Some(map_expr(p, g)),
        None => None,
    };
    let r = HirMatchArm { patterns, guard, body: map_expr(p, &a.body) };
    assert(r@.patterns =~= mapped_arm(p.rewrite(), a@).patterns);
    r
}

fn map_arms<P: HirPass>(p: &P, arms: &Vec<HirMatchArm>) -> (r: Vec<HirMatchArm>)
    ensures
        arm_views(r@) == mapped_arms(p.rewrite(), arm_views(arms@)),
    decreases arms,
{
    let mut out: Vec<HirMatchArm> = Vec::new();
    let mut i: usize = 0;
    while i < arms.len()
        invariant
            i <= arms.len(),
            out.len() == i,
            forall|j: int| 0 <= j < i ==> arm_view(#[trigger] out[j]) == mapped_arm(p.rewrite(), arm_view(arms[j])),
        decreases arms.len() - i,
    {
        out.push(map_arm(p, &arms[i]));
        i += 1;
    }
    assert(arm_views(out@) =~= mapped_arms(p.rewrite(), arm_views(arms@)));
    out
}

fn map_stmt<P: HirPass>(p: &P, s: &HirStmt) -> (r: HirStmt)
    ensures
        r@ == mapped_stmt(p.rewrite(), s@),
    decreases s,
{
    match s {
        HirStmt::Let(l) => HirStmt::Let(
            HirLet {
                sym: l.sym,
                mutable: l.mutable,
                ty: p.map_ty(&l.ty),
                init: match &l.init {
                    Some(e) => Some(map_expr(p, e)),
                    None => None,
                },
            },
        ),
        HirStmt::Expr(e, semi) => HirStmt::Expr(map_expr(p, e), *semi),
    }
}

pub fn map_block<P: HirPass>(p: &P, b: &HirBlock) -> (r: HirBlock)
    ensures
        r@ == mapped_block(p.rewrite(), b@),
    decreases b,
{
    let mut out: Vec<HirStmt> = Vec::new();
    let mut i: usize = 0;
    while i < b.stmts.len()
        invariant
            i <= b.stmts.len(),
            out.len() == i,
            forall|j: int|
                0 <= j < i ==> stmt_view(#[trigger] out[j]) == mapped_stmt(p.rewrite(), stmt_view(b.stmts[j])),
        decreases b.stmts.len() - i,
    {
        out.push(map_stmt(p, &b.stmts[i]));
        i += 1;
    }
    assert(stmt_views(out@) =~= mapped_stmts(p.rewrite(), stmt_views(b.stmts@)));
    HirBlock { stmts: out, ty: p.map_ty(&b.ty) }
}

// ---- copying ----

/// The rewrite that changes nothing.
pub open spec fn unchanged() -> Rewrite {
    Rewrite { ty: |t: TyV| t, kind: |k: HirKindV| k }
}

struct CopyPass;

impl HirPass for CopyPass {
    closed spec fn rewrite(self) -> Rewrite {
        unchanged()
    }

    fn map_ty(&self, t: &Ty) -> (r: Ty) {
        t.copy()
    }

    fn map_kind(&self, k: HirExprKind) -> (r: HirExprKind) {
        k
    }
}

/// A copy of a node.
pub fn copy_kind(k: &HirExprKind) -> (r: HirExprKind)
    ensures
        r@ == k@,
{
    proof {
        unchanged_kind(k@);
    }
    map_children(&CopyPass, k)
}

impl Clone for HirExpr {
    fn clone(&self) -> (r: Self)
        ensures
            r@ == self@,
    {
        proof {
            unchanged_expr(self@);
        }
        map_expr(&CopyPass, self)
    }
}

impl Clone for HirExprKind {
    fn clone(&self) -> (r: Self)
        ensures
            r@ == self@,
    {
        copy_kind(self)
    }
}

impl Clone for HirPattern {
    fn clone(&self) -> (r: Self)
        ensures
            r@ == self@,
    {
        proof {
            if let HirPatternV::EnumPayload { discriminant, bindings } = self@ {
                assert(mapped_pattern(unchanged(), self@)->bindings =~= bindings);
            }
        }
        map_pattern(&CopyPass, self)
    }
}

impl Clone for HirMatchArm {
    fn clone(&self) -> (r: Self)
        ensures
            r@ == self@,
    {
        proof {
            unchanged_arm(self@);
        }
        map_arm(&CopyPass, self)
    }
}

impl Clone for HirBlock {
    fn clone(&self) -> (r: Self)
        ensures
            r@ == self@,
    {
        proof {
            unchanged_block(self@);
        }
        map_block(&CopyPass, self)
    }
}

impl Clone for HirStmt {
    fn clone(&self) -> (r: Self)
        ensures
            r@ == self@,
    {
        proof {
            unchanged_stmt(self@);
        }
        map_stmt(&CopyPass, self)
    }
}

proof fn unchanged_expr(e: HirExprV)
    ensures
        mapped_expr(unchanged(), e) == e,
    decreases e,
{
    unchanged_kind(e.kind);
}

proof fn unchanged_kind(k: HirKindV)
    ensures
        mapped_kind(unchanged(), k) == k,
    decreases k,
{
    match k {
        HirKindV::EnumPayloadCtor { payloads, .. } => {
            unchanged_exprs(payloads);
        },
        HirKindV::Unary { expr, .. } => {
            unchanged_expr(*expr);
        },
        HirKindV::Cast { expr, .. } => {
            unchanged_expr(*expr);
        },
        HirKindV::Binary { lhs, rhs, .. } => {
            unchanged_expr(*lhs);
            unchanged_expr(*rhs);
        },
        HirKindV::Logical { lhs, rhs, .. } => {
            unchanged_expr(*lhs);
            unchanged_expr(*rhs);
        },
        HirKindV::Assign { rhs, .. } => {
            unchanged_expr(*rhs);
        },
        HirKindV::AssignOp { rhs, .. } => {
            unchanged_expr(*rhs);
        },
        HirKindV::Call { args, .. } => {
            unchanged_exprs(args);
        },
        HirKindV::IndirectCall { callee, args, .. } => {
            unchanged_expr(*callee);
            unchanged_exprs(args);
        },
        HirKindV::BuiltinCall { args, .. } => {
            unchanged_exprs(args);
        },
        HirKindV::MethodCall { receiver, args, .. } => {
            unchanged_expr(*receiver);
            unchanged_exprs(args);
        },
        HirKindV::DynBox { value, .. } => {
            unchanged_expr(*value);
        },
        HirKindV::DynCall { receiver, args, .. } => {
            unchanged_expr(*receiver);
            unchanged_exprs(args);
        },
        HirKindV::StructLit { fields, .. } => {
            unchanged_fields(fields);
        },
        HirKindV::FieldAccess { receiver, .. } => {
            unchanged_expr(*receiver);
        },
        HirKindV::FieldAssign { receiver, rhs, .. } => {
            unchanged_expr(*receiver);
            unchanged_expr(*rhs);
        },
        HirKindV::Array { elems, .. } => {
            unchanged_exprs(elems);
        },
        HirKindV::Index { array, index, .. } => {
            unchanged_expr(*array);
            unchanged_expr(*index);
        },
        HirKindV::StrByteIndex { str_val, index, .. } => {
            unchanged_expr(*str_val);
            unchanged_expr(*index);
        },
        HirKindV::StrSlice { str_val, start, end, .. } => {
            unchanged_expr(*str_val);
            unchanged_expr(*start);
            unchanged_expr(*end);
        },
        HirKindV::If { cond, then_b, else_b, .. } => {
            unchanged_expr(*cond);
            unchanged_block(then_b);
            if let Some(e) = else_b {
                unchanged_expr(*e);
            }
        },
        HirKindV::While { cond, body, .. } => {
            unchanged_expr(*cond);
            unchanged_block(body);
        },
        HirKindV::For { iter, body, .. } => {
            unchanged_expr(*iter);
            unchanged_block(body);
        },
        HirKindV::ForRange { start, end, body, .. } => {
            unchanged_expr(*start);
            unchanged_expr(*end);
            unchanged_block(body);
        },
        HirKindV::Match { scrutinee, arms, .. } => {
            unchanged_expr(*scrutinee);
            unchanged_arms(arms);
        },
        HirKindV::Block(b) => unchanged_block(b),
        HirKindV::Return(v) => {
            if let Some(e) = v {
                unchanged_expr(*e);
            }
        },
        _ => {},
    }
}

proof fn unchanged_exprs(es: Seq<HirExprV>)
    ensures
        mapped_exprs(unchanged(), es) == es,
    decreases es,
{
    assert forall|i: int| 0 <= i < es.len() implies mapped_exprs(unchanged(), es)[i] == es[i] by {
        unchanged_expr(es[i]);
    }
    assert(mapped_exprs(unchanged(), es) =~= es);
}

proof fn unchanged_fields(fs: Seq<(u32, HirExprV)>)
    ensures
        mapped_fields(unchanged(), fs) == fs,
    decreases fs,
{
    assert forall|i: int| 0 <= i < fs.len() implies mapped_fields(unchanged(), fs)[i] == fs[i] by {
        unchanged_expr(fs[i].1);
    }
    assert(mapped_fields(unchanged(), fs) =~= fs);
}

proof fn unchanged_arm(a: HirArmV)
    ensures
        mapped_arm(unchanged(), a) == a,
    decreases a,
{
    if let Some(g) = a.guard {
        unchanged_expr(g);
    }
    unchanged_expr(a.body);
    assert forall|i: int| 0 <= i < a.patterns.len() implies mapped_pattern(unchanged(), a.patterns[i])
        == a.patterns[i] by {
        if let HirPatternV::EnumPayload { discriminant, bindings } = a.patterns[i] {
            assert(mapped_pattern(unchanged(), a.patterns[i])->bindings =~= bindings);
        }
    }
    assert(mapped_arm(unchanged(), a).patterns =~= a.patterns);
}

proof fn unchanged_arms(arms: Seq<HirArmV>)
    ensures
        mapped_arms(unchanged(), arms) == arms,
    decreases arms,
{
    assert forall|i: int| 0 <= i < arms.len() implies mapped_arms(unchanged(), arms)[i] == arms[i] by {
        unchanged_arm(arms[i]);
    }
    assert(mapped_arms(unchanged(), arms) =~= arms);
}

proof fn unchanged_stmt(s: HirStmtV)
    ensures
        mapped_stmt(unchanged(), s) == s,
{
    unchanged_stmts(seq![s]);
    assert(mapped_stmts(unchanged(), seq![s])[0] == seq![s][0]);
}

proof fn unchanged_block(b: HirBlockV)
    ensures
        mapped_block(unchanged(), b) == b,
    decreases b,
{
    unchanged_stmts(b.stmts);
}

proof fn unchanged_stmts(ss: Seq<HirStmtV>)
    ensures
        mapped_stmts(unchanged(), ss) == ss,
    decreases ss,
{
    assert forall|i: int| 0 <= i < ss.len() implies mapped_stmts(unchanged(), ss)[i] == ss[i] by {
        match ss[i] {
            HirStmtV::Let(l) => {
                if let Some(e) = l.init {
                    unchanged_expr(e);
                }
            },
            HirStmtV::Expr(e, _) => unchanged_expr(e),
        }
    }
    assert(mapped_stmts(unchanged(), ss) =~= ss);
}

// ---- listing ----

/// Something a tree mentions.
#[derive(Debug)]
pub enum Mention {
    Ty(Ty),
    Sym(SymbolId),
    /// A direct call, with the types of its arguments.
    Call(SymbolId, Vec<Ty>),
}

pub enum MentionV {
    Ty(TyV),
    Sym(SymbolId),
    Call(SymbolId, Seq<TyV>),
}

pub open spec fn mention_view(m: Mention) -> MentionV {
    match m {
        Mention::Ty(t) => MentionV::Ty(t@),
        Mention::Sym(s) => MentionV::Sym(s),
        Mention::Call(s, ts) => MentionV::Call(s, ty_views(ts@)),
    }
}

pub open spec fn mention_views(ms: Seq<Mention>) -> Seq<MentionV> {
    Seq::new(ms.len(), |i: int| mention_view(ms[i]))
}

/// The types of several expressions.
pub open spec fn expr_tys(es: Seq<HirExprV>) -> Seq<TyV> {
    Seq::new(es.len(), |i: int| es[i].ty)
}

/// `acc`, then what an expression mentions, outer nodes first.
pub open spec fn expr_mentions(acc: Seq<MentionV>, e: HirExprV) -> Seq<MentionV>
    decreases e,
{
    kind_mentions(acc.push(MentionV::Ty(e.ty)), e.kind)
}

/// `acc`, then what a node mentions: its own symbols and types, then its
/// children in order.
pub open spec fn kind_mentions(acc: Seq<MentionV>, k: HirKindV) -> Seq<MentionV>
    decreases k,
{
    match k {
        HirKindV::Lit(_) => acc,
        HirKindV::Local(s) => acc.push(MentionV::Sym(s)),
        HirKindV::Fn(s) => acc.push(MentionV::Sym(s)),
        HirKindV::EnumVariant { .. } => acc,
        HirKindV::EnumPayloadCtor { enum_sym, payloads, .. } => exprs_mentions(acc.push(MentionV::Sym(enum_sym)), payloads, payloads.len()),
        HirKindV::Unary { expr, .. } => expr_mentions(acc, *expr),
        HirKindV::Cast { expr } => expr_mentions(acc, *expr),
        HirKindV::Binary { lhs, rhs, .. } => expr_mentions(expr_mentions(acc, *lhs), *rhs),
        HirKindV::Logical { lhs, rhs, .. } => expr_mentions(expr_mentions(acc, *lhs), *rhs),
        HirKindV::Assign { lhs, rhs } => expr_mentions(acc.push(MentionV::Sym(lhs)), *rhs),
        HirKindV::AssignOp { lhs, rhs, .. } => expr_mentions(acc.push(MentionV::Sym(lhs)), *rhs),
        HirKindV::Call { callee, args } => exprs_mentions(acc.push(MentionV::Sym(callee)).push(MentionV::Call(callee, expr_tys(args))), args, args.len()),
        HirKindV::IndirectCall { callee, args } => exprs_mentions(expr_mentions(acc, *callee), args, args.len()),
        HirKindV::BuiltinCall { args, .. } => exprs_mentions(acc, args, args.len()),
        HirKindV::MethodCall { receiver, args, .. } => exprs_mentions(expr_mentions(acc, *receiver), args, args.len()),
        HirKindV::DynBox { value, struct_sym, trait_sym } => expr_mentions(acc.push(MentionV::Sym(struct_sym)).push(MentionV::Sym(trait_sym)), *value),
        HirKindV::DynCall { receiver, trait_sym, args, .. } => exprs_mentions(expr_mentions(acc.push(MentionV::Sym(trait_sym)), *receiver), args, args.len()),
        HirKindV::StructLit { sym, fields, .. } => fields_mentions(acc.push(MentionV::Sym(sym)), fields, fields.len()),
        HirKindV::FieldAccess { receiver, field_ty, .. } => expr_mentions(acc.push(MentionV::Ty(field_ty)), *receiver),
        HirKindV::FieldAssign { receiver, field_ty, rhs, .. } => expr_mentions(expr_mentions(acc.push(MentionV::Ty(field_ty)), *receiver), *rhs),
        HirKindV::Array { elems, elem_ty } => exprs_mentions(acc.push(MentionV::Ty(elem_ty)), elems, elems.len()),
        HirKindV::Index { array, index, elem_ty } => expr_mentions(expr_mentions(acc.push(MentionV::Ty(elem_ty)), *array), *index),
        HirKindV::StrByteIndex { str_val, index } => expr_mentions(expr_mentions(acc, *str_val), *index),
        HirKindV::StrSlice { str_val, start, end, .. } => expr_mentions(expr_mentions(expr_mentions(acc, *str_val), *start), *end),
        HirKindV::If { cond, then_b, else_b } => {
            let acc1 = block_mentions(expr_mentions(acc, *cond), then_b);
            match else_b {
                Some(e) => expr_mentions(acc1, *e),
                None => acc1,
            }
        },
        HirKindV::While { cond, body } => block_mentions(expr_mentions(acc, *cond), body),
        HirKindV::For { local, iter, body, elem_ty, .. } => block_mentions(expr_mentions(opt_sym_mentions(acc, local).push(MentionV::Ty(elem_ty)), *iter), body),
        HirKindV::ForRange { local, start, end, body, .. } => block_mentions(expr_mentions(expr_mentions(opt_sym_mentions(acc, local), *start), *end), body),
        HirKindV::Match { scrutinee, arms } => arms_mentions(expr_mentions(acc, *scrutinee), arms, arms.len()),
        HirKindV::Block(b) => block_mentions(acc, b),
        HirKindV::Return(v) => match v {
            Some(e) => expr_mentions(acc, *e),
            None => acc,
        },
        HirKindV::Break => acc,
        HirKindV::Unsupported(_) => acc,
    }
}

pub open spec fn opt_sym_mentions(acc: Seq<MentionV>, s: Option<SymbolId>) -> Seq<MentionV> {
    match s {
        Some(s) => acc.push(MentionV::Sym(s)),
        None => acc,
    }
}

/// `acc`, then what the first `n` expressions mention.
pub open spec fn exprs_mentions(acc: Seq<MentionV>, es: Seq<HirExprV>, n: nat) -> Seq<MentionV>
    decreases es, n,
{
    if n == 0 || n > es.len() {
        acc
    } else {
        expr_mentions(exprs_mentions(acc, es, (n - 1) as nat), es[n - 1])
    }
}

pub open spec fn fields_mentions(acc: Seq<MentionV>, fs: Seq<(u32, HirExprV)>, n: nat) -> Seq<MentionV>
    decreases fs, n,
{
    if n == 0 || n > fs.len() {
        acc
    } else {
        expr_mentions(fields_mentions(acc, fs, (n - 1) as nat), fs[n - 1].1)
    }
}

pub open spec fn bindings_mentions(
    acc: Seq<MentionV>,
    bs: Seq<(TyV, Option<SymbolId>)>,
    n: nat,
) -> Seq<MentionV>
    decreases n,
{
    if n == 0 || n > bs.len() {
        acc
    } else {
        opt_sym_mentions(
            bindings_mentions(acc, bs, (n - 1) as nat).push(MentionV::Ty(bs[n - 1].0)),
            bs[n - 1].1,
        )
    }
}

pub open spec fn patterns_mentions(acc: Seq<MentionV>, ps: Seq<HirPatternV>, n: nat) -> Seq<MentionV>
    decreases n,
{
    if n == 0 || n > ps.len() {
        acc
    } else {
        let before = patterns_mentions(acc, ps, (n - 1) as nat);
        match ps[n - 1] {
            HirPatternV::Bind(s) => before.push(MentionV::Sym(s)),
            HirPatternV::EnumPayload { bindings, .. } => bindings_mentions(before, bindings, bindings.len()),
            _ => before,
        }
    }
}

pub open spec fn arm_mentions(acc: Seq<MentionV>, a: HirArmV) -> Seq<MentionV>
    decreases a,
{
    let acc1 = patterns_mentions(acc, a.patterns, a.patterns.len());
    let acc2 = match a.guard {
        Some(g) => expr_mentions(acc1, g),
        None => acc1,
    };
    expr_mentions(acc2, a.body)
}

pub open spec fn arms_mentions(acc: Seq<MentionV>, arms: Seq<HirArmV>, n: nat) -> Seq<MentionV>
    decreases arms, n,
{
    if n == 0 || n > arms.len() {
        acc
    } else {
        arm_mentions(arms_mentions(acc, arms, (n - 1) as nat), arms[n - 1])
    }
}

pub open spec fn stmt_mentions(acc: Seq<MentionV>, s: HirStmtV) -> Seq<MentionV>
    decreases s,
{
    match s {
        HirStmtV::Let(l) => {
            let acc1 = opt_sym_mentions(acc, l.sym).push(MentionV::Ty(l.ty));
            match l.init {
                Some(e) => expr_mentions(acc1, e),
                None => acc1,
            }
        },
        HirStmtV::Expr(e, _) => expr_mentions(acc, e),
    }
}

pub open spec fn stmts_mentions(acc: Seq<MentionV>, ss: Seq<HirStmtV>, n: nat) -> Seq<MentionV>
    decreases ss, n,
{
    if n == 0 || n > ss.len() {
        acc
    } else {
        stmt_mentions(stmts_mentions(acc, ss, (n - 1) as nat), ss[n - 1])
    }
}

/// `acc`, then what a block mentions: its type, then its statements.
pub open spec fn block_mentions(acc: Seq<MentionV>, b: HirBlockV) -> Seq<MentionV>
    decreases b,
{
    stmts_mentions(acc.push(MentionV::Ty(b.ty)), b.stmts, b.stmts.len())
}

pub fn list_ty(t: &Ty, out: &mut Vec<Mention>)
    ensures
        mention_views(final(out)@) == mention_views(old(out)@).push(MentionV::Ty(t@)),
{
    out.push(Mention::Ty(t.copy()));
    assert(mention_views(out@) =~= mention_views(old(out)@).push(MentionV::Ty(t@)));
}

pub fn list_sym(s: SymbolId, out: &mut Vec<Mention>)
    ensures
        mention_views(final(out)@) == mention_views(old(out)@).push(MentionV::Sym(s)),
{
    out.push(Mention::Sym(s));
    assert(mention_views(out@) =~= mention_views(old(out)@).push(MentionV::Sym(s)));
}

fn list_opt_sym(s: Option<SymbolId>, out: &mut Vec<Mention>)
    ensures
        mention_views(final(out)@) == opt_sym_mentions(mention_views(old(out)@), s),
{
    match s {
        Some(s) => list_sym(s, out),
        None => {},
    }
}

/// The types of several expressions.
pub fn tys_of(es: &Vec<HirExpr>) -> (r: Vec<Ty>)
    ensures
        ty_views(r@) == expr_tys(expr_views(es@)),
{
    let mut out: Vec<Ty> = Vec::new();
    let mut i: usize = 0;
    while i < es.len()
        invariant
            i <= es.len(),
            out.len() == i,
            forall|j: int| 0 <= j < i ==> ty_view(#[trigger] out[j]) == expr_view(es[j]).ty,
        decreases es.len() - i,
    {
        out.push(es[i].ty.copy());
        i += 1;
    }
    assert(ty_views(out@) =~= expr_tys(expr_views(es@)));
    out
}

pub fn list_expr(e: &HirExpr, out: &mut Vec<Mention>)
    ensures
        mention_views(final(out)@) == expr_mentions(mention_views(old(out)@), e@),
    decreases e,
{
    list_ty(&e.ty, out);
    list_kind(&e.kind, out);
}

fn list_kind(k: &HirExprKind, out: &mut Vec<Mention>)
    ensures
        mention_views(final(out)@) == kind_mentions(mention_views(old(out)@), k@),
    decreases k,
{
    match k {
        HirExprKind::Lit(_) => {},
        HirExprKind::Local(s) => list_sym(*s, out),
        HirExprKind::Fn(s) => list_sym(*s, out),
        HirExprKind::EnumVariant { .. } => {},
        HirExprKind::EnumPayloadCtor { enum_sym, payloads, .. } => {
            list_sym(*enum_sym, out);
            list_exprs(payloads, out);
        },
        HirExprKind::Unary { expr, .. } => {
            list_expr(expr, out);
        },
        HirExprKind::Cast { expr } => {
            list_expr(expr, out);
        },
        HirExprKind::Binary { lhs, rhs, .. } => {
            list_expr(lhs, out);
            list_expr(rhs, out);
        },
        HirExprKind::Logical { lhs, rhs, .. } => {
            list_expr(lhs, out);
            list_expr(rhs, out);
        },
        HirExprKind::Assign { lhs, rhs } => {
            list_sym(*lhs, out);
            list_expr(rhs, out);
        },
        HirExprKind::AssignOp { lhs, rhs, .. } => {
            list_sym(*lhs, out);
            list_expr(rhs, out);
        },
        HirExprKind::Call { callee, args } => {
            list_sym(*callee, out);
            let ghost before = mention_views(out@);
            out.push(Mention::Call(*callee, tys_of(args)));
            assert(mention_views(out@) =~= before.push(MentionV::Call(*callee, expr_tys(expr_views(args@)))));
            list_exprs(args, out);
        },
        HirExprKind::IndirectCall { callee, args } => {
            list_expr(callee, out);
            list_exprs(args, out);
        },
        HirExprKind::BuiltinCall { args, .. } => {
            list_exprs(args, out);
        },
        HirExprKind::MethodCall { receiver, args, .. } => {
            list_expr(receiver, out);
            list_exprs(args, out);
        },
        HirExprKind::DynBox { value, struct_sym, trait_sym } => {
            list_sym(*struct_sym, out);
            list_sym(*trait_sym, out);
            list_expr(value, out);
        },
        HirExprKind::DynCall { receiver, trait_sym, args, .. } => {
            list_sym(*trait_sym, out);
            list_expr(receiver, out);
            list_exprs(args, out);
        },
        HirExprKind::StructLit { sym, fields, .. } => {
            list_sym(*sym, out);
            list_fields(fields, out);
        },
        HirExprKind::FieldAccess { receiver, field_ty, .. } => {
            list_ty(field_ty, out);
            list_expr(receiver, out);
        },
        HirExprKind::FieldAssign { receiver, field_ty, rhs, .. } => {
            list_ty(field_ty, out);
            list_expr(receiver, out);
            list_expr(rhs, out);
        },
        HirExprKind::Array { elems, elem_ty } => {
            list_ty(elem_ty, out);
            list_exprs(elems, out);
        },
        HirExprKind::Index { array, index, elem_ty } => {
            list_ty(elem_ty, out);
            list_expr(array, out);
            list_expr(index, out);
        },
        HirExprKind::StrByteIndex { str_val, index } => {
            list_expr(str_val, out);
            list_expr(index, out);
        },
        HirExprKind::StrSlice { str_val, start, end, .. } => {
            list_expr(str_val, out);
            list_expr(start, out);
            list_expr(end, out);
        },
        HirExprKind::If { cond, then_b, else_b } => {
            list_expr(cond, out);
            list_block(then_b, out);
            match else_b {
                Some(e) => list_expr(e, out),
                None => {},
            }
        },
        HirExprKind::While { cond, body } => {
            list_expr(cond, out);
            list_block(body, out);
        },
        HirExprKind::For { local, iter, body, elem_ty, .. } => {
            list_opt_sym(*local, out);
            list_ty(elem_ty, out);
            list_expr(iter, out);
            list_block(body, out);
        },
        HirExprKind::ForRange { local, start, end, body, .. } => {
            list_opt_sym(*local, out);
            list_expr(start, out);
            list_expr(end, out);
            list_block(body, out);
        },
        HirExprKind::Match { scrutinee, arms } => {
            list_expr(scrutinee, out);
            list_arms(arms, out);
        },
        HirExprKind::Block(b) => list_block(b, out),
        HirExprKind::Return(v) => match v {
            Some(e) => list_expr(e, out),
            None => {},
        },
        HirExprKind::Break => {},
        HirExprKind::Unsupported(_) => {},
    }
}

fn list_exprs(es: &Vec<HirExpr>, out: &mut Vec<Mention>)
    ensures
        mention_views(final(out)@) == exprs_mentions(
            mention_views(old(out)@),
            expr_views(es@),
            expr_views(es@).len(),
        ),
    decreases es,
{
    let mut i: usize = 0;
    while i < es.len()
        invariant
            i <= es.len(),
            mention_views(out@) == exprs_mentions(mention_views(old(out)@), expr_views(es@), i as nat),
        decreases es.len() - i,
    {
        list_expr(&es[i], out);
        i += 1;
    }
}

fn list_fields(fs: &Vec<(u32, HirExpr)>, out: &mut Vec<Mention>)
    ensures
        mention_views(final(out)@) == fields_mentions(
            mention_views(old(out)@),
            field_views(fs@),
            field_views(fs@).len(),
        ),
    decreases fs,
{
    let mut i: usize = 0;
    while i < fs.len()
        invariant
            i <= fs.len(),
            mention_views(out@) == fields_mentions(mention_views(old(out)@), field_views(fs@), i as nat),
        decreases fs.len() - i,
    {
        list_expr(&fs[i].1, out);
        i += 1;
    }
}

fn list_patterns(ps: &Vec<HirPattern>, out: &mut Vec<Mention>)
    ensures
        mention_views(final(out)@) == patterns_mentions(
            mention_views(old(out)@),
            pattern_views(ps@),
            pattern_views(ps@).len(),
        ),
{
    let mut i: usize = 0;
    while i < ps.len()
        invariant
            i <= ps.len(),
            mention_views(out@) == patterns_mentions(mention_views(old(out)@), pattern_views(ps@), i as nat),
        decreases ps.len() - i,
    {
        match &ps[i] {
            HirPattern::Bind(s) => list_sym(*s, out),
            HirPattern::EnumPayload { bindings, .. } => {
                let ghost before = mention_views(out@);
                let mut j: usize = 0;
                while j < bindings.len()
                    invariant
                        j <= bindings.len(),
                        mention_views(out@) == bindings_mentions(before, bindings_view(bindings@), j as nat),
                    decreases bindings.len() - j,
                {
                    list_ty(&bindings[j].0, out);
                    list_opt_sym(bindings[j].1, out);
                    j += 1;
                }
            },
            _ => {},
        }
        i += 1;
    }
}

fn list_arm(a: &HirMatchArm, out: &mut Vec<Mention>)
    ensures
        mention_views(final(out)@) == arm_mentions(mention_views(old(out)@), a@),
    decreases a,
{
    list_patterns(&a.patterns, out);
    match &a.guard {
        Some(g) => list_expr(g, out),
        None => {},
    }
    list_expr(&a.body, out);
}

fn list_arms(arms: &Vec<HirMatchArm>, out: &mut Vec<Mention>)
    ensures
        mention_views(final(out)@) == arms_mentions(
            mention_views(old(out)@),
            arm_views(arms@),
            arm_views(arms@).len(),
        ),
    decreases arms,
{
    let mut i: usize = 0;
    while i < arms.len()
        invariant
            i <= arms.len(),
            mention_views(out@) == arms_mentions(mention_views(old(out)@), arm_views(arms@), i as nat),
        decreases arms.len() - i,
    {
        list_arm(&arms[i], out);
        i += 1;
    }
}

fn list_stmt(s: &HirStmt, out: &mut Vec<Mention>)
    ensures
        mention_views(final(out)@) == stmt_mentions(mention_views(old(out)@), s@),
    decreases s,
{
    match s {
        HirStmt::Let(l) => {
            list_opt_sym(l.sym, out);
            list_ty(&l.ty, out);
            match &l.init {
                Some(e) => list_expr(e, out),
                None => {},
            }
        },
        HirStmt::Expr(e, _) => list_expr(e, out),
    }
}

/// Lists what a block mentions.
pub fn list_block(b: &HirBlock, out: &mut Vec<Mention>)
    ensures
        mention_views(final(out)@) == block_mentions(mention_views(old(out)@), b@),
    decreases b,
{
    list_ty(&b.ty, out);
    let ghost acc = mention_views(out@);
    let mut i: usize = 0;
    while i < b.stmts.len()
        invariant
            i <= b.stmts.len(),
            mention_views(out@) == stmts_mentions(acc, stmt_views(b.stmts@), i as nat),
        decreases b.stmts.len() - i,
    {
        list_stmt(&b.stmts[i], out);
        i += 1;
    }
}

} // verus!
