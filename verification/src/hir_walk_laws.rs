//! Properties of every node of a tree, and how they pass through a rewrite and
//! into a listing.

use vstd::prelude::*;

use crate::hir::{HirArmV, HirBlockV, HirExprV, HirFnV, HirKindV, HirPatternV, HirStmtV};
use crate::hir_walk::{
    MentionV, Rewrite, arm_mentions, arms_mentions, bindings_mentions, block_mentions,
    expr_mentions, expr_tys, exprs_mentions, fields_mentions, kind_mentions, mapped_arm,
    mapped_arms, mapped_block, mapped_expr, mapped_exprs, mapped_fields, mapped_kind,
    mapped_pattern, mapped_stmt, mapped_stmts, opt_sym_mentions, patterns_mentions,
    stmt_mentions, stmts_mentions,
};
use crate::ty::{SymbolId, TyV};

verus! {

/// A test of every type and of every node.
pub struct Test {
    pub ty: spec_fn(TyV) -> bool,
    pub kind: spec_fn(HirKindV) -> bool,
}

pub open spec fn expr_all(p: Test, e: HirExprV) -> bool
    decreases e, 1nat,
{
    (p.ty)(e.ty) && (p.kind)(e.kind) && kind_all(p, e.kind)
}

/// Whether the types and the children of a node pass.
pub open spec fn kind_all(p: Test, k: HirKindV) -> bool
    decreases k, 0nat,
{
    match k {
        HirKindV::EnumPayloadCtor { payloads, .. } => exprs_all(p, payloads),
        HirKindV::Unary { expr, .. } => expr_all(p, *expr),
        HirKindV::Cast { expr, .. } => expr_all(p, *expr),
        HirKindV::Binary { lhs, rhs, .. } => expr_all(p, *lhs) && expr_all(p, *rhs),
        HirKindV::Logical { lhs, rhs, .. } => expr_all(p, *lhs) && expr_all(p, *rhs),
        HirKindV::Assign { rhs, .. } => expr_all(p, *rhs),
        HirKindV::AssignOp { rhs, .. } => expr_all(p, *rhs),
        HirKindV::Call { args, .. } => exprs_all(p, args),
        HirKindV::IndirectCall { callee, args, .. } => expr_all(p, *callee) && exprs_all(p, args),
        HirKindV::BuiltinCall { args, .. } => exprs_all(p, args),
        HirKindV::MethodCall { receiver, args, .. } => expr_all(p, *receiver) && exprs_all(p, args),
        HirKindV::DynBox { value, .. } => expr_all(p, *value),
        HirKindV::DynCall { receiver, args, .. } => expr_all(p, *receiver) && exprs_all(p, args),
        HirKindV::StructLit { fields, .. } => fields_all(p, fields),
        HirKindV::FieldAccess { receiver, field_ty, .. } => expr_all(p, *receiver) && (p.ty)(field_ty),
        HirKindV::FieldAssign { receiver, rhs, field_ty, .. } => expr_all(p, *receiver) && expr_all(p, *rhs) && (p.ty)(field_ty),
        HirKindV::Array { elems, elem_ty, .. } => exprs_all(p, elems) && (p.ty)(elem_ty),
        HirKindV::Index { array, index, elem_ty, .. } => expr_all(p, *array) && expr_all(p, *index) && (p.ty)(elem_ty),
        HirKindV::StrByteIndex { str_val, index, .. } => expr_all(p, *str_val) && expr_all(p, *index),
        HirKindV::StrSlice { str_val, start, end, .. } => expr_all(p, *str_val) && expr_all(p, *start) && expr_all(p, *end),
        HirKindV::If { cond, then_b, else_b, .. } => expr_all(p, *cond) && block_all(p, then_b) && opt_all(p, else_b),
        HirKindV::While { cond, body, .. } => expr_all(p, *cond) && block_all(p, body),
        HirKindV::For { iter, body, elem_ty, .. } => expr_all(p, *iter) && block_all(p, body) && (p.ty)(elem_ty),
        HirKindV::ForRange { start, end, body, .. } => expr_all(p, *start) && expr_all(p, *end) && block_all(p, body),
        HirKindV::Match { scrutinee, arms, .. } => expr_all(p, *scrutinee) && arms_all(p, arms),
        HirKindV::Block(b) => block_all(p, b),
        HirKindV::Return(v) => opt_all(p, v),
        _ => true,
    }
}

pub open spec fn opt_all(p: Test, e: Option<Box<HirExprV>>) -> bool
    decreases e, 2nat,
{
    match e {
        Some(e) => expr_all(p, *e),
        None => true,
    }
}

pub open spec fn exprs_all(p: Test, es: Seq<HirExprV>) -> bool
    decreases es, 0nat,
{
    forall|i: int| 0 <= i < es.len() ==> expr_all(p, #[trigger] es[i])
}

pub open spec fn fields_all(p: Test, fs: Seq<(u32, HirExprV)>) -> bool
    decreases fs, 0nat,
{
    forall|i: int| 0 <= i < fs.len() ==> expr_all(p, (#[trigger] fs[i]).1)
}

pub open spec fn pattern_all(p: Test, pat: HirPatternV) -> bool {
    match pat {
        HirPatternV::EnumPayload { bindings, .. } => forall|i: int|
            0 <= i < bindings.len() ==> (p.ty)((#[trigger] bindings[i]).0),
        _ => true,
    }
}

pub open spec fn arm_all(p: Test, a: HirArmV) -> bool
    decreases a, 0nat,
{
    &&& forall|i: int| 0 <= i < a.patterns.len() ==> pattern_all(p, #[trigger] a.patterns[i])
    &&& match a.guard {
        Some(g) => expr_all(p, g),
        None => true,
    }
    &&& expr_all(p, a.body)
}

pub open spec fn arms_all(p: Test, arms: Seq<HirArmV>) -> bool
    decreases arms, 0nat,
{
    forall|i: int| 0 <= i < arms.len() ==> arm_all(p, #[trigger] arms[i])
}

pub open spec fn stmt_all(p: Test, s: HirStmtV) -> bool
    decreases s, 0nat,
{
    match s {
        HirStmtV::Let(l) => (p.ty)(l.ty) && match l.init {
            Some(e) => expr_all(p, e),
            None => true,
        },
        HirStmtV::Expr(e, _) => expr_all(p, e),
    }
}

pub open spec fn stmts_all(p: Test, ss: Seq<HirStmtV>) -> bool
    decreases ss, 0nat,
{
    forall|i: int| 0 <= i < ss.len() ==> stmt_all(p, #[trigger] ss[i])
}

pub open spec fn block_all(p: Test, b: HirBlockV) -> bool
    decreases b, 0nat,
{
    (p.ty)(b.ty) && stmts_all(p, b.stmts)
}

/// Whether every type and every node of a function passes.
pub open spec fn fn_all(p: Test, f: HirFnV) -> bool {
    &&& forall|i: int| 0 <= i < f.params.len() ==> (p.ty)((#[trigger] f.params[i]).ty)
    &&& (p.ty)(f.ret_ty)
    &&& block_all(p, f.body)
}

// ---- through a rewrite ----

/// Whether a rewrite turns what passes one test into what passes another.
pub open spec fn carries(rw: Rewrite, q: Test, p: Test) -> bool {
    &&& forall|t: TyV| (q.ty)(t) ==> (p.ty)(#[trigger] (rw.ty)(t))
    &&& forall|k: HirKindV|
        (q.kind)(k) && kind_all(p, #[trigger] mapped_kind(rw, k)) ==> {
            let after = (rw.kind)(mapped_kind(rw, k));
            (p.kind)(after) && kind_all(p, after)
        }
}

pub(crate) proof fn carried_expr(rw: Rewrite, q: Test, p: Test, e: HirExprV)
    requires
        carries(rw, q, p),
        expr_all(q, e),
    ensures
        expr_all(p, mapped_expr(rw, e)),
    decreases e, 1nat,
{
    carried_kind(rw, q, p, e.kind);
}

#[verifier::spinoff_prover]
proof fn carried_kind(rw: Rewrite, q: Test, p: Test, k: HirKindV)
    requires
        carries(rw, q, p),
        kind_all(q, k),
    ensures
        kind_all(p, mapped_kind(rw, k)),
    decreases k, 0nat,
{
    match k {
        HirKindV::EnumPayloadCtor { payloads, .. } => carried_exprs(rw, q, p, payloads),
        HirKindV::Unary { expr, .. } => carried_expr(rw, q, p, *expr),
        HirKindV::Cast { expr, .. } => carried_expr(rw, q, p, *expr),
        HirKindV::Binary { lhs, rhs, .. } => {
            carried_expr(rw, q, p, *lhs);
            carried_expr(rw, q, p, *rhs);
        },
        HirKindV::Logical { lhs, rhs, .. } => {
            carried_expr(rw, q, p, *lhs);
            carried_expr(rw, q, p, *rhs);
        },
        HirKindV::Assign { rhs, .. } => carried_expr(rw, q, p, *rhs),
        HirKindV::AssignOp { rhs, .. } => carried_expr(rw, q, p, *rhs),
        HirKindV::Call { args, .. } => carried_exprs(rw, q, p, args),
        HirKindV::IndirectCall { callee, args, .. } => {
            carried_expr(rw, q, p, *callee);
            carried_exprs(rw, q, p, args);
        },
        HirKindV::BuiltinCall { args, .. } => carried_exprs(rw, q, p, args),
        HirKindV::MethodCall { receiver, args, .. } => {
            carried_expr(rw, q, p, *receiver);
            carried_exprs(rw, q, p, args);
        },
        HirKindV::DynBox { value, .. } => carried_expr(rw, q, p, *value),
        HirKindV::DynCall { receiver, args, .. } => {
            carried_expr(rw, q, p, *receiver);
            carried_exprs(rw, q, p, args);
        },
        HirKindV::StructLit { fields, .. } => carried_fields(rw, q, p, fields),
        HirKindV::FieldAccess { receiver, .. } => carried_expr(rw, q, p, *receiver),
        HirKindV::FieldAssign { receiver, rhs, .. } => {
            carried_expr(rw, q, p, *receiver);
            carried_expr(rw, q, p, *rhs);
        },
        HirKindV::Array { elems, .. } => carried_exprs(rw, q, p, elems),
        HirKindV::Index { array, index, .. } => {
            carried_expr(rw, q, p, *array);
            carried_expr(rw, q, p, *index);
        },
        HirKindV::StrByteIndex { str_val, index, .. } => {
            carried_expr(rw, q, p, *str_val);
            carried_expr(rw, q, p, *index);
        },
        HirKindV::StrSlice { str_val, start, end, .. } => {
            carried_expr(rw, q, p, *str_val);
            carried_expr(rw, q, p, *start);
            carried_expr(rw, q, p, *end);
        },
        HirKindV::If { cond, then_b, else_b, .. } => {
            carried_expr(rw, q, p, *cond);
            carried_block(rw, q, p, then_b);
            carried_opt(rw, q, p, else_b);
        },
        HirKindV::While { cond, body, .. } => {
            carried_expr(rw, q, p, *cond);
            carried_block(rw, q, p, body);
        },
        HirKindV::For { iter, body, .. } => {
            carried_expr(rw, q, p, *iter);
            carried_block(rw, q, p, body);
        },
        HirKindV::ForRange { start, end, body, .. } => {
            carried_expr(rw, q, p, *start);
            carried_expr(rw, q, p, *end);
            carried_block(rw, q, p, body);
        },
        HirKindV::Match { scrutinee, arms, .. } => {
            carried_expr(rw, q, p, *scrutinee);
            carried_arms(rw, q, p, arms);
        },
        HirKindV::Block(b) => carried_block(rw, q, p, b),
        HirKindV::Return(v) => carried_opt(rw, q, p, v),
        _ => {},
    }
}

proof fn carried_opt(rw: Rewrite, q: Test, p: Test, e: Option<Box<HirExprV>>)
    requires
        carries(rw, q, p),
        opt_all(q, e),
    ensures
        opt_all(
            p,
            match e {
                Some(e) => Some(Box::new(mapped_expr(rw, *e))),
                None => None,
            },
        ),
    decreases e, 2nat,
{
    match e {
        Some(e) => carried_expr(rw, q, p, *e),
        None => {},
    }
}

proof fn carried_exprs(rw: Rewrite, q: Test, p: Test, es: Seq<HirExprV>)
    requires
        carries(rw, q, p),
        exprs_all(q, es),
    ensures
        exprs_all(p, mapped_exprs(rw, es)),
    decreases es, 0nat,
{
    let out = mapped_exprs(rw, es);
    assert forall|i: int| 0 <= i < out.len() implies expr_all(p, #[trigger] out[i]) by {
        assert(expr_all(q, es[i]));
        carried_expr(rw, q, p, es[i]);
    }
}

proof fn carried_fields(rw: Rewrite, q: Test, p: Test, fs: Seq<(u32, HirExprV)>)
    requires
        carries(rw, q, p),
        fields_all(q, fs),
    ensures
        fields_all(p, mapped_fields(rw, fs)),
    decreases fs, 0nat,
{
    let out = mapped_fields(rw, fs);
    assert forall|i: int| 0 <= i < out.len() implies expr_all(p, (#[trigger] out[i]).1) by {
        assert(expr_all(q, fs[i].1));
        assert(decreases_to!(fs => fs[i]));
        carried_expr(rw, q, p, fs[i].1);
    }
}

proof fn carried_arm(rw: Rewrite, q: Test, p: Test, a: HirArmV)
    requires
        carries(rw, q, p),
        arm_all(q, a),
    ensures
        arm_all(p, mapped_arm(rw, a)),
    decreases a, 0nat,
{
    match a.guard {
        Some(g) => carried_expr(rw, q, p, g),
        None => {},
    }
    carried_expr(rw, q, p, a.body);
    let out = mapped_arm(rw, a);
    assert forall|i: int| 0 <= i < out.patterns.len() implies pattern_all(p, #[trigger] out.patterns[i]) by {
        assert(pattern_all(q, a.patterns[i]));
    }
}

proof fn carried_arms(rw: Rewrite, q: Test, p: Test, arms: Seq<HirArmV>)
    requires
        carries(rw, q, p),
        arms_all(q, arms),
    ensures
        arms_all(p, mapped_arms(rw, arms)),
    decreases arms, 0nat,
{
    let out = mapped_arms(rw, arms);
    assert forall|i: int| 0 <= i < out.len() implies arm_all(p, #[trigger] out[i]) by {
        assert(arm_all(q, arms[i]));
        carried_arm(rw, q, p, arms[i]);
    }
}

proof fn carried_stmt(rw: Rewrite, q: Test, p: Test, s: HirStmtV)
    requires
        carries(rw, q, p),
        stmt_all(q, s),
    ensures
        stmt_all(p, mapped_stmt(rw, s)),
    decreases s, 0nat,
{
    match s {
        HirStmtV::Let(l) => match l.init {
            Some(e) => carried_expr(rw, q, p, e),
            None => {},
        },
        HirStmtV::Expr(e, _) => carried_expr(rw, q, p, e),
    }
}

proof fn carried_stmts(rw: Rewrite, q: Test, p: Test, ss: Seq<HirStmtV>)
    requires
        carries(rw, q, p),
        stmts_all(q, ss),
    ensures
        stmts_all(p, mapped_stmts(rw, ss)),
    decreases ss, 0nat,
{
    let out = mapped_stmts(rw, ss);
    assert forall|i: int| 0 <= i < out.len() implies stmt_all(p, #[trigger] out[i]) by {
        assert(stmt_all(q, ss[i]));
        carried_stmt(rw, q, p, ss[i]);
    }
}

/// What passes one test passes the other after the rewrite.
pub proof fn carried_block(rw: Rewrite, q: Test, p: Test, b: HirBlockV)
    requires
        carries(rw, q, p),
        block_all(q, b),
    ensures
        block_all(p, mapped_block(rw, b)),
    decreases b, 0nat,
{
    carried_stmts(rw, q, p, b.stmts);
}

// ---- where a rewrite has nothing to do ----

/// Whether a rewrite leaves alone what passes a test.
pub open spec fn spares(rw: Rewrite, p: Test) -> bool {
    &&& forall|t: TyV| (p.ty)(t) ==> #[trigger] (rw.ty)(t) == t
    &&& forall|k: HirKindV| (p.kind)(k) ==> #[trigger] (rw.kind)(k) == k
}

pub(crate) proof fn spared_expr(rw: Rewrite, p: Test, e: HirExprV)
    requires
        spares(rw, p),
        expr_all(p, e),
    ensures
        mapped_expr(rw, e) == e,
    decreases e, 1nat,
{
    spared_kind(rw, p, e.kind);
}

#[verifier::spinoff_prover]
proof fn spared_kind(rw: Rewrite, p: Test, k: HirKindV)
    requires
        spares(rw, p),
        kind_all(p, k),
    ensures
        mapped_kind(rw, k) == k,
    decreases k, 0nat,
{
    match k {
        HirKindV::EnumPayloadCtor { payloads, .. } => spared_exprs(rw, p, payloads),
        HirKindV::Unary { expr, .. } => spared_expr(rw, p, *expr),
        HirKindV::Cast { expr, .. } => spared_expr(rw, p, *expr),
        HirKindV::Binary { lhs, rhs, .. } => {
            spared_expr(rw, p, *lhs);
            spared_expr(rw, p, *rhs);
        },
        HirKindV::Logical { lhs, rhs, .. } => {
            spared_expr(rw, p, *lhs);
            spared_expr(rw, p, *rhs);
        },
        HirKindV::Assign { rhs, .. } => spared_expr(rw, p, *rhs),
        HirKindV::AssignOp { rhs, .. } => spared_expr(rw, p, *rhs),
        HirKindV::Call { args, .. } => spared_exprs(rw, p, args),
        HirKindV::IndirectCall { callee, args, .. } => {
            spared_expr(rw, p, *callee);
            spared_exprs(rw, p, args);
        },
        HirKindV::BuiltinCall { args, .. } => spared_exprs(rw, p, args),
        HirKindV::MethodCall { receiver, args, .. } => {
            spared_expr(rw, p, *receiver);
            spared_exprs(rw, p, args);
        },
        HirKindV::DynBox { value, .. } => spared_expr(rw, p, *value),
        HirKindV::DynCall { receiver, args, .. } => {
            spared_expr(rw, p, *receiver);
            spared_exprs(rw, p, args);
        },
        HirKindV::StructLit { fields, .. } => spared_fields(rw, p, fields),
        HirKindV::FieldAccess { receiver, .. } => spared_expr(rw, p, *receiver),
        HirKindV::FieldAssign { receiver, rhs, .. } => {
            spared_expr(rw, p, *receiver);
            spared_expr(rw, p, *rhs);
        },
        HirKindV::Array { elems, .. } => spared_exprs(rw, p, elems),
        HirKindV::Index { array, index, .. } => {
            spared_expr(rw, p, *array);
            spared_expr(rw, p, *index);
        },
        HirKindV::StrByteIndex { str_val, index, .. } => {
            spared_expr(rw, p, *str_val);
            spared_expr(rw, p, *index);
        },
        HirKindV::StrSlice { str_val, start, end, .. } => {
            spared_expr(rw, p, *str_val);
            spared_expr(rw, p, *start);
            spared_expr(rw, p, *end);
        },
        HirKindV::If { cond, then_b, else_b, .. } => {
            spared_expr(rw, p, *cond);
            spared_block(rw, p, then_b);
            spared_opt(rw, p, else_b);
        },
        HirKindV::While { cond, body, .. } => {
            spared_expr(rw, p, *cond);
            spared_block(rw, p, body);
        },
        HirKindV::For { iter, body, .. } => {
            spared_expr(rw, p, *iter);
            spared_block(rw, p, body);
        },
        HirKindV::ForRange { start, end, body, .. } => {
            spared_expr(rw, p, *start);
            spared_expr(rw, p, *end);
            spared_block(rw, p, body);
        },
        HirKindV::Match { scrutinee, arms, .. } => {
            spared_expr(rw, p, *scrutinee);
            spared_arms(rw, p, arms);
        },
        HirKindV::Block(b) => spared_block(rw, p, b),
        HirKindV::Return(v) => spared_opt(rw, p, v),
        _ => {},
    }
}

proof fn spared_opt(rw: Rewrite, p: Test, e: Option<Box<HirExprV>>)
    requires
        spares(rw, p),
        opt_all(p, e),
    ensures
        e matches Some(inner) ==> mapped_expr(rw, *inner) == *inner,
    decreases e, 2nat,
{
    match e {
        Some(e) => spared_expr(rw, p, *e),
        None => {},
    }
}

proof fn spared_exprs(rw: Rewrite, p: Test, es: Seq<HirExprV>)
    requires
        spares(rw, p),
        exprs_all(p, es),
    ensures
        mapped_exprs(rw, es) == es,
    decreases es, 0nat,
{
    let out = mapped_exprs(rw, es);
    assert forall|i: int| 0 <= i < out.len() implies #[trigger] out[i] == es[i] by {
        spared_expr(rw, p, es[i]);
    }
    assert(out =~= es);
}

proof fn spared_arms(rw: Rewrite, p: Test, arms: Seq<HirArmV>)
    requires
        spares(rw, p),
        arms_all(p, arms),
    ensures
        mapped_arms(rw, arms) == arms,
    decreases arms, 0nat,
{
    let out = mapped_arms(rw, arms);
    assert forall|i: int| 0 <= i < out.len() implies #[trigger] out[i] == arms[i] by {
        spared_arm(rw, p, arms[i]);
    }
    assert(out =~= arms);
}

proof fn spared_stmts(rw: Rewrite, p: Test, ss: Seq<HirStmtV>)
    requires
        spares(rw, p),
        stmts_all(p, ss),
    ensures
        mapped_stmts(rw, ss) == ss,
    decreases ss, 0nat,
{
    let out = mapped_stmts(rw, ss);
    assert forall|i: int| 0 <= i < out.len() implies #[trigger] out[i] == ss[i] by {
        spared_stmt(rw, p, ss[i]);
    }
    assert(out =~= ss);
}

proof fn spared_fields(rw: Rewrite, p: Test, fs: Seq<(u32, HirExprV)>)
    requires
        spares(rw, p),
        fields_all(p, fs),
    ensures
        mapped_fields(rw, fs) == fs,
    decreases fs, 0nat,
{
    let out = mapped_fields(rw, fs);
    assert forall|i: int| 0 <= i < out.len() implies #[trigger] out[i] == fs[i] by {
        assert(expr_all(p, fs[i].1));
        assert(decreases_to!(fs => fs[i]));
        spared_expr(rw, p, fs[i].1);
    }
    assert(out =~= fs);
}

proof fn spared_arm(rw: Rewrite, p: Test, a: HirArmV)
    requires
        spares(rw, p),
        arm_all(p, a),
    ensures
        mapped_arm(rw, a) == a,
    decreases a, 0nat,
{
    match a.guard {
        Some(g) => spared_expr(rw, p, g),
        None => {},
    }
    spared_expr(rw, p, a.body);
    let out = mapped_arm(rw, a).patterns;
    assert forall|i: int| 0 <= i < out.len() implies #[trigger] out[i] == a.patterns[i] by {
        assert(pattern_all(p, a.patterns[i]));
        match a.patterns[i] {
            HirPatternV::EnumPayload { discriminant, bindings } => {
                assert(mapped_pattern(rw, a.patterns[i])->bindings =~= bindings);
            },
            _ => {},
        }
    }
    assert(out =~= a.patterns);
}

proof fn spared_stmt(rw: Rewrite, p: Test, s: HirStmtV)
    requires
        spares(rw, p),
        stmt_all(p, s),
    ensures
        mapped_stmt(rw, s) == s,
    decreases s, 0nat,
{
    match s {
        HirStmtV::Let(l) => match l.init {
            Some(e) => spared_expr(rw, p, e),
            None => {},
        },
        HirStmtV::Expr(e, _) => spared_expr(rw, p, e),
    }
}

/// A tree that passes the test stays as it is.
pub proof fn spared_block(rw: Rewrite, p: Test, b: HirBlockV)
    requires
        spares(rw, p),
        block_all(p, b),
    ensures
        mapped_block(rw, b) == b,
    decreases b, 0nat,
{
    spared_stmts(rw, p, b.stmts);
}

// ---- into a listing ----

/// Whether every type that is mentioned passes.
pub open spec fn mentions_all(p: Test, ms: Seq<MentionV>) -> bool {
    forall|i: int| 0 <= i < ms.len() ==> mention_passes(p, #[trigger] ms[i])
}

pub open spec fn mention_passes(p: Test, m: MentionV) -> bool {
    match m {
        MentionV::Ty(t) => (p.ty)(t),
        MentionV::Sym(_) => true,
        MentionV::Call(_, ts) => forall|i: int| 0 <= i < ts.len() ==> (p.ty)(#[trigger] ts[i]),
    }
}

proof fn listed_expr(p: Test, acc: Seq<MentionV>, e: HirExprV)
    requires
        mentions_all(p, acc),
        expr_all(p, e),
    ensures
        mentions_all(p, expr_mentions(acc, e)),
    decreases e, 1nat,
{
    listed_kind(p, acc.push(MentionV::Ty(e.ty)), e.kind);
}

#[verifier::spinoff_prover]
proof fn listed_kind(p: Test, acc: Seq<MentionV>, k: HirKindV)
    requires
        mentions_all(p, acc),
        kind_all(p, k),
    ensures
        mentions_all(p, kind_mentions(acc, k)),
    decreases k, 0nat,
{
    match k {
        HirKindV::EnumPayloadCtor { enum_sym, payloads, .. } => listed_exprs(p, acc.push(MentionV::Sym(enum_sym)), payloads, payloads.len()),
        HirKindV::Unary { expr, .. } => listed_expr(p, acc, *expr),
        HirKindV::Cast { expr } => listed_expr(p, acc, *expr),
        HirKindV::Binary { lhs, rhs, .. } => {
            listed_expr(p, acc, *lhs);
            listed_expr(p, expr_mentions(acc, *lhs), *rhs);
        },
        HirKindV::Logical { lhs, rhs, .. } => {
            listed_expr(p, acc, *lhs);
            listed_expr(p, expr_mentions(acc, *lhs), *rhs);
        },
        HirKindV::Assign { lhs, rhs } => listed_expr(p, acc.push(MentionV::Sym(lhs)), *rhs),
        HirKindV::AssignOp { lhs, rhs, .. } => listed_expr(p, acc.push(MentionV::Sym(lhs)), *rhs),
        HirKindV::Call { callee, args } => {
            let call = MentionV::Call(callee, expr_tys(args));
            assert forall|i: int| 0 <= i < expr_tys(args).len() implies (p.ty)(#[trigger] expr_tys(args)[i]) by {
                assert(expr_all(p, args[i]));
            }
            assert(mention_passes(p, call));
            listed_exprs(p, acc.push(MentionV::Sym(callee)).push(call), args, args.len());
        },
        HirKindV::IndirectCall { callee, args } => {
            listed_expr(p, acc, *callee);
            listed_exprs(p, expr_mentions(acc, *callee), args, args.len());
        },
        HirKindV::BuiltinCall { args, .. } => listed_exprs(p, acc, args, args.len()),
        HirKindV::MethodCall { receiver, args, .. } => {
            listed_expr(p, acc, *receiver);
            listed_exprs(p, expr_mentions(acc, *receiver), args, args.len());
        },
        HirKindV::DynBox { value, struct_sym, trait_sym } => {
            listed_expr(p, acc.push(MentionV::Sym(struct_sym)).push(MentionV::Sym(trait_sym)), *value);
        },
        HirKindV::DynCall { receiver, trait_sym, args, .. } => {
            let acc1 = acc.push(MentionV::Sym(trait_sym));
            listed_expr(p, acc1, *receiver);
            listed_exprs(p, expr_mentions(acc1, *receiver), args, args.len());
        },
        HirKindV::StructLit { sym, fields, .. } => listed_fields(p, acc.push(MentionV::Sym(sym)), fields, fields.len()),
        HirKindV::FieldAccess { receiver, field_ty, .. } => listed_expr(p, acc.push(MentionV::Ty(field_ty)), *receiver),
        HirKindV::FieldAssign { receiver, field_ty, rhs, .. } => {
            let acc1 = acc.push(MentionV::Ty(field_ty));
            listed_expr(p, acc1, *receiver);
            listed_expr(p, expr_mentions(acc1, *receiver), *rhs);
        },
        HirKindV::Array { elems, elem_ty } => listed_exprs(p, acc.push(MentionV::Ty(elem_ty)), elems, elems.len()),
        HirKindV::Index { array, index, elem_ty } => {
            let acc1 = acc.push(MentionV::Ty(elem_ty));
            listed_expr(p, acc1, *array);
            listed_expr(p, expr_mentions(acc1, *array), *index);
        },
        HirKindV::StrByteIndex { str_val, index } => {
            listed_expr(p, acc, *str_val);
            listed_expr(p, expr_mentions(acc, *str_val), *index);
        },
        HirKindV::StrSlice { str_val, start, end, .. } => {
            listed_expr(p, acc, *str_val);
            listed_expr(p, expr_mentions(acc, *str_val), *start);
            listed_expr(p, expr_mentions(expr_mentions(acc, *str_val), *start), *end);
        },
        HirKindV::If { cond, then_b, else_b } => {
            listed_expr(p, acc, *cond);
            listed_block(p, expr_mentions(acc, *cond), then_b);
            match else_b {
                Some(e) => listed_expr(p, block_mentions(expr_mentions(acc, *cond), then_b), *e),
                None => {},
            }
        },
        HirKindV::While { cond, body } => {
            listed_expr(p, acc, *cond);
            listed_block(p, expr_mentions(acc, *cond), body);
        },
        HirKindV::For { local, iter, body, elem_ty, .. } => {
            let acc1 = opt_sym_mentions(acc, local).push(MentionV::Ty(elem_ty));
            listed_expr(p, acc1, *iter);
            listed_block(p, expr_mentions(acc1, *iter), body);
        },
        HirKindV::ForRange { local, start, end, body, .. } => {
            let acc1 = opt_sym_mentions(acc, local);
            listed_expr(p, acc1, *start);
            listed_expr(p, expr_mentions(acc1, *start), *end);
            listed_block(p, expr_mentions(expr_mentions(acc1, *start), *end), body);
        },
        HirKindV::Match { scrutinee, arms } => {
            listed_expr(p, acc, *scrutinee);
            listed_arms(p, expr_mentions(acc, *scrutinee), arms, arms.len());
        },
        HirKindV::Block(b) => listed_block(p, acc, b),
        HirKindV::Return(v) => match v {
            Some(e) => listed_expr(p, acc, *e),
            None => {},
        },
        _ => {},
    }
}

proof fn listed_exprs(p: Test, acc: Seq<MentionV>, es: Seq<HirExprV>, n: nat)
    requires
        mentions_all(p, acc),
        exprs_all(p, es),
    ensures
        mentions_all(p, exprs_mentions(acc, es, n)),
    decreases es, n,
{
    if n > 0 && n <= es.len() {
        listed_exprs(p, acc, es, (n - 1) as nat);
        assert(expr_all(p, es[n - 1]));
        listed_expr(p, exprs_mentions(acc, es, (n - 1) as nat), es[n - 1]);
    }
}

proof fn listed_fields(p: Test, acc: Seq<MentionV>, fs: Seq<(u32, HirExprV)>, n: nat)
    requires
        mentions_all(p, acc),
        fields_all(p, fs),
    ensures
        mentions_all(p, fields_mentions(acc, fs, n)),
    decreases fs, n,
{
    if n > 0 && n <= fs.len() {
        listed_fields(p, acc, fs, (n - 1) as nat);
        assert(decreases_to!(fs => fs[n - 1]));
        assert(expr_all(p, fs[n - 1].1));
        listed_expr(p, fields_mentions(acc, fs, (n - 1) as nat), fs[n - 1].1);
    }
}

proof fn listed_bindings(p: Test, acc: Seq<MentionV>, bs: Seq<(TyV, Option<SymbolId>)>, n: nat)
    requires
        mentions_all(p, acc),
        forall|i: int| 0 <= i < bs.len() ==> (p.ty)((#[trigger] bs[i]).0),
    ensures
        mentions_all(p, bindings_mentions(acc, bs, n)),
    decreases n,
{
    if n > 0 && n <= bs.len() {
        listed_bindings(p, acc, bs, (n - 1) as nat);
        assert((p.ty)(bs[n - 1].0));
    }
}

proof fn listed_patterns(p: Test, acc: Seq<MentionV>, ps: Seq<HirPatternV>, n: nat)
    requires
        mentions_all(p, acc),
        forall|i: int| 0 <= i < ps.len() ==> pattern_all(p, #[trigger] ps[i]),
    ensures
        mentions_all(p, patterns_mentions(acc, ps, n)),
    decreases n,
{
    if n > 0 && n <= ps.len() {
        listed_patterns(p, acc, ps, (n - 1) as nat);
        assert(pattern_all(p, ps[n - 1]));
        match ps[n - 1] {
            HirPatternV::EnumPayload { bindings, .. } => listed_bindings(
                p,
                patterns_mentions(acc, ps, (n - 1) as nat),
                bindings,
                bindings.len(),
            ),
            _ => {},
        }
    }
}

proof fn listed_arm(p: Test, acc: Seq<MentionV>, a: HirArmV)
    requires
        mentions_all(p, acc),
        arm_all(p, a),
    ensures
        mentions_all(p, arm_mentions(acc, a)),
    decreases a, 0nat,
{
    listed_patterns(p, acc, a.patterns, a.patterns.len());
    let acc1 = patterns_mentions(acc, a.patterns, a.patterns.len());
    match a.guard {
        Some(g) => {
            listed_expr(p, acc1, g);
            listed_expr(p, expr_mentions(acc1, g), a.body);
        },
        None => listed_expr(p, acc1, a.body),
    }
}

proof fn listed_arms(p: Test, acc: Seq<MentionV>, arms: Seq<HirArmV>, n: nat)
    requires
        mentions_all(p, acc),
        arms_all(p, arms),
    ensures
        mentions_all(p, arms_mentions(acc, arms, n)),
    decreases arms, n,
{
    if n > 0 && n <= arms.len() {
        listed_arms(p, acc, arms, (n - 1) as nat);
        assert(arm_all(p, arms[n - 1]));
        listed_arm(p, arms_mentions(acc, arms, (n - 1) as nat), arms[n - 1]);
    }
}

proof fn listed_stmt(p: Test, acc: Seq<MentionV>, s: HirStmtV)
    requires
        mentions_all(p, acc),
        stmt_all(p, s),
    ensures
        mentions_all(p, stmt_mentions(acc, s)),
    decreases s, 0nat,
{
    match s {
        HirStmtV::Let(l) => match l.init {
            Some(e) => listed_expr(p, opt_sym_mentions(acc, l.sym).push(MentionV::Ty(l.ty)), e),
            None => {},
        },
        HirStmtV::Expr(e, _) => listed_expr(p, acc, e),
    }
}

proof fn listed_stmts(p: Test, acc: Seq<MentionV>, ss: Seq<HirStmtV>, n: nat)
    requires
        mentions_all(p, acc),
        stmts_all(p, ss),
    ensures
        mentions_all(p, stmts_mentions(acc, ss, n)),
    decreases ss, n,
{
    if n > 0 && n <= ss.len() {
        listed_stmts(p, acc, ss, (n - 1) as nat);
        assert(stmt_all(p, ss[n - 1]));
        listed_stmt(p, stmts_mentions(acc, ss, (n - 1) as nat), ss[n - 1]);
    }
}

/// What a tree that passes mentions passes.
pub proof fn listed_block(p: Test, acc: Seq<MentionV>, b: HirBlockV)
    requires
        mentions_all(p, acc),
        block_all(p, b),
    ensures
        mentions_all(p, block_mentions(acc, b)),
    decreases b, 0nat,
{
    listed_stmts(p, acc.push(MentionV::Ty(b.ty)), b.stmts, b.stmts.len());
}

} // verus!
