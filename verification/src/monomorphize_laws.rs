//! What holds of inference, of the resolution of methods and of every
//! monomorphized module.

use vstd::prelude::*;

use crate::hir::{HirArmV, HirBlockV, HirExprV, HirFnV, HirKindV, HirStmtV};
use crate::hir_walk::{
    MentionV, block_mentions, mapped_block, mapped_expr, mapped_exprs, mapped_kind,
};
use crate::hir_walk_laws::{
    Test, arm_all, arms_all, block_all, carried_block, carried_expr, carries, expr_all,
    exprs_all, fields_all, fn_all, kind_all, listed_block, mention_passes, mentions_all, opt_all,
    spared_block, spared_expr, spares, stmt_all,
};
use crate::monomorphize::{
    Known, MonoV, all_covered, all_ground, all_matched, all_substituted_within, bound,
    call_rewrite, covered, drained, first_fresh, ground, grounds, inferred, keeps, matched,
    method_rewrite, monomorphized, nominal_sym, param_tys, requested, requests, resolved_fn,
    result_is_concrete, seeded, served, shorter, specialized, split, start, substituted,
    substituted_within, substitution, substitution_grounds, zipped,
};
use crate::ty::{SymbolId, TyV};

verus! {

// ---- inference ----

/// A type made without arrays, functions and projections.
pub open spec fn plain_ty(t: TyV) -> bool
    decreases t,
{
    match t {
        TyV::Array(_, _) => false,
        TyV::Fn { .. } => false,
        TyV::Assoc(_, _) => false,
        TyV::Vec(e) => plain_ty(*e),
        TyV::Weak(e) => plain_ty(*e),
        TyV::HashMap(k, v) => plain_ty(*k) && plain_ty(*v),
        TyV::Struct(_, args) => all_plain(args),
        TyV::Enum(_, args) => all_plain(args),
        TyV::Dyn(_, args) => all_plain(args),
        _ => true,
    }
}

pub open spec fn all_plain(ts: Seq<TyV>) -> bool
    decreases ts,
{
    forall|i: int| 0 <= i < ts.len() ==> plain_ty(#[trigger] ts[i])
}

/// Whether two types have as many type arguments wherever the same struct or
/// enum meets itself.
pub open spec fn same_arity(p: TyV, a: TyV) -> bool
    decreases p,
{
    match p {
        TyV::Vec(e) => a is Vec ==> same_arity(*e, *a->Vec_0),
        TyV::Weak(e) => a is Weak ==> same_arity(*e, *a->Weak_0),
        TyV::HashMap(k, v) => a is HashMap ==> same_arity(*k, *a->HashMap_0) && same_arity(*v, *a->HashMap_1),
        TyV::Struct(s, ps) => a is Struct && a->Struct_0 == s ==> all_same_arity(ps, a->Struct_1),
        TyV::Enum(s, ps) => a is Enum && a->Enum_0 == s ==> all_same_arity(ps, a->Enum_1),
        TyV::Dyn(s, ps) => a is Dyn && a->Dyn_0 == s && ps.len() == a->Dyn_1.len() ==> all_same_arity(ps, a->Dyn_1),
        _ => true,
    }
}

pub open spec fn all_same_arity(ps: Seq<TyV>, args: Seq<TyV>) -> bool
    decreases ps,
{
    &&& ps.len() == args.len()
    &&& forall|i: int| 0 <= i < ps.len() ==> same_arity(#[trigger] ps[i], args[i])
}

/// Matching only adds bindings.
pub(crate) proof fn matching_keeps(p: TyV, a: TyV, m: Map<SymbolId, TyV>)
    ensures
        matched(p, a, m) matches Some(m2) ==> keeps(m, m2),
    decreases p, 0nat,
{
    match p {
        TyV::Struct(_, ps) => if a is Struct {
            matching_all_keeps(ps, a->Struct_1, m, shorter(ps, a->Struct_1));
        },
        TyV::Enum(_, ps) => if a is Enum {
            matching_all_keeps(ps, a->Enum_1, m, shorter(ps, a->Enum_1));
        },
        TyV::Dyn(_, ps) => if a is Dyn {
            matching_all_keeps(ps, a->Dyn_1, m, ps.len());
        },
        TyV::Array(e, _) => if a is Array {
            matching_keeps(*e, *a->Array_0, m);
        },
        TyV::Vec(e) => if a is Vec {
            matching_keeps(*e, *a->Vec_0, m);
        },
        TyV::Weak(e) => if a is Weak {
            matching_keeps(*e, *a->Weak_0, m);
        },
        TyV::HashMap(k, v) => if a is HashMap {
            matching_keeps(*k, *a->HashMap_0, m);
            match matched(*k, *a->HashMap_0, m) {
                Some(m1) => matching_keeps(*v, *a->HashMap_1, m1),
                None => {},
            }
        },
        _ => {},
    }
}

pub(crate) proof fn matching_all_keeps(ps: Seq<TyV>, args: Seq<TyV>, m: Map<SymbolId, TyV>, n: nat)
    ensures
        all_matched(ps, args, m, n) matches Some(m2) ==> keeps(m, m2),
    decreases ps, n,
{
    if n > 0 && n <= ps.len() {
        matching_all_keeps(ps, args, m, (n - 1) as nat);
        match all_matched(ps, args, m, (n - 1) as nat) {
            Some(m1) => matching_keeps(ps[n - 1], args[n - 1], m1),
            None => {},
        }
    }
}

/// With the bindings of a match, or more, the parameter type becomes the
/// argument type.
pub(crate) proof fn matched_becomes(kn: Known, p: TyV, a: TyV, m: Map<SymbolId, TyV>, more: Map<SymbolId, TyV>, d: nat)
    requires
        plain_ty(p),
        same_arity(p, a),
        matched(p, a, m) is Some,
        keeps(matched(p, a, m)->0, more),
    ensures
        substituted_within(kn, more, p, d) == a,
    decreases p, 0nat,
{
    match p {
        TyV::TypeVar(t) => {
            assert(matched(p, a, m)->0.contains_key(t));
            assert(more.contains_key(t) && more[t] == a);
        },
        TyV::Struct(_, ps) => {
            assert(all_same_arity(ps, a->Struct_1));
            assert(shorter(ps, a->Struct_1) == ps.len());
            all_matched_become(kn, ps, a->Struct_1, m, more, ps.len(), d);
        },
        TyV::Enum(_, ps) => {
            assert(all_same_arity(ps, a->Enum_1));
            assert(shorter(ps, a->Enum_1) == ps.len());
            all_matched_become(kn, ps, a->Enum_1, m, more, ps.len(), d);
        },
        TyV::Dyn(_, ps) => {
            assert(all_same_arity(ps, a->Dyn_1));
            all_matched_become(kn, ps, a->Dyn_1, m, more, ps.len(), d);
        },
        TyV::Vec(e) => matched_becomes(kn, *e, *a->Vec_0, m, more, d),
        TyV::Weak(e) => matched_becomes(kn, *e, *a->Weak_0, m, more, d),
        TyV::HashMap(k, v) => {
            let m1 = matched(*k, *a->HashMap_0, m)->0;
            matching_keeps(*v, *a->HashMap_1, m1);
            assert forall|x: SymbolId| m1.contains_key(x) implies #[trigger] more.contains_key(x) && more[x]
                == m1[x] by {
                assert(matched(p, a, m)->0.contains_key(x));
            }
            matched_becomes(kn, *k, *a->HashMap_0, m, more, d);
            matched_becomes(kn, *v, *a->HashMap_1, m1, more, d);
        },
        _ => {},
    }
}

pub(crate) proof fn all_matched_become(
    kn: Known,
    ps: Seq<TyV>,
    args: Seq<TyV>,
    m: Map<SymbolId, TyV>,
    more: Map<SymbolId, TyV>,
    n: nat,
    d: nat,
)
    requires
        all_plain(ps),
        all_same_arity(ps, args),
        n <= ps.len(),
        all_matched(ps, args, m, n) is Some,
        keeps(all_matched(ps, args, m, n)->0, more),
    ensures
        forall|i: int| 0 <= i < n ==> substituted_within(kn, more, #[trigger] ps[i], d) == args[i],
        n == ps.len() ==> all_substituted_within(kn, more, ps, d) == args,
    decreases ps, n,
{
    if n > 0 {
        let m1 = all_matched(ps, args, m, (n - 1) as nat)->0;
        let m2 = all_matched(ps, args, m, n)->0;
        matching_keeps(ps[n - 1], args[n - 1], m1);
        assert forall|x: SymbolId| m1.contains_key(x) implies #[trigger] more.contains_key(x) && more[x] == m1[x] by {
            assert(m2.contains_key(x));
        }
        all_matched_become(kn, ps, args, m, more, (n - 1) as nat, d);
        assert(plain_ty(ps[n - 1]) && same_arity(ps[n - 1], args[n - 1]));
        matched_becomes(kn, ps[n - 1], args[n - 1], m1, more, d);
    }
    if n == ps.len() {
        assert(all_substituted_within(kn, more, ps, d) =~= args);
    }
}

/// Substituting what a match bound gives the argument's type back. Arrays are
/// left out, whose lengths are not compared, and so are functions and
/// projections, which are compared as they stand.
pub proof fn substituting_a_match_gives_the_argument(kn: Known, p: TyV, a: TyV, m: Map<SymbolId, TyV>)
    requires
        plain_ty(p),
        same_arity(p, a),
        matched(p, a, m) is Some,
    ensures
        substituted(kn, matched(p, a, m)->0, p) == a,
        keeps(m, matched(p, a, m)->0),
{
    matching_keeps(p, a, m);
    matched_becomes(kn, p, a, m, matched(p, a, m)->0, usize::MAX as nat);
}

/// Matching against a type without variables binds only such types.
proof fn matching_grounds(p: TyV, a: TyV, m: Map<SymbolId, TyV>)
    requires
        ground(a),
        grounds(m),
    ensures
        matched(p, a, m) matches Some(m2) ==> grounds(m2),
    decreases p, 0nat,
{
    match p {
        TyV::Struct(_, ps) => if a is Struct {
            matching_all_grounds(ps, a->Struct_1, m, shorter(ps, a->Struct_1));
        },
        TyV::Enum(_, ps) => if a is Enum {
            matching_all_grounds(ps, a->Enum_1, m, shorter(ps, a->Enum_1));
        },
        TyV::Dyn(_, ps) => if a is Dyn && ps.len() == a->Dyn_1.len() {
            matching_all_grounds(ps, a->Dyn_1, m, ps.len());
        },
        TyV::Array(e, _) => if a is Array {
            matching_grounds(*e, *a->Array_0, m);
        },
        TyV::Vec(e) => if a is Vec {
            matching_grounds(*e, *a->Vec_0, m);
        },
        TyV::Weak(e) => if a is Weak {
            matching_grounds(*e, *a->Weak_0, m);
        },
        TyV::HashMap(k, v) => if a is HashMap {
            matching_grounds(*k, *a->HashMap_0, m);
            match matched(*k, *a->HashMap_0, m) {
                Some(m1) => matching_grounds(*v, *a->HashMap_1, m1),
                None => {},
            }
        },
        _ => {},
    }
}

proof fn matching_all_grounds(ps: Seq<TyV>, args: Seq<TyV>, m: Map<SymbolId, TyV>, n: nat)
    requires
        all_ground(args),
        grounds(m),
        n <= args.len(),
    ensures
        all_matched(ps, args, m, n) matches Some(m2) ==> grounds(m2),
    decreases ps, n,
{
    if n > 0 && n <= ps.len() {
        matching_all_grounds(ps, args, m, (n - 1) as nat);
        match all_matched(ps, args, m, (n - 1) as nat) {
            Some(m1) => {
                assert(ground(args[n - 1]));
                matching_grounds(ps[n - 1], args[n - 1], m1);
            },
            None => {},
        }
    }
}

// ---- methods ----

/// A method call on a struct or enum that has an implementation for it.
pub open spec fn resolvable(methods: Map<(SymbolId, Seq<char>), SymbolId>, k: HirKindV) -> bool {
    match k {
        HirKindV::MethodCall { receiver, method, .. } => match nominal_sym(receiver.ty) {
            Some(s) => methods.contains_key((s, method)),
            None => false,
        },
        _ => false,
    }
}

/// No node is a method call that could be resolved.
pub open spec fn resolved_test(methods: Map<(SymbolId, Seq<char>), SymbolId>) -> Test {
    Test { ty: |t: TyV| true, kind: |k: HirKindV| !resolvable(methods, k) }
}

pub open spec fn any_test() -> Test {
    Test { ty: |t: TyV| true, kind: |k: HirKindV| true }
}

proof fn anything_passes_expr(e: HirExprV)
    ensures
        expr_all(any_test(), e),
    decreases e, 1nat,
{
    anything_passes_kind(e.kind);
}

proof fn anything_passes_opt(e: Option<Box<HirExprV>>)
    ensures
        opt_all(any_test(), e),
    decreases e, 2nat,
{
    match e {
        Some(e) => anything_passes_expr(*e),
        None => {},
    }
}

#[verifier::spinoff_prover]
proof fn anything_passes_kind(k: HirKindV)
    ensures
        kind_all(any_test(), k),
    decreases k, 0nat,
{
    match k {
        HirKindV::EnumPayloadCtor { payloads, .. } => anything_passes_exprs(payloads),
        HirKindV::Unary { expr, .. } => anything_passes_expr(*expr),
        HirKindV::Cast { expr, .. } => anything_passes_expr(*expr),
        HirKindV::Binary { lhs, rhs, .. } => {
            anything_passes_expr(*lhs);
            anything_passes_expr(*rhs);
        },
        HirKindV::Logical { lhs, rhs, .. } => {
            anything_passes_expr(*lhs);
            anything_passes_expr(*rhs);
        },
        HirKindV::Assign { rhs, .. } => anything_passes_expr(*rhs),
        HirKindV::AssignOp { rhs, .. } => anything_passes_expr(*rhs),
        HirKindV::Call { args, .. } => anything_passes_exprs(args),
        HirKindV::IndirectCall { callee, args, .. } => {
            anything_passes_expr(*callee);
            anything_passes_exprs(args);
        },
        HirKindV::BuiltinCall { args, .. } => anything_passes_exprs(args),
        HirKindV::MethodCall { receiver, args, .. } => {
            anything_passes_expr(*receiver);
            anything_passes_exprs(args);
        },
        HirKindV::DynBox { value, .. } => anything_passes_expr(*value),
        HirKindV::DynCall { receiver, args, .. } => {
            anything_passes_expr(*receiver);
            anything_passes_exprs(args);
        },
        HirKindV::StructLit { fields, .. } => anything_passes_fields(fields),
        HirKindV::FieldAccess { receiver, .. } => anything_passes_expr(*receiver),
        HirKindV::FieldAssign { receiver, rhs, .. } => {
            anything_passes_expr(*receiver);
            anything_passes_expr(*rhs);
        },
        HirKindV::Array { elems, .. } => anything_passes_exprs(elems),
        HirKindV::Index { array, index, .. } => {
            anything_passes_expr(*array);
            anything_passes_expr(*index);
        },
        HirKindV::StrByteIndex { str_val, index, .. } => {
            anything_passes_expr(*str_val);
            anything_passes_expr(*index);
        },
        HirKindV::StrSlice { str_val, start, end, .. } => {
            anything_passes_expr(*str_val);
            anything_passes_expr(*start);
            anything_passes_expr(*end);
        },
        HirKindV::If { cond, then_b, else_b, .. } => {
            anything_passes_expr(*cond);
            anything_passes_block(then_b);
            anything_passes_opt(else_b);
        },
        HirKindV::While { cond, body, .. } => {
            anything_passes_expr(*cond);
            anything_passes_block(body);
        },
        HirKindV::For { iter, body, .. } => {
            anything_passes_expr(*iter);
            anything_passes_block(body);
        },
        HirKindV::ForRange { start, end, body, .. } => {
            anything_passes_expr(*start);
            anything_passes_expr(*end);
            anything_passes_block(body);
        },
        HirKindV::Match { scrutinee, arms, .. } => {
            anything_passes_expr(*scrutinee);
            anything_passes_arms(arms);
        },
        HirKindV::Block(b) => anything_passes_block(b),
        HirKindV::Return(v) => anything_passes_opt(v),
        _ => {},
    }
}

proof fn anything_passes_exprs(es: Seq<HirExprV>)
    ensures
        exprs_all(any_test(), es),
    decreases es, 0nat,
{
    assert forall|i: int| 0 <= i < es.len() implies expr_all(any_test(), #[trigger] es[i]) by {
        anything_passes_expr(es[i]);
    }
}

proof fn anything_passes_fields(fs: Seq<(u32, HirExprV)>)
    ensures
        fields_all(any_test(), fs),
    decreases fs, 0nat,
{
    assert forall|i: int| 0 <= i < fs.len() implies expr_all(any_test(), (#[trigger] fs[i]).1) by {
        assert(decreases_to!(fs => fs[i]));
        anything_passes_expr(fs[i].1);
    }
}

proof fn anything_passes_arms(arms: Seq<HirArmV>)
    ensures
        arms_all(any_test(), arms),
    decreases arms, 0nat,
{
    assert forall|i: int| 0 <= i < arms.len() implies arm_all(any_test(), #[trigger] arms[i]) by {
        assert(decreases_to!(arms => arms[i]));
        match arms[i].guard {
            Some(g) => anything_passes_expr(g),
            None => {},
        }
        anything_passes_expr(arms[i].body);
    }
}

proof fn anything_passes_block(b: HirBlockV)
    ensures
        block_all(any_test(), b),
    decreases b, 0nat,
{
    let ss = b.stmts;
    assert forall|i: int| 0 <= i < ss.len() implies stmt_all(any_test(), #[trigger] ss[i]) by {
        assert(decreases_to!(ss => ss[i]));
        match ss[i] {
            HirStmtV::Let(l) => match l.init {
                Some(e) => anything_passes_expr(e),
                None => {},
            },
            HirStmtV::Expr(e, _) => anything_passes_expr(e),
        }
    }
}

proof fn resolving_carries(methods: Map<(SymbolId, Seq<char>), SymbolId>)
    ensures
        carries(method_rewrite(methods), any_test(), resolved_test(methods)),
{
    let rw = method_rewrite(methods);
    let p = resolved_test(methods);
    assert forall|k: HirKindV| kind_all(p, #[trigger] mapped_kind(rw, k)) implies {
        let after = (rw.kind)(mapped_kind(rw, k));
        (p.kind)(after) && kind_all(p, after)
    } by {
        resolving_one_passes(methods, mapped_kind(rw, k));
    }
}

/// Resolving leaves no method call that could be resolved.
pub proof fn no_resolvable_call_is_left(methods: Map<(SymbolId, Seq<char>), SymbolId>, b: HirBlockV)
    ensures
        block_all(resolved_test(methods), mapped_block(method_rewrite(methods), b)),
{
    anything_passes_block(b);
    resolving_carries(methods);
    carried_block(method_rewrite(methods), any_test(), resolved_test(methods), b);
}

/// The same of an expression.
pub proof fn no_resolvable_call_is_left_inside(methods: Map<(SymbolId, Seq<char>), SymbolId>, e: HirExprV)
    ensures
        expr_all(resolved_test(methods), mapped_expr(method_rewrite(methods), e)),
{
    anything_passes_expr(e);
    resolving_carries(methods);
    carried_expr(method_rewrite(methods), any_test(), resolved_test(methods), e);
}

/// What resolving makes of an expression: a call of a method that has an
/// implementation becomes a call of that function with the receiver in front,
/// every other expression stays what it is, and all keep their type.
pub proof fn methods_become_calls(methods: Map<(SymbolId, Seq<char>), SymbolId>, e: HirExprV)
    ensures
        ({
            let rw = method_rewrite(methods);
            let after = mapped_expr(rw, e);
            &&& after.ty == e.ty
            &&& !resolvable(methods, e.kind) ==> after.kind == mapped_kind(rw, e.kind)
            &&& e.kind matches HirKindV::MethodCall { receiver, method, args } ==> (resolvable(methods, e.kind)
                ==> after.kind == (HirKindV::Call {
                callee: methods[(nominal_sym(receiver.ty)->0, method)],
                args: seq![mapped_expr(rw, *receiver)] + mapped_exprs(rw, args),
            }))
        }),
{
}

proof fn resolving_one_passes(methods: Map<(SymbolId, Seq<char>), SymbolId>, k: HirKindV)
    requires
        kind_all(resolved_test(methods), k),
    ensures
        (resolved_test(methods).kind)((method_rewrite(methods).kind)(k)),
        kind_all(resolved_test(methods), (method_rewrite(methods).kind)(k)),
{
    match k {
        HirKindV::MethodCall { receiver, method, args } => {
            let all = seq![*receiver] + args;
            assert forall|i: int| 0 <= i < all.len() implies expr_all(resolved_test(methods), #[trigger] all[i]) by {
                if i > 0 {
                    assert(all[i] == args[i - 1]);
                }
            }
        },
        _ => {},
    }
}

/// Resolving a second time changes nothing.
pub proof fn resolving_twice_is_resolving_once(methods: Map<(SymbolId, Seq<char>), SymbolId>, b: HirBlockV)
    ensures
        mapped_block(method_rewrite(methods), mapped_block(method_rewrite(methods), b)) == mapped_block(
            method_rewrite(methods),
            b,
        ),
{
    no_resolvable_call_is_left(methods, b);
    let once = mapped_block(method_rewrite(methods), b);
    assert(spares(method_rewrite(methods), resolved_test(methods)));
    spared_block(method_rewrite(methods), resolved_test(methods), once);
}

/// The same of an expression.
pub proof fn resolving_inside_twice_is_resolving_once(methods: Map<(SymbolId, Seq<char>), SymbolId>, e: HirExprV)
    ensures
        mapped_expr(method_rewrite(methods), mapped_expr(method_rewrite(methods), e)) == mapped_expr(
            method_rewrite(methods),
            e,
        ),
{
    no_resolvable_call_is_left_inside(methods, e);
    let once = mapped_expr(method_rewrite(methods), e);
    assert(spares(method_rewrite(methods), resolved_test(methods)));
    spared_expr(method_rewrite(methods), resolved_test(methods), once);
}

// ---- the result ----

/// No type variable in any type.
pub open spec fn ground_test() -> Test {
    Test { ty: |t: TyV| ground(t), kind: |k: HirKindV| true }
}

/// No type variable but the given ones.
pub open spec fn closed_test(vs: Seq<SymbolId>) -> Test {
    Test {
        ty: |t: TyV| covered(Map::new(|v: SymbolId| vs.contains(v), |v: SymbolId| TyV::Error), t),
        kind: |k: HirKindV| true,
    }
}

/// A module as it comes to specialization: concrete functions hold no type
/// variable, and generic ones no other than their own.
pub open spec fn well_scoped(fs: Seq<HirFnV>) -> bool {
    forall|i: int|
        0 <= i < fs.len() ==> if (#[trigger] fs[i]).generics.len() == 0 {
            fn_all(ground_test(), fs[i])
        } else {
            fn_all(closed_test(fs[i].generics), fs[i])
        }
}

proof fn coverage_grows(m: Map<SymbolId, TyV>, more: Map<SymbolId, TyV>, t: TyV)
    requires
        covered(m, t),
        forall|v: SymbolId| m.contains_key(v) ==> #[trigger] more.contains_key(v),
    ensures
        covered(more, t),
    decreases t,
{
    match t {
        TyV::Array(e, _) => coverage_grows(m, more, *e),
        TyV::Fn { params, ret } => {
            coverage_of_all_grows(m, more, params);
            coverage_grows(m, more, *ret);
        },
        TyV::Struct(_, args) => coverage_of_all_grows(m, more, args),
        TyV::Enum(_, args) => coverage_of_all_grows(m, more, args),
        TyV::Dyn(_, args) => coverage_of_all_grows(m, more, args),
        TyV::Weak(e) => coverage_grows(m, more, *e),
        TyV::Vec(e) => coverage_grows(m, more, *e),
        TyV::HashMap(k, v) => {
            coverage_grows(m, more, *k);
            coverage_grows(m, more, *v);
        },
        TyV::Assoc(b, _) => coverage_grows(m, more, *b),
        _ => {},
    }
}

proof fn coverage_of_all_grows(m: Map<SymbolId, TyV>, more: Map<SymbolId, TyV>, ts: Seq<TyV>)
    requires
        all_covered(m, ts),
        forall|v: SymbolId| m.contains_key(v) ==> #[trigger] more.contains_key(v),
    ensures
        all_covered(more, ts),
    decreases ts,
{
    assert forall|i: int| 0 <= i < ts.len() implies covered(more, #[trigger] ts[i]) by {
        assert(covered(m, ts[i]));
        coverage_grows(m, more, ts[i]);
    }
}

proof fn binding_binds(vs: Seq<SymbolId>, args: Seq<TyV>, n: nat)
    requires
        n <= vs.len(),
        n <= args.len(),
        all_ground(args),
    ensures
        grounds(bound(vs, args, n)),
        forall|i: int| 0 <= i < n ==> bound(vs, args, n).contains_key(#[trigger] vs[i]),
    decreases n,
{
    if n > 0 {
        binding_binds(vs, args, (n - 1) as nat);
        assert(ground(args[n - 1]));
    }
}

/// A specialization for types without variables holds no variable.
proof fn specializing_grounds(kn: Known, f: HirFnV, args: Seq<TyV>, sym: SymbolId)
    requires
        fn_all(closed_test(f.generics), f),
        all_ground(args),
        args.len() == f.generics.len(),
    ensures
        fn_all(ground_test(), specialized(kn, f, args, sym)),
{
    let m = zipped(f.generics, args);
    let q = closed_test(f.generics);
    let p = ground_test();
    let rw = substitution(kn, m);
    binding_binds(f.generics, args, f.generics.len());
    let own = Map::new(|v: SymbolId| f.generics.contains(v), |v: SymbolId| TyV::Error);
    assert forall|t: TyV| (q.ty)(t) implies (p.ty)(#[trigger] (rw.ty)(t)) by {
        assert(covered(own, t));
        assert forall|v: SymbolId| own.contains_key(v) implies #[trigger] m.contains_key(v) by {
            let i = choose|i: int| 0 <= i < f.generics.len() && f.generics[i] == v;
            assert(m.contains_key(f.generics[i]));
        }
        coverage_grows(own, m, t);
        substitution_grounds(kn, m, t);
    }
    assert(carries(rw, q, p));
    carried_block(rw, q, p, f.body);
    resolving_grounds(kn.methods, mapped_block(rw, f.body));
    let out = specialized(kn, f, args, sym);
    assert forall|i: int| 0 <= i < out.params.len() implies (p.ty)((#[trigger] out.params[i]).ty) by {
        assert((q.ty)(f.params[i].ty));
        assert((p.ty)((rw.ty)(f.params[i].ty)));
    }
    assert((p.ty)((rw.ty)(f.ret_ty)));
}

/// Resolving methods brings no variable in.
proof fn resolving_grounds(methods: Map<(SymbolId, Seq<char>), SymbolId>, b: HirBlockV)
    requires
        block_all(ground_test(), b),
    ensures
        block_all(ground_test(), mapped_block(method_rewrite(methods), b)),
{
    let rw = method_rewrite(methods);
    let p = ground_test();
    assert forall|k: HirKindV| kind_all(p, #[trigger] mapped_kind(rw, k)) implies {
        let after = (rw.kind)(mapped_kind(rw, k));
        (p.kind)(after) && kind_all(p, after)
    } by {
        match mapped_kind(rw, k) {
            HirKindV::MethodCall { receiver, method, args } => {
                let all = seq![*receiver] + args;
                assert forall|i: int| 0 <= i < all.len() implies expr_all(p, #[trigger] all[i]) by {
                    if i > 0 {
                        assert(all[i] == args[i - 1]);
                    }
                }
            },
            _ => {},
        }
    }
    carried_block(rw, p, p, b);
}

/// Type arguments inferred from types without variables hold none.
proof fn inferring_grounds(f: HirFnV, args: Seq<TyV>)
    requires
        all_ground(args),
    ensures
        inferred(f, args) matches Some(ts) ==> all_ground(ts) && ts.len() == f.generics.len(),
{
    if f.params.len() == args.len() {
        let none = Map::<SymbolId, TyV>::empty();
        assert(grounds(none));
        matching_all_grounds(param_tys(f.params), args, none, args.len());
    }
}

/// What holds of every state: bodies and requests hold no variable.
spec fn grounded(st: MonoV) -> bool {
    &&& forall|i: int| 0 <= i < st.concrete.len() ==> fn_all(ground_test(), #[trigger] st.concrete[i])
    &&& forall|s: SymbolId|
        st.generics.contains_key(s) ==> fn_all(closed_test((#[trigger] st.generics[s]).generics), st.generics[s])
    &&& asked_well(st.generics, st.worklist)
}

spec fn asked_well(generics: Map<SymbolId, HirFnV>, worklist: Seq<(SymbolId, Seq<TyV>)>) -> bool {
    forall|i: int|
        0 <= i < worklist.len() ==> all_ground((#[trigger] worklist[i]).1) && (generics.contains_key(worklist[i].0)
            ==> worklist[i].1.len() == generics[worklist[i].0].generics.len())
}

proof fn requesting_keeps_grounded(
    generics: Map<SymbolId, HirFnV>,
    cache: Map<(SymbolId, Seq<TyV>), SymbolId>,
    worklist: Seq<(SymbolId, Seq<TyV>)>,
    ms: Seq<MentionV>,
    n: nat,
)
    requires
        asked_well(generics, worklist),
        mentions_all(ground_test(), ms),
    ensures
        asked_well(generics, requests(generics, cache, worklist, ms, n)),
    decreases n,
{
    if n > 0 && n <= ms.len() {
        requesting_keeps_grounded(generics, cache, worklist, ms, (n - 1) as nat);
        assert(mention_passes(ground_test(), ms[n - 1]));
        match ms[n - 1] {
            MentionV::Call(callee, tys) => if generics.contains_key(callee) {
                assert forall|i: int| 0 <= i < tys.len() implies ground(#[trigger] tys[i]) by {
                    assert((ground_test().ty)(tys[i]));
                }
                inferring_grounds(generics[callee], tys);
            },
            _ => {},
        }
    }
}

proof fn request_keeps_grounded(st: MonoV, b: HirBlockV)
    requires
        grounded(st),
        block_all(ground_test(), b),
    ensures
        grounded(requested(st, b)),
{
    let none = Seq::<MentionV>::empty();
    assert(mentions_all(ground_test(), none));
    listed_block(ground_test(), none, b);
    let ms = block_mentions(seq![], b);
    requesting_keeps_grounded(st.generics, st.cache, st.worklist, ms, ms.len());
}

proof fn draining_keeps_grounded(st: MonoV)
    requires
        grounded(st),
        drained(st) is Some,
    ensures
        grounded(drained(st)->0),
    decreases 0x1_0000_0000 - st.next, st.worklist.len(),
{
    if st.worklist.len() > 0 {
        let (sym, args) = st.worklist.last();
        let rest = MonoV { worklist: st.worklist.drop_last(), ..st };
        assert(grounded(rest)) by {
            assert forall|i: int| 0 <= i < rest.worklist.len() implies all_ground((#[trigger] rest.worklist[i]).1) && (
            rest.generics.contains_key(rest.worklist[i].0) ==> rest.worklist[i].1.len()
                == rest.generics[rest.worklist[i].0].generics.len()) by {
                assert(rest.worklist[i] == st.worklist[i]);
            }
        }
        if st.cache.contains_key((sym, args)) || !st.generics.contains_key(sym) {
            draining_keeps_grounded(rest);
        } else {
            assert(st.worklist[st.worklist.len() - 1] == (sym, args));
            let f = specialized(st.known, st.generics[sym], args, SymbolId(st.next as u32));
            specializing_grounds(st.known, st.generics[sym], args, SymbolId(st.next as u32));
            let noted = MonoV { next: st.next + 1, cache: st.cache.insert((sym, args), f.sym), ..rest };
            assert(grounded(noted));
            request_keeps_grounded(noted, f.body);
            let next = served(rest, sym, args);
            assert forall|i: int| 0 <= i < next.concrete.len() implies fn_all(
                ground_test(),
                #[trigger] next.concrete[i],
            ) by {
                if i < st.concrete.len() {
                    assert(next.concrete[i] == st.concrete[i]);
                }
            }
            draining_keeps_grounded(next);
        }
    }
}

proof fn splitting_grounds(kn: Known, fs: Seq<HirFnV>, n: nat, next: nat)
    requires
        well_scoped(fs),
        n <= fs.len(),
    ensures
        grounded(split(kn, fs, n, next)),
        split(kn, fs, n, next).worklist.len() == 0,
    decreases n,
{
    if n > 0 {
        splitting_grounds(kn, fs, (n - 1) as nat, next);
        let f = fs[n - 1];
        if f.generics.len() == 0 {
            assert(fn_all(ground_test(), f));
            resolving_grounds(kn.methods, f.body);
            assert(fn_all(ground_test(), resolved_fn(kn, f)));
        } else {
            assert(fn_all(closed_test(f.generics), f));
        }
        let before = split(kn, fs, (n - 1) as nat, next);
        let after = split(kn, fs, n, next);
        assert forall|i: int| 0 <= i < after.concrete.len() implies fn_all(ground_test(), #[trigger] after.concrete[i]) by {
            if i < before.concrete.len() {
                assert(after.concrete[i] == before.concrete[i]);
            }
        }
    }
}

proof fn seeding_grounds(st: MonoV, n: nat)
    requires
        grounded(st),
    ensures
        grounded(seeded(st, n)),
    decreases n,
{
    if n > 0 && n <= st.concrete.len() {
        seeding_grounds(st, (n - 1) as nat);
        assert(fn_all(ground_test(), st.concrete[n - 1]));
        request_keeps_grounded(seeded(st, (n - 1) as nat), st.concrete[n - 1].body);
    }
}

/// Pointing calls elsewhere changes no type.
proof fn settling_grounds(st: MonoV, b: HirBlockV)
    requires
        block_all(ground_test(), b),
    ensures
        block_all(ground_test(), mapped_block(call_rewrite(st.generics, st.cache), b)),
{
    let rw = call_rewrite(st.generics, st.cache);
    let p = ground_test();
    assert forall|k: HirKindV| kind_all(p, #[trigger] mapped_kind(rw, k)) implies {
        let after = (rw.kind)(mapped_kind(rw, k));
        (p.kind)(after) && kind_all(p, after)
    } by {}
    carried_block(rw, p, p, b);
}

/// A monomorphized module holds no generic function and no type variable, in
/// no parameter, result, pattern, statement or expression.
pub proof fn no_type_variable_is_left(kn: Known, fs: Seq<HirFnV>)
    requires
        well_scoped(fs),
        monomorphized(kn, fs) is Some,
    ensures
        forall|i: int|
            0 <= i < monomorphized(kn, fs)->0.len() ==> fn_all(ground_test(), #[trigger] monomorphized(kn, fs)->0[i])
                && monomorphized(kn, fs)->0[i].generics.len() == 0,
{
    let next = first_fresh(fs);
    let st = split(kn, fs, fs.len(), next);
    splitting_grounds(kn, fs, fs.len(), next);
    seeding_grounds(st, st.concrete.len());
    draining_keeps_grounded(start(kn, fs));
    result_is_concrete(kn, fs);
    let done = drained(start(kn, fs))->0;
    let out = monomorphized(kn, fs)->0;
    assert forall|i: int| 0 <= i < out.len() implies fn_all(ground_test(), #[trigger] out[i]) by {
        assert(fn_all(ground_test(), done.concrete[i]));
        settling_grounds(done, done.concrete[i].body);
    }
}

} // verus!
