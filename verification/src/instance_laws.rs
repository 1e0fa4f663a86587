//! What inference finds, and what the functions made from it take.

use vstd::prelude::*;

use crate::hir::{HirExprV, HirFnV, HirKindV};
use crate::hir_walk::{MentionV, block_mentions, expr_tys};
use crate::monomorphize::{
    Known, MonoV, all_covered, all_ground, all_matched, all_substituted_within, bound,
    call_rewrite, covered, drained, every_call_is_specialized, first_fresh, ground, inferred,
    keeps, matched, monomorphized, param_tys, params_of, seeded, served, settled, specialized,
    split, start, substituted, substituted_within, zipped,
};
use crate::monomorphize_laws::{
    all_matched_become, matching_all_keeps, matching_keeps, plain_ty, same_arity,
};
use crate::ty::{SymbolId, TyV};

verus! {

// ---- inference is complete ----

/// A type made without functions and projections, which inference compares as
/// they stand.
pub open spec fn open_ty(t: TyV) -> bool
    decreases t,
{
    match t {
        TyV::Fn { .. } => false,
        TyV::Assoc(_, _) => false,
        TyV::Array(e, _) => open_ty(*e),
        TyV::Vec(e) => open_ty(*e),
        TyV::Weak(e) => open_ty(*e),
        TyV::HashMap(k, v) => open_ty(*k) && open_ty(*v),
        TyV::Struct(_, args) => all_open(args),
        TyV::Enum(_, args) => all_open(args),
        TyV::Dyn(_, args) => all_open(args),
        _ => true,
    }
}

pub open spec fn all_open(ts: Seq<TyV>) -> bool
    decreases ts,
{
    forall|i: int| 0 <= i < ts.len() ==> open_ty(#[trigger] ts[i])
}

/// Inference finds what there is to find: where binding the variables of a
/// parameter type, beside what is bound already, gives the argument type, the
/// two match, and nothing is bound otherwise.
pub proof fn what_fits_is_matched(
    kn: Known,
    p: TyV,
    a: TyV,
    m: Map<SymbolId, TyV>,
    more: Map<SymbolId, TyV>,
    d: nat,
)
    requires
        open_ty(p),
        covered(more, p),
        keeps(m, more),
        substituted_within(kn, more, p, d) == a,
    ensures
        matched(p, a, m) matches Some(found) && keeps(m, found) && keeps(found, more),
    decreases p, 0nat,
{
    matching_keeps(p, a, m);
    match p {
        TyV::TypeVar(t) => {
            if m.contains_key(t) {
                assert(more.contains_key(t) && more[t] == m[t]);
            } else {
                let found = m.insert(t, a);
                assert forall|k: SymbolId| found.contains_key(k) implies #[trigger] more.contains_key(k) && more[k]
                    == found[k] by {
                    if k != t {
                        assert(m.contains_key(k));
                    }
                }
            }
        },
        TyV::Struct(_, ps) => {
            all_that_fit_are_matched(kn, ps, a->Struct_1, m, more, ps.len(), d);
        },
        TyV::Enum(_, ps) => {
            all_that_fit_are_matched(kn, ps, a->Enum_1, m, more, ps.len(), d);
        },
        TyV::Dyn(_, ps) => {
            all_that_fit_are_matched(kn, ps, a->Dyn_1, m, more, ps.len(), d);
        },
        TyV::Array(e, _) => what_fits_is_matched(kn, *e, *a->Array_0, m, more, d),
        TyV::Vec(e) => what_fits_is_matched(kn, *e, *a->Vec_0, m, more, d),
        TyV::Weak(e) => what_fits_is_matched(kn, *e, *a->Weak_0, m, more, d),
        TyV::HashMap(k, v) => {
            what_fits_is_matched(kn, *k, *a->HashMap_0, m, more, d);
            let m1 = matched(*k, *a->HashMap_0, m)->0;
            what_fits_is_matched(kn, *v, *a->HashMap_1, m1, more, d);
        },
        _ => {},
    }
}

proof fn all_that_fit_are_matched(
    kn: Known,
    ps: Seq<TyV>,
    args: Seq<TyV>,
    m: Map<SymbolId, TyV>,
    more: Map<SymbolId, TyV>,
    n: nat,
    d: nat,
)
    requires
        n <= ps.len(),
        all_open(ps),
        all_covered(more, ps),
        keeps(m, more),
        all_substituted_within(kn, more, ps, d) == args,
    ensures
        args.len() == ps.len(),
        all_matched(ps, args, m, n) matches Some(found) && keeps(m, found) && keeps(found, more),
    decreases ps, n,
{
    matching_all_keeps(ps, args, m, n);
    if n > 0 {
        all_that_fit_are_matched(kn, ps, args, m, more, (n - 1) as nat, d);
        let m1 = all_matched(ps, args, m, (n - 1) as nat)->0;
        assert(open_ty(ps[n - 1]) && covered(more, ps[n - 1]));
        assert(args[n - 1] == substituted_within(kn, more, ps[n - 1], d));
        what_fits_is_matched(kn, ps[n - 1], args[n - 1], m1, more, d);
    }
}

/// The type arguments of a call are inferred whenever there are some that give
/// the argument types: for a function whose type parameters all occur among
/// its parameters' types.
pub proof fn what_fits_is_inferred(kn: Known, f: HirFnV, args: Seq<TyV>, more: Map<SymbolId, TyV>)
    requires
        all_open(param_tys(f.params)),
        all_covered(more, param_tys(f.params)),
        all_substituted_within(kn, more, param_tys(f.params), usize::MAX as nat) == args,
        forall|i: int| 0 <= i < f.generics.len() ==> some_use(f, #[trigger] f.generics[i]),
    ensures
        inferred(f, args) matches Some(found) && found.len() == f.generics.len() && forall|i: int|
            0 <= i < found.len() ==> more.contains_key(f.generics[i]) && #[trigger] found[i] == more[f.generics[i]],
{
    let ps = param_tys(f.params);
    let none = Map::<SymbolId, TyV>::empty();
    all_that_fit_are_matched(kn, ps, args, none, more, ps.len(), usize::MAX as nat);
    let m = all_matched(ps, args, none, ps.len())->0;
    assert forall|i: int| 0 <= i < f.generics.len() implies m.contains_key(#[trigger] f.generics[i]) by {
        let j = choose|j: int| 0 <= j < f.params.len() && occurs(f.generics[i], (#[trigger] f.params[j]).ty);
        assert(ps[j] == f.params[j].ty);
        what_occurs_is_bound_among(ps, args, none, ps.len(), j, f.generics[i], kn, more);
    }
}

/// Whether a variable occurs in a type, outside functions and projections.
pub open spec fn occurs(v: SymbolId, t: TyV) -> bool
    decreases t,
{
    match t {
        TyV::TypeVar(x) => x == v,
        TyV::Array(e, _) => occurs(v, *e),
        TyV::Vec(e) => occurs(v, *e),
        TyV::Weak(e) => occurs(v, *e),
        TyV::HashMap(a, b) => occurs(v, *a) || occurs(v, *b),
        TyV::Struct(_, args) => occurs_in(v, args),
        TyV::Enum(_, args) => occurs_in(v, args),
        TyV::Dyn(_, args) => occurs_in(v, args),
        _ => false,
    }
}

pub open spec fn occurs_in(v: SymbolId, ts: Seq<TyV>) -> bool
    decreases ts,
{
    exists|i: int| 0 <= i < ts.len() && occurs(v, #[trigger] ts[i])
}

pub open spec fn some_use(f: HirFnV, v: SymbolId) -> bool {
    exists|j: int| 0 <= j < f.params.len() && occurs(v, (#[trigger] f.params[j]).ty)
}

proof fn what_occurs_is_bound(p: TyV, a: TyV, m: Map<SymbolId, TyV>, v: SymbolId, kn: Known, more: Map<SymbolId, TyV>)
    requires
        open_ty(p),
        covered(more, p),
        keeps(m, more),
        substituted_within(kn, more, p, usize::MAX as nat) == a,
        occurs(v, p),
    ensures
        matched(p, a, m) is Some,
        matched(p, a, m)->0.contains_key(v),
    decreases p, 0nat,
{
    let d = usize::MAX as nat;
    what_fits_is_matched(kn, p, a, m, more, d);
    match p {
        TyV::Struct(_, ps) => {
            assert(occurs_in(v, ps));
            let j = choose|j: int| 0 <= j < ps.len() && occurs(v, #[trigger] ps[j]);
            all_that_fit_are_matched(kn, ps, a->Struct_1, m, more, ps.len(), d);
            what_occurs_is_bound_among(ps, a->Struct_1, m, ps.len(), j, v, kn, more);
        },
        TyV::Enum(_, ps) => {
            assert(occurs_in(v, ps));
            let j = choose|j: int| 0 <= j < ps.len() && occurs(v, #[trigger] ps[j]);
            all_that_fit_are_matched(kn, ps, a->Enum_1, m, more, ps.len(), d);
            what_occurs_is_bound_among(ps, a->Enum_1, m, ps.len(), j, v, kn, more);
        },
        TyV::Dyn(_, ps) => {
            assert(occurs_in(v, ps));
            let j = choose|j: int| 0 <= j < ps.len() && occurs(v, #[trigger] ps[j]);
            all_that_fit_are_matched(kn, ps, a->Dyn_1, m, more, ps.len(), d);
            what_occurs_is_bound_among(ps, a->Dyn_1, m, ps.len(), j, v, kn, more);
        },
        TyV::Array(e, _) => what_occurs_is_bound(*e, *a->Array_0, m, v, kn, more),
        TyV::Vec(e) => what_occurs_is_bound(*e, *a->Vec_0, m, v, kn, more),
        TyV::Weak(e) => what_occurs_is_bound(*e, *a->Weak_0, m, v, kn, more),
        TyV::HashMap(x, y) => {
            what_fits_is_matched(kn, *x, *a->HashMap_0, m, more, d);
            let m1 = matched(*x, *a->HashMap_0, m)->0;
            what_fits_is_matched(kn, *y, *a->HashMap_1, m1, more, d);
            if occurs(v, *x) {
                what_occurs_is_bound(*x, *a->HashMap_0, m, v, kn, more);
                assert(m1.contains_key(v));
                assert(matched(*y, *a->HashMap_1, m1)->0.contains_key(v));
            } else {
                what_occurs_is_bound(*y, *a->HashMap_1, m1, v, kn, more);
            }
        },
        _ => {},
    }
}

proof fn what_occurs_is_bound_among(
    ps: Seq<TyV>,
    args: Seq<TyV>,
    m: Map<SymbolId, TyV>,
    n: nat,
    j: int,
    v: SymbolId,
    kn: Known,
    more: Map<SymbolId, TyV>,
)
    requires
        0 <= j < n <= ps.len(),
        all_open(ps),
        all_covered(more, ps),
        keeps(m, more),
        all_substituted_within(kn, more, ps, usize::MAX as nat) == args,
        occurs(v, ps[j]),
    ensures
        all_matched(ps, args, m, n) is Some,
        all_matched(ps, args, m, n)->0.contains_key(v),
    decreases ps, n,
{
    let d = usize::MAX as nat;
    all_that_fit_are_matched(kn, ps, args, m, more, n, d);
    all_that_fit_are_matched(kn, ps, args, m, more, (n - 1) as nat, d);
    let m1 = all_matched(ps, args, m, (n - 1) as nat)->0;
    assert(open_ty(ps[n - 1]) && covered(more, ps[n - 1]));
    assert(args[n - 1] == substituted_within(kn, more, ps[n - 1], d));
    what_fits_is_matched(kn, ps[n - 1], args[n - 1], m1, more, d);
    if j == n - 1 {
        what_occurs_is_bound(ps[n - 1], args[n - 1], m1, v, kn, more);
    } else {
        what_occurs_is_bound_among(ps, args, m, (n - 1) as nat, j, v, kn, more);
        assert(m1.contains_key(v));
        assert(all_matched(ps, args, m, n)->0.contains_key(v));
    }
}

/// A function type or a projection matches itself alone.
pub proof fn functions_match_themselves(p: TyV, a: TyV, m: Map<SymbolId, TyV>)
    requires
        p is Fn || p is Assoc,
    ensures
        matched(p, a, m) is Some <==> p == a,
{
}

// ---- substitution ----

/// A type without variables and projections stays as it is.
pub proof fn concrete_types_stay(kn: Known, m: Map<SymbolId, TyV>, t: TyV, d: nat)
    requires
        ground(t),
        no_projection(t),
    ensures
        substituted_within(kn, m, t, d) == t,
    decreases t,
{
    match t {
        TyV::Array(e, _) => concrete_types_stay(kn, m, *e, d),
        TyV::Vec(e) => concrete_types_stay(kn, m, *e, d),
        TyV::Weak(e) => concrete_types_stay(kn, m, *e, d),
        TyV::HashMap(a, b) => {
            concrete_types_stay(kn, m, *a, d);
            concrete_types_stay(kn, m, *b, d);
        },
        TyV::Fn { params, ret } => {
            all_concrete_types_stay(kn, m, params, d);
            concrete_types_stay(kn, m, *ret, d);
        },
        TyV::Struct(_, args) => all_concrete_types_stay(kn, m, args, d),
        TyV::Enum(_, args) => all_concrete_types_stay(kn, m, args, d),
        TyV::Dyn(_, args) => all_concrete_types_stay(kn, m, args, d),
        _ => {},
    }
}

proof fn all_concrete_types_stay(kn: Known, m: Map<SymbolId, TyV>, ts: Seq<TyV>, d: nat)
    requires
        all_ground(ts),
        no_projections(ts),
    ensures
        all_substituted_within(kn, m, ts, d) == ts,
    decreases ts,
{
    let out = all_substituted_within(kn, m, ts, d);
    assert forall|i: int| 0 <= i < ts.len() implies #[trigger] out[i] == ts[i] by {
        assert(ground(ts[i]) && no_projection(ts[i]));
        concrete_types_stay(kn, m, ts[i], d);
    }
    assert(out =~= ts);
}

pub open spec fn no_projection(t: TyV) -> bool
    decreases t,
{
    match t {
        TyV::Assoc(_, _) => false,
        TyV::Array(e, _) => no_projection(*e),
        TyV::Vec(e) => no_projection(*e),
        TyV::Weak(e) => no_projection(*e),
        TyV::HashMap(a, b) => no_projection(*a) && no_projection(*b),
        TyV::Fn { params, ret } => no_projections(params) && no_projection(*ret),
        TyV::Struct(_, args) => no_projections(args),
        TyV::Enum(_, args) => no_projections(args),
        TyV::Dyn(_, args) => no_projections(args),
        _ => true,
    }
}

pub open spec fn no_projections(ts: Seq<TyV>) -> bool
    decreases ts,
{
    forall|i: int| 0 <= i < ts.len() ==> no_projection(#[trigger] ts[i])
}

/// A projection on a struct is what the struct binds the name to, where that
/// is a concrete type.
pub proof fn projections_become_their_binding(kn: Known, m: Map<SymbolId, TyV>, v: SymbolId, s: SymbolId, name: Seq<char>, t: TyV)
    requires
        m.contains_key(v),
        m[v] == TyV::Struct(s, seq![]),
        kn.bindings.contains_key((s, name)),
        kn.bindings[(s, name)] == t,
        ground(t),
        no_projection(t),
    ensures
        substituted(kn, m, TyV::Assoc(Box::new(TyV::TypeVar(v)), name)) == t,
{
    let d = usize::MAX as nat;
    let own = zipped(params_of(kn, s), seq![]);
    concrete_types_stay(kn, own, t, (d - 1) as nat);
    assert(substituted_within(kn, m, TyV::TypeVar(v), d) == m[v]);
}

/// What a type becomes is decided by its variables alone.
proof fn variables_decide(kn: Known, a: Map<SymbolId, TyV>, b: Map<SymbolId, TyV>, t: TyV, d: nat)
    requires
        covered(a, t),
        keeps(a, b),
    ensures
        substituted_within(kn, a, t, d) == substituted_within(kn, b, t, d),
    decreases t,
{
    match t {
        TyV::TypeVar(v) => {
            assert(b.contains_key(v) && b[v] == a[v]);
        },
        TyV::Array(e, _) => variables_decide(kn, a, b, *e, d),
        TyV::Vec(e) => variables_decide(kn, a, b, *e, d),
        TyV::Weak(e) => variables_decide(kn, a, b, *e, d),
        TyV::HashMap(x, y) => {
            variables_decide(kn, a, b, *x, d);
            variables_decide(kn, a, b, *y, d);
        },
        TyV::Assoc(x, _) => variables_decide(kn, a, b, *x, d),
        TyV::Fn { params, ret } => {
            variables_decide_all(kn, a, b, params, d);
            variables_decide(kn, a, b, *ret, d);
        },
        TyV::Struct(_, args) => variables_decide_all(kn, a, b, args, d),
        TyV::Enum(_, args) => variables_decide_all(kn, a, b, args, d),
        TyV::Dyn(_, args) => variables_decide_all(kn, a, b, args, d),
        _ => {},
    }
}

proof fn variables_decide_all(kn: Known, a: Map<SymbolId, TyV>, b: Map<SymbolId, TyV>, ts: Seq<TyV>, d: nat)
    requires
        all_covered(a, ts),
        keeps(a, b),
    ensures
        all_substituted_within(kn, a, ts, d) == all_substituted_within(kn, b, ts, d),
    decreases ts,
{
    let x = all_substituted_within(kn, a, ts, d);
    let y = all_substituted_within(kn, b, ts, d);
    assert forall|i: int| 0 <= i < ts.len() implies #[trigger] x[i] == y[i] by {
        assert(covered(a, ts[i]));
        variables_decide(kn, a, b, ts[i], d);
    }
    assert(x =~= y);
}

// ---- instances ----

proof fn binding_binds(gs: Seq<SymbolId>, args: Seq<TyV>, m: Map<SymbolId, TyV>, n: nat)
    requires
        n <= gs.len(),
        args.len() == gs.len(),
        forall|i: int| 0 <= i < gs.len() ==> m.contains_key(#[trigger] gs[i]) && args[i] == m[gs[i]],
    ensures
        keeps(bound(gs, args, n), m),
        forall|i: int| 0 <= i < n ==> bound(gs, args, n).contains_key(#[trigger] gs[i]),
    decreases n,
{
    if n > 0 {
        binding_binds(gs, args, m, (n - 1) as nat);
        let before = bound(gs, args, (n - 1) as nat);
        let after = bound(gs, args, n);
        assert(m.contains_key(gs[n - 1]));
        assert forall|k: SymbolId| after.contains_key(k) implies #[trigger] m.contains_key(k) && m[k] == after[k] by {
            if k != gs[n - 1] {
                assert(before.contains_key(k));
            }
        }
    }
}

/// The instance of a function for a call takes what the call gives: its
/// parameters have the types of the arguments. The parameter types hold no
/// variables but the function's own, and no arrays, functions and projections.
pub proof fn instances_take_what_they_are_given(kn: Known, f: HirFnV, args: Seq<TyV>, sym: SymbolId, i: int)
    requires
        inferred(f, args) is Some,
        0 <= i < args.len(),
        forall|j: int| 0 <= j < f.params.len() ==> plain_ty((#[trigger] f.params[j]).ty),
        forall|j: int| 0 <= j < f.params.len() ==> same_arity((#[trigger] f.params[j]).ty, args[j]),
        covered(zipped(f.generics, inferred(f, args)->0), f.params[i].ty),
    ensures
        specialized(kn, f, inferred(f, args)->0, sym).params[i].ty == args[i],
        specialized(kn, f, inferred(f, args)->0, sym).params.len() == args.len(),
        specialized(kn, f, inferred(f, args)->0, sym).params[i].sym == f.params[i].sym,
{
    let ps = param_tys(f.params);
    let none = Map::<SymbolId, TyV>::empty();
    let d = usize::MAX as nat;
    let found = inferred(f, args)->0;
    let m = all_matched(ps, args, none, args.len())->0;
    assert(found.len() == f.generics.len());
    assert forall|j: int| 0 <= j < f.generics.len() implies m.contains_key(#[trigger] f.generics[j]) && found[j]
        == m[f.generics[j]] by {}
    binding_binds(f.generics, found, m, f.generics.len());
    assert forall|j: int| 0 <= j < ps.len() implies plain_ty(#[trigger] ps[j]) by {
        assert(plain_ty(f.params[j].ty));
    }
    assert forall|j: int| 0 <= j < ps.len() implies same_arity(#[trigger] ps[j], args[j]) by {
        assert(same_arity(f.params[j].ty, args[j]));
    }
    all_matched_become(kn, ps, args, none, m, ps.len(), d);
    assert(substituted_within(kn, m, ps[i], d) == args[i]);
    variables_decide(kn, zipped(f.generics, found), m, f.params[i].ty, d);
}

/// Every specialization that is made stands among the functions, as the
/// instance of its function for its type arguments.
pub open spec fn instances_stand(st: MonoV) -> bool {
    forall|k: (SymbolId, Seq<TyV>)| #[trigger] st.cache.contains_key(k) ==> instance_stands(st, k)
}

pub open spec fn instance_stands(st: MonoV, k: (SymbolId, Seq<TyV>)) -> bool {
    exists|i: int|
        0 <= i < st.concrete.len() && #[trigger] st.concrete[i] == specialized(
            st.known,
            st.generics[k.0],
            k.1,
            st.cache[k],
        )
}

proof fn draining_keeps_instances(st: MonoV)
    requires
        instances_stand(st),
        drained(st) is Some,
    ensures
        instances_stand(drained(st)->0),
        drained(st)->0.generics == st.generics,
        drained(st)->0.known == st.known,
    decreases 0x1_0000_0000 - st.next, st.worklist.len(),
{
    if st.worklist.len() > 0 {
        let (sym, args) = st.worklist.last();
        let rest = MonoV { worklist: st.worklist.drop_last(), ..st };
        assert forall|k: (SymbolId, Seq<TyV>)| #[trigger] rest.cache.contains_key(k) implies instance_stands(rest, k) by {
            assert(instance_stands(st, k));
            let i = choose|i: int|
                0 <= i < st.concrete.len() && #[trigger] st.concrete[i] == specialized(
                    st.known,
                    st.generics[k.0],
                    k.1,
                    st.cache[k],
                );
            assert(rest.concrete[i] == st.concrete[i]);
        }
        if st.cache.contains_key((sym, args)) || !st.generics.contains_key(sym) {
            draining_keeps_instances(rest);
        } else {
            let next = served(rest, sym, args);
            let f = specialized(st.known, st.generics[sym], args, SymbolId(st.next as u32));
            assert(next.concrete == st.concrete.push(f));
            assert(next.cache == st.cache.insert((sym, args), f.sym));
            assert forall|k: (SymbolId, Seq<TyV>)| #[trigger] next.cache.contains_key(k) implies instance_stands(
                next,
                k,
            ) by {
                if k == (sym, args) {
                    assert(next.concrete[st.concrete.len() as int] == f);
                } else {
                    assert(st.cache.contains_key(k));
                    assert(instance_stands(st, k));
                    let i = choose|i: int|
                        0 <= i < st.concrete.len() && #[trigger] st.concrete[i] == specialized(
                            st.known,
                            st.generics[k.0],
                            k.1,
                            st.cache[k],
                        );
                    assert(next.concrete[i] == st.concrete[i]);
                }
            }
            draining_keeps_instances(next);
        }
    }
}

proof fn splitting_makes_nothing(kn: Known, fs: Seq<HirFnV>, n: nat, next: nat)
    ensures
        split(kn, fs, n, next).cache == Map::<(SymbolId, Seq<TyV>), SymbolId>::empty(),
    decreases n,
{
    if n > 0 && n <= fs.len() {
        splitting_makes_nothing(kn, fs, (n - 1) as nat, next);
    }
}

proof fn seeding_makes_nothing(st: MonoV, n: nat)
    ensures
        seeded(st, n).cache == st.cache,
    decreases n,
{
    if n > 0 && n <= st.concrete.len() {
        seeding_makes_nothing(st, (n - 1) as nat);
    }
}

/// A call of a generic function in the result calls a function of the result
/// that takes what the call gives: the instance for the types of the arguments.
pub proof fn calls_reach_their_instance(kn: Known, fs: Seq<HirFnV>, i: int, j: int, callee: SymbolId, args: Seq<HirExprV>)
    requires
        monomorphized(kn, fs) is Some,
        0 <= i < drained(start(kn, fs))->0.concrete.len(),
        0 <= j < block_mentions(seq![], drained(start(kn, fs))->0.concrete[i].body).len(),
        block_mentions(seq![], drained(start(kn, fs))->0.concrete[i].body)[j] == MentionV::Call(callee, expr_tys(args)),
        drained(start(kn, fs))->0.generics.contains_key(callee),
        inferred(drained(start(kn, fs))->0.generics[callee], expr_tys(args)) is Some,
    ensures
        ({
            let st = drained(start(kn, fs))->0;
            let f = st.generics[callee];
            let found = inferred(f, expr_tys(args))->0;
            (call_rewrite(st.generics, st.cache).kind)(HirKindV::Call { callee, args }) matches HirKindV::Call {
                callee: target,
                args: given,
            } && given == args && exists|n: int|
                0 <= n < monomorphized(kn, fs)->0.len() && ({
                    let g = #[trigger] monomorphized(kn, fs)->0[n];
                    g.sym == target && g == (HirFnV { body: g.body, ..specialized(st.known, f, found, target) })
                })
        }),
{
    let st = drained(start(kn, fs))->0;
    let f = st.generics[callee];
    let found = inferred(f, expr_tys(args))->0;
    let k = (callee, found);
    every_call_is_specialized(kn, fs, i, j, k);
    let first = split(kn, fs, fs.len(), first_fresh(fs));
    splitting_makes_nothing(kn, fs, fs.len(), first_fresh(fs));
    seeding_makes_nothing(first, first.concrete.len());
    draining_keeps_instances(start(kn, fs));
    assert(st.cache.contains_key(k));
    assert(instance_stands(st, k));
    let n = choose|n: int|
        0 <= n < st.concrete.len() && #[trigger] st.concrete[n] == specialized(
            st.known,
            st.generics[k.0],
            k.1,
            st.cache[k],
        );
    let g = monomorphized(kn, fs)->0[n];
    assert(g == settled(st, st.concrete[n]));
}

} // verus!
