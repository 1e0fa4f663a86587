//! What the code of bindings, calls and whole functions does when it runs.

use vstd::prelude::*;

use crate::code::{CalleeV, Gen, OpV, Width, here, put};
use crate::code_laws::{block_goes_on, expr_goes_on};
use crate::hir::{HirExpr, HirExprKind, HirFn, HirLet};
use crate::machine::{Machine, Word, going_on, stepping, with_word, word_of};
use crate::machine_laws::{patterns_are_patterns, sums_of_patterns};
use crate::rules::{
    Env, all_made, begun, fn_made, let_made, made, made_block, params_made, past_end, wanted,
    width_of,
};
use crate::running_laws::{
    Store, agrees_with, begins, block_adds, block_named, blocks_inside, is_plain, is_plain_block,
    is_scalar, is_word, means_block, means_expr, no_step, one_step, plain_adds, reaches,
    reaching_on, stands_before,
};
use crate::simulation_laws::{block_runs, expr_runs, operand_runs};
use crate::ty::SymbolId;

verus! {

// ---- bindings ----

/// Every local's variable is among the code's own operations.
pub open spec fn vars_inside(g: Gen) -> bool {
    forall|s: SymbolId| #[trigger] g.vars.contains_key(s) ==> g.vars[s] < g.ops.len()
}

/// Running the code of a binding gives the new local its value, and leaves the
/// others what they hold.
#[verifier::spinoff_prover]
pub proof fn bindings_hold_their_value(
    env: Env,
    g: Gen,
    l: HirLet,
    e: HirExpr,
    s: SymbolId,
    ops: Seq<OpV>,
    m: Machine,
    st: Store,
    rounds: nat,
    w: Word,
) -> (m2: Machine)
    requires
        l.init == Some(e),
        l.sym == Some(s),
        is_scalar(l.ty@),
        is_plain(e),
        let_made(env, g, l) is Ok,
        begins(let_made(env, g, l)->Ok_0, ops),
        stands_before(ops, g, m, st),
        vars_inside(g),
        means_expr(st, e, rounds) matches Some((_, Some(v))) && v == w,
    ensures
        ({
            let g1 = let_made(env, g, l)->Ok_0;
            let after = (means_expr(st, e, rounds)->0).0;
            &&& reaches(ops, m, m2)
            &&& m2.at == g1.ops.len()
            &&& agrees_with(g1.vars, m2.held, after.insert(s, w))
        }),
{
    let width = width_of(l.ty@)->Ok_0;
    let x = here(g);
    let g1 = put(g, OpV::Var(width));
    let msg = "let initializer produced no value"@;
    let (g2, v) = wanted(made(env, g1, e), msg)->Ok_0;
    let g3 = put(g2, OpV::Assign(x, v));
    let end = let_made(env, g, l)->Ok_0;
    assert(end.ops == g3.ops && end.vars == g3.vars.insert(s, x));
    expr_goes_on(env, g1, e);
    assert(begins(g2, ops)) by {
        assert forall|i: int| 0 <= i < g2.ops.len() implies #[trigger] ops[i] == g2.ops[i] by {
            assert(g3.ops[i] == g2.ops[i]);
        }
    }
    assert(ops[g.ops.len() as int] == OpV::Var(width)) by {
        assert(g2.ops[g.ops.len() as int] == g1.ops[g.ops.len() as int]);
    }
    let m1 = going_on(m);
    one_step(ops, m);
    assert(blocks_inside(g1)) by {
        assert forall|i: int| 0 <= i < g1.ops.len() implies (block_named(#[trigger] g1.ops[i]) matches Some(k) ==> k
            < g1.ops.len()) by {
            if i < g.ops.len() {
                assert(g1.ops[i] == g.ops[i]);
            }
        }
    }
    let m2 = expr_runs(env, g1, e, ops, m1, st, rounds);
    plain_adds(env, g1, e);
    let after = (means_expr(st, e, rounds)->0).0;
    assert(ops[g2.ops.len() as int] == g3.ops[g2.ops.len() as int]);
    let m3 = Machine { at: m2.at + 1, held: m2.held.insert(x, w), ..m2 };
    one_step(ops, m2);
    reaching_on(ops, m, m1, m2);
    reaching_on(ops, m, m2, m3);
    let new = after.insert(s, w);
    assert(agrees_with(end.vars, m3.held, new)) by {
        assert forall|t: SymbolId| #[trigger] new.contains_key(t) implies end.vars.contains_key(t) && m3.held.contains_key(
            end.vars[t],
        ) && m3.held[end.vars[t]] == new[t] && is_word(new[t]) by {
            if t != s {
                assert(after.contains_key(t));
                assert(g.vars.contains_key(t));
            }
        }
        assert forall|t: SymbolId, u: SymbolId| #[trigger]
            new.contains_key(t) && #[trigger] new.contains_key(u) && t != u implies end.vars[t] != end.vars[u] by {
            if t != s {
                assert(after.contains_key(t));
                assert(g.vars.contains_key(t));
            }
            if u != s {
                assert(after.contains_key(u));
                assert(g.vars.contains_key(u));
            }
        }
    }
    m3
}

// ---- calls ----

/// What the first `k` of some expressions come to, one after the other.
pub open spec fn means_all(st: Store, es: Seq<HirExpr>, k: nat, rounds: nat) -> Option<(Store, Seq<Word>)>
    decreases k,
{
    if k == 0 || k > es.len() {
        Some((st, seq![]))
    } else {
        match means_all(st, es, (k - 1) as nat, rounds) {
            Some((st1, vs)) => match means_expr(st1, es[k - 1], rounds) {
                Some((st2, Some(v))) => Some((st2, vs.push(v))),
                _ => None,
            },
            None => None,
        }
    }
}

/// Running the code of a call's arguments makes each argument's value, in order.
#[verifier::spinoff_prover]
proof fn arguments_run(
    env: Env,
    g: Gen,
    es: Seq<HirExpr>,
    msg: Seq<char>,
    k: nat,
    ops: Seq<OpV>,
    m: Machine,
    st: Store,
    rounds: nat,
) -> (m2: Machine)
    requires
        k <= es.len(),
        forall|i: int| 0 <= i < es.len() ==> is_plain(#[trigger] es[i]),
        all_made(env, g, es, msg, k) is Ok,
        begins(all_made(env, g, es, msg, k)->Ok_0.0, ops),
        stands_before(ops, g, m, st),
        means_all(st, es, k, rounds) is Some,
    ensures
        ({
            let (g1, xs) = all_made(env, g, es, msg, k)->Ok_0;
            let (st1, vs) = means_all(st, es, k, rounds)->0;
            &&& reaches(ops, m, m2)
            &&& stands_before(ops, g1, m2, st1)
            &&& xs.len() == k && vs.len() == k
            &&& forall|i: int|
                0 <= i < k ==> (#[trigger] xs[i]) < g1.ops.len() && m2.made.contains_key(xs[i]) && m2.made[xs[i]] == vs[i]
        }),
    decreases k,
{
    if k == 0 {
        no_step(ops, m);
        m
    } else {
        let (g1, xs) = all_made(env, g, es, msg, (k - 1) as nat)->Ok_0;
        let (g2, x) = wanted(made(env, g1, es[k - 1]), msg)->Ok_0;
        let (st1, vs) = means_all(st, es, (k - 1) as nat, rounds)->0;
        expr_goes_on(env, g1, es[k - 1]);
        assert(begins(g1, ops)) by {
            assert forall|i: int| 0 <= i < g1.ops.len() implies #[trigger] ops[i] == g1.ops[i] by {
                assert(g2.ops[i] == g1.ops[i]);
            }
        }
        let m1 = arguments_run(env, g, es, msg, (k - 1) as nat, ops, m, st, rounds);
        let (st2, w) = means_expr(st1, es[k - 1], rounds)->0;
        assert(is_plain(es[k - 1]));
        let m2 = operand_runs(env, g1, es[k - 1], msg, ops, m1, st1, rounds, g2, x, w->0);
        reaching_on(ops, m, m1, m2);
        let all = xs.push(x);
        assert forall|i: int| 0 <= i < k implies (#[trigger] all[i]) < g2.ops.len() && m2.made.contains_key(all[i])
            && m2.made[all[i]] == vs.push(w->0)[i] by {
            if i < k - 1 {
                assert(xs[i] < g1.ops.len() && m1.made.contains_key(xs[i]));
            }
        }
        m2
    }
}

/// A call runs its arguments from the left to the right and then calls the
/// function that it names, with their values in their places.
#[verifier::spinoff_prover]
pub proof fn calls_pass_their_arguments(
    env: Env,
    g: Gen,
    e: HirExpr,
    ops: Seq<OpV>,
    m: Machine,
    st: Store,
    rounds: nat,
) -> (m2: Machine)
    requires
        e.kind matches HirExprKind::Call { callee, args } && (forall|i: int|
            0 <= i < args@.len() ==> is_plain(#[trigger] args@[i])) && means_all(st, args@, args@.len(), rounds) is Some,
        made(env, g, e) is Ok,
        begins(made(env, g, e)->Ok_0.0, ops),
        stands_before(ops, g, m, st),
    ensures
        e.kind matches HirExprKind::Call { callee, args } && {
            let (st1, vs) = means_all(st, args@, args@.len(), rounds)->0;
            &&& reaches(ops, m, m2)
            &&& m2.at + 1 == made(env, g, e)->Ok_0.0.ops.len()
            &&& ops[m2.at as int] matches OpV::Call(CalleeV::Fn(f), xs) && f == callee && xs.len() == args@.len()
                && forall|i: int|
                0 <= i < xs.len() ==> m2.made.contains_key(#[trigger] xs[i]) && m2.made[xs[i]] == vs[i]
        },
{
    match e.kind {
        HirExprKind::Call { callee, args } => {
            let msg = "call arg produced no value"@;
            let (g1, xs) = all_made(env, g, args@, msg, args@.len())->Ok_0;
            let g2 = made(env, g, e)->Ok_0.0;
            assert(g2 == put(g1, OpV::Call(CalleeV::Fn(callee), xs)));
            assert(begins(g1, ops)) by {
                assert forall|i: int| 0 <= i < g1.ops.len() implies #[trigger] ops[i] == g1.ops[i] by {
                    assert(g2.ops[i] == g1.ops[i]);
                }
            }
            let m2 = arguments_run(env, g, args@, msg, args@.len(), ops, m, st, rounds);
            assert(ops[g1.ops.len() as int] == g2.ops[g1.ops.len() as int]);
            m2
        },
        _ => m,
    }
}

// ---- functions ----

/// Once its parameters are in their variables, a function's code runs its body
/// and returns what the body means.
#[verifier::spinoff_prover]
pub proof fn functions_return_their_body(
    env: Env,
    texts: u32,
    f: HirFn,
    g: Gen,
    m: Machine,
    st: Store,
    rounds: nat,
) -> (m2: Machine)
    requires
        is_plain_block(f.body),
        params_made(begun(texts), f.params@, f.params@.len()) == Ok::<Gen, Seq<char>>(g),
        fn_made(env, texts, f) is Ok,
        fn_made(env, texts, f)->Ok_0.ops.len() <= usize::MAX,
        stands_before(fn_made(env, texts, f)->Ok_0.ops, g, m, st),
        means_block(st, f.body, rounds) is Some,
        f.ret_ty@ is Unit || (means_block(st, f.body, rounds)->0).1 is Some,
    ensures
        ({
            let ops = fn_made(env, texts, f)->Ok_0.ops;
            let (_, v) = means_block(st, f.body, rounds)->0;
            &&& reaches(ops, m, m2)
            &&& m2.at + 1 == ops.len()
            &&& ops[m2.at as int] matches OpV::Return(xs) && if f.ret_ty@ is Unit {
                xs.len() == 0
            } else {
                xs.len() == 1 && m2.made.contains_key(xs[0]) && m2.made[xs[0]] == v->0
            }
        }),
{
    let end = fn_made(env, texts, f)->Ok_0;
    let ops = end.ops;
    let (g1, r) = made_block(env, g, f.body)->Ok_0;
    block_goes_on(env, g, f.body);
    assert(g1.ops.len() <= end.ops.len());
    block_adds(env, g, f.body);
    assert(end == put(g1, end.ops.last()));
    assert(begins(g1, ops)) by {
        assert forall|i: int| 0 <= i < g1.ops.len() implies #[trigger] ops[i] == g1.ops[i] by {
            assert(end.ops[i] == g1.ops[i]);
        }
    }
    block_runs(env, g, f.body, ops, m, st, rounds)
}

// ---- ranges ----

/// The end of an inclusive range is one past its last integer; that of another
/// is the end itself.
#[verifier::spinoff_prover]
pub proof fn inclusive_ranges_go_one_further(
    ops: Seq<OpV>,
    g: Gen,
    m: Machine,
    v: usize,
    inclusive: bool,
    n: i64,
) -> (m2: Machine)
    requires
        begins(past_end(g, v, inclusive).0, ops),
        m.at == g.ops.len(),
        g.ops.len() < usize::MAX,
        v < g.ops.len(),
        m.made.contains_key(v),
        m.made[v] == word_of(Width::I64, n as int),
    ensures
        ({
            let (g1, limit) = past_end(g, v, inclusive);
            &&& reaches(ops, m, m2)
            &&& m2.at == g1.ops.len()
            &&& m2.held == m.held
            &&& m2.made.contains_key(limit)
            &&& m2.made[limit] == word_of(
                Width::I64,
                if inclusive {
                    n + 1
                } else {
                    n as int
                },
            )
        }),
{
    if inclusive {
        let g1 = past_end(g, v, inclusive).0;
        let p = g.ops.len();
        assert(ops[p as int] == g1.ops[p as int] && ops[p as int + 1] == g1.ops[p as int + 1]);
        let one = word_of(Width::I64, 1);
        let m1 = with_word(m, one);
        one_step(ops, m);
        let sum = word_of(Width::I64, n + 1);
        sums_of_patterns(Width::I64, n as int, 1);
        patterns_are_patterns(Width::I64, n as int);
        patterns_are_patterns(Width::I64, n + 1);
        assert(m1.made[v] == m.made[v] && m1.made[p as usize] == one);
        assert(stepping(ops, m1) is Some);
        let m2 = stepping(ops, m1)->0;
        one_step(ops, m1);
        reaching_on(ops, m, m1, m2);
        m2
    } else {
        no_step(ops, m);
        m
    }
}

} // verus!
