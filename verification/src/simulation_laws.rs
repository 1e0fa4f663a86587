//! Running the code of an expression does what the expression means.

use vstd::prelude::*;

use crate::ast::{Block, Lit};
use crate::code::{Arith, Gen, OpV, Width, put};
use crate::code_laws::{expr_goes_on, value_of_goes_on};
use crate::hir::{HirBinOp, HirBlock, HirExpr, HirExprKind, HirLit, HirStmt, HirUnOp};
use crate::machine::{
    Machine, Word, all_made_before, compares, computes, entry, given, going_on, holds_of,
    in_type, is_whole, means, pattern, room_of, signed_value, span_of, stepping, truth,
    with_word, word_of,
};
use crate::machine_laws::{
    conditions_mean_comparisons, operations_mean_operators, patterns_are_patterns,
    signed_types_hold_negative_integers,
};
use crate::rules::{
    Env, converted, has_value, int_cond, int_op, into_block, last_op, made, made_assign,
    made_block, operation, side_made, stmt_made, stmts_made, unary, value_made, width_bytes,
};
use crate::running_laws::{
    Branches, Rounds, Store, adds, agrees_with, applied, applied_unary, are_plain, begins,
    block_adds, block_named, blocks_inside, blocks_stay_inside, branches, branches_are_laid_out,
    if_adds, is_plain, is_plain_block, is_word, keeps_made, logical_adds, means_block,
    means_expr, means_stmts, no_step, one_step, plain_adds, reaches, reaching_on, reading,
    rounds_are_laid_out, rounds_of, sides, sides_are_laid_out, stands_after, stands_before,
    stmts_add, while_adds, words_are_words,
};
use crate::table::lookup;
use crate::ty::{IntTy, SymbolId, TyV, int_signed};

verus! {

/// Where code is reached from: the operation after the switch to its block.
proof fn entry_is(ops: Seq<OpV>, b: usize, i: nat, k: nat)
    requires
        i <= k < ops.len(),
        ops[k as int] == OpV::Switch(b),
        forall|j: int| i <= j < k ==> #[trigger] ops[j] != OpV::Switch(b),
    ensures
        entry(ops, b, i) == Some(k + 1),
    decreases k - i,
{
    if i < k {
        assert(ops[i as int] != OpV::Switch(b));
        entry_is(ops, b, i + 1, k);
    }
}

spec fn is_param_of(op: OpV, b: usize) -> bool {
    op matches OpV::BlockParam(c, _) && c == b
}

proof fn given_is(ops: Seq<OpV>, made: Map<usize, Word>, b: usize, v: Word, i: nat, k: nat)
    requires
        i <= k < ops.len(),
        is_param_of(ops[k as int], b),
        forall|j: int| i <= j < k ==> !is_param_of(#[trigger] ops[j], b),
    ensures
        given(ops, made, b, seq![v], i) == made.insert(k as usize, v),
    decreases k - i,
{
    if i < k {
        assert(!is_param_of(ops[i as int], b));
        given_is(ops, made, b, v, i + 1, k);
    } else {
        assert(seq![v].drop_first() =~= seq![]);
        let after = made.insert(k as usize, v);
        assert(given(ops, after, b, seq![], i + 1) == after);
    }
}

/// How the code of a branch is laid out: where it divides, where each side
/// begins and ends, and where they meet.
spec fn laid_out(ops: Seq<OpV>, b: Branches, wants: bool) -> bool {
    let p = b.asked.ops.len();
    let (yes, no, merge) = (p as usize, (p + 1) as usize, (p + 2) as usize);
    let a1: Seq<usize> = if wants {
        seq![b.first_value->0]
    } else {
        seq![]
    };
    let a2: Seq<usize> = if wants {
        seq![b.second_value->0]
    } else {
        seq![]
    };
    &&& b.end.ops.len() <= ops.len() <= usize::MAX
    &&& begins(b.asked, ops)
    &&& blocks_inside(b.asked)
    &&& ops[p as int] is Block && ops[p as int + 1] is Block && ops[p as int + 2] is Block
    &&& b.first.ops.len() == p + if wants {
        7int
    } else {
        6int
    }
    &&& wants ==> is_param_of(ops[p as int + 3], merge)
    &&& ops[b.first.ops.len() - 3] == OpV::Branch(b.cond, yes, no)
    &&& ops[b.first.ops.len() - 2] == OpV::Switch(yes)
    &&& ops[b.first.ops.len() - 1] is Seal
    &&& b.first.ops.len() <= b.first_end.ops.len()
    &&& forall|i: int|
        b.first.ops.len() <= i < b.first_end.ops.len() ==> (block_named(#[trigger] ops[i]) matches Some(k) ==> k
            >= b.first.ops.len())
    &&& ops[b.first_end.ops.len() as int] == OpV::Jump(merge, a1)
    &&& b.second.ops.len() == b.first_end.ops.len() + 3
    &&& ops[b.second.ops.len() - 2] == OpV::Switch(no)
    &&& ops[b.second.ops.len() - 1] is Seal
    &&& b.second.ops.len() <= b.second_end.ops.len()
    &&& forall|i: int|
        b.second.ops.len() <= i < b.second_end.ops.len() ==> (block_named(#[trigger] ops[i]) matches Some(k) ==> k
            >= b.second.ops.len())
    &&& ops[b.second_end.ops.len() as int] == OpV::Jump(merge, a2)
    &&& b.end.ops.len() == b.second_end.ops.len() + 3
    &&& ops[b.end.ops.len() - 2] == OpV::Switch(merge)
    &&& ops[b.end.ops.len() - 1] is Seal
}

proof fn old_blocks_are_others(ops: Seq<OpV>, g: Gen, k: usize)
    requires
        begins(g, ops),
        blocks_inside(g),
        k >= g.ops.len(),
    ensures
        forall|j: int| 0 <= j < g.ops.len() ==> block_named(#[trigger] ops[j]) != Some(k),
{
    assert forall|j: int| 0 <= j < g.ops.len() implies block_named(#[trigger] ops[j]) != Some(k) by {
        assert(ops[j] == g.ops[j]);
    }
}

/// Where each of a branch's blocks begins.
#[verifier::spinoff_prover]
proof fn entries_are(ops: Seq<OpV>, b: Branches, wants: bool)
    requires
        laid_out(ops, b, wants),
    ensures
        ({
            let p = b.asked.ops.len();
            &&& entry(ops, p as usize, 0) == Some((b.first.ops.len() - 1) as nat)
            &&& entry(ops, (p + 1) as usize, 0) == Some((b.second.ops.len() - 1) as nat)
            &&& entry(ops, (p + 2) as usize, 0) == Some((b.end.ops.len() - 1) as nat)
        }),
{
    let p = b.asked.ops.len();
    let (yes, no, merge) = (p as usize, (p + 1) as usize, (p + 2) as usize);
    old_blocks_are_others(ops, b.asked, yes);
    old_blocks_are_others(ops, b.asked, no);
    old_blocks_are_others(ops, b.asked, merge);
    let k1 = (b.first.ops.len() - 2) as nat;
    let k2 = (b.second.ops.len() - 2) as nat;
    let k3 = (b.end.ops.len() - 2) as nat;
    assert forall|j: int| 0 <= j < k1 implies #[trigger] ops[j] != OpV::Switch(yes) && ops[j] != OpV::Switch(no)
        && ops[j] != OpV::Switch(merge) by {
        if j < p {
            assert(block_named(ops[j]) != Some(yes));
            assert(block_named(ops[j]) != Some(no));
            assert(block_named(ops[j]) != Some(merge));
        } else if j == p || j == p + 1 || j == p + 2 {
        } else if wants && j == p + 3 {
            assert(is_param_of(ops[p as int + 3], merge));
        } else {
            assert(j == b.first.ops.len() - 3);
        }
    }
    assert forall|j: int| k1 < j < k2 implies #[trigger] ops[j] != OpV::Switch(no) && ops[j] != OpV::Switch(merge) by {
        if j == b.first.ops.len() - 1 {
        } else if j < b.first_end.ops.len() {
            assert(block_named(ops[j]) matches Some(k) ==> k >= b.first.ops.len());
        } else {
            assert(j == b.first_end.ops.len());
        }
    }
    assert forall|j: int| k2 < j < k3 implies #[trigger] ops[j] != OpV::Switch(merge) by {
        if j == b.second.ops.len() - 1 {
        } else if j < b.second_end.ops.len() {
            assert(block_named(ops[j]) matches Some(k) ==> k >= b.second.ops.len());
        } else {
            assert(j == b.second_end.ops.len());
        }
    }
    entry_is(ops, yes, 0, k1);
    entry_is(ops, no, 0, k2);
    entry_is(ops, merge, 0, k3);
}

/// From where a branch divides a run gets to the side that the condition
/// chooses, with nothing else changed.
#[verifier::spinoff_prover]
proof fn dividing(ops: Seq<OpV>, b: Branches, wants: bool, m: Machine) -> (m2: Machine)
    requires
        laid_out(ops, b, wants),
        m.at == b.asked.ops.len(),
        m.made.contains_key(b.cond),
    ensures
        reaches(ops, m, m2),
        m2 == (Machine {
            at: if m.made[b.cond].bits != 0 {
                b.first.ops.len()
            } else {
                b.second.ops.len()
            },
            ..m
        }),
{
    let p = b.asked.ops.len();
    entries_are(ops, b, wants);
    let m1 = going_on(m);
    one_step(ops, m);
    let m2 = going_on(m1);
    one_step(ops, m1);
    let m3 = going_on(m2);
    one_step(ops, m2);
    reaching_on(ops, m, m1, m2);
    reaching_on(ops, m, m2, m3);
    let m4 = if wants {
        one_step(ops, m3);
        reaching_on(ops, m, m3, going_on(m3));
        going_on(m3)
    } else {
        m3
    };
    let m5 = stepping(ops, m4)->0;
    one_step(ops, m4);
    reaching_on(ops, m, m4, m5);
    one_step(ops, m5);
    let m6 = going_on(m5);
    reaching_on(ops, m, m5, m6);
    m6
}

/// From the end of a side a run gets to where the sides meet, with the side's
/// value where one is wanted.
#[verifier::spinoff_prover]
proof fn meeting(ops: Seq<OpV>, b: Branches, wants: bool, m: Machine, first: bool) -> (m2: Machine)
    requires
        laid_out(ops, b, wants),
        m.at == if first {
            b.first_end.ops.len()
        } else {
            b.second_end.ops.len()
        },
        wants ==> m.made.contains_key(
            if first {
                b.first_value->0
            } else {
                b.second_value->0
            },
        ),
    ensures
        reaches(ops, m, m2),
        m2.at == b.end.ops.len(),
        m2.held == m.held,
        m2.made == if wants {
            m.made.insert(
                (b.asked.ops.len() + 3) as usize,
                m.made[if first {
                    b.first_value->0
                } else {
                    b.second_value->0
                }],
            )
        } else {
            m.made
        },
{
    let p = b.asked.ops.len();
    let merge = (p + 2) as usize;
    entries_are(ops, b, wants);
    let x = if first {
        b.first_value->0
    } else {
        b.second_value->0
    };
    let args: Seq<usize> = if wants {
        seq![x]
    } else {
        seq![]
    };
    let vs = Seq::new(args.len(), |i: int| m.made[args[i]]);
    assert(ops[m.at as int] == OpV::Jump(merge, args));
    assert(all_made_before(m, args));
    if wants {
        assert(vs =~= seq![m.made[x]]);
        old_blocks_are_others(ops, b.asked, merge);
        assert forall|j: int| 0 <= j < p + 3 implies !is_param_of(#[trigger] ops[j], merge) by {
            if j < p {
                assert(block_named(ops[j]) != Some(merge));
            } else {
                assert(j == p || j == p + 1 || j == p + 2);
            }
        }
        given_is(ops, m.made, merge, m.made[x], 0, p + 3);
    } else {
        assert(vs =~= seq![]);
    }
    let m1 = stepping(ops, m)->0;
    one_step(ops, m);
    one_step(ops, m1);
    let m2 = going_on(m1);
    reaching_on(ops, m, m1, m2);
    m2
}

// ---- single operations ----

proof fn readings_are_in_type(t: IntTy, v: Word)
    requires
        is_word(v),
        v.width == room_of(t),
    ensures
        in_type(t, reading(t, v)),
        pattern(v.width, reading(t, v)) == v.bits,
        signed_value(v.width, reading(t, v)) == signed_value(v.width, v.bits),
{
    patterns_are_patterns(v.width, v.bits);
    patterns_are_patterns(v.width, reading(t, v));
}

#[verifier::spinoff_prover]
proof fn operator_runs(ops: Seq<OpV>, g: Gen, m: Machine, op: HirBinOp, t: IntTy, l: usize, r: usize, w: Word)
    requires
        operation(g, op, l, r, TyV::Int(t)) is Ok,
        begins(operation(g, op, l, r, TyV::Int(t))->Ok_0, ops),
        m.at == g.ops.len(),
        m.made.contains_key(l),
        m.made.contains_key(r),
        is_word(m.made[l]),
        is_word(m.made[r]),
        applied(op, t, m.made[l], m.made[r]) == Some(w),
    ensures
        operation(g, op, l, r, TyV::Int(t))->Ok_0.ops.len() == g.ops.len() + 1,
        reaches(ops, m, with_word(m, w)),
        is_word(w),
{
    let g1 = operation(g, op, l, r, TyV::Int(t))->Ok_0;
    let (a, b) = (m.made[l], m.made[r]);
    let (x, y) = (reading(t, a), reading(t, b));
    let room = room_of(t);
    readings_are_in_type(t, a);
    readings_are_in_type(t, b);
    signed_types_hold_negative_integers(t);
    if compares(op) {
        conditions_mean_comparisons(op, t, x, y);
        let c = int_cond(op, int_signed(t))->0;
        assert(int_op(op, int_signed(t)) is None);
        assert(g1 == put(g, OpV::Compare(c, l, r)));
        assert(ops[g.ops.len() as int] == g1.ops[g.ops.len() as int]);
        assert(holds_of(c, room, a.bits, b.bits) == holds_of(c, room, x, y));
        assert(w == word_of(Width::I8, truth(holds_of(c, room, a.bits, b.bits))));
        words_are_words(Width::I8, truth(holds_of(c, room, x, y)));
    } else {
        operations_mean_operators(op, t, x, y);
        let o = int_op(op, int_signed(t))->0;
        assert(g1 == put(g, OpV::Arith(o, l, r)));
        assert(ops[g.ops.len() as int] == g1.ops[g.ops.len() as int]);
        let n = means(op, room, x, y)->0;
        assert(computes(o, room, a.bits, b.bits) == Some(pattern(room, n)));
        patterns_are_patterns(room, n);
        words_are_words(room, n);
    }
    one_step(ops, m);
}

#[verifier::spinoff_prover]
proof fn conversion_runs(ops: Seq<OpV>, g: Gen, m: Machine, v: usize, from: IntTy, to: IntTy) -> (m2: Machine)
    requires
        converted(g, v, TyV::Int(from), TyV::Int(to)) is Ok,
        begins(converted(g, v, TyV::Int(from), TyV::Int(to))->Ok_0.0, ops),
        m.at == g.ops.len(),
        m.made.contains_key(v),
        is_word(m.made[v]),
        m.made[v].width == room_of(from),
    ensures
        ({
            let (g1, r) = converted(g, v, TyV::Int(from), TyV::Int(to))->Ok_0;
            let w = word_of(room_of(to), reading(from, m.made[v]));
            &&& reaches(ops, m, m2)
            &&& m2.at == g1.ops.len()
            &&& m2.held == m.held
            &&& keeps_made(m, m2, g.ops.len())
            &&& m2.made.contains_key(r)
            &&& m2.made[r] == w
            &&& is_word(w)
        }),
{
    let (g1, r) = converted(g, v, TyV::Int(from), TyV::Int(to))->Ok_0;
    let a = m.made[v];
    let w = word_of(room_of(to), reading(from, a));
    readings_are_in_type(from, a);
    signed_types_hold_negative_integers(from);
    signed_types_hold_negative_integers(to);
    words_are_words(room_of(to), reading(from, a));
    patterns_are_patterns(room_of(to), reading(from, a));
    patterns_are_patterns(room_of(from), a.bits);
    if g1 == g {
        no_step(ops, m);
        assert(room_of(to) == room_of(from));
        m
    } else {
        let op = g1.ops.last();
        assert(g1 == put(g, op));
        assert(ops[g.ops.len() as int] == g1.ops[g.ops.len() as int]);
        if width_bytes(room_of(to)) < width_bytes(room_of(from)) {
            truncating(room_of(from), room_of(to), a.bits);
        }
        one_step(ops, m);
        with_word(m, w)
    }
}

/// How many times the values of one width the values of a larger one are.
spec fn ratio(from: Width, to: Width) -> int {
    match (from, to) {
        (Width::I16, Width::I8) => 0x100,
        (Width::I32, Width::I8) => 0x100_0000,
        (Width::I32, Width::I16) => 0x1_0000,
        (Width::I64, Width::I8) => 0x100_0000_0000_0000,
        (Width::I64, Width::I16) => 0x1_0000_0000_0000,
        (Width::I64, Width::I32) => 0x1_0000_0000,
        _ => 1,
    }
}

/// The low bits of an integer are those of its bits.
proof fn truncating(from: Width, to: Width, n: int)
    requires
        is_whole(from),
        is_whole(to),
        span_of(to) <= span_of(from),
    ensures
        pattern(to, pattern(from, n)) == pattern(to, n),
        pattern(to, signed_value(from, n)) == pattern(to, n),
{
    let (a, b) = (span_of(from), span_of(to));
    let m = ratio(from, to);
    assert(a == b * m) by {
        match (from, to) {
            (Width::I8, Width::I8) => {},
            (Width::I16, Width::I8) => {},
            (Width::I16, Width::I16) => {},
            (Width::I32, Width::I8) => {},
            (Width::I32, Width::I16) => {},
            (Width::I32, Width::I32) => {},
            (Width::I64, Width::I8) => {},
            (Width::I64, Width::I16) => {},
            (Width::I64, Width::I32) => {},
            (Width::I64, Width::I64) => {},
            _ => {},
        }
    }
    vstd::arithmetic::div_mod::lemma_fundamental_div_mod(n, a);
    let q = n / a;
    assert(a * q == b * (m * q)) by (nonlinear_arith)
        requires
            a == b * m,
    ;
    vstd::arithmetic::div_mod::lemma_mod_multiples_vanish(m * q, n % a, b);
    vstd::arithmetic::div_mod::lemma_mod_multiples_vanish(-m, pattern(from, n), b);
    assert(b * (-m) == -a) by (nonlinear_arith)
        requires
            a == b * m,
    ;
}

// ---- expressions ----

/// Where a run ends that starts before an expression's code.
pub open spec fn does(env: Env, g: Gen, e: HirExpr, ops: Seq<OpV>, m: Machine, st: Store, rounds: nat, m2: Machine) -> bool {
    let (g1, r) = made(env, g, e)->Ok_0;
    let (st2, v) = means_expr(st, e, rounds)->0;
    stands_after(ops, g, m, g1, m2, st2, r, v)
}

/// An expression with a meaning whose code stands in a program that is run.
pub open spec fn can_run(env: Env, g: Gen, e: HirExpr, ops: Seq<OpV>, m: Machine, st: Store, rounds: nat) -> bool {
    &&& is_plain(e)
    &&& made(env, g, e) is Ok
    &&& begins(made(env, g, e)->Ok_0.0, ops)
    &&& stands_before(ops, g, m, st)
    &&& means_expr(st, e, rounds) is Some
}

pub(crate) proof fn keeping_on(a: Machine, b: Machine, c: Machine, n: nat, k: nat)
    requires
        keeps_made(a, b, n),
        keeps_made(b, c, k),
        n <= k,
    ensures
        keeps_made(a, c, n),
{
    assert forall|i: usize| i < n && a.made.contains_key(i) implies #[trigger] c.made.contains_key(i) && c.made[i]
        == a.made[i] by {
        assert(b.made.contains_key(i) && b.made[i] == a.made[i]);
    }
}

/// The same run seen from further on.
pub(crate) proof fn standing_on(ops: Seq<OpV>, g: Gen, g1: Gen, m: Machine, st: Store)
    requires
        adds(g, g1),
        blocks_inside(g),
        !g1.filled,
        m.at == g1.ops.len(),
        agrees_with(g1.vars, m.held, st),
    ensures
        stands_before(ops, g1, m, st),
{
    blocks_stay_inside(g, g1);
}

#[verifier::spinoff_prover]
pub(crate) proof fn expr_runs(env: Env, g: Gen, e: HirExpr, ops: Seq<OpV>, m: Machine, st: Store, rounds: nat) -> (m2: Machine)
    requires
        can_run(env, g, e, ops, m, st, rounds),
    ensures
        does(env, g, e, ops, m, st, rounds, m2),
    decreases rounds, e, 3nat,
{
    match e.kind {
        HirExprKind::Lit(_) | HirExprKind::Local(_) => leaf_runs(env, g, e, ops, m, st, rounds),
        HirExprKind::Unary { .. } => unary_runs(env, g, e, ops, m, st, rounds),
        HirExprKind::Binary { .. } => binary_runs(env, g, e, ops, m, st, rounds),
        HirExprKind::Cast { .. } => cast_runs(env, g, e, ops, m, st, rounds),
        HirExprKind::Assign { .. } => assign_runs(env, g, e, ops, m, st, rounds),
        HirExprKind::Logical { .. } => logical_runs(env, g, e, ops, m, st, rounds),
        HirExprKind::If { .. } => if_runs(env, g, e, ops, m, st, rounds),
        HirExprKind::Block(b) => block_runs(env, g, b, ops, m, st, rounds),
        HirExprKind::While { .. } => while_runs(env, g, e, ops, m, st, rounds),
        _ => m,
    }
}

#[verifier::spinoff_prover]
proof fn leaf_runs(env: Env, g: Gen, e: HirExpr, ops: Seq<OpV>, m: Machine, st: Store, rounds: nat) -> (m2: Machine)
    requires
        can_run(env, g, e, ops, m, st, rounds),
        e.kind is Lit || e.kind is Local,
    ensures
        does(env, g, e, ops, m, st, rounds, m2),
{
    let (g1, r) = made(env, g, e)->Ok_0;
    let w = (means_expr(st, e, rounds)->0).1->0;
    let op = g1.ops.last();
    assert(g1 == put(g, op));
    assert(ops[g.ops.len() as int] == g1.ops[g.ops.len() as int]);
    match e.kind {
        HirExprKind::Lit(HirLit::Int(v, t)) => {
            signed_types_hold_negative_integers(t);
            words_are_words(room_of(t), v as int);
        },
        HirExprKind::Lit(HirLit::Bool(b)) => words_are_words(Width::I8, truth(b)),
        HirExprKind::Lit(HirLit::Char(c)) => words_are_words(Width::I32, c as int),
        HirExprKind::Local(s) => {
            assert(st.contains_key(s));
        },
        _ => {},
    }
    one_step(ops, m);
    with_word(m, w)
}

/// Runs an operand: where it leaves the run, and its value.
#[verifier::spinoff_prover]
pub(crate) proof fn operand_runs(
    env: Env,
    g: Gen,
    e: HirExpr,
    msg: Seq<char>,
    ops: Seq<OpV>,
    m: Machine,
    st: Store,
    rounds: nat,
    g1: Gen,
    x: usize,
    w: Word,
) -> (m2: Machine)
    requires
        is_plain(e),
        value_made(env, g, e, msg) == Ok::<(Gen, usize), Seq<char>>((g1, x)),
        begins(g1, ops),
        stands_before(ops, g, m, st),
        means_expr(st, e, rounds) matches Some((_, Some(v))) && v == w,
    ensures
        stands_after(ops, g, m, g1, m2, (means_expr(st, e, rounds)->0).0, Some(x), Some(w)),
        stands_before(ops, g1, m2, (means_expr(st, e, rounds)->0).0),
        adds(g, g1),
        x < g1.ops.len(),
    decreases rounds, e, 4nat,
{
    plain_adds(env, g, e);
    let m2 = expr_runs(env, g, e, ops, m, st, rounds);
    standing_on(ops, g, g1, m2, (means_expr(st, e, rounds)->0).0);
    m2
}

#[verifier::spinoff_prover]
#[verifier::rlimit(40)]
proof fn unary_runs(env: Env, g: Gen, e: HirExpr, ops: Seq<OpV>, m: Machine, st: Store, rounds: nat) -> (m2: Machine)
    requires
        can_run(env, g, e, ops, m, st, rounds),
        e.kind is Unary,
    ensures
        does(env, g, e, ops, m, st, rounds, m2),
    decreases rounds, e, 2nat,
{
    match e.kind {
        HirExprKind::Unary { op, expr } => {
            let msg = "unary operand produced no value"@;
            let (g1, x) = value_made(env, g, *expr, msg)->Ok_0;
            let (st1, v) = means_expr(st, *expr, rounds)->0;
            let a = v->0;
            let g2 = unary(g1, op, x, e.ty@)->Ok_0;
            assert(begins(g1, ops)) by {
                assert forall|i: int| 0 <= i < g1.ops.len() implies #[trigger] ops[i] == g1.ops[i] by {
                    assert(g2.ops[i] == g1.ops[i]);
                }
            }
            let m1 = operand_runs(env, g, *expr, msg, ops, m, st, rounds, g1, x, a);
            let w = applied_unary(op, a)->0;
            let n = g1.ops.len();
            assert(ops[n as int] == g2.ops[n as int]);
            match op {
                HirUnOp::Not => {
                    assert(ops[n as int + 1] == g2.ops[n as int + 1]);
                    let one = word_of(Width::I8, 1);
                    words_are_words(Width::I8, 1);
                    words_are_words(Width::I8, 0);
                    let m2 = with_word(m1, one);
                    one_step(ops, m1);
                    xor_with_one();
                    let m3 = with_word(m2, w);
                    one_step(ops, m2);
                    reaching_on(ops, m, m1, m2);
                    reaching_on(ops, m, m2, m3);
                    assert(keeps_made(m1, m2, n));
                    assert(keeps_made(m2, m3, n));
                    keeping_on(m, m1, m2, g.ops.len(), n);
                    keeping_on(m, m2, m3, g.ops.len(), n);
                    m3
                },
                _ => {
                    words_are_words(a.width, -a.bits);
                    words_are_words(a.width, -a.bits - 1);
                    let m2 = with_word(m1, w);
                    one_step(ops, m1);
                    reaching_on(ops, m, m1, m2);
                    assert(keeps_made(m1, m2, n));
                    keeping_on(m, m1, m2, g.ops.len(), n);
                    m2
                },
            }
        },
        _ => m,
    }
}

proof fn xor_with_one()
    ensures
        computes(Arith::Xor, Width::I8, 0, 1) == Some(1int),
        computes(Arith::Xor, Width::I8, 1, 1) == Some(0int),
        pattern(Width::I8, 1) == 1,
        pattern(Width::I8, 0) == 0,
{
    assert(0u64 ^ 1u64 == 1u64) by (bit_vector);
    assert(1u64 ^ 1u64 == 0u64) by (bit_vector);
}

#[verifier::spinoff_prover]
#[verifier::rlimit(40)]
proof fn binary_runs(env: Env, g: Gen, e: HirExpr, ops: Seq<OpV>, m: Machine, st: Store, rounds: nat) -> (m2: Machine)
    requires
        can_run(env, g, e, ops, m, st, rounds),
        e.kind is Binary,
    ensures
        does(env, g, e, ops, m, st, rounds, m2),
    decreases rounds, e, 2nat,
{
    match e.kind {
        HirExprKind::Binary { op, lhs, rhs } => {
            let t = lhs.ty@->Int_0;
            let (g1, x) = value_made(env, g, *lhs, "lhs produced no value"@)->Ok_0;
            let (g2, y) = value_made(env, g1, *rhs, "rhs produced no value"@)->Ok_0;
            let (st1, a) = means_expr(st, *lhs, rounds)->0;
            let (st2, b) = means_expr(st1, *rhs, rounds)->0;
            assert(compares(op) <==> int_cond(op, true) is Some);
            let g3 = operation(g2, op, x, y, TyV::Int(t))->Ok_0;
            value_of_goes_on(env, g, *lhs, "lhs produced no value"@);
            value_of_goes_on(env, g1, *rhs, "rhs produced no value"@);
            assert(begins(g2, ops)) by {
                assert forall|i: int| 0 <= i < g2.ops.len() implies #[trigger] ops[i] == g2.ops[i] by {
                    assert(g3.ops[i] == g2.ops[i]);
                }
            }
            assert(begins(g1, ops)) by {
                assert forall|i: int| 0 <= i < g1.ops.len() implies #[trigger] ops[i] == g1.ops[i] by {
                    assert(g2.ops[i] == g1.ops[i]);
                }
            }
            assert(made(env, g, e) == Ok::<(Gen, Option<usize>), Seq<char>>((g3, Some(last_op(g3)))));
            let m1 = operand_runs(env, g, *lhs, "lhs produced no value"@, ops, m, st, rounds, g1, x, a->0);
            let m2 = operand_runs(env, g1, *rhs, "rhs produced no value"@, ops, m1, st1, rounds, g2, y, b->0);
            assert(m2.made.contains_key(x) && m2.made[x] == a->0);
            let w = applied(op, t, a->0, b->0)->0;
            operator_runs(ops, g2, m2, op, t, x, y, w);
            let m3 = with_word(m2, w);
            reaching_on(ops, m, m1, m2);
            reaching_on(ops, m, m2, m3);
            keeping_on(m, m1, m2, g.ops.len(), g1.ops.len());
            assert(keeps_made(m2, m3, g2.ops.len()));
            keeping_on(m, m2, m3, g.ops.len(), g2.ops.len());
            m3
        },
        _ => m,
    }
}

#[verifier::spinoff_prover]
proof fn cast_runs(env: Env, g: Gen, e: HirExpr, ops: Seq<OpV>, m: Machine, st: Store, rounds: nat) -> (m2: Machine)
    requires
        can_run(env, g, e, ops, m, st, rounds),
        e.kind is Cast,
    ensures
        does(env, g, e, ops, m, st, rounds, m2),
    decreases rounds, e, 2nat,
{
    match e.kind {
        HirExprKind::Cast { expr } => {
            let msg = "cast operand produced no value"@;
            let (g1, x) = value_made(env, g, *expr, msg)->Ok_0;
            let (st1, a) = means_expr(st, *expr, rounds)->0;
            let (from, to) = (expr.ty@->Int_0, e.ty@->Int_0);
            let (g2, r) = converted(g1, x, TyV::Int(from), TyV::Int(to))->Ok_0;
            assert(begins(g1, ops)) by {
                assert forall|i: int| 0 <= i < g1.ops.len() implies #[trigger] ops[i] == g1.ops[i] by {
                    assert(g2.ops[i] == g1.ops[i]);
                }
            }
            let m1 = operand_runs(env, g, *expr, msg, ops, m, st, rounds, g1, x, a->0);
            let m2 = conversion_runs(ops, g1, m1, x, from, to);
            reaching_on(ops, m, m1, m2);
            keeping_on(m, m1, m2, g.ops.len(), g1.ops.len());
            m2
        },
        _ => m,
    }
}

#[verifier::spinoff_prover]
proof fn assign_runs(env: Env, g: Gen, e: HirExpr, ops: Seq<OpV>, m: Machine, st: Store, rounds: nat) -> (m2: Machine)
    requires
        can_run(env, g, e, ops, m, st, rounds),
        e.kind is Assign,
    ensures
        does(env, g, e, ops, m, st, rounds, m2),
    decreases rounds, e, 2nat,
{
    match e.kind {
        HirExprKind::Assign { lhs, rhs } => {
            let msg = "assignment rhs produced no value"@;
            assert(made(env, g, e) == made_assign(env, g, e));
            let (g1, v) = value_made(env, g, *rhs, msg)->Ok_0;
            let (st1, a) = means_expr(st, *rhs, rounds)->0;
            let x = lookup(g1.vars, lhs)->0;
            let g2 = put(g1, OpV::Assign(x, v));
            assert(begins(g1, ops)) by {
                assert forall|i: int| 0 <= i < g1.ops.len() implies #[trigger] ops[i] == g1.ops[i] by {
                    assert(g2.ops[i] == g1.ops[i]);
                }
            }
            let m1 = operand_runs(env, g, *rhs, msg, ops, m, st, rounds, g1, v, a->0);
            assert(ops[g1.ops.len() as int] == g2.ops[g1.ops.len() as int]);
            let m2 = Machine { at: m1.at + 1, held: m1.held.insert(x, a->0), ..m1 };
            one_step(ops, m1);
            reaching_on(ops, m, m1, m2);
            let st2 = st1.insert(lhs, a->0);
            assert(agrees_with(g2.vars, m2.held, st2)) by {
                assert forall|s: SymbolId| #[trigger] st2.contains_key(s) implies g2.vars.contains_key(s)
                    && m2.held.contains_key(g2.vars[s]) && m2.held[g2.vars[s]] == st2[s] && is_word(st2[s]) by {
                    assert(st1.contains_key(s));
                    assert(st1.contains_key(lhs));
                }
                assert forall|s: SymbolId, t: SymbolId| #[trigger]
                    st2.contains_key(s) && #[trigger] st2.contains_key(t) && s != t implies g2.vars[s] != g2.vars[t] by {
                    assert(st1.contains_key(s) && st1.contains_key(t));
                }
            }
            m2
        },
        _ => m,
    }
}

/// Runs a block: where it leaves the run.
#[verifier::spinoff_prover]
pub(crate) proof fn block_runs(env: Env, g: Gen, b: HirBlock, ops: Seq<OpV>, m: Machine, st: Store, rounds: nat) -> (m2: Machine)
    requires
        is_plain_block(b),
        made_block(env, g, b) is Ok,
        begins(made_block(env, g, b)->Ok_0.0, ops),
        stands_before(ops, g, m, st),
        means_block(st, b, rounds) is Some,
    ensures
        ({
            let (g1, r) = made_block(env, g, b)->Ok_0;
            let (st2, v) = means_block(st, b, rounds)->0;
            stands_after(ops, g, m, g1, m2, st2, r, v)
        }),
    decreases rounds, b, 2nat,
{
    block_adds(env, g, b);
    stmts_run(env, g, b.stmts@, b.stmts@.len(), ops, m, st, rounds)
}

#[verifier::spinoff_prover]
#[verifier::rlimit(40)]
proof fn stmts_run(env: Env, g: Gen, ss: Seq<HirStmt>, k: nat, ops: Seq<OpV>, m: Machine, st: Store, rounds: nat) -> (m2: Machine)
    requires
        k <= ss.len(),
        are_plain(ss, k),
        stmts_made(env, g, ss, k) is Ok,
        begins(stmts_made(env, g, ss, k)->Ok_0.0, ops),
        stands_before(ops, g, m, st),
        means_stmts(st, ss, k, rounds) is Some,
    ensures
        ({
            let (g1, r, _) = stmts_made(env, g, ss, k)->Ok_0;
            let (st2, v) = means_stmts(st, ss, k, rounds)->0;
            stands_after(ops, g, m, g1, m2, st2, r, v)
        }),
    decreases rounds, ss, k,
{
    if k == 0 {
        no_step(ops, m);
        m
    } else {
        let (g1, _, stopped) = stmts_made(env, g, ss, (k - 1) as nat)->Ok_0;
        stmts_add(env, g, ss, (k - 1) as nat);
        match ss[k - 1] {
            HirStmt::Expr(x, semi) => {
                let st1 = (means_stmts(st, ss, (k - 1) as nat, rounds)->0).0;
                stmt_is_last(env, g, ss, k, ops, x);
                let m1 = stmts_run(env, g, ss, (k - 1) as nat, ops, m, st, rounds);
                standing_on(ops, g, g1, m1, st1);
                let m2 = expr_runs(env, g1, x, ops, m1, st1, rounds);
                reaching_on(ops, m, m1, m2);
                keeping_on(m, m1, m2, g.ops.len(), g1.ops.len());
                let (st2, v) = means_expr(st1, x, rounds)->0;
                let (g2, r) = made(env, g1, x)->Ok_0;
                assert(means_stmts(st, ss, k, rounds) == Some(
                    (
                        st2,
                        if semi {
                            None
                        } else {
                            v
                        },
                    ),
                ));
                assert(stands_after(ops, g1, m1, g2, m2, st2, r, v));
                m2
            },
            HirStmt::Let(_) => m,
        }
    }
}

/// The code of statements ends with that of the last.
#[verifier::spinoff_prover]
proof fn stmt_is_last(env: Env, g: Gen, ss: Seq<HirStmt>, k: nat, ops: Seq<OpV>, x: HirExpr)
    requires
        0 < k <= ss.len(),
        are_plain(ss, k),
        !g.filled,
        stmts_made(env, g, ss, k) is Ok,
        begins(stmts_made(env, g, ss, k)->Ok_0.0, ops),
        ss[k - 1] matches HirStmt::Expr(y, _) && y == x,
    ensures
        ({
            let g1 = stmts_made(env, g, ss, (k - 1) as nat)->Ok_0.0;
            &&& stmts_made(env, g, ss, (k - 1) as nat) is Ok
            &&& adds(g, g1) && !g1.filled
            &&& begins(g1, ops)
            &&& made(env, g1, x) is Ok
            &&& made(env, g1, x)->Ok_0.0 == stmts_made(env, g, ss, k)->Ok_0.0
            &&& ss[k - 1] == HirStmt::Expr(x, false) ==> made(env, g1, x)->Ok_0.1 == stmts_made(env, g, ss, k)->Ok_0.1
            &&& is_plain(x)
        }),
{
    stmts_add(env, g, ss, (k - 1) as nat);
    let (g1, _, stopped) = stmts_made(env, g, ss, (k - 1) as nat)->Ok_0;
    let g2 = stmts_made(env, g, ss, k)->Ok_0.0;
    expr_goes_on(env, g1, x);
    assert(!stopped ==> stmt_made(env, g1, ss[k - 1]) is Ok);
    assert(g1.ops.len() <= g2.ops.len());
    assert forall|i: int| 0 <= i < g1.ops.len() implies #[trigger] ops[i] == g1.ops[i] by {
        assert(g2.ops[i] == g1.ops[i]);
    }
}

#[verifier::spinoff_prover]
#[verifier::rlimit(40)]
proof fn if_is_laid_out(env: Env, g: Gen, e: HirExpr, ops: Seq<OpV>)
    requires
        is_plain(e),
        e.kind is If,
        !g.filled,
        blocks_inside(g),
        made(env, g, e) is Ok,
        begins(made(env, g, e)->Ok_0.0, ops),
    ensures
        branches(env, g, e) is Some,
        laid_out(ops, branches(env, g, e)->0, has_value(e.ty@)),
        has_value(e.ty@) ==> made(env, g, e)->Ok_0.1 == Some(((branches(env, g, e)->0).asked.ops.len() + 3) as usize),
        begins(branches(env, g, e)->0.first_end, ops),
        begins(branches(env, g, e)->0.second_end, ops),
{
    branches_are_laid_out(env, g, e);
    if_adds(env, g, e);
    let b = branches(env, g, e)->0;
    let g1 = made(env, g, e)->Ok_0.0;
    let p = b.asked.ops.len();
    let wants = has_value(e.ty@);
    blocks_stay_inside(g, b.asked);
    let merge = (p + 2) as usize;
    assert(g1 == into_block(b.second_out, merge));
    assert(b.second_out == put(b.second_end, b.second_out.ops.last()));
    assert(b.second == into_block(b.first_out, (p + 1) as usize));
    assert(b.first_out == put(b.first_end, b.first_out.ops.last()));
    assert forall|i: int| 0 <= i < b.second_end.ops.len() implies #[trigger] ops[i] == b.second_end.ops[i] by {
        assert(g1.ops[i] == b.second_end.ops[i]);
    }
    assert forall|i: int| 0 <= i < b.second.ops.len() implies #[trigger] ops[i] == b.second.ops[i] by {
        assert(b.second_end.ops[i] == b.second.ops[i]);
    }
    assert forall|i: int| 0 <= i < b.first_end.ops.len() implies #[trigger] ops[i] == b.first_end.ops[i] by {
        assert(b.second.ops[i] == b.first_end.ops[i]);
    }
    assert forall|i: int| 0 <= i < b.first.ops.len() implies #[trigger] ops[i] == b.first.ops[i] by {
        assert(b.first_end.ops[i] == b.first.ops[i]);
    }
    assert forall|i: int| 0 <= i < p implies #[trigger] ops[i] == b.asked.ops[i] by {
        assert(b.first.ops[i] == b.asked.ops[i]);
    }
    let n = b.first.ops.len();
    assert(ops[p as int] == b.first.ops[p as int]);
    assert(ops[p as int + 1] == b.first.ops[p as int + 1]);
    assert(ops[p as int + 2] == b.first.ops[p as int + 2]);
    assert(ops[p as int + 3] == b.first.ops[p as int + 3]);
    assert(ops[n - 3] == b.first.ops[n - 3] && ops[n - 2] == b.first.ops[n - 2] && ops[n - 1] == b.first.ops[n - 1]);
    let k = b.first_end.ops.len();
    assert(ops[k as int] == b.second.ops[k as int]);
    assert(ops[k as int + 1] == b.second.ops[k as int + 1] && ops[k as int + 2] == b.second.ops[k as int + 2]);
    let q = b.second_end.ops.len();
    assert(ops[q as int] == g1.ops[q as int]);
    assert(ops[q as int + 1] == g1.ops[q as int + 1] && ops[q as int + 2] == g1.ops[q as int + 2]);
    assert forall|i: int| n <= i < k implies (block_named(#[trigger] ops[i]) matches Some(x) ==> x >= n) by {
        assert(ops[i] == b.first_end.ops[i]);
    }
    assert forall|i: int| b.second.ops.len() <= i < q implies (block_named(#[trigger] ops[i]) matches Some(x) ==> x
        >= b.second.ops.len()) by {
        assert(ops[i] == b.second_end.ops[i]);
    }
}

#[verifier::spinoff_prover]
proof fn if_runs(env: Env, g: Gen, e: HirExpr, ops: Seq<OpV>, m: Machine, st: Store, rounds: nat) -> (m2: Machine)
    requires
        can_run(env, g, e, ops, m, st, rounds),
        e.kind is If,
    ensures
        does(env, g, e, ops, m, st, rounds, m2),
    decreases rounds, e, 2nat,
{
    match e.kind {
        HirExprKind::If { cond, then_b, else_b } => {
            let msg = "if condition produced no value"@;
            let b = branches(env, g, e)->0;
            let wants = has_value(e.ty@);
            if_is_laid_out(env, g, e, ops);
            if_adds(env, g, e);
            branches_are_laid_out(env, g, e);
            let (st1, c) = means_expr(st, *cond, rounds)->0;
            let m1 = operand_runs(env, g, *cond, msg, ops, m, st, rounds, b.asked, b.cond, c->0);
            let m2 = dividing(ops, b, wants, m1);
            reaching_on(ops, m, m1, m2);
            let p = b.asked.ops.len();
            if c->0.bits != 0 {
                standing_on(ops, g, b.first, m2, st1);
                let m3 = block_runs(env, b.first, then_b, ops, m2, st1, rounds);
                let m4 = meeting(ops, b, wants, m3, true);
                reaching_on(ops, m, m2, m3);
                reaching_on(ops, m, m3, m4);
                keeping_on(m, m2, m3, g.ops.len(), b.first.ops.len());
                keeping_on(m, m3, m4, g.ops.len(), p);
                m4
            } else {
                standing_on(ops, g, b.second, m2, st1);
                let m3 = match else_b {
                    Some(x) => expr_runs(env, b.second, *x, ops, m2, st1, rounds),
                    None => {
                        no_step(ops, m2);
                        m2
                    },
                };
                let m4 = meeting(ops, b, wants, m3, false);
                reaching_on(ops, m, m2, m3);
                reaching_on(ops, m, m3, m4);
                keeping_on(m, m2, m3, g.ops.len(), b.second.ops.len());
                keeping_on(m, m3, m4, g.ops.len(), p);
                m4
            }
        },
        _ => m,
    }
}

#[verifier::spinoff_prover]
#[verifier::rlimit(40)]
proof fn logical_is_laid_out(env: Env, g: Gen, e: HirExpr, ops: Seq<OpV>)
    requires
        is_plain(e),
        e.kind is Logical,
        !g.filled,
        blocks_inside(g),
        made(env, g, e) is Ok,
        begins(made(env, g, e)->Ok_0.0, ops),
    ensures
        sides(env, g, e) is Some,
        laid_out(ops, sides(env, g, e)->0, true),
        begins(sides(env, g, e)->0.first_end, ops),
        begins(sides(env, g, e)->0.second_end, ops),
{
    sides_are_laid_out(env, g, e);
    logical_adds(env, g, e);
    let b = sides(env, g, e)->0;
    let g1 = made(env, g, e)->Ok_0.0;
    let p = b.asked.ops.len();
    blocks_stay_inside(g, b.asked);
    let merge = (p + 2) as usize;
    assert(g1 == into_block(b.second_out, merge));
    assert(b.second_out == put(b.second_end, b.second_out.ops.last()));
    assert(b.second == into_block(b.first_out, (p + 1) as usize));
    assert(b.first_out == put(b.first_end, b.first_out.ops.last()));
    assert forall|i: int| 0 <= i < b.second_end.ops.len() implies #[trigger] ops[i] == b.second_end.ops[i] by {
        assert(g1.ops[i] == b.second_end.ops[i]);
    }
    assert forall|i: int| 0 <= i < b.second.ops.len() implies #[trigger] ops[i] == b.second.ops[i] by {
        assert(b.second_end.ops[i] == b.second.ops[i]);
    }
    assert forall|i: int| 0 <= i < b.first_end.ops.len() implies #[trigger] ops[i] == b.first_end.ops[i] by {
        assert(b.second.ops[i] == b.first_end.ops[i]);
    }
    assert forall|i: int| 0 <= i < b.first.ops.len() implies #[trigger] ops[i] == b.first.ops[i] by {
        assert(b.first_end.ops[i] == b.first.ops[i]);
    }
    assert forall|i: int| 0 <= i < p implies #[trigger] ops[i] == b.asked.ops[i] by {
        assert(b.first.ops[i] == b.asked.ops[i]);
    }
    let n = b.first.ops.len();
    assert(ops[p as int] == b.first.ops[p as int]);
    assert(ops[p as int + 1] == b.first.ops[p as int + 1]);
    assert(ops[p as int + 2] == b.first.ops[p as int + 2]);
    assert(ops[p as int + 3] == b.first.ops[p as int + 3]);
    assert(ops[n - 3] == b.first.ops[n - 3] && ops[n - 2] == b.first.ops[n - 2] && ops[n - 1] == b.first.ops[n - 1]);
    let k = b.first_end.ops.len();
    assert(ops[k as int] == b.second.ops[k as int]);
    assert(ops[k as int + 1] == b.second.ops[k as int + 1] && ops[k as int + 2] == b.second.ops[k as int + 2]);
    let q = b.second_end.ops.len();
    assert(ops[q as int] == g1.ops[q as int]);
    assert(ops[q as int + 1] == g1.ops[q as int + 1] && ops[q as int + 2] == g1.ops[q as int + 2]);
    assert forall|i: int| n <= i < k implies (block_named(#[trigger] ops[i]) matches Some(x) ==> x >= n) by {
        assert(ops[i] == b.first_end.ops[i]);
    }
    assert forall|i: int| b.second.ops.len() <= i < q implies (block_named(#[trigger] ops[i]) matches Some(x) ==> x
        >= b.second.ops.len()) by {
        assert(ops[i] == b.second_end.ops[i]);
    }
}

/// A side that is a constant.
proof fn constant_runs(ops: Seq<OpV>, g: Gen, m: Machine, c: i64) -> (m2: Machine)
    requires
        begins(put(g, OpV::Int(Width::I8, c)), ops),
        m.at == g.ops.len(),
    ensures
        reaches(ops, m, m2),
        m2 == with_word(m, word_of(Width::I8, c as int)),
        keeps_made(m, m2, g.ops.len()),
{
    let g1 = put(g, OpV::Int(Width::I8, c));
    assert(ops[g.ops.len() as int] == g1.ops[g.ops.len() as int]);
    one_step(ops, m);
    with_word(m, word_of(Width::I8, c as int))
}

/// Runs one side of a short-circuit operator.
#[verifier::spinoff_prover]
proof fn side_runs(
    env: Env,
    g: Gen,
    e: HirExpr,
    runs: bool,
    constant: i64,
    ops: Seq<OpV>,
    m: Machine,
    st: Store,
    rounds: nat,
    g1: Gen,
    x: usize,
    w: Word,
) -> (m2: Machine)
    requires
        is_plain(e),
        side_made(env, g, e, runs, constant) == Ok::<(Gen, usize), Seq<char>>((g1, x)),
        begins(g1, ops),
        stands_before(ops, g, m, st),
        runs ==> (means_expr(st, e, rounds) matches Some((_, Some(v))) && v == w),
        !runs ==> w == word_of(Width::I8, constant as int),
    ensures
        stands_after(
            ops,
            g,
            m,
            g1,
            m2,
            if runs {
                (means_expr(st, e, rounds)->0).0
            } else {
                st
            },
            Some(x),
            Some(w),
        ),
    decreases rounds, e, 4nat,
{
    if runs {
        expr_runs(env, g, e, ops, m, st, rounds)
    } else {
        words_are_words(Width::I8, constant as int);
        constant_runs(ops, g, m, constant)
    }
}

#[verifier::spinoff_prover]
#[verifier::rlimit(40)]
proof fn logical_runs(env: Env, g: Gen, e: HirExpr, ops: Seq<OpV>, m: Machine, st: Store, rounds: nat) -> (m2: Machine)
    requires
        can_run(env, g, e, ops, m, st, rounds),
        e.kind is Logical,
    ensures
        does(env, g, e, ops, m, st, rounds, m2),
    decreases rounds, e, 2nat,
{
    match e.kind {
        HirExprKind::Logical { op, lhs, rhs } => {
            let msg = "logical lhs produced no value"@;
            let b = sides(env, g, e)->0;
            logical_is_laid_out(env, g, e, ops);
            logical_adds(env, g, e);
            sides_are_laid_out(env, g, e);
            let (st1, c) = means_expr(st, *lhs, rounds)->0;
            let m1 = operand_runs(env, g, *lhs, msg, ops, m, st, rounds, b.asked, b.cond, c->0);
            let m2 = dividing(ops, b, true, m1);
            reaching_on(ops, m, m1, m2);
            let p = b.asked.ops.len();
            let yes = c->0.bits != 0;
            let g2 = if yes {
                b.first
            } else {
                b.second
            };
            standing_on(ops, g, g2, m2, st1);
            let (st2, v) = means_expr(st, e, rounds)->0;
            let m3 = if yes {
                side_runs(env, b.first, *rhs, op is And, 1, ops, m2, st1, rounds, b.first_end, b.first_value->0, v->0)
            } else {
                side_runs(env, b.second, *rhs, op is Or, 0, ops, m2, st1, rounds, b.second_end, b.second_value->0, v->0)
            };
            let m4 = meeting(ops, b, true, m3, yes);
            reaching_on(ops, m, m2, m3);
            reaching_on(ops, m, m3, m4);
            keeping_on(m, m2, m3, g.ops.len(), g2.ops.len());
            keeping_on(m, m3, m4, g.ops.len(), p);
            m4
        },
        _ => m,
    }
}

/// How the code of a loop is laid out.
spec fn loop_laid_out(ops: Seq<OpV>, g: Gen, b: Rounds) -> bool {
    let p = g.ops.len();
    let (header, inside, exit) = (p as usize, (p + 1) as usize, (p + 2) as usize);
    let none: Seq<usize> = seq![];
    &&& b.end.ops.len() <= ops.len() <= usize::MAX
    &&& begins(g, ops)
    &&& blocks_inside(g)
    &&& ops[p as int] is Block && ops[p as int + 1] is Block && ops[p as int + 2] is Block
    &&& ops[p as int + 3] == OpV::Jump(header, none)
    &&& ops[p as int + 4] == OpV::Switch(header)
    &&& b.top.ops.len() == p + 5
    &&& b.top.ops.len() <= b.asked.ops.len()
    &&& forall|i: int|
        b.top.ops.len() <= i < b.asked.ops.len() ==> (block_named(#[trigger] ops[i]) matches Some(k) ==> k
            >= b.top.ops.len())
    &&& ops[b.asked.ops.len() as int] == OpV::Branch(b.cond, inside, exit)
    &&& b.inside.ops.len() == b.asked.ops.len() + 3
    &&& ops[b.inside.ops.len() - 2] == OpV::Switch(inside)
    &&& ops[b.inside.ops.len() - 1] is Seal
    &&& b.inside.ops.len() <= b.inside_end.ops.len()
    &&& forall|i: int|
        b.inside.ops.len() <= i < b.inside_end.ops.len() ==> (block_named(#[trigger] ops[i]) matches Some(k) ==> k
            >= b.inside.ops.len())
    &&& ops[b.inside_end.ops.len() as int] == OpV::Jump(header, none)
    &&& ops[b.inside_end.ops.len() as int + 1] is Seal
    &&& ops[b.inside_end.ops.len() as int + 2] == OpV::Switch(exit)
    &&& ops[b.inside_end.ops.len() as int + 3] is Seal
    &&& b.end.ops.len() == b.inside_end.ops.len() + 4
}

#[verifier::spinoff_prover]
#[verifier::rlimit(40)]
proof fn while_is_laid_out(env: Env, g: Gen, e: HirExpr, ops: Seq<OpV>)
    requires
        is_plain(e),
        e.kind is While,
        !g.filled,
        blocks_inside(g),
        made(env, g, e) is Ok,
        begins(made(env, g, e)->Ok_0.0, ops),
    ensures
        rounds_of(env, g, e) is Some,
        loop_laid_out(ops, g, rounds_of(env, g, e)->0),
        begins(rounds_of(env, g, e)->0.asked, ops),
        begins(rounds_of(env, g, e)->0.inside_end, ops),
{
    rounds_are_laid_out(env, g, e);
    while_adds(env, g, e);
    let b = rounds_of(env, g, e)->0;
    let g1 = made(env, g, e)->Ok_0.0;
    let p = g.ops.len();
    let q = b.inside_end.ops.len();
    let jump = OpV::Jump(p as usize, seq![]);
    let g8 = put(b.inside_end, jump);
    assert(g1.ops.len() == q + 4);
    assert forall|i: int| 0 <= i < q implies #[trigger] ops[i] == b.inside_end.ops[i] by {
        assert(g1.ops[i] == b.inside_end.ops[i]);
    }
    assert(ops[q as int] == g1.ops[q as int] && ops[q as int + 1] == g1.ops[q as int + 1]);
    assert(ops[q as int + 2] == g1.ops[q as int + 2] && ops[q as int + 3] == g1.ops[q as int + 3]);
    assert forall|i: int| 0 <= i < b.inside.ops.len() implies #[trigger] ops[i] == b.inside.ops[i] by {
        assert(b.inside_end.ops[i] == b.inside.ops[i]);
    }
    let n = b.asked.ops.len();
    assert forall|i: int| 0 <= i < n implies #[trigger] ops[i] == b.asked.ops[i] by {
        assert(b.inside.ops[i] == b.asked.ops[i]);
    }
    assert(ops[n as int] == b.inside.ops[n as int] && ops[n as int + 1] == b.inside.ops[n as int + 1]);
    assert(ops[n as int + 2] == b.inside.ops[n as int + 2]);
    assert forall|i: int| 0 <= i < b.top.ops.len() implies #[trigger] ops[i] == b.top.ops[i] by {
        assert(b.asked.ops[i] == b.top.ops[i]);
    }
    assert(ops[p as int] == b.top.ops[p as int] && ops[p as int + 1] == b.top.ops[p as int + 1]);
    assert(ops[p as int + 2] == b.top.ops[p as int + 2] && ops[p as int + 3] == b.top.ops[p as int + 3]);
    assert(ops[p as int + 4] == b.top.ops[p as int + 4]);
    assert forall|i: int| 0 <= i < p implies #[trigger] ops[i] == g.ops[i] by {
        assert(b.top.ops[i] == g.ops[i]);
    }
    assert forall|i: int| b.top.ops.len() <= i < n implies (block_named(#[trigger] ops[i]) matches Some(x) ==> x
        >= b.top.ops.len()) by {
        assert(ops[i] == b.asked.ops[i]);
    }
    assert forall|i: int| b.inside.ops.len() <= i < q implies (block_named(#[trigger] ops[i]) matches Some(x) ==> x
        >= b.inside.ops.len()) by {
        assert(ops[i] == b.inside_end.ops[i]);
    }
}

#[verifier::spinoff_prover]
proof fn loop_entries_are(ops: Seq<OpV>, g: Gen, b: Rounds)
    requires
        loop_laid_out(ops, g, b),
    ensures
        ({
            let p = g.ops.len();
            &&& entry(ops, p as usize, 0) == Some(b.top.ops.len())
            &&& entry(ops, (p + 1) as usize, 0) == Some((b.inside.ops.len() - 1) as nat)
            &&& entry(ops, (p + 2) as usize, 0) == Some((b.end.ops.len() - 1) as nat)
        }),
{
    let p = g.ops.len();
    let (header, inside, exit) = (p as usize, (p + 1) as usize, (p + 2) as usize);
    old_blocks_are_others(ops, g, header);
    old_blocks_are_others(ops, g, inside);
    old_blocks_are_others(ops, g, exit);
    let k2 = (b.inside.ops.len() - 2) as nat;
    let k3 = (b.end.ops.len() - 2) as nat;
    assert forall|j: int| 0 <= j < p + 4 implies #[trigger] ops[j] != OpV::Switch(header) && ops[j] != OpV::Switch(inside)
        && ops[j] != OpV::Switch(exit) by {
        if j < p {
            assert(block_named(ops[j]) != Some(header));
            assert(block_named(ops[j]) != Some(inside));
            assert(block_named(ops[j]) != Some(exit));
        } else {
            assert(j == p || j == p + 1 || j == p + 2 || j == p + 3);
        }
    }
    assert forall|j: int| p + 4 <= j < k2 implies #[trigger] ops[j] != OpV::Switch(inside) && ops[j] != OpV::Switch(exit) by {
        if j == p + 4 {
        } else if j < b.asked.ops.len() {
            assert(block_named(ops[j]) matches Some(k) ==> k >= b.top.ops.len());
        } else {
            assert(j == b.asked.ops.len());
        }
    }
    assert forall|j: int| k2 <= j < k3 implies #[trigger] ops[j] != OpV::Switch(exit) by {
        if j == k2 || j == k2 + 1 {
        } else if j < b.inside_end.ops.len() {
            assert(block_named(ops[j]) matches Some(k) ==> k >= b.inside.ops.len());
        } else {
            assert(j == b.inside_end.ops.len() || j == b.inside_end.ops.len() + 1);
        }
    }
    entry_is(ops, header, 0, p + 4);
    entry_is(ops, inside, 0, k2);
    entry_is(ops, exit, 0, k3);
}

/// From the header of a loop on, round after round.
#[verifier::spinoff_prover]
proof fn rounds_run(env: Env, g: Gen, e: HirExpr, ops: Seq<OpV>, m: Machine, st: Store, rounds: nat) -> (m2: Machine)
    requires
        is_plain(e),
        e.kind is While,
        !g.filled,
        blocks_inside(g),
        made(env, g, e) is Ok,
        begins(made(env, g, e)->Ok_0.0, ops),
        means_expr(st, e, rounds) is Some,
        m.at == g.ops.len() + 5,
        agrees_with(g.vars, m.held, st),
    ensures
        stands_after(
            ops,
            g,
            m,
            made(env, g, e)->Ok_0.0,
            m2,
            (means_expr(st, e, rounds)->0).0,
            None,
            None,
        ),
        (means_expr(st, e, rounds)->0).1 is None,
    decreases rounds, e, 1nat,
{
    match e.kind {
        HirExprKind::While { cond, body } => {
            let msg = "while condition produced no value"@;
            let b = rounds_of(env, g, e)->0;
            let r1 = (rounds - 1) as nat;
            while_is_laid_out(env, g, e, ops);
            while_adds(env, g, e);
            rounds_are_laid_out(env, g, e);
            loop_entries_are(ops, g, b);
            standing_on(ops, g, b.top, m, st);
            let (st1, c) = means_expr(st, *cond, r1)->0;
            let m1 = operand_runs(env, b.top, *cond, msg, ops, m, st, r1, b.asked, b.cond, c->0);
            let m2 = stepping(ops, m1)->0;
            one_step(ops, m1);
            let m3 = going_on(m2);
            one_step(ops, m2);
            reaching_on(ops, m, m1, m2);
            reaching_on(ops, m, m2, m3);
            keeping_on(m, m1, m3, g.ops.len(), b.top.ops.len());
            if c->0.bits == 0 {
                m3
            } else {
                standing_on(ops, g, b.inside, m3, st1);
                let st2 = (means_block(st1, body, r1)->0).0;
                let m4 = block_runs(env, b.inside, body, ops, m3, st1, r1);
                let m5 = stepping(ops, m4)->0;
                let none: Seq<usize> = seq![];
                assert(all_made_before(m4, none));
                assert(Seq::new(none.len(), |i: int| m4.made[none[i]]) =~= seq![]);
                one_step(ops, m4);
                assert(m5 == Machine { at: b.top.ops.len(), ..m4 });
                let m6 = rounds_run(env, g, e, ops, m5, st2, r1);
                reaching_on(ops, m, m3, m4);
                reaching_on(ops, m, m4, m5);
                reaching_on(ops, m, m5, m6);
                keeping_on(m, m3, m4, g.ops.len(), b.inside.ops.len());
                keeping_on(m, m5, m6, g.ops.len(), g.ops.len());
                m6
            }
        },
        _ => m,
    }
}

#[verifier::spinoff_prover]
proof fn while_runs(env: Env, g: Gen, e: HirExpr, ops: Seq<OpV>, m: Machine, st: Store, rounds: nat) -> (m2: Machine)
    requires
        can_run(env, g, e, ops, m, st, rounds),
        e.kind is While,
    ensures
        does(env, g, e, ops, m, st, rounds, m2),
    decreases rounds, e, 2nat,
{
    let b = rounds_of(env, g, e)->0;
    while_is_laid_out(env, g, e, ops);
    loop_entries_are(ops, g, b);
    let m1 = going_on(m);
    one_step(ops, m);
    let m2 = going_on(m1);
    one_step(ops, m1);
    let m3 = going_on(m2);
    one_step(ops, m2);
    let none: Seq<usize> = seq![];
    assert(all_made_before(m3, none));
    assert(Seq::new(none.len(), |i: int| m3.made[none[i]]) =~= seq![]);
    let m4 = Machine { at: b.top.ops.len(), ..m3 };
    one_step(ops, m3);
    reaching_on(ops, m, m1, m2);
    reaching_on(ops, m, m2, m3);
    reaching_on(ops, m, m3, m4);
    let m5 = rounds_run(env, g, e, ops, m4, st, rounds);
    reaching_on(ops, m, m4, m5);
    m5
}

/// Running the code of an expression of integers and truth values, with its
/// operators, assignments, branches and loops, does what the expression means:
/// the run gets past the code, the locals hold what they hold afterwards, and
/// the value is there.
pub proof fn code_does_what_expressions_mean(
    env: Env,
    g: Gen,
    e: HirExpr,
    ops: Seq<OpV>,
    m: Machine,
    st: Store,
    rounds: nat,
) -> (m2: Machine)
    requires
        is_plain(e),
        made(env, g, e) is Ok,
        begins(made(env, g, e)->Ok_0.0, ops),
        stands_before(ops, g, m, st),
        means_expr(st, e, rounds) is Some,
    ensures
        ({
            let (g1, r) = made(env, g, e)->Ok_0;
            let (st2, v) = means_expr(st, e, rounds)->0;
            stands_after(ops, g, m, g1, m2, st2, r, v)
        }),
{
    expr_runs(env, g, e, ops, m, st, rounds)
}

} // verus!
