//! What the code of expressions does when it runs: it makes the values that the
//! expressions stand for.

use vstd::prelude::*;

use crate::code::{Gen, OpV, Width, here, put};
use crate::code_laws::{block_goes_on, else_goes_on, expr_goes_on, stmts_go_on, value_of_goes_on};
use crate::hir::{HirBinOp, HirBlock, HirExpr, HirExprKind, HirLit, HirModule, HirStmt, HirUnOp};
use crate::machine::{
    Machine, Word, compares, in_type, is_whole, means, pattern, room_of, running, signed_value,
    stepping, truth, word_of,
};
use crate::machine_laws::patterns_are_patterns;
use crate::rules::{
    Env, Made, converted, count_call, else_made, has_value, in_loop, into_block, is_held, jumped,
    loop_closed, made, made_block, made_if, made_logical, made_while, merge_param, merged,
    operation, owning_first, released, side_made, stmt_made, stmts_made, tail_held, unary,
    value_made,
};
use crate::table::lookup;
use crate::ty::{IntTy, SymbolId, TyV, int_signed};

verus! {

// ---- what expressions mean ----

/// What each local holds.
pub type Store = Map<SymbolId, Word>;

/// The integer of a type that a value's bits stand for.
pub open spec fn reading(t: IntTy, v: Word) -> int {
    if int_signed(t) {
        signed_value(v.width, v.bits)
    } else {
        pattern(v.width, v.bits)
    }
}

/// An operator applied to two values of an integer type.
pub open spec fn applied(op: HirBinOp, t: IntTy, a: Word, b: Word) -> Option<Word> {
    if a.width != room_of(t) || b.width != room_of(t) {
        None
    } else {
        match means(op, room_of(t), reading(t, a), reading(t, b)) {
            None => None,
            Some(n) => if compares(op) {
                Some(word_of(Width::I8, n))
            } else if op is Div && !in_type(t, n) {
                None
            } else {
                Some(word_of(room_of(t), n))
            },
        }
    }
}

pub open spec fn applied_unary(op: HirUnOp, v: Word) -> Option<Word> {
    match op {
        HirUnOp::Neg => Some(word_of(v.width, -v.bits)),
        HirUnOp::Not => if v == word_of(Width::I8, 0) {
            Some(word_of(Width::I8, 1))
        } else if v == word_of(Width::I8, 1) {
            Some(word_of(Width::I8, 0))
        } else {
            None
        },
        HirUnOp::BitNot => Some(word_of(v.width, -v.bits - 1)),
    }
}

/// What an expression of integers and truth values comes to: what the locals
/// hold afterwards, and its value when it has one. Nothing where it has no
/// meaning, or where its loops take more than so many rounds.
pub open spec fn means_expr(st: Store, e: HirExpr, rounds: nat) -> Option<(Store, Option<Word>)>
    decreases rounds, e, 2nat,
{
    match e.kind {
        HirExprKind::Lit(HirLit::Int(v, t)) => Some((st, Some(word_of(room_of(t), v as int)))),
        HirExprKind::Lit(HirLit::Bool(b)) => Some((st, Some(word_of(Width::I8, truth(b))))),
        HirExprKind::Lit(HirLit::Char(c)) => Some((st, Some(word_of(Width::I32, c as int)))),
        HirExprKind::Local(s) => if st.contains_key(s) {
            Some((st, Some(st[s])))
        } else {
            None
        },
        HirExprKind::Unary { op, expr } => match means_expr(st, *expr, rounds) {
            Some((st1, Some(v))) => match applied_unary(op, v) {
                Some(w) => Some((st1, Some(w))),
                None => None,
            },
            _ => None,
        },
        HirExprKind::Binary { op, lhs, rhs } => match means_expr(st, *lhs, rounds) {
            Some((st1, Some(a))) => match means_expr(st1, *rhs, rounds) {
                Some((st2, Some(b))) => match lhs.ty@ {
                    TyV::Int(t) => match applied(op, t, a, b) {
                        Some(w) => Some((st2, Some(w))),
                        None => None,
                    },
                    _ => None,
                },
                _ => None,
            },
            _ => None,
        },
        HirExprKind::Cast { expr } => match means_expr(st, *expr, rounds) {
            Some((st1, Some(v))) => match (expr.ty@, e.ty@) {
                (TyV::Int(from), TyV::Int(to)) => if v.width == room_of(from) {
                    Some((st1, Some(word_of(room_of(to), reading(from, v)))))
                } else {
                    None
                },
                _ => None,
            },
            _ => None,
        },
        HirExprKind::Logical { op, lhs, rhs } => match means_expr(st, *lhs, rounds) {
            Some((st1, Some(a))) => if op is And && a.bits == 0 {
                Some((st1, Some(word_of(Width::I8, 0))))
            } else if op is Or && a.bits != 0 {
                Some((st1, Some(word_of(Width::I8, 1))))
            } else {
                match means_expr(st1, *rhs, rounds) {
                    Some((st2, Some(b))) => Some((st2, Some(b))),
                    _ => None,
                }
            },
            _ => None,
        },
        HirExprKind::Assign { lhs, rhs } => match means_expr(st, *rhs, rounds) {
            Some((st1, Some(v))) => if st1.contains_key(lhs) {
                Some((st1.insert(lhs, v), None))
            } else {
                None
            },
            _ => None,
        },
        HirExprKind::If { cond, then_b, else_b } => match means_expr(st, *cond, rounds) {
            Some((st1, Some(c))) => {
                let end = if c.bits != 0 {
                    means_block(st1, then_b, rounds)
                } else {
                    match else_b {
                        Some(x) => means_expr(st1, *x, rounds),
                        None => Some((st1, None)),
                    }
                };
                match end {
                    Some((st2, v)) => if has_value(e.ty@) {
                        match v {
                            Some(v) => Some((st2, Some(v))),
                            None => None,
                        }
                    } else {
                        Some((st2, None))
                    },
                    None => None,
                }
            },
            _ => None,
        },
        HirExprKind::Block(b) => means_block(st, b, rounds),
        HirExprKind::While { cond, body } => if rounds == 0 {
            None
        } else {
            match means_expr(st, *cond, (rounds - 1) as nat) {
                Some((st1, Some(c))) => if c.bits == 0 {
                    Some((st1, None))
                } else {
                    match means_block(st1, body, (rounds - 1) as nat) {
                        Some((st2, _)) => means_expr(st2, e, (rounds - 1) as nat),
                        None => None,
                    }
                },
                _ => None,
            }
        },
        _ => None,
    }
}

pub open spec fn means_block(st: Store, b: HirBlock, rounds: nat) -> Option<(Store, Option<Word>)>
    decreases rounds, b, 1nat,
{
    means_stmts(st, b.stmts@, b.stmts@.len(), rounds)
}

/// The first `k` statements, one after the other. The last one gives the value
/// when no semicolon follows it.
pub open spec fn means_stmts(st: Store, ss: Seq<HirStmt>, k: nat, rounds: nat) -> Option<(Store, Option<Word>)>
    decreases rounds, ss, k,
{
    if k == 0 || k > ss.len() {
        Some((st, None))
    } else {
        match means_stmts(st, ss, (k - 1) as nat, rounds) {
            Some((st1, _)) => match ss[k - 1] {
                HirStmt::Expr(e, semi) => match means_expr(st1, e, rounds) {
                    Some((st2, v)) => Some(
                        (
                            st2,
                            if semi {
                                None
                            } else {
                                v
                            },
                        ),
                    ),
                    None => None,
                },
                HirStmt::Let(_) => None,
            },
            None => None,
        }
    }
}

/// Integers, truth values and characters.
pub open spec fn is_scalar(t: TyV) -> bool {
    t is Int || t is Bool || t is Char
}

/// An expression of integers, truth values and characters, with operators,
/// assignments, branches and loops, typed as the checker leaves it.
pub open spec fn is_plain(e: HirExpr) -> bool
    decreases e, 2nat,
{
    match e.kind {
        HirExprKind::Lit(l) => l is Int || l is Bool || l is Char,
        HirExprKind::Local(_) => true,
        HirExprKind::Unary { op, expr } => is_plain(*expr) && (op is Neg ==> e.ty@ is Int),
        HirExprKind::Binary { op, lhs, rhs } => is_plain(*lhs) && is_plain(*rhs) && lhs.ty@ is Int && (!compares(op)
            ==> e.ty@ == lhs.ty@),
        HirExprKind::Cast { expr } => is_plain(*expr) && expr.ty@ is Int && e.ty@ is Int,
        HirExprKind::Logical { lhs, rhs, .. } => is_plain(*lhs) && is_plain(*rhs),
        HirExprKind::Assign { rhs, .. } => is_plain(*rhs) && is_scalar(rhs.ty@),
        HirExprKind::If { cond, then_b, else_b } => {
            &&& is_plain(*cond)
            &&& is_plain_block(then_b)
            &&& match else_b {
                Some(x) => is_plain(*x),
                None => true,
            }
            &&& is_scalar(e.ty@) || e.ty@ is Unit
        },
        HirExprKind::Block(b) => is_plain_block(b),
        HirExprKind::While { cond, body } => is_plain(*cond) && is_plain_block(body),
        _ => false,
    }
}

pub open spec fn is_plain_block(b: HirBlock) -> bool
    decreases b, 1nat,
{
    are_plain(b.stmts@, b.stmts@.len())
}

pub open spec fn are_plain(ss: Seq<HirStmt>, k: nat) -> bool
    decreases ss, k,
{
    k == 0 || k > ss.len() || (are_plain(ss, (k - 1) as nat) && match ss[k - 1] {
        HirStmt::Expr(e, semi) => is_plain(e) && (!semi && is_held(e) ==> is_scalar(e.ty@)),
        HirStmt::Let(_) => false,
    })
}

// ---- what code adds ----

/// The block that an operation begins or belongs to.
pub open spec fn block_named(op: OpV) -> Option<usize> {
    match op {
        OpV::Switch(b) => Some(b),
        OpV::BlockParam(b, _) => Some(b),
        _ => None,
    }
}

/// Code added after other code: what was there stays, the locals keep their
/// variables, and the blocks that are begun are new ones.
pub open spec fn adds(a: Gen, b: Gen) -> bool {
    &&& a.ops.len() <= b.ops.len() <= usize::MAX
    &&& forall|i: int| 0 <= i < a.ops.len() ==> #[trigger] b.ops[i] == a.ops[i]
    &&& b.vars == a.vars
    &&& b.owned == a.owned
    &&& forall|i: int|
        a.ops.len() <= i < b.ops.len() ==> (block_named(#[trigger] b.ops[i]) matches Some(k) ==> a.ops.len() <= k
            < b.ops.len())
}

pub(crate) proof fn adding_on(a: Gen, b: Gen, c: Gen)
    requires
        adds(a, b),
        adds(b, c),
    ensures
        adds(a, c),
{
    assert forall|i: int| 0 <= i < a.ops.len() implies #[trigger] c.ops[i] == a.ops[i] by {
        assert(b.ops[i] == a.ops[i]);
    }
    assert forall|i: int| a.ops.len() <= i < c.ops.len() implies (block_named(#[trigger] c.ops[i]) matches Some(k)
        ==> a.ops.len() <= k < c.ops.len()) by {
        if i < b.ops.len() {
            assert(c.ops[i] == b.ops[i]);
        }
    }
}

pub(crate) proof fn adding_one(a: Gen, b: Gen, op: OpV)
    requires
        adds(a, b),
        b.ops.len() < usize::MAX,
        block_named(op) matches Some(k) ==> a.ops.len() <= k < b.ops.len(),
    ensures
        adds(a, put(b, op)),
{
    let c = put(b, op);
    assert forall|i: int| 0 <= i < a.ops.len() implies #[trigger] c.ops[i] == a.ops[i] by {
        assert(b.ops[i] == a.ops[i]);
    }
    assert forall|i: int| a.ops.len() <= i < c.ops.len() implies (block_named(#[trigger] c.ops[i]) matches Some(k)
        ==> a.ops.len() <= k < c.ops.len()) by {
        if i < b.ops.len() {
            assert(c.ops[i] == b.ops[i]);
        }
    }
}

/// Whether code was added that goes on, with a value among it.
pub open spec fn adds_value(g: Gen, m: Made) -> bool {
    m matches Ok((g1, r)) ==> (g1.ops.len() <= usize::MAX ==> {
        &&& adds(g, g1)
        &&& !g1.filled
        &&& r matches Some(x) ==> x < g1.ops.len()
    })
}

#[verifier::spinoff_prover]
pub(crate) proof fn plain_adds(env: Env, g: Gen, e: HirExpr)
    requires
        is_plain(e),
        !g.filled,
    ensures
        adds_value(g, made(env, g, e)),
    decreases e, 2nat,
{
    expr_goes_on(env, g, e);
    match e.kind {
        HirExprKind::Lit(_) | HirExprKind::Local(_) => {
            match made(env, g, e) {
                Ok((g1, _)) => if g1.ops.len() <= usize::MAX {
                    assert(g1 == put(g, g1.ops.last()));
                    adding_one(g, g, g1.ops.last());
                },
                Err(_) => {},
            }
        },
        HirExprKind::Unary { .. } | HirExprKind::Binary { .. } | HirExprKind::Cast { .. }
        | HirExprKind::Assign { .. } => operator_adds(env, g, e),
        HirExprKind::Logical { .. } => logical_adds(env, g, e),
        HirExprKind::If { .. } => if_adds(env, g, e),
        HirExprKind::Block(b) => block_adds(env, g, b),
        HirExprKind::While { .. } => while_adds(env, g, e),
        _ => {},
    }
}

#[verifier::spinoff_prover]
pub(crate) proof fn operator_adds(env: Env, g: Gen, e: HirExpr)
    requires
        is_plain(e),
        !g.filled,
        e.kind is Unary || e.kind is Binary || e.kind is Cast || e.kind is Assign,
    ensures
        adds_value(g, made(env, g, e)),
    decreases e, 1nat,
{
    match e.kind {
        HirExprKind::Unary { op, expr } => {
            plain_adds(env, g, *expr);
            match value_made(env, g, *expr, "unary operand produced no value"@) {
                Ok((g1, v)) => match unary(g1, op, v, e.ty@) {
                    Ok(g2) => if g2.ops.len() <= usize::MAX {
                        match op {
                            HirUnOp::Not => {
                                let one = OpV::Int(Width::I8, 1);
                                adding_one(g, g1, one);
                                adding_one(g, put(g1, one), g2.ops.last());
                                assert(g2 == put(put(g1, one), g2.ops.last()));
                            },
                            _ => {
                                adding_one(g, g1, g2.ops.last());
                                assert(g2 == put(g1, g2.ops.last()));
                            },
                        }
                    },
                    Err(_) => {},
                },
                Err(_) => {},
            }
        },
        HirExprKind::Cast { expr } => {
            plain_adds(env, g, *expr);
            match value_made(env, g, *expr, "cast operand produced no value"@) {
                Ok((g1, v)) => match converted(g1, v, expr.ty@, e.ty@) {
                    Ok((g2, r)) => if g2.ops.len() <= usize::MAX && g2 != g1 {
                        adding_one(g, g1, g2.ops.last());
                        assert(g2 == put(g1, g2.ops.last()));
                    },
                    Err(_) => {},
                },
                Err(_) => {},
            }
        },
        HirExprKind::Binary { op, lhs, rhs } => {
            plain_adds(env, g, *lhs);
            match value_made(env, g, *lhs, "lhs produced no value"@) {
                Ok((g1, l)) => {
                    value_of_goes_on(env, g1, *rhs, "rhs produced no value"@);
                    if !g1.filled {
                        plain_adds(env, g1, *rhs);
                    }
                    match value_made(env, g1, *rhs, "rhs produced no value"@) {
                        Ok((g2, r)) => {
                            let t = lhs.ty@;
                            match operation(g2, op, l, r, t) {
                                Ok(g3) => if g3.ops.len() <= usize::MAX {
                                    assert(g3 == put(g2, g3.ops.last()));
                                    adding_on(g, g1, g2);
                                    adding_one(g, g2, g3.ops.last());
                                },
                                Err(_) => {},
                            }
                        },
                        Err(_) => {},
                    }
                },
                Err(_) => {},
            }
        },
        HirExprKind::Assign { lhs, rhs } => {
            plain_adds(env, g, *rhs);
            match value_made(env, g, *rhs, "assignment rhs produced no value"@) {
                Ok((g1, v)) => match lookup(g1.vars, lhs) {
                    Some(x) => if g1.ops.len() < usize::MAX {
                        adding_one(g, g1, OpV::Assign(x, v));
                    },
                    None => {},
                },
                Err(_) => {},
            }
        },
        _ => {},
    }
}

/// Three new blocks, one after the other.
pub open spec fn three_blocks(g: Gen) -> Gen {
    put(put(put(g, OpV::Block), OpV::Block), OpV::Block)
}

pub(crate) proof fn three_blocks_add(g: Gen)
    requires
        g.ops.len() + 3 <= usize::MAX,
    ensures
        adds(g, three_blocks(g)),
        three_blocks(g).ops.len() == g.ops.len() + 3,
{
    adding_one(g, g, OpV::Block);
    adding_one(g, put(g, OpV::Block), OpV::Block);
    adding_one(g, put(put(g, OpV::Block), OpV::Block), OpV::Block);
}

pub(crate) proof fn entering_adds(a: Gen, b: Gen, k: usize)
    requires
        adds(a, b),
        b.ops.len() + 2 <= usize::MAX,
        a.ops.len() <= k < b.ops.len(),
    ensures
        adds(a, into_block(b, k)),
        !into_block(b, k).filled,
{
    adding_one(a, b, OpV::Switch(k));
    adding_one(a, put(b, OpV::Switch(k)), OpV::Seal(k));
}

#[verifier::spinoff_prover]
pub(crate) proof fn side_adds(env: Env, g: Gen, e: HirExpr, runs: bool, constant: i64)
    requires
        is_plain(e),
        !g.filled,
    ensures
        side_made(env, g, e, runs, constant) matches Ok((g1, v)) ==> g.ops.len() <= g1.ops.len() && (g1.ops.len()
            <= usize::MAX ==> adds(g, g1) && !g1.filled && v < g1.ops.len()),
    decreases e, 3nat,
{
    if runs {
        plain_adds(env, g, e);
        expr_goes_on(env, g, e);
    } else if g.ops.len() < usize::MAX {
        adding_one(g, g, OpV::Int(Width::I8, constant));
    }
}

#[verifier::spinoff_prover]
pub(crate) proof fn stmts_add(env: Env, g: Gen, ss: Seq<HirStmt>, k: nat)
    requires
        are_plain(ss, k),
        !g.filled,
        k <= ss.len(),
    ensures
        stmts_made(env, g, ss, k) matches Ok((g1, r, stopped)) ==> (g1.ops.len() <= usize::MAX ==> {
            &&& adds(g, g1)
            &&& !g1.filled
            &&& !stopped
            &&& r matches Some(x) ==> x < g1.ops.len()
        }),
    decreases ss, k,
{
    if k > 0 {
        stmts_add(env, g, ss, (k - 1) as nat);
        match stmts_made(env, g, ss, (k - 1) as nat) {
            Ok((g1, _, stopped)) => match ss[k - 1] {
                HirStmt::Expr(x, _) => {
                    expr_goes_on(env, g1, x);
                    if !g1.filled {
                        plain_adds(env, g1, x);
                    }
                    match made(env, g1, x) {
                        Ok((g2, r)) => {
                            assert(stmt_made(env, g1, ss[k - 1]) matches Ok((y, _)) && y == g2);
                            if g2.ops.len() <= usize::MAX {
                                assert(g1.ops.len() <= usize::MAX);
                                adding_on(g, g1, g2);
                            }
                        },
                        Err(_) => {},
                    }
                },
                HirStmt::Let(_) => {},
            },
            Err(_) => {},
        }
    }
}

#[verifier::spinoff_prover]
pub(crate) proof fn block_adds(env: Env, g: Gen, b: HirBlock)
    requires
        is_plain_block(b),
        !g.filled,
    ensures
        adds_value(g, made_block(env, g, b)),
        made_block(env, g, b) matches Ok((g1, v)) ==> (g1.ops.len() <= usize::MAX ==> stmts_made(
            env,
            g,
            b.stmts@,
            b.stmts@.len(),
        ) == Ok::<(Gen, Option<usize>, bool), Seq<char>>((g1, v, false))),
    decreases b, 1nat,
{
    let ss = b.stmts@;
    stmts_add(env, g, ss, ss.len());
    stmts_go_on(env, g, ss, ss.len());
    match stmts_made(env, g, ss, ss.len()) {
        Ok((g1, v, _)) => {
            if g1.ops.len() <= usize::MAX {
                tails_are_free(env.hir, ss);
                assert(released(env.hir, g1, g.owned.len(), g1.owned.len()) == Ok::<Gen, Seq<char>>(g1));
                assert(g1.owned.take(g1.owned.len() as int) =~= g1.owned);
                assert(owning_first(g1, g.owned.len()) == g1);
            } else {
                block_goes_on(env, g, b);
                blocks_keep_their_statements(env, g, b, g1);
            }
        },
        Err(_) => {},
    }
}

pub(crate) proof fn tails_are_free(hir: HirModule, ss: Seq<HirStmt>)
    requires
        are_plain(ss, ss.len()),
    ensures
        tail_held(hir, ss) is None,
{
    if ss.len() > 0 {
        assert(ss.last() == ss[ss.len() - 1]);
    }
}

/// A block's code holds that of its statements.
pub(crate) proof fn blocks_keep_their_statements(env: Env, g: Gen, b: HirBlock, g1: Gen)
    requires
        is_plain_block(b),
        stmts_made(env, g, b.stmts@, b.stmts@.len()) matches Ok((x, _, _)) && x == g1,
    ensures
        made_block(env, g, b) matches Ok((g2, _)) ==> g2.ops.len() >= g1.ops.len(),
{
    tails_are_free(env.hir, b.stmts@);
    releasing_adds(env.hir, g1, g.owned.len(), g1.owned.len());
}

pub(crate) proof fn releasing_adds(hir: HirModule, g: Gen, target: nat, n: nat)
    ensures
        released(hir, g, target, n) matches Ok(g1) ==> g1.ops.len() >= g.ops.len(),
    decreases n,
{
    if n > target && n <= g.owned.len() {
        let (var, t) = g.owned[n - 1];
        match count_call(hir, put(g, OpV::Read(var)), true, t, here(g)) {
            Ok(g1) => releasing_adds(hir, g1, target, (n - 1) as nat),
            Err(_) => {},
        }
    }
}

/// The code of a branch: the condition, the two sides and where they meet.
pub struct Branches {
    /// After the condition, with its value.
    pub asked: Gen,
    pub cond: usize,
    /// Before and after the first side, with its value, and after its jump.
    pub first: Gen,
    pub first_end: Gen,
    pub first_value: Option<usize>,
    pub first_out: Gen,
    /// The same of the second side.
    pub second: Gen,
    pub second_end: Gen,
    pub second_value: Option<usize>,
    pub second_out: Gen,
    pub end: Gen,
}

pub open spec fn branches(env: Env, g: Gen, e: HirExpr) -> Option<Branches> {
    match e.kind {
        HirExprKind::If { cond, then_b, else_b } => match value_made(env, g, *cond, "if condition produced no value"@) {
            Err(_) => None,
            Ok((g0, c)) => {
                let g3 = put(put(put(g0, OpV::Block), OpV::Block), OpV::Block);
                let (yes, no, merge) = (here(g0), here(put(g0, OpV::Block)), here(put(put(g0, OpV::Block), OpV::Block)));
                let wants = has_value(e.ty@);
                match merge_param(g3, merge, e.ty@) {
                    Err(_) => None,
                    Ok(g4) => {
                        let first = into_block(put(g4, OpV::Branch(c, yes, no)), yes);
                        match made_block(env, first, then_b) {
                            Err(_) => None,
                            Ok((g5, a)) => match merged(g5, merge, wants, a, "if-then branch produced no value"@) {
                                Err(_) => None,
                                Ok(g6) => match else_made(env, into_block(g6, no), else_b) {
                                    Err(_) => None,
                                    Ok((g7, b)) => match merged(
                                        g7,
                                        merge,
                                        wants,
                                        b,
                                        "if-else branch produced no value"@,
                                    ) {
                                        Err(_) => None,
                                        Ok(g8) => Some(
                                            Branches {
                                                asked: g0,
                                                cond: c,
                                                first,
                                                first_end: g5,
                                                first_value: a,
                                                first_out: g6,
                                                second: into_block(g6, no),
                                                second_end: g7,
                                                second_value: b,
                                                second_out: g8,
                                                end: into_block(g8, merge),
                                            },
                                        ),
                                    },
                                },
                            },
                        }
                    },
                }
            },
        },
        _ => None,
    }
}

/// The code of a branch is laid out as it is read, piece after piece.
#[verifier::spinoff_prover]
pub(crate) proof fn branches_are_laid_out(env: Env, g: Gen, e: HirExpr)
    requires
        is_plain(e),
        e.kind is If,
    ensures
        made(env, g, e) matches Ok((g1, r)) ==> {
            &&& branches(env, g, e) matches Some(b) && {
                &&& b.end == g1
                &&& g.ops.len() <= b.asked.ops.len()
                &&& b.asked.ops.len() + 6 <= b.first.ops.len() <= b.first_end.ops.len() <= b.first_out.ops.len()
                &&& b.first_out.ops.len() + 2 == b.second.ops.len()
                &&& b.second.ops.len() <= b.second_end.ops.len() <= b.second_out.ops.len()
                &&& b.second_out.ops.len() + 2 == g1.ops.len()
            }
        },
{
    assert(made(env, g, e) == made_if(env, g, e));
    match e.kind {
        HirExprKind::If { cond, then_b, else_b } => {
            expr_goes_on(env, g, *cond);
            match branches(env, g, e) {
                Some(b) => {
                    block_goes_on(env, b.first, then_b);
                    else_goes_on(env, b.second, else_b);
                },
                None => {},
            }
        },
        _ => {},
    }
}

#[verifier::spinoff_prover]
pub(crate) proof fn if_adds(env: Env, g: Gen, e: HirExpr)
    requires
        is_plain(e),
        !g.filled,
        e.kind is If,
    ensures
        adds_value(g, made(env, g, e)),
        made(env, g, e) matches Ok((g1, _)) ==> (g1.ops.len() <= usize::MAX ==> {
            let b = branches(env, g, e)->0;
            &&& adds(g, b.asked) && !b.asked.filled && b.cond < b.asked.ops.len()
            &&& adds(g, b.first) && !b.first.filled
            &&& adds(b.first, b.first_end) && !b.first_end.filled
            &&& b.first_value matches Some(x) ==> x < b.first_end.ops.len()
            &&& adds(g, b.first_out)
            &&& adds(g, b.second) && !b.second.filled
            &&& adds(b.second, b.second_end) && !b.second_end.filled
            &&& b.second_value matches Some(x) ==> x < b.second_end.ops.len()
            &&& adds(g, b.second_out)
        }),
    decreases e, 1nat,
{
    branches_are_laid_out(env, g, e);
    match (e.kind, made(env, g, e)) {
        (HirExprKind::If { cond, then_b, else_b }, Ok((g1, r))) => if g1.ops.len() <= usize::MAX {
            let b = branches(env, g, e)->0;
            plain_adds(env, g, *cond);
            let g0 = b.asked;
            let g3 = three_blocks(g0);
            let (yes, no, merge) = (here(g0), (g0.ops.len() + 1) as usize, (g0.ops.len() + 2) as usize);
            three_blocks_add(g0);
            adding_on(g, g0, g3);
            let g4 = merge_param(g3, merge, e.ty@)->Ok_0;
            if has_value(e.ty@) {
                adding_one(g, g3, g4.ops.last());
                assert(g4 == put(g3, g4.ops.last()));
            }
            let branch = OpV::Branch(b.cond, yes, no);
            adding_one(g, g4, branch);
            entering_adds(g, put(g4, branch), yes);
            assert(b.first == into_block(put(g4, branch), yes));
            block_adds(env, b.first, then_b);
            adding_on(g, b.first, b.first_end);
            assert(b.first_out == put(b.first_end, b.first_out.ops.last()));
            adding_one(g, b.first_end, b.first_out.ops.last());
            entering_adds(g, b.first_out, no);
            match else_b {
                Some(x) => plain_adds(env, b.second, *x),
                None => {},
            }
            adding_on(g, b.second, b.second_end);
            assert(b.second_out == put(b.second_end, b.second_out.ops.last()));
            adding_one(g, b.second_end, b.second_out.ops.last());
            entering_adds(g, b.second_out, merge);
        },
        _ => {},
    }
}

/// The code of a short-circuit operator, with its two sides.
pub open spec fn sides(env: Env, g: Gen, e: HirExpr) -> Option<Branches> {
    match e.kind {
        HirExprKind::Logical { op, lhs, rhs } => match value_made(env, g, *lhs, "logical lhs produced no value"@) {
            Err(_) => None,
            Ok((g0, l)) => {
                let g3 = put(put(put(g0, OpV::Block), OpV::Block), OpV::Block);
                let (yes, no, merge) = (here(g0), here(put(g0, OpV::Block)), here(put(put(g0, OpV::Block), OpV::Block)));
                let g4 = put(g3, OpV::BlockParam(merge, Width::I8));
                let first = into_block(put(g4, OpV::Branch(l, yes, no)), yes);
                match side_made(env, first, *rhs, op is And, 1) {
                    Err(_) => None,
                    Ok((g6, a)) => match side_made(env, into_block(jumped(g6, merge, a), no), *rhs, op is Or, 0) {
                        Err(_) => None,
                        Ok((g7, b)) => Some(
                            Branches {
                                asked: g0,
                                cond: l,
                                first,
                                first_end: g6,
                                first_value: Some(a),
                                first_out: jumped(g6, merge, a),
                                second: into_block(jumped(g6, merge, a), no),
                                second_end: g7,
                                second_value: Some(b),
                                second_out: jumped(g7, merge, b),
                                end: into_block(jumped(g7, merge, b), merge),
                            },
                        ),
                    },
                }
            },
        },
        _ => None,
    }
}

#[verifier::spinoff_prover]
pub(crate) proof fn sides_are_laid_out(env: Env, g: Gen, e: HirExpr)
    requires
        is_plain(e),
        e.kind is Logical,
    ensures
        made(env, g, e) matches Ok((g1, r)) ==> {
            &&& sides(env, g, e) matches Some(b) && {
                &&& b.end == g1
                &&& r == Some((b.asked.ops.len() + 3) as usize)
                &&& g.ops.len() <= b.asked.ops.len()
                &&& b.asked.ops.len() + 7 == b.first.ops.len()
                &&& b.first.ops.len() <= b.first_end.ops.len() <= b.first_out.ops.len()
                &&& b.first_out.ops.len() + 2 == b.second.ops.len()
                &&& b.second.ops.len() <= b.second_end.ops.len() <= b.second_out.ops.len()
                &&& b.second_out.ops.len() + 2 == g1.ops.len()
            }
        },
{
    assert(made(env, g, e) == made_logical(env, g, e));
    match e.kind {
        HirExprKind::Logical { op, lhs, rhs } => {
            expr_goes_on(env, g, *lhs);
            match sides(env, g, e) {
                Some(b) => {
                    expr_goes_on(env, b.first, *rhs);
                    expr_goes_on(env, b.second, *rhs);
                },
                None => {},
            }
        },
        _ => {},
    }
}

#[verifier::spinoff_prover]
pub(crate) proof fn logical_adds(env: Env, g: Gen, e: HirExpr)
    requires
        is_plain(e),
        !g.filled,
        e.kind is Logical,
    ensures
        adds_value(g, made(env, g, e)),
        made(env, g, e) matches Ok((g1, _)) ==> (g1.ops.len() <= usize::MAX ==> {
            let b = sides(env, g, e)->0;
            &&& adds(g, b.asked) && !b.asked.filled && b.cond < b.asked.ops.len()
            &&& adds(g, b.first) && !b.first.filled
            &&& adds(b.first, b.first_end) && !b.first_end.filled
            &&& b.first_value matches Some(x) && x < b.first_end.ops.len()
            &&& adds(g, b.first_out)
            &&& adds(g, b.second) && !b.second.filled
            &&& adds(b.second, b.second_end) && !b.second_end.filled
            &&& b.second_value matches Some(x) && x < b.second_end.ops.len()
            &&& adds(g, b.second_out)
        }),
    decreases e, 1nat,
{
    sides_are_laid_out(env, g, e);
    match (e.kind, made(env, g, e)) {
        (HirExprKind::Logical { op, lhs, rhs }, Ok((g1, r))) => if g1.ops.len() <= usize::MAX {
            let b = sides(env, g, e)->0;
            plain_adds(env, g, *lhs);
            let g0 = b.asked;
            let g3 = three_blocks(g0);
            let (yes, no, merge) = (here(g0), (g0.ops.len() + 1) as usize, (g0.ops.len() + 2) as usize);
            three_blocks_add(g0);
            adding_on(g, g0, g3);
            let param = OpV::BlockParam(merge, Width::I8);
            adding_one(g, g3, param);
            let g4 = put(g3, param);
            let branch = OpV::Branch(b.cond, yes, no);
            adding_one(g, g4, branch);
            entering_adds(g, put(g4, branch), yes);
            assert(b.first == into_block(put(g4, branch), yes));
            side_adds(env, b.first, *rhs, op is And, 1);
            adding_on(g, b.first, b.first_end);
            assert(b.first_out == put(b.first_end, b.first_out.ops.last()));
            adding_one(g, b.first_end, b.first_out.ops.last());
            entering_adds(g, b.first_out, no);
            side_adds(env, b.second, *rhs, op is Or, 0);
            adding_on(g, b.second, b.second_end);
            assert(b.second_out == put(b.second_end, b.second_out.ops.last()));
            adding_one(g, b.second_end, b.second_out.ops.last());
            entering_adds(g, b.second_out, merge);
        },
        _ => {},
    }
}

/// The code of a loop: its header, the condition, the body and the way out.
pub struct Rounds {
    /// In the header, before and after the condition, with its value.
    pub top: Gen,
    pub asked: Gen,
    pub cond: usize,
    /// Before and after the body.
    pub inside: Gen,
    pub inside_end: Gen,
    pub end: Gen,
}

pub open spec fn rounds_of(env: Env, g: Gen, e: HirExpr) -> Option<Rounds> {
    match e.kind {
        HirExprKind::While { cond, body } => {
            let g3 = put(put(put(g, OpV::Block), OpV::Block), OpV::Block);
            let (header, inside, exit) = (here(g), here(put(g, OpV::Block)), here(put(put(g, OpV::Block), OpV::Block)));
            let top = put(put(g3, OpV::Jump(header, seq![])), OpV::Switch(header));
            match value_made(env, top, *cond, "while condition produced no value"@) {
                Err(_) => None,
                Ok((g5, c)) => {
                    let start = in_loop(into_block(put(g5, OpV::Branch(c, inside, exit)), inside), exit);
                    match made_block(env, start, body) {
                        Err(_) => None,
                        Ok((g7, _)) => {
                            let g8 = if g7.filled {
                                g7
                            } else {
                                put(g7, OpV::Jump(header, seq![]))
                            };
                            Some(
                                Rounds {
                                    top,
                                    asked: g5,
                                    cond: c,
                                    inside: start,
                                    inside_end: g7,
                                    end: loop_closed(g8, header, exit),
                                },
                            )
                        },
                    }
                },
            }
        },
        _ => None,
    }
}

#[verifier::spinoff_prover]
pub(crate) proof fn rounds_are_laid_out(env: Env, g: Gen, e: HirExpr)
    requires
        is_plain(e),
        e.kind is While,
    ensures
        made(env, g, e) matches Ok((g1, r)) ==> {
            &&& r is None
            &&& rounds_of(env, g, e) matches Some(b) && {
                &&& b.end == g1
                &&& g.ops.len() + 5 == b.top.ops.len()
                &&& b.top.ops.len() <= b.asked.ops.len()
                &&& b.asked.ops.len() + 3 == b.inside.ops.len()
                &&& b.inside.ops.len() <= b.inside_end.ops.len()
                &&& b.inside_end.ops.len() + 3 <= g1.ops.len() <= b.inside_end.ops.len() + 4
            }
        },
{
    assert(made(env, g, e) == made_while(env, g, e));
    match e.kind {
        HirExprKind::While { cond, body } => {
            match rounds_of(env, g, e) {
                Some(b) => {
                    expr_goes_on(env, b.top, *cond);
                    block_goes_on(env, b.inside, body);
                },
                None => {},
            }
        },
        _ => {},
    }
}

#[verifier::spinoff_prover]
pub(crate) proof fn while_adds(env: Env, g: Gen, e: HirExpr)
    requires
        is_plain(e),
        !g.filled,
        e.kind is While,
    ensures
        adds_value(g, made(env, g, e)),
        made(env, g, e) matches Ok((g1, _)) ==> (g1.ops.len() <= usize::MAX ==> {
            let b = rounds_of(env, g, e)->0;
            &&& adds(g, b.top) && !b.top.filled
            &&& adds(b.top, b.asked) && !b.asked.filled && b.cond < b.asked.ops.len()
            &&& adds(g, b.inside) && !b.inside.filled
            &&& adds(b.inside, b.inside_end) && !b.inside_end.filled
            &&& adds(g, put(b.inside_end, OpV::Jump(here(g), seq![])))
        }),
    decreases e, 1nat,
{
    rounds_are_laid_out(env, g, e);
    match (e.kind, made(env, g, e)) {
        (HirExprKind::While { cond, body }, Ok((g1, r))) => if g1.ops.len() <= usize::MAX {
            let b = rounds_of(env, g, e)->0;
            let g3 = three_blocks(g);
            let (header, inside, exit) = (here(g), (g.ops.len() + 1) as usize, (g.ops.len() + 2) as usize);
            three_blocks_add(g);
            let jump = OpV::Jump(header, seq![]);
            adding_one(g, g3, jump);
            adding_one(g, put(g3, jump), OpV::Switch(header));
            plain_adds(env, b.top, *cond);
            adding_on(g, b.top, b.asked);
            let branch = OpV::Branch(b.cond, inside, exit);
            adding_one(g, b.asked, branch);
            entering_adds(g, put(b.asked, branch), inside);
            assert(adds(g, b.inside));
            block_adds(env, b.inside, body);
            adding_on(g, b.inside, b.inside_end);
            adding_one(g, b.inside_end, jump);
            let g8 = put(b.inside_end, jump);
            let popped = Gen { loops: g8.loops.drop_last(), ..g8 };
            assert(adds(g, popped));
            adding_one(g, popped, OpV::Seal(header));
            entering_adds(g, put(popped, OpV::Seal(header)), exit);
            block_goes_on(env, b.inside, body);
            expr_goes_on(env, b.top, *cond);
        },
        _ => {},
    }
}

// ---- runs ----

/// Whether a run gets from one place to another.
pub open spec fn reaches(ops: Seq<OpV>, m: Machine, m2: Machine) -> bool {
    exists|n: nat| #[trigger] running(ops, m, n) == Some(m2)
}

pub(crate) proof fn running_on(ops: Seq<OpV>, m: Machine, a: nat, b: nat)
    requires
        running(ops, m, a) is Some,
    ensures
        running(ops, m, a + b) == running(ops, running(ops, m, a)->0, b),
    decreases a,
{
    if a > 0 {
        running_on(ops, stepping(ops, m)->0, (a - 1) as nat, b);
    }
}

pub(crate) proof fn reaching_on(ops: Seq<OpV>, a: Machine, b: Machine, c: Machine)
    requires
        reaches(ops, a, b),
        reaches(ops, b, c),
    ensures
        reaches(ops, a, c),
{
    let n = choose|n: nat| #[trigger] running(ops, a, n) == Some(b);
    let k = choose|k: nat| #[trigger] running(ops, b, k) == Some(c);
    running_on(ops, a, n, k);
    assert(running(ops, a, n + k) == Some(c));
}

pub(crate) proof fn one_step(ops: Seq<OpV>, m: Machine)
    requires
        stepping(ops, m) is Some,
    ensures
        reaches(ops, m, stepping(ops, m)->0),
{
    assert(running(ops, stepping(ops, m)->0, 0) == Some(stepping(ops, m)->0));
    assert(running(ops, m, 1) == Some(stepping(ops, m)->0));
}

pub(crate) proof fn no_step(ops: Seq<OpV>, m: Machine)
    ensures
        reaches(ops, m, m),
{
    assert(running(ops, m, 0) == Some(m));
}

/// Whether code stands at the beginning of other code.
pub open spec fn begins(g: Gen, ops: Seq<OpV>) -> bool {
    &&& g.ops.len() <= ops.len() <= usize::MAX
    &&& forall|i: int| 0 <= i < g.ops.len() ==> #[trigger] ops[i] == g.ops[i]
}

/// The blocks that code begins are among its own operations.
pub open spec fn blocks_inside(g: Gen) -> bool {
    forall|i: int|
        0 <= i < g.ops.len() ==> (block_named(#[trigger] g.ops[i]) matches Some(k) ==> k < g.ops.len())
}

pub(crate) proof fn blocks_stay_inside(a: Gen, b: Gen)
    requires
        blocks_inside(a),
        adds(a, b),
    ensures
        blocks_inside(b),
{
    assert forall|i: int| 0 <= i < b.ops.len() implies (block_named(#[trigger] b.ops[i]) matches Some(k) ==> k
        < b.ops.len()) by {
        if i < a.ops.len() {
            assert(b.ops[i] == a.ops[i]);
        }
    }
}

/// The bits of a value fit its width.
pub open spec fn is_word(v: Word) -> bool {
    is_whole(v.width) && pattern(v.width, v.bits) == v.bits
}

/// Each local's variable holds what the local holds, and no two locals share
/// one.
pub open spec fn agrees_with(vars: Map<SymbolId, usize>, held: Map<usize, Word>, st: Store) -> bool {
    &&& forall|s: SymbolId| #[trigger]
        st.contains_key(s) ==> vars.contains_key(s) && held.contains_key(vars[s]) && held[vars[s]] == st[s] && is_word(
            st[s],
        )
    &&& forall|s: SymbolId, t: SymbolId| #[trigger]
        st.contains_key(s) && #[trigger] st.contains_key(t) && s != t ==> vars[s] != vars[t]
}

/// Where a run stands before the code of an expression.
pub open spec fn stands_before(ops: Seq<OpV>, g: Gen, m: Machine, st: Store) -> bool {
    &&& !g.filled
    &&& m.at == g.ops.len()
    &&& blocks_inside(g)
    &&& agrees_with(g.vars, m.held, st)
}

/// What earlier operations made is still there.
pub open spec fn keeps_made(a: Machine, b: Machine, n: nat) -> bool {
    forall|i: usize|
        #![trigger a.made.contains_key(i)]
        #![trigger b.made.contains_key(i)]
        i < n && a.made.contains_key(i) ==> b.made.contains_key(i) && b.made[i] == a.made[i]
}

/// Where a run stands after the code of an expression: behind it, with the
/// locals and the value that the expression means.
pub open spec fn stands_after(
    ops: Seq<OpV>,
    g: Gen,
    m: Machine,
    g1: Gen,
    m2: Machine,
    st: Store,
    r: Option<usize>,
    v: Option<Word>,
) -> bool {
    &&& reaches(ops, m, m2)
    &&& m2.at == g1.ops.len()
    &&& agrees_with(g1.vars, m2.held, st)
    &&& keeps_made(m, m2, g.ops.len())
    &&& v matches Some(w) ==> (is_word(w) && (r matches Some(x) && m2.made.contains_key(x) && m2.made[x] == w))
}

pub(crate) proof fn words_are_words(w: Width, n: int)
    requires
        is_whole(w),
    ensures
        is_word(word_of(w, n)),
{
    patterns_are_patterns(w, n);
}

} // verus!
