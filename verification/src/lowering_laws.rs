//! What lowering keeps of a program, and what an accepted match covers.

use vstd::prelude::*;

use crate::ast::{BinOp, Expr, Lit, MatchArm, Pattern};
use crate::code::Width;
use crate::facts::Facts;
use crate::hir::HirKindV;
use crate::lower::{Ctx, hir_binop, lowered_block, lowered_expr, lowered_kind};
use crate::machine::{
    bits_of, both_bits, differing_bits, either_bits, means, pattern, quotient, truth, two_to,
};
use crate::resolver::{Resolutions, SymbolKind};
use crate::soundness_laws::arms_covering_add;
use crate::token::Span;
use crate::ty::{SymbolId, TyV};
use crate::typing::{
    CoverV, arms_covered, exhausts, missing_variants, pattern_covered, patterns_covered,
    sym_kind, variant_at,
};

verus! {

// ---- operators ----

/// What an operator of the language gives on two integers, whose bits are those
/// of a width.
pub open spec fn gives(op: BinOp, w: Width, a: int, b: int) -> Option<int> {
    match op {
        BinOp::Add => Some(a + b),
        BinOp::Sub => Some(a - b),
        BinOp::Mul => Some(a * b),
        BinOp::Div => if b == 0 {
            None
        } else {
            Some(quotient(a, b))
        },
        BinOp::Mod => if b == 0 {
            None
        } else {
            Some(a - b * quotient(a, b))
        },
        BinOp::Eq => Some(truth(a == b)),
        BinOp::Ne => Some(truth(!(a == b))),
        BinOp::Lt => Some(truth(a < b)),
        BinOp::Gt => Some(truth(b < a)),
        BinOp::Le => Some(truth(!(b < a))),
        BinOp::Ge => Some(truth(!(a < b))),
        BinOp::BitAnd => Some(both_bits(pattern(w, a), pattern(w, b))),
        BinOp::BitOr => Some(either_bits(pattern(w, a), pattern(w, b))),
        BinOp::BitXor => Some(differing_bits(pattern(w, a), pattern(w, b))),
        BinOp::Shl => Some(a * two_to((b % bits_of(w) as int) as nat)),
        BinOp::Shr => Some(a / two_to((b % bits_of(w) as int) as nat)),
        BinOp::And | BinOp::Or => None,
    }
}

/// An operator means the same after lowering.
pub proof fn operators_keep_their_meaning(op: BinOp, w: Width, a: int, b: int)
    requires
        !(op is And) && !(op is Or),
    ensures
        means(hir_binop(op), w, a, b) == gives(op, w, a, b),
{
}

/// A lowered operator has the lowered operands in their places: the left one is
/// lowered first, and `&&` and `||` stay what they are.
pub proof fn operands_keep_their_places(cx: Ctx<'_, '_>, op: BinOp, l: Expr, r: Expr, span: Span, n: u32)
    ensures
        ({
            let e = Expr::Binary { op, lhs: Box::new(l), rhs: Box::new(r), span };
            let (first, n1) = lowered_expr(cx, l, n);
            let (second, n2) = lowered_expr(cx, r, n1);
            let (kind, end) = lowered_kind(cx, e, n);
            &&& end == n2
            &&& match kind {
                HirKindV::Binary { op: o, lhs, rhs } => {
                    &&& !(op is And) && !(op is Or)
                    &&& *lhs == first && *rhs == second
                    &&& forall|w: Width, a: int, b: int| #[trigger] means(o, w, a, b) == gives(op, w, a, b)
                },
                HirKindV::Logical { op: o, lhs, rhs } => {
                    &&& *lhs == first && *rhs == second
                    &&& (op is And && o is And) || (op is Or && o is Or)
                },
                _ => false,
            }
        }),
{
    if !(op is And) && !(op is Or) {
        assert forall|w: Width, a: int, b: int| #[trigger]
            means(hir_binop(op), w, a, b) == gives(op, w, a, b) by {
            operators_keep_their_meaning(op, w, a, b);
        }
    }
}

/// A lowered branch or loop has its lowered parts in their places.
pub proof fn branches_keep_their_places(cx: Ctx<'_, '_>, e: Expr, n: u32)
    ensures
        e matches Expr::If { cond, then_branch, else_branch, .. } ==> {
            let (c, n1) = lowered_expr(cx, *cond, n);
            let (t, n2) = lowered_block(cx, then_branch, n1);
            lowered_kind(cx, e, n).0 matches HirKindV::If { cond: a, then_b, else_b } && *a == c && then_b == t
                && match else_branch {
                Some(x) => else_b matches Some(y) && *y == lowered_expr(cx, *x, n2).0,
                None => else_b is None,
            }
        },
        e matches Expr::While { cond, body, .. } ==> {
            let (c, n1) = lowered_expr(cx, *cond, n);
            lowered_kind(cx, e, n).0 matches HirKindV::While { cond: a, body: b } && *a == c && b == lowered_block(
                cx,
                body,
                n1,
            ).0
        },
        e matches Expr::Return { value, .. } ==> (lowered_kind(cx, e, n).0 matches HirKindV::Return(v) && match value {
            Some(x) => v matches Some(y) && *y == lowered_expr(cx, *x, n).0,
            None => v is None,
        }),
        e matches Expr::Unary { op, expr, .. } ==> (lowered_kind(cx, e, n).0 matches HirKindV::Unary { op: o, expr: x }
            && *x == lowered_expr(cx, *expr, n).0 && (op is Neg <==> o is Neg) && (op is Not <==> o is Not)),
{
}

// ---- matches ----

/// Whether a pattern takes every value.
pub open spec fn takes_all(p: Pattern) -> bool
    decreases p,
{
    match p {
        Pattern::Wildcard(_) | Pattern::Ident { .. } => true,
        Pattern::Or { patterns, .. } => some_takes_all(patterns@),
        _ => false,
    }
}

pub open spec fn some_takes_all(ps: Seq<Pattern>) -> bool
    decreases ps,
{
    exists|i: int| 0 <= i < ps.len() && takes_all(#[trigger] ps[i])
}

/// Whether a pattern takes the values of a variant.
pub open spec fn takes_variant(res: Resolutions<'_>, p: Pattern, d: u32) -> bool
    decreases p,
{
    match p {
        Pattern::Wildcard(_) | Pattern::Ident { .. } => true,
        Pattern::Path { path, .. } => variant_at(res, path) == Some(d),
        Pattern::TupleVariant { path, .. } => variant_at(res, path) == Some(d),
        Pattern::NamedVariant { path, .. } => variant_at(res, path) == Some(d),
        Pattern::Or { patterns, .. } => some_takes_variant(res, patterns@, d),
        _ => false,
    }
}

pub open spec fn some_takes_variant(res: Resolutions<'_>, ps: Seq<Pattern>, d: u32) -> bool
    decreases ps,
{
    exists|i: int| 0 <= i < ps.len() && takes_variant(res, #[trigger] ps[i], d)
}

/// Whether a pattern takes a truth value.
pub open spec fn takes_bool(p: Pattern, b: bool) -> bool
    decreases p,
{
    match p {
        Pattern::Wildcard(_) | Pattern::Ident { .. } => true,
        Pattern::Literal { lit, .. } => lit matches Lit::Bool(x) && x == b,
        Pattern::Or { patterns, .. } => some_takes_bool(patterns@, b),
        _ => false,
    }
}

pub open spec fn some_takes_bool(ps: Seq<Pattern>, b: bool) -> bool
    decreases ps,
{
    exists|i: int| 0 <= i < ps.len() && takes_bool(#[trigger] ps[i], b)
}

/// What a pattern adds to what is covered, it takes.
spec fn covers_from(res: Resolutions<'_>, before: CoverV, after: CoverV, all: bool, d: u32, b: bool, v: bool, t: bool) -> bool {
    &&& after.all && !before.all ==> all
    &&& after.variants.contains(d) && !before.variants.contains(d) ==> v
    &&& after.bools.contains(b) && !before.bools.contains(b) ==> t
}

proof fn pattern_covers_from(res: Resolutions<'_>, f: Facts, c: CoverV, p: Pattern, d: u32, b: bool)
    ensures
        covers_from(
            res,
            c,
            pattern_covered(res, f, c, p).1,
            takes_all(p),
            d,
            b,
            takes_variant(res, p, d),
            takes_bool(p, b),
        ),
    decreases p, 1nat,
{
    let c1 = pattern_covered(res, f, c, p).1;
    match p {
        Pattern::Or { patterns, .. } => patterns_cover_from(res, f, c, patterns@, patterns@.len(), d, b),
        Pattern::Literal { lit, .. } => match lit {
            Lit::Bool(x) => if c1.bools.contains(b) && !c.bools.contains(b) {
                let i = choose|i: int| 0 <= i < c1.bools.len() && c1.bools[i] == b;
                assert(i == c.bools.len()) by {
                    if i < c.bools.len() {
                        assert(c.bools[i] == b);
                    }
                }
            },
            _ => {},
        },
        _ => {
            if c1.variants.contains(d) && !c.variants.contains(d) {
                let i = choose|i: int| 0 <= i < c1.variants.len() && c1.variants[i] == d;
                assert(i == c.variants.len()) by {
                    if i < c.variants.len() {
                        assert(c.variants[i] == d);
                    }
                }
            }
        },
    }
}

proof fn patterns_cover_from(res: Resolutions<'_>, f: Facts, c: CoverV, ps: Seq<Pattern>, k: nat, d: u32, b: bool)
    requires
        k <= ps.len(),
    ensures
        covers_from(
            res,
            c,
            patterns_covered(res, f, c, ps, k).1,
            some_takes_all(ps),
            d,
            b,
            some_takes_variant(res, ps, d),
            some_takes_bool(ps, b),
        ),
    decreases ps, k,
{
    if k > 0 {
        patterns_cover_from(res, f, c, ps, (k - 1) as nat, d, b);
        let (f1, c1) = patterns_covered(res, f, c, ps, (k - 1) as nat);
        pattern_covers_from(res, f1, c1, ps[k - 1], d, b);
        assert(takes_all(ps[k - 1]) ==> some_takes_all(ps));
        assert(takes_variant(res, ps[k - 1], d) ==> some_takes_variant(res, ps, d));
        assert(takes_bool(ps[k - 1], b) ==> some_takes_bool(ps, b));
    }
}

proof fn all_is_every(res: Resolutions<'_>, p: Pattern, d: u32, b: bool)
    requires
        takes_all(p),
    ensures
        takes_variant(res, p, d),
        takes_bool(p, b),
    decreases p,
{
    match p {
        Pattern::Or { patterns, .. } => {
            assert(some_takes_all(patterns@));
            let i = choose|i: int| 0 <= i < patterns@.len() && takes_all(#[trigger] patterns@[i]);
            all_is_every(res, patterns@[i], d, b);
            assert(some_takes_variant(res, patterns@, d));
            assert(some_takes_bool(patterns@, b));
        },
        _ => {},
    }
}

/// An arm without a guard that takes the values of a variant.
pub open spec fn an_arm_takes_variant(res: Resolutions<'_>, arms: Seq<MatchArm>, d: u32) -> bool {
    exists|i: int| 0 <= i < arms.len() && (#[trigger] arms[i]).guard is None && takes_variant(res, arms[i].pat, d)
}

pub open spec fn an_arm_takes_bool(arms: Seq<MatchArm>, b: bool) -> bool {
    exists|i: int| 0 <= i < arms.len() && (#[trigger] arms[i]).guard is None && takes_bool(arms[i].pat, b)
}

pub open spec fn an_arm_takes_all(arms: Seq<MatchArm>) -> bool {
    exists|i: int| 0 <= i < arms.len() && (#[trigger] arms[i]).guard is None && takes_all(arms[i].pat)
}

proof fn arms_cover_from(res: Resolutions<'_>, f: Facts, arms: Seq<MatchArm>, k: nat, d: u32, b: bool)
    requires
        k <= arms.len(),
    ensures
        ({
            let c = arms_covered(res, f, arms, k).1;
            &&& c.all ==> an_arm_takes_all(arms)
            &&& c.variants.contains(d) ==> an_arm_takes_variant(res, arms, d)
            &&& c.bools.contains(b) ==> an_arm_takes_bool(arms, b)
        }),
    decreases k,
{
    if k > 0 {
        arms_cover_from(res, f, arms, (k - 1) as nat, d, b);
        let (f1, c) = arms_covered(res, f, arms, (k - 1) as nat);
        pattern_covers_from(res, f1, c, arms[k - 1].pat, d, b);
    }
}

proof fn missing_none(res: Resolutions<'_>, c: CoverV, vs: Seq<(String, SymbolId)>, k: nat, i: int, d: u32)
    requires
        missing_variants(res, c, vs, k).len() == 0,
        0 <= i < k <= vs.len(),
        sym_kind(res, vs[i].1) matches Some(SymbolKind::EnumVariant { discriminant, .. }) && discriminant == d,
    ensures
        c.variants.contains(d),
    decreases k,
{
    if i < k - 1 {
        missing_none(res, c, vs, (k - 1) as nat, i, d);
    }
}

/// A match that is accepted covers what it is on: on an enum each variant has an
/// arm without a guard that takes it, on a truth value each of the two has, and
/// on any other type one arm takes everything.
pub proof fn accepted_matches_cover_their_type(
    res: Resolutions<'_>,
    f: Facts,
    t: TyV,
    arms: Seq<MatchArm>,
    span: Span,
    i: int,
    d: u32,
    b: bool,
)
    requires
        exhausts(res, f, t, arms, span).errors.len() == f.errors.len(),
        !(t is Error),
    ensures
        t is Bool ==> an_arm_takes_bool(arms, b),
        t matches TyV::Enum(e, _) ==> (res.enum_variants@.contains_key(e) && 0 <= i
            < res.enum_variants@[e].items().len() && (sym_kind(res, res.enum_variants@[e].items()[i].1) matches Some(
            SymbolKind::EnumVariant { discriminant, .. },
        ) && discriminant == d) ==> an_arm_takes_variant(res, arms, d)),
        !(t is Bool) && !(t is Enum) ==> an_arm_takes_all(arms),
{
    let (f1, c) = arms_covered(res, f, arms, arms.len());
    arms_covering_add(res, f, arms, arms.len());
    arms_cover_from(res, f, arms, arms.len(), d, b);
    if c.all {
        let j = choose|j: int| 0 <= j < arms.len() && (#[trigger] arms[j]).guard is None && takes_all(arms[j].pat);
        all_is_every(res, arms[j].pat, d, b);
    } else {
        match t {
            TyV::Enum(e, _) => if res.enum_variants@.contains_key(e) {
                let vs = res.enum_variants@[e].items();
                if 0 <= i < vs.len() && (sym_kind(res, vs[i].1) matches Some(
                    SymbolKind::EnumVariant { discriminant, .. },
                ) && discriminant == d) {
                    missing_none(res, c, vs, vs.len(), i, d);
                }
            },
            _ => {},
        }
    }
}

} // verus!
