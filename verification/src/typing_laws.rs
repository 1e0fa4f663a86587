//! What holds of every struct layout and of every match that is checked.

use vstd::prelude::*;

use crate::ast::{Field, Lit, MatchArm, Pattern, pattern_span};
use crate::facts::{Facts, erring};
use crate::resolver::{Resolutions, SymbolKind};
use crate::token::Span;
use crate::ty::{SymbolId, TyV};
use crate::typing::{
    CoverV, arms_covered, exhausts, laid_out, missing_variants, pattern_covered,
    patterns_covered, sym_kind, variant_at, variant_covered,
};

verus! {

/// The fields of a struct stand one after the other in the order they are
/// declared, each at the next multiple of eight, and the struct's size is
/// eight bytes for each.
pub proof fn fields_take_words(res: Resolutions<'_>, f: Facts, fields: Seq<Field>, k: nat)
    requires
        k <= fields.len(),
        k < 0x1000_0000,
    ensures
        laid_out(res, f, fields, k).1.size == 8 * k,
        laid_out(res, f, fields, k).1.fields.len() == k,
        forall|i: int|
            0 <= i < k ==> (#[trigger] laid_out(res, f, fields, k).1.fields[i]).2 == 8 * i && laid_out(
                res,
                f,
                fields,
                k,
            ).1.fields[i].0 == fields[i].name.name@,
    decreases k,
{
    if k > 0 {
        fields_take_words(res, f, fields, (k - 1) as nat);
    }
}

/// What was covered stays covered.
pub open spec fn covers_as_much(a: CoverV, b: CoverV) -> bool {
    &&& a.all ==> b.all
    &&& forall|x: bool| a.bools.contains(x) ==> b.bools.contains(x)
    &&& forall|d: u32| a.variants.contains(d) ==> b.variants.contains(d)
}

proof fn pushing_keeps<T>(s: Seq<T>, x: T)
    ensures
        forall|y: T| s.contains(y) ==> s.push(x).contains(y),
        s.push(x).contains(x),
{
    assert forall|y: T| s.contains(y) implies s.push(x).contains(y) by {
        let i = choose|i: int| 0 <= i < s.len() && s[i] == y;
        assert(s.push(x)[i] == y);
    }
    assert(s.push(x)[s.len() as int] == x);
}

proof fn pattern_adds(res: Resolutions<'_>, f: Facts, c: CoverV, p: Pattern)
    ensures
        covers_as_much(c, pattern_covered(res, f, c, p).1),
    decreases p, 1nat,
{
    match p {
        Pattern::Literal { lit, span } => {
            match lit {
                Lit::Bool(b) => pushing_keeps(c.bools, b),
                _ => {},
            }
        },
        Pattern::Path { path, span } => variant_adds(f, c, variant_at(res, path), span),
        Pattern::TupleVariant { path, span, .. } => variant_adds(f, c, variant_at(res, path), span),
        Pattern::NamedVariant { path, span, .. } => variant_adds(f, c, variant_at(res, path), span),
        Pattern::Or { patterns, .. } => patterns_add(res, f, c, patterns@, patterns@.len()),
        _ => {},
    }
}

proof fn variant_adds(f: Facts, c: CoverV, d: Option<u32>, span: Span)
    ensures
        covers_as_much(c, variant_covered(f, c, d, span).1),
        d matches Some(d) ==> variant_covered(f, c, Some(d), span).1.variants.contains(d),
{
    match d {
        Some(d) => pushing_keeps(c.variants, d),
        None => {},
    }
}

proof fn patterns_add(res: Resolutions<'_>, f: Facts, c: CoverV, ps: Seq<Pattern>, k: nat)
    ensures
        covers_as_much(c, patterns_covered(res, f, c, ps, k).1),
    decreases ps, k,
{
    if k > 0 && k <= ps.len() {
        patterns_add(res, f, c, ps, (k - 1) as nat);
        let (f1, c1) = patterns_covered(res, f, c, ps, (k - 1) as nat);
        pattern_adds(res, f1, c1, ps[k - 1]);
    }
}

proof fn arms_add(res: Resolutions<'_>, f: Facts, arms: Seq<MatchArm>, j: nat, k: nat)
    requires
        j <= k <= arms.len(),
    ensures
        covers_as_much(arms_covered(res, f, arms, j).1, arms_covered(res, f, arms, k).1),
    decreases k,
{
    if j < k {
        arms_add(res, f, arms, j, (k - 1) as nat);
        let (f1, c1) = arms_covered(res, f, arms, (k - 1) as nat);
        pattern_adds(res, f1, c1, arms[k - 1].pat);
    }
}

/// A match with an arm that takes anything, and has no guard, covers every
/// type: what is reported of it is at most that some arms are unreachable.
pub proof fn a_catch_all_arm_suffices(
    res: Resolutions<'_>,
    f: Facts,
    t: TyV,
    arms: Seq<MatchArm>,
    span: Span,
    k: int,
)
    requires
        0 <= k < arms.len(),
        arms[k].guard is None,
        arms[k].pat is Wildcard || arms[k].pat is Ident,
        !(t is Error),
    ensures
        exhausts(res, f, t, arms, span) == arms_covered(res, f, arms, arms.len()).0,
{
    assert(arms_covered(res, f, arms, (k + 1) as nat).1.all);
    arms_add(res, f, arms, (k + 1) as nat, arms.len());
}

/// Every arm after one that takes anything is reported as unreachable.
pub proof fn arms_after_a_catch_all_are_unreachable(
    res: Resolutions<'_>,
    f: Facts,
    arms: Seq<MatchArm>,
    k: int,
    j: int,
)
    requires
        0 <= k < j < arms.len(),
        arms[k].guard is None,
        arms[k].pat is Wildcard || arms[k].pat is Ident,
    ensures
        arms_covered(res, f, arms, (j + 1) as nat).0 == erring(
            arms_covered(res, f, arms, j as nat).0,
            pattern_span(arms[j].pat),
            "unreachable match arm — an earlier arm covers everything"@,
        ),
{
    assert(arms_covered(res, f, arms, (k + 1) as nat).1.all);
    arms_add(res, f, arms, (k + 1) as nat, j as nat);
}

/// An arm without a guard covers the variant that its pattern names.
proof fn naming_covers(res: Resolutions<'_>, f: Facts, arms: Seq<MatchArm>, k: int, d: u32)
    requires
        0 <= k < arms.len(),
        arms[k].guard is None,
        names_variant(res, arms[k].pat, d),
        !arms_covered(res, f, arms, k as nat).1.all,
    ensures
        arms_covered(res, f, arms, (k + 1) as nat).1.variants.contains(d),
{
    let (f1, c) = arms_covered(res, f, arms, k as nat);
    match arms[k].pat {
        Pattern::Path { path, span } => variant_adds(f1, c, variant_at(res, path), span),
        Pattern::TupleVariant { path, span, .. } => variant_adds(f1, c, variant_at(res, path), span),
        Pattern::NamedVariant { path, span, .. } => variant_adds(f1, c, variant_at(res, path), span),
        _ => {},
    }
}

/// A pattern that is a variant, with or without its payload.
pub open spec fn names_variant(res: Resolutions<'_>, p: Pattern, d: u32) -> bool {
    match p {
        Pattern::Path { path, .. } => variant_at(res, path) == Some(d),
        Pattern::TupleVariant { path, .. } => variant_at(res, path) == Some(d),
        Pattern::NamedVariant { path, .. } => variant_at(res, path) == Some(d),
        _ => false,
    }
}

proof fn none_missing(res: Resolutions<'_>, c: CoverV, vs: Seq<(String, SymbolId)>, k: nat)
    requires
        forall|i: int|
            0 <= i < vs.len() ==> ((#[trigger] sym_kind(res, vs[i].1)) matches Some(
                SymbolKind::EnumVariant { discriminant, .. },
            ) ==> c.variants.contains(discriminant)),
    ensures
        missing_variants(res, c, vs, k).len() == 0,
    decreases k,
{
    if k > 0 && k <= vs.len() {
        none_missing(res, c, vs, (k - 1) as nat);
        assert(sym_kind(res, vs[k - 1].1) == sym_kind(res, vs[k - 1].1));
    }
}

/// A match on an enum that has an arm without a guard for every variant
/// covers it.
pub proof fn an_arm_for_each_variant_suffices(
    res: Resolutions<'_>,
    f: Facts,
    e: SymbolId,
    args: Seq<TyV>,
    arms: Seq<MatchArm>,
    span: Span,
)
    requires
        res.enum_variants@.contains_key(e),
        forall|i: int|
            0 <= i < res.enum_variants@[e].items().len() ==> ((#[trigger] sym_kind(
                res,
                res.enum_variants@[e].items()[i].1,
            )) matches Some(SymbolKind::EnumVariant { discriminant, .. }) ==> exists|k: int|
                0 <= k < arms.len() && (#[trigger] arms[k]).guard is None && names_variant(
                    res,
                    arms[k].pat,
                    discriminant,
                )),
    ensures
        exhausts(res, f, TyV::Enum(e, args), arms, span) == arms_covered(res, f, arms, arms.len()).0,
{
    let c = arms_covered(res, f, arms, arms.len()).1;
    let vs = res.enum_variants@[e].items();
    if !c.all {
        assert forall|i: int| 0 <= i < vs.len() implies ((#[trigger] sym_kind(res, vs[i].1)) matches Some(
            SymbolKind::EnumVariant { discriminant, .. },
        ) ==> c.variants.contains(discriminant)) by {
            match sym_kind(res, vs[i].1) {
                Some(SymbolKind::EnumVariant { discriminant, .. }) => {
                    let k = choose|k: int|
                        0 <= k < arms.len() && (#[trigger] arms[k]).guard is None && names_variant(
                            res,
                            arms[k].pat,
                            discriminant,
                        );
                    arms_add(res, f, arms, k as nat, arms.len());
                    naming_covers(res, f, arms, k, discriminant);
                    arms_add(res, f, arms, (k + 1) as nat, arms.len());
                },
                _ => {},
            }
        }
        none_missing(res, c, vs, vs.len());
    }
}

} // verus!
