//! The typing rules: what checking each piece of a program finds.

use vstd::prelude::*;

use crate::ast::{
    AssocTypeBinding, BinOp, Block, ClosureParam, ConstDecl, Expr, Field, FieldInit, FnDecl,
    Ident, ImplBlock, Item, LetStmt, Lit, MatchArm, Module, Param, Path, Pattern, Stmt,
    TraitDecl, TraitMethodSig, Type, UnOp, expr_span, pattern_span, type_span,
};
use crate::facts::{
    Facts, LayoutV, SelfContext, erring, no_facts, returning, with_assoc, with_closure_params,
    with_closure_ret, with_coercion, with_conversion, with_expr, with_layout, with_local,
    with_signature, with_type, within,
};
use crate::graph::{next_of, syms_map, visited};
use crate::lower::PROJECTION_DEPTH;
use crate::monomorphize::zipped;
use crate::names::{segment_names, types_of};
use crate::resolver::{
    Resolutions, SymbolKind, first_sym, fn_named, is_struct_named, is_trait_named,
};
use crate::search::{first_where, least};
use crate::table::{lookup, view_or};
use crate::text::{dec, dec_int, joined, plural, texts};
use crate::token::Span;
use crate::ty::{
    DEFAULT_FLOAT, DEFAULT_INT, IntTy, SymbolId, TyV, compatible, ty_text, ty_views, unified,
};

verus! {

// ---- symbols ----

pub open spec fn sym_name(res: Resolutions<'_>, id: SymbolId) -> Seq<char> {
    if res.knows(id) {
        res.symbols@[id.0 as int].name@
    } else {
        ""@
    }
}

pub open spec fn sym_span(res: Resolutions<'_>, id: SymbolId) -> Span {
    if res.knows(id) {
        res.symbols@[id.0 as int].span
    } else {
        Span { start: 0, end: 0 }
    }
}

pub open spec fn sym_kind(res: Resolutions<'_>, id: SymbolId) -> Option<SymbolKind> {
    if res.knows(id) {
        Some(res.kind(id))
    } else {
        None
    }
}

pub open spec fn is_trait_sym(res: Resolutions<'_>, id: SymbolId) -> bool {
    sym_kind(res, id) matches Some(SymbolKind::Trait)
}

// ---- substitution ----

/// A struct's type parameters bound to type arguments.
pub open spec fn struct_args(res: Resolutions<'_>, s: SymbolId, args: Seq<TyV>) -> Map<SymbolId, TyV> {
    zipped(view_or(res.struct_generics@, s, seq![]), args)
}

/// An enum's type parameters bound to the arguments of a type.
pub open spec fn enum_args(res: Resolutions<'_>, t: TyV) -> Map<SymbolId, TyV> {
    match t {
        TyV::Enum(s, args) => zipped(view_or(res.enum_generics@, s, seq![]), args),
        _ => Map::empty(),
    }
}

/// A type with its variables replaced, `Self` replaced when there is
/// something to replace it by, and each projection on a struct that binds the
/// name replaced by what the struct binds it to, down to `depth` bindings
/// followed one inside the other.
pub open spec fn instantiated(
    res: Resolutions<'_>,
    assoc: Map<(SymbolId, Seq<char>), TyV>,
    m: Map<SymbolId, TyV>,
    self_ty: Option<TyV>,
    t: TyV,
    depth: nat,
) -> TyV
    decreases depth, t,
{
    match t {
        TyV::TypeVar(v) => if m.contains_key(v) {
            m[v]
        } else {
            t
        },
        TyV::SelfType => match self_ty {
            Some(s) => s,
            None => t,
        },
        TyV::Assoc(base, name) => {
            let new_base = instantiated(res, assoc, m, self_ty, *base, depth);
            match new_base {
                TyV::Struct(s, args) => if depth > 0 && assoc.contains_key((s, name)) {
                    let inside = instantiated(
                        res,
                        assoc,
                        struct_args(res, s, args),
                        self_ty,
                        assoc[(s, name)],
                        (depth - 1) as nat,
                    );
                    instantiated(res, assoc, m, self_ty, inside, (depth - 1) as nat)
                } else {
                    TyV::Assoc(Box::new(new_base), name)
                },
                _ => TyV::Assoc(Box::new(new_base), name),
            }
        },
        TyV::Array(e, n) => TyV::Array(Box::new(instantiated(res, assoc, m, self_ty, *e, depth)), n),
        TyV::Vec(e) => TyV::Vec(Box::new(instantiated(res, assoc, m, self_ty, *e, depth))),
        TyV::Fn { params, ret } => TyV::Fn {
            params: all_instantiated(res, assoc, m, self_ty, params, depth),
            ret: Box::new(instantiated(res, assoc, m, self_ty, *ret, depth)),
        },
        TyV::Struct(s, args) => TyV::Struct(s, all_instantiated(res, assoc, m, self_ty, args, depth)),
        TyV::Enum(s, args) => TyV::Enum(s, all_instantiated(res, assoc, m, self_ty, args, depth)),
        TyV::Weak(e) => TyV::Weak(Box::new(instantiated(res, assoc, m, self_ty, *e, depth))),
        _ => t,
    }
}

pub open spec fn all_instantiated(
    res: Resolutions<'_>,
    assoc: Map<(SymbolId, Seq<char>), TyV>,
    m: Map<SymbolId, TyV>,
    self_ty: Option<TyV>,
    ts: Seq<TyV>,
    depth: nat,
) -> Seq<TyV>
    decreases depth, ts,
{
    Seq::new(
        ts.len(),
        |i: int|
            if 0 <= i < ts.len() {
                instantiated(res, assoc, m, self_ty, ts[i], depth)
            } else {
                TyV::Error
            },
    )
}

/// How deep bindings are followed.
pub open spec fn full_depth() -> nat {
    PROJECTION_DEPTH as nat
}

/// A type as seen from a use, with the bindings found so far.
pub open spec fn at(res: Resolutions<'_>, f: Facts, m: Map<SymbolId, TyV>, self_ty: Option<TyV>, t: TyV) -> TyV {
    instantiated(res, f.assoc, m, self_ty, t, full_depth())
}

/// A type with its variables replaced and its projections left alone.
pub open spec fn plain(res: Resolutions<'_>, m: Map<SymbolId, TyV>, t: TyV) -> TyV {
    instantiated(res, Map::empty(), m, None, t, full_depth())
}

/// What matching a declared type against an actual one says of the declared
/// type's variables. A variable met again takes the later type.
pub open spec fn learned(p: TyV, a: TyV, m: Map<SymbolId, TyV>) -> Map<SymbolId, TyV>
    decreases p,
{
    match p {
        TyV::TypeVar(t) => m.insert(t, a),
        TyV::Struct(s, ps) => match a {
            TyV::Struct(s2, xs) => if s == s2 && ps.len() == xs.len() {
                learned_all(ps, xs, ps.len(), m)
            } else {
                m
            },
            _ => m,
        },
        TyV::Enum(s, ps) => match a {
            TyV::Enum(s2, xs) => if s == s2 && ps.len() == xs.len() {
                learned_all(ps, xs, ps.len(), m)
            } else {
                m
            },
            _ => m,
        },
        TyV::Array(pe, _) => match a {
            TyV::Array(ae, _) => learned(*pe, *ae, m),
            _ => m,
        },
        TyV::Vec(pe) => match a {
            TyV::Vec(ae) => learned(*pe, *ae, m),
            _ => m,
        },
        TyV::Fn { params: ps, ret: pr } => match a {
            TyV::Fn { params: xs, ret: ar } => if ps.len() == xs.len() {
                learned(*pr, *ar, learned_all(ps, xs, ps.len(), m))
            } else {
                m
            },
            _ => m,
        },
        _ => m,
    }
}

/// What the first `k` positions of two lists say.
pub open spec fn learned_all(ps: Seq<TyV>, xs: Seq<TyV>, k: nat, m: Map<SymbolId, TyV>) -> Map<SymbolId, TyV>
    decreases ps, k,
{
    if k == 0 || k > ps.len() || k > xs.len() {
        m
    } else {
        learned(ps[k - 1], xs[k - 1], learned_all(ps, xs, (k - 1) as nat, m))
    }
}

/// Type parameters replaced by what was learned; the others stay.
pub open spec fn args_learned(generics: Seq<SymbolId>, m: Map<SymbolId, TyV>) -> Seq<TyV> {
    Seq::new(
        generics.len(),
        |i: int|
            if m.contains_key(generics[i]) {
                m[generics[i]]
            } else {
                TyV::TypeVar(generics[i])
            },
    )
}

// ---- types ----

/// Whether a type fits a vector's eight-byte slot.
pub open spec fn fits_slot(t: TyV) -> bool {
    match t {
        TyV::Int(_) | TyV::Bool | TyV::Char | TyV::Struct(_, _) | TyV::Enum(_, _) | TyV::Vec(_) | TyV::Dyn(_, _)
        | TyV::TypeVar(_) | TyV::Assoc(_, _) | TyV::Error => true,
        _ => false,
    }
}

/// The type a symbol names, given type arguments.
pub open spec fn named_type(res: Resolutions<'_>, f: Facts, s: SymbolId, args: Seq<TyV>, span: Span) -> (Facts, TyV) {
    match sym_kind(res, s) {
        Some(SymbolKind::BuiltinType(t)) => match t@ {
            TyV::Weak(_) => if args.len() != 1 {
                (erring(f, span, "`Weak` requires exactly one type argument"@), TyV::Error)
            } else {
                (f, TyV::Weak(Box::new(args[0])))
            },
            TyV::Vec(_) => if args.len() != 1 {
                (erring(f, span, "`Vec` requires exactly one type argument"@), TyV::Error)
            } else if fits_slot(args[0]) {
                (f, TyV::Vec(Box::new(args[0])))
            } else {
                (
                    erring(
                        f,
                        span,
                        "`Vec<"@ + ty_text(args[0])
                            + ">` is not supported in v0.x — the element type must fit an 8-byte slot (integers, bool, char, structs, enums, trait objects, or a nested Vec; not str, floats, or arrays)"@,
                    ),
                    TyV::Error,
                )
            },
            TyV::HashMap(_, _) => if args.len() == 0 {
                (f, t@)
            } else if args.len() != 2 {
                (erring(f, span, "`HashMap` requires exactly two type arguments"@), TyV::Error)
            } else {
                (f, TyV::HashMap(Box::new(args[0]), Box::new(args[1])))
            },
            other => (f, other),
        },
        Some(SymbolKind::Struct) => (f, TyV::Struct(s, args)),
        Some(SymbolKind::Enum) => (f, TyV::Enum(s, args)),
        Some(SymbolKind::TypeParam) => (f, TyV::TypeVar(s)),
        _ => (erring(f, span, "`"@ + sym_name(res, s) + "` is not a type"@), TyV::Error),
    }
}

/// Whether a trait declares an associated type.
pub open spec fn declares(res: Resolutions<'_>, t: SymbolId, name: Seq<char>) -> bool {
    assoc_of(res, t).contains(name)
}

pub open spec fn assoc_of(res: Resolutions<'_>, t: SymbolId) -> Seq<Seq<char>> {
    if res.trait_assoc_types@.contains_key(t) {
        texts(res.trait_assoc_types@[t]@)
    } else {
        seq![]
    }
}

/// The type of `Self::Name`.
pub open spec fn self_type(res: Resolutions<'_>, f: Facts, p: Path, depth: nat) -> (Facts, TyV)
    decreases depth, p, 0nat,
{
    let name = segment_names(p.segments@)[1];
    let span = p.span;
    match f.current_self {
        Some(SelfContext::Impl(s)) => if res.impl_assoc_bindings@.contains_key((s, name)) {
            if depth == 0 {
                (f, TyV::Error)
            } else {
                typed(res, f, *res.impl_assoc_bindings@[(s, name)], (depth - 1) as nat)
            }
        } else {
            (erring(f, span, "no associated type `"@ + name + "` bound by this impl"@), TyV::Error)
        },
        Some(SelfContext::Trait(t)) => if declares(res, t, name) {
            (f, TyV::Assoc(Box::new(TyV::SelfType), name))
        } else {
            (erring(f, span, "trait declares no associated type `"@ + name + "`"@), TyV::Error)
        },
        None => (erring(f, span, "`Self` is only valid inside a trait or impl"@), TyV::Error),
    }
}

pub open spec fn typed_path(res: Resolutions<'_>, f: Facts, p: Path, depth: nat) -> (Facts, TyV)
    decreases depth, p, 1nat,
{
    let segs = segment_names(p.segments@);
    if segs.len() == 2 && segs[0] == "Self"@ {
        let (f1, t) = self_type(res, f, p, depth);
        (with_type(f1, p.span, t), t)
    } else if res.assoc_proj_bases@.contains_key(p.span) && segs.len() >= 2 {
        let t = TyV::Assoc(Box::new(TyV::TypeVar(res.assoc_proj_bases@[p.span])), segs[1]);
        (with_type(f, p.span, t), t)
    } else {
        match lookup(res.path_to_sym@, p.span) {
            None => (f, TyV::Error),
            Some(s) => {
                let (f1, args) = all_typed(res, f, p.generic_args@, depth, p.generic_args@.len());
                let (f2, t) = named_type(res, f1, s, args, p.span);
                (with_type(f2, p.span, t), t)
            },
        }
    }
}

/// The type a written type stands for.
pub open spec fn typed(res: Resolutions<'_>, f: Facts, t: Type, depth: nat) -> (Facts, TyV)
    decreases depth, t, 1nat,
{
    match t {
        Type::Path(p) => typed_path(res, f, p, depth),
        Type::Dyn(p) => match lookup(res.path_to_sym@, p.span) {
            None => (f, TyV::Error),
            Some(s) => if !is_trait_sym(res, s) {
                (
                    erring(
                        f,
                        p.span,
                        "`dyn "@ + sym_name(res, s) + "` — `"@ + sym_name(res, s) + "` is not a trait"@,
                    ),
                    TyV::Error,
                )
            } else {
                let (f1, args) = all_typed(res, f, p.generic_args@, depth, p.generic_args@.len());
                (with_type(f1, p.span, TyV::Dyn(s, args)), TyV::Dyn(s, args))
            },
        },
        Type::Array { elem, len, span } => {
            let (f1, e) = typed(res, f, *elem, depth);
            (with_type(f1, span, TyV::Array(Box::new(e), len)), TyV::Array(Box::new(e), len))
        },
        Type::Fn { params, ret, span } => {
            let (f1, ps) = all_typed(res, f, params@, depth, params@.len());
            let (f2, r) = match ret {
                Some(r) => typed(res, f1, *r, depth),
                None => (f1, TyV::Unit),
            };
            let t = TyV::Fn { params: ps, ret: Box::new(r) };
            (with_type(f2, span, t), t)
        },
        Type::Tuple { elems, span } => {
            let (f1, _) = all_typed(res, f, elems@, depth, elems@.len());
            (erring(f1, span, "tuple types are not supported"@), TyV::Error)
        },
    }
}

/// The types the first `k` written types stand for.
pub open spec fn all_typed(res: Resolutions<'_>, f: Facts, ts: Seq<Type>, depth: nat, k: nat) -> (Facts, Seq<TyV>)
    decreases depth, ts, k,
{
    if k == 0 || k > ts.len() {
        (f, seq![])
    } else {
        let (f1, out) = all_typed(res, f, ts, depth, (k - 1) as nat);
        let (f2, t) = typed(res, f1, ts[k - 1], depth);
        (f2, out.push(t))
    }
}

pub open spec fn type_of(res: Resolutions<'_>, f: Facts, t: Type) -> (Facts, TyV) {
    typed(res, f, t, full_depth())
}

pub open spec fn opt_type_of(res: Resolutions<'_>, f: Facts, t: Option<Type>) -> (Facts, TyV) {
    match t {
        Some(t) => type_of(res, f, t),
        None => (f, TyV::Unit),
    }
}

// ---- declarations ----

/// The offset after a field: every field takes eight bytes.
pub open spec fn next_offset(o: u32) -> u32 {
    if o > u32::MAX - 8 {
        (o - (u32::MAX - 7)) as u32
    } else {
        (o + 8) as u32
    }
}

/// The first `k` fields of a struct laid out one after the other.
pub open spec fn laid_out(res: Resolutions<'_>, f: Facts, fields: Seq<Field>, k: nat) -> (Facts, LayoutV)
    decreases k,
{
    if k == 0 || k > fields.len() {
        (f, LayoutV { fields: seq![], size: 0 })
    } else {
        let (f1, l) = laid_out(res, f, fields, (k - 1) as nat);
        let (f2, t) = type_of(res, f1, fields[k - 1].ty);
        (
            f2,
            LayoutV {
                fields: l.fields.push((fields[k - 1].name.name@, t, l.size)),
                size: next_offset(l.size),
            },
        )
    }
}

pub open spec fn layouts_found(res: Resolutions<'_>, f: Facts, items: Seq<Item>, k: nat) -> Facts
    decreases items, k,
{
    if k == 0 || k > items.len() {
        f
    } else {
        let f1 = layouts_found(res, f, items, (k - 1) as nat);
        match items[k - 1] {
            Item::Struct(s) => if res.decl_to_sym@.contains_key(s.name.span) {
                let (f2, l) = laid_out(res, f1, s.fields@, s.fields@.len());
                with_layout(f2, res.decl_to_sym@[s.name.span], l)
            } else {
                f1
            },
            Item::Mod(m) => layouts_found(res, f1, m.items@, m.items@.len()),
            _ => f1,
        }
    }
}

/// The types of the first `k` parameters.
pub open spec fn param_types(res: Resolutions<'_>, f: Facts, ps: Seq<Param>, k: nat) -> (Facts, Seq<TyV>)
    decreases k,
{
    if k == 0 || k > ps.len() {
        (f, seq![])
    } else {
        let (f1, out) = param_types(res, f, ps, (k - 1) as nat);
        let (f2, t) = type_of(res, f1, ps[k - 1].ty);
        (f2, out.push(t))
    }
}

pub open spec fn signature_of(res: Resolutions<'_>, f: Facts, d: FnDecl) -> (Facts, TyV) {
    let (f1, params) = param_types(res, f, d.params@, d.params@.len());
    let (f2, ret) = opt_type_of(res, f1, d.return_type);
    (f2, TyV::Fn { params, ret: Box::new(ret) })
}

pub open spec fn with_fn(res: Resolutions<'_>, f: Facts, d: FnDecl) -> Facts {
    let (f1, t) = signature_of(res, f, d);
    with_signature(f1, d.name.span, t)
}

pub open spec fn with_fns(res: Resolutions<'_>, f: Facts, ds: Seq<FnDecl>, k: nat) -> Facts
    decreases k,
{
    if k == 0 || k > ds.len() {
        f
    } else {
        with_fn(res, with_fns(res, f, ds, (k - 1) as nat), ds[k - 1])
    }
}

/// An impl's type variables matched with the struct's parameters, for the
/// first `k` arguments of the impl's type.
pub open spec fn impl_vars(res: Resolutions<'_>, f: Facts, args: Seq<Type>, params: Seq<SymbolId>, k: nat) -> (
    Facts,
    Map<SymbolId, TyV>,
)
    decreases k,
{
    if k == 0 || k > args.len() || k > params.len() {
        (f, Map::empty())
    } else {
        let (f1, m) = impl_vars(res, f, args, params, (k - 1) as nat);
        let (f2, t) = type_of(res, f1, args[k - 1]);
        match t {
            TyV::TypeVar(v) => (f2, m.insert(v, TyV::TypeVar(params[k - 1]))),
            _ => (f2, m),
        }
    }
}

/// An impl's first `k` associated types, in terms of the struct's parameters.
pub open spec fn bindings_found(
    res: Resolutions<'_>,
    f: Facts,
    s: SymbolId,
    m: Map<SymbolId, TyV>,
    bs: Seq<AssocTypeBinding>,
    k: nat,
) -> Facts
    decreases k,
{
    if k == 0 || k > bs.len() {
        f
    } else {
        let f1 = bindings_found(res, f, s, m, bs, (k - 1) as nat);
        let (f2, t) = type_of(res, f1, bs[k - 1].value);
        with_assoc(f2, s, bs[k - 1].name.name@, at(res, f2, m, None, t))
    }
}

pub open spec fn impl_registered(res: Resolutions<'_>, f: Facts, i: ImplBlock) -> Facts {
    let f1 = match lookup(res.path_to_sym@, i.type_path.span) {
        Some(s) => {
            let g = within(f, Some(SelfContext::Impl(s)));
            let params = view_or(res.struct_generics@, s, seq![]);
            let args = i.type_path.generic_args@;
            let (g1, m) = impl_vars(res, g, args, params, least(args.len(), params.len()));
            bindings_found(res, g1, s, m, i.assoc_types@, i.assoc_types@.len())
        },
        None => within(f, None),
    };
    within(with_fns(res, f1, i.methods@, i.methods@.len()), f.current_self)
}

/// The types in the first `k` methods of a trait. One with a default body has a
/// signature, like a function.
pub open spec fn sigs_registered(res: Resolutions<'_>, f: Facts, ms: Seq<TraitMethodSig>, k: nat) -> Facts
    decreases k,
{
    if k == 0 || k > ms.len() {
        f
    } else {
        let f1 = sigs_registered(res, f, ms, (k - 1) as nat);
        let (f2, params) = param_types(res, f1, ms[k - 1].params@, ms[k - 1].params@.len());
        let (f3, ret) = opt_type_of(res, f2, ms[k - 1].return_type);
        if ms[k - 1].body is Some {
            with_signature(f3, ms[k - 1].name.span, TyV::Fn { params, ret: Box::new(ret) })
        } else {
            f3
        }
    }
}

pub open spec fn trait_registered(res: Resolutions<'_>, f: Facts, t: TraitDecl) -> Facts {
    let inside = match lookup(res.decl_to_sym@, t.name.span) {
        Some(s) => Some(SelfContext::Trait(s)),
        None => None,
    };
    within(sigs_registered(res, within(f, inside), t.methods@, t.methods@.len()), f.current_self)
}

pub open spec fn const_registered(res: Resolutions<'_>, f: Facts, c: ConstDecl) -> Facts {
    let (f1, t) = type_of(res, f, c.ty);
    with_local(f1, c.name.span, t)
}

/// The signatures of the first `k` items.
pub open spec fn registered(res: Resolutions<'_>, f: Facts, items: Seq<Item>, k: nat) -> Facts
    decreases items, k,
{
    if k == 0 || k > items.len() {
        f
    } else {
        let f1 = registered(res, f, items, (k - 1) as nat);
        match items[k - 1] {
            Item::Fn(d) => with_fn(res, f1, d),
            Item::Const(c) => const_registered(res, f1, c),
            Item::Impl(i) => impl_registered(res, f1, i),
            Item::Trait(t) => trait_registered(res, f1, t),
            Item::Mod(m) => registered(res, f1, m.items@, m.items@.len()),
            _ => f1,
        }
    }
}

// ---- conformance ----

pub open spec fn sigs_of(res: Resolutions<'_>, t: SymbolId) -> Seq<TraitMethodSig> {
    if res.trait_methods@.contains_key(t) {
        res.trait_methods@[t]@
    } else {
        seq![]
    }
}

/// The first `k` methods a trait asks for held against an impl's: each must
/// be there unless the trait has a default for it, with as many parameters.
pub open spec fn methods_conform(res: Resolutions<'_>, f: Facts, i: ImplBlock, sigs: Seq<TraitMethodSig>, k: nat) -> Facts
    decreases k,
{
    if k == 0 || k > sigs.len() {
        f
    } else {
        let f1 = methods_conform(res, f, i, sigs, (k - 1) as nat);
        let sig = sigs[k - 1];
        match first_where(fn_named(i.methods@, sig.name.name@), i.methods@.len()) {
            None => if sig.body is Some {
                f1
            } else {
                erring(
                    f1,
                    i.span,
                    "impl is missing method `"@ + sig.name.name@ + "` required by the trait"@,
                )
            },
            Some(j) => if i.methods@[j].params@.len() != sig.params@.len() {
                erring(
                    f1,
                    i.methods@[j].name.span,
                    "method `"@ + sig.name.name@ + "` has "@ + dec(i.methods@[j].params@.len())
                        + " parameter(s) but the trait declares "@ + dec(sig.params@.len()),
                )
            } else {
                f1
            },
        }
    }
}

pub open spec fn supers_of(res: Resolutions<'_>, t: SymbolId) -> Seq<SymbolId> {
    next_of(syms_map(res.trait_supertraits@), t)
}

/// The traits reached from some traits through their supertraits.
pub open spec fn with_supers(res: Resolutions<'_>, from: Seq<SymbolId>) -> Seq<SymbolId> {
    visited(syms_map(res.trait_supertraits@), from, seq![])
}

pub open spec fn implements(res: Resolutions<'_>, s: SymbolId, t: SymbolId) -> bool {
    view_or(res.impls_for@, s, seq![]).contains(t)
}

/// The first `k` supertraits held against what a struct implements.
pub open spec fn supers_conform(
    res: Resolutions<'_>,
    f: Facts,
    s: SymbolId,
    t: SymbolId,
    span: Span,
    supers: Seq<SymbolId>,
    k: nat,
) -> Facts
    decreases k,
{
    if k == 0 || k > supers.len() {
        f
    } else {
        let f1 = supers_conform(res, f, s, t, span, supers, (k - 1) as nat);
        if implements(res, s, supers[k - 1]) {
            f1
        } else {
            erring(
                f1,
                span,
                "trait `"@ + sym_name(res, t) + "` requires supertrait `"@ + sym_name(res, supers[k - 1])
                    + "` to be implemented for `"@ + sym_name(res, s) + "`"@,
            )
        }
    }
}

pub open spec fn assoc_conform(
    res: Resolutions<'_>,
    f: Facts,
    s: SymbolId,
    span: Span,
    names: Seq<Seq<char>>,
    k: nat,
) -> Facts
    decreases k,
{
    if k == 0 || k > names.len() {
        f
    } else {
        let f1 = assoc_conform(res, f, s, span, names, (k - 1) as nat);
        if res.impl_assoc_bindings@.contains_key((s, names[k - 1])) {
            f1
        } else {
            erring(
                f1,
                span,
                "impl is missing associated type `"@ + names[k - 1] + "` required by the trait"@,
            )
        }
    }
}

/// Whether a name is bound among the first `k` bindings.
pub open spec fn bound_before(bs: Seq<AssocTypeBinding>, name: Seq<char>, k: nat) -> bool {
    first_where(binding_named(bs, name), k) is Some
}

pub open spec fn binding_named(bs: Seq<AssocTypeBinding>, name: Seq<char>) -> spec_fn(int) -> bool {
    |i: int| bs[i].name.name@ == name
}

/// The first `k` bindings: each must be declared by the trait, once.
pub open spec fn bindings_conform(f: Facts, names: Seq<Seq<char>>, bs: Seq<AssocTypeBinding>, k: nat) -> Facts
    decreases k,
{
    if k == 0 || k > bs.len() {
        f
    } else {
        let f1 = bindings_conform(f, names, bs, (k - 1) as nat);
        let b = bs[k - 1];
        let f2 = if names.contains(b.name.name@) {
            f1
        } else {
            erring(f1, b.span, "trait declares no associated type `"@ + b.name.name@ + "`"@)
        };
        if bound_before(bs, b.name.name@, (k - 1) as nat) {
            erring(f2, b.span, "associated type `"@ + b.name.name@ + "` already bound in this impl"@)
        } else {
            f2
        }
    }
}

/// An impl of a trait held against the trait.
pub open spec fn conforms(res: Resolutions<'_>, f: Facts, i: ImplBlock) -> Facts {
    let t = match i.trait_path {
        Some(p) => lookup(res.path_to_sym@, p.span),
        None => None,
    };
    match t {
        None => f,
        Some(t) => if !res.trait_methods@.contains_key(t) {
            f
        } else {
            let f1 = methods_conform(res, f, i, sigs_of(res, t), sigs_of(res, t).len());
            match lookup(res.path_to_sym@, i.type_path.span) {
                None => f1,
                Some(s) => {
                    let supers = with_supers(res, supers_of(res, t));
                    let f2 = supers_conform(res, f1, s, t, i.span, supers, supers.len());
                    let names = assoc_of(res, t);
                    let f3 = assoc_conform(res, f2, s, i.span, names, names.len());
                    bindings_conform(f3, names, i.assoc_types@, i.assoc_types@.len())
                },
            }
        },
    }
}

// ---- patterns ----

/// What the arms of a match cover so far.
pub struct CoverV {
    pub all: bool,
    pub bools: Seq<bool>,
    pub variants: Seq<u32>,
    pub ints: Seq<i64>,
    pub strs: Seq<Seq<char>>,
}

pub open spec fn bool_text(b: bool) -> Seq<char> {
    if b {
        "true"@
    } else {
        "false"@
    }
}

pub open spec fn covered_already(what: Seq<char>) -> Seq<char> {
    "unreachable arm — `"@ + what + "` was already covered"@
}

/// The discriminant of the variant a path names.
pub open spec fn variant_at(res: Resolutions<'_>, p: Path) -> Option<u32> {
    match lookup(res.path_to_sym@, p.span) {
        Some(s) => match sym_kind(res, s) {
            Some(SymbolKind::EnumVariant { discriminant, .. }) => Some(discriminant),
            _ => None,
        },
        None => None,
    }
}

pub open spec fn variant_covered(f: Facts, c: CoverV, d: Option<u32>, span: Span) -> (Facts, CoverV) {
    match d {
        None => (f, c),
        Some(d) => if c.variants.contains(d) {
            (erring(f, span, "unreachable arm — this variant was already covered"@), c)
        } else {
            (f, CoverV { variants: c.variants.push(d), ..c })
        },
    }
}

pub open spec fn lit_covered(f: Facts, c: CoverV, lit: Lit, span: Span) -> (Facts, CoverV) {
    match lit {
        Lit::Bool(b) => if c.bools.contains(b) {
            (erring(f, span, covered_already(bool_text(b))), c)
        } else {
            (f, CoverV { bools: c.bools.push(b), ..c })
        },
        Lit::Int(v, _) => if c.ints.contains(v) {
            (erring(f, span, covered_already(dec_int(v as int))), c)
        } else {
            (f, CoverV { ints: c.ints.push(v), ..c })
        },
        Lit::Str(s) => if c.strs.contains(s@) {
            (erring(f, span, covered_already("\""@ + s@ + "\""@)), c)
        } else {
            (f, CoverV { strs: c.strs.push(s@), ..c })
        },
        _ => (f, c),
    }
}

/// What an arm's pattern adds to what is covered.
pub open spec fn pattern_covered(res: Resolutions<'_>, f: Facts, c: CoverV, p: Pattern) -> (Facts, CoverV)
    decreases p, 1nat,
{
    match p {
        Pattern::Wildcard(_) => (f, CoverV { all: true, ..c }),
        Pattern::Ident { .. } => (f, CoverV { all: true, ..c }),
        Pattern::Literal { lit, span } => lit_covered(f, c, lit, span),
        Pattern::Path { path, span } => variant_covered(f, c, variant_at(res, path), span),
        Pattern::TupleVariant { path, span, .. } => variant_covered(f, c, variant_at(res, path), span),
        Pattern::NamedVariant { path, span, .. } => variant_covered(f, c, variant_at(res, path), span),
        Pattern::Or { patterns, .. } => patterns_covered(res, f, c, patterns@, patterns@.len()),
        Pattern::Range { .. } => (f, c),
        Pattern::Tuple { .. } => (f, c),
    }
}

pub open spec fn patterns_covered(res: Resolutions<'_>, f: Facts, c: CoverV, ps: Seq<Pattern>, k: nat) -> (Facts, CoverV)
    decreases ps, k,
{
    if k == 0 || k > ps.len() {
        (f, c)
    } else {
        let (f1, c1) = patterns_covered(res, f, c, ps, (k - 1) as nat);
        pattern_covered(res, f1, c1, ps[k - 1])
    }
}

pub open spec fn nothing_covered() -> CoverV {
    CoverV { all: false, bools: seq![], variants: seq![], ints: seq![], strs: seq![] }
}

/// What the first `k` arms cover. An arm after one that covers everything is
/// unreachable; an arm with a guard covers nothing.
pub open spec fn arms_covered(res: Resolutions<'_>, f: Facts, arms: Seq<MatchArm>, k: nat) -> (Facts, CoverV)
    decreases k,
{
    if k == 0 || k > arms.len() {
        (f, nothing_covered())
    } else {
        let (f1, c) = arms_covered(res, f, arms, (k - 1) as nat);
        let arm = arms[k - 1];
        if c.all {
            (
                erring(
                    f1,
                    pattern_span(arm.pat),
                    "unreachable match arm — an earlier arm covers everything"@,
                ),
                c,
            )
        } else if arm.guard is Some {
            (f1, c)
        } else {
            pattern_covered(res, f1, c, arm.pat)
        }
    }
}

pub open spec fn missing_bools(c: CoverV) -> Seq<Seq<char>> {
    let no: Seq<Seq<char>> = seq![];
    let a = if c.bools.contains(false) {
        no
    } else {
        no.push("false"@)
    };
    if c.bools.contains(true) {
        a
    } else {
        a.push("true"@)
    }
}

/// The names among the first `k` variants that are not covered.
pub open spec fn missing_variants(res: Resolutions<'_>, c: CoverV, vs: Seq<(String, SymbolId)>, k: nat) -> Seq<Seq<char>>
    decreases k,
{
    if k == 0 || k > vs.len() {
        seq![]
    } else {
        let before = missing_variants(res, c, vs, (k - 1) as nat);
        match sym_kind(res, vs[k - 1].1) {
            Some(SymbolKind::EnumVariant { discriminant, .. }) => if c.variants.contains(discriminant) {
                before
            } else {
                before.push(vs[k - 1].0@)
            },
            _ => before,
        }
    }
}

/// The arms of a match held against the type it is on: they must cover it.
pub open spec fn exhausts(res: Resolutions<'_>, f: Facts, t: TyV, arms: Seq<MatchArm>, span: Span) -> Facts {
    if t is Error {
        f
    } else {
        let (f1, c) = arms_covered(res, f, arms, arms.len());
        if c.all {
            f1
        } else {
            match t {
                TyV::Bool => if missing_bools(c).len() == 0 {
                    f1
                } else {
                    erring(
                        f1,
                        span,
                        "non-exhaustive `match` on `bool`: missing arms for "@ + joined(missing_bools(c), ", "@),
                    )
                },
                TyV::Enum(e, _) => if !res.enum_variants@.contains_key(e) {
                    f1
                } else {
                    let vs = res.enum_variants@[e].items();
                    let missing = missing_variants(res, c, vs, vs.len());
                    if missing.len() == 0 {
                        f1
                    } else {
                        erring(
                            f1,
                            span,
                            "non-exhaustive `match` on enum `"@ + sym_name(res, e) + "`: missing arms for "@
                                + joined(missing, ", "@),
                        )
                    }
                },
                _ => erring(
                    f1,
                    span,
                    "non-exhaustive `match` on `"@ + ty_text(t) + "`: add a `_` arm to catch the rest"@,
                ),
            }
        }
    }
}

pub open spec fn lit_ty(lit: Lit) -> TyV {
    match lit {
        Lit::Int(_, t) => match t {
            Some(i) => TyV::Int(i),
            None => TyV::Int(DEFAULT_INT),
        },
        Lit::Float(_, t) => match t {
            Some(x) => TyV::Float(x),
            None => TyV::Float(DEFAULT_FLOAT),
        },
        Lit::Str(_) => TyV::Str,
        Lit::Char(_) => TyV::Char,
        Lit::Bool(_) => TyV::Bool,
    }
}

pub open spec fn is_int_ty(t: TyV) -> bool {
    t is Int
}

pub open spec fn is_numeric_ty(t: TyV) -> bool {
    t is Int || t is Float
}

/// The bounds of a range pattern, held against the type matched on.
pub open spec fn range_fits(f: Facts, lo: Lit, hi: Lit, inclusive: bool, span: Span, t: TyV) -> Facts {
    match (lo, hi) {
        (Lit::Int(a, _), Lit::Int(b, _)) => if !(t is Error) && !is_int_ty(t) {
            erring(
                f,
                span,
                "range pattern with integer bounds doesn't match scrutinee type `"@ + ty_text(t) + "`"@,
            )
        } else {
            range_not_empty(f, a as int, b as int, inclusive, span)
        },
        (Lit::Char(a), Lit::Char(b)) => if !(t is Error) && !(t is Char) {
            erring(
                f,
                span,
                "range pattern with char bounds doesn't match scrutinee type `"@ + ty_text(t) + "`"@,
            )
        } else {
            range_not_empty(f, a as int, b as int, inclusive, span)
        },
        _ => erring(f, span, "range pattern bounds must be two integers or two chars"@),
    }
}

pub open spec fn range_not_empty(f: Facts, lo: int, hi: int, inclusive: bool, span: Span) -> Facts {
    if (inclusive && lo <= hi) || (!inclusive && lo < hi) {
        f
    } else if inclusive {
        erring(
            f,
            span,
            "range pattern `"@ + dec_int(lo) + "..="@ + dec_int(hi) + "` is empty (lo must be <= hi)"@,
        )
    } else {
        erring(
            f,
            span,
            "range pattern `"@ + dec_int(lo) + ".."@ + dec_int(hi) + "` is empty (lo must be < hi)"@,
        )
    }
}

/// The written payload types of a variant.
pub open spec fn payloads(res: Resolutions<'_>, v: SymbolId) -> Seq<Type> {
    if res.enum_variant_payloads@.contains_key(v) {
        types_of(res.enum_variant_payloads@[v]@)
    } else {
        seq![]
    }
}

pub open spec fn variant_types(res: Resolutions<'_>, f: Facts, v: SymbolId) -> (Facts, Seq<TyV>) {
    all_typed(res, f, payloads(res, v), full_depth(), payloads(res, v).len())
}

/// The payload names of a variant with named fields.
pub open spec fn payload_names(res: Resolutions<'_>, v: SymbolId) -> Option<Seq<Seq<char>>> {
    if res.enum_variant_field_names@.contains_key(v) {
        Some(texts(res.enum_variant_field_names@[v]@))
    } else {
        None
    }
}

pub open spec fn name_at(names: Seq<Seq<char>>, name: Seq<char>) -> spec_fn(int) -> bool {
    |i: int| names[i] == name
}

/// The position of a name in a list.
pub open spec fn position(names: Seq<Seq<char>>, name: Seq<char>) -> Option<int> {
    first_where(name_at(names, name), names.len())
}

/// The enum of the variant a path names.
pub open spec fn enum_at(res: Resolutions<'_>, v: SymbolId) -> Option<SymbolId> {
    match sym_kind(res, v) {
        Some(SymbolKind::EnumVariant { enum_sym, .. }) => Some(enum_sym),
        _ => None,
    }
}

pub open spec fn wrong_enum(e: SymbolId, t: TyV) -> Seq<char> {
    "pattern matches `"@ + ty_text(TyV::Enum(e, seq![])) + "` but scrutinee is `"@ + ty_text(t) + "`"@
}

pub open spec fn clashes(e: SymbolId, t: TyV) -> bool {
    !(t is Error) && !compatible(TyV::Enum(e, seq![]), t)
}

/// A pattern held against the type matched on.
pub open spec fn fits(res: Resolutions<'_>, f: Facts, p: Pattern, t: TyV) -> Facts
    decreases p, 1nat,
{
    match p {
        Pattern::Wildcard(_) => f,
        Pattern::Ident { .. } => f,
        Pattern::Literal { lit, span } => if !(t is Error) && !compatible(lit_ty(lit), t) {
            erring(
                f,
                span,
                "pattern type `"@ + ty_text(lit_ty(lit)) + "` doesn't match scrutinee type `"@ + ty_text(t) + "`"@,
            )
        } else {
            f
        },
        Pattern::Path { path, span } => match lookup(res.path_to_sym@, path.span) {
            None => f,
            Some(v) => match enum_at(res, v) {
                Some(e) => if clashes(e, t) {
                    erring(f, span, wrong_enum(e, t))
                } else {
                    f
                },
                None => erring(f, span, "pattern path must resolve to an enum variant"@),
            },
        },
        Pattern::Range { lo, hi, inclusive, span } => range_fits(f, lo, hi, inclusive, span, t),
        Pattern::TupleVariant { path, fields, span } => match lookup(res.path_to_sym@, path.span) {
            None => f,
            Some(v) => match enum_at(res, v) {
                None => erring(f, span, "tuple-variant pattern path is not an enum variant"@),
                Some(e) => if clashes(e, t) {
                    erring(f, span, wrong_enum(e, t))
                } else {
                    let (f1, ts) = variant_types(res, f, v);
                    if ts.len() == 0 {
                        erring(
                            f1,
                            span,
                            "variant `"@ + sym_name(res, v) + "` has no payload — drop the parentheses"@,
                        )
                    } else if ts.len() != fields@.len() {
                        erring(f1, span, takes_payloads(res, v, ts.len(), fields@.len()))
                    } else {
                        all_fit(res, f1, fields@, ts, fields@.len())
                    }
                },
            },
        },
        Pattern::NamedVariant { path, fields, span } => match lookup(res.path_to_sym@, path.span) {
            None => f,
            Some(v) => match enum_at(res, v) {
                None => erring(f, span, "named-variant pattern path is not an enum variant"@),
                Some(e) => if clashes(e, t) {
                    erring(f, span, wrong_enum(e, t))
                } else {
                    match payload_names(res, v) {
                        None => erring(
                            f,
                            span,
                            "variant `"@ + sym_name(res, v) + "` is not a struct-style variant"@,
                        ),
                        Some(names) => {
                            let (f1, ts) = variant_types(res, f, v);
                            let f2 = fields_fit(res, f1, v, fields@, names, ts, fields@.len());
                            missing_in_pattern(res, f2, v, fields@, names, span, names.len())
                        },
                    }
                },
            },
        },
        Pattern::Or { patterns, span } => alternatives_fit(res, f, patterns@, t, span, patterns@.len()),
        Pattern::Tuple { span, .. } => erring(f, span, "tuple patterns are not supported"@),
    }
}

pub open spec fn takes_payloads(res: Resolutions<'_>, v: SymbolId, want: nat, got: nat) -> Seq<char> {
    "variant `"@ + sym_name(res, v) + "` takes "@ + dec(want) + " payload"@ + plural(want) + ", found "@ + dec(got)
}

pub open spec fn all_fit(res: Resolutions<'_>, f: Facts, ps: Seq<Pattern>, ts: Seq<TyV>, k: nat) -> Facts
    decreases ps, k,
{
    if k == 0 || k > ps.len() || k > ts.len() {
        f
    } else {
        fits(res, all_fit(res, f, ps, ts, (k - 1) as nat), ps[k - 1], ts[k - 1])
    }
}

pub open spec fn alternatives_fit(res: Resolutions<'_>, f: Facts, ps: Seq<Pattern>, t: TyV, span: Span, k: nat) -> Facts
    decreases ps, k,
{
    if k == 0 || k > ps.len() {
        f
    } else {
        let f1 = alternatives_fit(res, f, ps, t, span, (k - 1) as nat);
        let f2 = match ps[k - 1] {
            Pattern::Ident { name, .. } => erring(
                f1,
                span,
                "or-pattern can't contain a binding (`"@ + name.name@
                    + "`); alternatives can only be `_`, literals, or enum variants"@,
            ),
            _ => f1,
        };
        fits(res, f2, ps[k - 1], t)
    }
}

pub open spec fn pattern_field(fs: Seq<(Ident, Pattern)>, name: Seq<char>) -> spec_fn(int) -> bool {
    |i: int| fs[i].0.name@ == name
}

/// The first `k` fields of a named-variant pattern.
pub open spec fn fields_fit(
    res: Resolutions<'_>,
    f: Facts,
    v: SymbolId,
    fs: Seq<(Ident, Pattern)>,
    names: Seq<Seq<char>>,
    ts: Seq<TyV>,
    k: nat,
) -> Facts
    decreases fs, k,
{
    if k == 0 || k > fs.len() {
        f
    } else {
        let f1 = fields_fit(res, f, v, fs, names, ts, (k - 1) as nat);
        let name = fs[k - 1].0;
        if first_where(pattern_field(fs, name.name@), (k - 1) as nat) is Some {
            erring(f1, name.span, "duplicate field `"@ + name.name@ + "` in pattern"@)
        } else {
            match position(names, name.name@) {
                None => erring(
                    f1,
                    name.span,
                    "no field `"@ + name.name@ + "` on variant `"@ + sym_name(res, v) + "`"@,
                ),
                Some(i) => fits(
                    res,
                    f1,
                    fs[k - 1].1,
                    if i < ts.len() {
                        ts[i]
                    } else {
                        TyV::Error
                    },
                ),
            }
        }
    }
}

pub open spec fn missing_in_pattern(
    res: Resolutions<'_>,
    f: Facts,
    v: SymbolId,
    fs: Seq<(Ident, Pattern)>,
    names: Seq<Seq<char>>,
    span: Span,
    k: nat,
) -> Facts
    decreases k,
{
    if k == 0 || k > names.len() {
        f
    } else {
        let f1 = missing_in_pattern(res, f, v, fs, names, span, (k - 1) as nat);
        if first_where(pattern_field(fs, names[k - 1]), fs.len()) is Some {
            f1
        } else {
            erring(
                f1,
                span,
                "missing field `"@ + names[k - 1] + "` in pattern for variant `"@ + sym_name(res, v) + "`"@,
            )
        }
    }
}

/// The types of the first `k` written types, seen from a use.
pub open spec fn payloads_at(res: Resolutions<'_>, f: Facts, ts: Seq<Type>, m: Map<SymbolId, TyV>, k: nat) -> (
    Facts,
    Seq<TyV>,
)
    decreases k,
{
    if k == 0 || k > ts.len() {
        (f, seq![])
    } else {
        let (f1, out) = payloads_at(res, f, ts, m, (k - 1) as nat);
        let (f2, t) = type_of(res, f1, ts[k - 1]);
        (f2, out.push(plain(res, m, t)))
    }
}

/// The names a pattern binds, with their types.
pub open spec fn binds(res: Resolutions<'_>, f: Facts, p: Pattern, t: TyV) -> Facts
    decreases p, 1nat,
{
    match p {
        Pattern::Wildcard(_) => f,
        Pattern::Ident { name, .. } => with_local(f, name.span, t),
        Pattern::Literal { .. } => f,
        Pattern::Range { .. } => f,
        Pattern::Path { .. } => f,
        Pattern::TupleVariant { path, fields, .. } => match lookup(res.path_to_sym@, path.span) {
            None => f,
            Some(v) => {
                let (f1, ts) = payloads_at(res, f, payloads(res, v), enum_args(res, t), payloads(res, v).len());
                all_bind(res, f1, fields@, ts, least(fields@.len(), ts.len()))
            },
        },
        Pattern::NamedVariant { path, fields, .. } => match lookup(res.path_to_sym@, path.span) {
            None => f,
            Some(v) => {
                let (f1, ts) = payloads_at(res, f, payloads(res, v), enum_args(res, t), payloads(res, v).len());
                let names = match payload_names(res, v) {
                    Some(ns) => ns,
                    None => seq![],
                };
                fields_bind(res, f1, fields@, names, ts, fields@.len())
            },
        },
        Pattern::Or { patterns, .. } => each_binds(res, f, patterns@, t, patterns@.len()),
        Pattern::Tuple { patterns, .. } => each_binds(res, f, patterns@, TyV::Error, patterns@.len()),
    }
}

pub open spec fn all_bind(res: Resolutions<'_>, f: Facts, ps: Seq<Pattern>, ts: Seq<TyV>, k: nat) -> Facts
    decreases ps, k,
{
    if k == 0 || k > ps.len() || k > ts.len() {
        f
    } else {
        binds(res, all_bind(res, f, ps, ts, (k - 1) as nat), ps[k - 1], ts[k - 1])
    }
}

pub open spec fn each_binds(res: Resolutions<'_>, f: Facts, ps: Seq<Pattern>, t: TyV, k: nat) -> Facts
    decreases ps, k,
{
    if k == 0 || k > ps.len() {
        f
    } else {
        binds(res, each_binds(res, f, ps, t, (k - 1) as nat), ps[k - 1], t)
    }
}

pub open spec fn fields_bind(
    res: Resolutions<'_>,
    f: Facts,
    fs: Seq<(Ident, Pattern)>,
    names: Seq<Seq<char>>,
    ts: Seq<TyV>,
    k: nat,
) -> Facts
    decreases fs, k,
{
    if k == 0 || k > fs.len() {
        f
    } else {
        let f1 = fields_bind(res, f, fs, names, ts, (k - 1) as nat);
        match position(names, fs[k - 1].0.name@) {
            Some(i) => if i < ts.len() {
                binds(res, f1, fs[k - 1].1, ts[i])
            } else {
                f1
            },
            None => f1,
        }
    }
}

// ---- methods ----

pub struct MethodSigV {
    pub params: Seq<TyV>,
    pub ret: TyV,
}

pub open spec fn i64_ty() -> TyV {
    TyV::Int(IntTy::I64)
}

/// The methods of the built-in types.
pub open spec fn builtin_method(recv: TyV, name: Seq<char>) -> Option<MethodSigV> {
    match recv {
        TyV::Str => if name == "len"@ {
            Some(MethodSigV { params: seq![], ret: i64_ty() })
        } else if name == "is_empty"@ {
            Some(MethodSigV { params: seq![], ret: TyV::Bool })
        } else if name == "starts_with"@ || name == "ends_with"@ || name == "contains"@ {
            Some(MethodSigV { params: seq![TyV::Str], ret: TyV::Bool })
        } else {
            None
        },
        TyV::Array(_, _) => if name == "len"@ {
            Some(MethodSigV { params: seq![], ret: i64_ty() })
        } else {
            None
        },
        TyV::Vec(e) => if name == "push"@ {
            Some(MethodSigV { params: seq![*e], ret: TyV::Unit })
        } else if name == "get"@ {
            Some(MethodSigV { params: seq![i64_ty()], ret: *e })
        } else if name == "len"@ {
            Some(MethodSigV { params: seq![], ret: i64_ty() })
        } else {
            None
        },
        _ => None,
    }
}

/// `iter` on a vector, when the standard library's iterator is there.
pub open spec fn vec_iter_method(res: Resolutions<'_>, recv: TyV, name: Seq<char>) -> Option<MethodSigV> {
    match recv {
        TyV::Vec(e) => if name == "iter"@ {
            match first_sym(res.symbols@, is_struct_named(res.symbols@, "VecIter"@)) {
                Some(s) => Some(MethodSigV { params: seq![], ret: TyV::Struct(s, seq![*e]) }),
                None => None,
            }
        } else {
            None
        },
        _ => None,
    }
}

/// The function behind a struct's method.
pub open spec fn method_signature(res: Resolutions<'_>, f: Facts, s: SymbolId, name: Seq<char>) -> Option<TyV> {
    if res.impl_methods@.contains_key((s, name)) {
        lookup(f.fn_signatures, sym_span(res, res.impl_methods@[(s, name)]))
    } else {
        None
    }
}

/// A method of a struct, without its `self`, in terms of the receiver's type
/// arguments.
pub open spec fn user_method(res: Resolutions<'_>, f: Facts, recv: TyV, name: Seq<char>) -> Option<MethodSigV> {
    match recv {
        TyV::Struct(s, _) => match method_signature(res, f, s, name) {
            Some(TyV::Fn { params, ret }) => if params.len() == 0 {
                None
            } else {
                let m = learned(params[0], recv, Map::empty());
                Some(
                    MethodSigV {
                        params: all_instantiated(res, f.assoc, m, None, params.skip(1), full_depth()),
                        ret: at(res, f, m, None, *ret),
                    },
                )
            },
            _ => None,
        },
        _ => None,
    }
}

pub open spec fn sig_named(sigs: Seq<TraitMethodSig>, name: Seq<char>) -> spec_fn(int) -> bool {
    |i: int| sigs[i].name.name@ == name
}

pub open spec fn sig_at(res: Resolutions<'_>, t: SymbolId, name: Seq<char>) -> Option<int> {
    first_where(sig_named(sigs_of(res, t), name), sigs_of(res, t).len())
}

pub open spec fn has_sig(res: Resolutions<'_>, ts: Seq<SymbolId>, name: Seq<char>) -> spec_fn(int) -> bool {
    |i: int| sig_at(res, ts[i], name) is Some
}

/// The first of some traits that declares a method, with the method.
pub open spec fn declaring(res: Resolutions<'_>, ts: Seq<SymbolId>, name: Seq<char>) -> Option<(SymbolId, TraitMethodSig)> {
    match first_where(has_sig(res, ts, name), ts.len()) {
        Some(i) => match sig_at(res, ts[i], name) {
            Some(j) => Some((ts[i], sigs_of(res, ts[i])[j])),
            None => None,
        },
        None => None,
    }
}

/// The types of a declared method's parameters after `self`, from a use.
pub open spec fn sig_params(
    res: Resolutions<'_>,
    f: Facts,
    m: Map<SymbolId, TyV>,
    recv: TyV,
    sig: TraitMethodSig,
) -> Seq<TyV> {
    Seq::new(
        if sig.params@.len() == 0 {
            0
        } else {
            (sig.params@.len() - 1) as nat
        },
        |i: int|
            at(
                res,
                f,
                m,
                Some(recv),
                match lookup(f.type_resolutions, type_span(sig.params@[i + 1].ty)) {
                    Some(t) => t,
                    None => TyV::Error,
                },
            ),
    )
}

pub open spec fn sig_ret(
    res: Resolutions<'_>,
    f: Facts,
    m: Map<SymbolId, TyV>,
    recv: TyV,
    sig: TraitMethodSig,
) -> TyV {
    let raw = match sig.return_type {
        Some(t) => match lookup(f.type_resolutions, type_span(t)) {
            Some(t) => t,
            None => TyV::Unit,
        },
        None => TyV::Unit,
    };
    at(res, f, m, Some(recv), raw)
}

/// The `Self` of a method's default body, where it has one, as the receiver.
pub open spec fn default_self(res: Resolutions<'_>, t: SymbolId, name: Seq<char>, recv: TyV) -> Map<SymbolId, TyV> {
    match lookup(res.trait_defaults@, (t, name)) {
        Some(d) => match lookup(res.default_self_syms@, d) {
            Some(s) => Map::empty().insert(s, recv),
            None => Map::empty(),
        },
        None => Map::empty(),
    }
}

/// A method of a type parameter: declared by one of its bounds or their
/// supertraits.
pub open spec fn bound_method(res: Resolutions<'_>, f: Facts, recv: TyV, name: Seq<char>) -> Option<MethodSigV> {
    match recv {
        TyV::TypeVar(t) => if res.generic_bounds@.contains_key(t) {
            match declaring(res, with_supers(res, res.generic_bounds@[t]@), name) {
                Some((d, sig)) => {
                    let m = default_self(res, d, name, recv);
                    Some(MethodSigV { params: sig_params(res, f, m, recv, sig), ret: sig_ret(res, f, m, recv, sig) })
                },
                None => None,
            }
        } else {
            None
        },
        _ => None,
    }
}

/// Whether a type is a projection on a trait object, which nothing resolves.
pub open spec fn is_dyn_projection(t: TyV) -> bool {
    t matches TyV::Assoc(b, _) && *b is Dyn
}

pub open spec fn without_dyn_projection(t: TyV) -> TyV {
    if is_dyn_projection(t) {
        TyV::Error
    } else {
        t
    }
}

/// A method of a trait object, and whether its signature projects on it.
pub open spec fn object_method(res: Resolutions<'_>, f: Facts, recv: TyV, name: Seq<char>) -> Option<(MethodSigV, bool)> {
    match recv {
        TyV::Dyn(t, args) => match declaring(res, with_supers(res, seq![t]), name) {
            Some((d, sig)) => {
                let m = zipped(view_or(res.trait_generics@, d, seq![]), args);
                let params = sig_params(res, f, m, recv, sig);
                let ret = sig_ret(res, f, m, recv, sig);
                Some(
                    (
                        MethodSigV {
                            params: params.map_values(|t: TyV| without_dyn_projection(t)),
                            ret: without_dyn_projection(ret),
                        },
                        is_dyn_projection(ret) || exists|i: int|
                            0 <= i < params.len() && is_dyn_projection(#[trigger] params[i]),
                    ),
                )
            },
            None => None,
        },
        _ => None,
    }
}

/// The method a name stands for on a type.
pub open spec fn method_of(res: Resolutions<'_>, f: Facts, recv: TyV, name: Seq<char>) -> Option<MethodSigV> {
    match builtin_method(recv, name) {
        Some(m) => Some(m),
        None => match vec_iter_method(res, recv, name) {
            Some(m) => Some(m),
            None => match user_method(res, f, recv, name) {
                Some(m) => Some(m),
                None => match bound_method(res, f, recv, name) {
                    Some(m) => Some(m),
                    None => match object_method(res, f, recv, name) {
                        Some((m, _)) => Some(m),
                        None => None,
                    },
                },
            },
        },
    }
}

// ---- assignment ----

/// Whether a struct has a method for each one a trait declares.
pub open spec fn provides(res: Resolutions<'_>, s: SymbolId, t: SymbolId) -> bool {
    res.trait_methods@.contains_key(t) && forall|i: int|
        0 <= i < sigs_of(res, t).len() ==> res.impl_methods@.contains_key(
            (s, (#[trigger] sigs_of(res, t)[i]).name.name@),
        )
}

/// Whether a value may be supplied where a type is wanted: the types go
/// together, or a struct becomes an object of a trait it provides, which is
/// noted.
pub open spec fn assigned(res: Resolutions<'_>, f: Facts, span: Span, actual: TyV, wanted: TyV) -> (Facts, bool) {
    if compatible(actual, wanted) {
        (f, true)
    } else {
        match (actual, wanted) {
            (TyV::Struct(s, _), TyV::Dyn(t, args)) => if provides(res, s, t) {
                (with_coercion(f, span, s, t, args), true)
            } else {
                (f, false)
            },
            _ => (f, false),
        }
    }
}

/// The first `k` arguments of a call held against the parameters.
pub open spec fn arguments_fit(
    res: Resolutions<'_>,
    f: Facts,
    args: Seq<Expr>,
    ts: Seq<TyV>,
    params: Seq<TyV>,
    what: Seq<char>,
    k: nat,
) -> Facts
    decreases k,
{
    if k == 0 || k > args.len() || k > ts.len() || k > params.len() {
        f
    } else {
        let f1 = arguments_fit(res, f, args, ts, params, what, (k - 1) as nat);
        let (f2, ok) = assigned(res, f1, expr_span(args[k - 1]), ts[k - 1], params[k - 1]);
        if ok {
            f2
        } else {
            erring(
                f2,
                expr_span(args[k - 1]),
                what + " "@ + dec(k) + " has type `"@ + ty_text(ts[k - 1]) + "`, expected `"@ + ty_text(params[k - 1])
                    + "`"@,
            )
        }
    }
}

// ---- expressions ----

pub open spec fn op_text(op: BinOp) -> Seq<char> {
    match op {
        BinOp::Add => "+"@,
        BinOp::Sub => "-"@,
        BinOp::Mul => "*"@,
        BinOp::Div => "/"@,
        BinOp::Mod => "%"@,
        BinOp::Eq => "=="@,
        BinOp::Ne => "!="@,
        BinOp::Lt => "<"@,
        BinOp::Gt => ">"@,
        BinOp::Le => "<="@,
        BinOp::Ge => ">="@,
        BinOp::And => "&&"@,
        BinOp::Or => "||"@,
        BinOp::BitAnd => "&"@,
        BinOp::BitOr => "|"@,
        BinOp::BitXor => "^"@,
        BinOp::Shl => "<<"@,
        BinOp::Shr => ">>"@,
    }
}

/// The type of a name used as a value.
pub open spec fn value_of(res: Resolutions<'_>, f: Facts, p: Path) -> (Facts, TyV) {
    match lookup(res.path_to_sym@, p.span) {
        None => (f, TyV::Error),
        Some(s) => match sym_kind(res, s) {
            Some(SymbolKind::Local { .. }) => (f, known_or_error(f.local_types, sym_span(res, s))),
            Some(SymbolKind::Param) => (f, known_or_error(f.local_types, sym_span(res, s))),
            Some(SymbolKind::Const) => (f, known_or_error(f.local_types, sym_span(res, s))),
            Some(SymbolKind::Fn) => (f, known_or_error(f.fn_signatures, sym_span(res, s))),
            Some(SymbolKind::BuiltinFn(b)) => (
                f,
                TyV::Fn { params: ty_views(b.params@), ret: Box::new(b.ret@) },
            ),
            Some(SymbolKind::PolyBuiltinFn(_)) => (
                erring(
                    f,
                    p.span,
                    "`"@ + sym_name(res, s)
                        + "` is a polymorphic builtin and cannot be used as a value; use it in a call expression"@,
                ),
                TyV::Error,
            ),
            Some(SymbolKind::EnumVariant { enum_sym, .. }) => (f, TyV::Enum(enum_sym, seq![])),
            _ => (erring(f, p.span, "`"@ + sym_name(res, s) + "` is not a value"@), TyV::Error),
        },
    }
}

pub open spec fn known_or_error(m: Map<Span, TyV>, span: Span) -> TyV {
    match lookup(m, span) {
        Some(t) => t,
        None => TyV::Error,
    }
}

pub open spec fn unary_of(f: Facts, op: UnOp, t: TyV, span: Span) -> (Facts, TyV) {
    if t is Error {
        (f, TyV::Error)
    } else {
        match op {
            UnOp::Neg => if is_numeric_ty(t) {
                (f, t)
            } else {
                (erring(f, span, "cannot negate `"@ + ty_text(t) + "`"@), TyV::Error)
            },
            UnOp::Not => if t is Bool {
                (f, TyV::Bool)
            } else {
                (erring(f, span, "`!` requires `bool`, found `"@ + ty_text(t) + "`"@), TyV::Error)
            },
            UnOp::BitNot => if is_int_ty(t) {
                (f, t)
            } else {
                (erring(f, span, "`~` requires an integer, found `"@ + ty_text(t) + "`"@), TyV::Error)
            },
        }
    }
}

/// What an operator asks of its operands, in words.
pub open spec fn op_wants(op: BinOp) -> Seq<char> {
    match op {
        BinOp::Add => "numeric or string"@,
        BinOp::Sub | BinOp::Mul | BinOp::Div | BinOp::Mod => "numeric"@,
        BinOp::Eq | BinOp::Ne => ""@,
        BinOp::Lt | BinOp::Gt | BinOp::Le | BinOp::Ge => "ordered"@,
        BinOp::And | BinOp::Or => "`bool`"@,
        BinOp::BitAnd | BinOp::BitOr | BinOp::BitXor | BinOp::Shl | BinOp::Shr => "integer"@,
    }
}

/// Whether an operator takes operands of a type.
pub open spec fn op_takes(op: BinOp, t: TyV) -> bool {
    match op {
        BinOp::Add => t is Str || is_numeric_ty(t),
        BinOp::Sub | BinOp::Mul | BinOp::Div | BinOp::Mod => is_numeric_ty(t),
        BinOp::Eq | BinOp::Ne => true,
        BinOp::Lt | BinOp::Gt | BinOp::Le | BinOp::Ge => is_numeric_ty(t) || t is Char,
        BinOp::And | BinOp::Or => t is Bool,
        BinOp::BitAnd | BinOp::BitOr | BinOp::BitXor | BinOp::Shl | BinOp::Shr => is_int_ty(t),
    }
}

/// The type of an operator's result on operands of a type.
pub open spec fn op_gives(op: BinOp, t: TyV) -> TyV {
    match op {
        BinOp::Eq | BinOp::Ne | BinOp::Lt | BinOp::Gt | BinOp::Le | BinOp::Ge | BinOp::And | BinOp::Or => TyV::Bool,
        _ => t,
    }
}

pub open spec fn binary_of(f: Facts, op: BinOp, l: TyV, r: TyV, span: Span) -> (Facts, TyV) {
    if l is Error || r is Error {
        (f, TyV::Error)
    } else if !compatible(l, r) {
        (
            erring(
                f,
                span,
                "operands of `"@ + op_text(op) + "` have mismatched types: `"@ + ty_text(l) + "` vs `"@ + ty_text(r)
                    + "`"@,
            ),
            TyV::Error,
        )
    } else {
        let t = if l is Never {
            r
        } else {
            l
        };
        if op_takes(op, t) {
            (f, op_gives(op, t))
        } else {
            (
                erring(
                    f,
                    span,
                    "operator `"@ + op_text(op) + "` requires "@ + op_wants(op) + " operands, got `"@ + ty_text(t)
                        + "`"@,
                ),
                TyV::Error,
            )
        }
    }
}

/// Whether the root of a place may be written through.
pub open spec fn root_of(res: Resolutions<'_>, f: Facts, e: Expr, span: Span) -> Facts
    decreases e,
{
    match e {
        Expr::Path(p) => match lookup(res.path_to_sym@, p.span) {
            None => f,
            Some(s) => match sym_kind(res, s) {
                Some(SymbolKind::Local { mutable }) => if mutable {
                    f
                } else {
                    erring(f, span, "cannot assign to field of immutable binding `"@ + sym_name(res, s) + "`"@)
                },
                Some(SymbolKind::Param) => f,
                _ => erring(f, span, "cannot assign to field of `"@ + sym_name(res, s) + "`"@),
            },
        },
        Expr::Field { receiver, .. } => root_of(res, f, *receiver, span),
        _ => erring(f, span, "field assignment target must reach a mutable binding"@),
    }
}

/// Whether an expression may stand on the left of an assignment.
pub open spec fn target_of(res: Resolutions<'_>, f: Facts, e: Expr, span: Span) -> Facts {
    match e {
        Expr::Path(p) => match lookup(res.path_to_sym@, p.span) {
            None => f,
            Some(s) => match sym_kind(res, s) {
                Some(SymbolKind::Local { mutable }) => if mutable {
                    f
                } else {
                    erring(f, span, "cannot assign to immutable binding `"@ + sym_name(res, s) + "`"@)
                },
                Some(SymbolKind::Param) => erring(f, span, "cannot assign to parameter `"@ + sym_name(res, s) + "`"@),
                Some(SymbolKind::Const) => erring(f, span, "cannot assign to const `"@ + sym_name(res, s) + "`"@),
                Some(SymbolKind::Fn) => erring(f, span, "cannot assign to function `"@ + sym_name(res, s) + "`"@),
                Some(SymbolKind::BuiltinFn(_)) => erring(
                    f,
                    span,
                    "cannot assign to function `"@ + sym_name(res, s) + "`"@,
                ),
                Some(SymbolKind::PolyBuiltinFn(_)) => erring(
                    f,
                    span,
                    "cannot assign to function `"@ + sym_name(res, s) + "`"@,
                ),
                Some(SymbolKind::EnumVariant { .. }) => erring(
                    f,
                    span,
                    "cannot assign to enum variant `"@ + sym_name(res, s) + "`"@,
                ),
                _ => erring(f, span, "cannot assign to `"@ + sym_name(res, s) + "`"@),
            },
        },
        Expr::Field { receiver, .. } => root_of(res, f, *receiver, span),
        Expr::Index { .. } => f,
        _ => erring(f, span, "invalid assignment target"@),
    }
}

pub open spec fn assignment_of(f: Facts, l: TyV, r: TyV, span: Span) -> Facts {
    if !(l is Error) && !(r is Error) && !compatible(l, r) {
        erring(f, span, "cannot assign `"@ + ty_text(r) + "` to `"@ + ty_text(l) + "`"@)
    } else {
        f
    }
}

pub open spec fn is_arithmetic(op: BinOp) -> bool {
    match op {
        BinOp::Add | BinOp::Sub | BinOp::Mul | BinOp::Div | BinOp::Mod => true,
        _ => false,
    }
}

pub open spec fn compound_of(f: Facts, op: BinOp, l: TyV, r: TyV, span: Span) -> Facts {
    if l is Error || r is Error {
        f
    } else {
        let f1 = if compatible(l, r) {
            f
        } else {
            erring(
                f,
                span,
                "compound assignment `"@ + op_text(op) + "=` has mismatched operand types: `"@ + ty_text(l)
                    + "` vs `"@ + ty_text(r) + "`"@,
            )
        };
        if is_arithmetic(op) && !(op is Add && l is Str) && !is_numeric_ty(l) {
            erring(
                f1,
                span,
                "compound assignment `"@ + op_text(op) + "=` requires numeric operands, got `"@ + ty_text(l) + "`"@,
            )
        } else {
            f1
        }
    }
}

pub open spec fn must_be_bool(f: Facts, what: Seq<char>, t: TyV, span: Span) -> Facts {
    if compatible(t, TyV::Bool) {
        f
    } else {
        erring(f, span, what + " must be `bool`, found `"@ + ty_text(t) + "`"@)
    }
}

pub open spec fn must_be_int(f: Facts, what: Seq<char>, t: TyV, span: Span) -> Facts {
    if is_int_ty(t) || t is Error {
        f
    } else {
        erring(f, span, what + ", found `"@ + ty_text(t) + "`"@)
    }
}

/// Whether one type may be cast to another.
pub open spec fn castable(from: TyV, to: TyV) -> bool {
    ||| is_numeric_ty(from) && is_numeric_ty(to)
    ||| from is Bool && is_int_ty(to)
    ||| from is Char && is_int_ty(to)
    ||| is_int_ty(from) && to is Char
}

pub open spec fn cast_of(f: Facts, from: TyV, to: TyV, span: Span) -> Facts {
    if from is Error || to is Error || castable(from, to) {
        f
    } else {
        erring(f, span, "cannot cast `"@ + ty_text(from) + "` to `"@ + ty_text(to) + "`"@)
    }
}

/// The common type of an element and the earlier ones.
pub open spec fn element_of(f: Facts, t: TyV, before: TyV, span: Span) -> (Facts, TyV) {
    match unified(t, before) {
        Some(u) => (f, u),
        None => (
            erring(
                f,
                span,
                "array element has type `"@ + ty_text(t) + "` but earlier elements have type `"@ + ty_text(before)
                    + "`"@,
            ),
            TyV::Error,
        ),
    }
}

pub open spec fn branches_of(f: Facts, a: TyV, b: TyV, span: Span) -> (Facts, TyV) {
    match unified(a, b) {
        Some(t) => (f, t),
        None => (
            erring(
                f,
                span,
                "`if` branches have different types: `"@ + ty_text(a) + "` vs `"@ + ty_text(b) + "`"@,
            ),
            TyV::Error,
        ),
    }
}

/// The common type of an arm and the earlier ones.
pub open spec fn arm_of(f: Facts, before: Option<TyV>, t: TyV, span: Span) -> (Facts, TyV) {
    match before {
        None => (f, t),
        Some(b) => match unified(b, t) {
            Some(u) => (f, u),
            None => (
                erring(
                    f,
                    span,
                    "match arm has type `"@ + ty_text(t) + "` but previous arms had type `"@ + ty_text(b) + "`"@,
                ),
                TyV::Error,
            ),
        },
    }
}

pub open spec fn sliced_of(f: Facts, t: TyV, span: Span) -> (Facts, TyV) {
    match t {
        TyV::Str => (f, TyV::Str),
        TyV::Error => (f, TyV::Error),
        _ => (erring(f, span, "cannot slice value of type `"@ + ty_text(t) + "`"@), TyV::Error),
    }
}

pub open spec fn indexed_of(f: Facts, t: TyV, span: Span) -> (Facts, TyV) {
    match t {
        TyV::Array(e, _) => (f, *e),
        TyV::Str => (f, i64_ty()),
        TyV::Error => (f, TyV::Error),
        _ => (erring(f, span, "cannot index value of type `"@ + ty_text(t) + "`"@), TyV::Error),
    }
}

/// The operand of `?` and the function it stands in: both must be results,
/// with error types that go together.
pub open spec fn try_of(res: Resolutions<'_>, f: Facts, t: TyV, span: Span) -> (Facts, TyV) {
    if t is Error {
        (f, TyV::Error)
    } else {
        match t {
            TyV::Enum(s, args) => if args.len() == 2 && is_result(res, s) {
                (propagated(res, f, s, args[1], span), args[0])
            } else {
                (erring(f, span, not_a_result(t)), TyV::Error)
            },
            _ => (erring(f, span, not_a_result(t)), TyV::Error),
        }
    }
}

pub open spec fn not_a_result(t: TyV) -> Seq<char> {
    "the `?` operator requires a `Result`, but the operand has type `"@ + ty_text(t) + "`"@
}

/// Whether an enum has the two variants of a result.
pub open spec fn is_result(res: Resolutions<'_>, s: SymbolId) -> bool {
    res.enum_variants@.contains_key(s) && res.enum_variants@[s]@.contains_key("Ok"@)
        && res.enum_variants@[s]@.contains_key("Err"@)
}

/// The first of some conversions that leads to a type, among the first `k`:
/// its function.
pub open spec fn conversion_found(
    res: Resolutions<'_>,
    f: Facts,
    cs: Seq<(&Type, SymbolId)>,
    wanted: TyV,
    k: nat,
) -> (Facts, Option<SymbolId>)
    decreases k,
{
    if k == 0 || k > cs.len() {
        (f, None)
    } else {
        let (f1, found) = conversion_found(res, f, cs, wanted, (k - 1) as nat);
        match found {
            Some(s) => (f1, Some(s)),
            None => {
                let (f2, t) = type_of(res, f1, *cs[k - 1].0);
                (
                    f2,
                    if t == wanted {
                        Some(cs[k - 1].1)
                    } else {
                        None
                    },
                )
            },
        }
    }
}

/// The conversions that a type has.
pub open spec fn conversions_of<'s>(res: Resolutions<'s>, t: TyV) -> Seq<(&'s Type, SymbolId)> {
    match t {
        TyV::Struct(s, _) => if res.into_impls@.contains_key(s) {
            res.into_impls@[s]@
        } else {
            seq![]
        },
        _ => seq![],
    }
}

/// An error handed on by `?`: as it is where the types go together, and else
/// through the conversion to the function's error type, which is noted.
pub open spec fn propagated(res: Resolutions<'_>, f: Facts, s: SymbolId, err: TyV, span: Span) -> Facts {
    let ret = f.current_return;
    match ret {
        TyV::Enum(s2, args) => if s2 == s && args.len() == 2 {
            if compatible(args[1], err) {
                f
            } else {
                let cs = conversions_of(res, err);
                let (f1, found) = conversion_found(res, f, cs, args[1], cs.len());
                match found {
                    Some(into) => with_conversion(f1, span, into, args[1]),
                    None => erring(
                        f1,
                        span,
                        "`?` propagates an error of type `"@ + ty_text(err)
                            + "`, but the enclosing function's `Result` error type is `"@ + ty_text(args[1]) + "`"@,
                    ),
                }
            }
        } else {
            erring(f, span, not_in_a_result_fn(ret))
        },
        _ => erring(f, span, not_in_a_result_fn(ret)),
    }
}

pub open spec fn not_in_a_result_fn(t: TyV) -> Seq<char> {
    "the `?` operator can only be used in a function returning a `Result`, but this one returns `"@ + ty_text(t)
        + "`"@
}

pub open spec fn returned(res: Resolutions<'_>, f: Facts, t: TyV, value_span: Span, span: Span, wanted: TyV) -> Facts {
    let (f1, ok) = assigned(res, f, value_span, t, wanted);
    if ok {
        f1
    } else {
        erring(
            f1,
            span,
            "return value has type `"@ + ty_text(t) + "` but function returns `"@ + ty_text(wanted) + "`"@,
        )
    }
}

pub open spec fn layout_named(l: LayoutV, name: Seq<char>) -> spec_fn(int) -> bool {
    |i: int| l.fields[i].0 == name
}

/// The type of a field of a layout.
pub open spec fn field_ty(l: LayoutV, name: Seq<char>) -> Option<TyV> {
    match first_where(layout_named(l, name), l.fields.len()) {
        Some(i) => Some(l.fields[i].1),
        None => None,
    }
}

pub open spec fn field_of(res: Resolutions<'_>, f: Facts, recv: TyV, name: Ident, span: Span) -> (Facts, TyV) {
    match recv {
        TyV::Struct(s, args) => match lookup(f.struct_layouts, s) {
            None => (f, TyV::Error),
            Some(l) => match field_ty(l, name.name@) {
                None => (
                    erring(f, name.span, "`"@ + sym_name(res, s) + "` has no field `"@ + name.name@ + "`"@),
                    TyV::Error,
                ),
                Some(t) => (f, at(res, f, struct_args(res, s, args), None, t)),
            },
        },
        TyV::Error => (f, TyV::Error),
        _ => (
            erring(
                f,
                span,
                "cannot access field `"@ + name.name@ + "` on type `"@ + ty_text(recv) + "`"@,
            ),
            TyV::Error,
        ),
    }
}

/// Whether a type parameter is bounded by the iterator trait.
pub open spec fn iterates(res: Resolutions<'_>, t: SymbolId) -> bool {
    match first_sym(res.symbols@, is_trait_named(res.symbols@, "Iterator"@)) {
        Some(it) => res.generic_bounds@.contains_key(t) && with_supers(res, res.generic_bounds@[t]@).contains(it),
        None => false,
    }
}

/// Whether a struct implements the iterator trait.
pub open spec fn is_iterator(res: Resolutions<'_>, s: SymbolId) -> bool {
    match first_sym(res.symbols@, is_trait_named(res.symbols@, "Iterator"@)) {
        Some(it) => implements(res, s, it),
        None => false,
    }
}

/// The type a loop variable takes when looping over a type.
pub open spec fn items_of(res: Resolutions<'_>, f: Facts, t: TyV, span: Span) -> (Facts, TyV) {
    match t {
        TyV::Array(e, _) => (f, *e),
        TyV::Error => (f, TyV::Error),
        TyV::Struct(s, args) => if is_iterator(res, s) {
            (
                f,
                at(
                    res,
                    f,
                    struct_args(res, s, args),
                    None,
                    match lookup(f.assoc, (s, "Item"@)) {
                        Some(t) => t,
                        None => TyV::Error,
                    },
                ),
            )
        } else {
            (erring(f, span, not_iterable(t)), TyV::Error)
        },
        TyV::TypeVar(v) => if iterates(res, v) {
            (f, TyV::Assoc(Box::new(TyV::TypeVar(v)), "Item"@))
        } else {
            (erring(f, span, not_iterable(t)), TyV::Error)
        },
        _ => (erring(f, span, not_iterable(t)), TyV::Error),
    }
}

pub open spec fn not_iterable(t: TyV) -> Seq<char> {
    "cannot iterate over `"@ + ty_text(t) + "` — type does not implement `std::Iterator`"@
}

/// A call of a function that the runtime provides in several versions.
pub open spec fn poly_of(f: Facts, name: Seq<char>, args: Seq<Expr>, ts: Seq<TyV>, span: Span) -> (Facts, TyV) {
    if name == "print"@ {
        if ts.len() != 1 {
            (erring(f, span, "`print` expects 1 argument, found "@ + dec(ts.len())), TyV::Unit)
        } else if ts[0] is Error || ts[0] is Int || ts[0] is Str {
            (f, TyV::Unit)
        } else {
            (
                erring(
                    f,
                    expr_span(args[0]),
                    "`print` does not yet support values of type `"@ + ty_text(ts[0])
                        + "` (currently: i64-family integers and str)"@,
                ),
                TyV::Unit,
            )
        }
    } else if name == "weak"@ {
        if ts.len() != 1 {
            (erring(f, span, "`weak` expects 1 argument, found "@ + dec(ts.len())), TyV::Error)
        } else if ts[0] is Vec || ts[0] is Error {
            (f, TyV::Weak(Box::new(ts[0])))
        } else {
            (
                erring(
                    f,
                    expr_span(args[0]),
                    "`weak` only supports `Vec` in v0.x — got `"@ + ty_text(ts[0]) + "`"@,
                ),
                TyV::Error,
            )
        }
    } else if name == "upgrade_or"@ {
        if ts.len() != 2 {
            (erring(f, span, "`upgrade_or` expects 2 arguments, found "@ + dec(ts.len())), TyV::Error)
        } else {
            match ts[0] {
                TyV::Weak(inner) => if compatible(ts[1], *inner) {
                    (f, *inner)
                } else {
                    (
                        erring(
                            f,
                            expr_span(args[1]),
                            "`upgrade_or` default has type `"@ + ty_text(ts[1]) + "`, expected `"@ + ty_text(*inner)
                                + "`"@,
                        ),
                        *inner,
                    )
                },
                TyV::Error => (f, TyV::Error),
                _ => (
                    erring(
                        f,
                        expr_span(args[0]),
                        "`upgrade_or` first arg must be `Weak<T>`, got `"@ + ty_text(ts[0]) + "`"@,
                    ),
                    TyV::Error,
                ),
            }
        }
    } else {
        map_builtin_of(f, name, args, ts, span)
    }
}

/// How many arguments a function on maps takes.
pub open spec fn map_builtin_args(name: Seq<char>) -> Option<nat> {
    if name == "hashmap_new"@ || name == "hashmap_str_new"@ {
        Some(0)
    } else if name == "hashmap_cap"@ {
        Some(1)
    } else if name == "hashmap_is_live_at"@ || name == "hashmap_key_at"@ {
        Some(2)
    } else {
        None
    }
}

/// A call of a function on maps. A new map takes its key and value types from
/// where it goes; one for texts has its key type already.
pub open spec fn map_builtin_of(f: Facts, name: Seq<char>, args: Seq<Expr>, ts: Seq<TyV>, span: Span) -> (Facts, TyV) {
    match map_builtin_args(name) {
        None => (erring(f, span, "unknown polymorphic builtin `"@ + name + "`"@), TyV::Error),
        Some(want) => if ts.len() != want {
            (
                erring(
                    f,
                    span,
                    "`"@ + name + "` expects "@ + dec(want) + " argument"@ + plural(want) + ", found "@ + dec(ts.len()),
                ),
                TyV::Error,
            )
        } else if want == 0 {
            (
                f,
                TyV::HashMap(
                    Box::new(
                        if name == "hashmap_new"@ {
                            TyV::Error
                        } else {
                            TyV::Str
                        },
                    ),
                    Box::new(TyV::Error),
                ),
            )
        } else {
            match ts[0] {
                TyV::HashMap(k, _) => if want == 2 && !(ts[1] is Int || ts[1] is Error) {
                    (
                        erring(
                            f,
                            expr_span(args[1]),
                            "`"@ + name + "` position must be an integer, got `"@ + ty_text(ts[1]) + "`"@,
                        ),
                        map_builtin_result(name, *k),
                    )
                } else {
                    (f, map_builtin_result(name, *k))
                },
                TyV::Error => (f, TyV::Error),
                _ => (
                    erring(
                        f,
                        expr_span(args[0]),
                        "`"@ + name + "` first arg must be `HashMap<K, V>`, got `"@ + ty_text(ts[0]) + "`"@,
                    ),
                    TyV::Error,
                ),
            }
        },
    }
}

/// What a question about a map is answered with, given its key type.
pub open spec fn map_builtin_result(name: Seq<char>, key: TyV) -> TyV {
    if name == "hashmap_cap"@ {
        TyV::Int(IntTy::I64)
    } else if name == "hashmap_is_live_at"@ {
        TyV::Bool
    } else {
        key
    }
}

/// A call of a value: the result type, and what the arguments are held
/// against.
pub open spec fn call_of(res: Resolutions<'_>, f: Facts, callee: TyV, args: Seq<Expr>, ts: Seq<TyV>, span: Span) -> (
    Facts,
    TyV,
) {
    match callee {
        TyV::Fn { params, ret } => if params.len() != ts.len() {
            (
                erring(
                    f,
                    span,
                    "expected "@ + dec(params.len()) + " argument"@ + plural(params.len()) + ", found "@ + dec(ts.len()),
                ),
                *ret,
            )
        } else {
            let f1 = arguments_fit(res, f, args, ts, params, "argument"@, ts.len());
            (f1, at(res, f1, learned_all(params, ts, params.len(), Map::empty()), None, *ret))
        },
        TyV::Error => (f, TyV::Error),
        TyV::Struct(s, _) => if res.impl_methods@.contains_key((s, "call"@)) {
            match method_signature(res, f, s, "call"@) {
                Some(TyV::Fn { params, ret }) => {
                    let wanted = if params.len() == 0 {
                        params
                    } else {
                        params.skip(1)
                    };
                    if wanted.len() != ts.len() {
                        (
                            erring(
                                f,
                                span,
                                "closure expects "@ + dec(wanted.len()) + " argument"@ + plural(wanted.len())
                                    + " but got "@ + dec(ts.len()),
                            ),
                            *ret,
                        )
                    } else {
                        (arguments_fit(res, f, args, ts, wanted, "argument"@, ts.len()), *ret)
                    }
                },
                _ => (erring(f, span, "internal: closure has no call signature"@), TyV::Error),
            }
        } else {
            (erring(f, span, not_callable(callee)), TyV::Error)
        },
        _ => (erring(f, span, not_callable(callee)), TyV::Error),
    }
}

pub open spec fn not_callable(t: TyV) -> Seq<char> {
    "cannot call value of type `"@ + ty_text(t) + "`"@
}

pub open spec fn method_call_of(
    res: Resolutions<'_>,
    f: Facts,
    recv: TyV,
    name: Seq<char>,
    args: Seq<Expr>,
    ts: Seq<TyV>,
    span: Span,
) -> (Facts, TyV) {
    match method_of(res, f, recv, name) {
        None => if recv is Error {
            (f, TyV::Error)
        } else {
            (erring(f, span, "no method `."@ + name + "` on type `"@ + ty_text(recv) + "`"@), TyV::Error)
        },
        Some(sig) => {
            let f1 = match object_method(res, f, recv, name) {
                Some((_, projects)) => if projects {
                    erring(
                        f,
                        span,
                        "method `."@ + name + "` returns an associated type that cannot be projected through `"@
                            + ty_text(recv) + "`; call it on a concrete receiver instead"@,
                    )
                } else {
                    f
                },
                None => f,
            };
            if sig.params.len() != ts.len() {
                (
                    erring(
                        f1,
                        span,
                        "method `."@ + name + "` expects "@ + dec(sig.params.len()) + " argument"@ + plural(
                            sig.params.len(),
                        ) + ", found "@ + dec(ts.len()),
                    ),
                    sig.ret,
                )
            } else {
                (arguments_fit(res, f1, args, ts, sig.params, "argument"@, ts.len()), sig.ret)
            }
        },
    }
}

/// What a call names directly, before it is looked at as a value.
pub open spec fn called_symbol(res: Resolutions<'_>, callee: Expr) -> Option<(SymbolId, SymbolKind)> {
    match callee {
        Expr::Path(p) => match lookup(res.path_to_sym@, p.span) {
            Some(s) => match sym_kind(res, s) {
                Some(k) => Some((s, k)),
                None => None,
            },
            None => None,
        },
        _ => None,
    }
}

// ---- checking ----

/// What checking an expression finds, with its type noted.
pub open spec fn checked(res: Resolutions<'_>, f: Facts, e: Expr) -> (Facts, TyV)
    decreases e, 2nat,
{
    let (f1, t) = checked_inside(res, f, e);
    (with_expr(f1, expr_span(e), t), t)
}

pub open spec fn all_checked(res: Resolutions<'_>, f: Facts, es: Seq<Expr>, k: nat) -> (Facts, Seq<TyV>)
    decreases es, k,
{
    if k == 0 || k > es.len() {
        (f, seq![])
    } else {
        let (f1, ts) = all_checked(res, f, es, (k - 1) as nat);
        let (f2, t) = checked(res, f1, es[k - 1]);
        (f2, ts.push(t))
    }
}

/// What checking an expression finds when a type is wanted of it. Only
/// closures use the wanted type.
pub open spec fn checked_for(res: Resolutions<'_>, f: Facts, e: Expr, wanted: Option<TyV>) -> (Facts, TyV)
    decreases e, 3nat,
{
    if e is Closure && wanted is Some {
        let (f1, t) = closure_of(res, f, e, wanted);
        (with_expr(f1, expr_span(e), t), t)
    } else {
        checked(res, f, e)
    }
}

pub open spec fn opt_checked(res: Resolutions<'_>, f: Facts, e: Option<Box<Expr>>) -> (Facts, TyV)
    decreases e, 3nat,
{
    match e {
        Some(e) => checked(res, f, *e),
        None => (f, TyV::Unit),
    }
}

/// The start or end of a range, which must be an integer.
pub open spec fn bound_checked(res: Resolutions<'_>, f: Facts, e: Option<Box<Expr>>, what: Seq<char>) -> Facts
    decreases e, 3nat,
{
    match e {
        Some(e) => {
            let (f1, t) = checked(res, f, *e);
            must_be_int(f1, what, t, expr_span(*e))
        },
        None => f,
    }
}

pub open spec fn checked_inside(res: Resolutions<'_>, f: Facts, e: Expr) -> (Facts, TyV)
    decreases e, 1nat,
{
    match e {
        Expr::Lit { lit, .. } => (f, lit_ty(lit)),
        Expr::Path(p) => value_of(res, f, p),
        Expr::Unary { op, expr, span } => {
            let (f1, t) = checked(res, f, *expr);
            unary_of(f1, op, t, span)
        },
        Expr::Binary { op, lhs, rhs, span } => {
            let (f1, l) = checked(res, f, *lhs);
            let (f2, r) = checked(res, f1, *rhs);
            binary_of(f2, op, l, r, span)
        },
        Expr::Assign { lhs, rhs, span } => {
            let (f1, l) = checked(res, f, *lhs);
            let (f2, r) = checked(res, f1, *rhs);
            (assignment_of(target_of(res, f2, *lhs, span), l, r, span), TyV::Unit)
        },
        Expr::AssignOp { op, lhs, rhs, span } => {
            let (f1, l) = checked(res, f, *lhs);
            let (f2, r) = checked(res, f1, *rhs);
            (compound_of(target_of(res, f2, *lhs, span), op, l, r, span), TyV::Unit)
        },
        Expr::Call { .. } => checked_call(res, f, e),
        Expr::MethodCall { receiver, method, args, span } => {
            let (f1, recv) = checked(res, f, *receiver);
            let (f2, ts) = all_checked(res, f1, args@, args@.len());
            method_call_of(res, f2, recv, method.name@, args@, ts, span)
        },
        Expr::Field { receiver, name, span } => {
            let (f1, recv) = checked(res, f, *receiver);
            field_of(res, f1, recv, name, span)
        },
        Expr::TupleIndex { receiver, span, .. } => {
            let (f1, _) = checked(res, f, *receiver);
            (erring(f1, span, "tuple fields are not supported"@), TyV::Error)
        },
        Expr::Index { receiver, index, span } => {
            let (f1, recv) = checked(res, f, *receiver);
            match *index {
                Expr::Range { start, end, .. } => {
                    let f2 = bound_checked(res, f1, start, "slice start must be integer"@);
                    let f3 = bound_checked(res, f2, end, "slice end must be integer"@);
                    sliced_of(f3, recv, span)
                },
                _ => {
                    let (f2, i) = checked(res, f1, *index);
                    indexed_of(must_be_int(f2, "index must be an integer"@, i, expr_span(*index)), recv, span)
                },
            }
        },
        Expr::Try { expr, span } => {
            let (f1, t) = checked(res, f, *expr);
            try_of(res, f1, t, span)
        },
        Expr::Cast { expr, ty, span } => {
            let (f1, from) = checked(res, f, *expr);
            let (f2, to) = type_of(res, f1, ty);
            (cast_of(f2, from, to, span), to)
        },
        Expr::Array { elems, span } => if elems@.len() == 0 {
            (
                erring(f, span, "cannot infer element type of empty array literal"@),
                TyV::Array(Box::new(TyV::Error), 0),
            )
        } else {
            let (f1, t) = elements_checked(res, f, elems@, elems@.len());
            (f1, TyV::Array(Box::new(t), elems@.len() as usize))
        },
        Expr::Tuple { elems, span } => {
            let (f1, _) = all_checked(res, f, elems@, elems@.len());
            (erring(f1, span, "tuples are not supported"@), TyV::Error)
        },
        Expr::Block(b) => block_checked(res, f, b),
        Expr::If { cond, then_branch, else_branch, span } => {
            let (f1, c) = checked(res, f, *cond);
            let f2 = must_be_bool(f1, "if condition"@, c, expr_span(*cond));
            let (f3, a) = block_checked(res, f2, then_branch);
            match else_branch {
                Some(eb) => {
                    let (f4, b) = checked(res, f3, *eb);
                    branches_of(f4, a, b, span)
                },
                None => if compatible(a, TyV::Unit) {
                    (f3, TyV::Unit)
                } else {
                    (
                        erring(
                            f3,
                            then_branch.span,
                            "`if` without `else` must yield `()`, found `"@ + ty_text(a) + "`"@,
                        ),
                        TyV::Unit,
                    )
                },
            }
        },
        Expr::While { cond, body, .. } => {
            let (f1, c) = checked(res, f, *cond);
            let f2 = must_be_bool(f1, "while condition"@, c, expr_span(*cond));
            (block_checked(res, f2, body).0, TyV::Unit)
        },
        Expr::For { pat, iter, body, .. } => {
            let (f1, t) = match *iter {
                Expr::Range { start, end, .. } => {
                    let g = bound_checked(res, f, start, "range endpoints must be integers"@);
                    (bound_checked(res, g, end, "range endpoints must be integers"@), i64_ty())
                },
                _ => {
                    let (g, it) = checked(res, f, *iter);
                    items_of(res, g, it, expr_span(*iter))
                },
            };
            (block_checked(res, binds(res, f1, pat, t), body).0, TyV::Unit)
        },
        Expr::Match { scrutinee, arms, span } => {
            let (f1, t) = checked(res, f, *scrutinee);
            let (f2, r) = arms_checked(res, f1, arms@, t, arms@.len());
            (
                exhausts(res, f2, t, arms@, span),
                match r {
                    Some(r) => r,
                    None => TyV::Unit,
                },
            )
        },
        Expr::StructLit { .. } => struct_lit_of(res, f, e),
        Expr::Range { start, end, span, .. } => {
            let (f1, _) = opt_checked(res, f, start);
            let (f2, _) = opt_checked(res, f1, end);
            (
                erring(
                    f2,
                    span,
                    "range expressions are only allowed as a slice index (e.g. `s[a..b]`) — `for i in 0..n` and bare ranges aren't supported yet"@,
                ),
                TyV::Error,
            )
        },
        Expr::Return { value, span } => {
            let (f1, t) = opt_checked(res, f, value);
            let value_span = match value {
                Some(v) => expr_span(*v),
                None => span,
            };
            (returned(res, f1, t, value_span, span, f.current_return), TyV::Never)
        },
        Expr::Break(_) => (f, TyV::Never),
        Expr::Continue(_) => (f, TyV::Never),
        Expr::Closure { .. } => closure_of(res, f, e, None),
    }
}

/// The common type of the first `k` elements.
pub open spec fn elements_checked(res: Resolutions<'_>, f: Facts, es: Seq<Expr>, k: nat) -> (Facts, TyV)
    decreases es, k,
{
    if k == 0 || k > es.len() {
        (f, TyV::Error)
    } else if k == 1 {
        checked(res, f, es[0])
    } else {
        let (f1, before) = elements_checked(res, f, es, (k - 1) as nat);
        let (f2, t) = checked(res, f1, es[k - 1]);
        element_of(f2, t, before, expr_span(es[k - 1]))
    }
}

/// The first `k` arms of a match on a type, with their common type.
pub open spec fn arms_checked(res: Resolutions<'_>, f: Facts, arms: Seq<MatchArm>, t: TyV, k: nat) -> (
    Facts,
    Option<TyV>,
)
    decreases arms, k,
{
    if k == 0 || k > arms.len() {
        (f, None)
    } else {
        let (f1, before) = arms_checked(res, f, arms, t, (k - 1) as nat);
        let arm = arms[k - 1];
        let f2 = binds(res, fits(res, f1, arm.pat, t), arm.pat, t);
        let f3 = match arm.guard {
            Some(g) => {
                let (g1, gt) = checked(res, f2, g);
                must_be_bool(g1, "match guard"@, gt, expr_span(g))
            },
            None => f2,
        };
        let (f4, b) = checked(res, f3, arm.body);
        let (f5, r) = arm_of(f4, before, b, expr_span(arm.body));
        (f5, Some(r))
    }
}

/// The first `k` payloads of a variant, checked and held against what the
/// variant declares, with what they say of its type variables.
pub open spec fn variant_args_checked(
    res: Resolutions<'_>,
    f: Facts,
    ts: Seq<TyV>,
    args: Seq<Expr>,
    k: nat,
) -> (Facts, Map<SymbolId, TyV>)
    decreases args, k,
{
    if k == 0 || k > ts.len() || k > args.len() {
        (f, Map::empty())
    } else {
        let (f1, m) = variant_args_checked(res, f, ts, args, (k - 1) as nat);
        let (f2, t) = checked(res, f1, args[k - 1]);
        let (f3, ok) = assigned(res, f2, expr_span(args[k - 1]), t, ts[k - 1]);
        (
            if ok {
                f3
            } else {
                erring(
                    f3,
                    expr_span(args[k - 1]),
                    "variant payload "@ + dec(k) + " has type `"@ + ty_text(t) + "`, expected `"@ + ty_text(ts[k - 1])
                        + "`"@,
                )
            },
            learned(ts[k - 1], t, m),
        )
    }
}

/// A call of a variant: its payloads checked, and what they say of the
/// enum's type arguments.
pub open spec fn variant_call_of(
    res: Resolutions<'_>,
    f: Facts,
    v: SymbolId,
    enum_sym: SymbolId,
    args: Seq<Expr>,
    span: Span,
) -> (Facts, TyV)
    decreases args, args.len() + 1,
{
    let (f1, ts) = variant_types(res, f, v);
    if ts.len() == 0 {
        let f2 = erring(
            f1,
            span,
            "variant `"@ + sym_name(res, v) + "` takes no payload — drop the parentheses"@,
        );
        (all_checked(res, f2, args, args.len()).0, TyV::Enum(enum_sym, seq![]))
    } else {
        let f2 = if ts.len() != args.len() {
            erring(f1, span, takes_payloads(res, v, ts.len(), args.len()))
        } else {
            f1
        };
        let (f3, m) = variant_args_checked(res, f2, ts, args, least(ts.len(), args.len()));
        (f3, TyV::Enum(enum_sym, args_learned(view_or(res.enum_generics@, enum_sym, seq![]), m)))
    }
}

pub open spec fn checked_call(res: Resolutions<'_>, f: Facts, e: Expr) -> (Facts, TyV)
    decreases e, 0nat,
{
    match e {
        Expr::Call { callee, args, span } => match called_symbol(res, *callee) {
            Some((_, SymbolKind::PolyBuiltinFn(name))) => {
                let (f1, ts) = all_checked(res, f, args@, args@.len());
                poly_of(f1, name@, args@, ts, span)
            },
            Some((v, SymbolKind::EnumVariant { enum_sym, .. })) => variant_call_of(res, f, v, enum_sym, args@, span),
            _ => {
                let (f1, c) = checked(res, f, *callee);
                let (f2, ts) = all_checked(res, f1, args@, args@.len());
                call_of(res, f2, c, args@, ts, span)
            },
        },
        _ => (f, TyV::Error),
    }
}

pub open spec fn init_at(fs: Seq<FieldInit>, name: Seq<char>) -> spec_fn(int) -> bool {
    |i: int| fs[i].name.name@ == name
}

/// The first `k` fields of a named-variant literal.
pub open spec fn variant_inits_checked(
    res: Resolutions<'_>,
    f: Facts,
    v: SymbolId,
    fs: Seq<FieldInit>,
    names: Seq<Seq<char>>,
    ts: Seq<TyV>,
    k: nat,
) -> Facts
    decreases fs, k,
{
    if k == 0 || k > fs.len() {
        f
    } else {
        let f1 = variant_inits_checked(res, f, v, fs, names, ts, (k - 1) as nat);
        let init = fs[k - 1];
        let name = init.name.name@;
        if first_where(init_at(fs, name), (k - 1) as nat) is Some {
            checked(
                res,
                erring(f1, init.name.span, "duplicate field `"@ + name + "` in variant initializer"@),
                init.value,
            ).0
        } else {
            match position(names, name) {
                None => checked(
                    res,
                    erring(
                        f1,
                        init.name.span,
                        "no field `"@ + name + "` on variant `"@ + sym_name(res, v) + "`"@,
                    ),
                    init.value,
                ).0,
                Some(i) => {
                    let wanted = if i < ts.len() {
                        ts[i]
                    } else {
                        TyV::Error
                    };
                    let (f2, t) = checked(res, f1, init.value);
                    if compatible(t, wanted) {
                        f2
                    } else {
                        erring(
                            f2,
                            expr_span(init.value),
                            "field `"@ + name + "` has type `"@ + ty_text(t) + "`, expected `"@ + ty_text(wanted)
                                + "`"@,
                        )
                    }
                },
            }
        }
    }
}

/// The names among the first `k` that a literal leaves out.
pub open spec fn missing_inits(
    f: Facts,
    fs: Seq<FieldInit>,
    names: Seq<Seq<char>>,
    what: Seq<char>,
    span: Span,
    k: nat,
) -> Facts
    decreases k,
{
    if k == 0 || k > names.len() {
        f
    } else {
        let f1 = missing_inits(f, fs, names, what, span, (k - 1) as nat);
        if first_where(init_at(fs, names[k - 1]), fs.len()) is Some {
            f1
        } else {
            erring(f1, span, "missing field `"@ + names[k - 1] + "` for "@ + what)
        }
    }
}

pub open spec fn variant_lit_of(
    res: Resolutions<'_>,
    f: Facts,
    v: SymbolId,
    enum_sym: SymbolId,
    path_span: Span,
    fs: Seq<FieldInit>,
    span: Span,
) -> (Facts, TyV)
    decreases fs, fs.len() + 1,
{
    match payload_names(res, v) {
        None => (
            erring(
                f,
                span,
                "variant `"@ + sym_name(res, v) + "` is not a struct-style variant — use `"@ + sym_name(res, v)
                    + "(...)` instead"@,
            ),
            TyV::Enum(enum_sym, seq![]),
        ),
        Some(names) => {
            let (f1, ts) = variant_types(res, f, v);
            let f2 = if fs.len() != names.len() {
                erring(
                    f1,
                    span,
                    "variant `"@ + sym_name(res, v) + "` has "@ + dec(names.len()) + " field"@ + plural(names.len())
                        + ", found "@ + dec(fs.len()),
                )
            } else {
                f1
            };
            let f3 = variant_inits_checked(res, f2, v, fs, names, ts, fs.len());
            (
                missing_inits(
                    f3,
                    fs,
                    names,
                    "variant `"@ + sym_name(res, v) + "`"@,
                    path_span,
                    names.len(),
                ),
                TyV::Enum(enum_sym, seq![]),
            )
        },
    }
}

/// What the first pass over a struct literal's fields finds: the types of
/// the values that are not closures, and what they say of the struct's type
/// variables.
pub struct Inits {
    pub f: Facts,
    pub tys: Seq<Option<TyV>>,
    pub learned: Map<SymbolId, TyV>,
    pub provided: Seq<Seq<char>>,
}

pub open spec fn provided_once(s: Inits, name: Ident) -> Inits {
    if s.provided.contains(name.name@) {
        Inits {
            f: erring(s.f, name.span, "field `"@ + name.name@ + "` set more than once"@),
            ..s
        }
    } else {
        Inits { provided: s.provided.push(name.name@), ..s }
    }
}

pub open spec fn inits_first(
    res: Resolutions<'_>,
    f: Facts,
    struct_name: Seq<char>,
    l: LayoutV,
    fs: Seq<FieldInit>,
    k: nat,
) -> Inits
    decreases fs, k,
{
    if k == 0 || k > fs.len() {
        Inits { f, tys: seq![], learned: Map::empty(), provided: seq![] }
    } else {
        let s = inits_first(res, f, struct_name, l, fs, (k - 1) as nat);
        let init = fs[k - 1];
        if init.value is Closure {
            provided_once(Inits { tys: s.tys.push(None), ..s }, init.name)
        } else {
            let (f1, t) = checked(res, s.f, init.value);
            match field_ty(l, init.name.name@) {
                None => Inits {
                    f: erring(
                        f1,
                        init.name.span,
                        "`"@ + struct_name + "` has no field `"@ + init.name.name@ + "`"@,
                    ),
                    tys: s.tys.push(Some(t)),
                    ..s
                },
                Some(d) => provided_once(
                    Inits { f: f1, tys: s.tys.push(Some(t)), learned: learned(d, t, s.learned), ..s },
                    init.name,
                ),
            }
        }
    }
}

/// The second pass over the first `k` fields: closures are checked for what
/// the field wants, and every value is held against its field.
pub open spec fn inits_second(
    res: Resolutions<'_>,
    s: Inits,
    l: LayoutV,
    fs: Seq<FieldInit>,
    k: nat,
) -> (Facts, Map<SymbolId, TyV>)
    decreases fs, k,
{
    if k == 0 || k > fs.len() {
        (s.f, s.learned)
    } else {
        let (f1, m) = inits_second(res, s, l, fs, (k - 1) as nat);
        let init = fs[k - 1];
        match field_ty(l, init.name.name@) {
            None => (f1, m),
            Some(d) => {
                let wanted = at(res, f1, m, None, d);
                let (f2, t, m2) = match s.tys[k - 1] {
                    Some(t) => (f1, t, m),
                    None => {
                        let (g, t) = checked_for(res, f1, init.value, Some(wanted));
                        (g, t, learned(d, t, m))
                    },
                };
                let (f3, ok) = assigned(res, f2, expr_span(init.value), t, wanted);
                (
                    if ok {
                        f3
                    } else {
                        erring(
                            f3,
                            expr_span(init.value),
                            "field `"@ + init.name.name@ + "` declared `"@ + ty_text(wanted)
                                + "` but value has type `"@ + ty_text(t) + "`"@,
                        )
                    },
                    m2,
                )
            },
        }
    }
}

/// The fields among the first `k` that a struct literal leaves out.
pub open spec fn missing_fields(
    f: Facts,
    provided: Seq<Seq<char>>,
    l: LayoutV,
    struct_name: Seq<char>,
    span: Span,
    k: nat,
) -> Facts
    decreases k,
{
    if k == 0 || k > l.fields.len() {
        f
    } else {
        let f1 = missing_fields(f, provided, l, struct_name, span, (k - 1) as nat);
        if provided.contains(l.fields[k - 1].0) {
            f1
        } else {
            erring(f1, span, "missing field `"@ + l.fields[k - 1].0 + "` for `"@ + struct_name + "`"@)
        }
    }
}

pub open spec fn values_checked(res: Resolutions<'_>, f: Facts, fs: Seq<FieldInit>, k: nat) -> Facts
    decreases fs, k,
{
    if k == 0 || k > fs.len() {
        f
    } else {
        checked(res, values_checked(res, f, fs, (k - 1) as nat), fs[k - 1].value).0
    }
}

pub open spec fn struct_lit_of(res: Resolutions<'_>, f: Facts, e: Expr) -> (Facts, TyV)
    decreases e, 0nat,
{
    match e {
        Expr::StructLit { path, fields, span } => match lookup(res.path_to_sym@, path.span) {
            None => (f, TyV::Error),
            Some(s) => match sym_kind(res, s) {
                Some(SymbolKind::EnumVariant { enum_sym, .. }) => variant_lit_of(
                    res,
                    f,
                    s,
                    enum_sym,
                    path.span,
                    fields@,
                    span,
                ),
                Some(SymbolKind::Struct) => match lookup(f.struct_layouts, s) {
                    None => (
                        erring(f, path.span, "no layout for struct `"@ + sym_name(res, s) + "`"@),
                        TyV::Error,
                    ),
                    Some(l) => {
                        let first = inits_first(res, f, sym_name(res, s), l, fields@, fields@.len());
                        let (f1, m) = inits_second(res, first, l, fields@, fields@.len());
                        (
                            missing_fields(f1, first.provided, l, sym_name(res, s), span, l.fields.len()),
                            TyV::Struct(s, args_learned(view_or(res.struct_generics@, s, seq![]), m)),
                        )
                    },
                },
                _ => (
                    values_checked(
                        res,
                        erring(f, path.span, "`"@ + sym_name(res, s) + "` is not a struct"@),
                        fields@,
                        fields@.len(),
                    ),
                    TyV::Error,
                ),
            },
        },
        _ => (f, TyV::Error),
    }
}

/// The types of the first `k` closure parameters: as annotated, or as wanted.
pub open spec fn closure_params_of(
    res: Resolutions<'_>,
    f: Facts,
    ps: Seq<ClosureParam>,
    wanted: Seq<TyV>,
    k: nat,
) -> (Facts, Seq<TyV>)
    decreases k,
{
    if k == 0 || k > ps.len() {
        (f, seq![])
    } else {
        let (f1, ts) = closure_params_of(res, f, ps, wanted, (k - 1) as nat);
        let p = ps[k - 1];
        let (f2, t) = match p.ty {
            Some(t) => type_of(res, f1, t),
            None => if k <= wanted.len() {
                (f1, wanted[k - 1])
            } else {
                (
                    erring(
                        f1,
                        p.span,
                        "closure parameter `"@ + p.name.name@
                            + "` needs a type annotation (no contextual hint at this position)"@,
                    ),
                    TyV::Error,
                )
            },
        };
        (with_local(f2, p.name.span, t), ts.push(t))
    }
}

pub open spec fn captures_of(res: Resolutions<'_>, span: Span) -> Seq<SymbolId> {
    view_or(res.closure_captures@, span, seq![])
}

/// The first `k` captures laid out as a struct.
pub open spec fn captures_laid_out(res: Resolutions<'_>, f: Facts, ids: Seq<SymbolId>, k: nat) -> LayoutV
    decreases k,
{
    if k == 0 || k > ids.len() {
        LayoutV { fields: seq![], size: 0 }
    } else {
        let l = captures_laid_out(res, f, ids, (k - 1) as nat);
        LayoutV {
            fields: l.fields.push(
                (sym_name(res, ids[k - 1]), known_or_error(f.local_types, sym_span(res, ids[k - 1])), l.size),
            ),
            size: next_offset(l.size),
        }
    }
}

/// The type of a closure whose parameters and body are checked: a function
/// type, or its own struct type when it captures something.
pub open spec fn closure_type(res: Resolutions<'_>, f: Facts, params: Seq<TyV>, ret: TyV, span: Span) -> (Facts, TyV) {
    let ids = captures_of(res, span);
    let fn_ty = TyV::Fn { params, ret: Box::new(ret) };
    if ids.len() == 0 || !res.closure_struct_sym@.contains_key(span) {
        (f, fn_ty)
    } else {
        let s = res.closure_struct_sym@[span];
        let own = TyV::Struct(s, seq![]);
        let f1 = with_layout(f, s, captures_laid_out(res, f, ids, ids.len()));
        let f2 = match lookup(res.closure_call_method_sym@, span) {
            Some(c) => with_signature(
                f1,
                sym_span(res, c),
                TyV::Fn { params: seq![own] + params, ret: Box::new(ret) },
            ),
            None => f1,
        };
        (f2, own)
    }
}

pub open spec fn wanted_params(wanted: Option<TyV>) -> Option<Seq<TyV>> {
    match wanted {
        Some(TyV::Fn { params, .. }) => Some(params),
        _ => None,
    }
}

/// The state on the way into a closure's body, with its parameter types.
pub open spec fn closure_begun(
    res: Resolutions<'_>,
    f: Facts,
    ps: Seq<ClosureParam>,
    span: Span,
    wanted: Option<TyV>,
) -> (Facts, Seq<TyV>) {
    let want = wanted_params(wanted);
    let f1 = match want {
        Some(ws) => if ws.len() != ps.len() {
            erring(
                f,
                span,
                "closure expects "@ + dec(ps.len()) + " parameter"@ + plural(ps.len()) + " but the context wants "@
                    + dec(ws.len()),
            )
        } else {
            f
        },
        None => f,
    };
    let ws = match want {
        Some(ws) => ws,
        None => seq![],
    };
    let (f2, ts) = closure_params_of(res, f1, ps, ws, ps.len());
    (with_closure_params(f2, span, ts), ts)
}

/// The state after a closure's body, and the closure's type.
pub open spec fn closure_ended(
    res: Resolutions<'_>,
    f: Facts,
    ts: Seq<TyV>,
    t: TyV,
    body_span: Span,
    span: Span,
    wanted: Option<TyV>,
) -> (Facts, TyV) {
    let f1 = match wanted {
        Some(TyV::Fn { ret, .. }) => if compatible(t, *ret) {
            f
        } else {
            erring(
                f,
                body_span,
                "closure body returns `"@ + ty_text(t) + "` but the context wants `"@ + ty_text(*ret) + "`"@,
            )
        },
        _ => f,
    };
    closure_type(res, with_closure_ret(f1, span, t), ts, t, span)
}

pub open spec fn closure_of(res: Resolutions<'_>, f: Facts, e: Expr, wanted: Option<TyV>) -> (Facts, TyV)
    decreases e, 0nat,
{
    match e {
        Expr::Closure { params, body, span } => {
            let (f1, ts) = closure_begun(res, f, params@, span, wanted);
            let (f2, t) = checked(res, f1, *body);
            closure_ended(res, f2, ts, t, expr_span(*body), span, wanted)
        },
        _ => (f, TyV::Error),
    }
}

// ---- statements and items ----

pub open spec fn block_checked(res: Resolutions<'_>, f: Facts, b: Block) -> (Facts, TyV)
    decreases b, 1nat,
{
    stmts_checked(res, f, b.stmts@, b.stmts@.len())
}

/// The first `k` statements, with the type of the last.
pub open spec fn stmts_checked(res: Resolutions<'_>, f: Facts, ss: Seq<Stmt>, k: nat) -> (Facts, TyV)
    decreases ss, k,
{
    if k == 0 || k > ss.len() {
        (f, TyV::Unit)
    } else {
        stmt_checked(res, stmts_checked(res, f, ss, (k - 1) as nat).0, ss[k - 1])
    }
}

pub open spec fn stmt_checked(res: Resolutions<'_>, f: Facts, s: Stmt) -> (Facts, TyV)
    decreases s, 1nat,
{
    match s {
        Stmt::Let(l) => (let_checked(res, f, l), TyV::Unit),
        Stmt::Expr(e, semi) => {
            let (f1, t) = checked(res, f, e);
            (
                f1,
                if semi {
                    TyV::Unit
                } else {
                    t
                },
            )
        },
        Stmt::Item(item) => {
            let f1 = match item {
                Item::Fn(d) => with_fn(res, f, d),
                Item::Const(c) => const_registered(res, f, c),
                _ => f,
            };
            (item_checked(res, f1, item), TyV::Unit)
        },
    }
}

/// What a binding's declared type and its initializer's type come to.
pub open spec fn let_ended(
    res: Resolutions<'_>,
    f: Facts,
    l: LetStmt,
    declared: Option<TyV>,
    given: Option<TyV>,
) -> Facts {
    match (declared, given) {
        (Some(d), Some(i)) => if let_keeps_closure(res, i, d) {
            binds(res, f, l.pat, i)
        } else {
            let init_span = match l.init {
                Some(e) => expr_span(e),
                None => l.span,
            };
            let (f1, ok) = assigned(res, f, init_span, i, d);
            let f2 = if ok {
                f1
            } else {
                erring(
                    f1,
                    l.span,
                    "let binding declared `"@ + ty_text(d) + "` but initializer has type `"@ + ty_text(i) + "`"@,
                )
            };
            binds(res, f2, l.pat, d)
        },
        (Some(d), None) => binds(res, f, l.pat, d),
        (None, Some(i)) => binds(res, f, l.pat, i),
        (None, None) => binds(
            res,
            erring(f, l.span, "let binding has neither type nor initializer"@),
            l.pat,
            TyV::Error,
        ),
    }
}

/// Whether a binding declared as a function keeps its closure's own type.
pub open spec fn let_keeps_closure(res: Resolutions<'_>, given: TyV, declared: TyV) -> bool {
    match given {
        TyV::Struct(s, _) => declared is Fn && res.impl_methods@.contains_key((s, "call"@)),
        _ => false,
    }
}

pub open spec fn let_checked(res: Resolutions<'_>, f: Facts, l: LetStmt) -> Facts
    decreases l, 1nat,
{
    let (f1, declared) = match l.ty {
        Some(t) => {
            let (g, d) = type_of(res, f, t);
            (g, Some(d))
        },
        None => (f, None),
    };
    match l.init {
        Some(e) => {
            let (f2, t) = checked_for(res, f1, e, declared);
            let_ended(res, f2, l, declared, Some(t))
        },
        None => let_ended(res, f1, l, declared, None),
    }
}

/// The parameters of a function with their types.
pub open spec fn params_bound(f: Facts, ps: Seq<Param>, ts: Seq<TyV>, k: nat) -> Facts
    decreases k,
{
    if k == 0 || k > ps.len() || k > ts.len() {
        f
    } else {
        with_local(params_bound(f, ps, ts, (k - 1) as nat), ps[k - 1].name.span, ts[k - 1])
    }
}

pub open spec fn fn_sig(f: Facts, at: Span) -> (Seq<TyV>, TyV) {
    match lookup(f.fn_signatures, at) {
        Some(TyV::Fn { params, ret }) => (params, *ret),
        _ => (seq![], TyV::Error),
    }
}

pub open spec fn fn_ended(f: Facts, name: Seq<char>, at: Span, body: TyV, ret: TyV, before: TyV) -> Facts {
    returning(
        if compatible(body, ret) {
            f
        } else {
            erring(
                f,
                at,
                "function `"@ + name + "` returns `"@ + ty_text(ret) + "` but body has type `"@ + ty_text(
                    body,
                ) + "`"@,
            )
        },
        before,
    )
}

pub open spec fn fn_checked(res: Resolutions<'_>, f: Facts, d: FnDecl) -> Facts
    decreases d, 1nat,
{
    let (ts, ret) = fn_sig(f, d.name.span);
    let f1 = params_bound(f, d.params@, ts, least(d.params@.len(), ts.len()));
    let (f2, body) = block_checked(res, returning(f1, ret), d.body);
    fn_ended(f2, d.name.name@, d.body.span, body, ret, f.current_return)
}

/// A trait's method: its default body, when it has one, is checked like a
/// function's.
pub open spec fn default_checked(res: Resolutions<'_>, f: Facts, m: TraitMethodSig) -> Facts
    decreases m, 1nat,
{
    match m.body {
        None => f,
        Some(b) => {
            let (ts, ret) = fn_sig(f, m.name.span);
            let f1 = params_bound(f, m.params@, ts, least(m.params@.len(), ts.len()));
            let (f2, body) = block_checked(res, returning(f1, ret), b);
            fn_ended(f2, m.name.name@, b.span, body, ret, f.current_return)
        },
    }
}

pub open spec fn defaults_checked(res: Resolutions<'_>, f: Facts, ms: Seq<TraitMethodSig>, k: nat) -> Facts
    decreases ms, k,
{
    if k == 0 || k > ms.len() {
        f
    } else {
        default_checked(res, defaults_checked(res, f, ms, (k - 1) as nat), ms[k - 1])
    }
}

pub open spec fn fns_checked(res: Resolutions<'_>, f: Facts, ds: Seq<FnDecl>, k: nat) -> Facts
    decreases ds, k,
{
    if k == 0 || k > ds.len() {
        f
    } else {
        fn_checked(res, fns_checked(res, f, ds, (k - 1) as nat), ds[k - 1])
    }
}

pub open spec fn const_checked(res: Resolutions<'_>, f: Facts, c: ConstDecl) -> Facts
    decreases c, 1nat,
{
    let declared = known_or_error(f.local_types, c.name.span);
    let (f1, t) = checked(res, f, c.value);
    if compatible(t, declared) {
        f1
    } else {
        erring(
            f1,
            expr_span(c.value),
            "const `"@ + c.name.name@ + "` declared as `"@ + ty_text(declared) + "` but value has type `"@ + ty_text(t)
                + "`"@,
        )
    }
}

pub open spec fn item_checked(res: Resolutions<'_>, f: Facts, item: Item) -> Facts
    decreases item, 1nat,
{
    match item {
        Item::Fn(d) => fn_checked(res, f, d),
        Item::Const(c) => const_checked(res, f, c),
        Item::Impl(i) => {
            let inside = match lookup(res.path_to_sym@, i.type_path.span) {
                Some(s) => Some(SelfContext::Impl(s)),
                None => None,
            };
            let f1 = fns_checked(res, within(f, inside), i.methods@, i.methods@.len());
            within(conforms(res, f1, i), f.current_self)
        },
        Item::Trait(t) => {
            let inside = match lookup(res.decl_to_sym@, t.name.span) {
                Some(s) => Some(SelfContext::Trait(s)),
                None => None,
            };
            within(defaults_checked(res, within(f, inside), t.methods@, t.methods@.len()), f.current_self)
        },
        Item::Mod(m) => items_checked(res, f, m.items@, m.items@.len()),
        _ => f,
    }
}

pub open spec fn items_checked(res: Resolutions<'_>, f: Facts, items: Seq<Item>, k: nat) -> Facts
    decreases items, k,
{
    if k == 0 || k > items.len() {
        f
    } else {
        item_checked(res, items_checked(res, f, items, (k - 1) as nat), items[k - 1])
    }
}

/// What checking a whole module finds: the layouts, the signatures, then
/// what is inside the items.
pub open spec fn module_checked(res: Resolutions<'_>, m: Module) -> Facts {
    let n = m.items@.len();
    items_checked(res, registered(res, layouts_found(res, no_facts(), m.items@, n), m.items@, n), m.items@, n)
}

} // verus!
