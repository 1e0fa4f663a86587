//! Monomorphization.
//!
//! Each call of a generic function is specialized for the concrete types its
//! arguments have. Inference is positional and one-shot: the parameter types
//! are matched against the argument types, and every type variable met binds
//! to what stands opposite. A specialized body may call further generic
//! functions; those calls are queued and processed until none is left.

use vstd::prelude::*;

use crate::facts::assoc_maps;
use crate::graph::{contains_sym, syms_map};
use crate::hir::{
    HirBlock, HirBlockV, HirExpr, HirExprKind, HirFn, HirFnV, HirItem, HirKindV, HirModule,
    HirParam, HirParamV, expr_views, fn_view, fn_views, item_views, param_view, param_views,
};
use crate::hir_walk::{
    HirPass, Mention, MentionV, Rewrite, block_mentions, expr_tys, list_block, list_sym, list_ty,
    map_block, mapped_block, mention_views, tys_of,
};
use crate::table::{Key, Table, copy_syms};
use crate::text::{dec, join, joined, push_dec, texts};
use crate::ty::{
    SymbolId, Ty, TyV, contains_ty, copy_tys, float_name, int_name, same_tys, ty_view, ty_views,
};

verus! {

/// The symbol numbers ran out before every specialization had one.
#[derive(Debug, Clone, Copy, PartialEq, Eq, Structural)]
pub struct SymbolsExhausted;

impl Key for (SymbolId, Vec<Ty>) {
    type Id = (SymbolId, Seq<TyV>);

    open spec fn id(self) -> (SymbolId, Seq<TyV>) {
        (self.0, ty_views(self.1@))
    }

    fn same(&self, other: &Self) -> (r: bool) {
        self.0.0 == other.0.0 && same_tys(&self.1, &other.1)
    }

    fn dup(&self) -> (r: Self) {
        (self.0, copy_tys(&self.1))
    }
}

// ---- substitution ----

/// A binding of type variables, with the types as mathematical values.
pub open spec fn ty_map(m: Map<SymbolId, Ty>) -> Map<SymbolId, TyV> {
    m.map_values(|t: Ty| t@)
}

/// What specialization reads of a module beside its functions: the function
/// behind each method, what each struct binds an associated type to, and the
/// type parameters of each struct.
pub struct Known {
    pub methods: Map<(SymbolId, Seq<char>), SymbolId>,
    pub bindings: Map<(SymbolId, Seq<char>), TyV>,
    pub params: Map<SymbolId, Seq<SymbolId>>,
}

/// The same, as it is held.
#[derive(Clone, Copy)]
struct Setting<'a> {
    methods: &'a Table<(SymbolId, String), SymbolId>,
    bindings: &'a Table<(SymbolId, String), Ty>,
    params: &'a Table<SymbolId, Vec<SymbolId>>,
}

impl<'a> View for Setting<'a> {
    type V = Known;

    closed spec fn view(&self) -> Known {
        Known {
            methods: self.methods@,
            bindings: assoc_maps(self.bindings@),
            params: syms_map(self.params@),
        }
    }
}

/// What a module tells specialization.
pub open spec fn known_of(m: HirModule) -> Known {
    Known {
        methods: m.impl_methods@,
        bindings: assoc_maps(m.impl_assoc_bindings_ty@),
        params: syms_map(m.struct_generics@),
    }
}

/// The type parameters of a struct.
pub open spec fn params_of(kn: Known, s: SymbolId) -> Seq<SymbolId> {
    if kn.params.contains_key(s) {
        kn.params[s]
    } else {
        seq![]
    }
}

/// A type with its variables replaced by what they are bound to. A projection
/// on a struct becomes what the struct binds the name to, with the struct's
/// own parameters replaced, unless that leaves a variable. Bindings are
/// followed one inside another as long as they can be counted.
pub open spec fn substituted(kn: Known, m: Map<SymbolId, TyV>, t: TyV) -> TyV {
    substituted_within(kn, m, t, usize::MAX as nat)
}

/// The same, following at most `d` bindings one inside another.
pub open spec fn substituted_within(kn: Known, m: Map<SymbolId, TyV>, t: TyV, d: nat) -> TyV
    decreases d, t,
{
    match t {
        TyV::TypeVar(v) => if m.contains_key(v) {
            m[v]
        } else {
            t
        },
        TyV::Array(e, n) => TyV::Array(Box::new(substituted_within(kn, m, *e, d)), n),
        TyV::Fn { params, ret } => TyV::Fn {
            params: all_substituted_within(kn, m, params, d),
            ret: Box::new(substituted_within(kn, m, *ret, d)),
        },
        TyV::Struct(s, args) => TyV::Struct(s, all_substituted_within(kn, m, args, d)),
        TyV::Enum(s, args) => TyV::Enum(s, all_substituted_within(kn, m, args, d)),
        TyV::Dyn(s, args) => TyV::Dyn(s, all_substituted_within(kn, m, args, d)),
        TyV::Weak(e) => TyV::Weak(Box::new(substituted_within(kn, m, *e, d))),
        TyV::Vec(e) => TyV::Vec(Box::new(substituted_within(kn, m, *e, d))),
        TyV::HashMap(k, v) => TyV::HashMap(
            Box::new(substituted_within(kn, m, *k, d)),
            Box::new(substituted_within(kn, m, *v, d)),
        ),
        TyV::Assoc(b, name) => {
            let base = substituted_within(kn, m, *b, d);
            let kept = TyV::Assoc(Box::new(base), name);
            match base {
                TyV::Struct(s, args) => if d > 0 && kn.bindings.contains_key((s, name)) {
                    let found = substituted_within(
                        kn,
                        zipped(params_of(kn, s), args),
                        kn.bindings[(s, name)],
                        (d - 1) as nat,
                    );
                    if ground(found) {
                        found
                    } else {
                        kept
                    }
                } else {
                    kept
                },
                _ => kept,
            }
        },
        _ => t,
    }
}

pub open spec fn all_substituted_within(kn: Known, m: Map<SymbolId, TyV>, ts: Seq<TyV>, d: nat) -> Seq<TyV>
    decreases d, ts,
{
    Seq::new(
        ts.len(),
        |i: int|
            if 0 <= i < ts.len() {
                substituted_within(kn, m, ts[i], d)
            } else {
                TyV::Error
            },
    )
}

fn subst_ty(set: &Setting<'_>, ty: &Ty, subst: &Table<SymbolId, Ty>, depth: usize) -> (r: Ty)
    ensures
        r@ == substituted_within(set@, ty_map(subst@), ty@, depth as nat),
    decreases depth, ty,
{
    match ty {
        Ty::TypeVar(t) => match subst.get(t) {
            Some(bound) => bound.copy(),
            None => ty.copy(),
        },
        Ty::Array(elem, n) => Ty::Array(Box::new(subst_ty(set, elem, subst, depth)), *n),
        Ty::Fn { params, ret } => Ty::Fn {
            params: subst_tys(set, params, subst, depth),
            ret: Box::new(subst_ty(set, ret, subst, depth)),
        },
        Ty::Struct(s, args) => Ty::Struct(*s, subst_tys(set, args, subst, depth)),
        Ty::Enum(s, args) => Ty::Enum(*s, subst_tys(set, args, subst, depth)),
        Ty::Dyn(s, args) => Ty::Dyn(*s, subst_tys(set, args, subst, depth)),
        Ty::Weak(inner) => Ty::Weak(Box::new(subst_ty(set, inner, subst, depth))),
        Ty::Vec(elem) => Ty::Vec(Box::new(subst_ty(set, elem, subst, depth))),
        Ty::HashMap(k, v) => Ty::HashMap(
            Box::new(subst_ty(set, k, subst, depth)),
            Box::new(subst_ty(set, v, subst, depth)),
        ),
        Ty::Assoc(b, name) => {
            let base = subst_ty(set, b, subst, depth);
            if depth > 0 {
                if let Ty::Struct(s, args) = &base {
                    if let Some(bound) = set.bindings.get(&(*s, name.clone())) {
                        let inner = match set.params.get(s) {
                            Some(params) => bind(params, args),
                            None => {
                                let none: Vec<SymbolId> = Vec::new();
                                assert(none@ =~= seq![]);
                                bind(&none, args)
                            },
                        };
                        let found = subst_ty(set, bound, &inner, depth - 1);
                        if is_ground(&found) {
                            return found;
                        }
                    }
                }
            }
            Ty::Assoc(Box::new(base), name.clone())
        },
        _ => ty.copy(),
    }
}

fn subst_tys(set: &Setting<'_>, ts: &Vec<Ty>, subst: &Table<SymbolId, Ty>, depth: usize) -> (r: Vec<Ty>)
    ensures
        ty_views(r@) == all_substituted_within(set@, ty_map(subst@), ty_views(ts@), depth as nat),
    decreases depth, ts,
{
    let mut out: Vec<Ty> = Vec::new();
    let mut i: usize = 0;
    while i < ts.len()
        invariant
            i <= ts.len(),
            out.len() == i,
            forall|j: int|
                0 <= j < i ==> ty_view(#[trigger] out[j]) == substituted_within(
                    set@,
                    ty_map(subst@),
                    ty_view(ts[j]),
                    depth as nat,
                ),
        decreases ts.len() - i,
    {
        out.push(subst_ty(set, &ts[i], subst, depth));
        i += 1;
    }
    assert(ty_views(out@) =~= all_substituted_within(set@, ty_map(subst@), ty_views(ts@), depth as nat));
    out
}

/// Whether a type holds no type variable.
pub open spec fn ground(t: TyV) -> bool
    decreases t,
{
    match t {
        TyV::TypeVar(_) => false,
        TyV::Vec(e) => ground(*e),
        TyV::Weak(e) => ground(*e),
        TyV::HashMap(k, v) => ground(*k) && ground(*v),
        TyV::Array(e, _) => ground(*e),
        TyV::Fn { params, ret } => all_ground(params) && ground(*ret),
        TyV::Struct(_, args) => all_ground(args),
        TyV::Enum(_, args) => all_ground(args),
        TyV::Assoc(b, _) => ground(*b),
        TyV::Dyn(_, args) => all_ground(args),
        _ => true,
    }
}

pub open spec fn all_ground(ts: Seq<TyV>) -> bool
    decreases ts,
{
    forall|i: int| 0 <= i < ts.len() ==> ground(#[trigger] ts[i])
}

fn is_ground(t: &Ty) -> (r: bool)
    ensures
        r == ground(t@),
    decreases t,
{
    match t {
        Ty::TypeVar(_) => false,
        Ty::Vec(e) => is_ground(e),
        Ty::Weak(e) => is_ground(e),
        Ty::HashMap(k, v) => is_ground(k) && is_ground(v),
        Ty::Array(e, _) => is_ground(e),
        Ty::Fn { params, ret } => are_ground(params) && is_ground(ret),
        Ty::Struct(_, args) => are_ground(args),
        Ty::Enum(_, args) => are_ground(args),
        Ty::Assoc(b, _) => is_ground(b),
        Ty::Dyn(_, args) => are_ground(args),
        _ => true,
    }
}

fn are_ground(ts: &Vec<Ty>) -> (r: bool)
    ensures
        r == all_ground(ty_views(ts@)),
    decreases ts,
{
    let mut i: usize = 0;
    while i < ts.len()
        invariant
            i <= ts.len(),
            forall|j: int| 0 <= j < i ==> ground(#[trigger] ty_views(ts@)[j]),
        decreases ts.len() - i,
    {
        if !is_ground(&ts[i]) {
            assert(!ground(ty_views(ts@)[i as int]));
            return false;
        }
        i += 1;
    }
    true
}

/// Replaces type variables in every type of a tree.
pub open spec fn substitution(kn: Known, m: Map<SymbolId, TyV>) -> Rewrite {
    Rewrite { ty: |t: TyV| substituted(kn, m, t), kind: |k: HirKindV| k }
}

struct SubstPass<'a> {
    set: Setting<'a>,
    subst: &'a Table<SymbolId, Ty>,
}

impl<'a> HirPass for SubstPass<'a> {
    closed spec fn rewrite(self) -> Rewrite {
        substitution(self.set@, ty_map(self.subst@))
    }

    fn map_ty(&self, t: &Ty) -> (r: Ty) {
        subst_ty(&self.set, t, self.subst, usize::MAX)
    }

    fn map_kind(&self, k: HirExprKind) -> (r: HirExprKind) {
        k
    }
}

pub open spec fn substituted_params(kn: Known, m: Map<SymbolId, TyV>, ps: Seq<HirParamV>) -> Seq<HirParamV> {
    Seq::new(
        ps.len(),
        |i: int| HirParamV { sym: ps[i].sym, name: ps[i].name, ty: substituted(kn, m, ps[i].ty) },
    )
}

/// Builds the function `sym`, named `name`, from a generic one by applying
/// `subst` to every type in its parameters, return type and body. Symbols in
/// the body stay as they are, but for method calls, which are resolved.
fn subst_fn(set: &Setting<'_>, f: &HirFn, subst: &Table<SymbolId, Ty>, sym: SymbolId, name: String) -> (r: HirFn)
    ensures
        r@ == (HirFnV {
            sym,
            name: name@,
            generics: seq![],
            params: substituted_params(set@, ty_map(subst@), f@.params),
            ret_ty: substituted(set@, ty_map(subst@), f@.ret_ty),
            body: mapped_block(
                method_rewrite(set@.methods),
                mapped_block(substitution(set@, ty_map(subst@)), f@.body),
            ),
        }),
{
    let pass = SubstPass { set: *set, subst };
    let mut params: Vec<HirParam> = Vec::new();
    let mut i: usize = 0;
    while i < f.params.len()
        invariant
            i <= f.params.len(),
            params.len() == i,
            forall|j: int|
                0 <= j < i ==> param_view(#[trigger] params[j]) == (HirParamV {
                    sym: f.params[j].sym,
                    name: f.params[j].name@,
                    ty: substituted(set@, ty_map(subst@), f.params[j].ty@),
                }),
        decreases f.params.len() - i,
    {
        let p = &f.params[i];
        params.push(HirParam { sym: p.sym, name: p.name.clone(), ty: subst_ty(set, &p.ty, subst, usize::MAX) });
        i += 1;
    }
    assert(param_views(params@) =~= substituted_params(set@, ty_map(subst@), param_views(f.params@)));
    let generics: Vec<SymbolId> = Vec::new();
    HirFn {
        sym,
        name,
        generics,
        params,
        ret_ty: subst_ty(set, &f.ret_ty, subst, usize::MAX),
        body: resolve_method_calls_in_block(&map_block(&pass, &f.body), set.methods),
    }
}

// ---- inference ----

/// Whether bindings were only added.
pub open spec fn keeps(before: Map<SymbolId, TyV>, after: Map<SymbolId, TyV>) -> bool {
    forall|k: SymbolId|
        #![trigger after.contains_key(k)]
        #![trigger after[k]]
        before.contains_key(k) ==> after.contains_key(k) && after[k] == before[k]
}

/// Matches a parameter type against an argument type, extending the
/// bindings: a variable met for the first time binds to what stands
/// opposite, and must meet the same type again later. The type arguments of
/// structs and enums are matched as far as both sides have them; those of
/// trait objects tell them apart, so both sides must have as many.
pub open spec fn matched(p: TyV, a: TyV, m: Map<SymbolId, TyV>) -> Option<Map<SymbolId, TyV>>
    decreases p, 0nat,
{
    match p {
        TyV::TypeVar(t) => if !m.contains_key(t) {
            Some(m.insert(t, a))
        } else if m[t] == a {
            Some(m)
        } else {
            None
        },
        TyV::Struct(s, ps) => if a is Struct && a->Struct_0 == s {
            all_matched(ps, a->Struct_1, m, shorter(ps, a->Struct_1))
        } else {
            None
        },
        TyV::Enum(s, ps) => if a is Enum && a->Enum_0 == s {
            all_matched(ps, a->Enum_1, m, shorter(ps, a->Enum_1))
        } else {
            None
        },
        TyV::Array(pe, n) => if a is Array {
            matched(*pe, *a->Array_0, m)
        } else {
            None
        },
        TyV::Vec(pe) => if a is Vec {
            matched(*pe, *a->Vec_0, m)
        } else {
            None
        },
        TyV::Weak(pe) => if a is Weak {
            matched(*pe, *a->Weak_0, m)
        } else {
            None
        },
        TyV::HashMap(pk, pv) => if a is HashMap {
            match matched(*pk, *a->HashMap_0, m) {
                Some(m1) => matched(*pv, *a->HashMap_1, m1),
                None => None,
            }
        } else {
            None
        },
        TyV::Dyn(s, ps) => if a is Dyn && a->Dyn_0 == s && ps.len() == a->Dyn_1.len() {
            all_matched(ps, a->Dyn_1, m, ps.len())
        } else {
            None
        },
        _ => if p == a {
            Some(m)
        } else {
            None
        },
    }
}

pub open spec fn shorter(a: Seq<TyV>, b: Seq<TyV>) -> nat {
    if a.len() <= b.len() {
        a.len()
    } else {
        b.len()
    }
}

/// Matches the first `n` positions of two lists, left to right.
pub open spec fn all_matched(
    ps: Seq<TyV>,
    args: Seq<TyV>,
    m: Map<SymbolId, TyV>,
    n: nat,
) -> Option<Map<SymbolId, TyV>>
    decreases ps, n,
{
    if n == 0 || n > ps.len() {
        Some(m)
    } else {
        match all_matched(ps, args, m, (n - 1) as nat) {
            Some(m1) => matched(ps[n - 1], args[n - 1], m1),
            None => None,
        }
    }
}

proof fn mismatch_stays(ps: Seq<TyV>, args: Seq<TyV>, m: Map<SymbolId, TyV>, i: nat, n: nat)
    requires
        i <= n <= ps.len(),
        all_matched(ps, args, m, i) is None,
    ensures
        all_matched(ps, args, m, n) is None,
    decreases n,
{
    if i < n {
        mismatch_stays(ps, args, m, i, (n - 1) as nat);
    }
}

/// Matches a parameter type against an argument type. What was bound before
/// stays bound as it was, also where the types do not match; a variable that
/// is bound to another type changes nothing.
pub fn unify(param: &Ty, arg: &Ty, subst: &mut Table<SymbolId, Ty>) -> (r: bool)
    ensures
        r ==> matched(param@, arg@, ty_map(old(subst)@)) == Some(ty_map(final(subst)@)),
        !r ==> matched(param@, arg@, ty_map(old(subst)@)) is None,
        !r && param@ is TypeVar ==> ty_map(final(subst)@) == ty_map(old(subst)@),
        keeps(ty_map(old(subst)@), ty_map(final(subst)@)),
    decreases param, 0nat,
{
    match (param, arg) {
        (Ty::TypeVar(t), concrete) => match subst.get(t) {
            None => {
                subst.insert(*t, concrete.copy());
                assert(ty_map(subst@) =~= ty_map(old(subst)@).insert(*t, arg@));
                true
            },
            Some(prev) => prev.same(concrete),
        },
        (Ty::Struct(s1, pargs), Ty::Struct(s2, aargs)) => {
            assert(ty_views(pargs@).len() == pargs.len() && ty_views(aargs@).len() == aargs.len());
            s1.0 == s2.0 && unify_all(pargs, aargs, subst)
        },
        (Ty::Enum(s1, pargs), Ty::Enum(s2, aargs)) => {
            assert(ty_views(pargs@).len() == pargs.len() && ty_views(aargs@).len() == aargs.len());
            s1.0 == s2.0 && unify_all(pargs, aargs, subst)
        },
        (Ty::Array(p_elem, _), Ty::Array(a_elem, _)) => unify(p_elem, a_elem, subst),
        (Ty::Vec(p_elem), Ty::Vec(a_elem)) => unify(p_elem, a_elem, subst),
        (Ty::Weak(p_inner), Ty::Weak(a_inner)) => unify(p_inner, a_inner, subst),
        (Ty::HashMap(pk, pv), Ty::HashMap(ak, av)) => unify(pk, ak, subst) && unify(pv, av, subst),
        (Ty::Dyn(s1, pargs), Ty::Dyn(s2, aargs)) => {
            assert(ty_views(pargs@).len() == pargs.len() && ty_views(aargs@).len() == aargs.len());
            s1.0 == s2.0 && pargs.len() == aargs.len() && unify_all(pargs, aargs, subst)
        },
        (a, b) => a.same(b),
    }
}

fn unify_all(ps: &Vec<Ty>, args: &Vec<Ty>, subst: &mut Table<SymbolId, Ty>) -> (r: bool)
    ensures
        r ==> all_matched(
            ty_views(ps@),
            ty_views(args@),
            ty_map(old(subst)@),
            shorter(ty_views(ps@), ty_views(args@)),
        ) == Some(ty_map(final(subst)@)),
        !r ==> all_matched(
            ty_views(ps@),
            ty_views(args@),
            ty_map(old(subst)@),
            shorter(ty_views(ps@), ty_views(args@)),
        ) is None,
        keeps(ty_map(old(subst)@), ty_map(final(subst)@)),
    decreases ps, 0nat,
{
    let ghost n = shorter(ty_views(ps@), ty_views(args@));
    let ghost start = ty_map(subst@);
    let mut i: usize = 0;
    while i < ps.len() && i < args.len()
        invariant
            i <= ps.len(),
            i <= args.len(),
            n == shorter(ty_views(ps@), ty_views(args@)),
            start == ty_map(old(subst)@),
            all_matched(ty_views(ps@), ty_views(args@), start, i as nat) == Some(ty_map(subst@)),
            keeps(start, ty_map(subst@)),
        decreases ps.len() - i,
    {
        if !unify(&ps[i], &args[i], subst) {
            proof {
                assert(all_matched(ty_views(ps@), ty_views(args@), start, (i + 1) as nat) is None);
                mismatch_stays(ty_views(ps@), ty_views(args@), start, (i + 1) as nat, n);
            }
            return false;
        }
        i += 1;
    }
    true
}

/// The parameter types of a function.
pub open spec fn param_tys(ps: Seq<HirParamV>) -> Seq<TyV> {
    Seq::new(ps.len(), |i: int| ps[i].ty)
}

/// The type arguments a call gives a generic function: what its arguments
/// bind the type parameters to, in declaration order. Nothing when the
/// argument count is off, two arguments disagree, or a parameter is left
/// unbound.
pub open spec fn inferred(f: HirFnV, args: Seq<TyV>) -> Option<Seq<TyV>> {
    if f.params.len() != args.len() {
        None
    } else {
        match all_matched(param_tys(f.params), args, Map::empty(), args.len()) {
            None => None,
            Some(m) => if forall|i: int| 0 <= i < f.generics.len() ==> m.contains_key(#[trigger] f.generics[i]) {
                Some(Seq::new(f.generics.len(), |i: int| m[f.generics[i]]))
            } else {
                None
            },
        }
    }
}

fn infer_type_args(generic: &HirFn, args: &Vec<Ty>) -> (r: Option<Vec<Ty>>)
    ensures
        match r {
            Some(ts) => inferred(generic@, ty_views(args@)) == Some(ty_views(ts@)),
            None => inferred(generic@, ty_views(args@)) is None,
        },
{
    if generic.params.len() != args.len() {
        return None;
    }
    let ghost ps = param_tys(param_views(generic.params@));
    let mut subst: Table<SymbolId, Ty> = Table::new();
    assert(ty_map(subst@) =~= Map::<SymbolId, TyV>::empty());
    let mut i: usize = 0;
    while i < args.len()
        invariant
            i <= args.len(),
            args.len() == generic.params.len(),
            ps == param_tys(param_views(generic.params@)),
            all_matched(ps, ty_views(args@), Map::empty(), i as nat) == Some(ty_map(subst@)),
        decreases args.len() - i,
    {
        if !unify(&generic.params[i].ty, &args[i], &mut subst) {
            proof {
                assert(all_matched(ps, ty_views(args@), Map::empty(), (i + 1) as nat) is None);
                mismatch_stays(ps, ty_views(args@), Map::empty(), (i + 1) as nat, args@.len());
            }
            return None;
        }
        i += 1;
    }
    let ghost m = ty_map(subst@);
    let mut out: Vec<Ty> = Vec::new();
    let mut g: usize = 0;
    while g < generic.generics.len()
        invariant
            g <= generic.generics.len(),
            out.len() == g,
            m == ty_map(subst@),
            args.len() == generic.params.len(),
            all_matched(param_tys(generic@.params), ty_views(args@), Map::empty(), args@.len()) == Some(m),
            forall|j: int|
                0 <= j < g ==> m.contains_key(generic.generics[j]) && ty_view(#[trigger] out[j])
                    == m[generic.generics[j]],
        decreases generic.generics.len() - g,
    {
        match subst.get(&generic.generics[g]) {
            Some(t) => out.push(t.copy()),
            None => {
                assert(!m.contains_key(generic@.generics[g as int]));
                return None;
            },
        }
        g += 1;
    }
    proof {
        assert forall|j: int| 0 <= j < generic@.generics.len() implies m.contains_key(#[trigger] generic@.generics[j]) by {
            assert(ty_view(out[j]) == m[generic.generics[j]]);
        }
        assert(ty_views(out@) =~= Seq::new(generic@.generics.len(), |i: int| m[generic@.generics[i]]));
    }
    Some(out)
}

// ---- names ----

/// The text a type contributes to a specialized function's name.
pub open spec fn mangled(t: TyV) -> Seq<char>
    decreases t, 0nat,
{
    match t {
        TyV::Bool => "bool"@,
        TyV::Char => "char"@,
        TyV::Int(i) => int_name(i),
        TyV::Float(f) => float_name(f),
        TyV::Str => "str"@,
        TyV::Unit => "unit"@,
        TyV::Vec(e) => "Vec_"@ + mangled(*e),
        TyV::Array(e, n) => "arr"@ + mangled(*e) + "_"@ + dec(n as nat),
        TyV::Struct(s, args) => "S"@ + dec(s.0 as nat) + mangled_args(args),
        TyV::Enum(s, args) => "E"@ + dec(s.0 as nat) + mangled_args(args),
        _ => "x"@,
    }
}

pub open spec fn all_mangled(ts: Seq<TyV>) -> Seq<Seq<char>>
    decreases ts, 0nat,
{
    Seq::new(ts.len(), |i: int| if 0 <= i < ts.len() { mangled(ts[i]) } else { seq![] })
}

pub open spec fn mangled_args(args: Seq<TyV>) -> Seq<char>
    decreases args, 1nat,
{
    if args.len() == 0 {
        seq![]
    } else {
        "_"@ + joined(all_mangled(args), "_"@)
    }
}

/// A specialized function's name: the generic's name, then each type
/// argument after `$$`.
pub open spec fn mangled_name(name: Seq<char>, args: Seq<TyV>, n: nat) -> Seq<char>
    decreases n,
{
    if n == 0 || n > args.len() {
        name
    } else {
        mangled_name(name, args, (n - 1) as nat) + "$$"@ + mangled(args[n - 1])
    }
}

fn mangle(name: &str, args: &Vec<Ty>) -> (r: String)
    ensures
        r@ == mangled_name(name@, ty_views(args@), args@.len()),
{
    let mut out = name.to_owned();
    let mut i: usize = 0;
    while i < args.len()
        invariant
            i <= args.len(),
            out@ == mangled_name(name@, ty_views(args@), i as nat),
        decreases args.len() - i,
    {
        out.append("$$");
        out.append(mangle_ty(&args[i]).as_str());
        i += 1;
    }
    out
}

fn mangle_ty(t: &Ty) -> (r: String)
    ensures
        r@ == mangled(t@),
    decreases t, 0nat,
{
    match t {
        Ty::Bool => "bool".to_owned(),
        Ty::Char => "char".to_owned(),
        Ty::Int(i) => i.name().to_owned(),
        Ty::Float(f) => f.name().to_owned(),
        Ty::Str => "str".to_owned(),
        Ty::Unit => "unit".to_owned(),
        Ty::Vec(e) => {
            let mut out = "Vec_".to_owned();
            out.append(mangle_ty(e).as_str());
            out
        },
        Ty::Array(e, n) => {
            let mut out = "arr".to_owned();
            out.append(mangle_ty(e).as_str());
            out.append("_");
            push_dec(&mut out, *n as u64);
            out
        },
        Ty::Struct(s, args) => {
            let mut out = "S".to_owned();
            push_dec(&mut out, s.0 as u64);
            out.append(mangle_args(args).as_str());
            out
        },
        Ty::Enum(s, args) => {
            let mut out = "E".to_owned();
            push_dec(&mut out, s.0 as u64);
            out.append(mangle_args(args).as_str());
            out
        },
        _ => "x".to_owned(),
    }
}

fn mangle_args(args: &Vec<Ty>) -> (r: String)
    ensures
        r@ == mangled_args(ty_views(args@)),
    decreases args, 1nat,
{
    if args.len() == 0 {
        return String::new();
    }
    let mut parts: Vec<String> = Vec::new();
    let mut i: usize = 0;
    while i < args.len()
        invariant
            i <= args.len(),
            parts.len() == i,
            forall|j: int| 0 <= j < i ==> (#[trigger] parts[j])@ == mangled(ty_view(args[j])),
        decreases args.len() - i,
    {
        parts.push(mangle_ty(&args[i]));
        i += 1;
    }
    assert(texts(parts@) =~= all_mangled(ty_views(args@)));
    let mut out = "_".to_owned();
    out.append(join(&parts, "_").as_str());
    out
}

// ---- rewriting calls ----

/// The functions of a table, as mathematical values.
pub open spec fn fn_map(m: Map<SymbolId, HirFn>) -> Map<SymbolId, HirFnV> {
    m.map_values(|f: HirFn| f@)
}

/// Where a call of `callee` with arguments of these types goes: to the
/// specialization made for it, or where it went before.
pub open spec fn call_target(
    generics: Map<SymbolId, HirFnV>,
    cache: Map<(SymbolId, Seq<TyV>), SymbolId>,
    callee: SymbolId,
    arg_tys: Seq<TyV>,
) -> SymbolId {
    if !generics.contains_key(callee) {
        callee
    } else {
        match inferred(generics[callee], arg_tys) {
            Some(args) => if cache.contains_key((callee, args)) {
                cache[(callee, args)]
            } else {
                callee
            },
            None => callee,
        }
    }
}

/// Points every call of a generic function at its specialization.
pub open spec fn call_rewrite(
    generics: Map<SymbolId, HirFnV>,
    cache: Map<(SymbolId, Seq<TyV>), SymbolId>,
) -> Rewrite {
    Rewrite {
        ty: |t: TyV| t,
        kind: |k: HirKindV|
            match k {
                HirKindV::Call { callee, args } => HirKindV::Call {
                    callee: call_target(generics, cache, callee, expr_tys(args)),
                    args,
                },
                _ => k,
            },
    }
}

struct RewriteCalls<'a> {
    generics: &'a Table<SymbolId, HirFn>,
    cache: &'a Table<(SymbolId, Vec<Ty>), SymbolId>,
}

impl<'a> HirPass for RewriteCalls<'a> {
    closed spec fn rewrite(self) -> Rewrite {
        call_rewrite(fn_map(self.generics@), self.cache@)
    }

    fn map_ty(&self, t: &Ty) -> (r: Ty) {
        t.copy()
    }

    fn map_kind(&self, k: HirExprKind) -> (r: HirExprKind) {
        match k {
            HirExprKind::Call { callee, args } => {
                let mut target = callee;
                if let Some(generic) = self.generics.get(&callee) {
                    if let Some(type_args) = infer_type_args(generic, &tys_of(&args)) {
                        if let Some(specialized) = self.cache.get(&(callee, type_args)) {
                            target = *specialized;
                        }
                    }
                }
                HirExprKind::Call { callee: target, args }
            },
            k => k,
        }
    }
}

/// A block with its method calls resolved.
pub fn resolve_method_calls_in_block(
    b: &HirBlock,
    impl_methods: &Table<(SymbolId, String), SymbolId>,
) -> (r: HirBlock)
    ensures
        r@ == mapped_block(method_rewrite(impl_methods@), b@),
{
    map_block(&ResolveMethods { methods: impl_methods }, b)
}

/// The struct or enum a type is an instance of.
pub open spec fn nominal_sym(t: TyV) -> Option<SymbolId> {
    match t {
        TyV::Struct(s, _) => Some(s),
        TyV::Enum(s, _) => Some(s),
        _ => None,
    }
}

/// Turns a method call on a struct or enum that has an implementation for
/// the method into a direct call with the receiver in front.
pub open spec fn method_rewrite(methods: Map<(SymbolId, Seq<char>), SymbolId>) -> Rewrite {
    Rewrite {
        ty: |t: TyV| t,
        kind: |k: HirKindV|
            match k {
                HirKindV::MethodCall { receiver, method, args } => match nominal_sym(receiver.ty) {
                    Some(s) => if methods.contains_key((s, method)) {
                        HirKindV::Call { callee: methods[(s, method)], args: seq![*receiver] + args }
                    } else {
                        k
                    },
                    None => k,
                },
                _ => k,
            },
    }
}

struct ResolveMethods<'a> {
    methods: &'a Table<(SymbolId, String), SymbolId>,
}

impl<'a> HirPass for ResolveMethods<'a> {
    closed spec fn rewrite(self) -> Rewrite {
        method_rewrite(self.methods@)
    }

    fn map_ty(&self, t: &Ty) -> (r: Ty) {
        t.copy()
    }

    fn map_kind(&self, k: HirExprKind) -> (r: HirExprKind) {
        let mut found: Option<SymbolId> = None;
        if let HirExprKind::MethodCall { receiver, method, args } = &k {
            let recv_sym = match &receiver.ty {
                Ty::Struct(s, _) => Some(*s),
                Ty::Enum(s, _) => Some(*s),
                _ => None,
            };
            if let Some(s) = recv_sym {
                if let Some(fn_sym) = self.methods.get(&(s, method.clone())) {
                    found = Some(*fn_sym);
                }
            }
        }
        match (k, found) {
            (HirExprKind::MethodCall { receiver, method, mut args }, Some(fn_sym)) => {
                let ghost given = expr_views(args@);
                let ghost first = receiver@;
                let mut call_args: Vec<HirExpr> = Vec::new();
                call_args.push(*receiver);
                call_args.append(&mut args);
                assert(expr_views(call_args@) =~= seq![first] + given);
                HirExprKind::Call { callee: fn_sym, args: call_args }
            },
            (k, _) => k,
        }
    }
}

// ---- what the code generator needs to know of the types in use ----

/// Whether values of a type carry a reference count.
pub open spec fn counted(t: TyV, has_payload: Seq<SymbolId>) -> bool {
    match t {
        TyV::Vec(_) | TyV::Str | TyV::Struct(_, _) | TyV::Weak(_) | TyV::Dyn(_, _) | TyV::Array(_, _) => true,
        TyV::Enum(s, _) => has_payload.contains(s),
        _ => false,
    }
}

fn is_arc_mono(t: &Ty, enum_has_payload: &Vec<SymbolId>) -> (r: bool)
    ensures
        r == counted(t@, enum_has_payload@),
{
    match t {
        Ty::Vec(_) | Ty::Str | Ty::Struct(_, _) | Ty::Weak(_) | Ty::Dyn(_, _) => true,
        Ty::Array(_, _) => true,
        Ty::Enum(s, _) => contains_sym(enum_has_payload, *s),
        _ => false,
    }
}

/// `acc`, then each counted element type of a vector type inside `t` that is
/// not there yet, outer vectors first.
pub open spec fn with_vec_elems(acc: Seq<TyV>, t: TyV, has_payload: Seq<SymbolId>) -> Seq<TyV>
    decreases t, 0nat,
{
    match t {
        TyV::Vec(e) => {
            let acc1 = if counted(*e, has_payload) && !acc.contains(*e) {
                acc.push(*e)
            } else {
                acc
            };
            with_vec_elems(acc1, *e, has_payload)
        },
        TyV::Array(e, _) => with_vec_elems(acc, *e, has_payload),
        TyV::Weak(e) => with_vec_elems(acc, *e, has_payload),
        TyV::Struct(_, args) => with_all_vec_elems(acc, args, has_payload, args.len()),
        TyV::Enum(_, args) => with_all_vec_elems(acc, args, has_payload, args.len()),
        _ => acc,
    }
}

pub open spec fn with_all_vec_elems(
    acc: Seq<TyV>,
    ts: Seq<TyV>,
    has_payload: Seq<SymbolId>,
    n: nat,
) -> Seq<TyV>
    decreases ts, n,
{
    if n == 0 || n > ts.len() {
        acc
    } else {
        with_vec_elems(with_all_vec_elems(acc, ts, has_payload, (n - 1) as nat), ts[n - 1], has_payload)
    }
}

fn scan_ty_for_vec_elems(ty: &Ty, enum_has_payload: &Vec<SymbolId>, out: &mut Vec<Ty>)
    ensures
        ty_views(final(out)@) == with_vec_elems(ty_views(old(out)@), ty@, enum_has_payload@),
    decreases ty, 0nat,
{
    match ty {
        Ty::Vec(elem) => {
            if is_arc_mono(elem, enum_has_payload) && !contains_ty(out, elem) {
                out.push(elem.copy());
                assert(ty_views(out@) =~= ty_views(old(out)@).push(elem@));
            }
            scan_ty_for_vec_elems(elem, enum_has_payload, out);
        },
        Ty::Array(e, _) => scan_ty_for_vec_elems(e, enum_has_payload, out),
        Ty::Weak(e) => scan_ty_for_vec_elems(e, enum_has_payload, out),
        Ty::Struct(_, args) => scan_tys_for_vec_elems(args, enum_has_payload, out),
        Ty::Enum(_, args) => scan_tys_for_vec_elems(args, enum_has_payload, out),
        _ => {},
    }
}

fn scan_tys_for_vec_elems(ts: &Vec<Ty>, enum_has_payload: &Vec<SymbolId>, out: &mut Vec<Ty>)
    ensures
        ty_views(final(out)@) == with_all_vec_elems(
            ty_views(old(out)@),
            ty_views(ts@),
            enum_has_payload@,
            ty_views(ts@).len(),
        ),
    decreases ts, 0nat,
{
    let mut i: usize = 0;
    while i < ts.len()
        invariant
            i <= ts.len(),
            ty_views(out@) == with_all_vec_elems(
                ty_views(old(out)@),
                ty_views(ts@),
                enum_has_payload@,
                i as nat,
            ),
        decreases ts.len() - i,
    {
        scan_ty_for_vec_elems(&ts[i], enum_has_payload, out);
        i += 1;
    }
}

/// `acc`, then each array type inside `t` that is not there yet, outer arrays
/// first.
pub open spec fn with_arrays(acc: Seq<TyV>, t: TyV) -> Seq<TyV>
    decreases t, 0nat,
{
    match t {
        TyV::Array(e, _) => with_arrays(
            if acc.contains(t) {
                acc
            } else {
                acc.push(t)
            },
            *e,
        ),
        TyV::Vec(e) => with_arrays(acc, *e),
        TyV::Weak(e) => with_arrays(acc, *e),
        TyV::Struct(_, args) => with_all_arrays(acc, args, args.len()),
        TyV::Enum(_, args) => with_all_arrays(acc, args, args.len()),
        _ => acc,
    }
}

pub open spec fn with_all_arrays(acc: Seq<TyV>, ts: Seq<TyV>, n: nat) -> Seq<TyV>
    decreases ts, n,
{
    if n == 0 || n > ts.len() {
        acc
    } else {
        with_arrays(with_all_arrays(acc, ts, (n - 1) as nat), ts[n - 1])
    }
}

fn scan_ty_for_arrays(ty: &Ty, out: &mut Vec<Ty>)
    ensures
        ty_views(final(out)@) == with_arrays(ty_views(old(out)@), ty@),
    decreases ty, 0nat,
{
    match ty {
        Ty::Array(elem, _) => {
            if !contains_ty(out, ty) {
                out.push(ty.copy());
                assert(ty_views(out@) =~= ty_views(old(out)@).push(ty@));
            }
            scan_ty_for_arrays(elem, out);
        },
        Ty::Vec(e) => scan_ty_for_arrays(e, out),
        Ty::Weak(e) => scan_ty_for_arrays(e, out),
        Ty::Struct(_, args) => scan_tys_for_arrays(args, out),
        Ty::Enum(_, args) => scan_tys_for_arrays(args, out),
        _ => {},
    }
}

fn scan_tys_for_arrays(ts: &Vec<Ty>, out: &mut Vec<Ty>)
    ensures
        ty_views(final(out)@) == with_all_arrays(ty_views(old(out)@), ty_views(ts@), ty_views(ts@).len()),
    decreases ts, 0nat,
{
    let mut i: usize = 0;
    while i < ts.len()
        invariant
            i <= ts.len(),
            ty_views(out@) == with_all_arrays(ty_views(old(out)@), ty_views(ts@), i as nat),
        decreases ts.len() - i,
    {
        scan_ty_for_arrays(&ts[i], out);
        i += 1;
    }
}

/// `acc`, then what a function mentions: its own symbol, its type
/// parameters, its parameters, its return type and its body.
pub open spec fn fn_mentions(acc: Seq<MentionV>, f: HirFnV) -> Seq<MentionV> {
    block_mentions(
        params_mentions(
            syms_mentions(acc.push(MentionV::Sym(f.sym)), f.generics, f.generics.len()),
            f.params,
            f.params.len(),
        ).push(MentionV::Ty(f.ret_ty)),
        f.body,
    )
}

pub open spec fn syms_mentions(acc: Seq<MentionV>, ss: Seq<SymbolId>, n: nat) -> Seq<MentionV>
    decreases n,
{
    if n == 0 || n > ss.len() {
        acc
    } else {
        syms_mentions(acc, ss, (n - 1) as nat).push(MentionV::Sym(ss[n - 1]))
    }
}

pub open spec fn params_mentions(acc: Seq<MentionV>, ps: Seq<HirParamV>, n: nat) -> Seq<MentionV>
    decreases n,
{
    if n == 0 || n > ps.len() {
        acc
    } else {
        params_mentions(acc, ps, (n - 1) as nat).push(MentionV::Sym(ps[n - 1].sym)).push(
            MentionV::Ty(ps[n - 1].ty),
        )
    }
}

/// What the first `n` functions mention.
pub open spec fn fns_mentions(fs: Seq<HirFnV>, n: nat) -> Seq<MentionV>
    decreases n,
{
    if n == 0 || n > fs.len() {
        seq![]
    } else {
        fn_mentions(fns_mentions(fs, (n - 1) as nat), fs[n - 1])
    }
}

fn list_fn(f: &HirFn, out: &mut Vec<Mention>)
    ensures
        mention_views(final(out)@) == fn_mentions(mention_views(old(out)@), f@),
{
    list_sym(f.sym, out);
    let ghost acc = mention_views(out@);
    let mut g: usize = 0;
    while g < f.generics.len()
        invariant
            g <= f.generics.len(),
            mention_views(out@) == syms_mentions(acc, f.generics@, g as nat),
        decreases f.generics.len() - g,
    {
        list_sym(f.generics[g], out);
        g += 1;
    }
    let ghost acc = mention_views(out@);
    let mut i: usize = 0;
    while i < f.params.len()
        invariant
            i <= f.params.len(),
            mention_views(out@) == params_mentions(acc, param_views(f.params@), i as nat),
        decreases f.params.len() - i,
    {
        list_sym(f.params[i].sym, out);
        list_ty(&f.params[i].ty, out);
        i += 1;
    }
    list_ty(&f.ret_ty, out);
    list_block(&f.body, out);
}

fn list_items(items: &Vec<HirItem>) -> (r: Vec<Mention>)
    ensures
        mention_views(r@) == fns_mentions(item_views(items@), items@.len()),
{
    let mut out: Vec<Mention> = Vec::new();
    assert(mention_views(out@) =~= seq![]);
    let mut i: usize = 0;
    while i < items.len()
        invariant
            i <= items.len(),
            mention_views(out@) == fns_mentions(item_views(items@), i as nat),
        decreases items.len() - i,
    {
        let HirItem::Fn(f) = &items[i];
        list_fn(f, &mut out);
        i += 1;
    }
    out
}

// ---- fresh symbols ----

/// The highest symbol number inside a type, or zero.
pub open spec fn ty_top(t: TyV) -> nat
    decreases t, 0nat,
{
    match t {
        TyV::Vec(e) => ty_top(*e),
        TyV::Weak(e) => ty_top(*e),
        TyV::HashMap(k, v) => higher(ty_top(*k), ty_top(*v)),
        TyV::Array(e, _) => ty_top(*e),
        TyV::Fn { params, ret } => higher(tys_top(params, params.len()), ty_top(*ret)),
        TyV::Struct(s, args) => higher(s.0 as nat, tys_top(args, args.len())),
        TyV::Enum(s, args) => higher(s.0 as nat, tys_top(args, args.len())),
        TyV::TypeVar(s) => s.0 as nat,
        TyV::Assoc(b, _) => ty_top(*b),
        TyV::Dyn(s, args) => higher(s.0 as nat, tys_top(args, args.len())),
        _ => 0,
    }
}

pub open spec fn higher(a: nat, b: nat) -> nat {
    if a >= b {
        a
    } else {
        b
    }
}

pub open spec fn tys_top(ts: Seq<TyV>, n: nat) -> nat
    decreases ts, n,
{
    if n == 0 || n > ts.len() {
        0
    } else {
        higher(tys_top(ts, (n - 1) as nat), ty_top(ts[n - 1]))
    }
}

/// The highest symbol number in a mention.
pub open spec fn mention_top(m: MentionV) -> nat {
    match m {
        MentionV::Ty(t) => ty_top(t),
        MentionV::Sym(s) => s.0 as nat,
        MentionV::Call(s, ts) => higher(s.0 as nat, tys_top(ts, ts.len())),
    }
}

/// The highest symbol number in the first `n` mentions.
pub open spec fn mentions_top(ms: Seq<MentionV>, n: nat) -> nat
    decreases n,
{
    if n == 0 || n > ms.len() {
        0
    } else {
        higher(mentions_top(ms, (n - 1) as nat), mention_top(ms[n - 1]))
    }
}

fn max_u32(a: u32, b: u32) -> (r: u32)
    ensures
        r == higher(a as nat, b as nat),
{
    if a >= b {
        a
    } else {
        b
    }
}

fn top_of_ty(t: &Ty) -> (r: u32)
    ensures
        r == ty_top(t@),
    decreases t, 0nat,
{
    match t {
        Ty::Vec(e) => top_of_ty(e),
        Ty::Weak(e) => top_of_ty(e),
        Ty::HashMap(k, v) => max_u32(top_of_ty(k), top_of_ty(v)),
        Ty::Array(e, _) => top_of_ty(e),
        Ty::Fn { params, ret } => max_u32(top_of_tys(params), top_of_ty(ret)),
        Ty::Struct(s, args) => max_u32(s.0, top_of_tys(args)),
        Ty::Enum(s, args) => max_u32(s.0, top_of_tys(args)),
        Ty::TypeVar(s) => s.0,
        Ty::Assoc(b, _) => top_of_ty(b),
        Ty::Dyn(s, args) => max_u32(s.0, top_of_tys(args)),
        _ => 0,
    }
}

fn top_of_tys(ts: &Vec<Ty>) -> (r: u32)
    ensures
        r == tys_top(ty_views(ts@), ty_views(ts@).len()),
    decreases ts, 0nat,
{
    let mut top: u32 = 0;
    let mut i: usize = 0;
    while i < ts.len()
        invariant
            i <= ts.len(),
            top == tys_top(ty_views(ts@), i as nat),
        decreases ts.len() - i,
    {
        top = max_u32(top, top_of_ty(&ts[i]));
        i += 1;
    }
    top
}

/// The highest symbol number that a list of mentions holds. Fresh symbols
/// are allocated past it.
fn collect_max_sym(ms: &Vec<Mention>) -> (r: u32)
    ensures
        r == mentions_top(mention_views(ms@), ms@.len()),
{
    let mut top: u32 = 0;
    let mut i: usize = 0;
    while i < ms.len()
        invariant
            i <= ms.len(),
            top == mentions_top(mention_views(ms@), i as nat),
        decreases ms.len() - i,
    {
        let here = match &ms[i] {
            Mention::Ty(t) => top_of_ty(t),
            Mention::Sym(s) => s.0,
            Mention::Call(s, ts) => max_u32(s.0, top_of_tys(ts)),
        };
        top = max_u32(top, here);
        i += 1;
    }
    top
}

// ---- the worklist ----

/// The state of the pass.
pub struct MonoV {
    /// The generic functions, by symbol.
    pub generics: Map<SymbolId, HirFnV>,
    /// The concrete functions of the result so far.
    pub concrete: Seq<HirFnV>,
    /// The specializations made.
    pub cache: Map<(SymbolId, Seq<TyV>), SymbolId>,
    /// The specializations asked for; the last is served first.
    pub worklist: Seq<(SymbolId, Seq<TyV>)>,
    /// The next unused symbol number.
    pub next: nat,
    /// What the module tells beside its functions.
    pub known: Known,
}

/// `worklist` with a request added for each of the first `n` mentions that
/// is a call of a generic function whose type arguments can be inferred and
/// which is not specialized for them yet.
pub open spec fn requests(
    generics: Map<SymbolId, HirFnV>,
    cache: Map<(SymbolId, Seq<TyV>), SymbolId>,
    worklist: Seq<(SymbolId, Seq<TyV>)>,
    ms: Seq<MentionV>,
    n: nat,
) -> Seq<(SymbolId, Seq<TyV>)>
    decreases n,
{
    if n == 0 || n > ms.len() {
        worklist
    } else {
        let before = requests(generics, cache, worklist, ms, (n - 1) as nat);
        match ms[n - 1] {
            MentionV::Call(callee, arg_tys) => if !generics.contains_key(callee) {
                before
            } else {
                match inferred(generics[callee], arg_tys) {
                    Some(args) => if cache.contains_key((callee, args)) {
                        before
                    } else {
                        before.push((callee, args))
                    },
                    None => before,
                }
            },
            _ => before,
        }
    }
}

/// The state after reading a body for calls.
pub open spec fn requested(st: MonoV, b: HirBlockV) -> MonoV {
    let ms = block_mentions(seq![], b);
    MonoV { worklist: requests(st.generics, st.cache, st.worklist, ms, ms.len()), ..st }
}

/// The type parameters bound to the type arguments, position by position.
pub open spec fn bound(generics: Seq<SymbolId>, args: Seq<TyV>, n: nat) -> Map<SymbolId, TyV>
    decreases n,
{
    if n == 0 || n > generics.len() || n > args.len() {
        Map::empty()
    } else {
        bound(generics, args, (n - 1) as nat).insert(generics[n - 1], args[n - 1])
    }
}

/// Type parameters bound to type arguments, as far as both go.
pub open spec fn zipped(generics: Seq<SymbolId>, args: Seq<TyV>) -> Map<SymbolId, TyV> {
    bound(
        generics,
        args,
        if generics.len() <= args.len() {
            generics.len()
        } else {
            args.len()
        },
    )
}

/// A generic function specialized for type arguments, under a new symbol. The
/// method calls whose receivers are concrete now are resolved.
pub open spec fn specialized(kn: Known, f: HirFnV, args: Seq<TyV>, sym: SymbolId) -> HirFnV {
    let m = zipped(f.generics, args);
    HirFnV {
        sym,
        name: mangled_name(f.name, args, args.len()),
        generics: seq![],
        params: substituted_params(kn, m, f.params),
        ret_ty: substituted(kn, m, f.ret_ty),
        body: mapped_block(method_rewrite(kn.methods), mapped_block(substitution(kn, m), f.body)),
    }
}

/// The state after serving one request with a new specialization.
pub open spec fn served(st: MonoV, sym: SymbolId, args: Seq<TyV>) -> MonoV {
    let f = specialized(st.known, st.generics[sym], args, SymbolId(st.next as u32));
    let noted = MonoV { next: st.next + 1, cache: st.cache.insert((sym, args), f.sym), ..st };
    let asked = requested(noted, f.body);
    MonoV { concrete: asked.concrete.push(f), ..asked }
}

/// The state once every request is served; nothing when the symbol numbers
/// run out first.
pub open spec fn drained(st: MonoV) -> Option<MonoV>
    decreases 0x1_0000_0000 - st.next, st.worklist.len(),
{
    if st.worklist.len() == 0 {
        Some(st)
    } else {
        let (sym, args) = st.worklist.last();
        let rest = MonoV { worklist: st.worklist.drop_last(), ..st };
        if st.cache.contains_key((sym, args)) || !st.generics.contains_key(sym) {
            drained(rest)
        } else if st.next > u32::MAX {
            None
        } else {
            drained(served(rest, sym, args))
        }
    }
}

/// A concrete function with its method calls resolved.
pub open spec fn resolved_fn(kn: Known, f: HirFnV) -> HirFnV {
    with_body(f, mapped_block(method_rewrite(kn.methods), f.body))
}

/// The functions sorted into generic and concrete ones.
pub open spec fn split(kn: Known, fs: Seq<HirFnV>, n: nat, next: nat) -> MonoV
    decreases n,
{
    if n == 0 || n > fs.len() {
        MonoV {
            generics: Map::empty(),
            concrete: seq![],
            cache: Map::empty(),
            worklist: seq![],
            next,
            known: kn,
        }
    } else {
        let st = split(kn, fs, (n - 1) as nat, next);
        let f = fs[n - 1];
        if f.generics.len() > 0 {
            MonoV { generics: st.generics.insert(f.sym, f), ..st }
        } else {
            MonoV { concrete: st.concrete.push(resolved_fn(kn, f)), ..st }
        }
    }
}

/// The state after reading the first `n` concrete bodies for calls.
pub open spec fn seeded(st: MonoV, n: nat) -> MonoV
    decreases n,
{
    if n == 0 || n > st.concrete.len() {
        st
    } else {
        requested(seeded(st, (n - 1) as nat), st.concrete[n - 1].body)
    }
}

/// The state the worklist is drained from.
pub open spec fn start(kn: Known, fs: Seq<HirFnV>) -> MonoV {
    let ms = fns_mentions(fs, fs.len());
    let st = split(kn, fs, fs.len(), mentions_top(ms, ms.len()) + 1);
    seeded(st, st.concrete.len())
}

pub open spec fn with_body(f: HirFnV, body: HirBlockV) -> HirFnV {
    HirFnV { body, ..f }
}

/// A concrete function with its calls pointed at specializations.
pub open spec fn settled(st: MonoV, f: HirFnV) -> HirFnV {
    with_body(f, mapped_block(call_rewrite(st.generics, st.cache), f.body))
}

/// The functions of a monomorphized module.
pub open spec fn monomorphized(kn: Known, fs: Seq<HirFnV>) -> Option<Seq<HirFnV>> {
    match drained(start(kn, fs)) {
        Some(st) => Some(Seq::new(st.concrete.len(), |i: int| settled(st, st.concrete[i]))),
        None => None,
    }
}

struct MonoState<'a> {
    set: Setting<'a>,
    generics: Table<SymbolId, HirFn>,
    concrete: Vec<HirFn>,
    cache: Table<(SymbolId, Vec<Ty>), SymbolId>,
    worklist: Vec<(SymbolId, Vec<Ty>)>,
    next_sym: u64,
}

spec fn request_views(ws: Seq<(SymbolId, Vec<Ty>)>) -> Seq<(SymbolId, Seq<TyV>)> {
    Seq::new(ws.len(), |i: int| (ws[i].0, ty_views(ws[i].1@)))
}

impl<'a> View for MonoState<'a> {
    type V = MonoV;

    closed spec fn view(&self) -> MonoV {
        MonoV {
            generics: fn_map(self.generics@),
            concrete: fn_views(self.concrete@),
            cache: self.cache@,
            worklist: request_views(self.worklist@),
            next: self.next_sym as nat,
            known: self.set@,
        }
    }
}

impl<'a> MonoState<'a> {
    /// Sorts the functions of a module and finds the first free symbol.
    fn new(set: Setting<'a>, items: Vec<HirItem>) -> (r: Self)
        ensures
            r@ == split(
                set@,
                item_views(items@),
                items@.len(),
                mentions_top(
                    fns_mentions(item_views(items@), items@.len()),
                    fns_mentions(item_views(items@), items@.len()).len(),
                ) + 1,
            ),
            r.next_sym <= 0x1_0000_0000,
    {
        let mentions = list_items(&items);
        let max_sym = collect_max_sym(&mentions);
        let ghost fs = item_views(items@);
        let ghost next = (max_sym + 1) as nat;
        let mut st = MonoState {
            set,
            generics: Table::new(),
            concrete: Vec::new(),
            cache: Table::new(),
            worklist: Vec::new(),
            next_sym: max_sym as u64 + 1,
        };
        proof {
            assert(st@.generics =~= Map::empty());
            assert(st@.concrete =~= seq![]);
            assert(st@.worklist =~= seq![]);
        }
        let mut items = items;
        let ghost n = items@.len();
        while items.len() > 0
            invariant
                items@.len() <= n,
                n == fs.len(),
                item_views(items@) == fs.skip(n - items@.len()),
                st@ == split(set@, fs, (n - items@.len()) as nat, next),
                st.next_sym == next,
                st.set == set,
            decreases items.len(),
        {
            let ghost done = (n - items@.len()) as nat;
            let ghost rest = item_views(items@);
            let ghost held = items@;
            let item = items.remove(0);
            let HirItem::Fn(f) = item;
            proof {
                assert(rest[0] == f@);
                assert(fs[done as int] == rest[0]);
                assert forall|i: int| 0 <= i < items@.len() implies item_views(items@)[i] == fs.skip(done + 1int)[i] by {
                    assert(items@[i] == held[i + 1]);
                    assert(rest[i + 1] == fs.skip(done as int)[i + 1]);
                }
                assert(item_views(items@) =~= fs.skip(done + 1int));
            }
            if f.generics.len() > 0 {
                let ghost before = st@;
                st.generics.insert(f.sym, f);
                assert(st@.generics =~= before.generics.insert(f@.sym, f@));
                assert(st@ == split(set@, fs, done + 1, next));
            } else {
                let ghost before = st@;
                let body = resolve_method_calls_in_block(&f.body, set.methods);
                let ready = replace_body(&f, body);
                st.concrete.push(ready);
                assert(st@.concrete =~= before.concrete.push(resolved_fn(set@, f@)));
                assert(st@ == split(set@, fs, done + 1, next));
            }
        }
        st
    }

    /// Queues a request for each call of a generic function in a block.
    fn collect_requests_in_block(&mut self, b: &HirBlock)
        ensures
            final(self)@ == requested(old(self)@, b@),
            final(self).next_sym == old(self).next_sym,
            final(self).set == old(self).set,
    {
        let mut ms: Vec<Mention> = Vec::new();
        assert(mention_views(ms@) =~= seq![]);
        list_block(b, &mut ms);
        let ghost st = self@;
        let mut i: usize = 0;
        while i < ms.len()
            invariant
                i <= ms.len(),
                self.next_sym == old(self).next_sym,
                self.set == old(self).set,
                self@ == (MonoV {
                    worklist: requests(st.generics, st.cache, st.worklist, mention_views(ms@), i as nat),
                    ..st
                }),
            decreases ms.len() - i,
        {
            if let Mention::Call(callee, arg_tys) = &ms[i] {
                if let Some(generic) = self.generics.get(callee) {
                    if let Some(type_args) = infer_type_args(generic, arg_tys) {
                        let key = (*callee, type_args);
                        if !self.cache.contains(&key) {
                            let ghost before = self@.worklist;
                            self.worklist.push(key);
                            assert(self@.worklist =~= before.push((*callee, ty_views(type_args@))));
                        }
                    }
                }
            }
            i += 1;
        }
    }

    /// Queues the requests of every concrete function.
    fn run(&mut self)
        ensures
            final(self)@ == seeded(old(self)@, old(self)@.concrete.len()),
            final(self).next_sym == old(self).next_sym,
            final(self).set == old(self).set,
    {
        let mut concrete: Vec<HirFn> = Vec::new();
        std::mem::swap(&mut concrete, &mut self.concrete);
        let ghost st = old(self)@;
        let ghost bare = MonoV { concrete: seq![], ..st };
        assert(self@.concrete =~= seq![]);
        let mut i: usize = 0;
        while i < concrete.len()
            invariant
                i <= concrete.len(),
                self.next_sym == old(self).next_sym,
                self.set == old(self).set,
                fn_views(concrete@) == st.concrete,
                self@ == (MonoV { concrete: seq![], ..seeded(st, i as nat) }),
            decreases concrete.len() - i,
        {
            self.collect_requests_in_block(&concrete[i].body);
            assert(st.concrete[i as int].body == concrete[i as int].body@);
            i += 1;
        }
        proof {
            seeded_keeps_concrete(st, st.concrete.len());
        }
        self.concrete = concrete;
    }

    /// Serves requests until none is left.
    fn drain(&mut self) -> (r: Result<(), SymbolsExhausted>)
        requires
            old(self).next_sym <= 0x1_0000_0000,
        ensures
            match r {
                Ok(_) => drained(old(self)@) == Some(final(self)@),
                Err(_) => drained(old(self)@) is None,
            },
    {
        let ghost goal = drained(self@);
        while self.worklist.len() > 0
            invariant
                self.next_sym <= 0x1_0000_0000,
                drained(self@) == goal,
                goal == drained(old(self)@),
            decreases 0x1_0000_0000 - self.next_sym, self.worklist.len(),
        {
            let ghost st = self@;
            let req = self.worklist.pop();
            if let Some(req) = req {
                let ghost sym = req.0;
                let ghost args = ty_views(req.1@);
                let ghost rest = MonoV { worklist: st.worklist.drop_last(), ..st };
                assert(st.worklist.last() == (sym, args));
                assert(request_views(self.worklist@) =~= rest.worklist);
                assert(self@ == rest);
                if self.cache.contains(&req) {
                    continue;
                }
                if self.next_sym > u32::MAX as u64 {
                    if self.generics.contains(&req.0) {
                        return Err(SymbolsExhausted);
                    }
                    continue;
                }
                let specialized = match self.generics.get(&req.0) {
                    None => {
                        continue;
                    },
                    Some(generic) => {
                        let subst = bind(&generic.generics, &req.1);
                        let sym = SymbolId(self.next_sym as u32);
                        let name = mangle(generic.name.as_str(), &req.1);
                        subst_fn(&self.set, generic, &subst, sym, name)
                    },
                };
                let ghost f = specialized@;
                assert(f == crate::monomorphize::specialized(
                    st.known,
                    st.generics[sym],
                    args,
                    SymbolId(st.next as u32),
                ));
                self.next_sym = self.next_sym + 1;
                self.cache.insert(req, specialized.sym);
                self.collect_requests_in_block(&specialized.body);
                let ghost asked = self@;
                self.concrete.push(specialized);
                assert(self@.concrete =~= asked.concrete.push(f));
                assert(self@ == served(rest, sym, args));
            }
        }
        assert(self@.worklist.len() == 0);
        Ok(())
    }
}

proof fn seeded_keeps_concrete(st: MonoV, n: nat)
    ensures
        seeded(st, n).concrete == st.concrete,
        seeded(st, n).generics == st.generics,
        seeded(st, n).cache == st.cache,
        seeded(st, n).next == st.next,
        seeded(st, n).known == st.known,
    decreases n,
{
    if n > 0 && n <= st.concrete.len() {
        seeded_keeps_concrete(st, (n - 1) as nat);
    }
}

/// Binds type parameters to type arguments.
pub fn bind(generics: &Vec<SymbolId>, args: &Vec<Ty>) -> (r: Table<SymbolId, Ty>)
    ensures
        ty_map(r@) == zipped(generics@, ty_views(args@)),
{
    let mut subst: Table<SymbolId, Ty> = Table::new();
    assert(ty_map(subst@) =~= Map::<SymbolId, TyV>::empty());
    let mut i: usize = 0;
    while i < generics.len() && i < args.len()
        invariant
            i <= generics.len(),
            i <= args.len(),
            ty_map(subst@) == bound(generics@, ty_views(args@), i as nat),
        decreases generics.len() - i,
    {
        let ghost before = subst@;
        subst.insert(generics[i], args[i].copy());
        assert(ty_map(subst@) =~= ty_map(before).insert(generics[i as int], ty_views(args@)[i as int]));
        i += 1;
    }
    subst
}

/// Every type that matters to code generation, in the order met: those of
/// the functions, then those of counted struct fields, then those of enum
/// payloads.
pub open spec fn used_tys(
    fs: Seq<HirFnV>,
    fields: Seq<(SymbolId, Vec<(u32, Ty)>)>,
    payloads: Seq<(SymbolId, Vec<Vec<Ty>>)>,
) -> Seq<TyV> {
    payload_tys(
        field_tys(
            mention_tys(fns_mentions(fs, fs.len()), fns_mentions(fs, fs.len()).len()),
            fields,
            fields.len(),
        ),
        payloads,
        payloads.len(),
    )
}

/// The types among the first `n` mentions.
pub open spec fn mention_tys(ms: Seq<MentionV>, n: nat) -> Seq<TyV>
    decreases n,
{
    if n == 0 || n > ms.len() {
        seq![]
    } else {
        let before = mention_tys(ms, (n - 1) as nat);
        match ms[n - 1] {
            MentionV::Ty(t) => before.push(t),
            _ => before,
        }
    }
}

pub open spec fn offset_tys(fs: Seq<(u32, Ty)>) -> Seq<TyV> {
    Seq::new(fs.len(), |i: int| fs[i].1@)
}

pub open spec fn field_tys(acc: Seq<TyV>, fields: Seq<(SymbolId, Vec<(u32, Ty)>)>, n: nat) -> Seq<TyV>
    decreases n,
{
    if n == 0 || n > fields.len() {
        acc
    } else {
        field_tys(acc, fields, (n - 1) as nat) + offset_tys(fields[n - 1].1@)
    }
}

pub open spec fn variants_tys(acc: Seq<TyV>, vs: Seq<Vec<Ty>>, n: nat) -> Seq<TyV>
    decreases n,
{
    if n == 0 || n > vs.len() {
        acc
    } else {
        variants_tys(acc, vs, (n - 1) as nat) + ty_views(vs[n - 1]@)
    }
}

pub open spec fn payload_tys(acc: Seq<TyV>, ps: Seq<(SymbolId, Vec<Vec<Ty>>)>, n: nat) -> Seq<TyV>
    decreases n,
{
    if n == 0 || n > ps.len() {
        acc
    } else {
        variants_tys(payload_tys(acc, ps, (n - 1) as nat), ps[n - 1].1@, ps[n - 1].1@.len())
    }
}

fn collect_used_tys(module: &HirModule) -> (r: Vec<Ty>)
    ensures
        ty_views(r@) == used_tys(
            item_views(module.items@),
            module.struct_arc_fields.items(),
            module.enum_payload_tys.items(),
        ),
{
    let ms = list_items(&module.items);
    let mut out: Vec<Ty> = Vec::new();
    assert(ty_views(out@) =~= seq![]);
    let mut i: usize = 0;
    while i < ms.len()
        invariant
            i <= ms.len(),
            ty_views(out@) == mention_tys(mention_views(ms@), i as nat),
        decreases ms.len() - i,
    {
        if let Mention::Ty(t) = &ms[i] {
            let ghost before = ty_views(out@);
            out.push(t.copy());
            assert(ty_views(out@) =~= before.push(t@));
        }
        i += 1;
    }
    let ghost acc = ty_views(out@);
    let mut f: usize = 0;
    while f < module.struct_arc_fields.len()
        invariant
            f <= module.struct_arc_fields.items().len(),
            ty_views(out@) == field_tys(acc, module.struct_arc_fields.items(), f as nat),
        decreases module.struct_arc_fields.items().len() - f,
    {
        let fields = &module.struct_arc_fields.entry(f).1;
        let ghost before = ty_views(out@);
        let mut j: usize = 0;
        while j < fields.len()
            invariant
                j <= fields.len(),
                ty_views(out@) == before + offset_tys(fields@).take(j as int),
            decreases fields.len() - j,
        {
            let ghost mid = ty_views(out@);
            out.push(fields[j].1.copy());
            assert(ty_views(out@) =~= mid.push(fields@[j as int].1@));
            assert(offset_tys(fields@).take(j + 1) =~= offset_tys(fields@).take(j as int).push(fields@[j as int].1@));
            j += 1;
        }
        assert(offset_tys(fields@).take(j as int) =~= offset_tys(fields@));
        f += 1;
    }
    let ghost acc = ty_views(out@);
    let mut p: usize = 0;
    while p < module.enum_payload_tys.len()
        invariant
            p <= module.enum_payload_tys.items().len(),
            ty_views(out@) == payload_tys(acc, module.enum_payload_tys.items(), p as nat),
        decreases module.enum_payload_tys.items().len() - p,
    {
        let variants = &module.enum_payload_tys.entry(p).1;
        let ghost before = ty_views(out@);
        let mut v: usize = 0;
        while v < variants.len()
            invariant
                v <= variants.len(),
                ty_views(out@) == variants_tys(before, variants@, v as nat),
            decreases variants.len() - v,
        {
            let mut tys = copy_tys(&variants[v]);
            let ghost mid = ty_views(out@);
            let ghost more = ty_views(tys@);
            out.append(&mut tys);
            assert(ty_views(out@) =~= mid + more);
            v += 1;
        }
        p += 1;
    }
    out
}

/// The distinct counted element types of vectors among types.
pub open spec fn vec_elems_of(ts: Seq<TyV>, has_payload: Seq<SymbolId>) -> Seq<TyV> {
    with_all_vec_elems(seq![], ts, has_payload, ts.len())
}

/// The distinct array types among types.
pub open spec fn arrays_of(ts: Seq<TyV>) -> Seq<TyV> {
    with_all_arrays(seq![], ts, ts.len())
}

fn collect_vec_arc_elems(tys: &Vec<Ty>, enum_has_payload: &Vec<SymbolId>) -> (r: Vec<Ty>)
    ensures
        ty_views(r@) == vec_elems_of(ty_views(tys@), enum_has_payload@),
{
    let mut out: Vec<Ty> = Vec::new();
    assert(ty_views(out@) =~= seq![]);
    scan_tys_for_vec_elems(tys, enum_has_payload, &mut out);
    out
}

fn collect_array_tys(tys: &Vec<Ty>) -> (r: Vec<Ty>)
    ensures
        ty_views(r@) == arrays_of(ty_views(tys@)),
{
    let mut out: Vec<Ty> = Vec::new();
    assert(ty_views(out@) =~= seq![]);
    scan_tys_for_arrays(tys, &mut out);
    out
}

/// Monomorphizes a module: replaces its functions by the concrete ones and
/// one specialization per generic function and type arguments asked for,
/// with every call pointed at what it reaches, and records the types code
/// generation has to know. When symbol numbers run out the module is left
/// without functions.
pub fn monomorphize_module(module: &mut HirModule) -> (r: Result<(), SymbolsExhausted>)
    ensures
        r is Ok <==> monomorphized(known_of(*old(module)), item_views(old(module).items@)) is Some,
        r is Ok ==> monomorphized(known_of(*old(module)), item_views(old(module).items@)) == Some(
            item_views(final(module).items@),
        ),
        r is Ok ==> ty_views(final(module).vec_arc_elem_tys@) == vec_elems_of(
            used_tys(
                item_views(final(module).items@),
                old(module).struct_arc_fields.items(),
                old(module).enum_payload_tys.items(),
            ),
            old(module).enum_has_payload@,
        ),
        r is Ok ==> ty_views(final(module).array_tys@) == arrays_of(
            used_tys(
                item_views(final(module).items@),
                old(module).struct_arc_fields.items(),
                old(module).enum_payload_tys.items(),
            ),
        ),
        r is Err ==> final(module).items@.len() == 0,
        final(module).struct_arc_fields == old(module).struct_arc_fields,
        final(module).struct_sizes == old(module).struct_sizes,
        final(module).enum_has_payload == old(module).enum_has_payload,
        final(module).enum_payload_tys == old(module).enum_payload_tys,
        final(module).impl_methods == old(module).impl_methods,
        final(module).trait_methods == old(module).trait_methods,
        final(module).trait_methods_flat == old(module).trait_methods_flat,
        final(module).impl_assoc_bindings_ty == old(module).impl_assoc_bindings_ty,
        final(module).struct_generics == old(module).struct_generics,
{
    let mut items: Vec<HirItem> = Vec::new();
    std::mem::swap(&mut items, &mut module.items);
    let ghost fs = item_views(items@);
    let ghost kn = known_of(*old(module));
    let set = Setting {
        methods: &module.impl_methods,
        bindings: &module.impl_assoc_bindings_ty,
        params: &module.struct_generics,
    };
    let mut state = MonoState::new(set, items);
    state.run();
    match state.drain() {
        Err(e) => {
            return Err(e);
        },
        Ok(_) => {},
    }
    let ghost st = state@;
    let rewrite = RewriteCalls { generics: &state.generics, cache: &state.cache };
    let mut out: Vec<HirItem> = Vec::new();
    let mut i: usize = 0;
    while i < state.concrete.len()
        invariant
            i <= state.concrete.len(),
            out.len() == i,
            st == state@,
            rewrite.rewrite() == call_rewrite(st.generics, st.cache),
            forall|j: int|
                0 <= j < i ==> fn_view((#[trigger] out[j])->Fn_0) == settled(st, fn_view(state.concrete[j])),
        decreases state.concrete.len() - i,
    {
        let f = &state.concrete[i];
        let body = map_block(&rewrite, &f.body);
        let settled_fn = replace_body(f, body);
        out.push(HirItem::Fn(settled_fn));
        i += 1;
    }
    proof {
        let want = monomorphized(kn, fs)->0;
        assert(item_views(out@) =~= want);
    }
    module.items = out;
    let tys = collect_used_tys(module);
    module.vec_arc_elem_tys = collect_vec_arc_elems(&tys, &module.enum_has_payload);
    module.array_tys = collect_array_tys(&tys);
    Ok(())
}

/// A function with another body.
fn replace_body(f: &HirFn, body: HirBlock) -> (r: HirFn)
    ensures
        r@ == with_body(f@, body@),
{
    let mut params: Vec<HirParam> = Vec::new();
    let mut i: usize = 0;
    while i < f.params.len()
        invariant
            i <= f.params.len(),
            params.len() == i,
            forall|j: int| 0 <= j < i ==> param_view(#[trigger] params[j]) == param_view(f.params[j]),
        decreases f.params.len() - i,
    {
        let p = &f.params[i];
        params.push(HirParam { sym: p.sym, name: p.name.clone(), ty: p.ty.copy() });
        i += 1;
    }
    assert(param_views(params@) =~= param_views(f.params@));
    let generics = copy_syms(&f.generics);
    HirFn { sym: f.sym, name: f.name.clone(), generics, params, ret_ty: f.ret_ty.copy(), body }
}

// ---- laws ----

/// The concrete functions among the first `n`, in order.
pub open spec fn concrete_of(fs: Seq<HirFnV>, n: nat) -> Seq<HirFnV>
    decreases n,
{
    if n == 0 || n > fs.len() {
        seq![]
    } else if fs[n - 1].generics.len() > 0 {
        concrete_of(fs, (n - 1) as nat)
    } else {
        concrete_of(fs, (n - 1) as nat).push(fs[n - 1])
    }
}

/// The same functions with their method calls resolved.
pub open spec fn ready_of(kn: Known, fs: Seq<HirFnV>, n: nat) -> Seq<HirFnV> {
    Seq::new(concrete_of(fs, n).len(), |i: int| resolved_fn(kn, concrete_of(fs, n)[i]))
}

/// What holds of every state of the pass over `kept` concrete functions with
/// fresh symbols from `first` on: the kept functions stay in front, each
/// function after them carries the next fresh symbol, no function is
/// generic, and the specializations made have distinct fresh symbols.
pub open spec fn in_progress(st: MonoV, kept: Seq<HirFnV>, first: nat) -> bool {
    &&& first <= st.next
    &&& st.concrete.len() == kept.len() + (st.next - first)
    &&& forall|i: int| 0 <= i < kept.len() ==> #[trigger] st.concrete[i] == kept[i]
    &&& forall|i: int|
        kept.len() <= i < st.concrete.len() ==> (#[trigger] st.concrete[i]).sym.0 == first + (i - kept.len())
    &&& forall|i: int| 0 <= i < st.concrete.len() ==> (#[trigger] st.concrete[i]).generics.len() == 0
    &&& forall|k: (SymbolId, Seq<TyV>)|
        #![trigger st.cache[k]]
        st.cache.contains_key(k) ==> first <= st.cache[k].0 < st.next
    &&& forall|k: (SymbolId, Seq<TyV>), l: (SymbolId, Seq<TyV>)|
        #![trigger st.cache[k], st.cache[l]]
        st.cache.contains_key(k) && st.cache.contains_key(l) && st.cache[k] == st.cache[l] ==> k == l
}

proof fn draining_stays_in_progress(st: MonoV, kept: Seq<HirFnV>, first: nat)
    requires
        in_progress(st, kept, first),
        drained(st) is Some,
    ensures
        in_progress(drained(st)->0, kept, first),
        drained(st)->0.generics == st.generics,
        drained(st)->0.known == st.known,
        drained(st)->0.worklist.len() == 0,
    decreases 0x1_0000_0000 - st.next, st.worklist.len(),
{
    if st.worklist.len() > 0 {
        let (sym, args) = st.worklist.last();
        let rest = MonoV { worklist: st.worklist.drop_last(), ..st };
        if st.cache.contains_key((sym, args)) || !st.generics.contains_key(sym) {
            draining_stays_in_progress(rest, kept, first);
        } else {
            let next = served(rest, sym, args);
            assert(next.cache == st.cache.insert((sym, args), SymbolId(st.next as u32)));
            assert(next.concrete.last().sym.0 == st.next);
            assert forall|i: int| kept.len() <= i < next.concrete.len() implies (#[trigger] next.concrete[i]).sym.0
                == first + (i - kept.len()) by {
                if i < st.concrete.len() {
                    assert(next.concrete[i] == st.concrete[i]);
                }
            }
            assert forall|i: int| 0 <= i < kept.len() implies #[trigger] next.concrete[i] == kept[i] by {
                assert(next.concrete[i] == st.concrete[i]);
            }
            assert forall|i: int| 0 <= i < next.concrete.len() implies (#[trigger] next.concrete[i]).generics.len()
                == 0 by {
                if i < st.concrete.len() {
                    assert(next.concrete[i] == st.concrete[i]);
                }
            }
            draining_stays_in_progress(next, kept, first);
        }
    }
}

proof fn split_keeps_concrete(kn: Known, fs: Seq<HirFnV>, n: nat, next: nat)
    requires
        n <= fs.len(),
    ensures
        split(kn, fs, n, next).concrete == ready_of(kn, fs, n),
        split(kn, fs, n, next).known == kn,
        split(kn, fs, n, next).cache == Map::<(SymbolId, Seq<TyV>), SymbolId>::empty(),
        split(kn, fs, n, next).next == next,
        forall|i: int| 0 <= i < concrete_of(fs, n).len() ==> (#[trigger] concrete_of(fs, n)[i]).generics.len() == 0,
    decreases n,
{
    if n > 0 {
        split_keeps_concrete(kn, fs, (n - 1) as nat, next);
    }
    assert(split(kn, fs, n, next).concrete =~= ready_of(kn, fs, n));
}

proof fn start_is_in_progress(kn: Known, fs: Seq<HirFnV>)
    ensures
        in_progress(start(kn, fs), ready_of(kn, fs, fs.len()), first_fresh(fs)),
{
    let st = split(kn, fs, fs.len(), first_fresh(fs));
    split_keeps_concrete(kn, fs, fs.len(), first_fresh(fs));
    seeded_keeps_concrete(st, st.concrete.len());
}

/// The first symbol number past every symbol the functions mention.
pub open spec fn first_fresh(fs: Seq<HirFnV>) -> nat {
    mentions_top(fns_mentions(fs, fs.len()), fns_mentions(fs, fs.len()).len()) + 1
}

/// A monomorphized module holds no generic function.
pub proof fn result_is_concrete(kn: Known, fs: Seq<HirFnV>)
    requires
        monomorphized(kn, fs) is Some,
    ensures
        forall|i: int|
            0 <= i < monomorphized(kn, fs)->0.len() ==> (#[trigger] monomorphized(kn, fs)->0[i]).generics.len()
                == 0,
{
    start_is_in_progress(kn, fs);
    draining_stays_in_progress(start(kn, fs), ready_of(kn, fs, fs.len()), first_fresh(fs));
}

/// The concrete functions of the input come first in the result, in order,
/// each under its own symbol and name and with its own signature.
pub proof fn concrete_functions_stay(kn: Known, fs: Seq<HirFnV>)
    requires
        monomorphized(kn, fs) is Some,
    ensures
        concrete_of(fs, fs.len()).len() <= monomorphized(kn, fs)->0.len(),
        forall|i: int|
            0 <= i < concrete_of(fs, fs.len()).len() ==> {
                let before = #[trigger] concrete_of(fs, fs.len())[i];
                let after = monomorphized(kn, fs)->0[i];
                after == with_body(before, after.body)
            },
{
    start_is_in_progress(kn, fs);
    let kept = ready_of(kn, fs, fs.len());
    draining_stays_in_progress(start(kn, fs), kept, first_fresh(fs));
    let st = drained(start(kn, fs))->0;
    let given = concrete_of(fs, fs.len());
    assert forall|i: int| 0 <= i < given.len() implies ({
        let before = #[trigger] given[i];
        let after = monomorphized(kn, fs)->0[i];
        after == with_body(before, after.body)
    }) by {
        assert(st.concrete[i] == kept[i]);
    }
}

/// The specializations follow the concrete functions and take consecutive
/// symbols past every symbol the input mentions, so none of them collides
/// with anything.
pub proof fn specializations_are_fresh(kn: Known, fs: Seq<HirFnV>)
    requires
        monomorphized(kn, fs) is Some,
    ensures
        forall|i: int|
            concrete_of(fs, fs.len()).len() <= i < monomorphized(kn, fs)->0.len() ==> (
            #[trigger] monomorphized(kn, fs)->0[i]).sym.0 == first_fresh(fs) + (i - concrete_of(
                fs,
                fs.len(),
            ).len()),
        forall|m: int|
            0 <= m < fns_mentions(fs, fs.len()).len() ==> mention_top(#[trigger] fns_mentions(fs, fs.len())[m])
                < first_fresh(fs),
{
    start_is_in_progress(kn, fs);
    let kept = ready_of(kn, fs, fs.len());
    draining_stays_in_progress(start(kn, fs), kept, first_fresh(fs));
    let st = drained(start(kn, fs))->0;
    assert forall|i: int| kept.len() <= i < monomorphized(kn, fs)->0.len() implies (#[trigger] monomorphized(
        kn,
        fs,
    )->0[i]).sym.0 == first_fresh(fs) + (i - kept.len()) by {
        assert(st.concrete[i].sym.0 == first_fresh(fs) + (i - kept.len()));
    }
    let ms = fns_mentions(fs, fs.len());
    assert forall|m: int| 0 <= m < ms.len() implies mention_top(#[trigger] ms[m]) < first_fresh(fs) by {
        mention_below_top(ms, ms.len(), m);
    }
}

proof fn mention_below_top(ms: Seq<MentionV>, n: nat, m: int)
    requires
        0 <= m < n <= ms.len(),
    ensures
        mention_top(ms[m]) <= mentions_top(ms, n),
    decreases n,
{
    if m < n - 1 {
        mention_below_top(ms, (n - 1) as nat, m);
    }
}

/// There is one function per generic function and type arguments: two
/// specializations made share a symbol only when they are the same one, and
/// each one's symbol names exactly one function of the result.
pub proof fn one_function_per_instance(
    kn: Known,
    fs: Seq<HirFnV>,
    k: (SymbolId, Seq<TyV>),
    l: (SymbolId, Seq<TyV>),
)
    requires
        monomorphized(kn, fs) is Some,
        drained(start(kn, fs))->0.cache.contains_key(k),
        drained(start(kn, fs))->0.cache.contains_key(l),
    ensures
        drained(start(kn, fs))->0.cache[k] == drained(start(kn, fs))->0.cache[l] ==> k == l,
        exists|i: int|
            concrete_of(fs, fs.len()).len() <= i < monomorphized(kn, fs)->0.len() && (
            #[trigger] monomorphized(kn, fs)->0[i]).sym == drained(start(kn, fs))->0.cache[k],
{
    start_is_in_progress(kn, fs);
    let kept = ready_of(kn, fs, fs.len());
    draining_stays_in_progress(start(kn, fs), kept, first_fresh(fs));
    let st = drained(start(kn, fs))->0;
    let s = st.cache[k];
    let i = kept.len() + (s.0 - first_fresh(fs));
    assert(st.concrete[i].sym.0 == s.0);
    assert(monomorphized(kn, fs)->0[i].sym == s);
}

/// Whether a mention is a call of a generic function for which type
/// arguments can be inferred: `k` is then the function and the arguments.
pub open spec fn asks_for(generics: Map<SymbolId, HirFnV>, m: MentionV, k: (SymbolId, Seq<TyV>)) -> bool {
    match m {
        MentionV::Call(callee, arg_tys) => callee == k.0 && generics.contains_key(callee) && inferred(
            generics[callee],
            arg_tys,
        ) == Some(k.1),
        _ => false,
    }
}

/// Every specialization a concrete body asks for is made or queued.
spec fn accounted(st: MonoV, n: nat) -> bool {
    forall|i: int, j: int, k: (SymbolId, Seq<TyV>)|
        #![trigger block_mentions(seq![], st.concrete[i].body)[j], st.cache.contains_key(k)]
        0 <= i < n && i < st.concrete.len() && 0 <= j < block_mentions(seq![], st.concrete[i].body).len() && asks_for(
            st.generics,
            block_mentions(seq![], st.concrete[i].body)[j],
            k,
        ) ==> st.cache.contains_key(k) || st.worklist.contains(k)
}

proof fn requests_are_queued(
    generics: Map<SymbolId, HirFnV>,
    cache: Map<(SymbolId, Seq<TyV>), SymbolId>,
    worklist: Seq<(SymbolId, Seq<TyV>)>,
    ms: Seq<MentionV>,
    n: nat,
)
    requires
        n <= ms.len(),
    ensures
        forall|k: (SymbolId, Seq<TyV>)| worklist.contains(k) ==> requests(generics, cache, worklist, ms, n).contains(k),
        forall|j: int, k: (SymbolId, Seq<TyV>)|
            #![trigger ms[j], cache.contains_key(k)]
            0 <= j < n && asks_for(generics, ms[j], k) ==> cache.contains_key(k) || requests(
                generics,
                cache,
                worklist,
                ms,
                n,
            ).contains(k),
    decreases n,
{
    if n > 0 {
        requests_are_queued(generics, cache, worklist, ms, (n - 1) as nat);
        let before = requests(generics, cache, worklist, ms, (n - 1) as nat);
        let after = requests(generics, cache, worklist, ms, n);
        assert forall|k: (SymbolId, Seq<TyV>)| before.contains(k) implies after.contains(k) by {
            let i = choose|i: int| 0 <= i < before.len() && before[i] == k;
            assert(after[i] == k);
        }
        assert forall|j: int, k: (SymbolId, Seq<TyV>)|
            #![trigger ms[j], cache.contains_key(k)]
            0 <= j < n && asks_for(generics, ms[j], k) implies cache.contains_key(k) || after.contains(k) by {
            if j == n - 1 && !cache.contains_key(k) {
                assert(after[after.len() - 1] == k);
            }
        }
    }
}

proof fn draining_accounts(st: MonoV)
    requires
        accounted(st, st.concrete.len()),
        drained(st) is Some,
    ensures
        accounted(drained(st)->0, drained(st)->0.concrete.len()),
        drained(st)->0.generics == st.generics,
        drained(st)->0.known == st.known,
        drained(st)->0.worklist.len() == 0,
    decreases 0x1_0000_0000 - st.next, st.worklist.len(),
{
    if st.worklist.len() > 0 {
        let (sym, args) = st.worklist.last();
        let rest = MonoV { worklist: st.worklist.drop_last(), ..st };
        let key = (sym, args);
        assert forall|k: (SymbolId, Seq<TyV>)| st.worklist.contains(k) && k != key implies rest.worklist.contains(k) by {
            let i = choose|i: int| 0 <= i < st.worklist.len() && st.worklist[i] == k;
            assert(rest.worklist[i] == k);
        }
        if st.cache.contains_key(key) || !st.generics.contains_key(sym) {
            assert(accounted(rest, rest.concrete.len()));
            draining_accounts(rest);
        } else {
            let f = specialized(st.known, st.generics[sym], args, SymbolId(st.next as u32));
            let noted = MonoV { next: st.next + 1, cache: st.cache.insert(key, f.sym), ..rest };
            let ms = block_mentions(seq![], f.body);
            requests_are_queued(noted.generics, noted.cache, noted.worklist, ms, ms.len());
            let next = served(rest, sym, args);
            assert forall|i: int, j: int, k: (SymbolId, Seq<TyV>)|
                #![trigger block_mentions(seq![], next.concrete[i].body)[j], next.cache.contains_key(k)]
                0 <= i < next.concrete.len() && 0 <= j < block_mentions(seq![], next.concrete[i].body).len()
                    && asks_for(next.generics, block_mentions(seq![], next.concrete[i].body)[j], k) implies next.cache.contains_key(k)
                || next.worklist.contains(k) by {
                if i < st.concrete.len() {
                    assert(next.concrete[i] == st.concrete[i]);
                    assert(st.cache.contains_key(k) || st.worklist.contains(k));
                } else {
                    assert(next.concrete[i] == f);
                    assert(noted.cache.contains_key(k) || next.worklist.contains(k));
                }
            }
            draining_accounts(next);
        }
    }
}

proof fn seeding_accounts(st: MonoV, n: nat)
    requires
        n <= st.concrete.len(),
    ensures
        accounted(seeded(st, n), n),
    decreases n,
{
    seeded_keeps_concrete(st, n);
    if n > 0 {
        seeding_accounts(st, (n - 1) as nat);
        seeded_keeps_concrete(st, (n - 1) as nat);
        let before = seeded(st, (n - 1) as nat);
        let after = seeded(st, n);
        let ms = block_mentions(seq![], st.concrete[n - 1].body);
        requests_are_queued(st.generics, st.cache, before.worklist, ms, ms.len());
        assert forall|i: int, j: int, k: (SymbolId, Seq<TyV>)|
            #![trigger block_mentions(seq![], after.concrete[i].body)[j], after.cache.contains_key(k)]
            0 <= i < n && 0 <= j < block_mentions(seq![], after.concrete[i].body).len() && asks_for(
                after.generics,
                block_mentions(seq![], after.concrete[i].body)[j],
                k,
            ) implies after.cache.contains_key(k) || after.worklist.contains(k) by {
            if i < n - 1 {
                assert(block_mentions(seq![], before.concrete[i].body)[j] == block_mentions(
                    seq![],
                    after.concrete[i].body,
                )[j]);
                assert(before.cache.contains_key(k) || before.worklist.contains(k));
            } else {
                assert(ms[j] == block_mentions(seq![], after.concrete[i].body)[j]);
                assert(st.cache.contains_key(k) || after.worklist.contains(k));
            }
        }
    }
}

/// Every call of a generic function is served: when a concrete body, one of
/// the input or a specialized one, holds a call whose type arguments can be
/// inferred, the specialization for them has been made.
pub proof fn every_call_is_specialized(
    kn: Known,
    fs: Seq<HirFnV>,
    i: int,
    j: int,
    k: (SymbolId, Seq<TyV>),
)
    requires
        monomorphized(kn, fs) is Some,
        0 <= i < drained(start(kn, fs))->0.concrete.len(),
        0 <= j < block_mentions(seq![], drained(start(kn, fs))->0.concrete[i].body).len(),
        asks_for(
            drained(start(kn, fs))->0.generics,
            block_mentions(seq![], drained(start(kn, fs))->0.concrete[i].body)[j],
            k,
        ),
    ensures
        drained(start(kn, fs))->0.cache.contains_key(k),
{
    let st = split(kn, fs, fs.len(), first_fresh(fs));
    seeding_accounts(st, st.concrete.len());
    seeded_keeps_concrete(st, st.concrete.len());
    draining_accounts(start(kn, fs));
    let done = drained(start(kn, fs))->0;
    assert(block_mentions(seq![], done.concrete[i].body)[j] == block_mentions(seq![], done.concrete[i].body)[j]);
    assert(done.cache.contains_key(k) || done.worklist.contains(k));
}

/// Whether every variable in a type is bound by `m`.
pub open spec fn covered(m: Map<SymbolId, TyV>, t: TyV) -> bool
    decreases t,
{
    match t {
        TyV::TypeVar(v) => m.contains_key(v),
        TyV::Array(e, _) => covered(m, *e),
        TyV::Fn { params, ret } => all_covered(m, params) && covered(m, *ret),
        TyV::Struct(_, args) => all_covered(m, args),
        TyV::Enum(_, args) => all_covered(m, args),
        TyV::Dyn(_, args) => all_covered(m, args),
        TyV::Weak(e) => covered(m, *e),
        TyV::Vec(e) => covered(m, *e),
        TyV::HashMap(k, v) => covered(m, *k) && covered(m, *v),
        TyV::Assoc(b, _) => covered(m, *b),
        _ => true,
    }
}

pub open spec fn all_covered(m: Map<SymbolId, TyV>, ts: Seq<TyV>) -> bool
    decreases ts,
{
    forall|i: int| 0 <= i < ts.len() ==> covered(m, #[trigger] ts[i])
}

/// Whether everything bound is a type without variables.
pub open spec fn grounds(m: Map<SymbolId, TyV>) -> bool {
    forall|v: SymbolId| m.contains_key(v) ==> ground(#[trigger] m[v])
}

/// Substituting types without variables for every variable of a type leaves
/// no variable, whatever projections the type holds.
pub proof fn substitution_grounds(kn: Known, m: Map<SymbolId, TyV>, t: TyV)
    requires
        covered(m, t),
        grounds(m),
    ensures
        ground(substituted(kn, m, t)),
{
    substitution_grounds_within(kn, m, t, usize::MAX as nat);
}

proof fn substitution_grounds_within(kn: Known, m: Map<SymbolId, TyV>, t: TyV, d: nat)
    requires
        covered(m, t),
        grounds(m),
    ensures
        ground(substituted_within(kn, m, t, d)),
    decreases t,
{
    match t {
        TyV::Array(e, _) => substitution_grounds_within(kn, m, *e, d),
        TyV::Fn { params, ret } => {
            substitution_grounds_all(kn, m, params, d);
            substitution_grounds_within(kn, m, *ret, d);
        },
        TyV::Struct(_, args) => substitution_grounds_all(kn, m, args, d),
        TyV::Enum(_, args) => substitution_grounds_all(kn, m, args, d),
        TyV::Dyn(_, args) => substitution_grounds_all(kn, m, args, d),
        TyV::Weak(e) => substitution_grounds_within(kn, m, *e, d),
        TyV::Vec(e) => substitution_grounds_within(kn, m, *e, d),
        TyV::HashMap(k, v) => {
            substitution_grounds_within(kn, m, *k, d);
            substitution_grounds_within(kn, m, *v, d);
        },
        TyV::Assoc(b, name) => {
            substitution_grounds_within(kn, m, *b, d);
            let base = substituted_within(kn, m, *b, d);
            assert(ground(TyV::Assoc(Box::new(base), name)));
        },
        _ => {},
    }
}

proof fn substitution_grounds_all(kn: Known, m: Map<SymbolId, TyV>, ts: Seq<TyV>, d: nat)
    requires
        all_covered(m, ts),
        grounds(m),
    ensures
        all_ground(all_substituted_within(kn, m, ts, d)),
    decreases ts,
{
    let out = all_substituted_within(kn, m, ts, d);
    assert forall|i: int| 0 <= i < out.len() implies ground(#[trigger] out[i]) by {
        assert(covered(m, ts[i]));
        substitution_grounds_within(kn, m, ts[i], d);
    }
}

} // verus!
