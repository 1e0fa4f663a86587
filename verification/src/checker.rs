//! Type checking.

use vstd::prelude::*;

use crate::ast::{
    AssocTypeBinding, BinOp, Block, ClosureParam, ConstDecl, Expr, Field, FieldInit, FnDecl,
    Ident, ImplBlock, Item, LetStmt, Lit, MatchArm, Module, Param, Path, Pattern, Stmt,
    TraitDecl, TraitMethodSig, Type, UnOp,
};
use crate::facts::{
    FactStore, Facts, LayoutV, SelfContext, assoc_maps, erring, layout_view, no_facts, reports,
};
use crate::graph::{contains_sym, visit};
use crate::lower::PROJECTION_DEPTH;
use crate::monomorphize::{bind, ty_map};
use crate::names::{segment_names, types_of};
use crate::resolver::{Resolutions, SymbolKind, fn_named};
use crate::search::{first_where, found_stays, least};
use crate::table::{Table, copy_syms, lookup, view_or};
use crate::text::{
    cat2, cat3, cat4, cat5, cat6, cat7, cat8, copy_texts, dec, dec_int, has_text, join, number,
    plural, plural_of, push_dec_int, same_text, texts,
};
use crate::token::Span;
use crate::ty::{DEFAULT_FLOAT, DEFAULT_INT, IntTy, SymbolId, Ty, TyV, copy_tys, ty_view, ty_views};
use crate::typing::{
    CoverV, Inits, MethodSigV, all_bind, all_checked, all_fit, all_instantiated, all_typed,
    alternatives_fit, args_learned, arguments_fit, arms_checked, arms_covered, assigned,
    assignment_of, assoc_conform, assoc_of, at, binary_of, binding_named, bindings_conform,
    bindings_found, binds, block_checked, bound_before, bound_checked, bound_method,
    builtin_method, call_of, captures_laid_out, captures_of, cast_of, checked, checked_call,
    checked_for, checked_inside, clashes, closure_begun, closure_ended, closure_of,
    closure_params_of, closure_type, compound_of, conforms, const_checked, const_registered,
    conversion_found, conversions_of, covered_already, declares, declaring, default_checked,
    default_self, defaults_checked, each_binds, elements_checked, enum_args, exhausts, field_of,
    field_ty, fields_bind, fields_fit, fits, fits_slot, fn_checked, fn_sig, fns_checked,
    full_depth, has_sig, impl_registered, impl_vars, implements, indexed_of, init_at,
    inits_first, inits_second, instantiated, is_dyn_projection, is_iterator, is_result,
    is_trait_sym, item_checked, items_checked, items_of, iterates, laid_out, layout_named,
    layouts_found, learned, learned_all, let_checked, let_ended, let_keeps_closure, lit_covered,
    lit_ty, map_builtin_args, map_builtin_of, method_call_of, method_of, method_signature,
    methods_conform, missing_bools, missing_fields, missing_in_pattern, missing_inits,
    missing_variants, module_checked, must_be_bool, must_be_int, name_at, named_type,
    next_offset, object_method, op_gives, op_takes, op_text, op_wants, opt_checked, opt_type_of,
    param_types, params_bound, pattern_covered, pattern_field, patterns_covered, payloads,
    payloads_at, poly_of, position, propagated, provided_once, provides, range_fits,
    range_not_empty, registered, root_of, self_type, sig_named, sig_params, sig_ret,
    signature_of, sigs_of, sigs_registered, sliced_of, stmt_checked, stmts_checked, struct_args,
    struct_lit_of, supers_conform, supers_of, sym_kind, sym_name, sym_span, takes_payloads,
    target_of, trait_registered, try_of, type_of, typed, typed_path, unary_of, user_method,
    value_of, values_checked, variant_args_checked, variant_at, variant_call_of, variant_covered,
    variant_inits_checked, variant_lit_of, variant_types, vec_iter_method, with_fn, with_fns,
    without_dyn_projection, wrong_enum,
};

verus! {

#[derive(Debug, Clone, PartialEq, Eq)]
pub struct TypeError {
    pub message: String,
    pub span: Span,
}

impl TypeError {
    /// The error as it is shown.
    pub fn display(&self) -> (r: String)
        ensures
            r@ == "type error at "@ + dec(self.span.start as nat) + ".."@ + dec(self.span.end as nat) + ": "@
                + self.message@,
    {
        cat6(
            "type error at ",
            number(self.span.start).as_str(),
            "..",
            number(self.span.end).as_str(),
            ": ",
            self.message.as_str(),
        )
    }
}

/// What type checking found.
pub struct CheckResults {
    pub expr_types: Table<Span, Ty>,
    pub fn_signatures: Table<Span, Ty>,
    pub local_types: Table<Span, Ty>,
    pub type_resolutions: Table<Span, Ty>,
    pub struct_layouts: Table<SymbolId, StructLayout>,
    /// Where a struct becomes a trait object: the struct, the trait and the
    /// trait's type arguments.
    pub dyn_coercions: Table<Span, (SymbolId, SymbolId, Vec<Ty>)>,
    /// Where `?` converts an error: the function that does, and the type it
    /// gives.
    pub try_conversions: Table<Span, (SymbolId, Ty)>,
    /// The type bound to an associated-type name on a struct.
    pub impl_assoc_bindings_ty: Table<(SymbolId, String), Ty>,
    /// Per closure, its parameter types in order.
    pub closure_param_tys: Table<Span, Vec<Ty>>,
    /// Per closure, its return type.
    pub closure_ret_tys: Table<Span, Ty>,
    pub errors: Vec<TypeError>,
}

#[derive(Debug, Clone)]
pub struct StructLayout {
    pub fields: Vec<StructLayoutField>,
    /// Size of the field area in bytes.
    pub size: u32,
}

#[derive(Debug, Clone)]
pub struct StructLayoutField {
    pub name: String,
    pub ty: Ty,
    pub offset: u32,
}

/// Which fields have a name.
pub open spec fn has_name(fields: Seq<StructLayoutField>, name: Seq<char>) -> spec_fn(int) -> bool {
    |i: int| fields[i].name@ == name
}

/// The position of the first field with a name.
pub open spec fn field_index(fields: Seq<StructLayoutField>, name: Seq<char>) -> Option<int> {
    first_where(has_name(fields, name), fields.len())
}

impl StructLayout {
    /// The first field with a name.
    pub fn field(&self, name: &str) -> (r: Option<&StructLayoutField>)
        ensures
            match r {
                Some(f) => field_index(self.fields@, name@) matches Some(i) && 0 <= i < self.fields@.len() && *f
                    == self.fields@[i],
                None => field_index(self.fields@, name@) is None,
            },
    {
        let ghost p = has_name(self.fields@, name@);
        let mut i: usize = 0;
        while i < self.fields.len()
            invariant
                i <= self.fields.len(),
                p == has_name(self.fields@, name@),
                first_where(p, i as nat) is None,
            decreases self.fields.len() - i,
        {
            if same_text(self.fields[i].name.as_str(), name) {
                proof {
                    found_stays(p, (i + 1) as nat, self.fields@.len());
                }
                return Some(&self.fields[i]);
            }
            i += 1;
        }
        None
    }
}

// ---- reading names ----

fn name_of(res: &Resolutions<'_>, id: SymbolId) -> (r: String)
    ensures
        r@ == sym_name(*res, id),
{
    let i = id.0 as usize;
    if i < res.symbols.len() {
        res.symbols[i].name.clone()
    } else {
        "".to_owned()
    }
}

fn span_of(res: &Resolutions<'_>, id: SymbolId) -> (r: Span)
    ensures
        r == sym_span(*res, id),
{
    let i = id.0 as usize;
    if i < res.symbols.len() {
        res.symbols[i].span
    } else {
        Span { start: 0, end: 0 }
    }
}

fn kind_of<'r>(res: &'r Resolutions<'_>, id: SymbolId) -> (r: Option<&'r SymbolKind>)
    ensures
        match r {
            Some(k) => sym_kind(*res, id) == Some(*k),
            None => sym_kind(*res, id) is None,
        },
{
    let i = id.0 as usize;
    if i < res.symbols.len() {
        Some(&res.symbols[i].kind)
    } else {
        None
    }
}

fn target(res: &Resolutions<'_>, span: Span) -> (r: Option<SymbolId>)
    ensures
        r == lookup(res.path_to_sym@, span),
{
    match res.path_to_sym.get(&span) {
        Some(s) => Some(*s),
        None => None,
    }
}

fn declared(res: &Resolutions<'_>, span: Span) -> (r: Option<SymbolId>)
    ensures
        r == lookup(res.decl_to_sym@, span),
{
    match res.decl_to_sym.get(&span) {
        Some(s) => Some(*s),
        None => None,
    }
}

fn is_trait(res: &Resolutions<'_>, id: SymbolId) -> (r: bool)
    ensures
        r == is_trait_sym(*res, id),
{
    match kind_of(res, id) {
        Some(k) => match k {
            SymbolKind::Trait => true,
            _ => false,
        },
        None => false,
    }
}

/// The enum and the discriminant of a variant.
fn variant_of(res: &Resolutions<'_>, id: SymbolId) -> (r: Option<(SymbolId, u32)>)
    ensures
        match r {
            Some((e, d)) => sym_kind(*res, id) == Some(SymbolKind::EnumVariant { enum_sym: e, discriminant: d }),
            None => !(sym_kind(*res, id) matches Some(SymbolKind::EnumVariant { .. })),
        },
{
    match kind_of(res, id) {
        Some(k) => match k {
            SymbolKind::EnumVariant { enum_sym, discriminant } => Some((*enum_sym, *discriminant)),
            _ => None,
        },
        None => None,
    }
}

/// The position of a text in a list.
pub fn position_of(names: &Vec<String>, name: &str) -> (r: Option<usize>)
    ensures
        match r {
            Some(i) => i < names.len() && position(texts(names@), name@) == Some(i as int),
            None => position(texts(names@), name@) is None,
        },
{
    let ghost p = name_at(texts(names@), name@);
    let mut i: usize = 0;
    while i < names.len()
        invariant
            i <= names.len(),
            p == name_at(texts(names@), name@),
            first_where(p, i as nat) is None,
        decreases names.len() - i,
    {
        if same_text(names[i].as_str(), name) {
            proof {
                assert(p(i as int));
                assert(first_where(p, (i + 1) as nat) == Some(i as int));
                found_stays(p, (i + 1) as nat, names@.len());
            }
            return Some(i);
        }
        assert(!p(i as int));
        i += 1;
    }
    None
}

// ---- substitution ----

pub open spec fn opt_ty(t: Option<&Ty>) -> Option<TyV> {
    match t {
        Some(t) => Some(t@),
        None => None,
    }
}

/// A struct's type parameters bound to type arguments.
fn build_struct_subst(res: &Resolutions<'_>, s: SymbolId, args: &Vec<Ty>) -> (r: Table<SymbolId, Ty>)
    ensures
        ty_map(r@) == struct_args(*res, s, ty_views(args@)),
{
    match res.struct_generics.get(&s) {
        Some(generics) => bind(generics, args),
        None => {
            let none: Vec<SymbolId> = Vec::new();
            assert(none@ =~= seq![]);
            bind(&none, args)
        },
    }
}

/// An enum's type parameters bound to the arguments of a type.
fn build_enum_subst(res: &Resolutions<'_>, t: &Ty) -> (r: Table<SymbolId, Ty>)
    ensures
        ty_map(r@) == enum_args(*res, t@),
{
    match t {
        Ty::Enum(s, args) => match res.enum_generics.get(s) {
            Some(generics) => bind(generics, args),
            None => {
                let none: Vec<SymbolId> = Vec::new();
                assert(none@ =~= seq![]);
                bind(&none, args)
            },
        },
        _ => no_subst(),
    }
}

fn no_subst() -> (r: Table<SymbolId, Ty>)
    ensures
        ty_map(r@) == Map::<SymbolId, TyV>::empty(),
{
    let r: Table<SymbolId, Ty> = Table::new();
    assert(ty_map(r@) =~= Map::<SymbolId, TyV>::empty());
    r
}

fn no_bindings() -> (r: Table<(SymbolId, String), Ty>)
    ensures
        assoc_maps(r@) == Map::<(SymbolId, Seq<char>), TyV>::empty(),
{
    let r: Table<(SymbolId, String), Ty> = Table::new();
    assert(assoc_maps(r@) =~= Map::<(SymbolId, Seq<char>), TyV>::empty());
    r
}

/// A type with its variables replaced, `Self` replaced, and its projections
/// followed.
fn apply_subst_inner_with(
    ty: &Ty,
    subst: &Table<SymbolId, Ty>,
    self_ty: Option<&Ty>,
    bindings: &Table<(SymbolId, String), Ty>,
    res: &Resolutions<'_>,
    depth: usize,
) -> (r: Ty)
    ensures
        r@ == instantiated(*res, assoc_maps(bindings@), ty_map(subst@), opt_ty(self_ty), ty@, depth as nat),
    decreases depth, ty,
{
    match ty {
        Ty::TypeVar(t) => match subst.get(t) {
            Some(bound) => bound.copy(),
            None => ty.copy(),
        },
        Ty::SelfType => match self_ty {
            Some(s) => s.copy(),
            None => ty.copy(),
        },
        Ty::Assoc(base, name) => {
            let new_base = apply_subst_inner_with(base, subst, self_ty, bindings, res, depth);
            if let Ty::Struct(s, args) = &new_base {
                if depth > 0 {
                    let key = (*s, name.clone());
                    if let Some(raw) = bindings.get(&key) {
                        let own = build_struct_subst(res, *s, args);
                        let inside = apply_subst_inner_with(raw, &own, self_ty, bindings, res, depth - 1);
                        return apply_subst_inner_with(&inside, subst, self_ty, bindings, res, depth - 1);
                    }
                }
            }
            Ty::Assoc(Box::new(new_base), name.clone())
        },
        Ty::Array(elem, n) => Ty::Array(
            Box::new(apply_subst_inner_with(elem, subst, self_ty, bindings, res, depth)),
            *n,
        ),
        Ty::Vec(elem) => Ty::Vec(
            Box::new(apply_subst_inner_with(elem, subst, self_ty, bindings, res, depth)),
        ),
        Ty::Fn { params, ret } => Ty::Fn {
            params: apply_subst_all(params, 0, subst, self_ty, bindings, res, depth),
            ret: Box::new(apply_subst_inner_with(ret, subst, self_ty, bindings, res, depth)),
        },
        Ty::Struct(s, args) => Ty::Struct(*s, apply_subst_all(args, 0, subst, self_ty, bindings, res, depth)),
        Ty::Enum(s, args) => Ty::Enum(*s, apply_subst_all(args, 0, subst, self_ty, bindings, res, depth)),
        Ty::Weak(inner) => Ty::Weak(
            Box::new(apply_subst_inner_with(inner, subst, self_ty, bindings, res, depth)),
        ),
        _ => ty.copy(),
    }
}

/// The types of a list from a position on.
fn apply_subst_all(
    ts: &Vec<Ty>,
    from: usize,
    subst: &Table<SymbolId, Ty>,
    self_ty: Option<&Ty>,
    bindings: &Table<(SymbolId, String), Ty>,
    res: &Resolutions<'_>,
    depth: usize,
) -> (r: Vec<Ty>)
    requires
        from <= ts.len(),
    ensures
        ty_views(r@) == all_instantiated(
            *res,
            assoc_maps(bindings@),
            ty_map(subst@),
            opt_ty(self_ty),
            ty_views(ts@).skip(from as int),
            depth as nat,
        ),
        from == 0 ==> ty_views(r@) == all_instantiated(
            *res,
            assoc_maps(bindings@),
            ty_map(subst@),
            opt_ty(self_ty),
            ty_views(ts@),
            depth as nat,
        ),
    decreases depth, ts,
{
    let mut out: Vec<Ty> = Vec::new();
    let mut i: usize = from;
    while i < ts.len()
        invariant
            from <= i <= ts.len(),
            out.len() == i - from,
            forall|j: int|
                0 <= j < out.len() ==> ty_view(#[trigger] out[j]) == instantiated(
                    *res,
                    assoc_maps(bindings@),
                    ty_map(subst@),
                    opt_ty(self_ty),
                    ty_view(ts[j + from]),
                    depth as nat,
                ),
        decreases ts.len() - i,
    {
        out.push(apply_subst_inner_with(&ts[i], subst, self_ty, bindings, res, depth));
        i += 1;
    }
    proof {
        let rest = ty_views(ts@).skip(from as int);
        assert(ty_views(out@) =~= all_instantiated(
            *res,
            assoc_maps(bindings@),
            ty_map(subst@),
            opt_ty(self_ty),
            rest,
            depth as nat,
        ));
        if from == 0 {
            assert(rest =~= ty_views(ts@));
        }
    }
    out
}

/// Learns from an actual type what a declared type's variables stand for.
fn unify_typevars(param: &Ty, arg: &Ty, subst: &mut Table<SymbolId, Ty>)
    ensures
        ty_map(final(subst)@) == learned(param@, arg@, ty_map(old(subst)@)),
    decreases param,
{
    match (param, arg) {
        (Ty::TypeVar(t), _) => {
            let ghost before = subst@;
            subst.insert(*t, arg.copy());
            assert(ty_map(subst@) =~= ty_map(before).insert(*t, arg@));
        },
        (Ty::Struct(s1, ps), Ty::Struct(s2, xs)) => {
            assert(ty_views(ps@).len() == ps.len() && ty_views(xs@).len() == xs.len());
            if s1.0 == s2.0 && ps.len() == xs.len() {
                unify_all(ps, xs, subst);
            }
        },
        (Ty::Enum(s1, ps), Ty::Enum(s2, xs)) => {
            assert(ty_views(ps@).len() == ps.len() && ty_views(xs@).len() == xs.len());
            if s1.0 == s2.0 && ps.len() == xs.len() {
                unify_all(ps, xs, subst);
            }
        },
        (Ty::Array(pe, _), Ty::Array(ae, _)) => unify_typevars(pe, ae, subst),
        (Ty::Vec(pe), Ty::Vec(ae)) => unify_typevars(pe, ae, subst),
        (Ty::Fn { params: ps, ret: pr }, Ty::Fn { params: xs, ret: ar }) => {
            assert(ty_views(ps@).len() == ps.len() && ty_views(xs@).len() == xs.len());
            if ps.len() == xs.len() {
                unify_all(ps, xs, subst);
                unify_typevars(pr, ar, subst);
            }
        },
        _ => {},
    }
}

fn unify_all(ps: &Vec<Ty>, xs: &Vec<Ty>, subst: &mut Table<SymbolId, Ty>)
    requires
        ps.len() <= xs.len(),
    ensures
        ty_map(final(subst)@) == learned_all(ty_views(ps@), ty_views(xs@), ps@.len(), ty_map(old(subst)@)),
    decreases ps,
{
    let ghost m = ty_map(subst@);
    let mut i: usize = 0;
    while i < ps.len()
        invariant
            i <= ps.len() <= xs.len(),
            m == ty_map(old(subst)@),
            ty_map(subst@) == learned_all(ty_views(ps@), ty_views(xs@), i as nat, m),
        decreases ps.len() - i,
    {
        unify_typevars(&ps[i], &xs[i], subst);
        i += 1;
    }
}

/// Type parameters replaced by what was learned.
fn generic_args(generics: Option<&Vec<SymbolId>>, subst: &Table<SymbolId, Ty>) -> (r: Vec<Ty>)
    ensures
        ty_views(r@) == args_learned(
            match generics {
                Some(g) => g@,
                None => seq![],
            },
            ty_map(subst@),
        ),
{
    let mut out: Vec<Ty> = Vec::new();
    match generics {
        Some(generics) => {
            let mut i: usize = 0;
            while i < generics.len()
                invariant
                    i <= generics.len(),
                    out.len() == i,
                    forall|j: int|
                        0 <= j < i ==> ty_view(#[trigger] out[j]) == args_learned(generics@, ty_map(subst@))[j],
                decreases generics.len() - i,
            {
                let g = generics[i];
                match subst.get(&g) {
                    Some(t) => out.push(t.copy()),
                    None => out.push(Ty::TypeVar(g)),
                }
                i += 1;
            }
            assert(ty_views(out@) =~= args_learned(generics@, ty_map(subst@)));
        },
        None => {
            assert(ty_views(out@) =~= args_learned(seq![], ty_map(subst@)));
        },
    }
    out
}

fn vec_element_supported(t: &Ty) -> (r: bool)
    ensures
        r == fits_slot(t@),
{
    match t {
        Ty::Int(_) => true,
        Ty::Bool => true,
        Ty::Char => true,
        Ty::Struct(_, _) => true,
        Ty::Enum(_, _) => true,
        Ty::Vec(_) => true,
        Ty::Dyn(_, _) => true,
        Ty::TypeVar(_) => true,
        Ty::Assoc(_, _) => true,
        Ty::Error => true,
        _ => false,
    }
}

// ---- checking ----

pub struct Checker<'r, 's> {
    res: &'r Resolutions<'s>,
    facts: FactStore,
}

impl<'r, 's> View for Checker<'r, 's> {
    type V = Facts;

    closed spec fn view(&self) -> Facts {
        self.facts@
    }
}

impl<'r, 's> Checker<'r, 's> {
    /// What the names refer to.
    pub closed spec fn res(self) -> Resolutions<'s> {
        *self.res
    }

    fn apply_subst(&self, ty: &Ty, subst: &Table<SymbolId, Ty>, self_ty: Option<&Ty>) -> (r: Ty)
        ensures
            r@ == at(self.res(), self@, ty_map(subst@), opt_ty(self_ty), ty@),
    {
        apply_subst_inner_with(ty, subst, self_ty, self.facts.bindings(), self.res, PROJECTION_DEPTH)
    }

    fn error(&mut self, span: Span, message: String)
        ensures
            final(self)@ == erring(old(self)@, span, message@),
            final(self).res() == old(self).res(),
    {
        self.facts.error(span, message);
    }

    fn resolve_named(&mut self, s: SymbolId, args: Vec<Ty>, span: Span) -> (r: Ty)
        ensures
            (final(self)@, r@) == named_type(old(self).res(), old(self)@, s, ty_views(args@), span),
            final(self).res() == old(self).res(),
    {
        assert(ty_views(args@).len() == args.len());
        let res = self.res;
        match kind_of(res, s) {
            Some(SymbolKind::BuiltinType(t)) => match t {
                Ty::Weak(_) => {
                    if args.len() != 1 {
                        self.error(span, "`Weak` requires exactly one type argument".to_owned());
                        Ty::Error
                    } else {
                        Ty::Weak(Box::new(args[0].copy()))
                    }
                },
                Ty::Vec(_) => {
                    if args.len() != 1 {
                        self.error(span, "`Vec` requires exactly one type argument".to_owned());
                        Ty::Error
                    } else if vec_element_supported(&args[0]) {
                        Ty::Vec(Box::new(args[0].copy()))
                    } else {
                        self.error(
                            span,
                            cat3(
                                "`Vec<",
                                args[0].display().as_str(),
                                ">` is not supported in v0.x — the element type must fit an 8-byte slot (integers, bool, char, structs, enums, trait objects, or a nested Vec; not str, floats, or arrays)",
                            ),
                        );
                        Ty::Error
                    }
                },
                Ty::HashMap(_, _) => {
                    if args.len() == 0 {
                        t.copy()
                    } else if args.len() != 2 {
                        self.error(span, "`HashMap` requires exactly two type arguments".to_owned());
                        Ty::Error
                    } else {
                        Ty::HashMap(Box::new(args[0].copy()), Box::new(args[1].copy()))
                    }
                },
                _ => t.copy(),
            },
            Some(SymbolKind::Struct) => Ty::Struct(s, args),
            Some(SymbolKind::Enum) => Ty::Enum(s, args),
            Some(SymbolKind::TypeParam) => Ty::TypeVar(s),
            _ => {
                let m = cat3("`", name_of(res, s).as_str(), "` is not a type");
                self.error(span, m);
                Ty::Error
            },
        }
    }

    fn resolve_self_type(&mut self, p: &Path, depth: usize) -> (r: Ty)
        requires
            p.segments.len() == 2,
        ensures
            (final(self)@, r@) == self_type(old(self).res(), old(self)@, *p, depth as nat),
            final(self).res() == old(self).res(),
        decreases depth, p, 0nat,
    {
        let res = self.res;
        let name = &p.segments[1].name;
        assert(segment_names(p.segments@)[1] == name@);
        match self.facts.self_context() {
            Some(SelfContext::Impl(s)) => match res.impl_assoc_bindings.get(&(s, name.clone())) {
                Some(rhs) => {
                    if depth == 0 {
                        Ty::Error
                    } else {
                        self.resolve_type_in(rhs, depth - 1)
                    }
                },
                None => {
                    self.error(p.span, cat3("no associated type `", name.as_str(), "` bound by this impl"));
                    Ty::Error
                },
            },
            Some(SelfContext::Trait(t)) => {
                let known = match res.trait_assoc_types.get(&t) {
                    Some(names) => has_text(names, name.as_str()),
                    None => false,
                };
                assert(known == declares(*res, t, name@));
                assert(ty_view(Ty::SelfType) == TyV::SelfType);
                if known {
                    Ty::Assoc(Box::new(Ty::SelfType), name.clone())
                } else {
                    self.error(p.span, cat3("trait declares no associated type `", name.as_str(), "`"));
                    Ty::Error
                }
            },
            None => {
                self.error(p.span, "`Self` is only valid inside a trait or impl".to_owned());
                Ty::Error
            },
        }
    }

    fn resolve_type_path(&mut self, p: &Path, depth: usize) -> (r: Ty)
        ensures
            (final(self)@, r@) == typed_path(old(self).res(), old(self)@, *p, depth as nat),
            final(self).res() == old(self).res(),
        decreases depth, p, 1nat,
    {
        let res = self.res;
        let ghost segs = segment_names(p.segments@);
        let n = p.segments.len();
        if n == 2 {
            assert(segs[0] == p.segments@[0].name@);
            if same_text(p.segments[0].name.as_str(), "Self") {
                let t = self.resolve_self_type(p, depth);
                self.facts.set_type(p.span, t.copy());
                return t;
            }
        }
        if n >= 2 {
            if let Some(base) = res.assoc_proj_bases.get(&p.span) {
                assert(ty_view(Ty::TypeVar(*base)) == TyV::TypeVar(*base));
                let t = Ty::Assoc(Box::new(Ty::TypeVar(*base)), p.segments[1].name.clone());
                self.facts.set_type(p.span, t.copy());
                return t;
            }
        }
        match target(res, p.span) {
            None => Ty::Error,
            Some(s) => {
                let args = self.resolve_types_in(&p.generic_args, depth);
                let t = self.resolve_named(s, args, p.span);
                self.facts.set_type(p.span, t.copy());
                t
            },
        }
    }

    fn resolve_types_in(&mut self, ts: &Vec<Type>, depth: usize) -> (r: Vec<Ty>)
        ensures
            (final(self)@, ty_views(r@)) == all_typed(old(self).res(), old(self)@, ts@, depth as nat, ts@.len()),
            final(self).res() == old(self).res(),
        decreases depth, ts, 0nat,
    {
        let ghost rs = self.res();
        let ghost f0 = self@;
        let mut out: Vec<Ty> = Vec::new();
        assert(ty_views(out@) =~= seq![]);
        let mut i: usize = 0;
        while i < ts.len()
            invariant
                i <= ts.len(),
                rs == old(self).res(),
                self.res() == rs,
                f0 == old(self)@,
                (self@, ty_views(out@)) == all_typed(rs, f0, ts@, depth as nat, i as nat),
            decreases ts.len() - i,
        {
            let ghost before = ty_views(out@);
            let t = self.resolve_type_in(&ts[i], depth);
            out.push(t);
            assert(ty_views(out@) =~= before.push(t@));
            i += 1;
        }
        out
    }

    fn resolve_type_in(&mut self, t: &Type, depth: usize) -> (r: Ty)
        ensures
            (final(self)@, r@) == typed(old(self).res(), old(self)@, *t, depth as nat),
            final(self).res() == old(self).res(),
        decreases depth, t, 1nat,
    {
        let res = self.res;
        match t {
            Type::Path(p) => self.resolve_type_path(p, depth),
            Type::Dyn(p) => match target(res, p.span) {
                None => Ty::Error,
                Some(s) => {
                    if !is_trait(res, s) {
                        let name = name_of(res, s);
                        let m = cat5("`dyn ", name.as_str(), "` — `", name.as_str(), "` is not a trait");
                        self.error(p.span, m);
                        Ty::Error
                    } else {
                        let args = self.resolve_types_in(&p.generic_args, depth);
                        let t = Ty::Dyn(s, args);
                        self.facts.set_type(p.span, t.copy());
                        t
                    }
                },
            },
            Type::Array { elem, len, span } => {
                let e = self.resolve_type_in(elem, depth);
                let t = Ty::Array(Box::new(e), *len);
                self.facts.set_type(*span, t.copy());
                t
            },
            Type::Fn { params, ret, span } => {
                let params = self.resolve_types_in(params, depth);
                let ret = match ret {
                    Some(r) => self.resolve_type_in(r, depth),
                    None => Ty::Unit,
                };
                let t = Ty::Fn { params, ret: Box::new(ret) };
                self.facts.set_type(*span, t.copy());
                t
            },
            Type::Tuple { elems, span } => {
                let _ = self.resolve_types_in(elems, depth);
                self.error(*span, "tuple types are not supported".to_owned());
                Ty::Error
            },
        }
    }

    fn resolve_type(&mut self, t: &Type) -> (r: Ty)
        ensures
            (final(self)@, r@) == type_of(old(self).res(), old(self)@, *t),
            final(self).res() == old(self).res(),
    {
        self.resolve_type_in(t, PROJECTION_DEPTH)
    }

    fn resolve_opt_type(&mut self, t: &Option<Type>) -> (r: Ty)
        ensures
            (final(self)@, r@) == opt_type_of(old(self).res(), old(self)@, *t),
            final(self).res() == old(self).res(),
    {
        match t {
            Some(t) => self.resolve_type(t),
            None => Ty::Unit,
        }
    }

    // ---- declarations ----

    fn build_struct_layout(&mut self, fields: &Vec<Field>) -> (r: StructLayout)
        ensures
            (final(self)@, layout_view(r)) == laid_out(old(self).res(), old(self)@, fields@, fields@.len()),
            final(self).res() == old(self).res(),
    {
        let ghost rs = self.res();
        let ghost f0 = self@;
        let mut out: StructLayout = StructLayout { fields: Vec::new(), size: 0 };
        assert(layout_view(out).fields =~= seq![]);
        let mut i: usize = 0;
        while i < fields.len()
            invariant
                i <= fields.len(),
                rs == old(self).res(),
                self.res() == rs,
                f0 == old(self)@,
                (self@, layout_view(out)) == laid_out(rs, f0, fields@, i as nat),
            decreases fields.len() - i,
        {
            let ty = self.resolve_type(&fields[i].ty);
            add_field(&mut out, fields[i].name.name.clone(), ty);
            i += 1;
        }
        out
    }

    fn collect_struct_layouts(&mut self, items: &Vec<Item>)
        ensures
            final(self)@ == layouts_found(old(self).res(), old(self)@, items@, items@.len()),
            final(self).res() == old(self).res(),
        decreases items, 0nat,
    {
        let ghost rs = self.res();
        let ghost f0 = self@;
        let mut i: usize = 0;
        while i < items.len()
            invariant
                i <= items.len(),
                rs == old(self).res(),
                self.res() == rs,
                f0 == old(self)@,
                self@ == layouts_found(rs, f0, items@, i as nat),
            decreases items.len() - i,
        {
            let item = &items[i];
            assert(decreases_to!(items => item));
            match item {
                Item::Struct(s) => match declared(self.res, s.name.span) {
                    Some(id) => {
                        let l = self.build_struct_layout(&s.fields);
                        self.facts.set_layout(id, l);
                    },
                    None => {},
                },
                Item::Mod(m) => self.collect_struct_layouts(&m.items),
                _ => {},
            }
            i += 1;
        }
    }

    fn resolve_param_types(&mut self, ps: &Vec<Param>) -> (r: Vec<Ty>)
        ensures
            (final(self)@, ty_views(r@)) == param_types(old(self).res(), old(self)@, ps@, ps@.len()),
            final(self).res() == old(self).res(),
    {
        let ghost rs = self.res();
        let ghost f0 = self@;
        let mut out: Vec<Ty> = Vec::new();
        assert(ty_views(out@) =~= seq![]);
        let mut i: usize = 0;
        while i < ps.len()
            invariant
                i <= ps.len(),
                rs == old(self).res(),
                self.res() == rs,
                f0 == old(self)@,
                (self@, ty_views(out@)) == param_types(rs, f0, ps@, i as nat),
            decreases ps.len() - i,
        {
            let ghost before = ty_views(out@);
            let t = self.resolve_type(&ps[i].ty);
            out.push(t);
            assert(ty_views(out@) =~= before.push(t@));
            i += 1;
        }
        out
    }

    fn fn_signature(&mut self, d: &FnDecl) -> (r: Ty)
        ensures
            (final(self)@, r@) == signature_of(old(self).res(), old(self)@, *d),
            final(self).res() == old(self).res(),
    {
        let params = self.resolve_param_types(&d.params);
        let ret = self.resolve_opt_type(&d.return_type);
        Ty::Fn { params, ret: Box::new(ret) }
    }

    fn register_fn(&mut self, d: &FnDecl)
        ensures
            final(self)@ == with_fn(old(self).res(), old(self)@, *d),
            final(self).res() == old(self).res(),
    {
        let t = self.fn_signature(d);
        self.facts.set_signature(d.name.span, t);
    }

    fn register_fns(&mut self, ds: &Vec<FnDecl>)
        ensures
            final(self)@ == with_fns(old(self).res(), old(self)@, ds@, ds@.len()),
            final(self).res() == old(self).res(),
    {
        let ghost rs = self.res();
        let ghost f0 = self@;
        let mut i: usize = 0;
        while i < ds.len()
            invariant
                i <= ds.len(),
                rs == old(self).res(),
                self.res() == rs,
                f0 == old(self)@,
                self@ == with_fns(rs, f0, ds@, i as nat),
            decreases ds.len() - i,
        {
            self.register_fn(&ds[i]);
            i += 1;
        }
    }

    fn impl_variables(&mut self, args: &Vec<Type>, params: &Vec<SymbolId>) -> (r: Table<SymbolId, Ty>)
        ensures
            (final(self)@, ty_map(r@)) == impl_vars(old(self).res(), old(self)@, args@, params@, least(args@.len(), params@.len())),
            final(self).res() == old(self).res(),
    {
        let ghost rs = self.res();
        let ghost f0 = self@;
        let mut out = no_subst();
        let mut i: usize = 0;
        while i < args.len() && i < params.len()
            invariant
                i <= args.len(),
                i <= params.len(),
                rs == old(self).res(),
                self.res() == rs,
                f0 == old(self)@,
                (self@, ty_map(out@)) == impl_vars(rs, f0, args@, params@, i as nat),
            decreases args.len() - i,
        {
            let t = self.resolve_type(&args[i]);
            match t {
                Ty::TypeVar(v) => {
                    let ghost before = ty_map(out@);
                    out.insert(v, Ty::TypeVar(params[i]));
                    assert(ty_map(out@) =~= before.insert(v, TyV::TypeVar(params@[i as int])));
                },
                _ => {},
            }
            i += 1;
        }
        out
    }

    fn register_bindings(&mut self, s: SymbolId, m: &Table<SymbolId, Ty>, bs: &Vec<AssocTypeBinding>)
        ensures
            final(self)@ == bindings_found(old(self).res(), old(self)@, s, ty_map(m@), bs@, bs@.len()),
            final(self).res() == old(self).res(),
    {
        let ghost rs = self.res();
        let ghost f0 = self@;
        let mut i: usize = 0;
        while i < bs.len()
            invariant
                i <= bs.len(),
                rs == old(self).res(),
                self.res() == rs,
                f0 == old(self)@,
                self@ == bindings_found(rs, f0, s, ty_map(m@), bs@, i as nat),
            decreases bs.len() - i,
        {
            let raw = self.resolve_type(&bs[i].value);
            let t = self.apply_subst(&raw, m, None);
            self.facts.set_binding(s, bs[i].name.name.clone(), t);
            i += 1;
        }
    }

    fn register_impl(&mut self, b: &ImplBlock)
        ensures
            final(self)@ == impl_registered(old(self).res(), old(self)@, *b),
            final(self).res() == old(self).res(),
    {
        let res = self.res;
        let before = self.facts.self_context();
        match target(res, b.type_path.span) {
            Some(s) => {
                self.facts.set_self(Some(SelfContext::Impl(s)));
                let none: Vec<SymbolId> = Vec::new();
                let params = match res.struct_generics.get(&s) {
                    Some(ps) => ps,
                    None => &none,
                };
                assert(params@ =~= view_or(res.struct_generics@, s, seq![]));
                let m = self.impl_variables(&b.type_path.generic_args, params);
                self.register_bindings(s, &m, &b.assoc_types);
            },
            None => self.facts.set_self(None),
        }
        self.register_fns(&b.methods);
        self.facts.set_self(before);
    }

    fn register_sigs(&mut self, ms: &Vec<TraitMethodSig>)
        ensures
            final(self)@ == sigs_registered(old(self).res(), old(self)@, ms@, ms@.len()),
            final(self).res() == old(self).res(),
    {
        let ghost rs = self.res();
        let ghost f0 = self@;
        let mut i: usize = 0;
        while i < ms.len()
            invariant
                i <= ms.len(),
                rs == old(self).res(),
                self.res() == rs,
                f0 == old(self)@,
                self@ == sigs_registered(rs, f0, ms@, i as nat),
            decreases ms.len() - i,
        {
            let params = self.resolve_param_types(&ms[i].params);
            let ret = self.resolve_opt_type(&ms[i].return_type);
            if ms[i].body.is_some() {
                let t = Ty::Fn { params, ret: Box::new(ret) };
                assert(t@ == TyV::Fn { params: ty_views(params@), ret: Box::new(ret@) });
                self.facts.set_signature(ms[i].name.span, t);
            }
            i += 1;
        }
    }

    fn register_trait(&mut self, t: &TraitDecl)
        ensures
            final(self)@ == trait_registered(old(self).res(), old(self)@, *t),
            final(self).res() == old(self).res(),
    {
        let before = self.facts.self_context();
        let inside = match declared(self.res, t.name.span) {
            Some(s) => Some(SelfContext::Trait(s)),
            None => None,
        };
        self.facts.set_self(inside);
        self.register_sigs(&t.methods);
        self.facts.set_self(before);
    }

    fn register_const(&mut self, c: &ConstDecl)
        ensures
            final(self)@ == const_registered(old(self).res(), old(self)@, *c),
            final(self).res() == old(self).res(),
    {
        let t = self.resolve_type(&c.ty);
        self.facts.set_local(c.name.span, t);
    }

    fn register_signatures(&mut self, items: &Vec<Item>)
        ensures
            final(self)@ == registered(old(self).res(), old(self)@, items@, items@.len()),
            final(self).res() == old(self).res(),
        decreases items, 0nat,
    {
        let ghost rs = self.res();
        let ghost f0 = self@;
        let mut i: usize = 0;
        while i < items.len()
            invariant
                i <= items.len(),
                rs == old(self).res(),
                self.res() == rs,
                f0 == old(self)@,
                self@ == registered(rs, f0, items@, i as nat),
            decreases items.len() - i,
        {
            let item = &items[i];
            assert(decreases_to!(items => item));
            match item {
                Item::Fn(d) => self.register_fn(d),
                Item::Const(c) => self.register_const(c),
                Item::Impl(b) => self.register_impl(b),
                Item::Trait(t) => self.register_trait(t),
                Item::Mod(m) => self.register_signatures(&m.items),
                _ => {},
            }
            i += 1;
        }
    }

    // ---- conformance ----

    fn check_methods_conform(&mut self, b: &ImplBlock, sigs: &Vec<TraitMethodSig>)
        ensures
            final(self)@ == methods_conform(old(self).res(), old(self)@, *b, sigs@, sigs@.len()),
            final(self).res() == old(self).res(),
    {
        let ghost rs = self.res();
        let ghost f0 = self@;
        let mut i: usize = 0;
        while i < sigs.len()
            invariant
                i <= sigs.len(),
                rs == old(self).res(),
                self.res() == rs,
                f0 == old(self)@,
                self@ == methods_conform(rs, f0, *b, sigs@, i as nat),
            decreases sigs.len() - i,
        {
            let sig = &sigs[i];
            match find_fn(&b.methods, sig.name.name.as_str()) {
                None => {
                    if sig.body.is_none() {
                        self.error(
                            b.span,
                            cat3(
                                "impl is missing method `",
                                sig.name.name.as_str(),
                                "` required by the trait",
                            ),
                        );
                    }
                },
                Some(j) => {
                    let m = &b.methods[j];
                    if m.params.len() != sig.params.len() {
                        self.error(
                            m.name.span,
                            cat6(
                                "method `",
                                sig.name.name.as_str(),
                                "` has ",
                                number(m.params.len()).as_str(),
                                " parameter(s) but the trait declares ",
                                number(sig.params.len()).as_str(),
                            ),
                        );
                    }
                },
            }
            i += 1;
        }
    }

    fn check_supers_conform(&mut self, s: SymbolId, t: SymbolId, span: Span, supers: &Vec<SymbolId>)
        ensures
            final(self)@ == supers_conform(old(self).res(), old(self)@, s, t, span, supers@, supers@.len()),
            final(self).res() == old(self).res(),
    {
        let res = self.res;
        let ghost rs = self.res();
        let ghost f0 = self@;
        let mut i: usize = 0;
        while i < supers.len()
            invariant
                i <= supers.len(),
                rs == old(self).res(),
                self.res() == rs,
                f0 == old(self)@,
                self@ == supers_conform(rs, f0, s, t, span, supers@, i as nat),
                *res == rs,
            decreases supers.len() - i,
        {
            if !implements_trait(res, s, supers[i]) {
                let m = cat7(
                    "trait `",
                    name_of(res, t).as_str(),
                    "` requires supertrait `",
                    name_of(res, supers[i]).as_str(),
                    "` to be implemented for `",
                    name_of(res, s).as_str(),
                    "`",
                );
                self.error(span, m);
            }
            i += 1;
        }
    }

    fn check_assoc_conform(&mut self, s: SymbolId, span: Span, names: &Vec<String>)
        ensures
            final(self)@ == assoc_conform(old(self).res(), old(self)@, s, span, texts(names@), names@.len()),
            final(self).res() == old(self).res(),
    {
        let res = self.res;
        let ghost rs = self.res();
        let ghost f0 = self@;
        let mut i: usize = 0;
        while i < names.len()
            invariant
                i <= names.len(),
                rs == old(self).res(),
                self.res() == rs,
                f0 == old(self)@,
                self@ == assoc_conform(rs, f0, s, span, texts(names@), i as nat),
                *res == rs,
            decreases names.len() - i,
        {
            if !res.impl_assoc_bindings.contains(&(s, names[i].clone())) {
                self.error(
                    span,
                    cat3("impl is missing associated type `", names[i].as_str(), "` required by the trait"),
                );
            }
            i += 1;
        }
    }

    fn check_bindings_conform(&mut self, names: &Vec<String>, bs: &Vec<AssocTypeBinding>)
        ensures
            final(self)@ == bindings_conform(old(self)@, texts(names@), bs@, bs@.len()),
            final(self).res() == old(self).res(),
    {
        let ghost rs = self.res();
        let ghost f0 = self@;
        let mut i: usize = 0;
        while i < bs.len()
            invariant
                i <= bs.len(),
                rs == old(self).res(),
                self.res() == rs,
                f0 == old(self)@,
                self@ == bindings_conform(f0, texts(names@), bs@, i as nat),
            decreases bs.len() - i,
        {
            let b = &bs[i];
            let name = b.name.name.as_str();
            if !has_text(names, name) {
                self.error(b.span, cat3("trait declares no associated type `", name, "`"));
            }
            if binding_before(bs, name, i) {
                self.error(b.span, cat3("associated type `", name, "` already bound in this impl"));
            }
            i += 1;
        }
    }

    fn check_trait_impl_conformance(&mut self, b: &ImplBlock)
        ensures
            final(self)@ == conforms(old(self).res(), old(self)@, *b),
            final(self).res() == old(self).res(),
    {
        let res = self.res;
        let t = match &b.trait_path {
            Some(p) => target(res, p.span),
            None => None,
        };
        match t {
            None => {},
            Some(t) => match res.trait_methods.get(&t) {
                None => {},
                Some(sigs) => {
                    self.check_methods_conform(b, *sigs);
                    match target(res, b.type_path.span) {
                        None => {},
                        Some(s) => {
                            let from: Vec<SymbolId> = match res.trait_supertraits.get(&t) {
                                Some(ts) => copy_syms(ts),
                                None => Vec::new(),
                            };
                            assert(from@ =~= supers_of(*res, t));
                            let supers = visit(&res.trait_supertraits, from);
                            self.check_supers_conform(s, t, b.span, &supers);
                            let none: Vec<String> = Vec::new();
                            let names = match res.trait_assoc_types.get(&t) {
                                Some(ns) => ns,
                                None => &none,
                            };
                            assert(texts(names@) =~= assoc_of(*res, t));
                            assert(texts(names@).len() == names@.len());
                            self.check_assoc_conform(s, b.span, names);
                            self.check_bindings_conform(names, &b.assoc_types);
                        },
                    }
                },
            },
        }
    }
}

/// Adds a field at the end of a layout.
fn add_field(l: &mut StructLayout, name: String, ty: Ty)
    ensures
        layout_view(*final(l)) == (LayoutV {
            fields: layout_view(*old(l)).fields.push((name@, ty@, old(l).size)),
            size: next_offset(old(l).size),
        }),
{
    let offset = l.size;
    let ghost before = layout_view(*l).fields;
    l.fields.push(StructLayoutField { name, ty, offset });
    l.size = offset.wrapping_add(8);
    assert(layout_view(*l).fields =~= before.push((name@, ty@, offset)));
}

/// The first method with a name.
fn find_fn(ms: &Vec<FnDecl>, name: &str) -> (r: Option<usize>)
    ensures
        match r {
            Some(i) => i < ms.len() && first_where(fn_named(ms@, name@), ms@.len()) == Some(i as int),
            None => first_where(fn_named(ms@, name@), ms@.len()) is None,
        },
{
    let ghost p = fn_named(ms@, name@);
    let mut i: usize = 0;
    while i < ms.len()
        invariant
            i <= ms.len(),
            p == fn_named(ms@, name@),
            first_where(p, i as nat) is None,
        decreases ms.len() - i,
    {
        if same_text(ms[i].name.name.as_str(), name) {
            proof {
                assert(p(i as int));
                assert(first_where(p, (i + 1) as nat) == Some(i as int));
                found_stays(p, (i + 1) as nat, ms@.len());
            }
            return Some(i);
        }
        assert(!p(i as int));
        i += 1;
    }
    None
}

/// Whether a name is bound among the first `n` bindings.
fn binding_before(bs: &Vec<AssocTypeBinding>, name: &str, n: usize) -> (r: bool)
    requires
        n <= bs.len(),
    ensures
        r == bound_before(bs@, name@, n as nat),
{
    let ghost p = binding_named(bs@, name@);
    let mut i: usize = 0;
    while i < n
        invariant
            i <= n <= bs.len(),
            p == binding_named(bs@, name@),
            first_where(p, i as nat) is None,
        decreases n - i,
    {
        if same_text(bs[i].name.name.as_str(), name) {
            proof {
                assert(p(i as int));
                assert(first_where(p, (i + 1) as nat) == Some(i as int));
                found_stays(p, (i + 1) as nat, n as nat);
            }
            return true;
        }
        assert(!p(i as int));
        i += 1;
    }
    false
}

/// Whether a struct has an impl of a trait.
fn implements_trait(res: &Resolutions<'_>, s: SymbolId, t: SymbolId) -> (r: bool)
    ensures
        r == implements(*res, s, t),
{
    match res.impls_for.get(&s) {
        Some(ts) => contains_sym(ts, t),
        None => false,
    }
}

impl<'r, 's> Checker<'r, 's> {
    // ---- patterns ----

    fn cover_variant(&mut self, d: Option<u32>, span: Span, c: &mut Cover)
        ensures
            (final(self)@, cover_view(*final(c))) == variant_covered(old(self)@, cover_view(*old(c)), d, span),
            final(self).res() == old(self).res(),
    {
        match d {
            None => {},
            Some(d) => {
                if contains_u32(&c.variants, d) {
                    self.error(span, "unreachable arm — this variant was already covered".to_owned());
                } else {
                    c.variants.push(d);
                }
            },
        }
    }

    fn cover_lit(&mut self, lit: &Lit, span: Span, c: &mut Cover)
        ensures
            (final(self)@, cover_view(*final(c))) == lit_covered(old(self)@, cover_view(*old(c)), *lit, span),
            final(self).res() == old(self).res(),
    {
        match lit {
            Lit::Bool(b) => {
                if contains_bool(&c.bools, *b) {
                    let text = if *b {
                        "true"
                    } else {
                        "false"
                    };
                    self.error(span, already_covered(text));
                } else {
                    c.bools.push(*b);
                }
            },
            Lit::Int(v, _) => {
                if contains_i64(&c.ints, *v) {
                    self.error(span, already_covered(signed(*v).as_str()));
                } else {
                    c.ints.push(*v);
                }
            },
            Lit::Str(s) => {
                if has_text(&c.strs, s.as_str()) {
                    self.error(span, already_covered(cat3("\"", s.as_str(), "\"").as_str()));
                } else {
                    let ghost before = texts(c.strs@);
                    c.strs.push(s.clone());
                    assert(texts(c.strs@) =~= before.push(s@));
                }
            },
            _ => {},
        }
    }

    fn cover_pattern(&mut self, p: &Pattern, c: &mut Cover)
        ensures
            (final(self)@, cover_view(*final(c))) == pattern_covered(old(self).res(), old(self)@, cover_view(*old(c)), *p),
            final(self).res() == old(self).res(),
        decreases p, 1nat,
    {
        match p {
            Pattern::Wildcard(_) => {
                c.all = true;
            },
            Pattern::Ident { .. } => {
                c.all = true;
            },
            Pattern::Literal { lit, span } => self.cover_lit(lit, *span, c),
            Pattern::Path { path, span } => {
                let d = discriminant_at(self.res, path);
                self.cover_variant(d, *span, c);
            },
            Pattern::TupleVariant { path, span, .. } => {
                let d = discriminant_at(self.res, path);
                self.cover_variant(d, *span, c);
            },
            Pattern::NamedVariant { path, span, .. } => {
                let d = discriminant_at(self.res, path);
                self.cover_variant(d, *span, c);
            },
            Pattern::Or { patterns, .. } => self.cover_patterns(patterns, c),
            Pattern::Range { .. } => {},
            Pattern::Tuple { .. } => {},
        }
    }

    fn cover_patterns(&mut self, ps: &Vec<Pattern>, c: &mut Cover)
        ensures
            (final(self)@, cover_view(*final(c))) == patterns_covered(old(self).res(), old(self)@, cover_view(*old(c)), ps@, ps@.len()),
            final(self).res() == old(self).res(),
        decreases ps, 0nat,
    {
        let ghost rs = self.res();
        let ghost f0 = self@;
        let ghost c0 = cover_view(*c);
        let mut i: usize = 0;
        while i < ps.len()
            invariant
                i <= ps.len(),
                rs == old(self).res(),
                self.res() == rs,
                f0 == old(self)@,
                (self@, cover_view(*c)) == patterns_covered(rs, f0, c0, ps@, i as nat),
                c0 == cover_view(*old(c)),
            decreases ps.len() - i,
        {
            self.cover_pattern(&ps[i], c);
            i += 1;
        }
    }

    fn cover_arms(&mut self, arms: &Vec<MatchArm>) -> (r: Cover)
        ensures
            (final(self)@, cover_view(r)) == arms_covered(old(self).res(), old(self)@, arms@, arms@.len()),
            final(self).res() == old(self).res(),
    {
        let ghost rs = self.res();
        let ghost f0 = self@;
        let mut c = Cover {
            all: false,
            bools: Vec::new(),
            variants: Vec::new(),
            ints: Vec::new(),
            strs: Vec::new(),
        };
        assert(texts(c.strs@) =~= seq![]);
        assert(c.bools@ =~= seq![] && c.variants@ =~= seq![] && c.ints@ =~= seq![]);
        let mut i: usize = 0;
        while i < arms.len()
            invariant
                i <= arms.len(),
                rs == old(self).res(),
                self.res() == rs,
                f0 == old(self)@,
                (self@, cover_view(c)) == arms_covered(rs, f0, arms@, i as nat),
            decreases arms.len() - i,
        {
            let arm = &arms[i];
            if c.all {
                self.error(
                    arm.pat.span(),
                    "unreachable match arm — an earlier arm covers everything".to_owned(),
                );
            } else if arm.guard.is_none() {
                self.cover_pattern(&arm.pat, &mut c);
            }
            i += 1;
        }
        c
    }

    fn check_match_exhaustiveness(&mut self, t: &Ty, arms: &Vec<MatchArm>, span: Span)
        ensures
            final(self)@ == exhausts(old(self).res(), old(self)@, t@, arms@, span),
            final(self).res() == old(self).res(),
    {
        if t.is_error() {
            return ;
        }
        let res = self.res;
        let c = self.cover_arms(arms);
        if c.all {
            return ;
        }
        match t {
            Ty::Bool => {
                let missing = bools_missing(&c);
                assert(texts(missing@).len() == missing@.len());
                if missing.len() > 0 {
                    self.error(
                        span,
                        cat2(
                            "non-exhaustive `match` on `bool`: missing arms for ",
                            join(&missing, ", ").as_str(),
                        ),
                    );
                }
            },
            Ty::Enum(e, _) => match res.enum_variants.get(e) {
                None => {},
                Some(variants) => {
                    let missing = variants_missing(res, &c, variants);
                    assert(texts(missing@).len() == missing@.len());
                    if missing.len() > 0 {
                        let m = cat4(
                            "non-exhaustive `match` on enum `",
                            name_of(res, *e).as_str(),
                            "`: missing arms for ",
                            join(&missing, ", ").as_str(),
                        );
                        self.error(span, m);
                    }
                },
            },
            _ => {
                self.error(
                    span,
                    cat3(
                        "non-exhaustive `match` on `",
                        t.display().as_str(),
                        "`: add a `_` arm to catch the rest",
                    ),
                );
            },
        }
    }

    fn check_range_pattern(&mut self, lo: &Lit, hi: &Lit, inclusive: bool, span: Span, t: &Ty)
        ensures
            final(self)@ == range_fits(old(self)@, *lo, *hi, inclusive, span, t@),
            final(self).res() == old(self).res(),
    {
        match (lo, hi) {
            (Lit::Int(a, _), Lit::Int(b, _)) => {
                if !t.is_error() && !t.is_integer() {
                    self.error(
                        span,
                        cat3(
                            "range pattern with integer bounds doesn't match scrutinee type `",
                            t.display().as_str(),
                            "`",
                        ),
                    );
                } else {
                    self.check_range_bounds(*a, *b, inclusive, span);
                }
            },
            (Lit::Char(a), Lit::Char(b)) => {
                let fits_char = match t {
                    Ty::Error => true,
                    Ty::Char => true,
                    _ => false,
                };
                if !fits_char {
                    self.error(
                        span,
                        cat3(
                            "range pattern with char bounds doesn't match scrutinee type `",
                            t.display().as_str(),
                            "`",
                        ),
                    );
                } else {
                    self.check_range_bounds(*a as i64, *b as i64, inclusive, span);
                }
            },
            _ => {
                self.error(span, "range pattern bounds must be two integers or two chars".to_owned());
            },
        }
    }

    fn check_range_bounds(&mut self, lo: i64, hi: i64, inclusive: bool, span: Span)
        ensures
            final(self)@ == range_not_empty(old(self)@, lo as int, hi as int, inclusive, span),
            final(self).res() == old(self).res(),
    {
        if inclusive {
            if lo > hi {
                self.error(
                    span,
                    cat5(
                        "range pattern `",
                        signed(lo).as_str(),
                        "..=",
                        signed(hi).as_str(),
                        "` is empty (lo must be <= hi)",
                    ),
                );
            }
        } else if lo >= hi {
            self.error(
                span,
                cat5(
                    "range pattern `",
                    signed(lo).as_str(),
                    "..",
                    signed(hi).as_str(),
                    "` is empty (lo must be < hi)",
                ),
            );
        }
    }

    fn resolve_payloads(&mut self, v: SymbolId) -> (r: Vec<Ty>)
        ensures
            (final(self)@, ty_views(r@)) == variant_types(old(self).res(), old(self)@, v),
            final(self).res() == old(self).res(),
    {
        let res = self.res;
        let ghost rs = self.res();
        let ghost f0 = self@;
        let none: Vec<&Type> = Vec::new();
        let ts = match res.enum_variant_payloads.get(&v) {
            Some(ts) => ts,
            None => &none,
        };
        let ghost ps = payloads(rs, v);
        assert(types_of(ts@) =~= ps);
        let mut out: Vec<Ty> = Vec::new();
        assert(ty_views(out@) =~= seq![]);
        let mut i: usize = 0;
        while i < ts.len()
            invariant
                i <= ts.len(),
                rs == old(self).res(),
                self.res() == rs,
                f0 == old(self)@,
                (self@, ty_views(out@)) == all_typed(rs, f0, ps, full_depth(), i as nat),
                types_of(ts@) == ps,
                ps.len() == ts@.len(),
            decreases ts.len() - i,
        {
            let ghost before = ty_views(out@);
            assert(ps[i as int] == *ts@[i as int]);
            let t = self.resolve_type(ts[i]);
            out.push(t);
            assert(ty_views(out@) =~= before.push(t@));
            i += 1;
        }
        out
    }

    fn payloads_from(&mut self, v: SymbolId, t: &Ty) -> (r: Vec<Ty>)
        ensures
            (final(self)@, ty_views(r@)) == payloads_at(old(self).res(), old(self)@, payloads(old(self).res(), v), enum_args(old(self).res(), t@), payloads(old(self).res(), v).len()),
            final(self).res() == old(self).res(),
    {
        let res = self.res;
        let ghost rs = self.res();
        let ghost f0 = self@;
        let none: Vec<&Type> = Vec::new();
        let ts = match res.enum_variant_payloads.get(&v) {
            Some(ts) => ts,
            None => &none,
        };
        let ghost ps = payloads(rs, v);
        assert(types_of(ts@) =~= ps);
        let subst = build_enum_subst(res, t);
        let unbound = no_bindings();
        let ghost m = enum_args(rs, t@);
        let mut out: Vec<Ty> = Vec::new();
        assert(ty_views(out@) =~= seq![]);
        let mut i: usize = 0;
        while i < ts.len()
            invariant
                i <= ts.len(),
                rs == old(self).res(),
                self.res() == rs,
                f0 == old(self)@,
                (self@, ty_views(out@)) == payloads_at(rs, f0, ps, m, i as nat),
                types_of(ts@) == ps,
                ps.len() == ts@.len(),
                *res == rs,
                ty_map(subst@) == m,
                assoc_maps(unbound@) == Map::<(SymbolId, Seq<char>), TyV>::empty(),
            decreases ts.len() - i,
        {
            let ghost before = ty_views(out@);
            assert(ps[i as int] == *ts@[i as int]);
            let raw = self.resolve_type(ts[i]);
            let t = apply_subst_inner_with(&raw, &subst, None, &unbound, res, PROJECTION_DEPTH);
            out.push(t);
            assert(ty_views(out@) =~= before.push(t@));
            i += 1;
        }
        out
    }

    fn check_pattern_matches(&mut self, p: &Pattern, t: &Ty)
        ensures
            final(self)@ == fits(old(self).res(), old(self)@, *p, t@),
            final(self).res() == old(self).res(),
        decreases p, 1nat,
    {
        match p {
            Pattern::Wildcard(_) => {},
            Pattern::Ident { .. } => {},
            Pattern::Literal { lit, span } => {
                let lt = lit_type(lit);
                if !t.is_error() && !lt.compatible(t) {
                    self.error(
                        *span,
                        cat5(
                            "pattern type `",
                            lt.display().as_str(),
                            "` doesn't match scrutinee type `",
                            t.display().as_str(),
                            "`",
                        ),
                    );
                }
            },
            Pattern::Path { path, span } => {
                let res = self.res;
                match target(res, path.span) {
                    None => {},
                    Some(v) => match variant_of(res, v) {
                        Some((e, _)) => {
                            let _ = self.check_enum(e, t, *span);
                        },
                        None => self.error(*span, "pattern path must resolve to an enum variant".to_owned()),
                    },
                }
            },
            Pattern::Range { lo, hi, inclusive, span } => self.check_range_pattern(lo, hi, *inclusive, *span, t),
            Pattern::TupleVariant { .. } => self.check_tuple_variant_pattern(p, t),
            Pattern::NamedVariant { .. } => self.check_named_variant_pattern(p, t),
            Pattern::Or { patterns, span } => self.check_alternatives(patterns, t, *span),
            Pattern::Tuple { span, .. } => self.error(*span, "tuple patterns are not supported".to_owned()),
        }
    }

    /// Whether a type may be matched against an enum's variants.
    fn check_enum(&mut self, e: SymbolId, t: &Ty, span: Span) -> (r: bool)
        ensures
            r == !clashes(e, t@),
            final(self)@ == (if clashes(e, t@) {
                erring(old(self)@, span, wrong_enum(e, t@))
            } else {
                old(self)@
            }),
            final(self).res() == old(self).res(),
    {
        let args: Vec<Ty> = Vec::new();
        assert(ty_views(args@) =~= seq![]);
        let enum_ty = Ty::Enum(e, args);
        if !t.is_error() && !enum_ty.compatible(t) {
            self.error(
                span,
                cat5(
                    "pattern matches `",
                    enum_ty.display().as_str(),
                    "` but scrutinee is `",
                    t.display().as_str(),
                    "`",
                ),
            );
            false
        } else {
            true
        }
    }

    fn check_tuple_variant_pattern(&mut self, p: &Pattern, t: &Ty)
        requires
            p is TupleVariant,
        ensures
            final(self)@ == fits(old(self).res(), old(self)@, *p, t@),
            final(self).res() == old(self).res(),
        decreases p, 0nat,
    {
        let res = self.res;
        match p {
            Pattern::TupleVariant { path, fields, span } => match target(res, path.span) {
                None => {},
                Some(v) => match variant_of(res, v) {
                    None => self.error(*span, "tuple-variant pattern path is not an enum variant".to_owned()),
                    Some((e, _)) => {
                        if self.check_enum(e, t, *span) {
                            let ts = self.resolve_payloads(v);
                            assert(ty_views(ts@).len() == ts.len());
                            if ts.len() == 0 {
                                let m = cat3(
                                    "variant `",
                                    name_of(res, v).as_str(),
                                    "` has no payload — drop the parentheses",
                                );
                                self.error(*span, m);
                            } else if ts.len() != fields.len() {
                                let m = payload_count(res, v, ts.len(), fields.len());
                                self.error(*span, m);
                            } else {
                                self.check_patterns(fields, &ts);
                            }
                        }
                    },
                },
            },
            _ => {},
        }
    }

    fn check_named_variant_pattern(&mut self, p: &Pattern, t: &Ty)
        requires
            p is NamedVariant,
        ensures
            final(self)@ == fits(old(self).res(), old(self)@, *p, t@),
            final(self).res() == old(self).res(),
        decreases p, 0nat,
    {
        let res = self.res;
        match p {
            Pattern::NamedVariant { path, fields, span } => match target(res, path.span) {
                None => {},
                Some(v) => match variant_of(res, v) {
                    None => self.error(*span, "named-variant pattern path is not an enum variant".to_owned()),
                    Some((e, _)) => {
                        if self.check_enum(e, t, *span) {
                            match res.enum_variant_field_names.get(&v) {
                                None => {
                                    let m = cat3(
                                        "variant `",
                                        name_of(res, v).as_str(),
                                        "` is not a struct-style variant",
                                    );
                                    self.error(*span, m);
                                },
                                Some(names) => {
                                    assert(texts(names@).len() == names@.len());
                                    let ts = self.resolve_payloads(v);
                                    self.check_pattern_fields(v, fields, names, &ts);
                                    self.check_missing_in_pattern(v, fields, names, *span);
                                },
                            }
                        }
                    },
                },
            },
            _ => {},
        }
    }

    fn check_patterns(&mut self, ps: &Vec<Pattern>, ts: &Vec<Ty>)
        requires
            ps.len() == ts.len(),
        ensures
            final(self)@ == all_fit(old(self).res(), old(self)@, ps@, ty_views(ts@), ps@.len()),
            final(self).res() == old(self).res(),
        decreases ps, 0nat,
    {
        let ghost rs = self.res();
        let ghost f0 = self@;
        let mut i: usize = 0;
        while i < ps.len()
            invariant
                i <= ps.len(),
                rs == old(self).res(),
                self.res() == rs,
                f0 == old(self)@,
                self@ == all_fit(rs, f0, ps@, ty_views(ts@), i as nat),
                ps.len() == ts.len(),
                ty_views(ts@).len() == ts.len(),
            decreases ps.len() - i,
        {
            self.check_pattern_matches(&ps[i], &ts[i]);
            i += 1;
        }
    }

    fn check_alternatives(&mut self, ps: &Vec<Pattern>, t: &Ty, span: Span)
        ensures
            final(self)@ == alternatives_fit(old(self).res(), old(self)@, ps@, t@, span, ps@.len()),
            final(self).res() == old(self).res(),
        decreases ps, 0nat,
    {
        let ghost rs = self.res();
        let ghost f0 = self@;
        let mut i: usize = 0;
        while i < ps.len()
            invariant
                i <= ps.len(),
                rs == old(self).res(),
                self.res() == rs,
                f0 == old(self)@,
                self@ == alternatives_fit(rs, f0, ps@, t@, span, i as nat),
            decreases ps.len() - i,
        {
            match &ps[i] {
                Pattern::Ident { name, .. } => self.error(
                    span,
                    cat3(
                        "or-pattern can't contain a binding (`",
                        name.name.as_str(),
                        "`); alternatives can only be `_`, literals, or enum variants",
                    ),
                ),
                _ => {},
            }
            self.check_pattern_matches(&ps[i], t);
            i += 1;
        }
    }

    fn check_pattern_fields(&mut self, v: SymbolId, fs: &Vec<(Ident, Pattern)>, names: &Vec<String>, ts: &Vec<Ty>)
        ensures
            final(self)@ == fields_fit(old(self).res(), old(self)@, v, fs@, texts(names@), ty_views(ts@), fs@.len()),
            final(self).res() == old(self).res(),
        decreases fs, 0nat,
    {
        let res = self.res;
        let ghost rs = self.res();
        let ghost f0 = self@;
        let mut i: usize = 0;
        while i < fs.len()
            invariant
                i <= fs.len(),
                rs == old(self).res(),
                self.res() == rs,
                f0 == old(self)@,
                self@ == fields_fit(rs, f0, v, fs@, texts(names@), ty_views(ts@), i as nat),
                *res == rs,
            decreases fs.len() - i,
        {
            let field = &fs[i];
            let name = field.0.name.as_str();
            assert(fs@[i as int].0.name@ == name@);
            assert(decreases_to!(fs => field));
            assert(decreases_to!(field => field.1));
            if pattern_field_before(fs, name, i) {
                self.error(field.0.span, cat3("duplicate field `", name, "` in pattern"));
            } else {
                match position_of(names, name) {
                    None => {
                        let m = cat5("no field `", name, "` on variant `", name_of(res, v).as_str(), "`");
                        self.error(field.0.span, m);
                    },
                    Some(j) => {
                        assert(ty_views(ts@).len() == ts.len());
                        if j < ts.len() {
                            self.check_pattern_matches(&field.1, &ts[j]);
                        } else {
                            self.check_pattern_matches(&field.1, &Ty::Error);
                        }
                    },
                }
            }
            i += 1;
        }
    }

    fn check_missing_in_pattern(&mut self, v: SymbolId, fs: &Vec<(Ident, Pattern)>, names: &Vec<String>, span: Span)
        ensures
            final(self)@ == missing_in_pattern(old(self).res(), old(self)@, v, fs@, texts(names@), span, names@.len()),
            final(self).res() == old(self).res(),
    {
        let res = self.res;
        let ghost rs = self.res();
        let ghost f0 = self@;
        let mut i: usize = 0;
        while i < names.len()
            invariant
                i <= names.len(),
                rs == old(self).res(),
                self.res() == rs,
                f0 == old(self)@,
                self@ == missing_in_pattern(rs, f0, v, fs@, texts(names@), span, i as nat),
                *res == rs,
            decreases names.len() - i,
        {
            if !pattern_field_before(fs, names[i].as_str(), fs.len()) {
                let m = cat5(
                    "missing field `",
                    names[i].as_str(),
                    "` in pattern for variant `",
                    name_of(res, v).as_str(),
                    "`",
                );
                self.error(span, m);
            }
            i += 1;
        }
    }

    fn bind_pattern(&mut self, p: &Pattern, t: &Ty)
        ensures
            final(self)@ == binds(old(self).res(), old(self)@, *p, t@),
            final(self).res() == old(self).res(),
        decreases p, 1nat,
    {
        let res = self.res;
        match p {
            Pattern::Wildcard(_) => {},
            Pattern::Ident { name, .. } => self.facts.set_local(name.span, t.copy()),
            Pattern::Literal { .. } => {},
            Pattern::Range { .. } => {},
            Pattern::Path { .. } => {},
            Pattern::TupleVariant { path, fields, .. } => match target(res, path.span) {
                None => {},
                Some(v) => {
                    let ts = self.payloads_from(v, t);
                    self.bind_patterns(fields, &ts);
                },
            },
            Pattern::NamedVariant { path, fields, .. } => match target(res, path.span) {
                None => {},
                Some(v) => {
                    let ts = self.payloads_from(v, t);
                    let none: Vec<String> = Vec::new();
                    let names = match res.enum_variant_field_names.get(&v) {
                        Some(ns) => ns,
                        None => &none,
                    };
                    assert(texts(none@) =~= seq![]);
                    self.bind_fields(fields, names, &ts);
                },
            },
            Pattern::Or { patterns, .. } => self.bind_each(patterns, t),
            Pattern::Tuple { patterns, .. } => self.bind_each(patterns, &Ty::Error),
        }
    }

    fn bind_patterns(&mut self, ps: &Vec<Pattern>, ts: &Vec<Ty>)
        ensures
            final(self)@ == all_bind(old(self).res(), old(self)@, ps@, ty_views(ts@), least(ps@.len(), ty_views(ts@).len())),
            final(self).res() == old(self).res(),
        decreases ps, 0nat,
    {
        let ghost rs = self.res();
        let ghost f0 = self@;
        assert(ty_views(ts@).len() == ts.len());
        let mut i: usize = 0;
        while i < ps.len() && i < ts.len()
            invariant
                i <= ps.len(),
                i <= ts.len(),
                ty_views(ts@).len() == ts.len(),
                rs == old(self).res(),
                self.res() == rs,
                f0 == old(self)@,
                self@ == all_bind(rs, f0, ps@, ty_views(ts@), i as nat),
            decreases ps.len() - i,
        {
            self.bind_pattern(&ps[i], &ts[i]);
            i += 1;
        }
    }

    fn bind_each(&mut self, ps: &Vec<Pattern>, t: &Ty)
        ensures
            final(self)@ == each_binds(old(self).res(), old(self)@, ps@, t@, ps@.len()),
            final(self).res() == old(self).res(),
        decreases ps, 0nat,
    {
        let ghost rs = self.res();
        let ghost f0 = self@;
        let mut i: usize = 0;
        while i < ps.len()
            invariant
                i <= ps.len(),
                rs == old(self).res(),
                self.res() == rs,
                f0 == old(self)@,
                self@ == each_binds(rs, f0, ps@, t@, i as nat),
            decreases ps.len() - i,
        {
            self.bind_pattern(&ps[i], t);
            i += 1;
        }
    }

    fn bind_fields(&mut self, fs: &Vec<(Ident, Pattern)>, names: &Vec<String>, ts: &Vec<Ty>)
        ensures
            final(self)@ == fields_bind(old(self).res(), old(self)@, fs@, texts(names@), ty_views(ts@), fs@.len()),
            final(self).res() == old(self).res(),
        decreases fs, 0nat,
    {
        let ghost rs = self.res();
        let ghost f0 = self@;
        let mut i: usize = 0;
        while i < fs.len()
            invariant
                i <= fs.len(),
                rs == old(self).res(),
                self.res() == rs,
                f0 == old(self)@,
                self@ == fields_bind(rs, f0, fs@, texts(names@), ty_views(ts@), i as nat),
            decreases fs.len() - i,
        {
            let field = &fs[i];
            assert(decreases_to!(fs => field));
            assert(decreases_to!(field => field.1));
            match position_of(names, field.0.name.as_str()) {
                Some(j) => {
                    assert(ty_views(ts@).len() == ts.len());
                    if j < ts.len() {
                        self.bind_pattern(&field.1, &ts[j]);
                    }
                },
                None => {},
            }
            i += 1;
        }
    }
}

/// What the arms of a match cover so far.
struct Cover {
    all: bool,
    bools: Vec<bool>,
    variants: Vec<u32>,
    ints: Vec<i64>,
    strs: Vec<String>,
}

spec fn cover_view(c: Cover) -> CoverV {
    CoverV { all: c.all, bools: c.bools@, variants: c.variants@, ints: c.ints@, strs: texts(c.strs@) }
}

fn contains_u32(v: &Vec<u32>, x: u32) -> (r: bool)
    ensures
        r == v@.contains(x),
{
    let mut i: usize = 0;
    while i < v.len()
        invariant
            i <= v.len(),
            forall|j: int| 0 <= j < i ==> v[j] != x,
        decreases v.len() - i,
    {
        if v[i] == x {
            return true;
        }
        i += 1;
    }
    false
}

fn contains_bool(v: &Vec<bool>, x: bool) -> (r: bool)
    ensures
        r == v@.contains(x),
{
    let mut i: usize = 0;
    while i < v.len()
        invariant
            i <= v.len(),
            forall|j: int| 0 <= j < i ==> v[j] != x,
        decreases v.len() - i,
    {
        if v[i] == x {
            return true;
        }
        i += 1;
    }
    false
}

fn contains_i64(v: &Vec<i64>, x: i64) -> (r: bool)
    ensures
        r == v@.contains(x),
{
    let mut i: usize = 0;
    while i < v.len()
        invariant
            i <= v.len(),
            forall|j: int| 0 <= j < i ==> v[j] != x,
        decreases v.len() - i,
    {
        if v[i] == x {
            return true;
        }
        i += 1;
    }
    false
}

fn already_covered(what: &str) -> (r: String)
    ensures
        r@ == covered_already(what@),
{
    cat3("unreachable arm — `", what, "` was already covered")
}

fn discriminant_at(res: &Resolutions<'_>, p: &Path) -> (r: Option<u32>)
    ensures
        r == variant_at(*res, *p),
{
    match target(res, p.span) {
        Some(s) => match variant_of(res, s) {
            Some((_, d)) => Some(d),
            None => None,
        },
        None => None,
    }
}

fn bools_missing(c: &Cover) -> (r: Vec<String>)
    ensures
        texts(r@) == missing_bools(cover_view(*c)),
{
    let mut out: Vec<String> = Vec::new();
    assert(texts(out@) =~= seq![]);
    if !contains_bool(&c.bools, false) {
        let ghost before = texts(out@);
        out.push("false".to_owned());
        assert(texts(out@) =~= before.push("false"@));
    }
    if !contains_bool(&c.bools, true) {
        let ghost before = texts(out@);
        out.push("true".to_owned());
        assert(texts(out@) =~= before.push("true"@));
    }
    out
}

fn variants_missing(res: &Resolutions<'_>, c: &Cover, vs: &Table<String, SymbolId>) -> (r: Vec<String>)
    ensures
        texts(r@) == missing_variants(*res, cover_view(*c), vs.items(), vs.items().len()),
{
    let mut out: Vec<String> = Vec::new();
    assert(texts(out@) =~= seq![]);
    let n = vs.len();
    let mut i: usize = 0;
    while i < n
        invariant
            i <= n,
            n == vs.items().len(),
            texts(out@) == missing_variants(*res, cover_view(*c), vs.items(), i as nat),
        decreases n - i,
    {
        let e = vs.entry(i);
        match variant_of(res, e.1) {
            Some((_, d)) => {
                if !contains_u32(&c.variants, d) {
                    let ghost before = texts(out@);
                    out.push(e.0.clone());
                    assert(texts(out@) =~= before.push(e.0@));
                }
            },
            None => {},
        }
        i += 1;
    }
    out
}

fn lit_type(lit: &Lit) -> (r: Ty)
    ensures
        r@ == lit_ty(*lit),
{
    match lit {
        Lit::Int(_, t) => match t {
            Some(i) => Ty::Int(*i),
            None => Ty::Int(DEFAULT_INT),
        },
        Lit::Float(_, t) => match t {
            Some(x) => Ty::Float(*x),
            None => Ty::Float(DEFAULT_FLOAT),
        },
        Lit::Str(_) => Ty::Str,
        Lit::Char(_) => Ty::Char,
        Lit::Bool(_) => Ty::Bool,
    }
}

/// The decimal rendering of a signed number.
fn signed(v: i64) -> (r: String)
    ensures
        r@ == dec_int(v as int),
{
    let mut out = String::new();
    push_dec_int(&mut out, v);
    assert(out@ =~= dec_int(v as int));
    out
}

fn payload_count(res: &Resolutions<'_>, v: SymbolId, want: usize, got: usize) -> (r: String)
    ensures
        r@ == takes_payloads(*res, v, want as nat, got as nat),
{
    cat8(
        "variant `",
        name_of(res, v).as_str(),
        "` takes ",
        number(want).as_str(),
        " payload",
        plural_of(want),
        ", found ",
        number(got).as_str(),
    )
}

/// Whether one of the first `n` fields of a pattern has a name.
fn pattern_field_before(fs: &Vec<(Ident, Pattern)>, name: &str, n: usize) -> (r: bool)
    requires
        n <= fs.len(),
    ensures
        r == (first_where(pattern_field(fs@, name@), n as nat) is Some),
{
    let ghost p = pattern_field(fs@, name@);
    let mut i: usize = 0;
    while i < n
        invariant
            i <= n <= fs.len(),
            p == pattern_field(fs@, name@),
            first_where(p, i as nat) is None,
        decreases n - i,
    {
        let field = &fs[i];
        if same_text(field.0.name.as_str(), name) {
            proof {
                assert(p(i as int));
                assert(first_where(p, (i + 1) as nat) == Some(i as int));
                found_stays(p, (i + 1) as nat, n as nat);
            }
            return true;
        }
        assert(!p(i as int));
        i += 1;
    }
    false
}

impl<'r, 's> Checker<'r, 's> {
    // ---- methods ----

    /// The signature of the function behind a struct's method.
    fn method_fn(&self, s: SymbolId, name: &str) -> (r: Option<Ty>)
        ensures
            match r {
                Some(t) => method_signature(self.res(), self@, s, name@) == Some(t@),
                None => method_signature(self.res(), self@, s, name@) is None,
            },
    {
        match self.res.impl_methods.get(&(s, name.to_owned())) {
            Some(m) => self.facts.signature(span_of(self.res, *m)),
            None => None,
        }
    }

    fn user_method_sig(&self, recv: &Ty, name: &str) -> (r: Option<MethodSig>)
        ensures
            sig_opt(r) == user_method(self.res(), self@, recv@, name@),
    {
        match recv {
            Ty::Struct(s, _) => match self.method_fn(*s, name) {
                Some(t) => match &t {
                    Ty::Fn { params, ret } => {
                        assert(ty_views(params@).len() == params.len());
                        if params.len() == 0 {
                            None
                        } else {
                            let mut m = no_subst();
                            unify_typevars(&params[0], recv, &mut m);
                            let rest = apply_subst_all(
                                params,
                                1,
                                &m,
                                None,
                                self.facts.bindings(),
                                self.res,
                                PROJECTION_DEPTH,
                            );
                            let ret = self.apply_subst(ret, &m, None);
                            Some(MethodSig { params: rest, ret })
                        }
                    },
                    _ => None,
                },
                None => None,
            },
            _ => None,
        }
    }

    fn builtin_vec_iter_sig(&self, recv: &Ty, name: &str) -> (r: Option<MethodSig>)
        ensures
            sig_opt(r) == vec_iter_method(self.res(), recv@, name@),
    {
        match recv {
            Ty::Vec(e) => {
                if !same_text(name, "iter") {
                    return None;
                }
                match self.res.find_struct_sym("VecIter") {
                    Some(s) => {
                        let mut args: Vec<Ty> = Vec::new();
                        args.push(e.copy());
                        assert(ty_views(args@) =~= seq![e@]);
                        Some(sig_of(Vec::new(), Ty::Struct(s, args)))
                    },
                    None => None,
                }
            },
            _ => None,
        }
    }

    /// The first of some traits that declares a method.
    fn find_declaring(&self, ts: &Vec<SymbolId>, name: &str) -> (r: Option<(SymbolId, &'r TraitMethodSig)>)
        ensures
            match r {
                Some((t, sig)) => declaring(self.res(), ts@, name@) == Some((t, *sig)),
                None => declaring(self.res(), ts@, name@) is None,
            },
    {
        let res = self.res;
        let ghost p = has_sig(*res, ts@, name@);
        let mut i: usize = 0;
        while i < ts.len()
            invariant
                i <= ts.len(),
                *res == self.res(),
                p == has_sig(*res, ts@, name@),
                first_where(p, i as nat) is None,
            decreases ts.len() - i,
        {
            let t = ts[i];
            match res.trait_methods.get(&t) {
                Some(sigs) => match find_sig(*sigs, name) {
                    Some(j) => {
                        proof {
                            assert(p(i as int));
                            assert(first_where(p, (i + 1) as nat) == Some(i as int));
                            found_stays(p, (i + 1) as nat, ts@.len());
                        }
                        return Some((t, &sigs[j]));
                    },
                    None => {},
                },
                None => {},
            }
            assert(!p(i as int));
            i += 1;
        }
        None
    }

    fn declared_params(&self, m: &Table<SymbolId, Ty>, recv: &Ty, sig: &TraitMethodSig) -> (r: Vec<Ty>)
        ensures
            ty_views(r@) == sig_params(self.res(), self@, ty_map(m@), recv@, *sig),
    {
        let mut out: Vec<Ty> = Vec::new();
        let ghost want = sig_params(self.res(), self@, ty_map(m@), recv@, *sig);
        let n = sig.params.len();
        let mut i: usize = 1;
        while i < n
            invariant
                1 <= i,
                n == sig.params.len(),
                n > 0 ==> i <= n,
                n == 0 ==> i == 1,
                out.len() == i - 1,
                want == sig_params(self.res(), self@, ty_map(m@), recv@, *sig),
                forall|j: int| 0 <= j < out.len() ==> ty_view(#[trigger] out[j]) == want[j],
            decreases n - i,
        {
            let raw = match self.facts.type_at(sig.params[i].ty.span()) {
                Some(t) => t,
                None => Ty::Error,
            };
            let t = self.apply_subst(&raw, m, Some(recv));
            assert(want[i - 1] == t@);
            out.push(t);
            i += 1;
        }
        proof {
            let got = ty_views(out@);
            assert(got.len() == out@.len());
            assert(out@.len() == want.len());
            assert forall|j: int| 0 <= j < want.len() implies got[j] == want[j] by {
                assert(got[j] == ty_view(out[j]));
            }
            assert(got =~= want);
        }
        out
    }

    fn declared_ret(&self, m: &Table<SymbolId, Ty>, recv: &Ty, sig: &TraitMethodSig) -> (r: Ty)
        ensures
            r@ == sig_ret(self.res(), self@, ty_map(m@), recv@, *sig),
    {
        let raw = match &sig.return_type {
            Some(t) => match self.facts.type_at(t.span()) {
                Some(t) => t,
                None => Ty::Unit,
            },
            None => Ty::Unit,
        };
        self.apply_subst(&raw, m, Some(recv))
    }

    fn bind_default_self(&self, t: SymbolId, name: &str, recv: &Ty) -> (r: Table<SymbolId, Ty>)
        ensures
            ty_map(r@) == default_self(self.res(), t, name@, recv@),
    {
        let mut m = no_subst();
        let ghost none = ty_map(m@);
        if let Some(d) = self.res.trait_defaults.get(&(t, name.to_owned())) {
            if let Some(s) = self.res.default_self_syms.get(d) {
                m.insert(*s, recv.copy());
                assert(ty_map(m@) =~= none.insert(*s, recv@));
            }
        }
        m
    }

    fn trait_bound_method_sig(&self, recv: &Ty, name: &str) -> (r: Option<MethodSig>)
        ensures
            sig_opt(r) == bound_method(self.res(), self@, recv@, name@),
    {
        match recv {
            Ty::TypeVar(t) => match self.res.generic_bounds.get(t) {
                Some(bounds) => {
                    let traits = visit(&self.res.trait_supertraits, copy_syms(bounds));
                    match self.find_declaring(&traits, name) {
                        Some((d, sig)) => {
                            let m = self.bind_default_self(d, name, recv);
                            let params = self.declared_params(&m, recv, sig);
                            let ret = self.declared_ret(&m, recv, sig);
                            Some(MethodSig { params, ret })
                        },
                        None => None,
                    }
                },
                None => None,
            },
            _ => None,
        }
    }

    /// A method of a trait object, and whether its signature projects on it.
    fn dyn_method_sig(&self, recv: &Ty, name: &str) -> (r: Option<(MethodSig, bool)>)
        ensures
            match r {
                Some((sig, projects)) => object_method(self.res(), self@, recv@, name@) == Some(
                    (sig_view(sig), projects),
                ),
                None => object_method(self.res(), self@, recv@, name@) is None,
            },
    {
        match recv {
            Ty::Dyn(t, args) => {
                let mut from: Vec<SymbolId> = Vec::new();
                from.push(*t);
                assert(from@ =~= seq![*t]);
                let traits = visit(&self.res.trait_supertraits, from);
                match self.find_declaring(&traits, name) {
                    Some((d, sig)) => {
                        let none: Vec<SymbolId> = Vec::new();
                        let generics = match self.res.trait_generics.get(&d) {
                            Some(gs) => gs,
                            None => &none,
                        };
                        assert(generics@ =~= view_or(self.res().trait_generics@, d, seq![]));
                        let m = bind(generics, args);
                        let params = self.declared_params(&m, recv, sig);
                        let ret = self.declared_ret(&m, recv, sig);
                        let (params, any) = collapse_all(params);
                        let projects = any || is_dyn_assoc(&ret);
                        Some((MethodSig { params, ret: collapse_dyn_assoc(ret) }, projects))
                    },
                    None => None,
                }
            },
            _ => None,
        }
    }

    fn find_method(&self, recv: &Ty, name: &str) -> (r: Option<MethodSig>)
        ensures
            sig_opt(r) == method_of(self.res(), self@, recv@, name@),
    {
        if let Some(sig) = resolve_method(recv, name) {
            return Some(sig);
        }
        if let Some(sig) = self.builtin_vec_iter_sig(recv, name) {
            return Some(sig);
        }
        if let Some(sig) = self.user_method_sig(recv, name) {
            return Some(sig);
        }
        if let Some(sig) = self.trait_bound_method_sig(recv, name) {
            return Some(sig);
        }
        match self.dyn_method_sig(recv, name) {
            Some((sig, _)) => Some(sig),
            None => None,
        }
    }

    // ---- assignment ----

    fn struct_impls_trait(&self, s: SymbolId, t: SymbolId) -> (r: bool)
        ensures
            r == provides(self.res(), s, t),
    {
        let res = self.res;
        match res.trait_methods.get(&t) {
            None => false,
            Some(sigs) => {
                let mut i: usize = 0;
                while i < sigs.len()
                    invariant
                        i <= sigs.len(),
                        *res == self.res(),
                        sigs@ == sigs_of(*res, t),
                        forall|j: int|
                            0 <= j < i ==> res.impl_methods@.contains_key(
                                (s, (#[trigger] sigs_of(*res, t)[j]).name.name@),
                            ),
                    decreases sigs.len() - i,
                {
                    if !res.impl_methods.contains(&(s, sigs[i].name.name.clone())) {
                        assert(!res.impl_methods@.contains_key((s, sigs_of(*res, t)[i as int].name.name@)));
                        return false;
                    }
                    i += 1;
                }
                true
            },
        }
    }

    fn check_assignable(&mut self, span: Span, actual: &Ty, wanted: &Ty) -> (r: bool)
        ensures
            (final(self)@, r) == assigned(old(self).res(), old(self)@, span, actual@, wanted@),
            final(self).res() == old(self).res(),
    {
        if actual.compatible(wanted) {
            return true;
        }
        match (actual, wanted) {
            (Ty::Struct(s, _), Ty::Dyn(t, args)) => {
                if self.struct_impls_trait(*s, *t) {
                    self.facts.set_coercion(span, *s, *t, copy_tys(args));
                    true
                } else {
                    false
                }
            },
            _ => false,
        }
    }

    fn check_arguments(&mut self, args: &Vec<Expr>, ts: &Vec<Ty>, params: &Vec<Ty>, from: usize, what: &str)
        requires
            args.len() == ts.len(),
            from <= params.len(),
            params.len() - from == ts.len(),
        ensures
            final(self)@ == arguments_fit(old(self).res(), old(self)@, args@, ty_views(ts@), ty_views(params@).skip(from as int), what@, ts@.len()),
            final(self).res() == old(self).res(),
    {
        let ghost rs = self.res();
        let ghost f0 = self@;
        let ghost wanted = ty_views(params@).skip(from as int);
        assert(ty_views(ts@).len() == ts.len() && ty_views(params@).len() == params.len());
        let mut i: usize = 0;
        while i < ts.len()
            invariant
                i <= ts.len(),
                rs == old(self).res(),
                self.res() == rs,
                f0 == old(self)@,
                self@ == arguments_fit(rs, f0, args@, ty_views(ts@), wanted, what@, i as nat),
                args.len() == ts.len(),
                from <= params.len(),
                params.len() - from == ts.len(),
                ty_views(ts@).len() == ts.len(),
                ty_views(params@).len() == params.len(),
                wanted == ty_views(params@).skip(from as int),
            decreases ts.len() - i,
        {
            let param = &params[from + i];
            assert(wanted[i as int] == param@);
            let span = args[i].span();
            if !self.check_assignable(span, &ts[i], param) {
                self.error(
                    span,
                    cat8(
                        what,
                        " ",
                        number(i + 1).as_str(),
                        " has type `",
                        ts[i].display().as_str(),
                        "`, expected `",
                        param.display().as_str(),
                        "`",
                    ),
                );
            }
            i += 1;
        }
    }

    // ---- expressions ----

    fn path_value_type(&mut self, p: &Path) -> (r: Ty)
        ensures
            (final(self)@, r@) == value_of(old(self).res(), old(self)@, *p),
            final(self).res() == old(self).res(),
    {
        let res = self.res;
        match target(res, p.span) {
            None => Ty::Error,
            Some(s) => {
                let span = span_of(res, s);
                match kind_of(res, s) {
                    Some(SymbolKind::Local { .. }) => or_error(self.facts.local(span)),
                    Some(SymbolKind::Param) => or_error(self.facts.local(span)),
                    Some(SymbolKind::Const) => or_error(self.facts.local(span)),
                    Some(SymbolKind::Fn) => or_error(self.facts.signature(span)),
                    Some(SymbolKind::BuiltinFn(b)) => Ty::Fn {
                        params: copy_tys(&b.params),
                        ret: Box::new(b.ret.copy()),
                    },
                    Some(SymbolKind::PolyBuiltinFn(_)) => {
                        let m = cat3(
                            "`",
                            name_of(res, s).as_str(),
                            "` is a polymorphic builtin and cannot be used as a value; use it in a call expression",
                        );
                        self.error(p.span, m);
                        Ty::Error
                    },
                    Some(SymbolKind::EnumVariant { enum_sym, .. }) => uninstantiated(*enum_sym),
                    _ => {
                        let m = cat3("`", name_of(res, s).as_str(), "` is not a value");
                        self.error(p.span, m);
                        Ty::Error
                    },
                }
            },
        }
    }

    fn type_unary(&mut self, op: UnOp, t: Ty, span: Span) -> (r: Ty)
        ensures
            (final(self)@, r@) == unary_of(old(self)@, op, t@, span),
            final(self).res() == old(self).res(),
    {
        if t.is_error() {
            return Ty::Error;
        }
        match op {
            UnOp::Neg => {
                if t.is_numeric() {
                    return t;
                }
                self.error(span, cat3("cannot negate `", t.display().as_str(), "`"));
                Ty::Error
            },
            UnOp::Not => {
                if let Ty::Bool = t {
                    return Ty::Bool;
                }
                self.error(span, cat3("`!` requires `bool`, found `", t.display().as_str(), "`"));
                Ty::Error
            },
            UnOp::BitNot => {
                if t.is_integer() {
                    return t;
                }
                self.error(span, cat3("`~` requires an integer, found `", t.display().as_str(), "`"));
                Ty::Error
            },
        }
    }

    fn type_binary(&mut self, op: BinOp, l: Ty, r_ty: Ty, span: Span) -> (r: Ty)
        ensures
            (final(self)@, r@) == binary_of(old(self)@, op, l@, r_ty@, span),
            final(self).res() == old(self).res(),
    {
        if l.is_error() || r_ty.is_error() {
            return Ty::Error;
        }
        if !l.compatible(&r_ty) {
            self.error(
                span,
                cat7(
                    "operands of `",
                    binop_symbol(op),
                    "` have mismatched types: `",
                    l.display().as_str(),
                    "` vs `",
                    r_ty.display().as_str(),
                    "`",
                ),
            );
            return Ty::Error;
        }
        let t = if l.is_never() {
            r_ty
        } else {
            l
        };
        if binop_takes(op, &t) {
            binop_gives(op, t)
        } else {
            self.error(
                span,
                cat7(
                    "operator `",
                    binop_symbol(op),
                    "` requires ",
                    binop_wants(op),
                    " operands, got `",
                    t.display().as_str(),
                    "`",
                ),
            );
            Ty::Error
        }
    }

    fn check_place_root_mutable(&mut self, e: &Expr, span: Span)
        ensures
            final(self)@ == root_of(old(self).res(), old(self)@, *e, span),
            final(self).res() == old(self).res(),
        decreases e,
    {
        let res = self.res;
        match e {
            Expr::Path(p) => match target(res, p.span) {
                None => {},
                Some(s) => {
                    let name = name_of(res, s);
                    match kind_of(res, s) {
                        Some(SymbolKind::Local { mutable }) => {
                            if !*mutable {
                                self.error(
                                    span,
                                    cat3("cannot assign to field of immutable binding `", name.as_str(), "`"),
                                );
                            }
                        },
                        Some(SymbolKind::Param) => {},
                        _ => self.error(span, cat3("cannot assign to field of `", name.as_str(), "`")),
                    }
                },
            },
            Expr::Field { receiver, .. } => self.check_place_root_mutable(receiver, span),
            _ => self.error(span, "field assignment target must reach a mutable binding".to_owned()),
        }
    }

    fn check_assign_target(&mut self, e: &Expr, span: Span)
        ensures
            final(self)@ == target_of(old(self).res(), old(self)@, *e, span),
            final(self).res() == old(self).res(),
    {
        let res = self.res;
        match e {
            Expr::Path(p) => match target(res, p.span) {
                None => {},
                Some(s) => {
                    let name = name_of(res, s);
                    let n = name.as_str();
                    match kind_of(res, s) {
                        Some(SymbolKind::Local { mutable }) => {
                            if !*mutable {
                                self.error(span, cat3("cannot assign to immutable binding `", n, "`"));
                            }
                        },
                        Some(SymbolKind::Param) => self.error(span, cat3("cannot assign to parameter `", n, "`")),
                        Some(SymbolKind::Const) => self.error(span, cat3("cannot assign to const `", n, "`")),
                        Some(SymbolKind::Fn) => self.error(span, cat3("cannot assign to function `", n, "`")),
                        Some(SymbolKind::BuiltinFn(_)) => self.error(
                            span,
                            cat3("cannot assign to function `", n, "`"),
                        ),
                        Some(SymbolKind::PolyBuiltinFn(_)) => self.error(
                            span,
                            cat3("cannot assign to function `", n, "`"),
                        ),
                        Some(SymbolKind::EnumVariant { .. }) => self.error(
                            span,
                            cat3("cannot assign to enum variant `", n, "`"),
                        ),
                        _ => self.error(span, cat3("cannot assign to `", n, "`")),
                    }
                },
            },
            Expr::Field { receiver, .. } => self.check_place_root_mutable(receiver, span),
            Expr::Index { .. } => {},
            _ => self.error(span, "invalid assignment target".to_owned()),
        }
    }

    fn type_assign(&mut self, l: &Ty, r_ty: &Ty, span: Span)
        ensures
            final(self)@ == assignment_of(old(self)@, l@, r_ty@, span),
            final(self).res() == old(self).res(),
    {
        if !l.is_error() && !r_ty.is_error() && !l.compatible(r_ty) {
            self.error(
                span,
                cat5("cannot assign `", r_ty.display().as_str(), "` to `", l.display().as_str(), "`"),
            );
        }
    }

    fn type_assign_op(&mut self, op: BinOp, l: &Ty, r_ty: &Ty, span: Span)
        ensures
            final(self)@ == compound_of(old(self)@, op, l@, r_ty@, span),
            final(self).res() == old(self).res(),
    {
        if l.is_error() || r_ty.is_error() {
            return ;
        }
        if !l.compatible(r_ty) {
            self.error(
                span,
                cat7(
                    "compound assignment `",
                    binop_symbol(op),
                    "=` has mismatched operand types: `",
                    l.display().as_str(),
                    "` vs `",
                    r_ty.display().as_str(),
                    "`",
                ),
            );
        }
        let (arithmetic, adds) = match op {
            BinOp::Add => (true, true),
            BinOp::Sub => (true, false),
            BinOp::Mul => (true, false),
            BinOp::Div => (true, false),
            BinOp::Mod => (true, false),
            _ => (false, false),
        };
        let is_str = match l {
            Ty::Str => true,
            _ => false,
        };
        if arithmetic && !(adds && is_str) && !l.is_numeric() {
            self.error(
                span,
                cat5(
                    "compound assignment `",
                    binop_symbol(op),
                    "=` requires numeric operands, got `",
                    l.display().as_str(),
                    "`",
                ),
            );
        }
    }

    fn want_bool(&mut self, what: &str, t: &Ty, span: Span)
        ensures
            final(self)@ == must_be_bool(old(self)@, what@, t@, span),
            final(self).res() == old(self).res(),
    {
        if !t.compatible(&Ty::Bool) {
            self.error(span, cat4(what, " must be `bool`, found `", t.display().as_str(), "`"));
        }
    }

    fn want_int(&mut self, what: &str, t: &Ty, span: Span)
        ensures
            final(self)@ == must_be_int(old(self)@, what@, t@, span),
            final(self).res() == old(self).res(),
    {
        if !t.is_integer() && !t.is_error() {
            self.error(span, cat4(what, ", found `", t.display().as_str(), "`"));
        }
    }

    fn type_cast(&mut self, from: &Ty, to: &Ty, span: Span)
        ensures
            final(self)@ == cast_of(old(self)@, from@, to@, span),
            final(self).res() == old(self).res(),
    {
        if from.is_error() || to.is_error() {
            return ;
        }
        let from_small = match from {
            Ty::Bool => true,
            Ty::Char => true,
            _ => false,
        };
        let to_char = match to {
            Ty::Char => true,
            _ => false,
        };
        let allowed = (from.is_numeric() && to.is_numeric()) || (from_small && to.is_integer()) || (
        from.is_integer() && to_char);
        if !allowed {
            self.error(
                span,
                cat5("cannot cast `", from.display().as_str(), "` to `", to.display().as_str(), "`"),
            );
        }
    }

    fn type_slice(&mut self, t: Ty, span: Span) -> (r: Ty)
        ensures
            (final(self)@, r@) == sliced_of(old(self)@, t@, span),
            final(self).res() == old(self).res(),
    {
        match t {
            Ty::Str => Ty::Str,
            Ty::Error => Ty::Error,
            _ => {
                self.error(span, cat3("cannot slice value of type `", t.display().as_str(), "`"));
                Ty::Error
            },
        }
    }

    fn type_index(&mut self, t: Ty, span: Span) -> (r: Ty)
        ensures
            (final(self)@, r@) == indexed_of(old(self)@, t@, span),
            final(self).res() == old(self).res(),
    {
        match &t {
            Ty::Array(e, _) => e.copy(),
            Ty::Str => Ty::Int(IntTy::I64),
            Ty::Error => Ty::Error,
            _ => {
                self.error(span, cat3("cannot index value of type `", t.display().as_str(), "`"));
                Ty::Error
            },
        }
    }

    fn type_try(&mut self, t: Ty, span: Span) -> (r: Ty)
        ensures
            (final(self)@, r@) == try_of(old(self).res(), old(self)@, t@, span),
            final(self).res() == old(self).res(),
    {
        if t.is_error() {
            return Ty::Error;
        }
        let res = self.res;
        match &t {
            Ty::Enum(s, args) => {
                assert(ty_views(args@).len() == args.len());
                let result = match res.enum_variants.get(s) {
                    Some(vs) => vs.contains(&"Ok".to_owned()) && vs.contains(&"Err".to_owned()),
                    None => false,
                };
                assert(result == is_result(*res, *s));
                if args.len() == 2 && result {
                    self.check_propagation(*s, &args[1], span);
                    return args[0].copy();
                }
            },
            _ => {},
        }
        self.error(
            span,
            cat3(
                "the `?` operator requires a `Result`, but the operand has type `",
                t.display().as_str(),
                "`",
            ),
        );
        Ty::Error
    }

    /// The function that converts a type to another, if there is one.
    fn find_conversion(&mut self, from: &Ty, wanted: &Ty) -> (r: Option<SymbolId>)
        ensures
            ({
                let cs = conversions_of(old(self).res(), from@);
                (final(self)@, r) == conversion_found(old(self).res(), old(self)@, cs, wanted@, cs.len())
            }),
            final(self).res() == old(self).res(),
    {
        let res = self.res;
        let ghost cs = conversions_of(*res, from@);
        let s = match from {
            Ty::Struct(s, _) => *s,
            _ => {
                return None;
            },
        };
        let list = match res.into_impls.get(&s) {
            Some(list) => list,
            None => {
                return None;
            },
        };
        assert(cs == list@);
        let ghost f0 = self@;
        let mut i: usize = 0;
        while i < list.len()
            invariant
                i <= list.len(),
                cs == list@,
                cs == conversions_of(old(self).res(), from@),
                f0 == old(self)@,
                *res == old(self).res(),
                self.res() == *res,
                (self@, None::<SymbolId>) == conversion_found(*res, f0, cs, wanted@, i as nat),
            decreases list.len() - i,
        {
            let t = self.resolve_type(list[i].0);
            if t.same(wanted) {
                proof {
                    found_conversion_stays(*res, f0, cs, wanted@, (i + 1) as nat, cs.len());
                }
                return Some(list[i].1);
            }
            i += 1;
        }
        None
    }

    fn check_propagation(&mut self, s: SymbolId, err: &Ty, span: Span)
        ensures
            final(self)@ == propagated(old(self).res(), old(self)@, s, err@, span),
            final(self).res() == old(self).res(),
    {
        let ret = self.facts.return_type();
        match &ret {
            Ty::Enum(s2, args) => {
                assert(ty_views(args@).len() == args.len());
                if s2.0 == s.0 && args.len() == 2 {
                    if !args[1].compatible(err) {
                        if let Some(into) = self.find_conversion(err, &args[1]) {
                            self.facts.set_conversion(span, into, args[1].copy());
                            return ;
                        }
                        self.error(
                            span,
                            cat5(
                                "`?` propagates an error of type `",
                                err.display().as_str(),
                                "`, but the enclosing function's `Result` error type is `",
                                args[1].display().as_str(),
                                "`",
                            ),
                        );
                    }
                    return ;
                }
            },
            _ => {},
        }
        self.error(
            span,
            cat3(
                "the `?` operator can only be used in a function returning a `Result`, but this one returns `",
                ret.display().as_str(),
                "`",
            ),
        );
    }

    fn type_field(&mut self, recv: Ty, name: &Ident, span: Span) -> (r: Ty)
        ensures
            (final(self)@, r@) == field_of(old(self).res(), old(self)@, recv@, *name, span),
            final(self).res() == old(self).res(),
    {
        let res = self.res;
        match &recv {
            Ty::Struct(s, args) => {
                let found = match self.facts.layout(*s) {
                    None => return Ty::Error,
                    Some(l) => field_type(l, name.name.as_str()),
                };
                match found {
                    None => {
                        let m = cat5(
                            "`",
                            name_of(res, *s).as_str(),
                            "` has no field `",
                            name.name.as_str(),
                            "`",
                        );
                        self.error(name.span, m);
                        Ty::Error
                    },
                    Some(t) => {
                        let m = build_struct_subst(res, *s, args);
                        self.apply_subst(&t, &m, None)
                    },
                }
            },
            Ty::Error => Ty::Error,
            _ => {
                self.error(
                    span,
                    cat5(
                        "cannot access field `",
                        name.name.as_str(),
                        "` on type `",
                        recv.display().as_str(),
                        "`",
                    ),
                );
                Ty::Error
            },
        }
    }

    fn struct_implements_iterator(&self, s: SymbolId) -> (r: bool)
        ensures
            r == is_iterator(self.res(), s),
    {
        match self.res.find_trait_sym("Iterator") {
            Some(it) => implements_trait(self.res, s, it),
            None => false,
        }
    }

    fn type_param_has_iterator_bound(&self, t: SymbolId) -> (r: bool)
        ensures
            r == iterates(self.res(), t),
    {
        match self.res.find_trait_sym("Iterator") {
            Some(it) => match self.res.generic_bounds.get(&t) {
                Some(bounds) => {
                    let traits = visit(&self.res.trait_supertraits, copy_syms(bounds));
                    contains_sym(&traits, it)
                },
                None => false,
            },
            None => false,
        }
    }

    fn type_items(&mut self, t: Ty, span: Span) -> (r: Ty)
        ensures
            (final(self)@, r@) == items_of(old(self).res(), old(self)@, t@, span),
            final(self).res() == old(self).res(),
    {
        match &t {
            Ty::Array(e, _) => {
                return e.copy();
            },
            Ty::Error => {
                return Ty::Error;
            },
            Ty::Struct(s, args) => {
                if self.struct_implements_iterator(*s) {
                    let raw = or_error(self.facts.binding(*s, "Item".to_owned()));
                    let m = build_struct_subst(self.res, *s, args);
                    return self.apply_subst(&raw, &m, None);
                }
            },
            Ty::TypeVar(v) => {
                if self.type_param_has_iterator_bound(*v) {
                    assert(ty_view(Ty::TypeVar(*v)) == TyV::TypeVar(*v));
                    return Ty::Assoc(Box::new(Ty::TypeVar(*v)), "Item".to_owned());
                }
            },
            _ => {},
        }
        self.error(
            span,
            cat3(
                "cannot iterate over `",
                t.display().as_str(),
                "` — type does not implement `std::Iterator`",
            ),
        );
        Ty::Error
    }

    fn type_poly(&mut self, name: &str, args: &Vec<Expr>, ts: Vec<Ty>, span: Span) -> (r: Ty)
        requires
            args.len() == ts.len(),
        ensures
            (final(self)@, r@) == poly_of(old(self)@, name@, args@, ty_views(ts@), span),
            final(self).res() == old(self).res(),
    {
        assert(ty_views(ts@).len() == ts.len());
        if same_text(name, "print") {
            if ts.len() != 1 {
                self.error(
                    span,
                    cat2("`print` expects 1 argument, found ", number(ts.len()).as_str()),
                );
                return Ty::Unit;
            }
            let printable = match &ts[0] {
                Ty::Error => true,
                Ty::Int(_) => true,
                Ty::Str => true,
                _ => false,
            };
            assert(ty_views(ts@)[0] == ts@[0]@);
            if !printable {
                self.error(
                    args[0].span(),
                    cat3(
                        "`print` does not yet support values of type `",
                        ts[0].display().as_str(),
                        "` (currently: i64-family integers and str)",
                    ),
                );
            }
            Ty::Unit
        } else if same_text(name, "weak") {
            if ts.len() != 1 {
                self.error(span, cat2("`weak` expects 1 argument, found ", number(ts.len()).as_str()));
                return Ty::Error;
            }
            assert(ty_views(ts@)[0] == ts@[0]@);
            let counted = match &ts[0] {
                Ty::Vec(_) => true,
                Ty::Error => true,
                _ => false,
            };
            if !counted {
                self.error(
                    args[0].span(),
                    cat3("`weak` only supports `Vec` in v0.x — got `", ts[0].display().as_str(), "`"),
                );
                return Ty::Error;
            }
            Ty::Weak(Box::new(ts[0].copy()))
        } else if same_text(name, "upgrade_or") {
            if ts.len() != 2 {
                self.error(
                    span,
                    cat2("`upgrade_or` expects 2 arguments, found ", number(ts.len()).as_str()),
                );
                return Ty::Error;
            }
            assert(ty_views(ts@)[0] == ts@[0]@ && ty_views(ts@)[1] == ts@[1]@);
            match &ts[0] {
                Ty::Weak(inner) => {
                    if !ts[1].compatible(inner) {
                        self.error(
                            args[1].span(),
                            cat5(
                                "`upgrade_or` default has type `",
                                ts[1].display().as_str(),
                                "`, expected `",
                                inner.display().as_str(),
                                "`",
                            ),
                        );
                    }
                    inner.copy()
                },
                Ty::Error => Ty::Error,
                _ => {
                    self.error(
                        args[0].span(),
                        cat3(
                            "`upgrade_or` first arg must be `Weak<T>`, got `",
                            ts[0].display().as_str(),
                            "`",
                        ),
                    );
                    Ty::Error
                },
            }
        } else {
            self.type_map_builtin(name, args, &ts, span)
        }
    }

    /// A call of a function on maps.
    fn type_map_builtin(&mut self, name: &str, args: &Vec<Expr>, ts: &Vec<Ty>, span: Span) -> (r: Ty)
        requires
            args.len() == ts.len(),
        ensures
            (final(self)@, r@) == map_builtin_of(old(self)@, name@, args@, ty_views(ts@), span),
            final(self).res() == old(self).res(),
    {
        let fresh = same_text(name, "hashmap_new");
        let for_texts = same_text(name, "hashmap_str_new");
        let cap = same_text(name, "hashmap_cap");
        let live = same_text(name, "hashmap_is_live_at");
        let key = same_text(name, "hashmap_key_at");
        assert(ty_views(ts@).len() == ts.len());
        let want: usize = if fresh || for_texts {
            0
        } else if cap {
            1
        } else if live || key {
            2
        } else {
            self.error(span, cat3("unknown polymorphic builtin `", name, "`"));
            return Ty::Error;
        };
        assert(map_builtin_args(name@) == Some(want as nat));
        if ts.len() != want {
            self.error(
                span,
                cat7(
                    "`",
                    name,
                    "` expects ",
                    number(want).as_str(),
                    " argument",
                    plural_of(want),
                    cat2(", found ", number(ts.len()).as_str()).as_str(),
                ),
            );
            assert(self@.errors.last().0 =~= "`"@ + name@ + "` expects "@ + dec(want as nat) + " argument"@ + plural(
                want as nat,
            ) + ", found "@ + dec(ts@.len()));
            return Ty::Error;
        }
        if want == 0 {
            let k = if fresh {
                Ty::Error
            } else {
                Ty::Str
            };
            assert(ty_view(Ty::Error) == TyV::Error && ty_view(Ty::Str) == TyV::Str);
            let r = Ty::HashMap(Box::new(k), Box::new(Ty::Error));
            assert(r@ == TyV::HashMap(Box::new(k@), Box::new(TyV::Error)));
            return r;
        }
        assert(ty_views(ts@)[0] == ts@[0]@);
        match &ts[0] {
            Ty::HashMap(k, _) => {
                if want == 2 {
                    assert(ty_views(ts@)[1] == ts@[1]@);
                    let counts = match &ts[1] {
                        Ty::Int(_) => true,
                        Ty::Error => true,
                        _ => false,
                    };
                    if !counts {
                        self.error(
                            args[1].span(),
                            cat5("`", name, "` position must be an integer, got `", ts[1].display().as_str(), "`"),
                        );
                    }
                }
                if cap {
                    Ty::Int(IntTy::I64)
                } else if live {
                    Ty::Bool
                } else {
                    k.copy()
                }
            },
            Ty::Error => Ty::Error,
            _ => {
                self.error(
                    args[0].span(),
                    cat5("`", name, "` first arg must be `HashMap<K, V>`, got `", ts[0].display().as_str(), "`"),
                );
                Ty::Error
            },
        }
    }

    fn type_call(&mut self, callee: Ty, args: &Vec<Expr>, ts: Vec<Ty>, span: Span) -> (r: Ty)
        requires
            args.len() == ts.len(),
        ensures
            (final(self)@, r@) == call_of(old(self).res(), old(self)@, callee@, args@, ty_views(ts@), span),
            final(self).res() == old(self).res(),
    {
        assert(ty_views(ts@).len() == ts.len());
        match &callee {
            Ty::Fn { params, ret } => {
                assert(ty_views(params@).len() == params.len());
                if params.len() != ts.len() {
                    self.error(
                        span,
                        cat6(
                            "expected ",
                            number(params.len()).as_str(),
                            " argument",
                            plural_of(params.len()),
                            ", found ",
                            number(ts.len()).as_str(),
                        ),
                    );
                    return ret.copy();
                }
                let mut m = no_subst();
                unify_all(params, &ts, &mut m);
                assert(ty_views(params@).skip(0) =~= ty_views(params@));
                self.check_arguments(args, &ts, params, 0, "argument");
                self.apply_subst(ret, &m, None)
            },
            Ty::Error => Ty::Error,
            Ty::Struct(s, _) => {
                if self.res.impl_methods.contains(&(*s, "call".to_owned())) {
                    self.type_closure_call(&callee, *s, args, &ts, span)
                } else {
                    self.error(
                        span,
                        cat3("cannot call value of type `", callee.display().as_str(), "`"),
                    );
                    Ty::Error
                }
            },
            _ => {
                self.error(span, cat3("cannot call value of type `", callee.display().as_str(), "`"));
                Ty::Error
            },
        }
    }

    fn type_closure_call(&mut self, callee: &Ty, s: SymbolId, args: &Vec<Expr>, ts: &Vec<Ty>, span: Span) -> (r: Ty)
        requires
            args.len() == ts.len(),
            callee@ matches TyV::Struct(s2, _) && s2 == s,
            old(self).res().impl_methods@.contains_key((s, "call"@)),
        ensures
            (final(self)@, r@) == call_of(old(self).res(), old(self)@, callee@, args@, ty_views(ts@), span),
            final(self).res() == old(self).res(),
    {
        assert(ty_views(ts@).len() == ts.len());
        match self.method_fn(s, "call") {
            Some(sig) => match &sig {
                Ty::Fn { params, ret } => {
                    let from: usize = if params.len() == 0 {
                        0
                    } else {
                        1
                    };
                    let ghost ps = ty_views(params@);
                    assert(ps.len() == params.len());
                    assert(ps.skip(0) =~= ps);
                    let n: usize = params.len() - from;
                    if n != ts.len() {
                        self.error(
                            span,
                            cat6(
                                "closure expects ",
                                number(n).as_str(),
                                " argument",
                                plural_of(n),
                                " but got ",
                                number(ts.len()).as_str(),
                            ),
                        );
                    } else {
                        self.check_arguments(args, ts, params, from, "argument");
                    }
                    ret.copy()
                },
                _ => {
                    self.error(span, "internal: closure has no call signature".to_owned());
                    Ty::Error
                },
            },
            None => {
                self.error(span, "internal: closure has no call signature".to_owned());
                Ty::Error
            },
        }
    }

    fn type_method_call(&mut self, recv: Ty, name: &str, args: &Vec<Expr>, ts: Vec<Ty>, span: Span) -> (r: Ty)
        requires
            args.len() == ts.len(),
        ensures
            (final(self)@, r@) == method_call_of(old(self).res(), old(self)@, recv@, name@, args@, ty_views(ts@), span),
            final(self).res() == old(self).res(),
    {
        assert(ty_views(ts@).len() == ts.len());
        match self.find_method(&recv, name) {
            None => {
                if !recv.is_error() {
                    self.error(
                        span,
                        cat5("no method `.", name, "` on type `", recv.display().as_str(), "`"),
                    );
                }
                Ty::Error
            },
            Some(sig) => {
                let projects = match self.dyn_method_sig(&recv, name) {
                    Some((_, p)) => p,
                    None => false,
                };
                if projects {
                    self.error(
                        span,
                        cat5(
                            "method `.",
                            name,
                            "` returns an associated type that cannot be projected through `",
                            recv.display().as_str(),
                            "`; call it on a concrete receiver instead",
                        ),
                    );
                }
                let ghost ps = ty_views(sig.params@);
                assert(ps.len() == sig.params.len());
                assert(ps.skip(0) =~= ps);
                if sig.params.len() != ts.len() {
                    self.error(
                        span,
                        cat8(
                            "method `.",
                            name,
                            "` expects ",
                            number(sig.params.len()).as_str(),
                            " argument",
                            plural_of(sig.params.len()),
                            ", found ",
                            number(ts.len()).as_str(),
                        ),
                    );
                } else {
                    self.check_arguments(args, &ts, &sig.params, 0, "argument");
                }
                sig.ret
            },
        }
    }

    // ---- walking ----

    fn check_expr(&mut self, e: &Expr) -> (r: Ty)
        ensures
            (final(self)@, r@) == checked(old(self).res(), old(self)@, *e),
            final(self).res() == old(self).res(),
        decreases e, 2nat,
    {
        let t = self.check_expr_inner(e);
        self.facts.set_expr(e.span(), t.copy());
        t
    }

    fn check_exprs(&mut self, es: &Vec<Expr>) -> (r: Vec<Ty>)
        ensures
            (final(self)@, ty_views(r@)) == all_checked(old(self).res(), old(self)@, es@, es@.len()),
            r.len() == es.len(),
            final(self).res() == old(self).res(),
        decreases es, 0nat,
    {
        let ghost rs = self.res();
        let ghost f0 = self@;
        let mut out: Vec<Ty> = Vec::new();
        assert(ty_views(out@) =~= seq![]);
        let mut i: usize = 0;
        while i < es.len()
            invariant
                i <= es.len(),
                rs == old(self).res(),
                self.res() == rs,
                f0 == old(self)@,
                (self@, ty_views(out@)) == all_checked(rs, f0, es@, i as nat),
                out.len() == i,
            decreases es.len() - i,
        {
            let ghost before = ty_views(out@);
            let t = self.check_expr(&es[i]);
            out.push(t);
            assert(ty_views(out@) =~= before.push(t@));
            i += 1;
        }
        out
    }

    fn check_expr_with_hint(&mut self, e: &Expr, wanted: Option<&Ty>) -> (r: Ty)
        ensures
            (final(self)@, r@) == checked_for(old(self).res(), old(self)@, *e, opt_ty(wanted)),
            final(self).res() == old(self).res(),
        decreases e, 3nat,
    {
        let closure = match e {
            Expr::Closure { .. } => true,
            _ => false,
        };
        if closure && wanted.is_some() {
            let t = self.check_closure(e, wanted);
            self.facts.set_expr(e.span(), t.copy());
            t
        } else {
            self.check_expr(e)
        }
    }

    fn check_opt(&mut self, e: &Option<Box<Expr>>) -> (r: Ty)
        ensures
            (final(self)@, r@) == opt_checked(old(self).res(), old(self)@, *e),
            final(self).res() == old(self).res(),
        decreases e, 3nat,
    {
        match e {
            Some(e) => self.check_expr(e),
            None => Ty::Unit,
        }
    }

    fn check_bound(&mut self, e: &Option<Box<Expr>>, what: &str)
        ensures
            final(self)@ == bound_checked(old(self).res(), old(self)@, *e, what@),
            final(self).res() == old(self).res(),
        decreases e, 3nat,
    {
        match e {
            Some(e) => {
                let t = self.check_expr(e);
                self.want_int(what, &t, e.span());
            },
            None => {},
        }
    }

    #[verifier::spinoff_prover]
    fn check_expr_inner(&mut self, e: &Expr) -> (r: Ty)
        ensures
            (final(self)@, r@) == checked_inside(old(self).res(), old(self)@, *e),
            final(self).res() == old(self).res(),
        decreases e, 1nat,
    {
        match e {
            Expr::Lit { lit, .. } => lit_type(lit),
            Expr::Path(p) => self.path_value_type(p),
            Expr::Unary { op, expr, span } => {
                let t = self.check_expr(expr);
                self.type_unary(*op, t, *span)
            },
            Expr::Binary { op, lhs, rhs, span } => {
                let l = self.check_expr(lhs);
                let r = self.check_expr(rhs);
                self.type_binary(*op, l, r, *span)
            },
            Expr::Assign { .. } => self.check_assign(e),
            Expr::AssignOp { .. } => self.check_assign(e),
            Expr::Call { .. } => self.check_call(e),
            Expr::MethodCall { receiver, method, args, span } => {
                let recv = self.check_expr(receiver);
                let ts = self.check_exprs(args);
                self.type_method_call(recv, method.name.as_str(), args, ts, *span)
            },
            Expr::Field { receiver, name, span } => {
                let recv = self.check_expr(receiver);
                self.type_field(recv, name, *span)
            },
            Expr::TupleIndex { receiver, span, .. } => {
                let _ = self.check_expr(receiver);
                self.error(*span, "tuple fields are not supported".to_owned());
                Ty::Error
            },
            Expr::Index { .. } => self.check_index(e),
            Expr::Try { expr, span } => {
                let t = self.check_expr(expr);
                self.type_try(t, *span)
            },
            Expr::Cast { expr, ty, span } => {
                let from = self.check_expr(expr);
                let to = self.resolve_type(ty);
                self.type_cast(&from, &to, *span);
                to
            },
            Expr::Array { elems, span } => self.check_array(elems, *span),
            Expr::Tuple { elems, span } => {
                let _ = self.check_exprs(elems);
                self.error(*span, "tuples are not supported".to_owned());
                Ty::Error
            },
            Expr::Block(b) => self.check_block(b),
            Expr::If { .. } => self.check_if(e),
            Expr::While { cond, body, .. } => {
                let c = self.check_expr(cond);
                self.want_bool("while condition", &c, cond.span());
                let _ = self.check_block(body);
                Ty::Unit
            },
            Expr::For { .. } => self.check_for(e),
            Expr::Match { scrutinee, arms, span } => {
                let t = self.check_expr(scrutinee);
                let r = self.check_arms(arms, &t);
                self.check_match_exhaustiveness(&t, arms, *span);
                match r {
                    Some(r) => r,
                    None => Ty::Unit,
                }
            },
            Expr::StructLit { .. } => self.check_struct_lit(e),
            Expr::Range { start, end, span, .. } => {
                let _ = self.check_opt(start);
                let _ = self.check_opt(end);
                self.error(
                    *span,
                    "range expressions are only allowed as a slice index (e.g. `s[a..b]`) — `for i in 0..n` and bare ranges aren't supported yet".to_owned(),
                );
                Ty::Error
            },
            Expr::Return { .. } => self.check_return(e),
            Expr::Break(_) => Ty::Never,
            Expr::Continue(_) => Ty::Never,
            Expr::Closure { .. } => self.check_closure(e, None),
        }
    }

    fn check_assign(&mut self, e: &Expr) -> (r: Ty)
        requires
            e is Assign || e is AssignOp,
        ensures
            (final(self)@, r@) == checked_inside(old(self).res(), old(self)@, *e),
            final(self).res() == old(self).res(),
        decreases e, 0nat,
    {
        match e {
            Expr::Assign { lhs, rhs, span } => {
                let l = self.check_expr(lhs);
                let r = self.check_expr(rhs);
                self.check_assign_target(lhs, *span);
                self.type_assign(&l, &r, *span);
            },
            Expr::AssignOp { op, lhs, rhs, span } => {
                let l = self.check_expr(lhs);
                let r = self.check_expr(rhs);
                self.check_assign_target(lhs, *span);
                self.type_assign_op(*op, &l, &r, *span);
            },
            _ => {},
        }
        Ty::Unit
    }

    fn check_index(&mut self, e: &Expr) -> (r: Ty)
        requires
            e is Index,
        ensures
            (final(self)@, r@) == checked_inside(old(self).res(), old(self)@, *e),
            final(self).res() == old(self).res(),
        decreases e, 0nat,
    {
        match e {
            Expr::Index { receiver, index, span } => {
                let recv = self.check_expr(receiver);
                match &**index {
                    Expr::Range { start, end, .. } => {
                        self.check_bound(start, "slice start must be integer");
                        self.check_bound(end, "slice end must be integer");
                        self.type_slice(recv, *span)
                    },
                    _ => {
                        let t = self.check_expr(index);
                        self.want_int("index must be an integer", &t, index.span());
                        self.type_index(recv, *span)
                    },
                }
            },
            _ => Ty::Error,
        }
    }

    fn check_array(&mut self, elems: &Vec<Expr>, span: Span) -> (r: Ty)
        ensures
            (final(self)@, r@) == (if elems@.len() == 0 {
                (
                    erring(old(self)@, span, "cannot infer element type of empty array literal"@),
                    TyV::Array(Box::new(TyV::Error), 0),
                )
            } else {
                let (f1, t) = elements_checked(old(self).res(), old(self)@, elems@, elems@.len());
                (f1, TyV::Array(Box::new(t), elems@.len() as usize))
            }),
            final(self).res() == old(self).res(),
        decreases elems, 0nat,
    {
        let ghost rs = self.res();
        let ghost f0 = self@;
        if elems.len() == 0 {
            self.error(span, "cannot infer element type of empty array literal".to_owned());
            assert(ty_view(Ty::Error) == TyV::Error);
            return Ty::Array(Box::new(Ty::Error), 0);
        }
        let mut t = self.check_expr(&elems[0]);
        let mut i: usize = 1;
        while i < elems.len()
            invariant
                1 <= i <= elems.len(),
                rs == old(self).res(),
                self.res() == rs,
                f0 == old(self)@,
                (self@, t@) == elements_checked(rs, f0, elems@, i as nat),
            decreases elems.len() - i,
        {
            let e = self.check_expr(&elems[i]);
            match e.unify(&t) {
                Some(u) => {
                    t = u;
                },
                None => {
                    self.error(
                        elems[i].span(),
                        cat5(
                            "array element has type `",
                            e.display().as_str(),
                            "` but earlier elements have type `",
                            t.display().as_str(),
                            "`",
                        ),
                    );
                    t = Ty::Error;
                },
            }
            i += 1;
        }
        Ty::Array(Box::new(t), elems.len())
    }

    #[verifier::spinoff_prover]
    fn check_if(&mut self, e: &Expr) -> (r: Ty)
        requires
            e is If,
        ensures
            (final(self)@, r@) == checked_inside(old(self).res(), old(self)@, *e),
            final(self).res() == old(self).res(),
        decreases e, 0nat,
    {
        match e {
            Expr::If { cond, then_branch, else_branch, span } => {
                let c = self.check_expr(cond);
                self.want_bool("if condition", &c, cond.span());
                let a = self.check_block(then_branch);
                match else_branch {
                    Some(eb) => {
                        let b = self.check_expr(eb);
                        match a.unify(&b) {
                            Some(t) => t,
                            None => {
                                self.error(
                                    *span,
                                    cat5(
                                        "`if` branches have different types: `",
                                        a.display().as_str(),
                                        "` vs `",
                                        b.display().as_str(),
                                        "`",
                                    ),
                                );
                                Ty::Error
                            },
                        }
                    },
                    None => {
                        if !a.compatible(&Ty::Unit) {
                            self.error(
                                then_branch.span,
                                cat3(
                                    "`if` without `else` must yield `()`, found `",
                                    a.display().as_str(),
                                    "`",
                                ),
                            );
                        }
                        Ty::Unit
                    },
                }
            },
            _ => Ty::Error,
        }
    }

    #[verifier::spinoff_prover]
    fn check_for(&mut self, e: &Expr) -> (r: Ty)
        requires
            e is For,
        ensures
            (final(self)@, r@) == checked_inside(old(self).res(), old(self)@, *e),
            final(self).res() == old(self).res(),
        decreases e, 0nat,
    {
        match e {
            Expr::For { pat, iter, body, .. } => {
                let t = match &**iter {
                    Expr::Range { start, end, .. } => {
                        self.check_bound(start, "range endpoints must be integers");
                        self.check_bound(end, "range endpoints must be integers");
                        Ty::Int(IntTy::I64)
                    },
                    _ => {
                        let it = self.check_expr(iter);
                        self.type_items(it, iter.span())
                    },
                };
                self.bind_pattern(pat, &t);
                let _ = self.check_block(body);
                Ty::Unit
            },
            _ => Ty::Error,
        }
    }

    fn check_return(&mut self, e: &Expr) -> (r: Ty)
        requires
            e is Return,
        ensures
            (final(self)@, r@) == checked_inside(old(self).res(), old(self)@, *e),
            final(self).res() == old(self).res(),
        decreases e, 0nat,
    {
        match e {
            Expr::Return { value, span } => {
                let wanted = self.facts.return_type();
                let t = self.check_opt(value);
                let value_span = match value {
                    Some(v) => v.span(),
                    None => *span,
                };
                if !self.check_assignable(value_span, &t, &wanted) {
                    self.error(
                        *span,
                        cat5(
                            "return value has type `",
                            t.display().as_str(),
                            "` but function returns `",
                            wanted.display().as_str(),
                            "`",
                        ),
                    );
                }
                Ty::Never
            },
            _ => Ty::Error,
        }
    }

    #[verifier::spinoff_prover]
    fn check_arms(&mut self, arms: &Vec<MatchArm>, t: &Ty) -> (r: Option<Ty>)
        ensures
            (final(self)@, opt_view(r)) == arms_checked(old(self).res(), old(self)@, arms@, t@, arms@.len()),
            final(self).res() == old(self).res(),
        decreases arms, 0nat,
    {
        let ghost rs = self.res();
        let ghost f0 = self@;
        let mut result: Option<Ty> = None;
        let mut i: usize = 0;
        while i < arms.len()
            invariant
                i <= arms.len(),
                rs == old(self).res(),
                self.res() == rs,
                f0 == old(self)@,
                (self@, opt_view(result)) == arms_checked(rs, f0, arms@, t@, i as nat),
            decreases arms.len() - i,
        {
            let arm = &arms[i];
            assert(decreases_to!(arms => arm));
            self.check_pattern_matches(&arm.pat, t);
            self.bind_pattern(&arm.pat, t);
            match &arm.guard {
                Some(g) => {
                    let gt = self.check_expr(g);
                    self.want_bool("match guard", &gt, g.span());
                },
                None => {},
            }
            let b = self.check_expr(&arm.body);
            let next = match &result {
                None => b,
                Some(before) => match before.unify(&b) {
                    Some(u) => u,
                    None => {
                        self.error(
                            arm.body.span(),
                            cat5(
                                "match arm has type `",
                                b.display().as_str(),
                                "` but previous arms had type `",
                                before.display().as_str(),
                                "`",
                            ),
                        );
                        Ty::Error
                    },
                },
            };
            result = Some(next);
            i += 1;
        }
        result
    }

    #[verifier::spinoff_prover]
    fn check_call(&mut self, e: &Expr) -> (r: Ty)
        ensures
            (final(self)@, r@) == checked_call(old(self).res(), old(self)@, *e),
            final(self).res() == old(self).res(),
        decreases e, 0nat,
    {
        let res = self.res;
        match e {
            Expr::Call { callee, args, span } => {
                let known = match &**callee {
                    Expr::Path(p) => match target(res, p.span) {
                        Some(s) => match kind_of(res, s) {
                            Some(k) => Some((s, k)),
                            None => None,
                        },
                        None => None,
                    },
                    _ => None,
                };
                match known {
                    Some((_, SymbolKind::PolyBuiltinFn(name))) => {
                        let ts = self.check_exprs(args);
                        self.type_poly(*name, args, ts, *span)
                    },
                    Some((v, SymbolKind::EnumVariant { enum_sym, .. })) => self.check_enum_variant_call(
                        v,
                        *enum_sym,
                        args,
                        *span,
                    ),
                    _ => {
                        let c = self.check_expr(callee);
                        let ts = self.check_exprs(args);
                        self.type_call(c, args, ts, *span)
                    },
                }
            },
            _ => Ty::Error,
        }
    }

    fn check_enum_variant_call(&mut self, v: SymbolId, enum_sym: SymbolId, args: &Vec<Expr>, span: Span) -> (r: Ty)
        ensures
            (final(self)@, r@) == variant_call_of(old(self).res(), old(self)@, v, enum_sym, args@, span),
            final(self).res() == old(self).res(),
        decreases args, 1nat,
    {
        let res = self.res;
        let ts = self.resolve_payloads(v);
        assert(ty_views(ts@).len() == ts.len());
        if ts.len() == 0 {
            let m = cat3(
                "variant `",
                name_of(res, v).as_str(),
                "` takes no payload — drop the parentheses",
            );
            self.error(span, m);
            let _ = self.check_exprs(args);
            return uninstantiated(enum_sym);
        }
        if ts.len() != args.len() {
            let m = payload_count(res, v, ts.len(), args.len());
            self.error(span, m);
        }
        let m = self.check_variant_args(&ts, args);
        let xs = generic_args(res.enum_generics.get(&enum_sym), &m);
        assert(ty_views(xs@) == args_learned(view_or(res.enum_generics@, enum_sym, seq![]), ty_map(m@)));
        Ty::Enum(enum_sym, xs)
    }

    fn check_variant_args(&mut self, ts: &Vec<Ty>, args: &Vec<Expr>) -> (r: Table<SymbolId, Ty>)
        ensures
            (final(self)@, ty_map(r@)) == variant_args_checked(old(self).res(), old(self)@, ty_views(ts@), args@, least(ty_views(ts@).len(), args@.len())),
            final(self).res() == old(self).res(),
        decreases args, 0nat,
    {
        let ghost rs = self.res();
        let ghost f0 = self@;
        assert(ty_views(ts@).len() == ts.len());
        let mut m = no_subst();
        let mut i: usize = 0;
        while i < ts.len() && i < args.len()
            invariant
                i <= ts.len(),
                i <= args.len(),
                ty_views(ts@).len() == ts.len(),
                rs == old(self).res(),
                self.res() == rs,
                f0 == old(self)@,
                (self@, ty_map(m@)) == variant_args_checked(rs, f0, ty_views(ts@), args@, i as nat),
            decreases args.len() - i,
        {
            let t = self.check_expr(&args[i]);
            unify_typevars(&ts[i], &t, &mut m);
            let span = args[i].span();
            if !self.check_assignable(span, &t, &ts[i]) {
                self.error(
                    span,
                    cat7(
                        "variant payload ",
                        number(i + 1).as_str(),
                        " has type `",
                        t.display().as_str(),
                        "`, expected `",
                        ts[i].display().as_str(),
                        "`",
                    ),
                );
            }
            i += 1;
        }
        m
    }

    #[verifier::rlimit(40)]
    #[verifier::spinoff_prover]
    fn check_variant_inits(&mut self, v: SymbolId, fs: &Vec<FieldInit>, names: &Vec<String>, ts: &Vec<Ty>)
        ensures
            final(self)@ == variant_inits_checked(old(self).res(), old(self)@, v, fs@, texts(names@), ty_views(ts@), fs@.len()),
            final(self).res() == old(self).res(),
        decreases fs, 0nat,
    {
        let res = self.res;
        let ghost rs = self.res();
        let ghost f0 = self@;
        let mut i: usize = 0;
        while i < fs.len()
            invariant
                i <= fs.len(),
                rs == old(self).res(),
                self.res() == rs,
                f0 == old(self)@,
                self@ == variant_inits_checked(rs, f0, v, fs@, texts(names@), ty_views(ts@), i as nat),
                *res == rs,
            decreases fs.len() - i,
        {
            let init = &fs[i];
            assert(decreases_to!(fs => init));
            let name = init.name.name.as_str();
            if init_before(fs, name, i) {
                self.error(
                    init.name.span,
                    cat3("duplicate field `", name, "` in variant initializer"),
                );
                let _ = self.check_expr(&init.value);
            } else {
                match position_of(names, name) {
                    None => {
                        let m = cat5("no field `", name, "` on variant `", name_of(res, v).as_str(), "`");
                        self.error(init.name.span, m);
                        let _ = self.check_expr(&init.value);
                    },
                    Some(j) => {
                        assert(ty_views(ts@).len() == ts.len());
                        let wanted = if j < ts.len() {
                            ts[j].copy()
                        } else {
                            Ty::Error
                        };
                        let t = self.check_expr(&init.value);
                        if !t.compatible(&wanted) {
                            self.error(
                                init.value.span(),
                                cat7(
                                    "field `",
                                    name,
                                    "` has type `",
                                    t.display().as_str(),
                                    "`, expected `",
                                    wanted.display().as_str(),
                                    "`",
                                ),
                            );
                        }
                    },
                }
            }
            i += 1;
        }
    }

    fn check_missing_inits(&mut self, fs: &Vec<FieldInit>, names: &Vec<String>, what: &str, span: Span)
        ensures
            final(self)@ == missing_inits(old(self)@, fs@, texts(names@), what@, span, names@.len()),
            final(self).res() == old(self).res(),
    {
        let ghost rs = self.res();
        let ghost f0 = self@;
        let mut i: usize = 0;
        while i < names.len()
            invariant
                i <= names.len(),
                rs == old(self).res(),
                self.res() == rs,
                f0 == old(self)@,
                self@ == missing_inits(f0, fs@, texts(names@), what@, span, i as nat),
            decreases names.len() - i,
        {
            if !init_before(fs, names[i].as_str(), fs.len()) {
                self.error(span, cat4("missing field `", names[i].as_str(), "` for ", what));
            }
            i += 1;
        }
    }

    fn check_named_variant_lit(&mut self, v: SymbolId, enum_sym: SymbolId, path_span: Span, fs: &Vec<FieldInit>, span: Span) -> (r: Ty)
        ensures
            (final(self)@, r@) == variant_lit_of(old(self).res(), old(self)@, v, enum_sym, path_span, fs@, span),
            final(self).res() == old(self).res(),
        decreases fs, 1nat,
    {
        let res = self.res;
        match res.enum_variant_field_names.get(&v) {
            None => {
                let name = name_of(res, v);
                let m = cat5(
                    "variant `",
                    name.as_str(),
                    "` is not a struct-style variant — use `",
                    name.as_str(),
                    "(...)` instead",
                );
                self.error(span, m);
            },
            Some(names) => {
                assert(texts(names@).len() == names@.len());
                let ts = self.resolve_payloads(v);
                if fs.len() != names.len() {
                    let m = cat8(
                        "variant `",
                        name_of(res, v).as_str(),
                        "` has ",
                        number(names.len()).as_str(),
                        " field",
                        plural_of(names.len()),
                        ", found ",
                        number(fs.len()).as_str(),
                    );
                    self.error(span, m);
                }
                self.check_variant_inits(v, fs, names, &ts);
                let what = cat3("variant `", name_of(res, v).as_str(), "`");
                self.check_missing_inits(fs, names, what.as_str(), path_span);
            },
        }
        uninstantiated(enum_sym)
    }

    fn check_values(&mut self, fs: &Vec<FieldInit>)
        ensures
            final(self)@ == values_checked(old(self).res(), old(self)@, fs@, fs@.len()),
            final(self).res() == old(self).res(),
        decreases fs, 0nat,
    {
        let ghost rs = self.res();
        let ghost f0 = self@;
        let mut i: usize = 0;
        while i < fs.len()
            invariant
                i <= fs.len(),
                rs == old(self).res(),
                self.res() == rs,
                f0 == old(self)@,
                self@ == values_checked(rs, f0, fs@, i as nat),
            decreases fs.len() - i,
        {
            let _ = self.check_expr(&fs[i].value);
            i += 1;
        }
    }

    fn check_inits(&mut self, struct_name: &str, l: &StructLayout, fs: &Vec<FieldInit>) -> (r: FirstPass)
        ensures
            first_pass(final(self)@, r) == inits_first(
                old(self).res(),
                old(self)@,
                struct_name@,
                layout_view(*l),
                fs@,
                fs@.len(),
            ),
            r.tys.len() == fs.len(),
            final(self).res() == old(self).res(),
        decreases fs, 0nat,
    {
        let ghost rs = self.res();
        let ghost f0 = self@;
        let mut s = FirstPass { tys: Vec::new(), learned: no_subst(), provided: Vec::new() };
        assert(opt_views(s.tys@) =~= seq![]);
        assert(texts(s.provided@) =~= seq![]);
        let mut i: usize = 0;
        while i < fs.len()
            invariant
                i <= fs.len(),
                rs == old(self).res(),
                self.res() == rs,
                f0 == old(self)@,
                s.tys.len() == i,
                first_pass(self@, s) == inits_first(rs, f0, struct_name@, layout_view(*l), fs@, i as nat),
            decreases fs.len() - i,
        {
            let init = &fs[i];
            assert(decreases_to!(fs => init));
            let closure = match init.value {
                Expr::Closure { .. } => true,
                _ => false,
            };
            let ghost before = opt_views(s.tys@);
            if closure {
                s.tys.push(None);
                assert(opt_views(s.tys@) =~= before.push(None));
                self.provide(&mut s, &init.name);
            } else {
                let t = self.check_expr(&init.value);
                match field_type(l, init.name.name.as_str()) {
                    None => {
                        self.error(
                            init.name.span,
                            cat5("`", struct_name, "` has no field `", init.name.name.as_str(), "`"),
                        );
                        s.tys.push(Some(t));
                        assert(opt_views(s.tys@) =~= before.push(Some(t@)));
                    },
                    Some(d) => {
                        unify_typevars(&d, &t, &mut s.learned);
                        s.tys.push(Some(t));
                        assert(opt_views(s.tys@) =~= before.push(Some(t@)));
                        self.provide(&mut s, &init.name);
                    },
                }
            }
            i += 1;
        }
        s
    }

    /// Notes that a literal sets a field.
    fn provide(&mut self, s: &mut FirstPass, name: &Ident)
        ensures
            first_pass(final(self)@, *final(s)) == provided_once(first_pass(old(self)@, *old(s)), *name),
            final(s).tys.len() == old(s).tys.len(),
            final(self).res() == old(self).res(),
    {
        if has_text(&s.provided, name.name.as_str()) {
            self.error(name.span, cat3("field `", name.name.as_str(), "` set more than once"));
        } else {
            let ghost before = texts(s.provided@);
            s.provided.push(name.name.clone());
            assert(texts(s.provided@) =~= before.push(name.name@));
        }
    }

    fn check_fields(&mut self, s: FirstPass, l: &StructLayout, fs: &Vec<FieldInit>) -> (r: Table<SymbolId, Ty>)
        requires
            s.tys.len() == fs.len(),
        ensures
            (final(self)@, ty_map(r@)) == inits_second(
                old(self).res(),
                first_pass(old(self)@, s),
                layout_view(*l),
                fs@,
                fs@.len(),
            ),
            final(self).res() == old(self).res(),
        decreases fs, 0nat,
    {
        let ghost rs = self.res();
        let ghost f0 = self@;
        let ghost s0 = first_pass(f0, s);
        let tys = s.tys;
        let mut m = s.learned;
        let mut i: usize = 0;
        while i < fs.len()
            invariant
                i <= fs.len(),
                tys.len() == fs.len(),
                opt_views(tys@) == s0.tys,
                rs == old(self).res(),
                self.res() == rs,
                s0 == first_pass(old(self)@, s),
                (self@, ty_map(m@)) == inits_second(rs, s0, layout_view(*l), fs@, i as nat),
            decreases fs.len() - i,
        {
            let init = &fs[i];
            assert(decreases_to!(fs => init));
            match field_type(l, init.name.name.as_str()) {
                None => {},
                Some(d) => {
                    let wanted = self.apply_subst(&d, &m, None);
                    assert(s0.tys[i as int] == opt_view(tys@[i as int]));
                    let t = match &tys[i] {
                        Some(t) => t.copy(),
                        None => {
                            let t = self.check_expr_with_hint(&init.value, Some(&wanted));
                            unify_typevars(&d, &t, &mut m);
                            t
                        },
                    };
                    let span = init.value.span();
                    if !self.check_assignable(span, &t, &wanted) {
                        self.error(
                            span,
                            cat7(
                                "field `",
                                init.name.name.as_str(),
                                "` declared `",
                                wanted.display().as_str(),
                                "` but value has type `",
                                t.display().as_str(),
                                "`",
                            ),
                        );
                    }
                },
            }
            i += 1;
        }
        m
    }

    fn check_missing_fields(&mut self, provided: &Vec<String>, l: &StructLayout, struct_name: &str, span: Span)
        ensures
            final(self)@ == missing_fields(
                old(self)@,
                texts(provided@),
                layout_view(*l),
                struct_name@,
                span,
                l.fields@.len(),
            ),
            final(self).res() == old(self).res(),
    {
        let ghost rs = self.res();
        let ghost f0 = self@;
        let mut i: usize = 0;
        while i < l.fields.len()
            invariant
                i <= l.fields.len(),
                rs == old(self).res(),
                self.res() == rs,
                f0 == old(self)@,
                self@ == missing_fields(f0, texts(provided@), layout_view(*l), struct_name@, span, i as nat),
            decreases l.fields.len() - i,
        {
            let name = l.fields[i].name.as_str();
            assert(layout_view(*l).fields[i as int].0 == name@);
            if !has_text(provided, name) {
                self.error(span, cat5("missing field `", name, "` for `", struct_name, "`"));
            }
            i += 1;
        }
    }

    #[verifier::spinoff_prover]
    fn check_struct_lit(&mut self, e: &Expr) -> (r: Ty)
        ensures
            (final(self)@, r@) == struct_lit_of(old(self).res(), old(self)@, *e),
            final(self).res() == old(self).res(),
        decreases e, 0nat,
    {
        let res = self.res;
        match e {
            Expr::StructLit { path, fields, span } => match target(res, path.span) {
                None => Ty::Error,
                Some(s) => match kind_of(res, s) {
                    Some(SymbolKind::EnumVariant { enum_sym, .. }) => self.check_named_variant_lit(
                        s,
                        *enum_sym,
                        path.span,
                        fields,
                        *span,
                    ),
                    Some(SymbolKind::Struct) => {
                        let name = name_of(res, s);
                        let l = match self.facts.layout(s) {
                            Some(l) => Some(copy_layout(l)),
                            None => None,
                        };
                        match l {
                            None => {
                                self.error(path.span, cat3("no layout for struct `", name.as_str(), "`"));
                                Ty::Error
                            },
                            Some(l) => {
                                assert(layout_view(l).fields.len() == l.fields@.len());
                                let first = self.check_inits(name.as_str(), &l, fields);
                                let provided = copy_texts(&first.provided);
                                let m = self.check_fields(first, &l, fields);
                                self.check_missing_fields(&provided, &l, name.as_str(), *span);
                                let xs = generic_args(res.struct_generics.get(&s), &m);
                                assert(ty_views(xs@) == args_learned(
                                    view_or(res.struct_generics@, s, seq![]),
                                    ty_map(m@),
                                ));
                                Ty::Struct(s, xs)
                            },
                        }
                    },
                    _ => {
                        let m = cat3("`", name_of(res, s).as_str(), "` is not a struct");
                        self.error(path.span, m);
                        self.check_values(fields);
                        Ty::Error
                    },
                },
            },
            _ => Ty::Error,
        }
    }

    fn closure_param_types(&mut self, ps: &Vec<ClosureParam>, wanted: &Vec<Ty>) -> (r: Vec<Ty>)
        ensures
            (final(self)@, ty_views(r@)) == closure_params_of(
                old(self).res(),
                old(self)@,
                ps@,
                ty_views(wanted@),
                ps@.len(),
            ),
            final(self).res() == old(self).res(),
    {
        let ghost rs = self.res();
        let ghost f0 = self@;
        assert(ty_views(wanted@).len() == wanted.len());
        let mut out: Vec<Ty> = Vec::new();
        assert(ty_views(out@) =~= seq![]);
        let mut i: usize = 0;
        while i < ps.len()
            invariant
                i <= ps.len(),
                rs == old(self).res(),
                self.res() == rs,
                f0 == old(self)@,
                (self@, ty_views(out@)) == closure_params_of(rs, f0, ps@, ty_views(wanted@), i as nat),
                ty_views(wanted@).len() == wanted.len(),
            decreases ps.len() - i,
        {
            let p = &ps[i];
            let t = match &p.ty {
                Some(t) => self.resolve_type(t),
                None => if i < wanted.len() {
                    wanted[i].copy()
                } else {
                    self.error(
                        p.span,
                        cat3(
                            "closure parameter `",
                            p.name.name.as_str(),
                            "` needs a type annotation (no contextual hint at this position)",
                        ),
                    );
                    Ty::Error
                },
            };
            self.facts.set_local(p.name.span, t.copy());
            let ghost before = ty_views(out@);
            out.push(t);
            assert(ty_views(out@) =~= before.push(t@));
            i += 1;
        }
        out
    }

    fn layout_captures(&self, ids: &Vec<SymbolId>) -> (r: StructLayout)
        ensures
            layout_view(r) == captures_laid_out(self.res(), self@, ids@, ids@.len()),
    {
        let mut out: StructLayout = StructLayout { fields: Vec::new(), size: 0 };
        assert(layout_view(out).fields =~= seq![]);
        let mut i: usize = 0;
        while i < ids.len()
            invariant
                i <= ids.len(),
                layout_view(out) == captures_laid_out(self.res(), self@, ids@, i as nat),
            decreases ids.len() - i,
        {
            let t = or_error(self.facts.local(span_of(self.res, ids[i])));
            add_field(&mut out, name_of(self.res, ids[i]), t);
            i += 1;
        }
        out
    }

    fn finish_closure(&mut self, params: Vec<Ty>, ret: Ty, span: Span) -> (r: Ty)
        ensures
            (final(self)@, r@) == closure_type(old(self).res(), old(self)@, ty_views(params@), ret@, span),
            final(self).res() == old(self).res(),
    {
        let res = self.res;
        let none: Vec<SymbolId> = Vec::new();
        let ids = match res.closure_captures.get(&span) {
            Some(ids) => ids,
            None => &none,
        };
        assert(ids@ =~= captures_of(*res, span));
        if ids.len() > 0 {
            if let Some(s) = res.closure_struct_sym.get(&span) {
                let l = self.layout_captures(ids);
                self.facts.set_layout(*s, l);
                if let Some(c) = res.closure_call_method_sym.get(&span) {
                    let no_args: Vec<Ty> = Vec::new();
                    assert(ty_views(no_args@) =~= seq![]);
                    let own = Ty::Struct(*s, no_args);
                    let mut all: Vec<Ty> = Vec::new();
                    all.push(own);
                    let mut i: usize = 0;
                    while i < params.len()
                        invariant
                            i <= params.len(),
                            all.len() == i + 1,
                            ty_view(all[0]) == TyV::Struct(*s, seq![]),
                            forall|j: int| 1 <= j <= i ==> ty_view(#[trigger] all[j]) == ty_view(params[j - 1]),
                        decreases params.len() - i,
                    {
                        all.push(params[i].copy());
                        i += 1;
                    }
                    assert(ty_views(all@) =~= seq![TyV::Struct(*s, seq![])] + ty_views(params@));
                    self.facts.set_signature(
                        span_of(res, *c),
                        Ty::Fn { params: all, ret: Box::new(ret) },
                    );
                }
                let no_args: Vec<Ty> = Vec::new();
                assert(ty_views(no_args@) =~= seq![]);
                return Ty::Struct(*s, no_args);
            }
        }
        Ty::Fn { params, ret: Box::new(ret) }
    }

    fn begin_closure(&mut self, ps: &Vec<ClosureParam>, span: Span, wanted: Option<&Ty>) -> (r: Vec<Ty>)
        ensures
            (final(self)@, ty_views(r@)) == closure_begun(old(self).res(), old(self)@, ps@, span, opt_ty(wanted)),
            final(self).res() == old(self).res(),
    {
        let none: Vec<Ty> = Vec::new();
        assert(ty_views(none@) =~= seq![]);
        let mut ws = &none;
        if let Some(t) = wanted {
            if let Ty::Fn { params, .. } = t {
                assert(ty_views(params@).len() == params.len());
                if params.len() != ps.len() {
                    self.error(
                        span,
                        cat6(
                            "closure expects ",
                            number(ps.len()).as_str(),
                            " parameter",
                            plural_of(ps.len()),
                            " but the context wants ",
                            number(params.len()).as_str(),
                        ),
                    );
                }
                ws = params;
            }
        }
        let ts = self.closure_param_types(ps, ws);
        self.facts.set_closure_params(span, copy_tys(&ts));
        ts
    }

    fn end_closure(&mut self, ts: Vec<Ty>, t: Ty, body_span: Span, span: Span, wanted: Option<&Ty>) -> (r: Ty)
        ensures
            (final(self)@, r@) == closure_ended(
                old(self).res(),
                old(self)@,
                ty_views(ts@),
                t@,
                body_span,
                span,
                opt_ty(wanted),
            ),
            final(self).res() == old(self).res(),
    {
        if let Some(w) = wanted {
            if let Ty::Fn { ret, .. } = w {
                if !t.compatible(ret) {
                    self.error(
                        body_span,
                        cat5(
                            "closure body returns `",
                            t.display().as_str(),
                            "` but the context wants `",
                            ret.display().as_str(),
                            "`",
                        ),
                    );
                }
            }
        }
        self.facts.set_closure_ret(span, t.copy());
        self.finish_closure(ts, t, span)
    }

    fn check_closure(&mut self, e: &Expr, wanted: Option<&Ty>) -> (r: Ty)
        ensures
            (final(self)@, r@) == closure_of(old(self).res(), old(self)@, *e, opt_ty(wanted)),
            final(self).res() == old(self).res(),
        decreases e, 0nat,
    {
        match e {
            Expr::Closure { params, body, span } => {
                let ts = self.begin_closure(params, *span, wanted);
                let t = self.check_expr(body);
                self.end_closure(ts, t, body.span(), *span, wanted)
            },
            _ => Ty::Error,
        }
    }

    // ---- statements and items ----

    fn check_block(&mut self, b: &Block) -> (r: Ty)
        ensures
            (final(self)@, r@) == block_checked(old(self).res(), old(self)@, *b),
            final(self).res() == old(self).res(),
        decreases b, 1nat,
    {
        self.check_stmts(&b.stmts)
    }

    fn check_stmts(&mut self, ss: &Vec<Stmt>) -> (r: Ty)
        ensures
            (final(self)@, r@) == stmts_checked(old(self).res(), old(self)@, ss@, ss@.len()),
            final(self).res() == old(self).res(),
        decreases ss, 0nat,
    {
        let ghost rs = self.res();
        let ghost f0 = self@;
        let mut t = Ty::Unit;
        let mut i: usize = 0;
        while i < ss.len()
            invariant
                i <= ss.len(),
                rs == old(self).res(),
                self.res() == rs,
                f0 == old(self)@,
                (self@, t@) == stmts_checked(rs, f0, ss@, i as nat),
            decreases ss.len() - i,
        {
            t = self.check_stmt(&ss[i]);
            i += 1;
        }
        t
    }

    #[verifier::spinoff_prover]
    fn check_stmt(&mut self, s: &Stmt) -> (r: Ty)
        ensures
            (final(self)@, r@) == stmt_checked(old(self).res(), old(self)@, *s),
            final(self).res() == old(self).res(),
        decreases s, 1nat,
    {
        match s {
            Stmt::Let(l) => {
                self.check_let(l);
                Ty::Unit
            },
            Stmt::Expr(e, semi) => {
                let t = self.check_expr(e);
                if *semi {
                    Ty::Unit
                } else {
                    t
                }
            },
            Stmt::Item(item) => {
                match item {
                    Item::Fn(d) => self.register_fn(d),
                    Item::Const(c) => self.register_const(c),
                    _ => {},
                }
                self.check_item(item);
                Ty::Unit
            },
        }
    }

    fn end_let(&mut self, l: &LetStmt, declared: Option<Ty>, given: Option<Ty>)
        ensures
            final(self)@ == let_ended(old(self).res(), old(self)@, *l, opt_view(declared), opt_view(given)),
            final(self).res() == old(self).res(),
    {
        match (declared, given) {
            (Some(d), Some(i)) => {
                let keeps = match (&i, &d) {
                    (Ty::Struct(s, _), Ty::Fn { .. }) => self.res.impl_methods.contains(&(*s, "call".to_owned())),
                    _ => false,
                };
                assert(keeps == let_keeps_closure(self.res(), i@, d@));
                if keeps {
                    self.bind_pattern(&l.pat, &i);
                } else {
                    let init_span = match &l.init {
                        Some(e) => e.span(),
                        None => l.span,
                    };
                    if !self.check_assignable(init_span, &i, &d) {
                        self.error(
                            l.span,
                            cat5(
                                "let binding declared `",
                                d.display().as_str(),
                                "` but initializer has type `",
                                i.display().as_str(),
                                "`",
                            ),
                        );
                    }
                    self.bind_pattern(&l.pat, &d);
                }
            },
            (Some(d), None) => self.bind_pattern(&l.pat, &d),
            (None, Some(i)) => self.bind_pattern(&l.pat, &i),
            (None, None) => {
                self.error(l.span, "let binding has neither type nor initializer".to_owned());
                self.bind_pattern(&l.pat, &Ty::Error);
            },
        }
    }

    #[verifier::spinoff_prover]
    fn check_let(&mut self, l: &LetStmt)
        ensures
            final(self)@ == let_checked(old(self).res(), old(self)@, *l),
            final(self).res() == old(self).res(),
        decreases l, 1nat,
    {
        let declared = match &l.ty {
            Some(t) => Some(self.resolve_type(t)),
            None => None,
        };
        let given = match &l.init {
            Some(e) => match &declared {
                Some(d) => Some(self.check_expr_with_hint(e, Some(d))),
                None => Some(self.check_expr_with_hint(e, None)),
            },
            None => None,
        };
        self.end_let(l, declared, given);
    }

    fn bind_params(&mut self, ps: &Vec<Param>, ts: &Vec<Ty>)
        ensures
            final(self)@ == params_bound(
                old(self)@,
                ps@,
                ty_views(ts@),
                least(ps@.len(), ty_views(ts@).len()),
            ),
            final(self).res() == old(self).res(),
    {
        let ghost rs = self.res();
        let ghost f0 = self@;
        assert(ty_views(ts@).len() == ts.len());
        let mut i: usize = 0;
        while i < ps.len() && i < ts.len()
            invariant
                i <= ps.len(),
                i <= ts.len(),
                ty_views(ts@).len() == ts.len(),
                rs == old(self).res(),
                self.res() == rs,
                f0 == old(self)@,
                self@ == params_bound(f0, ps@, ty_views(ts@), i as nat),
            decreases ps.len() - i,
        {
            self.facts.set_local(ps[i].name.span, ts[i].copy());
            i += 1;
        }
    }

    #[verifier::spinoff_prover]
    fn check_fn(&mut self, d: &FnDecl)
        ensures
            final(self)@ == fn_checked(old(self).res(), old(self)@, *d),
            final(self).res() == old(self).res(),
        decreases d, 1nat,
    {
        let sig = self.facts.signature(d.name.span);
        let (ts, ret): (Vec<Ty>, Ty) = match sig {
            Some(Ty::Fn { params, ret }) => (params, *ret),
            _ => {
                let none: Vec<Ty> = Vec::new();
                assert(ty_views(none@) =~= seq![]);
                (none, Ty::Error)
            },
        };
        assert((ty_views(ts@), ret@) == fn_sig(old(self)@, d.name.span));
        self.bind_params(&d.params, &ts);
        let before = self.facts.return_type();
        proof {
            params_keep_return(old(self)@, d.params@, ty_views(ts@), least(d.params@.len(), ty_views(ts@).len()));
        }
        self.facts.set_return(ret.copy());
        let body = self.check_block(&d.body);
        if !body.compatible(&ret) {
            self.error(
                d.body.span,
                cat7(
                    "function `",
                    d.name.name.as_str(),
                    "` returns `",
                    ret.display().as_str(),
                    "` but body has type `",
                    body.display().as_str(),
                    "`",
                ),
            );
        }
        self.facts.set_return(before);
    }

    fn check_default(&mut self, m: &TraitMethodSig)
        ensures
            final(self)@ == default_checked(old(self).res(), old(self)@, *m),
            final(self).res() == old(self).res(),
        decreases m, 1nat,
    {
        let b = match &m.body {
            Some(b) => b,
            None => {
                return;
            },
        };
        let sig = self.facts.signature(m.name.span);
        let (ts, ret): (Vec<Ty>, Ty) = match sig {
            Some(Ty::Fn { params, ret }) => (params, *ret),
            _ => {
                let none: Vec<Ty> = Vec::new();
                assert(ty_views(none@) =~= seq![]);
                (none, Ty::Error)
            },
        };
        assert((ty_views(ts@), ret@) == fn_sig(old(self)@, m.name.span));
        self.bind_params(&m.params, &ts);
        let before = self.facts.return_type();
        proof {
            params_keep_return(old(self)@, m.params@, ty_views(ts@), least(m.params@.len(), ty_views(ts@).len()));
        }
        self.facts.set_return(ret.copy());
        let body = self.check_block(b);
        if !body.compatible(&ret) {
            self.error(
                b.span,
                cat7(
                    "function `",
                    m.name.name.as_str(),
                    "` returns `",
                    ret.display().as_str(),
                    "` but body has type `",
                    body.display().as_str(),
                    "`",
                ),
            );
        }
        self.facts.set_return(before);
    }

    fn check_defaults(&mut self, ms: &Vec<TraitMethodSig>)
        ensures
            final(self)@ == defaults_checked(old(self).res(), old(self)@, ms@, ms@.len()),
            final(self).res() == old(self).res(),
        decreases ms, 0nat,
    {
        let ghost rs = self.res();
        let ghost f0 = self@;
        let mut i: usize = 0;
        while i < ms.len()
            invariant
                i <= ms.len(),
                rs == old(self).res(),
                self.res() == rs,
                f0 == old(self)@,
                self@ == defaults_checked(rs, f0, ms@, i as nat),
            decreases ms.len() - i,
        {
            self.check_default(&ms[i]);
            i += 1;
        }
    }

    fn check_fns(&mut self, ds: &Vec<FnDecl>)
        ensures
            final(self)@ == fns_checked(old(self).res(), old(self)@, ds@, ds@.len()),
            final(self).res() == old(self).res(),
        decreases ds, 0nat,
    {
        let ghost rs = self.res();
        let ghost f0 = self@;
        let mut i: usize = 0;
        while i < ds.len()
            invariant
                i <= ds.len(),
                rs == old(self).res(),
                self.res() == rs,
                f0 == old(self)@,
                self@ == fns_checked(rs, f0, ds@, i as nat),
            decreases ds.len() - i,
        {
            self.check_fn(&ds[i]);
            i += 1;
        }
    }

    #[verifier::spinoff_prover]
    fn check_const(&mut self, c: &ConstDecl)
        ensures
            final(self)@ == const_checked(old(self).res(), old(self)@, *c),
            final(self).res() == old(self).res(),
        decreases c, 1nat,
    {
        let declared = or_error(self.facts.local(c.name.span));
        let t = self.check_expr(&c.value);
        if !t.compatible(&declared) {
            self.error(
                c.value.span(),
                cat7(
                    "const `",
                    c.name.name.as_str(),
                    "` declared as `",
                    declared.display().as_str(),
                    "` but value has type `",
                    t.display().as_str(),
                    "`",
                ),
            );
        }
    }

    #[verifier::spinoff_prover]
    fn check_item(&mut self, item: &Item)
        ensures
            final(self)@ == item_checked(old(self).res(), old(self)@, *item),
            final(self).res() == old(self).res(),
        decreases item, 1nat,
    {
        match item {
            Item::Fn(d) => self.check_fn(d),
            Item::Const(c) => self.check_const(c),
            Item::Impl(b) => {
                let before = self.facts.self_context();
                let inside = match target(self.res, b.type_path.span) {
                    Some(s) => Some(SelfContext::Impl(s)),
                    None => None,
                };
                self.facts.set_self(inside);
                self.check_fns(&b.methods);
                self.check_trait_impl_conformance(b);
                self.facts.set_self(before);
            },
            Item::Trait(t) => {
                let before = self.facts.self_context();
                let inside = match declared(self.res, t.name.span) {
                    Some(s) => Some(SelfContext::Trait(s)),
                    None => None,
                };
                self.facts.set_self(inside);
                self.check_defaults(&t.methods);
                self.facts.set_self(before);
            },
            Item::Mod(m) => self.check_items(&m.items),
            _ => {},
        }
    }

    fn check_items(&mut self, items: &Vec<Item>)
        ensures
            final(self)@ == items_checked(old(self).res(), old(self)@, items@, items@.len()),
            final(self).res() == old(self).res(),
        decreases items, 0nat,
    {
        let ghost rs = self.res();
        let ghost f0 = self@;
        let mut i: usize = 0;
        while i < items.len()
            invariant
                i <= items.len(),
                rs == old(self).res(),
                self.res() == rs,
                f0 == old(self)@,
                self@ == items_checked(rs, f0, items@, i as nat),
            decreases items.len() - i,
        {
            self.check_item(&items[i]);
            i += 1;
        }
    }

    /// A checker for a program whose names are resolved.
    pub fn new(res: &'r Resolutions<'s>) -> (r: Self)
        ensures
            r@ == no_facts(),
            r.res() == *res,
    {
        Checker { res, facts: FactStore::new() }
    }

    /// Checks a module: the struct layouts, then the signatures, then what is
    /// inside the items. The errors are in the order they were found.
    pub fn check_module(self, m: &Module) -> (r: CheckResults)
        requires
            self@ == no_facts(),
        ensures
            reports(r, module_checked(self.res(), *m)),
    {
        let mut passes = self;
        passes.collect_struct_layouts(&m.items);
        passes.register_signatures(&m.items);
        passes.check_items(&m.items);
        passes.facts.finish()
    }
}

proof fn found_conversion_stays(
    res: Resolutions<'_>,
    f: Facts,
    cs: Seq<(&Type, SymbolId)>,
    wanted: TyV,
    i: nat,
    k: nat,
)
    requires
        i <= k <= cs.len(),
        conversion_found(res, f, cs, wanted, i).1 is Some,
    ensures
        conversion_found(res, f, cs, wanted, k) == conversion_found(res, f, cs, wanted, i),
    decreases k,
{
    if i < k {
        found_conversion_stays(res, f, cs, wanted, i, (k - 1) as nat);
    }
}

proof fn params_keep_return(f: Facts, ps: Seq<Param>, ts: Seq<TyV>, k: nat)
    ensures
        params_bound(f, ps, ts, k).current_return == f.current_return,
    decreases k,
{
    if k > 0 && k <= ps.len() && k <= ts.len() {
        params_keep_return(f, ps, ts, (k - 1) as nat);
    }
}

/// A method's parameters after `self`, and what it returns.
struct MethodSig {
    params: Vec<Ty>,
    ret: Ty,
}

spec fn sig_view(s: MethodSig) -> MethodSigV {
    MethodSigV { params: ty_views(s.params@), ret: s.ret@ }
}

spec fn sig_opt(s: Option<MethodSig>) -> Option<MethodSigV> {
    match s {
        Some(s) => Some(sig_view(s)),
        None => None,
    }
}

spec fn opt_view(t: Option<Ty>) -> Option<TyV> {
    match t {
        Some(t) => Some(t@),
        None => None,
    }
}

spec fn opt_views(ts: Seq<Option<Ty>>) -> Seq<Option<TyV>> {
    Seq::new(ts.len(), |i: int| opt_view(ts[i]))
}

/// What the first pass over a struct literal found.
struct FirstPass {
    tys: Vec<Option<Ty>>,
    learned: Table<SymbolId, Ty>,
    provided: Vec<String>,
}

spec fn first_pass(f: Facts, s: FirstPass) -> Inits {
    Inits { f, tys: opt_views(s.tys@), learned: ty_map(s.learned@), provided: texts(s.provided@) }
}

fn or_error(t: Option<Ty>) -> (r: Ty)
    ensures
        r@ == (match t {
            Some(t) => t@,
            None => TyV::Error,
        }),
{
    match t {
        Some(t) => t,
        None => Ty::Error,
    }
}

/// An enum's type before its arguments are known.
fn uninstantiated(e: SymbolId) -> (r: Ty)
    ensures
        r@ == TyV::Enum(e, seq![]),
{
    let args: Vec<Ty> = Vec::new();
    assert(ty_views(args@) =~= seq![]);
    Ty::Enum(e, args)
}

fn sig_of(params: Vec<Ty>, ret: Ty) -> (r: MethodSig)
    ensures
        sig_view(r).params == ty_views(params@),
        params@.len() == 0 ==> sig_view(r).params == Seq::<TyV>::empty(),
        params@.len() == 1 ==> sig_view(r).params == seq![params@[0]@],
        sig_view(r).ret == ret@,
{
    assert(ty_views(params@).len() == params@.len());
    proof {
        if params@.len() == 0 {
            assert(ty_views(params@) =~= Seq::<TyV>::empty());
        }
        if params@.len() == 1 {
            assert(ty_views(params@) =~= seq![params@[0]@]);
        }
    }
    MethodSig { params, ret }
}

fn one_param(t: Ty, ret: Ty) -> (r: MethodSig)
    ensures
        sig_view(r) == (MethodSigV { params: seq![t@], ret: ret@ }),
{
    let mut params: Vec<Ty> = Vec::new();
    params.push(t);
    sig_of(params, ret)
}

/// The methods of the built-in types.
fn resolve_method(recv: &Ty, name: &str) -> (r: Option<MethodSig>)
    ensures
        sig_opt(r) == builtin_method(recv@, name@),
{
    assert(Seq::<TyV>::empty() =~= seq![]);
    match recv {
        Ty::Str => {
            if same_text(name, "len") {
                Some(sig_of(Vec::new(), Ty::Int(IntTy::I64)))
            } else if same_text(name, "is_empty") {
                Some(sig_of(Vec::new(), Ty::Bool))
            } else if same_text(name, "starts_with") || same_text(name, "ends_with") || same_text(
                name,
                "contains",
            ) {
                Some(one_param(Ty::Str, Ty::Bool))
            } else {
                None
            }
        },
        Ty::Array(_, _) => {
            if same_text(name, "len") {
                Some(sig_of(Vec::new(), Ty::Int(IntTy::I64)))
            } else {
                None
            }
        },
        Ty::Vec(e) => {
            if same_text(name, "push") {
                Some(one_param(e.copy(), Ty::Unit))
            } else if same_text(name, "get") {
                Some(one_param(Ty::Int(IntTy::I64), e.copy()))
            } else if same_text(name, "len") {
                Some(sig_of(Vec::new(), Ty::Int(IntTy::I64)))
            } else {
                None
            }
        },
        _ => None,
    }
}

/// The first method of a trait with a name.
fn find_sig(sigs: &Vec<TraitMethodSig>, name: &str) -> (r: Option<usize>)
    ensures
        match r {
            Some(i) => i < sigs.len() && first_where(sig_named(sigs@, name@), sigs@.len()) == Some(i as int),
            None => first_where(sig_named(sigs@, name@), sigs@.len()) is None,
        },
{
    let ghost p = sig_named(sigs@, name@);
    let mut i: usize = 0;
    while i < sigs.len()
        invariant
            i <= sigs.len(),
            p == sig_named(sigs@, name@),
            first_where(p, i as nat) is None,
        decreases sigs.len() - i,
    {
        if same_text(sigs[i].name.name.as_str(), name) {
            proof {
                assert(p(i as int));
                assert(first_where(p, (i + 1) as nat) == Some(i as int));
                found_stays(p, (i + 1) as nat, sigs@.len());
            }
            return Some(i);
        }
        assert(!p(i as int));
        i += 1;
    }
    None
}

fn is_dyn_assoc(t: &Ty) -> (r: bool)
    ensures
        r == is_dyn_projection(t@),
{
    match t {
        Ty::Assoc(b, _) => {
            let inner: &Ty = b;
            assert(inner@ == ty_view(*inner));
            match inner {
                Ty::Dyn(_, _) => true,
                _ => false,
            }
        },
        _ => false,
    }
}

fn collapse_dyn_assoc(t: Ty) -> (r: Ty)
    ensures
        r@ == without_dyn_projection(t@),
{
    if is_dyn_assoc(&t) {
        Ty::Error
    } else {
        t
    }
}

/// Types without projections on trait objects, and whether there were any.
fn collapse_all(ts: Vec<Ty>) -> (r: (Vec<Ty>, bool))
    ensures
        ty_views(r.0@) == ty_views(ts@).map_values(|t: TyV| without_dyn_projection(t)),
        r.1 == exists|i: int| 0 <= i < ty_views(ts@).len() && is_dyn_projection(#[trigger] ty_views(ts@)[i]),
{
    let mut out: Vec<Ty> = Vec::new();
    let mut any = false;
    let mut i: usize = 0;
    while i < ts.len()
        invariant
            i <= ts.len(),
            ty_views(ts@).len() == ts.len(),
            out.len() == i,
            forall|j: int| 0 <= j < i ==> ty_view(#[trigger] out[j]) == without_dyn_projection(ty_view(ts[j])),
            any == exists|j: int| 0 <= j < i && is_dyn_projection(#[trigger] ty_views(ts@)[j]),
        decreases ts.len() - i,
    {
        let one = is_dyn_assoc(&ts[i]);
        assert(ty_views(ts@)[i as int] == ts@[i as int]@);
        proof {
            if any {
                let j = choose|j: int| 0 <= j < i && is_dyn_projection(#[trigger] ty_views(ts@)[j]);
                assert(is_dyn_projection(ty_views(ts@)[j]));
            }
        }
        any = any || one;
        out.push(collapse_dyn_assoc(ts[i].copy()));
        i += 1;
    }
    assert(ty_views(out@) =~= ty_views(ts@).map_values(|t: TyV| without_dyn_projection(t)));
    (out, any)
}

/// The type of a field of a layout.
fn field_type(l: &StructLayout, name: &str) -> (r: Option<Ty>)
    ensures
        match r {
            Some(t) => field_ty(layout_view(*l), name@) == Some(t@),
            None => field_ty(layout_view(*l), name@) is None,
        },
{
    let ghost p = layout_named(layout_view(*l), name@);
    let n = l.fields.len();
    let mut i: usize = 0;
    while i < n
        invariant
            i <= n,
            n == l.fields.len(),
            layout_view(*l).fields.len() == n,
            p == layout_named(layout_view(*l), name@),
            first_where(p, i as nat) is None,
        decreases n - i,
    {
        assert(layout_view(*l).fields[i as int].0 == l.fields@[i as int].name@);
        if same_text(l.fields[i].name.as_str(), name) {
            proof {
                assert(p(i as int));
                assert(first_where(p, (i + 1) as nat) == Some(i as int));
                found_stays(p, (i + 1) as nat, n as nat);
            }
            return Some(l.fields[i].ty.copy());
        }
        assert(!p(i as int));
        i += 1;
    }
    None
}

fn copy_layout(l: &StructLayout) -> (r: StructLayout)
    ensures
        layout_view(r) == layout_view(*l),
{
    let mut fields: Vec<StructLayoutField> = Vec::new();
    let mut i: usize = 0;
    while i < l.fields.len()
        invariant
            i <= l.fields.len(),
            fields.len() == i,
            forall|j: int|
                0 <= j < i ==> (#[trigger] fields[j]).name@ == l.fields[j].name@ && fields[j].ty@ == l.fields[j].ty@
                    && fields[j].offset == l.fields[j].offset,
        decreases l.fields.len() - i,
    {
        let f = &l.fields[i];
        fields.push(StructLayoutField { name: f.name.clone(), ty: f.ty.copy(), offset: f.offset });
        i += 1;
    }
    let r = StructLayout { fields, size: l.size };
    assert(layout_view(r).fields =~= layout_view(*l).fields);
    r
}

/// Whether one of the first `n` fields of a literal has a name.
fn init_before(fs: &Vec<FieldInit>, name: &str, n: usize) -> (r: bool)
    requires
        n <= fs.len(),
    ensures
        r == (first_where(init_at(fs@, name@), n as nat) is Some),
{
    let ghost p = init_at(fs@, name@);
    let mut i: usize = 0;
    while i < n
        invariant
            i <= n <= fs.len(),
            p == init_at(fs@, name@),
            first_where(p, i as nat) is None,
        decreases n - i,
    {
        if same_text(fs[i].name.name.as_str(), name) {
            proof {
                assert(p(i as int));
                assert(first_where(p, (i + 1) as nat) == Some(i as int));
                found_stays(p, (i + 1) as nat, n as nat);
            }
            return true;
        }
        assert(!p(i as int));
        i += 1;
    }
    false
}

fn binop_symbol(op: BinOp) -> (r: &'static str)
    ensures
        r@ == op_text(op),
{
    match op {
        BinOp::Add => "+",
        BinOp::Sub => "-",
        BinOp::Mul => "*",
        BinOp::Div => "/",
        BinOp::Mod => "%",
        BinOp::Eq => "==",
        BinOp::Ne => "!=",
        BinOp::Lt => "<",
        BinOp::Gt => ">",
        BinOp::Le => "<=",
        BinOp::Ge => ">=",
        BinOp::And => "&&",
        BinOp::Or => "||",
        BinOp::BitAnd => "&",
        BinOp::BitOr => "|",
        BinOp::BitXor => "^",
        BinOp::Shl => "<<",
        BinOp::Shr => ">>",
    }
}

fn binop_wants(op: BinOp) -> (r: &'static str)
    ensures
        r@ == op_wants(op),
{
    match op {
        BinOp::Add => "numeric or string",
        BinOp::Sub | BinOp::Mul | BinOp::Div | BinOp::Mod => "numeric",
        BinOp::Eq | BinOp::Ne => "",
        BinOp::Lt | BinOp::Gt | BinOp::Le | BinOp::Ge => "ordered",
        BinOp::And | BinOp::Or => "`bool`",
        BinOp::BitAnd | BinOp::BitOr | BinOp::BitXor | BinOp::Shl | BinOp::Shr => "integer",
    }
}

fn binop_takes(op: BinOp, t: &Ty) -> (r: bool)
    ensures
        r == op_takes(op, t@),
{
    let (is_str, is_char, is_bool) = match t {
        Ty::Str => (true, false, false),
        Ty::Char => (false, true, false),
        Ty::Bool => (false, false, true),
        _ => (false, false, false),
    };
    match op {
        BinOp::Add => is_str || t.is_numeric(),
        BinOp::Sub | BinOp::Mul | BinOp::Div | BinOp::Mod => t.is_numeric(),
        BinOp::Eq | BinOp::Ne => true,
        BinOp::Lt | BinOp::Gt | BinOp::Le | BinOp::Ge => t.is_numeric() || is_char,
        BinOp::And | BinOp::Or => is_bool,
        BinOp::BitAnd | BinOp::BitOr | BinOp::BitXor | BinOp::Shl | BinOp::Shr => t.is_integer(),
    }
}

fn binop_gives(op: BinOp, t: Ty) -> (r: Ty)
    ensures
        r@ == op_gives(op, t@),
{
    match op {
        BinOp::Eq | BinOp::Ne | BinOp::Lt | BinOp::Gt | BinOp::Le | BinOp::Ge | BinOp::And | BinOp::Or => Ty::Bool,
        _ => t,
    }
}

} // verus!
