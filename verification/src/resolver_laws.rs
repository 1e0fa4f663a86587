//! What holds of every resolved module: its declarations, its type parameters
//! and its conversions.

use vstd::prelude::*;

use crate::ast::{
    AssocTypeBinding, FnDecl, GenericParam, ImplBlock, Item, Module, Param, Path, TraitMethodSig,
    Type,
};
use crate::lower::{Ctx, declared_default, declared_fn, declared_items};
use crate::names::{
    Names, SymbolKindV, bound_here, converting, entered, generic_id, generic_interned,
    generics_interned, holds, in_nested, left, name_lookup, no_names, with_default_methods,
    with_supertraits,
};
use crate::names_laws::{
    all_bounds_keep, block_keeps, declaration_keeps, declarations_keep, decls_have_their_spans,
    fn_keeps, fns_keep, generics_keep, impl_generics_keep, item_keeps, items_keep,
    local_scopes_kept, notes_more, opt_type_keeps, params_keep, path_keeps, same_places,
    sig_keeps, sigs_keep, supers_keep, type_keeps, types_keep,
};
use crate::resolver::{
    after_all_bounds, after_bindings, after_builtins, after_conversion, after_cycles,
    after_declarations, after_fn, after_fns, after_impl, after_impl_body, after_impl_trait,
    after_impls, after_items, after_methods, after_module, after_param_names, after_param_types,
    after_params, after_path, after_sig, after_sigs, after_supers, after_type, after_types,
    after_use, after_uses, builtin_names, first_names, fn_named, fn_opened, impl_opened,
    impl_trait, is_conversion, is_pub, item_declared, self_param, sig_opened, trait_opened,
};
use crate::search::first_where;
use crate::table::lookup;
use crate::token::Span;
use crate::ty::SymbolId;

verus! {

// ---- type parameters ----

/// A type parameter keeps its symbol: entering a scope again after leaving it
/// makes no new one, and the name refers to the same symbol there.
pub proof fn type_parameters_keep_their_symbol(st: Names, g: GenericParam)
    requires
        st.scopes.len() > 1,
    ensures
        ({
            let again = entered(left(generic_interned(st, g)));
            &&& generic_id(again, g) == generic_id(st, g)
            &&& generic_interned(again, g).symbols == again.symbols
            &&& name_lookup(generic_interned(again, g), g.name.name@) == Some(generic_id(st, g))
        }),
{
    let once = generic_interned(st, g);
    let again = entered(left(once));
    assert(again.decl_to_sym.contains_key(g.name.span));
    assert(again.decl_to_sym[g.name.span] == generic_id(st, g));
    let twice = generic_interned(again, g);
    let last = twice.scopes.len() - 1;
    assert(twice.scopes[last].contains_key(g.name.name@));
}

// ---- impl blocks ----

proof fn methods_note(
    st: Names,
    ms: Seq<FnDecl>,
    s: SymbolId,
    name: Seq<char>,
    into_at: Option<usize>,
    k: nat,
)
    requires
        k <= ms.len(),
        st.scopes.len() > 0,
    ensures
        local_scopes_kept(st, after_methods(st, ms, s, name, into_at, k)),
        forall|i: int|
            0 <= i < k ==> after_methods(st, ms, s, name, into_at, k).decl_to_sym.contains_key(
                (#[trigger] ms[i]).name.span,
            ),
    decreases k,
{
    if k > 0 {
        methods_note(st, ms, s, name, into_at, (k - 1) as nat);
    }
}

proof fn bindings_note(st: Names, bs: Seq<AssocTypeBinding>, s: SymbolId, k: nat)
    requires
        st.scopes.len() > 0,
    ensures
        local_scopes_kept(st, after_bindings(st, bs, s, k)),
    decreases k,
{
    if k > 0 && k <= bs.len() {
        bindings_note(st, bs, s, (k - 1) as nat);
        type_keeps(after_bindings(st, bs, s, (k - 1) as nat), bs[k - 1].value);
    }
}

proof fn impl_body_notes(st: Names, i: ImplBlock, s: SymbolId)
    requires
        st.scopes.len() > 0,
    ensures
        local_scopes_kept(st, after_impl_body(st, i, s)),
        forall|j: int|
            0 <= j < i.methods@.len() ==> after_impl_body(st, i, s).decl_to_sym.contains_key(
                (#[trigger] i.methods@[j]).name.span,
            ),
{
    let st1 = match i.trait_path {
        Some(p) => after_impl_trait(st, p, s),
        None => st,
    };
    match i.trait_path {
        Some(p) => path_keeps(st, p),
        None => {},
    }
    let name = st1.symbols[s.0 as int].name;
    let into_at = if is_conversion(st1, i) {
        Some(i.span.start)
    } else {
        None
    };
    methods_note(st1, i.methods@, s, name, into_at, i.methods@.len());
    let st2 = after_methods(st1, i.methods@, s, name, into_at, i.methods@.len());
    let st3 = match i.trait_path {
        Some(p) => if is_conversion(st2, i) {
            after_conversion(st2, i, p, s)
        } else {
            st2
        },
        None => st2,
    };
    let st4 = match impl_trait(st3, i) {
        Some(t) => Names { impl_methods: with_default_methods(st3, i.methods@, s, t), ..st3 },
        None => st3,
    };
    assert(local_scopes_kept(st, st4));
    if i.assoc_types@.len() > 0 {
        generics_keep(entered(st4), i.generics@, i.generics@.len());
        let st5 = generics_interned(entered(st4), i.generics@, i.generics@.len()).0;
        bindings_note(st5, i.assoc_types@, s, i.assoc_types@.len());
    }
}

/// A path is found, or an error is reported.
proof fn paths_are_found_or_reported(st: Names, p: Path)
    ensures
        after_path(st, p).path_to_sym.contains_key(p.span) || after_path(st, p).errors.len() > st.errors.len(),
{
    types_keep(st, p.generic_args@, p.generic_args@.len());
}

proof fn impl_notes(st: Names, i: ImplBlock)
    requires
        st.scopes.len() > 0,
    ensures
        local_scopes_kept(st, after_impl(st, i)),
        after_impl(st, i).errors.len() > st.errors.len() || forall|j: int|
            0 <= j < i.methods@.len() ==> after_impl(st, i).decl_to_sym.contains_key(
                (#[trigger] i.methods@[j]).name.span,
            ),
{
    generics_keep(entered(st), i.generics@, i.generics@.len());
    let st1 = generics_interned(entered(st), i.generics@, i.generics@.len()).0;
    path_keeps(st1, i.type_path);
    paths_are_found_or_reported(st1, i.type_path);
    let st2 = left(after_path(st1, i.type_path));
    assert(local_scopes_kept(st, st2));
    if st2.path_to_sym.contains_key(i.type_path.span) {
        let s = st2.path_to_sym[i.type_path.span];
        if st2.kind(s) is Struct {
            impl_body_notes(st2, i, s);
        }
    }
}

/// Whether every function and method, of nested modules too, has its name
/// among the declarations.
pub open spec fn names_declared(d: Map<Span, SymbolId>, items: Seq<Item>, impls: bool) -> bool
    decreases items,
{
    forall|i: int|
        0 <= i < items.len() ==> match #[trigger] items[i] {
            Item::Fn(f) => !impls ==> d.contains_key(f.name.span),
            Item::Impl(b) => impls ==> forall|j: int|
                0 <= j < b.methods@.len() ==> d.contains_key((#[trigger] b.methods@[j]).name.span),
            Item::Mod(m) => names_declared(d, m.items@, impls),
            _ => true,
        }
}

proof fn declared_names_stay(d: Map<Span, SymbolId>, more: Map<Span, SymbolId>, items: Seq<Item>, impls: bool)
    requires
        names_declared(d, items, impls),
        forall|sp: Span| d.contains_key(sp) ==> #[trigger] more.contains_key(sp),
    ensures
        names_declared(more, items, impls),
    decreases items,
{
    assert forall|i: int| 0 <= i < items.len() implies match #[trigger] items[i] {
        Item::Fn(f) => !impls ==> more.contains_key(f.name.span),
        Item::Impl(b) => impls ==> forall|j: int|
            0 <= j < b.methods@.len() ==> more.contains_key((#[trigger] b.methods@[j]).name.span),
        Item::Mod(m) => names_declared(more, m.items@, impls),
        _ => true,
    } by {
        match items[i] {
            Item::Mod(m) => declared_names_stay(d, more, m.items@, impls),
            _ => {},
        }
    }
}

/// The same of the first items only.
spec fn first_declared(d: Map<Span, SymbolId>, items: Seq<Item>, impls: bool, k: nat) -> bool {
    forall|i: int|
        0 <= i < items.len() && i < k ==> match #[trigger] items[i] {
            Item::Fn(f) => !impls ==> d.contains_key(f.name.span),
            Item::Impl(b) => impls ==> forall|j: int|
                0 <= j < b.methods@.len() ==> d.contains_key((#[trigger] b.methods@[j]).name.span),
            Item::Mod(m) => names_declared(d, m.items@, impls),
            _ => true,
        }
}

proof fn first_declared_stay(d: Map<Span, SymbolId>, more: Map<Span, SymbolId>, items: Seq<Item>, impls: bool, k: nat)
    requires
        first_declared(d, items, impls, k),
        forall|sp: Span| d.contains_key(sp) ==> #[trigger] more.contains_key(sp),
    ensures
        first_declared(more, items, impls, k),
{
    assert forall|i: int| 0 <= i < items.len() && i < k implies match #[trigger] items[i] {
        Item::Fn(f) => !impls ==> more.contains_key(f.name.span),
        Item::Impl(b) => impls ==> forall|j: int|
            0 <= j < b.methods@.len() ==> more.contains_key((#[trigger] b.methods@[j]).name.span),
        Item::Mod(m) => names_declared(more, m.items@, impls),
        _ => true,
    } by {
        match items[i] {
            Item::Mod(m) => declared_names_stay(d, more, m.items@, impls),
            _ => {},
        }
    }
}

proof fn declaring_names(st: Names, items: Seq<Item>, k: nat)
    requires
        st.scopes.len() > 0,
        k <= items.len(),
    ensures
        first_declared(after_declarations(st, items, k).decl_to_sym, items, false, k),
    decreases items, k,
{
    if k > 0 {
        declaring_names(st, items, (k - 1) as nat);
        declarations_keep(st, items, (k - 1) as nat);
        let before = after_declarations(st, items, (k - 1) as nat);
        let after = after_declarations(st, items, k);
        declaration_keeps(before, items[k - 1]);
        first_declared_stay(before.decl_to_sym, after.decl_to_sym, items, false, (k - 1) as nat);
        match items[k - 1] {
            Item::Mod(m) => {
                let st1 = in_nested(
                    item_declared(before, m.name, SymbolKindV::Module, m.name.name@, is_pub(m.vis)),
                    m.name.name@,
                );
                declaring_names(st1, m.items@, m.items@.len());
                let inside = after_declarations(st1, m.items@, m.items@.len());
                assert(names_declared(inside.decl_to_sym, m.items@, false));
                assert(after.decl_to_sym == inside.decl_to_sym);
            },
            _ => {},
        }
    }
}

proof fn impls_note(st: Names, items: Seq<Item>, k: nat)
    requires
        st.scopes.len() > 0,
        k <= items.len(),
    ensures
        local_scopes_kept(st, after_impls(st, items, k)),
        after_impls(st, items, k).errors.len() > st.errors.len() || first_declared(
            after_impls(st, items, k).decl_to_sym,
            items,
            true,
            k,
        ),
    decreases items, k,
{
    if k > 0 {
        impls_note(st, items, (k - 1) as nat);
        let before = after_impls(st, items, (k - 1) as nat);
        let after = after_impls(st, items, k);
        match items[k - 1] {
            Item::Impl(i) => {
                impl_notes(before, i);
                if first_declared(before.decl_to_sym, items, true, (k - 1) as nat) {
                    first_declared_stay(before.decl_to_sym, after.decl_to_sym, items, true, (k - 1) as nat);
                }
            },
            Item::Mod(m) => {
                let st1 = in_nested(before, m.name.name@);
                impls_note(st1, m.items@, m.items@.len());
                let inside = after_impls(st1, m.items@, m.items@.len());
                assert(st1.current_path.drop_last() =~= before.current_path);
                assert(after.decl_to_sym == inside.decl_to_sym);
                if first_declared(before.decl_to_sym, items, true, (k - 1) as nat) {
                    first_declared_stay(before.decl_to_sym, after.decl_to_sym, items, true, (k - 1) as nat);
                }
                if first_declared(inside.decl_to_sym, m.items@, true, m.items@.len()) {
                    assert(names_declared(inside.decl_to_sym, m.items@, true));
                }
            },
            _ => {},
        }
    }
}

/// What an import changes beside the names of the global scope.
proof fn uses_note(st: Names, items: Seq<Item>, k: nat)
    requires
        st.scopes.len() > 0,
        k <= items.len(),
    ensures
        local_scopes_kept(st, after_uses(st, items, k)),
        after_uses(st, items, k).decl_to_sym == st.decl_to_sym,
        after_uses(st, items, k).symbols == st.symbols,
    decreases items, k,
{
    if k > 0 {
        uses_note(st, items, (k - 1) as nat);
        let before = after_uses(st, items, (k - 1) as nat);
        match items[k - 1] {
            Item::Use(u) => {
                assert(notes_more(before, after_use(before, u)));
            },
            Item::Mod(m) => {
                let st1 = in_nested(before, m.name.name@);
                uses_note(st1, m.items@, m.items@.len());
                assert(st1.current_path.drop_last() =~= before.current_path);
            },
            _ => {},
        }
    }
}

proof fn cycles_note(st: Names, order: Seq<SymbolId>, k: nat)
    ensures
        same_places(st, after_cycles(st, order, k)),
    decreases k,
{
    if k > 0 && k <= order.len() {
        cycles_note(st, order, (k - 1) as nat);
    }
}

// ---- parameters ----

pub open spec fn params_declared(d: Map<Span, SymbolId>, ps: Seq<Param>) -> bool {
    forall|i: int| 0 <= i < ps.len() ==> d.contains_key((#[trigger] ps[i]).name.span)
}

proof fn declaring_params(st: Names, ps: Seq<Param>, k: nat)
    requires
        st.scopes.len() > 0,
        k <= ps.len(),
    ensures
        forall|i: int| 0 <= i < k ==> after_params(st, ps, k).decl_to_sym.contains_key((#[trigger] ps[i]).name.span),
    decreases k,
{
    if k > 0 {
        declaring_params(st, ps, (k - 1) as nat);
        params_keep(st, ps, (k - 1) as nat);
        type_keeps(after_params(st, ps, (k - 1) as nat), ps[k - 1].ty);
    }
}

proof fn fn_declares_params(st: Names, f: FnDecl)
    requires
        st.scopes.len() > 0,
    ensures
        params_declared(after_fn(st, f).decl_to_sym, f.params@),
{
    let (st1, ids) = generics_interned(entered(st), f.generics@, f.generics@.len());
    generics_keep(entered(st), f.generics@, f.generics@.len());
    all_bounds_keep(st1, f.generics@, ids, f.generics@.len());
    let st2 = after_all_bounds(st1, f.generics@, ids, f.generics@.len());
    declaring_params(st2, f.params@, f.params@.len());
    params_keep(st2, f.params@, f.params@.len());
    opt_type_keeps(after_params(st2, f.params@, f.params@.len()), f.return_type);
    block_keeps(fn_opened(st, f), f.body);
}

proof fn fns_declare_params(st: Names, fs: Seq<FnDecl>, k: nat)
    requires
        st.scopes.len() > 0,
        k <= fs.len(),
    ensures
        forall|i: int| 0 <= i < k ==> params_declared(after_fns(st, fs, k).decl_to_sym, (#[trigger] fs[i]).params@),
    decreases k,
{
    if k > 0 {
        fns_declare_params(st, fs, (k - 1) as nat);
        fns_keep(st, fs, (k - 1) as nat);
        let before = after_fns(st, fs, (k - 1) as nat);
        fn_declares_params(before, fs[k - 1]);
        fn_keeps(before, fs[k - 1]);
        assert forall|i: int| 0 <= i < k implies params_declared(
            after_fns(st, fs, k).decl_to_sym,
            (#[trigger] fs[i]).params@,
        ) by {
            if i < k - 1 {
                assert(params_declared(before.decl_to_sym, fs[i].params@));
            }
        }
    }
}

/// Whether the parameters of a trait's method are declared, where it has a
/// default body.
pub open spec fn sig_declared(d: Map<Span, SymbolId>, m: TraitMethodSig) -> bool {
    m.body is Some ==> params_declared(d, m.params@)
}

proof fn declaring_param_names(st: Names, ps: Seq<Param>, k: nat)
    requires
        st.scopes.len() > 0,
        k <= ps.len(),
    ensures
        after_param_names(st, ps, k).scopes.len() == st.scopes.len(),
        forall|i: int|
            0 <= i < k ==> after_param_names(st, ps, k).decl_to_sym.contains_key((#[trigger] ps[i]).name.span),
    decreases k,
{
    if k > 0 {
        declaring_param_names(st, ps, (k - 1) as nat);
    }
}

proof fn sig_declares_params(st: Names, m: TraitMethodSig, trait_span: Span)
    requires
        st.scopes.len() > 0,
    ensures
        sig_declared(after_sig(st, m, trait_span).decl_to_sym, m),
{
    let st1 = entered(st);
    let st2 = match self_param(st1, trait_span, m.name.name@) {
        Some(id) => bound_here(st1, "Self"@, id),
        None => st1,
    };
    params_keep(st2, m.params@, m.params@.len());
    opt_type_keeps(after_param_types(st2, m.params@, m.params@.len()), m.return_type);
    let st3 = sig_opened(st, m, trait_span);
    declaring_param_names(st3, m.params@, m.params@.len());
    match m.body {
        Some(b) => block_keeps(after_param_names(st3, m.params@, m.params@.len()), b),
        None => {},
    }
}

proof fn sigs_declare_params(st: Names, ms: Seq<TraitMethodSig>, trait_span: Span, k: nat)
    requires
        st.scopes.len() > 0,
        k <= ms.len(),
    ensures
        forall|i: int| 0 <= i < k ==> sig_declared(after_sigs(st, ms, trait_span, k).decl_to_sym, #[trigger] ms[i]),
    decreases k,
{
    if k > 0 {
        sigs_declare_params(st, ms, trait_span, (k - 1) as nat);
        sigs_keep(st, ms, trait_span, (k - 1) as nat);
        let before = after_sigs(st, ms, trait_span, (k - 1) as nat);
        sig_declares_params(before, ms[k - 1], trait_span);
        sig_keeps(before, ms[k - 1], trait_span);
        assert forall|i: int| 0 <= i < k implies sig_declared(
            after_sigs(st, ms, trait_span, k).decl_to_sym,
            #[trigger] ms[i],
        ) by {
            if i < k - 1 {
                assert(sig_declared(before.decl_to_sym, ms[i]));
            }
        }
    }
}

/// Whether the parameters of every function, method and default method are
/// declared.
pub open spec fn all_params_declared(d: Map<Span, SymbolId>, items: Seq<Item>) -> bool
    decreases items,
{
    forall|i: int|
        0 <= i < items.len() ==> match #[trigger] items[i] {
            Item::Fn(f) => params_declared(d, f.params@),
            Item::Impl(b) => forall|j: int|
                0 <= j < b.methods@.len() ==> params_declared(d, (#[trigger] b.methods@[j]).params@),
            Item::Trait(t) => forall|j: int|
                0 <= j < t.methods@.len() ==> sig_declared(d, #[trigger] t.methods@[j]),
            Item::Mod(m) => all_params_declared(d, m.items@),
            _ => true,
        }
}

spec fn first_params_declared(d: Map<Span, SymbolId>, items: Seq<Item>, k: nat) -> bool {
    forall|i: int|
        0 <= i < items.len() && i < k ==> match #[trigger] items[i] {
            Item::Fn(f) => params_declared(d, f.params@),
            Item::Impl(b) => forall|j: int|
                0 <= j < b.methods@.len() ==> params_declared(d, (#[trigger] b.methods@[j]).params@),
            Item::Trait(t) => forall|j: int|
                0 <= j < t.methods@.len() ==> sig_declared(d, #[trigger] t.methods@[j]),
            Item::Mod(m) => all_params_declared(d, m.items@),
            _ => true,
        }
}

proof fn declared_params_stay(d: Map<Span, SymbolId>, more: Map<Span, SymbolId>, items: Seq<Item>)
    requires
        all_params_declared(d, items),
        forall|sp: Span| d.contains_key(sp) ==> #[trigger] more.contains_key(sp),
    ensures
        all_params_declared(more, items),
    decreases items,
{
    assert forall|i: int| 0 <= i < items.len() implies match #[trigger] items[i] {
        Item::Fn(f) => params_declared(more, f.params@),
        Item::Impl(b) => forall|j: int|
            0 <= j < b.methods@.len() ==> params_declared(more, (#[trigger] b.methods@[j]).params@),
        Item::Trait(t) => forall|j: int|
            0 <= j < t.methods@.len() ==> sig_declared(more, #[trigger] t.methods@[j]),
        Item::Mod(m) => all_params_declared(more, m.items@),
        _ => true,
    } by {
        match items[i] {
            Item::Trait(t) => {
                assert forall|j: int| 0 <= j < t.methods@.len() implies sig_declared(
                    more,
                    #[trigger] t.methods@[j],
                ) by {
                    assert(sig_declared(d, t.methods@[j]));
                }
            },
            Item::Impl(b) => {
                assert forall|j: int| 0 <= j < b.methods@.len() implies params_declared(
                    more,
                    (#[trigger] b.methods@[j]).params@,
                ) by {
                    assert(params_declared(d, b.methods@[j].params@));
                }
            },
            Item::Mod(m) => declared_params_stay(d, more, m.items@),
            _ => {},
        }
    }
}

proof fn items_declare_params(st: Names, items: Seq<Item>, k: nat)
    requires
        st.scopes.len() > 0,
        k <= items.len(),
    ensures
        first_params_declared(after_items(st, items, k).decl_to_sym, items, k),
    decreases items, k,
{
    if k > 0 {
        items_declare_params(st, items, (k - 1) as nat);
        items_keep(st, items, (k - 1) as nat);
        let before = after_items(st, items, (k - 1) as nat);
        let after = after_items(st, items, k);
        let item = items[k - 1];
        item_keeps(before, item);
        match item {
            Item::Fn(f) => fn_declares_params(before, f),
            Item::Impl(i) => {
                match lookup(before.path_to_sym, i.type_path.span) {
                    Some(s) => match lookup(before.struct_generics, s) {
                        Some(to) => impl_generics_keep(before, i.generics@, to, i.generics@.len()),
                        None => {},
                    },
                    None => {},
                }
                fns_declare_params(impl_opened(before, i), i.methods@, i.methods@.len());
            },
            Item::Trait(t) => {
                supers_keep(before, t.supertraits@, t.supertraits@.len());
                let st1 = if before.decl_to_sym.contains_key(t.name.span) {
                    let (st0, supers) = after_supers(before, t.supertraits@, t.supertraits@.len());
                    with_supertraits(st0, before.decl_to_sym[t.name.span], supers)
                } else {
                    before
                };
                generics_keep(entered(st1), t.generics@, t.generics@.len());
                sigs_declare_params(trait_opened(before, t), t.methods@, t.name.span, t.methods@.len());
            },
            Item::Mod(m) => {
                let st1 = in_nested(before, m.name.name@);
                items_declare_params(st1, m.items@, m.items@.len());
                let inside = after_items(st1, m.items@, m.items@.len());
                assert(all_params_declared(inside.decl_to_sym, m.items@));
                assert(after.decl_to_sym == inside.decl_to_sym);
            },
            _ => {},
        }
        let d = before.decl_to_sym;
        let more = after.decl_to_sym;
        assert forall|i: int| 0 <= i < items.len() && i < k implies match #[trigger] items[i] {
            Item::Fn(f) => params_declared(more, f.params@),
            Item::Impl(b) => forall|j: int|
                0 <= j < b.methods@.len() ==> params_declared(more, (#[trigger] b.methods@[j]).params@),
            Item::Trait(t) => forall|j: int|
                0 <= j < t.methods@.len() ==> sig_declared(more, #[trigger] t.methods@[j]),
            Item::Mod(m) => all_params_declared(more, m.items@),
            _ => true,
        } by {
            if i < k - 1 {
                match items[i] {
                    Item::Trait(t) => {
                        assert forall|j: int| 0 <= j < t.methods@.len() implies sig_declared(
                            more,
                            #[trigger] t.methods@[j],
                        ) by {
                            assert(sig_declared(d, t.methods@[j]));
                        }
                    },
                    Item::Impl(b) => {
                        assert forall|j: int| 0 <= j < b.methods@.len() implies params_declared(
                            more,
                            (#[trigger] b.methods@[j]).params@,
                        ) by {
                            assert(params_declared(d, b.methods@[j].params@));
                        }
                    },
                    Item::Mod(m) => declared_params_stay(d, more, m.items@),
                    _ => {},
                }
            }
        }
    }
}

// ---- whole modules ----

/// The symbol that a span declares has that span, in every module: at the end
/// of resolution when it holds at the start, which it does when nothing but
/// the built-in names is there.
pub proof fn declared_symbols_have_their_span(st: Names, m: Module)
    requires
        st.scopes.len() > 0,
        decls_have_their_spans(st),
        after_module(st, m).symbols.len() <= 0x1_0000_0000,
    ensures
        decls_have_their_spans(after_module(st, m)),
{
    module_notes(st, m);
}

/// Before anything is declared the span of no symbol is noted.
pub proof fn the_first_names_declare_nothing()
    ensures
        decls_have_their_spans(first_names()),
        first_names().scopes.len() > 0,
        first_names().errors.len() == 0,
{
    builtins_declare_nothing(builtin_names().len());
}

proof fn builtins_declare_nothing(k: nat)
    ensures
        ({
            let st = after_builtins(no_names(), builtin_names(), k);
            &&& st.decl_to_sym == Map::<Span, SymbolId>::empty()
            &&& st.scopes.len() == 1
            &&& st.errors.len() == 0
        }),
    decreases k,
{
    if k > 0 && k <= builtin_names().len() {
        builtins_declare_nothing((k - 1) as nat);
    }
}

proof fn module_notes(st: Names, m: Module)
    requires
        st.scopes.len() > 0,
    ensures
        notes_more(st, after_module(st, m)),
        after_module(st, m).errors.len() == st.errors.len() ==> {
            let d = after_module(st, m).decl_to_sym;
            &&& names_declared(d, m.items@, false)
            &&& names_declared(d, m.items@, true)
            &&& all_params_declared(d, m.items@)
        },
{
    let items = m.items@;
    let n = items.len();
    let st1 = after_declarations(st, items, n);
    let st2 = after_impls(st1, items, n);
    let st3 = after_uses(st2, items, n);
    let st4 = after_items(st3, items, n);
    let end = after_module(st, m);
    declarations_keep(st, items, n);
    declaring_names(st, items, n);
    impls_note(st1, items, n);
    uses_note(st2, items, n);
    items_keep(st3, items, n);
    items_declare_params(st3, items, n);
    cycles_note(st4, st4.supertrait_order, st4.supertrait_order.len());
    assert(names_declared(st1.decl_to_sym, items, false));
    assert forall|sp: Span| st1.decl_to_sym.contains_key(sp) implies #[trigger] end.decl_to_sym.contains_key(sp) by {
        assert(st2.decl_to_sym.contains_key(sp));
        assert(st4.decl_to_sym.contains_key(sp));
    }
    declared_names_stay(st1.decl_to_sym, end.decl_to_sym, items, false);
    assert(all_params_declared(st4.decl_to_sym, items));
    if end.errors.len() == st.errors.len() {
        assert(first_declared(st2.decl_to_sym, items, true, n));
        assert(names_declared(st2.decl_to_sym, items, true));
        assert forall|sp: Span| st2.decl_to_sym.contains_key(sp) implies #[trigger] end.decl_to_sym.contains_key(
            sp,
        ) by {
            assert(st4.decl_to_sym.contains_key(sp));
        }
        declared_names_stay(st2.decl_to_sym, end.decl_to_sym, items, true);
    }
}

proof fn all_declared(cx: Ctx<'_, '_>, items: Seq<Item>)
    requires
        names_declared(cx.res.decl_to_sym@, items, false),
        names_declared(cx.res.decl_to_sym@, items, true),
        all_params_declared(cx.res.decl_to_sym@, items),
    ensures
        declared_items(cx, items),
    decreases items,
{
    assert forall|i: int| 0 <= i < items.len() implies match #[trigger] items[i] {
        Item::Fn(f) => declared_fn(cx, f),
        Item::Impl(b) => forall|j: int| 0 <= j < b.methods@.len() ==> declared_fn(cx, #[trigger] b.methods@[j]),
        Item::Trait(t) => forall|j: int|
            0 <= j < t.methods@.len() ==> declared_default(cx, #[trigger] t.methods@[j]),
        Item::Mod(m) => declared_items(cx, m.items@),
        _ => true,
    } by {
        match items[i] {
            Item::Impl(b) => {
                assert forall|j: int| 0 <= j < b.methods@.len() implies declared_fn(cx, #[trigger] b.methods@[j]) by {
                    assert(params_declared(cx.res.decl_to_sym@, b.methods@[j].params@));
                }
            },
            Item::Trait(t) => {
                assert forall|j: int| 0 <= j < t.methods@.len() implies declared_default(
                    cx,
                    #[trigger] t.methods@[j],
                ) by {
                    assert(sig_declared(cx.res.decl_to_sym@, t.methods@[j]));
                }
            },
            Item::Mod(m) => all_declared(cx, m.items@),
            _ => {},
        }
    }
}

/// A module that resolves without an error has everything declared that
/// lowering asks for.
pub proof fn resolved_modules_can_be_lowered(cx: Ctx<'_, '_>, st: Names, m: Module)
    requires
        st.scopes.len() > 0,
        holds(*cx.res, after_module(st, m)),
        after_module(st, m).errors.len() == st.errors.len(),
    ensures
        declared_items(cx, m.items@),
{
    module_notes(st, m);
    all_declared(cx, m.items@);
}

// ---- conversions ----

/// An impl of a conversion with the one method `into` and a target.
pub open spec fn one_conversion(st: Names, i: ImplBlock, s: SymbolId) -> bool {
    &&& i.trait_path matches Some(p) && p.generic_args@.len() > 0 && ({
        let found = after_impl_trait(st, p, s);
        is_conversion(found, i) && found.knows(impl_trait(found, i)->0)
    })
    &&& i.methods@.len() == 1
    &&& i.methods@[0].name.name@ == "into"@
    &&& i.assoc_types@.len() == 0
}

/// What a conversion's impl adds: its target and a new function, and no error
/// beside those of its trait's path.
proof fn a_conversion_is_noted(st: Names, i: ImplBlock, s: SymbolId)
    requires
        one_conversion(st, i, s),
    ensures
        ({
            let p = i.trait_path->0;
            let before = after_impl_trait(st, p, s);
            let after = after_impl_body(st, i, s);
            &&& after.errors == before.errors
            &&& after.into_impls == converting(before, s, p.generic_args@[0], before.next_id()).into_impls
            &&& after.symbols.len() == before.symbols.len() + 1
        }),
{
    let p = i.trait_path->0;
    let st1 = after_impl_trait(st, p, s);
    let name = st1.symbols[s.0 as int].name;
    let ms = i.methods@;
    let st2 = after_methods(st1, ms, s, name, Some(i.span.start), 1);
    assert(after_methods(st1, ms, s, name, Some(i.span.start), 0) == st1);
    assert(st2.decl_to_sym[ms[0].name.span] == st1.next_id());
    assert(st2.path_to_sym == st1.path_to_sym);
    assert(is_conversion(st2, i)) by {
        let t = impl_trait(st1, i)->0;
        assert(impl_trait(st2, i) == Some(t));
        assert(st2.symbols[t.0 as int] == st1.symbols[t.0 as int]);
    }
    assert(fn_named(ms, "into"@)(0));
    assert(first_where(fn_named(ms, "into"@), 0) is None);
    assert(first_where(fn_named(ms, "into"@), 1) == Some(0int));
}

/// The state after an impl's type, with its type parameters.
pub open spec fn type_of_impl(st: Names, i: ImplBlock) -> Names {
    left(after_path(generics_interned(entered(st), i.generics@, i.generics@.len()).0, i.type_path))
}

/// Whether an impl is of a struct.
pub open spec fn is_impl_of(st: Names, i: ImplBlock, s: SymbolId) -> bool {
    let st1 = type_of_impl(st, i);
    st1.path_to_sym.contains_key(i.type_path.span) && st1.path_to_sym[i.type_path.span] == s && st1.kind(s) is Struct
}

/// The state after the paths of an impl: its type and its trait.
pub open spec fn paths_of_impl(st: Names, i: ImplBlock, s: SymbolId) -> Names {
    match i.trait_path {
        Some(p) => after_impl_trait(type_of_impl(st, i), p, s),
        None => type_of_impl(st, i),
    }
}

/// Two conversions of one struct both stand, in the order they are declared,
/// each with a function of its own; neither is taken for a second definition:
/// the only errors are those of the paths.
pub proof fn conversions_stand_side_by_side(st: Names, i: ImplBlock, j: ImplBlock, s: SymbolId)
    requires
        st.scopes.len() > 0,
        is_impl_of(st, i, s),
        one_conversion(type_of_impl(st, i), i, s),
        is_impl_of(after_impl(st, i), j, s),
        one_conversion(type_of_impl(after_impl(st, i), j), j, s),
        after_impl(after_impl(st, i), j).symbols.len() <= 0x1_0000_0000,
    ensures
        ({
            let first = paths_of_impl(st, i, s);
            let one = after_impl(st, i);
            let second = paths_of_impl(one, j, s);
            let two = after_impl(one, j);
            let given = if st.into_impls.contains_key(s) {
                st.into_impls[s]
            } else {
                seq![]
            };
            &&& two.into_impls.contains_key(s)
            &&& two.into_impls[s] == given.push((i.trait_path->0.generic_args@[0], first.next_id())).push(
                (j.trait_path->0.generic_args@[0], second.next_id()),
            )
            &&& first.next_id() != second.next_id()
            &&& one.errors == first.errors
            &&& two.errors == second.errors
        }),
{
    let one = after_impl(st, i);
    a_conversion_is_noted(type_of_impl(st, i), i, s);
    a_conversion_is_noted(type_of_impl(one, j), j, s);
    impl_notes(st, i);
    types_keep_conversions_of_impl(st, i);
    types_keep_conversions_of_impl(one, j);
    trait_paths_keep_conversions(type_of_impl(st, i), i.trait_path->0, s);
    trait_paths_keep_conversions(type_of_impl(one, j), j.trait_path->0, s);
}

proof fn types_keep_conversions_of_impl(st: Names, i: ImplBlock)
    requires
        st.scopes.len() > 0,
    ensures
        type_of_impl(st, i).into_impls == st.into_impls,
        type_of_impl(st, i).symbols.len() >= st.symbols.len(),
{
    generics_keep(entered(st), i.generics@, i.generics@.len());
    generics_keep_conversions(entered(st), i.generics@, i.generics@.len());
    let st1 = generics_interned(entered(st), i.generics@, i.generics@.len()).0;
    path_keeps(st1, i.type_path);
    path_keeps_conversions(st1, i.type_path);
}

proof fn generics_keep_conversions(st: Names, gs: Seq<GenericParam>, k: nat)
    ensures
        generics_interned(st, gs, k).0.into_impls == st.into_impls,
    decreases k,
{
    if k > 0 && k <= gs.len() {
        generics_keep_conversions(st, gs, (k - 1) as nat);
    }
}

proof fn trait_paths_keep_conversions(st: Names, p: Path, s: SymbolId)
    ensures
        after_impl_trait(st, p, s).into_impls == st.into_impls,
        after_impl_trait(st, p, s).symbols == st.symbols,
{
    path_keeps(st, p);
    path_keeps_conversions(st, p);
}

proof fn path_keeps_conversions(st: Names, p: Path)
    ensures
        after_path(st, p).into_impls == st.into_impls,
    decreases p, 0nat,
{
    types_keep_conversions(st, p.generic_args@, p.generic_args@.len());
}

proof fn types_keep_conversions(st: Names, ts: Seq<Type>, k: nat)
    ensures
        after_types(st, ts, k).into_impls == st.into_impls,
    decreases ts, k,
{
    if k > 0 && k <= ts.len() {
        types_keep_conversions(st, ts, (k - 1) as nat);
        type_keeps_conversions(after_types(st, ts, (k - 1) as nat), ts[k - 1]);
    }
}

proof fn type_keeps_conversions(st: Names, t: Type)
    ensures
        after_type(st, t).into_impls == st.into_impls,
    decreases t, 1nat,
{
    match t {
        Type::Path(p) => path_keeps_conversions(st, p),
        Type::Dyn(p) => path_keeps_conversions(st, p),
        Type::Array { elem, .. } => type_keeps_conversions(st, *elem),
        Type::Fn { params, ret, .. } => {
            types_keep_conversions(st, params@, params@.len());
            match ret {
                Some(r) => type_keeps_conversions(after_types(st, params@, params@.len()), *r),
                None => {},
            }
        },
        Type::Tuple { elems, .. } => types_keep_conversions(st, elems@, elems@.len()),
    }
}

/// A method that a struct has already is reported once, unless it belongs to a
/// conversion: beside the errors of the impl's paths there is this one.
pub proof fn a_second_definition_is_reported(st: Names, i: ImplBlock, s: SymbolId)
    requires
        is_impl_of(st, i, s),
        i.methods@.len() == 1,
        i.assoc_types@.len() == 0,
        !is_conversion(paths_of_impl(st, i, s), i),
        impl_trait(paths_of_impl(st, i, s), i) matches Some(t) ==> paths_of_impl(st, i, s).knows(t),
        paths_of_impl(st, i, s).impl_methods.contains_key((s, i.methods@[0].name.name@)),
    ensures
        after_impl(st, i).errors == paths_of_impl(st, i, s).errors.push(
            (
                "method `"@ + i.methods@[0].name.name@ + "` already defined on `"@ + paths_of_impl(
                    st,
                    i,
                    s,
                ).symbols[s.0 as int].name + "`"@,
                i.methods@[0].name.span,
            ),
        ),
{
    let st1 = paths_of_impl(st, i, s);
    let name = st1.symbols[s.0 as int].name;
    assert(after_methods(st1, i.methods@, s, name, None, 0) == st1);
    let st2 = after_methods(st1, i.methods@, s, name, None, 1);
    assert(st2.path_to_sym == st1.path_to_sym);
    assert(!is_conversion(st2, i)) by {
        match impl_trait(st1, i) {
            Some(t) => assert(st2.symbols[t.0 as int] == st1.symbols[t.0 as int]),
            None => {},
        }
    }
}

} // verus!
