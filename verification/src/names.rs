//! The state of name resolution: symbols, scopes and tables, the steps that
//! change them, and how names are looked up.

use vstd::prelude::*;

use crate::ast::{FnDecl, GenericParam, Ident, TraitMethodSig, Type};
use crate::graph::{add_new, contains_sym, next_of, reach, reached, syms_map, with_new};
use crate::resolver::{Resolutions, ResolveError, Symbol, SymbolKind};
use crate::search::{first_where, found_stays};
use crate::table::{Key, Table, copy_syms, entry_of_key, has_key_of_entry, lookup};
use crate::text::{
    after_prefix, copy_texts, has_separator, join, join_first, joined, last_part_after,
    path_parts, same_text, split_path, texts,
};
use crate::token::Span;
use crate::ty::{SymbolId, TyV, next_number, ty_views};

verus! {

pub enum SymbolKindV {
    BuiltinType(TyV),
    BuiltinFn { name: Seq<char>, params: Seq<TyV>, ret: TyV },
    PolyBuiltinFn(Seq<char>),
    Fn,
    Local { mutable: bool },
    Param,
    Struct,
    Enum,
    EnumVariant { enum_sym: SymbolId, discriminant: u32 },
    Const,
    TypeParam,
    Trait,
    Module,
}

pub struct SymbolV {
    pub name: Seq<char>,
    pub span: Span,
    pub kind: SymbolKindV,
}

pub open spec fn symbol_kind_view(k: SymbolKind) -> SymbolKindV {
    match k {
        SymbolKind::BuiltinType(t) => SymbolKindV::BuiltinType(t@),
        SymbolKind::BuiltinFn(f) => SymbolKindV::BuiltinFn {
            name: f.name@,
            params: ty_views(f.params@),
            ret: f.ret@,
        },
        SymbolKind::PolyBuiltinFn(n) => SymbolKindV::PolyBuiltinFn(n@),
        SymbolKind::Fn => SymbolKindV::Fn,
        SymbolKind::Local { mutable } => SymbolKindV::Local { mutable },
        SymbolKind::Param => SymbolKindV::Param,
        SymbolKind::Struct => SymbolKindV::Struct,
        SymbolKind::Enum => SymbolKindV::Enum,
        SymbolKind::EnumVariant { enum_sym, discriminant } => SymbolKindV::EnumVariant {
            enum_sym,
            discriminant,
        },
        SymbolKind::Const => SymbolKindV::Const,
        SymbolKind::TypeParam => SymbolKindV::TypeParam,
        SymbolKind::Trait => SymbolKindV::Trait,
        SymbolKind::Module => SymbolKindV::Module,
    }
}

pub open spec fn symbol_view(s: Symbol) -> SymbolV {
    SymbolV { name: s.name@, span: s.span, kind: symbol_kind_view(s.kind) }
}

pub open spec fn symbol_views(ss: Seq<Symbol>) -> Seq<SymbolV> {
    Seq::new(ss.len(), |i: int| symbol_view(ss[i]))
}

pub open spec fn scope_views(ss: Seq<Table<String, SymbolId>>) -> Seq<Map<Seq<char>, SymbolId>> {
    Seq::new(ss.len(), |i: int| ss[i]@)
}

pub open spec fn types_of(ts: Seq<&Type>) -> Seq<Type> {
    Seq::new(ts.len(), |i: int| *ts[i])
}

pub open spec fn targets_of(ts: Seq<(&Type, SymbolId)>) -> Seq<(Type, SymbolId)> {
    Seq::new(ts.len(), |i: int| (*ts[i].0, ts[i].1))
}

pub open spec fn span_syms_map(m: Map<Span, Vec<SymbolId>>) -> Map<Span, Seq<SymbolId>> {
    m.map_values(|v: Vec<SymbolId>| v@)
}

pub open spec fn error_views(es: Seq<ResolveError>) -> Seq<(Seq<char>, Span)> {
    Seq::new(es.len(), |i: int| (es[i].message@, es[i].span))
}

pub open spec fn variant_maps(m: Map<SymbolId, Table<String, SymbolId>>) -> Map<SymbolId, Map<Seq<char>, SymbolId>> {
    m.map_values(|t: Table<String, SymbolId>| t@)
}

pub open spec fn payload_maps(m: Map<SymbolId, Vec<&Type>>) -> Map<SymbolId, Seq<Type>> {
    m.map_values(|v: Vec<&Type>| types_of(v@))
}

pub open spec fn texts_maps(m: Map<SymbolId, Vec<String>>) -> Map<SymbolId, Seq<Seq<char>>> {
    m.map_values(|v: Vec<String>| texts(v@))
}

pub open spec fn sig_maps(m: Map<SymbolId, &Vec<TraitMethodSig>>) -> Map<SymbolId, Seq<TraitMethodSig>> {
    m.map_values(|v: &Vec<TraitMethodSig>| v@)
}

pub open spec fn binding_maps(m: Map<(SymbolId, Seq<char>), &Type>) -> Map<(SymbolId, Seq<char>), Type> {
    m.map_values(|t: &Type| *t)
}

pub open spec fn span_maps(m: Map<(SymbolId, SymbolId), Vec<Span>>) -> Map<(SymbolId, SymbolId), Seq<Span>> {
    m.map_values(|v: Vec<Span>| v@)
}

pub open spec fn target_maps(m: Map<SymbolId, Vec<(&Type, SymbolId)>>) -> Map<SymbolId, Seq<(Type, SymbolId)>> {
    m.map_values(|v: Vec<(&Type, SymbolId)>| targets_of(v@))
}

pub open spec fn vis_maps(m: Map<SymbolId, (Vec<String>, bool)>) -> Map<SymbolId, (Seq<Seq<char>>, bool)> {
    m.map_values(|p: (Vec<String>, bool)| (texts(p.0@), p.1))
}

/// The state of name resolution: the symbols, the scopes from the global one
/// to the innermost, the tables of the result, the module being worked on and
/// the errors so far.
pub struct Names {
    pub symbols: Seq<SymbolV>,
    pub scopes: Seq<Map<Seq<char>, SymbolId>>,
    pub path_to_sym: Map<Span, SymbolId>,
    pub decl_to_sym: Map<Span, SymbolId>,
    pub impl_methods: Map<(SymbolId, Seq<char>), SymbolId>,
    pub enum_variants: Map<SymbolId, Map<Seq<char>, SymbolId>>,
    pub enum_variant_payloads: Map<SymbolId, Seq<Type>>,
    pub enum_variant_field_names: Map<SymbolId, Seq<Seq<char>>>,
    pub enum_has_payload: Seq<SymbolId>,
    pub struct_generics: Map<SymbolId, Seq<SymbolId>>,
    pub enum_generics: Map<SymbolId, Seq<SymbolId>>,
    pub trait_methods: Map<SymbolId, Seq<TraitMethodSig>>,
    pub trait_supertraits: Map<SymbolId, Seq<SymbolId>>,
    pub trait_generics: Map<SymbolId, Seq<SymbolId>>,
    pub impls_for: Map<SymbolId, Seq<SymbolId>>,
    pub closure_fn_sym: Map<Span, SymbolId>,
    pub closure_params: Map<Span, Seq<SymbolId>>,
    pub closure_captures: Map<Span, Seq<SymbolId>>,
    pub closure_struct_sym: Map<Span, SymbolId>,
    pub closure_call_method_sym: Map<Span, SymbolId>,
    pub open_closure_spans: Seq<Span>,
    pub lambda_counter: u32,
    pub assoc_proj_bases: Map<Span, SymbolId>,
    pub trait_assoc_types: Map<SymbolId, Seq<Seq<char>>>,
    pub impl_assoc_bindings: Map<(SymbolId, Seq<char>), Type>,
    pub generic_bounds: Map<SymbolId, Seq<SymbolId>>,
    pub generic_bound_args: Map<(SymbolId, SymbolId), Seq<Span>>,
    pub trait_defaults: Map<(SymbolId, Seq<char>), SymbolId>,
    pub default_self_syms: Map<SymbolId, SymbolId>,
    pub into_impls: Map<SymbolId, Seq<(Type, SymbolId)>>,
    pub impl_to_struct_generic: Map<SymbolId, SymbolId>,
    pub current_path: Seq<Seq<char>>,
    pub item_vis: Map<SymbolId, (Seq<Seq<char>>, bool)>,
    pub pub_reexport_keys: Set<Seq<char>>,
    pub errors: Seq<(Seq<char>, Span)>,
    /// The traits with a supertrait list, in the order they got one.
    pub supertrait_order: Seq<SymbolId>,
}

pub struct NameStore<'a> {
    symbols: Vec<Symbol>,
    scopes: Vec<Table<String, SymbolId>>,
    path_to_sym: Table<Span, SymbolId>,
    decl_to_sym: Table<Span, SymbolId>,
    impl_methods: Table<(SymbolId, String), SymbolId>,
    enum_variants: Table<SymbolId, Table<String, SymbolId>>,
    enum_variant_payloads: Table<SymbolId, Vec<&'a Type>>,
    enum_variant_field_names: Table<SymbolId, Vec<String>>,
    enum_has_payload: Vec<SymbolId>,
    struct_generics: Table<SymbolId, Vec<SymbolId>>,
    enum_generics: Table<SymbolId, Vec<SymbolId>>,
    trait_methods: Table<SymbolId, &'a Vec<TraitMethodSig>>,
    trait_supertraits: Table<SymbolId, Vec<SymbolId>>,
    trait_generics: Table<SymbolId, Vec<SymbolId>>,
    impls_for: Table<SymbolId, Vec<SymbolId>>,
    closure_fn_sym: Table<Span, SymbolId>,
    closure_params: Table<Span, Vec<SymbolId>>,
    closure_captures: Table<Span, Vec<SymbolId>>,
    closure_struct_sym: Table<Span, SymbolId>,
    closure_call_method_sym: Table<Span, SymbolId>,
    open_closure_spans: Vec<Span>,
    lambda_counter: u32,
    assoc_proj_bases: Table<Span, SymbolId>,
    trait_assoc_types: Table<SymbolId, Vec<String>>,
    impl_assoc_bindings: Table<(SymbolId, String), &'a Type>,
    generic_bounds: Table<SymbolId, Vec<SymbolId>>,
    generic_bound_args: Table<(SymbolId, SymbolId), Vec<Span>>,
    trait_defaults: Table<(SymbolId, String), SymbolId>,
    default_self_syms: Table<SymbolId, SymbolId>,
    into_impls: Table<SymbolId, Vec<(&'a Type, SymbolId)>>,
    impl_to_struct_generic: Table<SymbolId, SymbolId>,
    current_path: Vec<String>,
    item_vis: Table<SymbolId, (Vec<String>, bool)>,
    pub_reexport_keys: Vec<String>,
    errors: Vec<ResolveError>,
}

pub open spec fn keys_of(items: Seq<(SymbolId, Vec<SymbolId>)>) -> Seq<SymbolId> {
    Seq::new(items.len(), |i: int| items[i].0)
}

impl<'a> View for NameStore<'a> {
    type V = Names;

    closed spec fn view(&self) -> Names {
        Names {
            symbols: symbol_views(self.symbols@),
            scopes: scope_views(self.scopes@),
            path_to_sym: self.path_to_sym@,
            decl_to_sym: self.decl_to_sym@,
            impl_methods: self.impl_methods@,
            enum_variants: variant_maps(self.enum_variants@),
            enum_variant_payloads: payload_maps(self.enum_variant_payloads@),
            enum_variant_field_names: texts_maps(self.enum_variant_field_names@),
            enum_has_payload: self.enum_has_payload@,
            struct_generics: syms_map(self.struct_generics@),
            enum_generics: syms_map(self.enum_generics@),
            trait_methods: sig_maps(self.trait_methods@),
            trait_supertraits: syms_map(self.trait_supertraits@),
            trait_generics: syms_map(self.trait_generics@),
            impls_for: syms_map(self.impls_for@),
            closure_fn_sym: self.closure_fn_sym@,
            closure_params: span_syms_map(self.closure_params@),
            closure_captures: span_syms_map(self.closure_captures@),
            closure_struct_sym: self.closure_struct_sym@,
            closure_call_method_sym: self.closure_call_method_sym@,
            open_closure_spans: self.open_closure_spans@,
            lambda_counter: self.lambda_counter,
            assoc_proj_bases: self.assoc_proj_bases@,
            trait_assoc_types: texts_maps(self.trait_assoc_types@),
            impl_assoc_bindings: binding_maps(self.impl_assoc_bindings@),
            generic_bounds: syms_map(self.generic_bounds@),
            generic_bound_args: span_maps(self.generic_bound_args@),
            trait_defaults: self.trait_defaults@,
            default_self_syms: self.default_self_syms@,
            into_impls: target_maps(self.into_impls@),
            impl_to_struct_generic: self.impl_to_struct_generic@,
            current_path: texts(self.current_path@),
            item_vis: vis_maps(self.item_vis@),
            pub_reexport_keys: texts(self.pub_reexport_keys@).to_set(),
            errors: error_views(self.errors@),
            supertrait_order: keys_of(self.trait_supertraits.items()),
        }
    }
}

impl Names {
    pub open spec fn knows(self, id: SymbolId) -> bool {
        (id.0 as int) < self.symbols.len()
    }

    pub open spec fn kind(self, id: SymbolId) -> SymbolKindV {
        self.symbols[id.0 as int].kind
    }

    /// The identity the next symbol gets.
    pub open spec fn next_id(self) -> SymbolId {
        SymbolId(self.symbols.len() as u32)
    }

    /// What holds of every state: there is a global scope, names and tables
    /// refer to known symbols.
    pub open spec fn wf(self) -> bool {
        &&& self.scopes.len() > 0
        &&& forall|i: int, n: Seq<char>|
            #![trigger self.scopes[i][n]]
            0 <= i < self.scopes.len() && self.scopes[i].contains_key(n) ==> self.knows(self.scopes[i][n])
        &&& forall|s: Span|
            #![trigger self.path_to_sym[s]]
            self.path_to_sym.contains_key(s) ==> self.knows(self.path_to_sym[s])
        &&& forall|s: Span|
            #![trigger self.decl_to_sym[s]]
            self.decl_to_sym.contains_key(s) ==> self.knows(self.decl_to_sym[s])
        &&& forall|e: SymbolId, v: Seq<char>|
            #![trigger self.enum_variants[e][v]]
            self.enum_variants.contains_key(e) && self.enum_variants[e].contains_key(v) ==> self.knows(
                self.enum_variants[e][v],
            )
        &&& forall|f: SymbolId|
            #![trigger self.default_self_syms[f]]
            self.default_self_syms.contains_key(f) ==> self.knows(self.default_self_syms[f])
        &&& forall|i: int| 0 <= i < self.supertrait_order.len() ==> self.knows(#[trigger] self.supertrait_order[i])
    }

    /// Whether a later state still knows every symbol of an earlier one as it
    /// was.
    pub open spec fn grown_to(self, later: Names) -> bool {
        &&& self.symbols.len() <= later.symbols.len()
        &&& forall|i: int| 0 <= i < self.symbols.len() ==> later.symbols[i] == #[trigger] self.symbols[i]
        &&& self.scopes.len() == later.scopes.len()
        &&& self.current_path == later.current_path
        &&& self.open_closure_spans == later.open_closure_spans
    }
}

// ---- what each step does to the state ----

pub open spec fn with_symbol(st: Names, name: Seq<char>, span: Span, kind: SymbolKindV) -> Names {
    Names { symbols: st.symbols.push(SymbolV { name, span, kind }), ..st }
}

/// A name bound in the innermost scope.
pub open spec fn bound_here(st: Names, name: Seq<char>, id: SymbolId) -> Names {
    let last = st.scopes.len() - 1;
    Names { scopes: st.scopes.update(last, st.scopes[last].insert(name, id)), ..st }
}

/// A name bound in the global scope.
pub open spec fn bound_globally(st: Names, key: Seq<char>, id: SymbolId) -> Names {
    Names { scopes: st.scopes.update(0, st.scopes[0].insert(key, id)), ..st }
}

pub open spec fn entered(st: Names) -> Names {
    Names { scopes: st.scopes.push(Map::empty()), ..st }
}

pub open spec fn left(st: Names) -> Names {
    Names { scopes: st.scopes.drop_last(), ..st }
}

pub open spec fn with_error(st: Names, message: Seq<char>, span: Span) -> Names {
    Names { errors: st.errors.push((message, span)), ..st }
}

pub open spec fn with_path(st: Names, span: Span, id: SymbolId) -> Names {
    Names { path_to_sym: st.path_to_sym.insert(span, id), ..st }
}

pub open spec fn with_decl(st: Names, span: Span, id: SymbolId) -> Names {
    Names { decl_to_sym: st.decl_to_sym.insert(span, id), ..st }
}

/// A new symbol bound in the innermost scope. A name bound there before is
/// shadowed.
pub open spec fn interned(st: Names, name: Seq<char>, span: Span, kind: SymbolKindV) -> Names {
    bound_here(with_symbol(st, name, span, kind), name, st.next_id())
}

/// A new symbol bound in the innermost scope and noted as what its span
/// declares.
pub open spec fn declared_here(st: Names, name: Seq<char>, span: Span, kind: SymbolKindV) -> Names {
    with_decl(interned(st, name, span, kind), span, st.next_id())
}

/// A name inside a module: the module's path, then the name.
pub open spec fn in_module(path: Seq<Seq<char>>, name: Seq<char>) -> Seq<char> {
    if path.len() == 0 {
        name
    } else {
        joined(path, "::"@) + "::"@ + name
    }
}

/// The name a function gets in generated code: the module's path joined by
/// double underscores in front, so that `main` at the root stays `main`.
pub open spec fn mangled_fn(path: Seq<Seq<char>>, name: Seq<char>) -> Seq<char> {
    if path.len() == 0 {
        name
    } else {
        joined(path, "__"@) + "__"@ + name
    }
}

/// A new symbol bound globally under its module's path.
pub open spec fn item_interned(
    st: Names,
    name: Seq<char>,
    span: Span,
    kind: SymbolKindV,
    code_name: Seq<char>,
) -> Names {
    bound_globally(with_symbol(st, code_name, span, kind), in_module(st.current_path, name), st.next_id())
}

pub open spec fn with_visibility(st: Names, id: SymbolId, is_pub: bool) -> Names {
    Names { item_vis: st.item_vis.insert(id, (st.current_path, is_pub)), ..st }
}

/// A type parameter: the symbol its span declared before, or a new one.
pub open spec fn generic_interned(st: Names, g: GenericParam) -> Names {
    if st.decl_to_sym.contains_key(g.name.span) {
        bound_here(st, g.name.name@, st.decl_to_sym[g.name.span])
    } else {
        declared_here(st, g.name.name@, g.name.span, SymbolKindV::TypeParam)
    }
}

pub open spec fn generic_id(st: Names, g: GenericParam) -> SymbolId {
    if st.decl_to_sym.contains_key(g.name.span) {
        st.decl_to_sym[g.name.span]
    } else {
        st.next_id()
    }
}

/// The first `k` type parameters, with their symbols.
pub open spec fn generics_interned(st: Names, gs: Seq<GenericParam>, k: nat) -> (Names, Seq<SymbolId>)
    decreases k,
{
    if k == 0 || k > gs.len() {
        (st, seq![])
    } else {
        let (st1, ids) = generics_interned(st, gs, (k - 1) as nat);
        (generic_interned(st1, gs[k - 1]), ids.push(generic_id(st1, gs[k - 1])))
    }
}

/// The first `k` type parameters of a type declaration, each a new symbol.
pub open spec fn generics_declared(st: Names, gs: Seq<GenericParam>, k: nat) -> (Names, Seq<SymbolId>)
    decreases k,
{
    if k == 0 || k > gs.len() {
        (st, seq![])
    } else {
        let (st1, ids) = generics_declared(st, gs, (k - 1) as nat);
        (
            declared_here(st1, gs[k - 1].name.name@, gs[k - 1].name.span, SymbolKindV::TypeParam),
            ids.push(st1.next_id()),
        )
    }
}

// ---- looking names up ----

/// A name in the scopes inside the global one, innermost first, among the
/// first `k` scopes.
pub open spec fn in_scopes(scopes: Seq<Map<Seq<char>, SymbolId>>, name: Seq<char>, k: nat) -> Option<SymbolId>
    decreases k,
{
    if k <= 1 || k > scopes.len() {
        None
    } else if scopes[k - 1].contains_key(name) {
        Some(scopes[k - 1][name])
    } else {
        in_scopes(scopes, name, (k - 1) as nat)
    }
}

/// A name in the enclosing modules, from the one `depth` levels down out to
/// the root, with the key it was found under.
pub open spec fn in_modules(
    global: Map<Seq<char>, SymbolId>,
    path: Seq<Seq<char>>,
    name: Seq<char>,
    depth: nat,
) -> Option<(SymbolId, Seq<char>)>
    decreases depth,
{
    let key = in_module(path.take(depth as int), name);
    if global.contains_key(key) {
        Some((global[key], key))
    } else if depth == 0 {
        None
    } else {
        in_modules(global, path, name, (depth - 1) as nat)
    }
}

/// What a bare name refers to: a local, or an item of the innermost enclosing
/// module that has it.
pub open spec fn name_lookup(st: Names, name: Seq<char>) -> Option<SymbolId> {
    match in_scopes(st.scopes, name, st.scopes.len()) {
        Some(id) => Some(id),
        None => match in_modules(st.scopes[0], st.current_path, name, st.current_path.len()) {
            Some((id, _)) => Some(id),
            None => None,
        },
    }
}

pub open spec fn segment_names(segs: Seq<Ident>) -> Seq<Seq<char>> {
    Seq::new(segs.len(), |i: int| segs[i].name@)
}

/// What a path refers to and the key it was found under: a bare name as
/// such, a longer path from the root first and then from the enclosing
/// modules, innermost first.
pub open spec fn path_lookup(st: Names, segs: Seq<Seq<char>>) -> Option<(SymbolId, Seq<char>)> {
    if segs.len() == 1 {
        match name_lookup(st, segs[0]) {
            Some(id) => Some((id, segs[0])),
            None => None,
        }
    } else {
        let tail = joined(segs, "::"@);
        if st.scopes[0].contains_key(tail) {
            Some((st.scopes[0][tail], tail))
        } else {
            in_modules(st.scopes[0], st.current_path, tail, st.current_path.len())
        }
    }
}

// ---- visibility ----

/// Whether a path starts with another.
pub open spec fn starts_with(path: Seq<Seq<char>>, prefix: Seq<Seq<char>>) -> bool {
    prefix.len() <= path.len() && path.take(prefix.len() as int) == prefix
}

/// Whether a symbol is visible from the current module: it is public, or it
/// is declared in this module or an enclosing one.
pub open spec fn visible(st: Names, sym: SymbolId) -> bool {
    st.item_vis.contains_key(sym) ==> st.item_vis[sym].1 || starts_with(st.current_path, st.item_vis[sym].0)
}

pub open spec fn private_message(st: Names, shown: Seq<char>, sym: SymbolId) -> Seq<char> {
    "`"@ + shown + "` is private to "@ + (if !st.item_vis.contains_key(sym) {
        "another module"@
    } else if st.item_vis[sym].0.len() == 0 {
        "the crate root"@
    } else {
        "module `"@ + joined(st.item_vis[sym].0, "::"@) + "`"@
    })
}

/// Which prefixes of a path name something hidden: not re-exported, and not
/// visible from the current module.
pub open spec fn hides(st: Names, parts: Seq<Seq<char>>) -> spec_fn(int) -> bool {
    |i: int|
        {
            let prefix = joined(parts.take(i + 1), "::"@);
            !st.pub_reexport_keys.contains(prefix) && st.scopes[0].contains_key(prefix) && !visible(
                st,
                st.scopes[0][prefix],
            )
        }
}

/// The state after checking that every module on the way to a key, and the
/// item itself, is visible. A public re-export is visible as it stands.
pub open spec fn after_visibility(st: Names, key: Seq<char>, span: Span) -> Names {
    let parts = path_parts(key);
    if st.pub_reexport_keys.contains(key) {
        st
    } else {
        match first_where(hides(st, parts), parts.len()) {
            None => st,
            Some(i) => with_error(
                st,
                private_message(st, parts[i], st.scopes[0][joined(parts.take(i + 1), "::"@)]),
                span,
            ),
        }
    }
}

/// The state after a use of a symbol: inside a closure, a local from outside
/// it is noted as captured.
pub open spec fn after_capture(st: Names, id: SymbolId) -> Names {
    if st.open_closure_spans.len() == 0 {
        st
    } else {
        let closure = st.open_closure_spans.last();
        let sym = st.symbols[id.0 as int];
        if !(sym.kind is Local || sym.kind is Param) || (sym.span.start >= closure.start && sym.span.end
            <= closure.end) {
            st
        } else {
            let before = if st.closure_captures.contains_key(closure) {
                st.closure_captures[closure]
            } else {
                seq![]
            };
            Names {
                closure_captures: st.closure_captures.insert(
                    closure,
                    if before.contains(id) {
                        before
                    } else {
                        before.push(id)
                    },
                ),
                ..st
            }
        }
    }
}

/// A symbol added to a struct's list of implemented traits.
pub open spec fn implementing(st: Names, s: SymbolId, t: SymbolId) -> Names {
    let before = if st.impls_for.contains_key(s) {
        st.impls_for[s]
    } else {
        seq![]
    };
    Names {
        impls_for: st.impls_for.insert(
            s,
            if before.contains(t) {
                before
            } else {
                before.push(t)
            },
        ),
        ..st
    }
}

/// Whether an impl block defines a method.
pub open spec fn defines(ms: Seq<FnDecl>, name: Seq<char>) -> bool {
    exists|i: int| 0 <= i < ms.len() && (#[trigger] ms[i]).name.name@ == name
}

/// A struct's methods with a trait's default methods added where the impl
/// does not define them and nothing else does.
pub open spec fn with_default_methods(st: Names, ms: Seq<FnDecl>, struct_sym: SymbolId, trait_sym: SymbolId) -> Map<
    (SymbolId, Seq<char>),
    SymbolId,
> {
    Map::new(
        |k: (SymbolId, Seq<char>)|
            st.impl_methods.contains_key(k) || (k.0 == struct_sym && st.trait_defaults.contains_key(
                (trait_sym, k.1),
            ) && !defines(ms, k.1)),
        |k: (SymbolId, Seq<char>)|
            if st.impl_methods.contains_key(k) {
                st.impl_methods[k]
            } else {
                st.trait_defaults[(trait_sym, k.1)]
            },
    )
}

pub open spec fn in_nested(st: Names, name: Seq<char>) -> Names {
    Names { current_path: st.current_path.push(name), ..st }
}

pub open spec fn out_of_nested(st: Names) -> Names {
    Names { current_path: st.current_path.drop_last(), ..st }
}

pub open spec fn with_supertraits(st: Names, id: SymbolId, supers: Seq<SymbolId>) -> Names {
    Names {
        trait_supertraits: st.trait_supertraits.insert(id, supers),
        supertrait_order: if st.trait_supertraits.contains_key(id) {
            st.supertrait_order
        } else {
            st.supertrait_order.push(id)
        },
        ..st
    }
}

pub open spec fn converting(st: Names, s: SymbolId, target: Type, f: SymbolId) -> Names {
    let before = if st.into_impls.contains_key(s) {
        st.into_impls[s]
    } else {
        seq![]
    };
    Names { into_impls: st.into_impls.insert(s, before.push((target, f))), ..st }
}

/// Whether a key of the global scope names a module.
pub open spec fn module_at(st: Names, key: Seq<char>) -> bool {
    st.scopes[0].contains_key(key) && st.kind(st.scopes[0][key]) is Module
}

/// The module a path names from the enclosing modules, from the one `depth`
/// levels down outwards.
pub open spec fn enclosing_module(st: Names, tail: Seq<char>, depth: nat) -> Option<Seq<char>>
    decreases depth,
{
    if depth == 0 {
        None
    } else {
        let key = in_module(st.current_path.take(depth as int), tail);
        if module_at(st, key) {
            Some(key)
        } else {
            enclosing_module(st, tail, (depth - 1) as nat)
        }
    }
}

/// The module a glob import's path names: from the root first, then from the
/// enclosing modules, innermost first.
pub open spec fn glob_module(st: Names, tail: Seq<char>) -> Option<Seq<char>> {
    if module_at(st, tail) {
        Some(tail)
    } else {
        enclosing_module(st, tail, st.current_path.len())
    }
}

/// Whether a trait is among its own supertraits, direct or not.
pub open spec fn cyclic(st: Names, t: SymbolId) -> bool {
    let supers = next_of(st.trait_supertraits, t);
    reached(st.trait_supertraits, with_new(seq![], supers, supers.len()), 0).contains(t)
}

// ---- glob imports ----

/// Whether a glob import of a module brings in a name: the module has the
/// item directly, and it is visible from the current module.
pub open spec fn imports(st: Names, module: Seq<char>, name: Seq<char>) -> bool {
    let key = module + "::"@ + name;
    !has_separator(name) && st.scopes[0].contains_key(key) && visible(st, st.scopes[0][key])
}

/// The name an imported key stands for in the current module.
pub open spec fn local_name(st: Names, key: Seq<char>) -> Option<Seq<char>> {
    if st.current_path.len() == 0 {
        Some(key)
    } else {
        after_prefix(key, joined(st.current_path, "::"@) + "::"@)
    }
}

/// Whether a glob import binds a key of the current module.
pub open spec fn imports_key(st: Names, module: Seq<char>, key: Seq<char>) -> bool {
    match local_name(st, key) {
        Some(name) => imports(st, module, name),
        None => false,
    }
}

/// The state after importing every visible direct item of a module. What the
/// current module has already stays.
pub open spec fn after_glob(st: Names, module: Seq<char>, public: bool) -> Names {
    let global = Map::new(
        |key: Seq<char>| st.scopes[0].contains_key(key) || imports_key(st, module, key),
        |key: Seq<char>|
            if st.scopes[0].contains_key(key) {
                st.scopes[0][key]
            } else {
                st.scopes[0][module + "::"@ + local_name(st, key).unwrap()]
            },
    );
    Names {
        scopes: st.scopes.update(0, global),
        pub_reexport_keys: if public {
            st.pub_reexport_keys.union(Set::new(|key: Seq<char>| imports_key(st, module, key)))
        } else {
            st.pub_reexport_keys
        },
        ..st
    }
}

// ---- the store ----

/// The state before any name is known.
pub open spec fn no_names() -> Names {
    Names {
        symbols: seq![],
        scopes: seq![Map::empty()],
        path_to_sym: Map::empty(),
        decl_to_sym: Map::empty(),
        impl_methods: Map::empty(),
        enum_variants: Map::empty(),
        enum_variant_payloads: Map::empty(),
        enum_variant_field_names: Map::empty(),
        enum_has_payload: seq![],
        struct_generics: Map::empty(),
        enum_generics: Map::empty(),
        trait_methods: Map::empty(),
        trait_supertraits: Map::empty(),
        trait_generics: Map::empty(),
        impls_for: Map::empty(),
        closure_fn_sym: Map::empty(),
        closure_params: Map::empty(),
        closure_captures: Map::empty(),
        closure_struct_sym: Map::empty(),
        closure_call_method_sym: Map::empty(),
        open_closure_spans: seq![],
        lambda_counter: 0,
        assoc_proj_bases: Map::empty(),
        trait_assoc_types: Map::empty(),
        impl_assoc_bindings: Map::empty(),
        generic_bounds: Map::empty(),
        generic_bound_args: Map::empty(),
        trait_defaults: Map::empty(),
        default_self_syms: Map::empty(),
        into_impls: Map::empty(),
        impl_to_struct_generic: Map::empty(),
        current_path: seq![],
        item_vis: Map::empty(),
        pub_reexport_keys: Set::empty(),
        errors: seq![],
        supertrait_order: seq![],
    }
}

/// Whether a result holds what a state holds.
pub open spec fn holds(r: Resolutions<'_>, st: Names) -> bool {
    &&& symbol_views(r.symbols@) == st.symbols
    &&& r.path_to_sym@ == st.path_to_sym
    &&& r.decl_to_sym@ == st.decl_to_sym
    &&& r.impl_methods@ == st.impl_methods
    &&& variant_maps(r.enum_variants@) == st.enum_variants
    &&& payload_maps(r.enum_variant_payloads@) == st.enum_variant_payloads
    &&& texts_maps(r.enum_variant_field_names@) == st.enum_variant_field_names
    &&& r.enum_has_payload@ == st.enum_has_payload
    &&& syms_map(r.struct_generics@) == st.struct_generics
    &&& syms_map(r.enum_generics@) == st.enum_generics
    &&& sig_maps(r.trait_methods@) == st.trait_methods
    &&& syms_map(r.trait_supertraits@) == st.trait_supertraits
    &&& syms_map(r.trait_generics@) == st.trait_generics
    &&& syms_map(r.impls_for@) == st.impls_for
    &&& r.closure_fn_sym@ == st.closure_fn_sym
    &&& span_syms_map(r.closure_params@) == st.closure_params
    &&& span_syms_map(r.closure_captures@) == st.closure_captures
    &&& r.closure_struct_sym@ == st.closure_struct_sym
    &&& r.closure_call_method_sym@ == st.closure_call_method_sym
    &&& r.assoc_proj_bases@ == st.assoc_proj_bases
    &&& texts_maps(r.trait_assoc_types@) == st.trait_assoc_types
    &&& binding_maps(r.impl_assoc_bindings@) == st.impl_assoc_bindings
    &&& syms_map(r.generic_bounds@) == st.generic_bounds
    &&& span_maps(r.generic_bound_args@) == st.generic_bound_args
    &&& r.trait_defaults@ == st.trait_defaults
    &&& r.default_self_syms@ == st.default_self_syms
    &&& target_maps(r.into_impls@) == st.into_impls
    &&& r.impl_to_struct_generic@ == st.impl_to_struct_generic
}

impl<'a> NameStore<'a> {
    pub fn new() -> (r: Self)
        ensures
            r@ == no_names(),
            r@.wf(),
    {
        let mut scopes: Vec<Table<String, SymbolId>> = Vec::new();
        scopes.push(Table::new());
        let r = NameStore {
            symbols: Vec::new(),
            scopes,
            path_to_sym: Table::new(),
            decl_to_sym: Table::new(),
            impl_methods: Table::new(),
            enum_variants: Table::new(),
            enum_variant_payloads: Table::new(),
            enum_variant_field_names: Table::new(),
            enum_has_payload: Vec::new(),
            struct_generics: Table::new(),
            enum_generics: Table::new(),
            trait_methods: Table::new(),
            trait_supertraits: Table::new(),
            trait_generics: Table::new(),
            impls_for: Table::new(),
            closure_fn_sym: Table::new(),
            closure_params: Table::new(),
            closure_captures: Table::new(),
            closure_struct_sym: Table::new(),
            closure_call_method_sym: Table::new(),
            open_closure_spans: Vec::new(),
            lambda_counter: 0,
            assoc_proj_bases: Table::new(),
            trait_assoc_types: Table::new(),
            impl_assoc_bindings: Table::new(),
            generic_bounds: Table::new(),
            generic_bound_args: Table::new(),
            trait_defaults: Table::new(),
            default_self_syms: Table::new(),
            into_impls: Table::new(),
            impl_to_struct_generic: Table::new(),
            current_path: Vec::new(),
            item_vis: Table::new(),
            pub_reexport_keys: Vec::new(),
            errors: Vec::new(),
        };
        proof {
            assert(r@.enum_variants =~= no_names().enum_variants);
            assert(r@.enum_variant_payloads =~= no_names().enum_variant_payloads);
            assert(r@.enum_variant_field_names =~= no_names().enum_variant_field_names);
            assert(r@.struct_generics =~= no_names().struct_generics);
            assert(r@.enum_generics =~= no_names().enum_generics);
            assert(r@.trait_methods =~= no_names().trait_methods);
            assert(r@.trait_supertraits =~= no_names().trait_supertraits);
            assert(r@.trait_generics =~= no_names().trait_generics);
            assert(r@.impls_for =~= no_names().impls_for);
            assert(r@.closure_params =~= no_names().closure_params);
            assert(r@.closure_captures =~= no_names().closure_captures);
            assert(r@.trait_assoc_types =~= no_names().trait_assoc_types);
            assert(r@.impl_assoc_bindings =~= no_names().impl_assoc_bindings);
            assert(r@.generic_bounds =~= no_names().generic_bounds);
            assert(r@.generic_bound_args =~= no_names().generic_bound_args);
            assert(r@.into_impls =~= no_names().into_impls);
            assert(r@.item_vis =~= no_names().item_vis);
            assert(r@.symbols =~= no_names().symbols);
            assert(r@.scopes =~= no_names().scopes);
            assert(r@.current_path =~= no_names().current_path);
            assert(r@.pub_reexport_keys =~= no_names().pub_reexport_keys);
            assert(r@.errors =~= no_names().errors);
            assert(r@.supertrait_order =~= no_names().supertrait_order);
        }
        r
    }

    /// The result.
    pub fn finish(self) -> (r: (Resolutions<'a>, Vec<ResolveError>))
        requires
            self@.wf(),
        ensures
            holds(r.0, self@),
            error_views(r.1@) == self@.errors,
            r.0.wf(),
    {
        let ghost st = self@;
        let res = Resolutions {
            symbols: self.symbols,
            path_to_sym: self.path_to_sym,
            decl_to_sym: self.decl_to_sym,
            impl_methods: self.impl_methods,
            enum_variants: self.enum_variants,
            enum_variant_payloads: self.enum_variant_payloads,
            enum_variant_field_names: self.enum_variant_field_names,
            enum_has_payload: self.enum_has_payload,
            struct_generics: self.struct_generics,
            enum_generics: self.enum_generics,
            trait_methods: self.trait_methods,
            trait_supertraits: self.trait_supertraits,
            trait_generics: self.trait_generics,
            impls_for: self.impls_for,
            closure_fn_sym: self.closure_fn_sym,
            closure_params: self.closure_params,
            closure_captures: self.closure_captures,
            closure_struct_sym: self.closure_struct_sym,
            closure_call_method_sym: self.closure_call_method_sym,
            assoc_proj_bases: self.assoc_proj_bases,
            trait_assoc_types: self.trait_assoc_types,
            impl_assoc_bindings: self.impl_assoc_bindings,
            generic_bounds: self.generic_bounds,
            generic_bound_args: self.generic_bound_args,
            trait_defaults: self.trait_defaults,
            default_self_syms: self.default_self_syms,
            into_impls: self.into_impls,
            impl_to_struct_generic: self.impl_to_struct_generic,
        };
        proof {
            assert(symbol_views(res.symbols@).len() == res.symbols@.len());
            assert forall|e: SymbolId, v: Seq<char>|
                #![trigger res.enum_variants@[e]@[v]]
                res.enum_variants@.contains_key(e) && res.enum_variants@[e]@.contains_key(v) implies res.knows(
                res.enum_variants@[e]@[v],
            ) by {
                assert(st.enum_variants[e][v] == res.enum_variants@[e]@[v]);
            }
        }
        (res, self.errors)
    }

    /// Adds a symbol.
    pub fn push_symbol(&mut self, name: String, span: Span, kind: SymbolKind) -> (r: SymbolId)
        requires
            old(self)@.wf(),
        ensures
            final(self)@ == with_symbol(old(self)@, name@, span, symbol_kind_view(kind)),
            final(self)@.wf(),
            old(self)@.grown_to(final(self)@),
            r == old(self)@.next_id(),
            final(self)@.knows(r),
    {
        let id = SymbolId(self.symbols.len() as u32);
        let ghost before = symbol_views(self.symbols@);
        self.symbols.push(Symbol { name, span, kind });
        proof {
            assert(symbol_views(self.symbols@) =~= before.push(
                SymbolV { name: name@, span, kind: symbol_kind_view(kind) },
            ));
        }
        id
    }

    /// Binds a name in the innermost scope.
    pub fn bind_here(&mut self, name: String, id: SymbolId)
        requires
            old(self)@.wf(),
            old(self)@.knows(id),
        ensures
            final(self)@ == bound_here(old(self)@, name@, id),
            final(self)@.wf(),
            old(self)@.grown_to(final(self)@),
    {
        let last: usize = self.scopes.len() - 1;
        let ghost before = scope_views(self.scopes@);
        let ghost st = self@;
        self.scopes[last].insert(name, id);
        proof {
            assert(scope_views(self.scopes@) =~= before.update(last as int, before[last as int].insert(name@, id)));
            scopes_stay_known(st, last as int, name@, id);
        }
    }

    /// Binds a name in the global scope.
    pub fn bind_global(&mut self, key: String, id: SymbolId)
        requires
            old(self)@.wf(),
            old(self)@.knows(id),
        ensures
            final(self)@ == bound_globally(old(self)@, key@, id),
            final(self)@.wf(),
            old(self)@.grown_to(final(self)@),
    {
        let ghost before = scope_views(self.scopes@);
        let ghost st = self@;
        self.scopes[0].insert(key, id);
        proof {
            assert(scope_views(self.scopes@) =~= before.update(0, before[0].insert(key@, id)));
            scopes_stay_known(st, 0, key@, id);
        }
    }

    pub fn enter(&mut self)
        requires
            old(self)@.wf(),
        ensures
            final(self)@ == entered(old(self)@),
            final(self)@.wf(),
    {
        let ghost before = scope_views(self.scopes@);
        self.scopes.push(Table::new());
        proof {
            assert(scope_views(self.scopes@) =~= before.push(Map::empty()));
        }
    }

    pub fn exit(&mut self)
        requires
            old(self)@.wf(),
            old(self)@.scopes.len() > 1,
        ensures
            final(self)@ == left(old(self)@),
            final(self)@.wf(),
    {
        let ghost before = scope_views(self.scopes@);
        let _ = self.scopes.pop();
        proof {
            assert(scope_views(self.scopes@) =~= before.drop_last());
        }
    }

    pub fn error(&mut self, message: String, span: Span)
        requires
            old(self)@.wf(),
        ensures
            final(self)@ == with_error(old(self)@, message@, span),
            final(self)@.wf(),
            old(self)@.grown_to(final(self)@),
    {
        let ghost before = error_views(self.errors@);
        self.errors.push(ResolveError { message, span });
        proof {
            assert(error_views(self.errors@) =~= before.push((message@, span)));
        }
    }

    pub fn set_path(&mut self, span: Span, id: SymbolId)
        requires
            old(self)@.wf(),
            old(self)@.knows(id),
        ensures
            final(self)@ == with_path(old(self)@, span, id),
            final(self)@.wf(),
            old(self)@.grown_to(final(self)@),
    {
        let ghost st = self@;
        self.path_to_sym.insert(span, id);
        proof {
            paths_stay_known(st, span, id);
        }
    }

    pub fn set_decl(&mut self, span: Span, id: SymbolId)
        requires
            old(self)@.wf(),
            old(self)@.knows(id),
        ensures
            final(self)@ == with_decl(old(self)@, span, id),
            final(self)@.wf(),
            old(self)@.grown_to(final(self)@),
    {
        let ghost st = self@;
        self.decl_to_sym.insert(span, id);
        proof {
            decls_stay_known(st, span, id);
        }
    }

    pub fn set_visibility(&mut self, id: SymbolId, is_pub: bool)
        requires
            old(self)@.wf(),
        ensures
            final(self)@ == with_visibility(old(self)@, id, is_pub),
            final(self)@.wf(),
            old(self)@.grown_to(final(self)@),
    {
        let path = copy_texts(&self.current_path);
        let ghost before = vis_maps(self.item_vis@);
        self.item_vis.insert(id, (path, is_pub));
        proof {
            assert(vis_maps(self.item_vis@) =~= before.insert(id, (texts(self.current_path@), is_pub)));
        }
    }

    pub fn enter_module(&mut self, name: String)
        requires
            old(self)@.wf(),
        ensures
            final(self)@ == in_nested(old(self)@, name@),
            final(self)@.wf(),
    {
        let ghost before = texts(self.current_path@);
        self.current_path.push(name);
        proof {
            assert(texts(self.current_path@) =~= before.push(name@));
        }
    }

    pub fn exit_module(&mut self)
        requires
            old(self)@.wf(),
            old(self)@.current_path.len() > 0,
        ensures
            final(self)@ == out_of_nested(old(self)@),
            final(self)@.wf(),
    {
        let ghost before = texts(self.current_path@);
        let _ = self.current_path.pop();
        proof {
            assert(texts(self.current_path@) =~= before.drop_last());
        }
    }

    pub fn open_closure(&mut self, span: Span)
        requires
            old(self)@.wf(),
        ensures
            final(self)@ == (Names { open_closure_spans: old(self)@.open_closure_spans.push(span), ..old(self)@ }),
            final(self)@.wf(),
    {
        self.open_closure_spans.push(span);
    }

    pub fn close_closure(&mut self)
        requires
            old(self)@.wf(),
            old(self)@.open_closure_spans.len() > 0,
        ensures
            final(self)@ == (Names { open_closure_spans: old(self)@.open_closure_spans.drop_last(), ..old(self)@ }),
            final(self)@.wf(),
    {
        let _ = self.open_closure_spans.pop();
    }

    pub fn next_lambda(&mut self) -> (r: u32)
        requires
            old(self)@.wf(),
        ensures
            final(self)@ == (Names { lambda_counter: next_number(old(self)@.lambda_counter), ..old(self)@ }),
            final(self)@.wf(),
            old(self)@.grown_to(final(self)@),
            r == old(self)@.lambda_counter,
    {
        let n = self.lambda_counter;
        self.lambda_counter = n.wrapping_add(1);
        n
    }

    pub fn set_payloads(&mut self, id: SymbolId, types: Vec<&'a Type>)
        requires
            old(self)@.wf(),
        ensures
            final(self)@ == (Names { enum_variant_payloads: old(self)@.enum_variant_payloads.insert(id, types_of(types@)), ..old(self)@ }),
            final(self)@.wf(),
            old(self)@.grown_to(final(self)@),
    {
        let ghost before = payload_maps(self.enum_variant_payloads@);
        self.enum_variant_payloads.insert(id, types);
        proof {
            assert(payload_maps(self.enum_variant_payloads@) =~= before.insert(id, types_of(types@)));
        }
    }

    pub fn set_payload_names(&mut self, id: SymbolId, names: Vec<String>)
        requires
            old(self)@.wf(),
        ensures
            final(self)@ == (Names { enum_variant_field_names: old(self)@.enum_variant_field_names.insert(id, texts(names@)), ..old(self)@ }),
            final(self)@.wf(),
            old(self)@.grown_to(final(self)@),
    {
        let ghost before = texts_maps(self.enum_variant_field_names@);
        self.enum_variant_field_names.insert(id, names);
        proof {
            assert(texts_maps(self.enum_variant_field_names@) =~= before.insert(id, texts(names@)));
        }
    }

    pub fn set_struct_generics(&mut self, id: SymbolId, generics: Vec<SymbolId>)
        requires
            old(self)@.wf(),
        ensures
            final(self)@ == (Names { struct_generics: old(self)@.struct_generics.insert(id, generics@), ..old(self)@ }),
            final(self)@.wf(),
            old(self)@.grown_to(final(self)@),
    {
        let ghost before = syms_map(self.struct_generics@);
        self.struct_generics.insert(id, generics);
        proof {
            assert(syms_map(self.struct_generics@) =~= before.insert(id, generics@));
        }
    }

    pub fn set_enum_generics(&mut self, id: SymbolId, generics: Vec<SymbolId>)
        requires
            old(self)@.wf(),
        ensures
            final(self)@ == (Names { enum_generics: old(self)@.enum_generics.insert(id, generics@), ..old(self)@ }),
            final(self)@.wf(),
            old(self)@.grown_to(final(self)@),
    {
        let ghost before = syms_map(self.enum_generics@);
        self.enum_generics.insert(id, generics);
        proof {
            assert(syms_map(self.enum_generics@) =~= before.insert(id, generics@));
        }
    }

    pub fn set_trait_generics(&mut self, id: SymbolId, generics: Vec<SymbolId>)
        requires
            old(self)@.wf(),
        ensures
            final(self)@ == (Names { trait_generics: old(self)@.trait_generics.insert(id, generics@), ..old(self)@ }),
            final(self)@.wf(),
            old(self)@.grown_to(final(self)@),
    {
        let ghost before = syms_map(self.trait_generics@);
        self.trait_generics.insert(id, generics);
        proof {
            assert(syms_map(self.trait_generics@) =~= before.insert(id, generics@));
        }
    }

    pub fn set_trait_methods(&mut self, id: SymbolId, methods: &'a Vec<TraitMethodSig>)
        requires
            old(self)@.wf(),
        ensures
            final(self)@ == (Names { trait_methods: old(self)@.trait_methods.insert(id, methods@), ..old(self)@ }),
            final(self)@.wf(),
            old(self)@.grown_to(final(self)@),
    {
        let ghost before = sig_maps(self.trait_methods@);
        self.trait_methods.insert(id, methods);
        proof {
            assert(sig_maps(self.trait_methods@) =~= before.insert(id, methods@));
        }
    }

    pub fn set_assoc_types(&mut self, id: SymbolId, names: Vec<String>)
        requires
            old(self)@.wf(),
        ensures
            final(self)@ == (Names { trait_assoc_types: old(self)@.trait_assoc_types.insert(id, texts(names@)), ..old(self)@ }),
            final(self)@.wf(),
            old(self)@.grown_to(final(self)@),
    {
        let ghost before = texts_maps(self.trait_assoc_types@);
        self.trait_assoc_types.insert(id, names);
        proof {
            assert(texts_maps(self.trait_assoc_types@) =~= before.insert(id, texts(names@)));
        }
    }

    pub fn set_default(&mut self, id: SymbolId, name: String, f: SymbolId)
        requires
            old(self)@.wf(),
        ensures
            final(self)@ == (Names { trait_defaults: old(self)@.trait_defaults.insert((id, name@), f), ..old(self)@ }),
            final(self)@.wf(),
            old(self)@.grown_to(final(self)@),
    {
        self.trait_defaults.insert((id, name), f);
    }

    pub fn set_self_sym(&mut self, f: SymbolId, id: SymbolId)
        requires
            old(self)@.wf(),
            old(self)@.knows(id),
        ensures
            final(self)@ == (Names { default_self_syms: old(self)@.default_self_syms.insert(f, id), ..old(self)@ }),
            final(self)@.wf(),
            old(self)@.grown_to(final(self)@),
    {
        self.default_self_syms.insert(f, id);
    }

    pub fn set_bounds(&mut self, id: SymbolId, bounds: Vec<SymbolId>)
        requires
            old(self)@.wf(),
        ensures
            final(self)@ == (Names { generic_bounds: old(self)@.generic_bounds.insert(id, bounds@), ..old(self)@ }),
            final(self)@.wf(),
            old(self)@.grown_to(final(self)@),
    {
        let ghost before = syms_map(self.generic_bounds@);
        self.generic_bounds.insert(id, bounds);
        proof {
            assert(syms_map(self.generic_bounds@) =~= before.insert(id, bounds@));
        }
    }

    pub fn set_bound_args(&mut self, id: SymbolId, bound: SymbolId, spans: Vec<Span>)
        requires
            old(self)@.wf(),
        ensures
            final(self)@ == (Names { generic_bound_args: old(self)@.generic_bound_args.insert((id, bound), spans@), ..old(self)@ }),
            final(self)@.wf(),
            old(self)@.grown_to(final(self)@),
    {
        let ghost before = span_maps(self.generic_bound_args@);
        self.generic_bound_args.insert((id, bound), spans);
        proof {
            assert(span_maps(self.generic_bound_args@) =~= before.insert((id, bound), spans@));
        }
    }

    pub fn set_projection(&mut self, span: Span, id: SymbolId)
        requires
            old(self)@.wf(),
        ensures
            final(self)@ == (Names { assoc_proj_bases: old(self)@.assoc_proj_bases.insert(span, id), ..old(self)@ }),
            final(self)@.wf(),
            old(self)@.grown_to(final(self)@),
    {
        self.assoc_proj_bases.insert(span, id);
    }

    pub fn set_closure_fn(&mut self, span: Span, id: SymbolId)
        requires
            old(self)@.wf(),
        ensures
            final(self)@ == (Names { closure_fn_sym: old(self)@.closure_fn_sym.insert(span, id), ..old(self)@ }),
            final(self)@.wf(),
            old(self)@.grown_to(final(self)@),
    {
        self.closure_fn_sym.insert(span, id);
    }

    pub fn set_closure_params(&mut self, span: Span, params: Vec<SymbolId>)
        requires
            old(self)@.wf(),
        ensures
            final(self)@ == (Names { closure_params: old(self)@.closure_params.insert(span, params@), ..old(self)@ }),
            final(self)@.wf(),
            old(self)@.grown_to(final(self)@),
    {
        let ghost before = span_syms_map(self.closure_params@);
        self.closure_params.insert(span, params);
        proof {
            assert(span_syms_map(self.closure_params@) =~= before.insert(span, params@));
        }
    }

    pub fn set_closure_struct(&mut self, span: Span, id: SymbolId)
        requires
            old(self)@.wf(),
        ensures
            final(self)@ == (Names { closure_struct_sym: old(self)@.closure_struct_sym.insert(span, id), ..old(self)@ }),
            final(self)@.wf(),
            old(self)@.grown_to(final(self)@),
    {
        self.closure_struct_sym.insert(span, id);
    }

    pub fn set_closure_call(&mut self, span: Span, id: SymbolId)
        requires
            old(self)@.wf(),
        ensures
            final(self)@ == (Names { closure_call_method_sym: old(self)@.closure_call_method_sym.insert(span, id), ..old(self)@ }),
            final(self)@.wf(),
            old(self)@.grown_to(final(self)@),
    {
        self.closure_call_method_sym.insert(span, id);
    }

    pub fn set_method(&mut self, id: SymbolId, name: String, f: SymbolId)
        requires
            old(self)@.wf(),
        ensures
            final(self)@ == (Names { impl_methods: old(self)@.impl_methods.insert((id, name@), f), ..old(self)@ }),
            final(self)@.wf(),
            old(self)@.grown_to(final(self)@),
    {
        self.impl_methods.insert((id, name), f);
    }

    pub fn set_assoc_binding(&mut self, id: SymbolId, name: String, ty: &'a Type)
        requires
            old(self)@.wf(),
        ensures
            final(self)@ == (Names { impl_assoc_bindings: old(self)@.impl_assoc_bindings.insert((id, name@), *ty), ..old(self)@ }),
            final(self)@.wf(),
            old(self)@.grown_to(final(self)@),
    {
        let ghost before = binding_maps(self.impl_assoc_bindings@);
        self.impl_assoc_bindings.insert((id, name), ty);
        proof {
            assert(binding_maps(self.impl_assoc_bindings@) =~= before.insert((id, name@), *ty));
        }
    }

    pub fn set_impl_generic(&mut self, id: SymbolId, to: SymbolId)
        requires
            old(self)@.wf(),
        ensures
            final(self)@ == (Names { impl_to_struct_generic: old(self)@.impl_to_struct_generic.insert(id, to), ..old(self)@ }),
            final(self)@.wf(),
            old(self)@.grown_to(final(self)@),
    {
        self.impl_to_struct_generic.insert(id, to);
    }

    pub fn set_variants(&mut self, id: SymbolId, variants: Table<String, SymbolId>)
        requires
            old(self)@.wf(),
            forall|v: Seq<char>| variants@.contains_key(v) ==> old(self)@.knows(#[trigger] variants@[v]),
        ensures
            final(self)@ == (Names { enum_variants: old(self)@.enum_variants.insert(id, variants@), ..old(self)@ }),
            final(self)@.wf(),
            old(self)@.grown_to(final(self)@),
    {
        let ghost before = variant_maps(self.enum_variants@);
        let ghost st = self@;
        self.enum_variants.insert(id, variants);
        proof {
            assert(variant_maps(self.enum_variants@) =~= before.insert(id, variants@));
            assert forall|e: SymbolId, v: Seq<char>|
                #![trigger self@.enum_variants[e][v]]
                self@.enum_variants.contains_key(e) && self@.enum_variants[e].contains_key(v) implies self@.knows(
                self@.enum_variants[e][v],
            ) by {
                if e != id {
                    assert(st.knows(st.enum_variants[e][v]));
                }
            }
        }
    }

    /// Notes that an enum has a variant with a payload.
    pub fn mark_payload(&mut self, id: SymbolId)
        requires
            old(self)@.wf(),
        ensures
            final(self)@ == (Names {
                enum_has_payload: if old(self)@.enum_has_payload.contains(id) {
                    old(self)@.enum_has_payload
                } else {
                    old(self)@.enum_has_payload.push(id)
                },
                ..old(self)@
            }),
            final(self)@.wf(),
            old(self)@.grown_to(final(self)@),
    {
        if !contains_sym(&self.enum_has_payload, id) {
            self.enum_has_payload.push(id);
        }
    }

    pub fn set_supertraits(&mut self, id: SymbolId, supers: Vec<SymbolId>)
        requires
            old(self)@.wf(),
            old(self)@.knows(id),
        ensures
            final(self)@ == with_supertraits(old(self)@, id, supers@),
            final(self)@.wf(),
            old(self)@.grown_to(final(self)@),
    {
        let ghost before = syms_map(self.trait_supertraits@);
        let ghost order = keys_of(self.trait_supertraits.items());
        let ghost st = self@;
        self.trait_supertraits.insert(id, supers);
        proof {
            assert(syms_map(self.trait_supertraits@) =~= before.insert(id, supers@));
            if before.contains_key(id) {
                assert(keys_of(self.trait_supertraits.items()) =~= order);
            } else {
                assert(keys_of(self.trait_supertraits.items()) =~= order.push(id));
            }
            assert forall|i: int| 0 <= i < self@.supertrait_order.len() implies self@.knows(
                #[trigger] self@.supertrait_order[i],
            ) by {
                if i < st.supertrait_order.len() {
                    assert(self@.supertrait_order[i] == st.supertrait_order[i]);
                }
            }
        }
    }

    /// Notes that a struct implements a trait.
    pub fn implement(&mut self, s: SymbolId, t: SymbolId)
        requires
            old(self)@.wf(),
        ensures
            final(self)@ == implementing(old(self)@, s, t),
            final(self)@.wf(),
            old(self)@.grown_to(final(self)@),
    {
        let mut traits: Vec<SymbolId> = match self.impls_for.get(&s) {
            Some(ts) => copy_syms(ts),
            None => Vec::new(),
        };
        if !contains_sym(&traits, t) {
            traits.push(t);
        }
        let ghost before = syms_map(self.impls_for@);
        self.impls_for.insert(s, traits);
        proof {
            assert(syms_map(self.impls_for@) =~= before.insert(s, traits@));
        }
    }

    pub fn reexport(&mut self, key: String)
        requires
            old(self)@.wf(),
        ensures
            final(self)@ == (Names { pub_reexport_keys: old(self)@.pub_reexport_keys.insert(key@), ..old(self)@ }),
            final(self)@.wf(),
            old(self)@.grown_to(final(self)@),
    {
        let ghost before = texts(self.pub_reexport_keys@);
        self.pub_reexport_keys.push(key);
        proof {
            assert(texts(self.pub_reexport_keys@) =~= before.push(key@));
            assert forall|k: Seq<char>| before.push(key@).to_set().contains(k) == before.to_set().insert(
                key@,
            ).contains(k) by {
                if before.contains(k) {
                    let i = choose|i: int| 0 <= i < before.len() && before[i] == k;
                    assert(before.push(key@)[i] == k);
                }
                assert(before.push(key@)[before.len() as int] == key@);
            }
            assert(before.push(key@).to_set() =~= before.to_set().insert(key@));
        }
    }

    /// Notes a conversion from a struct.
    pub fn add_conversion(&mut self, s: SymbolId, target: &'a Type, f: SymbolId)
        requires
            old(self)@.wf(),
        ensures
            final(self)@ == converting(old(self)@, s, *target, f),
            final(self)@.wf(),
            old(self)@.grown_to(final(self)@),
    {
        let mut targets: Vec<(&'a Type, SymbolId)> = match self.into_impls.get(&s) {
            Some(ts) => copy_targets(ts),
            None => Vec::new(),
        };
        let ghost had = targets_of(targets@);
        targets.push((target, f));
        let ghost before = target_maps(self.into_impls@);
        self.into_impls.insert(s, targets);
        proof {
            assert(targets_of(targets@) =~= had.push((*target, f)));
            assert(!before.contains_key(s) ==> had =~= seq![]);
            assert(target_maps(self.into_impls@) =~= before.insert(s, targets_of(targets@)));
        }
    }

    /// Notes a use of a symbol: inside a closure, a local from outside it is
    /// captured.
    pub fn capture(&mut self, id: SymbolId)
        requires
            old(self)@.wf(),
            old(self)@.knows(id),
        ensures
            final(self)@ == after_capture(old(self)@, id),
            final(self)@.wf(),
            old(self)@.grown_to(final(self)@),
    {
        if self.open_closure_spans.len() == 0 {
            return ;
        }
        let closure: Span = self.open_closure_spans[self.open_closure_spans.len() - 1];
        let sym = &self.symbols[id.0 as usize];
        let local = match sym.kind {
            SymbolKind::Local { .. } => true,
            SymbolKind::Param => true,
            _ => false,
        };
        assert(self@.symbols[id.0 as int] == symbol_view(*sym));
        if !local || (sym.span.start >= closure.start && sym.span.end <= closure.end) {
            return ;
        }
        let mut captured: Vec<SymbolId> = match self.closure_captures.get(&closure) {
            Some(ids) => copy_syms(ids),
            None => Vec::new(),
        };
        if !contains_sym(&captured, id) {
            captured.push(id);
        }
        let ghost before = span_syms_map(self.closure_captures@);
        self.closure_captures.insert(closure, captured);
        proof {
            assert(span_syms_map(self.closure_captures@) =~= before.insert(closure, captured@));
        }
    }

    pub fn path_target(&self, span: Span) -> (r: Option<SymbolId>)
        requires
            self@.wf(),
        ensures
            r == lookup(self@.path_to_sym, span),
            r matches Some(id) ==> self@.knows(id),
    {
        match self.path_to_sym.get(&span) {
            Some(id) => {
                assert(self@.path_to_sym[span] == *id);
                Some(*id)
            },
            None => None,
        }
    }

    pub fn declared_by(&self, span: Span) -> (r: Option<SymbolId>)
        requires
            self@.wf(),
        ensures
            r == lookup(self@.decl_to_sym, span),
            r matches Some(id) ==> self@.knows(id),
    {
        match self.decl_to_sym.get(&span) {
            Some(id) => {
                assert(self@.decl_to_sym[span] == *id);
                Some(*id)
            },
            None => None,
        }
    }

    pub fn symbol(&self, id: SymbolId) -> (r: &Symbol)
        requires
            self@.knows(id),
        ensures
            symbol_view(*r) == self@.symbols[id.0 as int],
    {
        &self.symbols[id.0 as usize]
    }

    /// The number of symbols.
    pub fn symbol_count(&self) -> (r: usize)
        ensures
            r == self@.symbols.len(),
    {
        self.symbols.len()
    }

    pub fn symbol_at(&self, i: usize) -> (r: &Symbol)
        requires
            i < self@.symbols.len(),
        ensures
            symbol_view(*r) == self@.symbols[i as int],
    {
        &self.symbols[i]
    }

    pub fn variant(&self, e: SymbolId, name: &String) -> (r: Option<SymbolId>)
        requires
            self@.wf(),
        ensures
            r == (if self@.enum_variants.contains_key(e) {
                lookup(self@.enum_variants[e], name@)
            } else {
                None
            }),
            r matches Some(id) ==> self@.knows(id),
    {
        match self.enum_variants.get(&e) {
            Some(variants) => match variants.get(name) {
                Some(id) => {
                    assert(self@.enum_variants[e][name@] == *id);
                    Some(*id)
                },
                None => None,
            },
            None => None,
        }
    }

    /// Whether a struct has a method of a name.
    pub fn has_method(&self, id: SymbolId, name: String) -> (r: bool)
        ensures
            r == self@.impl_methods.contains_key((id, name@)),
    {
        self.impl_methods.contains(&(id, name))
    }

    /// The `Self` parameter of a trait's default method.
    pub fn default_self(&self, trait_sym: SymbolId, name: String) -> (r: Option<SymbolId>)
        requires
            self@.wf(),
        ensures
            r == (match lookup(self@.trait_defaults, (trait_sym, name@)) {
                Some(f) => lookup(self@.default_self_syms, f),
                None => None,
            }),
            r matches Some(id) ==> self@.knows(id),
    {
        match self.trait_defaults.get(&(trait_sym, name)) {
            Some(f) => match self.default_self_syms.get(f) {
                Some(id) => {
                    assert(self@.default_self_syms[*f] == *id);
                    Some(*id)
                },
                None => None,
            },
            None => None,
        }
    }

    /// The type parameters of a struct.
    pub fn struct_generics(&self, id: SymbolId) -> (r: Option<Vec<SymbolId>>)
        ensures
            match r {
                Some(ids) => lookup(self@.struct_generics, id) == Some(ids@),
                None => lookup(self@.struct_generics, id) is None,
            },
    {
        match self.struct_generics.get(&id) {
            Some(ids) => Some(copy_syms(ids)),
            None => None,
        }
    }

    /// Whether a closure captured anything.
    pub fn captured_any(&self, span: Span) -> (r: bool)
        ensures
            r == (self@.closure_captures.contains_key(span) && self@.closure_captures[span].len() > 0),
    {
        match self.closure_captures.get(&span) {
            Some(ids) => ids.len() > 0,
            None => false,
        }
    }

    /// A name inside the current module, as a key of the global scope.
    pub fn key_here(&self, name: &str) -> (r: String)
        ensures
            r@ == in_module(self@.current_path, name@),
    {
        self.key_at(name, self.current_path.len())
    }

    /// A name inside the module some levels down the current path.
    fn key_at(&self, name: &str, depth: usize) -> (r: String)
        requires
            depth <= self@.current_path.len(),
        ensures
            r@ == in_module(self@.current_path.take(depth as int), name@),
            depth == self@.current_path.len() ==> r@ == in_module(self@.current_path, name@),
    {
        assert(self@.current_path.take(self@.current_path.len() as int) =~= self@.current_path);
        if depth == 0 {
            return name.to_owned();
        }
        let mut key = join_first(&self.current_path, depth, "::");
        key.append("::");
        key.append(name);
        key
    }

    /// The name a function of the current module gets in generated code.
    pub fn code_name(&self, name: &str) -> (r: String)
        ensures
            r@ == mangled_fn(self@.current_path, name@),
    {
        if self.current_path.len() == 0 {
            return name.to_owned();
        }
        let mut key = join(&self.current_path, "__");
        key.append("__");
        key.append(name);
        key
    }

    /// Looks a name up from the module some levels down the current path
    /// outwards.
    fn lookup_in_modules(&self, name: &str, depth: usize) -> (r: Option<(SymbolId, String)>)
        requires
            self@.wf(),
            depth <= self@.current_path.len(),
        ensures
            match r {
                Some((id, key)) => in_modules(self@.scopes[0], self@.current_path, name@, depth as nat) == Some(
                    (id, key@),
                ) && self@.knows(id),
                None => in_modules(self@.scopes[0], self@.current_path, name@, depth as nat) is None,
            },
        decreases depth,
    {
        let key = self.key_at(name, depth);
        assert(self@.scopes[0] == self.scopes@[0]@);
        match self.scopes[0].get(&key) {
            Some(id) => {
                assert(self@.scopes[0][key@] == *id);
                return Some((*id, key));
            },
            None => {},
        }
        if depth == 0 {
            None
        } else {
            self.lookup_in_modules(name, depth - 1)
        }
    }

    /// Looks a bare name up.
    pub fn lookup_name(&self, name: &String) -> (r: Option<SymbolId>)
        requires
            self@.wf(),
        ensures
            r == name_lookup(self@, name@),
            r matches Some(id) ==> self@.knows(id),
    {
        let mut k: usize = self.scopes.len();
        while k > 1
            invariant
                self@.wf(),
                k <= self.scopes.len(),
                self.scopes.len() == self@.scopes.len(),
                in_scopes(self@.scopes, name@, self@.scopes.len()) == in_scopes(self@.scopes, name@, k as nat),
            decreases k,
        {
            assert(self@.scopes[k - 1] == self.scopes@[k - 1]@);
            match self.scopes[k - 1].get(name) {
                Some(id) => {
                    assert(self@.scopes[k - 1][name@] == *id);
                    return Some(*id);
                },
                None => {},
            }
            k -= 1;
        }
        match self.lookup_in_modules(name.as_str(), self.current_path.len()) {
            Some((id, _)) => Some(id),
            None => None,
        }
    }

    /// Looks up the path made of the first `n` segments.
    pub fn lookup_path(&self, segments: &Vec<Ident>, n: usize) -> (r: Option<(SymbolId, String)>)
        requires
            self@.wf(),
            n <= segments.len(),
        ensures
            match r {
                Some((id, key)) => path_lookup(self@, segment_names(segments@).take(n as int)) == Some((id, key@))
                    && self@.knows(id),
                None => path_lookup(self@, segment_names(segments@).take(n as int)) is None,
            },
    {
        let ghost segs = segment_names(segments@).take(n as int);
        if n == 1 {
            assert(segs[0] == segments@[0].name@);
            return match self.lookup_name(&segments[0].name) {
                Some(id) => Some((id, segments[0].name.clone())),
                None => None,
            };
        }
        let tail = join_names(segments, n);
        assert(self@.scopes[0] == self.scopes@[0]@);
        match self.scopes[0].get(&tail) {
            Some(id) => {
                assert(self@.scopes[0][tail@] == *id);
                return Some((*id, tail));
            },
            None => {},
        }
        self.lookup_in_modules(tail.as_str(), self.current_path.len())
    }

    /// Whether a symbol is visible from the current module.
    pub fn is_visible(&self, sym: SymbolId) -> (r: bool)
        ensures
            r == visible(self@, sym),
    {
        match self.item_vis.get(&sym) {
            None => true,
            Some(v) => {
                assert(self@.item_vis[sym] == (texts(v.0@), v.1));
                v.1 || has_prefix(&self.current_path, &v.0)
            },
        }
    }

    fn is_reexport(&self, key: &String) -> (r: bool)
        ensures
            r == self@.pub_reexport_keys.contains(key@),
    {
        let mut i: usize = 0;
        while i < self.pub_reexport_keys.len()
            invariant
                i <= self.pub_reexport_keys.len(),
                forall|j: int| 0 <= j < i ==> texts(self.pub_reexport_keys@)[j] != key@,
            decreases self.pub_reexport_keys.len() - i,
        {
            if same_text(self.pub_reexport_keys[i].as_str(), key.as_str()) {
                assert(texts(self.pub_reexport_keys@)[i as int] == key@);
                assert(texts(self.pub_reexport_keys@).contains(key@));
                return true;
            }
            i += 1;
        }
        false
    }

    /// Records that a symbol is private.
    pub fn visibility_error(&mut self, shown: &str, sym: SymbolId, span: Span)
        requires
            old(self)@.wf(),
        ensures
            final(self)@ == with_error(old(self)@, private_message(old(self)@, shown@, sym), span),
            final(self)@.wf(),
            old(self)@.grown_to(final(self)@),
    {
        let mut place: String = "another module".to_owned();
        match self.item_vis.get(&sym) {
            Some(v) => {
                assert(self@.item_vis[sym] == (texts(v.0@), v.1));
                if v.0.len() == 0 {
                    place = "the crate root".to_owned();
                } else {
                    place = "module `".to_owned();
                    place.append(join(&v.0, "::").as_str());
                    place.append("`");
                }
            },
            None => {},
        }
        let mut m: String = "`".to_owned();
        m.append(shown);
        m.append("` is private to ");
        m.append(place.as_str());
        self.error(m, span);
    }

    /// Checks that every module on the way to a key, and the item itself, is
    /// visible.
    pub fn check_path_visibility(&mut self, key: &String, span: Span)
        requires
            old(self)@.wf(),
        ensures
            final(self)@ == after_visibility(old(self)@, key@, span),
            final(self)@.wf(),
            old(self)@.grown_to(final(self)@),
    {
        if self.is_reexport(key) {
            return ;
        }
        let parts = split_path(key.as_str());
        let ghost st = self@;
        let ghost p = hides(st, texts(parts@));
        let mut i: usize = 0;
        while i < parts.len()
            invariant
                i <= parts.len(),
                self@ == st,
                st == old(self)@,
                st.wf(),
                p == hides(st, texts(parts@)),
                texts(parts@) == path_parts(key@),
                !st.pub_reexport_keys.contains(key@),
                first_where(p, i as nat) is None,
            decreases parts.len() - i,
        {
            let prefix = join_first(&parts, i + 1, "::");
            let re = self.is_reexport(&prefix);
            assert(self@.scopes[0] == self.scopes@[0]@);
            let hidden = if re {
                None
            } else {
                match self.scopes[0].get(&prefix) {
                    Some(id) => if self.is_visible(*id) {
                        None
                    } else {
                        Some(*id)
                    },
                    None => None,
                }
            };
            match hidden {
                Some(id) => {
                    proof {
                        assert(p(i as int));
                        assert(first_where(p, (i + 1) as nat) == Some(i as int));
                        found_stays(p, (i + 1) as nat, parts@.len());
                    }
                    self.visibility_error(parts[i].as_str(), id, span);
                    return ;
                },
                None => {},
            }
            i += 1;
        }
    }

    /// Finds the module a glob import names.
    pub fn find_module(&self, tail: String) -> (r: Option<String>)
        requires
            self@.wf(),
        ensures
            match r {
                Some(key) => glob_module(self@, tail@) == Some(key@),
                None => glob_module(self@, tail@) is None,
            },
    {
        if self.is_module(&tail) {
            return Some(tail);
        }
        let mut depth: usize = self.current_path.len();
        while depth > 0
            invariant
                self@.wf(),
                depth <= self@.current_path.len(),
                !module_at(self@, tail@),
                enclosing_module(self@, tail@, self@.current_path.len()) == enclosing_module(self@, tail@, depth as nat),
            decreases depth,
        {
            let key = self.key_at(tail.as_str(), depth);
            if self.is_module(&key) {
                return Some(key);
            }
            depth -= 1;
        }
        None
    }

    fn is_module(&self, key: &String) -> (r: bool)
        requires
            self@.wf(),
        ensures
            r == module_at(self@, key@),
    {
        assert(self@.scopes[0] == self.scopes@[0]@);
        match self.scopes[0].get(key) {
            Some(id) => {
                assert(self@.scopes[0][key@] == *id);
                match self.symbol(*id).kind {
                    SymbolKind::Module => true,
                    _ => false,
                }
            },
            None => false,
        }
    }

    /// The traits with a supertrait list, in the order they got one.
    pub fn traits_in_order(&self) -> (r: Vec<SymbolId>)
        ensures
            r@ == self@.supertrait_order,
    {
        let n = self.trait_supertraits.len();
        let mut out: Vec<SymbolId> = Vec::new();
        let mut i: usize = 0;
        while i < n
            invariant
                i <= n,
                n == self.trait_supertraits.items().len(),
                out.len() == i,
                forall|j: int| 0 <= j < i ==> out[j] == self.trait_supertraits.items()[j].0,
            decreases n - i,
        {
            out.push(self.trait_supertraits.entry(i).0);
            i += 1;
        }
        assert(out@ =~= self@.supertrait_order);
        out
    }

    /// Whether a trait is among its own supertraits.
    pub fn is_cyclic(&self, t: SymbolId) -> (r: bool)
        ensures
            r == cyclic(self@, t),
    {
        let mut from: Vec<SymbolId> = Vec::new();
        match self.trait_supertraits.get(&t) {
            Some(supers) => {
                assert(next_of(self@.trait_supertraits, t) == supers@);
                add_new(&mut from, supers);
            },
            None => {
                assert(next_of(self@.trait_supertraits, t) =~= seq![]);
            },
        }
        assert(Seq::<SymbolId>::empty() =~= seq![]);
        let all = reach(&self.trait_supertraits, from);
        contains_sym(&all, t)
    }

    /// Whether a symbol is of the trait kind.
    pub fn is_trait(&self, id: SymbolId) -> (r: bool)
        requires
            self@.knows(id),
        ensures
            r == (self@.kind(id) is Trait),
    {
        match self.symbol(id).kind {
            SymbolKind::Trait => true,
            _ => false,
        }
    }

    /// Gives a struct a trait's default methods, except those its impl
    /// defines and those it has.
    pub fn add_default_methods(&mut self, ms: &Vec<FnDecl>, struct_sym: SymbolId, trait_sym: SymbolId)
        requires
            old(self)@.wf(),
        ensures
            final(self)@ == (Names {
                impl_methods: with_default_methods(old(self)@, ms@, struct_sym, trait_sym),
                ..old(self)@
            }),
            final(self)@.wf(),
            old(self)@.grown_to(final(self)@),
    {
        let ghost st = self@;
        let n = self.trait_defaults.len();
        let ghost items = self.trait_defaults.items();
        let mut i: usize = 0;
        while i < n
            invariant
                i <= n,
                n == items.len(),
                items == self.trait_defaults.items(),
                self.trait_defaults@ == st.trait_defaults,
                st == old(self)@,
                st.wf(),
                self@ == (Names { impl_methods: self@.impl_methods, ..st }),
                forall|k: (SymbolId, Seq<char>)|
                    #![trigger self@.impl_methods.contains_key(k)]
                    self@.impl_methods.contains_key(k) == (st.impl_methods.contains_key(k) || (k.0 == struct_sym
                        && entry_seen(items, i as int, (trait_sym, k.1)) && !defines(ms@, k.1))),
                forall|k: (SymbolId, Seq<char>)|
                    #![trigger self@.impl_methods[k]]
                    self@.impl_methods.contains_key(k) ==> self@.impl_methods[k] == (
                    if st.impl_methods.contains_key(k) {
                        st.impl_methods[k]
                    } else {
                        st.trait_defaults[(trait_sym, k.1)]
                    }),
            decreases n - i,
        {
            let ghost before = self@;
            let e = self.trait_defaults.entry(i);
            let f = e.1;
            let mine = e.0.0.0 == trait_sym.0 && !defines_method(ms, &e.0.1);
            let name = e.0.1.clone();
            let ghost key = e.0.id();
            assert(key == (items[i as int].0.0, name@));
            proof {
                assert forall|k: (SymbolId, Seq<char>)| entry_seen(items, i + 1, k) == (entry_seen(items, i as int, k) || k == key) by {
                    if entry_seen(items, i + 1, k) {
                        let j = choose|j: int| 0 <= j < i + 1 && (#[trigger] items[j]).0.id() == k;
                        assert(items[j].0.id() == k);
                    }
                    if k == key {
                        assert(items[i as int].0.id() == k);
                    }
                    if entry_seen(items, i as int, k) {
                        let j = choose|j: int| 0 <= j < i && (#[trigger] items[j]).0.id() == k;
                        assert(items[j].0.id() == k);
                    }
                }
            }
            if mine && !self.has_method(struct_sym, name.clone()) {
                self.impl_methods.insert((struct_sym, name), f);
            }
            proof {
                assert forall|k: (SymbolId, Seq<char>)|
                    #![trigger self@.impl_methods.contains_key(k)]
                    self@.impl_methods.contains_key(k) == (st.impl_methods.contains_key(k) || (k.0 == struct_sym
                        && entry_seen(items, i + 1, (trait_sym, k.1)) && !defines(ms@, k.1))) by {
                    assert(before.impl_methods.contains_key(k) || !before.impl_methods.contains_key(k));
                    assert(k == (k.0, k.1));
                }
                assert forall|k: (SymbolId, Seq<char>)|
                    #![trigger self@.impl_methods[k]]
                    self@.impl_methods.contains_key(k) implies self@.impl_methods[k] == (
                if st.impl_methods.contains_key(k) {
                    st.impl_methods[k]
                } else {
                    st.trait_defaults[(trait_sym, k.1)]
                }) by {
                    if before.impl_methods.contains_key(k) {
                        assert(before.impl_methods[k] == self@.impl_methods[k]);
                    }
                }
            }
            i += 1;
        }
        proof {
            let want = with_default_methods(st, ms@, struct_sym, trait_sym);
            assert forall|k: (SymbolId, Seq<char>)| self@.impl_methods.contains_key(k) == want.contains_key(k) by {
                let d = (trait_sym, k.1);
                if st.trait_defaults.contains_key(d) {
                    entry_of_key(self.trait_defaults, d);
                }
                if entry_seen(items, n as int, d) {
                    let j = choose|j: int| 0 <= j < n && (#[trigger] items[j]).0.id() == d;
                    has_key_of_entry(self.trait_defaults, j);
                }
            }
            assert(self@.impl_methods =~= want);
        }
    }

    /// The direct items of a module, by name.
    fn children(&self, module: &String) -> (r: Vec<(String, SymbolId)>)
        requires
            self@.wf(),
        ensures
            forall|c: int|
                0 <= c < r@.len() ==> is_child(self@, module@, (#[trigger] r@[c]).0@) && r@[c].1
                    == self@.scopes[0][module@ + "::"@ + r@[c].0@],
            forall|name: Seq<char>|
                #[trigger] is_child(self@, module@, name) ==> exists|c: int| 0 <= c < r@.len() && (#[trigger] r@[c]).0@ == name,
    {
        let mut prefix: String = module.clone();
        prefix.append("::");
        let mut out: Vec<(String, SymbolId)> = Vec::new();
        let global = &self.scopes[0];
        let ghost g = self@.scopes[0];
        assert(g == global@);
        let n = global.len();
        let mut i: usize = 0;
        while i < n
            invariant
                i <= n,
                n == global.items().len(),
                g == global@,
                g == self@.scopes[0],
                prefix@ == module@ + "::"@,
                forall|c: int|
                    0 <= c < out@.len() ==> is_child(self@, module@, (#[trigger] out@[c]).0@) && out@[c].1
                        == g[module@ + "::"@ + out@[c].0@],
                forall|k: int, name: Seq<char>|
                    0 <= k < i && (#[trigger] global.items()[k]).0@ == module@ + "::"@ + name && !(
                    #[trigger] has_separator(name)) ==> exists|c: int|
                        0 <= c < out@.len() && (#[trigger] out@[c]).0@ == name,
            decreases n - i,
        {
            let e = global.entry(i);
            let rest = last_part_after(e.0.as_str(), prefix.as_str());
            let ghost before = out@;
            let ghost key = e.0@;
            proof {
                assert forall|name: Seq<char>| key == #[trigger] (prefix@ + name) implies after_prefix(
                    key,
                    prefix@,
                ) == Some(name) by {
                    prefix_then(prefix@, name);
                }
            }
            match rest {
                Some(rest) => {
                    assert(key =~= prefix@ + rest@);
                    let ghost name = rest@;
                    out.push((rest, e.1));
                    proof {
                        assert(is_child(self@, module@, name));
                        assert(out@[before.len() as int].0@ == name);
                        assert forall|c: int| 0 <= c < before.len() implies #[trigger] out@[c] == before[c] by {}
                    }
                },
                None => {},
            }
            proof {
                assert forall|k: int, name: Seq<char>|
                    0 <= k < i + 1 && (#[trigger] global.items()[k]).0@ == module@ + "::"@ + name && !(
                    #[trigger] has_separator(name)) implies exists|c: int|
                    0 <= c < out@.len() && (#[trigger] out@[c]).0@ == name by {
                    if k < i {
                        let c = choose|c: int| 0 <= c < before.len() && (#[trigger] before[c]).0@ == name;
                        assert(out@[c].0@ == name);
                    } else {
                        assert(key == prefix@ + name);
                        assert(rest is Some);
                        assert(out@[before.len() as int].0@ == name);
                    }
                }
            }
            i += 1;
        }
        proof {
            assert forall|name: Seq<char>| #[trigger] is_child(self@, module@, name) implies exists|c: int|
                0 <= c < out@.len() && (#[trigger] out@[c]).0@ == name by {
                entry_of_key(*global, module@ + "::"@ + name);
                let k = choose|k: int|
                    0 <= k < global.items().len() && (#[trigger] global.items()[k]).0.id() == module@ + "::"@ + name;
                assert(global.items()[k].0@ == module@ + "::"@ + name);
                assert(!has_separator(name));
            }
        }
        out
    }

    /// Imports every visible direct item of a module.
    pub fn import_all(&mut self, module: &String, public: bool)
        requires
            old(self)@.wf(),
        ensures
            final(self)@ == after_glob(old(self)@, module@, public),
            final(self)@.wf(),
            old(self)@.grown_to(final(self)@),
    {
        let ghost st = self@;
        let children = self.children(module);
        let ghost cs = children@;
        let mut i: usize = 0;
        assert(st.scopes =~= st.scopes.update(0, st.scopes[0]));
        while i < children.len()
            invariant
                i <= children.len(),
                cs == children@,
                st == old(self)@,
                st.wf(),
                self@.wf(),
                self@ == (Names {
                    scopes: st.scopes.update(0, self@.scopes[0]),
                    pub_reexport_keys: self@.pub_reexport_keys,
                    ..st
                }),
                forall|c: int|
                    0 <= c < cs.len() ==> is_child(st, module@, (#[trigger] cs[c]).0@) && cs[c].1
                        == st.scopes[0][module@ + "::"@ + cs[c].0@],
                forall|name: Seq<char>|
                    #[trigger] is_child(st, module@, name) ==> exists|c: int| 0 <= c < cs.len() && (#[trigger] cs[c]).0@ == name,
                forall|key: Seq<char>|
                    #![trigger self@.scopes[0].contains_key(key)]
                    self@.scopes[0].contains_key(key) == (st.scopes[0].contains_key(key) || brought(st, cs, i as int, key)),
                forall|key: Seq<char>|
                    #![trigger self@.scopes[0][key]]
                    self@.scopes[0].contains_key(key) ==> self@.scopes[0][key] == (if st.scopes[0].contains_key(key) {
                        st.scopes[0][key]
                    } else {
                        st.scopes[0][module@ + "::"@ + local_name(st, key).unwrap()]
                    }),
                forall|key: Seq<char>|
                    #![trigger self@.pub_reexport_keys.contains(key)]
                    self@.pub_reexport_keys.contains(key) == (st.pub_reexport_keys.contains(key) || (public && brought(
                        st,
                        cs,
                        i as int,
                        key,
                    ))),
            decreases children.len() - i,
        {
            let ghost before = self@;
            let id = children[i].1;
            let ghost name = cs[i as int].0@;
            assert(is_child(st, module@, name));
            assert(st.knows(st.scopes[0][module@ + "::"@ + name]));
            let ghost here = in_module(st.current_path, name);
            proof {
                brought_next(st, cs, i as int);
                assert(visible(st, id) == visible(self@, id));
            }
            if self.is_visible(id) {
                let key = self.key_here(children[i].0.as_str());
                if public {
                    self.reexport(key.clone());
                }
                assert(self@.scopes == before.scopes);
                assert(self@.scopes[0] == self.scopes@[0]@);
                if !self.scopes[0].contains(&key) {
                    self.bind_global(key, id);
                }
                proof {
                    assert(key@ == here);
                    local_names_are_unique(st, here, name);
                    assert(self@.scopes =~= st.scopes.update(0, self@.scopes[0]));
                    assert forall|k: Seq<char>|
                        #![trigger self@.scopes[0][k]]
                        self@.scopes[0].contains_key(k) implies self@.scopes[0][k] == (
                    if st.scopes[0].contains_key(k) {
                        st.scopes[0][k]
                    } else {
                        st.scopes[0][module@ + "::"@ + local_name(st, k).unwrap()]
                    }) by {
                        if before.scopes[0].contains_key(k) {
                            assert(before.scopes[0][k] == self@.scopes[0][k]);
                        }
                    }
                }
            }
            proof {
                assert forall|k: Seq<char>|
                    #![trigger self@.scopes[0].contains_key(k)]
                    self@.scopes[0].contains_key(k) == (st.scopes[0].contains_key(k) || brought(st, cs, i + 1, k)) by {
                    assert(before.scopes[0].contains_key(k) || !before.scopes[0].contains_key(k));
                    assert(brought(st, cs, i + 1, k) == (brought(st, cs, i as int, k) || (k == here && visible(st, id))));
                }
                assert forall|k: Seq<char>|
                    #![trigger self@.pub_reexport_keys.contains(k)]
                    self@.pub_reexport_keys.contains(k) == (st.pub_reexport_keys.contains(k) || (public && brought(
                        st,
                        cs,
                        i + 1,
                        k,
                    ))) by {
                    assert(before.pub_reexport_keys.contains(k) || !before.pub_reexport_keys.contains(k));
                    assert(brought(st, cs, i + 1, k) == (brought(st, cs, i as int, k) || (k == here && visible(st, id))));
                }
            }
            i += 1;
        }
        proof {
            let want = after_glob(st, module@, public);
            assert forall|key: Seq<char>| brought(st, cs, cs.len() as int, key) == imports_key(st, module@, key) by {
                match local_name(st, key) {
                    Some(name) => {
                        if imports(st, module@, name) {
                            assert(is_child(st, module@, name));
                            let c = choose|c: int| 0 <= c < cs.len() && (#[trigger] cs[c]).0@ == name;
                            assert(cs[c].0@ == name);
                        }
                    },
                    None => {},
                }
            }
            assert(self@.scopes[0] =~= want.scopes[0]);
            assert(self@.scopes =~= want.scopes);
            assert(self@.pub_reexport_keys =~= want.pub_reexport_keys);
        }
    }
}

/// Whether some of the first `n` entries has a key.
pub open spec fn entry_seen(items: Seq<((SymbolId, String), SymbolId)>, n: int, k: (SymbolId, Seq<char>)) -> bool {
    exists|j: int| 0 <= j < n && (#[trigger] items[j]).0.id() == k
}

/// Whether a module has an item directly.
pub open spec fn is_child(st: Names, module: Seq<char>, name: Seq<char>) -> bool {
    !has_separator(name) && st.scopes[0].contains_key(module + "::"@ + name)
}

/// Whether one of the first `n` children is visible and bound under a key
/// of the current module.
pub open spec fn brought(st: Names, cs: Seq<(String, SymbolId)>, n: int, key: Seq<char>) -> bool {
    match local_name(st, key) {
        Some(name) => exists|c: int| 0 <= c < n && (#[trigger] cs[c]).0@ == name && visible(st, cs[c].1),
        None => false,
    }
}

proof fn prefix_then(prefix: Seq<char>, rest: Seq<char>)
    ensures
        after_prefix(prefix + rest, prefix) == Some(rest),
{
    assert((prefix + rest).take(prefix.len() as int) =~= prefix);
    assert((prefix + rest).skip(prefix.len() as int) =~= rest);
}

/// A key of the current module stands for exactly one name.
proof fn local_names_are_unique(st: Names, key: Seq<char>, name: Seq<char>)
    ensures
        (local_name(st, key) == Some(name)) == (key == in_module(st.current_path, name)),
{
    if st.current_path.len() > 0 {
        let prefix = joined(st.current_path, "::"@) + "::"@;
        prefix_then(prefix, name);
        if local_name(st, key) == Some(name) {
            assert(key =~= key.take(prefix.len() as int) + key.skip(prefix.len() as int));
        }
    }
}

proof fn brought_next(st: Names, cs: Seq<(String, SymbolId)>, i: int)
    requires
        0 <= i < cs.len(),
    ensures
        forall|k: Seq<char>|
            #![trigger brought(st, cs, i + 1, k)]
            brought(st, cs, i + 1, k) == (brought(st, cs, i, k) || (k == in_module(st.current_path, cs[i].0@) && visible(
                st,
                cs[i].1,
            ))),
{
    assert forall|k: Seq<char>| #![trigger brought(st, cs, i + 1, k)] brought(st, cs, i + 1, k) == (brought(st, cs, i, k) || (
    k == in_module(st.current_path, cs[i].0@) && visible(st, cs[i].1))) by {
        local_names_are_unique(st, k, cs[i].0@);
        match local_name(st, k) {
            Some(name) => {
                if brought(st, cs, i, k) {
                    let c = choose|c: int| 0 <= c < i && (#[trigger] cs[c]).0@ == name && visible(st, cs[c].1);
                    assert(cs[c].0@ == name);
                }
                if brought(st, cs, i + 1, k) {
                    let c = choose|c: int| 0 <= c < i + 1 && (#[trigger] cs[c]).0@ == name && visible(st, cs[c].1);
                    if c < i {
                        assert(cs[c].0@ == name);
                    }
                }
            },
            None => {},
        }
    }
}

/// Whether an impl defines a method.
fn defines_method(ms: &Vec<FnDecl>, name: &String) -> (r: bool)
    ensures
        r == defines(ms@, name@),
{
    let mut i: usize = 0;
    while i < ms.len()
        invariant
            i <= ms.len(),
            forall|j: int| 0 <= j < i ==> (#[trigger] ms@[j]).name.name@ != name@,
        decreases ms.len() - i,
    {
        if same_text(ms[i].name.name.as_str(), name.as_str()) {
            assert(ms@[i as int].name.name@ == name@);
            return true;
        }
        i += 1;
    }
    false
}

/// Whether a list of texts starts with another.
fn has_prefix(path: &Vec<String>, prefix: &Vec<String>) -> (r: bool)
    ensures
        r == starts_with(texts(path@), texts(prefix@)),
{
    if prefix.len() > path.len() {
        return false;
    }
    let ghost head = texts(path@).take(prefix@.len() as int);
    let mut i: usize = 0;
    while i < prefix.len()
        invariant
            i <= prefix.len() <= path.len(),
            head == texts(path@).take(prefix@.len() as int),
            forall|j: int| 0 <= j < i ==> head[j] == texts(prefix@)[j],
        decreases prefix.len() - i,
    {
        if !same_text(path[i].as_str(), prefix[i].as_str()) {
            assert(head[i as int] != texts(prefix@)[i as int]);
            return false;
        }
        i += 1;
    }
    assert(head =~= texts(prefix@));
    true
}

/// The first `n` segments of a path, joined.
pub fn join_names(segments: &Vec<Ident>, n: usize) -> (r: String)
    requires
        n <= segments.len(),
    ensures
        r@ == joined(segment_names(segments@).take(n as int), "::"@),
{
    let mut out = String::new();
    let mut i: usize = 0;
    while i < n
        invariant
            i <= n <= segments.len(),
            out@ == joined(segment_names(segments@).take(i as int), "::"@),
        decreases n - i,
    {
        if i > 0 {
            out.append("::");
        }
        out.append(segments[i].name.as_str());
        proof {
            let t = segment_names(segments@).take(i + 1);
            assert(t.drop_last() =~= segment_names(segments@).take(i as int));
            if i == 0 {
                assert(out@ =~= segments@[0].name@);
            }
        }
        i += 1;
    }
    out
}

fn copy_targets<'a>(ts: &Vec<(&'a Type, SymbolId)>) -> (r: Vec<(&'a Type, SymbolId)>)
    ensures
        r@ == ts@,
{
    let mut out: Vec<(&'a Type, SymbolId)> = Vec::new();
    let mut i: usize = 0;
    while i < ts.len()
        invariant
            i <= ts.len(),
            out@ == ts@.take(i as int),
        decreases ts.len() - i,
    {
        out.push((ts[i].0, ts[i].1));
        assert(ts@.take(i + 1) =~= ts@.take(i as int).push(ts@[i as int]));
        i += 1;
    }
    assert(ts@.take(i as int) =~= ts@);
    out
}

/// Noting what a path refers to keeps the tables' symbols known.
proof fn paths_stay_known(st: Names, span: Span, id: SymbolId)
    requires
        st.wf(),
        st.knows(id),
    ensures
        with_path(st, span, id).wf(),
{
    let later = with_path(st, span, id);
    assert forall|s: Span| #![trigger later.path_to_sym[s]] later.path_to_sym.contains_key(s) implies later.knows(
        later.path_to_sym[s],
    ) by {
        if s != span {
            assert(st.knows(st.path_to_sym[s]));
        }
    }
    assert forall|i: int, n: Seq<char>|
        #![trigger later.scopes[i][n]]
        0 <= i < later.scopes.len() && later.scopes[i].contains_key(n) implies later.knows(later.scopes[i][n]) by {
        assert(st.knows(st.scopes[i][n]));
    }
}

/// Noting what a name declares keeps the tables' symbols known.
proof fn decls_stay_known(st: Names, span: Span, id: SymbolId)
    requires
        st.wf(),
        st.knows(id),
    ensures
        with_decl(st, span, id).wf(),
{
    let later = with_decl(st, span, id);
    assert forall|s: Span| #![trigger later.decl_to_sym[s]] later.decl_to_sym.contains_key(s) implies later.knows(
        later.decl_to_sym[s],
    ) by {
        if s != span {
            assert(st.knows(st.decl_to_sym[s]));
        }
    }
    assert forall|i: int, n: Seq<char>|
        #![trigger later.scopes[i][n]]
        0 <= i < later.scopes.len() && later.scopes[i].contains_key(n) implies later.knows(later.scopes[i][n]) by {
        assert(st.knows(st.scopes[i][n]));
    }
}

/// Binding a known symbol in a scope keeps every bound name known.
proof fn scopes_stay_known(st: Names, at: int, name: Seq<char>, id: SymbolId)
    requires
        st.wf(),
        st.knows(id),
        0 <= at < st.scopes.len(),
    ensures
        forall|i: int, n: Seq<char>|
            #![trigger st.scopes.update(at, st.scopes[at].insert(name, id))[i][n]]
            0 <= i < st.scopes.len() && st.scopes.update(at, st.scopes[at].insert(name, id))[i].contains_key(n)
                ==> st.knows(st.scopes.update(at, st.scopes[at].insert(name, id))[i][n]),
{
    let ss = st.scopes.update(at, st.scopes[at].insert(name, id));
    assert forall|i: int, n: Seq<char>| #![trigger ss[i][n]] 0 <= i < st.scopes.len() && ss[i].contains_key(n) implies st.knows(
        ss[i][n],
    ) by {
        if i != at || n != name {
            assert(st.knows(st.scopes[i][n]));
        }
    }
}

} // verus!
