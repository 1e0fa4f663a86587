//! Name resolution.

use vstd::prelude::*;

use crate::ast::{
    AssocTypeBinding, AssocTypeDecl, Block, ClosureParam, EnumDecl, Expr, Field, FieldInit,
    FnDecl, GenericParam, Ident, ImplBlock, Item, MatchArm, Module, Param, Path, Pattern, Stmt,
    StructDecl, TraitDecl, TraitMethodSig, Type, UseDecl, Variant, VariantFields, Visibility,
    type_span,
};
use crate::names::{
    NameStore, Names, SymbolKindV, SymbolV, after_capture, after_glob, after_visibility,
    bound_globally, bound_here, converting, cyclic, declared_here, entered, error_views,
    generic_id, generic_interned, generics_declared, generics_interned, glob_module, holds,
    implementing, in_module, in_nested, interned, item_interned, join_names, left, mangled_fn,
    name_lookup, no_names, out_of_nested, path_lookup, private_message, segment_names,
    symbol_kind_view, symbol_view, types_of, visible, with_decl, with_default_methods,
    with_error, with_path, with_supertraits, with_symbol, with_visibility,
};
use crate::search::{first_where, found_stays};
use crate::table::{Table, lookup};
use crate::text::{cat6, dec, joined, number, push_dec, same_text, texts};
use crate::token::Span;
use crate::ty::{FloatTy, IntTy, SymbolId, Ty, TyV, next_number, ty_view, ty_views};

verus! {

/// A declared name.
#[derive(Debug, Clone)]
pub struct Symbol {
    pub name: String,
    /// Where the name is declared.
    pub span: Span,
    pub kind: SymbolKind,
}

#[derive(Debug, Clone)]
pub enum SymbolKind {
    BuiltinType(Ty),
    /// A function the runtime provides, with a fixed signature.
    BuiltinFn(BuiltinFn),
    /// A function the runtime provides in several versions, told apart by
    /// the argument type.
    PolyBuiltinFn(&'static str),
    Fn,
    Local { mutable: bool },
    Param,
    Struct,
    Enum,
    EnumVariant { enum_sym: SymbolId, discriminant: u32 },
    Const,
    TypeParam,
    Trait,
    Module,
}

#[derive(Debug, Clone)]
pub struct BuiltinFn {
    pub name: &'static str,
    pub params: Vec<Ty>,
    pub ret: Ty,
}

/// What name resolution found. The tables that hold syntax refer to the
/// module they were made from.
pub struct Resolutions<'a> {
    pub symbols: Vec<Symbol>,
    /// What each path refers to, by the path's span.
    pub path_to_sym: Table<Span, SymbolId>,
    /// What each declaring name declares, by the name's span.
    pub decl_to_sym: Table<Span, SymbolId>,
    /// The function behind a method name on a struct.
    pub impl_methods: Table<(SymbolId, String), SymbolId>,
    /// Per enum, its variants by name.
    pub enum_variants: Table<SymbolId, Table<String, SymbolId>>,
    /// Per variant, its payload types in declaration order.
    pub enum_variant_payloads: Table<SymbolId, Vec<&'a Type>>,
    /// Per variant with named fields, the names in declaration order.
    pub enum_variant_field_names: Table<SymbolId, Vec<String>>,
    /// Per generic struct, its type parameters in declaration order.
    pub struct_generics: Table<SymbolId, Vec<SymbolId>>,
    pub enum_generics: Table<SymbolId, Vec<SymbolId>>,
    /// Per trait, the signatures it declares.
    pub trait_methods: Table<SymbolId, &'a Vec<TraitMethodSig>>,
    /// Per trait, its direct supertraits.
    pub trait_supertraits: Table<SymbolId, Vec<SymbolId>>,
    pub trait_generics: Table<SymbolId, Vec<SymbolId>>,
    /// For a path `T::Name` on a type parameter, the parameter.
    pub assoc_proj_bases: Table<Span, SymbolId>,
    /// Per struct, the traits it has an explicit impl for, each once.
    pub impls_for: Table<SymbolId, Vec<SymbolId>>,
    /// Per closure, the symbol of its function.
    pub closure_fn_sym: Table<Span, SymbolId>,
    /// Per closure, its parameters in order.
    pub closure_params: Table<Span, Vec<SymbolId>>,
    /// Per closure, the outer locals its body refers to, each once.
    pub closure_captures: Table<Span, Vec<SymbolId>>,
    /// Per closure, the struct that is its type.
    pub closure_struct_sym: Table<Span, SymbolId>,
    /// Per closure, its `call` method.
    pub closure_call_method_sym: Table<Span, SymbolId>,
    /// Per trait, the associated types it declares.
    pub trait_assoc_types: Table<SymbolId, Vec<String>>,
    /// The type an impl binds to an associated-type name.
    pub impl_assoc_bindings: Table<(SymbolId, String), &'a Type>,
    /// Per type parameter, the traits that bound it.
    pub generic_bounds: Table<SymbolId, Vec<SymbolId>>,
    /// The function of a trait method that has a default body.
    pub trait_defaults: Table<(SymbolId, String), SymbolId>,
    /// Per struct, the target and function of each `impl Into<Target>`.
    pub into_impls: Table<SymbolId, Vec<(&'a Type, SymbolId)>>,
    /// Per default function, its `Self` type parameter.
    pub default_self_syms: Table<SymbolId, SymbolId>,
    /// Per type parameter and bounding trait, the spans of the bound's type
    /// arguments.
    pub generic_bound_args: Table<(SymbolId, SymbolId), Vec<Span>>,
    /// An impl's type parameter to the struct's own, by position.
    pub impl_to_struct_generic: Table<SymbolId, SymbolId>,
    /// The enums with at least one payload-bearing variant, each once.
    pub enum_has_payload: Vec<SymbolId>,
}

impl<'a> Resolutions<'a> {
    /// Whether a symbol is in the table.
    pub open spec fn knows(self, id: SymbolId) -> bool {
        (id.0 as int) < self.symbols@.len()
    }

    /// The kind of a known symbol.
    pub open spec fn kind(self, id: SymbolId) -> SymbolKind {
        self.symbols@[id.0 as int].kind
    }

    /// What every result of name resolution satisfies: the tables refer to
    /// known symbols.
    pub open spec fn wf(self) -> bool {
        &&& forall|s: Span|
            #![trigger self.path_to_sym@[s]]
            self.path_to_sym@.contains_key(s) ==> self.knows(self.path_to_sym@[s])
        &&& forall|s: Span|
            #![trigger self.decl_to_sym@[s]]
            self.decl_to_sym@.contains_key(s) ==> self.knows(self.decl_to_sym@[s])
        &&& forall|e: SymbolId, v: Seq<char>|
            #![trigger self.enum_variants@[e]@[v]]
            self.enum_variants@.contains_key(e) && self.enum_variants@[e]@.contains_key(v) ==> self.knows(
                self.enum_variants@[e]@[v],
            )
    }

    pub fn symbol(&self, id: SymbolId) -> (r: &Symbol)
        requires
            self.knows(id),
        ensures
            *r == self.symbols@[id.0 as int],
    {
        &self.symbols[id.0 as usize]
    }
}

impl<'a> Resolutions<'a> {
    /// The first trait with a name. The standard library comes first, so its
    /// own trait is the one found.
    pub fn find_trait_sym(&self, name: &str) -> (r: Option<SymbolId>)
        ensures
            r == first_sym(self.symbols@, is_trait_named(self.symbols@, name@)),
    {
        let ghost p = is_trait_named(self.symbols@, name@);
        let mut i: usize = 0;
        while i < self.symbols.len()
            invariant
                i <= self.symbols.len(),
                p == is_trait_named(self.symbols@, name@),
                first_where(p, i as nat) is None,
            decreases self.symbols.len() - i,
        {
            let sym = &self.symbols[i];
            let right_kind = match sym.kind {
                SymbolKind::Trait => true,
                _ => false,
            };
            if right_kind && same_text(sym.name.as_str(), name) {
                proof {
                    found_stays(p, (i + 1) as nat, self.symbols@.len());
                }
                return Some(SymbolId(i as u32));
            }
            i += 1;
        }
        None
    }

    /// The first enum with a name.
    pub fn find_enum_sym(&self, name: &str) -> (r: Option<SymbolId>)
        ensures
            r == first_sym(self.symbols@, is_enum_named(self.symbols@, name@)),
    {
        let ghost p = is_enum_named(self.symbols@, name@);
        let mut i: usize = 0;
        while i < self.symbols.len()
            invariant
                i <= self.symbols.len(),
                p == is_enum_named(self.symbols@, name@),
                first_where(p, i as nat) is None,
            decreases self.symbols.len() - i,
        {
            let sym = &self.symbols[i];
            let right_kind = match sym.kind {
                SymbolKind::Enum => true,
                _ => false,
            };
            if right_kind && same_text(sym.name.as_str(), name) {
                proof {
                    found_stays(p, (i + 1) as nat, self.symbols@.len());
                }
                return Some(SymbolId(i as u32));
            }
            i += 1;
        }
        None
    }

    /// The first struct with a name.
    pub fn find_struct_sym(&self, name: &str) -> (r: Option<SymbolId>)
        ensures
            r == first_sym(self.symbols@, is_struct_named(self.symbols@, name@)),
    {
        let ghost p = is_struct_named(self.symbols@, name@);
        let mut i: usize = 0;
        while i < self.symbols.len()
            invariant
                i <= self.symbols.len(),
                p == is_struct_named(self.symbols@, name@),
                first_where(p, i as nat) is None,
            decreases self.symbols.len() - i,
        {
            let sym = &self.symbols[i];
            let right_kind = match sym.kind {
                SymbolKind::Struct => true,
                _ => false,
            };
            if right_kind && same_text(sym.name.as_str(), name) {
                proof {
                    found_stays(p, (i + 1) as nat, self.symbols@.len());
                }
                return Some(SymbolId(i as u32));
            }
            i += 1;
        }
        None
    }
}

/// Which symbols are traits with a name.
pub open spec fn is_trait_named(syms: Seq<Symbol>, name: Seq<char>) -> spec_fn(int) -> bool {
    |i: int| syms[i].name@ == name && syms[i].kind is Trait
}

/// Which symbols are enums with a name.
pub open spec fn is_enum_named(syms: Seq<Symbol>, name: Seq<char>) -> spec_fn(int) -> bool {
    |i: int| syms[i].name@ == name && syms[i].kind is Enum
}

/// Which symbols are structs with a name.
pub open spec fn is_struct_named(syms: Seq<Symbol>, name: Seq<char>) -> spec_fn(int) -> bool {
    |i: int| syms[i].name@ == name && syms[i].kind is Struct
}

/// The first symbol that satisfies a predicate.
pub open spec fn first_sym(syms: Seq<Symbol>, p: spec_fn(int) -> bool) -> Option<SymbolId> {
    match first_where(p, syms.len()) {
        Some(i) => Some(SymbolId(i as u32)),
        None => None,
    }
}

#[derive(Debug, Clone, PartialEq, Eq)]
pub struct ResolveError {
    pub message: String,
    pub span: Span,
}

impl ResolveError {
    /// The error as it is shown.
    pub fn display(&self) -> (r: String)
        ensures
            r@ == "resolve error at "@ + dec(self.span.start as nat) + ".."@ + dec(self.span.end as nat) + ": "@
                + self.message@,
    {
        cat6(
            "resolve error at ",
            number(self.span.start).as_str(),
            "..",
            number(self.span.end).as_str(),
            ": ",
            self.message.as_str(),
        )
    }
}

// ---- paths, types and patterns ----

/// The state after resolving a path: its type arguments, then the whole path
/// as an item, then all but its last segment as an enum with the last one as
/// a variant.
pub open spec fn after_path(st: Names, p: Path) -> Names
    decreases p, 0nat,
{
    let st1 = after_types(st, p.generic_args@, p.generic_args@.len());
    let segs = segment_names(p.segments@);
    match path_lookup(st1, segs) {
        Some((id, key)) => after_capture(with_path(after_visibility(st1, key, p.span), p.span, id), id),
        None => after_variant_path(st1, segs, p.span),
    }
}

pub open spec fn unresolved_message(segs: Seq<Seq<char>>) -> Seq<char> {
    if segs.len() == 1 {
        "unresolved name `"@ + segs[0] + "`"@
    } else {
        "unresolved path `"@ + joined(segs, "::"@) + "`"@
    }
}

pub open spec fn after_variant_path(st: Names, segs: Seq<Seq<char>>, span: Span) -> Names {
    let enum_found = if segs.len() >= 2 {
        path_lookup(st, segs.drop_last())
    } else {
        None
    };
    match enum_found {
        Some((e, key)) => if st.kind(e) is Enum {
            if st.enum_variants.contains_key(e) && st.enum_variants[e].contains_key(segs.last()) {
                let v = st.enum_variants[e][segs.last()];
                let st1 = after_visibility(st, key, span);
                let st2 = if visible(st1, v) {
                    st1
                } else {
                    with_error(st1, private_message(st1, segs.last(), v), span)
                };
                with_path(st2, span, v)
            } else {
                with_error(st, "no variant `"@ + segs.last() + "` on that enum"@, span)
            }
        } else {
            with_error(st, unresolved_message(segs), span)
        },
        None => with_error(st, unresolved_message(segs), span),
    }
}

/// The state after resolving a type. `Self` is looked up when it stands
/// alone and left to the checker inside a longer path; a path on a type
/// parameter is noted as a projection.
pub open spec fn after_type(st: Names, t: Type) -> Names
    decreases t, 1nat,
{
    match t {
        Type::Path(p) => {
            let segs = segment_names(p.segments@);
            if segs.len() > 0 && segs[0] == "Self"@ {
                match name_lookup(st, "Self"@) {
                    Some(id) => if segs.len() == 1 {
                        with_path(st, p.span, id)
                    } else {
                        st
                    },
                    None => st,
                }
            } else {
                match projection_base(st, segs) {
                    Some(id) => Names { assoc_proj_bases: st.assoc_proj_bases.insert(p.span, id), ..st },
                    None => after_path(st, p),
                }
            }
        },
        Type::Dyn(p) => after_path(st, p),
        Type::Array { elem, .. } => after_type(st, *elem),
        Type::Fn { params, ret, .. } => {
            let st1 = after_types(st, params@, params@.len());
            match ret {
                Some(r) => after_type(st1, *r),
                None => st1,
            }
        },
        Type::Tuple { elems, .. } => after_types(st, elems@, elems@.len()),
    }
}

/// The type parameter a two-segment path projects from.
pub open spec fn projection_base(st: Names, segs: Seq<Seq<char>>) -> Option<SymbolId> {
    if segs.len() == 2 {
        match name_lookup(st, segs[0]) {
            Some(id) => if st.kind(id) is TypeParam {
                Some(id)
            } else {
                None
            },
            None => None,
        }
    } else {
        None
    }
}

pub open spec fn after_types(st: Names, ts: Seq<Type>, k: nat) -> Names
    decreases ts, k,
{
    if k == 0 || k > ts.len() {
        st
    } else {
        after_type(after_types(st, ts, (k - 1) as nat), ts[k - 1])
    }
}

/// The state after declaring what a pattern binds.
pub open spec fn after_pattern(st: Names, p: Pattern, mutable_let: bool) -> Names
    decreases p, 1nat,
{
    match p {
        Pattern::Wildcard(_) => st,
        Pattern::Ident { name, mutable, .. } => declared_here(
            st,
            name.name@,
            name.span,
            SymbolKindV::Local { mutable: mutable_let || mutable },
        ),
        Pattern::Literal { .. } => st,
        Pattern::Range { .. } => st,
        Pattern::Path { path, .. } => after_path(st, path),
        Pattern::TupleVariant { path, fields, .. } => after_patterns(
            after_path(st, path),
            fields@,
            mutable_let,
            fields@.len(),
        ),
        Pattern::NamedVariant { path, fields, .. } => after_field_patterns(
            after_path(st, path),
            fields@,
            mutable_let,
            fields@.len(),
        ),
        Pattern::Or { patterns, .. } => after_patterns(st, patterns@, mutable_let, patterns@.len()),
        Pattern::Tuple { patterns, .. } => after_patterns(st, patterns@, mutable_let, patterns@.len()),
    }
}

pub open spec fn after_patterns(st: Names, ps: Seq<Pattern>, mutable_let: bool, k: nat) -> Names
    decreases ps, k,
{
    if k == 0 || k > ps.len() {
        st
    } else {
        after_pattern(after_patterns(st, ps, mutable_let, (k - 1) as nat), ps[k - 1], mutable_let)
    }
}

pub open spec fn after_field_patterns(st: Names, fs: Seq<(Ident, Pattern)>, mutable_let: bool, k: nat) -> Names
    decreases fs, k,
{
    if k == 0 || k > fs.len() {
        st
    } else {
        after_pattern(after_field_patterns(st, fs, mutable_let, (k - 1) as nat), fs[k - 1].1, mutable_let)
    }
}

// ---- expressions and statements ----

pub open spec fn after_expr(st: Names, e: Expr) -> Names
    decreases e, 1nat,
{
    match e {
        Expr::Lit { .. } => st,
        Expr::Path(p) => after_path(st, p),
        Expr::Unary { expr, .. } => after_expr(st, *expr),
        Expr::Binary { lhs, rhs, .. } => after_expr(after_expr(st, *lhs), *rhs),
        Expr::Assign { lhs, rhs, .. } => after_expr(after_expr(st, *lhs), *rhs),
        Expr::AssignOp { lhs, rhs, .. } => after_expr(after_expr(st, *lhs), *rhs),
        Expr::Call { callee, args, .. } => after_exprs(after_expr(st, *callee), args@, args@.len()),
        Expr::MethodCall { receiver, args, .. } => after_exprs(after_expr(st, *receiver), args@, args@.len()),
        Expr::Field { receiver, .. } => after_expr(st, *receiver),
        Expr::TupleIndex { receiver, .. } => after_expr(st, *receiver),
        Expr::Index { receiver, index, .. } => after_expr(after_expr(st, *receiver), *index),
        Expr::Try { expr, .. } => after_expr(st, *expr),
        Expr::Cast { expr, ty, .. } => after_type(after_expr(st, *expr), ty),
        Expr::Array { elems, .. } => after_exprs(st, elems@, elems@.len()),
        Expr::Tuple { elems, .. } => after_exprs(st, elems@, elems@.len()),
        Expr::Block(b) => after_block(st, b),
        Expr::If { cond, then_branch, else_branch, .. } => {
            let st1 = after_block(after_expr(st, *cond), then_branch);
            match else_branch {
                Some(eb) => after_expr(st1, *eb),
                None => st1,
            }
        },
        Expr::While { cond, body, .. } => after_block(after_expr(st, *cond), body),
        Expr::For { pat, iter, body, .. } => left(
            after_stmts(
                after_pattern(entered(after_expr(st, *iter)), pat, false),
                body.stmts@,
                body.stmts@.len(),
            ),
        ),
        Expr::Match { scrutinee, arms, .. } => after_arms(after_expr(st, *scrutinee), arms@, arms@.len()),
        Expr::Range { start, end, .. } => after_opt(after_opt(st, start), end),
        Expr::StructLit { path, fields, .. } => after_inits(after_path(st, path), fields@, fields@.len()),
        Expr::Return { value, .. } => after_opt(st, value),
        Expr::Break(_) => st,
        Expr::Continue(_) => st,
        Expr::Closure { .. } => after_closure(st, e),
    }
}

pub open spec fn after_opt(st: Names, e: Option<Box<Expr>>) -> Names
    decreases e, 2nat,
{
    match e {
        Some(e) => after_expr(st, *e),
        None => st,
    }
}

pub open spec fn after_exprs(st: Names, es: Seq<Expr>, k: nat) -> Names
    decreases es, k,
{
    if k == 0 || k > es.len() {
        st
    } else {
        after_expr(after_exprs(st, es, (k - 1) as nat), es[k - 1])
    }
}

pub open spec fn after_inits(st: Names, fs: Seq<FieldInit>, k: nat) -> Names
    decreases fs, k,
{
    if k == 0 || k > fs.len() {
        st
    } else {
        after_expr(after_inits(st, fs, (k - 1) as nat), fs[k - 1].value)
    }
}

/// The state after match arms. Each arm's pattern, guard and body have a
/// scope of their own.
pub open spec fn after_arms(st: Names, arms: Seq<MatchArm>, k: nat) -> Names
    decreases arms, k,
{
    if k == 0 || k > arms.len() {
        st
    } else {
        let st1 = after_arms(st, arms, (k - 1) as nat);
        let st2 = after_pattern(entered(st1), arms[k - 1].pat, false);
        let st3 = match arms[k - 1].guard {
            Some(g) => after_expr(st2, g),
            None => st2,
        };
        left(after_expr(st3, arms[k - 1].body))
    }
}

pub open spec fn after_block(st: Names, b: Block) -> Names
    decreases b, 1nat,
{
    left(after_stmts(entered(st), b.stmts@, b.stmts@.len()))
}

pub open spec fn after_stmts(st: Names, ss: Seq<Stmt>, k: nat) -> Names
    decreases ss, k,
{
    if k == 0 || k > ss.len() {
        st
    } else {
        after_stmt(after_stmts(st, ss, (k - 1) as nat), ss[k - 1])
    }
}

/// The state after a statement. A binding's initializer does not see the
/// binding.
pub open spec fn after_stmt(st: Names, s: Stmt) -> Names
    decreases s, 1nat,
{
    match s {
        Stmt::Let(l) => {
            let st1 = match l.ty {
                Some(t) => after_type(st, t),
                None => st,
            };
            let st2 = match l.init {
                Some(e) => after_expr(st1, e),
                None => st1,
            };
            after_pattern(st2, l.pat, l.mutable)
        },
        Stmt::Expr(e, _) => after_expr(st, e),
        Stmt::Item(item) => after_item(after_declaration(st, item), item),
    }
}

pub open spec fn lambda_name(n: u32) -> Seq<char> {
    "__lambda_"@ + dec(n as nat)
}

pub open spec fn closure_name(n: u32) -> Seq<char> {
    "__Closure_"@ + dec(n as nat)
}

/// The first `k` closure parameters declared, with their symbols.
pub open spec fn after_closure_params(st: Names, ps: Seq<ClosureParam>, k: nat) -> (Names, Seq<SymbolId>)
    decreases k,
{
    if k == 0 || k > ps.len() {
        (st, seq![])
    } else {
        let (st1, ids) = after_closure_params(st, ps, (k - 1) as nat);
        let st2 = declared_here(st1, ps[k - 1].name.name@, ps[k - 1].name.span, SymbolKindV::Param);
        (
            match ps[k - 1].ty {
                Some(t) => after_type(st2, t),
                None => st2,
            },
            ids.push(st1.next_id()),
        )
    }
}

/// The state on the way into a closure: it has a function symbol of its own,
/// reachable under its module, and its body a scope.
pub open spec fn closure_opened(st: Names, span: Span) -> Names {
    let name = lambda_name(st.lambda_counter);
    let st1 = Names { lambda_counter: next_number(st.lambda_counter), ..st };
    let f = st1.next_id();
    let st2 = bound_globally(
        with_symbol(st1, name, span, SymbolKindV::Fn),
        in_module(st.current_path, name),
        f,
    );
    let st3 = Names { closure_fn_sym: st2.closure_fn_sym.insert(span, f), ..st2 };
    Names { open_closure_spans: st3.open_closure_spans.push(span), ..entered(st3) }
}

/// Which symbols are the trait that closures implement.
pub open spec fn is_fn_trait(syms: Seq<SymbolV>) -> spec_fn(int) -> bool {
    |i: int| syms[i].name == "Fn1"@ && syms[i].kind is Trait
}

/// The state on the way out of a closure: one that captured something gets a
/// struct with a `call` method, and the struct implements the function trait.
pub open spec fn closure_closed(st: Names, span: Span, counter: u32) -> Names {
    let st1 = left(Names { open_closure_spans: st.open_closure_spans.drop_last(), ..st });
    if !st1.closure_captures.contains_key(span) || st1.closure_captures[span].len() == 0 {
        st1
    } else {
        let name = closure_name(counter);
        let s = st1.next_id();
        let st2 = bound_globally(
            with_symbol(st1, name, span, SymbolKindV::Struct),
            in_module(st1.current_path, name),
            s,
        );
        let st3 = Names { closure_struct_sym: st2.closure_struct_sym.insert(span, s), ..st2 };
        let c = st3.next_id();
        let st4 = with_symbol(st3, name + "__call"@, span, SymbolKindV::Fn);
        let st5 = Names {
            closure_call_method_sym: st4.closure_call_method_sym.insert(span, c),
            impl_methods: st4.impl_methods.insert((s, "call"@), c),
            ..st4
        };
        match first_where(is_fn_trait(st5.symbols), st5.symbols.len()) {
            Some(i) => implementing(st5, s, SymbolId(i as u32)),
            None => st5,
        }
    }
}

pub open spec fn after_closure(st: Names, e: Expr) -> Names
    decreases e, 0nat,
{
    match e {
        Expr::Closure { params, body, span } => {
            let (st1, ids) = after_closure_params(closure_opened(st, span), params@, params@.len());
            let st2 = Names { closure_params: st1.closure_params.insert(span, ids), ..st1 };
            closure_closed(after_expr(st2, *body), span, st.lambda_counter)
        },
        _ => st,
    }
}

// ---- declaring items ----

pub open spec fn is_pub(v: Visibility) -> bool {
    v is Pub
}

/// The payload types of a variant.
pub open spec fn variant_payload(v: VariantFields) -> Seq<Type> {
    match v {
        VariantFields::Unit => seq![],
        VariantFields::Tuple(ts) => ts@,
        VariantFields::Named(fs) => field_types(fs@),
    }
}

pub open spec fn field_names(fs: Seq<Field>) -> Seq<Seq<char>> {
    Seq::new(fs.len(), |i: int| fs[i].name.name@)
}

/// An enum's first `k` variants: each a symbol with its position as its
/// discriminant, visible as the enum is, with its payload types. Also gives
/// the variants by name and whether any has a payload.
pub open spec fn after_variants(st: Names, vs: Seq<Variant>, enum_sym: SymbolId, public: bool, k: nat) -> (
    Names,
    Map<Seq<char>, SymbolId>,
    bool,
)
    decreases k,
{
    if k == 0 || k > vs.len() {
        (st, Map::empty(), false)
    } else {
        let (st1, names, any) = after_variants(st, vs, enum_sym, public, (k - 1) as nat);
        let v = vs[k - 1];
        let id = st1.next_id();
        let st2 = with_symbol(
            st1,
            v.name.name@,
            v.name.span,
            SymbolKindV::EnumVariant { enum_sym, discriminant: (k - 1) as u32 },
        );
        let st3 = with_visibility(with_decl(st2, v.name.span, id), id, public);
        let st4 = match v.fields {
            VariantFields::Named(fs) => Names {
                enum_variant_field_names: st3.enum_variant_field_names.insert(id, field_names(fs@)),
                ..st3
            },
            _ => st3,
        };
        (
            Names {
                enum_variant_payloads: st4.enum_variant_payloads.insert(id, variant_payload(v.fields)),
                ..st4
            },
            names.insert(v.name.name@, id),
            any || variant_payload(v.fields).len() > 0,
        )
    }
}

pub open spec fn after_enum(st: Names, e: EnumDecl, id: SymbolId) -> Names {
    let (st1, variants, any) = after_variants(st, e.variants@, id, is_pub(e.vis), e.variants@.len());
    let st2 = Names { enum_variants: st1.enum_variants.insert(id, variants), ..st1 };
    if any && !st2.enum_has_payload.contains(id) {
        Names { enum_has_payload: st2.enum_has_payload.push(id), ..st2 }
    } else {
        st2
    }
}

/// A trait's first `k` methods: each with a default body gets a function
/// symbol and a `Self` parameter bounded by the trait.
pub open spec fn after_defaults(
    st: Names,
    ms: Seq<TraitMethodSig>,
    trait_sym: SymbolId,
    trait_name: Seq<char>,
    public: bool,
    k: nat,
) -> Names
    decreases k,
{
    if k == 0 || k > ms.len() {
        st
    } else {
        let st1 = after_defaults(st, ms, trait_sym, trait_name, public, (k - 1) as nat);
        let m = ms[k - 1];
        if m.body is None {
            st1
        } else {
            let f = st1.next_id();
            let st2 = with_visibility(
                with_symbol(
                    st1,
                    "__default_"@ + trait_name + "__"@ + m.name.name@,
                    m.name.span,
                    SymbolKindV::Fn,
                ),
                f,
                public,
            );
            let st3 = Names { trait_defaults: st2.trait_defaults.insert((trait_sym, m.name.name@), f), ..st2 };
            let s = st3.next_id();
            let st4 = with_symbol(st3, "Self"@, m.span, SymbolKindV::TypeParam);
            Names {
                default_self_syms: st4.default_self_syms.insert(f, s),
                generic_bounds: st4.generic_bounds.insert(s, seq![trait_sym]),
                ..st4
            }
        }
    }
}

pub open spec fn assoc_names(ts: Seq<AssocTypeDecl>) -> Seq<Seq<char>> {
    Seq::new(ts.len(), |i: int| ts[i].name.name@)
}

pub open spec fn after_trait_decl(st: Names, t: TraitDecl, id: SymbolId) -> Names {
    let st1 = Names {
        trait_methods: st.trait_methods.insert(id, t.methods@),
        trait_assoc_types: st.trait_assoc_types.insert(id, assoc_names(t.assoc_types@)),
        ..st
    };
    after_defaults(st1, t.methods@, id, t.name.name@, is_pub(t.vis), t.methods@.len())
}

/// An item's name noted: its symbol, its visibility and what its span
/// declares.
pub open spec fn item_declared(
    st: Names,
    name: Ident,
    kind: SymbolKindV,
    code_name: Seq<char>,
    public: bool,
) -> Names {
    let id = st.next_id();
    with_decl(
        with_visibility(item_interned(st, name.name@, name.span, kind, code_name), id, public),
        name.span,
        id,
    )
}

/// The state after declaring an item, and for a module the items in it.
pub open spec fn after_declaration(st: Names, item: Item) -> Names
    decreases item, 1nat,
{
    match item {
        Item::Mod(m) => {
            let st1 = item_declared(st, m.name, SymbolKindV::Module, m.name.name@, is_pub(m.vis));
            out_of_nested(after_declarations(in_nested(st1, m.name.name@), m.items@, m.items@.len()))
        },
        Item::Fn(f) => item_declared(
            st,
            f.name,
            SymbolKindV::Fn,
            mangled_fn(st.current_path, f.name.name@),
            is_pub(f.vis),
        ),
        Item::Struct(s) => item_declared(st, s.name, SymbolKindV::Struct, s.name.name@, is_pub(s.vis)),
        Item::Enum(e) => after_enum(
            item_declared(st, e.name, SymbolKindV::Enum, e.name.name@, is_pub(e.vis)),
            e,
            st.next_id(),
        ),
        Item::Const(c) => item_declared(st, c.name, SymbolKindV::Const, c.name.name@, is_pub(c.vis)),
        Item::Trait(t) => after_trait_decl(
            item_declared(st, t.name, SymbolKindV::Trait, t.name.name@, is_pub(t.vis)),
            t,
            st.next_id(),
        ),
        Item::Impl(_) => st,
        Item::Use(_) => st,
    }
}

pub open spec fn after_declarations(st: Names, items: Seq<Item>, k: nat) -> Names
    decreases items, k,
{
    if k == 0 || k > items.len() {
        st
    } else {
        after_declaration(after_declarations(st, items, (k - 1) as nat), items[k - 1])
    }
}

// ---- impl blocks ----

pub open spec fn method_code_name(st: Names, struct_name: Seq<char>, method: Seq<char>, into_at: Option<usize>) -> Seq<char> {
    let base = (if st.current_path.len() == 0 {
        ""@
    } else {
        joined(st.current_path, "__"@) + "__"@
    }) + struct_name + "__"@ + method;
    match into_at {
        Some(start) => base + "__"@ + dec(start as nat),
        None => base,
    }
}

/// An impl's first `k` methods: each a function symbol found under the
/// struct and its name. A second definition of a name is an error, except
/// for conversions, which are told apart by their target.
pub open spec fn after_methods(
    st: Names,
    ms: Seq<FnDecl>,
    struct_sym: SymbolId,
    struct_name: Seq<char>,
    into_at: Option<usize>,
    k: nat,
) -> Names
    decreases k,
{
    if k == 0 || k > ms.len() {
        st
    } else {
        let st1 = after_methods(st, ms, struct_sym, struct_name, into_at, (k - 1) as nat);
        let m = ms[k - 1];
        let id = st1.next_id();
        let st2 = with_decl(
            with_symbol(
                st1,
                method_code_name(st1, struct_name, m.name.name@, into_at),
                m.name.span,
                SymbolKindV::Fn,
            ),
            m.name.span,
            id,
        );
        let key = (struct_sym, m.name.name@);
        let st3 = if st2.impl_methods.contains_key(key) && into_at is None {
            with_error(
                st2,
                "method `"@ + m.name.name@ + "` already defined on `"@ + struct_name + "`"@,
                m.name.span,
            )
        } else {
            st2
        };
        Names { impl_methods: st3.impl_methods.insert(key, id), ..st3 }
    }
}

pub open spec fn fn_named(ms: Seq<FnDecl>, name: Seq<char>) -> spec_fn(int) -> bool {
    |i: int| ms[i].name.name@ == name
}

/// The state after noting a conversion's target.
pub open spec fn after_conversion(st: Names, i: ImplBlock, p: Path, struct_sym: SymbolId) -> Names {
    match first_where(fn_named(i.methods@, "into"@), i.methods@.len()) {
        Some(k) => if p.generic_args@.len() > 0 && st.decl_to_sym.contains_key(i.methods@[k].name.span) {
            converting(st, struct_sym, p.generic_args@[0], st.decl_to_sym[i.methods@[k].name.span])
        } else {
            st
        },
        None => st,
    }
}

/// An impl's first `k` associated-type bindings.
pub open spec fn after_bindings(st: Names, bs: Seq<AssocTypeBinding>, struct_sym: SymbolId, k: nat) -> Names
    decreases k,
{
    if k == 0 || k > bs.len() {
        st
    } else {
        let st1 = after_type(after_bindings(st, bs, struct_sym, (k - 1) as nat), bs[k - 1].value);
        Names {
            impl_assoc_bindings: st1.impl_assoc_bindings.insert(
                (struct_sym, bs[k - 1].name.name@),
                bs[k - 1].value,
            ),
            ..st1
        }
    }
}

/// The state after resolving an impl's trait.
pub open spec fn after_impl_trait(st: Names, p: Path, struct_sym: SymbolId) -> Names {
    let st1 = after_path(st, p);
    if !st1.path_to_sym.contains_key(p.span) {
        st1
    } else {
        let t = st1.path_to_sym[p.span];
        if st1.kind(t) is Trait {
            implementing(st1, struct_sym, t)
        } else {
            with_error(st1, "`"@ + st1.symbols[t.0 as int].name + "` is not a trait"@, p.span)
        }
    }
}

/// What an impl's trait path resolved to.
pub open spec fn impl_trait(st: Names, i: ImplBlock) -> Option<SymbolId> {
    match i.trait_path {
        Some(p) => lookup(st.path_to_sym, p.span),
        None => None,
    }
}

/// Whether an impl is of the conversion trait.
pub open spec fn is_conversion(st: Names, i: ImplBlock) -> bool {
    match impl_trait(st, i) {
        Some(t) => st.symbols[t.0 as int].name == "Into"@,
        None => false,
    }
}

/// The state after the part of an impl block that follows its type.
pub open spec fn after_impl_body(st: Names, i: ImplBlock, struct_sym: SymbolId) -> Names {
    let st1 = match i.trait_path {
        Some(p) => after_impl_trait(st, p, struct_sym),
        None => st,
    };
    let struct_name = st1.symbols[struct_sym.0 as int].name;
    let into_at = if is_conversion(st1, i) {
        Some(i.span.start)
    } else {
        None
    };
    let st2 = after_methods(st1, i.methods@, struct_sym, struct_name, into_at, i.methods@.len());
    let st3 = match i.trait_path {
        Some(p) => if is_conversion(st2, i) {
            after_conversion(st2, i, p, struct_sym)
        } else {
            st2
        },
        None => st2,
    };
    let st4 = match impl_trait(st3, i) {
        Some(t) => Names { impl_methods: with_default_methods(st3, i.methods@, struct_sym, t), ..st3 },
        None => st3,
    };
    if i.assoc_types@.len() == 0 {
        st4
    } else {
        let st5 = generics_interned(entered(st4), i.generics@, i.generics@.len()).0;
        left(after_bindings(st5, i.assoc_types@, struct_sym, i.assoc_types@.len()))
    }
}

/// The state after declaring an impl block: its type resolved with its type
/// parameters in scope, then its trait, methods and bindings. Only structs
/// can have impl blocks.
pub open spec fn after_impl(st: Names, i: ImplBlock) -> Names {
    let st1 = generics_interned(entered(st), i.generics@, i.generics@.len()).0;
    let st2 = left(after_path(st1, i.type_path));
    if !st2.path_to_sym.contains_key(i.type_path.span) {
        st2
    } else {
        let s = st2.path_to_sym[i.type_path.span];
        if st2.kind(s) is Struct {
            after_impl_body(st2, i, s)
        } else {
            with_error(
                st2,
                "`"@ + st2.symbols[s.0 as int].name
                    + "` is not a struct; `impl` can only be applied to structs (for now)"@,
                i.type_path.span,
            )
        }
    }
}

pub open spec fn after_impls(st: Names, items: Seq<Item>, k: nat) -> Names
    decreases items, k,
{
    if k == 0 || k > items.len() {
        st
    } else {
        let st1 = after_impls(st, items, (k - 1) as nat);
        match items[k - 1] {
            Item::Impl(i) => after_impl(st1, i),
            Item::Mod(m) => out_of_nested(
                after_impls(in_nested(st1, m.name.name@), m.items@, m.items@.len()),
            ),
            _ => st1,
        }
    }
}

// ---- imports ----

pub open spec fn after_use(st: Names, u: UseDecl) -> Names {
    let segs = segment_names(u.path.segments@);
    if u.glob {
        let tail = joined(segs, "::"@);
        match glob_module(st, tail) {
            Some(module) => after_glob(st, module, is_pub(u.vis)),
            None => with_error(
                st,
                "unresolved glob import `"@ + tail + "::*` — no such module"@,
                u.path.span,
            ),
        }
    } else {
        match path_lookup(st, segs) {
            Some((id, key)) => {
                let st1 = after_visibility(st, key, u.path.span);
                let alias = match u.alias {
                    Some(a) => a.name@,
                    None => if segs.len() > 0 {
                        segs.last()
                    } else {
                        ""@
                    },
                };
                let alias_key = in_module(st.current_path, alias);
                let st2 = if is_pub(u.vis) {
                    Names { pub_reexport_keys: st1.pub_reexport_keys.insert(alias_key), ..st1 }
                } else {
                    st1
                };
                with_path(bound_globally(st2, alias_key, id), u.path.span, id)
            },
            None => with_error(st, "unresolved import `"@ + joined(segs, "::"@) + "`"@, u.path.span),
        }
    }
}

pub open spec fn after_uses(st: Names, items: Seq<Item>, k: nat) -> Names
    decreases items, k,
{
    if k == 0 || k > items.len() {
        st
    } else {
        let st1 = after_uses(st, items, (k - 1) as nat);
        match items[k - 1] {
            Item::Use(u) => after_use(st1, u),
            Item::Mod(m) => out_of_nested(
                after_uses(in_nested(st1, m.name.name@), m.items@, m.items@.len()),
            ),
            _ => st1,
        }
    }
}

// ---- the bodies of items ----

pub open spec fn type_spans(ts: Seq<Type>) -> Seq<Span> {
    Seq::new(ts.len(), |i: int| type_span(ts[i]))
}

pub open spec fn not_a_trait(p: Path) -> Seq<char> {
    "`"@ + joined(segment_names(p.segments@), "::"@) + "` is not a trait"@
}

pub open spec fn unresolved_trait(p: Path) -> Seq<char> {
    "unresolved trait `"@ + joined(segment_names(p.segments@), "::"@) + "`"@
}

/// The first `k` bounds of a type parameter, with the traits they name. The
/// type arguments of a bound are resolved and their spans kept.
pub open spec fn after_bounds(st: Names, id: SymbolId, bs: Seq<Path>, k: nat) -> (Names, Seq<SymbolId>)
    decreases k,
{
    if k == 0 || k > bs.len() {
        (st, seq![])
    } else {
        let (st1, traits) = after_bounds(st, id, bs, (k - 1) as nat);
        let b = bs[k - 1];
        match path_lookup(st1, segment_names(b.segments@)) {
            Some((t, _)) => if st1.kind(t) is Trait {
                if b.generic_args@.len() > 0 {
                    let st2 = after_types(st1, b.generic_args@, b.generic_args@.len());
                    (
                        Names {
                            generic_bound_args: st2.generic_bound_args.insert(
                                (id, t),
                                type_spans(b.generic_args@),
                            ),
                            ..st2
                        },
                        traits.push(t),
                    )
                } else {
                    (st1, traits.push(t))
                }
            } else {
                (with_error(st1, not_a_trait(b), b.span), traits)
            },
            None => (with_error(st1, unresolved_trait(b), b.span), traits),
        }
    }
}

/// The bounds of the first `k` type parameters.
pub open spec fn after_all_bounds(st: Names, gs: Seq<GenericParam>, ids: Seq<SymbolId>, k: nat) -> Names
    decreases k,
{
    if k == 0 || k > gs.len() {
        st
    } else {
        let st1 = after_all_bounds(st, gs, ids, (k - 1) as nat);
        let (st2, traits) = after_bounds(st1, ids[k - 1], gs[k - 1].bounds@, gs[k - 1].bounds@.len());
        if traits.len() > 0 {
            Names { generic_bounds: st2.generic_bounds.insert(ids[k - 1], traits), ..st2 }
        } else {
            st2
        }
    }
}

/// The first `k` parameters of a function: the type, then the name.
pub open spec fn after_params(st: Names, ps: Seq<Param>, k: nat) -> Names
    decreases k,
{
    if k == 0 || k > ps.len() {
        st
    } else {
        declared_here(
            after_type(after_params(st, ps, (k - 1) as nat), ps[k - 1].ty),
            ps[k - 1].name.name@,
            ps[k - 1].name.span,
            SymbolKindV::Param,
        )
    }
}

pub open spec fn after_param_types(st: Names, ps: Seq<Param>, k: nat) -> Names
    decreases k,
{
    if k == 0 || k > ps.len() {
        st
    } else {
        after_type(after_param_types(st, ps, (k - 1) as nat), ps[k - 1].ty)
    }
}

pub open spec fn after_param_names(st: Names, ps: Seq<Param>, k: nat) -> Names
    decreases k,
{
    if k == 0 || k > ps.len() {
        st
    } else {
        declared_here(
            after_param_names(st, ps, (k - 1) as nat),
            ps[k - 1].name.name@,
            ps[k - 1].name.span,
            SymbolKindV::Param,
        )
    }
}

pub open spec fn after_opt_type(st: Names, t: Option<Type>) -> Names {
    match t {
        Some(t) => after_type(st, t),
        None => st,
    }
}

/// The state on the way into a function's body: its type parameters, their
/// bounds, its parameters and its return type, in a scope of their own.
pub open spec fn fn_opened(st: Names, f: FnDecl) -> Names {
    let (st1, ids) = generics_interned(entered(st), f.generics@, f.generics@.len());
    let st2 = after_all_bounds(st1, f.generics@, ids, f.generics@.len());
    after_opt_type(after_params(st2, f.params@, f.params@.len()), f.return_type)
}

pub open spec fn after_fn(st: Names, f: FnDecl) -> Names
    decreases f, 1nat,
{
    left(after_block(fn_opened(st, f), f.body))
}

pub open spec fn after_fns(st: Names, fs: Seq<FnDecl>, k: nat) -> Names
    decreases fs, k,
{
    if k == 0 || k > fs.len() {
        st
    } else {
        after_fn(after_fns(st, fs, (k - 1) as nat), fs[k - 1])
    }
}

pub open spec fn field_types(fs: Seq<Field>) -> Seq<Type> {
    Seq::new(fs.len(), |i: int| fs[i].ty)
}

pub open spec fn after_fields(st: Names, fs: Seq<Field>, k: nat) -> Names
    decreases k,
{
    if k == 0 || k > fs.len() {
        st
    } else {
        after_type(after_fields(st, fs, (k - 1) as nat), fs[k - 1].ty)
    }
}

pub open spec fn after_struct(st: Names, s: StructDecl) -> Names {
    let (st1, ids) = generics_declared(entered(st), s.generics@, s.generics@.len());
    let st2 = if ids.len() > 0 && st1.decl_to_sym.contains_key(s.name.span) {
        Names { struct_generics: st1.struct_generics.insert(st1.decl_to_sym[s.name.span], ids), ..st1 }
    } else {
        st1
    };
    left(after_fields(st2, s.fields@, s.fields@.len()))
}

pub open spec fn after_payloads(st: Names, vs: Seq<Variant>, k: nat) -> Names
    decreases k,
{
    if k == 0 || k > vs.len() {
        st
    } else {
        let st1 = after_payloads(st, vs, (k - 1) as nat);
        match vs[k - 1].fields {
            VariantFields::Unit => st1,
            VariantFields::Tuple(ts) => after_types(st1, ts@, ts@.len()),
            VariantFields::Named(fs) => after_fields(st1, fs@, fs@.len()),
        }
    }
}

pub open spec fn after_enum_body(st: Names, e: EnumDecl) -> Names {
    let (st1, ids) = generics_declared(entered(st), e.generics@, e.generics@.len());
    let st2 = if ids.len() > 0 && st1.decl_to_sym.contains_key(e.name.span) {
        Names { enum_generics: st1.enum_generics.insert(st1.decl_to_sym[e.name.span], ids), ..st1 }
    } else {
        st1
    };
    left(after_payloads(st2, e.variants@, e.variants@.len()))
}

/// The first `k` supertraits of a trait, with the traits they name.
pub open spec fn after_supers(st: Names, ps: Seq<Path>, k: nat) -> (Names, Seq<SymbolId>)
    decreases k,
{
    if k == 0 || k > ps.len() {
        (st, seq![])
    } else {
        let (st1, supers) = after_supers(st, ps, (k - 1) as nat);
        let p = ps[k - 1];
        match path_lookup(st1, segment_names(p.segments@)) {
            Some((t, _)) => if st1.kind(t) is Trait {
                (st1, supers.push(t))
            } else {
                (with_error(st1, not_a_trait(p), p.span), supers)
            },
            None => (with_error(st1, unresolved_trait(p), p.span), supers),
        }
    }
}

/// The `Self` parameter in scope for a trait's method: the one of its default
/// body.
pub open spec fn self_param(st: Names, trait_span: Span, name: Seq<char>) -> Option<SymbolId> {
    match lookup(st.decl_to_sym, trait_span) {
        Some(t) => match lookup(st.trait_defaults, (t, name)) {
            Some(f) => lookup(st.default_self_syms, f),
            None => None,
        },
        None => None,
    }
}

/// The state on the way into a trait method's default body.
pub open spec fn sig_opened(st: Names, m: TraitMethodSig, trait_span: Span) -> Names {
    let st1 = entered(st);
    let st2 = match self_param(st1, trait_span, m.name.name@) {
        Some(id) => bound_here(st1, "Self"@, id),
        None => st1,
    };
    after_opt_type(after_param_types(st2, m.params@, m.params@.len()), m.return_type)
}

pub open spec fn after_sig(st: Names, m: TraitMethodSig, trait_span: Span) -> Names
    decreases m, 1nat,
{
    let st1 = sig_opened(st, m, trait_span);
    left(
        match m.body {
            Some(b) => after_block(after_param_names(st1, m.params@, m.params@.len()), b),
            None => st1,
        },
    )
}

pub open spec fn after_sigs(st: Names, ms: Seq<TraitMethodSig>, trait_span: Span, k: nat) -> Names
    decreases ms, k,
{
    if k == 0 || k > ms.len() {
        st
    } else {
        after_sig(after_sigs(st, ms, trait_span, (k - 1) as nat), ms[k - 1], trait_span)
    }
}

/// The state on the way into a trait's methods.
pub open spec fn trait_opened(st: Names, t: TraitDecl) -> Names {
    let st1 = if st.decl_to_sym.contains_key(t.name.span) {
        let (s, supers) = after_supers(st, t.supertraits@, t.supertraits@.len());
        with_supertraits(s, st.decl_to_sym[t.name.span], supers)
    } else {
        st
    };
    let (st2, ids) = generics_interned(entered(st1), t.generics@, t.generics@.len());
    if ids.len() > 0 && st2.decl_to_sym.contains_key(t.name.span) {
        Names { trait_generics: st2.trait_generics.insert(st2.decl_to_sym[t.name.span], ids), ..st2 }
    } else {
        st2
    }
}

/// The first `k` of an impl's type parameters matched with the struct's by
/// position.
pub open spec fn with_impl_generics(st: Names, gs: Seq<GenericParam>, to: Seq<SymbolId>, k: nat) -> Names
    decreases k,
{
    if k == 0 || k > gs.len() {
        st
    } else {
        let st1 = with_impl_generics(st, gs, to, (k - 1) as nat);
        if k <= to.len() && st1.decl_to_sym.contains_key(gs[k - 1].name.span) {
            Names {
                impl_to_struct_generic: st1.impl_to_struct_generic.insert(
                    st1.decl_to_sym[gs[k - 1].name.span],
                    to[k - 1],
                ),
                ..st1
            }
        } else {
            st1
        }
    }
}

pub open spec fn impl_opened(st: Names, i: ImplBlock) -> Names {
    match lookup(st.path_to_sym, i.type_path.span) {
        Some(s) => match lookup(st.struct_generics, s) {
            Some(to) => with_impl_generics(st, i.generics@, to, i.generics@.len()),
            None => st,
        },
        None => st,
    }
}

/// The state after resolving what is inside an item.
pub open spec fn after_item(st: Names, item: Item) -> Names
    decreases item, 1nat,
{
    match item {
        Item::Fn(f) => after_fn(st, f),
        Item::Struct(s) => after_struct(st, s),
        Item::Enum(e) => after_enum_body(st, e),
        Item::Const(c) => after_expr(after_type(st, c.ty), c.value),
        Item::Impl(i) => after_fns(impl_opened(st, i), i.methods@, i.methods@.len()),
        Item::Trait(t) => left(
            after_sigs(trait_opened(st, t), t.methods@, t.name.span, t.methods@.len()),
        ),
        Item::Mod(m) => out_of_nested(
            after_items(in_nested(st, m.name.name@), m.items@, m.items@.len()),
        ),
        Item::Use(_) => st,
    }
}

pub open spec fn after_items(st: Names, items: Seq<Item>, k: nat) -> Names
    decreases items, k,
{
    if k == 0 || k > items.len() {
        st
    } else {
        after_item(after_items(st, items, (k - 1) as nat), items[k - 1])
    }
}

// ---- supertrait cycles ----

/// The state after reporting the cycles among the first `k` traits.
pub open spec fn after_cycles(st: Names, order: Seq<SymbolId>, k: nat) -> Names
    decreases k,
{
    if k == 0 || k > order.len() {
        st
    } else {
        let st1 = after_cycles(st, order, (k - 1) as nat);
        let t = order[k - 1];
        if cyclic(st1, t) {
            with_error(
                st1,
                "supertrait cycle through `"@ + st1.symbols[t.0 as int].name + "`"@,
                st1.symbols[t.0 as int].span,
            )
        } else {
            st1
        }
    }
}

// ---- the built-in names ----

pub open spec fn builtin_type(t: TyV) -> SymbolKindV {
    SymbolKindV::BuiltinType(t)
}

pub open spec fn builtin_fn(name: Seq<char>, params: Seq<TyV>, ret: TyV) -> SymbolKindV {
    SymbolKindV::BuiltinFn { name, params, ret }
}

pub open spec fn error_box() -> Box<TyV> {
    Box::new(TyV::Error)
}

/// The names every program starts with, in the order they get their symbols.
pub open spec fn builtin_names() -> Seq<(Seq<char>, SymbolKindV)> {
    let vec_i64 = TyV::Vec(Box::new(TyV::Int(IntTy::I64)));
    seq![
        ("Weak"@, builtin_type(TyV::Weak(error_box()))),
        ("bool"@, builtin_type(TyV::Bool)),
        ("char"@, builtin_type(TyV::Char)),
        ("str"@, builtin_type(TyV::Str)),
        ("i8"@, builtin_type(TyV::Int(IntTy::I8))),
        ("i16"@, builtin_type(TyV::Int(IntTy::I16))),
        ("i32"@, builtin_type(TyV::Int(IntTy::I32))),
        ("i64"@, builtin_type(TyV::Int(IntTy::I64))),
        ("isize"@, builtin_type(TyV::Int(IntTy::ISize))),
        ("u8"@, builtin_type(TyV::Int(IntTy::U8))),
        ("u16"@, builtin_type(TyV::Int(IntTy::U16))),
        ("u32"@, builtin_type(TyV::Int(IntTy::U32))),
        ("u64"@, builtin_type(TyV::Int(IntTy::U64))),
        ("usize"@, builtin_type(TyV::Int(IntTy::USize))),
        ("f32"@, builtin_type(TyV::Float(FloatTy::F32))),
        ("f64"@, builtin_type(TyV::Float(FloatTy::F64))),
        ("Vec"@, builtin_type(TyV::Vec(error_box()))),
        ("print"@, SymbolKindV::PolyBuiltinFn("print"@)),
        ("weak"@, SymbolKindV::PolyBuiltinFn("weak"@)),
        ("upgrade_or"@, SymbolKindV::PolyBuiltinFn("upgrade_or"@)),
        ("print_str"@, builtin_fn("print_str"@, seq![TyV::Str], TyV::Unit)),
        ("print_i64"@, builtin_fn("print_i64"@, seq![TyV::Int(IntTy::I64)], TyV::Unit)),
        ("vec_new"@, builtin_fn("vec_new"@, seq![], vec_i64)),
        ("std::Vec"@, builtin_type(TyV::Vec(error_box()))),
        ("std::vec_new"@, builtin_fn("vec_new"@, seq![], vec_i64)),
        ("HashMap"@, builtin_type(TyV::HashMap(error_box(), error_box()))),
        ("hashmap_new"@, SymbolKindV::PolyBuiltinFn("hashmap_new"@)),
        ("hashmap_str_new"@, SymbolKindV::PolyBuiltinFn("hashmap_str_new"@)),
        ("hashmap_cap"@, SymbolKindV::PolyBuiltinFn("hashmap_cap"@)),
        ("hashmap_is_live_at"@, SymbolKindV::PolyBuiltinFn("hashmap_is_live_at"@)),
        ("hashmap_key_at"@, SymbolKindV::PolyBuiltinFn("hashmap_key_at"@)),
        ("std::HashMap"@, builtin_type(TyV::HashMap(error_box(), error_box()))),
        ("std::hashmap_new"@, SymbolKindV::PolyBuiltinFn("hashmap_new"@)),
        ("std::hashmap_str_new"@, SymbolKindV::PolyBuiltinFn("hashmap_str_new"@)),
    ]
}

pub open spec fn nowhere() -> Span {
    Span { start: 0, end: 0 }
}

/// The state with the first `k` of some names bound in the innermost scope.
pub open spec fn after_builtins(st: Names, names: Seq<(Seq<char>, SymbolKindV)>, k: nat) -> Names
    decreases k,
{
    if k == 0 || k > names.len() {
        st
    } else {
        interned(after_builtins(st, names, (k - 1) as nat), names[k - 1].0, nowhere(), names[k - 1].1)
    }
}

/// The state name resolution starts from.
pub open spec fn first_names() -> Names {
    after_builtins(no_names(), builtin_names(), builtin_names().len())
}

/// The state after a whole module: its items declared, its impls, its
/// imports, what is inside the items, and the supertrait cycles.
pub open spec fn after_module(st: Names, m: Module) -> Names {
    let n = m.items@.len();
    let st1 = after_declarations(st, m.items@, n);
    let st2 = after_impls(st1, m.items@, n);
    let st3 = after_uses(st2, m.items@, n);
    let st4 = after_items(st3, m.items@, n);
    after_cycles(st4, st4.supertrait_order, st4.supertrait_order.len())
}

// ---- resolving ----

pub struct Resolver<'a> {
    names: NameStore<'a>,
}

impl<'a> View for Resolver<'a> {
    type V = Names;

    closed spec fn view(&self) -> Names {
        self.names@
    }
}

impl<'a> Resolver<'a> {
    // ---- interning ----

    fn intern(&mut self, name: String, span: Span, kind: SymbolKind) -> (r: SymbolId)
        requires
            old(self)@.wf(),
        ensures
            final(self)@ == interned(old(self)@, name@, span, symbol_kind_view(kind)),
            r == old(self)@.next_id(),
            final(self)@.knows(r),
            final(self)@.wf(),
            old(self)@.grown_to(final(self)@),
    {
        let id = self.names.push_symbol(name.clone(), span, kind);
        self.names.bind_here(name, id);
        id
    }

    fn declare(&mut self, name: &Ident, kind: SymbolKind) -> (r: SymbolId)
        requires
            old(self)@.wf(),
        ensures
            final(self)@ == declared_here(old(self)@, name.name@, name.span, symbol_kind_view(kind)),
            r == old(self)@.next_id(),
            final(self)@.knows(r),
            final(self)@.wf(),
            old(self)@.grown_to(final(self)@),
    {
        let id = self.intern(name.name.clone(), name.span, kind);
        self.names.set_decl(name.span, id);
        id
    }

    pub(crate) fn intern_generic_param(&mut self, g: &GenericParam) -> (r: SymbolId)
        requires
            old(self)@.wf(),
        ensures
            final(self)@ == generic_interned(old(self)@, *g),
            r == generic_id(old(self)@, *g),
            final(self)@.wf(),
            old(self)@.grown_to(final(self)@),
    {
        match self.names.declared_by(g.name.span) {
            Some(existing) => {
                self.names.bind_here(g.name.name.clone(), existing);
                existing
            },
            None => self.declare(&g.name, SymbolKind::TypeParam),
        }
    }

    fn intern_generics(&mut self, gs: &Vec<GenericParam>) -> (r: Vec<SymbolId>)
        requires
            old(self)@.wf(),
        ensures
            final(self)@ == generics_interned(old(self)@, gs@, gs@.len()).0,
            r@ == generics_interned(old(self)@, gs@, gs@.len()).1,
            r@.len() == gs@.len(),
            final(self)@.wf(),
            old(self)@.grown_to(final(self)@),
    {
        let ghost st = self@;
        let mut out: Vec<SymbolId> = Vec::new();
        let mut i: usize = 0;
        while i < gs.len()
            invariant
                i <= gs.len(),
                st == old(self)@,
                (self@, out@) == generics_interned(st, gs@, i as nat),
                out@.len() == i,
                self@.wf(),
                st.grown_to(self@),
            decreases gs.len() - i,
        {
            let id = self.intern_generic_param(&gs[i]);
            out.push(id);
            i += 1;
        }
        out
    }

    fn declare_generics(&mut self, gs: &Vec<GenericParam>) -> (r: Vec<SymbolId>)
        requires
            old(self)@.wf(),
        ensures
            final(self)@ == generics_declared(old(self)@, gs@, gs@.len()).0,
            r@ == generics_declared(old(self)@, gs@, gs@.len()).1,
            final(self)@.wf(),
            old(self)@.grown_to(final(self)@),
    {
        let ghost st = self@;
        let mut out: Vec<SymbolId> = Vec::new();
        let mut i: usize = 0;
        while i < gs.len()
            invariant
                i <= gs.len(),
                st == old(self)@,
                (self@, out@) == generics_declared(st, gs@, i as nat),
                self@.wf(),
                st.grown_to(self@),
            decreases gs.len() - i,
        {
            let id = self.declare(&gs[i].name, SymbolKind::TypeParam);
            out.push(id);
            i += 1;
        }
        out
    }

    fn intern_item(&mut self, name: &Ident, kind: SymbolKind, code_name: String, is_pub: bool) -> (r: SymbolId)
        requires
            old(self)@.wf(),
        ensures
            final(self)@ == item_declared(old(self)@, *name, symbol_kind_view(kind), code_name@, is_pub),
            r == old(self)@.next_id(),
            final(self)@.knows(r),
            final(self)@.wf(),
            old(self)@.grown_to(final(self)@),
    {
        let id = self.names.push_symbol(code_name, name.span, kind);
        let key = self.names.key_here(name.name.as_str());
        self.names.bind_global(key, id);
        self.names.set_visibility(id, is_pub);
        self.names.set_decl(name.span, id);
        id
    }

    // ---- paths, types and patterns ----

    fn resolve_path(&mut self, p: &'a Path)
        requires
            old(self)@.wf(),
        ensures
            final(self)@ == after_path(old(self)@, *p),
            final(self)@.wf(),
            old(self)@.grown_to(final(self)@),
        decreases p, 0nat,
    {
        self.resolve_types(&p.generic_args);
        let n = p.segments.len();
        let ghost segs = segment_names(p.segments@);
        assert(segs.take(n as int) =~= segs);
        match self.names.lookup_path(&p.segments, n) {
            Some((id, key)) => {
                self.names.check_path_visibility(&key, p.span);
                self.names.set_path(p.span, id);
                self.names.capture(id);
            },
            None => {
                self.resolve_variant_path(&p.segments, p.span);
            },
        }
    }

    fn resolve_variant_path(&mut self, segments: &Vec<Ident>, span: Span)
        requires
            old(self)@.wf(),
        ensures
            final(self)@ == after_variant_path(old(self)@, segment_names(segments@), span),
            final(self)@.wf(),
            old(self)@.grown_to(final(self)@),
    {
        let n = segments.len();
        let ghost segs = segment_names(segments@);
        assert(segs.take(n as int) =~= segs);
        if n >= 2 {
            assert(segs.take(n - 1) =~= segs.drop_last());
            assert(segs.last() == segments@[n - 1].name@);
            match self.names.lookup_path(segments, n - 1) {
                Some((e, key)) => {
                    let is_enum = match self.names.symbol(e).kind {
                        SymbolKind::Enum => true,
                        _ => false,
                    };
                    assert(is_enum == (self@.kind(e) is Enum));
                    if is_enum {
                        match self.names.variant(e, &segments[n - 1].name) {
                            Some(v) => {
                                self.names.check_path_visibility(&key, span);
                                if !self.names.is_visible(v) {
                                    self.names.visibility_error(segments[n - 1].name.as_str(), v, span);
                                }
                                self.names.set_path(span, v);
                            },
                            None => {
                                let m = quoted("no variant `", segments[n - 1].name.as_str(), "` on that enum");
                                self.names.error(m, span);
                            },
                        }
                        return ;
                    }
                },
                None => {},
            }
        }
        if n == 1 {
            let m = quoted("unresolved name `", segments[0].name.as_str(), "`");
            self.names.error(m, span);
        } else {
            let m = quoted("unresolved path `", join_names(segments, n).as_str(), "`");
            self.names.error(m, span);
        }
    }

    fn resolve_types(&mut self, ts: &'a Vec<Type>)
        requires
            old(self)@.wf(),
        ensures
            final(self)@ == after_types(old(self)@, ts@, ts@.len()),
            final(self)@.wf(),
            old(self)@.grown_to(final(self)@),
        decreases ts, 0nat,
    {
        let ghost st = self@;
        let mut i: usize = 0;
        while i < ts.len()
            invariant
                i <= ts.len(),
                st == old(self)@,
                self@ == after_types(st, ts@, i as nat),
                self@.wf(),
                st.grown_to(self@),
            decreases ts.len() - i,
        {
            self.resolve_type(&ts[i]);
            i += 1;
        }
    }

    fn resolve_type(&mut self, t: &'a Type)
        requires
            old(self)@.wf(),
        ensures
            final(self)@ == after_type(old(self)@, *t),
            final(self)@.wf(),
            old(self)@.grown_to(final(self)@),
        decreases t, 1nat,
    {
        match t {
            Type::Path(p) => {
                let ghost segs = segment_names(p.segments@);
                if p.segments.len() > 0 {
                    assert(segs[0] == p.segments@[0].name@);
                    if same_text(p.segments[0].name.as_str(), "Self") {
                        if p.segments.len() == 1 {
                            match self.names.lookup_name(&p.segments[0].name) {
                                Some(id) => self.names.set_path(p.span, id),
                                None => {},
                            }
                        }
                        return ;
                    }
                }
                if p.segments.len() == 2 {
                    match self.names.lookup_name(&p.segments[0].name) {
                        Some(id) => {
                            let is_param = match self.names.symbol(id).kind {
                                SymbolKind::TypeParam => true,
                                _ => false,
                            };
                            assert(is_param == (self@.kind(id) is TypeParam));
                            if is_param {
                                self.names.set_projection(p.span, id);
                                return ;
                            }
                        },
                        None => {},
                    }
                }
                self.resolve_path(p);
            },
            Type::Dyn(p) => self.resolve_path(p),
            Type::Array { elem, .. } => self.resolve_type(elem),
            Type::Fn { params, ret, .. } => {
                self.resolve_types(params);
                match ret {
                    Some(r) => self.resolve_type(r),
                    None => {},
                }
            },
            Type::Tuple { elems, .. } => self.resolve_types(elems),
        }
    }

    fn resolve_opt_type(&mut self, t: &'a Option<Type>)
        requires
            old(self)@.wf(),
        ensures
            final(self)@ == after_opt_type(old(self)@, *t),
            final(self)@.wf(),
            old(self)@.grown_to(final(self)@),
    {
        match t {
            Some(t) => self.resolve_type(t),
            None => {},
        }
    }

    fn declare_pattern(&mut self, p: &'a Pattern, mutable_let: bool)
        requires
            old(self)@.wf(),
        ensures
            final(self)@ == after_pattern(old(self)@, *p, mutable_let),
            final(self)@.wf(),
            old(self)@.grown_to(final(self)@),
        decreases p, 1nat,
    {
        match p {
            Pattern::Wildcard(_) => {},
            Pattern::Ident { name, mutable, .. } => {
                let _ = self.declare(name, SymbolKind::Local { mutable: mutable_let || *mutable });
            },
            Pattern::Literal { .. } => {},
            Pattern::Range { .. } => {},
            Pattern::Path { path, .. } => self.resolve_path(path),
            Pattern::TupleVariant { path, fields, .. } => {
                self.resolve_path(path);
                self.declare_patterns(fields, mutable_let);
            },
            Pattern::NamedVariant { path, fields, .. } => {
                self.resolve_path(path);
                let ghost st = self@;
                let mut i: usize = 0;
                while i < fields.len()
                    invariant
                        i <= fields.len(),
                        p matches Pattern::NamedVariant { fields: fs, .. } && fs == *fields,
                        old(self)@.grown_to(st),
                        self@ == after_field_patterns(st, fields@, mutable_let, i as nat),
                        self@.wf(),
                        st.grown_to(self@),
                    decreases fields.len() - i,
                {
                    let field = &fields[i];
                    self.declare_pattern(&field.1, mutable_let);
                    i += 1;
                }
            },
            Pattern::Or { patterns, .. } => self.declare_patterns(patterns, mutable_let),
            Pattern::Tuple { patterns, .. } => self.declare_patterns(patterns, mutable_let),
        }
    }

    fn declare_patterns(&mut self, ps: &'a Vec<Pattern>, mutable_let: bool)
        requires
            old(self)@.wf(),
        ensures
            final(self)@ == after_patterns(old(self)@, ps@, mutable_let, ps@.len()),
            final(self)@.wf(),
            old(self)@.grown_to(final(self)@),
        decreases ps, 0nat,
    {
        let ghost st = self@;
        let mut i: usize = 0;
        while i < ps.len()
            invariant
                i <= ps.len(),
                st == old(self)@,
                self@ == after_patterns(st, ps@, mutable_let, i as nat),
                self@.wf(),
                st.grown_to(self@),
            decreases ps.len() - i,
        {
            self.declare_pattern(&ps[i], mutable_let);
            i += 1;
        }
    }
}

/// A text between two others.
fn quoted(before: &str, name: &str, after: &str) -> (r: String)
    ensures
        r@ == before@ + name@ + after@,
{
    let mut m: String = before.to_owned();
    m.append(name);
    m.append(after);
    m
}

impl<'a> Resolver<'a> {
    // ---- expressions and statements ----

    fn resolve_exprs(&mut self, es: &'a Vec<Expr>)
        requires
            old(self)@.wf(),
        ensures
            final(self)@ == after_exprs(old(self)@, es@, es@.len()),
            final(self)@.wf(),
            old(self)@.grown_to(final(self)@),
        decreases es, 0nat,
    {
        let ghost st = self@;
        let mut i: usize = 0;
        while i < es.len()
            invariant
                i <= es.len(),
                st == old(self)@,
                self@ == after_exprs(st, es@, i as nat),
                self@.wf(),
                st.grown_to(self@),
            decreases es.len() - i,
        {
            self.resolve_expr(&es[i]);
            i += 1;
        }
    }

    fn resolve_inits(&mut self, fs: &'a Vec<FieldInit>)
        requires
            old(self)@.wf(),
        ensures
            final(self)@ == after_inits(old(self)@, fs@, fs@.len()),
            final(self)@.wf(),
            old(self)@.grown_to(final(self)@),
        decreases fs, 0nat,
    {
        let ghost st = self@;
        let mut i: usize = 0;
        while i < fs.len()
            invariant
                i <= fs.len(),
                st == old(self)@,
                self@ == after_inits(st, fs@, i as nat),
                self@.wf(),
                st.grown_to(self@),
            decreases fs.len() - i,
        {
            self.resolve_expr(&fs[i].value);
            i += 1;
        }
    }

    fn resolve_stmts(&mut self, ss: &'a Vec<Stmt>)
        requires
            old(self)@.wf(),
        ensures
            final(self)@ == after_stmts(old(self)@, ss@, ss@.len()),
            final(self)@.wf(),
            old(self)@.grown_to(final(self)@),
        decreases ss, 0nat,
    {
        let ghost st = self@;
        let mut i: usize = 0;
        while i < ss.len()
            invariant
                i <= ss.len(),
                st == old(self)@,
                self@ == after_stmts(st, ss@, i as nat),
                self@.wf(),
                st.grown_to(self@),
            decreases ss.len() - i,
        {
            self.resolve_stmt(&ss[i]);
            i += 1;
        }
    }

    fn resolve_opt(&mut self, e: &'a Option<Box<Expr>>)
        requires
            old(self)@.wf(),
        ensures
            final(self)@ == after_opt(old(self)@, *e),
            final(self)@.wf(),
            old(self)@.grown_to(final(self)@),
        decreases e, 2nat,
    {
        match e {
            Some(e) => self.resolve_expr(e),
            None => {},
        }
    }

    fn resolve_arms(&mut self, arms: &'a Vec<MatchArm>)
        requires
            old(self)@.wf(),
        ensures
            final(self)@ == after_arms(old(self)@, arms@, arms@.len()),
            final(self)@.wf(),
            old(self)@.grown_to(final(self)@),
        decreases arms, 0nat,
    {
        let ghost st = self@;
        let mut i: usize = 0;
        while i < arms.len()
            invariant
                i <= arms.len(),
                st == old(self)@,
                self@ == after_arms(st, arms@, i as nat),
                self@.wf(),
                st.grown_to(self@),
            decreases arms.len() - i,
        {
            let arm = &arms[i];
            assert(decreases_to!(arms => arm));
            self.names.enter();
            self.declare_pattern(&arm.pat, false);
            match &arm.guard {
                Some(g) => self.resolve_expr(g),
                None => {},
            }
            self.resolve_expr(&arm.body);
            self.names.exit();
            i += 1;
        }
    }

    fn resolve_block(&mut self, b: &'a Block)
        requires
            old(self)@.wf(),
        ensures
            final(self)@ == after_block(old(self)@, *b),
            final(self)@.wf(),
            old(self)@.grown_to(final(self)@),
        decreases b, 1nat,
    {
        self.names.enter();
        self.resolve_stmts(&b.stmts);
        self.names.exit();
    }

    fn resolve_stmt(&mut self, s: &'a Stmt)
        requires
            old(self)@.wf(),
        ensures
            final(self)@ == after_stmt(old(self)@, *s),
            final(self)@.wf(),
            old(self)@.grown_to(final(self)@),
        decreases s, 1nat,
    {
        match s {
            Stmt::Let(l) => {
                self.resolve_opt_type(&l.ty);
                match &l.init {
                    Some(e) => self.resolve_expr(e),
                    None => {},
                }
                self.declare_pattern(&l.pat, l.mutable);
            },
            Stmt::Expr(e, _) => self.resolve_expr(e),
            Stmt::Item(item) => {
                self.declare_item(item);
                self.resolve_item(item);
            },
        }
    }

    fn resolve_expr(&mut self, e: &'a Expr)
        requires
            old(self)@.wf(),
        ensures
            final(self)@ == after_expr(old(self)@, *e),
            final(self)@.wf(),
            old(self)@.grown_to(final(self)@),
        decreases e, 1nat,
    {
        match e {
            Expr::Lit { .. } => {},
            Expr::Path(p) => self.resolve_path(p),
            Expr::Unary { expr, .. } => self.resolve_expr(expr),
            Expr::Binary { lhs, rhs, .. } => {
                self.resolve_expr(lhs);
                self.resolve_expr(rhs);
            },
            Expr::Assign { lhs, rhs, .. } => {
                self.resolve_expr(lhs);
                self.resolve_expr(rhs);
            },
            Expr::AssignOp { lhs, rhs, .. } => {
                self.resolve_expr(lhs);
                self.resolve_expr(rhs);
            },
            Expr::Call { callee, args, .. } => {
                self.resolve_expr(callee);
                self.resolve_exprs(args);
            },
            Expr::MethodCall { receiver, args, .. } => {
                self.resolve_expr(receiver);
                self.resolve_exprs(args);
            },
            Expr::Field { receiver, .. } => self.resolve_expr(receiver),
            Expr::TupleIndex { receiver, .. } => self.resolve_expr(receiver),
            Expr::Index { receiver, index, .. } => {
                self.resolve_expr(receiver);
                self.resolve_expr(index);
            },
            Expr::Try { expr, .. } => self.resolve_expr(expr),
            Expr::Cast { expr, ty, .. } => {
                self.resolve_expr(expr);
                self.resolve_type(ty);
            },
            Expr::Array { elems, .. } => self.resolve_exprs(elems),
            Expr::Tuple { elems, .. } => self.resolve_exprs(elems),
            Expr::Block(b) => self.resolve_block(b),
            Expr::If { cond, then_branch, else_branch, .. } => {
                self.resolve_expr(cond);
                self.resolve_block(then_branch);
                match else_branch {
                    Some(eb) => self.resolve_expr(eb),
                    None => {},
                }
            },
            Expr::While { cond, body, .. } => {
                self.resolve_expr(cond);
                self.resolve_block(body);
            },
            Expr::For { pat, iter, body, .. } => {
                self.resolve_expr(iter);
                self.names.enter();
                self.declare_pattern(pat, false);
                self.resolve_stmts(&body.stmts);
                self.names.exit();
            },
            Expr::Match { scrutinee, arms, .. } => {
                self.resolve_expr(scrutinee);
                self.resolve_arms(arms);
            },
            Expr::Range { start, end, .. } => {
                self.resolve_opt(start);
                self.resolve_opt(end);
            },
            Expr::StructLit { path, fields, .. } => {
                self.resolve_path(path);
                self.resolve_inits(fields);
            },
            Expr::Return { value, .. } => self.resolve_opt(value),
            Expr::Break(_) => {},
            Expr::Continue(_) => {},
            Expr::Closure { .. } => self.resolve_closure(e),
        }
    }

    fn resolve_closure(&mut self, e: &'a Expr)
        requires
            old(self)@.wf(),
        ensures
            final(self)@ == after_closure(old(self)@, *e),
            final(self)@.wf(),
            old(self)@.grown_to(final(self)@),
        decreases e, 0nat,
    {
        match e {
            Expr::Closure { params, body, span } => {
                let counter = self.open_closure(*span);
                let ids = self.declare_closure_params(params);
                self.names.set_closure_params(*span, ids);
                self.resolve_expr(body);
                let ghost inside = self@;
                self.close_closure(*span, counter);
                assert(inside.open_closure_spans.drop_last() =~= old(self)@.open_closure_spans);
            },
            _ => {},
        }
    }

    fn open_closure(&mut self, span: Span) -> (r: u32)
        requires
            old(self)@.wf(),
        ensures
            final(self)@ == closure_opened(old(self)@, span),
            r == old(self)@.lambda_counter,
            final(self)@.wf(),
            ({
                let st = old(self)@;
                entered(Names { open_closure_spans: st.open_closure_spans.push(span), ..st }).grown_to(final(self)@)
            }),
    {
        let counter = self.names.next_lambda();
        let mut name: String = "__lambda_".to_owned();
        push_dec(&mut name, counter as u64);
        let key = self.names.key_here(name.as_str());
        let f = self.names.push_symbol(name, span, SymbolKind::Fn);
        self.names.bind_global(key, f);
        self.names.set_closure_fn(span, f);
        self.names.enter();
        self.names.open_closure(span);
        counter
    }

    fn declare_closure_params(&mut self, ps: &'a Vec<ClosureParam>) -> (r: Vec<SymbolId>)
        requires
            old(self)@.wf(),
        ensures
            (final(self)@, r@) == after_closure_params(old(self)@, ps@, ps@.len()),
            final(self)@.wf(),
            old(self)@.grown_to(final(self)@),
    {
        let ghost st = self@;
        let mut out: Vec<SymbolId> = Vec::new();
        let mut i: usize = 0;
        while i < ps.len()
            invariant
                i <= ps.len(),
                st == old(self)@,
                (self@, out@) == after_closure_params(st, ps@, i as nat),
                self@.wf(),
                st.grown_to(self@),
            decreases ps.len() - i,
        {
            let id = self.declare(&ps[i].name, SymbolKind::Param);
            self.resolve_opt_type(&ps[i].ty);
            out.push(id);
            i += 1;
        }
        out
    }

    fn close_closure(&mut self, span: Span, counter: u32)
        requires
            old(self)@.wf(),
            old(self)@.open_closure_spans.len() > 0,
            old(self)@.scopes.len() > 1,
        ensures
            final(self)@ == closure_closed(old(self)@, span, counter),
            final(self)@.wf(),
            ({
                let st = old(self)@;
                left(Names { open_closure_spans: st.open_closure_spans.drop_last(), ..st }).grown_to(final(self)@)
            }),
    {
        self.names.close_closure();
        self.names.exit();
        if self.names.captured_any(span) {
            let mut name: String = "__Closure_".to_owned();
            push_dec(&mut name, counter as u64);
            let s = self.names.push_symbol(name.clone(), span, SymbolKind::Struct);
            let key = self.names.key_here(name.as_str());
            self.names.bind_global(key, s);
            self.names.set_closure_struct(span, s);
            let ghost plain = name@;
            name.append("__call");
            let c = self.names.push_symbol(name, span, SymbolKind::Fn);
            self.names.set_closure_call(span, c);
            self.names.set_method(s, "call".to_owned(), c);
            match self.find_fn_trait() {
                Some(t) => self.names.implement(s, t),
                None => {},
            }
        }
    }

    /// Finds the trait that closures implement.
    fn find_fn_trait(&self) -> (r: Option<SymbolId>)
        ensures
            match first_where(is_fn_trait(self@.symbols), self@.symbols.len()) {
                Some(i) => r == Some(SymbolId(i as u32)),
                None => r is None,
            },
    {
        let n = self.names.symbol_count();
        let ghost p = is_fn_trait(self@.symbols);
        let mut i: usize = 0;
        while i < n
            invariant
                i <= n,
                n == self@.symbols.len(),
                p == is_fn_trait(self@.symbols),
                first_where(p, i as nat) is None,
            decreases n - i,
        {
            let s = self.names.symbol_at(i);
            let is_trait = match s.kind {
                SymbolKind::Trait => true,
                _ => false,
            };
            assert(symbol_view(*s) == self@.symbols[i as int]);
            if same_text(s.name.as_str(), "Fn1") && is_trait {
                proof {
                    assert(p(i as int));
                    assert(first_where(p, (i + 1) as nat) == Some(i as int));
                    found_stays(p, (i + 1) as nat, n as nat);
                }
                return Some(SymbolId(i as u32));
            }
            assert(!p(i as int));
            i += 1;
        }
        None
    }

    // ---- declaring items ----

    fn declare_items(&mut self, items: &'a Vec<Item>)
        requires
            old(self)@.wf(),
        ensures
            final(self)@ == after_declarations(old(self)@, items@, items@.len()),
            final(self)@.wf(),
            old(self)@.grown_to(final(self)@),
        decreases items, 0nat,
    {
        let ghost st = self@;
        let mut i: usize = 0;
        while i < items.len()
            invariant
                i <= items.len(),
                st == old(self)@,
                self@ == after_declarations(st, items@, i as nat),
                self@.wf(),
                st.grown_to(self@),
            decreases items.len() - i,
        {
            self.declare_item(&items[i]);
            i += 1;
        }
    }

    fn declare_item(&mut self, item: &'a Item)
        requires
            old(self)@.wf(),
        ensures
            final(self)@ == after_declaration(old(self)@, *item),
            final(self)@.wf(),
            old(self)@.grown_to(final(self)@),
        decreases item, 1nat,
    {
        match item {
            Item::Mod(m) => {
                let _ = self.intern_item(&m.name, SymbolKind::Module, m.name.name.clone(), public(m.vis));
                let ghost st = self@;
                self.names.enter_module(m.name.name.clone());
                self.declare_items(&m.items);
                self.names.exit_module();
                assert(self@.current_path =~= st.current_path);
            },
            Item::Fn(f) => {
                let code_name = self.names.code_name(f.name.name.as_str());
                let _ = self.intern_item(&f.name, SymbolKind::Fn, code_name, public(f.vis));
            },
            Item::Struct(s) => {
                let _ = self.intern_item(&s.name, SymbolKind::Struct, s.name.name.clone(), public(s.vis));
            },
            Item::Enum(e) => {
                let id = self.intern_item(&e.name, SymbolKind::Enum, e.name.name.clone(), public(e.vis));
                self.declare_enum(e, id);
            },
            Item::Const(c) => {
                let _ = self.intern_item(&c.name, SymbolKind::Const, c.name.name.clone(), public(c.vis));
            },
            Item::Trait(t) => {
                let id = self.intern_item(&t.name, SymbolKind::Trait, t.name.name.clone(), public(t.vis));
                self.declare_trait(t, id);
            },
            Item::Impl(_) => {},
            Item::Use(_) => {},
        }
    }

    fn declare_enum(&mut self, e: &'a EnumDecl, id: SymbolId)
        requires
            old(self)@.wf(),
        ensures
            final(self)@ == after_enum(old(self)@, *e, id),
            final(self)@.wf(),
            old(self)@.grown_to(final(self)@),
    {
        let ghost st = self@;
        let is_public = public(e.vis);
        let vs = &e.variants;
        let mut variants: Table<String, SymbolId> = Table::new();
        let mut any = false;
        let mut i: usize = 0;
        while i < vs.len()
            invariant
                i <= vs.len(),
                st == old(self)@,
                vs@ == e.variants@,
                is_public == is_pub(e.vis),
                (self@, variants@, any) == after_variants(st, vs@, id, is_public, i as nat),
                self@.wf(),
                st.grown_to(self@),
                forall|v: Seq<char>| variants@.contains_key(v) ==> self@.knows(#[trigger] variants@[v]),
            decreases vs.len() - i,
        {
            let v = &vs[i];
            let ghost known = variants@;
            let ghost before = self@;
            let vid = self.names.push_symbol(
                v.name.name.clone(),
                v.name.span,
                SymbolKind::EnumVariant { enum_sym: id, discriminant: i as u32 },
            );
            self.names.set_decl(v.name.span, vid);
            self.names.set_visibility(vid, is_public);
            variants.insert(v.name.name.clone(), vid);
            let types: Vec<&'a Type> = match &v.fields {
                VariantFields::Unit => {
                    let none: Vec<&'a Type> = Vec::new();
                    assert(types_of(none@) =~= variant_payload(v.fields));
                    none
                },
                VariantFields::Tuple(ts) => refer_types(ts),
                VariantFields::Named(fs) => {
                    self.names.set_payload_names(vid, names_of_fields(fs));
                    refer_fields(fs)
                },
            };
            any = any || types.len() > 0;
            assert(types_of(types@).len() == types@.len());
            assert(types_of(types@) == variant_payload(v.fields));
            self.names.set_payloads(vid, types);
            proof {
                assert forall|n: Seq<char>| variants@.contains_key(n) implies self@.knows(#[trigger] variants@[n]) by {
                    if n != v.name.name@ {
                        assert(before.knows(known[n]));
                    }
                }
            }
            i += 1;
        }
        self.names.set_variants(id, variants);
        if any {
            self.names.mark_payload(id);
        }
    }

    fn declare_trait(&mut self, t: &'a TraitDecl, id: SymbolId)
        requires
            old(self)@.wf(),
        ensures
            final(self)@ == after_trait_decl(old(self)@, *t, id),
            final(self)@.wf(),
            old(self)@.grown_to(final(self)@),
    {
        self.names.set_trait_methods(id, &t.methods);
        self.names.set_assoc_types(id, names_of_assoc(&t.assoc_types));
        let ghost st = self@;
        let is_public = public(t.vis);
        let ms = &t.methods;
        let mut i: usize = 0;
        while i < ms.len()
            invariant
                i <= ms.len(),
                old(self)@.grown_to(st),
                ms@ == t.methods@,
                is_public == is_pub(t.vis),
                self@ == after_defaults(st, ms@, id, t.name.name@, is_public, i as nat),
                self@.wf(),
                st.grown_to(self@),
            decreases ms.len() - i,
        {
            let m = &ms[i];
            if m.body.is_some() {
                let mut name: String = "__default_".to_owned();
                name.append(t.name.name.as_str());
                name.append("__");
                name.append(m.name.name.as_str());
                let f = self.names.push_symbol(name, m.name.span, SymbolKind::Fn);
                self.names.set_visibility(f, is_public);
                self.names.set_default(id, m.name.name.clone(), f);
                let s = self.names.push_symbol("Self".to_owned(), m.span, SymbolKind::TypeParam);
                self.names.set_self_sym(f, s);
                let mut bounds: Vec<SymbolId> = Vec::new();
                bounds.push(id);
                assert(bounds@ =~= seq![id]);
                self.names.set_bounds(s, bounds);
            }
            i += 1;
        }
    }

    // ---- impl blocks ----

    fn declare_impls(&mut self, items: &'a Vec<Item>)
        requires
            old(self)@.wf(),
        ensures
            final(self)@ == after_impls(old(self)@, items@, items@.len()),
            final(self)@.wf(),
            old(self)@.grown_to(final(self)@),
        decreases items, 0nat,
    {
        let ghost st = self@;
        let mut i: usize = 0;
        while i < items.len()
            invariant
                i <= items.len(),
                st == old(self)@,
                self@ == after_impls(st, items@, i as nat),
                self@.wf(),
                st.grown_to(self@),
            decreases items.len() - i,
        {
            let ghost here = self@;
            let item = &items[i];
            assert(decreases_to!(items => item));
            match item {
                Item::Impl(b) => self.declare_impl(b),
                Item::Mod(m) => {
                    self.names.enter_module(m.name.name.clone());
                    self.declare_impls(&m.items);
                    self.names.exit_module();
                    assert(self@.current_path =~= here.current_path);
                },
                _ => {},
            }
            i += 1;
        }
    }

    pub(crate) fn declare_impl(&mut self, b: &'a ImplBlock)
        requires
            old(self)@.wf(),
        ensures
            final(self)@ == after_impl(old(self)@, *b),
            final(self)@.wf(),
            old(self)@.grown_to(final(self)@),
    {
        self.names.enter();
        let _ = self.intern_generics(&b.generics);
        self.resolve_path(&b.type_path);
        self.names.exit();
        match self.names.path_target(b.type_path.span) {
            Some(s) => {
                let is_struct = match self.names.symbol(s).kind {
                    SymbolKind::Struct => true,
                    _ => false,
                };
                assert(is_struct == (self@.kind(s) is Struct));
                if is_struct {
                    self.declare_impl_body(b, s);
                } else {
                    let m = quoted(
                        "`",
                        self.names.symbol(s).name.as_str(),
                        "` is not a struct; `impl` can only be applied to structs (for now)",
                    );
                    self.names.error(m, b.type_path.span);
                }
            },
            None => {},
        }
    }

    fn declare_impl_trait(&mut self, p: &'a Path, s: SymbolId)
        requires
            old(self)@.wf(),
        ensures
            final(self)@ == after_impl_trait(old(self)@, *p, s),
            final(self)@.wf(),
            old(self)@.grown_to(final(self)@),
    {
        self.resolve_path(p);
        match self.names.path_target(p.span) {
            Some(t) => {
                if self.names.is_trait(t) {
                    self.names.implement(s, t);
                } else {
                    let m = quoted("`", self.names.symbol(t).name.as_str(), "` is not a trait");
                    self.names.error(m, p.span);
                }
            },
            None => {},
        }
    }

    /// The trait an impl block is of, and whether it is the conversion trait.
    fn trait_of_impl(&self, b: &ImplBlock) -> (r: (Option<SymbolId>, bool))
        requires
            self@.wf(),
        ensures
            r.0 == impl_trait(self@, *b),
            r.1 == is_conversion(self@, *b),
    {
        match &b.trait_path {
            Some(p) => match self.names.path_target(p.span) {
                Some(t) => (Some(t), same_text(self.names.symbol(t).name.as_str(), "Into")),
                None => (None, false),
            },
            None => (None, false),
        }
    }

    fn declare_methods(&mut self, ms: &'a Vec<FnDecl>, s: SymbolId, struct_name: &String, into_at: Option<usize>)
        requires
            old(self)@.wf(),
        ensures
            final(self)@ == after_methods(old(self)@, ms@, s, struct_name@, into_at, ms@.len()),
            final(self)@.wf(),
            old(self)@.grown_to(final(self)@),
    {
        let ghost st = self@;
        let mut i: usize = 0;
        while i < ms.len()
            invariant
                i <= ms.len(),
                st == old(self)@,
                self@ == after_methods(st, ms@, s, struct_name@, into_at, i as nat),
                self@.wf(),
                st.grown_to(self@),
            decreases ms.len() - i,
        {
            let m = &ms[i];
            let name = self.method_name(struct_name, &m.name.name, into_at);
            let id = self.names.push_symbol(name, m.name.span, SymbolKind::Fn);
            self.names.set_decl(m.name.span, id);
            if self.names.has_method(s, m.name.name.clone()) && into_at.is_none() {
                let mut text: String = "method `".to_owned();
                text.append(m.name.name.as_str());
                text.append("` already defined on `");
                text.append(struct_name.as_str());
                text.append("`");
                self.names.error(text, m.name.span);
            }
            self.names.set_method(s, m.name.name.clone(), id);
            i += 1;
        }
    }

    /// The name a method gets in generated code.
    fn method_name(&self, struct_name: &String, method: &String, into_at: Option<usize>) -> (r: String)
        ensures
            r@ == method_code_name(self@, struct_name@, method@, into_at),
    {
        let mut name = self.names.code_name("");
        proof {
            let path = self@.current_path;
            reveal_strlit("");
            if path.len() > 0 {
                assert(joined(path, "__"@) + "__"@ + ""@ =~= joined(path, "__"@) + "__"@);
            }
        }
        name.append(struct_name.as_str());
        name.append("__");
        name.append(method.as_str());
        match into_at {
            Some(at) => {
                name.append("__");
                push_dec(&mut name, at as u64);
            },
            None => {},
        }
        name
    }

    fn declare_conversion(&mut self, b: &'a ImplBlock, p: &'a Path, s: SymbolId)
        requires
            old(self)@.wf(),
        ensures
            final(self)@ == after_conversion(old(self)@, *b, *p, s),
            final(self)@.wf(),
            old(self)@.grown_to(final(self)@),
    {
        let ghost found = fn_named(b.methods@, "into"@);
        let mut i: usize = 0;
        while i < b.methods.len()
            invariant
                i <= b.methods.len(),
                self@ == old(self)@,
                self@.wf(),
                found == fn_named(b.methods@, "into"@),
                first_where(found, i as nat) is None,
            decreases b.methods.len() - i,
        {
            if same_text(b.methods[i].name.name.as_str(), "into") {
                proof {
                    assert(found(i as int));
                    assert(first_where(found, (i + 1) as nat) == Some(i as int));
                    found_stays(found, (i + 1) as nat, b.methods@.len());
                }
                if p.generic_args.len() > 0 {
                    match self.names.declared_by(b.methods[i].name.span) {
                        Some(f) => self.names.add_conversion(s, &p.generic_args[0], f),
                        None => {},
                    }
                }
                return ;
            }
            assert(!found(i as int));
            i += 1;
        }
    }

    fn declare_impl_body(&mut self, b: &'a ImplBlock, s: SymbolId)
        requires
            old(self)@.wf(),
            old(self)@.knows(s),
        ensures
            final(self)@ == after_impl_body(old(self)@, *b, s),
            final(self)@.wf(),
            old(self)@.grown_to(final(self)@),
    {
        match &b.trait_path {
            Some(p) => self.declare_impl_trait(p, s),
            None => {},
        }
        let struct_name = self.names.symbol(s).name.clone();
        let (_, converts) = self.trait_of_impl(b);
        let into_at: Option<usize> = if converts {
            Some(b.span.start)
        } else {
            None
        };
        self.declare_methods(&b.methods, s, &struct_name, into_at);
        let (_, still_converts) = self.trait_of_impl(b);
        match &b.trait_path {
            Some(p) => {
                if still_converts {
                    self.declare_conversion(b, p, s);
                }
            },
            None => {},
        }
        let (t, _) = self.trait_of_impl(b);
        match t {
            Some(t) => self.names.add_default_methods(&b.methods, s, t),
            None => {},
        }
        if b.assoc_types.len() > 0 {
            self.names.enter();
            let _ = self.intern_generics(&b.generics);
            self.declare_bindings(&b.assoc_types, s);
            self.names.exit();
        }
    }

    fn declare_bindings(&mut self, bs: &'a Vec<AssocTypeBinding>, s: SymbolId)
        requires
            old(self)@.wf(),
        ensures
            final(self)@ == after_bindings(old(self)@, bs@, s, bs@.len()),
            final(self)@.wf(),
            old(self)@.grown_to(final(self)@),
    {
        let ghost st = self@;
        let mut i: usize = 0;
        while i < bs.len()
            invariant
                i <= bs.len(),
                st == old(self)@,
                self@ == after_bindings(st, bs@, s, i as nat),
                self@.wf(),
                st.grown_to(self@),
            decreases bs.len() - i,
        {
            self.resolve_type(&bs[i].value);
            self.names.set_assoc_binding(s, bs[i].name.name.clone(), &bs[i].value);
            i += 1;
        }
    }

    // ---- imports ----

    fn resolve_uses(&mut self, items: &'a Vec<Item>)
        requires
            old(self)@.wf(),
        ensures
            final(self)@ == after_uses(old(self)@, items@, items@.len()),
            final(self)@.wf(),
            old(self)@.grown_to(final(self)@),
        decreases items, 0nat,
    {
        let ghost st = self@;
        let mut i: usize = 0;
        while i < items.len()
            invariant
                i <= items.len(),
                st == old(self)@,
                self@ == after_uses(st, items@, i as nat),
                self@.wf(),
                st.grown_to(self@),
            decreases items.len() - i,
        {
            let ghost here = self@;
            let item = &items[i];
            assert(decreases_to!(items => item));
            match item {
                Item::Use(u) => self.resolve_use(u),
                Item::Mod(m) => {
                    self.names.enter_module(m.name.name.clone());
                    self.resolve_uses(&m.items);
                    self.names.exit_module();
                    assert(self@.current_path =~= here.current_path);
                },
                _ => {},
            }
            i += 1;
        }
    }

    fn resolve_use(&mut self, u: &UseDecl)
        requires
            old(self)@.wf(),
        ensures
            final(self)@ == after_use(old(self)@, *u),
            final(self)@.wf(),
            old(self)@.grown_to(final(self)@),
    {
        let n = u.path.segments.len();
        let ghost segs = segment_names(u.path.segments@);
        assert(segs.take(n as int) =~= segs);
        if u.glob {
            let tail = join_names(&u.path.segments, n);
            match self.names.find_module(tail.clone()) {
                Some(module) => self.names.import_all(&module, public(u.vis)),
                None => {
                    let m = quoted("unresolved glob import `", tail.as_str(), "::*` — no such module");
                    self.names.error(m, u.path.span);
                },
            }
            return ;
        }
        match self.names.lookup_path(&u.path.segments, n) {
            Some((id, key)) => {
                self.names.check_path_visibility(&key, u.path.span);
                let alias: String = match &u.alias {
                    Some(a) => a.name.clone(),
                    None => if n > 0 {
                        u.path.segments[n - 1].name.clone()
                    } else {
                        "".to_owned()
                    },
                };
                let alias_key = self.names.key_here(alias.as_str());
                if public(u.vis) {
                    self.names.reexport(alias_key.clone());
                }
                self.names.bind_global(alias_key, id);
                self.names.set_path(u.path.span, id);
            },
            None => {
                let m = quoted("unresolved import `", join_names(&u.path.segments, n).as_str(), "`");
                self.names.error(m, u.path.span);
            },
        }
    }

    // ---- the bodies of items ----

    /// Looks up a path that must name a trait.
    fn lookup_trait(&mut self, p: &Path) -> (r: Option<SymbolId>)
        requires
            old(self)@.wf(),
        ensures
            ({
                let st = old(self)@;
                match path_lookup(st, segment_names(p.segments@)) {
                    Some((t, _)) => if st.kind(t) is Trait {
                        final(self)@ == st && r == Some(t)
                    } else {
                        final(self)@ == with_error(st, not_a_trait(*p), p.span) && r is None
                    },
                    None => final(self)@ == with_error(st, unresolved_trait(*p), p.span) && r is None,
                }
            }),
            final(self)@.wf(),
            old(self)@.grown_to(final(self)@),
    {
        let n = p.segments.len();
        assert(segment_names(p.segments@).take(n as int) =~= segment_names(p.segments@));
        match self.names.lookup_path(&p.segments, n) {
            Some((t, _)) => {
                if self.names.is_trait(t) {
                    Some(t)
                } else {
                    let m = quoted("`", join_names(&p.segments, n).as_str(), "` is not a trait");
                    self.names.error(m, p.span);
                    None
                }
            },
            None => {
                let m = quoted("unresolved trait `", join_names(&p.segments, n).as_str(), "`");
                self.names.error(m, p.span);
                None
            },
        }
    }

    fn resolve_bounds(&mut self, id: SymbolId, bs: &'a Vec<Path>) -> (r: Vec<SymbolId>)
        requires
            old(self)@.wf(),
        ensures
            (final(self)@, r@) == after_bounds(old(self)@, id, bs@, bs@.len()),
            final(self)@.wf(),
            old(self)@.grown_to(final(self)@),
    {
        let ghost st = self@;
        let mut out: Vec<SymbolId> = Vec::new();
        let mut i: usize = 0;
        while i < bs.len()
            invariant
                i <= bs.len(),
                st == old(self)@,
                (self@, out@) == after_bounds(st, id, bs@, i as nat),
                self@.wf(),
                st.grown_to(self@),
            decreases bs.len() - i,
        {
            let b = &bs[i];
            match self.lookup_trait(b) {
                Some(t) => {
                    out.push(t);
                    if b.generic_args.len() > 0 {
                        self.resolve_types(&b.generic_args);
                        self.names.set_bound_args(id, t, spans_of(&b.generic_args));
                    }
                },
                None => {},
            }
            i += 1;
        }
        out
    }

    fn resolve_all_bounds(&mut self, gs: &'a Vec<GenericParam>, ids: &Vec<SymbolId>)
        requires
            old(self)@.wf(),
            ids@.len() == gs@.len(),
        ensures
            final(self)@ == after_all_bounds(old(self)@, gs@, ids@, gs@.len()),
            final(self)@.wf(),
            old(self)@.grown_to(final(self)@),
    {
        let ghost st = self@;
        let mut i: usize = 0;
        while i < gs.len()
            invariant
                i <= gs.len(),
                st == old(self)@,
                self@ == after_all_bounds(st, gs@, ids@, i as nat),
                self@.wf(),
                st.grown_to(self@),
                ids@.len() == gs@.len(),
            decreases gs.len() - i,
        {
            let traits = self.resolve_bounds(ids[i], &gs[i].bounds);
            if traits.len() > 0 {
                self.names.set_bounds(ids[i], traits);
            }
            i += 1;
        }
    }

    fn resolve_params(&mut self, ps: &'a Vec<Param>)
        requires
            old(self)@.wf(),
        ensures
            final(self)@ == after_params(old(self)@, ps@, ps@.len()),
            final(self)@.wf(),
            old(self)@.grown_to(final(self)@),
    {
        let ghost st = self@;
        let mut i: usize = 0;
        while i < ps.len()
            invariant
                i <= ps.len(),
                st == old(self)@,
                self@ == after_params(st, ps@, i as nat),
                self@.wf(),
                st.grown_to(self@),
            decreases ps.len() - i,
        {
            self.resolve_type(&ps[i].ty);
            let _ = self.declare(&ps[i].name, SymbolKind::Param);
            i += 1;
        }
    }

    fn resolve_param_types(&mut self, ps: &'a Vec<Param>)
        requires
            old(self)@.wf(),
        ensures
            final(self)@ == after_param_types(old(self)@, ps@, ps@.len()),
            final(self)@.wf(),
            old(self)@.grown_to(final(self)@),
    {
        let ghost st = self@;
        let mut i: usize = 0;
        while i < ps.len()
            invariant
                i <= ps.len(),
                st == old(self)@,
                self@ == after_param_types(st, ps@, i as nat),
                self@.wf(),
                st.grown_to(self@),
            decreases ps.len() - i,
        {
            self.resolve_type(&ps[i].ty);
            i += 1;
        }
    }

    fn declare_param_names(&mut self, ps: &'a Vec<Param>)
        requires
            old(self)@.wf(),
        ensures
            final(self)@ == after_param_names(old(self)@, ps@, ps@.len()),
            final(self)@.wf(),
            old(self)@.grown_to(final(self)@),
    {
        let ghost st = self@;
        let mut i: usize = 0;
        while i < ps.len()
            invariant
                i <= ps.len(),
                st == old(self)@,
                self@ == after_param_names(st, ps@, i as nat),
                self@.wf(),
                st.grown_to(self@),
            decreases ps.len() - i,
        {
            let _ = self.declare(&ps[i].name, SymbolKind::Param);
            i += 1;
        }
    }

    fn resolve_fields(&mut self, fs: &'a Vec<Field>)
        requires
            old(self)@.wf(),
        ensures
            final(self)@ == after_fields(old(self)@, fs@, fs@.len()),
            final(self)@.wf(),
            old(self)@.grown_to(final(self)@),
    {
        let ghost st = self@;
        let mut i: usize = 0;
        while i < fs.len()
            invariant
                i <= fs.len(),
                st == old(self)@,
                self@ == after_fields(st, fs@, i as nat),
                self@.wf(),
                st.grown_to(self@),
            decreases fs.len() - i,
        {
            self.resolve_type(&fs[i].ty);
            i += 1;
        }
    }

    fn resolve_fns(&mut self, fs: &'a Vec<FnDecl>)
        requires
            old(self)@.wf(),
        ensures
            final(self)@ == after_fns(old(self)@, fs@, fs@.len()),
            final(self)@.wf(),
            old(self)@.grown_to(final(self)@),
        decreases fs, 0nat,
    {
        let ghost st = self@;
        let mut i: usize = 0;
        while i < fs.len()
            invariant
                i <= fs.len(),
                st == old(self)@,
                self@ == after_fns(st, fs@, i as nat),
                self@.wf(),
                st.grown_to(self@),
            decreases fs.len() - i,
        {
            self.resolve_fn(&fs[i]);
            i += 1;
        }
    }

    fn resolve_fn(&mut self, f: &'a FnDecl)
        requires
            old(self)@.wf(),
        ensures
            final(self)@ == after_fn(old(self)@, *f),
            final(self)@.wf(),
            old(self)@.grown_to(final(self)@),
        decreases f, 1nat,
    {
        self.names.enter();
        let ids = self.intern_generics(&f.generics);
        self.resolve_all_bounds(&f.generics, &ids);
        self.resolve_params(&f.params);
        self.resolve_opt_type(&f.return_type);
        assert(self@ == fn_opened(old(self)@, *f));
        self.resolve_block(&f.body);
        self.names.exit();
    }

    fn resolve_struct(&mut self, s: &'a StructDecl)
        requires
            old(self)@.wf(),
        ensures
            final(self)@ == after_struct(old(self)@, *s),
            final(self)@.wf(),
            old(self)@.grown_to(final(self)@),
    {
        self.names.enter();
        let ids = self.declare_generics(&s.generics);
        if ids.len() > 0 {
            match self.names.declared_by(s.name.span) {
                Some(id) => self.names.set_struct_generics(id, ids),
                None => {},
            }
        }
        self.resolve_fields(&s.fields);
        self.names.exit();
    }

    fn resolve_payloads(&mut self, vs: &'a Vec<Variant>)
        requires
            old(self)@.wf(),
        ensures
            final(self)@ == after_payloads(old(self)@, vs@, vs@.len()),
            final(self)@.wf(),
            old(self)@.grown_to(final(self)@),
    {
        let ghost st = self@;
        let mut i: usize = 0;
        while i < vs.len()
            invariant
                i <= vs.len(),
                st == old(self)@,
                self@ == after_payloads(st, vs@, i as nat),
                self@.wf(),
                st.grown_to(self@),
            decreases vs.len() - i,
        {
            match &vs[i].fields {
                VariantFields::Unit => {},
                VariantFields::Tuple(ts) => self.resolve_types(ts),
                VariantFields::Named(fs) => self.resolve_fields(fs),
            }
            i += 1;
        }
    }

    fn resolve_enum(&mut self, e: &'a EnumDecl)
        requires
            old(self)@.wf(),
        ensures
            final(self)@ == after_enum_body(old(self)@, *e),
            final(self)@.wf(),
            old(self)@.grown_to(final(self)@),
    {
        self.names.enter();
        let ids = self.declare_generics(&e.generics);
        if ids.len() > 0 {
            match self.names.declared_by(e.name.span) {
                Some(id) => self.names.set_enum_generics(id, ids),
                None => {},
            }
        }
        self.resolve_payloads(&e.variants);
        self.names.exit();
    }

    fn resolve_supers(&mut self, ps: &'a Vec<Path>) -> (r: Vec<SymbolId>)
        requires
            old(self)@.wf(),
        ensures
            (final(self)@, r@) == after_supers(old(self)@, ps@, ps@.len()),
            final(self)@.wf(),
            old(self)@.grown_to(final(self)@),
    {
        let ghost st = self@;
        let mut out: Vec<SymbolId> = Vec::new();
        let mut i: usize = 0;
        while i < ps.len()
            invariant
                i <= ps.len(),
                st == old(self)@,
                (self@, out@) == after_supers(st, ps@, i as nat),
                self@.wf(),
                st.grown_to(self@),
            decreases ps.len() - i,
        {
            match self.lookup_trait(&ps[i]) {
                Some(t) => out.push(t),
                None => {},
            }
            i += 1;
        }
        out
    }

    fn open_trait(&mut self, t: &'a TraitDecl)
        requires
            old(self)@.wf(),
        ensures
            final(self)@ == trait_opened(old(self)@, *t),
            final(self)@.wf(),
            entered(old(self)@).grown_to(final(self)@),
    {
        match self.names.declared_by(t.name.span) {
            Some(id) => {
                let supers = self.resolve_supers(&t.supertraits);
                self.names.set_supertraits(id, supers);
            },
            None => {},
        }
        self.names.enter();
        let ids = self.intern_generics(&t.generics);
        if ids.len() > 0 {
            match self.names.declared_by(t.name.span) {
                Some(id) => self.names.set_trait_generics(id, ids),
                None => {},
            }
        }
    }

    fn open_sig(&mut self, m: &'a TraitMethodSig, trait_span: Span)
        requires
            old(self)@.wf(),
        ensures
            final(self)@ == sig_opened(old(self)@, *m, trait_span),
            final(self)@.wf(),
            entered(old(self)@).grown_to(final(self)@),
    {
        self.names.enter();
        let self_sym = match self.names.declared_by(trait_span) {
            Some(t) => self.names.default_self(t, m.name.name.clone()),
            None => None,
        };
        match self_sym {
            Some(id) => self.names.bind_here("Self".to_owned(), id),
            None => {},
        }
        self.resolve_param_types(&m.params);
        self.resolve_opt_type(&m.return_type);
    }

    fn resolve_sig(&mut self, m: &'a TraitMethodSig, trait_span: Span)
        requires
            old(self)@.wf(),
        ensures
            final(self)@ == after_sig(old(self)@, *m, trait_span),
            final(self)@.wf(),
            old(self)@.grown_to(final(self)@),
        decreases m, 1nat,
    {
        self.open_sig(m, trait_span);
        match &m.body {
            Some(b) => {
                self.declare_param_names(&m.params);
                self.resolve_block(b);
            },
            None => {},
        }
        self.names.exit();
    }

    fn resolve_sigs(&mut self, ms: &'a Vec<TraitMethodSig>, trait_span: Span)
        requires
            old(self)@.wf(),
        ensures
            final(self)@ == after_sigs(old(self)@, ms@, trait_span, ms@.len()),
            final(self)@.wf(),
            old(self)@.grown_to(final(self)@),
        decreases ms, 0nat,
    {
        let ghost st = self@;
        let mut i: usize = 0;
        while i < ms.len()
            invariant
                i <= ms.len(),
                st == old(self)@,
                self@ == after_sigs(st, ms@, trait_span, i as nat),
                self@.wf(),
                st.grown_to(self@),
            decreases ms.len() - i,
        {
            self.resolve_sig(&ms[i], trait_span);
            i += 1;
        }
    }

    fn match_impl_generics(&mut self, gs: &'a Vec<GenericParam>, to: &Vec<SymbolId>)
        requires
            old(self)@.wf(),
        ensures
            final(self)@ == with_impl_generics(old(self)@, gs@, to@, gs@.len()),
            final(self)@.wf(),
            old(self)@.grown_to(final(self)@),
    {
        let ghost st = self@;
        let mut i: usize = 0;
        while i < gs.len()
            invariant
                i <= gs.len(),
                st == old(self)@,
                self@ == with_impl_generics(st, gs@, to@, i as nat),
                self@.wf(),
                st.grown_to(self@),
            decreases gs.len() - i,
        {
            match self.names.declared_by(gs[i].name.span) {
                Some(id) => {
                    if i < to.len() {
                        self.names.set_impl_generic(id, to[i]);
                    }
                },
                None => {},
            }
            i += 1;
        }
    }

    fn open_impl(&mut self, b: &'a ImplBlock)
        requires
            old(self)@.wf(),
        ensures
            final(self)@ == impl_opened(old(self)@, *b),
            final(self)@.wf(),
            old(self)@.grown_to(final(self)@),
    {
        match self.names.path_target(b.type_path.span) {
            Some(s) => match self.names.struct_generics(s) {
                Some(to) => self.match_impl_generics(&b.generics, &to),
                None => {},
            },
            None => {},
        }
    }

    fn resolve_item(&mut self, item: &'a Item)
        requires
            old(self)@.wf(),
        ensures
            final(self)@ == after_item(old(self)@, *item),
            final(self)@.wf(),
            old(self)@.grown_to(final(self)@),
        decreases item, 1nat,
    {
        match item {
            Item::Fn(f) => self.resolve_fn(f),
            Item::Struct(s) => self.resolve_struct(s),
            Item::Enum(e) => self.resolve_enum(e),
            Item::Const(c) => {
                self.resolve_type(&c.ty);
                self.resolve_expr(&c.value);
            },
            Item::Impl(b) => {
                self.open_impl(b);
                self.resolve_fns(&b.methods);
            },
            Item::Trait(t) => {
                self.open_trait(t);
                self.resolve_sigs(&t.methods, t.name.span);
                self.names.exit();
            },
            Item::Mod(m) => {
                let ghost st = self@;
                self.names.enter_module(m.name.name.clone());
                self.resolve_items(&m.items);
                self.names.exit_module();
                assert(self@.current_path =~= st.current_path);
            },
            Item::Use(_) => {},
        }
    }

    fn resolve_items(&mut self, items: &'a Vec<Item>)
        requires
            old(self)@.wf(),
        ensures
            final(self)@ == after_items(old(self)@, items@, items@.len()),
            final(self)@.wf(),
            old(self)@.grown_to(final(self)@),
        decreases items, 0nat,
    {
        let ghost st = self@;
        let mut i: usize = 0;
        while i < items.len()
            invariant
                i <= items.len(),
                st == old(self)@,
                self@ == after_items(st, items@, i as nat),
                self@.wf(),
                st.grown_to(self@),
            decreases items.len() - i,
        {
            self.resolve_item(&items[i]);
            i += 1;
        }
    }

    /// Reports every trait that is among its own supertraits.
    fn validate_supertrait_cycles(&mut self)
        requires
            old(self)@.wf(),
        ensures
            final(self)@ == after_cycles(old(self)@, old(self)@.supertrait_order, old(self)@.supertrait_order.len()),
            final(self)@.wf(),
            old(self)@.grown_to(final(self)@),
    {
        let ghost st = self@;
        let order = self.names.traits_in_order();
        let mut i: usize = 0;
        while i < order.len()
            invariant
                i <= order.len(),
                st == old(self)@,
                self@ == after_cycles(st, order@, i as nat),
                self@.wf(),
                st.grown_to(self@),
                order@ == st.supertrait_order,
                st.wf(),
                self@.trait_supertraits == st.trait_supertraits,
            decreases order.len() - i,
        {
            let t = order[i];
            assert(st.knows(st.supertrait_order[i as int]));
            if self.names.is_cyclic(t) {
                let s = self.names.symbol(t);
                let span = s.span;
                let m = quoted("supertrait cycle through `", s.name.as_str(), "`");
                self.names.error(m, span);
            }
            i += 1;
        }
    }

    fn insert_builtins(&mut self)
        requires
            old(self)@.wf(),
        ensures
            final(self)@ == after_builtins(old(self)@, builtin_names(), builtin_names().len()),
            final(self)@.wf(),
            old(self)@.grown_to(final(self)@),
    {
        let names = builtins();
        let ghost st = self@;
        let ghost ns = builtin_views(names@);
        let n = names.len();
        let mut left = names;
        let mut i: usize = 0;
        while i < n
            invariant
                i <= n,
                n == ns.len(),
                st == old(self)@,
                left.len() == n - i,
                builtin_views(left@) == ns.skip(i as int),
                self@ == after_builtins(st, ns, i as nat),
                self@.wf(),
                st.grown_to(self@),
            decreases n - i,
        {
            let ghost before = left@;
            let (name, kind) = left.remove(0);
            proof {
                assert(builtin_views(before)[0] == (name@, symbol_kind_view(kind)));
                assert(builtin_views(before)[0] == ns[i as int]);
                assert(builtin_views(left@) =~= builtin_views(before).skip(1));
                assert(ns.skip(i as int).skip(1) =~= ns.skip(i + 1));
            }
            let _ = self.intern(name.to_owned(), Span { start: 0, end: 0 }, kind);
            i += 1;
        }
    }

    /// A resolver that knows the built-in names.
    pub fn new() -> (r: Self)
        ensures
            r@ == first_names(),
            r@.wf(),
    {
        let mut r = Resolver { names: NameStore::new() };
        r.insert_builtins();
        r
    }

    /// Resolves every name of a module. The result holds what the passes over
    /// the module leave behind; the errors are in the order they were found.
    pub fn resolve_module(self, m: &'a Module) -> (r: (Resolutions<'a>, Vec<ResolveError>))
        requires
            self@.wf(),
        ensures
            holds(r.0, after_module(self@, *m)),
            error_views(r.1@) == after_module(self@, *m).errors,
            r.0.wf(),
    {
        let mut passes = self;
        passes.declare_items(&m.items);
        passes.declare_impls(&m.items);
        passes.resolve_uses(&m.items);
        passes.resolve_items(&m.items);
        passes.validate_supertrait_cycles();
        passes.names.finish()
    }
}

impl<'a> Default for Resolver<'a> {
    fn default() -> (r: Self)
        ensures
            r@ == first_names(),
            r@.wf(),
    {
        Resolver::new()
    }
}

pub open spec fn builtin_views(ns: Seq<(&'static str, SymbolKind)>) -> Seq<(Seq<char>, SymbolKindV)> {
    Seq::new(ns.len(), |i: int| (ns[i].0@, symbol_kind_view(ns[i].1)))
}

fn one(t: Ty) -> (r: Vec<Ty>)
    ensures
        ty_views(r@) == seq![t@],
{
    let mut out: Vec<Ty> = Vec::new();
    out.push(t);
    assert(ty_views(out@) =~= seq![t@]);
    out
}

fn none() -> (r: Vec<Ty>)
    ensures
        ty_views(r@) == Seq::<TyV>::empty(),
{
    let out: Vec<Ty> = Vec::new();
    assert(ty_views(out@) =~= Seq::<TyV>::empty());
    out
}

fn add_name(out: &mut Vec<(&'static str, SymbolKind)>, name: &'static str, kind: SymbolKind)
    ensures
        builtin_views(final(out)@) == builtin_views(old(out)@).push((name@, symbol_kind_view(kind))),
{
    let ghost before = builtin_views(out@);
    out.push((name, kind));
    assert(builtin_views(out@) =~= before.push((name@, symbol_kind_view(kind))));
}

fn provided(name: &'static str, params: Vec<Ty>, ret: Ty) -> (r: SymbolKind)
    ensures
        symbol_kind_view(r) == builtin_fn(name@, ty_views(params@), ret@),
{
    SymbolKind::BuiltinFn(BuiltinFn { name, params, ret })
}

fn builtins() -> (r: Vec<(&'static str, SymbolKind)>)
    ensures
        builtin_views(r@) == builtin_names(),
{
    let mut out: Vec<(&'static str, SymbolKind)> = Vec::new();
    assert(builtin_views(out@) =~= seq![]);
    assert(ty_view(Ty::Error) == TyV::Error);
    assert(ty_view(Ty::Int(IntTy::I64)) == TyV::Int(IntTy::I64));
    add_name(&mut out, "Weak", SymbolKind::BuiltinType(Ty::Weak(Box::new(Ty::Error))));
    add_name(&mut out, "bool", SymbolKind::BuiltinType(Ty::Bool));
    add_name(&mut out, "char", SymbolKind::BuiltinType(Ty::Char));
    add_name(&mut out, "str", SymbolKind::BuiltinType(Ty::Str));
    add_name(&mut out, "i8", SymbolKind::BuiltinType(Ty::Int(IntTy::I8)));
    add_name(&mut out, "i16", SymbolKind::BuiltinType(Ty::Int(IntTy::I16)));
    add_name(&mut out, "i32", SymbolKind::BuiltinType(Ty::Int(IntTy::I32)));
    add_name(&mut out, "i64", SymbolKind::BuiltinType(Ty::Int(IntTy::I64)));
    add_name(&mut out, "isize", SymbolKind::BuiltinType(Ty::Int(IntTy::ISize)));
    add_name(&mut out, "u8", SymbolKind::BuiltinType(Ty::Int(IntTy::U8)));
    add_name(&mut out, "u16", SymbolKind::BuiltinType(Ty::Int(IntTy::U16)));
    add_name(&mut out, "u32", SymbolKind::BuiltinType(Ty::Int(IntTy::U32)));
    add_name(&mut out, "u64", SymbolKind::BuiltinType(Ty::Int(IntTy::U64)));
    add_name(&mut out, "usize", SymbolKind::BuiltinType(Ty::Int(IntTy::USize)));
    add_name(&mut out, "f32", SymbolKind::BuiltinType(Ty::Float(FloatTy::F32)));
    add_name(&mut out, "f64", SymbolKind::BuiltinType(Ty::Float(FloatTy::F64)));
    add_name(&mut out, "Vec", SymbolKind::BuiltinType(Ty::Vec(Box::new(Ty::Error))));
    add_name(&mut out, "print", SymbolKind::PolyBuiltinFn("print"));
    add_name(&mut out, "weak", SymbolKind::PolyBuiltinFn("weak"));
    add_name(&mut out, "upgrade_or", SymbolKind::PolyBuiltinFn("upgrade_or"));
    add_name(&mut out, "print_str", provided("print_str", one(Ty::Str), Ty::Unit));
    add_name(&mut out, "print_i64", provided("print_i64", one(Ty::Int(IntTy::I64)), Ty::Unit));
    add_name(&mut out, "vec_new", provided("vec_new", none(), Ty::Vec(Box::new(Ty::Int(IntTy::I64)))));
    add_name(&mut out, "std::Vec", SymbolKind::BuiltinType(Ty::Vec(Box::new(Ty::Error))));
    add_name(&mut out, "std::vec_new", provided("vec_new", none(), Ty::Vec(Box::new(Ty::Int(IntTy::I64)))));
    add_name(&mut out, "HashMap", SymbolKind::BuiltinType(Ty::HashMap(Box::new(Ty::Error), Box::new(Ty::Error))));
    add_name(&mut out, "hashmap_new", SymbolKind::PolyBuiltinFn("hashmap_new"));
    add_name(&mut out, "hashmap_str_new", SymbolKind::PolyBuiltinFn("hashmap_str_new"));
    add_name(&mut out, "hashmap_cap", SymbolKind::PolyBuiltinFn("hashmap_cap"));
    add_name(&mut out, "hashmap_is_live_at", SymbolKind::PolyBuiltinFn("hashmap_is_live_at"));
    add_name(&mut out, "hashmap_key_at", SymbolKind::PolyBuiltinFn("hashmap_key_at"));
    add_name(&mut out, "std::HashMap", SymbolKind::BuiltinType(Ty::HashMap(Box::new(Ty::Error), Box::new(Ty::Error))));
    add_name(&mut out, "std::hashmap_new", SymbolKind::PolyBuiltinFn("hashmap_new"));
    add_name(&mut out, "std::hashmap_str_new", SymbolKind::PolyBuiltinFn("hashmap_str_new"));
    out
}

fn public(v: Visibility) -> (r: bool)
    ensures
        r == is_pub(v),
{
    match v {
        Visibility::Pub => true,
        Visibility::Private => false,
    }
}

fn refer_types<'a>(ts: &'a Vec<Type>) -> (r: Vec<&'a Type>)
    ensures
        types_of(r@) == ts@,
{
    let mut out: Vec<&'a Type> = Vec::new();
    let mut i: usize = 0;
    while i < ts.len()
        invariant
            i <= ts.len(),
            types_of(out@) == ts@.take(i as int),
        decreases ts.len() - i,
    {
        let ghost before = types_of(out@);
        out.push(&ts[i]);
        assert(types_of(out@) =~= before.push(ts@[i as int]));
        assert(ts@.take(i + 1) =~= ts@.take(i as int).push(ts@[i as int]));
        i += 1;
    }
    assert(ts@.take(i as int) =~= ts@);
    out
}

fn refer_fields<'a>(fs: &'a Vec<Field>) -> (r: Vec<&'a Type>)
    ensures
        types_of(r@) == field_types(fs@),
{
    let mut out: Vec<&'a Type> = Vec::new();
    let mut i: usize = 0;
    while i < fs.len()
        invariant
            i <= fs.len(),
            types_of(out@) == field_types(fs@).take(i as int),
        decreases fs.len() - i,
    {
        let ghost before = types_of(out@);
        out.push(&fs[i].ty);
        assert(types_of(out@) =~= before.push(fs@[i as int].ty));
        assert(field_types(fs@).take(i + 1) =~= field_types(fs@).take(i as int).push(fs@[i as int].ty));
        i += 1;
    }
    assert(field_types(fs@).take(i as int) =~= field_types(fs@));
    out
}

fn names_of_fields(fs: &Vec<Field>) -> (r: Vec<String>)
    ensures
        texts(r@) == field_names(fs@),
{
    let mut out: Vec<String> = Vec::new();
    let mut i: usize = 0;
    while i < fs.len()
        invariant
            i <= fs.len(),
            out.len() == i,
            forall|j: int| 0 <= j < i ==> out[j]@ == fs[j].name.name@,
        decreases fs.len() - i,
    {
        out.push(fs[i].name.name.clone());
        i += 1;
    }
    assert(texts(out@) =~= field_names(fs@));
    out
}

fn names_of_assoc(ts: &Vec<AssocTypeDecl>) -> (r: Vec<String>)
    ensures
        texts(r@) == assoc_names(ts@),
{
    let mut out: Vec<String> = Vec::new();
    let mut i: usize = 0;
    while i < ts.len()
        invariant
            i <= ts.len(),
            out.len() == i,
            forall|j: int| 0 <= j < i ==> out[j]@ == ts[j].name.name@,
        decreases ts.len() - i,
    {
        out.push(ts[i].name.name.clone());
        i += 1;
    }
    assert(texts(out@) =~= assoc_names(ts@));
    out
}

fn spans_of(ts: &Vec<Type>) -> (r: Vec<Span>)
    ensures
        r@ == type_spans(ts@),
{
    let mut out: Vec<Span> = Vec::new();
    let mut i: usize = 0;
    while i < ts.len()
        invariant
            i <= ts.len(),
            out.len() == i,
            forall|j: int| 0 <= j < i ==> out[j] == type_span(ts[j]),
        decreases ts.len() - i,
    {
        out.push(ts[i].span());
        i += 1;
    }
    assert(out@ =~= type_spans(ts@));
    out
}

} // verus!
