//! What holds of scopes, visibility and captures throughout name resolution.

use vstd::prelude::*;

use crate::ast::{
    Block, ClosureParam, Expr, Field, FieldInit, FnDecl, GenericParam, Ident, Item, MatchArm,
    Param, Path, Pattern, Stmt, TraitMethodSig, Type, Variant, VariantFields,
};
use crate::names::{
    Names, SymbolKindV, after_capture, bound_here, declared_here, entered, generics_declared,
    generics_interned, in_nested, in_scopes, interned, item_interned, name_lookup, starts_with,
    visible, with_supertraits,
};
use crate::resolver::{
    after_all_bounds, after_arms, after_block, after_bounds, after_closure, after_closure_params,
    after_declaration, after_declarations, after_defaults, after_expr, after_exprs,
    after_field_patterns, after_fields, after_fn, after_fns, after_inits, after_item,
    after_items, after_opt, after_opt_type, after_param_names, after_param_types, after_params,
    after_path, after_pattern, after_patterns, after_payloads, after_sig, after_sigs, after_stmt,
    after_stmts, after_supers, after_type, after_types, after_variants, assoc_names,
    closure_closed, closure_opened, fn_opened, impl_opened, is_pub, item_declared, self_param,
    sig_opened, trait_opened, with_impl_generics,
};
use crate::table::lookup;
use crate::token::Span;
use crate::ty::SymbolId;

verus! {

// ---- what a step leaves as it was ----

/// What a span declares is a symbol with that span.
pub open spec fn decls_have_their_spans(st: Names) -> bool {
    forall|sp: Span|
        #![trigger st.decl_to_sym[sp]]
        st.decl_to_sym.contains_key(sp) ==> st.knows(st.decl_to_sym[sp]) && st.symbols[st.decl_to_sym[sp].0 as int].span
            == sp
}

/// No declaration and no error is lost; and as long as symbols can be told
/// apart by their numbers, spans go on declaring symbols with that span.
pub open spec fn notes_more(a: Names, b: Names) -> bool {
    &&& a.errors.len() <= b.errors.len()
    &&& forall|sp: Span| a.decl_to_sym.contains_key(sp) ==> #[trigger] b.decl_to_sym.contains_key(sp)
    &&& b.symbols.len() <= 0x1_0000_0000 && decls_have_their_spans(a) ==> decls_have_their_spans(b)
}

/// The same symbols, declarations, scopes and place in the program.
pub open spec fn same_places(a: Names, b: Names) -> bool {
    &&& b.symbols == a.symbols
    &&& b.decl_to_sym == a.decl_to_sym
    &&& a.errors.len() <= b.errors.len()
    &&& b.scopes == a.scopes
    &&& b.current_path == a.current_path
    &&& b.open_closure_spans == a.open_closure_spans
}

/// The same place, every symbol kept as it was, and the same names in every
/// scope but the innermost and the global one.
pub open spec fn outer_scopes_kept(a: Names, b: Names) -> bool {
    &&& notes_more(a, b)
    &&& a.symbols.len() <= b.symbols.len()
    &&& forall|i: int| 0 <= i < a.symbols.len() ==> (#[trigger] b.symbols[i]) == a.symbols[i]
    &&& b.scopes.len() == a.scopes.len()
    &&& forall|i: int| 1 <= i < a.scopes.len() - 1 ==> (#[trigger] b.scopes[i]) == a.scopes[i]
    &&& b.current_path == a.current_path
    &&& b.open_closure_spans == a.open_closure_spans
}

/// The same names in every scope but the global one.
pub open spec fn local_scopes_kept(a: Names, b: Names) -> bool {
    &&& outer_scopes_kept(a, b)
    &&& forall|i: int| 1 <= i < a.scopes.len() ==> (#[trigger] b.scopes[i]) == a.scopes[i]
}

pub(crate) proof fn path_keeps(st: Names, p: Path)
    ensures
        same_places(st, after_path(st, p)),
    decreases p, 0nat,
{
    types_keep(st, p.generic_args@, p.generic_args@.len());
}

pub(crate) proof fn types_keep(st: Names, ts: Seq<Type>, k: nat)
    ensures
        same_places(st, after_types(st, ts, k)),
    decreases ts, k,
{
    if k > 0 && k <= ts.len() {
        types_keep(st, ts, (k - 1) as nat);
        type_keeps(after_types(st, ts, (k - 1) as nat), ts[k - 1]);
    }
}

pub(crate) proof fn type_keeps(st: Names, t: Type)
    ensures
        same_places(st, after_type(st, t)),
    decreases t, 1nat,
{
    match t {
        Type::Path(p) => path_keeps(st, p),
        Type::Dyn(p) => path_keeps(st, p),
        Type::Array { elem, .. } => type_keeps(st, *elem),
        Type::Fn { params, ret, .. } => {
            types_keep(st, params@, params@.len());
            match ret {
                Some(r) => type_keeps(after_types(st, params@, params@.len()), *r),
                None => {},
            }
        },
        Type::Tuple { elems, .. } => types_keep(st, elems@, elems@.len()),
    }
}

pub(crate) proof fn pattern_keeps(st: Names, p: Pattern, m: bool)
    requires
        st.scopes.len() > 0,
    ensures
        outer_scopes_kept(st, after_pattern(st, p, m)),
    decreases p, 1nat,
{
    match p {
        Pattern::Path { path, .. } => path_keeps(st, path),
        Pattern::TupleVariant { path, fields, .. } => {
            path_keeps(st, path);
            patterns_keep(after_path(st, path), fields@, m, fields@.len());
        },
        Pattern::NamedVariant { path, fields, .. } => {
            path_keeps(st, path);
            field_patterns_keep(after_path(st, path), fields@, m, fields@.len());
        },
        Pattern::Or { patterns, .. } => patterns_keep(st, patterns@, m, patterns@.len()),
        Pattern::Tuple { patterns, .. } => patterns_keep(st, patterns@, m, patterns@.len()),
        _ => {},
    }
}

pub(crate) proof fn patterns_keep(st: Names, ps: Seq<Pattern>, m: bool, k: nat)
    requires
        st.scopes.len() > 0,
    ensures
        outer_scopes_kept(st, after_patterns(st, ps, m, k)),
    decreases ps, k,
{
    if k > 0 && k <= ps.len() {
        patterns_keep(st, ps, m, (k - 1) as nat);
        pattern_keeps(after_patterns(st, ps, m, (k - 1) as nat), ps[k - 1], m);
    }
}

pub(crate) proof fn field_patterns_keep(st: Names, fs: Seq<(Ident, Pattern)>, m: bool, k: nat)
    requires
        st.scopes.len() > 0,
    ensures
        outer_scopes_kept(st, after_field_patterns(st, fs, m, k)),
    decreases fs, k,
{
    if k > 0 && k <= fs.len() {
        field_patterns_keep(st, fs, m, (k - 1) as nat);
        assert(decreases_to!(fs => fs[k - 1]));
        pattern_keeps(after_field_patterns(st, fs, m, (k - 1) as nat), fs[k - 1].1, m);
    }
}

// ---- expressions and statements ----

#[verifier::spinoff_prover]
pub(crate) proof fn expr_keeps(st: Names, e: Expr)
    requires
        st.scopes.len() > 0,
    ensures
        local_scopes_kept(st, after_expr(st, e)),
    decreases e, 1nat,
{
    match e {
        Expr::Lit { .. } => {},
        Expr::Path(p) => path_keeps(st, p),
        Expr::Unary { expr, .. } => expr_keeps(st, *expr),
        Expr::Binary { lhs, rhs, .. } => two_keep(st, *lhs, *rhs, e),
        Expr::Assign { lhs, rhs, .. } => two_keep(st, *lhs, *rhs, e),
        Expr::AssignOp { lhs, rhs, .. } => two_keep(st, *lhs, *rhs, e),
        Expr::Call { callee, args, .. } => {
            expr_keeps(st, *callee);
            exprs_keep(after_expr(st, *callee), args@, args@.len());
        },
        Expr::MethodCall { receiver, args, .. } => {
            expr_keeps(st, *receiver);
            exprs_keep(after_expr(st, *receiver), args@, args@.len());
        },
        Expr::Field { receiver, .. } => expr_keeps(st, *receiver),
        Expr::TupleIndex { receiver, .. } => expr_keeps(st, *receiver),
        Expr::Index { receiver, index, .. } => two_keep(st, *receiver, *index, e),
        Expr::Try { expr, .. } => expr_keeps(st, *expr),
        Expr::Cast { expr, ty, .. } => {
            expr_keeps(st, *expr);
            type_keeps(after_expr(st, *expr), ty);
        },
        Expr::Array { elems, .. } => exprs_keep(st, elems@, elems@.len()),
        Expr::Tuple { elems, .. } => exprs_keep(st, elems@, elems@.len()),
        Expr::Block(b) => block_keeps(st, b),
        Expr::If { cond, then_branch, else_branch, .. } => {
            expr_keeps(st, *cond);
            let st1 = after_expr(st, *cond);
            block_keeps(st1, then_branch);
            match else_branch {
                Some(eb) => expr_keeps(after_block(st1, then_branch), *eb),
                None => {},
            }
        },
        Expr::While { cond, body, .. } => {
            expr_keeps(st, *cond);
            block_keeps(after_expr(st, *cond), body);
        },
        Expr::For { pat, iter, body, .. } => {
            expr_keeps(st, *iter);
            let st1 = entered(after_expr(st, *iter));
            pattern_keeps(st1, pat, false);
            stmts_keep(after_pattern(st1, pat, false), body.stmts@, body.stmts@.len());
        },
        Expr::Match { scrutinee, arms, .. } => {
            expr_keeps(st, *scrutinee);
            arms_keep(after_expr(st, *scrutinee), arms@, arms@.len());
        },
        Expr::Range { start, end, .. } => {
            opt_keeps(st, start);
            opt_keeps(after_opt(st, start), end);
        },
        Expr::StructLit { path, fields, .. } => {
            path_keeps(st, path);
            inits_keep(after_path(st, path), fields@, fields@.len());
        },
        Expr::Return { value, .. } => opt_keeps(st, value),
        Expr::Break(_) => {},
        Expr::Continue(_) => {},
        Expr::Closure { .. } => closure_keeps(st, e),
    }
}

pub(crate) proof fn two_keep(st: Names, a: Expr, b: Expr, whole: Expr)
    requires
        st.scopes.len() > 0,
        decreases_to!(whole => a),
        decreases_to!(whole => b),
    ensures
        local_scopes_kept(st, after_expr(after_expr(st, a), b)),
    decreases whole, 0nat,
{
    expr_keeps(st, a);
    expr_keeps(after_expr(st, a), b);
}

pub(crate) proof fn opt_keeps(st: Names, e: Option<Box<Expr>>)
    requires
        st.scopes.len() > 0,
    ensures
        local_scopes_kept(st, after_opt(st, e)),
    decreases e, 2nat,
{
    match e {
        Some(e) => expr_keeps(st, *e),
        None => {},
    }
}

pub(crate) proof fn exprs_keep(st: Names, es: Seq<Expr>, k: nat)
    requires
        st.scopes.len() > 0,
    ensures
        local_scopes_kept(st, after_exprs(st, es, k)),
    decreases es, k,
{
    if k > 0 && k <= es.len() {
        exprs_keep(st, es, (k - 1) as nat);
        expr_keeps(after_exprs(st, es, (k - 1) as nat), es[k - 1]);
    }
}

pub(crate) proof fn inits_keep(st: Names, fs: Seq<FieldInit>, k: nat)
    requires
        st.scopes.len() > 0,
    ensures
        local_scopes_kept(st, after_inits(st, fs, k)),
    decreases fs, k,
{
    if k > 0 && k <= fs.len() {
        inits_keep(st, fs, (k - 1) as nat);
        assert(decreases_to!(fs => fs[k - 1]));
        expr_keeps(after_inits(st, fs, (k - 1) as nat), fs[k - 1].value);
    }
}

pub(crate) proof fn arms_keep(st: Names, arms: Seq<MatchArm>, k: nat)
    requires
        st.scopes.len() > 0,
    ensures
        local_scopes_kept(st, after_arms(st, arms, k)),
    decreases arms, k,
{
    if k > 0 && k <= arms.len() {
        arms_keep(st, arms, (k - 1) as nat);
        assert(decreases_to!(arms => arms[k - 1]));
        let st1 = entered(after_arms(st, arms, (k - 1) as nat));
        let st2 = after_pattern(st1, arms[k - 1].pat, false);
        pattern_keeps(st1, arms[k - 1].pat, false);
        let st3 = match arms[k - 1].guard {
            Some(g) => after_expr(st2, g),
            None => st2,
        };
        match arms[k - 1].guard {
            Some(g) => expr_keeps(st2, g),
            None => {},
        }
        expr_keeps(st3, arms[k - 1].body);
    }
}

pub(crate) proof fn block_keeps(st: Names, b: Block)
    requires
        st.scopes.len() > 0,
    ensures
        local_scopes_kept(st, after_block(st, b)),
    decreases b, 1nat,
{
    stmts_keep(entered(st), b.stmts@, b.stmts@.len());
}

pub(crate) proof fn stmts_keep(st: Names, ss: Seq<Stmt>, k: nat)
    requires
        st.scopes.len() > 0,
    ensures
        outer_scopes_kept(st, after_stmts(st, ss, k)),
    decreases ss, k,
{
    if k > 0 && k <= ss.len() {
        stmts_keep(st, ss, (k - 1) as nat);
        stmt_keeps(after_stmts(st, ss, (k - 1) as nat), ss[k - 1]);
    }
}

pub(crate) proof fn stmt_keeps(st: Names, s: Stmt)
    requires
        st.scopes.len() > 0,
    ensures
        outer_scopes_kept(st, after_stmt(st, s)),
    decreases s, 1nat,
{
    match s {
        Stmt::Let(l) => {
            let st1 = match l.ty {
                Some(t) => after_type(st, t),
                None => st,
            };
            match l.ty {
                Some(t) => type_keeps(st, t),
                None => {},
            }
            let st2 = match l.init {
                Some(e) => after_expr(st1, e),
                None => st1,
            };
            match l.init {
                Some(e) => expr_keeps(st1, e),
                None => {},
            }
            pattern_keeps(st2, l.pat, l.mutable);
        },
        Stmt::Expr(e, _) => expr_keeps(st, e),
        Stmt::Item(item) => {
            declaration_keeps(st, item);
            item_keeps(after_declaration(st, item), item);
        },
    }
}

pub(crate) proof fn closure_params_keep(st: Names, ps: Seq<ClosureParam>, k: nat)
    requires
        st.scopes.len() > 0,
    ensures
        outer_scopes_kept(st, after_closure_params(st, ps, k).0),
    decreases k,
{
    if k > 0 && k <= ps.len() {
        closure_params_keep(st, ps, (k - 1) as nat);
        let st1 = after_closure_params(st, ps, (k - 1) as nat).0;
        let st2 = declared_here(st1, ps[k - 1].name.name@, ps[k - 1].name.span, SymbolKindV::Param);
        match ps[k - 1].ty {
            Some(t) => type_keeps(st2, t),
            None => {},
        }
    }
}

#[verifier::spinoff_prover]
pub(crate) proof fn closure_keeps(st: Names, e: Expr)
    requires
        st.scopes.len() > 0,
    ensures
        local_scopes_kept(st, after_closure(st, e)),
    decreases e, 0nat,
{
    match e {
        Expr::Closure { params, body, span } => {
            let open = closure_opened(st, span);
            closure_params_keep(open, params@, params@.len());
            let (st1, ids) = after_closure_params(open, params@, params@.len());
            let st2 = Names { closure_params: st1.closure_params.insert(span, ids), ..st1 };
            expr_keeps(st2, *body);
            let st3 = after_expr(st2, *body);
            assert(st3.open_closure_spans.drop_last() =~= st.open_closure_spans);
            assert(forall|i: int| 1 <= i < st.scopes.len() ==> open.scopes[i] == st.scopes[i]);
            assert(forall|i: int| 1 <= i < st.scopes.len() ==> st3.scopes[i] == open.scopes[i]);
            closing_keeps(st3, span, st.lambda_counter);
        },
        _ => {},
    }
}

pub(crate) proof fn closing_keeps(st: Names, span: Span, counter: u32)
    requires
        st.scopes.len() > 1,
    ensures
        ({
            let end = closure_closed(st, span, counter);
            &&& end.scopes.len() == st.scopes.len() - 1
            &&& forall|i: int| 1 <= i < st.scopes.len() - 1 ==> (#[trigger] end.scopes[i]) == st.scopes[i]
            &&& end.current_path == st.current_path
            &&& end.open_closure_spans == st.open_closure_spans.drop_last()
            &&& st.symbols.len() <= end.symbols.len()
            &&& forall|i: int| 0 <= i < st.symbols.len() ==> (#[trigger] end.symbols[i]) == st.symbols[i]
            &&& notes_more(st, end)
        }),
{
}

// ---- items inside bodies ----

pub(crate) proof fn variants_keep(st: Names, vs: Seq<Variant>, e: SymbolId, public: bool, k: nat)
    requires
        st.scopes.len() > 0,
    ensures
        local_scopes_kept(st, after_variants(st, vs, e, public, k).0),
    decreases k,
{
    if k > 0 && k <= vs.len() {
        variants_keep(st, vs, e, public, (k - 1) as nat);
    }
}

pub(crate) proof fn defaults_keep(
    st: Names,
    ms: Seq<TraitMethodSig>,
    t: SymbolId,
    name: Seq<char>,
    public: bool,
    k: nat,
)
    requires
        st.scopes.len() > 0,
    ensures
        local_scopes_kept(st, after_defaults(st, ms, t, name, public, k)),
    decreases k,
{
    if k > 0 && k <= ms.len() {
        defaults_keep(st, ms, t, name, public, (k - 1) as nat);
    }
}

pub(crate) proof fn declaration_keeps(st: Names, item: Item)
    requires
        st.scopes.len() > 0,
    ensures
        local_scopes_kept(st, after_declaration(st, item)),
    decreases item, 1nat,
{
    match item {
        Item::Mod(m) => {
            let st1 = item_declared(st, m.name, SymbolKindV::Module, m.name.name@, is_pub(m.vis));
            let st2 = in_nested(st1, m.name.name@);
            declarations_keep(st2, m.items@, m.items@.len());
            assert(st2.current_path.drop_last() =~= st.current_path);
        },
        Item::Enum(e) => {
            let st1 = item_declared(st, e.name, SymbolKindV::Enum, e.name.name@, is_pub(e.vis));
            variants_keep(st1, e.variants@, st.next_id(), is_pub(e.vis), e.variants@.len());
        },
        Item::Trait(t) => {
            let id = st.next_id();
            let st1 = item_declared(st, t.name, SymbolKindV::Trait, t.name.name@, is_pub(t.vis));
            let st2 = Names {
                trait_methods: st1.trait_methods.insert(id, t.methods@),
                trait_assoc_types: st1.trait_assoc_types.insert(id, assoc_names(t.assoc_types@)),
                ..st1
            };
            defaults_keep(st2, t.methods@, id, t.name.name@, is_pub(t.vis), t.methods@.len());
        },
        _ => {},
    }
}

pub(crate) proof fn declarations_keep(st: Names, items: Seq<Item>, k: nat)
    requires
        st.scopes.len() > 0,
    ensures
        local_scopes_kept(st, after_declarations(st, items, k)),
    decreases items, k,
{
    if k > 0 && k <= items.len() {
        declarations_keep(st, items, (k - 1) as nat);
        declaration_keeps(after_declarations(st, items, (k - 1) as nat), items[k - 1]);
    }
}

pub(crate) proof fn generics_keep(st: Names, gs: Seq<GenericParam>, k: nat)
    requires
        st.scopes.len() > 0,
    ensures
        outer_scopes_kept(st, generics_interned(st, gs, k).0),
        outer_scopes_kept(st, generics_declared(st, gs, k).0),
    decreases k,
{
    if k > 0 && k <= gs.len() {
        generics_keep(st, gs, (k - 1) as nat);
    }
}

pub(crate) proof fn bounds_keep(st: Names, id: SymbolId, bs: Seq<Path>, k: nat)
    ensures
        same_places(st, after_bounds(st, id, bs, k).0),
    decreases k,
{
    if k > 0 && k <= bs.len() {
        bounds_keep(st, id, bs, (k - 1) as nat);
        let st1 = after_bounds(st, id, bs, (k - 1) as nat).0;
        types_keep(st1, bs[k - 1].generic_args@, bs[k - 1].generic_args@.len());
    }
}

pub(crate) proof fn all_bounds_keep(st: Names, gs: Seq<GenericParam>, ids: Seq<SymbolId>, k: nat)
    ensures
        same_places(st, after_all_bounds(st, gs, ids, k)),
    decreases k,
{
    if k > 0 && k <= gs.len() {
        all_bounds_keep(st, gs, ids, (k - 1) as nat);
        let st1 = after_all_bounds(st, gs, ids, (k - 1) as nat);
        bounds_keep(st1, ids[k - 1], gs[k - 1].bounds@, gs[k - 1].bounds@.len());
    }
}

pub(crate) proof fn params_keep(st: Names, ps: Seq<Param>, k: nat)
    requires
        st.scopes.len() > 0,
    ensures
        outer_scopes_kept(st, after_params(st, ps, k)),
        outer_scopes_kept(st, after_param_names(st, ps, k)),
        same_places(st, after_param_types(st, ps, k)),
    decreases k,
{
    if k > 0 && k <= ps.len() {
        params_keep(st, ps, (k - 1) as nat);
        type_keeps(after_params(st, ps, (k - 1) as nat), ps[k - 1].ty);
        type_keeps(after_param_types(st, ps, (k - 1) as nat), ps[k - 1].ty);
    }
}

pub(crate) proof fn opt_type_keeps(st: Names, t: Option<Type>)
    ensures
        same_places(st, after_opt_type(st, t)),
{
    match t {
        Some(t) => type_keeps(st, t),
        None => {},
    }
}

pub(crate) proof fn fn_keeps(st: Names, f: FnDecl)
    requires
        st.scopes.len() > 0,
    ensures
        local_scopes_kept(st, after_fn(st, f)),
    decreases f, 1nat,
{
    let (st1, ids) = generics_interned(entered(st), f.generics@, f.generics@.len());
    generics_keep(entered(st), f.generics@, f.generics@.len());
    all_bounds_keep(st1, f.generics@, ids, f.generics@.len());
    let st2 = after_all_bounds(st1, f.generics@, ids, f.generics@.len());
    params_keep(st2, f.params@, f.params@.len());
    opt_type_keeps(after_params(st2, f.params@, f.params@.len()), f.return_type);
    block_keeps(fn_opened(st, f), f.body);
}

pub(crate) proof fn fns_keep(st: Names, fs: Seq<FnDecl>, k: nat)
    requires
        st.scopes.len() > 0,
    ensures
        local_scopes_kept(st, after_fns(st, fs, k)),
    decreases fs, k,
{
    if k > 0 && k <= fs.len() {
        fns_keep(st, fs, (k - 1) as nat);
        fn_keeps(after_fns(st, fs, (k - 1) as nat), fs[k - 1]);
    }
}

pub(crate) proof fn fields_keep(st: Names, fs: Seq<Field>, k: nat)
    ensures
        same_places(st, after_fields(st, fs, k)),
    decreases k,
{
    if k > 0 && k <= fs.len() {
        fields_keep(st, fs, (k - 1) as nat);
        type_keeps(after_fields(st, fs, (k - 1) as nat), fs[k - 1].ty);
    }
}

pub(crate) proof fn payloads_keep(st: Names, vs: Seq<Variant>, k: nat)
    ensures
        same_places(st, after_payloads(st, vs, k)),
    decreases k,
{
    if k > 0 && k <= vs.len() {
        payloads_keep(st, vs, (k - 1) as nat);
        let st1 = after_payloads(st, vs, (k - 1) as nat);
        match vs[k - 1].fields {
            VariantFields::Unit => {},
            VariantFields::Tuple(ts) => types_keep(st1, ts@, ts@.len()),
            VariantFields::Named(fs) => fields_keep(st1, fs@, fs@.len()),
        }
    }
}

pub(crate) proof fn supers_keep(st: Names, ps: Seq<Path>, k: nat)
    ensures
        same_places(st, after_supers(st, ps, k).0),
    decreases k,
{
    if k > 0 && k <= ps.len() {
        supers_keep(st, ps, (k - 1) as nat);
    }
}

pub(crate) proof fn sig_keeps(st: Names, m: TraitMethodSig, trait_span: Span)
    requires
        st.scopes.len() > 0,
    ensures
        local_scopes_kept(st, after_sig(st, m, trait_span)),
    decreases m, 1nat,
{
    let st1 = entered(st);
    let st2 = match self_param(st1, trait_span, m.name.name@) {
        Some(id) => bound_here(st1, "Self"@, id),
        None => st1,
    };
    params_keep(st2, m.params@, m.params@.len());
    opt_type_keeps(after_param_types(st2, m.params@, m.params@.len()), m.return_type);
    let st3 = sig_opened(st, m, trait_span);
    params_keep(st3, m.params@, m.params@.len());
    match m.body {
        Some(b) => block_keeps(after_param_names(st3, m.params@, m.params@.len()), b),
        None => {},
    }
}

pub(crate) proof fn sigs_keep(st: Names, ms: Seq<TraitMethodSig>, trait_span: Span, k: nat)
    requires
        st.scopes.len() > 0,
    ensures
        local_scopes_kept(st, after_sigs(st, ms, trait_span, k)),
    decreases ms, k,
{
    if k > 0 && k <= ms.len() {
        sigs_keep(st, ms, trait_span, (k - 1) as nat);
        sig_keeps(after_sigs(st, ms, trait_span, (k - 1) as nat), ms[k - 1], trait_span);
    }
}

pub(crate) proof fn impl_generics_keep(st: Names, gs: Seq<GenericParam>, to: Seq<SymbolId>, k: nat)
    ensures
        same_places(st, with_impl_generics(st, gs, to, k)),
    decreases k,
{
    if k > 0 && k <= gs.len() {
        impl_generics_keep(st, gs, to, (k - 1) as nat);
    }
}

#[verifier::spinoff_prover]
pub(crate) proof fn item_keeps(st: Names, item: Item)
    requires
        st.scopes.len() > 0,
    ensures
        local_scopes_kept(st, after_item(st, item)),
    decreases item, 1nat,
{
    match item {
        Item::Fn(f) => fn_keeps(st, f),
        Item::Struct(s) => {
            generics_keep(entered(st), s.generics@, s.generics@.len());
            let (st1, ids) = generics_declared(entered(st), s.generics@, s.generics@.len());
            let st2 = if ids.len() > 0 && st1.decl_to_sym.contains_key(s.name.span) {
                Names { struct_generics: st1.struct_generics.insert(st1.decl_to_sym[s.name.span], ids), ..st1 }
            } else {
                st1
            };
            fields_keep(st2, s.fields@, s.fields@.len());
        },
        Item::Enum(e) => {
            generics_keep(entered(st), e.generics@, e.generics@.len());
            let (st1, ids) = generics_declared(entered(st), e.generics@, e.generics@.len());
            let st2 = if ids.len() > 0 && st1.decl_to_sym.contains_key(e.name.span) {
                Names { enum_generics: st1.enum_generics.insert(st1.decl_to_sym[e.name.span], ids), ..st1 }
            } else {
                st1
            };
            payloads_keep(st2, e.variants@, e.variants@.len());
        },
        Item::Const(c) => {
            type_keeps(st, c.ty);
            expr_keeps(after_type(st, c.ty), c.value);
        },
        Item::Impl(i) => {
            match lookup(st.path_to_sym, i.type_path.span) {
                Some(s) => match lookup(st.struct_generics, s) {
                    Some(to) => impl_generics_keep(st, i.generics@, to, i.generics@.len()),
                    None => {},
                },
                None => {},
            }
            fns_keep(impl_opened(st, i), i.methods@, i.methods@.len());
        },
        Item::Trait(t) => {
            supers_keep(st, t.supertraits@, t.supertraits@.len());
            let st1 = if st.decl_to_sym.contains_key(t.name.span) {
                let (s, supers) = after_supers(st, t.supertraits@, t.supertraits@.len());
                with_supertraits(s, st.decl_to_sym[t.name.span], supers)
            } else {
                st
            };
            generics_keep(entered(st1), t.generics@, t.generics@.len());
            sigs_keep(trait_opened(st, t), t.methods@, t.name.span, t.methods@.len());
        },
        Item::Mod(m) => {
            let st1 = in_nested(st, m.name.name@);
            items_keep(st1, m.items@, m.items@.len());
            assert(st1.current_path.drop_last() =~= st.current_path);
        },
        Item::Use(_) => {},
    }
}

pub(crate) proof fn items_keep(st: Names, items: Seq<Item>, k: nat)
    requires
        st.scopes.len() > 0,
    ensures
        local_scopes_kept(st, after_items(st, items, k)),
    decreases items, k,
{
    if k > 0 && k <= items.len() {
        items_keep(st, items, (k - 1) as nat);
        item_keeps(after_items(st, items, (k - 1) as nat), items[k - 1]);
    }
}

// ---- laws ----

/// What a block declares is gone after it: every local name refers to what it
/// referred to before, and no symbol is lost or changed.
pub proof fn blocks_leave_no_names(st: Names, b: Block, name: Seq<char>)
    requires
        st.scopes.len() > 0,
    ensures
        in_scopes(after_block(st, b).scopes, name, after_block(st, b).scopes.len()) == in_scopes(
            st.scopes,
            name,
            st.scopes.len(),
        ),
        st.symbols.is_prefix_of(after_block(st, b).symbols),
        after_block(st, b).current_path == st.current_path,
{
    block_keeps(st, b);
    same_local_lookup(st.scopes, after_block(st, b).scopes, name, st.scopes.len());
    assert(after_block(st, b).symbols.subrange(0, st.symbols.len() as int) =~= st.symbols);
}

/// An expression binds no name outside itself: every local name refers to
/// what it referred to before.
pub proof fn expressions_leave_no_names(st: Names, e: Expr, name: Seq<char>)
    requires
        st.scopes.len() > 0,
    ensures
        in_scopes(after_expr(st, e).scopes, name, after_expr(st, e).scopes.len()) == in_scopes(
            st.scopes,
            name,
            st.scopes.len(),
        ),
        st.symbols.is_prefix_of(after_expr(st, e).symbols),
        after_expr(st, e).current_path == st.current_path,
{
    expr_keeps(st, e);
    same_local_lookup(st.scopes, after_expr(st, e).scopes, name, st.scopes.len());
    assert(after_expr(st, e).symbols.subrange(0, st.symbols.len() as int) =~= st.symbols);
}

proof fn same_local_lookup(
    a: Seq<Map<Seq<char>, SymbolId>>,
    b: Seq<Map<Seq<char>, SymbolId>>,
    name: Seq<char>,
    k: nat,
)
    requires
        a.len() == b.len(),
        k <= a.len(),
        forall|i: int| 1 <= i < k ==> (#[trigger] b[i]) == a[i],
    ensures
        in_scopes(a, name, k) == in_scopes(b, name, k),
    decreases k,
{
    if k > 1 {
        same_local_lookup(a, b, name, (k - 1) as nat);
    }
}

/// A name bound in a local scope refers to its newest binding, which hides
/// every earlier one; no other name is touched.
pub proof fn newest_binding_wins(st: Names, name: Seq<char>, other: Seq<char>, span: Span, kind: SymbolKindV)
    requires
        st.scopes.len() > 1,
    ensures
        name_lookup(interned(st, name, span, kind), name) == Some(st.next_id()),
        other != name ==> name_lookup(interned(st, name, span, kind), other) == name_lookup(st, other),
{
    let after = interned(st, name, span, kind);
    let last = st.scopes.len() - 1;
    assert(after.scopes[last] == st.scopes[last].insert(name, st.next_id()));
    if other != name {
        assert(after.scopes[0] == st.scopes[0]);
        same_local_lookup(st.scopes, after.scopes, other, last as nat);
    }
}

/// An item is found by its bare name from the module that declares it, unless
/// a local hides it.
pub proof fn items_are_found_in_their_module(
    st: Names,
    name: Seq<char>,
    span: Span,
    kind: SymbolKindV,
    code_name: Seq<char>,
)
    requires
        st.scopes.len() > 0,
        in_scopes(st.scopes, name, st.scopes.len()) is None,
    ensures
        name_lookup(item_interned(st, name, span, kind, code_name), name) == Some(st.next_id()),
{
    let after = item_interned(st, name, span, kind, code_name);
    assert forall|i: int| 1 <= i < st.scopes.len() implies (#[trigger] after.scopes[i]) == st.scopes[i] by {}
    same_local_lookup(st.scopes, after.scopes, name, st.scopes.len());
    assert(st.current_path.take(st.current_path.len() as int) =~= st.current_path);
}

/// What a module sees, the modules inside it see too.
pub proof fn nested_modules_see_as_much(st: Names, sym: SymbolId, name: Seq<char>)
    requires
        visible(st, sym),
    ensures
        visible(in_nested(st, name), sym),
{
    if st.item_vis.contains_key(sym) && !st.item_vis[sym].1 {
        let home = st.item_vis[sym].0;
        let path = st.current_path.push(name);
        assert(path.take(home.len() as int) =~= st.current_path.take(home.len() as int));
    }
}

/// A private item is visible in the module that declares it and hidden from
/// every module outside it.
pub proof fn private_items_stay_inside(st: Names, sym: SymbolId)
    requires
        st.item_vis.contains_key(sym),
        !st.item_vis[sym].1,
    ensures
        visible(Names { current_path: st.item_vis[sym].0, ..st }, sym),
        !starts_with(st.current_path, st.item_vis[sym].0) ==> !visible(st, sym),
{
    let home = st.item_vis[sym].0;
    assert(home.take(home.len() as int) =~= home);
}

/// A closure notes each captured local once, in the order of first use, and
/// only locals and parameters declared outside it.
pub proof fn captures_are_distinct(st: Names, id: SymbolId, closure: Span)
    requires
        st.closure_captures.contains_key(closure) ==> st.closure_captures[closure].no_duplicates(),
    ensures
        ({
            let after = after_capture(st, id);
            &&& after.closure_captures.contains_key(closure) ==> after.closure_captures[closure].no_duplicates()
            &&& after.closure_captures != st.closure_captures ==> {
                let c = st.open_closure_spans.last();
                let sym = st.symbols[id.0 as int];
                &&& sym.kind is Local || sym.kind is Param
                &&& !(sym.span.start >= c.start && sym.span.end <= c.end)
            }
        }),
{
}

} // verus!
