//! What holds of every program that is accepted: nothing that is found wrong is
//! forgotten, and every construct has the types that it needs.

use vstd::prelude::*;

use crate::ast::{
    AssocTypeBinding, BinOp, Block, ClosureParam, Expr, Field, FieldInit, FnDecl, Ident,
    ImplBlock, Item, LetStmt, Lit, MatchArm, Module, Param, Path, Pattern, Stmt, TraitMethodSig,
    Type, UnOp, expr_span,
};
use crate::facts::{Facts, LayoutV, SelfContext, erring, no_facts, returning, within};
use crate::names::segment_names;
use crate::resolver::{Resolutions, SymbolKind, fn_named};
use crate::search::{first_is_first, first_where, least};
use crate::table::lookup;
use crate::text::{dec, plural};
use crate::token::Span;
use crate::ty::{
    FloatTy, IntTy, SymbolId, TyV, all_compatible, compatible, compatible_is_reflexive,
    compatible_is_symmetric, ty_text, unified,
};
use crate::typing::{
    CoverV, Inits, all_bind, all_checked, all_fit, all_typed, alternatives_fit, arguments_fit,
    arms_checked, arms_covered, assigned, assoc_conform, assoc_of, at, bindings_conform, binds,
    block_checked, bound_checked, call_of, called_symbol, checked, checked_call, checked_for,
    checked_inside, closure_begun, closure_of, closure_params_of, conforms, const_registered,
    conversion_found, conversions_of, default_checked, defaults_checked, each_binds,
    elements_checked, enum_args, exhausts, field_ty, fields_bind, fields_fit, fits, fn_checked,
    fn_sig, fns_checked, full_depth, i64_ty, init_at, inits_first, inits_second, item_checked,
    items_checked, items_of, known_or_error, layouts_found, let_checked, let_ended,
    let_keeps_closure, method_of, method_signature, methods_conform, missing_fields,
    missing_in_pattern, missing_inits, module_checked, must_be_bool, object_method, opt_checked,
    param_types, params_bound, pattern_covered, patterns_covered, payload_names, payloads,
    payloads_at, poly_of, position, provides, registered, root_of, sigs_of, stmt_checked,
    stmts_checked, struct_lit_of, supers_conform, supers_of, sym_kind, sym_name, takes_payloads,
    target_of, type_of, typed, typed_path, values_checked, variant_args_checked, variant_call_of,
    variant_inits_checked, variant_lit_of, variant_types, wanted_params, with_fn, with_supers,
};

verus! {

// ---- types that go together ----

/// A type that is known through and through: no error, variable or projection,
/// and each enum with all of its type arguments.
pub open spec fn is_settled(arity: spec_fn(SymbolId) -> nat, t: TyV) -> bool
    decreases t,
{
    match t {
        TyV::Error | TyV::Never | TyV::TypeVar(_) | TyV::Assoc(_, _) => false,
        TyV::Vec(e) => is_settled(arity, *e),
        TyV::Weak(e) => is_settled(arity, *e),
        TyV::Array(e, _) => is_settled(arity, *e),
        TyV::HashMap(k, v) => is_settled(arity, *k) && is_settled(arity, *v),
        TyV::Fn { params, ret } => all_settled(arity, params) && is_settled(arity, *ret),
        TyV::Struct(_, args) => all_settled(arity, args),
        TyV::Enum(s, args) => args.len() == arity(s) && all_settled(arity, args),
        _ => true,
    }
}

pub open spec fn all_settled(arity: spec_fn(SymbolId) -> nat, ts: Seq<TyV>) -> bool
    decreases ts,
{
    forall|i: int| 0 <= i < ts.len() ==> is_settled(arity, #[trigger] ts[i])
}

/// Types that are known go together only when they are the same.
pub proof fn known_types_go_with_themselves(arity: spec_fn(SymbolId) -> nat, a: TyV, b: TyV)
    requires
        is_settled(arity, a),
        is_settled(arity, b),
    ensures
        compatible(a, b) <==> a == b,
    decreases a,
{
    compatible_is_reflexive(a);
    match (a, b) {
        (TyV::Vec(x), TyV::Vec(y)) => known_types_go_with_themselves(arity, *x, *y),
        (TyV::Weak(x), TyV::Weak(y)) => known_types_go_with_themselves(arity, *x, *y),
        (TyV::Array(x, _), TyV::Array(y, _)) => known_types_go_with_themselves(arity, *x, *y),
        (TyV::HashMap(k, v), TyV::HashMap(k2, v2)) => {
            known_types_go_with_themselves(arity, *k, *k2);
            known_types_go_with_themselves(arity, *v, *v2);
        },
        (TyV::Fn { params, ret }, TyV::Fn { params: params2, ret: ret2 }) => {
            known_lists_go_with_themselves(arity, params, params2);
            known_types_go_with_themselves(arity, *ret, *ret2);
        },
        (TyV::Struct(_, x), TyV::Struct(_, y)) => known_lists_go_with_themselves(arity, x, y),
        (TyV::Enum(_, x), TyV::Enum(_, y)) => {
            known_lists_go_with_themselves(arity, x, y);
            if x.len() == 0 && y.len() == 0 {
                assert(x =~= y);
            }
        },
        _ => {},
    }
}

proof fn known_lists_go_with_themselves(arity: spec_fn(SymbolId) -> nat, a: Seq<TyV>, b: Seq<TyV>)
    requires
        all_settled(arity, a),
        all_settled(arity, b),
    ensures
        all_compatible(a, b) <==> a == b,
    decreases a,
{
    if a.len() == b.len() {
        assert forall|i: int| 0 <= i < a.len() implies compatible(#[trigger] a[i], b[i]) == (a[i] == b[i]) by {
            assert(is_settled(arity, a[i]) && is_settled(arity, b[i]));
            known_types_go_with_themselves(arity, a[i], b[i]);
        }
        if all_compatible(a, b) {
            assert forall|i: int| 0 <= i < a.len() implies a[i] == b[i] by {
                assert(compatible(a[i], b[i]));
            }
            assert(a =~= b);
        }
    }
}

/// The common type of two branches goes with both, and is one of theirs.
pub proof fn common_types_go_with_both(a: TyV, b: TyV)
    ensures
        compatible(a, b) <==> unified(a, b) is Some,
        unified(a, b) matches Some(t) ==> (t == a || t == b) && compatible(t, a) && compatible(t, b),
        unified(a, b) matches Some(t) ==> (t is Never ==> a is Never && b is Never),
{
    compatible_is_reflexive(a);
    compatible_is_reflexive(b);
    compatible_is_symmetric(a, b);
}

// ---- errors stay ----

/// No error is taken back.
pub open spec fn errors_stay(a: Facts, b: Facts) -> bool {
    a.errors.len() <= b.errors.len()
}

/// Nothing more was found wrong.
pub open spec fn nothing_wrong(a: Facts, b: Facts) -> bool {
    a.errors.len() == b.errors.len()
}

proof fn types_add(res: Resolutions<'_>, f: Facts, t: Type, depth: nat)
    ensures
        errors_stay(f, typed(res, f, t, depth).0),
    decreases depth, t, 1nat,
{
    match t {
        Type::Path(p) => paths_add(res, f, p, depth),
        Type::Dyn(p) => lists_add(res, f, p.generic_args@, depth, p.generic_args@.len()),
        Type::Array { elem, .. } => types_add(res, f, *elem, depth),
        Type::Fn { params, ret, .. } => {
            lists_add(res, f, params@, depth, params@.len());
            let f1 = all_typed(res, f, params@, depth, params@.len()).0;
            match ret {
                Some(r) => types_add(res, f1, *r, depth),
                None => {},
            }
        },
        Type::Tuple { elems, .. } => lists_add(res, f, elems@, depth, elems@.len()),
    }
}

proof fn paths_add(res: Resolutions<'_>, f: Facts, p: Path, depth: nat)
    ensures
        errors_stay(f, typed_path(res, f, p, depth).0),
    decreases depth, p, 1nat,
{
    let segs = segment_names(p.segments@);
    if segs.len() == 2 && segs[0] == "Self"@ {
        match f.current_self {
            Some(SelfContext::Impl(s)) => if res.impl_assoc_bindings@.contains_key((s, segs[1])) && depth > 0 {
                types_add(res, f, *res.impl_assoc_bindings@[(s, segs[1])], (depth - 1) as nat);
            },
            _ => {},
        }
    } else {
        lists_add(res, f, p.generic_args@, depth, p.generic_args@.len());
    }
}

proof fn lists_add(res: Resolutions<'_>, f: Facts, ts: Seq<Type>, depth: nat, k: nat)
    ensures
        errors_stay(f, all_typed(res, f, ts, depth, k).0),
    decreases depth, ts, k,
{
    if k > 0 && k <= ts.len() {
        lists_add(res, f, ts, depth, (k - 1) as nat);
        types_add(res, all_typed(res, f, ts, depth, (k - 1) as nat).0, ts[k - 1], depth);
    }
}

proof fn payloads_add(res: Resolutions<'_>, f: Facts, ts: Seq<Type>, m: Map<SymbolId, TyV>, k: nat)
    ensures
        errors_stay(f, payloads_at(res, f, ts, m, k).0),
    decreases k,
{
    if k > 0 && k <= ts.len() {
        payloads_add(res, f, ts, m, (k - 1) as nat);
        types_add(res, payloads_at(res, f, ts, m, (k - 1) as nat).0, ts[k - 1], full_depth());
    }
}

proof fn binding_adds(res: Resolutions<'_>, f: Facts, p: Pattern, t: TyV)
    ensures
        errors_stay(f, binds(res, f, p, t)),
    decreases p, 1nat,
{
    match p {
        Pattern::TupleVariant { path, fields, .. } => match lookup(res.path_to_sym@, path.span) {
            None => {},
            Some(v) => {
                let m = enum_args(res, t);
                payloads_add(res, f, payloads(res, v), m, payloads(res, v).len());
                let (f1, ts) = payloads_at(res, f, payloads(res, v), m, payloads(res, v).len());
                all_binding_adds(res, f1, fields@, ts, least(fields@.len(), ts.len()));
            },
        },
        Pattern::NamedVariant { path, fields, .. } => match lookup(res.path_to_sym@, path.span) {
            None => {},
            Some(v) => {
                let m = enum_args(res, t);
                payloads_add(res, f, payloads(res, v), m, payloads(res, v).len());
                let (f1, ts) = payloads_at(res, f, payloads(res, v), m, payloads(res, v).len());
                let names = match payload_names(res, v) {
                    Some(ns) => ns,
                    None => seq![],
                };
                fields_binding_adds(res, f1, fields@, names, ts, fields@.len());
            },
        },
        Pattern::Or { patterns, .. } => each_binding_adds(res, f, patterns@, t, patterns@.len()),
        Pattern::Tuple { patterns, .. } => each_binding_adds(res, f, patterns@, TyV::Error, patterns@.len()),
        _ => {},
    }
}

proof fn all_binding_adds(res: Resolutions<'_>, f: Facts, ps: Seq<Pattern>, ts: Seq<TyV>, k: nat)
    ensures
        errors_stay(f, all_bind(res, f, ps, ts, k)),
    decreases ps, k,
{
    if k > 0 && k <= ps.len() && k <= ts.len() {
        all_binding_adds(res, f, ps, ts, (k - 1) as nat);
        binding_adds(res, all_bind(res, f, ps, ts, (k - 1) as nat), ps[k - 1], ts[k - 1]);
    }
}

proof fn each_binding_adds(res: Resolutions<'_>, f: Facts, ps: Seq<Pattern>, t: TyV, k: nat)
    ensures
        errors_stay(f, each_binds(res, f, ps, t, k)),
    decreases ps, k,
{
    if k > 0 && k <= ps.len() {
        each_binding_adds(res, f, ps, t, (k - 1) as nat);
        binding_adds(res, each_binds(res, f, ps, t, (k - 1) as nat), ps[k - 1], t);
    }
}

proof fn fields_binding_adds(
    res: Resolutions<'_>,
    f: Facts,
    fs: Seq<(Ident, Pattern)>,
    names: Seq<Seq<char>>,
    ts: Seq<TyV>,
    k: nat,
)
    ensures
        errors_stay(f, fields_bind(res, f, fs, names, ts, k)),
    decreases fs, k,
{
    if k > 0 && k <= fs.len() {
        fields_binding_adds(res, f, fs, names, ts, (k - 1) as nat);
        let f1 = fields_bind(res, f, fs, names, ts, (k - 1) as nat);
        assert(decreases_to!(fs => fs[k - 1]));
        match position(names, fs[k - 1].0.name@) {
            Some(i) => if i < ts.len() {
                binding_adds(res, f1, fs[k - 1].1, ts[i]);
            },
            None => {},
        }
    }
}

proof fn fitting_adds(res: Resolutions<'_>, f: Facts, p: Pattern, t: TyV)
    ensures
        errors_stay(f, fits(res, f, p, t)),
    decreases p, 1nat,
{
    match p {
        Pattern::TupleVariant { path, fields, .. } => match lookup(res.path_to_sym@, path.span) {
            None => {},
            Some(v) => {
                lists_add(res, f, payloads(res, v), full_depth(), payloads(res, v).len());
                let (f1, ts) = variant_types(res, f, v);
                all_fitting_adds(res, f1, fields@, ts, fields@.len());
            },
        },
        Pattern::NamedVariant { path, fields, span } => match lookup(res.path_to_sym@, path.span) {
            None => {},
            Some(v) => match payload_names(res, v) {
                None => {},
                Some(names) => {
                    lists_add(res, f, payloads(res, v), full_depth(), payloads(res, v).len());
                    let (f1, ts) = variant_types(res, f, v);
                    fields_fitting_adds(res, f1, v, fields@, names, ts, fields@.len());
                    let f2 = fields_fit(res, f1, v, fields@, names, ts, fields@.len());
                    missing_adds(res, f2, v, fields@, names, span, names.len());
                },
            },
        },
        Pattern::Or { patterns, span } => alternatives_add(res, f, patterns@, t, span, patterns@.len()),
        _ => {},
    }
}

proof fn all_fitting_adds(res: Resolutions<'_>, f: Facts, ps: Seq<Pattern>, ts: Seq<TyV>, k: nat)
    ensures
        errors_stay(f, all_fit(res, f, ps, ts, k)),
    decreases ps, k,
{
    if k > 0 && k <= ps.len() && k <= ts.len() {
        all_fitting_adds(res, f, ps, ts, (k - 1) as nat);
        fitting_adds(res, all_fit(res, f, ps, ts, (k - 1) as nat), ps[k - 1], ts[k - 1]);
    }
}

proof fn alternatives_add(res: Resolutions<'_>, f: Facts, ps: Seq<Pattern>, t: TyV, span: Span, k: nat)
    ensures
        errors_stay(f, alternatives_fit(res, f, ps, t, span, k)),
    decreases ps, k,
{
    if k > 0 && k <= ps.len() {
        alternatives_add(res, f, ps, t, span, (k - 1) as nat);
        let f1 = alternatives_fit(res, f, ps, t, span, (k - 1) as nat);
        match ps[k - 1] {
            Pattern::Ident { name, .. } => {
                let f2 = erring(
                    f1,
                    span,
                    "or-pattern can't contain a binding (`"@ + name.name@
                        + "`); alternatives can only be `_`, literals, or enum variants"@,
                );
                assert(fits(res, f2, ps[k - 1], t) == f2);
            },
            _ => fitting_adds(res, f1, ps[k - 1], t),
        }
    }
}

proof fn fields_fitting_adds(
    res: Resolutions<'_>,
    f: Facts,
    v: SymbolId,
    fs: Seq<(Ident, Pattern)>,
    names: Seq<Seq<char>>,
    ts: Seq<TyV>,
    k: nat,
)
    ensures
        errors_stay(f, fields_fit(res, f, v, fs, names, ts, k)),
    decreases fs, k,
{
    if k > 0 && k <= fs.len() {
        fields_fitting_adds(res, f, v, fs, names, ts, (k - 1) as nat);
        let f1 = fields_fit(res, f, v, fs, names, ts, (k - 1) as nat);
        assert(decreases_to!(fs => fs[k - 1]));
        match position(names, fs[k - 1].0.name@) {
            Some(i) => fitting_adds(
                res,
                f1,
                fs[k - 1].1,
                if i < ts.len() {
                    ts[i]
                } else {
                    TyV::Error
                },
            ),
            None => {},
        }
    }
}

proof fn missing_adds(
    res: Resolutions<'_>,
    f: Facts,
    v: SymbolId,
    fs: Seq<(Ident, Pattern)>,
    names: Seq<Seq<char>>,
    span: Span,
    k: nat,
)
    ensures
        errors_stay(f, missing_in_pattern(res, f, v, fs, names, span, k)),
    decreases k,
{
    if k > 0 && k <= names.len() {
        missing_adds(res, f, v, fs, names, span, (k - 1) as nat);
    }
}

proof fn covering_adds(res: Resolutions<'_>, f: Facts, c: CoverV, p: Pattern)
    ensures
        errors_stay(f, pattern_covered(res, f, c, p).0),
    decreases p, 1nat,
{
    match p {
        Pattern::Or { patterns, .. } => all_covering_adds(res, f, c, patterns@, patterns@.len()),
        _ => {},
    }
}

proof fn all_covering_adds(res: Resolutions<'_>, f: Facts, c: CoverV, ps: Seq<Pattern>, k: nat)
    ensures
        errors_stay(f, patterns_covered(res, f, c, ps, k).0),
    decreases ps, k,
{
    if k > 0 && k <= ps.len() {
        all_covering_adds(res, f, c, ps, (k - 1) as nat);
        let (f1, c1) = patterns_covered(res, f, c, ps, (k - 1) as nat);
        covering_adds(res, f1, c1, ps[k - 1]);
    }
}

pub(crate) proof fn arms_covering_add(res: Resolutions<'_>, f: Facts, arms: Seq<MatchArm>, k: nat)
    ensures
        errors_stay(f, arms_covered(res, f, arms, k).0),
    decreases k,
{
    if k > 0 && k <= arms.len() {
        arms_covering_add(res, f, arms, (k - 1) as nat);
        let (f1, c) = arms_covered(res, f, arms, (k - 1) as nat);
        covering_adds(res, f1, c, arms[k - 1].pat);
    }
}

proof fn exhausting_adds(res: Resolutions<'_>, f: Facts, t: TyV, arms: Seq<MatchArm>, span: Span)
    ensures
        errors_stay(f, exhausts(res, f, t, arms, span)),
{
    arms_covering_add(res, f, arms, arms.len());
}

proof fn converting_adds(res: Resolutions<'_>, f: Facts, cs: Seq<(&Type, SymbolId)>, wanted: TyV, k: nat)
    ensures
        errors_stay(f, conversion_found(res, f, cs, wanted, k).0),
    decreases k,
{
    if k > 0 && k <= cs.len() {
        converting_adds(res, f, cs, wanted, (k - 1) as nat);
        types_add(res, conversion_found(res, f, cs, wanted, (k - 1) as nat).0, *cs[k - 1].0, full_depth());
    }
}

proof fn rooting_adds(res: Resolutions<'_>, f: Facts, e: Expr, span: Span)
    ensures
        errors_stay(f, root_of(res, f, e, span)),
    decreases e,
{
    match e {
        Expr::Field { receiver, .. } => rooting_adds(res, f, *receiver, span),
        _ => {},
    }
}

// ---- what each construct needs ----

/// Whether a struct has every method that a trait declares.
pub open spec fn has_all_methods(res: Resolutions<'_>, s: SymbolId, t: SymbolId) -> bool {
    res.trait_methods@.contains_key(t) && forall|i: int|
        0 <= i < res.trait_methods@[t]@.len() ==> res.impl_methods@.contains_key(
            (s, (#[trigger] res.trait_methods@[t]@[i]).name.name@),
        )
}

/// Whether a value may stand where a type is wanted: its type goes with it, or
/// it is a struct with the methods of the trait whose object is wanted.
pub open spec fn may_stand(res: Resolutions<'_>, actual: TyV, wanted: TyV) -> bool {
    ||| compatible(actual, wanted)
    ||| actual is Struct && wanted is Dyn && has_all_methods(res, actual->Struct_0, wanted->Dyn_0)
}

/// Whether arguments may stand for parameters: as many, each where it is.
pub open spec fn may_be_given(res: Resolutions<'_>, given: Seq<TyV>, wanted: Seq<TyV>) -> bool {
    &&& given.len() == wanted.len()
    &&& forall|i: int| 0 <= i < given.len() ==> may_stand(res, #[trigger] given[i], wanted[i])
}

/// The operands an operator is for.
pub open spec fn is_for(op: BinOp, t: TyV) -> bool {
    match op {
        BinOp::Add => t is Int || t is Float || t is Str,
        BinOp::Sub | BinOp::Mul | BinOp::Div | BinOp::Mod => t is Int || t is Float,
        BinOp::Lt | BinOp::Gt | BinOp::Le | BinOp::Ge => t is Int || t is Float || t is Char,
        BinOp::And | BinOp::Or => t is Bool,
        BinOp::BitAnd | BinOp::BitOr | BinOp::BitXor | BinOp::Shl | BinOp::Shr => t is Int,
        BinOp::Eq | BinOp::Ne => true,
    }
}

pub open spec fn is_a_question(op: BinOp) -> bool {
    op is Eq || op is Ne || op is Lt || op is Gt || op is Le || op is Ge || op is And || op is Or
}

/// Two operands of an operator: they go together, the operator is for them,
/// and the result is a truth value or of their type.
pub open spec fn operands_suit(op: BinOp, l: TyV, r: TyV, result: TyV) -> bool {
    let t = if l is Never {
        r
    } else {
        l
    };
    if l is Error || r is Error {
        result is Error
    } else {
        &&& compatible(l, r)
        &&& is_for(op, t)
        &&& result == if is_a_question(op) {
            TyV::Bool
        } else {
            t
        }
    }
}

pub open spec fn operand_suits(op: UnOp, t: TyV, result: TyV) -> bool {
    if t is Error {
        result is Error
    } else {
        &&& result == t
        &&& match op {
            UnOp::Neg => t is Int || t is Float,
            UnOp::Not => t is Bool,
            UnOp::BitNot => t is Int,
        }
    }
}

/// What may be written with `as`.
pub open spec fn may_be_cast(from: TyV, to: TyV) -> bool {
    ||| from is Error || to is Error
    ||| (from is Int || from is Float) && (to is Int || to is Float)
    ||| (from is Bool || from is Char) && to is Int
    ||| from is Int && to is Char
}

/// A binding may only be written to when it is mutable.
pub open spec fn may_be_written(res: Resolutions<'_>, e: Expr) -> bool {
    match e {
        Expr::Path(p) => res.path_to_sym@.contains_key(p.span) && (res.path_to_sym@[p.span].0 as int)
            < res.symbols@.len() ==> (res.symbols@[res.path_to_sym@[p.span].0 as int].kind matches SymbolKind::Local {
            mutable,
        } && mutable),
        Expr::Field { .. } | Expr::Index { .. } => true,
        _ => false,
    }
}

/// What an expression needs, given the types found inside it.
pub open spec fn obeys(res: Resolutions<'_>, f: Facts, e: Expr) -> bool {
    let result = checked_inside(res, f, e).1;
    match e {
        Expr::Lit { lit, .. } => match lit {
            Lit::Int(_, Some(t)) => result == TyV::Int(t),
            Lit::Int(_, None) => result == TyV::Int(IntTy::I64),
            Lit::Float(_, Some(t)) => result == TyV::Float(t),
            Lit::Float(_, None) => result == TyV::Float(FloatTy::F64),
            Lit::Str(_) => result is Str,
            Lit::Char(_) => result is Char,
            Lit::Bool(_) => result is Bool,
        },
        Expr::Unary { op, expr, .. } => operand_suits(op, checked(res, f, *expr).1, result),
        Expr::Binary { op, lhs, rhs, .. } => {
            let (f1, l) = checked(res, f, *lhs);
            operands_suit(op, l, checked(res, f1, *rhs).1, result)
        },
        Expr::Assign { lhs, rhs, .. } => {
            let (f1, l) = checked(res, f, *lhs);
            let r = checked(res, f1, *rhs).1;
            (l is Error || r is Error || compatible(l, r)) && may_be_written(res, *lhs)
        },
        Expr::AssignOp { op, lhs, rhs, .. } => {
            let (f1, l) = checked(res, f, *lhs);
            let r = checked(res, f1, *rhs).1;
            &&& l is Error || r is Error || compatible(l, r)
            &&& l is Error || r is Error || !(op is Add || op is Sub || op is Mul || op is Div || op is Mod) || l is Int
                || l is Float || (op is Add && l is Str)
            &&& may_be_written(res, *lhs)
        },
        Expr::MethodCall { receiver, method, args, .. } => {
            let (f1, recv) = checked(res, f, *receiver);
            let (f2, ts) = all_checked(res, f1, args@, args@.len());
            match method_of(res, f2, recv, method.name@) {
                Some(sig) => may_be_given(res, ts, sig.params) && result == sig.ret,
                None => recv is Error,
            }
        },
        Expr::Field { receiver, .. } => {
            let recv = checked(res, f, *receiver).1;
            recv is Struct || recv is Error
        },
        Expr::Index { receiver, index, .. } => {
            let (f1, recv) = checked(res, f, *receiver);
            match *index {
                Expr::Range { .. } => recv is Error && result is Error || recv is Str && result is Str,
                _ => {
                    let i = checked(res, f1, *index).1;
                    &&& i is Int || i is Error
                    &&& recv is Array && result == *recv->Array_0 || recv is Str && result is Int || recv is Error
                },
            }
        },
        Expr::Cast { expr, ty, .. } => {
            let (f1, from) = checked(res, f, *expr);
            result == type_of(res, f1, ty).1 && may_be_cast(from, result)
        },
        Expr::Array { elems, .. } => elems@.len() > 0 && result is Array && result->Array_1 == elems@.len() as usize,
        Expr::If { cond, then_branch, else_branch, .. } => {
            let (f1, c) = checked(res, f, *cond);
            let (f3, a) = block_checked(res, f1, then_branch);
            &&& compatible(c, TyV::Bool)
            &&& match else_branch {
                Some(eb) => compatible(a, checked(res, f3, *eb).1),
                None => compatible(a, TyV::Unit) && result is Unit,
            }
        },
        Expr::While { cond, .. } => compatible(checked(res, f, *cond).1, TyV::Bool) && result is Unit,
        Expr::Return { value, .. } => may_stand(res, opt_checked(res, f, value).1, f.current_return) && result is Never,
        Expr::Call { callee, args, .. } => match called_symbol(res, *callee) {
            Some((_, SymbolKind::PolyBuiltinFn(_))) => true,
            Some((v, SymbolKind::EnumVariant { .. })) => payloads(res, v).len() == args@.len() && args@.len() > 0,
            _ => {
                let (f1, c) = checked(res, f, *callee);
                let ts = all_checked(res, f1, args@, args@.len()).1;
                match c {
                    TyV::Fn { params, .. } => may_be_given(res, ts, params),
                    TyV::Struct(_, _) => true,
                    _ => c is Error,
                }
            },
        },
        Expr::Tuple { .. } | Expr::TupleIndex { .. } | Expr::Range { .. } => false,
        _ => true,
    }
}

/// What a binding needs: with a declared type and a value, the value may stand
/// for the type, or is a closure that is called like the declared function.
pub open spec fn let_obeys(res: Resolutions<'_>, f: Facts, l: LetStmt) -> bool {
    match (l.ty, l.init) {
        (Some(t), Some(e)) => {
            let (f1, d) = type_of(res, f, t);
            let i = checked_for(res, f1, e, Some(d)).1;
            may_stand(res, i, d) || (d is Fn && i is Struct && res.impl_methods@.contains_key((i->Struct_0, "call"@)))
        },
        (None, None) => false,
        _ => true,
    }
}

proof fn arguments_are_given(
    res: Resolutions<'_>,
    f: Facts,
    args: Seq<Expr>,
    ts: Seq<TyV>,
    params: Seq<TyV>,
    what: Seq<char>,
    k: nat,
)
    requires
        k <= args.len(),
        k <= ts.len(),
        k <= params.len(),
    ensures
        errors_stay(f, arguments_fit(res, f, args, ts, params, what, k)),
        nothing_wrong(f, arguments_fit(res, f, args, ts, params, what, k)) ==> forall|i: int|
            0 <= i < k ==> may_stand(res, #[trigger] ts[i], params[i]),
    decreases k,
{
    if k > 0 {
        arguments_are_given(res, f, args, ts, params, what, (k - 1) as nat);
        standing(res, ts[k - 1], params[k - 1]);
    }
}

proof fn standing(res: Resolutions<'_>, a: TyV, w: TyV)
    ensures
        forall|f: Facts, span: Span|
            {
                let r = #[trigger] assigned(res, f, span, a, w);
                nothing_wrong(f, r.0) && (r.1 ==> may_stand(res, a, w))
            },
{
    match (a, w) {
        (TyV::Struct(s, _), TyV::Dyn(t, _)) => {
            if provides(res, s, t) {
                assert(sigs_of(res, t) == res.trait_methods@[t]@);
                assert forall|i: int| 0 <= i < res.trait_methods@[t]@.len() implies res.impl_methods@.contains_key(
                    (s, (#[trigger] res.trait_methods@[t]@[i]).name.name@),
                ) by {
                    assert(sigs_of(res, t)[i] == res.trait_methods@[t]@[i]);
                }
            }
        },
        _ => {},
    }
}

// ---- every construct of a program ----

/// An expression in which everything obeys, in the order it is checked.
pub open spec fn sound(res: Resolutions<'_>, f: Facts, e: Expr) -> bool
    decreases e, 2nat,
{
    obeys(res, f, e) && sound_inside(res, f, e)
}

pub open spec fn sound_inside(res: Resolutions<'_>, f: Facts, e: Expr) -> bool
    decreases e, 1nat,
{
    match e {
        Expr::Unary { expr, .. } => sound(res, f, *expr),
        Expr::Binary { lhs, rhs, .. } => sound(res, f, *lhs) && sound(res, checked(res, f, *lhs).0, *rhs),
        Expr::Assign { lhs, rhs, .. } => sound(res, f, *lhs) && sound(res, checked(res, f, *lhs).0, *rhs),
        Expr::AssignOp { lhs, rhs, .. } => sound(res, f, *lhs) && sound(res, checked(res, f, *lhs).0, *rhs),
        Expr::Call { callee, args, .. } => match called_symbol(res, *callee) {
            Some((_, SymbolKind::PolyBuiltinFn(_))) => all_sound(res, f, args@, args@.len()),
            Some((v, SymbolKind::EnumVariant { .. })) => {
                let (f1, ts) = variant_types(res, f, v);
                payloads_sound(res, f1, ts, args@, args@.len())
            },
            _ => sound(res, f, *callee) && all_sound(res, checked(res, f, *callee).0, args@, args@.len()),
        },
        Expr::MethodCall { receiver, args, .. } => sound(res, f, *receiver) && all_sound(
            res,
            checked(res, f, *receiver).0,
            args@,
            args@.len(),
        ),
        Expr::Field { receiver, .. } => sound(res, f, *receiver),
        Expr::Index { receiver, index, .. } => {
            let f1 = checked(res, f, *receiver).0;
            sound(res, f, *receiver) && match *index {
                Expr::Range { start, end, .. } => {
                    &&& bound_sound(res, f1, start)
                    &&& bound_sound(res, opt_checked(res, f1, start).0, end)
                },
                _ => sound(res, f1, *index),
            }
        },
        Expr::Try { expr, .. } => sound(res, f, *expr),
        Expr::Cast { expr, .. } => sound(res, f, *expr),
        Expr::Array { elems, .. } => elements_sound(res, f, elems@, elems@.len()),
        Expr::Block(b) => block_sound(res, f, b),
        Expr::If { cond, then_branch, else_branch, .. } => {
            let f1 = checked(res, f, *cond).0;
            let f2 = block_checked(res, f1, then_branch).0;
            &&& sound(res, f, *cond)
            &&& block_sound(res, f1, then_branch)
            &&& match else_branch {
                Some(eb) => sound(res, f2, *eb),
                None => true,
            }
        },
        Expr::While { cond, body, .. } => sound(res, f, *cond) && block_sound(res, checked(res, f, *cond).0, body),
        Expr::For { pat, iter, body, .. } => match *iter {
            Expr::Range { start, end, .. } => {
                let f1 = opt_checked(res, f, start).0;
                let f2 = opt_checked(res, f1, end).0;
                &&& bound_sound(res, f, start)
                &&& bound_sound(res, f1, end)
                &&& block_sound(res, binds(res, f2, pat, TyV::Int(IntTy::I64)), body)
            },
            _ => {
                let (f1, t) = checked(res, f, *iter);
                let (f2, item) = items_of(res, f1, t, expr_span(*iter));
                sound(res, f, *iter) && block_sound(res, binds(res, f2, pat, item), body)
            },
        },
        Expr::Match { scrutinee, arms, .. } => {
            let (f1, t) = checked(res, f, *scrutinee);
            sound(res, f, *scrutinee) && arms_sound(res, f1, arms@, t, arms@.len())
        },
        Expr::StructLit { path, fields, .. } => match lookup(res.path_to_sym@, path.span) {
            None => true,
            Some(s) => match sym_kind(res, s) {
                Some(SymbolKind::EnumVariant { .. }) => match payload_names(res, s) {
                    Some(names) => {
                        let (f1, ts) = variant_types(res, f, s);
                        variant_inits_sound(res, f1, s, fields@, names, ts, fields@.len())
                    },
                    None => false,
                },
                Some(SymbolKind::Struct) => match lookup(f.struct_layouts, s) {
                    None => false,
                    Some(l) => {
                        let first = inits_first(res, f, sym_name(res, s), l, fields@, fields@.len());
                        &&& inits_sound(res, f, sym_name(res, s), l, fields@, fields@.len())
                        &&& closures_sound(res, first, l, fields@, fields@.len())
                    },
                },
                _ => false,
            },
        },
        Expr::Return { value, .. } => match value {
            Some(v) => sound(res, f, *v),
            None => true,
        },
        Expr::Closure { .. } => closure_sound(res, f, e, None),
        _ => true,
    }
}

pub open spec fn closure_sound(res: Resolutions<'_>, f: Facts, e: Expr, wanted: Option<TyV>) -> bool
    decreases e, 0nat,
{
    match e {
        Expr::Closure { params, body, span } => {
            let f1 = closure_begun(res, f, params@, span, wanted).0;
            &&& sound(res, f1, *body)
            &&& wanted matches Some(TyV::Fn { ret, .. }) ==> compatible(checked(res, f1, *body).1, *ret)
        },
        _ => true,
    }
}

/// The end of a range: an integer.
pub open spec fn bound_sound(res: Resolutions<'_>, f: Facts, e: Option<Box<Expr>>) -> bool
    decreases e, 3nat,
{
    match e {
        Some(e) => sound(res, f, *e) && (checked(res, f, *e).1 is Int || checked(res, f, *e).1 is Error),
        None => true,
    }
}

pub open spec fn all_sound(res: Resolutions<'_>, f: Facts, es: Seq<Expr>, k: nat) -> bool
    decreases es, k,
{
    k == 0 || k > es.len() || (all_sound(res, f, es, (k - 1) as nat) && sound(
        res,
        all_checked(res, f, es, (k - 1) as nat).0,
        es[k - 1],
    ))
}

/// The elements of an array: each goes with the type of those before.
pub open spec fn elements_sound(res: Resolutions<'_>, f: Facts, es: Seq<Expr>, k: nat) -> bool
    decreases es, k,
{
    if k == 0 || k > es.len() {
        true
    } else if k == 1 {
        sound(res, f, es[0])
    } else {
        let (f1, before) = elements_checked(res, f, es, (k - 1) as nat);
        &&& elements_sound(res, f, es, (k - 1) as nat)
        &&& sound(res, f1, es[k - 1])
        &&& compatible(checked(res, f1, es[k - 1]).1, before)
    }
}

/// The payloads of a variant: each may stand for what is declared.
pub open spec fn payloads_sound(res: Resolutions<'_>, f: Facts, ts: Seq<TyV>, args: Seq<Expr>, k: nat) -> bool
    decreases args, k,
{
    if k == 0 || k > ts.len() || k > args.len() {
        true
    } else {
        let f1 = variant_args_checked(res, f, ts, args, (k - 1) as nat).0;
        &&& payloads_sound(res, f, ts, args, (k - 1) as nat)
        &&& sound(res, f1, args[k - 1])
        &&& may_stand(res, checked(res, f1, args[k - 1]).1, ts[k - 1])
    }
}

/// The arms of a match: each guard is a truth value, and the arms go together.
pub open spec fn arms_sound(res: Resolutions<'_>, f: Facts, arms: Seq<MatchArm>, t: TyV, k: nat) -> bool
    decreases arms, k,
{
    if k == 0 || k > arms.len() {
        true
    } else {
        let (f1, before) = arms_checked(res, f, arms, t, (k - 1) as nat);
        let arm = arms[k - 1];
        let f2 = binds(res, fits(res, f1, arm.pat, t), arm.pat, t);
        let f3 = match arm.guard {
            Some(g) => checked(res, f2, g).0,
            None => f2,
        };
        &&& arms_sound(res, f, arms, t, (k - 1) as nat)
        &&& match arm.guard {
            Some(g) => sound(res, f2, g) && compatible(checked(res, f2, g).1, TyV::Bool),
            None => true,
        }
        &&& sound(res, f3, arm.body)
        &&& before matches Some(b) ==> compatible(b, checked(res, f3, arm.body).1)
    }
}

pub open spec fn variant_inits_sound(
    res: Resolutions<'_>,
    f: Facts,
    v: SymbolId,
    fs: Seq<FieldInit>,
    names: Seq<Seq<char>>,
    ts: Seq<TyV>,
    k: nat,
) -> bool
    decreases fs, k,
{
    if k == 0 || k > fs.len() {
        true
    } else {
        let f1 = variant_inits_checked(res, f, v, fs, names, ts, (k - 1) as nat);
        &&& variant_inits_sound(res, f, v, fs, names, ts, (k - 1) as nat)
        &&& sound(res, f1, fs[k - 1].value)
        &&& position(names, fs[k - 1].name.name@) matches Some(i) && (i < ts.len() ==> compatible(
            checked(res, f1, fs[k - 1].value).1,
            ts[i],
        ))
    }
}

/// The values of a struct literal that are no closures: each for a field.
pub open spec fn inits_sound(
    res: Resolutions<'_>,
    f: Facts,
    name: Seq<char>,
    l: LayoutV,
    fs: Seq<FieldInit>,
    k: nat,
) -> bool
    decreases fs, k,
{
    if k == 0 || k > fs.len() {
        true
    } else {
        let f1 = inits_first(res, f, name, l, fs, (k - 1) as nat).f;
        &&& inits_sound(res, f, name, l, fs, (k - 1) as nat)
        &&& !(fs[k - 1].value is Closure) ==> sound(res, f1, fs[k - 1].value) && field_ty(
            l,
            fs[k - 1].name.name@,
        ) is Some
    }
}

/// Every value of a struct literal may stand for its field.
pub open spec fn closures_sound(res: Resolutions<'_>, s: Inits, l: LayoutV, fs: Seq<FieldInit>, k: nat) -> bool
    decreases fs, k,
{
    if k == 0 || k > fs.len() {
        true
    } else {
        let (f1, m) = inits_second(res, s, l, fs, (k - 1) as nat);
        let value = fs[k - 1].value;
        &&& closures_sound(res, s, l, fs, (k - 1) as nat)
        &&& field_ty(l, fs[k - 1].name.name@) matches Some(d) ==> {
            let wanted = at(res, f1, m, None, d);
            match s.tys[k - 1] {
                Some(t) => may_stand(res, t, wanted),
                None => if value is Closure {
                    closure_sound(res, f1, value, Some(wanted))
                } else {
                    true
                },
            }
        }
    }
}

pub open spec fn block_sound(res: Resolutions<'_>, f: Facts, b: Block) -> bool
    decreases b, 1nat,
{
    stmts_sound(res, f, b.stmts@, b.stmts@.len())
}

pub open spec fn stmts_sound(res: Resolutions<'_>, f: Facts, ss: Seq<Stmt>, k: nat) -> bool
    decreases ss, k,
{
    k == 0 || k > ss.len() || (stmts_sound(res, f, ss, (k - 1) as nat) && stmt_sound(
        res,
        stmts_checked(res, f, ss, (k - 1) as nat).0,
        ss[k - 1],
    ))
}

pub open spec fn stmt_sound(res: Resolutions<'_>, f: Facts, s: Stmt) -> bool
    decreases s, 1nat,
{
    match s {
        Stmt::Let(l) => let_obeys(res, f, l) && let_sound(res, f, l),
        Stmt::Expr(e, _) => sound(res, f, e),
        Stmt::Item(item) => item_sound(
            res,
            match item {
                Item::Fn(d) => with_fn(res, f, d),
                Item::Const(c) => const_registered(res, f, c),
                _ => f,
            },
            item,
        ),
    }
}

pub open spec fn let_sound(res: Resolutions<'_>, f: Facts, l: LetStmt) -> bool
    decreases l, 1nat,
{
    match l.init {
        Some(e) => {
            let (f1, declared) = match l.ty {
                Some(t) => (type_of(res, f, t).0, Some(type_of(res, f, t).1)),
                None => (f, None),
            };
            if e is Closure && declared is Some {
                closure_sound(res, f1, e, declared)
            } else {
                sound(res, f1, e)
            }
        },
        None => true,
    }
}

/// A function: what its body gives goes with what it returns.
pub open spec fn fn_sound(res: Resolutions<'_>, f: Facts, d: FnDecl) -> bool
    decreases d, 1nat,
{
    let (ts, ret) = fn_sig(f, d.name.span);
    let f1 = returning(params_bound(f, d.params@, ts, least(d.params@.len(), ts.len())), ret);
    block_sound(res, f1, d.body) && compatible(block_checked(res, f1, d.body).1, ret)
}

pub open spec fn fns_sound(res: Resolutions<'_>, f: Facts, ds: Seq<FnDecl>, k: nat) -> bool
    decreases ds, k,
{
    k == 0 || k > ds.len() || (fns_sound(res, f, ds, (k - 1) as nat) && fn_sound(
        res,
        fns_checked(res, f, ds, (k - 1) as nat),
        ds[k - 1],
    ))
}

pub open spec fn default_sound(res: Resolutions<'_>, f: Facts, m: TraitMethodSig) -> bool
    decreases m, 1nat,
{
    match m.body {
        None => true,
        Some(b) => {
            let (ts, ret) = fn_sig(f, m.name.span);
            let f1 = returning(params_bound(f, m.params@, ts, least(m.params@.len(), ts.len())), ret);
            block_sound(res, f1, b) && compatible(block_checked(res, f1, b).1, ret)
        },
    }
}

pub open spec fn defaults_sound(res: Resolutions<'_>, f: Facts, ms: Seq<TraitMethodSig>, k: nat) -> bool
    decreases ms, k,
{
    k == 0 || k > ms.len() || (defaults_sound(res, f, ms, (k - 1) as nat) && default_sound(
        res,
        defaults_checked(res, f, ms, (k - 1) as nat),
        ms[k - 1],
    ))
}

/// An impl of a trait: it has each method that the trait has no body for, with
/// as many parameters.
pub open spec fn impl_complete(res: Resolutions<'_>, i: ImplBlock) -> bool {
    match i.trait_path {
        Some(p) => res.path_to_sym@.contains_key(p.span) && res.trait_methods@.contains_key(
            res.path_to_sym@[p.span],
        ) ==> forall|n: int|
            0 <= n < res.trait_methods@[res.path_to_sym@[p.span]]@.len() ==> is_given(
                i,
                *(#[trigger] &res.trait_methods@[res.path_to_sym@[p.span]]@[n]),
            ),
        None => true,
    }
}

pub open spec fn is_given(i: ImplBlock, sig: TraitMethodSig) -> bool {
    ||| sig.body is Some
    ||| exists|j: int|
        0 <= j < i.methods@.len() && (#[trigger] i.methods@[j]).name.name@ == sig.name.name@ && i.methods@[j].params@.len()
            == sig.params@.len()
}

pub open spec fn item_sound(res: Resolutions<'_>, f: Facts, item: Item) -> bool
    decreases item, 1nat,
{
    match item {
        Item::Fn(d) => fn_sound(res, f, d),
        Item::Const(c) => sound(res, f, c.value) && compatible(
            checked(res, f, c.value).1,
            known_or_error(f.local_types, c.name.span),
        ),
        Item::Impl(i) => {
            let inside = match lookup(res.path_to_sym@, i.type_path.span) {
                Some(s) => Some(SelfContext::Impl(s)),
                None => None,
            };
            fns_sound(res, within(f, inside), i.methods@, i.methods@.len()) && impl_complete(res, i)
        },
        Item::Trait(t) => {
            let inside = match lookup(res.decl_to_sym@, t.name.span) {
                Some(s) => Some(SelfContext::Trait(s)),
                None => None,
            };
            defaults_sound(res, within(f, inside), t.methods@, t.methods@.len())
        },
        Item::Mod(m) => items_sound(res, f, m.items@, m.items@.len()),
        _ => true,
    }
}

pub open spec fn items_sound(res: Resolutions<'_>, f: Facts, items: Seq<Item>, k: nat) -> bool
    decreases items, k,
{
    k == 0 || k > items.len() || (items_sound(res, f, items, (k - 1) as nat) && item_sound(
        res,
        items_checked(res, f, items, (k - 1) as nat),
        items[k - 1],
    ))
}

#[verifier::spinoff_prover]
proof fn expr_is_sound(res: Resolutions<'_>, f: Facts, e: Expr)
    ensures
        errors_stay(f, checked(res, f, e).0),
        nothing_wrong(f, checked(res, f, e).0) ==> sound(res, f, e),
    decreases e, 2nat,
{
    match e {
        Expr::Lit { .. } | Expr::Path(_) | Expr::Break(_) | Expr::Continue(_) => {},
        Expr::Unary { .. } | Expr::Binary { .. } | Expr::Assign { .. } | Expr::AssignOp { .. } | Expr::Field { .. }
        | Expr::TupleIndex { .. } | Expr::Cast { .. } | Expr::Try { .. } | Expr::Return { .. } => simple_is_sound(
            res,
            f,
            e,
        ),
        Expr::Call { .. } => call_is_sound(res, f, e),
        Expr::MethodCall { .. } => method_call_is_sound(res, f, e),
        Expr::Index { .. } => index_is_sound(res, f, e),
        Expr::Array { elems, .. } => elements_are_sound(res, f, elems@, elems@.len()),
        Expr::Tuple { elems, .. } => all_are_sound(res, f, elems@, elems@.len()),
        Expr::Block(b) => block_is_sound(res, f, b),
        Expr::If { .. } => if_is_sound(res, f, e),
        Expr::While { .. } => while_is_sound(res, f, e),
        Expr::For { .. } => for_is_sound(res, f, e),
        Expr::Match { .. } => match_is_sound(res, f, e),
        Expr::StructLit { .. } => literal_is_sound(res, f, e),
        Expr::Range { start, end, .. } => {
            value_is_sound(res, f, start);
            value_is_sound(res, opt_checked(res, f, start).0, end);
        },
        Expr::Closure { .. } => closure_is_sound(res, f, e, None),
    }
}

#[verifier::spinoff_prover]
#[verifier::rlimit(60)]
proof fn simple_is_sound(res: Resolutions<'_>, f: Facts, e: Expr)
    requires
        e is Unary || e is Binary || e is Assign || e is AssignOp || e is Field || e is TupleIndex || e is Cast || e is Try
            || e is Return,
    ensures
        errors_stay(f, checked_inside(res, f, e).0),
        nothing_wrong(f, checked_inside(res, f, e).0) ==> obeys(res, f, e) && sound_inside(res, f, e),
    decreases e, 1nat,
{
    match e {
        Expr::Unary { expr, .. } => expr_is_sound(res, f, *expr),
        Expr::Binary { lhs, rhs, .. } => {
            expr_is_sound(res, f, *lhs);
            expr_is_sound(res, checked(res, f, *lhs).0, *rhs);
        },
        Expr::Assign { lhs, rhs, span } => {
            expr_is_sound(res, f, *lhs);
            let f1 = checked(res, f, *lhs).0;
            expr_is_sound(res, f1, *rhs);
            rooting_adds_target(res, checked(res, f1, *rhs).0, *lhs, span);
        },
        Expr::AssignOp { lhs, rhs, span, .. } => {
            expr_is_sound(res, f, *lhs);
            let f1 = checked(res, f, *lhs).0;
            expr_is_sound(res, f1, *rhs);
            rooting_adds_target(res, checked(res, f1, *rhs).0, *lhs, span);
        },
        Expr::Field { receiver, .. } => expr_is_sound(res, f, *receiver),
        Expr::TupleIndex { receiver, .. } => expr_is_sound(res, f, *receiver),
        Expr::Cast { expr, ty, .. } => {
            expr_is_sound(res, f, *expr);
            types_add(res, checked(res, f, *expr).0, ty, full_depth());
        },
        Expr::Try { expr, .. } => {
            expr_is_sound(res, f, *expr);
            let (f1, t) = checked(res, f, *expr);
            match (t, f1.current_return) {
                (TyV::Enum(_, args), TyV::Enum(_, rets)) => if args.len() == 2 && rets.len() == 2 {
                    let cs = conversions_of(res, args[1]);
                    converting_adds(res, f1, cs, rets[1], cs.len());
                },
                _ => {},
            }
        },
        Expr::Return { value, .. } => {
            value_is_sound(res, f, value);
            standing(res, opt_checked(res, f, value).1, f.current_return);
        },
        _ => {},
    }
}

proof fn rooting_adds_target(res: Resolutions<'_>, f: Facts, e: Expr, span: Span)
    ensures
        errors_stay(f, target_of(res, f, e, span)),
        nothing_wrong(f, target_of(res, f, e, span)) ==> may_be_written(res, e),
{
    match e {
        Expr::Field { receiver, .. } => rooting_adds(res, f, *receiver, span),
        _ => {},
    }
}

proof fn value_is_sound(res: Resolutions<'_>, f: Facts, e: Option<Box<Expr>>)
    ensures
        errors_stay(f, opt_checked(res, f, e).0),
        nothing_wrong(f, opt_checked(res, f, e).0) ==> (e matches Some(x) ==> sound(res, f, *x)),
    decreases e, 3nat,
{
    match e {
        Some(e) => expr_is_sound(res, f, *e),
        None => {},
    }
}

proof fn bound_is_sound(res: Resolutions<'_>, f: Facts, e: Option<Box<Expr>>, what: Seq<char>)
    ensures
        errors_stay(f, bound_checked(res, f, e, what)),
        nothing_wrong(f, bound_checked(res, f, e, what)) ==> bound_sound(res, f, e) && bound_checked(res, f, e, what)
            == opt_checked(res, f, e).0,
    decreases e, 3nat,
{
    match e {
        Some(e) => expr_is_sound(res, f, *e),
        None => {},
    }
}

proof fn all_are_sound(res: Resolutions<'_>, f: Facts, es: Seq<Expr>, k: nat)
    ensures
        errors_stay(f, all_checked(res, f, es, k).0),
        nothing_wrong(f, all_checked(res, f, es, k).0) ==> all_sound(res, f, es, k),
    decreases es, k,
{
    if k > 0 && k <= es.len() {
        all_are_sound(res, f, es, (k - 1) as nat);
        expr_is_sound(res, all_checked(res, f, es, (k - 1) as nat).0, es[k - 1]);
    }
}

proof fn all_are_typed(res: Resolutions<'_>, f: Facts, es: Seq<Expr>, k: nat)
    requires
        k <= es.len(),
    ensures
        all_checked(res, f, es, k).1.len() == k,
    decreases k,
{
    if k > 0 {
        all_are_typed(res, f, es, (k - 1) as nat);
    }
}

proof fn written_types_are_as_many(res: Resolutions<'_>, f: Facts, ts: Seq<Type>, depth: nat, k: nat)
    requires
        k <= ts.len(),
    ensures
        all_typed(res, f, ts, depth, k).1.len() == k,
    decreases k,
{
    if k > 0 {
        written_types_are_as_many(res, f, ts, depth, (k - 1) as nat);
    }
}

proof fn elements_are_sound(res: Resolutions<'_>, f: Facts, es: Seq<Expr>, k: nat)
    ensures
        errors_stay(f, elements_checked(res, f, es, k).0),
        nothing_wrong(f, elements_checked(res, f, es, k).0) ==> elements_sound(res, f, es, k),
    decreases es, k,
{
    if k > 0 && k <= es.len() {
        if k == 1 {
            expr_is_sound(res, f, es[0]);
        } else {
            elements_are_sound(res, f, es, (k - 1) as nat);
            expr_is_sound(res, elements_checked(res, f, es, (k - 1) as nat).0, es[k - 1]);
        }
    }
}

#[verifier::spinoff_prover]
proof fn poly_adds(f: Facts, name: Seq<char>, args: Seq<Expr>, ts: Seq<TyV>, span: Span)
    ensures
        errors_stay(f, poly_of(f, name, args, ts, span).0),
{
}

#[verifier::spinoff_prover]
proof fn call_is_given(res: Resolutions<'_>, f: Facts, c: TyV, args: Seq<Expr>, ts: Seq<TyV>, span: Span)
    requires
        args.len() == ts.len(),
    ensures
        errors_stay(f, call_of(res, f, c, args, ts, span).0),
        nothing_wrong(f, call_of(res, f, c, args, ts, span).0) ==> match c {
            TyV::Fn { params, .. } => may_be_given(res, ts, params),
            TyV::Struct(_, _) => true,
            _ => c is Error,
        },
{
    match c {
        TyV::Fn { params, .. } => if params.len() == ts.len() {
            arguments_are_given(res, f, args, ts, params, "argument"@, ts.len());
        },
        TyV::Struct(s, _) => match method_signature(res, f, s, "call"@) {
            Some(TyV::Fn { params, .. }) => {
                let wanted = if params.len() == 0 {
                    params
                } else {
                    params.skip(1)
                };
                if wanted.len() == ts.len() {
                    arguments_are_given(res, f, args, ts, wanted, "argument"@, ts.len());
                }
            },
            _ => {},
        },
        _ => {},
    }
}

#[verifier::spinoff_prover]
proof fn variant_call_is_sound(res: Resolutions<'_>, f: Facts, v: SymbolId, enum_sym: SymbolId, args: Seq<Expr>, span: Span)
    ensures
        errors_stay(f, variant_call_of(res, f, v, enum_sym, args, span).0),
        nothing_wrong(f, variant_call_of(res, f, v, enum_sym, args, span).0) ==> payloads(res, v).len() == args.len()
            && args.len() > 0 && payloads_sound(
            res,
            variant_types(res, f, v).0,
            variant_types(res, f, v).1,
            args,
            args.len(),
        ),
    decreases args, args.len() + 1,
{
    let ps = payloads(res, v);
    lists_add(res, f, ps, full_depth(), ps.len());
    written_types_are_as_many(res, f, ps, full_depth(), ps.len());
    let (f1, ts) = variant_types(res, f, v);
    if ts.len() == 0 {
        let f2 = erring(f1, span, "variant `"@ + sym_name(res, v) + "` takes no payload — drop the parentheses"@);
        all_are_sound(res, f2, args, args.len());
    } else if ts.len() != args.len() {
        let f2 = erring(f1, span, takes_payloads(res, v, ts.len(), args.len()));
        payloads_are_sound(res, f2, ts, args, least(ts.len(), args.len()));
    } else {
        payloads_are_sound(res, f1, ts, args, args.len());
    }
}

#[verifier::spinoff_prover]
proof fn call_is_sound(res: Resolutions<'_>, f: Facts, e: Expr)
    requires
        e is Call,
    ensures
        errors_stay(f, checked_inside(res, f, e).0),
        nothing_wrong(f, checked_inside(res, f, e).0) ==> obeys(res, f, e) && sound_inside(res, f, e),
    decreases e, 1nat,
{
    match e {
        Expr::Call { callee, args, span } => {
            assert(checked_inside(res, f, e) == checked_call(res, f, e));
            match called_symbol(res, *callee) {
                Some((_, SymbolKind::PolyBuiltinFn(name))) => {
                    all_are_sound(res, f, args@, args@.len());
                    let (f1, ts) = all_checked(res, f, args@, args@.len());
                    poly_adds(f1, name@, args@, ts, span);
                },
                Some((v, SymbolKind::EnumVariant { enum_sym, .. })) => {
                    variant_call_is_sound(res, f, v, enum_sym, args@, span);
                },
                _ => {
                    expr_is_sound(res, f, *callee);
                    let (f1, c) = checked(res, f, *callee);
                    all_are_sound(res, f1, args@, args@.len());
                    all_are_typed(res, f1, args@, args@.len());
                    let (f2, ts) = all_checked(res, f1, args@, args@.len());
                    call_is_given(res, f2, c, args@, ts, span);
                    assert(checked_call(res, f, e) == call_of(res, f2, c, args@, ts, span));
                },
            }
        },
        _ => {},
    }
}

#[verifier::spinoff_prover]
proof fn payloads_are_sound(res: Resolutions<'_>, f: Facts, ts: Seq<TyV>, args: Seq<Expr>, k: nat)
    ensures
        errors_stay(f, variant_args_checked(res, f, ts, args, k).0),
        nothing_wrong(f, variant_args_checked(res, f, ts, args, k).0) ==> payloads_sound(res, f, ts, args, k),
    decreases args, k,
{
    if k > 0 && k <= ts.len() && k <= args.len() {
        payloads_are_sound(res, f, ts, args, (k - 1) as nat);
        let f1 = variant_args_checked(res, f, ts, args, (k - 1) as nat).0;
        expr_is_sound(res, f1, args[k - 1]);
        standing(res, checked(res, f1, args[k - 1]).1, ts[k - 1]);
    }
}

#[verifier::spinoff_prover]
#[verifier::rlimit(60)]
proof fn method_call_is_sound(res: Resolutions<'_>, f: Facts, e: Expr)
    requires
        e is MethodCall,
    ensures
        errors_stay(f, checked_inside(res, f, e).0),
        nothing_wrong(f, checked_inside(res, f, e).0) ==> obeys(res, f, e) && sound_inside(res, f, e),
    decreases e, 1nat,
{
    match e {
        Expr::MethodCall { receiver, method, args, span } => {
            expr_is_sound(res, f, *receiver);
            let (f1, recv) = checked(res, f, *receiver);
            all_are_sound(res, f1, args@, args@.len());
            all_are_typed(res, f1, args@, args@.len());
            let (f2, ts) = all_checked(res, f1, args@, args@.len());
            match method_of(res, f2, recv, method.name@) {
                Some(sig) => if sig.params.len() == ts.len() {
                    arguments_are_given(res, f2, args@, ts, sig.params, "argument"@, ts.len());
                    let f3 = method_call_of_start(res, f2, recv, method.name@, span);
                    arguments_are_given(res, f3, args@, ts, sig.params, "argument"@, ts.len());
                },
                None => {},
            }
        },
        _ => {},
    }
}

/// The state in which the arguments of a method call are held against its
/// parameters.
spec fn method_call_of_start(res: Resolutions<'_>, f: Facts, recv: TyV, name: Seq<char>, span: Span) -> Facts {
    match object_method(res, f, recv, name) {
        Some((_, projects)) => if projects {
            erring(
                f,
                span,
                "method `."@ + name + "` returns an associated type that cannot be projected through `"@ + ty_text(recv)
                    + "`; call it on a concrete receiver instead"@,
            )
        } else {
            f
        },
        None => f,
    }
}

#[verifier::spinoff_prover]
proof fn index_is_sound(res: Resolutions<'_>, f: Facts, e: Expr)
    requires
        e is Index,
    ensures
        errors_stay(f, checked_inside(res, f, e).0),
        nothing_wrong(f, checked_inside(res, f, e).0) ==> obeys(res, f, e) && sound_inside(res, f, e),
    decreases e, 1nat,
{
    match e {
        Expr::Index { receiver, index, .. } => {
            expr_is_sound(res, f, *receiver);
            let f1 = checked(res, f, *receiver).0;
            match *index {
                Expr::Range { start, end, .. } => {
                    bound_is_sound(res, f1, start, "slice start must be integer"@);
                    let f2 = bound_checked(res, f1, start, "slice start must be integer"@);
                    bound_is_sound(res, f2, end, "slice end must be integer"@);
                },
                _ => expr_is_sound(res, f1, *index),
            }
        },
        _ => {},
    }
}

#[verifier::spinoff_prover]
proof fn if_is_sound(res: Resolutions<'_>, f: Facts, e: Expr)
    requires
        e is If,
    ensures
        errors_stay(f, checked_inside(res, f, e).0),
        nothing_wrong(f, checked_inside(res, f, e).0) ==> obeys(res, f, e) && sound_inside(res, f, e),
    decreases e, 1nat,
{
    match e {
        Expr::If { cond, then_branch, else_branch, .. } => {
            expr_is_sound(res, f, *cond);
            let (f1, c) = checked(res, f, *cond);
            let f2 = must_be_bool(f1, "if condition"@, c, expr_span(*cond));
            block_is_sound(res, f2, then_branch);
            let f3 = block_checked(res, f2, then_branch).0;
            match else_branch {
                Some(eb) => expr_is_sound(res, f3, *eb),
                None => {},
            }
        },
        _ => {},
    }
}

#[verifier::spinoff_prover]
proof fn while_is_sound(res: Resolutions<'_>, f: Facts, e: Expr)
    requires
        e is While,
    ensures
        errors_stay(f, checked_inside(res, f, e).0),
        nothing_wrong(f, checked_inside(res, f, e).0) ==> obeys(res, f, e) && sound_inside(res, f, e),
    decreases e, 1nat,
{
    match e {
        Expr::While { cond, body, .. } => {
            expr_is_sound(res, f, *cond);
            let (f1, c) = checked(res, f, *cond);
            block_is_sound(res, must_be_bool(f1, "while condition"@, c, expr_span(*cond)), body);
        },
        _ => {},
    }
}

#[verifier::spinoff_prover]
proof fn for_is_sound(res: Resolutions<'_>, f: Facts, e: Expr)
    requires
        e is For,
    ensures
        errors_stay(f, checked_inside(res, f, e).0),
        nothing_wrong(f, checked_inside(res, f, e).0) ==> obeys(res, f, e) && sound_inside(res, f, e),
    decreases e, 1nat,
{
    match e {
        Expr::For { pat, iter, body, .. } => match *iter {
            Expr::Range { start, end, .. } => {
                let what = "range endpoints must be integers"@;
                bound_is_sound(res, f, start, what);
                let f1 = bound_checked(res, f, start, what);
                bound_is_sound(res, f1, end, what);
                let f2 = bound_checked(res, f1, end, what);
                binding_adds(res, f2, pat, i64_ty());
                block_is_sound(res, binds(res, f2, pat, i64_ty()), body);
            },
            _ => {
                expr_is_sound(res, f, *iter);
                let (f1, t) = checked(res, f, *iter);
                let (f2, item) = items_of(res, f1, t, expr_span(*iter));
                binding_adds(res, f2, pat, item);
                block_is_sound(res, binds(res, f2, pat, item), body);
            },
        },
        _ => {},
    }
}

#[verifier::spinoff_prover]
proof fn match_is_sound(res: Resolutions<'_>, f: Facts, e: Expr)
    requires
        e is Match,
    ensures
        errors_stay(f, checked_inside(res, f, e).0),
        nothing_wrong(f, checked_inside(res, f, e).0) ==> obeys(res, f, e) && sound_inside(res, f, e),
    decreases e, 1nat,
{
    match e {
        Expr::Match { scrutinee, arms, span } => {
            expr_is_sound(res, f, *scrutinee);
            let (f1, t) = checked(res, f, *scrutinee);
            arms_are_sound(res, f1, arms@, t, arms@.len());
            exhausting_adds(res, arms_checked(res, f1, arms@, t, arms@.len()).0, t, arms@, span);
        },
        _ => {},
    }
}

#[verifier::spinoff_prover]
proof fn arms_are_sound(res: Resolutions<'_>, f: Facts, arms: Seq<MatchArm>, t: TyV, k: nat)
    ensures
        errors_stay(f, arms_checked(res, f, arms, t, k).0),
        nothing_wrong(f, arms_checked(res, f, arms, t, k).0) ==> arms_sound(res, f, arms, t, k),
    decreases arms, k,
{
    if k > 0 && k <= arms.len() {
        arms_are_sound(res, f, arms, t, (k - 1) as nat);
        let f1 = arms_checked(res, f, arms, t, (k - 1) as nat).0;
        let arm = arms[k - 1];
        assert(decreases_to!(arms => arms[k - 1]));
        fitting_adds(res, f1, arm.pat, t);
        binding_adds(res, fits(res, f1, arm.pat, t), arm.pat, t);
        let f2 = binds(res, fits(res, f1, arm.pat, t), arm.pat, t);
        let f3 = match arm.guard {
            Some(g) => must_be_bool(checked(res, f2, g).0, "match guard"@, checked(res, f2, g).1, expr_span(g)),
            None => f2,
        };
        match arm.guard {
            Some(g) => expr_is_sound(res, f2, g),
            None => {},
        }
        expr_is_sound(res, f3, arm.body);
    }
}

#[verifier::spinoff_prover]
proof fn variant_literal_is_sound(
    res: Resolutions<'_>,
    f: Facts,
    v: SymbolId,
    enum_sym: SymbolId,
    path_span: Span,
    fs: Seq<FieldInit>,
    span: Span,
)
    ensures
        errors_stay(f, variant_lit_of(res, f, v, enum_sym, path_span, fs, span).0),
        nothing_wrong(f, variant_lit_of(res, f, v, enum_sym, path_span, fs, span).0) ==> (payload_names(res, v) matches Some(
            names,
        ) && variant_inits_sound(
            res,
            variant_types(res, f, v).0,
            v,
            fs,
            names,
            variant_types(res, f, v).1,
            fs.len(),
        )),
    decreases fs, fs.len() + 1,
{
    match payload_names(res, v) {
        Some(names) => {
            let ps = payloads(res, v);
            lists_add(res, f, ps, full_depth(), ps.len());
            let (f1, ts) = variant_types(res, f, v);
            let f2 = if fs.len() != names.len() {
                erring(
                    f1,
                    span,
                    "variant `"@ + sym_name(res, v) + "` has "@ + dec(names.len()) + " field"@ + plural(names.len())
                        + ", found "@ + dec(fs.len()),
                )
            } else {
                f1
            };
            variant_inits_are_sound(res, f2, v, fs, names, ts, fs.len());
            let f3 = variant_inits_checked(res, f2, v, fs, names, ts, fs.len());
            missing_inits_add(f3, fs, names, "variant `"@ + sym_name(res, v) + "`"@, path_span, names.len());
        },
        None => {},
    }
}

#[verifier::spinoff_prover]
proof fn literal_is_sound(res: Resolutions<'_>, f: Facts, e: Expr)
    requires
        e is StructLit,
    ensures
        errors_stay(f, checked_inside(res, f, e).0),
        nothing_wrong(f, checked_inside(res, f, e).0) ==> obeys(res, f, e) && sound_inside(res, f, e),
    decreases e, 1nat,
{
    match e {
        Expr::StructLit { path, fields, span } => {
            assert(checked_inside(res, f, e) == struct_lit_of(res, f, e));
            match lookup(res.path_to_sym@, path.span) {
                None => {},
                Some(s) => match sym_kind(res, s) {
                    Some(SymbolKind::EnumVariant { enum_sym, .. }) => {
                        variant_literal_is_sound(res, f, s, enum_sym, path.span, fields@, span);
                    },
                    Some(SymbolKind::Struct) => match lookup(f.struct_layouts, s) {
                        None => {},
                        Some(l) => {
                            let n = fields@.len();
                            inits_are_sound(res, f, sym_name(res, s), l, fields@, n);
                            let first = inits_first(res, f, sym_name(res, s), l, fields@, n);
                            closures_are_sound(res, first, l, fields@, n);
                            let f1 = inits_second(res, first, l, fields@, n).0;
                            missing_fields_add(f1, first.provided, l, sym_name(res, s), span, l.fields.len());
                        },
                    },
                    _ => {
                        let f1 = erring(f, path.span, "`"@ + sym_name(res, s) + "` is not a struct"@);
                        values_are_sound(res, f1, fields@, fields@.len());
                    },
                },
            }
        },
        _ => {},
    }
}

proof fn missing_inits_add(f: Facts, fs: Seq<FieldInit>, names: Seq<Seq<char>>, what: Seq<char>, span: Span, k: nat)
    ensures
        errors_stay(f, missing_inits(f, fs, names, what, span, k)),
    decreases k,
{
    if k > 0 && k <= names.len() {
        missing_inits_add(f, fs, names, what, span, (k - 1) as nat);
    }
}

proof fn missing_fields_add(f: Facts, given: Seq<Seq<char>>, l: LayoutV, name: Seq<char>, span: Span, k: nat)
    ensures
        errors_stay(f, missing_fields(f, given, l, name, span, k)),
    decreases k,
{
    if k > 0 && k <= l.fields.len() {
        missing_fields_add(f, given, l, name, span, (k - 1) as nat);
    }
}

proof fn values_are_sound(res: Resolutions<'_>, f: Facts, fs: Seq<FieldInit>, k: nat)
    ensures
        errors_stay(f, values_checked(res, f, fs, k)),
    decreases fs, k,
{
    if k > 0 && k <= fs.len() {
        values_are_sound(res, f, fs, (k - 1) as nat);
        assert(decreases_to!(fs => fs[k - 1]));
        expr_is_sound(res, values_checked(res, f, fs, (k - 1) as nat), fs[k - 1].value);
    }
}

#[verifier::spinoff_prover]
proof fn variant_inits_are_sound(res: Resolutions<'_>, f: Facts, v: SymbolId, fs: Seq<FieldInit>, names: Seq<Seq<char>>, ts: Seq<TyV>, k: nat)
    ensures
        errors_stay(f, variant_inits_checked(res, f, v, fs, names, ts, k)),
        nothing_wrong(f, variant_inits_checked(res, f, v, fs, names, ts, k)) ==> variant_inits_sound(res, f, v, fs, names, ts, k),
    decreases fs, k,
{
    if k > 0 && k <= fs.len() {
        variant_inits_are_sound(res, f, v, fs, names, ts, (k - 1) as nat);
        let f1 = variant_inits_checked(res, f, v, fs, names, ts, (k - 1) as nat);
        let init = fs[k - 1];
        let name = init.name.name@;
        assert(decreases_to!(fs => fs[k - 1]));
        if first_where(init_at(fs, name), (k - 1) as nat) is Some {
            let f2 = erring(f1, init.name.span, "duplicate field `"@ + name + "` in variant initializer"@);
            expr_is_sound(res, f2, init.value);
        } else if position(names, name) is None {
            let f2 = erring(
                f1,
                init.name.span,
                "no field `"@ + name + "` on variant `"@ + sym_name(res, v) + "`"@,
            );
            expr_is_sound(res, f2, init.value);
        } else {
            expr_is_sound(res, f1, init.value);
        }
    }
}

#[verifier::spinoff_prover]
proof fn inits_are_sound(res: Resolutions<'_>, f: Facts, name: Seq<char>, l: LayoutV, fs: Seq<FieldInit>, k: nat)
    ensures
        errors_stay(f, inits_first(res, f, name, l, fs, k).f),
        nothing_wrong(f, inits_first(res, f, name, l, fs, k).f) ==> inits_sound(res, f, name, l, fs, k),
    decreases fs, k,
{
    if k > 0 && k <= fs.len() {
        inits_are_sound(res, f, name, l, fs, (k - 1) as nat);
        assert(decreases_to!(fs => fs[k - 1]));
        let s = inits_first(res, f, name, l, fs, (k - 1) as nat);
        if !(fs[k - 1].value is Closure) {
            expr_is_sound(res, s.f, fs[k - 1].value);
        }
    }
}

#[verifier::spinoff_prover]
proof fn closures_are_sound(res: Resolutions<'_>, s: Inits, l: LayoutV, fs: Seq<FieldInit>, k: nat)
    ensures
        errors_stay(s.f, inits_second(res, s, l, fs, k).0),
        nothing_wrong(s.f, inits_second(res, s, l, fs, k).0) ==> closures_sound(res, s, l, fs, k),
    decreases fs, k,
{
    if k > 0 && k <= fs.len() {
        closures_are_sound(res, s, l, fs, (k - 1) as nat);
        let (f1, m) = inits_second(res, s, l, fs, (k - 1) as nat);
        assert(decreases_to!(fs => fs[k - 1]));
        let value = fs[k - 1].value;
        match field_ty(l, fs[k - 1].name.name@) {
            None => {},
            Some(d) => {
                let wanted = at(res, f1, m, None, d);
                match s.tys[k - 1] {
                    Some(t) => standing(res, t, wanted),
                    None => {
                        wanted_is_sound(res, f1, value, Some(wanted));
                        standing(res, checked_for(res, f1, value, Some(wanted)).1, wanted);
                    },
                }
            },
        }
    }
}

#[verifier::spinoff_prover]
proof fn wanted_is_sound(res: Resolutions<'_>, f: Facts, e: Expr, wanted: Option<TyV>)
    ensures
        errors_stay(f, checked_for(res, f, e, wanted).0),
        nothing_wrong(f, checked_for(res, f, e, wanted).0) ==> (if e is Closure && wanted is Some { closure_sound(res, f, e, wanted) } else { sound(res, f, e) }),
    decreases e, 3nat,
{
    if e is Closure && wanted is Some {
        closure_is_sound(res, f, e, wanted);
    } else {
        expr_is_sound(res, f, e);
    }
}

#[verifier::spinoff_prover]
proof fn closure_is_sound(res: Resolutions<'_>, f: Facts, e: Expr, wanted: Option<TyV>)
    requires
        e is Closure,
    ensures
        errors_stay(f, closure_of(res, f, e, wanted).0),
        nothing_wrong(f, closure_of(res, f, e, wanted).0) ==> closure_sound(res, f, e, wanted),
    decreases e, 0nat,
{
    match e {
        Expr::Closure { params, body, span } => {
            let ws = match wanted_params(wanted) {
                Some(ws) => ws,
                None => seq![],
            };
            closure_params_add(res, f, params@, ws, params@.len());
            let f0 = erring(
                f,
                span,
                "closure expects "@ + dec(params@.len()) + " parameter"@ + plural(params@.len())
                    + " but the context wants "@ + dec(ws.len()),
            );
            closure_params_add(res, f0, params@, ws, params@.len());
            expr_is_sound(res, closure_begun(res, f, params@, span, wanted).0, *body);
        },
        _ => {},
    }
}

proof fn closure_params_add(res: Resolutions<'_>, f: Facts, ps: Seq<ClosureParam>, wanted: Seq<TyV>, k: nat)
    ensures
        errors_stay(f, closure_params_of(res, f, ps, wanted, k).0),
    decreases k,
{
    if k > 0 && k <= ps.len() {
        closure_params_add(res, f, ps, wanted, (k - 1) as nat);
        let f1 = closure_params_of(res, f, ps, wanted, (k - 1) as nat).0;
        match ps[k - 1].ty {
            Some(t) => types_add(res, f1, t, full_depth()),
            None => {},
        }
    }
}

proof fn block_is_sound(res: Resolutions<'_>, f: Facts, b: Block)
    ensures
        errors_stay(f, block_checked(res, f, b).0),
        nothing_wrong(f, block_checked(res, f, b).0) ==> block_sound(res, f, b),
    decreases b, 1nat,
{
    stmts_are_sound(res, f, b.stmts@, b.stmts@.len());
}

proof fn stmts_are_sound(res: Resolutions<'_>, f: Facts, ss: Seq<Stmt>, k: nat)
    ensures
        errors_stay(f, stmts_checked(res, f, ss, k).0),
        nothing_wrong(f, stmts_checked(res, f, ss, k).0) ==> stmts_sound(res, f, ss, k),
    decreases ss, k,
{
    if k > 0 && k <= ss.len() {
        stmts_are_sound(res, f, ss, (k - 1) as nat);
        stmt_is_sound(res, stmts_checked(res, f, ss, (k - 1) as nat).0, ss[k - 1]);
    }
}

#[verifier::spinoff_prover]
proof fn stmt_is_sound(res: Resolutions<'_>, f: Facts, s: Stmt)
    ensures
        errors_stay(f, stmt_checked(res, f, s).0),
        nothing_wrong(f, stmt_checked(res, f, s).0) ==> stmt_sound(res, f, s),
    decreases s, 1nat,
{
    match s {
        Stmt::Let(l) => {
            let_value_is_sound(res, f, l);
            let_settles(res, f, l);
        },
        Stmt::Expr(e, _) => expr_is_sound(res, f, e),
        Stmt::Item(item) => {
            match item {
                Item::Fn(d) => signature_adds(res, f, d),
                Item::Const(c) => types_add(res, f, c.ty, full_depth()),
                _ => {},
            }
            let f1 = match item {
                Item::Fn(d) => with_fn(res, f, d),
                Item::Const(c) => const_registered(res, f, c),
                _ => f,
            };
            item_is_sound(res, f1, item);
        },
    }
}

proof fn params_add(res: Resolutions<'_>, f: Facts, ps: Seq<Param>, k: nat)
    ensures
        errors_stay(f, param_types(res, f, ps, k).0),
    decreases k,
{
    if k > 0 && k <= ps.len() {
        params_add(res, f, ps, (k - 1) as nat);
        types_add(res, param_types(res, f, ps, (k - 1) as nat).0, ps[k - 1].ty, full_depth());
    }
}

proof fn signature_adds(res: Resolutions<'_>, f: Facts, d: FnDecl)
    ensures
        errors_stay(f, with_fn(res, f, d)),
{
    params_add(res, f, d.params@, d.params@.len());
    match d.return_type {
        Some(t) => types_add(res, param_types(res, f, d.params@, d.params@.len()).0, t, full_depth()),
        None => {},
    }
}

proof fn bound_params_stay(f: Facts, ps: Seq<Param>, ts: Seq<TyV>, k: nat)
    ensures
        params_bound(f, ps, ts, k).errors == f.errors,
    decreases k,
{
    if k > 0 && k <= ps.len() && k <= ts.len() {
        bound_params_stay(f, ps, ts, (k - 1) as nat);
    }
}

#[verifier::spinoff_prover]
proof fn let_ends_well(res: Resolutions<'_>, f: Facts, l: LetStmt, declared: Option<TyV>, given: Option<TyV>)
    ensures
        errors_stay(f, let_ended(res, f, l, declared, given)),
        nothing_wrong(f, let_ended(res, f, l, declared, given)) ==> match (declared, given) {
            (Some(d), Some(i)) => may_stand(res, i, d) || (d is Fn && i is Struct && res.impl_methods@.contains_key(
                (i->Struct_0, "call"@),
            )),
            (None, None) => false,
            _ => true,
        },
{
    match (declared, given) {
        (Some(d), Some(i)) => {
            if let_keeps_closure(res, i, d) {
                binding_adds(res, f, l.pat, i);
            } else {
                let init_span = match l.init {
                    Some(e) => expr_span(e),
                    None => l.span,
                };
                standing(res, i, d);
                let (f1, ok) = assigned(res, f, init_span, i, d);
                if ok {
                    binding_adds(res, f1, l.pat, d);
                } else {
                    let f2 = erring(
                        f1,
                        l.span,
                        "let binding declared `"@ + ty_text(d) + "` but initializer has type `"@ + ty_text(i) + "`"@,
                    );
                    binding_adds(res, f2, l.pat, d);
                }
            }
        },
        (Some(d), None) => binding_adds(res, f, l.pat, d),
        (None, Some(i)) => binding_adds(res, f, l.pat, i),
        (None, None) => binding_adds(
            res,
            erring(f, l.span, "let binding has neither type nor initializer"@),
            l.pat,
            TyV::Error,
        ),
    }
}

/// The state after a binding's declared type, and the type.
spec fn let_started(res: Resolutions<'_>, f: Facts, l: LetStmt) -> (Facts, Option<TyV>) {
    match l.ty {
        Some(t) => (type_of(res, f, t).0, Some(type_of(res, f, t).1)),
        None => (f, None),
    }
}

/// Whether a binding's value, if it has one, is sound when it leaves nothing
/// wrong.
spec fn value_settled(res: Resolutions<'_>, f: Facts, l: LetStmt) -> bool {
    let (f1, declared) = let_started(res, f, l);
    match l.init {
        Some(e) => {
            &&& errors_stay(f1, checked_for(res, f1, e, declared).0)
            &&& nothing_wrong(f1, checked_for(res, f1, e, declared).0) ==> let_sound(res, f, l)
        },
        None => true,
    }
}

#[verifier::spinoff_prover]
#[verifier::rlimit(40)]
proof fn let_value_is_sound(res: Resolutions<'_>, f: Facts, l: LetStmt)
    ensures
        value_settled(res, f, l),
    decreases l, 1nat,
{
    let (f1, declared) = let_started(res, f, l);
    match l.init {
        Some(e) => {
            wanted_is_sound(res, f1, e, declared);
        },
        None => {},
    }
}

#[verifier::spinoff_prover]
proof fn let_settles(res: Resolutions<'_>, f: Facts, l: LetStmt)
    requires
        value_settled(res, f, l),
    ensures
        errors_stay(f, let_checked(res, f, l)),
        nothing_wrong(f, let_checked(res, f, l)) ==> let_obeys(res, f, l) && let_sound(res, f, l),
{
    match l.ty {
        Some(t) => types_add(res, f, t, full_depth()),
        None => {},
    }
    match l.init {
        Some(e) => {
            let (f1, declared) = let_started(res, f, l);
            let (f2, i) = checked_for(res, f1, e, declared);
            let_ends_well(res, f2, l, declared, Some(i));
            assert(let_checked(res, f, l) == let_ended(res, f2, l, declared, Some(i)));
        },
        None => uninitialized_is_sound(res, f, l),
    }
}

#[verifier::spinoff_prover]
proof fn uninitialized_is_sound(res: Resolutions<'_>, f: Facts, l: LetStmt)
    requires
        l.init is None,
    ensures
        errors_stay(f, let_checked(res, f, l)),
        nothing_wrong(f, let_checked(res, f, l)) ==> let_obeys(res, f, l) && let_sound(res, f, l),
{
    match l.ty {
        Some(t) => {
            types_add(res, f, t, full_depth());
            let (f1, d) = type_of(res, f, t);
            let_ends_well(res, f1, l, Some(d), None);
        },
        None => let_ends_well(res, f, l, None, None),
    }
}

#[verifier::spinoff_prover]
proof fn fn_is_sound(res: Resolutions<'_>, f: Facts, d: FnDecl)
    ensures
        errors_stay(f, fn_checked(res, f, d)),
        nothing_wrong(f, fn_checked(res, f, d)) ==> fn_sound(res, f, d),
    decreases d, 1nat,
{
    let (ts, ret) = fn_sig(f, d.name.span);
    let n = least(d.params@.len(), ts.len());
    bound_params_stay(f, d.params@, ts, n);
    block_is_sound(res, returning(params_bound(f, d.params@, ts, n), ret), d.body);
}

proof fn fns_are_sound(res: Resolutions<'_>, f: Facts, ds: Seq<FnDecl>, k: nat)
    ensures
        errors_stay(f, fns_checked(res, f, ds, k)),
        nothing_wrong(f, fns_checked(res, f, ds, k)) ==> fns_sound(res, f, ds, k),
    decreases ds, k,
{
    if k > 0 && k <= ds.len() {
        fns_are_sound(res, f, ds, (k - 1) as nat);
        fn_is_sound(res, fns_checked(res, f, ds, (k - 1) as nat), ds[k - 1]);
    }
}

#[verifier::spinoff_prover]
proof fn default_is_sound(res: Resolutions<'_>, f: Facts, m: TraitMethodSig)
    ensures
        errors_stay(f, default_checked(res, f, m)),
        nothing_wrong(f, default_checked(res, f, m)) ==> default_sound(res, f, m),
    decreases m, 1nat,
{
    match m.body {
        None => {},
        Some(b) => {
            let (ts, ret) = fn_sig(f, m.name.span);
            let n = least(m.params@.len(), ts.len());
            bound_params_stay(f, m.params@, ts, n);
            block_is_sound(res, returning(params_bound(f, m.params@, ts, n), ret), b);
        },
    }
}

proof fn defaults_are_sound(res: Resolutions<'_>, f: Facts, ms: Seq<TraitMethodSig>, k: nat)
    ensures
        errors_stay(f, defaults_checked(res, f, ms, k)),
        nothing_wrong(f, defaults_checked(res, f, ms, k)) ==> defaults_sound(res, f, ms, k),
    decreases ms, k,
{
    if k > 0 && k <= ms.len() {
        defaults_are_sound(res, f, ms, (k - 1) as nat);
        default_is_sound(res, defaults_checked(res, f, ms, (k - 1) as nat), ms[k - 1]);
    }
}

proof fn methods_are_given(res: Resolutions<'_>, f: Facts, i: ImplBlock, sigs: Seq<TraitMethodSig>, k: nat)
    requires
        k <= sigs.len(),
    ensures
        errors_stay(f, methods_conform(res, f, i, sigs, k)),
        nothing_wrong(f, methods_conform(res, f, i, sigs, k)) ==> forall|n: int|
            0 <= n < k ==> is_given(i, #[trigger] sigs[n]),
    decreases k,
{
    if k > 0 {
        methods_are_given(res, f, i, sigs, (k - 1) as nat);
        let sig = sigs[k - 1];
        let p = fn_named(i.methods@, sig.name.name@);
        match first_where(p, i.methods@.len()) {
            Some(j) => {
                first_is_first(p, i.methods@.len());
                assert(p(j));
                assert(i.methods@[j].name.name@ == sig.name.name@);
            },
            None => {},
        }
    }
}

proof fn supers_add(res: Resolutions<'_>, f: Facts, s: SymbolId, t: SymbolId, span: Span, supers: Seq<SymbolId>, k: nat)
    ensures
        errors_stay(f, supers_conform(res, f, s, t, span, supers, k)),
    decreases k,
{
    if k > 0 && k <= supers.len() {
        supers_add(res, f, s, t, span, supers, (k - 1) as nat);
    }
}

proof fn assocs_add(res: Resolutions<'_>, f: Facts, s: SymbolId, span: Span, names: Seq<Seq<char>>, k: nat)
    ensures
        errors_stay(f, assoc_conform(res, f, s, span, names, k)),
    decreases k,
{
    if k > 0 && k <= names.len() {
        assocs_add(res, f, s, span, names, (k - 1) as nat);
    }
}

proof fn impl_bindings_add(f: Facts, names: Seq<Seq<char>>, bs: Seq<AssocTypeBinding>, k: nat)
    ensures
        errors_stay(f, bindings_conform(f, names, bs, k)),
    decreases k,
{
    if k > 0 && k <= bs.len() {
        impl_bindings_add(f, names, bs, (k - 1) as nat);
    }
}

proof fn impl_is_complete(res: Resolutions<'_>, f: Facts, i: ImplBlock)
    ensures
        errors_stay(f, conforms(res, f, i)),
        nothing_wrong(f, conforms(res, f, i)) ==> impl_complete(res, i),
{
    match i.trait_path {
        None => {},
        Some(p) => match lookup(res.path_to_sym@, p.span) {
            None => {},
            Some(t) => if res.trait_methods@.contains_key(t) {
                let sigs = sigs_of(res, t);
                methods_are_given(res, f, i, sigs, sigs.len());
                let f1 = methods_conform(res, f, i, sigs, sigs.len());
                match lookup(res.path_to_sym@, i.type_path.span) {
                    None => {},
                    Some(s) => {
                        let supers = with_supers(res, supers_of(res, t));
                        supers_add(res, f1, s, t, i.span, supers, supers.len());
                        let f2 = supers_conform(res, f1, s, t, i.span, supers, supers.len());
                        let names = assoc_of(res, t);
                        assocs_add(res, f2, s, i.span, names, names.len());
                        let f3 = assoc_conform(res, f2, s, i.span, names, names.len());
                        impl_bindings_add(f3, names, i.assoc_types@, i.assoc_types@.len());
                    },
                }
                assert(sigs == res.trait_methods@[t]@);
            },
        },
    }
}

#[verifier::spinoff_prover]
proof fn item_is_sound(res: Resolutions<'_>, f: Facts, item: Item)
    ensures
        errors_stay(f, item_checked(res, f, item)),
        nothing_wrong(f, item_checked(res, f, item)) ==> item_sound(res, f, item),
    decreases item, 1nat,
{
    match item {
        Item::Fn(d) => fn_is_sound(res, f, d),
        Item::Const(c) => expr_is_sound(res, f, c.value),
        Item::Impl(i) => {
            let inside = match lookup(res.path_to_sym@, i.type_path.span) {
                Some(s) => Some(SelfContext::Impl(s)),
                None => None,
            };
            fns_are_sound(res, within(f, inside), i.methods@, i.methods@.len());
            impl_is_complete(res, fns_checked(res, within(f, inside), i.methods@, i.methods@.len()), i);
        },
        Item::Trait(t) => {
            let inside = match lookup(res.decl_to_sym@, t.name.span) {
                Some(s) => Some(SelfContext::Trait(s)),
                None => None,
            };
            defaults_are_sound(res, within(f, inside), t.methods@, t.methods@.len());
        },
        Item::Mod(m) => items_are_sound(res, f, m.items@, m.items@.len()),
        _ => {},
    }
}

proof fn items_are_sound(res: Resolutions<'_>, f: Facts, items: Seq<Item>, k: nat)
    ensures
        errors_stay(f, items_checked(res, f, items, k)),
        nothing_wrong(f, items_checked(res, f, items, k)) ==> items_sound(res, f, items, k),
    decreases items, k,
{
    if k > 0 && k <= items.len() {
        items_are_sound(res, f, items, (k - 1) as nat);
        item_is_sound(res, items_checked(res, f, items, (k - 1) as nat), items[k - 1]);
    }
}

/// A module that is accepted is sound: every binding, call, operator, branch,
/// return value and function body in it has the types that it needs. A program
/// with one that has not is refused.
pub proof fn accepted_modules_are_sound(res: Resolutions<'_>, m: Module)
    requires
        module_checked(res, m).errors.len() == 0,
    ensures
        ({
            let n = m.items@.len();
            let known = registered(res, layouts_found(res, no_facts(), m.items@, n), m.items@, n);
            known.errors.len() == 0 && items_sound(res, known, m.items@, n)
        }),
{
    let n = m.items@.len();
    let known = registered(res, layouts_found(res, no_facts(), m.items@, n), m.items@, n);
    items_are_sound(res, known, m.items@, n);
}

/// A binding whose value may not stand for its declared type is reported, by at
/// least one error.
pub proof fn mismatched_bindings_are_reported(res: Resolutions<'_>, f: Facts, l: LetStmt)
    requires
        !let_obeys(res, f, l),
    ensures
        let_checked(res, f, l).errors.len() > f.errors.len(),
{
    let_value_is_sound(res, f, l);
    let_settles(res, f, l);
}

/// An expression that does not have the types it needs is reported, by at least
/// one error.
pub proof fn mismatched_expressions_are_reported(res: Resolutions<'_>, f: Facts, e: Expr)
    requires
        !obeys(res, f, e),
    ensures
        checked(res, f, e).0.errors.len() > f.errors.len(),
{
    expr_is_sound(res, f, e);
}

} // verus!
