//! What holds of the code of every expression, block and function.

use vstd::prelude::*;

use crate::code::{Arith, CalleeV, Cond, Gen, OpV, Width, here, put};
use crate::hir::{
    HirBinOp, HirBlock, HirExpr, HirExprKind, HirFn, HirLet, HirLit, HirMatchArm, HirModule,
    HirParam, HirPattern, HirStmt, HirUnOp,
};
use crate::rules::{
    Env, Made, all_made, allocated, alternatives_checked, arc_fields, arm_bound, arm_made,
    arms_made, array_elems_released, array_release, array_room, begun, bounds_checked,
    builtin_method_made, converted, count_call, counting, elem_bytes, element, element_bound,
    elems_made, else_made, enum_release, enum_size, field_released, field_width, fields_made,
    fields_released, fn_closed, fn_made, for_begun, freed, guard_made, has_value, in_loop,
    int_cond, into_block, is_counted, jumped, kept, last_one, last_op, let_made, literal,
    loop_closed, made, made_assign, made_block, made_box, made_field_assign, made_for,
    made_for_range, made_if, made_index, made_logical, made_match, made_method, made_object_call,
    made_return, made_slice, made_variant, made_while, main_wrapper, merge_param, merged,
    narrowed, new_blocks, object_methods, object_release, object_size, operation, params_made,
    past_end, pattern_checked, payloads_bound, payloads_made, payloads_released, range_begun,
    release_begun, released, runtime_call, side_made, stepped, stmt_made, stmts_made,
    struct_release, struct_size, table_made, tagged, tail_held, text_literal, unary,
    unit_variant, value_made, variants_of, variants_released, vec_release, walk_begun,
    walk_ended, walked, wanted, width_of, words,
};
use crate::table::lookup;
use crate::ty::{SymbolId, Ty, TyV};

verus! {

/// Whether an operation's operands all come before a position.
pub open spec fn refers_below(op: OpV, n: nat) -> bool {
    match op {
        OpV::BlockParam(b, _) => b < n,
        OpV::Switch(b) => b < n,
        OpV::Seal(b) => b < n,
        OpV::Assign(x, v) => x < n && v < n,
        OpV::Read(x) => x < n,
        OpV::Arith(_, l, r) => l < n && r < n,
        OpV::Negate(_, v) => v < n,
        OpV::Compare(_, l, r) => l < n && r < n,
        OpV::CompareFloat(_, l, r) => l < n && r < n,
        OpV::Convert(_, _, v) => v < n,
        OpV::Load(_, p, _) => p < n,
        OpV::Store(v, p, _) => v < n && p < n,
        OpV::SlotStore(v, s, _) => v < n && s < n,
        OpV::SlotAddr(s) => s < n,
        OpV::Call(_, args) => all_below(args, n),
        OpV::CallIndirect(_, _, f, args) => f < n && all_below(args, n),
        OpV::Jump(b, args) => b < n && all_below(args, n),
        OpV::Branch(c, yes, no) => c < n && yes < n && no < n,
        OpV::Return(vs) => all_below(vs, n),
        _ => true,
    }
}

pub open spec fn all_below(vs: Seq<usize>, n: nat) -> bool {
    forall|i: int| 0 <= i < vs.len() ==> (#[trigger] vs[i]) < n
}

/// Code whose operations refer to earlier ones only, and whose variables,
/// owning locals and loops are all among its operations.
#[verifier::opaque]
pub open spec fn well_ordered(g: Gen) -> bool {
    &&& refers_back(g.ops)
    &&& forall|s: SymbolId| g.vars.contains_key(s) ==> (#[trigger] g.vars[s]) < g.ops.len()
    &&& forall|i: int| 0 <= i < g.owned.len() ==> (#[trigger] g.owned[i]).0 < g.ops.len()
    &&& forall|i: int| 0 <= i < g.loops.len() ==> (#[trigger] g.loops[i]).0 < g.ops.len()
}

/// Every position in the code fits in a machine word.
pub open spec fn numbered(g: Gen) -> bool {
    g.ops.len() <= usize::MAX
}

/// Code after which nothing that was there has changed.
pub open spec fn grows(a: Gen, b: Gen) -> bool {
    &&& b.loops == a.loops
    &&& a.ops.len() <= b.ops.len()
    &&& forall|i: int| 0 <= i < a.ops.len() ==> (#[trigger] b.ops[i]) == a.ops[i]
}

/// Code after which nothing that was there has changed, with the same owning
/// locals and the same loops around, and as well ordered as before on a
/// condition.
pub open spec fn goes_on_if(a: Gen, b: Gen, given: bool) -> bool {
    &&& b.owned == a.owned
    &&& grows(a, b)
    &&& given && numbered(b) && well_ordered(a) ==> well_ordered(b)
}

pub open spec fn goes_on(a: Gen, b: Gen) -> bool {
    goes_on_if(a, b, true)
}

/// The same with owning locals added.
pub open spec fn goes_on_owning(a: Gen, b: Gen) -> bool {
    &&& a.owned.len() <= b.owned.len()
    &&& b.owned.take(a.owned.len() as int) == a.owned
    &&& grows(a, b)
    &&& numbered(b) && well_ordered(a) ==> well_ordered(b)
}

pub open spec fn made_goes_on_if(g: Gen, m: Made, given: bool) -> bool {
    m matches Ok((g1, v)) ==> {
        &&& goes_on_if(g, g1, given)
        &&& given && numbered(g1) && well_ordered(g) && v is Some ==> v->0 < g1.ops.len()
    }
}

pub open spec fn made_goes_on(g: Gen, m: Made) -> bool {
    made_goes_on_if(g, m, true)
}

pub open spec fn code_goes_on(g: Gen, m: Result<Gen, Seq<char>>, given: bool) -> bool {
    m matches Ok(g1) ==> goes_on_if(g, g1, given)
}

pub open spec fn value_goes_on(g: Gen, m: Result<(Gen, usize), Seq<char>>, given: bool) -> bool {
    m matches Ok((g1, v)) ==> {
        &&& goes_on_if(g, g1, given)
        &&& given && numbered(g1) && well_ordered(g) ==> v < g1.ops.len()
    }
}

proof fn count_goes_on(hir: HirModule, g: Gen, release: bool, t: TyV, v: usize)
    ensures
        code_goes_on(g, count_call(hir, g, release, t, v), v < g.ops.len()),
{
    reveal(well_ordered);
}

proof fn release_goes_on(hir: HirModule, g: Gen, target: nat, n: nat)
    ensures
        code_goes_on(g, released(hir, g, target, n), true),
    decreases n,
{
    reveal(well_ordered);
    if target < n <= g.owned.len() {
        let (var, t) = g.owned[n - 1];
        let g1 = put(g, OpV::Read(var));
        count_goes_on(hir, g1, true, t, here(g));
        match count_call(hir, g1, true, t, here(g)) {
            Ok(g2) => release_goes_on(hir, g2, target, (n - 1) as nat),
            Err(_) => {},
        }
    }
}

proof fn keeping_goes_on(hir: HirModule, g: Gen, e: HirExpr, v: usize)
    ensures
        code_goes_on(g, kept(hir, g, e, v), v < g.ops.len()),
{
    reveal(well_ordered);
    count_goes_on(hir, g, false, e.ty@, v);
}

proof fn text_goes_on(g: Gen, s: Seq<char>)
    ensures
        goes_on(g, text_literal(g, s)),
        text_literal(g, s).ops.len() > g.ops.len(),
{
    reveal(well_ordered);
}

proof fn literal_goes_on(g: Gen, lit: HirLit)
    ensures
        made_goes_on(g, Ok(literal(g, lit))),
{
    reveal(well_ordered);
    match lit {
        HirLit::Str(s) => text_goes_on(g, s@),
        _ => {},
    }
}

proof fn bounds_go_on(g: Gen, i: usize, len: usize)
    ensures
        goes_on_if(g, bounds_checked(g, i, len), i < g.ops.len() && len < g.ops.len()),
{
    reveal(well_ordered);
}

proof fn operation_goes_on(g: Gen, op: HirBinOp, l: usize, r: usize, t: TyV)
    ensures
        code_goes_on(g, operation(g, op, l, r, t), l < g.ops.len() && r < g.ops.len()),
{
    reveal(well_ordered);
}

proof fn unary_goes_on(g: Gen, op: HirUnOp, v: usize, t: TyV)
    ensures
        code_goes_on(g, unary(g, op, v, t), v < g.ops.len()),
{
    reveal(well_ordered);
}

proof fn conversion_goes_on(g: Gen, v: usize, from: TyV, to: TyV)
    ensures
        value_goes_on(g, converted(g, v, from, to), v < g.ops.len()),
{
    reveal(well_ordered);
}

proof fn variant_goes_on(hir: HirModule, g: Gen, t: TyV, tag: u32)
    ensures
        goes_on(g, unit_variant(hir, g, t, tag).0),
        numbered(unit_variant(hir, g, t, tag).0) ==> unit_variant(hir, g, t, tag).1 < unit_variant(
            hir,
            g,
            t,
            tag,
        ).0.ops.len(),
{
    reveal(well_ordered);
}

proof fn tag_goes_on(g: Gen, size: i64, tag: u32)
    ensures
        goes_on(g, tagged(g, size, tag)),
        last_op(allocated(g, size)) < tagged(g, size, tag).ops.len(),
{
    reveal(well_ordered);
}

proof fn step_goes_on(g: Gen, counter: usize, header: usize)
    ensures
        goes_on_if(g, stepped(g, counter, header), counter < g.ops.len() && header < g.ops.len()),
{
    reveal(well_ordered);
}

proof fn element_goes_on(g: Gen, base: usize, i: usize, w: Width, each: u32)
    ensures
        goes_on_if(g, element(g, base, i, w, each), base < g.ops.len() && i < g.ops.len()),
{
    reveal(well_ordered);
}

proof fn bindings_go_on(g: Gen, v: usize, bs: Seq<(Ty, Option<SymbolId>)>, k: nat)
    ensures
        code_goes_on(g, payloads_bound(g, v, bs, k), v < g.ops.len()),
    decreases k,
{
    reveal(well_ordered);
    if k > 0 && k <= bs.len() {
        bindings_go_on(g, v, bs, (k - 1) as nat);
    }
}

proof fn pattern_goes_on(hir: HirModule, g: Gen, p: HirPattern, v: usize, t: TyV, yes: usize, no: usize)
    ensures
        code_goes_on(
            g,
            pattern_checked(hir, g, p, v, t, yes, no),
            v < g.ops.len() && yes < g.ops.len() && no < g.ops.len(),
        ),
{
    reveal(well_ordered);
    match p {
        HirPattern::StrLit(s) => text_goes_on(g, s@),
        HirPattern::EnumPayload { discriminant, bindings } => {
            let g1 = put(g, OpV::Load(Width::I64, v, 0));
            let g2 = put(g1, OpV::Int(Width::I64, discriminant as i64));
            let g3 = put(g2, OpV::Compare(Cond::Equal, here(g), here(g1)));
            let g4 = put(g3, OpV::Block);
            let g5 = into_block(put(g4, OpV::Branch(here(g2), here(g3), no)), here(g3));
            bindings_go_on(g5, v, bindings@, bindings@.len());
        },
        _ => {},
    }
}

proof fn alternatives_go_on(
    hir: HirModule,
    g: Gen,
    ps: Seq<HirPattern>,
    v: usize,
    t: TyV,
    body: usize,
    next: usize,
    k: nat,
)
    ensures
        code_goes_on(
            g,
            alternatives_checked(hir, g, ps, v, t, body, next, k),
            v < g.ops.len() && body < g.ops.len() && next < g.ops.len(),
        ),
    decreases k,
{
    reveal(well_ordered);
    if k > 0 && k <= ps.len() {
        alternatives_go_on(hir, g, ps, v, t, body, next, (k - 1) as nat);
        match alternatives_checked(hir, g, ps, v, t, body, next, (k - 1) as nat) {
            Ok(g1) => {
                pattern_goes_on(hir, g1, ps[k - 1], v, t, body, next);
                pattern_goes_on(hir, put(g1, OpV::Block), ps[k - 1], v, t, body, here(g1));
            },
            Err(_) => {},
        }
    }
}

proof fn blocks_go_on(g: Gen, k: nat)
    ensures
        goes_on(g, new_blocks(g, k).0),
        new_blocks(g, k).1.len() == k,
        numbered(new_blocks(g, k).0) ==> all_below(new_blocks(g, k).1, new_blocks(g, k).0.ops.len()),
    decreases k,
{
    reveal(well_ordered);
    if k > 0 {
        blocks_go_on(g, (k - 1) as nat);
    }
}

proof fn table_goes_on(env: Env, g: Gen, s: SymbolId, names: Seq<Seq<char>>, cell: usize, k: nat)
    ensures
        code_goes_on(g, table_made(env, g, s, names, cell, k), cell < g.ops.len()),
    decreases k,
{
    reveal(well_ordered);
    if k > 0 && k <= names.len() {
        table_goes_on(env, g, s, names, cell, (k - 1) as nat);
    }
}

proof fn method_goes_on(
    hir: HirModule,
    g: Gen,
    t: TyV,
    name: Seq<char>,
    recv: usize,
    args: Seq<HirExpr>,
    vs: Seq<usize>,
)
    ensures
        made_goes_on_if(
            g,
            builtin_method_made(hir, g, t, name, recv, args, vs),
            recv < g.ops.len() && all_below(vs, g.ops.len()),
        ),
{
    reveal(well_ordered);
    match t {
        TyV::Vec(elem) => {
            if vs.len() > 0 {
                count_goes_on(hir, g, false, *elem, vs[0]);
            }
            let g1 = runtime_call(g, "vec_get"@, seq![recv] + vs);
            count_goes_on(hir, g1, false, *elem, here(g));
        },
        _ => {},
    }
}

proof fn put_goes_on(g: Gen, op: OpV)
    ensures
        goes_on_if(g, put(g, op), refers_below(op, g.ops.len())),
        put(g, op).ops.len() == g.ops.len() + 1,
{
    reveal(well_ordered);
}

proof fn into_goes_on(g: Gen, b: usize)
    ensures
        goes_on_if(g, into_block(g, b), b < g.ops.len()),
        into_block(g, b).ops.len() == g.ops.len() + 2,
{
    reveal(well_ordered);
}

/// Three new blocks, one after the other.
proof fn three_go_on(g: Gen)
    ensures
        ({
            let g3 = put(put(put(g, OpV::Block), OpV::Block), OpV::Block);
            &&& goes_on(g, g3)
            &&& g3.ops.len() == g.ops.len() + 3
        }),
{
    reveal(well_ordered);
}

proof fn jump_goes_on(g: Gen, b: usize, v: usize)
    ensures
        goes_on_if(g, jumped(g, b, v), b < g.ops.len() && v < g.ops.len()),
{
    reveal(well_ordered);
}

proof fn merge_goes_on(g: Gen, merge: usize, wants: bool, v: Option<usize>, msg: Seq<char>)
    ensures
        code_goes_on(
            g,
            merged(g, merge, wants, v, msg),
            merge < g.ops.len() && (v is Some ==> v->0 < g.ops.len()),
        ),
{
    reveal(well_ordered);
}

proof fn merge_param_goes_on(g: Gen, merge: usize, t: TyV)
    ensures
        code_goes_on(g, merge_param(g, merge, t), merge < g.ops.len()),
        merge_param(g, merge, t) matches Ok(g1) ==> (has_value(t) ==> g1.ops.len() == g.ops.len() + 1),
{
    reveal(well_ordered);
}

proof fn past_end_goes_on(g: Gen, v: usize, inclusive: bool)
    ensures
        value_goes_on(g, Ok(past_end(g, v, inclusive)), v < g.ops.len()),
{
    reveal(well_ordered);
}

proof fn slice_ends(g: Gen, s: usize, a: usize, b: usize, inclusive: bool)
    ensures
        ({
            let (g1, c) = past_end(g, b, inclusive);
            made_goes_on_if(
                g,
                Ok((runtime_call(g1, "str_slice"@, seq![s, a, c]), Some(here(g1)))),
                s < g.ops.len() && a < g.ops.len() && b < g.ops.len(),
            )
        }),
{
    past_end_goes_on(g, b, inclusive);
    let (g1, c) = past_end(g, b, inclusive);
    let args = seq![s, a, c];
    assert(args[0] == s && args[1] == a && args[2] == c);
    put_goes_on(g1, OpV::Call(CalleeV::Runtime("str_slice"@), args));
}

proof fn for_begins(g: Gen, local: Option<SymbolId>, w: Width)
    ensures
        ({
            let (g1, counter, x) = for_begun(g, local, w);
            &&& goes_on(g, g1)
            &&& numbered(g1) ==> counter < g1.ops.len()
            &&& numbered(g1) && x is Some ==> x->0 < g1.ops.len()
        }),
{
    reveal(well_ordered);
}

proof fn range_begins(g: Gen, local: Option<SymbolId>, start: usize)
    ensures
        goes_on_if(g, range_begun(g, local, start), start < g.ops.len()),
        range_begun(g, local, start).ops.len() == g.ops.len() + 2,
{
    reveal(well_ordered);
}

proof fn element_is_bound(g: Gen, base: usize, counter: usize, w: Width, each: u32, x: Option<usize>)
    ensures
        goes_on_if(
            g,
            element_bound(g, base, counter, w, each, x),
            base < g.ops.len() && counter < g.ops.len() && (x is Some ==> x->0 < g.ops.len()),
        ),
{
    reveal(well_ordered);
}

proof fn arm_is_bound(g: Gen, ps: Seq<HirPattern>, v: usize, t: TyV)
    ensures
        code_goes_on(g, arm_bound(g, ps, v, t), v < g.ops.len()),
{
    reveal(well_ordered);
}

// ---- expressions ----

pub(crate) proof fn value_of_goes_on(env: Env, g: Gen, e: HirExpr, msg: Seq<char>)
    ensures
        value_goes_on(g, value_made(env, g, e, msg), true),
        value_goes_on(g, wanted(made(env, g, e), msg), true),
    decreases e, 3nat,
{
    reveal(well_ordered);
    expr_goes_on(env, g, e);
}

proof fn all_go_on(env: Env, g: Gen, es: Seq<HirExpr>, msg: Seq<char>, k: nat)
    ensures
        all_made(env, g, es, msg, k) matches Ok((g1, vs)) ==> {
            &&& goes_on(g, g1)
            &&& numbered(g1) && well_ordered(g) ==> all_below(vs, g1.ops.len())
        },
    decreases es, k,
{
    reveal(well_ordered);
    if k > 0 && k <= es.len() {
        all_go_on(env, g, es, msg, (k - 1) as nat);
        match all_made(env, g, es, msg, (k - 1) as nat) {
            Ok((g1, _)) => value_of_goes_on(env, g1, es[k - 1], msg),
            Err(_) => {},
        }
    }
}

#[verifier::spinoff_prover]
#[verifier::rlimit(30)]
pub(crate) proof fn expr_goes_on(env: Env, g: Gen, e: HirExpr)
    ensures
        made_goes_on(g, made(env, g, e)),
    decreases e, 2nat,
{
    reveal(well_ordered);
    match e.kind {
        HirExprKind::Lit(lit) => literal_goes_on(g, lit),
        HirExprKind::EnumVariant { discriminant } => variant_goes_on(env.hir, g, e.ty@, discriminant),
        HirExprKind::EnumPayloadCtor { .. } => payload_variant_goes_on(env, g, e),
        HirExprKind::Unary { .. } => operators_go_on(env, g, e),
        HirExprKind::Cast { .. } => operators_go_on(env, g, e),
        HirExprKind::Binary { .. } => operators_go_on(env, g, e),
        HirExprKind::Logical { .. } => logical_goes_on(env, g, e),
        HirExprKind::Assign { .. } => assign_goes_on(env, g, e),
        HirExprKind::AssignOp { .. } => assign_goes_on(env, g, e),
        HirExprKind::Call { callee, args } => all_go_on(
            env,
            g,
            args@,
            "call arg produced no value"@,
            args@.len(),
        ),
        HirExprKind::BuiltinCall { name, args } => all_go_on(
            env,
            g,
            args@,
            "builtin arg produced no value"@,
            args@.len(),
        ),
        HirExprKind::MethodCall { .. } => method_call_goes_on(env, g, e),
        HirExprKind::DynBox { .. } => box_goes_on(env, g, e),
        HirExprKind::DynCall { .. } => object_call_goes_on(env, g, e),
        HirExprKind::StructLit { .. } => struct_goes_on(env, g, e),
        HirExprKind::FieldAccess { receiver, .. } => value_of_goes_on(
            env,
            g,
            *receiver,
            "field-access receiver produced no value"@,
        ),
        HirExprKind::FieldAssign { .. } => field_assign_goes_on(env, g, e),
        HirExprKind::Array { .. } => array_goes_on(env, g, e),
        HirExprKind::Index { .. } => index_goes_on(env, g, e),
        HirExprKind::StrByteIndex { .. } => index_goes_on(env, g, e),
        HirExprKind::StrSlice { .. } => slice_goes_on(env, g, e),
        HirExprKind::For { .. } => for_goes_on(env, g, e),
        HirExprKind::ForRange { .. } => range_goes_on(env, g, e),
        HirExprKind::Block(b) => block_goes_on(env, g, b),
        HirExprKind::If { .. } => if_goes_on(env, g, e),
        HirExprKind::While { .. } => while_goes_on(env, g, e),
        HirExprKind::Match { .. } => match_goes_on(env, g, e),
        HirExprKind::Return(_) => return_goes_on(env, g, e),
        HirExprKind::Break => if g.loops.len() > 0 {
            release_goes_on(env.hir, g, g.loops.last().1 as nat, g.owned.len());
        },
        _ => {},
    }
}

#[verifier::spinoff_prover]
proof fn operators_go_on(env: Env, g: Gen, e: HirExpr)
    requires
        e.kind is Unary || e.kind is Cast || e.kind is Binary,
    ensures
        made_goes_on(g, made(env, g, e)),
    decreases e, 1nat,
{
    reveal(well_ordered);
    match e.kind {
        HirExprKind::Unary { op, expr } => {
            let msg = "unary operand produced no value"@;
            value_of_goes_on(env, g, *expr, msg);
            match value_made(env, g, *expr, msg) {
                Ok((g1, v)) => unary_goes_on(g1, op, v, e.ty@),
                Err(_) => {},
            }
        },
        HirExprKind::Cast { expr } => {
            let msg = "cast operand produced no value"@;
            value_of_goes_on(env, g, *expr, msg);
            match value_made(env, g, *expr, msg) {
                Ok((g1, v)) => conversion_goes_on(g1, v, expr.ty@, e.ty@),
                Err(_) => {},
            }
        },
        HirExprKind::Binary { op, lhs, rhs } => {
            value_of_goes_on(env, g, *lhs, "lhs produced no value"@);
            match value_made(env, g, *lhs, "lhs produced no value"@) {
                Ok((g1, l)) => {
                    value_of_goes_on(env, g1, *rhs, "rhs produced no value"@);
                    match value_made(env, g1, *rhs, "rhs produced no value"@) {
                        Ok((g2, r)) => operation_goes_on(
                            g2,
                            op,
                            l,
                            r,
                            if int_cond(op, true) is Some {
                                lhs.ty@
                            } else {
                                e.ty@
                            },
                        ),
                        Err(_) => {},
                    }
                },
                Err(_) => {},
            }
        },
        _ => {},
    }
}

#[verifier::spinoff_prover]
proof fn method_call_goes_on(env: Env, g: Gen, e: HirExpr)
    requires
        e.kind is MethodCall,
    ensures
        made_goes_on(g, made(env, g, e)),
    decreases e, 1nat,
{
    reveal(well_ordered);
    match e.kind {
        HirExprKind::MethodCall { receiver, method, args } => {
            let msg = "method receiver produced no value"@;
            value_of_goes_on(env, g, *receiver, msg);
            match value_made(env, g, *receiver, msg) {
                Ok((g1, recv)) => {
                    all_go_on(env, g1, args@, "method arg produced no value"@, args@.len());
                    match all_made(env, g1, args@, "method arg produced no value"@, args@.len()) {
                        Ok((g2, vs)) => method_goes_on(env.hir, g2, receiver.ty@, method@, recv, args@, vs),
                        Err(_) => {},
                    }
                },
                Err(_) => {},
            }
            assert(made(env, g, e) == made_method(env, g, e));
        },
        _ => {},
    }
}

#[verifier::spinoff_prover]
proof fn box_goes_on(env: Env, g: Gen, e: HirExpr)
    requires
        e.kind is DynBox,
    ensures
        made_goes_on(g, made(env, g, e)),
    decreases e, 1nat,
{
    reveal(well_ordered);
    match e.kind {
        HirExprKind::DynBox { value, struct_sym, trait_sym } => {
            let msg = "dyn coercion value produced no value"@;
            value_of_goes_on(env, g, *value, msg);
            match (value_made(env, g, *value, msg), object_methods(env.hir, trait_sym)) {
                (Ok((g0, data)), Some(names)) => {
                    keeping_goes_on(env.hir, g0, *value, data);
                    match kept(env.hir, g0, *value, data) {
                        Ok(g1) => {
                            let g2 = allocated(g1, object_size(names.len()) as i64);
                            table_goes_on(env, g2, struct_sym, names, last_op(g2), names.len());
                        },
                        Err(_) => {},
                    }
                },
                _ => {},
            }
            assert(made(env, g, e) == made_box(env, g, e));
        },
        _ => {},
    }
}

#[verifier::spinoff_prover]
proof fn object_call_goes_on(env: Env, g: Gen, e: HirExpr)
    requires
        e.kind is DynCall,
    ensures
        made_goes_on(g, made(env, g, e)),
    decreases e, 1nat,
{
    reveal(well_ordered);
    match e.kind {
        HirExprKind::DynCall { receiver, trait_sym, method, args } => {
            let msg = "dyn receiver produced no value"@;
            value_of_goes_on(env, g, *receiver, msg);
            match value_made(env, g, *receiver, msg) {
                Ok((g1, _)) => all_go_on(env, g1, args@, "dyn call arg produced no value"@, args@.len()),
                Err(_) => {},
            }
            assert(made(env, g, e) == made_object_call(env, g, e));
        },
        _ => {},
    }
}

#[verifier::spinoff_prover]
proof fn struct_goes_on(env: Env, g: Gen, e: HirExpr)
    requires
        e.kind is StructLit,
    ensures
        made_goes_on(g, made(env, g, e)),
    decreases e, 1nat,
{
    reveal(well_ordered);
    match e.kind {
        HirExprKind::StructLit { fields, size, .. } => {
            let g1 = allocated(g, size as i64);
            fields_go_on(env, g1, fields@, last_op(g1), fields@.len());
        },
        _ => {},
    }
}

#[verifier::spinoff_prover]
proof fn array_goes_on(env: Env, g: Gen, e: HirExpr)
    requires
        e.kind is Array,
    ensures
        made_goes_on(g, made(env, g, e)),
    decreases e, 1nat,
{
    reveal(well_ordered);
    match e.kind {
        HirExprKind::Array { elems, elem_ty } => match elem_bytes(elem_ty@) {
            Ok(each) => {
                let g1 = allocated(g, array_room(elems@.len(), each) as i64);
                elems_go_on(env, g1, elems@, last_op(g1), each, elems@.len());
            },
            Err(_) => {},
        },
        _ => {},
    }
}

proof fn payloads_go_on(env: Env, g: Gen, ps: Seq<HirExpr>, p: usize, k: nat)
    ensures
        code_goes_on(g, payloads_made(env, g, ps, p, k), p < g.ops.len()),
    decreases ps, k,
{
    reveal(well_ordered);
    if k > 0 && k <= ps.len() {
        let msg = "variant payload produced no value"@;
        payloads_go_on(env, g, ps, p, (k - 1) as nat);
        match payloads_made(env, g, ps, p, (k - 1) as nat) {
            Ok(g1) => {
                value_of_goes_on(env, g1, ps[k - 1], msg);
                match wanted(made(env, g1, ps[k - 1]), msg) {
                    Ok((g2, v)) => keeping_goes_on(env.hir, g2, ps[k - 1], v),
                    Err(_) => {},
                }
            },
            Err(_) => {},
        }
    }
}

proof fn payload_variant_goes_on(env: Env, g: Gen, e: HirExpr)
    ensures
        made_goes_on(g, made_variant(env, g, e)),
    decreases e, 1nat,
{
    reveal(well_ordered);
    match e.kind {
        HirExprKind::EnumPayloadCtor { enum_sym, discriminant, payloads } => {
            let size = enum_size(env.hir, enum_sym) as i64;
            tag_goes_on(g, size, discriminant);
            let p = last_op(allocated(g, size));
            payloads_go_on(env, tagged(g, size, discriminant), payloads@, p, payloads@.len());
        },
        _ => {},
    }
}

proof fn side_goes_on(env: Env, g: Gen, e: HirExpr, runs: bool, constant: i64)
    ensures
        value_goes_on(g, side_made(env, g, e, runs, constant), true),
    decreases e, 4nat,
{
    reveal(well_ordered);
    value_of_goes_on(env, g, e, "logical rhs produced no value"@);
}

proof fn logical_goes_on(env: Env, g: Gen, e: HirExpr)
    ensures
        made_goes_on(g, made_logical(env, g, e)),
    decreases e, 1nat,
{
    match e.kind {
        HirExprKind::Logical { op, lhs, rhs } => {
            let msg = "logical lhs produced no value"@;
            value_of_goes_on(env, g, *lhs, msg);
            match value_made(env, g, *lhs, msg) {
                Ok((g0, l)) => {
                    let g1 = put(g0, OpV::Block);
                    let g2 = put(g1, OpV::Block);
                    let g3 = put(g2, OpV::Block);
                    let (yes, no, merge) = (here(g0), here(g1), here(g2));
                    let g4 = put(g3, OpV::BlockParam(merge, Width::I8));
                    let g5 = into_block(put(g4, OpV::Branch(l, yes, no)), yes);
                    three_go_on(g0);
                    put_goes_on(g3, OpV::BlockParam(merge, Width::I8));
                    put_goes_on(g4, OpV::Branch(l, yes, no));
                    into_goes_on(put(g4, OpV::Branch(l, yes, no)), yes);
                    side_goes_on(env, g5, *rhs, op is And, 1);
                    match side_made(env, g5, *rhs, op is And, 1) {
                        Ok((g6, a)) => {
                            jump_goes_on(g6, merge, a);
                            into_goes_on(jumped(g6, merge, a), no);
                            let g7 = into_block(jumped(g6, merge, a), no);
                            side_goes_on(env, g7, *rhs, op is Or, 0);
                            match side_made(env, g7, *rhs, op is Or, 0) {
                                Ok((g8, b)) => {
                                    jump_goes_on(g8, merge, b);
                                    into_goes_on(jumped(g8, merge, b), merge);
                                },
                                Err(_) => {},
                            }
                        },
                        Err(_) => {},
                    }
                },
                Err(_) => {},
            }
        },
        _ => {},
    }
}

proof fn assign_goes_on(env: Env, g: Gen, e: HirExpr)
    ensures
        made_goes_on(g, made_assign(env, g, e)),
    decreases e, 1nat,
{
    reveal(well_ordered);
    match e.kind {
        HirExprKind::Assign { lhs, rhs } => {
            let msg = "assignment rhs produced no value"@;
            value_of_goes_on(env, g, *rhs, msg);
            match value_made(env, g, *rhs, msg) {
                Ok((g1, v)) => {
                    keeping_goes_on(env.hir, g1, *rhs, v);
                    match (kept(env.hir, g1, *rhs, v), lookup(g1.vars, lhs)) {
                        (Ok(g2), Some(x)) => count_goes_on(
                            env.hir,
                            put(g2, OpV::Read(x)),
                            true,
                            rhs.ty@,
                            here(g2),
                        ),
                        _ => {},
                    }
                },
                Err(_) => {},
            }
        },
        HirExprKind::AssignOp { lhs, op, rhs } => match lookup(g.vars, lhs) {
            Some(x) => {
                let msg = "compound assign rhs produced no value"@;
                let g0 = put(g, OpV::Read(x));
                value_of_goes_on(env, g0, *rhs, msg);
                match value_made(env, g0, *rhs, msg) {
                    Ok((g1, r)) => {
                        operation_goes_on(g1, op, here(g), r, rhs.ty@);
                        match operation(g1, op, here(g), r, rhs.ty@) {
                            Ok(g2) => count_goes_on(env.hir, g2, true, rhs.ty@, here(g)),
                            Err(_) => {},
                        }
                    },
                    Err(_) => {},
                }
            },
            None => {},
        },
        _ => {},
    }
}

proof fn fields_go_on(env: Env, g: Gen, fs: Seq<(u32, HirExpr)>, p: usize, k: nat)
    ensures
        code_goes_on(g, fields_made(env, g, fs, p, k), p < g.ops.len()),
    decreases fs, k,
{
    reveal(well_ordered);
    if k > 0 && k <= fs.len() {
        let msg = "struct field produced no value"@;
        fields_go_on(env, g, fs, p, (k - 1) as nat);
        assert(decreases_to!(fs => fs[k - 1]));
        match fields_made(env, g, fs, p, (k - 1) as nat) {
            Ok(g1) => {
                value_of_goes_on(env, g1, fs[k - 1].1, msg);
                match wanted(made(env, g1, fs[k - 1].1), msg) {
                    Ok((g2, v)) => keeping_goes_on(env.hir, g2, fs[k - 1].1, v),
                    Err(_) => {},
                }
            },
            Err(_) => {},
        }
    }
}

proof fn field_assign_goes_on(env: Env, g: Gen, e: HirExpr)
    ensures
        made_goes_on(g, made_field_assign(env, g, e)),
    decreases e, 1nat,
{
    reveal(well_ordered);
    match e.kind {
        HirExprKind::FieldAssign { receiver, offset, field_ty, rhs } => {
            let msg = "field-assign receiver produced no value"@;
            value_of_goes_on(env, g, *receiver, msg);
            match value_made(env, g, *receiver, msg) {
                Ok((g1, p)) => {
                    let msg2 = "field-assign rhs produced no value"@;
                    value_of_goes_on(env, g1, *rhs, msg2);
                    match (value_made(env, g1, *rhs, msg2), field_width(field_ty@)) {
                        (Ok((g2, v)), Ok(w)) => {
                            let g3 = put(g2, OpV::Load(w, p, offset as i32));
                            count_goes_on(env.hir, g3, true, field_ty@, here(g2));
                            match count_call(env.hir, g3, true, field_ty@, here(g2)) {
                                Ok(g4) => count_goes_on(env.hir, g4, false, field_ty@, v),
                                Err(_) => {},
                            }
                        },
                        _ => {},
                    }
                },
                Err(_) => {},
            }
        },
        _ => {},
    }
}

proof fn elems_go_on(env: Env, g: Gen, es: Seq<HirExpr>, p: usize, each: u32, k: nat)
    ensures
        code_goes_on(g, elems_made(env, g, es, p, each, k), p < g.ops.len()),
    decreases es, k,
{
    reveal(well_ordered);
    if k > 0 && k <= es.len() {
        let msg = "array element produced no value"@;
        elems_go_on(env, g, es, p, each, (k - 1) as nat);
        match elems_made(env, g, es, p, each, (k - 1) as nat) {
            Ok(g1) => {
                value_of_goes_on(env, g1, es[k - 1], msg);
                match wanted(made(env, g1, es[k - 1]), msg) {
                    Ok((g2, v)) => keeping_goes_on(env.hir, g2, es[k - 1], v),
                    Err(_) => {},
                }
            },
            Err(_) => {},
        }
    }
}

proof fn index_goes_on(env: Env, g: Gen, e: HirExpr)
    ensures
        made_goes_on(g, made_index(env, g, e)),
    decreases e, 1nat,
{
    reveal(well_ordered);
    match e.kind {
        HirExprKind::Index { array, index, elem_ty } => match array.ty@ {
            TyV::Array(_, n) => {
                let msg = "array operand produced no value"@;
                value_of_goes_on(env, g, *array, msg);
                match value_made(env, g, *array, msg) {
                    Ok((g1, a)) => {
                        let msg2 = "index operand produced no value"@;
                        value_of_goes_on(env, g1, *index, msg2);
                        match value_made(env, g1, *index, msg2) {
                            Ok((g2, i)) => {
                                let g3 = put(g2, OpV::Int(Width::I64, n as i64));
                                bounds_go_on(g3, i, here(g2));
                                let g4 = bounds_checked(g3, i, here(g2));
                                match (width_of(elem_ty@), elem_bytes(elem_ty@)) {
                                    (Ok(w), Ok(each)) => element_goes_on(g4, a, i, w, each),
                                    _ => {},
                                }
                            },
                            Err(_) => {},
                        }
                    },
                    Err(_) => {},
                }
            },
            _ => {},
        },
        HirExprKind::StrByteIndex { str_val, index } => {
            let msg = "str receiver produced no value"@;
            value_of_goes_on(env, g, *str_val, msg);
            match value_made(env, g, *str_val, msg) {
                Ok((g1, s)) => {
                    let msg2 = "str index produced no value"@;
                    value_of_goes_on(env, g1, *index, msg2);
                    match value_made(env, g1, *index, msg2) {
                        Ok((g2, i)) => {
                            let g3 = put(g2, OpV::Load(Width::I64, s, 0));
                            let g4 = put(g3, OpV::Load(Width::I64, s, 8));
                            bounds_go_on(g4, i, here(g3));
                        },
                        Err(_) => {},
                    }
                },
                Err(_) => {},
            }
        },
        _ => {},
    }
}

#[verifier::spinoff_prover]
proof fn slice_goes_on(env: Env, g: Gen, e: HirExpr)
    ensures
        made_goes_on(g, made_slice(env, g, e)),
    decreases e, 1nat,
{
    match e.kind {
        HirExprKind::StrSlice { str_val, start, end, inclusive } => {
            let msg = "str receiver produced no value"@;
            value_of_goes_on(env, g, *str_val, msg);
            match value_made(env, g, *str_val, msg) {
                Ok((g1, s)) => {
                    let msg2 = "slice start produced no value"@;
                    value_of_goes_on(env, g1, *start, msg2);
                    match value_made(env, g1, *start, msg2) {
                        Ok((g2, a)) => {
                            let msg3 = "slice end produced no value"@;
                            value_of_goes_on(env, g2, *end, msg3);
                            match value_made(env, g2, *end, msg3) {
                                Ok((g3, b)) => {
                                    slice_ends(g3, s, a, b, inclusive);
                                },
                                Err(_) => {},
                            }
                        },
                        Err(_) => {},
                    }
                },
                Err(_) => {},
            }
        },
        _ => {},
    }
}

pub(crate) proof fn else_goes_on(env: Env, g: Gen, e: Option<Box<HirExpr>>)
    ensures
        made_goes_on(g, else_made(env, g, e)),
    decreases e, 3nat,
{
    reveal(well_ordered);
    match e {
        Some(e) => expr_goes_on(env, g, *e),
        None => {},
    }
}

#[verifier::spinoff_prover]
proof fn if_goes_on(env: Env, g: Gen, e: HirExpr)
    ensures
        made_goes_on(g, made_if(env, g, e)),
    decreases e, 1nat,
{
    match e.kind {
        HirExprKind::If { cond, then_b, else_b } => {
            let msg = "if condition produced no value"@;
            value_of_goes_on(env, g, *cond, msg);
            match value_made(env, g, *cond, msg) {
                Ok((g0, c)) => {
                    let g1 = put(g0, OpV::Block);
                    let g2 = put(g1, OpV::Block);
                    let g3 = put(g2, OpV::Block);
                    let (yes, no, merge) = (here(g0), here(g1), here(g2));
                    three_go_on(g0);
                    merge_param_goes_on(g3, merge, e.ty@);
                    match merge_param(g3, merge, e.ty@) {
                        Ok(g4) => {
                            put_goes_on(g4, OpV::Branch(c, yes, no));
                            into_goes_on(put(g4, OpV::Branch(c, yes, no)), yes);
                            let begin = into_block(put(g4, OpV::Branch(c, yes, no)), yes);
                            block_goes_on(env, begin, then_b);
                            match made_block(env, begin, then_b) {
                                Ok((g5, a)) => {
                                    let wants = has_value(e.ty@);
                                    let msg1 = "if-then branch produced no value"@;
                                    merge_goes_on(g5, merge, wants, a, msg1);
                                    match merged(g5, merge, wants, a, msg1) {
                                        Ok(g6) => {
                                            into_goes_on(g6, no);
                                            else_goes_on(env, into_block(g6, no), else_b);
                                            match else_made(env, into_block(g6, no), else_b) {
                                                Ok((g7, b)) => {
                                                    let msg2 = "if-else branch produced no value"@;
                                                    merge_goes_on(g7, merge, wants, b, msg2);
                                                    match merged(g7, merge, wants, b, msg2) {
                                                        Ok(g8) => into_goes_on(g8, merge),
                                                        Err(_) => {},
                                                    }
                                                },
                                                Err(_) => {},
                                            }
                                        },
                                        Err(_) => {},
                                    }
                                },
                                Err(_) => {},
                            }
                        },
                        Err(_) => {},
                    }
                },
                Err(_) => {},
            }
        },
        _ => {},
    }
}

/// Around a loop's body: what the body adds, the loop's own end takes off
/// again.
proof fn loop_goes_on(before: Gen, inside: Gen, after: Gen, header: usize, exit: usize)
    requires
        inside.owned == before.owned,
        grows(before, Gen { loops: before.loops, ..inside }),
        inside.loops == before.loops.push((exit, before.owned.len() as usize)),
        after.owned == inside.owned,
        grows(inside, after),
    ensures
        goes_on_if(
            before,
            loop_closed(after, header, exit),
            header < before.ops.len() && exit < before.ops.len() && (numbered(after) && well_ordered(before)
                ==> well_ordered(after)),
        ),
{
    reveal(well_ordered);
    assert(after.loops.drop_last() =~= before.loops);
}

#[verifier::spinoff_prover]
proof fn while_goes_on(env: Env, g: Gen, e: HirExpr)
    ensures
        made_goes_on(g, made_while(env, g, e)),
    decreases e, 1nat,
{
    reveal(well_ordered);
    match e.kind {
        HirExprKind::While { cond, body } => {
            let msg = "while condition produced no value"@;
            let g1 = put(g, OpV::Block);
            let g2 = put(g1, OpV::Block);
            let g3 = put(g2, OpV::Block);
            let (header, inside, exit) = (here(g), here(g1), here(g2));
            let g4 = put(put(g3, OpV::Jump(header, seq![])), OpV::Switch(header));
            value_of_goes_on(env, g4, *cond, msg);
            match value_made(env, g4, *cond, msg) {
                Ok((g5, c)) => {
                    let g6 = in_loop(into_block(put(g5, OpV::Branch(c, inside, exit)), inside), exit);
                    block_goes_on(env, g6, body);
                    match made_block(env, g6, body) {
                        Ok((g7, _)) => {
                            let g8 = if g7.filled {
                                g7
                            } else {
                                put(g7, OpV::Jump(header, seq![]))
                            };
                            loop_goes_on(g5, g6, g8, header, exit);
                        },
                        Err(_) => {},
                    }
                },
                Err(_) => {},
            }
        },
        _ => {},
    }
}

proof fn counting_goes_on(
    g: Gen,
    counter: usize,
    limit: Option<i64>,
    end: usize,
    header: usize,
    inside: usize,
    exit: usize,
)
    ensures
        counting(g, counter, limit, end, header, inside, exit).owned == g.owned,
        grows(g, Gen { loops: g.loops, ..counting(g, counter, limit, end, header, inside, exit) }),
        counter < g.ops.len() && (limit is None ==> end < g.ops.len()) && header < g.ops.len() && inside
            < g.ops.len() && exit < g.ops.len() && numbered(
            counting(g, counter, limit, end, header, inside, exit),
        ) && well_ordered(g) ==> well_ordered(counting(g, counter, limit, end, header, inside, exit)),
        counting(g, counter, limit, end, header, inside, exit).loops == g.loops.push(
            (exit, g.owned.len() as usize),
        ),
{
    reveal(well_ordered);
}

#[verifier::spinoff_prover]
proof fn for_goes_on(env: Env, g: Gen, e: HirExpr)
    ensures
        made_goes_on(g, made_for(env, g, e)),
    decreases e, 1nat,
{
    match e.kind {
        HirExprKind::For { local, iter, body, elem_ty, length } => {
            let msg = "for-loop iterator produced no value"@;
            value_of_goes_on(env, g, *iter, msg);
            match (value_made(env, g, *iter, msg), width_of(elem_ty@), elem_bytes(elem_ty@)) {
                (Ok((g0, base)), Ok(w), Ok(each)) => {
                    let (g1, counter, x) = for_begun(g0, local, w);
                    for_begins(g0, local, w);
                    let g2 = put(g1, OpV::Block);
                    let g3 = put(g2, OpV::Block);
                    let g4 = put(g3, OpV::Block);
                    let (header, inside, exit) = (here(g1), here(g2), here(g3));
                    three_go_on(g1);
                    counting_goes_on(g4, counter, Some(length as i64), 0, header, inside, exit);
                    let g5 = counting(g4, counter, Some(length as i64), 0, header, inside, exit);
                    element_is_bound(g5, base, counter, w, each, x);
                    let g6 = element_bound(g5, base, counter, w, each, x);
                    block_goes_on(env, g6, body);
                    match made_block(env, g6, body) {
                        Ok((g7, _)) => {
                            step_goes_on(g7, counter, header);
                            loop_goes_on(g4, g5, stepped(g7, counter, header), header, exit);
                        },
                        Err(_) => {},
                    }
                },
                _ => {},
            }
        },
        _ => {},
    }
}

#[verifier::spinoff_prover]
proof fn range_goes_on(env: Env, g: Gen, e: HirExpr)
    ensures
        made_goes_on(g, made_for_range(env, g, e)),
    decreases e, 1nat,
{
    match e.kind {
        HirExprKind::ForRange { local, start, end, inclusive, body } => {
            let msg = "range start produced no value"@;
            value_of_goes_on(env, g, *start, msg);
            match value_made(env, g, *start, msg) {
                Ok((ga, a)) => {
                    let msg2 = "range end produced no value"@;
                    value_of_goes_on(env, ga, *end, msg2);
                    match value_made(env, ga, *end, msg2) {
                        Ok((gb, b)) => {
                            let (g0, limit) = past_end(gb, b, inclusive);
                            let counter = here(g0);
                            let g1 = range_begun(g0, local, a);
                            past_end_goes_on(gb, b, inclusive);
                            range_begins(g0, local, a);
                            three_go_on(g1);
                            let g2 = put(g1, OpV::Block);
                            let g3 = put(g2, OpV::Block);
                            let g4 = put(g3, OpV::Block);
                            let (header, inside, exit) = (here(g1), here(g2), here(g3));
                            counting_goes_on(g4, counter, None, limit, header, inside, exit);
                            let g5 = counting(g4, counter, None, limit, header, inside, exit);
                            block_goes_on(env, g5, body);
                            match made_block(env, g5, body) {
                                Ok((g6, _)) => {
                                    step_goes_on(g6, counter, header);
                                    loop_goes_on(g4, g5, stepped(g6, counter, header), header, exit);
                                },
                                Err(_) => {},
                            }
                        },
                        Err(_) => {},
                    }
                },
                Err(_) => {},
            }
        },
        _ => {},
    }
}

proof fn guard_goes_on(env: Env, g: Gen, guard: Option<HirExpr>, next: usize)
    ensures
        code_goes_on(g, guard_made(env, g, guard, next), next < g.ops.len()),
    decreases guard, 3nat,
{
    reveal(well_ordered);
    match guard {
        Some(e) => value_of_goes_on(env, g, e, "match guard produced no value"@),
        None => {},
    }
}

proof fn arms_go_on(
    env: Env,
    g: Gen,
    arms: Seq<HirMatchArm>,
    v: usize,
    t: TyV,
    blocks: Seq<usize>,
    merge: usize,
    wants: bool,
    k: nat,
)
    ensures
        code_goes_on(
            g,
            arms_made(env, g, arms, v, t, blocks, merge, wants, k),
            v < g.ops.len() && merge < g.ops.len() && blocks.len() > arms.len() && all_below(blocks, g.ops.len()),
        ),
    decreases arms, k,
{
    reveal(well_ordered);
    if k > 0 && k <= arms.len() {
        arms_go_on(env, g, arms, v, t, blocks, merge, wants, (k - 1) as nat);
        match arms_made(env, g, arms, v, t, blocks, merge, wants, (k - 1) as nat) {
            Ok(g1) => arm_goes_on(
                env,
                g1,
                arms[k - 1],
                v,
                t,
                blocks[k - 1],
                blocks[k as int],
                merge,
                wants,
            ),
            Err(_) => {},
        }
    }
}

#[verifier::spinoff_prover]
proof fn arm_goes_on(
    env: Env,
    g: Gen,
    arm: HirMatchArm,
    v: usize,
    t: TyV,
    block: usize,
    next: usize,
    merge: usize,
    wants: bool,
)
    ensures
        code_goes_on(
            g,
            arm_made(env, g, arm, v, t, block, next, merge, wants),
            v < g.ops.len() && block < g.ops.len() && next < g.ops.len() && merge < g.ops.len(),
        ),
    decreases arm, 1nat,
{
    let body = here(g);
    let g1 = into_block(put(g, OpV::Block), block);
    put_goes_on(g, OpV::Block);
    into_goes_on(put(g, OpV::Block), block);
    alternatives_go_on(env.hir, g1, arm.patterns@, v, t, body, next, arm.patterns@.len());
    match alternatives_checked(env.hir, g1, arm.patterns@, v, t, body, next, arm.patterns@.len()) {
        Ok(g2) => {
            into_goes_on(g2, body);
            arm_is_bound(into_block(g2, body), arm.patterns@, v, t);
            match arm_bound(into_block(g2, body), arm.patterns@, v, t) {
                Ok(g3) => {
                    guard_goes_on(env, g3, arm.guard, next);
                    match guard_made(env, g3, arm.guard, next) {
                        Ok(g4) => {
                            expr_goes_on(env, g4, arm.body);
                            match made(env, g4, arm.body) {
                                Ok((g5, r)) => {
                                    put_goes_on(g5, OpV::Trap(2));
                                    merge_goes_on(g5, merge, wants, r, "match arm produced no value"@);
                                },
                                Err(_) => {},
                            }
                        },
                        Err(_) => {},
                    }
                },
                Err(_) => {},
            }
        },
        Err(_) => {},
    }
}

#[verifier::spinoff_prover]
proof fn match_goes_on(env: Env, g: Gen, e: HirExpr)
    ensures
        made_goes_on(g, made_match(env, g, e)),
    decreases e, 1nat,
{
    reveal(well_ordered);
    match e.kind {
        HirExprKind::Match { scrutinee, arms } => {
            let msg = "match scrutinee produced no value"@;
            value_of_goes_on(env, g, *scrutinee, msg);
            match value_made(env, g, *scrutinee, msg) {
                Ok((g0, v)) => {
                    let merge = here(g0);
                    let g1 = put(g0, OpV::Block);
                    let wants = has_value(e.ty@);
                    match merge_param(g1, merge, e.ty@) {
                        Ok(g2) => {
                            blocks_go_on(g2, arms@.len() + 1);
                            let (g3, blocks) = new_blocks(g2, arms@.len() + 1);
                            let begin = put(g3, OpV::Jump(blocks[0], seq![]));
                            assert(goes_on(g0, begin));
                            arms_go_on(
                                env,
                                begin,
                                arms@,
                                v,
                                scrutinee.ty@,
                                blocks,
                                merge,
                                wants,
                                arms@.len(),
                            );
                        },
                        Err(_) => {},
                    }
                },
                Err(_) => {},
            }
        },
        _ => {},
    }
}

proof fn return_goes_on(env: Env, g: Gen, e: HirExpr)
    ensures
        made_goes_on(g, made_return(env, g, e)),
    decreases e, 1nat,
{
    reveal(well_ordered);
    match e.kind {
        HirExprKind::Return(value) => match value {
            Some(x) => {
                let msg = "return value produced no value"@;
                value_of_goes_on(env, g, *x, msg);
                match value_made(env, g, *x, msg) {
                    Ok((g1, v)) => {
                        keeping_goes_on(env.hir, g1, *x, v);
                        match kept(env.hir, g1, *x, v) {
                            Ok(g2) => release_goes_on(env.hir, g2, 0, g2.owned.len()),
                            Err(_) => {},
                        }
                    },
                    Err(_) => {},
                }
            },
            None => release_goes_on(env.hir, g, 0, g.owned.len()),
        },
        _ => {},
    }
}

// ---- statements and blocks ----

proof fn let_goes_on(env: Env, g: Gen, l: HirLet)
    ensures
        let_made(env, g, l) matches Ok(g1) ==> goes_on_owning(g, g1),
    decreases l, 1nat,
{
    reveal(well_ordered);
    match width_of(l.ty@) {
        Ok(w) => {
            let g1 = put(g, OpV::Var(w));
            match l.init {
                Some(e) => {
                    let msg = "let initializer produced no value"@;
                    value_of_goes_on(env, g1, e, msg);
                    match wanted(made(env, g1, e), msg) {
                        Ok((g2, v)) => count_goes_on(env.hir, g2, false, l.ty@, v),
                        Err(_) => {},
                    }
                },
                None => {},
            }
            match let_made(env, g, l) {
                Ok(g2) => {
                    assert(g2.owned.take(g.owned.len() as int) =~= g.owned);
                },
                Err(_) => {},
            }
        },
        Err(_) => {},
    }
}

pub(crate) proof fn stmts_go_on(env: Env, g: Gen, ss: Seq<HirStmt>, k: nat)
    ensures
        stmts_made(env, g, ss, k) matches Ok((g1, v, _)) ==> {
            &&& goes_on_owning(g, g1)
            &&& numbered(g1) && well_ordered(g) && v is Some ==> v->0 < g1.ops.len()
        },
    decreases ss, k,
{
    reveal(well_ordered);
    if k > 0 && k <= ss.len() {
        stmts_go_on(env, g, ss, (k - 1) as nat);
        match stmts_made(env, g, ss, (k - 1) as nat) {
            Ok((g1, _, _)) => {
                stmt_goes_on(env, g1, ss[k - 1]);
                match stmt_made(env, g1, ss[k - 1]) {
                    Ok((g2, _)) => {
                        assert(g2.owned.take(g.owned.len() as int) =~= g2.owned.take(g1.owned.len() as int).take(
                            g.owned.len() as int,
                        ));
                    },
                    Err(_) => {},
                }
            },
            Err(_) => {},
        }
    } else {
        assert(g.owned.take(g.owned.len() as int) =~= g.owned);
    }
}

pub(crate) proof fn stmt_goes_on(env: Env, g: Gen, s: HirStmt)
    ensures
        stmt_made(env, g, s) matches Ok((g1, v)) ==> {
            &&& goes_on_owning(g, g1)
            &&& numbered(g1) && well_ordered(g) && v is Some ==> v->0 < g1.ops.len()
        },
    decreases s, 1nat,
{
    reveal(well_ordered);
    match s {
        HirStmt::Let(l) => let_goes_on(env, g, l),
        HirStmt::Expr(e, _) => {
            expr_goes_on(env, g, e);
            assert(g.owned.take(g.owned.len() as int) =~= g.owned);
        },
    }
}

pub(crate) proof fn block_goes_on(env: Env, g: Gen, b: HirBlock)
    ensures
        made_goes_on(g, made_block(env, g, b)),
    decreases b, 1nat,
{
    reveal(well_ordered);
    stmts_go_on(env, g, b.stmts@, b.stmts@.len());
    match stmts_made(env, g, b.stmts@, b.stmts@.len()) {
        Ok((g1, v, _)) => {
            match (v, tail_held(env.hir, b.stmts@)) {
                (Some(v), Some(t)) => {
                    count_goes_on(env.hir, g1, false, t, v);
                    match count_call(env.hir, g1, false, t, v) {
                        Ok(g2) => release_goes_on(env.hir, g2, g.owned.len(), g2.owned.len()),
                        Err(_) => {},
                    }
                },
                _ => release_goes_on(env.hir, g1, g.owned.len(), g1.owned.len()),
            }
        },
        Err(_) => {},
    }
}

// ---- release functions ----

proof fn field_release_goes_on(hir: HirModule, g: Gen, t: TyV, v: usize)
    ensures
        code_goes_on(g, field_released(hir, g, t, v), v < g.ops.len()),
{
    reveal(well_ordered);
}

proof fn fields_release_go_on(hir: HirModule, g: Gen, p: usize, fs: Seq<(u32, Ty)>, k: nat)
    ensures
        code_goes_on(g, fields_released(hir, g, p, fs, k), p < g.ops.len()),
    decreases k,
{
    if k > 0 && k <= fs.len() {
        fields_release_go_on(hir, g, p, fs, (k - 1) as nat);
        match (fields_released(hir, g, p, fs, (k - 1) as nat), width_of(fs[k - 1].1@)) {
            (Ok(g1), Ok(w)) => {
                let g2 = put(g1, OpV::Load(w, p, fs[k - 1].0 as i32));
                put_goes_on(g1, OpV::Load(w, p, fs[k - 1].0 as i32));
                field_release_goes_on(hir, g2, fs[k - 1].1@, here(g1));
            },
            _ => {},
        }
    }
}

proof fn narrowing_goes_on(g: Gen, v: usize, w: Width)
    ensures
        value_goes_on(g, Ok(narrowed(g, v, w)), v < g.ops.len()),
{
    reveal(well_ordered);
}

proof fn payloads_release_go_on(hir: HirModule, g: Gen, p: usize, ts: Seq<Ty>, k: nat)
    ensures
        code_goes_on(g, payloads_released(hir, g, p, ts, k), p < g.ops.len()),
    decreases k,
{
    if k > 0 && k <= ts.len() {
        payloads_release_go_on(hir, g, p, ts, (k - 1) as nat);
        match (payloads_released(hir, g, p, ts, (k - 1) as nat), width_of(ts[k - 1]@)) {
            (Ok(g1), Ok(w)) => {
                let g2 = put(g1, OpV::Load(Width::I64, p, words(k)));
                put_goes_on(g1, OpV::Load(Width::I64, p, words(k)));
                narrowing_goes_on(g2, here(g1), w);
                let (g3, v) = narrowed(g2, here(g1), w);
                field_release_goes_on(hir, g3, ts[k - 1]@, v);
            },
            _ => {},
        }
    }
}

/// The test of a tag, and the block of the variant at hand.
proof fn variant_begins(g: Gen, tag: usize, n: i64)
    ensures
        ({
            let g2 = put(g, OpV::Int(Width::I64, n));
            let g3 = put(g2, OpV::Compare(Cond::Equal, tag, here(g)));
            let g4 = put(g3, OpV::Block);
            let g5 = put(g4, OpV::Block);
            let g6 = into_block(put(g5, OpV::Branch(here(g2), here(g3), here(g4))), here(g3));
            &&& goes_on_if(g, g6, tag < g.ops.len())
            &&& g6.ops.len() == g.ops.len() + 7
        }),
{
    reveal(well_ordered);
}

proof fn variants_release_go_on(
    hir: HirModule,
    g: Gen,
    p: usize,
    tag: usize,
    dealloc: usize,
    vs: Seq<Vec<Ty>>,
    k: nat,
)
    ensures
        code_goes_on(
            g,
            variants_released(hir, g, p, tag, dealloc, vs, k),
            p < g.ops.len() && tag < g.ops.len() && dealloc < g.ops.len(),
        ),
    decreases k,
{
    if k > 0 && k <= vs.len() {
        variants_release_go_on(hir, g, p, tag, dealloc, vs, (k - 1) as nat);
        match variants_released(hir, g, p, tag, dealloc, vs, (k - 1) as nat) {
            Ok(g1) => {
                let n = ((k - 1) as usize) as i64;
                let g2 = put(g1, OpV::Int(Width::I64, n));
                let g3 = put(g2, OpV::Compare(Cond::Equal, tag, here(g1)));
                let g4 = put(g3, OpV::Block);
                let g5 = put(g4, OpV::Block);
                let (this, next) = (here(g3), here(g4));
                let g6 = into_block(put(g5, OpV::Branch(here(g2), this, next)), this);
                variant_begins(g1, tag, n);
                payloads_release_go_on(hir, g6, p, vs[k - 1]@, vs[k - 1]@.len());
                match payloads_released(hir, g6, p, vs[k - 1]@, vs[k - 1]@.len()) {
                    Ok(g7) => {
                        put_goes_on(g7, OpV::Jump(dealloc, seq![]));
                        into_goes_on(put(g7, OpV::Jump(dealloc, seq![])), next);
                    },
                    Err(_) => {},
                }
            },
            Err(_) => {},
        }
    }
}

proof fn freeing_goes_on(g: Gen, p: usize, size: i64, done: usize)
    ensures
        goes_on_if(g, freed(g, p, size, done), p < g.ops.len() && done < g.ops.len()),
{
    reveal(well_ordered);
}

// ---- laws ----

/// Code in which each operation refers only to earlier ones.
pub open spec fn refers_back(ops: Seq<OpV>) -> bool {
    forall|i: int| 0 <= i < ops.len() ==> refers_below(#[trigger] ops[i], i as nat)
}

/// A function's code refers at each point only to what was made before it, as
/// long as its positions can be numbered.
pub proof fn functions_refer_back(env: Env, texts: u32, f: HirFn)
    ensures
        fn_made(env, texts, f) matches Ok(g) ==> (numbered(g) ==> refers_back(g.ops)),
{
    reveal(well_ordered);
    let g0 = begun(texts);
    assert(well_ordered(g0));
    params_own_nothing(g0, f.params@, f.params@.len());
    match params_made(g0, f.params@, f.params@.len()) {
        Ok(g) => {
            block_goes_on(env, g, f.body);
            match made_block(env, g, f.body) {
                Ok((g1, v)) => {
                    match fn_closed(g1, f, v) {
                        Ok(g2) => {
                            if numbered(g2) {
                                assert(well_ordered(g1));
                                assert(well_ordered(g2));
                            }
                        },
                        Err(_) => {},
                    }
                },
                Err(_) => {},
            }
        },
        Err(_) => {},
    }
}

/// So does the release function of a struct.
pub proof fn struct_releases_refer_back(hir: HirModule, s: SymbolId)
    ensures
        struct_release(hir, s) matches Ok(g) ==> (numbered(g) ==> refers_back(g.ops)),
{
    reveal(well_ordered);
    let size = struct_size(hir, s);
    let g0 = release_begun();
    let p = last_op(g0);
    let g1 = put(g0, OpV::Load(Width::I64, p, size as i32));
    let g2 = put(g1, OpV::Int(Width::I64, 1));
    let g3 = put(g2, OpV::Arith(Arith::Sub, here(g0), here(g1)));
    let g4 = put(g3, OpV::Store(here(g2), p, size as i32));
    let g5 = put(g4, OpV::Int(Width::I64, 0));
    let g6 = put(g5, OpV::Compare(Cond::SGreater, here(g2), here(g4)));
    let g7 = put(g6, OpV::Block);
    let g8 = put(g7, OpV::Block);
    let (free, done) = (here(g6), here(g7));
    let g9 = into_block(put(g8, OpV::Branch(here(g5), done, free)), free);
    assert(well_ordered(g9));
    let fs = arc_fields(hir, s);
    fields_release_go_on(hir, g9, p, fs, fs.len());
    match fields_released(hir, g9, p, fs, fs.len()) {
        Ok(g10) => freeing_goes_on(g10, p, size as i64, done),
        Err(_) => {},
    }
}

/// So does the release function of an enum.
pub proof fn enum_releases_refer_back(hir: HirModule, s: SymbolId)
    ensures
        enum_release(hir, s) matches Ok(g) ==> (numbered(g) ==> refers_back(g.ops)),
{
    reveal(well_ordered);
    let size = enum_size(hir, s);
    let g0 = release_begun();
    let p = last_op(g0);
    let g1 = put(g0, OpV::Load(Width::I64, p, size));
    let rc = here(g0);
    let g2 = put(g1, OpV::Int(Width::I64, -1i64));
    let g3 = put(g2, OpV::Compare(Cond::Equal, rc, here(g1)));
    let g4 = put(g3, OpV::Block);
    let g5 = put(g4, OpV::Block);
    let (lower, done) = (here(g3), here(g4));
    let g6 = into_block(put(g5, OpV::Branch(here(g2), done, lower)), lower);
    let g7 = put(g6, OpV::Int(Width::I64, 1));
    let g8 = put(g7, OpV::Arith(Arith::Sub, rc, here(g6)));
    let g9 = put(g8, OpV::Store(here(g7), p, size));
    let g10 = put(g9, OpV::Int(Width::I64, 0));
    let g11 = put(g10, OpV::Compare(Cond::SGreater, here(g7), here(g9)));
    let g12 = put(g11, OpV::Block);
    let free = here(g11);
    let g13 = into_block(put(g12, OpV::Branch(here(g10), done, free)), free);
    let g14 = put(g13, OpV::Load(Width::I64, p, 0));
    let tag = here(g13);
    let g15 = put(g14, OpV::Block);
    let dealloc = here(g14);
    assert(well_ordered(g6));
    assert(well_ordered(g15));
    let vs = variants_of(hir, s);
    variants_release_go_on(hir, g15, p, tag, dealloc, vs, vs.len());
    match variants_released(hir, g15, p, tag, dealloc, vs, vs.len()) {
        Ok(g16) => {
            let g17 = put(g16, OpV::Jump(dealloc, seq![]));
            put_goes_on(g16, OpV::Jump(dealloc, seq![]));
            into_goes_on(g17, dealloc);
            freeing_goes_on(into_block(g17, dealloc), p, size as i64, done);
        },
        Err(_) => {},
    }
}

/// So does the release function of a vector.
#[verifier::spinoff_prover]
pub proof fn vec_releases_refer_back(hir: HirModule, elem: TyV)
    ensures
        vec_release(hir, elem) matches Ok(g) ==> (numbered(g) ==> refers_back(g.ops)),
{
    reveal(well_ordered);
    let g0 = begun(0);
    let g1 = put(g0, OpV::Block);
    let g2 = put(g1, OpV::Block);
    let g3 = put(g2, OpV::Block);
    let g4 = put(g3, OpV::Block);
    let g5 = put(g4, OpV::Block);
    let (walk, header, body, finish, done) = (here(g0), here(g1), here(g2), here(g3), here(g4));
    let (g6, p, i) = walk_begun(g5, walk, header, finish, done);
    assert(well_ordered(g5));
    assert(well_ordered(g6));
    let g7 = walked(g6, p, i, body, finish);
    assert(well_ordered(g7));
    field_release_goes_on(hir, g7, elem, last_op(g7));
    match field_released(hir, g7, elem, last_op(g7)) {
        Ok(g8) => walk_end_goes_on(g8, p, i, header, finish, done),
        Err(_) => {},
    }
}

proof fn array_elems_release_goes_on(hir: HirModule, g: Gen, p: usize, elem: TyV, w: Width, each: u32, n: usize)
    ensures
        code_goes_on(g, array_elems_released(hir, g, p, elem, w, each, n), p < g.ops.len()),
{
    let (g1, counter, _) = for_begun(g, None, w);
    for_begins(g, None, w);
    let g2 = put(g1, OpV::Block);
    let g3 = put(g2, OpV::Block);
    let g4 = put(g3, OpV::Block);
    let (header, inside, exit) = (here(g1), here(g2), here(g3));
    three_go_on(g1);
    counting_goes_on(g4, counter, Some(n as i64), 0, header, inside, exit);
    let g5 = counting(g4, counter, Some(n as i64), 0, header, inside, exit);
    element_is_bound(g5, p, counter, w, each, None);
    let g6 = element_bound(g5, p, counter, w, each, None);
    field_release_goes_on(hir, g6, elem, last_op(g6));
    match field_released(hir, g6, elem, last_op(g6)) {
        Ok(g7) => {
            step_goes_on(g7, counter, header);
            loop_goes_on(g4, g5, stepped(g7, counter, header), header, exit);
        },
        Err(_) => {},
    }
}

/// So does the release function of an array.
#[verifier::spinoff_prover]
pub proof fn array_releases_refer_back(hir: HirModule, elem: TyV, n: usize)
    ensures
        array_release(hir, elem, n) matches Ok(g) ==> (numbered(g) ==> refers_back(g.ops)),
{
    reveal(well_ordered);
    match (width_of(elem), elem_bytes(elem)) {
        (Ok(w), Ok(each)) => {
            let size = array_room(n as nat, each);
            let (g, p, done) = last_one(size);
            assert(well_ordered(g));
            assert(p < g.ops.len() && done < g.ops.len());
            if is_counted(hir, elem) {
                array_elems_release_goes_on(hir, g, p, elem, w, each, n);
                match array_elems_released(hir, g, p, elem, w, each, n) {
                    Ok(g1) => freeing_goes_on(g1, p, size as i64, done),
                    Err(_) => {},
                }
            } else {
                freeing_goes_on(g, p, size as i64, done);
            }
        },
        _ => {},
    }
}

/// So does the release function of a trait's objects.
#[verifier::spinoff_prover]
pub proof fn object_releases_refer_back(hir: HirModule, t: SymbolId)
    ensures
        object_release(hir, t) matches Ok(g) ==> (numbered(g) ==> refers_back(g.ops)),
{
    reveal(well_ordered);
    match object_methods(hir, t) {
        Some(names) => {
            let size = object_size(names.len());
            let (g, p, done) = last_one(size);
            assert(well_ordered(g));
            assert(p < g.ops.len() && done < g.ops.len());
            let g1 = put(g, OpV::Load(Width::I64, p, words(names.len())));
            let g2 = put(g1, OpV::Load(Width::I64, p, words(names.len() + 1)));
            let g3 = put(g2, OpV::CallIndirect(seq![Width::I64], None, here(g1), seq![here(g)]));
            if numbered(g3) {
                assert(well_ordered(g3));
            }
            freeing_goes_on(g3, p, size as i64, done);
        },
        None => {},
    }
}

proof fn walk_end_goes_on(g: Gen, p: usize, i: usize, header: usize, finish: usize, done: usize)
    ensures
        goes_on_if(
            g,
            walk_ended(g, p, i, header, finish, done),
            p < g.ops.len() && i < g.ops.len() && header < g.ops.len() && finish < g.ops.len() && done
                < g.ops.len(),
        ),
{
    reveal(well_ordered);
}

/// So does the entry of an executable.
pub proof fn the_entry_refers_back(rune_main: SymbolId)
    ensures
        refers_back(main_wrapper(rune_main)),
{
}

/// The code of an expression is added at the end: nothing before it changes.
/// After it the same locals own a reference as before, and the same loops are
/// around, whatever the expression declares, leaves or returns from.
pub proof fn expressions_keep_what_is_owned(env: Env, g: Gen, e: HirExpr)
    ensures
        made(env, g, e) matches Ok((after, _)) ==> {
            &&& after.owned == g.owned
            &&& after.loops == g.loops
            &&& g.ops.is_prefix_of(after.ops)
        },
{
    reveal(well_ordered);
    expr_goes_on(env, g, e);
    match made(env, g, e) {
        Ok((after, _)) => {
            assert(after.ops.subrange(0, g.ops.len() as int) =~= g.ops);
        },
        Err(_) => {},
    }
}

/// A block forgets every owning local that it declared and no other one.
pub proof fn blocks_keep_what_is_owned(env: Env, g: Gen, b: HirBlock)
    ensures
        made_block(env, g, b) matches Ok((after, _)) ==> {
            &&& after.owned == g.owned
            &&& after.loops == g.loops
            &&& g.ops.is_prefix_of(after.ops)
        },
{
    reveal(well_ordered);
    block_goes_on(env, g, b);
    match made_block(env, g, b) {
        Ok((after, _)) => {
            assert(after.ops.subrange(0, g.ops.len() as int) =~= g.ops);
        },
        Err(_) => {},
    }
}

/// When a function's code is done no local owns a reference and no loop is
/// open: each one was released where its block ended.
pub proof fn functions_end_owning_nothing(env: Env, texts: u32, f: HirFn)
    ensures
        fn_made(env, texts, f) matches Ok(g) ==> g.owned.len() == 0 && g.loops.len() == 0,
{
    reveal(well_ordered);
    params_own_nothing(begun(texts), f.params@, f.params@.len());
    match params_made(begun(texts), f.params@, f.params@.len()) {
        Ok(g) => block_goes_on(env, g, f.body),
        Err(_) => {},
    }
}

proof fn params_own_nothing(g: Gen, ps: Seq<HirParam>, k: nat)
    ensures
        code_goes_on(g, params_made(g, ps, k), true),
    decreases k,
{
    reveal(well_ordered);
    if k > 0 && k <= ps.len() {
        params_own_nothing(g, ps, (k - 1) as nat);
    }
}

} // verus!
