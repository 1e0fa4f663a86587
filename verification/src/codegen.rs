//! Code generation.

use vstd::prelude::*;

use crate::checker::{opt_ty, position_of};
use crate::code::{
    Arith, Callee, CodegenError, Cond, Conversion, Emitter, FloatCond, Gen, Negation, Op, OpV,
    Width, here, op_views, put,
};
use crate::graph::contains_sym;
use crate::hir::{
    HirBinOp, HirBlock, HirExpr, HirExprKind, HirFn, HirItem, HirLet, HirLit, HirMatchArm,
    HirModule, HirParam, HirPattern, HirStmt, HirUnOp, LogicalOp,
};
use crate::rules::{
    Env, FnCodeV, ModuleCodeV, ReleaseV, RuntimeSig, after_jump, all_made, allocated,
    alternatives_checked, any_counted, arc_fields, arm_bound, arm_made, arms_made,
    array_elems_released, array_position, array_release, array_release_call, array_room,
    arrays_made, begun, bounds_checked, builtin_method_made, code_args, code_text,
    code_texts_from, converted, count_call, counted_text, counted_up, counter_of, counting,
    declared_sigs, elem_bytes, elem_is, elem_offset, elem_position, element, element_bound,
    elems_made, else_made, enum_release, enum_size, enums_made, extends_sign, field_released,
    field_swapped, field_width, fields_made, fields_released, float_cond, float_op, fn_closed,
    fn_code, fn_sig_of, fns_made, for_begun, freed, guard_made, has_value, helper_call, int_cond,
    int_op, int_width, into_block, is_counted, is_held, is_signed_ty, jumped, kept, last_one,
    last_op, let_bound, let_made, literal, loop_closed, made, made_assign, made_block, made_box,
    made_field_assign, made_for, made_for_range, made_if, made_index, made_logical, made_match,
    made_method, made_object_call, made_return, made_slice, made_variant, made_while,
    main_wrapper, max_arity, merge_param, merged, module_made, most, narrowed, new_blocks,
    no_counter, object_call, object_count_call, object_methods, object_release, object_size,
    objects_made, old_released, param_widths, params_made, past_end, pattern_checked,
    payload_bound, payloads_bound, payloads_made, payloads_released, range_begun, release_begun,
    released, runtime_call, runtime_sig, scope_closed, side_made, sigs_so_far, stepped,
    stmt_made, stmts_made, struct_release, struct_size, structs_made, swapped, table_made,
    tagged, tail_held, text_literal, unit_variant, value_made, value_of_operation,
    value_of_unary, variants_of, variants_released, vec_method_made, vec_release, vecs_made,
    walk_begun, walk_ended, walked, widened, width_bytes, width_of, widths_of, words,
};
use crate::search::{first_where, found_stays};
use crate::table::{Table, lookup};
use crate::text::{cat2, cat3, cat4, cat5, chars_of, number, same_text, texts};
use crate::ty::{FloatTy, IntTy, SymbolId, Ty, TyV, ty_views};

verus! {

/// Whether a result is what the rules say, with the code as they leave it.
pub open spec fn gave<T>(want: Result<(Gen, T), Seq<char>>, r: Result<T, CodegenError>, g: Gen) -> bool {
    match r {
        Ok(v) => want == Ok::<(Gen, T), Seq<char>>((g, v)),
        Err(e) => want == Err::<(Gen, T), Seq<char>>(e.0@),
    }
}

pub open spec fn did(want: Result<Gen, Seq<char>>, r: Result<(), CodegenError>, g: Gen) -> bool {
    match r {
        Ok(_) => want == Ok::<Gen, Seq<char>>(g),
        Err(e) => want == Err::<Gen, Seq<char>>(e.0@),
    }
}

pub open spec fn gave_all(want: Result<(Gen, Seq<usize>), Seq<char>>, r: Result<Vec<usize>, CodegenError>, g: Gen) -> bool {
    match r {
        Ok(v) => want == Ok::<(Gen, Seq<usize>), Seq<char>>((g, v@)),
        Err(e) => want == Err::<(Gen, Seq<usize>), Seq<char>>(e.0@),
    }
}

pub open spec fn agrees<T>(want: Result<T, Seq<char>>, r: Result<T, CodegenError>) -> bool {
    match r {
        Ok(v) => want == Ok::<T, Seq<char>>(v),
        Err(e) => want == Err::<T, Seq<char>>(e.0@),
    }
}

fn failed<T>(m: String) -> (r: Result<T, CodegenError>)
    ensures
        r matches Err(e) && e.0@ == m@,
{
    Err(CodegenError(m))
}

fn needed(v: Option<usize>, msg: &str) -> (r: Result<usize, CodegenError>)
    ensures
        match r {
            Ok(x) => v == Some(x),
            Err(e) => v is None && e.0@ == msg@,
        },
{
    match v {
        Some(x) => Ok(x),
        None => Err(CodegenError(msg.to_owned())),
    }
}

// ---- types ----

fn int_cranelift_type(t: IntTy) -> (r: Width)
    ensures
        r == int_width(t),
{
    match t {
        IntTy::I8 | IntTy::U8 => Width::I8,
        IntTy::I16 | IntTy::U16 => Width::I16,
        IntTy::I32 | IntTy::U32 => Width::I32,
        IntTy::I64 | IntTy::U64 | IntTy::ISize | IntTy::USize => Width::I64,
    }
}

fn cranelift_type(t: &Ty) -> (r: Result<Width, CodegenError>)
    ensures
        agrees(width_of(t@), r),
{
    match t {
        Ty::Bool => Ok(Width::I8),
        Ty::Int(i) => Ok(int_cranelift_type(*i)),
        Ty::Float(FloatTy::F32) => Ok(Width::F32),
        Ty::Float(FloatTy::F64) => Ok(Width::F64),
        Ty::Char => Ok(Width::I32),
        Ty::Array(_, _) => Ok(Width::I64),
        Ty::Str => Ok(Width::I64),
        Ty::Struct(_, _) => Ok(Width::I64),
        Ty::Vec(_) => Ok(Width::I64),
        Ty::Enum(_, _) => Ok(Width::I64),
        Ty::Weak(_) => Ok(Width::I64),
        Ty::Dyn(_, _) => Ok(Width::I64),
        _ => failed(cat3("type `", t.display().as_str(), "` not supported in codegen")),
    }
}

fn field_type_width(t: &Ty) -> (r: Result<Width, CodegenError>)
    ensures
        agrees(field_width(t@), r),
{
    match t {
        Ty::TypeVar(_) => Ok(Width::I64),
        _ => cranelift_type(t),
    }
}

fn bytes_of(w: Width) -> (r: u32)
    ensures
        r == width_bytes(w),
{
    match w {
        Width::I8 => 1,
        Width::I16 => 2,
        Width::I32 | Width::F32 => 4,
        Width::I64 | Width::F64 => 8,
    }
}

fn elem_size(t: &Ty) -> (r: Result<u32, CodegenError>)
    ensures
        agrees(elem_bytes(t@), r),
{
    match t {
        Ty::Bool => Ok(1),
        Ty::Int(i) => Ok(bytes_of(int_cranelift_type(*i))),
        Ty::Char => Ok(4),
        Ty::Float(FloatTy::F32) => Ok(4),
        Ty::Float(FloatTy::F64) => Ok(8),
        Ty::Array(_, _) => Ok(8),
        Ty::Str => Ok(8),
        Ty::Struct(_, _) => Ok(8),
        Ty::Vec(_) => Ok(8),
        Ty::Enum(_, _) => Ok(8),
        Ty::Weak(_) => Ok(8),
        Ty::Dyn(_, _) => Ok(8),
        _ => failed(cat3("cannot determine size of `", t.display().as_str(), "`")),
    }
}

fn word_offset(n: usize) -> (r: i32)
    ensures
        r == words(n as nat),
{
    if n <= 0x0fff_ffff {
        (n * 8) as i32
    } else {
        i32::MAX
    }
}

/// The offset of the word after some.
fn next_word_offset(n: usize) -> (r: i32)
    ensures
        r == words(n as nat + 1),
{
    if n < 0x0fff_ffff {
        ((n + 1) * 8) as i32
    } else {
        i32::MAX
    }
}

fn object_bytes(n: usize) -> (r: i32)
    ensures
        r == object_size(n as nat),
{
    if n <= 0x0fff_fffd {
        ((n + 2) * 8) as i32
    } else {
        i32::MAX
    }
}

/// The names of a trait's methods in the order of their slots.
fn slot_names(hir: &HirModule, t: SymbolId) -> (r: Option<Vec<String>>)
    ensures
        match r {
            Some(names) => object_methods(*hir, t) == Some(texts(names@)),
            None => object_methods(*hir, t) is None,
        },
{
    match hir.trait_methods_flat.get(&t) {
        None => None,
        Some(slots) => {
            let mut names: Vec<String> = Vec::new();
            let mut i: usize = 0;
            while i < slots.len()
                invariant
                    i <= slots.len(),
                    names.len() == i,
                    forall|j: int| 0 <= j < i ==> (#[trigger] names[j])@ == slots@[j].1@,
                decreases slots.len() - i,
            {
                names.push(slots[i].1.clone());
                i += 1;
            }
            assert(texts(names@) =~= Seq::new(slots@.len(), |i: int| slots@[i].1@));
            Some(names)
        },
    }
}

fn array_size(n: usize, each: u32) -> (r: i32)
    ensures
        r == array_room(n as nat, each),
{
    proof {
        assert((n as int) * (each as int) <= 0xffff_ffff_ffff_ffff * 0xffff_ffff) by (nonlinear_arith)
            requires
                0 <= n <= 0xffff_ffff_ffff_ffff,
                0 <= each <= 0xffff_ffff,
        ;
        assert(0 <= (n as int) * (each as int)) by (nonlinear_arith)
            requires
                0 <= n,
                0 <= each,
        ;
    }
    let all: u128 = (n as u128) * (each as u128);
    assert(all == n * each);
    let room: u128 = (all + 7) / 8;
    if room <= 0x0fff_ffff {
        (room * 8) as i32
    } else {
        i32::MAX
    }
}

fn byte_offset(i: usize, each: u32) -> (r: i32)
    ensures
        r == elem_offset(i as nat, each),
{
    proof {
        assert((i as int) * (each as int) <= 0xffff_ffff_ffff_ffff * 0xffff_ffff) by (nonlinear_arith)
            requires
                0 <= i <= 0xffff_ffff_ffff_ffff,
                0 <= each <= 0xffff_ffff,
        ;
        assert(0 <= (i as int) * (each as int)) by (nonlinear_arith)
            requires
                0 <= i,
                0 <= each,
        ;
    }
    let at: u128 = (i as u128) * (each as u128);
    assert(at == i * each);
    if at <= i32::MAX as u128 {
        at as i32
    } else {
        i32::MAX
    }
}

fn is_signed(t: &Ty) -> (r: bool)
    ensures
        r == is_signed_ty(t@),
{
    match t {
        Ty::Int(i) => i.is_signed(),
        _ => false,
    }
}

fn is_arc_type(hir: &HirModule, t: &Ty) -> (r: bool)
    ensures
        r == is_counted(*hir, t@),
{
    match t {
        Ty::Vec(_) => true,
        Ty::Str => true,
        Ty::Struct(_, _) => true,
        Ty::Weak(_) => true,
        Ty::Array(_, _) => true,
        Ty::Dyn(_, _) => true,
        Ty::Enum(s, _) => contains_sym(&hir.enum_has_payload, *s),
        _ => false,
    }
}

fn enum_max_arity(hir: &HirModule, s: SymbolId) -> (r: usize)
    ensures
        r == max_arity(*hir, s),
{
    match hir.enum_payload_tys.get(&s) {
        None => 0,
        Some(vs) => {
            let mut n: usize = 0;
            let mut i: usize = 0;
            while i < vs.len()
                invariant
                    i <= vs.len(),
                    n == most(vs@, i as nat),
                decreases vs.len() - i,
            {
                if vs[i].len() > n {
                    n = vs[i].len();
                }
                i += 1;
            }
            n
        },
    }
}

fn enum_bytes(hir: &HirModule, s: SymbolId) -> (r: i32)
    ensures
        r == enum_size(*hir, s),
{
    next_word_offset(enum_max_arity(hir, s))
}

fn struct_bytes(hir: &HirModule, s: SymbolId) -> (r: u32)
    ensures
        r == struct_size(*hir, s),
{
    match hir.struct_sizes.get(&s) {
        Some(n) => *n,
        None => 0,
    }
}

/// The position of a counted element type.
fn find_elem(hir: &HirModule, t: &Ty) -> (r: Option<usize>)
    ensures
        match r {
            Some(i) => elem_position(*hir, t@) == Some(i as int),
            None => elem_position(*hir, t@) is None,
        },
{
    let ts = &hir.vec_arc_elem_tys;
    let ghost p = elem_is(ts@, t@);
    let mut i: usize = 0;
    while i < ts.len()
        invariant
            i <= ts.len(),
            ts@ == hir.vec_arc_elem_tys@,
            p == elem_is(ts@, t@),
            first_where(p, i as nat) is None,
        decreases ts.len() - i,
    {
        if ts[i].same(t) {
            proof {
                assert(p(i as int));
                assert(first_where(p, (i + 1) as nat) == Some(i as int));
                found_stays(p, (i + 1) as nat, ts@.len());
            }
            return Some(i);
        }
        assert(!p(i as int));
        i += 1;
    }
    None
}

/// The position of an array type.
fn find_array(hir: &HirModule, t: &Ty) -> (r: Option<usize>)
    ensures
        match r {
            Some(i) => array_position(*hir, t@) == Some(i as int),
            None => array_position(*hir, t@) is None,
        },
{
    let ts = &hir.array_tys;
    let ghost p = elem_is(ts@, t@);
    let mut i: usize = 0;
    while i < ts.len()
        invariant
            i <= ts.len(),
            ts@ == hir.array_tys@,
            p == elem_is(ts@, t@),
            first_where(p, i as nat) is None,
        decreases ts.len() - i,
    {
        if ts[i].same(t) {
            proof {
                assert(p(i as int));
                assert(first_where(p, (i + 1) as nat) == Some(i as int));
                found_stays(p, (i + 1) as nat, ts@.len());
            }
            return Some(i);
        }
        assert(!p(i as int));
        i += 1;
    }
    None
}

fn reads_held(e: &HirExpr) -> (r: bool)
    ensures
        r == is_held(*e),
{
    match e.kind {
        HirExprKind::Local(_) => true,
        HirExprKind::Index { .. } => true,
        HirExprKind::FieldAccess { .. } => matches!(e.ty, Ty::Array(_, _) | Ty::Dyn(_, _)),
        _ => false,
    }
}

fn produces_value(t: &Ty) -> (r: bool)
    ensures
        r == has_value(t@),
{
    match t {
        Ty::Unit => false,
        Ty::Never => false,
        _ => true,
    }
}

// ---- the runtime ----

/// A function of the runtime: what it is linked as, how many words it takes,
/// and what it returns.
#[derive(Debug)]
pub struct RuntimeFn {
    pub name: &'static str,
    pub params: usize,
    pub ret: Option<Width>,
}

pub open spec fn runtime_view(f: RuntimeFn) -> RuntimeSig {
    RuntimeSig { name: f.name@, params: f.params as nat, ret: f.ret }
}

/// The function of the runtime behind a short name.
pub fn declare_builtin(name: &str) -> (r: Result<RuntimeFn, CodegenError>)
    ensures
        match r {
            Ok(f) => runtime_sig(name@) == Some(runtime_view(f)),
            Err(e) => runtime_sig(name@) is None && e.0@ == "unknown builtin `"@ + name@ + "`"@,
        },
{
    if same_text(name, "print_i64") {
        Ok(RuntimeFn { name: "rune_print_i64", params: 1, ret: None })
    } else if same_text(name, "vec_new") {
        Ok(RuntimeFn { name: "rune_vec_new", params: 0, ret: Some(Width::I64) })
    } else if same_text(name, "vec_push") {
        Ok(RuntimeFn { name: "rune_vec_push", params: 2, ret: None })
    } else if same_text(name, "vec_get") {
        Ok(RuntimeFn { name: "rune_vec_get", params: 2, ret: Some(Width::I64) })
    } else if same_text(name, "vec_len") {
        Ok(RuntimeFn { name: "rune_vec_len", params: 1, ret: Some(Width::I64) })
    } else if same_text(name, "print_str") {
        Ok(RuntimeFn { name: "rune_print_str", params: 1, ret: None })
    } else if same_text(name, "str_eq") {
        Ok(RuntimeFn { name: "rune_str_eq", params: 2, ret: Some(Width::I8) })
    } else if same_text(name, "str_concat") {
        Ok(RuntimeFn { name: "rune_str_concat", params: 2, ret: Some(Width::I64) })
    } else if same_text(name, "str_slice") {
        Ok(RuntimeFn { name: "rune_str_slice", params: 3, ret: Some(Width::I64) })
    } else if same_text(name, "str_starts_with") {
        Ok(RuntimeFn { name: "rune_str_starts_with", params: 2, ret: Some(Width::I8) })
    } else if same_text(name, "str_ends_with") {
        Ok(RuntimeFn { name: "rune_str_ends_with", params: 2, ret: Some(Width::I8) })
    } else if same_text(name, "str_contains") {
        Ok(RuntimeFn { name: "rune_str_contains", params: 2, ret: Some(Width::I8) })
    } else if same_text(name, "panic_bounds") {
        Ok(RuntimeFn { name: "rune_panic_bounds", params: 2, ret: None })
    } else if same_text(name, "retain_str") {
        Ok(RuntimeFn { name: "rune_retain_str", params: 1, ret: None })
    } else if same_text(name, "release_str") {
        Ok(RuntimeFn { name: "rune_release_str", params: 1, ret: None })
    } else if same_text(name, "retain_vec") {
        Ok(RuntimeFn { name: "rune_retain_vec", params: 1, ret: None })
    } else if same_text(name, "release_vec") {
        Ok(RuntimeFn { name: "rune_release_vec", params: 1, ret: None })
    } else if same_text(name, "weak_downgrade_vec") {
        Ok(RuntimeFn { name: "rune_weak_downgrade_vec", params: 1, ret: Some(Width::I64) })
    } else if same_text(name, "weak_retain_vec") {
        Ok(RuntimeFn { name: "rune_weak_retain_vec", params: 1, ret: None })
    } else if same_text(name, "weak_release_vec") {
        Ok(RuntimeFn { name: "rune_weak_release_vec", params: 1, ret: None })
    } else if same_text(name, "weak_upgrade_vec") {
        Ok(RuntimeFn { name: "rune_weak_upgrade_vec", params: 1, ret: Some(Width::I64) })
    } else if same_text(name, "weak_upgrade_or_vec") {
        Ok(RuntimeFn { name: "rune_weak_upgrade_or_vec", params: 2, ret: Some(Width::I64) })
    } else if same_text(name, "struct_new") {
        Ok(RuntimeFn { name: "rune_struct_new", params: 1, ret: Some(Width::I64) })
    } else if same_text(name, "struct_dealloc") {
        Ok(RuntimeFn { name: "rune_struct_dealloc", params: 2, ret: None })
    } else if same_text(name, "enum_new") {
        Ok(RuntimeFn { name: "rune_enum_new", params: 2, ret: Some(Width::I64) })
    } else if same_text(name, "retain_enum") {
        Ok(RuntimeFn { name: "rune_retain_enum", params: 1, ret: None })
    } else if same_text(name, "release_enum") {
        Ok(RuntimeFn { name: "rune_release_enum", params: 1, ret: None })
    } else if same_text(name, "enum_dealloc") {
        Ok(RuntimeFn { name: "rune_enum_dealloc", params: 1, ret: None })
    } else if same_text(name, "panic_no_match") {
        Ok(RuntimeFn { name: "rune_panic_no_match", params: 0, ret: None })
    } else {
        failed(cat3("unknown builtin `", name, "`"))
    }
}

fn arc_helper_name(release: bool, t: &Ty) -> (r: Result<&'static str, CodegenError>)
    ensures
        match r {
            Ok(n) => counter_of(release, t@) == Ok::<Seq<char>, Seq<char>>(n@),
            Err(e) => counter_of(release, t@) == Err::<Seq<char>, Seq<char>>(e.0@),
        },
{
    match t {
        Ty::Vec(_) => Ok(
            if release {
                "release_vec"
            } else {
                "retain_vec"
            },
        ),
        Ty::Str => Ok(
            if release {
                "release_str"
            } else {
                "retain_str"
            },
        ),
        Ty::Enum(_, _) => Ok(
            if release {
                "release_enum"
            } else {
                "retain_enum"
            },
        ),
        Ty::Weak(inner) => {
            let is_vec = is_vec_ty(inner);
            if is_vec {
                Ok(
                    if release {
                        "weak_release_vec"
                    } else {
                        "weak_retain_vec"
                    },
                )
            } else {
                no_arc_helper(release, t)
            }
        },
        _ => no_arc_helper(release, t),
    }
}

fn is_vec_ty(t: &Ty) -> (r: bool)
    ensures
        r == (t@ is Vec),
{
    match t {
        Ty::Vec(_) => true,
        _ => false,
    }
}

fn no_arc_helper(release: bool, t: &Ty) -> (r: Result<&'static str, CodegenError>)
    ensures
        r matches Err(e) && e.0@ == no_counter(release, t@),
{
    let action = if release {
        "release"
    } else {
        "retain"
    };
    failed(cat5("no ARC helper for action `", action, "` on `", t.display().as_str(), "`"))
}

// ---- functions ----

struct FnCodegen<'a> {
    hir: &'a HirModule,
    fns: &'a Table<SymbolId, Option<Width>>,
    code: Emitter,
}

impl<'a> View for FnCodegen<'a> {
    type V = Gen;

    closed spec fn view(&self) -> Gen {
        self.code@
    }
}

fn one(v: usize) -> (r: Vec<usize>)
    ensures
        r@ == seq![v],
{
    let mut out: Vec<usize> = Vec::new();
    out.push(v);
    assert(out@ =~= seq![v]);
    out
}

fn two(a: usize, b: usize) -> (r: Vec<usize>)
    ensures
        r@ == seq![a, b],
{
    let mut out: Vec<usize> = Vec::new();
    out.push(a);
    out.push(b);
    assert(out@ =~= seq![a, b]);
    out
}

fn three(a: usize, b: usize, c: usize) -> (r: Vec<usize>)
    ensures
        r@ == seq![a, b, c],
{
    let mut out: Vec<usize> = Vec::new();
    out.push(a);
    out.push(b);
    out.push(c);
    assert(out@ =~= seq![a, b, c]);
    out
}

fn none() -> (r: Vec<usize>)
    ensures
        r@ == Seq::<usize>::empty(),
{
    let out: Vec<usize> = Vec::new();
    assert(out@ =~= Seq::<usize>::empty());
    out
}

fn first_then(a: usize, rest: Vec<usize>) -> (r: Vec<usize>)
    ensures
        r@ == seq![a] + rest@,
{
    let mut out: Vec<usize> = Vec::new();
    out.push(a);
    let mut i: usize = 0;
    while i < rest.len()
        invariant
            i <= rest.len(),
            out@ == seq![a] + rest@.take(i as int),
        decreases rest.len() - i,
    {
        out.push(rest[i]);
        assert(rest@.take(i + 1) =~= rest@.take(i as int).push(rest@[i as int]));
        assert(out@ =~= seq![a] + rest@.take(i + 1));
        i += 1;
    }
    assert(rest@.take(i as int) =~= rest@);
    assert(out@ =~= seq![a] + rest@);
    out
}

impl<'a> FnCodegen<'a> {
    spec fn env(self) -> Env {
        Env { hir: *self.hir, fns: self.fns@ }
    }

    fn runtime(&mut self, name: &str, args: Vec<usize>) -> (r: usize)
        ensures
            final(self)@ == runtime_call(old(self)@, name@, args@),
            r == here(old(self)@),
            final(self).env() == old(self).env(),
    {
        self.code.put(Op::Call(Callee::Runtime(name.to_owned()), args))
    }

    fn enter_block(&mut self, b: usize)
        ensures
            final(self)@ == into_block(old(self)@, b),
            final(self).env() == old(self).env(),
    {
        let _ = self.code.put(Op::Switch(b));
        let _ = self.code.put(Op::Seal(b));
    }

    fn jump(&mut self, b: usize)
        ensures
            final(self)@ == put(old(self)@, OpV::Jump(b, Seq::<usize>::empty())),
            final(self).env() == old(self).env(),
    {
        let _ = self.code.put(Op::Jump(b, none()));
    }

    fn count_up(&mut self, v: usize, offset: i32)
        ensures
            final(self)@ == counted_up(old(self)@, v, offset),
            final(self).env() == old(self).env(),
    {
        let rc = self.code.put(Op::Load(Width::I64, v, offset));
        let one = self.code.put(Op::Int(Width::I64, 1));
        let sum = self.code.put(Op::Arith(Arith::Add, rc, one));
        let _ = self.code.put(Op::Store(sum, v, offset));
    }

    fn call_helper(&mut self, release: bool, t: &Ty, v: usize) -> (r: Result<(), CodegenError>)
        ensures
            did(helper_call(old(self)@, release, t@, v), r, final(self)@),
            final(self).env() == old(self).env(),
    {
        let name = arc_helper_name(release, t)?;
        let _ = self.runtime(name, one(v));
        Ok(())
    }

    fn emit_arc_call(&mut self, release: bool, t: &Ty, v: usize) -> (r: Result<(), CodegenError>)
        ensures
            did(count_call(old(self).env().hir, old(self)@, release, t@, v), r, final(self)@),
            final(self).env() == old(self).env(),
    {
        let hir = self.hir;
        match t {
            Ty::Struct(s, _) => {
                if !release {
                    self.count_up(v, struct_bytes(hir, *s) as i32);
                    Ok(())
                } else if hir.struct_sizes.contains(s) {
                    let _ = self.code.put(Op::Call(Callee::ReleaseStruct(*s), one(v)));
                    Ok(())
                } else {
                    failed("missing struct release fn".to_owned())
                }
            },
            Ty::Enum(s, _) => {
                if contains_sym(&hir.enum_has_payload, *s) {
                    if !release {
                        self.count_up(v, enum_bytes(hir, *s));
                    } else {
                        let _ = self.code.put(Op::Call(Callee::ReleaseEnum(*s), one(v)));
                    }
                    Ok(())
                } else {
                    self.call_helper(release, t, v)
                }
            },
            Ty::Vec(e) => match find_elem(hir, e) {
                Some(i) => {
                    if release {
                        let _ = self.code.put(Op::Call(Callee::ReleaseVec(i), one(v)));
                        Ok(())
                    } else {
                        self.call_helper(release, t, v)
                    }
                },
                None => self.call_helper(release, t, v),
            },
            Ty::Array(e, n) => {
                if release {
                    self.call_array_release(t, v)
                } else {
                    let each = elem_size(e)?;
                    self.count_up(v, array_size(*n, each));
                    Ok(())
                }
            },
            Ty::Dyn(d, _) => self.count_object(release, *d, v),
            _ => self.call_helper(release, t, v),
        }
    }

    fn count_object(&mut self, release: bool, t: SymbolId, v: usize) -> (r: Result<(), CodegenError>)
        ensures
            did(object_count_call(old(self).env().hir, old(self)@, release, t, v), r, final(self)@),
            final(self).env() == old(self).env(),
    {
        match self.hir.trait_methods_flat.get(&t) {
            None => failed("dyn: unknown trait".to_owned()),
            Some(slots) => {
                if release {
                    let _ = self.code.put(Op::Call(Callee::ReleaseDyn(t), one(v)));
                } else {
                    self.count_up(v, object_bytes(slots.len()));
                }
                Ok(())
            },
        }
    }

    fn call_array_release(&mut self, t: &Ty, v: usize) -> (r: Result<(), CodegenError>)
        ensures
            did(array_release_call(old(self).env().hir, old(self)@, t@, v), r, final(self)@),
            final(self).env() == old(self).env(),
    {
        match find_array(self.hir, t) {
            Some(i) => {
                let _ = self.code.put(Op::Call(Callee::ReleaseArray(i), one(v)));
                Ok(())
            },
            None => failed("missing array release fn".to_owned()),
        }
    }

    /// Releases the owning locals from the last back to one.
    fn release_arc_locals_to(&mut self, target: usize) -> (r: Result<(), CodegenError>)
        ensures
            did(released(old(self).env().hir, old(self)@, target as nat, old(self)@.owned.len()), r, final(self)@),
            final(self).env() == old(self).env(),
    {
        let ghost hir = self.env().hir;
        let ghost goal = released(hir, self@, target as nat, self@.owned.len());
        let ghost owned = self@.owned;
        let mut n: usize = self.code.owned_count();
        while n > target
            invariant
                self.env() == old(self).env(),
                hir == self.env().hir,
                self@.owned == owned,
                n <= owned.len(),
                released(hir, self@, target as nat, n as nat) == goal,
                goal == released(old(self).env().hir, old(self)@, target as nat, old(self)@.owned.len()),
            decreases n,
        {
            let (var, t) = self.code.owned_at(n - 1);
            let ghost g = self@;
            let v = self.code.put(Op::Read(var));
            proof {
                counting_keeps_owned(hir, put(g, OpV::Read(var)), true, t@, v);
            }
            self.emit_arc_call(true, &t, v)?;
            n -= 1;
        }
        Ok(())
    }

    fn retain_if_held(&mut self, e: &HirExpr, v: usize) -> (r: Result<(), CodegenError>)
        ensures
            did(kept(old(self).env().hir, old(self)@, *e, v), r, final(self)@),
            final(self).env() == old(self).env(),
    {
        if is_arc_type(self.hir, &e.ty) && reads_held(e) {
            self.emit_arc_call(false, &e.ty, v)?;
        }
        Ok(())
    }

    // ---- small pieces ----

    fn text_literal(&mut self, s: &String) -> (r: usize)
        ensures
            final(self)@ == text_literal(old(self)@, s@),
            r == last_op(final(self)@),
            final(self).env() == old(self).env(),
    {
        let ghost g = self@;
        let bytes = if s.as_str().is_empty() {
            self.code.put(Op::Int(Width::I64, 0))
        } else {
            let n = self.code.next_text();
            self.code.put(Op::Text(n, s.clone()))
        };
        let slot = self.code.put(Op::Slot(24));
        let _ = self.code.put(Op::SlotStore(bytes, slot, 0));
        let len = self.code.put(Op::Int(Width::I64, s.as_str().len() as i64));
        let _ = self.code.put(Op::SlotStore(len, slot, 8));
        let mark = self.code.put(Op::Int(Width::I64, -1));
        let _ = self.code.put(Op::SlotStore(mark, slot, 16));
        self.code.put(Op::SlotAddr(slot))
    }

    fn compile_lit(&mut self, lit: &HirLit) -> (r: Option<usize>)
        ensures
            (final(self)@, r) == literal(old(self)@, *lit),
            final(self).env() == old(self).env(),
    {
        match lit {
            HirLit::Int(v, t) => Some(self.code.put(Op::Int(int_cranelift_type(*t), *v))),
            HirLit::Float(s, t) => Some(self.code.put(Op::Float(*t, s.clone()))),
            HirLit::Bool(b) => {
                let n: i64 = if *b {
                    1
                } else {
                    0
                };
                Some(self.code.put(Op::Int(Width::I8, n)))
            },
            HirLit::Char(c) => Some(self.code.put(Op::Int(Width::I32, *c as i64))),
            HirLit::Str(s) => Some(self.text_literal(s)),
            HirLit::Unit => None,
        }
    }

    fn emit_bounds_check(&mut self, i: usize, len: usize)
        ensures
            final(self)@ == bounds_checked(old(self)@, i, len),
            final(self).env() == old(self).env(),
    {
        let zero = self.code.put(Op::Int(Width::I64, 0));
        let lo = self.code.put(Op::Compare(Cond::SGreaterEqual, i, zero));
        let hi = self.code.put(Op::Compare(Cond::SLess, i, len));
        let both = self.code.put(Op::Arith(Arith::And, lo, hi));
        let ok = self.code.put(Op::Block);
        let bad = self.code.put(Op::Block);
        let _ = self.code.put(Op::Branch(both, ok, bad));
        self.enter_block(bad);
        let _ = self.runtime("panic_bounds", two(i, len));
        let _ = self.code.put(Op::Trap(1));
        self.enter_block(ok);
    }

    fn compile_binop_value(&mut self, op: HirBinOp, l: usize, r_val: usize, t: &Ty) -> (r: Result<usize, CodegenError>)
        ensures
            gave(value_of_operation(old(self)@, op, l, r_val, t@), r, final(self)@),
            final(self).env() == old(self).env(),
    {
        let (is_str, is_float) = match t {
            Ty::Str => (true, false),
            Ty::Float(_) => (false, true),
            _ => (false, false),
        };
        let signed = is_signed(t);
        if is_str {
            match op {
                HirBinOp::Add => {
                    return Ok(self.runtime("str_concat", two(l, r_val)));
                },
                HirBinOp::Eq => {
                    return Ok(self.runtime("str_eq", two(l, r_val)));
                },
                HirBinOp::Ne => {
                    let eq = self.runtime("str_eq", two(l, r_val));
                    let one = self.code.put(Op::Int(Width::I8, 1));
                    return Ok(self.code.put(Op::Arith(Arith::Xor, eq, one)));
                },
                _ => {},
            }
        }
        if is_float {
            match op {
                HirBinOp::Mod => {
                    return failed("float modulo not supported".to_owned());
                },
                _ => {},
            }
            if let Some(a) = float_arith(op) {
                return Ok(self.code.put(Op::Arith(a, l, r_val)));
            }
            if let Some(c) = float_comparison(op) {
                return Ok(self.code.put(Op::CompareFloat(c, l, r_val)));
            }
        }
        match int_arith(op, signed) {
            Some(a) => Ok(self.code.put(Op::Arith(a, l, r_val))),
            None => match int_comparison(op, signed) {
                Some(c) => Ok(self.code.put(Op::Compare(c, l, r_val))),
                None => Ok(l),
            },
        }
    }

    fn compile_unary_value(&mut self, op: HirUnOp, v_in: usize, t: &Ty) -> (r: Result<usize, CodegenError>)
        ensures
            gave(value_of_unary(old(self)@, op, v_in, t@), r, final(self)@),
            final(self).env() == old(self).env(),
    {
        match op {
            HirUnOp::Neg => match t {
                Ty::Int(_) => Ok(self.code.put(Op::Negate(Negation::Int, v_in))),
                Ty::Float(_) => Ok(self.code.put(Op::Negate(Negation::Float, v_in))),
                _ => failed(cat3("cannot negate `", t.display().as_str(), "`")),
            },
            HirUnOp::Not => {
                let one = self.code.put(Op::Int(Width::I8, 1));
                Ok(self.code.put(Op::Arith(Arith::Xor, v_in, one)))
            },
            HirUnOp::BitNot => Ok(self.code.put(Op::Negate(Negation::Bits, v_in))),
        }
    }

    fn compile_cast_value(&mut self, v_in: usize, from: &Ty, to: &Ty) -> (r: Result<usize, CodegenError>)
        ensures
            gave(converted(old(self)@, v_in, from@, to@), r, final(self)@),
            final(self).env() == old(self).env(),
    {
        if from.same(to) {
            return Ok(v_in);
        }
        let tw = cranelift_type(to)?;
        let fw = cranelift_type(from)?;
        let (t, f) = (shape_of(to), shape_of(from));
        let (tb, fb) = (bytes_of(tw), bytes_of(fw));
        match (f, t) {
            (Shape::Float, Shape::Float) => {
                if tb > fb {
                    Ok(self.code.put(Op::Convert(Conversion::Promote, tw, v_in)))
                } else if tb < fb {
                    Ok(self.code.put(Op::Convert(Conversion::Demote, tw, v_in)))
                } else {
                    Ok(v_in)
                }
            },
            (Shape::Int | Shape::Bool | Shape::Char, Shape::Int | Shape::Char) => {
                if tb == fb {
                    Ok(v_in)
                } else if tb > fb {
                    if is_signed(from) {
                        Ok(self.code.put(Op::Convert(Conversion::SignExtend, tw, v_in)))
                    } else {
                        Ok(self.code.put(Op::Convert(Conversion::ZeroExtend, tw, v_in)))
                    }
                } else {
                    Ok(self.code.put(Op::Convert(Conversion::Truncate, tw, v_in)))
                }
            },
            (Shape::Int | Shape::Char, Shape::Bool) => {
                let zero = self.code.put(Op::Int(fw, 0));
                Ok(self.code.put(Op::Compare(Cond::NotEqual, v_in, zero)))
            },
            (Shape::Bool, Shape::Float) => {
                let wide = self.code.put(Op::Convert(Conversion::ZeroExtend, Width::I32, v_in));
                Ok(self.code.put(Op::Convert(Conversion::FloatFromUnsigned, tw, wide)))
            },
            (Shape::Int, Shape::Float) => {
                let c = if is_signed(from) {
                    Conversion::FloatFromSigned
                } else {
                    Conversion::FloatFromUnsigned
                };
                Ok(self.code.put(Op::Convert(c, tw, v_in)))
            },
            (Shape::Float, Shape::Int) => {
                let c = if is_signed(to) {
                    Conversion::SignedFromFloat
                } else {
                    Conversion::UnsignedFromFloat
                };
                Ok(self.code.put(Op::Convert(c, tw, v_in)))
            },
            _ => failed(
                cat5(
                    "no `as` codegen for `",
                    from.display().as_str(),
                    "` -> `",
                    to.display().as_str(),
                    "`",
                ),
            ),
        }
    }

    fn widen(&mut self, v: usize, w: Width, signed: bool) -> (r: usize)
        ensures
            (final(self)@, r) == widened(old(self)@, v, w, signed),
            final(self).env() == old(self).env(),
    {
        match w {
            Width::I64 => v,
            _ => {
                if signed {
                    self.code.put(Op::Convert(Conversion::SignExtend, Width::I64, v))
                } else {
                    self.code.put(Op::Convert(Conversion::ZeroExtend, Width::I64, v))
                }
            },
        }
    }

    fn narrow(&mut self, v: usize, w: Width) -> (r: usize)
        ensures
            (final(self)@, r) == narrowed(old(self)@, v, w),
            final(self).env() == old(self).env(),
    {
        match w {
            Width::I64 => v,
            _ => self.code.put(Op::Convert(Conversion::Truncate, w, v)),
        }
    }

    fn allocate(&mut self, size: i64) -> (r: usize)
        ensures
            final(self)@ == allocated(old(self)@, size),
            r == last_op(final(self)@),
            final(self).env() == old(self).env(),
    {
        let n = self.code.put(Op::Int(Width::I64, size));
        self.runtime("struct_new", one(n))
    }

    fn allocate_enum(&mut self, size: i64, tag: u32) -> (r: usize)
        ensures
            final(self)@ == tagged(old(self)@, size, tag),
            r == last_op(allocated(old(self)@, size)),
            final(self).env() == old(self).env(),
    {
        let p = self.allocate(size);
        let t = self.code.put(Op::Int(Width::I64, tag as i64));
        let _ = self.code.put(Op::Store(t, p, 0));
        p
    }

    fn compile_unit_variant(&mut self, t: &Ty, tag: u32) -> (r: usize)
        ensures
            (final(self)@, r) == unit_variant(old(self).env().hir, old(self)@, t@, tag),
            final(self).env() == old(self).env(),
    {
        if let Ty::Enum(s, _) = t {
            if contains_sym(&self.hir.enum_has_payload, *s) {
                let size = enum_bytes(self.hir, *s);
                return self.allocate_enum(size as i64, tag);
            }
        }
        self.code.put(Op::Int(Width::I64, tag as i64))
    }

    fn step(&mut self, counter: usize, header: usize)
        ensures
            final(self)@ == stepped(old(self)@, counter, header),
            final(self).env() == old(self).env(),
    {
        if !self.code.is_filled() {
            let now = self.code.put(Op::Read(counter));
            let one = self.code.put(Op::Int(Width::I64, 1));
            let next = self.code.put(Op::Arith(Arith::Add, now, one));
            let _ = self.code.put(Op::Assign(counter, next));
            self.jump(header);
        }
    }

    fn close_loop(&mut self, header: usize, exit: usize)
        ensures
            final(self)@ == loop_closed(old(self)@, header, exit),
            final(self).env() == old(self).env(),
    {
        if self.code.innermost_loop().is_some() {
            self.code.leave_loop();
        }
        let _ = self.code.put(Op::Seal(header));
        self.enter_block(exit);
    }

    fn merge(&mut self, merge: usize, wants: bool, v: Option<usize>, msg: &str) -> (r: Result<(), CodegenError>)
        ensures
            did(merged(old(self)@, merge, wants, v, msg@), r, final(self)@),
            final(self).env() == old(self).env(),
    {
        if !self.code.is_filled() {
            if wants {
                let v = needed(v, msg)?;
                let _ = self.code.put(Op::Jump(merge, one(v)));
            } else {
                self.jump(merge);
            }
        }
        Ok(())
    }

    // ---- patterns ----

    fn bind_payloads(&mut self, v: usize, bs: &Vec<(Ty, Option<SymbolId>)>) -> (r: Result<(), CodegenError>)
        ensures
            did(payloads_bound(old(self)@, v, bs@, bs@.len()), r, final(self)@),
            final(self).env() == old(self).env(),
    {
        let ghost g0 = self@;
        let mut i: usize = 0;
        while i < bs.len()
            invariant
                i <= bs.len(),
                self.env() == old(self).env(),
                g0 == old(self)@,
                payloads_bound(g0, v, bs@, i as nat) == Ok::<Gen, Seq<char>>(self@),
            decreases bs.len() - i,
        {
            let b = &bs[i];
            let step = self.bind_payload(v, &b.0, b.1, next_word_offset(i));
            proof {
                payloads_stay(g0, v, bs@, (i + 1) as nat, bs@.len());
            }
            step?;
            i += 1;
        }
        Ok(())
    }

    fn bind_payload(&mut self, v: usize, t: &Ty, s: Option<SymbolId>, offset: i32) -> (r: Result<(), CodegenError>)
        ensures
            did(payload_bound(old(self)@, v, t@, s, offset), r, final(self)@),
            final(self).env() == old(self).env(),
    {
        if let Some(s) = s {
            let raw = self.code.put(Op::Load(Width::I64, v, offset));
            let w = cranelift_type(t)?;
            let x = self.narrow(raw, w);
            let var = self.code.put(Op::Var(w));
            let _ = self.code.put(Op::Assign(var, x));
            self.code.set_var(s, var);
        }
        Ok(())
    }

    fn compile_pattern_check(&mut self, p: &HirPattern, v_in: usize, t: &Ty, yes: usize, no: usize) -> (r: Result<(), CodegenError>)
        ensures
            did(pattern_checked(old(self).env().hir, old(self)@, *p, v_in, t@, yes, no), r, final(self)@),
            final(self).env() == old(self).env(),
    {
        match p {
            HirPattern::Wildcard => self.jump(yes),
            HirPattern::Bind(_) => self.jump(yes),
            HirPattern::IntLit(n) => {
                let w = cranelift_type(t)?;
                let lit = self.code.put(Op::Int(w, *n));
                let eq = self.code.put(Op::Compare(Cond::Equal, v_in, lit));
                let _ = self.code.put(Op::Branch(eq, yes, no));
            },
            HirPattern::BoolLit(b) => {
                let n: i64 = if *b {
                    1
                } else {
                    0
                };
                let lit = self.code.put(Op::Int(Width::I8, n));
                let eq = self.code.put(Op::Compare(Cond::Equal, v_in, lit));
                let _ = self.code.put(Op::Branch(eq, yes, no));
            },
            HirPattern::StrLit(s) => {
                let lit = self.text_literal(s);
                let eq = self.runtime("str_eq", two(v_in, lit));
                let _ = self.code.put(Op::Branch(eq, yes, no));
            },
            HirPattern::EnumVariant { discriminant } => {
                let loads = match t {
                    Ty::Enum(s, _) => contains_sym(&self.hir.enum_has_payload, *s),
                    _ => false,
                };
                let tag = if loads {
                    self.code.put(Op::Load(Width::I64, v_in, 0))
                } else {
                    v_in
                };
                let d = self.code.put(Op::Int(Width::I64, *discriminant as i64));
                let eq = self.code.put(Op::Compare(Cond::Equal, tag, d));
                let _ = self.code.put(Op::Branch(eq, yes, no));
            },
            HirPattern::EnumPayload { discriminant, bindings } => {
                let tag = self.code.put(Op::Load(Width::I64, v_in, 0));
                let d = self.code.put(Op::Int(Width::I64, *discriminant as i64));
                let eq = self.code.put(Op::Compare(Cond::Equal, tag, d));
                let extract = self.code.put(Op::Block);
                let _ = self.code.put(Op::Branch(eq, extract, no));
                self.enter_block(extract);
                self.bind_payloads(v_in, bindings)?;
                self.jump(yes);
            },
            HirPattern::IntRange { lo, hi, inclusive } => {
                let w = cranelift_type(t)?;
                let is_char = match t {
                    Ty::Char => true,
                    _ => false,
                };
                let signed = is_signed(t) || is_char;
                let at_most = if signed {
                    Cond::SLessEqual
                } else {
                    Cond::ULessEqual
                };
                let below = if signed {
                    Cond::SLess
                } else {
                    Cond::ULess
                };
                let lo = self.code.put(Op::Int(w, *lo));
                let hi = self.code.put(Op::Int(w, *hi));
                let lo_ok = self.code.put(Op::Compare(at_most, lo, v_in));
                let check_hi = self.code.put(Op::Block);
                let _ = self.code.put(Op::Branch(lo_ok, check_hi, no));
                self.enter_block(check_hi);
                let cond = if *inclusive {
                    at_most
                } else {
                    below
                };
                let hi_ok = self.code.put(Op::Compare(cond, v_in, hi));
                let _ = self.code.put(Op::Branch(hi_ok, yes, no));
            },
        }
        Ok(())
    }

    fn compile_alternatives(&mut self, ps: &Vec<HirPattern>, v_in: usize, t: &Ty, body: usize, next: usize) -> (r: Result<(), CodegenError>)
        ensures
            did(alternatives_checked(old(self).env().hir, old(self)@, ps@, v_in, t@, body, next, ps@.len()), r, final(self)@),
            final(self).env() == old(self).env(),
    {
        let ghost g0 = self@;
        let ghost hir = self.env().hir;
        let mut i: usize = 0;
        while i < ps.len()
            invariant
                i <= ps.len(),
                self.env() == old(self).env(),
                hir == self.env().hir,
                g0 == old(self)@,
                alternatives_checked(hir, g0, ps@, v_in, t@, body, next, i as nat) == Ok::<Gen, Seq<char>>(self@),
            decreases ps.len() - i,
        {
            proof {
                alternatives_stay(hir, g0, ps@, v_in, t@, body, next, (i + 1) as nat, ps@.len());
            }
            if i == ps.len() - 1 {
                self.compile_pattern_check(&ps[i], v_in, t, body, next)?;
            } else {
                let other = self.code.put(Op::Block);
                self.compile_pattern_check(&ps[i], v_in, t, body, other)?;
                self.enter_block(other);
            }
            i += 1;
        }
        Ok(())
    }

    /// A row of new blocks.
    fn create_blocks(&mut self, n: usize) -> (r: Vec<usize>)
        ensures
            (final(self)@, r@) == new_blocks(old(self)@, n as nat),
            r@.len() == n,
            final(self).env() == old(self).env(),
    {
        let ghost g0 = self@;
        let mut out: Vec<usize> = Vec::new();
        let mut i: usize = 0;
        while i < n
            invariant
                i <= n,
                self.env() == old(self).env(),
                g0 == old(self)@,
                out@.len() == i,
                (self@, out@) == new_blocks(g0, i as nat),
            decreases n - i,
        {
            let b = self.code.put(Op::Block);
            out.push(b);
            i += 1;
        }
        out
    }

    // ---- expressions ----

    fn compile_value(&mut self, e: &HirExpr, msg: &str) -> (r: Result<usize, CodegenError>)
        ensures
            gave(value_made(old(self).env(), old(self)@, *e, msg@), r, final(self)@),
            final(self).env() == old(self).env(),
        decreases e, 3nat,
    {
        let v = self.compile_expr(e)?;
        needed(v, msg)
    }

    fn compile_values(&mut self, es: &Vec<HirExpr>, msg: &str) -> (r: Result<Vec<usize>, CodegenError>)
        ensures
            gave_all(all_made(old(self).env(), old(self)@, es@, msg@, es@.len()), r, final(self)@),
            final(self).env() == old(self).env(),
        decreases es, 0nat,
    {
        let ghost g0 = self@;
        let ghost env = self.env();
        let mut out: Vec<usize> = Vec::new();
        let mut i: usize = 0;
        while i < es.len()
            invariant
                i <= es.len(),
                self.env() == env,
                env == old(self).env(),
                g0 == old(self)@,
                out@.len() == i,
                all_made(env, g0, es@, msg@, i as nat) == Ok::<(Gen, Seq<usize>), Seq<char>>((self@, out@)),
            decreases es.len() - i,
        {
            proof {
                values_stay(env, g0, es@, msg@, (i + 1) as nat, es@.len());
            }
            let v = self.compile_value(&es[i], msg)?;
            out.push(v);
            i += 1;
        }
        Ok(out)
    }

    #[verifier::spinoff_prover]
    fn compile_expr(&mut self, e: &HirExpr) -> (r: Result<Option<usize>, CodegenError>)
        ensures
            gave(made(old(self).env(), old(self)@, *e), r, final(self)@),
            final(self).env() == old(self).env(),
        decreases e, 2nat,
    {
        match &e.kind {
            HirExprKind::Lit(lit) => Ok(self.compile_lit(lit)),
            HirExprKind::Local(s) => match self.code.var(*s) {
                Some(x) => Ok(Some(self.code.put(Op::Read(x)))),
                None => failed("unknown local".to_owned()),
            },
            HirExprKind::Fn(_) => failed("first-class function values are not supported".to_owned()),
            HirExprKind::EnumVariant { discriminant } => Ok(
                Some(self.compile_unit_variant(&e.ty, *discriminant)),
            ),
            HirExprKind::EnumPayloadCtor { .. } => self.compile_variant(e),
            HirExprKind::Unary { .. } => self.compile_operator(e),
            HirExprKind::Cast { .. } => self.compile_operator(e),
            HirExprKind::Binary { .. } => self.compile_operator(e),
            HirExprKind::Logical { .. } => self.compile_logical(e),
            HirExprKind::Assign { .. } => self.compile_assign(e),
            HirExprKind::AssignOp { .. } => self.compile_assign(e),
            HirExprKind::Call { .. } => self.compile_call(e),
            HirExprKind::IndirectCall { .. } => failed("indirect calls are not supported".to_owned()),
            HirExprKind::BuiltinCall { .. } => self.compile_call(e),
            HirExprKind::MethodCall { .. } => self.compile_method_call(e),
            HirExprKind::DynBox { .. } => self.compile_dyn_box(e),
            HirExprKind::DynCall { .. } => self.compile_dyn_call(e),
            HirExprKind::StructLit { .. } => self.compile_struct_lit(e),
            HirExprKind::FieldAccess { .. } => self.compile_field_access(e),
            HirExprKind::FieldAssign { .. } => self.compile_field_assign(e),
            HirExprKind::Array { .. } => self.compile_array(e),
            HirExprKind::Index { .. } => self.compile_index(e),
            HirExprKind::StrByteIndex { .. } => self.compile_index(e),
            HirExprKind::StrSlice { .. } => self.compile_str_slice(e),
            HirExprKind::For { .. } => self.compile_for(e),
            HirExprKind::ForRange { .. } => self.compile_for_range(e),
            HirExprKind::Block(b) => self.compile_block(b),
            HirExprKind::If { .. } => self.compile_if(e),
            HirExprKind::While { .. } => self.compile_while(e),
            HirExprKind::Match { .. } => self.compile_match(e),
            HirExprKind::Return(_) => self.compile_return(e),
            HirExprKind::Break => self.compile_break(e),
            HirExprKind::Unsupported(m) => failed(cat2("unsupported in codegen: ", m.as_str())),
        }
    }

    fn compile_call(&mut self, e: &HirExpr) -> (r: Result<Option<usize>, CodegenError>)
        requires
            e.kind is Call || e.kind is BuiltinCall,
        ensures
            gave(made(old(self).env(), old(self)@, *e), r, final(self)@),
            final(self).env() == old(self).env(),
        decreases e, 1nat,
    {
        match &e.kind {
            HirExprKind::Call { callee, args } => match self.fns.get(callee) {
                None => failed("call to undeclared function".to_owned()),
                Some(ret) => {
                    let ret = *ret;
                    let vs = self.compile_values(args, "call arg produced no value")?;
                    let v = self.code.put(Op::Call(Callee::Fn(*callee), vs));
                    Ok(result_of(ret, v))
                },
            },
            HirExprKind::BuiltinCall { name, args } => {
                let f = declare_builtin(name.as_str())?;
                let vs = self.compile_values(args, "builtin arg produced no value")?;
                let v = self.runtime(name.as_str(), vs);
                Ok(result_of(f.ret, v))
            },
            _ => failed("".to_owned()),
        }
    }

    fn compile_operator(&mut self, e: &HirExpr) -> (r: Result<Option<usize>, CodegenError>)
        requires
            e.kind is Unary || e.kind is Cast || e.kind is Binary,
        ensures
            gave(made(old(self).env(), old(self)@, *e), r, final(self)@),
            final(self).env() == old(self).env(),
        decreases e, 1nat,
    {
        match &e.kind {
            HirExprKind::Unary { op, expr } => {
                let v = self.compile_value(expr, "unary operand produced no value")?;
                Ok(Some(self.compile_unary_value(*op, v, &e.ty)?))
            },
            HirExprKind::Cast { expr } => {
                let v = self.compile_value(expr, "cast operand produced no value")?;
                Ok(Some(self.compile_cast_value(v, &expr.ty, &e.ty)?))
            },
            HirExprKind::Binary { op, lhs, rhs } => {
                let l = self.compile_value(lhs, "lhs produced no value")?;
                let r = self.compile_value(rhs, "rhs produced no value")?;
                let t = if int_comparison(*op, true).is_some() {
                    &lhs.ty
                } else {
                    &e.ty
                };
                Ok(Some(self.compile_binop_value(*op, l, r, t)?))
            },
            _ => failed("".to_owned()),
        }
    }

    fn compile_field_access(&mut self, e: &HirExpr) -> (r: Result<Option<usize>, CodegenError>)
        requires
            e.kind is FieldAccess,
        ensures
            gave(made(old(self).env(), old(self)@, *e), r, final(self)@),
            final(self).env() == old(self).env(),
        decreases e, 1nat,
    {
        match &e.kind {
            HirExprKind::FieldAccess { receiver, offset, field_ty } => {
                let p = self.compile_value(receiver, "field-access receiver produced no value")?;
                let w = field_type_width(field_ty)?;
                Ok(Some(self.code.put(Op::Load(w, p, *offset as i32))))
            },
            _ => failed("".to_owned()),
        }
    }

    fn compile_break(&mut self, e: &HirExpr) -> (r: Result<Option<usize>, CodegenError>)
        requires
            e.kind is Break,
        ensures
            gave(made(old(self).env(), old(self)@, *e), r, final(self)@),
            final(self).env() == old(self).env(),
    {
        match self.code.innermost_loop() {
            None => failed("`break` outside of a loop".to_owned()),
            Some((exit, target)) => {
                self.release_arc_locals_to(target)?;
                self.jump(exit);
                self.after_jump();
                Ok(None)
            },
        }
    }

    fn after_jump(&mut self)
        ensures
            final(self)@ == after_jump(old(self)@),
            final(self).env() == old(self).env(),
    {
        let b = self.code.put(Op::Block);
        self.enter_block(b);
    }

    fn compile_payloads(&mut self, ps: &Vec<HirExpr>, p: usize) -> (r: Result<(), CodegenError>)
        ensures
            did(payloads_made(old(self).env(), old(self)@, ps@, p, ps@.len()), r, final(self)@),
            final(self).env() == old(self).env(),
        decreases ps, 0nat,
    {
        let ghost g0 = self@;
        let ghost env = self.env();
        let mut i: usize = 0;
        while i < ps.len()
            invariant
                i <= ps.len(),
                self.env() == env,
                env == old(self).env(),
                g0 == old(self)@,
                payloads_made(env, g0, ps@, p, i as nat) == Ok::<Gen, Seq<char>>(self@),
            decreases ps.len() - i,
        {
            proof {
                payloads_made_stay(env, g0, ps@, p, (i + 1) as nat, ps@.len());
            }
            let v = self.compile_value(&ps[i], "variant payload produced no value")?;
            self.retain_if_held(&ps[i], v)?;
            let w = cranelift_type(&ps[i].ty)?;
            let x = self.widen(v, w, sign_extends(&ps[i].ty));
            let _ = self.code.put(Op::Store(x, p, next_word_offset(i)));
            i += 1;
        }
        Ok(())
    }

    fn compile_variant(&mut self, e: &HirExpr) -> (r: Result<Option<usize>, CodegenError>)
        ensures
            gave(made_variant(old(self).env(), old(self)@, *e), r, final(self)@),
            final(self).env() == old(self).env(),
        decreases e, 1nat,
    {
        match &e.kind {
            HirExprKind::EnumPayloadCtor { enum_sym, discriminant, payloads } => {
                let size = enum_bytes(self.hir, *enum_sym);
                let p = self.allocate_enum(size as i64, *discriminant);
                self.compile_payloads(payloads, p)?;
                Ok(Some(p))
            },
            _ => failed("".to_owned()),
        }
    }

    fn compile_side(&mut self, e: &HirExpr, runs: bool, constant: i64) -> (r: Result<usize, CodegenError>)
        ensures
            gave(side_made(old(self).env(), old(self)@, *e, runs, constant), r, final(self)@),
            final(self).env() == old(self).env(),
        decreases e, 3nat,
    {
        if runs {
            let v = self.compile_expr(e)?;
            needed(v, "logical rhs produced no value")
        } else {
            Ok(self.code.put(Op::Int(Width::I8, constant)))
        }
    }

    fn jump_with(&mut self, b: usize, v: usize)
        ensures
            final(self)@ == jumped(old(self)@, b, v),
            final(self).env() == old(self).env(),
    {
        if !self.code.is_filled() {
            let _ = self.code.put(Op::Jump(b, one(v)));
        }
    }

    fn compile_logical(&mut self, e: &HirExpr) -> (r: Result<Option<usize>, CodegenError>)
        ensures
            gave(made_logical(old(self).env(), old(self)@, *e), r, final(self)@),
            final(self).env() == old(self).env(),
        decreases e, 1nat,
    {
        match &e.kind {
            HirExprKind::Logical { op, lhs, rhs } => {
                let l = self.compile_value(lhs, "logical lhs produced no value")?;
                let yes = self.code.put(Op::Block);
                let no = self.code.put(Op::Block);
                let merge = self.code.put(Op::Block);
                let out = self.code.put(Op::BlockParam(merge, Width::I8));
                let _ = self.code.put(Op::Branch(l, yes, no));
                let (and, or) = match op {
                    LogicalOp::And => (true, false),
                    LogicalOp::Or => (false, true),
                };
                self.enter_block(yes);
                let a = self.compile_side(rhs, and, 1)?;
                self.jump_with(merge, a);
                self.enter_block(no);
                let b = self.compile_side(rhs, or, 0)?;
                self.jump_with(merge, b);
                self.enter_block(merge);
                Ok(Some(out))
            },
            _ => failed("".to_owned()),
        }
    }

    fn release_old(&mut self, t: &Ty, old_value: usize) -> (r: Result<(), CodegenError>)
        ensures
            did(old_released(old(self).env().hir, old(self)@, t@, old_value), r, final(self)@),
            final(self).env() == old(self).env(),
    {
        if is_arc_type(self.hir, t) {
            self.emit_arc_call(true, t, old_value)?;
        }
        Ok(())
    }

    fn swap_counts(&mut self, rhs: &HirExpr, v: usize, x: usize) -> (r: Result<(), CodegenError>)
        ensures
            did(swapped(old(self).env().hir, old(self)@, *rhs, v, x), r, final(self)@),
            final(self).env() == old(self).env(),
    {
        if is_arc_type(self.hir, &rhs.ty) {
            self.retain_if_held(rhs, v)?;
            let before = self.code.put(Op::Read(x));
            self.emit_arc_call(true, &rhs.ty, before)?;
        }
        Ok(())
    }

    fn compile_assign(&mut self, e: &HirExpr) -> (r: Result<Option<usize>, CodegenError>)
        ensures
            gave(made_assign(old(self).env(), old(self)@, *e), r, final(self)@),
            final(self).env() == old(self).env(),
        decreases e, 1nat,
    {
        match &e.kind {
            HirExprKind::Assign { lhs, rhs } => {
                let v = self.compile_value(rhs, "assignment rhs produced no value")?;
                match self.code.var(*lhs) {
                    None => failed("assignment to unknown local".to_owned()),
                    Some(x) => {
                        self.swap_counts(rhs, v, x)?;
                        let _ = self.code.put(Op::Assign(x, v));
                        Ok(None)
                    },
                }
            },
            HirExprKind::AssignOp { lhs, op, rhs } => match self.code.var(*lhs) {
                None => failed("compound assign to unknown local".to_owned()),
                Some(x) => {
                    let cur = self.code.put(Op::Read(x));
                    let r = self.compile_value(rhs, "compound assign rhs produced no value")?;
                    let v = self.compile_binop_value(*op, cur, r, &rhs.ty)?;
                    self.release_old(&rhs.ty, cur)?;
                    let _ = self.code.put(Op::Assign(x, v));
                    Ok(None)
                },
            },
            _ => failed("".to_owned()),
        }
    }

    fn compile_fields(&mut self, fs: &Vec<(u32, HirExpr)>, p: usize) -> (r: Result<(), CodegenError>)
        ensures
            did(fields_made(old(self).env(), old(self)@, fs@, p, fs@.len()), r, final(self)@),
            final(self).env() == old(self).env(),
        decreases fs, 0nat,
    {
        let ghost g0 = self@;
        let ghost env = self.env();
        let mut i: usize = 0;
        while i < fs.len()
            invariant
                i <= fs.len(),
                self.env() == env,
                env == old(self).env(),
                g0 == old(self)@,
                fields_made(env, g0, fs@, p, i as nat) == Ok::<Gen, Seq<char>>(self@),
            decreases fs.len() - i,
        {
            proof {
                fields_stay(env, g0, fs@, p, (i + 1) as nat, fs@.len());
            }
            let field = &fs[i];
            assert(decreases_to!(fs => field));
            assert(decreases_to!(field => field.1));
            let v = self.compile_value(&field.1, "struct field produced no value")?;
            self.retain_if_held(&field.1, v)?;
            let _ = self.code.put(Op::Store(v, p, field.0 as i32));
            i += 1;
        }
        Ok(())
    }

    fn compile_struct_lit(&mut self, e: &HirExpr) -> (r: Result<Option<usize>, CodegenError>)
        requires
            e.kind is StructLit,
        ensures
            gave(made(old(self).env(), old(self)@, *e), r, final(self)@),
            final(self).env() == old(self).env(),
        decreases e, 1nat,
    {
        match &e.kind {
            HirExprKind::StructLit { fields, size, .. } => {
                let p = self.allocate(*size as i64);
                self.compile_fields(fields, p)?;
                Ok(Some(p))
            },
            _ => failed("".to_owned()),
        }
    }

    fn swap_field_counts(&mut self, t: &Ty, w: Width, p: usize, offset: i32, rhs: &HirExpr, v: usize) -> (r: Result<(), CodegenError>)
        ensures
            did(field_swapped(old(self).env().hir, old(self)@, t@, w, p, offset, *rhs, v), r, final(self)@),
            final(self).env() == old(self).env(),
    {
        if is_arc_type(self.hir, t) {
            let before = self.code.put(Op::Load(w, p, offset));
            self.emit_arc_call(true, t, before)?;
            if reads_held(rhs) {
                self.emit_arc_call(false, t, v)?;
            }
        }
        Ok(())
    }

    fn compile_field_assign(&mut self, e: &HirExpr) -> (r: Result<Option<usize>, CodegenError>)
        ensures
            gave(made_field_assign(old(self).env(), old(self)@, *e), r, final(self)@),
            final(self).env() == old(self).env(),
        decreases e, 1nat,
    {
        match &e.kind {
            HirExprKind::FieldAssign { receiver, offset, field_ty, rhs } => {
                let p = self.compile_value(receiver, "field-assign receiver produced no value")?;
                let v = self.compile_value(rhs, "field-assign rhs produced no value")?;
                let w = field_type_width(field_ty)?;
                self.swap_field_counts(field_ty, w, p, *offset as i32, rhs, v)?;
                let _ = self.code.put(Op::Store(v, p, *offset as i32));
                Ok(None)
            },
            _ => failed("".to_owned()),
        }
    }

    fn compile_elems(&mut self, es: &Vec<HirExpr>, p: usize, each: u32) -> (r: Result<(), CodegenError>)
        ensures
            did(elems_made(old(self).env(), old(self)@, es@, p, each, es@.len()), r, final(self)@),
            final(self).env() == old(self).env(),
        decreases es, 0nat,
    {
        let ghost g0 = self@;
        let ghost env = self.env();
        let mut i: usize = 0;
        while i < es.len()
            invariant
                i <= es.len(),
                self.env() == env,
                env == old(self).env(),
                g0 == old(self)@,
                elems_made(env, g0, es@, p, each, i as nat) == Ok::<Gen, Seq<char>>(self@),
            decreases es.len() - i,
        {
            proof {
                elems_stay(env, g0, es@, p, each, (i + 1) as nat, es@.len());
            }
            let v = self.compile_value(&es[i], "array element produced no value")?;
            self.retain_if_held(&es[i], v)?;
            let _ = self.code.put(Op::Store(v, p, byte_offset(i, each)));
            i += 1;
        }
        Ok(())
    }

    fn compile_array(&mut self, e: &HirExpr) -> (r: Result<Option<usize>, CodegenError>)
        requires
            e.kind is Array,
        ensures
            gave(made(old(self).env(), old(self)@, *e), r, final(self)@),
            final(self).env() == old(self).env(),
        decreases e, 1nat,
    {
        match &e.kind {
            HirExprKind::Array { elems, elem_ty } => {
                let _ = cranelift_type(elem_ty)?;
                let each = elem_size(elem_ty)?;
                if elems.len() == 0 {
                    return failed("empty arrays not yet supported".to_owned());
                }
                let p = self.allocate(array_size(elems.len(), each) as i64);
                self.compile_elems(elems, p, each)?;
                Ok(Some(p))
            },
            _ => failed("".to_owned()),
        }
    }

    fn load_element(&mut self, base: usize, i: usize, w: Width, each: u32) -> (r: usize)
        ensures
            final(self)@ == element(old(self)@, base, i, w, each),
            r == last_op(final(self)@),
            final(self).env() == old(self).env(),
    {
        let n = self.code.put(Op::Int(Width::I64, each as i64));
        let offset = self.code.put(Op::Arith(Arith::Mul, i, n));
        let at = self.code.put(Op::Arith(Arith::Add, base, offset));
        self.code.put(Op::Load(w, at, 0))
    }

    fn compile_index(&mut self, e: &HirExpr) -> (r: Result<Option<usize>, CodegenError>)
        ensures
            gave(made_index(old(self).env(), old(self)@, *e), r, final(self)@),
            final(self).env() == old(self).env(),
        decreases e, 1nat,
    {
        match &e.kind {
            HirExprKind::Index { array, index, elem_ty } => match &array.ty {
                Ty::Array(_, n) => {
                    let a = self.compile_value(array, "array operand produced no value")?;
                    let i = self.compile_value(index, "index operand produced no value")?;
                    let len = self.code.put(Op::Int(Width::I64, *n as i64));
                    self.emit_bounds_check(i, len);
                    let w = cranelift_type(elem_ty)?;
                    let each = elem_size(elem_ty)?;
                    Ok(Some(self.load_element(a, i, w, each)))
                },
                _ => failed(cat3("indexing non-array type `", array.ty.display().as_str(), "`")),
            },
            HirExprKind::StrByteIndex { str_val, index } => {
                let s = self.compile_value(str_val, "str receiver produced no value")?;
                let i = self.compile_value(index, "str index produced no value")?;
                let bytes = self.code.put(Op::Load(Width::I64, s, 0));
                let len = self.code.put(Op::Load(Width::I64, s, 8));
                self.emit_bounds_check(i, len);
                let at = self.code.put(Op::Arith(Arith::Add, bytes, i));
                let byte = self.code.put(Op::Load(Width::I8, at, 0));
                Ok(Some(self.code.put(Op::Convert(Conversion::ZeroExtend, Width::I64, byte))))
            },
            _ => failed("".to_owned()),
        }
    }

    fn exclusive_end(&mut self, v: usize, inclusive: bool) -> (r: usize)
        ensures
            (final(self)@, r) == past_end(old(self)@, v, inclusive),
            final(self).env() == old(self).env(),
    {
        if inclusive {
            let one = self.code.put(Op::Int(Width::I64, 1));
            self.code.put(Op::Arith(Arith::Add, v, one))
        } else {
            v
        }
    }

    fn compile_str_slice(&mut self, e: &HirExpr) -> (r: Result<Option<usize>, CodegenError>)
        ensures
            gave(made_slice(old(self).env(), old(self)@, *e), r, final(self)@),
            final(self).env() == old(self).env(),
        decreases e, 1nat,
    {
        match &e.kind {
            HirExprKind::StrSlice { str_val, start, end, inclusive } => {
                let s = self.compile_value(str_val, "str receiver produced no value")?;
                let a = self.compile_value(start, "slice start produced no value")?;
                let b = self.compile_value(end, "slice end produced no value")?;
                let b = self.exclusive_end(b, *inclusive);
                Ok(Some(self.runtime("str_slice", three(s, a, b))))
            },
            _ => failed("".to_owned()),
        }
    }

    fn compile_vec_method(
        &mut self,
        elem: &Ty,
        name: &str,
        recv: usize,
        args: &Vec<HirExpr>,
        vs: Vec<usize>,
    ) -> (r: Result<Option<usize>, CodegenError>)
        ensures
            gave(vec_method_made(old(self).env().hir, old(self)@, elem@, name@, recv, args@, vs@), r, final(self)@),
            final(self).env() == old(self).env(),
    {
        let w = cranelift_type(elem)?;
        let counts = is_arc_type(self.hir, elem);
        if same_text(name, "push") {
            if vs.len() == 0 || args.len() == 0 {
                return failed("method arg produced no value".to_owned());
            }
            if counts && reads_held(&args[0]) {
                self.emit_arc_call(false, elem, vs[0])?;
            }
            let x = self.widen(vs[0], w, false);
            let _ = self.runtime("vec_push", two(recv, x));
            Ok(None)
        } else if same_text(name, "get") {
            let raw = self.runtime("vec_get", first_then(recv, vs));
            if counts {
                self.emit_arc_call(false, elem, raw)?;
                Ok(Some(raw))
            } else {
                Ok(Some(self.narrow(raw, w)))
            }
        } else {
            Ok(Some(self.runtime("vec_len", first_then(recv, vs))))
        }
    }

    fn compile_builtin_method(
        &mut self,
        t: &Ty,
        name: &str,
        recv: usize,
        args: &Vec<HirExpr>,
        vs: Vec<usize>,
    ) -> (r: Result<Option<usize>, CodegenError>)
        ensures
            gave(builtin_method_made(old(self).env().hir, old(self)@, t@, name@, recv, args@, vs@), r, final(self)@),
            final(self).env() == old(self).env(),
    {
        match t {
            Ty::Str => {
                if same_text(name, "len") {
                    return Ok(Some(self.code.put(Op::Load(Width::I64, recv, 8))));
                } else if same_text(name, "is_empty") {
                    let n = self.code.put(Op::Load(Width::I64, recv, 8));
                    let zero = self.code.put(Op::Int(Width::I64, 0));
                    return Ok(Some(self.code.put(Op::Compare(Cond::Equal, n, zero))));
                } else if same_text(name, "starts_with") && vs.len() > 0 {
                    return Ok(Some(self.runtime("str_starts_with", two(recv, vs[0]))));
                } else if same_text(name, "ends_with") && vs.len() > 0 {
                    return Ok(Some(self.runtime("str_ends_with", two(recv, vs[0]))));
                } else if same_text(name, "contains") && vs.len() > 0 {
                    return Ok(Some(self.runtime("str_contains", two(recv, vs[0]))));
                }
            },
            Ty::Array(_, n) => {
                if same_text(name, "len") {
                    return Ok(Some(self.code.put(Op::Int(Width::I64, *n as i64))));
                }
            },
            Ty::Vec(elem) => {
                if same_text(name, "push") || same_text(name, "get") || same_text(name, "len") {
                    return self.compile_vec_method(elem, name, recv, args, vs);
                }
            },
            _ => {},
        }
        failed(cat5("method `.", name, "` on `", t.display().as_str(), "` is not implemented"))
    }

    fn compile_method_call(&mut self, e: &HirExpr) -> (r: Result<Option<usize>, CodegenError>)
        ensures
            gave(made_method(old(self).env(), old(self)@, *e), r, final(self)@),
            final(self).env() == old(self).env(),
        decreases e, 1nat,
    {
        match &e.kind {
            HirExprKind::MethodCall { receiver, method, args } => {
                let recv = self.compile_value(receiver, "method receiver produced no value")?;
                let vs = self.compile_values(args, "method arg produced no value")?;
                self.compile_builtin_method(&receiver.ty, method.as_str(), recv, args, vs)
            },
            _ => failed("".to_owned()),
        }
    }

    fn compile_method_table(&mut self, s: SymbolId, names: &Vec<String>, cell: usize) -> (r: Result<(), CodegenError>)
        ensures
            did(table_made(old(self).env(), old(self)@, s, texts(names@), cell, names@.len()), r, final(self)@),
            final(self).env() == old(self).env(),
    {
        let ghost g0 = self@;
        let ghost env = self.env();
        let ghost ns = texts(names@);
        let mut i: usize = 0;
        while i < names.len()
            invariant
                i <= names.len(),
                self.env() == env,
                env == old(self).env(),
                g0 == old(self)@,
                ns == texts(names@),
                ns.len() == names@.len(),
                table_made(env, g0, s, ns, cell, i as nat) == Ok::<Gen, Seq<char>>(self@),
            decreases names.len() - i,
        {
            proof {
                table_stays(env, g0, s, ns, cell, (i + 1) as nat, ns.len());
            }
            match self.hir.impl_methods.get(&(s, names[i].clone())) {
                None => {
                    return failed(cat3("dyn: method `", names[i].as_str(), "` has no impl"));
                },
                Some(f) => {
                    let f = *f;
                    if !self.fns.contains(&f) {
                        return failed("dyn: impl method not compiled".to_owned());
                    }
                    let at = self.code.put(Op::FnAddr(f));
                    let _ = self.code.put(Op::Store(at, cell, word_offset(i)));
                },
            }
            i += 1;
        }
        Ok(())
    }

    fn compile_dyn_box(&mut self, e: &HirExpr) -> (r: Result<Option<usize>, CodegenError>)
        ensures
            gave(made_box(old(self).env(), old(self)@, *e), r, final(self)@),
            final(self).env() == old(self).env(),
        decreases e, 1nat,
    {
        match &e.kind {
            HirExprKind::DynBox { value, struct_sym, trait_sym } => {
                let data = self.compile_value(value, "dyn coercion value produced no value")?;
                self.retain_if_held(value, data)?;
                let hir = self.hir;
                match slot_names(hir, *trait_sym) {
                    None => failed("dyn: unknown trait".to_owned()),
                    Some(names) => {
                        assert(texts(names@).len() == names@.len());
                        if !hir.struct_sizes.contains(struct_sym) {
                            return failed("missing struct release fn".to_owned());
                        }
                        let cell = self.allocate(object_bytes(names.len()) as i64);
                        self.compile_method_table(*struct_sym, &names, cell)?;
                        let _ = self.code.put(Op::Store(data, cell, word_offset(names.len())));
                        let at = self.code.put(Op::ReleaseAddr(*struct_sym));
                        let _ = self.code.put(Op::Store(at, cell, next_word_offset(names.len())));
                        Ok(Some(cell))
                    },
                }
            },
            _ => failed("".to_owned()),
        }
    }

    fn compile_object_call(
        &mut self,
        cell: usize,
        slots: usize,
        slot: usize,
        args: &Vec<HirExpr>,
        vs: Vec<usize>,
        t: &Ty,
    ) -> (r: Result<Option<usize>, CodegenError>)
        ensures
            gave(object_call(old(self)@, cell, slots as nat, slot as nat, args@, vs@, t@), r, final(self)@),
            final(self).env() == old(self).env(),
    {
        let data = self.code.put(Op::Load(Width::I64, cell, word_offset(slots)));
        let f = self.code.put(Op::Load(Width::I64, cell, word_offset(slot)));
        let ws = arg_widths(args)?;
        let ret = if produces_value(t) {
            Some(cranelift_type(t)?)
        } else {
            None
        };
        let v = self.code.put(Op::CallIndirect(ws, ret, f, first_then(data, vs)));
        Ok(result_of(ret, v))
    }

    fn compile_dyn_call(&mut self, e: &HirExpr) -> (r: Result<Option<usize>, CodegenError>)
        ensures
            gave(made_object_call(old(self).env(), old(self)@, *e), r, final(self)@),
            final(self).env() == old(self).env(),
        decreases e, 1nat,
    {
        match &e.kind {
            HirExprKind::DynCall { receiver, trait_sym, method, args } => {
                let cell = self.compile_value(receiver, "dyn receiver produced no value")?;
                let hir = self.hir;
                match slot_names(hir, *trait_sym) {
                    None => failed("dyn: unknown trait".to_owned()),
                    Some(names) => {
                        assert(texts(names@).len() == names@.len());
                        match position_of(&names, method.as_str()) {
                            None => failed(cat3("dyn: no method `", method.as_str(), "`")),
                            Some(i) => {
                                let vs = self.compile_values(args, "dyn call arg produced no value")?;
                                self.compile_object_call(cell, names.len(), i, args, vs, &e.ty)
                            },
                        }
                    },
                }
            },
            _ => failed("".to_owned()),
        }
    }

    fn add_merge_param(&mut self, merge: usize, t: &Ty) -> (r: Result<(), CodegenError>)
        ensures
            did(merge_param(old(self)@, merge, t@), r, final(self)@),
            final(self).env() == old(self).env(),
    {
        if produces_value(t) {
            let w = cranelift_type(t)?;
            let _ = self.code.put(Op::BlockParam(merge, w));
        }
        Ok(())
    }

    fn compile_else(&mut self, e: &Option<Box<HirExpr>>) -> (r: Result<Option<usize>, CodegenError>)
        ensures
            gave(else_made(old(self).env(), old(self)@, *e), r, final(self)@),
            final(self).env() == old(self).env(),
        decreases e, 3nat,
    {
        match e {
            Some(e) => self.compile_expr(e),
            None => Ok(None),
        }
    }

    #[verifier::spinoff_prover]
    fn compile_if(&mut self, e: &HirExpr) -> (r: Result<Option<usize>, CodegenError>)
        ensures
            gave(made_if(old(self).env(), old(self)@, *e), r, final(self)@),
            final(self).env() == old(self).env(),
        decreases e, 1nat,
    {
        match &e.kind {
            HirExprKind::If { cond, then_b, else_b } => {
                let c = self.compile_value(cond, "if condition produced no value")?;
                let yes = self.code.put(Op::Block);
                let no = self.code.put(Op::Block);
                let merge = self.code.put(Op::Block);
                let wants = produces_value(&e.ty);
                let ghost g3 = self@;
                let out = self.next_op();
                self.add_merge_param(merge, &e.ty)?;
                let _ = self.code.put(Op::Branch(c, yes, no));
                self.enter_block(yes);
                let a = self.compile_block(then_b)?;
                self.merge(merge, wants, a, "if-then branch produced no value")?;
                self.enter_block(no);
                let b = self.compile_else(else_b)?;
                self.merge(merge, wants, b, "if-else branch produced no value")?;
                self.enter_block(merge);
                if wants {
                    Ok(Some(out))
                } else {
                    Ok(None)
                }
            },
            _ => failed("".to_owned()),
        }
    }

    fn next_op(&self) -> (r: usize)
        ensures
            r == here(self@),
    {
        self.code.len()
    }

    fn compile_while(&mut self, e: &HirExpr) -> (r: Result<Option<usize>, CodegenError>)
        ensures
            gave(made_while(old(self).env(), old(self)@, *e), r, final(self)@),
            final(self).env() == old(self).env(),
        decreases e, 1nat,
    {
        match &e.kind {
            HirExprKind::While { cond, body } => {
                let header = self.code.put(Op::Block);
                let inside = self.code.put(Op::Block);
                let exit = self.code.put(Op::Block);
                self.jump(header);
                let _ = self.code.put(Op::Switch(header));
                let c = self.compile_value(cond, "while condition produced no value")?;
                let _ = self.code.put(Op::Branch(c, inside, exit));
                self.enter_block(inside);
                self.code.enter_loop(exit);
                let _ = self.compile_block(body)?;
                if !self.code.is_filled() {
                    self.jump(header);
                }
                self.close_loop(header, exit);
                Ok(None)
            },
            _ => failed("".to_owned()),
        }
    }

    fn begin_for(&mut self, local: Option<SymbolId>, w: Width) -> (r: (usize, Option<usize>))
        ensures
            (final(self)@, r.0, r.1) == for_begun(old(self)@, local, w),
            final(self).env() == old(self).env(),
    {
        let counter = self.code.put(Op::Var(Width::I64));
        let zero = self.code.put(Op::Int(Width::I64, 0));
        let _ = self.code.put(Op::Assign(counter, zero));
        match local {
            Some(s) => {
                let x = self.code.put(Op::Var(w));
                self.code.set_var(s, x);
                (counter, Some(x))
            },
            None => (counter, None),
        }
    }

    fn count_rounds(&mut self, counter: usize, limit: Option<i64>, end: usize, header: usize, inside: usize, exit: usize)
        ensures
            final(self)@ == counting(old(self)@, counter, limit, end, header, inside, exit),
            final(self).env() == old(self).env(),
    {
        self.jump(header);
        let _ = self.code.put(Op::Switch(header));
        let now = self.code.put(Op::Read(counter));
        let n = match limit {
            Some(n) => self.code.put(Op::Int(Width::I64, n)),
            None => end,
        };
        let more = self.code.put(Op::Compare(Cond::SLess, now, n));
        let _ = self.code.put(Op::Branch(more, inside, exit));
        self.enter_block(inside);
        self.code.enter_loop(exit);
    }

    fn bind_element(&mut self, base: usize, counter: usize, w: Width, each: u32, x: Option<usize>)
        ensures
            final(self)@ == element_bound(old(self)@, base, counter, w, each, x),
            final(self).env() == old(self).env(),
    {
        let now = self.code.put(Op::Read(counter));
        let v = self.load_element(base, now, w, each);
        if let Some(x) = x {
            let _ = self.code.put(Op::Assign(x, v));
        }
    }

    #[verifier::spinoff_prover]
    fn compile_for(&mut self, e: &HirExpr) -> (r: Result<Option<usize>, CodegenError>)
        ensures
            gave(made_for(old(self).env(), old(self)@, *e), r, final(self)@),
            final(self).env() == old(self).env(),
        decreases e, 1nat,
    {
        match &e.kind {
            HirExprKind::For { local, iter, body, elem_ty, length } => {
                let base = self.compile_value(iter, "for-loop iterator produced no value")?;
                let w = cranelift_type(elem_ty)?;
                let each = elem_size(elem_ty)?;
                let (counter, x) = self.begin_for(*local, w);
                let header = self.code.put(Op::Block);
                let inside = self.code.put(Op::Block);
                let exit = self.code.put(Op::Block);
                self.count_rounds(counter, Some(*length as i64), 0, header, inside, exit);
                self.bind_element(base, counter, w, each, x);
                let _ = self.compile_block(body)?;
                self.step(counter, header);
                self.close_loop(header, exit);
                Ok(None)
            },
            _ => failed("".to_owned()),
        }
    }

    fn begin_range(&mut self, local: Option<SymbolId>, start: usize) -> (r: usize)
        ensures
            final(self)@ == range_begun(old(self)@, local, start),
            r == here(old(self)@),
            final(self).env() == old(self).env(),
    {
        let counter = self.code.put(Op::Var(Width::I64));
        let _ = self.code.put(Op::Assign(counter, start));
        if let Some(s) = local {
            self.code.set_var(s, counter);
        }
        counter
    }

    fn compile_for_range(&mut self, e: &HirExpr) -> (r: Result<Option<usize>, CodegenError>)
        ensures
            gave(made_for_range(old(self).env(), old(self)@, *e), r, final(self)@),
            final(self).env() == old(self).env(),
        decreases e, 1nat,
    {
        match &e.kind {
            HirExprKind::ForRange { local, start, end, inclusive, body } => {
                let a = self.compile_value(start, "range start produced no value")?;
                let b = self.compile_value(end, "range end produced no value")?;
                let limit = self.exclusive_end(b, *inclusive);
                let counter = self.begin_range(*local, a);
                let header = self.code.put(Op::Block);
                let inside = self.code.put(Op::Block);
                let exit = self.code.put(Op::Block);
                self.count_rounds(counter, None, limit, header, inside, exit);
                let _ = self.compile_block(body)?;
                self.step(counter, header);
                self.close_loop(header, exit);
                Ok(None)
            },
            _ => failed("".to_owned()),
        }
    }

    fn bind_arm(&mut self, ps: &Vec<HirPattern>, v: usize, t: &Ty) -> (r: Result<(), CodegenError>)
        ensures
            did(arm_bound(old(self)@, ps@, v, t@), r, final(self)@),
            final(self).env() == old(self).env(),
    {
        if ps.len() == 1 {
            if let HirPattern::Bind(s) = &ps[0] {
                let w = cranelift_type(t)?;
                let x = self.code.put(Op::Var(w));
                let _ = self.code.put(Op::Assign(x, v));
                self.code.set_var(*s, x);
            }
        }
        Ok(())
    }

    fn compile_guard(&mut self, guard: &Option<HirExpr>, next: usize) -> (r: Result<(), CodegenError>)
        ensures
            did(guard_made(old(self).env(), old(self)@, *guard, next), r, final(self)@),
            final(self).env() == old(self).env(),
        decreases guard, 3nat,
    {
        match guard {
            Some(e) => {
                let v = self.compile_expr(e)?;
                let c = needed(v, "match guard produced no value")?;
                let b = self.code.put(Op::Block);
                let _ = self.code.put(Op::Branch(c, b, next));
                self.enter_block(b);
            },
            None => {},
        }
        Ok(())
    }

    #[verifier::spinoff_prover]
    fn compile_arm(&mut self, arm: &HirMatchArm, v_in: usize, t: &Ty, block: usize, next: usize, merge: usize, wants: bool) -> (r: Result<(), CodegenError>)
        ensures
            did(arm_made(old(self).env(), old(self)@, *arm, v_in, t@, block, next, merge, wants), r, final(self)@),
            final(self).env() == old(self).env(),
        decreases arm, 1nat,
    {
        let body = self.code.put(Op::Block);
        self.enter_block(block);
        self.compile_alternatives(&arm.patterns, v_in, t, body, next)?;
        self.enter_block(body);
        self.bind_arm(&arm.patterns, v_in, t)?;
        self.compile_guard(&arm.guard, next)?;
        let r = self.compile_expr(&arm.body)?;
        if !self.code.is_filled() {
            let diverges = match arm.body.ty {
                Ty::Never => true,
                _ => false,
            };
            if diverges {
                let _ = self.code.put(Op::Trap(2));
            } else {
                self.merge(merge, wants, r, "match arm produced no value")?;
            }
        }
        Ok(())
    }

    fn compile_arms(
        &mut self,
        arms: &Vec<HirMatchArm>,
        v_in: usize,
        t: &Ty,
        blocks: &Vec<usize>,
        merge: usize,
        wants: bool,
    ) -> (r: Result<(), CodegenError>)
        requires
            blocks@.len() == arms@.len() + 1,
        ensures
            did(arms_made(old(self).env(), old(self)@, arms@, v_in, t@, blocks@, merge, wants, arms@.len()), r, final(self)@),
            final(self).env() == old(self).env(),
        decreases arms, 0nat,
    {
        let ghost g0 = self@;
        let ghost env = self.env();
        let mut i: usize = 0;
        while i < arms.len()
            invariant
                i <= arms.len(),
                blocks@.len() == arms@.len() + 1,
                self.env() == env,
                env == old(self).env(),
                g0 == old(self)@,
                arms_made(env, g0, arms@, v_in, t@, blocks@, merge, wants, i as nat) == Ok::<Gen, Seq<char>>(self@),
            decreases arms.len() - i,
        {
            proof {
                arms_stay(env, g0, arms@, v_in, t@, blocks@, merge, wants, (i + 1) as nat, arms@.len());
            }
            self.compile_arm(&arms[i], v_in, t, blocks[i], blocks[i + 1], merge, wants)?;
            i += 1;
        }
        Ok(())
    }

    #[verifier::spinoff_prover]
    fn compile_match(&mut self, e: &HirExpr) -> (r: Result<Option<usize>, CodegenError>)
        ensures
            gave(made_match(old(self).env(), old(self)@, *e), r, final(self)@),
            final(self).env() == old(self).env(),
        decreases e, 1nat,
    {
        match &e.kind {
            HirExprKind::Match { scrutinee, arms } => {
                let v = self.compile_value(scrutinee, "match scrutinee produced no value")?;
                let merge = self.code.put(Op::Block);
                let wants = produces_value(&e.ty);
                let out = self.next_op();
                self.add_merge_param(merge, &e.ty)?;
                let mut blocks = self.create_blocks(arms.len());
                let fallback = self.code.put(Op::Block);
                blocks.push(fallback);
                self.jump(blocks[0]);
                self.compile_arms(arms, v, &scrutinee.ty, &blocks, merge, wants)?;
                self.enter_block(fallback);
                let _ = self.runtime("panic_no_match", none());
                let _ = self.code.put(Op::Trap(2));
                self.enter_block(merge);
                if wants {
                    Ok(Some(out))
                } else {
                    Ok(None)
                }
            },
            _ => failed("".to_owned()),
        }
    }

    fn compile_return(&mut self, e: &HirExpr) -> (r: Result<Option<usize>, CodegenError>)
        ensures
            gave(made_return(old(self).env(), old(self)@, *e), r, final(self)@),
            final(self).env() == old(self).env(),
        decreases e, 1nat,
    {
        match &e.kind {
            HirExprKind::Return(value) => {
                match value {
                    Some(x) => {
                        let v = self.compile_value(x, "return value produced no value")?;
                        self.retain_if_held(x, v)?;
                        self.release_arc_locals_to(0)?;
                        let _ = self.code.put(Op::Return(one(v)));
                    },
                    None => {
                        self.release_arc_locals_to(0)?;
                        let _ = self.code.put(Op::Return(none()));
                    },
                }
                self.after_jump();
                Ok(None)
            },
            _ => failed("".to_owned()),
        }
    }

    // ---- statements ----

    fn bind_let(&mut self, l: &HirLet, x: usize, owns: bool)
        ensures
            final(self)@ == let_bound(old(self)@, *l, x, owns),
            final(self).env() == old(self).env(),
    {
        if let Some(s) = l.sym {
            self.code.set_var(s, x);
        }
        if owns {
            self.code.own(x, l.ty.copy());
        }
    }

    fn compile_let(&mut self, l: &HirLet) -> (r: Result<(), CodegenError>)
        ensures
            did(let_made(old(self).env(), old(self)@, *l), r, final(self)@),
            final(self).env() == old(self).env(),
        decreases l, 1nat,
    {
        let w = cranelift_type(&l.ty)?;
        let x = self.code.put(Op::Var(w));
        match &l.init {
            Some(e) => {
                let v = self.compile_expr(e)?;
                let v = needed(v, "let initializer produced no value")?;
                let counts = is_arc_type(self.hir, &l.ty);
                if counts && reads_held(e) {
                    self.emit_arc_call(false, &l.ty, v)?;
                }
                let _ = self.code.put(Op::Assign(x, v));
                self.bind_let(l, x, counts);
            },
            None => {
                let zero = self.code.put(Op::Int(w, 0));
                let _ = self.code.put(Op::Assign(x, zero));
                self.bind_let(l, x, false);
            },
        }
        Ok(())
    }

    fn compile_stmt(&mut self, s: &HirStmt) -> (r: Result<Option<usize>, CodegenError>)
        ensures
            gave(stmt_made(old(self).env(), old(self)@, *s), r, final(self)@),
            final(self).env() == old(self).env(),
        decreases s, 1nat,
    {
        match s {
            HirStmt::Let(l) => {
                self.compile_let(l)?;
                Ok(None)
            },
            HirStmt::Expr(e, semi) => {
                let v = self.compile_expr(e)?;
                if *semi {
                    Ok(None)
                } else {
                    Ok(v)
                }
            },
        }
    }

    fn compile_stmts(&mut self, ss: &Vec<HirStmt>) -> (r: Result<Option<usize>, CodegenError>)
        ensures
            match r {
                Ok(v) => stmts_made(old(self).env(), old(self)@, ss@, ss@.len()) matches Ok(x) && x.0 == final(self)@
                    && x.1 == v,
                Err(e) => stmts_made(old(self).env(), old(self)@, ss@, ss@.len()) == Err::<
                    (Gen, Option<usize>, bool),
                    Seq<char>,
                >(e.0@),
            },
            final(self).env() == old(self).env(),
        decreases ss, 0nat,
    {
        let ghost g0 = self@;
        let ghost env = self.env();
        let mut v: Option<usize> = None;
        let mut i: usize = 0;
        while i < ss.len()
            invariant
                i <= ss.len(),
                self.env() == env,
                env == old(self).env(),
                g0 == old(self)@,
                stmts_made(env, g0, ss@, i as nat) == Ok::<(Gen, Option<usize>, bool), Seq<char>>((self@, v, false)),
            decreases ss.len() - i,
        {
            proof {
                stmts_stay(env, g0, ss@, (i + 1) as nat, ss@.len());
            }
            v = self.compile_stmt(&ss[i])?;
            if self.code.is_filled() {
                return Ok(v);
            }
            i += 1;
        }
        Ok(v)
    }

    fn close_scope(&mut self, v: Option<usize>, tail: Option<&Ty>, target: usize) -> (r: Result<(), CodegenError>)
        ensures
            did(scope_closed(old(self).env().hir, old(self)@, v, opt_ty(tail), target as nat), r, final(self)@),
            final(self).env() == old(self).env(),
    {
        match (v, tail) {
            (Some(v), Some(t)) => self.emit_arc_call(false, t, v)?,
            _ => {},
        }
        self.release_arc_locals_to(target)
    }

    fn compile_block(&mut self, b: &HirBlock) -> (r: Result<Option<usize>, CodegenError>)
        ensures
            gave(made_block(old(self).env(), old(self)@, *b), r, final(self)@),
            final(self).env() == old(self).env(),
        decreases b, 1nat,
    {
        let before = self.code.owned_count();
        let v = self.compile_stmts(&b.stmts)?;
        if !self.code.is_filled() {
            let tail = find_tail(self.hir, &b.stmts);
            self.close_scope(v, tail, before)?;
        }
        self.code.forget_owned(before);
        Ok(v)
    }

    fn compile_params(&mut self, ps: &Vec<HirParam>) -> (r: Result<(), CodegenError>)
        ensures
            did(params_made(old(self)@, ps@, ps@.len()), r, final(self)@),
            final(self).env() == old(self).env(),
    {
        let ghost g0 = self@;
        let mut i: usize = 0;
        while i < ps.len()
            invariant
                i <= ps.len(),
                self.env() == old(self).env(),
                g0 == old(self)@,
                params_made(g0, ps@, i as nat) == Ok::<Gen, Seq<char>>(self@),
            decreases ps.len() - i,
        {
            proof {
                params_stay(g0, ps@, (i + 1) as nat, ps@.len());
            }
            let w = cranelift_type(&ps[i].ty)?;
            let x = self.code.put(Op::Var(w));
            let v = self.code.put(Op::Param(i));
            let _ = self.code.put(Op::Assign(x, v));
            self.code.set_var(ps[i].sym, x);
            i += 1;
        }
        Ok(())
    }

    fn close_fn(&mut self, f: &HirFn, v: Option<usize>) -> (r: Result<(), CodegenError>)
        ensures
            did(fn_closed(old(self)@, *f, v), r, final(self)@),
            final(self).env() == old(self).env(),
    {
        if !self.code.is_filled() {
            let unit = match f.ret_ty {
                Ty::Unit => true,
                _ => false,
            };
            if unit {
                let _ = self.code.put(Op::Return(none()));
            } else {
                match v {
                    Some(v) => {
                        let _ = self.code.put(Op::Return(one(v)));
                    },
                    None => {
                        return failed(
                            cat5(
                                "function `",
                                f.name.as_str(),
                                "` declared `",
                                f.ret_ty.display().as_str(),
                                "` but body produced no value",
                            ),
                        );
                    },
                }
            }
        }
        Ok(())
    }

    // ---- release functions ----

    fn emit_release_field(&mut self, t: &Ty, v: usize) -> (r: Result<(), CodegenError>)
        ensures
            did(field_released(old(self).env().hir, old(self)@, t@, v), r, final(self)@),
            final(self).env() == old(self).env(),
    {
        let hir = self.hir;
        match t {
            Ty::Struct(s, _) => {
                if !hir.struct_sizes.contains(s) {
                    return failed("nested struct missing release".to_owned());
                }
                let _ = self.code.put(Op::Call(Callee::ReleaseStruct(*s), one(v)));
                Ok(())
            },
            Ty::Enum(s, _) => {
                if contains_sym(&hir.enum_has_payload, *s) {
                    let _ = self.code.put(Op::Call(Callee::ReleaseEnum(*s), one(v)));
                }
                Ok(())
            },
            Ty::Vec(e) => match find_elem(hir, e) {
                Some(i) => {
                    let _ = self.code.put(Op::Call(Callee::ReleaseVec(i), one(v)));
                    Ok(())
                },
                None => self.call_helper(true, t, v),
            },
            Ty::Array(_, _) => self.call_array_release(t, v),
            Ty::Dyn(d, _) => self.count_object(true, *d, v),
            _ => self.call_helper(true, t, v),
        }
    }

    fn release_fields(&mut self, p: usize, fs: &Vec<(u32, Ty)>) -> (r: Result<(), CodegenError>)
        ensures
            did(fields_released(old(self).env().hir, old(self)@, p, fs@, fs@.len()), r, final(self)@),
            final(self).env() == old(self).env(),
    {
        let ghost g0 = self@;
        let ghost hir = self.env().hir;
        let mut i: usize = 0;
        while i < fs.len()
            invariant
                i <= fs.len(),
                self.env() == old(self).env(),
                hir == self.env().hir,
                g0 == old(self)@,
                fields_released(hir, g0, p, fs@, i as nat) == Ok::<Gen, Seq<char>>(self@),
            decreases fs.len() - i,
        {
            proof {
                released_fields_stay(hir, g0, p, fs@, (i + 1) as nat, fs@.len());
            }
            let field = &fs[i];
            let w = cranelift_type(&field.1)?;
            let v = self.code.put(Op::Load(w, p, field.0 as i32));
            self.emit_release_field(&field.1, v)?;
            i += 1;
        }
        Ok(())
    }

    fn free(&mut self, p: usize, size: i64, done: usize)
        ensures
            final(self)@ == freed(old(self)@, p, size, done),
            final(self).env() == old(self).env(),
    {
        let n = self.code.put(Op::Int(Width::I64, size));
        let _ = self.runtime("struct_dealloc", two(p, n));
        self.jump(done);
        self.enter_block(done);
        let _ = self.code.put(Op::Return(none()));
    }

    fn define_struct_release(&mut self, s: SymbolId) -> (r: Result<(), CodegenError>)
        requires
            old(self)@ == release_begun(),
        ensures
            did(struct_release(old(self).env().hir, s), r, final(self)@),
            final(self).env() == old(self).env(),
    {
        let hir = self.hir;
        let size = struct_bytes(hir, s);
        let p = self.next_op() - 1;
        let rc = self.code.put(Op::Load(Width::I64, p, size as i32));
        let one = self.code.put(Op::Int(Width::I64, 1));
        let less = self.code.put(Op::Arith(Arith::Sub, rc, one));
        let _ = self.code.put(Op::Store(less, p, size as i32));
        let zero = self.code.put(Op::Int(Width::I64, 0));
        let alive = self.code.put(Op::Compare(Cond::SGreater, less, zero));
        let free = self.code.put(Op::Block);
        let done = self.code.put(Op::Block);
        let _ = self.code.put(Op::Branch(alive, done, free));
        self.enter_block(free);
        let no_fields: Vec<(u32, Ty)> = Vec::new();
        let fields = match hir.struct_arc_fields.get(&s) {
            Some(fs) => fs,
            None => &no_fields,
        };
        assert(fields@ =~= arc_fields(*hir, s));
        self.release_fields(p, fields)?;
        self.free(p, size as i64, done);
        Ok(())
    }

    fn release_payloads(&mut self, p: usize, ts: &Vec<Ty>) -> (r: Result<(), CodegenError>)
        ensures
            did(payloads_released(old(self).env().hir, old(self)@, p, ts@, ts@.len()), r, final(self)@),
            final(self).env() == old(self).env(),
    {
        let ghost g0 = self@;
        let ghost hir = self.env().hir;
        let mut i: usize = 0;
        while i < ts.len()
            invariant
                i <= ts.len(),
                self.env() == old(self).env(),
                hir == self.env().hir,
                g0 == old(self)@,
                payloads_released(hir, g0, p, ts@, i as nat) == Ok::<Gen, Seq<char>>(self@),
            decreases ts.len() - i,
        {
            proof {
                released_payloads_stay(hir, g0, p, ts@, (i + 1) as nat, ts@.len());
            }
            if is_arc_type(self.hir, &ts[i]) {
                let raw = self.code.put(Op::Load(Width::I64, p, next_word_offset(i)));
                let w = cranelift_type(&ts[i])?;
                let v = self.narrow(raw, w);
                self.emit_release_field(&ts[i], v)?;
            }
            i += 1;
        }
        Ok(())
    }

    fn release_variants(&mut self, p: usize, tag: usize, dealloc: usize, vs: &Vec<Vec<Ty>>) -> (r: Result<
        (),
        CodegenError,
    >)
        ensures
            did(variants_released(old(self).env().hir, old(self)@, p, tag, dealloc, vs@, vs@.len()), r, final(self)@),
            final(self).env() == old(self).env(),
    {
        let ghost g0 = self@;
        let ghost hir = self.env().hir;
        let mut i: usize = 0;
        while i < vs.len()
            invariant
                i <= vs.len(),
                self.env() == old(self).env(),
                hir == self.env().hir,
                g0 == old(self)@,
                variants_released(hir, g0, p, tag, dealloc, vs@, i as nat) == Ok::<Gen, Seq<char>>(self@),
            decreases vs.len() - i,
        {
            proof {
                released_variants_stay(hir, g0, p, tag, dealloc, vs@, (i + 1) as nat, vs@.len());
            }
            if has_counted(self.hir, &vs[i]) {
                let d = self.code.put(Op::Int(Width::I64, i as i64));
                let eq = self.code.put(Op::Compare(Cond::Equal, tag, d));
                let this = self.code.put(Op::Block);
                let next = self.code.put(Op::Block);
                let _ = self.code.put(Op::Branch(eq, this, next));
                self.enter_block(this);
                self.release_payloads(p, &vs[i])?;
                self.jump(dealloc);
                self.enter_block(next);
            }
            i += 1;
        }
        Ok(())
    }

    fn define_enum_release(&mut self, s: SymbolId) -> (r: Result<(), CodegenError>)
        requires
            old(self)@ == release_begun(),
        ensures
            did(enum_release(old(self).env().hir, s), r, final(self)@),
            final(self).env() == old(self).env(),
    {
        let hir = self.hir;
        let size = enum_bytes(hir, s);
        let p = self.next_op() - 1;
        let rc = self.code.put(Op::Load(Width::I64, p, size));
        let mark = self.code.put(Op::Int(Width::I64, -1));
        let marked = self.code.put(Op::Compare(Cond::Equal, rc, mark));
        let lower = self.code.put(Op::Block);
        let done = self.code.put(Op::Block);
        let _ = self.code.put(Op::Branch(marked, done, lower));
        self.enter_block(lower);
        let one = self.code.put(Op::Int(Width::I64, 1));
        let less = self.code.put(Op::Arith(Arith::Sub, rc, one));
        let _ = self.code.put(Op::Store(less, p, size));
        let zero = self.code.put(Op::Int(Width::I64, 0));
        let alive = self.code.put(Op::Compare(Cond::SGreater, less, zero));
        let free = self.code.put(Op::Block);
        let _ = self.code.put(Op::Branch(alive, done, free));
        self.enter_block(free);
        let tag = self.code.put(Op::Load(Width::I64, p, 0));
        let dealloc = self.code.put(Op::Block);
        let no_variants: Vec<Vec<Ty>> = Vec::new();
        let variants = match hir.enum_payload_tys.get(&s) {
            Some(vs) => vs,
            None => &no_variants,
        };
        assert(variants@ =~= variants_of(*hir, s));
        self.release_variants(p, tag, dealloc, variants)?;
        self.jump(dealloc);
        self.enter_block(dealloc);
        self.free(p, size as i64, done);
        Ok(())
    }

    fn begin_walk(&mut self, walk: usize, header: usize, finish: usize, done: usize) -> (r: (usize, usize))
        ensures
            (final(self)@, r.0, r.1) == walk_begun(old(self)@, walk, header, finish, done),
            final(self).env() == old(self).env(),
    {
        let p = self.code.put(Op::Param(0));
        let zero = self.code.put(Op::Int(Width::I64, 0));
        let is_null = self.code.put(Op::Compare(Cond::Equal, p, zero));
        let _ = self.code.put(Op::Branch(is_null, done, walk));
        self.enter_block(walk);
        let i = self.code.put(Op::Var(Width::I64));
        let start = self.code.put(Op::Int(Width::I64, 0));
        let _ = self.code.put(Op::Assign(i, start));
        let rc = self.code.put(Op::Load(Width::I64, p, 24));
        let one_ref = self.code.put(Op::Int(Width::I64, 1));
        let last = self.code.put(Op::Compare(Cond::Equal, rc, one_ref));
        let _ = self.code.put(Op::Branch(last, header, finish));
        let _ = self.code.put(Op::Switch(header));
        (p, i)
    }

    fn load_walked(&mut self, p: usize, i: usize, body: usize, finish: usize) -> (r: usize)
        ensures
            final(self)@ == walked(old(self)@, p, i, body, finish),
            r == last_op(final(self)@),
            final(self).env() == old(self).env(),
    {
        let len = self.code.put(Op::Load(Width::I64, p, 8));
        let now = self.code.put(Op::Read(i));
        let more = self.code.put(Op::Compare(Cond::SLess, now, len));
        let _ = self.code.put(Op::Branch(more, body, finish));
        self.enter_block(body);
        let elems = self.code.put(Op::Load(Width::I64, p, 0));
        let at = self.code.put(Op::Read(i));
        let eight = self.code.put(Op::Int(Width::I64, 8));
        let offset = self.code.put(Op::Arith(Arith::Mul, at, eight));
        let slot = self.code.put(Op::Arith(Arith::Add, elems, offset));
        self.code.put(Op::Load(Width::I64, slot, 0))
    }

    fn end_walk(&mut self, p: usize, i: usize, header: usize, finish: usize, done: usize)
        ensures
            final(self)@ == walk_ended(old(self)@, p, i, header, finish, done),
            final(self).env() == old(self).env(),
    {
        let from = self.code.put(Op::Read(i));
        let by = self.code.put(Op::Int(Width::I64, 1));
        let next = self.code.put(Op::Arith(Arith::Add, from, by));
        let _ = self.code.put(Op::Assign(i, next));
        self.jump(header);
        let _ = self.code.put(Op::Seal(header));
        self.enter_block(finish);
        let _ = self.runtime("release_vec", one(p));
        self.jump(done);
        self.enter_block(done);
        let _ = self.code.put(Op::Return(none()));
    }

    fn define_vec_release(&mut self, elem: &Ty) -> (r: Result<(), CodegenError>)
        requires
            old(self)@ == begun(0),
        ensures
            did(vec_release(old(self).env().hir, elem@), r, final(self)@),
            final(self).env() == old(self).env(),
    {
        let walk = self.code.put(Op::Block);
        let header = self.code.put(Op::Block);
        let body = self.code.put(Op::Block);
        let finish = self.code.put(Op::Block);
        let done = self.code.put(Op::Block);
        let (p, i) = self.begin_walk(walk, header, finish, done);
        let v = self.load_walked(p, i, body, finish);
        self.emit_release_field(elem, v)?;
        self.end_walk(p, i, header, finish, done);
        Ok(())
    }

    fn begin_last_one(&mut self, size: i32) -> (r: (usize, usize))
        requires
            old(self)@ == release_begun(),
        ensures
            (final(self)@, r.0, r.1) == last_one(size),
            final(self).env() == old(self).env(),
    {
        let p = self.next_op() - 1;
        let rc = self.code.put(Op::Load(Width::I64, p, size));
        let one = self.code.put(Op::Int(Width::I64, 1));
        let less = self.code.put(Op::Arith(Arith::Sub, rc, one));
        let _ = self.code.put(Op::Store(less, p, size));
        let zero = self.code.put(Op::Int(Width::I64, 0));
        let alive = self.code.put(Op::Compare(Cond::SGreater, less, zero));
        let free = self.code.put(Op::Block);
        let done = self.code.put(Op::Block);
        let _ = self.code.put(Op::Branch(alive, done, free));
        self.enter_block(free);
        (p, done)
    }

    fn release_array_elems(&mut self, p: usize, elem: &Ty, w: Width, each: u32, n: usize) -> (r: Result<
        (),
        CodegenError,
    >)
        ensures
            did(array_elems_released(old(self).env().hir, old(self)@, p, elem@, w, each, n), r, final(self)@),
            final(self).env() == old(self).env(),
    {
        let (counter, _) = self.begin_for(None, w);
        let header = self.code.put(Op::Block);
        let inside = self.code.put(Op::Block);
        let exit = self.code.put(Op::Block);
        self.count_rounds(counter, Some(n as i64), 0, header, inside, exit);
        let now = self.code.put(Op::Read(counter));
        let v = self.load_element(p, now, w, each);
        self.emit_release_field(elem, v)?;
        self.step(counter, header);
        self.close_loop(header, exit);
        Ok(())
    }

    fn define_array_release(&mut self, elem: &Ty, n: usize) -> (r: Result<(), CodegenError>)
        requires
            old(self)@ == release_begun(),
        ensures
            did(array_release(old(self).env().hir, elem@, n), r, final(self)@),
            final(self).env() == old(self).env(),
    {
        let w = cranelift_type(elem)?;
        let each = elem_size(elem)?;
        let size = array_size(n, each);
        let (p, done) = self.begin_last_one(size);
        if is_arc_type(self.hir, elem) {
            self.release_array_elems(p, elem, w, each, n)?;
        }
        self.free(p, size as i64, done);
        Ok(())
    }

    fn define_object_release(&mut self, t: SymbolId) -> (r: Result<(), CodegenError>)
        requires
            old(self)@ == release_begun(),
        ensures
            did(object_release(old(self).env().hir, t), r, final(self)@),
            final(self).env() == old(self).env(),
    {
        match self.hir.trait_methods_flat.get(&t) {
            None => failed("dyn: unknown trait".to_owned()),
            Some(slots) => {
                let n = slots.len();
                let size = object_bytes(n);
                let (p, done) = self.begin_last_one(size);
                let data = self.code.put(Op::Load(Width::I64, p, word_offset(n)));
                let f = self.code.put(Op::Load(Width::I64, p, next_word_offset(n)));
                let _ = self.code.put(Op::CallIndirect(one_word(), None, f, one(data)));
                self.free(p, size as i64, done);
                Ok(())
            },
        }
    }
}

fn one_word() -> (r: Vec<Width>)
    ensures
        r@ == seq![Width::I64],
{
    let mut r: Vec<Width> = Vec::new();
    r.push(Width::I64);
    assert(r@ =~= seq![Width::I64]);
    r
}

fn result_of(ret: Option<Width>, v: usize) -> (r: Option<usize>)
    ensures
        r == (match ret {
            Some(_) => Some(v),
            None => None,
        }),
{
    match ret {
        Some(_) => Some(v),
        None => None,
    }
}

fn int_arith(op: HirBinOp, signed: bool) -> (r: Option<Arith>)
    ensures
        r == int_op(op, signed),
{
    match op {
        HirBinOp::Add => Some(Arith::Add),
        HirBinOp::Sub => Some(Arith::Sub),
        HirBinOp::Mul => Some(Arith::Mul),
        HirBinOp::Div => Some(
            if signed {
                Arith::SDiv
            } else {
                Arith::UDiv
            },
        ),
        HirBinOp::Mod => Some(
            if signed {
                Arith::SRem
            } else {
                Arith::URem
            },
        ),
        HirBinOp::BitAnd => Some(Arith::And),
        HirBinOp::BitOr => Some(Arith::Or),
        HirBinOp::BitXor => Some(Arith::Xor),
        HirBinOp::Shl => Some(Arith::Shl),
        HirBinOp::Shr => Some(
            if signed {
                Arith::SShr
            } else {
                Arith::UShr
            },
        ),
        _ => None,
    }
}

fn float_arith(op: HirBinOp) -> (r: Option<Arith>)
    ensures
        r == float_op(op),
{
    match op {
        HirBinOp::Add => Some(Arith::FAdd),
        HirBinOp::Sub => Some(Arith::FSub),
        HirBinOp::Mul => Some(Arith::FMul),
        HirBinOp::Div => Some(Arith::FDiv),
        _ => None,
    }
}

fn int_comparison(op: HirBinOp, signed: bool) -> (r: Option<Cond>)
    ensures
        r == int_cond(op, signed),
{
    match op {
        HirBinOp::Eq => Some(Cond::Equal),
        HirBinOp::Ne => Some(Cond::NotEqual),
        HirBinOp::Lt => Some(
            if signed {
                Cond::SLess
            } else {
                Cond::ULess
            },
        ),
        HirBinOp::Gt => Some(
            if signed {
                Cond::SGreater
            } else {
                Cond::UGreater
            },
        ),
        HirBinOp::Le => Some(
            if signed {
                Cond::SLessEqual
            } else {
                Cond::ULessEqual
            },
        ),
        HirBinOp::Ge => Some(
            if signed {
                Cond::SGreaterEqual
            } else {
                Cond::UGreaterEqual
            },
        ),
        _ => None,
    }
}

fn float_comparison(op: HirBinOp) -> (r: Option<FloatCond>)
    ensures
        r == float_cond(op),
{
    match op {
        HirBinOp::Eq => Some(FloatCond::Equal),
        HirBinOp::Ne => Some(FloatCond::NotEqual),
        HirBinOp::Lt => Some(FloatCond::Less),
        HirBinOp::Gt => Some(FloatCond::Greater),
        HirBinOp::Le => Some(FloatCond::LessEqual),
        HirBinOp::Ge => Some(FloatCond::GreaterEqual),
        _ => None,
    }
}

/// What a conversion sees of a type.
#[derive(Clone, Copy)]
enum Shape {
    Int,
    Bool,
    Char,
    Float,
    Other,
}

fn shape_of(t: &Ty) -> (r: Shape)
    ensures
        (r is Int) == (t@ is Int),
        (r is Bool) == (t@ is Bool),
        (r is Char) == (t@ is Char),
        (r is Float) == (t@ is Float),
{
    match t {
        Ty::Int(_) => Shape::Int,
        Ty::Bool => Shape::Bool,
        Ty::Char => Shape::Char,
        Ty::Float(_) => Shape::Float,
        _ => Shape::Other,
    }
}

fn sign_extends(t: &Ty) -> (r: bool)
    ensures
        r == extends_sign(t@),
{
    match t {
        Ty::Int(IntTy::I8) => true,
        Ty::Int(IntTy::I16) => true,
        Ty::Int(IntTy::I32) => true,
        Ty::Int(IntTy::ISize) => true,
        _ => false,
    }
}

/// The machine types a method is called with through a trait object: a word
/// for the object's value, then the arguments'.
fn arg_widths(args: &Vec<HirExpr>) -> (r: Result<Vec<Width>, CodegenError>)
    ensures
        match r {
            Ok(ws) => widths_of(args@, args@.len()) matches Ok(xs) && ws@ == seq![Width::I64] + xs,
            Err(e) => widths_of(args@, args@.len()) == Err::<Seq<Width>, Seq<char>>(e.0@),
        },
{
    let mut out: Vec<Width> = Vec::new();
    out.push(Width::I64);
    let ghost mut xs: Seq<Width> = seq![];
    assert(out@ =~= seq![Width::I64] + xs);
    let mut i: usize = 0;
    while i < args.len()
        invariant
            i <= args.len(),
            widths_of(args@, i as nat) == Ok::<Seq<Width>, Seq<char>>(xs),
            out@ == seq![Width::I64] + xs,
        decreases args.len() - i,
    {
        proof {
            widths_stay(args@, (i + 1) as nat, args@.len());
        }
        let w = cranelift_type(&args[i].ty)?;
        out.push(w);
        proof {
            xs = xs.push(w);
            assert(out@ =~= seq![Width::I64] + xs);
        }
        i += 1;
    }
    Ok(out)
}

/// Whether some payload is counted.
fn has_counted(hir: &HirModule, ts: &Vec<Ty>) -> (r: bool)
    ensures
        r == any_counted(*hir, ts@, ts@.len()),
{
    let mut i: usize = 0;
    while i < ts.len()
        invariant
            i <= ts.len(),
            forall|j: int| 0 <= j < i ==> !is_counted(*hir, (#[trigger] ts@[j])@),
        decreases ts.len() - i,
    {
        if is_arc_type(hir, &ts[i]) {
            assert(is_counted(*hir, ts@[i as int]@));
            return true;
        }
        i += 1;
    }
    false
}

/// The type of the local a block ends with reading, when it is counted.
fn find_tail<'b>(hir: &HirModule, ss: &'b Vec<HirStmt>) -> (r: Option<&'b Ty>)
    ensures
        opt_ty(r) == tail_held(*hir, ss@),
{
    let n = ss.len();
    if n == 0 {
        return None;
    }
    match &ss[n - 1] {
        HirStmt::Expr(e, semi) => {
            if !*semi && reads_held(e) && is_arc_type(hir, &e.ty) {
                Some(&e.ty)
            } else {
                None
            }
        },
        _ => None,
    }
}

// ---- an error stays an error ----

proof fn payloads_stay(g: Gen, v: usize, bs: Seq<(Ty, Option<SymbolId>)>, i: nat, k: nat)
    requires
        i <= k <= bs.len(),
    ensures
        payloads_bound(g, v, bs, i) is Err ==> payloads_bound(g, v, bs, k) == payloads_bound(g, v, bs, i),
    decreases k,
{
    if i < k {
        payloads_stay(g, v, bs, i, (k - 1) as nat);
    }
}

proof fn alternatives_stay(hir: HirModule, g: Gen, ps: Seq<HirPattern>, v: usize, t: TyV, body: usize, next: usize, i: nat, k: nat)
    requires
        i <= k <= ps.len(),
    ensures
        alternatives_checked(hir, g, ps, v, t, body, next, i) is Err ==> alternatives_checked(hir, g, ps, v, t, body, next, k) == alternatives_checked(hir, g, ps, v, t, body, next, i),
    decreases k,
{
    if i < k {
        alternatives_stay(hir, g, ps, v, t, body, next, i, (k - 1) as nat);
    }
}

proof fn values_stay(env: Env, g: Gen, es: Seq<HirExpr>, msg: Seq<char>, i: nat, k: nat)
    requires
        i <= k <= es.len(),
    ensures
        all_made(env, g, es, msg, i) is Err ==> all_made(env, g, es, msg, k) == all_made(env, g, es, msg, i),
    decreases k,
{
    if i < k {
        values_stay(env, g, es, msg, i, (k - 1) as nat);
    }
}

proof fn payloads_made_stay(env: Env, g: Gen, ps: Seq<HirExpr>, p: usize, i: nat, k: nat)
    requires
        i <= k <= ps.len(),
    ensures
        payloads_made(env, g, ps, p, i) is Err ==> payloads_made(env, g, ps, p, k) == payloads_made(env, g, ps, p, i),
    decreases k,
{
    if i < k {
        payloads_made_stay(env, g, ps, p, i, (k - 1) as nat);
    }
}

proof fn fields_stay(env: Env, g: Gen, fs: Seq<(u32, HirExpr)>, p: usize, i: nat, k: nat)
    requires
        i <= k <= fs.len(),
    ensures
        fields_made(env, g, fs, p, i) is Err ==> fields_made(env, g, fs, p, k) == fields_made(env, g, fs, p, i),
    decreases k,
{
    if i < k {
        fields_stay(env, g, fs, p, i, (k - 1) as nat);
    }
}

proof fn elems_stay(env: Env, g: Gen, es: Seq<HirExpr>, slot: usize, each: u32, i: nat, k: nat)
    requires
        i <= k <= es.len(),
    ensures
        elems_made(env, g, es, slot, each, i) is Err ==> elems_made(env, g, es, slot, each, k) == elems_made(env, g, es, slot, each, i),
    decreases k,
{
    if i < k {
        elems_stay(env, g, es, slot, each, i, (k - 1) as nat);
    }
}

proof fn table_stays(env: Env, g: Gen, s: SymbolId, names: Seq<Seq<char>>, cell: usize, i: nat, k: nat)
    requires
        i <= k <= names.len(),
    ensures
        table_made(env, g, s, names, cell, i) is Err ==> table_made(env, g, s, names, cell, k) == table_made(env, g, s, names, cell, i),
    decreases k,
{
    if i < k {
        table_stays(env, g, s, names, cell, i, (k - 1) as nat);
    }
}

proof fn arms_stay(env: Env, g: Gen, arms: Seq<HirMatchArm>, v: usize, t: TyV, blocks: Seq<usize>, merge: usize, wants: bool, i: nat, k: nat)
    requires
        i <= k <= arms.len(),
    ensures
        arms_made(env, g, arms, v, t, blocks, merge, wants, i) is Err ==> arms_made(env, g, arms, v, t, blocks, merge, wants, k) == arms_made(env, g, arms, v, t, blocks, merge, wants, i),
    decreases k,
{
    if i < k {
        arms_stay(env, g, arms, v, t, blocks, merge, wants, i, (k - 1) as nat);
    }
}

proof fn params_stay(g: Gen, ps: Seq<HirParam>, i: nat, k: nat)
    requires
        i <= k <= ps.len(),
    ensures
        params_made(g, ps, i) is Err ==> params_made(g, ps, k) == params_made(g, ps, i),
    decreases k,
{
    if i < k {
        params_stay(g, ps, i, (k - 1) as nat);
    }
}

proof fn released_fields_stay(hir: HirModule, g: Gen, p: usize, fs: Seq<(u32, Ty)>, i: nat, k: nat)
    requires
        i <= k <= fs.len(),
    ensures
        fields_released(hir, g, p, fs, i) is Err ==> fields_released(hir, g, p, fs, k) == fields_released(hir, g, p, fs, i),
    decreases k,
{
    if i < k {
        released_fields_stay(hir, g, p, fs, i, (k - 1) as nat);
    }
}

proof fn released_payloads_stay(hir: HirModule, g: Gen, p: usize, ts: Seq<Ty>, i: nat, k: nat)
    requires
        i <= k <= ts.len(),
    ensures
        payloads_released(hir, g, p, ts, i) is Err ==> payloads_released(hir, g, p, ts, k) == payloads_released(hir, g, p, ts, i),
    decreases k,
{
    if i < k {
        released_payloads_stay(hir, g, p, ts, i, (k - 1) as nat);
    }
}

proof fn released_variants_stay(hir: HirModule, g: Gen, p: usize, tag: usize, dealloc: usize, vs: Seq<Vec<Ty>>, i: nat, k: nat)
    requires
        i <= k <= vs.len(),
    ensures
        variants_released(hir, g, p, tag, dealloc, vs, i) is Err ==> variants_released(hir, g, p, tag, dealloc, vs, k) == variants_released(hir, g, p, tag, dealloc, vs, i),
    decreases k,
{
    if i < k {
        released_variants_stay(hir, g, p, tag, dealloc, vs, i, (k - 1) as nat);
    }
}

proof fn widths_stay(es: Seq<HirExpr>, i: nat, k: nat)
    requires
        i <= k <= es.len(),
    ensures
        widths_of(es, i) is Err ==> widths_of(es, k) == widths_of(es, i),
    decreases k,
{
    if i < k {
        widths_stay(es, i, (k - 1) as nat);
    }
}

/// Once a statement ended its block for good, or failed, the rest changes
/// nothing.
proof fn stmts_stay(env: Env, g: Gen, ss: Seq<HirStmt>, i: nat, k: nat)
    requires
        i <= k <= ss.len(),
    ensures
        stmts_made(env, g, ss, i) is Err ==> stmts_made(env, g, ss, k) == stmts_made(env, g, ss, i),
        stmts_made(env, g, ss, i) matches Ok(x) && x.2 ==> stmts_made(env, g, ss, k) == stmts_made(env, g, ss, i),
    decreases k,
{
    if i < k {
        stmts_stay(env, g, ss, i, (k - 1) as nat);
    }
}

/// Counting references leaves the owning locals as they are.
proof fn counting_keeps_owned(hir: HirModule, g: Gen, release: bool, t: TyV, v: usize)
    ensures
        count_call(hir, g, release, t, v) matches Ok(g1) ==> g1.owned == g.owned,
{
}

// ---- modules ----

/// A function's code.
#[derive(Debug)]
pub struct FnCode {
    pub sym: SymbolId,
    pub name: String,
    pub params: Vec<Width>,
    pub ret: Option<Width>,
    pub ops: Vec<Op>,
}

/// A release function: it takes one word and returns nothing.
#[derive(Debug)]
pub struct ReleaseFn {
    pub name: String,
    pub ops: Vec<Op>,
}

/// The code of a module.
#[derive(Debug)]
pub struct ModuleCode {
    pub fns: Vec<FnCode>,
    pub structs: Vec<(SymbolId, ReleaseFn)>,
    pub enums: Vec<(SymbolId, ReleaseFn)>,
    /// In the order of the module's counted element types.
    pub vecs: Vec<ReleaseFn>,
    /// In the order of the module's array types.
    pub arrays: Vec<ReleaseFn>,
    pub objects: Vec<(SymbolId, ReleaseFn)>,
}

pub open spec fn fn_code_view(f: FnCode) -> FnCodeV {
    FnCodeV { sym: f.sym, name: f.name@, params: f.params@, ret: f.ret, ops: op_views(f.ops@) }
}

pub open spec fn fn_code_views(fs: Seq<FnCode>) -> Seq<FnCodeV> {
    Seq::new(fs.len(), |i: int| fn_code_view(fs[i]))
}

pub open spec fn release_view(r: ReleaseFn) -> ReleaseV {
    ReleaseV { name: r.name@, ops: op_views(r.ops@) }
}

pub open spec fn release_views(rs: Seq<ReleaseFn>) -> Seq<ReleaseV> {
    Seq::new(rs.len(), |i: int| release_view(rs[i]))
}

pub open spec fn keyed_views(rs: Seq<(SymbolId, ReleaseFn)>) -> Seq<(SymbolId, ReleaseV)> {
    Seq::new(rs.len(), |i: int| (rs[i].0, release_view(rs[i].1)))
}

/// How hard the machine code is optimized.
#[derive(Debug, Clone, Copy, PartialEq, Eq, Structural)]
pub enum OptLevel {
    Unoptimized,
    Speed,
    SpeedAndSize,
}

impl OptLevel {
    /// The name of the setting.
    pub fn as_str(self) -> (r: &'static str)
        ensures
            r@ == (match self {
                OptLevel::Unoptimized => "none"@,
                OptLevel::Speed => "speed"@,
                OptLevel::SpeedAndSize => "speed_and_size"@,
            }),
    {
        match self {
            OptLevel::Unoptimized => "none",
            OptLevel::Speed => "speed",
            OptLevel::SpeedAndSize => "speed_and_size",
        }
    }
}

fn fn_widths(f: &HirFn) -> (r: Result<(Vec<Width>, Option<Width>), CodegenError>)
    ensures
        match r {
            Ok(x) => fn_sig_of(*f) == Ok::<(Seq<Width>, Option<Width>), Seq<char>>((x.0@, x.1)),
            Err(e) => fn_sig_of(*f) == Err::<(Seq<Width>, Option<Width>), Seq<char>>(e.0@),
        },
{
    let ps = &f.params;
    let mut out: Vec<Width> = Vec::new();
    let mut i: usize = 0;
    while i < ps.len()
        invariant
            i <= ps.len(),
            ps@ == f.params@,
            param_widths(ps@, i as nat) == Ok::<Seq<Width>, Seq<char>>(out@),
        decreases ps.len() - i,
    {
        proof {
            param_widths_stay(ps@, (i + 1) as nat, ps@.len());
        }
        let w = cranelift_type(&ps[i].ty)?;
        out.push(w);
        i += 1;
    }
    match f.ret_ty {
        Ty::Unit => Ok((out, None)),
        _ => {
            let w = cranelift_type(&f.ret_ty)?;
            Ok((out, Some(w)))
        },
    }
}

/// The text of a type in the name of a release function.
pub fn mangle_ty_name(t: &Ty) -> (r: String)
    ensures
        r@ == code_text(t@),
    decreases t, 0nat,
{
    match t {
        Ty::Bool => "bool".to_owned(),
        Ty::Char => "char".to_owned(),
        Ty::Int(i) => i.name().to_owned(),
        Ty::Float(f) => f.name().to_owned(),
        Ty::Str => "str".to_owned(),
        Ty::Unit => "unit".to_owned(),
        Ty::Vec(e) => cat2("Vec_", mangle_ty_name(e).as_str()),
        Ty::Weak(e) => cat2("Weak_", mangle_ty_name(e).as_str()),
        Ty::HashMap(k, v) => cat3("Map_", mangle_ty_name(k).as_str(), mangle_ty_name(v).as_str()),
        Ty::Array(e, n) => cat3("Arr", mark_number(*n).as_str(), mangle_ty_name(e).as_str()),
        Ty::Struct(s, args) => cat3("S", mark_number(s.0 as usize).as_str(), mangle_ty_args(args).as_str()),
        Ty::Enum(s, args) => cat3("E", mark_number(s.0 as usize).as_str(), mangle_ty_args(args).as_str()),
        Ty::TypeVar(s) => cat2("T", mark_number(s.0 as usize).as_str()),
        Ty::Dyn(s, args) => cat3("dyn", mark_number(s.0 as usize).as_str(), mangle_ty_args(args).as_str()),
        Ty::Fn { params, ret } => cat3("fn", mangle_ty_args(params).as_str(), mangle_ty_name(ret).as_str()),
        Ty::Never => "never".to_owned(),
        Ty::Error => "err".to_owned(),
        Ty::SelfType => "self".to_owned(),
        Ty::Assoc(b, n) => cat4(
            "P",
            mark_number(chars_of(n.as_str()).len()).as_str(),
            n.as_str(),
            mangle_ty_name(b).as_str(),
        ),
    }
}

fn mark_number(n: usize) -> (r: String)
    ensures
        r@ == counted_text(n as nat),
{
    cat2(number(n).as_str(), "_")
}

fn mangle_ty_args(args: &Vec<Ty>) -> (r: String)
    ensures
        r@ == code_args(ty_views(args@)),
    decreases args, 1nat,
{
    assert(ty_views(args@).len() == args.len());
    let rest = mangle_tys_from(args, 0);
    cat2(mark_number(args.len()).as_str(), rest.as_str())
}

fn mangle_tys_from(args: &Vec<Ty>, k: usize) -> (r: String)
    requires
        k <= args.len(),
    ensures
        r@ == code_texts_from(ty_views(args@), k as nat),
    decreases args, 0nat, args.len() - k,
{
    assert(ty_views(args@).len() == args.len());
    if k >= args.len() {
        let r = String::new();
        assert(r@ =~= seq![]);
        return r;
    }
    let first = mangle_ty_name(&args[k]);
    let rest = mangle_tys_from(args, k + 1);
    cat2(first.as_str(), rest.as_str())
}

/// A code generator: what it has declared, and how many texts it numbered.
pub struct Codegen {
    sigs: Table<SymbolId, Option<Width>>,
    texts: u32,
}

impl Codegen {
    /// What each declared function returns.
    pub closed spec fn sigs(self) -> Map<SymbolId, Option<Width>> {
        self.sigs@
    }

    pub closed spec fn texts(self) -> u32 {
        self.texts
    }

    pub fn new() -> (r: Self)
        ensures
            r.sigs() == Map::<SymbolId, Option<Width>>::empty(),
            r.texts() == 0,
    {
        Codegen { sigs: Table::new(), texts: 0 }
    }

    /// Declares every function.
    fn declare_fns(&mut self, items: &Vec<HirItem>) -> (r: Result<(), CodegenError>)
        ensures
            match r {
                Ok(_) => declared_sigs(old(self).sigs(), items@, items@.len()) == Ok::<
                    Map<SymbolId, Option<Width>>,
                    Seq<char>,
                >(final(self).sigs()),
                Err(e) => declared_sigs(old(self).sigs(), items@, items@.len()) == Err::<
                    Map<SymbolId, Option<Width>>,
                    Seq<char>,
                >(e.0@),
            },
            final(self).sigs() == sigs_so_far(old(self).sigs(), items@, items@.len()),
            final(self).texts() == old(self).texts(),
    {
        let ghost known = self.sigs();
        let mut i: usize = 0;
        while i < items.len()
            invariant
                i <= items.len(),
                known == old(self).sigs(),
                self.texts() == old(self).texts(),
                declared_sigs(known, items@, i as nat) == Ok::<Map<SymbolId, Option<Width>>, Seq<char>>(self.sigs()),
            decreases items.len() - i,
        {
            proof {
                declared_stay(known, items@, (i + 1) as nat, items@.len());
                failed_sigs_stay(known, items@, (i + 1) as nat, items@.len());
            }
            let HirItem::Fn(f) = &items[i];
            let (_, ret) = fn_widths(f)?;
            self.sigs.insert(f.sym, ret);
            i += 1;
        }
        Ok(())
    }

    /// The code of a function.
    fn define_fn(&self, hir: &HirModule, texts: u32, f: &HirFn) -> (r: Result<(FnCode, u32), CodegenError>)
        ensures
            match r {
                Ok(x) => fn_code(Env { hir: *hir, fns: self.sigs() }, texts, *f) == Ok::<(FnCodeV, u32), Seq<char>>(
                    (fn_code_view(x.0), x.1),
                ),
                Err(e) => fn_code(Env { hir: *hir, fns: self.sigs() }, texts, *f) == Err::<
                    (FnCodeV, u32),
                    Seq<char>,
                >(e.0@),
            },
    {
        let mut fc = FnCodegen { hir, fns: &self.sigs, code: Emitter::new(texts) };
        let entry = fc.code.put(Op::Block);
        fc.enter_block(entry);
        assert(fc@ == begun(texts));
        fc.compile_params(&f.params)?;
        let v = fc.compile_block(&f.body)?;
        fc.close_fn(f, v)?;
        let (params, ret) = fn_widths(f)?;
        let (ops, n) = fc.code.finish();
        Ok((FnCode { sym: f.sym, name: f.name.clone(), params, ret, ops }, n))
    }

    fn define_fns(&self, hir: &HirModule, texts: u32) -> (r: Result<(Vec<FnCode>, u32), CodegenError>)
        ensures
            match r {
                Ok(x) => fns_made(Env { hir: *hir, fns: self.sigs() }, texts, hir.items@, hir.items@.len()) == Ok::<
                    (Seq<FnCodeV>, u32),
                    Seq<char>,
                >((fn_code_views(x.0@), x.1)),
                Err(e) => fns_made(Env { hir: *hir, fns: self.sigs() }, texts, hir.items@, hir.items@.len())
                    == Err::<(Seq<FnCodeV>, u32), Seq<char>>(e.0@),
            },
    {
        let ghost env = Env { hir: *hir, fns: self.sigs() };
        let items = &hir.items;
        let mut out: Vec<FnCode> = Vec::new();
        assert(fn_code_views(out@) =~= seq![]);
        let mut n = texts;
        let mut i: usize = 0;
        while i < items.len()
            invariant
                i <= items.len(),
                items@ == hir.items@,
                env == (Env { hir: *hir, fns: self.sigs() }),
                fns_made(env, texts, items@, i as nat) == Ok::<(Seq<FnCodeV>, u32), Seq<char>>(
                    (fn_code_views(out@), n),
                ),
            decreases items.len() - i,
        {
            proof {
                fns_stay(env, texts, items@, (i + 1) as nat, items@.len());
            }
            let HirItem::Fn(f) = &items[i];
            let (code, next) = self.define_fn(hir, n, f)?;
            n = next;
            let ghost before = fn_code_views(out@);
            out.push(code);
            assert(fn_code_views(out@) =~= before.push(fn_code_view(code)));
            i += 1;
        }
        Ok((out, n))
    }

    fn define_struct_releases(&self, hir: &HirModule) -> (r: Result<Vec<(SymbolId, ReleaseFn)>, CodegenError>)
        ensures
            match r {
                Ok(x) => structs_made(*hir, hir.struct_sizes.items(), hir.struct_sizes.items().len()) == Ok::<
                    Seq<(SymbolId, ReleaseV)>,
                    Seq<char>,
                >(keyed_views(x@)),
                Err(e) => structs_made(*hir, hir.struct_sizes.items(), hir.struct_sizes.items().len()) == Err::<
                    Seq<(SymbolId, ReleaseV)>,
                    Seq<char>,
                >(e.0@),
            },
    {
        let n = hir.struct_sizes.len();
        let ghost items = hir.struct_sizes.items();
        let mut out: Vec<(SymbolId, ReleaseFn)> = Vec::new();
        assert(keyed_views(out@) =~= seq![]);
        let mut i: usize = 0;
        while i < n
            invariant
                i <= n,
                n == items.len(),
                items == hir.struct_sizes.items(),
                structs_made(*hir, items, i as nat) == Ok::<Seq<(SymbolId, ReleaseV)>, Seq<char>>(keyed_views(out@)),
            decreases n - i,
        {
            proof {
                structs_stay(*hir, items, (i + 1) as nat, items.len());
            }
            let s = hir.struct_sizes.entry(i).0;
            let mut fc = self.release_fn(hir);
            let _ = fc.code.put(Op::Param(0));
            fc.define_struct_release(s)?;
            let (ops, _) = fc.code.finish();
            let name = cat2("__rune_release_struct$", number(s.0 as usize).as_str());
            let ghost before = keyed_views(out@);
            out.push((s, ReleaseFn { name, ops }));
            assert(keyed_views(out@) =~= before.push((s, ReleaseV { name: name@, ops: op_views(ops@) })));
            i += 1;
        }
        Ok(out)
    }

    /// The start of a release function.
    fn release_fn<'b>(&'b self, hir: &'b HirModule) -> (r: FnCodegen<'b>)
        ensures
            r@ == begun(0),
            r.env() == (Env { hir: *hir, fns: self.sigs() }),
    {
        let mut fc = FnCodegen { hir, fns: &self.sigs, code: Emitter::new(0) };
        let entry = fc.code.put(Op::Block);
        fc.enter_block(entry);
        fc
    }

    fn define_enum_releases(&self, hir: &HirModule) -> (r: Result<Vec<(SymbolId, ReleaseFn)>, CodegenError>)
        ensures
            match r {
                Ok(x) => enums_made(*hir, hir.enum_has_payload@, hir.enum_has_payload@.len()) == Ok::<
                    Seq<(SymbolId, ReleaseV)>,
                    Seq<char>,
                >(keyed_views(x@)),
                Err(e) => enums_made(*hir, hir.enum_has_payload@, hir.enum_has_payload@.len()) == Err::<
                    Seq<(SymbolId, ReleaseV)>,
                    Seq<char>,
                >(e.0@),
            },
    {
        let syms = &hir.enum_has_payload;
        let mut out: Vec<(SymbolId, ReleaseFn)> = Vec::new();
        assert(keyed_views(out@) =~= seq![]);
        let mut i: usize = 0;
        while i < syms.len()
            invariant
                i <= syms.len(),
                syms@ == hir.enum_has_payload@,
                enums_made(*hir, syms@, i as nat) == Ok::<Seq<(SymbolId, ReleaseV)>, Seq<char>>(keyed_views(out@)),
            decreases syms.len() - i,
        {
            proof {
                enums_stay(*hir, syms@, (i + 1) as nat, syms@.len());
            }
            let s = syms[i];
            let mut fc = self.release_fn(hir);
            let _ = fc.code.put(Op::Param(0));
            fc.define_enum_release(s)?;
            let (ops, _) = fc.code.finish();
            let name = cat2("__rune_release_enum$", number(s.0 as usize).as_str());
            let ghost before = keyed_views(out@);
            out.push((s, ReleaseFn { name, ops }));
            assert(keyed_views(out@) =~= before.push((s, ReleaseV { name: name@, ops: op_views(ops@) })));
            i += 1;
        }
        Ok(out)
    }

    fn define_vec_releases(&self, hir: &HirModule) -> (r: Result<Vec<ReleaseFn>, CodegenError>)
        ensures
            match r {
                Ok(x) => vecs_made(*hir, hir.vec_arc_elem_tys@, hir.vec_arc_elem_tys@.len()) == Ok::<
                    Seq<ReleaseV>,
                    Seq<char>,
                >(release_views(x@)),
                Err(e) => vecs_made(*hir, hir.vec_arc_elem_tys@, hir.vec_arc_elem_tys@.len()) == Err::<
                    Seq<ReleaseV>,
                    Seq<char>,
                >(e.0@),
            },
    {
        let ts = &hir.vec_arc_elem_tys;
        let mut out: Vec<ReleaseFn> = Vec::new();
        assert(release_views(out@) =~= seq![]);
        let mut i: usize = 0;
        while i < ts.len()
            invariant
                i <= ts.len(),
                ts@ == hir.vec_arc_elem_tys@,
                vecs_made(*hir, ts@, i as nat) == Ok::<Seq<ReleaseV>, Seq<char>>(release_views(out@)),
            decreases ts.len() - i,
        {
            proof {
                vecs_stay(*hir, ts@, (i + 1) as nat, ts@.len());
            }
            let mut fc = self.release_fn(hir);
            fc.define_vec_release(&ts[i])?;
            let (ops, _) = fc.code.finish();
            let name = cat2("__rune_release_vec$", mangle_ty_name(&ts[i]).as_str());
            let ghost before = release_views(out@);
            out.push(ReleaseFn { name, ops });
            assert(release_views(out@) =~= before.push(ReleaseV { name: name@, ops: op_views(ops@) }));
            i += 1;
        }
        Ok(out)
    }

    fn define_array_releases(&self, hir: &HirModule) -> (r: Result<Vec<ReleaseFn>, CodegenError>)
        ensures
            match r {
                Ok(x) => arrays_made(*hir, hir.array_tys@, hir.array_tys@.len()) == Ok::<Seq<ReleaseV>, Seq<char>>(
                    release_views(x@),
                ),
                Err(e) => arrays_made(*hir, hir.array_tys@, hir.array_tys@.len()) == Err::<Seq<ReleaseV>, Seq<char>>(
                    e.0@,
                ),
            },
    {
        let ts = &hir.array_tys;
        let mut out: Vec<ReleaseFn> = Vec::new();
        assert(release_views(out@) =~= seq![]);
        let mut i: usize = 0;
        while i < ts.len()
            invariant
                i <= ts.len(),
                ts@ == hir.array_tys@,
                arrays_made(*hir, ts@, i as nat) == Ok::<Seq<ReleaseV>, Seq<char>>(release_views(out@)),
            decreases ts.len() - i,
        {
            proof {
                arrays_stay(*hir, ts@, (i + 1) as nat, ts@.len());
            }
            let (elem, n) = match &ts[i] {
                Ty::Array(e, n) => (e, *n),
                _ => {
                    return failed(cat3("not an array type: `", ts[i].display().as_str(), "`"));
                },
            };
            let mut fc = self.release_fn(hir);
            let _ = fc.code.put(Op::Param(0));
            fc.define_array_release(elem, n)?;
            let (ops, _) = fc.code.finish();
            let name = cat2("__rune_release_array$", mangle_ty_name(&ts[i]).as_str());
            let ghost before = release_views(out@);
            out.push(ReleaseFn { name, ops });
            assert(release_views(out@) =~= before.push(ReleaseV { name: name@, ops: op_views(ops@) }));
            i += 1;
        }
        Ok(out)
    }

    fn define_object_releases(&self, hir: &HirModule) -> (r: Result<Vec<(SymbolId, ReleaseFn)>, CodegenError>)
        ensures
            match r {
                Ok(x) => objects_made(*hir, hir.trait_methods_flat.items(), hir.trait_methods_flat.items().len()) == Ok::<
                    Seq<(SymbolId, ReleaseV)>,
                    Seq<char>,
                >(keyed_views(x@)),
                Err(e) => objects_made(*hir, hir.trait_methods_flat.items(), hir.trait_methods_flat.items().len()) == Err::<
                    Seq<(SymbolId, ReleaseV)>,
                    Seq<char>,
                >(e.0@),
            },
    {
        let n = hir.trait_methods_flat.len();
        let ghost items = hir.trait_methods_flat.items();
        let mut out: Vec<(SymbolId, ReleaseFn)> = Vec::new();
        assert(keyed_views(out@) =~= seq![]);
        let mut i: usize = 0;
        while i < n
            invariant
                i <= n,
                n == items.len(),
                items == hir.trait_methods_flat.items(),
                objects_made(*hir, items, i as nat) == Ok::<Seq<(SymbolId, ReleaseV)>, Seq<char>>(keyed_views(out@)),
            decreases n - i,
        {
            proof {
                objects_stay(*hir, items, (i + 1) as nat, items.len());
            }
            let s = hir.trait_methods_flat.entry(i).0;
            let mut fc = self.release_fn(hir);
            let _ = fc.code.put(Op::Param(0));
            fc.define_object_release(s)?;
            let (ops, _) = fc.code.finish();
            let name = cat2("__rune_release_dyn$", number(s.0 as usize).as_str());
            let ghost before = keyed_views(out@);
            out.push((s, ReleaseFn { name, ops }));
            assert(keyed_views(out@) =~= before.push((s, ReleaseV { name: name@, ops: op_views(ops@) })));
            i += 1;
        }
        Ok(out)
    }

    /// Generates the code of a program.
    pub fn compile_module(&mut self, hir: &HirModule) -> (r: Result<ModuleCode, CodegenError>)
        ensures
            match r {
                Ok(c) => module_made(old(self).sigs(), old(self).texts(), *hir) == Ok::<ModuleCodeV, Seq<char>>(
                    ModuleCodeV {
                        fns: fn_code_views(c.fns@),
                        structs: keyed_views(c.structs@),
                        enums: keyed_views(c.enums@),
                        vecs: release_views(c.vecs@),
                        arrays: release_views(c.arrays@),
                        objects: keyed_views(c.objects@),
                        sigs: final(self).sigs(),
                        texts: final(self).texts(),
                    },
                ),
                Err(e) => {
                    &&& module_made(old(self).sigs(), old(self).texts(), *hir) == Err::<ModuleCodeV, Seq<char>>(e.0@)
                    &&& final(self).texts() == old(self).texts()
                    &&& final(self).sigs() == sigs_so_far(old(self).sigs(), hir.items@, hir.items@.len())
                },
            },
    {
        self.declare_fns(&hir.items)?;
        let (fns, texts) = self.define_fns(hir, self.texts)?;
        let structs = self.define_struct_releases(hir)?;
        let enums = self.define_enum_releases(hir)?;
        let vecs = self.define_vec_releases(hir)?;
        let arrays = self.define_array_releases(hir)?;
        let objects = self.define_object_releases(hir)?;
        self.texts = texts;
        Ok(ModuleCode { fns, structs, enums, vecs, arrays, objects })
    }

    /// What a declared function returns; `None` for an undeclared one.
    pub fn func_id(&self, sym: SymbolId) -> (r: Option<Option<Width>>)
        ensures
            r == lookup(self.sigs(), sym),
    {
        match self.sigs.get(&sym) {
            Some(w) => Some(*w),
            None => None,
        }
    }

    /// The entry the operating system calls.
    pub fn emit_c_main_wrapper(&self, rune_main: SymbolId) -> (r: Vec<Op>)
        ensures
            op_views(r@) == main_wrapper(rune_main),
    {
        let mut code = Emitter::new(0);
        let entry = code.put(Op::Block);
        let _ = code.put(Op::Switch(entry));
        let _ = code.put(Op::Seal(entry));
        let v = code.put(Op::Call(Callee::Fn(rune_main), none()));
        let exit = code.put(Op::Convert(Conversion::Truncate, Width::I32, v));
        let _ = code.put(Op::Return(one(exit)));
        let (ops, _) = code.finish();
        ops
    }
}

proof fn param_widths_stay(ps: Seq<HirParam>, i: nat, k: nat)
    requires
        i <= k <= ps.len(),
    ensures
        param_widths(ps, i) is Err ==> param_widths(ps, k) == param_widths(ps, i),
    decreases k,
{
    if i < k {
        param_widths_stay(ps, i, (k - 1) as nat);
    }
}

proof fn failed_sigs_stay(known: Map<SymbolId, Option<Width>>, items: Seq<HirItem>, i: nat, k: nat)
    requires
        0 < i <= k <= items.len(),
        declared_sigs(known, items, (i - 1) as nat) is Ok,
    ensures
        declared_sigs(known, items, i) is Err ==> Ok::<Map<SymbolId, Option<Width>>, Seq<char>>(
            sigs_so_far(known, items, k),
        ) == declared_sigs(known, items, (i - 1) as nat),
    decreases k,
{
    if declared_sigs(known, items, i) is Err {
        declared_stay(known, items, i, k);
        assert(Ok::<Map<SymbolId, Option<Width>>, Seq<char>>(sigs_so_far(known, items, (i - 1) as nat))
            == declared_sigs(known, items, (i - 1) as nat));
        if i < k {
            failed_sigs_stay(known, items, i, (k - 1) as nat);
        }
    }
}

proof fn declared_stay(known: Map<SymbolId, Option<Width>>, items: Seq<HirItem>, i: nat, k: nat)
    requires
        i <= k <= items.len(),
    ensures
        declared_sigs(known, items, i) is Err ==> declared_sigs(known, items, k) == declared_sigs(known, items, i),
    decreases k,
{
    if i < k {
        declared_stay(known, items, i, (k - 1) as nat);
    }
}

proof fn fns_stay(env: Env, texts: u32, items: Seq<HirItem>, i: nat, k: nat)
    requires
        i <= k <= items.len(),
    ensures
        fns_made(env, texts, items, i) is Err ==> fns_made(env, texts, items, k) == fns_made(env, texts, items, i),
    decreases k,
{
    if i < k {
        fns_stay(env, texts, items, i, (k - 1) as nat);
    }
}

proof fn structs_stay(hir: HirModule, items: Seq<(SymbolId, u32)>, i: nat, k: nat)
    requires
        i <= k <= items.len(),
    ensures
        structs_made(hir, items, i) is Err ==> structs_made(hir, items, k) == structs_made(hir, items, i),
    decreases k,
{
    if i < k {
        structs_stay(hir, items, i, (k - 1) as nat);
    }
}

proof fn enums_stay(hir: HirModule, syms: Seq<SymbolId>, i: nat, k: nat)
    requires
        i <= k <= syms.len(),
    ensures
        enums_made(hir, syms, i) is Err ==> enums_made(hir, syms, k) == enums_made(hir, syms, i),
    decreases k,
{
    if i < k {
        enums_stay(hir, syms, i, (k - 1) as nat);
    }
}

proof fn vecs_stay(hir: HirModule, ts: Seq<Ty>, i: nat, k: nat)
    requires
        i <= k <= ts.len(),
    ensures
        vecs_made(hir, ts, i) is Err ==> vecs_made(hir, ts, k) == vecs_made(hir, ts, i),
    decreases k,
{
    if i < k {
        vecs_stay(hir, ts, i, (k - 1) as nat);
    }
}

proof fn objects_stay(hir: HirModule, items: Seq<(SymbolId, Vec<(SymbolId, String)>)>, i: nat, k: nat)
    requires
        i <= k <= items.len(),
    ensures
        objects_made(hir, items, i) is Err ==> objects_made(hir, items, k) == objects_made(hir, items, i),
    decreases k,
{
    if i < k {
        objects_stay(hir, items, i, (k - 1) as nat);
    }
}

proof fn arrays_stay(hir: HirModule, ts: Seq<Ty>, i: nat, k: nat)
    requires
        i <= k <= ts.len(),
    ensures
        arrays_made(hir, ts, i) is Err ==> arrays_made(hir, ts, k) == arrays_made(hir, ts, i),
    decreases k,
{
    if i < k {
        arrays_stay(hir, ts, i, (k - 1) as nat);
    }
}

} // verus!
