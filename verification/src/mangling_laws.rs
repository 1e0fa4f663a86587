//! The texts of types in the names of release functions tell types apart.

use vstd::prelude::*;

use crate::rules::{
    array_release_name, code_args, code_text, code_texts_from, counted_text, vec_release_name,
};
use crate::text::{dec, digit_char};
use crate::ty::{FloatTy, IntTy, SymbolId, TyV};

verus! {

proof fn digits_differ(a: nat, b: nat)
    requires
        a < 10,
        b < 10,
        digit_char(a) == digit_char(b),
    ensures
        a == b,
{
}

/// A number is written with digits, and with one at least.
proof fn numbers_are_digits(n: nat)
    ensures
        dec(n).len() > 0,
        forall|i: int| 0 <= i < dec(n).len() ==> (#[trigger] dec(n)[i]) != '_',
    decreases n,
{
    if n >= 10 {
        numbers_are_digits(n / 10);
    }
}

proof fn numbers_differ(a: nat, b: nat)
    requires
        dec(a) == dec(b),
    ensures
        a == b,
    decreases a,
{
    numbers_are_digits(a);
    numbers_are_digits(b);
    if a >= 10 {
        numbers_are_digits(a / 10);
        if b >= 10 {
            numbers_are_digits(b / 10);
            assert(dec(a).drop_last() =~= dec(a / 10));
            assert(dec(b).drop_last() =~= dec(b / 10));
            numbers_differ(a / 10, b / 10);
            assert(dec(a).last() == digit_char(a % 10));
            assert(dec(b).last() == digit_char(b % 10));
            digits_differ(a % 10, b % 10);
        } else {
            assert(dec(a).len() == dec(a / 10).len() + 1);
            assert(dec(b).len() == 1);
        }
    } else {
        if b >= 10 {
            numbers_are_digits(b / 10);
            assert(dec(b).len() == dec(b / 10).len() + 1);
            assert(dec(a).len() == 1);
        } else {
            assert(dec(a)[0] == digit_char(a));
            assert(dec(b)[0] == digit_char(b));
            digits_differ(a, b);
        }
    }
}

/// A marked number can be told from what follows it.
proof fn marks_end_numbers(a: nat, b: nat, x: Seq<char>, y: Seq<char>)
    requires
        counted_text(a) + x == counted_text(b) + y,
    ensures
        a == b,
        x == y,
{
    reveal_strlit("_");
    numbers_are_digits(a);
    numbers_are_digits(b);
    let s = counted_text(a) + x;
    let t = counted_text(b) + y;
    let i = dec(a).len() as int;
    let j = dec(b).len() as int;
    assert(s[i] == '_');
    assert(t[j] == '_');
    if i < j {
        assert(t[i] == dec(b)[i]);
    }
    if j < i {
        assert(s[j] == dec(a)[j]);
    }
    assert(dec(a) =~= s.take(i));
    assert(dec(b) =~= t.take(j));
    numbers_differ(a, b);
    assert(x =~= s.skip(i + 1));
    assert(y =~= t.skip(j + 1));
}

/// A fixed beginning can be taken off.
proof fn same_after(head: Seq<char>, x: Seq<char>, y: Seq<char>)
    requires
        head + x == head + y,
    ensures
        x == y,
{
    assert(x =~= (head + x).skip(head.len() as int));
    assert(y =~= (head + y).skip(head.len() as int));
}

/// The first two letters of a type's text; one, where a number follows it.
spec fn letters(t: TyV) -> (char, char) {
    match t {
        TyV::Bool => ('b', 'o'),
        TyV::Char => ('c', 'h'),
        TyV::Int(IntTy::I8) => ('i', '8'),
        TyV::Int(IntTy::I16) => ('i', '1'),
        TyV::Int(IntTy::I32) => ('i', '3'),
        TyV::Int(IntTy::I64) => ('i', '6'),
        TyV::Int(IntTy::ISize) => ('i', 's'),
        TyV::Int(IntTy::U8) => ('u', '8'),
        TyV::Int(IntTy::U16) => ('u', '1'),
        TyV::Int(IntTy::U32) => ('u', '3'),
        TyV::Int(IntTy::U64) => ('u', '6'),
        TyV::Int(IntTy::USize) => ('u', 's'),
        TyV::Float(FloatTy::F32) => ('f', '3'),
        TyV::Float(FloatTy::F64) => ('f', '6'),
        TyV::Str => ('s', 't'),
        TyV::Unit => ('u', 'n'),
        TyV::Vec(_) => ('V', 'e'),
        TyV::Weak(_) => ('W', 'e'),
        TyV::HashMap(_, _) => ('M', 'a'),
        TyV::Array(_, _) => ('A', 'r'),
        TyV::Struct(_, _) => ('S', ' '),
        TyV::Enum(_, _) => ('E', ' '),
        TyV::TypeVar(_) => ('T', ' '),
        TyV::Dyn(_, _) => ('d', 'y'),
        TyV::Fn { .. } => ('f', 'n'),
        TyV::Never => ('n', 'e'),
        TyV::Error => ('e', 'r'),
        TyV::SelfType => ('s', 'e'),
        TyV::Assoc(_, _) => ('P', ' '),
    }
}

#[verifier::spinoff_prover]
proof fn texts_begin_with_letters(t: TyV, x: Seq<char>)
    ensures
        (code_text(t) + x).len() >= 2,
        (code_text(t) + x)[0] == letters(t).0,
        letters(t).1 != ' ' ==> (code_text(t) + x)[1] == letters(t).1,
{
    reveal_strlit("bool");
    reveal_strlit("char");
    reveal_strlit("i8");
    reveal_strlit("i16");
    reveal_strlit("i32");
    reveal_strlit("i64");
    reveal_strlit("isize");
    reveal_strlit("u8");
    reveal_strlit("u16");
    reveal_strlit("u32");
    reveal_strlit("u64");
    reveal_strlit("usize");
    reveal_strlit("f32");
    reveal_strlit("f64");
    reveal_strlit("str");
    reveal_strlit("unit");
    reveal_strlit("Vec_");
    reveal_strlit("Weak_");
    reveal_strlit("Map_");
    reveal_strlit("Arr");
    reveal_strlit("S");
    reveal_strlit("E");
    reveal_strlit("T");
    reveal_strlit("dyn");
    reveal_strlit("fn");
    reveal_strlit("never");
    reveal_strlit("err");
    reveal_strlit("self");
    reveal_strlit("P");
    reveal_strlit("_");
    let s = code_text(t) + x;
    match t {
        TyV::Struct(n, _) => {
            numbers_are_digits(n.0 as nat);
        },
        TyV::Enum(n, _) => {
            numbers_are_digits(n.0 as nat);
        },
        TyV::TypeVar(n) => {
            numbers_are_digits(n.0 as nat);
        },
        TyV::Assoc(_, n) => {
            numbers_are_digits(n.len());
        },
        _ => {},
    }
}

/// Types whose texts begin alike are made alike.
spec fn same_make(a: TyV, b: TyV) -> bool {
    match a {
        TyV::Vec(_) => b is Vec,
        TyV::Weak(_) => b is Weak,
        TyV::HashMap(_, _) => b is HashMap,
        TyV::Array(_, _) => b is Array,
        TyV::Struct(_, _) => b is Struct,
        TyV::Enum(_, _) => b is Enum,
        TyV::TypeVar(_) => b is TypeVar,
        TyV::Dyn(_, _) => b is Dyn,
        TyV::Fn { .. } => b is Fn,
        TyV::Assoc(_, _) => b is Assoc,
        _ => a == b,
    }
}

#[verifier::spinoff_prover]
proof fn letters_tell_the_make(a: TyV, b: TyV)
    requires
        letters(a).0 == letters(b).0,
        letters(a).1 == letters(b).1 || letters(a).1 == ' ' || letters(b).1 == ' ',
    ensures
        same_make(a, b),
{
    match a {
        TyV::Int(i) => match i {
            IntTy::I8 => {},
            IntTy::I16 => {},
            IntTy::I32 => {},
            IntTy::I64 => {},
            IntTy::ISize => {},
            IntTy::U8 => {},
            IntTy::U16 => {},
            IntTy::U32 => {},
            IntTy::U64 => {},
            IntTy::USize => {},
        },
        _ => {},
    }
}

/// Where two texts stand before anything else, both types and what follows
/// them are the same.
#[verifier::spinoff_prover]
proof fn texts_can_be_told_apart(a: TyV, b: TyV, x: Seq<char>, y: Seq<char>)
    requires
        code_text(a) + x == code_text(b) + y,
    ensures
        a == b,
        x == y,
    decreases a, 1nat,
{
    texts_begin_with_letters(a, x);
    texts_begin_with_letters(b, y);
    letters_tell_the_make(a, b);
    match a {
        TyV::Vec(p) => one_told_apart("Vec_"@, *p, *b->Vec_0, x, y),
        TyV::Weak(p) => one_told_apart("Weak_"@, *p, *b->Weak_0, x, y),
        TyV::HashMap(k, v) => two_told_apart(a, *k, *v, *b->HashMap_0, *b->HashMap_1, x, y),
        TyV::Array(e, n) => numbered_told_apart(n as nat, b->Array_1 as nat, *e, *b->Array_0, x, y),
        TyV::Struct(s, args) => named_told_apart("S"@, s, b->Struct_0, args, b->Struct_1, x, y),
        TyV::Enum(s, args) => named_told_apart("E"@, s, b->Enum_0, args, b->Enum_1, x, y),
        TyV::Dyn(s, args) => named_told_apart("dyn"@, s, b->Dyn_0, args, b->Dyn_1, x, y),
        TyV::TypeVar(s) => {
            let s2 = b->TypeVar_0;
            assert(code_text(a) + x =~= "T"@ + (counted_text(s.0 as nat) + x));
            assert(code_text(b) + y =~= "T"@ + (counted_text(s2.0 as nat) + y));
            same_after("T"@, counted_text(s.0 as nat) + x, counted_text(s2.0 as nat) + y);
            marks_end_numbers(s.0 as nat, s2.0 as nat, x, y);
        },
        TyV::Fn { params, ret } => fns_told_apart(a, params, *ret, b->params, *b->ret, x, y),
        TyV::Assoc(p, n) => projections_told_apart(*p, n, *b->Assoc_0, b->Assoc_1, x, y),
        _ => {
            assert(a == b);
            same_after(code_text(a), x, y);
        },
    }
}

proof fn one_told_apart(head: Seq<char>, p: TyV, q: TyV, x: Seq<char>, y: Seq<char>)
    requires
        head + code_text(p) + x == head + code_text(q) + y,
    ensures
        p == q,
        x == y,
    decreases p, 2nat,
{
    assert(head + code_text(p) + x =~= head + (code_text(p) + x));
    assert(head + code_text(q) + y =~= head + (code_text(q) + y));
    same_after(head, code_text(p) + x, code_text(q) + y);
    texts_can_be_told_apart(p, q, x, y);
}

proof fn two_told_apart(whole: TyV, k: TyV, v: TyV, k2: TyV, v2: TyV, x: Seq<char>, y: Seq<char>)
    requires
        decreases_to!(whole => k),
        decreases_to!(whole => v),
        "Map_"@ + code_text(k) + code_text(v) + x == "Map_"@ + code_text(k2) + code_text(v2) + y,
    ensures
        k == k2,
        v == v2,
        x == y,
    decreases whole, 0nat,
{
    let rest = code_text(v) + x;
    let rest2 = code_text(v2) + y;
    assert("Map_"@ + code_text(k) + code_text(v) + x =~= "Map_"@ + (code_text(k) + rest));
    assert("Map_"@ + code_text(k2) + code_text(v2) + y =~= "Map_"@ + (code_text(k2) + rest2));
    same_after("Map_"@, code_text(k) + rest, code_text(k2) + rest2);
    texts_can_be_told_apart(k, k2, rest, rest2);
    texts_can_be_told_apart(v, v2, x, y);
}

proof fn numbered_told_apart(n: nat, n2: nat, e: TyV, e2: TyV, x: Seq<char>, y: Seq<char>)
    requires
        "Arr"@ + counted_text(n) + code_text(e) + x == "Arr"@ + counted_text(n2) + code_text(e2) + y,
    ensures
        n == n2,
        e == e2,
        x == y,
    decreases e, 2nat,
{
    let rest = code_text(e) + x;
    let rest2 = code_text(e2) + y;
    assert("Arr"@ + counted_text(n) + code_text(e) + x =~= "Arr"@ + (counted_text(n) + rest));
    assert("Arr"@ + counted_text(n2) + code_text(e2) + y =~= "Arr"@ + (counted_text(n2) + rest2));
    same_after("Arr"@, counted_text(n) + rest, counted_text(n2) + rest2);
    marks_end_numbers(n, n2, rest, rest2);
    texts_can_be_told_apart(e, e2, x, y);
}

proof fn fns_told_apart(
    whole: TyV,
    params: Seq<TyV>,
    ret: TyV,
    params2: Seq<TyV>,
    ret2: TyV,
    x: Seq<char>,
    y: Seq<char>,
)
    requires
        decreases_to!(whole => params),
        decreases_to!(whole => ret),
        "fn"@ + code_args(params) + code_text(ret) + x == "fn"@ + code_args(params2) + code_text(ret2) + y,
    ensures
        params == params2,
        ret == ret2,
        x == y,
    decreases whole, 0nat,
{
    let rest = code_text(ret) + x;
    let rest2 = code_text(ret2) + y;
    assert("fn"@ + code_args(params) + code_text(ret) + x =~= "fn"@ + (code_args(params) + rest));
    assert("fn"@ + code_args(params2) + code_text(ret2) + y =~= "fn"@ + (code_args(params2) + rest2));
    same_after("fn"@, code_args(params) + rest, code_args(params2) + rest2);
    lists_told_apart(params, params2, rest, rest2);
    texts_can_be_told_apart(ret, ret2, x, y);
}

proof fn projections_told_apart(p: TyV, n: Seq<char>, p2: TyV, n2: Seq<char>, x: Seq<char>, y: Seq<char>)
    requires
        "P"@ + counted_text(n.len()) + n + code_text(p) + x == "P"@ + counted_text(n2.len()) + n2 + code_text(p2) + y,
    ensures
        p == p2,
        n == n2,
        x == y,
    decreases p, 2nat,
{
    let rest = n + (code_text(p) + x);
    let rest2 = n2 + (code_text(p2) + y);
    assert("P"@ + counted_text(n.len()) + n + code_text(p) + x =~= "P"@ + (counted_text(n.len()) + rest));
    assert("P"@ + counted_text(n2.len()) + n2 + code_text(p2) + y =~= "P"@ + (counted_text(n2.len()) + rest2));
    same_after("P"@, counted_text(n.len()) + rest, counted_text(n2.len()) + rest2);
    marks_end_numbers(n.len(), n2.len(), rest, rest2);
    assert(n =~= rest.take(n.len() as int));
    assert(n2 =~= rest2.take(n.len() as int));
    same_after(n, code_text(p) + x, code_text(p2) + y);
    texts_can_be_told_apart(p, p2, x, y);
}

proof fn named_told_apart(
    head: Seq<char>,
    s: SymbolId,
    s2: SymbolId,
    args: Seq<TyV>,
    args2: Seq<TyV>,
    x: Seq<char>,
    y: Seq<char>,
)
    requires
        head + counted_text(s.0 as nat) + code_args(args) + x == head + counted_text(s2.0 as nat) + code_args(args2)
            + y,
    ensures
        s == s2,
        args == args2,
        x == y,
    decreases args, args.len() + 2,
{
    let rest = code_args(args) + x;
    let rest2 = code_args(args2) + y;
    assert(head + counted_text(s.0 as nat) + code_args(args) + x =~= head + (counted_text(s.0 as nat) + rest));
    assert(head + counted_text(s2.0 as nat) + code_args(args2) + y =~= head + (counted_text(s2.0 as nat) + rest2));
    same_after(head, counted_text(s.0 as nat) + rest, counted_text(s2.0 as nat) + rest2);
    marks_end_numbers(s.0 as nat, s2.0 as nat, rest, rest2);
    lists_told_apart(args, args2, x, y);
}

proof fn lists_told_apart(ts: Seq<TyV>, us: Seq<TyV>, x: Seq<char>, y: Seq<char>)
    requires
        code_args(ts) + x == code_args(us) + y,
    ensures
        ts == us,
        x == y,
    decreases ts, ts.len() + 1,
{
    let rest = code_texts_from(ts, 0) + x;
    let rest2 = code_texts_from(us, 0) + y;
    assert(code_args(ts) + x =~= counted_text(ts.len()) + rest);
    assert(code_args(us) + y =~= counted_text(us.len()) + rest2);
    marks_end_numbers(ts.len(), us.len(), rest, rest2);
    tails_told_apart(ts, us, 0, x, y);
    assert(ts =~= us);
}

proof fn tails_told_apart(ts: Seq<TyV>, us: Seq<TyV>, k: nat, x: Seq<char>, y: Seq<char>)
    requires
        ts.len() == us.len(),
        k <= ts.len(),
        code_texts_from(ts, k) + x == code_texts_from(us, k) + y,
    ensures
        forall|i: int| k <= i < ts.len() ==> ts[i] == us[i],
        x == y,
    decreases ts, ts.len() - k,
{
    if k < ts.len() {
        let rest = code_texts_from(ts, k + 1) + x;
        let rest2 = code_texts_from(us, k + 1) + y;
        assert(code_texts_from(ts, k) + x =~= code_text(ts[k as int]) + rest);
        assert(code_texts_from(us, k) + y =~= code_text(us[k as int]) + rest2);
        texts_can_be_told_apart(ts[k as int], us[k as int], rest, rest2);
        tails_told_apart(ts, us, k + 1, x, y);
    } else {
        assert(code_texts_from(ts, k) + x =~= x);
        assert(code_texts_from(us, k) + y =~= y);
    }
}

/// Distinct types have distinct texts.
pub proof fn distinct_types_have_distinct_texts(a: TyV, b: TyV)
    ensures
        code_text(a) == code_text(b) ==> a == b,
{
    if code_text(a) == code_text(b) {
        let none = Seq::<char>::empty();
        texts_can_be_told_apart(a, b, none, none);
    }
}

/// So no two release functions of vectors share a name.
pub proof fn release_functions_have_distinct_names(a: TyV, b: TyV)
    ensures
        vec_release_name(a) == vec_release_name(b) ==> a == b,
        array_release_name(a) == array_release_name(b) ==> a == b,
{
    if vec_release_name(a) == vec_release_name(b) {
        same_after("__rune_release_vec$"@, code_text(a), code_text(b));
        distinct_types_have_distinct_texts(a, b);
    }
    if array_release_name(a) == array_release_name(b) {
        same_after("__rune_release_array$"@, code_text(a), code_text(b));
        distinct_types_have_distinct_texts(a, b);
    }
}

} // verus!
