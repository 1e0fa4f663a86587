//! What holds of the code that operators become.

use vstd::prelude::*;

use crate::code::Width;
use crate::hir::HirBinOp;
use crate::machine::{
    bits_of, compares, computes, holds_of, in_type, means, pattern, quotient, room_of,
    signed_value, span_of, two_to,
};
use crate::rules::{int_cond, int_op, int_width, is_signed_ty};
use crate::ty::{IntTy, TyV, int_signed};

verus! {

pub(crate) proof fn patterns_are_patterns(w: Width, n: int)
    ensures
        0 <= pattern(w, n) < span_of(w),
        pattern(w, pattern(w, n)) == pattern(w, n),
        -(span_of(w) / 2) <= signed_value(w, n) < span_of(w) / 2,
        pattern(w, signed_value(w, n)) == pattern(w, n),
        signed_value(w, pattern(w, n)) == signed_value(w, n),
{
    let s = span_of(w);
    vstd::arithmetic::div_mod::lemma_mod_bound(n, s);
    vstd::arithmetic::div_mod::lemma_small_mod(pattern(w, n) as nat, s as nat);
    if pattern(w, n) >= s / 2 {
        vstd::arithmetic::div_mod::lemma_mod_add_multiples_vanish(pattern(w, n) - s, s);
    }
}

/// An integer of a signed type is the signed reading of its bits, one of an
/// unsigned type the plain one.
pub(crate) proof fn types_read_their_bits(t: IntTy, n: int)
    requires
        in_type(t, n),
    ensures
        int_signed(t) ==> signed_value(room_of(t), n) == n,
        !int_signed(t) ==> pattern(room_of(t), n) == n,
{
    let s = span_of(room_of(t));
    if n >= 0 {
        vstd::arithmetic::div_mod::lemma_small_mod(n as nat, s as nat);
    } else {
        vstd::arithmetic::div_mod::lemma_small_mod((n + s) as nat, s as nat);
        vstd::arithmetic::div_mod::lemma_mod_add_multiples_vanish(n, s);
    }
}

proof fn bits_decide(t: IntTy, a: int, b: int)
    requires
        in_type(t, a),
        in_type(t, b),
    ensures
        pattern(room_of(t), a) == pattern(room_of(t), b) <==> a == b,
{
    types_read_their_bits(t, a);
    types_read_their_bits(t, b);
}

/// A comparison of two integers of a type is compiled to a condition that holds
/// of their bits exactly when the comparison holds of the integers.
pub proof fn conditions_mean_comparisons(op: HirBinOp, t: IntTy, a: int, b: int)
    requires
        compares(op),
        in_type(t, a),
        in_type(t, b),
    ensures
        int_cond(op, int_signed(t)) matches Some(c) && (holds_of(c, room_of(t), a, b) <==> means(
            op,
            room_of(t),
            a,
            b,
        ) == Some(1int)),
{
    types_read_their_bits(t, a);
    types_read_their_bits(t, b);
    bits_decide(t, a, b);
}

pub(crate) proof fn sums_of_patterns(w: Width, a: int, b: int)
    ensures
        pattern(w, pattern(w, a) + pattern(w, b)) == pattern(w, a + b),
        pattern(w, pattern(w, a) - pattern(w, b)) == pattern(w, a - b),
        pattern(w, pattern(w, a) * pattern(w, b)) == pattern(w, a * b),
        pattern(w, pattern(w, a) * b) == pattern(w, a * b),
        pattern(w, -pattern(w, a)) == pattern(w, -a),
        pattern(w, -pattern(w, a) - 1) == pattern(w, -a - 1),
{
    let s = span_of(w);
    vstd::arithmetic::div_mod::lemma_add_mod_noop(a, b, s);
    vstd::arithmetic::div_mod::lemma_sub_mod_noop(a, b, s);
    vstd::arithmetic::div_mod::lemma_mul_mod_noop(a, b, s);
    vstd::arithmetic::div_mod::lemma_mul_mod_noop_left(a, b, s);
    vstd::arithmetic::div_mod::lemma_sub_mod_noop_right(0, a, s);
    vstd::arithmetic::div_mod::lemma_sub_mod_noop_right(-1, a, s);
}

/// A shift distance is the same read from the bits.
proof fn distances_are_read_from_bits(w: Width, b: int)
    ensures
        pattern(w, b) % (bits_of(w) as int) == b % (bits_of(w) as int),
{
    let s = span_of(w);
    let k = bits_of(w) as int;
    vstd::arithmetic::div_mod::lemma_fundamental_div_mod(b, s);
    let q = b / s;
    let m = s / k;
    assert(s == k * m) by {
        match w {
            Width::I8 => {},
            Width::I16 => {},
            Width::I32 => {},
            _ => {},
        }
    }
    assert(s * q == k * (m * q)) by (nonlinear_arith)
        requires
            s == k * m,
    ;
    vstd::arithmetic::div_mod::lemma_mod_multiples_vanish(m * q, b % s, k);
    assert(k * (m * q) + b % s == b);
}

/// An arithmetic operator on two integers of a type is compiled to an operation
/// that makes the bits of the operator's result from their bits. Where there is
/// no result, or the quotient lies outside the type, the program stops.
pub proof fn operations_mean_operators(op: HirBinOp, t: IntTy, a: int, b: int)
    requires
        !compares(op),
        in_type(t, a),
        in_type(t, b),
    ensures
        int_op(op, int_signed(t)) matches Some(o) && match means(op, room_of(t), a, b) {
            Some(n) => if op is Div && !in_type(t, n) {
                computes(o, room_of(t), pattern(room_of(t), a), pattern(room_of(t), b)) is None
            } else {
                computes(o, room_of(t), pattern(room_of(t), a), pattern(room_of(t), b)) == Some(
                    pattern(room_of(t), n),
                )
            },
            None => computes(o, room_of(t), pattern(room_of(t), a), pattern(room_of(t), b)) is None,
        },
{
    let w = room_of(t);
    let s = span_of(w);
    types_read_their_bits(t, a);
    types_read_their_bits(t, b);
    patterns_are_patterns(w, a);
    patterns_are_patterns(w, b);
    sums_of_patterns(w, a, b);
    distances_are_read_from_bits(w, b);
    let d = two_to((b % bits_of(w) as int) as nat);
    sums_of_patterns(w, a, d);
    match op {
        HirBinOp::Div => if b != 0 {
            quotients_stay(t, a, b);
        },
        HirBinOp::Mod => if b != 0 && !int_signed(t) {
            vstd::arithmetic::div_mod::lemma_fundamental_div_mod(a, b);
        },
        _ => {},
    }
}

/// Only the quotient of the least integer by minus one lies outside its type.
proof fn quotients_stay(t: IntTy, a: int, b: int)
    requires
        in_type(t, a),
        in_type(t, b),
        b != 0,
    ensures
        in_type(t, quotient(a, b)) <==> !(int_signed(t) && b == -1 && a == -(span_of(room_of(t)) / 2)),
{
    let x = if a >= 0 {
        a
    } else {
        -a
    };
    let y = if b >= 0 {
        b
    } else {
        -b
    };
    assert(0 <= x / y <= x) by (nonlinear_arith)
        requires
            x >= 0,
            y >= 1,
    ;
    if y >= 2 && x > 0 {
        assert(x / y < x) by (nonlinear_arith)
            requires
                x > 0,
                y >= 2,
        ;
    }
    if y == 1 {
        assert(x / 1 == x) by (nonlinear_arith);
    }
}

/// A signed operator on signed types and an unsigned one on the others: a type
/// is signed when it holds negative integers.
pub proof fn signed_types_hold_negative_integers(t: IntTy)
    ensures
        int_signed(t) <==> in_type(t, -1),
        is_signed_ty(TyV::Int(t)) == int_signed(t),
        int_width(t) == room_of(t),
{
}

} // verus!
