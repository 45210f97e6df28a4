use vstd::prelude::*;
use vstd::arithmetic::div_mod::{
    lemma_div_basics,
    lemma_div_is_ordered_by_denominator,
    lemma_mod_add_multiples_vanish,
    lemma_small_mod,
};
use vstd::arithmetic::mul::lemma_mul_upper_bound;
use num::cast::AsPrimitive;
use crate::bytes::{pow256, lemma_pow256_values};
use crate::ty::Ty;

verus! {

/// The arithmetic instructions.
#[derive(Clone, Copy, Debug, PartialEq, Eq, Structural)]
pub enum ArithOp {
    Add,
    Subtract,
    Multiply,
    Divide,
}

/// The comparison instructions; the value pushed later is the right operand.
#[derive(Clone, Copy, Debug, PartialEq, Eq, Structural)]
pub enum CmpOp {
    Equal,
    NotEqual,
    Greater,
    GreaterEqual,
    Lesser,
    LesserEqual,
}

/// The number of bit patterns of a type: 256 to the power of its width.
pub open spec fn modulus(t: Ty) -> nat {
    pow256(t.spec_width())
}

/// The number that the bit pattern `bits` stands for in type `t`
/// (two's complement for the signed types).
pub open spec fn num_val(t: Ty, bits: nat) -> int {
    if t.is_signed() && bits >= modulus(t) / 2 {
        bits - modulus(t)
    } else {
        bits as int
    }
}

/// The bit pattern of `v` in type `t`, wrapping modulo the type's range.
pub open spec fn wrap(t: Ty, v: int) -> nat {
    (v % (modulus(t) as int)) as nat
}

pub open spec fn abs(v: int) -> nat {
    if v < 0 {
        (-v) as nat
    } else {
        v as nat
    }
}

/// Division rounding toward zero.
pub open spec fn trunc_div(a: int, b: int) -> int {
    let q = (abs(a) / abs(b)) as int;
    if (a < 0) != (b < 0) {
        -q
    } else {
        q
    }
}

/// The bit pattern that an arithmetic instruction leaves for operands `a`
/// (pushed first) and `b` (pushed second).
pub open spec fn arith_spec(op: ArithOp, t: Ty, a: nat, b: nat) -> nat {
    match op {
        ArithOp::Add => wrap(t, a + b as int),
        ArithOp::Subtract => wrap(t, a - b),
        ArithOp::Multiply => wrap(t, a * b as int),
        ArithOp::Divide => wrap(t, trunc_div(num_val(t, a), num_val(t, b))),
    }
}

pub open spec fn cmp_spec(op: CmpOp, x: int, y: int) -> bool {
    match op {
        CmpOp::Equal => x == y,
        CmpOp::NotEqual => x != y,
        CmpOp::Greater => x > y,
        CmpOp::GreaterEqual => x >= y,
        CmpOp::Lesser => x < y,
        CmpOp::LesserEqual => x <= y,
    }
}

pub fn modulus_of(t: Ty) -> (r: u128)
    ensures
        r == modulus(t),
        r == 256 || r == 65536 || r == 4294967296 || r == 18446744073709551616,
{
    proof {
        lemma_pow256_values();
    }
    match t.width() {
        1 => 256,
        2 => 65536,
        4 => 4294967296,
        _ => 18446744073709551616,
    }
}

/// The number a bit pattern stands for.
pub fn value_of(t: Ty, bits: u64) -> (r: i128)
    requires
        (bits as nat) < modulus(t),
    ensures
        r == num_val(t, bits as nat),
        -(modulus(t) as int) / 2 <= r < modulus(t),
        t.is_signed() ==> r < modulus(t) / 2,
{
    let m = modulus_of(t);
    if t.signed() && bits as u128 >= m / 2 {
        bits as i128 - m as i128
    } else {
        bits as i128
    }
}

/// Executes an arithmetic instruction of integer type `t` on bit patterns.
pub fn arith(op: ArithOp, t: Ty, a: u64, b: u64) -> (r: u64)
    requires
        !t.is_float(),
        (a as nat) < modulus(t),
        (b as nat) < modulus(t),
        op is Divide ==> b != 0,
    ensures
        r as nat == arith_spec(op, t, a as nat, b as nat),
        (r as nat) < modulus(t),
{
    let m = modulus_of(t);
    match op {
        ArithOp::Add => (((a as u128) + (b as u128)) % m) as u64,
        ArithOp::Subtract => {
            proof {
                lemma_mod_add_multiples_vanish(a - b, m as int);
            }
            (((a as u128) + m - (b as u128)) % m) as u64
        },
        ArithOp::Multiply => {
            proof {
                lemma_mul_upper_bound(a as int, 18446744073709551615, b as int, 18446744073709551615);
            }
            (((a as u128) * (b as u128)) % m) as u64
        },
        ArithOp::Divide => div_bits(t, a, b),
    }
}

fn magnitude(v: i128) -> (r: u128)
    requires
        v > i128::MIN,
    ensures
        r == abs(v as int),
{
    if v < 0 {
        (-v) as u128
    } else {
        v as u128
    }
}

fn div_bits(t: Ty, a: u64, b: u64) -> (r: u64)
    requires
        !t.is_float(),
        (a as nat) < modulus(t),
        (b as nat) < modulus(t),
        b != 0,
    ensures
        r as nat == wrap(t, trunc_div(num_val(t, a as nat), num_val(t, b as nat))),
        (r as nat) < modulus(t),
{
    let m = modulus_of(t);
    let sa = value_of(t, a);
    let sb = value_of(t, b);
    let ua = magnitude(sa);
    let ub = magnitude(sb);
    let q = ua / ub;
    proof {
        lemma_div_basics(ua as int);
        lemma_div_is_ordered_by_denominator(ua as int, 1, ub as int);
        assert(q <= ua);
        assert(q < m);
    }
    let neg = (sa < 0) != (sb < 0);
    if neg && q > 0 {
        proof {
            lemma_mod_add_multiples_vanish(-(q as int), m as int);
            lemma_small_mod((m - q) as nat, m as nat);
        }
        (m - q) as u64
    } else {
        proof {
            lemma_small_mod(q as nat, m as nat);
        }
        q as u64
    }
}

/// Executes a comparison instruction of integer type `t` on bit patterns.
pub fn compare(op: CmpOp, t: Ty, a: u64, b: u64) -> (r: bool)
    requires
        (a as nat) < modulus(t),
        (b as nat) < modulus(t),
    ensures
        r == cmp_spec(op, num_val(t, a as nat), num_val(t, b as nat)),
{
    let x = value_of(t, a);
    let y = value_of(t, b);
    match op {
        CmpOp::Equal => x == y,
        CmpOp::NotEqual => x != y,
        CmpOp::Greater => x > y,
        CmpOp::GreaterEqual => x >= y,
        CmpOp::Lesser => x < y,
        CmpOp::LesserEqual => x <= y,
    }
}

/// Relies on num's `AsPrimitive<u8>` for `i128`, which is Rust's `as`: the
/// value modulo 2^8.
#[verifier::external_body]
fn as_u8(v: i128) -> (r: u8)
    ensures
        r as int == v % 256,
{
    AsPrimitive::<u8>::as_(v)
}

/// Relies on num's `AsPrimitive<u16>` for `i128`, which is Rust's `as`: the
/// value modulo 2^16.
#[verifier::external_body]
fn as_u16(v: i128) -> (r: u16)
    ensures
        r as int == v % 65536,
{
    AsPrimitive::<u16>::as_(v)
}

/// Relies on num's `AsPrimitive<u32>` for `i128`, which is Rust's `as`: the
/// value modulo 2^32.
#[verifier::external_body]
fn as_u32(v: i128) -> (r: u32)
    ensures
        r as int == v % 4294967296,
{
    AsPrimitive::<u32>::as_(v)
}

/// Relies on num's `AsPrimitive<u64>` for `i128`, which is Rust's `as`: the
/// value modulo 2^64.
#[verifier::external_body]
fn as_u64(v: i128) -> (r: u64)
    ensures
        r as int == v % 18446744073709551616,
{
    AsPrimitive::<u64>::as_(v)
}

/// Converts the integer with bit pattern `bits` of type `from` to type `to`,
/// as Rust's `as` does between integer types.
pub fn cast_int(from: Ty, to: Ty, bits: u64) -> (r: u64)
    requires
        !from.is_float(),
        !to.is_float(),
        (bits as nat) < modulus(from),
    ensures
        r as nat == wrap(to, num_val(from, bits as nat)),
        (r as nat) < modulus(to),
{
    let v = value_of(from, bits);
    proof {
        lemma_pow256_values();
    }
    match to.width() {
        1 => as_u8(v) as u64,
        2 => as_u16(v) as u64,
        4 => as_u32(v) as u64,
        _ => as_u64(v),
    }
}

} // verus!
