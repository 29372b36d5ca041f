//! The scalar ring of coefficients.
//!
//! Coefficients are `i64` values combined with two's-complement wrapping
//! arithmetic, so a scalar represents a residue class of the integers
//! modulo `2^64`. Under this reading the wrapping operations are exact ring
//! operations: the lemmas below establish the abelian-group laws of
//! addition and the monoid laws of multiplication without any side
//! condition on the operands.
use vstd::arithmetic::div_mod::{
    lemma_add_mod_noop, lemma_mod_add_multiples_vanish, lemma_mod_bound,
    lemma_mod_sub_multiples_vanish, lemma_mul_mod_noop_left, lemma_mul_mod_noop_right,
    lemma_small_mod,
};
use vstd::arithmetic::mul::{lemma_mul_is_associative, lemma_mul_is_commutative};
use vstd::prelude::*;
use vstd::wrapping::i64_specs;

verus! {

/// The modulus of the scalar ring: `2^64`.
pub open spec fn scalar_modulus() -> int {
    0x1_0000_0000_0000_0000
}

/// Wrapping sum of two scalars.
pub open spec fn wrap_add(a: i64, b: i64) -> i64 {
    i64_specs::wrapping_add(a, b)
}

/// Wrapping difference of two scalars.
pub open spec fn wrap_sub(a: i64, b: i64) -> i64 {
    i64_specs::wrapping_sub(a, b)
}

/// Wrapping additive inverse of a scalar.
pub open spec fn wrap_neg(a: i64) -> i64 {
    wrap_sub(0, a)
}

/// Wrapping product of two scalars.
pub open spec fn wrap_mul(a: i64, b: i64) -> i64 {
    i64_specs::wrapping_mul(a, b)
}

/// An integer already inside the `i64` range is its own representative.
pub proof fn lemma_crop_in_range(x: int)
    requires
        i64::MIN <= x <= i64::MAX,
    ensures
        i64_specs::signed_crop(x) == x,
{
    let m = scalar_modulus();
    if x >= 0 {
        lemma_small_mod(x as nat, m as nat);
        assert(x % m == x);
    } else {
        lemma_mod_add_multiples_vanish(x, m);
        lemma_small_mod((m + x) as nat, m as nat);
        assert(x % m == m + x);
    }
}

/// `signed_crop` lands in the `i64` range and preserves the residue
/// modulo `2^64`.
pub proof fn lemma_crop_residue(x: int)
    ensures
        i64::MIN <= i64_specs::signed_crop(x) <= i64::MAX,
        (i64_specs::signed_crop(x) as int) % scalar_modulus() == x % scalar_modulus(),
{
    let m = scalar_modulus();
    lemma_mod_bound(x, m);
    let r0 = x % m;
    if r0 <= i64::MAX {
        lemma_small_mod(r0 as nat, m as nat);
    } else {
        lemma_mod_sub_multiples_vanish(r0, m);
        lemma_small_mod(r0 as nat, m as nat);
        assert((r0 - m) % m == r0 % m);
    }
}

/// Two integers with equal residues crop to the same scalar.
pub proof fn lemma_crop_congruent(x: int, y: int)
    requires
        x % scalar_modulus() == y % scalar_modulus(),
    ensures
        i64_specs::signed_crop(x) == i64_specs::signed_crop(y),
{
}

/// Wrapping addition is cropping of the exact sum.
pub proof fn lemma_wrap_add_is_crop(a: i64, b: i64)
    ensures
        wrap_add(a, b) == i64_specs::signed_crop(a + b),
{
    let m = scalar_modulus();
    let s = a + b;
    if s > i64::MAX {
        lemma_small_mod(s as nat, m as nat);
        assert(s % m == s);
    } else if s < i64::MIN {
        lemma_mod_add_multiples_vanish(s, m);
        lemma_small_mod((m + s) as nat, m as nat);
        assert(s % m == m + s);
    } else {
        lemma_crop_in_range(s);
    }
}

/// Addition of scalars is commutative.
pub proof fn lemma_wrap_add_commutative(a: i64, b: i64)
    ensures
        wrap_add(a, b) == wrap_add(b, a),
{
}

/// Addition of scalars is associative.
pub proof fn lemma_wrap_add_associative(a: i64, b: i64, c: i64)
    ensures
        wrap_add(wrap_add(a, b), c) == wrap_add(a, wrap_add(b, c)),
{
    let m = scalar_modulus();
    let u = wrap_add(a, b);
    let v = wrap_add(b, c);
    lemma_wrap_add_is_crop(a, b);
    lemma_wrap_add_is_crop(b, c);
    lemma_wrap_add_is_crop(u, c);
    lemma_wrap_add_is_crop(a, v);
    lemma_crop_residue(a + b);
    lemma_crop_residue(b + c);
    lemma_add_mod_noop(u as int, c as int, m);
    lemma_add_mod_noop(a + b, c as int, m);
    lemma_add_mod_noop(a as int, v as int, m);
    lemma_add_mod_noop(a as int, b + c, m);
    assert((u + c) % m == (a + b + c) % m);
    assert((a + v) % m == (a + b + c) % m);
    lemma_crop_congruent(u + c, a + b + c);
    lemma_crop_congruent(a + v, a + b + c);
}

/// Zero is the additive identity.
pub proof fn lemma_wrap_add_zero(a: i64)
    ensures
        wrap_add(a, 0) == a,
{
}

/// Every scalar cancels against its wrapping negation.
pub proof fn lemma_wrap_add_inverse(a: i64)
    ensures
        wrap_add(a, wrap_neg(a)) == 0,
{
}

/// Negating twice restores the scalar.
pub proof fn lemma_wrap_neg_involutive(a: i64)
    ensures
        wrap_neg(wrap_neg(a)) == a,
{
}

/// One is the multiplicative identity.
pub proof fn lemma_wrap_mul_one(a: i64)
    ensures
        wrap_mul(a, 1) == a,
{
    lemma_crop_in_range(a as int);
}

/// Multiplying by zero yields zero.
pub proof fn lemma_wrap_mul_zero(a: i64)
    ensures
        wrap_mul(a, 0) == 0,
{
    lemma_crop_in_range(0);
}

/// Multiplication of scalars is commutative.
pub proof fn lemma_wrap_mul_commutative(a: i64, b: i64)
    ensures
        wrap_mul(a, b) == wrap_mul(b, a),
{
    lemma_mul_is_commutative(a as int, b as int);
}

/// Multiplication of scalars is associative.
pub proof fn lemma_wrap_mul_associative(a: i64, s: i64, t: i64)
    ensures
        wrap_mul(wrap_mul(a, s), t) == wrap_mul(a, wrap_mul(s, t)),
{
    let m = scalar_modulus();
    let u = wrap_mul(a, s);
    let v = wrap_mul(s, t);
    lemma_crop_residue(a * s);
    lemma_crop_residue(s * t);
    lemma_mul_mod_noop_left(u as int, t as int, m);
    lemma_mul_mod_noop_left(a * s, t as int, m);
    assert((u * t) % m == ((a * s) * t) % m);
    lemma_mul_mod_noop_right(a as int, v as int, m);
    lemma_mul_mod_noop_right(a as int, s * t, m);
    assert((a * v) % m == (a * (s * t)) % m);
    lemma_mul_is_associative(a as int, s as int, t as int);
    lemma_crop_congruent(u * t, a * (s * t));
    lemma_crop_congruent(a * v, a * (s * t));
}

} // verus!
