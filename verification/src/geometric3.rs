//! The geometric algebra of three-dimensional space.
//!
//! A [`Geometric3`] keeps one named field per basis blade: the scalar
//! `s`, the three basis vectors, the three bivectors, and the
//! pseudoscalar `e123`. It carries the additive-group operations; no
//! closed-form geometric product is derived at this dimension, so the
//! product reports [`AlgebraError::UnsupportedOperation`] instead of
//! returning a wrong value.
use crate::scalar::{
    lemma_wrap_add_associative, lemma_wrap_add_commutative, lemma_wrap_add_inverse,
    lemma_wrap_add_zero, lemma_wrap_neg_involutive, wrap_add, wrap_neg,
};
use crate::AlgebraError;
use vstd::prelude::*;

verus! {

/// An element of the three-dimensional geometric algebra: one
/// coefficient per basis blade, grade by grade.
#[derive(Debug, PartialEq, Eq, Structural)]
pub struct Geometric3 {
    /// The grade-0 (scalar) coefficient.
    pub s: i64,
    /// The coefficient of the basis vector `e1`.
    pub e1: i64,
    /// The coefficient of the basis vector `e2`.
    pub e2: i64,
    /// The coefficient of the basis vector `e3`.
    pub e3: i64,
    /// The coefficient of the bivector `e1 e2`.
    pub e12: i64,
    /// The coefficient of the bivector `e2 e3`.
    pub e23: i64,
    /// The coefficient of the bivector `e3 e1`.
    pub e31: i64,
    /// The coefficient of the pseudoscalar `e1 e2 e3`.
    pub e123: i64,
}

/// Component-wise sum of two space elements.
pub open spec fn add_spec(a: Geometric3, b: Geometric3) -> Geometric3 {
    Geometric3 {
        s: wrap_add(a.s, b.s),
        e1: wrap_add(a.e1, b.e1),
        e2: wrap_add(a.e2, b.e2),
        e3: wrap_add(a.e3, b.e3),
        e12: wrap_add(a.e12, b.e12),
        e23: wrap_add(a.e23, b.e23),
        e31: wrap_add(a.e31, b.e31),
        e123: wrap_add(a.e123, b.e123),
    }
}

/// Component-wise negation of a space element.
pub open spec fn neg_spec(a: Geometric3) -> Geometric3 {
    Geometric3 {
        s: wrap_neg(a.s),
        e1: wrap_neg(a.e1),
        e2: wrap_neg(a.e2),
        e3: wrap_neg(a.e3),
        e12: wrap_neg(a.e12),
        e23: wrap_neg(a.e23),
        e31: wrap_neg(a.e31),
        e123: wrap_neg(a.e123),
    }
}

impl Geometric3 {
    /// The number of basis blades of the space algebra.
    pub fn dims() -> (r: usize)
        ensures
            r == 8,
    {
        8
    }

    /// The zero element: every coefficient zero.
    pub fn zero() -> (r: Geometric3)
        ensures
            r == (Geometric3 { s: 0, e1: 0, e2: 0, e3: 0, e12: 0, e23: 0, e31: 0, e123: 0 }),
    {
        Geometric3 { s: 0, e1: 0, e2: 0, e3: 0, e12: 0, e23: 0, e31: 0, e123: 0 }
    }

    /// The unit scalar.
    pub fn one() -> (r: Geometric3)
        ensures
            r == (Geometric3 { s: 1, e1: 0, e2: 0, e3: 0, e12: 0, e23: 0, e31: 0, e123: 0 }),
    {
        Geometric3 { s: 1, e1: 0, e2: 0, e3: 0, e12: 0, e23: 0, e31: 0, e123: 0 }
    }

    /// The basis vector `e1`.
    pub fn x() -> (r: Geometric3)
        ensures
            r == (Geometric3 { s: 0, e1: 1, e2: 0, e3: 0, e12: 0, e23: 0, e31: 0, e123: 0 }),
    {
        Geometric3 { s: 0, e1: 1, e2: 0, e3: 0, e12: 0, e23: 0, e31: 0, e123: 0 }
    }

    /// The basis vector `e2`.
    pub fn y() -> (r: Geometric3)
        ensures
            r == (Geometric3 { s: 0, e1: 0, e2: 1, e3: 0, e12: 0, e23: 0, e31: 0, e123: 0 }),
    {
        Geometric3 { s: 0, e1: 0, e2: 1, e3: 0, e12: 0, e23: 0, e31: 0, e123: 0 }
    }

    /// The basis vector `e3`.
    pub fn z() -> (r: Geometric3)
        ensures
            r == (Geometric3 { s: 0, e1: 0, e2: 0, e3: 1, e12: 0, e23: 0, e31: 0, e123: 0 }),
    {
        Geometric3 { s: 0, e1: 0, e2: 0, e3: 1, e12: 0, e23: 0, e31: 0, e123: 0 }
    }

    /// The bivector `e1 e2`.
    pub fn xy() -> (r: Geometric3)
        ensures
            r == (Geometric3 { s: 0, e1: 0, e2: 0, e3: 0, e12: 1, e23: 0, e31: 0, e123: 0 }),
    {
        Geometric3 { s: 0, e1: 0, e2: 0, e3: 0, e12: 1, e23: 0, e31: 0, e123: 0 }
    }

    /// The bivector `e2 e3`.
    pub fn yz() -> (r: Geometric3)
        ensures
            r == (Geometric3 { s: 0, e1: 0, e2: 0, e3: 0, e12: 0, e23: 1, e31: 0, e123: 0 }),
    {
        Geometric3 { s: 0, e1: 0, e2: 0, e3: 0, e12: 0, e23: 1, e31: 0, e123: 0 }
    }

    /// The bivector `e3 e1`.
    pub fn zx() -> (r: Geometric3)
        ensures
            r == (Geometric3 { s: 0, e1: 0, e2: 0, e3: 0, e12: 0, e23: 0, e31: 1, e123: 0 }),
    {
        Geometric3 { s: 0, e1: 0, e2: 0, e3: 0, e12: 0, e23: 0, e31: 1, e123: 0 }
    }

    /// The unit pseudoscalar `e1 e2 e3`.
    pub fn i() -> (r: Geometric3)
        ensures
            r == (Geometric3 { s: 0, e1: 0, e2: 0, e3: 0, e12: 0, e23: 0, e31: 0, e123: 1 }),
    {
        Geometric3 { s: 0, e1: 0, e2: 0, e3: 0, e12: 0, e23: 0, e31: 0, e123: 1 }
    }

    /// Component-wise sum.
    pub fn add(self, other: Geometric3) -> (r: Geometric3)
        ensures
            r == add_spec(self, other),
    {
        Geometric3 {
            s: self.s.wrapping_add(other.s),
            e1: self.e1.wrapping_add(other.e1),
            e2: self.e2.wrapping_add(other.e2),
            e3: self.e3.wrapping_add(other.e3),
            e12: self.e12.wrapping_add(other.e12),
            e23: self.e23.wrapping_add(other.e23),
            e31: self.e31.wrapping_add(other.e31),
            e123: self.e123.wrapping_add(other.e123),
        }
    }

    /// Component-wise negation.
    pub fn neg(self) -> (r: Geometric3)
        ensures
            r == neg_spec(self),
    {
        Geometric3 {
            s: 0i64.wrapping_sub(self.s),
            e1: 0i64.wrapping_sub(self.e1),
            e2: 0i64.wrapping_sub(self.e2),
            e3: 0i64.wrapping_sub(self.e3),
            e12: 0i64.wrapping_sub(self.e12),
            e23: 0i64.wrapping_sub(self.e23),
            e31: 0i64.wrapping_sub(self.e31),
            e123: 0i64.wrapping_sub(self.e123),
        }
    }

    /// The additive magma operation, an alias for [`Geometric3::add`].
    pub fn operate(&self, other: &Geometric3) -> (r: Geometric3)
        ensures
            r == add_spec(*self, *other),
    {
        self.clone().add(other.clone())
    }

    /// The geometric product at dimension three. No closed form is
    /// derived here, so the call fails loudly instead of returning a
    /// wrong value.
    pub fn mul(&self, _other: &Geometric3) -> (r: Result<Geometric3, AlgebraError>)
        ensures
            r matches Err(e) && e == AlgebraError::UnsupportedOperation,
    {
        Err(AlgebraError::UnsupportedOperation)
    }

    /// The multiplicative magma operation; it forwards to the
    /// unsupported product and fails the same way.
    pub fn operate_multiplicative(&self, other: &Geometric3) -> (r: Result<
        Geometric3,
        AlgebraError,
    >)
        ensures
            r matches Err(e) && e == AlgebraError::UnsupportedOperation,
    {
        self.mul(other)
    }
}

/// Law: addition of space elements is commutative.
pub proof fn lemma_add_commutative(a: Geometric3, b: Geometric3)
    ensures
        add_spec(a, b) == add_spec(b, a),
{
    lemma_wrap_add_commutative(a.s, b.s);
    lemma_wrap_add_commutative(a.e1, b.e1);
    lemma_wrap_add_commutative(a.e2, b.e2);
    lemma_wrap_add_commutative(a.e3, b.e3);
    lemma_wrap_add_commutative(a.e12, b.e12);
    lemma_wrap_add_commutative(a.e23, b.e23);
    lemma_wrap_add_commutative(a.e31, b.e31);
    lemma_wrap_add_commutative(a.e123, b.e123);
}

/// Law: addition of space elements is associative.
pub proof fn lemma_add_associative(a: Geometric3, b: Geometric3, c: Geometric3)
    ensures
        add_spec(add_spec(a, b), c) == add_spec(a, add_spec(b, c)),
{
    lemma_wrap_add_associative(a.s, b.s, c.s);
    lemma_wrap_add_associative(a.e1, b.e1, c.e1);
    lemma_wrap_add_associative(a.e2, b.e2, c.e2);
    lemma_wrap_add_associative(a.e3, b.e3, c.e3);
    lemma_wrap_add_associative(a.e12, b.e12, c.e12);
    lemma_wrap_add_associative(a.e23, b.e23, c.e23);
    lemma_wrap_add_associative(a.e31, b.e31, c.e31);
    lemma_wrap_add_associative(a.e123, b.e123, c.e123);
}

/// Law: the zero element is the additive identity of the space algebra.
pub proof fn lemma_add_identity(a: Geometric3)
    ensures
        add_spec(a, Geometric3 { s: 0, e1: 0, e2: 0, e3: 0, e12: 0, e23: 0, e31: 0, e123: 0 })
            == a,
{
    lemma_wrap_add_zero(a.s);
    lemma_wrap_add_zero(a.e1);
    lemma_wrap_add_zero(a.e2);
    lemma_wrap_add_zero(a.e3);
    lemma_wrap_add_zero(a.e12);
    lemma_wrap_add_zero(a.e23);
    lemma_wrap_add_zero(a.e31);
    lemma_wrap_add_zero(a.e123);
}

/// Law: every space element cancels against its negation.
pub proof fn lemma_add_inverse(a: Geometric3)
    ensures
        add_spec(a, neg_spec(a)) == (Geometric3 {
            s: 0,
            e1: 0,
            e2: 0,
            e3: 0,
            e12: 0,
            e23: 0,
            e31: 0,
            e123: 0,
        }),
{
    lemma_wrap_add_inverse(a.s);
    lemma_wrap_add_inverse(a.e1);
    lemma_wrap_add_inverse(a.e2);
    lemma_wrap_add_inverse(a.e3);
    lemma_wrap_add_inverse(a.e12);
    lemma_wrap_add_inverse(a.e23);
    lemma_wrap_add_inverse(a.e31);
    lemma_wrap_add_inverse(a.e123);
}

/// Law: negating twice restores the space element.
pub proof fn lemma_neg_involutive(a: Geometric3)
    ensures
        neg_spec(neg_spec(a)) == a,
{
    lemma_wrap_neg_involutive(a.s);
    lemma_wrap_neg_involutive(a.e1);
    lemma_wrap_neg_involutive(a.e2);
    lemma_wrap_neg_involutive(a.e3);
    lemma_wrap_neg_involutive(a.e12);
    lemma_wrap_neg_involutive(a.e23);
    lemma_wrap_neg_involutive(a.e31);
    lemma_wrap_neg_involutive(a.e123);
}

impl Clone for Geometric3 {
    /// An independent copy with the same coefficients.
    fn clone(&self) -> (r: Self)
        ensures
            r == *self,
    {
        Geometric3 {
            s: self.s,
            e1: self.e1,
            e2: self.e2,
            e3: self.e3,
            e12: self.e12,
            e23: self.e23,
            e31: self.e31,
            e123: self.e123,
        }
    }
}

} // verus!
