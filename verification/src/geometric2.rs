//! The geometric algebra of the plane, with a hand-derived product.
//!
//! A [`Geometric2`] keeps one named field per basis blade: the scalar
//! `s`, the two basis vectors `e1` and `e2`, and the pseudoscalar `e12`.
//! Besides the additive-group operations it carries the closed-form
//! geometric product of dimension two, written out term by term from the
//! Cayley table.
use crate::scalar::{
    lemma_wrap_add_associative, lemma_wrap_add_commutative, lemma_wrap_add_inverse,
    lemma_wrap_add_zero, lemma_wrap_mul_associative, lemma_wrap_mul_commutative,
    lemma_wrap_mul_one, lemma_wrap_mul_zero, lemma_wrap_neg_involutive, wrap_add, wrap_mul,
    wrap_neg, wrap_sub,
};
use vstd::prelude::*;

verus! {

/// An element of the two-dimensional geometric algebra: a scalar, two
/// vector components, and a bivector (pseudoscalar) component.
#[derive(Clone, Copy, Debug, PartialEq, Eq, Structural)]
pub struct Geometric2 {
    /// The grade-0 (scalar) coefficient.
    pub s: i64,
    /// The coefficient of the basis vector `e1`.
    pub e1: i64,
    /// The coefficient of the basis vector `e2`.
    pub e2: i64,
    /// The coefficient of the pseudoscalar `e1 e2`.
    pub e12: i64,
}

/// Component-wise sum of two plane elements.
pub open spec fn add_spec(a: Geometric2, b: Geometric2) -> Geometric2 {
    Geometric2 {
        s: wrap_add(a.s, b.s),
        e1: wrap_add(a.e1, b.e1),
        e2: wrap_add(a.e2, b.e2),
        e12: wrap_add(a.e12, b.e12),
    }
}

/// Component-wise negation of a plane element.
pub open spec fn neg_spec(a: Geometric2) -> Geometric2 {
    Geometric2 {
        s: wrap_neg(a.s),
        e1: wrap_neg(a.e1),
        e2: wrap_neg(a.e2),
        e12: wrap_neg(a.e12),
    }
}

/// A plane element scaled by a single scalar, component-wise.
pub open spec fn scale_spec(a: Geometric2, r: i64) -> Geometric2 {
    Geometric2 {
        s: wrap_mul(r, a.s),
        e1: wrap_mul(r, a.e1),
        e2: wrap_mul(r, a.e2),
        e12: wrap_mul(r, a.e12),
    }
}

/// The geometric product of two plane elements, blade by blade.
pub open spec fn mul_spec(a: Geometric2, b: Geometric2) -> Geometric2 {
    Geometric2 {
        s: wrap_sub(
            wrap_add(wrap_add(wrap_mul(a.s, b.s), wrap_mul(a.e1, b.e1)), wrap_mul(a.e2, b.e2)),
            wrap_mul(a.e12, b.e12),
        ),
        e1: wrap_sub(
            wrap_add(wrap_add(wrap_mul(a.s, b.e1), wrap_mul(a.e1, b.s)), wrap_mul(a.e12, b.e2)),
            wrap_mul(a.e2, b.e12),
        ),
        e2: wrap_sub(
            wrap_add(wrap_add(wrap_mul(a.s, b.e2), wrap_mul(a.e12, b.s)), wrap_mul(a.e1, b.e12)),
            wrap_mul(a.e12, b.e1),
        ),
        e12: wrap_sub(
            wrap_add(wrap_add(wrap_mul(a.s, b.e12), wrap_mul(a.e12, b.s)), wrap_mul(a.e1, b.e2)),
            wrap_mul(a.e2, b.e1),
        ),
    }
}

impl Geometric2 {
    /// The number of basis blades of the plane algebra.
    pub fn dims() -> (r: usize)
        ensures
            r == 4,
    {
        4
    }

    /// The zero element: every coefficient zero.
    pub fn zero() -> (r: Geometric2)
        ensures
            r == (Geometric2 { s: 0, e1: 0, e2: 0, e12: 0 }),
    {
        Geometric2 { s: 0, e1: 0, e2: 0, e12: 0 }
    }

    /// The unit scalar.
    pub fn one() -> (r: Geometric2)
        ensures
            r == (Geometric2 { s: 1, e1: 0, e2: 0, e12: 0 }),
    {
        Geometric2 { s: 1, e1: 0, e2: 0, e12: 0 }
    }

    /// The basis vector `e1`.
    pub fn x() -> (r: Geometric2)
        ensures
            r == (Geometric2 { s: 0, e1: 1, e2: 0, e12: 0 }),
    {
        Geometric2 { s: 0, e1: 1, e2: 0, e12: 0 }
    }

    /// The basis vector `e2`.
    pub fn y() -> (r: Geometric2)
        ensures
            r == (Geometric2 { s: 0, e1: 0, e2: 1, e12: 0 }),
    {
        Geometric2 { s: 0, e1: 0, e2: 1, e12: 0 }
    }

    /// The unit pseudoscalar `e1 e2`.
    pub fn i() -> (r: Geometric2)
        ensures
            r == (Geometric2 { s: 0, e1: 0, e2: 0, e12: 1 }),
    {
        Geometric2 { s: 0, e1: 0, e2: 0, e12: 1 }
    }

    /// Component-wise sum.
    pub fn add(self, other: Geometric2) -> (r: Geometric2)
        ensures
            r == add_spec(self, other),
    {
        Geometric2 {
            s: self.s.wrapping_add(other.s),
            e1: self.e1.wrapping_add(other.e1),
            e2: self.e2.wrapping_add(other.e2),
            e12: self.e12.wrapping_add(other.e12),
        }
    }

    /// Whether every coefficient is zero.
    pub fn is_zero(&self) -> (r: bool)
        ensures
            r <==> *self == (Geometric2 { s: 0, e1: 0, e2: 0, e12: 0 }),
    {
        self.s == 0 && self.e1 == 0 && self.e2 == 0 && self.e12 == 0
    }

    /// The identity of the additive group: the zero element.
    pub fn add_identity() -> (r: Geometric2)
        ensures
            r == (Geometric2 { s: 0, e1: 0, e2: 0, e12: 0 }),
    {
        Self::zero()
    }

    /// The identity of the multiplicative magma: the unit scalar.
    pub fn mul_identity() -> (r: Geometric2)
        ensures
            r == (Geometric2 { s: 1, e1: 0, e2: 0, e12: 0 }),
    {
        Self::one()
    }

    /// Component-wise negation.
    pub fn neg(self) -> (r: Geometric2)
        ensures
            r == neg_spec(self),
    {
        Geometric2 {
            s: 0i64.wrapping_sub(self.s),
            e1: 0i64.wrapping_sub(self.e1),
            e2: 0i64.wrapping_sub(self.e2),
            e12: 0i64.wrapping_sub(self.e12),
        }
    }

    /// The additive inverse: the element that cancels this one under
    /// addition.
    pub fn two_sided_inverse(&self) -> (r: Geometric2)
        ensures
            r == neg_spec(*self),
    {
        self.neg()
    }

    /// The additive magma operation, an alias for [`Geometric2::add`].
    pub fn operate_additive(&self, other: &Geometric2) -> (r: Geometric2)
        ensures
            r == add_spec(*self, *other),
    {
        self.add(*other)
    }

    /// The multiplicative magma operation, an alias for
    /// [`Geometric2::mul`].
    pub fn operate_multiplicative(&self, other: &Geometric2) -> (r: Geometric2)
        ensures
            r == mul_spec(*self, *other),
    {
        self.mul(*other)
    }

    /// Every coefficient multiplied by the scalar `r`, the module action
    /// of the scalar ring on the algebra.
    pub fn multiply_by(&self, r: i64) -> (res: Geometric2)
        ensures
            res == scale_spec(*self, r),
    {
        Geometric2 {
            s: r.wrapping_mul(self.s),
            e1: r.wrapping_mul(self.e1),
            e2: r.wrapping_mul(self.e2),
            e12: r.wrapping_mul(self.e12),
        }
    }

    /// The geometric product of the plane, computed from the Cayley
    /// table blade by blade.
    pub fn mul(self, other: Geometric2) -> (r: Geometric2)
        ensures
            r == mul_spec(self, other),
    {
        let p0 = self.s.wrapping_mul(other.s).wrapping_add(
            self.e1.wrapping_mul(other.e1),
        ).wrapping_add(self.e2.wrapping_mul(other.e2)).wrapping_sub(
            self.e12.wrapping_mul(other.e12),
        );
        let p1 = self.s.wrapping_mul(other.e1).wrapping_add(
            self.e1.wrapping_mul(other.s),
        ).wrapping_add(self.e12.wrapping_mul(other.e2)).wrapping_sub(
            self.e2.wrapping_mul(other.e12),
        );
        let p2 = self.s.wrapping_mul(other.e2).wrapping_add(
            self.e12.wrapping_mul(other.s),
        ).wrapping_add(self.e1.wrapping_mul(other.e12)).wrapping_sub(
            self.e12.wrapping_mul(other.e1),
        );
        let p3 = self.s.wrapping_mul(other.e12).wrapping_add(
            self.e12.wrapping_mul(other.s),
        ).wrapping_add(self.e1.wrapping_mul(other.e2)).wrapping_sub(
            self.e2.wrapping_mul(other.e1),
        );
        Geometric2 { s: p0, e1: p1, e2: p2, e12: p3 }
    }
}

/// Law: addition of plane elements is commutative.
pub proof fn lemma_add_commutative(a: Geometric2, b: Geometric2)
    ensures
        add_spec(a, b) == add_spec(b, a),
{
    lemma_wrap_add_commutative(a.s, b.s);
    lemma_wrap_add_commutative(a.e1, b.e1);
    lemma_wrap_add_commutative(a.e2, b.e2);
    lemma_wrap_add_commutative(a.e12, b.e12);
}

/// Law: addition of plane elements is associative.
pub proof fn lemma_add_associative(a: Geometric2, b: Geometric2, c: Geometric2)
    ensures
        add_spec(add_spec(a, b), c) == add_spec(a, add_spec(b, c)),
{
    lemma_wrap_add_associative(a.s, b.s, c.s);
    lemma_wrap_add_associative(a.e1, b.e1, c.e1);
    lemma_wrap_add_associative(a.e2, b.e2, c.e2);
    lemma_wrap_add_associative(a.e12, b.e12, c.e12);
}

/// Law: the zero element is the additive identity of the plane algebra.
pub proof fn lemma_add_identity(a: Geometric2)
    ensures
        add_spec(a, Geometric2 { s: 0, e1: 0, e2: 0, e12: 0 }) == a,
{
    lemma_wrap_add_zero(a.s);
    lemma_wrap_add_zero(a.e1);
    lemma_wrap_add_zero(a.e2);
    lemma_wrap_add_zero(a.e12);
}

/// Law: every plane element cancels against its negation.
pub proof fn lemma_add_inverse(a: Geometric2)
    ensures
        add_spec(a, neg_spec(a)) == (Geometric2 { s: 0, e1: 0, e2: 0, e12: 0 }),
{
    lemma_wrap_add_inverse(a.s);
    lemma_wrap_add_inverse(a.e1);
    lemma_wrap_add_inverse(a.e2);
    lemma_wrap_add_inverse(a.e12);
}

/// Law: negating twice restores the plane element.
pub proof fn lemma_neg_involutive(a: Geometric2)
    ensures
        neg_spec(neg_spec(a)) == a,
{
    lemma_wrap_neg_involutive(a.s);
    lemma_wrap_neg_involutive(a.e1);
    lemma_wrap_neg_involutive(a.e2);
    lemma_wrap_neg_involutive(a.e12);
}

/// Law: scaling by one changes nothing.
pub proof fn lemma_scale_one(a: Geometric2)
    ensures
        scale_spec(a, 1) == a,
{
    lemma_wrap_mul_commutative(1, a.s);
    lemma_wrap_mul_one(a.s);
    lemma_wrap_mul_commutative(1, a.e1);
    lemma_wrap_mul_one(a.e1);
    lemma_wrap_mul_commutative(1, a.e2);
    lemma_wrap_mul_one(a.e2);
    lemma_wrap_mul_commutative(1, a.e12);
    lemma_wrap_mul_one(a.e12);
}

/// Law: scaling by zero yields the zero element.
pub proof fn lemma_scale_zero(a: Geometric2)
    ensures
        scale_spec(a, 0) == (Geometric2 { s: 0, e1: 0, e2: 0, e12: 0 }),
{
    lemma_wrap_mul_commutative(0, a.s);
    lemma_wrap_mul_zero(a.s);
    lemma_wrap_mul_commutative(0, a.e1);
    lemma_wrap_mul_zero(a.e1);
    lemma_wrap_mul_commutative(0, a.e2);
    lemma_wrap_mul_zero(a.e2);
    lemma_wrap_mul_commutative(0, a.e12);
    lemma_wrap_mul_zero(a.e12);
}

/// Law: two scalings compose into a single scaling by the product.
pub proof fn lemma_scale_associative(a: Geometric2, s: i64, t: i64)
    ensures
        scale_spec(scale_spec(a, s), t) == scale_spec(a, wrap_mul(s, t)),
{
    lemma_scale_field(a.s, s, t);
    lemma_scale_field(a.e1, s, t);
    lemma_scale_field(a.e2, s, t);
    lemma_scale_field(a.e12, s, t);
}

/// Composition of two scalings, one coefficient at a time.
proof fn lemma_scale_field(x: i64, s: i64, t: i64)
    ensures
        wrap_mul(t, wrap_mul(s, x)) == wrap_mul(wrap_mul(s, t), x),
{
    lemma_wrap_mul_commutative(t, wrap_mul(s, x));
    lemma_wrap_mul_commutative(s, x);
    lemma_wrap_mul_associative(x, s, t);
    lemma_wrap_mul_commutative(x, wrap_mul(s, t));
}

} // verus!
