//! A small library of algebraic structures for geometric algebra.
//!
//! The centrepiece is a dimension-parameterized multivector ([`generic::Multivector`])
//! that stores all `2^n` basis-blade coefficients of an `n`-dimensional
//! geometric algebra in one flat array, ordered by ascending blade grade.
//! The number of blades of each grade follows a row of Pascal's triangle
//! ([`pascal`]), which also yields the offset of each grade's contiguous
//! slice of coefficients.
//!
//! Coefficients are 64-bit scalars with two's-complement (wrapping)
//! arithmetic, so the values form the ring of integers modulo `2^64` and the
//! additive-group and scalar-module laws hold without side conditions
//! ([`scalar`]).
//!
//! Two fixed-dimension specializations, [`geometric2::Geometric2`] and
//! [`geometric3::Geometric3`], keep one named field per basis blade; the
//! plane algebra also carries a closed-form geometric product.
use vstd::prelude::*;

pub mod generic;
pub mod geometric2;
pub mod geometric3;
pub mod pascal;
pub mod scalar;

verus! {

/// The failures this library can report. All of them indicate a caller
/// error rather than a recoverable runtime condition.
#[derive(Clone, Copy, Debug, PartialEq, Eq, Structural)]
pub enum AlgebraError {
    /// A multivector was constructed from a coefficient sequence whose
    /// length does not equal `2^dimension`.
    DimensionMismatch,
    /// A grade outside `0 ..= dimension` was requested.
    GradeOutOfRange,
    /// The requested operation has no implementation at this dimension.
    UnsupportedOperation,
}

/// Marker for the inner product, kept as an operator token so that a future
/// product implementation can be selected by a tag value.
#[derive(Clone, Copy, PartialEq, Eq, Structural)]
pub struct Inner;

impl Inner {
    /// The token value that selects the inner product.
    pub fn operator_token() -> (r: Inner)
        ensures
            r == (Inner {}),
    {
        Inner
    }
}

/// Marker for the outer product, kept as an operator token so that a future
/// product implementation can be selected by a tag value.
#[derive(Clone, Copy, PartialEq, Eq, Structural)]
pub struct Outer;

impl Outer {
    /// The token value that selects the outer product.
    pub fn operator_token() -> (r: Outer)
        ensures
            r == (Outer {}),
    {
        Outer
    }
}

} // verus!
