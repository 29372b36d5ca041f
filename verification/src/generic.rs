//! The dimension-parameterized blade-array multivector.
//!
//! A [`Multivector`] of dimension `n` stores all `2^n` basis-blade
//! coefficients in one flat array, grouped contiguously by ascending blade
//! grade: the scalar first, then the `C(n, 1)` vectors, the `C(n, 2)`
//! bivectors, and so on up to the single grade-`n` pseudoscalar. Because a
//! full row of Pascal's triangle sums to `2^n`, the grade slices tile the
//! array exactly; [`Multivector::grade`] recovers the slice of any one
//! grade by walking that row.
use crate::pascal::{
    binomial, lemma_row_sum_full, lemma_row_sum_monotonic, pascal_row, row_sum, MAX_ROW,
};
use crate::scalar::{
    lemma_wrap_add_associative, lemma_wrap_add_commutative, lemma_wrap_add_inverse,
    lemma_wrap_add_zero, lemma_wrap_mul_associative, lemma_wrap_mul_one, lemma_wrap_mul_zero,
    lemma_wrap_neg_involutive, wrap_add, wrap_mul, wrap_neg,
};
use crate::AlgebraError;
use vstd::arithmetic::power2::{
    lemma2_to64, lemma2_to64_rest, lemma_pow2_strictly_increases, lemma_pow2_unfold, pow2,
};
use vstd::prelude::*;
use vstd::slice::{slice_subrange, slice_to_vec};

verus! {

/// The largest dimension a multivector can take: the bound under which
/// the Pascal-row generator's arithmetic is known not to overflow. (A
/// dimension beyond it would also ask for more than `2^57` coefficients.)
pub const MAX_DIMENSION: usize = 57;

/// Component-wise wrapping sum of two coefficient sequences.
pub open spec fn add_seq(a: Seq<i64>, b: Seq<i64>) -> Seq<i64> {
    Seq::new(a.len(), |i: int| wrap_add(a[i], b[i]))
}

/// Component-wise wrapping negation of a coefficient sequence.
pub open spec fn neg_seq(a: Seq<i64>) -> Seq<i64> {
    Seq::new(a.len(), |i: int| wrap_neg(a[i]))
}

/// A coefficient sequence scaled by a single scalar, component-wise.
pub open spec fn scale_seq(a: Seq<i64>, s: i64) -> Seq<i64> {
    Seq::new(a.len(), |i: int| wrap_mul(a[i], s))
}

/// The all-zero coefficient sequence of length `n`.
pub open spec fn zero_seq(n: nat) -> Seq<i64> {
    Seq::new(n, |i: int| 0i64)
}

/// An element of the geometric algebra of a fixed dimension: one
/// coefficient per basis blade, grouped contiguously by grade.
#[derive(Debug)]
pub struct Multivector {
    dim: usize,
    data: Vec<i64>,
}

/// What multivector equality means: same dimension and the same
/// coefficient for every blade.
pub open spec fn mv_eq(a: &Multivector, b: &Multivector) -> bool {
    a.dim_spec() == b.dim_spec() && a.coeffs() == b.coeffs()
}

impl Multivector {
    /// The dimension of the algebra this element belongs to.
    pub closed spec fn dim_spec(&self) -> nat {
        self.dim as nat
    }

    /// The blade coefficients, in ascending grade order.
    pub closed spec fn coeffs(&self) -> Seq<i64> {
        self.data@
    }

    /// The shape invariant: the dimension is within range and the array
    /// holds exactly `2^dimension` coefficients.
    pub open spec fn wf(&self) -> bool {
        self.dim_spec() <= MAX_DIMENSION && self.coeffs().len() == pow2(self.dim_spec())
    }

    /// The dimension of the algebra.
    pub fn dim(&self) -> (r: usize)
        ensures
            r == self.dim_spec(),
    {
        self.dim
    }

    /// The number of stored coefficients, `2^dimension`.
    pub fn dims(&self) -> (r: usize)
        requires
            self.wf(),
        ensures
            r == pow2(self.dim_spec()),
    {
        self.data.len()
    }

    /// The additive identity of the given dimension: every coefficient
    /// zero.
    pub fn zero(dim: usize) -> (r: Multivector)
        requires
            dim <= MAX_DIMENSION,
        ensures
            r.wf(),
            r.dim_spec() == dim,
            r.coeffs() == zero_seq(pow2(dim as nat)),
    {
        let count = pow2_u64(dim as u64);
        let mut data: Vec<i64> = Vec::new();
        let mut i: u64 = 0;
        while i < count
            invariant
                i <= count,
                data@.len() == i,
                forall|j: int| 0 <= j < i ==> data@[j] == 0i64,
            decreases count - i,
        {
            data.push(0);
            i = i + 1;
        }
        let r = Multivector { dim, data };
        proof {
            assert(r.coeffs() =~= zero_seq(pow2(dim as nat)));
        }
        r
    }

    /// Whether every coefficient is zero.
    pub fn is_zero(&self) -> (r: bool)
        requires
            self.wf(),
        ensures
            r <==> self.coeffs() == zero_seq(self.coeffs().len()),
    {
        let n = self.data.len();
        let mut i: usize = 0;
        while i < n
            invariant
                i <= n,
                n == self.coeffs().len(),
                forall|j: int| 0 <= j < i ==> self.coeffs()[j] == 0i64,
            decreases n - i,
        {
            if self.data[i] != 0 {
                proof {
                    assert(zero_seq(self.coeffs().len())[i as int] == 0i64);
                }
                return false;
            }
            i = i + 1;
        }
        proof {
            assert(self.coeffs() =~= zero_seq(self.coeffs().len()));
        }
        true
    }

    /// The identity element of the additive group, an alias for
    /// [`Multivector::zero`].
    pub fn identity(dim: usize) -> (r: Multivector)
        requires
            dim <= MAX_DIMENSION,
        ensures
            r.wf(),
            r.dim_spec() == dim,
            r.coeffs() == zero_seq(pow2(dim as nat)),
    {
        Self::zero(dim)
    }

    /// Component-wise sum of two same-dimension multivectors.
    pub fn add(&self, other: &Multivector) -> (r: Multivector)
        requires
            self.wf(),
            other.wf(),
            self.dim_spec() == other.dim_spec(),
        ensures
            r.wf(),
            r.dim_spec() == self.dim_spec(),
            r.coeffs() == add_seq(self.coeffs(), other.coeffs()),
    {
        let n = self.data.len();
        let mut data: Vec<i64> = Vec::new();
        let mut i: usize = 0;
        while i < n
            invariant
                i <= n,
                n == self.coeffs().len(),
                self.coeffs().len() == other.coeffs().len(),
                data@.len() == i,
                forall|j: int|
                    0 <= j < i ==> data@[j] == wrap_add(self.coeffs()[j], other.coeffs()[j]),
            decreases n - i,
        {
            let v = self.data[i].wrapping_add(other.data[i]);
            data.push(v);
            i = i + 1;
        }
        let r = Multivector { dim: self.dim, data };
        proof {
            assert(r.coeffs() =~= add_seq(self.coeffs(), other.coeffs()));
        }
        r
    }

    /// Component-wise negation.
    pub fn neg(&self) -> (r: Multivector)
        requires
            self.wf(),
        ensures
            r.wf(),
            r.dim_spec() == self.dim_spec(),
            r.coeffs() == neg_seq(self.coeffs()),
    {
        let n = self.data.len();
        let mut data: Vec<i64> = Vec::new();
        let mut i: usize = 0;
        while i < n
            invariant
                i <= n,
                n == self.coeffs().len(),
                data@.len() == i,
                forall|j: int| 0 <= j < i ==> data@[j] == wrap_neg(self.coeffs()[j]),
            decreases n - i,
        {
            let v = 0i64.wrapping_sub(self.data[i]);
            data.push(v);
            i = i + 1;
        }
        let r = Multivector { dim: self.dim, data };
        proof {
            assert(r.coeffs() =~= neg_seq(self.coeffs()));
        }
        r
    }

    /// The additive inverse: the element that cancels this one under
    /// addition.
    pub fn two_sided_inverse(&self) -> (r: Multivector)
        requires
            self.wf(),
        ensures
            r.wf(),
            r.dim_spec() == self.dim_spec(),
            r.coeffs() == neg_seq(self.coeffs()),
    {
        self.neg()
    }

    /// The additive magma operation, an alias for [`Multivector::add`].
    pub fn operate(&self, other: &Multivector) -> (r: Multivector)
        requires
            self.wf(),
            other.wf(),
            self.dim_spec() == other.dim_spec(),
        ensures
            r.wf(),
            r.dim_spec() == self.dim_spec(),
            r.coeffs() == add_seq(self.coeffs(), other.coeffs()),
    {
        self.add(other)
    }

    /// Every coefficient multiplied by the scalar `s`.
    pub fn scale(&self, s: i64) -> (r: Multivector)
        requires
            self.wf(),
        ensures
            r.wf(),
            r.dim_spec() == self.dim_spec(),
            r.coeffs() == scale_seq(self.coeffs(), s),
    {
        let n = self.data.len();
        let mut data: Vec<i64> = Vec::new();
        let mut i: usize = 0;
        while i < n
            invariant
                i <= n,
                n == self.coeffs().len(),
                data@.len() == i,
                forall|j: int| 0 <= j < i ==> data@[j] == wrap_mul(self.coeffs()[j], s),
            decreases n - i,
        {
            let v = self.data[i].wrapping_mul(s);
            data.push(v);
            i = i + 1;
        }
        let r = Multivector { dim: self.dim, data };
        proof {
            assert(r.coeffs() =~= scale_seq(self.coeffs(), s));
        }
        r
    }

    /// The geometric product at a general dimension. No closed form is
    /// implemented here, so the call fails loudly instead of returning a
    /// wrong value.
    pub fn mul(&self, _other: &Multivector) -> (r: Result<Multivector, AlgebraError>)
        ensures
            r matches Err(e) && e == AlgebraError::UnsupportedOperation,
    {
        Err(AlgebraError::UnsupportedOperation)
    }

    /// The contiguous slice of coefficients for all blades of grade `k`:
    /// it starts after the `C(n, 0) + ... + C(n, k - 1)` coefficients of
    /// the lower grades and holds `C(n, k)` entries.
    pub fn grade(&self, k: usize) -> (r: &[i64])
        requires
            self.wf(),
            k <= self.dim_spec(),
        ensures
            r@ == self.coeffs().subrange(
                row_sum(self.dim_spec(), k as nat) as int,
                (row_sum(self.dim_spec(), k as nat) + binomial(self.dim_spec(), k as nat)) as int,
            ),
    {
        let ghost n = self.dim_spec();
        let len = self.data.len();
        proof {
            lemma_row_sum_full(n);
            if n < MAX_ROW {
                lemma_pow2_strictly_increases(n, MAX_ROW as nat);
            }
            lemma2_to64_rest();
        }
        let mut gen = pascal_row(self.dim as u64);
        let mut offset: u64 = 0;
        let mut j: usize = 0;
        while j < k
            invariant
                self.wf(),
                k <= n,
                n == self.dim_spec(),
                len == pow2(n),
                gen.wf(),
                gen.row_spec() == n,
                gen.produced() == j,
                j <= k,
                offset == row_sum(n, j as nat),
                row_sum(n, n + 1) == pow2(n),
                pow2(n) <= 0x200_0000_0000_0000,
            decreases k - j,
        {
            proof {
                lemma_row_sum_monotonic(n, (j + 1) as nat, n + 1);
                assert(row_sum(n, (j + 1) as nat) == row_sum(n, j as nat) + binomial(
                    n,
                    j as nat,
                ));
            }
            let v = gen.next().unwrap();
            offset = offset + v;
            j = j + 1;
        }
        proof {
            lemma_row_sum_monotonic(n, k as nat, n + 1);
            lemma_row_sum_monotonic(n, (k + 1) as nat, n + 1);
            assert(row_sum(n, (k + 1) as nat) == row_sum(n, k as nat) + binomial(n, k as nat));
        }
        let size = gen.next().unwrap();
        let start = offset as usize;
        let end = (offset + size) as usize;
        slice_subrange(self.data.as_slice(), start, end)
    }

    /// Grade-indexed access with an explicit bounds check: grades beyond
    /// the dimension are rejected instead of being assumed away.
    pub fn try_grade(&self, k: usize) -> (r: Result<&[i64], AlgebraError>)
        requires
            self.wf(),
        ensures
            r is Ok <==> k <= self.dim_spec(),
            r matches Ok(s) ==> s@ == self.coeffs().subrange(
                row_sum(self.dim_spec(), k as nat) as int,
                (row_sum(self.dim_spec(), k as nat) + binomial(self.dim_spec(), k as nat)) as int,
            ),
            r matches Err(e) ==> e == AlgebraError::GradeOutOfRange,
    {
        if k <= self.dim {
            Ok(self.grade(k))
        } else {
            Err(AlgebraError::GradeOutOfRange)
        }
    }
}

impl Clone for Multivector {
    /// An independent copy with the same dimension and coefficients.
    fn clone(&self) -> (r: Self)
        ensures
            r.dim_spec() == self.dim_spec(),
            r.coeffs() == self.coeffs(),
    {
        let n = self.data.len();
        let mut data: Vec<i64> = Vec::new();
        let mut i: usize = 0;
        while i < n
            invariant
                i <= n,
                n == self.coeffs().len(),
                data@.len() == i,
                forall|j: int| 0 <= j < i ==> data@[j] == self.coeffs()[j],
            decreases n - i,
        {
            data.push(self.data[i]);
            i = i + 1;
        }
        let r = Multivector { dim: self.dim, data };
        proof {
            assert(r.coeffs() =~= self.coeffs());
        }
        r
    }
}

impl Default for Multivector {
    /// The zero element of the smallest algebra: dimension zero, with
    /// its single coefficient zero.
    fn default() -> (r: Self)
        ensures
            r.wf(),
            r.dim_spec() == 0,
            r.coeffs() == zero_seq(1),
    {
        proof {
            lemma2_to64();
        }
        Self::zero(0)
    }
}

impl PartialEq for Multivector {
    /// Two multivectors are equal when their dimensions agree and every
    /// corresponding coefficient agrees.
    fn eq(&self, other: &Multivector) -> (r: bool) {
        if self.dim != other.dim {
            return false;
        }
        if self.data.len() != other.data.len() {
            return false;
        }
        let n = self.data.len();
        let mut i: usize = 0;
        while i < n
            invariant
                i <= n,
                n == self.coeffs().len(),
                self.coeffs().len() == other.coeffs().len(),
                forall|j: int| 0 <= j < i ==> self.coeffs()[j] == other.coeffs()[j],
            decreases n - i,
        {
            if self.data[i] != other.data[i] {
                return false;
            }
            i = i + 1;
        }
        proof {
            assert(self.coeffs() =~= other.coeffs());
        }
        true
    }
}

impl vstd::std_specs::cmp::PartialEqSpecImpl for Multivector {
    open spec fn obeys_eq_spec() -> bool {
        true
    }

    open spec fn eq_spec(&self, other: &Multivector) -> bool {
        mv_eq(self, other)
    }
}

/// Construct a multivector of dimension `dim` from a flat coefficient
/// slice. The slice must hold exactly `2^dim` values; any other length is
/// a dimension mismatch and is rejected.
pub fn from_slice(dim: usize, data: &[i64]) -> (r: Result<Multivector, AlgebraError>)
    ensures
        r is Ok <==> (dim <= MAX_DIMENSION && data@.len() == pow2(dim as nat)),
        r matches Ok(m) ==> m.wf() && m.dim_spec() == dim && m.coeffs() == data@,
        r matches Err(e) ==> e == AlgebraError::DimensionMismatch,
{
    if dim > MAX_DIMENSION {
        return Err(AlgebraError::DimensionMismatch);
    }
    let expect = pow2_u64(dim as u64);
    if (data.len() as u64) != expect {
        return Err(AlgebraError::DimensionMismatch);
    }
    let v = slice_to_vec(data);
    Ok(Multivector { dim, data: v })
}

/// `2^e` computed by repeated doubling.
fn pow2_u64(e: u64) -> (r: u64)
    requires
        e <= 63,
    ensures
        r == pow2(e as nat),
{
    proof {
        lemma2_to64();
    }
    let mut r: u64 = 1;
    let mut i: u64 = 0;
    while i < e
        invariant
            i <= e,
            e <= 63,
            r == pow2(i as nat),
        decreases e - i,
    {
        proof {
            lemma_pow2_unfold((i + 1) as nat);
            if i + 1 < 63 {
                lemma_pow2_strictly_increases((i + 1) as nat, 63);
            }
            lemma2_to64_rest();
        }
        r = r * 2;
        i = i + 1;
    }
    r
}

/// Law: the grade partition covers the whole coefficient array. The
/// blade counts of all grades sum to exactly `2^n`, and concatenating the
/// grade slices in ascending order rebuilds the coefficient sequence with
/// no gap, overlap, or reordering.
pub proof fn lemma_grade_partition(m: &Multivector)
    requires
        m.wf(),
    ensures
        row_sum(m.dim_spec(), m.dim_spec() + 1) == pow2(m.dim_spec()),
        concat_grades(m.coeffs(), m.dim_spec(), m.dim_spec() + 1) == m.coeffs(),
{
    let n = m.dim_spec();
    lemma_row_sum_full(n);
    lemma_concat_grades_prefix(m.coeffs(), n, n + 1);
    assert(m.coeffs().subrange(0, pow2(n) as int) =~= m.coeffs());
}

/// The coefficients of all grade-`k` blades of an `n`-dimensional
/// coefficient sequence.
pub open spec fn grade_slice(s: Seq<i64>, n: nat, k: nat) -> Seq<i64> {
    s.subrange(row_sum(n, k) as int, (row_sum(n, k) + binomial(n, k)) as int)
}

/// The concatenation, in ascending grade order, of the slices of the
/// first `k` grades.
pub open spec fn concat_grades(s: Seq<i64>, n: nat, k: nat) -> Seq<i64>
    decreases k,
{
    if k == 0 {
        Seq::empty()
    } else {
        concat_grades(s, n, (k - 1) as nat) + grade_slice(s, n, (k - 1) as nat)
    }
}

/// Concatenating the first `k` grade slices yields exactly the prefix of
/// the coefficient sequence up to the `k`-th grade offset.
proof fn lemma_concat_grades_prefix(s: Seq<i64>, n: nat, k: nat)
    requires
        k <= n + 1,
        s.len() == pow2(n),
    ensures
        row_sum(n, k) <= s.len(),
        concat_grades(s, n, k) == s.subrange(0, row_sum(n, k) as int),
    decreases k,
{
    lemma_row_sum_monotonic(n, k, n + 1);
    lemma_row_sum_full(n);
    if k == 0 {
        assert(s.subrange(0, 0) =~= Seq::<i64>::empty());
    } else {
        lemma_concat_grades_prefix(s, n, (k - 1) as nat);
        assert(row_sum(n, k) == row_sum(n, (k - 1) as nat) + binomial(n, (k - 1) as nat));
        assert(concat_grades(s, n, k) =~= s.subrange(0, row_sum(n, k) as int));
    }
}

/// Law: addition of multivectors is commutative.
pub proof fn lemma_add_commutative(a: &Multivector, b: &Multivector)
    requires
        a.wf(),
        b.wf(),
        a.dim_spec() == b.dim_spec(),
    ensures
        add_seq(a.coeffs(), b.coeffs()) == add_seq(b.coeffs(), a.coeffs()),
{
    let x = a.coeffs();
    let y = b.coeffs();
    assert forall|i: int| 0 <= i < x.len() implies add_seq(x, y)[i] == add_seq(y, x)[i] by {
        lemma_wrap_add_commutative(x[i], y[i]);
    }
    assert(add_seq(x, y) =~= add_seq(y, x));
}

/// Law: addition of multivectors is associative.
pub proof fn lemma_add_associative(a: &Multivector, b: &Multivector, c: &Multivector)
    requires
        a.wf(),
        b.wf(),
        c.wf(),
        a.dim_spec() == b.dim_spec(),
        b.dim_spec() == c.dim_spec(),
    ensures
        add_seq(add_seq(a.coeffs(), b.coeffs()), c.coeffs()) == add_seq(
            a.coeffs(),
            add_seq(b.coeffs(), c.coeffs()),
        ),
{
    let x = a.coeffs();
    let y = b.coeffs();
    let z = c.coeffs();
    assert forall|i: int|
        0 <= i < x.len() implies add_seq(add_seq(x, y), z)[i] == add_seq(x, add_seq(y, z))[i] by {
        lemma_wrap_add_associative(x[i], y[i], z[i]);
    }
    assert(add_seq(add_seq(x, y), z) =~= add_seq(x, add_seq(y, z)));
}

/// Law: the zero multivector is the additive identity.
pub proof fn lemma_add_identity(a: &Multivector)
    requires
        a.wf(),
    ensures
        add_seq(a.coeffs(), zero_seq(a.coeffs().len())) == a.coeffs(),
{
    let x = a.coeffs();
    assert forall|i: int| 0 <= i < x.len() implies add_seq(x, zero_seq(x.len()))[i] == x[i] by {
        lemma_wrap_add_zero(x[i]);
    }
    assert(add_seq(x, zero_seq(x.len())) =~= x);
}

/// Law: every multivector cancels against its negation.
pub proof fn lemma_add_inverse(a: &Multivector)
    requires
        a.wf(),
    ensures
        add_seq(a.coeffs(), neg_seq(a.coeffs())) == zero_seq(a.coeffs().len()),
{
    let x = a.coeffs();
    assert forall|i: int|
        0 <= i < x.len() implies add_seq(x, neg_seq(x))[i] == zero_seq(x.len())[i] by {
        lemma_wrap_add_inverse(x[i]);
    }
    assert(add_seq(x, neg_seq(x)) =~= zero_seq(x.len()));
}

/// Law: negating twice restores the multivector.
pub proof fn lemma_neg_involutive(a: &Multivector)
    requires
        a.wf(),
    ensures
        neg_seq(neg_seq(a.coeffs())) == a.coeffs(),
{
    let x = a.coeffs();
    assert forall|i: int| 0 <= i < x.len() implies neg_seq(neg_seq(x))[i] == x[i] by {
        lemma_wrap_neg_involutive(x[i]);
    }
    assert(neg_seq(neg_seq(x)) =~= x);
}

/// Law: scaling by one changes nothing.
pub proof fn lemma_scale_one(a: &Multivector)
    requires
        a.wf(),
    ensures
        scale_seq(a.coeffs(), 1) == a.coeffs(),
{
    let x = a.coeffs();
    assert forall|i: int| 0 <= i < x.len() implies scale_seq(x, 1)[i] == x[i] by {
        lemma_wrap_mul_one(x[i]);
    }
    assert(scale_seq(x, 1) =~= x);
}

/// Law: scaling by zero yields the zero multivector.
pub proof fn lemma_scale_zero(a: &Multivector)
    requires
        a.wf(),
    ensures
        scale_seq(a.coeffs(), 0) == zero_seq(a.coeffs().len()),
{
    let x = a.coeffs();
    assert forall|i: int| 0 <= i < x.len() implies scale_seq(x, 0)[i] == zero_seq(x.len())[i] by {
        lemma_wrap_mul_zero(x[i]);
    }
    assert(scale_seq(x, 0) =~= zero_seq(x.len()));
}

/// Law: two scalings compose into a single scaling by the product.
pub proof fn lemma_scale_associative(a: &Multivector, s: i64, t: i64)
    requires
        a.wf(),
    ensures
        scale_seq(scale_seq(a.coeffs(), s), t) == scale_seq(a.coeffs(), wrap_mul(s, t)),
{
    let x = a.coeffs();
    assert forall|i: int|
        0 <= i < x.len() implies scale_seq(scale_seq(x, s), t)[i] == scale_seq(
        x,
        wrap_mul(s, t),
    )[i] by {
        lemma_wrap_mul_associative(x[i], s, t);
    }
    assert(scale_seq(scale_seq(x, s), t) =~= scale_seq(x, wrap_mul(s, t)));
}

/// Law: multivector equality is reflexive.
pub proof fn lemma_eq_reflexive(a: &Multivector)
    ensures
        mv_eq(a, a),
{
}

/// Law: multivector equality is symmetric.
pub proof fn lemma_eq_symmetric(a: &Multivector, b: &Multivector)
    ensures
        mv_eq(a, b) <==> mv_eq(b, a),
{
}

} // verus!
