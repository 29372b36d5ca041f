//! Binomial coefficients and the incremental Pascal-row generator.
//!
//! A grade-`k` slice of an `n`-dimensional multivector holds `C(n, k)`
//! coefficients, and the slices are laid out in ascending grade order, so
//! both the length and the offset of a slice come from one row of Pascal's
//! triangle. [`PascalRow`] produces that row lazily, deriving each entry
//! from the previous one with a single multiply and an exact divide —
//! no factorials and no cached table.
use vstd::arithmetic::div_mod::lemma_div_multiples_vanish;
use vstd::arithmetic::mul::{lemma_mul_is_commutative, lemma_mul_upper_bound};
use vstd::arithmetic::power2::{
    lemma2_to64, lemma2_to64_rest, lemma_pow2_pos, lemma_pow2_strictly_increases,
    lemma_pow2_unfold, pow2,
};
use vstd::prelude::*;

verus! {

/// The binomial coefficient `C(n, k)`, defined by Pascal's rule.
pub open spec fn binomial(n: nat, k: nat) -> nat
    decreases n,
{
    if k == 0 {
        1
    } else if n == 0 {
        0
    } else {
        binomial((n - 1) as nat, (k - 1) as nat) + binomial((n - 1) as nat, k)
    }
}

/// The sum of the first `k` entries of row `n` of Pascal's triangle:
/// `C(n, 0) + C(n, 1) + ... + C(n, k - 1)`.
pub open spec fn row_sum(n: nat, k: nat) -> nat
    decreases k,
{
    if k == 0 {
        0
    } else {
        row_sum(n, (k - 1) as nat) + binomial(n, (k - 1) as nat)
    }
}

/// Entries past the end of a row are zero.
pub proof fn lemma_binomial_past_row(n: nat, k: nat)
    requires
        k > n,
    ensures
        binomial(n, k) == 0,
    decreases n,
{
    if n > 0 {
        lemma_binomial_past_row((n - 1) as nat, (k - 1) as nat);
        lemma_binomial_past_row((n - 1) as nat, k);
    }
}

/// Every row ends in a one: `C(n, n) == 1`.
pub proof fn lemma_binomial_diagonal(n: nat)
    ensures
        binomial(n, n) == 1,
    decreases n,
{
    if n > 0 {
        lemma_binomial_diagonal((n - 1) as nat);
        lemma_binomial_past_row((n - 1) as nat, n);
    }
}

/// The second entry of a row counts the row: `C(n, 1) == n`.
pub proof fn lemma_binomial_column_one(n: nat)
    requires
        n >= 1,
    ensures
        binomial(n, 1) == n,
    decreases n,
{
    if n == 1 {
        assert(binomial(1, 1) == binomial(0, 0) + binomial(0, 1));
        assert(binomial(0, 0) == 1);
        assert(binomial(0, 1) == 0);
    } else {
        lemma_binomial_column_one((n - 1) as nat);
        assert(binomial(n, 1) == binomial((n - 1) as nat, 0) + binomial((n - 1) as nat, 1));
        assert(binomial((n - 1) as nat, 0) == 1);
    }
}

/// The next-to-last entry of a row counts the row: `C(n, n - 1) == n`.
pub proof fn lemma_binomial_sub_diagonal(n: nat)
    requires
        n >= 1,
    ensures
        binomial(n, (n - 1) as nat) == n,
    decreases n,
{
    if n == 1 {
    } else {
        lemma_binomial_sub_diagonal((n - 1) as nat);
        lemma_binomial_diagonal((n - 1) as nat);
    }
}

/// The multiplicative step between two adjacent entries of one row:
/// `C(n, k) * (n - k) == C(n, k + 1) * (k + 1)`. This is what lets the
/// generator derive each entry from the previous one by an exact
/// multiply-and-divide.
pub proof fn lemma_binomial_step(n: nat, k: nat)
    requires
        k < n,
    ensures
        binomial(n, k) * (n - k) == binomial(n, (k + 1) as nat) * (k + 1),
    decreases n,
{
    if n == 1 {
        assert(binomial(1, 1) == binomial(0, 0) + binomial(0, 1));
        assert(binomial(0, 0) == 1);
        assert(binomial(0, 1) == 0);
        assert(binomial(1, 0) == 1);
        assert(binomial(n, k) * (n - k) == binomial(n, (k + 1) as nat) * (k + 1));
    } else if k == 0 {
        lemma_binomial_column_one(n);
        assert(binomial(n, 0) == 1);
        assert(binomial(n, k) * (n - k) == binomial(n, (k + 1) as nat) * (k + 1));
    } else if k + 1 == n {
        lemma_binomial_diagonal(n);
        lemma_binomial_sub_diagonal(n);
        assert(k == (n - 1) as nat);
        assert((k + 1) as nat == n);
        assert(binomial(n, k) * (n - k) == binomial(n, (k + 1) as nat) * (k + 1))
            by (nonlinear_arith)
            requires
                binomial(n, k) == n,
                binomial(n, (k + 1) as nat) == 1,
                k + 1 == n,
        {
        }
    } else {
        let a = binomial((n - 1) as nat, (k - 1) as nat) as int;
        let b = binomial((n - 1) as nat, k) as int;
        let d = binomial((n - 1) as nat, (k + 1) as nat) as int;
        lemma_binomial_step((n - 1) as nat, (k - 1) as nat);
        lemma_binomial_step((n - 1) as nat, k);
        assert(binomial(n, k) == a + b);
        assert(binomial(n, (k + 1) as nat) == b + d);
        assert((a + b) * (n - k) == (b + d) * (k + 1)) by (nonlinear_arith)
            requires
                a * (n - k) == b * k,
                b * (n - 1 - k) == d * (k + 1),
                0 < k < n,
        {
        }
    }
}

/// Pascal's rule lifted to partial row sums.
pub proof fn lemma_row_sum_pascal(n: nat, k: nat)
    requires
        n >= 1,
        k >= 1,
    ensures
        row_sum(n, k) == row_sum((n - 1) as nat, (k - 1) as nat) + row_sum((n - 1) as nat, k),
    decreases k,
{
    let p = (n - 1) as nat;
    if k == 1 {
        assert(row_sum(n, 1) == row_sum(n, 0) + binomial(n, 0));
        assert(row_sum(n, 0) == 0);
        assert(binomial(n, 0) == 1);
        assert(row_sum(p, 1) == row_sum(p, 0) + binomial(p, 0));
        assert(row_sum(p, 0) == 0);
        assert(binomial(p, 0) == 1);
    } else {
        lemma_row_sum_pascal(n, (k - 1) as nat);
        assert(row_sum(n, k) == row_sum(n, (k - 1) as nat) + binomial(n, (k - 1) as nat));
        assert(binomial(n, (k - 1) as nat) == binomial(p, (k - 2) as nat) + binomial(
            p,
            (k - 1) as nat,
        ));
        assert(row_sum(p, (k - 1) as nat) == row_sum(p, (k - 2) as nat) + binomial(
            p,
            (k - 2) as nat,
        ));
        assert(row_sum(p, k) == row_sum(p, (k - 1) as nat) + binomial(p, (k - 1) as nat));
    }
}

/// A full row of Pascal's triangle sums to a power of two:
/// `C(n, 0) + ... + C(n, n) == 2^n`. This is why the grade slices of a
/// `2^n`-entry coefficient array tile it exactly.
pub proof fn lemma_row_sum_full(n: nat)
    ensures
        row_sum(n, n + 1) == pow2(n),
    decreases n,
{
    if n == 0 {
        assert(row_sum(0, 1) == row_sum(0, 0) + binomial(0, 0));
        assert(row_sum(0, 0) == 0);
        assert(binomial(0, 0) == 1);
        assert(pow2(0) == 1) by {
            lemma2_to64();
        }
    } else {
        let p = (n - 1) as nat;
        lemma_row_sum_pascal(n, n + 1);
        assert(row_sum(p, n + 1) == row_sum(p, n) + binomial(p, n));
        lemma_binomial_past_row(p, n);
        lemma_row_sum_full(p);
        lemma_pow2_unfold(n);
    }
}

/// Partial row sums grow with the number of summands.
pub proof fn lemma_row_sum_monotonic(n: nat, k1: nat, k2: nat)
    requires
        k1 <= k2,
    ensures
        row_sum(n, k1) <= row_sum(n, k2),
    decreases k2,
{
    if k1 < k2 {
        lemma_row_sum_monotonic(n, k1, (k2 - 1) as nat);
    }
}

/// No entry of row `n` exceeds the row total `2^n`.
pub proof fn lemma_binomial_le_pow2(n: nat, k: nat)
    ensures
        binomial(n, k) <= pow2(n),
{
    lemma_pow2_pos(n);
    if k > n {
        lemma_binomial_past_row(n, k);
    } else {
        lemma_row_sum_monotonic(n, k + 1, n + 1);
        lemma_row_sum_full(n);
        assert(row_sum(n, k + 1) == row_sum(n, k) + binomial(n, k));
    }
}

/// The largest row the generator accepts. `2^57 * 58` still fits in a
/// `u64`, so the generator's multiply can never overflow within this
/// bound.
pub const MAX_ROW: u64 = 57;

/// A lazy, restartable generator for one row of Pascal's triangle.
///
/// Starting from `C(row, 0) == 1`, each call to [`PascalRow::next`]
/// returns the current entry and advances to the next one by the exact
/// step `value * (row + 1 - col) / col`.
pub struct PascalRow {
    row: u64,
    col: u64,
    value: u64,
}

impl PascalRow {
    /// The row of Pascal's triangle this generator walks.
    pub closed spec fn row_spec(&self) -> nat {
        self.row as nat
    }

    /// How many entries the generator has produced so far.
    pub closed spec fn produced(&self) -> nat {
        (self.col - 1) as nat
    }

    /// The generator is positioned on a genuine row entry (or one past
    /// the end) and carries that entry as its current value.
    pub closed spec fn wf(&self) -> bool {
        &&& self.row <= MAX_ROW
        &&& 1 <= self.col <= self.row + 2
        &&& (self.col <= self.row + 1 ==> self.value == binomial(
            self.row as nat,
            (self.col - 1) as nat,
        ))
    }

    /// Produce the next binomial coefficient of the row, or `None` once
    /// all `row + 1` entries have been handed out.
    pub fn next(&mut self) -> (r: Option<u64>)
        requires
            old(self).wf(),
        ensures
            final(self).wf(),
            final(self).row_spec() == old(self).row_spec(),
            old(self).produced() <= old(self).row_spec() ==> {
                &&& r matches Some(v) && v == binomial(old(self).row_spec(), old(self).produced())
                &&& final(self).produced() == old(self).produced() + 1
            },
            old(self).produced() > old(self).row_spec() ==> r is None && *final(self) == *old(
                self,
            ),
    {
        if self.col <= self.row {
            let cur = self.value;
            let ghost n = self.row as nat;
            let ghost k = (self.col - 1) as nat;
            proof {
                lemma_binomial_le_pow2(n, k);
                lemma_pow2_le_max_row(n);
                lemma_mul_upper_bound(
                    self.value as int,
                    pow2(MAX_ROW as nat) as int,
                    (self.row + 1 - self.col) as int,
                    MAX_ROW as int,
                );
                lemma_binomial_step(n, k);
                lemma_mul_is_commutative(binomial(n, (k + 1) as nat) as int, (k + 1) as int);
                lemma_div_multiples_vanish(binomial(n, (k + 1) as nat) as int, (k + 1) as int);
                lemma_binomial_le_pow2(n, (k + 1) as nat);
            }
            self.value = (self.value * (self.row + 1 - self.col)) / self.col;
            self.col = self.col + 1;
            Some(cur)
        } else if self.col == self.row + 1 {
            let cur = self.value;
            self.col = self.col + 1;
            Some(cur)
        } else {
            None
        }
    }

    /// Collect the whole remaining row into a vector.
    pub fn collect_vec(self) -> (r: Vec<u64>)
        requires
            self.wf(),
            self.produced() == 0,
        ensures
            r@.len() == self.row_spec() + 1,
            forall|i: int|
                0 <= i <= self.row_spec() ==> r@[i] == binomial(self.row_spec(), i as nat),
    {
        let ghost n = self.row_spec();
        let mut gen = self;
        let mut out: Vec<u64> = Vec::new();
        let mut j: u64 = 0;
        let last = gen.row;
        while j <= last
            invariant
                gen.wf(),
                gen.row_spec() == n,
                last == n,
                gen.produced() == j,
                j <= n + 1,
                out@.len() == j,
                forall|i: int| 0 <= i < j ==> out@[i] == binomial(n, i as nat),
            decreases n + 1 - j,
        {
            let v = gen.next().unwrap();
            out.push(v);
            j = j + 1;
        }
        out
    }
}

/// Rows the generator accepts have totals that fit comfortably in `u64`.
proof fn lemma_pow2_le_max_row(n: nat)
    requires
        n <= MAX_ROW,
    ensures
        pow2(n) <= pow2(MAX_ROW as nat),
        pow2(MAX_ROW as nat) == 0x200_0000_0000_0000,
{
    if n < MAX_ROW {
        lemma_pow2_strictly_increases(n, MAX_ROW as nat);
    }
    lemma2_to64_rest();
}

/// Start walking row `row` of Pascal's triangle at `C(row, 0) == 1`.
pub fn pascal_row(row: u64) -> (r: PascalRow)
    requires
        row <= MAX_ROW,
    ensures
        r.wf(),
        r.row_spec() == row,
        r.produced() == 0,
{
    PascalRow { row, col: 1, value: 1 }
}

} // verus!
