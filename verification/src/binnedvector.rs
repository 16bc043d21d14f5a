use vstd::prelude::*;

use crate::error::GridError;
use crate::frac::Frac;
use crate::sums::{
    lemma_elem_le_sum, lemma_max_is_bound, lemma_max_witness, lemma_max_zero_iff_all_zero,
    lemma_sum_push, lemma_sum_update, max_count, sum_counts,
};
use vstd::arithmetic::div_mod::{lemma_div_multiples_vanish, lemma_div_pos_is_pos};
use vstd::arithmetic::mul::{lemma_mul_nonnegative, lemma_mul_upper_bound};

verus! {

/// The cell that a value lands in under linear binning with boundary
/// clamping, over a domain `[min, max]` split into `n` cells of equal
/// width `(max - min) / n`.
///
/// A value below the domain is clamped into cell 0, one above the domain
/// into the last cell. In between, the candidate cell is
/// `(val - min) / bin_width == (val - min) * n / (max - min)`; should that
/// still reach `n` (it does exactly at `val == max`), it is clamped into
/// the last cell. No value is ever discarded.
pub open spec fn spec_bin_index(min: int, max: int, n: int, val: int) -> int {
    if val < min {
        0
    } else if val > max {
        n - 1
    } else if (val - min) * n / (max - min) >= n {
        n - 1
    } else {
        (val - min) * n / (max - min)
    }
}

/// Binning always resolves to a valid cell.
pub proof fn lemma_bin_index_in_range(min: int, max: int, n: int, val: int)
    requires
        n >= 1,
        min < max,
    ensures
        0 <= spec_bin_index(min, max, n, val) < n,
{
    if min <= val <= max {
        lemma_mul_nonnegative(val - min, n);
        lemma_div_pos_is_pos((val - min) * n, max - min);
    }
}

/// Boundary clamping: a value strictly below the domain lands in cell 0,
/// one strictly above the domain in the last cell, and a value exactly at
/// the upper bound also lands in the last cell, never one past the end.
pub proof fn lemma_boundary_clamping(min: int, max: int, n: int, val: int)
    requires
        n >= 1,
        min < max,
    ensures
        val < min ==> spec_bin_index(min, max, n, val) == 0,
        val > max ==> spec_bin_index(min, max, n, val) == n - 1,
        val == max ==> spec_bin_index(min, max, n, val) == n - 1,
        val == min ==> spec_bin_index(min, max, n, val) == 0,
{
    if val == max {
        lemma_div_multiples_vanish(n, max - min);
        assert((max - min) * n / (max - min) == n);
    }
    if val == min {
        assert((val - min) * n == 0);
    }
}

/// A one-axis histogram: a fixed row of counters over the domain
/// `[min, max]` in the caller's fixed-point scale. Each inserted value
/// increments exactly one counter; counters are never decremented and the
/// row is never resized.
pub struct FixedBinnedVector {
    elements: Vec<u64>,
    min: i64,
    max: i64,
    total: u64,
}

impl FixedBinnedVector {
    /// The number of cells.
    pub closed spec fn bins(self) -> int {
        self.elements@.len() as int
    }

    /// The row of counters.
    pub closed spec fn counts(self) -> Seq<u64> {
        self.elements@
    }

    /// The lower domain bound, in the caller's fixed-point scale.
    pub closed spec fn dom_min(self) -> int {
        self.min as int
    }

    /// The upper domain bound, in the caller's fixed-point scale.
    pub closed spec fn dom_max(self) -> int {
        self.max as int
    }

    /// How many values have been inserted.
    pub closed spec fn inserted(self) -> u64 {
        self.total
    }

    /// Well-formedness: at least one cell, a non-empty domain, and
    /// conservation - the counters sum to exactly the number of values
    /// inserted so far.
    pub closed spec fn wf(self) -> bool {
        &&& self.elements@.len() >= 1
        &&& self.min < self.max
        &&& sum_counts(self.elements@) == self.total
    }

    /// Constructs a zero-initialized histogram over `[min_val, max_val]`
    /// with `bin_count` cells. Rejects exactly the configurations with no
    /// cells or an empty domain.
    pub fn new(min_val: i64, max_val: i64, bin_count: usize) -> (r: Result<FixedBinnedVector,
        GridError>)
        ensures
            match r {
                Ok(g) => {
                    &&& bin_count >= 1 && min_val < max_val
                    &&& g.wf()
                    &&& g.bins() == bin_count
                    &&& g.counts().len() == bin_count
                    &&& g.dom_min() == min_val
                    &&& g.dom_max() == max_val
                    &&& g.inserted() == 0
                    &&& forall|i: int| 0 <= i < g.bins() ==> g.counts()[i] == 0
                },
                Err(e) => {
                    &&& e == GridError::InvalidConfig
                    &&& (bin_count == 0 || min_val >= max_val)
                },
            },
    {
        if bin_count == 0 || min_val >= max_val {
            return Err(GridError::InvalidConfig);
        }
        let mut elements: Vec<u64> = Vec::new();
        let mut i: usize = 0;
        while i < bin_count
            invariant
                i <= bin_count,
                elements@.len() == i,
                sum_counts(elements@) == 0,
                forall|j: int| 0 <= j < i ==> elements@[j] == 0,
            decreases bin_count - i,
        {
            proof {
                lemma_sum_push(elements@, 0u64);
            }
            elements.push(0u64);
            i = i + 1;
        }
        Ok(FixedBinnedVector { elements, min: min_val, max: max_val, total: 0 })
    }

    /// Inserts one value, incrementing the counter of the cell that
    /// `spec_bin_index` picks; out-of-domain values are clamped into the
    /// boundary cells. Exactly one counter changes, by exactly 1.
    pub fn insert(&mut self, val: i64)
        requires
            old(self).wf(),
            old(self).inserted() < u64::MAX,
        ensures
            final(self).wf(),
            final(self).bins() == old(self).bins(),
            final(self).dom_min() == old(self).dom_min(),
            final(self).dom_max() == old(self).dom_max(),
            final(self).inserted() == old(self).inserted() + 1,
            ({
                let ix = spec_bin_index(
                    old(self).dom_min(),
                    old(self).dom_max(),
                    old(self).bins(),
                    val as int,
                );
                &&& 0 <= ix < old(self).bins()
                &&& final(self).counts() == old(self).counts().update(
                    ix,
                    (old(self).counts()[ix] + 1) as u64,
                )
            }),
    {
        let n: usize = self.elements.len();
        let bin: usize = if val < self.min {
            0
        } else if val > self.max {
            n - 1
        } else {
            let diff: u128 = ((val as i128) - (self.min as i128)) as u128;
            let range: u128 = ((self.max as i128) - (self.min as i128)) as u128;
            proof {
                lemma_mul_upper_bound(
                    diff as int,
                    u64::MAX as int,
                    n as int,
                    u64::MAX as int,
                );
            }
            let q: u128 = (diff * (n as u128)) / range;
            if q >= n as u128 {
                n - 1
            } else {
                q as usize
            }
        };
        proof {
            lemma_bin_index_in_range(
                self.min as int,
                self.max as int,
                n as int,
                val as int,
            );
            lemma_elem_le_sum(self.elements@, bin as int);
            lemma_sum_update(
                self.elements@,
                bin as int,
                (self.elements@[bin as int] + 1) as u64,
            );
        }
        let c: u64 = self.elements[bin];
        self.elements[bin] = c + 1;
        self.total = self.total + 1;
    }

    /// What a successful linear-max normalization of `counts` yields:
    /// positionally aligned exact rationals `counts[i] / max(counts)`.
    /// Every intensity lies in `[0, 1]`, and some cell holding the
    /// maximum count normalizes to exactly 1.
    pub open spec fn spec_normalized(counts: Seq<u64>, v: Seq<Frac>) -> bool {
        &&& max_count(counts) > 0
        &&& v.len() == counts.len()
        &&& forall|i: int|
            0 <= i < v.len() ==> (#[trigger] v[i]).num == counts[i] && v[i].den == max_count(
                counts,
            )
        &&& forall|i: int| 0 <= i < v.len() ==> (#[trigger] v[i]).num <= v[i].den
        &&& exists|i: int|
            0 <= i < v.len() && counts[i] == max_count(counts) && (#[trigger] v[i]).num
                == v[i].den
    }

    /// Linear-max normalization: consumes the finished histogram and
    /// yields, per cell, the exact rational `count / max(counts)`. Every
    /// intensity lies in `[0, 1]` and a cell with the maximum count
    /// normalizes to exactly 1. Fails precisely when nothing was ever
    /// inserted (all counters zero), never dividing by zero.
    #[verifier::rlimit(50)]
    pub fn normalize(self) -> (r: Result<Vec<Frac>, GridError>)
        requires
            self.wf(),
        ensures
            match r {
                Ok(v) => Self::spec_normalized(self.counts(), v@),
                Err(e) => {
                    &&& e == GridError::EmptyData
                    &&& max_count(self.counts()) == 0
                    &&& forall|i: int| 0 <= i < self.counts().len() ==> self.counts()[i] == 0
                },
            },
    {
        let len: usize = self.elements.len();
        let mut m: u64 = 0;
        let mut i: usize = 0;
        while i < len
            invariant
                i <= len,
                len == self.elements@.len(),
                m == max_count(self.elements@.take(i as int)),
            decreases len - i,
        {
            proof {
                assert(self.elements@.take(i as int + 1).drop_last() =~= self.elements@.take(
                    i as int,
                ));
            }
            let c: u64 = self.elements[i];
            if c > m {
                m = c;
            }
            i = i + 1;
        }
        proof {
            assert(self.elements@.take(len as int) =~= self.elements@);
        }
        if m == 0 {
            proof {
                lemma_max_zero_iff_all_zero(self.elements@);
            }
            return Err(GridError::EmptyData);
        }
        let mut v: Vec<Frac> = Vec::new();
        let mut i: usize = 0;
        while i < len
            invariant
                i <= len,
                len == self.elements@.len(),
                m == max_count(self.elements@),
                v@.len() == i,
                forall|j: int|
                    0 <= j < i ==> (#[trigger] v@[j]).num == self.elements@[j] && v@[j].den == m,
            decreases len - i,
        {
            v.push(Frac { num: self.elements[i], den: m });
            i = i + 1;
        }
        proof {
            assert forall|j: int| 0 <= j < v@.len() implies (#[trigger] v@[j]).num
                <= v@[j].den by {
                lemma_max_is_bound(self.elements@, j);
            }
            lemma_max_witness(self.elements@);
            let wi = choose|j: int|
                0 <= j < self.elements@.len() && self.elements@[j] == max_count(self.elements@);
            assert(v@[wi].num == v@[wi].den);
            assert(Self::spec_normalized(self.counts(), v@));
        }
        Ok(v)
    }

    /// The number of cells.
    pub fn bin_count(&self) -> (r: usize)
        ensures
            r == self.bins(),
    {
        self.elements.len()
    }

    /// The counter of one cell.
    pub fn count(&self, bin: usize) -> (r: u64)
        requires
            bin < self.bins(),
        ensures
            r == self.counts()[bin as int],
    {
        self.elements[bin]
    }

    /// How many values have been inserted so far.
    pub fn total_inserted(&self) -> (r: u64)
        ensures
            r == self.inserted(),
    {
        self.total
    }
}

/// Conservation: a well-formed histogram's counters sum to exactly the
/// number of values inserted into it - no value is lost or double-counted.
pub proof fn lemma_conservation(g: FixedBinnedVector)
    requires
        g.wf(),
    ensures
        sum_counts(g.counts()) == g.inserted(),
{
}

} // verus!
