use vstd::prelude::*;

use crate::error::GridError;
use crate::frac::Frac;
use crate::sums::{
    lemma_elem_le_sum, lemma_sum_push, lemma_sum_update, sum_counts,
};
use vstd::arithmetic::div_mod::{
    lemma_div_multiples_vanish, lemma_div_pos_is_pos, lemma_fundamental_div_mod,
    lemma_mod_bound, lemma_multiply_divide_lt,
};
use vstd::arithmetic::mul::{
    lemma_mul_is_commutative, lemma_mul_nonnegative, lemma_mul_upper_bound,
};

verus! {

/// The pixel cell that a coordinate lands in on one axis of the
/// pixel-aligned unit-domain grid. The domain `[0, 1]` is carried as
/// `[0, scale]` in the caller's fixed-point scale; a `cells`-pixel axis
/// has cell width `1 / (cells - 1)`, so the candidate cell of a value `v`
/// is `v / (1 / (cells - 1)) == v * (cells - 1) / scale`.
///
/// Values below the domain are clamped into cell 0, values above it into
/// the last cell, and a candidate that still reaches `cells` is clamped
/// into the last cell. No value is ever discarded.
pub open spec fn spec_pixel_bin(val: int, scale: int, cells: int) -> int {
    if val < 0 {
        0
    } else if val > scale {
        cells - 1
    } else if val * (cells - 1) / scale >= cells {
        cells - 1
    } else {
        val * (cells - 1) / scale
    }
}

/// Pixel binning always resolves to a valid cell.
pub proof fn lemma_pixel_bin_in_range(val: int, scale: int, cells: int)
    requires
        cells >= 1,
        scale >= 1,
    ensures
        0 <= spec_pixel_bin(val, scale, cells) < cells,
{
    if 0 <= val <= scale {
        lemma_mul_nonnegative(val, cells - 1);
        lemma_div_pos_is_pos(val * (cells - 1), scale);
    }
}

/// Boundary clamping on a pixel axis: below the domain lands in cell 0,
/// above it in the last cell, and exactly at the upper bound in the last
/// cell, never one past the end.
pub proof fn lemma_pixel_clamping(val: int, scale: int, cells: int)
    requires
        cells >= 1,
        scale >= 1,
    ensures
        val < 0 ==> spec_pixel_bin(val, scale, cells) == 0,
        val > scale ==> spec_pixel_bin(val, scale, cells) == cells - 1,
        val == scale ==> spec_pixel_bin(val, scale, cells) == cells - 1,
        val == 0 ==> spec_pixel_bin(val, scale, cells) == 0,
{
    if val == scale {
        lemma_div_multiples_vanish(cells - 1, scale);
        assert(scale * (cells - 1) / scale == cells - 1);
    }
    if val == 0 {
        assert(val * (cells - 1) == 0);
    }
}

/// One non-empty cell of a finished heat grid: its column `x`, row `y`,
/// and counter value.
#[derive(Clone, Copy, Debug, PartialEq, Eq, Structural)]
pub struct CellPoint {
    pub x: usize,
    pub y: usize,
    pub count: u64,
}

/// The row-major flat index of a cell: `y * width + x`.
pub open spec fn cell_flat_index(p: CellPoint, width: int) -> int {
    p.y * width + p.x
}

/// A fixed-resolution two-dimensional density grid over the unit square,
/// one counter per pixel, row-major (`y * width + x`). Each inserted
/// coordinate pair increments exactly one counter; the grid never grows
/// and never shrinks, whatever the input size.
pub struct HeatGrid {
    counts: Vec<u64>,
    width: usize,
    height: usize,
    scale: i64,
    total: u64,
}

impl HeatGrid {
    /// Cells per row.
    pub closed spec fn spec_width(self) -> int {
        self.width as int
    }

    /// Cells per column.
    pub closed spec fn spec_height(self) -> int {
        self.height as int
    }

    /// The fixed-point representation of the coordinate `1.0`.
    pub closed spec fn spec_scale(self) -> int {
        self.scale as int
    }

    /// The row-major counters.
    pub closed spec fn counts(self) -> Seq<u64> {
        self.counts@
    }

    /// How many coordinate pairs have been inserted.
    pub closed spec fn inserted(self) -> u64 {
        self.total
    }

    /// Well-formedness: both axes have at least one cell, the scale is
    /// positive, the counter row has exactly `width * height` entries,
    /// and conservation holds - the counters sum to exactly the number
    /// of pairs inserted so far.
    pub closed spec fn wf(self) -> bool {
        &&& self.width >= 1
        &&& self.height >= 1
        &&& self.scale >= 1
        &&& self.counts@.len() == (self.width as int) * (self.height as int)
        &&& sum_counts(self.counts@) == self.total
    }

    /// Constructs a zero-initialized `width` x `height` grid over the
    /// unit square, whose coordinates arrive scaled by `scale`. Rejects
    /// exactly the configurations with a zero axis or a non-positive
    /// scale.
    pub fn new(width: usize, height: usize, scale: i64) -> (r: Result<HeatGrid, GridError>)
        requires
            (width as int) * (height as int) <= usize::MAX,
        ensures
            match r {
                Ok(g) => {
                    &&& width >= 1 && height >= 1 && scale >= 1
                    &&& g.wf()
                    &&& g.counts().len() == (width as int) * (height as int)
                    &&& g.spec_width() == width
                    &&& g.spec_height() == height
                    &&& g.spec_scale() == scale
                    &&& g.inserted() == 0
                    &&& forall|i: int| 0 <= i < g.counts().len() ==> g.counts()[i] == 0
                },
                Err(e) => {
                    &&& e == GridError::InvalidConfig
                    &&& (width == 0 || height == 0 || scale <= 0)
                },
            },
    {
        if width == 0 || height == 0 || scale <= 0 {
            return Err(GridError::InvalidConfig);
        }
        let cells: usize = width * height;
        let mut counts: Vec<u64> = Vec::new();
        let mut i: usize = 0;
        while i < cells
            invariant
                i <= cells,
                counts@.len() == i,
                sum_counts(counts@) == 0,
                forall|j: int| 0 <= j < i ==> counts@[j] == 0,
            decreases cells - i,
        {
            proof {
                lemma_sum_push(counts@, 0u64);
            }
            counts.push(0u64);
            i = i + 1;
        }
        Ok(HeatGrid { counts, width, height, scale, total: 0 })
    }

    /// Inserts one coordinate pair, incrementing the counter of the cell
    /// `spec_pixel_bin(y) * width + spec_pixel_bin(x)`; out-of-domain
    /// coordinates are clamped into the boundary cells on their axis.
    /// Exactly one counter changes, by exactly 1.
    pub fn insert(&mut self, x: i64, y: i64)
        requires
            old(self).wf(),
            old(self).inserted() < u64::MAX,
        ensures
            final(self).wf(),
            final(self).spec_width() == old(self).spec_width(),
            final(self).spec_height() == old(self).spec_height(),
            final(self).spec_scale() == old(self).spec_scale(),
            final(self).inserted() == old(self).inserted() + 1,
            ({
                let xb = spec_pixel_bin(x as int, old(self).spec_scale(), old(self).spec_width());
                let yb = spec_pixel_bin(y as int, old(self).spec_scale(), old(self).spec_height());
                let ix = yb * old(self).spec_width() + xb;
                &&& 0 <= ix < old(self).counts().len()
                &&& final(self).counts() == old(self).counts().update(
                    ix,
                    (old(self).counts()[ix] + 1) as u64,
                )
            }),
    {
        let xbin: usize = pixel_bin(x, self.scale, self.width);
        let ybin: usize = pixel_bin(y, self.scale, self.height);
        let _len: usize = self.counts.len();
        proof {
            assert((ybin as int) * (self.width as int) + (xbin as int) < (self.width as int)
                * (self.height as int)) by (nonlinear_arith)
                requires
                    xbin < self.width,
                    ybin < self.height,
                    self.width >= 1,
                    self.height >= 1,
            ;
        }
        let ix: usize = ybin * self.width + xbin;
        proof {
            lemma_elem_le_sum(self.counts@, ix as int);
            lemma_sum_update(self.counts@, ix as int, (self.counts@[ix as int] + 1) as u64);
        }
        let c: u64 = self.counts[ix];
        self.counts[ix] = c + 1;
        self.total = self.total + 1;
    }

    /// Sparse emission: the non-empty cells of the grid, in row-major
    /// order. A cell appears here exactly when its counter is non-zero -
    /// empty cells are never emitted - and it carries its own counter
    /// value.
    pub fn nonzero_cells(&self) -> (r: Vec<CellPoint>)
        requires
            self.wf(),
        ensures
            forall|k: int|
                0 <= k < r@.len() ==> {
                    let p = #[trigger] r@[k];
                    &&& p.x < self.spec_width()
                    &&& p.y < self.spec_height()
                    &&& 0 <= cell_flat_index(p, self.spec_width()) < self.counts().len()
                    &&& p.count == self.counts()[cell_flat_index(p, self.spec_width())]
                    &&& p.count > 0
                },
            forall|k1: int, k2: int|
                0 <= k1 < k2 < r@.len() ==> cell_flat_index(#[trigger] r@[k1], self.spec_width())
                    < cell_flat_index(#[trigger] r@[k2], self.spec_width()),
            forall|i: int|
                0 <= i < self.counts().len() && #[trigger] self.counts()[i] > 0 ==> exists|k: int|
                    0 <= k < r@.len() && cell_flat_index(#[trigger] r@[k], self.spec_width()) == i,
    {
        let len: usize = self.counts.len();
        let w: usize = self.width;
        let mut r: Vec<CellPoint> = Vec::new();
        let mut i: usize = 0;
        while i < len
            invariant
                i <= len,
                len == self.counts().len(),
                w == self.spec_width(),
                w >= 1,
                self.spec_height() >= 1,
                len == self.spec_width() * self.spec_height(),
                forall|k: int|
                    0 <= k < r@.len() ==> {
                        let p = #[trigger] r@[k];
                        &&& p.x < self.spec_width()
                        &&& p.y < self.spec_height()
                        &&& 0 <= cell_flat_index(p, self.spec_width()) < i
                        &&& p.count == self.counts()[cell_flat_index(p, self.spec_width())]
                        &&& p.count > 0
                    },
                forall|k1: int, k2: int|
                    0 <= k1 < k2 < r@.len() ==> cell_flat_index(
                        #[trigger] r@[k1],
                        self.spec_width(),
                    ) < cell_flat_index(#[trigger] r@[k2], self.spec_width()),
                forall|j: int|
                    0 <= j < i && #[trigger] self.counts()[j] > 0 ==> exists|k: int|
                        0 <= k < r@.len() && cell_flat_index(#[trigger] r@[k], self.spec_width())
                            == j,
            decreases len - i,
        {
            let c: u64 = self.counts[i];
            if c > 0 {
                let y: usize = i / w;
                let x: usize = i % w;
                proof {
                    lemma_fundamental_div_mod(i as int, w as int);
                    lemma_mod_bound(i as int, w as int);
                    lemma_multiply_divide_lt(i as int, w as int, self.spec_height());
                    lemma_mul_is_commutative(w as int, i as int / (w as int));
                    assert((w as int) * self.spec_height() == self.spec_width()
                        * self.spec_height());
                }
                let ghost prev = r@;
                let p = CellPoint { x, y, count: c };
                proof {
                    assert(cell_flat_index(p, w as int) == i);
                }
                r.push(p);
                proof {
                    assert forall|j: int|
                        0 <= j < i + 1 && #[trigger] self.counts()[j] > 0 implies exists|k: int|
                        0 <= k < r@.len() && cell_flat_index(#[trigger] r@[k], self.spec_width())
                            == j by {
                        if j < i {
                            let k = choose|k: int|
                                0 <= k < prev.len() && cell_flat_index(prev[k], self.spec_width())
                                    == j;
                            assert(r@[k] == prev[k]);
                        } else {
                            assert(cell_flat_index(r@[r@.len() - 1], self.spec_width()) == j);
                        }
                    }
                }
            }
            i = i + 1;
        }
        r
    }

    /// Cells per row.
    pub fn width(&self) -> (r: usize)
        ensures
            r == self.spec_width(),
    {
        self.width
    }

    /// Cells per column.
    pub fn height(&self) -> (r: usize)
        ensures
            r == self.spec_height(),
    {
        self.height
    }

    /// The counter of the cell in column `x`, row `y`.
    pub fn count_at(&self, x: usize, y: usize) -> (r: u64)
        requires
            self.wf(),
            x < self.spec_width(),
            y < self.spec_height(),
        ensures
            r == self.counts()[(y as int) * self.spec_width() + (x as int)],
    {
        let _len: usize = self.counts.len();
        proof {
            assert((y as int) * (self.width as int) + (x as int) < (self.width as int)
                * (self.height as int)) by (nonlinear_arith)
                requires
                    x < self.width,
                    y < self.height,
                    self.width >= 1,
                    self.height >= 1,
            ;
        }
        self.counts[y * self.width + x]
    }

    /// How many coordinate pairs have been inserted so far.
    pub fn total_inserted(&self) -> (r: u64)
        ensures
            r == self.inserted(),
    {
        self.total
    }
}

/// One axis of pixel binning; see `spec_pixel_bin`.
fn pixel_bin(val: i64, scale: i64, cells: usize) -> (r: usize)
    requires
        scale >= 1,
        cells >= 1,
    ensures
        r as int == spec_pixel_bin(val as int, scale as int, cells as int),
        r < cells,
{
    proof {
        lemma_pixel_bin_in_range(val as int, scale as int, cells as int);
    }
    if val < 0 {
        0
    } else if val > scale {
        cells - 1
    } else {
        proof {
            lemma_mul_upper_bound(
                val as int,
                i64::MAX as int,
                (cells - 1) as int,
                u64::MAX as int,
            );
        }
        let q: u128 = ((val as u128) * ((cells - 1) as u128)) / (scale as u128);
        if q >= cells as u128 {
            cells - 1
        } else {
            q as usize
        }
    }
}

/// The plot-space position of a grid coordinate: cell `i` of a
/// `resolution`-cell axis sits at the exact rational `i / resolution`
/// within the unit interval.
pub fn cell_position(i: usize, resolution: usize) -> (r: Frac)
    requires
        resolution >= 1,
    ensures
        r.num == i,
        r.den == resolution,
{
    Frac { num: i as u64, den: resolution as u64 }
}

/// Conservation: a well-formed heat grid's counters sum to exactly the
/// number of coordinate pairs inserted into it - no pair is lost or
/// double-counted.
pub proof fn lemma_heat_conservation(g: HeatGrid)
    requires
        g.wf(),
    ensures
        sum_counts(g.counts()) == g.inserted(),
{
}

} // verus!
