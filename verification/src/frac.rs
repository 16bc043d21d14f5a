use vstd::prelude::*;

verus! {

/// An exact non-negative rational, `num / den`. Intensities and plot-space
/// positions are carried in this form so that their defining equations can
/// be stated and checked exactly; a renderer divides once at the very end.
#[derive(Clone, Copy, Debug, PartialEq, Eq, Structural)]
pub struct Frac {
    pub num: u64,
    pub den: u64,
}

/// `a <= b` as rationals. Meaningful when both denominators are positive.
pub open spec fn frac_le(a: Frac, b: Frac) -> bool {
    a.num * b.den <= b.num * a.den
}

} // verus!
