use vstd::prelude::*;

verus! {

/// Fatal conditions of the aggregation core. Each aborts the whole run:
/// there is no partial recovery.
#[derive(Clone, Copy, Debug, PartialEq, Eq, Structural)]
pub enum GridError {
    /// A grid was configured with a zero cell count on some axis, or with a
    /// domain whose upper bound does not exceed its lower bound.
    InvalidConfig,
    /// Normalization was invoked on a grid into which nothing was ever
    /// inserted; the maximum count is zero and no scale can be derived.
    EmptyData,
}

} // verus!
