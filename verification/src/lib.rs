//! Streaming density aggregation for large coordinate files.
//!
//! An unbounded stream of coordinate values is folded, one value at a time,
//! into a fixed-size grid of counters (`binnedvector` for one axis,
//! `heatmap` for a two-dimensional pixel grid). Out-of-domain values are
//! clamped into the first or last cell, never dropped. Completed grids are
//! turned into displayable intensities either by linear normalization
//! against the maximum count or by a logarithmic lightness mapping that
//! keeps low-count cells visible (`lightness`).
//!
//! Real-valued coordinates are carried as fixed-point integers: a caller
//! picks a scale `S` and represents the real number `r` as `r * S` rounded
//! to an integer. Binning only ever compares a value against the domain
//! bounds in the same scale, so the choice of `S` cancels out. Intensities
//! are exact rationals (`frac::Frac`).

pub mod binnedvector;
pub mod error;
pub mod frac;
pub mod heatmap;
pub mod lightness;
pub mod sums;
