use genplot::binnedvector::FixedBinnedVector;
use genplot::error::GridError;

// Coordinates are fixed-point integers; these tests use a scale of 100
// units per 1.0, so the unit domain [0, 1] is carried as [0, 100].
const SCALE: i64 = 100;

#[test]
fn new_rejects_zero_bins() {
    let r = FixedBinnedVector::new(0, SCALE, 0);
    assert_eq!(r.err(), Some(GridError::InvalidConfig));
}

#[test]
fn new_rejects_empty_domain() {
    let r = FixedBinnedVector::new(SCALE, SCALE, 4);
    assert_eq!(r.err(), Some(GridError::InvalidConfig));
    let r = FixedBinnedVector::new(SCALE, 0, 4);
    assert_eq!(r.err(), Some(GridError::InvalidConfig));
}

#[test]
fn new_grid_is_all_zero() {
    let g = FixedBinnedVector::new(0, SCALE, 4).unwrap();
    assert_eq!(g.bin_count(), 4);
    assert_eq!(g.total_inserted(), 0);
    for bin in 0..4 {
        assert_eq!(g.count(bin), 0);
    }
}

#[test]
fn boundary_below_min_increments_first_cell() {
    let mut g = FixedBinnedVector::new(0, SCALE, 4).unwrap();
    g.insert(-10);
    assert_eq!(g.count(0), 1);
    assert_eq!(g.count(1) + g.count(2) + g.count(3), 0);
}

#[test]
fn boundary_above_max_increments_last_cell() {
    let mut g = FixedBinnedVector::new(0, SCALE, 4).unwrap();
    g.insert(150);
    assert_eq!(g.count(3), 1);
    assert_eq!(g.count(0) + g.count(1) + g.count(2), 0);
}

#[test]
fn boundary_exact_max_increments_last_cell() {
    let mut g = FixedBinnedVector::new(0, SCALE, 4).unwrap();
    g.insert(SCALE);
    assert_eq!(g.count(3), 1);
}

#[test]
fn boundary_exact_min_increments_first_cell() {
    let mut g = FixedBinnedVector::new(0, SCALE, 4).unwrap();
    g.insert(0);
    assert_eq!(g.count(0), 1);
}

#[test]
fn conservation_sums_counters_to_insertions() {
    let mut g = FixedBinnedVector::new(0, SCALE, 4).unwrap();
    let values = [-10i64, 0, 24, 26, 99, 150, 50, 50, 200, -200];
    for v in values {
        g.insert(v);
    }
    assert_eq!(g.total_inserted(), values.len() as u64);
    let mut sum: u64 = 0;
    for bin in 0..g.bin_count() {
        sum += g.count(bin);
    }
    assert_eq!(sum, values.len() as u64);
}

#[test]
fn example_four_bins_counts_and_normalization() {
    // Domain [0, 1] as [0, 100], 4 bins of width 0.25; insertions at
    // -0.1, 0.0, 0.24, 0.26, 0.99, 1.5: the value -0.1 clamps into bin 0
    // and 1.5 into bin 3; 0.0 and 0.24 fall in bin 0, 0.26 in bin 1 and
    // 0.99 in bin 3, so the counts are [3, 1, 0, 2].
    let mut g = FixedBinnedVector::new(0, SCALE, 4).unwrap();
    for v in [-10i64, 0, 24, 26, 99, 150] {
        g.insert(v);
    }
    assert_eq!(g.count(0), 3);
    assert_eq!(g.count(1), 1);
    assert_eq!(g.count(2), 0);
    assert_eq!(g.count(3), 2);

    // Linear normalization divides by the maximum count 3.
    let v = g.normalize().unwrap();
    assert_eq!(v.len(), 4);
    let nums: Vec<u64> = v.iter().map(|f| f.num).collect();
    assert_eq!(nums, vec![3, 1, 0, 2]);
    for f in &v {
        assert_eq!(f.den, 3);
    }
    let as_f64: Vec<f64> = v.iter().map(|f| f.num as f64 / f.den as f64).collect();
    assert_eq!(as_f64, vec![1.0, 1.0 / 3.0, 0.0, 2.0 / 3.0]);
}

#[test]
fn normalization_stays_within_unit_interval() {
    let mut g = FixedBinnedVector::new(0, SCALE, 5).unwrap();
    for v in [3i64, 3, 3, 25, 47, 47, 68, 68, 68, 68, 90] {
        g.insert(v);
    }
    let v = g.normalize().unwrap();
    for f in &v {
        assert!(f.num <= f.den);
        assert!(f.den > 0);
    }
    // The cell with the maximum count normalizes to exactly 1.0.
    let max_num = v.iter().map(|f| f.num).max().unwrap();
    assert_eq!(max_num, v[0].den);
    assert!(v.iter().any(|f| f.num == f.den));
}

#[test]
fn normalize_empty_grid_reports_empty_data() {
    let g = FixedBinnedVector::new(0, SCALE, 4).unwrap();
    let r = g.normalize();
    assert_eq!(r.err(), Some(GridError::EmptyData));
}
