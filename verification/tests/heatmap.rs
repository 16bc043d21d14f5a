use genplot::error::GridError;
use genplot::heatmap::{cell_position, CellPoint, HeatGrid};

// Coordinates are fixed-point integers; these tests use a scale of 100
// units per 1.0, so the unit square is carried as [0, 100] x [0, 100].
const SCALE: i64 = 100;

#[test]
fn new_rejects_zero_axis_or_scale() {
    assert_eq!(HeatGrid::new(0, 2, SCALE).err(), Some(GridError::InvalidConfig));
    assert_eq!(HeatGrid::new(3, 0, SCALE).err(), Some(GridError::InvalidConfig));
    assert_eq!(HeatGrid::new(3, 2, 0).err(), Some(GridError::InvalidConfig));
    assert_eq!(HeatGrid::new(3, 2, -5).err(), Some(GridError::InvalidConfig));
}

#[test]
fn insert_uses_row_major_y_width_x_indexing() {
    // A 3-wide, 2-tall grid: x = 1.0 bins to column 2, y = 1.0 to row 1.
    let mut g = HeatGrid::new(3, 2, SCALE).unwrap();
    g.insert(SCALE, SCALE);
    assert_eq!(g.count_at(2, 1), 1);
    g.insert(0, 0);
    assert_eq!(g.count_at(0, 0), 1);
    // A 3-pixel axis over [0, 1] has cell width 1/2: x = 0.26 bins to
    // column 0, x = 0.6 to column 1.
    g.insert(26, 0);
    assert_eq!(g.count_at(0, 0), 2);
    g.insert(60, 0);
    assert_eq!(g.count_at(1, 0), 1);
}

#[test]
fn out_of_domain_pairs_clamp_to_boundary_cells() {
    let mut g = HeatGrid::new(3, 2, SCALE).unwrap();
    g.insert(-50, 400);
    assert_eq!(g.count_at(0, 1), 1);
    g.insert(400, -50);
    assert_eq!(g.count_at(2, 0), 1);
    assert_eq!(g.total_inserted(), 2);
}

#[test]
fn conservation_sums_grid_counters_to_insertions() {
    let mut g = HeatGrid::new(4, 4, SCALE).unwrap();
    let pairs = [(0i64, 0i64), (50, 50), (50, 50), (100, 0), (-10, 110), (33, 66)];
    for (x, y) in pairs {
        g.insert(x, y);
    }
    assert_eq!(g.total_inserted(), pairs.len() as u64);
    let mut sum: u64 = 0;
    for y in 0..g.height() {
        for x in 0..g.width() {
            sum += g.count_at(x, y);
        }
    }
    assert_eq!(sum, pairs.len() as u64);
}

#[test]
fn nonzero_cells_emits_exactly_the_occupied_cells() {
    let mut g = HeatGrid::new(3, 2, SCALE).unwrap();
    g.insert(0, 0);
    g.insert(0, 0);
    g.insert(SCALE, SCALE);
    let cells = g.nonzero_cells();
    // Sparsity: no zero-count cell is ever emitted.
    for p in &cells {
        assert!(p.count > 0);
        assert_eq!(g.count_at(p.x, p.y), p.count);
    }
    // Exactly the two occupied cells appear, in row-major order.
    assert_eq!(
        cells,
        vec![
            CellPoint { x: 0, y: 0, count: 2 },
            CellPoint { x: 2, y: 1, count: 1 },
        ]
    );
}

#[test]
fn nonzero_cells_of_untouched_grid_is_empty() {
    let g = HeatGrid::new(3, 2, SCALE).unwrap();
    assert_eq!(g.nonzero_cells().len(), 0);
}

#[test]
fn cell_position_is_index_over_resolution() {
    let p = cell_position(3, 8);
    assert_eq!(p.num, 3);
    assert_eq!(p.den, 8);
    assert_eq!(p.num as f64 / p.den as f64, 0.375);
}
