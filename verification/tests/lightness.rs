use genplot::error::GridError;
use genplot::frac::Frac;
use genplot::heatmap::CellPoint;
use genplot::lightness::{heat_points, lightness, LightnessBounds};

// A fixed-point log scale with one unit per decade: counts 1, 10, 100
// have common logarithms 0, 1, 2.
#[test]
fn counts_one_ten_hundred_map_to_expected_lightness() {
    let b = LightnessBounds::defaults();
    // count 1: log10 = 0 of log10(100) = 2 -> exactly L_min = 0.3.
    let l1 = lightness(0, 2, b);
    assert_eq!((l1.num, l1.den), (600, 2000));
    assert_eq!(l1.num as f64 / l1.den as f64, 0.3);
    // count 10: log10(10)/log10(100) = 0.5 -> 0.3 + 0.5 * 0.7 = 0.65.
    let l10 = lightness(1, 2, b);
    assert_eq!((l10.num, l10.den), (1300, 2000));
    assert_eq!(l10.num as f64 / l10.den as f64, 0.65);
    // count 100: the maximum reaches exactly L_max = 1.0.
    let l100 = lightness(2, 2, b);
    assert_eq!((l100.num, l100.den), (2000, 2000));
    assert_eq!(l100.num as f64 / l100.den as f64, 1.0);
}

#[test]
fn lightness_is_monotone_and_bounded() {
    let b = LightnessBounds::new(250, 900).unwrap();
    let gmax: u64 = 1 << 20;
    let mut prev: Option<Frac> = None;
    for g in [0u64, 1, 100, gmax / 3, gmax / 2, gmax - 1, gmax] {
        let l = lightness(g, gmax, b);
        // Within [L_min, L_max] as exact rationals.
        assert!(250 * l.den <= l.num * 1000);
        assert!(l.num * 1000 <= 900 * l.den);
        // Monotone in the log-scaled count.
        if let Some(p) = prev {
            assert!(p.num as u128 * l.den as u128 <= l.num as u128 * p.den as u128);
        }
        prev = Some(l);
    }
}

#[test]
fn degenerate_maximum_of_one_is_uniformly_the_floor() {
    // When the maximum count is 1 its logarithm is 0, and every occupied
    // cell receives exactly L_min.
    let b = LightnessBounds::defaults();
    let l = lightness(0, 0, b);
    assert_eq!((l.num, l.den), (300, 1000));
    assert_eq!(l.num as f64 / l.den as f64, 0.3);
}

#[test]
fn heat_points_pair_positions_with_lightness() {
    // Two occupied cells of a 3 x 2 grid with counts 100 and 1: log10
    // values 2 and 0 against a maximum of 2, with one log unit per
    // decade.
    let cells = vec![
        CellPoint { x: 0, y: 0, count: 100 },
        CellPoint { x: 2, y: 1, count: 1 },
    ];
    let logs = vec![2u64, 0];
    let points = heat_points(&cells, &logs, 2, LightnessBounds::defaults(), 3, 2);
    assert_eq!(points.len(), 2);
    assert_eq!((points[0].x_pos.num, points[0].x_pos.den), (0, 3));
    assert_eq!((points[0].y_pos.num, points[0].y_pos.den), (0, 2));
    assert_eq!((points[0].light.num, points[0].light.den), (2000, 2000));
    assert_eq!((points[1].x_pos.num, points[1].x_pos.den), (2, 3));
    assert_eq!((points[1].y_pos.num, points[1].y_pos.den), (1, 2));
    assert_eq!((points[1].light.num, points[1].light.den), (600, 2000));
}

#[test]
fn bounds_constructor_rejects_bad_configurations() {
    assert_eq!(LightnessBounds::new(800, 300).err(), Some(GridError::InvalidConfig));
    assert_eq!(LightnessBounds::new(300, 1001).err(), Some(GridError::InvalidConfig));
    let b = LightnessBounds::new(300, 1000).unwrap();
    assert_eq!((b.min_permille, b.max_permille), (300, 1000));
}
