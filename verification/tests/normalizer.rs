use virtual_he::grid::{HeError, IntensityGrid};
use virtual_he::normalize::normalize;

const ONE: u32 = 65536;
const FULL: u64 = 1_000_000;
const DEFAULT_PPM: u64 = 999_990;

fn grid(height: usize, width: usize, data: Vec<u32>) -> IntensityGrid {
    IntensityGrid::new(height, width, data).unwrap()
}

#[test]
fn identity_when_threshold_is_one() {
    let g = grid(2, 2, vec![0, 16384, 32768, ONE]);
    let out = normalize(g, FULL).unwrap();
    assert_eq!(out.height, 2);
    assert_eq!(out.width, 2);
    assert_eq!(out.data, vec![0, 16384, 32768, ONE]);
}

#[test]
fn scales_by_maximum_at_full_percentile() {
    let g = grid(1, 4, vec![0, 1, 2, 4]);
    let out = normalize(g, FULL).unwrap();
    assert_eq!(out.data, vec![0, 16384, 32768, ONE]);
}

#[test]
fn clips_values_above_threshold() {
    // p = 50% of 4 values: index 2 of [1, 2, 3, 4], threshold 3.
    let g = grid(1, 4, vec![1, 2, 3, 4]);
    let out = normalize(g, 500_000).unwrap();
    assert_eq!(out.data, vec![21845, 43690, ONE, ONE]);
}

#[test]
fn unsorted_input_uses_sorted_threshold() {
    let g = grid(2, 2, vec![4, 1, 3, 2]);
    let out = normalize(g, 500_000).unwrap();
    // Ascending values [1, 2, 3, 4]; index floor(0.5 * 4) = 2; threshold 3.
    assert_eq!(out.data, vec![ONE, 21845, ONE, 43690]);
}

#[test]
fn percentile_index_semantics_default_percentile() {
    // 100_000 distinct ascending values 0..99999 at p = 99.999%:
    // index = floor(0.99999 * 100000) = 99999, threshold = 99999 (the
    // maximum), so the largest normalized value is exactly 1.0.
    let n = 100_000usize;
    let data: Vec<u32> = (0..n as u32).collect();
    let g = grid(100, 1000, data);
    let out = normalize(g, DEFAULT_PPM).unwrap();
    assert_eq!(out.data[0], 0);
    assert_eq!(out.data[n - 1], ONE);
    assert!(out.data.iter().all(|&v| v <= ONE));
}

#[test]
fn percentile_below_top_leaves_maximum_clipped() {
    // 10 values 1..=10 at p = 50%: index 5, threshold 6; everything above
    // the threshold saturates at 1.0.
    let data: Vec<u32> = (1..=10).collect();
    let g = grid(2, 5, data);
    let out = normalize(g, 500_000).unwrap();
    assert_eq!(out.data[5], ONE);
    assert_eq!(out.data[9], ONE);
    assert_eq!(out.data[0], 10922); // 1 * 65536 / 6
}

#[test]
fn monotone_per_pixel() {
    let g = grid(2, 2, vec![5, 3, 9, 3]);
    let out = normalize(g, FULL).unwrap();
    assert!(out.data[1] <= out.data[0]);
    assert!(out.data[0] <= out.data[2]);
    assert_eq!(out.data[1], out.data[3]);
    assert_eq!(out.data[2], ONE);
}

#[test]
fn empty_grid_is_degenerate() {
    let g = grid(0, 0, vec![]);
    assert_eq!(normalize(g, DEFAULT_PPM).unwrap_err(), HeError::DegenerateImage);
}

#[test]
fn all_zero_grid_is_degenerate() {
    let g = grid(2, 2, vec![0, 0, 0, 0]);
    assert_eq!(normalize(g, DEFAULT_PPM).unwrap_err(), HeError::DegenerateImage);
}

#[test]
fn zero_threshold_from_low_percentile_is_degenerate() {
    // One tiny percentile lands the index on the smallest value, zero.
    let g = grid(1, 4, vec![0, 0, 0, 7]);
    assert_eq!(normalize(g, 1).unwrap_err(), HeError::DegenerateImage);
}

#[test]
fn grid_constructor_rejects_wrong_cell_count() {
    assert!(IntensityGrid::new(2, 2, vec![1, 2, 3]).is_none());
    assert!(IntensityGrid::new(2, 2, vec![1, 2, 3, 4]).is_some());
}
