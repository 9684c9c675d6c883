use virtual_he::grid::{HeError, IntensityGrid, RgbGrid};
use virtual_he::compose::compose;

const ONE: u32 = 65536;
// The default strength factor 2.5 in Q16.
const K_DEFAULT: u64 = 163_840;

fn uniform(height: usize, width: usize, value: u32) -> IntensityGrid {
    IntensityGrid::new(height, width, vec![value; height * width]).unwrap()
}

fn pixel(rgb: &RgbGrid, i: usize, j: usize) -> [u8; 3] {
    [rgb.get(i, j, 0), rgb.get(i, j, 1), rgb.get(i, j, 2)]
}

#[test]
fn shape_mismatch_is_rejected() {
    let nucleus = uniform(10, 10, 0);
    let eosin = uniform(10, 11, 0);
    assert_eq!(compose(nucleus, eosin, K_DEFAULT).unwrap_err(), HeError::ShapeMismatch);
}

#[test]
fn shape_mismatch_in_height_is_rejected() {
    let nucleus = uniform(3, 4, ONE);
    let eosin = uniform(4, 4, ONE);
    assert_eq!(compose(nucleus, eosin, 1).unwrap_err(), HeError::ShapeMismatch);
}

#[test]
fn zero_intensities_give_white() {
    // exp(0) = 1 on every channel, and 1.0 * 255 = 255, whatever k is.
    for k in [1u64, K_DEFAULT, 6_553_600] {
        let out = compose(uniform(1, 1, 0), uniform(1, 1, 0), k).unwrap();
        assert_eq!(pixel(&out, 0, 0), [255, 255, 255]);
    }
}

#[test]
fn nucleus_only_known_values() {
    // Nucleus 1.0, eosin 0.0, k = 2.5:
    // R: floor(exp(-0.860 * 2.5) * 255) = floor(29.70) = 29
    // G: floor(exp(-1.000 * 2.5) * 255) = floor(20.93) = 20
    // B: floor(exp(-0.300 * 2.5) * 255) = floor(120.45) = 120
    let out = compose(uniform(1, 1, ONE), uniform(1, 1, 0), K_DEFAULT).unwrap();
    assert_eq!(pixel(&out, 0, 0), [29, 20, 120]);
}

#[test]
fn eosin_only_known_values() {
    // Nucleus 0.0, eosin 1.0, k = 2.5:
    // R: floor(exp(-0.050 * 2.5) * 255) = floor(225.04) = 225
    // G: floor(exp(-1.000 * 2.5) * 255) = floor(20.93) = 20
    // B: floor(exp(-0.544 * 2.5) * 255) = floor(65.45) = 65
    let out = compose(uniform(1, 1, 0), uniform(1, 1, ONE), K_DEFAULT).unwrap();
    assert_eq!(pixel(&out, 0, 0), [225, 20, 65]);
}

#[test]
fn both_stains_known_values() {
    // Nucleus 1.0, eosin 1.0, k = 2.5:
    // R: floor(exp(-(0.860 + 0.050) * 2.5) * 255) = floor(26.21) = 26
    // G: floor(exp(-(1.000 + 1.000) * 2.5) * 255) = floor(1.72)  = 1
    // B: floor(exp(-(0.300 + 0.544) * 2.5) * 255) = floor(30.92) = 30
    let out = compose(uniform(1, 1, ONE), uniform(1, 1, ONE), K_DEFAULT).unwrap();
    assert_eq!(pixel(&out, 0, 0), [26, 1, 30]);
}

#[test]
fn huge_strength_factor_gives_black() {
    let k = 1u64 << 40;
    let out = compose(uniform(1, 1, ONE), uniform(1, 1, ONE), k).unwrap();
    assert_eq!(pixel(&out, 0, 0), [0, 0, 0]);
}

#[test]
fn output_shape_and_layout() {
    let mut data = vec![0u32; 6];
    data[5] = ONE; // row 1, column 2
    let nucleus = IntensityGrid::new(2, 3, data).unwrap();
    let eosin = uniform(2, 3, 0);
    let out = compose(nucleus, eosin, K_DEFAULT).unwrap();
    assert_eq!(out.height, 2);
    assert_eq!(out.width, 3);
    assert_eq!(out.data.len(), 18);
    assert_eq!(pixel(&out, 0, 0), [255, 255, 255]);
    assert_eq!(pixel(&out, 1, 2), [29, 20, 120]);
    // Row-major flat layout: pixel (1, 2) starts at ((1 * 3) + 2) * 3.
    assert_eq!(out.data[15], 29);
}

#[test]
fn every_channel_in_range_on_mixed_grid() {
    let nucleus = IntensityGrid::new(2, 2, vec![0, ONE / 4, ONE / 2, ONE]).unwrap();
    let eosin = IntensityGrid::new(2, 2, vec![ONE, ONE / 2, ONE / 4, 0]).unwrap();
    let out = compose(nucleus, eosin, K_DEFAULT).unwrap();
    assert_eq!(out.data.len(), 12);
    // u8 is bounded by construction; check the ends are hit nowhere here.
    assert!(out.data.iter().all(|&b| b <= 255));
}
