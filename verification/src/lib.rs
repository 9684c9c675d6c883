//! Synthesis of virtual H&E (hematoxylin & eosin) images from two
//! co-registered single-channel fluorescence microscopy grids.
//!
//! The pipeline has two stages, both pure functions over numeric grids:
//! percentile-based intensity normalization ([`normalize::normalize`]) and a
//! Beer-Lambert absorbance compositor ([`compose::compose`]) that blends the
//! two normalized channels into an 8-bit RGB grid.
//!
//! All intensities are fixed-point rationals: an intensity `v` stands for the
//! real number `v / 65536` (Q16), and the strength factor `k` is given in the
//! same Q16 scale. Transmittances are computed in Q32.

pub mod compose;
pub mod fixed;
pub mod grid;
pub mod normalize;
pub mod sort;
