//! Numeric grid types shared by the normalizer and the compositor, and the
//! error taxonomy of the pipeline.

use vstd::prelude::*;

verus! {

/// Fixed-point scale of intensities: the stored integer `v` stands for the
/// real intensity `v / 65536`, so `65536` is the intensity `1.0`.
pub const ONE_Q16: u32 = 65536;

/// Errors of the numeric pipeline. Every failure aborts the computation;
/// nothing is retried and no partial output exists.
#[derive(Clone, Copy, Debug, PartialEq, Eq, Structural)]
pub enum HeError {
    /// The two channel grids handed to the compositor differ in shape.
    ShapeMismatch,
    /// The grid is empty, or its saturation threshold is zero (an all-zero or
    /// otherwise degenerate image), so no normalization denominator exists.
    DegenerateImage,
}

/// A single-channel intensity grid, row-major, shape `(height, width)`.
/// Values are Q16 fixed-point intensities: non-negative, unconstrained before
/// normalization, in `[0, 65536]` after it.
#[derive(Debug)]
pub struct IntensityGrid {
    pub height: usize,
    pub width: usize,
    pub data: Vec<u32>,
}

impl IntensityGrid {
    /// The grid holds exactly one value per cell.
    pub open spec fn wf(self) -> bool {
        self.data@.len() == self.height * self.width
    }

    /// The value of the cell in row `i`, column `j`.
    pub open spec fn val(self, i: int, j: int) -> u32 {
        self.data@[i * self.width + j]
    }

    /// Builds a grid from row-major cell values; fails exactly when the
    /// number of values does not match the shape.
    pub fn new(height: usize, width: usize, data: Vec<u32>) -> (r: Option<IntensityGrid>)
        ensures
            match r {
                Some(g) => g.wf() && g.height == height && g.width == width && g.data@ == data@,
                None => data@.len() != height * width,
            },
    {
        match height.checked_mul(width) {
            Some(cells) => {
                if data.len() == cells {
                    Some(IntensityGrid { height, width, data })
                } else {
                    None
                }
            },
            None => {
                proof {
                    assert(data.len() == data@.len());
                    assert(data@.len() <= usize::MAX < height * width);
                }
                None
            },
        }
    }

    /// The value of the cell in row `i`, column `j`.
    pub fn get(&self, i: usize, j: usize) -> (v: u32)
        requires
            self.wf(),
            i < self.height,
            j < self.width,
        ensures
            v == self.val(i as int, j as int),
    {
        proof {
            assert(self.data.len() == self.data@.len());
            lemma_row_major_index_in_range(self.height as int, self.width as int, i as int, j as int);
        }
        self.data[i * self.width + j]
    }
}

/// A three-channel image grid, row-major, shape `(height, width, 3)`, channel
/// order (R, G, B), one byte per channel.
#[derive(Debug)]
pub struct RgbGrid {
    pub height: usize,
    pub width: usize,
    pub data: Vec<u8>,
}

impl RgbGrid {
    /// The grid holds exactly three bytes per pixel.
    pub open spec fn wf(self) -> bool {
        self.data@.len() == self.height * self.width * 3
    }

    /// The byte of channel `c` of the pixel in row `i`, column `j`.
    pub open spec fn at(self, i: int, j: int, c: int) -> u8 {
        self.data@[(i * self.width + j) * 3 + c]
    }

    /// The byte of channel `c` of the pixel in row `i`, column `j`.
    pub fn get(&self, i: usize, j: usize, c: usize) -> (v: u8)
        requires
            self.wf(),
            i < self.height,
            j < self.width,
            c < 3,
        ensures
            v == self.at(i as int, j as int, c as int),
    {
        proof {
            assert(self.data.len() == self.data@.len());
            lemma_row_major_index_in_range(self.height as int, self.width as int, i as int, j as int);
            assert((i * self.width + j) * 3 + c < self.height * self.width * 3) by (nonlinear_arith)
                requires
                    0 <= i * self.width + j < self.height * self.width,
                    0 <= c < 3,
            ;
        }
        self.data[(i * self.width + j) * 3 + c]
    }
}

/// In a row-major grid of shape `(h, w)`, the flat index of a valid cell
/// `(i, j)` lies inside the grid.
pub proof fn lemma_row_major_index_in_range(h: int, w: int, i: int, j: int)
    requires
        0 <= i < h,
        0 <= j < w,
    ensures
        0 <= i * w + j < h * w,
{
    assert(0 <= i * w + j < h * w) by (nonlinear_arith)
        requires
            0 <= i < h,
            0 <= j < w,
    ;
}

} // verus!
