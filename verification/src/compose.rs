//! The Beer-Lambert compositor: blends two normalized single-channel grids
//! into an 8-bit RGB grid. Per pixel and channel the transmitted light is
//! `exp(-beta_nucleus[c] * nucleus * k) * exp(-beta_eosin[c] * eosin * k)`,
//! computed here in one step as `exp(-k * (beta_nucleus[c] * nucleus +
//! beta_eosin[c] * eosin))`, then scaled by 255, truncated and clamped.

use vstd::prelude::*;
use vstd::arithmetic::div_mod::lemma_div_pos_is_pos;
use crate::fixed::{
    exp_neg_q16, exp_neg_q16_spec, lemma_exp_neg_bounds, lemma_quantize_saturates, quantize,
    quantize_spec, ONE_Q32, X_CAP_Q16,
};
use crate::grid::{lemma_row_major_index_in_range, HeError, IntensityGrid, RgbGrid};

verus! {

/// Attenuation coefficients are given in thousandths and intensities in Q16,
/// so an absorbance product is divided by `1000 * 65536` to land back in Q16.
pub const ABS_DIV: u64 = 65536000;

/// Hematoxylin (nucleus) attenuation per channel, in thousandths:
/// R `0.860`, G `1.000`, B `0.300`.
pub open spec fn beta_nucleus_milli(c: int) -> int {
    if c == 0 {
        860
    } else if c == 1 {
        1000
    } else {
        300
    }
}

/// Eosin attenuation per channel, in thousandths:
/// R `0.050`, G `1.000`, B `0.544`.
pub open spec fn beta_eosin_milli(c: int) -> int {
    if c == 0 {
        50
    } else if c == 1 {
        1000
    } else {
        544
    }
}

/// The combined Q16 absorbance of both stains at one pixel for channel `c`:
/// `k * (beta_nucleus[c] * n + beta_eosin[c] * e)`, rescaled to Q16.
pub open spec fn absorbance_q16(k: int, c: int, n: int, e: int) -> int {
    k * (beta_nucleus_milli(c) * n + beta_eosin_milli(c) * e) / (ABS_DIV as int)
}

/// The 8-bit value of output channel `c` for nucleus intensity `n`, eosin
/// intensity `e` (both Q16) and strength factor `k` (Q16): the quantized
/// transmittance of the combined absorbance.
pub open spec fn channel_of(k: int, c: int, n: int, e: int) -> int {
    quantize_spec(exp_neg_q16_spec(absorbance_q16(k, c, n, e)))
}

fn beta_nucleus(c: usize) -> (b: u64)
    requires
        c < 3,
    ensures
        b == beta_nucleus_milli(c as int),
{
    if c == 0 {
        860
    } else if c == 1 {
        1000
    } else {
        300
    }
}

fn beta_eosin(c: usize) -> (b: u64)
    requires
        c < 3,
    ensures
        b == beta_eosin_milli(c as int),
{
    if c == 0 {
        50
    } else if c == 1 {
        1000
    } else {
        544
    }
}

/// Computes one output channel of one pixel.
pub fn compose_channel(k_q16: u64, c: usize, n: u32, e: u32) -> (b: u8)
    requires
        c < 3,
        k_q16 >= 1,
    ensures
        b == channel_of(k_q16 as int, c as int, n as int, e as int),
{
    let bn: u64 = beta_nucleus(c);
    let be: u64 = beta_eosin(c);
    proof {
        assert((bn as int) * (n as int) + (be as int) * (e as int) <= 2000 * 0xFFFF_FFFF)
            by (nonlinear_arith)
            requires
                bn <= 1000,
                be <= 1000,
                n <= 0xFFFF_FFFF,
                e <= 0xFFFF_FFFF,
        ;
    }
    let a: u64 = bn * (n as u64) + be * (e as u64);
    proof {
        assert((k_q16 as int) * (a as int) <= 0xFFFF_FFFF_FFFF_FFFF * (2000 * 0xFFFF_FFFF))
            by (nonlinear_arith)
            requires
                k_q16 <= 0xFFFF_FFFF_FFFF_FFFF,
                0 <= a <= 2000 * 0xFFFF_FFFF,
        ;
    }
    let x128: u128 = (k_q16 as u128) * (a as u128) / (ABS_DIV as u128);
    proof {
        assert(x128 == absorbance_q16(k_q16 as int, c as int, n as int, e as int));
    }
    let xq: u64 = if x128 >= X_CAP_Q16 as u128 {
        X_CAP_Q16
    } else {
        x128 as u64
    };
    let q = exp_neg_q16(xq);
    quantize(q)
}

/// Blends two normalized channel grids of identical shape into an RGB grid:
/// for every pixel `(i, j)` and channel `c`, the output byte is
/// [`channel_of`] at the two input intensities. Fails with
/// [`HeError::ShapeMismatch`] exactly when the shapes differ, before any
/// computation.
pub fn compose(nucleus: IntensityGrid, eosin: IntensityGrid, k_q16: u64) -> (r: Result<
    RgbGrid,
    HeError,
>)
    requires
        nucleus.wf(),
        eosin.wf(),
        k_q16 >= 1,
        nucleus.data@.len() * 3 <= usize::MAX,
    ensures
        match r {
            Ok(out) => {
                &&& nucleus.height == eosin.height
                &&& nucleus.width == eosin.width
                &&& out.wf()
                &&& out.height == nucleus.height
                &&& out.width == nucleus.width
                &&& forall|i: int, j: int, c: int|
                    0 <= i < out.height && 0 <= j < out.width && 0 <= c < 3 ==> out.at(i, j, c)
                        == channel_of(
                        k_q16 as int,
                        c,
                        nucleus.val(i, j) as int,
                        eosin.val(i, j) as int,
                    )
            },
            Err(e) => {
                &&& e == HeError::ShapeMismatch
                &&& (nucleus.height != eosin.height || nucleus.width != eosin.width)
            },
        },
{
    if nucleus.height != eosin.height || nucleus.width != eosin.width {
        return Err(HeError::ShapeMismatch);
    }
    let len = nucleus.data.len();
    let mut out: Vec<u8> = Vec::new();
    let mut p: usize = 0;
    while p < len
        invariant
            p <= len,
            len == nucleus.data@.len() == eosin.data@.len(),
            len * 3 <= usize::MAX,
            k_q16 >= 1,
            out@.len() == p * 3,
            forall|t: int, c: int|
                0 <= t < p && 0 <= c < 3 ==> out@[t * 3 + c] == channel_of(
                    k_q16 as int,
                    c,
                    nucleus.data@[t] as int,
                    eosin.data@[t] as int,
                ),
        decreases len - p,
    {
        let n = nucleus.data[p];
        let e = eosin.data[p];
        let b0 = compose_channel(k_q16, 0, n, e);
        let b1 = compose_channel(k_q16, 1, n, e);
        let b2 = compose_channel(k_q16, 2, n, e);
        out.push(b0);
        out.push(b1);
        out.push(b2);
        p = p + 1;
    }
    let result = RgbGrid { height: nucleus.height, width: nucleus.width, data: out };
    proof {
        assert(result.data@.len() == nucleus.height * nucleus.width * 3) by (nonlinear_arith)
            requires
                result.data@.len() == nucleus.data@.len() * 3,
                nucleus.data@.len() == nucleus.height * nucleus.width,
        ;
        assert forall|i: int, j: int, c: int|
            0 <= i < result.height && 0 <= j < result.width && 0 <= c < 3 implies result.at(i, j, c)
            == channel_of(
            k_q16 as int,
            c,
            nucleus.val(i, j) as int,
            eosin.val(i, j) as int,
        ) by {
            lemma_row_major_index_in_range(
                result.height as int,
                result.width as int,
                i,
                j,
            );
            let t = i * result.width + j;
            assert(result.data@[t * 3 + c] == channel_of(
                k_q16 as int,
                c,
                nucleus.data@[t] as int,
                eosin.data@[t] as int,
            ));
        }
    }
    Ok(result)
}

/// The combined absorbance is non-negative whenever the strength factor and
/// both intensities are.
pub proof fn lemma_absorbance_nonneg(k: int, c: int, n: int, e: int)
    requires
        k >= 0,
        n >= 0,
        e >= 0,
    ensures
        absorbance_q16(k, c, n, e) >= 0,
{
    let bn = beta_nucleus_milli(c);
    let be = beta_eosin_milli(c);
    assert(k * (bn * n + be * e) >= 0) by (nonlinear_arith)
        requires
            k >= 0,
            bn >= 0,
            be >= 0,
            n >= 0,
            e >= 0,
    ;
    lemma_div_pos_is_pos(k * (bn * n + be * e), ABS_DIV as int);
}

/// Composition range: for every pair of non-negative intensities and every
/// positive strength factor, each output channel value lies in `[0, 255]`.
pub proof fn lemma_channel_range(k: int, c: int, n: int, e: int)
    requires
        k >= 1,
        n >= 0,
        e >= 0,
    ensures
        0 <= channel_of(k, c, n, e) <= 255,
{
    lemma_absorbance_nonneg(k, c, n, e);
    lemma_exp_neg_bounds(absorbance_q16(k, c, n, e));
    lemma_quantize_saturates(exp_neg_q16_spec(absorbance_q16(k, c, n, e)));
}

/// A pixel with zero intensity in both stains composes to 255 on every
/// channel, for every strength factor: its transmittance is `exp(0) = 1`,
/// and `1.0` scaled by 255 is exactly 255.
pub proof fn lemma_zero_pixel_white(k: int, c: int)
    requires
        k >= 1,
    ensures
        channel_of(k, c, 0, 0) == 255,
{
    let bn = beta_nucleus_milli(c);
    let be = beta_eosin_milli(c);
    assert(k * (bn * 0 + be * 0) == 0) by (nonlinear_arith);
    assert(absorbance_q16(k, c, 0, 0) == 0int / (ABS_DIV as int));
    assert(0int / (ABS_DIV as int) == 0) by (nonlinear_arith);
    lemma_exp_neg_bounds(0);
    lemma_quantize_saturates(ONE_Q32 as int);
}

} // verus!
