//! Percentile-based intensity normalization (histogram scaling): rescales a
//! grid so that the value at a configurable upper percentile of the
//! ascending value sequence saturates to `1.0`, clipping above.

use vstd::prelude::*;
use vstd::arithmetic::div_mod::{lemma_div_is_ordered, lemma_div_pos_is_pos};
use crate::grid::{HeError, IntensityGrid, ONE_Q16};
use crate::sort::{sort_u32, sorted_of};

verus! {

/// Percentile fractions are given in parts per million: a percentile `p` (in
/// percent) is passed as `p / 100 * 1_000_000`, so `100%` is `1_000_000` and
/// the default `99.999%` is `999_990`.
pub const PPM: u64 = 1000000;

/// The position of the saturation threshold in the ascending value sequence
/// of a grid with `n` values: `floor((p / 100) * n)`, clamped to `n - 1`.
pub open spec fn threshold_index(p_ppm: int, n: int) -> int {
    let idx = p_ppm * n / (PPM as int);
    if idx >= n {
        n - 1
    } else {
        idx
    }
}

/// The saturation threshold of a grid's values at a given percentile: the
/// value at [`threshold_index`] of their ascending rearrangement.
pub open spec fn threshold_of(s: Seq<u32>, p_ppm: int) -> u32 {
    sorted_of(s)[threshold_index(p_ppm, s.len() as int)]
}

/// One normalized value: `min(v / m, 1.0)` carried out in Q16, i.e.
/// `v * 65536 / m` truncated, clamped to at most `65536`.
pub open spec fn scale_value(v: int, m: int) -> int {
    let s = v * (ONE_Q16 as int) / m;
    if s >= ONE_Q16 {
        ONE_Q16 as int
    } else {
        s
    }
}

/// Normalizes an intensity grid: every value is divided by the saturation
/// threshold (the value at the `percentile_ppm` position of the grid's
/// ascending values) and clipped to `1.0`.
///
/// Fails with [`HeError::DegenerateImage`] exactly when the grid is empty or
/// its saturation threshold is zero (an all-zero image), since no finite
/// scaling exists then; this pipeline rejects such inputs rather than
/// propagate unbounded values.
pub fn normalize(grid: IntensityGrid, percentile_ppm: u64) -> (r: Result<
    IntensityGrid,
    HeError,
>)
    requires
        grid.wf(),
        1 <= percentile_ppm <= PPM,
    ensures
        match r {
            Ok(out) => {
                &&& out.wf()
                &&& out.height == grid.height
                &&& out.width == grid.width
                &&& out.data@.len() == grid.data@.len()
                &&& grid.data@.len() > 0
                &&& threshold_of(grid.data@, percentile_ppm as int) > 0
                &&& forall|t: int|
                    0 <= t < grid.data@.len() ==> out.data@[t] == scale_value(
                        grid.data@[t] as int,
                        threshold_of(grid.data@, percentile_ppm as int) as int,
                    )
                &&& forall|t: int| 0 <= t < out.data@.len() ==> out.data@[t] <= ONE_Q16
            },
            Err(e) => {
                &&& e == HeError::DegenerateImage
                &&& (grid.data@.len() == 0 || threshold_of(grid.data@, percentile_ppm as int)
                    == 0)
            },
        },
{
    let n = grid.data.len();
    if n == 0 {
        return Err(HeError::DegenerateImage);
    }
    let mut values: Vec<u32> = Vec::new();
    let mut t: usize = 0;
    while t < n
        invariant
            t <= n,
            n == grid.data@.len(),
            values@.len() == t,
            forall|a: int| 0 <= a < t ==> values@[a] == grid.data@[a],
        decreases n - t,
    {
        values.push(grid.data[t]);
        t = t + 1;
    }
    proof {
        assert(values@ =~= grid.data@);
    }
    sort_u32(&mut values);
    proof {
        assert((percentile_ppm as int) * (n as int) <= 1000000 * (usize::MAX as int))
            by (nonlinear_arith)
            requires
                percentile_ppm <= 1000000,
                n <= usize::MAX,
        ;
    }
    let idx128: u128 = (percentile_ppm as u128) * (n as u128) / (PPM as u128);
    let idx: usize = if idx128 >= n as u128 {
        n - 1
    } else {
        idx128 as usize
    };
    proof {
        assert(idx == threshold_index(percentile_ppm as int, n as int));
    }
    let m: u32 = values[idx];
    proof {
        assert(m == threshold_of(grid.data@, percentile_ppm as int));
    }
    if m == 0 {
        return Err(HeError::DegenerateImage);
    }
    let mut out: Vec<u32> = Vec::new();
    let mut t: usize = 0;
    while t < n
        invariant
            t <= n,
            n == grid.data@.len(),
            m == threshold_of(grid.data@, percentile_ppm as int),
            m >= 1,
            out@.len() == t,
            forall|a: int|
                0 <= a < t ==> out@[a] == scale_value(grid.data@[a] as int, m as int),
            forall|a: int| 0 <= a < t ==> out@[a] <= ONE_Q16,
        decreases n - t,
    {
        let v = grid.data[t];
        let scaled: u64 = (v as u64) * (ONE_Q16 as u64) / (m as u64);
        let nv: u32 = if scaled >= ONE_Q16 as u64 {
            ONE_Q16
        } else {
            scaled as u32
        };
        proof {
            assert(nv == scale_value(v as int, m as int));
        }
        out.push(nv);
        t = t + 1;
    }
    Ok(IntensityGrid { height: grid.height, width: grid.width, data: out })
}

/// Monotonicity of normalization: any two input values `a <= b` scaled by
/// the same positive threshold keep their order, `a' <= b'`; by the contract
/// of [`normalize`], any two cells of one grid therefore keep their order in
/// its output.
pub proof fn lemma_scale_monotone(a: int, b: int, m: int)
    requires
        0 <= a <= b,
        m >= 1,
    ensures
        scale_value(a, m) <= scale_value(b, m),
{
    let one = ONE_Q16 as int;
    assert(a * one <= b * one) by (nonlinear_arith)
        requires
            0 <= a <= b,
            one >= 0,
    ;
    lemma_div_is_ordered(a * one, b * one, m);
}

/// Monotonicity at grid level: for any two cells of a grid that
/// [`normalize`] accepted, with input values `a <= b`, the normalized
/// outputs keep `a' <= b'`.
pub proof fn lemma_normalize_monotone(g: IntensityGrid, out: IntensityGrid, p_ppm: int, s: int, t: int)
    requires
        0 <= s < g.data@.len(),
        0 <= t < g.data@.len(),
        g.data@[s] <= g.data@[t],
        threshold_of(g.data@, p_ppm) > 0,
        out.data@.len() == g.data@.len(),
        forall|a: int|
            0 <= a < g.data@.len() ==> out.data@[a] == scale_value(
                g.data@[a] as int,
                threshold_of(g.data@, p_ppm) as int,
            ),
    ensures
        out.data@[s] <= out.data@[t],
{
    lemma_scale_monotone(
        g.data@[s] as int,
        g.data@[t] as int,
        threshold_of(g.data@, p_ppm) as int,
    );
}

/// Boundedness of normalization: a scaled value always lands in
/// `[0, 65536]`, i.e. in `[0, 1]` as an intensity.
pub proof fn lemma_scale_bounded(v: int, m: int)
    requires
        v >= 0,
        m >= 1,
    ensures
        0 <= scale_value(v, m) <= ONE_Q16,
{
    let one = ONE_Q16 as int;
    assert(v * one >= 0) by (nonlinear_arith)
        requires
            v >= 0,
            one >= 0,
    ;
    lemma_div_pos_is_pos(v * one, m);
}

} // verus!
