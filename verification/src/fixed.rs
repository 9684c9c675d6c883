//! Fixed-point arithmetic of the Beer-Lambert model: a Q32 decaying
//! exponential and the quantization of a Q32 transmittance to an 8-bit
//! channel value.
//!
//! `exp_neg_q16` evaluates `exp(-x)` for a Q16 argument by range reduction
//! (the argument is split by 512, so the reduced argument is at most 1/16),
//! a four-term alternating Taylor sum in Q32, and nine Q32 squarings. Its
//! exact value is pinned by the spec functions below; the proved bounds are
//! that the result never exceeds `ONE_Q32` and equals `ONE_Q32` exactly at
//! argument zero.

use vstd::prelude::*;
use vstd::arithmetic::div_mod::{lemma_div_is_ordered, lemma_div_pos_is_pos};
use vstd::arithmetic::mul::lemma_mul_inequality;

verus! {

/// Fixed-point scale of transmittances: the stored integer `q` stands for
/// the real transmittance `q / 2^32`, so `2^32` is the transmittance `1.0`.
pub const ONE_Q32: u64 = 0x1_0000_0000;

/// Arguments at or above this Q16 value (`32.0`) saturate the exponential
/// to zero: the true transmittance there is far below one Q32 unit.
pub const X_CAP_Q16: u64 = 0x20_0000;

/// The quadratic Taylor term `f^2 / 2`, truncated to Q32.
pub open spec fn taylor_t2(f: int) -> int {
    f * f / (ONE_Q32 as int) / 2
}

/// The cubic Taylor term `f^3 / 6`, truncated to Q32.
pub open spec fn taylor_t3(f: int) -> int {
    taylor_t2(f) * f / (ONE_Q32 as int) / 3
}

/// The quartic Taylor term `f^4 / 24`, truncated to Q32.
pub open spec fn taylor_t4(f: int) -> int {
    taylor_t3(f) * f / (ONE_Q32 as int) / 4
}

/// The four-term alternating Taylor sum for `exp(-f)` at a Q32 argument
/// `f`: `1 - f + f^2/2 - f^3/6 + f^4/24`, each term truncated to Q32.
pub open spec fn taylor_q32(f: int) -> int {
    ONE_Q32 - f + taylor_t2(f) - taylor_t3(f) + taylor_t4(f)
}

/// The square of a Q32 value, truncated to Q32.
pub open spec fn square_q32(q: int) -> int {
    q * q / (ONE_Q32 as int)
}

/// `n`-fold iterated Q32 squaring, i.e. the Q32 value of `q^(2^n)`.
pub open spec fn pow_sq(q: int, n: nat) -> int
    decreases n,
{
    if n == 0 {
        q
    } else {
        square_q32(pow_sq(q, (n - 1) as nat))
    }
}

/// The exact value computed by [`exp_neg_q16`]: zero at and above the cap;
/// below it, the Taylor sum at the argument reduced by 512 (in Q32:
/// `x * 65536 / 512 == x * 128`), squared nine times.
pub open spec fn exp_neg_q16_spec(x: int) -> int {
    if x >= X_CAP_Q16 {
        0
    } else {
        pow_sq(taylor_q32(x * 128), 9)
    }
}

/// Each truncated Taylor term of a reduced argument is bounded by the one
/// before it, so the alternating sum stays in `(0, ONE_Q32]`; at argument
/// zero the sum is exactly `ONE_Q32`.
pub proof fn lemma_taylor_bounds(f: int)
    requires
        0 <= f <= 0x1000_0000,
    ensures
        0 <= taylor_t2(f) <= f,
        0 <= taylor_t3(f) <= taylor_t2(f),
        0 <= taylor_t4(f) <= taylor_t3(f),
        0 < taylor_q32(f) <= ONE_Q32,
        f == 0 ==> taylor_q32(f) == ONE_Q32,
{
    let one = ONE_Q32 as int;
    let t2 = taylor_t2(f);
    let t3 = taylor_t3(f);
    let t4 = taylor_t4(f);
    lemma_mul_inequality(f, one, f);
    assert(one * f == f * one) by (nonlinear_arith);
    assert(f * one / one == f) by (nonlinear_arith)
        requires
            one > 0,
    ;
    lemma_div_is_ordered(f * f, f * one, one);
    assert(f * f >= 0) by (nonlinear_arith)
        requires
            f >= 0,
    ;
    lemma_div_pos_is_pos(f * f, one);
    assert(0 <= t2 <= f);
    assert(t2 * f <= t2 * one) by (nonlinear_arith)
        requires
            t2 >= 0,
            0 <= f <= one,
    ;
    assert(t2 * f >= 0) by (nonlinear_arith)
        requires
            t2 >= 0,
            f >= 0,
    ;
    assert(t2 * one / one == t2) by (nonlinear_arith)
        requires
            one > 0,
    ;
    lemma_div_is_ordered(t2 * f, t2 * one, one);
    lemma_div_pos_is_pos(t2 * f, one);
    assert(0 <= t3 <= t2);
    assert(t3 * f <= t3 * one) by (nonlinear_arith)
        requires
            t3 >= 0,
            0 <= f <= one,
    ;
    assert(t3 * f >= 0) by (nonlinear_arith)
        requires
            t3 >= 0,
            f >= 0,
    ;
    assert(t3 * one / one == t3) by (nonlinear_arith)
        requires
            one > 0,
    ;
    lemma_div_is_ordered(t3 * f, t3 * one, one);
    lemma_div_pos_is_pos(t3 * f, one);
    assert(0 <= t4 <= t3);
    assert(taylor_q32(f) == one - f + t2 - t3 + t4);
    assert(taylor_q32(f) <= one);
    assert(taylor_q32(f) >= one - f - t3 > 0);
    if f == 0 {
        assert(t2 == 0 && t3 == 0 && t4 == 0);
    }
}

/// Q32 squaring keeps a transmittance in `[0, ONE_Q32]`, and keeps the
/// exact value `ONE_Q32` fixed.
pub proof fn lemma_square_bounds(q: int)
    requires
        0 <= q <= ONE_Q32,
    ensures
        0 <= square_q32(q) <= ONE_Q32,
        q == ONE_Q32 ==> square_q32(q) == ONE_Q32,
{
    let one = ONE_Q32 as int;
    assert(q * q >= 0) by (nonlinear_arith)
        requires
            q >= 0,
    ;
    lemma_div_pos_is_pos(q * q, one);
    assert(q * q <= one * one) by (nonlinear_arith)
        requires
            0 <= q <= one,
    ;
    lemma_div_is_ordered(q * q, one * one, one);
    assert(one * one / one == one) by (nonlinear_arith)
        requires
            one > 0,
    ;
}

/// Iterated Q32 squaring keeps a transmittance in `[0, ONE_Q32]`, and keeps
/// the exact value `ONE_Q32` fixed.
pub proof fn lemma_pow_sq_bounds(q: int, n: nat)
    requires
        0 <= q <= ONE_Q32,
    ensures
        0 <= pow_sq(q, n) <= ONE_Q32,
        q == ONE_Q32 ==> pow_sq(q, n) == ONE_Q32,
    decreases n,
{
    if n > 0 {
        lemma_pow_sq_bounds(q, (n - 1) as nat);
        lemma_square_bounds(pow_sq(q, (n - 1) as nat));
    }
}

/// The exponential's value lies in `[0, ONE_Q32]` for every non-negative
/// argument and is `ONE_Q32` exactly at zero.
pub proof fn lemma_exp_neg_bounds(x: int)
    requires
        x >= 0,
    ensures
        0 <= exp_neg_q16_spec(x) <= ONE_Q32,
        x == 0 ==> exp_neg_q16_spec(x) == ONE_Q32,
{
    if x < X_CAP_Q16 {
        assert(0 <= x * 128 <= 0x1000_0000) by (nonlinear_arith)
            requires
                0 <= x < 0x20_0000,
        ;
        lemma_taylor_bounds(x * 128);
        lemma_pow_sq_bounds(taylor_q32(x * 128), 9);
    }
}

/// `exp(-x)` for a Q16 argument `x`, as a Q32 transmittance.
pub fn exp_neg_q16(x: u64) -> (r: u64)
    ensures
        r == exp_neg_q16_spec(x as int),
        r <= ONE_Q32,
        x == 0 ==> r == ONE_Q32,
{
    if x >= X_CAP_Q16 {
        return 0;
    }
    let f: u64 = x * 128;
    proof {
        lemma_taylor_bounds(f as int);
        assert((f as int) * (f as int) <= 0x1000_0000 * 0x1000_0000) by (nonlinear_arith)
            requires
                0 <= f <= 0x1000_0000,
        ;
    }
    let t2: u64 = f * f / ONE_Q32 / 2;
    proof {
        assert(t2 == taylor_t2(f as int));
        assert((t2 as int) * (f as int) <= 0x1000_0000 * 0x1000_0000) by (nonlinear_arith)
            requires
                0 <= t2 <= 0x1000_0000,
                0 <= f <= 0x1000_0000,
        ;
    }
    let t3: u64 = t2 * f / ONE_Q32 / 3;
    proof {
        assert(t3 == taylor_t3(f as int));
        assert((t3 as int) * (f as int) <= 0x1000_0000 * 0x1000_0000) by (nonlinear_arith)
            requires
                0 <= t3 <= 0x1000_0000,
                0 <= f <= 0x1000_0000,
        ;
    }
    let t4: u64 = t3 * f / ONE_Q32 / 4;
    proof {
        assert(t4 == taylor_t4(f as int));
    }
    let s: u64 = ONE_Q32 - f + t2 - t3 + t4;
    proof {
        assert(s == taylor_q32(f as int));
    }
    let mut q: u64 = s;
    let mut i: u64 = 0;
    while i < 9
        invariant
            i <= 9,
            s <= ONE_Q32,
            q == pow_sq(s as int, i as nat),
            q <= ONE_Q32,
        decreases 9 - i,
    {
        proof {
            lemma_square_bounds(q as int);
        }
        let prod: u128 = (q as u128) * (q as u128);
        let next: u128 = prod / (ONE_Q32 as u128);
        proof {
            assert(next == square_q32(q as int));
            assert(pow_sq(s as int, (i + 1) as nat) == square_q32(pow_sq(s as int, i as nat)));
        }
        q = next as u64;
        i = i + 1;
    }
    proof {
        if x == 0 {
            lemma_pow_sq_bounds(s as int, 9);
        }
    }
    q
}

/// The final channel value for a Q32 transmittance `q`: `q` scaled by 255
/// and truncated, clamped to at most 255.
pub open spec fn quantize_spec(q: int) -> int {
    let scaled = q * 255 / (ONE_Q32 as int);
    if scaled >= 255 {
        255
    } else {
        scaled
    }
}

/// Scales a Q32 transmittance to an 8-bit channel value, truncating, with
/// the scaled value clamped to at most 255.
pub fn quantize(q: u64) -> (b: u8)
    ensures
        b == quantize_spec(q as int),
{
    let scaled: u128 = (q as u128) * 255 / (ONE_Q32 as u128);
    if scaled >= 255 {
        255
    } else {
        proof {
            assert((q as int) * 255 >= 0) by (nonlinear_arith)
                requires
                    q >= 0,
            ;
            lemma_div_pos_is_pos((q as int) * 255, ONE_Q32 as int);
        }
        scaled as u8
    }
}

/// Quantization always lands in `[0, 255]`, and every transmittance at or
/// above `ONE_Q32` (a pre-clamp value at or above `1.0`) quantizes to
/// exactly 255: the clamp saturates instead of wrapping.
pub proof fn lemma_quantize_saturates(q: int)
    requires
        q >= 0,
    ensures
        0 <= quantize_spec(q) <= 255,
        q >= ONE_Q32 ==> quantize_spec(q) == 255,
{
    let one = ONE_Q32 as int;
    assert(q * 255 >= 0) by (nonlinear_arith)
        requires
            q >= 0,
    ;
    lemma_div_pos_is_pos(q * 255, one);
    if q >= one {
        assert(one * 255 <= q * 255) by (nonlinear_arith)
            requires
                one <= q,
        ;
        assert(one * 255 / one == 255) by (nonlinear_arith)
            requires
                one > 0,
    ;
        lemma_div_is_ordered(one * 255, q * 255, one);
    }
}

} // verus!
