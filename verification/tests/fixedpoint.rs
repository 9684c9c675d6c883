use virtual_he::fixed::{exp_neg_q16, quantize, ONE_Q32, X_CAP_Q16};

#[test]
fn exp_of_zero_is_one() {
    assert_eq!(exp_neg_q16(0), ONE_Q32);
}

#[test]
fn exp_saturates_at_cap() {
    assert_eq!(exp_neg_q16(X_CAP_Q16), 0);
    assert_eq!(exp_neg_q16(u64::MAX), 0);
}

#[test]
fn exp_is_close_to_the_real_exponential() {
    // exp(-1) = 0.3678794..., i.e. about 1.58003e9 in Q32; the window below
    // is [0.36765, 0.36811], far wider than the method's truncation error.
    let one = exp_neg_q16(65536);
    assert!((1_579_000_000..=1_581_000_000).contains(&one));
    // exp(-2.5) = 0.0820850..., i.e. about 3.52552e8 in Q32.
    let k_default = exp_neg_q16(163840);
    assert!((352_300_000..=352_800_000).contains(&k_default));
}

#[test]
fn exp_decreases_with_the_argument() {
    let mut last = exp_neg_q16(0);
    for x in [1u64, 10, 100, 65536, 163840, 1 << 20, X_CAP_Q16] {
        let v = exp_neg_q16(x);
        assert!(v <= last);
        last = v;
    }
}

#[test]
fn quantize_known_values() {
    assert_eq!(quantize(0), 0);
    assert_eq!(quantize(ONE_Q32 / 2), 127); // 0.5 * 255 = 127.5, truncated
    assert_eq!(quantize(ONE_Q32), 255);
}

#[test]
fn quantize_clamps_values_above_one() {
    // A pre-clamp value above 1.0 lands on exactly 255: no wrap-around.
    assert_eq!(quantize(2 * ONE_Q32), 255);
    assert_eq!(quantize(u64::MAX), 255);
}
