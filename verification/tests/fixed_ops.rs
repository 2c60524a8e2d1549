use rusty_rays::fixed::{
    fx_add, fx_clamp, fx_div, fx_idiv, fx_mul, fx_neg, fx_sqrt, fx_sub, FX_MAX, FX_ONE,
};

#[test]
fn add_and_sub_exact() {
    assert_eq!(fx_add(FX_ONE, FX_ONE), 2 * FX_ONE);
    assert_eq!(fx_sub(3 * FX_ONE, FX_ONE), 2 * FX_ONE);
    assert_eq!(fx_add(-FX_ONE, FX_ONE), 0);
}

#[test]
fn add_saturates() {
    assert_eq!(fx_add(FX_MAX, FX_MAX), FX_MAX);
    assert_eq!(fx_sub(-FX_MAX, FX_MAX), -FX_MAX);
}

#[test]
fn neg_handles_extremes() {
    assert_eq!(fx_neg(FX_ONE), -FX_ONE);
    assert_eq!(fx_neg(i64::MIN), FX_MAX);
    assert_eq!(fx_neg(0), 0);
}

#[test]
fn mul_exact_and_truncating() {
    assert_eq!(fx_mul(3 * FX_ONE, 2 * FX_ONE), 6 * FX_ONE);
    assert_eq!(fx_mul(-3 * FX_ONE, 2 * FX_ONE), -6 * FX_ONE);
    // Truncation is toward zero on both sides.
    assert_eq!(fx_mul(1, 1), 0);
    assert_eq!(fx_mul(-1, 1), 0);
    // Half times half is a quarter.
    assert_eq!(fx_mul(FX_ONE / 2, FX_ONE / 2), FX_ONE / 4);
}

#[test]
fn mul_saturates() {
    assert_eq!(fx_mul(FX_MAX, FX_MAX), FX_MAX);
    assert_eq!(fx_mul(FX_MAX, -FX_MAX), -FX_MAX);
}

#[test]
fn div_exact() {
    assert_eq!(fx_div(FX_ONE, 2 * FX_ONE), FX_ONE / 2);
    assert_eq!(fx_div(6 * FX_ONE, 2 * FX_ONE), 3 * FX_ONE);
    assert_eq!(fx_div(-6 * FX_ONE, 2 * FX_ONE), -3 * FX_ONE);
}

#[test]
fn idiv_truncates_toward_zero() {
    assert_eq!(fx_idiv(7, 2), 3);
    assert_eq!(fx_idiv(-7, 2), -3);
    assert_eq!(fx_idiv(0, 5), 0);
}

#[test]
fn sqrt_exact_squares() {
    assert_eq!(fx_sqrt(0), 0);
    assert_eq!(fx_sqrt(FX_ONE), FX_ONE);
    assert_eq!(fx_sqrt(4 * FX_ONE), 2 * FX_ONE);
    assert_eq!(fx_sqrt(25 * FX_ONE), 5 * FX_ONE);
}

#[test]
fn sqrt_rounds_down() {
    // sqrt(2) in 16.16 fixed point, rounded down.
    assert_eq!(fx_sqrt(2 * FX_ONE), 92681);
}

#[test]
fn clamp_range() {
    assert_eq!(fx_clamp(5, 0, 10), 5);
    assert_eq!(fx_clamp(-5, 0, 10), 0);
    assert_eq!(fx_clamp(15, 0, 10), 10);
}
