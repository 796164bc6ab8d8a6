use dionysus::fixed::{fx_add, fx_div, fx_mul, fx_sub, SCALE};
use dionysus::utils::compute_change_pct;

#[test]
fn one_is_the_unit_of_products_and_ratios() {
    assert_eq!(SCALE, 100_000_000);
    assert_eq!(fx_mul(SCALE, 12_345), 12_345);
    assert_eq!(fx_mul(-7 * SCALE, SCALE), -7 * SCALE);
    assert_eq!(fx_div(12_345, SCALE), 12_345);
    assert_eq!(fx_div(3 * SCALE, 3 * SCALE), SCALE);
}

#[test]
fn products_round_toward_zero() {
    // 0.6 of 1000
    assert_eq!(fx_mul(60_000_000, 1000 * SCALE), 600 * SCALE);
    // 0.00000003 * 0.5 = 0.000000015, which is cut to 0.00000001
    assert_eq!(fx_mul(3, SCALE / 2), 1);
    assert_eq!(fx_mul(-3, SCALE / 2), -1);
    assert_eq!(fx_mul(3, -SCALE / 2), -1);
    assert_eq!(fx_mul(-3, -SCALE / 2), 1);
    assert_eq!(fx_mul(1, 1), 0);
}

#[test]
fn ratios_round_toward_zero() {
    // 600 / 7 = 85.71428571428...
    assert_eq!(fx_div(600 * SCALE, 7 * SCALE), 8_571_428_571);
    assert_eq!(fx_div(-600 * SCALE, 7 * SCALE), -8_571_428_571);
    assert_eq!(fx_div(600 * SCALE, -7 * SCALE), -8_571_428_571);
    assert_eq!(fx_div(-600 * SCALE, -7 * SCALE), 8_571_428_571);
    assert_eq!(fx_div(1, 3 * SCALE), 0);
}

#[test]
fn a_zero_divisor_gives_the_bound_on_the_dividends_side() {
    assert_eq!(fx_div(5, 0), i64::MAX);
    assert_eq!(fx_div(-5, 0), i64::MIN);
    assert_eq!(fx_div(0, 0), 0);
}

#[test]
fn results_stop_at_the_bounds() {
    assert_eq!(fx_add(i64::MAX, 1), i64::MAX);
    assert_eq!(fx_add(i64::MIN, -1), i64::MIN);
    assert_eq!(fx_sub(i64::MIN, 1), i64::MIN);
    assert_eq!(fx_sub(i64::MAX, -1), i64::MAX);
    assert_eq!(fx_sub(0, i64::MIN), i64::MAX);
    assert_eq!(fx_mul(i64::MAX, i64::MAX), i64::MAX);
    assert_eq!(fx_mul(i64::MIN, i64::MAX), i64::MIN);
    assert_eq!(fx_mul(i64::MIN, i64::MIN), i64::MAX);
    assert_eq!(fx_div(i64::MAX, 1), i64::MAX);
    assert_eq!(fx_div(i64::MIN, 1), i64::MIN);
    assert_eq!(fx_div(i64::MIN, -1), i64::MAX);
    assert_eq!(fx_add(2, 3), 5);
    assert_eq!(fx_sub(2, 3), -1);
}

#[test]
fn change_in_percent() {
    // from 1000 to 1100 is +10 %
    assert_eq!(compute_change_pct(1000 * SCALE, 1100 * SCALE), 10 * SCALE);
    // from 1000 to 750 is -25 %
    assert_eq!(compute_change_pct(1000 * SCALE, 750 * SCALE), -25 * SCALE);
    assert_eq!(compute_change_pct(1000 * SCALE, 1000 * SCALE), 0);
    // from 3 to 1: 1/3 is cut to 0.33333333, so the change is -66.666667 %
    assert_eq!(compute_change_pct(3 * SCALE, SCALE), -6_666_666_700);
    assert_eq!(compute_change_pct(0, SCALE), i64::MAX);
}
