use ft_lockup::math::{mul_div_ceil_u128, mul_div_floor_u128};

#[test]
fn test_mul_div_small() {
    assert_eq!(mul_div_floor_u128(0, 10, 3), 0);
    assert_eq!(mul_div_floor_u128(1, 10, 3), 3);
    assert_eq!(mul_div_floor_u128(2, 10, 3), 6);
    assert_eq!(mul_div_floor_u128(3, 10, 3), 10);
    assert_eq!(mul_div_ceil_u128(0, 10, 3), 0);
    assert_eq!(mul_div_ceil_u128(1, 10, 3), 4);
    assert_eq!(mul_div_ceil_u128(2, 10, 3), 7);
    assert_eq!(mul_div_ceil_u128(3, 10, 3), 10);
    assert_eq!(mul_div_floor_u128(7, 0, 9), 0);
    assert_eq!(mul_div_ceil_u128(7, 0, 9), 0);
    assert_eq!(mul_div_floor_u128(1, 1, 1), 1);
}

#[test]
fn test_mul_div_wide() {
    let max = u128::MAX;
    assert_eq!(mul_div_floor_u128(max, max, max), max);
    assert_eq!(mul_div_ceil_u128(max, max, max), max);
    assert_eq!(mul_div_floor_u128(max - 1, max, max), max - 1);
    assert_eq!(mul_div_floor_u128(max / 2, max, max), max / 2);
    // (2^127 - 1) * (2^128 - 1) / 2^127 = 2^128 - 3 + 2^-127
    assert_eq!(mul_div_floor_u128((1 << 127) - 1, max, 1 << 127), max - 2);
    assert_eq!(mul_div_ceil_u128((1 << 127) - 1, max, 1 << 127), max - 1);
    // 10^20 * 10^30 / (3 * 10^20)
    let e20 = 100_000_000_000_000_000_000u128;
    let e30 = e20 * 10_000_000_000;
    assert_eq!(mul_div_floor_u128(e20, e30, 3 * e20), e30 / 3);
    assert_eq!(mul_div_ceil_u128(e20, e30, 3 * e20), e30 / 3 + 1);
}
