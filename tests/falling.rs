use savgol::generalized_factorial;

#[test]
fn lib_generalized_factorial_4_2() {
    // 4 * 3
    assert_eq!(generalized_factorial(4, 2), Some(12));
}

#[test]
fn lib_generalized_factorial_5_5() {
    // 5 * 4 * 3 * 2 * 1
    assert_eq!(generalized_factorial(5, 5), Some(120));
}

#[test]
fn lib_generalized_factorial_5_0() {
    assert_eq!(generalized_factorial(5, 0), Some(1));
}

#[test]
fn lib_generalized_factorial_5_1() {
    assert_eq!(generalized_factorial(5, 1), Some(5));
}

#[test]
fn generalized_factorial_past_zero_factor() {
    // 3 * 2 * 1 * 0
    assert_eq!(generalized_factorial(3, 4), Some(0));
    assert_eq!(generalized_factorial(0, 1), Some(0));
}

#[test]
fn generalized_factorial_largest_and_overflow() {
    // 34! is the largest factorial that fits in a u128
    assert_eq!(
        generalized_factorial(34, 34),
        Some(295232799039604140847618609643520000000)
    );
    assert_eq!(generalized_factorial(35, 35), None);
    assert_eq!(generalized_factorial(u64::MAX, 3), None);
    assert_eq!(generalized_factorial(u64::MAX, 2), Some(u64::MAX as u128 * (u64::MAX as u128 - 1)));
}

#[test]
fn generalized_factorial_window_ratio_terms() {
    // the terms of the ratio GF(2m, k) / GF(2m + k + 1, k + 1) for m = 2, k = 2
    assert_eq!(generalized_factorial(4, 2), Some(12));
    assert_eq!(generalized_factorial(7, 3), Some(210));
}
