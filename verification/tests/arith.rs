use tipjar::lending::arith::scaled_quotient;
use tipjar::Failure;

#[test]
fn scaled_quotient_rounds_toward_zero() {
    assert_eq!(scaled_quotient(7, 3, 2), Ok(10));
    assert_eq!(scaled_quotient(-7, 3, 2), Ok(-10));
    assert_eq!(scaled_quotient(7, -3, 4), Ok(-5));
    assert_eq!(scaled_quotient(0, 1_000_000_000_000, 9), Ok(0));
}

#[test]
fn scaled_quotient_keeps_results_whose_plain_product_overflows() {
    let big: i128 = 1_000_000_000_000_000_000_000_000_000_000;
    // (3 big + 5) * 10^12 is far beyond i128, the quotient is not
    assert_eq!(scaled_quotient(3 * big + 5, 1_000_000_000_000, big), Ok(3_000_000_000_000));
    assert_eq!(scaled_quotient(-3 * big - 5, 1_000_000_000_000, big), Ok(-3_000_000_000_000));
    assert_eq!(scaled_quotient(big, 500_000_000_000, 1_000_000_000_000), Ok(big / 2));
}

#[test]
fn scaled_quotient_reports_results_that_do_not_fit() {
    assert!(matches!(scaled_quotient(i128::MAX, 2, 1), Err(Failure::Overflow)));
    // a remainder whose product with the scale does not fit
    let big: i128 = 1_000_000_000_000_000_000_000_000_000_000;
    assert!(matches!(
        scaled_quotient(big, 1_000_000_000_000, big + 7),
        Err(Failure::Overflow)
    ));
}
