use linreg::errors::ValidationError;
use linreg::metrics::mean_squared_error;
use linreg::metrics::r_squared;
use linreg::prediction::predict;
use linreg::ratio::Ratio;
use linreg::regression::estimate;

fn ratio(num: i128, den: i128) -> Ratio {
    Ratio { num, den }
}

#[test]
fn full_pipeline_on_proportional_data() {
    // Fitting y = 2x gives slope 2, intercept 0, R-squared 1, MSE 0, and
    // predictions on [11, 21, 13, 9] of [22, 42, 26, 18].
    let x = vec![1i64, 2, 3, 4];
    let y = vec![2i64, 4, 6, 8];
    let (slope, intercept) = estimate(&x, &y).unwrap();
    assert_ne!(slope.den, 0);
    assert_eq!(slope.num, 2 * slope.den);
    assert_ne!(intercept.den, 0);
    assert_eq!(intercept.num, 0);

    let r2 = r_squared(&x, &y, slope, intercept).unwrap();
    assert_ne!(r2.den, 0);
    assert_eq!(r2.num, r2.den);

    let mse = mean_squared_error(&x, &y, slope, intercept).unwrap();
    assert_ne!(mse.den, 0);
    assert_eq!(mse.num, 0);

    let novos = vec![11i64, 21, 13, 9];
    let out = predict(&novos, slope, intercept).unwrap();
    let expected: Vec<i128> = vec![22, 42, 26, 18];
    assert_eq!(out.len(), expected.len());
    for (o, e) in out.iter().zip(expected.iter()) {
        assert_ne!(o.den, 0);
        assert_eq!(o.num, e * o.den);
    }
}

#[test]
fn mismatched_lengths_fail_every_training_operation() {
    let x = vec![1i64, 2];
    let y = vec![3i64];
    assert_eq!(estimate(&x, &y).unwrap_err(), ValidationError::LengthMismatch);
    assert_eq!(
        r_squared(&x, &y, ratio(2, 1), ratio(0, 1)).unwrap_err(),
        ValidationError::LengthMismatch
    );
    assert_eq!(
        mean_squared_error(&x, &y, ratio(2, 1), ratio(0, 1)).unwrap_err(),
        ValidationError::LengthMismatch
    );
}

#[test]
fn empty_sequences_fail_every_training_operation() {
    let x: Vec<i64> = Vec::new();
    let y: Vec<i64> = Vec::new();
    assert_eq!(estimate(&x, &y).unwrap_err(), ValidationError::EmptyInput);
    assert_eq!(
        r_squared(&x, &y, ratio(2, 1), ratio(0, 1)).unwrap_err(),
        ValidationError::EmptyInput
    );
    assert_eq!(
        mean_squared_error(&x, &y, ratio(2, 1), ratio(0, 1)).unwrap_err(),
        ValidationError::EmptyInput
    );
}

#[test]
fn empty_prediction_input_fails() {
    let x: Vec<i64> = Vec::new();
    assert_eq!(
        predict(&x, ratio(2, 1), ratio(0, 1)).unwrap_err(),
        ValidationError::EmptyInput
    );
}

#[test]
fn operations_are_deterministic() {
    // Pure functions: a second call with identical arguments returns an
    // identical result.
    let x = vec![1i64, 2, 5];
    let y = vec![2i64, 3, 9];
    assert_eq!(estimate(&x, &y), estimate(&x, &y));
    assert_eq!(
        r_squared(&x, &y, ratio(3, 2), ratio(1, 3)),
        r_squared(&x, &y, ratio(3, 2), ratio(1, 3))
    );
    assert_eq!(
        mean_squared_error(&x, &y, ratio(3, 2), ratio(1, 3)),
        mean_squared_error(&x, &y, ratio(3, 2), ratio(1, 3))
    );
    assert_eq!(
        predict(&x, ratio(3, 2), ratio(1, 3)),
        predict(&x, ratio(3, 2), ratio(1, 3))
    );
}

#[test]
fn zero_variance_yields_zero_denominator_coefficients() {
    // All x equal: the slope's denominator (the scaled variance) is zero,
    // the exact counterpart of the IEEE infinities and NaNs.
    let x = vec![5i64, 5];
    let y = vec![1i64, 2];
    let (slope, intercept) = estimate(&x, &y).unwrap();
    assert_eq!(slope.den, 0);
    assert_eq!(intercept.den, 0);
}

#[test]
fn constant_y_yields_zero_denominator_r_squared() {
    // Constant y makes the total sum of squares zero, so R-squared comes
    // back with a zero denominator rather than as an error.
    let x = vec![1i64, 2];
    let y = vec![5i64, 5];
    let r2 = r_squared(&x, &y, ratio(0, 1), ratio(5, 1)).unwrap();
    assert_eq!(r2.den, 0);
}

#[test]
fn imperfect_fit_has_positive_mse() {
    // y = [0, 0, 6] against the line y = x: residuals -1, -2, 3, so the
    // MSE is (1 + 4 + 9) / 3 = 14/3.
    let x = vec![1i64, 2, 3];
    let y = vec![0i64, 0, 6];
    let mse = mean_squared_error(&x, &y, ratio(1, 1), ratio(0, 1)).unwrap();
    assert_ne!(mse.den, 0);
    assert_eq!(3 * mse.num, 14 * mse.den);
    assert!(mse.num * mse.den > 0);
}

#[test]
fn estimate_on_affine_data_recovers_both_coefficients() {
    // y = 3x + 7 exactly: both coefficients are recovered exactly.
    let x = vec![0i64, 1, 2, 3];
    let y = vec![7i64, 10, 13, 16];
    let (slope, intercept) = estimate(&x, &y).unwrap();
    assert_ne!(slope.den, 0);
    assert_eq!(slope.num, 3 * slope.den);
    assert_ne!(intercept.den, 0);
    assert_eq!(intercept.num, 7 * intercept.den);
}

#[test]
fn largest_accepted_magnitudes_are_handled() {
    // Samples at the documented magnitude limit still fit exactly.
    let x = vec![-4096i64, 4096];
    let y = vec![-4096i64, 4096];
    let (slope, intercept) = estimate(&x, &y).unwrap();
    assert_ne!(slope.den, 0);
    assert_eq!(slope.num, slope.den);
    assert_eq!(intercept.num, 0);
}
