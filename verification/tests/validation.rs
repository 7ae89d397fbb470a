use linreg::errors::ValidationError;
use linreg::validation::validate_prediction;
use linreg::validation::validate_training;

#[test]
fn training_accepts_equal_nonempty_lengths() {
    // Lengths of x=[1,2,3,4], y=[2,4,6,8]: the fit may proceed.
    assert_eq!(validate_training(4, 4), Ok(()));
    assert_eq!(validate_training(1, 1), Ok(()));
}

#[test]
fn training_rejects_mismatched_lengths() {
    // Lengths of x=[1,2], y=[3]: rejected as a mismatch.
    assert_eq!(validate_training(2, 1), Err(ValidationError::LengthMismatch));
    assert_eq!(validate_training(1, 2), Err(ValidationError::LengthMismatch));
}

#[test]
fn training_rejects_empty_sequences() {
    // Lengths of x=[], y=[]: rejected as empty input.
    assert_eq!(validate_training(0, 0), Err(ValidationError::EmptyInput));
}

#[test]
fn training_reports_mismatch_before_emptiness() {
    // One empty and one non-empty sequence differ in length first of all.
    assert_eq!(validate_training(0, 3), Err(ValidationError::LengthMismatch));
    assert_eq!(validate_training(3, 0), Err(ValidationError::LengthMismatch));
}

#[test]
fn prediction_rejects_empty_input() {
    assert_eq!(validate_prediction(0), Err(ValidationError::EmptyInput));
}

#[test]
fn prediction_accepts_nonempty_input() {
    assert_eq!(validate_prediction(4), Ok(()));
    assert_eq!(validate_prediction(1), Ok(()));
}

#[test]
fn prediction_length_is_independent_of_training_length() {
    // A prediction input need not match the training sequences in length.
    assert_eq!(validate_training(4, 4), Ok(()));
    assert_eq!(validate_prediction(7), Ok(()));
}

#[test]
fn verdicts_are_deterministic() {
    // The same arguments always produce the same verdict.
    assert_eq!(validate_training(5, 5), validate_training(5, 5));
    assert_eq!(validate_training(2, 1), validate_training(2, 1));
    assert_eq!(validate_training(0, 0), validate_training(0, 0));
    assert_eq!(validate_prediction(0), validate_prediction(0));
    assert_eq!(validate_prediction(9), validate_prediction(9));
}

#[test]
fn messages_name_the_violated_precondition() {
    assert_eq!(ValidationError::LengthMismatch.message(), "mismatched lengths");
    assert_eq!(ValidationError::EmptyInput.message(), "empty input");
}
