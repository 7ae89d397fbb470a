//! The validation verdicts that guard every operation of the toolkit.
//!
//! Coefficient estimation and both quality metrics work on paired training
//! sequences and share one precondition; prediction works on a single input
//! sequence with its own. Each verdict here is a total function of the
//! sequence lengths alone, stated once as a spec function and implemented
//! by an executable twin whose contract pins the result exactly — so two
//! calls with the same lengths always agree.

use vstd::prelude::*;

use crate::errors::ValidationError;

verus! {

/// The verdict on a pair of training sequences of lengths `x_len` and
/// `y_len`: a length mismatch is reported first, then emptiness; equal,
/// non-zero lengths are accepted.
pub open spec fn training_check(x_len: nat, y_len: nat) -> Result<(), ValidationError> {
    if x_len != y_len {
        Err(ValidationError::LengthMismatch)
    } else if x_len == 0 {
        Err(ValidationError::EmptyInput)
    } else {
        Ok(())
    }
}

/// The verdict on a prediction input sequence of length `len`: only an
/// empty sequence is refused.
pub open spec fn prediction_check(len: nat) -> Result<(), ValidationError> {
    if len == 0 {
        Err(ValidationError::EmptyInput)
    } else {
        Ok(())
    }
}

/// Checks the shared precondition of coefficient estimation, R-squared and
/// mean squared error: the paired sample sequences must have equal length
/// and hold at least one sample each.
pub fn validate_training(x_len: usize, y_len: usize) -> (r: Result<(), ValidationError>)
    ensures
        r == training_check(x_len as nat, y_len as nat),
        r is Ok <==> (x_len == y_len && x_len >= 1),
        (r == Err::<(), ValidationError>(ValidationError::LengthMismatch)) <==> x_len != y_len,
        (r == Err::<(), ValidationError>(ValidationError::EmptyInput)) <==> (x_len == y_len
            && x_len == 0),
{
    if x_len != y_len {
        Err(ValidationError::LengthMismatch)
    } else if x_len == 0 {
        Err(ValidationError::EmptyInput)
    } else {
        Ok(())
    }
}

/// Checks the precondition of prediction: the input sequence must hold at
/// least one value. Its length is otherwise unconstrained — in particular
/// it need not match the training sequences.
pub fn validate_prediction(len: usize) -> (r: Result<(), ValidationError>)
    ensures
        r == prediction_check(len as nat),
        r is Ok <==> len >= 1,
        (r == Err::<(), ValidationError>(ValidationError::EmptyInput)) <==> len == 0,
{
    if len == 0 {
        Err(ValidationError::EmptyInput)
    } else {
        Ok(())
    }
}

} // verus!
