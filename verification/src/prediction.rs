//! Prediction: applying fitted coefficients to new inputs.

use vstd::prelude::*;

use crate::errors::ValidationError;
use crate::exact::int_view;
use crate::exact::lemma_mul_bound;
use crate::exact::predicted_at;
use crate::ratio::bounded_rat;
use crate::ratio::bounded_seq;
use crate::ratio::Ratio;
use crate::ratio::MAX_MAGNITUDE;
use crate::validation::validate_prediction;

verus! {

/// Applies the fitted line to each input in order: the i-th output is
/// exactly `slope * inputs[i] + intercept`, as an unreduced rational.
///
/// The input sequence must be non-empty; otherwise the matching
/// [`ValidationError`] is returned. Its length is unrelated to that of
/// the training sequences.
pub fn predict(inputs: &Vec<i64>, slope: Ratio, intercept: Ratio) -> (r: Result<
    Vec<Ratio>,
    ValidationError,
>)
    requires
        bounded_seq(int_view(inputs@), MAX_MAGNITUDE as int),
        bounded_rat(slope@, MAX_MAGNITUDE as int),
        bounded_rat(intercept@, MAX_MAGNITUDE as int),
    ensures
        r is Ok <==> inputs@.len() >= 1,
        inputs@.len() == 0 ==> r == Err::<Vec<Ratio>, ValidationError>(
            ValidationError::EmptyInput,
        ),
        r matches Ok(out) ==> out@.len() == inputs@.len(),
        r matches Ok(out) ==> forall|i: int|
            0 <= i < out@.len() ==> #[trigger] out@[i]@ == predicted_at(
                int_view(inputs@)[i],
                slope@,
                intercept@,
            ),
{
    if let Err(e) = validate_prediction(inputs.len()) {
        return Err(e);
    }
    let n: usize = inputs.len();
    let mut out: Vec<Ratio> = Vec::new();
    let mut i: usize = 0;
    while i < n
        invariant
            n == inputs@.len(),
            i <= n,
            out@.len() == i,
            bounded_seq(int_view(inputs@), MAX_MAGNITUDE as int),
            bounded_rat(slope@, MAX_MAGNITUDE as int),
            bounded_rat(intercept@, MAX_MAGNITUDE as int),
            forall|j: int|
                0 <= j < i ==> #[trigger] out@[j]@ == predicted_at(
                    int_view(inputs@)[j],
                    slope@,
                    intercept@,
                ),
        decreases n - i,
    {
        let xi: i64 = inputs[i];
        proof {
            assert(int_view(inputs@)[i as int] == xi as int);
            lemma_mul_bound(slope@.num, xi as int, 4096, 4096);
            lemma_mul_bound(slope@.num * (xi as int), intercept@.den, 16777216, 4096);
            lemma_mul_bound(intercept@.num, slope@.den, 4096, 4096);
            lemma_mul_bound(slope@.den, intercept@.den, 4096, 4096);
        }
        let num: i128 = slope.num * (xi as i128) * intercept.den + intercept.num * slope.den;
        let den: i128 = slope.den * intercept.den;
        out.push(Ratio { num, den });
        i = i + 1;
    }
    Ok(out)
}

} // verus!
