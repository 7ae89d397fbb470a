//! Coefficient estimation: fitting slope and intercept by least squares.

use vstd::prelude::*;

use crate::errors::ValidationError;
use crate::exact::dot_of;
use crate::exact::int_view;
use crate::exact::intercept_of;
use crate::exact::lemma_dot_of_take_step;
use crate::exact::lemma_mul_bound;
use crate::exact::lemma_sum_of_take_step;
use crate::exact::slope_of;
use crate::exact::sum_of;
use crate::ratio::bounded_seq;
use crate::ratio::Ratio;
use crate::ratio::MAX_MAGNITUDE;
use crate::ratio::MAX_SAMPLES;
use crate::validation::validate_training;

verus! {

/// Fits the line `y = slope * x + intercept` to the paired samples by
/// ordinary least squares: the slope is the covariance of the samples
/// over the variance of `x`, and the intercept is `mean(y) - slope *
/// mean(x)`, both returned exactly as unreduced rationals.
///
/// The samples must have equal, non-zero length; otherwise the matching
/// [`ValidationError`] is returned. Samples of zero variance (all `x`
/// equal) are not an error: they yield coefficients with a zero
/// denominator, the exact counterpart of the infinities and NaNs that
/// IEEE-754 division produces for them.
pub fn estimate(x: &Vec<i64>, y: &Vec<i64>) -> (r: Result<(Ratio, Ratio), ValidationError>)
    requires
        x@.len() <= MAX_SAMPLES,
        bounded_seq(int_view(x@), MAX_MAGNITUDE as int),
        bounded_seq(int_view(y@), MAX_MAGNITUDE as int),
    ensures
        r is Ok <==> (x@.len() == y@.len() && x@.len() >= 1),
        x@.len() != y@.len() ==> r == Err::<(Ratio, Ratio), ValidationError>(
            ValidationError::LengthMismatch,
        ),
        x@.len() == y@.len() && x@.len() == 0 ==> r == Err::<(Ratio, Ratio), ValidationError>(
            ValidationError::EmptyInput,
        ),
        r matches Ok(coeffs) ==> coeffs.0@ == slope_of(int_view(x@), int_view(y@)),
        r matches Ok(coeffs) ==> coeffs.1@ == intercept_of(int_view(x@), int_view(y@)),
{
    if let Err(e) = validate_training(x.len(), y.len()) {
        return Err(e);
    }
    let n: usize = x.len();
    let mut i: usize = 0;
    let mut sx: i128 = 0;
    let mut sy: i128 = 0;
    let mut sxy: i128 = 0;
    let mut sxx: i128 = 0;
    while i < n
        invariant
            n == x@.len(),
            n == y@.len(),
            n <= MAX_SAMPLES,
            i <= n,
            bounded_seq(int_view(x@), MAX_MAGNITUDE as int),
            bounded_seq(int_view(y@), MAX_MAGNITUDE as int),
            sx == sum_of(int_view(x@).take(i as int)),
            sy == sum_of(int_view(y@).take(i as int)),
            sxy == dot_of(int_view(x@).take(i as int), int_view(y@).take(i as int)),
            sxx == dot_of(int_view(x@).take(i as int), int_view(x@).take(i as int)),
            -(i as int) * 4096 <= sx <= (i as int) * 4096,
            -(i as int) * 4096 <= sy <= (i as int) * 4096,
            -(i as int) * 16777216 <= sxy <= (i as int) * 16777216,
            -(i as int) * 16777216 <= sxx <= (i as int) * 16777216,
        decreases n - i,
    {
        let xi: i64 = x[i];
        let yi: i64 = y[i];
        proof {
            assert(int_view(x@)[i as int] == xi as int);
            assert(int_view(y@)[i as int] == yi as int);
            lemma_sum_of_take_step(int_view(x@), i as int);
            lemma_sum_of_take_step(int_view(y@), i as int);
            lemma_dot_of_take_step(int_view(x@), int_view(y@), i as int);
            lemma_dot_of_take_step(int_view(x@), int_view(x@), i as int);
            lemma_mul_bound(xi as int, yi as int, 4096, 4096);
            lemma_mul_bound(xi as int, xi as int, 4096, 4096);
        }
        sx = sx + (xi as i128);
        sy = sy + (yi as i128);
        sxy = sxy + (xi as i128) * (yi as i128);
        sxx = sxx + (xi as i128) * (xi as i128);
        i = i + 1;
    }
    proof {
        assert(int_view(x@).take(n as int) =~= int_view(x@));
        assert(int_view(y@).take(n as int) =~= int_view(y@));
        lemma_mul_bound(n as int, sxy as int, 4096, 68719476736);
        lemma_mul_bound(sx as int, sy as int, 16777216, 16777216);
        lemma_mul_bound(n as int, sxx as int, 4096, 68719476736);
        lemma_mul_bound(sx as int, sx as int, 16777216, 16777216);
    }
    let nn: i128 = n as i128;
    let slope_num: i128 = nn * sxy - sx * sy;
    let slope_den: i128 = nn * sxx - sx * sx;
    proof {
        lemma_mul_bound(sy as int, slope_den as int, 16777216, 562949953421312);
        lemma_mul_bound(slope_num as int, sx as int, 562949953421312, 16777216);
        lemma_mul_bound(nn as int, slope_den as int, 4096, 562949953421312);
    }
    let inter_num: i128 = sy * slope_den - slope_num * sx;
    let inter_den: i128 = nn * slope_den;
    Ok((Ratio { num: slope_num, den: slope_den }, Ratio { num: inter_num, den: inter_den }))
}

} // verus!
