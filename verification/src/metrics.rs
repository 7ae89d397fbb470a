//! Model quality: R-squared and mean squared error.

use vstd::prelude::*;

use crate::errors::ValidationError;
use crate::exact::int_view;
use crate::exact::lemma_mul_bound;
use crate::exact::lemma_scaled_square_deviations_take_step;
use crate::exact::lemma_ssr_numerator_take_step;
use crate::exact::lemma_sum_of_take_step;
use crate::exact::mse_of;
use crate::exact::r_squared_of;
use crate::exact::rat_div;
use crate::exact::rat_int;
use crate::exact::rat_sub;
use crate::exact::residual_numerator;
use crate::exact::scaled_square_deviations;
use crate::exact::ssr_numerator;
use crate::exact::ssr_of;
use crate::exact::sst_of;
use crate::exact::sum_of;
use crate::exact::Rat;
use crate::ratio::bounded_rat;
use crate::ratio::bounded_seq;
use crate::ratio::Ratio;
use crate::ratio::MAX_MAGNITUDE;
use crate::ratio::MAX_SAMPLES;
use crate::validation::validate_training;

verus! {

/// The coefficient of determination `1 - SSR / SST` of the line with the
/// given slope and intercept against the paired samples, exactly as an
/// unreduced rational.
///
/// The samples must have equal, non-zero length; otherwise the matching
/// [`ValidationError`] is returned. A constant `y` is not an error: it
/// makes `SST` zero and the result a rational with zero denominator, the
/// exact counterpart of the infinities and NaNs that IEEE-754 division
/// produces for it.
pub fn r_squared(x: &Vec<i64>, y: &Vec<i64>, slope: Ratio, intercept: Ratio) -> (r: Result<
    Ratio,
    ValidationError,
>)
    requires
        x@.len() <= MAX_SAMPLES,
        bounded_seq(int_view(x@), MAX_MAGNITUDE as int),
        bounded_seq(int_view(y@), MAX_MAGNITUDE as int),
        bounded_rat(slope@, MAX_MAGNITUDE as int),
        bounded_rat(intercept@, MAX_MAGNITUDE as int),
    ensures
        r is Ok <==> (x@.len() == y@.len() && x@.len() >= 1),
        x@.len() != y@.len() ==> r == Err::<Ratio, ValidationError>(
            ValidationError::LengthMismatch,
        ),
        x@.len() == y@.len() && x@.len() == 0 ==> r == Err::<Ratio, ValidationError>(
            ValidationError::EmptyInput,
        ),
        r matches Ok(v) ==> v@ == r_squared_of(int_view(x@), int_view(y@), slope@, intercept@),
{
    if let Err(e) = validate_training(x.len(), y.len()) {
        return Err(e);
    }
    let n: usize = x.len();
    proof {
        lemma_mul_bound(slope.den as int, intercept.den as int, 4096, 4096);
    }
    let sd_cd: i128 = slope.den * intercept.den;
    let ssr_acc: i128 = ssr_sum(x, y, slope, intercept, sd_cd);
    let sy: i128 = total_of(y);
    let nn: i128 = n as i128;
    let mut i: usize = 0;
    let mut sst_acc: i128 = 0;
    while i < n
        invariant
            n == y@.len(),
            n <= MAX_SAMPLES,
            i <= n,
            nn == n as i128,
            bounded_seq(int_view(y@), MAX_MAGNITUDE as int),
            -16777216 <= sy <= 16777216,
            sst_acc == scaled_square_deviations(int_view(y@).take(i as int), nn as int, sy as int),
            -(i as int) * 1125899906842624 <= sst_acc <= (i as int) * 1125899906842624,
        decreases n - i,
    {
        let yi: i64 = y[i];
        proof {
            assert(int_view(y@)[i as int] == yi as int);
            lemma_scaled_square_deviations_take_step(int_view(y@), nn as int, sy as int, i as int);
            lemma_mul_bound(nn as int, yi as int, 4096, 4096);
            lemma_mul_bound(
                nn as int * (yi as int) - sy as int,
                nn as int * (yi as int) - sy as int,
                33554432,
                33554432,
            );
        }
        let dev: i128 = nn * (yi as i128) - sy;
        sst_acc = sst_acc + dev * dev;
        i = i + 1;
    }
    proof {
        assert(int_view(y@).take(n as int) =~= int_view(y@));
        lemma_mul_bound(sd_cd as int, sd_cd as int, 16777216, 16777216);
        lemma_mul_bound(nn as int, nn as int, 4096, 4096);
    }
    let ssr_den: i128 = sd_cd * sd_cd;
    let sst_den: i128 = nn * nn;
    proof {
        lemma_mul_bound(
            ssr_acc as int,
            sst_den as int,
            163840000000000000000000000,
            16777216,
        );
        lemma_mul_bound(
            ssr_den as int,
            sst_acc as int,
            281474976710656,
            4611686018427387904,
        );
    }
    let ratio_num: i128 = ssr_acc * sst_den;
    let ratio_den: i128 = ssr_den * sst_acc;
    let r2_num: i128 = ratio_den - ratio_num;
    proof {
        let gx = int_view(x@);
        let gy = int_view(y@);
        let s = slope@;
        let c = intercept@;
        assert(ssr_of(gx, gy, s, c) == Rat { num: ssr_acc as int, den: ssr_den as int });
        assert(sst_of(gy) == Rat { num: sst_acc as int, den: sst_den as int });
        let ratio = rat_div(ssr_of(gx, gy, s, c), sst_of(gy));
        assert(ratio == Rat { num: ratio_num as int, den: ratio_den as int });
        assert(1 * (ratio_den as int) - (ratio_num as int) * 1 == ratio_den as int
            - ratio_num as int) by (nonlinear_arith);
        assert(1 * (ratio_den as int) == ratio_den as int) by (nonlinear_arith);
        assert(rat_sub(rat_int(1), ratio) == Rat { num: r2_num as int, den: ratio_den as int });
    }
    Ok(Ratio { num: r2_num, den: ratio_den })
}

/// The mean squared error `SSR / n` of the line with the given slope and
/// intercept against the paired samples, exactly as an unreduced
/// rational.
///
/// The samples must have equal, non-zero length; otherwise the matching
/// [`ValidationError`] is returned.
pub fn mean_squared_error(x: &Vec<i64>, y: &Vec<i64>, slope: Ratio, intercept: Ratio) -> (r:
    Result<Ratio, ValidationError>)
    requires
        x@.len() <= MAX_SAMPLES,
        bounded_seq(int_view(x@), MAX_MAGNITUDE as int),
        bounded_seq(int_view(y@), MAX_MAGNITUDE as int),
        bounded_rat(slope@, MAX_MAGNITUDE as int),
        bounded_rat(intercept@, MAX_MAGNITUDE as int),
    ensures
        r is Ok <==> (x@.len() == y@.len() && x@.len() >= 1),
        x@.len() != y@.len() ==> r == Err::<Ratio, ValidationError>(
            ValidationError::LengthMismatch,
        ),
        x@.len() == y@.len() && x@.len() == 0 ==> r == Err::<Ratio, ValidationError>(
            ValidationError::EmptyInput,
        ),
        r matches Ok(v) ==> v@ == mse_of(int_view(x@), int_view(y@), slope@, intercept@),
{
    if let Err(e) = validate_training(x.len(), y.len()) {
        return Err(e);
    }
    let n: usize = x.len();
    proof {
        lemma_mul_bound(slope.den as int, intercept.den as int, 4096, 4096);
    }
    let sd_cd: i128 = slope.den * intercept.den;
    let ssr_acc: i128 = ssr_sum(x, y, slope, intercept, sd_cd);
    let nn: i128 = n as i128;
    proof {
        lemma_mul_bound(sd_cd as int, sd_cd as int, 16777216, 16777216);
        lemma_mul_bound(nn as int, sd_cd as int * (sd_cd as int), 4096, 281474976710656);
    }
    Ok(Ratio { num: ssr_acc, den: nn * (sd_cd * sd_cd) })
}

/// The sum of the samples, as a 128-bit integer.
fn total_of(y: &Vec<i64>) -> (t: i128)
    requires
        y@.len() <= MAX_SAMPLES,
        bounded_seq(int_view(y@), MAX_MAGNITUDE as int),
    ensures
        t == sum_of(int_view(y@)),
        -16777216 <= t <= 16777216,
{
    let n: usize = y.len();
    let mut i: usize = 0;
    let mut sy: i128 = 0;
    while i < n
        invariant
            n == y@.len(),
            n <= MAX_SAMPLES,
            i <= n,
            bounded_seq(int_view(y@), MAX_MAGNITUDE as int),
            sy == sum_of(int_view(y@).take(i as int)),
            -(i as int) * 4096 <= sy <= (i as int) * 4096,
        decreases n - i,
    {
        let yi: i64 = y[i];
        proof {
            assert(int_view(y@)[i as int] == yi as int);
            lemma_sum_of_take_step(int_view(y@), i as int);
        }
        sy = sy + (yi as i128);
        i = i + 1;
    }
    proof {
        assert(int_view(y@).take(n as int) =~= int_view(y@));
    }
    sy
}

/// The numerator of the residual sum of squares of the line against the
/// paired samples, over the denominator `(sd_cd)^2`.
fn ssr_sum(x: &Vec<i64>, y: &Vec<i64>, slope: Ratio, intercept: Ratio, sd_cd: i128) -> (t: i128)
    requires
        x@.len() == y@.len(),
        x@.len() <= MAX_SAMPLES,
        bounded_seq(int_view(x@), MAX_MAGNITUDE as int),
        bounded_seq(int_view(y@), MAX_MAGNITUDE as int),
        bounded_rat(slope@, MAX_MAGNITUDE as int),
        bounded_rat(intercept@, MAX_MAGNITUDE as int),
        sd_cd == slope@.den * intercept@.den,
    ensures
        t == ssr_numerator(int_view(x@), int_view(y@), slope@, intercept@),
        -163840000000000000000000000 <= t <= 163840000000000000000000000,
{
    let n: usize = x.len();
    let mut i: usize = 0;
    let mut acc: i128 = 0;
    while i < n
        invariant
            n == x@.len(),
            n == y@.len(),
            n <= MAX_SAMPLES,
            i <= n,
            bounded_seq(int_view(x@), MAX_MAGNITUDE as int),
            bounded_seq(int_view(y@), MAX_MAGNITUDE as int),
            bounded_rat(slope@, MAX_MAGNITUDE as int),
            bounded_rat(intercept@, MAX_MAGNITUDE as int),
            sd_cd == slope@.den * intercept@.den,
            acc == ssr_numerator(
                int_view(x@).take(i as int),
                int_view(y@).take(i as int),
                slope@,
                intercept@,
            ),
            -(i as int) * 40000000000000000000000 <= acc <= (i as int)
                * 40000000000000000000000,
        decreases n - i,
    {
        let xi: i64 = x[i];
        let yi: i64 = y[i];
        proof {
            assert(int_view(x@)[i as int] == xi as int);
            assert(int_view(y@)[i as int] == yi as int);
            lemma_ssr_numerator_take_step(
                int_view(x@),
                int_view(y@),
                slope@,
                intercept@,
                i as int,
            );
            lemma_mul_bound(slope@.den, intercept@.den, 4096, 4096);
            lemma_mul_bound(yi as int, sd_cd as int, 4096, 16777216);
            lemma_mul_bound(slope@.num, xi as int, 4096, 4096);
            lemma_mul_bound(slope@.num * (xi as int), intercept@.den, 16777216, 4096);
            lemma_mul_bound(intercept@.num, slope@.den, 4096, 4096);
            lemma_mul_bound(
                residual_numerator(xi as int, yi as int, slope@, intercept@),
                residual_numerator(xi as int, yi as int, slope@, intercept@),
                200000000000,
                200000000000,
            );
        }
        let res: i128 = (yi as i128) * sd_cd - (slope.num * (xi as i128) * intercept.den
            + intercept.num * slope.den);
        acc = acc + res * res;
        i = i + 1;
    }
    proof {
        assert(int_view(x@).take(n as int) =~= int_view(x@));
        assert(int_view(y@).take(n as int) =~= int_view(y@));
    }
    acc
}

} // verus!
