//! The least-squares fit in exact arithmetic, and its algebraic laws.
//!
//! The toolkit's formulas — slope and intercept from means, covariance and
//! variance; R-squared from the total and residual sums of squares; mean
//! squared error — are stated here over integer samples and rational
//! coefficients, with every division carried symbolically as a
//! numerator/denominator pair. In this exact setting the classical laws of
//! the fit are proved: data lying on a line through the origin is fitted
//! with exactly that slope and a zero intercept; a fit that passes through
//! every point has a residual sum of zero, hence a mean squared error of
//! zero and an R-squared of one; and the mean squared error is never
//! negative.
//!
//! The executable toolkit evaluates the same formulas in floating point,
//! where each law holds whenever every intermediate value is exactly
//! representable (integer samples of moderate size), and only up to
//! rounding otherwise.

use vstd::prelude::*;

verus! {

/// A rational number carried as a numerator/denominator pair; the
/// denominator is meaningful only when non-zero.
pub ghost struct Rat {
    pub num: int,
    pub den: int,
}

/// The rational equal to the integer `k`.
pub open spec fn rat_int(k: int) -> Rat {
    Rat { num: k, den: 1 }
}

/// Equality of rationals by cross-multiplication.
pub open spec fn rat_eq(a: Rat, b: Rat) -> bool {
    a.num * b.den == b.num * a.den
}

/// Non-negativity of a rational: numerator and denominator agree in sign.
pub open spec fn rat_nonneg(a: Rat) -> bool {
    a.num * a.den >= 0
}

/// `a - b` over rationals.
pub open spec fn rat_sub(a: Rat, b: Rat) -> Rat {
    Rat { num: a.num * b.den - b.num * a.den, den: a.den * b.den }
}

/// `a / b` over rationals.
pub open spec fn rat_div(a: Rat, b: Rat) -> Rat {
    Rat { num: a.num * b.den, den: a.den * b.num }
}

/// The mathematical view of a sequence of machine integers.
pub open spec fn int_view(s: Seq<i64>) -> Seq<int> {
    s.map_values(|v: i64| v as int)
}

/// The sum of an integer sequence.
pub open spec fn sum_of(s: Seq<int>) -> int
    decreases s.len(),
{
    if s.len() == 0 {
        0
    } else {
        sum_of(s.drop_last()) + s.last()
    }
}

/// The sum of the pointwise products of two equal-length sequences.
pub open spec fn dot_of(x: Seq<int>, y: Seq<int>) -> int
    recommends
        x.len() == y.len(),
    decreases x.len(),
{
    if x.len() == 0 {
        0
    } else {
        dot_of(x.drop_last(), y.drop_last()) + x.last() * y.last()
    }
}

/// The sequence `x` with every sample scaled by `k`.
pub open spec fn scaled(x: Seq<int>, k: int) -> Seq<int> {
    x.map_values(|v: int| k * v)
}

/// Numerator of the fitted slope: `n * dot(x, y) - sum(x) * sum(y)`, the
/// covariance of the samples scaled by `n^2`.
pub open spec fn slope_numerator(x: Seq<int>, y: Seq<int>) -> int {
    x.len() * dot_of(x, y) - sum_of(x) * sum_of(y)
}

/// Denominator of the fitted slope: `n * dot(x, x) - sum(x)^2`, the
/// variance of `x` scaled by `n^2`; zero exactly when all samples of `x`
/// are equal.
pub open spec fn slope_denominator(x: Seq<int>) -> int {
    x.len() * dot_of(x, x) - sum_of(x) * sum_of(x)
}

/// The fitted slope `covariance / variance`, as a rational.
pub open spec fn slope_of(x: Seq<int>, y: Seq<int>) -> Rat {
    Rat { num: slope_numerator(x, y), den: slope_denominator(x) }
}

/// The fitted intercept `mean(y) - slope * mean(x)`, as a rational over
/// the common denominator `n * slope_denominator(x)`.
pub open spec fn intercept_of(x: Seq<int>, y: Seq<int>) -> Rat {
    Rat {
        num: sum_of(y) * slope_denominator(x) - slope_numerator(x, y) * sum_of(x),
        den: x.len() * slope_denominator(x),
    }
}

/// The value `slope * xi + intercept` of the line with slope `s` and
/// intercept `c` at `xi`, as a rational over the denominator
/// `s.den * c.den`.
pub open spec fn predicted_at(xi: int, s: Rat, c: Rat) -> Rat {
    Rat { num: s.num * xi * c.den + c.num * s.den, den: s.den * c.den }
}

/// Numerator of the residual `yi - (slope * xi + intercept)` of one point
/// against the line with slope `s` and intercept `c`, over the common
/// denominator `s.den * c.den`.
pub open spec fn residual_numerator(xi: int, yi: int, s: Rat, c: Rat) -> int {
    yi * (s.den * c.den) - predicted_at(xi, s, c).num
}

/// Numerator of the residual sum of squares over the common denominator
/// `(s.den * c.den)^2`.
pub open spec fn ssr_numerator(x: Seq<int>, y: Seq<int>, s: Rat, c: Rat) -> int
    recommends
        x.len() == y.len(),
    decreases x.len(),
{
    if x.len() == 0 {
        0
    } else {
        ssr_numerator(x.drop_last(), y.drop_last(), s, c) + residual_numerator(
            x.last(),
            y.last(),
            s,
            c,
        ) * residual_numerator(x.last(), y.last(), s, c)
    }
}

/// The residual sum of squares `SSR`, as a rational.
pub open spec fn ssr_of(x: Seq<int>, y: Seq<int>, s: Rat, c: Rat) -> Rat {
    Rat { num: ssr_numerator(x, y, s, c), den: (s.den * c.den) * (s.den * c.den) }
}

/// `sum((n * yi - t)^2)`: the squared deviations of `y` from its mean,
/// scaled by `n^2`, with the length `n` and total `t` fixed up front.
pub open spec fn scaled_square_deviations(y: Seq<int>, n: int, t: int) -> int
    decreases y.len(),
{
    if y.len() == 0 {
        0
    } else {
        scaled_square_deviations(y.drop_last(), n, t) + (n * y.last() - t) * (n * y.last() - t)
    }
}

/// The total sum of squares `SST`, as a rational over the denominator
/// `n^2`.
pub open spec fn sst_of(y: Seq<int>) -> Rat {
    Rat {
        num: scaled_square_deviations(y, y.len() as int, sum_of(y)),
        den: (y.len() * y.len()) as int,
    }
}

/// The mean squared error `SSR / n`, as a rational.
pub open spec fn mse_of(x: Seq<int>, y: Seq<int>, s: Rat, c: Rat) -> Rat {
    Rat { num: ssr_numerator(x, y, s, c), den: x.len() * ((s.den * c.den) * (s.den * c.den)) }
}

/// The coefficient of determination `1 - SSR / SST`, as a rational.
pub open spec fn r_squared_of(x: Seq<int>, y: Seq<int>, s: Rat, c: Rat) -> Rat {
    rat_sub(rat_int(1), rat_div(ssr_of(x, y, s, c), sst_of(y)))
}

/// Extending a prefix by one element adds that element to its sum.
pub proof fn lemma_sum_of_take_step(s: Seq<int>, i: int)
    requires
        0 <= i < s.len(),
    ensures
        sum_of(s.take(i + 1)) == sum_of(s.take(i)) + s[i],
{
    assert(s.take(i + 1).drop_last() =~= s.take(i));
    assert(s.take(i + 1).last() == s[i]);
}

/// Extending both prefixes by one element adds that pair's product to
/// their dot product.
pub proof fn lemma_dot_of_take_step(x: Seq<int>, y: Seq<int>, i: int)
    requires
        x.len() == y.len(),
        0 <= i < x.len(),
    ensures
        dot_of(x.take(i + 1), y.take(i + 1)) == dot_of(x.take(i), y.take(i)) + x[i] * y[i],
{
    assert(x.take(i + 1).drop_last() =~= x.take(i));
    assert(y.take(i + 1).drop_last() =~= y.take(i));
    assert(x.take(i + 1).last() == x[i]);
    assert(y.take(i + 1).last() == y[i]);
}

/// Extending both prefixes by one point adds that point's squared
/// residual to the residual sum of squares.
pub proof fn lemma_ssr_numerator_take_step(x: Seq<int>, y: Seq<int>, s: Rat, c: Rat, i: int)
    requires
        x.len() == y.len(),
        0 <= i < x.len(),
    ensures
        ssr_numerator(x.take(i + 1), y.take(i + 1), s, c) == ssr_numerator(
            x.take(i),
            y.take(i),
            s,
            c,
        ) + residual_numerator(x[i], y[i], s, c) * residual_numerator(x[i], y[i], s, c),
{
    assert(x.take(i + 1).drop_last() =~= x.take(i));
    assert(y.take(i + 1).drop_last() =~= y.take(i));
    assert(x.take(i + 1).last() == x[i]);
    assert(y.take(i + 1).last() == y[i]);
}

/// Extending the prefix by one element adds that element's scaled squared
/// deviation to the running total.
pub proof fn lemma_scaled_square_deviations_take_step(y: Seq<int>, n: int, t: int, i: int)
    requires
        0 <= i < y.len(),
    ensures
        scaled_square_deviations(y.take(i + 1), n, t) == scaled_square_deviations(y.take(i), n, t)
            + (n * y[i] - t) * (n * y[i] - t),
{
    assert(y.take(i + 1).drop_last() =~= y.take(i));
    assert(y.take(i + 1).last() == y[i]);
}

/// A product is bounded by the product of the factors' bounds.
pub proof fn lemma_mul_bound(a: int, b: int, ka: int, kb: int)
    by (nonlinear_arith)
    requires
        -ka <= a <= ka,
        -kb <= b <= kb,
    ensures
        -(ka * kb) <= a * b <= ka * kb,
{
}

proof fn lemma_sum_of_scaled(x: Seq<int>, k: int)
    ensures
        sum_of(scaled(x, k)) == k * sum_of(x),
    decreases x.len(),
{
    if x.len() == 0 {
        assert(scaled(x, k).len() == 0);
    } else {
        lemma_sum_of_scaled(x.drop_last(), k);
        assert(scaled(x, k).drop_last() =~= scaled(x.drop_last(), k));
        assert(scaled(x, k).last() == k * x.last());
        assert(k * sum_of(x.drop_last()) + k * x.last() == k * (sum_of(x.drop_last()) + x.last()))
            by (nonlinear_arith);
    }
}

proof fn lemma_dot_of_scaled(x: Seq<int>, k: int)
    ensures
        dot_of(x, scaled(x, k)) == k * dot_of(x, x),
    decreases x.len(),
{
    if x.len() == 0 {
    } else {
        lemma_dot_of_scaled(x.drop_last(), k);
        assert(scaled(x, k).drop_last() =~= scaled(x.drop_last(), k));
        assert(scaled(x, k).last() == k * x.last());
        assert(k * dot_of(x.drop_last(), x.drop_last()) + x.last() * (k * x.last()) == k * (dot_of(
            x.drop_last(),
            x.drop_last(),
        ) + x.last() * x.last())) by (nonlinear_arith);
    }
}

/// Data proportional to its inputs is fitted exactly: for non-empty `x`
/// of non-zero variance and `y = k * x`, the estimated slope is exactly
/// `k` and the estimated intercept is exactly `0`.
pub proof fn lemma_proportional_data_fits_exactly(x: Seq<int>, k: int)
    requires
        x.len() >= 1,
        slope_denominator(x) != 0,
    ensures
        rat_eq(slope_of(x, scaled(x, k)), rat_int(k)),
        rat_eq(intercept_of(x, scaled(x, k)), rat_int(0)),
        slope_numerator(x, scaled(x, k)) == k * slope_denominator(x),
        intercept_of(x, scaled(x, k)).num == 0,
{
    let y = scaled(x, k);
    lemma_sum_of_scaled(x, k);
    lemma_dot_of_scaled(x, k);
    let n: int = x.len() as int;
    let sx: int = sum_of(x);
    let qx: int = dot_of(x, x);
    assert(n * (k * qx) - sx * (k * sx) == k * (n * qx - sx * sx)) by (nonlinear_arith);
    assert(slope_numerator(x, y) == k * slope_denominator(x));
    assert((k * sx) * slope_denominator(x) - (k * slope_denominator(x)) * sx == 0)
        by (nonlinear_arith);
    assert(intercept_of(x, y).num == 0);
}

proof fn lemma_ssr_of_exact_fit(x: Seq<int>, y: Seq<int>, s: Rat, c: Rat)
    requires
        x.len() == y.len(),
        forall|i: int|
            0 <= i < x.len() ==> #[trigger] residual_numerator(x[i], y[i], s, c) == 0,
    ensures
        ssr_numerator(x, y, s, c) == 0,
    decreases x.len(),
{
    if x.len() == 0 {
    } else {
        assert(forall|i: int|
            0 <= i < x.drop_last().len() ==> #[trigger] residual_numerator(
                x.drop_last()[i],
                y.drop_last()[i],
                s,
                c,
            ) == 0) by {
            assert(forall|i: int|
                0 <= i < x.drop_last().len() ==> x.drop_last()[i] == x[i] && y.drop_last()[i]
                    == y[i]);
        }
        lemma_ssr_of_exact_fit(x.drop_last(), y.drop_last(), s, c);
        assert(residual_numerator(x.last(), y.last(), s, c) == 0);
    }
}

/// A perfect fit has no error: if every point `(x[i], y[i])` lies exactly
/// on the line with slope `s` and intercept `c`, then the mean squared
/// error is exactly `0`, and — provided `y` is not constant, so the total
/// sum of squares is non-zero — R-squared is exactly `1`.
pub proof fn lemma_perfect_fit_scores_perfectly(x: Seq<int>, y: Seq<int>, s: Rat, c: Rat)
    requires
        x.len() == y.len(),
        x.len() >= 1,
        s.den != 0,
        c.den != 0,
        forall|i: int|
            0 <= i < x.len() ==> #[trigger] residual_numerator(x[i], y[i], s, c) == 0,
    ensures
        rat_eq(mse_of(x, y, s, c), rat_int(0)),
        mse_of(x, y, s, c).num == 0,
        sst_of(y).num != 0 ==> rat_eq(r_squared_of(x, y, s, c), rat_int(1)),
        sst_of(y).num != 0 ==> r_squared_of(x, y, s, c).num == r_squared_of(x, y, s, c).den,
{
    lemma_ssr_of_exact_fit(x, y, s, c);
    assert(mse_of(x, y, s, c).num == 0);
    let ssr = ssr_of(x, y, s, c);
    let sst = sst_of(y);
    let ratio = rat_div(ssr, sst);
    assert(ratio.num == 0 * sst.den && ratio.num == 0) by (nonlinear_arith)
        requires
            ssr.num == 0,
            ratio.num == ssr.num * sst.den,
    ;
    let r2 = r_squared_of(x, y, s, c);
    assert(r2.num == 1 * ratio.den - ratio.num * 1);
    assert(r2.den == 1 * ratio.den);
    assert(r2.num * 1 == 1 * r2.den);
}

/// The fitted line for proportional data passes through every sample, so
/// scoring the fit against its own training data is perfect: the mean
/// squared error is exactly `0` and — provided `y` is not constant —
/// R-squared is exactly `1`.
pub proof fn lemma_proportional_fit_scores_perfectly(x: Seq<int>, k: int)
    requires
        x.len() >= 1,
        slope_denominator(x) != 0,
    ensures
        mse_of(x, scaled(x, k), slope_of(x, scaled(x, k)), intercept_of(x, scaled(x, k))).num
            == 0,
        sst_of(scaled(x, k)).num != 0 ==> rat_eq(
            r_squared_of(
                x,
                scaled(x, k),
                slope_of(x, scaled(x, k)),
                intercept_of(x, scaled(x, k)),
            ),
            rat_int(1),
        ),
{
    let y = scaled(x, k);
    let s = slope_of(x, y);
    let c = intercept_of(x, y);
    lemma_proportional_data_fits_exactly(x, k);
    let n: int = x.len() as int;
    assert(c.den != 0) by (nonlinear_arith)
        requires
            n >= 1,
            slope_denominator(x) != 0,
            c.den == n * slope_denominator(x),
    ;
    assert forall|i: int| 0 <= i < x.len() implies #[trigger] residual_numerator(
        x[i],
        y[i],
        s,
        c,
    ) == 0 by {
        assert(y[i] == k * x[i]);
        assert(residual_numerator(x[i], y[i], s, c) == 0) by (nonlinear_arith)
            requires
                y[i] == k * x[i],
                s.num == k * s.den,
                c.num == 0,
                residual_numerator(x[i], y[i], s, c) == y[i] * (s.den * c.den) - (s.num * x[i]
                    * c.den + c.num * s.den),
        ;
    }
    lemma_perfect_fit_scores_perfectly(x, y, s, c);
}

proof fn lemma_ssr_numerator_nonneg(x: Seq<int>, y: Seq<int>, s: Rat, c: Rat)
    ensures
        ssr_numerator(x, y, s, c) >= 0,
    decreases x.len(),
{
    if x.len() == 0 {
    } else {
        lemma_ssr_numerator_nonneg(x.drop_last(), y.drop_last(), s, c);
        let r: int = residual_numerator(x.last(), y.last(), s, c);
        assert(r * r >= 0) by (nonlinear_arith);
    }
}

/// The mean squared error is never negative: for non-empty samples and
/// any line with well-formed coefficients, `SSR / n` is a sum of squares
/// over a positive denominator.
pub proof fn lemma_mse_nonnegative(x: Seq<int>, y: Seq<int>, s: Rat, c: Rat)
    requires
        x.len() == y.len(),
        x.len() >= 1,
        s.den != 0,
        c.den != 0,
    ensures
        rat_nonneg(mse_of(x, y, s, c)),
{
    lemma_ssr_numerator_nonneg(x, y, s, c);
    let m = mse_of(x, y, s, c);
    let n: int = x.len() as int;
    let d: int = s.den * c.den;
    assert(d != 0) by (nonlinear_arith)
        requires
            s.den != 0,
            c.den != 0,
            d == s.den * c.den,
    ;
    assert(n * (d * d) > 0) by (nonlinear_arith)
        requires
            n >= 1,
            d != 0,
    ;
    assert(m.num * m.den >= 0) by (nonlinear_arith)
        requires
            m.num >= 0,
            m.den > 0,
    ;
}

} // verus!
