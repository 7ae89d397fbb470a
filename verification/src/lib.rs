//! An ordinary least-squares linear-regression toolkit, verified end to
//! end over exact arithmetic.
//!
//! The toolkit fits a line `y = slope * x + intercept` to two paired
//! sample sequences ([`regression::estimate`]), scores the fit with
//! R-squared and mean squared error ([`metrics::r_squared`],
//! [`metrics::mean_squared_error`]), and applies fitted coefficients to
//! new inputs ([`prediction::predict`]). Every operation validates its own
//! inputs against one shared rule book — paired training sequences must
//! have equal, non-zero length; a prediction input must be non-empty — and
//! reports a violation through [`errors::ValidationError`].
//!
//! All arithmetic is exact: samples are integers, and every result is an
//! unreduced rational ([`ratio::Ratio`]) equal to the true quotient the
//! textbook formula denotes. No division is ever performed, so degenerate
//! data (zero variance, constant `y`) is not an error; it yields a
//! rational with zero denominator, the exact counterpart of the
//! infinities and NaNs that IEEE-754 division would produce. The [`exact`]
//! module states the formulas as spec functions and proves the classical
//! laws of the fit against them: proportional data is fitted with exactly
//! its factor and a zero intercept, a perfect fit scores an R-squared of
//! one and a mean squared error of zero, and the mean squared error is
//! never negative.

pub mod errors;
pub mod exact;
pub mod metrics;
pub mod prediction;
pub mod ratio;
pub mod regression;
pub mod validation;
