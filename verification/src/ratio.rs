//! The exact rational values carried by the executable toolkit, and the
//! machine limits under which its arithmetic provably never overflows.

use vstd::prelude::*;

use crate::exact::Rat;

verus! {

/// Largest number of samples the executable toolkit accepts per sequence.
pub const MAX_SAMPLES: usize = 4096;

/// Largest magnitude the executable toolkit accepts for a sample or for a
/// coefficient part. Together with [`MAX_SAMPLES`] this keeps every
/// intermediate product of the fit within 128 bits.
pub const MAX_MAGNITUDE: i64 = 4096;

/// An exact rational carried as a numerator/denominator pair.
///
/// Values are not reduced, and the toolkit never divides: a coefficient
/// such as a slope is handed out exactly as the quotient it stands for. A
/// zero denominator can arise — fitting samples of zero variance yields
/// one — and is the exact-arithmetic counterpart of the infinities and
/// NaNs that the same degenerate data produces under IEEE-754 division.
#[derive(Clone, Copy, Debug, PartialEq, Eq, Structural)]
pub struct Ratio {
    pub num: i128,
    pub den: i128,
}

impl View for Ratio {
    type V = Rat;

    open spec fn view(&self) -> Rat {
        Rat { num: self.num as int, den: self.den as int }
    }
}

/// Every element within `bound` in magnitude.
pub open spec fn bounded_seq(s: Seq<int>, bound: int) -> bool {
    forall|i: int| 0 <= i < s.len() ==> -bound <= #[trigger] s[i] <= bound
}

/// Numerator and denominator both within `bound` in magnitude.
pub open spec fn bounded_rat(r: Rat, bound: int) -> bool {
    -bound <= r.num <= bound && -bound <= r.den <= bound
}

} // verus!
