//! Exact fractions for scores that are ratios of counts.

use vstd::prelude::*;

verus! {

/// A fraction of two counts. The denominator of a score is never zero.
#[derive(Clone, Copy, Debug, PartialEq, Eq, Structural)]
pub struct Fraction {
    /// The count above the line.
    pub numerator: u128,
    /// The count below the line.
    pub denominator: u128,
}

impl Fraction {
    /// The fraction as a pair of natural numbers.
    pub open spec fn pair(self) -> (nat, nat) {
        (self.numerator as nat, self.denominator as nat)
    }

    /// Zero, as zero over one.
    pub fn zero() -> (f: Fraction)
        ensures
            f.pair() == (0nat, 1nat),
    {
        Fraction { numerator: 0, denominator: 1 }
    }
}

} // verus!
