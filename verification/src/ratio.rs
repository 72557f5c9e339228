use vstd::prelude::*;

verus! {

/// An exact rational number. Statistics that are not integers (mean,
/// variance, standard deviation, histogram bucket boundaries) are carried
/// as exact numerator/denominator pairs; rendering them as decimal
/// numbers is left to the layer that serializes a profile.
#[derive(Debug, Clone, Copy, PartialEq, Eq, Structural)]
pub struct Ratio {
    pub num: i128,
    pub den: u128,
}

impl Ratio {
    /// A usable rational has a positive denominator.
    pub open spec fn wf(self) -> bool {
        self.den > 0
    }

    /// The rational equals `num / den` for the given mathematical pair.
    pub open spec fn is_fraction(self, num: int, den: int) -> bool {
        self.num as int == num && self.den as int == den
    }

    /// Cross-multiplied comparison: `self <= other` as rational numbers,
    /// for positive denominators.
    pub open spec fn spec_le(self, other: Ratio) -> bool {
        (self.num as int) * (other.den as int) <= (other.num as int) * (self.den as int)
    }

    /// Build a rational from its parts.
    pub fn new(num: i128, den: u128) -> (r: Ratio)
        ensures
            r.num == num,
            r.den == den,
    {
        Ratio { num, den }
    }
}

} // verus!
