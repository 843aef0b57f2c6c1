//! Ratings. A rating is a binary64 number; the library carries it as its bit
//! pattern and never does arithmetic on it. All it needs is the starting value
//! of a new player and the numeric order of two ratings.

use vstd::prelude::*;

verus! {

/// Bit pattern of 1000.0, the rating every new player starts with.
pub const INITIAL_RATING_BITS: u64 = 0x408F_4000_0000_0000;

/// The sign bit of a binary64 pattern. The 63 bits below it hold the
/// magnitude: biased exponent, then fraction.
pub const SIGN_BIT: u64 = 0x8000_0000_0000_0000;

/// A rating, as the bit pattern of a binary64 number. Two ratings are equal
/// when their patterns are.
#[derive(Clone, Copy, Debug, PartialEq, Eq, Structural)]
pub struct Rating {
    pub bits: u64,
}

impl Rating {
    /// Position of the rating on the number line. Binary64 is a
    /// sign-and-magnitude format in which a larger magnitude field means a
    /// larger absolute value, so for any two ratings that are numbers the one
    /// with the greater rank is the greater number, and both zeros have rank 0.
    /// A pattern that is not a number ranks beyond the infinity of its sign.
    pub open spec fn rank(self) -> int {
        if self.bits < SIGN_BIT {
            self.bits as int
        } else {
            SIGN_BIT as int - self.bits as int
        }
    }

    /// The rating of a player who has not played yet.
    pub open spec fn spec_initial() -> Rating {
        Rating { bits: INITIAL_RATING_BITS }
    }

    /// The rating of a player who has not played yet.
    #[verifier::when_used_as_spec(spec_initial)]
    pub fn initial() -> (r: Rating)
        ensures
            r == Rating::spec_initial(),
            r.bits == INITIAL_RATING_BITS,
    {
        Rating { bits: INITIAL_RATING_BITS }
    }

    /// The rating with the given bit pattern.
    pub fn from_bits(bits: u64) -> (r: Rating)
        ensures
            r.bits == bits,
    {
        Rating { bits }
    }

    /// The bit pattern of the rating.
    pub fn to_bits(self) -> (bits: u64)
        ensures
            bits == self.bits,
    {
        self.bits
    }

    /// Tells whether `self` is numerically greater than `other`.
    pub fn exceeds(self, other: Rating) -> (r: bool)
        ensures
            r == (self.rank() > other.rank()),
    {
        let a = self.bits;
        let b = other.bits;
        if a < SIGN_BIT {
            if b < SIGN_BIT {
                a > b
            } else {
                // `other` is negative or a negative zero
                a > 0 || b > SIGN_BIT
            }
        } else {
            if b < SIGN_BIT {
                false
            } else {
                a < b
            }
        }
    }

    /// Tells whether `self` and `other` stand at the same place on the number
    /// line: the same pattern, or two zeros of different sign.
    pub fn ties_with(self, other: Rating) -> (r: bool)
        ensures
            r == (self.rank() == other.rank()),
    {
        let a = self.bits;
        let b = other.bits;
        a == b || ((a == 0 || a == SIGN_BIT) && (b == 0 || b == SIGN_BIT))
    }
}

} // verus!
