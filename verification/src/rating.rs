//! Ratings as integers.
//!
//! A rating is kept as the 64-bit pattern of an IEEE-754 double, so that a
//! stored value passes through the library unchanged, bit for bit. The order
//! of two ratings is read off the pattern: sign and magnitude.

use vstd::prelude::*;

verus! {

/// The pattern's sign bit.
pub const SIGN_BIT: u64 = 0x8000_0000_0000_0000;

/// The pattern of 5.0, the highest rating an operator may enter.
pub const FIVE: u64 = 0x4014_0000_0000_0000;

/// A rating, held as the bit pattern of a double.
#[derive(Clone, Copy, Debug, PartialEq, Eq, Structural)]
pub struct Rating {
    pub bits: u64,
}

impl Rating {
    /// The place of this rating in the order of all ratings: the magnitude
    /// bits as a number, negated when the sign bit is set. On the patterns of
    /// finite doubles this orders as the numbers do, and both zeros get 0.
    pub open spec fn rank(self) -> int {
        if self.bits < SIGN_BIT {
            self.bits as int
        } else {
            -(self.bits - SIGN_BIT)
        }
    }

    /// Whether the rating lies in the closed range from 0 to 5.
    pub open spec fn acceptable(self) -> bool {
        0 <= self.rank() <= FIVE
    }

    /// The rating with the given bit pattern.
    pub fn from_bits(bits: u64) -> (r: Rating)
        ensures
            r.bits == bits,
    {
        Rating { bits }
    }

    /// The bit pattern of the rating.
    pub fn to_bits(&self) -> (bits: u64)
        ensures
            bits == self.bits,
    {
        self.bits
    }

    /// The rank as a machine integer.
    pub fn key(&self) -> (k: i128)
        ensures
            k == self.rank(),
    {
        if self.bits < SIGN_BIT {
            self.bits as i128
        } else {
            -((self.bits - SIGN_BIT) as i128)
        }
    }

    /// Decides whether the rating lies in the closed range from 0 to 5.
    pub fn in_range(&self) -> (ok: bool)
        ensures
            ok == self.acceptable(),
    {
        self.bits <= FIVE || self.bits == SIGN_BIT
    }
}

/// Passes a rating that the operator typed: it is accepted if and only if
/// it lies in the closed range from 0 to 5, and then handed back as it is.
pub fn ask_for_review(candidate: Rating) -> (accepted: Option<Rating>)
    ensures
        accepted == if candidate.acceptable() {
            Some(candidate)
        } else {
            None::<Rating>
        },
{
    if candidate.in_range() {
        Some(candidate)
    } else {
        None
    }
}

} // verus!
