//! Distances, held as the bit pattern of a double and ordered as doubles are.
//!
//! A binary64 pattern has a sign bit above 63 bits of magnitude. Magnitudes
//! up to that of infinity order as the numbers they stand for; larger ones
//! are not a number and compare with nothing. The two zeros are equal.

use vstd::prelude::*;

verus! {

/// The sign bit of a binary64 pattern.
pub const SIGN_BIT: u64 = 0x8000_0000_0000_0000;

/// The magnitude of infinity: every larger magnitude is not a number.
pub const INFINITY_BITS: u64 = 0x7ff0_0000_0000_0000;

/// A length in metres, as the bits of an IEEE 754 binary64 value.
#[derive(Clone, Copy, Debug, PartialEq, Eq, Structural)]
pub struct Meters {
    pub bits: u64,
}

impl Meters {
    /// The bits without the sign.
    pub open spec fn magnitude(self) -> int {
        if self.bits >= SIGN_BIT {
            self.bits - SIGN_BIT
        } else {
            self.bits as int
        }
    }

    /// Whether the bits stand for no number.
    pub open spec fn is_nan(self) -> bool {
        self.magnitude() > INFINITY_BITS
    }

    /// The place of the value among all values: the magnitude, negated
    /// under a sign bit. Values that are numbers order as their ranks do.
    pub open spec fn rank(self) -> int {
        if self.bits >= SIGN_BIT {
            -self.magnitude()
        } else {
            self.magnitude()
        }
    }

    /// Whether `self` is at most `limit`: both are numbers, and `self` is
    /// the smaller one or equal.
    pub open spec fn spec_at_most(self, limit: Meters) -> bool {
        !self.is_nan() && !limit.is_nan() && self.rank() <= limit.rank()
    }

    /// Whether `self` is at most `limit`, as `<=` on doubles decides it.
    #[verifier::when_used_as_spec(spec_at_most)]
    pub fn at_most(self, limit: Meters) -> (r: bool)
        ensures
            r == self.spec_at_most(limit),
    {
        let negative = self.bits >= SIGN_BIT;
        let limit_negative = limit.bits >= SIGN_BIT;
        let magnitude: u64 = if negative {
            self.bits - SIGN_BIT
        } else {
            self.bits
        };
        let limit_magnitude: u64 = if limit_negative {
            limit.bits - SIGN_BIT
        } else {
            limit.bits
        };
        if magnitude > INFINITY_BITS || limit_magnitude > INFINITY_BITS {
            false
        } else if negative {
            !limit_negative || magnitude >= limit_magnitude
        } else if limit_negative {
            magnitude == 0 && limit_magnitude == 0
        } else {
            magnitude <= limit_magnitude
        }
    }
}

/// Among numbers the order is total: of two, one is at most the other.
pub proof fn lemma_order_is_total(a: Meters, b: Meters)
    requires
        !a.is_nan(),
        !b.is_nan(),
    ensures
        a.at_most(b) || b.at_most(a),
{
}

/// The order is transitive.
pub proof fn lemma_order_is_transitive(a: Meters, b: Meters, c: Meters)
    requires
        a.at_most(b),
        b.at_most(c),
    ensures
        a.at_most(c),
{
}

/// What is not a number is at most nothing, and nothing is at most it.
pub proof fn lemma_nan_is_unordered(a: Meters, b: Meters)
    requires
        a.is_nan(),
    ensures
        !a.at_most(b),
        !b.at_most(a),
{
}

} // verus!
