//! One normalised mono amplitude, held as an IEEE-754 binary32 bit pattern.

use vstd::prelude::*;

verus! {

/// The sign bit of a binary32 pattern.
pub const SIGN_BIT: u32 = 0x8000_0000;

/// The pattern of `1.0`.
pub const ONE_BITS: u32 = 0x3F80_0000;

/// The pattern of `-1.0`.
pub const MINUS_ONE_BITS: u32 = 0xBF80_0000;

/// The pattern of positive infinity; every larger magnitude is a NaN.
pub const INFINITY_BITS: u32 = 0x7F80_0000;

/// The pattern with its sign bit cleared: the pattern of the absolute value.
pub open spec fn magnitude(bits: u32) -> int {
    if bits >= 0x8000_0000 {
        bits - 0x8000_0000
    } else {
        bits as int
    }
}

/// Whether the sign bit is set.
pub open spec fn is_negative(bits: u32) -> bool {
    bits >= 0x8000_0000
}

/// Whether the pattern denotes a number in the closed range from -1.0 to 1.0.
///
/// Non-negative binary32 numbers are ordered as their patterns are, and
/// infinities and NaNs have the largest magnitudes of all, so the number lies
/// in the range exactly when its magnitude is at most the pattern of 1.0.
pub open spec fn in_unit_range(bits: u32) -> bool {
    magnitude(bits) <= 0x3F80_0000
}

/// Whether the pattern denotes a NaN.
pub open spec fn is_nan(bits: u32) -> bool {
    magnitude(bits) > 0x7F80_0000
}

/// The nearest pattern in the unit range: a pattern in range stays as it is,
/// a larger finite or infinite one becomes 1.0 with its sign kept, and a NaN
/// becomes silence.
pub open spec fn clamp_to_unit(bits: u32) -> u32 {
    if in_unit_range(bits) {
        bits
    } else if is_nan(bits) {
        0
    } else if is_negative(bits) {
        0xBF80_0000
    } else {
        0x3F80_0000
    }
}

/// A normalised amplitude. Its pattern always denotes a number in the unit
/// range.
#[derive(Clone, Copy, Debug, PartialEq, Eq)]
pub struct Sample {
    bits: u32,
}

impl Sample {
    #[verifier::type_invariant]
    spec fn normalised(self) -> bool {
        in_unit_range(self.bits)
    }

    /// The binary32 pattern of this sample.
    pub closed spec fn bits(self) -> u32 {
        self.bits
    }

    /// Silence: positive zero.
    pub fn zero() -> (s: Sample)
        ensures
            s.bits() == 0,
    {
        Sample { bits: 0 }
    }

    /// The sample with the given pattern, if that pattern is in the unit range.
    pub fn from_bits(bits: u32) -> (r: Option<Sample>)
        ensures
            r.is_some() <==> in_unit_range(bits),
            r.is_some() ==> r.unwrap().bits() == bits,
    {
        let mag: u32 = if bits >= SIGN_BIT { bits - SIGN_BIT } else { bits };
        if mag <= ONE_BITS {
            Some(Sample { bits })
        } else {
            None
        }
    }

    /// The sample with the given pattern, which lies in the unit range.
    pub(crate) fn from_unit_bits(bits: u32) -> (s: Sample)
        requires
            in_unit_range(bits),
        ensures
            s.bits() == bits,
    {
        Sample { bits }
    }

    /// The sample nearest to the number that the pattern denotes.
    pub fn clamped(bits: u32) -> (s: Sample)
        ensures
            s.bits() == clamp_to_unit(bits),
    {
        let mag: u32 = if bits >= SIGN_BIT { bits - SIGN_BIT } else { bits };
        if mag <= ONE_BITS {
            Sample { bits }
        } else if mag > INFINITY_BITS {
            Sample { bits: 0 }
        } else if bits >= SIGN_BIT {
            Sample { bits: MINUS_ONE_BITS }
        } else {
            Sample { bits: ONE_BITS }
        }
    }

    /// The binary32 pattern of this sample.
    pub fn to_bits(self) -> (bits: u32)
        ensures
            bits == self.bits(),
            in_unit_range(bits),
    {
        proof {
            use_type_invariant(self);
        }
        self.bits
    }
}

/// The patterns of a sequence of samples, in order.
pub open spec fn patterns(samples: Seq<Sample>) -> Seq<u32> {
    Seq::new(samples.len(), |i: int| samples[i].bits())
}

/// The patterns of two sequences joined are their patterns joined.
pub proof fn lemma_patterns_concat(front: Seq<Sample>, back: Seq<Sample>)
    ensures
        patterns(front + back) == patterns(front) + patterns(back),
{
    assert(patterns(front + back) =~= patterns(front) + patterns(back));
}

} // verus!
