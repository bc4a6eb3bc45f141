//! The ratio of a surface's pixels to content's own.
use vstd::prelude::*;

verus! {

/// The bits of the float that is infinite. The floats above zero come in the order of their
/// bits, with this one behind all that are finite.
pub const INFINITE_RATIO: u32 = 0x7F80_0000;

/// A pixel ratio: a finite float above zero, by its bits. There is no other way to one than
/// the check of its bits.
#[derive(Clone, Copy, Debug, PartialEq, Eq, Structural)]
pub struct PixelRatio {
    bits: u32,
}

impl PixelRatio {
    #[verifier::type_invariant]
    spec fn inv(self) -> bool {
        0 < self.bits < INFINITE_RATIO
    }

    /// The bits of the float.
    pub closed spec fn spec_bits(self) -> u32 {
        self.bits
    }

    /// The ratio with those bits; none where the float is zero, negative, infinite or no
    /// number.
    pub fn new(bits: u32) -> (ratio: Option<PixelRatio>)
        ensures
            ratio is Some <==> 0 < bits < INFINITE_RATIO,
            ratio matches Some(r) ==> r.spec_bits() == bits,
    {
        if 0 < bits && bits < INFINITE_RATIO {
            Some(PixelRatio { bits })
        } else {
            None
        }
    }

    /// The bits of the float.
    pub fn bits(&self) -> (bits: u32)
        ensures
            bits == self.spec_bits(),
            0 < bits < INFINITE_RATIO,
    {
        proof {
            use_type_invariant(self);
        }
        self.bits
    }
}

/// A ratio is made of the bits of every finite float above zero, and of no others, and keeps
/// them.
pub proof fn law_which_ratios_there_are(bits: u32, ratio: Option<PixelRatio>)
    requires
        call_ensures(PixelRatio::new, (bits,), ratio),
    ensures
        ratio is Some == (0 < bits < 0x7F80_0000),
        ratio matches Some(r) ==> r.spec_bits() == bits,
{
}

} // verus!
