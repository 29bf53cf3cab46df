//! Settings shared by the whole application.
use vstd::prelude::*;

verus! {

/// Pattern of positive infinity in double precision; every larger magnitude is a NaN.
pub const INFINITY_BITS_64: u64 = 0x7ff0_0000_0000_0000;

/// Mask of the bits of a double-precision pattern that are not the sign.
pub const MAGNITUDE_MASK_64: u64 = 0x7fff_ffff_ffff_ffff;

/// Pattern of the double-precision number 10.
pub const TEN_BITS_64: u64 = 0x4024_0000_0000_0000;

/// Whether a double-precision pattern stands for a finite number.
pub open spec fn finite_bits_64(bits: u64) -> bool {
    bits & MAGNITUDE_MASK_64 < INFINITY_BITS_64
}

/// Holds the playback speed, frames per second, as the bit pattern of a
/// double-precision number.
#[derive(Clone, Copy, Debug, PartialEq, Eq, Structural)]
pub struct GlobalHolder {
    pub fps: u64,
}

impl Default for GlobalHolder {
    fn default() -> (r: GlobalHolder)
        ensures
            r.fps == 0,
    {
        GlobalHolder { fps: 0 }
    }
}

impl GlobalHolder {
    /// A holder whose speed is zero.
    pub fn new() -> (r: GlobalHolder)
        ensures
            r.fps == 0,
    {
        GlobalHolder { fps: 0 }
    }

    /// Sets the speed. A value that is not a finite number sets ten frames
    /// per second.
    pub fn set_fps(&mut self, value: u64)
        ensures
            final(self).fps == if finite_bits_64(value) {
                value
            } else {
                TEN_BITS_64
            },
    {
        self.fps = if (value & MAGNITUDE_MASK_64) < INFINITY_BITS_64 {
            value
        } else {
            TEN_BITS_64
        };
    }

    /// The speed.
    pub fn fps(&self) -> (r: u64)
        ensures
            r == self.fps,
    {
        self.fps
    }
}

/// A double-precision pattern is finite exactly when its eleven exponent bits
/// are not all set.
pub proof fn lemma_finite_by_exponent_64(bits: u64)
    ensures
        finite_bits_64(bits) <==> (bits >> 52) & 0x7ff != 0x7ff,
{
    assert((bits & 0x7fff_ffff_ffff_ffff < 0x7ff0_0000_0000_0000) <==> (bits >> 52) & 0x7ff
        != 0x7ff) by (bit_vector);
}

} // verus!
