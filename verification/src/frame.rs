//! The canonical stereo frame and the fixed-point amplitude model.

use vstd::prelude::*;

verus! {

/// A canonical stereo frame. Both channels are always present; mono source
/// material reaches this type with the single channel duplicated.
#[derive(Clone, Copy, Debug, PartialEq, Eq, Structural)]
pub struct Frame {
    pub left: i16,
    pub right: i16,
}

impl Frame {
    /// The downmixed (mono) value of a frame: the channel sum. This is twice
    /// the channel average; the factor of two is exact in integer arithmetic
    /// and cancels out of every relative-energy comparison downstream.
    pub open spec fn mono(self) -> int {
        self.left + self.right
    }
}

/// Clamp an amplitude to the representable i16 band. Summed, blended
/// amplitudes pass through this before they are stored in a frame.
pub open spec fn clip_amp(x: int) -> int {
    if x < -0x8000 {
        -0x8000
    } else if x > 0x7fff {
        0x7fff
    } else {
        x
    }
}

/// Executable clamp over a wide intermediate value.
pub fn clip_amp_i64(x: i64) -> (r: i16)
    ensures
        r as int == clip_amp(x as int),
{
    if x < -0x8000 {
        -0x8000
    } else if x > 0x7fff {
        0x7fff
    } else {
        x as i16
    }
}

} // verus!
