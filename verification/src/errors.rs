//! Error kinds reported by the pipeline stages.

use vstd::prelude::*;

verus! {

/// Everything that can go wrong between a decoded sample stream and the
/// finished output stream. Decode and encode failures belong to the
/// surrounding program, which owns the files; the library only ever sees
/// plain sample values.
#[derive(Clone, Copy, Debug, PartialEq, Eq, Structural)]
pub enum MixError {
    /// The decoded sample stream was empty or malformed (for stereo input,
    /// an interleaved stream with a dangling half frame).
    EmptyTrack,
    /// The decoded stream claims more than two channels.
    UnsupportedChannelLayout,
    /// No periodic onsets were found, so the track's tempo is unknown.
    /// Recoverable: the transition engine falls back to a unit tempo ratio.
    TempoUndetected,
    /// The requested fade window does not fit inside both tracks.
    FadeWindowExceedsTrack,
    /// A requested resampling ratio lies outside the supported band.
    ResampleRangeError,
    /// The input handed to the resampler is shorter than its minimum
    /// processing unit.
    ChunkTooShort,
}

} // verus!
