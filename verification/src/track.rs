//! Tracks and the frame normalizer.

use vstd::prelude::*;
use crate::errors::MixError;
use crate::frame::Frame;

verus! {

/// An ordered, finite sequence of canonical stereo frames together with the
/// sample rate they were decoded at. Built once by [`normalize`] and then
/// only read.
#[derive(Debug)]
pub struct Track {
    pub frames: Vec<Frame>,
    /// Samples per second, always positive.
    pub rate: u32,
}

impl Track {
    /// Well-formedness: a positive sample rate and at least one frame.
    /// [`normalize`] establishes this and nothing ever weakens it.
    pub open spec fn wf(self) -> bool {
        &&& self.rate >= 1
        &&& self.frames@.len() >= 1
    }
}

/// The frame the normalizer builds from one mono sample.
pub open spec fn mono_frame(s: i16) -> Frame {
    Frame { left: s, right: s }
}

/// The frame the normalizer builds from one interleaved stereo pair.
pub open spec fn stereo_frame(l: i16, r: i16) -> Frame {
    Frame { left: l, right: r }
}

/// Canonicalize a decoded PCM stream into a stereo [`Track`].
///
/// `samples` holds the decoded 16-bit amplitudes in program order; for two
/// channels they are interleaved left, right, left, right. Mono input is
/// duplicated into both channels; no stereo synthesis happens. The mapping
/// onto the normalized amplitude band is the identity on the stored i16
/// value, which stands for `value / 32768`.
pub fn normalize(samples: &Vec<i16>, channels: u16, rate: u32) -> (r: Result<Track, MixError>)
    requires
        rate >= 1,
    ensures
        r is Err <==> (channels == 0 || channels > 2 || samples@.len() == 0
            || (channels == 2 && samples@.len() % 2 != 0)),
        (channels == 0 || channels > 2) ==> r == Result::<Track, MixError>::Err(
            MixError::UnsupportedChannelLayout,
        ),
        (1 <= channels <= 2 && (samples@.len() == 0 || (channels == 2 && samples@.len() % 2 != 0)))
            ==> r == Result::<Track, MixError>::Err(MixError::EmptyTrack),
        r matches Ok(t) ==> {
            &&& t.wf()
            &&& t.rate == rate
            &&& (channels == 1 ==> t.frames@ =~= samples@.map_values(|s: i16| mono_frame(s)))
            &&& (channels == 2 ==> t.frames@.len() == samples@.len() / 2)
            &&& (channels == 2 ==> forall|i: int|
                0 <= i < t.frames@.len() ==> t.frames@[i] == stereo_frame(
                    samples@[2 * i],
                    samples@[2 * i + 1],
                ))
        },
{
    if channels == 0 || channels > 2 {
        return Err(MixError::UnsupportedChannelLayout);
    }
    if samples.len() == 0 {
        return Err(MixError::EmptyTrack);
    }
    if channels == 1 {
        let mut frames: Vec<Frame> = Vec::new();
        let mut i: usize = 0;
        while i < samples.len()
            invariant
                i <= samples@.len(),
                frames@.len() == i,
                forall|j: int| 0 <= j < i ==> frames@[j] == mono_frame(samples@[j]),
            decreases samples@.len() - i,
        {
            let s = samples[i];
            frames.push(Frame { left: s, right: s });
            i = i + 1;
        }
        assert(frames@ =~= samples@.map_values(|s: i16| mono_frame(s)));
        Ok(Track { frames, rate })
    } else {
        if samples.len() % 2 != 0 {
            return Err(MixError::EmptyTrack);
        }
        let total: usize = samples.len();
        let n = total / 2;
        let mut frames: Vec<Frame> = Vec::new();
        let mut i: usize = 0;
        while i < n
            invariant
                i <= n,
                total == samples@.len(),
                n == samples@.len() / 2,
                samples@.len() % 2 == 0,
                frames@.len() == i,
                forall|j: int|
                    0 <= j < i ==> frames@[j] == stereo_frame(samples@[2 * j], samples@[2 * j + 1]),
            decreases n - i,
        {
            assert(2 * i + 1 < samples@.len());
            let l = samples[2 * i];
            let r = samples[2 * i + 1];
            frames.push(Frame { left: l, right: r });
            i = i + 1;
        }
        Ok(Track { frames, rate })
    }
}

} // verus!
