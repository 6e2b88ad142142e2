use djmix::envelope::blend_frame;
use djmix::envelope::envelope_gains;
use djmix::envelope::EnvelopePolicy;
use djmix::errors::MixError;
use djmix::frame::Frame;
use djmix::track::normalize;

#[test]
fn normalize_mono_duplicates_channel() {
    let samples: Vec<i16> = vec![5, -6, 7];
    let t = normalize(&samples, 1, 44100).unwrap();
    assert_eq!(t.rate, 44100);
    assert_eq!(t.frames.len(), 3);
    assert_eq!(t.frames[0], Frame { left: 5, right: 5 });
    assert_eq!(t.frames[1], Frame { left: -6, right: -6 });
    assert_eq!(t.frames[2], Frame { left: 7, right: 7 });
}

#[test]
fn normalize_stereo_pairs_interleaved_samples() {
    let samples: Vec<i16> = vec![1, 2, -3, 4];
    let t = normalize(&samples, 2, 48000).unwrap();
    assert_eq!(t.rate, 48000);
    assert_eq!(t.frames.len(), 2);
    assert_eq!(t.frames[0], Frame { left: 1, right: 2 });
    assert_eq!(t.frames[1], Frame { left: -3, right: 4 });
}

#[test]
fn normalize_empty_stream_is_empty_track_error() {
    let samples: Vec<i16> = vec![];
    assert_eq!(normalize(&samples, 1, 44100).unwrap_err(), MixError::EmptyTrack);
}

#[test]
fn normalize_dangling_stereo_half_frame_is_empty_track_error() {
    let samples: Vec<i16> = vec![1, 2, 3];
    assert_eq!(normalize(&samples, 2, 44100).unwrap_err(), MixError::EmptyTrack);
}

#[test]
fn normalize_rejects_unsupported_channel_layouts() {
    let samples: Vec<i16> = vec![1, 2, 3, 4, 5, 6];
    assert_eq!(
        normalize(&samples, 3, 44100).unwrap_err(),
        MixError::UnsupportedChannelLayout
    );
    assert_eq!(
        normalize(&samples, 0, 44100).unwrap_err(),
        MixError::UnsupportedChannelLayout
    );
}

#[test]
fn linear_envelope_gains_sum_to_one() {
    let f: usize = 1000;
    for i in [0usize, 1, 250, 499, 500, 750, 999, 1000] {
        let (fo, fi) = envelope_gains(EnvelopePolicy::Linear, i, f);
        assert_eq!(fo + fi, 0x8000, "at step {i}");
    }
}

#[test]
fn equal_power_envelope_keeps_power_constant() {
    let f: usize = 1000;
    for i in 0..=f {
        let (fo, fi) = envelope_gains(EnvelopePolicy::EqualPower, i, f);
        let sum = (fo as u64) * (fo as u64) + (fi as u64) * (fi as u64);
        assert!(sum <= 0x4000_0000, "power above one at step {i}");
        assert!(sum >= 0x4000_0000 - 0x2_0004, "power dip at step {i}");
    }
}

#[test]
fn envelope_endpoints_are_exact_for_both_policies() {
    let f: usize = 777;
    for policy in [EnvelopePolicy::Linear, EnvelopePolicy::EqualPower] {
        assert_eq!(envelope_gains(policy, 0, f), (0x8000, 0));
        assert_eq!(envelope_gains(policy, f, f), (0, 0x8000));
    }
}

#[test]
fn blending_identical_frames_under_linear_gains_is_exact() {
    let x = Frame { left: 1234, right: -4321 };
    let f: usize = 10;
    for i in 0..=f {
        let (fo, fi) = envelope_gains(EnvelopePolicy::Linear, i, f);
        assert_eq!(blend_frame(x, x, fo, fi), x, "at step {i}");
    }
}

#[test]
fn a_mid_fade_linear_blend_has_its_exact_value() {
    // One step into a fade of four: fadeIn = 32768 / 4 = 8192, so the
    // anchor keeps 24576 / 32768 = 3/4 of its amplitude: 8000 * 3/4 = 6000.
    let (fo, fi) = envelope_gains(EnvelopePolicy::Linear, 1, 4);
    assert_eq!((fo, fi), (24576, 8192));
    let mixed = blend_frame(
        Frame { left: 8000, right: 8000 },
        Frame { left: 0, right: 0 },
        fo,
        fi,
    );
    assert_eq!(mixed, Frame { left: 6000, right: 6000 });
}

#[test]
fn blend_clips_summed_amplitudes_into_the_valid_band() {
    let loud = Frame { left: 32767, right: 32767 };
    let mixed = blend_frame(loud, loud, 0x8000, 0x8000);
    assert_eq!(mixed, Frame { left: 32767, right: 32767 });
    let deep = Frame { left: -32768, right: -32768 };
    let mixed_low = blend_frame(deep, deep, 0x8000, 0x8000);
    assert_eq!(mixed_low, Frame { left: -32768, right: -32768 });
}

#[test]
fn blend_weights_the_two_sides() {
    let a = Frame { left: 16384, right: 0 };
    let b = Frame { left: 0, right: -16384 };
    let mixed = blend_frame(a, b, 0x8000, 0);
    assert_eq!(mixed, a);
    let mixed_b = blend_frame(a, b, 0, 0x8000);
    assert_eq!(mixed_b, b);
}
