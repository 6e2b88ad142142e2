use djmix::errors::MixError;
use djmix::frame::Frame;
use djmix::ratio::Ratio;
use djmix::resample::resample;

fn sine_track(n: usize, period: f64, amp: f64) -> Vec<Frame> {
    let mut v = Vec::with_capacity(n);
    for i in 0..n {
        let s = (amp * (2.0 * std::f64::consts::PI * (i as f64) / period).sin()) as i16;
        v.push(Frame { left: s, right: s });
    }
    v
}

#[test]
fn constant_ratio_length_is_the_rounded_product() {
    let frames = sine_track(1000, 50.0, 8000.0);
    let up = resample(&frames, Ratio { num: 3, den: 2 }).unwrap();
    assert_eq!(up.len(), 1500);
    let down = resample(&frames, Ratio { num: 1, den: 2 }).unwrap();
    assert_eq!(down.len(), 500);
    let frames_odd = sine_track(1001, 50.0, 8000.0);
    let down_odd = resample(&frames_odd, Ratio { num: 1, den: 2 }).unwrap();
    assert_eq!(down_odd.len(), 501);
}

#[test]
fn unit_ratio_resampling_is_the_identity() {
    let frames = sine_track(400, 37.0, 12000.0);
    let out = resample(&frames, Ratio { num: 5, den: 5 }).unwrap();
    assert_eq!(out, frames);
}

#[test]
fn out_of_band_ratio_is_a_range_error() {
    let frames = sine_track(100, 50.0, 8000.0);
    assert_eq!(
        resample(&frames, Ratio { num: 3, den: 1 }).unwrap_err(),
        MixError::ResampleRangeError
    );
    assert_eq!(
        resample(&frames, Ratio { num: 0, den: 1 }).unwrap_err(),
        MixError::ResampleRangeError
    );
    assert_eq!(
        resample(&frames, Ratio { num: 1, den: 0 }).unwrap_err(),
        MixError::ResampleRangeError
    );
}

#[test]
fn input_below_the_minimum_chunk_is_rejected() {
    let one = vec![Frame { left: 9, right: 9 }];
    assert_eq!(
        resample(&one, Ratio { num: 1, den: 1 }).unwrap_err(),
        MixError::ChunkTooShort
    );
}

#[test]
fn round_trip_restores_length_and_amplitude() {
    let frames = sine_track(1000, 50.0, 8000.0);
    let there = resample(&frames, Ratio { num: 3, den: 2 }).unwrap();
    let back = resample(&there, Ratio { num: 2, den: 3 }).unwrap();
    let diff = (back.len() as i64) - (frames.len() as i64);
    assert!(diff.abs() <= 2, "length drifted by {diff}");
    let n = back.len().min(frames.len());
    let mut acc = 0.0f64;
    for i in 0..n {
        let e = (back[i].left as f64 - frames[i].left as f64) / 32768.0;
        acc += e * e;
    }
    let rms = (acc / n as f64).sqrt();
    assert!(rms < 0.05, "round-trip rms error {rms}");
}
