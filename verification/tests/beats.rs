use djmix::errors::MixError;
use djmix::frame::Frame;
use djmix::tempo::estimate_tempo;
use djmix::track::Track;

fn click_track(seconds: usize, rate: u32, interval: usize, amp: i16) -> Track {
    let len = seconds * rate as usize;
    let mut frames = vec![Frame { left: 0, right: 0 }; len];
    let mut start: usize = 0;
    while start < len {
        for t in start..(start + 64).min(len) {
            frames[t] = Frame { left: amp, right: amp };
        }
        start += interval;
    }
    Track { frames, rate }
}

#[test]
fn click_track_at_half_second_intervals_reads_near_120_bpm() {
    let t = click_track(30, 44100, 22050, 12000);
    let e = estimate_tempo(&t);
    assert!(
        118_000 <= e.bpm_milli && e.bpm_milli <= 122_000,
        "estimated {} milli-bpm",
        e.bpm_milli
    );
    assert_eq!(e.onsets, 60);
    assert_eq!(e.bpm_milli, 120_000, "sixty onsets in thirty seconds is exactly 120 bpm");
}

#[test]
fn amplitude_scaling_does_not_change_the_estimate() {
    let quiet = click_track(30, 44100, 22050, 9000);
    let loud = Track {
        frames: quiet
            .frames
            .iter()
            .map(|f| Frame { left: f.left * 2, right: f.right * 2 })
            .collect(),
        rate: quiet.rate,
    };
    let eq = estimate_tempo(&quiet);
    let el = estimate_tempo(&loud);
    assert_eq!(eq.bpm_milli, el.bpm_milli);
    assert_eq!(eq.onsets, el.onsets);
}

#[test]
fn silence_has_no_tempo() {
    let t = Track {
        frames: vec![Frame { left: 0, right: 0 }; 4096],
        rate: 44100,
    };
    let e = estimate_tempo(&t);
    assert_eq!(e.onsets, 0);
    assert_eq!(e.bpm_milli, 0);
    assert_eq!(e.detected_bpm_milli().unwrap_err(), MixError::TempoUndetected);
}

#[test]
fn a_track_shorter_than_one_window_yields_no_tempo() {
    let t = Track {
        frames: vec![Frame { left: 500, right: 500 }; 512],
        rate: 44100,
    };
    let e = estimate_tempo(&t);
    assert_eq!(e.bpm_milli, 0);
}

#[test]
fn the_estimate_is_deterministic() {
    let t = click_track(10, 44100, 22050, 7000);
    let first = estimate_tempo(&t);
    let second = estimate_tempo(&t);
    assert_eq!(first, second);
}
