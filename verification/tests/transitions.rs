use djmix::engine::initial_ratio;
use djmix::engine::transition;
use djmix::envelope::EnvelopePolicy;
use djmix::errors::MixError;
use djmix::frame::Frame;
use djmix::ratio::Ratio;
use djmix::ratio::Schedule;
use djmix::track::Track;

fn flat_track(len: usize, left: i16, right: i16) -> Track {
    Track {
        frames: vec![Frame { left, right }; len],
        rate: 44100,
    }
}

#[test]
fn fade_window_must_fit_inside_the_anchor_track() {
    let a = flat_track(100, 100, 100);
    let b = flat_track(200, 100, 100);
    let r = transition(&a, &b, 100, EnvelopePolicy::Linear);
    assert_eq!(r.unwrap_err(), MixError::FadeWindowExceedsTrack);
}

#[test]
fn fade_window_must_fit_inside_the_continuation_track() {
    let a = flat_track(200, 100, 100);
    let b = flat_track(100, 100, 100);
    let r = transition(&a, &b, 150, EnvelopePolicy::Linear);
    assert_eq!(r.unwrap_err(), MixError::FadeWindowExceedsTrack);
}

#[test]
fn the_largest_fitting_fade_window_is_accepted() {
    let a = flat_track(100, 100, 100);
    let b = flat_track(100, 100, 100);
    let out = transition(&a, &b, 99, EnvelopePolicy::Linear).unwrap();
    assert_eq!(out.len(), 1 + 99 + 1);
}

#[test]
fn zero_fade_concatenates_the_tracks() {
    let a = flat_track(3, 10, 20);
    let b = flat_track(2, -30, -40);
    let out = transition(&a, &b, 0, EnvelopePolicy::EqualPower).unwrap();
    assert_eq!(out.len(), 5);
    assert_eq!(&out[..3], &a.frames[..]);
    assert_eq!(&out[3..], &b.frames[..]);
}

#[test]
fn identical_tracks_pass_through_a_linear_fade_unchanged() {
    let a = flat_track(5000, 1000, -500);
    let b = flat_track(5000, 1000, -500);
    let out = transition(&a, &b, 100, EnvelopePolicy::Linear).unwrap();
    assert_eq!(out.len(), 5000 + 5000 - 100);
    assert_eq!(&out[..5000], &a.frames[..], "the anchor must survive exactly");
    assert_eq!(&out[5000..], &a.frames[100..], "the tail is the continuation");
}

#[test]
fn undetected_tempo_falls_back_to_the_unit_ratio() {
    assert_eq!(initial_ratio(0, 120_000), Ratio { num: 1024, den: 1024 });
    assert_eq!(initial_ratio(120_000, 0), Ratio { num: 1024, den: 1024 });
}

#[test]
fn equal_tempos_give_the_unit_ratio() {
    assert_eq!(initial_ratio(120_000, 120_000), Ratio { num: 1024, den: 1024 });
}

#[test]
fn a_moderate_tempo_gap_rounds_onto_the_quantized_ratio() {
    // 132 bpm over 120 bpm is 1.1; on a denominator of 1024 the rounded
    // numerator is floor((2048 * 132000 + 120000) / 240000) = 1126.
    assert_eq!(initial_ratio(132_000, 120_000), Ratio { num: 1126, den: 1024 });
}

#[test]
fn extreme_tempo_ratios_are_clamped_into_the_supported_band() {
    assert_eq!(initial_ratio(1_200_000, 120_000), Ratio { num: 2048, den: 1024 });
    assert_eq!(initial_ratio(120_000, 1_200_000), Ratio { num: 512, den: 1024 });
}

#[test]
fn the_schedule_ends_exactly_at_the_unit_ratio() {
    let sch = Schedule::new(Ratio { num: 2048, den: 1024 }, 64);
    let last = sch.ratio_at(64);
    assert_eq!(last.num, last.den);
    let first = sch.ratio_at(0);
    assert_eq!(first.num, 2048 * 64);
    assert_eq!(first.den, 1024 * 64);
}

#[test]
fn the_schedule_walks_monotonically_toward_one() {
    let sch = Schedule::new(Ratio { num: 2048, den: 1024 }, 640);
    let mut prev = sch.ratio_at(0).num;
    for i in 1..=640usize {
        let cur = sch.ratio_at(i).num;
        assert!(cur <= prev, "ratio turned around at step {i}");
        prev = cur;
    }
}

#[test]
fn an_equal_power_fade_between_different_tracks_produces_the_documented_shape() {
    let a = flat_track(4000, 8000, 8000);
    let mut b = flat_track(4000, -8000, -8000);
    b.frames[0] = Frame { left: -7999, right: -7999 };
    let fade = 1000;
    let out = transition(&a, &b, fade, EnvelopePolicy::EqualPower).unwrap();
    assert_eq!(&out[..4000 - fade], &a.frames[..4000 - fade]);
    assert_eq!(out[4000 - fade], a.frames[0], "the fade opens fully on the anchor");
    assert_eq!(out.len(), 4000 + 4000 - fade);
}
