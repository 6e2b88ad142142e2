//! The transition engine.
//!
//! The engine walks three phases over the two tracks: before the fade it
//! emits the anchor track verbatim, across the fade window it blends the
//! anchor's tail with the continuation track resampled under the tempo
//! ratio schedule, and after the fade it emits the rest of the continuation
//! track verbatim, picking up right after the input the fade consumed.
//!
//! The ratio schedule is consumed in fixed sub-blocks of 64 output samples:
//! the ratio is held constant inside a block and refreshed at block
//! boundaries, so the resampling step never changes sample by sample.

use vstd::prelude::*;
use crate::errors::MixError;
use crate::frame::Frame;
use crate::track::Track;
use crate::ratio::Ratio;
use crate::ratio::Schedule;
use crate::ratio::sched_num;
use crate::ratio::sched_den;
use crate::ratio::lemma_sched_step_valid;
use crate::envelope::EnvelopePolicy;
use crate::envelope::fade_in_gain;
use crate::envelope::fade_out_gain;
use crate::envelope::blend_frame_spec;
use crate::envelope::envelope_gains;
use crate::envelope::blend_frame;
use crate::resample::frame_at;
use crate::resample::sample_at;
use crate::resample::MAX_INPUT;
use crate::tempo::estimate_tempo;
use crate::tempo::spec_bpm_milli;
use crate::tempo::onset_count;
use crate::tempo::refractory_gap;

verus! {

/// How many output samples share one ratio of the schedule.
pub const RATIO_BLOCK: usize = 64;

/// The initial resampling ratio from two tempo estimates, in thousandths
/// of a beat per minute each: the anchor tempo over the continuation
/// tempo, rounded onto a denominator of 1024 and clamped into the
/// supported band. If either tempo went undetected, the fallback is the
/// unit ratio: an envelope-only crossfade with no tempo correction.
pub open spec fn spec_initial_ratio(bpm_a: int, bpm_b: int) -> Ratio {
    if bpm_a == 0 || bpm_b == 0 {
        Ratio { num: 1024, den: 1024 }
    } else {
        let q = (2048 * bpm_a + bpm_b) / (2 * bpm_b);
        let qc = if q < 512 {
            512
        } else if q > 2048 {
            2048
        } else {
            q
        };
        Ratio { num: qc as u64, den: 1024 }
    }
}

/// Compute the initial ratio of a transition from the two tempo estimates.
pub fn initial_ratio(bpm_a: u64, bpm_b: u64) -> (r: Ratio)
    ensures
        r == spec_initial_ratio(bpm_a as int, bpm_b as int),
        r.valid(),
        r.num <= 0x1000,
        r.den <= 0x1000,
{
    if bpm_a == 0 || bpm_b == 0 {
        return Ratio { num: 1024, den: 1024 };
    }
    let q_wide: u128 = (2048 * (bpm_a as u128) + (bpm_b as u128)) / (2 * (bpm_b as u128));
    proof {
        assert(q_wide == (2048 * (bpm_a as int) + bpm_b) / (2 * (bpm_b as int))) by (nonlinear_arith)
            requires
                q_wide == ((2048 * (bpm_a as int) + bpm_b) as int) / ((2 * (bpm_b as int)) as int),
        ;
    }
    let qc: u64 = if q_wide < 512 {
        512
    } else if q_wide > 2048 {
        2048
    } else {
        q_wide as u64
    };
    Ratio { num: qc, den: 1024 }
}

/// Equal detected tempos give exactly the unit ratio: the rounding in the
/// quotient cannot push two equal tempos apart.
pub proof fn lemma_initial_ratio_unit(bpm: int)
    requires
        bpm >= 1,
    ensures
        spec_initial_ratio(bpm, bpm).num == spec_initial_ratio(bpm, bpm).den,
{
    assert((2048 * bpm + bpm) / (2 * bpm) == 1024) by (nonlinear_arith)
        requires
            bpm >= 1,
    ;
}

/// The index where the sub-block holding output sample `j` begins.
pub open spec fn fade_block(j: int) -> int {
    j - j % 64
}

/// The Q32 source advance per output sample while `j`'s sub-block plays:
/// the reciprocal of the block's ratio.
pub open spec fn step_of(sch: Schedule, j: int) -> int {
    (sched_den(sch) * 0x1_0000_0000) / sched_num(sch, fade_block(j))
}

/// The Q32 source position inside the continuation track when output
/// sample `j` of the fade window is produced.
pub open spec fn fade_pos(sch: Schedule, j: int) -> int
    decreases j,
{
    if j <= 0 {
        0
    } else {
        fade_pos(sch, j - 1) + step_of(sch, j - 1)
    }
}

/// Every step is at most two source samples, so the position cannot run
/// away from the output index.
pub proof fn lemma_step_bounds(sch: Schedule, j: int)
    requires
        sch.wf(),
        0 <= j < sch.fade,
    ensures
        1 <= step_of(sch, j) <= 0x2_0000_0000,
{
    assert(0 <= j % 64 <= j) by (nonlinear_arith)
        requires
            j >= 0,
    ;
    lemma_sched_step_valid(sch, fade_block(j));
    let d = sched_den(sch);
    let n = sched_num(sch, fade_block(j));
    assert(1 <= (d * 0x1_0000_0000) / n && (d * 0x1_0000_0000) / n
        <= 0x2_0000_0000) by (nonlinear_arith)
        requires
            1 <= d,
            1 <= n,
            2 * n >= d,
            n <= 2 * d,
            d <= 0x2000_0000_0000,
            n <= 0x2000_0000_0000,
    ;
}

/// The position grows by at most two source samples per output sample.
pub proof fn lemma_fade_pos_bounds(sch: Schedule, j: int)
    requires
        sch.wf(),
        0 <= j <= sch.fade,
    ensures
        0 <= fade_pos(sch, j) <= j * 0x2_0000_0000,
    decreases j,
{
    if j > 0 {
        lemma_fade_pos_bounds(sch, j - 1);
        lemma_step_bounds(sch, j - 1);
    }
}

/// One frame of the blended fade window: the anchor's tail frame under the
/// fade-out gain plus the schedule-resampled continuation frame under the
/// fade-in gain.
pub open spec fn fade_frame(
    a: Seq<Frame>,
    b: Seq<Frame>,
    sch: Schedule,
    policy: EnvelopePolicy,
    j: int,
) -> Frame {
    let fo = fade_out_gain(policy, j, sch.fade as int);
    let fi = fade_in_gain(policy, j, sch.fade as int);
    let bj = frame_at(b, fade_pos(sch, j) / 0x10000);
    blend_frame_spec(a[a.len() - sch.fade + j], bj, fo, fi)
}

/// How much continuation-track input the fade window consumed: the final
/// source position rounded up to whole samples, capped at the track's end.
pub open spec fn consumed_input(sch: Schedule, blen: int) -> int {
    let c = (fade_pos(sch, sch.fade as int) + 0xffff_ffff) / 0x1_0000_0000;
    if c <= blen {
        c
    } else {
        blen
    }
}

/// The whole output stream of one transition with a non-empty fade window.
pub open spec fn transition_output(
    a: Seq<Frame>,
    b: Seq<Frame>,
    sch: Schedule,
    policy: EnvelopePolicy,
) -> Seq<Frame> {
    a.take(a.len() - sch.fade) + Seq::new(
        sch.fade as nat,
        |j: int| fade_frame(a, b, sch, policy, j),
    ) + b.skip(consumed_input(sch, b.len() as int))
}

/// Produce the tempo-matched crossfade of two tracks.
///
/// The anchor `a` plays unmodified up to the fade window; across the
/// window the continuation `b` is resampled under a schedule that ramps
/// from the tempo ratio of the two tracks to exactly one and blended in
/// under the envelope; after the window `b` continues verbatim. A fade
/// that does not fit strictly inside both tracks is rejected before any
/// processing. An undetected tempo on either side falls back to the unit
/// ratio. A zero-length window degenerates to plain concatenation.
pub fn transition(a: &Track, b: &Track, fade: usize, policy: EnvelopePolicy) -> (r: Result<
    Vec<Frame>,
    MixError,
>)
    requires
        a.wf(),
        b.wf(),
        a.frames@.len() <= MAX_INPUT as int,
        b.frames@.len() <= MAX_INPUT as int,
    ensures
        r is Err <==> (fade >= a.frames@.len() || fade >= b.frames@.len()),
        r is Err ==> r == Result::<Vec<Frame>, MixError>::Err(MixError::FadeWindowExceedsTrack),
        fade == 0 ==> (r matches Ok(out) ==> out@ == a.frames@ + b.frames@),
        fade >= 1 ==> (r matches Ok(out) ==> ({
            let r0 = spec_initial_ratio(
                spec_bpm_milli(a.frames@, a.rate as int),
                spec_bpm_milli(b.frames@, b.rate as int),
            );
            let sch = Schedule { start: r0, fade };
            &&& sch.wf()
            &&& out@ == transition_output(a.frames@, b.frames@, sch, policy)
        })),
{
    let len_a: usize = a.frames.len();
    let len_b: usize = b.frames.len();
    if fade >= len_a || fade >= len_b {
        return Err(MixError::FadeWindowExceedsTrack);
    }
    let mut out: Vec<Frame> = Vec::new();
    let head: usize = len_a - fade;
    let mut i: usize = 0;
    while i < head
        invariant
            i <= head,
            head == len_a - fade,
            len_a == a.frames@.len(),
            out@.len() == i,
            forall|k: int| 0 <= k < i ==> out@[k] == a.frames@[k],
        decreases head - i,
    {
        let f = a.frames[i];
        out.push(f);
        i = i + 1;
    }
    if fade == 0 {
        let mut k: usize = 0;
        while k < len_b
            invariant
                k <= len_b,
                len_b == b.frames@.len(),
                len_a == a.frames@.len(),
                head == len_a,
                out@.len() == len_a + k,
                forall|v: int| 0 <= v < len_a ==> out@[v] == a.frames@[v],
                forall|v: int| 0 <= v < k ==> out@[len_a + v] == b.frames@[v],
            decreases len_b - k,
        {
            let f = b.frames[k];
            out.push(f);
            k = k + 1;
        }
        assert(out@ =~= a.frames@ + b.frames@);
        return Ok(out);
    }
    let ea = estimate_tempo(a);
    let eb = estimate_tempo(b);
    let r0 = initial_ratio(ea.bpm_milli, eb.bpm_milli);
    let sch = Schedule::new(r0, fade);
    let ghost ga = a.frames@;
    let ghost gb = b.frames@;
    let mut pos: u64 = 0;
    let mut step: u64 = 0x1_0000_0000;
    let mut j: usize = 0;
    while j < fade
        invariant
            j <= fade,
            1 <= fade <= 0x0800_0000,
            sch.wf(),
            sch.fade == fade,
            len_a == ga.len(),
            len_b == gb.len(),
            ga == a.frames@,
            gb == b.frames@,
            fade < len_a,
            fade < len_b,
            len_b <= MAX_INPUT as int,
            head == len_a - fade,
            out@.len() == head + j,
            forall|k: int| 0 <= k < head ==> out@[k] == ga[k],
            forall|k: int| 0 <= k < j ==> out@[head + k] == fade_frame(ga, gb, sch, policy, k),
            pos == fade_pos(sch, j as int),
            pos <= j * 0x2_0000_0000,
            j % 64 != 0 ==> step == step_of(sch, j as int),
        decreases fade - j,
    {
        if j % RATIO_BLOCK == 0 {
            let rj = sch.ratio_at(j);
            proof {
                lemma_sched_step_valid(sch, j as int);
                assert(j % 64 == 0 ==> fade_block(j as int) == j) by (nonlinear_arith)
                    requires
                        j >= 0,
                        j % 64 == 0,
                ;
                assert((rj.den as int) * 0x1_0000_0000 < 0x1_0000_0000_0000_0000_0000_0000)
                    by (nonlinear_arith)
                    requires
                        0 <= rj.den <= 0x2000_0000_0000,
                ;
            }
            let step_wide: u128 = ((rj.den as u128) * 0x1_0000_0000) / (rj.num as u128);
            proof {
                lemma_step_bounds(sch, j as int);
            }
            step = step_wide as u64;
        }
        proof {
            lemma_step_bounds(sch, j as int);
            lemma_fade_pos_bounds(sch, j as int);
        }
        let pos16: u64 = pos / 0x10000;
        let bf = sample_at(&b.frames, pos16);
        let g = envelope_gains(policy, j, fade);
        let af = a.frames[head + j];
        let mixed = blend_frame(af, bf, g.0, g.1);
        out.push(mixed);
        proof {
            assert((j + 1) % 64 != 0 ==> fade_block(j as int + 1) == fade_block(
                j as int,
            )) by (nonlinear_arith)
                requires
                    j >= 0,
            ;
        }
        pos = pos + step;
        j = j + 1;
    }
    let c_wide: u64 = (pos + 0xffff_ffff) / 0x1_0000_0000;
    let start_b: usize = if c_wide < len_b as u64 {
        c_wide as usize
    } else {
        len_b
    };
    let mut k: usize = start_b;
    while k < len_b
        invariant
            start_b <= k <= len_b,
            len_b == gb.len(),
            gb == b.frames@,
            out@.len() == head + fade + (k - start_b),
            forall|v: int| 0 <= v < head + fade ==> out@[v] == old_prefix(ga, gb, sch, policy, v),
            ga == a.frames@,
            head == len_a - fade,
            len_a == ga.len(),
            sch.fade == fade,
            forall|v: int|
                0 <= v < k - start_b ==> #[trigger] out@[head + fade + v] == gb[start_b + v],
        decreases len_b - k,
    {
        let f = b.frames[k];
        out.push(f);
        k = k + 1;
    }
    proof {
        assert(start_b == consumed_input(sch, len_b as int));
        let expected = transition_output(ga, gb, sch, policy);
        assert(expected.len() == head + fade + (len_b - start_b));
        assert forall|v: int| 0 <= v < out@.len() implies out@[v] == expected[v] by {
            if v < head {
                assert(out@[v] == ga[v]);
            } else if v < head + fade {
                assert(out@[v] == fade_frame(ga, gb, sch, policy, v - head));
            } else {
                let w = v - head - fade;
                assert(out@[head + fade + w] == gb[start_b + w]);
            }
        }
        assert(out@ =~= expected);
    }
    Ok(out)
}

/// Under a unit start ratio the schedule never leaves one: every step of
/// the fade advances the source position by exactly one sample.
pub proof fn lemma_unit_fade_pos(sch: Schedule, j: int)
    requires
        sch.wf(),
        sch.start.num == sch.start.den,
        0 <= j <= sch.fade,
    ensures
        fade_pos(sch, j) == j * 0x1_0000_0000,
        j < sch.fade ==> step_of(sch, j) == 0x1_0000_0000,
    decreases j,
{
    let ap = sch.start.num as int;
    let f = sch.fade as int;
    if j < sch.fade {
        assert(0 <= j % 64 <= j) by (nonlinear_arith)
            requires
                j >= 0,
        ;
        let blk = fade_block(j);
        assert(sched_num(sch, blk) == sched_den(sch) && sched_den(sch) >= 1) by (nonlinear_arith)
            requires
                sched_num(sch, blk) == ap * (f - blk) + ap * blk,
                sched_den(sch) == ap * f,
                1 <= ap,
                1 <= f,
                0 <= blk <= f,
        ;
        let d = sched_den(sch);
        assert((d * 0x1_0000_0000) / d == 0x1_0000_0000) by (nonlinear_arith)
            requires
                d >= 1,
        ;
    }
    if j > 0 {
        lemma_unit_fade_pos(sch, j - 1);
        assert(0 <= (j - 1) % 64 <= j - 1) by (nonlinear_arith)
            requires
                j >= 1,
        ;
        let blk = fade_block(j - 1);
        assert(sched_num(sch, blk) == sched_den(sch) && sched_den(sch) >= 1) by (nonlinear_arith)
            requires
                sched_num(sch, blk) == ap * (f - blk) + ap * blk,
                sched_den(sch) == ap * f,
                1 <= ap,
                1 <= f,
                0 <= blk <= f,
        ;
        let d = sched_den(sch);
        assert((d * 0x1_0000_0000) / d == 0x1_0000_0000) by (nonlinear_arith)
            requires
                d >= 1,
        ;
    }
}

/// Feeding a track into a transition with itself, a unit-ratio schedule
/// and the amplitude-preserving envelope reproduces the track exactly:
/// the output opens with the whole anchor, bit for bit, and continues with
/// the material after the fade window. The hypothesis that the window's
/// tail equals its head is what "blending an identical signal" needs: the
/// fade mixes the anchor's last frames with the continuation's first ones.
pub proof fn lemma_identical_transition(a: Seq<Frame>, sch: Schedule, policy: EnvelopePolicy)
    requires
        sch.wf(),
        sch.start.num == sch.start.den,
        policy == EnvelopePolicy::Linear,
        sch.fade < a.len(),
        forall|j: int| 0 <= j < sch.fade ==> #[trigger] a[a.len() - sch.fade + j] == a[j],
    ensures
        transition_output(a, a, sch, policy) == a + a.skip(sch.fade as int),
{
    let f = sch.fade as int;
    let n = a.len() as int;
    lemma_unit_fade_pos(sch, f);
    assert((f * 0x1_0000_0000 + 0xffff_ffff) / 0x1_0000_0000 == f) by (nonlinear_arith)
        requires
            f >= 0,
    ;
    assert(consumed_input(sch, n) == f);
    assert forall|j: int| 0 <= j < f implies fade_frame(a, a, sch, policy, j) == a[n - f + j] by {
        lemma_unit_fade_pos(sch, j);
        assert(fade_pos(sch, j) / 0x10000 == j * 0x10000) by (nonlinear_arith)
            requires
                fade_pos(sch, j) == j * 0x1_0000_0000,
                j >= 0,
        ;
        assert((j * 0x10000) / 0x10000 == j && (j * 0x10000) % 0x10000 == 0) by (nonlinear_arith)
            requires
                j >= 0,
        ;
        let bj = frame_at(a, j * 0x10000);
        assert((a[j].left as int) * 0x10000 / 0x10000 == a[j].left && (a[j].right as int) * 0x10000
            / 0x10000 == a[j].right) by (nonlinear_arith);
        assert(bj == a[j]);
        crate::envelope::lemma_linear_amplitude(j, f);
        crate::envelope::lemma_ramp_bounds(j, f);
        crate::envelope::lemma_blend_identity(
            a[j],
            fade_out_gain(policy, j, f),
            fade_in_gain(policy, j, f),
        );
    }
    let expected = a + a.skip(f);
    let actual = transition_output(a, a, sch, policy);
    assert(actual.len() == expected.len());
    assert forall|v: int| 0 <= v < actual.len() implies actual[v] == expected[v] by {
        if n - f <= v < n {
            assert(actual[v] == fade_frame(a, a, sch, policy, v - (n - f)));
        }
    }
    assert(actual =~= expected);
}

/// Handing one track to both sides of a transition with the
/// amplitude-preserving envelope reproduces the track exactly, under the
/// very schedule the engine builds: both tempo estimates are the same
/// value, so the initial ratio is one whether or not a tempo was detected,
/// and the unit schedule with linear gains changes no frame.
pub proof fn lemma_transition_of_identical(frames: Seq<Frame>, rate: int, fade: usize)
    requires
        rate >= 1,
        1 <= fade <= 0x0800_0000,
        fade < frames.len(),
        forall|j: int|
            0 <= j < fade ==> #[trigger] frames[frames.len() - fade + j] == frames[j],
    ensures
        ({
            let bpm = spec_bpm_milli(frames, rate);
            let sch = Schedule { start: spec_initial_ratio(bpm, bpm), fade };
            &&& sch.wf()
            &&& transition_output(frames, frames, sch, EnvelopePolicy::Linear) == frames
                + frames.skip(fade as int)
        }),
{
    let bpm = spec_bpm_milli(frames, rate);
    let r0 = spec_initial_ratio(bpm, bpm);
    if bpm != 0 {
        crate::tempo::lemma_onsets_bounded(frames, refractory_gap(rate), frames.len() as int / 1024);
        let cnt = onset_count(frames, refractory_gap(rate));
        assert(bpm >= 0) by (nonlinear_arith)
            requires
                bpm == (60000 * cnt * rate) / (frames.len() as int),
                cnt >= 0,
                rate >= 1,
                frames.len() >= 1,
        ;
        lemma_initial_ratio_unit(bpm);
    }
    assert(r0.num == r0.den);
    assert(r0.valid() && r0.num <= 0x1000 && r0.den <= 0x1000);
    let sch = Schedule { start: r0, fade };
    lemma_identical_transition(frames, sch, EnvelopePolicy::Linear);
}

/// What the first two phases have put into the stream at index `v`: an
/// anchor frame before the fade window, a blended frame inside it.
pub open spec fn old_prefix(
    a: Seq<Frame>,
    b: Seq<Frame>,
    sch: Schedule,
    policy: EnvelopePolicy,
    v: int,
) -> Frame {
    if v < a.len() - sch.fade {
        a[v]
    } else {
        fade_frame(a, b, sch, policy, v - (a.len() - sch.fade))
    }
}

} // verus!
