//! The tempo estimator.
//!
//! The track is downmixed to mono, partitioned into fixed windows of 1024
//! samples, and each window gets an energy value. A window is an onset when
//! its energy more than doubles the previous window's (the first window,
//! when it carries any energy at all). Onsets closer together than a
//! refractory period of 0.3 s are not counted twice. The estimate is
//! `60000 * onsets * rate / length` in thousandths of a beat per minute;
//! zero means no tempo was detected.
//!
//! The downmix uses the channel sum, which is the channel average scaled by
//! an exact factor of two; every onset decision is a relative-energy
//! comparison, so the factor cancels and the integer arithmetic stays
//! exact. The estimator is deterministic and, because all its decisions are
//! relative, invariant under exact amplitude scaling.

use vstd::prelude::*;
use crate::errors::MixError;
use crate::frame::Frame;
use crate::track::Track;

verus! {

/// The energy of `len` frames starting at `start`: the sum of the squared
/// mono values.
pub open spec fn energy_range(s: Seq<Frame>, start: int, len: int) -> int
    decreases len,
{
    if len <= 0 {
        0
    } else {
        energy_range(s, start, len - 1) + s[start + len - 1].mono() * s[start + len - 1].mono()
    }
}

/// The energy of analysis window `w`.
pub open spec fn win_energy(s: Seq<Frame>, w: int) -> int {
    energy_range(s, w * 1024, 1024)
}

/// Whether analysis window `w` is an onset: its energy more than doubles
/// the previous window's, or, for the very first window, is non-zero.
pub open spec fn onset_at(s: Seq<Frame>, w: int) -> bool {
    if w == 0 {
        win_energy(s, 0) > 0
    } else {
        win_energy(s, w) > 2 * win_energy(s, w - 1)
    }
}

/// The refractory period, in windows: at least 0.3 s of the given sample
/// rate, rounded up to whole windows.
pub open spec fn refractory_gap(rate: int) -> int {
    (3 * rate + 10239) / 10240
}

/// The onset-counting state after the first `w` windows: the count so far
/// and the first window index at which another onset may be counted.
pub open spec fn onsets_rec(s: Seq<Frame>, gap: int, w: int) -> (int, int)
    decreases w,
{
    if w <= 0 {
        (0, 0)
    } else {
        let prev = onsets_rec(s, gap, w - 1);
        if onset_at(s, w - 1) && w - 1 >= prev.1 {
            (prev.0 + 1, w - 1 + gap)
        } else {
            prev
        }
    }
}

/// How many onsets the whole track has, honouring the refractory period.
pub open spec fn onset_count(s: Seq<Frame>, gap: int) -> int {
    onsets_rec(s, gap, s.len() as int / 1024).0
}

/// The tempo estimate for a frame sequence at a sample rate, in
/// thousandths of a beat per minute.
pub open spec fn spec_bpm_milli(s: Seq<Frame>, rate: int) -> int {
    (60000 * onset_count(s, refractory_gap(rate)) * rate) / (s.len() as int)
}

/// A tempo estimate: thousandths of a beat per minute, plus the onset
/// count it came from as its implicit confidence. A value of zero means
/// the tempo is undetected.
#[derive(Clone, Copy, Debug, PartialEq, Eq, Structural)]
pub struct TempoEstimate {
    pub bpm_milli: u64,
    pub onsets: usize,
}

impl TempoEstimate {
    /// Whether any tempo was detected at all.
    pub open spec fn detected(self) -> bool {
        self.bpm_milli > 0
    }

    /// The detected tempo, or the explicit `TempoUndetected` error that
    /// callers recover from with a unit tempo ratio.
    pub fn detected_bpm_milli(&self) -> (r: Result<u64, MixError>)
        ensures
            self.detected() ==> r == Result::<u64, MixError>::Ok(self.bpm_milli),
            !self.detected() ==> r == Result::<u64, MixError>::Err(MixError::TempoUndetected),
    {
        if self.bpm_milli > 0 {
            Ok(self.bpm_milli)
        } else {
            Err(MixError::TempoUndetected)
        }
    }
}

/// Energies are sums of squares: non-negative, and bounded by the frame
/// count times the largest mono square.
pub proof fn lemma_energy_bounds(s: Seq<Frame>, start: int, len: int)
    requires
        len >= 0,
    ensures
        0 <= energy_range(s, start, len) <= len * 0x1_0000_0000,
    decreases len,
{
    if len > 0 {
        lemma_energy_bounds(s, start, len - 1);
        let m = s[start + len - 1].mono();
        assert(0 <= m * m <= 0x1_0000_0000) by (nonlinear_arith)
            requires
                -0x1_0000 <= m <= 0xfffe,
        ;
    }
}

/// The onset count never exceeds the number of windows inspected.
pub proof fn lemma_onsets_bounded(s: Seq<Frame>, gap: int, w: int)
    requires
        w >= 0,
    ensures
        0 <= onsets_rec(s, gap, w).0 <= w,
    decreases w,
{
    if w > 0 {
        lemma_onsets_bounded(s, gap, w - 1);
    }
}

/// Whether `b` is `a` with every amplitude scaled exactly by `c`. Since
/// both sequences hold i16 amplitudes, this can only hold when no scaled
/// value clips.
pub open spec fn scaled_frames(a: Seq<Frame>, b: Seq<Frame>, c: int) -> bool {
    &&& a.len() == b.len()
    &&& forall|i: int|
        0 <= i < a.len() ==> b[i].left == c * a[i].left && b[i].right == c * a[i].right
}

/// Scaling every amplitude by `c` scales every range energy by `c * c`.
pub proof fn lemma_energy_scales(a: Seq<Frame>, b: Seq<Frame>, c: int, start: int, len: int)
    requires
        scaled_frames(a, b, c),
        0 <= start,
        0 <= len,
        start + len <= a.len(),
    ensures
        energy_range(b, start, len) == c * c * energy_range(a, start, len),
    decreases len,
{
    if len <= 0 {
        assert(c * c * 0 == 0) by (nonlinear_arith);
    } else {
        lemma_energy_scales(a, b, c, start, len - 1);
        let i = start + len - 1;
        let m = a[i].mono();
        assert(b[i].mono() == c * m) by (nonlinear_arith)
            requires
                b[i].left == c * a[i].left,
                b[i].right == c * a[i].right,
                m == a[i].left + a[i].right,
                b[i].mono() == b[i].left + b[i].right,
        ;
        assert((c * m) * (c * m) == c * c * (m * m)) by (nonlinear_arith);
        assert(c * c * energy_range(a, start, len - 1) + c * c * (m * m) == c * c * (energy_range(
            a,
            start,
            len - 1,
        ) + m * m)) by (nonlinear_arith);
    }
}

/// Scaling every amplitude by a positive constant changes no onset
/// decision: every comparison the counter makes is relative.
pub proof fn lemma_onsets_scale(a: Seq<Frame>, b: Seq<Frame>, c: int, gap: int, w: int)
    requires
        scaled_frames(a, b, c),
        c >= 1,
        0 <= w,
        w * 1024 <= a.len(),
    ensures
        onsets_rec(b, gap, w) == onsets_rec(a, gap, w),
    decreases w,
{
    if w > 0 {
        assert((w - 1) * 1024 >= 0 && (w - 1) * 1024 + 1024 == w * 1024 && (w >= 2 ==> (w - 2)
            * 1024 + 1024 == (w - 1) * 1024 && (w - 2) * 1024 >= 0)) by (nonlinear_arith)
            requires
                w >= 1,
        ;
        lemma_onsets_scale(a, b, c, gap, w - 1);
        lemma_energy_scales(a, b, c, (w - 1) * 1024, 1024);
        lemma_energy_bounds(a, (w - 1) * 1024, 1024);
        if w - 1 == 0 {
            assert(c * c * win_energy(a, 0) > 0 <==> win_energy(a, 0) > 0) by (nonlinear_arith)
                requires
                    c >= 1,
                    win_energy(a, 0) >= 0,
            ;
        } else {
            lemma_energy_scales(a, b, c, (w - 2) * 1024, 1024);
            assert(c * c * win_energy(a, w - 1) > 2 * (c * c * win_energy(a, w - 2)) <==>
                win_energy(a, w - 1) > 2 * win_energy(a, w - 2)) by (nonlinear_arith)
                requires
                    c >= 1,
            ;
        }
    }
}

/// The tempo estimate is invariant under exact amplitude scaling: a track
/// whose every amplitude is `c` times another's gets the same estimate.
pub proof fn lemma_tempo_scale_invariant(a: Seq<Frame>, b: Seq<Frame>, c: int, rate: int)
    requires
        scaled_frames(a, b, c),
        c >= 1,
        a.len() >= 1,
    ensures
        onset_count(b, refractory_gap(rate)) == onset_count(a, refractory_gap(rate)),
        spec_bpm_milli(b, rate) == spec_bpm_milli(a, rate),
{
    let nwin = a.len() as int / 1024;
    assert(nwin * 1024 <= a.len() && nwin >= 0) by (nonlinear_arith)
        requires
            nwin == a.len() as int / 1024,
            a.len() >= 1,
    ;
    lemma_onsets_scale(a, b, c, refractory_gap(rate), nwin);
}

/// Estimate the tempo of a track.
///
/// Deterministic: the estimate is a pure function of the frame sequence
/// and the sample rate. A silent or onset-free track yields zero, which
/// stands for an undetected tempo.
pub fn estimate_tempo(t: &Track) -> (e: TempoEstimate)
    requires
        t.wf(),
    ensures
        e.onsets == onset_count(t.frames@, refractory_gap(t.rate as int)),
        e.bpm_milli == spec_bpm_milli(t.frames@, t.rate as int),
        e.onsets == 0 ==> e.bpm_milli == 0,
{
    let s = &t.frames;
    let len: usize = s.len();
    let nwin: usize = len / 1024;

    let mut energies: Vec<u64> = Vec::new();
    let mut w: usize = 0;
    while w < nwin
        invariant
            w <= nwin,
            nwin == len / 1024,
            len == s@.len(),
            energies@.len() == w,
            forall|v: int| 0 <= v < w ==> energies@[v] == win_energy(s@, v),
            forall|v: int| 0 <= v < w ==> energies@[v] <= 0x400_0000_0000,
        decreases nwin - w,
    {
        proof {
            assert((w as int) * 1024 + 1024 <= len) by (nonlinear_arith)
                requires
                    w < nwin,
                    nwin == len / 1024,
                    len >= 0,
            ;
        }
        let start: usize = w * 1024;
        proof {
            lemma_energy_bounds(s@, start as int, 1024);
        }
        let mut acc: u64 = 0;
        let mut k: usize = 0;
        while k < 1024
            invariant
                k <= 1024,
                start + 1024 <= len,
                start == w * 1024,
                len == s@.len(),
                acc == energy_range(s@, start as int, k as int),
                acc <= k * 0x1_0000_0000,
            decreases 1024 - k,
        {
            let f = s[start + k];
            let m: i64 = f.left as i64 + f.right as i64;
            proof {
                assert(0 <= m * m <= 0x1_0000_0000) by (nonlinear_arith)
                    requires
                        -0x1_0000 <= m <= 0xfffe,
                ;
            }
            let sq: u64 = (m * m) as u64;
            acc = acc + sq;
            k = k + 1;
        }
        energies.push(acc);
        w = w + 1;
    }

    let gap_wide: u64 = (3 * (t.rate as u64) + 10239) / 10240;
    let gap: usize = gap_wide as usize;
    assert(gap == refractory_gap(t.rate as int));

    let ghost gs = s@;
    let ghost ggap = gap as int;
    let mut count: usize = 0;
    let mut next_free: usize = 0;
    let mut w2: usize = 0;
    while w2 < nwin
        invariant
            w2 <= nwin,
            nwin == len / 1024,
            len == gs.len(),
            gs == s@,
            ggap == gap,
            energies@.len() == nwin,
            forall|v: int| 0 <= v < nwin ==> energies@[v] == win_energy(gs, v),
            forall|v: int| 0 <= v < nwin ==> energies@[v] <= 0x400_0000_0000,
            count == onsets_rec(gs, ggap, w2 as int).0,
            next_free == onsets_rec(gs, ggap, w2 as int).1,
            count <= w2,
            next_free <= w2 + gap,
            gap <= 0x20_0000,
        decreases nwin - w2,
    {
        let is_onset: bool = if w2 == 0 {
            energies[0] > 0
        } else {
            energies[w2] > 2 * energies[w2 - 1]
        };
        if is_onset && w2 >= next_free {
            count = count + 1;
            next_free = w2 + gap;
        }
        w2 = w2 + 1;
    }

    proof {
        lemma_onsets_bounded(gs, ggap, nwin as int);
    }
    proof {
        assert(0 <= 60000 * (count as int) * (t.rate as int)
            < 0x1_0000_0000_0000_0000_0000_0000_0000) by (nonlinear_arith)
            requires
                0 <= count < 0x1_0000_0000_0000_0000,
                0 <= t.rate < 0x1_0000_0000,
        ;
    }
    let wide: u128 = 60000 * (count as u128) * (t.rate as u128);
    let bpm_wide: u128 = wide / (len as u128);
    proof {
        assert((wide as int) / (len as int) <= 60000 * 0xffff_ffffu64 && (wide as int) / (len as int) == (60000
            * (count as int) * (t.rate as int)) / (len as int)) by (nonlinear_arith)
            requires
                wide == 60000 * (count as int) * (t.rate as int),
                0 <= count <= len,
                1 <= len,
                0 <= t.rate <= 0xffff_ffffu64,
        ;
        assert(count == 0 ==> (wide as int) / (len as int) == 0) by (nonlinear_arith)
            requires
                wide == 60000 * (count as int) * (t.rate as int),
                1 <= len,
        ;
    }
    let bpm: u64 = bpm_wide as u64;
    TempoEstimate { bpm_milli: bpm, onsets: count }
}

} // verus!
