//! Crossfade envelopes and frame blending.
//!
//! Gains are Q15 fixed point: the value `32768` stands for a gain of 1.0.
//! Two envelope shapes are offered as an explicit policy. The linear shape
//! preserves amplitude exactly (`fadeOut + fadeIn == 1`); the equal-power
//! shape preserves power (`fadeOut^2 + fadeIn^2 ~ 1`) so perceived loudness
//! does not dip at the middle of the transition.

use vstd::prelude::*;
use vstd::arithmetic::div_mod::lemma_fundamental_div_mod_converse_div;
use crate::frame::Frame;
use crate::frame::clip_amp;

verus! {

/// The envelope shape used across the fade window.
#[derive(Clone, Copy, Debug, PartialEq, Eq, Structural)]
pub enum EnvelopePolicy {
    /// `fadeOut(i) + fadeIn(i) == 1` exactly: blending two identical
    /// signals reproduces the signal without any deviation.
    Linear,
    /// `fadeOut(i)^2 + fadeIn(i)^2 ~ 1`: combined power, and with it the
    /// perceived loudness, stays constant through the transition.
    EqualPower,
}

/// Floor of the square root, defined by stepping up from zero.
pub open spec fn isqrt_spec(n: int) -> int
    decreases n,
{
    if n <= 0 {
        0
    } else {
        let r = isqrt_spec(n - 1);
        if (r + 1) * (r + 1) <= n {
            r + 1
        } else {
            r
        }
    }
}

/// The defining property of the integer square root.
pub proof fn lemma_isqrt_bounds(n: int)
    requires
        n >= 0,
    ensures
        0 <= isqrt_spec(n) <= n,
        isqrt_spec(n) * isqrt_spec(n) <= n,
        n < (isqrt_spec(n) + 1) * (isqrt_spec(n) + 1),
    decreases n,
{
    if n > 0 {
        lemma_isqrt_bounds(n - 1);
        let r = isqrt_spec(n - 1);
        assert(isqrt_spec(n) == if (r + 1) * (r + 1) <= n {
            r + 1
        } else {
            r
        });
        if (r + 1) * (r + 1) <= n {
            assert(n == (r + 1) * (r + 1));
            assert((r + 1) * (r + 1) < (r + 2) * (r + 2)) by (nonlinear_arith)
                requires
                    r >= 0,
            ;
        }
    }
}

/// Any value that sits between consecutive squares is the integer square
/// root: the bounds pin it down uniquely.
pub proof fn lemma_isqrt_unique(n: int, r: int)
    requires
        0 <= r,
        r * r <= n,
        n < (r + 1) * (r + 1),
    ensures
        r == isqrt_spec(n),
{
    lemma_isqrt_bounds(n);
    let s = isqrt_spec(n);
    if r < s {
        assert((r + 1) * (r + 1) <= s * s) by (nonlinear_arith)
            requires
                0 <= r + 1 <= s,
        ;
    }
    if s < r {
        assert((s + 1) * (s + 1) <= r * r) by (nonlinear_arith)
            requires
                0 <= s + 1 <= r,
        ;
    }
}

/// Integer square root by binary search over the Q15 gain band.
pub fn isqrt(n: u64) -> (r: u64)
    requires
        n <= 0x4000_0000,
    ensures
        r == isqrt_spec(n as int),
        r <= 0x8000,
{
    let mut lo: u64 = 0;
    let mut hi: u64 = 0x8000;
    while lo < hi
        invariant
            lo <= hi <= 0x8000,
            lo * lo <= n,
            n < (hi + 1) * (hi + 1),
        decreases hi - lo,
    {
        let mid = (lo + hi + 1) / 2;
        proof {
            assert(mid * mid <= 0x4000_0000) by (nonlinear_arith)
                requires
                    mid <= 0x8000,
            ;
        }
        if mid * mid <= n {
            lo = mid;
        } else {
            hi = mid - 1;
        }
    }
    proof {
        lemma_isqrt_unique(n as int, lo as int);
    }
    lo
}

/// The linear position of step `i` inside a fade of length `f`, in Q15.
pub open spec fn ramp_q15(i: int, f: int) -> int {
    (i * 0x8000) / f
}

/// The Q15 fade-in gain at step `i` of `f` under `policy`.
pub open spec fn fade_in_gain(policy: EnvelopePolicy, i: int, f: int) -> int {
    match policy {
        EnvelopePolicy::Linear => ramp_q15(i, f),
        EnvelopePolicy::EqualPower => isqrt_spec(ramp_q15(i, f) * 0x8000),
    }
}

/// The Q15 fade-out gain at step `i` of `f` under `policy`.
pub open spec fn fade_out_gain(policy: EnvelopePolicy, i: int, f: int) -> int {
    match policy {
        EnvelopePolicy::Linear => 0x8000 - ramp_q15(i, f),
        EnvelopePolicy::EqualPower => isqrt_spec((0x8000 - ramp_q15(i, f)) * 0x8000),
    }
}

/// The ramp stays inside the Q15 band and hits both of its ends exactly.
pub proof fn lemma_ramp_bounds(i: int, f: int)
    requires
        1 <= f,
        0 <= i <= f,
    ensures
        0 <= ramp_q15(i, f) <= 0x8000,
        i == 0 ==> ramp_q15(i, f) == 0,
        i == f ==> ramp_q15(i, f) == 0x8000,
{
    assert(0 <= (i * 0x8000) / f <= 0x8000 && (i == f ==> (i * 0x8000) / f == 0x8000) && (i == 0
        ==> (i * 0x8000) / f == 0)) by (nonlinear_arith)
        requires
            1 <= f,
            0 <= i <= f,
    ;
}

/// Both gains at one fade step, as Q15 values.
pub fn envelope_gains(policy: EnvelopePolicy, i: usize, f: usize) -> (g: (u32, u32))
    requires
        1 <= f <= 0x1000_0000,
        i <= f,
    ensures
        g.0 == fade_out_gain(policy, i as int, f as int),
        g.1 == fade_in_gain(policy, i as int, f as int),
        g.0 <= 0x8000,
        g.1 <= 0x8000,
{
    proof {
        lemma_ramp_bounds(i as int, f as int);
    }
    let t: u64 = (i as u64 * 0x8000) / (f as u64);
    match policy {
        EnvelopePolicy::Linear => ((0x8000 - t) as u32, t as u32),
        EnvelopePolicy::EqualPower => {
            let fo = isqrt((0x8000 - t) * 0x8000);
            let fi = isqrt(t * 0x8000);
            proof {
                lemma_isqrt_bounds(((0x8000 - t) as int) * 0x8000);
                lemma_isqrt_bounds((t as int) * 0x8000);
            }
            (fo as u32, fi as u32)
        },
    }
}

/// The linear envelope preserves amplitude: its two gains always sum to
/// exactly one.
pub proof fn lemma_linear_amplitude(i: int, f: int)
    requires
        1 <= f,
        0 <= i <= f,
    ensures
        fade_out_gain(EnvelopePolicy::Linear, i, f) + fade_in_gain(EnvelopePolicy::Linear, i, f)
            == 0x8000,
{
}

/// The equal-power envelope preserves power: the sum of the squared gains
/// never leaves `[1 - 2^-13, 1]` in Q30.
pub proof fn lemma_equal_power(i: int, f: int)
    requires
        1 <= f,
        0 <= i <= f,
    ensures
        ({
            let fo = fade_out_gain(EnvelopePolicy::EqualPower, i, f);
            let fi = fade_in_gain(EnvelopePolicy::EqualPower, i, f);
            0x4000_0000 - 0x2_0004 <= fo * fo + fi * fi <= 0x4000_0000
        }),
{
    lemma_ramp_bounds(i, f);
    let t = ramp_q15(i, f);
    let m_out = (0x8000 - t) * 0x8000;
    let m_in = t * 0x8000;
    lemma_isqrt_bounds(m_out);
    lemma_isqrt_bounds(m_in);
    let fo = isqrt_spec(m_out);
    let fi = isqrt_spec(m_in);
    assert(m_out + m_in == 0x4000_0000) by (nonlinear_arith)
        requires
            m_out == (0x8000 - t) * 0x8000,
            m_in == t * 0x8000,
    ;
    assert(fo <= 0x8000 && fi <= 0x8000) by {
        if fo > 0x8000 {
            assert(fo * fo > 0x4000_0000) by (nonlinear_arith)
                requires
                    fo > 0x8000,
            ;
        }
        if fi > 0x8000 {
            assert(fi * fi > 0x4000_0000) by (nonlinear_arith)
                requires
                    fi > 0x8000,
            ;
        }
    }
    assert(m_out - 2 * fo - 1 <= fo * fo) by (nonlinear_arith)
        requires
            m_out < (fo + 1) * (fo + 1),
    ;
    assert(m_in - 2 * fi - 1 <= fi * fi) by (nonlinear_arith)
        requires
            m_in < (fi + 1) * (fi + 1),
    ;
    assert(fo * fo + fi * fi >= m_out + m_in - 2 * fo - 2 * fi - 2);
    assert(fo * fo + fi * fi <= m_out + m_in);
}

/// Both envelope shapes start fully on the outgoing track and end fully on
/// the incoming one.
pub proof fn lemma_envelope_endpoints(policy: EnvelopePolicy, f: int)
    requires
        1 <= f,
    ensures
        fade_out_gain(policy, 0, f) == 0x8000,
        fade_in_gain(policy, 0, f) == 0,
        fade_out_gain(policy, f, f) == 0,
        fade_in_gain(policy, f, f) == 0x8000,
{
    lemma_ramp_bounds(0, f);
    lemma_ramp_bounds(f, f);
    assert((0int + 1) * (0int + 1) == 1) by (nonlinear_arith);
    assert((0x8000int + 1) * (0x8000int + 1) == 0x4001_0001) by (nonlinear_arith);
    assert(0x8000int * 0x8000int == 0x4000_0000) by (nonlinear_arith);
    lemma_isqrt_unique(0, 0);
    lemma_isqrt_unique(0x4000_0000, 0x8000);
}

/// One blended amplitude: the enveloped sum, floored back to Q15 scale and
/// clipped into the representable band.
pub open spec fn blend_amp(a: int, b: int, fo: int, fi: int) -> int {
    clip_amp((a * fo + b * fi) / 0x8000)
}

/// One blended frame.
pub open spec fn blend_frame_spec(a: Frame, b: Frame, fo: int, fi: int) -> Frame {
    Frame {
        left: blend_amp(a.left as int, b.left as int, fo, fi) as i16,
        right: blend_amp(a.right as int, b.right as int, fo, fi) as i16,
    }
}

/// Floor-divide a signed Q15-scaled sum by the gain unit, computed over
/// shifted non-negative values so that machine division is exact floor
/// division throughout.
fn floor_scale(a: i64, b: i64, fo: u32, fi: u32) -> (r: i64)
    requires
        -0x8000 <= a <= 0x7fff,
        -0x8000 <= b <= 0x7fff,
        fo <= 0x8000,
        fi <= 0x8000,
    ensures
        r == (a * fo + b * fi) / 0x8000,
        -0x1_0000 <= r <= 0xffff,
{
    let ao: u64 = (a + 0x8000) as u64;
    let bo: u64 = (b + 0x8000) as u64;
    proof {
        assert(ao * fo <= 0xffff * 0x8000 && bo * fi <= 0xffff * 0x8000) by (nonlinear_arith)
            requires
                ao <= 0xffff,
                bo <= 0xffff,
                fo <= 0x8000,
                fi <= 0x8000,
        ;
    }
    let s: u64 = ao * (fo as u64) + bo * (fi as u64);
    let t: u64 = 0x8000 * ((fo as u64) + (fi as u64));
    proof {
        assert(s == a * fo + b * fi + t) by (nonlinear_arith)
            requires
                s == (a + 0x8000) * fo + (b + 0x8000) * fi,
                t == 0x8000 * (fo + fi),
        ;
    }
    if s >= t {
        let d: u64 = s - t;
        proof {
            assert(d <= 0xffff * 0x8000 && d / 0x8000 <= 0xffff) by (nonlinear_arith)
                requires
                    d == a * fo + b * fi,
                    d >= 0,
                    a <= 0x7fff,
                    b <= 0x7fff,
                    0 <= fo <= 0x8000,
                    0 <= fi <= 0x8000,
            ;
        }
        let q: u64 = d / 0x8000;
        q as i64
    } else {
        let d: u64 = t - s;
        let q: u64 = (d + 0x8000 - 1) / 0x8000;
        proof {
            let dd = d as int;
            let qq = q as int;
            assert(0x8000 * qq <= dd + 0x7fff && dd + 0x7fff < 0x8000 * (qq + 1) && qq
                <= 0x1_0000) by (nonlinear_arith)
                requires
                    qq == (dd + 0x7fff) / 0x8000,
                    dd == -(a * fo + b * fi),
                    dd >= 1,
                    -0x8000 <= a,
                    -0x8000 <= b,
                    0 <= fo <= 0x8000,
                    0 <= fi <= 0x8000,
            ;
            lemma_fundamental_div_mod_converse_div(-dd, 0x8000, -qq, 0x8000 * qq - dd);
        }
        -(q as i64)
    }
}

/// Blend one frame of each track under the given Q15 gains, channel by
/// channel, clipping the summed amplitude into the valid band.
pub fn blend_frame(a: Frame, b: Frame, fo: u32, fi: u32) -> (r: Frame)
    requires
        fo <= 0x8000,
        fi <= 0x8000,
    ensures
        r == blend_frame_spec(a, b, fo as int, fi as int),
{
    let l = crate::frame::clip_amp_i64(floor_scale(a.left as i64, b.left as i64, fo, fi));
    let r = crate::frame::clip_amp_i64(floor_scale(a.right as i64, b.right as i64, fo, fi));
    Frame { left: l, right: r }
}

/// Blending a frame with itself under any amplitude-preserving pair of
/// gains gives the frame back unchanged.
pub proof fn lemma_blend_identity(a: Frame, fo: int, fi: int)
    requires
        fo + fi == 0x8000,
        0 <= fo,
        0 <= fi,
    ensures
        blend_frame_spec(a, a, fo, fi) == a,
{
    lemma_blend_amp_identity(a.left as int, fo, fi);
    lemma_blend_amp_identity(a.right as int, fo, fi);
}

proof fn lemma_blend_amp_identity(v: int, fo: int, fi: int)
    requires
        fo + fi == 0x8000,
        0 <= fo,
        0 <= fi,
        -0x8000 <= v <= 0x7fff,
    ensures
        blend_amp(v, v, fo, fi) == v,
{
    assert(v * fo + v * fi == v * 0x8000) by (nonlinear_arith)
        requires
            fo + fi == 0x8000,
    ;
    lemma_fundamental_div_mod_converse_div(v * 0x8000, 0x8000, v, 0);
}

} // verus!
