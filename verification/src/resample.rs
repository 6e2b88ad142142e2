//! The constant-ratio resampler.
//!
//! Output sample `j` is read from source position `j / ratio`, held in Q16
//! fixed point, and interpolated linearly between the two neighbouring
//! source frames. The output length is the input length times the ratio,
//! rounded to the nearest whole sample. A fixed group delay of zero is the
//! documented alignment: output sample `j` always sits at source position
//! `j / ratio` exactly, so callers can align indices without correction.

use vstd::prelude::*;
use vstd::arithmetic::div_mod::lemma_fundamental_div_mod;
use crate::errors::MixError;
use crate::frame::Frame;
use crate::ratio::Ratio;

verus! {

/// The most input the resampler accepts in one call, comfortably below any
/// usize and u64 overflow in the position arithmetic.
pub const MAX_INPUT: usize = 0x0800_0000;

/// The resampler's minimum processing unit: interpolation needs two
/// neighbouring source frames. Callers with less material must pad.
pub const MIN_CHUNK: usize = 2;

/// Linear interpolation between two amplitudes, `frac` of the way from `x`
/// to `y` in Q16, floored.
pub open spec fn lerp_amp(x: int, y: int, frac: int) -> int {
    (x * (0x10000 - frac) + y * frac) / 0x10000
}

/// The interpolated frame at Q16 source position `pos16`, with both of the
/// neighbouring indices clamped to the last frame at the tail.
pub open spec fn frame_at(s: Seq<Frame>, pos16: int) -> Frame {
    let idx = pos16 / 0x10000;
    let frac = pos16 % 0x10000;
    let i0 = if idx < s.len() {
        idx
    } else {
        s.len() - 1
    };
    let i1 = if idx + 1 < s.len() {
        idx + 1
    } else {
        s.len() - 1
    };
    Frame {
        left: lerp_amp(s[i0].left as int, s[i1].left as int, frac) as i16,
        right: lerp_amp(s[i0].right as int, s[i1].right as int, frac) as i16,
    }
}

/// The Q16 source position of output sample `j` under `ratio`.
pub open spec fn src_pos(j: int, ratio: Ratio) -> int {
    (j * ratio.den * 0x10000) / (ratio.num as int)
}

/// The resampled length: the input length times the ratio, rounded to the
/// nearest whole sample (halves up).
pub open spec fn out_len_spec(n: int, ratio: Ratio) -> int {
    (2 * n * ratio.num + ratio.den) / (2 * ratio.den)
}

/// Interpolated amplitudes never leave the band their endpoints span.
pub proof fn lemma_lerp_amp_bounds(x: int, y: int, frac: int)
    requires
        -0x8000 <= x <= 0x7fff,
        -0x8000 <= y <= 0x7fff,
        0 <= frac < 0x10000,
    ensures
        -0x8000 <= lerp_amp(x, y, frac) <= 0x7fff,
{
    assert(-0x8000 * 0x10000 <= x * (0x10000 - frac) + y * frac <= 0x7fff
        * 0x10000) by (nonlinear_arith)
        requires
            -0x8000 <= x <= 0x7fff,
            -0x8000 <= y <= 0x7fff,
            0 <= frac < 0x10000,
    ;
    assert(-0x8000 <= (x * (0x10000 - frac) + y * frac) / 0x10000 <= 0x7fff) by (nonlinear_arith)
        requires
            -0x8000 * 0x10000 <= x * (0x10000 - frac) + y * frac <= 0x7fff * 0x10000,
    ;
}

/// One interpolated amplitude, computed over shifted non-negative values so
/// machine division is exact floor division.
fn lerp_exec(x: i16, y: i16, frac: u32) -> (r: i16)
    requires
        frac < 0x10000,
    ensures
        r as int == lerp_amp(x as int, y as int, frac as int),
{
    proof {
        lemma_lerp_amp_bounds(x as int, y as int, frac as int);
    }
    let xo: u64 = (x as i64 + 0x8000) as u64;
    let yo: u64 = (y as i64 + 0x8000) as u64;
    proof {
        assert(xo * (0x10000 - frac) + yo * frac <= 0xffff * 0x10000 && xo * (0x10000 - frac) + yo
            * frac == x * (0x10000 - frac) + y * frac + 0x8000 * 0x10000) by (nonlinear_arith)
            requires
                xo == x + 0x8000,
                yo == y + 0x8000,
                xo <= 0xffff,
                yo <= 0xffff,
                0 <= frac < 0x10000,
        ;
        lemma_fundamental_div_mod(x * (0x10000 - frac) + y * frac, 0x10000);
    }
    let q: u64 = (xo * (0x10000 - frac as u64) + yo * (frac as u64)) / 0x10000;
    (q as i64 - 0x8000) as i16
}

/// The interpolated frame at a Q16 source position, clamped to the tail.
pub fn sample_at(frames: &Vec<Frame>, pos16: u64) -> (r: Frame)
    requires
        frames@.len() >= 1,
        pos16 < 0x1000_0000_0000_0000,
    ensures
        r == frame_at(frames@, pos16 as int),
{
    let idx: u64 = pos16 / 0x10000;
    let frac: u32 = (pos16 % 0x10000) as u32;
    let n: usize = frames.len();
    let i0: usize = if idx < n as u64 {
        idx as usize
    } else {
        n - 1
    };
    let i1: usize = if idx + 1 < n as u64 {
        (idx + 1) as usize
    } else {
        n - 1
    };
    let f0 = frames[i0];
    let f1 = frames[i1];
    let left = lerp_exec(f0.left, f1.left, frac);
    let right = lerp_exec(f0.right, f1.right, frac);
    Frame { left, right }
}

/// Resample a frame sequence by one constant ratio.
///
/// A ratio outside the supported band is rejected, as is an input shorter
/// than the minimum processing unit. On success the output length is the
/// rounded product of input length and ratio, and every output frame is the
/// linear interpolation of the source at its exact Q16 position.
pub fn resample(frames: &Vec<Frame>, ratio: Ratio) -> (r: Result<Vec<Frame>, MixError>)
    requires
        frames@.len() <= MAX_INPUT as int,
    ensures
        r is Err <==> (!ratio.valid() || frames@.len() < MIN_CHUNK as int),
        !ratio.valid() ==> r == Result::<Vec<Frame>, MixError>::Err(MixError::ResampleRangeError),
        (ratio.valid() && frames@.len() < MIN_CHUNK as int) ==> r == Result::<
            Vec<Frame>,
            MixError,
        >::Err(MixError::ChunkTooShort),
        r matches Ok(out) ==> {
            &&& out@.len() == out_len_spec(frames@.len() as int, ratio)
            &&& forall|j: int|
                0 <= j < out@.len() ==> out@[j] == frame_at(frames@, src_pos(j, ratio))
        },
{
    if !ratio.is_valid() {
        return Err(MixError::ResampleRangeError);
    }
    if frames.len() < MIN_CHUNK {
        return Err(MixError::ChunkTooShort);
    }
    let n: usize = frames.len();
    proof {
        assert(2 * (n as int) * (ratio.num as int) + ratio.den < 0x1_0000_0000_0000_0000_0000_0000
            && 2 * (ratio.den as int) < 0x1_0000_0000_0000_0000_0000_0000) by (nonlinear_arith)
            requires
                0 <= n <= 0x0800_0000,
                0 <= ratio.num < 0x1_0000_0000_0000_0000,
                0 <= ratio.den < 0x1_0000_0000_0000_0000,
        ;
    }
    let m_wide: u128 = (2 * (n as u128) * (ratio.num as u128) + ratio.den as u128) / (2
        * (ratio.den as u128));
    proof {
        assert(m_wide == out_len_spec(n as int, ratio) && m_wide <= 2 * n + 1) by (nonlinear_arith)
            requires
                m_wide == (2 * (n as int) * ratio.num + ratio.den) / (2 * ratio.den),
                ratio.valid(),
                0 <= n,
        ;
    }
    let m: usize = m_wide as usize;
    let mut out: Vec<Frame> = Vec::new();
    let mut j: usize = 0;
    while j < m
        invariant
            j <= m,
            m == out_len_spec(n as int, ratio),
            m <= 2 * n + 1,
            n == frames@.len(),
            2 <= n <= MAX_INPUT as int,
            ratio.valid(),
            out@.len() == j,
            forall|k: int| 0 <= k < j ==> out@[k] == frame_at(frames@, src_pos(k, ratio)),
        decreases m - j,
    {
        proof {
            assert((j as int) * (ratio.den as int) * 0x10000
                < 0x1_0000_0000_0000_0000_0000_0000_0000) by (nonlinear_arith)
                requires
                    0 <= j <= 0x4000_0000,
                    0 <= ratio.den < 0x1_0000_0000_0000_0000,
            ;
        }
        let pos_wide: u128 = ((j as u128) * (ratio.den as u128) * 0x10000) / (ratio.num as u128);
        proof {
            assert(pos_wide == src_pos(j as int, ratio) && pos_wide <= 2 * j
                * 0x10000) by (nonlinear_arith)
                requires
                    pos_wide == ((j as int) * ratio.den * 0x10000) / (ratio.num as int),
                    ratio.valid(),
                    0 <= j,
            ;
        }
        let fr = sample_at(frames, pos_wide as u64);
        out.push(fr);
        j = j + 1;
    }
    Ok(out)
}

/// The resampled length is the real product `n * ratio` rounded to the
/// nearest sample: it never strays from it by as much as half an input
/// denominator unit.
pub proof fn lemma_resample_len_round(n: int, ratio: Ratio)
    requires
        ratio.valid(),
        n >= 0,
    ensures
        -(ratio.den as int) < 2 * (out_len_spec(n, ratio) * ratio.den - n * ratio.num) <= ratio.den,
{
    let l = out_len_spec(n, ratio);
    assert(-(ratio.den as int) < 2 * (l * ratio.den - n * ratio.num) <= ratio.den)
        by (nonlinear_arith)
        requires
            l == (2 * n * ratio.num + ratio.den) / (2 * ratio.den),
            ratio.valid(),
            n >= 0,
    ;
}

/// Resampling by a ratio and then by its reciprocal restores the original
/// length to within one sample.
pub proof fn lemma_resample_round_trip_len(n: int, ratio: Ratio)
    requires
        ratio.valid(),
        n >= 0,
    ensures
        ({
            let back = out_len_spec(out_len_spec(n, ratio), ratio.spec_inverse());
            -1 <= back - n <= 1
        }),
{
    let m = out_len_spec(n, ratio);
    let back = out_len_spec(m, ratio.spec_inverse());
    lemma_resample_len_round(n, ratio);
    assert(m >= 0) by (nonlinear_arith)
        requires
            -(ratio.den as int) < 2 * (m * ratio.den - n * ratio.num) <= ratio.den,
            ratio.valid(),
            n >= 0,
    ;
    lemma_resample_len_round(m, ratio.spec_inverse());
    assert(-1 <= back - n <= 1) by (nonlinear_arith)
        requires
            -(ratio.den as int) < 2 * (m * ratio.den - n * ratio.num) <= ratio.den,
            -(ratio.num as int) < 2 * (back * ratio.num - m * ratio.den) <= ratio.num,
            ratio.valid(),
    ;
}

} // verus!
