//! Resampling ratios and the tempo-ratio schedule.

use vstd::prelude::*;

verus! {

/// An exact resampling ratio: output sample rate over input sample rate,
/// as a positive rational. The supported band is `[1/2, 2]`; anything a
/// pathological tempo estimate would put outside it is clamped before a
/// ratio is ever built.
#[derive(Clone, Copy, Debug, PartialEq, Eq, Structural)]
pub struct Ratio {
    pub num: u64,
    pub den: u64,
}

impl Ratio {
    /// A positive rational inside the supported band `[1/2, 2]`.
    pub open spec fn valid(self) -> bool {
        &&& self.num >= 1
        &&& self.den >= 1
        &&& 2 * self.num >= self.den
        &&& self.num <= 2 * self.den
    }

    /// The reciprocal ratio: one resampling step undoes the other.
    pub open spec fn spec_inverse(self) -> Ratio {
        Ratio { num: self.den, den: self.num }
    }

    /// The reciprocal ratio, which sits in the supported band whenever the
    /// ratio itself does.
    pub fn inverse(self) -> (r: Ratio)
        ensures
            r == self.spec_inverse(),
            self.valid() ==> r.valid(),
    {
        Ratio { num: self.den, den: self.num }
    }

    /// Runtime check for the supported band.
    pub fn is_valid(&self) -> (b: bool)
        ensures
            b == self.valid(),
    {
        self.num >= 1 && self.den >= 1 && 2 * (self.num as u128) >= self.den as u128 && (self.num
            as u128) <= 2 * (self.den as u128)
    }

    /// The unit ratio: no tempo correction.
    pub fn unit() -> (r: Ratio)
        ensures
            r.valid(),
            r.num == r.den,
    {
        Ratio { num: 1, den: 1 }
    }
}

/// A tempo-ratio schedule: for each step of the fade window it gives the
/// resampling ratio, interpolating linearly from `start` at the first step
/// to exactly one at the window's end. All steps share one denominator, so
/// comparing two steps is comparing numerators.
#[derive(Clone, Copy, Debug)]
pub struct Schedule {
    pub start: Ratio,
    pub fade: usize,
}

/// The shared numerator of step `i`: a convex walk from `start.num * fade`
/// to `start.den * fade`.
pub open spec fn sched_num(s: Schedule, i: int) -> int {
    s.start.num * (s.fade - i) + s.start.den * i
}

/// The shared denominator of every step.
pub open spec fn sched_den(s: Schedule) -> int {
    s.start.den * s.fade
}

impl Schedule {
    /// Well-formedness: a valid, coarsely quantized start ratio and a fade
    /// window that keeps every product comfortably inside u64.
    pub open spec fn wf(self) -> bool {
        &&& self.start.valid()
        &&& self.start.num <= 0x1000
        &&& self.start.den <= 0x1000
        &&& 1 <= self.fade <= 0x0800_0000
    }

    /// Build the schedule for one fade window.
    pub fn new(start: Ratio, fade: usize) -> (s: Schedule)
        requires
            start.valid(),
            start.num <= 0x1000,
            start.den <= 0x1000,
            1 <= fade <= 0x0800_0000,
        ensures
            s.wf(),
            s.start == start,
            s.fade == fade,
    {
        Schedule { start, fade }
    }

    /// The ratio at step `i` of the fade window. It starts at the start
    /// ratio, ends at exactly one, and always stays in the supported band.
    pub fn ratio_at(&self, i: usize) -> (r: Ratio)
        requires
            self.wf(),
            i <= self.fade,
        ensures
            r.num == sched_num(*self, i as int),
            r.den == sched_den(*self),
            r.valid(),
            i == self.fade ==> r.num == r.den,
    {
        proof {
            lemma_sched_step_valid(*self, i as int);
        }
        let num: u64 = self.start.num * ((self.fade - i) as u64) + self.start.den * (i as u64);
        let den: u64 = self.start.den * (self.fade as u64);
        Ratio { num, den }
    }
}

/// Every step of a well-formed schedule is a valid ratio, and the products
/// that build it stay small.
pub proof fn lemma_sched_step_valid(s: Schedule, i: int)
    requires
        s.wf(),
        0 <= i <= s.fade,
    ensures
        1 <= sched_num(s, i) <= 0x2000_0000_0000,
        1 <= sched_den(s) <= 0x2000_0000_0000,
        2 * sched_num(s, i) >= sched_den(s),
        sched_num(s, i) <= 2 * sched_den(s),
        i == s.fade ==> sched_num(s, i) == sched_den(s),
{
    let a = s.start.num as int;
    let b = s.start.den as int;
    let f = s.fade as int;
    assert(1 <= a * (f - i) + b * i && a * (f - i) + b * i <= 0x2000_0000_0000 && 1 <= b * f && b
        * f <= 0x2000_0000_0000 && 2 * (a * (f - i) + b * i) >= b * f && a * (f - i) + b * i <= 2
        * (b * f) && (i == f ==> a * (f - i) + b * i == b * f)) by (nonlinear_arith)
        requires
            1 <= a <= 0x1000,
            1 <= b <= 0x1000,
            1 <= f <= 0x0800_0000,
            0 <= i <= f,
            2 * a >= b,
            a <= 2 * b,
    ;
}

/// The schedule is monotone: it walks from the start ratio toward one and
/// never turns around. With the shared denominator, that is an ordering of
/// the numerators.
pub proof fn lemma_schedule_monotone(s: Schedule, i: int, j: int)
    requires
        s.wf(),
        0 <= i <= j <= s.fade,
    ensures
        s.start.num <= s.start.den ==> sched_num(s, i) <= sched_num(s, j),
        s.start.num >= s.start.den ==> sched_num(s, i) >= sched_num(s, j),
{
    let a = s.start.num as int;
    let b = s.start.den as int;
    let f = s.fade as int;
    assert((a <= b ==> a * (f - i) + b * i <= a * (f - j) + b * j) && (a >= b ==> a * (f - i) + b
        * i >= a * (f - j) + b * j)) by (nonlinear_arith)
        requires
            0 <= i <= j <= f,
    ;
}

} // verus!
