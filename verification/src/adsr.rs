//! The attack, decay, sustain, release envelope.

use vstd::prelude::*;
use crate::types::{ceil_div, fixed_mul, lemma_mul_bounds, min_int, SampleRate, SampleRated, Sample, Seconds, HUNDREDTH, ONE};

verus! {

/// Something that opens and closes with a key.
pub trait Gate {
    /// The key goes down.
    fn gate_open(&mut self);

    /// The key comes up.
    fn gate_close(&mut self);
}

/// Where an envelope is in its cycle.
#[derive(Clone, Copy, Debug, PartialEq, Eq, Structural)]
pub enum Stage {
    Off,
    Attack,
    Decay,
    Sustain,
    Release,
}

/// The longest time the format holds.
pub const LONGEST: i64 = 0x7FFF_FFFF_FFFF_FFFF;

/// Default sustain level, 0.75.
pub const DEFAULT_SUSTAIN: i64 = 0xC000_0000;

/// Default release time, 0.25 s.
pub const DEFAULT_RELEASE: i64 = 0x4000_0000;

/// Attack, decay, sustain, release envelope whose value runs from 0 to [`ONE`].
#[derive(Clone, Copy, Debug)]
pub struct ADSR {
    pub stage: Stage,
    pub val: Sample,
    pub sample_rate: SampleRate,
    pub a: Seconds,
    pub d: Seconds,
    pub s: Sample,
    pub r: Seconds,
    pub da: Sample,
    pub dd: Sample,
    pub dr: Sample,
}

/// The per-frame change that crosses the full scale in `t` seconds at `rate`
/// frames per second, rounded up so that the crossing never takes longer.
/// A time or rate of zero crosses in one frame.
pub open spec fn frame_delta(t: int, rate: int) -> int {
    if t <= 0 || rate <= 0 {
        ONE as int
    } else {
        min_int(ONE as int, ceil_div((ONE as int) * (ONE as int), t * rate))
    }
}

/// Sixth power of a 32.32 number, each product rounded down.
pub open spec fn fixed_pow6(x: int) -> int {
    let x2 = fixed_mul(x, x);
    let x4 = fixed_mul(x2, x2);
    fixed_mul(x4, x2)
}

/// The attack or release time for a control position `x >= 0`:
/// `15 x^6 + 0.01`, or the longest time the format holds where that is less.
pub open spec fn warp_slow(x: int) -> int {
    min_int(15 * fixed_pow6(x) + HUNDREDTH, LONGEST as int)
}

/// The decay time for a control position `x >= 0`: `5 x^2 + 0.01`, or the
/// longest time the format holds where that is less.
pub open spec fn warp_fast(x: int) -> int {
    min_int(5 * fixed_mul(x, x) + HUNDREDTH, LONGEST as int)
}

/// A product of factors that are at least `bx` and `by` is at least
/// `bx * by`.
proof fn lemma_mul_at_least(x: int, y: int, bx: int, by: int)
    by (nonlinear_arith)
    requires
        0 <= bx <= x,
        0 <= by <= y,
    ensures
        bx * by <= x * y,
{
}

/// From a square of 2^16 on, the sixth power is beyond every time the
/// format holds.
proof fn lemma_pow6_beyond(x: int)
    requires
        0 <= x,
        fixed_mul(x, x) >= 0x1_0000_0000_0000,
    ensures
        15 * fixed_pow6(x) + HUNDREDTH > LONGEST,
{
    let x2 = fixed_mul(x, x);
    lemma_mul_at_least(x2, x2, 0x1_0000_0000_0000, 0x1_0000_0000_0000);
    let x4 = fixed_mul(x2, x2);
    assert(x4 >= 0x1_0000_0000_0000_0000);
    lemma_mul_at_least(x4, x2, 0x1_0000_0000_0000_0000, 0x1_0000_0000_0000);
    assert(fixed_mul(x4, x2) >= 0x1_0000_0000_0000_0000_0000);
}

/// `frame_delta` lies in `1..=ONE`.
pub proof fn lemma_frame_delta_bounds(t: int, rate: int)
    ensures
        1 <= frame_delta(t, rate) <= ONE,
{
    if t > 0 && rate > 0 {
        let d = t * rate;
        let n = (ONE as int) * (ONE as int);
        assert(d >= 1) by (nonlinear_arith)
            requires
                t >= 1,
                rate >= 1,
                d == t * rate,
        ;
        assert((n + d - 1) / d >= 1) by (nonlinear_arith)
            requires
                d >= 1,
                n >= 1,
        ;
    }
}

/// A delta times the frames it was derived for covers the full scale.
pub proof fn lemma_frame_delta_covers(t: int, rate: int, frames: int)
    requires
        0 <= t,
        0 <= rate,
        frames * ONE > t * rate,
    ensures
        frames * frame_delta(t, rate) >= ONE,
{
    let delta = frame_delta(t, rate);
    if t <= 0 || rate <= 0 {
        assert(t * rate == 0) by (nonlinear_arith)
            requires
                t == 0 || rate == 0,
        ;
        assert(frames >= 1);
        assert(frames * (ONE as int) >= ONE);
    } else {
        let d = t * rate;
        let n = (ONE as int) * (ONE as int);
        let q = ceil_div(n, d);
        assert(d >= 1) by (nonlinear_arith)
            requires
                t >= 1,
                rate >= 1,
                d == t * rate,
        ;
        assert(q * d >= n) by (nonlinear_arith)
            requires
                d >= 1,
                q == (n + d - 1) / d,
        ;
        assert(frames >= 1) by (nonlinear_arith)
            requires
                frames * ONE > d,
                d >= 1,
        ;
        if q >= ONE {
            assert(delta == ONE);
            assert(frames * delta >= ONE) by (nonlinear_arith)
                requires
                    frames >= 1,
                    delta == ONE,
            ;
        } else {
            assert(delta == q);
            assert(frames * q >= ONE) by (nonlinear_arith)
                requires
                    q * d >= n,
                    n == (ONE as int) * (ONE as int),
                    frames * ONE > d,
                    d >= 1,
                    frames >= 1,
                    q >= 0,
            ;
        }
    }
}

impl ADSR {
    /// The envelope's arithmetic cannot overflow and its deltas match its times.
    pub open spec fn wf(self) -> bool {
        &&& 0 <= self.val <= ONE
        &&& 0 <= self.s <= ONE
        &&& 0 <= self.a
        &&& 0 <= self.d
        &&& 0 <= self.r
        &&& self.da == frame_delta(self.a as int, self.sample_rate as int)
        &&& self.dd == frame_delta(self.d as int, self.sample_rate as int)
        &&& self.dr == frame_delta(self.r as int, self.sample_rate as int)
        &&& self.stage == Stage::Off ==> self.val == 0
    }

    /// The envelope as it is before any time is set: 10 ms attack and decay,
    /// sustain at 0.75, 250 ms release, silent, frame rate not yet known.
    pub open spec fn initial() -> ADSR {
        ADSR {
            stage: Stage::Off,
            val: 0,
            sample_rate: 0,
            a: HUNDREDTH,
            d: HUNDREDTH,
            s: DEFAULT_SUSTAIN,
            r: DEFAULT_RELEASE,
            da: ONE,
            dd: ONE,
            dr: ONE,
        }
    }

    /// The envelope with its three deltas derived again from times and rate.
    pub open spec fn recalculated(self) -> ADSR {
        ADSR {
            da: frame_delta(self.a as int, self.sample_rate as int) as i64,
            dd: frame_delta(self.d as int, self.sample_rate as int) as i64,
            dr: frame_delta(self.r as int, self.sample_rate as int) as i64,
            ..self
        }
    }

    /// The envelope one frame later.
    pub open spec fn step(self) -> ADSR {
        match self.stage {
            Stage::Off => self,
            Stage::Sustain => self,
            Stage::Attack => {
                if self.val + self.da >= ONE {
                    ADSR { stage: Stage::Decay, val: ONE, ..self }
                } else {
                    ADSR { val: (self.val + self.da) as i64, ..self }
                }
            },
            Stage::Decay => {
                let lowered = if self.val - self.dd <= 0 {
                    0
                } else {
                    self.val - self.dd
                };
                if lowered < self.s {
                    ADSR { stage: Stage::Sustain, val: self.s, ..self }
                } else {
                    ADSR { val: lowered as i64, ..self }
                }
            },
            Stage::Release => {
                if self.val - self.dr <= 0 {
                    ADSR { stage: Stage::Off, val: 0, ..self }
                } else {
                    ADSR { val: (self.val - self.dr) as i64, ..self }
                }
            },
        }
    }

    /// The envelope `n` frames later.
    pub open spec fn steps(self, n: nat) -> ADSR
        decreases n,
    {
        if n == 0 {
            self
        } else {
            self.step().steps((n - 1) as nat)
        }
    }

    /// The envelope with the key pressed.
    pub open spec fn opened(self) -> ADSR {
        ADSR { stage: Stage::Attack, ..self }
    }

    /// The envelope with the key let go.
    pub open spec fn closed(self) -> ADSR {
        ADSR { stage: Stage::Release, ..self }
    }

    /// The envelope after its four controls are set; a negative control
    /// leaves its parameter as it was.
    pub open spec fn with_controls(self, a: int, d: int, s: int, r: int) -> ADSR {
        ADSR {
            a: if a >= 0 { warp_slow(a) as i64 } else { self.a },
            d: if d >= 0 { warp_fast(d) as i64 } else { self.d },
            s: if s >= 0 { min_int(s, ONE as int) as i64 } else { self.s },
            r: if r >= 0 { warp_slow(r) as i64 } else { self.r },
            ..self
        }.recalculated()
    }

    /// A silent envelope with the default times; see [`ADSR::initial`].
    pub fn new() -> (adsr: ADSR)
        ensures
            adsr == ADSR::initial(),
            adsr.wf(),
    {
        let mut adsr = ADSR {
            stage: Stage::Off,
            val: 0,
            sample_rate: 0,
            a: HUNDREDTH,
            d: HUNDREDTH,
            s: DEFAULT_SUSTAIN,
            r: DEFAULT_RELEASE,
            da: 0,
            dd: 0,
            dr: 0,
        };
        adsr.calc();
        adsr
    }

    /// Derives one delta; see [`frame_delta`].
    fn delta_for(t: Seconds, rate: SampleRate) -> (delta: Sample)
        ensures
            delta == frame_delta(t as int, rate as int),
            1 <= delta <= ONE,
    {
        proof {
            lemma_frame_delta_bounds(t as int, rate as int);
        }
        if t <= 0 || rate == 0 {
            return ONE;
        }
        proof {
            lemma_mul_bounds(t as int, rate as int, i64::MAX as int, u32::MAX as int);
            assert(t * rate >= 1) by (nonlinear_arith)
                requires
                    t >= 1,
                    rate >= 1,
            ;
        }
        let span: u128 = (t as u128) * (rate as u128);
        let full: u128 = 0x1_0000_0000_0000_0000u128;
        assert(full == (ONE as int) * (ONE as int));
        let q: u128 = (full + span - 1) / span;
        if q >= 0x1_0000_0000u128 {
            ONE
        } else {
            q as i64
        }
    }

    /// Derives the three per-frame deltas from the times and the frame rate.
    pub fn calc(&mut self)
        ensures
            *final(self) == old(self).recalculated(),
            final(self).da == frame_delta(old(self).a as int, old(self).sample_rate as int),
            final(self).dd == frame_delta(old(self).d as int, old(self).sample_rate as int),
            final(self).dr == frame_delta(old(self).r as int, old(self).sample_rate as int),
    {
        self.da = Self::delta_for(self.a, self.sample_rate);
        self.dd = Self::delta_for(self.d, self.sample_rate);
        self.dr = Self::delta_for(self.r, self.sample_rate);
    }

    /// `15 x^6 + 0.01` for `x >= 0`, saturated; see [`warp_slow`].
    fn slow_time(x: Seconds) -> (t: Seconds)
        requires
            x >= 0,
        ensures
            t == warp_slow(x as int),
            t >= HUNDREDTH,
    {
        let unit: u128 = 0x1_0000_0000u128;
        let c: u128 = x as u128;
        proof {
            lemma_mul_bounds(c as int, c as int, LONGEST as int, LONGEST as int);
        }
        let x2: u128 = c * c / unit;
        if x2 >= 0x1_0000_0000_0000u128 {
            proof {
                lemma_pow6_beyond(x as int);
            }
            return LONGEST;
        }
        proof {
            lemma_mul_bounds(x2 as int, x2 as int, 0x1_0000_0000_0000, 0x1_0000_0000_0000);
        }
        let x4: u128 = x2 * x2 / unit;
        proof {
            lemma_mul_bounds(x4 as int, x2 as int, 0x1_0000_0000_0000_0000, 0x1_0000_0000_0000);
        }
        let x6: u128 = x4 * x2 / unit;
        let wide: u128 = 15 * x6 + HUNDREDTH as u128;
        if wide > LONGEST as u128 {
            LONGEST
        } else {
            wide as i64
        }
    }

    /// `5 x^2 + 0.01` for `x >= 0`, saturated; see [`warp_fast`].
    fn fast_time(x: Seconds) -> (t: Seconds)
        requires
            x >= 0,
        ensures
            t == warp_fast(x as int),
            t >= HUNDREDTH,
    {
        let c: u128 = x as u128;
        proof {
            lemma_mul_bounds(c as int, c as int, LONGEST as int, LONGEST as int);
        }
        let x2: u128 = c * c / 0x1_0000_0000u128;
        let wide: u128 = 5 * x2 + HUNDREDTH as u128;
        if wide > LONGEST as u128 {
            LONGEST
        } else {
            wide as i64
        }
    }

    /// Sets attack, decay, sustain and release from control positions.
    /// Times are warped (`15 a^6 + 0.01`, `5 d^2 + 0.01`, `15 r^6 + 0.01`) and
    /// held as far as the format reaches, sustain is clamped to full scale,
    /// and a negative control changes nothing.
    pub fn set(&mut self, a: Seconds, d: Seconds, s: Sample, r: Seconds)
        ensures
            *final(self) == old(self).with_controls(a as int, d as int, s as int, r as int),
            old(self).wf() ==> final(self).wf(),
    {
        if a >= 0 {
            self.a = Self::slow_time(a);
        }
        if d >= 0 {
            self.d = Self::fast_time(d);
        }
        if s >= 0 {
            self.s = if s > ONE {
                ONE
            } else {
                s
            };
        }
        if r >= 0 {
            self.r = Self::slow_time(r);
        }
        self.calc();
    }

    /// The envelope's value now.
    pub fn value(&self) -> (v: Sample)
        ensures
            v == self.val,
    {
        self.val
    }

    /// The envelope's stage now.
    pub fn stage(&self) -> (stage: Stage)
        ensures
            stage == self.stage,
    {
        self.stage
    }

    /// Whether the envelope is off.
    pub fn is_off(&self) -> (off: bool)
        ensures
            off == (self.stage == Stage::Off),
    {
        self.stage == Stage::Off
    }

    /// Advances the envelope by one frame and returns its new value.
    /// While attacking the value never falls, while releasing it never rises.
    pub fn run(&mut self) -> (v: Sample)
        requires
            old(self).wf(),
        ensures
            *final(self) == old(self).step(),
            final(self).wf(),
            v == final(self).val,
            old(self).stage == Stage::Attack ==> v >= old(self).val,
            old(self).stage == Stage::Release ==> v <= old(self).val,
    {
        proof {
            lemma_frame_delta_bounds(self.a as int, self.sample_rate as int);
            lemma_frame_delta_bounds(self.d as int, self.sample_rate as int);
            lemma_frame_delta_bounds(self.r as int, self.sample_rate as int);
        }
        match self.stage {
            Stage::Sustain => {},
            Stage::Attack => {
                self.val += self.da;
                if self.val >= ONE {
                    self.stage = Stage::Decay;
                    self.val = ONE;
                }
            },
            Stage::Decay => {
                self.val -= self.dd;
                if self.val <= 0 {
                    self.val = 0;
                }
                if self.val < self.s {
                    self.stage = Stage::Sustain;
                    self.val = self.s;
                }
            },
            Stage::Release => {
                self.val -= self.dr;
                if self.val <= 0 {
                    self.val = 0;
                    self.stage = Stage::Off;
                }
            },
            Stage::Off => {},
        }
        self.val
    }
}

impl SampleRated for ADSR {
    /// Takes the frame rate and derives the deltas again.
    fn set_sample_rate(&mut self, sample_rate: SampleRate)
        ensures
            *final(self) == (ADSR { sample_rate, ..*old(self) }).recalculated(),
            old(self).wf() ==> final(self).wf(),
    {
        self.sample_rate = sample_rate;
        self.calc();
    }
}

impl Gate for ADSR {
    /// Starts the attack from the value the envelope has, whatever its stage.
    fn gate_open(&mut self)
        ensures
            *final(self) == old(self).opened(),
            old(self).wf() ==> final(self).wf(),
    {
        self.stage = Stage::Attack;
    }

    /// Starts the release from the value the envelope has.
    fn gate_close(&mut self)
        ensures
            *final(self) == old(self).closed(),
            old(self).wf() ==> final(self).wf(),
    {
        self.stage = Stage::Release;
    }
}

/// One frame keeps a well-formed envelope well-formed and changes neither
/// its times nor its deltas.
pub proof fn lemma_step_wf(e: ADSR)
    requires
        e.wf(),
    ensures
        e.step().wf(),
        e.step().r == e.r,
        e.step().dr == e.dr,
        e.step().sample_rate == e.sample_rate,
{
    lemma_frame_delta_bounds(e.a as int, e.sample_rate as int);
    lemma_frame_delta_bounds(e.d as int, e.sample_rate as int);
    lemma_frame_delta_bounds(e.r as int, e.sample_rate as int);
}

/// Any number of frames keeps a well-formed envelope well-formed.
pub proof fn lemma_steps_wf(e: ADSR, n: nat)
    requires
        e.wf(),
    ensures
        e.steps(n).wf(),
        e.steps(n).r == e.r,
        e.steps(n).dr == e.dr,
        e.steps(n).sample_rate == e.sample_rate,
    decreases n,
{
    if n > 0 {
        lemma_step_wf(e);
        lemma_steps_wf(e.step(), (n - 1) as nat);
    }
}

/// A silent envelope stays silent until its gate opens.
pub proof fn lemma_off_stays(e: ADSR, n: nat)
    requires
        e.stage == Stage::Off,
    ensures
        e.steps(n) == e,
    decreases n,
{
    if n > 0 {
        lemma_off_stays(e.step(), (n - 1) as nat);
    }
}

/// A releasing envelope is silent once its delta, frame by frame, has used
/// up the value it started from.
pub proof fn lemma_release_completes(e: ADSR, n: nat)
    requires
        e.wf(),
        e.stage == Stage::Release,
        n >= 1,
        n * e.dr >= e.val,
    ensures
        e.steps(n).stage == Stage::Off,
        e.steps(n).val == 0,
    decreases n,
{
    lemma_frame_delta_bounds(e.r as int, e.sample_rate as int);
    lemma_step_wf(e);
    let next = e.step();
    if e.val - e.dr <= 0 {
        lemma_off_stays(next, (n - 1) as nat);
    } else {
        assert((n - 1) * e.dr >= next.val) by (nonlinear_arith)
            requires
                n * e.dr >= e.val,
                next.val == e.val - e.dr,
        ;
        assert(n - 1 >= 1) by (nonlinear_arith)
            requires
                (n - 1) * e.dr >= next.val,
                next.val > 0,
                n >= 1,
        ;
        lemma_release_completes(next, (n - 1) as nat);
    }
}

/// Press the key, let any number of frames pass, let the key go, then let
/// more frames pass than the release time holds: the envelope is off and
/// its value is 0. (`frames * ONE > r * sample_rate` says that `frames`
/// exceeds `r` seconds' worth of frames, `r` being in 2^-32 s.)
pub proof fn lemma_gate_cycle_ends_off(e: ADSR, held: nat, frames: nat)
    requires
        e.wf(),
        frames * ONE > e.r * e.sample_rate,
    ensures
        e.opened().steps(held).closed().steps(frames).stage == Stage::Off,
        e.opened().steps(held).closed().steps(frames).val == 0,
{
    let pressed = e.opened();
    lemma_steps_wf(pressed, held);
    let let_go = pressed.steps(held).closed();
    lemma_frame_delta_covers(e.r as int, e.sample_rate as int, frames as int);
    assert(frames >= 1) by (nonlinear_arith)
        requires
            frames * ONE > e.r * e.sample_rate,
            e.r >= 0,
            e.sample_rate >= 0,
    ;
    lemma_release_completes(let_go, frames);
}

} // verus!
