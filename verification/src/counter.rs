//! The phase accumulator that reads a wavetable at a given frequency.

use vstd::prelude::*;
use crate::types::{min_int, Frequency, Sample, SampleRate, SampleRated};

verus! {

/// Bits of the phase that index the wavetable.
pub const TABLE_BITS: usize = 19;

/// Entries of a wavetable: 2^19.
pub const TABLE_SIZE: usize = 0x8_0000;

/// Bits of the phase below the table index.
pub const SHIFT: u32 = 13;

/// 2^13, the number of phase steps between two table entries.
pub const FRACTION_STEPS: u32 = 0x2000;

/// 2^32, the number of phase steps in one period.
pub const PERIOD: u64 = 0x1_0000_0000;

/// A 32-bit phase accumulator. The phase wraps once per period of the
/// waveform; its high 19 bits index the wavetable, its low 13 bits say how
/// far the phase is on the way to the next entry.
#[derive(Clone, Copy, Debug)]
pub struct Counter {
    pub phase: u32,
    pub incr: u32,
    pub sample_rate: SampleRate,
}

/// The phase step per frame for frequency `f` (in 2^-32 Hz) at `rate` frames
/// per second: `f_hz * 2^32 / rate` rounded to nearest, halves up, and
/// saturated at the largest step. Without a frame rate the step is 0.
pub open spec fn phase_increment(f: int, rate: int) -> int {
    if rate <= 0 {
        0
    } else {
        min_int((2 * f + rate) / (2 * rate), u32::MAX as int)
    }
}

impl Counter {
    /// The counter as it starts: phase 0, step 1, no frame rate.
    pub open spec fn initial() -> Counter {
        Counter { phase: 0, incr: 1, sample_rate: 0 }
    }

    /// The wavetable index: the high 19 bits of the phase.
    pub open spec fn slot(self) -> int {
        self.phase as int / (FRACTION_STEPS as int)
    }

    /// The low 13 bits of the phase.
    pub open spec fn remainder(self) -> int {
        self.phase as int % (FRACTION_STEPS as int)
    }

    /// The counter one frame later.
    pub open spec fn advanced(self) -> Counter {
        Counter { phase: ((self.phase + self.incr) % (PERIOD as int)) as u32, ..self }
    }

    /// The counter `k` frames later.
    pub open spec fn advanced_by(self, k: nat) -> Counter
        decreases k,
    {
        if k == 0 {
            self
        } else {
            self.advanced().advanced_by((k - 1) as nat)
        }
    }

    /// The counter stepping at frequency `f`.
    pub open spec fn tuned_to(self, f: int) -> Counter {
        Counter { incr: phase_increment(f, self.sample_rate as int) as u32, ..self }
    }

    /// A counter at phase 0; see [`Counter::initial`].
    pub fn new() -> (c: Counter)
        ensures
            c == Counter::initial(),
    {
        Counter { phase: 0, incr: 1, sample_rate: 0 }
    }

    /// The phase step for frequency `f` at this counter's frame rate.
    pub fn calc_freq(&self, f: Frequency) -> (step: u32)
        ensures
            step == phase_increment(f as int, self.sample_rate as int),
    {
        if self.sample_rate == 0 {
            return 0;
        }
        let rate: u128 = self.sample_rate as u128;
        let q: u128 = (2 * (f as u128) + rate) / (2 * rate);
        if q > u32::MAX as u128 {
            u32::MAX
        } else {
            q as u32
        }
    }

    /// Makes the counter step at frequency `f`.
    pub fn set_freq(&mut self, f: Frequency)
        ensures
            *final(self) == old(self).tuned_to(f as int),
    {
        self.incr = self.calc_freq(f);
    }

    /// Advances the phase by one frame; the phase wraps modulo 2^32.
    pub fn increment(&mut self)
        ensures
            *final(self) == old(self).advanced(),
    {
        self.phase = self.phase.wrapping_add(self.incr);
    }

    /// Puts the phase on entry `i` of the wavetable.
    pub fn set_phase(&mut self, i: u8)
        ensures
            final(self).phase == i * FRACTION_STEPS,
            final(self).incr == old(self).incr,
            final(self).sample_rate == old(self).sample_rate,
            final(self).slot() == i,
            final(self).remainder() == 0,
    {
        self.phase = (i as u32) * FRACTION_STEPS;
    }

    /// The wavetable index.
    pub fn index(&self) -> (i: u32)
        ensures
            i == self.slot(),
            i < TABLE_SIZE,
    {
        let p: u32 = self.phase;
        assert(p >> 13 == p / 0x2000) by (bit_vector);
        self.phase >> SHIFT
    }

    /// The low 13 bits of the phase.
    pub fn modulo(&self) -> (m: u32)
        ensures
            m == self.remainder(),
            m < FRACTION_STEPS,
    {
        let p: u32 = self.phase;
        assert(p & 0x1FFF == p % 0x2000) by (bit_vector);
        self.phase & (FRACTION_STEPS - 1)
    }

    /// How far the phase is between two table entries, as a 32.32 number in
    /// `[0, 1)`.
    pub fn frac(&self) -> (f: Sample)
        ensures
            f == self.remainder() * 0x8_0000,
            0 <= f < 0x1_0000_0000,
    {
        (self.modulo() as i64) * 0x8_0000
    }
}

impl SampleRated for Counter {
    /// Records the frame rate; the step changes with the next `set_freq`.
    fn set_sample_rate(&mut self, sample_rate: SampleRate)
        ensures
            *final(self) == (Counter { sample_rate, ..*old(self) }),
    {
        self.sample_rate = sample_rate;
    }
}

/// After `k` frames the phase is the start plus `k` steps, modulo 2^32.
pub proof fn lemma_advanced_by(c: Counter, k: nat)
    ensures
        c.advanced_by(k).phase == (c.phase + k * c.incr) % (PERIOD as int),
        c.advanced_by(k).incr == c.incr,
        c.advanced_by(k).sample_rate == c.sample_rate,
    decreases k,
{
    if k == 0 {
        assert(k * c.incr == 0);
    } else {
        let next = c.advanced();
        lemma_advanced_by(next, (k - 1) as nat);
        let rest = (k - 1) * c.incr;
        assert(k * c.incr == rest + c.incr) by (nonlinear_arith)
            requires
                rest == (k - 1) * c.incr,
        ;
        assert(0 <= rest) by (nonlinear_arith)
            requires
                rest == (k - 1) * c.incr,
                k >= 1,
        ;
    }
}

/// A counter whose step, taken `k` times, makes whole periods is back at the
/// phase it started from after `k` frames.
pub proof fn lemma_whole_periods_return(c: Counter, k: nat)
    requires
        (k * c.incr) % (PERIOD as int) == 0,
    ensures
        c.advanced_by(k).phase == c.phase,
{
    lemma_advanced_by(c, k);
    let steps = k * c.incr;
    assert(0 <= steps) by (nonlinear_arith)
        requires
            steps == k * c.incr,
    ;
    assert((c.phase + steps) % (PERIOD as int) == c.phase);
}

/// A counter tuned to a quarter of the frame rate steps a quarter period.
pub proof fn lemma_quarter_rate_step(rate: SampleRate)
    requires
        rate > 0,
    ensures
        phase_increment(rate * 0x4000_0000, rate as int) == 0x4000_0000,
{
    let f = rate * 0x4000_0000;
    assert((2 * f + rate) / (2 * rate) == 0x4000_0000) by (nonlinear_arith)
        requires
            rate > 0,
            f == rate * 0x4000_0000,
    ;
}

/// Tuned to a quarter of the frame rate and started at 0, the counter is
/// back on index 0 after `rate / 4` frames, for every frame rate whose
/// quarter is a whole number of periods, that is a multiple of 4.
/// (`rate * 2^30` is a quarter of `rate` Hz in 2^-32 Hz.)
pub proof fn lemma_quarter_rate_returns(c: Counter, rate: SampleRate)
    requires
        rate > 0,
        (rate / 4) % 4 == 0,
        c.sample_rate == rate,
        c.phase == 0,
    ensures
        c.tuned_to(rate * 0x4000_0000).advanced_by((rate / 4) as nat).phase == 0,
        c.tuned_to(rate * 0x4000_0000).advanced_by((rate / 4) as nat).slot() == 0,
{
    lemma_quarter_rate_step(rate);
    let t = c.tuned_to(rate * 0x4000_0000);
    let k = (rate / 4) as nat;
    let turns = k as int / 4;
    assert(k == 4 * turns);
    assert(k * t.incr == turns * 0x1_0000_0000) by (nonlinear_arith)
        requires
            k == 4 * turns,
            t.incr == 0x4000_0000,
    ;
    assert((turns * 0x1_0000_0000) % 0x1_0000_0000 == 0) by (nonlinear_arith);
    lemma_whole_periods_return(t, k);
}

} // verus!
