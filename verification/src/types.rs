//! The number formats of the engine, its errors and its traits.

use vstd::prelude::*;
use crate::midi::MidiMessage;

verus! {

/// Hertz, in units of 2^-32 Hz.
pub type Frequency = u64;

/// Amplitude, in units of 2^-32; full scale is [`ONE`].
pub type Sample = i64;

/// Frames per second.
pub type SampleRate = u32;

/// Seconds, in units of 2^-32 s.
pub type Seconds = i64;

/// The number 1.0 in 32.32 fixed point.
pub const ONE: i64 = 0x1_0000_0000;

/// 0.01 in 32.32 fixed point, rounded down, so that a hundred of them do
/// not exceed 1.
pub const HUNDREDTH: i64 = 42949672;

/// The smaller of two integers.
pub open spec fn min_int(x: int, y: int) -> int {
    if x <= y {
        x
    } else {
        y
    }
}

/// Product of two 32.32 numbers, rounded down to 32.32.
pub open spec fn fixed_mul(x: int, y: int) -> int {
    x * y / (ONE as int)
}

/// Quotient `n / d` rounded up, for `d > 0`.
pub open spec fn ceil_div(n: int, d: int) -> int {
    (n + d - 1) / d
}

/// `b` to the power `e`.
pub open spec fn power(b: int, e: nat) -> int
    decreases e,
{
    if e == 0 {
        1
    } else {
        b * power(b, (e - 1) as nat)
    }
}

/// A non-negative value cut off at the largest `u64`.
pub open spec fn saturated(x: int) -> int {
    min_int(x, u64::MAX as int)
}

/// What the library can report as having gone wrong at run time.
#[derive(Clone, Copy, Debug, PartialEq, Eq, Structural)]
pub enum SynthError {
    /// A byte sequence that is no complete, recognised MIDI message.
    DecoderMalformed,
    /// The MIDI queue had no room; the message was dropped.
    QueueFull,
    /// The other end of the MIDI queue is gone; the message was dropped.
    QueueClosed,
}

/// Something whose timing depends on the audio frame rate.
pub trait SampleRated {
    /// Takes the frame rate and adjusts whatever depends on it.
    fn set_sample_rate(&mut self, sample_rate: SampleRate);
}

/// Something that produces stereo frames.
pub trait Generator {
    /// Whether the generator is in a state from which it can produce.
    spec fn ready(&self) -> bool;

    /// The next frame, left and right.
    fn generate(&mut self) -> (frame: [Sample; 2])
        requires
            old(self).ready(),
        ensures
            final(self).ready(),
    ;
}

/// Something that reacts to MIDI messages.
pub trait MidiDispatcher {
    /// Whether the dispatcher is in a state in which it takes messages.
    spec fn attentive(&self) -> bool;

    /// Takes one message.
    fn dispatch_midi_in(&mut self, msg: &MidiMessage)
        requires
            old(self).attentive(),
        ensures
            final(self).attentive(),
    ;
}

/// `0 <= x*y` and `x*y <= bx*by` for bounded non-negative factors.
pub(crate) proof fn lemma_mul_bounds(x: int, y: int, bx: int, by: int)
    by (nonlinear_arith)
    requires
        0 <= x <= bx,
        0 <= y <= by,
    ensures
        0 <= x * y <= bx * by,
{
}

/// Powers of a positive base are positive and grow with the exponent.
pub(crate) proof fn lemma_power_grows(b: int, e: nat)
    requires
        b >= 1,
    ensures
        power(b, e) >= 1,
        power(b, e + 1) >= power(b, e),
    decreases e,
{
    if e > 0 {
        lemma_power_grows(b, (e - 1) as nat);
    }
    assert(power(b, e + 1) == b * power(b, e));
    assert(b * power(b, e) >= power(b, e)) by (nonlinear_arith)
        requires
            b >= 1,
            power(b, e) >= 1,
    ;
}

/// `b^(x + y) == b^x * b^y`.
pub(crate) proof fn lemma_power_adds(b: int, x: nat, y: nat)
    ensures
        power(b, x + y) == power(b, x) * power(b, y),
    decreases x,
{
    if x == 0 {
        assert(power(b, x) == 1);
        assert(1 * power(b, y) == power(b, y));
    } else {
        lemma_power_adds(b, (x - 1) as nat, y);
        assert(power(b, x + y) == b * power(b, ((x - 1) + y) as nat));
        assert(b * (power(b, (x - 1) as nat) * power(b, y)) == (b * power(b, (x - 1) as nat)) * power(
            b,
            y,
        )) by (nonlinear_arith);
    }
}

/// Powers of a positive base do not shrink as the exponent grows.
pub(crate) proof fn lemma_power_monotone(b: int, lo: nat, hi: nat)
    requires
        b >= 1,
        lo <= hi,
    ensures
        1 <= power(b, lo) <= power(b, hi),
    decreases hi - lo,
{
    lemma_power_grows(b, lo);
    if lo < hi {
        lemma_power_monotone(b, lo + 1, hi);
    }
}

/// `b^e` for small results.
pub(crate) fn power_exec(b: u64, e: u32) -> (p: u64)
    requires
        b >= 1,
        power(b as int, e as nat) <= u64::MAX,
    ensures
        p == power(b as int, e as nat),
{
    let mut p: u64 = 1;
    let mut i: u32 = 0;
    while i < e
        invariant
            i <= e,
            b >= 1,
            p == power(b as int, i as nat),
            power(b as int, e as nat) <= u64::MAX,
        decreases e - i,
    {
        proof {
            lemma_power_monotone(b as int, (i + 1) as nat, e as nat);
            assert(power(b as int, (i + 1) as nat) == b * power(b as int, i as nat));
        }
        p = p * b;
        i += 1;
    }
    p
}

} // verus!
