//! Single-period wavetables and their interpolated lookup.

use vstd::prelude::*;
use crate::counter::{Counter, FRACTION_STEPS, TABLE_SIZE};
use crate::sine::{lemma_sine_range, sine_at, sine_entry, QUARTER};
use crate::types::{Sample, ONE};

verus! {

/// The waveforms a wavetable can hold.
#[derive(Clone, Copy, Debug, Eq, Hash, PartialEq, Structural)]
pub enum Waveforms {
    Sine,
    Square,
    Triangle,
    Saw,
    Noise,
}

/// Table entries in half a period: 2^18.
pub const HALF: usize = 0x4_0000;

/// Entry `t` of the triangle: up from 0 to full scale over the first
/// quarter, down to negative full scale over the next two, back up to 0.
pub open spec fn triangle_at(t: int) -> int {
    if t < QUARTER {
        t * 0x8000
    } else if t < 3 * QUARTER {
        2 * ONE - t * 0x8000
    } else {
        t * 0x8000 - 4 * ONE
    }
}

/// Entry `t` of the square: full scale in the first half, negative full
/// scale in the second, and 0 on the two entries where it jumps.
pub open spec fn square_at(t: int) -> int {
    if t == 0 || t == HALF {
        0
    } else if t < HALF {
        ONE as int
    } else {
        -ONE
    }
}

/// Entry `t` of the saw: a ramp from 0 up to full scale over the first
/// half, then from negative full scale up to 0.
pub open spec fn saw_at(t: int) -> int {
    if t < HALF {
        t * 0x4000
    } else {
        t * 0x4000 - 2 * ONE
    }
}

/// Entry `t` of waveform `w`. Noise has no fixed entries; here it reads 0.
pub open spec fn waveform_at(w: Waveforms, t: int) -> int {
    match w {
        Waveforms::Sine => sine_at(t),
        Waveforms::Square => square_at(t),
        Waveforms::Triangle => triangle_at(t),
        Waveforms::Saw => saw_at(t),
        Waveforms::Noise => 0,
    }
}

/// The table has 2^19 entries, all within full scale.
pub open spec fn table_in_range(table: Seq<Sample>) -> bool {
    &&& table.len() == TABLE_SIZE
    &&& forall|t: int| 0 <= t < TABLE_SIZE ==> -ONE <= #[trigger] table[t] <= ONE
}

/// The table holds one period of `w`.
pub open spec fn table_holds(table: Seq<Sample>, w: Waveforms) -> bool {
    &&& table.len() == TABLE_SIZE
    &&& forall|t: int| 0 <= t < TABLE_SIZE ==> #[trigger] table[t] == waveform_at(w, t)
}

/// The value between two neighbouring entries `y0` and `y1`, `f` of 8192
/// steps on the way from the first to the second, rounded down.
pub open spec fn between(y0: int, y1: int, f: int) -> int {
    (y0 * (FRACTION_STEPS - f) + y1 * f) / (FRACTION_STEPS as int)
}

/// The table read at the counter's phase: linear interpolation between the
/// entry the phase indexes and the next one, the last entry's neighbour
/// being the first.
pub open spec fn interpolated(table: Seq<Sample>, c: Counter) -> int {
    between(
        table[c.slot()] as int,
        table[(c.slot() + 1) % (TABLE_SIZE as int)] as int,
        c.remainder(),
    )
}

/// Every entry of a fixed waveform lies within full scale.
pub proof fn lemma_waveform_range(w: Waveforms, t: int)
    requires
        0 <= t < TABLE_SIZE,
    ensures
        -ONE <= waveform_at(w, t) <= ONE,
{
    lemma_sine_range(t);
}

/// A value between two entries within full scale lies within full scale.
pub(crate) proof fn lemma_between_range(y0: int, y1: int, f: int)
    requires
        -ONE <= y0 <= ONE,
        -ONE <= y1 <= ONE,
        0 <= f < FRACTION_STEPS,
    ensures
        -ONE <= between(y0, y1, f) <= ONE,
        between(y0, y1, f) == ((y0 + ONE) * (FRACTION_STEPS - f) + (y1 + ONE) * f) / (
        FRACTION_STEPS as int) - ONE,
        0 <= (y0 + ONE) * (FRACTION_STEPS - f) <= 2 * ONE * FRACTION_STEPS,
        0 <= (y1 + ONE) * f <= 2 * ONE * FRACTION_STEPS,
{
    let g = FRACTION_STEPS - f;
    let n = y0 * g + y1 * f;
    assert(-ONE * FRACTION_STEPS <= n <= ONE * FRACTION_STEPS) by (nonlinear_arith)
        requires
            -ONE <= y0 <= ONE,
            -ONE <= y1 <= ONE,
            0 <= f,
            0 <= g,
            f + g == FRACTION_STEPS,
            n == y0 * g + y1 * f,
    ;
    assert((y0 + ONE) * g + (y1 + ONE) * f == n + ONE * FRACTION_STEPS) by (nonlinear_arith)
        requires
            f + g == FRACTION_STEPS,
            n == y0 * g + y1 * f,
    ;
    assert(0 <= (y0 + ONE) * g <= 2 * ONE * FRACTION_STEPS) by (nonlinear_arith)
        requires
            0 <= y0 + ONE <= 2 * ONE,
            0 <= g <= FRACTION_STEPS,
    ;
    assert(0 <= (y1 + ONE) * f <= 2 * ONE * FRACTION_STEPS) by (nonlinear_arith)
        requires
            0 <= y1 + ONE <= 2 * ONE,
            0 <= f <= FRACTION_STEPS,
    ;
}

/// One period of a waveform, read by a phase counter.
pub struct WaveTable {
    table_size: usize,
    table: Vec<Sample>,
}

impl View for WaveTable {
    type V = Seq<Sample>;

    /// The table's entries.
    closed spec fn view(&self) -> Seq<Sample> {
        self.table@
    }
}

/// Draws an integer from the half-open range `low..high`. The body calls
/// `rand::Rng::gen_range` on `rand::thread_rng()`. `gen_range` returns a
/// value of the range it is given and panics on an empty range, which the
/// precondition leaves out; no more is claimed here than that the draw
/// lies in the range.
#[verifier::external_body]
fn random_between(low: i64, high: i64) -> (s: i64)
    requires
        low < high,
    ensures
        low <= s < high,
{
    rand::Rng::gen_range(&mut rand::thread_rng(), low..high)
}

impl WaveTable {
    /// The table has its full size and every entry lies within full scale.
    pub closed spec fn wf(&self) -> bool {
        &&& self.table_size == TABLE_SIZE
        &&& table_in_range(self.table@)
    }

    /// A well-formed table's view has 2^19 entries within full scale.
    pub proof fn lemma_wf_view(&self)
        requires
            self.wf(),
        ensures
            table_in_range(self@),
    {
    }

    /// The table of `waveform`. Sine, square, triangle and saw are fixed
    /// entry by entry; of noise only the range of the entries is known.
    pub fn new(waveform: Waveforms) -> (wt: WaveTable)
        ensures
            wt.wf(),
            table_in_range(wt@),
            waveform != Waveforms::Noise ==> table_holds(wt@, waveform),
    {
        let mut ret = WaveTable { table_size: TABLE_SIZE, table: vec![0; TABLE_SIZE] };
        ret.setup_table(waveform);
        ret
    }

    /// The number of entries.
    pub fn len(&self) -> (n: usize)
        requires
            self.wf(),
        ensures
            n == TABLE_SIZE,
            n == self@.len(),
    {
        self.table_size
    }

    /// Entry `t` of the table.
    pub fn entry(&self, t: usize) -> (s: Sample)
        requires
            self.wf(),
            t < TABLE_SIZE,
        ensures
            s == self@[t as int],
            -ONE <= s <= ONE,
    {
        self.table[t]
    }

    /// Reads the table at the counter's phase, interpolating linearly
    /// between neighbouring entries, and advances the counter by one frame.
    pub fn lookup(&self, phase: &mut Counter) -> (s: Sample)
        requires
            self.wf(),
        ensures
            s == interpolated(self@, *old(phase)),
            -ONE <= s <= ONE,
            *final(phase) == old(phase).advanced(),
    {
        let p0: usize = phase.index() as usize;
        let f: u64 = phase.modulo() as u64;
        let p1: usize = if p0 + 1 == TABLE_SIZE {
            0
        } else {
            p0 + 1
        };
        let y0: Sample = self.table[p0];
        let y1: Sample = self.table[p1];
        proof {
            lemma_between_range(y0 as int, y1 as int, f as int);
        }
        let u0: u64 = (y0 + ONE) as u64;
        let u1: u64 = (y1 + ONE) as u64;
        let weighted: u64 = u0 * (FRACTION_STEPS as u64 - f) + u1 * f;
        phase.increment();
        (weighted / (FRACTION_STEPS as u64)) as i64 - ONE
    }

    /// Entry `t` of the triangle.
    fn triangle_entry(t: usize) -> (s: Sample)
        requires
            t < TABLE_SIZE,
        ensures
            s == triangle_at(t as int),
    {
        let ramp: i64 = (t as i64) * 0x8000;
        if t < QUARTER {
            ramp
        } else if t < 3 * QUARTER {
            2 * ONE - ramp
        } else {
            ramp - 4 * ONE
        }
    }

    /// Entry `t` of the square.
    fn square_entry(t: usize) -> (s: Sample)
        requires
            t < TABLE_SIZE,
        ensures
            s == square_at(t as int),
    {
        if t == 0 || t == HALF {
            0
        } else if t < HALF {
            ONE
        } else {
            -ONE
        }
    }

    /// Entry `t` of the saw.
    fn saw_entry(t: usize) -> (s: Sample)
        requires
            t < TABLE_SIZE,
        ensures
            s == saw_at(t as int),
    {
        let ramp: i64 = (t as i64) * 0x4000;
        if t < HALF {
            ramp
        } else {
            ramp - 2 * ONE
        }
    }

    /// Fills the table with one period of `waveform`.
    fn setup_table(&mut self, waveform: Waveforms)
        requires
            old(self).table_size == TABLE_SIZE,
            old(self)@.len() == TABLE_SIZE,
        ensures
            final(self).wf(),
            table_in_range(final(self)@),
            waveform != Waveforms::Noise ==> table_holds(final(self)@, waveform),
    {
        let table_size: usize = self.table_size;
        let mut t: usize = 0;
        while t < table_size
            invariant
                table_size == TABLE_SIZE,
                self.table_size == TABLE_SIZE,
                self.table@.len() == TABLE_SIZE,
                t <= TABLE_SIZE,
                forall|k: int| 0 <= k < t ==> -ONE <= #[trigger] self.table@[k] <= ONE,
                waveform != Waveforms::Noise ==> forall|k: int|
                    0 <= k < t ==> #[trigger] self.table@[k] == waveform_at(waveform, k),
            decreases table_size - t,
        {
            proof {
                lemma_waveform_range(waveform, t as int);
            }
            let v: Sample = match waveform {
                Waveforms::Sine => sine_entry(t),
                Waveforms::Triangle => Self::triangle_entry(t),
                Waveforms::Square => Self::square_entry(t),
                Waveforms::Saw => Self::saw_entry(t),
                Waveforms::Noise => random_between(-ONE, ONE),
            };
            self.table[t] = v;
            t += 1;
        }
    }
}

} // verus!
