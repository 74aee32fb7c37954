//! Tunings: from twelve interval ratios to the frequency of every MIDI note.

use vstd::prelude::*;
use crate::presets::{
    equal_interval, fifths, frac, hammond_fold, lemma_fifths_small, lemma_preset_slots_apart, lemma_presets_within_octave, preset_high_tritone,
    preset_interval, preset_low_tritone,
};
use crate::types::{lemma_mul_bounds, lemma_power_adds, lemma_power_monotone, power, power_exec, saturated, Frequency};

verus! {

/// The tuning presets.
#[derive(Clone, Copy, Debug, PartialEq, Eq, Structural)]
pub enum Tuning {
    EquaTemp,
    MeanTemp,
    Just5Temp,
    KeplTemp,
    PythTemp,
    HammTemp,
    PtolTemp,
    ChinTemp,
    Dowland,
    Kirnberger,
}

/// A frequency ratio `num / den`. A ratio of zero marks an interval slot
/// that takes one of the two tritone substitutes.
#[derive(Clone, Copy, Debug, PartialEq, Eq, Structural)]
pub struct Ratio {
    pub num: u64,
    pub den: u64,
}

/// 440 Hz.
pub const CONCERT_A: u64 = 0x1B8_0000_0000;

/// Denominator of the ratios that stand for irrational intervals: 2^62.
pub const IRRATIONAL_DEN: u64 = 0x4000_0000_0000_0000;

/// The note whose frequency is `freq_a`.
pub const NOTE_A: usize = 69;

/// Notes below this take the low tritone substitute, the others the high one.
pub const TRITONE_SPLIT: usize = 62;

impl Ratio {
    /// The ratio's denominator is not zero.
    pub open spec fn wf(self) -> bool {
        self.den > 0
    }

    /// The ratio is at least 1 and less than 2.
    pub open spec fn within_octave(self) -> bool {
        self.den > 0 && self.den <= self.num < 2 * self.den
    }

    /// `self < other` as fractions.
    pub open spec fn less_than(self, other: Ratio) -> bool {
        self.num * other.den < other.num * self.den
    }
}

/// `f` times `r`, rounded down and saturated.
pub open spec fn scale_ratio(f: int, r: Ratio) -> int {
    saturated(f * r.num / (r.den as int))
}

/// `f * 2^up / 2^down`, rounded down and saturated.
pub open spec fn shift_octaves(f: int, up: nat, down: nat) -> int {
    saturated(f * power(2, up) / power(2, down))
}

/// Which of the twelve interval slots note `n` falls on: slot 0 is A.
pub open spec fn interval_slot(n: int) -> int {
    (n + 3) % 12
}

/// Octave index of note `n`; the octave of note 69 has index 6.
pub open spec fn octave_index(n: int) -> nat {
    ((n + 3) / 12) as nat
}

/// The frequency of note `n` for reference pitch `freq_a` and interval `r`:
/// `freq_a * r * 2^(octave - 6)`.
pub open spec fn note_frequency(freq_a: int, r: Ratio, n: int) -> int {
    shift_octaves(scale_ratio(freq_a, r), octave_index(n), 6)
}

/// The multiplier `2^(octave_index(i) - 6)` in 32.32 fixed point, saturated.
pub open spec fn octave_multiplier(i: int) -> int {
    if i <= 440 {
        power(2, octave_index(i) + 26)
    } else {
        u64::MAX as int
    }
}

/// The interval that note `n` takes when slots holding zero are replaced by
/// the tritone substitutes: `lo` below note 62, `hi` from there on.
pub open spec fn just_interval(intervals: Seq<Ratio>, lo: Ratio, hi: Ratio, n: int) -> Ratio {
    let r = intervals[interval_slot(n)];
    if r.num == 0 {
        if n < TRITONE_SPLIT {
            lo
        } else {
            hi
        }
    } else {
        r
    }
}

/// The frequency of note `n` once the table is centred on `tonic` with
/// frequency `center`: `center * intervals[k mod 12] * 2^floor(k / 12)`
/// for `k = n - tonic`.
pub open spec fn modulated_frequency(center: int, intervals: Seq<Ratio>, tonic: int, n: int) -> int {
    let k = n - tonic;
    shift_octaves(scale_ratio(center, intervals[k % 12]), (k / 12 + 7) as nat, 7)
}

/// The first powers of two.
pub(crate) proof fn lemma_small_powers_of_two()
    ensures
        power(2, 0) == 1,
        power(2, 1) == 2,
        power(2, 2) == 4,
        power(2, 3) == 8,
        power(2, 4) == 16,
        power(2, 5) == 32,
        power(2, 6) == 64,
        power(2, 7) == 128,
        power(2, 8) == 256,
        power(2, 9) == 512,
        power(2, 10) == 1024,
        power(2, 11) == 2048,
{
    reveal_with_fuel(power, 12);
}

/// `f * r`, rounded down and saturated.
pub(crate) fn scale_by_ratio(f: Frequency, r: Ratio) -> (g: Frequency)
    requires
        r.wf(),
    ensures
        g == scale_ratio(f as int, r),
{
    proof {
        lemma_mul_bounds(f as int, r.num as int, u64::MAX as int, u64::MAX as int);
    }
    let wide: u128 = (f as u128) * (r.num as u128) / (r.den as u128);
    if wide > u64::MAX as u128 {
        u64::MAX
    } else {
        wide as u64
    }
}

/// `f * 2^up / 2^down`, rounded down and saturated.
pub(crate) fn shift_by_octaves(f: Frequency, up: u32, down: u32) -> (g: Frequency)
    requires
        up <= 11,
        down <= 11,
    ensures
        g == shift_octaves(f as int, up as nat, down as nat),
{
    proof {
        lemma_small_powers_of_two();
        lemma_power_monotone(2, up as nat, 11);
        lemma_power_monotone(2, down as nat, 11);
        lemma_mul_bounds(f as int, power(2, up as nat), u64::MAX as int, 2048);
    }
    let m: u64 = power_exec(2, up);
    let d: u64 = power_exec(2, down);
    let wide: u128 = (f as u128) * (m as u128) / (d as u128);
    if wide > u64::MAX as u128 {
        u64::MAX
    } else {
        wide as u64
    }
}

/// One preset's tuning: the twelve interval ratios and the table of note
/// frequencies derived from them.
#[derive(Clone, Copy, Debug)]
pub struct TuningData {
    pub freq_table: [Frequency; 128],
    pub fund_table: [Frequency; 12],
    pub intervals: [Ratio; 12],
    pub freq_a: Frequency,
    pub lo_tt: Ratio,
    pub hi_tt: Ratio,
    pub tuning: Tuning,
}

impl TuningData {
    /// No ratio of the tuning has a zero denominator.
    pub open spec fn wf(self) -> bool {
        &&& forall|i: int| 0 <= i < 12 ==> (#[trigger] self.intervals[i]).wf()
        &&& self.lo_tt.wf()
        &&& self.hi_tt.wf()
    }

    /// Every note's frequency is `freq_a` times its interval, in its octave.
    pub open spec fn tuned(self) -> bool {
        forall|n: int|
            0 <= n < 128 ==> #[trigger] self.freq_table[n] == note_frequency(
                self.freq_a as int,
                self.intervals[interval_slot(n)],
                n,
            )
    }

    /// As [`Self::tuned`], with the tritone substitutes in the slots that hold zero.
    pub open spec fn tuned_just(self) -> bool {
        forall|n: int|
            0 <= n < 128 ==> #[trigger] self.freq_table[n] == note_frequency(
                self.freq_a as int,
                just_interval(self.intervals@, self.lo_tt, self.hi_tt, n),
                n,
            )
    }

    /// The anchors are the frequencies of notes 69 to 80.
    pub open spec fn anchored(self) -> bool {
        forall|i: int| 0 <= i < 12 ==> #[trigger] self.fund_table[i] == self.freq_table[NOTE_A + i]
    }

    /// The intervals are those of preset `t`, with its tritone substitutes.
    pub open spec fn holds_preset(self, t: Tuning) -> bool {
        &&& forall|i: int| 0 <= i < 12 ==> #[trigger] self.intervals[i] == preset_interval(t, i)
        &&& self.lo_tt == preset_low_tritone(t)
        &&& self.hi_tt == preset_high_tritone(t)
    }

    /// The tuning of preset `t` at 440 Hz, with every frequency positive.
    pub open spec fn is_preset(self, t: Tuning) -> bool {
        &&& self.tuning == t
        &&& self.freq_a == CONCERT_A
        &&& self.holds_preset(t)
        &&& self.wf()
        &&& self.tuned()
        &&& self.anchored()
        &&& forall|n: int| 0 <= n < 128 ==> #[trigger] self.freq_table[n] > 0
    }

    /// Every note is `center * intervals[k mod 12] * 2^floor(k / 12)`, `k`
    /// being its distance from `tonic`.
    pub open spec fn centred_on(self, center: int, tonic: int) -> bool {
        forall|n: int|
            0 <= n < 128 ==> #[trigger] self.freq_table[n] == modulated_frequency(
                center,
                self.intervals@,
                tonic,
                n,
            )
    }

    /// The tuning of preset `t` at 440 Hz. Every frequency in it is positive.
    pub fn new(t: Tuning) -> (td: TuningData)
        ensures
            td.is_preset(t),
    {
        let zero = Ratio { num: 0, den: 1 };
        let mut td = TuningData {
            tuning: t,
            freq_table: [0;128],
            fund_table: [0;12],
            intervals: [zero;12],
            freq_a: CONCERT_A,
            lo_tt: zero,
            hi_tt: zero,
        };
        td.init_octave();
        proof {
            lemma_presets_within_octave(t);
            assert forall|n: int| 0 <= n < 128 implies #[trigger] td.freq_table[n] > 0 by {
                lemma_note_frequency_positive(
                    td.freq_a as int,
                    td.intervals[interval_slot(n)],
                    n,
                );
            }
        }
        td
    }

    /// A tone-wheel ratio; see [`hammond_fold`].
    fn hammond(a: u64, b: u64) -> (r: Ratio)
        requires
            a <= 1000,
            0 < b <= 1000,
        ensures
            r == hammond_fold(a as int, b as int),
    {
        if 8 * a < 11 * b {
            Ratio { num: 16 * a, den: 11 * b }
        } else {
            Ratio { num: 8 * a, den: 11 * b }
        }
    }

    /// `3^x / 2^y`; see [`fifths`].
    fn cfrac(x: u32, y: u32) -> (r: Ratio)
        requires
            x <= 11,
            y <= 17,
        ensures
            r == fifths(x as nat, y as nat),
    {
        proof {
            lemma_fifths_small();
            lemma_power_monotone(3, x as nat, 11);
            lemma_power_monotone(2, y as nat, 17);
        }
        Ratio { num: power_exec(3, x), den: power_exec(2, y) }
    }

    /// Fills the intervals with those of the preset and tunes the table.
    fn init_octave(&mut self)
        ensures
            final(self).tuning == old(self).tuning,
            final(self).freq_a == old(self).freq_a,
            final(self).holds_preset(old(self).tuning),
            final(self).wf(),
            final(self).tuned(),
            final(self).anchored(),
    {
        self.lo_tt = Ratio { num: 0, den: 1 };
        self.hi_tt = Ratio { num: 0, den: 1 };
        match self.tuning {
            Tuning::EquaTemp => {
                let e_f: [Ratio; 12] = [
                    Ratio { num: 0x4000_0000_0000_0000, den: IRRATIONAL_DEN },
                    Ratio { num: 0x43CE_3E4B_65E5_8B2F, den: IRRATIONAL_DEN },
                    Ratio { num: 0x47D6_6B0F_1F5A_FF5A, den: IRRATIONAL_DEN },
                    Ratio { num: 0x4C1B_F828_C6DC_54B7, den: IRRATIONAL_DEN },
                    Ratio { num: 0x50A2_8BE6_35CA_2B88, den: IRRATIONAL_DEN },
                    Ratio { num: 0x556E_0423_C3B1_77F2, den: IRRATIONAL_DEN },
                    Ratio { num: 0x5A82_7999_FCEF_3242, den: IRRATIONAL_DEN },
                    Ratio { num: 0x5FE4_435D_A33E_BF9B, den: IRRATIONAL_DEN },
                    Ratio { num: 0x6597_FA94_F5B8_F20A, den: IRRATIONAL_DEN },
                    Ratio { num: 0x6BA2_7E65_6B4E_B57A, den: IRRATIONAL_DEN },
                    Ratio { num: 0x7208_F81D_3B04_A51A, den: IRRATIONAL_DEN },
                    Ratio { num: 0x78D0_DF9C_404D_0EDE, den: IRRATIONAL_DEN },
                ];
                proof {
                    lemma_array_holds_preset(e_f, self.tuning);
                }
                self.init(e_f);
            },
            Tuning::MeanTemp => {
                let e_f: [Ratio; 12] = [
                    Ratio { num: 0x4000_0000_0000_0000, den: IRRATIONAL_DEN },
                    Ratio { num: 0x42DF_C076_7314_71FE, den: IRRATIONAL_DEN },
                    Ratio { num: 0x478D_DE6E_5FD2_9F05, den: IRRATIONAL_DEN },
                    Ratio { num: 0x4C8F_D5E6_4AAE_2D5F, den: IRRATIONAL_DEN },
                    Ratio { num: 0x5000_0000_0000_0000, den: IRRATIONAL_DEN },
                    Ratio { num: 0x5599_4845_B205_B0A2, den: IRRATIONAL_DEN },
                    Ratio { num: 0x5971_5609_F7C7_46C6, den: IRRATIONAL_DEN },
                    Ratio { num: 0x5FB3_CB5F_DD59_B8B7, den: IRRATIONAL_DEN },
                    Ratio { num: 0x6400_0000_0000_0000, den: IRRATIONAL_DEN },
                    Ratio { num: 0x6AFF_9A57_1E87_1CCA, den: IRRATIONAL_DEN },
                    Ratio { num: 0x727C_9716_FFB7_64D5, den: IRRATIONAL_DEN },
                    Ratio { num: 0x77A0_BE37_D4B0_26E5, den: IRRATIONAL_DEN },
                ];
                proof {
                    lemma_array_holds_preset(e_f, self.tuning);
                }
                self.init(e_f);
            },
            Tuning::Just5Temp => {
                let e_f: [Ratio; 12] = [
                    Ratio { num: 1, den: 1 },
                    Ratio { num: 16, den: 15 },
                    Ratio { num: 9, den: 8 },
                    Ratio { num: 6, den: 5 },
                    Ratio { num: 5, den: 4 },
                    Ratio { num: 4, den: 3 },
                    Ratio { num: 45, den: 32 },
                    Ratio { num: 3, den: 2 },
                    Ratio { num: 8, den: 5 },
                    Ratio { num: 5, den: 3 },
                    Ratio { num: 16, den: 9 },
                    Ratio { num: 15, den: 8 },
                ];
                proof {
                    lemma_array_holds_preset(e_f, self.tuning);
                }
                let g_flat = Ratio { num: 64, den: 45 };
                let f_sharp = Ratio { num: 45, den: 32 };
                self.init_just(e_f, g_flat, f_sharp);
            },
            Tuning::KeplTemp => {
                let e_f: [Ratio; 12] = [
                    Ratio { num: 1, den: 1 },
                    Ratio { num: 135, den: 128 },
                    Ratio { num: 9, den: 8 },
                    Ratio { num: 6, den: 5 },
                    Ratio { num: 5, den: 4 },
                    Ratio { num: 4, den: 3 },
                    Ratio { num: 45, den: 32 },
                    Ratio { num: 3, den: 2 },
                    Ratio { num: 8, den: 5 },
                    Ratio { num: 27, den: 16 },
                    Ratio { num: 9, den: 5 },
                    Ratio { num: 15, den: 8 },
                ];
                proof {
                    lemma_array_holds_preset(e_f, self.tuning);
                }
                self.init(e_f);
            },
            Tuning::PythTemp => {
                let e_f: [Ratio; 12] = [
                    Ratio { num: 1, den: 1 },
                    Ratio { num: 256, den: 243 },
                    Ratio { num: 9, den: 8 },
                    Ratio { num: 32, den: 27 },
                    Ratio { num: 81, den: 64 },
                    Ratio { num: 4, den: 3 },
                    Ratio { num: 729, den: 512 },
                    Ratio { num: 3, den: 2 },
                    Ratio { num: 128, den: 81 },
                    Ratio { num: 27, den: 16 },
                    Ratio { num: 16, den: 9 },
                    Ratio { num: 243, den: 128 },
                ];
                proof {
                    lemma_array_holds_preset(e_f, self.tuning);
                }
                let a_flat = Ratio { num: 1024, den: 729 };
                let g_sharp = Ratio { num: 729, den: 512 };
                self.init_just(e_f, a_flat, g_sharp);
            },
            Tuning::HammTemp => {
                let e_f: [Ratio; 12] = [
                    Self::hammond(88, 64),
                    Self::hammond(67, 46),
                    Self::hammond(108, 70),
                    Self::hammond(85, 104),
                    Self::hammond(71, 82),
                    Self::hammond(67, 73),
                    Self::hammond(105, 108),
                    Self::hammond(103, 100),
                    Self::hammond(84, 77),
                    Self::hammond(74, 64),
                    Self::hammond(98, 80),
                    Self::hammond(96, 74),
                ];
                proof {
                    lemma_array_holds_preset(e_f, self.tuning);
                }
                self.init(e_f);
            },
            Tuning::PtolTemp => {
                let e_f: [Ratio; 12] = [
                    Ratio { num: 1, den: 1 },
                    Ratio { num: 16, den: 15 },
                    Ratio { num: 9, den: 8 },
                    Ratio { num: 6, den: 5 },
                    Ratio { num: 5, den: 4 },
                    Ratio { num: 4, den: 3 },
                    Ratio { num: 7, den: 5 },
                    Ratio { num: 3, den: 2 },
                    Ratio { num: 8, den: 5 },
                    Ratio { num: 5, den: 3 },
                    Ratio { num: 7, den: 4 },
                    Ratio { num: 15, den: 8 },
                ];
                proof {
                    lemma_array_holds_preset(e_f, self.tuning);
                }
                self.init(e_f);
            },
            Tuning::ChinTemp => {
                let e_f: [Ratio; 12] = [
                    Self::cfrac(0, 0),
                    Self::cfrac(7, 11),
                    Self::cfrac(2, 3),
                    Self::cfrac(9, 14),
                    Self::cfrac(4, 6),
                    Self::cfrac(11, 17),
                    Self::cfrac(6, 9),
                    Self::cfrac(1, 1),
                    Self::cfrac(8, 12),
                    Self::cfrac(3, 4),
                    Self::cfrac(10, 15),
                    Self::cfrac(5, 7),
                ];
                proof {
                    lemma_array_holds_preset(e_f, self.tuning);
                }
                self.init(e_f);
            },
            Tuning::Dowland => {
                let e_f: [Ratio; 12] = [
                    Ratio { num: 1, den: 1 },
                    Ratio { num: 33, den: 31 },
                    Ratio { num: 9, den: 8 },
                    Ratio { num: 33, den: 28 },
                    Ratio { num: 264, den: 211 },
                    Ratio { num: 4, den: 3 },
                    Ratio { num: 24, den: 17 },
                    Ratio { num: 3, den: 2 },
                    Ratio { num: 99, den: 62 },
                    Ratio { num: 27, den: 16 },
                    Ratio { num: 99, den: 56 },
                    Ratio { num: 396, den: 211 },
                ];
                proof {
                    lemma_array_holds_preset(e_f, self.tuning);
                }
                self.init(e_f);
            },
            Tuning::Kirnberger => {
                let e_f: [Ratio; 12] = [
                    Ratio { num: 1, den: 1 },
                    Ratio { num: 256, den: 243 },
                    Ratio { num: 9, den: 8 },
                    Ratio { num: 32, den: 27 },
                    Ratio { num: 5, den: 4 },
                    Ratio { num: 4, den: 3 },
                    Ratio { num: 45, den: 32 },
                    Ratio { num: 3, den: 2 },
                    Ratio { num: 128, den: 81 },
                    Ratio { num: 270, den: 161 },
                    Ratio { num: 16, den: 9 },
                    Ratio { num: 15, den: 8 },
                ];
                proof {
                    lemma_array_holds_preset(e_f, self.tuning);
                }
                self.init(e_f);
            },
        }
    }

    /// The frequency of note `n`; 0 for a negative `n`.
    pub fn lookup(&self, n: i8) -> (f: Frequency)
        ensures
            n < 0 ==> f == 0,
            n >= 0 ==> f == self.freq_table[n as int],
    {
        if n < 0 {
            0
        } else {
            self.freq_table[n as usize]
        }
    }

    /// Moves the reference pitch to `a` and tunes the table again.
    pub fn retune(&mut self, a: Frequency)
        requires
            old(self).wf(),
        ensures
            final(self).freq_a == a,
            final(self).intervals == old(self).intervals,
            final(self).lo_tt == old(self).lo_tt,
            final(self).hi_tt == old(self).hi_tt,
            final(self).tuning == old(self).tuning,
            final(self).wf(),
            final(self).tuned(),
            final(self).anchored(),
    {
        self.freq_a = a;
        let intervals = self.intervals;
        self.init(intervals);
    }

    /// Takes `j_f` as the intervals and derives every note from them.
    pub fn init(&mut self, j_f: [Ratio; 12])
        requires
            forall|i: int| 0 <= i < 12 ==> (#[trigger] j_f[i]).wf(),
        ensures
            final(self).intervals == j_f,
            final(self).freq_a == old(self).freq_a,
            final(self).lo_tt == old(self).lo_tt,
            final(self).hi_tt == old(self).hi_tt,
            final(self).tuning == old(self).tuning,
            final(self).tuned(),
            final(self).anchored(),
    {
        self.init_intervals(j_f);
        let mut i: usize = 0;
        while i < 128
            invariant
                i <= 128,
                self.intervals == j_f,
                self.freq_a == old(self).freq_a,
                self.lo_tt == old(self).lo_tt,
                self.hi_tt == old(self).hi_tt,
                self.tuning == old(self).tuning,
                forall|k: int| 0 <= k < 12 ==> (#[trigger] j_f[k]).wf(),
                forall|n: int|
                    0 <= n < i ==> #[trigger] self.freq_table[n] == note_frequency(
                        self.freq_a as int,
                        self.intervals[interval_slot(n)],
                        n,
                    ),
            decreases 128 - i,
        {
            let r = self.intervals[(i + 3) % 12];
            let base = scale_by_ratio(self.freq_a, r);
            self.freq_table[i] = shift_by_octaves(base, ((i + 3) / 12) as u32, 6);
            i += 1;
        }
        self.init_fund();
    }

    /// Copies the frequencies of notes 69 to 80 into the anchors.
    pub fn init_fund(&mut self)
        ensures
            final(self).anchored(),
            final(self).freq_table == old(self).freq_table,
            final(self).intervals == old(self).intervals,
            final(self).freq_a == old(self).freq_a,
            final(self).lo_tt == old(self).lo_tt,
            final(self).hi_tt == old(self).hi_tt,
            final(self).tuning == old(self).tuning,
    {
        let mut i: usize = 0;
        while i < 12
            invariant
                i <= 12,
                self.freq_table == old(self).freq_table,
                self.intervals == old(self).intervals,
                self.freq_a == old(self).freq_a,
                self.lo_tt == old(self).lo_tt,
                self.hi_tt == old(self).hi_tt,
                self.tuning == old(self).tuning,
                forall|k: int| 0 <= k < i ==> #[trigger] self.fund_table[k] == self.freq_table[NOTE_A + k],
            decreases 12 - i,
        {
            self.fund_table[i] = self.freq_table[NOTE_A + i];
            i += 1;
        }
    }

    /// Takes `j_f` as the intervals; the table is left as it is.
    pub fn init_intervals(&mut self, j_f: [Ratio; 12])
        ensures
            final(self).intervals == j_f,
            final(self).freq_table == old(self).freq_table,
            final(self).fund_table == old(self).fund_table,
            final(self).freq_a == old(self).freq_a,
            final(self).lo_tt == old(self).lo_tt,
            final(self).hi_tt == old(self).hi_tt,
            final(self).tuning == old(self).tuning,
    {
        let mut i: usize = 0;
        while i < 12
            invariant
                i <= 12,
                self.freq_table == old(self).freq_table,
                self.fund_table == old(self).fund_table,
                self.freq_a == old(self).freq_a,
                self.lo_tt == old(self).lo_tt,
                self.hi_tt == old(self).hi_tt,
                self.tuning == old(self).tuning,
                forall|k: int| 0 <= k < i ==> #[trigger] self.intervals[k] == j_f[k],
            decreases 12 - i,
        {
            self.intervals[i] = j_f[i];
            i += 1;
        }
        assert(self.intervals@ =~= j_f@);
    }

    /// The multiplier `2^(octave - 6)` of note `i`, in 32.32 fixed point.
    pub fn note_octave(&self, i: usize) -> (m: Frequency)
        ensures
            m == octave_multiplier(i as int),
    {
        if i > 440 {
            return u64::MAX;
        }
        let e: u32 = ((i + 3) / 12) as u32 + 26;
        proof {
            lemma_power_monotone(2, e as nat, 62);
            lemma_two_to_62();
        }
        power_exec(2, e)
    }

    /// Centres the table on note `m`: the note `69 + m mod 12` gets the
    /// frequency its anchor holds, and every other note follows from it by
    /// the intervals, octave by octave. A negative `m` changes nothing.
    pub fn modulate(&mut self, m: i8)
        requires
            old(self).wf(),
        ensures
            final(self).intervals == old(self).intervals,
            final(self).fund_table == old(self).fund_table,
            final(self).freq_a == old(self).freq_a,
            final(self).lo_tt == old(self).lo_tt,
            final(self).hi_tt == old(self).hi_tt,
            final(self).tuning == old(self).tuning,
            m < 0 ==> final(self).freq_table == old(self).freq_table,
            m >= 0 ==> final(self).centred_on(
                old(self).fund_table[m as int % 12] as int,
                NOTE_A + m as int % 12,
            ),
    {
        if m < 0 {
            return ;
        }
        let slot: usize = (m as usize) % 12;
        let tonic: usize = NOTE_A + slot;
        let new_center: Frequency = self.fund_table[slot];
        let mut n: usize = 0;
        while n < 128
            invariant
                n <= 128,
                tonic == NOTE_A + slot,
                slot < 12,
                self.wf(),
                self.intervals == old(self).intervals,
                self.fund_table == old(self).fund_table,
                self.freq_a == old(self).freq_a,
                self.lo_tt == old(self).lo_tt,
                self.hi_tt == old(self).hi_tt,
                self.tuning == old(self).tuning,
                forall|k: int|
                    0 <= k < n ==> #[trigger] self.freq_table[k] == modulated_frequency(
                        new_center as int,
                        self.intervals@,
                        tonic as int,
                        k,
                    ),
            decreases 128 - n,
        {
            let lifted: usize = n + 84 - tonic;
            let i: usize = lifted % 12;
            let up: u32 = (lifted / 12) as u32;
            assert(i == (n - tonic) % 12);
            assert(up == (n - tonic) / 12 + 7);
            let base = scale_by_ratio(new_center, self.intervals[i]);
            self.freq_table[n] = shift_by_octaves(base, up, 7);
            n += 1;
        }
    }

    /// Takes `j_f` as the intervals and `g_flat`, `f_sharp` as the tritone
    /// substitutes. A slot that holds zero takes `g_flat` for notes below 62
    /// and `f_sharp` from there on.
    pub fn init_just(&mut self, j_f: [Ratio; 12], g_flat: Ratio, f_sharp: Ratio)
        requires
            forall|i: int| 0 <= i < 12 ==> (#[trigger] j_f[i]).wf(),
            g_flat.wf(),
            f_sharp.wf(),
        ensures
            final(self).intervals == j_f,
            final(self).lo_tt == g_flat,
            final(self).hi_tt == f_sharp,
            final(self).freq_a == old(self).freq_a,
            final(self).tuning == old(self).tuning,
            final(self).tuned_just(),
            final(self).anchored(),
    {
        let j: usize = 3;
        self.lo_tt = g_flat;
        self.hi_tt = f_sharp;
        self.init_intervals(j_f);
        let mut i: usize = 0;
        while i < 128
            invariant
                i <= 128,
                j == 3,
                self.intervals == j_f,
                self.lo_tt == g_flat,
                self.hi_tt == f_sharp,
                self.freq_a == old(self).freq_a,
                self.tuning == old(self).tuning,
                forall|k: int| 0 <= k < 12 ==> (#[trigger] j_f[k]).wf(),
                g_flat.wf(),
                f_sharp.wf(),
                forall|n: int|
                    0 <= n < i ==> #[trigger] self.freq_table[n] == note_frequency(
                        self.freq_a as int,
                        just_interval(self.intervals@, self.lo_tt, self.hi_tt, n),
                        n,
                    ),
            decreases 128 - i,
        {
            let slot = self.intervals[(i + j) % 12];
            let r = if slot.num == 0 {
                if i < TRITONE_SPLIT {
                    self.lo_tt
                } else {
                    self.hi_tt
                }
            } else {
                slot
            };
            let base = scale_by_ratio(self.freq_a, r);
            self.freq_table[i] = shift_by_octaves(base, ((i + j) / 12) as u32, 6);
            i += 1;
        }
        self.init_fund();
    }

    /// The preset to start from: the one asked for.
    pub fn init_temp(tuning: Tuning) -> (t: Tuning)
        ensures
            t == tuning,
    {
        tuning
    }
}

/// 2^62.
pub(crate) proof fn lemma_two_to_62()
    ensures
        power(2, 62) == 0x4000_0000_0000_0000,
{
    reveal_with_fuel(power, 32);
    assert(power(2, 31) == 0x8000_0000);
    assert(power(2, 62) == power(2, 31) * power(2, 31)) by {
        lemma_power_adds(2, 31, 31);
    }
}

/// An array that holds a preset's twelve slots one by one holds them all.
proof fn lemma_array_holds_preset(e: [Ratio; 12], t: Tuning)
    requires
        e[0] == preset_interval(t, 0),
        e[1] == preset_interval(t, 1),
        e[2] == preset_interval(t, 2),
        e[3] == preset_interval(t, 3),
        e[4] == preset_interval(t, 4),
        e[5] == preset_interval(t, 5),
        e[6] == preset_interval(t, 6),
        e[7] == preset_interval(t, 7),
        e[8] == preset_interval(t, 8),
        e[9] == preset_interval(t, 9),
        e[10] == preset_interval(t, 10),
        e[11] == preset_interval(t, 11),
    ensures
        forall|i: int| 0 <= i < 12 ==> #[trigger] e[i] == preset_interval(t, i),
        forall|i: int| 0 <= i < 12 ==> (#[trigger] e[i]).wf(),
{
    lemma_presets_within_octave(t);
    assert forall|i: int| 0 <= i < 12 implies #[trigger] e[i] == preset_interval(t, i) by {
        if i == 0 {
        } else if i == 1 {
        } else if i == 2 {
        } else if i == 3 {
        } else if i == 4 {
        } else if i == 5 {
        } else if i == 6 {
        } else if i == 7 {
        } else if i == 8 {
        } else if i == 9 {
        } else if i == 10 {
        } else {
        }
    }
    assert forall|i: int| 0 <= i < 12 implies (#[trigger] e[i]).wf() by {
        assert(preset_interval(t, i).within_octave());
    }
}

/// A note tuned by a ratio of at least 1 from a reference of at least 64
/// units has a positive frequency.
pub proof fn lemma_note_frequency_positive(freq_a: int, r: Ratio, n: int)
    requires
        freq_a >= 64,
        r.den > 0,
        r.num >= r.den,
        0 <= n < 128,
    ensures
        note_frequency(freq_a, r, n) > 0,
{
    let base = scale_ratio(freq_a, r);
    assert(freq_a * r.num / (r.den as int) >= freq_a) by (nonlinear_arith)
        requires
            freq_a >= 0,
            r.den > 0,
            r.num >= r.den,
    ;
    assert(base >= 64);
    lemma_small_powers_of_two();
    lemma_power_monotone(2, 0, octave_index(n));
    let p = power(2, octave_index(n));
    assert(base * p / 64 >= 1) by (nonlinear_arith)
        requires
            base >= 64,
            p >= 1,
    ;
}

/// A note tuned by a ratio below 2 lies below `32 * freq_a`.
pub proof fn lemma_note_frequency_bound(freq_a: int, r: Ratio, n: int)
    requires
        0 <= freq_a,
        r.den > 0,
        r.num < 2 * r.den,
        0 <= n < 128,
    ensures
        0 <= note_frequency(freq_a, r, n) <= 32 * freq_a,
{
    let raw = freq_a * r.num / (r.den as int);
    assert(0 <= raw <= 2 * freq_a) by (nonlinear_arith)
        requires
            0 <= freq_a,
            r.den > 0,
            0 <= r.num < 2 * r.den,
            raw == freq_a * r.num / (r.den as int),
    ;
    let base = scale_ratio(freq_a, r);
    lemma_small_powers_of_two();
    lemma_power_monotone(2, octave_index(n), 10);
    let p = power(2, octave_index(n));
    assert(0 <= base * p / 64 <= 16 * base) by (nonlinear_arith)
        requires
            0 <= base,
            1 <= p <= 1024,
    ;
}

/// Twice a value, divided and rounded down, is twice the rounded-down
/// quotient or one more.
proof fn lemma_double_then_divide(x: int, d: int)
    by (nonlinear_arith)
    requires
        0 <= x,
        0 < d,
    ensures
        0 <= (2 * x) / d - 2 * (x / d) <= 1,
        0 <= x / d,
{
}

/// One octave more doubles a shifted frequency, but for the rounding: the
/// result is twice as large or one unit (2^-32 Hz) more, unless it is
/// saturated.
pub proof fn lemma_shift_doubles(f: int, up: nat, down: nat)
    requires
        0 <= f,
        shift_octaves(f, up + 1, down) < u64::MAX,
    ensures
        0 <= shift_octaves(f, up + 1, down) - 2 * shift_octaves(f, up, down) <= 1,
{
    lemma_power_monotone(2, 0, up);
    lemma_power_monotone(2, 0, down);
    let p = power(2, up);
    let d = power(2, down);
    assert(power(2, up + 1) == 2 * p);
    let x = f * p;
    assert(f * (2 * p) == 2 * x) by (nonlinear_arith)
        requires
            x == f * p,
    ;
    assert(0 <= x) by (nonlinear_arith)
        requires
            x == f * p,
            0 <= f,
            1 <= p,
    ;
    lemma_double_then_divide(x, d);
    assert(shift_octaves(f, up, down) == saturated(x / d));
    assert(shift_octaves(f, up + 1, down) == saturated((2 * x) / d));
}

/// One octave up doubles a note's frequency, but for the rounding: the
/// higher note is twice the lower or one unit (2^-32 Hz) more.
pub proof fn lemma_octave_doubles(freq_a: int, r: Ratio, n: int)
    requires
        0 <= freq_a,
        r.wf(),
        0 <= n < 116,
        note_frequency(freq_a, r, n + 12) < u64::MAX,
    ensures
        0 <= note_frequency(freq_a, r, n + 12) - 2 * note_frequency(freq_a, r, n) <= 1,
{
    assert(0 <= freq_a * r.num / (r.den as int)) by (nonlinear_arith)
        requires
            0 <= freq_a,
            0 <= r.num,
            r.den > 0,
    ;
    assert(octave_index(n + 12) == octave_index(n) + 1);
    lemma_shift_doubles(scale_ratio(freq_a, r), octave_index(n), 6);
}

/// The same holds of a table centred on a tonic: a note is twice the note
/// an octave below it, or one unit more.
pub proof fn lemma_modulated_octave_doubles(center: int, intervals: Seq<Ratio>, tonic: int, n: int)
    requires
        0 <= center,
        intervals.len() == 12,
        forall|i: int| 0 <= i < 12 ==> (#[trigger] intervals[i]).wf(),
        NOTE_A <= tonic < NOTE_A + 12,
        0 <= n < 116,
        modulated_frequency(center, intervals, tonic, n + 12) < u64::MAX,
    ensures
        0 <= modulated_frequency(center, intervals, tonic, n + 12) - 2 * modulated_frequency(
            center,
            intervals,
            tonic,
            n,
        ) <= 1,
{
    let k = n - tonic;
    let r = intervals[k % 12];
    assert((k + 12) % 12 == k % 12);
    assert((k + 12) / 12 == k / 12 + 1);
    assert(r.wf());
    assert(0 <= center * r.num / (r.den as int)) by (nonlinear_arith)
        requires
            0 <= center,
            0 <= r.num,
            r.den > 0,
    ;
    lemma_shift_doubles(scale_ratio(center, r), (k / 12 + 7) as nat, 7);
}

/// `shift_octaves` with the two powers written out.
pub(crate) proof fn lemma_shift_value(f: int, up: nat, down: nat, m: int, d: int)
    requires
        power(2, up) == m,
        power(2, down) == d,
    ensures
        shift_octaves(f, up, down) == saturated(f * m / d),
{
}

impl TuningData {
    /// In a tuned table each note is twice the note an octave below it, or
    /// one unit more, as long as it is not saturated.
    pub proof fn lemma_octave_equivalence(self, n: int)
        requires
            self.wf(),
            self.tuned(),
            0 <= n < 116,
            self.freq_table[n + 12] < u64::MAX,
        ensures
            0 <= self.freq_table[n + 12] - 2 * self.freq_table[n] <= 1,
    {
        assert(interval_slot(n + 12) == interval_slot(n));
        lemma_octave_doubles(self.freq_a as int, self.intervals[interval_slot(n)], n);
    }

    /// Equal temperament at 440 Hz: note 69 is 440 Hz exactly, and each note
    /// is within one unit, 2^-32 Hz, of twice the note an octave below.
    pub proof fn lemma_equal_temperament(self)
        requires
            self.holds_preset(Tuning::EquaTemp),
            self.tuned(),
            self.freq_a == CONCERT_A,
        ensures
            self.freq_table[NOTE_A as int] == CONCERT_A,
            forall|n: int|
                0 <= n < 116 ==> 0 <= #[trigger] self.freq_table[n + 12] - 2 * self.freq_table[n] <= 1,
    {
        lemma_presets_within_octave(Tuning::EquaTemp);
        lemma_small_powers_of_two();
        assert(self.intervals[0] == preset_interval(Tuning::EquaTemp, 0));
        assert(self.freq_table[NOTE_A as int] == note_frequency(
            CONCERT_A as int,
            self.intervals[0],
            NOTE_A as int,
        ));
        assert(scale_ratio(CONCERT_A as int, equal_interval(0)) == CONCERT_A) by (nonlinear_arith);
        lemma_shift_value(CONCERT_A as int, 6, 6, 64, 64);
        assert forall|n: int| 0 <= n < 116 implies 0 <= #[trigger] self.freq_table[n + 12] - 2
            * self.freq_table[n] <= 1 by {
            let r = self.intervals[interval_slot(n)];
            assert(r == preset_interval(Tuning::EquaTemp, interval_slot(n)));
            assert(interval_slot(n + 12) == interval_slot(n));
            lemma_note_frequency_bound(CONCERT_A as int, r, n + 12);
            lemma_octave_doubles(CONCERT_A as int, r, n);
        }
    }

    /// The Ptolemaic tuning at 440 Hz: middle C is 264 Hz and the E above
    /// it 330 Hz, both exactly.
    pub proof fn lemma_ptolemaic_thirds(self)
        requires
            self.holds_preset(Tuning::PtolTemp),
            self.tuned(),
            self.freq_a == CONCERT_A,
        ensures
            self.freq_table[60] == 264 * 0x1_0000_0000,
            self.freq_table[64] == 330 * 0x1_0000_0000,
    {
        lemma_small_powers_of_two();
        assert(self.intervals[3] == preset_interval(Tuning::PtolTemp, 3));
        assert(self.intervals[7] == preset_interval(Tuning::PtolTemp, 7));
        assert(self.freq_table[60] == note_frequency(CONCERT_A as int, self.intervals[3], 60));
        assert(self.freq_table[64] == note_frequency(CONCERT_A as int, self.intervals[7], 64));
        assert(scale_ratio(CONCERT_A as int, frac(6, 5)) == 528 * 0x1_0000_0000) by (nonlinear_arith);
        assert(scale_ratio(CONCERT_A as int, frac(3, 2)) == 660 * 0x1_0000_0000) by (nonlinear_arith);
        lemma_shift_value(528int * 0x1_0000_0000, 5, 6, 32, 64);
        lemma_shift_value(660int * 0x1_0000_0000, 5, 6, 32, 64);
    }
}

/// A frequency that is at least 64 units above another stays above it in
/// every octave: the shifted frequencies differ by at least `2^up` units,
/// unless the higher one is saturated.
pub proof fn lemma_shift_keeps_apart(low: int, high: int, up: nat)
    requires
        0 <= low,
        low + 64 <= high,
        shift_octaves(high, up, 6) < u64::MAX,
    ensures
        shift_octaves(low, up, 6) + power(2, up) <= shift_octaves(high, up, 6),
        shift_octaves(low, up, 6) < shift_octaves(high, up, 6),
{
    lemma_small_powers_of_two();
    lemma_power_monotone(2, 0, up);
    let p = power(2, up);
    let x = low * p;
    let y = high * p;
    assert(0 <= x && x + 64 * p <= y) by (nonlinear_arith)
        requires
            x == low * p,
            y == high * p,
            0 <= low,
            low + 64 <= high,
            1 <= p,
    ;
    assert(shift_octaves(low, up, 6) == saturated(x / 64));
    assert(shift_octaves(high, up, 6) == saturated(y / 64));
}

impl TuningData {
    /// The table of a preset at 440 Hz rises from note to note.
    pub proof fn lemma_table_rises(self, t: Tuning, n: int)
        requires
            self.is_preset(t),
            0 <= n < 127,
        ensures
            self.freq_table[n] < self.freq_table[n + 1],
    {
        let a = CONCERT_A as int;
        let i = interval_slot(n);
        let o = octave_index(n);
        lemma_presets_within_octave(t);
        lemma_preset_slots_apart(t, i);
        lemma_small_powers_of_two();
        lemma_power_monotone(2, 0, o);
        let low = scale_ratio(a, preset_interval(t, i));
        assert(self.intervals[i] == preset_interval(t, i));
        assert(self.freq_table[n] == note_frequency(a, self.intervals[i], n));
        assert(self.intervals[interval_slot(n + 1)] == preset_interval(t, interval_slot(n + 1)));
        assert(self.freq_table[n + 1] == note_frequency(a, self.intervals[interval_slot(n + 1)], n + 1));
        lemma_note_frequency_bound(a, preset_interval(t, interval_slot(n + 1)), n + 1);
        assert(0 <= a * preset_interval(t, i).num / (preset_interval(t, i).den as int)) by (nonlinear_arith)
            requires
                0 <= a,
                0 <= preset_interval(t, i).num,
                preset_interval(t, i).den > 0,
        ;
        if i < 11 {
            assert(interval_slot(n + 1) == i + 1);
            assert(octave_index(n + 1) == o);
            lemma_shift_keeps_apart(low, scale_ratio(a, preset_interval(t, i + 1)), o);
        } else {
            assert(interval_slot(n + 1) == 0);
            assert(octave_index(n + 1) == o + 1);
            assert(power(2, o + 1) == 2 * power(2, o));
            let p = power(2, o);
            assert(a * (2 * p) == (2 * a) * p) by (nonlinear_arith);
            assert(shift_octaves(a, o + 1, 6) == shift_octaves(2 * a, o, 6));
            lemma_shift_keeps_apart(low, 2 * a, o);
        }
    }
}

/// A preset has one tuning at 440 Hz.
pub proof fn lemma_preset_is_unique(a: TuningData, b: TuningData, t: Tuning)
    requires
        a.is_preset(t),
        b.is_preset(t),
    ensures
        a == b,
{
    assert(a.intervals =~= b.intervals) by {
        assert forall|i: int| 0 <= i < 12 implies a.intervals[i] == b.intervals[i] by {
            assert(a.intervals[i] == preset_interval(t, i));
            assert(b.intervals[i] == preset_interval(t, i));
        }
    }
    assert(a.freq_table =~= b.freq_table) by {
        assert forall|n: int| 0 <= n < 128 implies a.freq_table[n] == b.freq_table[n] by {
            assert(a.freq_table[n] == note_frequency(a.freq_a as int, a.intervals[interval_slot(n)], n));
            assert(b.freq_table[n] == note_frequency(b.freq_a as int, b.intervals[interval_slot(n)], n));
        }
    }
    assert(a.fund_table =~= b.fund_table) by {
        assert forall|i: int| 0 <= i < 12 implies a.fund_table[i] == b.fund_table[i] by {
            assert(a.fund_table[i] == a.freq_table[NOTE_A + i]);
            assert(b.fund_table[i] == b.freq_table[NOTE_A + i]);
        }
    }
}

/// The tunings of all presets, each at 440 Hz.
pub struct Tunings<T> {
    equa_temp: T,
    mean_temp: T,
    just5_temp: T,
    kepl_temp: T,
    pyth_temp: T,
    hamm_temp: T,
    ptol_temp: T,
    chin_temp: T,
    dowland: T,
    kirnberger: T,
}

impl Tunings<TuningData> {
    /// The entry kept for `preset`.
    pub closed spec fn entry(self, preset: Tuning) -> TuningData {
        match preset {
            Tuning::EquaTemp => self.equa_temp,
            Tuning::MeanTemp => self.mean_temp,
            Tuning::Just5Temp => self.just5_temp,
            Tuning::KeplTemp => self.kepl_temp,
            Tuning::PythTemp => self.pyth_temp,
            Tuning::HammTemp => self.hamm_temp,
            Tuning::PtolTemp => self.ptol_temp,
            Tuning::ChinTemp => self.chin_temp,
            Tuning::Dowland => self.dowland,
            Tuning::Kirnberger => self.kirnberger,
        }
    }

    /// Every entry is the tuning of its preset at 440 Hz.
    pub open spec fn wf(self) -> bool {
        forall|t: Tuning| (#[trigger] self.entry(t)).is_preset(t)
    }

    /// The tuning of every preset at 440 Hz.
    pub fn new() -> (all: Tunings<TuningData>)
        ensures
            all.wf(),
    {
        Tunings {
            equa_temp: TuningData::new(Tuning::EquaTemp),
            mean_temp: TuningData::new(Tuning::MeanTemp),
            just5_temp: TuningData::new(Tuning::Just5Temp),
            kepl_temp: TuningData::new(Tuning::KeplTemp),
            pyth_temp: TuningData::new(Tuning::PythTemp),
            hamm_temp: TuningData::new(Tuning::HammTemp),
            ptol_temp: TuningData::new(Tuning::PtolTemp),
            chin_temp: TuningData::new(Tuning::ChinTemp),
            dowland: TuningData::new(Tuning::Dowland),
            kirnberger: TuningData::new(Tuning::Kirnberger),
        }
    }

    /// The tuning of `preset`.
    pub fn index(&self, preset: Tuning) -> (td: &TuningData)
        ensures
            *td == self.entry(preset),
    {
        match preset {
            Tuning::EquaTemp => &self.equa_temp,
            Tuning::MeanTemp => &self.mean_temp,
            Tuning::Just5Temp => &self.just5_temp,
            Tuning::KeplTemp => &self.kepl_temp,
            Tuning::PythTemp => &self.pyth_temp,
            Tuning::HammTemp => &self.hamm_temp,
            Tuning::PtolTemp => &self.ptol_temp,
            Tuning::ChinTemp => &self.chin_temp,
            Tuning::Dowland => &self.dowland,
            Tuning::Kirnberger => &self.kirnberger,
        }
    }
}

} // verus!
