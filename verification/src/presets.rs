//! The interval tables of the tuning presets, and what holds of them.

use vstd::prelude::*;
use crate::temperament::{scale_ratio, Ratio, Tuning, CONCERT_A, IRRATIONAL_DEN};
use crate::types::power;

verus! {

/// The ratio `num / den`.
pub open spec fn frac(num: int, den: int) -> Ratio {
    Ratio { num: num as u64, den: den as u64 }
}

/// A tone-wheel ratio `a / b` divided by 11/8, doubled if that is below 1.
pub open spec fn hammond_fold(a: int, b: int) -> Ratio {
    if 8 * a < 11 * b {
        frac(16 * a, 11 * b)
    } else {
        frac(8 * a, 11 * b)
    }
}

/// `3^x / 2^y`.
pub open spec fn fifths(x: nat, y: nat) -> Ratio {
    frac(power(3, x), power(2, y))
}

/// Equal temperament: slot `i` is `2^(i/12)`, rounded down to 62 fractional bits.
pub open spec fn equal_interval(i: int) -> Ratio {
    if i == 0 {
        frac(0x4000_0000_0000_0000, IRRATIONAL_DEN as int)
    } else if i == 1 {
        frac(0x43CE_3E4B_65E5_8B2F, IRRATIONAL_DEN as int)
    } else if i == 2 {
        frac(0x47D6_6B0F_1F5A_FF5A, IRRATIONAL_DEN as int)
    } else if i == 3 {
        frac(0x4C1B_F828_C6DC_54B7, IRRATIONAL_DEN as int)
    } else if i == 4 {
        frac(0x50A2_8BE6_35CA_2B88, IRRATIONAL_DEN as int)
    } else if i == 5 {
        frac(0x556E_0423_C3B1_77F2, IRRATIONAL_DEN as int)
    } else if i == 6 {
        frac(0x5A82_7999_FCEF_3242, IRRATIONAL_DEN as int)
    } else if i == 7 {
        frac(0x5FE4_435D_A33E_BF9B, IRRATIONAL_DEN as int)
    } else if i == 8 {
        frac(0x6597_FA94_F5B8_F20A, IRRATIONAL_DEN as int)
    } else if i == 9 {
        frac(0x6BA2_7E65_6B4E_B57A, IRRATIONAL_DEN as int)
    } else if i == 10 {
        frac(0x7208_F81D_3B04_A51A, IRRATIONAL_DEN as int)
    } else {
        frac(0x78D0_DF9C_404D_0EDE, IRRATIONAL_DEN as int)
    }
}

/// Quarter-comma meantone: `[1, Z, T, TS, T^2, T^2 S, T^3, P, PZ, PT, PTS, PT^2]` with
/// `P = 5^(1/4)`, `T = 5^(1/2) / 2`, `S = 8 / 5^(5/4)`, `Z = T / S`, each rounded down to
/// 62 fractional bits.
pub open spec fn meantone_interval(i: int) -> Ratio {
    if i == 0 {
        frac(0x4000_0000_0000_0000, IRRATIONAL_DEN as int)
    } else if i == 1 {
        frac(0x42DF_C076_7314_71FE, IRRATIONAL_DEN as int)
    } else if i == 2 {
        frac(0x478D_DE6E_5FD2_9F05, IRRATIONAL_DEN as int)
    } else if i == 3 {
        frac(0x4C8F_D5E6_4AAE_2D5F, IRRATIONAL_DEN as int)
    } else if i == 4 {
        frac(0x5000_0000_0000_0000, IRRATIONAL_DEN as int)
    } else if i == 5 {
        frac(0x5599_4845_B205_B0A2, IRRATIONAL_DEN as int)
    } else if i == 6 {
        frac(0x5971_5609_F7C7_46C6, IRRATIONAL_DEN as int)
    } else if i == 7 {
        frac(0x5FB3_CB5F_DD59_B8B7, IRRATIONAL_DEN as int)
    } else if i == 8 {
        frac(0x6400_0000_0000_0000, IRRATIONAL_DEN as int)
    } else if i == 9 {
        frac(0x6AFF_9A57_1E87_1CCA, IRRATIONAL_DEN as int)
    } else if i == 10 {
        frac(0x727C_9716_FFB7_64D5, IRRATIONAL_DEN as int)
    } else {
        frac(0x77A0_BE37_D4B0_26E5, IRRATIONAL_DEN as int)
    }
}

/// Five-limit just intonation.
pub open spec fn just5_interval(i: int) -> Ratio {
    if i == 0 {
        frac(1, 1)
    } else if i == 1 {
        frac(16, 15)
    } else if i == 2 {
        frac(9, 8)
    } else if i == 3 {
        frac(6, 5)
    } else if i == 4 {
        frac(5, 4)
    } else if i == 5 {
        frac(4, 3)
    } else if i == 6 {
        frac(45, 32)
    } else if i == 7 {
        frac(3, 2)
    } else if i == 8 {
        frac(8, 5)
    } else if i == 9 {
        frac(5, 3)
    } else if i == 10 {
        frac(16, 9)
    } else {
        frac(15, 8)
    }
}

/// Kepler's scale.
pub open spec fn kepler_interval(i: int) -> Ratio {
    if i == 0 {
        frac(1, 1)
    } else if i == 1 {
        frac(135, 128)
    } else if i == 2 {
        frac(9, 8)
    } else if i == 3 {
        frac(6, 5)
    } else if i == 4 {
        frac(5, 4)
    } else if i == 5 {
        frac(4, 3)
    } else if i == 6 {
        frac(45, 32)
    } else if i == 7 {
        frac(3, 2)
    } else if i == 8 {
        frac(8, 5)
    } else if i == 9 {
        frac(27, 16)
    } else if i == 10 {
        frac(9, 5)
    } else {
        frac(15, 8)
    }
}

/// Pythagorean tuning: every fifth is 3:2.
pub open spec fn pythagorean_interval(i: int) -> Ratio {
    if i == 0 {
        frac(1, 1)
    } else if i == 1 {
        frac(256, 243)
    } else if i == 2 {
        frac(9, 8)
    } else if i == 3 {
        frac(32, 27)
    } else if i == 4 {
        frac(81, 64)
    } else if i == 5 {
        frac(4, 3)
    } else if i == 6 {
        frac(729, 512)
    } else if i == 7 {
        frac(3, 2)
    } else if i == 8 {
        frac(128, 81)
    } else if i == 9 {
        frac(27, 16)
    } else if i == 10 {
        frac(16, 9)
    } else {
        frac(243, 128)
    }
}

/// The tone-wheel gear ratios, each divided by 11/8 and folded into one octave.
pub open spec fn hammond_interval(i: int) -> Ratio {
    if i == 0 {
        hammond_fold(88, 64)
    } else if i == 1 {
        hammond_fold(67, 46)
    } else if i == 2 {
        hammond_fold(108, 70)
    } else if i == 3 {
        hammond_fold(85, 104)
    } else if i == 4 {
        hammond_fold(71, 82)
    } else if i == 5 {
        hammond_fold(67, 73)
    } else if i == 6 {
        hammond_fold(105, 108)
    } else if i == 7 {
        hammond_fold(103, 100)
    } else if i == 8 {
        hammond_fold(84, 77)
    } else if i == 9 {
        hammond_fold(74, 64)
    } else if i == 10 {
        hammond_fold(98, 80)
    } else {
        hammond_fold(96, 74)
    }
}

/// Ptolemy's intense diatonic scale, filled in chromatically.
pub open spec fn ptolemaic_interval(i: int) -> Ratio {
    if i == 0 {
        frac(1, 1)
    } else if i == 1 {
        frac(16, 15)
    } else if i == 2 {
        frac(9, 8)
    } else if i == 3 {
        frac(6, 5)
    } else if i == 4 {
        frac(5, 4)
    } else if i == 5 {
        frac(4, 3)
    } else if i == 6 {
        frac(7, 5)
    } else if i == 7 {
        frac(3, 2)
    } else if i == 8 {
        frac(8, 5)
    } else if i == 9 {
        frac(5, 3)
    } else if i == 10 {
        frac(7, 4)
    } else {
        frac(15, 8)
    }
}

/// The cycle of fifths `3^x / 2^y`.
pub open spec fn chinese_interval(i: int) -> Ratio {
    if i == 0 {
        fifths(0, 0)
    } else if i == 1 {
        fifths(7, 11)
    } else if i == 2 {
        fifths(2, 3)
    } else if i == 3 {
        fifths(9, 14)
    } else if i == 4 {
        fifths(4, 6)
    } else if i == 5 {
        fifths(11, 17)
    } else if i == 6 {
        fifths(6, 9)
    } else if i == 7 {
        fifths(1, 1)
    } else if i == 8 {
        fifths(8, 12)
    } else if i == 9 {
        fifths(3, 4)
    } else if i == 10 {
        fifths(10, 15)
    } else {
        fifths(5, 7)
    }
}

/// Dowland's lute fretting.
pub open spec fn dowland_interval(i: int) -> Ratio {
    if i == 0 {
        frac(1, 1)
    } else if i == 1 {
        frac(33, 31)
    } else if i == 2 {
        frac(9, 8)
    } else if i == 3 {
        frac(33, 28)
    } else if i == 4 {
        frac(264, 211)
    } else if i == 5 {
        frac(4, 3)
    } else if i == 6 {
        frac(24, 17)
    } else if i == 7 {
        frac(3, 2)
    } else if i == 8 {
        frac(99, 62)
    } else if i == 9 {
        frac(27, 16)
    } else if i == 10 {
        frac(99, 56)
    } else {
        frac(396, 211)
    }
}

/// Kirnberger's temperament.
pub open spec fn kirnberger_interval(i: int) -> Ratio {
    if i == 0 {
        frac(1, 1)
    } else if i == 1 {
        frac(256, 243)
    } else if i == 2 {
        frac(9, 8)
    } else if i == 3 {
        frac(32, 27)
    } else if i == 4 {
        frac(5, 4)
    } else if i == 5 {
        frac(4, 3)
    } else if i == 6 {
        frac(45, 32)
    } else if i == 7 {
        frac(3, 2)
    } else if i == 8 {
        frac(128, 81)
    } else if i == 9 {
        frac(270, 161)
    } else if i == 10 {
        frac(16, 9)
    } else {
        frac(15, 8)
    }
}

/// Slot `i` of the interval table of preset `t`.
pub open spec fn preset_interval(t: Tuning, i: int) -> Ratio {
    match t {
        Tuning::EquaTemp => equal_interval(i),
        Tuning::MeanTemp => meantone_interval(i),
        Tuning::Just5Temp => just5_interval(i),
        Tuning::KeplTemp => kepler_interval(i),
        Tuning::PythTemp => pythagorean_interval(i),
        Tuning::HammTemp => hammond_interval(i),
        Tuning::PtolTemp => ptolemaic_interval(i),
        Tuning::ChinTemp => chinese_interval(i),
        Tuning::Dowland => dowland_interval(i),
        Tuning::Kirnberger => kirnberger_interval(i),
    }
}

/// The low tritone substitute of preset `t`; zero where it has none.
pub open spec fn preset_low_tritone(t: Tuning) -> Ratio {
    match t {
        Tuning::Just5Temp => frac(64, 45),
        Tuning::PythTemp => frac(1024, 729),
        _ => frac(0, 1),
    }
}

/// The high tritone substitute of preset `t`; zero where it has none.
pub open spec fn preset_high_tritone(t: Tuning) -> Ratio {
    match t {
        Tuning::Just5Temp => frac(45, 32),
        Tuning::PythTemp => frac(729, 512),
        _ => frac(0, 1),
    }
}

/// The powers that the cycle of fifths uses.
pub(crate) proof fn lemma_fifths_small()
    ensures
        power(3, 11) == 177147,
        power(2, 17) == 131072,
{
    reveal_with_fuel(power, 18);
}

/// The slots of this table rise strictly.
proof fn lemma_equal_rises()
    by (nonlinear_arith)
    ensures
        equal_interval(0).less_than(equal_interval(1)),
        equal_interval(1).less_than(equal_interval(2)),
        equal_interval(2).less_than(equal_interval(3)),
        equal_interval(3).less_than(equal_interval(4)),
        equal_interval(4).less_than(equal_interval(5)),
        equal_interval(5).less_than(equal_interval(6)),
        equal_interval(6).less_than(equal_interval(7)),
        equal_interval(7).less_than(equal_interval(8)),
        equal_interval(8).less_than(equal_interval(9)),
        equal_interval(9).less_than(equal_interval(10)),
        equal_interval(10).less_than(equal_interval(11)),
{
}

/// The slots of this table rise strictly.
proof fn lemma_meantone_rises()
    by (nonlinear_arith)
    ensures
        meantone_interval(0).less_than(meantone_interval(1)),
        meantone_interval(1).less_than(meantone_interval(2)),
        meantone_interval(2).less_than(meantone_interval(3)),
        meantone_interval(3).less_than(meantone_interval(4)),
        meantone_interval(4).less_than(meantone_interval(5)),
        meantone_interval(5).less_than(meantone_interval(6)),
        meantone_interval(6).less_than(meantone_interval(7)),
        meantone_interval(7).less_than(meantone_interval(8)),
        meantone_interval(8).less_than(meantone_interval(9)),
        meantone_interval(9).less_than(meantone_interval(10)),
        meantone_interval(10).less_than(meantone_interval(11)),
{
}

/// The slots of this table rise strictly.
proof fn lemma_just5_rises()
    by (nonlinear_arith)
    ensures
        just5_interval(0).less_than(just5_interval(1)),
        just5_interval(1).less_than(just5_interval(2)),
        just5_interval(2).less_than(just5_interval(3)),
        just5_interval(3).less_than(just5_interval(4)),
        just5_interval(4).less_than(just5_interval(5)),
        just5_interval(5).less_than(just5_interval(6)),
        just5_interval(6).less_than(just5_interval(7)),
        just5_interval(7).less_than(just5_interval(8)),
        just5_interval(8).less_than(just5_interval(9)),
        just5_interval(9).less_than(just5_interval(10)),
        just5_interval(10).less_than(just5_interval(11)),
{
}

/// The slots of this table rise strictly.
proof fn lemma_kepler_rises()
    by (nonlinear_arith)
    ensures
        kepler_interval(0).less_than(kepler_interval(1)),
        kepler_interval(1).less_than(kepler_interval(2)),
        kepler_interval(2).less_than(kepler_interval(3)),
        kepler_interval(3).less_than(kepler_interval(4)),
        kepler_interval(4).less_than(kepler_interval(5)),
        kepler_interval(5).less_than(kepler_interval(6)),
        kepler_interval(6).less_than(kepler_interval(7)),
        kepler_interval(7).less_than(kepler_interval(8)),
        kepler_interval(8).less_than(kepler_interval(9)),
        kepler_interval(9).less_than(kepler_interval(10)),
        kepler_interval(10).less_than(kepler_interval(11)),
{
}

/// The slots of this table rise strictly.
proof fn lemma_pythagorean_rises()
    by (nonlinear_arith)
    ensures
        pythagorean_interval(0).less_than(pythagorean_interval(1)),
        pythagorean_interval(1).less_than(pythagorean_interval(2)),
        pythagorean_interval(2).less_than(pythagorean_interval(3)),
        pythagorean_interval(3).less_than(pythagorean_interval(4)),
        pythagorean_interval(4).less_than(pythagorean_interval(5)),
        pythagorean_interval(5).less_than(pythagorean_interval(6)),
        pythagorean_interval(6).less_than(pythagorean_interval(7)),
        pythagorean_interval(7).less_than(pythagorean_interval(8)),
        pythagorean_interval(8).less_than(pythagorean_interval(9)),
        pythagorean_interval(9).less_than(pythagorean_interval(10)),
        pythagorean_interval(10).less_than(pythagorean_interval(11)),
{
}

/// The slots of this table rise strictly.
proof fn lemma_hammond_rises()
    by (nonlinear_arith)
    ensures
        hammond_interval(0).less_than(hammond_interval(1)),
        hammond_interval(1).less_than(hammond_interval(2)),
        hammond_interval(2).less_than(hammond_interval(3)),
        hammond_interval(3).less_than(hammond_interval(4)),
        hammond_interval(4).less_than(hammond_interval(5)),
        hammond_interval(5).less_than(hammond_interval(6)),
        hammond_interval(6).less_than(hammond_interval(7)),
        hammond_interval(7).less_than(hammond_interval(8)),
        hammond_interval(8).less_than(hammond_interval(9)),
        hammond_interval(9).less_than(hammond_interval(10)),
        hammond_interval(10).less_than(hammond_interval(11)),
{
}

/// The slots of this table rise strictly.
proof fn lemma_ptolemaic_rises()
    by (nonlinear_arith)
    ensures
        ptolemaic_interval(0).less_than(ptolemaic_interval(1)),
        ptolemaic_interval(1).less_than(ptolemaic_interval(2)),
        ptolemaic_interval(2).less_than(ptolemaic_interval(3)),
        ptolemaic_interval(3).less_than(ptolemaic_interval(4)),
        ptolemaic_interval(4).less_than(ptolemaic_interval(5)),
        ptolemaic_interval(5).less_than(ptolemaic_interval(6)),
        ptolemaic_interval(6).less_than(ptolemaic_interval(7)),
        ptolemaic_interval(7).less_than(ptolemaic_interval(8)),
        ptolemaic_interval(8).less_than(ptolemaic_interval(9)),
        ptolemaic_interval(9).less_than(ptolemaic_interval(10)),
        ptolemaic_interval(10).less_than(ptolemaic_interval(11)),
{
}

/// The slots of this table rise strictly.
proof fn lemma_chinese_rises()
    by (nonlinear_arith)
    ensures
        chinese_interval(0).less_than(chinese_interval(1)),
        chinese_interval(1).less_than(chinese_interval(2)),
        chinese_interval(2).less_than(chinese_interval(3)),
        chinese_interval(3).less_than(chinese_interval(4)),
        chinese_interval(4).less_than(chinese_interval(5)),
        chinese_interval(5).less_than(chinese_interval(6)),
        chinese_interval(6).less_than(chinese_interval(7)),
        chinese_interval(7).less_than(chinese_interval(8)),
        chinese_interval(8).less_than(chinese_interval(9)),
        chinese_interval(9).less_than(chinese_interval(10)),
        chinese_interval(10).less_than(chinese_interval(11)),
{
    reveal_with_fuel(power, 18);
}

/// The slots of this table rise strictly.
proof fn lemma_dowland_rises()
    by (nonlinear_arith)
    ensures
        dowland_interval(0).less_than(dowland_interval(1)),
        dowland_interval(1).less_than(dowland_interval(2)),
        dowland_interval(2).less_than(dowland_interval(3)),
        dowland_interval(3).less_than(dowland_interval(4)),
        dowland_interval(4).less_than(dowland_interval(5)),
        dowland_interval(5).less_than(dowland_interval(6)),
        dowland_interval(6).less_than(dowland_interval(7)),
        dowland_interval(7).less_than(dowland_interval(8)),
        dowland_interval(8).less_than(dowland_interval(9)),
        dowland_interval(9).less_than(dowland_interval(10)),
        dowland_interval(10).less_than(dowland_interval(11)),
{
}

/// The slots of this table rise strictly.
proof fn lemma_kirnberger_rises()
    by (nonlinear_arith)
    ensures
        kirnberger_interval(0).less_than(kirnberger_interval(1)),
        kirnberger_interval(1).less_than(kirnberger_interval(2)),
        kirnberger_interval(2).less_than(kirnberger_interval(3)),
        kirnberger_interval(3).less_than(kirnberger_interval(4)),
        kirnberger_interval(4).less_than(kirnberger_interval(5)),
        kirnberger_interval(5).less_than(kirnberger_interval(6)),
        kirnberger_interval(6).less_than(kirnberger_interval(7)),
        kirnberger_interval(7).less_than(kirnberger_interval(8)),
        kirnberger_interval(8).less_than(kirnberger_interval(9)),
        kirnberger_interval(9).less_than(kirnberger_interval(10)),
        kirnberger_interval(10).less_than(kirnberger_interval(11)),
{
}

/// Slot `i` of preset `t` is below slot `i + 1`.
proof fn lemma_preset_rises(t: Tuning, i: int)
    requires
        0 <= i < 11,
    ensures
        preset_interval(t, i).less_than(preset_interval(t, i + 1)),
{
    let a = preset_interval(t, i);
    let b = preset_interval(t, i + 1);
    match t {
        Tuning::EquaTemp => {
            lemma_equal_rises();
            lemma_rises_by_cases(i, a, b, |k: int| equal_interval(k));
        },
        Tuning::MeanTemp => {
            lemma_meantone_rises();
            lemma_rises_by_cases(i, a, b, |k: int| meantone_interval(k));
        },
        Tuning::Just5Temp => {
            lemma_just5_rises();
            lemma_rises_by_cases(i, a, b, |k: int| just5_interval(k));
        },
        Tuning::KeplTemp => {
            lemma_kepler_rises();
            lemma_rises_by_cases(i, a, b, |k: int| kepler_interval(k));
        },
        Tuning::PythTemp => {
            lemma_pythagorean_rises();
            lemma_rises_by_cases(i, a, b, |k: int| pythagorean_interval(k));
        },
        Tuning::HammTemp => {
            lemma_hammond_rises();
            lemma_rises_by_cases(i, a, b, |k: int| hammond_interval(k));
        },
        Tuning::PtolTemp => {
            lemma_ptolemaic_rises();
            lemma_rises_by_cases(i, a, b, |k: int| ptolemaic_interval(k));
        },
        Tuning::ChinTemp => {
            lemma_chinese_rises();
            lemma_rises_by_cases(i, a, b, |k: int| chinese_interval(k));
        },
        Tuning::Dowland => {
            lemma_dowland_rises();
            lemma_rises_by_cases(i, a, b, |k: int| dowland_interval(k));
        },
        Tuning::Kirnberger => {
            lemma_kirnberger_rises();
            lemma_rises_by_cases(i, a, b, |k: int| kirnberger_interval(k));
        },
    }
}

/// If each of the first eleven slots of a table is below its successor, then
/// so is slot `i`.
proof fn lemma_rises_by_cases(i: int, a: Ratio, b: Ratio, table: spec_fn(int) -> Ratio)
    requires
        0 <= i < 11,
        a == table(i),
        b == table(i + 1),
        table(0).less_than(table(1)),
        table(1).less_than(table(2)),
        table(2).less_than(table(3)),
        table(3).less_than(table(4)),
        table(4).less_than(table(5)),
        table(5).less_than(table(6)),
        table(6).less_than(table(7)),
        table(7).less_than(table(8)),
        table(8).less_than(table(9)),
        table(9).less_than(table(10)),
        table(10).less_than(table(11)),
    ensures
        a.less_than(b),
{
}

/// Every slot of every preset is a ratio of at least 1 and less than 2, the
/// first slot is 1, and the slots rise strictly.
pub proof fn lemma_presets_within_octave(t: Tuning)
    ensures
        forall|i: int| 0 <= i < 12 ==> (#[trigger] preset_interval(t, i)).within_octave(),
        preset_interval(t, 0).num == preset_interval(t, 0).den,
        forall|i: int|
            0 <= i < 11 ==> (#[trigger] preset_interval(t, i)).less_than(preset_interval(t, i + 1)),
{
    assert forall|i: int| 0 <= i < 12 implies (#[trigger] preset_interval(t, i)).within_octave() by {
        reveal_with_fuel(power, 18);
    }
    assert(preset_interval(t, 0).num == preset_interval(t, 0).den) by {
        reveal_with_fuel(power, 2);
    }
    assert forall|i: int| 0 <= i < 11 implies (#[trigger] preset_interval(t, i)).less_than(
        preset_interval(t, i + 1),
    ) by {
        lemma_preset_rises(t, i);
    }
}

/// `c / 2^62` is the `k`-th root of `p / q`, rounded down to 62 fractional bits.
pub open spec fn is_floor_root(c: int, k: nat, p: int, q: int) -> bool {
    power(c, k) * q <= p * power(IRRATIONAL_DEN as int, k) < power(c + 1, k) * q
}

/// Slot `i` of equal temperament is the twelfth root of `2^i`.
pub proof fn lemma_equal_steps()
    by (nonlinear_arith)
    ensures
        is_floor_root(equal_interval(0).num as int, 12, 1, 1),
        is_floor_root(equal_interval(1).num as int, 12, 2, 1),
        is_floor_root(equal_interval(2).num as int, 12, 4, 1),
        is_floor_root(equal_interval(3).num as int, 12, 8, 1),
        is_floor_root(equal_interval(4).num as int, 12, 16, 1),
        is_floor_root(equal_interval(5).num as int, 12, 32, 1),
        is_floor_root(equal_interval(6).num as int, 12, 64, 1),
        is_floor_root(equal_interval(7).num as int, 12, 128, 1),
        is_floor_root(equal_interval(8).num as int, 12, 256, 1),
        is_floor_root(equal_interval(9).num as int, 12, 512, 1),
        is_floor_root(equal_interval(10).num as int, 12, 1024, 1),
        is_floor_root(equal_interval(11).num as int, 12, 2048, 1),
{
    reveal_with_fuel(power, 13);
}

/// The slots of meantone are the fourth roots of
/// `1, 5^7/16^4, 25/16, 256/125, (5/4)^4, 16/5, 5^6/8^4, 5, (25/16)^4, 125/16, 256/25, 5^5/4^4`,
/// which are the fourth powers of `1, Z, T, TS, T^2, T^2 S, T^3, P, PZ, PT, PTS, PT^2`.
pub proof fn lemma_meantone_steps()
    by (nonlinear_arith)
    ensures
        is_floor_root(meantone_interval(0).num as int, 4, 1, 1),
        is_floor_root(meantone_interval(1).num as int, 4, 78125, 65536),
        is_floor_root(meantone_interval(2).num as int, 4, 25, 16),
        is_floor_root(meantone_interval(3).num as int, 4, 256, 125),
        is_floor_root(meantone_interval(4).num as int, 4, 625, 256),
        is_floor_root(meantone_interval(5).num as int, 4, 16, 5),
        is_floor_root(meantone_interval(6).num as int, 4, 15625, 4096),
        is_floor_root(meantone_interval(7).num as int, 4, 5, 1),
        is_floor_root(meantone_interval(8).num as int, 4, 390625, 65536),
        is_floor_root(meantone_interval(9).num as int, 4, 125, 16),
        is_floor_root(meantone_interval(10).num as int, 4, 256, 25),
        is_floor_root(meantone_interval(11).num as int, 4, 3125, 256),
{
    reveal_with_fuel(power, 5);
}

/// At 440 Hz the slots of this table lie at least 64 units apart, the last
/// one from the octave too.
proof fn lemma_equal_apart()
    by (nonlinear_arith)
    ensures
        scale_ratio(CONCERT_A as int, equal_interval(0)) == CONCERT_A,
        scale_ratio(CONCERT_A as int, equal_interval(0)) + 64 <= scale_ratio(CONCERT_A as int, equal_interval(1)),
        scale_ratio(CONCERT_A as int, equal_interval(1)) + 64 <= scale_ratio(CONCERT_A as int, equal_interval(2)),
        scale_ratio(CONCERT_A as int, equal_interval(2)) + 64 <= scale_ratio(CONCERT_A as int, equal_interval(3)),
        scale_ratio(CONCERT_A as int, equal_interval(3)) + 64 <= scale_ratio(CONCERT_A as int, equal_interval(4)),
        scale_ratio(CONCERT_A as int, equal_interval(4)) + 64 <= scale_ratio(CONCERT_A as int, equal_interval(5)),
        scale_ratio(CONCERT_A as int, equal_interval(5)) + 64 <= scale_ratio(CONCERT_A as int, equal_interval(6)),
        scale_ratio(CONCERT_A as int, equal_interval(6)) + 64 <= scale_ratio(CONCERT_A as int, equal_interval(7)),
        scale_ratio(CONCERT_A as int, equal_interval(7)) + 64 <= scale_ratio(CONCERT_A as int, equal_interval(8)),
        scale_ratio(CONCERT_A as int, equal_interval(8)) + 64 <= scale_ratio(CONCERT_A as int, equal_interval(9)),
        scale_ratio(CONCERT_A as int, equal_interval(9)) + 64 <= scale_ratio(CONCERT_A as int, equal_interval(10)),
        scale_ratio(CONCERT_A as int, equal_interval(10)) + 64 <= scale_ratio(CONCERT_A as int, equal_interval(11)),
        scale_ratio(CONCERT_A as int, equal_interval(11)) + 64 <= 2 * CONCERT_A,
{
}

/// At 440 Hz the slots of this table lie at least 64 units apart, the last
/// one from the octave too.
proof fn lemma_meantone_apart()
    by (nonlinear_arith)
    ensures
        scale_ratio(CONCERT_A as int, meantone_interval(0)) == CONCERT_A,
        scale_ratio(CONCERT_A as int, meantone_interval(0)) + 64 <= scale_ratio(CONCERT_A as int, meantone_interval(1)),
        scale_ratio(CONCERT_A as int, meantone_interval(1)) + 64 <= scale_ratio(CONCERT_A as int, meantone_interval(2)),
        scale_ratio(CONCERT_A as int, meantone_interval(2)) + 64 <= scale_ratio(CONCERT_A as int, meantone_interval(3)),
        scale_ratio(CONCERT_A as int, meantone_interval(3)) + 64 <= scale_ratio(CONCERT_A as int, meantone_interval(4)),
        scale_ratio(CONCERT_A as int, meantone_interval(4)) + 64 <= scale_ratio(CONCERT_A as int, meantone_interval(5)),
        scale_ratio(CONCERT_A as int, meantone_interval(5)) + 64 <= scale_ratio(CONCERT_A as int, meantone_interval(6)),
        scale_ratio(CONCERT_A as int, meantone_interval(6)) + 64 <= scale_ratio(CONCERT_A as int, meantone_interval(7)),
        scale_ratio(CONCERT_A as int, meantone_interval(7)) + 64 <= scale_ratio(CONCERT_A as int, meantone_interval(8)),
        scale_ratio(CONCERT_A as int, meantone_interval(8)) + 64 <= scale_ratio(CONCERT_A as int, meantone_interval(9)),
        scale_ratio(CONCERT_A as int, meantone_interval(9)) + 64 <= scale_ratio(CONCERT_A as int, meantone_interval(10)),
        scale_ratio(CONCERT_A as int, meantone_interval(10)) + 64 <= scale_ratio(CONCERT_A as int, meantone_interval(11)),
        scale_ratio(CONCERT_A as int, meantone_interval(11)) + 64 <= 2 * CONCERT_A,
{
}

/// At 440 Hz the slots of this table lie at least 64 units apart, the last
/// one from the octave too.
proof fn lemma_just5_apart()
    by (nonlinear_arith)
    ensures
        scale_ratio(CONCERT_A as int, just5_interval(0)) == CONCERT_A,
        scale_ratio(CONCERT_A as int, just5_interval(0)) + 64 <= scale_ratio(CONCERT_A as int, just5_interval(1)),
        scale_ratio(CONCERT_A as int, just5_interval(1)) + 64 <= scale_ratio(CONCERT_A as int, just5_interval(2)),
        scale_ratio(CONCERT_A as int, just5_interval(2)) + 64 <= scale_ratio(CONCERT_A as int, just5_interval(3)),
        scale_ratio(CONCERT_A as int, just5_interval(3)) + 64 <= scale_ratio(CONCERT_A as int, just5_interval(4)),
        scale_ratio(CONCERT_A as int, just5_interval(4)) + 64 <= scale_ratio(CONCERT_A as int, just5_interval(5)),
        scale_ratio(CONCERT_A as int, just5_interval(5)) + 64 <= scale_ratio(CONCERT_A as int, just5_interval(6)),
        scale_ratio(CONCERT_A as int, just5_interval(6)) + 64 <= scale_ratio(CONCERT_A as int, just5_interval(7)),
        scale_ratio(CONCERT_A as int, just5_interval(7)) + 64 <= scale_ratio(CONCERT_A as int, just5_interval(8)),
        scale_ratio(CONCERT_A as int, just5_interval(8)) + 64 <= scale_ratio(CONCERT_A as int, just5_interval(9)),
        scale_ratio(CONCERT_A as int, just5_interval(9)) + 64 <= scale_ratio(CONCERT_A as int, just5_interval(10)),
        scale_ratio(CONCERT_A as int, just5_interval(10)) + 64 <= scale_ratio(CONCERT_A as int, just5_interval(11)),
        scale_ratio(CONCERT_A as int, just5_interval(11)) + 64 <= 2 * CONCERT_A,
{
}

/// At 440 Hz the slots of this table lie at least 64 units apart, the last
/// one from the octave too.
proof fn lemma_kepler_apart()
    by (nonlinear_arith)
    ensures
        scale_ratio(CONCERT_A as int, kepler_interval(0)) == CONCERT_A,
        scale_ratio(CONCERT_A as int, kepler_interval(0)) + 64 <= scale_ratio(CONCERT_A as int, kepler_interval(1)),
        scale_ratio(CONCERT_A as int, kepler_interval(1)) + 64 <= scale_ratio(CONCERT_A as int, kepler_interval(2)),
        scale_ratio(CONCERT_A as int, kepler_interval(2)) + 64 <= scale_ratio(CONCERT_A as int, kepler_interval(3)),
        scale_ratio(CONCERT_A as int, kepler_interval(3)) + 64 <= scale_ratio(CONCERT_A as int, kepler_interval(4)),
        scale_ratio(CONCERT_A as int, kepler_interval(4)) + 64 <= scale_ratio(CONCERT_A as int, kepler_interval(5)),
        scale_ratio(CONCERT_A as int, kepler_interval(5)) + 64 <= scale_ratio(CONCERT_A as int, kepler_interval(6)),
        scale_ratio(CONCERT_A as int, kepler_interval(6)) + 64 <= scale_ratio(CONCERT_A as int, kepler_interval(7)),
        scale_ratio(CONCERT_A as int, kepler_interval(7)) + 64 <= scale_ratio(CONCERT_A as int, kepler_interval(8)),
        scale_ratio(CONCERT_A as int, kepler_interval(8)) + 64 <= scale_ratio(CONCERT_A as int, kepler_interval(9)),
        scale_ratio(CONCERT_A as int, kepler_interval(9)) + 64 <= scale_ratio(CONCERT_A as int, kepler_interval(10)),
        scale_ratio(CONCERT_A as int, kepler_interval(10)) + 64 <= scale_ratio(CONCERT_A as int, kepler_interval(11)),
        scale_ratio(CONCERT_A as int, kepler_interval(11)) + 64 <= 2 * CONCERT_A,
{
}

/// At 440 Hz the slots of this table lie at least 64 units apart, the last
/// one from the octave too.
proof fn lemma_pythagorean_apart()
    by (nonlinear_arith)
    ensures
        scale_ratio(CONCERT_A as int, pythagorean_interval(0)) == CONCERT_A,
        scale_ratio(CONCERT_A as int, pythagorean_interval(0)) + 64 <= scale_ratio(CONCERT_A as int, pythagorean_interval(1)),
        scale_ratio(CONCERT_A as int, pythagorean_interval(1)) + 64 <= scale_ratio(CONCERT_A as int, pythagorean_interval(2)),
        scale_ratio(CONCERT_A as int, pythagorean_interval(2)) + 64 <= scale_ratio(CONCERT_A as int, pythagorean_interval(3)),
        scale_ratio(CONCERT_A as int, pythagorean_interval(3)) + 64 <= scale_ratio(CONCERT_A as int, pythagorean_interval(4)),
        scale_ratio(CONCERT_A as int, pythagorean_interval(4)) + 64 <= scale_ratio(CONCERT_A as int, pythagorean_interval(5)),
        scale_ratio(CONCERT_A as int, pythagorean_interval(5)) + 64 <= scale_ratio(CONCERT_A as int, pythagorean_interval(6)),
        scale_ratio(CONCERT_A as int, pythagorean_interval(6)) + 64 <= scale_ratio(CONCERT_A as int, pythagorean_interval(7)),
        scale_ratio(CONCERT_A as int, pythagorean_interval(7)) + 64 <= scale_ratio(CONCERT_A as int, pythagorean_interval(8)),
        scale_ratio(CONCERT_A as int, pythagorean_interval(8)) + 64 <= scale_ratio(CONCERT_A as int, pythagorean_interval(9)),
        scale_ratio(CONCERT_A as int, pythagorean_interval(9)) + 64 <= scale_ratio(CONCERT_A as int, pythagorean_interval(10)),
        scale_ratio(CONCERT_A as int, pythagorean_interval(10)) + 64 <= scale_ratio(CONCERT_A as int, pythagorean_interval(11)),
        scale_ratio(CONCERT_A as int, pythagorean_interval(11)) + 64 <= 2 * CONCERT_A,
{
}

/// At 440 Hz the slots of this table lie at least 64 units apart, the last
/// one from the octave too.
proof fn lemma_hammond_apart()
    by (nonlinear_arith)
    ensures
        scale_ratio(CONCERT_A as int, hammond_interval(0)) == CONCERT_A,
        scale_ratio(CONCERT_A as int, hammond_interval(0)) + 64 <= scale_ratio(CONCERT_A as int, hammond_interval(1)),
        scale_ratio(CONCERT_A as int, hammond_interval(1)) + 64 <= scale_ratio(CONCERT_A as int, hammond_interval(2)),
        scale_ratio(CONCERT_A as int, hammond_interval(2)) + 64 <= scale_ratio(CONCERT_A as int, hammond_interval(3)),
        scale_ratio(CONCERT_A as int, hammond_interval(3)) + 64 <= scale_ratio(CONCERT_A as int, hammond_interval(4)),
        scale_ratio(CONCERT_A as int, hammond_interval(4)) + 64 <= scale_ratio(CONCERT_A as int, hammond_interval(5)),
        scale_ratio(CONCERT_A as int, hammond_interval(5)) + 64 <= scale_ratio(CONCERT_A as int, hammond_interval(6)),
        scale_ratio(CONCERT_A as int, hammond_interval(6)) + 64 <= scale_ratio(CONCERT_A as int, hammond_interval(7)),
        scale_ratio(CONCERT_A as int, hammond_interval(7)) + 64 <= scale_ratio(CONCERT_A as int, hammond_interval(8)),
        scale_ratio(CONCERT_A as int, hammond_interval(8)) + 64 <= scale_ratio(CONCERT_A as int, hammond_interval(9)),
        scale_ratio(CONCERT_A as int, hammond_interval(9)) + 64 <= scale_ratio(CONCERT_A as int, hammond_interval(10)),
        scale_ratio(CONCERT_A as int, hammond_interval(10)) + 64 <= scale_ratio(CONCERT_A as int, hammond_interval(11)),
        scale_ratio(CONCERT_A as int, hammond_interval(11)) + 64 <= 2 * CONCERT_A,
{
}

/// At 440 Hz the slots of this table lie at least 64 units apart, the last
/// one from the octave too.
proof fn lemma_ptolemaic_apart()
    by (nonlinear_arith)
    ensures
        scale_ratio(CONCERT_A as int, ptolemaic_interval(0)) == CONCERT_A,
        scale_ratio(CONCERT_A as int, ptolemaic_interval(0)) + 64 <= scale_ratio(CONCERT_A as int, ptolemaic_interval(1)),
        scale_ratio(CONCERT_A as int, ptolemaic_interval(1)) + 64 <= scale_ratio(CONCERT_A as int, ptolemaic_interval(2)),
        scale_ratio(CONCERT_A as int, ptolemaic_interval(2)) + 64 <= scale_ratio(CONCERT_A as int, ptolemaic_interval(3)),
        scale_ratio(CONCERT_A as int, ptolemaic_interval(3)) + 64 <= scale_ratio(CONCERT_A as int, ptolemaic_interval(4)),
        scale_ratio(CONCERT_A as int, ptolemaic_interval(4)) + 64 <= scale_ratio(CONCERT_A as int, ptolemaic_interval(5)),
        scale_ratio(CONCERT_A as int, ptolemaic_interval(5)) + 64 <= scale_ratio(CONCERT_A as int, ptolemaic_interval(6)),
        scale_ratio(CONCERT_A as int, ptolemaic_interval(6)) + 64 <= scale_ratio(CONCERT_A as int, ptolemaic_interval(7)),
        scale_ratio(CONCERT_A as int, ptolemaic_interval(7)) + 64 <= scale_ratio(CONCERT_A as int, ptolemaic_interval(8)),
        scale_ratio(CONCERT_A as int, ptolemaic_interval(8)) + 64 <= scale_ratio(CONCERT_A as int, ptolemaic_interval(9)),
        scale_ratio(CONCERT_A as int, ptolemaic_interval(9)) + 64 <= scale_ratio(CONCERT_A as int, ptolemaic_interval(10)),
        scale_ratio(CONCERT_A as int, ptolemaic_interval(10)) + 64 <= scale_ratio(CONCERT_A as int, ptolemaic_interval(11)),
        scale_ratio(CONCERT_A as int, ptolemaic_interval(11)) + 64 <= 2 * CONCERT_A,
{
}

/// At 440 Hz the slots of this table lie at least 64 units apart, the last
/// one from the octave too.
proof fn lemma_chinese_apart()
    by (nonlinear_arith)
    ensures
        scale_ratio(CONCERT_A as int, chinese_interval(0)) == CONCERT_A,
        scale_ratio(CONCERT_A as int, chinese_interval(0)) + 64 <= scale_ratio(CONCERT_A as int, chinese_interval(1)),
        scale_ratio(CONCERT_A as int, chinese_interval(1)) + 64 <= scale_ratio(CONCERT_A as int, chinese_interval(2)),
        scale_ratio(CONCERT_A as int, chinese_interval(2)) + 64 <= scale_ratio(CONCERT_A as int, chinese_interval(3)),
        scale_ratio(CONCERT_A as int, chinese_interval(3)) + 64 <= scale_ratio(CONCERT_A as int, chinese_interval(4)),
        scale_ratio(CONCERT_A as int, chinese_interval(4)) + 64 <= scale_ratio(CONCERT_A as int, chinese_interval(5)),
        scale_ratio(CONCERT_A as int, chinese_interval(5)) + 64 <= scale_ratio(CONCERT_A as int, chinese_interval(6)),
        scale_ratio(CONCERT_A as int, chinese_interval(6)) + 64 <= scale_ratio(CONCERT_A as int, chinese_interval(7)),
        scale_ratio(CONCERT_A as int, chinese_interval(7)) + 64 <= scale_ratio(CONCERT_A as int, chinese_interval(8)),
        scale_ratio(CONCERT_A as int, chinese_interval(8)) + 64 <= scale_ratio(CONCERT_A as int, chinese_interval(9)),
        scale_ratio(CONCERT_A as int, chinese_interval(9)) + 64 <= scale_ratio(CONCERT_A as int, chinese_interval(10)),
        scale_ratio(CONCERT_A as int, chinese_interval(10)) + 64 <= scale_ratio(CONCERT_A as int, chinese_interval(11)),
        scale_ratio(CONCERT_A as int, chinese_interval(11)) + 64 <= 2 * CONCERT_A,
{
    reveal_with_fuel(power, 18);
}

/// At 440 Hz the slots of this table lie at least 64 units apart, the last
/// one from the octave too.
proof fn lemma_dowland_apart()
    by (nonlinear_arith)
    ensures
        scale_ratio(CONCERT_A as int, dowland_interval(0)) == CONCERT_A,
        scale_ratio(CONCERT_A as int, dowland_interval(0)) + 64 <= scale_ratio(CONCERT_A as int, dowland_interval(1)),
        scale_ratio(CONCERT_A as int, dowland_interval(1)) + 64 <= scale_ratio(CONCERT_A as int, dowland_interval(2)),
        scale_ratio(CONCERT_A as int, dowland_interval(2)) + 64 <= scale_ratio(CONCERT_A as int, dowland_interval(3)),
        scale_ratio(CONCERT_A as int, dowland_interval(3)) + 64 <= scale_ratio(CONCERT_A as int, dowland_interval(4)),
        scale_ratio(CONCERT_A as int, dowland_interval(4)) + 64 <= scale_ratio(CONCERT_A as int, dowland_interval(5)),
        scale_ratio(CONCERT_A as int, dowland_interval(5)) + 64 <= scale_ratio(CONCERT_A as int, dowland_interval(6)),
        scale_ratio(CONCERT_A as int, dowland_interval(6)) + 64 <= scale_ratio(CONCERT_A as int, dowland_interval(7)),
        scale_ratio(CONCERT_A as int, dowland_interval(7)) + 64 <= scale_ratio(CONCERT_A as int, dowland_interval(8)),
        scale_ratio(CONCERT_A as int, dowland_interval(8)) + 64 <= scale_ratio(CONCERT_A as int, dowland_interval(9)),
        scale_ratio(CONCERT_A as int, dowland_interval(9)) + 64 <= scale_ratio(CONCERT_A as int, dowland_interval(10)),
        scale_ratio(CONCERT_A as int, dowland_interval(10)) + 64 <= scale_ratio(CONCERT_A as int, dowland_interval(11)),
        scale_ratio(CONCERT_A as int, dowland_interval(11)) + 64 <= 2 * CONCERT_A,
{
}

/// At 440 Hz the slots of this table lie at least 64 units apart, the last
/// one from the octave too.
proof fn lemma_kirnberger_apart()
    by (nonlinear_arith)
    ensures
        scale_ratio(CONCERT_A as int, kirnberger_interval(0)) == CONCERT_A,
        scale_ratio(CONCERT_A as int, kirnberger_interval(0)) + 64 <= scale_ratio(CONCERT_A as int, kirnberger_interval(1)),
        scale_ratio(CONCERT_A as int, kirnberger_interval(1)) + 64 <= scale_ratio(CONCERT_A as int, kirnberger_interval(2)),
        scale_ratio(CONCERT_A as int, kirnberger_interval(2)) + 64 <= scale_ratio(CONCERT_A as int, kirnberger_interval(3)),
        scale_ratio(CONCERT_A as int, kirnberger_interval(3)) + 64 <= scale_ratio(CONCERT_A as int, kirnberger_interval(4)),
        scale_ratio(CONCERT_A as int, kirnberger_interval(4)) + 64 <= scale_ratio(CONCERT_A as int, kirnberger_interval(5)),
        scale_ratio(CONCERT_A as int, kirnberger_interval(5)) + 64 <= scale_ratio(CONCERT_A as int, kirnberger_interval(6)),
        scale_ratio(CONCERT_A as int, kirnberger_interval(6)) + 64 <= scale_ratio(CONCERT_A as int, kirnberger_interval(7)),
        scale_ratio(CONCERT_A as int, kirnberger_interval(7)) + 64 <= scale_ratio(CONCERT_A as int, kirnberger_interval(8)),
        scale_ratio(CONCERT_A as int, kirnberger_interval(8)) + 64 <= scale_ratio(CONCERT_A as int, kirnberger_interval(9)),
        scale_ratio(CONCERT_A as int, kirnberger_interval(9)) + 64 <= scale_ratio(CONCERT_A as int, kirnberger_interval(10)),
        scale_ratio(CONCERT_A as int, kirnberger_interval(10)) + 64 <= scale_ratio(CONCERT_A as int, kirnberger_interval(11)),
        scale_ratio(CONCERT_A as int, kirnberger_interval(11)) + 64 <= 2 * CONCERT_A,
{
}

/// If the slots of a table lie at least 64 units apart at 440 Hz, then so
/// do slot `i` and its successor.
proof fn lemma_apart_by_cases(i: int, table: spec_fn(int) -> Ratio)
    requires
        0 <= i < 11,
        scale_ratio(CONCERT_A as int, table(0)) + 64 <= scale_ratio(CONCERT_A as int, table(1)),
        scale_ratio(CONCERT_A as int, table(1)) + 64 <= scale_ratio(CONCERT_A as int, table(2)),
        scale_ratio(CONCERT_A as int, table(2)) + 64 <= scale_ratio(CONCERT_A as int, table(3)),
        scale_ratio(CONCERT_A as int, table(3)) + 64 <= scale_ratio(CONCERT_A as int, table(4)),
        scale_ratio(CONCERT_A as int, table(4)) + 64 <= scale_ratio(CONCERT_A as int, table(5)),
        scale_ratio(CONCERT_A as int, table(5)) + 64 <= scale_ratio(CONCERT_A as int, table(6)),
        scale_ratio(CONCERT_A as int, table(6)) + 64 <= scale_ratio(CONCERT_A as int, table(7)),
        scale_ratio(CONCERT_A as int, table(7)) + 64 <= scale_ratio(CONCERT_A as int, table(8)),
        scale_ratio(CONCERT_A as int, table(8)) + 64 <= scale_ratio(CONCERT_A as int, table(9)),
        scale_ratio(CONCERT_A as int, table(9)) + 64 <= scale_ratio(CONCERT_A as int, table(10)),
        scale_ratio(CONCERT_A as int, table(10)) + 64 <= scale_ratio(CONCERT_A as int, table(11)),
    ensures
        scale_ratio(CONCERT_A as int, table(i)) + 64 <= scale_ratio(CONCERT_A as int, table(i + 1)),
{
}

/// At 440 Hz the twelve pitches of the reference octave of every preset
/// rise by at least 64 units from slot to slot, the first is 440 Hz, and
/// the last lies at least 64 units below 880 Hz.
pub proof fn lemma_preset_slots_apart(t: Tuning, i: int)
    requires
        0 <= i < 12,
    ensures
        scale_ratio(CONCERT_A as int, preset_interval(t, 0)) == CONCERT_A,
        i < 11 ==> scale_ratio(CONCERT_A as int, preset_interval(t, i)) + 64 <= scale_ratio(
            CONCERT_A as int,
            preset_interval(t, i + 1),
        ),
        i == 11 ==> scale_ratio(CONCERT_A as int, preset_interval(t, 11)) + 64 <= 2 * CONCERT_A,
{
    match t {
        Tuning::EquaTemp => {
            lemma_equal_apart();
            if i < 11 {
                lemma_apart_by_cases(i, |k: int| equal_interval(k));
            }
        },
        Tuning::MeanTemp => {
            lemma_meantone_apart();
            if i < 11 {
                lemma_apart_by_cases(i, |k: int| meantone_interval(k));
            }
        },
        Tuning::Just5Temp => {
            lemma_just5_apart();
            if i < 11 {
                lemma_apart_by_cases(i, |k: int| just5_interval(k));
            }
        },
        Tuning::KeplTemp => {
            lemma_kepler_apart();
            if i < 11 {
                lemma_apart_by_cases(i, |k: int| kepler_interval(k));
            }
        },
        Tuning::PythTemp => {
            lemma_pythagorean_apart();
            if i < 11 {
                lemma_apart_by_cases(i, |k: int| pythagorean_interval(k));
            }
        },
        Tuning::HammTemp => {
            lemma_hammond_apart();
            if i < 11 {
                lemma_apart_by_cases(i, |k: int| hammond_interval(k));
            }
        },
        Tuning::PtolTemp => {
            lemma_ptolemaic_apart();
            if i < 11 {
                lemma_apart_by_cases(i, |k: int| ptolemaic_interval(k));
            }
        },
        Tuning::ChinTemp => {
            lemma_chinese_apart();
            if i < 11 {
                lemma_apart_by_cases(i, |k: int| chinese_interval(k));
            }
        },
        Tuning::Dowland => {
            lemma_dowland_apart();
            if i < 11 {
                lemma_apart_by_cases(i, |k: int| dowland_interval(k));
            }
        },
        Tuning::Kirnberger => {
            lemma_kirnberger_apart();
            if i < 11 {
                lemma_apart_by_cases(i, |k: int| kirnberger_interval(k));
            }
        },
    }
}

} // verus!
