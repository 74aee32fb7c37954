use feosynth::temperament::{Ratio, Tuning, TuningData, Tunings, CONCERT_A};

const UNIT: f64 = 4294967296.0;

fn hz(f: u64) -> f64 {
    f as f64 / UNIT
}

fn cents(f1: u64, f2: u64) -> f64 {
    1200.0 * (hz(f2) / hz(f1)).log2()
}

fn presets() -> Vec<Tuning> {
    vec![
        Tuning::EquaTemp,
        Tuning::MeanTemp,
        Tuning::Just5Temp,
        Tuning::KeplTemp,
        Tuning::PythTemp,
        Tuning::HammTemp,
        Tuning::PtolTemp,
        Tuning::ChinTemp,
        Tuning::Dowland,
        Tuning::Kirnberger,
    ]
}

#[test]
fn test_temperaments() {
    let tunings = Tunings::new();
    let ptol = tunings.index(Tuning::PtolTemp);
    assert_eq!(ptol.lookup(60), 264 << 32);
    assert_eq!(ptol.lookup(64), 330 << 32);
}

#[test]
fn every_frequency_of_every_preset_is_positive() {
    for t in presets() {
        let td = TuningData::new(t);
        for n in 0..128 {
            assert!(td.lookup(n as i8) > 0);
            assert!(td.freq_table[n] > 0);
        }
    }
}

#[test]
fn every_table_rises_from_note_to_note() {
    for t in presets() {
        let td = TuningData::new(t);
        for n in 0..127 {
            assert!(td.freq_table[n] < td.freq_table[n + 1]);
        }
    }
}

#[test]
fn equal_temperament_a_is_440_and_octaves_double() {
    let td = TuningData::new(Tuning::EquaTemp);
    assert_eq!(td.lookup(69), CONCERT_A);
    assert_eq!(td.lookup(69), 440 << 32);
    assert_eq!(hz(td.lookup(69)), 440.0);
    for n in 0..116 {
        let low = td.freq_table[n];
        let high = td.freq_table[n + 12];
        assert!(high == 2 * low || high == 2 * low + 1);
        assert!((hz(high) - 2.0 * hz(low)).abs() < 1e-9);
    }
}

#[test]
fn equal_temperament_octaves_of_a() {
    let td = TuningData::new(Tuning::EquaTemp);
    assert!((hz(td.lookup(69)) - 440.0).abs() < 1e-9);
    assert!((hz(td.lookup(57)) - 220.0).abs() < 1e-9);
    assert!((hz(td.lookup(81)) - 880.0).abs() < 1e-9);
    assert_eq!(td.lookup(57), 220 << 32);
    assert_eq!(td.lookup(81), 880 << 32);
}

#[test]
fn equal_temperament_follows_the_twelfth_root_of_two() {
    let td = TuningData::new(Tuning::EquaTemp);
    for n in 0..128 {
        let expected = 440.0 * 2f64.powf((n as f64 - 69.0) / 12.0);
        assert!((hz(td.freq_table[n]) - expected).abs() < 1e-9 * expected);
    }
}

#[test]
fn ptolemaic_major_third_in_cents() {
    let ptol = TuningData::new(Tuning::PtolTemp);
    let c = cents(ptol.lookup(60), ptol.lookup(64));
    assert!((c - 386.31).abs() < 0.01);
}

#[test]
fn lookup_of_a_negative_note_is_zero() {
    let td = TuningData::new(Tuning::EquaTemp);
    assert_eq!(td.lookup(-1), 0);
    assert_eq!(td.lookup(-128), 0);
    assert_eq!(td.lookup(127), td.freq_table[127]);
    assert_eq!(td.lookup(0), td.freq_table[0]);
}

#[test]
fn anchors_are_the_octave_above_a() {
    for t in presets() {
        let td = TuningData::new(t);
        for i in 0..12 {
            assert_eq!(td.fund_table[i], td.freq_table[69 + i]);
        }
        assert_eq!(td.fund_table[0], CONCERT_A);
    }
}

#[test]
fn intervals_start_at_one_and_rise_below_two() {
    for t in presets() {
        let td = TuningData::new(t);
        assert_eq!(td.intervals[0].num, td.intervals[0].den);
        for i in 0..12 {
            let r = td.intervals[i];
            assert!(r.den > 0);
            assert!(r.num >= r.den);
            assert!((r.num as u128) < 2 * (r.den as u128));
        }
        for i in 0..11 {
            let a = td.intervals[i];
            let b = td.intervals[i + 1];
            assert!((a.num as u128) * (b.den as u128) < (b.num as u128) * (a.den as u128));
        }
    }
}

#[test]
fn just_presets_carry_their_tritone_substitutes() {
    let just = TuningData::new(Tuning::Just5Temp);
    assert_eq!(just.lo_tt, Ratio { num: 64, den: 45 });
    assert_eq!(just.hi_tt, Ratio { num: 45, den: 32 });
    let pyth = TuningData::new(Tuning::PythTemp);
    assert_eq!(pyth.lo_tt, Ratio { num: 1024, den: 729 });
    assert_eq!(pyth.hi_tt, Ratio { num: 729, den: 512 });
    let equal = TuningData::new(Tuning::EquaTemp);
    assert_eq!(equal.lo_tt.num, 0);
    assert_eq!(equal.hi_tt.num, 0);
}

#[test]
fn preset_tables_hold_the_listed_ratios() {
    let just = TuningData::new(Tuning::Just5Temp);
    assert_eq!(just.intervals[1], Ratio { num: 16, den: 15 });
    assert_eq!(just.intervals[6], Ratio { num: 45, den: 32 });
    let kepler = TuningData::new(Tuning::KeplTemp);
    assert_eq!(kepler.intervals[1], Ratio { num: 135, den: 128 });
    let ptol = TuningData::new(Tuning::PtolTemp);
    assert_eq!(ptol.intervals[6], Ratio { num: 7, den: 5 });
    assert_eq!(ptol.intervals[10], Ratio { num: 7, den: 4 });
    let dowland = TuningData::new(Tuning::Dowland);
    assert_eq!(dowland.intervals[11], Ratio { num: 396, den: 211 });
    let kirn = TuningData::new(Tuning::Kirnberger);
    assert_eq!(kirn.intervals[9], Ratio { num: 270, den: 161 });
    let pyth = TuningData::new(Tuning::PythTemp);
    assert_eq!(pyth.intervals[6], Ratio { num: 729, den: 512 });
}

#[test]
fn chinese_table_is_the_cycle_of_fifths() {
    let td = TuningData::new(Tuning::ChinTemp);
    assert_eq!(td.intervals[0], Ratio { num: 1, den: 1 });
    assert_eq!(td.intervals[1], Ratio { num: 2187, den: 2048 });
    assert_eq!(td.intervals[5], Ratio { num: 177147, den: 131072 });
    assert_eq!(td.intervals[7], Ratio { num: 3, den: 2 });
    assert_eq!(td.intervals[11], Ratio { num: 243, den: 128 });
}

#[test]
fn hammond_table_is_folded_into_one_octave() {
    let td = TuningData::new(Tuning::HammTemp);
    // 88/64 divided by 11/8 is 1.
    assert_eq!(td.intervals[0], Ratio { num: 8 * 88, den: 11 * 64 });
    // 85/104 divided by 11/8 is below 1 and is doubled.
    assert_eq!(td.intervals[3], Ratio { num: 16 * 85, den: 11 * 104 });
    // 103/100 divided by 11/8 is below 1 and is doubled.
    assert_eq!(td.intervals[7], Ratio { num: 16 * 103, den: 11 * 100 });
    assert_eq!(td.intervals[1], Ratio { num: 8 * 67, den: 11 * 46 });
}

#[test]
fn meantone_table_holds_the_roots_of_five() {
    let td = TuningData::new(Tuning::MeanTemp);
    let p = 5f64.powf(0.25);
    let t = 5f64.sqrt() / 2.0;
    let s = 8.0 / 5f64.powf(1.25);
    let z = t / s;
    let expected = [
        1.0,
        z,
        t,
        t * s,
        t * t,
        t * t * s,
        t * t * t,
        p,
        p * z,
        p * t,
        p * t * s,
        p * t * t,
    ];
    for i in 0..12 {
        let r = td.intervals[i];
        let got = r.num as f64 / r.den as f64;
        assert!((got - expected[i]).abs() < 1e-14);
    }
}

#[test]
fn retune_moves_the_reference_pitch() {
    let mut td = TuningData::new(Tuning::PtolTemp);
    td.retune(432 << 32);
    assert_eq!(td.freq_a, 432 << 32);
    assert_eq!(td.lookup(69), 432 << 32);
    assert_eq!(td.lookup(57), 216 << 32);
    // 432 * 6/5 / 2
    assert!((hz(td.lookup(60)) - 259.2).abs() < 1e-9);
    assert_eq!(td.fund_table[0], 432 << 32);
}

#[test]
fn retune_saturates() {
    let mut td = TuningData::new(Tuning::EquaTemp);
    td.retune(u64::MAX);
    assert_eq!(td.lookup(127), u64::MAX);
    assert_eq!(td.lookup(69), u64::MAX);
    assert_eq!(td.lookup(0), u64::MAX / 64);
}

#[test]
fn init_takes_any_intervals() {
    let mut td = TuningData::new(Tuning::EquaTemp);
    let mut j_f = [Ratio { num: 1, den: 1 }; 12];
    j_f[3] = Ratio { num: 5, den: 4 };
    td.init(j_f);
    assert_eq!(td.intervals, j_f);
    assert_eq!(td.lookup(69), 440 << 32);
    assert_eq!(td.lookup(70), 440 << 32);
    // note 60 falls on slot 3, one octave below the reference octave
    assert_eq!(td.lookup(60), 275 << 32);
    assert_eq!(td.lookup(72), 550 << 32);
    assert_eq!(td.fund_table[3], 550 << 32);
}

#[test]
fn init_just_substitutes_both_tritones() {
    let mut td = TuningData::new(Tuning::Just5Temp);
    let mut j_f = td.intervals;
    // slot 9 is F sharp / G flat, counted from A
    j_f[9] = Ratio { num: 0, den: 1 };
    let g_flat = Ratio { num: 64, den: 45 };
    let f_sharp = Ratio { num: 45, den: 32 };
    td.init_just(j_f, g_flat, f_sharp);
    assert_eq!(td.lo_tt, g_flat);
    assert_eq!(td.hi_tt, f_sharp);
    // note 54 is below 62 and takes the low substitute: 440 * 64/45 / 4
    assert!((hz(td.lookup(54)) - 440.0 * 64.0 / 45.0 / 4.0).abs() < 1e-9);
    // note 66 takes the high one: 440 * 45/32 / 2
    assert_eq!(hz(td.lookup(66)), 440.0 * 45.0 / 32.0 / 2.0);
    // note 78: 440 * 45/32
    assert_eq!(hz(td.lookup(78)), 618.75);
    // the other notes are as before
    assert_eq!(td.lookup(69), 440 << 32);
    assert_eq!(td.lookup(60), 264 << 32);
}

#[test]
fn init_intervals_leaves_the_table_alone() {
    let mut td = TuningData::new(Tuning::EquaTemp);
    let table = td.freq_table;
    let j_f = [Ratio { num: 3, den: 2 }; 12];
    td.init_intervals(j_f);
    assert_eq!(td.intervals, j_f);
    assert_eq!(td.freq_table, table);
}

#[test]
fn init_fund_copies_the_reference_octave() {
    let mut td = TuningData::new(Tuning::EquaTemp);
    td.freq_table[69] = 7;
    td.freq_table[80] = 9;
    td.init_fund();
    assert_eq!(td.fund_table[0], 7);
    assert_eq!(td.fund_table[11], 9);
}

#[test]
fn note_octave_is_a_power_of_two() {
    let td = TuningData::new(Tuning::EquaTemp);
    assert_eq!(td.note_octave(69), 1 << 32);
    assert_eq!(td.note_octave(0), 1 << 26);
    assert_eq!(td.note_octave(8), 1 << 26);
    assert_eq!(td.note_octave(9), 1 << 27);
    assert_eq!(td.note_octave(127), 1 << 36);
    assert_eq!(td.note_octave(440), 1 << 62);
    assert_eq!(td.note_octave(441), u64::MAX);
}

#[test]
fn modulate_recentres_on_the_anchor() {
    let mut td = TuningData::new(Tuning::PtolTemp);
    let anchors = td.fund_table;
    // C is three semitones above A: the new tonic is note 72 at 528 Hz.
    td.modulate(3);
    assert_eq!(td.fund_table, anchors);
    assert_eq!(td.lookup(72), 528 << 32);
    assert_eq!(td.lookup(60), 264 << 32);
    assert_eq!(td.lookup(84), 1056 << 32);
    // a major third above the tonic is 5/4 of it
    assert_eq!(td.lookup(76), 660 << 32);
    assert_eq!(td.lookup(64), 330 << 32);
    // a fifth above the tonic is 3/2 of it
    assert_eq!(td.lookup(79), 792 << 32);
    // the semitone below the tonic is 15/8 of the tonic an octave down
    assert_eq!(td.lookup(71), 495 << 32);
    assert_eq!(td.lookup(0), (528u64 << 32) / 64);
    // note 127 is a fifth and four octaves above the tonic
    assert_eq!(td.lookup(127), 12672 << 32);
}

#[test]
fn modulate_wraps_the_note_and_drops_negative_ones() {
    let mut a = TuningData::new(Tuning::Just5Temp);
    let mut b = TuningData::new(Tuning::Just5Temp);
    a.modulate(3);
    b.modulate(15);
    assert_eq!(a.freq_table, b.freq_table);
    let before = a.freq_table;
    a.modulate(-4);
    assert_eq!(a.freq_table, before);
}

#[test]
fn modulate_by_zero_keeps_a_tuned_table() {
    for t in presets() {
        let mut td = TuningData::new(t);
        let before = td.freq_table;
        td.modulate(0);
        for n in 0..128 {
            let diff = td.freq_table[n] as i128 - before[n] as i128;
            assert!(diff.abs() <= 1);
        }
    }
}

#[test]
fn init_temp_hands_the_preset_back() {
    assert_eq!(TuningData::init_temp(Tuning::Dowland), Tuning::Dowland);
    assert_eq!(TuningData::init_temp(Tuning::EquaTemp), Tuning::EquaTemp);
}

#[test]
fn tunings_holds_every_preset() {
    let all = Tunings::new();
    for t in presets() {
        let td = all.index(t);
        let fresh = TuningData::new(t);
        assert_eq!(td.tuning, t);
        assert_eq!(td.freq_table, fresh.freq_table);
        assert_eq!(td.intervals, fresh.intervals);
        assert_eq!(td.fund_table, fresh.fund_table);
    }
}
