use feosynth::counter::{Counter, FRACTION_STEPS, PERIOD, SHIFT, TABLE_BITS, TABLE_SIZE};
use feosynth::types::SampleRated;

#[test]
fn test_counter() {
    let rate = 96000;
    assert_eq!(1 << 19, 524288);
    let mut c = Counter::new();
    c.set_sample_rate(rate);
    let size = TABLE_SIZE as u32;
    println!("table size = {}", size);
    c.set_freq(((rate / 8) as u64) << 32);
    assert!(c.index() == 0);
    assert!(c.modulo() == 0);
    c.increment();
    assert_eq!(c.index(), size * 1 / 8);
    c.increment();
    assert_eq!(c.index(), size * 1 / 4);
    c.increment();
    assert_eq!(c.index(), size * 3 / 8);
    c.increment();
    assert_eq!(c.index(), size * 4 / 8);
    c.increment();
    assert_eq!(c.index(), size * 5 / 8);
    c.increment();
    assert_eq!(c.index(), size * 6 / 8);
    c.increment();
    assert_eq!(c.index(), size * 7 / 8);
    c.increment();
    assert_eq!(c.index(), 0);
}

#[test]
fn counter_constants_fit_together() {
    assert_eq!(TABLE_SIZE, 1 << TABLE_BITS);
    assert_eq!(SHIFT as usize, 32 - TABLE_BITS);
    assert_eq!(FRACTION_STEPS, 1 << SHIFT);
    assert_eq!(PERIOD, 1 << 32);
}

#[test]
fn new_counter_starts_at_zero_with_step_one() {
    let c = Counter::new();
    assert_eq!(c.phase, 0);
    assert_eq!(c.incr, 1);
    assert_eq!(c.sample_rate, 0);
}

#[test]
fn step_is_the_rounded_quotient() {
    let mut c = Counter::new();
    c.set_sample_rate(96000);
    // 440 * 2^32 / 96000 = 19685266.77
    assert_eq!(c.calc_freq(440 << 32), 19685267);
    c.set_freq(440 << 32);
    assert_eq!(c.incr, 19685267);
    // exactly halfway rounds up: f / rate = 0.5
    assert_eq!(c.calc_freq(48000), 1);
    assert_eq!(c.calc_freq(47999), 0);
    assert_eq!(c.calc_freq(3 * 48000), 2);
    assert_eq!(c.calc_freq(0), 0);
}

#[test]
fn step_saturates_above_the_frame_rate() {
    let mut c = Counter::new();
    c.set_sample_rate(48000);
    assert_eq!(c.calc_freq(48000 << 32), u32::MAX);
    assert_eq!(c.calc_freq(u64::MAX), u32::MAX);
    assert_eq!(c.calc_freq(24000 << 32), 1 << 31);
    c.set_sample_rate(1);
    assert_eq!(c.calc_freq(u64::MAX), u32::MAX);
}

#[test]
fn without_a_frame_rate_the_step_is_zero() {
    let mut c = Counter::new();
    assert_eq!(c.calc_freq(440 << 32), 0);
    c.set_freq(440 << 32);
    assert_eq!(c.incr, 0);
    c.increment();
    assert_eq!(c.phase, 0);
}

#[test]
fn set_sample_rate_keeps_the_step() {
    let mut c = Counter::new();
    c.set_sample_rate(48000);
    c.set_freq(12000 << 32);
    let step = c.incr;
    c.set_sample_rate(96000);
    assert_eq!(c.incr, step);
    assert_eq!(c.sample_rate, 96000);
}

#[test]
fn phase_wraps_modulo_two_to_the_32() {
    let mut c = Counter::new();
    c.phase = u32::MAX;
    c.incr = 3;
    c.increment();
    assert_eq!(c.phase, 2);
    c.phase = 0xFFFF_FFF0;
    c.incr = 0xFFFF_FFF0;
    c.increment();
    assert_eq!(c.phase, 0xFFFF_FFE0);
}

#[test]
fn index_and_fraction_split_the_phase() {
    let mut c = Counter::new();
    c.phase = (5 << 13) + 4096;
    assert_eq!(c.index(), 5);
    assert_eq!(c.modulo(), 4096);
    assert_eq!(c.frac(), 1 << 31);
    c.phase = u32::MAX;
    assert_eq!(c.index(), (TABLE_SIZE - 1) as u32);
    assert_eq!(c.modulo(), 8191);
    assert_eq!(c.frac(), (8191 as i64) << 19);
    assert!(c.frac() < 1 << 32);
}

#[test]
fn set_phase_lands_on_a_table_entry() {
    let mut c = Counter::new();
    c.incr = 77;
    c.set_phase(3);
    assert_eq!(c.index(), 3);
    assert_eq!(c.modulo(), 0);
    assert_eq!(c.incr, 77);
    c.set_phase(255);
    assert_eq!(c.index(), 255);
    c.set_phase(0);
    assert_eq!(c.phase, 0);
}

#[test]
fn quarter_rate_returns_to_zero() {
    for rate in [48000u32, 96000, 16, 19, 3, 8000, 192000] {
        let mut c = Counter::new();
        c.set_sample_rate(rate);
        c.set_freq((rate as u64) << 30);
        assert_eq!(c.incr, 1 << 30);
        for _ in 0..rate / 4 {
            c.increment();
        }
        assert_eq!(c.phase, 0);
        assert_eq!(c.index(), 0);
    }
}

#[test]
fn quarter_rate_needs_a_whole_number_of_periods() {
    // 44100 / 4 = 11025 frames are 2756 periods and a quarter.
    let mut c = Counter::new();
    c.set_sample_rate(44100);
    c.set_freq(44100 << 30);
    assert_eq!(c.incr, 1 << 30);
    for _ in 0..44100 / 4 {
        c.increment();
    }
    assert_eq!(c.index(), (TABLE_SIZE / 4) as u32);
}
