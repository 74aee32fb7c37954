//! The sine in integer arithmetic: a series for the first quarter period,
//! symmetry for the rest.

use vstd::prelude::*;
use crate::types::{lemma_mul_bounds, min_int, Sample, ONE};

verus! {

/// pi/2 in units of 2^-48, rounded to nearest.
pub const HALF_PI_48: u64 = 0x1_921F_B544_42D2;

/// The number 1 in units of 2^-48.
pub const UNIT_48: u64 = 0x1_0000_0000_0000;

/// Table entries in a quarter period: 2^17.
pub const QUARTER: usize = 0x2_0000;

/// One step of the nested form of the sine series: `1 - z * p / c`, in
/// units of 2^-48, each quotient rounded down.
pub open spec fn series_step(z: int, p: int, c: int) -> int {
    UNIT_48 - (z * p / (UNIT_48 as int)) / c
}

/// The sine series up to the term in `x^15`, divided by `x`, at `z = x^2`:
/// `1 - z/6 (1 - z/20 (1 - z/42 (1 - z/72 (1 - z/110 (1 - z/156 (1 - z/210))))))`.
pub open spec fn series(z: int) -> int {
    let p7 = series_step(z, UNIT_48 as int, 210);
    let p6 = series_step(z, p7, 156);
    let p5 = series_step(z, p6, 110);
    let p4 = series_step(z, p5, 72);
    let p3 = series_step(z, p4, 42);
    let p2 = series_step(z, p3, 20);
    series_step(z, p2, 6)
}

/// The angle of entry `k` of the first quarter period, in units of 2^-48 rad.
pub open spec fn quarter_angle(k: int) -> int {
    k * HALF_PI_48 / (QUARTER as int)
}

/// The sine of entry `k` of the first quarter period, `0 <= k <= 2^17`, as a
/// 32.32 number: the series in 2^-48 units, rounded to nearest and kept
/// within full scale.
pub open spec fn sine_quarter(k: int) -> int {
    let x = quarter_angle(k);
    let z = x * x / (UNIT_48 as int);
    let y = x * series(z) / (UNIT_48 as int);
    min_int((y + 0x8000) / 0x1_0000, ONE as int)
}

/// Entry `t` of one period of the sine, `0 <= t < 2^19`: the first quarter
/// by the series, the other three by symmetry.
pub open spec fn sine_at(t: int) -> int {
    let q = t / (QUARTER as int);
    let r = t % (QUARTER as int);
    if q == 0 {
        sine_quarter(r)
    } else if q == 1 {
        sine_quarter(QUARTER - r)
    } else if q == 2 {
        -sine_quarter(r)
    } else {
        -sine_quarter(QUARTER - r)
    }
}

/// What the executable code needs to know of one series step.
proof fn lemma_series_step(z: int, p: int, c: int)
    requires
        0 <= z <= 3 * UNIT_48,
        0 <= p <= UNIT_48,
        c >= 3,
    ensures
        0 <= z * p <= 3 * UNIT_48 * UNIT_48,
        0 <= (z * p / (UNIT_48 as int)) / c <= UNIT_48,
        0 <= series_step(z, p, c) <= UNIT_48,
{
    lemma_mul_bounds(z, p, 3 * UNIT_48, UNIT_48 as int);
    let t = z * p / (UNIT_48 as int);
    assert(0 <= t <= 3 * UNIT_48);
    assert(0 <= t / c <= UNIT_48) by (nonlinear_arith)
        requires
            0 <= t <= 3 * UNIT_48,
            c >= 3,
    ;
}

/// The angle of a quarter-period entry is at most pi/2 and its square at
/// most 3.
proof fn lemma_quarter_angle(k: int)
    requires
        0 <= k <= QUARTER,
    ensures
        0 <= k * HALF_PI_48 <= QUARTER * HALF_PI_48,
        0 <= quarter_angle(k) <= HALF_PI_48,
        0 <= quarter_angle(k) * quarter_angle(k) <= HALF_PI_48 * HALF_PI_48,
        0 <= quarter_angle(k) * quarter_angle(k) / (UNIT_48 as int) <= 3 * UNIT_48,
{
    lemma_mul_bounds(k, HALF_PI_48 as int, QUARTER as int, HALF_PI_48 as int);
    let x = quarter_angle(k);
    lemma_mul_bounds(x, x, HALF_PI_48 as int, HALF_PI_48 as int);
    assert(HALF_PI_48 * HALF_PI_48 <= 3 * UNIT_48 * UNIT_48) by (nonlinear_arith);
}

/// The quarter-period sine lies between 0 and full scale.
pub proof fn lemma_sine_quarter_range(k: int)
    requires
        0 <= k <= QUARTER,
    ensures
        0 <= sine_quarter(k) <= ONE,
{
    lemma_quarter_angle(k);
    let x = quarter_angle(k);
    let z = x * x / (UNIT_48 as int);
    lemma_series_bounds(z);
    lemma_mul_bounds(x, series(z), HALF_PI_48 as int, UNIT_48 as int);
}

/// The series stays between 0 and 1 for squared angles up to 3.
proof fn lemma_series_bounds(z: int)
    requires
        0 <= z <= 3 * UNIT_48,
    ensures
        0 <= series(z) <= UNIT_48,
{
    let p7 = series_step(z, UNIT_48 as int, 210);
    lemma_series_step(z, UNIT_48 as int, 210);
    let p6 = series_step(z, p7, 156);
    lemma_series_step(z, p7, 156);
    let p5 = series_step(z, p6, 110);
    lemma_series_step(z, p6, 110);
    let p4 = series_step(z, p5, 72);
    lemma_series_step(z, p5, 72);
    let p3 = series_step(z, p4, 42);
    lemma_series_step(z, p4, 42);
    let p2 = series_step(z, p3, 20);
    lemma_series_step(z, p3, 20);
    lemma_series_step(z, p2, 6);
}

/// Every entry of the sine lies within full scale.
pub proof fn lemma_sine_range(t: int)
    requires
        0 <= t < 4 * QUARTER,
    ensures
        -ONE <= sine_at(t) <= ONE,
{
    let r = t % (QUARTER as int);
    lemma_sine_quarter_range(r);
    lemma_sine_quarter_range(QUARTER - r);
}

/// The second half of the period is the first half negated.
pub proof fn lemma_sine_half_period(t: int)
    requires
        0 <= t < 2 * QUARTER,
    ensures
        sine_at(t + 2 * QUARTER) == -sine_at(t),
{
}

/// The sine starts at 0 and crosses 0 again at the half period.
pub proof fn lemma_sine_zero()
    ensures
        sine_at(0) == 0,
        sine_at(2 * QUARTER) == 0,
{
    assert(quarter_angle(0) == 0);
    assert(sine_quarter(0) == 0) by {
        let z = 0int * 0int / (UNIT_48 as int);
        assert(z == 0);
        assert(0int * series(0) == 0);
    }
}

/// The sine reaches full scale at the quarter period.
pub proof fn lemma_sine_peak()
    ensures
        sine_at(QUARTER as int) == ONE,
{
    assert(sine_quarter(QUARTER as int) == ONE) by (nonlinear_arith);
}

/// One step of the series; see [`series_step`].
fn series_step_exec(z: u128, p: u128, c: u128) -> (next: u128)
    requires
        z <= 3 * UNIT_48,
        p <= UNIT_48,
        c >= 3,
    ensures
        next == series_step(z as int, p as int, c as int),
        next <= UNIT_48,
{
    proof {
        lemma_series_step(z as int, p as int, c as int);
    }
    (UNIT_48 as u128) - (z * p / (UNIT_48 as u128)) / c
}

/// The sine of entry `k` of the first quarter period.
pub fn sine_of_quarter(k: usize) -> (s: Sample)
    requires
        k <= QUARTER,
    ensures
        s == sine_quarter(k as int),
        0 <= s <= ONE,
{
    proof {
        lemma_quarter_angle(k as int);
        lemma_sine_quarter_range(k as int);
    }
    let unit: u128 = UNIT_48 as u128;
    let x: u128 = (k as u128) * (HALF_PI_48 as u128) / (QUARTER as u128);
    let z: u128 = x * x / unit;
    let p7: u128 = series_step_exec(z, unit, 210);
    let p6: u128 = series_step_exec(z, p7, 156);
    let p5: u128 = series_step_exec(z, p6, 110);
    let p4: u128 = series_step_exec(z, p5, 72);
    let p3: u128 = series_step_exec(z, p4, 42);
    let p2: u128 = series_step_exec(z, p3, 20);
    let p1: u128 = series_step_exec(z, p2, 6);
    proof {
        lemma_mul_bounds(x as int, p1 as int, HALF_PI_48 as int, UNIT_48 as int);
    }
    let y: u128 = x * p1 / unit;
    let rounded: u128 = (y + 0x8000) / 0x1_0000;
    if rounded > ONE as u128 {
        ONE
    } else {
        rounded as i64
    }
}

/// Entry `t` of one period of the sine.
pub fn sine_entry(t: usize) -> (s: Sample)
    requires
        t < 4 * QUARTER,
    ensures
        s == sine_at(t as int),
        -ONE <= s <= ONE,
{
    let q: usize = t / QUARTER;
    let r: usize = t % QUARTER;
    if q == 0 {
        sine_of_quarter(r)
    } else if q == 1 {
        sine_of_quarter(QUARTER - r)
    } else if q == 2 {
        -sine_of_quarter(r)
    } else {
        -sine_of_quarter(QUARTER - r)
    }
}

} // verus!
