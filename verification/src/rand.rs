//! Deterministic pseudo-randomness.
//!
//! Every draw is a pure function of a seed derived from the day number (or,
//! for the stock market, of an explicit generator state threaded through the
//! caller), so replaying the same day reproduces the same rolls.

use vstd::prelude::*;

verus! {

/// One radian scaled by 1e6; used by the trend wave.
pub const PI_MICRO: u64 = 3_141_593;

/// Two pi scaled by 1e6.
pub const TWO_PI_MICRO: u64 = 6_283_185;

/// The seed all of one day's market draws derive from.
pub open spec fn spec_day_seed(day: u32) -> int {
    day * 31337 + 42
}

/// Derives the market seed for a day.
pub fn day_seed(day: u32) -> (r: u64)
    ensures
        r == spec_day_seed(day),
{
    day as u64 * 31337 + 42
}

/// One step of the 64-bit linear congruential generator.
pub open spec fn spec_lcg_next(state: u64) -> u64 {
    ((state * 1103515245 + 12345) % 0x1_0000_0000_0000_0000) as u64
}

/// Advances the stock-market generator by one step.
pub fn lcg_next(state: u64) -> (r: u64)
    ensures
        r == spec_lcg_next(state),
{
    let x: u128 = state as u128 * 1103515245 + 12345;
    (x % 0x1_0000_0000_0000_0000u128) as u64
}

/// The economy's transition roll, in basis points (0..10000).
pub open spec fn spec_econ_roll_bp(seed: u64) -> int {
    ((seed * 48271 + 1) % 0x1_0000_0000_0000_0000) % 10000
}

/// Draws the economy's daily transition roll from the day seed.
pub fn econ_roll_bp(seed: u64) -> (r: u64)
    ensures
        r == spec_econ_roll_bp(seed),
        r < 10000,
{
    let x: u128 = seed as u128 * 48271 + 1;
    let w: u64 = (x % 0x1_0000_0000_0000_0000u128) as u64;
    w % 10000
}

/// The daily sales variance multiplier in milli-units (800..=1199,
/// standing for 0.8 to 1.2).
pub open spec fn spec_variance_milli(seed: u64) -> int {
    800 + (spec_lcg_next(seed) % 1000) * 2 / 5
}

/// Draws the day's sales variance multiplier from the day seed.
pub fn variance_milli(seed: u64) -> (r: u64)
    ensures
        r == spec_variance_milli(seed),
        800 <= r <= 1199,
{
    let n: u64 = lcg_next(seed) % 1000;
    800 + n * 2 / 5
}

/// A signed unit draw in milli-units (-1000..=1000), read off a
/// freshly-stepped generator state.
pub open spec fn spec_signed_unit_milli(state: u64) -> int {
    ((state >> 16) & 0x7fff) * 2000 / 32767 - 1000
}

/// Turns a generator state into a signed unit draw.
pub fn signed_unit_milli(state: u64) -> (r: i64)
    ensures
        r == spec_signed_unit_milli(state),
        -1000 <= r <= 1000,
{
    let v: u64 = (state >> 16) & 0x7fff;
    proof {
        assert(v <= 0x7fff) by (bit_vector)
            requires
                v == (state >> 16) & 0x7fff,
        ;
    }
    (v * 2000 / 32767) as i64 - 1000
}

/// Bhaskara's rational approximation of the sine on `[0, pi]`, with the
/// argument in micro-radians and the result in milli-units.
pub open spec fn spec_sine_half_milli(x: int) -> int {
    16 * x * (PI_MICRO - x) * 1000 / (5 * PI_MICRO * PI_MICRO - 4 * x * (PI_MICRO - x))
}

/// For `0 <= x <= p`, the product `x * (p - x)` is at most `p * p / 4`.
proof fn lemma_arch_bound(x: int, p: int)
    requires
        0 <= x <= p,
    ensures
        4 * (x * (p - x)) <= p * p,
{
    assert(4 * (x * (p - x)) <= p * p) by (nonlinear_arith)
        requires
            0 <= x <= p,
    ;
}

/// Evaluates the sine approximation on the first half-period.
fn sine_half_milli(x: u64) -> (r: u64)
    requires
        x <= PI_MICRO,
    ensures
        r == spec_sine_half_milli(x as int),
        r <= 1000,
{
    proof {
        lemma_arch_bound(x as int, PI_MICRO as int);
    }
    let t: u64 = x * (PI_MICRO - x);
    let num: u64 = 16000 * t;
    let den: u64 = 5 * PI_MICRO * PI_MICRO - 4 * t;
    proof {
        assert(16 * x * (PI_MICRO - x) * 1000 == 16000 * (x * (PI_MICRO - x)))
            by (nonlinear_arith);
        assert(4 * x * (PI_MICRO - x) == 4 * (x * (PI_MICRO - x))) by (nonlinear_arith);
        assert(num / den <= 1000) by (nonlinear_arith)
            requires
                num <= 1000 * den,
                den > 0,
        ;
    }
    num / den
}

/// The slow economic trend wave: the sine of `day / 8` radians, in
/// milli-units (-1000..=1000).
pub open spec fn spec_trend_milli(day: u32) -> int {
    let a = (day * 125_000) % (TWO_PI_MICRO as int);
    if a <= PI_MICRO {
        spec_sine_half_milli(a)
    } else {
        -spec_sine_half_milli(a - PI_MICRO)
    }
}

/// Evaluates the day's economic trend.
pub fn trend_milli(day: u32) -> (r: i64)
    ensures
        r == spec_trend_milli(day),
        -1000 <= r <= 1000,
{
    let a: u64 = (day as u64 * 125_000) % TWO_PI_MICRO;
    if a <= PI_MICRO {
        sine_half_milli(a) as i64
    } else {
        -(sine_half_milli(a - PI_MICRO) as i64)
    }
}

} // verus!
