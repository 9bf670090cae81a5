pub mod catalog;
pub mod config;
pub mod item;
pub mod kinds;
pub mod ledger;
pub mod logistics;
pub mod market;
pub mod plan;
pub mod profit;
pub mod projection;
pub mod report;
pub mod setup;
pub mod slots;

use vstd::prelude::*;

verus! {

/// Prices and money amounts are integers counting hundredths of one ISK.
/// Rates, taxes, efficiency multipliers and probabilities are integers
/// counting parts per million.
pub const RATE_DENOM: u64 = 1_000_000;

/// Item quantities inside a profit probe, market-order volumes and item
/// volumes (cubic metres) carry three fractional digits: one stored unit
/// is a thousandth.
pub const QTY_DENOM: u64 = 1_000;

/// Money arithmetic saturates at this ceiling (2^100 money units), so that
/// a difference of two amounts always fits in an `i128`.
pub const MONEY_CAP: u128 = 0x10_0000_0000_0000_0000_0000_0000;

/// Addition on money amounts, saturating at `MONEY_CAP`.
pub open spec fn cap_add(a: int, b: int) -> int {
    if a + b > MONEY_CAP {
        MONEY_CAP as int
    } else {
        a + b
    }
}

/// `a * b / d` on money amounts, saturating at `MONEY_CAP`.
pub open spec fn cap_mul_div(a: int, b: int, d: int) -> int {
    if a * b / d > MONEY_CAP {
        MONEY_CAP as int
    } else {
        a * b / d
    }
}

/// Money addition, capped at `MONEY_CAP`.
pub fn money_add(a: u128, b: u128) -> (r: u128)
    requires
        a <= MONEY_CAP,
        b <= MONEY_CAP,
    ensures
        r == cap_add(a as int, b as int),
        r <= MONEY_CAP,
{
    if a <= MONEY_CAP - b {
        a + b
    } else {
        MONEY_CAP
    }
}

/// Computes `a * b / d` exactly, capped at `MONEY_CAP`. The divisor must be
/// a small scale constant so that any product too large for the machine is
/// provably above the cap.
pub fn money_mul_div(a: u128, b: u128, d: u64) -> (r: u128)
    requires
        1 <= d <= 0x10_0000,
    ensures
        r == cap_mul_div(a as int, b as int, d as int),
        r <= MONEY_CAP,
{
    if b == 0 {
        assert(a as int * 0 == 0);
        return 0;
    }
    if a > u128::MAX / b {
        proof {
            let m = u128::MAX as int;
            assert(a as int * b as int > m) by (nonlinear_arith)
                requires
                    a as int > m / (b as int),
                    b as int >= 1,
            ;
            assert(a as int * b as int / (d as int) > MONEY_CAP) by (nonlinear_arith)
                requires
                    a as int * b as int > u128::MAX as int,
                    1 <= d as int <= 0x10_0000,
            ;
        }
        return MONEY_CAP;
    }
    proof {
        assert(a as int * b as int <= u128::MAX as int) by (nonlinear_arith)
            requires
                b as int >= 1,
                a as int <= (u128::MAX as int) / (b as int),
        ;
    }
    let p: u128 = a * b;
    let q: u128 = p / (d as u128);
    if q > MONEY_CAP {
        MONEY_CAP
    } else {
        q
    }
}

/// A capped scaled product of non-negative amounts lies between zero and
/// the money cap.
pub proof fn lemma_cap_mul_div_bounds(a: int, b: int, d: int)
    requires
        a >= 0,
        b >= 0,
        d >= 1,
    ensures
        0 <= cap_mul_div(a, b, d) <= MONEY_CAP,
{
    assert(a * b >= 0) by (nonlinear_arith)
        requires
            a >= 0,
            b >= 0,
    ;
    assert(a * b / d >= 0) by (nonlinear_arith)
        requires
            a * b >= 0,
            d >= 1,
    ;
}

/// Addition on stored reservation counters, saturating at `u64::MAX`.
pub open spec fn sat_add64(a: int, b: int) -> int {
    if a + b > u64::MAX {
        u64::MAX as int
    } else {
        a + b
    }
}

pub fn vol_add(a: u64, b: u64) -> (r: u64)
    ensures
        r == sat_add64(a as int, b as int),
{
    if a <= u64::MAX - b {
        a + b
    } else {
        u64::MAX
    }
}

/// Multiplication on quantities, saturating at `u64::MAX`.
pub open spec fn sat_mul64(a: int, b: int) -> int {
    if a * b > u64::MAX {
        u64::MAX as int
    } else {
        a * b
    }
}

pub fn qty_mul(a: u64, b: u64) -> (r: u64)
    ensures
        r == sat_mul64(a as int, b as int),
{
    if b == 0 {
        assert(a as int * 0 == 0);
        return 0;
    }
    if a > u64::MAX / b {
        proof {
            let m = u64::MAX as int;
            assert(a as int * b as int > m) by (nonlinear_arith)
                requires
                    a as int > m / (b as int),
                    b as int >= 1,
            ;
        }
        u64::MAX
    } else {
        proof {
            assert(a as int * b as int <= u64::MAX as int) by (nonlinear_arith)
                requires
                    b as int >= 1,
                    a as int <= (u64::MAX as int) / (b as int),
            ;
        }
        a * b
    }
}

/// Signed availability arithmetic saturates at this bound (2^126), so that
/// one more addition always fits in an `i128`.
pub const AVAIL_CAP: i128 = 0x4000_0000_0000_0000_0000_0000_0000_0000;

/// Saturating signed addition on availability amounts.
pub open spec fn cap_iadd(a: int, b: int) -> int {
    if a + b > AVAIL_CAP {
        AVAIL_CAP as int
    } else if a + b < -(AVAIL_CAP as int) {
        -(AVAIL_CAP as int)
    } else {
        a + b
    }
}

pub fn avail_add(a: i128, b: i128) -> (r: i128)
    requires
        -(AVAIL_CAP as int) <= a <= AVAIL_CAP,
        -(AVAIL_CAP as int) <= b <= AVAIL_CAP,
    ensures
        r == cap_iadd(a as int, b as int),
        -(AVAIL_CAP as int) <= r <= AVAIL_CAP,
{
    if b >= 0 {
        if a > AVAIL_CAP - b {
            AVAIL_CAP
        } else {
            a + b
        }
    } else {
        if a < -AVAIL_CAP - b {
            -AVAIL_CAP
        } else {
            a + b
        }
    }
}

/// Saturating signed addition is associative for non-negative amounts.
pub proof fn lemma_cap_iadd_assoc(a: int, b: int, c: int)
    requires
        a >= 0,
        b >= 0,
        c >= 0,
    ensures
        cap_iadd(cap_iadd(a, b), c) == cap_iadd(a, cap_iadd(b, c)),
{
}

/// The saturated product of two quantities, as availability.
pub open spec fn cap_iqmul(a: int, b: int) -> int {
    if a * b > AVAIL_CAP {
        AVAIL_CAP as int
    } else {
        a * b
    }
}

pub fn avail_mul(a: u64, b: u64) -> (r: i128)
    ensures
        r == cap_iqmul(a as int, b as int),
        0 <= r <= AVAIL_CAP,
{
    proof {
        assert(a as int * b as int <= u128::MAX as int) by (nonlinear_arith)
            requires
                a as int <= u64::MAX as int,
                b as int <= u64::MAX as int,
        ;
        assert(a as int * b as int >= 0) by (nonlinear_arith)
            requires
                a as int >= 0,
                b as int >= 0,
        ;
    }
    let p: u128 = a as u128 * b as u128;
    if p > AVAIL_CAP as u128 {
        AVAIL_CAP
    } else {
        p as i128
    }
}

/// An availability clamped into the signed machine-word range.
pub open spec fn clamp_i64(a: int) -> int {
    if a > i64::MAX {
        i64::MAX as int
    } else if a < i64::MIN {
        i64::MIN as int
    } else {
        a
    }
}

pub fn to_i64(a: i128) -> (r: i64)
    ensures
        r == clamp_i64(a as int),
{
    if a > i64::MAX as i128 {
        i64::MAX
    } else if a < i64::MIN as i128 {
        i64::MIN
    } else {
        a as i64
    }
}

/// Saturating addition on slot counts.
pub open spec fn sat_add_usize(a: int, b: int) -> int {
    if a + b > usize::MAX {
        usize::MAX as int
    } else {
        a + b
    }
}

pub fn slot_add(a: usize, b: usize) -> (r: usize)
    ensures
        r == sat_add_usize(a as int, b as int),
{
    if a <= usize::MAX - b {
        a + b
    } else {
        usize::MAX
    }
}

/// A value scaled by a factor in parts per million, saturating at
/// `u64::MAX`.
pub open spec fn sat_scale64(value: int, factor_ppm: int) -> int {
    let scaled = value * factor_ppm / RATE_DENOM as int;
    if scaled > u64::MAX {
        u64::MAX as int
    } else {
        scaled
    }
}

pub fn scale_ppm(value: u64, factor_ppm: u64) -> (r: u64)
    ensures
        r == sat_scale64(value as int, factor_ppm as int),
{
    proof {
        assert(value as int * factor_ppm as int <= u128::MAX as int) by (nonlinear_arith)
            requires
                value as int <= u64::MAX as int,
                factor_ppm as int <= u64::MAX as int,
        ;
    }
    let scaled: u128 = value as u128 * factor_ppm as u128 / (RATE_DENOM as u128);
    if scaled > u64::MAX as u128 {
        u64::MAX
    } else {
        scaled as u64
    }
}

/// Law: a material efficiency multiplier applied to a per-run quantity of
/// one leaves it at one per run — one-offs never shrink, whatever the
/// multiplier.
pub proof fn lemma_one_off_never_shrinks(runs: int, me_ppm: int)
    ensures
        me_scaled_qty(1, runs, me_ppm) == sat_mul64(1, runs),
{
}

/// A per-run quantity scaled to `runs` runs under a material-efficiency
/// multiplier: one-offs never shrink, larger quantities are rounded up
/// after the multiplier, and everything saturates at `u64::MAX`.
pub open spec fn me_scaled_qty(qty: int, runs: int, me_ppm: int) -> int {
    if me_ppm == RATE_DENOM || qty == 1 {
        sat_mul64(qty, runs)
    } else {
        let exact = sat_mul64(qty, runs) * me_ppm;
        let ceiled = (exact + (RATE_DENOM - 1)) / RATE_DENOM as int;
        if ceiled > u64::MAX {
            u64::MAX as int
        } else {
            ceiled
        }
    }
}

pub fn me_quantity(qty: u64, runs: u64, me_ppm: u64) -> (r: u64)
    requires
        me_ppm <= 16_000_000,
    ensures
        r == me_scaled_qty(qty as int, runs as int, me_ppm as int),
{
    if me_ppm == RATE_DENOM || qty == 1 {
        qty_mul(qty, runs)
    } else {
        let m: u64 = qty_mul(qty, runs);
        proof {
            assert(m as int * me_ppm as int <= u64::MAX as int * 16_000_000) by (nonlinear_arith)
                requires
                    0 <= m as int <= u64::MAX as int,
                    0 <= me_ppm as int <= 16_000_000,
            ;
        }
        let exact: u128 = m as u128 * me_ppm as u128;
        let ceiled: u128 = (exact + (RATE_DENOM as u128 - 1)) / RATE_DENOM as u128;
        if ceiled > u64::MAX as u128 {
            u64::MAX
        } else {
            ceiled as u64
        }
    }
}

} // verus!
