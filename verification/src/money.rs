//! Fixed-point money and quantity arithmetic.
//!
//! Money is an amount of cents in a `u64` (player cash, which may go
//! negative, is an `i64`). Every stored amount stays within `MONEY_CAP` and
//! every stored quantity within `QTY_CAP`; arithmetic that would pass a cap
//! saturates there, which the contracts state exactly.

use vstd::prelude::*;

verus! {

/// Ceiling on any stored amount of money, in cents ($100 billion).
pub const MONEY_CAP: u64 = 10_000_000_000_000;

/// Ceiling on any stored quantity of goods.
pub const QTY_CAP: u64 = 1_000_000_000_000;

/// A nonnegative amount capped at `MONEY_CAP`.
pub open spec fn cap_amount(x: int) -> int {
    if x > MONEY_CAP as int {
        MONEY_CAP as int
    } else {
        x
    }
}

/// A cash balance clamped into `[-MONEY_CAP, MONEY_CAP]`.
pub open spec fn clamp_cash(x: int) -> int {
    if x > MONEY_CAP as int {
        MONEY_CAP as int
    } else if x < -(MONEY_CAP as int) {
        -(MONEY_CAP as int)
    } else {
        x
    }
}

/// A quantity capped at `QTY_CAP`.
pub open spec fn cap_qty(x: int) -> int {
    if x > QTY_CAP as int {
        QTY_CAP as int
    } else {
        x
    }
}

/// Signed division truncating toward zero, as the executable operators do;
/// meaningful for positive divisors.
pub open spec fn div_trunc(a: int, b: int) -> int {
    if a >= 0 {
        a / b
    } else {
        -((-a) / b)
    }
}

/// Adds two capped amounts, saturating at `MONEY_CAP`.
pub fn add_amount(a: u64, b: u64) -> (r: u64)
    requires
        a <= MONEY_CAP,
        b <= MONEY_CAP,
    ensures
        r == cap_amount(a + b),
{
    let s: u64 = a + b;
    if s > MONEY_CAP {
        MONEY_CAP
    } else {
        s
    }
}

/// Adds two capped quantities, saturating at `QTY_CAP`.
pub fn add_qty(a: u64, b: u64) -> (r: u64)
    requires
        a <= QTY_CAP,
        b <= QTY_CAP,
    ensures
        r == cap_qty(a + b),
{
    let s: u64 = a + b;
    if s > QTY_CAP {
        QTY_CAP
    } else {
        s
    }
}

/// Credits an amount to a cash balance, clamping at `MONEY_CAP`.
pub fn credit_cash(cash: i64, amount: u64) -> (r: i64)
    requires
        -(MONEY_CAP as int) <= cash <= MONEY_CAP,
        amount <= MONEY_CAP,
    ensures
        r == clamp_cash(cash + amount),
{
    let s: i64 = cash + amount as i64;
    if s > MONEY_CAP as i64 {
        MONEY_CAP as i64
    } else {
        s
    }
}

/// Debits an amount from a cash balance, clamping at `-MONEY_CAP`.
pub fn debit_cash(cash: i64, amount: u64) -> (r: i64)
    requires
        -(MONEY_CAP as int) <= cash <= MONEY_CAP,
        amount <= MONEY_CAP,
    ensures
        r == clamp_cash(cash - amount),
{
    let s: i64 = cash - amount as i64;
    if s < -(MONEY_CAP as i64) {
        -(MONEY_CAP as i64)
    } else {
        s
    }
}

/// Multiplies a price by a quantity, saturating at `MONEY_CAP`.
pub fn mul_price_qty(price: u64, qty: u64) -> (r: u64)
    ensures
        r == cap_amount(price * qty),
{
    proof {
        assert(price * qty <= u64::MAX * u64::MAX) by (nonlinear_arith)
            requires
                price <= u64::MAX,
                qty <= u64::MAX,
        ;
    }
    let p: u128 = price as u128 * qty as u128;
    if p > MONEY_CAP as u128 {
        MONEY_CAP
    } else {
        p as u64
    }
}

} // verus!
