//! The stock market: tradable securities whose prices walk daily under
//! economic pressure, volatility and mean reversion, and the player's
//! holdings in them.

use vstd::prelude::*;
use vstd::string::StringExecFns;
use crate::economy::EconomicState;
use crate::money::{add_amount, cap_amount, div_trunc, mul_price_qty, MONEY_CAP, QTY_CAP};
use crate::rand::{lcg_next, signed_unit_milli, spec_lcg_next, spec_signed_unit_milli};

verus! {

/// A security's risk class.
#[derive(Debug, Clone, Copy, PartialEq, Eq, Structural)]
pub enum StockType {
    /// Stable, low volatility, pays dividends.
    BlueChip,
    /// Medium volatility, some dividend.
    Growth,
    /// High volatility, no dividend.
    Speculative,
}

impl StockType {
    /// The daily volatility in milli-units.
    pub open spec fn spec_base_volatility_milli(self) -> int {
        match self {
            StockType::BlueChip => 20,
            StockType::Growth => 50,
            StockType::Speculative => 120,
        }
    }

    /// Returns the daily volatility in milli-units.
    pub fn base_volatility_milli(&self) -> (r: u64)
        ensures
            r == self.spec_base_volatility_milli(),
            r <= 120,
    {
        match self {
            StockType::BlueChip => 20,
            StockType::Growth => 50,
            StockType::Speculative => 120,
        }
    }

    /// The annual dividend yield in basis points.
    pub open spec fn spec_dividend_yield_bp(self) -> int {
        match self {
            StockType::BlueChip => 400,
            StockType::Growth => 100,
            StockType::Speculative => 0,
        }
    }

    /// Returns the annual dividend yield in basis points.
    pub fn dividend_yield_bp(&self) -> (r: u32)
        ensures
            r == self.spec_dividend_yield_bp(),
            r <= 400,
    {
        match self {
            StockType::BlueChip => 400,
            StockType::Growth => 100,
            StockType::Speculative => 0,
        }
    }

    /// The display name.
    pub fn name(&self) -> (r: &'static str)
        ensures
            r@ == self.spec_type_name(),
    {
        match self {
            StockType::BlueChip => "Blue Chip",
            StockType::Growth => "Growth",
            StockType::Speculative => "Speculative",
        }
    }

    /// The display name as a character sequence.
    pub open spec fn spec_type_name(self) -> Seq<char> {
        match self {
            StockType::BlueChip => "Blue Chip"@,
            StockType::Growth => "Growth"@,
            StockType::Speculative => "Speculative"@,
        }
    }
}

/// The daily price pressure an economic level puts on every stock, in
/// milli-units.
pub open spec fn spec_econ_trend_milli(state: EconomicState) -> int {
    match state {
        EconomicState::Collapse => -30,
        EconomicState::Recession => -15,
        EconomicState::Standard => 0,
        EconomicState::Growth => 10,
        EconomicState::Booming => 20,
        EconomicState::Prosperity => 25,
    }
}

/// Returns the economic price pressure in milli-units.
pub fn econ_trend_milli(state: &EconomicState) -> (r: i64)
    ensures
        r == spec_econ_trend_milli(*state),
        -30 <= r <= 25,
{
    match state {
        EconomicState::Collapse => -30,
        EconomicState::Recession => -15,
        EconomicState::Standard => 0,
        EconomicState::Growth => 10,
        EconomicState::Booming => 20,
        EconomicState::Prosperity => 25,
    }
}

/// A tradable stock.
pub struct Stock {
    pub id: u32,
    pub symbol: String,
    pub name: String,
    pub stock_type: StockType,
    /// Today's price in cents.
    pub price: u64,
    /// The anchor the price mean-reverts toward, in cents.
    pub base_price: u64,
    /// The last seven closing prices, oldest first.
    pub price_history: Vec<u64>,
    /// Sub-cent price movement not yet flushed into the price, in
    /// milli-cents.
    pub price_accumulator_millicents: i64,
}

/// The accumulator after one day's pressures: the old remainder plus the
/// price scaled by the combined fractional change (economic trend, the
/// volatility-scaled random draw, and mean reversion), in milli-cents.
pub open spec fn spec_acc_after(s: Stock, state: EconomicState, rf_milli: int) -> int {
    let trend = spec_econ_trend_milli(state);
    let random_change = div_trunc(rf_milli * s.stock_type.spec_base_volatility_milli(), 1000);
    let reversion = div_trunc((s.base_price - s.price) * 10, s.base_price as int);
    s.price_accumulator_millicents + s.price * (trend + random_change + reversion)
}

/// The whole cents flushed out of the accumulator once it holds at least
/// one cent, rounded half away from zero.
pub open spec fn spec_flush_change(acc: int) -> int {
    if acc >= 1000 {
        (acc + 500) / 1000
    } else if acc <= -1000 {
        -((-acc + 500) / 1000)
    } else {
        0
    }
}

/// A price clamped into its floor of fifty cents and the money cap.
pub open spec fn spec_clamped_price(p: int) -> int {
    if p < 50 {
        50
    } else if p > MONEY_CAP as int {
        MONEY_CAP as int
    } else {
        p
    }
}

/// The trailing seven-day price trend in milli-percent.
pub open spec fn spec_price_trend(hist: Seq<u64>) -> int {
    if hist.len() < 2 {
        0
    } else {
        div_trunc((hist.last() - hist[0]) * 100_000, hist[0] as int)
    }
}

impl Stock {
    /// A valid stock: prices within bounds, a short nonempty history, and a
    /// sub-cent remainder.
    pub open spec fn wf(self) -> bool {
        &&& 1 <= self.base_price <= MONEY_CAP
        &&& 1 <= self.price <= MONEY_CAP
        &&& 1 <= self.price_history@.len() <= 7
        &&& forall|i: int|
            0 <= i < self.price_history@.len() ==> 1 <= (#[trigger] self.price_history@[i])
                <= MONEY_CAP
        &&& -1000 < self.price_accumulator_millicents < 1000
    }

    /// Lists a stock at a starting price, which also anchors its mean
    /// reversion.
    pub fn new(id: u32, symbol: &str, name: &str, stock_type: StockType, price: u64) -> (r: Stock)
        requires
            1 <= price <= MONEY_CAP,
        ensures
            r.id == id,
            r.symbol@ == symbol@,
            r.name@ == name@,
            r.stock_type == stock_type,
            r.price == price,
            r.base_price == price,
            r.price_history@ =~= seq![price],
            r.price_accumulator_millicents == 0,
            r.wf(),
    {
        let mut hist: Vec<u64> = Vec::new();
        hist.push(price);
        Stock {
            id,
            symbol: String::from_str(symbol),
            name: String::from_str(name),
            stock_type,
            price,
            base_price: price,
            price_history: hist,
            price_accumulator_millicents: 0,
        }
    }

    /// Moves the price one day: pressures accumulate in milli-cents and
    /// flush into the price only once they reach a whole cent; the price
    /// never falls below fifty cents. Returns the change in cents.
    pub fn update_price(&mut self, economic_state: &EconomicState, random_factor_milli: i64) -> (r:
        i64)
        requires
            old(self).wf(),
            -1000 <= random_factor_milli <= 1000,
        ensures
            final(self).wf(),
            ({
                let acc = spec_acc_after(*old(self), *economic_state, random_factor_milli as int);
                let change = spec_flush_change(acc);
                let np = spec_clamped_price(old(self).price + change);
                &&& final(self).price == np
                &&& final(self).price_accumulator_millicents == acc - 1000 * change
                &&& final(self).price_history@ == if old(self).price_history@.len() < 7 {
                    old(self).price_history@.push(np as u64)
                } else {
                    old(self).price_history@.push(np as u64).remove(0)
                }
                &&& r == np - old(self).price
                &&& final(self).id == old(self).id
                &&& final(self).symbol == old(self).symbol
                &&& final(self).name == old(self).name
                &&& final(self).stock_type == old(self).stock_type
                &&& final(self).base_price == old(self).base_price
            }),
    {
        let old_price: u64 = self.price;
        let trend: i64 = econ_trend_milli(economic_state);
        let random_change: i64 = scaled_draw(random_factor_milli, self.stock_type.base_volatility_milli());
        let reversion: i64 = reversion_milli(self.base_price, self.price);
        let total: i64 = trend + random_change + reversion;
        proof {
            assert(self.price * total <= MONEY_CAP * (10 * MONEY_CAP + 150) && self.price * total
                >= -(MONEY_CAP * (10 * MONEY_CAP + 150))) by (nonlinear_arith)
                requires
                    0 <= self.price <= MONEY_CAP,
                    -(10 * MONEY_CAP as int + 150) <= total <= 10 * MONEY_CAP as int + 150,
            ;
        }
        let acc: i128 = self.price_accumulator_millicents as i128 + self.price as i128
            * total as i128;
        let (change, remainder) = flush_accumulator(acc);
        let np_raw: i128 = self.price as i128 + change;
        let new_price: u64 = if np_raw < 50 {
            50
        } else if np_raw > MONEY_CAP as i128 {
            MONEY_CAP
        } else {
            np_raw as u64
        };
        self.price = new_price;
        self.price_accumulator_millicents = remainder;
        self.price_history.push(new_price);
        if self.price_history.len() > 7 {
            self.price_history.remove(0);
        }
        (new_price as i64) - (old_price as i64)
    }

    /// Returns the trailing seven-day price trend in milli-percent.
    pub fn trend(&self) -> (r: i64)
        requires
            self.wf(),
        ensures
            r == spec_price_trend(self.price_history@),
    {
        if self.price_history.len() < 2 {
            return 0;
        }
        let oldest: u64 = self.price_history[0];
        let newest: u64 = self.price_history[self.price_history.len() - 1];
        if newest >= oldest {
            (((newest - oldest) as u128 * 100_000 / oldest as u128) as u64) as i64
        } else {
            -((((oldest - newest) as u128 * 100_000 / oldest as u128) as u64) as i64)
        }
    }

    /// The dividend one share pays today: the price at the annual yield,
    /// divided over the year, truncated to whole cents.
    pub open spec fn spec_daily_dividend(self) -> int {
        self.price * self.stock_type.spec_dividend_yield_bp() / 3_650_000
    }

    /// Returns today's dividend per share in cents.
    pub fn daily_dividend(&self) -> (r: u64)
        requires
            self.wf(),
        ensures
            r == self.spec_daily_dividend(),
            r <= MONEY_CAP,
    {
        proof {
            assert(self.price * self.stock_type.spec_dividend_yield_bp() <= MONEY_CAP * 400)
                by (nonlinear_arith)
                requires
                    self.price <= MONEY_CAP,
                    0 <= self.stock_type.spec_dividend_yield_bp() <= 400,
            ;
        }
        self.price * self.stock_type.dividend_yield_bp() as u64 / 3_650_000
    }

    /// Returns a compact marker for the trailing trend: strongly or mildly
    /// up or down, or flat.
    pub fn trend_indicator(&self) -> (r: &'static str)
        requires
            self.wf(),
        ensures
            ({
                let t = spec_price_trend(self.price_history@);
                &&& t > 5000 ==> r@ == "++"@
                &&& 1000 < t <= 5000 ==> r@ == "+"@
                &&& t < -5000 ==> r@ == "--"@
                &&& -1000 > t >= -5000 ==> r@ == "-"@
                &&& -1000 <= t <= 1000 ==> r@ == "="@
            }),
    {
        let t: i64 = self.trend();
        if t > 5000 {
            "++"
        } else if t > 1000 {
            "+"
        } else if t < -5000 {
            "--"
        } else if t < -1000 {
            "-"
        } else {
            "="
        }
    }
}

/// Scales a signed unit draw by a volatility, in milli-units.
fn scaled_draw(rf: i64, vol: u64) -> (r: i64)
    requires
        -1000 <= rf <= 1000,
        vol <= 120,
    ensures
        r == div_trunc(rf * vol, 1000),
        -120 <= r <= 120,
{
    proof {
        assert(-(1000 * 120) <= rf * vol <= 1000 * 120 && (rf >= 0 ==> rf * vol >= 0) && (rf < 0
            ==> rf * vol <= 0) && (-rf) * vol == -(rf * vol)) by (nonlinear_arith)
            requires
                -1000 <= rf <= 1000,
                0 <= vol <= 120,
        ;
    }
    if rf >= 0 {
        rf * vol as i64 / 1000
    } else {
        -((-rf) * vol as i64 / 1000)
    }
}

/// The mean-reversion pull toward the base price, in milli-units.
fn reversion_milli(base: u64, price: u64) -> (r: i64)
    requires
        1 <= base <= MONEY_CAP,
        1 <= price <= MONEY_CAP,
    ensures
        r == div_trunc((base - price) * 10, base as int),
        -(10 * MONEY_CAP as int) <= r <= 10,
{
    if base >= price {
        let d: u64 = (base - price) * 10 / base;
        proof {
            assert((base - price) * 10 / base as int <= 10) by (nonlinear_arith)
                requires
                    1 <= base,
                    0 <= base - price <= base,
            ;
        }
        d as i64
    } else {
        let d: u64 = (price - base) * 10 / base;
        proof {
            assert((price - base) * 10 / base as int <= (price - base) * 10) by (nonlinear_arith)
                requires
                    1 <= base,
                    0 <= (price - base) * 10,
            ;
        }
        -(d as i64)
    }
}

/// Splits an accumulator into the whole cents to flush (rounded half away
/// from zero, only once a whole cent is there) and the sub-cent remainder.
fn flush_accumulator(acc: i128) -> (r: (i128, i64))
    requires
        -0x1000_0000_0000_0000_0000_0000_0000 <= acc <= 0x1000_0000_0000_0000_0000_0000_0000,
    ensures
        r.0 == spec_flush_change(acc as int),
        r.1 == acc - 1000 * r.0,
        -1000 < r.1 < 1000,
{
    if acc >= 1000 {
        let q: i128 = (acc + 500) / 1000;
        proof {
            assert(acc + 500 == 1000 * ((acc + 500) as int / 1000) + (acc + 500) as int % 1000);
            assert(0 <= (acc + 500) as int % 1000 < 1000);
        }
        (q, (acc - 1000 * q) as i64)
    } else if acc <= -1000 {
        let m: i128 = -acc + 500;
        let q: i128 = m / 1000;
        proof {
            assert(m == 1000 * (m as int / 1000) + m as int % 1000);
            assert(0 <= m as int % 1000 < 1000);
        }
        (-q, (acc + 1000 * q) as i64)
    } else {
        (0, acc as i64)
    }
}

/// The player's position in one stock.
#[derive(Debug, Clone, Copy, PartialEq, Eq, Structural)]
pub struct StockHolding {
    pub stock_id: u32,
    pub shares: u64,
    /// The volume-weighted average price paid per share, in cents.
    pub avg_purchase_price: u64,
    /// All dividends this holding has earned, in cents.
    pub total_dividends_earned: u64,
}

impl StockHolding {
    /// A valid holding: amounts within the caps.
    pub open spec fn wf(self) -> bool {
        &&& self.shares <= QTY_CAP
        &&& self.avg_purchase_price <= MONEY_CAP
        &&& self.total_dividends_earned <= MONEY_CAP
    }

    /// Opens a position.
    pub fn new(stock_id: u32, shares: u64, price: u64) -> (r: StockHolding)
        ensures
            r == (StockHolding {
                stock_id,
                shares,
                avg_purchase_price: price,
                total_dividends_earned: 0u64,
            }),
    {
        StockHolding { stock_id, shares, avg_purchase_price: price, total_dividends_earned: 0 }
    }

    /// Adds shares, re-averaging the purchase price by volume.
    pub fn add_shares(&mut self, shares: u64, price: u64)
        requires
            old(self).wf(),
            price <= MONEY_CAP,
            old(self).shares + shares <= QTY_CAP,
            shares >= 1,
        ensures
            final(self).wf(),
            final(self).shares == old(self).shares + shares,
            final(self).avg_purchase_price == cap_amount(
                (old(self).avg_purchase_price * old(self).shares + price * shares) / (
                old(self).shares + shares) as int,
            ),
            final(self).stock_id == old(self).stock_id,
            final(self).total_dividends_earned == old(self).total_dividends_earned,
    {
        proof {
            assert(self.avg_purchase_price * self.shares <= MONEY_CAP * QTY_CAP && price * shares
                <= MONEY_CAP * QTY_CAP && self.avg_purchase_price * self.shares >= 0 && price
                * shares >= 0) by (nonlinear_arith)
                requires
                    self.avg_purchase_price <= MONEY_CAP,
                    self.shares <= QTY_CAP,
                    price <= MONEY_CAP,
                    shares <= QTY_CAP,
            ;
        }
        let total_cost: u128 = self.avg_purchase_price as u128 * self.shares as u128
            + price as u128 * shares as u128;
        let new_shares: u64 = self.shares + shares;
        let avg: u128 = total_cost / new_shares as u128;
        self.shares = new_shares;
        self.avg_purchase_price = if avg > MONEY_CAP as u128 {
            MONEY_CAP
        } else {
            avg as u64
        };
    }

    /// Removes shares; refuses to remove more than are held.
    pub fn remove_shares(&mut self, shares: u64) -> (r: bool)
        ensures
            r == (shares <= old(self).shares),
            r ==> *final(self) == (StockHolding {
                shares: (old(self).shares - shares) as u64,
                ..*old(self)
            }),
            !r ==> *final(self) == *old(self),
    {
        if shares > self.shares {
            return false;
        }
        self.shares = self.shares - shares;
        true
    }

    /// Returns the position's value at a market price, capped.
    pub fn current_value(&self, market_price: u64) -> (r: u64)
        ensures
            r == cap_amount(market_price * self.shares),
    {
        mul_price_qty(market_price, self.shares)
    }

    /// Returns the unrealized gain or loss at a market price, over capped
    /// values.
    pub fn gain_loss(&self, market_price: u64) -> (r: i64)
        ensures
            r == cap_amount(market_price * self.shares) - cap_amount(
                self.avg_purchase_price * self.shares,
            ),
    {
        let value: u64 = mul_price_qty(market_price, self.shares);
        let cost: u64 = mul_price_qty(self.avg_purchase_price, self.shares);
        value as i64 - cost as i64
    }

    /// Returns the unrealized gain or loss as milli-percent of the average
    /// purchase price; zero for an empty or free position.
    pub fn gain_loss_percent(&self, market_price: u64) -> (r: i64)
        requires
            self.wf(),
            market_price <= MONEY_CAP,
        ensures
            r == if self.shares == 0 || self.avg_purchase_price == 0 {
                0int
            } else {
                div_trunc(
                    (market_price - self.avg_purchase_price) * 100_000,
                    self.avg_purchase_price as int,
                )
            },
    {
        if self.shares == 0 || self.avg_purchase_price == 0 {
            return 0;
        }
        if market_price >= self.avg_purchase_price {
            (((market_price - self.avg_purchase_price) as u128 * 100_000
                / self.avg_purchase_price as u128) as u64) as i64
        } else {
            -((((self.avg_purchase_price - market_price) as u128 * 100_000
                / self.avg_purchase_price as u128) as u64) as i64)
        }
    }

    /// Books a dividend payment into the accumulator, saturating at the cap.
    pub fn receive_dividend(&mut self, amount: u64)
        requires
            old(self).wf(),
            amount <= MONEY_CAP,
        ensures
            final(self).wf(),
            final(self).total_dividends_earned == cap_amount(
                old(self).total_dividends_earned + amount,
            ),
            *final(self) == (StockHolding {
                total_dividends_earned: final(self).total_dividends_earned,
                ..*old(self)
            }),
    {
        self.total_dividends_earned = add_amount(self.total_dividends_earned, amount);
    }
}

/// The stock a market lists under an id.
pub open spec fn spec_get_stock(s: Seq<Stock>, stock_id: u32) -> Option<Stock>
    decreases s.len(),
{
    if s.len() == 0 {
        None
    } else if s[0].id == stock_id {
        Some(s[0])
    } else {
        spec_get_stock(s.drop_first(), stock_id)
    }
}

/// One stock's daily price movement, as reported by the tick.
pub struct StockChange {
    pub symbol: String,
    pub old_price: u64,
    pub new_price: u64,
    pub change: i64,
}

/// The generator state after a number of steps.
pub open spec fn spec_lcg_iter(state: u64, n: int) -> u64
    decreases n,
{
    if n <= 0 {
        state
    } else {
        spec_lcg_next(spec_lcg_iter(state, n - 1))
    }
}

/// The market's list of securities and its price-walk generator state.
pub struct StockMarket {
    pub stocks: Vec<Stock>,
    /// The persistent generator state the daily price walks draw from.
    pub random_state: u64,
}

/// Builds the securities a new game lists; each starts at its anchor price
/// with a one-day history and an empty sub-cent accumulator.
pub fn default_stocks() -> (r: Vec<Stock>)
    ensures
        r@.len() == 6,
        forall|i: int| 0 <= i < 6 ==> (#[trigger] r@[i]).id == i + 1,
        forall|i: int| 0 <= i < 6 ==> (#[trigger] r@[i]).wf(),
        forall|i: int|
            0 <= i < 6 ==> (#[trigger] r@[i]).base_price == r@[i].price && r@[i].price_history@
                == seq![r@[i].price] && r@[i].price_accumulator_millicents == 0,
        r@[0].price == 10_000 && r@[0].stock_type == StockType::BlueChip && r@[0].symbol@
            == "MEGA"@,
        r@[1].price == 7_500 && r@[1].stock_type == StockType::BlueChip && r@[1].symbol@
            == "SAFE"@,
        r@[2].price == 5_000 && r@[2].stock_type == StockType::Growth && r@[2].symbol@
            == "TECH"@,
        r@[3].price == 3_500 && r@[3].stock_type == StockType::Growth && r@[3].symbol@
            == "RETL"@,
        r@[4].price == 1_500 && r@[4].stock_type == StockType::Speculative && r@[4].symbol@
            == "MOON"@,
        r@[5].price == 800 && r@[5].stock_type == StockType::Speculative && r@[5].symbol@
            == "RISK"@,
{
    let mut v: Vec<Stock> = Vec::new();
    v.push(Stock::new(1, "MEGA", "MegaCorp Industries", StockType::BlueChip, 10_000));
    v.push(Stock::new(2, "SAFE", "SafeHaven Holdings", StockType::BlueChip, 7_500));
    v.push(Stock::new(3, "TECH", "TechGrowth Inc", StockType::Growth, 5_000));
    v.push(Stock::new(4, "RETL", "RetailExpand Co", StockType::Growth, 3_500));
    v.push(Stock::new(5, "MOON", "MoonShot Ventures", StockType::Speculative, 1_500));
    v.push(Stock::new(6, "RISK", "RiskyBet Gaming", StockType::Speculative, 800));
    v
}

impl StockMarket {
    /// A valid market: valid stocks under unique ids.
    pub open spec fn wf(self) -> bool {
        &&& forall|i: int| 0 <= i < self.stocks@.len() ==> (#[trigger] self.stocks@[i]).wf()
        &&& forall|i: int, j: int|
            0 <= i < j < self.stocks@.len() ==> (#[trigger] self.stocks@[i]).id != (
            #[trigger] self.stocks@[j]).id
    }

    /// Opens the market a new game starts with.
    pub fn new() -> (r: StockMarket)
        ensures
            r.wf(),
            r.stocks@.len() == 6,
            forall|i: int| 0 <= i < 6 ==> (#[trigger] r.stocks@[i]).id == i + 1,
            forall|i: int|
                0 <= i < 6 ==> (#[trigger] r.stocks@[i]).base_price == r.stocks@[i].price
                    && r.stocks@[i].price_history@ == seq![r.stocks@[i].price]
                    && r.stocks@[i].price_accumulator_millicents == 0,
            r.stocks@[0].price == 10_000 && r.stocks@[0].stock_type == StockType::BlueChip,
            r.stocks@[1].price == 7_500 && r.stocks@[1].stock_type == StockType::BlueChip,
            r.stocks@[2].price == 5_000 && r.stocks@[2].stock_type == StockType::Growth,
            r.stocks@[3].price == 3_500 && r.stocks@[3].stock_type == StockType::Growth,
            r.stocks@[4].price == 1_500 && r.stocks@[4].stock_type == StockType::Speculative,
            r.stocks@[5].price == 800 && r.stocks@[5].stock_type == StockType::Speculative,
            r.random_state == 12345,
    {
        StockMarket { stocks: default_stocks(), random_state: 12345 }
    }

    /// Looks up a stock by id.
    pub fn get_stock(&self, stock_id: u32) -> (r: Option<&Stock>)
        ensures
            match r {
                Some(s) => spec_get_stock(self.stocks@, stock_id) == Some(*s) && s.id == stock_id
                    && exists|i: int| 0 <= i < self.stocks@.len() && self.stocks@[i] == *s,
                None => spec_get_stock(self.stocks@, stock_id) is None,
            },
    {
        let ghost s = self.stocks@;
        proof {
            assert(s.skip(0) =~= s);
        }
        let mut i: usize = 0;
        while i < self.stocks.len()
            invariant
                i <= s.len(),
                s == self.stocks@,
                spec_get_stock(s.skip(i as int), stock_id) == spec_get_stock(s, stock_id),
            decreases s.len() - i,
        {
            proof {
                assert(s.skip(i as int)[0] == s[i as int]);
                assert(s.skip(i as int).drop_first() =~= s.skip(i as int + 1));
            }
            if self.stocks[i].id == stock_id {
                return Some(&self.stocks[i]);
            }
            i = i + 1;
        }
        proof {
            assert(s.skip(i as int).len() == 0);
        }
        None
    }

    /// Walks every price one day and reports each movement.
    pub fn advance_day(&mut self, economic_state: &EconomicState) -> (r: Vec<StockChange>)
        requires
            old(self).wf(),
        ensures
            final(self).wf(),
            final(self).stocks@.len() == old(self).stocks@.len(),
            final(self).random_state == spec_lcg_iter(
                old(self).random_state,
                old(self).stocks@.len() as int,
            ),
            forall|i: int|
                0 <= i < old(self).stocks@.len() ==> {
                    let st = spec_lcg_iter(old(self).random_state, i + 1);
                    let rf = spec_signed_unit_milli(st);
                    let acc = spec_acc_after(old(self).stocks@[i], *economic_state, rf);
                    let change = spec_flush_change(acc);
                    (#[trigger] final(self).stocks@[i]).price == spec_clamped_price(
                        old(self).stocks@[i].price + change,
                    ) && final(self).stocks@[i].id == old(self).stocks@[i].id
                        && final(self).stocks@[i].symbol == old(self).stocks@[i].symbol
                },
            r@.len() == old(self).stocks@.len(),
            forall|i: int|
                0 <= i < r@.len() ==> {
                    &&& (#[trigger] r@[i]).symbol == old(self).stocks@[i].symbol
                    &&& r@[i].old_price == old(self).stocks@[i].price
                    &&& r@[i].new_price == final(self).stocks@[i].price
                    &&& r@[i].change == final(self).stocks@[i].price
                        - old(self).stocks@[i].price
                },
    {
        let ghost s0 = self.stocks@;
        let ghost st0 = self.random_state;
        let mut changes: Vec<StockChange> = Vec::new();
        let mut i: usize = 0;
        while i < self.stocks.len()
            invariant
                i <= s0.len(),
                old(self).wf(),
                s0 == old(self).stocks@,
                st0 == old(self).random_state,
                self.stocks@.len() == s0.len(),
                self.random_state == spec_lcg_iter(st0, i as int),
                forall|k: int| i <= k < s0.len() ==> #[trigger] self.stocks@[k] == s0[k],
                forall|k: int|
                    0 <= k < i ==> {
                        let st = spec_lcg_iter(st0, k + 1);
                        let rf = spec_signed_unit_milli(st);
                        let acc = spec_acc_after(s0[k], *economic_state, rf);
                        let change = spec_flush_change(acc);
                        (#[trigger] self.stocks@[k]).price == spec_clamped_price(
                            s0[k].price + change,
                        ) && self.stocks@[k].id == s0[k].id && self.stocks@[k].symbol
                            == s0[k].symbol
                    },
                forall|k: int| 0 <= k < s0.len() ==> (#[trigger] self.stocks@[k]).wf(),
                forall|k: int, j: int|
                    0 <= k < j < s0.len() ==> (#[trigger] self.stocks@[k]).id != (
                    #[trigger] self.stocks@[j]).id,
                changes@.len() == i,
                forall|k: int|
                    0 <= k < i ==> {
                        &&& (#[trigger] changes@[k]).symbol == s0[k].symbol
                        &&& changes@[k].old_price == s0[k].price
                        &&& changes@[k].new_price == self.stocks@[k].price
                        &&& changes@[k].change == self.stocks@[k].price - s0[k].price
                    },
            decreases s0.len() - i,
        {
            self.random_state = lcg_next(self.random_state);
            let rf: i64 = signed_unit_milli(self.random_state);
            let (old_p, new_p, delta) = update_stock_at(&mut self.stocks, i, economic_state, rf);
            let symbol: String = clone_symbol(&self.stocks, i);
            changes.push(StockChange { symbol, old_price: old_p, new_price: new_p, change: delta });
            i = i + 1;
        }
        changes
    }

    /// Returns the market's total value, assuming a notional thousand
    /// shares of each stock, capped.
    pub fn total_market_value(&self) -> (r: u64)
        requires
            self.wf(),
        ensures
            r == cap_amount(spec_market_value(self.stocks@)),
    {
        let mut total: u64 = 0;
        let mut i: usize = 0;
        while i < self.stocks.len()
            invariant
                i <= self.stocks@.len(),
                self.wf(),
                total == cap_amount(spec_market_value(self.stocks@.take(i as int))),
                spec_market_value(self.stocks@.take(i as int)) >= 0,
            decreases self.stocks@.len() - i,
        {
            proof {
                assert(self.stocks@.take(i as int + 1).drop_last() =~= self.stocks@.take(
                    i as int,
                ));
                assert(self.stocks@.take(i as int + 1).last() == self.stocks@[i as int]);
            }
            let line: u64 = mul_price_qty(self.stocks[i].price, 1000);
            total = add_amount(total, line);
            i = i + 1;
        }
        proof {
            assert(self.stocks@.take(self.stocks@.len() as int) =~= self.stocks@);
        }
        total
    }
}

/// The market's total value at a notional thousand shares per stock.
pub open spec fn spec_market_value(s: Seq<Stock>) -> int
    decreases s.len(),
{
    if s.len() == 0 {
        0
    } else {
        spec_market_value(s.drop_last()) + s.last().price * 1000
    }
}

/// Walks one stock's price a day.
fn update_stock_at(v: &mut Vec<Stock>, i: usize, state: &EconomicState, rf: i64) -> (r: (
    u64,
    u64,
    i64,
))
    requires
        i < old(v)@.len(),
        old(v)@[i as int].wf(),
        -1000 <= rf <= 1000,
    ensures
        final(v)@.len() == old(v)@.len(),
        forall|k: int| 0 <= k < old(v)@.len() && k != i ==> final(v)@[k] == old(v)@[k],
        final(v)@[i as int].wf(),
        ({
            let acc = spec_acc_after(old(v)@[i as int], *state, rf as int);
            let change = spec_flush_change(acc);
            let np = spec_clamped_price(old(v)@[i as int].price + change);
            &&& final(v)@[i as int].price == np
            &&& final(v)@[i as int].id == old(v)@[i as int].id
            &&& final(v)@[i as int].symbol == old(v)@[i as int].symbol
            &&& r.0 == old(v)@[i as int].price
            &&& r.1 == np
            &&& r.2 == np - old(v)@[i as int].price
        }),
{
    let old_p: u64 = v[i].price;
    let s = &mut v[i];
    let delta: i64 = s.update_price(state, rf);
    let new_p: u64 = v[i].price;
    (old_p, new_p, delta)
}

/// Copies out a stock's ticker symbol.
fn clone_symbol(v: &Vec<Stock>, i: usize) -> (r: String)
    requires
        i < v@.len(),
    ensures
        r == v@[i as int].symbol,
{
    v[i].symbol.clone()
}

} // verus!
