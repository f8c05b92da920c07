//! The macro-economy and the retail market: a six-level economic state
//! machine driven by a deterministic trend wave and day-seeded rolls, a
//! wholesale price table, and the daily retail sales formula.

use vstd::prelude::*;
use crate::loan::LoanType;
use crate::money::{cap_amount, MONEY_CAP};
use crate::product::{Category, Product, products_wf};
use crate::rand::{
    day_seed, econ_roll_bp, spec_day_seed, spec_econ_roll_bp, spec_trend_milli,
    spec_variance_milli, trend_milli, variance_milli,
};

verus! {

/// The six levels of the economy, from worst to best.
#[derive(Debug, Clone, Copy, PartialEq, Eq, Structural)]
pub enum EconomicState {
    Collapse,
    Recession,
    Standard,
    Growth,
    Booming,
    Prosperity,
}

impl EconomicState {
    /// The base annual interest rate of this level, in basis points.
    pub open spec fn spec_interest_rate_bp(self) -> int {
        match self {
            EconomicState::Collapse => 1500,
            EconomicState::Recession => 1000,
            EconomicState::Standard => 600,
            EconomicState::Growth => 500,
            EconomicState::Booming => 400,
            EconomicState::Prosperity => 300,
        }
    }

    /// Returns the base annual interest rate in basis points.
    pub fn interest_rate_bp(&self) -> (r: u32)
        ensures
            r == self.spec_interest_rate_bp(),
            r <= 1500,
    {
        match self {
            EconomicState::Collapse => 1500,
            EconomicState::Recession => 1000,
            EconomicState::Standard => 600,
            EconomicState::Growth => 500,
            EconomicState::Booming => 400,
            EconomicState::Prosperity => 300,
        }
    }

    /// The sales multiplier of this level, in milli-units.
    pub open spec fn spec_sales_multiplier_milli(self) -> int {
        match self {
            EconomicState::Collapse => 500,
            EconomicState::Recession => 700,
            EconomicState::Standard => 1000,
            EconomicState::Growth => 1200,
            EconomicState::Booming => 1400,
            EconomicState::Prosperity => 1600,
        }
    }

    /// Returns the sales multiplier in milli-units.
    pub fn sales_multiplier_milli(&self) -> (r: u64)
        ensures
            r == self.spec_sales_multiplier_milli(),
            500 <= r <= 1600,
    {
        match self {
            EconomicState::Collapse => 500,
            EconomicState::Recession => 700,
            EconomicState::Standard => 1000,
            EconomicState::Growth => 1200,
            EconomicState::Booming => 1400,
            EconomicState::Prosperity => 1600,
        }
    }

    /// The wholesale price multiplier of this level, in milli-units.
    pub open spec fn spec_price_multiplier_milli(self) -> int {
        match self {
            EconomicState::Collapse => 800,
            EconomicState::Recession => 900,
            EconomicState::Standard => 1000,
            EconomicState::Growth => 1050,
            EconomicState::Booming => 1100,
            EconomicState::Prosperity => 1150,
        }
    }

    /// Returns the wholesale price multiplier in milli-units.
    pub fn price_multiplier_milli(&self) -> (r: u64)
        ensures
            r == self.spec_price_multiplier_milli(),
            800 <= r <= 1150,
    {
        match self {
            EconomicState::Collapse => 800,
            EconomicState::Recession => 900,
            EconomicState::Standard => 1000,
            EconomicState::Growth => 1050,
            EconomicState::Booming => 1100,
            EconomicState::Prosperity => 1150,
        }
    }

    /// The level one step up, if any.
    pub open spec fn spec_up(self) -> Option<EconomicState> {
        match self {
            EconomicState::Collapse => Some(EconomicState::Recession),
            EconomicState::Recession => Some(EconomicState::Standard),
            EconomicState::Standard => Some(EconomicState::Growth),
            EconomicState::Growth => Some(EconomicState::Booming),
            EconomicState::Booming => Some(EconomicState::Prosperity),
            EconomicState::Prosperity => None,
        }
    }

    /// Returns the level one step up (toward prosperity), if any.
    pub fn transition_up(&self) -> (r: Option<EconomicState>)
        ensures
            r == self.spec_up(),
    {
        match self {
            EconomicState::Collapse => Some(EconomicState::Recession),
            EconomicState::Recession => Some(EconomicState::Standard),
            EconomicState::Standard => Some(EconomicState::Growth),
            EconomicState::Growth => Some(EconomicState::Booming),
            EconomicState::Booming => Some(EconomicState::Prosperity),
            EconomicState::Prosperity => None,
        }
    }

    /// The level one step down, if any.
    pub open spec fn spec_down(self) -> Option<EconomicState> {
        match self {
            EconomicState::Collapse => None,
            EconomicState::Recession => Some(EconomicState::Collapse),
            EconomicState::Standard => Some(EconomicState::Recession),
            EconomicState::Growth => Some(EconomicState::Standard),
            EconomicState::Booming => Some(EconomicState::Growth),
            EconomicState::Prosperity => Some(EconomicState::Booming),
        }
    }

    /// Returns the level one step down (toward collapse), if any.
    pub fn transition_down(&self) -> (r: Option<EconomicState>)
        ensures
            r == self.spec_down(),
    {
        match self {
            EconomicState::Collapse => None,
            EconomicState::Recession => Some(EconomicState::Collapse),
            EconomicState::Standard => Some(EconomicState::Recession),
            EconomicState::Growth => Some(EconomicState::Standard),
            EconomicState::Booming => Some(EconomicState::Growth),
            EconomicState::Prosperity => Some(EconomicState::Booming),
        }
    }

    /// The display name.
    pub fn name(&self) -> (r: &'static str)
        ensures
            r@ == self.spec_state_name(),
    {
        match self {
            EconomicState::Collapse => "Collapse",
            EconomicState::Recession => "Recession",
            EconomicState::Standard => "Standard",
            EconomicState::Growth => "Growth",
            EconomicState::Booming => "Booming",
            EconomicState::Prosperity => "Prosperity",
        }
    }

    /// The display name as a character sequence.
    pub open spec fn spec_state_name(self) -> Seq<char> {
        match self {
            EconomicState::Collapse => "Collapse"@,
            EconomicState::Recession => "Recession"@,
            EconomicState::Standard => "Standard"@,
            EconomicState::Growth => "Growth"@,
            EconomicState::Booming => "Booming"@,
            EconomicState::Prosperity => "Prosperity"@,
        }
    }

    /// A one-line description of the level.
    pub fn description(&self) -> &'static str {
        match self {
            EconomicState::Collapse => "Economic crisis, very hard times",
            EconomicState::Recession => "Economic downturn, reduced spending",
            EconomicState::Standard => "Normal economic conditions",
            EconomicState::Growth => "Expanding economy",
            EconomicState::Booming => "Strong economic growth",
            EconomicState::Prosperity => "Peak economic conditions",
        }
    }

    /// Whether this is one of the two extreme levels, which mean-revert.
    pub fn is_extreme(&self) -> (r: bool)
        ensures
            r == (*self == EconomicState::Collapse || *self == EconomicState::Prosperity),
    {
        matches!(self, EconomicState::Collapse | EconomicState::Prosperity)
    }
}

/// The chance of moving one level up today, in basis points: 4% base,
/// skewed up by a positive trend, forced strongly upward at the bottom and
/// to zero at the top.
pub open spec fn spec_up_chance_bp(state: EconomicState, trend: int) -> int {
    let base = if trend > 0 {
        400 + trend * 600 / 1000
    } else {
        400
    };
    if state == EconomicState::Collapse {
        base + 1000
    } else if state == EconomicState::Prosperity {
        0
    } else {
        base
    }
}

/// The chance of moving one level down today, in basis points; symmetric
/// to `spec_up_chance_bp`.
pub open spec fn spec_down_chance_bp(state: EconomicState, trend: int) -> int {
    let base = if trend > 0 {
        400
    } else {
        400 + (-trend) * 600 / 1000
    };
    if state == EconomicState::Collapse {
        0
    } else if state == EconomicState::Prosperity {
        base + 1000
    } else {
        base
    }
}

/// Where the economy stands after one day's roll.
pub open spec fn spec_next_state(state: EconomicState, day: u32) -> EconomicState {
    let trend = spec_trend_milli(day);
    let up = spec_up_chance_bp(state, trend);
    let down = spec_down_chance_bp(state, trend);
    let roll = spec_econ_roll_bp(spec_day_seed(day) as u64);
    if roll < up {
        match state.spec_up() {
            Some(s) => s,
            None => state,
        }
    } else if roll < up + down {
        match state.spec_down() {
            Some(s) => s,
            None => state,
        }
    } else {
        state
    }
}

/// A notification that the economic level changed today.
#[derive(Debug, Clone, Copy, PartialEq, Eq, Structural)]
pub struct EconomicChange {
    /// Whether the sales multiplier rose.
    pub improved: bool,
    pub new_state: EconomicState,
}

/// One line of the wholesale price table.
#[derive(Debug, Clone, Copy, PartialEq, Eq, Structural)]
pub struct PriceEntry {
    pub product_id: u32,
    pub base_price: u64,
}

/// The catalog base price of a product, read off a price table.
pub open spec fn spec_base_price(s: Seq<PriceEntry>, product_id: u32) -> Option<u64>
    decreases s.len(),
{
    if s.len() == 0 {
        None
    } else if s[0].product_id == product_id {
        Some(s[0].base_price)
    } else {
        spec_base_price(s.drop_first(), product_id)
    }
}

/// The price-elasticity factor in milli-units: selling at the base price
/// gives 1000; each fraction above the base price halves into lost sales;
/// clamped into [0, 2000].
pub open spec fn spec_price_factor_milli(base: int, retail: int) -> int {
    if retail >= base {
        let d = (retail - base) * 500 / base;
        if d >= 1000 {
            0
        } else {
            1000 - d
        }
    } else {
        let b = (base - retail) * 500 / base;
        if b > 1000 {
            2000
        } else {
            1000 + b
        }
    }
}

/// Units sold for one product in one store on one day: expected demand from
/// customer count, category weight, economy, price elasticity and the day's
/// variance draw, floored once to whole units, never more than the stock on
/// hand.
pub open spec fn spec_sales(
    base: int,
    retail: int,
    weight: int,
    econ: int,
    seed: u64,
    customers: int,
    available: int,
) -> int {
    let pf = spec_price_factor_milli(base, retail);
    let sold = customers * weight * econ * pf * spec_variance_milli(seed)
        / 10_000_000_000_000;
    if sold > available {
        available
    } else {
        sold
    }
}

/// The markup of a retail price over a wholesale price, in milli-percent
/// (1000 = one percent), truncated toward zero.
pub open spec fn spec_markup_milli_pct(wholesale: int, retail: int) -> int {
    if wholesale <= 0 {
        0
    } else if retail >= wholesale {
        (retail - wholesale) * 100_000 / wholesale
    } else {
        -((wholesale - retail) * 100_000 / wholesale)
    }
}

/// A retail price derived from a wholesale price by a milli-percent markup
/// (1000 = one percent, the unit `calculate_markup` measures in), truncated
/// to cents and capped.
pub open spec fn spec_suggested_retail(wholesale: int, markup_milli_pct: int) -> int {
    cap_amount(wholesale * (100_000 + markup_milli_pct) / 100_000)
}

/// The market: the wholesale price table and the current economic level,
/// trend and day seed.
pub struct Market {
    pub wholesale_prices: Vec<PriceEntry>,
    /// The seed all of today's draws derive from.
    pub day_seed: u64,
    pub economic_state: EconomicState,
    /// Yesterday's computed trend wave value, in milli-units.
    pub economic_trend: i64,
}

impl Market {
    /// A valid market: a sane price table and a trend within the unit wave.
    pub open spec fn wf(self) -> bool {
        &&& forall|i: int|
            0 <= i < self.wholesale_prices@.len() ==> 1 <= (
            #[trigger] self.wholesale_prices@[i]).base_price <= MONEY_CAP
        &&& -1000 <= self.economic_trend <= 1000
    }

    /// Creates a market whose price table copies the catalog's base prices.
    pub fn new(products: &Vec<Product>) -> (r: Market)
        requires
            products_wf(products@),
        ensures
            r.wf(),
            r.wholesale_prices@.len() == products@.len(),
            forall|i: int|
                0 <= i < products@.len() ==> (#[trigger] r.wholesale_prices@[i]) == (PriceEntry {
                    product_id: products@[i].id,
                    base_price: products@[i].base_price,
                }),
            r.day_seed == 12345,
            r.economic_state == EconomicState::Standard,
            r.economic_trend == 0,
    {
        let mut table: Vec<PriceEntry> = Vec::new();
        let mut i: usize = 0;
        while i < products.len()
            invariant
                i <= products@.len(),
                products_wf(products@),
                table@.len() == i,
                forall|j: int|
                    0 <= j < i ==> (#[trigger] table@[j]) == (PriceEntry {
                        product_id: products@[j].id,
                        base_price: products@[j].base_price,
                    }),
            decreases products@.len() - i,
        {
            table.push(PriceEntry {
                product_id: products[i].id,
                base_price: products[i].base_price,
            });
            i = i + 1;
        }
        Market {
            wholesale_prices: table,
            day_seed: 12345,
            economic_state: EconomicState::Standard,
            economic_trend: 0,
        }
    }

    /// Returns the catalog base price of a product, unadjusted.
    pub fn get_base_wholesale_price(&self, product_id: u32) -> (r: Option<u64>)
        ensures
            r == spec_base_price(self.wholesale_prices@, product_id),
    {
        let ghost s = self.wholesale_prices@;
        proof {
            assert(s.skip(0) =~= s);
        }
        let mut i: usize = 0;
        while i < self.wholesale_prices.len()
            invariant
                i <= s.len(),
                s == self.wholesale_prices@,
                spec_base_price(s.skip(i as int), product_id) == spec_base_price(s, product_id),
            decreases s.len() - i,
        {
            proof {
                assert(s.skip(i as int)[0] == s[i as int]);
                assert(s.skip(i as int).drop_first() =~= s.skip(i as int + 1));
            }
            if self.wholesale_prices[i].product_id == product_id {
                return Some(self.wholesale_prices[i].base_price);
            }
            i = i + 1;
        }
        proof {
            assert(s.skip(i as int).len() == 0);
        }
        None
    }

    /// Returns today's wholesale price of a product: the catalog base price
    /// scaled by the economy's price multiplier, truncated to cents and
    /// capped.
    pub fn get_wholesale_price(&self, product_id: u32) -> (r: Option<u64>)
        requires
            self.wf(),
        ensures
            r == match spec_base_price(self.wholesale_prices@, product_id) {
                Some(b) => Some(
                    cap_amount(
                        b * self.economic_state.spec_price_multiplier_milli() / 1000,
                    ) as u64,
                ),
                None => None::<u64>,
            },
            r matches Some(p) ==> p <= MONEY_CAP,
    {
        let base = self.get_base_wholesale_price(product_id);
        match base {
            Some(b) => {
                proof {
                    lemma_base_price_in_table(self.wholesale_prices@, product_id);
                    assert(b * self.economic_state.spec_price_multiplier_milli() <= MONEY_CAP
                        * 1150) by (nonlinear_arith)
                        requires
                            b <= MONEY_CAP,
                            800 <= self.economic_state.spec_price_multiplier_milli() <= 1150,
                    ;
                    assert(b * self.economic_state.spec_price_multiplier_milli() >= b * 800)
                        by (nonlinear_arith)
                        requires
                            b >= 1,
                            self.economic_state.spec_price_multiplier_milli() >= 800,
                    ;
                }
                let scaled: u64 = b * self.economic_state.price_multiplier_milli() / 1000;
                Some(if scaled > MONEY_CAP {
                    MONEY_CAP
                } else {
                    scaled
                })
            },
            None => None,
        }
    }

    /// Advances the market by one day: derives the day's seed and rolls the
    /// economy, reporting a change of level if one happened.
    pub fn advance_day(&mut self, day: u32) -> (r: Option<EconomicChange>)
        requires
            old(self).wf(),
        ensures
            final(self).wf(),
            *final(self) == (Market {
                day_seed: spec_day_seed(day) as u64,
                economic_state: spec_next_state(old(self).economic_state, day),
                economic_trend: spec_trend_milli(day) as i64,
                ..*old(self)
            }),
            r == if final(self).economic_state == old(self).economic_state {
                None::<EconomicChange>
            } else {
                Some(EconomicChange {
                    improved: final(self).economic_state.spec_sales_multiplier_milli()
                        > old(self).economic_state.spec_sales_multiplier_milli(),
                    new_state: final(self).economic_state,
                })
            },
    {
        self.day_seed = day_seed(day);
        let old_state = self.economic_state;

        let trend: i64 = trend_milli(day);
        self.economic_trend = trend;

        let mut up_bp: u64 = 400;
        let mut down_bp: u64 = 400;
        if trend > 0 {
            up_bp = 400 + (trend * 600 / 1000) as u64;
        } else {
            down_bp = 400 + ((-trend) * 600 / 1000) as u64;
        }
        match self.economic_state {
            EconomicState::Collapse => {
                up_bp = up_bp + 1000;
                down_bp = 0;
            },
            EconomicState::Prosperity => {
                down_bp = down_bp + 1000;
                up_bp = 0;
            },
            _ => {},
        }

        let roll: u64 = econ_roll_bp(self.day_seed);
        if roll < up_bp {
            if let Some(next) = self.economic_state.transition_up() {
                self.economic_state = next;
            }
        } else if roll < up_bp + down_bp {
            if let Some(next) = self.economic_state.transition_down() {
                self.economic_state = next;
            }
        }

        if !economic_state_eq(self.economic_state, old_state) {
            let improved = self.economic_state.sales_multiplier_milli()
                > old_state.sales_multiplier_milli();
            Some(EconomicChange { improved, new_state: self.economic_state })
        } else {
            None
        }
    }

    /// Computes the units sold today for one product in one store, given its
    /// retail price, the stock on hand and the day's customer count. Never
    /// exceeds the stock on hand.
    pub fn calculate_sales(
        &self,
        product: &Product,
        retail_price: u64,
        available_quantity: u64,
        customer_count: u64,
    ) -> (r: u64)
        requires
            self.wf(),
            product.wf(),
        ensures
            r == spec_sales(
                product.base_price as int,
                retail_price as int,
                product.category.spec_demand_weight_milli(),
                self.economic_state.spec_sales_multiplier_milli(),
                self.day_seed,
                customer_count as int,
                available_quantity as int,
            ),
            r <= available_quantity,
    {
        let pf: u64 = price_factor_milli(product.base_price, retail_price);
        let weight: u64 = product.category.demand_weight_milli();
        let econ: u64 = self.economic_state.sales_multiplier_milli();

        let variance: u64 = variance_milli(self.day_seed);
        proof {
            lemma_sales_product_bounds(
                customer_count as int,
                weight as int,
                econ as int,
                pf as int,
                variance as int,
            );
        }
        let sold: u128 = customer_count as u128 * weight as u128 * econ as u128 * pf as u128
            * variance as u128 / 10_000_000_000_000;
        if sold > available_quantity as u128 {
            available_quantity
        } else {
            sold as u64
        }
    }

    /// Computes the markup of a retail price over a wholesale price, in
    /// milli-percent.
    pub fn calculate_markup(wholesale: u64, retail: u64) -> (r: i64)
        requires
            wholesale <= MONEY_CAP,
            retail <= MONEY_CAP,
        ensures
            r == spec_markup_milli_pct(wholesale as int, retail as int),
    {
        if wholesale == 0 {
            0
        } else if retail >= wholesale {
            (((retail - wholesale) as u128 * 100_000 / wholesale as u128) as u64) as i64
        } else {
            -((((wholesale - retail) as u128 * 100_000 / wholesale as u128) as u64) as i64)
        }
    }

    /// Suggests a retail price from a wholesale price and a milli-percent
    /// markup, the unit `calculate_markup` measures in.
    pub fn suggest_retail_price(wholesale: u64, markup_milli_pct: u64) -> (r: u64)
        requires
            wholesale <= MONEY_CAP,
            markup_milli_pct <= 1_000_000_000,
        ensures
            r == spec_suggested_retail(wholesale as int, markup_milli_pct as int),
            r <= MONEY_CAP,
            wholesale >= 1 ==> r >= 1,
    {
        proof {
            assert(wholesale * (100_000 + markup_milli_pct) <= MONEY_CAP * 1_000_100_000)
                by (nonlinear_arith)
                requires
                    wholesale <= MONEY_CAP,
                    markup_milli_pct <= 1_000_000_000,
            ;
            assert(wholesale * 100_000 <= wholesale * (100_000 + markup_milli_pct))
                by (nonlinear_arith)
                requires
                    0 <= wholesale,
                    0 <= markup_milli_pct,
            ;
            assert(wholesale * 100_000 / 100_000 == wholesale);
            assert(wholesale * 100_000 / 100_000 <= wholesale * (100_000 + markup_milli_pct)
                / 100_000);
        }
        let raw: u128 = wholesale as u128 * (100_000 + markup_milli_pct as u128) / 100_000;
        if raw > MONEY_CAP as u128 {
            MONEY_CAP
        } else {
            raw as u64
        }
    }

    /// Returns the annual interest rate offered today for a loan type, in
    /// basis points: the economy's base rate plus the type's surcharge.
    pub fn get_loan_rate_bp(&self, loan_type: &LoanType) -> (r: u32)
        ensures
            r == self.economic_state.spec_interest_rate_bp()
                + loan_type.spec_rate_modifier_bp(),
            r <= 1700,
    {
        self.economic_state.interest_rate_bp() + loan_type.rate_modifier_bp()
    }
}

/// Compares two economic states.
fn economic_state_eq(a: EconomicState, b: EconomicState) -> (r: bool)
    ensures
        r == (a == b),
{
    a == b
}

/// The price-elasticity factor; the executable twin of
/// `spec_price_factor_milli`.
fn price_factor_milli(base: u64, retail: u64) -> (r: u64)
    requires
        1 <= base <= MONEY_CAP,
    ensures
        r == spec_price_factor_milli(base as int, retail as int),
        r <= 2000,
{
    if retail >= base {
        let d: u128 = (retail - base) as u128 * 500 / base as u128;
        if d >= 1000 {
            0
        } else {
            1000 - d as u64
        }
    } else {
        let b: u64 = (base - retail) * 500 / base;
        if b > 1000 {
            2000
        } else {
            1000 + b
        }
    }
}

/// A base price found in the table is a stored price, hence within bounds
/// whenever every stored price is.
proof fn lemma_base_price_in_table(s: Seq<PriceEntry>, product_id: u32)
    requires
        forall|i: int| 0 <= i < s.len() ==> 1 <= (#[trigger] s[i]).base_price <= MONEY_CAP,
        spec_base_price(s, product_id) is Some,
    ensures
        1 <= spec_base_price(s, product_id).unwrap() <= MONEY_CAP,
    decreases s.len(),
{
    if s.len() > 0 && s[0].product_id != product_id {
        lemma_base_price_in_table(s.drop_first(), product_id);
    }
}

/// Bounds on the intermediate products of the sales formula, small enough
/// for 128-bit arithmetic.
proof fn lemma_sales_product_bounds(customers: int, weight: int, econ: int, pf: int, variance: int)
    requires
        0 <= customers <= u64::MAX,
        0 <= weight <= 1200,
        0 <= econ <= 1600,
        0 <= pf <= 2000,
        800 <= variance <= 1199,
    ensures
        0 <= customers * weight <= u64::MAX * 1200,
        0 <= customers * weight * econ <= u64::MAX * 1200 * 1600,
        0 <= customers * weight * econ * pf <= u64::MAX * 1200 * 1600 * 2000,
        0 <= customers * weight * econ * pf * variance <= u64::MAX * 1200 * 1600 * 2000 * 1199,
{
    assert(0 <= customers * weight <= u64::MAX * 1200) by (nonlinear_arith)
        requires
            0 <= customers <= u64::MAX,
            0 <= weight <= 1200,
    ;
    assert(0 <= customers * weight * econ <= u64::MAX * 1200 * 1600) by (nonlinear_arith)
        requires
            0 <= customers * weight <= u64::MAX * 1200,
            0 <= econ <= 1600,
    ;
    assert(0 <= customers * weight * econ * pf <= u64::MAX * 1200 * 1600 * 2000)
        by (nonlinear_arith)
        requires
            0 <= customers * weight * econ <= u64::MAX * 1200 * 1600,
            0 <= pf <= 2000,
    ;
    assert(0 <= customers * weight * econ * pf * variance <= u64::MAX * 1200 * 1600 * 2000
        * 1199) by (nonlinear_arith)
        requires
            0 <= customers * weight * econ * pf <= u64::MAX * 1200 * 1600 * 2000,
            800 <= variance <= 1199,
    ;
}

} // verus!
