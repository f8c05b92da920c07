//! The game state and its day orchestrator: every command the player can
//! issue between ticks, and the single `advance_day` transition that moves
//! the whole simulation one day forward.

use vstd::prelude::*;
use vstd::string::StringExecFns;
use crate::competitor::{CompetitiveMarket, CompetitorEvent};
use crate::economy::{
    EconomicChange, EconomicState, Market, spec_base_price, spec_markup_milli_pct,
    spec_next_state, spec_suggested_retail,
};
use crate::errors::CommandError;
use crate::factory::{Factory, ProductionResult};
use crate::loan::{Loan, LoanType, MAX_LOAN, MAX_TOTAL_DEBT, MIN_LOAN};
use crate::money::{cap_amount, MONEY_CAP, QTY_CAP};
use crate::player::Player;
use crate::product::{Product, products_wf};
use crate::recipe::{Recipe, recipes_wf};
use crate::stock::{StockChange, StockMarket};
use crate::store::{inv_has, inv_price, inv_qty, Store};

verus! {

/// What opening a new store costs, in cents.
pub const NEW_STORE_COST: u64 = 500_000;

/// What opening a new factory costs, in cents.
pub const NEW_FACTORY_COST: u64 = 1_000_000;

/// The milli-percent markup applied when goods arrive without a price.
pub const DEFAULT_MARKUP_MILLI_PCT: u64 = 50_000;

/// One line of the day's sales report.
pub struct SaleRecord {
    pub product_id: u32,
    pub product_name: String,
    pub quantity: u64,
    pub revenue: u64,
}

/// One line of the day's expense report.
pub struct ExpenseRecord {
    pub name: String,
    pub rent: u64,
    pub salaries: u64,
}

/// One line of the day's auto-transfer log.
pub struct TransferRecord {
    pub factory_name: String,
    pub store_name: String,
    pub product_name: String,
    pub quantity: u64,
}

/// Everything one day produced, as a single report.
pub struct DayResult {
    pub total_revenue: u64,
    pub total_items_sold: u64,
    pub sales_by_product: Vec<SaleRecord>,
    pub total_expenses: u64,
    pub expenses_by_store: Vec<ExpenseRecord>,
    pub expenses_by_factory: Vec<ExpenseRecord>,
    pub production_completed: Vec<ProductionResult>,
    /// Revenue less expenses less loan interest; dividends and stock moves
    /// are informational only.
    pub net_profit: i64,
    pub economic_state: EconomicState,
    pub economic_change: Option<EconomicChange>,
    pub loan_interest_accrued: u64,
    /// Automatic payments made today, as loan id and amount pairs.
    pub loan_payments: Vec<(u32, u64)>,
    /// Term loans that came due today, as loan id and balance pairs.
    pub loans_due: Vec<(u32, u64)>,
    /// Warnings for loans due soon: loan id, days remaining, balance.
    pub loans_due_soon: Vec<(u32, u32, u64)>,
    pub term_loan_penalties: u64,
    pub auto_transfers: Vec<TransferRecord>,
    pub competitor_events: Vec<CompetitorEvent>,
    pub player_market_share_milli: u64,
    pub stock_changes: Vec<StockChange>,
    pub dividends_earned: u64,
}

/// The product a catalog lists under an id.
pub open spec fn spec_get_product(s: Seq<Product>, product_id: u32) -> Option<Product>
    decreases s.len(),
{
    if s.len() == 0 {
        None
    } else if s[0].id == product_id {
        Some(s[0])
    } else {
        spec_get_product(s.drop_first(), product_id)
    }
}

/// The recipe a book lists under an id.
pub open spec fn spec_get_recipe(s: Seq<Recipe>, recipe_id: u32) -> Option<Recipe>
    decreases s.len(),
{
    if s.len() == 0 {
        None
    } else if s[0].id == recipe_id {
        Some(s[0])
    } else {
        spec_get_recipe(s.drop_first(), recipe_id)
    }
}

/// The complete game state; `advance_day` is its only day-to-day
/// transition.
pub struct GameState {
    pub day: u32,
    pub player: Player,
    pub market: Market,
    pub competitive_market: CompetitiveMarket,
    pub stock_market: StockMarket,
    pub products: Vec<Product>,
    pub recipes: Vec<Recipe>,
    /// The store commands currently act on.
    pub current_store: usize,
    /// The factory commands currently act on, if any is selected.
    pub current_factory: Option<usize>,
    /// Set once cash ends a day negative; never cleared.
    pub is_bankrupt: bool,
}

impl GameState {
    /// A valid game: every component valid and the selection cursors in
    /// range.
    pub open spec fn wf(self) -> bool {
        &&& self.player.wf()
        &&& self.market.wf()
        &&& self.competitive_market.wf()
        &&& self.stock_market.wf()
        &&& products_wf(self.products@)
        &&& recipes_wf(self.recipes@)
        &&& self.current_store < self.player.stores@.len()
        &&& match self.current_factory {
            Some(i) => i < self.player.factories@.len(),
            None => true,
        }
    }

    /// Starts a new game: day one, $1,000 cash, one store, the standard
    /// catalog, recipe book, rivals and stock listings.
    pub fn new() -> (r: GameState)
        ensures
            r.wf(),
            r.day == 1,
            r.player.cash == 100_000,
            r.player.stores@.len() == 1,
            r.player.stores@[0].id == 1,
            r.player.stores@[0].inventory@.len() == 0,
            r.player.stores@[0].daily_rent == crate::store::STORE_RENT,
            r.player.stores@[0].daily_customers == 50,
            r.player.stores@[0].employees@.len() == 0,
            r.player.factories@.len() == 0,
            r.player.loans@.len() == 0,
            r.player.portfolio@.len() == 0,
            r.player.next_store_id == 2,
            r.player.next_factory_id == 1,
            r.player.next_loan_id == 1,
            r.products@.len() == 21,
            forall|i: int| 0 <= i < 21 ==> (#[trigger] r.products@[i]).id == i + 1,
            r.products@[0].base_price == 200 && r.products@[0].category
                == crate::product::Category::Food,
            forall|i: int|
                10 <= i < 15 ==> (#[trigger] r.products@[i]).product_type
                    == crate::product::ProductType::RawMaterial,
            r.market.wholesale_prices@.len() == 21,
            forall|i: int|
                0 <= i < 21 ==> (#[trigger] r.market.wholesale_prices@[i])
                    == (crate::economy::PriceEntry {
                    product_id: r.products@[i].id,
                    base_price: r.products@[i].base_price,
                }),
            r.market.day_seed == 12345,
            r.market.economic_trend == 0,
            r.recipes@.len() == 6,
            forall|i: int| 0 <= i < 6 ==> (#[trigger] r.recipes@[i]).id == i + 1,
            r.market.economic_state == EconomicState::Standard,
            r.competitive_market.player_market_share_milli == 150,
            r.competitive_market.competitors@.len() == 3,
            r.competitive_market.competitors@[0].store_count == 3
                && r.competitive_market.competitors@[0].cash == 2_500_000,
            r.competitive_market.total_market_size == 500,
            r.stock_market.stocks@.len() == 6,
            forall|i: int|
                0 <= i < 6 ==> (#[trigger] r.stock_market.stocks@[i]).base_price
                    == r.stock_market.stocks@[i].price
                    && r.stock_market.stocks@[i].price_accumulator_millicents == 0,
            r.stock_market.stocks@[0].price == 10_000,
            r.stock_market.random_state == 12345,
            r.current_store == 0,
            r.current_factory is None,
            !r.is_bankrupt,
    {
        let products = crate::product::default_products();
        let market = Market::new(&products);
        let player = Player::new(100_000, "My First Store");
        let recipes = crate::recipe::default_recipes();
        let competitive_market = CompetitiveMarket::new();
        let stock_market = StockMarket::new();
        GameState {
            day: 1,
            player,
            market,
            competitive_market,
            stock_market,
            products,
            recipes,
            current_store: 0,
            current_factory: None,
            is_bankrupt: false,
        }
    }

    /// Returns the currently selected store.
    pub fn current_store(&self) -> (r: &Store)
        requires
            self.wf(),
        ensures
            *r == self.player.stores@[self.current_store as int],
    {
        self.player.store_at(self.current_store)
    }

    /// Selects a store by index.
    pub fn switch_store(&mut self, index: usize) -> (r: Result<(), CommandError>)
        requires
            old(self).wf(),
        ensures
            final(self).wf(),
            r matches Err(e) ==> e == CommandError::InvalidStoreIndex && index >= old(self).player.stores@.len() && *final(self) == *old(self),
            r matches Ok(_) ==> index < old(self).player.stores@.len() && *final(self) == (
            GameState { current_store: index, ..*old(self) }),
    {
        if index >= self.player.stores.len() {
            return Err(CommandError::InvalidStoreIndex);
        }
        self.current_store = index;
        Ok(())
    }

    /// Returns the currently selected factory, if any.
    pub fn current_factory(&self) -> (r: Option<&Factory>)
        requires
            self.wf(),
        ensures
            match r {
                Some(f) => self.current_factory matches Some(i) && *f
                    == self.player.factories@[i as int],
                None => self.current_factory is None,
            },
    {
        match self.current_factory {
            Some(i) => Some(self.player.factory_at(i)),
            None => None,
        }
    }

    /// Selects a factory by index.
    pub fn switch_factory(&mut self, index: usize) -> (r: Result<(), CommandError>)
        requires
            old(self).wf(),
        ensures
            final(self).wf(),
            r matches Err(e) ==> e == CommandError::InvalidFactoryIndex && index >= old(self).player.factories@.len() && *final(self) == *old(self),
            r matches Ok(_) ==> index < old(self).player.factories@.len() && *final(self) == (
            GameState { current_factory: Some(index), ..*old(self) }),
    {
        if index >= self.player.factories.len() {
            return Err(CommandError::InvalidFactoryIndex);
        }
        self.current_factory = Some(index);
        Ok(())
    }

    /// Buys a new store for $5,000 and lets the rivals react.
    pub fn buy_new_store(&mut self, name: &str) -> (r: Result<Vec<CompetitorEvent>, CommandError>)
        requires
            old(self).wf(),
        ensures
            final(self).wf(),
            r matches Err(e) ==> *final(self) == *old(self) && (e == (CommandError::NotEnoughCash {
                needed: NEW_STORE_COST,
                have: old(self).player.cash,
            }) && old(self).player.cash < NEW_STORE_COST || e == CommandError::StorageLimitExceeded
                && old(self).player.cash >= NEW_STORE_COST && old(self).player.next_store_id
                == u32::MAX),
            r matches Ok(events) ==> {
                &&& old(self).player.cash >= NEW_STORE_COST
                &&& final(self).player.cash == old(self).player.cash - NEW_STORE_COST
                &&& final(self).player.stores@.len() == old(self).player.stores@.len() + 1
                &&& forall|i: int|
                    0 <= i < old(self).player.stores@.len() ==> final(self).player.stores@[i]
                        == old(self).player.stores@[i]
                &&& final(self).player.stores@.last().name@ == name@
                &&& final(self).player.stores@.last().id == old(self).player.next_store_id
                &&& events@ == crate::competitor::spec_reaction_events(
                    old(self).competitive_market.competitors@,
                )
                &&& forall|i: int|
                    0 <= i < old(self).competitive_market.competitors@.len() ==> (
                    #[trigger] final(self).competitive_market.competitors@[i])
                        == crate::competitor::spec_competitor_reaction(
                        old(self).competitive_market.competitors@[i],
                    ).0
                &&& final(self).player.loans == old(self).player.loans
                &&& final(self).player.factories == old(self).player.factories
                &&& final(self).player.portfolio == old(self).player.portfolio
                &&& final(self).market == old(self).market
                &&& final(self).stock_market == old(self).stock_market
                &&& final(self).day == old(self).day
            },
    {
        if self.player.cash < 0 || (self.player.cash as u64) < NEW_STORE_COST {
            return Err(
                CommandError::NotEnoughCash { needed: NEW_STORE_COST, have: self.player.cash },
            );
        }
        if self.player.next_store_id == u32::MAX {
            return Err(CommandError::StorageLimitExceeded);
        }
        self.player.spend(NEW_STORE_COST);
        self.player.add_store(name);
        let reactions = self.competitive_market.notify_player_expansion();
        Ok(reactions)
    }

    /// Buys a new factory for $10,000; the first factory bought becomes the
    /// selected one.
    pub fn buy_new_factory(&mut self, name: &str) -> (r: Result<(), CommandError>)
        requires
            old(self).wf(),
        ensures
            final(self).wf(),
            r matches Err(e) ==> *final(self) == *old(self) && (e == (CommandError::NotEnoughCash {
                needed: NEW_FACTORY_COST,
                have: old(self).player.cash,
            }) && old(self).player.cash < NEW_FACTORY_COST || e
                == CommandError::StorageLimitExceeded && old(self).player.cash >= NEW_FACTORY_COST
                && old(self).player.next_factory_id == u32::MAX),
            r matches Ok(_) ==> {
                &&& old(self).player.cash >= NEW_FACTORY_COST
                &&& final(self).player.cash == old(self).player.cash - NEW_FACTORY_COST
                &&& final(self).player.factories@.len() == old(self).player.factories@.len() + 1
                &&& forall|i: int|
                    0 <= i < old(self).player.factories@.len() ==> final(self).player.factories@[i]
                        == old(self).player.factories@[i]
                &&& final(self).player.factories@.last().name@ == name@
                &&& final(self).current_factory == if old(self).current_factory is None {
                    Some(0usize)
                } else {
                    old(self).current_factory
                }
                &&& final(self).player.stores == old(self).player.stores
                &&& final(self).player.loans == old(self).player.loans
                &&& final(self).day == old(self).day
            },
    {
        if self.player.cash < 0 || (self.player.cash as u64) < NEW_FACTORY_COST {
            return Err(
                CommandError::NotEnoughCash { needed: NEW_FACTORY_COST, have: self.player.cash },
            );
        }
        if self.player.next_factory_id == u32::MAX {
            return Err(CommandError::StorageLimitExceeded);
        }
        self.player.spend(NEW_FACTORY_COST);
        self.player.add_factory(name);
        if self.current_factory.is_none() {
            self.current_factory = Some(0);
        }
        Ok(())
    }

    /// Looks up a recipe by id.
    pub fn get_recipe(&self, recipe_id: u32) -> (r: Option<&Recipe>)
        ensures
            match r {
                Some(rec) => spec_get_recipe(self.recipes@, recipe_id) == Some(*rec) && rec.id
                    == recipe_id,
                None => spec_get_recipe(self.recipes@, recipe_id) is None,
            },
    {
        let ghost s = self.recipes@;
        proof {
            assert(s.skip(0) =~= s);
        }
        let mut i: usize = 0;
        while i < self.recipes.len()
            invariant
                i <= s.len(),
                s == self.recipes@,
                spec_get_recipe(s.skip(i as int), recipe_id) == spec_get_recipe(s, recipe_id),
            decreases s.len() - i,
        {
            proof {
                assert(s.skip(i as int)[0] == s[i as int]);
                assert(s.skip(i as int).drop_first() =~= s.skip(i as int + 1));
            }
            if self.recipes[i].id == recipe_id {
                return Some(&self.recipes[i]);
            }
            i = i + 1;
        }
        proof {
            assert(s.skip(i as int).len() == 0);
        }
        None
    }

    /// Looks up a product by id.
    pub fn get_product(&self, product_id: u32) -> (r: Option<&Product>)
        ensures
            match r {
                Some(p) => spec_get_product(self.products@, product_id) == Some(*p) && p.id
                    == product_id,
                None => spec_get_product(self.products@, product_id) is None,
            },
    {
        let ghost s = self.products@;
        proof {
            assert(s.skip(0) =~= s);
        }
        let mut i: usize = 0;
        while i < self.products.len()
            invariant
                i <= s.len(),
                s == self.products@,
                spec_get_product(s.skip(i as int), product_id) == spec_get_product(s, product_id),
            decreases s.len() - i,
        {
            proof {
                assert(s.skip(i as int)[0] == s[i as int]);
                assert(s.skip(i as int).drop_first() =~= s.skip(i as int + 1));
            }
            if self.products[i].id == product_id {
                return Some(&self.products[i]);
            }
            i = i + 1;
        }
        proof {
            assert(s.skip(i as int).len() == 0);
        }
        None
    }

    /// Finds the index of the store with an id.
    pub fn get_store_index_by_id(&self, store_id: u32) -> (r: Option<usize>)
        requires
            self.wf(),
        ensures
            match r {
                Some(i) => i < self.player.stores@.len() && self.player.stores@[i as int].id
                    == store_id,
                None => forall|i: int|
                    0 <= i < self.player.stores@.len() ==> (#[trigger] self.player.stores@[i]).id
                        != store_id,
            },
    {
        let mut i: usize = 0;
        while i < self.player.stores.len()
            invariant
                i <= self.player.stores@.len(),
                forall|j: int|
                    0 <= j < i ==> (#[trigger] self.player.stores@[j]).id != store_id,
            decreases self.player.stores@.len() - i,
        {
            if self.player.stores[i].id == store_id {
                return Some(i);
            }
            i = i + 1;
        }
        None
    }

    /// Returns the name of the store with an id.
    pub fn get_store_name_by_id(&self, store_id: u32) -> (r: Option<&str>)
        requires
            self.wf(),
        ensures
            match r {
                Some(name) => exists|i: int|
                    0 <= i < self.player.stores@.len() && (#[trigger] self.player.stores@[i]).id
                        == store_id && self.player.stores@[i].name@ == name@,
                None => forall|i: int|
                    0 <= i < self.player.stores@.len() ==> (#[trigger] self.player.stores@[i]).id
                        != store_id,
            },
    {
        match self.get_store_index_by_id(store_id) {
            Some(i) => {
                let ghost wi = i as int;
                let name = self.player.stores[i].name.as_str();
                proof {
                    assert(self.player.stores@[wi].id == store_id && self.player.stores@[wi].name@
                        == name@);
                }
                Some(name)
            },
            None => None,
        }
    }

    /// Returns today's combined rent and salaries over everything owned,
    /// capped.
    pub fn total_daily_expenses(&self) -> (r: u64)
        requires
            self.wf(),
        ensures
            r == cap_amount(
                crate::player::spec_store_expenses(self.player.stores@)
                    + crate::player::spec_factory_expenses(self.player.factories@),
            ),
    {
        self.player.total_daily_expenses()
    }

    /// Returns the interest rate offered today for a loan type, in basis
    /// points.
    pub fn get_current_loan_rate_bp(&self, loan_type: &LoanType) -> (r: u32)
        ensures
            r == self.market.economic_state.spec_interest_rate_bp()
                + loan_type.spec_rate_modifier_bp(),
    {
        self.market.get_loan_rate_bp(loan_type)
    }

    /// Finds the catalog position of a product.
    fn find_product_index(&self, product_id: u32) -> (r: Option<usize>)
        ensures
            match r {
                Some(i) => i < self.products@.len() && self.products@[i as int].id == product_id
                    && spec_get_product(self.products@, product_id) == Some(
                    self.products@[i as int],
                ),
                None => spec_get_product(self.products@, product_id) is None,
            },
    {
        let ghost s = self.products@;
        proof {
            assert(s.skip(0) =~= s);
        }
        let mut i: usize = 0;
        while i < self.products.len()
            invariant
                i <= s.len(),
                s == self.products@,
                spec_get_product(s.skip(i as int), product_id) == spec_get_product(s, product_id),
            decreases s.len() - i,
        {
            proof {
                assert(s.skip(i as int)[0] == s[i as int]);
                assert(s.skip(i as int).drop_first() =~= s.skip(i as int + 1));
            }
            if self.products[i].id == product_id {
                return Some(i);
            }
            i = i + 1;
        }
        proof {
            assert(s.skip(i as int).len() == 0);
        }
        None
    }

    /// Finds the book position of a recipe.
    fn find_recipe_index(&self, recipe_id: u32) -> (r: Option<usize>)
        ensures
            match r {
                Some(i) => i < self.recipes@.len() && self.recipes@[i as int].id == recipe_id
                    && spec_get_recipe(self.recipes@, recipe_id) == Some(self.recipes@[i as int]),
                None => spec_get_recipe(self.recipes@, recipe_id) is None,
            },
    {
        let ghost s = self.recipes@;
        proof {
            assert(s.skip(0) =~= s);
        }
        let mut i: usize = 0;
        while i < self.recipes.len()
            invariant
                i <= s.len(),
                s == self.recipes@,
                spec_get_recipe(s.skip(i as int), recipe_id) == spec_get_recipe(s, recipe_id),
            decreases s.len() - i,
        {
            proof {
                assert(s.skip(i as int)[0] == s[i as int]);
                assert(s.skip(i as int).drop_first() =~= s.skip(i as int + 1));
            }
            if self.recipes[i].id == recipe_id {
                return Some(i);
            }
            i = i + 1;
        }
        proof {
            assert(s.skip(i as int).len() == 0);
        }
        None
    }

    /// Buys inventory at today's wholesale price for the selected store.
    /// On success the cash falls by exactly the cost and the stored
    /// quantity rises by exactly the bought quantity; a restock keeps the
    /// existing retail price, new goods arrive at the default markup.
    pub fn buy_inventory(&mut self, product_id: u32, quantity: u32) -> (r: Result<
        u64,
        CommandError,
    >)
        requires
            old(self).wf(),
        ensures
            final(self).wf(),
            ({
                let prod = spec_get_product(old(self).products@, product_id);
                let base = spec_base_price(old(self).market.wholesale_prices@, product_id);
                let w = cap_amount(
                    base.unwrap()
                        * old(self).market.economic_state.spec_price_multiplier_milli() / 1000,
                );
                let inv0 = old(self).player.stores@[old(self).current_store as int].inventory@;
                match r {
                    Err(e) => {
                        &&& *final(self) == *old(self)
                        &&& (e == CommandError::QuantityZero && quantity == 0 || quantity > 0 && (e
                            == CommandError::ProductNotFound && prod is None || (prod is Some
                            && base is None && e == CommandError::WholesalePriceNotFound) || (
                        prod is Some && base is Some && inv_qty(inv0, product_id) + quantity
                            > QTY_CAP && e == CommandError::StorageLimitExceeded) || (prod is Some
                            && base is Some && inv_qty(inv0, product_id) + quantity <= QTY_CAP && w
                            * quantity > old(self).player.cash && e == (
                        CommandError::NotEnoughCash {
                            needed: cap_amount(w * quantity) as u64,
                            have: old(self).player.cash,
                        }))))
                    },
                    Ok(cost) => {
                        &&& quantity > 0
                        &&& prod is Some
                        &&& base is Some
                        &&& cost == w * quantity
                        &&& cost <= old(self).player.cash
                        &&& final(self).player.cash == old(self).player.cash - cost
                        &&& final(self).player.stores@.len() == old(self).player.stores@.len()
                        &&& inv_qty(
                            final(self).player.stores@[old(self).current_store as int].inventory@,
                            product_id,
                        ) == inv_qty(inv0, product_id) + quantity
                        &&& inv_price(
                            final(self).player.stores@[old(self).current_store as int].inventory@,
                            product_id,
                        ) == if inv_has(inv0, product_id) {
                            inv_price(inv0, product_id)
                        } else {
                            Some(spec_suggested_retail(w as int, 50_000) as u64)
                        }
                        &&& forall|p: u32|
                            p != product_id ==> #[trigger] inv_qty(
                                final(self).player.stores@[old(self).current_store as int].inventory@,
                                p,
                            ) == inv_qty(inv0, p)
                        &&& forall|i: int|
                            0 <= i < old(self).player.stores@.len() && i != old(self).current_store as int ==> final(self).player.stores@[i] == old(self).player.stores@[i]
                        &&& final(self).player.factories == old(self).player.factories
                        &&& final(self).player.loans == old(self).player.loans
                        &&& final(self).player.portfolio == old(self).player.portfolio
                        &&& final(self).market == old(self).market
                        &&& final(self).competitive_market == old(self).competitive_market
                        &&& final(self).stock_market == old(self).stock_market
                        &&& final(self).day == old(self).day
                        &&& final(self).is_bankrupt == old(self).is_bankrupt
                        &&& final(self).current_store == old(self).current_store
                        &&& final(self).current_factory == old(self).current_factory
                    },
                }
            }),
    {
        if quantity == 0 {
            return Err(CommandError::QuantityZero);
        }
        if self.find_product_index(product_id).is_none() {
            return Err(CommandError::ProductNotFound);
        }
        let wholesale: u64 = match self.market.get_wholesale_price(product_id) {
            Some(w) => w,
            None => {
                return Err(CommandError::WholesalePriceNotFound);
            },
        };
        let si: usize = self.current_store;
        let have: u64 = self.player.stores[si].get_quantity(product_id);
        if quantity as u64 > QTY_CAP || have > QTY_CAP - quantity as u64 {
            return Err(CommandError::StorageLimitExceeded);
        }
        proof {
            assert(0 <= wholesale * quantity <= MONEY_CAP * 0xFFFF_FFFFu64) by (nonlinear_arith)
                requires
                    wholesale <= MONEY_CAP,
                    quantity <= 0xFFFF_FFFFu64,
            ;
        }
        let cost128: u128 = wholesale as u128 * quantity as u128;
        if self.player.cash < 0 || cost128 > self.player.cash as u128 {
            let needed: u64 = crate::money::mul_price_qty(wholesale, quantity as u64);
            return Err(CommandError::NotEnoughCash { needed, have: self.player.cash });
        }
        let cost: u64 = cost128 as u64;
        self.player.spend(cost);
        let suggested: u64 = Market::suggest_retail_price(wholesale, DEFAULT_MARKUP_MILLI_PCT);
        store_add_inventory_at(&mut self.player.stores, si, product_id, quantity as u64, suggested);
        Ok(cost)
    }

    /// Reprices a product in the selected store; the price must be a
    /// positive amount of cents within the money cap.
    pub fn set_retail_price(&mut self, product_id: u32, price: u64) -> (r: Result<
        (),
        CommandError,
    >)
        requires
            old(self).wf(),
        ensures
            final(self).wf(),
            ({
                let inv0 = old(self).player.stores@[old(self).current_store as int].inventory@;
                match r {
                    Err(e) => {
                        &&& *final(self) == *old(self)
                        &&& (e == CommandError::InvalidPrice && (price == 0 || price > MONEY_CAP)
                            || e == CommandError::ProductNotInInventory && 1 <= price <= MONEY_CAP
                            && !inv_has(inv0, product_id))
                    },
                    Ok(_) => {
                        &&& 1 <= price <= MONEY_CAP
                        &&& inv_has(inv0, product_id)
                        &&& inv_price(
                            final(self).player.stores@[old(self).current_store as int].inventory@,
                            product_id,
                        ) == Some(price)
                        &&& inv_qty(
                            final(self).player.stores@[old(self).current_store as int].inventory@,
                            product_id,
                        ) == inv_qty(inv0, product_id)
                        &&& forall|p: u32|
                            p != product_id ==> #[trigger] inv_price(
                                final(self).player.stores@[old(self).current_store as int].inventory@,
                                p,
                            ) == inv_price(inv0, p)
                        &&& forall|p: u32|
                            p != product_id ==> #[trigger] inv_qty(
                                final(self).player.stores@[old(self).current_store as int].inventory@,
                                p,
                            ) == inv_qty(inv0, p)
                        &&& forall|i: int|
                            0 <= i < old(self).player.stores@.len() && i != old(self).current_store as int ==> final(self).player.stores@[i] == old(self).player.stores@[i]
                        &&& final(self).player.cash == old(self).player.cash
                        &&& final(self).player.factories == old(self).player.factories
                        &&& final(self).player.loans == old(self).player.loans
                        &&& final(self).market == old(self).market
                        &&& final(self).day == old(self).day
                    },
                }
            }),
    {
        if price == 0 || price > MONEY_CAP {
            return Err(CommandError::InvalidPrice);
        }
        let si: usize = self.current_store;
        if self.player.stores[si].get_price(product_id).is_none() {
            return Err(CommandError::ProductNotInInventory);
        }
        store_set_price_at(&mut self.player.stores, si, product_id, price);
        Ok(())
    }

    /// Buys raw materials at today's wholesale price for the selected
    /// factory.
    pub fn buy_raw_materials(&mut self, product_id: u32, quantity: u32) -> (r: Result<
        u64,
        CommandError,
    >)
        requires
            old(self).wf(),
        ensures
            final(self).wf(),
            ({
                let prod = spec_get_product(old(self).products@, product_id);
                let base = spec_base_price(old(self).market.wholesale_prices@, product_id);
                let w = cap_amount(
                    base.unwrap()
                        * old(self).market.economic_state.spec_price_multiplier_milli() / 1000,
                );
                match r {
                    Err(e) => {
                        &&& *final(self) == *old(self)
                        &&& (e == CommandError::QuantityZero && quantity == 0 || quantity > 0 && (e
                            == CommandError::NoFactorySelected && old(self).current_factory
                            is None || (old(self).current_factory is Some && e
                            == CommandError::ProductNotFound && prod is None) || (old(self).current_factory is Some && (prod matches Some(p) && e
                            == CommandError::NotRawMaterial && p.product_type
                            != crate::product::ProductType::RawMaterial)) || (old(self).current_factory is Some && (prod matches Some(p) && p.product_type
                            == crate::product::ProductType::RawMaterial) && base is None && e
                            == CommandError::WholesalePriceNotFound) || (old(self).current_factory is Some && (prod matches Some(p) && p.product_type
                            == crate::product::ProductType::RawMaterial) && base is Some
                            && crate::ledger::ledger_qty(
                            old(self).player.factories@[old(self).current_factory.unwrap() as int].raw_materials@,
                            product_id,
                        ) + quantity > QTY_CAP && e == CommandError::StorageLimitExceeded) || (old(self).current_factory is Some && (prod matches Some(p) && p.product_type
                            == crate::product::ProductType::RawMaterial) && base is Some
                            && crate::ledger::ledger_qty(
                            old(self).player.factories@[old(self).current_factory.unwrap() as int].raw_materials@,
                            product_id,
                        ) + quantity <= QTY_CAP && w * quantity > old(self).player.cash && e == (
                        CommandError::NotEnoughCash {
                            needed: cap_amount(w * quantity) as u64,
                            have: old(self).player.cash,
                        }))))
                    },
                    Ok(cost) => {
                        let fi = old(self).current_factory.unwrap() as int;
                        let raw0 = old(self).player.factories@[fi].raw_materials@;
                        &&& quantity > 0
                        &&& old(self).current_factory is Some
                        &&& prod matches Some(p) && p.product_type
                            == crate::product::ProductType::RawMaterial
                        &&& base is Some
                        &&& crate::ledger::ledger_qty(raw0, product_id) + quantity <= QTY_CAP
                        &&& cost == w * quantity
                        &&& cost <= old(self).player.cash
                        &&& final(self).player.cash == old(self).player.cash - cost
                        &&& final(self).player.factories@.len() == old(self).player.factories@.len()
                        &&& crate::ledger::ledger_qty(
                            final(self).player.factories@[fi].raw_materials@,
                            product_id,
                        ) == crate::ledger::ledger_qty(raw0, product_id) + quantity
                        &&& forall|p: u32|
                            p != product_id ==> #[trigger] crate::ledger::ledger_qty(
                                final(self).player.factories@[fi].raw_materials@,
                                p,
                            ) == crate::ledger::ledger_qty(raw0, p)
                        &&& forall|i: int|
                            0 <= i < old(self).player.factories@.len() && i != fi ==> final(self).player.factories@[i] == old(self).player.factories@[i]
                        &&& final(self).player.stores == old(self).player.stores
                        &&& final(self).player.loans == old(self).player.loans
                        &&& final(self).market == old(self).market
                        &&& final(self).day == old(self).day
                    },
                }
            }),
    {
        if quantity == 0 {
            return Err(CommandError::QuantityZero);
        }
        let fi: usize = match self.current_factory {
            Some(i) => i,
            None => {
                return Err(CommandError::NoFactorySelected);
            },
        };
        let pi: usize = match self.find_product_index(product_id) {
            Some(i) => i,
            None => {
                return Err(CommandError::ProductNotFound);
            },
        };
        if !self.products[pi].product_type.is_raw_material() {
            return Err(CommandError::NotRawMaterial);
        }
        let wholesale: u64 = match self.market.get_wholesale_price(product_id) {
            Some(w) => w,
            None => {
                return Err(CommandError::WholesalePriceNotFound);
            },
        };
        let have: u64 = factory_get_raw_at(&self.player.factories, fi, product_id);
        if quantity as u64 > QTY_CAP || have > QTY_CAP - quantity as u64 {
            return Err(CommandError::StorageLimitExceeded);
        }
        proof {
            assert(0 <= wholesale * quantity <= MONEY_CAP * 0xFFFF_FFFFu64) by (nonlinear_arith)
                requires
                    wholesale <= MONEY_CAP,
                    quantity <= 0xFFFF_FFFFu64,
            ;
        }
        let cost128: u128 = wholesale as u128 * quantity as u128;
        if self.player.cash < 0 || cost128 > self.player.cash as u128 {
            let needed: u64 = crate::money::mul_price_qty(wholesale, quantity as u64);
            return Err(CommandError::NotEnoughCash { needed, have: self.player.cash });
        }
        let cost: u64 = cost128 as u64;
        self.player.spend(cost);
        factory_add_raw_at(&mut self.player.factories, fi, product_id, quantity as u64);
        Ok(cost)
    }
}

/// What stops a loan request, if anything: the per-loan floor and ceiling,
/// the aggregate debt limit, and the id counter's machine limit.
pub open spec fn spec_loan_validation(p: Player, amount: u64) -> Option<CommandError> {
    if amount < MIN_LOAN {
        Some(CommandError::LoanTooSmall { minimum: MIN_LOAN })
    } else if amount > MAX_LOAN {
        Some(CommandError::LoanTooLarge { maximum: MAX_LOAN })
    } else if crate::player::spec_total_debt(p.loans@) + amount > MAX_TOTAL_DEBT {
        Some(
            CommandError::DebtLimitExceeded {
                limit: MAX_TOTAL_DEBT,
                available: (if crate::player::spec_total_debt(p.loans@) >= MAX_TOTAL_DEBT {
                    0u64
                } else {
                    (MAX_TOTAL_DEBT - crate::player::spec_total_debt(p.loans@)) as u64
                }),
            },
        )
    } else if p.next_loan_id == u32::MAX {
        Some(CommandError::StorageLimitExceeded)
    } else {
        None
    }
}

/// The term-length discount on a term loan's rate: half a point off for a
/// fortnight, a full point off for a month, floored at one percent.
pub open spec fn spec_term_rate_bp(base: int, days: u32) -> int {
    if days == 14 {
        if base - 50 > 100 {
            base - 50
        } else {
            100
        }
    } else if days == 30 {
        if base - 100 > 100 {
            base - 100
        } else {
            100
        }
    } else {
        base
    }
}

impl GameState {
    /// Rejects a loan request that breaks a limit.
    fn validate_loan_amount(&self, amount: u64) -> (r: Result<(), CommandError>)
        requires
            self.wf(),
        ensures
            match r {
                Ok(_) => spec_loan_validation(self.player, amount) is None,
                Err(e) => spec_loan_validation(self.player, amount) == Some(e),
            },
    {
        if amount < MIN_LOAN {
            return Err(CommandError::LoanTooSmall { minimum: MIN_LOAN });
        }
        if amount > MAX_LOAN {
            return Err(CommandError::LoanTooLarge { maximum: MAX_LOAN });
        }
        if !self.player.can_borrow(amount) {
            let available: u64 = self.player.max_borrowable();
            return Err(CommandError::DebtLimitExceeded { limit: MAX_TOTAL_DEBT, available });
        }
        if self.player.peek_next_loan_id() == u32::MAX {
            return Err(CommandError::StorageLimitExceeded);
        }
        Ok(())
    }

    /// Takes a flexible loan: manual repayments at the highest rate. The
    /// principal lands in cash at once; returns the new loan's id.
    pub fn take_flexible_loan(&mut self, amount: u64) -> (r: Result<u32, CommandError>)
        requires
            old(self).wf(),
        ensures
            final(self).wf(),
            match r {
                Err(e) => spec_loan_validation(old(self).player, amount) == Some(e) && *final(self)
                    == *old(self),
                Ok(id) => {
                    let rate = old(self).market.economic_state.spec_interest_rate_bp() + 200;
                    &&& spec_loan_validation(old(self).player, amount) is None
                    &&& id == old(self).player.next_loan_id
                    &&& final(self).player.loans@ == old(self).player.loans@.push(
                        Loan {
                            id,
                            loan_type: LoanType::Flexible,
                            principal: amount,
                            balance: amount,
                            interest_rate_bp: rate as u32,
                            days_remaining: None,
                            daily_payment: 0u64,
                        },
                    )
                    &&& final(self).player.cash == crate::money::clamp_cash(
                        old(self).player.cash + amount,
                    )
                    &&& final(self).player.next_loan_id == old(self).player.next_loan_id + 1
                    &&& final(self).player.stores == old(self).player.stores
                    &&& final(self).player.factories == old(self).player.factories
                    &&& final(self).player.portfolio == old(self).player.portfolio
                    &&& final(self).market == old(self).market
                    &&& final(self).day == old(self).day
                },
            },
    {
        if let Err(e) = self.validate_loan_amount(amount) {
            return Err(e);
        }
        let rate: u32 = self.market.get_loan_rate_bp(&LoanType::Flexible);
        let loan = Loan::new_flexible(0, amount, rate);
        let id: u32 = self.player.peek_next_loan_id();
        self.player.add_loan(loan);
        Ok(id)
    }

    /// Takes a line of credit: a fixed share of the balance is deducted
    /// automatically each day. Returns the new loan's id.
    pub fn take_line_of_credit(&mut self, amount: u64) -> (r: Result<u32, CommandError>)
        requires
            old(self).wf(),
        ensures
            final(self).wf(),
            match r {
                Err(e) => spec_loan_validation(old(self).player, amount) == Some(e) && *final(self)
                    == *old(self),
                Ok(id) => {
                    let rate = old(self).market.economic_state.spec_interest_rate_bp() + 100;
                    &&& spec_loan_validation(old(self).player, amount) is None
                    &&& id == old(self).player.next_loan_id
                    &&& final(self).player.loans@ == old(self).player.loans@.push(
                        Loan {
                            id,
                            loan_type: LoanType::LineOfCredit,
                            principal: amount,
                            balance: amount,
                            interest_rate_bp: rate as u32,
                            days_remaining: None,
                            daily_payment: (if amount / 50 > 1000 {
                                amount / 50
                            } else {
                                1000u64
                            }),
                        },
                    )
                    &&& final(self).player.cash == crate::money::clamp_cash(
                        old(self).player.cash + amount,
                    )
                    &&& final(self).player.next_loan_id == old(self).player.next_loan_id + 1
                    &&& final(self).player.stores == old(self).player.stores
                    &&& final(self).player.factories == old(self).player.factories
                    &&& final(self).player.portfolio == old(self).player.portfolio
                    &&& final(self).market == old(self).market
                    &&& final(self).day == old(self).day
                },
            },
    {
        if let Err(e) = self.validate_loan_amount(amount) {
            return Err(e);
        }
        let rate: u32 = self.market.get_loan_rate_bp(&LoanType::LineOfCredit);
        let loan = Loan::new_line_of_credit(0, amount, rate);
        let id: u32 = self.player.peek_next_loan_id();
        self.player.add_loan(loan);
        Ok(id)
    }

    /// Takes a term loan of 7, 14 or 30 days: the whole balance comes due at
    /// the end, with a rate discount for longer terms. Returns the new
    /// loan's id.
    pub fn take_term_loan(&mut self, amount: u64, days: u32) -> (r: Result<u32, CommandError>)
        requires
            old(self).wf(),
        ensures
            final(self).wf(),
            match r {
                Err(e) => *final(self) == *old(self) && (spec_loan_validation(
                    old(self).player,
                    amount,
                ) == Some(e) || spec_loan_validation(old(self).player, amount) is None && e
                    == CommandError::InvalidTermDays && days != 7 && days != 14 && days != 30),
                Ok(id) => {
                    let rate = spec_term_rate_bp(
                        old(self).market.economic_state.spec_interest_rate_bp(),
                        days,
                    );
                    &&& spec_loan_validation(old(self).player, amount) is None
                    &&& (days == 7 || days == 14 || days == 30)
                    &&& id == old(self).player.next_loan_id
                    &&& final(self).player.loans@ == old(self).player.loans@.push(
                        Loan {
                            id,
                            loan_type: LoanType::TermLoan,
                            principal: amount,
                            balance: amount,
                            interest_rate_bp: rate as u32,
                            days_remaining: Some(days),
                            daily_payment: 0u64,
                        },
                    )
                    &&& final(self).player.cash == crate::money::clamp_cash(
                        old(self).player.cash + amount,
                    )
                    &&& final(self).player.next_loan_id == old(self).player.next_loan_id + 1
                    &&& final(self).player.stores == old(self).player.stores
                    &&& final(self).player.factories == old(self).player.factories
                    &&& final(self).player.portfolio == old(self).player.portfolio
                    &&& final(self).market == old(self).market
                    &&& final(self).day == old(self).day
                },
            },
    {
        if let Err(e) = self.validate_loan_amount(amount) {
            return Err(e);
        }
        if !(days == 7 || days == 14 || days == 30) {
            return Err(CommandError::InvalidTermDays);
        }
        let base: u32 = self.market.get_loan_rate_bp(&LoanType::TermLoan);
        let rate: u32 = if days == 14 {
            if base > 150 {
                base - 50
            } else {
                100
            }
        } else if days == 30 {
            if base > 200 {
                base - 100
            } else {
                100
            }
        } else {
            base
        };
        let loan = Loan::new_term_loan(0, amount, rate, days);
        let id: u32 = self.player.peek_next_loan_id();
        self.player.add_loan(loan);
        Ok(id)
    }

    /// Pays down a loan by hand; the full amount must be covered by cash.
    /// Overpayment beyond the balance is capped. Returns the amount paid.
    pub fn make_loan_payment(&mut self, loan_id: u32, amount: u64) -> (r: Result<
        u64,
        CommandError,
    >)
        requires
            old(self).wf(),
        ensures
            final(self).wf(),
            ({
                let idx = crate::player::spec_loan_index(old(self).player.loans@, loan_id);
                match r {
                    Err(e) => {
                        &&& *final(self) == *old(self)
                        &&& (e == CommandError::PaymentNotPositive && amount == 0 || amount > 0 && e
                            == (CommandError::NotEnoughCash { needed: amount, have: old(self).player.cash })
                            && old(self).player.cash < amount || amount > 0 && old(self).player.cash >= amount && e == CommandError::LoanNotFound && idx < 0)
                    },
                    Ok(paid) => {
                        let lo = old(self).player.loans@[idx];
                        &&& amount > 0
                        &&& old(self).player.cash >= amount
                        &&& idx >= 0
                        &&& paid == if amount as int <= lo.balance {
                            amount as int
                        } else {
                            lo.balance as int
                        }
                        &&& final(self).player.loans@ == old(self).player.loans@.update(
                            idx,
                            Loan { balance: (lo.balance - paid) as u64, ..lo },
                        )
                        &&& final(self).player.cash == old(self).player.cash - paid
                        &&& final(self).player.stores == old(self).player.stores
                        &&& final(self).player.factories == old(self).player.factories
                        &&& final(self).player.portfolio == old(self).player.portfolio
                        &&& final(self).market == old(self).market
                        &&& final(self).day == old(self).day
                    },
                }
            }),
    {
        if amount == 0 {
            return Err(CommandError::PaymentNotPositive);
        }
        if self.player.cash < 0 || (self.player.cash as u64) < amount {
            return Err(CommandError::NotEnoughCash { needed: amount, have: self.player.cash });
        }
        match self.player.make_loan_payment(loan_id, amount) {
            Some(paid) => Ok(paid),
            None => Err(CommandError::LoanNotFound),
        }
    }

    /// Buys shares of a listed stock at today's price; returns the cost.
    pub fn buy_stock(&mut self, stock_id: u32, shares: u64) -> (r: Result<u64, CommandError>)
        requires
            old(self).wf(),
        ensures
            final(self).wf(),
            ({
                let listed = crate::stock::spec_get_stock(old(self).stock_market.stocks@, stock_id);
                let held = crate::player::spec_holding(old(self).player.portfolio@, stock_id);
                let held_shares = match held {
                    Some(h) => h.shares as int,
                    None => 0,
                };
                match r {
                    Err(e) => {
                        &&& *final(self) == *old(self)
                        &&& (e == CommandError::StockNotFound && listed is None || (listed matches
                            Some(st) && (e == CommandError::QuantityZero && shares == 0 || e
                            == CommandError::StorageLimitExceeded && shares > 0 && held_shares
                            + shares > QTY_CAP || e == (CommandError::NotEnoughCash {
                            needed: cap_amount(st.price * shares) as u64,
                            have: old(self).player.cash,
                        }) && shares > 0 && held_shares + shares <= QTY_CAP && st.price * shares
                            > old(self).player.cash)))
                    },
                    Ok(cost) => {
                        let price = listed.unwrap().price;
                        &&& listed is Some
                        &&& shares > 0
                        &&& held_shares + shares <= QTY_CAP
                        &&& cost == price * shares
                        &&& cost <= old(self).player.cash
                        &&& final(self).player.cash == old(self).player.cash - cost
                        &&& final(self).player.stores == old(self).player.stores
                        &&& final(self).player.factories == old(self).player.factories
                        &&& final(self).player.loans == old(self).player.loans
                        &&& final(self).stock_market == old(self).stock_market
                        &&& final(self).market == old(self).market
                        &&& final(self).day == old(self).day
                    },
                }
            }),
    {
        let price: u64 = match self.stock_market.get_stock(stock_id) {
            Some(st) => {
                proof {
                    let s = crate::stock::spec_get_stock(self.stock_market.stocks@, stock_id);
                }
                st.price
            },
            None => {
                return Err(CommandError::StockNotFound);
            },
        };
        proof {
            let i = choose|i: int|
                0 <= i < self.stock_market.stocks@.len() && self.stock_market.stocks@[i]
                    == crate::stock::spec_get_stock(
                    self.stock_market.stocks@,
                    stock_id,
                ).unwrap();
        }
        match self.player.buy_stock(stock_id, shares, price) {
            Ok(_) => {
                proof {
                    assert(price * shares <= old(self).player.cash);
                }
                let cost: u64 = crate::money::mul_price_qty(price, shares);
                Ok(cost)
            },
            Err(e) => Err(e),
        }
    }

    /// Sells shares of a listed stock at today's price; returns the
    /// proceeds.
    pub fn sell_stock(&mut self, stock_id: u32, shares: u64) -> (r: Result<u64, CommandError>)
        requires
            old(self).wf(),
        ensures
            final(self).wf(),
            ({
                let listed = crate::stock::spec_get_stock(old(self).stock_market.stocks@, stock_id);
                let held = crate::player::spec_holding(old(self).player.portfolio@, stock_id);
                match r {
                    Err(e) => {
                        &&& *final(self) == *old(self)
                        &&& (e == CommandError::StockNotFound && listed is None || listed is Some
                            && (e == CommandError::NoHolding && held is None || (held matches Some(
                            h,
                        ) && e == (CommandError::NotEnoughShares {
                            owned: h.shares,
                            requested: shares,
                        }) && shares > h.shares)))
                    },
                    Ok(proceeds) => {
                        let price = listed.unwrap().price;
                        &&& listed is Some
                        &&& held is Some
                        &&& shares <= held.unwrap().shares
                        &&& proceeds == cap_amount(price * shares)
                        &&& final(self).player.cash == crate::money::clamp_cash(
                            old(self).player.cash + proceeds,
                        )
                        &&& final(self).player.stores == old(self).player.stores
                        &&& final(self).player.factories == old(self).player.factories
                        &&& final(self).player.loans == old(self).player.loans
                        &&& final(self).stock_market == old(self).stock_market
                        &&& final(self).market == old(self).market
                        &&& final(self).day == old(self).day
                    },
                }
            }),
    {
        let price: u64 = match self.stock_market.get_stock(stock_id) {
            Some(st) => st.price,
            None => {
                return Err(CommandError::StockNotFound);
            },
        };
        proof {
            let i = choose|i: int|
                0 <= i < self.stock_market.stocks@.len() && self.stock_market.stocks@[i]
                    == crate::stock::spec_get_stock(
                    self.stock_market.stocks@,
                    stock_id,
                ).unwrap();
        }
        match self.player.sell_stock(stock_id, shares, price) {
            Ok(proceeds) => Ok(proceeds),
            Err(e) => Err(e),
        }
    }
}

/// The saturation bound of the markup accumulators, far beyond any
/// reachable scale.
pub open spec fn sat_markup(x: int) -> int {
    if x > 1_000_000_000_000_000_000_000_000_000 {
        1_000_000_000_000_000_000_000_000_000
    } else if x < -1_000_000_000_000_000_000_000_000_000 {
        -1_000_000_000_000_000_000_000_000_000
    } else {
        x
    }
}

/// Folds one inventory into a running (markup total, item count) pair;
/// items without a catalog product are skipped, and the accumulators
/// saturate far beyond any reachable scale.
pub open spec fn spec_inv_markup_acc(
    inv: Seq<crate::store::InventoryItem>,
    products: Seq<Product>,
    acc: (int, int),
) -> (int, int)
    decreases inv.len(),
{
    if inv.len() == 0 {
        acc
    } else {
        let rest = spec_inv_markup_acc(inv.drop_last(), products, acc);
        match spec_get_product(products, inv.last().product_id) {
            Some(p) => (
                sat_markup(
                    rest.0 + spec_markup_milli_pct(
                        p.base_price as int,
                        inv.last().retail_price as int,
                    ),
                ),
                if rest.1 < 1_000_000_000_000_000_000_000_000_000 {
                    rest.1 + 1
                } else {
                    rest.1
                },
            ),
            None => rest,
        }
    }
}

/// Folds every store's inventory into the running markup statistics.
pub open spec fn spec_stores_markup_acc(
    stores: Seq<Store>,
    products: Seq<Product>,
    acc: (int, int),
) -> (int, int)
    decreases stores.len(),
{
    if stores.len() == 0 {
        acc
    } else {
        spec_inv_markup_acc(
            stores.last().inventory@,
            products,
            spec_stores_markup_acc(stores.drop_last(), products, acc),
        )
    }
}

/// The player's average markup over every stocked item, in milli-percent,
/// clamped into a safe range; one half (50%) when nothing is stocked.
pub open spec fn spec_avg_markup(stores: Seq<Store>, products: Seq<Product>) -> int {
    let stats = spec_stores_markup_acc(stores, products, (0, 0));
    if stats.1 > 0 {
        let avg = crate::money::div_trunc(stats.0, stats.1);
        if avg > 1_000_000_000_000_000_000 {
            1_000_000_000_000_000_000
        } else if avg < -1_000_000_000_000_000_000 {
            -1_000_000_000_000_000_000
        } else {
            avg
        }
    } else {
        50_000
    }
}

/// A single item's markup is bounded by the money cap scale.
proof fn lemma_markup_bound(w: int, r: int)
    requires
        1 <= w,
        0 <= r <= MONEY_CAP,
    ensures
        -100_000 <= spec_markup_milli_pct(w, r) <= MONEY_CAP * 100_000,
{
    if r >= w {
        assert((r - w) * 100_000 / w <= (r - w) * 100_000) by (nonlinear_arith)
            requires
                1 <= w,
                0 <= (r - w) * 100_000,
        ;
        assert(0 <= (r - w) * 100_000 <= MONEY_CAP * 100_000) by (nonlinear_arith)
            requires
                0 <= r - w <= MONEY_CAP,
        ;
        assert((r - w) * 100_000 / w >= 0) by (nonlinear_arith)
            requires
                1 <= w,
                0 <= (r - w) * 100_000,
        ;
    } else {
        assert((w - r) * 100_000 / w <= 100_000) by (nonlinear_arith)
            requires
                1 <= w,
                0 <= w - r <= w,
        ;
        assert((w - r) * 100_000 / w >= 0) by (nonlinear_arith)
            requires
                1 <= w,
                0 <= (w - r) * 100_000,
        ;
    }
}

/// A found catalog product is a catalog entry, hence valid.
proof fn lemma_get_product_wf(s: Seq<Product>, product_id: u32)
    requires
        forall|i: int| 0 <= i < s.len() ==> (#[trigger] s[i]).wf(),
        spec_get_product(s, product_id) is Some,
    ensures
        spec_get_product(s, product_id).unwrap().wf(),
    decreases s.len(),
{
    if s.len() > 0 && s[0].id != product_id {
        assert(forall|i: int|
            0 <= i < s.drop_first().len() ==> (#[trigger] s.drop_first()[i]).wf()) by {
            assert(forall|i: int|
                0 <= i < s.drop_first().len() ==> s.drop_first()[i] == s[i + 1]);
        }
        lemma_get_product_wf(s.drop_first(), product_id);
    }
}

impl GameState {
    /// Averages the markup over every stocked item in every store, in
    /// milli-percent; one half when nothing is stocked.
    fn calculate_average_markup(&self) -> (r: i64)
        requires
            self.wf(),
        ensures
            r == spec_avg_markup(self.player.stores@, self.products@),
    {
        let ghost stores = self.player.stores@;
        let ghost products = self.products@;
        let mut total: i128 = 0;
        let mut count: i128 = 0;
        let mut si: usize = 0;
        while si < self.player.stores.len()
            invariant
                si <= stores.len(),
                self.wf(),
                stores == self.player.stores@,
                products == self.products@,
                (total as int, count as int) == spec_stores_markup_acc(
                    stores.take(si as int),
                    products,
                    (0int, 0int),
                ),
                -1_000_000_000_000_000_000_000_000_000 <= total
                    <= 1_000_000_000_000_000_000_000_000_000,
                0 <= count <= 1_000_000_000_000_000_000_000_000_000,
            decreases stores.len() - si,
        {
            proof {
                assert(stores.take(si as int + 1).drop_last() =~= stores.take(si as int));
                assert(stores.take(si as int + 1).last() == stores[si as int]);
            }
            let ghost inv = stores[si as int].inventory@;
            let ghost acc0 = (total as int, count as int);
            let mut k: usize = 0;
            while k < self.player.stores[si].inventory.len()
                invariant
                    si < stores.len(),
                    k <= inv.len(),
                    self.wf(),
                    stores == self.player.stores@,
                    products == self.products@,
                    inv == stores[si as int].inventory@,
                    (total as int, count as int) == spec_inv_markup_acc(
                        inv.take(k as int),
                        products,
                        acc0,
                    ),
                    -1_000_000_000_000_000_000_000_000_000 <= acc0.0
                        <= 1_000_000_000_000_000_000_000_000_000,
                    0 <= acc0.1 <= 1_000_000_000_000_000_000_000_000_000,
                    -1_000_000_000_000_000_000_000_000_000 <= total
                        <= 1_000_000_000_000_000_000_000_000_000,
                    0 <= count <= 1_000_000_000_000_000_000_000_000_000,
                decreases inv.len() - k,
            {
                proof {
                    assert(inv.take(k as int + 1).drop_last() =~= inv.take(k as int));
                    assert(inv.take(k as int + 1).last() == inv[k as int]);
                }
                let item = self.player.stores[si].inventory[k];
                match self.find_product_index(item.product_id) {
                    Some(pi) => {
                        proof {
                            lemma_markup_bound(
                                self.products@[pi as int].base_price as int,
                                item.retail_price as int,
                            );
                        }
                        let m: i64 = Market::calculate_markup(
                            self.products[pi].base_price,
                            item.retail_price,
                        );
                        let t: i128 = total + m as i128;
                        total = if t > 1_000_000_000_000_000_000_000_000_000i128 {
                            1_000_000_000_000_000_000_000_000_000i128
                        } else if t < -1_000_000_000_000_000_000_000_000_000i128 {
                            -1_000_000_000_000_000_000_000_000_000i128
                        } else {
                            t
                        };
                        if count < 1_000_000_000_000_000_000_000_000_000i128 {
                            count = count + 1;
                        }
                    },
                    None => {},
                }
                k = k + 1;
            }
            proof {
                assert(inv.take(inv.len() as int) =~= inv);
            }
            si = si + 1;
        }
        proof {
            assert(stores.take(stores.len() as int) =~= stores);
        }
        if count > 0 {
            let avg: i128 = if total >= 0 {
                total / count
            } else {
                -((-total) / count)
            };
            if avg > 1_000_000_000_000_000_000i128 {
                1_000_000_000_000_000_000i64
            } else if avg < -1_000_000_000_000_000_000i128 {
                -1_000_000_000_000_000_000i64
            } else {
                avg as i64
            }
        } else {
            50_000
        }
    }

    /// Starts one batch of a recipe at the selected factory.
    pub fn start_production(&mut self, recipe_id: u32) -> (r: Result<(), CommandError>)
        requires
            old(self).wf(),
        ensures
            final(self).wf(),
            ({
                let rec = spec_get_recipe(old(self).recipes@, recipe_id);
                match r {
                    Err(e) => {
                        &&& *final(self) == *old(self)
                        &&& (e == CommandError::NoFactorySelected && old(self).current_factory
                            is None || old(self).current_factory is Some && e
                            == CommandError::RecipeNotFound && rec is None || ({
                            let f0 = old(self).player.factories@[old(self).current_factory.unwrap() as int];
                            old(self).current_factory is Some && rec is Some && (e
                                == CommandError::NoProductionSlots && f0.production_queue@.len()
                                == f0.spec_production_slots() || e
                                == CommandError::InsufficientRawMaterials
                                && f0.production_queue@.len() < f0.spec_production_slots()
                                && !crate::factory::spec_has_ingredients(
                                f0.raw_materials@,
                                rec.unwrap().ingredients@,
                            ))
                        }))
                    },
                    Ok(_) => {
                        let fi = old(self).current_factory.unwrap() as int;
                        let f0 = old(self).player.factories@[fi];
                        let f1 = final(self).player.factories@[fi];
                        &&& old(self).current_factory is Some
                        &&& rec is Some
                        &&& f0.production_queue@.len() < f0.spec_production_slots()
                        &&& crate::factory::spec_has_ingredients(
                            f0.raw_materials@,
                            rec.unwrap().ingredients@,
                        )
                        &&& f1.production_queue@.len() == f0.production_queue@.len() + 1
                        &&& f1.production_queue@.last() == crate::factory::spec_job_of(
                            rec.unwrap(),
                        )
                        &&& forall|p: u32|
                            #[trigger] crate::ledger::ledger_qty(f1.raw_materials@, p)
                                == crate::ledger::ledger_qty(f0.raw_materials@, p)
                                - crate::factory::spec_need(rec.unwrap().ingredients@, p)
                        &&& forall|i: int|
                            0 <= i < old(self).player.factories@.len() && i != fi ==> final(self).player.factories@[i] == old(self).player.factories@[i]
                        &&& final(self).player.stores == old(self).player.stores
                        &&& final(self).player.cash == old(self).player.cash
                        &&& final(self).player.loans == old(self).player.loans
                        &&& final(self).market == old(self).market
                        &&& final(self).day == old(self).day
                    },
                }
            }),
    {
        let fi: usize = match self.current_factory {
            Some(i) => i,
            None => {
                return Err(CommandError::NoFactorySelected);
            },
        };
        let ri: usize = match self.find_recipe_index(recipe_id) {
            Some(i) => i,
            None => {
                return Err(CommandError::RecipeNotFound);
            },
        };
        if self.player.factories[fi].available_slots() == 0 {
            return Err(CommandError::NoProductionSlots);
        }
        if !self.player.factories[fi].has_ingredients(&self.recipes[ri]) {
            return Err(CommandError::InsufficientRawMaterials);
        }
        let recipe = &self.recipes[ri];
        match factory_start_at(&mut self.player.factories, fi, recipe) {
            Ok(_) => Ok(()),
            Err(e) => {
                proof {
                    assert(false);
                }
                Err(e)
            },
        }
    }

    /// Starts up to the asked number of batches of a recipe at the selected
    /// factory; free slots and raw materials both limit the count. Returns
    /// how many batches started.
    pub fn start_production_batch(&mut self, recipe_id: u32, quantity: u32) -> (r: Result<
        u32,
        CommandError,
    >)
        requires
            old(self).wf(),
        ensures
            final(self).wf(),
            ({
                let rec = spec_get_recipe(old(self).recipes@, recipe_id);
                match r {
                    Err(e) => {
                        &&& *final(self) == *old(self)
                        &&& (e == CommandError::NoFactorySelected && old(self).current_factory
                            is None || old(self).current_factory is Some && e
                            == CommandError::RecipeNotFound && rec is None || ({
                            let f0 = old(self).player.factories@[old(self).current_factory.unwrap() as int];
                            old(self).current_factory is Some && rec is Some && (e
                                == CommandError::QuantityZero && quantity == 0 || quantity > 0 && e
                                == CommandError::NoProductionSlots && f0.production_queue@.len()
                                == f0.spec_production_slots() || quantity > 0 && e
                                == CommandError::InsufficientRawMaterials
                                && f0.production_queue@.len() < f0.spec_production_slots()
                                && f0.spec_max_producible(rec.unwrap()) == 0)
                        }))
                    },
                    Ok(n) => {
                        let fi = old(self).current_factory.unwrap() as int;
                        let f0 = old(self).player.factories@[fi];
                        let f1 = final(self).player.factories@[fi];
                        let maxp = f0.spec_max_producible(rec.unwrap());
                        &&& old(self).current_factory is Some
                        &&& rec is Some
                        &&& quantity > 0
                        &&& maxp > 0
                        &&& n == if quantity as int <= maxp {
                            quantity as int
                        } else {
                            maxp
                        }
                        &&& f1.production_queue@.len() == f0.production_queue@.len() + n as int
                        &&& forall|i: int|
                            f0.production_queue@.len() <= i < f1.production_queue@.len()
                                ==> f1.production_queue@[i] == crate::factory::spec_job_of(
                                rec.unwrap(),
                            )
                        &&& forall|p: u32|
                            #[trigger] crate::ledger::ledger_qty(f1.raw_materials@, p)
                                == crate::ledger::ledger_qty(f0.raw_materials@, p) - n
                                * crate::factory::spec_need(rec.unwrap().ingredients@, p)
                        &&& forall|i: int|
                            0 <= i < old(self).player.factories@.len() && i != fi ==> final(self).player.factories@[i] == old(self).player.factories@[i]
                        &&& final(self).player.stores == old(self).player.stores
                        &&& final(self).player.cash == old(self).player.cash
                        &&& final(self).player.loans == old(self).player.loans
                        &&& final(self).market == old(self).market
                        &&& final(self).day == old(self).day
                    },
                }
            }),
    {
        let fi: usize = match self.current_factory {
            Some(i) => i,
            None => {
                return Err(CommandError::NoFactorySelected);
            },
        };
        let ri: usize = match self.find_recipe_index(recipe_id) {
            Some(i) => i,
            None => {
                return Err(CommandError::RecipeNotFound);
            },
        };
        if quantity == 0 {
            return Err(CommandError::QuantityZero);
        }
        if self.player.factories[fi].max_producible(&self.recipes[ri]) == 0 {
            if self.player.factories[fi].available_slots() == 0 {
                return Err(CommandError::NoProductionSlots);
            } else {
                return Err(CommandError::InsufficientRawMaterials);
            }
        }
        let recipe = &self.recipes[ri];
        match factory_start_batch_at(&mut self.player.factories, fi, recipe, quantity) {
            Ok(n) => Ok(n),
            Err(e) => {
                proof {
                    assert(false);
                }
                Err(e)
            },
        }
    }

    /// Returns how many batches of a recipe the selected factory could
    /// start right now.
    pub fn max_producible(&self, recipe_id: u32) -> (r: Option<u64>)
        requires
            self.wf(),
        ensures
            match r {
                Some(n) => self.current_factory is Some && spec_get_recipe(
                    self.recipes@,
                    recipe_id,
                ) is Some && n == self.player.factories@[
                    self.current_factory.unwrap() as int
                ].spec_max_producible(spec_get_recipe(self.recipes@, recipe_id).unwrap()),
                None => self.current_factory is None || spec_get_recipe(self.recipes@, recipe_id)
                    is None,
            },
    {
        let fi: usize = match self.current_factory {
            Some(i) => i,
            None => {
                return None;
            },
        };
        let ri: usize = match self.find_recipe_index(recipe_id) {
            Some(i) => i,
            None => {
                return None;
            },
        };
        Some(self.player.factories[fi].max_producible(&self.recipes[ri]))
    }

    /// Moves finished goods from the selected factory to a connected store,
    /// pricing new arrivals at the default markup over the product's base
    /// price. Returns the quantity actually moved.
    pub fn transfer_to_store(&mut self, product_id: u32, quantity: u32, store_idx: usize) -> (r:
        Result<u64, CommandError>)
        requires
            old(self).wf(),
        ensures
            final(self).wf(),
            r matches Err(_) ==> *final(self) == *old(self),
            ({
                let prod = spec_get_product(old(self).products@, product_id);
                match r {
                    Err(e) => {
                        &&& (e == CommandError::QuantityZero && quantity == 0 || quantity > 0 && (e
                            == CommandError::NoFactorySelected && old(self).current_factory
                            is None || old(self).current_factory is Some && e
                            == CommandError::InvalidStoreIndex && store_idx >= old(self).player.stores@.len() || ({
                            let fi = old(self).current_factory.unwrap() as int;
                            let f0 = old(self).player.factories@[fi];
                            let sid = old(self).player.stores@[store_idx as int].id;
                            let avail = crate::ledger::ledger_qty(f0.finished_goods@, product_id);
                            let inv0 = old(self).player.stores@[store_idx as int].inventory@;
                            old(self).current_factory is Some && store_idx < old(self).player.stores@.len() && (e == CommandError::NotConnectedToStore
                                && !f0.connected_stores@.contains(sid) || f0.connected_stores@.contains(
                                sid,
                            ) && (e == CommandError::ProductNotFound && prod is None || prod is Some
                                && (e == CommandError::NoFinishedGoods && avail == 0 || e
                                == CommandError::StorageLimitExceeded && avail > 0 && inv_qty(
                                inv0,
                                product_id,
                            ) + (if quantity as int <= avail {
                                quantity as int
                            } else {
                                avail
                            }) > QTY_CAP)))
                        })))
                    },
                    Ok(n) => {
                        let fi = old(self).current_factory.unwrap() as int;
                        let f0 = old(self).player.factories@[fi];
                        let f1 = final(self).player.factories@[fi];
                        let inv0 = old(self).player.stores@[store_idx as int].inventory@;
                        let inv1 = final(self).player.stores@[store_idx as int].inventory@;
                        let avail = crate::ledger::ledger_qty(f0.finished_goods@, product_id);
                        let retail = spec_suggested_retail(
                            prod.unwrap().base_price as int,
                            50_000,
                        );
                        &&& quantity > 0
                        &&& inv_qty(inv0, product_id) + n <= QTY_CAP
                        &&& old(self).current_factory is Some
                        &&& store_idx < old(self).player.stores@.len()
                        &&& prod is Some
                        &&& avail > 0
                        &&& n == if quantity as int <= avail {
                            quantity as int
                        } else {
                            avail
                        }
                        &&& crate::ledger::ledger_qty(f1.finished_goods@, product_id) == avail - n
                        &&& inv_qty(inv1, product_id) == inv_qty(inv0, product_id) + n
                        &&& inv_price(inv1, product_id) == if inv_has(inv0, product_id) {
                            inv_price(inv0, product_id)
                        } else {
                            Some(retail as u64)
                        }
                        &&& forall|p: u32|
                            p != product_id ==> #[trigger] crate::ledger::ledger_qty(
                                f1.finished_goods@,
                                p,
                            ) == crate::ledger::ledger_qty(f0.finished_goods@, p)
                        &&& forall|p: u32|
                            p != product_id ==> #[trigger] inv_qty(inv1, p) == inv_qty(inv0, p)
                        &&& forall|i: int|
                            0 <= i < old(self).player.factories@.len() && i != fi ==> final(self).player.factories@[i] == old(self).player.factories@[i]
                        &&& forall|i: int|
                            0 <= i < old(self).player.stores@.len() && i != store_idx as int
                                ==> final(self).player.stores@[i] == old(self).player.stores@[i]
                        &&& final(self).player.cash == old(self).player.cash
                        &&& final(self).player.loans == old(self).player.loans
                        &&& final(self).market == old(self).market
                        &&& final(self).day == old(self).day
                    },
                }
            }),
    {
        if quantity == 0 {
            return Err(CommandError::QuantityZero);
        }
        let fi: usize = match self.current_factory {
            Some(i) => i,
            None => {
                return Err(CommandError::NoFactorySelected);
            },
        };
        if store_idx >= self.player.stores.len() {
            return Err(CommandError::InvalidStoreIndex);
        }
        let store_id: u32 = self.player.stores[store_idx].id;
        if !self.player.factories[fi].is_connected_to(store_id) {
            return Err(CommandError::NotConnectedToStore);
        }
        let pi: usize = match self.find_product_index(product_id) {
            Some(i) => i,
            None => {
                return Err(CommandError::ProductNotFound);
            },
        };
        let retail: u64 = Market::suggest_retail_price(
            self.products[pi].base_price,
            DEFAULT_MARKUP_MILLI_PCT,
        );
        let available: u64 = self.player.factories[fi].get_finished_good(product_id);
        if available == 0 {
            return Err(CommandError::NoFinishedGoods);
        }
        let actual: u64 = if quantity as u64 <= available {
            quantity as u64
        } else {
            available
        };
        let have: u64 = self.player.stores[store_idx].get_quantity(product_id);
        if have > QTY_CAP - actual {
            return Err(CommandError::StorageLimitExceeded);
        }
        let taken = factory_take_goods_at(&mut self.player.factories, fi, product_id, actual);
        match taken {
            Ok(n) => {
                store_add_inventory_at(&mut self.player.stores, store_idx, product_id, n, retail);
                Ok(n)
            },
            Err(e) => {
                proof {
                    assert(false);
                }
                Err(e)
            },
        }
    }

    /// Connects the selected factory to a store.
    pub fn connect_factory_to_store(&mut self, store_idx: usize) -> (r: Result<(), CommandError>)
        requires
            old(self).wf(),
        ensures
            final(self).wf(),
            r matches Err(e) ==> *final(self) == *old(self) && (e
                == CommandError::NoFactorySelected && old(self).current_factory is None || old(self).current_factory is Some && e == CommandError::InvalidStoreIndex && store_idx >= old(self).player.stores@.len()),
            r matches Ok(_) ==> {
                let fi = old(self).current_factory.unwrap() as int;
                let sid = old(self).player.stores@[store_idx as int].id;
                let f0 = old(self).player.factories@[fi];
                &&& old(self).current_factory is Some
                &&& store_idx < old(self).player.stores@.len()
                &&& final(self).player.factories@[fi].connected_stores@
                    == if f0.connected_stores@.contains(sid) {
                    f0.connected_stores@
                } else {
                    f0.connected_stores@.push(sid)
                }
                &&& final(self).player.factories@[fi] == (Factory {
                    connected_stores: final(self).player.factories@[fi].connected_stores,
                    ..f0
                })
                &&& forall|i: int|
                    0 <= i < old(self).player.factories@.len() && i != fi ==> final(self).player.factories@[i] == old(self).player.factories@[i]
                &&& final(self).player.stores == old(self).player.stores
                &&& final(self).player.cash == old(self).player.cash
                &&& final(self).day == old(self).day
            },
    {
        let fi: usize = match self.current_factory {
            Some(i) => i,
            None => {
                return Err(CommandError::NoFactorySelected);
            },
        };
        if store_idx >= self.player.stores.len() {
            return Err(CommandError::InvalidStoreIndex);
        }
        let store_id: u32 = self.player.stores[store_idx].id;
        factory_connect_at(&mut self.player.factories, fi, store_id);
        Ok(())
    }

    /// Disconnects the selected factory from a store.
    pub fn disconnect_factory_from_store(&mut self, store_idx: usize) -> (r: Result<
        (),
        CommandError,
    >)
        requires
            old(self).wf(),
        ensures
            final(self).wf(),
            r matches Err(e) ==> *final(self) == *old(self) && (e
                == CommandError::NoFactorySelected && old(self).current_factory is None || old(self).current_factory is Some && e == CommandError::InvalidStoreIndex && store_idx >= old(self).player.stores@.len()),
            r matches Ok(_) ==> {
                let fi = old(self).current_factory.unwrap() as int;
                let sid = old(self).player.stores@[store_idx as int].id;
                let f0 = old(self).player.factories@[fi];
                &&& old(self).current_factory is Some
                &&& store_idx < old(self).player.stores@.len()
                &&& !final(self).player.factories@[fi].connected_stores@.contains(sid)
                &&& forall|s: u32|
                    s != sid ==> (final(self).player.factories@[fi].connected_stores@.contains(s)
                        == f0.connected_stores@.contains(s))
                &&& final(self).player.factories@[fi] == (Factory {
                    connected_stores: final(self).player.factories@[fi].connected_stores,
                    ..f0
                })
                &&& forall|i: int|
                    0 <= i < old(self).player.factories@.len() && i != fi ==> final(self).player.factories@[i] == old(self).player.factories@[i]
                &&& final(self).player.stores == old(self).player.stores
                &&& final(self).player.cash == old(self).player.cash
                &&& final(self).day == old(self).day
            },
    {
        let fi: usize = match self.current_factory {
            Some(i) => i,
            None => {
                return Err(CommandError::NoFactorySelected);
            },
        };
        if store_idx >= self.player.stores.len() {
            return Err(CommandError::InvalidStoreIndex);
        }
        let store_id: u32 = self.player.stores[store_idx].id;
        factory_disconnect_at(&mut self.player.factories, fi, store_id);
        Ok(())
    }

    /// Flips the selected factory's auto-transfer switch; returns the new
    /// setting.
    pub fn toggle_factory_auto_transfer(&mut self) -> (r: Result<bool, CommandError>)
        requires
            old(self).wf(),
        ensures
            final(self).wf(),
            r matches Err(e) ==> *final(self) == *old(self) && e == CommandError::NoFactorySelected
                && old(self).current_factory is None,
            r matches Ok(b) ==> {
                let fi = old(self).current_factory.unwrap() as int;
                &&& old(self).current_factory is Some
                &&& b == !old(self).player.factories@[fi].auto_transfer
                &&& final(self).player.factories@[fi] == (Factory {
                    auto_transfer: b,
                    ..old(self).player.factories@[fi]
                })
                &&& forall|i: int|
                    0 <= i < old(self).player.factories@.len() && i != fi ==> final(self).player.factories@[i] == old(self).player.factories@[i]
                &&& final(self).player.stores == old(self).player.stores
                &&& final(self).player.cash == old(self).player.cash
                &&& final(self).day == old(self).day
            },
    {
        let fi: usize = match self.current_factory {
            Some(i) => i,
            None => {
                return Err(CommandError::NoFactorySelected);
            },
        };
        let b = factory_toggle_at(&mut self.player.factories, fi);
        Ok(b)
    }
}

/// The units one inventory line sells today: the sales formula on its price
/// and stock, under the day's market; nothing for an empty line or a
/// product missing from the catalog.
pub open spec fn spec_item_sold(
    item: crate::store::InventoryItem,
    products: Seq<Product>,
    market: Market,
    customers: int,
) -> int {
    match spec_get_product(products, item.product_id) {
        Some(p) => if item.quantity > 0 {
            crate::economy::spec_sales(
                p.base_price as int,
                item.retail_price as int,
                p.category.spec_demand_weight_milli(),
                market.economic_state.spec_sales_multiplier_milli(),
                market.day_seed,
                customers,
                item.quantity as int,
            )
        } else {
            0
        },
        None => 0,
    }
}

/// One store's revenue today: each line's capped takings, summed.
pub open spec fn spec_store_revenue(
    inv: Seq<crate::store::InventoryItem>,
    products: Seq<Product>,
    market: Market,
    customers: int,
) -> int
    decreases inv.len(),
{
    if inv.len() == 0 {
        0
    } else {
        spec_store_revenue(inv.drop_last(), products, market, customers) + cap_amount(
            inv.last().retail_price * spec_item_sold(inv.last(), products, market, customers),
        )
    }
}

/// One store's units sold today, summed over its lines.
pub open spec fn spec_store_units(
    inv: Seq<crate::store::InventoryItem>,
    products: Seq<Product>,
    market: Market,
    customers: int,
) -> int
    decreases inv.len(),
{
    if inv.len() == 0 {
        0
    } else {
        spec_store_units(inv.drop_last(), products, market, customers) + spec_item_sold(
            inv.last(),
            products,
            market,
            customers,
        )
    }
}

/// One store's sales report today: a line for every product that sold.
pub open spec fn spec_store_records(
    inv: Seq<crate::store::InventoryItem>,
    products: Seq<Product>,
    market: Market,
    customers: int,
) -> Seq<SaleRecord>
    decreases inv.len(),
{
    if inv.len() == 0 {
        Seq::empty()
    } else {
        let rest = spec_store_records(inv.drop_last(), products, market, customers);
        let sold = spec_item_sold(inv.last(), products, market, customers);
        if sold > 0 {
            rest.push(
                SaleRecord {
                    product_id: inv.last().product_id,
                    product_name: spec_get_product(products, inv.last().product_id).unwrap().name,
                    quantity: sold as u64,
                    revenue: cap_amount(inv.last().retail_price * sold) as u64,
                },
            )
        } else {
            rest
        }
    }
}

/// A product of nonnegative factors is nonnegative.
proof fn lemma_mul_nonneg(a: int, b: int)
    requires
        a >= 0,
        b >= 0,
    ensures
        a * b >= 0,
{
    assert(a * b >= 0) by (nonlinear_arith)
        requires
            a >= 0,
            b >= 0,
    ;
}

/// A line never sells more than it holds, and never a negative count.
pub proof fn lemma_item_sold_bounds(
    item: crate::store::InventoryItem,
    products: Seq<Product>,
    market: Market,
    customers: int,
)
    requires
        customers >= 0,
        products_wf(products),
    ensures
        0 <= spec_item_sold(item, products, market, customers) <= item.quantity,
{
    match spec_get_product(products, item.product_id) {
        Some(p) => {
            lemma_get_product_wf(products, item.product_id);
            if item.quantity > 0 {
                let pf = crate::economy::spec_price_factor_milli(
                    p.base_price as int,
                    item.retail_price as int,
                );
                assert(pf >= 0) by {
                    if item.retail_price >= p.base_price {
                        assert((item.retail_price - p.base_price) * 500 / (p.base_price as int)
                            >= 0) by (nonlinear_arith)
                            requires
                                p.base_price >= 1,
                                item.retail_price - p.base_price >= 0,
                        ;
                    } else {
                        assert((p.base_price - item.retail_price) * 500 / (p.base_price as int)
                            >= 0) by (nonlinear_arith)
                            requires
                                p.base_price >= 1,
                                p.base_price - item.retail_price >= 0,
                        ;
                    }
                }
                let w = p.category.spec_demand_weight_milli();
                let e = market.economic_state.spec_sales_multiplier_milli();
                lemma_mul_nonneg(customers, w);
                lemma_mul_nonneg(customers * w, e);
                lemma_mul_nonneg(customers * w * e, pf);
                lemma_mul_nonneg(
                    customers * w * e * pf,
                    crate::rand::spec_variance_milli(market.day_seed),
                );
                assert(customers * w * e * pf * crate::rand::spec_variance_milli(market.day_seed)
                    / 10_000_000_000_000 >= 0);
            }
        },
        None => {},
    }
}

/// Revenue is never negative.
pub proof fn lemma_store_revenue_nonneg(
    inv: Seq<crate::store::InventoryItem>,
    products: Seq<Product>,
    market: Market,
    customers: int,
)
    requires
        customers >= 0,
        products_wf(products),
    ensures
        spec_store_revenue(inv, products, market, customers) >= 0,
        spec_store_units(inv, products, market, customers) >= 0,
    decreases inv.len(),
{
    if inv.len() > 0 {
        lemma_store_revenue_nonneg(inv.drop_last(), products, market, customers);
        lemma_item_sold_bounds(inv.last(), products, market, customers);
        lemma_mul_nonneg(
            inv.last().retail_price as int,
            spec_item_sold(inv.last(), products, market, customers),
        );
    }
}

/// Shrinks one inventory line by a sold count.
fn sell_item_at(v: &mut Vec<Store>, si: usize, k: usize, sold: u64)
    requires
        si < old(v)@.len(),
        old(v)@[si as int].wf(),
        k < old(v)@[si as int].inventory@.len(),
        sold <= old(v)@[si as int].inventory@[k as int].quantity,
    ensures
        final(v)@.len() == old(v)@.len(),
        final(v)@[si as int].wf(),
        forall|j: int| 0 <= j < old(v)@.len() && j != si ==> final(v)@[j] == old(v)@[j],
        final(v)@[si as int].inventory@ == old(v)@[si as int].inventory@.update(
            k as int,
            crate::store::InventoryItem {
                quantity: (old(v)@[si as int].inventory@[k as int].quantity - sold) as u64,
                ..old(v)@[si as int].inventory@[k as int]
            },
        ),
        final(v)@[si as int].id == old(v)@[si as int].id,
        final(v)@[si as int].name == old(v)@[si as int].name,
        final(v)@[si as int].daily_customers == old(v)@[si as int].daily_customers,
        final(v)@[si as int].employees == old(v)@[si as int].employees,
        final(v)@[si as int].daily_rent == old(v)@[si as int].daily_rent,
{
    let st = &mut v[si];
    let item = st.inventory[k];
    let updated = crate::store::InventoryItem {
        product_id: item.product_id,
        quantity: item.quantity - sold,
        retail_price: item.retail_price,
    };
    st.inventory.set(k, updated);
    proof {
        assert forall|a: int, b: int|
            0 <= a < b < st.inventory@.len() implies (#[trigger] st.inventory@[a]).product_id != (
        #[trigger] st.inventory@[b]).product_id by {
            assert(old(v)@[si as int].inventory@[a].product_id == st.inventory@[a].product_id);
            assert(old(v)@[si as int].inventory@[b].product_id == st.inventory@[b].product_id);
        }
    }
}

impl GameState {
    /// Runs one store's daily retail sales: every stocked line sells by the
    /// market formula, stock falls, cash rises. Returns the store's capped
    /// revenue, units sold, and sales report.
    fn sell_store_at(&mut self, si: usize, customers: u64) -> (r: (u64, u64, Vec<SaleRecord>))
        requires
            old(self).wf(),
            si < old(self).player.stores@.len(),
        ensures
            final(self).wf(),
            ({
                let inv0 = old(self).player.stores@[si as int].inventory@;
                let products = old(self).products@;
                let market = old(self).market;
                &&& final(self).player.stores@.len() == old(self).player.stores@.len()
                &&& final(self).player.stores@[si as int].inventory@.len() == inv0.len()
                &&& forall|k: int|
                    0 <= k < inv0.len()
                        ==> final(self).player.stores@[si as int].inventory@[k]
                        == (crate::store::InventoryItem {
                        quantity: (inv0[k].quantity - spec_item_sold(
                            inv0[k],
                            products,
                            market,
                            customers as int,
                        )) as u64,
                        ..inv0[k]
                    })
                &&& forall|j: int|
                    0 <= j < old(self).player.stores@.len() && j != si ==> final(self).player.stores@[j] == old(self).player.stores@[j]
                &&& final(self).player.stores@[si as int].id == old(self).player.stores@[si as int].id
                &&& final(self).player.stores@[si as int].name == old(self).player.stores@[si as int].name
                &&& final(self).player.stores@[si as int].employees == old(self).player.stores@[si as int].employees
                &&& final(self).player.stores@[si as int].daily_rent == old(self).player.stores@[si as int].daily_rent
                &&& final(self).player.stores@[si as int].daily_customers == old(self).player.stores@[si as int].daily_customers
                &&& final(self).player.cash == crate::money::clamp_cash(
                    old(self).player.cash + spec_store_revenue(
                        inv0,
                        products,
                        market,
                        customers as int,
                    ),
                )
                &&& r.0 == cap_amount(
                    spec_store_revenue(inv0, products, market, customers as int),
                )
                &&& r.1 == crate::money::cap_qty(
                    spec_store_units(inv0, products, market, customers as int),
                )
                &&& r.2@ == spec_store_records(inv0, products, market, customers as int)
                &&& final(self).player.factories == old(self).player.factories
                &&& final(self).player.loans == old(self).player.loans
                &&& final(self).player.portfolio == old(self).player.portfolio
                &&& final(self).player.next_store_id == old(self).player.next_store_id
                &&& final(self).player.next_factory_id == old(self).player.next_factory_id
                &&& final(self).player.next_loan_id == old(self).player.next_loan_id
                &&& final(self).market == old(self).market
                &&& final(self).competitive_market == old(self).competitive_market
                &&& final(self).stock_market == old(self).stock_market
                &&& final(self).products == old(self).products
                &&& final(self).recipes == old(self).recipes
                &&& final(self).day == old(self).day
                &&& final(self).is_bankrupt == old(self).is_bankrupt
                &&& final(self).current_store == old(self).current_store
                &&& final(self).current_factory == old(self).current_factory
            }),
    {
        let ghost inv0 = self.player.stores@[si as int].inventory@;
        let ghost products = self.products@;
        let ghost market0 = self.market;
        let ghost cash0 = self.player.cash;
        let mut revenue: u64 = 0;
        let mut units: u64 = 0;
        let mut records: Vec<SaleRecord> = Vec::new();
        let len: usize = self.player.stores[si].inventory.len();
        let mut k: usize = 0;
        while k < len
            invariant
                k <= len,
                len == inv0.len(),
                old(self).wf(),
                si < old(self).player.stores@.len(),
                inv0 == old(self).player.stores@[si as int].inventory@,
                products == old(self).products@,
                market0 == old(self).market,
                cash0 == old(self).player.cash,
                self.wf(),
                self.player.stores@.len() == old(self).player.stores@.len(),
                self.player.stores@[si as int].inventory@.len() == inv0.len(),
                forall|j: int|
                    0 <= j < old(self).player.stores@.len() && j != si ==> self.player.stores@[j]
                        == old(self).player.stores@[j],
                forall|q: int|
                    0 <= q < k ==> self.player.stores@[si as int].inventory@[q]
                        == (crate::store::InventoryItem {
                        quantity: (inv0[q].quantity - spec_item_sold(
                            inv0[q],
                            products,
                            market0,
                            customers as int,
                        )) as u64,
                        ..inv0[q]
                    }),
                forall|q: int|
                    k <= q < inv0.len() ==> self.player.stores@[si as int].inventory@[q]
                        == inv0[q],
                self.player.stores@[si as int].id == old(self).player.stores@[si as int].id,
                self.player.stores@[si as int].name == old(self).player.stores@[si as int].name,
                self.player.stores@[si as int].employees == old(self).player.stores@[si as int].employees,
                self.player.stores@[si as int].daily_rent == old(self).player.stores@[si as int].daily_rent,
                self.player.stores@[si as int].daily_customers == old(self).player.stores@[si as int].daily_customers,
                self.player.cash == crate::money::clamp_cash(
                    cash0 + spec_store_revenue(
                        inv0.take(k as int),
                        products,
                        market0,
                        customers as int,
                    ),
                ),
                revenue == cap_amount(
                    spec_store_revenue(inv0.take(k as int), products, market0, customers as int),
                ),
                units == crate::money::cap_qty(
                    spec_store_units(inv0.take(k as int), products, market0, customers as int),
                ),
                records@ == spec_store_records(
                    inv0.take(k as int),
                    products,
                    market0,
                    customers as int,
                ),
                self.player.factories == old(self).player.factories,
                self.player.loans == old(self).player.loans,
                self.player.portfolio == old(self).player.portfolio,
                self.player.next_store_id == old(self).player.next_store_id,
                self.player.next_factory_id == old(self).player.next_factory_id,
                self.player.next_loan_id == old(self).player.next_loan_id,
                self.market == old(self).market,
                self.competitive_market == old(self).competitive_market,
                self.stock_market == old(self).stock_market,
                self.products == old(self).products,
                self.recipes == old(self).recipes,
                self.day == old(self).day,
                self.is_bankrupt == old(self).is_bankrupt,
                self.current_store == old(self).current_store,
                self.current_factory == old(self).current_factory,
            decreases len - k,
        {
            proof {
                assert(inv0.take(k as int + 1).drop_last() =~= inv0.take(k as int));
                assert(inv0.take(k as int + 1).last() == inv0[k as int]);
                lemma_item_sold_bounds(inv0[k as int], products, market0, customers as int);
                lemma_store_revenue_nonneg(
                    inv0.take(k as int),
                    products,
                    market0,
                    customers as int,
                );
                assert(inv0[k as int].retail_price * spec_item_sold(
                    inv0[k as int],
                    products,
                    market0,
                    customers as int,
                ) >= 0) by (nonlinear_arith)
                    requires
                        spec_item_sold(inv0[k as int], products, market0, customers as int) >= 0,
                ;
            }
            let item = self.player.stores[si].inventory[k];
            let mut sold: u64 = 0;
            let mut price_paid: u64 = 0;
            match self.find_product_index(item.product_id) {
                Some(pi) => {
                    if item.quantity > 0 {
                        sold = self.market.calculate_sales(
                            &self.products[pi],
                            item.retail_price,
                            item.quantity,
                            customers,
                        );
                    }
                    if sold > 0 {
                        sell_item_at(&mut self.player.stores, si, k, sold);
                        let rev: u64 = crate::money::mul_price_qty(item.retail_price, sold);
                        self.player.cash = crate::money::credit_cash(self.player.cash, rev);
                        revenue = crate::money::add_amount(revenue, rev);
                        units = crate::money::add_qty(units, sold);
                        let name: String = clone_product_name(&self.products, pi);
                        records.push(
                            SaleRecord {
                                product_id: item.product_id,
                                product_name: name,
                                quantity: sold,
                                revenue: rev,
                            },
                        );
                    }
                },
                None => {},
            }
            proof {
                if sold == 0 {
                    assert(spec_item_sold(inv0[k as int], products, market0, customers as int)
                        == 0);
                    assert(self.player.stores@[si as int].inventory@[k as int]
                        == inv0[k as int]);
                }
            }
            k = k + 1;
        }
        proof {
            assert(inv0.take(inv0.len() as int) =~= inv0);
        }
        (revenue, units, records)
    }
}

/// The (product id, quantity) pairs an auto-transfer moves: every
/// finished-goods line with stock whose product the catalog knows.
pub open spec fn spec_transfer_list(
    entries: Seq<crate::ledger::LedgerEntry>,
    products: Seq<Product>,
) -> Seq<(u32, u64)>
    decreases entries.len(),
{
    if entries.len() == 0 {
        Seq::empty()
    } else {
        let rest = spec_transfer_list(entries.drop_last(), products);
        if entries.last().quantity > 0 && spec_get_product(products, entries.last().product_id)
            is Some {
            rest.push((entries.last().product_id, entries.last().quantity))
        } else {
            rest
        }
    }
}

/// The log lines an auto-transfer writes, in ledger order.
pub open spec fn spec_transfer_records(
    entries: Seq<crate::ledger::LedgerEntry>,
    products: Seq<Product>,
    factory_name: String,
    store_name: String,
) -> Seq<TransferRecord>
    decreases entries.len(),
{
    if entries.len() == 0 {
        Seq::empty()
    } else {
        let rest = spec_transfer_records(entries.drop_last(), products, factory_name, store_name);
        if entries.last().quantity > 0 && spec_get_product(products, entries.last().product_id)
            is Some {
            rest.push(
                TransferRecord {
                    factory_name,
                    store_name,
                    product_name: spec_get_product(
                        products,
                        entries.last().product_id,
                    ).unwrap().name,
                    quantity: entries.last().quantity,
                },
            )
        } else {
            rest
        }
    }
}

/// The transfer list of a valid ledger pairs distinct products with their
/// stocked, catalogued quantities.
proof fn lemma_transfer_list_props(entries: Seq<crate::ledger::LedgerEntry>, products: Seq<Product>)
    requires
        crate::ledger::ledger_wf(entries),
    ensures
        ({
            let list = spec_transfer_list(entries, products);
            &&& forall|t: int|
                0 <= t < list.len() ==> exists|k: int|
                    0 <= k < entries.len() && (#[trigger] entries[k]).product_id == (
                    #[trigger] list[t]).0 && entries[k].quantity == list[t].1
            &&& forall|t: int|
                0 <= t < list.len() ==> (#[trigger] list[t]).1 > 0 && spec_get_product(
                    products,
                    list[t].0,
                ) is Some && list[t].1 <= QTY_CAP
            &&& forall|t: int, u: int|
                0 <= t < u < list.len() ==> (#[trigger] list[t]).0 != (#[trigger] list[u]).0
        }),
    decreases entries.len(),
{
    if entries.len() > 0 {
        assert(crate::ledger::ledger_wf(entries.drop_last())) by {
            assert(forall|a: int|
                0 <= a < entries.drop_last().len() ==> entries.drop_last()[a] == entries[a]);
        }
        lemma_transfer_list_props(entries.drop_last(), products);
        let rest = spec_transfer_list(entries.drop_last(), products);
        let list = spec_transfer_list(entries, products);
        if entries.last().quantity > 0 && spec_get_product(products, entries.last().product_id)
            is Some {
            assert forall|t: int| 0 <= t < list.len() implies exists|k: int|
                0 <= k < entries.len() && (#[trigger] entries[k]).product_id == (
                #[trigger] list[t]).0 && entries[k].quantity == list[t].1 by {
                if t < rest.len() {
                    assert(rest[t] == list[t]);
                    let k = choose|k: int|
                        0 <= k < entries.drop_last().len() && (
                        #[trigger] entries.drop_last()[k]).product_id == rest[t].0
                            && entries.drop_last()[k].quantity == rest[t].1;
                    assert(entries[k] == entries.drop_last()[k]);
                } else {
                    assert(entries[entries.len() - 1].product_id == list[t].0);
                }
            }
            assert forall|t: int, u: int| 0 <= t < u < list.len() implies (
            #[trigger] list[t]).0 != (#[trigger] list[u]).0 by {
                if u < rest.len() {
                    assert(rest[t] == list[t] && rest[u] == list[u]);
                } else {
                    assert(list[u].0 == entries.last().product_id);
                    assert(rest[t] == list[t]);
                    let k = choose|k: int|
                        0 <= k < entries.drop_last().len() && (
                        #[trigger] entries.drop_last()[k]).product_id == rest[t].0
                            && entries.drop_last()[k].quantity == rest[t].1;
                    assert(entries[k].product_id == list[t].0);
                    assert(entries[k].product_id != entries[entries.len() - 1].product_id);
                }
            }
        } else {
            assert forall|t: int| 0 <= t < list.len() implies exists|k: int|
                0 <= k < entries.len() && (#[trigger] entries[k]).product_id == (
                #[trigger] list[t]).0 && entries[k].quantity == list[t].1 by {
                assert(rest[t] == list[t]);
                let k = choose|k: int|
                    0 <= k < entries.drop_last().len() && (
                    #[trigger] entries.drop_last()[k]).product_id == rest[t].0
                        && entries.drop_last()[k].quantity == rest[t].1;
                assert(entries[k] == entries.drop_last()[k]);
            }
        }
    }
}

/// Advances production one day at the factory at an index.
fn factory_advance_at(v: &mut Vec<Factory>, i: usize) -> (r: Vec<ProductionResult>)
    requires
        i < old(v)@.len(),
        old(v)@[i as int].wf(),
    ensures
        final(v)@.len() == old(v)@.len(),
        final(v)@[i as int].wf(),
        forall|k: int| 0 <= k < old(v)@.len() && k != i ==> final(v)@[k] == old(v)@[k],
        ({
            let f0 = old(v)@[i as int];
            let f1 = final(v)@[i as int];
            &&& f1.production_queue@ == crate::factory::spec_advance_queue(f0.production_queue@)
            &&& r@ == crate::factory::spec_completed(f0.production_queue@)
            &&& forall|p: u32|
                #[trigger] crate::ledger::ledger_qty(f1.finished_goods@, p)
                    == crate::money::cap_qty(
                    crate::ledger::ledger_qty(f0.finished_goods@, p)
                        + crate::factory::spec_output_total(f0.production_queue@, p),
                )
            &&& f1.raw_materials == f0.raw_materials
            &&& f1.workers == f0.workers
            &&& f1.id == f0.id
            &&& f1.name == f0.name
            &&& f1.daily_rent == f0.daily_rent
            &&& f1.connected_stores == f0.connected_stores
            &&& f1.auto_transfer == f0.auto_transfer
        }),
{
    let f = &mut v[i];
    f.advance_production()
}

/// Replaces the finished-goods ledger of the factory at an index.
fn set_finished_goods_at(v: &mut Vec<Factory>, i: usize, goods: Vec<crate::ledger::LedgerEntry>)
    requires
        i < old(v)@.len(),
        old(v)@[i as int].wf(),
        crate::ledger::ledger_wf(goods@),
    ensures
        final(v)@.len() == old(v)@.len(),
        final(v)@[i as int].wf(),
        forall|k: int| 0 <= k < old(v)@.len() && k != i ==> final(v)@[k] == old(v)@[k],
        final(v)@[i as int] == (Factory { finished_goods: final(v)@[i as int].finished_goods, ..old(v)@[i as int] }),
        final(v)@[i as int].finished_goods@ == goods@,
{
    let f = &mut v[i];
    f.finished_goods = goods;
}

impl GameState {
    /// Ships every finished good the catalog knows from one factory to one
    /// store, pricing new arrivals at the default markup over the product's
    /// base price. Returns the transfer log.
    fn auto_transfer_factory(&mut self, fi: usize, si: usize) -> (r: Vec<TransferRecord>)
        requires
            old(self).wf(),
            fi < old(self).player.factories@.len(),
            si < old(self).player.stores@.len(),
        ensures
            final(self).wf(),
            ({
                let f0 = old(self).player.factories@[fi as int];
                let fin0 = f0.finished_goods@;
                let inv0 = old(self).player.stores@[si as int].inventory@;
                let products = old(self).products@;
                let list = spec_transfer_list(fin0, products);
                let fin1 = final(self).player.factories@[fi as int].finished_goods@;
                let inv1 = final(self).player.stores@[si as int].inventory@;
                &&& final(self).player.factories@.len() == old(self).player.factories@.len()
                &&& final(self).player.stores@.len() == old(self).player.stores@.len()
                &&& fin1.len() == fin0.len()
                &&& forall|k: int|
                    0 <= k < fin0.len() ==> fin1[k] == (crate::ledger::LedgerEntry {
                        product_id: fin0[k].product_id,
                        quantity: (if fin0[k].quantity > 0 && spec_get_product(
                            products,
                            fin0[k].product_id,
                        ) is Some {
                            0u64
                        } else {
                            fin0[k].quantity
                        }),
                    })
                &&& final(self).player.factories@[fi as int] == (Factory {
                    finished_goods: final(self).player.factories@[fi as int].finished_goods,
                    ..f0
                })
                &&& forall|t: int|
                    0 <= t < list.len() ==> #[trigger] inv_qty(inv1, list[t].0)
                        == crate::money::cap_qty(inv_qty(inv0, list[t].0) + list[t].1)
                &&& forall|t: int|
                    0 <= t < list.len() ==> #[trigger] inv_price(inv1, list[t].0) == (if inv_has(
                        inv0,
                        list[t].0,
                    ) {
                        inv_price(inv0, list[t].0)
                    } else {
                        Some(
                            spec_suggested_retail(
                                spec_get_product(products, list[t].0).unwrap().base_price as int,
                                50_000,
                            ) as u64,
                        )
                    })
                &&& forall|p: u32|
                    (forall|t: int| 0 <= t < list.len() ==> (#[trigger] list[t]).0 != p)
                        ==> #[trigger] inv_qty(inv1, p) == inv_qty(inv0, p) && inv_price(inv1, p)
                        == inv_price(inv0, p)
                &&& final(self).player.stores@[si as int] == (Store {
                    inventory: final(self).player.stores@[si as int].inventory,
                    ..old(self).player.stores@[si as int]
                })
                &&& r@ == spec_transfer_records(
                    fin0,
                    products,
                    f0.name,
                    old(self).player.stores@[si as int].name,
                )
                &&& forall|k: int|
                    0 <= k < old(self).player.factories@.len() && k != fi ==> final(self).player.factories@[k] == old(self).player.factories@[k]
                &&& forall|k: int|
                    0 <= k < old(self).player.stores@.len() && k != si ==> final(self).player.stores@[k] == old(self).player.stores@[k]
                &&& final(self).player.cash == old(self).player.cash
                &&& final(self).player.loans == old(self).player.loans
                &&& final(self).player.portfolio == old(self).player.portfolio
                &&& final(self).player.next_store_id == old(self).player.next_store_id
                &&& final(self).player.next_factory_id == old(self).player.next_factory_id
                &&& final(self).player.next_loan_id == old(self).player.next_loan_id
                &&& final(self).market == old(self).market
                &&& final(self).competitive_market == old(self).competitive_market
                &&& final(self).stock_market == old(self).stock_market
                &&& final(self).products == old(self).products
                &&& final(self).recipes == old(self).recipes
                &&& final(self).day == old(self).day
                &&& final(self).is_bankrupt == old(self).is_bankrupt
                &&& final(self).current_store == old(self).current_store
                &&& final(self).current_factory == old(self).current_factory
            }),
    {
        let ghost fin0 = self.player.factories@[fi as int].finished_goods@;
        let ghost inv0 = self.player.stores@[si as int].inventory@;
        let ghost products = self.products@;
        let factory_name: String = clone_factory_name(&self.player.factories, fi);
        let store_name: String = clone_store_name(&self.player.stores, si);

        let mut new_goods: Vec<crate::ledger::LedgerEntry> = Vec::new();
        let mut moves: Vec<(u32, u64, u64)> = Vec::new();
        let mut records: Vec<TransferRecord> = Vec::new();
        let len: usize = self.player.factories[fi].finished_goods.len();
        let mut k: usize = 0;
        while k < len
            invariant
                k <= len,
                len == fin0.len(),
                self.wf(),
                *self == *old(self),
                fi < self.player.factories@.len(),
                si < self.player.stores@.len(),
                fin0 == self.player.factories@[fi as int].finished_goods@,
                products == self.products@,
                factory_name == self.player.factories@[fi as int].name,
                store_name == self.player.stores@[si as int].name,
                new_goods@.len() == k,
                forall|q: int|
                    0 <= q < k ==> new_goods@[q] == (crate::ledger::LedgerEntry {
                        product_id: fin0[q].product_id,
                        quantity: (if fin0[q].quantity > 0 && spec_get_product(
                            products,
                            fin0[q].product_id,
                        ) is Some {
                            0u64
                        } else {
                            fin0[q].quantity
                        }),
                    }),
                moves@.len() == spec_transfer_list(fin0.take(k as int), products).len(),
                forall|t: int|
                    0 <= t < moves@.len() ==> (#[trigger] moves@[t]).0 == spec_transfer_list(
                        fin0.take(k as int),
                        products,
                    )[t].0 && moves@[t].1 == spec_transfer_list(fin0.take(k as int), products)[t].1
                        && moves@[t].2 == spec_suggested_retail(
                        spec_get_product(products, moves@[t].0).unwrap().base_price as int,
                        50_000,
                    ),
                records@ == spec_transfer_records(
                    fin0.take(k as int),
                    products,
                    factory_name,
                    store_name,
                ),
            decreases len - k,
        {
            proof {
                assert(fin0.take(k as int + 1).drop_last() =~= fin0.take(k as int));
                assert(fin0.take(k as int + 1).last() == fin0[k as int]);
            }
            let entry = self.player.factories[fi].finished_goods[k];
            if entry.quantity > 0 {
                match self.find_product_index(entry.product_id) {
                    Some(pi) => {
                        let retail: u64 = Market::suggest_retail_price(
                            self.products[pi].base_price,
                            DEFAULT_MARKUP_MILLI_PCT,
                        );
                        new_goods.push(
                            crate::ledger::LedgerEntry { product_id: entry.product_id, quantity: 0 },
                        );
                        moves.push((entry.product_id, entry.quantity, retail));
                        let pname: String = clone_product_name(&self.products, pi);
                        records.push(
                            TransferRecord {
                                factory_name: factory_name.clone(),
                                store_name: store_name.clone(),
                                product_name: pname,
                                quantity: entry.quantity,
                            },
                        );
                    },
                    None => {
                        new_goods.push(entry);
                    },
                }
            } else {
                new_goods.push(entry);
            }
            k = k + 1;
        }
        proof {
            assert(fin0.take(fin0.len() as int) =~= fin0);
            assert(crate::ledger::ledger_wf(new_goods@)) by {
                assert forall|a: int, b: int|
                    0 <= a < b < new_goods@.len() implies (
                #[trigger] new_goods@[a]).product_id != (#[trigger] new_goods@[b]).product_id by {
                    assert(new_goods@[a].product_id == fin0[a].product_id);
                    assert(new_goods@[b].product_id == fin0[b].product_id);
                }
            }
        }
        set_finished_goods_at(&mut self.player.factories, fi, new_goods);

        let ghost list = spec_transfer_list(fin0, products);
        proof {
            lemma_transfer_list_props(fin0, products);
            assert forall|t: int| 0 <= t < moves@.len() implies (#[trigger] moves@[t]).2
                <= MONEY_CAP by {
                lemma_get_product_wf(products, moves@[t].0);
            }
        }
        let mut j: usize = 0;
        while j < moves.len()
            invariant
                j <= moves@.len(),
                old(self).wf(),
                si < self.player.stores@.len(),
                self.player.stores@.len() == old(self).player.stores@.len(),
                inv0 == old(self).player.stores@[si as int].inventory@,
                products == old(self).products@,
                moves@.len() == list.len(),
                forall|t: int|
                    0 <= t < moves@.len() ==> (#[trigger] moves@[t]).0 == list[t].0 && moves@[t].1
                        == list[t].1 && moves@[t].2 == spec_suggested_retail(
                        spec_get_product(products, moves@[t].0).unwrap().base_price as int,
                        50_000,
                    ),
                forall|t: int, u: int|
                    0 <= t < u < list.len() ==> (#[trigger] list[t]).0 != (#[trigger] list[u]).0,
                forall|t: int| 0 <= t < list.len() ==> (#[trigger] list[t]).1 <= QTY_CAP,
                forall|t: int| 0 <= t < moves@.len() ==> (#[trigger] moves@[t]).2 <= MONEY_CAP,
                self.player.stores@[si as int].wf(),
                forall|t: int|
                    0 <= t < j ==> #[trigger] inv_qty(
                        self.player.stores@[si as int].inventory@,
                        list[t].0,
                    ) == crate::money::cap_qty(inv_qty(inv0, list[t].0) + list[t].1),
                forall|t: int|
                    0 <= t < j ==> #[trigger] inv_price(
                        self.player.stores@[si as int].inventory@,
                        list[t].0,
                    ) == (if inv_has(inv0, list[t].0) {
                        inv_price(inv0, list[t].0)
                    } else {
                        Some(
                            spec_suggested_retail(
                                spec_get_product(products, list[t].0).unwrap().base_price as int,
                                50_000,
                            ) as u64,
                        )
                    }),
                forall|p: u32|
                    (forall|t: int| 0 <= t < list.len() ==> (#[trigger] list[t]).0 != p)
                        ==> #[trigger] inv_qty(self.player.stores@[si as int].inventory@, p)
                        == inv_qty(inv0, p) && inv_price(
                        self.player.stores@[si as int].inventory@,
                        p,
                    ) == inv_price(inv0, p),
                forall|t: int|
                    j <= t < list.len() ==> #[trigger] inv_qty(
                        self.player.stores@[si as int].inventory@,
                        list[t].0,
                    ) == inv_qty(inv0, list[t].0) && inv_price(
                        self.player.stores@[si as int].inventory@,
                        list[t].0,
                    ) == inv_price(inv0, list[t].0),
                self.player.stores@[si as int] == (Store {
                    inventory: self.player.stores@[si as int].inventory,
                    ..old(self).player.stores@[si as int]
                }),
                forall|q: int|
                    0 <= q < old(self).player.stores@.len() && q != si ==> self.player.stores@[q]
                        == old(self).player.stores@[q],
                self.player.factories@.len() == old(self).player.factories@.len(),
                self.player.factories@[fi as int].wf(),
                self.player.cash == old(self).player.cash,
                self.player.loans == old(self).player.loans,
                self.player.portfolio == old(self).player.portfolio,
                self.player.next_store_id == old(self).player.next_store_id,
                self.player.next_factory_id == old(self).player.next_factory_id,
                self.player.next_loan_id == old(self).player.next_loan_id,
                self.market == old(self).market,
                self.competitive_market == old(self).competitive_market,
                self.stock_market == old(self).stock_market,
                self.products == old(self).products,
                self.recipes == old(self).recipes,
                self.day == old(self).day,
                self.is_bankrupt == old(self).is_bankrupt,
                self.current_store == old(self).current_store,
                self.current_factory == old(self).current_factory,
                forall|k2: int|
                    0 <= k2 < old(self).player.factories@.len() && k2 != fi
                        ==> self.player.factories@[k2] == old(self).player.factories@[k2],
                self.player.factories@[fi as int]
                    == (Factory {
                    finished_goods: self.player.factories@[fi as int].finished_goods,
                    ..old(self).player.factories@[fi as int]
                }),
                self.player.factories@[fi as int].finished_goods@.len() == fin0.len(),
                fin0 == old(self).player.factories@[fi as int].finished_goods@,
                forall|q: int|
                    0 <= q < fin0.len()
                        ==> self.player.factories@[fi as int].finished_goods@[q]
                        == (crate::ledger::LedgerEntry {
                        product_id: fin0[q].product_id,
                        quantity: (if fin0[q].quantity > 0 && spec_get_product(
                            products,
                            fin0[q].product_id,
                        ) is Some {
                            0u64
                        } else {
                            fin0[q].quantity
                        }),
                    }),
            decreases moves@.len() - j,
        {
            let (pid, qty, retail) = moves[j];
            proof {
                assert(pid == list[j as int].0 && qty == list[j as int].1);
            }
            store_add_inventory_at(&mut self.player.stores, si, pid, qty, retail);
            j = j + 1;
        }
        records
    }
}

/// Every loan after one day's interest accrual.
pub open spec fn spec_accrue_seq(s: Seq<Loan>) -> Seq<Loan> {
    Seq::new(
        s.len(),
        |i: int|
            Loan {
                balance: crate::loan::spec_accrued(
                    s[i].balance as int,
                    s[i].interest_rate_bp as int,
                ) as u64,
                ..s[i]
            },
    )
}

/// The interest one day adds over a whole ledger, in cents.
pub open spec fn spec_total_interest(s: Seq<Loan>) -> int
    decreases s.len(),
{
    if s.len() == 0 {
        0
    } else {
        spec_total_interest(s.drop_last()) + (crate::loan::spec_accrued(
            s.last().balance as int,
            s.last().interest_rate_bp as int,
        ) - s.last().balance)
    }
}

/// Interest never reduces a balance.
pub proof fn lemma_total_interest_nonneg(s: Seq<Loan>)
    requires
        forall|i: int| 0 <= i < s.len() ==> (#[trigger] s[i]).wf(),
    ensures
        spec_total_interest(s) >= 0,
    decreases s.len(),
{
    if s.len() > 0 {
        assert(forall|i: int| 0 <= i < s.drop_last().len() ==> (#[trigger] s.drop_last()[i]).wf())
            by {
            assert(forall|i: int| 0 <= i < s.drop_last().len() ==> s.drop_last()[i] == s[i]);
        }
        lemma_total_interest_nonneg(s.drop_last());
        assert(s.last().balance * s.last().interest_rate_bp >= 0) by (nonlinear_arith);
    }
}

/// One line of credit's automatic payment against the day's cash: the owed
/// share is paid in full when cash covers it, else whatever cash remains.
pub open spec fn spec_loc_step(l: Loan, cash: int) -> (Loan, int, Option<(u32, u64)>) {
    if l.loan_type == LoanType::LineOfCredit {
        let ap = l.spec_auto_payment();
        if ap > 0 {
            if cash >= ap {
                (Loan { balance: (l.balance - ap) as u64, ..l }, cash - ap, Some((l.id, ap as u64)))
            } else if cash > 0 {
                let paid = if cash <= l.balance {
                    cash
                } else {
                    l.balance as int
                };
                (
                    Loan { balance: (l.balance - paid) as u64, ..l },
                    cash - paid,
                    Some((l.id, paid as u64)),
                )
            } else {
                (l, cash, None)
            }
        } else {
            (l, cash, None)
        }
    } else {
        (l, cash, None)
    }
}

/// The automatic line-of-credit payments over a ledger, threaded through
/// the day's cash in ledger order.
pub open spec fn spec_loc_pass(s: Seq<Loan>, cash: int) -> (Seq<Loan>, int, Seq<(u32, u64)>)
    decreases s.len(),
{
    if s.len() == 0 {
        (Seq::empty(), cash, Seq::empty())
    } else {
        let rest = spec_loc_pass(s.drop_last(), cash);
        let step = spec_loc_step(s.last(), rest.1);
        (
            rest.0.push(step.0),
            step.1,
            match step.2 {
                Some(rec) => rest.2.push(rec),
                None => rest.2,
            },
        )
    }
}

/// Every term loan one day closer to its due date.
pub open spec fn spec_dec_days_seq(s: Seq<Loan>) -> Seq<Loan> {
    Seq::new(
        s.len(),
        |i: int|
            if s[i].loan_type == LoanType::TermLoan {
                Loan {
                    days_remaining: match s[i].days_remaining {
                        Some(d) => if d > 0 {
                            Some((d - 1) as u32)
                        } else {
                            Some(d)
                        },
                        None => None,
                    },
                    ..s[i]
                }
            } else {
                s[i]
            },
    )
}

/// One due term loan settled against the day's cash: paid off in full when
/// cash covers it; otherwise whatever cash remains is paid and a quarter of
/// the old balance lands on top of what is left.
pub open spec fn spec_due_step(l: Loan, cash: int) -> (Loan, int, int, Option<(u32, u64)>) {
    if l.days_remaining == Some(0u32) {
        if cash >= l.balance {
            (Loan { balance: 0u64, ..l }, cash - l.balance, 0, Some((l.id, l.balance)))
        } else {
            let penalty = if l.loan_type == LoanType::TermLoan {
                l.balance as int / 4
            } else {
                0
            };
            let avail = if cash >= 0 {
                cash
            } else {
                0
            };
            let paid = if avail <= l.balance {
                avail
            } else {
                l.balance as int
            };
            (
                Loan { balance: cap_amount(l.balance - paid + penalty) as u64, ..l },
                cash - paid,
                penalty,
                Some((l.id, l.balance)),
            )
        }
    } else {
        (l, cash, 0, None)
    }
}

/// The due term loans settled over a ledger, threaded through the day's
/// cash in ledger order; yields the penalties charged and the due report.
pub open spec fn spec_due_pass(s: Seq<Loan>, cash: int) -> (Seq<Loan>, int, int, Seq<(u32, u64)>)
    decreases s.len(),
{
    if s.len() == 0 {
        (Seq::empty(), cash, 0, Seq::empty())
    } else {
        let rest = spec_due_pass(s.drop_last(), cash);
        let step = spec_due_step(s.last(), rest.1);
        (
            rest.0.push(step.0),
            step.1,
            rest.2 + step.2,
            match step.3 {
                Some(rec) => rest.3.push(rec),
                None => rest.3,
            },
        )
    }
}

/// Penalties never come back as credits.
pub proof fn lemma_due_pass_penalty_nonneg(s: Seq<Loan>, cash: int)
    ensures
        spec_due_pass(s, cash).2 >= 0,
    decreases s.len(),
{
    if s.len() > 0 {
        lemma_due_pass_penalty_nonneg(s.drop_last(), cash);
    }
}

/// The settle pass keeps the ledger's length.
pub proof fn lemma_due_pass_len(s: Seq<Loan>, cash: int)
    ensures
        spec_due_pass(s, cash).0.len() == s.len(),
    decreases s.len(),
{
    if s.len() > 0 {
        lemma_due_pass_len(s.drop_last(), cash);
    }
}

/// Each settled loan is its own step applied at the cash the loans before
/// it left behind.
pub proof fn lemma_due_pass_at(s: Seq<Loan>, cash: int, k: int)
    requires
        0 <= k < s.len(),
    ensures
        spec_due_pass(s, cash).0.len() == s.len(),
        spec_due_pass(s, cash).0[k] == spec_due_step(
            s[k],
            spec_due_pass(s.take(k), cash).1,
        ).0,
    decreases s.len(),
{
    lemma_due_pass_len(s, cash);
    lemma_due_pass_len(s.drop_last(), cash);
    let rest = spec_due_pass(s.drop_last(), cash);
    if k == s.len() - 1 {
        assert(s.drop_last() =~= s.take(k));
    } else {
        assert(s.drop_last()[k] == s[k]);
        assert(s.drop_last().take(k) =~= s.take(k));
        lemma_due_pass_at(s.drop_last(), cash, k);
    }
}

/// Every loan that comes due lands in the due report with its balance at
/// entry.
pub proof fn lemma_due_pass_reports(s: Seq<Loan>, cash: int, k: int)
    requires
        0 <= k < s.len(),
        s[k].days_remaining == Some(0u32),
    ensures
        spec_due_pass(s, cash).3.contains((s[k].id, s[k].balance)),
    decreases s.len(),
{
    let rest = spec_due_pass(s.drop_last(), cash);
    let step = spec_due_step(s.last(), rest.1);
    if k == s.len() - 1 {
        assert(spec_due_pass(s, cash).3 == rest.3.push((s[k].id, s[k].balance)));
        assert(spec_due_pass(s, cash).3[rest.3.len() as int] == (s[k].id, s[k].balance));
    } else {
        assert(s.drop_last()[k] == s[k]);
        lemma_due_pass_reports(s.drop_last(), cash, k);
        let j = choose|j: int|
            0 <= j < rest.3.len() && rest.3[j] == (s[k].id, s[k].balance);
        match step.3 {
            Some(rec) => {
                assert(spec_due_pass(s, cash).3[j] == (s[k].id, s[k].balance));
            },
            None => {},
        }
    }
}

/// A loan still carrying a balance survives the ledger purge.
pub proof fn lemma_active_loans_keep(t: Seq<Loan>, k: int)
    requires
        0 <= k < t.len(),
        t[k].balance != 0,
    ensures
        crate::player::spec_active_loans(t).contains(t[k]),
    decreases t.len(),
{
    let rest = crate::player::spec_active_loans(t.drop_last());
    if k == t.len() - 1 {
        assert(crate::player::spec_active_loans(t)[rest.len() as int] == t[k]);
    } else {
        assert(t.drop_last()[k] == t[k]);
        lemma_active_loans_keep(t.drop_last(), k);
        let j = choose|j: int| 0 <= j < rest.len() && rest[j] == t[k];
        if t.last().balance == 0 {
            assert(crate::player::spec_active_loans(t)[j] == t[k]);
        } else {
            assert(crate::player::spec_active_loans(t)[j] == t[k]);
        }
    }
}

/// Default is not a write-off. Take any loan ledger and any cash the day's
/// earlier steps left. If a term loan comes due and the cash remaining when
/// its turn comes falls short of its balance, the settle pass pays out only
/// that remaining cash, adds a quarter of the balance on top of what is
/// left, reports the loan as due, and the loan, still owing, survives the
/// end-of-day purge.
pub proof fn lemma_term_loan_default_survives(s: Seq<Loan>, cash: int, k: int)
    requires
        0 <= k < s.len(),
        s[k].loan_type == LoanType::TermLoan,
        s[k].days_remaining == Some(0u32),
        s[k].balance > 0,
        spec_due_pass(s.take(k), cash).1 < s[k].balance,
    ensures
        ({
            let settled = spec_due_pass(s, cash);
            let cash_at_turn = spec_due_pass(s.take(k), cash).1;
            let paid = if cash_at_turn >= 0 {
                if cash_at_turn <= s[k].balance {
                    cash_at_turn
                } else {
                    s[k].balance as int
                }
            } else {
                0
            };
            &&& settled.0.len() == s.len()
            &&& settled.0[k].balance == cap_amount(
                s[k].balance - paid + s[k].balance as int / 4,
            )
            &&& settled.0[k].balance > 0
            &&& settled.0[k].id == s[k].id
            &&& settled.3.contains((s[k].id, s[k].balance))
            &&& crate::player::spec_active_loans(settled.0).contains(settled.0[k])
        }),
{
    lemma_due_pass_at(s, cash, k);
    lemma_due_pass_reports(s, cash, k);
    let settled = spec_due_pass(s, cash);
    let cash_at_turn = spec_due_pass(s.take(k), cash).1;
    let step = spec_due_step(s[k], cash_at_turn);
    assert(settled.0[k] == step.0);
    assert(step.0.balance > 0);
    lemma_active_loans_keep(settled.0, k);
}

/// The warnings for loans due within three days: id, days left and balance.
pub open spec fn spec_due_soon_full(s: Seq<Loan>) -> Seq<(u32, u32, u64)>
    decreases s.len(),
{
    if s.len() == 0 {
        Seq::empty()
    } else {
        let rest = spec_due_soon_full(s.drop_last());
        match s.last().spec_due_soon() {
            Some(days) => rest.push((s.last().id, days, s.last().balance)),
            None => rest,
        }
    }
}

/// Accrues one day's interest on the loan at a ledger position.
fn accrue_loan_at(p: &mut Player, i: usize) -> (interest: u64)
    requires
        old(p).wf(),
        i < old(p).loans@.len(),
    ensures
        final(p).wf(),
        final(p).loans@ == old(p).loans@.update(
            i as int,
            Loan {
                balance: crate::loan::spec_accrued(
                    old(p).loans@[i as int].balance as int,
                    old(p).loans@[i as int].interest_rate_bp as int,
                ) as u64,
                ..old(p).loans@[i as int]
            },
        ),
        interest == crate::loan::spec_accrued(
            old(p).loans@[i as int].balance as int,
            old(p).loans@[i as int].interest_rate_bp as int,
        ) - old(p).loans@[i as int].balance,
        final(p).cash == old(p).cash,
        final(p).stores == old(p).stores,
        final(p).factories == old(p).factories,
        final(p).portfolio == old(p).portfolio,
        final(p).next_store_id == old(p).next_store_id,
        final(p).next_factory_id == old(p).next_factory_id,
        final(p).next_loan_id == old(p).next_loan_id,
{
    let before: u64 = p.loans[i].balance;
    let l = &mut p.loans[i];
    l.accrue_interest();
    proof {
        assert(p.loans@ =~= old(p).loans@.update(
            i as int,
            Loan {
                balance: crate::loan::spec_accrued(
                    old(p).loans@[i as int].balance as int,
                    old(p).loans@[i as int].interest_rate_bp as int,
                ) as u64,
                ..old(p).loans@[i as int]
            },
        ));
    }
    p.loans[i].balance - before
}

/// Adds a default penalty onto the loan at a ledger position.
fn add_penalty_at(p: &mut Player, i: usize, penalty: u64)
    requires
        old(p).wf(),
        i < old(p).loans@.len(),
        penalty <= MONEY_CAP,
    ensures
        final(p).wf(),
        final(p).loans@ == old(p).loans@.update(
            i as int,
            Loan {
                balance: cap_amount(old(p).loans@[i as int].balance + penalty) as u64,
                ..old(p).loans@[i as int]
            },
        ),
        final(p).cash == old(p).cash,
        final(p).stores == old(p).stores,
        final(p).factories == old(p).factories,
        final(p).portfolio == old(p).portfolio,
        final(p).next_store_id == old(p).next_store_id,
        final(p).next_factory_id == old(p).next_factory_id,
        final(p).next_loan_id == old(p).next_loan_id,
{
    let l = &mut p.loans[i];
    l.balance = crate::money::add_amount(l.balance, penalty);
    proof {
        assert(p.loans@ =~= old(p).loans@.update(
            i as int,
            Loan {
                balance: cap_amount(old(p).loans@[i as int].balance + penalty) as u64,
                ..old(p).loans@[i as int]
            },
        ));
    }
}

/// Counts the term loan at a ledger position one day down.
fn decrement_loan_at(p: &mut Player, i: usize)
    requires
        old(p).wf(),
        i < old(p).loans@.len(),
    ensures
        final(p).wf(),
        final(p).loans@ == old(p).loans@.update(
            i as int,
            spec_dec_days_seq(old(p).loans@)[i as int],
        ),
        final(p).cash == old(p).cash,
        final(p).stores == old(p).stores,
        final(p).factories == old(p).factories,
        final(p).portfolio == old(p).portfolio,
        final(p).next_store_id == old(p).next_store_id,
        final(p).next_factory_id == old(p).next_factory_id,
        final(p).next_loan_id == old(p).next_loan_id,
{
    let is_term: bool = matches!(p.loans[i].loan_type, LoanType::TermLoan);
    if is_term {
        let l = &mut p.loans[i];
        l.decrement_days();
    }
    proof {
        assert(p.loans@ =~= old(p).loans@.update(
            i as int,
            spec_dec_days_seq(old(p).loans@)[i as int],
        ));
    }
}

impl GameState {
    /// Runs the whole daily loan pass, in order: interest accrues on every
    /// loan, lines of credit auto-pay against cash, term loans count down,
    /// due term loans settle (with a default penalty when cash falls
    /// short), warnings are gathered, and paid-off loans leave the ledger.
    /// Returns the interest accrued, the automatic payments, the due
    /// settlements, the due-soon warnings and the penalties charged.
    #[verifier::rlimit(30)]
    fn process_loans(&mut self) -> (r: (
        u64,
        Vec<(u32, u64)>,
        Vec<(u32, u64)>,
        Vec<(u32, u32, u64)>,
        u64,
    ))
        requires
            old(self).wf(),
        ensures
            final(self).wf(),
            ({
                let l0 = old(self).player.loans@;
                let cash0 = old(self).player.cash as int;
                let l1 = spec_accrue_seq(l0);
                let loc = spec_loc_pass(l1, cash0);
                let l3 = spec_dec_days_seq(loc.0);
                let due = spec_due_pass(l3, loc.1);
                &&& r.0 == cap_amount(spec_total_interest(l0))
                &&& r.1@ == loc.2
                &&& r.2@ == due.3
                &&& r.3@ == spec_due_soon_full(due.0)
                &&& r.4 == cap_amount(due.2)
                &&& final(self).player.loans@ == crate::player::spec_active_loans(due.0)
                &&& final(self).player.cash == due.1
                &&& final(self).player.stores == old(self).player.stores
                &&& final(self).player.factories == old(self).player.factories
                &&& final(self).player.portfolio == old(self).player.portfolio
                &&& final(self).player.next_store_id == old(self).player.next_store_id
                &&& final(self).player.next_factory_id == old(self).player.next_factory_id
                &&& final(self).player.next_loan_id == old(self).player.next_loan_id
                &&& final(self).market == old(self).market
                &&& final(self).competitive_market == old(self).competitive_market
                &&& final(self).stock_market == old(self).stock_market
                &&& final(self).products == old(self).products
                &&& final(self).recipes == old(self).recipes
                &&& final(self).day == old(self).day
                &&& final(self).is_bankrupt == old(self).is_bankrupt
                &&& final(self).current_store == old(self).current_store
                &&& final(self).current_factory == old(self).current_factory
            }),
    {
        let ghost l0 = self.player.loans@;
        let ghost cash0 = self.player.cash as int;
        let len: usize = self.player.loans.len();

        let mut interest_total: u64 = 0;
        let mut i: usize = 0;
        while i < len
            invariant
                i <= len,
                old(self).wf(),
                len == l0.len(),
                l0 == old(self).player.loans@,
                self.player.wf(),
                self.player.loans@.len() == len,
                forall|k: int| 0 <= k < i ==> self.player.loans@[k] == spec_accrue_seq(l0)[k],
                forall|k: int| i <= k < len ==> self.player.loans@[k] == l0[k],
                interest_total == cap_amount(spec_total_interest(l0.take(i as int))),
                spec_total_interest(l0.take(i as int)) >= 0,
                self.player.cash == old(self).player.cash,
                self.player.stores == old(self).player.stores,
                self.player.factories == old(self).player.factories,
                self.player.portfolio == old(self).player.portfolio,
                self.player.next_store_id == old(self).player.next_store_id,
                self.player.next_factory_id == old(self).player.next_factory_id,
                self.player.next_loan_id == old(self).player.next_loan_id,
                self.market == old(self).market,
                self.competitive_market == old(self).competitive_market,
                self.stock_market == old(self).stock_market,
                self.products == old(self).products,
                self.recipes == old(self).recipes,
                self.day == old(self).day,
                self.is_bankrupt == old(self).is_bankrupt,
                self.current_store == old(self).current_store,
                self.current_factory == old(self).current_factory,
                self.wf(),
            decreases len - i,
        {
            proof {
                assert(l0.take(i as int + 1).drop_last() =~= l0.take(i as int));
                assert(l0.take(i as int + 1).last() == l0[i as int]);
                assert(forall|k: int|
                    0 <= k < l0.take(i as int).len() ==> (#[trigger] l0.take(i as int)[k]).wf());
                lemma_total_interest_nonneg(l0.take(i as int));
            }
            let interest: u64 = accrue_loan_at(&mut self.player, i);
            interest_total = crate::money::add_amount(interest_total, interest);
            i = i + 1;
        }
        proof {
            assert(l0.take(len as int) =~= l0);
            assert(self.player.loans@ =~= spec_accrue_seq(l0));
        }

        let ghost l1 = spec_accrue_seq(l0);
        let mut payments: Vec<(u32, u64)> = Vec::new();
        let mut j: usize = 0;
        while j < len
            invariant
                j <= len,
                old(self).wf(),
                len == l1.len(),
                l0 == old(self).player.loans@,
                l1 == spec_accrue_seq(l0),
                cash0 == old(self).player.cash as int,
                self.player.wf(),
                self.player.loans@.len() == len,
                forall|k: int|
                    0 <= k < j ==> self.player.loans@[k] == spec_loc_pass(
                        l1.take(j as int),
                        cash0,
                    ).0[k],
                forall|k: int| j <= k < len ==> self.player.loans@[k] == l1[k],
                spec_loc_pass(l1.take(j as int), cash0).0.len() == j,
                self.player.cash == spec_loc_pass(l1.take(j as int), cash0).1,
                payments@ == spec_loc_pass(l1.take(j as int), cash0).2,
                self.player.stores == old(self).player.stores,
                self.player.factories == old(self).player.factories,
                self.player.portfolio == old(self).player.portfolio,
                self.player.next_store_id == old(self).player.next_store_id,
                self.player.next_factory_id == old(self).player.next_factory_id,
                self.player.next_loan_id == old(self).player.next_loan_id,
                self.market == old(self).market,
                self.competitive_market == old(self).competitive_market,
                self.stock_market == old(self).stock_market,
                self.products == old(self).products,
                self.recipes == old(self).recipes,
                self.day == old(self).day,
                self.is_bankrupt == old(self).is_bankrupt,
                self.current_store == old(self).current_store,
                self.current_factory == old(self).current_factory,
                self.wf(),
            decreases len - j,
        {
            proof {
                assert(l1.take(j as int + 1).drop_last() =~= l1.take(j as int));
                assert(l1.take(j as int + 1).last() == l1[j as int]);
            }
            let is_loc: bool = matches!(self.player.loans[j].loan_type, LoanType::LineOfCredit);
            if is_loc {
                let ap: u64 = self.player.loans[j].get_auto_payment();
                if ap > 0 {
                    if self.player.cash >= 0 && self.player.cash as u64 >= ap {
                        let id: u32 = self.player.loans[j].id;
                        let paid: u64 = self.player.pay_loan_at(j, ap);
                        payments.push((id, paid));
                    } else if self.player.cash > 0 {
                        let id: u32 = self.player.loans[j].id;
                        let avail: u64 = self.player.cash as u64;
                        let paid: u64 = self.player.pay_loan_at(j, avail);
                        payments.push((id, paid));
                    }
                }
            }
            proof {
                assert forall|k: int| 0 <= k < j + 1 implies self.player.loans@[k]
                    == spec_loc_pass(l1.take(j as int + 1), cash0).0[k] by {
                    if k < j {
                        assert(spec_loc_pass(l1.take(j as int + 1), cash0).0[k] == spec_loc_pass(
                            l1.take(j as int),
                            cash0,
                        ).0[k]);
                    }
                }
            }
            j = j + 1;
        }
        proof {
            assert(l1.take(len as int) =~= l1);
            assert(self.player.loans@ =~= spec_loc_pass(l1, cash0).0);
        }

        let ghost l2 = spec_loc_pass(l1, cash0).0;
        let ghost cash2 = spec_loc_pass(l1, cash0).1;
        let mut d: usize = 0;
        while d < len
            invariant
                d <= len,
                old(self).wf(),
                len == l2.len(),
                self.player.wf(),
                self.player.loans@.len() == len,
                forall|k: int| 0 <= k < d ==> self.player.loans@[k] == spec_dec_days_seq(l2)[k],
                forall|k: int| d <= k < len ==> self.player.loans@[k] == l2[k],
                self.player.cash == cash2,
                l0 == old(self).player.loans@,
                l1 == spec_accrue_seq(l0),
                cash0 == old(self).player.cash as int,
                l2 == spec_loc_pass(l1, cash0).0,
                cash2 == spec_loc_pass(l1, cash0).1,
                self.player.stores == old(self).player.stores,
                self.player.factories == old(self).player.factories,
                self.player.portfolio == old(self).player.portfolio,
                self.player.next_store_id == old(self).player.next_store_id,
                self.player.next_factory_id == old(self).player.next_factory_id,
                self.player.next_loan_id == old(self).player.next_loan_id,
                self.market == old(self).market,
                self.competitive_market == old(self).competitive_market,
                self.stock_market == old(self).stock_market,
                self.products == old(self).products,
                self.recipes == old(self).recipes,
                self.day == old(self).day,
                self.is_bankrupt == old(self).is_bankrupt,
                self.current_store == old(self).current_store,
                self.current_factory == old(self).current_factory,
                self.wf(),
            decreases len - d,
        {
            let ghost pre = self.player.loans@;
            decrement_loan_at(&mut self.player, d);
            proof {
                assert(pre[d as int] == l2[d as int]);
                assert(spec_dec_days_seq(pre)[d as int] == spec_dec_days_seq(l2)[d as int]);
            }
            d = d + 1;
        }
        proof {
            assert(self.player.loans@ =~= spec_dec_days_seq(l2));
        }

        let ghost l3 = spec_dec_days_seq(l2);
        let mut dues: Vec<(u32, u64)> = Vec::new();
        let mut penalties_total: u64 = 0;
        let mut e: usize = 0;
        while e < len
            invariant
                e <= len,
                old(self).wf(),
                len == l3.len(),
                self.player.wf(),
                self.player.loans@.len() == len,
                forall|k: int|
                    0 <= k < e ==> self.player.loans@[k] == spec_due_pass(
                        l3.take(e as int),
                        cash2,
                    ).0[k],
                forall|k: int| e <= k < len ==> self.player.loans@[k] == l3[k],
                spec_due_pass(l3.take(e as int), cash2).0.len() == e,
                self.player.cash == spec_due_pass(l3.take(e as int), cash2).1,
                dues@ == spec_due_pass(l3.take(e as int), cash2).3,
                penalties_total == cap_amount(spec_due_pass(l3.take(e as int), cash2).2),
                spec_due_pass(l3.take(e as int), cash2).2 >= 0,
                l0 == old(self).player.loans@,
                l1 == spec_accrue_seq(l0),
                cash0 == old(self).player.cash as int,
                l2 == spec_loc_pass(l1, cash0).0,
                cash2 == spec_loc_pass(l1, cash0).1,
                l3 == spec_dec_days_seq(l2),
                self.player.stores == old(self).player.stores,
                self.player.factories == old(self).player.factories,
                self.player.portfolio == old(self).player.portfolio,
                self.player.next_store_id == old(self).player.next_store_id,
                self.player.next_factory_id == old(self).player.next_factory_id,
                self.player.next_loan_id == old(self).player.next_loan_id,
                self.market == old(self).market,
                self.competitive_market == old(self).competitive_market,
                self.stock_market == old(self).stock_market,
                self.products == old(self).products,
                self.recipes == old(self).recipes,
                self.day == old(self).day,
                self.is_bankrupt == old(self).is_bankrupt,
                self.current_store == old(self).current_store,
                self.current_factory == old(self).current_factory,
                self.wf(),
            decreases len - e,
        {
            proof {
                assert(l3.take(e as int + 1).drop_last() =~= l3.take(e as int));
                assert(l3.take(e as int + 1).last() == l3[e as int]);
                lemma_due_pass_penalty_nonneg(l3.take(e as int), cash2);
            }
            let is_due: bool = self.player.loans[e].is_due();
            if is_due {
                let id: u32 = self.player.loans[e].id;
                let bal: u64 = self.player.loans[e].balance;
                dues.push((id, bal));
                if self.player.cash >= 0 && self.player.cash as u64 >= bal {
                    self.player.pay_loan_at(e, bal);
                } else {
                    let penalty: u64 = self.player.loans[e].default_penalty();
                    penalties_total = crate::money::add_amount(penalties_total, penalty);
                    let avail: u64 = if self.player.cash >= 0 {
                        self.player.cash as u64
                    } else {
                        0
                    };
                    self.player.pay_loan_at(e, avail);
                    add_penalty_at(&mut self.player, e, penalty);
                }
            }
            proof {
                assert forall|k: int| 0 <= k < e + 1 implies self.player.loans@[k]
                    == spec_due_pass(l3.take(e as int + 1), cash2).0[k] by {
                    if k < e {
                        assert(spec_due_pass(l3.take(e as int + 1), cash2).0[k] == spec_due_pass(
                            l3.take(e as int),
                            cash2,
                        ).0[k]);
                    }
                }
            }
            e = e + 1;
        }
        proof {
            assert(l3.take(len as int) =~= l3);
            assert(self.player.loans@ =~= spec_due_pass(l3, cash2).0);
        }

        let ghost l4 = spec_due_pass(l3, cash2).0;
        let mut due_soon: Vec<(u32, u32, u64)> = Vec::new();
        let mut w: usize = 0;
        while w < len
            invariant
                w <= len,
                len == l4.len(),
                self.player.wf(),
                self.player.loans@ == l4,
                due_soon@ == spec_due_soon_full(l4.take(w as int)),
            decreases len - w,
        {
            proof {
                assert(l4.take(w as int + 1).drop_last() =~= l4.take(w as int));
                assert(l4.take(w as int + 1).last() == l4[w as int]);
            }
            match self.player.loans[w].is_due_soon() {
                Some(days) => {
                    due_soon.push((self.player.loans[w].id, days, self.player.loans[w].balance));
                },
                None => {},
            }
            w = w + 1;
        }
        proof {
            assert(l4.take(len as int) =~= l4);
        }

        self.player.cleanup_loans();

        (interest_total, payments, dues, due_soon, penalties_total)
    }
}

/// The customers one store sees today: its effective count scaled by the
/// player's market-share multiplier.
pub open spec fn spec_store_customers(s: Store, cm: int) -> int {
    s.spec_effective_customers() * cm / 1000
}

/// The whole day's retail revenue over every store, before capping.
pub open spec fn spec_all_store_revenue(
    stores: Seq<Store>,
    products: Seq<Product>,
    market: Market,
    cm: int,
) -> int
    decreases stores.len(),
{
    if stores.len() == 0 {
        0
    } else {
        spec_all_store_revenue(stores.drop_last(), products, market, cm) + spec_store_revenue(
            stores.last().inventory@,
            products,
            market,
            spec_store_customers(stores.last(), cm),
        )
    }
}

/// The whole day's units sold over every store, before capping.
pub open spec fn spec_all_store_units(
    stores: Seq<Store>,
    products: Seq<Product>,
    market: Market,
    cm: int,
) -> int
    decreases stores.len(),
{
    if stores.len() == 0 {
        0
    } else {
        spec_all_store_units(stores.drop_last(), products, market, cm) + spec_store_units(
            stores.last().inventory@,
            products,
            market,
            spec_store_customers(stores.last(), cm),
        )
    }
}

/// The whole day's sales report over every store, in store order.
pub open spec fn spec_all_store_records(
    stores: Seq<Store>,
    products: Seq<Product>,
    market: Market,
    cm: int,
) -> Seq<SaleRecord>
    decreases stores.len(),
{
    if stores.len() == 0 {
        Seq::empty()
    } else {
        spec_all_store_records(stores.drop_last(), products, market, cm) + spec_store_records(
            stores.last().inventory@,
            products,
            market,
            spec_store_customers(stores.last(), cm),
        )
    }
}

/// A whole day's revenue and units are never negative.
pub proof fn lemma_all_store_revenue_nonneg(
    stores: Seq<Store>,
    products: Seq<Product>,
    market: Market,
    cm: int,
)
    requires
        cm >= 0,
        products_wf(products),
        forall|i: int| 0 <= i < stores.len() ==> (#[trigger] stores[i]).wf(),
    ensures
        spec_all_store_revenue(stores, products, market, cm) >= 0,
        spec_all_store_units(stores, products, market, cm) >= 0,
    decreases stores.len(),
{
    if stores.len() > 0 {
        assert(forall|i: int|
            0 <= i < stores.drop_last().len() ==> (#[trigger] stores.drop_last()[i]).wf()) by {
            assert(forall|i: int|
                0 <= i < stores.drop_last().len() ==> stores.drop_last()[i] == stores[i]);
        }
        lemma_all_store_revenue_nonneg(stores.drop_last(), products, market, cm);
        let s = stores.last();
        lemma_mul_nonneg(s.daily_customers as int, 1000 + 200 * s.employees@.len() as int);
        lemma_mul_nonneg(s.spec_effective_customers(), cm);
        lemma_store_revenue_nonneg(s.inventory@, products, market, spec_store_customers(s, cm));
    }
}

/// The day's per-store expense report.
pub open spec fn spec_expense_records_stores(s: Seq<Store>) -> Seq<ExpenseRecord> {
    Seq::new(
        s.len(),
        |i: int|
            ExpenseRecord {
                name: s[i].name,
                rent: s[i].daily_rent,
                salaries: crate::store::spec_salaries(s[i].employees@) as u64,
            },
    )
}

/// The day's per-factory expense report.
pub open spec fn spec_expense_records_factories(s: Seq<Factory>) -> Seq<ExpenseRecord> {
    Seq::new(
        s.len(),
        |i: int|
            ExpenseRecord {
                name: s[i].name,
                rent: s[i].daily_rent,
                salaries: crate::factory::spec_worker_salaries(s[i].workers@) as u64,
            },
    )
}

/// Every batch completing today across every factory, in factory order.
pub open spec fn spec_all_completed(factories: Seq<Factory>) -> Seq<ProductionResult>
    decreases factories.len(),
{
    if factories.len() == 0 {
        Seq::empty()
    } else {
        spec_all_completed(factories.drop_last()) + crate::factory::spec_completed(
            factories.last().production_queue@,
        )
    }
}

impl GameState {
    /// Advances the simulation one day, in fixed order: the economy rolls,
    /// market shares recompute from store counts and markup, rivals act,
    /// every store sells, factories produce and auto-ship, rent and
    /// salaries fall due, the loan ledger accrues and settles, stock prices
    /// walk and dividends pay, and bankruptcy is checked. Returns the
    /// day's full report.
    #[verifier::rlimit(100)]
    pub fn advance_day(&mut self) -> (r: DayResult)
        requires
            old(self).wf(),
            old(self).day < u32::MAX,
        ensures
            final(self).wf(),
            final(self).day == old(self).day + 1,
            final(self).products == old(self).products,
            final(self).recipes == old(self).recipes,
            final(self).current_store == old(self).current_store,
            final(self).current_factory == old(self).current_factory,
            final(self).player.stores@.len() == old(self).player.stores@.len(),
            final(self).player.factories@.len() == old(self).player.factories@.len(),
            final(self).player.next_store_id == old(self).player.next_store_id,
            final(self).player.next_factory_id == old(self).player.next_factory_id,
            final(self).player.next_loan_id == old(self).player.next_loan_id,
            ({
                let products = old(self).products@;
                let day = old(self).day;
                let m0 = old(self).market;
                let state1 = spec_next_state(m0.economic_state, day);
                let market1 = Market {
                    day_seed: crate::rand::spec_day_seed(day) as u64,
                    economic_state: state1,
                    economic_trend: crate::rand::spec_trend_milli(day) as i64,
                    ..m0
                };
                let markup = spec_avg_markup(old(self).player.stores@, products);
                let sc = if old(self).player.stores@.len() >= u32::MAX {
                    u32::MAX as int
                } else {
                    old(self).player.stores@.len() as int
                };
                let comps0 = old(self).competitive_market.competitors@;
                let comps1 = crate::competitor::spec_competitors_after_shares(comps0, sc, markup);
                let share = crate::competitor::spec_player_share(sc, markup, comps0);
                let cm = ({
                    let m = 2 * share;
                    if m < 300 {
                        300int
                    } else if m > 1500 {
                        1500int
                    } else {
                        m
                    }
                });
                let em1 = state1.spec_sales_multiplier_milli();
                let revenue = spec_all_store_revenue(old(self).player.stores@, products, market1, cm);
                let units = spec_all_store_units(old(self).player.stores@, products, market1, cm);
                let expenses = crate::player::spec_store_expenses(old(self).player.stores@)
                    + crate::player::spec_factory_expenses(old(self).player.factories@);
                let cash_sales = crate::money::clamp_cash(old(self).player.cash + revenue);
                let cash_exp = crate::money::clamp_cash(cash_sales - cap_amount(expenses));
                let l1 = spec_accrue_seq(old(self).player.loans@);
                let loc = spec_loc_pass(l1, cash_exp);
                let l3 = spec_dec_days_seq(loc.0);
                let due = spec_due_pass(l3, loc.1);
                &&& final(self).market == market1
                &&& r.economic_state == state1
                &&& r.economic_change == (if state1 == m0.economic_state {
                    None::<EconomicChange>
                } else {
                    Some(
                        EconomicChange {
                            improved: state1.spec_sales_multiplier_milli()
                                > m0.economic_state.spec_sales_multiplier_milli(),
                            new_state: state1,
                        },
                    )
                })
                &&& r.player_market_share_milli == share
                &&& 50 <= r.player_market_share_milli <= 950
                &&& final(self).competitive_market.player_market_share_milli == share
                &&& final(self).competitive_market.competitors@.len() == comps0.len()
                &&& forall|i: int|
                    0 <= i < comps0.len() ==> (#[trigger] final(self).competitive_market.competitors@[i])
                        == crate::competitor::spec_competitor_step(comps1[i], em1, share).0
                &&& r.competitor_events@ == crate::competitor::spec_step_events(comps1, em1, share)
                &&& r.total_revenue == cap_amount(revenue)
                &&& r.total_items_sold == crate::money::cap_qty(units)
                &&& r.sales_by_product@ == spec_all_store_records(
                    old(self).player.stores@,
                    products,
                    market1,
                    cm,
                )
                &&& r.total_expenses == cap_amount(expenses)
                &&& r.expenses_by_store@ == spec_expense_records_stores(old(self).player.stores@)
                &&& r.expenses_by_factory@ == spec_expense_records_factories(
                    old(self).player.factories@,
                )
                &&& r.production_completed@ == spec_all_completed(old(self).player.factories@)
                &&& forall|i: int|
                    0 <= i < old(self).player.factories@.len() ==> (#[trigger] final(self).player.factories@[i]).production_queue@
                        == crate::factory::spec_advance_queue(
                        old(self).player.factories@[i].production_queue@,
                    )
                &&& r.loan_interest_accrued == cap_amount(
                    spec_total_interest(old(self).player.loans@),
                )
                &&& r.loan_payments@ == loc.2
                &&& r.loans_due@ == due.3
                &&& r.loans_due_soon@ == spec_due_soon_full(due.0)
                &&& r.term_loan_penalties == cap_amount(due.2)
                &&& final(self).player.loans@ == crate::player::spec_active_loans(due.0)
                &&& final(self).player.cash == due.1
                &&& r.net_profit == r.total_revenue - r.total_expenses - r.loan_interest_accrued
                &&& final(self).is_bankrupt == (old(self).is_bankrupt || final(self).player.cash
                    < 0)
                &&& final(self).stock_market.stocks@.len() == old(self).stock_market.stocks@.len()
                &&& final(self).stock_market.random_state == crate::stock::spec_lcg_iter(
                    old(self).stock_market.random_state,
                    old(self).stock_market.stocks@.len() as int,
                )
                &&& forall|i: int|
                    0 <= i < old(self).stock_market.stocks@.len() ==> {
                        let st = crate::stock::spec_lcg_iter(
                            old(self).stock_market.random_state,
                            i + 1,
                        );
                        let rf = crate::rand::spec_signed_unit_milli(st);
                        let acc = crate::stock::spec_acc_after(
                            old(self).stock_market.stocks@[i],
                            state1,
                            rf,
                        );
                        let change = crate::stock::spec_flush_change(acc);
                        (#[trigger] final(self).stock_market.stocks@[i]).price
                            == crate::stock::spec_clamped_price(
                            old(self).stock_market.stocks@[i].price + change,
                        )
                    }
                &&& r.stock_changes@.len() == old(self).stock_market.stocks@.len()
                &&& forall|i: int|
                    0 <= i < r.stock_changes@.len() ==> (#[trigger] r.stock_changes@[i]).symbol
                        == old(self).stock_market.stocks@[i].symbol && r.stock_changes@[i].old_price
                        == old(self).stock_market.stocks@[i].price
                        && r.stock_changes@[i].new_price == final(self).stock_market.stocks@[i].price
                &&& r.dividends_earned == cap_amount(
                    crate::player::spec_day_dividends(
                        old(self).player.portfolio@,
                        final(self).stock_market.stocks@,
                    ),
                )
                &&& final(self).player.portfolio@.len() == old(self).player.portfolio@.len()
                &&& forall|i: int|
                    0 <= i < old(self).player.portfolio@.len() ==> (#[trigger] final(self).player.portfolio@[i]) == (crate::stock::StockHolding {
                        total_dividends_earned: cap_amount(
                            old(self).player.portfolio@[i].total_dividends_earned
                                + crate::player::spec_dividend_amount(
                                old(self).player.portfolio@[i],
                                final(self).stock_market.stocks@,
                            ),
                        ) as u64,
                        ..old(self).player.portfolio@[i]
                    })
                &&& (forall|i: int|
                    0 <= i < old(self).player.factories@.len() ==> !(#[trigger] old(self).player.factories@[i]).auto_transfer) ==> {
                    &&& r.auto_transfers@ == Seq::<TransferRecord>::empty()
                    &&& forall|k: int, p: u32|
                        0 <= k < old(self).player.factories@.len()
                            ==> #[trigger] crate::ledger::ledger_qty(
                            final(self).player.factories@[k].finished_goods@,
                            p,
                        ) == crate::money::cap_qty(
                            crate::ledger::ledger_qty(
                                old(self).player.factories@[k].finished_goods@,
                                p,
                            ) + crate::factory::spec_output_total(
                                old(self).player.factories@[k].production_queue@,
                                p,
                            ),
                        )
                    &&& forall|k: int|
                        0 <= k < old(self).player.stores@.len() ==> (#[trigger] final(self).player.stores@[k]).inventory@.len()
                            == old(self).player.stores@[k].inventory@.len()
                    &&& forall|k: int, q: int|
                        0 <= k < old(self).player.stores@.len() && 0 <= q < old(self).player.stores@[k].inventory@.len() ==> (
                        #[trigger] final(self).player.stores@[k].inventory@[q])
                            == (crate::store::InventoryItem {
                            quantity: (old(self).player.stores@[k].inventory@[q].quantity
                                - spec_item_sold(
                                old(self).player.stores@[k].inventory@[q],
                                products,
                                market1,
                                spec_store_customers(old(self).player.stores@[k], cm),
                            )) as u64,
                            ..old(self).player.stores@[k].inventory@[q]
                        })
                }
            }),
    {
        let ghost products = self.products@;
        let ghost stores0 = self.player.stores@;
        let ghost factories0 = self.player.factories@;
        let ghost cash0 = self.player.cash;

        // Fixed daily expenses depend only on rosters, which no later step
        // changes; compute them and their report lines up front.
        let total_expenses: u64 = self.player.total_daily_expenses();
        let (expenses_by_store, expenses_by_factory) = self.expense_reports();

        // Step 1: the economy rolls.
        let economic_change = self.market.advance_day(self.day);
        let economic_state: EconomicState = self.market.economic_state;

        // Step 2: market shares recompute from store count and markup.
        let markup: i64 = self.calculate_average_markup();
        let n_stores: usize = self.player.stores.len();
        let sc: u32 = if n_stores >= u32::MAX as usize {
            u32::MAX
        } else {
            n_stores as u32
        };
        self.competitive_market.calculate_market_shares(sc, markup);
        let share: u64 = self.competitive_market.player_market_share_milli;
        let cm: u64 = self.competitive_market.player_customer_multiplier();

        // Step 3: rivals act.
        let em: u64 = economic_state.sales_multiplier_milli();
        let competitor_events = self.competitive_market.advance_day(em);

        // Step 4: every store sells.
        let (total_revenue, total_items_sold, sales_by_product) = self.run_store_sales(cm);

        // Step 5: factories produce, then auto-ship to their primary store.
        let (production_completed, auto_transfers) = self.run_factories();

        // Step 6: rent and salaries fall due; this may drive cash negative.
        self.player.cash = crate::money::debit_cash(self.player.cash, total_expenses);

        // Step 7: the loan ledger accrues, auto-pays, settles and purges.
        let (loan_interest_accrued, loan_payments, loans_due, loans_due_soon, term_loan_penalties) =
            self.process_loans();

        // Step 8: stock prices walk and dividends pay into the portfolio.
        let stock_changes = self.stock_market.advance_day(&economic_state);
        let dividends_earned: u64 = self.player.collect_dividends(&self.stock_market);

        // Step 9: a negative cash balance at the end of the day is
        // bankruptcy; the flag never clears.
        if self.player.cash < 0 {
            self.is_bankrupt = true;
        }

        // Step 10: the day ends.
        self.day = self.day + 1;

        let net_profit: i64 = total_revenue as i64 - total_expenses as i64
            - loan_interest_accrued as i64;

        DayResult {
            total_revenue,
            total_items_sold,
            sales_by_product,
            total_expenses,
            expenses_by_store,
            expenses_by_factory,
            production_completed,
            net_profit,
            economic_state,
            economic_change,
            loan_interest_accrued,
            loan_payments,
            loans_due,
            loans_due_soon,
            term_loan_penalties,
            auto_transfers,
            competitor_events,
            player_market_share_milli: share,
            stock_changes,
            dividends_earned,
        }
    }
}

impl GameState {
    /// Builds the day's per-store and per-factory expense reports.
    fn expense_reports(&self) -> (r: (Vec<ExpenseRecord>, Vec<ExpenseRecord>))
        requires
            self.wf(),
        ensures
            r.0@ == spec_expense_records_stores(self.player.stores@),
            r.1@ == spec_expense_records_factories(self.player.factories@),
    {
        let ghost stores0 = self.player.stores@;
        let ghost factories0 = self.player.factories@;
        let mut expenses_by_store: Vec<ExpenseRecord> = Vec::new();
        let mut xi: usize = 0;
        while xi < self.player.stores.len()
            invariant
                xi <= stores0.len(),
                self.wf(),
                stores0 == self.player.stores@,
                expenses_by_store@.len() == xi,
                forall|k: int|
                    0 <= k < xi ==> expenses_by_store@[k] == (ExpenseRecord {
                        name: stores0[k].name,
                        rent: stores0[k].daily_rent,
                        salaries: crate::store::spec_salaries(stores0[k].employees@) as u64,
                    }),
            decreases stores0.len() - xi,
        {
            proof {
                crate::store::lemma_salaries_nonneg(stores0[xi as int].employees@);
            }
            let de: u64 = self.player.stores[xi].daily_expenses();
            let rent: u64 = self.player.stores[xi].daily_rent;
            let name: String = clone_store_name(&self.player.stores, xi);
            expenses_by_store.push(ExpenseRecord { name, rent, salaries: de - rent });
            xi = xi + 1;
        }
        proof {
            assert(expenses_by_store@ =~= spec_expense_records_stores(stores0));
        }
        let mut expenses_by_factory: Vec<ExpenseRecord> = Vec::new();
        let mut xf: usize = 0;
        while xf < self.player.factories.len()
            invariant
                xf <= factories0.len(),
                self.wf(),
                factories0 == self.player.factories@,
                expenses_by_factory@.len() == xf,
                forall|k: int|
                    0 <= k < xf ==> expenses_by_factory@[k] == (ExpenseRecord {
                        name: factories0[k].name,
                        rent: factories0[k].daily_rent,
                        salaries: crate::factory::spec_worker_salaries(
                            factories0[k].workers@,
                        ) as u64,
                    }),
            decreases factories0.len() - xf,
        {
            proof {
                crate::factory::lemma_worker_salaries_nonneg(factories0[xf as int].workers@);
            }
            let de: u64 = self.player.factories[xf].daily_expenses();
            let rent: u64 = self.player.factories[xf].daily_rent;
            let name: String = clone_factory_name(&self.player.factories, xf);
            expenses_by_factory.push(ExpenseRecord { name, rent, salaries: de - rent });
            xf = xf + 1;
        }
        proof {
            assert(expenses_by_factory@ =~= spec_expense_records_factories(factories0));
        }
        (expenses_by_store, expenses_by_factory)
    }

    /// Runs the day's retail sales over every store under the given
    /// customer multiplier; returns the capped revenue, units sold and the
    /// sales report.
    fn run_store_sales(&mut self, cm: u64) -> (r: (u64, u64, Vec<SaleRecord>))
        requires
            old(self).wf(),
            300 <= cm <= 1500,
        ensures
            final(self).wf(),
            ({
                let products = old(self).products@;
                let stores0 = old(self).player.stores@;
                let market1 = old(self).market;
                &&& final(self).player.cash == crate::money::clamp_cash(
                    old(self).player.cash + spec_all_store_revenue(
                        stores0,
                        products,
                        market1,
                        cm as int,
                    ),
                )
                &&& r.0 == cap_amount(
                    spec_all_store_revenue(stores0, products, market1, cm as int),
                )
                &&& r.1 == crate::money::cap_qty(
                    spec_all_store_units(stores0, products, market1, cm as int),
                )
                &&& r.2@ == spec_all_store_records(stores0, products, market1, cm as int)
                &&& final(self).player.stores@.len() == stores0.len()
                &&& forall|k: int|
                    0 <= k < stores0.len() ==> (#[trigger] final(self).player.stores@[k]).id
                        == stores0[k].id && final(self).player.stores@[k].name == stores0[k].name
                        && final(self).player.stores@[k].employees == stores0[k].employees
                        && final(self).player.stores@[k].daily_rent == stores0[k].daily_rent
                        && final(self).player.stores@[k].daily_customers
                        == stores0[k].daily_customers
                &&& forall|k: int|
                    0 <= k < stores0.len() ==> (#[trigger] final(self).player.stores@[k]).inventory@.len() == stores0[k].inventory@.len()
                &&& forall|k: int, q: int|
                    0 <= k < stores0.len() && 0 <= q < stores0[k].inventory@.len() ==> (
                    #[trigger] final(self).player.stores@[k].inventory@[q])
                        == (crate::store::InventoryItem {
                        quantity: (stores0[k].inventory@[q].quantity - spec_item_sold(
                            stores0[k].inventory@[q],
                            products,
                            market1,
                            spec_store_customers(stores0[k], cm as int),
                        )) as u64,
                        ..stores0[k].inventory@[q]
                    })
                &&& final(self).player.factories == old(self).player.factories
                &&& final(self).player.loans == old(self).player.loans
                &&& final(self).player.portfolio == old(self).player.portfolio
                &&& final(self).player.next_store_id == old(self).player.next_store_id
                &&& final(self).player.next_factory_id == old(self).player.next_factory_id
                &&& final(self).player.next_loan_id == old(self).player.next_loan_id
                &&& final(self).market == old(self).market
                &&& final(self).competitive_market == old(self).competitive_market
                &&& final(self).stock_market == old(self).stock_market
                &&& final(self).products == old(self).products
                &&& final(self).recipes == old(self).recipes
                &&& final(self).day == old(self).day
                &&& final(self).is_bankrupt == old(self).is_bankrupt
                &&& final(self).current_store == old(self).current_store
                &&& final(self).current_factory == old(self).current_factory
            }),
    {
        let ghost products = self.products@;
        let ghost stores0 = self.player.stores@;
        let ghost cash0 = self.player.cash;
        let ghost market1 = self.market;
        let n_stores: usize = self.player.stores.len();
        let mut total_revenue: u64 = 0;
        let mut total_items_sold: u64 = 0;
        let mut sales_by_product: Vec<SaleRecord> = Vec::new();
        let mut si: usize = 0;
        while si < n_stores
            invariant
                si <= n_stores,
                n_stores == stores0.len(),
                old(self).wf(),
                300 <= cm <= 1500,
                products == old(self).products@,
                stores0 == old(self).player.stores@,
                cash0 == old(self).player.cash,
                market1 == old(self).market,
                self.wf(),
                self.player.stores@.len() == stores0.len(),
                forall|k: int| si <= k < stores0.len() ==> self.player.stores@[k] == stores0[k],
                forall|k: int|
                    0 <= k < stores0.len() ==> (#[trigger] self.player.stores@[k]).id
                        == stores0[k].id && self.player.stores@[k].name == stores0[k].name
                        && self.player.stores@[k].employees == stores0[k].employees
                        && self.player.stores@[k].daily_rent == stores0[k].daily_rent
                        && self.player.stores@[k].daily_customers == stores0[k].daily_customers,
                forall|k: int|
                    0 <= k < si ==> (#[trigger] self.player.stores@[k]).inventory@.len()
                        == stores0[k].inventory@.len(),
                forall|k: int, q: int|
                    0 <= k < si && 0 <= q < stores0[k].inventory@.len() ==> (
                    #[trigger] self.player.stores@[k].inventory@[q])
                        == (crate::store::InventoryItem {
                        quantity: (stores0[k].inventory@[q].quantity - spec_item_sold(
                            stores0[k].inventory@[q],
                            products,
                            market1,
                            spec_store_customers(stores0[k], cm as int),
                        )) as u64,
                        ..stores0[k].inventory@[q]
                    }),
                self.player.cash == crate::money::clamp_cash(
                    cash0 + spec_all_store_revenue(
                        stores0.take(si as int),
                        products,
                        market1,
                        cm as int,
                    ),
                ),
                total_revenue == cap_amount(
                    spec_all_store_revenue(stores0.take(si as int), products, market1, cm as int),
                ),
                total_items_sold == crate::money::cap_qty(
                    spec_all_store_units(stores0.take(si as int), products, market1, cm as int),
                ),
                sales_by_product@ == spec_all_store_records(
                    stores0.take(si as int),
                    products,
                    market1,
                    cm as int,
                ),
                self.player.factories == old(self).player.factories,
                self.player.loans == old(self).player.loans,
                self.player.portfolio == old(self).player.portfolio,
                self.player.next_store_id == old(self).player.next_store_id,
                self.player.next_factory_id == old(self).player.next_factory_id,
                self.player.next_loan_id == old(self).player.next_loan_id,
                self.market == old(self).market,
                self.competitive_market == old(self).competitive_market,
                self.stock_market == old(self).stock_market,
                self.products == old(self).products,
                self.recipes == old(self).recipes,
                self.day == old(self).day,
                self.is_bankrupt == old(self).is_bankrupt,
                self.current_store == old(self).current_store,
                self.current_factory == old(self).current_factory,
            decreases n_stores - si,
        {
            proof {
                assert(stores0.take(si as int + 1).drop_last() =~= stores0.take(si as int));
                assert(stores0.take(si as int + 1).last() == stores0[si as int]);
                lemma_all_store_revenue_nonneg(
                    stores0.take(si as int),
                    products,
                    market1,
                    cm as int,
                );
                let s = stores0[si as int];
                lemma_mul_nonneg(s.daily_customers as int, 1000 + 200 * s.employees@.len() as int);
                lemma_mul_nonneg(s.spec_effective_customers(), cm as int);
                lemma_store_revenue_nonneg(
                    s.inventory@,
                    products,
                    market1,
                    spec_store_customers(s, cm as int),
                );
            }
            let ec: u64 = self.player.stores[si].effective_customers();
            proof {
                let s = self.player.stores@[si as int];
                assert(s.daily_customers * (1000 + 200 * s.employees@.len() as int)
                    <= 0x1_0000_0000u64 * 1600) by (nonlinear_arith)
                    requires
                        s.daily_customers < 0x1_0000_0000u64,
                        0 <= s.employees@.len() <= 3,
                ;
                assert(s.spec_effective_customers() <= s.daily_customers * (1000 + 200
                    * s.employees@.len() as int)) by (nonlinear_arith)
                    requires
                        s.daily_customers * (1000 + 200 * s.employees@.len() as int) >= 0,
                        s.spec_effective_customers() == s.daily_customers * (1000 + 200
                            * s.employees@.len() as int) / 1000,
                ;
                assert(ec * cm <= 0x1_0000_0000u64 * 1600 * 1500) by (nonlinear_arith)
                    requires
                        0 <= ec <= 0x1_0000_0000u64 * 1600,
                        cm <= 1500,
                ;
            }
            let customers: u64 = ec * cm / 1000;
            let (rev, units, mut recs) = self.sell_store_at(si, customers);
            total_revenue = crate::money::add_amount(total_revenue, rev);
            total_items_sold = crate::money::add_qty(total_items_sold, units);
            sales_by_product.append(&mut recs);
            si = si + 1;
        }
        proof {
            assert(stores0.take(stores0.len() as int) =~= stores0);
        }
        (total_revenue, total_items_sold, sales_by_product)
    }

    /// Advances production at every factory and runs the auto-transfers;
    /// returns the completed batches and the transfer log.
    fn run_factories(&mut self) -> (r: (Vec<ProductionResult>, Vec<TransferRecord>))
        requires
            old(self).wf(),
        ensures
            final(self).wf(),
            r.0@ == spec_all_completed(old(self).player.factories@),
            final(self).player.factories@.len() == old(self).player.factories@.len(),
            (forall|k: int| 0 <= k < old(self).player.factories@.len() ==> !(#[trigger] old(self).player.factories@[k]).auto_transfer) ==> final(self).player.stores == old(self).player.stores
                && r.1@ == Seq::<TransferRecord>::empty(),
            (forall|k: int| 0 <= k < old(self).player.factories@.len() ==> !(#[trigger] old(self).player.factories@[k]).auto_transfer) ==> forall|k: int, p: u32|
                0 <= k < old(self).player.factories@.len() ==> #[trigger] crate::ledger::ledger_qty(
                    final(self).player.factories@[k].finished_goods@,
                    p,
                ) == crate::money::cap_qty(
                    crate::ledger::ledger_qty(
                        old(self).player.factories@[k].finished_goods@,
                        p,
                    ) + crate::factory::spec_output_total(
                        old(self).player.factories@[k].production_queue@,
                        p,
                    ),
                ),
            forall|k: int|
                0 <= k < old(self).player.factories@.len() ==> (#[trigger] final(self).player.factories@[k]).production_queue@ == crate::factory::spec_advance_queue(
                    old(self).player.factories@[k].production_queue@,
                ),
            final(self).player.stores@.len() == old(self).player.stores@.len(),
            final(self).player.cash == old(self).player.cash,
            final(self).player.loans == old(self).player.loans,
            final(self).player.portfolio == old(self).player.portfolio,
            final(self).player.next_store_id == old(self).player.next_store_id,
            final(self).player.next_factory_id == old(self).player.next_factory_id,
            final(self).player.next_loan_id == old(self).player.next_loan_id,
            final(self).market == old(self).market,
            final(self).competitive_market == old(self).competitive_market,
            final(self).stock_market == old(self).stock_market,
            final(self).products == old(self).products,
            final(self).recipes == old(self).recipes,
            final(self).day == old(self).day,
            final(self).is_bankrupt == old(self).is_bankrupt,
            final(self).current_store == old(self).current_store,
            final(self).current_factory == old(self).current_factory,
    {
        let ghost products = self.products@;
        let ghost stores0 = self.player.stores@;
        let ghost factories0 = self.player.factories@;
        let mut production_completed: Vec<ProductionResult> = Vec::new();
        let mut auto_transfers: Vec<TransferRecord> = Vec::new();
        let n_factories: usize = self.player.factories.len();
        let mut fi: usize = 0;
        while fi < n_factories
            invariant
                fi <= n_factories,
                n_factories == factories0.len(),
                old(self).wf(),
                products == old(self).products@,
                stores0 == old(self).player.stores@,
                factories0 == old(self).player.factories@,
                self.wf(),
                self.player.factories@.len() == factories0.len(),
                forall|k: int|
                    fi <= k < factories0.len() ==> self.player.factories@[k] == factories0[k],
                forall|k: int|
                    0 <= k < fi ==> (#[trigger] self.player.factories@[k]).production_queue@
                        == crate::factory::spec_advance_queue(factories0[k].production_queue@),
                production_completed@ == spec_all_completed(factories0.take(fi as int)),
                (forall|k: int|
                    0 <= k < factories0.len() ==> !(#[trigger] factories0[k]).auto_transfer)
                    ==> self.player.stores == old(self).player.stores && auto_transfers@
                    == Seq::<TransferRecord>::empty(),
                (forall|k: int|
                    0 <= k < factories0.len() ==> !(#[trigger] factories0[k]).auto_transfer)
                    ==> forall|k: int, p: u32|
                    0 <= k < fi ==> #[trigger] crate::ledger::ledger_qty(
                        self.player.factories@[k].finished_goods@,
                        p,
                    ) == crate::money::cap_qty(
                        crate::ledger::ledger_qty(
                            factories0[k].finished_goods@,
                            p,
                        ) + crate::factory::spec_output_total(
                            factories0[k].production_queue@,
                            p,
                        ),
                    ),
                self.player.stores@.len() == stores0.len(),
                self.player.cash == old(self).player.cash,
                self.player.loans == old(self).player.loans,
                self.player.portfolio == old(self).player.portfolio,
                self.player.next_store_id == old(self).player.next_store_id,
                self.player.next_factory_id == old(self).player.next_factory_id,
                self.player.next_loan_id == old(self).player.next_loan_id,
                self.market == old(self).market,
                self.competitive_market == old(self).competitive_market,
                self.stock_market == old(self).stock_market,
                self.products == old(self).products,
                self.recipes == old(self).recipes,
                self.day == old(self).day,
                self.is_bankrupt == old(self).is_bankrupt,
                self.current_store == old(self).current_store,
                self.current_factory == old(self).current_factory,
            decreases n_factories - fi,
        {
            proof {
                assert(factories0.take(fi as int + 1).drop_last() =~= factories0.take(fi as int));
                assert(factories0.take(fi as int + 1).last() == factories0[fi as int]);
            }
            let mut completed = factory_advance_at(&mut self.player.factories, fi);
            production_completed.append(&mut completed);
            let at: bool = self.player.factories[fi].auto_transfer;
            if at {
                match self.player.factories[fi].primary_store() {
                    Some(store_id) => {
                        match self.get_store_index_by_id(store_id) {
                            Some(target) => {
                                let mut recs = self.auto_transfer_factory(fi, target);
                                auto_transfers.append(&mut recs);
                            },
                            None => {},
                        }
                    },
                    None => {},
                }
            }
            fi = fi + 1;
        }
        proof {
            assert(factories0.take(factories0.len() as int) =~= factories0);
        }
        (production_completed, auto_transfers)
    }
}

/// Copies out a factory's display name.
fn clone_factory_name(v: &Vec<Factory>, i: usize) -> (r: String)
    requires
        i < v@.len(),
    ensures
        r == v@[i as int].name,
{
    v[i].name.clone()
}

/// Copies out a store's display name.
fn clone_store_name(v: &Vec<Store>, i: usize) -> (r: String)
    requires
        i < v@.len(),
    ensures
        r == v@[i as int].name,
{
    v[i].name.clone()
}

/// Copies out a product's display name.
fn clone_product_name(v: &Vec<Product>, i: usize) -> (r: String)
    requires
        i < v@.len(),
    ensures
        r == v@[i as int].name,
{
    v[i].name.clone()
}

/// Starts one batch at the factory at an index.
fn factory_start_at(v: &mut Vec<Factory>, i: usize, recipe: &Recipe) -> (r: Result<
    (),
    CommandError,
>)
    requires
        i < old(v)@.len(),
        old(v)@[i as int].wf(),
        recipe.wf(),
    ensures
        final(v)@.len() == old(v)@.len(),
        final(v)@[i as int].wf(),
        forall|k: int| 0 <= k < old(v)@.len() && k != i ==> final(v)@[k] == old(v)@[k],
        r matches Err(e) ==> final(v)@[i as int] == old(v)@[i as int] && (e
            == CommandError::NoProductionSlots && old(v)@[i as int].production_queue@.len() == old(v)@[i as int].spec_production_slots() || e == CommandError::InsufficientRawMaterials && old(v)@[i as int].production_queue@.len() < old(v)@[i as int].spec_production_slots()
            && !crate::factory::spec_has_ingredients(
            old(v)@[i as int].raw_materials@,
            recipe.ingredients@,
        )),
        r matches Ok(_) ==> {
            let f0 = old(v)@[i as int];
            let f1 = final(v)@[i as int];
            &&& f0.production_queue@.len() < f0.spec_production_slots()
            &&& crate::factory::spec_has_ingredients(f0.raw_materials@, recipe.ingredients@)
            &&& f1.production_queue@.len() == f0.production_queue@.len() + 1
            &&& forall|k: int|
                0 <= k < f0.production_queue@.len() ==> f1.production_queue@[k]
                    == f0.production_queue@[k]
            &&& f1.production_queue@.last() == crate::factory::spec_job_of(*recipe)
            &&& forall|p: u32|
                #[trigger] crate::ledger::ledger_qty(f1.raw_materials@, p)
                    == crate::ledger::ledger_qty(f0.raw_materials@, p)
                    - crate::factory::spec_need(recipe.ingredients@, p)
            &&& f1.finished_goods == f0.finished_goods
            &&& f1.workers == f0.workers
            &&& f1.id == f0.id
            &&& f1.name == f0.name
            &&& f1.daily_rent == f0.daily_rent
            &&& f1.connected_stores == f0.connected_stores
            &&& f1.auto_transfer == f0.auto_transfer
        },
{
    let f = &mut v[i];
    f.start_production(recipe)
}

/// Starts up to a number of batches at the factory at an index.
fn factory_start_batch_at(v: &mut Vec<Factory>, i: usize, recipe: &Recipe, quantity: u32) -> (r:
    Result<u32, CommandError>)
    requires
        i < old(v)@.len(),
        old(v)@[i as int].wf(),
        recipe.wf(),
    ensures
        final(v)@.len() == old(v)@.len(),
        final(v)@[i as int].wf(),
        forall|k: int| 0 <= k < old(v)@.len() && k != i ==> final(v)@[k] == old(v)@[k],
        r matches Err(e) ==> final(v)@[i as int] == old(v)@[i as int] && (e
            == CommandError::QuantityZero && quantity == 0 || quantity > 0 && e
            == CommandError::NoProductionSlots && old(v)@[i as int].production_queue@.len() == old(v)@[i as int].spec_production_slots() || quantity > 0 && e
            == CommandError::InsufficientRawMaterials && old(v)@[i as int].production_queue@.len()
            < old(v)@[i as int].spec_production_slots() && old(v)@[i as int].spec_max_producible(
            *recipe,
        ) == 0),
        r matches Ok(n) ==> {
            let f0 = old(v)@[i as int];
            let f1 = final(v)@[i as int];
            let maxp = f0.spec_max_producible(*recipe);
            &&& quantity > 0
            &&& maxp > 0
            &&& n == if quantity as int <= maxp {
                quantity as int
            } else {
                maxp
            }
            &&& f1.production_queue@.len() == f0.production_queue@.len() + n as int
            &&& forall|k: int|
                0 <= k < f0.production_queue@.len() ==> f1.production_queue@[k]
                    == f0.production_queue@[k]
            &&& forall|k: int|
                f0.production_queue@.len() <= k < f1.production_queue@.len()
                    ==> f1.production_queue@[k] == crate::factory::spec_job_of(*recipe)
            &&& forall|p: u32|
                #[trigger] crate::ledger::ledger_qty(f1.raw_materials@, p)
                    == crate::ledger::ledger_qty(f0.raw_materials@, p) - n
                    * crate::factory::spec_need(recipe.ingredients@, p)
            &&& f1.finished_goods == f0.finished_goods
            &&& f1.workers == f0.workers
            &&& f1.id == f0.id
            &&& f1.name == f0.name
            &&& f1.daily_rent == f0.daily_rent
            &&& f1.connected_stores == f0.connected_stores
            &&& f1.auto_transfer == f0.auto_transfer
        },
{
    let f = &mut v[i];
    f.start_production_batch(recipe, quantity)
}

/// Takes finished goods out of the factory at an index.
fn factory_take_goods_at(v: &mut Vec<Factory>, i: usize, product_id: u32, quantity: u64) -> (r:
    Result<u64, CommandError>)
    requires
        i < old(v)@.len(),
        old(v)@[i as int].wf(),
    ensures
        final(v)@.len() == old(v)@.len(),
        final(v)@[i as int].wf(),
        forall|k: int| 0 <= k < old(v)@.len() && k != i ==> final(v)@[k] == old(v)@[k],
        r matches Err(e) ==> final(v)@[i as int] == old(v)@[i as int] && e
            == CommandError::NoFinishedGoods && crate::ledger::ledger_qty(
            old(v)@[i as int].finished_goods@,
            product_id,
        ) == 0,
        r matches Ok(n) ==> {
            let f0 = old(v)@[i as int];
            let f1 = final(v)@[i as int];
            let avail = crate::ledger::ledger_qty(f0.finished_goods@, product_id);
            &&& avail > 0
            &&& n == if quantity as int <= avail {
                quantity as int
            } else {
                avail
            }
            &&& crate::ledger::ledger_qty(f1.finished_goods@, product_id) == avail - n
            &&& forall|p: u32|
                p != product_id ==> #[trigger] crate::ledger::ledger_qty(f1.finished_goods@, p)
                    == crate::ledger::ledger_qty(f0.finished_goods@, p)
            &&& f1.raw_materials == f0.raw_materials
            &&& f1.production_queue == f0.production_queue
            &&& f1.workers == f0.workers
            &&& f1.id == f0.id
            &&& f1.name == f0.name
            &&& f1.daily_rent == f0.daily_rent
            &&& f1.connected_stores == f0.connected_stores
            &&& f1.auto_transfer == f0.auto_transfer
        },
{
    let f = &mut v[i];
    f.take_finished_goods(product_id, quantity)
}

/// Connects the factory at an index to a store.
fn factory_connect_at(v: &mut Vec<Factory>, i: usize, store_id: u32)
    requires
        i < old(v)@.len(),
        old(v)@[i as int].wf(),
    ensures
        final(v)@.len() == old(v)@.len(),
        final(v)@[i as int].wf(),
        forall|k: int| 0 <= k < old(v)@.len() && k != i ==> final(v)@[k] == old(v)@[k],
        final(v)@[i as int].connected_stores@ == if old(v)@[i as int].connected_stores@.contains(store_id) {
            old(v)@[i as int].connected_stores@
        } else {
            old(v)@[i as int].connected_stores@.push(store_id)
        },
        final(v)@[i as int] == (Factory {
            connected_stores: final(v)@[i as int].connected_stores,
            ..old(v)@[i as int]
        }),
{
    let f = &mut v[i];
    f.connect_store(store_id);
}

/// Disconnects the factory at an index from a store.
fn factory_disconnect_at(v: &mut Vec<Factory>, i: usize, store_id: u32)
    requires
        i < old(v)@.len(),
        old(v)@[i as int].wf(),
    ensures
        final(v)@.len() == old(v)@.len(),
        final(v)@[i as int].wf(),
        forall|k: int| 0 <= k < old(v)@.len() && k != i ==> final(v)@[k] == old(v)@[k],
        !final(v)@[i as int].connected_stores@.contains(store_id),
        forall|s: u32|
            s != store_id ==> (final(v)@[i as int].connected_stores@.contains(s) == old(v)@[i as int].connected_stores@.contains(s)),
        final(v)@[i as int] == (Factory {
            connected_stores: final(v)@[i as int].connected_stores,
            ..old(v)@[i as int]
        }),
{
    let f = &mut v[i];
    f.disconnect_store(store_id);
}

/// Flips the auto-transfer switch of the factory at an index; returns the
/// new setting.
fn factory_toggle_at(v: &mut Vec<Factory>, i: usize) -> (r: bool)
    requires
        i < old(v)@.len(),
        old(v)@[i as int].wf(),
    ensures
        final(v)@.len() == old(v)@.len(),
        final(v)@[i as int].wf(),
        forall|k: int| 0 <= k < old(v)@.len() && k != i ==> final(v)@[k] == old(v)@[k],
        r == !old(v)@[i as int].auto_transfer,
        final(v)@[i as int] == (Factory { auto_transfer: r, ..old(v)@[i as int] }),
{
    let f = &mut v[i];
    f.toggle_auto_transfer();
    v[i].auto_transfer
}

/// Stocks goods into the store at an index.
fn store_add_inventory_at(v: &mut Vec<Store>, i: usize, product_id: u32, quantity: u64, price: u64)
    requires
        i < old(v)@.len(),
        old(v)@[i as int].wf(),
        quantity <= QTY_CAP,
        price <= MONEY_CAP,
    ensures
        final(v)@.len() == old(v)@.len(),
        final(v)@[i as int].wf(),
        forall|k: int| 0 <= k < old(v)@.len() && k != i ==> final(v)@[k] == old(v)@[k],
        inv_qty(final(v)@[i as int].inventory@, product_id) == crate::money::cap_qty(
            inv_qty(old(v)@[i as int].inventory@, product_id) + quantity,
        ),
        inv_price(final(v)@[i as int].inventory@, product_id) == if inv_has(
            old(v)@[i as int].inventory@,
            product_id,
        ) {
            inv_price(old(v)@[i as int].inventory@, product_id)
        } else {
            Some(price)
        },
        forall|p: u32|
            p != product_id ==> #[trigger] inv_qty(final(v)@[i as int].inventory@, p) == inv_qty(
                old(v)@[i as int].inventory@,
                p,
            ),
        forall|p: u32|
            p != product_id ==> #[trigger] inv_price(final(v)@[i as int].inventory@, p)
                == inv_price(old(v)@[i as int].inventory@, p),
        final(v)@[i as int].id == old(v)@[i as int].id,
        final(v)@[i as int].name == old(v)@[i as int].name,
        final(v)@[i as int].daily_customers == old(v)@[i as int].daily_customers,
        final(v)@[i as int].employees == old(v)@[i as int].employees,
        final(v)@[i as int].daily_rent == old(v)@[i as int].daily_rent,
{
    let s = &mut v[i];
    s.add_inventory(product_id, quantity, price);
}

/// Reprices a product in the store at an index.
fn store_set_price_at(v: &mut Vec<Store>, i: usize, product_id: u32, price: u64) -> (r: bool)
    requires
        i < old(v)@.len(),
        old(v)@[i as int].wf(),
        price <= MONEY_CAP,
    ensures
        final(v)@.len() == old(v)@.len(),
        final(v)@[i as int].wf(),
        forall|k: int| 0 <= k < old(v)@.len() && k != i ==> final(v)@[k] == old(v)@[k],
        r == inv_has(old(v)@[i as int].inventory@, product_id),
        !r ==> final(v)@[i as int] == old(v)@[i as int],
        r ==> {
            &&& inv_price(final(v)@[i as int].inventory@, product_id) == Some(price)
            &&& inv_qty(final(v)@[i as int].inventory@, product_id) == inv_qty(
                old(v)@[i as int].inventory@,
                product_id,
            )
            &&& forall|p: u32|
                p != product_id ==> #[trigger] inv_qty(final(v)@[i as int].inventory@, p)
                    == inv_qty(old(v)@[i as int].inventory@, p)
            &&& forall|p: u32|
                p != product_id ==> #[trigger] inv_price(final(v)@[i as int].inventory@, p)
                    == inv_price(old(v)@[i as int].inventory@, p)
            &&& final(v)@[i as int].id == old(v)@[i as int].id
            &&& final(v)@[i as int].name == old(v)@[i as int].name
            &&& final(v)@[i as int].daily_customers == old(v)@[i as int].daily_customers
            &&& final(v)@[i as int].employees == old(v)@[i as int].employees
            &&& final(v)@[i as int].daily_rent == old(v)@[i as int].daily_rent
        },
{
    let ghost v0 = v@;
    let s = &mut v[i];
    let r = s.set_price(product_id, price);
    proof {
        if !r {
            assert(v@ =~= v0);
        }
    }
    r
}

/// Reads one raw-material quantity from the factory at an index.
fn factory_get_raw_at(v: &Vec<Factory>, i: usize, product_id: u32) -> (r: u64)
    requires
        i < v@.len(),
        v@[i as int].wf(),
    ensures
        r == crate::ledger::ledger_qty(v@[i as int].raw_materials@, product_id),
{
    v[i].get_raw_material(product_id)
}

/// Stores bought raw materials into the factory at an index.
fn factory_add_raw_at(v: &mut Vec<Factory>, i: usize, product_id: u32, quantity: u64)
    requires
        i < old(v)@.len(),
        old(v)@[i as int].wf(),
        quantity <= QTY_CAP,
    ensures
        final(v)@.len() == old(v)@.len(),
        final(v)@[i as int].wf(),
        forall|k: int| 0 <= k < old(v)@.len() && k != i ==> final(v)@[k] == old(v)@[k],
        crate::ledger::ledger_qty(final(v)@[i as int].raw_materials@, product_id)
            == crate::money::cap_qty(
            crate::ledger::ledger_qty(old(v)@[i as int].raw_materials@, product_id) + quantity,
        ),
        forall|p: u32|
            p != product_id ==> #[trigger] crate::ledger::ledger_qty(
                final(v)@[i as int].raw_materials@,
                p,
            ) == crate::ledger::ledger_qty(old(v)@[i as int].raw_materials@, p),
        final(v)@[i as int] == (Factory {
            raw_materials: final(v)@[i as int].raw_materials,
            ..old(v)@[i as int]
        }),
{
    let f = &mut v[i];
    f.add_raw_material(product_id, quantity);
}

} // verus!
