use tycoon::competitor::{CompetitiveMarket, PricingStrategy};
use tycoon::economy::{EconomicState, Market};
use tycoon::errors::CommandError;
use tycoon::game::GameState;
use tycoon::loan::{MAX_LOAN, MAX_TOTAL_DEBT, MIN_LOAN};
use tycoon::product::{default_products, Category};
use tycoon::rand::trend_milli;
use tycoon::stock::{Stock, StockHolding, StockType};
use tycoon::store::Store;

#[test]
fn suggested_retail_applies_the_markup() {
    assert_eq!(Market::suggest_retail_price(200, 50_000), 300);
    assert_eq!(Market::suggest_retail_price(1000, 0), 1000);
}

#[test]
fn suggested_retail_inverts_the_markup() {
    let markup = Market::calculate_markup(200, 301);
    assert_eq!(markup, 50_500);
    assert_eq!(Market::suggest_retail_price(200, markup as u64), 301);
}

#[test]
fn markup_is_measured_in_milli_percent() {
    assert_eq!(Market::calculate_markup(200, 300), 50_000);
    assert_eq!(Market::calculate_markup(200, 100), -50_000);
    assert_eq!(Market::calculate_markup(0, 100), 0);
}

#[test]
fn wholesale_price_follows_the_economy() {
    let products = default_products();
    let mut market = Market::new(&products);
    assert_eq!(market.get_wholesale_price(1), Some(200));
    market.economic_state = EconomicState::Prosperity;
    assert_eq!(market.get_wholesale_price(1), Some(230));
    market.economic_state = EconomicState::Collapse;
    assert_eq!(market.get_wholesale_price(1), Some(160));
    assert_eq!(market.get_wholesale_price(999), None);
}

#[test]
fn sales_never_exceed_available_stock() {
    let products = default_products();
    let market = Market::new(&products);
    let sold = market.calculate_sales(&products[0], 100, 5, 1_000_000);
    assert!(sold <= 5);
    let sold_none = market.calculate_sales(&products[0], 300, 0, 1_000_000);
    assert_eq!(sold_none, 0);
}

#[test]
fn sales_floor_once_after_the_variance() {
    let products = default_products();
    let mut market = Market::new(&products);
    // This seed draws a variance of exactly 1.134; nineteen customers on a
    // Clothing product at its base price expect 1.9 units, so flooring only
    // after the variance sells two units, not one.
    market.day_seed = 2;
    let tshirt = &products[7];
    let sold = market.calculate_sales(tshirt, tshirt.base_price, 100, 19);
    assert_eq!(sold, 2);
}

#[test]
fn market_share_stays_within_its_clamp() {
    let mut cm = CompetitiveMarket::new();
    cm.calculate_market_shares(0, 0);
    assert!(cm.player_market_share_milli >= 50);
    assert!(cm.player_market_share_milli <= 950);
    let mut cm2 = CompetitiveMarket::new();
    cm2.competitors.clear();
    cm2.calculate_market_shares(1_000_000, 0);
    assert!(cm2.player_market_share_milli >= 50);
    assert!(cm2.player_market_share_milli <= 950);
}

#[test]
fn strategy_multipliers_match_their_table() {
    assert_eq!(PricingStrategy::Aggressive.price_multiplier_milli(), 850);
    assert_eq!(PricingStrategy::Premium.attraction_multiplier_milli(), 700);
    assert_eq!(PricingStrategy::Neutral.price_multiplier_milli(), 1000);
}

#[test]
fn trend_wave_starts_at_zero_and_stays_in_band() {
    assert_eq!(trend_milli(0), 0);
    for day in 0..200u32 {
        let t = trend_milli(day);
        assert!(-1000 <= t && t <= 1000);
    }
    // A quarter period in from the start the wave is near its crest.
    assert!(trend_milli(13) > 900);
}

#[test]
fn economy_extremes_are_marked() {
    assert!(EconomicState::Collapse.is_extreme());
    assert!(EconomicState::Prosperity.is_extreme());
    assert!(!EconomicState::Standard.is_extreme());
    assert_eq!(EconomicState::Prosperity.transition_up(), None);
    assert_eq!(EconomicState::Collapse.transition_down(), None);
}

#[test]
fn stock_dividends_follow_yield() {
    let stock = Stock::new(9, "DIVY", "Dividend Trust", StockType::BlueChip, 10_000);
    assert_eq!(stock.daily_dividend(), 10_000 * 400 / 3_650_000);
    let spec = Stock::new(10, "WILD", "Wildcat Mining", StockType::Speculative, 10_000);
    assert_eq!(spec.daily_dividend(), 0);
}

#[test]
fn stock_price_never_falls_below_its_floor() {
    let mut stock = Stock::new(11, "LOW", "Lowline Goods", StockType::Speculative, 60);
    for _ in 0..50 {
        stock.update_price(&EconomicState::Collapse, -1000);
    }
    assert!(stock.price >= 50);
}

#[test]
fn holdings_average_their_purchase_price() {
    let mut h = StockHolding::new(1, 10, 100);
    h.add_shares(10, 300);
    assert_eq!(h.shares, 20);
    assert_eq!(h.avg_purchase_price, 200);
    assert!(h.remove_shares(5));
    assert_eq!(h.shares, 15);
    assert!(!h.remove_shares(100));
}

#[test]
fn store_staff_is_capped_at_three() {
    let mut store = Store::new(1, "Corner Shop");
    assert!(store.hire_employee("Avery").is_ok());
    assert!(store.hire_employee("Blake").is_ok());
    assert!(store.hire_employee("Casey").is_ok());
    assert_eq!(store.hire_employee("Drew"), Err(CommandError::MaxEmployees));
    assert_eq!(store.fire_employee(9).err(), Some(CommandError::InvalidEmployeeIndex));
    assert!(store.fire_employee(0).is_ok());
    assert_eq!(store.effective_customers(), 50 * 1400 / 1000);
}

#[test]
fn category_weights_match_their_table() {
    assert_eq!(Category::Food.demand_weight_milli(), 1200);
    assert_eq!(Category::RawMaterial.demand_weight_milli(), 0);
}

#[test]
fn command_validation_rejects_bad_input() {
    let mut gs = GameState::new();
    assert_eq!(gs.buy_inventory(999, 1), Err(CommandError::ProductNotFound));
    assert_eq!(gs.buy_inventory(1, 0), Err(CommandError::QuantityZero));
    assert_eq!(gs.switch_store(5), Err(CommandError::InvalidStoreIndex));
    assert_eq!(gs.switch_factory(0), Err(CommandError::InvalidFactoryIndex));
    assert_eq!(gs.set_retail_price(1, 0), Err(CommandError::InvalidPrice));
    assert_eq!(gs.set_retail_price(1, 100), Err(CommandError::ProductNotInInventory));
    assert_eq!(gs.start_production(1), Err(CommandError::NoFactorySelected));
    assert_eq!(gs.make_loan_payment(1, 0), Err(CommandError::PaymentNotPositive));
    assert_eq!(gs.make_loan_payment(1, 100), Err(CommandError::LoanNotFound));
    assert_eq!(
        gs.take_flexible_loan(100),
        Err(CommandError::LoanTooSmall { minimum: MIN_LOAN })
    );
    assert_eq!(
        gs.take_flexible_loan(90_000_000),
        Err(CommandError::LoanTooLarge { maximum: MAX_LOAN })
    );
    assert_eq!(gs.take_term_loan(100_000, 9), Err(CommandError::InvalidTermDays));
    assert_eq!(gs.buy_stock(999, 1), Err(CommandError::StockNotFound));
    assert_eq!(gs.sell_stock(1, 1), Err(CommandError::NoHolding));
}

#[test]
fn debt_limit_caps_total_borrowing() {
    let mut gs = GameState::new();
    gs.take_flexible_loan(2_500_000).expect("first loan fits");
    gs.take_flexible_loan(2_500_000).expect("second loan fits");
    let r = gs.take_flexible_loan(500_000);
    assert_eq!(
        r,
        Err(CommandError::DebtLimitExceeded { limit: MAX_TOTAL_DEBT, available: 0 })
    );
}

#[test]
fn production_errors_name_the_shortage() {
    let mut gs = GameState::new();
    gs.player.cash = 5_000_000;
    gs.buy_new_factory("Workshop").expect("affordable");
    assert_eq!(gs.start_production(99), Err(CommandError::RecipeNotFound));
    assert_eq!(gs.start_production(1), Err(CommandError::InsufficientRawMaterials));
    assert_eq!(gs.start_production_batch(1, 0), Err(CommandError::QuantityZero));
    gs.buy_raw_materials(11, 20).expect("lumber affordable");
    gs.start_production_batch(1, 2).expect("two batches start");
    assert_eq!(gs.start_production(1), Err(CommandError::NoProductionSlots));
    assert_eq!(gs.buy_raw_materials(1, 1), Err(CommandError::NotRawMaterial));
    assert_eq!(gs.buy_raw_materials(11, 0), Err(CommandError::QuantityZero));
    assert_eq!(gs.transfer_to_store(16, 0, 0), Err(CommandError::QuantityZero));
    assert_eq!(gs.transfer_to_store(16, 1, 0), Err(CommandError::NotConnectedToStore));
    gs.connect_factory_to_store(0).expect("connects");
    assert_eq!(gs.transfer_to_store(16, 1, 0), Err(CommandError::NoFinishedGoods));
}

#[test]
fn workers_grow_slots_and_cannot_leave_mid_job() {
    let mut gs = GameState::new();
    gs.player.cash = 5_000_000;
    gs.buy_new_factory("Mill").expect("affordable");
    gs.buy_raw_materials(11, 20).expect("lumber affordable");
    let f = &mut gs.player.factories[0];
    f.hire_worker("Jordan").expect("first worker");
    assert_eq!(f.production_slots(), 3);
    gs.start_production_batch(1, 3).expect("three batches fill three slots");
    let f = &mut gs.player.factories[0];
    assert_eq!(f.fire_worker(0).err(), Some(CommandError::WorkersBusy));
    assert_eq!(f.fire_worker(7).err(), Some(CommandError::InvalidWorkerIndex));
    f.hire_worker("Kim").expect("second worker");
    f.hire_worker("Lee").expect("third worker");
    assert_eq!(f.hire_worker("Max"), Err(CommandError::MaxWorkers));
    // With five slots and three jobs, one worker may now leave.
    assert!(f.fire_worker(0).is_ok());
}

#[test]
fn stock_round_trip_moves_cash_both_ways() {
    let mut gs = GameState::new();
    let cash0 = gs.player.cash;
    let cost = gs.buy_stock(6, 10).expect("shares affordable");
    assert_eq!(cost, 8_000);
    assert_eq!(gs.player.cash, cash0 - 8_000);
    assert_eq!(
        gs.buy_stock(6, 1_000_000),
        Err(CommandError::NotEnoughCash { needed: 800_000_000, have: gs.player.cash })
    );
    assert_eq!(
        gs.sell_stock(6, 11),
        Err(CommandError::NotEnoughShares { owned: 10, requested: 11 })
    );
    let proceeds = gs.sell_stock(6, 10).expect("shares held");
    assert_eq!(proceeds, 8_000);
    assert_eq!(gs.player.cash, cash0);
    assert!(gs.player.get_holding(6).is_none());
}

#[test]
fn dividends_accumulate_into_holdings() {
    let mut gs = GameState::new();
    gs.buy_stock(1, 5).expect("shares affordable");
    let total = gs.player.collect_dividends(&gs.stock_market);
    let per_share = gs.stock_market.get_stock(1).unwrap().daily_dividend();
    assert_eq!(total, per_share * 5);
    assert_eq!(gs.player.get_holding(1).unwrap().total_dividends_earned, per_share * 5);
}

#[test]
fn transfers_reach_the_connected_store() {
    let mut gs = GameState::new();
    gs.player.cash = 5_000_000;
    gs.buy_new_factory("Joinery").expect("affordable");
    gs.buy_raw_materials(11, 4).expect("lumber affordable");
    gs.start_production_batch(1, 2).expect("two chairs start");
    gs.connect_factory_to_store(0).expect("connects");
    gs.advance_day();
    assert_eq!(gs.player.factories[0].get_finished_good(16), 2);
    let moved = gs.transfer_to_store(16, 2, 0).expect("transfer succeeds");
    assert_eq!(moved, 2);
    assert_eq!(gs.player.stores[0].get_quantity(16), 2);
    assert_eq!(gs.player.stores[0].get_price(16), Some(3750));
    assert_eq!(gs.player.factories[0].get_finished_good(16), 0);
}

#[test]
fn auto_transfer_ships_everything_on_the_tick() {
    let mut gs = GameState::new();
    gs.player.cash = 5_000_000;
    gs.buy_new_factory("Chairworks").expect("affordable");
    gs.buy_raw_materials(11, 4).expect("lumber affordable");
    gs.start_production_batch(1, 2).expect("two chairs start");
    gs.connect_factory_to_store(0).expect("connects");
    gs.toggle_factory_auto_transfer().expect("switches on");
    let r = gs.advance_day();
    assert_eq!(r.auto_transfers.len(), 1);
    assert_eq!(r.auto_transfers[0].quantity, 2);
    assert_eq!(gs.player.factories[0].get_finished_good(16), 0);
    assert_eq!(gs.player.stores[0].get_quantity(16), 2);
}
