use tycoon::game::GameState;

fn prepared_game() -> GameState {
    let mut gs = GameState::new();
    gs.day = 5;
    gs.buy_inventory(1, 100).expect("buying bread must succeed");
    gs.set_retail_price(1, 300).expect("pricing bread must succeed");
    gs
}

#[test]
fn day_tick_is_deterministic_for_a_day_number() {
    let mut a = prepared_game();
    let mut b = prepared_game();
    let ra = a.advance_day();
    let rb = b.advance_day();
    assert_eq!(ra.total_revenue, rb.total_revenue);
    assert_eq!(ra.total_items_sold, rb.total_items_sold);
    assert_eq!(ra.total_expenses, rb.total_expenses);
    assert_eq!(ra.net_profit, rb.net_profit);
    assert_eq!(ra.economic_state, rb.economic_state);
    assert_eq!(ra.player_market_share_milli, rb.player_market_share_milli);
    assert_eq!(ra.loan_interest_accrued, rb.loan_interest_accrued);
    assert_eq!(ra.loan_payments, rb.loan_payments);
    assert_eq!(ra.loans_due, rb.loans_due);
    assert_eq!(ra.dividends_earned, rb.dividends_earned);
    assert_eq!(a.player.cash, b.player.cash);
    assert_eq!(a.day, b.day);
}

#[test]
fn term_loan_defaults_on_the_seventh_day_and_survives() {
    let mut gs = GameState::new();
    let id = gs.take_term_loan(100_000, 7).expect("the loan must be granted");
    gs.player.cash = 0;
    for day in 0..6 {
        let r = gs.advance_day();
        assert_eq!(r.loans_due.len(), 0, "no due entry before day seven (tick {})", day);
        gs.player.cash = 0;
    }
    let before = gs.player.get_loan(id).expect("loan still active").balance;
    let r = gs.advance_day();
    assert_eq!(r.loans_due.len(), 1);
    assert_eq!(r.loans_due[0].0, id);
    assert!(r.term_loan_penalties > 0);
    let after = gs.player.get_loan(id).expect("the defaulted loan is not written off");
    assert!(after.balance > before);
}

#[test]
fn production_pipeline_is_slot_limited_and_completes() {
    let mut gs = GameState::new();
    gs.player.cash = 2_000_000;
    gs.buy_new_factory("Assembly Hall").expect("the factory must be affordable");
    // Lumber for exactly three chair batches (two lumber per batch).
    gs.buy_raw_materials(11, 6).expect("the lumber must be affordable");
    let started = gs.start_production_batch(1, 5).expect("production must start");
    assert_eq!(started, 2, "two slots limit the batch");
    assert_eq!(gs.player.factories[0].available_slots(), 0);
    let r = gs.advance_day();
    assert_eq!(r.production_completed.len(), 2);
    assert_eq!(gs.player.factories[0].get_finished_good(16), 2);
}

#[test]
fn bankruptcy_triggers_when_expenses_exceed_cash() {
    let mut gs = GameState::new();
    gs.player.cash = 5_000;
    let r = gs.advance_day();
    assert!(gs.player.cash < 0);
    assert!(gs.is_bankrupt);
    assert!(r.total_expenses >= 10_000);
}

#[test]
fn bankruptcy_flag_is_sticky() {
    let mut gs = GameState::new();
    gs.player.cash = 0;
    gs.advance_day();
    assert!(gs.is_bankrupt);
    gs.player.cash = 10_000_000;
    gs.advance_day();
    assert!(gs.is_bankrupt);
}

#[test]
fn buy_inventory_conserves_cash_and_stock() {
    let mut gs = GameState::new();
    let cash_before = gs.player.cash;
    let qty_before = gs.player.stores[0].get_quantity(1);
    let cost = gs.buy_inventory(1, 10).expect("bread must be affordable");
    assert_eq!(cost, 10 * 200);
    assert_eq!(gs.player.cash, cash_before - cost as i64);
    assert_eq!(gs.player.stores[0].get_quantity(1), qty_before + 10);
    // A repeat purchase accumulates, never overwrites.
    gs.buy_inventory(1, 5).expect("more bread must be affordable");
    assert_eq!(gs.player.stores[0].get_quantity(1), qty_before + 15);
}

#[test]
fn line_of_credit_auto_pays_daily() {
    let mut gs = GameState::new();
    let id = gs.take_line_of_credit(100_000).expect("the credit line must be granted");
    let r = gs.advance_day();
    assert_eq!(r.loan_payments.len(), 1);
    assert_eq!(r.loan_payments[0].0, id);
    assert!(r.loan_payments[0].1 >= 1_000);
    let loan = gs.player.get_loan(id).expect("the loan is still active");
    assert!(loan.balance < 100_000 + r.loan_interest_accrued);
}
