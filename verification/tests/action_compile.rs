use blackbox_sim::action::{
    compile, execute_intent, unit_cost_minor, ActionContext, ActionPlan, CompileError, SimBooks,
    MAX_ACTION_AMOUNT_MINOR,
};
use blackbox_sim::firm::{FirmError, Offer, OfferKind, OfferStatus, MAX_ORDER_UNITS};
use blackbox_sim::genesis::{build_campaign_genesis, Difficulty, GenesisRequest};
use blackbox_sim::ledger::{AccountCode, LedgerError, JOURNAL_TAIL_CAPACITY};
use blackbox_sim::market::{MarketTickView, Regime};
use blackbox_sim::telemetry::ActionIntent;

fn ok<T, E: std::fmt::Debug>(r: Result<T, E>) -> T {
    match r {
        Ok(v) => v,
        Err(e) => unreachable!("action test setup failed: {e:?}"),
    }
}

/// A published tick as the market kernel would hand it over.
fn first_tick() -> MarketTickView {
    MarketTickView {
        tick: 1,
        regime: Regime::Calm,
        commodity_price_minor: 5_123,
        equity_index_centi: 1_000_000,
        demand_index_micro: 1_000_000,
        rate_bp: 300,
        jump_occurred: false,
    }
}

fn fixture(cash: i64) -> (ActionContext, SimBooks) {
    let g = ok(build_campaign_genesis(GenesisRequest {
        scenario_id: 7,
        difficulty: Difficulty::Standard,
        campaign_index: 0,
        created_date: "2026-07-27".to_string(),
    }));
    let mut books = ok(SimBooks::new(&g.firm));
    ok(books.seed_capital(cash));
    (ActionContext { market: first_tick(), firm_params: g.firm }, books)
}

fn flat_market(ctx: &ActionContext, index_centi: i64) -> ActionContext {
    ActionContext {
        market: MarketTickView { equity_index_centi: index_centi, ..ctx.market },
        firm_params: ctx.firm_params,
    }
}

#[test]
fn borrow_credits_the_named_facility_only() {
    let (ctx, mut books) = fixture(1_000_000);
    let out = ok(execute_intent(
        ActionIntent::Borrow { facility: 1, amount_minor: 250_000 },
        &ctx,
        &mut books,
    ));
    assert!(out.ledger_effect);
    assert_eq!(books.balances.balance_minor(AccountCode::Cash), 1_250_000);
    assert_eq!(books.balances.balance_minor(AccountCode::MezzanineDebt), -250_000);
    assert_eq!(books.balances.balance_minor(AccountCode::SeniorDebt), 0);
    ok(books.balances.verify_zero_sum());
}

#[test]
fn repay_beyond_outstanding_is_refused() {
    let (ctx, mut books) = fixture(1_000_000);
    let _ = ok(execute_intent(
        ActionIntent::Borrow { facility: 0, amount_minor: 100_000 },
        &ctx,
        &mut books,
    ));
    let before = books.balances.clone();
    assert!(matches!(
        execute_intent(
            ActionIntent::Repay { facility: 0, amount_minor: 100_001 },
            &ctx,
            &mut books
        ),
        Err(CompileError::RepayExceedsOutstanding {
            requested_minor: 100_001,
            outstanding_minor: 100_000
        })
    ));
    assert_eq!(books.balances, before);
}

#[test]
fn spending_beyond_cash_is_refused() {
    let (ctx, mut books) = fixture(500);
    let before = books.balances.clone();
    assert!(matches!(
        execute_intent(
            ActionIntent::Invest { project_id: 3, amount_minor: 501 },
            &ctx,
            &mut books
        ),
        Err(CompileError::InsufficientCash { needed_minor: 501, available_minor: 500 })
    ));
    assert_eq!(books.balances, before);
}

#[test]
fn amounts_are_bounded_before_money_is_built() {
    let (ctx, books) = fixture(1_000_000);
    for bad in [0_i64, -1, MAX_ACTION_AMOUNT_MINOR + 1, i64::MAX] {
        assert!(matches!(
            compile(
                ActionIntent::Borrow { facility: 0, amount_minor: bad },
                &ctx,
                &books.balances,
                &books.firm
            ),
            Err(CompileError::AmountOutOfRange { got_minor }) if got_minor == bad
        ));
    }
}

#[test]
fn unknown_facility_fails_closed() {
    let (ctx, books) = fixture(1_000);
    assert!(matches!(
        compile(
            ActionIntent::Borrow { facility: 7, amount_minor: 100 },
            &ctx,
            &books.balances,
            &books.firm
        ),
        Err(CompileError::UnknownFacility { facility: 7 })
    ));
}

#[test]
fn forecast_is_validated_yet_moves_no_money() {
    let (ctx, books) = fixture(1_000);
    assert_eq!(
        ok(compile(
            ActionIntent::ForecastInterval { lo_minor: 100, hi_minor: 900 },
            &ctx,
            &books.balances,
            &books.firm
        )),
        ActionPlan::inert()
    );
    for (lo, hi) in [(900_i64, 100_i64), (-1, 100)] {
        assert!(matches!(
            compile(
                ActionIntent::ForecastInterval { lo_minor: lo, hi_minor: hi },
                &ctx,
                &books.balances,
                &books.firm
            ),
            Err(CompileError::InvalidForecastInterval { .. })
        ));
    }
}

#[test]
fn abstain_and_forced_default_are_inert() {
    let (ctx, books) = fixture(1_000);
    for intent in [ActionIntent::Abstain, ActionIntent::ForcedDefault] {
        assert_eq!(ok(compile(intent, &ctx, &books.balances, &books.firm)), ActionPlan::inert());
    }
}

#[test]
fn set_price_changes_the_line_and_nothing_else() {
    let (ctx, mut books) = fixture(1_000_000);
    let before_cash = books.balances.balance_minor(AccountCode::Cash);
    let out = ok(execute_intent(
        ActionIntent::SetPrice { sku: 0, tick_price: 9_900 },
        &ctx,
        &mut books,
    ));
    assert!(!out.ledger_effect);
    assert_eq!(ok(books.firm.sku(0)).unit_price_minor, 9_900);
    assert_eq!(books.balances.balance_minor(AccountCode::Cash), before_cash);
}

#[test]
fn ordering_inventory_prices_off_the_market_tick() {
    let (ctx, mut books) = fixture(100_000_000);
    let cfg = ok(ctx.firm_params.skus.first().copied().ok_or("no sku configured"));
    let expected_unit =
        ok(unit_cost_minor(ctx.market.commodity_price_minor, cfg.cost_multiplier_micro));
    let cash_before = books.balances.balance_minor(AccountCode::Cash);
    let _ = ok(execute_intent(ActionIntent::OrderInventory { sku: 0, units: 250 }, &ctx, &mut books));
    let spend = expected_unit * 250;
    assert_eq!(books.balances.balance_minor(AccountCode::Cash), cash_before - spend);
    assert_eq!(books.balances.balance_minor(AccountCode::Inventory), spend);
    let sku = ok(books.firm.sku(0));
    assert_eq!(sku.inventory_units, 250);
    assert_eq!(sku.inventory_value_minor, spend);
    assert_eq!(books.firm.inventory_value_minor(), spend);
}

#[test]
fn degenerate_orders_are_refused() {
    let (ctx, mut books) = fixture(100_000_000);
    for bad in [0_u32, MAX_ORDER_UNITS + 1] {
        assert!(matches!(
            execute_intent(ActionIntent::OrderInventory { sku: 0, units: bad }, &ctx, &mut books),
            Err(CompileError::OrderOutOfRange { units }) if units == bad
        ));
    }
    assert!(matches!(
        execute_intent(ActionIntent::OrderInventory { sku: 77, units: 1 }, &ctx, &mut books),
        Err(CompileError::Firm(FirmError::UnknownSku { sku: 77 }))
    ));
}

#[test]
fn accepting_an_insurance_offer_prepays_it() {
    let (ctx, mut books) = fixture(10_000_000);
    let id = ok(books.firm.place_offer(Offer {
        kind: OfferKind::Insurance,
        cost_minor: 120_000,
        status: OfferStatus::Open,
    }));
    let _ = ok(execute_intent(ActionIntent::AcceptOffer { offer_id: id }, &ctx, &mut books));
    assert_eq!(books.balances.balance_minor(AccountCode::PrepaidExpenses), 120_000);
    assert_eq!(ok(books.firm.offer(id)).status, OfferStatus::Accepted);
    assert!(matches!(
        execute_intent(ActionIntent::DeclineOffer { offer_id: id }, &ctx, &mut books),
        Err(CompileError::Firm(FirmError::OfferNotOpen { .. }))
    ));
}

#[test]
fn declining_an_offer_costs_nothing_but_closes_it() {
    let (ctx, mut books) = fixture(10_000_000);
    let id = ok(books.firm.place_offer(Offer {
        kind: OfferKind::Expansion,
        cost_minor: 500_000,
        status: OfferStatus::Open,
    }));
    let cash_before = books.balances.balance_minor(AccountCode::Cash);
    let out = ok(execute_intent(ActionIntent::DeclineOffer { offer_id: id }, &ctx, &mut books));
    assert!(!out.ledger_effect);
    assert_eq!(books.balances.balance_minor(AccountCode::Cash), cash_before);
    assert_eq!(ok(books.firm.offer(id)).status, OfferStatus::Declined);
}

#[test]
fn opening_a_hedge_posts_nothing_and_closing_realises_it() {
    let (ctx, mut books) = fixture(10_000_000);
    let entry = ctx.market.equity_index_centi;
    let cash_before = books.balances.balance_minor(AccountCode::Cash);
    let out = ok(execute_intent(
        ActionIntent::OpenHedge { instrument: 0, notional_minor: 1_000_000 },
        &ctx,
        &mut books,
    ));
    assert!(!out.ledger_effect, "a forward at the prevailing level has zero initial value");
    assert_eq!(books.balances.balance_minor(AccountCode::Cash), cash_before);
    let up = flat_market(&ctx, entry + entry / 10);
    let _ = ok(execute_intent(ActionIntent::ClosePosition { position_id: 0 }, &up, &mut books));
    let gain = books.balances.balance_minor(AccountCode::OtherIncome);
    assert!(gain < 0, "revenue is credit-normal, so signed balance is negative");
    assert_eq!(books.balances.balance_minor(AccountCode::Cash), cash_before + gain.abs());
    ok(books.balances.verify_accounting_identity());
}

#[test]
fn a_flat_close_is_a_non_event() {
    let (ctx, mut books) = fixture(10_000_000);
    let _ = ok(execute_intent(
        ActionIntent::OpenHedge { instrument: 0, notional_minor: 750_000 },
        &ctx,
        &mut books,
    ));
    let before = books.balances.clone();
    let out = ok(execute_intent(ActionIntent::ClosePosition { position_id: 0 }, &ctx, &mut books));
    assert!(!out.ledger_effect);
    assert_eq!(books.balances, before);
}

#[test]
fn abandoning_a_project_writes_off_exactly_what_was_capitalised() {
    let (ctx, mut books) = fixture(10_000_000);
    let _ = ok(execute_intent(
        ActionIntent::Invest { project_id: 0, amount_minor: 400_000 },
        &ctx,
        &mut books,
    ));
    let _ = ok(execute_intent(
        ActionIntent::Invest { project_id: 0, amount_minor: 150_000 },
        &ctx,
        &mut books,
    ));
    assert_eq!(books.balances.balance_minor(AccountCode::PropertyPlantEquipment), 550_000);
    let _ = ok(execute_intent(ActionIntent::AbandonProject { project_id: 0 }, &ctx, &mut books));
    assert_eq!(books.balances.balance_minor(AccountCode::PropertyPlantEquipment), 0);
    assert_eq!(books.balances.balance_minor(AccountCode::OperatingExpense), 550_000);
    assert_eq!(ok(books.firm.project(0)).committed_minor, 550_000);
    ok(books.balances.verify_zero_sum());
}

#[test]
fn dead_projects_absorb_nothing_further() {
    let (ctx, mut books) = fixture(10_000_000);
    let _ = ok(execute_intent(
        ActionIntent::Invest { project_id: 1, amount_minor: 10_000 },
        &ctx,
        &mut books,
    ));
    let _ = ok(execute_intent(ActionIntent::AbandonProject { project_id: 1 }, &ctx, &mut books));
    for intent in [
        ActionIntent::Invest { project_id: 1, amount_minor: 10_000 },
        ActionIntent::ContinueProject { project_id: 1 },
        ActionIntent::AbandonProject { project_id: 1 },
    ] {
        assert!(matches!(
            execute_intent(intent, &ctx, &mut books),
            Err(CompileError::Firm(FirmError::ProjectNotActive { project_id: 1 }))
        ));
    }
}

#[test]
fn acting_on_absent_entities_fails_closed() {
    let (ctx, mut books) = fixture(10_000_000);
    assert!(matches!(
        execute_intent(ActionIntent::ContinueProject { project_id: 5 }, &ctx, &mut books),
        Err(CompileError::Firm(FirmError::UnknownProject { project_id: 5 }))
    ));
    assert!(matches!(
        execute_intent(ActionIntent::AcceptOffer { offer_id: 5 }, &ctx, &mut books),
        Err(CompileError::Firm(FirmError::UnknownOffer { offer_id: 5 }))
    ));
    assert!(matches!(
        execute_intent(ActionIntent::ClosePosition { position_id: 5 }, &ctx, &mut books),
        Err(CompileError::Firm(FirmError::UnknownPosition { position_id: 5 }))
    ));
}

#[test]
fn journal_rejection_rolls_back_every_store() {
    let (ctx, mut books) = fixture(i64::from(u32::MAX));
    let borrow = ActionIntent::Borrow { facility: 0, amount_minor: 1 };
    while books.journal.len() < JOURNAL_TAIL_CAPACITY {
        let _ = ok(execute_intent(borrow, &ctx, &mut books));
    }
    let balances_before = books.balances.clone();
    let firm_before = books.firm.clone();
    let seq_before = books.journal.next_seq();
    assert!(matches!(
        execute_intent(borrow, &ctx, &mut books),
        Err(CompileError::Ledger(LedgerError::JournalTailFull))
    ));
    assert_eq!(books.balances, balances_before);
    assert_eq!(books.firm, firm_before);
    assert_eq!(books.journal.next_seq(), seq_before);
    ok(execute_intent(ActionIntent::SetPrice { sku: 0, tick_price: 4_242 }, &ctx, &mut books));
    assert_eq!(ok(books.firm.sku(0)).unit_price_minor, 4_242);
    let drained = books.journal.drain_settled();
    assert_eq!(drained.len(), JOURNAL_TAIL_CAPACITY);
    let out = ok(execute_intent(borrow, &ctx, &mut books));
    assert!(out.ledger_effect);
}

#[test]
fn context_carries_the_view_not_the_oracle() {
    let (ctx, _books) = fixture(1_000);
    assert!(matches!(ctx.market.regime, Regime::Calm | Regime::Stress));
}

#[test]
fn unit_cost_is_the_rounded_down_product() {
    assert_eq!(unit_cost_minor(5_000, 1_000_000), Ok(5_000));
    assert_eq!(unit_cost_minor(5_123, 600_000), Ok(3_074));
    assert_eq!(unit_cost_minor(5_000, 100), Ok(1));
    assert_eq!(unit_cost_minor(4_999, 100), Ok(0));
}
