use blackbox_sim::action::{checked_amount, execute_intent, transfer, ActionContext, Facility, SimBooks};
use blackbox_sim::firm::{Offer, OfferKind, OfferStatus};
use blackbox_sim::genesis::{build_campaign_genesis, Difficulty, GenesisRequest};
use blackbox_sim::ledger::{AccountCode, TxKind};
use blackbox_sim::market::{MarketTickView, Regime};
use blackbox_sim::settle::{
    close_period, demand_units, operate_tick, section_of, verify_inventory_reconciled, CfSection,
    CashFlowStatement, SettleError, TICKS_PER_QUARTER,
};
use blackbox_sim::snapshot::{
    digest_state, GenerationStore, KernelState, SnapshotError, MAX_GENERATIONS, MAX_SNAPSHOT_BYTES,
};
use blackbox_sim::telemetry::ActionIntent;

fn ok<T, E: std::fmt::Debug>(r: Result<T, E>) -> T {
    match r {
        Ok(v) => v,
        Err(e) => unreachable!("settle test setup failed: {e:?}"),
    }
}

fn market(tick: u32) -> MarketTickView {
    MarketTickView {
        tick,
        regime: Regime::Calm,
        commodity_price_minor: 5_000,
        equity_index_centi: 1_000_000,
        demand_index_micro: 1_000_000,
        rate_bp: 300,
        jump_occurred: false,
    }
}

fn fixture() -> (ActionContext, SimBooks) {
    let g = ok(build_campaign_genesis(GenesisRequest {
        scenario_id: 7,
        difficulty: Difficulty::Standard,
        campaign_index: 0,
        created_date: "2026-07-27".to_string(),
    }));
    let mut books = ok(SimBooks::new(&g.firm));
    ok(books.seed_capital(g.firm.opening_capital_minor));
    (ActionContext { market: market(1), firm_params: g.firm }, books)
}

#[test]
fn facility_wire_ids_frozen() {
    assert_eq!(Facility::Senior as u8, 0);
    assert_eq!(Facility::Mezzanine as u8, 1);
    assert_eq!(Facility::Senior.account(), AccountCode::SeniorDebt);
    assert_eq!(Facility::Mezzanine.account(), AccountCode::MezzanineDebt);
}

#[test]
fn every_account_has_exactly_one_home() {
    let mut classified = 0;
    for account in AccountCode::all() {
        match section_of(account) {
            None => assert_eq!(account, AccountCode::Cash),
            Some(_) => classified += 1,
        }
    }
    assert_eq!(classified, AccountCode::all().len() - 1);
    assert_eq!(section_of(AccountCode::PropertyPlantEquipment), Some(CfSection::Investing));
    assert_eq!(section_of(AccountCode::SeniorDebt), Some(CfSection::Financing));
    assert_eq!(section_of(AccountCode::Inventory), Some(CfSection::Operating));
}

#[test]
fn demand_falls_as_price_rises_and_dies_at_twice_reference() {
    let base = 1_000;
    let reference = 10_000;
    let at_ref = ok(demand_units(base, reference, reference, 1_000_000));
    let cheap = ok(demand_units(base, reference, reference / 2, 1_000_000));
    let dear = ok(demand_units(base, reference, reference * 3 / 2, 1_000_000));
    let choked = ok(demand_units(base, reference, reference * 2, 1_000_000));
    assert_eq!(at_ref, 1_000);
    assert!(cheap > at_ref && at_ref > dear && dear > choked);
    assert_eq!(cheap, 1_500);
    assert_eq!(dear, 500);
    assert_eq!(choked, 0);
    assert_eq!(ok(demand_units(base, reference, reference * 5, 1_000_000)), 0);
    assert_eq!(ok(demand_units(base, 0, 10, 1_000_000)), 0);
    assert_eq!(ok(demand_units(base, reference, reference, -5)), 0);
    assert!(matches!(demand_units(i64::MAX, reference, 0, i64::MAX), Err(SettleError::Overflow)));
}

#[test]
fn an_empty_period_produces_a_zero_statement() {
    let (_ctx, books) = fixture();
    let cf = ok(CashFlowStatement::between(&books.balances, &books.balances));
    ok(cf.verify());
    assert_eq!(cf.net_change_minor, 0);
    assert_eq!(cf.cash_delta_minor, 0);
    assert_eq!(cf.net_income_minor, 0);
}

#[test]
fn financing_and_investing_land_in_their_own_sections() {
    let (ctx, mut books) = fixture();
    let begin = books.balances.clone();
    let _ = ok(execute_intent(ActionIntent::Borrow { facility: 0, amount_minor: 400_000 }, &ctx, &mut books));
    let _ = ok(execute_intent(ActionIntent::Invest { project_id: 0, amount_minor: 250_000 }, &ctx, &mut books));
    let cf = ok(CashFlowStatement::between(&begin, &books.balances));
    ok(cf.verify());
    assert_eq!(cf.financing_minor, 400_000);
    assert_eq!(cf.investing_minor, -250_000);
    assert_eq!(cf.operating_minor, 0);
    assert_eq!(cf.net_change_minor, 150_000);
    assert_eq!(cf.cash_delta_minor, 150_000);
}

#[test]
fn selling_shows_up_as_operating_cash() {
    let (ctx, mut books) = fixture();
    let _ = ok(execute_intent(ActionIntent::OrderInventory { sku: 0, units: 500 }, &ctx, &mut books));
    let begin = books.balances.clone();
    let tick = ok(operate_tick(&ctx, &mut books));
    assert!(tick.revenue_minor > 0, "the firm must actually sell something");
    let cf = ok(CashFlowStatement::between(&begin, &books.balances));
    ok(cf.verify());
    assert_eq!(cf.investing_minor, 0);
    assert_eq!(cf.financing_minor, 0);
    assert_eq!(cf.operating_minor, cf.cash_delta_minor);
    assert_eq!(cf.net_income_minor, tick.revenue_minor - tick.cogs_minor);
}

#[test]
fn stockouts_are_reported_not_conjured() {
    let (ctx, mut books) = fixture();
    let _ = ok(execute_intent(ActionIntent::OrderInventory { sku: 0, units: 5 }, &ctx, &mut books));
    let tick = ok(operate_tick(&ctx, &mut books));
    assert!(tick.unmet_units > 0, "demand should exceed five units");
    assert_eq!(ok(books.firm.sku(0)).inventory_units, 0);
    assert_eq!(ok(books.firm.sku(0)).inventory_value_minor, 0);
    assert_eq!(books.balances.balance_minor(AccountCode::Inventory), 0);
    ok(verify_inventory_reconciled(&books));
}

#[test]
fn a_close_charges_depreciation_interest_and_tax() {
    let (ctx, mut books) = fixture();
    let _ = ok(execute_intent(ActionIntent::Borrow { facility: 0, amount_minor: 2_000_000 }, &ctx, &mut books));
    let _ = ok(execute_intent(ActionIntent::Invest { project_id: 0, amount_minor: 1_000_000 }, &ctx, &mut books));
    let _ = ok(execute_intent(ActionIntent::OrderInventory { sku: 0, units: 2_000 }, &ctx, &mut books));
    let begin = books.balances.clone();
    let _ = ok(operate_tick(&ctx, &mut books));
    let close = ok(close_period(&ctx, &mut books, &begin));
    assert!(close.depreciation_minor > 0);
    assert!(close.interest_minor > 0);
    ok(close.cash_flow.verify());
    assert_eq!(close.cash_flow.depreciation_minor, close.depreciation_minor);
    assert!(close.cash_flow.operating_minor > close.cash_flow.net_income_minor);
}

#[test]
fn depreciation_never_drives_book_value_below_zero() {
    let (ctx, mut books) = fixture();
    let _ = ok(execute_intent(ActionIntent::Invest { project_id: 0, amount_minor: 100_000 }, &ctx, &mut books));
    for _ in 0..200 {
        let begin = books.balances.clone();
        let _ = ok(close_period(&ctx, &mut books, &begin));
    }
    let gross = books.balances.balance_minor(AccountCode::PropertyPlantEquipment);
    let accumulated = -books.balances.balance_minor(AccountCode::AccumulatedDepreciation);
    assert_eq!(accumulated, gross);
}

#[test]
fn a_loss_making_period_is_not_taxed() {
    let (ctx, mut books) = fixture();
    let _ = ok(execute_intent(ActionIntent::Borrow { facility: 1, amount_minor: 5_000_000 }, &ctx, &mut books));
    let begin = books.balances.clone();
    let close = ok(close_period(&ctx, &mut books, &begin));
    assert!(close.interest_minor > 0);
    assert_eq!(close.tax_minor, 0);
    assert!(close.cash_flow.net_income_minor < 0);
    ok(close.cash_flow.verify());
}

#[test]
fn prepaid_cover_is_consumed_at_the_next_close() {
    let (ctx, mut books) = fixture();
    let id = ok(books.firm.place_offer(Offer { kind: OfferKind::Insurance, cost_minor: 300_000, status: OfferStatus::Open }));
    let _ = ok(execute_intent(ActionIntent::AcceptOffer { offer_id: id }, &ctx, &mut books));
    assert_eq!(books.balances.balance_minor(AccountCode::PrepaidExpenses), 300_000);
    let begin = books.balances.clone();
    let close = ok(close_period(&ctx, &mut books, &begin));
    assert_eq!(close.amortised_prepaid_minor, 300_000);
    assert_eq!(books.balances.balance_minor(AccountCode::PrepaidExpenses), 0);
    ok(close.cash_flow.verify());
}

#[test]
fn the_identity_survives_a_period_with_every_kind_of_event() {
    let (mut ctx, mut books) = fixture();
    let begin = books.balances.clone();
    let offer = ok(books.firm.place_offer(Offer { kind: OfferKind::Insurance, cost_minor: 90_000, status: OfferStatus::Open }));
    let intents = [
        ActionIntent::Borrow { facility: 0, amount_minor: 3_000_000 },
        ActionIntent::Borrow { facility: 1, amount_minor: 1_500_000 },
        ActionIntent::Invest { project_id: 0, amount_minor: 800_000 },
        ActionIntent::Invest { project_id: 1, amount_minor: 200_000 },
        ActionIntent::AcceptOffer { offer_id: offer },
        ActionIntent::SetPrice { sku: 1, tick_price: 7_777 },
        ActionIntent::OrderInventory { sku: 0, units: 1_200 },
        ActionIntent::OrderInventory { sku: 1, units: 900 },
        ActionIntent::OrderInventory { sku: 2, units: 300 },
        ActionIntent::OpenHedge { instrument: 0, notional_minor: 500_000 },
        ActionIntent::Repay { facility: 0, amount_minor: 400_000 },
        ActionIntent::AbandonProject { project_id: 1 },
        ActionIntent::ForecastInterval { lo_minor: 10, hi_minor: 20 },
        ActionIntent::Abstain,
    ];
    for intent in intents {
        let _ = ok(execute_intent(intent, &ctx, &mut books));
    }
    for t in 0..TICKS_PER_QUARTER {
        let mut m = market(2 + t);
        m.demand_index_micro = 900_000 + i64::from(t) * 20_000;
        m.equity_index_centi = 1_000_000 + i64::from(t) * 3_000;
        ctx = ActionContext { market: m, firm_params: ctx.firm_params };
        let _ = ok(operate_tick(&ctx, &mut books));
    }
    let _ = ok(execute_intent(ActionIntent::ClosePosition { position_id: 0 }, &ctx, &mut books));
    let close = ok(close_period(&ctx, &mut books, &begin));
    ok(close.cash_flow.verify());
    ok(books.balances.verify_zero_sum());
    ok(books.balances.verify_accounting_identity());
    ok(verify_inventory_reconciled(&books));
    let cf = close.cash_flow;
    assert_eq!(cf.operating_minor + cf.investing_minor + cf.financing_minor, cf.cash_delta_minor);
    assert!(cf.operating_minor != 0 && cf.investing_minor != 0 && cf.financing_minor != 0);
}

#[test]
fn a_disagreeing_statement_is_refused() {
    let (_ctx, books) = fixture();
    let mut cf = ok(CashFlowStatement::between(&books.balances, &books.balances));
    cf.net_change_minor += 1;
    assert!(matches!(
        cf.verify(),
        Err(SettleError::AccountingBreach { statement_minor: 1, cash_minor: 0 })
    ));
}

#[test]
fn inventory_desync_is_detected() {
    let (ctx, mut books) = fixture();
    let _ = ok(execute_intent(ActionIntent::OrderInventory { sku: 0, units: 10 }, &ctx, &mut books));
    ok(verify_inventory_reconciled(&books));
    let tamper = ok(transfer(TxKind::PurchaseInventory, AccountCode::Inventory, AccountCode::Cash, ok(checked_amount(1))));
    ok(books.balances.apply(&tamper));
    assert!(matches!(verify_inventory_reconciled(&books), Err(SettleError::InventoryDesync { .. })));
}

fn kernel(tick: u32, block: u64) -> KernelState {
    KernelState {
        tick,
        regime: 0,
        market_state: [1, 2, 3, 4],
        rng_position: [block, 0, 0, 0, 0, 0, 0, 0],
    }
}

#[test]
fn an_empty_store_refuses_rather_than_inventing_a_generation() {
    let store = GenerationStore::new();
    assert!(matches!(store.latest(), Err(SnapshotError::NoGenerations)));
    assert!(matches!(store.get(0), Err(SnapshotError::UnknownGeneration { generation: 0 })));
    assert!(store.is_empty());
    assert_eq!(store.resident_bytes(), 0);
}

#[test]
fn identical_states_digest_identically() {
    let (_ctx, books) = fixture();
    let a = ok(digest_state(&kernel(1, 0), &books.balances, b"{}"));
    let b = ok(digest_state(&kernel(1, 0), &books.balances, b"{}"));
    assert_eq!(a, b);
    assert_eq!(a.short()[..], a.0[..8]);
}

#[test]
fn a_ledger_change_changes_the_digest() {
    let (ctx, mut books) = fixture();
    let before = ok(digest_state(&kernel(1, 0), &books.balances, b"{}"));
    let _ = ok(execute_intent(ActionIntent::Borrow { facility: 0, amount_minor: 1 }, &ctx, &mut books));
    let after = ok(digest_state(&kernel(1, 0), &books.balances, b"{}"));
    assert_ne!(before, after);
}

#[test]
fn a_firm_only_change_changes_the_digest() {
    let (_ctx, books) = fixture();
    let before = ok(digest_state(&kernel(1, 0), &books.balances, b"{\"p\":1}"));
    let after = ok(digest_state(&kernel(1, 0), &books.balances, b"{\"p\":2}"));
    assert_ne!(before, after);
}

#[test]
fn stream_position_is_part_of_the_state() {
    let (_ctx, books) = fixture();
    let a = ok(digest_state(&kernel(1, 3), &books.balances, b"{}"));
    let b = ok(digest_state(&kernel(1, 4), &books.balances, b"{}"));
    assert_ne!(a, b);
}

#[test]
fn a_captured_generation_verifies() {
    let (_ctx, books) = fixture();
    let mut store = GenerationStore::new();
    let id = ok(store.capture(&kernel(5, 0), &books.balances, b"{}"));
    ok(store.verify(id));
    assert_eq!(ok(store.latest()).generation, id);
    assert_eq!(ok(store.latest()).tick, 5);
    assert_eq!(ok(store.latest()).state_digest, ok(digest_state(&kernel(5, 0), &books.balances, b"{}")));
    let payload = String::from_utf8(ok(store.latest()).payload.clone()).unwrap_or_default();
    assert!(payload.starts_with("{\"tick\":5,\"regime\":0,\"marketState\":[1,2,3,4],"));
    assert!(payload.ends_with(",\"firm\":{}}"));
}

#[test]
fn the_store_keeps_the_newest_generations_only() {
    let (_ctx, books) = fixture();
    let mut store = GenerationStore::new();
    for i in 0..(MAX_GENERATIONS + 3) {
        let _ = ok(store.capture(&kernel(i as u32, 0), &books.balances, b"{}"));
    }
    assert_eq!(store.len(), MAX_GENERATIONS);
    assert_eq!(ok(store.latest()).generation, (MAX_GENERATIONS + 2) as u32);
    assert!(matches!(store.get(0), Err(SnapshotError::UnknownGeneration { generation: 0 })));
    assert!(matches!(store.verify(0), Err(SnapshotError::UnknownGeneration { generation: 0 })));
}

#[test]
fn generations_stay_inside_the_size_budget() {
    let (_ctx, books) = fixture();
    let mut store = GenerationStore::new();
    let id = ok(store.capture(&kernel(1, 0), &books.balances, b"{}"));
    let g = ok(store.get(id));
    assert!(g.payload.len() <= MAX_SNAPSHOT_BYTES);
    let huge = vec![b'x'; MAX_SNAPSHOT_BYTES];
    assert!(matches!(
        store.capture(&kernel(2, 0), &books.balances, &huge),
        Err(SnapshotError::TooLarge { .. })
    ));
    assert_eq!(store.len(), 1, "a refused capture leaves the store as it was");
    for _ in 0..MAX_GENERATIONS {
        let _ = ok(store.capture(&kernel(1, 0), &books.balances, b"{}"));
    }
    assert!(store.resident_bytes() <= MAX_GENERATIONS * MAX_SNAPSHOT_BYTES);
}

#[test]
fn tampering_with_a_payload_is_caught() {
    let (_ctx, books) = fixture();
    let mut store = GenerationStore::new();
    let id = ok(store.capture(&kernel(3, 0), &books.balances, b"{}"));
    ok(store.verify(id));
    let mut generations = store.generations().to_vec();
    match generations.first_mut() {
        Some(g) => g.payload.push(b' '),
        None => unreachable!("a generation was just captured"),
    }
    let store = GenerationStore::from_generations(generations, store.next_generation());
    assert!(
        matches!(store.verify(id), Err(SnapshotError::DigestMismatch)),
        "a corrupted payload must be refused, never loaded"
    );
}

#[test]
fn a_broken_latest_does_not_fall_back_to_an_older_one() {
    let (ctx, mut books) = fixture();
    let mut store = GenerationStore::new();
    let first = ok(store.capture(&kernel(3, 0), &books.balances, b"{}"));
    let _ = ok(execute_intent(
        ActionIntent::Borrow { facility: 0, amount_minor: 5_000 },
        &ctx,
        &mut books,
    ));
    let second = ok(store.capture(&kernel(3, 0), &books.balances, b"{}"));
    let mut generations = store.generations().to_vec();
    match generations.last_mut() {
        Some(g) => g.payload.clear(),
        None => unreachable!("two generations were just captured"),
    }
    let store = GenerationStore::from_generations(generations, store.next_generation());
    assert!(matches!(store.verify(second), Err(SnapshotError::DigestMismatch)));
    ok(store.verify(first));
    assert_ne!(ok(store.get(first)).state_digest, ok(store.get(second)).state_digest);
}
