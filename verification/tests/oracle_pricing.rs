use blackbox_sim::action::{ActionContext, SimBooks};
use blackbox_sim::firm::{MAX_PRICE_MINOR, MIN_PRICE_MINOR};
use blackbox_sim::genesis::{build_campaign_genesis, Difficulty, GenesisRequest};
use blackbox_sim::market::{MarketTickView, Regime};
use blackbox_sim::oracle::{pricing_optimality_gap, reference_valuation, OracleError};
use blackbox_sim::settle::demand_units;

fn or_die<T, E: std::fmt::Debug>(r: Result<T, E>) -> T {
    match r {
        Ok(v) => v,
        Err(e) => unreachable!("oracle test setup failed: {e:?}"),
    }
}

/// The kernel's one-tick-ahead expectation of the demand index, as the
/// published tick would be followed by it.
const EXPECTED_DEMAND_MICRO: i64 = 1_020_000;

fn session() -> (ActionContext, SimBooks) {
    let g = or_die(build_campaign_genesis(GenesisRequest {
        scenario_id: 42,
        difficulty: Difficulty::Standard,
        campaign_index: 0,
        created_date: "2026-07-27".to_string(),
    }));
    let mut books = or_die(SimBooks::new(&g.firm));
    or_die(books.seed_capital(g.firm.opening_capital_minor));
    let market = MarketTickView {
        tick: 1,
        regime: Regime::Calm,
        commodity_price_minor: 5_000,
        equity_index_centi: 1_000_000,
        demand_index_micro: 1_000_000,
        rate_bp: 300,
        jump_occurred: false,
    };
    (ActionContext { market, firm_params: g.firm }, books)
}

#[test]
fn a_reference_exists_from_the_first_observation() {
    let (ctx, books) = session();
    let v = or_die(reference_valuation(EXPECTED_DEMAND_MICRO, &ctx, &books.firm));
    assert!(v.expected_demand_micro > 0, "demand index is positive");
    assert!(v.expected_revenue_minor > 0, "an opening SKU set sells something in expectation");
}

#[test]
fn the_reference_is_a_pure_function_of_state() {
    let (a_ctx, a_books) = session();
    let (b_ctx, b_books) = session();
    for demand in [900_000_i64, 1_000_000, 1_020_000, 1_300_000, 2_000_000] {
        let va = or_die(reference_valuation(demand, &a_ctx, &a_books.firm));
        let vb = or_die(reference_valuation(demand, &b_ctx, &b_books.firm));
        assert_eq!(va, vb, "same campaign, same tick, same reference");
    }
}

#[test]
fn raising_price_cannot_raise_expected_units() {
    let (ctx, books) = session();
    let base = or_die(reference_valuation(EXPECTED_DEMAND_MICRO, &ctx, &books.firm));
    let sku = or_die(ctx.firm_params.skus.first().copied().ok_or("no sku"));
    let units_at = |price: i64| {
        or_die(demand_units(
            sku.base_units_per_tick,
            sku.reference_price_minor,
            price,
            base.expected_demand_micro,
        ))
    };
    let cheap = units_at(sku.reference_price_minor / 2);
    let dear = units_at(sku.reference_price_minor * 2);
    assert!(cheap > dear, "cheaper must not sell fewer units");
}

#[test]
fn the_optimum_never_loses_to_a_legal_price() {
    let (ctx, _books) = session();
    for price in [1_i64, 500, 5_000, 50_000, 9_999_999, MAX_PRICE_MINOR] {
        let g = or_die(pricing_optimality_gap(EXPECTED_DEMAND_MICRO, &ctx, 0, price));
        assert!(g.gap_minor >= 0, "price {price} beat the claimed optimum by {}", -g.gap_minor);
        assert_eq!(g.optimal_profit_minor - g.actual_profit_minor, g.gap_minor);
        assert!(
            (MIN_PRICE_MINOR..=MAX_PRICE_MINOR).contains(&g.optimal_price_minor),
            "the oracle must not recommend a price the compiler would refuse"
        );
    }
}

#[test]
fn a_price_at_the_optimum_has_zero_gap() {
    let (ctx, _books) = session();
    let g = or_die(pricing_optimality_gap(EXPECTED_DEMAND_MICRO, &ctx, 0, 1));
    let at_optimum =
        or_die(pricing_optimality_gap(EXPECTED_DEMAND_MICRO, &ctx, 0, g.optimal_price_minor));
    assert_eq!(at_optimum.gap_minor, 0);
    assert_eq!(at_optimum.optimal_price_minor, g.optimal_price_minor);
}

#[test]
fn the_optimum_is_a_pure_function_of_state_not_of_the_price_asked_about() {
    let (ctx, _books) = session();
    let a = or_die(pricing_optimality_gap(EXPECTED_DEMAND_MICRO, &ctx, 0, 1));
    let b = or_die(pricing_optimality_gap(EXPECTED_DEMAND_MICRO, &ctx, 0, MAX_PRICE_MINOR));
    assert_eq!(a.optimal_price_minor, b.optimal_price_minor);
    assert_eq!(a.optimal_profit_minor, b.optimal_profit_minor);
}

#[test]
fn an_unpriceable_sku_fails_closed() {
    let (ctx, _books) = session();
    assert!(matches!(
        pricing_optimality_gap(EXPECTED_DEMAND_MICRO, &ctx, 250, 1_000),
        Err(OracleError::UnknownSku { sku: 250 })
    ));
}

#[test]
fn the_optimum_beats_every_price_near_the_vertex_under_rounding() {
    let (mut ctx, _books) = session();
    ctx.firm_params.skus[0] = blackbox_sim::genesis::SkuParams {
        base_units_per_tick: 1_000,
        reference_price_minor: 10_000,
        cost_multiplier_micro: 1_000_000,
    };
    let g = or_die(pricing_optimality_gap(1_000_000, &ctx, 0, 12_505));
    assert_eq!(g.actual_profit_minor, 5_628_750);
    assert!(g.optimal_profit_minor >= 5_628_750);
    assert!(g.gap_minor >= 0);
    for price in 12_400..12_600 {
        let h = or_die(pricing_optimality_gap(1_000_000, &ctx, 0, price));
        assert!(h.gap_minor >= 0, "price {price} beat the optimum");
    }
}
