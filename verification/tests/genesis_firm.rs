use blackbox_sim::firm::{
    position_pnl_minor, FirmEffect, FirmError, FirmState, Offer, OfferKind, OfferStatus, Position,
    PositionStatus, ProjectStatus, MAX_OFFERS, MAX_POSITIONS, MAX_PRICE_MINOR,
};
use blackbox_sim::genesis::{
    build_campaign_genesis, derive_campaign_seed, validate_date, Difficulty, FirmParams,
    GenesisError, GenesisRequest,
};

fn ok<T, E: std::fmt::Debug>(r: Result<T, E>) -> T {
    match r {
        Ok(v) => v,
        Err(e) => unreachable!("genesis test setup failed: {e:?}"),
    }
}

fn request() -> GenesisRequest {
    GenesisRequest {
        scenario_id: 7,
        difficulty: Difficulty::Standard,
        campaign_index: 0,
        created_date: "2026-07-27".to_string(),
    }
}

#[test]
fn same_request_same_world() {
    let a = ok(build_campaign_genesis(request()));
    let b = ok(build_campaign_genesis(request()));
    assert_eq!(a, b, "genesis must be a pure function of the request");
}

#[test]
fn market_draws_are_unchanged_by_later_appends() {
    let p = ok(build_campaign_genesis(request())).params;
    assert_eq!(p.commodity.kappa_micro, 362_038);
    assert_eq!(p.commodity.theta_log_micro, 8_591_935);
    assert_eq!(p.commodity.sigma_calm_micro, 10_312);
    assert_eq!(p.commodity.sigma_stress_micro, 23_417);
    assert_eq!(p.equity.drift_micro, 2_410);
    assert_eq!(p.equity.sigma_calm_micro, 16_541);
    assert_eq!(p.equity.sigma_stress_micro, 28_801);
    assert_eq!(p.rate.a_micro, 119_147);
    assert_eq!(p.rate.b_bp, 75);
    assert_eq!(p.rate.sigma_bp_micro, 10_392_969);
    assert_eq!(p.demand.phi_micro, 823_724);
    assert_eq!(p.demand.sigma_micro, 123_509);
    assert_eq!(p.demand.season_amp_micro, 187_598);
    assert_eq!(p.regime.p_calm_to_stress_micro, 44_952);
    assert_eq!(p.regime.p_stress_to_calm_micro, 295_458);
    assert_eq!(p.jump.intensity_stress_micro, 24_690);
    assert_eq!(p.jump.mu_micro, -55_551);
    assert_eq!(p.jump.sigma_micro, 66_460);
    assert_eq!(p.corr_commodity_equity_micro, 270_384);
}

#[test]
fn firm_params_land_inside_calibrated_ranges() {
    let g = ok(build_campaign_genesis(request()));
    let f = g.firm;
    assert!((2_000..=3_500).contains(&f.tax_rate_bp));
    assert!((250..=625).contains(&f.depreciation_rate_bp));
    assert!(f.mezz_rate_bp > f.senior_rate_bp, "mezz must price above senior");
    assert!(f.opening_capital_minor >= 50_000_000);
    for sku in f.skus {
        assert!((800..=2_500).contains(&sku.base_units_per_tick));
        assert!((6_000..=14_000).contains(&sku.reference_price_minor));
        assert!((600_000..=1_100_000).contains(&sku.cost_multiplier_micro));
    }
}

#[test]
fn firm_params_are_covered_by_the_fingerprint() {
    let mut g = ok(build_campaign_genesis(request()));
    ok(g.verify_fingerprint());
    g.firm.tax_rate_bp += 1;
    assert!(g.verify_fingerprint().is_err(), "firm params must be inside the frozen artifact");
}

#[test]
fn different_request_different_world() {
    let a = ok(build_campaign_genesis(request()));
    let mut req = request();
    req.campaign_index = 1;
    let b = ok(build_campaign_genesis(req));
    assert_ne!(a.fingerprint, b.fingerprint);
    assert_ne!(a.params, b.params);
}

#[test]
fn fingerprint_verifies_and_detects_tamper() {
    let mut g = ok(build_campaign_genesis(request()));
    ok(g.verify_fingerprint());
    g.params.jump.mu_micro = -1;
    assert!(g.verify_fingerprint().is_err(), "tamper must fail closed");
}

#[test]
fn params_land_inside_calibrated_ranges() {
    let g = ok(build_campaign_genesis(request()));
    let p = g.params;
    assert!((50_000..=400_000).contains(&p.commodity.kappa_micro));
    assert!(p.commodity.sigma_stress_micro >= p.commodity.sigma_calm_micro);
    assert!((0..=4_000).contains(&p.equity.drift_micro));
    assert!((50..=600).contains(&p.rate.b_bp));
    assert!(p.jump.mu_micro < 0, "jump mean must be negative (crash risk)");
    assert!((-300_000..=600_000).contains(&p.corr_commodity_equity_micro));
}

#[test]
fn hard_difficulty_scales_crisis_pressure() {
    let standard = ok(build_campaign_genesis(request()));
    let mut req = request();
    req.difficulty = Difficulty::Hard;
    let hard = ok(build_campaign_genesis(req));
    assert!((20_000..=80_000).contains(&standard.params.regime.p_calm_to_stress_micro));
    assert!((20_000..=100_000).contains(&standard.params.jump.intensity_stress_micro));
    assert!((30_000..=120_000).contains(&hard.params.regime.p_calm_to_stress_micro));
    assert!((30_000..=150_000).contains(&hard.params.jump.intensity_stress_micro));
}

#[test]
fn malformed_dates_fail_closed() {
    for bad in ["2026/07/27", "2026-13-01", "2026-00-10", "2026-07-32", "26-07-27", ""] {
        let mut req = request();
        req.created_date = bad.to_string();
        assert!(matches!(build_campaign_genesis(req), Err(GenesisError::InvalidDate)));
    }
}

#[test]
fn well_formed_dates_are_accepted_and_seeds_differ_by_request() {
    assert!(validate_date("2026-07-27").is_ok());
    assert!(validate_date("1999-12-31").is_ok());
    assert!(validate_date("2026-7-27").is_err());
    let a = ok(derive_campaign_seed(&request()));
    let mut other = request();
    other.scenario_id = 8;
    let b = ok(derive_campaign_seed(&other));
    assert_ne!(a, b);
    assert_eq!(a, ok(derive_campaign_seed(&request())));
    let g = ok(build_campaign_genesis(request()));
    assert_eq!(g.digest8()[..], g.fingerprint[..8]);
}

fn state() -> (FirmState, FirmParams) {
    let g = ok(build_campaign_genesis(request()));
    (FirmState::new(&g.firm), g.firm)
}

#[test]
fn opens_at_reference_prices_with_empty_warehouse() {
    let (s, params) = state();
    for (id, sku) in s.skus() {
        let cfg = params.skus[usize::from(id)];
        assert_eq!(sku.unit_price_minor, cfg.reference_price_minor);
        assert_eq!(sku.inventory_units, 0);
        assert_eq!(sku.inventory_value_minor, 0);
    }
}

#[test]
fn unknown_ids_fail_closed() {
    let (mut s, _) = state();
    assert!(matches!(s.sku(99), Err(FirmError::UnknownSku { sku: 99 })));
    assert!(matches!(s.project(3), Err(FirmError::UnknownProject { project_id: 3 })));
    assert!(matches!(s.offer(3), Err(FirmError::UnknownOffer { offer_id: 3 })));
    assert!(matches!(s.position(3), Err(FirmError::UnknownPosition { position_id: 3 })));
    assert!(matches!(
        s.apply_effect(FirmEffect::SetPrice { sku: 99, price_minor: 100 }),
        Err(FirmError::UnknownSku { sku: 99 })
    ));
}

#[test]
fn prices_are_clamped_by_refusal_not_by_clamping() {
    let (mut s, _) = state();
    let before = s.clone();
    for bad in [0_i64, -5, MAX_PRICE_MINOR + 1] {
        assert!(matches!(
            s.apply_effect(FirmEffect::SetPrice { sku: 0, price_minor: bad }),
            Err(FirmError::PriceOutOfRange { .. })
        ));
    }
    assert_eq!(s, before, "a refused price must not move the state");
    ok(s.apply_effect(FirmEffect::SetPrice { sku: 0, price_minor: 12_345 }));
    assert_eq!(ok(s.sku(0)).unit_price_minor, 12_345);
}

#[test]
fn selling_the_last_unit_sweeps_all_residual_value() {
    let (mut s, _) = state();
    ok(s.apply_effect(FirmEffect::AddInventory { sku: 1, units: 7, cost_minor: 1_000 }));
    let partial = ok(s.cogs_for(1, 3));
    assert_eq!(partial, 429);
    ok(s.apply_effect(FirmEffect::ConsumeInventory { sku: 1, units: 3, cogs_minor: partial }));
    let remaining = ok(s.sku(1));
    assert_eq!(remaining.inventory_units, 4);
    assert_eq!(remaining.inventory_value_minor, 1_000 - partial);
    let rest = ok(s.cogs_for(1, 4));
    assert_eq!(rest, 1_000 - partial, "final draw must release everything");
    ok(s.apply_effect(FirmEffect::ConsumeInventory { sku: 1, units: 4, cogs_minor: rest }));
    let empty = ok(s.sku(1));
    assert_eq!(empty.inventory_units, 0);
    assert_eq!(empty.inventory_value_minor, 0);
}

#[test]
fn cannot_sell_stock_that_is_not_there() {
    let (mut s, _) = state();
    ok(s.apply_effect(FirmEffect::AddInventory { sku: 0, units: 2, cost_minor: 100 }));
    assert!(matches!(s.cogs_for(0, 3), Err(FirmError::InventoryShort { have: 2, want: 3 })));
    assert!(matches!(
        s.apply_effect(FirmEffect::ConsumeInventory { sku: 0, units: 3, cogs_minor: 100 }),
        Err(FirmError::InventoryShort { have: 2, want: 3 })
    ));
    assert_eq!(ok(s.sku(0)).inventory_units, 2);
}

#[test]
fn project_lifecycle_is_a_one_way_door() {
    let (mut s, _) = state();
    ok(s.apply_effect(FirmEffect::CommitToProject { project_id: 2, amount_minor: 5_000 }));
    ok(s.apply_effect(FirmEffect::CommitToProject { project_id: 2, amount_minor: 3_000 }));
    assert_eq!(ok(s.project(2)).committed_minor, 8_000);
    ok(s.apply_effect(FirmEffect::ContinueProject { project_id: 2 }));
    assert_eq!(ok(s.project(2)).continue_count, 1);
    ok(s.apply_effect(FirmEffect::AbandonProject { project_id: 2 }));
    assert_eq!(ok(s.project(2)).status, ProjectStatus::Abandoned);
    for effect in [
        FirmEffect::ContinueProject { project_id: 2 },
        FirmEffect::AbandonProject { project_id: 2 },
        FirmEffect::CommitToProject { project_id: 2, amount_minor: 1 },
    ] {
        assert!(matches!(s.apply_effect(effect), Err(FirmError::ProjectNotActive { project_id: 2 })));
    }
    assert_eq!(ok(s.project(2)).committed_minor, 8_000);
}

#[test]
fn an_offer_resolves_exactly_once() {
    let (mut s, _) = state();
    let id = ok(s.place_offer(Offer { kind: OfferKind::Insurance, cost_minor: 4_200, status: OfferStatus::Open }));
    ok(s.apply_effect(FirmEffect::ResolveOffer { offer_id: id, accepted: true }));
    assert_eq!(ok(s.offer(id)).status, OfferStatus::Accepted);
    assert!(matches!(
        s.apply_effect(FirmEffect::ResolveOffer { offer_id: id, accepted: false }),
        Err(FirmError::OfferNotOpen { .. })
    ));
}

#[test]
fn registries_reject_rather_than_overwrite_when_full() {
    let (mut s, _) = state();
    for _ in 0..MAX_OFFERS {
        let _ = ok(s.place_offer(Offer { kind: OfferKind::Expansion, cost_minor: 1, status: OfferStatus::Open }));
    }
    assert!(matches!(
        s.place_offer(Offer { kind: OfferKind::Expansion, cost_minor: 1, status: OfferStatus::Open }),
        Err(FirmError::RegistryFull)
    ));
    for _ in 0..MAX_POSITIONS {
        ok(s.apply_effect(FirmEffect::OpenPosition { instrument: 0, notional_minor: 10, entry_index_centi: 1_000_000 }));
    }
    assert!(matches!(
        s.apply_effect(FirmEffect::OpenPosition { instrument: 0, notional_minor: 10, entry_index_centi: 1_000_000 }),
        Err(FirmError::RegistryFull)
    ));
}

#[test]
fn position_pnl_is_signed_and_symmetric() {
    let p = Position {
        instrument: 0,
        notional_minor: 1_000_000,
        entry_index_centi: 1_000_000,
        status: PositionStatus::Open,
    };
    assert_eq!(ok(position_pnl_minor(&p, 1_000_000)), 0);
    assert_eq!(ok(position_pnl_minor(&p, 1_100_000)), 100_000);
    assert_eq!(ok(position_pnl_minor(&p, 900_000)), -100_000);
}

#[test]
fn closing_a_position_twice_is_refused() {
    let (mut s, _) = state();
    ok(s.apply_effect(FirmEffect::OpenPosition { instrument: 1, notional_minor: 500, entry_index_centi: 1_000_000 }));
    ok(s.apply_effect(FirmEffect::ClosePosition { position_id: 0 }));
    assert_eq!(ok(s.position(0)).status, PositionStatus::Closed);
    assert!(matches!(
        s.apply_effect(FirmEffect::ClosePosition { position_id: 0 }),
        Err(FirmError::PositionNotOpen { position_id: 0 })
    ));
}

#[test]
fn state_stays_inside_the_memory_budget() {
    assert!(
        std::mem::size_of::<FirmState>() <= 1_024,
        "FirmState grew to {} bytes",
        std::mem::size_of::<FirmState>()
    );
}

#[test]
fn firm_json_matches_the_compact_serde_encoding_of_the_derived_shape() {
    let sku = |b: i64, r: i64, c: i64| blackbox_sim::genesis::SkuParams {
        base_units_per_tick: b,
        reference_price_minor: r,
        cost_multiplier_micro: c,
    };
    let firm = blackbox_sim::genesis::FirmParams {
        skus: [sku(1_000, 10_000, 1_000_000), sku(0, -7, 42), sku(9, 8, 7)],
        opening_capital_minor: 50_000_000,
        depreciation_rate_bp: 250,
        tax_rate_bp: 3_000,
        senior_rate_bp: 120,
        mezz_rate_bp: 0,
    };
    let mut out: Vec<u8> = Vec::new();
    blackbox_sim::genesis_json::push_firm_json(&mut out, &firm);
    let expected = String::new()
        + "{\"skus\":["
        + "{\"baseUnitsPerTick\":1000,\"referencePriceMinor\":10000,\"costMultiplierMicro\":1000000},"
        + "{\"baseUnitsPerTick\":0,\"referencePriceMinor\":-7,\"costMultiplierMicro\":42},"
        + "{\"baseUnitsPerTick\":9,\"referencePriceMinor\":8,\"costMultiplierMicro\":7}],"
        + "\"openingCapitalMinor\":50000000,\"depreciationRateBp\":250,\"taxRateBp\":3000,"
        + "\"seniorRateBp\":120,\"mezzRateBp\":0}";
    assert_eq!(String::from_utf8(out).unwrap(), expected);
}
