use blackbox_sim::rng::campaign_key_from_seed;
use blackbox_sim::stimulus::{
    anchor_arm, attribute, crisis_ticks_remaining, draw_anchor, draw_crisis, draw_gamble, draw_sunk,
    gamble_offer, bind_offer_id, bind_project_id, is_anchored_forecast_turn,
    is_control_forecast_turn, is_disposition_turn, is_gamble_turn, is_sunk_cost_turn, sunk_arm,
    AnchorArm, PlantedStimulus, StimulusError, StimulusLedger, StimulusParams, StimulusView,
    SunkArm, CRISIS_CASH_RANGE, FORECAST_PERIOD, FORECAST_PHASE, GAMBLE_GAIN_RANGE,
    GAMBLE_LOSS_RANGE, MAX_PLANTED_STIMULI, SUNK_RANGE,
};
use blackbox_sim::firm::{OfferKind, OfferStatus};
use blackbox_sim::telemetry::ActionIntent;

const CAMPAIGN_TICKS: u32 = 52;
const GAMBLE_PROBABILITY_LATTICE: [i64; 5] = [250_000, 400_000, 500_000, 600_000, 750_000];

trait OrDie<T> {
    fn or_die(self) -> T;
}

impl<T, E: std::fmt::Debug> OrDie<T> for Result<T, E> {
    fn or_die(self) -> T {
        match self {
            Ok(value) => value,
            Err(error) => unreachable!("test setup failed: {error:?}"),
        }
    }
}

impl<T> OrDie<T> for Option<T> {
    fn or_die(self) -> T {
        match self {
            Some(value) => value,
            None => unreachable!("test expected a value and found none"),
        }
    }
}

fn key() -> [u32; 2] {
    campaign_key_from_seed([3, 1, 4, 1, 5, 9, 2, 6])
}

#[test]
fn the_cadence_is_independent_of_everything_but_the_turn() {
    for turn in 1..=CAMPAIGN_TICKS {
        assert_eq!(is_gamble_turn(turn), turn % 4 == 1);
        assert_eq!(is_sunk_cost_turn(turn), turn % 6 == 3);
        assert_eq!(is_disposition_turn(turn), turn % 5 == 0);
    }
    assert!(!is_gamble_turn(0) && !is_control_forecast_turn(0) && !is_disposition_turn(0));
}

#[test]
fn a_campaign_yields_the_sample_sizes_the_lanes_need() {
    let turns = || 1..=CAMPAIGN_TICKS;
    let gambles = turns().filter(|t| is_gamble_turn(*t)).count();
    let anchored = turns().filter(|t| is_anchored_forecast_turn(*t)).count();
    let controls = turns().filter(|t| is_control_forecast_turn(*t)).count();
    let sunk = turns().filter(|t| is_sunk_cost_turn(*t)).count();
    assert!(gambles >= 12, "lane 0 yield: {gambles}");
    assert!(anchored + controls >= 8, "lane 3 yield: {anchored}+{controls}");
    assert!(anchored / 2 >= 6, "lane 2 pairs: {}", anchored / 2);
    assert!(sunk / 2 >= 4, "lane 4 pairs: {}", sunk / 2);
}

#[test]
fn the_quarter_control_displaces_exactly_one_anchored_turn() {
    let collisions = (1..=CAMPAIGN_TICKS)
        .filter(|t| t % FORECAST_PERIOD == FORECAST_PHASE && is_control_forecast_turn(*t))
        .count();
    assert_eq!(collisions, 1, "the mod-4/mod-13 overlap is structural");
    assert!(!is_anchored_forecast_turn(26), "the control must win the collision");
}

#[test]
fn anchor_arms_alternate_and_balance() {
    let arms: Vec<AnchorArm> = (1..=CAMPAIGN_TICKS).filter_map(anchor_arm).collect();
    let high = arms.iter().filter(|a| **a == AnchorArm::High).count();
    let low = arms.len() - high;
    assert_eq!(high, low, "unbalanced arms bias the anchoring estimate");
    for pair in arms.windows(2) {
        assert_ne!(pair.first(), pair.last(), "arms must strictly alternate");
    }
}

#[test]
fn sunk_arms_alternate_starting_with_sunk_capital() {
    let arms: Vec<SunkArm> = (1..=CAMPAIGN_TICKS).filter_map(sunk_arm).collect();
    assert_eq!(arms.first(), Some(&SunkArm::WithSunk));
    for pair in arms.windows(2) {
        assert_ne!(pair.first(), pair.last());
    }
    assert_eq!(sunk_arm(4), None);
}

#[test]
fn a_displaced_turn_does_not_desync_the_alternation() {
    let before = anchor_arm(22).or_die();
    let after = anchor_arm(30).or_die();
    assert_ne!(before, after, "alternation continues across the gap");
}

#[test]
fn crisis_windows_open_and_close() {
    assert_eq!(crisis_ticks_remaining(19), None);
    assert_eq!(crisis_ticks_remaining(20), Some(3));
    assert_eq!(crisis_ticks_remaining(22), Some(1));
    assert_eq!(crisis_ticks_remaining(23), None);
    assert_eq!(crisis_ticks_remaining(44), Some(3));
}

#[test]
fn parameters_are_a_pure_function_of_key_and_turn() {
    for turn in (1..=CAMPAIGN_TICKS).filter(|t| is_gamble_turn(*t)) {
        assert_eq!(draw_gamble(key(), turn), draw_gamble(key(), turn));
    }
}

#[test]
fn different_campaigns_draw_different_gambles() {
    let other = campaign_key_from_seed([9, 9, 9, 9, 9, 9, 9, 9]);
    let differ = (1..=CAMPAIGN_TICKS)
        .filter(|t| is_gamble_turn(*t))
        .filter(|t| draw_gamble(key(), *t) != draw_gamble(other, *t))
        .count();
    assert!(differ > 8, "campaigns must not share an answer key");
}

#[test]
fn gambles_land_inside_the_declared_lattice() {
    for turn in (1..=CAMPAIGN_TICKS).filter(|t| is_gamble_turn(*t)) {
        match draw_gamble(key(), turn) {
            StimulusParams::GamblePair {
                gain_minor,
                loss_minor,
                win_probability_micro,
                premium_minor,
                ..
            } => {
                assert!((GAMBLE_GAIN_RANGE.0..=GAMBLE_GAIN_RANGE.1).contains(&gain_minor));
                assert!((GAMBLE_LOSS_RANGE.0..=GAMBLE_LOSS_RANGE.1).contains(&loss_minor));
                assert!(GAMBLE_PROBABILITY_LATTICE.contains(&win_probability_micro));
                assert!(premium_minor >= 0 && premium_minor <= loss_minor);
            }
            other => unreachable!("expected a gamble, got {other:?}"),
        }
    }
}

#[test]
fn an_anchor_is_never_the_reference_itself() {
    for turn in (1..=CAMPAIGN_TICKS).filter(|t| is_anchored_forecast_turn(*t)) {
        let arm = anchor_arm(turn).or_die();
        match draw_anchor(key(), turn, arm, 1_000_000) {
            StimulusParams::AnchorProbe { anchor_minor, reference_minor, delta_micro, arm: got } => {
                assert_eq!(got, arm);
                assert!(delta_micro > 0, "a zero delta publishes the oracle");
                assert_ne!(anchor_minor, reference_minor);
                match arm {
                    AnchorArm::High => assert!(anchor_minor > reference_minor),
                    AnchorArm::Low => assert!(anchor_minor < reference_minor),
                }
            }
            other => unreachable!("expected an anchor, got {other:?}"),
        }
    }
}

#[test]
fn sunk_and_crisis_draws_stay_in_range_and_respect_the_arm() {
    for turn in 1..=CAMPAIGN_TICKS {
        let (magnitude, with) = draw_sunk(key(), turn, SunkArm::WithSunk);
        let (magnitude2, without) = draw_sunk(key(), turn, SunkArm::WithoutSunk);
        assert_eq!(magnitude, magnitude2);
        assert!((SUNK_RANGE.0..=SUNK_RANGE.1).contains(&magnitude));
        assert!(matches!(with, StimulusParams::SunkCostPair { sunk_minor, .. } if sunk_minor == magnitude));
        assert!(matches!(without, StimulusParams::SunkCostPair { sunk_minor: 0, .. }));
        match draw_crisis(key(), turn, 2) {
            StimulusParams::CrisisCountdown { ticks_remaining: 2, required_cash_minor } => {
                assert!((CRISIS_CASH_RANGE.0..=CRISIS_CASH_RANGE.1).contains(&required_cash_minor));
            }
            other => unreachable!("expected a crisis, got {other:?}"),
        }
    }
}

#[test]
fn binding_fills_in_the_entity_id_and_nothing_else() {
    let g = draw_gamble(key(), 1);
    let bound = bind_offer_id(g, 5);
    assert!(matches!(bound, StimulusParams::GamblePair { offer_id: 5, .. }));
    let offer = gamble_offer(bound).or_die();
    assert_eq!(offer.kind, OfferKind::Expansion);
    assert_eq!(offer.status, OfferStatus::Open);
    assert!(offer.cost_minor >= 1);
    let (_, s) = draw_sunk(key(), 3, SunkArm::WithSunk);
    assert!(matches!(bind_project_id(s, 2), StimulusParams::SunkCostPair { project_id: 2, .. }));
    assert_eq!(bind_offer_id(s, 9), s, "a non-gamble passes unchanged");
    assert_eq!(gamble_offer(s), None);
}

#[test]
fn the_ledger_binds_pointer_to_payload() {
    let mut ledger = StimulusLedger::new();
    let a = ledger.plant(1, StimulusParams::ForecastElicitation { reference_minor: 5 }).or_die();
    let b = ledger.plant(2, StimulusParams::ForecastElicitation { reference_minor: 5 }).or_die();
    assert_ne!(a.params_digest, b.params_digest);
    assert!(ledger.verify().is_ok());
    assert_eq!(ledger.get(1).map(|r| r.tick), Some(2));
    assert!(a.binding_holds());
}

#[test]
fn a_tampered_row_fails_its_binding() {
    let mut ledger = StimulusLedger::new();
    let _ = ledger.plant(1, StimulusParams::ForecastElicitation { reference_minor: 1_000 }).or_die();
    let mut rows: Vec<PlantedStimulus> = ledger.rows().to_vec();
    if let Some(row) = rows.first_mut() {
        row.params = StimulusParams::ForecastElicitation { reference_minor: 9_999 };
    }
    let tampered = StimulusLedger::from_rows(rows);
    assert_eq!(
        tampered.verify(),
        Err(StimulusError::BindingBroken { seq: 0 }),
        "a swapped answer key must be detected, not tolerated"
    );
}

#[test]
fn the_ledger_rejects_when_full_and_never_evicts() {
    let mut ledger = StimulusLedger::new();
    for i in 0..MAX_PLANTED_STIMULI {
        let tick = u32::try_from(i).or_die();
        ledger.plant(tick, StimulusParams::ForecastElicitation { reference_minor: 1 }).or_die();
    }
    assert_eq!(
        ledger.plant(999, StimulusParams::ForecastElicitation { reference_minor: 1 }),
        Err(StimulusError::LedgerFull)
    );
    assert_eq!(ledger.len(), MAX_PLANTED_STIMULI);
    assert_eq!(ledger.rows().first().map(|r| r.tick), Some(0), "row 0 survived");
}

#[test]
fn publication_names_only_the_published_fields() {
    let mut ledger = StimulusLedger::new();
    let planted = ledger
        .plant(
            7,
            StimulusParams::AnchorProbe {
                anchor_minor: 1_300_000,
                arm: AnchorArm::High,
                reference_minor: 1_000_000,
                delta_micro: 300_000,
            },
        )
        .or_die();
    let view = StimulusView::publish(&planted);
    assert_eq!(view.anchor_minor, Some(1_300_000));
    assert_eq!(view.stimulus_seq, 0);
    assert_eq!(view.gain_minor, None);
    let gamble = ledger
        .plant(
            1,
            StimulusParams::GamblePair {
                offer_id: 2,
                gain_minor: 50_000,
                loss_minor: 40_000,
                win_probability_micro: 500_000,
                premium_minor: 20_000,
                good_state: true,
            },
        )
        .or_die();
    let view = StimulusView::publish(&gamble);
    assert_eq!(view.win_probability_micro, Some(500_000));
    assert_eq!(view.premium_minor, Some(20_000));
    assert_eq!(view.offer_id, Some(2));
    assert_eq!(view.anchor_minor, None);
}

#[test]
fn attribution_follows_the_shape_of_the_act() {
    let mut ledger = StimulusLedger::new();
    let gamble = ledger
        .plant(
            1,
            StimulusParams::GamblePair {
                offer_id: 3,
                gain_minor: 1,
                loss_minor: 1,
                win_probability_micro: 500_000,
                premium_minor: 1,
                good_state: false,
            },
        )
        .or_die();
    let active = [gamble];
    assert_eq!(attribute(ActionIntent::AcceptOffer { offer_id: 3 }, &active), Some(gamble.reference()));
    assert_eq!(attribute(ActionIntent::DeclineOffer { offer_id: 3 }, &active), Some(gamble.reference()));
    assert_eq!(attribute(ActionIntent::AcceptOffer { offer_id: 4 }, &active), None);
    assert_eq!(attribute(ActionIntent::SetPrice { sku: 0, tick_price: 10 }, &active), None);
}

#[test]
fn a_crisis_claims_only_what_no_probe_wanted() {
    let mut ledger = StimulusLedger::new();
    let gamble = ledger
        .plant(
            1,
            StimulusParams::GamblePair {
                offer_id: 3,
                gain_minor: 1,
                loss_minor: 1,
                win_probability_micro: 500_000,
                premium_minor: 1,
                good_state: false,
            },
        )
        .or_die();
    let crisis = ledger
        .plant(1, StimulusParams::CrisisCountdown { ticks_remaining: 2, required_cash_minor: 100 })
        .or_die();
    let active = [gamble, crisis];
    assert_eq!(
        attribute(ActionIntent::AcceptOffer { offer_id: 3 }, &active),
        Some(gamble.reference()),
        "the specific probe wins"
    );
    assert_eq!(
        attribute(ActionIntent::SetPrice { sku: 0, tick_price: 10 }, &active),
        Some(crisis.reference()),
        "the moderator takes the remainder"
    );
}
