use blackbox_sim::action::{CompileError, Execution};
use blackbox_sim::director::{
    check_replayed_tick, DirectorError, LoggedDecision, RefusalReason, Session, TurnReport, CAMPAIGN_TICKS,
};
use blackbox_sim::fsm::{SessionState, TurnPhase};
use blackbox_sim::genesis::{Difficulty, GenesisRequest};
use blackbox_sim::ledger::AccountCode;
use blackbox_sim::market::{MarketTickView, Regime};
use blackbox_sim::persist::{DecisionBatch, DecisionSink, FlushReceipt, SinkError};
use blackbox_sim::settle::{verify_inventory_reconciled, TICKS_PER_QUARTER};
use blackbox_sim::snapshot::{KernelState, StateDigest};
use blackbox_sim::stimulus::{PlantedStimulus, StimulusParams, SunkArm};
use blackbox_sim::telemetry::{ActionIntent, DecisionEvent, StimulusKind};

fn ok<T, E: std::fmt::Debug>(r: Result<T, E>) -> T {
    match r {
        Ok(v) => v,
        Err(e) => unreachable!("director test setup failed: {e:?}"),
    }
}

fn request() -> GenesisRequest {
    GenesisRequest {
        scenario_id: 3,
        difficulty: Difficulty::Standard,
        campaign_index: 1,
        created_date: "2026-07-27".to_string(),
    }
}

/// The market kernel's published tick for turn `t`, as it would hand it over.
fn tick_view(t: u32) -> MarketTickView {
    MarketTickView {
        tick: t,
        regime: if t % 11 == 7 { Regime::Stress } else { Regime::Calm },
        commodity_price_minor: 5_000 + i64::from(t % 5) * 40,
        equity_index_centi: 1_000_000 + i64::from(t % 7) * 3_000,
        demand_index_micro: 1_000_000 + i64::from(t % 3) * 20_000,
        rate_bp: 300,
        jump_occurred: false,
    }
}

fn kernel(t: u32) -> KernelState {
    KernelState {
        tick: t,
        regime: (t % 11 == 7) as u8,
        market_state: [u64::from(t), 17, 23, 5],
        rng_position: [u64::from(t) * 3, 0, 0, 0, 0, 0, 0, 0],
    }
}

/// The firm's serialized form for the digest.
fn firm_json(s: &Session) -> Vec<u8> {
    format!("{:?}", s.books().firm).into_bytes()
}

fn start() -> Session {
    ok(Session::start(request(), kernel(0)))
}

fn observe(s: &mut Session) -> Result<MarketTickView, DirectorError> {
    let t = s.turns_completed() + 1;
    s.observe(tick_view(t), kernel(t), Some(1_020_000))
}

fn submit(s: &mut Session, intent: ActionIntent, latency: Option<u32>) -> Result<Execution, DirectorError> {
    let fj = firm_json(s);
    s.submit(intent, latency, &fj)
}

fn submit_timeout_default(s: &mut Session) -> Result<Execution, DirectorError> {
    let fj = firm_json(s);
    s.submit_timeout_default(&fj)
}

fn settle(s: &mut Session) -> Result<Option<blackbox_sim::settle::PeriodClose>, DirectorError> {
    let fj = firm_json(s);
    s.settle(&fj)
}

fn report(s: &mut Session) -> Result<TurnReport, DirectorError> {
    let fj = firm_json(s);
    s.report(&fj)
}

fn digest(s: &Session) -> StateDigest {
    ok(s.state_digest(&firm_json(s)))
}

fn run_turn(s: &mut Session, intent: ActionIntent, latency: Option<u32>) -> Result<TurnReport, DirectorError> {
    observe(s)?;
    submit(s, intent, latency)?;
    s.execute()?;
    settle(s)?;
    report(s)
}

fn scripted_intent(turn: u32) -> ActionIntent {
    match turn % 8 {
        0 => ActionIntent::OrderInventory { sku: 0, units: 400 },
        1 => ActionIntent::SetPrice { sku: 0, tick_price: 7_000 + i64::from(turn) * 11 },
        2 => ActionIntent::Borrow { facility: 0, amount_minor: 120_000 },
        3 => ActionIntent::OrderInventory { sku: 1, units: 250 },
        4 => ActionIntent::Invest { project_id: 0, amount_minor: 60_000 },
        5 => ActionIntent::ForecastInterval { lo_minor: 1_000, hi_minor: 5_000 },
        6 => ActionIntent::OrderInventory { sku: 2, units: 120 },
        _ => ActionIntent::Abstain,
    }
}

fn scripted_turn(session: &mut Session, turn: u32, latency: Option<u32>) -> TurnReport {
    ok(observe(session));
    if submit(session, scripted_intent(turn), latency).is_err() {
        ok(submit(session, ActionIntent::Abstain, latency));
    }
    ok(session.execute());
    ok(settle(session));
    ok(report(session))
}

fn run_scripted(turns: u32, latency: impl Fn(u32) -> Option<u32>) -> Session {
    let mut session = start();
    for turn in 0..turns {
        let _ = scripted_turn(&mut session, turn, latency(turn));
    }
    session
}

fn responsive_intent(session: &Session, turn: u32) -> ActionIntent {
    for view in session.stimulus_views() {
        match view.kind {
            StimulusKind::GamblePair => {
                if let Some(offer_id) = view.offer_id {
                    return if turn % 3 == 0 {
                        ActionIntent::DeclineOffer { offer_id }
                    } else {
                        ActionIntent::AcceptOffer { offer_id }
                    };
                }
            }
            StimulusKind::AnchorProbe | StimulusKind::ForecastElicitation => {
                return ActionIntent::ForecastInterval { lo_minor: 100_000, hi_minor: 900_000 };
            }
            StimulusKind::SunkCostPair => {
                if let Some(project_id) = view.project_id {
                    return ActionIntent::ContinueProject { project_id };
                }
            }
            _ => {}
        }
    }
    scripted_intent(turn)
}

fn run_responsive(turns: u32) -> Session {
    let mut session = start();
    for turn in 0..turns {
        ok(observe(&mut session));
        let intent = responsive_intent(&session, turn);
        if submit(&mut session, intent, None).is_err() {
            ok(submit_timeout_default(&mut session));
        }
        ok(session.execute());
        ok(settle(&mut session));
        ok(report(&mut session));
    }
    session
}

/// Records what it was handed, and can be told to fail.
#[derive(Debug, Default)]
struct RecordingSink {
    events: Vec<DecisionEvent>,
    stimuli: Vec<PlantedStimulus>,
    fail_with: Option<SinkError>,
}

impl DecisionSink for RecordingSink {
    fn persist(&mut self, batch: &DecisionBatch<'_>) -> Result<FlushReceipt, SinkError> {
        if let Some(error) = self.fail_with {
            return Err(error);
        }
        self.events.extend_from_slice(batch.events);
        self.stimuli.extend_from_slice(batch.stimuli);
        Ok(FlushReceipt {
            events_persisted: u32::try_from(batch.events.len()).unwrap_or(u32::MAX),
            stimuli_persisted: u32::try_from(batch.stimuli.len()).unwrap_or(u32::MAX),
        })
    }
}

#[test]
fn a_successful_flush_hands_over_records_and_clears_the_ring() {
    let mut session = run_scripted(14, |_| None);
    let produced = session.unflushed_records();
    assert!(produced > 0, "a campaign produces records");
    let mut sink = RecordingSink::default();
    let receipt = ok(session.flush_to(&mut sink));
    assert_eq!(receipt.events_persisted as usize, produced);
    assert_eq!(sink.events.len(), produced);
    assert_eq!(session.unflushed_records(), 0, "the ring was cleared");
    for event in &sink.events {
        if let Some(reference) = event.stimulus {
            assert!(
                sink.stimuli.iter().any(|row| row.seq == reference.stimulus_seq
                    && row.params_digest == reference.params_digest),
                "flushed log references a row that was not flushed"
            );
        }
    }
}

#[test]
fn a_failed_flush_loses_nothing() {
    let mut session = run_scripted(10, |_| None);
    let produced = session.unflushed_records();
    let mut sink = RecordingSink { fail_with: Some(SinkError::Unavailable), ..RecordingSink::default() };
    assert!(matches!(
        session.flush_to(&mut sink),
        Err(DirectorError::Sink(SinkError::Unavailable))
    ));
    assert_eq!(session.unflushed_records(), produced, "a locked vault must not cost a single record");
    sink.fail_with = None;
    let receipt = ok(session.flush_to(&mut sink));
    assert_eq!(receipt.events_persisted as usize, produced);
    assert_eq!(sink.events.len(), produced);
}

/// Claims to have stored one fewer record than it was given.
struct Undercounting;

impl DecisionSink for Undercounting {
    fn persist(&mut self, batch: &DecisionBatch<'_>) -> Result<FlushReceipt, SinkError> {
        Ok(FlushReceipt {
            events_persisted: u32::try_from(batch.events.len().saturating_sub(1)).unwrap_or(0),
            stimuli_persisted: u32::try_from(batch.stimuli.len()).unwrap_or(0),
        })
    }
}

#[test]
fn a_partial_acknowledgement_is_treated_as_failure() {
    let mut session = run_scripted(6, |_| None);
    let produced = session.unflushed_records();
    assert!(matches!(
        session.flush_to(&mut Undercounting),
        Err(DirectorError::Sink(SinkError::Partial))
    ));
    assert_eq!(session.unflushed_records(), produced);
}

#[test]
fn flushing_never_resends_an_answer_key_row() {
    let mut session = start();
    let mut sink = RecordingSink::default();
    for turn in 0..CAMPAIGN_TICKS {
        let _ = scripted_turn(&mut session, turn, None);
        let _ = ok(session.flush_to(&mut sink));
    }
    let mut seen: Vec<u32> = sink.stimuli.iter().map(|r| r.seq).collect();
    let total = seen.len();
    seen.sort_unstable();
    seen.dedup();
    assert_eq!(seen.len(), total, "a row was persisted twice");
    assert_eq!(total, session.stimuli().len(), "every row reached the sink");
}

#[test]
fn a_full_campaign_plants_the_probes_the_lanes_need() {
    let s = run_responsive(CAMPAIGN_TICKS);
    let count = |kind: StimulusKind| s.stimuli().rows().iter().filter(|r| r.params.kind() == kind).count();
    assert!(count(StimulusKind::GamblePair) >= 12, "lane 0 starved");
    assert!(count(StimulusKind::AnchorProbe) >= 12, "lane 2 needs 6 High/Low pairs");
    assert_eq!(count(StimulusKind::ForecastElicitation), 4, "one per quarter");
    assert!(count(StimulusKind::SunkCostPair) >= 8, "lane 4 needs 4 pairs");
    assert!(count(StimulusKind::CrisisCountdown) >= 4, "two windows");
    assert!(s.stimuli().verify().is_ok(), "every binding holds");
}

#[test]
fn responses_are_attributed_and_idle_turns_are_not() {
    let s = run_responsive(CAMPAIGN_TICKS);
    let events = s.events();
    let attributed = events.iter().filter(|r| r.stimulus.is_some()).count();
    assert!(attributed >= 24, "probes went unanswered: {attributed}");
    for record in &events {
        if let Some(reference) = record.stimulus {
            let row = s
                .stimuli()
                .get(reference.stimulus_seq)
                .unwrap_or_else(|| unreachable!("dangling stimulus {reference:?}"));
            assert_eq!(row.params_digest, reference.params_digest);
            assert_eq!(row.params.kind(), reference.kind);
        }
    }
}

#[test]
fn a_refused_intent_is_never_attributed() {
    let mut s = start();
    ok(observe(&mut s));
    let before = s.unflushed_records();
    assert!(submit(&mut s, ActionIntent::AcceptOffer { offer_id: 900 }, None).is_err());
    assert_eq!(s.unflushed_records(), before);
}

#[test]
fn every_set_price_leaves_a_pricing_trial_and_the_gap_is_never_negative() {
    let s = run_scripted(CAMPAIGN_TICKS, |_| None);
    let set_price_attempts =
        s.events().iter().filter(|e| matches!(e.action, ActionIntent::SetPrice { .. })).count();
    let trials = s.pricing_trials();
    assert_eq!(trials.len(), set_price_attempts, "one lane-5 sample per successful SetPrice, no more, no fewer");
    assert!(!trials.is_empty(), "the script never priced anything");
    for t in &trials {
        assert!(t.gap_minor >= 0, "the optimum must never lose to the chosen price");
    }
}

#[test]
fn a_pricing_trial_under_an_active_crisis_is_flagged_under_pressure() {
    let mut s = start();
    let mut saw_pressured_trial = false;
    for _turn in 0..CAMPAIGN_TICKS {
        ok(observe(&mut s));
        let under_crisis = s.stimulus_views().iter().any(|v| v.kind == StimulusKind::CrisisCountdown);
        let intent = ActionIntent::SetPrice { sku: 0, tick_price: 7_500 };
        if submit(&mut s, intent, None).is_err() {
            ok(submit_timeout_default(&mut s));
        } else if under_crisis {
            saw_pressured_trial = true;
        }
        ok(s.execute());
        ok(settle(&mut s));
        ok(report(&mut s));
    }
    assert!(saw_pressured_trial, "the script never priced during a crisis window");
    assert!(s.pricing_trials().iter().any(|t| t.under_pressure), "at least one lane-5 sample must carry the pressure flag");
    assert!(s.pricing_trials().iter().any(|t| !t.under_pressure), "at least one lane-5 sample must be unflagged, for contrast");
}

#[test]
fn planting_preserves_every_accounting_invariant() {
    let s = run_responsive(CAMPAIGN_TICKS);
    assert!(s.books().balances.verify_zero_sum().is_ok(), "BXS-I-02");
    assert!(verify_inventory_reconciled(s.books()).is_ok(), "BXS-I-17");
}

#[test]
fn the_sunk_arm_differs_from_its_counterfactual_in_exactly_one_respect() {
    let s = run_responsive(CAMPAIGN_TICKS);
    let mut with_sunk = 0_u32;
    let mut without = 0_u32;
    for row in s.stimuli().rows() {
        if let StimulusParams::SunkCostPair { project_id, sunk_minor, arm } = row.params {
            let project = ok(s.books().firm.project(project_id));
            match arm {
                SunkArm::WithSunk => {
                    with_sunk += 1;
                    assert!(sunk_minor > 0, "the sunk arm must have sunk something");
                    assert!(project.committed_minor >= sunk_minor);
                }
                SunkArm::WithoutSunk => {
                    without += 1;
                    assert_eq!(sunk_minor, 0, "the control arm has no history");
                }
            }
        }
    }
    assert!(with_sunk >= 4 && without >= 4, "{with_sunk}/{without}");
}

#[test]
fn an_accepted_gamble_pays_out_and_a_declined_one_does_not() {
    let mut accept = start();
    let mut decline = start();
    let mut answered = false;
    for _ in 0..4 {
        ok(observe(&mut accept));
        ok(observe(&mut decline));
        let offer = accept.stimulus_views().into_iter().find_map(|v| v.offer_id);
        let (a, d) = match offer {
            Some(offer_id) if !answered => {
                answered = true;
                (ActionIntent::AcceptOffer { offer_id }, ActionIntent::DeclineOffer { offer_id })
            }
            _ => (ActionIntent::Abstain, ActionIntent::Abstain),
        };
        ok(submit(&mut accept, a, None));
        ok(submit(&mut decline, d, None));
        for s in [&mut accept, &mut decline] {
            ok(s.execute());
            ok(settle(s));
            ok(report(s));
        }
    }
    assert!(answered, "no gamble was planted in the first four turns");
    let outcome_accounts =
        [AccountCode::OtherIncome, AccountCode::AccountsReceivable, AccountCode::AccountsPayable];
    let moved = outcome_accounts
        .iter()
        .any(|a| accept.books().balances.balance_minor(*a) != decline.books().balances.balance_minor(*a));
    assert!(moved, "accepting a lottery must change the books");
    assert!(decline.books().balances.verify_zero_sum().is_ok());
    assert!(accept.books().balances.verify_zero_sum().is_ok());
}

#[test]
fn a_session_walks_the_spec_phase_order() {
    let mut s = start();
    assert_eq!(s.state(), SessionState::Active { phase: TurnPhase::Observe });
    let _ = ok(observe(&mut s));
    assert_eq!(s.state(), SessionState::Active { phase: TurnPhase::Decide });
    let _ = ok(submit(&mut s, ActionIntent::Abstain, Some(1_200)));
    assert_eq!(s.state(), SessionState::Active { phase: TurnPhase::Execute });
    let _ = ok(s.execute());
    assert_eq!(s.state(), SessionState::Active { phase: TurnPhase::Settle });
    let _ = ok(settle(&mut s));
    assert_eq!(s.state(), SessionState::Active { phase: TurnPhase::Report });
    let _ = ok(report(&mut s));
    assert_eq!(s.state(), SessionState::Active { phase: TurnPhase::Observe });
    assert_eq!(s.turns_completed(), 1);
}

#[test]
fn phases_cannot_be_skipped() {
    let mut s = start();
    assert!(matches!(
        submit(&mut s, ActionIntent::Abstain, None),
        Err(DirectorError::WrongPhase { wanted: TurnPhase::Decide, .. })
    ));
    assert!(matches!(s.execute(), Err(DirectorError::WrongPhase { wanted: TurnPhase::Execute, .. })));
    assert!(matches!(report(&mut s), Err(DirectorError::WrongPhase { wanted: TurnPhase::Report, .. })));
    let _ = ok(observe(&mut s));
    assert!(matches!(observe(&mut s), Err(DirectorError::WrongPhase { wanted: TurnPhase::Observe, .. })));
}

fn repay_nonexistent_debt(s: &mut Session) -> Result<Execution, DirectorError> {
    submit(s, ActionIntent::Repay { facility: 0, amount_minor: 1 }, None)
}

/// Play abstaining turns until the Decide phase shows a probe (or none).
fn decide_with_probes(want_probe: bool) -> Session {
    let mut s = start();
    for _ in 0..CAMPAIGN_TICKS {
        ok(observe(&mut s));
        if s.stimulus_views().is_empty() != want_probe {
            return s;
        }
        ok(submit(&mut s, ActionIntent::Abstain, None));
        ok(s.execute());
        ok(settle(&mut s));
        ok(report(&mut s));
    }
    unreachable!("the cadence never produced the wanted turn")
}

#[test]
fn a_business_rule_refusal_under_an_active_stimulus_is_logged() {
    let mut s = decide_with_probes(true);
    let before = s.refusals().len();
    assert!(matches!(
        repay_nonexistent_debt(&mut s),
        Err(DirectorError::Compile(CompileError::RepayExceedsOutstanding { .. }))
    ));
    assert_eq!(s.refusals().len(), before + 1, "refusal must be logged");
    let logged = s.refusals().records().last().copied().unwrap_or_else(|| unreachable!("just recorded one"));
    assert_eq!(logged.reason, RefusalReason::RepayExceedsOutstanding);
}

#[test]
fn a_business_rule_refusal_with_no_active_stimulus_is_not_logged() {
    let mut s = decide_with_probes(false);
    let before = s.refusals().len();
    assert!(matches!(
        repay_nonexistent_debt(&mut s),
        Err(DirectorError::Compile(CompileError::RepayExceedsOutstanding { .. }))
    ));
    assert_eq!(s.refusals().len(), before, "no active stimulus, no log entry");
}

#[test]
fn a_malformed_or_unknown_entity_refusal_is_never_logged() {
    let mut s = decide_with_probes(true);
    let before = s.refusals().len();
    assert!(submit(&mut s, ActionIntent::Borrow { facility: 0, amount_minor: -5 }, None).is_err());
    assert!(submit(&mut s, ActionIntent::AcceptOffer { offer_id: 9_999 }, None).is_err());
    assert_eq!(
        s.refusals().len(),
        before,
        "AmountOutOfRange and UnknownOffer are shape/existence errors, not business rules"
    );
}

#[test]
fn a_refused_intent_does_not_consume_the_turn() {
    let mut s = start();
    let _ = ok(observe(&mut s));
    assert!(matches!(
        submit(&mut s, ActionIntent::Borrow { facility: 0, amount_minor: -5 }, None),
        Err(DirectorError::Compile(CompileError::AmountOutOfRange { got_minor: -5 }))
    ));
    assert_eq!(s.state(), SessionState::Active { phase: TurnPhase::Decide }, "a refusal is not a decision");
    assert!(s.decisions().is_empty(), "refusals must not enter the log");
    let _ = ok(submit(&mut s, ActionIntent::Abstain, None));
    assert_eq!(s.decisions().len(), 1);
}

#[test]
fn latency_cannot_reach_the_state() {
    let fast = run_scripted(15, |_| Some(5));
    let slow = run_scripted(15, |t| Some(90_000 + t));
    let none = run_scripted(15, |_| None);
    let a = digest(&fast);
    assert_eq!(a, digest(&slow));
    assert_eq!(a, digest(&none));
    assert_eq!(fast.decisions(), slow.decisions());
}

#[test]
fn a_timeout_default_is_a_logged_decision_not_a_gap() {
    let mut s = start();
    let _ = ok(observe(&mut s));
    let _ = ok(submit_timeout_default(&mut s));
    let _ = ok(s.execute());
    let _ = ok(settle(&mut s));
    let _ = ok(report(&mut s));
    assert_eq!(s.decisions().len(), 1);
    match s.decisions().first() {
        Some(d) => assert_eq!(*d, LoggedDecision { tick: 1, intent: ActionIntent::ForcedDefault }),
        None => unreachable!("a decision was just submitted"),
    }
    assert!(s.events()[0].forced_default);
}

#[test]
fn quarters_close_and_checkpoint_on_schedule() {
    let s = run_scripted(TICKS_PER_QUARTER * 2, |_| None);
    assert_eq!(s.generations().len(), 2, "one checkpoint per closed quarter");
    let latest = ok(s.generations().latest());
    assert_eq!(latest.tick, TICKS_PER_QUARTER * 2);
    ok(s.generations().verify(latest.generation));
}

#[test]
fn every_close_satisfies_the_cash_flow_identity() {
    let mut session = start();
    let mut closes = 0;
    for turn in 0..CAMPAIGN_TICKS {
        let report = scripted_turn(&mut session, turn, None);
        if let Some(close) = report.period_close {
            ok(close.cash_flow.verify());
            closes += 1;
        }
    }
    assert_eq!(closes, 4, "a campaign is four quarters");
    assert_eq!(session.state(), SessionState::Sealed);
    ok(session.books().balances.verify_zero_sum());
    ok(session.books().balances.verify_accounting_identity());
}

#[test]
fn a_sealed_campaign_accepts_nothing_further() {
    let mut session = run_scripted(CAMPAIGN_TICKS, |_| None);
    assert_eq!(session.state(), SessionState::Sealed);
    assert!(matches!(observe(&mut session), Err(DirectorError::WrongPhase { .. })));
    assert!(matches!(run_turn(&mut session, ActionIntent::Abstain, None), Err(DirectorError::WrongPhase { .. })));
}

#[test]
fn the_report_carries_the_view_and_not_the_world() {
    let mut s = start();
    let report = ok(run_turn(&mut s, ActionIntent::Abstain, None));
    assert_eq!(report.tick, report.market.tick);
    assert_eq!(Some(report.market), s.market());
    assert!(report.market.commodity_price_minor > 0);
}

#[test]
fn an_unobserved_session_does_not_invent_a_market() {
    let s = start();
    assert_eq!(s.market(), None, "a zeroed placeholder view would be a fabricated observation");
}

#[test]
fn opening_capital_is_posted_once_and_only_by_the_engine() {
    let s = start();
    let cash = s.books().balances.balance_minor(AccountCode::Cash);
    assert!(cash > 0);
    assert_eq!(s.books().balances.balance_minor(AccountCode::ShareCapital), -cash);
    ok(s.books().balances.verify_zero_sum());
}

#[test]
fn a_firm_only_change_moves_the_decision_digest() {
    let mut s = start();
    ok(observe(&mut s));
    let before = digest(&s);
    ok(submit(&mut s, ActionIntent::SetPrice { sku: 0, tick_price: 1_234 }, None));
    assert_ne!(before, digest(&s));
    assert_eq!(s.events()[0].state_digest, before.short());
}

#[test]
fn aborting_seals_the_session_where_it_stands() {
    let mut s = start();
    ok(observe(&mut s));
    ok(s.abort());
    assert_eq!(s.state(), SessionState::Sealed);
    assert!(matches!(s.abort(), Err(DirectorError::Fsm(_))));
}

#[test]
fn a_replayed_tick_must_match_the_logged_one() {
    let entry = LoggedDecision { tick: 5, intent: ActionIntent::Abstain };
    assert_eq!(check_replayed_tick(5, &entry, 3), Ok(()));
    assert_eq!(check_replayed_tick(6, &entry, 3), Err(DirectorError::MalformedLog { at_index: 3 }));
}

#[test]
fn the_pending_batch_is_the_unflushed_records_under_the_campaign_fingerprint() {
    let s = run_scripted(3, |_| None);
    let records = s.pending_records();
    assert_eq!(records.events.len(), s.events().len());
    assert_eq!(records.stimuli.len(), s.stimuli().len());
    let batch = s.pending_batch(&records);
    assert_eq!(batch.schema, blackbox_sim::persist::BLACKBOX_LOG_SCHEMA_V1);
    assert_eq!(batch.campaign_fingerprint, s.campaign_fingerprint());
    assert_eq!(batch.events, records.events.as_slice());
    assert_eq!(batch.stimuli, records.stimuli.as_slice());
}
