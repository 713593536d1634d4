//! The turn driver: the session advances Observe → Decide → Execute →
//! Settle → Report, routes the turn's one decision through the compiler,
//! runs operations, closes periods on the quarter and checkpoints.
//!
//! The market kernel evolves in floating point and lives outside this
//! library; each phase that needs it is handed the kernel's outputs (the
//! published tick, its integer state and its one-tick-ahead demand
//! expectation), and each phase that digests the state is handed the
//! firm's serialized bytes. Everything the session decides is verified
//! here.
use vstd::prelude::*;
use crate::action::{
    amount_ok, apply_plans, books_unchanged, intent_outcome, keeps_zero_sum, plan_shape, plan_wf, checked_amount,
    execute_intent,
    shapes_of, shapes_outcome, transfer, transfer_postings, ActionContext, ActionPlan, CompileError, Execution,
    Shape, SimBooks,
};
use crate::firm::{
    apply_effect_spec, claim_spec, FirmEffect, FirmError, FirmState, FirmView, OfferStatus, Project, ProjectStatus,
    MAX_OFFERS,
};
use crate::genesis::MAX_SKUS;
use crate::fsm::{advance, transition, FailureReason, FsmError, SessionEvent, SessionState, TurnPhase};
use crate::genesis::{
    build_campaign_genesis, date_ok, genesis_firm, CampaignGenesis, FirmParams, GenesisError, GenesisRequest,
};
use vstd::utf8::encode_utf8;
use crate::ledger::{apply_spec, AccountCode, Balances, Posting, Side, TxKind};
use crate::money::Money;
use crate::market::MarketTickView;
use crate::oracle::{gap_spec, pricing_optimality_gap, reference_valuation};
use crate::persist::{DecisionBatch, DecisionSink, FlushReceipt, SinkError, BLACKBOX_LOG_SCHEMA_V1};
use crate::ring::{FixedRing, RingConfigError};
use crate::settle::{
    close_outcome, close_period, operate_tick, tick_outcome, PeriodClose, SettleError, TickResult, TICKS_PER_QUARTER,
};
use crate::snapshot::{digest_state, GenerationStore, KernelState, SnapshotError, StateDigest};
use crate::stimulus::{
    anchor_arm, attribute, bind_offer_id, bind_project_id, crisis_ticks_remaining,
    disposition_target, draw_anchor, draw_crisis, draw_gamble, draw_sunk, gamble_offer,
    is_anchored_forecast_turn, is_control_forecast_turn, is_disposition_turn, is_gamble_turn,
    is_sunk_cost_turn, sunk_arm, PlantedStimulus, StimulusError, StimulusLedger, StimulusParams,
    StimulusView, anchored_spec, control_spec, crisis_spec, disposition_spec, gamble_spec, params_kind,
    sunk_spec, MAX_PLANTED_STIMULI,
};
use crate::telemetry::{
    event_of, ActionIntent, DecisionEvent, DecisionRecord, EventLog, StimulusKind, StimulusRef,
    TelemetryError,
};

verus! {

/// The order in which a turn's probes are planted: the lottery, the
/// forecast, the sunk-cost pair, the disposition window, the crisis.
pub open spec fn cadence_rank(k: StimulusKind) -> int {
    match k {
        StimulusKind::GamblePair => 0,
        StimulusKind::AnchorProbe => 1,
        StimulusKind::ForecastElicitation => 1,
        StimulusKind::SunkCostPair => 2,
        StimulusKind::DispositionWindow => 3,
        StimulusKind::CrisisCountdown => 4,
    }
}

/// The fixed cadence schedules a probe of `kind` on `turn`.
pub open spec fn on_schedule(kind: StimulusKind, turn: u32) -> bool {
    match kind {
        StimulusKind::GamblePair => gamble_spec(turn),
        StimulusKind::AnchorProbe => anchored_spec(turn),
        StimulusKind::ForecastElicitation => anchored_spec(turn) || control_spec(turn),
        StimulusKind::SunkCostPair => sunk_spec(turn),
        StimulusKind::DispositionWindow => disposition_spec(turn),
        StimulusKind::CrisisCountdown => crisis_spec(turn) is Some,
    }
}

/// Every probe is on the turn's schedule, and they come in planting order,
/// at most one of each kind of slot.
pub open spec fn on_cadence(probes: Seq<PlantedStimulus>, turn: u32) -> bool {
    &&& forall|i: int| 0 <= i < probes.len() ==> on_schedule(params_kind(#[trigger] probes[i].params), turn)
    &&& forall|i: int, j: int|
        0 <= i < j < probes.len() ==> cadence_rank(params_kind(#[trigger] probes[i].params)) < cadence_rank(
            params_kind(#[trigger] probes[j].params),
        )
}

/// Every probe's slot comes before `rank`.
pub open spec fn ranked_below(probes: Seq<PlantedStimulus>, rank: int) -> bool {
    forall|i: int| 0 <= i < probes.len() ==> cadence_rank(params_kind(#[trigger] probes[i].params)) < rank
}

proof fn lemma_cadence_push(probes: Seq<PlantedStimulus>, row: PlantedStimulus, turn: u32)
    requires
        on_cadence(probes, turn),
        ranked_below(probes, cadence_rank(params_kind(row.params))),
        on_schedule(params_kind(row.params), turn),
    ensures
        on_cadence(probes.push(row), turn),
        ranked_below(probes.push(row), cadence_rank(params_kind(row.params)) + 1),
{
    let q = probes.push(row);
    assert forall|i: int, j: int| 0 <= i < j < q.len() implies cadence_rank(params_kind(#[trigger] q[i].params))
        < cadence_rank(params_kind(#[trigger] q[j].params)) by {
        if j == probes.len() {
            assert(q[i] == probes[i]);
        } else {
            assert(q[i] == probes[i] && q[j] == probes[j]);
        }
    }
    assert forall|i: int| 0 <= i < q.len() implies on_schedule(params_kind(#[trigger] q[i].params), turn) by {
        if i < probes.len() {
            assert(q[i] == probes[i]);
        }
    }
    assert forall|i: int| 0 <= i < q.len() implies cadence_rank(params_kind(#[trigger] q[i].params))
        < cadence_rank(params_kind(row.params)) + 1 by {
        if i < probes.len() {
            assert(q[i] == probes[i]);
        }
    }
}

/// The player bought into offer `offer_id`.
pub open spec fn offer_accepted(f: FirmView, offer_id: u32) -> bool {
    offer_id < MAX_OFFERS && f.offers[offer_id as int] is Some && f.offers[offer_id as int].unwrap().status
        == OfferStatus::Accepted
}

/// The payout plans of the first `n` probes: one per accepted lottery, in
/// table order, the gain into receivables on the good state and the loss
/// into payables otherwise; the first amount out of range refuses them all.
pub open spec fn gamble_payouts(active: Seq<PlantedStimulus>, f: FirmView, n: int) -> Result<Seq<Shape>, CompileError>
    decreases n,
{
    if n <= 0 {
        Ok(Seq::empty())
    } else {
        match gamble_payouts(active, f, n - 1) {
            Err(e) => Err(e),
            Ok(acc) => match active[n - 1].params {
                StimulusParams::GamblePair { offer_id, gain_minor, loss_minor, good_state, .. } => if offer_accepted(
                    f,
                    offer_id,
                ) {
                    let (debit, credit, raw) = if good_state {
                        (AccountCode::AccountsReceivable, AccountCode::OtherIncome, gain_minor)
                    } else {
                        (AccountCode::OperatingExpense, AccountCode::AccountsPayable, loss_minor)
                    };
                    if amount_ok(raw) {
                        Ok(acc.push((Some(transfer_postings(debit, credit, raw)), FirmEffect::NoChange)))
                    } else {
                        Err(CompileError::AmountOutOfRange { got_minor: raw })
                    }
                } else {
                    Ok(acc)
                },
                _ => Ok(acc),
            },
        }
    }
}

proof fn lemma_payout_error_sticks(active: Seq<PlantedStimulus>, f: FirmView, m: int, n: int)
    requires
        0 <= m <= n,
        gamble_payouts(active, f, m) is Err,
    ensures
        gamble_payouts(active, f, n) == gamble_payouts(active, f, m),
    decreases n - m,
{
    if n > m {
        lemma_payout_error_sticks(active, f, m, n - 1);
    }
}

/// `p` is a lottery planted on an offer the player bought into.
pub open spec fn accepted_lottery(f: FirmView, p: StimulusParams) -> bool {
    p matches StimulusParams::GamblePair { offer_id, .. } && offer_accepted(f, offer_id)
}

/// `shape` books the draw of the accepted lottery `p`: on the good state
/// the gain, debited to receivables and credited to other income; on the
/// bad state the loss, debited to operating expense and credited to
/// payables; the firm itself is left as it is.
pub open spec fn books_lottery_draw(f: FirmView, p: StimulusParams, shape: Shape) -> bool {
    match p {
        StimulusParams::GamblePair { offer_id, gain_minor, loss_minor, good_state, .. } => {
            &&& offer_accepted(f, offer_id)
            &&& shape.1 == FirmEffect::NoChange
            &&& good_state ==> shape.0 == Some(
                seq![
                    Posting { account: AccountCode::AccountsReceivable, side: Side::Debit, amount: Money(gain_minor) },
                    Posting { account: AccountCode::OtherIncome, side: Side::Credit, amount: Money(gain_minor) },
                ],
            )
            &&& !good_state ==> shape.0 == Some(
                seq![
                    Posting { account: AccountCode::OperatingExpense, side: Side::Debit, amount: Money(loss_minor) },
                    Posting { account: AccountCode::AccountsPayable, side: Side::Credit, amount: Money(loss_minor) },
                ],
            )
        },
        _ => false,
    }
}

/// `shape` books the draw of one of the accepted lotteries among the first
/// `n` probes.
pub open spec fn draw_of_some_lottery(f: FirmView, active: Seq<PlantedStimulus>, n: int, shape: Shape) -> bool {
    exists|k: int| 0 <= k < n && #[trigger] books_lottery_draw(f, active[k].params, shape)
}

/// The payouts of a turn's lotteries are exactly their draws: every payout
/// books the draw of some lottery the player bought into, at the gain on
/// the good state and at the loss on the bad one, and every such lottery
/// among the first `n` probes has its draw booked.
pub proof fn law_lottery_payouts_book_each_draw(active: Seq<PlantedStimulus>, f: FirmView, n: int)
    requires
        0 <= n <= active.len(),
        gamble_payouts(active, f, n) is Ok,
    ensures
        ({
            let shapes = gamble_payouts(active, f, n)->Ok_0;
            &&& forall|i: int|
                0 <= i < shapes.len() ==> draw_of_some_lottery(f, active, n, #[trigger] shapes[i])
            &&& forall|k: int|
                0 <= k < n && #[trigger] accepted_lottery(f, active[k].params) ==> exists|i: int|
                    0 <= i < shapes.len() && books_lottery_draw(f, active[k].params, #[trigger] shapes[i])
        }),
    decreases n,
{
    if n > 0 {
        if gamble_payouts(active, f, n - 1) is Err {
            lemma_payout_error_sticks(active, f, n - 1, n);
        } else {
            law_lottery_payouts_book_each_draw(active, f, n - 1);
            let prev = gamble_payouts(active, f, n - 1)->Ok_0;
            let shapes = gamble_payouts(active, f, n)->Ok_0;
            let p = active[n - 1].params;
            if accepted_lottery(f, p) {
                assert(shapes == prev.push(shapes.last()));
                assert(books_lottery_draw(f, p, shapes[prev.len() as int]));
            } else {
                assert(shapes == prev);
            }
            assert forall|i: int| 0 <= i < shapes.len() implies draw_of_some_lottery(f, active, n, #[trigger] shapes[i]) by {
                if i < prev.len() {
                    assert(shapes[i] == prev[i]);
                    assert(draw_of_some_lottery(f, active, n - 1, prev[i]));
                    let k = choose|k: int| 0 <= k < n - 1 && #[trigger] books_lottery_draw(f, active[k].params, prev[i]);
                    assert(books_lottery_draw(f, active[k].params, shapes[i]));
                } else {
                    assert(books_lottery_draw(f, active[n - 1].params, shapes[i]));
                }
            }
            assert forall|k: int| 0 <= k < n && #[trigger] accepted_lottery(f, active[k].params) implies exists|i: int|
                0 <= i < shapes.len() && books_lottery_draw(f, active[k].params, #[trigger] shapes[i]) by {
                if k < n - 1 {
                    let i = choose|i: int| 0 <= i < prev.len() && books_lottery_draw(f, active[k].params, #[trigger] prev[i]);
                    assert(shapes[i] == prev[i]);
                } else {
                    assert(books_lottery_draw(f, active[k].params, shapes[prev.len() as int]));
                }
            }
        }
    }
}

/// The amount lottery `p` books: the gain on the good state, the loss on
/// the bad one.
pub open spec fn drawn_amount(p: StimulusParams) -> i64 {
    match p {
        StimulusParams::GamblePair { gain_minor, loss_minor, good_state, .. } => if good_state {
            gain_minor
        } else {
            loss_minor
        },
        _ => 0,
    }
}

/// The lotteries' payouts are refused exactly when one of the accepted
/// lotteries draws an amount that is not positive or above the per-action
/// limit.
pub proof fn law_lottery_payouts_refuse_only_unpayable_draws(active: Seq<PlantedStimulus>, f: FirmView, n: int)
    requires
        0 <= n <= active.len(),
    ensures
        gamble_payouts(active, f, n) is Ok <==> forall|k: int|
            0 <= k < n && #[trigger] accepted_lottery(f, active[k].params) ==> 0 < drawn_amount(active[k].params)
                <= crate::action::MAX_ACTION_AMOUNT_MINOR,
    decreases n,
{
    if n > 0 {
        law_lottery_payouts_refuse_only_unpayable_draws(active, f, n - 1);
        if gamble_payouts(active, f, n - 1) is Err {
            lemma_payout_error_sticks(active, f, n - 1, n);
            let k0 = choose|k: int|
                !(0 <= k < n - 1 && #[trigger] accepted_lottery(f, active[k].params) ==> 0 < drawn_amount(
                    active[k].params,
                ) <= crate::action::MAX_ACTION_AMOUNT_MINOR);
            assert(0 <= k0 < n && accepted_lottery(f, active[k0].params));
        } else if !(forall|k: int|
            0 <= k < n && #[trigger] accepted_lottery(f, active[k].params) ==> 0 < drawn_amount(active[k].params)
                <= crate::action::MAX_ACTION_AMOUNT_MINOR) {
            let k0 = choose|k: int|
                !(0 <= k < n && #[trigger] accepted_lottery(f, active[k].params) ==> 0 < drawn_amount(
                    active[k].params,
                ) <= crate::action::MAX_ACTION_AMOUNT_MINOR);
            assert(k0 == n - 1);
        } else {
            if accepted_lottery(f, active[n - 1].params) {
                assert(0 < drawn_amount(active[n - 1].params) <= crate::action::MAX_ACTION_AMOUNT_MINOR);
            }
        }
    }
}

/// Resolving the turn's lotteries takes the books from `before` to `after`:
/// every accepted lottery's payout is posted as one act, or nothing moves.
pub open spec fn payout_outcome(
    active: Seq<PlantedStimulus>,
    before: SimBooks,
    after: SimBooks,
    r: Result<(), DirectorError>,
) -> bool {
    match gamble_payouts(active, before.firm@, active.len() as int) {
        Err(e) => r == Err::<(), DirectorError>(DirectorError::Compile(e)) && books_unchanged(before, after),
        Ok(shapes) => if shapes.len() == 0 {
            r is Ok && books_unchanged(before, after)
        } else {
            exists|applied: Result<usize, CompileError>|
                #[trigger] shapes_outcome(before, after, shapes, applied) && match applied {
                    Ok(_) => r is Ok,
                    Err(e) => r == Err::<(), DirectorError>(DirectorError::Compile(e)),
                }
        },
    }
}

/// A quarter's close from the books after the payouts, `mid`: refused
/// before anything moves when a balance it negates sits at `i64::MIN`;
/// otherwise the period close, whose refusal is the settle's refusal.
pub open spec fn close_step(
    params: FirmParams,
    mid: SimBooks,
    period_begin: Seq<i64>,
    after: SimBooks,
    r: Result<Option<PeriodClose>, DirectorError>,
) -> bool {
    if mid.balances.bal(AccountCode::AccumulatedDepreciation) == i64::MIN || mid.balances.bal(
        AccountCode::SeniorDebt,
    ) == i64::MIN || mid.balances.bal(AccountCode::MezzanineDebt) == i64::MIN {
        r == Err::<Option<PeriodClose>, DirectorError>(DirectorError::Settle(SettleError::Overflow)) && after
            == mid
    } else {
        exists|t: Result<PeriodClose, SettleError>|
            #[trigger] close_outcome(params, mid, period_begin, after, t) && match t {
                Err(e) => r == Err::<Option<PeriodClose>, DirectorError>(DirectorError::Settle(e)),
                Ok(c) => r is Ok ==> r == Ok::<Option<PeriodClose>, DirectorError>(Some(c)),
            }
    }
}

/// What settling does to the books: the lotteries' payouts, then, on a
/// quarter boundary, the period close.
pub open spec fn settle_books(before: Session, after: Session, r: Result<Option<PeriodClose>, DirectorError>) -> bool {
    exists|mid: SimBooks, g: Result<(), DirectorError>|
        #[trigger] payout_outcome(before.active_spec(), before.books_spec(), mid, g) && match g {
            Err(e) => r == Err::<Option<PeriodClose>, DirectorError>(e) && after.books_spec() == mid,
            Ok(_) => if before.market_spec() is None {
                r == Err::<Option<PeriodClose>, DirectorError>(DirectorError::NoObservationYet) && after.books_spec()
                    == mid
            } else if (before.turns() + 1) % (TICKS_PER_QUARTER as int) != 0 {
                after.books_spec() == mid
            } else {
                close_step(before.genesis_spec().firm, mid, before.period_begin_spec(), after.books_spec(), r)
            },
        }
}

proof fn lemma_zeros_sum(n: nat)
    ensures
        crate::ledger::seq_sum(Seq::new(n, |i: int| 0i64)) == 0,
    decreases n,
{
    if n > 0 {
        assert(Seq::new(n, |i: int| 0i64).drop_last() =~= Seq::new((n - 1) as nat, |i: int| 0i64));
        lemma_zeros_sum((n - 1) as nat);
    }
}

/// The opening capital always posts onto all-zero balances, and leaves them
/// balanced.
proof fn lemma_opening_applies(amount: i64)
    requires
        amount_ok(amount),
    ensures
        apply_spec(
            Seq::new(20, |i: int| 0i64),
            transfer_postings(AccountCode::Cash, AccountCode::ShareCapital, amount),
        ) is Some,
        crate::ledger::seq_sum(
            apply_spec(
                Seq::new(20, |i: int| 0i64),
                transfer_postings(AccountCode::Cash, AccountCode::ShareCapital, amount),
            ).unwrap(),
        ) == 0,
{
    let ps = transfer_postings(AccountCode::Cash, AccountCode::ShareCapital, amount);
    let z = Seq::new(20, |i: int| 0i64);
    assert(ps.drop_last().drop_last() =~= Seq::<crate::ledger::Posting>::empty());
    assert(apply_spec(z, ps.drop_last().drop_last()) == Some(z));
    assert(apply_spec(z, ps.drop_last()) is Some);
    lemma_zeros_sum(20);
    crate::ledger::lemma_apply_spec_sum(z, ps);
    assert(crate::ledger::delta_total(ps.drop_last().drop_last()) == 0);
    assert(crate::ledger::delta_total(ps.drop_last()) == amount);
    assert(crate::ledger::delta_total(ps) == 0);
}

/// `row` is what the answer key gains when `params` is planted at `tick`
/// as its `seq`-th row: the digest binds the parameters to both.
pub open spec fn is_planted_row(row: PlantedStimulus, params: StimulusParams, tick: u32, seq: nat) -> bool {
    &&& row.seq == seq
    &&& row.tick == tick
    &&& row.params == params
    &&& row.params_digest@ == crate::stimulus::params_digest_spec(params, tick, seq as u32)
}

/// Planting `params` at `tick` into a slot: while the answer key has room
/// the turn's probes gain exactly the planted row; a full key refuses and
/// leaves them as they were.
#[verifier::opaque]
pub open spec fn slot_outcome(
    key: Seq<PlantedStimulus>,
    before: Seq<PlantedStimulus>,
    after: Seq<PlantedStimulus>,
    params: StimulusParams,
    tick: u32,
    r: Result<(), DirectorError>,
) -> bool {
    if key.len() < MAX_PLANTED_STIMULI {
        &&& r is Ok
        &&& after == before.push(after.last())
        &&& is_planted_row(after.last(), params, tick, key.len())
    } else {
        &&& r == Err::<(), DirectorError>(DirectorError::Stimulus(StimulusError::LedgerFull))
        &&& after == before
    }
}

/// A crisis countdown is among the turn's probes.
pub open spec fn crisis_planted(active: Seq<PlantedStimulus>) -> bool {
    exists|i: int| 0 <= i < active.len() && (#[trigger] active[i].params) is CrisisCountdown
}

/// The pricing sample a decision leaves: a `SetPrice` on a known line with a
/// positive reference price, scored against the optimum at the expected
/// demand, flagged under pressure while a crisis is on the table; `None`
/// for any other decision or an unscoreable price.
pub open spec fn scored_trial(
    intent: ActionIntent,
    ctx: ActionContext,
    demand: Option<i64>,
    active: Seq<PlantedStimulus>,
) -> Option<PricingTrial> {
    match (intent, demand) {
        (ActionIntent::SetPrice { sku, tick_price }, Some(d)) => if (sku as int) < MAX_SKUS
            && ctx.firm_params.skus@[sku as int].reference_price_minor >= 1 {
            match gap_spec(d, ctx, sku, tick_price) {
                Ok(g) => Some(
                    PricingTrial {
                        under_pressure: crisis_planted(active),
                        gap_minor: g.gap_minor,
                        optimal_profit_minor: g.optimal_profit_minor,
                    },
                ),
                Err(_) => None,
            }
        } else {
            None
        },
        _ => None,
    }
}

/// The bounded sample ring after one more sample: the oldest leaves once the
/// ring holds a campaign's worth.
pub open spec fn trials_after(trials: Seq<PricingTrial>, t: PricingTrial) -> Seq<PricingTrial> {
    if trials.len() < CAMPAIGN_TICKS {
        trials.push(t)
    } else {
        trials.subrange(1, trials.len() as int).push(t)
    }
}

/// The firm with the previous probe project retired: completed where it
/// can be, and otherwise as it was.
pub open spec fn retired_firm(f: FirmView, previous: Option<u32>) -> FirmView {
    match previous {
        Some(p) => match apply_effect_spec(f, FirmEffect::CompleteProject { project_id: p }) {
            Ok(g) => g,
            Err(_) => f,
        },
        None => f,
    }
}

/// A fresh active project with nothing committed, in the first free slot
/// (else the first retired one), and its id; or the registry's refusal.
pub open spec fn opened_project(f: FirmView) -> Result<(u32, FirmView), FirmError> {
    match claim_spec(
        f.projects.map_values(|p: Option<Project>| p is Some),
        f.projects.map_values(|p: Option<Project>| p is Some && p.unwrap().status != ProjectStatus::Active),
    ) {
        Ok(i) => Ok(
            (
                i as u32,
                FirmView {
                    projects: f.projects.update(
                        i as int,
                        Some(Project { committed_minor: 0, status: ProjectStatus::Active, continue_count: 0 }),
                    ),
                    ..f
                },
            ),
        ),
        Err(e) => Err(e),
    }
}

/// Seeding a sunk-cost probe's project, from `before` to `after`: any
/// other probe seeds nothing. Otherwise the previous probe project is
/// retired; with nothing sunk a fresh project is opened; with sunk capital
/// the firm must hold that much cash (else nothing is seeded), the amount
/// must be in range, and the project is opened and the capital committed to
/// it and paid from cash as one act.
#[verifier::opaque]
pub open spec fn seed_outcome(
    before: Session,
    after: Session,
    params: StimulusParams,
    r: Result<Option<u32>, DirectorError>,
) -> bool {
    match params {
        StimulusParams::SunkCostPair { sunk_minor, .. } => {
            let b = before.books_spec();
            let a = after.books_spec();
            let f = retired_firm(b.firm@, before.planted_project_spec());
            let ledger_kept = a.balances == b.balances && a.journal == b.journal;
            if sunk_minor == 0 {
                match opened_project(f) {
                    Ok((id, g)) => r == Ok::<Option<u32>, DirectorError>(Some(id)) && ledger_kept && a.firm@ == g
                        && after.planted_project_spec() == Some(id),
                    Err(e) => r == Err::<Option<u32>, DirectorError>(DirectorError::Compile(CompileError::Firm(e)))
                        && ledger_kept && a.firm@ == f && after.planted_project_spec() is None,
                }
            } else if b.balances.bal(AccountCode::Cash) < sunk_minor {
                r == Ok::<Option<u32>, DirectorError>(None) && ledger_kept && a.firm@ == f
                    && after.planted_project_spec() is None
            } else if !amount_ok(sunk_minor) {
                r == Err::<Option<u32>, DirectorError>(
                    DirectorError::Compile(CompileError::AmountOutOfRange { got_minor: sunk_minor }),
                ) && ledger_kept && a.firm@ == f && after.planted_project_spec() is None
            } else {
                match opened_project(f) {
                    Err(e) => r == Err::<Option<u32>, DirectorError>(DirectorError::Compile(CompileError::Firm(e)))
                        && ledger_kept && a.firm@ == f && after.planted_project_spec() is None,
                    Ok((id, g)) => exists|mid: SimBooks, applied: Result<usize, CompileError>|
                        mid.balances == b.balances && mid.journal == b.journal && mid.firm@ == g
                            && #[trigger] shapes_outcome(
                            mid,
                            a,
                            seq![
                                (
                                    Some(transfer_postings(AccountCode::PropertyPlantEquipment, AccountCode::Cash, sunk_minor)),
                                    FirmEffect::CommitToProject { project_id: id, amount_minor: sunk_minor },
                                ),
                            ],
                            applied,
                        ) && match applied {
                            Ok(_) => r == Ok::<Option<u32>, DirectorError>(Some(id))
                                && after.planted_project_spec() == Some(id),
                            Err(e) => r == Err::<Option<u32>, DirectorError>(DirectorError::Compile(e))
                                && after.planted_project_spec() is None,
                        },
                }
            }
        },
        _ => r == Ok::<Option<u32>, DirectorError>(None) && after == before,
    }
}

/// The records a flush hands over, owned.
pub struct PendingRecords {
    pub events: Vec<DecisionEvent>,
    pub stimuli: Vec<PlantedStimulus>,
}

/// What a flush does with the sink's answer: a refusal comes back as
/// `Sink(e)` and a receipt whose counts are not exactly the pending events
/// and unacknowledged rows as `Sink(Partial)`, both with the session
/// unchanged; a full receipt is returned, the event log emptied and the
/// watermark moved to the end of the answer key, nothing else touched.
pub open spec fn flush_answer(
    before: Session,
    after: Session,
    answer: Result<FlushReceipt, SinkError>,
    r: Result<FlushReceipt, DirectorError>,
) -> bool {
    match answer {
        Err(e) => r == Err::<FlushReceipt, DirectorError>(DirectorError::Sink(e)) && after == before,
        Ok(rc) => if rc.events_persisted as int != before.pending_events().len() || rc.stimuli_persisted as int
            != before.answer_key().len() - before.flushed() {
            r == Err::<FlushReceipt, DirectorError>(DirectorError::Sink(SinkError::Partial)) && after == before
        } else {
            &&& r == Ok::<FlushReceipt, DirectorError>(rc)
            &&& after.pending_events() == Seq::<DecisionEvent>::empty()
            &&& after.flushed() == before.answer_key().len()
            &&& after.st() == before.st()
            &&& after.turns() == before.turns()
            &&& after.log() == before.log()
            &&& after.books_spec() == before.books_spec()
            &&& after.answer_key() == before.answer_key()
            &&& after.active_spec() == before.active_spec()
            &&& after.market_spec() == before.market_spec()
            &&& after.refusal_log() == before.refusal_log()
            &&& after.trials() == before.trials()
        },
    }
}

/// Turns in a full campaign: four quarters.
pub const CAMPAIGN_TICKS: u32 = TICKS_PER_QUARTER * 4;

/// Refused attempts the refusal log holds before it rejects further ones.
pub const REFUSAL_LOG_CAPACITY: usize = 1_024;

#[derive(Debug, Clone, Copy, PartialEq, Eq, Structural)]
pub enum RefusalLogError {
    Full,
}

#[derive(Debug, Clone, Copy, PartialEq, Eq, Structural)]
pub enum DirectorError {
    Fsm(FsmError),
    Genesis(GenesisError),
    Compile(CompileError),
    Settle(SettleError),
    Snapshot(SnapshotError),
    Telemetry(TelemetryError),
    Refusal(RefusalLogError),
    Stimulus(StimulusError),
    Sink(SinkError),
    Ring(RingConfigError),
    /// The caller asked for a phase action the session is not in.
    WrongPhase { state: SessionState, wanted: TurnPhase },
    CampaignExhausted,
    /// Something asked for the market before the world had been observed.
    NoObservationYet,
    /// The replay log does not describe a well-formed sequence of turns.
    MalformedLog { at_index: usize },
}

/// A well-formed intent that a business rule turned away.
#[derive(Debug, Clone, Copy, PartialEq, Eq, Structural)]
pub enum RefusalReason {
    InsufficientCash,
    RepayExceedsOutstanding,
    WriteOffExceedsCarryingValue,
    ProjectNotActive,
    OfferNotOpen,
    PositionNotOpen,
}

/// One refused attempt made while a probe was on the table.
#[derive(Debug, Clone, Copy, PartialEq, Eq)]
pub struct RefusalRecord {
    pub tick: u32,
    pub intent: ActionIntent,
    pub reason: RefusalReason,
    pub stimulus: Option<StimulusRef>,
}

/// Bounded, append-only log of refused attempts.
#[derive(Debug, Clone)]
pub struct RefusalLog {
    records: Vec<RefusalRecord>,
}

impl View for RefusalLog {
    type V = Seq<RefusalRecord>;

    closed spec fn view(&self) -> Seq<RefusalRecord> {
        self.records@
    }
}

impl RefusalLog {
    pub fn new() -> (l: Self)
        ensures
            l@ == Seq::<RefusalRecord>::empty(),
    {
        RefusalLog { records: Vec::new() }
    }

    /// Append a refusal, or reject when the log is full.
    pub fn record(
        &mut self,
        tick: u32,
        intent: ActionIntent,
        reason: RefusalReason,
        stimulus: Option<StimulusRef>,
    ) -> (r: Result<(), RefusalLogError>)
        ensures
            old(self)@.len() >= REFUSAL_LOG_CAPACITY ==> r == Err::<(), RefusalLogError>(
                RefusalLogError::Full,
            ) && final(self)@ == old(self)@,
            old(self)@.len() < REFUSAL_LOG_CAPACITY ==> r is Ok && final(self)@ == old(self)@.push(
                RefusalRecord { tick, intent, reason, stimulus },
            ),
    {
        if self.records.len() >= REFUSAL_LOG_CAPACITY {
            return Err(RefusalLogError::Full);
        }
        self.records.push(RefusalRecord { tick, intent, reason, stimulus });
        Ok(())
    }

    pub fn len(&self) -> (n: usize)
        ensures
            n == self@.len(),
    {
        self.records.len()
    }

    pub fn is_empty(&self) -> (b: bool)
        ensures
            b == (self@.len() == 0),
    {
        self.records.len() == 0
    }

    pub fn records(&self) -> (r: &[RefusalRecord])
        ensures
            r@ == self@,
    {
        self.records.as_slice()
    }
}

/// One scored `SetPrice`: the gap to the profit-maximising price, and
/// whether a crisis was on the table when it was chosen.
#[derive(Debug, Clone, Copy, PartialEq, Eq, Structural)]
pub struct PricingTrial {
    pub under_pressure: bool,
    pub gap_minor: i64,
    pub optimal_profit_minor: i64,
}

/// The refusal reason of a compile error, for the errors that are a
/// business rule saying no; shape and existence errors have none.
pub open spec fn refusal_reason_spec(err: CompileError) -> Option<RefusalReason> {
    match err {
        CompileError::InsufficientCash { .. } => Some(RefusalReason::InsufficientCash),
        CompileError::RepayExceedsOutstanding { .. } => Some(RefusalReason::RepayExceedsOutstanding),
        CompileError::WriteOffExceedsCarryingValue { .. } => Some(
            RefusalReason::WriteOffExceedsCarryingValue,
        ),
        CompileError::Firm(FirmError::ProjectNotActive { .. }) => Some(RefusalReason::ProjectNotActive),
        CompileError::Firm(FirmError::OfferNotOpen { .. }) => Some(RefusalReason::OfferNotOpen),
        CompileError::Firm(FirmError::PositionNotOpen { .. }) => Some(RefusalReason::PositionNotOpen),
        _ => None,
    }
}

pub fn classify_refusal(err: &CompileError) -> (r: Option<RefusalReason>)
    ensures
        r == refusal_reason_spec(*err),
{
    match err {
        CompileError::InsufficientCash { .. } => Some(RefusalReason::InsufficientCash),
        CompileError::RepayExceedsOutstanding { .. } => Some(RefusalReason::RepayExceedsOutstanding),
        CompileError::WriteOffExceedsCarryingValue { .. } => Some(
            RefusalReason::WriteOffExceedsCarryingValue,
        ),
        CompileError::Firm(FirmError::ProjectNotActive { .. }) => Some(RefusalReason::ProjectNotActive),
        CompileError::Firm(FirmError::OfferNotOpen { .. }) => Some(RefusalReason::OfferNotOpen),
        CompileError::Firm(FirmError::PositionNotOpen { .. }) => Some(RefusalReason::PositionNotOpen),
        _ => None,
    }
}

/// One entry of the replay log: the tick and the intent, nothing else.
#[derive(Debug, Clone, Copy, PartialEq, Eq, Structural)]
pub struct LoggedDecision {
    pub tick: u32,
    pub intent: ActionIntent,
}

/// What the player is shown at the end of a turn: the published view and
/// consequences of the player's own books.
#[derive(Debug, Clone, PartialEq)]
pub struct TurnReport {
    pub tick: u32,
    pub market: MarketTickView,
    pub operations: TickResult,
    pub period_close: Option<PeriodClose>,
    pub state_digest: StateDigest,
}

pub struct Session {
    genesis: CampaignGenesis,
    kernel: KernelState,
    expected_demand_micro: Option<i64>,
    books: SimBooks,
    state: SessionState,
    market: Option<MarketTickView>,
    period_begin: Balances,
    generations: GenerationStore,
    events: EventLog,
    decisions: Vec<LoggedDecision>,
    turns_completed: u32,
    pending_operations: Option<TickResult>,
    pending_close: Option<PeriodClose>,
    stimuli: StimulusLedger,
    active: Vec<PlantedStimulus>,
    planted_project: Option<u32>,
    stimuli_flushed: usize,
    refusals: RefusalLog,
    pricing_trials: FixedRing<PricingTrial>,
}

/// A planted lottery's terms lie inside the drawn ranges.
pub open spec fn gamble_in_range(p: StimulusParams) -> bool {
    match p {
        StimulusParams::GamblePair { gain_minor, loss_minor, win_probability_micro, .. } => {
            &&& 0 <= gain_minor <= 160_000
            &&& 0 <= loss_minor <= 140_000
            &&& 0 <= win_probability_micro <= 1_000_000
        },
        _ => true,
    }
}

/// The session is in `phase`.
pub open spec fn in_phase(s: SessionState, phase: TurnPhase) -> bool {
    s == SessionState::Active { phase }
}

/// What one submission does. Outside Decide, or before any observation,
/// nothing changes. A refused intent changes neither the books, the log nor
/// the phase; it is entered in the refusal log only when a probe is on the
/// table and a business rule refused it. An accepted intent is applied as
/// the compiler says, recorded with the pre-decision digest, appended to the
/// replay log, and moves the session to Execute.
pub open spec fn submit_outcome(
    before: Session,
    after: Session,
    intent: ActionIntent,
    latency_ms: Option<u32>,
    forced_default: bool,
    firm_json: Seq<u8>,
    r: Result<Execution, DirectorError>,
) -> bool {
    if !in_phase(before.st(), TurnPhase::Decide) {
        r == Err::<Execution, DirectorError>(
            DirectorError::WrongPhase { state: before.st(), wanted: TurnPhase::Decide },
        ) && after == before
    } else if before.market_spec() is None {
        r == Err::<Execution, DirectorError>(DirectorError::NoObservationYet) && after == before
    } else {
        let ctx = before.context_spec().unwrap();
        let tick = ctx.market.tick;
        let digest = crate::digest::prefix8(
            crate::digest::sha256_spec(
                crate::snapshot::state_preimage(before.kernel_spec(), before.books_spec().balances@, firm_json),
            ),
        );
        exists|x: Result<Execution, CompileError>|
            #[trigger] intent_outcome(intent, ctx, before.books_spec(), after.books_spec(), x) && match x {
                Err(e) => {
                    &&& r == Err::<Execution, DirectorError>(DirectorError::Compile(e))
                    &&& after.same_but_books(&before)
                    &&& after.trials() == before.trials()
                    &&& after.refusal_log() == if before.active_spec().len() > 0 && refusal_reason_spec(e) is Some
                        && before.refusal_log().len() < REFUSAL_LOG_CAPACITY {
                        before.refusal_log().push(
                            RefusalRecord {
                                tick,
                                intent,
                                reason: refusal_reason_spec(e).unwrap(),
                                stimulus: crate::stimulus::attribute_spec(intent, before.active_spec()),
                            },
                        )
                    } else {
                        before.refusal_log()
                    }
                },
                Ok(ex) => {
                    &&& after.refusal_log() == before.refusal_log()
                    &&& after.answer_key() == before.answer_key()
                    &&& after.active_spec() == before.active_spec()
                    &&& after.turns() == before.turns()
                    &&& after.market_spec() == before.market_spec()
                    &&& r is Ok ==> {
                        &&& r == Ok::<Execution, DirectorError>(ex)
                        &&& after.st() == (SessionState::Active { phase: TurnPhase::Execute })
                        &&& after.log() == before.log().push(LoggedDecision { tick, intent })
                        &&& after.pending_events().len() == before.pending_events().len() + 1
                        &&& after.pending_events().last().tick == tick
                        &&& after.pending_events().last().action == intent
                        &&& after.pending_events().last().latency_ms == latency_ms
                        &&& after.pending_events().last().forced_default == forced_default
                        &&& after.pending_events().last().stimulus == crate::stimulus::attribute_spec(
                            intent,
                            before.active_spec(),
                        )
                        &&& after.pending_events().last().state_digest@ == digest
                    }
                    &&& (r is Ok <==> before.event_room())
                    &&& r is Err ==> (r matches Err(DirectorError::Telemetry(_)) && after.st() == before.st()
                        && after.log() == before.log())
                },
            }
    }
}

impl Session {
    pub closed spec fn st(&self) -> SessionState {
        self.state
    }

    pub closed spec fn turns(&self) -> u32 {
        self.turns_completed
    }

    pub closed spec fn log(&self) -> Seq<LoggedDecision> {
        self.decisions@
    }

    pub closed spec fn books_spec(&self) -> SimBooks {
        self.books
    }

    pub closed spec fn market_spec(&self) -> Option<MarketTickView> {
        self.market
    }

    pub closed spec fn kernel_spec(&self) -> KernelState {
        self.kernel
    }

    pub closed spec fn demand_spec(&self) -> Option<i64> {
        self.expected_demand_micro
    }

    pub closed spec fn genesis_spec(&self) -> CampaignGenesis {
        self.genesis
    }

    /// The balances the current period opened with.
    /// The project the last sunk-cost probe was seeded on, while it stands.
    pub closed spec fn planted_project_spec(&self) -> Option<u32> {
        self.planted_project
    }

    pub closed spec fn period_begin_spec(&self) -> Seq<i64> {
        self.period_begin@
    }

    pub closed spec fn pending_events(&self) -> Seq<DecisionEvent> {
        self.events.events()
    }

    /// The decision log can take one more record.
    pub closed spec fn event_room(&self) -> bool {
        self.events.spec_next_seq() < u64::MAX && self.events.events().len() < crate::telemetry::EVENT_LOG_CAPACITY
    }

    pub closed spec fn answer_key(&self) -> Seq<PlantedStimulus> {
        self.stimuli@
    }

    pub closed spec fn active_spec(&self) -> Seq<PlantedStimulus> {
        self.active@
    }

    pub closed spec fn flushed(&self) -> nat {
        self.stimuli_flushed as nat
    }

    pub closed spec fn refusal_log(&self) -> Seq<RefusalRecord> {
        self.refusals@
    }

    pub closed spec fn trials(&self) -> Seq<PricingTrial> {
        self.pricing_trials@
    }

    pub closed spec fn store(&self) -> GenerationStore {
        self.generations
    }

    pub closed spec fn wf(&self) -> bool {
        &&& self.books.wf()
        &&& self.books.balances.total() == 0
        &&& self.events.wf()
        &&& self.generations.wf()
        &&& self.pricing_trials.wf()
        &&& self.pricing_trials.cap() == CAMPAIGN_TICKS
        &&& self.stimuli_flushed <= self.stimuli@.len()
        &&& forall|i: int| 0 <= i < self.active@.len() ==> gamble_in_range(#[trigger] self.active@[i].params)
    }

    pub proof fn lemma_active_in_range(&self)
        requires
            self.wf(),
        ensures
            forall|i: int| 0 <= i < self.active_spec().len() ==> gamble_in_range(#[trigger] self.active_spec()[i].params),
    {
    }

    /// The context compilation sees: the observed tick and the firm's
    /// frozen constants.
    pub open spec fn context_spec(&self) -> Option<ActionContext> {
        match self.market_spec() {
            Some(m) => Some(ActionContext { market: m, firm_params: self.genesis_spec().firm }),
            None => None,
        }
    }

    /// Genesis → Active{Observe}, with the opening capital posted. `kernel`
    /// is the market kernel's state at genesis.
    pub fn start(request: GenesisRequest, kernel: KernelState) -> (r: Result<Self, DirectorError>)
        ensures
            !date_ok(encode_utf8(request.created_date@)) ==> r == Err::<Self, DirectorError>(
                DirectorError::Genesis(GenesisError::InvalidDate),
            ),
            date_ok(encode_utf8(request.created_date@)) && !amount_ok(
                genesis_firm(request).opening_capital_minor,
            ) ==> r == Err::<Self, DirectorError>(
                DirectorError::Compile(
                    CompileError::AmountOutOfRange { got_minor: genesis_firm(request).opening_capital_minor },
                ),
            ),
            date_ok(encode_utf8(request.created_date@)) && amount_ok(genesis_firm(request).opening_capital_minor)
                ==> r is Ok,
            r matches Ok(s) ==> {
                &&& s.genesis_spec().firm == genesis_firm(request)
                &&& s.books_spec().firm@ == FirmState::new_spec(genesis_firm(request))
                &&& s.books_spec().balances@ == apply_spec(
                    Seq::new(20, |i: int| 0i64),
                    transfer_postings(
                        AccountCode::Cash,
                        AccountCode::ShareCapital,
                        genesis_firm(request).opening_capital_minor,
                    ),
                ).unwrap()
                &&& s.period_begin_spec() == s.books_spec().balances@
                &&& s.books_spec().balances.total() == 0
                &&& s.wf()
                &&& s.st() == (SessionState::Active { phase: TurnPhase::Observe })
                &&& s.turns() == 0
                &&& s.log() == Seq::<LoggedDecision>::empty()
                &&& s.market_spec() is None
                &&& s.kernel_spec() == kernel
                &&& s.genesis_spec().request == request
                &&& s.pending_events() == Seq::<DecisionEvent>::empty()
                &&& s.answer_key() == Seq::<PlantedStimulus>::empty()
                &&& s.refusal_log() == Seq::<RefusalRecord>::empty()
                &&& s.store().gens() == Seq::<crate::snapshot::Generation>::empty()
            },
    {
        let genesis = match build_campaign_genesis(request) {
            Ok(g) => g,
            Err(e) => return Err(DirectorError::Genesis(e)),
        };
        match genesis.verify_fingerprint() {
            Ok(()) => {},
            Err(e) => return Err(DirectorError::Genesis(e)),
        }
        proof {
            if amount_ok(genesis.firm.opening_capital_minor) {
                lemma_opening_applies(genesis.firm.opening_capital_minor);
            }
        }
        let mut books = match SimBooks::new(&genesis.firm) {
            Ok(b) => b,
            Err(e) => return Err(DirectorError::Compile(e)),
        };
        match books.seed_capital(genesis.firm.opening_capital_minor) {
            Ok(()) => {},
            Err(e) => return Err(DirectorError::Compile(e)),
        }
        let period_begin = books.balances;
        let state = match advance(SessionState::Genesis, SessionEvent::StartConfirmed) {
            Ok(s) => s,
            Err(e) => return Err(DirectorError::Fsm(e)),
        };
        let events = match EventLog::new() {
            Ok(l) => l,
            Err(e) => return Err(DirectorError::Telemetry(e)),
        };
        let pricing_trials = match FixedRing::new(CAMPAIGN_TICKS as usize) {
            Ok(r) => r,
            Err(e) => return Err(DirectorError::Ring(e)),
        };
        Ok(Session {
            genesis,
            kernel,
            expected_demand_micro: None,
            books,
            state,
            market: None,
            period_begin,
            generations: GenerationStore::new(),
            events,
            decisions: Vec::new(),
            turns_completed: 0,
            pending_operations: None,
            pending_close: None,
            stimuli: StimulusLedger::new(),
            active: Vec::new(),
            planted_project: None,
            stimuli_flushed: 0,
            refusals: RefusalLog::new(),
            pricing_trials,
        })
    }

    pub fn state(&self) -> (s: SessionState)
        ensures
            s == self.st(),
    {
        self.state
    }

    pub fn turns_completed(&self) -> (n: u32)
        ensures
            n == self.turns(),
    {
        self.turns_completed
    }

    pub fn decisions(&self) -> (d: &[LoggedDecision])
        ensures
            d@ == self.log(),
    {
        self.decisions.as_slice()
    }

    pub fn generations(&self) -> (g: &GenerationStore)
        ensures
            *g == self.store(),
    {
        &self.generations
    }

    pub fn books(&self) -> (b: &SimBooks)
        ensures
            *b == self.books_spec(),
    {
        &self.books
    }

    /// The published market view; `None` before the first observation.
    pub fn market(&self) -> (m: Option<MarketTickView>)
        ensures
            m == self.market_spec(),
    {
        self.market
    }

    /// The answer key: every probe ever planted, with its sealed parameters.
    pub fn stimuli(&self) -> (l: &StimulusLedger)
        ensures
            l@ == self.answer_key(),
    {
        &self.stimuli
    }

    /// Refused attempts recorded while a probe was on the table.
    pub fn refusals(&self) -> (l: &RefusalLog)
        ensures
            l@ == self.refusal_log(),
    {
        &self.refusals
    }

    /// The decision records not yet acknowledged by a sink, oldest first.
    pub fn events(&self) -> (v: Vec<DecisionEvent>)
        ensures
            v@ == self.pending_events(),
    {
        self.events.to_vec()
    }

    /// One sample per successful, scoreable `SetPrice`, oldest first.
    pub fn pricing_trials(&self) -> (v: Vec<PricingTrial>)
        ensures
            v@ == self.trials(),
    {
        self.pricing_trials.to_vec()
    }

    /// Identity of this campaign for storage and joins: the fingerprint,
    /// never the seed.
    pub fn campaign_fingerprint(&self) -> (f: [u8; 32])
        ensures
            f == self.genesis_spec().fingerprint,
    {
        self.genesis.fingerprint
    }

    /// Records written to the log but not yet acknowledged by a sink.
    pub fn unflushed_records(&self) -> (n: usize)
        ensures
            n == self.pending_events().len(),
    {
        self.events.len()
    }

    /// The campaign key the probe draws are keyed by.
    pub fn campaign_key(&self) -> (k: [u32; 2])
        ensures
            k == self.genesis_spec().campaign_key,
    {
        self.genesis.campaign_key
    }

    /// The kernel's one-tick-ahead demand expectation handed over at the
    /// last observation.
    pub fn expected_demand_micro(&self) -> (d: Option<i64>)
        ensures
            d == self.demand_spec(),
    {
        self.expected_demand_micro
    }

    /// Digest of the authoritative state: the kernel state handed over at
    /// the last observation, the balances, and `firm_json`, the serialized
    /// firm.
    pub fn state_digest(&self, firm_json: &[u8]) -> (r: Result<StateDigest, DirectorError>)
        ensures
            r matches Ok(d) && d.0@ == crate::digest::sha256_spec(
                crate::snapshot::state_preimage(self.kernel_spec(), self.books_spec().balances@, firm_json@),
            ),
    {
        match digest_state(&self.kernel, &self.books.balances, firm_json) {
            Ok(d) => Ok(d),
            Err(e) => Err(DirectorError::Snapshot(e)),
        }
    }

    pub fn context(&self) -> (r: Result<ActionContext, DirectorError>)
        ensures
            match self.context_spec() {
                Some(c) => r == Ok::<ActionContext, DirectorError>(c),
                None => r == Err::<ActionContext, DirectorError>(DirectorError::NoObservationYet),
            },
    {
        match self.market {
            Some(m) => Ok(ActionContext { market: m, firm_params: self.genesis.firm }),
            None => Err(DirectorError::NoObservationYet),
        }
    }

    fn require(&self, wanted: TurnPhase) -> (r: Result<(), DirectorError>)
        ensures
            in_phase(self.st(), wanted) <==> r is Ok,
            r is Err ==> r == Err::<(), DirectorError>(
                DirectorError::WrongPhase { state: self.st(), wanted },
            ),
    {
        match self.state {
            SessionState::Active { phase } => {
                if phase == wanted {
                    Ok(())
                } else {
                    Err(DirectorError::WrongPhase { state: self.state, wanted })
                }
            },
            state => Err(DirectorError::WrongPhase { state, wanted }),
        }
    }

    /// Kill the session on a detected invariant breach, handing back the
    /// cause.
    fn die(&mut self, reason: FailureReason, cause: DirectorError) -> (e: DirectorError)
        ensures
            e == cause,
            final(self).st() == match transition(old(self).st(), SessionEvent::CorruptionDetected { reason }) {
                Some(next) => next,
                None => old(self).st(),
            },
            final(self).books_spec() == old(self).books_spec(),
            final(self).log() == old(self).log(),
            final(self).turns() == old(self).turns(),
            final(self).pending_events() == old(self).pending_events(),
            final(self).answer_key() == old(self).answer_key(),
            final(self).wf() == old(self).wf(),
    {
        match advance(self.state, SessionEvent::CorruptionDetected { reason }) {
            Ok(next) => self.state = next,
            Err(_) => {},
        }
        cause
    }

    /// Everything but the books, the answer key, the probes of the turn and
    /// the probe project is as it was.
    pub open spec fn same_but_planting(&self, other: &Self) -> bool {
        &&& self.st() == other.st()
        &&& self.turns() == other.turns()
        &&& self.log() == other.log()
        &&& self.market_spec() == other.market_spec()
        &&& self.kernel_spec() == other.kernel_spec()
        &&& self.demand_spec() == other.demand_spec()
        &&& self.genesis_spec() == other.genesis_spec()
        &&& self.pending_events() == other.pending_events()
        &&& self.refusal_log() == other.refusal_log()
        &&& self.trials() == other.trials()
        &&& self.store() == other.store()
        &&& self.flushed() == other.flushed()
    }

    /// Plant one probe: it joins the answer key and the turn's probes.
    fn plant_one(&mut self, tick: u32, params: StimulusParams) -> (r: Result<PlantedStimulus, DirectorError>)
        requires
            old(self).wf(),
            gamble_in_range(params),
        ensures
            final(self).wf(),
            final(self).same_but_planting(old(self)),
            final(self).books_spec() == old(self).books_spec(),
            r matches Ok(row) ==> row.tick == tick && row.params == params && final(self).answer_key()
                == old(self).answer_key().push(row) && final(self).active_spec()
                == old(self).active_spec().push(row),
            r is Err ==> r == Err::<PlantedStimulus, DirectorError>(DirectorError::Stimulus(StimulusError::LedgerFull))
                && final(self).answer_key() == old(self).answer_key() && final(self).active_spec()
                == old(self).active_spec(),
            (r is Ok) == (old(self).answer_key().len() < MAX_PLANTED_STIMULI),
            r matches Ok(row) ==> is_planted_row(row, params, tick, old(self).answer_key().len()),
    {
        match self.stimuli.plant(tick, params) {
            Ok(row) => {
                self.active.push(row);
                Ok(row)
            },
            Err(e) => Err(DirectorError::Stimulus(e)),
        }
    }

    /// Plant one probe in its slot of the turn's cadence.
    fn plant_in_slot(
        &mut self,
        tick: u32,
        turn: u32,
        params: StimulusParams,
        Ghost(key0): Ghost<Seq<PlantedStimulus>>,
    ) -> (r: Result<(), DirectorError>)
        requires
            old(self).wf(),
            gamble_in_range(params),
            old(self).answer_key() == key0 + old(self).active_spec(),
            forall|i: int|
                0 <= i < old(self).active_spec().len() ==> (#[trigger] old(self).active_spec()[i]).tick == tick,
            on_cadence(old(self).active_spec(), turn),
            ranked_below(old(self).active_spec(), cadence_rank(params_kind(params))),
            on_schedule(params_kind(params), turn),
        ensures
            final(self).wf(),
            final(self).same_but_planting(old(self)),
            final(self).books_spec() == old(self).books_spec(),
            final(self).answer_key() == key0 + final(self).active_spec(),
            forall|i: int|
                0 <= i < final(self).active_spec().len() ==> (#[trigger] final(self).active_spec()[i]).tick
                    == tick,
            on_cadence(final(self).active_spec(), turn),
            ranked_below(final(self).active_spec(), cadence_rank(params_kind(params)) + 1),
            slot_outcome(old(self).answer_key(), old(self).active_spec(), final(self).active_spec(), params, tick, r),
    {
        reveal(slot_outcome);
        let ghost before = self.active_spec();
        match self.plant_one(tick, params) {
            Ok(row) => {
                proof {
                    lemma_cadence_push(before, row, turn);
                    assert(self.answer_key() =~= key0 + self.active_spec());
                    assert forall|i: int| 0 <= i < self.active_spec().len() implies (
                    #[trigger] self.active_spec()[i]).tick == tick by {
                        if i < before.len() {
                            assert(self.active_spec()[i] == before[i]);
                        }
                    }
                }
                Ok(())
            },
            Err(e) => {
                assert(ranked_below(self.active_spec(), cadence_rank(params_kind(params)) + 1));
                Err(e)
            },
        }
    }

    /// Bring a sunk-cost probe project into being, returning its id; `None`
    /// when the firm cannot afford to have sunk the capital. The previous
    /// probe project is retired first.
    #[verifier::rlimit(30)]
    fn seed_project(&mut self, params: StimulusParams, magnitude: i64) -> (r: Result<
        Option<u32>,
        DirectorError,
    >)
        requires
            old(self).wf(),
        ensures
            final(self).wf(),
            final(self).same_but_planting(old(self)),
            final(self).answer_key() == old(self).answer_key(),
            final(self).active_spec() == old(self).active_spec(),
            keeps_zero_sum(old(self).books_spec(), final(self).books_spec()),
            seed_outcome(*old(self), *final(self), params, r),
    {
        reveal(seed_outcome);
        let ghost s0 = *self;
        let sunk = match params {
            StimulusParams::SunkCostPair { sunk_minor, .. } => sunk_minor,
            _ => return Ok(None),
        };
        match self.planted_project {
            Some(previous) => {
                self.planted_project = None;
                let _ = self.books.firm.apply_effect(FirmEffect::CompleteProject { project_id: previous });
            },
            None => {},
        }
        if sunk == 0 {
            let id = match self.books.firm.open_project(0) {
                Ok(id) => id,
                Err(e) => return Err(DirectorError::Compile(CompileError::Firm(e))),
            };
            self.planted_project = Some(id);
            return Ok(Some(id));
        }
        if self.books.balances.balance_minor(AccountCode::Cash) < sunk {
            return Ok(None);
        }
        let amount = match checked_amount(sunk) {
            Ok(a) => a,
            Err(e) => return Err(DirectorError::Compile(e)),
        };
        let ghost f = self.books.firm@;
        assert(f == retired_firm(s0.books_spec().firm@, s0.planted_project_spec()));
        let project_id = match self.books.firm.open_project(0) {
            Ok(id) => id,
            Err(e) => return Err(DirectorError::Compile(CompileError::Firm(e))),
        };
        assert(opened_project(f) == Ok::<(u32, FirmView), FirmError>((project_id, self.books.firm@)));
        let tx = match transfer(TxKind::CapexPurchase, AccountCode::PropertyPlantEquipment, AccountCode::Cash, amount) {
            Ok(t) => t,
            Err(e) => return Err(DirectorError::Compile(e)),
        };
        let plan = ActionPlan {
            transaction: Some(tx),
            firm_effect: FirmEffect::CommitToProject { project_id, amount_minor: sunk },
        };
        let plans = vec![plan];
        let ghost before = self.books;
        let applied = apply_plans(plans.as_slice(), &mut self.books);
        proof {
            crate::action::lemma_plans_keep_zero_sum(before, self.books, plans@, applied);
            crate::action::lemma_plans_outcome_shapes(before, self.books, plans@, applied);
            assert(shapes_of(plans@) =~= seq![
                (
                    Some(transfer_postings(AccountCode::PropertyPlantEquipment, AccountCode::Cash, sunk)),
                    FirmEffect::CommitToProject { project_id, amount_minor: sunk },
                ),
            ]);
        }
        let ghost shapes = seq![
            (
                Some(transfer_postings(AccountCode::PropertyPlantEquipment, AccountCode::Cash, sunk)),
                FirmEffect::CommitToProject { project_id, amount_minor: sunk },
            ),
        ];
        assert(shapes_outcome(before, self.books, shapes, applied));
        assert(before.balances == s0.books_spec().balances && before.journal == s0.books_spec().journal);
        let ghost g = self.books.firm@;
        assert(exists|mid: SimBooks, ap: Result<usize, CompileError>|
            mid.balances == s0.books_spec().balances && mid.journal == s0.books_spec().journal && mid.firm@ == opened_project(f)->Ok_0.1
                && #[trigger] shapes_outcome(mid, self.books, shapes, ap) && ap == applied) by {
            assert(before.firm@ == opened_project(f)->Ok_0.1);
        }
        match applied {
            Ok(_) => {
                self.planted_project = Some(project_id);
                assert(params matches StimulusParams::SunkCostPair { sunk_minor, .. } && sunk_minor == sunk);
                assert(sunk != 0);
                assert(!(s0.books_spec().balances.bal(AccountCode::Cash) < sunk));
                assert(amount_ok(sunk));
                assert(retired_firm(s0.books_spec().firm@, s0.planted_project_spec()) == f);
                assert(opened_project(f) == Ok::<(u32, FirmView), FirmError>((project_id, before.firm@)));
                assert(self.books_spec() == self.books);
                assert(self.planted_project_spec() == Some(project_id));
                assert(seed_outcome(s0, *self, params, Ok::<Option<u32>, DirectorError>(Some(project_id))));
                Ok(Some(project_id))
            },
            Err(e) => {
                assert(params matches StimulusParams::SunkCostPair { sunk_minor, .. } && sunk_minor == sunk);
                assert(sunk != 0);
                assert(!(s0.books_spec().balances.bal(AccountCode::Cash) < sunk));
                assert(amount_ok(sunk));
                assert(retired_firm(s0.books_spec().firm@, s0.planted_project_spec()) == f);
                assert(opened_project(f) == Ok::<(u32, FirmView), FirmError>((project_id, before.firm@)));
                assert(self.books_spec() == self.books);
                assert(self.planted_project_spec() is None);
                assert(seed_outcome(s0, *self, params, Err::<Option<u32>, DirectorError>(DirectorError::Compile(e))));
                Err(DirectorError::Compile(e))
            },
        }
    }

    /// Plant the fixed cadence's probes for this turn. A probe that cannot
    /// be materialised is skipped, not faked.
    #[verifier::rlimit(40)]
    fn plant(&mut self, view: MarketTickView) -> (r: Result<(), DirectorError>)
        requires
            old(self).wf(),
            old(self).market_spec() == Some(view),
            old(self).turns() < CAMPAIGN_TICKS,
        ensures
            final(self).wf(),
            final(self).same_but_planting(old(self)),
            final(self).answer_key() == old(self).answer_key() + final(self).active_spec(),
            forall|i: int|
                0 <= i < final(self).active_spec().len() ==> (#[trigger] final(self).active_spec()[i]).tick
                    == view.tick,
            on_cadence(final(self).active_spec(), (old(self).turns() + 1) as u32),
            keeps_zero_sum(old(self).books_spec(), final(self).books_spec()),
    {
        self.active.clear();
        let ghost key0 = self.stimuli@;
        assert(self.stimuli@ == key0 + self.active@);
        let turn = self.turns_completed + 1;
        let key = self.genesis.campaign_key;
        let tick = view.tick;
        assert(on_cadence(self.active_spec(), turn));
        assert(ranked_below(self.active_spec(), 0));
        if is_gamble_turn(turn) {
            let drawn = draw_gamble(key, turn);
            proof {
                let lat = crate::stimulus::probability_lattice();
                if let StimulusParams::GamblePair { win_probability_micro, .. } = drawn {
                    let k = choose|k: int| 0 <= k < lat.len() && lat[k] == win_probability_micro;
                    assert(0 <= lat[k] <= 1_000_000);
                }
            }
            match gamble_offer(drawn) {
                Some(offer) => {
                    match self.books.firm.place_offer(offer) {
                        Ok(offer_id) => {
                            let params = bind_offer_id(drawn, offer_id);
                            assert(params_kind(params) == StimulusKind::GamblePair);
                            match self.plant_in_slot(tick, turn, params, Ghost(key0)) {
                                Ok(()) => {},
                                Err(e) => return Err(e),
                            }
                        },
                        Err(_) => {},
                    }
                },
                None => {},
            }
        }
        assert(ranked_below(self.active_spec(), 1));
        if is_anchored_forecast_turn(turn) || is_control_forecast_turn(turn) {
            let ctx = ActionContext { market: view, firm_params: self.genesis.firm };
            match self.expected_demand_micro {
                Some(demand) => {
                    match reference_valuation(demand, &ctx, &self.books.firm) {
                        Ok(reference) => {
                            let params = match anchor_arm(turn) {
                                Some(arm) => draw_anchor(key, turn, arm, reference.expected_revenue_minor),
                                None => StimulusParams::ForecastElicitation {
                                    reference_minor: reference.expected_revenue_minor,
                                },
                            };
                            assert(on_schedule(params_kind(params), turn));
                            assert(cadence_rank(params_kind(params)) == 1);
                            match self.plant_in_slot(tick, turn, params, Ghost(key0)) {
                                Ok(()) => {},
                                Err(e) => return Err(e),
                            }
                        },
                        Err(_) => {},
                    }
                },
                None => {},
            }
        }
        assert(ranked_below(self.active_spec(), 2));
        match sunk_arm(turn) {
            Some(arm) => {
                if is_sunk_cost_turn(turn) {
                    let (magnitude, drawn) = draw_sunk(key, turn, arm);
                    let seeded = match self.seed_project(drawn, magnitude) {
                        Ok(x) => x,
                        Err(e) => return Err(e),
                    };
                    match seeded {
                        Some(project_id) => {
                            let params = bind_project_id(drawn, project_id);
                            assert(params_kind(params) == StimulusKind::SunkCostPair);
                            match self.plant_in_slot(tick, turn, params, Ghost(key0)) {
                                Ok(()) => {},
                                Err(e) => return Err(e),
                            }
                        },
                        None => {},
                    }
                }
            },
            None => {},
        }
        assert(ranked_below(self.active_spec(), 3));
        if is_disposition_turn(turn) {
            match disposition_target(&self.books.firm, view.equity_index_centi) {
                Some(params) => {
                    assert(params_kind(params) == StimulusKind::DispositionWindow);
                    match self.plant_in_slot(tick, turn, params, Ghost(key0)) {
                        Ok(()) => {},
                        Err(e) => return Err(e),
                    }
                },
                None => {},
            }
        }
        assert(ranked_below(self.active_spec(), 4));
        match crisis_ticks_remaining(turn) {
            Some(ticks_remaining) => {
                let params = draw_crisis(key, turn, ticks_remaining);
                assert(params_kind(params) == StimulusKind::CrisisCountdown);
                match self.plant_in_slot(tick, turn, params, Ghost(key0)) {
                    Ok(()) => {},
                    Err(e) => return Err(e),
                }
            },
            None => {},
        }
        Ok(())
    }

    /// Observe: take the kernel's step (its published `view`, its state
    /// `kernel` after the step, and its one-tick-ahead demand expectation,
    /// when it has one), plant this turn's probes, and publish the view.
    pub fn observe(
        &mut self,
        view: MarketTickView,
        kernel: KernelState,
        expected_demand_micro: Option<i64>,
    ) -> (r: Result<MarketTickView, DirectorError>)
        requires
            old(self).wf(),
        ensures
            final(self).wf(),
            keeps_zero_sum(old(self).books_spec(), final(self).books_spec()),
            !in_phase(old(self).st(), TurnPhase::Observe) ==> r == Err::<MarketTickView, DirectorError>(
                DirectorError::WrongPhase { state: old(self).st(), wanted: TurnPhase::Observe },
            ) && *final(self) == *old(self),
            in_phase(old(self).st(), TurnPhase::Observe) && old(self).turns() >= CAMPAIGN_TICKS ==> r
                == Err::<MarketTickView, DirectorError>(DirectorError::CampaignExhausted) && *final(self)
                == *old(self),
            in_phase(old(self).st(), TurnPhase::Observe) && old(self).turns() < CAMPAIGN_TICKS ==> {
                &&& final(self).market_spec() == Some(view)
                &&& final(self).kernel_spec() == kernel
                &&& final(self).demand_spec() == expected_demand_micro
                &&& final(self).turns() == old(self).turns()
                &&& final(self).log() == old(self).log()
                &&& final(self).pending_events() == old(self).pending_events()
                &&& final(self).answer_key() == old(self).answer_key() + final(self).active_spec()
                &&& forall|i: int|
                    0 <= i < final(self).active_spec().len() ==> (#[trigger] final(self).active_spec()[i]).tick
                        == view.tick
                &&& on_cadence(final(self).active_spec(), (old(self).turns() + 1) as u32)
                &&& r is Ok ==> r == Ok::<MarketTickView, DirectorError>(view) && final(self).st() == (
                SessionState::Active { phase: TurnPhase::Decide })
                &&& r is Err ==> final(self).st() == old(self).st()
            },
    {
        self.require(TurnPhase::Observe)?;
        if self.turns_completed >= CAMPAIGN_TICKS {
            return Err(DirectorError::CampaignExhausted);
        }
        self.market = Some(view);
        self.kernel = kernel;
        self.expected_demand_micro = expected_demand_micro;
        self.plant(view)?;
        self.state = match advance(self.state, SessionEvent::ObservationClosed) {
            Ok(s) => s,
            Err(e) => return Err(DirectorError::Fsm(e)),
        };
        Ok(view)
    }

    /// The probes visible this turn, stripped of their answer key.
    pub fn stimulus_views(&self) -> (v: Vec<StimulusView>)
        ensures
            v@.len() == self.active_spec().len(),
            forall|i: int|
                0 <= i < v@.len() ==> #[trigger] v@[i] == crate::stimulus::publish_spec(
                    self.active_spec()[i],
                ),
    {
        let mut v: Vec<StimulusView> = Vec::new();
        let mut i: usize = 0;
        while i < self.active.len()
            invariant
                i <= self.active@.len(),
                v@.len() == i,
                forall|j: int| 0 <= j < i ==> #[trigger] v@[j] == crate::stimulus::publish_spec(self.active@[j]),
            decreases self.active@.len() - i,
        {
            v.push(StimulusView::publish(&self.active[i]));
            i = i + 1;
        }
        v
    }

    /// Everything but the books and the refusal log is as it was.
    pub open spec fn same_but_books(&self, other: &Self) -> bool {
        &&& self.st() == other.st()
        &&& self.turns() == other.turns()
        &&& self.log() == other.log()
        &&& self.market_spec() == other.market_spec()
        &&& self.kernel_spec() == other.kernel_spec()
        &&& self.genesis_spec() == other.genesis_spec()
        &&& self.pending_events() == other.pending_events()
        &&& self.event_room() == other.event_room()
        &&& self.answer_key() == other.answer_key()
        &&& self.active_spec() == other.active_spec()
        &&& self.flushed() == other.flushed()
    }

    /// Decide: submit the turn's one decision. `latency_ms` is recorded and
    /// has no further effect; `firm_json` is the serialized firm as it
    /// stands, for the pre-decision digest.
    pub fn submit(&mut self, intent: ActionIntent, latency_ms: Option<u32>, firm_json: &[u8]) -> (r:
        Result<Execution, DirectorError>)
        requires
            old(self).wf(),
        ensures
            final(self).wf(),
            keeps_zero_sum(old(self).books_spec(), final(self).books_spec()),
            submit_outcome(*old(self), *final(self), intent, latency_ms, false, firm_json@, r),
    {
        let r = self.submit_inner(intent, latency_ms, false, firm_json);
        proof {
            lemma_submit_keeps_zero_sum(*old(self), *self, intent, latency_ms, false, firm_json@, r);
        }
        r
    }

    /// The timeout default: a first-class decision with its own flag, not a
    /// missing turn.
    pub fn submit_timeout_default(&mut self, firm_json: &[u8]) -> (r: Result<Execution, DirectorError>)
        requires
            old(self).wf(),
        ensures
            final(self).wf(),
            keeps_zero_sum(old(self).books_spec(), final(self).books_spec()),
            submit_outcome(*old(self), *final(self), ActionIntent::ForcedDefault, None, true, firm_json@, r),
    {
        let r = self.submit_inner(ActionIntent::ForcedDefault, None, true, firm_json);
        proof {
            lemma_submit_keeps_zero_sum(*old(self), *self, ActionIntent::ForcedDefault, None, true, firm_json@, r);
        }
        r
    }

    /// Enter a refusal in the refusal log when a probe is on the table and a
    /// business rule refused; a full log is ignored.
    fn note_refusal(&mut self, err: CompileError, intent: ActionIntent, tick: u32)
        requires
            old(self).wf(),
        ensures
            final(self).wf(),
            final(self).same_but_books(old(self)),
            final(self).books_spec() == old(self).books_spec(),
            final(self).trials() == old(self).trials(),
            final(self).refusal_log() == if old(self).active_spec().len() > 0 && refusal_reason_spec(err) is Some
                && old(self).refusal_log().len() < REFUSAL_LOG_CAPACITY {
                old(self).refusal_log().push(
                    RefusalRecord {
                        tick,
                        intent,
                        reason: refusal_reason_spec(err).unwrap(),
                        stimulus: crate::stimulus::attribute_spec(intent, old(self).active_spec()),
                    },
                )
            } else {
                old(self).refusal_log()
            },
    {
        if self.active.len() > 0 {
            match classify_refusal(&err) {
                Some(reason) => {
                    let stimulus = attribute(intent, self.active.as_slice());
                    let _ = self.refusals.record(tick, intent, reason, stimulus);
                },
                None => {},
            }
        }
    }

    /// Score a `SetPrice` against the profit-maximising price and keep the
    /// sample; an unscoreable price costs only its sample.
    fn score_price(&mut self, intent: ActionIntent, ctx: ActionContext)
        requires
            old(self).wf(),
        ensures
            final(self).wf(),
            final(self).same_but_books(old(self)),
            final(self).books_spec() == old(self).books_spec(),
            final(self).refusal_log() == old(self).refusal_log(),
            final(self).trials() == match scored_trial(intent, ctx, old(self).demand_spec(), old(self).active_spec()) {
                Some(t) => trials_after(old(self).trials(), t),
                None => old(self).trials(),
            },
    {
        match intent {
            ActionIntent::SetPrice { sku, tick_price } => {
                match self.expected_demand_micro {
                    Some(demand) => {
                        if (sku as usize) < MAX_SKUS && ctx.firm_params.skus[sku as usize].reference_price_minor >= 1 {
                            match pricing_optimality_gap(demand, &ctx, sku, tick_price) {
                                Ok(gap) => {
                                    let mut under_pressure = false;
                                    let mut k: usize = 0;
                                    while k < self.active.len()
                                        invariant
                                            k <= self.active@.len(),
                                            under_pressure <==> exists|i: int|
                                                0 <= i < k && (#[trigger] self.active@[i].params) is CrisisCountdown,
                                        decreases self.active@.len() - k,
                                    {
                                        match self.active[k].params {
                                            StimulusParams::CrisisCountdown { .. } => {
                                                under_pressure = true;
                                            },
                                            _ => {},
                                        }
                                        k = k + 1;
                                    }
                                    let _ = self.pricing_trials.evicting_push(
                                        PricingTrial {
                                            under_pressure,
                                            gap_minor: gap.gap_minor,
                                            optimal_profit_minor: gap.optimal_profit_minor,
                                        },
                                    );
                                },
                                Err(_) => {},
                            }
                        }
                    },
                    None => {},
                }
            },
            _ => {},
        }
    }

    /// Write the decision record and the replay entry, and move to Execute.
    fn record_decision(&mut self, record: DecisionRecord) -> (r: Result<(), DirectorError>)
        requires
            old(self).wf(),
            in_phase(old(self).st(), TurnPhase::Decide),
        ensures
            final(self).wf(),
            final(self).books_spec() == old(self).books_spec(),
            final(self).refusal_log() == old(self).refusal_log(),
            final(self).answer_key() == old(self).answer_key(),
            final(self).active_spec() == old(self).active_spec(),
            final(self).turns() == old(self).turns(),
            final(self).market_spec() == old(self).market_spec(),
            r is Ok ==> {
                &&& final(self).st() == (SessionState::Active { phase: TurnPhase::Execute })
                &&& final(self).log() == old(self).log().push(
                    LoggedDecision { tick: record.tick, intent: record.action },
                )
                &&& final(self).pending_events().len() == old(self).pending_events().len() + 1
                &&& final(self).pending_events().last() == event_of(
                    record,
                    final(self).pending_events().last().seq,
                )
            },
            r is Err ==> final(self).st() == old(self).st() && final(self).log() == old(self).log(),
            r is Ok <==> old(self).event_room(),
            r matches Err(e) ==> e is Telemetry,
    {
        match self.events.record(record) {
            Ok(_) => {},
            Err(e) => return Err(DirectorError::Telemetry(e)),
        }
        self.decisions.push(LoggedDecision { tick: record.tick, intent: record.action });
        self.state = SessionState::Active { phase: TurnPhase::Execute };
        Ok(())
    }

    #[verifier::rlimit(100)]
    fn submit_inner(
        &mut self,
        intent: ActionIntent,
        latency_ms: Option<u32>,
        forced_default: bool,
        firm_json: &[u8],
    ) -> (r: Result<Execution, DirectorError>)
        requires
            old(self).wf(),
        ensures
            final(self).wf(),
            submit_outcome(*old(self), *final(self), intent, latency_ms, forced_default, firm_json@, r),
    {
        let ghost before = *self;
        match self.require(TurnPhase::Decide) {
            Ok(()) => {},
            Err(e) => return Err(e),
        }
        let ctx = match self.context() {
            Ok(c) => c,
            Err(e) => return Err(e),
        };
        let state_digest = match self.state_digest(firm_json) {
            Ok(d) => d,
            Err(e) => return Err(e),
        };
        let outcome = execute_intent(intent, &ctx, &mut self.books);
        let ghost x = outcome;
        let execution = match outcome {
            Ok(exec) => exec,
            Err(err) => {
                self.note_refusal(err, intent, ctx.market.tick);
                assert(intent_outcome(intent, ctx, before.books_spec(), self.books_spec(), x));
                return Err(DirectorError::Compile(err));
            },
        };
        self.score_price(intent, ctx);
        let record = DecisionRecord {
            tick: ctx.market.tick,
            phase: TurnPhase::Decide,
            action: intent,
            stimulus: attribute(intent, self.active.as_slice()),
            latency_ms,
            forced_default,
            state_digest: state_digest.short(),
        };
        let rec = self.record_decision(record);
        assert(intent_outcome(intent, ctx, before.books_spec(), self.books_spec(), x));
        match rec {
            Ok(()) => Ok(execution),
            Err(e) => Err(e),
        }
    }

    /// Execute: run the tick's operations. A failure is an invariant breach
    /// and kills the session.
    pub fn execute(&mut self) -> (r: Result<TickResult, DirectorError>)
        requires
            old(self).wf(),
        ensures
            final(self).wf(),
            keeps_zero_sum(old(self).books_spec(), final(self).books_spec()),
            !in_phase(old(self).st(), TurnPhase::Execute) ==> r == Err::<TickResult, DirectorError>(
                DirectorError::WrongPhase { state: old(self).st(), wanted: TurnPhase::Execute },
            ) && *final(self) == *old(self),
            in_phase(old(self).st(), TurnPhase::Execute) && old(self).market_spec() is None ==> r
                == Err::<TickResult, DirectorError>(DirectorError::NoObservationYet) && *final(self)
                == *old(self),
            in_phase(old(self).st(), TurnPhase::Execute) && old(self).market_spec() is Some ==> {
                &&& final(self).log() == old(self).log()
                &&& final(self).turns() == old(self).turns()
                &&& final(self).pending_events() == old(self).pending_events()
                &&& final(self).answer_key() == old(self).answer_key()
                &&& exists|t: Result<TickResult, SettleError>|
                    #[trigger] tick_outcome(old(self).context_spec().unwrap(), old(self).books_spec(), final(self).books_spec(), t)
                        && match t {
                        Ok(x) => r == Ok::<TickResult, DirectorError>(x) && final(self).st() == (
                        SessionState::Active { phase: TurnPhase::Settle }),
                        Err(e) => r == Err::<TickResult, DirectorError>(DirectorError::Settle(e))
                            && final(self).st() == (SessionState::Dead {
                            reason: FailureReason::InternalInvariantBroken,
                        }),
                    }
            },
    {
        match self.require(TurnPhase::Execute) {
            Ok(_) => {},
            Err(e) => return Err(e),
        }
        let ctx = match self.context() {
            Ok(c) => c,
            Err(e) => return Err(e),
        };
        let ghost before = self.books_spec();
        let out = operate_tick(&ctx, &mut self.books);
        let ghost after = self.books_spec();
        assert(tick_outcome(ctx, before, after, out));
        proof {
            crate::settle::lemma_tick_keeps_zero_sum(ctx, before, after, out);
        }
        let result = match out {
            Ok(r) => r,
            Err(e) => {
                let d = self.die(FailureReason::InternalInvariantBroken, DirectorError::Settle(e));
                assert(tick_outcome(ctx, before, self.books_spec(), Err::<TickResult, SettleError>(e)));
                return Err(d);
            },
        };
        self.pending_operations = Some(result.clone());
        self.state = SessionState::Active { phase: TurnPhase::Settle };
        assert(tick_outcome(ctx, before, self.books_spec(), Ok::<TickResult, SettleError>(result)));
        Ok(result)
    }

    /// Pay out the lotteries the player bought into this turn, through
    /// receivables and payables so a bad outcome can always be posted.
    fn resolve_gambles(&mut self) -> (r: Result<(), DirectorError>)
        requires
            old(self).wf(),
        ensures
            final(self).wf(),
            final(self).same_but_books(old(self)),
            final(self).refusal_log() == old(self).refusal_log(),
            final(self).trials() == old(self).trials(),
            payout_outcome(old(self).active_spec(), old(self).books_spec(), final(self).books_spec(), r),
            final(self).period_begin_spec() == old(self).period_begin_spec(),
    {
        let ghost s0 = *self;
        let mut plans: Vec<ActionPlan> = Vec::new();
        let mut k: usize = 0;
        assert(shapes_of(plans@) =~= Seq::<Shape>::empty());
        while k < self.active.len()
            invariant
                *self == s0,
                s0.wf(),
                k <= self.active@.len(),
                forall|j: int| 0 <= j < plans@.len() ==> #[trigger] plan_wf(plans@[j]),
                gamble_payouts(self.active@, self.books.firm@, k as int) == Ok::<Seq<Shape>, CompileError>(
                    shapes_of(plans@),
                ),
            decreases self.active@.len() - k,
        {
            match self.active[k].params {
                StimulusParams::GamblePair { offer_id, gain_minor, loss_minor, good_state, .. } => {
                    let accepted = match self.books.firm.offer(offer_id) {
                        Ok(o) => o.status == OfferStatus::Accepted,
                        Err(_) => false,
                    };
                    if accepted {
                        let (kind, debit, credit, raw) = if good_state {
                            (TxKind::HedgeSettlement, AccountCode::AccountsReceivable, AccountCode::OtherIncome, gain_minor)
                        } else {
                            (TxKind::PayOpex, AccountCode::OperatingExpense, AccountCode::AccountsPayable, loss_minor)
                        };
                        let amount = match checked_amount(raw) {
                            Ok(a) => a,
                            Err(e) => {
                                proof {
                                    lemma_payout_error_sticks(self.active@, self.books.firm@, k as int + 1, self.active@.len() as int);
                                }
                                return Err(DirectorError::Compile(e));
                            },
                        };
                        let tx = match transfer(kind, debit, credit, amount) {
                            Ok(t) => t,
                            Err(e) => return Err(DirectorError::Compile(e)),
                        };
                        let ghost before = plans@;
                        plans.push(ActionPlan { transaction: Some(tx), firm_effect: FirmEffect::NoChange });
                        assert(shapes_of(plans@) =~= shapes_of(before).push(plan_shape(plans@.last())));
                    }
                },
                _ => {},
            }
            k = k + 1;
        }
        if plans.len() > 0 {
            let ghost before = self.books;
            let applied = apply_plans(plans.as_slice(), &mut self.books);
            proof {
                crate::action::lemma_plans_outcome_shapes(before, self.books, plans@, applied);
                assert(shapes_outcome(before, self.books, shapes_of(plans@), applied));
            }
            match applied {
                Ok(_) => {},
                Err(e) => return Err(DirectorError::Compile(e)),
            }
        }
        Ok(())
    }

    /// Settle: resolve the turn's lotteries, and on a quarter boundary close
    /// the period and checkpoint. A cash-flow breach is terminal: there is
    /// no repair branch. `firm_json` is the serialized firm as it stands
    /// (settling leaves the firm as it is).
    pub fn settle(&mut self, firm_json: &[u8]) -> (r: Result<Option<PeriodClose>, DirectorError>)
        requires
            old(self).wf(),
        ensures
            final(self).wf(),
            keeps_zero_sum(old(self).books_spec(), final(self).books_spec()),
            !in_phase(old(self).st(), TurnPhase::Settle) ==> r == Err::<Option<PeriodClose>, DirectorError>(
                DirectorError::WrongPhase { state: old(self).st(), wanted: TurnPhase::Settle },
            ) && *final(self) == *old(self),
            in_phase(old(self).st(), TurnPhase::Settle) ==> {
                &&& final(self).log() == old(self).log()
                &&& final(self).turns() == old(self).turns()
                &&& final(self).pending_events() == old(self).pending_events()
                &&& final(self).answer_key() == old(self).answer_key()
                &&& r matches Ok(c) ==> {
                    &&& final(self).st() == (SessionState::Active { phase: TurnPhase::Report })
                    &&& (c is Some <==> (old(self).turns() + 1) % (TICKS_PER_QUARTER as int) == 0)
                    &&& c is Some ==> final(self).store().gens().len() > 0
                        && final(self).store().gens().last().state_digest.0@ == crate::digest::sha256_spec(
                        crate::snapshot::state_preimage(
                            final(self).kernel_spec(),
                            final(self).books_spec().balances@,
                            firm_json@,
                        ),
                    )
                }
                &&& r matches Err(DirectorError::Settle(SettleError::AccountingBreach { .. })) ==> final(self).st()
                    == (SessionState::Dead { reason: FailureReason::AccountingBreach })
                &&& settle_books(*old(self), *final(self), r)
            },
    {
        match self.require(TurnPhase::Settle) {
            Ok(_) => {},
            Err(e) => return Err(e),
        }
        let ghost before = self.books_spec();
        let g = self.resolve_gambles();
        let ghost mid = self.books_spec();
        assert(payout_outcome(old(self).active_spec(), before, mid, g));
        match g {
            Ok(_) => {},
            Err(e) => return Err(e),
        }
        let ctx = match self.context() {
            Ok(c) => c,
            Err(e) => return Err(e),
        };
        let turn = self.turns_completed as u64 + 1;
        let mut closed: Option<PeriodClose> = None;
        if turn % (TICKS_PER_QUARTER as u64) == 0 {
            if self.books.balances.balance_minor(AccountCode::AccumulatedDepreciation) == i64::MIN
                || self.books.balances.balance_minor(AccountCode::SeniorDebt) == i64::MIN
                || self.books.balances.balance_minor(AccountCode::MezzanineDebt) == i64::MIN {
                return Err(self.die(FailureReason::InternalInvariantBroken, DirectorError::Settle(SettleError::Overflow)));
            }
            let period_begin = self.period_begin;
            let cr = close_period(&ctx, &mut self.books, &period_begin);
            let ghost after_close = self.books_spec();
            assert(close_outcome(ctx.firm_params, mid, period_begin@, after_close, cr));
            let close = match cr {
                Ok(c) => c,
                Err(e) => {
                    let reason = match e {
                        SettleError::AccountingBreach { .. } => FailureReason::AccountingBreach,
                        _ => FailureReason::InternalInvariantBroken,
                    };
                    return Err(self.die(reason, DirectorError::Settle(e)));
                },
            };
            self.period_begin = self.books.balances;
            let generation = match self.generations.capture(&self.kernel, &self.books.balances, firm_json) {
                Ok(g) => g,
                Err(e) => return Err(DirectorError::Snapshot(e)),
            };
            match self.generations.verify(generation) {
                Ok(()) => {},
                Err(e) => return Err(self.die(FailureReason::SnapshotDigestMismatch, DirectorError::Snapshot(e))),
            }
            closed = Some(close);
        }
        self.pending_close = closed;
        self.state = SessionState::Active { phase: TurnPhase::Report };
        Ok(closed)
    }

    /// Report: hand back the turn summary and roll into the next Observe, or
    /// seal the campaign after its last turn. `firm_json` is the serialized
    /// firm as it stands.
    pub fn report(&mut self, firm_json: &[u8]) -> (r: Result<TurnReport, DirectorError>)
        requires
            old(self).wf(),
        ensures
            final(self).wf(),
            keeps_zero_sum(old(self).books_spec(), final(self).books_spec()),
            !in_phase(old(self).st(), TurnPhase::Report) ==> r == Err::<TurnReport, DirectorError>(
                DirectorError::WrongPhase { state: old(self).st(), wanted: TurnPhase::Report },
            ) && *final(self) == *old(self),
            in_phase(old(self).st(), TurnPhase::Report) ==> {
                &&& final(self).log() == old(self).log()
                &&& final(self).books_spec() == old(self).books_spec()
                &&& final(self).answer_key() == old(self).answer_key()
                &&& r matches Ok(rep) ==> {
                    &&& old(self).market_spec() == Some(rep.market)
                    &&& rep.tick == rep.market.tick
                    &&& rep.state_digest.0@ == crate::digest::sha256_spec(
                        crate::snapshot::state_preimage(
                            old(self).kernel_spec(),
                            old(self).books_spec().balances@,
                            firm_json@,
                        ),
                    )
                    &&& final(self).turns() == old(self).turns() + 1
                    &&& final(self).st() == if final(self).turns() >= CAMPAIGN_TICKS {
                        SessionState::Sealed
                    } else {
                        SessionState::Active { phase: TurnPhase::Observe }
                    }
                }
            },
    {
        match self.require(TurnPhase::Report) {
            Ok(_) => {},
            Err(e) => return Err(e),
        }
        let operations = match self.pending_operations.take() {
            Some(r) => r,
            None => {
                let st = self.state;
                return Err(self.die(
                    FailureReason::InternalInvariantBroken,
                    DirectorError::WrongPhase { state: st, wanted: TurnPhase::Execute },
                ));
            },
        };
        let market = match self.market {
            Some(m) => m,
            None => return Err(DirectorError::NoObservationYet),
        };
        let state_digest = match self.state_digest(firm_json) {
            Ok(d) => d,
            Err(e) => return Err(e),
        };
        if self.turns_completed == u32::MAX {
            return Err(DirectorError::CampaignExhausted);
        }
        let report = TurnReport {
            tick: market.tick,
            market,
            operations,
            period_close: self.pending_close.take(),
            state_digest,
        };
        self.turns_completed = self.turns_completed + 1;
        self.state = if self.turns_completed >= CAMPAIGN_TICKS {
            SessionState::Sealed
        } else {
            SessionState::Active { phase: TurnPhase::Observe }
        };
        Ok(report)
    }

    /// The records not yet handed over: every pending decision event, in
    /// order, and the answer-key rows past the acknowledged watermark.
    pub fn pending_records(&self) -> (p: PendingRecords)
        requires
            self.wf(),
        ensures
            p.events@ == self.pending_events(),
            p.stimuli@ == self.answer_key().subrange(self.flushed() as int, self.answer_key().len() as int),
    {
        let events = self.events.to_vec();
        let rows = self.stimuli.rows();
        let mut pending: Vec<PlantedStimulus> = Vec::new();
        let mut k: usize = self.stimuli_flushed;
        while k < rows.len()
            invariant
                self.stimuli_flushed <= k <= rows@.len(),
                rows@ == self.stimuli@,
                pending@ == rows@.subrange(self.stimuli_flushed as int, k as int),
            decreases rows@.len() - k,
        {
            pending.push(rows[k]);
            k = k + 1;
            assert(pending@ =~= rows@.subrange(self.stimuli_flushed as int, k as int));
        }
        PendingRecords { events, stimuli: pending }
    }

    /// The batch a flush hands the sink: the current schema, this campaign's
    /// genesis fingerprint, and the given records.
    pub fn pending_batch<'a>(&self, records: &'a PendingRecords) -> (b: DecisionBatch<'a>)
        ensures
            b.schema == BLACKBOX_LOG_SCHEMA_V1,
            b.campaign_fingerprint == self.genesis_spec().fingerprint,
            b.events@ == records.events@,
            b.stimuli@ == records.stimuli@,
    {
        DecisionBatch {
            schema: BLACKBOX_LOG_SCHEMA_V1,
            campaign_fingerprint: self.genesis.fingerprint,
            events: records.events.as_slice(),
            stimuli: records.stimuli.as_slice(),
        }
    }

    /// Take the sink's answer to the pending batch: a refusal comes back as
    /// the sink's error and a short receipt as `Partial`, both losing
    /// nothing; a full receipt clears the log and moves the watermark.
    fn acknowledge(&mut self, answer: Result<FlushReceipt, SinkError>) -> (r: Result<FlushReceipt, DirectorError>)
        requires
            old(self).wf(),
        ensures
            final(self).wf(),
            flush_answer(*old(self), *final(self), answer, r),
    {
        let receipt = match answer {
            Ok(rc) => rc,
            Err(e) => return Err(DirectorError::Sink(e)),
        };
        let unflushed = self.stimuli.len() - self.stimuli_flushed;
        if receipt.events_persisted as usize != self.events.len() || receipt.stimuli_persisted as usize
            != unflushed {
            return Err(DirectorError::Sink(SinkError::Partial));
        }
        let _ = self.events.drain_for_flush();
        self.stimuli_flushed = self.stimuli.len();
        Ok(receipt)
    }

    /// Hand every record produced since the last successful flush to
    /// `sink`, as `pending_batch(pending_records())`. The log is cleared,
    /// and the answer-key watermark moved, only after the sink acknowledges
    /// every record; a failed or short acknowledgement loses nothing. What
    /// the sink answers is its own affair: whatever it answers, the outcome
    /// is the one `flush_answer` fixes for that answer.
    pub fn flush_to<S: DecisionSink>(&mut self, sink: &mut S) -> (r: Result<FlushReceipt, DirectorError>)
        requires
            old(self).wf(),
        ensures
            final(self).wf(),
            final(self).st() == old(self).st(),
            final(self).log() == old(self).log(),
            final(self).books_spec() == old(self).books_spec(),
            final(self).answer_key() == old(self).answer_key(),
            old(self).pending_events().len() == 0 && old(self).flushed() == old(self).answer_key().len() ==> r
                == Ok::<FlushReceipt, DirectorError>(FlushReceipt { events_persisted: 0, stimuli_persisted: 0 })
                && *final(self) == *old(self),
            !(old(self).pending_events().len() == 0 && old(self).flushed() == old(self).answer_key().len())
                ==> exists|answer: Result<FlushReceipt, SinkError>| #[trigger]
                flush_answer(*old(self), *final(self), answer, r),
    {
        let records = self.pending_records();
        let batch = self.pending_batch(&records);
        if batch.is_empty() {
            return Ok(FlushReceipt { events_persisted: 0, stimuli_persisted: 0 });
        }
        let answer = sink.persist(&batch);
        self.acknowledge(answer)
    }

    /// Abort the campaign: the session seals where it stands.
    pub fn abort(&mut self) -> (r: Result<(), DirectorError>)
        requires
            old(self).wf(),
        ensures
            final(self).wf(),
            keeps_zero_sum(old(self).books_spec(), final(self).books_spec()),
            match transition(old(self).st(), SessionEvent::AbortRequested) {
                Some(next) => r is Ok && final(self).st() == next,
                None => r == Err::<(), DirectorError>(
                    DirectorError::Fsm(FsmError::IllegalTransition { from: old(self).st(), event: SessionEvent::AbortRequested }),
                ) && final(self).st() == old(self).st(),
            },
            final(self).log() == old(self).log(),
            final(self).books_spec() == old(self).books_spec(),
    {
        match advance(self.state, SessionEvent::AbortRequested) {
            Ok(next) => {
                self.state = next;
                Ok(())
            },
            Err(e) => Err(DirectorError::Fsm(e)),
        }
    }
}

proof fn lemma_submit_keeps_zero_sum(
    before: Session,
    after: Session,
    intent: ActionIntent,
    latency_ms: Option<u32>,
    forced_default: bool,
    firm_json: Seq<u8>,
    r: Result<Execution, DirectorError>,
)
    requires
        submit_outcome(before, after, intent, latency_ms, forced_default, firm_json, r),
    ensures
        keeps_zero_sum(before.books_spec(), after.books_spec()),
{
    if in_phase(before.st(), TurnPhase::Decide) && before.market_spec() is Some {
        let ctx = before.context_spec().unwrap();
        let x = choose|x: Result<Execution, CompileError>|
            #[trigger] intent_outcome(intent, ctx, before.books_spec(), after.books_spec(), x) && match x {
                Err(e) => {
                    &&& r == Err::<Execution, DirectorError>(DirectorError::Compile(e))
                    &&& after.same_but_books(&before)
                    &&& after.trials() == before.trials()
                    &&& after.refusal_log() == if before.active_spec().len() > 0 && refusal_reason_spec(e) is Some
                        && before.refusal_log().len() < REFUSAL_LOG_CAPACITY {
                        before.refusal_log().push(
                            RefusalRecord {
                                tick: ctx.market.tick,
                                intent,
                                reason: refusal_reason_spec(e).unwrap(),
                                stimulus: crate::stimulus::attribute_spec(intent, before.active_spec()),
                            },
                        )
                    } else {
                        before.refusal_log()
                    }
                },
                Ok(ex) => true,
            };
        crate::action::lemma_intent_keeps_zero_sum(intent, ctx, before.books_spec(), after.books_spec(), x);
    }
}

/// The replay check of one log entry: the replayed observation must fall on
/// the tick the entry was logged at, or the log is malformed at `at_index`.
pub fn check_replayed_tick(replayed_tick: u32, entry: &LoggedDecision, at_index: usize) -> (r: Result<
    (),
    DirectorError,
>)
    ensures
        replayed_tick == entry.tick ==> r is Ok,
        replayed_tick != entry.tick ==> r == Err::<(), DirectorError>(DirectorError::MalformedLog { at_index }),
{
    if replayed_tick != entry.tick {
        Err(DirectorError::MalformedLog { at_index })
    } else {
        Ok(())
    }
}

/// A session's books balance at every step: from the opening capital on,
/// through every phase of every turn, the signed balances of all accounts
/// sum to zero (every constructor and every phase call keeps `wf`).
pub proof fn law_a_session_always_balances(s: Session)
    requires
        s.wf(),
    ensures
        s.books_spec().balances.total() == 0,
{
}

/// A sealed or dead campaign accepts nothing further: it is in no turn
/// phase, so every phase call refuses it, and a submission in particular is
/// refused with `WrongPhase` and changes nothing.
pub proof fn law_a_finished_campaign_accepts_nothing(
    before: Session,
    after: Session,
    intent: ActionIntent,
    latency_ms: Option<u32>,
    forced_default: bool,
    firm_json: Seq<u8>,
    r: Result<Execution, DirectorError>,
    phase: TurnPhase,
)
    requires
        before.st() is Sealed || before.st() is Dead,
        submit_outcome(before, after, intent, latency_ms, forced_default, firm_json, r),
    ensures
        !in_phase(before.st(), phase),
        r == Err::<Execution, DirectorError>(
            DirectorError::WrongPhase { state: before.st(), wanted: TurnPhase::Decide },
        ),
        after == before,
{
}

/// A refused intent is not a decision: the replay log, the phase, the turn
/// count and the books stay as they were.
pub proof fn law_a_refused_intent_consumes_nothing(
    before: Session,
    after: Session,
    intent: ActionIntent,
    latency_ms: Option<u32>,
    forced_default: bool,
    firm_json: Seq<u8>,
    e: CompileError,
)
    requires
        submit_outcome(before, after, intent, latency_ms, forced_default, firm_json, Err(DirectorError::Compile(e))),
    ensures
        after.log() == before.log(),
        after.st() == before.st(),
        after.turns() == before.turns(),
        after.books_spec().balances@ == before.books_spec().balances@,
        after.books_spec().firm@ == before.books_spec().firm@,
{
}

/// Latency is an observation about the player, never an input: two
/// submissions of the same intent from the same state that differ only in
/// the recorded latency leave the same books, replay log, phase and turn
/// count, and succeed or fail together.
pub proof fn law_latency_cannot_reach_the_state(
    before: Session,
    a1: Session,
    a2: Session,
    intent: ActionIntent,
    l1: Option<u32>,
    l2: Option<u32>,
    forced_default: bool,
    firm_json: Seq<u8>,
    r1: Result<Execution, DirectorError>,
    r2: Result<Execution, DirectorError>,
)
    requires
        submit_outcome(before, a1, intent, l1, forced_default, firm_json, r1),
        submit_outcome(before, a2, intent, l2, forced_default, firm_json, r2),
    ensures
        a1.books_spec().balances@ == a2.books_spec().balances@,
        a1.books_spec().firm@ == a2.books_spec().firm@,
        a1.log() == a2.log(),
        a1.st() == a2.st(),
        a1.turns() == a2.turns(),
        r1 is Ok <==> r2 is Ok,
{
}

} // verus!
