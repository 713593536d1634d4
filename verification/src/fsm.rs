//! Session/turn state machine: a literal transcription of the decision
//! table. Every (state, event) pair outside the table is a typed
//! `IllegalTransition`, and `Sealed` / `Dead` are absorbing.
use vstd::prelude::*;

verus! {

#[derive(Debug, Clone, Copy, PartialEq, Eq, Structural)]
pub enum TurnPhase {
    Observe,
    Decide,
    Execute,
    Settle,
    Report,
}

#[derive(Debug, Clone, Copy, PartialEq, Eq, Structural)]
pub enum FailureReason {
    AccountingBreach,
    SnapshotDigestMismatch,
    ReplayDivergence,
    InternalInvariantBroken,
}

#[derive(Debug, Clone, Copy, PartialEq, Eq, Structural)]
pub enum SessionState {
    Genesis,
    Active { phase: TurnPhase },
    Sealed,
    Dead { reason: FailureReason },
}

#[derive(Debug, Clone, Copy, PartialEq, Eq, Structural)]
pub enum SessionEvent {
    StartConfirmed,
    ObservationClosed,
    DecisionSubmitted,
    ExecutionApplied,
    SettlementVerified,
    ReportAcknowledged,
    CampaignCompleted,
    AbortRequested,
    CorruptionDetected { reason: FailureReason },
}

#[derive(Debug, Clone, Copy, PartialEq, Eq, Structural)]
pub enum FsmError {
    IllegalTransition { from: SessionState, event: SessionEvent },
}

/// The decision table: the legal successor of `state` under `event`, if any.
pub open spec fn transition(state: SessionState, event: SessionEvent) -> Option<SessionState> {
    match (state, event) {
        (SessionState::Genesis, SessionEvent::StartConfirmed) => Some(
            SessionState::Active { phase: TurnPhase::Observe },
        ),
        (SessionState::Genesis, SessionEvent::AbortRequested) => Some(SessionState::Sealed),
        (SessionState::Active { phase: TurnPhase::Observe }, SessionEvent::ObservationClosed) => Some(
            SessionState::Active { phase: TurnPhase::Decide },
        ),
        (SessionState::Active { phase: TurnPhase::Decide }, SessionEvent::DecisionSubmitted) => Some(
            SessionState::Active { phase: TurnPhase::Execute },
        ),
        (SessionState::Active { phase: TurnPhase::Execute }, SessionEvent::ExecutionApplied) => Some(
            SessionState::Active { phase: TurnPhase::Settle },
        ),
        (SessionState::Active { phase: TurnPhase::Settle }, SessionEvent::SettlementVerified) => Some(
            SessionState::Active { phase: TurnPhase::Report },
        ),
        (SessionState::Active { phase: TurnPhase::Report }, SessionEvent::ReportAcknowledged) => Some(
            SessionState::Active { phase: TurnPhase::Observe },
        ),
        (SessionState::Active { phase: TurnPhase::Report }, SessionEvent::CampaignCompleted) => Some(
            SessionState::Sealed,
        ),
        (SessionState::Active { .. }, SessionEvent::AbortRequested) => Some(SessionState::Sealed),
        (SessionState::Active { .. }, SessionEvent::CorruptionDetected { reason }) => Some(
            SessionState::Dead { reason },
        ),
        _ => None,
    }
}

/// Advance the session by one event, or refuse with the offending pair.
pub fn advance(state: SessionState, event: SessionEvent) -> (r: Result<SessionState, FsmError>)
    ensures
        transition(state, event) matches Some(next) ==> r == Ok::<SessionState, FsmError>(next),
        transition(state, event) is None ==> r == Err::<SessionState, FsmError>(
            FsmError::IllegalTransition { from: state, event },
        ),
{
    match (state, event) {
        (SessionState::Genesis, SessionEvent::StartConfirmed) => Ok(
            SessionState::Active { phase: TurnPhase::Observe },
        ),
        (SessionState::Genesis, SessionEvent::AbortRequested) => Ok(SessionState::Sealed),
        (SessionState::Active { phase: TurnPhase::Observe }, SessionEvent::ObservationClosed) => Ok(
            SessionState::Active { phase: TurnPhase::Decide },
        ),
        (SessionState::Active { phase: TurnPhase::Decide }, SessionEvent::DecisionSubmitted) => Ok(
            SessionState::Active { phase: TurnPhase::Execute },
        ),
        (SessionState::Active { phase: TurnPhase::Execute }, SessionEvent::ExecutionApplied) => Ok(
            SessionState::Active { phase: TurnPhase::Settle },
        ),
        (SessionState::Active { phase: TurnPhase::Settle }, SessionEvent::SettlementVerified) => Ok(
            SessionState::Active { phase: TurnPhase::Report },
        ),
        (SessionState::Active { phase: TurnPhase::Report }, SessionEvent::ReportAcknowledged) => Ok(
            SessionState::Active { phase: TurnPhase::Observe },
        ),
        (SessionState::Active { phase: TurnPhase::Report }, SessionEvent::CampaignCompleted) => Ok(
            SessionState::Sealed,
        ),
        (SessionState::Active { .. }, SessionEvent::AbortRequested) => Ok(SessionState::Sealed),
        (SessionState::Active { .. }, SessionEvent::CorruptionDetected { reason }) => Ok(
            SessionState::Dead { reason },
        ),
        (from, event) => Err(FsmError::IllegalTransition { from, event }),
    }
}

/// `Sealed` and `Dead` are absorbing: no event leaves them.
pub proof fn law_terminal_states_absorb(event: SessionEvent, reason: FailureReason)
    ensures
        transition(SessionState::Sealed, event) is None,
        transition(SessionState::Dead { reason }, event) is None,
{
}

/// From any active phase an abort seals the session and a detected
/// corruption kills it with the reported reason.
pub proof fn law_active_exits(phase: TurnPhase, reason: FailureReason)
    ensures
        transition(SessionState::Active { phase }, SessionEvent::AbortRequested) == Some(
            SessionState::Sealed,
        ),
        transition(
            SessionState::Active { phase },
            SessionEvent::CorruptionDetected { reason },
        ) == Some(SessionState::Dead { reason }),
{
}

/// The turn walks Observe, Decide, Execute, Settle, Report and back to
/// Observe; every legal transition out of an active phase that is not an
/// exit is the next phase of that cycle, or the campaign's completion.
pub proof fn law_phase_order(phase: TurnPhase, event: SessionEvent)
    ensures
        transition(SessionState::Active { phase }, event) matches Some(SessionState::Active {
            phase: next,
        }) ==> next == match phase {
            TurnPhase::Observe => TurnPhase::Decide,
            TurnPhase::Decide => TurnPhase::Execute,
            TurnPhase::Execute => TurnPhase::Settle,
            TurnPhase::Settle => TurnPhase::Report,
            TurnPhase::Report => TurnPhase::Observe,
        },
        transition(SessionState::Active { phase }, event) == Some(SessionState::Sealed) ==> (
        event == SessionEvent::AbortRequested || (phase == TurnPhase::Report && event
            == SessionEvent::CampaignCompleted)),
{
}

/// Nothing re-enters `Genesis`.
pub proof fn law_genesis_is_never_reentered(state: SessionState, event: SessionEvent)
    ensures
        transition(state, event) != Some(SessionState::Genesis),
{
}

} // verus!
