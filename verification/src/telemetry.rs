//! Decision telemetry: the record ledger.
//!
//! Append-only, reject-on-full, seq-monotonic. There are no free-text
//! fields: every field is an enum, an integer, or a digest. `latency_ms` is
//! an observation only; it never becomes an input to state evolution.
use crate::fsm::TurnPhase;
use crate::ring::{FixedRing, RingConfigError};
use std::collections::vec_deque::Iter;
use vstd::prelude::*;

verus! {

/// Channel tag persisted with every flushed batch.
pub const TELEMETRY_CHANNEL: &'static str = "blackbox_sim";

pub const EVENT_LOG_CAPACITY: usize = 512;

/// Closed intent catalog: the only vocabulary the UI may submit.
#[derive(Debug, Clone, Copy, PartialEq, Eq, Structural)]
pub enum ActionIntent {
    SetPrice { sku: u8, tick_price: i64 },
    OrderInventory { sku: u8, units: u32 },
    AcceptOffer { offer_id: u32 },
    DeclineOffer { offer_id: u32 },
    ClosePosition { position_id: u32 },
    OpenHedge { instrument: u8, notional_minor: i64 },
    Invest { project_id: u32, amount_minor: i64 },
    ContinueProject { project_id: u32 },
    AbandonProject { project_id: u32 },
    Borrow { facility: u8, amount_minor: i64 },
    Repay { facility: u8, amount_minor: i64 },
    ForecastInterval { lo_minor: i64, hi_minor: i64 },
    Abstain,
    /// Timeout default injected by the Director: a first-class decision.
    ForcedDefault,
}

/// Measurement stimulus taxonomy. The declaration order is the frozen id.
#[derive(Debug, Clone, Copy, PartialEq, Eq, Structural)]
pub enum StimulusKind {
    GamblePair,
    AnchorProbe,
    ForecastElicitation,
    SunkCostPair,
    CrisisCountdown,
    DispositionWindow,
}

pub open spec fn stimulus_kind_id(k: StimulusKind) -> u8 {
    match k {
        StimulusKind::GamblePair => 0,
        StimulusKind::AnchorProbe => 1,
        StimulusKind::ForecastElicitation => 2,
        StimulusKind::SunkCostPair => 3,
        StimulusKind::CrisisCountdown => 4,
        StimulusKind::DispositionWindow => 5,
    }
}

impl StimulusKind {
    /// The frozen wire id of the kind.
    pub fn id(self) -> (v: u8)
        ensures
            v == stimulus_kind_id(self),
    {
        match self {
            StimulusKind::GamblePair => 0,
            StimulusKind::AnchorProbe => 1,
            StimulusKind::ForecastElicitation => 2,
            StimulusKind::SunkCostPair => 3,
            StimulusKind::CrisisCountdown => 4,
            StimulusKind::DispositionWindow => 5,
        }
    }
}

#[derive(Debug, Clone, Copy, PartialEq, Eq)]
pub struct StimulusRef {
    pub kind: StimulusKind,
    pub stimulus_seq: u32,
    /// Truncated digest of the planted stimulus parameters.
    pub params_digest: [u8; 8],
}

/// Everything the engine knows about one decision, minus the sequence
/// number (which only the log may assign).
#[derive(Debug, Clone, Copy, PartialEq, Eq)]
pub struct DecisionRecord {
    pub tick: u32,
    pub phase: TurnPhase,
    pub action: ActionIntent,
    pub stimulus: Option<StimulusRef>,
    /// Monotonic-clock observation in milliseconds; never an input to state.
    pub latency_ms: Option<u32>,
    pub forced_default: bool,
    /// Digest of the authoritative state at decision time.
    pub state_digest: [u8; 8],
}

#[derive(Debug, Clone, Copy, PartialEq, Eq)]
pub struct DecisionEvent {
    pub seq: u64,
    pub tick: u32,
    pub phase: TurnPhase,
    pub action: ActionIntent,
    pub stimulus: Option<StimulusRef>,
    pub latency_ms: Option<u32>,
    pub forced_default: bool,
    pub state_digest: [u8; 8],
}

/// The event a record becomes once the log assigns it `seq`.
pub open spec fn event_of(r: DecisionRecord, seq: u64) -> DecisionEvent {
    DecisionEvent {
        seq,
        tick: r.tick,
        phase: r.phase,
        action: r.action,
        stimulus: r.stimulus,
        latency_ms: r.latency_ms,
        forced_default: r.forced_default,
        state_digest: r.state_digest,
    }
}

#[derive(Debug, Clone, Copy, PartialEq, Eq, Structural)]
pub enum TelemetryError {
    LogFull,
    SeqExhausted,
    Config(RingConfigError),
}

/// Append-only decision log with an explicit flush contract: when the ring
/// is full, `record` rejects (typed) until `drain_for_flush` moves the batch
/// out. Records are never silently evicted.
#[derive(Debug, Clone)]
pub struct EventLog {
    ring: FixedRing<DecisionEvent>,
    next_seq: u64,
}

impl EventLog {
    /// Pending records, oldest first.
    pub closed spec fn events(&self) -> Seq<DecisionEvent> {
        self.ring@
    }

    pub closed spec fn spec_next_seq(&self) -> u64 {
        self.next_seq
    }

    pub closed spec fn wf(&self) -> bool {
        &&& self.ring.wf()
        &&& self.ring.cap() == EVENT_LOG_CAPACITY
    }

    pub proof fn lemma_wf(&self)
        requires
            self.wf(),
        ensures
            self.events().len() <= EVENT_LOG_CAPACITY,
    {
    }

    pub fn new() -> (r: Result<Self, TelemetryError>)
        ensures
            r matches Ok(log) && log.wf() && log.spec_next_seq() == 0 && log.events() == Seq::<
                DecisionEvent,
            >::empty(),
    {
        match FixedRing::new(EVENT_LOG_CAPACITY) {
            Ok(ring) => Ok(EventLog { ring, next_seq: 0 }),
            Err(e) => Err(TelemetryError::Config(e)),
        }
    }

    /// All-or-nothing: on rejection neither the ring nor `next_seq` moves.
    pub fn record(&mut self, r: DecisionRecord) -> (res: Result<u64, TelemetryError>)
        requires
            old(self).wf(),
        ensures
            final(self).wf(),
            old(self).spec_next_seq() == u64::MAX ==> (res == Err::<u64, TelemetryError>(
                TelemetryError::SeqExhausted,
            ) && final(self).events() == old(self).events() && final(self).spec_next_seq()
                == old(self).spec_next_seq()),
            old(self).spec_next_seq() < u64::MAX && old(self).events().len() >= EVENT_LOG_CAPACITY
                ==> (res == Err::<u64, TelemetryError>(TelemetryError::LogFull) && final(self).events() == old(self).events() && final(self).spec_next_seq() == old(self).spec_next_seq()),
            old(self).spec_next_seq() < u64::MAX && old(self).events().len() < EVENT_LOG_CAPACITY
                ==> (res == Ok::<u64, TelemetryError>(old(self).spec_next_seq()) && final(self).spec_next_seq() == old(self).spec_next_seq() + 1 && final(self).events() == old(self).events().push(event_of(r, old(self).spec_next_seq()))),
    {
        let seq = self.next_seq;
        let next = match seq.checked_add(1) {
            Some(v) => v,
            None => return Err(TelemetryError::SeqExhausted),
        };
        let event = DecisionEvent {
            seq,
            tick: r.tick,
            phase: r.phase,
            action: r.action,
            stimulus: r.stimulus,
            latency_ms: r.latency_ms,
            forced_default: r.forced_default,
            state_digest: r.state_digest,
        };
        match self.ring.try_push(event) {
            Ok(()) => {},
            Err(_) => return Err(TelemetryError::LogFull),
        }
        self.next_seq = next;
        Ok(seq)
    }

    /// Explicit settle-time flush.
    pub fn drain_for_flush(&mut self) -> (out: Vec<DecisionEvent>)
        requires
            old(self).wf(),
        ensures
            final(self).wf(),
            out@ == old(self).events(),
            final(self).events() == Seq::<DecisionEvent>::empty(),
            final(self).spec_next_seq() == old(self).spec_next_seq(),
    {
        self.ring.drain_all()
    }

    /// Read the pending records without consuming them, oldest first.
    pub fn records(&self) -> (it: Iter<'_, DecisionEvent>)
        ensures
            vstd::std_specs::iter::IteratorSpec::remaining(&it) == self.events().map_values(
                |x: DecisionEvent| &x,
            ),
    {
        self.ring.iter()
    }

    /// A copy of the pending records, oldest first.
    pub fn to_vec(&self) -> (v: Vec<DecisionEvent>)
        ensures
            v@ == self.events(),
    {
        self.ring.to_vec()
    }

    pub fn len(&self) -> (n: usize)
        ensures
            n == self.events().len(),
    {
        self.ring.len()
    }

    pub fn is_empty(&self) -> (b: bool)
        ensures
            b == (self.events().len() == 0),
    {
        self.ring.is_empty()
    }

    pub fn is_full(&self) -> (b: bool)
        requires
            self.wf(),
        ensures
            b == (self.events().len() >= EVENT_LOG_CAPACITY),
    {
        self.ring.is_full()
    }

    pub fn next_seq(&self) -> (s: u64)
        ensures
            s == self.spec_next_seq(),
    {
        self.next_seq
    }
}

} // verus!
