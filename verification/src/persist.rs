//! Persistence interface: how records leave the simulator without letting
//! anything back in.
//!
//! The simulator depends on a write-only promise, not on a database:
//! `DecisionSink` has no read method, so an implementor may write records
//! outward and has no channel to hand anything back except a count of what it
//! stored. A failed flush costs nothing but a retry.
use vstd::prelude::*;
use crate::stimulus::PlantedStimulus;
use crate::telemetry::DecisionEvent;

verus! {

/// Wire schema of a persisted batch. Bump this, never reinterpret it.
pub const BLACKBOX_LOG_SCHEMA_V1: &'static str = "blackbox_log.v1";

/// One flush: the records produced since the previous successful flush,
/// borrowed so that the sink cannot take ownership of records the log has not
/// yet been told it may forget.
#[derive(Debug, Clone, Copy)]
pub struct DecisionBatch<'a> {
    pub schema: &'static str,
    /// The campaign's genesis fingerprint (never the seed).
    pub campaign_fingerprint: [u8; 32],
    pub events: &'a [DecisionEvent],
    /// Answer-key rows not yet persisted: always a suffix of the ledger.
    pub stimuli: &'a [PlantedStimulus],
}

impl<'a> DecisionBatch<'a> {
    pub fn is_empty(&self) -> (b: bool)
        ensures
            b == (self.events@.len() == 0 && self.stimuli@.len() == 0),
    {
        self.events.len() == 0 && self.stimuli.len() == 0
    }
}

/// What the back-end reports back: counts only.
#[derive(Debug, Clone, Copy, PartialEq, Eq, Structural)]
pub struct FlushReceipt {
    pub events_persisted: u32,
    pub stimuli_persisted: u32,
}

impl Default for FlushReceipt {
    fn default() -> (r: Self)
        ensures
            r == (FlushReceipt { events_persisted: 0, stimuli_persisted: 0 }),
    {
        FlushReceipt { events_persisted: 0, stimuli_persisted: 0 }
    }
}

#[derive(Debug, Clone, Copy, PartialEq, Eq, Structural)]
pub enum SinkError {
    /// The store is not accepting writes right now. Retryable.
    Unavailable,
    /// The store rejected the batch itself. Not retryable as-is.
    Rejected,
    /// The store accepted fewer records than it was given; treated as a
    /// failure so the ring never clears records that were not stored.
    Partial,
}

/// Write-only outbound interface.
pub trait DecisionSink {
    fn persist(&mut self, batch: &DecisionBatch<'_>) -> Result<FlushReceipt, SinkError>;
}

/// `n` as a u32, saturating.
pub open spec fn count_u32(n: nat) -> u32 {
    if n > u32::MAX {
        u32::MAX
    } else {
        n as u32
    }
}

/// A sink that stores nothing and always succeeds: the simulator is fully
/// playable with no back-end at all.
#[derive(Debug, Default, Clone, Copy)]
pub struct NullSink;

impl DecisionSink for NullSink {
    /// Every record counted, nothing stored.
    fn persist(&mut self, batch: &DecisionBatch<'_>) -> (r: Result<FlushReceipt, SinkError>)
        ensures
            r == Ok::<FlushReceipt, SinkError>(
                FlushReceipt {
                    events_persisted: count_u32(batch.events@.len()),
                    stimuli_persisted: count_u32(batch.stimuli@.len()),
                },
            ),
    {
        let e = batch.events.len();
        let s = batch.stimuli.len();
        Ok(
            FlushReceipt {
                events_persisted: if e > u32::MAX as usize {
                    u32::MAX
                } else {
                    e as u32
                },
                stimuli_persisted: if s > u32::MAX as usize {
                    u32::MAX
                } else {
                    s as u32
                },
            },
        )
    }
}

} // verus!
