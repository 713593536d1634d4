//! The estimation bridge's verified half: the owned replay inputs, the pool
//! gate, the per-decision replay check, and the pooled-provenance digest.
use vstd::prelude::*;
use crate::bias::BiasError;
use crate::digest::{le64, prefix8, push_bytes, push_le64, sha256, sha256_spec, truncate8};
use crate::director::DirectorError;
use crate::fsm::SessionState;
use crate::genesis::GenesisRequest;
use crate::stimulus::StimulusError;
use crate::telemetry::ActionIntent;

verus! {

/// Hard cap on campaigns pooled into one estimate; excess is refused, never
/// silently dropped.
pub const MAX_POOLED_CAMPAIGNS: usize = 32;

/// Domain tag of the pooled-profile digest.
pub const POOL_DIGEST_DOMAIN: &'static str = "blackbox_profile.pool.v1";

/// One decision, anchored by the short digest the live session recorded at
/// Decide time, before the intent executed.
#[derive(Debug, Clone, Copy, PartialEq, Eq)]
pub struct AnchoredDecision {
    pub tick: u32,
    pub intent: ActionIntent,
    pub expected_digest: [u8; 8],
}

/// Owned estimator input for one campaign.
#[derive(Debug, Clone, PartialEq, Eq)]
pub struct ReplayInput {
    pub request: GenesisRequest,
    pub decisions: Vec<AnchoredDecision>,
}

#[derive(Debug, Clone, PartialEq, Eq)]
pub enum BridgeError {
    /// An empty pool is not "all not measured": it is refused.
    EmptyPool,
    /// More than `MAX_POOLED_CAMPAIGNS` campaigns.
    PoolTooLarge { n: usize, max: usize },
    /// Replay reached a Decide-time digest other than the recorded one.
    ReplayDivergence { campaign_index: usize, at_index: usize },
    /// Replay finished but the session is not sealed.
    CampaignNotSealed { campaign_index: usize, state: SessionState },
    Replay(DirectorError),
    Stimulus(StimulusError),
    Bias(BiasError),
}

/// The pool gate every estimate passes first: at least one campaign, and
/// at most `MAX_POOLED_CAMPAIGNS`.
pub fn check_pool(inputs: &[ReplayInput]) -> (r: Result<(), BridgeError>)
    ensures
        inputs@.len() == 0 ==> r == Err::<(), BridgeError>(BridgeError::EmptyPool),
        inputs@.len() > MAX_POOLED_CAMPAIGNS ==> r == Err::<(), BridgeError>(
            BridgeError::PoolTooLarge { n: inputs@.len() as usize, max: MAX_POOLED_CAMPAIGNS },
        ),
        1 <= inputs@.len() <= MAX_POOLED_CAMPAIGNS ==> r is Ok,
{
    if inputs.len() == 0 {
        return Err(BridgeError::EmptyPool);
    }
    if inputs.len() > MAX_POOLED_CAMPAIGNS {
        return Err(BridgeError::PoolTooLarge { n: inputs.len(), max: MAX_POOLED_CAMPAIGNS });
    }
    Ok(())
}

/// The replay check of one logged decision, made at the moment the live
/// session stamped its record: the replayed tick must be the logged one,
/// and the replayed Decide-time digest the recorded one.
pub fn check_anchor(
    replayed_tick: u32,
    replayed_digest: [u8; 8],
    entry: &AnchoredDecision,
    campaign_index: usize,
    at_index: usize,
) -> (r: Result<(), BridgeError>)
    ensures
        replayed_tick != entry.tick ==> r == Err::<(), BridgeError>(
            BridgeError::Replay(DirectorError::MalformedLog { at_index }),
        ),
        replayed_tick == entry.tick && replayed_digest@ != entry.expected_digest@ ==> r == Err::<
            (),
            BridgeError,
        >(BridgeError::ReplayDivergence { campaign_index, at_index }),
        replayed_tick == entry.tick && replayed_digest@ == entry.expected_digest@ ==> r is Ok,
{
    if replayed_tick != entry.tick {
        return Err(BridgeError::Replay(DirectorError::MalformedLog { at_index }));
    }
    let mut i: usize = 0;
    while i < 8
        invariant
            i <= 8,
            replayed_tick == entry.tick,
            forall|j: int| 0 <= j < i ==> replayed_digest@[j] == entry.expected_digest@[j],
        decreases 8 - i,
    {
        if replayed_digest[i] != entry.expected_digest[i] {
            return Err(BridgeError::ReplayDivergence { campaign_index, at_index });
        }
        i = i + 1;
    }
    assert(replayed_digest@ =~= entry.expected_digest@);
    Ok(())
}

/// A replayed campaign enters the pool only once sealed.
pub fn require_sealed(state: SessionState, campaign_index: usize) -> (r: Result<(), BridgeError>)
    ensures
        state == SessionState::Sealed ==> r is Ok,
        state != SessionState::Sealed ==> r == Err::<(), BridgeError>(
            BridgeError::CampaignNotSealed { campaign_index, state },
        ),
{
    match state {
        SessionState::Sealed => Ok(()),
        _ => Err(BridgeError::CampaignNotSealed { campaign_index, state }),
    }
}

/// The fingerprints laid end to end.
pub open spec fn concat_fingerprints(fps: Seq<[u8; 32]>) -> Seq<u8>
    decreases fps.len(),
{
    if fps.len() == 0 {
        Seq::empty()
    } else {
        concat_fingerprints(fps.drop_last()) + fps.last()@
    }
}

/// What is hashed for the pool digest: the domain tag, the number of
/// campaigns as eight little-endian bytes, then every fingerprint in input
/// order.
pub open spec fn pool_preimage(fps: Seq<[u8; 32]>) -> Seq<u8> {
    crate::genesis_json::utf8(POOL_DIGEST_DOMAIN) + le64(fps.len() as u64) + concat_fingerprints(fps)
}

/// Content hash of the pooled campaign fingerprints: the first eight bytes
/// of SHA-256 over the pool preimage.
pub fn pool_digest(fingerprints: &[[u8; 32]]) -> (d: [u8; 8])
    ensures
        d@ == prefix8(sha256_spec(pool_preimage(fingerprints@))),
{
    let mut buf: Vec<u8> = Vec::new();
    push_bytes(&mut buf, POOL_DIGEST_DOMAIN.as_bytes());
    push_le64(&mut buf, fingerprints.len() as u64);
    let ghost head = buf@;
    let mut i: usize = 0;
    while i < fingerprints.len()
        invariant
            i <= fingerprints@.len(),
            buf@ == head + concat_fingerprints(fingerprints@.subrange(0, i as int)),
        decreases fingerprints@.len() - i,
    {
        let fp = fingerprints[i];
        push_bytes(&mut buf, &fp);
        proof {
            let pre = fingerprints@.subrange(0, i as int + 1);
            assert(pre.drop_last() =~= fingerprints@.subrange(0, i as int));
            assert(pre.last() == fp);
        }
        i = i + 1;
        assert(buf@ =~= head + concat_fingerprints(fingerprints@.subrange(0, i as int)));
    }
    assert(fingerprints@.subrange(0, fingerprints@.len() as int) =~= fingerprints@);
    let full = sha256(buf.as_slice());
    truncate8(&full)
}

} // verus!
