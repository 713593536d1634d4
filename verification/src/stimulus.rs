//! Stimulus planting: which probe fires on which turn, the sealed parameter
//! table, the published view, and attribution of decisions to probes.
//!
//! The cadence is a fixed function of the turn number alone, identical for
//! every player and campaign; only a probe's parameters are drawn, from a
//! stream addressed by the turn.
use vstd::prelude::*;
use crate::digest::{be32, be64, prefix8, push_be32, push_be64, sha256, sha256_spec, truncate8};
use crate::firm::{
    FirmState, Offer, OfferKind, OfferStatus, Position, pnl_spec, position_pnl_minor,
    open_positions_spec,
};
use crate::rng::{domain_key, PhiloxStream, SeedDomain, StreamView, view_next_u32};
use crate::unit_scale::{
    next_bits_spec, next_unit_bits, scaled_below, scaled_below_spec, scaled_floor, scaled_floor_spec,
    UNIT_ONE,
};
use crate::settle::TICKS_PER_QUARTER;
use crate::telemetry::{ActionIntent, StimulusKind, StimulusRef, stimulus_kind_id};

verus! {

/// Capacity of the planted-parameter table. Reject-full, never evicting.
pub const MAX_PLANTED_STIMULI: usize = 128;

pub const GAMBLE_PERIOD: u32 = 4;
pub const GAMBLE_PHASE: u32 = 1;
pub const FORECAST_PERIOD: u32 = 4;
pub const FORECAST_PHASE: u32 = 2;
pub const SUNK_PERIOD: u32 = 6;
pub const SUNK_PHASE: u32 = 3;
pub const DISPOSITION_PERIOD: u32 = 5;
pub const DISPOSITION_PHASE: u32 = 0;
/// Turns on which a margin-call window opens.
pub const CRISIS_TURN_FIRST: u32 = 20;
pub const CRISIS_TURN_SECOND: u32 = 44;
/// How many turns a crisis window stays open once it opens.
pub const CRISIS_WINDOW: u32 = 3;

pub open spec fn hits_spec(turn: u32, period: u32, phase: u32) -> bool {
    turn != 0 && turn % period == phase
}

fn hits(turn: u32, period: u32, phase: u32) -> (b: bool)
    requires
        period > 0,
    ensures
        b == hits_spec(turn, period, phase),
{
    turn != 0 && turn % period == phase
}

pub open spec fn control_spec(turn: u32) -> bool {
    turn != 0 && turn % TICKS_PER_QUARTER == 0
}

pub open spec fn anchored_spec(turn: u32) -> bool {
    hits_spec(turn, FORECAST_PERIOD, FORECAST_PHASE) && !control_spec(turn)
}

pub open spec fn gamble_spec(turn: u32) -> bool {
    hits_spec(turn, GAMBLE_PERIOD, GAMBLE_PHASE)
}

pub open spec fn sunk_spec(turn: u32) -> bool {
    hits_spec(turn, SUNK_PERIOD, SUNK_PHASE)
}

pub open spec fn disposition_spec(turn: u32) -> bool {
    hits_spec(turn, DISPOSITION_PERIOD, DISPOSITION_PHASE)
}

/// Quarter ends carry the unanchored control forecast.
pub fn is_control_forecast_turn(turn: u32) -> (b: bool)
    ensures
        b == control_spec(turn),
{
    turn != 0 && turn % TICKS_PER_QUARTER == 0
}

/// Anchored forecast turns yield to the quarter-end control when they
/// collide.
pub fn is_anchored_forecast_turn(turn: u32) -> (b: bool)
    ensures
        b == anchored_spec(turn),
{
    hits(turn, FORECAST_PERIOD, FORECAST_PHASE) && !is_control_forecast_turn(turn)
}

pub fn is_gamble_turn(turn: u32) -> (b: bool)
    ensures
        b == gamble_spec(turn),
{
    hits(turn, GAMBLE_PERIOD, GAMBLE_PHASE)
}

pub fn is_sunk_cost_turn(turn: u32) -> (b: bool)
    ensures
        b == sunk_spec(turn),
{
    hits(turn, SUNK_PERIOD, SUNK_PHASE)
}

pub fn is_disposition_turn(turn: u32) -> (b: bool)
    ensures
        b == disposition_spec(turn),
{
    hits(turn, DISPOSITION_PERIOD, DISPOSITION_PHASE)
}

pub open spec fn crisis_spec(turn: u32) -> Option<u32> {
    if CRISIS_TURN_FIRST <= turn < CRISIS_TURN_FIRST + CRISIS_WINDOW {
        Some((CRISIS_TURN_FIRST + CRISIS_WINDOW - turn) as u32)
    } else if CRISIS_TURN_SECOND <= turn < CRISIS_TURN_SECOND + CRISIS_WINDOW {
        Some((CRISIS_TURN_SECOND + CRISIS_WINDOW - turn) as u32)
    } else {
        None
    }
}

/// Turns left in the open crisis window, or `None` outside one.
pub fn crisis_ticks_remaining(turn: u32) -> (r: Option<u32>)
    ensures
        r == crisis_spec(turn),
{
    let starts: [u32; 2] = [CRISIS_TURN_FIRST, CRISIS_TURN_SECOND];
    let mut i: usize = 0;
    while i < 2
        invariant
            i <= 2,
            starts@ == seq![CRISIS_TURN_FIRST, CRISIS_TURN_SECOND],
            i >= 1 ==> !(CRISIS_TURN_FIRST <= turn < CRISIS_TURN_FIRST + CRISIS_WINDOW),
            i >= 2 ==> !(CRISIS_TURN_SECOND <= turn < CRISIS_TURN_SECOND + CRISIS_WINDOW),
        decreases 2 - i,
    {
        let start = starts[i];
        if turn >= start && turn < start + CRISIS_WINDOW {
            return Some(start + CRISIS_WINDOW - turn);
        }
        i = i + 1;
    }
    None
}

/// How many anchored forecast turns come strictly before `turn` (from 1).
pub open spec fn anchored_before(turn: nat) -> nat
    decreases turn,
{
    if turn <= 1 {
        0
    } else {
        anchored_before((turn - 1) as nat) + (if anchored_spec((turn - 1) as u32) {
            1nat
        } else {
            0nat
        })
    }
}

/// How many sunk-cost turns come strictly before `turn` (from 1).
pub open spec fn sunk_before(turn: nat) -> nat
    decreases turn,
{
    if turn <= 1 {
        0
    } else {
        sunk_before((turn - 1) as nat) + (if sunk_spec((turn - 1) as u32) {
            1nat
        } else {
            0nat
        })
    }
}

proof fn lemma_before_bounded(turn: nat)
    ensures
        anchored_before(turn) <= turn,
        sunk_before(turn) <= turn,
    decreases turn,
{
    if turn > 1 {
        lemma_before_bounded((turn - 1) as nat);
    }
}

/// Anchored occurrences before `turn`, or `None` when `turn` is not one.
fn anchored_occurrence(turn: u32) -> (r: Option<u32>)
    ensures
        !anchored_spec(turn) ==> r is None,
        anchored_spec(turn) ==> r == Some(anchored_before(turn as nat) as u32),
{
    if !is_anchored_forecast_turn(turn) {
        return None;
    }
    let mut count: u32 = 0;
    let mut t: u32 = 1;
    while t < turn
        invariant
            1 <= t <= turn,
            count == anchored_before(t as nat),
            count <= t,
        decreases turn - t,
    {
        if is_anchored_forecast_turn(t) {
            count = count + 1;
        }
        t = t + 1;
    }
    Some(count)
}

/// Sunk-cost occurrences before `turn`, or `None` when `turn` is not one.
fn sunk_occurrence(turn: u32) -> (r: Option<u32>)
    ensures
        !sunk_spec(turn) ==> r is None,
        sunk_spec(turn) ==> r == Some(sunk_before(turn as nat) as u32),
{
    if !is_sunk_cost_turn(turn) {
        return None;
    }
    let mut count: u32 = 0;
    let mut t: u32 = 1;
    while t < turn
        invariant
            1 <= t <= turn,
            count == sunk_before(t as nat),
            count <= t,
        decreases turn - t,
    {
        if is_sunk_cost_turn(t) {
            count = count + 1;
        }
        t = t + 1;
    }
    Some(count)
}

#[derive(Debug, Clone, Copy, PartialEq, Eq, Structural)]
pub enum AnchorArm {
    High,
    Low,
}

impl AnchorArm {
    /// The frozen wire id of the arm.
    pub fn wire(self) -> (v: u8)
        ensures
            v == (if self == AnchorArm::High {
                0u8
            } else {
                1u8
            }),
    {
        match self {
            AnchorArm::High => 0,
            AnchorArm::Low => 1,
        }
    }
}

#[derive(Debug, Clone, Copy, PartialEq, Eq, Structural)]
pub enum SunkArm {
    /// The project already carries committed capital.
    WithSunk,
    /// Same forward economics, no history. The counterfactual.
    WithoutSunk,
}

impl SunkArm {
    /// The frozen wire id of the arm.
    pub fn wire(self) -> (v: u8)
        ensures
            v == (if self == SunkArm::WithSunk {
                0u8
            } else {
                1u8
            }),
    {
        match self {
            SunkArm::WithSunk => 0,
            SunkArm::WithoutSunk => 1,
        }
    }
}

pub open spec fn anchor_arm_spec(turn: u32) -> Option<AnchorArm> {
    if !anchored_spec(turn) {
        None
    } else if anchored_before(turn as nat) % 2 == 0 {
        Some(AnchorArm::High)
    } else {
        Some(AnchorArm::Low)
    }
}

pub open spec fn sunk_arm_spec(turn: u32) -> Option<SunkArm> {
    if !sunk_spec(turn) {
        None
    } else if sunk_before(turn as nat) % 2 == 0 {
        Some(SunkArm::WithSunk)
    } else {
        Some(SunkArm::WithoutSunk)
    }
}

/// Strict alternation over the anchored turns, starting with `High`.
pub fn anchor_arm(turn: u32) -> (r: Option<AnchorArm>)
    ensures
        r == anchor_arm_spec(turn),
{
    proof {
        lemma_before_bounded(turn as nat);
    }
    match anchored_occurrence(turn) {
        None => None,
        Some(i) => if i % 2 == 0 {
            Some(AnchorArm::High)
        } else {
            Some(AnchorArm::Low)
        },
    }
}

/// Strict alternation over the sunk-cost turns, starting with `WithSunk`.
pub fn sunk_arm(turn: u32) -> (r: Option<SunkArm>)
    ensures
        r == sunk_arm_spec(turn),
{
    proof {
        lemma_before_bounded(turn as nat);
    }
    match sunk_occurrence(turn) {
        None => None,
        Some(i) => if i % 2 == 0 {
            Some(SunkArm::WithSunk)
        } else {
            Some(SunkArm::WithoutSunk)
        },
    }
}

proof fn lemma_anchored_gap(a: u32, b: u32)
    requires
        a < b,
        forall|t: u32| a < t < b ==> !#[trigger] anchored_spec(t),
    ensures
        anchored_before(b as nat) == anchored_before(a as nat) + (if anchored_spec(a) && a >= 1 {
            1nat
        } else {
            0nat
        }),
    decreases b - a,
{
    if b - 1 > a {
        lemma_anchored_gap(a, (b - 1) as u32);
        assert(!anchored_spec((b - 1) as u32));
    }
}

proof fn lemma_sunk_gap(a: u32, b: u32)
    requires
        a < b,
        forall|t: u32| a < t < b ==> !#[trigger] sunk_spec(t),
    ensures
        sunk_before(b as nat) == sunk_before(a as nat) + (if sunk_spec(a) && a >= 1 {
            1nat
        } else {
            0nat
        }),
    decreases b - a,
{
    if b - 1 > a {
        lemma_sunk_gap(a, (b - 1) as u32);
        assert(!sunk_spec((b - 1) as u32));
    }
}

/// Anchor arms strictly alternate: two consecutive anchored forecast turns,
/// with no anchored turn between them, always carry different arms, even
/// across a turn the quarter-end control displaced.
pub proof fn law_anchor_arms_alternate(a: u32, b: u32)
    requires
        a < b,
        anchored_spec(a),
        anchored_spec(b),
        forall|t: u32| a < t < b ==> !#[trigger] anchored_spec(t),
    ensures
        anchor_arm_spec(a) is Some,
        anchor_arm_spec(b) is Some,
        anchor_arm_spec(a) != anchor_arm_spec(b),
{
    lemma_anchored_gap(a, b);
}

/// Sunk-cost arms strictly alternate over consecutive sunk-cost turns.
pub proof fn law_sunk_arms_alternate(a: u32, b: u32)
    requires
        a < b,
        sunk_spec(a),
        sunk_spec(b),
        forall|t: u32| a < t < b ==> !#[trigger] sunk_spec(t),
    ensures
        sunk_arm_spec(a) is Some,
        sunk_arm_spec(b) is Some,
        sunk_arm_spec(a) != sunk_arm_spec(b),
{
    lemma_sunk_gap(a, b);
}

/// The full description of a planted probe, truth included.
#[derive(Debug, Clone, Copy, PartialEq, Eq, Structural)]
pub enum StimulusParams {
    /// A mixed gamble dressed as an offer. Accepting buys the certain side.
    GamblePair {
        offer_id: u32,
        gain_minor: i64,
        loss_minor: i64,
        win_probability_micro: i64,
        premium_minor: i64,
        /// Sealed: drawn at plant time so the outcome is a fixed lottery.
        good_state: bool,
    },
    AnchorProbe {
        /// Published: the "analyst consensus" the player is shown.
        anchor_minor: i64,
        arm: AnchorArm,
        /// Sealed: the reference the anchor was built from.
        reference_minor: i64,
        /// Sealed: perturbation applied to the reference, in micro units.
        delta_micro: i64,
    },
    /// The unanchored control forecast at quarter end.
    ForecastElicitation { reference_minor: i64 },
    SunkCostPair {
        project_id: u32,
        /// Capital already committed; zero on the `WithoutSunk` arm.
        sunk_minor: i64,
        arm: SunkArm,
    },
    CrisisCountdown { ticks_remaining: u32, required_cash_minor: i64 },
    DispositionWindow {
        position_id: u32,
        /// Mark-to-market gain (positive) or loss (negative); never posted.
        unrealised_minor: i64,
    },
}

pub open spec fn params_kind(p: StimulusParams) -> StimulusKind {
    match p {
        StimulusParams::GamblePair { .. } => StimulusKind::GamblePair,
        StimulusParams::AnchorProbe { .. } => StimulusKind::AnchorProbe,
        StimulusParams::ForecastElicitation { .. } => StimulusKind::ForecastElicitation,
        StimulusParams::SunkCostPair { .. } => StimulusKind::SunkCostPair,
        StimulusParams::CrisisCountdown { .. } => StimulusKind::CrisisCountdown,
        StimulusParams::DispositionWindow { .. } => StimulusKind::DispositionWindow,
    }
}

pub open spec fn anchor_wire(a: AnchorArm) -> u8 {
    if a == AnchorArm::High {
        0
    } else {
        1
    }
}

pub open spec fn sunk_wire(a: SunkArm) -> u8 {
    if a == SunkArm::WithSunk {
        0
    } else {
        1
    }
}

/// Big-endian two's-complement bytes of a signed 64-bit value.
pub open spec fn be_i64(v: i64) -> Seq<u8> {
    be64(v as u64)
}

/// Fixed-order byte encoding of a probe: its kind id, then its fields in
/// declaration order, big-endian.
pub open spec fn canonical_spec(p: StimulusParams) -> Seq<u8> {
    seq![stimulus_kind_id(params_kind(p))] + match p {
        StimulusParams::GamblePair {
            offer_id,
            gain_minor,
            loss_minor,
            win_probability_micro,
            premium_minor,
            good_state,
        } => be32(offer_id) + be_i64(gain_minor) + be_i64(loss_minor) + be_i64(
            win_probability_micro,
        ) + be_i64(premium_minor) + seq![
            if good_state {
                1u8
            } else {
                0u8
            },
        ],
        StimulusParams::AnchorProbe { anchor_minor, arm, reference_minor, delta_micro } => be_i64(
            anchor_minor,
        ) + seq![anchor_wire(arm)] + be_i64(reference_minor) + be_i64(delta_micro),
        StimulusParams::ForecastElicitation { reference_minor } => be_i64(reference_minor),
        StimulusParams::SunkCostPair { project_id, sunk_minor, arm } => be32(project_id) + be_i64(
            sunk_minor,
        ) + seq![sunk_wire(arm)],
        StimulusParams::CrisisCountdown { ticks_remaining, required_cash_minor } => be32(
            ticks_remaining,
        ) + be_i64(required_cash_minor),
        StimulusParams::DispositionWindow { position_id, unrealised_minor } => be32(position_id)
            + be_i64(unrealised_minor),
    }
}

/// The domain tag of a probe digest, "BXSSTIM1".
pub open spec fn digest_tag() -> Seq<u8> {
    seq![0x42u8, 0x58u8, 0x53u8, 0x53u8, 0x54u8, 0x49u8, 0x4du8, 0x31u8]
}

/// What a probe digest hashes: tag, tick, seq, canonical parameters.
pub open spec fn digest_preimage(p: StimulusParams, tick: u32, seq: u32) -> Seq<u8> {
    digest_tag() + be32(tick) + be32(seq) + canonical_spec(p)
}

/// The 8-byte digest that binds a log entry to its parameter row.
pub open spec fn params_digest_spec(p: StimulusParams, tick: u32, seq: u32) -> Seq<u8> {
    prefix8(sha256_spec(digest_preimage(p, tick, seq)))
}

fn push_i64(out: &mut Vec<u8>, v: i64)
    ensures
        final(out)@ == old(out)@ + be_i64(v),
{
    push_be64(out, v as u64);
}

impl StimulusParams {
    pub fn kind(self) -> (k: StimulusKind)
        ensures
            k == params_kind(self),
    {
        match self {
            StimulusParams::GamblePair { .. } => StimulusKind::GamblePair,
            StimulusParams::AnchorProbe { .. } => StimulusKind::AnchorProbe,
            StimulusParams::ForecastElicitation { .. } => StimulusKind::ForecastElicitation,
            StimulusParams::SunkCostPair { .. } => StimulusKind::SunkCostPair,
            StimulusParams::CrisisCountdown { .. } => StimulusKind::CrisisCountdown,
            StimulusParams::DispositionWindow { .. } => StimulusKind::DispositionWindow,
        }
    }

    /// Append the fixed-order byte encoding. Hand-rolled so the digest
    /// cannot shift under a rename.
    pub fn canonical(self, out: &mut Vec<u8>)
        ensures
            final(out)@ == old(out)@ + canonical_spec(self),
    {
        out.push(self.kind().id());
        match self {
            StimulusParams::GamblePair {
                offer_id,
                gain_minor,
                loss_minor,
                win_probability_micro,
                premium_minor,
                good_state,
            } => {
                push_be32(out, offer_id);
                push_i64(out, gain_minor);
                push_i64(out, loss_minor);
                push_i64(out, win_probability_micro);
                push_i64(out, premium_minor);
                out.push(if good_state {
                    1u8
                } else {
                    0u8
                });
            },
            StimulusParams::AnchorProbe { anchor_minor, arm, reference_minor, delta_micro } => {
                push_i64(out, anchor_minor);
                out.push(arm.wire());
                push_i64(out, reference_minor);
                push_i64(out, delta_micro);
            },
            StimulusParams::ForecastElicitation { reference_minor } => {
                push_i64(out, reference_minor);
            },
            StimulusParams::SunkCostPair { project_id, sunk_minor, arm } => {
                push_be32(out, project_id);
                push_i64(out, sunk_minor);
                out.push(arm.wire());
            },
            StimulusParams::CrisisCountdown { ticks_remaining, required_cash_minor } => {
                push_be32(out, ticks_remaining);
                push_i64(out, required_cash_minor);
            },
            StimulusParams::DispositionWindow { position_id, unrealised_minor } => {
                push_be32(out, position_id);
                push_i64(out, unrealised_minor);
            },
        }
        assert(final(out)@ =~= old(out)@ + canonical_spec(self));
    }

    /// The preimage of the probe's digest.
    pub fn digest_input(self, tick: u32, seq: u32) -> (buf: Vec<u8>)
        ensures
            buf@ == digest_preimage(self, tick, seq),
    {
        let mut buf: Vec<u8> = Vec::new();
        let tag: [u8; 8] = [0x42, 0x58, 0x53, 0x53, 0x54, 0x49, 0x4d, 0x31];
        let mut i: usize = 0;
        while i < 8
            invariant
                i <= 8,
                tag@ == digest_tag(),
                buf@ == digest_tag().subrange(0, i as int),
            decreases 8 - i,
        {
            buf.push(tag[i]);
            assert(buf@ =~= digest_tag().subrange(0, i as int + 1));
            i = i + 1;
        }
        assert(digest_tag().subrange(0, 8) =~= digest_tag());
        push_be32(&mut buf, tick);
        push_be32(&mut buf, seq);
        self.canonical(&mut buf);
        assert(buf@ =~= digest_preimage(self, tick, seq));
        buf
    }

    /// The 8-byte digest binding a log entry to this parameter row: the
    /// first eight bytes of SHA-256 over tag, tick, seq and the canonical
    /// parameters.
    pub fn digest(self, tick: u32, seq: u32) -> (d: [u8; 8])
        ensures
            d@ == params_digest_spec(self, tick, seq),
    {
        let buf = self.digest_input(tick, seq);
        let full = sha256(buf.as_slice());
        truncate8(&full)
    }
}

/// One row of the answer key.
#[derive(Debug, Clone, Copy, PartialEq, Eq)]
pub struct PlantedStimulus {
    pub seq: u32,
    pub tick: u32,
    pub params: StimulusParams,
    pub params_digest: [u8; 8],
}

pub open spec fn reference_spec(p: PlantedStimulus) -> StimulusRef {
    StimulusRef {
        kind: params_kind(p.params),
        stimulus_seq: p.seq,
        params_digest: p.params_digest,
    }
}

pub open spec fn binding_spec(p: PlantedStimulus) -> bool {
    params_digest_spec(p.params, p.tick, p.seq) == p.params_digest@
}

/// Byte-wise equality of two 8-byte digests.
pub fn bytes8_eq(a: &[u8; 8], b: &[u8; 8]) -> (r: bool)
    ensures
        r == (a@ == b@),
{
    let mut i: usize = 0;
    while i < 8
        invariant
            i <= 8,
            forall|j: int| 0 <= j < i ==> a@[j] == b@[j],
        decreases 8 - i,
    {
        if a[i] != b[i] {
            return false;
        }
        i = i + 1;
    }
    assert(a@ =~= b@);
    true
}

impl PlantedStimulus {
    pub fn reference(&self) -> (r: StimulusRef)
        ensures
            r == reference_spec(*self),
    {
        StimulusRef {
            kind: self.params.kind(),
            stimulus_seq: self.seq,
            params_digest: self.params_digest,
        }
    }

    /// Recompute the binding: parameters that do not hash to the digest the
    /// log points at are not this campaign's parameters.
    pub fn binding_holds(&self) -> (b: bool)
        ensures
            b == binding_spec(*self),
    {
        let d = self.params.digest(self.tick, self.seq);
        bytes8_eq(&d, &self.params_digest)
    }
}

#[derive(Debug, Clone, Copy, PartialEq, Eq, Structural)]
pub enum StimulusError {
    /// The answer-key table is full. Reject, never evict.
    LedgerFull,
    Overflow,
    /// A stored row does not hash to its own digest.
    BindingBroken { seq: u32 },
}

/// Append-only table of planted parameters.
#[derive(Debug, Clone, PartialEq, Eq)]
pub struct StimulusLedger {
    rows: Vec<PlantedStimulus>,
}

impl View for StimulusLedger {
    type V = Seq<PlantedStimulus>;

    closed spec fn view(&self) -> Seq<PlantedStimulus> {
        self.rows@
    }
}

impl StimulusLedger {
    pub fn new() -> (l: Self)
        ensures
            l@ == Seq::<PlantedStimulus>::empty(),
    {
        StimulusLedger { rows: Vec::new() }
    }

    /// Rebuild a table from stored rows, unchecked: `verify` is the check.
    pub fn from_rows(rows: Vec<PlantedStimulus>) -> (l: Self)
        ensures
            l@ == rows@,
    {
        StimulusLedger { rows }
    }

    pub fn len(&self) -> (n: usize)
        ensures
            n == self@.len(),
    {
        self.rows.len()
    }

    pub fn is_empty(&self) -> (b: bool)
        ensures
            b == (self@.len() == 0),
    {
        self.rows.len() == 0
    }

    pub fn rows(&self) -> (r: &[PlantedStimulus])
        ensures
            r@ == self@,
    {
        self.rows.as_slice()
    }

    /// The first row planted under `seq`, if any.
    pub fn get(&self, seq: u32) -> (r: Option<&PlantedStimulus>)
        ensures
            r is None <==> forall|j: int| 0 <= j < self@.len() ==> (#[trigger] self@[j]).seq != seq,
            r matches Some(row) ==> (exists|i: int|
                0 <= i < self@.len() && self@[i] == *row && row.seq == seq && forall|j: int|
                    0 <= j < i ==> (#[trigger] self@[j]).seq != seq),
    {
        let mut i: usize = 0;
        while i < self.rows.len()
            invariant
                i <= self.rows@.len(),
                forall|j: int| 0 <= j < i ==> (#[trigger] self.rows@[j]).seq != seq,
            decreases self.rows@.len() - i,
        {
            if self.rows[i].seq == seq {
                assert(self@[i as int] == self.rows@[i as int]);
                return Some(&self.rows[i]);
            }
            i = i + 1;
        }
        None
    }

    /// Append a row under the next sequence number and hand it back. There
    /// is no `remove` and no `set`.
    pub fn plant(&mut self, tick: u32, params: StimulusParams) -> (r: Result<
        PlantedStimulus,
        StimulusError,
    >)
        ensures
            old(self)@.len() >= MAX_PLANTED_STIMULI ==> r == Err::<
                PlantedStimulus,
                StimulusError,
            >(StimulusError::LedgerFull) && final(self)@ == old(self)@,
            old(self)@.len() < MAX_PLANTED_STIMULI ==> (r matches Ok(row) && row.seq
                == old(self)@.len() && row.tick == tick && row.params == params
                && row.params_digest@ == params_digest_spec(params, tick, row.seq)
                && final(self)@ == old(self)@.push(row)),
    {
        if self.rows.len() >= MAX_PLANTED_STIMULI {
            return Err(StimulusError::LedgerFull);
        }
        let seq = self.rows.len() as u32;
        let row = PlantedStimulus { seq, tick, params, params_digest: params.digest(tick, seq) };
        self.rows.push(row);
        Ok(row)
    }

    /// Verify every binding; the first broken row is reported.
    pub fn verify(&self) -> (r: Result<(), StimulusError>)
        ensures
            r is Ok <==> forall|j: int| 0 <= j < self@.len() ==> binding_spec(#[trigger] self@[j]),
            r matches Err(e) ==> (exists|i: int|
                0 <= i < self@.len() && !binding_spec(self@[i]) && e == (
                StimulusError::BindingBroken { seq: self@[i].seq }) && forall|j: int|
                    0 <= j < i ==> binding_spec(#[trigger] self@[j])),
    {
        let mut i: usize = 0;
        while i < self.rows.len()
            invariant
                i <= self.rows@.len(),
                forall|j: int| 0 <= j < i ==> binding_spec(#[trigger] self.rows@[j]),
            decreases self.rows@.len() - i,
        {
            let ok = self.rows[i].binding_holds();
            if !ok {
                assert(!binding_spec(self@[i as int]));
                return Err(StimulusError::BindingBroken { seq: self.rows[i].seq });
            }
            i = i + 1;
        }
        Ok(())
    }
}

/// A freshly planted row always passes its own binding check.
pub proof fn law_planted_rows_bind(params: StimulusParams, tick: u32, seq: u32, d: [u8; 8])
    requires
        d@ == params_digest_spec(params, tick, seq),
    ensures
        binding_spec(PlantedStimulus { seq, tick, params, params_digest: d }),
{
}

/// What the UI is allowed to know about an active probe: nothing of the
/// reference an anchor was built from, its perturbation, or a gamble's
/// predetermined outcome.
#[derive(Debug, Clone, Copy, PartialEq, Eq, Structural)]
pub struct StimulusView {
    pub kind: StimulusKind,
    pub stimulus_seq: u32,
    pub offer_id: Option<u32>,
    pub project_id: Option<u32>,
    pub position_id: Option<u32>,
    /// The analyst consensus, when one is being shown.
    pub anchor_minor: Option<i64>,
    pub gain_minor: Option<i64>,
    pub loss_minor: Option<i64>,
    pub win_probability_micro: Option<i64>,
    pub premium_minor: Option<i64>,
    pub ticks_remaining: Option<u32>,
    pub unrealised_minor: Option<i64>,
}

pub open spec fn blank_view(p: PlantedStimulus) -> StimulusView {
    StimulusView {
        kind: params_kind(p.params),
        stimulus_seq: p.seq,
        offer_id: None,
        project_id: None,
        position_id: None,
        anchor_minor: None,
        gain_minor: None,
        loss_minor: None,
        win_probability_micro: None,
        premium_minor: None,
        ticks_remaining: None,
        unrealised_minor: None,
    }
}

/// The published side of a planted probe: exactly the fields each kind
/// names, everything sealed left out.
pub open spec fn publish_spec(p: PlantedStimulus) -> StimulusView {
    let base = blank_view(p);
    match p.params {
        StimulusParams::GamblePair {
            offer_id,
            gain_minor,
            loss_minor,
            win_probability_micro,
            premium_minor,
            ..
        } => StimulusView {
            offer_id: Some(offer_id),
            gain_minor: Some(gain_minor),
            loss_minor: Some(loss_minor),
            win_probability_micro: Some(win_probability_micro),
            premium_minor: Some(premium_minor),
            ..base
        },
        StimulusParams::AnchorProbe { anchor_minor, .. } => StimulusView {
            anchor_minor: Some(anchor_minor),
            ..base
        },
        StimulusParams::ForecastElicitation { .. } => base,
        StimulusParams::SunkCostPair { project_id, .. } => StimulusView {
            project_id: Some(project_id),
            ..base
        },
        StimulusParams::CrisisCountdown { ticks_remaining, .. } => StimulusView {
            ticks_remaining: Some(ticks_remaining),
            ..base
        },
        StimulusParams::DispositionWindow { position_id, unrealised_minor } => StimulusView {
            position_id: Some(position_id),
            unrealised_minor: Some(unrealised_minor),
            ..base
        },
    }
}

impl StimulusView {
    /// The single narrow gate from sealed parameters to published ones.
    pub fn publish(planted: &PlantedStimulus) -> (v: StimulusView)
        ensures
            v == publish_spec(*planted),
    {
        let base = StimulusView {
            kind: planted.params.kind(),
            stimulus_seq: planted.seq,
            offer_id: None,
            project_id: None,
            position_id: None,
            anchor_minor: None,
            gain_minor: None,
            loss_minor: None,
            win_probability_micro: None,
            premium_minor: None,
            ticks_remaining: None,
            unrealised_minor: None,
        };
        match planted.params {
            StimulusParams::GamblePair {
                offer_id,
                gain_minor,
                loss_minor,
                win_probability_micro,
                premium_minor,
                ..
            } => StimulusView {
                offer_id: Some(offer_id),
                gain_minor: Some(gain_minor),
                loss_minor: Some(loss_minor),
                win_probability_micro: Some(win_probability_micro),
                premium_minor: Some(premium_minor),
                ..base
            },
            StimulusParams::AnchorProbe { anchor_minor, .. } => StimulusView {
                anchor_minor: Some(anchor_minor),
                ..base
            },
            StimulusParams::ForecastElicitation { .. } => base,
            StimulusParams::SunkCostPair { project_id, .. } => StimulusView {
                project_id: Some(project_id),
                ..base
            },
            StimulusParams::CrisisCountdown { ticks_remaining, .. } => StimulusView {
                ticks_remaining: Some(ticks_remaining),
                ..base
            },
            StimulusParams::DispositionWindow { position_id, unrealised_minor } => StimulusView {
                position_id: Some(position_id),
                unrealised_minor: Some(unrealised_minor),
                ..base
            },
        }
    }
}

/// A gamble's outcome, an anchor's reference and its perturbation never
/// reach the published view: the view of a probe is the same whatever those
/// sealed fields hold.
pub proof fn law_publication_hides_sealed_fields(a: PlantedStimulus, b: PlantedStimulus)
    requires
        a.seq == b.seq,
        ({
            ||| (a.params matches StimulusParams::GamblePair {
                offer_id,
                gain_minor,
                loss_minor,
                win_probability_micro,
                premium_minor,
                ..
            } && b.params matches StimulusParams::GamblePair {
                offer_id: o2,
                gain_minor: g2,
                loss_minor: l2,
                win_probability_micro: w2,
                premium_minor: p2,
                ..
            } && offer_id == o2 && gain_minor == g2 && loss_minor == l2 && win_probability_micro
                == w2 && premium_minor == p2)
            ||| (a.params matches StimulusParams::AnchorProbe { anchor_minor, .. }
                && b.params matches StimulusParams::AnchorProbe { anchor_minor: a2, .. }
                && anchor_minor == a2)
            ||| (a.params is ForecastElicitation && b.params is ForecastElicitation)
        }),
    ensures
        publish_spec(a) == publish_spec(b),
{
}

/// Whether `intent` is the kind of act that answers probe `p`.
pub open spec fn answers(intent: ActionIntent, p: StimulusParams) -> bool {
    match p {
        StimulusParams::GamblePair { offer_id: planted, .. } => match intent {
            ActionIntent::AcceptOffer { offer_id } => offer_id == planted,
            ActionIntent::DeclineOffer { offer_id } => offer_id == planted,
            _ => false,
        },
        StimulusParams::AnchorProbe { .. } | StimulusParams::ForecastElicitation { .. } => intent
            is ForecastInterval,
        StimulusParams::SunkCostPair { project_id: planted, .. } => match intent {
            ActionIntent::ContinueProject { project_id } => project_id == planted,
            ActionIntent::AbandonProject { project_id } => project_id == planted,
            ActionIntent::Invest { project_id, .. } => project_id == planted,
            _ => false,
        },
        StimulusParams::DispositionWindow { position_id: planted, .. } => match intent {
            ActionIntent::ClosePosition { position_id } => position_id == planted,
            _ => false,
        },
        StimulusParams::CrisisCountdown { .. } => false,
    }
}

/// The first active probe `intent` answers.
pub open spec fn first_answered(intent: ActionIntent, s: Seq<PlantedStimulus>) -> Option<
    PlantedStimulus,
>
    decreases s.len(),
{
    if s.len() == 0 {
        None
    } else if answers(intent, s[0].params) {
        Some(s[0])
    } else {
        first_answered(intent, s.drop_first())
    }
}

/// The first active crisis window.
pub open spec fn first_crisis(s: Seq<PlantedStimulus>) -> Option<PlantedStimulus>
    decreases s.len(),
{
    if s.len() == 0 {
        None
    } else if s[0].params is CrisisCountdown {
        Some(s[0])
    } else {
        first_crisis(s.drop_first())
    }
}

/// Attribution by the shape of the act: the first probe the act answers;
/// failing that, the first open crisis window; failing that, nothing.
pub open spec fn attribute_spec(intent: ActionIntent, active: Seq<PlantedStimulus>) -> Option<
    StimulusRef,
> {
    match first_answered(intent, active) {
        Some(p) => Some(reference_spec(p)),
        None => match first_crisis(active) {
            Some(p) => Some(reference_spec(p)),
            None => None,
        },
    }
}

fn answers_exec(intent: ActionIntent, p: StimulusParams) -> (b: bool)
    ensures
        b == answers(intent, p),
{
    match p {
        StimulusParams::GamblePair { offer_id: planted, .. } => match intent {
            ActionIntent::AcceptOffer { offer_id } => offer_id == planted,
            ActionIntent::DeclineOffer { offer_id } => offer_id == planted,
            _ => false,
        },
        StimulusParams::AnchorProbe { .. } | StimulusParams::ForecastElicitation { .. } => {
            match intent {
                ActionIntent::ForecastInterval { .. } => true,
                _ => false,
            }
        },
        StimulusParams::SunkCostPair { project_id: planted, .. } => match intent {
            ActionIntent::ContinueProject { project_id } => project_id == planted,
            ActionIntent::AbandonProject { project_id } => project_id == planted,
            ActionIntent::Invest { project_id, .. } => project_id == planted,
            _ => false,
        },
        StimulusParams::DispositionWindow { position_id: planted, .. } => match intent {
            ActionIntent::ClosePosition { position_id } => position_id == planted,
            _ => false,
        },
        StimulusParams::CrisisCountdown { .. } => false,
    }
}

/// Which planted probe a decision answered, if any. A decision that answers
/// nothing is attributed to nothing.
pub fn attribute(intent: ActionIntent, active: &[PlantedStimulus]) -> (r: Option<StimulusRef>)
    ensures
        r == attribute_spec(intent, active@),
{
    let n = active.len();
    let mut i: usize = 0;
    assert(active@.subrange(0, n as int) =~= active@);
    while i < n
        invariant
            n == active@.len(),
            i <= n,
            first_answered(intent, active@) == first_answered(
                intent,
                active@.subrange(i as int, n as int),
            ),
        decreases n - i,
    {
        proof {
            assert(active@.subrange(i as int, n as int).drop_first() =~= active@.subrange(
                i as int + 1,
                n as int,
            ));
        }
        if answers_exec(intent, active[i].params) {
            return Some(active[i].reference());
        }
        i = i + 1;
    }
    proof {
        assert(active@.subrange(n as int, n as int) =~= Seq::<PlantedStimulus>::empty());
    }
    let mut j: usize = 0;
    assert(active@.subrange(0, n as int) =~= active@);
    while j < n
        invariant
            n == active@.len(),
            j <= n,
            first_answered(intent, active@) is None,
            first_crisis(active@) == first_crisis(active@.subrange(j as int, n as int)),
        decreases n - j,
    {
        proof {
            assert(active@.subrange(j as int, n as int).drop_first() =~= active@.subrange(
                j as int + 1,
                n as int,
            ));
        }
        match active[j].params {
            StimulusParams::CrisisCountdown { .. } => {
                return Some(active[j].reference());
            },
            _ => {},
        }
        j = j + 1;
    }
    proof {
        assert(active@.subrange(n as int, n as int) =~= Seq::<PlantedStimulus>::empty());
    }
    None
}

proof fn lemma_first_answered_at(intent: ActionIntent, active: Seq<PlantedStimulus>, j: int)
    requires
        0 <= j < active.len(),
        answers(intent, active[j].params),
        forall|i: int| 0 <= i < j ==> !answers(intent, #[trigger] active[i].params),
    ensures
        first_answered(intent, active) == Some(active[j]),
    decreases j,
{
    if j > 0 {
        let rest = active.drop_first();
        assert(!answers(intent, active[0].params));
        assert forall|i: int| 0 <= i < j - 1 implies !answers(intent, #[trigger] rest[i].params) by {
            assert(rest[i] == active[i + 1]);
        }
        lemma_first_answered_at(intent, rest, j - 1);
    }
}

/// Continuing, abandoning or investing in a planted project answers that
/// project's sunk-cost probe: the decision is attributed to the first
/// sunk-cost pair planted on that project, whatever crisis window is open.
pub proof fn law_project_decisions_answer_the_sunk_cost_probe(
    intent: ActionIntent,
    active: Seq<PlantedStimulus>,
    project_id: u32,
    j: int,
)
    requires
        intent == (ActionIntent::ContinueProject { project_id }) || intent == (ActionIntent::AbandonProject {
            project_id,
        }) || (intent matches ActionIntent::Invest { project_id: p, .. } && p == project_id),
        0 <= j < active.len(),
        active[j].params matches StimulusParams::SunkCostPair { project_id: p, .. } && p == project_id,
        forall|i: int|
            0 <= i < j ==> !(#[trigger] active[i].params matches StimulusParams::SunkCostPair {
                project_id: p,
                ..
            } && p == project_id),
    ensures
        attribute_spec(intent, active) == Some(reference_spec(active[j])),
        reference_spec(active[j]).kind == StimulusKind::SunkCostPair,
{
    assert forall|i: int| 0 <= i < j implies !answers(intent, #[trigger] active[i].params) by {
        assert(!(active[i].params matches StimulusParams::SunkCostPair { project_id: p, .. } && p
            == project_id));
    }
    lemma_first_answered_at(intent, active, j);
}

/// Accepting or declining a planted offer answers the lottery planted on
/// it: the decision is attributed to the first gamble pair on that offer.
pub proof fn law_offer_decisions_answer_the_gamble(
    intent: ActionIntent,
    active: Seq<PlantedStimulus>,
    offer_id: u32,
    j: int,
)
    requires
        intent == (ActionIntent::AcceptOffer { offer_id }) || intent == (ActionIntent::DeclineOffer {
            offer_id,
        }),
        0 <= j < active.len(),
        active[j].params matches StimulusParams::GamblePair { offer_id: o, .. } && o == offer_id,
        forall|i: int|
            0 <= i < j ==> !(#[trigger] active[i].params matches StimulusParams::GamblePair {
                offer_id: o,
                ..
            } && o == offer_id),
    ensures
        attribute_spec(intent, active) == Some(reference_spec(active[j])),
        reference_spec(active[j]).kind == StimulusKind::GamblePair,
{
    assert forall|i: int| 0 <= i < j implies !answers(intent, #[trigger] active[i].params) by {
        assert(!(active[i].params matches StimulusParams::GamblePair { offer_id: o, .. } && o
            == offer_id));
    }
    lemma_first_answered_at(intent, active, j);
}

/// Closing a position answers the disposition window planted on it.
pub proof fn law_closing_a_position_answers_its_disposition_window(
    active: Seq<PlantedStimulus>,
    position_id: u32,
    j: int,
)
    requires
        0 <= j < active.len(),
        active[j].params matches StimulusParams::DispositionWindow { position_id: q, .. } && q
            == position_id,
        forall|i: int|
            0 <= i < j ==> !(#[trigger] active[i].params matches StimulusParams::DispositionWindow {
                position_id: q,
                ..
            } && q == position_id),
    ensures
        attribute_spec(ActionIntent::ClosePosition { position_id }, active) == Some(
            reference_spec(active[j]),
        ),
        reference_spec(active[j]).kind == StimulusKind::DispositionWindow,
{
    let intent = ActionIntent::ClosePosition { position_id };
    assert forall|i: int| 0 <= i < j implies !answers(intent, #[trigger] active[i].params) by {
        assert(!(active[i].params matches StimulusParams::DispositionWindow { position_id: q, .. }
            && q == position_id));
    }
    lemma_first_answered_at(intent, active, j);
}

/// A forecast answers the first open anchor probe or forecast elicitation.
pub proof fn law_a_forecast_answers_the_first_forecast_probe(
    lo_minor: i64,
    hi_minor: i64,
    active: Seq<PlantedStimulus>,
    j: int,
)
    requires
        0 <= j < active.len(),
        active[j].params is AnchorProbe || active[j].params is ForecastElicitation,
        forall|i: int|
            0 <= i < j ==> !(#[trigger] active[i].params is AnchorProbe || active[i].params is ForecastElicitation),
    ensures
        attribute_spec(ActionIntent::ForecastInterval { lo_minor, hi_minor }, active) == Some(
            reference_spec(active[j]),
        ),
{
    let intent = ActionIntent::ForecastInterval { lo_minor, hi_minor };
    assert forall|i: int| 0 <= i < j implies !answers(intent, #[trigger] active[i].params) by {
        assert(!(active[i].params is AnchorProbe || active[i].params is ForecastElicitation));
    }
    lemma_first_answered_at(intent, active, j);
}

proof fn lemma_first_crisis_at(active: Seq<PlantedStimulus>, j: int)
    requires
        0 <= j <= active.len(),
        j < active.len() ==> active[j].params is CrisisCountdown,
        forall|i: int| 0 <= i < j ==> !(#[trigger] active[i].params is CrisisCountdown),
    ensures
        first_crisis(active) == (if j < active.len() {
            Some(active[j])
        } else {
            None::<PlantedStimulus>
        }),
    decreases j,
{
    if j > 0 {
        let rest = active.drop_first();
        assert forall|i: int| 0 <= i < j - 1 implies !(#[trigger] rest[i].params is CrisisCountdown) by {
            assert(rest[i] == active[i + 1]);
        }
        lemma_first_crisis_at(rest, j - 1);
    }
}

proof fn lemma_nothing_answered(intent: ActionIntent, active: Seq<PlantedStimulus>)
    requires
        forall|i: int| 0 <= i < active.len() ==> !answers(intent, #[trigger] active[i].params),
    ensures
        first_answered(intent, active) is None,
    decreases active.len(),
{
    if active.len() > 0 {
        let rest = active.drop_first();
        assert forall|i: int| 0 <= i < rest.len() implies !answers(intent, #[trigger] rest[i].params) by {
            assert(rest[i] == active[i + 1]);
        }
        lemma_nothing_answered(intent, rest);
    }
}

/// An act that answers no kind of probe (pricing, ordering, hedging,
/// borrowing, repaying, abstaining or the timeout default) is attributed to
/// the first open crisis window at `j`, or to nothing when none is open
/// (`j` is then the length of `active`).
pub proof fn law_other_acts_fall_to_the_first_crisis_window(
    intent: ActionIntent,
    active: Seq<PlantedStimulus>,
    j: int,
)
    requires
        intent is SetPrice || intent is OrderInventory || intent is OpenHedge || intent is Borrow
            || intent is Repay || intent is Abstain || intent is ForcedDefault,
        0 <= j <= active.len(),
        j < active.len() ==> active[j].params is CrisisCountdown,
        forall|i: int| 0 <= i < j ==> !(#[trigger] active[i].params is CrisisCountdown),
    ensures
        attribute_spec(intent, active) == (if j < active.len() {
            Some(reference_spec(active[j]))
        } else {
            None::<StimulusRef>
        }),
{
    lemma_nothing_answered(intent, active);
    lemma_first_crisis_at(active, j);
}

/// The known (G, L, p) lattice and the other draw ranges. Frozen: the
/// estimators assume these magnitudes.
pub const GAMBLE_GAIN_RANGE: (i64, i64) = (40_000, 160_000);
pub const GAMBLE_LOSS_RANGE: (i64, i64) = (30_000, 140_000);
pub const SUNK_RANGE: (i64, i64) = (80_000, 400_000);
pub const CRISIS_CASH_RANGE: (i64, i64) = (100_000, 600_000);

pub open spec fn probability_lattice() -> Seq<i64> {
    seq![250_000i64, 400_000i64, 500_000i64, 600_000i64, 750_000i64]
}

pub open spec fn delta_lattice() -> Seq<i64> {
    seq![150_000i64, 300_000i64, 450_000i64]
}

/// The stream a turn's parameters are drawn from: one per turn, so turn N's
/// parameters do not depend on how many draws earlier turns made.
pub open spec fn stimulus_stream(campaign_key: Seq<u32>, turn: u32) -> StreamView {
    StreamView {
        key: domain_key(campaign_key, SeedDomain::Stimuli),
        substream: turn as u64,
        block: 0,
        buf_next: 4,
    }
}

pub open spec fn min_int(a: int, b: int) -> int {
    if a < b {
        a
    } else {
        b
    }
}

/// A magnitude in `[lo, hi]` from one uniform draw: `lo + ⌊u·(hi − lo)⌋`.
pub open spec fn span_spec(bits: u64, lo: i64, hi: i64) -> i64 {
    (lo + min_int(scaled_floor_spec(bits as nat, (hi - lo) as nat) as int, hi - lo)) as i64
}

/// One lattice point from one uniform draw: index `⌊u·n⌋`, capped at `n−1`.
pub open spec fn pick_spec(bits: u64, lattice: Seq<i64>) -> i64 {
    lattice[min_int(scaled_floor_spec(bits as nat, lattice.len()) as int, lattice.len() - 1)]
}

/// The risk-neutral value of the loss leg, `⌊loss·(1 − p)⌋`.
pub open spec fn premium_spec(loss: i64, p: i64) -> i64 {
    ((loss * (1_000_000 - p)) / 1_000_000) as i64
}

/// The gamble drawn for `turn`; the offer id is bound later.
pub open spec fn gamble_draw_spec(campaign_key: Seq<u32>, turn: u32) -> StimulusParams {
    let (b1, v1) = next_bits_spec(stimulus_stream(campaign_key, turn));
    let (b2, v2) = next_bits_spec(v1);
    let (b3, v3) = next_bits_spec(v2);
    let (b4, v4) = next_bits_spec(v3);
    let gain = span_spec(b1, GAMBLE_GAIN_RANGE.0, GAMBLE_GAIN_RANGE.1);
    let loss = span_spec(b2, GAMBLE_LOSS_RANGE.0, GAMBLE_LOSS_RANGE.1);
    let p = pick_spec(b3, probability_lattice());
    StimulusParams::GamblePair {
        offer_id: u32::MAX,
        gain_minor: gain,
        loss_minor: loss,
        win_probability_micro: p,
        premium_minor: premium_spec(loss, p),
        good_state: scaled_below_spec(b4 as nat, 1_000_000, p as nat),
    }
}

/// Division truncating toward zero, by a positive divisor.
pub open spec fn trunc_div(a: int, b: int) -> int {
    if a >= 0 {
        a / b
    } else {
        -((-a) / b)
    }
}

pub open spec fn anchor_value(arm: AnchorArm, reference: i64, delta: i64) -> i64 {
    let signed = if arm == AnchorArm::High {
        1_000_000 + delta
    } else {
        1_000_000 - delta
    };
    let q = trunc_div(reference * signed, 1_000_000);
    if crate::money::i64_fits(q) {
        q as i64
    } else {
        reference
    }
}

/// The anchor for `turn`: the sealed reference perturbed up (`High`) or
/// down (`Low`) by a drawn lattice fraction.
pub open spec fn anchor_draw_spec(
    campaign_key: Seq<u32>,
    turn: u32,
    arm: AnchorArm,
    reference: i64,
) -> StimulusParams {
    let (b1, v1) = next_bits_spec(stimulus_stream(campaign_key, turn));
    let delta = pick_spec(b1, delta_lattice());
    StimulusParams::AnchorProbe {
        anchor_minor: anchor_value(arm, reference, delta),
        arm,
        reference_minor: reference,
        delta_micro: delta,
    }
}

pub open spec fn sunk_draw_spec(campaign_key: Seq<u32>, turn: u32, arm: SunkArm) -> (
    i64,
    StimulusParams,
) {
    let (b1, v1) = next_bits_spec(stimulus_stream(campaign_key, turn));
    let magnitude = span_spec(b1, SUNK_RANGE.0, SUNK_RANGE.1);
    (
        magnitude,
        StimulusParams::SunkCostPair {
            project_id: u32::MAX,
            sunk_minor: if arm == SunkArm::WithSunk {
                magnitude
            } else {
                0
            },
            arm,
        },
    )
}

pub open spec fn crisis_draw_spec(campaign_key: Seq<u32>, turn: u32, ticks_remaining: u32) -> StimulusParams {
    let (b1, v1) = next_bits_spec(stimulus_stream(campaign_key, turn));
    StimulusParams::CrisisCountdown {
        ticks_remaining,
        required_cash_minor: span_spec(b1, CRISIS_CASH_RANGE.0, CRISIS_CASH_RANGE.1),
    }
}

fn stream(campaign_key: [u32; 2], turn: u32) -> (s: PhiloxStream)
    ensures
        s.wf(),
        s@ == stimulus_stream(campaign_key@, turn),
{
    PhiloxStream::new(campaign_key, SeedDomain::Stimuli, turn as u64)
}

fn span(bits: u64, lo: i64, hi: i64) -> (r: i64)
    requires
        bits < UNIT_ONE,
        0 <= lo <= hi,
        hi - lo <= 0x10_0000_0000,
    ensures
        r == span_spec(bits, lo, hi),
        lo <= r <= hi,
{
    let width = hi - lo;
    let scaled = scaled_floor(bits, width as u64);
    let clipped: i64 = if (scaled as i64) < width {
        scaled as i64
    } else {
        width
    };
    lo + clipped
}

fn pick(bits: u64, lattice: &[i64]) -> (r: i64)
    requires
        bits < UNIT_ONE,
        1 <= lattice@.len() <= 16,
    ensures
        r == pick_spec(bits, lattice@),
        lattice@.contains(r),
{
    let n = lattice.len();
    let idx = scaled_floor(bits, n as u64);
    let i: usize = if (idx as usize) < n - 1 {
        idx as usize
    } else {
        n - 1
    };
    lattice[i]
}

/// Draw the gamble for `turn`. Every draw lands inside the declared
/// lattice, and the premium is never more than the loss.
pub fn draw_gamble(campaign_key: [u32; 2], turn: u32) -> (r: StimulusParams)
    ensures
        r == gamble_draw_spec(campaign_key@, turn),
        r matches StimulusParams::GamblePair {
            gain_minor,
            loss_minor,
            win_probability_micro,
            premium_minor,
            ..
        } && GAMBLE_GAIN_RANGE.0 <= gain_minor <= GAMBLE_GAIN_RANGE.1 && GAMBLE_LOSS_RANGE.0
            <= loss_minor <= GAMBLE_LOSS_RANGE.1 && probability_lattice().contains(
            win_probability_micro,
        ) && 0 <= premium_minor <= loss_minor,
{
    let mut s = stream(campaign_key, turn);
    let b1 = next_unit_bits(&mut s);
    let b2 = next_unit_bits(&mut s);
    let b3 = next_unit_bits(&mut s);
    let b4 = next_unit_bits(&mut s);
    let gain_minor = span(b1, GAMBLE_GAIN_RANGE.0, GAMBLE_GAIN_RANGE.1);
    let loss_minor = span(b2, GAMBLE_LOSS_RANGE.0, GAMBLE_LOSS_RANGE.1);
    let lattice: [i64; 5] = [250_000, 400_000, 500_000, 600_000, 750_000];
    assert(lattice@ =~= probability_lattice());
    let win_probability_micro = pick(b3, &lattice);
    proof {
        assert(0 < 1_000_000 - win_probability_micro < 1_000_000);
        assert(0 <= loss_minor * (1_000_000 - win_probability_micro) <= loss_minor * 1_000_000)
            by (nonlinear_arith)
            requires
                0 < 1_000_000 - win_probability_micro < 1_000_000,
                0 <= loss_minor <= 140_000,
        ;
    }
    let product: i64 = loss_minor * (1_000_000 - win_probability_micro);
    let premium_minor = product / 1_000_000;
    let good_state = scaled_below(b4, 1_000_000, win_probability_micro as u64);
    StimulusParams::GamblePair {
        offer_id: u32::MAX,
        gain_minor,
        loss_minor,
        win_probability_micro,
        premium_minor,
        good_state,
    }
}

/// Build the anchor by perturbing the sealed reference; the perturbation is
/// never zero.
pub fn draw_anchor(campaign_key: [u32; 2], turn: u32, arm: AnchorArm, reference_minor: i64) -> (r:
    StimulusParams)
    ensures
        r == anchor_draw_spec(campaign_key@, turn, arm, reference_minor),
{
    let mut s = stream(campaign_key, turn);
    let b1 = next_unit_bits(&mut s);
    let lattice: [i64; 3] = [150_000, 300_000, 450_000];
    assert(lattice@ =~= delta_lattice());
    let delta_micro = pick(b1, &lattice);
    let signed: i128 = match arm {
        AnchorArm::High => 1_000_000i128 + delta_micro as i128,
        AnchorArm::Low => 1_000_000i128 - delta_micro as i128,
    };
    proof {
        assert(-0x8000_0000_0000_0000 * 2_000_000 <= reference_minor * signed
            <= 0x8000_0000_0000_0000 * 2_000_000) by (nonlinear_arith)
            requires
                -0x8000_0000_0000_0000 <= reference_minor <= 0x7fff_ffff_ffff_ffff,
                0 <= signed <= 2_000_000,
        ;
    }
    let product: i128 = reference_minor as i128 * signed;
    let q: i128 = if product >= 0 {
        product / 1_000_000
    } else {
        -((-product) / 1_000_000)
    };
    let anchor_minor: i64 = if q < i64::MIN as i128 || q > i64::MAX as i128 {
        reference_minor
    } else {
        q as i64
    };
    StimulusParams::AnchorProbe { anchor_minor, arm, reference_minor, delta_micro }
}

/// Draw the sunk-cost pair for `turn`: the magnitude, and the probe whose
/// committed capital is that magnitude on the `WithSunk` arm and zero on the
/// other.
pub fn draw_sunk(campaign_key: [u32; 2], turn: u32, arm: SunkArm) -> (r: (i64, StimulusParams))
    ensures
        r == sunk_draw_spec(campaign_key@, turn, arm),
        SUNK_RANGE.0 <= r.0 <= SUNK_RANGE.1,
{
    let mut s = stream(campaign_key, turn);
    let b1 = next_unit_bits(&mut s);
    let magnitude = span(b1, SUNK_RANGE.0, SUNK_RANGE.1);
    let sunk_minor = match arm {
        SunkArm::WithSunk => magnitude,
        SunkArm::WithoutSunk => 0,
    };
    (magnitude, StimulusParams::SunkCostPair { project_id: u32::MAX, sunk_minor, arm })
}

/// Draw the margin call for a crisis window.
pub fn draw_crisis(campaign_key: [u32; 2], turn: u32, ticks_remaining: u32) -> (r: StimulusParams)
    ensures
        r == crisis_draw_spec(campaign_key@, turn, ticks_remaining),
{
    let mut s = stream(campaign_key, turn);
    let b1 = next_unit_bits(&mut s);
    StimulusParams::CrisisCountdown {
        ticks_remaining,
        required_cash_minor: span(b1, CRISIS_CASH_RANGE.0, CRISIS_CASH_RANGE.1),
    }
}

/// An anchor is never the reference itself: for any reference of at least
/// seven minor units (and small enough that the perturbed value fits), the
/// `High` arm publishes strictly more and the `Low` arm strictly less.
pub proof fn law_anchor_is_never_the_reference(
    campaign_key: Seq<u32>,
    turn: u32,
    arm: AnchorArm,
    reference: i64,
)
    requires
        7 <= reference <= 0x1000_0000_0000_0000,
    ensures
        anchor_draw_spec(campaign_key, turn, arm, reference) matches StimulusParams::AnchorProbe {
            anchor_minor,
            arm: got,
            reference_minor,
            delta_micro,
        } && got == arm && reference_minor == reference && delta_micro > 0 && (arm
            == AnchorArm::High ==> anchor_minor > reference) && (arm == AnchorArm::Low
            ==> anchor_minor < reference),
{
    let (b1, v1) = next_bits_spec(stimulus_stream(campaign_key, turn));
    let d = pick_spec(b1, delta_lattice());
    let i = min_int(scaled_floor_spec(b1 as nat, 3) as int, 2);
    assert(0 <= i < 3);
    assert(d == delta_lattice()[i]);
    assert(150_000 <= d <= 450_000);
    if arm == AnchorArm::High {
        let prod = reference * (1_000_000 + d);
        assert(reference * (1_000_000 + d) == reference * 1_000_000 + reference * d)
            by (nonlinear_arith);
        assert(reference * d >= 7 * 150_000) by (nonlinear_arith)
            requires
                reference >= 7,
                d >= 150_000,
        ;
        assert(reference * d <= 0x1000_0000_0000_0000 * 450_000) by (nonlinear_arith)
            requires
                reference <= 0x1000_0000_0000_0000,
                d <= 450_000,
                reference >= 0,
        ;
        assert(reference * d <= reference * 1_000_000) by (nonlinear_arith)
            requires
                reference >= 0,
                d <= 1_000_000,
        ;
        assert(prod / 1_000_000 > reference);
        assert(prod <= reference * 2 * 1_000_000);
        assert(prod / 1_000_000 <= reference * 2);
    } else {
        let prod = reference * (1_000_000 - d);
        assert(reference * (1_000_000 - d) == reference * 1_000_000 - reference * d)
            by (nonlinear_arith);
        assert(reference * d >= 7 * 150_000) by (nonlinear_arith)
            requires
                reference >= 7,
                d >= 150_000,
        ;
        assert(prod >= 0) by (nonlinear_arith)
            requires
                prod == reference * (1_000_000 - d),
                reference >= 0,
                d <= 450_000,
        ;
        assert(prod / 1_000_000 < reference);
    }
}

pub open spec fn gamble_offer_spec(params: StimulusParams) -> Option<Offer> {
    match params {
        StimulusParams::GamblePair { premium_minor, .. } => Some(
            Offer {
                kind: OfferKind::Expansion,
                cost_minor: if premium_minor < 1 {
                    1
                } else {
                    premium_minor
                },
                status: OfferStatus::Open,
            },
        ),
        _ => None,
    }
}

/// The offer that carries a gamble into the game: always an open
/// `Expansion` costing the premium (at least one minor unit).
pub fn gamble_offer(params: StimulusParams) -> (r: Option<Offer>)
    ensures
        r == gamble_offer_spec(params),
{
    match params {
        StimulusParams::GamblePair { premium_minor, .. } => Some(
            Offer {
                kind: OfferKind::Expansion,
                cost_minor: if premium_minor < 1 {
                    1
                } else {
                    premium_minor
                },
                status: OfferStatus::Open,
            },
        ),
        _ => None,
    }
}

pub open spec fn bind_offer_spec(params: StimulusParams, id: u32) -> StimulusParams {
    match params {
        StimulusParams::GamblePair {
            gain_minor,
            loss_minor,
            win_probability_micro,
            premium_minor,
            good_state,
            ..
        } => StimulusParams::GamblePair {
            offer_id: id,
            gain_minor,
            loss_minor,
            win_probability_micro,
            premium_minor,
            good_state,
        },
        other => other,
    }
}

pub open spec fn bind_project_spec(params: StimulusParams, id: u32) -> StimulusParams {
    match params {
        StimulusParams::SunkCostPair { sunk_minor, arm, .. } => StimulusParams::SunkCostPair {
            project_id: id,
            sunk_minor,
            arm,
        },
        other => other,
    }
}

/// Fill in the offer id the game assigned; other kinds pass unchanged.
pub fn bind_offer_id(params: StimulusParams, id: u32) -> (r: StimulusParams)
    ensures
        r == bind_offer_spec(params, id),
{
    match params {
        StimulusParams::GamblePair {
            gain_minor,
            loss_minor,
            win_probability_micro,
            premium_minor,
            good_state,
            ..
        } => StimulusParams::GamblePair {
            offer_id: id,
            gain_minor,
            loss_minor,
            win_probability_micro,
            premium_minor,
            good_state,
        },
        other => other,
    }
}

/// Fill in the project id the game assigned; other kinds pass unchanged.
pub fn bind_project_id(params: StimulusParams, id: u32) -> (r: StimulusParams)
    ensures
        r == bind_project_spec(params, id),
{
    match params {
        StimulusParams::SunkCostPair { sunk_minor, arm, .. } => StimulusParams::SunkCostPair {
            project_id: id,
            sunk_minor,
            arm,
        },
        other => other,
    }
}

pub open spec fn disposition_spec_of(open: Seq<(u32, Position)>, equity_index_centi: i64) -> Option<
    StimulusParams,
> {
    if open.len() == 0 {
        None
    } else {
        match pnl_spec(open[0].1, equity_index_centi) {
            Ok(u) => Some(
                StimulusParams::DispositionWindow { position_id: open[0].0, unrealised_minor: u },
            ),
            Err(_) => None,
        }
    }
}

/// The position the disposition window watches: the lowest-id open one,
/// marked to the given index.
pub fn disposition_target(firm: &FirmState, equity_index_centi: i64) -> (r: Option<StimulusParams>)
    ensures
        r == disposition_spec_of(
            open_positions_spec(firm@.positions, crate::firm::MAX_POSITIONS as int),
            equity_index_centi,
        ),
{
    let open = firm.open_positions();
    if open.len() == 0 {
        return None;
    }
    let (position_id, position) = open[0];
    match position_pnl_minor(&position, equity_index_centi) {
        Ok(unrealised_minor) => Some(
            StimulusParams::DispositionWindow { position_id, unrealised_minor },
        ),
        Err(_) => None,
    }
}

/// A gamble reaches the game as an open expansion offer that costs its
/// premium, and never less than one minor unit; no other probe is offered.
pub proof fn law_a_gamble_is_offered_at_its_premium(params: StimulusParams)
    ensures
        params matches StimulusParams::GamblePair { premium_minor, .. } ==> gamble_offer_spec(params) == Some(
            Offer {
                kind: OfferKind::Expansion,
                cost_minor: if premium_minor >= 1 {
                    premium_minor
                } else {
                    1
                },
                status: OfferStatus::Open,
            },
        ),
        !(params is GamblePair) ==> gamble_offer_spec(params) is None,
{
}

/// Binding the game's ids keeps the draw: binding an offer id changes only
/// a gamble's offer id, binding a project id only a sunk-cost pair's
/// project id, neither changes the probe's kind, and binding again
/// replaces the earlier id.
pub proof fn law_binding_ids_keeps_the_draw(params: StimulusParams, a: u32, b: u32)
    ensures
        params_kind(bind_offer_spec(params, a)) == params_kind(params),
        params_kind(bind_project_spec(params, a)) == params_kind(params),
        params matches StimulusParams::GamblePair {
            gain_minor,
            loss_minor,
            win_probability_micro,
            premium_minor,
            good_state,
            ..
        } ==> (bind_offer_spec(params, a) matches StimulusParams::GamblePair {
            offer_id: o,
            gain_minor: g,
            loss_minor: l,
            win_probability_micro: w,
            premium_minor: p,
            good_state: s,
        } && o == a && g == gain_minor && l == loss_minor && w == win_probability_micro && p == premium_minor
            && s == good_state),
        params matches StimulusParams::SunkCostPair { sunk_minor, arm, .. } ==> (bind_project_spec(
            params,
            a,
        ) matches StimulusParams::SunkCostPair { project_id: q, sunk_minor: k, arm: m } && q == a && k
            == sunk_minor && m == arm),
        !(params is GamblePair) ==> bind_offer_spec(params, a) == params,
        !(params is SunkCostPair) ==> bind_project_spec(params, a) == params,
        bind_offer_spec(bind_offer_spec(params, a), b) == bind_offer_spec(params, b),
        bind_project_spec(bind_project_spec(params, a), b) == bind_project_spec(params, b),
{
}


proof fn lemma_open_positions_first(s: Seq<Option<Position>>, n: int, j: int)
    requires
        0 <= j,
        n <= u32::MAX,
        forall|i: int|
            0 <= i < j && i < n ==> !(#[trigger] s[i] matches Some(p) && p.status
                == crate::firm::PositionStatus::Open),
        j < n ==> (s[j] matches Some(p) && p.status == crate::firm::PositionStatus::Open),
    ensures
        n <= j ==> open_positions_spec(s, n).len() == 0,
        j < n ==> open_positions_spec(s, n).len() > 0 && open_positions_spec(s, n)[0] == (
            j as u32,
            s[j].unwrap(),
        ),
    decreases n,
{
    if n > 0 {
        lemma_open_positions_first(s, n - 1, j);
        if n - 1 < j {
            assert(!(s[n - 1] matches Some(p) && p.status == crate::firm::PositionStatus::Open));
        }
    }
}

/// The disposition window watches the lowest-numbered open position `j`,
/// marked to the given index, and nothing when no position is open (`j` is
/// then the number of slots) or the mark does not compute.
pub proof fn law_disposition_watches_the_lowest_open_position(
    positions: Seq<Option<Position>>,
    equity_index_centi: i64,
    j: int,
)
    requires
        0 <= j <= crate::firm::MAX_POSITIONS,
        forall|i: int|
            0 <= i < j ==> !(#[trigger] positions[i] matches Some(p) && p.status
                == crate::firm::PositionStatus::Open),
        j < crate::firm::MAX_POSITIONS ==> (positions[j] matches Some(p) && p.status
            == crate::firm::PositionStatus::Open),
    ensures
        disposition_spec_of(
            open_positions_spec(positions, crate::firm::MAX_POSITIONS as int),
            equity_index_centi,
        ) == if j < crate::firm::MAX_POSITIONS {
            match pnl_spec(positions[j].unwrap(), equity_index_centi) {
                Ok(u) => Some(StimulusParams::DispositionWindow { position_id: j as u32, unrealised_minor: u }),
                Err(_) => None,
            }
        } else {
            None::<StimulusParams>
        },
{
    lemma_open_positions_first(positions, crate::firm::MAX_POSITIONS as int, j);
}

} // verus!
