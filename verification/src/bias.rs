//! Bias axes, "not measured" semantics, and the calibration type-gate.
//!
//! Every estimate is micro-quantized. `value_micro = None` is the only
//! representation of "not measured": a missing measurement is never a zero.
//! The 6D projection is gated on a `CalibrationCertificate`; until
//! calibration exists even the gated path yields the all-N/A surface.
use vstd::prelude::*;
use crate::money::{floor_half_up, floor_half_up_result, MoneyError, MICRO};

verus! {

/// Lane numbers, frozen: never renumber, never reuse. The declaration order
/// is the lane.
#[derive(Debug, Clone, Copy, PartialEq, Eq, Structural)]
pub enum BiasAxis {
    LossAversion,
    DispositionEffect,
    Anchoring,
    Overconfidence,
    EscalationCommitment,
    PressureDegradation,
}

pub const N_AXES: usize = 6;

pub open spec fn lane_spec(a: BiasAxis) -> u8 {
    match a {
        BiasAxis::LossAversion => 0,
        BiasAxis::DispositionEffect => 1,
        BiasAxis::Anchoring => 2,
        BiasAxis::Overconfidence => 3,
        BiasAxis::EscalationCommitment => 4,
        BiasAxis::PressureDegradation => 5,
    }
}

pub open spec fn axis_at(i: int) -> BiasAxis {
    if i == 0 {
        BiasAxis::LossAversion
    } else if i == 1 {
        BiasAxis::DispositionEffect
    } else if i == 2 {
        BiasAxis::Anchoring
    } else if i == 3 {
        BiasAxis::Overconfidence
    } else if i == 4 {
        BiasAxis::EscalationCommitment
    } else {
        BiasAxis::PressureDegradation
    }
}

impl BiasAxis {
    /// Every axis, in lane order.
    pub fn all() -> (v: [BiasAxis; N_AXES])
        ensures
            forall|i: int| 0 <= i < N_AXES ==> #[trigger] v@[i] == axis_at(i),
            forall|i: int| 0 <= i < N_AXES ==> lane_spec(#[trigger] v@[i]) == i,
    {
        [
            BiasAxis::LossAversion,
            BiasAxis::DispositionEffect,
            BiasAxis::Anchoring,
            BiasAxis::Overconfidence,
            BiasAxis::EscalationCommitment,
            BiasAxis::PressureDegradation,
        ]
    }

    /// The frozen lane number.
    pub fn lane(self) -> (l: u8)
        ensures
            l == lane_spec(self),
    {
        match self {
            BiasAxis::LossAversion => 0,
            BiasAxis::DispositionEffect => 1,
            BiasAxis::Anchoring => 2,
            BiasAxis::Overconfidence => 3,
            BiasAxis::EscalationCommitment => 4,
            BiasAxis::PressureDegradation => 5,
        }
    }

    fn index(self) -> (i: usize)
        ensures
            i == lane_spec(self),
            i < N_AXES,
    {
        self.lane() as usize
    }
}

#[derive(Debug, Clone, Copy, PartialEq, Eq, Structural)]
pub enum BiasError {
    SufficiencyOutOfRange { got_micro: i64 },
    MeasuredWithoutObservations,
    Quantization(MoneyError),
}

/// One micro-quantized estimate with its own evidence accounting.
#[derive(Debug, Clone, Copy, PartialEq, Eq, Structural)]
pub struct BiasEstimate {
    /// `None` = not measured. Never coerced to 0.
    pub value_micro: Option<i64>,
    pub n_obs: u32,
    /// Data sufficiency in `[0, 1e6]`.
    pub sufficiency_micro: i64,
}

pub open spec fn not_measured_spec() -> BiasEstimate {
    BiasEstimate { value_micro: None, n_obs: 0, sufficiency_micro: 0 }
}

pub open spec fn measured_spec(value_micro: i64, n_obs: u32, sufficiency_micro: i64) -> Result<
    BiasEstimate,
    BiasError,
> {
    if n_obs == 0 {
        Err(BiasError::MeasuredWithoutObservations)
    } else if !(0 <= sufficiency_micro <= MICRO) {
        Err(BiasError::SufficiencyOutOfRange { got_micro: sufficiency_micro })
    } else {
        Ok(BiasEstimate { value_micro: Some(value_micro), n_obs, sufficiency_micro })
    }
}

impl BiasEstimate {
    /// The honest N/A: no value, no observations, no sufficiency.
    pub fn not_measured() -> (e: Self)
        ensures
            e == not_measured_spec(),
    {
        BiasEstimate { value_micro: None, n_obs: 0, sufficiency_micro: 0 }
    }

    /// A measured estimate: at least one observation and a sufficiency in
    /// `[0, 1e6]`.
    pub fn measured(value_micro: i64, n_obs: u32, sufficiency_micro: i64) -> (r: Result<
        Self,
        BiasError,
    >)
        ensures
            r == measured_spec(value_micro, n_obs, sufficiency_micro),
    {
        if n_obs == 0 {
            return Err(BiasError::MeasuredWithoutObservations);
        }
        if sufficiency_micro < 0 || sufficiency_micro > MICRO {
            return Err(BiasError::SufficiencyOutOfRange { got_micro: sufficiency_micro });
        }
        Ok(BiasEstimate { value_micro: Some(value_micro), n_obs, sufficiency_micro })
    }
}

/// Sufficiency at `n_obs` observations against gate `min_n`:
/// `min(1, n / (2·min_n))` in micro units, floor-half-up.
pub open spec fn sufficiency_spec(n_obs: u32, min_n: u32) -> int {
    let raw = (2 * (n_obs * MICRO) + 2 * min_n) / (2 * (2 * min_n));
    if raw < MICRO {
        raw
    } else {
        MICRO as int
    }
}

/// The shared confidence gate: a zero gate is refused; below `min_n`
/// observations the answer is "not measured"; at or above it the estimate is
/// measured with sufficiency `min(1, n / (2·min_n))`.
pub open spec fn gate_spec(value_micro: i64, n_obs: u32, min_n: u32) -> Result<
    BiasEstimate,
    BiasError,
> {
    if min_n == 0 {
        Err(BiasError::MeasuredWithoutObservations)
    } else if n_obs < min_n {
        Ok(not_measured_spec())
    } else {
        Ok(
            BiasEstimate {
                value_micro: Some(value_micro),
                n_obs,
                sufficiency_micro: sufficiency_spec(n_obs, min_n) as i64,
            },
        )
    }
}

pub fn gate_estimate(value_micro: i64, n_obs: u32, min_n: u32) -> (r: Result<
    BiasEstimate,
    BiasError,
>)
    ensures
        r == gate_spec(value_micro, n_obs, min_n),
{
    if min_n == 0 {
        return Err(BiasError::MeasuredWithoutObservations);
    }
    if n_obs < min_n {
        return Ok(BiasEstimate::not_measured());
    }
    let num: i128 = n_obs as i128 * MICRO as i128;
    let den: i128 = min_n as i128 * 2;
    let raw = match floor_half_up(num, den) {
        Ok(v) => v,
        Err(e) => return Err(BiasError::Quantization(e)),
    };
    proof {
        assert(crate::money::floor_half_up_fits(num as int, den as int));
        assert(raw >= 0) by (nonlinear_arith)
            requires
                raw == (2 * num + den) / (2 * den),
                num >= 0,
                den > 0,
        ;
    }
    let sufficiency: i128 = if raw < MICRO as i128 {
        raw
    } else {
        MICRO as i128
    };
    BiasEstimate::measured(value_micro, n_obs, sufficiency as i64)
}

/// Too few observations yield no value: under `min_n` observations the
/// estimate has no value at all, rather than a value of zero.
pub proof fn law_insufficient_data_is_not_measured(value_micro: i64, n_obs: u32, min_n: u32)
    requires
        0 < min_n,
        n_obs < min_n,
    ensures
        gate_spec(value_micro, n_obs, min_n) == Ok::<BiasEstimate, BiasError>(not_measured_spec()),
        gate_spec(value_micro, n_obs, min_n)->Ok_0.value_micro is None,
{
}

/// With `min_n` or more observations the estimate carries its value and
/// count, and a sufficiency in `[0, 1e6]` that is full from `2·min_n` on.
pub proof fn law_gate_measures_at_min(value_micro: i64, n_obs: u32, min_n: u32)
    requires
        0 < min_n <= n_obs,
    ensures
        gate_spec(value_micro, n_obs, min_n) matches Ok(e) && e.value_micro == Some(value_micro)
            && e.n_obs == n_obs && 0 <= e.sufficiency_micro <= MICRO && (n_obs >= 2 * min_n
            ==> e.sufficiency_micro == MICRO),
{
    let num = n_obs * MICRO;
    let den = 2 * min_n;
    assert((2 * num + den) / (2 * den) >= 0) by (nonlinear_arith)
        requires
            num >= 0,
            den > 0,
    ;
    if n_obs >= 2 * min_n {
        assert(num >= den * MICRO) by (nonlinear_arith)
            requires
                num == n_obs * MICRO,
                den == 2 * min_n,
                n_obs >= 2 * min_n,
        ;
        assert(2 * num + den >= 2 * den * MICRO);
        assert((2 * num + den) / (2 * den) >= MICRO) by (nonlinear_arith)
            requires
                2 * num + den >= 2 * den * MICRO,
                den > 0,
        ;
    }
}

pub const SCHEMA_BLACKBOX_PROFILE_V1: &'static str = "blackbox_profile.v1";
pub const SCHEMA_BLACKBOX_PROJECTION_6D_V1: &'static str = "blackbox_projection.6d.v1";
pub const INSTRUMENT_ID: &'static str = "blackbox_sim";
pub const CALIBRATION_UNCALIBRATED: &'static str = "uncalibrated-instrument";

#[derive(Debug, Clone, PartialEq, Eq)]
pub struct BlackboxProfile {
    pub schema: &'static str,
    /// Truncated fingerprint of the campaign genesis this profile derives
    /// from.
    pub campaign_digest: [u8; 8],
    pub axes: [BiasEstimate; N_AXES],
}

impl BlackboxProfile {
    /// A profile with every axis "not measured".
    pub fn empty(campaign_digest: [u8; 8]) -> (p: Self)
        ensures
            p.schema == SCHEMA_BLACKBOX_PROFILE_V1,
            p.campaign_digest == campaign_digest,
            forall|i: int| 0 <= i < N_AXES ==> #[trigger] p.axes@[i] == not_measured_spec(),
    {
        let na = BiasEstimate::not_measured();
        BlackboxProfile {
            schema: SCHEMA_BLACKBOX_PROFILE_V1,
            campaign_digest,
            axes: [na, na, na, na, na, na],
        }
    }

    pub fn axis(&self, axis: BiasAxis) -> (e: BiasEstimate)
        ensures
            e == self.axes@[lane_spec(axis) as int],
    {
        self.axes[axis.index()]
    }

    pub fn set_axis(&mut self, axis: BiasAxis, estimate: BiasEstimate)
        ensures
            final(self).axes@ == old(self).axes@.update(lane_spec(axis) as int, estimate),
            final(self).schema == old(self).schema,
            final(self).campaign_digest == old(self).campaign_digest,
    {
        self.axes[axis.index()] = estimate;
    }
}

/// Proof token that the known-answer calibration suite passed. It has no
/// production constructor.
#[derive(Debug)]
pub struct CalibrationCertificate {
    sealed: (),
}

impl CalibrationCertificate {
    /// The certificate the known-answer harness holds; not a production
    /// path.
    pub fn test_only() -> (c: Self) {
        CalibrationCertificate { sealed: () }
    }
}

/// Projection onto the interview 6D dimension order: a separate,
/// provenance-tagged instrument surface.
#[derive(Debug, Clone, PartialEq, Eq)]
pub struct Projection6D {
    pub schema: &'static str,
    pub instrument: &'static str,
    pub scores_micro: [Option<i64>; 6],
    pub calibration: &'static str,
}

/// The all-N/A projection.
pub open spec fn projection_is_uncalibrated(p: Projection6D) -> bool {
    &&& p.schema == SCHEMA_BLACKBOX_PROJECTION_6D_V1
    &&& p.instrument == INSTRUMENT_ID
    &&& p.calibration == CALIBRATION_UNCALIBRATED
    &&& forall|i: int| 0 <= i < 6 ==> #[trigger] p.scores_micro@[i] is None
}

/// The only projection reachable without a certificate: all N/A.
pub fn uncalibrated_projection() -> (p: Projection6D)
    ensures
        projection_is_uncalibrated(p),
{
    Projection6D {
        schema: SCHEMA_BLACKBOX_PROJECTION_6D_V1,
        instrument: INSTRUMENT_ID,
        scores_micro: [None, None, None, None, None, None],
        calibration: CALIBRATION_UNCALIBRATED,
    }
}

/// Certificate-gated projection. No projection weights exist before
/// calibration data does, so even the gated path yields the all-N/A
/// surface.
pub fn authoritative_projection(profile: &BlackboxProfile, certificate: &CalibrationCertificate) -> (p:
    Projection6D)
    ensures
        projection_is_uncalibrated(p),
{
    uncalibrated_projection()
}

} // verus!
