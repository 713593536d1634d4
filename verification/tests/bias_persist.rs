use blackbox_sim::bias::{
    authoritative_projection, gate_estimate, uncalibrated_projection, BiasAxis, BiasError,
    BiasEstimate, BlackboxProfile, CalibrationCertificate, CALIBRATION_UNCALIBRATED, INSTRUMENT_ID,
    N_AXES, SCHEMA_BLACKBOX_PROFILE_V1, SCHEMA_BLACKBOX_PROJECTION_6D_V1,
};
use blackbox_sim::money::MICRO;
use blackbox_sim::persist::{
    DecisionBatch, DecisionSink, FlushReceipt, NullSink, BLACKBOX_LOG_SCHEMA_V1,
};

#[test]
fn lane_numbers_frozen() {
    assert_eq!(BiasAxis::LossAversion.lane(), 0);
    assert_eq!(BiasAxis::DispositionEffect.lane(), 1);
    assert_eq!(BiasAxis::Anchoring.lane(), 2);
    assert_eq!(BiasAxis::Overconfidence.lane(), 3);
    assert_eq!(BiasAxis::EscalationCommitment.lane(), 4);
    assert_eq!(BiasAxis::PressureDegradation.lane(), 5);
    assert_eq!(BiasAxis::all().len(), N_AXES);
}

#[test]
fn insufficient_is_none_not_zero() {
    let e = match gate_estimate(123_456, 5, 12) {
        Ok(v) => v,
        Err(err) => unreachable!("gate failed: {err:?}"),
    };
    assert_eq!(e, BiasEstimate::not_measured());
    assert_eq!(e.value_micro, None);
}

#[test]
fn gate_at_min_measures_with_half_sufficiency() {
    let e = match gate_estimate(-250_000, 12, 12) {
        Ok(v) => v,
        Err(err) => unreachable!("gate failed: {err:?}"),
    };
    assert_eq!(e.value_micro, Some(-250_000));
    assert_eq!(e.n_obs, 12);
    assert_eq!(e.sufficiency_micro, 500_000);
    let full = match gate_estimate(1, 24, 12) {
        Ok(v) => v,
        Err(err) => unreachable!("gate failed: {err:?}"),
    };
    assert_eq!(full.sufficiency_micro, MICRO);
}

#[test]
fn sufficiency_rounds_half_up_between_the_gate_and_saturation() {
    // 13 / 24 = 0.5416666... -> 541_667
    let e = match gate_estimate(0, 13, 12) {
        Ok(v) => v,
        Err(err) => unreachable!("gate failed: {err:?}"),
    };
    assert_eq!(e.sufficiency_micro, 541_667);
}

#[test]
fn zero_min_gate_is_rejected() {
    assert!(matches!(gate_estimate(0, 100, 0), Err(BiasError::MeasuredWithoutObservations)));
}

#[test]
fn measured_validates_ranges() {
    assert!(matches!(BiasEstimate::measured(0, 0, 0), Err(BiasError::MeasuredWithoutObservations)));
    assert!(matches!(
        BiasEstimate::measured(0, 1, MICRO + 1),
        Err(BiasError::SufficiencyOutOfRange { .. })
    ));
    assert!(matches!(
        BiasEstimate::measured(0, 1, -1),
        Err(BiasError::SufficiencyOutOfRange { .. })
    ));
}

#[test]
fn empty_profile_is_all_not_measured() {
    let p = BlackboxProfile::empty([9; 8]);
    assert_eq!(p.schema, SCHEMA_BLACKBOX_PROFILE_V1);
    for axis in BiasAxis::all() {
        assert_eq!(p.axis(axis), BiasEstimate::not_measured());
    }
}

#[test]
fn set_axis_touches_one_lane_only() {
    let mut p = BlackboxProfile::empty([1; 8]);
    let m = match BiasEstimate::measured(42, 3, 10) {
        Ok(v) => v,
        Err(err) => unreachable!("measured failed: {err:?}"),
    };
    p.set_axis(BiasAxis::Anchoring, m);
    for axis in BiasAxis::all() {
        if axis == BiasAxis::Anchoring {
            assert_eq!(p.axis(axis), m);
        } else {
            assert_eq!(p.axis(axis), BiasEstimate::not_measured());
        }
    }
}

#[test]
fn uncalibrated_projection_is_all_na() {
    let proj = uncalibrated_projection();
    assert_eq!(proj.schema, SCHEMA_BLACKBOX_PROJECTION_6D_V1);
    assert_eq!(proj.instrument, INSTRUMENT_ID);
    assert_eq!(proj.calibration, CALIBRATION_UNCALIBRATED);
    assert!(proj.scores_micro.iter().all(Option::is_none));
}

#[test]
fn certificate_gated_projection_stays_na_in_phase0() {
    let cert = CalibrationCertificate::test_only();
    let mut profile = BlackboxProfile::empty([1; 8]);
    let measured = match gate_estimate(300_000, 20, 10) {
        Ok(v) => v,
        Err(err) => unreachable!("gate failed: {err:?}"),
    };
    profile.set_axis(BiasAxis::LossAversion, measured);
    let proj = authoritative_projection(&profile, &cert);
    assert!(proj.scores_micro.iter().all(Option::is_none));
}

#[test]
fn an_empty_batch_is_recognisable() {
    let batch = DecisionBatch {
        schema: BLACKBOX_LOG_SCHEMA_V1,
        campaign_fingerprint: [0; 32],
        events: &[],
        stimuli: &[],
    };
    assert!(batch.is_empty());
    assert_eq!(NullSink.persist(&batch), Ok(FlushReceipt { events_persisted: 0, stimuli_persisted: 0 }));
}

#[test]
fn a_sink_can_only_be_written_to() {
    // The sink interface offers exactly one method, and it writes; any sink fits it.
    fn accepts_any_sink(_: &mut dyn DecisionSink) {}
    let mut sink = NullSink;
    accepts_any_sink(&mut sink);
    assert_eq!(FlushReceipt::default(), FlushReceipt { events_persisted: 0, stimuli_persisted: 0 });
}
