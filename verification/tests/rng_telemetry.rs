use blackbox_sim::fsm::TurnPhase;
use blackbox_sim::rng::{campaign_key_from_seed, philox4x32_10, PhiloxStream, SeedDomain};
use blackbox_sim::telemetry::{
    ActionIntent, DecisionEvent, DecisionRecord, EventLog, StimulusKind, TelemetryError,
    EVENT_LOG_CAPACITY,
};

fn ok<T, E: std::fmt::Debug>(r: Result<T, E>) -> T {
    match r {
        Ok(v) => v,
        Err(e) => unreachable!("test setup failed: {e:?}"),
    }
}

#[test]
fn philox_known_answer_zero() {
    let out = philox4x32_10([0, 0, 0, 0], [0, 0]);
    assert_eq!(out, [0x6627_e8d5, 0xe169_c58d, 0xbc57_ac4c, 0x9b00_dbd8]);
}

#[test]
fn philox_known_answer_max() {
    let out = philox4x32_10(
        [0xffff_ffff, 0xffff_ffff, 0xffff_ffff, 0xffff_ffff],
        [0xffff_ffff, 0xffff_ffff],
    );
    assert_eq!(out, [0x408f_276d, 0x41c8_3b0e, 0xa20b_c7c6, 0x6d54_51fd]);
}

#[test]
fn philox_known_answer_pi_digits() {
    let out = philox4x32_10(
        [0x243f_6a88, 0x85a3_08d3, 0x1319_8a2e, 0x0370_7344],
        [0xa409_3822, 0x299f_31d0],
    );
    assert_eq!(out, [0xd16c_fe09, 0x94fd_cceb, 0x5001_e420, 0x2412_6ea1]);
}

#[test]
fn stream_is_deterministic() {
    let key = campaign_key_from_seed([1, 2, 3, 4, 5, 6, 7, 8]);
    let mut a = PhiloxStream::new(key, SeedDomain::Market, 7);
    let mut b = PhiloxStream::new(key, SeedDomain::Market, 7);
    let seq_a: Vec<u32> = (0..16).map(|_| a.next_u32()).collect();
    let seq_b: Vec<u32> = (0..16).map(|_| b.next_u32()).collect();
    assert_eq!(seq_a, seq_b);
}

#[test]
fn domain_and_substream_separation() {
    let key = campaign_key_from_seed([9, 9, 9, 9, 9, 9, 9, 9]);
    let mut market = PhiloxStream::new(key, SeedDomain::Market, 0);
    let mut events = PhiloxStream::new(key, SeedDomain::Events, 0);
    let mut market_sub1 = PhiloxStream::new(key, SeedDomain::Market, 1);
    let first_market = market.next_u64();
    assert_ne!(first_market, events.next_u64());
    assert_ne!(first_market, market_sub1.next_u64());
}

#[test]
fn seek_block_random_access() {
    let key = campaign_key_from_seed([11, 22, 33, 44, 55, 66, 77, 88]);
    let mut linear = PhiloxStream::new(key, SeedDomain::Stimuli, 3);
    let _skip: Vec<u32> = (0..4).map(|_| linear.next_u32()).collect();
    let block1: Vec<u32> = (0..4).map(|_| linear.next_u32()).collect();
    let mut seeker = PhiloxStream::new(key, SeedDomain::Stimuli, 3);
    seeker.seek_block(1);
    let replay: Vec<u32> = (0..4).map(|_| seeker.next_u32()).collect();
    assert_eq!(block1, replay);
    assert_eq!(seeker.position(), (2, 4));
}

#[test]
fn the_campaign_key_is_the_seed_read_little_endian() {
    assert_eq!(campaign_key_from_seed([1, 2, 3, 4, 5, 6, 7, 8]), [0x0403_0201, 0x0807_0605]);
}

#[test]
fn a_u64_is_two_u32_words_low_first() {
    let key = campaign_key_from_seed([3; 8]);
    let mut a = PhiloxStream::new(key, SeedDomain::Genesis, 2);
    let mut b = PhiloxStream::new(key, SeedDomain::Genesis, 2);
    let lo = u64::from(a.next_u32());
    let hi = u64::from(a.next_u32());
    assert_eq!(b.next_u64(), (hi << 32) | lo);
}

fn record(tick: u32) -> DecisionRecord {
    DecisionRecord {
        tick,
        phase: TurnPhase::Decide,
        action: ActionIntent::Abstain,
        stimulus: None,
        latency_ms: Some(420),
        forced_default: false,
        state_digest: [7; 8],
    }
}

#[test]
fn record_assigns_monotonic_seq() {
    let mut log = ok(EventLog::new());
    for expected in 0..8u64 {
        let seq = ok(log.record(record(expected as u32)));
        assert_eq!(seq, expected);
    }
    assert_eq!(log.next_seq(), 8);
    assert_eq!(log.len(), 8);
}

#[test]
fn full_log_rejects_and_preserves_state() {
    let mut log = ok(EventLog::new());
    for tick in 0..EVENT_LOG_CAPACITY as u32 {
        let _ = ok(log.record(record(tick)));
    }
    assert!(log.is_full());
    let before_seq = log.next_seq();
    assert!(matches!(log.record(record(9_999)), Err(TelemetryError::LogFull)));
    assert_eq!(log.next_seq(), before_seq, "seq must not advance on reject");
    let drained = log.drain_for_flush();
    assert_eq!(drained.len(), EVENT_LOG_CAPACITY);
    assert!(matches!(drained.first(), Some(DecisionEvent { seq: 0, .. })));
    let seq = ok(log.record(record(1)));
    assert_eq!(seq, EVENT_LOG_CAPACITY as u64);
}

#[test]
fn stimulus_kind_ids_frozen() {
    assert_eq!(StimulusKind::GamblePair as u8, 0);
    assert_eq!(StimulusKind::AnchorProbe as u8, 1);
    assert_eq!(StimulusKind::ForecastElicitation as u8, 2);
    assert_eq!(StimulusKind::SunkCostPair as u8, 3);
    assert_eq!(StimulusKind::CrisisCountdown as u8, 4);
    assert_eq!(StimulusKind::DispositionWindow as u8, 5);
    assert_eq!(StimulusKind::DispositionWindow.id(), 5);
}

#[test]
fn decision_event_fits_memory_budget() {
    assert!(std::mem::size_of::<DecisionEvent>() <= 128);
}
