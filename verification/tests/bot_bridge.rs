use blackbox_sim::bridge::{
    check_anchor, check_pool, pool_digest, require_sealed, AnchoredDecision, BridgeError,
    ReplayInput, MAX_POOLED_CAMPAIGNS,
};
use blackbox_sim::director::{DirectorError, Session, CAMPAIGN_TICKS};
use blackbox_sim::fsm::SessionState;
use blackbox_sim::genesis::{Difficulty, GenesisRequest};
use blackbox_sim::market::{MarketTickView, Regime};
use blackbox_sim::phantom_bot::{PhantomBot, PhantomBotConfig};
use blackbox_sim::snapshot::KernelState;
use blackbox_sim::telemetry::ActionIntent;
use sha2::{Digest, Sha256};

fn or_die<T, E: std::fmt::Debug>(r: Result<T, E>) -> T {
    match r {
        Ok(v) => v,
        Err(e) => unreachable!("bot test setup failed: {e:?}"),
    }
}

fn request(campaign_index: u32) -> GenesisRequest {
    GenesisRequest {
        scenario_id: 7,
        difficulty: Difficulty::Standard,
        campaign_index,
        created_date: "2026-07-27".to_string(),
    }
}

fn tick_view(t: u32) -> MarketTickView {
    MarketTickView {
        tick: t,
        regime: Regime::Calm,
        commodity_price_minor: 5_000 + i64::from(t % 4) * 25,
        equity_index_centi: 1_000_000 + i64::from(t % 9) * 4_000 - 16_000,
        demand_index_micro: 1_000_000,
        rate_bp: 300,
        jump_occurred: false,
    }
}

fn kernel(t: u32) -> KernelState {
    KernelState { tick: t, regime: 0, market_state: [u64::from(t), 1, 2, 3], rng_position: [u64::from(t); 8] }
}

fn firm_json(s: &Session) -> Vec<u8> {
    format!("{:?}", s.books().firm).into_bytes()
}

fn drive_one_campaign(config: PhantomBotConfig, bot_key: [u32; 2], campaign_index: u32) -> Session {
    let mut session = or_die(Session::start(request(campaign_index), kernel(0)));
    let mut bot = PhantomBot::new(config, bot_key);
    while session.turns_completed() < CAMPAIGN_TICKS {
        let t = session.turns_completed() + 1;
        or_die(session.observe(tick_view(t), kernel(t), Some(1_000_000)));
        let intent = bot.decide(&session);
        let fj = firm_json(&session);
        if session.submit(intent, None, &fj).is_err() {
            or_die(session.submit_timeout_default(&fj));
        }
        or_die(session.execute());
        let fj = firm_json(&session);
        or_die(session.settle(&fj));
        let fj = firm_json(&session);
        or_die(session.report(&fj));
    }
    session
}

#[test]
fn a_bot_campaign_runs_to_completion_under_every_config() {
    let s = drive_one_campaign(PhantomBotConfig::unbiased(), [1, 1], 0);
    assert_eq!(s.turns_completed(), CAMPAIGN_TICKS);
    assert_eq!(s.state(), SessionState::Sealed);
}

#[test]
fn two_runs_of_the_same_bot_and_campaign_are_bit_identical() {
    let a = drive_one_campaign(PhantomBotConfig::unbiased(), [7, 9], 3);
    let b = drive_one_campaign(PhantomBotConfig::unbiased(), [7, 9], 3);
    assert_eq!(or_die(a.state_digest(&firm_json(&a))), or_die(b.state_digest(&firm_json(&b))));
    assert_eq!(a.decisions(), b.decisions());
}

#[test]
fn a_different_bot_key_diverges_the_decision_stream() {
    let a = drive_one_campaign(PhantomBotConfig::unbiased(), [1, 1], 5);
    let b = drive_one_campaign(PhantomBotConfig::unbiased(), [2, 2], 5);
    assert_ne!(
        a.decisions().iter().map(|d| d.intent).collect::<Vec<_>>(),
        b.decisions().iter().map(|d| d.intent).collect::<Vec<_>>(),
    );
}

#[test]
fn a_loss_averse_bot_declines_more_often_than_a_risk_neutral_one() {
    let neutral = PhantomBotConfig { loss_aversion_lambda_micro: 1_000_000, ..PhantomBotConfig::unbiased() };
    let averse = PhantomBotConfig { loss_aversion_lambda_micro: 3_000_000, ..PhantomBotConfig::unbiased() };
    let a = drive_one_campaign(neutral, [4, 4], 1);
    let b = drive_one_campaign(averse, [4, 4], 1);
    let declines = |s: &Session| {
        s.decisions().iter().filter(|d| matches!(d.intent, ActionIntent::DeclineOffer { .. })).count()
    };
    assert!(declines(&b) >= declines(&a), "a higher lambda must never accept strictly more gambles");
}

#[test]
fn the_lottery_rule_weighs_losses_by_lambda() {
    let neutral = PhantomBot::new(PhantomBotConfig::unbiased(), [1, 1]);
    assert!(neutral.wants_gamble(500_000, 100_000, 100_000));
    assert!(!neutral.wants_gamble(500_000, 99_999, 100_000));
    let averse = PhantomBot::new(
        PhantomBotConfig { loss_aversion_lambda_micro: 2_000_000, ..PhantomBotConfig::unbiased() },
        [1, 1],
    );
    assert!(!averse.wants_gamble(500_000, 150_000, 100_000));
    assert!(averse.wants_gamble(500_000, 150_000, 70_000));
    assert_eq!(averse.config().loss_aversion_lambda_micro, 2_000_000);
}

#[test]
fn empty_pool_is_rejected() {
    assert_eq!(check_pool(&[]), Err(BridgeError::EmptyPool));
}

#[test]
fn oversized_pool_is_rejected() {
    let one = ReplayInput { request: request(0), decisions: vec![] };
    let many = vec![one; MAX_POOLED_CAMPAIGNS + 1];
    assert_eq!(
        check_pool(&many),
        Err(BridgeError::PoolTooLarge { n: MAX_POOLED_CAMPAIGNS + 1, max: MAX_POOLED_CAMPAIGNS })
    );
    assert_eq!(check_pool(&many[..MAX_POOLED_CAMPAIGNS]), Ok(()));
}

#[test]
fn an_incomplete_campaign_is_not_sealed_and_is_rejected() {
    let half = or_die(Session::start(request(3), kernel(0)));
    assert_ne!(half.state(), SessionState::Sealed);
    assert!(matches!(
        require_sealed(half.state(), 0),
        Err(BridgeError::CampaignNotSealed { campaign_index: 0, .. })
    ));
    assert_eq!(require_sealed(SessionState::Sealed, 0), Ok(()));
}

#[test]
fn a_tampered_digest_fail_closes_with_replay_divergence() {
    let entry = AnchoredDecision { tick: 4, intent: ActionIntent::Abstain, expected_digest: [1, 2, 3, 4, 5, 6, 7, 8] };
    assert_eq!(check_anchor(4, [1, 2, 3, 4, 5, 6, 7, 8], &entry, 0, 3), Ok(()));
    assert_eq!(
        check_anchor(4, [1, 2, 3, 4, 5, 6, 7, 9], &entry, 0, 3),
        Err(BridgeError::ReplayDivergence { campaign_index: 0, at_index: 3 })
    );
    assert_eq!(
        check_anchor(5, [1, 2, 3, 4, 5, 6, 7, 8], &entry, 0, 3),
        Err(BridgeError::Replay(DirectorError::MalformedLog { at_index: 3 }))
    );
}

#[test]
fn pooling_two_campaigns_changes_the_digest() {
    let a = [7u8; 32];
    let b = [9u8; 32];
    let one = pool_digest(&[a]);
    let two = pool_digest(&[a, b]);
    assert_ne!(one, two, "adding a campaign must change the pool digest");
    assert_eq!(one, pool_digest(&[a]));
    assert_ne!(pool_digest(&[a, b]), pool_digest(&[b, a]));
}

#[test]
fn the_pool_digest_is_the_prefix_of_sha256_over_the_framed_fingerprints() {
    let fps = [[1u8; 32], [2u8; 32]];
    let mut h = Sha256::new();
    h.update(b"blackbox_profile.pool.v1");
    h.update(2u64.to_le_bytes());
    h.update([1u8; 32]);
    h.update([2u8; 32]);
    let full = h.finalize();
    assert_eq!(pool_digest(&fps).to_vec(), full[..8].to_vec());
}
