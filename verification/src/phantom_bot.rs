//! The fixture-blind calibration player: deterministic policies, one per
//! lane, each carrying its own declared "true" bias, driving a session
//! through the same public phase interface a real player uses. Every
//! decision it returns is a plain `ActionIntent`.
use vstd::prelude::*;
use crate::director::{gamble_in_range, Session};
use crate::firm::{open_positions_spec, MAX_POSITIONS};
use crate::genesis::MAX_SKUS;
use crate::money::MICRO;
use crate::oracle::{gap_spec, pricing_optimality_gap, reference_valuation, revenue_spec};
use crate::firm::MAX_PROJECTS;
use crate::rng::{domain_key, PhiloxStream, SeedDomain, StreamView};
use crate::stimulus::{publish_spec, PlantedStimulus, StimulusView};
use crate::telemetry::{ActionIntent, StimulusKind};
use crate::unit_scale::{next_bits_spec, next_unit_bits, scaled_floor, scaled_floor_spec};

verus! {

/// The SKU every bot prices.
pub const BOT_SKU: u8 = 0;

/// Notional every bot hedges with whenever it holds no open position.
pub const DEFAULT_HEDGE_NOTIONAL_MINOR: i64 = 5_000_000;

/// One bot's declared, tunable ground truth; every field is independent.
#[derive(Debug, Clone, Copy, PartialEq, Eq, Structural)]
pub struct PhantomBotConfig {
    /// Lane 0: accept iff `p·gain >= (1-p)·loss·λ`, λ in micro units.
    pub loss_aversion_lambda_micro: i64,
    /// Lane 1: probability (micro) of closing a position shown at a gain.
    pub disposition_sell_gain_micro: i64,
    /// Lane 1: probability (micro) of closing one shown at a loss.
    pub disposition_sell_loss_micro: i64,
    /// Lane 2: pull of the forecast midpoint toward the shown anchor (micro).
    pub anchor_pull_micro: i64,
    /// Lanes 2 and 3: half-width of every forecast interval, minor units.
    pub forecast_half_width_minor: i64,
    /// Lane 3: probability (micro) of a deliberately mis-centered forecast.
    pub overconfidence_miss_rate_micro: i64,
    /// Lane 4: probability (micro) of continuing a project with no sunk capital.
    pub continue_baseline_micro: i64,
    /// Lane 4: extra probability (micro) of continuing one with sunk capital.
    pub escalation_bias_micro: i64,
    /// Lane 5: constant pricing error, minor units.
    pub baseline_price_error_minor: i64,
    /// Lane 5: extra pricing error while a crisis is on the table.
    pub pressure_price_error_minor: i64,
}

impl PhantomBotConfig {
    /// A rational, unbiased agent on every lane: the negative control.
    pub fn unbiased() -> (c: Self)
        ensures
            c == (PhantomBotConfig {
                loss_aversion_lambda_micro: 1_000_000,
                disposition_sell_gain_micro: 500_000,
                disposition_sell_loss_micro: 500_000,
                anchor_pull_micro: 0,
                forecast_half_width_minor: 50_000_000,
                overconfidence_miss_rate_micro: 0,
                continue_baseline_micro: 500_000,
                escalation_bias_micro: 0,
                baseline_price_error_minor: 0,
                pressure_price_error_minor: 0,
            }),
    {
        PhantomBotConfig {
            loss_aversion_lambda_micro: 1_000_000,
            disposition_sell_gain_micro: 500_000,
            disposition_sell_loss_micro: 500_000,
            anchor_pull_micro: 0,
            forecast_half_width_minor: 50_000_000,
            overconfidence_miss_rate_micro: 0,
            continue_baseline_micro: 500_000,
            escalation_bias_micro: 0,
            baseline_price_error_minor: 0,
            pressure_price_error_minor: 0,
        }
    }
}

/// Division rounding toward zero by a positive divisor, as `i128 /` does.
pub open spec fn div_toward_zero(a: int, b: int) -> int {
    if a >= 0 {
        a / b
    } else {
        -((-a) / b)
    }
}

/// Lane 0's rule: the lottery's expected gain covers its loss-averse
/// expected loss.
pub open spec fn wants_gamble_spec(p: int, gain: int, loss: int, lambda: int) -> bool {
    p * gain >= div_toward_zero((MICRO - p) * loss * lambda, MICRO as int)
}

/// What a player sees of the probes on the table, in table order.
pub open spec fn published(active: Seq<PlantedStimulus>) -> Seq<StimulusView> {
    Seq::new(active.len(), |i: int| publish_spec(active[i]))
}

/// The index of the first view of `kind` at or after `i`, or the length of
/// `vs` when there is none.
pub open spec fn first_from(vs: Seq<StimulusView>, kind: StimulusKind, i: int) -> int
    decreases vs.len() - i,
{
    if i < 0 || i >= vs.len() {
        vs.len() as int
    } else if vs[i].kind == kind {
        i
    } else {
        first_from(vs, kind, i + 1)
    }
}

/// The first disposition window's position and unrealised P&L, when it
/// shows both.
pub open spec fn disposition_answer(vs: Seq<StimulusView>) -> Option<(u32, i64)> {
    let k = first_from(vs, StimulusKind::DispositionWindow, 0);
    if k < vs.len() {
        match (vs[k].position_id, vs[k].unrealised_minor) {
            (Some(p), Some(u)) => Some((p, u)),
            _ => None,
        }
    } else {
        None
    }
}

/// The project of the first sunk-cost pair, when it shows one.
pub open spec fn sunk_answer(vs: Seq<StimulusView>) -> Option<u32> {
    let k = first_from(vs, StimulusKind::SunkCostPair, 0);
    if k < vs.len() {
        vs[k].project_id
    } else {
        None
    }
}

/// The first lottery's offer, gain, loss and win probability, when it shows
/// all four.
pub open spec fn gamble_answer(vs: Seq<StimulusView>) -> Option<(u32, i64, i64, i64)> {
    let k = first_from(vs, StimulusKind::GamblePair, 0);
    if k < vs.len() {
        match (vs[k].offer_id, vs[k].gain_minor, vs[k].loss_minor, vs[k].win_probability_micro) {
            (Some(o), Some(g), Some(l), Some(p)) => Some((o, g, l, p)),
            _ => None,
        }
    } else {
        None
    }
}

pub open spec fn is_forecast_kind(k: StimulusKind) -> bool {
    k == StimulusKind::AnchorProbe || k == StimulusKind::ForecastElicitation
}

/// The index of the first anchored or control forecast probe at or after
/// `i`, or the length of `vs` when there is none.
pub open spec fn first_forecast_from(vs: Seq<StimulusView>, i: int) -> int
    decreases vs.len() - i,
{
    if i < 0 || i >= vs.len() {
        vs.len() as int
    } else if is_forecast_kind(vs[i].kind) {
        i
    } else {
        first_forecast_from(vs, i + 1)
    }
}

/// A crisis countdown is on the table.
pub open spec fn crisis_on_table(vs: Seq<StimulusView>) -> bool {
    exists|i: int| 0 <= i < vs.len() && #[trigger] vs[i].kind == StimulusKind::CrisisCountdown
}

/// Lane 5's price: the optimum plus the baseline error, plus the pressure
/// error under pressure, each sum saturating at `i64::MAX`, and at least 1.
pub open spec fn bot_price(optimum: i64, cfg: PhantomBotConfig, pressure: bool) -> i64 {
    let a = optimum + cfg.baseline_price_error_minor;
    let a1 = if a > i64::MAX { i64::MAX as int } else { a };
    let b = if pressure {
        let s = a1 + cfg.pressure_price_error_minor;
        if s > i64::MAX { i64::MAX as int } else { s }
    } else {
        a1
    };
    if b < 1 { 1 } else { b as i64 }
}

/// The price lane's answer, or `None` when no price can be scored.
pub open spec fn price_outcome(session: Session, cfg: PhantomBotConfig, pressure: bool) -> Option<ActionIntent> {
    match (session.context_spec(), session.demand_spec()) {
        (Some(ctx), Some(d)) => if ctx.firm_params.skus@[BOT_SKU as int].reference_price_minor < 1 {
            None
        } else {
            match gap_spec(d, ctx, BOT_SKU, 1) {
                Ok(g) => Some(ActionIntent::SetPrice {
                    sku: BOT_SKU,
                    tick_price: bot_price(g.optimal_price_minor, cfg, pressure),
                }),
                Err(_) => None,
            }
        },
        _ => None,
    }
}

/// The reference revenue a forecast is centred on, when it can be computed.
pub open spec fn forecast_reference(session: Session) -> Option<i64> {
    match (session.context_spec(), session.demand_spec()) {
        (Some(ctx), Some(d)) => match revenue_spec(ctx.firm_params, session.books_spec().firm@, d, MAX_SKUS as int) {
            Ok(v) => Some(v),
            Err(_) => None,
        },
        _ => None,
    }
}

/// The project already carries committed capital.
pub open spec fn sunk_capital(session: Session, project_id: u32) -> bool {
    let f = session.books_spec().firm@;
    &&& project_id < MAX_PROJECTS
    &&& f.projects[project_id as int] is Some
    &&& f.projects[project_id as int].unwrap().committed_minor > 0
}

/// One draw scaled to micro units, `floor(u · 10^6)`, and the stream after it.
pub open spec fn draw_micro_spec(v: StreamView) -> (int, StreamView) {
    let (b, s) = next_bits_spec(v);
    (scaled_floor_spec(b as nat, 1_000_000) as int, s)
}

/// One draw compared with one half, and the stream after it.
pub open spec fn draw_half_spec(v: StreamView) -> (bool, StreamView) {
    let (b, s) = next_bits_spec(v);
    (b < 0x10_0000_0000_0000, s)
}

/// Lane 1: a position at zero unrealised P&L is kept without a draw; one at
/// a gain or a loss is closed with that side's probability.
pub open spec fn sell_spec(cfg: PhantomBotConfig, v: StreamView, unrealised: i64) -> (bool, StreamView) {
    if unrealised == 0 {
        (false, v)
    } else {
        let t = if unrealised > 0 {
            cfg.disposition_sell_gain_micro
        } else {
            cfg.disposition_sell_loss_micro
        };
        let (d, s) = draw_micro_spec(v);
        (d < t, s)
    }
}

pub open spec fn clamp_micro(x: int) -> int {
    if x < 0 {
        0
    } else if x > MICRO {
        MICRO as int
    } else {
        x
    }
}

/// Lane 4: continue with the baseline probability, raised by the
/// escalation bias when capital is already sunk, clamped to `[0, 1]`.
pub open spec fn continue_spec(cfg: PhantomBotConfig, v: StreamView, has_sunk: bool) -> (bool, StreamView) {
    let raw = if has_sunk {
        cfg.continue_baseline_micro + cfg.escalation_bias_micro
    } else {
        cfg.continue_baseline_micro as int
    };
    let (d, s) = draw_micro_spec(v);
    (d < clamp_micro(raw), s)
}

/// The configured half-width, at least 1.
pub open spec fn configured_half(cfg: PhantomBotConfig) -> int {
    if cfg.forecast_half_width_minor < 1 {
        1
    } else {
        cfg.forecast_half_width_minor as int
    }
}

/// The reference pulled toward the anchor by `anchor_pull_micro`, or the
/// reference itself when the pulled point leaves `i64`.
pub open spec fn pulled_center(cfg: PhantomBotConfig, t: i64, anchor: Option<i64>) -> int {
    let pull = match anchor {
        Some(a) => div_toward_zero((a - t) * cfg.anchor_pull_micro, MICRO as int),
        None => 0,
    };
    let sum = t + pull;
    if sum < i64::MIN || sum > i64::MAX {
        t as int
    } else {
        sum
    }
}

/// An overconfident forecast: centred off the reference by the anchor's
/// distance (or the configured half-width), upward or downward, clamped at
/// zero, with a quarter of that distance as half-width, capped by the
/// configured half-width and by the centre.
pub open spec fn miscentered(cfg: PhantomBotConfig, t: i64, anchor: Option<i64>, up: bool) -> (int, int) {
    let scale = match anchor {
        Some(a) => if a - t < 0 {
            t - a
        } else {
            a - t
        },
        None => configured_half(cfg),
    };
    let shift = if scale > i64::MAX {
        i64::MAX as int
    } else {
        scale
    };
    let moved = if up {
        t + shift
    } else {
        t - shift
    };
    let sat = if moved > i64::MAX {
        i64::MAX as int
    } else if moved < i64::MIN {
        i64::MIN as int
    } else {
        moved
    };
    let c = if sat < 0 {
        0
    } else {
        sat
    };
    let q = shift / 4;
    let h1 = if q < configured_half(cfg) {
        q
    } else {
        configured_half(cfg)
    };
    let h = if h1 < c {
        h1
    } else {
        c
    };
    (c, h)
}

/// `[center − half, center + half]`, each end saturating at the `i64` range.
pub open spec fn interval(center: int, half: int) -> ActionIntent {
    ActionIntent::ForecastInterval {
        lo_minor: (if center - half < i64::MIN {
            i64::MIN as int
        } else {
            center - half
        }) as i64,
        hi_minor: (if center + half > i64::MAX {
            i64::MAX as int
        } else {
            center + half
        }) as i64,
    }
}

/// Lanes 2 and 3: on a draw below the miss rate, a mis-centred interval
/// (a second draw picks the side); otherwise the interval around the pulled
/// reference, its half-width capped by the centre.
pub open spec fn forecast_spec(cfg: PhantomBotConfig, v: StreamView, t: i64, anchor: Option<i64>) -> (
    ActionIntent,
    StreamView,
) {
    let (d, s1) = draw_micro_spec(v);
    if d < cfg.overconfidence_miss_rate_micro {
        let (up, s2) = draw_half_spec(s1);
        let (c, h) = miscentered(cfg, t, anchor, up);
        (interval(c, h), s2)
    } else {
        let p = pulled_center(cfg, t, anchor);
        let cap = if p < 0 {
            0
        } else {
            p
        };
        let h = if configured_half(cfg) < cap {
            configured_half(cfg)
        } else {
            cap
        };
        (interval(p, h), s1)
    }
}

/// With no probe to answer: a hedge while no position is open, else a price,
/// else an abstention.
pub open spec fn fallback(session: Session, cfg: PhantomBotConfig) -> ActionIntent {
    if open_positions_spec(session.books_spec().firm@.positions, MAX_POSITIONS as int).len() == 0 {
        ActionIntent::OpenHedge { instrument: 0, notional_minor: DEFAULT_HEDGE_NOTIONAL_MINOR }
    } else {
        match price_outcome(session, cfg, crisis_on_table(published(session.active_spec()))) {
            Some(i) => i,
            None => ActionIntent::Abstain,
        }
    }
}

/// The decision rule, in priority order, and the bot's stream after it:
/// the first disposition window is answered by lane 1; else the first
/// sunk-cost pair by lane 4; else the first lottery by lane 0, without a
/// draw; else the first forecast probe by lanes 2 and 3, when a reference
/// can be valued; else the fallback, without a draw.
pub open spec fn decision_spec(cfg: PhantomBotConfig, v: StreamView, session: Session) -> (ActionIntent, StreamView) {
    let vs = published(session.active_spec());
    match disposition_answer(vs) {
        Some((position_id, unrealised)) => {
            let (sell, s) = sell_spec(cfg, v, unrealised);
            (if sell {
                ActionIntent::ClosePosition { position_id }
            } else {
                ActionIntent::Abstain
            }, s)
        },
        None => match sunk_answer(vs) {
            Some(project_id) => {
                let (go_on, s) = continue_spec(cfg, v, sunk_capital(session, project_id));
                (if go_on {
                    ActionIntent::ContinueProject { project_id }
                } else {
                    ActionIntent::AbandonProject { project_id }
                }, s)
            },
            None => match gamble_answer(vs) {
                Some((offer_id, gain, loss, p)) => (if wants_gamble_spec(
                    p as int,
                    gain as int,
                    loss as int,
                    cfg.loss_aversion_lambda_micro as int,
                ) {
                    ActionIntent::AcceptOffer { offer_id }
                } else {
                    ActionIntent::DeclineOffer { offer_id }
                }, v),
                None => {
                    let k = first_forecast_from(vs, 0);
                    match forecast_reference(session) {
                        Some(t) => if k < vs.len() {
                            forecast_spec(cfg, v, t, vs[k].anchor_minor)
                        } else {
                            (fallback(session, cfg), v)
                        },
                        None => (fallback(session, cfg), v),
                    }
                },
            },
        },
    }
}

/// A running bot: its declared truth plus its own private decision stream,
/// keyed independently of the campaign.
pub struct PhantomBot {
    config: PhantomBotConfig,
    stream: PhiloxStream,
}

impl PhantomBot {
    pub closed spec fn cfg(&self) -> PhantomBotConfig {
        self.config
    }

    pub closed spec fn wf(&self) -> bool {
        self.stream.wf()
    }

    /// Where the bot's private decision stream stands.
    pub closed spec fn stream_spec(&self) -> StreamView {
        self.stream@
    }

    pub fn new(config: PhantomBotConfig, bot_key: [u32; 2]) -> (b: Self)
        ensures
            b.wf(),
            b.cfg() == config,
            b.stream_spec() == (StreamView {
                key: domain_key(bot_key@, SeedDomain::Bots),
                substream: 0,
                block: 0,
                buf_next: 4,
            }),
    {
        PhantomBot { config, stream: PhiloxStream::new(bot_key, SeedDomain::Bots, 0) }
    }

    pub fn config(&self) -> (c: PhantomBotConfig)
        ensures
            c == self.cfg(),
    {
        self.config
    }

    /// The next draw scaled to micro units, `floor(u · 10^6)`.
    fn draw_micro(&mut self) -> (d: i64)
        requires
            old(self).wf(),
        ensures
            final(self).wf(),
            final(self).cfg() == old(self).cfg(),
            0 <= d <= MICRO,
            (d as int, final(self).stream_spec()) == draw_micro_spec(old(self).stream_spec()),
    {
        let bits = next_unit_bits(&mut self.stream);
        scaled_floor(bits, 1_000_000) as i64
    }

    /// The next draw is below one half.
    fn draw_below_half(&mut self) -> (b: bool)
        requires
            old(self).wf(),
        ensures
            final(self).wf(),
            final(self).cfg() == old(self).cfg(),
            (b, final(self).stream_spec()) == draw_half_spec(old(self).stream_spec()),
    {
        next_unit_bits(&mut self.stream) < 0x10_0000_0000_0000
    }

    pub fn wants_gamble(&self, win_probability_micro: i64, gain_minor: i64, loss_minor: i64) -> (b: bool)
        requires
            0 <= win_probability_micro <= MICRO,
            0 <= gain_minor <= 160_000,
            0 <= loss_minor <= 140_000,
        ensures
            b == wants_gamble_spec(
                win_probability_micro as int,
                gain_minor as int,
                loss_minor as int,
                self.cfg().loss_aversion_lambda_micro as int,
            ),
    {
        let lambda = self.config.loss_aversion_lambda_micro;
        let q: i128 = (MICRO - win_probability_micro) as i128;
        proof {
            assert(0 <= q * (loss_minor as int) <= 1_000_000 * 140_000) by (nonlinear_arith)
                requires
                    0 <= q <= 1_000_000,
                    0 <= loss_minor <= 140_000,
            ;
            assert(-0x8000_0000_0000_0000 * 140_000_000_000 <= q * (loss_minor as int) * (lambda as int)
                <= 0x7fff_ffff_ffff_ffff * 140_000_000_000) by (nonlinear_arith)
                requires
                    0 <= q * (loss_minor as int) <= 140_000_000_000,
                    -0x8000_0000_0000_0000 <= lambda <= 0x7fff_ffff_ffff_ffff,
            ;
            assert(0 <= (win_probability_micro as int) * (gain_minor as int) <= 1_000_000 * 160_000)
                by (nonlinear_arith)
                requires
                    0 <= win_probability_micro <= 1_000_000,
                    0 <= gain_minor <= 160_000,
            ;
        }
        let ev_gain: i128 = win_probability_micro as i128 * gain_minor as i128;
        let weighted: i128 = q * loss_minor as i128 * lambda as i128;
        let ev_loss: i128 = if weighted >= 0 {
            weighted / 1_000_000i128
        } else {
            -((-weighted) / 1_000_000i128)
        };
        ev_gain >= ev_loss
    }

    fn wants_to_sell(&mut self, unrealised_minor: i64) -> (b: bool)
        requires
            old(self).wf(),
        ensures
            final(self).wf(),
            final(self).cfg() == old(self).cfg(),
            (b, final(self).stream_spec()) == sell_spec(old(self).cfg(), old(self).stream_spec(), unrealised_minor),
    {
        let threshold = if unrealised_minor > 0 {
            self.config.disposition_sell_gain_micro
        } else if unrealised_minor < 0 {
            self.config.disposition_sell_loss_micro
        } else {
            return false;
        };
        self.draw_micro() < threshold
    }

    fn wants_to_continue(&mut self, has_sunk: bool) -> (b: bool)
        requires
            old(self).wf(),
        ensures
            final(self).wf(),
            final(self).cfg() == old(self).cfg(),
            (b, final(self).stream_spec()) == continue_spec(old(self).cfg(), old(self).stream_spec(), has_sunk),
    {
        let base = self.config.continue_baseline_micro;
        let raw: i64 = if has_sunk {
            let sum = base as i128 + self.config.escalation_bias_micro as i128;
            if sum > i64::MAX as i128 {
                i64::MAX
            } else if sum < i64::MIN as i128 {
                i64::MIN
            } else {
                sum as i64
            }
        } else {
            base
        };
        let prob = if raw < 0 {
            0
        } else if raw > MICRO {
            MICRO
        } else {
            raw
        };
        self.draw_micro() < prob
    }

    /// Lanes 2 and 3: a forecast interval around the (possibly anchor-pulled)
    /// reference, or, on an overconfident draw, around a point deliberately
    /// off the reference.
    fn forecast(&mut self, true_reference_minor: i64, anchor_minor: Option<i64>) -> (r: ActionIntent)
        requires
            old(self).wf(),
        ensures
            final(self).wf(),
            final(self).cfg() == old(self).cfg(),
            (r, final(self).stream_spec()) == forecast_spec(
                old(self).cfg(),
                old(self).stream_spec(),
                true_reference_minor,
                anchor_minor,
            ),
    {
        let pulled = pull_toward_anchor(&self.config, true_reference_minor, anchor_minor);
        let half = half_width(&self.config);
        let overconfident = self.draw_micro() < self.config.overconfidence_miss_rate_micro;
        if overconfident {
            let up = self.draw_below_half();
            let (c, h) = miscenter(&self.config, true_reference_minor, anchor_minor, up);
            interval_around(c, h)
        } else {
            let cap: i64 = if pulled < 0 {
                0
            } else {
                pulled
            };
            let h = if half < cap {
                half
            } else {
                cap
            };
            interval_around(pulled, h)
        }
    }

    /// Lane 5: the profit-maximising price plus the bot's error, more under
    /// pressure; `None` when no price can be scored.
    fn price(&self, session: &Session, under_pressure: bool) -> (r: Option<ActionIntent>)
        ensures
            r == price_outcome(*session, self.cfg(), under_pressure),
    {
        let ctx = match session.context() {
            Ok(c) => c,
            Err(_) => return None,
        };
        let demand = match session.expected_demand_micro() {
            Some(d) => d,
            None => return None,
        };
        if ctx.firm_params.skus[BOT_SKU as usize].reference_price_minor < 1 {
            return None;
        }
        let optimum = match pricing_optimality_gap(demand, &ctx, BOT_SKU, 1) {
            Ok(g) => g,
            Err(_) => return None,
        };
        let mut price: i128 = optimum.optimal_price_minor as i128 + self.config.baseline_price_error_minor as i128;
        if price > i64::MAX as i128 {
            price = i64::MAX as i128;
        }
        if under_pressure {
            price = price + self.config.pressure_price_error_minor as i128;
            if price > i64::MAX as i128 {
                price = i64::MAX as i128;
            }
        }
        if price < i64::MIN as i128 {
            price = i64::MIN as i128;
        }
        let p = price as i64;
        Some(ActionIntent::SetPrice { sku: BOT_SKU, tick_price: if p < 1 { 1 } else { p } })
    }

    /// One turn's decision, after `observe` and before `submit`: answer the
    /// highest-priority probe on the table (disposition, then sunk cost,
    /// then lottery, then forecast); otherwise open a hedge when none is
    /// open, and price.
    pub fn decide(&mut self, session: &Session) -> (r: ActionIntent)
        requires
            old(self).wf(),
            session.wf(),
        ensures
            final(self).wf(),
            final(self).cfg() == old(self).cfg(),
            (r, final(self).stream_spec()) == decision_spec(old(self).cfg(), old(self).stream_spec(), *session),
    {
        proof {
            session.lemma_active_in_range();
        }
        let views = session.stimulus_views();
        let ghost vs = published(session.active_spec());
        assert(views@ =~= vs);
        let mut under_pressure = false;
        let mut i: usize = 0;
        while i < views.len()
            invariant
                i <= views@.len(),
                under_pressure <==> exists|j: int|
                    0 <= j < i && #[trigger] views@[j].kind == StimulusKind::CrisisCountdown,
            decreases views@.len() - i,
        {
            if views[i].kind == StimulusKind::CrisisCountdown {
                under_pressure = true;
            }
            i = i + 1;
        }
        assert(under_pressure == crisis_on_table(vs));
        match find_kind(&views, StimulusKind::DispositionWindow) {
            Some(k) => {
                match (views[k].position_id, views[k].unrealised_minor) {
                    (Some(position_id), Some(unrealised)) => {
                        assert(disposition_answer(vs) == Some((position_id, unrealised)));
                        return if self.wants_to_sell(unrealised) {
                            ActionIntent::ClosePosition { position_id }
                        } else {
                            ActionIntent::Abstain
                        };
                    },
                    _ => {},
                }
            },
            None => {},
        }
        assert(disposition_answer(vs) is None);
        match find_kind(&views, StimulusKind::SunkCostPair) {
            Some(k) => {
                match views[k].project_id {
                    Some(project_id) => {
                        assert(sunk_answer(vs) == Some(project_id));
                        let has_sunk = match session.books().firm.project(project_id) {
                            Ok(p) => p.committed_minor > 0,
                            Err(_) => false,
                        };
                        return if self.wants_to_continue(has_sunk) {
                            ActionIntent::ContinueProject { project_id }
                        } else {
                            ActionIntent::AbandonProject { project_id }
                        };
                    },
                    None => {},
                }
            },
            None => {},
        }
        assert(sunk_answer(vs) is None);
        match find_kind(&views, StimulusKind::GamblePair) {
            Some(k) => {
                match (views[k].offer_id, views[k].gain_minor, views[k].loss_minor, views[k].win_probability_micro) {
                    (Some(offer_id), Some(gain), Some(loss), Some(p)) => {
                        proof {
                            assert(views@[k as int] == crate::stimulus::publish_spec(session.active_spec()[k as int]));
                            assert(gamble_in_range(session.active_spec()[k as int].params));
                            assert(gamble_answer(vs) == Some((offer_id, gain, loss, p)));
                        }
                        return if self.wants_gamble(p, gain, loss) {
                            ActionIntent::AcceptOffer { offer_id }
                        } else {
                            ActionIntent::DeclineOffer { offer_id }
                        };
                    },
                    _ => {},
                }
            },
            None => {},
        }
        assert(gamble_answer(vs) is None);
        match find_forecast(&views) {
            Some(k) => {
                match (session.context(), session.expected_demand_micro()) {
                    (Ok(ctx), Some(demand)) => {
                        match reference_valuation(demand, &ctx, &session.books().firm) {
                            Ok(reference) => {
                                return self.forecast(reference.expected_revenue_minor, views[k].anchor_minor);
                            },
                            Err(_) => {},
                        }
                    },
                    _ => {},
                }
            },
            None => {},
        }
        if session.books().firm.open_positions().len() == 0 {
            return ActionIntent::OpenHedge { instrument: 0, notional_minor: DEFAULT_HEDGE_NOTIONAL_MINOR };
        }
        match self.price(session, under_pressure) {
            Some(i) => i,
            None => ActionIntent::Abstain,
        }
    }
}

fn half_width(cfg: &PhantomBotConfig) -> (h: i64)
    ensures
        h == configured_half(*cfg),
{
    if cfg.forecast_half_width_minor < 1 {
        1
    } else {
        cfg.forecast_half_width_minor
    }
}

fn pull_toward_anchor(cfg: &PhantomBotConfig, t: i64, anchor_minor: Option<i64>) -> (p: i64)
    ensures
        p == pulled_center(*cfg, t, anchor_minor),
{
    let pull: i128 = match anchor_minor {
        Some(anchor) => {
            let delta: i128 = anchor as i128 - t as i128;
            let a = cfg.anchor_pull_micro;
            proof {
                assert(-0xffff_ffff_ffff_ffff * 0x8000_0000_0000_0000 <= delta * (a as int)
                    <= 0xffff_ffff_ffff_ffff * 0x8000_0000_0000_0000) by (nonlinear_arith)
                    requires
                        -0xffff_ffff_ffff_ffff <= delta <= 0xffff_ffff_ffff_ffff,
                        -0x8000_0000_0000_0000 <= a <= 0x7fff_ffff_ffff_ffff,
                ;
            }
            let prod: i128 = delta * a as i128;
            if prod >= 0 {
                prod / 1_000_000i128
            } else {
                -((-prod) / 1_000_000i128)
            }
        },
        None => 0,
    };
    let sum: i128 = t as i128 + pull;
    if sum < i64::MIN as i128 || sum > i64::MAX as i128 {
        t
    } else {
        sum as i64
    }
}

fn miscenter(cfg: &PhantomBotConfig, t: i64, anchor_minor: Option<i64>, up: bool) -> (ch: (i64, i64))
    ensures
        (ch.0 as int, ch.1 as int) == miscentered(*cfg, t, anchor_minor, up),
        0 <= ch.1,
{
    let half = half_width(cfg);
    let scale: i128 = match anchor_minor {
        Some(anchor) => {
            let d: i128 = anchor as i128 - t as i128;
            if d < 0 {
                -d
            } else {
                d
            }
        },
        None => half as i128,
    };
    let shift: i64 = if scale > i64::MAX as i128 {
        i64::MAX
    } else {
        scale as i64
    };
    let moved: i128 = if up {
        t as i128 + shift as i128
    } else {
        t as i128 - shift as i128
    };
    let sat: i64 = if moved > i64::MAX as i128 {
        i64::MAX
    } else if moved < i64::MIN as i128 {
        i64::MIN
    } else {
        moved as i64
    };
    let c: i64 = if sat < 0 {
        0
    } else {
        sat
    };
    let q = shift / 4;
    let h1 = if q < half {
        q
    } else {
        half
    };
    let h = if h1 < c {
        h1
    } else {
        c
    };
    (c, h)
}

fn interval_around(center: i64, half: i64) -> (r: ActionIntent)
    requires
        0 <= half,
    ensures
        r == interval(center as int, half as int),
{
    let lo_minor: i64 = if (center as i128) - (half as i128) < i64::MIN as i128 {
        i64::MIN
    } else {
        center - half
    };
    let hi_minor: i64 = if (center as i128) + (half as i128) > i64::MAX as i128 {
        i64::MAX
    } else {
        center + half
    };
    ActionIntent::ForecastInterval { lo_minor, hi_minor }
}

/// The index of the first view of `kind`.
fn find_kind(views: &Vec<StimulusView>, kind: StimulusKind) -> (r: Option<usize>)
    ensures
        r == (if first_from(views@, kind, 0) < views@.len() {
            Some(first_from(views@, kind, 0) as usize)
        } else {
            None::<usize>
        }),
        r matches Some(k) ==> k < views@.len() && views@[k as int].kind == kind && k as int == first_from(
            views@,
            kind,
            0,
        ),
{
    let mut i: usize = 0;
    while i < views.len()
        invariant
            i <= views@.len(),
            first_from(views@, kind, 0) == first_from(views@, kind, i as int),
        decreases views@.len() - i,
    {
        if views[i].kind == kind {
            return Some(i);
        }
        i = i + 1;
    }
    None
}

/// The index of the first anchored or control forecast probe.
fn find_forecast(views: &Vec<StimulusView>) -> (r: Option<usize>)
    ensures
        r == (if first_forecast_from(views@, 0) < views@.len() {
            Some(first_forecast_from(views@, 0) as usize)
        } else {
            None::<usize>
        }),
        r matches Some(k) ==> k < views@.len() && k as int == first_forecast_from(views@, 0),
{
    let mut i: usize = 0;
    while i < views.len()
        invariant
            i <= views@.len(),
            first_forecast_from(views@, 0) == first_forecast_from(views@, i as int),
        decreases views@.len() - i,
    {
        if views[i].kind == StimulusKind::AnchorProbe || views[i].kind == StimulusKind::ForecastElicitation {
            return Some(i);
        }
        i = i + 1;
    }
    None
}

/// Two bots with the same configuration whose decision streams stand at the
/// same point answer the same session with the same decision and leave their
/// streams at the same point: a bot's run is reproducible bit for bit.
pub proof fn law_same_bot_same_decision(b1: PhantomBot, b2: PhantomBot, session: Session)
    requires
        b1.cfg() == b2.cfg(),
        b1.stream_spec() == b2.stream_spec(),
    ensures
        decision_spec(b1.cfg(), b1.stream_spec(), session) == decision_spec(b2.cfg(), b2.stream_spec(), session),
{
}

/// Every forecast a bot gives is an interval whose low end does not pass its
/// high end, whatever its configuration and whatever it draws.
pub proof fn law_forecast_intervals_are_ordered(cfg: PhantomBotConfig, v: StreamView, t: i64, anchor: Option<i64>)
    ensures
        forecast_spec(cfg, v, t, anchor).0 matches ActionIntent::ForecastInterval { lo_minor, hi_minor }
            && lo_minor <= hi_minor,
{
}

/// A more loss-averse bot never accepts a lottery a less loss-averse one
/// declines: acceptance is monotone non-increasing in λ.
pub proof fn law_higher_lambda_never_accepts_more(p: int, gain: int, loss: int, l1: int, l2: int)
    requires
        0 <= p <= MICRO,
        0 <= loss,
        l1 <= l2,
        wants_gamble_spec(p, gain, loss, l2),
    ensures
        wants_gamble_spec(p, gain, loss, l1),
{
    let w = (MICRO - p) * loss;
    assert(w >= 0) by (nonlinear_arith)
        requires
            0 <= MICRO - p,
            0 <= loss,
            w == (MICRO - p) * loss,
    ;
    assert(w * l1 <= w * l2) by (nonlinear_arith)
        requires
            w >= 0,
            l1 <= l2,
    ;
    assert((MICRO - p) * loss * l1 == w * l1);
    assert((MICRO - p) * loss * l2 == w * l2);
    let a = w * l1;
    let b = w * l2;
    assert(div_toward_zero(a, MICRO as int) <= div_toward_zero(b, MICRO as int)) by (nonlinear_arith)
        requires
            a <= b,
    {
    }
}

} // verus!
