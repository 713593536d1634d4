//! CampaignGenesis: the frozen world artifact.
//!
//! All world parameters are drawn once from the content-derived seed
//! (SHA-256 of the canonical request; no OS entropy, no wall clock beyond the
//! explicit `created_date` field) and frozen behind a SHA-256 fingerprint
//! computed before construction.
//!
//! The draw order of parameters is a frozen contract: reordering draws
//! silently changes every campaign in the world. Append new draws at the end
//! only.
use crate::digest::{
    decimal, prefix8, push_bytes, push_decimal, push_signed_decimal, sha256, sha256_spec,
    signed_decimal, truncate8,
};
use crate::money::{floor_half_up, floor_half_up_spec, i64_fits};
use crate::rng::{
    campaign_key_from_seed, domain_key, le_word, view_next_u32, PhiloxStream, SeedDomain,
    StreamView,
};
use crate::genesis_json::{firm_json, market_json, push_firm_json, push_market_json};
use vstd::prelude::*;
use vstd::utf8::encode_utf8;

verus! {

pub const GENESIS_SCHEMA: &'static str = "bxs.genesis.v1";

#[derive(Debug, Clone, Copy, PartialEq, Eq, Structural)]
pub enum Difficulty {
    Standard,
    Hard,
}

pub open spec fn difficulty_wire(d: Difficulty) -> u8 {
    match d {
        Difficulty::Standard => 0,
        Difficulty::Hard => 1,
    }
}

impl Difficulty {
    /// The frozen wire id.
    pub fn wire(self) -> (v: u8)
        ensures
            v == difficulty_wire(self),
    {
        match self {
            Difficulty::Standard => 0,
            Difficulty::Hard => 1,
        }
    }
}

#[derive(Debug, Clone, PartialEq, Eq)]
pub struct GenesisRequest {
    pub scenario_id: u32,
    pub difficulty: Difficulty,
    pub campaign_index: u32,
    /// Strict `YYYY-MM-DD`; validated, never read from the system clock.
    pub created_date: String,
}

#[derive(Debug, Clone, Copy, PartialEq, Eq, Structural)]
pub enum GenesisError {
    InvalidDate,
    Serialization,
    Overflow,
    FingerprintMismatch,
}

/// Commodity: Schwartz one-factor O-U in log space.
#[derive(Debug, Clone, Copy, PartialEq, Eq, Structural)]
pub struct CommodityParams {
    pub kappa_micro: i64,
    pub theta_log_micro: i64,
    pub sigma_calm_micro: i64,
    pub sigma_stress_micro: i64,
}

/// Equity index: drift + regime vol + Merton jumps (jump params separate).
#[derive(Debug, Clone, Copy, PartialEq, Eq, Structural)]
pub struct EquityParams {
    pub drift_micro: i64,
    pub sigma_calm_micro: i64,
    pub sigma_stress_micro: i64,
}

/// Vasicek short rate, basis-point space.
#[derive(Debug, Clone, Copy, PartialEq, Eq, Structural)]
pub struct RateParams {
    pub a_micro: i64,
    pub b_bp: i64,
    pub sigma_bp_micro: i64,
}

/// Demand: triangular seasonal shape x AR(1) multiplicative shock.
#[derive(Debug, Clone, Copy, PartialEq, Eq, Structural)]
pub struct DemandParams {
    pub phi_micro: i64,
    pub sigma_micro: i64,
    pub season_amp_micro: i64,
}

#[derive(Debug, Clone, Copy, PartialEq, Eq, Structural)]
pub struct RegimeParams {
    pub p_calm_to_stress_micro: i64,
    pub p_stress_to_calm_micro: i64,
}

#[derive(Debug, Clone, Copy, PartialEq, Eq, Structural)]
pub struct JumpParams {
    pub intensity_stress_micro: i64,
    pub mu_micro: i64,
    pub sigma_micro: i64,
}

#[derive(Debug, Clone, Copy, PartialEq, Eq, Structural)]
pub struct MarketParams {
    pub commodity: CommodityParams,
    pub equity: EquityParams,
    pub rate: RateParams,
    pub demand: DemandParams,
    pub regime: RegimeParams,
    pub jump: JumpParams,
    pub corr_commodity_equity_micro: i64,
}

/// Product lines the firm operates. Fixed capacity.
pub const MAX_SKUS: usize = 3;

/// One product line. `cost_multiplier_micro` maps the market commodity price
/// to this line's procurement cost.
#[derive(Debug, Clone, Copy, PartialEq, Eq, Structural)]
pub struct SkuParams {
    pub base_units_per_tick: i64,
    pub reference_price_minor: i64,
    pub cost_multiplier_micro: i64,
}

/// The firm's frozen operating and financing constants. Rates are quarterly
/// basis points.
#[derive(Debug, Clone, Copy, PartialEq, Eq)]
pub struct FirmParams {
    pub skus: [SkuParams; MAX_SKUS],
    pub opening_capital_minor: i64,
    pub depreciation_rate_bp: u32,
    pub tax_rate_bp: u32,
    pub senior_rate_bp: u32,
    pub mezz_rate_bp: u32,
}

// Calibrated draw ranges (micro units unless noted). Structure-frozen;
// changing a range is a specification amendment, not a tweak.
pub const KAPPA: (i64, i64) = (50_000, 400_000);
/// ln(5000 minor) ~ 8.517: commodity long-run level around 50.00 CRD.
pub const THETA_LOG: (i64, i64) = (8_400_000, 8_700_000);
pub const SIGMA_CALM: (i64, i64) = (10_000, 60_000);
/// Stress multiplier x1e6: 1.5 to 3.0.
pub const STRESS_MULT: (i64, i64) = (1_500_000, 3_000_000);
pub const EQ_DRIFT: (i64, i64) = (0, 4_000);
pub const EQ_SIGMA_CALM: (i64, i64) = (15_000, 45_000);
pub const RATE_A: (i64, i64) = (20_000, 120_000);
pub const RATE_B_BP: (i64, i64) = (50, 600);
/// 2 to 12 bp x1e6.
pub const RATE_SIGMA_BP: (i64, i64) = (2_000_000, 12_000_000);
pub const DEMAND_PHI: (i64, i64) = (700_000, 950_000);
pub const DEMAND_SIGMA: (i64, i64) = (50_000, 200_000);
pub const SEASON_AMP: (i64, i64) = (50_000, 200_000);
pub const P_CALM_TO_STRESS: (i64, i64) = (20_000, 80_000);
pub const P_STRESS_TO_CALM: (i64, i64) = (100_000, 300_000);
pub const JUMP_INTENSITY: (i64, i64) = (20_000, 100_000);
pub const JUMP_MU: (i64, i64) = (-80_000, -20_000);
pub const JUMP_SIGMA: (i64, i64) = (30_000, 90_000);
pub const CORR: (i64, i64) = (-300_000, 600_000);
// Firm block, appended after the market block.
pub const BASE_UNITS: (i64, i64) = (800, 2_500);
/// 60.00 to 140.00 CRD per unit.
pub const REFERENCE_PRICE: (i64, i64) = (6_000, 14_000);
/// Commodity price to unit cost, x1e6: 0.60 to 1.10.
pub const COST_MULTIPLIER: (i64, i64) = (600_000, 1_100_000);
/// 500,000 to 1,500,000 CRD of opening equity.
pub const OPENING_CAPITAL: (i64, i64) = (50_000_000, 150_000_000);
/// Quarterly depreciation on gross PPE: 2.5% to 6.25%.
pub const DEPRECIATION_BP: (i64, i64) = (250, 625);
pub const TAX_BP: (i64, i64) = (2_000, 3_500);
/// Quarterly coupons: senior 0.75% to 2%, mezzanine strictly above it.
pub const SENIOR_RATE_BP: (i64, i64) = (75, 200);
pub const MEZZ_SPREAD_BP: (i64, i64) = (150, 300);

#[derive(Debug, Clone, PartialEq, Eq)]
pub struct CampaignGenesis {
    pub schema: &'static str,
    pub request: GenesisRequest,
    pub campaign_key: [u32; 2],
    pub params: MarketParams,
    pub firm: FirmParams,
    /// SHA-256 over (canonical request, canonical params JSON, canonical firm
    /// JSON), computed before construction.
    pub fingerprint: [u8; 32],
}

pub open spec fn is_digit(b: u8) -> bool {
    48 <= b <= 57
}

pub open spec fn digit_value(b: u8) -> int {
    b - 48
}

/// A strict `YYYY-MM-DD` with month in 1..=12 and day in 1..=31.
pub open spec fn date_ok(b: Seq<u8>) -> bool {
    &&& b.len() == 10
    &&& forall|i: int|
        0 <= i < 10 ==> (if i == 4 || i == 7 {
            #[trigger] b[i] == 45
        } else {
            is_digit(b[i])
        })
    &&& 1 <= digit_value(b[5]) * 10 + digit_value(b[6]) <= 12
    &&& 1 <= digit_value(b[8]) * 10 + digit_value(b[9]) <= 31
}

pub fn validate_date(date: &str) -> (r: Result<(), GenesisError>)
    ensures
        date_ok(encode_utf8(date@)) ==> r is Ok,
        !date_ok(encode_utf8(date@)) ==> r == Err::<(), GenesisError>(GenesisError::InvalidDate),
{
    let bytes = date.as_bytes();
    if bytes.len() != 10 {
        return Err(GenesisError::InvalidDate);
    }
    let mut i: usize = 0;
    while i < 10
        invariant
            bytes@ == encode_utf8(date@),
            bytes@.len() == 10,
            i <= 10,
            forall|j: int|
                0 <= j < i ==> (if j == 4 || j == 7 {
                    #[trigger] bytes@[j] == 45
                } else {
                    is_digit(bytes@[j])
                }),
        decreases 10 - i,
    {
        let b = bytes[i];
        let want_dash = i == 4 || i == 7;
        if want_dash != (b == 45u8) || (!want_dash && !(48u8 <= b && b <= 57u8)) {
            return Err(GenesisError::InvalidDate);
        }
        i = i + 1;
    }
    let month: i32 = (bytes[5] - 48) as i32 * 10 + (bytes[6] - 48) as i32;
    let day: i32 = (bytes[8] - 48) as i32 * 10 + (bytes[9] - 48) as i32;
    if !(1 <= month && month <= 12) || !(1 <= day && day <= 31) {
        return Err(GenesisError::InvalidDate);
    }
    Ok(())
}

/// `bxs.genesis.v1|{scenario}|{difficulty}|{campaign}|{date}` as bytes.
pub open spec fn canonical_spec(req: GenesisRequest) -> Seq<u8> {
    encode_utf8(GENESIS_SCHEMA@) + seq![124u8] + decimal(req.scenario_id as nat) + seq![124u8]
        + decimal(difficulty_wire(req.difficulty) as nat) + seq![124u8] + decimal(
        req.campaign_index as nat,
    ) + seq![124u8] + encode_utf8(req.created_date@)
}

pub fn canonical_request_bytes(req: &GenesisRequest) -> (r: Result<Vec<u8>, GenesisError>)
    ensures
        !date_ok(encode_utf8(req.created_date@)) ==> r == Err::<Vec<u8>, GenesisError>(
            GenesisError::InvalidDate,
        ),
        date_ok(encode_utf8(req.created_date@)) ==> (r matches Ok(v) && v@ == canonical_spec(
            *req,
        )),
{
    let date = req.created_date.as_str();
    match validate_date(date) {
        Ok(()) => {},
        Err(e) => return Err(e),
    }
    let mut out: Vec<u8> = Vec::new();
    push_bytes(&mut out, GENESIS_SCHEMA.as_bytes());
    out.push(124u8);
    push_decimal(&mut out, req.scenario_id as u64);
    out.push(124u8);
    push_decimal(&mut out, req.difficulty.wire() as u64);
    out.push(124u8);
    push_decimal(&mut out, req.campaign_index as u64);
    out.push(124u8);
    push_bytes(&mut out, date.as_bytes());
    assert(out@ =~= canonical_spec(*req));
    Ok(out)
}

/// The campaign seed: the first eight bytes of SHA-256 of the canonical request.
pub open spec fn seed_spec(req: GenesisRequest) -> Seq<u8> {
    prefix8(sha256_spec(canonical_spec(req)))
}

/// Content-derived campaign seed: first 8 bytes of SHA-256(canonical).
pub fn derive_campaign_seed(req: &GenesisRequest) -> (r: Result<[u8; 8], GenesisError>)
    ensures
        !date_ok(encode_utf8(req.created_date@)) ==> r == Err::<[u8; 8], GenesisError>(
            GenesisError::InvalidDate,
        ),
        date_ok(encode_utf8(req.created_date@)) ==> (r matches Ok(s) && s@ == seed_spec(*req)),
{
    let canonical = match canonical_request_bytes(req) {
        Ok(c) => c,
        Err(e) => return Err(e),
    };
    let digest = sha256(canonical.as_slice());
    Ok(truncate8(&digest))
}

/// The next 64 bits a stream yields, and the stream after.
pub open spec fn view_next_u64(v: StreamView) -> (u64, StreamView) {
    let (lo, s1) = view_next_u32(v);
    let (hi, s2) = view_next_u32(s1);
    ((hi as nat * 0x1_0000_0000 + lo as nat) as u64, s2)
}

/// A range small enough that drawing from it cannot overflow.
pub open spec fn range_ok(lo: i64, hi: i64) -> bool {
    &&& lo <= hi
    &&& hi - lo < 0x4000_0000_0000_0000
}

/// One uniform draw in `[lo, hi]`: `lo + u64 % (hi - lo + 1)`.
pub open spec fn draw_value(v: StreamView, lo: i64, hi: i64) -> i64 {
    (lo + view_next_u64(v).0 as int % (hi - lo + 1)) as i64
}

/// What `draw_range` answers, and the stream it leaves behind.
pub open spec fn draw_range_spec(v: StreamView, lo: i64, hi: i64) -> (
    Result<i64, GenesisError>,
    StreamView,
) {
    if hi < lo || !i64_fits(hi - lo) {
        (Err(GenesisError::Overflow), v)
    } else {
        let (u, s) = view_next_u64(v);
        let value = lo + u as int % (hi - lo + 1);
        if i64_fits(value) {
            (Ok(value as i64), s)
        } else {
            (Err(GenesisError::Overflow), s)
        }
    }
}

/// Uniform integer in [lo, hi] from one u64 draw. The modulo bias is
/// negligible for every range here and fully deterministic.
pub fn draw_range(stream: &mut PhiloxStream, range: (i64, i64)) -> (r: Result<i64, GenesisError>)
    requires
        old(stream).wf(),
    ensures
        final(stream).wf(),
        (r, final(stream)@) == draw_range_spec(old(stream)@, range.0, range.1),
{
    let (lo, hi) = range;
    if hi < lo {
        return Err(GenesisError::Overflow);
    }
    let diff = match hi.checked_sub(lo) {
        Some(d) => d,
        None => return Err(GenesisError::Overflow),
    };
    let span: u64 = diff as u64 + 1;
    let u = stream.next_u64();
    let offset: u64 = u % span;
    proof {
        assert(offset < span);
        assert(span <= 0x8000_0000_0000_0000);
    }
    let off_i = offset as i64;
    match lo.checked_add(off_i) {
        Some(v) => Ok(v),
        None => Err(GenesisError::Overflow),
    }
}

/// (v x mult_micro) / 1e6, floor-half-up.
pub open spec fn scale_micro_spec(v: int, mult: int) -> int {
    floor_half_up_spec(v * mult, 1_000_000)
}

/// (v x mult_micro) / 1e6, floor-half-up on i128.
pub fn scale_micro(v: i64, mult_micro: i64) -> (r: Result<i64, GenesisError>)
    ensures
        i64_fits(scale_micro_spec(v as int, mult_micro as int)) ==> r == Ok::<i64, GenesisError>(
            scale_micro_spec(v as int, mult_micro as int) as i64,
        ),
        !i64_fits(scale_micro_spec(v as int, mult_micro as int)) ==> r == Err::<
            i64,
            GenesisError,
        >(GenesisError::Overflow),
{
    proof {
        lemma_i64_product_fits(v as int, mult_micro as int);
    }
    let num = (v as i128) * (mult_micro as i128);
    let q = match floor_half_up(num, 1_000_000) {
        Ok(q) => q,
        Err(_) => return Err(GenesisError::Overflow),
    };
    if q < i64::MIN as i128 || q > i64::MAX as i128 {
        return Err(GenesisError::Overflow);
    }
    Ok(q as i64)
}

proof fn lemma_i64_product_fits(a: int, b: int)
    requires
        i64_fits(a),
        i64_fits(b),
    ensures
        -0x4000_0000_0000_0000_0000_0000_0000_0000 <= a * b <= 0x4000_0000_0000_0000_0000_0000_0000_0000,
{
    assert(-0x4000_0000_0000_0000_0000_0000_0000_0000 <= a * b <= 0x4000_0000_0000_0000_0000_0000_0000_0000)
        by (nonlinear_arith)
        requires
            -0x8000_0000_0000_0000 <= a <= 0x7fff_ffff_ffff_ffff,
            -0x8000_0000_0000_0000 <= b <= 0x7fff_ffff_ffff_ffff,
    ;
}

/// Hard multiplies crisis pressure x1.5 (frozen).
pub open spec fn difficulty_scaled_spec(v: int, d: Difficulty) -> int {
    match d {
        Difficulty::Standard => v,
        Difficulty::Hard => scale_micro_spec(v, 1_500_000),
    }
}

pub fn difficulty_scaled(v: i64, difficulty: Difficulty) -> (r: Result<i64, GenesisError>)
    ensures
        i64_fits(difficulty_scaled_spec(v as int, difficulty)) ==> r == Ok::<i64, GenesisError>(
            difficulty_scaled_spec(v as int, difficulty) as i64,
        ),
        !i64_fits(difficulty_scaled_spec(v as int, difficulty)) ==> r == Err::<
            i64,
            GenesisError,
        >(GenesisError::Overflow),
{
    match difficulty {
        Difficulty::Standard => Ok(v),
        Difficulty::Hard => scale_micro(v, 1_500_000),
    }
}


/// Every draw lands inside its range and leaves the stream one u64 further.
pub proof fn lemma_draw_in_range(v: StreamView, lo: i64, hi: i64)
    requires
        range_ok(lo, hi),
    ensures
        draw_range_spec(v, lo, hi) == (
            Ok::<i64, GenesisError>(draw_value(v, lo, hi)),
            view_next_u64(v).1,
        ),
        lo <= draw_value(v, lo, hi) <= hi,
{
    let u = view_next_u64(v).0;
    assert(0 <= u as int % (hi - lo + 1) < hi - lo + 1);
}

/// The market draws, in their frozen order, from a stream in state `v`.
pub open spec fn market_draws(v: StreamView) -> (Seq<i64>, StreamView) {
    draw_seq(v, market_ranges())
}

/// Draw one value per range, in order.
pub open spec fn draw_seq(v: StreamView, ranges: Seq<(i64, i64)>) -> (Seq<i64>, StreamView)
    decreases ranges.len(),
{
    if ranges.len() == 0 {
        (Seq::empty(), v)
    } else {
        let (vals, s) = draw_seq(v, ranges.drop_last());
        let r = ranges.last();
        (vals.push(draw_value(s, r.0, r.1)), view_next_u64(s).1)
    }
}

/// The frozen draw order of the market block.
pub open spec fn market_ranges() -> Seq<(i64, i64)> {
    seq![
        KAPPA,
        THETA_LOG,
        SIGMA_CALM,
        STRESS_MULT,
        EQ_DRIFT,
        EQ_SIGMA_CALM,
        STRESS_MULT,
        RATE_A,
        RATE_B_BP,
        RATE_SIGMA_BP,
        DEMAND_PHI,
        DEMAND_SIGMA,
        SEASON_AMP,
        P_CALM_TO_STRESS,
        P_STRESS_TO_CALM,
        JUMP_INTENSITY,
        JUMP_MU,
        JUMP_SIGMA,
        CORR,
    ]
}

/// The frozen draw order of the firm block, appended after the market block.
pub open spec fn firm_ranges() -> Seq<(i64, i64)> {
    seq![
        BASE_UNITS,
        REFERENCE_PRICE,
        COST_MULTIPLIER,
        BASE_UNITS,
        REFERENCE_PRICE,
        COST_MULTIPLIER,
        BASE_UNITS,
        REFERENCE_PRICE,
        COST_MULTIPLIER,
        OPENING_CAPITAL,
        DEPRECIATION_BP,
        TAX_BP,
        SENIOR_RATE_BP,
        MEZZ_SPREAD_BP,
    ]
}

/// Market parameters assembled from the 19 market draws.
pub open spec fn market_params_from(d: Seq<i64>, difficulty: Difficulty) -> MarketParams {
    MarketParams {
        commodity: CommodityParams {
            kappa_micro: d[0],
            theta_log_micro: d[1],
            sigma_calm_micro: d[2],
            sigma_stress_micro: scale_micro_spec(d[2] as int, d[3] as int) as i64,
        },
        equity: EquityParams {
            drift_micro: d[4],
            sigma_calm_micro: d[5],
            sigma_stress_micro: scale_micro_spec(d[5] as int, d[6] as int) as i64,
        },
        rate: RateParams { a_micro: d[7], b_bp: d[8], sigma_bp_micro: d[9] },
        demand: DemandParams { phi_micro: d[10], sigma_micro: d[11], season_amp_micro: d[12] },
        regime: RegimeParams {
            p_calm_to_stress_micro: difficulty_scaled_spec(d[13] as int, difficulty) as i64,
            p_stress_to_calm_micro: d[14],
        },
        jump: JumpParams {
            intensity_stress_micro: difficulty_scaled_spec(d[15] as int, difficulty) as i64,
            mu_micro: d[16],
            sigma_micro: d[17],
        },
        corr_commodity_equity_micro: d[18],
    }
}

pub open spec fn sku_from(d: Seq<i64>, k: int) -> SkuParams {
    SkuParams {
        base_units_per_tick: d[3 * k],
        reference_price_minor: d[3 * k + 1],
        cost_multiplier_micro: d[3 * k + 2],
    }
}

/// Firm parameters assembled from the 14 firm draws. Mezzanine is priced
/// as a spread over senior, never drawn independently.
pub open spec fn firm_params_from(d: Seq<i64>) -> FirmParams {
    FirmParams {
        skus: [sku_from(d, 0), sku_from(d, 1), sku_from(d, 2)],
        opening_capital_minor: d[9],
        depreciation_rate_bp: d[10] as u32,
        tax_rate_bp: d[11] as u32,
        senior_rate_bp: d[12] as u32,
        mezz_rate_bp: (d[12] + d[13]) as u32,
    }
}

proof fn lemma_scale_small(v: int, m: int)
    requires
        0 <= v <= 1_000_000_000,
        0 <= m <= 3_000_000,
    ensures
        0 <= scale_micro_spec(v, m) <= 4_000_000_000_000,
{
    assert(0 <= v * m <= 3_000_000_000_000_000) by (nonlinear_arith)
        requires 0 <= v <= 1_000_000_000, 0 <= m <= 3_000_000;
}

fn draw_step(stream: &mut PhiloxStream, range: (i64, i64), Ghost(
    ranges,
): Ghost<Seq<(i64, i64)>>, Ghost(start): Ghost<StreamView>, Ghost(k): Ghost<int>, vals: &mut Vec<
    i64,
>)
    requires
        old(stream).wf(),
        0 <= k < ranges.len(),
        ranges[k] == range,
        range_ok(range.0, range.1),
        (old(vals)@, old(stream)@) == draw_seq(start, ranges.subrange(0, k)),
    ensures
        final(stream).wf(),
        (final(vals)@, final(stream)@) == draw_seq(start, ranges.subrange(0, k + 1)),
        final(vals)@.len() == k + 1,
        range.0 <= final(vals)@[k] <= range.1,
        forall|i: int| 0 <= i < k ==> final(vals)@[i] == old(vals)@[i],
{
    proof {
        lemma_draw_in_range(stream@, range.0, range.1);
        assert(ranges.subrange(0, k + 1).drop_last() =~= ranges.subrange(0, k));
        lemma_draw_seq_len(start, ranges.subrange(0, k));
    }
    let v = match draw_range(stream, range) {
        Ok(v) => v,
        Err(_) => 0,
    };
    vals.push(v);
}

proof fn lemma_draw_seq_len(v: StreamView, ranges: Seq<(i64, i64)>)
    ensures
        draw_seq(v, ranges).0.len() == ranges.len(),
    decreases ranges.len(),
{
    if ranges.len() > 0 {
        lemma_draw_seq_len(v, ranges.drop_last());
    }
}

/// Draw one value per range in order into a vector.
fn draw_all(stream: &mut PhiloxStream, ranges: &[(i64, i64)]) -> (vals: Vec<i64>)
    requires
        old(stream).wf(),
        forall|i: int| 0 <= i < ranges@.len() ==> range_ok(#[trigger] ranges@[i].0, ranges@[i].1),
    ensures
        final(stream).wf(),
        (vals@, final(stream)@) == draw_seq(old(stream)@, ranges@),
        vals@.len() == ranges@.len(),
        forall|i: int| 0 <= i < ranges@.len() ==> ranges@[i].0 <= #[trigger] vals@[i] <= ranges@[i].1,
{
    let mut vals: Vec<i64> = Vec::new();
    let ghost start = stream@;
    let n = ranges.len();
    let mut k: usize = 0;
    assert(ranges@.subrange(0, 0) =~= Seq::<(i64, i64)>::empty());
    while k < n
        invariant
            n == ranges@.len(),
            k <= n,
            stream.wf(),
            forall|i: int| 0 <= i < ranges@.len() ==> range_ok(#[trigger] ranges@[i].0, ranges@[i].1),
            (vals@, stream@) == draw_seq(start, ranges@.subrange(0, k as int)),
            vals@.len() == k,
            forall|i: int| 0 <= i < k ==> ranges@[i].0 <= #[trigger] vals@[i] <= ranges@[i].1,
        decreases n - k,
    {
        let r = ranges[k];
        draw_step(stream, r, Ghost(ranges@), Ghost(start), Ghost(k as int), &mut vals);
        k = k + 1;
    }
    assert(ranges@.subrange(0, n as int) =~= ranges@);
    vals
}

/// Draw all market parameters in the frozen order.
pub fn draw_params(stream: &mut PhiloxStream, difficulty: Difficulty) -> (r: Result<
    MarketParams,
    GenesisError,
>)
    requires
        old(stream).wf(),
    ensures
        final(stream).wf(),
        final(stream)@ == market_draws(old(stream)@).1,
        r == Ok::<MarketParams, GenesisError>(
            market_params_from(market_draws(old(stream)@).0, difficulty),
        ),
{
    let ranges = [
        KAPPA,
        THETA_LOG,
        SIGMA_CALM,
        STRESS_MULT,
        EQ_DRIFT,
        EQ_SIGMA_CALM,
        STRESS_MULT,
        RATE_A,
        RATE_B_BP,
        RATE_SIGMA_BP,
        DEMAND_PHI,
        DEMAND_SIGMA,
        SEASON_AMP,
        P_CALM_TO_STRESS,
        P_STRESS_TO_CALM,
        JUMP_INTENSITY,
        JUMP_MU,
        JUMP_SIGMA,
        CORR,
    ];
    assert(ranges@ =~= market_ranges());
    let d = draw_all(stream, ranges.as_slice());
    proof {
        assert(d@[2] == d[2]);
        lemma_scale_small(d@[2] as int, d@[3] as int);
        lemma_scale_small(d@[5] as int, d@[6] as int);
        lemma_scale_small(d@[13] as int, 1_500_000);
        lemma_scale_small(d@[15] as int, 1_500_000);
    }
    let commodity = CommodityParams {
        kappa_micro: d[0],
        theta_log_micro: d[1],
        sigma_calm_micro: d[2],
        sigma_stress_micro: unwrap_or_zero(scale_micro(d[2], d[3])),
    };
    let equity = EquityParams {
        drift_micro: d[4],
        sigma_calm_micro: d[5],
        sigma_stress_micro: unwrap_or_zero(scale_micro(d[5], d[6])),
    };
    let rate = RateParams { a_micro: d[7], b_bp: d[8], sigma_bp_micro: d[9] };
    let demand = DemandParams { phi_micro: d[10], sigma_micro: d[11], season_amp_micro: d[12] };
    let regime = RegimeParams {
        p_calm_to_stress_micro: unwrap_or_zero(difficulty_scaled(d[13], difficulty)),
        p_stress_to_calm_micro: d[14],
    };
    let jump = JumpParams {
        intensity_stress_micro: unwrap_or_zero(difficulty_scaled(d[15], difficulty)),
        mu_micro: d[16],
        sigma_micro: d[17],
    };
    Ok(
        MarketParams {
            commodity,
            equity,
            rate,
            demand,
            regime,
            jump,
            corr_commodity_equity_micro: d[18],
        },
    )
}

fn unwrap_or_zero(r: Result<i64, GenesisError>) -> (v: i64)
    ensures
        r matches Ok(x) ==> v == x,
{
    match r {
        Ok(x) => x,
        Err(_) => 0,
    }
}

/// Draw the firm block, on the same stream immediately after the market block.
pub fn draw_firm_params(stream: &mut PhiloxStream) -> (r: Result<FirmParams, GenesisError>)
    requires
        old(stream).wf(),
    ensures
        final(stream).wf(),
        final(stream)@ == draw_seq(old(stream)@, firm_ranges()).1,
        r == Ok::<FirmParams, GenesisError>(
            firm_params_from(draw_seq(old(stream)@, firm_ranges()).0),
        ),
{
    let ranges = [
        BASE_UNITS,
        REFERENCE_PRICE,
        COST_MULTIPLIER,
        BASE_UNITS,
        REFERENCE_PRICE,
        COST_MULTIPLIER,
        BASE_UNITS,
        REFERENCE_PRICE,
        COST_MULTIPLIER,
        OPENING_CAPITAL,
        DEPRECIATION_BP,
        TAX_BP,
        SENIOR_RATE_BP,
        MEZZ_SPREAD_BP,
    ];
    assert(ranges@ =~= firm_ranges());
    let d = draw_all(stream, ranges.as_slice());
    let skus = [
        SkuParams {
            base_units_per_tick: d[0],
            reference_price_minor: d[1],
            cost_multiplier_micro: d[2],
        },
        SkuParams {
            base_units_per_tick: d[3],
            reference_price_minor: d[4],
            cost_multiplier_micro: d[5],
        },
        SkuParams {
            base_units_per_tick: d[6],
            reference_price_minor: d[7],
            cost_multiplier_micro: d[8],
        },
    ];
    let senior = d[12] as u32;
    let mezz = senior + d[13] as u32;
    let f = FirmParams {
        skus,
        opening_capital_minor: d[9],
        depreciation_rate_bp: d[10] as u32,
        tax_rate_bp: d[11] as u32,
        senior_rate_bp: senior,
        mezz_rate_bp: mezz,
    };
    assert(f.skus@ =~= firm_params_from(d@).skus@);
    Ok(f)
}

/// A drawn integer as basis points: `Overflow` when it does not fit a u32.
pub fn draw_bp(stream: &mut PhiloxStream, range: (i64, i64)) -> (r: Result<u32, GenesisError>)
    requires
        old(stream).wf(),
    ensures
        final(stream).wf(),
        final(stream)@ == draw_range_spec(old(stream)@, range.0, range.1).1,
        r == (match draw_range_spec(old(stream)@, range.0, range.1).0 {
            Ok(v) => if 0 <= v <= u32::MAX {
                Ok::<u32, GenesisError>(v as u32)
            } else {
                Err(GenesisError::Overflow)
            },
            Err(e) => Err(e),
        }),
{
    let v = match draw_range(stream, range) {
        Ok(v) => v,
        Err(e) => return Err(e),
    };
    if v < 0 || v > u32::MAX as i64 {
        return Err(GenesisError::Overflow);
    }
    Ok(v as u32)
}

/// SHA-256 over the canonical request followed by the canonical JSON of both
/// parameter blocks.
pub open spec fn fingerprint_spec(canonical: Seq<u8>, params: MarketParams, firm: FirmParams) -> Seq<u8> {
    sha256_spec(canonical + market_json(params) + firm_json(firm))
}

/// The one canonicalization, shared by the builder and the load-boundary
/// verifier.
pub fn fingerprint_of(canonical: &[u8], params: &MarketParams, firm: &FirmParams) -> (r: Result<
    [u8; 32],
    GenesisError,
>)
    ensures
        r matches Ok(f) && f@ == fingerprint_spec(canonical@, *params, *firm),
{
    let mut buf: Vec<u8> = Vec::new();
    push_bytes(&mut buf, canonical);
    push_market_json(&mut buf, params);
    push_firm_json(&mut buf, firm);
    Ok(sha256(buf.as_slice()))
}

/// The genesis stream of a request: Philox on the campaign key, domain
/// Genesis, substream 0, at block 0.
pub open spec fn genesis_stream(req: GenesisRequest) -> StreamView {
    StreamView {
        key: domain_key(campaign_key_spec(req), SeedDomain::Genesis),
        substream: 0,
        block: 0,
        buf_next: 4,
    }
}

/// The campaign key: the two little-endian words of the seed.
pub open spec fn campaign_key_spec(req: GenesisRequest) -> Seq<u32> {
    let s = seed_spec(req);
    seq![le_word(s[0], s[1], s[2], s[3]), le_word(s[4], s[5], s[6], s[7])]
}

/// The world a valid request yields.
pub open spec fn genesis_params(req: GenesisRequest) -> MarketParams {
    market_params_from(market_draws(genesis_stream(req)).0, req.difficulty)
}

pub open spec fn genesis_firm(req: GenesisRequest) -> FirmParams {
    firm_params_from(draw_seq(market_draws(genesis_stream(req)).1, firm_ranges()).0)
}

/// Build the frozen artifact. The fingerprint is computed from plain data
/// before the one and only construction.
pub fn build_campaign_genesis(req: GenesisRequest) -> (r: Result<CampaignGenesis, GenesisError>)
    ensures
        !date_ok(encode_utf8(req.created_date@)) ==> r == Err::<CampaignGenesis, GenesisError>(
            GenesisError::InvalidDate,
        ),
        date_ok(encode_utf8(req.created_date@)) ==> (r matches Ok(g) && g.request == req
            && g.campaign_key@ == campaign_key_spec(req) && g.params == genesis_params(req)
            && g.firm == genesis_firm(req) && g.fingerprint@ == fingerprint_spec(
            canonical_spec(req),
            g.params,
            g.firm,
        ) && g.schema == GENESIS_SCHEMA),
{
    let canonical = match canonical_request_bytes(&req) {
        Ok(c) => c,
        Err(e) => return Err(e),
    };
    let seed = match derive_campaign_seed(&req) {
        Ok(s) => s,
        Err(e) => return Err(e),
    };
    let campaign_key = campaign_key_from_seed(seed);
    let mut stream = PhiloxStream::new(campaign_key, SeedDomain::Genesis, 0);
    let params = match draw_params(&mut stream, req.difficulty) {
        Ok(p) => p,
        Err(e) => return Err(e),
    };
    let firm = match draw_firm_params(&mut stream) {
        Ok(f) => f,
        Err(e) => return Err(e),
    };
    let fingerprint = match fingerprint_of(canonical.as_slice(), &params, &firm) {
        Ok(f) => f,
        Err(e) => return Err(e),
    };
    Ok(
        CampaignGenesis {
            schema: GENESIS_SCHEMA,
            request: req,
            campaign_key,
            params,
            firm,
            fingerprint,
        },
    )
}

impl CampaignGenesis {
    /// Load-boundary re-verification. Mismatch is fail-closed corruption,
    /// never repaired.
    pub fn verify_fingerprint(&self) -> (r: Result<(), GenesisError>)
        ensures
            !date_ok(encode_utf8(self.request.created_date@)) ==> r == Err::<(), GenesisError>(
                GenesisError::InvalidDate,
            ),
            date_ok(encode_utf8(self.request.created_date@)) ==> (r is Ok <==> self.fingerprint@
                == fingerprint_spec(canonical_spec(self.request), self.params, self.firm)),
            date_ok(encode_utf8(self.request.created_date@)) && !(r is Ok) ==> r == Err::<
                (),
                GenesisError,
            >(GenesisError::FingerprintMismatch),
    {
        let canonical = match canonical_request_bytes(&self.request) {
            Ok(c) => c,
            Err(e) => return Err(e),
        };
        let expect = match fingerprint_of(canonical.as_slice(), &self.params, &self.firm) {
            Ok(f) => f,
            Err(e) => return Err(e),
        };
        if bytes32_eq(&expect, &self.fingerprint) {
            Ok(())
        } else {
            Err(GenesisError::FingerprintMismatch)
        }
    }

    /// Truncated fingerprint for telemetry cross-references.
    pub fn digest8(&self) -> (d: [u8; 8])
        ensures
            d@ == prefix8(self.fingerprint@),
    {
        truncate8(&self.fingerprint)
    }
}

/// Byte-wise equality of two 32-byte digests.
pub fn bytes32_eq(a: &[u8; 32], b: &[u8; 32]) -> (r: bool)
    ensures
        r == (a@ == b@),
{
    let mut i: usize = 0;
    while i < 32
        invariant
            i <= 32,
            forall|j: int| 0 <= j < i ==> a@[j] == b@[j],
        decreases 32 - i,
    {
        if a[i] != b[i] {
            return false;
        }
        i = i + 1;
    }
    assert(a@ =~= b@);
    true
}

} // verus!
