//! The canonical JSON text of the frozen world parameters, as the genesis
//! fingerprint covers them: camelCase keys in declaration order, integers in
//! plain decimal, no whitespace.
use crate::digest::{push_bytes, push_signed_decimal, signed_decimal};
use crate::genesis::{
    CommodityParams, DemandParams, EquityParams, FirmParams, JumpParams, MarketParams,
    RateParams, RegimeParams, SkuParams,
};
use vstd::prelude::*;
use vstd::utf8::encode_utf8;

verus! {

/// The UTF-8 bytes of a string.
pub open spec fn utf8(s: &str) -> Seq<u8> {
    encode_utf8(s@)
}

/// `"key":`
pub open spec fn jkey(k: Seq<u8>) -> Seq<u8> {
    seq![34u8] + k + seq![34u8, 58u8]
}

/// `"key":value` for an integer value.
pub open spec fn jint(k: Seq<u8>, v: int) -> Seq<u8> {
    jkey(k) + signed_decimal(v)
}

pub open spec fn comma() -> Seq<u8> {
    seq![44u8]
}

pub open spec fn commodity_json(c: CommodityParams) -> Seq<u8> {
    seq![123u8] + jint(utf8("kappaMicro"), c.kappa_micro as int) + comma() + jint(
        utf8("thetaLogMicro"),
        c.theta_log_micro as int,
    ) + comma() + jint(utf8("sigmaCalmMicro"), c.sigma_calm_micro as int) + comma() + jint(
        utf8("sigmaStressMicro"),
        c.sigma_stress_micro as int,
    ) + seq![125u8]
}

pub open spec fn equity_json(e: EquityParams) -> Seq<u8> {
    seq![123u8] + jint(utf8("driftMicro"), e.drift_micro as int) + comma() + jint(
        utf8("sigmaCalmMicro"),
        e.sigma_calm_micro as int,
    ) + comma() + jint(utf8("sigmaStressMicro"), e.sigma_stress_micro as int) + seq![125u8]
}

pub open spec fn rate_json(r: RateParams) -> Seq<u8> {
    seq![123u8] + jint(utf8("aMicro"), r.a_micro as int) + comma() + jint(
        utf8("bBp"),
        r.b_bp as int,
    ) + comma() + jint(utf8("sigmaBpMicro"), r.sigma_bp_micro as int) + seq![125u8]
}

pub open spec fn demand_json(d: DemandParams) -> Seq<u8> {
    seq![123u8] + jint(utf8("phiMicro"), d.phi_micro as int) + comma() + jint(
        utf8("sigmaMicro"),
        d.sigma_micro as int,
    ) + comma() + jint(utf8("seasonAmpMicro"), d.season_amp_micro as int) + seq![125u8]
}

pub open spec fn regime_json(r: RegimeParams) -> Seq<u8> {
    seq![123u8] + jint(utf8("pCalmToStressMicro"), r.p_calm_to_stress_micro as int) + comma()
        + jint(utf8("pStressToCalmMicro"), r.p_stress_to_calm_micro as int) + seq![125u8]
}

pub open spec fn jump_json(j: JumpParams) -> Seq<u8> {
    seq![123u8] + jint(utf8("intensityStressMicro"), j.intensity_stress_micro as int) + comma()
        + jint(utf8("muMicro"), j.mu_micro as int) + comma() + jint(
        utf8("sigmaMicro"),
        j.sigma_micro as int,
    ) + seq![125u8]
}

pub open spec fn market_json(p: MarketParams) -> Seq<u8> {
    seq![123u8] + jkey(utf8("commodity")) + commodity_json(p.commodity) + comma() + jkey(
        utf8("equity"),
    ) + equity_json(p.equity) + comma() + jkey(utf8("rate")) + rate_json(p.rate) + comma()
        + jkey(utf8("demand")) + demand_json(p.demand) + comma() + jkey(utf8("regime"))
        + regime_json(p.regime) + comma() + jkey(utf8("jump")) + jump_json(p.jump) + comma()
        + jint(utf8("corrCommodityEquityMicro"), p.corr_commodity_equity_micro as int) + seq![
        125u8,
    ]
}

pub open spec fn sku_json(s: SkuParams) -> Seq<u8> {
    seq![123u8] + jint(utf8("baseUnitsPerTick"), s.base_units_per_tick as int) + comma() + jint(
        utf8("referencePriceMinor"),
        s.reference_price_minor as int,
    ) + comma() + jint(utf8("costMultiplierMicro"), s.cost_multiplier_micro as int) + seq![
        125u8,
    ]
}

pub open spec fn firm_json(f: FirmParams) -> Seq<u8> {
    seq![123u8] + jkey(utf8("skus")) + seq![91u8] + sku_json(f.skus@[0]) + comma() + sku_json(
        f.skus@[1],
    ) + comma() + sku_json(f.skus@[2]) + seq![93u8] + comma() + jint(
        utf8("openingCapitalMinor"),
        f.opening_capital_minor as int,
    ) + comma() + jint(utf8("depreciationRateBp"), f.depreciation_rate_bp as int) + comma()
        + jint(utf8("taxRateBp"), f.tax_rate_bp as int) + comma() + jint(
        utf8("seniorRateBp"),
        f.senior_rate_bp as int,
    ) + comma() + jint(utf8("mezzRateBp"), f.mezz_rate_bp as int) + seq![125u8]
}

pub(crate) fn push_key(out: &mut Vec<u8>, key: &str)
    ensures
        final(out)@ == old(out)@ + jkey(utf8(key)),
{
    out.push(34u8);
    push_bytes(out, key.as_bytes());
    out.push(34u8);
    out.push(58u8);
    assert(final(out)@ =~= old(out)@ + jkey(utf8(key)));
}

pub(crate) fn push_int(out: &mut Vec<u8>, key: &str, v: i64)
    ensures
        final(out)@ == old(out)@ + jint(utf8(key), v as int),
{
    push_key(out, key);
    push_signed_decimal(out, v);
    assert(final(out)@ =~= old(out)@ + jint(utf8(key), v as int));
}

pub fn push_commodity(out: &mut Vec<u8>, c: &CommodityParams)
    ensures
        final(out)@ == old(out)@ + commodity_json(*c),
{
    out.push(123u8);
    push_int(out, "kappaMicro", c.kappa_micro);
    out.push(44u8);
    push_int(out, "thetaLogMicro", c.theta_log_micro);
    out.push(44u8);
    push_int(out, "sigmaCalmMicro", c.sigma_calm_micro);
    out.push(44u8);
    push_int(out, "sigmaStressMicro", c.sigma_stress_micro);
    out.push(125u8);
    assert(final(out)@ =~= old(out)@ + commodity_json(*c));
}

pub fn push_equity(out: &mut Vec<u8>, e: &EquityParams)
    ensures
        final(out)@ == old(out)@ + equity_json(*e),
{
    out.push(123u8);
    push_int(out, "driftMicro", e.drift_micro);
    out.push(44u8);
    push_int(out, "sigmaCalmMicro", e.sigma_calm_micro);
    out.push(44u8);
    push_int(out, "sigmaStressMicro", e.sigma_stress_micro);
    out.push(125u8);
    assert(final(out)@ =~= old(out)@ + equity_json(*e));
}

pub fn push_rate(out: &mut Vec<u8>, r: &RateParams)
    ensures
        final(out)@ == old(out)@ + rate_json(*r),
{
    out.push(123u8);
    push_int(out, "aMicro", r.a_micro);
    out.push(44u8);
    push_int(out, "bBp", r.b_bp);
    out.push(44u8);
    push_int(out, "sigmaBpMicro", r.sigma_bp_micro);
    out.push(125u8);
    assert(final(out)@ =~= old(out)@ + rate_json(*r));
}

pub fn push_demand(out: &mut Vec<u8>, d: &DemandParams)
    ensures
        final(out)@ == old(out)@ + demand_json(*d),
{
    out.push(123u8);
    push_int(out, "phiMicro", d.phi_micro);
    out.push(44u8);
    push_int(out, "sigmaMicro", d.sigma_micro);
    out.push(44u8);
    push_int(out, "seasonAmpMicro", d.season_amp_micro);
    out.push(125u8);
    assert(final(out)@ =~= old(out)@ + demand_json(*d));
}

pub fn push_regime(out: &mut Vec<u8>, r: &RegimeParams)
    ensures
        final(out)@ == old(out)@ + regime_json(*r),
{
    out.push(123u8);
    push_int(out, "pCalmToStressMicro", r.p_calm_to_stress_micro);
    out.push(44u8);
    push_int(out, "pStressToCalmMicro", r.p_stress_to_calm_micro);
    out.push(125u8);
    assert(final(out)@ =~= old(out)@ + regime_json(*r));
}

pub fn push_jump(out: &mut Vec<u8>, j: &JumpParams)
    ensures
        final(out)@ == old(out)@ + jump_json(*j),
{
    out.push(123u8);
    push_int(out, "intensityStressMicro", j.intensity_stress_micro);
    out.push(44u8);
    push_int(out, "muMicro", j.mu_micro);
    out.push(44u8);
    push_int(out, "sigmaMicro", j.sigma_micro);
    out.push(125u8);
    assert(final(out)@ =~= old(out)@ + jump_json(*j));
}

/// Append the canonical JSON of the market parameters.
#[verifier::rlimit(60)]
pub fn push_market_json(out: &mut Vec<u8>, p: &MarketParams)
    ensures
        final(out)@ == old(out)@ + market_json(*p),
{
    out.push(123u8);
    push_key(out, "commodity");
    push_commodity(out, &p.commodity);
    out.push(44u8);
    push_key(out, "equity");
    push_equity(out, &p.equity);
    out.push(44u8);
    push_key(out, "rate");
    push_rate(out, &p.rate);
    out.push(44u8);
    push_key(out, "demand");
    push_demand(out, &p.demand);
    out.push(44u8);
    push_key(out, "regime");
    push_regime(out, &p.regime);
    out.push(44u8);
    push_key(out, "jump");
    push_jump(out, &p.jump);
    out.push(44u8);
    push_int(out, "corrCommodityEquityMicro", p.corr_commodity_equity_micro);
    out.push(125u8);
    assert(final(out)@ =~= old(out)@ + market_json(*p));
}

fn push_sku(out: &mut Vec<u8>, s: &SkuParams)
    ensures
        final(out)@ == old(out)@ + sku_json(*s),
{
    out.push(123u8);
    push_int(out, "baseUnitsPerTick", s.base_units_per_tick);
    out.push(44u8);
    push_int(out, "referencePriceMinor", s.reference_price_minor);
    out.push(44u8);
    push_int(out, "costMultiplierMicro", s.cost_multiplier_micro);
    out.push(125u8);
    assert(final(out)@ =~= old(out)@ + sku_json(*s));
}

/// Append the canonical JSON of the firm parameters.
#[verifier::rlimit(60)]
pub fn push_firm_json(out: &mut Vec<u8>, f: &FirmParams)
    ensures
        final(out)@ == old(out)@ + firm_json(*f),
{
    out.push(123u8);
    push_key(out, "skus");
    out.push(91u8);
    push_sku(out, &f.skus[0]);
    out.push(44u8);
    push_sku(out, &f.skus[1]);
    out.push(44u8);
    push_sku(out, &f.skus[2]);
    out.push(93u8);
    out.push(44u8);
    push_int(out, "openingCapitalMinor", f.opening_capital_minor);
    out.push(44u8);
    push_int(out, "depreciationRateBp", f.depreciation_rate_bp as i64);
    out.push(44u8);
    push_int(out, "taxRateBp", f.tax_rate_bp as i64);
    out.push(44u8);
    push_int(out, "seniorRateBp", f.senior_rate_bp as i64);
    out.push(44u8);
    push_int(out, "mezzRateBp", f.mezz_rate_bp as i64);
    out.push(125u8);
    assert(final(out)@ =~= old(out)@ + firm_json(*f));
}

} // verus!
