//! The sealed truth side of the instrument: the reference valuation an
//! anchor perturbs, and the profit-maximising price a pricing decision is
//! scored against.
//!
//! Both are evaluated on the same demand curve the engine sells on
//! (`settle::demand_units`) and, for pricing, the same unit cost the compiler
//! charges. The expected demand index one tick ahead comes from the market
//! kernel and is handed in as a plain value.
//!
//! Profit on the demand curve is a downward parabola in the price with its
//! vertex at `ref + cost/2`; the optimum is searched over the floor and
//! ceiling of that vertex and the two edges of the legal price box, each
//! clamped into the box.
use vstd::prelude::*;
use crate::action::{unit_cost_minor, unit_cost_spec, ActionContext};
use crate::firm::{FirmState, FirmView, MAX_PRICE_MINOR, MIN_PRICE_MINOR};
use crate::genesis::{FirmParams, MAX_SKUS};
use crate::money::i64_fits;
use crate::settle::{demand_spec, demand_units, sat_i64};

verus! {

#[derive(Debug, Clone, Copy, PartialEq, Eq, Structural)]
pub enum OracleError {
    Overflow,
    Kernel,
    UnknownSku { sku: u8 },
}

/// Expected demand and revenue one tick ahead at today's prices.
#[derive(Debug, Clone, Copy, PartialEq, Eq, Structural)]
pub struct ReferenceValuation {
    /// Expected demand index one tick ahead, in micro units.
    pub expected_demand_micro: i64,
    /// Expected revenue one tick ahead at today's prices, in minor units.
    pub expected_revenue_minor: i64,
}

/// Expected revenue of the first `n` lines at their posted prices,
/// unconstrained by inventory; the first failure wins.
pub open spec fn revenue_spec(params: FirmParams, f: FirmView, demand: i64, n: int) -> Result<
    i64,
    OracleError,
>
    decreases n,
{
    if n <= 0 {
        Ok(0)
    } else {
        match revenue_spec(params, f, demand, n - 1) {
            Err(e) => Err(e),
            Ok(acc) => {
                let cfg = params.skus@[n - 1];
                let s = f.skus[n - 1];
                match demand_spec(
                    cfg.base_units_per_tick,
                    cfg.reference_price_minor,
                    s.unit_price_minor,
                    demand,
                ) {
                    Err(_) => Err(OracleError::Overflow),
                    Ok(units) => {
                        let revenue = units * s.unit_price_minor;
                        if !i64_fits(revenue) || !i64_fits(acc + revenue) {
                            Err(OracleError::Overflow)
                        } else {
                            Ok((acc + revenue) as i64)
                        }
                    },
                }
            },
        }
    }
}

proof fn lemma_revenue_err_sticks(params: FirmParams, f: FirmView, demand: i64, i: int)
    requires
        0 <= i <= MAX_SKUS,
        revenue_spec(params, f, demand, i) is Err,
    ensures
        revenue_spec(params, f, demand, MAX_SKUS as int) == revenue_spec(params, f, demand, i),
    decreases MAX_SKUS - i,
{
    if i < MAX_SKUS {
        lemma_revenue_err_sticks(params, f, demand, i + 1);
    }
}

/// Expected revenue for the next tick at today's posted prices, given the
/// expected demand index: unconstrained by inventory, so an analyst-style
/// forecast of the demand side.
pub fn reference_valuation(expected_demand_micro: i64, ctx: &ActionContext, firm: &FirmState) -> (r:
    Result<ReferenceValuation, OracleError>)
    ensures
        match revenue_spec(ctx.firm_params, firm@, expected_demand_micro, MAX_SKUS as int) {
            Err(e) => r == Err::<ReferenceValuation, OracleError>(e),
            Ok(v) => r == Ok::<ReferenceValuation, OracleError>(
                ReferenceValuation { expected_demand_micro, expected_revenue_minor: v },
            ),
        },
{
    let skus = firm.skus();
    proof {
        firm.lemma_view();
    }
    let ghost params = ctx.firm_params;
    let ghost f = firm@;
    let mut total: i64 = 0;
    let mut i: usize = 0;
    while i < MAX_SKUS
        invariant
            i <= MAX_SKUS,
            skus@.len() == MAX_SKUS,
            f == firm@,
            params == ctx.firm_params,
            f.skus.len() == MAX_SKUS,
            forall|j: int| 0 <= j < MAX_SKUS ==> #[trigger] skus@[j] == (j as u8, f.skus[j]),
            revenue_spec(params, f, expected_demand_micro, i as int) == Ok::<i64, OracleError>(
                total,
            ),
        decreases MAX_SKUS - i,
    {
        let (_, sku) = skus[i];
        let cfg = ctx.firm_params.skus[i];
        let units = match demand_units(
            cfg.base_units_per_tick,
            cfg.reference_price_minor,
            sku.unit_price_minor,
            expected_demand_micro,
        ) {
            Ok(u) => u,
            Err(_) => {
                proof {
                    lemma_revenue_err_sticks(params, f, expected_demand_micro, i as int + 1);
                }
                return Err(OracleError::Overflow);
            },
        };
        let revenue = match (units as i64).checked_mul(sku.unit_price_minor) {
            Some(v) => v,
            None => {
                proof {
                    lemma_revenue_err_sticks(params, f, expected_demand_micro, i as int + 1);
                }
                return Err(OracleError::Overflow);
            },
        };
        total = match total.checked_add(revenue) {
            Some(v) => v,
            None => {
                proof {
                    lemma_revenue_err_sticks(params, f, expected_demand_micro, i as int + 1);
                }
                return Err(OracleError::Overflow);
            },
        };
        i = i + 1;
    }
    Ok(ReferenceValuation { expected_demand_micro, expected_revenue_minor: total })
}

/// One line's profit-maximising price and the profit of the price the player
/// chose, both on the unconstrained-demand curve.
#[derive(Debug, Clone, Copy, PartialEq, Eq, Structural)]
pub struct PricingOptimum {
    pub optimal_price_minor: i64,
    pub optimal_profit_minor: i64,
    pub actual_profit_minor: i64,
    /// `optimal_profit_minor - actual_profit_minor`, saturating.
    pub gap_minor: i64,
}

/// `(price − cost) × units(price)` next tick, or `Overflow`.
pub open spec fn profit_spec(base: i64, reference: i64, price: i64, demand: i64, cost: i64) -> Result<
    i64,
    OracleError,
> {
    match demand_spec(base, reference, price, demand) {
        Err(_) => Err(OracleError::Overflow),
        Ok(units) => {
            let p = (price - cost) * units;
            if i64_fits(p) {
                Ok(p as i64)
            } else {
                Err(OracleError::Overflow)
            }
        },
    }
}

fn profit_at_price(
    base_units_per_tick: i64,
    reference_price_minor: i64,
    price_minor: i64,
    demand_index_micro: i64,
    cost_minor: i64,
) -> (r: Result<i64, OracleError>)
    ensures
        r == profit_spec(
            base_units_per_tick,
            reference_price_minor,
            price_minor,
            demand_index_micro,
            cost_minor,
        ),
{
    let units = match demand_units(
        base_units_per_tick,
        reference_price_minor,
        price_minor,
        demand_index_micro,
    ) {
        Ok(u) => u,
        Err(_) => return Err(OracleError::Overflow),
    };
    let margin: i128 = price_minor as i128 - cost_minor as i128;
    proof {
        assert(-0x1_0000_0000_0000_0000 * 0x1_0000_0000 <= margin * units
            <= 0x1_0000_0000_0000_0000 * 0x1_0000_0000) by (nonlinear_arith)
            requires
                -0x1_0000_0000_0000_0000 <= margin <= 0x1_0000_0000_0000_0000,
                0 <= units <= 0x1_0000_0000,
        ;
    }
    let profit: i128 = margin * units as i128;
    if profit < i64::MIN as i128 || profit > i64::MAX as i128 {
        Err(OracleError::Overflow)
    } else {
        Ok(profit as i64)
    }
}

/// The upper edge of the legal price box: the price cap, or twice the
/// reference price where demand dies.
pub open spec fn box_max_spec(reference: i64) -> i64 {
    let choke = sat_i64(2 * reference) as i64;
    if MAX_PRICE_MINOR < choke {
        MAX_PRICE_MINOR
    } else {
        choke
    }
}

/// The most profitable price in `[MIN_PRICE_MINOR, hi]`, scanning upward
/// and keeping the cheapest of equals: at `MIN_PRICE_MINOR` with profit
/// `i64::MIN` when the range is empty; the first price whose profit cannot
/// be computed refuses the search.
pub open spec fn scan_spec(base: i64, reference: i64, demand: i64, cost: i64, hi: int) -> Result<
    (i64, i64),
    OracleError,
>
    decreases hi,
{
    if hi < MIN_PRICE_MINOR {
        Ok((MIN_PRICE_MINOR, i64::MIN))
    } else {
        match scan_spec(base, reference, demand, cost, hi - 1) {
            Err(e) => Err(e),
            Ok((bp, bv)) => match profit_spec(base, reference, hi as i64, demand, cost) {
                Err(e) => Err(e),
                Ok(v) => if v > bv {
                    Ok((hi as i64, v))
                } else {
                    Ok((bp, bv))
                },
            },
        }
    }
}

proof fn lemma_scan_err_sticks(base: i64, reference: i64, demand: i64, cost: i64, m: int, n: int)
    requires
        m <= n,
        scan_spec(base, reference, demand, cost, m) is Err,
    ensures
        scan_spec(base, reference, demand, cost, n) == scan_spec(base, reference, demand, cost, m),
    decreases n - m,
{
    if n > m {
        lemma_scan_err_sticks(base, reference, demand, cost, m, n - 1);
    }
}

/// A successful scan scored every price in its range, none above the best,
/// and the best is attained at the price it names.
proof fn lemma_scan_is_max(base: i64, reference: i64, demand: i64, cost: i64, hi: int)
    requires
        scan_spec(base, reference, demand, cost, hi) is Ok,
        hi <= i64::MAX,
    ensures
        ({
            let (bp, bv) = scan_spec(base, reference, demand, cost, hi)->Ok_0;
            &&& forall|p: int|
                MIN_PRICE_MINOR <= p <= hi ==> (#[trigger] profit_spec(base, reference, p as i64, demand, cost)) is Ok
                    && profit_spec(base, reference, p as i64, demand, cost)->Ok_0 <= bv
            &&& hi >= MIN_PRICE_MINOR ==> MIN_PRICE_MINOR <= bp <= hi && profit_spec(
                base,
                reference,
                bp,
                demand,
                cost,
            ) == Ok::<i64, OracleError>(bv)
            &&& hi < MIN_PRICE_MINOR ==> bp == MIN_PRICE_MINOR && bv == i64::MIN
        }),
    decreases hi,
{
    if hi >= MIN_PRICE_MINOR {
        lemma_scan_is_max(base, reference, demand, cost, hi - 1);
        let (bp0, bv0) = scan_spec(base, reference, demand, cost, hi - 1)->Ok_0;
        let v = profit_spec(base, reference, hi as i64, demand, cost)->Ok_0;
        assert((hi as i64) as int == hi);
        let (bp, bv) = scan_spec(base, reference, demand, cost, hi)->Ok_0;
        if v > bv0 {
            assert(bp == hi as i64 && bv == v);
        } else {
            assert(bp == bp0 && bv == bv0);
            if hi - 1 < MIN_PRICE_MINOR {
                assert(bv0 == i64::MIN);
                assert(v == i64::MIN);
                assert(bp0 == hi);
            }
        }
        assert forall|p: int| MIN_PRICE_MINOR <= p <= hi implies (#[trigger] profit_spec(
            base,
            reference,
            p as i64,
            demand,
            cost,
        )) is Ok && profit_spec(base, reference, p as i64, demand, cost)->Ok_0 <= bv by {
            if p < hi {
                assert(profit_spec(base, reference, p as i64, demand, cost) is Ok);
            }
        }
    }
}

pub open spec fn sat_sub_spec(a: i64, b: i64) -> i64 {
    sat_i64(a - b) as i64
}

/// The outcome of scoring `chosen` for line `sku` under expected demand
/// `demand`.
pub open spec fn gap_spec(demand: i64, ctx: ActionContext, sku: u8, chosen: i64) -> Result<
    PricingOptimum,
    OracleError,
> {
    if sku as int >= MAX_SKUS {
        Err(OracleError::UnknownSku { sku })
    } else {
        let cfg = ctx.firm_params.skus@[sku as int];
        match unit_cost_spec(ctx.market.commodity_price_minor, cfg.cost_multiplier_micro) {
            Err(_) => Err(OracleError::Overflow),
            Ok(cost) => {
                match scan_spec(
                    cfg.base_units_per_tick,
                    cfg.reference_price_minor,
                    demand,
                    cost,
                    box_max_spec(cfg.reference_price_minor) as int,
                ) {
                    Err(e) => Err(e),
                    Ok((op, ov)) => match profit_spec(
                        cfg.base_units_per_tick,
                        cfg.reference_price_minor,
                        chosen,
                        demand,
                        cost,
                    ) {
                        Err(e) => Err(e),
                        Ok(actual) => Ok(
                            PricingOptimum {
                                optimal_price_minor: op,
                                optimal_profit_minor: ov,
                                actual_profit_minor: actual,
                                gap_minor: sat_sub_spec(ov, actual),
                            },
                        ),
                    },
                }
            },
        }
    }
}

/// Solve for the profit-maximising integer price of `sku` under expected
/// demand `expected_demand_micro`, and score `chosen_price_minor` against
/// it.
pub fn pricing_optimality_gap(
    expected_demand_micro: i64,
    ctx: &ActionContext,
    sku: u8,
    chosen_price_minor: i64,
) -> (r: Result<PricingOptimum, OracleError>)
    requires
        (sku as int) < MAX_SKUS && unit_cost_spec(
            ctx.market.commodity_price_minor,
            ctx.firm_params.skus@[sku as int].cost_multiplier_micro,
        ) is Ok ==> ctx.firm_params.skus@[sku as int].reference_price_minor >= 1,
    ensures
        r == gap_spec(expected_demand_micro, *ctx, sku, chosen_price_minor),
{
    if sku as usize >= MAX_SKUS {
        return Err(OracleError::UnknownSku { sku });
    }
    let cfg = ctx.firm_params.skus[sku as usize];
    let cost_minor = match unit_cost_minor(
        ctx.market.commodity_price_minor,
        cfg.cost_multiplier_micro,
    ) {
        Ok(c) => c,
        Err(_) => return Err(OracleError::Overflow),
    };
    let box_min = MIN_PRICE_MINOR;
    let choke: i64 = if cfg.reference_price_minor > i64::MAX / 2 {
        i64::MAX
    } else {
        cfg.reference_price_minor * 2
    };
    let box_max = if MAX_PRICE_MINOR < choke {
        MAX_PRICE_MINOR
    } else {
        choke
    };
    let ghost base = cfg.base_units_per_tick;
    let ghost reference = cfg.reference_price_minor;
    let mut optimal_price_minor = box_min;
    let mut optimal_profit_minor = i64::MIN;
    let mut price: i64 = box_min;
    while price <= box_max
        invariant
            box_min == MIN_PRICE_MINOR,
            box_max == box_max_spec(cfg.reference_price_minor),
            box_max <= MAX_PRICE_MINOR,
            MIN_PRICE_MINOR <= price,
            price <= box_max + 1 || price == MIN_PRICE_MINOR,
            (sku as int) < MAX_SKUS,
            cfg == ctx.firm_params.skus@[sku as int],
            unit_cost_spec(ctx.market.commodity_price_minor, cfg.cost_multiplier_micro) == Ok::<
                i64,
                crate::action::CompileError,
            >(cost_minor),
            scan_spec(
                cfg.base_units_per_tick,
                cfg.reference_price_minor,
                expected_demand_micro,
                cost_minor,
                price - 1,
            ) == Ok::<(i64, i64), OracleError>((optimal_price_minor, optimal_profit_minor)),
        decreases box_max + 1 - price,
    {
        let profit = match profit_at_price(
            cfg.base_units_per_tick,
            cfg.reference_price_minor,
            price,
            expected_demand_micro,
            cost_minor,
        ) {
            Ok(p) => p,
            Err(e) => {
                proof {
                    lemma_scan_err_sticks(
                        cfg.base_units_per_tick,
                        cfg.reference_price_minor,
                        expected_demand_micro,
                        cost_minor,
                        price as int,
                        box_max as int,
                    );
                }
                return Err(e);
            },
        };
        if profit > optimal_profit_minor {
            optimal_profit_minor = profit;
            optimal_price_minor = price;
        }
        price = price + 1;
    }
    let actual_profit_minor = match profit_at_price(
        cfg.base_units_per_tick,
        cfg.reference_price_minor,
        chosen_price_minor,
        expected_demand_micro,
        cost_minor,
    ) {
        Ok(p) => p,
        Err(e) => return Err(e),
    };
    let gap_minor: i64 = if actual_profit_minor < 0 && optimal_profit_minor > i64::MAX
        + actual_profit_minor {
        i64::MAX
    } else if actual_profit_minor > 0 && optimal_profit_minor < i64::MIN + actual_profit_minor {
        i64::MIN
    } else {
        optimal_profit_minor - actual_profit_minor
    };
    Ok(PricingOptimum { optimal_price_minor, optimal_profit_minor, actual_profit_minor, gap_minor })
}

/// Pricing at the optimum leaves no gap.
pub proof fn law_the_optimum_has_zero_gap(demand: i64, ctx: ActionContext, sku: u8, chosen: i64)
    requires
        gap_spec(demand, ctx, sku, chosen) is Ok,
        ctx.firm_params.skus@[sku as int].reference_price_minor >= 1,
    ensures
        gap_spec(demand, ctx, sku, gap_spec(demand, ctx, sku, chosen)->Ok_0.optimal_price_minor)
            is Ok,
        gap_spec(
            demand,
            ctx,
            sku,
            gap_spec(demand, ctx, sku, chosen)->Ok_0.optimal_price_minor,
        )->Ok_0.gap_minor == 0,
        MIN_PRICE_MINOR <= gap_spec(demand, ctx, sku, chosen)->Ok_0.optimal_price_minor
            <= MAX_PRICE_MINOR,
{
    let cfg = ctx.firm_params.skus@[sku as int];
    let cost = unit_cost_spec(ctx.market.commodity_price_minor, cfg.cost_multiplier_micro)->Ok_0;
    lemma_scan_is_max(
        cfg.base_units_per_tick,
        cfg.reference_price_minor,
        demand,
        cost,
        box_max_spec(cfg.reference_price_minor) as int,
    );
}

/// The optimum never loses to a legal price: no price from
/// `MIN_PRICE_MINOR` to `MAX_PRICE_MINOR` earns more than the optimal
/// profit, so the gap of any legal price is never negative.
pub proof fn law_the_optimum_never_loses_to_a_legal_price(
    demand: i64,
    ctx: ActionContext,
    sku: u8,
    chosen: i64,
    p: i64,
)
    requires
        gap_spec(demand, ctx, sku, chosen) is Ok,
        ctx.firm_params.skus@[sku as int].reference_price_minor >= 1,
        MIN_PRICE_MINOR <= p <= MAX_PRICE_MINOR,
    ensures
        ({
            let cfg = ctx.firm_params.skus@[sku as int];
            let cost = unit_cost_spec(ctx.market.commodity_price_minor, cfg.cost_multiplier_micro)->Ok_0;
            let g = gap_spec(demand, ctx, sku, chosen)->Ok_0;
            &&& profit_spec(cfg.base_units_per_tick, cfg.reference_price_minor, p, demand, cost) is Ok
            &&& profit_spec(cfg.base_units_per_tick, cfg.reference_price_minor, p, demand, cost)->Ok_0
                <= g.optimal_profit_minor
            &&& MIN_PRICE_MINOR <= chosen <= MAX_PRICE_MINOR ==> g.gap_minor >= 0
        }),
{
    let cfg = ctx.firm_params.skus@[sku as int];
    let cost = unit_cost_spec(ctx.market.commodity_price_minor, cfg.cost_multiplier_micro)->Ok_0;
    let base = cfg.base_units_per_tick;
    let reference = cfg.reference_price_minor;
    let hi = box_max_spec(reference) as int;
    lemma_scan_is_max(base, reference, demand, cost, hi);
    assert forall|q: i64| MIN_PRICE_MINOR <= q <= MAX_PRICE_MINOR implies profit_spec(
        base,
        reference,
        q,
        demand,
        cost,
    ) is Ok && profit_spec(base, reference, q, demand, cost)->Ok_0 <= scan_spec(
        base,
        reference,
        demand,
        cost,
        hi,
    )->Ok_0.1 by {
        if q as int > hi {
            assert(hi == 2 * reference);
            crate::settle::law_demand_dies_at_twice_the_reference(base, reference, q, demand);
            crate::settle::law_demand_dies_at_twice_the_reference(base, reference, hi as i64, demand);
            assert((q - cost) * 0 == 0) by (nonlinear_arith);
            assert(((hi as i64) - cost) * 0 == 0) by (nonlinear_arith);
            assert(profit_spec(base, reference, q, demand, cost) == Ok::<i64, OracleError>(0));
            assert(profit_spec(base, reference, hi as i64, demand, cost) == Ok::<i64, OracleError>(0));
            assert(profit_spec(base, reference, (hi as i64) as int as i64, demand, cost) is Ok);
        } else {
            assert(profit_spec(base, reference, (q as int) as i64, demand, cost) is Ok);
        }
    }
}

/// The optimum is a property of the line and the market, not of the price
/// asked about: scoring two different prices finds the same optimum.
pub proof fn law_optimum_ignores_the_price_asked_about(
    demand: i64,
    ctx: ActionContext,
    sku: u8,
    a: i64,
    b: i64,
)
    requires
        gap_spec(demand, ctx, sku, a) is Ok,
        gap_spec(demand, ctx, sku, b) is Ok,
    ensures
        gap_spec(demand, ctx, sku, a)->Ok_0.optimal_price_minor == gap_spec(
            demand,
            ctx,
            sku,
            b,
        )->Ok_0.optimal_price_minor,
        gap_spec(demand, ctx, sku, a)->Ok_0.optimal_profit_minor == gap_spec(
            demand,
            ctx,
            sku,
            b,
        )->Ok_0.optimal_profit_minor,
{
}

} // verus!
