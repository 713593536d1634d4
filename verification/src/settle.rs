//! Operating engine, period close, and the cash-flow statement.
//!
//! Every account except `Cash` belongs to exactly one cash-flow section, and
//! each section total is the negated sum of its accounts' balance changes.
//! On a zero-sum ledger the three sections therefore add up to the change in
//! cash exactly: `law_cash_flow_identity` states it, and
//! `CashFlowStatement::between` carries it in its contract.
use vstd::prelude::*;
use crate::action::{
    apply_plans, checked_amount, transfer, plans_outcome, shapes_of, shapes_outcome, plan_wf, Shape, transfer_postings, ActionContext,
    ActionPlan, CompileError, SimBooks, amount_ok, MAX_ACTION_AMOUNT_MINOR,
};
use crate::firm::{FirmEffect, FirmError, FirmView, SkuState, cogs_spec, sat_add};
use crate::genesis::{FirmParams, MAX_SKUS};
use crate::ledger::{
    AccountClass, AccountCode, Balances, Posting, Side, Transaction, TxKind, account_at,
    account_index, class_sum, class_totals_spec, lemma_class_sum_bounds, seq_sum, N_ACCOUNTS,
    debit_total, credit_total, transaction_check,
};
use crate::money::{
    floor_half_up, floor_half_up_result, i128_fits, i64_fits, Money, MoneyError,
};

verus! {

/// Ticks in a settlement period (a quarter of weeks).
pub const TICKS_PER_QUARTER: u32 = 13;

#[derive(Debug, Clone, Copy, PartialEq, Eq, Structural)]
pub enum CfSection {
    Operating,
    Investing,
    Financing,
}

/// Statement classification of every account; `Cash` is the subject of the
/// statement, not a line in it.
pub open spec fn section_spec(a: AccountCode) -> Option<CfSection> {
    match a {
        AccountCode::Cash => None,
        AccountCode::PropertyPlantEquipment => Some(CfSection::Investing),
        AccountCode::SeniorDebt | AccountCode::MezzanineDebt | AccountCode::ShareCapital
        | AccountCode::RetainedEarnings => Some(CfSection::Financing),
        _ => Some(CfSection::Operating),
    }
}

/// Statement classification of every account. Exhaustive on purpose: a new
/// account does not compile until it is classified.
pub fn section_of(account: AccountCode) -> (s: Option<CfSection>)
    ensures
        s == section_spec(account),
{
    match account {
        AccountCode::Cash => None,
        AccountCode::AccountsReceivable
        | AccountCode::Inventory
        | AccountCode::PrepaidExpenses
        | AccountCode::AccumulatedDepreciation
        | AccountCode::AccountsPayable
        | AccountCode::AccruedLiabilities
        | AccountCode::TaxPayable
        | AccountCode::SalesRevenue
        | AccountCode::OtherIncome
        | AccountCode::CostOfGoodsSold
        | AccountCode::OperatingExpense
        | AccountCode::DepreciationExpense
        | AccountCode::InterestExpense
        | AccountCode::TaxExpense => Some(CfSection::Operating),
        AccountCode::PropertyPlantEquipment => Some(CfSection::Investing),
        AccountCode::SeniorDebt
        | AccountCode::MezzanineDebt
        | AccountCode::ShareCapital
        | AccountCode::RetainedEarnings => Some(CfSection::Financing),
    }
}

#[derive(Debug, Clone, Copy, PartialEq, Eq, Structural)]
pub enum SettleError {
    /// The statement and the cash account disagree: the books moved outside
    /// the double-entry path. Never repaired.
    AccountingBreach { statement_minor: i128, cash_minor: i128 },
    /// The firm's carrying value and the `Inventory` account diverged.
    InventoryDesync { ledger_minor: i64, firm_minor: i64 },
    Compile(CompileError),
    Firm(FirmError),
    Money(MoneyError),
    Overflow,
}

/// Indirect-method statement for one period, in minor units.
/// `net_change_minor` comes from the section partition, `cash_delta_minor`
/// straight off the `Cash` account.
#[derive(Debug, Clone, Copy, PartialEq, Eq, Structural)]
pub struct CashFlowStatement {
    pub operating_minor: i64,
    pub investing_minor: i64,
    pub financing_minor: i64,
    pub net_change_minor: i64,
    pub cash_delta_minor: i64,
    pub net_income_minor: i64,
    pub depreciation_minor: i64,
}

/// Sum of the balance changes of the accounts in section `sec` among the
/// first `n` accounts of the chart.
pub open spec fn section_delta(b: Seq<i64>, e: Seq<i64>, sec: Option<CfSection>, n: int) -> int
    decreases n,
{
    if n <= 0 {
        0
    } else {
        section_delta(b, e, sec, n - 1) + (if section_spec(account_at(n - 1)) == sec {
            e[n - 1] - b[n - 1]
        } else {
            0
        })
    }
}

pub open spec fn cf_operating(b: Seq<i64>, e: Seq<i64>) -> int {
    -section_delta(b, e, Some(CfSection::Operating), N_ACCOUNTS as int)
}

pub open spec fn cf_investing(b: Seq<i64>, e: Seq<i64>) -> int {
    -section_delta(b, e, Some(CfSection::Investing), N_ACCOUNTS as int)
}

pub open spec fn cf_financing(b: Seq<i64>, e: Seq<i64>) -> int {
    -section_delta(b, e, Some(CfSection::Financing), N_ACCOUNTS as int)
}

pub open spec fn cf_cash_delta(b: Seq<i64>, e: Seq<i64>) -> int {
    section_delta(b, e, None, N_ACCOUNTS as int)
}

/// Income of the period: the change in revenue less expense.
pub open spec fn cf_net_income(b: Seq<i64>, e: Seq<i64>) -> int {
    let tb = class_totals_spec(b);
    let te = class_totals_spec(e);
    (te.revenue - te.expense) - (tb.revenue - tb.expense)
}

/// Depreciation charged: the growth of the (credit-normal) contra-asset.
pub open spec fn cf_depreciation(b: Seq<i64>, e: Seq<i64>) -> int {
    let i = account_index(AccountCode::AccumulatedDepreciation) as int;
    -(e[i] - b[i])
}

/// Every figure of the statement fits in an i64.
pub open spec fn statement_fits(b: Seq<i64>, e: Seq<i64>) -> bool {
    &&& i64_fits(cf_operating(b, e))
    &&& i64_fits(cf_investing(b, e))
    &&& i64_fits(cf_financing(b, e))
    &&& i64_fits(cf_operating(b, e) + cf_investing(b, e) + cf_financing(b, e))
    &&& i64_fits(cf_cash_delta(b, e))
    &&& i64_fits(cf_net_income(b, e))
    &&& i64_fits(cf_depreciation(b, e))
}

pub open spec fn statement_spec(b: Seq<i64>, e: Seq<i64>) -> CashFlowStatement {
    CashFlowStatement {
        operating_minor: cf_operating(b, e) as i64,
        investing_minor: cf_investing(b, e) as i64,
        financing_minor: cf_financing(b, e) as i64,
        net_change_minor: (cf_operating(b, e) + cf_investing(b, e) + cf_financing(b, e)) as i64,
        cash_delta_minor: cf_cash_delta(b, e) as i64,
        net_income_minor: cf_net_income(b, e) as i64,
        depreciation_minor: cf_depreciation(b, e) as i64,
    }
}

proof fn lemma_section_delta_bounds(b: Seq<i64>, e: Seq<i64>, sec: Option<CfSection>, n: int)
    requires
        0 <= n <= b.len(),
        n <= e.len(),
    ensures
        -n * 0x1_0000_0000_0000_0000int <= section_delta(b, e, sec, n) <= n
            * 0x1_0000_0000_0000_0000int,
    decreases n,
{
    if n > 0 {
        lemma_section_delta_bounds(b, e, sec, n - 1);
    }
}

/// The four sections (cash included) partition the chart: together they
/// are the change in the whole trial balance.
proof fn lemma_sections_partition(b: Seq<i64>, e: Seq<i64>, n: int)
    requires
        0 <= n <= b.len(),
        n <= e.len(),
    ensures
        section_delta(b, e, None, n) + section_delta(b, e, Some(CfSection::Operating), n)
            + section_delta(b, e, Some(CfSection::Investing), n) + section_delta(
            b,
            e,
            Some(CfSection::Financing),
            n,
        ) == seq_sum(e.subrange(0, n)) - seq_sum(b.subrange(0, n)),
    decreases n,
{
    if n > 0 {
        lemma_sections_partition(b, e, n - 1);
        assert(e.subrange(0, n).drop_last() =~= e.subrange(0, n - 1));
        assert(b.subrange(0, n).drop_last() =~= b.subrange(0, n - 1));
    }
}

/// Cash-flow identity: between two zero-sum trial balances, operating plus
/// investing plus financing cash flow is exactly the change in cash.
pub proof fn law_cash_flow_identity(begin: Balances, end: Balances)
    requires
        begin.total() == 0,
        end.total() == 0,
    ensures
        cf_operating(begin@, end@) + cf_investing(begin@, end@) + cf_financing(begin@, end@)
            == cf_cash_delta(begin@, end@),
{
    begin.lemma_len();
    end.lemma_len();
    lemma_sections_partition(begin@, end@, N_ACCOUNTS as int);
    assert(begin@.subrange(0, N_ACCOUNTS as int) =~= begin@);
    assert(end@.subrange(0, N_ACCOUNTS as int) =~= end@);
}

/// `v` as an i64, or `Overflow`.
pub fn narrow(v: i128) -> (r: Result<i64, SettleError>)
    ensures
        i64_fits(v as int) ==> r == Ok::<i64, SettleError>(v as i64),
        !i64_fits(v as int) ==> r == Err::<i64, SettleError>(SettleError::Overflow),
{
    if v < i64::MIN as i128 || v > i64::MAX as i128 {
        Err(SettleError::Overflow)
    } else {
        Ok(v as i64)
    }
}

impl CashFlowStatement {
    /// The statement of the period from `begin` to `end`. Between zero-sum
    /// balances the statement always reconciles.
    pub fn between(begin: &Balances, end: &Balances) -> (r: Result<Self, SettleError>)
        ensures
            statement_fits(begin@, end@) ==> r == Ok::<Self, SettleError>(
                statement_spec(begin@, end@),
            ),
            !statement_fits(begin@, end@) ==> r == Err::<Self, SettleError>(
                SettleError::Overflow,
            ),
            begin.total() == 0 && end.total() == 0 && r is Ok ==> r->Ok_0.net_change_minor
                == r->Ok_0.cash_delta_minor,
    {
        proof {
            begin.lemma_len();
            end.lemma_len();
        }
        let mut operating: i128 = 0;
        let mut investing: i128 = 0;
        let mut financing: i128 = 0;
        let mut cash_delta: i128 = 0;
        let mut i: usize = 0;
        while i < N_ACCOUNTS
            invariant
                i <= N_ACCOUNTS,
                begin@.len() == N_ACCOUNTS,
                end@.len() == N_ACCOUNTS,
                operating == -section_delta(begin@, end@, Some(CfSection::Operating), i as int),
                investing == -section_delta(begin@, end@, Some(CfSection::Investing), i as int),
                financing == -section_delta(begin@, end@, Some(CfSection::Financing), i as int),
                cash_delta == section_delta(begin@, end@, None, i as int),
            decreases N_ACCOUNTS - i,
        {
            proof {
                lemma_section_delta_bounds(begin@, end@, Some(CfSection::Operating), i as int);
                lemma_section_delta_bounds(begin@, end@, Some(CfSection::Investing), i as int);
                lemma_section_delta_bounds(begin@, end@, Some(CfSection::Financing), i as int);
                lemma_section_delta_bounds(begin@, end@, None, i as int);
            }
            let account = match AccountCode::from_index(i) {
                Some(a) => a,
                None => AccountCode::Cash,
            };
            proof {
                crate::ledger::lemma_account_index_roundtrip(account);
            }
            let delta = end.balance_minor(account) as i128 - begin.balance_minor(account) as i128;
            proof {
                assert(account_index(account) == i) by {
                    assert(account == account_at(i as int));
                    crate::ledger::lemma_index_of_at(i as int);
                }
            }
            match section_of(account) {
                None => cash_delta = cash_delta + delta,
                Some(CfSection::Operating) => operating = operating - delta,
                Some(CfSection::Investing) => investing = investing - delta,
                Some(CfSection::Financing) => financing = financing - delta,
            }
            i = i + 1;
        }
        proof {
            lemma_section_delta_bounds(begin@, end@, Some(CfSection::Operating), 20);
            lemma_section_delta_bounds(begin@, end@, Some(CfSection::Investing), 20);
            lemma_section_delta_bounds(begin@, end@, Some(CfSection::Financing), 20);
            lemma_class_sum_bounds(begin@, AccountClass::Revenue, 20);
            lemma_class_sum_bounds(begin@, AccountClass::Expense, 20);
            lemma_class_sum_bounds(end@, AccountClass::Revenue, 20);
            lemma_class_sum_bounds(end@, AccountClass::Expense, 20);
        }
        let b = begin.class_totals();
        let e = end.class_totals();
        let net_income = (e.revenue - e.expense) - (b.revenue - b.expense);
        let depreciation = -(end.balance_minor(AccountCode::AccumulatedDepreciation) as i128
            - begin.balance_minor(AccountCode::AccumulatedDepreciation) as i128);
        let operating_minor = match narrow(operating) {
            Ok(v) => v,
            Err(e) => return Err(e),
        };
        let investing_minor = match narrow(investing) {
            Ok(v) => v,
            Err(e) => return Err(e),
        };
        let financing_minor = match narrow(financing) {
            Ok(v) => v,
            Err(e) => return Err(e),
        };
        let net_change_minor = match narrow(operating + investing + financing) {
            Ok(v) => v,
            Err(e) => return Err(e),
        };
        let cash_delta_minor = match narrow(cash_delta) {
            Ok(v) => v,
            Err(e) => return Err(e),
        };
        let net_income_minor = match narrow(net_income) {
            Ok(v) => v,
            Err(e) => return Err(e),
        };
        let depreciation_minor = match narrow(depreciation) {
            Ok(v) => v,
            Err(e) => return Err(e),
        };
        proof {
            if begin.total() == 0 && end.total() == 0 {
                law_cash_flow_identity(*begin, *end);
            }
        }
        Ok(
            CashFlowStatement {
                operating_minor,
                investing_minor,
                financing_minor,
                net_change_minor,
                cash_delta_minor,
                net_income_minor,
                depreciation_minor,
            },
        )
    }

    /// The statement reconciles with the cash account, or the books are
    /// breached.
    pub fn verify(&self) -> (r: Result<(), SettleError>)
        ensures
            self.net_change_minor == self.cash_delta_minor ==> r is Ok,
            self.net_change_minor != self.cash_delta_minor ==> r == Err::<(), SettleError>(
                SettleError::AccountingBreach {
                    statement_minor: self.net_change_minor as i128,
                    cash_minor: self.cash_delta_minor as i128,
                },
            ),
    {
        if self.net_change_minor == self.cash_delta_minor {
            Ok(())
        } else {
            Err(
                SettleError::AccountingBreach {
                    statement_minor: self.net_change_minor as i128,
                    cash_minor: self.cash_delta_minor as i128,
                },
            )
        }
    }
}

/// An i64 operation's exact result, saturated at the type's bounds.
pub open spec fn sat_i64(v: int) -> int {
    if v > i64::MAX {
        i64::MAX as int
    } else if v < i64::MIN {
        i64::MIN as int
    } else {
        v
    }
}

pub open spec fn max0(v: int) -> int {
    if v < 0 {
        0
    } else {
        v
    }
}

/// Price headroom below twice the reference: `max(0, 2·ref − price)`, each
/// step saturating in i64.
pub open spec fn headroom_spec(reference: int, price: int) -> int {
    max0(sat_i64(sat_i64(2 * reference) - price))
}

/// Linear demand around the reference price, scaled by the demand index:
/// `units = base × index × headroom / (1e6 × ref)`, floor-half-up; zero when
/// the reference price or the base volume is not positive.
pub open spec fn demand_spec(base: i64, reference: i64, price: i64, index_micro: i64) -> Result<
    u32,
    SettleError,
> {
    if reference <= 0 || base <= 0 {
        Ok(0)
    } else {
        let num = base * max0(index_micro as int) * headroom_spec(reference as int, price as int);
        if !i128_fits(num) {
            Err(SettleError::Overflow)
        } else {
            match floor_half_up_result(num, 1_000_000 * reference) {
                Err(e) => Err(SettleError::Money(e)),
                Ok(u) => if max0(u) > u32::MAX {
                    Err(SettleError::Overflow)
                } else {
                    Ok(max0(u) as u32)
                },
            }
        }
    }
}

/// At its reference price and a neutral demand index (one million micro),
/// a line is asked for exactly its base volume.
pub proof fn law_reference_price_sells_the_base_volume(base: i64, reference: i64)
    requires
        base > 0,
        reference > 0,
        2 * reference <= i64::MAX,
        demand_spec(base, reference, reference, 1_000_000) is Ok,
    ensures
        demand_spec(base, reference, reference, 1_000_000) == Ok::<u32, SettleError>(base as u32),
{
    let d = 1_000_000 * reference;
    assert(headroom_spec(reference as int, reference as int) == reference);
    let num = base * max0(1_000_000) * headroom_spec(reference as int, reference as int);
    assert(num == base * d) by (nonlinear_arith)
        requires
            num == base * 1_000_000 * reference,
            d == 1_000_000 * reference,
    ;
    assert(2 * num + d == base * (2 * d) + d) by (nonlinear_arith)
        requires
            num == base * d,
    ;
    vstd::arithmetic::div_mod::lemma_fundamental_div_mod_converse(2 * num + d, 2 * d, base as int, d);
    assert(crate::money::floor_half_up_spec(num, d) == base);
}

/// The demand curve slopes downward: at a higher price a line never sells
/// more units than at a lower one, all else equal.
pub proof fn law_demand_falls_as_price_rises(base: i64, reference: i64, p1: i64, p2: i64, index_micro: i64)
    requires
        p1 <= p2,
        demand_spec(base, reference, p1, index_micro) is Ok,
        demand_spec(base, reference, p2, index_micro) is Ok,
    ensures
        demand_spec(base, reference, p1, index_micro)->Ok_0 >= demand_spec(base, reference, p2, index_micro)->Ok_0,
{
    if reference > 0 && base > 0 {
        let h1 = headroom_spec(reference as int, p1 as int);
        let h2 = headroom_spec(reference as int, p2 as int);
        assert(h1 >= h2);
        let bi = base * max0(index_micro as int);
        assert(bi >= 0) by (nonlinear_arith)
            requires
                base > 0,
                bi == base * max0(index_micro as int),
                max0(index_micro as int) >= 0,
        ;
        let n1 = bi * h1;
        let n2 = bi * h2;
        assert(n1 >= n2) by (nonlinear_arith)
            requires
                bi >= 0,
                h1 >= h2,
                n1 == bi * h1,
                n2 == bi * h2,
        ;
        assert(base * max0(index_micro as int) * h1 == n1);
        assert(base * max0(index_micro as int) * h2 == n2);
        let d = 1_000_000 * reference;
        assert(crate::money::floor_half_up_spec(n1, d) >= crate::money::floor_half_up_spec(n2, d)) by (nonlinear_arith)
            requires
                n1 >= n2,
                d > 0,
        {
            assert(2 * n1 + d >= 2 * n2 + d);
            assert(2 * d > 0);
            vstd::arithmetic::div_mod::lemma_div_is_ordered(2 * n2 + d, 2 * n1 + d, 2 * d);
        }
    }
}

/// A line priced at twice its reference or more sells nothing.
pub proof fn law_demand_dies_at_twice_the_reference(base: i64, reference: i64, price: i64, index_micro: i64)
    requires
        price >= 2 * reference,
    ensures
        demand_spec(base, reference, price, index_micro) == Ok::<u32, SettleError>(0),
{
    if reference > 0 && base > 0 {
        assert(headroom_spec(reference as int, price as int) == 0);
        assert(base * max0(index_micro as int) * 0 == 0) by (nonlinear_arith);
        assert(crate::money::floor_half_up_spec(0, 1_000_000 * reference) == 0) by (nonlinear_arith)
            requires
                reference > 0,
        {
            assert((2 * 0 + 1_000_000 * reference) / (2 * (1_000_000 * reference)) == 0) by (nonlinear_arith)
                requires
                    reference > 0,
            ;
        }
    }
}

fn saturating_sub_i64(a: i64, b: i64) -> (r: i64)
    ensures
        r == sat_i64(a - b),
{
    if b < 0 && a > i64::MAX + b {
        i64::MAX
    } else if b > 0 && a < i64::MIN + b {
        i64::MIN
    } else {
        a - b
    }
}

fn saturating_double_i64(a: i64) -> (r: i64)
    ensures
        r == sat_i64(2 * a),
{
    if a > i64::MAX / 2 {
        i64::MAX
    } else if a < i64::MIN / 2 {
        i64::MIN
    } else {
        a * 2
    }
}

/// Units demanded this tick of a line with base volume `base_units` and
/// reference price `reference_price_minor`, priced at `price_minor`, under
/// demand index `demand_index_micro`. At the reference price the line sells
/// `base × index`; at twice the reference it sells nothing.
pub fn demand_units(
    base_units: i64,
    reference_price_minor: i64,
    price_minor: i64,
    demand_index_micro: i64,
) -> (r: Result<u32, SettleError>)
    ensures
        r == demand_spec(base_units, reference_price_minor, price_minor, demand_index_micro),
{
    if reference_price_minor <= 0 || base_units <= 0 {
        return Ok(0);
    }
    let doubled = saturating_double_i64(reference_price_minor);
    let diff = saturating_sub_i64(doubled, price_minor);
    let headroom: i64 = if diff < 0 {
        0
    } else {
        diff
    };
    let index: i64 = if demand_index_micro < 0 {
        0
    } else {
        demand_index_micro
    };
    proof {
        assert(0 <= base_units * index <= 0x7fff_ffff_ffff_ffff * 0x7fff_ffff_ffff_ffff)
            by (nonlinear_arith)
            requires
                0 < base_units <= 0x7fff_ffff_ffff_ffff,
                0 <= index <= 0x7fff_ffff_ffff_ffff,
        ;
    }
    let scaled: i128 = base_units as i128 * index as i128;
    proof {
        assert(headroom == headroom_spec(reference_price_minor as int, price_minor as int));
    }
    let num = match scaled.checked_mul(headroom as i128) {
        Some(v) => v,
        None => return Err(SettleError::Overflow),
    };
    let den: i128 = 1_000_000i128 * reference_price_minor as i128;
    let units = match floor_half_up(num, den) {
        Ok(u) => u,
        Err(e) => return Err(SettleError::Money(e)),
    };
    let clipped: i128 = if units < 0 {
        0
    } else {
        units
    };
    if clipped > u32::MAX as i128 {
        return Err(SettleError::Overflow);
    }
    Ok(clipped as u32)
}

/// What one product line did this tick.
#[derive(Debug, Clone, Copy, PartialEq, Eq, Structural)]
pub struct LineResult {
    pub sku: u8,
    pub units_sold: u32,
    pub units_demanded: u32,
    pub revenue_minor: i64,
    pub cogs_minor: i64,
}

#[derive(Debug, Clone, PartialEq, Eq)]
pub struct TickResult {
    pub lines: Vec<LineResult>,
    pub revenue_minor: i64,
    pub cogs_minor: i64,
    /// Demand the firm could not serve: the stockout signal.
    pub unmet_units: u32,
}

pub open spec fn min_u32(a: u32, b: u32) -> u32 {
    if a < b {
        a
    } else {
        b
    }
}

pub open spec fn sat_u32(v: int) -> u32 {
    if v > u32::MAX {
        u32::MAX
    } else {
        v as u32
    }
}

/// One line's sales this tick: demand at the line's price, served from
/// stock, revenue at the price, cost relieved at carrying value.
pub open spec fn line_spec(params: FirmParams, index_micro: i64, sku: int, s: SkuState) -> Result<
    LineResult,
    SettleError,
> {
    let cfg = params.skus@[sku];
    match demand_spec(
        cfg.base_units_per_tick,
        cfg.reference_price_minor,
        s.unit_price_minor,
        index_micro,
    ) {
        Err(e) => Err(e),
        Ok(demanded) => {
            let sold = min_u32(demanded, s.inventory_units);
            let revenue = s.unit_price_minor * sold;
            if sold == 0 {
                Ok(
                    LineResult {
                        sku: sku as u8,
                        units_sold: 0,
                        units_demanded: demanded,
                        revenue_minor: 0,
                        cogs_minor: 0,
                    },
                )
            } else if !i64_fits(revenue) {
                Err(SettleError::Overflow)
            } else {
                match cogs_spec(s, sold) {
                    Err(e) => Err(SettleError::Firm(e)),
                    Ok(cogs) => if !amount_ok(revenue as i64) {
                        Err(
                            SettleError::Compile(
                                CompileError::AmountOutOfRange { got_minor: revenue as i64 },
                            ),
                        )
                    } else if cogs > 0 && !amount_ok(cogs) {
                        Err(SettleError::Compile(CompileError::AmountOutOfRange { got_minor: cogs }))
                    } else {
                        Ok(
                            LineResult {
                                sku: sku as u8,
                                units_sold: sold,
                                units_demanded: demanded,
                                revenue_minor: revenue as i64,
                                cogs_minor: cogs,
                            },
                        )
                    },
                }
            }
        },
    }
}

/// The first `n` lines of a tick, with the running revenue, cost and unmet
/// demand; the first failure wins.
pub open spec fn ops_spec(params: FirmParams, index_micro: i64, f: FirmView, n: int) -> Result<
    (Seq<LineResult>, i64, i64, u32),
    SettleError,
>
    decreases n,
{
    if n <= 0 {
        Ok((Seq::empty(), 0i64, 0i64, 0u32))
    } else {
        match ops_spec(params, index_micro, f, n - 1) {
            Err(e) => Err(e),
            Ok((lines, rev, cogs, unmet)) => match line_spec(
                params,
                index_micro,
                n - 1,
                f.skus[n - 1],
            ) {
                Err(e) => Err(e),
                Ok(l) => {
                    let unmet2 = sat_u32(unmet + (l.units_demanded - l.units_sold));
                    if l.units_sold == 0 {
                        Ok((lines.push(l), rev, cogs, unmet2))
                    } else if !i64_fits(rev + l.revenue_minor) || !i64_fits(cogs + l.cogs_minor) {
                        Err(SettleError::Overflow)
                    } else {
                        Ok(
                            (
                                lines.push(l),
                                (rev + l.revenue_minor) as i64,
                                (cogs + l.cogs_minor) as i64,
                                unmet2,
                            ),
                        )
                    }
                },
            },
        }
    }
}

/// The postings of one sale: cash against revenue, and (when there is a
/// cost to relieve) cost of goods against inventory, in one transaction.
pub open spec fn sale_postings(revenue: i64, cogs: i64) -> Seq<Posting> {
    if cogs > 0 {
        transfer_postings(AccountCode::Cash, AccountCode::SalesRevenue, revenue)
            + transfer_postings(AccountCode::CostOfGoodsSold, AccountCode::Inventory, cogs)
    } else {
        transfer_postings(AccountCode::Cash, AccountCode::SalesRevenue, revenue)
    }
}

pub open spec fn sale_shape(l: LineResult) -> Shape {
    (
        Some(sale_postings(l.revenue_minor, l.cogs_minor)),
        FirmEffect::ConsumeInventory { sku: l.sku, units: l.units_sold, cogs_minor: l.cogs_minor },
    )
}

/// The plans of a tick: one per line that sold something, in line order.
pub open spec fn sale_shapes(lines: Seq<LineResult>) -> Seq<Shape>
    decreases lines.len(),
{
    if lines.len() == 0 {
        Seq::empty()
    } else if lines.last().units_sold > 0 {
        sale_shapes(lines.drop_last()).push(sale_shape(lines.last()))
    } else {
        sale_shapes(lines.drop_last())
    }
}

proof fn lemma_ops_err_sticks(params: FirmParams, index_micro: i64, f: FirmView, i: int)
    requires
        0 <= i <= MAX_SKUS,
        ops_spec(params, index_micro, f, i) is Err,
    ensures
        ops_spec(params, index_micro, f, MAX_SKUS as int) == ops_spec(params, index_micro, f, i),
    decreases MAX_SKUS - i,
{
    if i < MAX_SKUS {
        lemma_ops_err_sticks(params, index_micro, f, i + 1);
    }
}

/// The demand a run of lines left unserved: each line's demanded units less
/// its sold units, summed.
pub open spec fn missed_units(lines: Seq<LineResult>) -> int
    decreases lines.len(),
{
    if lines.len() == 0 {
        0
    } else {
        missed_units(lines.drop_last()) + (lines.last().units_demanded - lines.last().units_sold)
    }
}

proof fn lemma_missed_units_zero(lines: Seq<LineResult>)
    requires
        forall|i: int| 0 <= i < lines.len() ==> (#[trigger] lines[i]).units_sold == lines[i].units_demanded,
    ensures
        missed_units(lines) == 0,
    decreases lines.len(),
{
    if lines.len() > 0 {
        let init = lines.drop_last();
        assert forall|i: int| 0 <= i < init.len() implies (#[trigger] init[i]).units_sold == init[i].units_demanded by {
            assert(init[i] == lines[i]);
        }
        lemma_missed_units_zero(init);
    }
}

/// The revenue of a run of lines, summed.
pub open spec fn revenue_total(lines: Seq<LineResult>) -> int
    decreases lines.len(),
{
    if lines.len() == 0 {
        0
    } else {
        revenue_total(lines.drop_last()) + lines.last().revenue_minor
    }
}

/// The cost of goods of a run of lines, summed.
pub open spec fn cost_total(lines: Seq<LineResult>) -> int
    decreases lines.len(),
{
    if lines.len() == 0 {
        0
    } else {
        cost_total(lines.drop_last()) + lines.last().cogs_minor
    }
}

/// The inventory cost a run of lines relieves: each positive cost of goods,
/// summed.
pub open spec fn relieved_total(lines: Seq<LineResult>) -> int
    decreases lines.len(),
{
    if lines.len() == 0 {
        0
    } else {
        relieved_total(lines.drop_last()) + if lines.last().cogs_minor > 0 {
            lines.last().cogs_minor as int
        } else {
            0
        }
    }
}

proof fn lemma_ops_lines(params: FirmParams, index_micro: i64, f: FirmView, n: int)
    requires
        0 <= n <= MAX_SKUS,
        ops_spec(params, index_micro, f, n) is Ok,
    ensures
        ({
            let (lines, rev, cogs, unmet) = ops_spec(params, index_micro, f, n)->Ok_0;
            &&& lines.len() == n
            &&& forall|i: int|
                0 <= i < n ==> (#[trigger] lines[i]).units_sold == (if lines[i].units_demanded
                    < f.skus[i].inventory_units {
                    lines[i].units_demanded
                } else {
                    f.skus[i].inventory_units
                })
            &&& missed_units(lines) >= 0
            &&& unmet == sat_u32(missed_units(lines))
            &&& forall|i: int|
                0 <= i < n ==> {
                    &&& (#[trigger] lines[i]).sku == i
                    &&& lines[i].revenue_minor == f.skus[i].unit_price_minor * lines[i].units_sold
                    &&& lines[i].units_sold == 0 ==> lines[i].cogs_minor == 0
                }
            &&& rev == revenue_total(lines)
            &&& cogs == cost_total(lines)
        }),
    decreases n,
{
    if n > 0 {
        if ops_spec(params, index_micro, f, n - 1) is Err {
        } else {
            lemma_ops_lines(params, index_micro, f, n - 1);
            let (lines0, rev0, cogs0, unmet0) = ops_spec(params, index_micro, f, n - 1)->Ok_0;
            let l = line_spec(params, index_micro, n - 1, f.skus[n - 1])->Ok_0;
            let (lines, rev, cogs, unmet) = ops_spec(params, index_micro, f, n)->Ok_0;
            assert(lines == lines0.push(l));
            assert(lines.drop_last() =~= lines0);
            assert forall|i: int| 0 <= i < n implies (#[trigger] lines[i]).units_sold == (if lines[i].units_demanded
                < f.skus[i].inventory_units {
                lines[i].units_demanded
            } else {
                f.skus[i].inventory_units
            }) by {
                if i < n - 1 {
                    assert(lines[i] == lines0[i]);
                }
            }
            assert forall|i: int| 0 <= i < n implies {
                &&& (#[trigger] lines[i]).sku == i
                &&& lines[i].revenue_minor == f.skus[i].unit_price_minor * lines[i].units_sold
                &&& lines[i].units_sold == 0 ==> lines[i].cogs_minor == 0
            } by {
                if i < n - 1 {
                    assert(lines[i] == lines0[i]);
                }
            }
        }
    }
}

/// A tick sells each line `min(demand, stock)`, and the stockout it reports
/// is the demand left unserved, summed over the lines and saturated at
/// `u32::MAX`; in particular a tick in which every line sold all that was
/// asked of it reports no unmet demand.
pub proof fn law_tick_reports_the_unserved_demand(
    ctx: ActionContext,
    before: SimBooks,
    after: SimBooks,
    r: Result<TickResult, SettleError>,
)
    requires
        tick_outcome(ctx, before, after, r),
        r is Ok,
    ensures
        ({
            let t = r->Ok_0;
            &&& t.lines@.len() == MAX_SKUS
            &&& forall|i: int|
                0 <= i < t.lines@.len() ==> (#[trigger] t.lines@[i]).units_sold == (if t.lines@[i].units_demanded
                    < before.firm@.skus[i].inventory_units {
                    t.lines@[i].units_demanded
                } else {
                    before.firm@.skus[i].inventory_units
                })
            &&& t.unmet_units == (if missed_units(t.lines@) > u32::MAX {
                u32::MAX as int
            } else {
                missed_units(t.lines@)
            })
            &&& (forall|i: int| 0 <= i < t.lines@.len() ==> (#[trigger] t.lines@[i]).units_sold
                == t.lines@[i].units_demanded) ==> t.unmet_units == 0
        }),
{
    let params = ctx.firm_params;
    let idx = ctx.market.demand_index_micro;
    let f = before.firm@;
    lemma_ops_lines(params, idx, f, MAX_SKUS as int);
    let (lines, rev, cogs, unmet) = ops_spec(params, idx, f, MAX_SKUS as int)->Ok_0;
    let applied = choose|applied: Result<usize, CompileError>|
        shapes_outcome(before, after, sale_shapes(lines), applied) && tick_finish(
            after,
            lines,
            rev,
            cogs,
            unmet,
            applied,
            r,
        );
    let t = r->Ok_0;
    assert(t.lines@ == lines);
    if forall|i: int| 0 <= i < t.lines@.len() ==> (#[trigger] t.lines@[i]).units_sold
        == t.lines@[i].units_demanded {
        lemma_missed_units_zero(lines);
    }
}

proof fn lemma_account_delta_concat(p: Seq<Posting>, q: Seq<Posting>, a: AccountCode)
    ensures
        crate::ledger::account_delta(p + q, a) == crate::ledger::account_delta(p, a)
            + crate::ledger::account_delta(q, a),
    decreases q.len(),
{
    if q.len() == 0 {
        assert(p + q =~= p);
    } else {
        assert((p + q).drop_last() =~= p + q.drop_last());
        lemma_account_delta_concat(p, q.drop_last(), a);
    }
}

proof fn lemma_sale_shapes_delta(lines: Seq<LineResult>, a: AccountCode)
    requires
        forall|i: int|
            0 <= i < lines.len() && (#[trigger] lines[i]).units_sold == 0 ==> lines[i].revenue_minor == 0
                && lines[i].cogs_minor == 0,
    ensures
        crate::action::shapes_delta(sale_shapes(lines), a) == (if a == AccountCode::Cash {
            revenue_total(lines)
        } else if a == AccountCode::SalesRevenue {
            -revenue_total(lines)
        } else if a == AccountCode::CostOfGoodsSold {
            relieved_total(lines)
        } else if a == AccountCode::Inventory {
            -relieved_total(lines)
        } else {
            0
        }),
    decreases lines.len(),
{
    if lines.len() > 0 {
        let init = lines.drop_last();
        assert forall|i: int|
            0 <= i < init.len() && (#[trigger] init[i]).units_sold == 0 implies init[i].revenue_minor == 0
                && init[i].cogs_minor == 0 by {
            assert(init[i] == lines[i]);
        }
        lemma_sale_shapes_delta(init, a);
        let l = lines.last();
        if l.units_sold > 0 {
            let t = sale_shapes(init).push(sale_shape(l));
            assert(t.drop_last() =~= sale_shapes(init));
            crate::action::lemma_transfer_delta(AccountCode::Cash, AccountCode::SalesRevenue, l.revenue_minor, a);
            crate::action::lemma_transfer_delta(AccountCode::CostOfGoodsSold, AccountCode::Inventory, l.cogs_minor, a);
            lemma_account_delta_concat(
                transfer_postings(AccountCode::Cash, AccountCode::SalesRevenue, l.revenue_minor),
                transfer_postings(AccountCode::CostOfGoodsSold, AccountCode::Inventory, l.cogs_minor),
                a,
            );
        } else {
            assert(l == lines[lines.len() - 1]);
        }
    }
}

/// A tick books exactly its sales: each line's revenue is its price times
/// the units it sold, cash rises and sales revenue is credited by the
/// revenue summed over the lines, cost of goods rises and inventory falls
/// by the cost the lines relieved, and no other account moves.
pub proof fn law_tick_books_its_sales(
    ctx: ActionContext,
    before: SimBooks,
    after: SimBooks,
    r: Result<TickResult, SettleError>,
)
    requires
        tick_outcome(ctx, before, after, r),
        r is Ok,
    ensures
        ({
            let t = r->Ok_0;
            &&& forall|i: int|
                0 <= i < t.lines@.len() ==> {
                    &&& (#[trigger] t.lines@[i]).sku == i
                    &&& t.lines@[i].revenue_minor == before.firm@.skus[i].unit_price_minor * t.lines@[i].units_sold
                }
            &&& t.revenue_minor == revenue_total(t.lines@)
            &&& t.cogs_minor == cost_total(t.lines@)
            &&& forall|a: AccountCode|
                #[trigger] after.balances.bal(a) == before.balances.bal(a) + (if a == AccountCode::Cash {
                    revenue_total(t.lines@)
                } else if a == AccountCode::SalesRevenue {
                    -revenue_total(t.lines@)
                } else if a == AccountCode::CostOfGoodsSold {
                    relieved_total(t.lines@)
                } else if a == AccountCode::Inventory {
                    -relieved_total(t.lines@)
                } else {
                    0
                })
        }),
{
    let params = ctx.firm_params;
    let idx = ctx.market.demand_index_micro;
    let f = before.firm@;
    lemma_ops_lines(params, idx, f, MAX_SKUS as int);
    let (lines, rev, cogs, unmet) = ops_spec(params, idx, f, MAX_SKUS as int)->Ok_0;
    let applied = choose|applied: Result<usize, CompileError>|
        shapes_outcome(before, after, sale_shapes(lines), applied) && tick_finish(
            after,
            lines,
            rev,
            cogs,
            unmet,
            applied,
            r,
        );
    assert(applied is Ok);
    let t = r->Ok_0;
    assert(t.lines@ == lines);
    crate::action::law_committed_shapes_move_each_account(before, after, sale_shapes(lines), applied);
    assert forall|a: AccountCode|
        #[trigger] after.balances.bal(a) == before.balances.bal(a) + (if a == AccountCode::Cash {
            revenue_total(lines)
        } else if a == AccountCode::SalesRevenue {
            -revenue_total(lines)
        } else if a == AccountCode::CostOfGoodsSold {
            relieved_total(lines)
        } else if a == AccountCode::Inventory {
            -relieved_total(lines)
        } else {
            0
        }) by {
        lemma_sale_shapes_delta(lines, a);
    }
}

/// The two-legged sale, or the four-legged sale when cost is relieved.
fn sale_transaction(revenue: Money, cogs: i64) -> (r: Result<Transaction, SettleError>)
    requires
        amount_ok(revenue.0),
        cogs > 0 ==> amount_ok(cogs),
    ensures
        r matches Ok(tx) && tx.wf() && tx.spec_kind() == TxKind::RecognizeSale
            && tx.spec_postings() == sale_postings(revenue.0, cogs),
{
    if cogs <= 0 {
        return match transfer(
            TxKind::RecognizeSale,
            AccountCode::Cash,
            AccountCode::SalesRevenue,
            revenue,
        ) {
            Ok(tx) => Ok(tx),
            Err(e) => Err(SettleError::Compile(e)),
        };
    }
    let cost = Money(cogs);
    let mut ps: Vec<Posting> = Vec::new();
    ps.push(Posting { account: AccountCode::Cash, side: Side::Debit, amount: revenue });
    ps.push(Posting { account: AccountCode::SalesRevenue, side: Side::Credit, amount: revenue });
    ps.push(Posting { account: AccountCode::CostOfGoodsSold, side: Side::Debit, amount: cost });
    ps.push(Posting { account: AccountCode::Inventory, side: Side::Credit, amount: cost });
    proof {
        let s = ps@;
        assert(s =~= sale_postings(revenue.0, cogs));
        let s3 = s.drop_last();
        let s2 = s3.drop_last();
        let s1 = s2.drop_last();
        assert(s1.drop_last() =~= Seq::<Posting>::empty());
        assert(s1.last() == s[0]);
        assert(debit_total(s1.drop_last()) == 0);
        assert(credit_total(s1.drop_last()) == 0);
        assert(debit_total(s1) == revenue.0);
        assert(credit_total(s1) == 0);
        assert(debit_total(s2) == revenue.0);
        assert(credit_total(s2) == revenue.0);
        assert(debit_total(s3) == revenue.0 + cogs);
        assert(credit_total(s3) == revenue.0);
        assert(debit_total(s) == revenue.0 + cogs);
        assert(credit_total(s) == revenue.0 + cogs);
        assert(transaction_check(s) is None);
    }
    match Transaction::new(TxKind::RecognizeSale, ps) {
        Ok(tx) => Ok(tx),
        Err(e) => Err(SettleError::Compile(CompileError::Ledger(e))),
    }
}

/// Derive this tick's sales without touching anything.
fn plan_operations(ctx: &ActionContext, books: &SimBooks) -> (r: Result<
    (Vec<ActionPlan>, TickResult),
    SettleError,
>)
    ensures
        match ops_spec(
            ctx.firm_params,
            ctx.market.demand_index_micro,
            books.firm@,
            MAX_SKUS as int,
        ) {
            Err(e) => r == Err::<(Vec<ActionPlan>, TickResult), SettleError>(e),
            Ok((lines, rev, cogs, unmet)) => r matches Ok((plans, t)) && t.lines@ == lines
                && t.revenue_minor == rev && t.cogs_minor == cogs && t.unmet_units == unmet
                && shapes_of(plans@) == sale_shapes(lines) && forall|k: int|
                0 <= k < plans@.len() ==> #[trigger] plan_wf(plans@[k]),
        },
{
    let skus = books.firm.skus();
    proof {
        books.firm.lemma_view();
    }
    let ghost params = ctx.firm_params;
    let ghost idx = ctx.market.demand_index_micro;
    let ghost f = books.firm@;
    let mut plans: Vec<ActionPlan> = Vec::new();
    let mut lines: Vec<LineResult> = Vec::new();
    let mut revenue_total: i64 = 0;
    let mut cogs_total: i64 = 0;
    let mut unmet_units: u32 = 0;
    let mut i: usize = 0;
    while i < MAX_SKUS
        invariant
            i <= MAX_SKUS,
            skus@.len() == MAX_SKUS,
            f == books.firm@,
            params == ctx.firm_params,
            idx == ctx.market.demand_index_micro,
            f.skus.len() == MAX_SKUS,
            forall|j: int| 0 <= j < MAX_SKUS ==> #[trigger] skus@[j] == (j as u8, f.skus[j]),
            ops_spec(params, idx, f, i as int) == Ok::<
                (Seq<LineResult>, i64, i64, u32),
                SettleError,
            >((lines@, revenue_total, cogs_total, unmet_units)),
            shapes_of(plans@) == sale_shapes(lines@),
            forall|k: int| 0 <= k < plans@.len() ==> #[trigger] plan_wf(plans@[k]),
        decreases MAX_SKUS - i,
    {
        let (sku_id, state) = skus[i];
        let cfg = ctx.firm_params.skus[i];
        let demanded = match demand_units(
            cfg.base_units_per_tick,
            cfg.reference_price_minor,
            state.unit_price_minor,
            ctx.market.demand_index_micro,
        ) {
            Ok(d) => d,
            Err(e) => {
                proof {
                    lemma_ops_err_sticks(params, idx, f, i as int + 1);
                }
                return Err(e);
            },
        };
        let sold: u32 = if demanded < state.inventory_units {
            demanded
        } else {
            state.inventory_units
        };
        let missed: u32 = demanded - sold;
        unmet_units = if unmet_units > u32::MAX - missed {
            u32::MAX
        } else {
            unmet_units + missed
        };
        if sold == 0 {
            let line = LineResult {
                sku: sku_id,
                units_sold: 0,
                units_demanded: demanded,
                revenue_minor: 0,
                cogs_minor: 0,
            };
            proof {
                assert(lines@.push(line).drop_last() =~= lines@);
            }
            lines.push(line);
            i = i + 1;
            continue;
        }
        proof {
            crate::firm::lemma_i64_u32_product(state.unit_price_minor as int, sold as int);
        }
        let revenue = state.unit_price_minor as i128 * sold as i128;
        let revenue_minor = match narrow(revenue) {
            Ok(v) => v,
            Err(e) => {
                proof {
                    lemma_ops_err_sticks(params, idx, f, i as int + 1);
                }
                return Err(e);
            },
        };
        let cogs_minor = match books.firm.cogs_for(sku_id, sold) {
            Ok(c) => c,
            Err(e) => {
                proof {
                    lemma_ops_err_sticks(params, idx, f, i as int + 1);
                }
                return Err(SettleError::Firm(e));
            },
        };
        let rev_amount = match checked_amount(revenue_minor) {
            Ok(m) => m,
            Err(e) => {
                proof {
                    lemma_ops_err_sticks(params, idx, f, i as int + 1);
                }
                return Err(SettleError::Compile(e));
            },
        };
        if cogs_minor > 0 {
            match checked_amount(cogs_minor) {
                Ok(_) => {},
                Err(e) => {
                    proof {
                        lemma_ops_err_sticks(params, idx, f, i as int + 1);
                    }
                    return Err(SettleError::Compile(e));
                },
            }
        }
        let tx = match sale_transaction(rev_amount, cogs_minor) {
            Ok(tx) => tx,
            Err(e) => return Err(e),
        };
        let line = LineResult {
            sku: sku_id,
            units_sold: sold,
            units_demanded: demanded,
            revenue_minor,
            cogs_minor,
        };
        let next_revenue = match revenue_total.checked_add(revenue_minor) {
            Some(v) => v,
            None => {
                proof {
                    lemma_ops_err_sticks(params, idx, f, i as int + 1);
                }
                return Err(SettleError::Overflow);
            },
        };
        let next_cogs = match cogs_total.checked_add(cogs_minor) {
            Some(v) => v,
            None => {
                proof {
                    lemma_ops_err_sticks(params, idx, f, i as int + 1);
                }
                return Err(SettleError::Overflow);
            },
        };
        let plan = ActionPlan {
            transaction: Some(tx),
            firm_effect: FirmEffect::ConsumeInventory { sku: sku_id, units: sold, cogs_minor },
        };
        proof {
            assert(lines@.push(line).drop_last() =~= lines@);
            assert(shapes_of(plans@.push(plan)) =~= shapes_of(plans@).push(sale_shape(line)));
        }
        plans.push(plan);
        lines.push(line);
        revenue_total = next_revenue;
        cogs_total = next_cogs;
        i = i + 1;
    }
    Ok(
        (
            plans,
            TickResult { lines, revenue_minor: revenue_total, cogs_minor: cogs_total, unmet_units },
        ),
    )
}

/// The firm's carrying value of all inventory, as `inventory_value_minor`
/// reports it.
pub open spec fn firm_inventory_spec(f: FirmView) -> int {
    sat_add(
        sat_add(sat_add(0, f.skus[0].inventory_value_minor as int), f.skus[1].inventory_value_minor as int),
        f.skus[2].inventory_value_minor as int,
    )
}

/// Why the two representations of inventory disagree, if they do.
pub open spec fn inventory_check(books: SimBooks) -> Option<SettleError> {
    let ledger = books.balances.bal(AccountCode::Inventory);
    let firm = firm_inventory_spec(books.firm@);
    if ledger == firm {
        None
    } else {
        Some(SettleError::InventoryDesync { ledger_minor: ledger as i64, firm_minor: firm as i64 })
    }
}

/// The ledger's `Inventory` balance and the firm's carrying value agree to
/// the minor unit.
pub fn verify_inventory_reconciled(books: &SimBooks) -> (r: Result<(), SettleError>)
    ensures
        match inventory_check(*books) {
            None => r is Ok,
            Some(e) => r == Err::<(), SettleError>(e),
        },
{
    let ledger_minor = books.balances.balance_minor(AccountCode::Inventory);
    let firm_minor = books.firm.inventory_value_minor();
    if ledger_minor == firm_minor {
        Ok(())
    } else {
        Err(SettleError::InventoryDesync { ledger_minor, firm_minor })
    }
}

/// The tick's result once its plans have been committed.
pub open spec fn tick_finish(
    new_books: SimBooks,
    lines: Seq<LineResult>,
    rev: i64,
    cogs: i64,
    unmet: u32,
    applied: Result<usize, CompileError>,
    r: Result<TickResult, SettleError>,
) -> bool {
    match applied {
        Err(ce) => r == Err::<TickResult, SettleError>(SettleError::Compile(ce)),
        Ok(_) => match inventory_check(new_books) {
            Some(e) => r == Err::<TickResult, SettleError>(e),
            None => r matches Ok(t) && t.lines@ == lines && t.revenue_minor == rev && t.cogs_minor
                == cogs && t.unmet_units == unmet,
        },
    }
}

/// One tick of operations from `before` to `after`: the planned sales are
/// staged and committed as one act, or nothing moves.
pub open spec fn tick_outcome(
    ctx: ActionContext,
    before: SimBooks,
    after: SimBooks,
    r: Result<TickResult, SettleError>,
) -> bool {
    match ops_spec(ctx.firm_params, ctx.market.demand_index_micro, before.firm@, MAX_SKUS as int) {
        Err(e) => r == Err::<TickResult, SettleError>(e) && crate::action::books_unchanged(before, after),
        Ok((lines, rev, cogs, unmet)) => exists|applied: Result<usize, CompileError>|
            shapes_outcome(before, after, sale_shapes(lines), applied) && tick_finish(
                after,
                lines,
                rev,
                cogs,
                unmet,
                applied,
                r,
            ),
    }
}

/// Run one tick of operations, atomic across all product lines: every line
/// sells `min(demand, stock)` at its price, the sales are staged and
/// committed as one act, and the inventory representations must agree
/// afterwards.
pub fn operate_tick(ctx: &ActionContext, books: &mut SimBooks) -> (r: Result<TickResult, SettleError>)
    requires
        old(books).wf(),
    ensures
        final(books).wf(),
        tick_outcome(*ctx, *old(books), *final(books), r),
{
    let (plans, result) = match plan_operations(ctx, books) {
        Ok(v) => v,
        Err(e) => return Err(e),
    };
    let ghost before = *books;
    let applied = apply_plans(plans.as_slice(), books);
    proof {
        crate::action::lemma_plans_outcome_shapes(before, *books, plans@, applied);
    }
    match applied {
        Ok(_) => {},
        Err(e) => return Err(SettleError::Compile(e)),
    }
    match verify_inventory_reconciled(books) {
        Ok(()) => {},
        Err(e) => return Err(e),
    }
    Ok(result)
}

#[derive(Debug, Clone, Copy, PartialEq, Eq, Structural)]
pub struct PeriodClose {
    pub depreciation_minor: i64,
    pub interest_minor: i64,
    pub amortised_prepaid_minor: i64,
    pub tax_minor: i64,
    pub cash_flow: CashFlowStatement,
}

/// `base × rate_bp / 10_000`, floor-half-up; zero for a non-positive base or
/// a zero rate.
pub open spec fn apply_bp_spec(base: int, rate_bp: int) -> Result<i64, SettleError> {
    if base <= 0 || rate_bp == 0 {
        Ok(0)
    } else {
        match floor_half_up_result(base * rate_bp, 10_000) {
            Err(e) => Err(SettleError::Money(e)),
            Ok(v) => if i64_fits(v) {
                Ok(v as i64)
            } else {
                Err(SettleError::Overflow)
            },
        }
    }
}

fn apply_bp(base_minor: i64, rate_bp: u32) -> (r: Result<i64, SettleError>)
    ensures
        r == apply_bp_spec(base_minor as int, rate_bp as int),
{
    if base_minor <= 0 || rate_bp == 0 {
        return Ok(0);
    }
    proof {
        crate::firm::lemma_i64_u32_product(base_minor as int, rate_bp as int);
    }
    let num = base_minor as i128 * rate_bp as i128;
    match floor_half_up(num, 10_000) {
        Ok(v) => narrow(v),
        Err(e) => Err(SettleError::Money(e)),
    }
}

pub open spec fn min_i64(a: i64, b: i64) -> i64 {
    if a < b {
        a
    } else {
        b
    }
}

/// The four charges of a close, each checked as the engine checks it:
/// depreciation capped at net book value, interest on both tranches, the
/// whole prepaid balance, then tax on what profit survives the three.
pub open spec fn close_charges(params: FirmParams, b: Seq<i64>, begin: Seq<i64>) -> Result<
    (i64, i64, i64, i64),
    SettleError,
> {
    let gross = b[account_index(AccountCode::PropertyPlantEquipment) as int];
    let accumulated = -b[account_index(AccountCode::AccumulatedDepreciation) as int];
    let net_book = max0(sat_i64(gross - accumulated)) as i64;
    let senior = -b[account_index(AccountCode::SeniorDebt) as int];
    let mezz = -b[account_index(AccountCode::MezzanineDebt) as int];
    let prepaid = max0(b[account_index(AccountCode::PrepaidExpenses) as int] as int) as i64;
    match apply_bp_spec(gross as int, params.depreciation_rate_bp as int) {
        Err(e) => Err(e),
        Ok(raw_dep) => {
            let dep = min_i64(raw_dep, net_book);
            if dep > 0 && !amount_ok(dep) {
                Err(SettleError::Compile(CompileError::AmountOutOfRange { got_minor: dep }))
            } else {
                match apply_bp_spec(senior, params.senior_rate_bp as int) {
                    Err(e) => Err(e),
                    Ok(si) => match apply_bp_spec(mezz, params.mezz_rate_bp as int) {
                        Err(e) => Err(e),
                        Ok(mi) => if !i64_fits(si + mi) {
                            Err(SettleError::Overflow)
                        } else if si + mi > 0 && !amount_ok((si + mi) as i64) {
                            Err(
                                SettleError::Compile(
                                    CompileError::AmountOutOfRange { got_minor: (si + mi) as i64 },
                                ),
                            )
                        } else if prepaid > 0 && !amount_ok(prepaid) {
                            Err(
                                SettleError::Compile(
                                    CompileError::AmountOutOfRange { got_minor: prepaid },
                                ),
                            )
                        } else {
                            let interest = (si + mi) as i64;
                            let pretax = cf_net_income(begin, b) - dep - interest - prepaid;
                            if pretax > 0 && !i64_fits(pretax) {
                                Err(SettleError::Overflow)
                            } else {
                                match (if pretax > 0 {
                                    apply_bp_spec(pretax, params.tax_rate_bp as int)
                                } else {
                                    Ok(0i64)
                                }) {
                                    Err(e) => Err(e),
                                    Ok(tax) => if tax > 0 && !amount_ok(tax) {
                                        Err(
                                            SettleError::Compile(
                                                CompileError::AmountOutOfRange { got_minor: tax },
                                            ),
                                        )
                                    } else {
                                        Ok((dep, interest, prepaid, tax))
                                    },
                                }
                            }
                        },
                    },
                }
            }
        },
    }
}

pub open spec fn charge_shape(debit: AccountCode, credit: AccountCode, amount: i64) -> Shape {
    (Some(transfer_postings(debit, credit, amount)), FirmEffect::NoChange)
}

pub open spec fn push_if(s: Seq<Shape>, amount: i64, sh: Shape) -> Seq<Shape> {
    if amount > 0 {
        s.push(sh)
    } else {
        s
    }
}

/// The close's plans: each positive charge, in order.
pub open spec fn close_shapes(dep: i64, interest: i64, prepaid: i64, tax: i64) -> Seq<Shape> {
    push_if(
        push_if(
            push_if(
                push_if(
                    Seq::empty(),
                    dep,
                    charge_shape(
                        AccountCode::DepreciationExpense,
                        AccountCode::AccumulatedDepreciation,
                        dep,
                    ),
                ),
                interest,
                charge_shape(AccountCode::InterestExpense, AccountCode::AccruedLiabilities, interest),
            ),
            prepaid,
            charge_shape(AccountCode::OperatingExpense, AccountCode::PrepaidExpenses, prepaid),
        ),
        tax,
        charge_shape(AccountCode::TaxExpense, AccountCode::TaxPayable, tax),
    )
}

/// The close's result once its charges have been committed.
pub open spec fn close_finish(
    new_books: SimBooks,
    begin: Seq<i64>,
    charges: (i64, i64, i64, i64),
    applied: Result<usize, CompileError>,
    r: Result<PeriodClose, SettleError>,
) -> bool {
    match applied {
        Err(ce) => r == Err::<PeriodClose, SettleError>(SettleError::Compile(ce)),
        Ok(_) => match inventory_check(new_books) {
            Some(e) => r == Err::<PeriodClose, SettleError>(e),
            None => if !statement_fits(begin, new_books.balances@) {
                r == Err::<PeriodClose, SettleError>(SettleError::Overflow)
            } else {
                let cf = statement_spec(begin, new_books.balances@);
                if cf.net_change_minor != cf.cash_delta_minor {
                    r == Err::<PeriodClose, SettleError>(
                        SettleError::AccountingBreach {
                            statement_minor: cf.net_change_minor as i128,
                            cash_minor: cf.cash_delta_minor as i128,
                        },
                    )
                } else {
                    r == Ok::<PeriodClose, SettleError>(
                        PeriodClose {
                            depreciation_minor: charges.0,
                            interest_minor: charges.1,
                            amortised_prepaid_minor: charges.2,
                            tax_minor: charges.3,
                            cash_flow: cf,
                        },
                    )
                }
            }
        },
    }
}

fn charge(kind: TxKind, debit: AccountCode, credit: AccountCode, amount: i64) -> (r: Result<
    ActionPlan,
    SettleError,
>)
    ensures
        amount_ok(amount) ==> (r matches Ok(p) && plan_wf(p) && crate::action::plan_shape(p)
            == charge_shape(debit, credit, amount)),
        !amount_ok(amount) ==> r == Err::<ActionPlan, SettleError>(
            SettleError::Compile(CompileError::AmountOutOfRange { got_minor: amount }),
        ),
{
    let m = match checked_amount(amount) {
        Ok(m) => m,
        Err(e) => return Err(SettleError::Compile(e)),
    };
    match transfer(kind, debit, credit, m) {
        Ok(tx) => Ok(ActionPlan { transaction: Some(tx), firm_effect: FirmEffect::NoChange }),
        Err(e) => Err(SettleError::Compile(e)),
    }
}

/// The tail of a close: the inventory check and the period's statement,
/// once the charges have been committed (or refused).
fn finish_close(
    books: &SimBooks,
    period_begin: &Balances,
    charges: (i64, i64, i64, i64),
    applied: Result<usize, CompileError>,
) -> (r: Result<PeriodClose, SettleError>)
    ensures
        close_finish(*books, period_begin@, charges, applied, r),
        period_begin.total() == 0 && books.balances.total() == 0 ==> !(r matches Err(
            SettleError::AccountingBreach { .. },
        )),
{
    match applied {
        Ok(_) => {},
        Err(e) => return Err(SettleError::Compile(e)),
    }
    match verify_inventory_reconciled(books) {
        Ok(()) => {},
        Err(e) => return Err(e),
    }
    let cash_flow = match CashFlowStatement::between(period_begin, &books.balances) {
        Ok(cf) => cf,
        Err(e) => return Err(e),
    };
    match cash_flow.verify() {
        Ok(()) => {},
        Err(e) => return Err(e),
    }
    Ok(
        PeriodClose {
            depreciation_minor: charges.0,
            interest_minor: charges.1,
            amortised_prepaid_minor: charges.2,
            tax_minor: charges.3,
            cash_flow,
        },
    )
}

/// The four charges of a close, computed and checked.
fn close_amounts(params: FirmParams, balances: &Balances, period_begin: &Balances) -> (r: Result<
    (i64, i64, i64, i64),
    SettleError,
>)
    requires
        balances.bal(AccountCode::AccumulatedDepreciation) != i64::MIN,
        balances.bal(AccountCode::SeniorDebt) != i64::MIN,
        balances.bal(AccountCode::MezzanineDebt) != i64::MIN,
    ensures
        r == close_charges(params, balances@, period_begin@),
{
    proof {
        balances.lemma_len();
        period_begin.lemma_len();
    }
    let ghost b = balances@;
    let ghost begin = period_begin@;

    let gross_ppe = balances.balance_minor(AccountCode::PropertyPlantEquipment);
    let accumulated = -balances.balance_minor(AccountCode::AccumulatedDepreciation);
    let net_book: i64 = if accumulated < 0 && gross_ppe > i64::MAX + accumulated {
        i64::MAX
    } else if accumulated > 0 && gross_ppe < i64::MIN + accumulated {
        0
    } else if gross_ppe - accumulated < 0 {
        0
    } else {
        gross_ppe - accumulated
    };
    let raw_dep = match apply_bp(gross_ppe, params.depreciation_rate_bp) {
        Ok(v) => v,
        Err(e) => return Err(e),
    };
    let depreciation_minor = if raw_dep < net_book {
        raw_dep
    } else {
        net_book
    };
    if depreciation_minor > 0 {
        match checked_amount(depreciation_minor) {
            Ok(_) => {},
            Err(e) => return Err(SettleError::Compile(e)),
        }
    }
    let senior = -balances.balance_minor(AccountCode::SeniorDebt);
    let mezz = -balances.balance_minor(AccountCode::MezzanineDebt);
    let senior_interest = match apply_bp(senior, params.senior_rate_bp) {
        Ok(v) => v,
        Err(e) => return Err(e),
    };
    let mezz_interest = match apply_bp(mezz, params.mezz_rate_bp) {
        Ok(v) => v,
        Err(e) => return Err(e),
    };
    let interest_minor = match senior_interest.checked_add(mezz_interest) {
        Some(v) => v,
        None => return Err(SettleError::Overflow),
    };
    if interest_minor > 0 {
        match checked_amount(interest_minor) {
            Ok(_) => {},
            Err(e) => return Err(SettleError::Compile(e)),
        }
    }
    let prepaid = balances.balance_minor(AccountCode::PrepaidExpenses);
    let amortised_prepaid_minor: i64 = if prepaid < 0 {
        0
    } else {
        prepaid
    };
    if amortised_prepaid_minor > 0 {
        match checked_amount(amortised_prepaid_minor) {
            Ok(_) => {},
            Err(e) => return Err(SettleError::Compile(e)),
        }
    }
    proof {
        lemma_class_sum_bounds(b, AccountClass::Revenue, 20);
        lemma_class_sum_bounds(b, AccountClass::Expense, 20);
        lemma_class_sum_bounds(begin, AccountClass::Revenue, 20);
        lemma_class_sum_bounds(begin, AccountClass::Expense, 20);
    }
    let opening = period_begin.class_totals();
    let now = balances.class_totals();
    let pretax = (now.revenue - now.expense) - (opening.revenue - opening.expense)
        - depreciation_minor as i128 - interest_minor as i128 - amortised_prepaid_minor as i128;
    let tax_minor = if pretax > 0 {
        let base = match narrow(pretax) {
            Ok(v) => v,
            Err(e) => return Err(e),
        };
        match apply_bp(base, params.tax_rate_bp) {
            Ok(v) => v,
            Err(e) => return Err(e),
        }
    } else {
        0
    };
    if tax_minor > 0 {
        match checked_amount(tax_minor) {
            Ok(_) => {},
            Err(e) => return Err(SettleError::Compile(e)),
        }
    }
    Ok((depreciation_minor, interest_minor, amortised_prepaid_minor, tax_minor))
}

/// The plans of a close: one transfer per positive charge.
fn close_plans(c: (i64, i64, i64, i64)) -> (plans: Vec<ActionPlan>)
    requires
        c.0 > 0 ==> amount_ok(c.0),
        c.1 > 0 ==> amount_ok(c.1),
        c.2 > 0 ==> amount_ok(c.2),
        c.3 > 0 ==> amount_ok(c.3),
    ensures
        shapes_of(plans@) == close_shapes(c.0, c.1, c.2, c.3),
        forall|k: int| 0 <= k < plans@.len() ==> #[trigger] plan_wf(plans@[k]),
{
    let mut plans: Vec<ActionPlan> = Vec::new();
    let ghost target: Seq<Shape> = Seq::empty();
    if c.0 > 0 {
        if let Ok(p) = charge(TxKind::RecordDepreciation, AccountCode::DepreciationExpense, AccountCode::AccumulatedDepreciation, c.0) {
            proof {
                assert(shapes_of(plans@.push(p)) =~= shapes_of(plans@).push(
                    crate::action::plan_shape(p),
                ));
            }
            plans.push(p);
        }
    }
    proof {
        target = push_if(target, c.0, charge_shape(AccountCode::DepreciationExpense, AccountCode::AccumulatedDepreciation, c.0));
        assert(shapes_of(plans@) =~= target);
    }
    if c.1 > 0 {
        if let Ok(p) = charge(TxKind::AccrueInterest, AccountCode::InterestExpense, AccountCode::AccruedLiabilities, c.1) {
            proof {
                assert(shapes_of(plans@.push(p)) =~= shapes_of(plans@).push(
                    crate::action::plan_shape(p),
                ));
            }
            plans.push(p);
        }
    }
    proof {
        target = push_if(target, c.1, charge_shape(AccountCode::InterestExpense, AccountCode::AccruedLiabilities, c.1));
        assert(shapes_of(plans@) =~= target);
    }
    if c.2 > 0 {
        if let Ok(p) = charge(TxKind::PayOpex, AccountCode::OperatingExpense, AccountCode::PrepaidExpenses, c.2) {
            proof {
                assert(shapes_of(plans@.push(p)) =~= shapes_of(plans@).push(
                    crate::action::plan_shape(p),
                ));
            }
            plans.push(p);
        }
    }
    proof {
        target = push_if(target, c.2, charge_shape(AccountCode::OperatingExpense, AccountCode::PrepaidExpenses, c.2));
        assert(shapes_of(plans@) =~= target);
    }
    if c.3 > 0 {
        if let Ok(p) = charge(TxKind::PayTax, AccountCode::TaxExpense, AccountCode::TaxPayable, c.3) {
            proof {
                assert(shapes_of(plans@.push(p)) =~= shapes_of(plans@).push(
                    crate::action::plan_shape(p),
                ));
            }
            plans.push(p);
        }
    }
    proof {
        target = push_if(target, c.3, charge_shape(AccountCode::TaxExpense, AccountCode::TaxPayable, c.3));
        assert(shapes_of(plans@) =~= target);
    }
    plans
}

/// Closing the period that opened at `period_begin` takes the books from
/// `before` to `after`: the close charges are staged and committed as one
/// act, or nothing moves.
pub open spec fn close_outcome(
    params: FirmParams,
    before: SimBooks,
    period_begin: Seq<i64>,
    after: SimBooks,
    r: Result<PeriodClose, SettleError>,
) -> bool {
    match close_charges(params, before.balances@, period_begin) {
        Err(e) => r == Err::<PeriodClose, SettleError>(e) && crate::action::books_unchanged(before, after),
        Ok(c) => exists|applied: Result<usize, CompileError>|
            shapes_outcome(before, after, close_shapes(c.0, c.1, c.2, c.3), applied) && close_finish(
                after,
                period_begin,
                c,
                applied,
                r,
            ),
    }
}

/// Close the period: depreciate (never past zero book value), accrue
/// interest on both tranches, consume the prepaid cover, then tax whatever
/// profit survives, all staged as one act; the inventory representations
/// must agree afterwards and the cash-flow statement of the period must
/// reconcile. From a zero-sum opening balance the statement always does.
pub fn close_period(ctx: &ActionContext, books: &mut SimBooks, period_begin: &Balances) -> (r:
    Result<PeriodClose, SettleError>)
    requires
        old(books).wf(),
        old(books).balances.bal(AccountCode::AccumulatedDepreciation) != i64::MIN,
        old(books).balances.bal(AccountCode::SeniorDebt) != i64::MIN,
        old(books).balances.bal(AccountCode::MezzanineDebt) != i64::MIN,
    ensures
        final(books).wf(),
        close_outcome(ctx.firm_params, *old(books), period_begin@, *final(books), r),
        period_begin.total() == 0 ==> !(r matches Err(SettleError::AccountingBreach { .. })),
{
    let charges = match close_amounts(ctx.firm_params, &books.balances, period_begin) {
        Ok(c) => c,
        Err(e) => return Err(e),
    };
    let plans = close_plans(charges);
    let ghost before = *books;
    let applied = apply_plans(plans.as_slice(), books);
    proof {
        crate::action::lemma_plans_outcome_shapes(before, *books, plans@, applied);
        assert(shapes_outcome(
            before,
            *books,
            close_shapes(charges.0, charges.1, charges.2, charges.3),
            applied,
        ));
    }
    let r = finish_close(books, period_begin, charges, applied);
    proof {
        if applied is Ok {
            assert(books.balances.total() == 0);
        }
    }
    r
}

/// Depreciation is capped at net book value: a close never writes an asset
/// down past zero.
pub proof fn law_depreciation_capped_at_book_value(params: FirmParams, b: Seq<i64>, begin: Seq<i64>)
    requires
        close_charges(params, b, begin) is Ok,
    ensures
        ({
            let gross = b[account_index(AccountCode::PropertyPlantEquipment) as int];
            let accumulated = -b[account_index(AccountCode::AccumulatedDepreciation) as int];
            close_charges(params, b, begin)->Ok_0.0 <= max0(sat_i64(gross - accumulated))
        }),
{
}

/// Losses are not taxed: a period whose income after depreciation, interest
/// and amortisation is not positive is charged no tax, and tax is never
/// negative.
pub proof fn law_losses_are_not_taxed(params: FirmParams, b: Seq<i64>, begin: Seq<i64>)
    requires
        close_charges(params, b, begin) is Ok,
    ensures
        ({
            let c = close_charges(params, b, begin)->Ok_0;
            &&& c.3 >= 0
            &&& cf_net_income(begin, b) - c.0 - c.1 - c.2 <= 0 ==> c.3 == 0
        }),
{
    let c = close_charges(params, b, begin)->Ok_0;
    let pretax = cf_net_income(begin, b) - c.0 - c.1 - c.2;
    if pretax > 0 {
        assert(pretax * params.tax_rate_bp >= 0) by (nonlinear_arith)
            requires
                pretax > 0,
                params.tax_rate_bp >= 0,
        ;
    }
}

/// Interest at the close is each tranche's outstanding principal charged at
/// its own rate: `senior × senior_rate_bp / 10_000` plus
/// `mezzanine × mezz_rate_bp / 10_000`, each rounded floor-half-up, where a
/// tranche with nothing outstanding costs nothing.
pub proof fn law_interest_charges_each_tranche_at_its_own_rate(
    params: FirmParams,
    before: SimBooks,
    period_begin: Seq<i64>,
    after: SimBooks,
    r: Result<PeriodClose, SettleError>,
)
    requires
        close_outcome(params, before, period_begin, after, r),
        r is Ok,
    ensures
        ({
            let senior = -before.balances.bal(AccountCode::SeniorDebt);
            let mezz = -before.balances.bal(AccountCode::MezzanineDebt);
            r->Ok_0.interest_minor == (if senior > 0 {
                crate::money::floor_half_up_spec(senior * params.senior_rate_bp, 10_000)
            } else {
                0
            }) + (if mezz > 0 {
                crate::money::floor_half_up_spec(mezz * params.mezz_rate_bp, 10_000)
            } else {
                0
            })
        }),
{
    let c = close_charges(params, before.balances@, period_begin)->Ok_0;
    let applied = choose|applied: Result<usize, CompileError>|
        shapes_outcome(before, after, close_shapes(c.0, c.1, c.2, c.3), applied) && close_finish(
            after,
            period_begin,
            c,
            applied,
            r,
        );
    assert(r->Ok_0.interest_minor == c.1);
}

proof fn lemma_apply_bp_nonneg(base: int, rate_bp: int)
    requires
        rate_bp >= 0,
        apply_bp_spec(base, rate_bp) is Ok,
    ensures
        apply_bp_spec(base, rate_bp)->Ok_0 >= 0,
{
    if base > 0 && rate_bp != 0 {
        let n = base * rate_bp;
        assert(n >= 0) by (nonlinear_arith)
            requires
                base > 0,
                rate_bp >= 0,
                n == base * rate_bp,
        ;
        assert(crate::money::floor_half_up_spec(n, 10_000) >= 0) by (nonlinear_arith)
            requires
                n >= 0,
        ;
    }
}

proof fn lemma_push_charge_delta(s: Seq<Shape>, debit: AccountCode, credit: AccountCode, amount: i64, a: AccountCode)
    requires
        amount >= 0,
    ensures
        crate::action::shapes_delta(push_if(s, amount, charge_shape(debit, credit, amount)), a)
            == crate::action::shapes_delta(s, a) + (if a == debit {
            amount as int
        } else {
            0
        }) - (if a == credit {
            amount as int
        } else {
            0
        }),
{
    crate::action::lemma_transfer_delta(debit, credit, amount, a);
    if amount > 0 {
        let t = s.push(charge_shape(debit, credit, amount));
        assert(t.drop_last() =~= s);
    }
}

/// A quarter's close posts each charge to its own pair of accounts and
/// nothing else: depreciation from accumulated depreciation into its
/// expense, interest from accrued liabilities into interest expense, the
/// prepaid cover from prepaid expenses into operating expense, and tax from
/// taxes payable into tax expense; every charge is non-negative.
pub proof fn law_close_posts_each_charge_to_its_accounts(
    params: FirmParams,
    before: SimBooks,
    period_begin: Seq<i64>,
    after: SimBooks,
    r: Result<PeriodClose, SettleError>,
)
    requires
        close_outcome(params, before, period_begin, after, r),
        r is Ok,
    ensures
        ({
            let c = r->Ok_0;
            &&& c.depreciation_minor >= 0
            &&& c.interest_minor >= 0
            &&& c.amortised_prepaid_minor >= 0
            &&& c.tax_minor >= 0
            &&& forall|a: AccountCode|
                #[trigger] after.balances.bal(a) == before.balances.bal(a) + (if a
                    == AccountCode::DepreciationExpense {
                    c.depreciation_minor as int
                } else if a == AccountCode::AccumulatedDepreciation {
                    -c.depreciation_minor
                } else if a == AccountCode::InterestExpense {
                    c.interest_minor as int
                } else if a == AccountCode::AccruedLiabilities {
                    -c.interest_minor
                } else if a == AccountCode::OperatingExpense {
                    c.amortised_prepaid_minor as int
                } else if a == AccountCode::PrepaidExpenses {
                    -c.amortised_prepaid_minor
                } else if a == AccountCode::TaxExpense {
                    c.tax_minor as int
                } else if a == AccountCode::TaxPayable {
                    -c.tax_minor
                } else {
                    0
                })
        }),
{
    let b = before.balances@;
    let c = close_charges(params, b, period_begin)->Ok_0;
    let applied = choose|applied: Result<usize, CompileError>|
        shapes_outcome(before, after, close_shapes(c.0, c.1, c.2, c.3), applied) && close_finish(
            after,
            period_begin,
            c,
            applied,
            r,
        );
    assert(applied is Ok);
    let gross = b[account_index(AccountCode::PropertyPlantEquipment) as int];
    let senior = -b[account_index(AccountCode::SeniorDebt) as int];
    let mezz = -b[account_index(AccountCode::MezzanineDebt) as int];
    lemma_apply_bp_nonneg(gross as int, params.depreciation_rate_bp as int);
    lemma_apply_bp_nonneg(senior, params.senior_rate_bp as int);
    lemma_apply_bp_nonneg(mezz, params.mezz_rate_bp as int);
    law_losses_are_not_taxed(params, b, period_begin);
    assert(c.0 >= 0 && c.1 >= 0 && c.2 >= 0 && c.3 >= 0);
    crate::action::law_committed_shapes_move_each_account(before, after, close_shapes(c.0, c.1, c.2, c.3), applied);
    assert forall|a: AccountCode|
        #[trigger] after.balances.bal(a) == before.balances.bal(a) + (if a == AccountCode::DepreciationExpense {
            c.0 as int
        } else if a == AccountCode::AccumulatedDepreciation {
            -c.0
        } else if a == AccountCode::InterestExpense {
            c.1 as int
        } else if a == AccountCode::AccruedLiabilities {
            -c.1
        } else if a == AccountCode::OperatingExpense {
            c.2 as int
        } else if a == AccountCode::PrepaidExpenses {
            -c.2
        } else if a == AccountCode::TaxExpense {
            c.3 as int
        } else if a == AccountCode::TaxPayable {
            -c.3
        } else {
            0
        }) by {
        let s0 = Seq::<Shape>::empty();
        let s1 = push_if(s0, c.0, charge_shape(AccountCode::DepreciationExpense, AccountCode::AccumulatedDepreciation, c.0));
        let s2 = push_if(s1, c.1, charge_shape(AccountCode::InterestExpense, AccountCode::AccruedLiabilities, c.1));
        let s3 = push_if(s2, c.2, charge_shape(AccountCode::OperatingExpense, AccountCode::PrepaidExpenses, c.2));
        assert(crate::action::shapes_delta(s0, a) == 0);
        lemma_push_charge_delta(s0, AccountCode::DepreciationExpense, AccountCode::AccumulatedDepreciation, c.0, a);
        lemma_push_charge_delta(s1, AccountCode::InterestExpense, AccountCode::AccruedLiabilities, c.1, a);
        lemma_push_charge_delta(s2, AccountCode::OperatingExpense, AccountCode::PrepaidExpenses, c.2, a);
        lemma_push_charge_delta(s3, AccountCode::TaxExpense, AccountCode::TaxPayable, c.3, a);
    }
}

/// Each charge of a close follows its rule: depreciation is the gross
/// plant at the depreciation rate (floor-half-up, nothing on a non-positive
/// gross) capped at net book value; the whole positive prepaid balance is
/// expensed; tax is the tax rate on what income survives depreciation,
/// interest and the prepaid charge, and nothing when none does.
pub proof fn law_close_charges_follow_their_rules(
    params: FirmParams,
    before: SimBooks,
    period_begin: Seq<i64>,
    after: SimBooks,
    r: Result<PeriodClose, SettleError>,
)
    requires
        close_outcome(params, before, period_begin, after, r),
        r is Ok,
    ensures
        ({
            let c = r->Ok_0;
            let gross = before.balances.bal(AccountCode::PropertyPlantEquipment);
            let book = gross + before.balances.bal(AccountCode::AccumulatedDepreciation);
            let cap = if book < 0 {
                0
            } else if book > i64::MAX {
                i64::MAX as int
            } else {
                book
            };
            let raw = if gross > 0 {
                crate::money::floor_half_up_spec(gross * params.depreciation_rate_bp, 10_000)
            } else {
                0
            };
            let prepaid = before.balances.bal(AccountCode::PrepaidExpenses);
            let pretax = cf_net_income(period_begin, before.balances@) - c.depreciation_minor - c.interest_minor
                - c.amortised_prepaid_minor;
            &&& c.depreciation_minor == (if raw < cap {
                raw
            } else {
                cap
            })
            &&& c.amortised_prepaid_minor == (if prepaid > 0 {
                prepaid
            } else {
                0
            })
            &&& c.tax_minor == (if pretax > 0 {
                crate::money::floor_half_up_spec(pretax * params.tax_rate_bp, 10_000)
            } else {
                0
            })
        }),
{
    let c = close_charges(params, before.balances@, period_begin)->Ok_0;
    let applied = choose|applied: Result<usize, CompileError>|
        shapes_outcome(before, after, close_shapes(c.0, c.1, c.2, c.3), applied) && close_finish(
            after,
            period_begin,
            c,
            applied,
            r,
        );
    assert(r->Ok_0.depreciation_minor == c.0);
}

/// A tick of operations never unbalances the books.
pub proof fn lemma_tick_keeps_zero_sum(
    ctx: ActionContext,
    before: SimBooks,
    after: SimBooks,
    r: Result<TickResult, SettleError>,
)
    requires
        tick_outcome(ctx, before, after, r),
    ensures
        crate::action::keeps_zero_sum(before, after),
{
    match ops_spec(ctx.firm_params, ctx.market.demand_index_micro, before.firm@, MAX_SKUS as int) {
        Err(_) => {},
        Ok((lines, rev, cogs, unmet)) => {
            let applied = choose|applied: Result<usize, CompileError>|
                shapes_outcome(before, after, sale_shapes(lines), applied) && tick_finish(
                    after,
                    lines,
                    rev,
                    cogs,
                    unmet,
                    applied,
                    r,
                );
            crate::action::lemma_shapes_keep_zero_sum(before, after, sale_shapes(lines), applied);
        },
    }
}

} // verus!
