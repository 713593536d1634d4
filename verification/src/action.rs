//! ActionCompiler: the only place where an outside-originated `ActionIntent`
//! becomes a ledger `Transaction` or a change to the operating state.
//!
//! Compilation is a pure function into an `ActionPlan`. Nothing mutates
//! while the plan is derived, which makes the whole action stageable:
//! `execute_intent` builds the plan, applies it to private copies of the
//! balances and the firm state, and commits only after the journal has
//! accepted the entry. A refusal at any point leaves all three stores
//! exactly as they were.
use crate::firm::{
    apply_effect_spec, pnl_spec, position_pnl_minor, FirmEffect, FirmError, FirmState, FirmView,
    OfferKind, OfferStatus, ProjectStatus, MAX_ORDER_UNITS, MAX_PRICE_MINOR, MIN_PRICE_MINOR,
};
use crate::genesis::{FirmParams, MAX_SKUS};
use crate::ledger::{
    apply_spec, class_totals_spec, credit_total, debit_total, law_apply_preserves_zero_sum, AccountCode, Balances, Journal,
    JournalEntry, LedgerError, Posting, Side, Transaction, TxKind, JOURNAL_TAIL_CAPACITY,
};
use crate::market::MarketTickView;
use crate::money::{floor_half_up, floor_half_up_result, i64_fits, Money, MoneyError};
use crate::telemetry::ActionIntent;
use vstd::prelude::*;

verus! {

/// Ceiling on any single action amount, enforced before a `Money` is built.
pub const MAX_ACTION_AMOUNT_MINOR: i64 = 1_000_000_000_000;

/// Debt facilities addressable by `Borrow` / `Repay`. The declaration order
/// is the frozen wire id.
#[derive(Debug, Clone, Copy, PartialEq, Eq, Structural)]
pub enum Facility {
    Senior,
    Mezzanine,
}

pub open spec fn facility_account(f: Facility) -> AccountCode {
    match f {
        Facility::Senior => AccountCode::SeniorDebt,
        Facility::Mezzanine => AccountCode::MezzanineDebt,
    }
}

pub open spec fn facility_of(v: u8) -> Option<Facility> {
    if v == 0 {
        Some(Facility::Senior)
    } else if v == 1 {
        Some(Facility::Mezzanine)
    } else {
        None
    }
}

impl Facility {
    pub fn from_wire(v: u8) -> (r: Result<Self, CompileError>)
        ensures
            facility_of(v) matches Some(f) ==> r == Ok::<Self, CompileError>(f),
            facility_of(v) is None ==> r == Err::<Self, CompileError>(
                CompileError::UnknownFacility { facility: v },
            ),
    {
        match v {
            0 => Ok(Facility::Senior),
            1 => Ok(Facility::Mezzanine),
            other => Err(CompileError::UnknownFacility { facility: other }),
        }
    }

    pub fn account(self) -> (a: AccountCode)
        ensures
            a == facility_account(self),
    {
        match self {
            Facility::Senior => AccountCode::SeniorDebt,
            Facility::Mezzanine => AccountCode::MezzanineDebt,
        }
    }
}

/// Everything compilation needs from outside the books: the published
/// market tick and the frozen firm constants.
#[derive(Debug, Clone, Copy)]
pub struct ActionContext {
    pub market: MarketTickView,
    pub firm_params: FirmParams,
}

/// At most one balanced transaction plus one operating mutation.
#[derive(Debug, Clone, PartialEq, Eq)]
pub struct ActionPlan {
    pub transaction: Option<Transaction>,
    pub firm_effect: FirmEffect,
}

#[derive(Debug, Clone, Copy, PartialEq, Eq, Structural)]
pub enum CompileError {
    AmountOutOfRange { got_minor: i64 },
    InvalidForecastInterval { lo_minor: i64, hi_minor: i64 },
    UnknownFacility { facility: u8 },
    InsufficientCash { needed_minor: i64, available_minor: i64 },
    RepayExceedsOutstanding { requested_minor: i64, outstanding_minor: i64 },
    PriceOutOfRange { price_minor: i64 },
    OrderOutOfRange { units: u32 },
    /// Abandoning a project must release exactly what was capitalised; a
    /// short carrying value is corruption, never clamped.
    WriteOffExceedsCarryingValue { committed_minor: i64, carrying_minor: i64 },
    Firm(FirmError),
    Ledger(LedgerError),
    Money(MoneyError),
}

/// A two-legged transfer: kind, debited account, credited account, amount.
pub struct TransferShape {
    pub kind: TxKind,
    pub debit: AccountCode,
    pub credit: AccountCode,
    pub amount: i64,
}

/// What a compiled plan consists of, abstractly.
pub struct PlanShape {
    pub transfer: Option<TransferShape>,
    pub effect: FirmEffect,
}

pub open spec fn transfer_postings(debit: AccountCode, credit: AccountCode, amount: i64) -> Seq<
    Posting,
> {
    seq![
        Posting { account: debit, side: Side::Debit, amount: Money(amount) },
        Posting { account: credit, side: Side::Credit, amount: Money(amount) },
    ]
}

/// A transaction is the given transfer.
pub open spec fn tx_is(tx: Transaction, t: TransferShape) -> bool {
    &&& tx.wf()
    &&& tx.spec_kind() == t.kind
    &&& tx.spec_postings() == transfer_postings(t.debit, t.credit, t.amount)
}

/// A plan has the given shape.
pub open spec fn plan_is(plan: ActionPlan, s: PlanShape) -> bool {
    &&& plan.firm_effect == s.effect
    &&& match (plan.transaction, s.transfer) {
        (None, None) => true,
        (Some(tx), Some(t)) => tx_is(tx, t),
        _ => false,
    }
}

pub open spec fn amount_ok(v: i64) -> bool {
    0 < v <= MAX_ACTION_AMOUNT_MINOR
}

pub open spec fn plain(effect: FirmEffect) -> PlanShape {
    PlanShape { transfer: None, effect }
}

pub open spec fn moving(kind: TxKind, debit: AccountCode, credit: AccountCode, amount: i64, effect: FirmEffect) -> PlanShape {
    PlanShape { transfer: Some(TransferShape { kind, debit, credit, amount }), effect }
}

/// Outstanding principal on a facility (credit-normal, so the negated
/// signed balance; `i64::MAX` if that negation overflows).
pub open spec fn outstanding_spec(b: Balances, f: Facility) -> i64 {
    let v = b.bal(facility_account(f));
    if v == i64::MIN {
        i64::MAX
    } else {
        (-v) as i64
    }
}

/// Procurement cost of one unit: price x multiplier / 1e6, floor-half-up.
pub open spec fn unit_cost_spec(price: i64, mult: i64) -> Result<i64, CompileError> {
    match floor_half_up_result(price * mult, 1_000_000) {
        Ok(q) => if i64_fits(q) {
            Ok(q as i64)
        } else {
            Err(CompileError::Money(MoneyError::Overflow))
        },
        Err(e) => Err(CompileError::Money(e)),
    }
}

pub open spec fn cash_check(b: Balances, needed: i64) -> Option<CompileError> {
    if b.bal(AccountCode::Cash) < needed {
        Some(
            CompileError::InsufficientCash {
                needed_minor: needed,
                available_minor: b.bal(AccountCode::Cash) as i64,
            },
        )
    } else {
        None
    }
}

/// What `compile` answers for an intent against the current books.
pub open spec fn compile_spec(
    intent: ActionIntent,
    ctx: ActionContext,
    b: Balances,
    f: FirmView,
) -> Result<PlanShape, CompileError> {
    match intent {
        ActionIntent::Borrow { facility, amount_minor } => match facility_of(facility) {
            None => Err(CompileError::UnknownFacility { facility }),
            Some(fac) => if !amount_ok(amount_minor) {
                Err(CompileError::AmountOutOfRange { got_minor: amount_minor })
            } else {
                Ok(
                    moving(
                        TxKind::DrawDebt,
                        AccountCode::Cash,
                        facility_account(fac),
                        amount_minor,
                        FirmEffect::NoChange,
                    ),
                )
            },
        },
        ActionIntent::Repay { facility, amount_minor } => match facility_of(facility) {
            None => Err(CompileError::UnknownFacility { facility }),
            Some(fac) => if !amount_ok(amount_minor) {
                Err(CompileError::AmountOutOfRange { got_minor: amount_minor })
            } else if amount_minor > outstanding_spec(b, fac) {
                Err(
                    CompileError::RepayExceedsOutstanding {
                        requested_minor: amount_minor,
                        outstanding_minor: outstanding_spec(b, fac),
                    },
                )
            } else if cash_check(b, amount_minor) is Some {
                Err(cash_check(b, amount_minor).unwrap())
            } else {
                Ok(
                    moving(
                        TxKind::ServiceDebt,
                        facility_account(fac),
                        AccountCode::Cash,
                        amount_minor,
                        FirmEffect::NoChange,
                    ),
                )
            },
        },
        ActionIntent::Invest { project_id, amount_minor } => if !amount_ok(amount_minor) {
            Err(CompileError::AmountOutOfRange { got_minor: amount_minor })
        } else if project_id < 8 && f.projects[project_id as int] is Some
            && f.projects[project_id as int].unwrap().status != ProjectStatus::Active {
            Err(CompileError::Firm(FirmError::ProjectNotActive { project_id }))
        } else if cash_check(b, amount_minor) is Some {
            Err(cash_check(b, amount_minor).unwrap())
        } else {
            Ok(
                moving(
                    TxKind::CapexPurchase,
                    AccountCode::PropertyPlantEquipment,
                    AccountCode::Cash,
                    amount_minor,
                    FirmEffect::CommitToProject { project_id, amount_minor },
                ),
            )
        },
        ActionIntent::ContinueProject { project_id } => if !(project_id < 8
            && f.projects[project_id as int] is Some) {
            Err(CompileError::Firm(FirmError::UnknownProject { project_id }))
        } else if f.projects[project_id as int].unwrap().status != ProjectStatus::Active {
            Err(CompileError::Firm(FirmError::ProjectNotActive { project_id }))
        } else {
            Ok(plain(FirmEffect::ContinueProject { project_id }))
        },
        ActionIntent::AbandonProject { project_id } => if !(project_id < 8
            && f.projects[project_id as int] is Some) {
            Err(CompileError::Firm(FirmError::UnknownProject { project_id }))
        } else {
            let p = f.projects[project_id as int].unwrap();
            let effect = FirmEffect::AbandonProject { project_id };
            if p.status != ProjectStatus::Active {
                Err(CompileError::Firm(FirmError::ProjectNotActive { project_id }))
            } else if p.committed_minor == 0 {
                Ok(plain(effect))
            } else if p.committed_minor > b.bal(AccountCode::PropertyPlantEquipment) {
                Err(
                    CompileError::WriteOffExceedsCarryingValue {
                        committed_minor: p.committed_minor,
                        carrying_minor: b.bal(AccountCode::PropertyPlantEquipment) as i64,
                    },
                )
            } else if !amount_ok(p.committed_minor) {
                Err(CompileError::AmountOutOfRange { got_minor: p.committed_minor })
            } else {
                Ok(
                    moving(
                        TxKind::PayOpex,
                        AccountCode::OperatingExpense,
                        AccountCode::PropertyPlantEquipment,
                        p.committed_minor,
                        effect,
                    ),
                )
            }
        },
        ActionIntent::SetPrice { sku, tick_price } => if sku >= MAX_SKUS {
            Err(CompileError::Firm(FirmError::UnknownSku { sku }))
        } else if !(MIN_PRICE_MINOR <= tick_price <= MAX_PRICE_MINOR) {
            Err(CompileError::PriceOutOfRange { price_minor: tick_price })
        } else {
            Ok(plain(FirmEffect::SetPrice { sku, price_minor: tick_price }))
        },
        ActionIntent::OrderInventory { sku, units } => if sku >= MAX_SKUS {
            Err(CompileError::Firm(FirmError::UnknownSku { sku }))
        } else if units == 0 || units > MAX_ORDER_UNITS {
            Err(CompileError::OrderOutOfRange { units })
        } else {
            match unit_cost_spec(
                ctx.market.commodity_price_minor,
                ctx.firm_params.skus@[sku as int].cost_multiplier_micro,
            ) {
                Err(e) => Err(e),
                Ok(per_unit) => {
                    let total = per_unit * units;
                    if !i64_fits(total) {
                        Err(CompileError::Money(MoneyError::Overflow))
                    } else if !amount_ok(total as i64) {
                        Err(CompileError::AmountOutOfRange { got_minor: total as i64 })
                    } else if cash_check(b, total as i64) is Some {
                        Err(cash_check(b, total as i64).unwrap())
                    } else {
                        Ok(
                            moving(
                                TxKind::PurchaseInventory,
                                AccountCode::Inventory,
                                AccountCode::Cash,
                                total as i64,
                                FirmEffect::AddInventory { sku, units, cost_minor: total as i64 },
                            ),
                        )
                    }
                },
            }
        },
        ActionIntent::AcceptOffer { offer_id } => if !(offer_id < 8
            && f.offers[offer_id as int] is Some) {
            Err(CompileError::Firm(FirmError::UnknownOffer { offer_id }))
        } else {
            let o = f.offers[offer_id as int].unwrap();
            if o.status != OfferStatus::Open {
                Err(CompileError::Firm(FirmError::OfferNotOpen { offer_id }))
            } else if !amount_ok(o.cost_minor) {
                Err(CompileError::AmountOutOfRange { got_minor: o.cost_minor })
            } else if cash_check(b, o.cost_minor) is Some {
                Err(cash_check(b, o.cost_minor).unwrap())
            } else {
                let effect = FirmEffect::ResolveOffer { offer_id, accepted: true };
                match o.kind {
                    OfferKind::Insurance => Ok(
                        moving(
                            TxKind::PayOpex,
                            AccountCode::PrepaidExpenses,
                            AccountCode::Cash,
                            o.cost_minor,
                            effect,
                        ),
                    ),
                    OfferKind::Expansion => Ok(
                        moving(
                            TxKind::CapexPurchase,
                            AccountCode::PropertyPlantEquipment,
                            AccountCode::Cash,
                            o.cost_minor,
                            effect,
                        ),
                    ),
                }
            }
        },
        ActionIntent::DeclineOffer { offer_id } => if !(offer_id < 8
            && f.offers[offer_id as int] is Some) {
            Err(CompileError::Firm(FirmError::UnknownOffer { offer_id }))
        } else if f.offers[offer_id as int].unwrap().status != OfferStatus::Open {
            Err(CompileError::Firm(FirmError::OfferNotOpen { offer_id }))
        } else {
            Ok(plain(FirmEffect::ResolveOffer { offer_id, accepted: false }))
        },
        ActionIntent::OpenHedge { instrument, notional_minor } => if !amount_ok(notional_minor) {
            Err(CompileError::AmountOutOfRange { got_minor: notional_minor })
        } else {
            Ok(
                plain(
                    FirmEffect::OpenPosition {
                        instrument,
                        notional_minor,
                        entry_index_centi: ctx.market.equity_index_centi,
                    },
                ),
            )
        },
        ActionIntent::ClosePosition { position_id } => if !(position_id < 8
            && f.positions[position_id as int] is Some) {
            Err(CompileError::Firm(FirmError::UnknownPosition { position_id }))
        } else {
            let effect = FirmEffect::ClosePosition { position_id };
            match pnl_spec(f.positions[position_id as int].unwrap(), ctx.market.equity_index_centi) {
                Err(e) => Err(CompileError::Firm(e)),
                Ok(pnl) => if pnl == 0 {
                    Ok(plain(effect))
                } else if pnl > 0 {
                    if !amount_ok(pnl) {
                        Err(CompileError::AmountOutOfRange { got_minor: pnl })
                    } else {
                        Ok(
                            moving(
                                TxKind::HedgeSettlement,
                                AccountCode::Cash,
                                AccountCode::OtherIncome,
                                pnl,
                                effect,
                            ),
                        )
                    }
                } else if pnl == i64::MIN {
                    Err(CompileError::Money(MoneyError::Overflow))
                } else if !amount_ok((-pnl) as i64) {
                    Err(CompileError::AmountOutOfRange { got_minor: (-pnl) as i64 })
                } else if cash_check(b, (-pnl) as i64) is Some {
                    Err(cash_check(b, (-pnl) as i64).unwrap())
                } else {
                    Ok(
                        moving(
                            TxKind::HedgeSettlement,
                            AccountCode::OperatingExpense,
                            AccountCode::Cash,
                            (-pnl) as i64,
                            effect,
                        ),
                    )
                },
            }
        },
        ActionIntent::ForecastInterval { lo_minor, hi_minor } => if lo_minor < 0 || hi_minor
            > MAX_ACTION_AMOUNT_MINOR || lo_minor > hi_minor {
            Err(CompileError::InvalidForecastInterval { lo_minor, hi_minor })
        } else {
            Ok(plain(FirmEffect::NoChange))
        },
        ActionIntent::Abstain | ActionIntent::ForcedDefault => Ok(plain(FirmEffect::NoChange)),
    }
}

impl ActionPlan {
    pub fn inert() -> (p: Self)
        ensures
            plan_is(p, plain(FirmEffect::NoChange)),
    {
        ActionPlan { transaction: None, firm_effect: FirmEffect::NoChange }
    }

    pub fn firm_only(firm_effect: FirmEffect) -> (p: Self)
        ensures
            plan_is(p, plain(firm_effect)),
    {
        ActionPlan { transaction: None, firm_effect }
    }

    pub fn moves_money(&self) -> (b: bool)
        ensures
            b == self.transaction is Some,
    {
        self.transaction.is_some()
    }
}

pub fn checked_amount(v: i64) -> (r: Result<Money, CompileError>)
    ensures
        amount_ok(v) ==> r == Ok::<Money, CompileError>(Money(v)),
        !amount_ok(v) ==> r == Err::<Money, CompileError>(
            CompileError::AmountOutOfRange { got_minor: v },
        ),
{
    if v <= 0 || v > MAX_ACTION_AMOUNT_MINOR {
        return Err(CompileError::AmountOutOfRange { got_minor: v });
    }
    match Money::positive_minor(v) {
        Ok(m) => Ok(m),
        Err(e) => Err(CompileError::Money(e)),
    }
}

pub fn posting(account: AccountCode, side: Side, amount: Money) -> (p: Posting)
    ensures
        p == (Posting { account, side, amount }),
{
    Posting { account, side, amount }
}

/// A two-legged transfer, the shape almost every business event takes.
pub fn transfer(kind: TxKind, debit: AccountCode, credit: AccountCode, amount: Money) -> (r: Result<
    Transaction,
    CompileError,
>)
    ensures
        amount.0 > 0 ==> (r matches Ok(tx) && tx_is(
            tx,
            TransferShape { kind, debit, credit, amount: amount.0 },
        )),
        amount.0 <= 0 ==> r == Err::<Transaction, CompileError>(
            CompileError::Ledger(LedgerError::NonPositiveAmount),
        ),
{
    let mut ps: Vec<Posting> = Vec::new();
    ps.push(posting(debit, Side::Debit, amount));
    ps.push(posting(credit, Side::Credit, amount));
    proof {
        let s = ps@;
        assert(s =~= transfer_postings(debit, credit, amount.0));
        assert(s.drop_last().drop_last() =~= Seq::<Posting>::empty());
        assert(s[0].amount.0 == amount.0);
        assert(debit_total(s.drop_last().drop_last()) == 0);
        assert(credit_total(s.drop_last().drop_last()) == 0);
        assert(s.drop_last().last() == s[0]);
        assert(debit_total(s.drop_last()) == amount.0);
        assert(debit_total(s) == amount.0);
        assert(credit_total(s.drop_last()) == 0);
        assert(credit_total(s) == amount.0);
    }
    match Transaction::new(kind, ps) {
        Ok(tx) => Ok(tx),
        Err(e) => Err(CompileError::Ledger(e)),
    }
}

/// Cash on hand (debit-normal: the signed balance is the natural figure).
pub fn cash_available(balances: &Balances) -> (v: i64)
    ensures
        v == balances.bal(AccountCode::Cash),
{
    balances.balance_minor(AccountCode::Cash)
}

/// Outstanding principal on a facility.
pub fn outstanding(balances: &Balances, facility: Facility) -> (v: i64)
    ensures
        v == outstanding_spec(*balances, facility),
{
    let b = balances.balance_minor(facility.account());
    if b == i64::MIN {
        i64::MAX
    } else {
        -b
    }
}

pub fn require_cash(balances: &Balances, needed_minor: i64) -> (r: Result<(), CompileError>)
    ensures
        cash_check(*balances, needed_minor) matches Some(e) ==> r == Err::<(), CompileError>(e),
        cash_check(*balances, needed_minor) is None ==> r is Ok,
{
    let available_minor = cash_available(balances);
    if available_minor < needed_minor {
        return Err(CompileError::InsufficientCash { needed_minor, available_minor });
    }
    Ok(())
}

/// Procurement cost of one unit: the market commodity price scaled by the
/// product line's frozen multiplier.
pub fn unit_cost_minor(commodity_price_minor: i64, multiplier_micro: i64) -> (r: Result<
    i64,
    CompileError,
>)
    ensures
        r == unit_cost_spec(commodity_price_minor, multiplier_micro),
{
    proof {
        crate::money::lemma_i64_product_bound(commodity_price_minor as int, multiplier_micro as int);
    }
    let num = (commodity_price_minor as i128) * (multiplier_micro as i128);
    let q = match floor_half_up(num, 1_000_000) {
        Ok(q) => q,
        Err(e) => return Err(CompileError::Money(e)),
    };
    if q < i64::MIN as i128 || q > i64::MAX as i128 {
        return Err(CompileError::Money(MoneyError::Overflow));
    }
    Ok(q as i64)
}

fn build(shape_kind: TxKind, debit: AccountCode, credit: AccountCode, amount: Money, effect: FirmEffect) -> (r: Result<ActionPlan, CompileError>)
    requires
        amount.0 > 0,
    ensures
        r matches Ok(p) && plan_is(p, moving(shape_kind, debit, credit, amount.0, effect)),
{
    match transfer(shape_kind, debit, credit, amount) {
        Ok(tx) => Ok(ActionPlan { transaction: Some(tx), firm_effect: effect }),
        Err(e) => Err(e),
    }
}

/// Intent to plan. Read-only in every store: compilation is free of side
/// effects so a refusal costs nothing.
pub fn compile(intent: ActionIntent, ctx: &ActionContext, balances: &Balances, firm: &FirmState) -> (r: Result<
    ActionPlan,
    CompileError,
>)
    ensures
        compile_spec(intent, *ctx, *balances, firm@) matches Ok(s) ==> (r matches Ok(p)
            && plan_is(p, s)),
        compile_spec(intent, *ctx, *balances, firm@) matches Err(e) ==> r == Err::<
            ActionPlan,
            CompileError,
        >(e),
{
    proof {
        firm.lemma_view();
    }
    match intent {
        ActionIntent::Borrow { facility, amount_minor } => {
            let f = match Facility::from_wire(facility) {
                Ok(f) => f,
                Err(e) => return Err(e),
            };
            let amount = match checked_amount(amount_minor) {
                Ok(a) => a,
                Err(e) => return Err(e),
            };
            build(TxKind::DrawDebt, AccountCode::Cash, f.account(), amount, FirmEffect::NoChange)
        },
        ActionIntent::Repay { facility, amount_minor } => {
            let f = match Facility::from_wire(facility) {
                Ok(f) => f,
                Err(e) => return Err(e),
            };
            let amount = match checked_amount(amount_minor) {
                Ok(a) => a,
                Err(e) => return Err(e),
            };
            let outstanding_minor = outstanding(balances, f);
            if amount.minor() > outstanding_minor {
                return Err(
                    CompileError::RepayExceedsOutstanding {
                        requested_minor: amount.minor(),
                        outstanding_minor,
                    },
                );
            }
            match require_cash(balances, amount.minor()) {
                Ok(()) => {},
                Err(e) => return Err(e),
            }
            build(TxKind::ServiceDebt, f.account(), AccountCode::Cash, amount, FirmEffect::NoChange)
        },
        ActionIntent::Invest { project_id, amount_minor } => {
            let amount = match checked_amount(amount_minor) {
                Ok(a) => a,
                Err(e) => return Err(e),
            };
            match firm.project(project_id) {
                Ok(p) => {
                    if p.status != ProjectStatus::Active {
                        return Err(CompileError::Firm(FirmError::ProjectNotActive { project_id }));
                    }
                },
                Err(_) => {},
            }
            match require_cash(balances, amount.minor()) {
                Ok(()) => {},
                Err(e) => return Err(e),
            }
            build(
                TxKind::CapexPurchase,
                AccountCode::PropertyPlantEquipment,
                AccountCode::Cash,
                amount,
                FirmEffect::CommitToProject { project_id, amount_minor: amount.minor() },
            )
        },
        ActionIntent::ContinueProject { project_id } => {
            let p = match firm.project(project_id) {
                Ok(p) => p,
                Err(e) => return Err(CompileError::Firm(e)),
            };
            if p.status != ProjectStatus::Active {
                return Err(CompileError::Firm(FirmError::ProjectNotActive { project_id }));
            }
            Ok(ActionPlan::firm_only(FirmEffect::ContinueProject { project_id }))
        },
        ActionIntent::AbandonProject { project_id } => {
            let p = match firm.project(project_id) {
                Ok(p) => p,
                Err(e) => return Err(CompileError::Firm(e)),
            };
            if p.status != ProjectStatus::Active {
                return Err(CompileError::Firm(FirmError::ProjectNotActive { project_id }));
            }
            let effect = FirmEffect::AbandonProject { project_id };
            if p.committed_minor == 0 {
                return Ok(ActionPlan::firm_only(effect));
            }
            let carrying_minor = balances.balance_minor(AccountCode::PropertyPlantEquipment);
            if p.committed_minor > carrying_minor {
                return Err(
                    CompileError::WriteOffExceedsCarryingValue {
                        committed_minor: p.committed_minor,
                        carrying_minor,
                    },
                );
            }
            let amount = match checked_amount(p.committed_minor) {
                Ok(a) => a,
                Err(e) => return Err(e),
            };
            build(
                TxKind::PayOpex,
                AccountCode::OperatingExpense,
                AccountCode::PropertyPlantEquipment,
                amount,
                effect,
            )
        },
        ActionIntent::SetPrice { sku, tick_price } => {
            match firm.sku(sku) {
                Ok(_) => {},
                Err(e) => return Err(CompileError::Firm(e)),
            }
            if !(MIN_PRICE_MINOR <= tick_price && tick_price <= MAX_PRICE_MINOR) {
                return Err(CompileError::PriceOutOfRange { price_minor: tick_price });
            }
            Ok(ActionPlan::firm_only(FirmEffect::SetPrice { sku, price_minor: tick_price }))
        },
        ActionIntent::OrderInventory { sku, units } => {
            match firm.sku(sku) {
                Ok(_) => {},
                Err(e) => return Err(CompileError::Firm(e)),
            }
            if units == 0 || units > MAX_ORDER_UNITS {
                return Err(CompileError::OrderOutOfRange { units });
            }
            let cfg = ctx.firm_params.skus[sku as usize];
            let per_unit = match unit_cost_minor(
                ctx.market.commodity_price_minor,
                cfg.cost_multiplier_micro,
            ) {
                Ok(v) => v,
                Err(e) => return Err(e),
            };
            proof {
                crate::money::lemma_i64_product_bound(per_unit as int, units as int);
            }
            let total = (per_unit as i128) * (units as i128);
            if total < i64::MIN as i128 || total > i64::MAX as i128 {
                return Err(CompileError::Money(MoneyError::Overflow));
            }
            let total_minor = total as i64;
            let amount = match checked_amount(total_minor) {
                Ok(a) => a,
                Err(e) => return Err(e),
            };
            match require_cash(balances, amount.minor()) {
                Ok(()) => {},
                Err(e) => return Err(e),
            }
            build(
                TxKind::PurchaseInventory,
                AccountCode::Inventory,
                AccountCode::Cash,
                amount,
                FirmEffect::AddInventory { sku, units, cost_minor: amount.minor() },
            )
        },
        ActionIntent::AcceptOffer { offer_id } => {
            let offer = match firm.offer(offer_id) {
                Ok(o) => o,
                Err(e) => return Err(CompileError::Firm(e)),
            };
            if offer.status != OfferStatus::Open {
                return Err(CompileError::Firm(FirmError::OfferNotOpen { offer_id }));
            }
            let amount = match checked_amount(offer.cost_minor) {
                Ok(a) => a,
                Err(e) => return Err(e),
            };
            match require_cash(balances, amount.minor()) {
                Ok(()) => {},
                Err(e) => return Err(e),
            }
            let (kind, debit) = match offer.kind {
                OfferKind::Insurance => (TxKind::PayOpex, AccountCode::PrepaidExpenses),
                OfferKind::Expansion => (TxKind::CapexPurchase, AccountCode::PropertyPlantEquipment),
            };
            build(
                kind,
                debit,
                AccountCode::Cash,
                amount,
                FirmEffect::ResolveOffer { offer_id, accepted: true },
            )
        },
        ActionIntent::DeclineOffer { offer_id } => {
            let offer = match firm.offer(offer_id) {
                Ok(o) => o,
                Err(e) => return Err(CompileError::Firm(e)),
            };
            if offer.status != OfferStatus::Open {
                return Err(CompileError::Firm(FirmError::OfferNotOpen { offer_id }));
            }
            Ok(ActionPlan::firm_only(FirmEffect::ResolveOffer { offer_id, accepted: false }))
        },
        ActionIntent::OpenHedge { instrument, notional_minor } => {
            let amount = match checked_amount(notional_minor) {
                Ok(a) => a,
                Err(e) => return Err(e),
            };
            Ok(
                ActionPlan::firm_only(
                    FirmEffect::OpenPosition {
                        instrument,
                        notional_minor: amount.minor(),
                        entry_index_centi: ctx.market.equity_index_centi,
                    },
                ),
            )
        },
        ActionIntent::ClosePosition { position_id } => {
            let position = match firm.position(position_id) {
                Ok(p) => p,
                Err(e) => return Err(CompileError::Firm(e)),
            };
            let pnl = match position_pnl_minor(&position, ctx.market.equity_index_centi) {
                Ok(v) => v,
                Err(e) => return Err(CompileError::Firm(e)),
            };
            let effect = FirmEffect::ClosePosition { position_id };
            if pnl == 0 {
                return Ok(ActionPlan::firm_only(effect));
            }
            if pnl > 0 {
                let amount = match checked_amount(pnl) {
                    Ok(a) => a,
                    Err(e) => return Err(e),
                };
                return build(
                    TxKind::HedgeSettlement,
                    AccountCode::Cash,
                    AccountCode::OtherIncome,
                    amount,
                    effect,
                );
            }
            if pnl == i64::MIN {
                return Err(CompileError::Money(MoneyError::Overflow));
            }
            let magnitude = -pnl;
            let amount = match checked_amount(magnitude) {
                Ok(a) => a,
                Err(e) => return Err(e),
            };
            match require_cash(balances, amount.minor()) {
                Ok(()) => {},
                Err(e) => return Err(e),
            }
            build(
                TxKind::HedgeSettlement,
                AccountCode::OperatingExpense,
                AccountCode::Cash,
                amount,
                effect,
            )
        },
        ActionIntent::ForecastInterval { lo_minor, hi_minor } => {
            if lo_minor < 0 || hi_minor > MAX_ACTION_AMOUNT_MINOR || lo_minor > hi_minor {
                return Err(CompileError::InvalidForecastInterval { lo_minor, hi_minor });
            }
            Ok(ActionPlan::inert())
        },
        ActionIntent::Abstain | ActionIntent::ForcedDefault => Ok(ActionPlan::inert()),
    }
}


/// The mutable half of the simulation core: what a decision can change.
#[derive(Debug, Clone)]
pub struct SimBooks {
    pub balances: Balances,
    pub firm: FirmState,
    pub journal: Journal,
}

#[derive(Debug, Clone, Copy, PartialEq, Eq, Structural)]
pub struct Execution {
    pub ledger_effect: bool,
    pub journal_seq: Option<u64>,
}

/// The journal can take one more entry.
pub open spec fn journal_has_room(j: Journal) -> bool {
    j.spec_next_seq() < u64::MAX && j.entries().len() < JOURNAL_TAIL_CAPACITY
}

/// Balances after a plan's postings, if they apply without overflow.
pub open spec fn balances_after(b: Seq<i64>, postings: Option<Seq<Posting>>) -> Option<Seq<i64>> {
    match postings {
        None => Some(b),
        Some(ps) => apply_spec(b, ps),
    }
}

pub open spec fn tx_postings(plan: ActionPlan) -> Option<Seq<Posting>> {
    match plan.transaction {
        None => None,
        Some(tx) => Some(tx.spec_postings()),
    }
}

pub open spec fn shape_postings(s: PlanShape) -> Option<Seq<Posting>> {
    match s.transfer {
        None => None,
        Some(t) => Some(transfer_postings(t.debit, t.credit, t.amount)),
    }
}

/// Why applying a plan with these postings and this effect is refused, if
/// it is.
pub open spec fn apply_refusal(
    books: SimBooks,
    postings: Option<Seq<Posting>>,
    effect: FirmEffect,
) -> Option<CompileError> {
    let nb = balances_after(books.balances@, postings);
    if nb is None {
        Some(CompileError::Ledger(LedgerError::Overflow))
    } else if postings is Some && crate::ledger::seq_sum(nb.unwrap()) != 0 {
        let t = crate::ledger::seq_sum(nb.unwrap());
        Some(
            CompileError::Ledger(
                LedgerError::Unbalanced {
                    debit_minor: (if t > 0 {
                        t
                    } else {
                        0
                    }) as i128,
                    credit_minor: (if t < 0 {
                        -t
                    } else {
                        0
                    }) as i128,
                },
            ),
        )
    } else if apply_effect_spec(books.firm@, effect) is Err {
        Some(CompileError::Firm(apply_effect_spec(books.firm@, effect)->Err_0))
    } else if postings is Some && books.journal.spec_next_seq() == u64::MAX {
        Some(CompileError::Ledger(LedgerError::Overflow))
    } else if postings is Some && books.journal.entries().len() >= JOURNAL_TAIL_CAPACITY {
        Some(CompileError::Ledger(LedgerError::JournalTailFull))
    } else {
        None
    }
}

/// The books are untouched.
pub open spec fn books_unchanged(a: SimBooks, b: SimBooks) -> bool {
    &&& a.balances@ == b.balances@
    &&& a.firm@ == b.firm@
    &&& a.journal.entries() == b.journal.entries()
    &&& a.journal.spec_next_seq() == b.journal.spec_next_seq()
    &&& a.journal.wf() == b.journal.wf()
}

/// The books after a successful application: balances and firm moved, and
/// one journal entry appended exactly when money moved.
pub open spec fn books_applied(
    old_books: SimBooks,
    new_books: SimBooks,
    postings: Option<Seq<Posting>>,
    effect: FirmEffect,
) -> bool {
    &&& new_books.balances@ == balances_after(old_books.balances@, postings).unwrap()
    &&& new_books.firm@ == apply_effect_spec(old_books.firm@, effect).unwrap()
    &&& new_books.journal.wf()
    &&& postings is None ==> new_books.journal.entries() == old_books.journal.entries()
        && new_books.journal.spec_next_seq() == old_books.journal.spec_next_seq()
    &&& postings matches Some(ps) ==> {
        &&& new_books.journal.spec_next_seq() == old_books.journal.spec_next_seq() + 1
        &&& new_books.journal.entries().len() == old_books.journal.entries().len() + 1
        &&& new_books.journal.entries().drop_last() == old_books.journal.entries()
        &&& new_books.journal.entries().last().seq == old_books.journal.spec_next_seq()
        &&& new_books.journal.entries().last().tx.spec_postings() == ps
        &&& new_books.journal.entries().last().tx.wf()
    }
}

pub open spec fn execution_for(books: SimBooks, postings: Option<Seq<Posting>>) -> Execution {
    Execution {
        ledger_effect: postings is Some,
        journal_seq: if postings is Some {
            Some(books.journal.spec_next_seq())
        } else {
            None
        },
    }
}

impl SimBooks {
    pub open spec fn wf(&self) -> bool {
        self.journal.wf()
    }

    pub fn new(params: &FirmParams) -> (r: Result<Self, CompileError>)
        ensures
            r matches Ok(b) && b.wf() && b.balances@ == Seq::new(20, |i: int| 0i64)
                && b.firm@ == FirmState::new_spec(*params) && b.journal.entries() == Seq::<
                JournalEntry,
            >::empty() && b.journal.spec_next_seq() == 0,
    {
        let journal = match Journal::new() {
            Ok(j) => j,
            Err(e) => return Err(CompileError::Ledger(e)),
        };
        Ok(SimBooks { balances: Balances::new(), firm: FirmState::new(params), journal })
    }

    /// Post the opening capital structure. Not an intent: the player does not
    /// decide their own endowment.
    pub fn seed_capital(&mut self, opening_minor: i64) -> (r: Result<(), CompileError>)
        requires
            old(self).wf(),
        ensures
            final(self).wf(),
            final(self).firm@ == old(self).firm@,
            !amount_ok(opening_minor) ==> r == Err::<(), CompileError>(
                CompileError::AmountOutOfRange { got_minor: opening_minor },
            ) && books_unchanged(*old(self), *final(self)),
            amount_ok(opening_minor) ==> {
                let ps = transfer_postings(AccountCode::Cash, AccountCode::ShareCapital, opening_minor);
                &&& apply_spec(old(self).balances@, ps) is None ==> r == Err::<(), CompileError>(
                    CompileError::Ledger(LedgerError::Overflow),
                ) && final(self).balances@ == old(self).balances@
                &&& apply_spec(old(self).balances@, ps) is Some ==> final(self).balances@
                    == apply_spec(old(self).balances@, ps).unwrap() && (journal_has_room(
                    old(self).journal,
                ) ==> r is Ok && final(self).journal.entries().len() == old(self).journal.entries().len() + 1 && final(self).journal.entries().last().tx.spec_postings()
                    == ps && final(self).journal.entries().drop_last() == old(self).journal.entries()
                    && final(self).journal.entries().last().seq == old(self).journal.spec_next_seq()
                    && final(self).journal.entries().last().tx.spec_kind() == TxKind::OpeningEquity
                    && final(self).journal.spec_next_seq() == old(self).journal.spec_next_seq() + 1)
            },
    {
        let amount = match checked_amount(opening_minor) {
            Ok(a) => a,
            Err(e) => return Err(e),
        };
        let tx = match transfer(
            TxKind::OpeningEquity,
            AccountCode::Cash,
            AccountCode::ShareCapital,
            amount,
        ) {
            Ok(t) => t,
            Err(e) => return Err(e),
        };
        match self.balances.apply(&tx) {
            Ok(()) => {},
            Err(e) => return Err(CompileError::Ledger(e)),
        }
        match self.journal.append(tx) {
            Ok(_) => {},
            Err(e) => return Err(CompileError::Ledger(e)),
        }
        Ok(())
    }
}

/// The books balance after the step whenever they balanced before it.
pub open spec fn keeps_zero_sum(before: SimBooks, after: SimBooks) -> bool {
    before.balances.total() == 0 ==> after.balances.total() == 0
}

/// Compile and apply, all-or-nothing across all three stores.
/// What executing `intent` does to the books and returns: the compiler's
/// refusal, the staging refusal, or the applied plan.
pub open spec fn intent_outcome(
    intent: ActionIntent,
    ctx: ActionContext,
    before: SimBooks,
    after: SimBooks,
    r: Result<Execution, CompileError>,
) -> bool {
    match compile_spec(intent, ctx, before.balances, before.firm@) {
        Err(e) => r == Err::<Execution, CompileError>(e) && books_unchanged(before, after),
        Ok(s) => match apply_refusal(before, shape_postings(s), s.effect) {
            Some(e) => r == Err::<Execution, CompileError>(e) && books_unchanged(before, after),
            None => r == Ok::<Execution, CompileError>(execution_for(before, shape_postings(s)))
                && books_applied(before, after, shape_postings(s), s.effect),
        },
    }
}

pub fn execute_intent(intent: ActionIntent, ctx: &ActionContext, books: &mut SimBooks) -> (r: Result<
    Execution,
    CompileError,
>)
    requires
        old(books).wf(),
    ensures
        final(books).wf(),
        intent_outcome(intent, *ctx, *old(books), *final(books), r),
        compile_spec(intent, *ctx, old(books).balances, old(books).firm@) matches Err(e) ==> r
            == Err::<Execution, CompileError>(e) && books_unchanged(*old(books), *final(books)),
        compile_spec(intent, *ctx, old(books).balances, old(books).firm@) matches Ok(s) ==> {
            &&& apply_refusal(*old(books), shape_postings(s), s.effect) matches Some(e) ==> r
                == Err::<Execution, CompileError>(e) && books_unchanged(*old(books), *final(books))
            &&& apply_refusal(*old(books), shape_postings(s), s.effect) is None ==> r == Ok::<
                Execution,
                CompileError,
            >(execution_for(*old(books), shape_postings(s))) && books_applied(
                *old(books),
                *final(books),
                shape_postings(s),
                s.effect,
            )
        },
        old(books).balances.total() == 0 ==> final(books).balances.total() == 0,
{
    let plan = match compile(intent, ctx, &books.balances, &books.firm) {
        Ok(p) => p,
        Err(e) => return Err(e),
    };
    apply_plan(plan, books)
}

/// A two-legged transfer moves its debited account up by the amount and
/// its credited account down by it.
pub proof fn lemma_transfer_delta(debit: AccountCode, credit: AccountCode, amount: i64, a: AccountCode)
    ensures
        crate::ledger::account_delta(transfer_postings(debit, credit, amount), a) == (if a == debit {
            amount as int
        } else {
            0
        }) - (if a == credit {
            amount as int
        } else {
            0
        }),
{
    let ps = transfer_postings(debit, credit, amount);
    let p1 = ps.drop_last();
    assert(p1 =~= seq![ps[0]]);
    assert(p1.drop_last() =~= Seq::<Posting>::empty());
    assert(crate::ledger::account_delta(p1.drop_last(), a) == 0);
    assert(crate::ledger::account_delta(p1, a) == if debit == a {
        amount as int
    } else {
        0
    });
    assert(crate::ledger::account_delta(ps, a) == crate::ledger::account_delta(p1, a) + if credit == a {
        -(amount as int)
    } else {
        0
    });
}

/// A two-legged transfer that applies moves its debited account up by the
/// amount, its credited account down by it, and nothing else.
proof fn lemma_transfer_moves(s: Seq<i64>, debit: AccountCode, credit: AccountCode, amount: i64, a: AccountCode)
    requires
        s.len() == crate::ledger::N_ACCOUNTS,
        debit != credit,
        apply_spec(s, transfer_postings(debit, credit, amount)) is Some,
    ensures
        apply_spec(s, transfer_postings(debit, credit, amount)).unwrap()[crate::ledger::account_index(a) as int]
            == s[crate::ledger::account_index(a) as int] + (if a == debit {
            amount as int
        } else if a == credit {
            -(amount as int)
        } else {
            0
        }),
{
    crate::ledger::law_apply_moves_each_account_by_its_postings(s, transfer_postings(debit, credit, amount), a);
    lemma_transfer_delta(debit, credit, amount, a);
}

/// An executed intent whose plan is the transfer `debit`/`credit` of
/// `amount` moved exactly those two accounts by that amount.
proof fn lemma_executed_transfer_moves(
    intent: ActionIntent,
    ctx: ActionContext,
    before: SimBooks,
    after: SimBooks,
    r: Result<Execution, CompileError>,
    debit: AccountCode,
    credit: AccountCode,
    amount: i64,
)
    requires
        intent_outcome(intent, ctx, before, after, r),
        r is Ok,
        compile_spec(intent, ctx, before.balances, before.firm@) is Ok,
        shape_postings(compile_spec(intent, ctx, before.balances, before.firm@)->Ok_0) == Some(
            transfer_postings(debit, credit, amount),
        ),
        debit != credit,
    ensures
        forall|a: AccountCode|
            #[trigger] after.balances.bal(a) == before.balances.bal(a) + (if a == debit {
                amount as int
            } else if a == credit {
                -(amount as int)
            } else {
                0
            }),
{
    let s = before.balances@;
    before.balances.lemma_len();
    let ps = transfer_postings(debit, credit, amount);
    assert(after.balances@ == apply_spec(s, ps).unwrap());
    assert forall|a: AccountCode|
        #[trigger] after.balances.bal(a) == before.balances.bal(a) + (if a == debit {
            amount as int
        } else if a == credit {
            -(amount as int)
        } else {
            0
        }) by {
        lemma_transfer_moves(s, debit, credit, amount, a);
    }
}

/// Borrowing `amount_minor` on a facility that goes through brings that
/// much cash in and raises the facility's debt (senior for wire id 0,
/// mezzanine for 1) by the same amount; no other account moves.
pub proof fn law_borrowing_raises_cash_and_debt(
    facility: u8,
    amount_minor: i64,
    ctx: ActionContext,
    before: SimBooks,
    after: SimBooks,
    r: Result<Execution, CompileError>,
)
    requires
        intent_outcome(ActionIntent::Borrow { facility, amount_minor }, ctx, before, after, r),
        r is Ok,
    ensures
        facility == 0 || facility == 1,
        ({
            let debt = if facility == 0 {
                AccountCode::SeniorDebt
            } else {
                AccountCode::MezzanineDebt
            };
            &&& after.balances.bal(AccountCode::Cash) == before.balances.bal(AccountCode::Cash) + amount_minor
            &&& -after.balances.bal(debt) == -before.balances.bal(debt) + amount_minor
            &&& forall|a: AccountCode|
                a != AccountCode::Cash && a != debt ==> #[trigger] after.balances.bal(a) == before.balances.bal(a)
        }),
{
    let debt = if facility == 0 {
        AccountCode::SeniorDebt
    } else {
        AccountCode::MezzanineDebt
    };
    lemma_executed_transfer_moves(
        ActionIntent::Borrow { facility, amount_minor },
        ctx,
        before,
        after,
        r,
        AccountCode::Cash,
        debt,
        amount_minor,
    );
}

/// Repaying `amount_minor` on a facility that goes through pays that much
/// cash out and lowers the facility's debt by the same amount, never by
/// more than was outstanding; no other account moves.
pub proof fn law_repaying_lowers_cash_and_debt(
    facility: u8,
    amount_minor: i64,
    ctx: ActionContext,
    before: SimBooks,
    after: SimBooks,
    r: Result<Execution, CompileError>,
)
    requires
        intent_outcome(ActionIntent::Repay { facility, amount_minor }, ctx, before, after, r),
        r is Ok,
    ensures
        facility == 0 || facility == 1,
        ({
            let debt = if facility == 0 {
                AccountCode::SeniorDebt
            } else {
                AccountCode::MezzanineDebt
            };
            &&& after.balances.bal(AccountCode::Cash) == before.balances.bal(AccountCode::Cash) - amount_minor
            &&& -after.balances.bal(debt) == -before.balances.bal(debt) - amount_minor
            &&& before.balances.bal(debt) != i64::MIN ==> -after.balances.bal(debt) >= 0
            &&& forall|a: AccountCode|
                a != AccountCode::Cash && a != debt ==> #[trigger] after.balances.bal(a) == before.balances.bal(a)
        }),
{
    let debt = if facility == 0 {
        AccountCode::SeniorDebt
    } else {
        AccountCode::MezzanineDebt
    };
    lemma_executed_transfer_moves(
        ActionIntent::Repay { facility, amount_minor },
        ctx,
        before,
        after,
        r,
        debt,
        AccountCode::Cash,
        amount_minor,
    );
}

/// Investing `amount_minor` in a project that goes through capitalises it:
/// property, plant and equipment rises by the amount, cash falls by it, no
/// other account moves, and the project has the amount committed.
pub proof fn law_investing_capitalises_the_amount(
    project_id: u32,
    amount_minor: i64,
    ctx: ActionContext,
    before: SimBooks,
    after: SimBooks,
    r: Result<Execution, CompileError>,
)
    requires
        intent_outcome(ActionIntent::Invest { project_id, amount_minor }, ctx, before, after, r),
        r is Ok,
    ensures
        after.balances.bal(AccountCode::PropertyPlantEquipment) == before.balances.bal(
            AccountCode::PropertyPlantEquipment,
        ) + amount_minor,
        after.balances.bal(AccountCode::Cash) == before.balances.bal(AccountCode::Cash) - amount_minor,
        forall|a: AccountCode|
            a != AccountCode::PropertyPlantEquipment && a != AccountCode::Cash ==> #[trigger] after.balances.bal(a)
                == before.balances.bal(a),
        project_id < 8,
        after.firm@.projects[project_id as int] == Some(
            match before.firm@.projects[project_id as int] {
                Some(p) => crate::firm::Project {
                    committed_minor: (p.committed_minor + amount_minor) as i64,
                    ..p
                },
                None => crate::firm::Project {
                    committed_minor: amount_minor,
                    status: ProjectStatus::Active,
                    continue_count: 0,
                },
            },
        ),
        before.firm@.projects[project_id as int] matches Some(p) ==> p.status == ProjectStatus::Active
            && p.committed_minor + amount_minor <= i64::MAX,
        forall|j: int| 0 <= j < 8 && j != project_id ==> #[trigger] after.firm@.projects[j] == before.firm@.projects[j],
        after.firm@.skus == before.firm@.skus,
        after.firm@.offers == before.firm@.offers,
        after.firm@.positions == before.firm@.positions,
{
    before.firm.lemma_view();
    lemma_executed_transfer_moves(
        ActionIntent::Invest { project_id, amount_minor },
        ctx,
        before,
        after,
        r,
        AccountCode::PropertyPlantEquipment,
        AccountCode::Cash,
        amount_minor,
    );
}

/// Abandoning a project that goes through writes its committed capital off:
/// operating expense rises by what was committed and property, plant and
/// equipment falls by it; with nothing committed no account moves.
pub proof fn law_abandoning_writes_off_the_committed_capital(
    project_id: u32,
    ctx: ActionContext,
    before: SimBooks,
    after: SimBooks,
    r: Result<Execution, CompileError>,
)
    requires
        intent_outcome(ActionIntent::AbandonProject { project_id }, ctx, before, after, r),
        r is Ok,
    ensures
        project_id < 8,
        before.firm@.projects[project_id as int] is Some,
        ({
            let committed = before.firm@.projects[project_id as int].unwrap().committed_minor as int;
            &&& after.balances.bal(AccountCode::OperatingExpense) == before.balances.bal(
                AccountCode::OperatingExpense,
            ) + committed
            &&& after.balances.bal(AccountCode::PropertyPlantEquipment) == before.balances.bal(
                AccountCode::PropertyPlantEquipment,
            ) - committed
            &&& forall|a: AccountCode|
                a != AccountCode::OperatingExpense && a != AccountCode::PropertyPlantEquipment
                    ==> #[trigger] after.balances.bal(a) == before.balances.bal(a)
        }),
        after.firm@.projects[project_id as int] == Some(
            crate::firm::Project {
                status: ProjectStatus::Abandoned,
                ..before.firm@.projects[project_id as int].unwrap()
            },
        ),
        before.firm@.projects[project_id as int].unwrap().status == ProjectStatus::Active,
{
    before.firm.lemma_view();
    let committed = before.firm@.projects[project_id as int].unwrap().committed_minor;
    if committed != 0 {
        lemma_executed_transfer_moves(
            ActionIntent::AbandonProject { project_id },
            ctx,
            before,
            after,
            r,
            AccountCode::OperatingExpense,
            AccountCode::PropertyPlantEquipment,
            committed,
        );
    } else {
        assert(after.balances@ == before.balances@);
    }
}

/// An inventory order that goes through pays for its stock at the
/// procurement price: inventory rises and cash falls by the units times the
/// unit cost (commodity price times the line's cost multiplier over a
/// million, floor-half-up), and no other account moves.
pub proof fn law_ordering_inventory_pays_for_stock(
    sku: u8,
    units: u32,
    ctx: ActionContext,
    before: SimBooks,
    after: SimBooks,
    r: Result<Execution, CompileError>,
)
    requires
        intent_outcome(ActionIntent::OrderInventory { sku, units }, ctx, before, after, r),
        r is Ok,
    ensures
        ({
            let unit_cost = crate::money::floor_half_up_spec(
                ctx.market.commodity_price_minor * ctx.firm_params.skus@[sku as int].cost_multiplier_micro,
                1_000_000,
            );
            &&& after.balances.bal(AccountCode::Inventory) == before.balances.bal(AccountCode::Inventory)
                + unit_cost * units
            &&& after.balances.bal(AccountCode::Cash) == before.balances.bal(AccountCode::Cash) - unit_cost
                * units
            &&& forall|a: AccountCode|
                a != AccountCode::Inventory && a != AccountCode::Cash ==> #[trigger] after.balances.bal(a)
                    == before.balances.bal(a)
            &&& sku < MAX_SKUS
            &&& after.firm@.skus[sku as int].inventory_units == before.firm@.skus[sku as int].inventory_units
                + units
            &&& after.firm@.skus[sku as int].inventory_value_minor
                == before.firm@.skus[sku as int].inventory_value_minor + unit_cost * units
            &&& after.firm@.skus[sku as int].unit_price_minor == before.firm@.skus[sku as int].unit_price_minor
        }),
{
    before.firm.lemma_view();
    let per_unit = unit_cost_spec(
        ctx.market.commodity_price_minor,
        ctx.firm_params.skus@[sku as int].cost_multiplier_micro,
    )->Ok_0;
    lemma_executed_transfer_moves(
        ActionIntent::OrderInventory { sku, units },
        ctx,
        before,
        after,
        r,
        AccountCode::Inventory,
        AccountCode::Cash,
        (per_unit * units) as i64,
    );
}

/// Closing a position that goes through settles its profit in cash: the
/// profit is the index move since entry times the notional over the entry
/// level (at least one), floor-half-up; a gain is booked from other income
/// into cash, a loss from cash into operating expense, and no other account
/// moves.
pub proof fn law_closing_a_position_settles_its_profit(
    position_id: u32,
    ctx: ActionContext,
    before: SimBooks,
    after: SimBooks,
    r: Result<Execution, CompileError>,
)
    requires
        intent_outcome(ActionIntent::ClosePosition { position_id }, ctx, before, after, r),
        r is Ok,
    ensures
        position_id < 8,
        before.firm@.positions[position_id as int] is Some,
        ({
            let p = before.firm@.positions[position_id as int].unwrap();
            let den = if p.entry_index_centi >= 1 {
                p.entry_index_centi as int
            } else {
                1
            };
            let pnl = crate::money::floor_half_up_spec(
                (ctx.market.equity_index_centi - p.entry_index_centi) * p.notional_minor,
                den,
            );
            &&& after.balances.bal(AccountCode::Cash) == before.balances.bal(AccountCode::Cash) + pnl
            &&& after.balances.bal(AccountCode::OtherIncome) == before.balances.bal(AccountCode::OtherIncome)
                - (if pnl > 0 {
                pnl
            } else {
                0
            })
            &&& after.balances.bal(AccountCode::OperatingExpense) == before.balances.bal(
                AccountCode::OperatingExpense,
            ) + (if pnl < 0 {
                -pnl
            } else {
                0
            })
            &&& forall|a: AccountCode|
                a != AccountCode::Cash && a != AccountCode::OtherIncome && a != AccountCode::OperatingExpense
                    ==> #[trigger] after.balances.bal(a) == before.balances.bal(a)
        }),
{
    let p = before.firm@.positions[position_id as int].unwrap();
    let pnl = pnl_spec(p, ctx.market.equity_index_centi)->Ok_0;
    let intent = ActionIntent::ClosePosition { position_id };
    if pnl > 0 {
        lemma_executed_transfer_moves(intent, ctx, before, after, r, AccountCode::Cash, AccountCode::OtherIncome, pnl);
    } else if pnl < 0 {
        lemma_executed_transfer_moves(
            intent,
            ctx,
            before,
            after,
            r,
            AccountCode::OperatingExpense,
            AccountCode::Cash,
            (-pnl) as i64,
        );
    } else {
        assert(after.balances@ == before.balances@);
    }
}

proof fn lemma_first_free_is_free(s: Seq<Option<crate::firm::Position>>, n: int)
    requires
        crate::firm::first_free(s, n) is Some,
    ensures
        0 <= crate::firm::first_free(s, n)->Some_0 < n,
        s[crate::firm::first_free(s, n)->Some_0] is None,
    decreases n,
{
    if n > 0 && crate::firm::first_free(s, n - 1) is Some {
        lemma_first_free_is_free(s, n - 1);
    }
}

/// Setting a price that goes through moves no money and reprices that line
/// alone, its stock untouched.
pub proof fn law_setting_a_price_reprices_the_line(
    sku: u8,
    tick_price: i64,
    ctx: ActionContext,
    before: SimBooks,
    after: SimBooks,
    r: Result<Execution, CompileError>,
)
    requires
        intent_outcome(ActionIntent::SetPrice { sku, tick_price }, ctx, before, after, r),
        r is Ok,
    ensures
        after.balances@ == before.balances@,
        sku < MAX_SKUS,
        after.firm@.skus[sku as int] == (crate::firm::SkuState {
            unit_price_minor: tick_price,
            ..before.firm@.skus[sku as int]
        }),
        forall|j: int| 0 <= j < MAX_SKUS && j != sku ==> #[trigger] after.firm@.skus[j] == before.firm@.skus[j],
        after.firm@.projects == before.firm@.projects,
        after.firm@.offers == before.firm@.offers,
        after.firm@.positions == before.firm@.positions,
{
    before.firm.lemma_view();
}

/// Continuing a project that goes through moves no money and counts one
/// more explicit continuation (saturating), the project otherwise as it was.
pub proof fn law_continuing_counts_a_continuation(
    project_id: u32,
    ctx: ActionContext,
    before: SimBooks,
    after: SimBooks,
    r: Result<Execution, CompileError>,
)
    requires
        intent_outcome(ActionIntent::ContinueProject { project_id }, ctx, before, after, r),
        r is Ok,
    ensures
        after.balances@ == before.balances@,
        project_id < 8,
        before.firm@.projects[project_id as int] is Some,
        ({
            let p = before.firm@.projects[project_id as int].unwrap();
            &&& p.status == ProjectStatus::Active
            &&& after.firm@.projects[project_id as int] == Some(
                crate::firm::Project {
                    continue_count: if p.continue_count == u32::MAX {
                        u32::MAX
                    } else {
                        (p.continue_count + 1) as u32
                    },
                    ..p
                },
            )
        }),
{
    before.firm.lemma_view();
}

/// Declining an open offer that goes through moves no money and marks the
/// offer declined.
pub proof fn law_declining_marks_the_offer_declined(
    offer_id: u32,
    ctx: ActionContext,
    before: SimBooks,
    after: SimBooks,
    r: Result<Execution, CompileError>,
)
    requires
        intent_outcome(ActionIntent::DeclineOffer { offer_id }, ctx, before, after, r),
        r is Ok,
    ensures
        after.balances@ == before.balances@,
        offer_id < 8,
        before.firm@.offers[offer_id as int] is Some,
        before.firm@.offers[offer_id as int].unwrap().status == OfferStatus::Open,
        after.firm@.offers[offer_id as int] == Some(
            crate::firm::Offer {
                status: OfferStatus::Declined,
                ..before.firm@.offers[offer_id as int].unwrap()
            },
        ),
{
    before.firm.lemma_view();
}

/// Opening a hedge that goes through moves no money and fills an empty
/// position slot with an open position of that instrument and notional,
/// entered at the current equity index; every other slot stays as it was.
pub proof fn law_opening_a_hedge_fills_an_empty_slot(
    instrument: u8,
    notional_minor: i64,
    ctx: ActionContext,
    before: SimBooks,
    after: SimBooks,
    r: Result<Execution, CompileError>,
)
    requires
        intent_outcome(ActionIntent::OpenHedge { instrument, notional_minor }, ctx, before, after, r),
        r is Ok,
    ensures
        after.balances@ == before.balances@,
        exists|i: int|
            0 <= i < 8 && before.firm@.positions[i] is None && #[trigger] after.firm@.positions[i] == Some(
                crate::firm::Position {
                    instrument,
                    notional_minor,
                    entry_index_centi: ctx.market.equity_index_centi,
                    status: crate::firm::PositionStatus::Open,
                },
            ) && forall|j: int| 0 <= j < 8 && j != i ==> after.firm@.positions[j] == before.firm@.positions[j],
{
    before.firm.lemma_view();
    let i = crate::firm::first_free(before.firm@.positions, 8)->Some_0;
    lemma_first_free_is_free(before.firm@.positions, 8);
    assert(after.firm@.positions[i] == Some(
        crate::firm::Position {
            instrument,
            notional_minor,
            entry_index_centi: ctx.market.equity_index_centi,
            status: crate::firm::PositionStatus::Open,
        },
    ));
}

/// A forecast, an abstention and the timeout default move no money and
/// change nothing in the firm.
pub proof fn law_forecasts_and_abstentions_change_nothing(
    intent: ActionIntent,
    ctx: ActionContext,
    before: SimBooks,
    after: SimBooks,
    r: Result<Execution, CompileError>,
)
    requires
        intent is ForecastInterval || intent is Abstain || intent is ForcedDefault,
        intent_outcome(intent, ctx, before, after, r),
        r is Ok,
    ensures
        after.balances@ == before.balances@,
        after.firm@ == before.firm@,
{
}

/// No decision overdraws cash: a decision that goes through and leaves
/// less cash than before leaves cash that is not negative.
pub proof fn law_no_decision_overdraws_cash(
    intent: ActionIntent,
    ctx: ActionContext,
    before: SimBooks,
    after: SimBooks,
    r: Result<Execution, CompileError>,
)
    requires
        intent_outcome(intent, ctx, before, after, r),
        r is Ok,
    ensures
        after.balances.bal(AccountCode::Cash) < before.balances.bal(AccountCode::Cash) ==> after.balances.bal(
            AccountCode::Cash,
        ) >= 0,
{
    let s = compile_spec(intent, ctx, before.balances, before.firm@)->Ok_0;
    match s.transfer {
        None => {
            assert(after.balances@ == before.balances@);
        },
        Some(t) => {
            assert(t.debit != t.credit);
            assert(t.credit == AccountCode::Cash ==> t.amount <= before.balances.bal(AccountCode::Cash));
            lemma_executed_transfer_moves(intent, ctx, before, after, r, t.debit, t.credit, t.amount);
            assert(after.balances.bal(AccountCode::Cash) == before.balances.bal(AccountCode::Cash) + (if AccountCode::Cash == t.debit {
                t.amount as int
            } else if AccountCode::Cash == t.credit {
                -(t.amount as int)
            } else {
                0
            }));
            assert(t.amount > 0);
        },
    }
}

/// Accepting an open expansion offer capitalises it: when the acceptance
/// goes through, property, plant and equipment rises by the offer's cost,
/// cash falls by it, no other account moves, and the offer is marked
/// accepted.
pub proof fn law_accepting_an_expansion_capitalises_its_cost(
    offer_id: u32,
    ctx: ActionContext,
    before: SimBooks,
    after: SimBooks,
    r: Result<Execution, CompileError>,
)
    requires
        intent_outcome(ActionIntent::AcceptOffer { offer_id }, ctx, before, after, r),
        r is Ok,
        before.firm@.offers[offer_id as int] matches Some(o) && o.kind == OfferKind::Expansion,
    ensures
        ({
            let cost = before.firm@.offers[offer_id as int].unwrap().cost_minor as int;
            &&& after.balances.bal(AccountCode::PropertyPlantEquipment) == before.balances.bal(
                AccountCode::PropertyPlantEquipment,
            ) + cost
            &&& after.balances.bal(AccountCode::Cash) == before.balances.bal(AccountCode::Cash) - cost
            &&& forall|a: AccountCode|
                a != AccountCode::PropertyPlantEquipment && a != AccountCode::Cash
                    ==> #[trigger] after.balances.bal(a) == before.balances.bal(a)
            &&& after.firm@.offers[offer_id as int] == Some(
                crate::firm::Offer {
                    status: OfferStatus::Accepted,
                    ..before.firm@.offers[offer_id as int].unwrap()
                },
            )
        }),
{
    let o = before.firm@.offers[offer_id as int].unwrap();
    before.firm.lemma_view();
    lemma_executed_transfer_moves(
        ActionIntent::AcceptOffer { offer_id },
        ctx,
        before,
        after,
        r,
        AccountCode::PropertyPlantEquipment,
        AccountCode::Cash,
        o.cost_minor,
    );
}

/// Accepting an open insurance offer prepays its cover: when the
/// acceptance goes through, prepaid expenses rise by the offer's cost, cash
/// falls by it, no other account moves, and the offer is marked accepted.
pub proof fn law_accepting_insurance_prepays_its_premium(
    offer_id: u32,
    ctx: ActionContext,
    before: SimBooks,
    after: SimBooks,
    r: Result<Execution, CompileError>,
)
    requires
        intent_outcome(ActionIntent::AcceptOffer { offer_id }, ctx, before, after, r),
        r is Ok,
        before.firm@.offers[offer_id as int] matches Some(o) && o.kind == OfferKind::Insurance,
    ensures
        ({
            let cost = before.firm@.offers[offer_id as int].unwrap().cost_minor as int;
            &&& after.balances.bal(AccountCode::PrepaidExpenses) == before.balances.bal(
                AccountCode::PrepaidExpenses,
            ) + cost
            &&& after.balances.bal(AccountCode::Cash) == before.balances.bal(AccountCode::Cash) - cost
            &&& forall|a: AccountCode|
                a != AccountCode::PrepaidExpenses && a != AccountCode::Cash
                    ==> #[trigger] after.balances.bal(a) == before.balances.bal(a)
            &&& after.firm@.offers[offer_id as int] == Some(
                crate::firm::Offer {
                    status: OfferStatus::Accepted,
                    ..before.firm@.offers[offer_id as int].unwrap()
                },
            )
        }),
{
    let o = before.firm@.offers[offer_id as int].unwrap();
    before.firm.lemma_view();
    lemma_executed_transfer_moves(
        ActionIntent::AcceptOffer { offer_id },
        ctx,
        before,
        after,
        r,
        AccountCode::PrepaidExpenses,
        AccountCode::Cash,
        o.cost_minor,
    );
}

/// Apply an already-compiled plan through the staging path.
pub fn apply_plan(plan: ActionPlan, books: &mut SimBooks) -> (r: Result<Execution, CompileError>)
    requires
        old(books).wf(),
        plan.transaction matches Some(tx) ==> tx.wf(),
    ensures
        final(books).wf(),
        apply_refusal(*old(books), tx_postings(plan), plan.firm_effect) matches Some(e) ==> r
            == Err::<Execution, CompileError>(e) && books_unchanged(*old(books), *final(books)),
        apply_refusal(*old(books), tx_postings(plan), plan.firm_effect) is None ==> r == Ok::<
            Execution,
            CompileError,
        >(execution_for(*old(books), tx_postings(plan))) && books_applied(
            *old(books),
            *final(books),
            tx_postings(plan),
            plan.firm_effect,
        ),
        old(books).balances.total() == 0 ==> final(books).balances.total() == 0,
{
    let ActionPlan { transaction, firm_effect } = plan;
    let mut staged_balances = books.balances;
    let mut staged_firm = books.firm;
    match &transaction {
        Some(tx) => {
            match staged_balances.apply(tx) {
                Ok(()) => {},
                Err(e) => return Err(CompileError::Ledger(e)),
            }
            match staged_balances.verify_zero_sum() {
                Ok(()) => {},
                Err(e) => return Err(CompileError::Ledger(e)),
            }
            proof {
                crate::ledger::law_identity_iff_zero_sum(staged_balances);
            }
            match staged_balances.verify_accounting_identity() {
                Ok(()) => {},
                Err(e) => return Err(CompileError::Ledger(e)),
            }
        },
        None => {},
    }
    match staged_firm.apply_effect(firm_effect) {
        Ok(()) => {},
        Err(e) => return Err(CompileError::Firm(e)),
    }
    let ghost old_entries = books.journal.entries();
    let journal_seq = match transaction {
        Some(tx) => match books.journal.append(tx) {
            Ok(seq) => {
                assert(books.journal.entries().drop_last() =~= old_entries);
                Some(seq)
            },
            Err(e) => return Err(CompileError::Ledger(e)),
        },
        None => None,
    };
    books.balances = staged_balances;
    books.firm = staged_firm;
    Ok(Execution { ledger_effect: journal_seq.is_some(), journal_seq })
}


/// A plan's transaction, if any, is balanced.
pub open spec fn plan_wf(p: ActionPlan) -> bool {
    match p.transaction {
        Some(tx) => tx.wf(),
        None => true,
    }
}

/// Stage plans in order: each plan's postings, then its firm effect. The
/// first refusal wins.
pub open spec fn stage_plans(b: Seq<i64>, f: FirmView, plans: Seq<ActionPlan>) -> Result<
    (Seq<i64>, FirmView),
    CompileError,
>
    decreases plans.len(),
{
    if plans.len() == 0 {
        Ok((b, f))
    } else {
        match stage_plans(b, f, plans.drop_last()) {
            Err(e) => Err(e),
            Ok((mb, mf)) => match balances_after(mb, tx_postings(plans.last())) {
                None => Err(CompileError::Ledger(LedgerError::Overflow)),
                Some(nb) => match apply_effect_spec(mf, plans.last().firm_effect) {
                    Err(e) => Err(CompileError::Firm(e)),
                    Ok(nf) => Ok((nb, nf)),
                },
            },
        }
    }
}

/// The postings of the plans that move money, in order.
pub open spec fn moving_postings(plans: Seq<ActionPlan>) -> Seq<Seq<Posting>>
    decreases plans.len(),
{
    if plans.len() == 0 {
        Seq::empty()
    } else {
        match tx_postings(plans.last()) {
            Some(ps) => moving_postings(plans.drop_last()).push(ps),
            None => moving_postings(plans.drop_last()),
        }
    }
}

proof fn lemma_moving_prefix(plans: Seq<ActionPlan>, i: int)
    requires
        0 <= i < plans.len(),
    ensures
        moving_postings(plans.subrange(0, i + 1)) == match tx_postings(plans[i]) {
            Some(ps) => moving_postings(plans.subrange(0, i)).push(ps),
            None => moving_postings(plans.subrange(0, i)),
        },
{
    assert(plans.subrange(0, i + 1).drop_last() =~= plans.subrange(0, i));
}

proof fn lemma_stage_prefix(b: Seq<i64>, f: FirmView, plans: Seq<ActionPlan>, i: int)
    requires
        0 <= i < plans.len(),
    ensures
        stage_plans(b, f, plans.subrange(0, i + 1)) == match stage_plans(b, f, plans.subrange(0, i)) {
            Err(e) => Err(e),
            Ok((mb, mf)) => match balances_after(mb, tx_postings(plans[i])) {
                None => Err(CompileError::Ledger(LedgerError::Overflow)),
                Some(nb) => match apply_effect_spec(mf, plans[i].firm_effect) {
                    Err(e) => Err(CompileError::Firm(e)),
                    Ok(nf) => Ok((nb, nf)),
                },
            },
        },
{
    assert(plans.subrange(0, i + 1).drop_last() =~= plans.subrange(0, i));
}

proof fn lemma_stage_err_sticks(b: Seq<i64>, f: FirmView, plans: Seq<ActionPlan>, i: int)
    requires
        0 <= i <= plans.len(),
        stage_plans(b, f, plans.subrange(0, i)) is Err,
    ensures
        stage_plans(b, f, plans) == stage_plans(b, f, plans.subrange(0, i)),
    decreases plans.len() - i,
{
    if i < plans.len() {
        lemma_stage_prefix(b, f, plans, i);
        lemma_stage_err_sticks(b, f, plans, i + 1);
    } else {
        assert(plans.subrange(0, i) =~= plans);
    }
}

proof fn lemma_moving_len(plans: Seq<ActionPlan>)
    ensures
        moving_postings(plans).len() <= plans.len(),
    decreases plans.len(),
{
    if plans.len() > 0 {
        lemma_moving_len(plans.drop_last());
    }
}

/// What `apply_plans` does with these plans: refused with the books
/// untouched, or every plan staged and committed with one journal entry per
/// money-moving plan.
pub open spec fn plans_outcome(
    old_books: SimBooks,
    new_books: SimBooks,
    plans: Seq<ActionPlan>,
    r: Result<usize, CompileError>,
) -> bool {
    let needed = moving_postings(plans).len();
    let room = JOURNAL_TAIL_CAPACITY - old_books.journal.entries().len();
    let staged = stage_plans(old_books.balances@, old_books.firm@, plans);
    if room < needed {
        r == Err::<usize, CompileError>(CompileError::Ledger(LedgerError::JournalTailFull))
            && books_unchanged(old_books, new_books)
    } else if old_books.journal.spec_next_seq() + needed > u64::MAX {
        r == Err::<usize, CompileError>(CompileError::Ledger(LedgerError::Overflow))
            && books_unchanged(old_books, new_books)
    } else if staged is Err {
        r == Err::<usize, CompileError>(staged->Err_0) && books_unchanged(
            old_books,
            new_books,
        )
    } else if crate::ledger::seq_sum(staged->Ok_0.0) != 0 {
        r is Err && books_unchanged(old_books, new_books)
    } else {
        &&& r == Ok::<usize, CompileError>(needed as usize)
        &&& new_books.balances@ == staged->Ok_0.0
        &&& new_books.firm@ == staged->Ok_0.1
        &&& new_books.journal.spec_next_seq() == old_books.journal.spec_next_seq()
            + needed
        &&& new_books.journal.entries().len() == old_books.journal.entries().len()
            + needed
        &&& new_books.journal.entries().subrange(
            0,
            old_books.journal.entries().len() as int,
        ) == old_books.journal.entries()
        &&& forall|k: int|
            0 <= k < needed ==> {
                let e = #[trigger] new_books.journal.entries()[old_books.journal.entries().len() + k];
                &&& e.seq == old_books.journal.spec_next_seq() + k
                &&& e.tx.spec_postings() == moving_postings(plans)[k]
            }
    }
}

/// A plan as the ledger and the firm see it: its postings, if it moves
/// money, and its firm effect.
pub type Shape = (Option<Seq<Posting>>, FirmEffect);

pub open spec fn plan_shape(p: ActionPlan) -> Shape {
    (tx_postings(p), p.firm_effect)
}

pub open spec fn shapes_of(plans: Seq<ActionPlan>) -> Seq<Shape> {
    plans.map_values(|p: ActionPlan| plan_shape(p))
}

/// `stage_plans`, over shapes.
pub open spec fn stage_shapes(b: Seq<i64>, f: FirmView, shapes: Seq<Shape>) -> Result<
    (Seq<i64>, FirmView),
    CompileError,
>
    decreases shapes.len(),
{
    if shapes.len() == 0 {
        Ok((b, f))
    } else {
        match stage_shapes(b, f, shapes.drop_last()) {
            Err(e) => Err(e),
            Ok((mb, mf)) => match balances_after(mb, shapes.last().0) {
                None => Err(CompileError::Ledger(LedgerError::Overflow)),
                Some(nb) => match apply_effect_spec(mf, shapes.last().1) {
                    Err(e) => Err(CompileError::Firm(e)),
                    Ok(nf) => Ok((nb, nf)),
                },
            },
        }
    }
}

/// `moving_postings`, over shapes.
pub open spec fn moving_shapes(shapes: Seq<Shape>) -> Seq<Seq<Posting>>
    decreases shapes.len(),
{
    if shapes.len() == 0 {
        Seq::empty()
    } else {
        match shapes.last().0 {
            Some(ps) => moving_shapes(shapes.drop_last()).push(ps),
            None => moving_shapes(shapes.drop_last()),
        }
    }
}

/// `plans_outcome`, over shapes.
pub open spec fn shapes_outcome(
    old_books: SimBooks,
    new_books: SimBooks,
    shapes: Seq<Shape>,
    r: Result<usize, CompileError>,
) -> bool {
    let needed = moving_shapes(shapes).len();
    let room = JOURNAL_TAIL_CAPACITY - old_books.journal.entries().len();
    let staged = stage_shapes(old_books.balances@, old_books.firm@, shapes);
    if room < needed {
        r == Err::<usize, CompileError>(CompileError::Ledger(LedgerError::JournalTailFull))
            && books_unchanged(old_books, new_books)
    } else if old_books.journal.spec_next_seq() + needed > u64::MAX {
        r == Err::<usize, CompileError>(CompileError::Ledger(LedgerError::Overflow))
            && books_unchanged(old_books, new_books)
    } else if staged is Err {
        r == Err::<usize, CompileError>(staged->Err_0) && books_unchanged(old_books, new_books)
    } else if crate::ledger::seq_sum(staged->Ok_0.0) != 0 {
        r is Err && books_unchanged(old_books, new_books)
    } else {
        &&& r == Ok::<usize, CompileError>(needed as usize)
        &&& new_books.balances@ == staged->Ok_0.0
        &&& new_books.firm@ == staged->Ok_0.1
        &&& new_books.journal.spec_next_seq() == old_books.journal.spec_next_seq() + needed
        &&& new_books.journal.entries().len() == old_books.journal.entries().len() + needed
        &&& new_books.journal.entries().subrange(0, old_books.journal.entries().len() as int)
            == old_books.journal.entries()
        &&& forall|k: int|
            0 <= k < needed ==> {
                let e = #[trigger] new_books.journal.entries()[old_books.journal.entries().len()
                    + k];
                &&& e.seq == old_books.journal.spec_next_seq() + k
                &&& e.tx.spec_postings() == moving_shapes(shapes)[k]
            }
    }
}

proof fn lemma_shapes_agree(b: Seq<i64>, f: FirmView, plans: Seq<ActionPlan>)
    ensures
        stage_plans(b, f, plans) == stage_shapes(b, f, shapes_of(plans)),
        moving_postings(plans) == moving_shapes(shapes_of(plans)),
    decreases plans.len(),
{
    if plans.len() > 0 {
        assert(shapes_of(plans).drop_last() =~= shapes_of(plans.drop_last()));
        lemma_shapes_agree(b, f, plans.drop_last());
    }
}

/// The net movement a run of shapes makes on account `a`: the sum of what
/// each shape's postings move it by.
pub open spec fn shapes_delta(shapes: Seq<Shape>, a: AccountCode) -> int
    decreases shapes.len(),
{
    if shapes.len() == 0 {
        0
    } else {
        shapes_delta(shapes.drop_last(), a) + match shapes.last().0 {
            Some(ps) => crate::ledger::account_delta(ps, a),
            None => 0,
        }
    }
}

proof fn lemma_staged_moves(b: Seq<i64>, f: FirmView, shapes: Seq<Shape>, a: AccountCode)
    requires
        b.len() == crate::ledger::N_ACCOUNTS,
        stage_shapes(b, f, shapes) is Ok,
    ensures
        stage_shapes(b, f, shapes)->Ok_0.0.len() == crate::ledger::N_ACCOUNTS,
        stage_shapes(b, f, shapes)->Ok_0.0[crate::ledger::account_index(a) as int] == b[crate::ledger::account_index(
            a,
        ) as int] + shapes_delta(shapes, a),
    decreases shapes.len(),
{
    if shapes.len() > 0 {
        lemma_staged_moves(b, f, shapes.drop_last(), a);
        let mb = stage_shapes(b, f, shapes.drop_last())->Ok_0.0;
        match shapes.last().0 {
            Some(ps) => {
                crate::ledger::law_apply_moves_each_account_by_its_postings(mb, ps, a);
                crate::ledger::lemma_apply_spec_sum(mb, ps);
            },
            None => {},
        }
    }
}

/// Committed shapes move every account by exactly the sum of their
/// postings' movements on it.
pub proof fn law_committed_shapes_move_each_account(
    before: SimBooks,
    after: SimBooks,
    shapes: Seq<Shape>,
    r: Result<usize, CompileError>,
)
    requires
        shapes_outcome(before, after, shapes, r),
        r is Ok,
    ensures
        forall|a: AccountCode| #[trigger] after.balances.bal(a) == before.balances.bal(a) + shapes_delta(shapes, a),
{
    before.balances.lemma_len();
    assert forall|a: AccountCode| #[trigger] after.balances.bal(a) == before.balances.bal(a) + shapes_delta(shapes, a) by {
        lemma_staged_moves(before.balances@, before.firm@, shapes, a);
    }
}

/// What `apply_plans` states of plans holds of their shapes.
pub proof fn lemma_plans_outcome_shapes(
    old_books: SimBooks,
    new_books: SimBooks,
    plans: Seq<ActionPlan>,
    r: Result<usize, CompileError>,
)
    requires
        plans_outcome(old_books, new_books, plans, r),
    ensures
        shapes_outcome(old_books, new_books, shapes_of(plans), r),
{
    lemma_shapes_agree(old_books.balances@, old_books.firm@, plans);
}

/// Apply several plans as one indivisible act. The journal room is
/// reserved before anything is written, after which the appends cannot fail
/// and the commit is unconditional.
pub fn apply_plans(plans: &[ActionPlan], books: &mut SimBooks) -> (r: Result<usize, CompileError>)
    requires
        old(books).wf(),
        forall|i: int| 0 <= i < plans@.len() ==> #[trigger] plan_wf(plans@[i]),
    ensures
        final(books).wf(),
        plans_outcome(*old(books), *final(books), plans@, r),
{
    let n = plans.len();
    let mut needed: usize = 0;
    let mut i: usize = 0;
    while i < n
        invariant
            n == plans@.len(),
            i <= n,
            needed == moving_postings(plans@.subrange(0, i as int)).len(),
            needed <= i,
        decreases n - i,
    {
        proof {
            lemma_moving_prefix(plans@, i as int);
        }
        if plans[i].moves_money() {
            needed = needed + 1;
        }
        i = i + 1;
    }
    assert(plans@.subrange(0, n as int) =~= plans@);
    proof {
        books.journal.lemma_wf();
    }
    if books.journal.remaining_capacity() < needed {
        return Err(CompileError::Ledger(LedgerError::JournalTailFull));
    }
    if books.journal.next_seq() > u64::MAX - needed as u64 {
        return Err(CompileError::Ledger(LedgerError::Overflow));
    }
    let mut staged_balances = books.balances;
    let mut staged_firm = books.firm;
    let ghost b0 = books.balances@;
    let ghost f0 = books.firm@;
    let mut i: usize = 0;
    assert(plans@.subrange(0, 0) =~= Seq::<ActionPlan>::empty());
    while i < n
        invariant
            n == plans@.len(),
            i <= n,
            forall|j: int| 0 <= j < plans@.len() ==> #[trigger] plan_wf(plans@[j]),
            stage_plans(b0, f0, plans@.subrange(0, i as int)) == Ok::<
                (Seq<i64>, FirmView),
                CompileError,
            >((staged_balances@, staged_firm@)),
            b0 == old(books).balances@,
            f0 == old(books).firm@,
            books_unchanged(*old(books), *books),
            books.wf(),
            needed == moving_postings(plans@).len(),
            JOURNAL_TAIL_CAPACITY - old(books).journal.entries().len() >= needed,
            old(books).journal.spec_next_seq() + needed <= u64::MAX,
        decreases n - i,
    {
        proof {
            lemma_stage_prefix(b0, f0, plans@, i as int);
        }
        match &plans[i].transaction {
            Some(tx) => {
                match staged_balances.apply(tx) {
                    Ok(()) => {},
                    Err(e) => {
                        proof {
                            lemma_stage_err_sticks(b0, f0, plans@, i as int + 1);
                        }
                        return Err(CompileError::Ledger(e));
                    },
                }
            },
            None => {},
        }
        match staged_firm.apply_effect(plans[i].firm_effect) {
            Ok(()) => {},
            Err(e) => {
                proof {
                    lemma_stage_err_sticks(b0, f0, plans@, i as int + 1);
                }
                return Err(CompileError::Firm(e));
            },
        }
        i = i + 1;
    }
    match staged_balances.verify_zero_sum() {
        Ok(()) => {},
        Err(e) => return Err(CompileError::Ledger(e)),
    }
    proof {
        crate::ledger::law_identity_iff_zero_sum(staged_balances);
    }
    match staged_balances.verify_accounting_identity() {
        Ok(()) => {},
        Err(e) => return Err(CompileError::Ledger(e)),
    }
    let ghost j0 = books.journal.entries();
    let ghost s0 = books.journal.spec_next_seq();
    let mut i: usize = 0;
    let mut appended: usize = 0;
    while i < n
        invariant
            n == plans@.len(),
            i <= n,
            forall|j: int| 0 <= j < plans@.len() ==> #[trigger] plan_wf(plans@[j]),
            books.journal.wf(),
            appended == moving_postings(plans@.subrange(0, i as int)).len(),
            appended <= needed,
            needed == moving_postings(plans@).len(),
            j0.len() + needed <= JOURNAL_TAIL_CAPACITY,
            s0 + needed <= u64::MAX,
            books.journal.spec_next_seq() == s0 + appended,
            books.journal.entries().len() == j0.len() + appended,
            books.journal.entries().subrange(0, j0.len() as int) == j0,
            forall|k: int|
                0 <= k < appended ==> {
                    let e = #[trigger] books.journal.entries()[j0.len() + k];
                    &&& e.seq == s0 + k
                    &&& e.tx.spec_postings() == moving_postings(plans@)[k]
                },
            forall|k: int|
                0 <= k < appended ==> #[trigger] moving_postings(plans@.subrange(0, i as int))[k]
                    == moving_postings(plans@)[k],
        decreases n - i,
    {
        proof {
            lemma_moving_prefix(plans@, i as int);
            lemma_moving_prefix_of_whole(plans@, i as int + 1);
        }
        match &plans[i].transaction {
            Some(tx) => {
                let ghost before = books.journal.entries();
                let t = tx.clone();
                match books.journal.append(t) {
                    Ok(_) => {},
                    Err(e) => return Err(CompileError::Ledger(e)),
                }
                assert(books.journal.entries().subrange(0, j0.len() as int) =~= j0);
                proof {
                    let after = books.journal.entries();
                    assert(after == before.push(after.last()));
                    assert forall|k: int| 0 <= k < appended implies #[trigger] after[j0.len() + k] == before[j0.len() + k] by {}
                    assert(moving_postings(plans@.subrange(0, i as int + 1))[appended as int] == tx.spec_postings());
                }
                appended = appended + 1;
            },
            None => {},
        }
        i = i + 1;
    }
    books.balances = staged_balances;
    books.firm = staged_firm;
    assert(plans@.subrange(0, n as int) =~= plans@);
    Ok(needed)
}

/// The moving postings of a prefix are a prefix of the whole.
proof fn lemma_moving_prefix_of_whole(plans: Seq<ActionPlan>, i: int)
    requires
        0 <= i <= plans.len(),
    ensures
        moving_postings(plans.subrange(0, i)).len() <= moving_postings(plans).len(),
        forall|k: int|
            0 <= k < moving_postings(plans.subrange(0, i)).len() ==> #[trigger] moving_postings(
                plans.subrange(0, i),
            )[k] == moving_postings(plans)[k],
    decreases plans.len() - i,
{
    if i == plans.len() {
        assert(plans.subrange(0, i) =~= plans);
    } else {
        lemma_moving_prefix(plans, i);
        lemma_moving_prefix_of_whole(plans, i + 1);
        let a = moving_postings(plans.subrange(0, i));
        let b = moving_postings(plans.subrange(0, i + 1));
        assert forall|k: int| 0 <= k < a.len() implies #[trigger] a[k] == moving_postings(plans)[k] by {
            assert(a[k] == b[k]);
        }
    }
}

/// Executing an intent never unbalances the books: a commit moves them only
/// onto balances that sum to zero.
pub proof fn lemma_intent_keeps_zero_sum(
    intent: ActionIntent,
    ctx: ActionContext,
    before: SimBooks,
    after: SimBooks,
    r: Result<Execution, CompileError>,
)
    requires
        intent_outcome(intent, ctx, before, after, r),
    ensures
        keeps_zero_sum(before, after),
{
}

/// Applying plans as one act never unbalances the books.
pub proof fn lemma_plans_keep_zero_sum(
    before: SimBooks,
    after: SimBooks,
    plans: Seq<ActionPlan>,
    r: Result<usize, CompileError>,
)
    requires
        plans_outcome(before, after, plans, r),
    ensures
        keeps_zero_sum(before, after),
{
}

/// Applying staged shapes as one act never unbalances the books.
pub proof fn lemma_shapes_keep_zero_sum(
    before: SimBooks,
    after: SimBooks,
    shapes: Seq<Shape>,
    r: Result<usize, CompileError>,
)
    requires
        shapes_outcome(before, after, shapes, r),
    ensures
        keeps_zero_sum(before, after),
{
}

} // verus!
