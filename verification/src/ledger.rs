//! Double-entry bookkeeping core.
//!
//! A Transaction is balanced by construction: an unbalanced value cannot
//! exist. Balances use the signed debit-positive convention so the
//! trial-balance identity is a single zero-sum. The identity holds by
//! induction over balanced applies (proved below), yet it is still
//! re-verified at settle and load boundaries. Corruption is a typed error,
//! never repaired.
use crate::money::{i64_fits, Money, MoneyError};
use crate::ring::{FixedRing, RingConfigError};
use vstd::prelude::*;

verus! {

#[derive(Debug, Clone, Copy, PartialEq, Eq, Structural)]
pub enum AccountClass {
    Asset,
    Liability,
    Equity,
    Revenue,
    Expense,
}

/// Chart of accounts. The declaration order is the frozen wire id: never
/// reorder, never reuse a retired position. Additions append only.
#[derive(Debug, Clone, Copy, PartialEq, Eq, Structural)]
pub enum AccountCode {
    Cash,
    AccountsReceivable,
    Inventory,
    PrepaidExpenses,
    PropertyPlantEquipment,
    /// Contra-asset (Asset class, credit-normal balance).
    AccumulatedDepreciation,
    AccountsPayable,
    AccruedLiabilities,
    SeniorDebt,
    MezzanineDebt,
    TaxPayable,
    ShareCapital,
    RetainedEarnings,
    SalesRevenue,
    OtherIncome,
    CostOfGoodsSold,
    OperatingExpense,
    DepreciationExpense,
    InterestExpense,
    TaxExpense,
}

pub const N_ACCOUNTS: usize = 20;

pub open spec fn account_index(a: AccountCode) -> nat {
    match a {
        AccountCode::Cash => 0,
        AccountCode::AccountsReceivable => 1,
        AccountCode::Inventory => 2,
        AccountCode::PrepaidExpenses => 3,
        AccountCode::PropertyPlantEquipment => 4,
        AccountCode::AccumulatedDepreciation => 5,
        AccountCode::AccountsPayable => 6,
        AccountCode::AccruedLiabilities => 7,
        AccountCode::SeniorDebt => 8,
        AccountCode::MezzanineDebt => 9,
        AccountCode::TaxPayable => 10,
        AccountCode::ShareCapital => 11,
        AccountCode::RetainedEarnings => 12,
        AccountCode::SalesRevenue => 13,
        AccountCode::OtherIncome => 14,
        AccountCode::CostOfGoodsSold => 15,
        AccountCode::OperatingExpense => 16,
        AccountCode::DepreciationExpense => 17,
        AccountCode::InterestExpense => 18,
        AccountCode::TaxExpense => 19,
    }
}

pub open spec fn account_at(i: int) -> AccountCode {
    if i == 0 {
        AccountCode::Cash
    } else if i == 1 {
        AccountCode::AccountsReceivable
    } else if i == 2 {
        AccountCode::Inventory
    } else if i == 3 {
        AccountCode::PrepaidExpenses
    } else if i == 4 {
        AccountCode::PropertyPlantEquipment
    } else if i == 5 {
        AccountCode::AccumulatedDepreciation
    } else if i == 6 {
        AccountCode::AccountsPayable
    } else if i == 7 {
        AccountCode::AccruedLiabilities
    } else if i == 8 {
        AccountCode::SeniorDebt
    } else if i == 9 {
        AccountCode::MezzanineDebt
    } else if i == 10 {
        AccountCode::TaxPayable
    } else if i == 11 {
        AccountCode::ShareCapital
    } else if i == 12 {
        AccountCode::RetainedEarnings
    } else if i == 13 {
        AccountCode::SalesRevenue
    } else if i == 14 {
        AccountCode::OtherIncome
    } else if i == 15 {
        AccountCode::CostOfGoodsSold
    } else if i == 16 {
        AccountCode::OperatingExpense
    } else if i == 17 {
        AccountCode::DepreciationExpense
    } else if i == 18 {
        AccountCode::InterestExpense
    } else {
        AccountCode::TaxExpense
    }
}

pub open spec fn account_class(a: AccountCode) -> AccountClass {
    match a {
        AccountCode::Cash | AccountCode::AccountsReceivable | AccountCode::Inventory
        | AccountCode::PrepaidExpenses | AccountCode::PropertyPlantEquipment
        | AccountCode::AccumulatedDepreciation => AccountClass::Asset,
        AccountCode::AccountsPayable | AccountCode::AccruedLiabilities | AccountCode::SeniorDebt
        | AccountCode::MezzanineDebt | AccountCode::TaxPayable => AccountClass::Liability,
        AccountCode::ShareCapital | AccountCode::RetainedEarnings => AccountClass::Equity,
        AccountCode::SalesRevenue | AccountCode::OtherIncome => AccountClass::Revenue,
        AccountCode::CostOfGoodsSold | AccountCode::OperatingExpense
        | AccountCode::DepreciationExpense | AccountCode::InterestExpense
        | AccountCode::TaxExpense => AccountClass::Expense,
    }
}

/// Every position of the chart holds exactly the account whose index it is.
pub proof fn lemma_account_index_roundtrip(a: AccountCode)
    ensures
        account_index(a) < N_ACCOUNTS,
        account_at(account_index(a) as int) == a,
{
}

/// Chart positions and accounts are in one-to-one correspondence.
pub proof fn lemma_index_of_at(i: int)
    requires
        0 <= i < N_ACCOUNTS,
    ensures
        account_index(account_at(i)) == i,
{
}

impl AccountCode {
    pub fn class(self) -> (c: AccountClass)
        ensures
            c == account_class(self),
    {
        match self {
            AccountCode::Cash | AccountCode::AccountsReceivable | AccountCode::Inventory
            | AccountCode::PrepaidExpenses | AccountCode::PropertyPlantEquipment
            | AccountCode::AccumulatedDepreciation => AccountClass::Asset,
            AccountCode::AccountsPayable | AccountCode::AccruedLiabilities
            | AccountCode::SeniorDebt | AccountCode::MezzanineDebt
            | AccountCode::TaxPayable => AccountClass::Liability,
            AccountCode::ShareCapital | AccountCode::RetainedEarnings => AccountClass::Equity,
            AccountCode::SalesRevenue | AccountCode::OtherIncome => AccountClass::Revenue,
            AccountCode::CostOfGoodsSold | AccountCode::OperatingExpense
            | AccountCode::DepreciationExpense | AccountCode::InterestExpense
            | AccountCode::TaxExpense => AccountClass::Expense,
        }
    }

    /// Position of this account in the chart (its frozen wire id).
    pub fn index(self) -> (i: usize)
        ensures
            i == account_index(self),
            i < N_ACCOUNTS,
    {
        match self {
            AccountCode::Cash => 0,
            AccountCode::AccountsReceivable => 1,
            AccountCode::Inventory => 2,
            AccountCode::PrepaidExpenses => 3,
            AccountCode::PropertyPlantEquipment => 4,
            AccountCode::AccumulatedDepreciation => 5,
            AccountCode::AccountsPayable => 6,
            AccountCode::AccruedLiabilities => 7,
            AccountCode::SeniorDebt => 8,
            AccountCode::MezzanineDebt => 9,
            AccountCode::TaxPayable => 10,
            AccountCode::ShareCapital => 11,
            AccountCode::RetainedEarnings => 12,
            AccountCode::SalesRevenue => 13,
            AccountCode::OtherIncome => 14,
            AccountCode::CostOfGoodsSold => 15,
            AccountCode::OperatingExpense => 16,
            AccountCode::DepreciationExpense => 17,
            AccountCode::InterestExpense => 18,
            AccountCode::TaxExpense => 19,
        }
    }

    /// The account at chart position `i`, if any.
    pub fn from_index(i: usize) -> (a: Option<AccountCode>)
        ensures
            i < N_ACCOUNTS ==> a == Some(account_at(i as int)),
            i >= N_ACCOUNTS ==> a is None,
    {
        match i {
            0 => Some(AccountCode::Cash),
            1 => Some(AccountCode::AccountsReceivable),
            2 => Some(AccountCode::Inventory),
            3 => Some(AccountCode::PrepaidExpenses),
            4 => Some(AccountCode::PropertyPlantEquipment),
            5 => Some(AccountCode::AccumulatedDepreciation),
            6 => Some(AccountCode::AccountsPayable),
            7 => Some(AccountCode::AccruedLiabilities),
            8 => Some(AccountCode::SeniorDebt),
            9 => Some(AccountCode::MezzanineDebt),
            10 => Some(AccountCode::TaxPayable),
            11 => Some(AccountCode::ShareCapital),
            12 => Some(AccountCode::RetainedEarnings),
            13 => Some(AccountCode::SalesRevenue),
            14 => Some(AccountCode::OtherIncome),
            15 => Some(AccountCode::CostOfGoodsSold),
            16 => Some(AccountCode::OperatingExpense),
            17 => Some(AccountCode::DepreciationExpense),
            18 => Some(AccountCode::InterestExpense),
            19 => Some(AccountCode::TaxExpense),
            _ => None,
        }
    }

    /// Every account, in frozen chart order.
    pub fn all() -> (v: Vec<AccountCode>)
        ensures
            v@.len() == N_ACCOUNTS,
            forall|i: int| 0 <= i < N_ACCOUNTS ==> #[trigger] v@[i] == account_at(i),
    {
        let mut v: Vec<AccountCode> = Vec::new();
        let mut i: usize = 0;
        while i < N_ACCOUNTS
            invariant
                i <= N_ACCOUNTS,
                v@.len() == i,
                forall|j: int| 0 <= j < i ==> #[trigger] v@[j] == account_at(j),
            decreases N_ACCOUNTS - i,
        {
            match AccountCode::from_index(i) {
                Some(a) => v.push(a),
                None => {},
            }
            i = i + 1;
        }
        v
    }
}

#[derive(Debug, Clone, Copy, PartialEq, Eq, Structural)]
pub enum Side {
    Debit,
    Credit,
}

#[derive(Debug, Clone, Copy, PartialEq, Eq, Structural)]
pub struct Posting {
    pub account: AccountCode,
    pub side: Side,
    pub amount: Money,
}

/// Closed business-event catalog. UI and LLM never see this type: they
/// submit `ActionIntent` only.
#[derive(Debug, Clone, Copy, PartialEq, Eq, Structural)]
pub enum TxKind {
    OpeningEquity,
    PurchaseInventory,
    RecognizeSale,
    PayOpex,
    RecordDepreciation,
    DrawDebt,
    ServiceDebt,
    AccrueInterest,
    PayTax,
    CapexPurchase,
    HedgeSettlement,
}

pub const MAX_POSTINGS_PER_TX: usize = 16;

#[derive(Debug, Clone, Copy, PartialEq, Eq, Structural)]
pub enum LedgerError {
    EmptyTransaction,
    SinglePosting,
    TooManyPostings { got: usize },
    NonPositiveAmount,
    Unbalanced { debit_minor: i128, credit_minor: i128 },
    Overflow,
    JournalTailFull,
    Money(MoneyError),
    RingConfig(RingConfigError),
}

/// Signed effect of one posting on its account (debit-positive).
pub open spec fn posting_delta(p: Posting) -> int {
    match p.side {
        Side::Debit => p.amount.0 as int,
        Side::Credit => -(p.amount.0 as int),
    }
}

/// Total debited by a list of postings.
pub open spec fn debit_total(ps: Seq<Posting>) -> int
    decreases ps.len(),
{
    if ps.len() == 0 {
        0
    } else {
        debit_total(ps.drop_last()) + (if ps.last().side == Side::Debit {
            ps.last().amount.0 as int
        } else {
            0
        })
    }
}

/// Total credited by a list of postings.
pub open spec fn credit_total(ps: Seq<Posting>) -> int
    decreases ps.len(),
{
    if ps.len() == 0 {
        0
    } else {
        credit_total(ps.drop_last()) + (if ps.last().side == Side::Credit {
            ps.last().amount.0 as int
        } else {
            0
        })
    }
}

/// Net signed effect of a list of postings.
pub open spec fn delta_total(ps: Seq<Posting>) -> int
    decreases ps.len(),
{
    if ps.len() == 0 {
        0
    } else {
        delta_total(ps.drop_last()) + posting_delta(ps.last())
    }
}

pub open spec fn all_positive(ps: Seq<Posting>) -> bool {
    forall|i: int| 0 <= i < ps.len() ==> (#[trigger] ps[i]).amount.0 > 0
}

/// The shape `Transaction::new` accepts.
pub open spec fn balanced_postings(ps: Seq<Posting>) -> bool {
    &&& 2 <= ps.len() <= MAX_POSTINGS_PER_TX
    &&& all_positive(ps)
    &&& debit_total(ps) == credit_total(ps)
}

/// What `Transaction::new` answers for a list of postings.
pub open spec fn transaction_check(ps: Seq<Posting>) -> Option<LedgerError> {
    if ps.len() == 0 {
        Some(LedgerError::EmptyTransaction)
    } else if ps.len() == 1 {
        Some(LedgerError::SinglePosting)
    } else if ps.len() > MAX_POSTINGS_PER_TX {
        Some(LedgerError::TooManyPostings { got: ps.len() as usize })
    } else if !all_positive(ps) {
        Some(LedgerError::NonPositiveAmount)
    } else if debit_total(ps) != credit_total(ps) {
        Some(
            LedgerError::Unbalanced {
                debit_minor: debit_total(ps) as i128,
                credit_minor: credit_total(ps) as i128,
            },
        )
    } else {
        None
    }
}

pub proof fn lemma_delta_is_debit_minus_credit(ps: Seq<Posting>)
    ensures
        delta_total(ps) == debit_total(ps) - credit_total(ps),
    decreases ps.len(),
{
    if ps.len() > 0 {
        lemma_delta_is_debit_minus_credit(ps.drop_last());
    }
}

proof fn lemma_totals_bounded(ps: Seq<Posting>)
    requires
        all_positive(ps),
    ensures
        0 <= debit_total(ps) <= ps.len() * 0x7fff_ffff_ffff_ffff,
        0 <= credit_total(ps) <= ps.len() * 0x7fff_ffff_ffff_ffff,
    decreases ps.len(),
{
    if ps.len() > 0 {
        assert(all_positive(ps.drop_last()));
        assert(ps.last() == ps[ps.len() - 1]);
        lemma_totals_bounded(ps.drop_last());
    }
}

/// Balanced-by-construction transaction. Postings are private: the only way
/// to obtain a `Transaction` is `new()`, which refuses empty, single-legged,
/// non-positive, oversized or unbalanced input outright.
#[derive(Debug, PartialEq, Eq)]
pub struct Transaction {
    kind: TxKind,
    postings: Vec<Posting>,
}

impl Transaction {
    pub closed spec fn spec_kind(&self) -> TxKind {
        self.kind
    }

    pub closed spec fn spec_postings(&self) -> Seq<Posting> {
        self.postings@
    }

    /// Every transaction in existence is balanced.
    pub closed spec fn wf(&self) -> bool {
        balanced_postings(self.postings@)
    }

    pub proof fn lemma_wf(&self)
        requires
            self.wf(),
        ensures
            balanced_postings(self.spec_postings()),
            delta_total(self.spec_postings()) == 0,
    {
        lemma_delta_is_debit_minus_credit(self.postings@);
    }

    pub fn new(kind: TxKind, postings: Vec<Posting>) -> (r: Result<Self, LedgerError>)
        ensures
            transaction_check(postings@) is None ==> (r matches Ok(tx) && tx.wf()
                && tx.spec_kind() == kind && tx.spec_postings() == postings@),
            transaction_check(postings@) matches Some(e) ==> r == Err::<Self, LedgerError>(e),
    {
        let n = postings.len();
        if n == 0 {
            return Err(LedgerError::EmptyTransaction);
        }
        if n == 1 {
            return Err(LedgerError::SinglePosting);
        }
        if n > MAX_POSTINGS_PER_TX {
            return Err(LedgerError::TooManyPostings { got: n });
        }
        let mut debit: i128 = 0;
        let mut credit: i128 = 0;
        let mut i: usize = 0;
        while i < n
            invariant
                n == postings@.len(),
                2 <= n <= MAX_POSTINGS_PER_TX,
                i <= n,
                forall|j: int| 0 <= j < i ==> (#[trigger] postings@[j]).amount.0 > 0,
                debit == debit_total(postings@.subrange(0, i as int)),
                credit == credit_total(postings@.subrange(0, i as int)),
            decreases n - i,
        {
            let p = postings[i];
            proof {
                let pre = postings@.subrange(0, i as int);
                let post = postings@.subrange(0, i as int + 1);
                assert(post.drop_last() =~= pre);
                assert(all_positive(pre));
                lemma_totals_bounded(pre);
                assert(i * 0x7fff_ffff_ffff_ffff <= 16 * 0x7fff_ffff_ffff_ffff) by (nonlinear_arith)
                    requires i <= 16;
            }
            if p.amount.minor() <= 0 {
                return Err(LedgerError::NonPositiveAmount);
            }
            match p.side {
                Side::Debit => debit = debit + p.amount.minor() as i128,
                Side::Credit => credit = credit + p.amount.minor() as i128,
            }
            i = i + 1;
        }
        assert(postings@.subrange(0, n as int) =~= postings@);
        if debit != credit {
            return Err(LedgerError::Unbalanced { debit_minor: debit, credit_minor: credit });
        }
        Ok(Transaction { kind, postings })
    }

    pub fn kind(&self) -> (k: TxKind)
        ensures
            k == self.spec_kind(),
    {
        self.kind
    }

    pub fn postings(&self) -> (ps: &[Posting])
        ensures
            ps@ == self.spec_postings(),
    {
        self.postings.as_slice()
    }
}

impl Clone for Transaction {
    fn clone(&self) -> (r: Self)
        ensures
            r.spec_kind() == self.spec_kind(),
            r.spec_postings() == self.spec_postings(),
            r.wf() == self.wf(),
    {
        let mut postings: Vec<Posting> = Vec::new();
        let n = self.postings.len();
        let mut i: usize = 0;
        while i < n
            invariant
                n == self.postings@.len(),
                i <= n,
                postings@ == self.postings@.subrange(0, i as int),
            decreases n - i,
        {
            postings.push(self.postings[i]);
            assert(postings@ =~= self.postings@.subrange(0, i as int + 1));
            i = i + 1;
        }
        assert(postings@ =~= self.postings@);
        Transaction { kind: self.kind, postings }
    }
}

/// Natural-sign statement totals (all non-negative for a healthy book).
#[derive(Debug, Clone, Copy, PartialEq, Eq, Structural)]
pub struct ClassTotals {
    pub asset: i128,
    pub liability: i128,
    pub equity: i128,
    pub revenue: i128,
    pub expense: i128,
}

/// Sum of a sequence of balances.
pub open spec fn seq_sum(s: Seq<i64>) -> int
    decreases s.len(),
{
    if s.len() == 0 {
        0
    } else {
        seq_sum(s.drop_last()) + s.last()
    }
}

/// Signed sum of the balances of class `c` among the first `n` accounts.
pub open spec fn class_sum(s: Seq<i64>, c: AccountClass, n: int) -> int
    decreases n,
{
    if n <= 0 {
        0
    } else {
        class_sum(s, c, n - 1) + (if account_class(account_at(n - 1)) == c {
            s[n - 1] as int
        } else {
            0
        })
    }
}

/// Natural-sign totals: A = sum asset, L = -sum liability, E = -sum equity,
/// R = -sum revenue, X = sum expense.
pub open spec fn class_totals_spec(s: Seq<i64>) -> ClassTotals {
    ClassTotals {
        asset: class_sum(s, AccountClass::Asset, 20) as i128,
        liability: (-class_sum(s, AccountClass::Liability, 20)) as i128,
        equity: (-class_sum(s, AccountClass::Equity, 20)) as i128,
        revenue: (-class_sum(s, AccountClass::Revenue, 20)) as i128,
        expense: class_sum(s, AccountClass::Expense, 20) as i128,
    }
}

/// Applying postings one by one with the overflow check `apply` makes;
/// `None` when some intermediate balance leaves i64.
pub open spec fn apply_spec(s: Seq<i64>, ps: Seq<Posting>) -> Option<Seq<i64>>
    decreases ps.len(),
{
    if ps.len() == 0 {
        Some(s)
    } else {
        match apply_spec(s, ps.drop_last()) {
            None => None,
            Some(m) => {
                let p = ps.last();
                let i = account_index(p.account) as int;
                let next = m[i] + posting_delta(p);
                if i64_fits(next) && (p.side == Side::Credit ==> p.amount.0 != i64::MIN) {
                    Some(m.update(i, next as i64))
                } else {
                    None
                }
            },
        }
    }
}

pub proof fn lemma_seq_sum_update(s: Seq<i64>, i: int, v: i64)
    requires
        0 <= i < s.len(),
    ensures
        seq_sum(s.update(i, v)) == seq_sum(s) - s[i] + v,
    decreases s.len(),
{
    if i == s.len() - 1 {
        assert(s.update(i, v).drop_last() =~= s.drop_last());
    } else {
        assert(s.update(i, v).drop_last() =~= s.drop_last().update(i, v));
        lemma_seq_sum_update(s.drop_last(), i, v);
    }
}

pub proof fn lemma_apply_spec_sum(s: Seq<i64>, ps: Seq<Posting>)
    requires
        s.len() == N_ACCOUNTS,
        apply_spec(s, ps) is Some,
    ensures
        apply_spec(s, ps).unwrap().len() == N_ACCOUNTS,
        seq_sum(apply_spec(s, ps).unwrap()) == seq_sum(s) + delta_total(ps),
    decreases ps.len(),
{
    if ps.len() > 0 {
        lemma_apply_spec_sum(s, ps.drop_last());
        let m = apply_spec(s, ps.drop_last()).unwrap();
        let p = ps.last();
        let i = account_index(p.account) as int;
        lemma_seq_sum_update(m, i, (m[i] + posting_delta(p)) as i64);
    }
}

/// The net movement `ps` makes on account `a`: its debits less its credits.
pub open spec fn account_delta(ps: Seq<Posting>, a: AccountCode) -> int
    decreases ps.len(),
{
    if ps.len() == 0 {
        0
    } else {
        account_delta(ps.drop_last(), a) + if ps.last().account == a {
            posting_delta(ps.last())
        } else {
            0
        }
    }
}

/// Applying postings moves every account by exactly its net posting delta,
/// debits in and credits out, and leaves the trial balance's sum shifted by
/// the postings' total; an overflow refuses the whole transaction, so an
/// applied one has moved every account this way.
pub proof fn law_apply_moves_each_account_by_its_postings(s: Seq<i64>, ps: Seq<Posting>, a: AccountCode)
    requires
        s.len() == N_ACCOUNTS,
        apply_spec(s, ps) is Some,
    ensures
        apply_spec(s, ps).unwrap()[account_index(a) as int] == s[account_index(a) as int] + account_delta(ps, a),
        seq_sum(apply_spec(s, ps).unwrap()) == seq_sum(s) + delta_total(ps),
    decreases ps.len(),
{
    lemma_apply_spec_sum(s, ps);
    if ps.len() > 0 {
        law_apply_moves_each_account_by_its_postings(s, ps.drop_last(), a);
        let m = apply_spec(s, ps.drop_last()).unwrap();
        let p = ps.last();
        lemma_apply_spec_sum(s, ps.drop_last());
        if p.account != a {
            assert(account_index(p.account) != account_index(a));
        }
    }
}

pub proof fn lemma_class_sum_update(s: Seq<i64>, c: AccountClass, n: int, i: int, v: i64)
    requires
        0 <= i < s.len(),
        n <= s.len(),
    ensures
        class_sum(s.update(i, v), c, n) == class_sum(s, c, n) + (if i < n && account_class(
            account_at(i),
        ) == c {
            v - s[i]
        } else {
            0
        }),
    decreases n,
{
    if n > 0 {
        lemma_class_sum_update(s, c, n - 1, i, v);
    }
}

/// The five class sums together are the whole trial balance.
pub proof fn lemma_class_sums_partition(s: Seq<i64>, n: int)
    requires
        0 <= n <= s.len(),
    ensures
        class_sum(s, AccountClass::Asset, n) + class_sum(s, AccountClass::Liability, n)
            + class_sum(s, AccountClass::Equity, n) + class_sum(s, AccountClass::Revenue, n)
            + class_sum(s, AccountClass::Expense, n) == seq_sum(s.subrange(0, n)),
    decreases n,
{
    if n > 0 {
        lemma_class_sums_partition(s, n - 1);
        assert(s.subrange(0, n).drop_last() =~= s.subrange(0, n - 1));
    }
}

pub proof fn lemma_class_sum_bounds(s: Seq<i64>, c: AccountClass, n: int)
    requires
        0 <= n <= s.len(),
    ensures
        n * i64::MIN <= class_sum(s, c, n) <= n * i64::MAX,
    decreases n,
{
    if n > 0 {
        lemma_class_sum_bounds(s, c, n - 1);
    }
}

/// Signed balances, debit-positive convention.
#[derive(Debug, Clone, Copy, PartialEq, Eq)]
pub struct Balances {
    minor: [i64; N_ACCOUNTS],
}

impl View for Balances {
    type V = Seq<i64>;

    closed spec fn view(&self) -> Seq<i64> {
        self.minor@
    }
}

impl Balances {
    /// The signed balance of one account.
    pub open spec fn bal(&self, a: AccountCode) -> int {
        self@[account_index(a) as int] as int
    }

    /// The trial balance: the sum of every signed balance.
    pub open spec fn total(&self) -> int {
        seq_sum(self@)
    }

    pub proof fn lemma_len(&self)
        ensures
            self@.len() == N_ACCOUNTS,
    {
    }

    pub fn new() -> (b: Self)
        ensures
            b@ == Seq::new(N_ACCOUNTS as nat, |i: int| 0i64),
            b@.len() == N_ACCOUNTS,
    {
        let b = Balances { minor: [0i64; N_ACCOUNTS] };
        assert(b@ =~= Seq::new(N_ACCOUNTS as nat, |i: int| 0i64));
        b
    }

    pub fn balance_minor(&self, account: AccountCode) -> (v: i64)
        ensures
            v == self.bal(account),
    {
        self.minor[account.index()]
    }

    /// Mutate a single account outside double-entry. Exists so that tests of
    /// the corruption detectors can plant corruption.
    pub fn test_add_unchecked(&mut self, account: AccountCode, delta: i64)
        ensures
            final(self)@ == old(self)@.update(
                account_index(account) as int,
                old(self)@[account_index(account) as int].wrapping_add(delta),
            ),
    {
        let idx = account.index();
        let cur = self.minor[idx];
        self.minor[idx] = cur.wrapping_add(delta);
    }

    /// Atomic apply: stage every delta with overflow checks, then commit the
    /// whole staged array. On any error, `self` is untouched.
    pub fn apply(&mut self, tx: &Transaction) -> (r: Result<(), LedgerError>)
        ensures
            apply_spec(old(self)@, tx.spec_postings()) matches Some(m) ==> (r is Ok && final(self)@ == m),
            apply_spec(old(self)@, tx.spec_postings()) is None ==> (r == Err::<(), LedgerError>(
                LedgerError::Overflow,
            ) && final(self)@ == old(self)@),
    {
        let mut staged = self.minor;
        let ps = tx.postings();
        let n = ps.len();
        let mut i: usize = 0;
        while i < n
            invariant
                n == ps@.len(),
                ps@ == tx.spec_postings(),
                i <= n,
                apply_spec(self@, ps@.subrange(0, i as int)) == Some(staged@),
            decreases n - i,
        {
            let p = ps[i];
            let idx = p.account.index();
            proof {
                assert(ps@.subrange(0, i as int + 1).drop_last() =~= ps@.subrange(0, i as int));
            }
            let cur = staged[idx];
            let delta = match p.side {
                Side::Debit => p.amount.minor(),
                Side::Credit => match negate_i64(p.amount.minor()) {
                    Some(d) => d,
                    None => {
                        proof {
                            lemma_apply_none_extends(self@, ps@, i as int + 1);
                        }
                        return Err(LedgerError::Overflow);
                    },
                },
            };
            let next = match cur.checked_add(delta) {
                Some(v) => v,
                None => {
                    proof {
                        lemma_apply_none_extends(self@, ps@, i as int + 1);
                    }
                    return Err(LedgerError::Overflow);
                },
            };
            staged[idx] = next;
            i = i + 1;
        }
        assert(ps@.subrange(0, n as int) =~= ps@);
        self.minor = staged;
        Ok(())
    }

    /// Trial-balance identity: the sum of signed balances is zero.
    pub fn verify_zero_sum(&self) -> (r: Result<(), LedgerError>)
        ensures
            self.total() == 0 ==> r is Ok,
            self.total() != 0 ==> r == Err::<(), LedgerError>(
                LedgerError::Unbalanced {
                    debit_minor: (if self.total() > 0 {
                        self.total()
                    } else {
                        0
                    }) as i128,
                    credit_minor: (if self.total() < 0 {
                        -self.total()
                    } else {
                        0
                    }) as i128,
                },
            ),
    {
        let mut sum: i128 = 0;
        let mut i: usize = 0;
        while i < N_ACCOUNTS
            invariant
                i <= N_ACCOUNTS,
                self@.len() == N_ACCOUNTS,
                sum == seq_sum(self@.subrange(0, i as int)),
                i * i64::MIN <= sum <= i * i64::MAX,
            decreases N_ACCOUNTS - i,
        {
            proof {
                assert(self@.subrange(0, i as int + 1).drop_last() =~= self@.subrange(0, i as int));
            }
            sum = sum + self.minor[i] as i128;
            i = i + 1;
        }
        assert(self@.subrange(0, N_ACCOUNTS as int) =~= self@);
        if sum == 0 {
            Ok(())
        } else {
            let debit = if sum > 0 {
                sum
            } else {
                0
            };
            let credit = if sum < 0 {
                -sum
            } else {
                0
            };
            Err(LedgerError::Unbalanced { debit_minor: debit, credit_minor: credit })
        }
    }

    /// Natural-sign totals per statement class.
    pub fn class_totals(&self) -> (t: ClassTotals)
        ensures
            t == class_totals_spec(self@),
    {
        let mut asset: i128 = 0;
        let mut liability: i128 = 0;
        let mut equity: i128 = 0;
        let mut revenue: i128 = 0;
        let mut expense: i128 = 0;
        let mut i: usize = 0;
        while i < N_ACCOUNTS
            invariant
                i <= N_ACCOUNTS,
                self@.len() == N_ACCOUNTS,
                asset == class_sum(self@, AccountClass::Asset, i as int),
                liability == -class_sum(self@, AccountClass::Liability, i as int),
                equity == -class_sum(self@, AccountClass::Equity, i as int),
                revenue == -class_sum(self@, AccountClass::Revenue, i as int),
                expense == class_sum(self@, AccountClass::Expense, i as int),
            decreases N_ACCOUNTS - i,
        {
            proof {
                lemma_class_sum_bounds(self@, AccountClass::Asset, i as int);
                lemma_class_sum_bounds(self@, AccountClass::Liability, i as int);
                lemma_class_sum_bounds(self@, AccountClass::Equity, i as int);
                lemma_class_sum_bounds(self@, AccountClass::Revenue, i as int);
                lemma_class_sum_bounds(self@, AccountClass::Expense, i as int);
            }
            let account = match AccountCode::from_index(i) {
                Some(a) => a,
                None => AccountCode::Cash,
            };
            let signed = self.minor[i] as i128;
            match account.class() {
                AccountClass::Asset => asset = asset + signed,
                AccountClass::Liability => liability = liability - signed,
                AccountClass::Equity => equity = equity - signed,
                AccountClass::Revenue => revenue = revenue - signed,
                AccountClass::Expense => expense = expense + signed,
            }
            i = i + 1;
        }
        ClassTotals { asset, liability, equity, revenue, expense }
    }

    /// Statement identity: A == L + E + (R - X).
    pub fn verify_accounting_identity(&self) -> (r: Result<(), LedgerError>)
        ensures
            ({
                let t = class_totals_spec(self@);
                let rhs = t.liability + t.equity + t.revenue - t.expense;
                &&& t.asset == rhs ==> r is Ok
                &&& t.asset != rhs ==> r == Err::<(), LedgerError>(
                    LedgerError::Unbalanced { debit_minor: t.asset, credit_minor: rhs as i128 },
                )
            }),
    {
        let t = self.class_totals();
        proof {
            lemma_class_sum_bounds(self@, AccountClass::Asset, 20);
            lemma_class_sum_bounds(self@, AccountClass::Liability, 20);
            lemma_class_sum_bounds(self@, AccountClass::Equity, 20);
            lemma_class_sum_bounds(self@, AccountClass::Revenue, 20);
            lemma_class_sum_bounds(self@, AccountClass::Expense, 20);
        }
        let rhs = t.liability + t.equity + t.revenue - t.expense;
        if t.asset == rhs {
            Ok(())
        } else {
            Err(LedgerError::Unbalanced { debit_minor: t.asset, credit_minor: rhs })
        }
    }
}

/// Checked negation: `None` exactly for `i64::MIN`.
pub fn negate_i64(v: i64) -> (r: Option<i64>)
    ensures
        v == i64::MIN ==> r is None,
        v != i64::MIN ==> r == Some((-v) as i64),
{
    if v == i64::MIN {
        None
    } else {
        Some(-v)
    }
}

proof fn lemma_apply_none_extends(s: Seq<i64>, ps: Seq<Posting>, k: int)
    requires
        0 < k <= ps.len(),
        apply_spec(s, ps.subrange(0, k)) is None,
    ensures
        apply_spec(s, ps) is None,
    decreases ps.len() - k,
{
    if k < ps.len() {
        assert(ps.subrange(0, k + 1).drop_last() =~= ps.subrange(0, k));
        lemma_apply_none_extends(s, ps, k + 1);
    } else {
        assert(ps.subrange(0, k) =~= ps);
    }
}

/// Applying a balanced transaction to a zero-sum book leaves it zero-sum:
/// the trial-balance identity holds by induction over applies.
pub proof fn law_apply_preserves_zero_sum(b: Balances, tx: Transaction)
    requires
        tx.wf(),
        b.total() == 0,
        apply_spec(b@, tx.spec_postings()) is Some,
    ensures
        seq_sum(apply_spec(b@, tx.spec_postings()).unwrap()) == 0,
{
    tx.lemma_wf();
    lemma_apply_spec_sum(b@, tx.spec_postings());
}

/// The statement identity A == L + E + (R - X) and the zero-sum trial
/// balance are the same fact: each holds exactly when the other does.
pub proof fn law_identity_iff_zero_sum(b: Balances)
    ensures
        ({
            let t = class_totals_spec(b@);
            t.asset == t.liability + t.equity + t.revenue - t.expense
        }) <==> b.total() == 0,
{
    lemma_class_sums_partition(b@, 20);
    assert(b@.subrange(0, 20) =~= b@);
    lemma_class_sum_bounds(b@, AccountClass::Asset, 20);
    lemma_class_sum_bounds(b@, AccountClass::Liability, 20);
    lemma_class_sum_bounds(b@, AccountClass::Equity, 20);
    lemma_class_sum_bounds(b@, AccountClass::Revenue, 20);
    lemma_class_sum_bounds(b@, AccountClass::Expense, 20);
}

#[derive(Debug, Clone, PartialEq)]
pub struct JournalEntry {
    pub seq: u64,
    pub tx: Transaction,
}

pub const JOURNAL_TAIL_CAPACITY: usize = 1_024;

/// Bounded in-memory journal tail. It rejects appends when full: the settle
/// phase must drain it first. Records are never silently evicted.
#[derive(Debug, Clone)]
pub struct Journal {
    next_seq: u64,
    tail: FixedRing<JournalEntry>,
}

impl Journal {
    pub closed spec fn spec_next_seq(&self) -> u64 {
        self.next_seq
    }

    /// Entries currently held in the tail, oldest first.
    pub closed spec fn entries(&self) -> Seq<JournalEntry> {
        self.tail@
    }

    pub closed spec fn wf(&self) -> bool {
        &&& self.tail.wf()
        &&& self.tail.cap() == JOURNAL_TAIL_CAPACITY
    }

    pub proof fn lemma_wf(&self)
        requires
            self.wf(),
        ensures
            self.entries().len() <= JOURNAL_TAIL_CAPACITY,
    {
    }

    pub fn new() -> (r: Result<Self, LedgerError>)
        ensures
            r matches Ok(j) && j.wf() && j.spec_next_seq() == 0 && j.entries() == Seq::<
                JournalEntry,
            >::empty(),
    {
        match FixedRing::new(JOURNAL_TAIL_CAPACITY) {
            Ok(tail) => Ok(Journal { next_seq: 0, tail }),
            Err(e) => Err(LedgerError::RingConfig(e)),
        }
    }

    /// Append with monotonic sequencing; all-or-nothing (seq does not advance
    /// on rejection).
    pub fn append(&mut self, tx: Transaction) -> (r: Result<u64, LedgerError>)
        requires
            old(self).wf(),
        ensures
            final(self).wf(),
            old(self).spec_next_seq() == u64::MAX ==> (r == Err::<u64, LedgerError>(
                LedgerError::Overflow,
            ) && *final(self) == *old(self)),
            old(self).spec_next_seq() < u64::MAX && old(self).entries().len() >= JOURNAL_TAIL_CAPACITY ==> (r == Err::<u64, LedgerError>(
                LedgerError::JournalTailFull,
            ) && *final(self) == *old(self)),
            old(self).spec_next_seq() < u64::MAX && old(self).entries().len()
                < JOURNAL_TAIL_CAPACITY ==> (r == Ok::<u64, LedgerError>(old(self).spec_next_seq())
                && final(self).spec_next_seq() == old(self).spec_next_seq() + 1
                && final(self).entries() == old(self).entries().push(
                JournalEntry { seq: old(self).spec_next_seq(), tx },
            )),
    {
        let seq = self.next_seq;
        let next = match seq.checked_add(1) {
            Some(v) => v,
            None => return Err(LedgerError::Overflow),
        };
        if self.tail.is_full() {
            return Err(LedgerError::JournalTailFull);
        }
        match self.tail.try_push(JournalEntry { seq, tx }) {
            Ok(()) => {},
            Err(_) => return Err(LedgerError::JournalTailFull),
        }
        self.next_seq = next;
        Ok(seq)
    }

    /// Explicit settle-time drain.
    pub fn drain_settled(&mut self) -> (out: Vec<JournalEntry>)
        requires
            old(self).wf(),
        ensures
            final(self).wf(),
            out@ == old(self).entries(),
            final(self).entries() == Seq::<JournalEntry>::empty(),
            final(self).spec_next_seq() == old(self).spec_next_seq(),
    {
        self.tail.drain_all()
    }

    pub fn len(&self) -> (n: usize)
        ensures
            n == self.entries().len(),
    {
        self.tail.len()
    }

    pub fn is_empty(&self) -> (b: bool)
        ensures
            b == (self.entries().len() == 0),
    {
        self.tail.is_empty()
    }

    pub fn next_seq(&self) -> (s: u64)
        ensures
            s == self.spec_next_seq(),
    {
        self.next_seq
    }

    /// Slots still free in the tail.
    pub fn remaining_capacity(&self) -> (n: usize)
        requires
            self.wf(),
        ensures
            n == JOURNAL_TAIL_CAPACITY - self.entries().len(),
    {
        JOURNAL_TAIL_CAPACITY - self.tail.len()
    }
}

} // verus!
