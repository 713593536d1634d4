use blackbox_sim::fsm::{advance, FailureReason, FsmError, SessionEvent, SessionState, TurnPhase};
use blackbox_sim::ledger::{
    AccountCode, Balances, Journal, JournalEntry, LedgerError, Posting, Side, Transaction, TxKind,
    JOURNAL_TAIL_CAPACITY, N_ACCOUNTS,
};
use blackbox_sim::money::Money;

fn ok<T, E: std::fmt::Debug>(r: Result<T, E>) -> T {
    match r {
        Ok(v) => v,
        Err(e) => unreachable!("test setup failed: {e:?}"),
    }
}

fn posting(account: AccountCode, side: Side, minor: i64) -> Posting {
    Posting { account, side, amount: ok(Money::positive_minor(minor)) }
}

#[test]
fn unbalanced_rejected() {
    let r = Transaction::new(
        TxKind::RecognizeSale,
        vec![
            posting(AccountCode::Cash, Side::Debit, 1_000),
            posting(AccountCode::SalesRevenue, Side::Credit, 999),
        ],
    );
    assert!(matches!(r, Err(LedgerError::Unbalanced { debit_minor: 1_000, credit_minor: 999 })));
}

#[test]
fn degenerate_shapes_rejected() {
    assert!(matches!(Transaction::new(TxKind::PayOpex, vec![]), Err(LedgerError::EmptyTransaction)));
    assert!(matches!(
        Transaction::new(TxKind::PayOpex, vec![posting(AccountCode::Cash, Side::Debit, 5)]),
        Err(LedgerError::SinglePosting)
    ));
    let many: Vec<Posting> = (0..17).map(|_| posting(AccountCode::Cash, Side::Debit, 1)).collect();
    assert!(matches!(
        Transaction::new(TxKind::PayOpex, many),
        Err(LedgerError::TooManyPostings { got: 17 })
    ));
}

#[test]
fn balanced_apply_preserves_zero_sum_and_identity() {
    let mut b = Balances::new();
    let seed_equity = ok(Transaction::new(
        TxKind::OpeningEquity,
        vec![
            posting(AccountCode::Cash, Side::Debit, 1_000_000),
            posting(AccountCode::ShareCapital, Side::Credit, 1_000_000),
        ],
    ));
    let buy_inventory = ok(Transaction::new(
        TxKind::PurchaseInventory,
        vec![
            posting(AccountCode::Inventory, Side::Debit, 300_000),
            posting(AccountCode::Cash, Side::Credit, 250_000),
            posting(AccountCode::AccountsPayable, Side::Credit, 50_000),
        ],
    ));
    let sale = ok(Transaction::new(
        TxKind::RecognizeSale,
        vec![
            posting(AccountCode::Cash, Side::Debit, 480_000),
            posting(AccountCode::SalesRevenue, Side::Credit, 480_000),
            posting(AccountCode::CostOfGoodsSold, Side::Debit, 200_000),
            posting(AccountCode::Inventory, Side::Credit, 200_000),
        ],
    ));
    ok(b.apply(&seed_equity));
    ok(b.apply(&buy_inventory));
    ok(b.apply(&sale));
    ok(b.verify_zero_sum());
    ok(b.verify_accounting_identity());
    let t = b.class_totals();
    assert_eq!(t.asset, 1_330_000);
    assert_eq!(t.liability, 50_000);
    assert_eq!(t.equity, 1_000_000);
    assert_eq!(t.revenue, 480_000);
    assert_eq!(t.expense, 200_000);
    assert_eq!(b.balance_minor(AccountCode::Cash), 1_230_000);
}

#[test]
fn overflow_apply_is_atomic() {
    let mut b = Balances::new();
    let near_max = i64::MAX - 10;
    let seed = ok(Transaction::new(
        TxKind::OpeningEquity,
        vec![
            posting(AccountCode::Cash, Side::Debit, near_max),
            posting(AccountCode::ShareCapital, Side::Credit, near_max),
        ],
    ));
    ok(b.apply(&seed));
    let before = b.clone();
    let bump = ok(Transaction::new(
        TxKind::RecognizeSale,
        vec![
            posting(AccountCode::Cash, Side::Debit, 1_000),
            posting(AccountCode::SalesRevenue, Side::Credit, 1_000),
        ],
    ));
    assert!(matches!(b.apply(&bump), Err(LedgerError::Overflow)));
    assert_eq!(b, before, "failed apply must leave state untouched");
    ok(b.verify_zero_sum());
}

#[test]
fn journal_is_monotonic_and_rejects_when_full() {
    let mut j = ok(Journal::new());
    let tx = ok(Transaction::new(
        TxKind::PayOpex,
        vec![
            posting(AccountCode::OperatingExpense, Side::Debit, 10),
            posting(AccountCode::Cash, Side::Credit, 10),
        ],
    ));
    for expected_seq in 0..JOURNAL_TAIL_CAPACITY as u64 {
        let seq = ok(j.append(tx.clone()));
        assert_eq!(seq, expected_seq);
    }
    assert!(matches!(j.append(tx.clone()), Err(LedgerError::JournalTailFull)));
    assert_eq!(j.next_seq(), JOURNAL_TAIL_CAPACITY as u64);
    let drained = j.drain_settled();
    assert_eq!(drained.len(), JOURNAL_TAIL_CAPACITY);
    assert!(matches!(drained.first(), Some(JournalEntry { seq: 0, .. })));
    let seq = ok(j.append(tx));
    assert_eq!(seq, JOURNAL_TAIL_CAPACITY as u64);
    assert_eq!(j.remaining_capacity(), JOURNAL_TAIL_CAPACITY - 1);
}

#[test]
fn account_discriminants_frozen() {
    assert_eq!(AccountCode::Cash as u8, 0);
    assert_eq!(AccountCode::AccumulatedDepreciation as u8, 5);
    assert_eq!(AccountCode::SeniorDebt as u8, 8);
    assert_eq!(AccountCode::TaxExpense as u8, 19);
    assert_eq!(AccountCode::all().len(), N_ACCOUNTS);
    for (i, a) in AccountCode::all().into_iter().enumerate() {
        assert_eq!(a.index(), i);
        assert_eq!(AccountCode::from_index(i), Some(a));
    }
    assert_eq!(AccountCode::from_index(N_ACCOUNTS), None);
}

#[test]
fn an_unbalanced_trial_balance_is_reported_on_both_sides() {
    let mut b = Balances::new();
    b.test_add_unchecked(AccountCode::Cash, 7);
    assert_eq!(b.verify_zero_sum(), Err(LedgerError::Unbalanced { debit_minor: 7, credit_minor: 0 }));
    b.test_add_unchecked(AccountCode::Cash, -10);
    assert_eq!(b.verify_zero_sum(), Err(LedgerError::Unbalanced { debit_minor: 0, credit_minor: 3 }));
    assert!(b.verify_accounting_identity().is_err());
}

const PHASES: [TurnPhase; 5] =
    [TurnPhase::Observe, TurnPhase::Decide, TurnPhase::Execute, TurnPhase::Settle, TurnPhase::Report];

fn all_states() -> Vec<SessionState> {
    let mut v = vec![SessionState::Genesis, SessionState::Sealed];
    for phase in PHASES {
        v.push(SessionState::Active { phase });
    }
    v.push(SessionState::Dead { reason: FailureReason::AccountingBreach });
    v
}

fn all_events() -> Vec<SessionEvent> {
    vec![
        SessionEvent::StartConfirmed,
        SessionEvent::ObservationClosed,
        SessionEvent::DecisionSubmitted,
        SessionEvent::ExecutionApplied,
        SessionEvent::SettlementVerified,
        SessionEvent::ReportAcknowledged,
        SessionEvent::CampaignCompleted,
        SessionEvent::AbortRequested,
        SessionEvent::CorruptionDetected { reason: FailureReason::ReplayDivergence },
    ]
}

fn expected(state: SessionState, event: SessionEvent) -> Option<SessionState> {
    type E = SessionEvent;
    type S = SessionState;
    type P = TurnPhase;
    match (state, event) {
        (S::Genesis, E::StartConfirmed) => Some(S::Active { phase: P::Observe }),
        (S::Genesis, E::AbortRequested) => Some(S::Sealed),
        (S::Active { phase: P::Observe }, E::ObservationClosed) => Some(S::Active { phase: P::Decide }),
        (S::Active { phase: P::Decide }, E::DecisionSubmitted) => Some(S::Active { phase: P::Execute }),
        (S::Active { phase: P::Execute }, E::ExecutionApplied) => Some(S::Active { phase: P::Settle }),
        (S::Active { phase: P::Settle }, E::SettlementVerified) => Some(S::Active { phase: P::Report }),
        (S::Active { phase: P::Report }, E::ReportAcknowledged) => Some(S::Active { phase: P::Observe }),
        (S::Active { phase: P::Report }, E::CampaignCompleted) => Some(S::Sealed),
        (S::Active { .. }, E::AbortRequested) => Some(S::Sealed),
        (S::Active { .. }, E::CorruptionDetected { reason }) => Some(S::Dead { reason }),
        _ => None,
    }
}

#[test]
fn decision_table_exhaustive() {
    let mut legal = 0usize;
    let mut illegal = 0usize;
    for state in all_states() {
        for event in all_events() {
            match (advance(state, event), expected(state, event)) {
                (Ok(next), Some(want)) => {
                    assert_eq!(next, want, "wrong target for {state:?} x {event:?}");
                    legal += 1;
                }
                (Err(FsmError::IllegalTransition { from, event: ev }), None) => {
                    assert_eq!(from, state);
                    assert_eq!(ev, event);
                    illegal += 1;
                }
                (got, want) => {
                    unreachable!("table mismatch for {state:?} x {event:?}: got {got:?}, want {want:?}");
                }
            }
        }
    }
    assert_eq!(legal + illegal, 72);
    assert_eq!(legal, 18);
}

#[test]
fn sealed_and_dead_are_absorbing() {
    for event in all_events() {
        assert!(matches!(advance(SessionState::Sealed, event), Err(FsmError::IllegalTransition { .. })));
        assert!(matches!(
            advance(SessionState::Dead { reason: FailureReason::SnapshotDigestMismatch }, event),
            Err(FsmError::IllegalTransition { .. })
        ));
    }
}
