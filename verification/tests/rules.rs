use transaction_engine::account::{Account, Accounts};
use transaction_engine::error::MutationError;
use transaction_engine::transaction::{
    Mutation, Transaction, TransactionStatus, TransactionType, Transactions,
};

fn funded(id: u32, kind: TransactionType, amount: u32) -> Mutation {
    Mutation { id, kind, client: 1, amount: Some(amount) }
}

fn bare(id: u32, kind: TransactionType) -> Mutation {
    Mutation { id, kind, client: 1, amount: None }
}

fn account(available: u32, held: u32, total: u32) -> Account {
    Account { client: 1, available, held, total, locked: false }
}

#[test]
fn new_account_is_empty_and_unlocked() {
    assert_eq!(Account::new(9), Account { client: 9, available: 0, held: 0, total: 0, locked: false });
}

#[test]
fn deposit_is_stored_with_status_posted() {
    let mut acc = Account::new(1);
    let mut trxs = Transactions::default();
    let record = Mutation { id: 4, kind: TransactionType::Deposit, client: 3, amount: Some(12_345) };
    assert_eq!(acc.mutate(record, &mut trxs), Ok(()));
    assert_eq!(acc, account(12_345, 0, 12_345));
    assert_eq!(trxs.len(), 1);
    assert!(trxs.contains(4));
    assert_eq!(
        trxs.find(4),
        Some(Transaction {
            id: 4,
            kind: TransactionType::Deposit,
            client: 3,
            amount: 12_345,
            status: TransactionStatus::Posted,
        })
    );
    assert_eq!(trxs.find(5), None);
}

#[test]
fn deposit_without_amount_is_refused() {
    let mut acc = Account::new(1);
    let mut trxs = Transactions::default();
    let result = acc.mutate(bare(1, TransactionType::Deposit), &mut trxs);
    assert_eq!(result, Err(MutationError::MissingAmount { id: 1 }));
    assert_eq!(acc, Account::new(1));
    assert_eq!(trxs.len(), 0);
}

#[test]
fn withdrawal_without_amount_is_refused() {
    let mut acc = account(10, 0, 10);
    let mut trxs = Transactions::default();
    let result = acc.mutate(bare(2, TransactionType::Withdrawal), &mut trxs);
    assert_eq!(result, Err(MutationError::MissingAmount { id: 2 }));
    assert_eq!(acc, account(10, 0, 10));
}

#[test]
fn deposit_overflow_is_an_error_and_changes_nothing() {
    let mut acc = account(u32::MAX - 4, 0, u32::MAX - 4);
    let mut trxs = Transactions::default();
    let result = acc.mutate(funded(1, TransactionType::Deposit, 5), &mut trxs);
    assert_eq!(result, Err(MutationError::ArithmeticOverflow { id: 1, amount: 5 }));
    assert_eq!(acc, account(u32::MAX - 4, 0, u32::MAX - 4));
    assert!(!trxs.contains(1));
    assert_eq!(acc.mutate(funded(2, TransactionType::Deposit, 4), &mut trxs), Ok(()));
    assert_eq!(acc, account(u32::MAX, 0, u32::MAX));
}

#[test]
fn deposit_overflow_of_total_alone_is_an_error() {
    let mut acc = account(0, u32::MAX, u32::MAX);
    let mut trxs = Transactions::default();
    let result = acc.mutate(funded(1, TransactionType::Deposit, 1), &mut trxs);
    assert_eq!(result, Err(MutationError::ArithmeticOverflow { id: 1, amount: 1 }));
    assert_eq!(acc, account(0, u32::MAX, u32::MAX));
}

#[test]
fn duplicate_deposit_id_is_refused() {
    let mut acc = Account::new(1);
    let mut trxs = Transactions::default();
    acc.mutate(funded(1, TransactionType::Deposit, 5), &mut trxs).unwrap();
    let result = acc.mutate(funded(1, TransactionType::Deposit, 7), &mut trxs);
    assert_eq!(result, Err(MutationError::DuplicateTransaction { id: 1 }));
    assert_eq!(acc, account(5, 0, 5));
    assert_eq!(trxs.find(1).unwrap().amount, 5);
}

#[test]
fn duplicate_withdrawal_id_is_refused() {
    let mut acc = Account::new(1);
    let mut trxs = Transactions::default();
    acc.mutate(funded(1, TransactionType::Deposit, 50), &mut trxs).unwrap();
    let result = acc.mutate(funded(1, TransactionType::Withdrawal, 7), &mut trxs);
    assert_eq!(result, Err(MutationError::DuplicateTransaction { id: 1 }));
    assert_eq!(acc, account(50, 0, 50));
}

#[test]
fn withdrawal_debits_available_and_total() {
    let mut acc = Account::new(1);
    let mut trxs = Transactions::default();
    acc.mutate(funded(1, TransactionType::Deposit, 50_000), &mut trxs).unwrap();
    assert_eq!(acc.mutate(funded(2, TransactionType::Withdrawal, 20_000), &mut trxs), Ok(()));
    assert_eq!(acc, account(30_000, 0, 30_000));
    assert_eq!(
        trxs.find(2),
        Some(Transaction {
            id: 2,
            kind: TransactionType::Withdrawal,
            client: 1,
            amount: 20_000,
            status: TransactionStatus::Posted,
        })
    );
}

#[test]
fn withdrawal_of_everything_succeeds() {
    let mut acc = account(5, 0, 5);
    let mut trxs = Transactions::default();
    assert_eq!(acc.mutate(funded(2, TransactionType::Withdrawal, 5), &mut trxs), Ok(()));
    assert_eq!(acc, account(0, 0, 0));
}

#[test]
fn withdrawal_beyond_available_is_insufficient_funds() {
    let mut acc = Account::new(1);
    let mut trxs = Transactions::default();
    acc.mutate(funded(1, TransactionType::Deposit, 50_000), &mut trxs).unwrap();
    let result = acc.mutate(funded(2, TransactionType::Withdrawal, 70_000), &mut trxs);
    assert_eq!(result, Err(MutationError::InsufficientFunds { id: 2, amount: 70_000 }));
    assert_eq!(acc, account(50_000, 0, 50_000));
    assert!(!trxs.contains(2));
}

#[test]
fn dispute_of_unknown_id_is_ignored() {
    let mut acc = account(5, 0, 5);
    let mut trxs = Transactions::default();
    assert_eq!(acc.mutate(bare(99, TransactionType::Dispute), &mut trxs), Ok(()));
    assert_eq!(acc, account(5, 0, 5));
    assert_eq!(trxs.len(), 0);
}

#[test]
fn dispute_of_a_withdrawal_is_an_error() {
    let mut acc = Account::new(1);
    let mut trxs = Transactions::default();
    acc.mutate(funded(1, TransactionType::Deposit, 9), &mut trxs).unwrap();
    acc.mutate(funded(2, TransactionType::Withdrawal, 4), &mut trxs).unwrap();
    let result = acc.mutate(bare(2, TransactionType::Dispute), &mut trxs);
    assert_eq!(result, Err(MutationError::OnlyDepositsDisputable { id: 2 }));
    assert_eq!(acc, account(5, 0, 5));
    assert_eq!(trxs.find(2).unwrap().status, TransactionStatus::Posted);
}

#[test]
fn dispute_of_spent_funds_is_an_arithmetic_error() {
    let mut acc = Account::new(1);
    let mut trxs = Transactions::default();
    acc.mutate(funded(1, TransactionType::Deposit, 5), &mut trxs).unwrap();
    acc.mutate(funded(2, TransactionType::Withdrawal, 3), &mut trxs).unwrap();
    let result = acc.mutate(bare(1, TransactionType::Dispute), &mut trxs);
    assert_eq!(result, Err(MutationError::ArithmeticError { id: 1, amount: 5 }));
    assert_eq!(acc, account(2, 0, 2));
    assert_eq!(trxs.find(1).unwrap().status, TransactionStatus::Posted);
}

#[test]
fn dispute_that_would_overflow_held_is_an_error() {
    let mut acc = account(5, u32::MAX, 4);
    let mut trxs = Transactions::default();
    trxs.insert(Transaction {
        id: 1,
        kind: TransactionType::Deposit,
        client: 1,
        amount: 5,
        status: TransactionStatus::Posted,
    })
    .unwrap();
    let result = acc.process_dispute(1, &mut trxs);
    assert_eq!(result, Err(MutationError::ArithmeticOverflow { id: 1, amount: 5 }));
    assert_eq!(acc, account(5, u32::MAX, 4));
    assert_eq!(trxs.find(1).unwrap().status, TransactionStatus::Posted);
}

#[test]
fn resolve_before_dispute_is_ignored() {
    let mut acc = Account::new(1);
    let mut trxs = Transactions::default();
    acc.mutate(funded(1, TransactionType::Deposit, 5), &mut trxs).unwrap();
    assert_eq!(acc.mutate(bare(1, TransactionType::Resolve), &mut trxs), Ok(()));
    assert_eq!(acc, account(5, 0, 5));
    assert_eq!(trxs.find(1).unwrap().status, TransactionStatus::Posted);
    assert_eq!(acc.mutate(bare(42, TransactionType::Resolve), &mut trxs), Ok(()));
    assert_eq!(acc, account(5, 0, 5));
}

#[test]
fn resolve_with_too_little_held_is_an_arithmetic_error() {
    let mut acc = account(0, 3, 3);
    let mut trxs = Transactions::default();
    trxs.insert(Transaction {
        id: 1,
        kind: TransactionType::Deposit,
        client: 1,
        amount: 5,
        status: TransactionStatus::Disputed,
    })
    .unwrap();
    let result = acc.mutate(bare(1, TransactionType::Resolve), &mut trxs);
    assert_eq!(result, Err(MutationError::ArithmeticError { id: 1, amount: 5 }));
    assert_eq!(acc, account(0, 3, 3));
    assert_eq!(trxs.find(1).unwrap().status, TransactionStatus::Disputed);
}

#[test]
fn resolve_that_would_overflow_available_is_an_error() {
    let mut acc = account(u32::MAX, 5, 4);
    let mut trxs = Transactions::default();
    trxs.insert(Transaction {
        id: 1,
        kind: TransactionType::Deposit,
        client: 1,
        amount: 5,
        status: TransactionStatus::Disputed,
    })
    .unwrap();
    let result = acc.process_resolve(1, &mut trxs);
    assert_eq!(result, Err(MutationError::ArithmeticOverflow { id: 1, amount: 5 }));
    assert_eq!(acc, account(u32::MAX, 5, 4));
}

#[test]
fn chargeback_before_resolve_is_ignored() {
    let mut acc = Account::new(1);
    let mut trxs = Transactions::default();
    acc.mutate(funded(1, TransactionType::Deposit, 5), &mut trxs).unwrap();
    assert_eq!(acc.mutate(bare(1, TransactionType::Chargeback), &mut trxs), Ok(()));
    assert_eq!(acc, account(5, 0, 5));
    acc.mutate(bare(1, TransactionType::Dispute), &mut trxs).unwrap();
    assert_eq!(acc.mutate(bare(1, TransactionType::Chargeback), &mut trxs), Ok(()));
    assert_eq!(acc, account(0, 5, 5));
    assert!(!acc.locked);
    assert_eq!(trxs.find(1).unwrap().status, TransactionStatus::Disputed);
}

#[test]
fn chargeback_of_spent_funds_is_an_arithmetic_error() {
    let mut acc = Account::new(1);
    let mut trxs = Transactions::default();
    acc.mutate(funded(1, TransactionType::Deposit, 5), &mut trxs).unwrap();
    acc.mutate(bare(1, TransactionType::Dispute), &mut trxs).unwrap();
    acc.mutate(bare(1, TransactionType::Resolve), &mut trxs).unwrap();
    acc.mutate(funded(2, TransactionType::Withdrawal, 5), &mut trxs).unwrap();
    let result = acc.mutate(bare(1, TransactionType::Chargeback), &mut trxs);
    assert_eq!(result, Err(MutationError::ArithmeticError { id: 1, amount: 5 }));
    assert_eq!(acc, account(0, 0, 0));
    assert!(!acc.locked);
    assert_eq!(trxs.find(1).unwrap().status, TransactionStatus::Resolved);
}

#[test]
fn chargeback_locks_and_marks_refunded() {
    let mut acc = Account::new(1);
    let mut trxs = Transactions::default();
    acc.mutate(funded(1, TransactionType::Deposit, 5), &mut trxs).unwrap();
    acc.mutate(funded(2, TransactionType::Deposit, 3), &mut trxs).unwrap();
    acc.mutate(bare(1, TransactionType::Dispute), &mut trxs).unwrap();
    assert_eq!(trxs.find(1).unwrap().status, TransactionStatus::Disputed);
    acc.mutate(bare(1, TransactionType::Resolve), &mut trxs).unwrap();
    assert_eq!(trxs.find(1).unwrap().status, TransactionStatus::Resolved);
    acc.mutate(bare(1, TransactionType::Chargeback), &mut trxs).unwrap();
    assert_eq!(trxs.find(1).unwrap().status, TransactionStatus::Refunded);
    assert_eq!(acc, Account { client: 1, available: 3, held: 0, total: 3, locked: true });
    assert_eq!(trxs.find(2).unwrap().status, TransactionStatus::Posted);
}

#[test]
fn locked_account_refuses_every_kind_and_keeps_its_balances() {
    let locked = Account { client: 6, available: 3, held: 2, total: 5, locked: true };
    let kinds = [
        TransactionType::Deposit,
        TransactionType::Withdrawal,
        TransactionType::Dispute,
        TransactionType::Resolve,
        TransactionType::Chargeback,
    ];
    for kind in kinds {
        let mut acc = locked;
        let mut trxs = Transactions::default();
        trxs.insert(Transaction {
            id: 1,
            kind: TransactionType::Deposit,
            client: 6,
            amount: 1,
            status: TransactionStatus::Posted,
        })
        .unwrap();
        let result = acc.mutate(funded(1, kind, 1), &mut trxs);
        assert_eq!(result, Err(MutationError::LockedAccount { client: 6 }));
        assert_eq!(acc, locked);
        assert_eq!(trxs.find(1).unwrap().status, TransactionStatus::Posted);
        assert_eq!(trxs.len(), 1);
    }
}

#[test]
fn total_is_available_plus_held_after_every_step() {
    let steps = [
        funded(1, TransactionType::Deposit, 50_000),
        funded(2, TransactionType::Deposit, 12_500),
        funded(3, TransactionType::Withdrawal, 70_000),
        bare(1, TransactionType::Dispute),
        funded(4, TransactionType::Withdrawal, 10_000),
        bare(2, TransactionType::Dispute),
        bare(1, TransactionType::Resolve),
        bare(2, TransactionType::Resolve),
        bare(1, TransactionType::Chargeback),
        funded(5, TransactionType::Deposit, 1),
    ];
    let mut acc = Account::new(1);
    let mut trxs = Transactions::default();
    for step in steps {
        let _ = acc.mutate(step, &mut trxs);
        assert_eq!(acc.total, acc.available + acc.held);
    }
    assert_eq!(acc, Account { client: 1, available: 2_500, held: 0, total: 2_500, locked: true });
}

#[test]
fn second_resolve_in_a_row_changes_nothing() {
    let mut acc = Account::new(1);
    let mut trxs = Transactions::default();
    acc.mutate(funded(1, TransactionType::Deposit, 5), &mut trxs).unwrap();
    acc.mutate(bare(1, TransactionType::Dispute), &mut trxs).unwrap();
    acc.mutate(bare(1, TransactionType::Resolve), &mut trxs).unwrap();
    let after_first = acc;
    let entry = trxs.find(1);
    assert_eq!(acc.mutate(bare(1, TransactionType::Resolve), &mut trxs), Ok(()));
    assert_eq!(acc, after_first);
    assert_eq!(trxs.find(1), entry);
}

#[test]
fn second_chargeback_in_a_row_changes_nothing() {
    let mut acc = Account::new(1);
    let mut trxs = Transactions::default();
    acc.mutate(funded(1, TransactionType::Deposit, 5), &mut trxs).unwrap();
    acc.mutate(bare(1, TransactionType::Dispute), &mut trxs).unwrap();
    acc.mutate(bare(1, TransactionType::Resolve), &mut trxs).unwrap();
    acc.mutate(bare(1, TransactionType::Chargeback), &mut trxs).unwrap();
    let after_first = acc;
    let entry = trxs.find(1);
    let second = acc.mutate(bare(1, TransactionType::Chargeback), &mut trxs);
    assert_eq!(second, Err(MutationError::LockedAccount { client: 1 }));
    assert_eq!(acc, after_first);
    assert_eq!(trxs.find(1), entry);
}

#[test]
fn withdrawal_after_dispute_fails_but_before_it_succeeds() {
    let mut acc = Account::new(1);
    let mut trxs = Transactions::default();
    acc.mutate(funded(1, TransactionType::Deposit, 50_000), &mut trxs).unwrap();
    acc.mutate(bare(1, TransactionType::Dispute), &mut trxs).unwrap();
    let late = acc.mutate(funded(2, TransactionType::Withdrawal, 50_000), &mut trxs);
    assert_eq!(late, Err(MutationError::InsufficientFunds { id: 2, amount: 50_000 }));
    assert_eq!(acc, account(0, 50_000, 50_000));

    let mut acc = Account::new(1);
    let mut trxs = Transactions::default();
    acc.mutate(funded(1, TransactionType::Deposit, 50_000), &mut trxs).unwrap();
    let early = acc.mutate(funded(2, TransactionType::Withdrawal, 50_000), &mut trxs);
    assert_eq!(early, Ok(()));
    assert_eq!(acc, account(0, 0, 0));
}

#[test]
fn record_becomes_posted_transaction() {
    let record = Mutation { id: 3, kind: TransactionType::Withdrawal, client: 8, amount: Some(77) };
    assert_eq!(
        record.try_into(),
        Ok(Transaction {
            id: 3,
            kind: TransactionType::Withdrawal,
            client: 8,
            amount: 77,
            status: TransactionStatus::Posted,
        })
    );
    let empty = Mutation { id: 3, kind: TransactionType::Deposit, client: 8, amount: None };
    assert_eq!(empty.try_into(), Err(MutationError::MissingAmount { id: 3 }));
}

#[test]
fn ledger_refuses_a_second_entry_under_one_id() {
    let mut trxs = Transactions::default();
    let first = Transaction {
        id: 1,
        kind: TransactionType::Deposit,
        client: 1,
        amount: 5,
        status: TransactionStatus::Posted,
    };
    let second = Transaction { amount: 9, ..first };
    assert_eq!(trxs.insert(first), Ok(()));
    assert_eq!(trxs.insert(second), Err(MutationError::DuplicateTransaction { id: 1 }));
    assert_eq!(trxs.find(1), Some(first));
    assert_eq!(trxs.len(), 1);
}

#[test]
fn ledger_entry_can_be_updated_in_place() {
    let mut trxs = Transactions::default();
    let entry = Transaction {
        id: 1,
        kind: TransactionType::Deposit,
        client: 1,
        amount: 5,
        status: TransactionStatus::Posted,
    };
    trxs.insert(entry).unwrap();
    assert!(trxs.find_mutable(2).is_none());
    let found = trxs.find_mutable(1).unwrap();
    assert_eq!(*found, entry);
    found.status = TransactionStatus::Disputed;
    assert_eq!(trxs.find(1), Some(Transaction { status: TransactionStatus::Disputed, ..entry }));
    assert_eq!(trxs.len(), 1);
}

#[test]
fn registry_creates_accounts_on_first_use() {
    let mut accounts = Accounts::default();
    assert_eq!(accounts.len(), 0);
    assert_eq!(accounts.get(4), None);
    assert_eq!(*accounts.account_for_id(4), Account::new(4));
    assert_eq!(accounts.len(), 1);
    accounts.account_for_id(4).available = 10;
    accounts.account_for_id(4).total = 10;
    assert_eq!(accounts.len(), 1);
    assert_eq!(
        accounts.get(4),
        Some(Account { client: 4, available: 10, held: 0, total: 10, locked: false })
    );
    assert_eq!(accounts.get(5), None);
}

#[test]
fn registry_lists_accounts_by_ascending_client() {
    let mut accounts = Accounts::default();
    assert_eq!(accounts.to_vec(), vec![]);
    accounts.account_for_id(u16::MAX).available = 1;
    accounts.account_for_id(300).available = 2;
    accounts.account_for_id(0).available = 3;
    accounts.account_for_id(300).held = 4;
    let all = accounts.to_vec();
    assert_eq!(
        all,
        vec![
            Account { client: 0, available: 3, held: 0, total: 0, locked: false },
            Account { client: 300, available: 2, held: 4, total: 0, locked: false },
            Account { client: u16::MAX, available: 1, held: 0, total: 0, locked: false },
        ]
    );
}
