use toy_payment_engine::money::MAX_MANTISSA;
use toy_payment_engine::{ClientAccount, Money, Transaction, TransactionStatus, TransactionType};

fn amount(mantissa: i128, scale: u32) -> Money {
    Money::new(mantissa, scale).unwrap()
}

fn record(tx_type: TransactionType, tx_id: u32, amount: Option<Money>) -> Transaction {
    Transaction { tx_type, client_id: 7, tx_id, amount, status: TransactionStatus::Loaded }
}

fn deposit(tx_id: u32, mantissa: i128, scale: u32) -> Transaction {
    record(TransactionType::Deposit, tx_id, Some(amount(mantissa, scale)))
}

fn withdrawal(tx_id: u32, mantissa: i128, scale: u32) -> Transaction {
    record(TransactionType::Withdrawal, tx_id, Some(amount(mantissa, scale)))
}

fn dispute(tx_id: u32) -> Transaction {
    record(TransactionType::Dispute, tx_id, None)
}

fn resolve(tx_id: u32) -> Transaction {
    record(TransactionType::Resolve, tx_id, None)
}

fn chargeback(tx_id: u32) -> Transaction {
    record(TransactionType::Chargeback, tx_id, None)
}

fn after(records: Vec<Transaction>) -> ClientAccount {
    let mut account = ClientAccount::new(7);
    for r in records {
        account.update(r);
        assert_eq!(account.available.checked_add(account.held), Some(account.total));
        assert!(account.available.ge(Money::zero()));
        assert!(account.held.ge(Money::zero()));
    }
    account
}

fn balances(account: &ClientAccount) -> ((i128, u32), (i128, u32), (i128, u32), bool) {
    let p = |m: Money| (m.mantissa(), m.scale());
    (p(account.available), p(account.held), p(account.total), account.locked)
}

#[test]
fn new_account_is_empty() {
    let account = ClientAccount::new(42);
    assert_eq!(account.client_id, 42);
    assert_eq!(balances(&account), ((0, 0), (0, 0), (0, 0), false));
}

#[test]
fn default_status_is_loaded() {
    assert_eq!(TransactionStatus::default(), TransactionStatus::Loaded);
}

#[test]
fn deposit_credits_available_and_total() {
    let account = after(vec![deposit(1, 15, 1), deposit(2, 25, 4)]);
    assert_eq!(balances(&account), ((15025, 4), (0, 0), (15025, 4), false));
}

#[test]
fn deposit_of_zero_or_less_is_rejected() {
    let account = after(vec![deposit(1, 0, 0), deposit(2, -5, 0), deposit(3, 0, 4)]);
    assert_eq!(balances(&account), ((0, 0), (0, 0), (0, 0), false));
    // The ids were not taken by the rejected records.
    let account = after(vec![deposit(1, 0, 0), deposit(1, 5, 0)]);
    assert_eq!(balances(&account), ((5, 0), (0, 0), (5, 0), false));
}

#[test]
fn deposit_without_amount_is_rejected() {
    let account = after(vec![record(TransactionType::Deposit, 1, None)]);
    assert_eq!(balances(&account), ((0, 0), (0, 0), (0, 0), false));
}

#[test]
fn deposit_that_does_not_fit_is_rejected() {
    let account = after(vec![deposit(1, MAX_MANTISSA, 0), deposit(2, 1, 0)]);
    assert_eq!(balances(&account), ((MAX_MANTISSA, 0), (0, 0), (MAX_MANTISSA, 0), false));
    // Nor is a sum accepted that could only be kept rounded.
    let account = after(vec![deposit(1, MAX_MANTISSA, 0), withdrawal(2, 10, 0), deposit(3, 5, 1)]);
    assert_eq!(balances(&account), ((MAX_MANTISSA - 10, 0), (0, 0), (MAX_MANTISSA - 10, 0), false));
}

#[test]
fn withdrawal_of_all_that_is_available_succeeds() {
    let account = after(vec![deposit(1, 50000, 4), withdrawal(2, 5, 0)]);
    assert_eq!(balances(&account), ((0, 4), (0, 0), (0, 4), false));
}

#[test]
fn withdrawal_of_the_least_bit_more_fails() {
    let account = after(vec![deposit(1, 5, 0), withdrawal(2, 50_000_000_000_000_000_000_000_000_001, 28)]);
    assert_eq!(balances(&account), ((5, 0), (0, 0), (5, 0), false));
    let account = after(vec![deposit(1, 50000, 4), withdrawal(2, 50001, 4)]);
    assert_eq!(balances(&account), ((50000, 4), (0, 0), (50000, 4), false));
}

#[test]
fn withdrawal_of_zero_or_less_or_nothing_is_rejected() {
    let account = after(vec![
        deposit(1, 5, 0),
        withdrawal(2, 0, 0),
        withdrawal(3, -1, 0),
        record(TransactionType::Withdrawal, 4, None),
    ]);
    assert_eq!(balances(&account), ((5, 0), (0, 0), (5, 0), false));
}

#[test]
fn withdrawal_counts_only_what_is_available() {
    // 5 of the 8 are held by the dispute.
    let account = after(vec![deposit(1, 5, 0), deposit(2, 3, 0), dispute(1), withdrawal(3, 4, 0)]);
    assert_eq!(balances(&account), ((3, 0), (5, 0), (8, 0), false));
    let account = after(vec![deposit(1, 5, 0), deposit(2, 3, 0), dispute(1), withdrawal(3, 3, 0)]);
    assert_eq!(balances(&account), ((0, 0), (5, 0), (5, 0), false));
}

#[test]
fn duplicate_id_is_rejected() {
    let account = after(vec![deposit(1, 5, 0), deposit(1, 7, 0)]);
    assert_eq!(balances(&account), ((5, 0), (0, 0), (5, 0), false));
    let account = after(vec![deposit(1, 5, 0), withdrawal(1, 2, 0)]);
    assert_eq!(balances(&account), ((5, 0), (0, 0), (5, 0), false));
}

#[test]
fn dispute_holds_the_amount() {
    let account = after(vec![deposit(1, 5, 0), deposit(2, 25, 1), dispute(2)]);
    assert_eq!(balances(&account), ((50, 1), (25, 1), (75, 1), false));
}

#[test]
fn dispute_of_unknown_id_is_rejected() {
    let account = after(vec![deposit(1, 5, 0), dispute(9)]);
    assert_eq!(balances(&account), ((5, 0), (0, 0), (5, 0), false));
}

#[test]
fn dispute_ignores_the_amount_of_its_own_record() {
    let account = after(vec![
        deposit(1, 5, 0),
        record(TransactionType::Dispute, 1, Some(amount(1, 0))),
    ]);
    assert_eq!(balances(&account), ((0, 0), (5, 0), (5, 0), false));
}

#[test]
fn dispute_twice_is_rejected() {
    let account = after(vec![deposit(1, 5, 0), deposit(2, 5, 0), dispute(1), dispute(1)]);
    assert_eq!(balances(&account), ((5, 0), (5, 0), (10, 0), false));
}

#[test]
fn dispute_beyond_available_is_rejected() {
    let account = after(vec![deposit(1, 5, 0), withdrawal(2, 1, 0), dispute(1)]);
    assert_eq!(balances(&account), ((4, 0), (0, 0), (4, 0), false));
}

#[test]
fn dispute_of_a_withdrawal_needs_the_funds() {
    let account = after(vec![deposit(1, 5, 0), withdrawal(2, 3, 0), dispute(2)]);
    assert_eq!(balances(&account), ((2, 0), (0, 0), (2, 0), false));
    let account = after(vec![deposit(1, 5, 0), withdrawal(2, 2, 0), dispute(2)]);
    assert_eq!(balances(&account), ((1, 0), (2, 0), (3, 0), false));
}

#[test]
fn resolve_releases_the_amount() {
    let account = after(vec![deposit(1, 5, 0), deposit(2, 25, 1), dispute(2), resolve(2)]);
    assert_eq!(balances(&account), ((75, 1), (0, 1), (75, 1), false));
}

#[test]
fn resolve_needs_a_dispute() {
    let account = after(vec![deposit(1, 5, 0), resolve(1), resolve(9)]);
    assert_eq!(balances(&account), ((5, 0), (0, 0), (5, 0), false));
}

#[test]
fn resolved_is_final() {
    let account = after(vec![
        deposit(1, 5, 0),
        dispute(1),
        resolve(1),
        dispute(1),
        resolve(1),
        chargeback(1),
    ]);
    assert_eq!(balances(&account), ((5, 0), (0, 0), (5, 0), false));
}

#[test]
fn chargeback_removes_the_amount_and_locks() {
    let account = after(vec![deposit(1, 5, 0), deposit(2, 3, 0), dispute(1), chargeback(1)]);
    assert_eq!(balances(&account), ((3, 0), (0, 0), (3, 0), true));
}

#[test]
fn chargeback_needs_a_dispute() {
    let account = after(vec![deposit(1, 5, 0), chargeback(1), chargeback(9)]);
    assert_eq!(balances(&account), ((5, 0), (0, 0), (5, 0), false));
}

#[test]
fn locked_account_rejects_every_kind() {
    let locked = vec![deposit(1, 5, 0), deposit(2, 3, 0), dispute(1), dispute(2), chargeback(1)];
    let expected = ((0, 0), (3, 0), (3, 0), true);
    assert_eq!(balances(&after(locked.clone())), expected);
    for r in [deposit(3, 1, 0), withdrawal(4, 1, 0), dispute(2), resolve(2), chargeback(2)] {
        let mut records = locked.clone();
        records.push(r);
        assert_eq!(balances(&after(records)), expected);
    }
}

#[test]
fn deposit_dispute_resolve_is_the_deposit_alone() {
    let alone = after(vec![deposit(1, 12345, 3), deposit(2, 5, 1)]);
    let round = after(vec![deposit(1, 12345, 3), deposit(2, 5, 1), dispute(2), resolve(2)]);
    assert_eq!(alone.available, round.available);
    assert_eq!(alone.held, round.held);
    assert_eq!(alone.total, round.total);
    assert_eq!(balances(&round), ((12845, 3), (0, 1), (12845, 3), false));
}

#[test]
fn dispute_is_resolved_at_whatever_scale_the_balance_needs() {
    // 10^28 cannot be written with the one fractional digit of the held
    // amount; it is written without.
    let seven = 70_000_000_000_000_000_000_000_000_000;
    let ten = 10_000_000_000_000_000_000_000_000_000;
    let three = 30_000_000_000_000_000_000_000_000_000;
    let records = vec![
        deposit(1, seven, 1),
        withdrawal(2, seven, 1),
        deposit(3, ten, 0),
        dispute(1),
    ];
    let account = after(records.clone());
    assert_eq!(balances(&account), ((three, 1), (seven, 1), (ten, 0), false));
    let mut records = records;
    records.push(resolve(1));
    let account = after(records);
    assert_eq!(account.available, amount(ten, 0));
    assert_eq!(account.held, Money::zero());
    assert_eq!(account.total, amount(ten, 0));
}

#[test]
fn snapshot_cuts_to_four_digits() {
    let account = after(vec![deposit(1, 1123499, 6), deposit(2, 5, 0), dispute(2)]);
    let row = account.snapshot();
    assert_eq!(row.client, 7);
    assert_eq!((row.available.mantissa(), row.available.scale()), (11234, 4));
    assert_eq!((row.held.mantissa(), row.held.scale()), (50000, 4));
    assert_eq!((row.total.mantissa(), row.total.scale()), (61234, 4));
    assert!(!row.locked);
}

#[test]
fn kinds_are_read_in_any_case() {
    assert_eq!(TransactionType::from_token("deposit"), Some(TransactionType::Deposit));
    assert_eq!(TransactionType::from_token("Withdrawal"), Some(TransactionType::Withdrawal));
    assert_eq!(TransactionType::from_token("DISPUTE"), Some(TransactionType::Dispute));
    assert_eq!(TransactionType::from_token("rEsOlVe"), Some(TransactionType::Resolve));
    assert_eq!(TransactionType::from_token("ChargeBack"), Some(TransactionType::Chargeback));
    assert_eq!(TransactionType::from_token("refund"), None);
    assert_eq!(TransactionType::from_token(""), None);
    assert_eq!(TransactionType::from_token(" deposit"), None);
}

#[test]
fn lower_case_kinds_are_read_as_they_stand() {
    let read = |token: &str| TransactionType::from_lowercase(&String::from(token));
    assert_eq!(read("deposit"), Some(TransactionType::Deposit));
    assert_eq!(read("withdrawal"), Some(TransactionType::Withdrawal));
    assert_eq!(read("dispute"), Some(TransactionType::Dispute));
    assert_eq!(read("resolve"), Some(TransactionType::Resolve));
    assert_eq!(read("chargeback"), Some(TransactionType::Chargeback));
    assert_eq!(read("Deposit"), None);
}

#[test]
fn withdrawal_of_all_that_is_available_succeeds_at_any_scale() {
    // One unit written with 28 digits, against a total that has no room
    // for that many.
    let one = 10_000_000_000_000_000_000_000_000_000;
    let account = after(vec![
        deposit(1, 10_000_000_000, 0),
        deposit(2, 1, 0),
        dispute(1),
        withdrawal(3, one, 28),
    ]);
    assert_eq!(account.available, Money::zero());
    assert_eq!(account.held, amount(10_000_000_000, 0));
    assert_eq!(account.total, amount(10_000_000_000, 0));
    // The least bit more is refused.
    let account = after(vec![
        deposit(1, 10_000_000_000, 0),
        deposit(2, 1, 0),
        dispute(1),
        withdrawal(3, one + 1, 28),
    ]);
    assert_eq!(account.available, amount(1, 0));
    assert_eq!(account.total, amount(10_000_000_001, 0));
}

#[test]
fn getters_give_the_fields() {
    let account = after(vec![deposit(1, 5, 0), deposit(2, 25, 1), dispute(2)]);
    assert_eq!(account.client_id(), 7);
    assert_eq!(account.available(), amount(5, 0));
    assert_eq!(account.held(), amount(25, 1));
    assert_eq!(account.total(), amount(75, 1));
    assert!(!account.locked());
    let account = after(vec![deposit(1, 5, 0), dispute(1), chargeback(1)]);
    assert!(account.locked());
    assert_eq!(account.total(), Money::zero());
}
