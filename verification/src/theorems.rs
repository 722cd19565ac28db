//! What holds of every account, whatever records reach it.

use crate::model::{AccountState, Transaction, TransactionStatus, TransactionType};
use crate::money::{lemma_zero_representable, representable};
use crate::processor::{
    account_for, clients, first_failure, ledger_sound, lemma_route_keeps_sound, route, run, Row,
};
use vstd::prelude::*;

verus! {

/// A locked account rejects every record, of whatever kind.
pub proof fn lemma_locked_rejects(state: AccountState, tx: Transaction)
    requires
        state.locked,
    ensures
        state.apply(tx) == state,
{
}

/// Only a chargeback against a disputed transaction locks an account.
pub proof fn lemma_only_chargeback_locks(state: AccountState, tx: Transaction)
    requires
        !state.locked,
        state.apply(tx).locked,
    ensures
        tx.tx_type == TransactionType::Chargeback,
        state.txs.contains_key(tx.tx_id),
        state.txs[tx.tx_id].status == TransactionStatus::Disputed,
        state.apply(tx).txs[tx.tx_id].status == TransactionStatus::Chargebacked,
{
}

/// The moves of the lifecycle: a verified transaction may become disputed,
/// a disputed one resolved or chargebacked, and nothing else.
pub open spec fn lifecycle_move(from: TransactionStatus, to: TransactionStatus) -> bool {
    ||| from == TransactionStatus::Verified && to == TransactionStatus::Disputed
    ||| from == TransactionStatus::Disputed && to == TransactionStatus::Resolved
    ||| from == TransactionStatus::Disputed && to == TransactionStatus::Chargebacked
}

/// A stored transaction is never deleted or altered by a record, except
/// that its status may make one move of the lifecycle; and a record never
/// changes whose account it is applied to.
pub proof fn lemma_stored_is_kept(state: AccountState, tx: Transaction, id: u32)
    requires
        state.txs.contains_key(id),
    ensures
        state.apply(tx).client_id == state.client_id,
        state.apply(tx).txs.contains_key(id),
        state.apply(tx).txs[id].with_status(state.txs[id].status) == state.txs[id],
        state.apply(tx).txs[id].status == state.txs[id].status || lifecycle_move(
            state.txs[id].status,
            state.apply(tx).txs[id].status,
        ),
        id != tx.tx_id ==> state.apply(tx).txs[id] == state.txs[id],
{
}

/// A record stores at most one transaction: its own, booked as verified,
/// and only if it is a deposit or a withdrawal.
pub proof fn lemma_only_bookings_are_stored(state: AccountState, tx: Transaction, id: u32)
    requires
        !state.txs.contains_key(id),
        state.apply(tx).txs.contains_key(id),
    ensures
        id == tx.tx_id,
        tx.tx_type == TransactionType::Deposit || tx.tx_type == TransactionType::Withdrawal,
        state.apply(tx).txs[id] == tx.with_status(TransactionStatus::Verified),
{
}

/// A deposit or withdrawal without an amount, or with one that is zero or
/// negative, is rejected.
pub proof fn lemma_amount_must_be_positive(state: AccountState, tx: Transaction)
    requires
        tx.amount is None || tx.amount->0.value() <= 0,
    ensures
        state.deposit(tx) == state,
        state.withdrawal(tx) == state,
{
}

/// A deposit or withdrawal under an id that the account has already stored
/// is rejected.
pub proof fn lemma_duplicate_rejected(state: AccountState, tx: Transaction)
    requires
        state.txs.contains_key(tx.tx_id),
    ensures
        state.deposit(tx) == state,
        state.withdrawal(tx) == state,
{
}

/// A withdrawal of more than is available is rejected.
pub proof fn lemma_overdraft_rejected(state: AccountState, tx: Transaction)
    requires
        tx.amount matches Some(amount) && amount.value() > state.available,
    ensures
        state.withdrawal(tx) == state,
{
}

/// A withdrawal of exactly what is available, under a fresh id on an
/// unlocked account, is booked and leaves nothing available.
pub proof fn lemma_withdraw_everything(state: AccountState, tx: Transaction)
    requires
        state.wf(),
        state.balanced(),
        !state.locked,
        !state.txs.contains_key(tx.tx_id),
        tx.amount matches Some(amount) && amount.value() > 0 && amount.value() == state.available,
    ensures
        state.withdrawal(tx).available == 0,
        state.withdrawal(tx).total == state.held,
        state.withdrawal(tx).held == state.held,
        state.withdrawal(tx).txs.contains_key(tx.tx_id),
        state.withdrawal(tx).txs[tx.tx_id] == tx.with_status(TransactionStatus::Verified),
{
    lemma_zero_representable();
}

/// A deposit of a positive amount, under a fresh id on an unlocked
/// account, is booked exactly when some amount has the value of the new
/// total and some amount that of the new available balance.
pub proof fn lemma_deposit_booked(state: AccountState, tx: Transaction)
    requires
        !state.locked,
        !state.txs.contains_key(tx.tx_id),
        tx.amount matches Some(amount) && amount.value() > 0,
    ensures
        state.deposit(tx).txs.contains_key(tx.tx_id) <==> representable(
            state.total + tx.amount->0.value(),
        ) && representable(state.available + tx.amount->0.value()),
        state.deposit(tx).txs.contains_key(tx.tx_id) ==> state.deposit(tx).available
            == state.available + tx.amount->0.value() && state.deposit(tx).total == state.total
            + tx.amount->0.value() && state.deposit(tx).held == state.held,
{
}

/// A dispute of a transaction whose amount exceeds what is available is
/// rejected: no dispute overdraws an account.
pub proof fn lemma_dispute_needs_funds(state: AccountState, tx: Transaction)
    requires
        state.txs.contains_key(tx.tx_id),
        state.txs[tx.tx_id].amount matches Some(amount) && amount.value() > state.available,
    ensures
        state.dispute(tx) == state,
{
}

/// A dispute and a resolve of the same verified transaction bring the
/// balances back to what they were: the resolve takes effect wherever the
/// dispute has.
pub proof fn lemma_dispute_resolve_restores(
    state: AccountState,
    dispute: Transaction,
    resolve: Transaction,
)
    requires
        state.wf(),
        state.balanced(),
        dispute.tx_id == resolve.tx_id,
        state.txs.contains_key(dispute.tx_id),
        state.txs[dispute.tx_id].status == TransactionStatus::Verified,
    ensures
        state.dispute(dispute).resolve(resolve).same_balances(state),
        state.dispute(dispute) != state ==> state.dispute(dispute).resolve(
            resolve,
        ).txs[dispute.tx_id].status == TransactionStatus::Resolved,
{
}

/// A deposit that is booked, followed at once by a dispute and a resolve
/// of it, leaves the balances that the deposit alone leaves.
pub proof fn lemma_deposit_dispute_resolve(
    state: AccountState,
    deposit: Transaction,
    dispute: Transaction,
    resolve: Transaction,
)
    requires
        state.wf(),
        state.balanced(),
        deposit.wf(),
        deposit.tx_id == dispute.tx_id,
        deposit.tx_id == resolve.tx_id,
        state.deposit(deposit) != state,
    ensures
        state.deposit(deposit).dispute(dispute).resolve(resolve).same_balances(
            state.deposit(deposit),
        ),
{
    let booked = state.deposit(deposit);
    state.lemma_apply_keeps_invariant(
        Transaction { tx_type: TransactionType::Deposit, ..deposit },
    );
    lemma_dispute_resolve_restores(booked, dispute, resolve);
}

/// Whatever records an account has seen, it is well formed and balanced.
pub proof fn lemma_account_always_balanced(state: AccountState, records: Seq<Transaction>)
    requires
        state.wf(),
        state.balanced(),
        forall|i: int| 0 <= i < records.len() ==> (#[trigger] records[i]).wf(),
    ensures
        state.apply_all(records).wf(),
        state.apply_all(records).balanced(),
        state.apply_all(records).client_id == state.client_id,
    decreases records.len(),
{
    if records.len() > 0 {
        lemma_account_always_balanced(state, records.drop_last());
        state.apply_all(records.drop_last()).lemma_apply_keeps_invariant(records.last());
    }
}

/// An account that has become locked was locked by a chargeback, and no
/// record after that chargeback has changed it.
pub proof fn lemma_locked_since_chargeback(state: AccountState, records: Seq<Transaction>)
    requires
        !state.locked,
        state.apply_all(records).locked,
    ensures
        exists|i: int|
            0 <= i < records.len() && (#[trigger] records[i]).tx_type
                == TransactionType::Chargeback && !state.apply_all(records.take(i)).locked
                && state.apply_all(records.take(i + 1)) == state.apply_all(records),
    decreases records.len(),
{
    let n = records.len() as int;
    let before = state.apply_all(records.drop_last());
    assert(records.take(n) =~= records);
    assert(records.take(n - 1) =~= records.drop_last());
    if before.locked {
        lemma_locked_since_chargeback(state, records.drop_last());
        lemma_locked_rejects(before, records.last());
        let i = choose|i: int|
            0 <= i < n - 1 && (#[trigger] records.drop_last()[i]).tx_type
                == TransactionType::Chargeback && !state.apply_all(
                records.drop_last().take(i),
            ).locked && state.apply_all(records.drop_last().take(i + 1)) == before;
        assert(records.drop_last().take(i) =~= records.take(i));
        assert(records.drop_last().take(i + 1) =~= records.take(i + 1));
        assert(records[i].tx_type == TransactionType::Chargeback);
    } else {
        lemma_only_chargeback_locks(before, records.last());
        assert(records[n - 1].tx_type == TransactionType::Chargeback);
    }
}

/// Whatever rows a ledger has taken, each of its accounts is well formed,
/// balanced, and filed under its own client id.
pub proof fn lemma_ledger_always_balanced(accounts: Map<u16, AccountState>, rows: Seq<Row>)
    requires
        ledger_sound(accounts),
        forall|i: int|
            0 <= i < rows.len() ==> ((#[trigger] rows[i]) matches Row::Record(tx) ==> tx.wf()),
    ensures
        ledger_sound(run(accounts, rows)),
    decreases rows.len(),
{
    if rows.len() > 0 {
        lemma_ledger_always_balanced(accounts, rows.drop_last());
        if let Row::Record(tx) = rows.last() {
            lemma_route_keeps_sound(run(accounts, rows.drop_last()), tx);
        }
    }
}

/// The first failure among the rows is a failure, and no row before it is
/// one.
pub proof fn lemma_first_failure(rows: Seq<Row>)
    ensures
        0 <= first_failure(rows) <= rows.len(),
        first_failure(rows) < rows.len() ==> rows[first_failure(rows)] is Failed,
        forall|i: int| 0 <= i < first_failure(rows) ==> !((#[trigger] rows[i]) is Failed),
    decreases rows.len(),
{
    if rows.len() > 0 {
        lemma_first_failure(rows.drop_last());
        assert forall|i: int| 0 <= i < first_failure(rows) implies !((#[trigger] rows[i])
            is Failed) by {
            if i < rows.len() - 1 {
                assert(rows.drop_last()[i] == rows[i]);
            }
        }
    }
}

/// A record touches no account but its own client's: transaction ids are
/// told apart per client, and an id that one client has used is still free
/// for every other.
pub proof fn lemma_clients_are_independent(
    accounts: Map<u16, AccountState>,
    tx: Transaction,
    other: u16,
)
    requires
        other != tx.client_id,
    ensures
        route(accounts, tx).contains_key(other) == accounts.contains_key(other),
        accounts.contains_key(other) ==> route(accounts, tx)[other] == accounts[other],
        route(accounts, tx)[tx.client_id] == account_for(accounts, tx.client_id).apply(tx),
{
}

/// A transaction id that one client has used is free for another: the
/// first deposit of a client is booked under its id, whichever other
/// clients have stored that id, and their accounts are left as they were.
pub proof fn lemma_same_id_under_another_client(
    accounts: Map<u16, AccountState>,
    tx: Transaction,
    other: u16,
)
    requires
        other != tx.client_id,
        accounts.contains_key(other),
        accounts[other].txs.contains_key(tx.tx_id),
        !accounts.contains_key(tx.client_id),
        tx.tx_type == TransactionType::Deposit,
        tx.wf(),
        tx.amount matches Some(amount) && amount.value() > 0,
    ensures
        route(accounts, tx)[other] == accounts[other],
        route(accounts, tx)[tx.client_id].txs.contains_key(tx.tx_id),
        route(accounts, tx)[tx.client_id].available == tx.amount->0.value(),
        route(accounts, tx)[tx.client_id].total == tx.amount->0.value(),
{
    tx.amount->0.lemma_representable();
}

/// The report holds every account once: the client ids it goes by are in
/// strictly ascending order, and a client is among them exactly when it
/// has an account.
pub proof fn lemma_clients_hold_each_account_once(accounts: Map<u16, AccountState>, bound: int)
    requires
        0 <= bound <= u16::MAX + 1,
    ensures
        forall|i: int, j: int|
            0 <= i < j < clients(accounts, bound).len() ==> (#[trigger] clients(accounts, bound)[i])
                < (#[trigger] clients(accounts, bound)[j]),
        forall|i: int|
            0 <= i < clients(accounts, bound).len() ==> (#[trigger] clients(accounts, bound)[i])
                < bound && accounts.contains_key(clients(accounts, bound)[i]),
        forall|client: u16|
            client < bound && #[trigger] accounts.contains_key(client) ==> clients(
                accounts,
                bound,
            ).contains(client),
    decreases bound,
{
    if bound > 0 {
        lemma_clients_hold_each_account_once(accounts, bound - 1);
        let last = (bound - 1) as u16;
        let shorter = clients(accounts, bound - 1);
        let all = clients(accounts, bound);
        assert forall|client: u16| client < bound && #[trigger] accounts.contains_key(
            client,
        ) implies all.contains(client) by {
            if client == last {
                assert(all[all.len() - 1] == client);
            } else {
                assert(shorter.contains(client));
                let i = choose|i: int| 0 <= i < shorter.len() && shorter[i] == client;
                assert(all[i] == client);
            }
        }
    }
}

} // verus!
