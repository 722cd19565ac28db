//! The ledger: every client's account, driven by the input in its order.

use crate::error::EngineError;
use crate::model::{AccountSnapshot, AccountState, ClientAccount, Transaction};
use std::collections::HashMap;
use vstd::prelude::*;

verus! {

/// The accounts of a ledger as mathematical values, by client id.
pub open spec fn states(accounts: Map<u16, ClientAccount>) -> Map<u16, AccountState> {
    Map::new(|client: u16| accounts.contains_key(client), |client: u16| accounts[client]@)
}

/// The account a record is routed to: the client's own, or a fresh one on
/// the first record that names the client.
pub open spec fn account_for(accounts: Map<u16, AccountState>, client: u16) -> AccountState {
    if accounts.contains_key(client) {
        accounts[client]
    } else {
        AccountState::new(client)
    }
}

/// The ledger after one record: the record's client has its account
/// advanced by the record, every other account is untouched.
pub open spec fn route(accounts: Map<u16, AccountState>, tx: Transaction) -> Map<
    u16,
    AccountState,
> {
    accounts.insert(tx.client_id, account_for(accounts, tx.client_id).apply(tx))
}

/// Every account of the ledger is well formed, balanced, and filed under
/// its own client id.
pub open spec fn ledger_sound(accounts: Map<u16, AccountState>) -> bool {
    forall|client: u16| #[trigger]
        accounts.contains_key(client) ==> accounts[client].wf() && accounts[client].balanced()
            && accounts[client].client_id == client
}

/// Routing a record keeps every account of the ledger well formed,
/// balanced, and filed under its own client id.
pub proof fn lemma_route_keeps_sound(accounts: Map<u16, AccountState>, tx: Transaction)
    requires
        ledger_sound(accounts),
        tx.wf(),
    ensures
        ledger_sound(route(accounts, tx)),
{
    AccountState::lemma_new(tx.client_id);
    account_for(accounts, tx.client_id).lemma_apply_keeps_invariant(tx);
    assert forall|client: u16| #[trigger] route(accounts, tx).contains_key(client) implies route(
        accounts,
        tx,
    )[client].wf() && route(accounts, tx)[client].balanced() && route(
        accounts,
        tx,
    )[client].client_id == client by {
        if client != tx.client_id {
            assert(accounts.contains_key(client));
        }
    }
}

/// What the decoder made of one row of the input.
#[derive(Debug)]
pub enum Row {
    /// A record.
    Record(Transaction),
    /// A row whose fields make no record, such as one with an ill-formed
    /// amount. It is skipped.
    IllFormed,
    /// The stream failed at this row. The run ends here.
    Failed(EngineError),
}

/// The ledger after one row: a record is routed to its client's account,
/// any other row changes nothing.
pub open spec fn advance(accounts: Map<u16, AccountState>, row: Row) -> Map<u16, AccountState> {
    match row {
        Row::Record(tx) => route(accounts, tx),
        _ => accounts,
    }
}

/// The ledger after a sequence of rows, taken first to last.
pub open spec fn run(accounts: Map<u16, AccountState>, rows: Seq<Row>) -> Map<u16, AccountState>
    decreases rows.len(),
{
    if rows.len() == 0 {
        accounts
    } else {
        advance(run(accounts, rows.drop_last()), rows.last())
    }
}

/// The place of the first failure among the rows, or their number if
/// there is none.
pub open spec fn first_failure(rows: Seq<Row>) -> int
    decreases rows.len(),
{
    if rows.len() == 0 {
        0
    } else if first_failure(rows.drop_last()) < rows.len() - 1 {
        first_failure(rows.drop_last())
    } else if rows.last() is Failed {
        rows.len() - 1
    } else {
        rows.len() as int
    }
}

/// What a run over the rows returns: the first failure among them, or
/// without one the ledger after the last row.
pub open spec fn outcome(rows: Seq<Row>) -> Result<Map<u16, AccountState>, EngineError> {
    if first_failure(rows) < rows.len() {
        Err(rows[first_failure(rows)]->Failed_0)
    } else {
        Ok(run(Map::empty(), rows))
    }
}

/// Advances the ledger by one record.
pub fn apply_record(accounts: &mut HashMap<u16, ClientAccount>, record: Transaction)
    ensures
        states(final(accounts)@) == route(states(old(accounts)@), record),
        ledger_sound(states(old(accounts)@)) ==> ledger_sound(states(final(accounts)@)),
{
    proof {
        if let Some(amount) = record.amount {
            use_type_invariant(amount);
        }
        if ledger_sound(states(accounts@)) {
            lemma_route_keeps_sound(states(accounts@), record);
        }
    }
    let mut account = match accounts.remove(&record.client_id) {
        Some(account) => account,
        None => ClientAccount::new(record.client_id),
    };
    account.update(record);
    accounts.insert(record.client_id, account);
    assert(states(accounts@) =~= route(states(old(accounts)@), record));
}

/// Takes one row of the input: advances the ledger by a record, skips an
/// ill-formed row, and hands back the failure of a failed one, on which the
/// caller is to stop.
pub fn apply_row(accounts: &mut HashMap<u16, ClientAccount>, row: Row) -> (r: Result<
    (),
    EngineError,
>)
    ensures
        states(final(accounts)@) == advance(states(old(accounts)@), row),
        ledger_sound(states(old(accounts)@)) ==> ledger_sound(states(final(accounts)@)),
        match row {
            Row::Failed(failure) => r == Err::<(), EngineError>(failure),
            _ => r is Ok,
        },
{
    match row {
        Row::Record(record) => {
            apply_record(accounts, record);
            Ok(())
        },
        Row::IllFormed => Ok(()),
        Row::Failed(failure) => Err(failure),
    }
}

/// Runs the rows through a new ledger, in their order. The run stops at
/// the first failure among them and returns it; without one it returns the
/// accounts as they stand after the last row.
pub fn process_transactions(input: &Vec<Row>) -> (r: Result<
    HashMap<u16, ClientAccount>,
    EngineError,
>)
    ensures
        match r {
            Ok(accounts) => outcome(input@) == Ok::<Map<u16, AccountState>, EngineError>(
                states(accounts@),
            ) && ledger_sound(states(accounts@)),
            Err(failure) => outcome(input@) == Err::<Map<u16, AccountState>, EngineError>(failure),
        },
{
    let mut accounts: HashMap<u16, ClientAccount> = HashMap::new();
    let mut i: usize = 0;
    assert(states(accounts@) =~= Map::empty());
    assert(input@.take(0) =~= Seq::empty());
    while i < input.len()
        invariant
            i <= input@.len(),
            first_failure(input@.take(i as int)) == i,
            states(accounts@) == run(Map::empty(), input@.take(i as int)),
            ledger_sound(states(accounts@)),
        decreases input@.len() - i,
    {
        proof {
            assert(input@.take(i + 1).drop_last() =~= input@.take(i as int));
        }
        match &input[i] {
            Row::Record(record) => {
                apply_record(&mut accounts, *record);
            },
            Row::IllFormed => {},
            Row::Failed(failure) => {
                proof {
                    lemma_failure_stays(input@, i + 1);
                }
                return Err(failure.duplicate());
            },
        }
        i = i + 1;
    }
    assert(input@.take(i as int) =~= input@);
    Ok(accounts)
}

/// A failure among the first `n` rows is the first failure of all the rows.
pub proof fn lemma_failure_stays(rows: Seq<Row>, n: int)
    requires
        0 <= n <= rows.len(),
        first_failure(rows.take(n)) < n,
    ensures
        first_failure(rows) == first_failure(rows.take(n)),
    decreases rows.len() - n,
{
    if n < rows.len() {
        assert(rows.take(n + 1).drop_last() =~= rows.take(n));
        lemma_failure_stays(rows, n + 1);
    } else {
        assert(rows.take(n) =~= rows);
    }
}

/// The client ids below `bound` that have an account, in ascending order.
pub open spec fn clients(accounts: Map<u16, AccountState>, bound: int) -> Seq<u16>
    decreases bound,
{
    if bound <= 0 {
        Seq::empty()
    } else if accounts.contains_key((bound - 1) as u16) {
        clients(accounts, bound - 1).push((bound - 1) as u16)
    } else {
        clients(accounts, bound - 1)
    }
}

/// The report of every account, each exactly once, by ascending client id.
pub fn snapshots(accounts: &HashMap<u16, ClientAccount>) -> (r: Vec<AccountSnapshot>)
    ensures
        r@.len() == clients(states(accounts@), u16::MAX + 1).len(),
        forall|i: int|
            0 <= i < r@.len() ==> (#[trigger] r@[i]).reports(
                states(accounts@)[clients(states(accounts@), u16::MAX + 1)[i]],
            ),
{
    let mut out: Vec<AccountSnapshot> = Vec::new();
    let mut next: u32 = 0;
    while next <= 0xffff
        invariant
            next <= 0x1_0000,
            out@.len() == clients(states(accounts@), next as int).len(),
            forall|i: int|
                0 <= i < out@.len() ==> (#[trigger] out@[i]).reports(
                    states(accounts@)[clients(states(accounts@), next as int)[i]],
                ),
        decreases 0x1_0000 - next,
    {
        let client: u16 = next as u16;
        match accounts.get(&client) {
            Some(account) => {
                out.push(account.snapshot());
            },
            None => {},
        }
        next = next + 1;
    }
    out
}

} // verus!
