//! Transaction records, and one client's account with its state machine.

use crate::money::{
    in_range, lemma_zero_representable, pow10, representable, toward_zero, Money, MAX_SCALE,
};
use crate::text::{lowercase, lowercase_of};
use std::collections::HashMap;
use vstd::prelude::*;
use vstd::string::StringExecFns;

verus! {

/// The kinds of record the engine handles.
#[derive(Clone, Copy, Debug, PartialEq, Eq, Structural)]
pub enum TransactionType {
    /// A credit to the client's account.
    Deposit,
    /// A debit to the client's account, possible only against available funds.
    Withdrawal,
    /// A claim that a stored transaction was erroneous; freezes its amount.
    Dispute,
    /// Settles a dispute and releases the frozen amount.
    Resolve,
    /// Reverses a disputed transaction and locks the account.
    Chargeback,
}

impl TransactionType {
    /// The kind that a lower-case token names.
    pub open spec fn spec_from_lowercase(token: Seq<char>) -> Option<TransactionType> {
        if token == "deposit"@ {
            Some(TransactionType::Deposit)
        } else if token == "withdrawal"@ {
            Some(TransactionType::Withdrawal)
        } else if token == "dispute"@ {
            Some(TransactionType::Dispute)
        } else if token == "resolve"@ {
            Some(TransactionType::Resolve)
        } else if token == "chargeback"@ {
            Some(TransactionType::Chargeback)
        } else {
            None
        }
    }

    /// The kind that a lower-case token names, if it names one.
    pub fn from_lowercase(token: &String) -> (r: Option<TransactionType>)
        ensures
            r == TransactionType::spec_from_lowercase(token@),
    {
        if *token == String::from_str("deposit") {
            Some(TransactionType::Deposit)
        } else if *token == String::from_str("withdrawal") {
            Some(TransactionType::Withdrawal)
        } else if *token == String::from_str("dispute") {
            Some(TransactionType::Dispute)
        } else if *token == String::from_str("resolve") {
            Some(TransactionType::Resolve)
        } else if *token == String::from_str("chargeback") {
            Some(TransactionType::Chargeback)
        } else {
            None
        }
    }

    /// The kind that a token names in any mix of upper and lower case.
    pub fn from_token(token: &str) -> (r: Option<TransactionType>)
        ensures
            r == TransactionType::spec_from_lowercase(lowercase_of(token@)),
    {
        let folded = lowercase(token);
        TransactionType::from_lowercase(&folded)
    }
}

/// Where a transaction stands in its lifecycle.
#[derive(Clone, Copy, Debug, PartialEq, Eq, Structural)]
pub enum TransactionStatus {
    /// Read from the input, not yet applied to an account.
    Loaded,
    /// Applied to the account's balances and stored.
    Verified,
    /// Under dispute; its amount is held.
    Disputed,
    /// A dispute settled in the client's favour; final.
    Resolved,
    /// A dispute that ended in a reversal; final.
    Chargebacked,
}

impl Default for TransactionStatus {
    fn default() -> (r: Self)
        ensures
            r == TransactionStatus::Loaded,
    {
        TransactionStatus::Loaded
    }
}

/// A single transaction record.
#[derive(Clone, Copy, Debug, PartialEq, Eq)]
pub struct Transaction {
    pub tx_type: TransactionType,
    pub client_id: u16,
    pub tx_id: u32,
    pub amount: Option<Money>,
    pub status: TransactionStatus,
}

impl Transaction {
    /// The record's amount, if present, is a valid amount.
    pub open spec fn wf(self) -> bool {
        self.amount matches Some(a) ==> a.wf()
    }

    /// This record with another lifecycle status.
    pub open spec fn with_status(self, status: TransactionStatus) -> Transaction {
        Transaction { status, ..self }
    }
}

/// The number of fractional digits that balances are reported with.
pub const OUTPUT_SCALE: u32 = 4;

/// The value `v` cut, not rounded, to `OUTPUT_SCALE` fractional digits.
pub open spec fn cut(v: int) -> int {
    toward_zero(v, pow10((MAX_SCALE - OUTPUT_SCALE) as nat)) * pow10(
        (MAX_SCALE - OUTPUT_SCALE) as nat,
    )
}

/// Whether `m` is the amount that the balance `v` is reported as: `v` cut to
/// `OUTPUT_SCALE` fractional digits, and written with that many digits, or
/// with as many as its mantissa has room for.
pub open spec fn reported_as(v: int, m: Money) -> bool {
    &&& m.wf()
    &&& m.value() == cut(v)
    &&& m.spec_scale() <= OUTPUT_SCALE
    &&& m.spec_scale() == OUTPUT_SCALE || !in_range(m.spec_mantissa() * 10)
}

/// An account's balances as they are reported.
#[derive(Clone, Copy, Debug, PartialEq, Eq)]
pub struct AccountSnapshot {
    pub client: u16,
    pub available: Money,
    pub held: Money,
    pub total: Money,
    pub locked: bool,
}

impl AccountSnapshot {
    /// Whether this is the report of the account `state`.
    pub open spec fn reports(self, state: AccountState) -> bool {
        &&& self.client == state.client_id
        &&& reported_as(state.available, self.available)
        &&& reported_as(state.held, self.held)
        &&& reported_as(state.total, self.total)
        &&& self.locked == state.locked
    }
}

/// What an account is, as a mathematical value: its balances in units of
/// 10^-28, its lock and the transactions it has stored, by transaction id.
pub struct AccountState {
    pub client_id: u16,
    pub available: int,
    pub held: int,
    pub total: int,
    pub locked: bool,
    pub txs: Map<u32, Transaction>,
}

impl AccountState {
    /// A fresh account: zero balances, unlocked, nothing stored.
    pub open spec fn new(client_id: u16) -> AccountState {
        AccountState {
            client_id,
            available: 0,
            held: 0,
            total: 0,
            locked: false,
            txs: Map::empty(),
        }
    }

    /// The amount of a record that may be booked as a new transaction: the
    /// account is unlocked, the id is unused and the amount is positive.
    pub open spec fn bookable(self, tx: Transaction) -> Option<int> {
        if !self.locked && !self.txs.contains_key(tx.tx_id) && tx.amount is Some
            && tx.amount->0.value() > 0 {
            Some(tx.amount->0.value())
        } else {
            None
        }
    }

    /// The amount of the stored transaction that a record refers to, when
    /// the account is unlocked and that transaction has the given status.
    pub open spec fn referred(self, tx: Transaction, status: TransactionStatus) -> Option<int> {
        if !self.locked && self.txs.contains_key(tx.tx_id) && self.txs[tx.tx_id].status == status
            && self.txs[tx.tx_id].amount is Some {
            Some(self.txs[tx.tx_id].amount->0.value())
        } else {
            None
        }
    }

    /// The stored transactions with the one a record refers to moved to
    /// `status`.
    pub open spec fn restamped(self, tx: Transaction, status: TransactionStatus) -> Map<
        u32,
        Transaction,
    > {
        self.txs.insert(tx.tx_id, self.txs[tx.tx_id].with_status(status))
    }

    /// A deposit credits `available` and `total` and stores the record as
    /// verified. Beyond the guards of `bookable` it takes effect only if
    /// both new balances are representable: a balance is never rounded.
    pub open spec fn deposit(self, tx: Transaction) -> AccountState {
        match self.bookable(tx) {
            Some(amount) if representable(self.total + amount) && representable(
                self.available + amount,
            ) => {
                AccountState {
                    total: self.total + amount,
                    available: self.available + amount,
                    txs: self.txs.insert(tx.tx_id, tx.with_status(TransactionStatus::Verified)),
                    ..self
                }
            },
            _ => self,
        }
    }

    /// A withdrawal debits `available` and `total`, if `available` covers
    /// it, and stores the record as verified. Beyond the guards of
    /// `bookable` and the cover it takes effect only if both new balances
    /// are representable.
    pub open spec fn withdrawal(self, tx: Transaction) -> AccountState {
        match self.bookable(tx) {
            Some(amount) if self.available >= amount && representable(self.total - amount)
                && representable(self.available - amount) => {
                AccountState {
                    total: self.total - amount,
                    available: self.available - amount,
                    txs: self.txs.insert(tx.tx_id, tx.with_status(TransactionStatus::Verified)),
                    ..self
                }
            },
            _ => self,
        }
    }

    /// A dispute moves the amount of a verified transaction from
    /// `available` to `held`, if `available` covers it. Beyond the guards
    /// of `referred` and the cover it takes effect only if both new
    /// balances are representable.
    pub open spec fn dispute(self, tx: Transaction) -> AccountState {
        match self.referred(tx, TransactionStatus::Verified) {
            Some(amount) if self.available >= amount && representable(self.available - amount)
                && representable(self.held + amount) => {
                AccountState {
                    available: self.available - amount,
                    held: self.held + amount,
                    txs: self.restamped(tx, TransactionStatus::Disputed),
                    ..self
                }
            },
            _ => self,
        }
    }

    /// A resolve moves the amount of a disputed transaction back from
    /// `held` to `available`, if `held` covers it. Beyond the guards of
    /// `referred` and the cover it takes effect only if both new balances
    /// are representable.
    pub open spec fn resolve(self, tx: Transaction) -> AccountState {
        match self.referred(tx, TransactionStatus::Disputed) {
            Some(amount) if self.held >= amount && representable(self.available + amount)
                && representable(self.held - amount) => {
                AccountState {
                    available: self.available + amount,
                    held: self.held - amount,
                    txs: self.restamped(tx, TransactionStatus::Resolved),
                    ..self
                }
            },
            _ => self,
        }
    }

    /// A chargeback removes the held amount of a disputed transaction from
    /// the account and locks it, if `held` covers the amount. Beyond the
    /// guards of `referred` and the cover it takes effect only if both new
    /// balances are representable.
    pub open spec fn chargeback(self, tx: Transaction) -> AccountState {
        match self.referred(tx, TransactionStatus::Disputed) {
            Some(amount) if self.held >= amount && representable(self.total - amount)
                && representable(self.held - amount) => {
                AccountState {
                    total: self.total - amount,
                    held: self.held - amount,
                    locked: true,
                    txs: self.restamped(tx, TransactionStatus::Chargebacked),
                    ..self
                }
            },
            _ => self,
        }
    }

    /// The account after one record: the transition of the record's kind
    /// where its guards hold, the account unchanged where they do not. One
    /// guard is common to the five kinds: the balances that the record
    /// would leave must be representable, each the value of some amount.
    /// For balances of at most four fractional digits and a magnitude below
    /// 7.9 * 10^24 it always holds (`lemma_representable_within`).
    pub open spec fn apply(self, tx: Transaction) -> AccountState {
        match tx.tx_type {
            TransactionType::Deposit => self.deposit(tx),
            TransactionType::Withdrawal => self.withdrawal(tx),
            TransactionType::Dispute => self.dispute(tx),
            TransactionType::Resolve => self.resolve(tx),
            TransactionType::Chargeback => self.chargeback(tx),
        }
    }

    /// The account after a sequence of records, applied first to last.
    pub open spec fn apply_all(self, records: Seq<Transaction>) -> AccountState
        decreases records.len(),
    {
        if records.len() == 0 {
            self
        } else {
            self.apply_all(records.drop_last()).apply(records.last())
        }
    }

    /// Each balance is the value of some amount, and every stored
    /// transaction is a booked one: filed under its own id, past the loaded
    /// status, with a valid positive amount.
    pub open spec fn wf(self) -> bool {
        &&& representable(self.available)
        &&& representable(self.held)
        &&& representable(self.total)
        &&& forall|id: u32| #[trigger]
            self.txs.contains_key(id) ==> {
                &&& self.txs[id].tx_id == id
                &&& self.txs[id].status != TransactionStatus::Loaded
                &&& self.txs[id].amount is Some
                &&& self.txs[id].amount->0.wf()
                &&& self.txs[id].amount->0.value() > 0
            }
    }

    /// The balance invariant: `total` is `available` plus `held`, and
    /// neither of the two is negative.
    pub open spec fn balanced(self) -> bool {
        &&& self.total == self.available + self.held
        &&& self.held >= 0
        &&& self.available >= 0
    }

    /// Whether the three balances of the two states are equal.
    pub open spec fn same_balances(self, other: AccountState) -> bool {
        &&& self.available == other.available
        &&& self.held == other.held
        &&& self.total == other.total
    }

    /// A fresh account is well formed, balanced and unlocked.
    pub proof fn lemma_new(client_id: u16)
        ensures
            AccountState::new(client_id).wf(),
            AccountState::new(client_id).balanced(),
            !AccountState::new(client_id).locked,
            AccountState::new(client_id).client_id == client_id,
    {
        lemma_zero_representable();
    }

    /// Every record keeps an account well formed and balanced, and never
    /// changes whose account it is.
    pub proof fn lemma_apply_keeps_invariant(self, tx: Transaction)
        requires
            self.wf(),
            self.balanced(),
            tx.wf(),
        ensures
            self.apply(tx).wf(),
            self.apply(tx).balanced(),
            self.apply(tx).client_id == self.client_id,
    {
        let after = self.apply(tx);
        if after != self {
            assert forall|id: u32| #[trigger] after.txs.contains_key(id) implies {
                &&& after.txs[id].tx_id == id
                &&& after.txs[id].status != TransactionStatus::Loaded
                &&& after.txs[id].amount is Some
                &&& after.txs[id].amount->0.wf()
                &&& after.txs[id].amount->0.value() > 0
            } by {
                if id != tx.tx_id {
                    assert(self.txs.contains_key(id));
                }
            }
        }
    }
}

/// One client's account: three running balances, a lock, and the verified
/// transactions by id.
#[derive(Debug)]
pub struct ClientAccount {
    pub client_id: u16,
    pub available: Money,
    pub held: Money,
    pub total: Money,
    pub locked: bool,
    txs: HashMap<u32, Transaction>,
}

impl View for ClientAccount {
    type V = AccountState;

    closed spec fn view(&self) -> AccountState {
        AccountState {
            client_id: self.client_id,
            available: self.available.value(),
            held: self.held.value(),
            total: self.total.value(),
            locked: self.locked,
            txs: self.txs@,
        }
    }
}

impl ClientAccount {
    /// A fresh account for `client_id`.
    pub fn new(client_id: u16) -> (r: Self)
        ensures
            r@ == AccountState::new(client_id),
            r@.wf(),
            r@.balanced(),
    {
        proof {
            AccountState::lemma_new(client_id);
        }
        ClientAccount {
            client_id,
            available: Money::zero(),
            held: Money::zero(),
            total: Money::zero(),
            locked: false,
            txs: HashMap::new(),
        }
    }

    /// The client that the account belongs to.
    pub fn client_id(&self) -> (r: u16)
        ensures
            r == self@.client_id,
    {
        self.client_id
    }

    /// The balance that the client may withdraw.
    pub fn available(&self) -> (r: Money)
        ensures
            r.wf(),
            r.value() == self@.available,
    {
        proof {
            use_type_invariant(self.available);
        }
        self.available
    }

    /// The balance that disputes hold back.
    pub fn held(&self) -> (r: Money)
        ensures
            r.wf(),
            r.value() == self@.held,
    {
        proof {
            use_type_invariant(self.held);
        }
        self.held
    }

    /// The whole balance.
    pub fn total(&self) -> (r: Money)
        ensures
            r.wf(),
            r.value() == self@.total,
    {
        proof {
            use_type_invariant(self.total);
        }
        self.total
    }

    /// Whether a chargeback has locked the account.
    pub fn locked(&self) -> (r: bool)
        ensures
            r == self@.locked,
    {
        self.locked
    }

    /// The account as it is reported: its balances cut, not rounded, to
    /// `OUTPUT_SCALE` fractional digits.
    pub fn snapshot(&self) -> (r: AccountSnapshot)
        ensures
            r.reports(self@),
    {
        AccountSnapshot {
            client: self.client_id,
            available: self.available.trunc_with_scale(OUTPUT_SCALE),
            held: self.held.trunc_with_scale(OUTPUT_SCALE),
            total: self.total.trunc_with_scale(OUTPUT_SCALE),
            locked: self.locked,
        }
    }

    /// Advances the account by one record. A record whose guards fail
    /// leaves the account as it was; so does a record whose new balances
    /// no amount could hold exactly, since a balance is never rounded.
    pub fn update(&mut self, data: Transaction)
        ensures
            final(self)@ == old(self)@.apply(data),
            old(self)@.wf() && old(self)@.balanced() ==> final(self)@.wf(),
            old(self)@.wf() && old(self)@.balanced() ==> final(self)@.balanced(),
    {
        proof {
            if let Some(amount) = data.amount {
                use_type_invariant(amount);
            }
            if self@.wf() && self@.balanced() {
                self@.lemma_apply_keeps_invariant(data);
            }
        }
        match data.tx_type {
            TransactionType::Deposit => self.deposit(data),
            TransactionType::Withdrawal => self.withdrawal(data),
            TransactionType::Dispute => self.dispute(data),
            TransactionType::Resolve => self.resolve(data),
            TransactionType::Chargeback => self.chargeback(data),
        }
    }

    /// The amount of `data` if it may be booked as a new transaction.
    fn bookable(&self, data: &Transaction) -> (r: Option<Money>)
        ensures
            match r {
                Some(amount) => self@.bookable(*data) == Some(amount.value()),
                None => self@.bookable(*data) is None,
            },
    {
        if self.locked || self.txs.contains_key(&data.tx_id) {
            return None;
        }
        match data.amount {
            Some(amount) => {
                if amount.is_positive() {
                    Some(amount)
                } else {
                    None
                }
            },
            None => None,
        }
    }

    /// The amount of the stored transaction that `data` refers to, if the
    /// account is unlocked and that transaction has the given status.
    fn referred(&self, data: &Transaction, status: TransactionStatus) -> (r: Option<Money>)
        ensures
            match r {
                Some(amount) => self@.referred(*data, status) == Some(amount.value()),
                None => self@.referred(*data, status) is None,
            },
    {
        if self.locked {
            return None;
        }
        match self.txs.get(&data.tx_id) {
            Some(stored) => {
                if stored.status == status {
                    stored.amount
                } else {
                    None
                }
            },
            None => None,
        }
    }

    /// Moves the stored transaction that `data` refers to to `status`.
    fn restamp(&mut self, data: &Transaction, status: TransactionStatus)
        requires
            old(self)@.txs.contains_key(data.tx_id),
        ensures
            final(self)@ == (AccountState { txs: old(self)@.restamped(*data, status), ..old(self)@ }),
    {
        let stored = match self.txs.get(&data.tx_id) {
            Some(stored) => *stored,
            None => *data,
        };
        self.txs.insert(
            data.tx_id,
            Transaction {
                tx_type: stored.tx_type,
                client_id: stored.client_id,
                tx_id: stored.tx_id,
                amount: stored.amount,
                status,
            },
        );
    }

    fn deposit(&mut self, data: Transaction)
        ensures
            final(self)@ == old(self)@.deposit(data),
    {
        if let Some(amount) = self.bookable(&data) {
            if let Some(total) = self.total.checked_add(amount) {
                if let Some(available) = self.available.checked_add(amount) {
                    self.total = total;
                    self.available = available;
                    self.txs.insert(
                        data.tx_id,
                        Transaction {
                            tx_type: data.tx_type,
                            client_id: data.client_id,
                            tx_id: data.tx_id,
                            amount: data.amount,
                            status: TransactionStatus::Verified,
                        },
                    );
                }
            }
        }
    }

    fn withdrawal(&mut self, data: Transaction)
        ensures
            final(self)@ == old(self)@.withdrawal(data),
    {
        if let Some(amount) = self.bookable(&data) {
            if self.available.ge(amount) {
                if let Some(total) = self.total.checked_sub(amount) {
                    if let Some(available) = self.available.checked_sub(amount) {
                        self.total = total;
                        self.available = available;
                        self.txs.insert(
                            data.tx_id,
                            Transaction {
                                tx_type: data.tx_type,
                                client_id: data.client_id,
                                tx_id: data.tx_id,
                                amount: data.amount,
                                status: TransactionStatus::Verified,
                            },
                        );
                    }
                }
            }
        }
    }

    fn dispute(&mut self, data: Transaction)
        ensures
            final(self)@ == old(self)@.dispute(data),
    {
        if let Some(amount) = self.referred(&data, TransactionStatus::Verified) {
            if self.available.ge(amount) {
                if let Some(available) = self.available.checked_sub(amount) {
                    if let Some(held) = self.held.checked_add(amount) {
                        self.available = available;
                        self.held = held;
                        self.restamp(&data, TransactionStatus::Disputed);
                    }
                }
            }
        }
    }

    fn resolve(&mut self, data: Transaction)
        ensures
            final(self)@ == old(self)@.resolve(data),
    {
        if let Some(amount) = self.referred(&data, TransactionStatus::Disputed) {
            if self.held.ge(amount) {
                if let Some(available) = self.available.checked_add(amount) {
                    if let Some(held) = self.held.checked_sub(amount) {
                        self.available = available;
                        self.held = held;
                        self.restamp(&data, TransactionStatus::Resolved);
                    }
                }
            }
        }
    }

    fn chargeback(&mut self, data: Transaction)
        ensures
            final(self)@ == old(self)@.chargeback(data),
    {
        if let Some(amount) = self.referred(&data, TransactionStatus::Disputed) {
            if self.held.ge(amount) {
                if let Some(total) = self.total.checked_sub(amount) {
                    if let Some(held) = self.held.checked_sub(amount) {
                        self.total = total;
                        self.held = held;
                        self.locked = true;
                        self.restamp(&data, TransactionStatus::Chargebacked);
                    }
                }
            }
        }
    }
}

} // verus!
