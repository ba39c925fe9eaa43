//! The ledger as a mathematical value: what the store holds and how each
//! statement changes it.

use vstd::prelude::*;
use crate::error::{Error, StoreFault};
use crate::key::Key;
use crate::payment::{amount_error, ACCOUNT};
use crate::registration::PERSON;
use crate::types::PersonInfo;
use crate::store::{StoreAction, StoreReply, TransferRecord};

verus! {

/// What the store holds. Accounts are named by the bits of their keys.
pub struct LedgerState {
    /// The balance of each account.
    pub balances: Map<u128, i64>,
    /// The account of each platform identifier that is registered.
    pub persons: Map<u64, u128>,
    /// The transfer log, oldest record first.
    pub log: Seq<TransferRecord>,
}

/// Whether a number fits a balance.
pub open spec fn in_range(v: int) -> bool {
    i64::MIN <= v <= i64::MAX
}

impl LedgerState {
    /// The store with nothing in it.
    pub open spec fn empty() -> LedgerState {
        LedgerState { balances: Map::empty(), persons: Map::empty(), log: Seq::empty() }
    }

    /// Whether some platform identifier is bound to the account.
    pub open spec fn is_owned(self, account: u128) -> bool {
        exists|d: u64| #[trigger] self.persons.contains_key(d) && self.persons[d] == account
    }

    /// Whether the log holds a record with this key.
    pub open spec fn has_record(self, id: Key) -> bool {
        exists|i: int| 0 <= i < self.log.len() && (#[trigger] self.log[i]).id == id
    }

    /// What the store keeps true of itself: an account belongs to at most
    /// one platform identifier, every registered identifier has an
    /// account, and no two records share a key.
    pub open spec fn wf(self) -> bool {
        &&& forall|d1: u64, d2: u64|
            #[trigger] self.persons.contains_key(d1) && #[trigger] self.persons.contains_key(d2)
                && self.persons[d1] == self.persons[d2] ==> d1 == d2
        &&& forall|d: u64| #[trigger]
            self.persons.contains_key(d) ==> self.balances.contains_key(self.persons[d])
        &&& forall|i: int, j: int|
            0 <= i < j < self.log.len() ==> (#[trigger] self.log[i]).id != (
            #[trigger] self.log[j]).id
    }

    /// The store after `delta` was added to the balance of an account
    /// that exists and can hold the sum.
    pub open spec fn with_balance(self, account: u128, delta: int) -> LedgerState
        recommends
            self.balances.contains_key(account),
            in_range(self.balances[account] + delta),
    {
        LedgerState {
            balances: self.balances.insert(account, (self.balances[account] + delta) as i64),
            ..self
        }
    }

    /// What a change of balance does: nothing to an account that is not
    /// there, a fault where the sum leaves the range, the sum elsewhere.
    pub open spec fn adjust(self, account: u128, delta: int) -> (LedgerState, StoreReply) {
        if !self.balances.contains_key(account) {
            (self, StoreReply::Done { rows: 0 })
        } else if !in_range(self.balances[account] + delta) {
            (self, StoreReply::Failed(StoreFault::OutOfRange))
        } else {
            (self.with_balance(account, delta), StoreReply::Done { rows: 1 })
        }
    }

    /// What the store holds after a statement, and what it answers.
    pub open spec fn answer(self, action: StoreAction) -> (LedgerState, StoreReply) {
        match action {
            StoreAction::Begin => (self, StoreReply::Done { rows: 0 }),
            StoreAction::Commit => (self, StoreReply::Done { rows: 0 }),
            StoreAction::ReadBalance { account } => (
                self,
                StoreReply::Balance(
                    if self.balances.contains_key(account.bits) {
                        Some(self.balances[account.bits])
                    } else {
                        None
                    },
                ),
            ),
            StoreAction::Debit { account, amount } => self.adjust(account.bits, -amount),
            StoreAction::Credit { account, amount } => self.adjust(account.bits, amount as int),
            StoreAction::InsertAccount { id } => if self.balances.contains_key(id.bits) {
                (self, StoreReply::Failed(StoreFault::UniqueViolation))
            } else {
                (
                    LedgerState { balances: self.balances.insert(id.bits, 0), ..self },
                    StoreReply::Done { rows: 1 },
                )
            },
            StoreAction::InsertPerson { id, discord_id } => if self.persons.contains_key(
                discord_id,
            ) || self.is_owned(id.bits) {
                (self, StoreReply::Failed(StoreFault::UniqueViolation))
            } else if !self.balances.contains_key(id.bits) {
                (self, StoreReply::Failed(StoreFault::Other))
            } else {
                (
                    LedgerState { persons: self.persons.insert(discord_id, id.bits), ..self },
                    StoreReply::Done { rows: 1 },
                )
            },
            StoreAction::InsertTransfer { record } => if self.has_record(record.id) {
                (self, StoreReply::Failed(StoreFault::UniqueViolation))
            } else {
                (LedgerState { log: self.log.push(record), ..self }, StoreReply::Done { rows: 1 })
            },
        }
    }

    /// A change of balance leaves a well-formed store well formed.
    pub proof fn lemma_adjust_wf(self, account: u128, delta: int)
        requires
            self.wf(),
        ensures
            self.adjust(account, delta).0.wf(),
    {
        let after = self.adjust(account, delta).0;
        assert(after.persons == self.persons);
        assert(after.log == self.log);
        assert forall|d: u64| #[trigger] after.persons.contains_key(d) implies after.balances.contains_key(
            after.persons[d],
        ) by {
            assert(self.balances.contains_key(self.persons[d]));
        }
    }

    /// Every statement leaves a well-formed store well formed.
    pub proof fn lemma_answer_wf(self, action: StoreAction)
        requires
            self.wf(),
        ensures
            self.answer(action).0.wf(),
    {
        let after = self.answer(action).0;
        assert forall|d1: u64, d2: u64|
            #[trigger] after.persons.contains_key(d1) && #[trigger] after.persons.contains_key(d2)
                && after.persons[d1] == after.persons[d2] implies d1 == d2 by {
            match action {
                StoreAction::InsertPerson { id, discord_id } => {
                    if after != self {
                        if d1 != discord_id && d2 != discord_id {
                            assert(self.persons.contains_key(d1));
                            assert(self.persons.contains_key(d2));
                        } else if d1 != discord_id {
                            assert(self.persons.contains_key(d1));
                            assert(self.is_owned(id.bits));
                        } else if d2 != discord_id {
                            assert(self.persons.contains_key(d2));
                            assert(self.is_owned(id.bits));
                        }
                    }
                },
                _ => {
                    assert(after.persons == self.persons);
                    assert(self.persons.contains_key(d1));
                    assert(self.persons.contains_key(d2));
                },
            }
        }
        assert forall|d: u64| #[trigger] after.persons.contains_key(d) implies after.balances.contains_key(
            after.persons[d],
        ) by {
            match action {
                StoreAction::InsertPerson { id, discord_id } => {
                    if d != discord_id {
                        assert(self.persons.contains_key(d));
                    }
                },
                _ => {
                    assert(after.persons == self.persons);
                    assert(self.persons.contains_key(d));
                    assert(self.balances.contains_key(self.persons[d]));
                },
            }
        }
        assert forall|i: int, j: int| 0 <= i < j < after.log.len() implies (#[trigger] after.log[i]).id
            != (#[trigger] after.log[j]).id by {
            match action {
                StoreAction::InsertTransfer { record } => {
                    if after != self {
                        assert(after.log[i] == self.log[i]);
                        if j < self.log.len() {
                            assert(after.log[j] == self.log[j]);
                        } else {
                            assert(!self.has_record(record.id));
                        }
                    }
                },
                _ => {
                    assert(after.log == self.log);
                },
            }
        }
    }

    /// What a registration does to the store, taken as one step, and how
    /// it ends. Unless all of it succeeds the store is as before. The key
    /// must be new, and the platform identifier not yet bound. Then the
    /// key names an account with nothing on it, and the identifier is
    /// bound to it.
    pub open spec fn register(self, discord_id: u64, id: Key) -> (LedgerState, Result<(), Error>) {
        if self.balances.contains_key(id.bits) {
            (self, Err(Error::Database(StoreFault::UniqueViolation)))
        } else if self.persons.contains_key(discord_id) {
            (self, Err(Error::AlreadyExists(PERSON)))
        } else {
            (self.registered(discord_id, id), Ok(()))
        }
    }

    /// The store after a registration that succeeded: the key names an
    /// account with nothing on it, and the platform identifier is bound to
    /// it.
    pub open spec fn registered(self, discord_id: u64, id: Key) -> LedgerState {
        LedgerState {
            balances: self.balances.insert(id.bits, 0),
            persons: self.persons.insert(discord_id, id.bits),
            ..self
        }
    }

    /// The account that a platform identifier is bound to.
    pub open spec fn resolve(self, discord_id: u64) -> Result<Key, Error> {
        if self.persons.contains_key(discord_id) {
            Ok(Key { bits: self.persons[discord_id] })
        } else {
            Err(Error::NotFound(PERSON))
        }
    }

    /// The platform identifier that is bound to an account.
    pub open spec fn owner(self, account: u128) -> u64
        recommends
            self.is_owned(account),
    {
        choose|d: u64| #[trigger] self.persons.contains_key(d) && self.persons[d] == account
    }

    /// What is known of the person behind an account.
    pub open spec fn person(self, id: Key) -> Result<PersonInfo, Error> {
        if self.is_owned(id.bits) && self.balances.contains_key(id.bits) {
            Ok(PersonInfo { discord_id: self.owner(id.bits), balance: self.balances[id.bits] })
        } else {
            Err(Error::NotFound(PERSON))
        }
    }

    /// The balance of an account.
    pub open spec fn balance(self, id: Key) -> Result<i64, Error> {
        if self.balances.contains_key(id.bits) {
            Ok(self.balances[id.bits])
        } else {
            Err(Error::NotFound(ACCOUNT))
        }
    }

    /// What minting does to the store, and how it ends: the amount, of
    /// either sign, is added to the account's balance whatever it holds.
    /// An account that is not there gets nothing and no error; a sum out
    /// of range is the store's fault and changes nothing.
    pub open spec fn mint(self, id: Key, amount: i64) -> (LedgerState, Result<(), Error>) {
        match self.adjust(id.bits, amount as int) {
            (after, StoreReply::Failed(fault)) => (self, Err(Error::Database(fault))),
            (after, _) => (after, Ok(())),
        }
    }

    /// Why a payment is refused whatever the key of its record is, if it
    /// is. In order: the rule on amounts is broken; the payer does not
    /// exist; the payer holds less than the amount; the payer's new
    /// balance is out of range; the payee does not exist; the payee's new
    /// balance is out of range.
    pub open spec fn refusal(self, to: Key, from: Key, amount: i64, force: Option<bool>) -> Option<
        Error,
    > {
        if amount_error(amount, force) is Some {
            amount_error(amount, force)
        } else if !self.balances.contains_key(from.bits) {
            Some(Error::NotFound(ACCOUNT))
        } else if self.balances[from.bits] < amount {
            Some(Error::InsufficientFunds)
        } else if !in_range(self.balances[from.bits] - amount) {
            Some(Error::Database(StoreFault::OutOfRange))
        } else if !self.with_balance(from.bits, -amount).balances.contains_key(to.bits) {
            Some(Error::NotFound(ACCOUNT))
        } else if !in_range(self.with_balance(from.bits, -amount).balances[to.bits] + amount) {
            Some(Error::Database(StoreFault::OutOfRange))
        } else {
            None
        }
    }

    /// The store after a payment that nothing refuses: the amount has
    /// left the payer and reached the payee, and the record is the last of
    /// the log.
    pub open spec fn paid(self, to: Key, from: Key, amount: i64, id: Key) -> LedgerState {
        LedgerState {
            log: self.log.push(TransferRecord { id, from, to, amount }),
            ..self.with_balance(from.bits, -amount).with_balance(to.bits, amount as int)
        }
    }

    /// What a payment does to the store, taken as one step, and how it
    /// ends. Unless all of it succeeds the store is as before. A payment
    /// that is refused ends with the reason. One that is not, but whose
    /// record has a key that the log holds already, ends with the store's
    /// fault. Every other succeeds and leaves the store paid.
    pub open spec fn pay(
        self,
        to: Key,
        from: Key,
        amount: i64,
        force: Option<bool>,
        id: Key,
    ) -> (LedgerState, Result<(), Error>) {
        match self.refusal(to, from, amount, force) {
            Some(e) => (self, Err(e)),
            None => if self.has_record(id) {
                (self, Err(Error::Database(StoreFault::UniqueViolation)))
            } else {
                (self.paid(to, from, amount, id), Ok(()))
            },
        }
    }
}

} // verus!
