//! A ledger held in memory: the store of the protocols, with every
//! statement and every protocol run in one step.

use std::collections::HashMap;
use vstd::prelude::*;
use vstd::std_specs::hash::group_hash_axioms;
use crate::error::{Error, StoreFault};
use crate::key::Key;
use crate::model::LedgerState;
use crate::course::{
    bindings_left, payment_on_course, registration_on_course, statements_left,
};
use crate::key::is_time_ordered;
use crate::money::Money;
use crate::payment::{Payment, ACCOUNT};
use crate::registration::{Registration, RegistrationPhase, PERSON};
use crate::types::PersonInfo;
use crate::store::{Progress, StoreAction, StoreReply, TransferRecord};

verus! {

broadcast use group_hash_axioms;

/// A ledger in memory.
pub struct Ledger {
    accounts: HashMap<u128, i64>,
    persons: HashMap<u64, u128>,
    owners: HashMap<u128, u64>,
    log: Vec<TransferRecord>,
}

impl View for Ledger {
    type V = LedgerState;

    closed spec fn view(&self) -> LedgerState {
        LedgerState { balances: self.accounts@, persons: self.persons@, log: self.log@ }
    }
}

impl Ledger {
    /// Whether the ledger is in order: what it holds is well formed, and
    /// its index of owners says of each account what the persons say.
    pub closed spec fn wf(&self) -> bool {
        &&& self@.wf()
        &&& forall|d: u64| #[trigger]
            self.persons@.contains_key(d) ==> self.owners@.contains_key(self.persons@[d])
                && self.owners@[self.persons@[d]] == d
        &&& forall|k: u128| #[trigger]
            self.owners@.contains_key(k) ==> self.persons@.contains_key(self.owners@[k])
                && self.persons@[self.owners@[k]] == k
    }

    /// A ledger in order holds a well-formed state.
    pub proof fn lemma_wf_state(&self)
        requires
            self.wf(),
        ensures
            self@.wf(),
    {
    }

    /// A ledger with nothing in it.
    pub fn new() -> (ledger: Ledger)
        ensures
            ledger.wf(),
            ledger@ == LedgerState::empty(),
    {
        let ledger = Ledger {
            accounts: HashMap::new(),
            persons: HashMap::new(),
            owners: HashMap::new(),
            log: Vec::new(),
        };
        assert(ledger@.balances =~= Map::<u128, i64>::empty());
        assert(ledger@.persons =~= Map::<u64, u128>::empty());
        assert(ledger@.log =~= Seq::<TransferRecord>::empty());
        ledger
    }

    /// Whether the log holds a record with this key.
    fn has_record(&self, id: Key) -> (found: bool)
        ensures
            found == self@.has_record(id),
    {
        let mut i: usize = 0;
        while i < self.log.len()
            invariant
                i <= self.log@.len(),
                forall|j: int| 0 <= j < i ==> (#[trigger] self.log@[j]).id != id,
            decreases self.log@.len() - i,
        {
            if self.log[i].id.bits == id.bits {
                assert(self@.log[i as int].id == id);
                return true;
            }
            i += 1;
        }
        false
    }

    /// Adds `delta` to the balance of an account.
    fn adjust(&mut self, account: u128, delta: i128) -> (reply: StoreReply)
        requires
            old(self).wf(),
            i64::MIN <= delta <= -(i64::MIN as int),
        ensures
            final(self).wf(),
            (final(self)@, reply) == old(self)@.adjust(account, delta as int),
    {
        let found: Option<i64> = match self.accounts.get(&account) {
            Some(balance) => Some(*balance),
            None => None,
        };
        match found {
            None => StoreReply::Done { rows: 0 },
            Some(balance) => {
                let sum: i128 = balance as i128 + delta;
                if sum < i64::MIN as i128 || sum > i64::MAX as i128 {
                    StoreReply::Failed(StoreFault::OutOfRange)
                } else {
                    self.accounts.insert(account, sum as i64);
                    proof {
                        old(self)@.lemma_adjust_wf(account, delta as int);
                        assert(self@ == old(self)@.with_balance(account, delta as int));
                    }
                    StoreReply::Done { rows: 1 }
                }
            },
        }
    }

    /// Runs one statement on the ledger and gives the store's answer.
    pub fn perform(&mut self, action: StoreAction) -> (reply: StoreReply)
        requires
            old(self).wf(),
        ensures
            final(self).wf(),
            (final(self)@, reply) == old(self)@.answer(action),
    {
        match action {
            StoreAction::Begin => StoreReply::Done { rows: 0 },
            StoreAction::Commit => StoreReply::Done { rows: 0 },
            StoreAction::ReadBalance { account } => {
                match self.accounts.get(&account.bits) {
                    Some(balance) => StoreReply::Balance(Some(*balance)),
                    None => StoreReply::Balance(None),
                }
            },
            StoreAction::Debit { account, amount } => self.adjust(account.bits, -(amount as i128)),
            StoreAction::Credit { account, amount } => self.adjust(account.bits, amount as i128),
            StoreAction::InsertAccount { id } => {
                if self.accounts.contains_key(&id.bits) {
                    StoreReply::Failed(StoreFault::UniqueViolation)
                } else {
                    self.accounts.insert(id.bits, 0);
                    proof {
                        old(self)@.lemma_answer_wf(action);
                        assert(self@ == old(self)@.answer(action).0);
                    }
                    StoreReply::Done { rows: 1 }
                }
            },
            StoreAction::InsertPerson { id, discord_id } => {
                proof {
                    if self@.is_owned(id.bits) {
                        let d = choose|d: u64| #[trigger]
                            self@.persons.contains_key(d) && self@.persons[d] == id.bits;
                        assert(self.owners@.contains_key(id.bits));
                    }
                    if self.owners@.contains_key(id.bits) {
                        assert(self.persons@.contains_key(self.owners@[id.bits]));
                    }
                }
                if self.persons.contains_key(&discord_id) || self.owners.contains_key(&id.bits) {
                    StoreReply::Failed(StoreFault::UniqueViolation)
                } else if !self.accounts.contains_key(&id.bits) {
                    StoreReply::Failed(StoreFault::Other)
                } else {
                    self.persons.insert(discord_id, id.bits);
                    self.owners.insert(id.bits, discord_id);
                    proof {
                        old(self)@.lemma_answer_wf(action);
                        assert(self@ == old(self)@.answer(action).0);
                    }
                    StoreReply::Done { rows: 1 }
                }
            },
            StoreAction::InsertTransfer { record } => {
                if self.has_record(record.id) {
                    StoreReply::Failed(StoreFault::UniqueViolation)
                } else {
                    self.log.push(record);
                    proof {
                        old(self)@.lemma_answer_wf(action);
                        assert(self@ == old(self)@.answer(action).0);
                    }
                    StoreReply::Done { rows: 1 }
                }
            },
        }
    }

    /// The transfer log, oldest record first.
    pub fn transfers(&self) -> (log: Vec<TransferRecord>)
        ensures
            log@ == self@.log,
    {
        let mut log: Vec<TransferRecord> = Vec::new();
        let mut i: usize = 0;
        while i < self.log.len()
            invariant
                i <= self.log@.len(),
                log@ == self.log@.subrange(0, i as int),
            decreases self.log@.len() - i,
        {
            log.push(self.log[i]);
            assert(log@ =~= self.log@.subrange(0, i + 1));
            i += 1;
        }
        assert(log@ =~= self.log@);
        log
    }

    /// A copy of the ledger.
    fn snapshot(&self) -> (copy: Ledger)
        requires
            self.wf(),
        ensures
            copy.wf(),
            copy@ == self@,
    {
        Ledger {
            accounts: self.accounts.clone(),
            persons: self.persons.clone(),
            owners: self.owners.clone(),
            log: self.transfers(),
        }
    }

    /// Moves `amount` from the account `from` to the account `to` and
    /// writes the record of it under the key `id`, all or nothing.
    pub fn payment_with(
        &mut self,
        to: Key,
        from: Key,
        amount: i64,
        force: Option<bool>,
        id: Key,
    ) -> (r: Result<(), Error>)
        requires
            old(self).wf(),
        ensures
            final(self).wf(),
            (final(self)@, r) == old(self)@.pay(to, from, amount, force, id),
    {
        let mut work = self.snapshot();
        let (mut payment, mut progress) = Payment::start(to, from, amount, force, id);
        loop
            invariant
                work.wf(),
                self.wf(),
                self@ == old(self)@,
                payment.to == to,
                payment.from == from,
                payment.amount == amount,
                payment.id == id,
                payment_on_course(self@, work@, payment, progress, force),
            decreases statements_left(payment.phase),
        {
            match progress {
                Progress::Finished(r) => {
                    if r.is_ok() {
                        *self = work;
                    }
                    return r;
                },
                Progress::Perform(action) => {
                    let reply = work.perform(action);
                    let (next, wanted) = payment.next(reply);
                    payment = next;
                    progress = wanted;
                },
            }
        }
    }

    /// Moves `amount` from the account `from` to the account `to`, all or
    /// nothing, and writes the record of it under a key made for it. A
    /// payment that is refused ends with the reason, whatever key was
    /// made. One that is not refused succeeds, unless the key that was
    /// made is one that the log holds already: then it ends with the
    /// store's fault. Only a payment that succeeds changes anything.
    pub fn payment(&mut self, to: Key, from: Key, amount: i64, force: Option<bool>) -> (r: Result<
        (),
        Error,
    >)
        requires
            old(self).wf(),
        ensures
            final(self).wf(),
            exists|id: Key|
                is_time_ordered(id.bits) && (final(self)@, r) == #[trigger] old(self)@.pay(
                    to,
                    from,
                    amount,
                    force,
                    id,
                ),
            old(self)@.refusal(to, from, amount, force) matches Some(e) ==> r == Err::<(), Error>(
                e,
            ),
            old(self)@.refusal(to, from, amount, force) is None ==> r is Ok || r == Err::<
                (),
                Error,
            >(Error::Database(StoreFault::UniqueViolation)),
            r is Err ==> final(self)@ == old(self)@,
            r is Ok ==> exists|id: Key|
                is_time_ordered(id.bits) && !old(self)@.has_record(id) && final(self)@
                    == #[trigger] old(self)@.paid(to, from, amount, id),
    {
        let id = Key::generate();
        self.payment_with(to, from, amount, force, id)
    }

    /// Creates the account `id` and binds `discord_id` to it, or does
    /// neither.
    pub fn register_with(&mut self, discord_id: u64, id: Key) -> (r: Result<Key, Error>)
        requires
            old(self).wf(),
        ensures
            final(self).wf(),
            final(self)@ == old(self)@.register(discord_id, id).0,
            r == (match old(self)@.register(discord_id, id).1 {
                Ok(_) => Ok::<Key, Error>(id),
                Err(e) => Err(e),
            }),
    {
        let mut work = self.snapshot();
        let (mut registration, mut progress) = Registration::start(discord_id, id);
        loop
            invariant
                work.wf(),
                self.wf(),
                self@ == old(self)@,
                registration.discord_id == discord_id,
                registration.id == id,
                registration_on_course(self@, work@, registration, progress),
            decreases bindings_left(registration.phase),
        {
            match progress {
                Progress::Finished(r) => {
                    return match r {
                        Ok(()) => {
                            *self = work;
                            Ok(id)
                        },
                        Err(e) => Err(e),
                    };
                },
                Progress::Perform(action) => {
                    proof {
                        self.lemma_wf_state();
                        if registration.phase == RegistrationPhase::BindingPerson {
                            if work@.is_owned(id.bits) {
                                let d = choose|d: u64| #[trigger]
                                    work@.persons.contains_key(d) && work@.persons[d] == id.bits;
                                assert(self@.persons.contains_key(d));
                                assert(self@.balances.contains_key(self@.persons[d]));
                            }
                        }
                    }
                    let reply = work.perform(action);
                    let (next, wanted) = registration.next(reply);
                    registration = next;
                    progress = wanted;
                },
            }
        }
    }

    /// Registers `discord_id` with a new account under a key made for it,
    /// and gives the key. A platform identifier that is bound already is
    /// never registered again. Where the key that was made names an
    /// account already, the registration ends with the store's fault. Only
    /// a registration that succeeds changes anything.
    pub fn register(&mut self, discord_id: u64) -> (r: Result<Key, Error>)
        requires
            old(self).wf(),
        ensures
            final(self).wf(),
            exists|id: Key|
                is_time_ordered(id.bits) && final(self)@ == (#[trigger] old(self)@.register(
                    discord_id,
                    id,
                )).0 && r == (match old(self)@.register(discord_id, id).1 {
                    Ok(_) => Ok::<Key, Error>(id),
                    Err(e) => Err(e),
                }),
            old(self)@.persons.contains_key(discord_id) ==> r == Err::<Key, Error>(
                Error::AlreadyExists(PERSON),
            ) || r == Err::<Key, Error>(Error::Database(StoreFault::UniqueViolation)),
            !old(self)@.persons.contains_key(discord_id) ==> r is Ok || r == Err::<Key, Error>(
                Error::Database(StoreFault::UniqueViolation),
            ),
            r is Err ==> final(self)@ == old(self)@,
            r matches Ok(id) ==> is_time_ordered(id.bits) && !old(self)@.balances.contains_key(
                id.bits,
            ) && final(self)@ == old(self)@.registered(discord_id, id),
    {
        let id = Key::generate();
        self.register_with(discord_id, id)
    }

    /// The key of the account that `discord_id` is bound to.
    pub fn get_from_discord(&self, discord_id: u64) -> (r: Result<Key, Error>)
        requires
            self.wf(),
        ensures
            r == self@.resolve(discord_id),
    {
        match self.persons.get(&discord_id) {
            Some(bits) => Ok(Key { bits: *bits }),
            None => Err(Error::NotFound(PERSON)),
        }
    }

    /// What is known of the person behind the account `id`.
    pub fn get_from_uuid(&self, id: Key) -> (r: Result<PersonInfo, Error>)
        requires
            self.wf(),
        ensures
            r == self@.person(id),
    {
        let owner: Option<u64> = match self.owners.get(&id.bits) {
            Some(d) => Some(*d),
            None => None,
        };
        proof {
            if self@.is_owned(id.bits) {
                let d = self@.owner(id.bits);
                assert(self.persons@.contains_key(d));
                assert(self.owners@.contains_key(id.bits));
                assert(self.owners@[id.bits] == d);
            }
            if self.owners@.contains_key(id.bits) {
                let d = self.owners@[id.bits];
                assert(self@.persons.contains_key(d) && self@.persons[d] == id.bits);
                assert(self@.balances.contains_key(self@.persons[d]));
            }
        }
        match owner {
            None => Err(Error::NotFound(PERSON)),
            Some(discord_id) => match self.accounts.get(&id.bits) {
                Some(balance) => Ok(PersonInfo { discord_id, balance: *balance }),
                None => Err(Error::NotFound(PERSON)),
            },
        }
    }

    /// The balance of the account `id`.
    pub fn get_balance(&self, id: Key) -> (r: Result<Money, Error>)
        requires
            self.wf(),
        ensures
            r == (match self@.balance(id) {
                Ok(balance) => Ok::<Money, Error>(Money(balance)),
                Err(e) => Err(e),
            }),
    {
        match self.accounts.get(&id.bits) {
            Some(balance) => Ok(Money(*balance)),
            None => Err(Error::NotFound(ACCOUNT)),
        }
    }

    /// Adds `amount`, of either sign, to the balance of the account `id`.
    pub fn print_money(&mut self, id: Key, amount: i64) -> (r: Result<(), Error>)
        requires
            old(self).wf(),
        ensures
            final(self).wf(),
            (final(self)@, r) == old(self)@.mint(id, amount),
    {
        match self.perform(StoreAction::Credit { account: id, amount }) {
            StoreReply::Failed(fault) => Err(Error::Database(fault)),
            _ => Ok(()),
        }
    }
}

} // verus!
