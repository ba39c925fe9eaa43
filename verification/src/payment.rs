//! The transfer protocol: what is checked, which statements run and in
//! which order, when money moves from one account to another.

use vstd::prelude::*;
use crate::error::{Error, StoreFault};
use crate::key::Key;
use crate::store::{Progress, StoreAction, StoreReply, TransferRecord};

verus! {

/// What is said to a payer who sends nothing.
pub const ZERO_MONEY: &'static str = "Cannot send zero money";

/// What is said to a payer who sends less than nothing.
pub const NEGATIVE_MONEY: &'static str = "You cannot pay negative money";

/// The kind of resource that a payment looks up.
pub const ACCOUNT: &'static str = "account";

/// Whether the rule on amounts is left out for this payment.
pub open spec fn is_forced(force: Option<bool>) -> bool {
    force == Some(true)
}

/// The rule on amounts: a payment that is not forced moves more than
/// nothing. A forced one may move any amount.
pub open spec fn amount_error(amount: i64, force: Option<bool>) -> Option<Error> {
    if is_forced(force) {
        None
    } else if amount == 0 {
        Some(Error::Forbidden(ZERO_MONEY))
    } else if amount < 0 {
        Some(Error::Forbidden(NEGATIVE_MONEY))
    } else {
        None
    }
}

/// Holds an amount to the rule on amounts.
pub fn check_amount(amount: i64, force: Option<bool>) -> (r: Result<(), Error>)
    ensures
        r == (match amount_error(amount, force) {
            Some(e) => Err::<(), Error>(e),
            None => Ok(()),
        }),
{
    let forced = match force {
        Some(f) => f,
        None => false,
    };
    if forced {
        Ok(())
    } else if amount == 0 {
        Err(Error::Forbidden(ZERO_MONEY))
    } else if amount < 0 {
        Err(Error::Forbidden(NEGATIVE_MONEY))
    } else {
        Ok(())
    }
}

/// Holds a balance to the amount that is to leave it: the payer must
/// hold at least the amount, forced or not.
pub fn check_funds(balance: i64, amount: i64) -> (r: Result<(), Error>)
    ensures
        r == (if balance < amount {
            Err::<(), Error>(Error::InsufficientFunds)
        } else {
            Ok(())
        }),
{
    if balance < amount {
        Err(Error::InsufficientFunds)
    } else {
        Ok(())
    }
}

/// How far a payment has come: the statement whose answer it waits for.
#[derive(Debug, Clone, Copy, PartialEq, Eq, Structural)]
pub enum PaymentPhase {
    /// The transaction is being opened.
    Opening,
    /// The payer's balance is being read.
    Reading,
    /// The amount is being taken from the payer.
    Debiting,
    /// The amount is being given to the payee.
    Crediting,
    /// The record is being written.
    Logging,
    /// The transaction is being committed.
    Committing,
    /// The payment is over.
    Closed,
}

/// A payment under way.
#[derive(Debug, Clone, Copy, PartialEq, Eq, Structural)]
pub struct Payment {
    /// The account that is paid.
    pub to: Key,
    /// The account that pays.
    pub from: Key,
    /// The amount that moves.
    pub amount: i64,
    /// The key of the record that the payment leaves in the log.
    pub id: Key,
    /// How far the payment has come.
    pub phase: PaymentPhase,
}

/// The failure of a payment that got an answer which its last statement
/// cannot have.
pub open spec fn out_of_turn() -> Progress {
    Progress::Finished(Err(Error::Database(StoreFault::Other)))
}

impl Payment {
    /// The record that the payment leaves in the log.
    pub open spec fn record(self) -> TransferRecord {
        TransferRecord { id: self.id, from: self.from, to: self.to, amount: self.amount }
    }

    /// The payment in another phase.
    pub open spec fn at(self, phase: PaymentPhase) -> Payment {
        Payment { phase, ..self }
    }

    /// How a payment starts. One that breaks the rule on amounts is over
    /// before the store hears of it; every other opens a transaction.
    pub open spec fn start_spec(
        to: Key,
        from: Key,
        amount: i64,
        force: Option<bool>,
        id: Key,
    ) -> (Payment, Progress) {
        let payment = Payment { to, from, amount, id, phase: PaymentPhase::Opening };
        match amount_error(amount, force) {
            Some(e) => (payment.at(PaymentPhase::Closed), Progress::Finished(Err(e))),
            None => (payment, Progress::Perform(StoreAction::Begin)),
        }
    }

    /// How a payment goes on after the store's answer to its last
    /// statement. In order: read the payer's balance; give up unless it
    /// covers the amount; take the amount from the payer; give it to the
    /// payee; write the record; commit. A failed statement ends the
    /// payment with the store's fault, a payer or payee that is not there
    /// ends it as not found.
    pub open spec fn next_spec(self, reply: StoreReply) -> (Payment, Progress) {
        let closed = self.at(PaymentPhase::Closed);
        match (self.phase, reply) {
            (PaymentPhase::Closed, _) => (closed, out_of_turn()),
            (_, StoreReply::Failed(fault)) => (
                closed,
                Progress::Finished(Err(Error::Database(fault))),
            ),
            (PaymentPhase::Opening, StoreReply::Done { rows }) => (
                self.at(PaymentPhase::Reading),
                Progress::Perform(StoreAction::ReadBalance { account: self.from }),
            ),
            (PaymentPhase::Reading, StoreReply::Balance(None)) => (
                closed,
                Progress::Finished(Err(Error::NotFound(ACCOUNT))),
            ),
            (PaymentPhase::Reading, StoreReply::Balance(Some(balance))) => if balance
                < self.amount {
                (closed, Progress::Finished(Err(Error::InsufficientFunds)))
            } else {
                (
                    self.at(PaymentPhase::Debiting),
                    Progress::Perform(
                        StoreAction::Debit { account: self.from, amount: self.amount },
                    ),
                )
            },
            (PaymentPhase::Debiting, StoreReply::Done { rows }) => if rows == 0 {
                (closed, Progress::Finished(Err(Error::NotFound(ACCOUNT))))
            } else {
                (
                    self.at(PaymentPhase::Crediting),
                    Progress::Perform(
                        StoreAction::Credit { account: self.to, amount: self.amount },
                    ),
                )
            },
            (PaymentPhase::Crediting, StoreReply::Done { rows }) => if rows == 0 {
                (closed, Progress::Finished(Err(Error::NotFound(ACCOUNT))))
            } else {
                (
                    self.at(PaymentPhase::Logging),
                    Progress::Perform(StoreAction::InsertTransfer { record: self.record() }),
                )
            },
            (PaymentPhase::Logging, StoreReply::Done { rows }) => (
                self.at(PaymentPhase::Committing),
                Progress::Perform(StoreAction::Commit),
            ),
            (PaymentPhase::Committing, StoreReply::Done { rows }) => (
                closed,
                Progress::Finished(Ok(())),
            ),
            _ => (closed, out_of_turn()),
        }
    }

    /// Starts a payment of `amount` from `from` to `to`, whose record
    /// will have the key `id`.
    pub fn start(to: Key, from: Key, amount: i64, force: Option<bool>, id: Key) -> (r: (
        Payment,
        Progress,
    ))
        ensures
            r == Payment::start_spec(to, from, amount, force, id),
    {
        let payment = Payment { to, from, amount, id, phase: PaymentPhase::Opening };
        match check_amount(amount, force) {
            Err(e) => (payment.closed(), Progress::Finished(Err(e))),
            Ok(()) => (payment, Progress::Perform(StoreAction::Begin)),
        }
    }

    /// The payment, over.
    fn closed(self) -> (r: Payment)
        ensures
            r == self.at(PaymentPhase::Closed),
    {
        Payment { phase: PaymentPhase::Closed, ..self }
    }

    /// The payment in its next phase, and the statement of that phase.
    fn go_on(self, phase: PaymentPhase, action: StoreAction) -> (r: (Payment, Progress))
        ensures
            r == (self.at(phase), Progress::Perform(action)),
    {
        (Payment { phase, ..self }, Progress::Perform(action))
    }

    /// The payment, over with an error.
    fn fail(self, e: Error) -> (r: (Payment, Progress))
        ensures
            r == (self.at(PaymentPhase::Closed), Progress::Finished(Err(e))),
    {
        (self.closed(), Progress::Finished(Err(e)))
    }

    /// Takes the store's answer to the last statement and says what the
    /// payment wants next.
    pub fn next(self, reply: StoreReply) -> (r: (Payment, Progress))
        ensures
            r == self.next_spec(reply),
    {
        match self.phase {
            PaymentPhase::Closed => self.fail(Error::Database(StoreFault::Other)),
            phase => match reply {
                StoreReply::Failed(fault) => self.fail(Error::Database(fault)),
                StoreReply::Balance(found) => match phase {
                    PaymentPhase::Reading => match found {
                        None => self.fail(Error::NotFound(ACCOUNT)),
                        Some(balance) => match check_funds(balance, self.amount) {
                            Err(e) => self.fail(e),
                            Ok(()) => self.go_on(
                                PaymentPhase::Debiting,
                                StoreAction::Debit { account: self.from, amount: self.amount },
                            ),
                        },
                    },
                    _ => self.fail(Error::Database(StoreFault::Other)),
                },
                StoreReply::Done { rows } => match phase {
                    PaymentPhase::Opening => self.go_on(
                        PaymentPhase::Reading,
                        StoreAction::ReadBalance { account: self.from },
                    ),
                    PaymentPhase::Debiting => if rows == 0 {
                        self.fail(Error::NotFound(ACCOUNT))
                    } else {
                        self.go_on(
                            PaymentPhase::Crediting,
                            StoreAction::Credit { account: self.to, amount: self.amount },
                        )
                    },
                    PaymentPhase::Crediting => if rows == 0 {
                        self.fail(Error::NotFound(ACCOUNT))
                    } else {
                        let record = TransferRecord {
                            id: self.id,
                            from: self.from,
                            to: self.to,
                            amount: self.amount,
                        };
                        self.go_on(PaymentPhase::Logging, StoreAction::InsertTransfer { record })
                    },
                    PaymentPhase::Logging => self.go_on(
                        PaymentPhase::Committing,
                        StoreAction::Commit,
                    ),
                    PaymentPhase::Committing => (self.closed(), Progress::Finished(Ok(()))),
                    _ => self.fail(Error::Database(StoreFault::Other)),
                },
            },
        }
    }
}

} // verus!
