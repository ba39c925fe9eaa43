//! What the protocols ask of the store and what the store answers.
//!
//! A protocol never touches the store itself. It hands out one statement
//! at a time and decides on the next from the answer, so that whoever
//! holds the connection runs the statements inside one transaction.

use vstd::prelude::*;
use crate::error::{Error, StoreFault};
use crate::key::Key;

verus! {

/// One entry of the transfer log.
#[derive(Debug, Clone, Copy, PartialEq, Eq, Structural)]
pub struct TransferRecord {
    /// The record's own key.
    pub id: Key,
    /// The account that paid.
    pub from: Key,
    /// The account that was paid.
    pub to: Key,
    /// The amount that moved.
    pub amount: i64,
}

/// One statement for the store.
#[derive(Debug, Clone, Copy, PartialEq, Eq, Structural)]
pub enum StoreAction {
    /// Open a transaction.
    Begin,
    /// Read the balance of an account.
    ReadBalance { account: Key },
    /// Take an amount from the balance of an account.
    Debit { account: Key, amount: i64 },
    /// Add an amount to the balance of an account.
    Credit { account: Key, amount: i64 },
    /// Create an account with nothing on it.
    InsertAccount { id: Key },
    /// Bind a platform identifier to an account.
    InsertPerson { id: Key, discord_id: u64 },
    /// Append a record to the transfer log.
    InsertTransfer { record: TransferRecord },
    /// Make the transaction's changes lasting.
    Commit,
}

/// What the store answered to a statement.
#[derive(Debug, Clone, Copy, PartialEq, Eq, Structural)]
pub enum StoreReply {
    /// The statement ran; so many rows were changed or added.
    Done { rows: u64 },
    /// The balance that was read, if the account exists.
    Balance(Option<i64>),
    /// The statement failed.
    Failed(StoreFault),
}

/// What a protocol wants next.
#[derive(Debug, PartialEq, Eq)]
pub enum Progress {
    /// Run this statement and come back with the answer.
    Perform(StoreAction),
    /// The protocol is over. After an error the transaction, if one is
    /// open, is to be rolled back.
    Finished(Result<(), Error>),
}

} // verus!
