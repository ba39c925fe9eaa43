//! Plain values that cross the boundary.

use vstd::prelude::*;
use crate::error::Error;
use crate::key::{parsed_uuid, Key};

verus! {

/// What is known of a person: the platform identifier and the balance of
/// the account that it is bound to.
#[derive(Debug, Clone, Copy, PartialEq, Eq, Structural)]
pub struct PersonInfo {
    pub discord_id: u64,
    pub balance: i64,
}

/// What a request for a payment holds.
#[derive(Debug, Clone, Copy, PartialEq, Eq, Structural)]
pub struct PaymentParams {
    pub to: Key,
    pub from: Key,
    pub amount: i64,
    pub force: Option<bool>,
}

impl PaymentParams {
    /// The request for a payment whose keys are written in `to` and
    /// `from`, in any of the forms that keys are written in. Where one of
    /// the two is no key, the error says in words what is wrong with the
    /// first that is none.
    pub fn read(to: &str, from: &str, amount: i64, force: Option<bool>) -> (r: Result<
        PaymentParams,
        Error,
    >)
        ensures
            match (parsed_uuid(to@), parsed_uuid(from@)) {
                (Some(t), Some(f)) => r == Ok::<PaymentParams, Error>(
                    PaymentParams { to: Key { bits: t }, from: Key { bits: f }, amount, force },
                ),
                _ => r matches Err(Error::UUID(_)),
            },
    {
        let to = match Key::parse_str(to) {
            Ok(key) => key,
            Err(message) => {
                return Err(Error::UUID(message));
            },
        };
        let from = match Key::parse_str(from) {
            Ok(key) => key,
            Err(message) => {
                return Err(Error::UUID(message));
            },
        };
        Ok(PaymentParams { to, from, amount, force })
    }
}

} // verus!
