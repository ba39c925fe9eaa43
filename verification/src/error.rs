//! The errors of the ledger and what each one answers with at the
//! boundary.

use vstd::prelude::*;
use vstd::string::StringSliceAdditionalSpecFns;

verus! {

/// What the store reported when it refused or failed a statement.
#[derive(Debug, Clone, Copy, PartialEq, Eq, Structural)]
pub enum StoreFault {
    /// A value that must be unique is there already (SQLSTATE 23505).
    UniqueViolation,
    /// A number left the range of its column (SQLSTATE 22003).
    OutOfRange,
    /// Anything else: the store is unreachable, a statement is refused
    /// for another reason, a commit failed.
    Other,
}

/// The bytes of SQLSTATE 23505.
pub open spec fn unique_violation_code() -> Seq<u8> {
    seq![50u8, 51u8, 53u8, 48u8, 53u8]
}

/// The bytes of SQLSTATE 22003.
pub open spec fn out_of_range_code() -> Seq<u8> {
    seq![50u8, 50u8, 48u8, 48u8, 51u8]
}

/// The fault that a status code of the store stands for.
pub open spec fn fault_of_code(code: Option<Seq<u8>>) -> StoreFault {
    match code {
        Some(c) => if c == unique_violation_code() {
            StoreFault::UniqueViolation
        } else if c == out_of_range_code() {
            StoreFault::OutOfRange
        } else {
            StoreFault::Other
        },
        None => StoreFault::Other,
    }
}

/// Whether the bytes are the five given ones.
fn is_code(bytes: &[u8], a: u8, b: u8, c: u8, d: u8, e: u8) -> (same: bool)
    ensures
        same == (bytes@ == seq![a, b, c, d, e]),
{
    if bytes.len() != 5 {
        assert(seq![a, b, c, d, e].len() == 5);
        return false;
    }
    let same = bytes[0] == a && bytes[1] == b && bytes[2] == c && bytes[3] == d && bytes[4] == e;
    proof {
        if same {
            assert(bytes@ =~= seq![a, b, c, d, e]);
        } else {
            let other = seq![a, b, c, d, e];
            assert(other[0] == a && other[1] == b && other[2] == c && other[3] == d && other[4]
                == e);
        }
    }
    same
}

impl StoreFault {
    /// The fault for the status code that the store gave with its error,
    /// if it gave one.
    pub fn from_sqlstate(code: Option<&str>) -> (fault: StoreFault)
        ensures
            fault == fault_of_code(
                match code {
                    Some(c) => Some(c.spec_bytes()),
                    None => None,
                },
            ),
    {
        match code {
            Some(c) => {
                let bytes = c.as_bytes();
                if is_code(bytes, 50, 51, 53, 48, 53) {
                    StoreFault::UniqueViolation
                } else if is_code(bytes, 50, 50, 48, 48, 51) {
                    StoreFault::OutOfRange
                } else {
                    StoreFault::Other
                }
            },
            None => StoreFault::Other,
        }
    }
}

/// Why an operation of the ledger did not succeed.
#[derive(Debug, Clone, PartialEq, Eq)]
pub enum Error {
    /// The store failed or refused a statement.
    Database(StoreFault),
    /// A text was not an account key; the message says why.
    UUID(String),
    /// The request breaks a rule of the ledger; the message says which.
    Forbidden(&'static str),
    /// The paying account holds less than the amount.
    InsufficientFunds,
    /// Something of the named kind, of which there can be one only,
    /// exists already.
    AlreadyExists(&'static str),
    /// Nothing of the named kind was found.
    NotFound(&'static str),
    /// An error that is raised on demand.
    Test,
}

/// The result of an operation of the ledger.
pub type Result<T> = core::result::Result<T, Error>;

/// Turning the store's complaint about a value that exists already into
/// the error that names the value.
pub trait UniqueValueError<T>: Sized {
    /// What `or_already_exists` gives.
    spec fn unique_or(self, value: &'static str) -> core::result::Result<T, Error>;

    /// The same result, but with the error `AlreadyExists(value)` in
    /// place of a violated uniqueness. Every other fault of the store
    /// stays a fault of the store.
    fn or_already_exists(self, value: &'static str) -> (r: core::result::Result<T, Error>)
        ensures
            r == self.unique_or(value),
    ;
}

impl<T> UniqueValueError<T> for core::result::Result<T, Error> {
    open spec fn unique_or(self, value: &'static str) -> core::result::Result<T, Error> {
        match self {
            Ok(res) => Ok(res),
            Err(Error::Database(StoreFault::UniqueViolation)) => Err(Error::AlreadyExists(value)),
            Err(err) => Err(err),
        }
    }

    fn or_already_exists(self, value: &'static str) -> (r: core::result::Result<T, Error>) {
        match self {
            Ok(res) => Ok(res),
            Err(Error::Database(StoreFault::UniqueViolation)) => Err(Error::AlreadyExists(value)),
            Err(err) => Err(err),
        }
    }
}

impl<T> UniqueValueError<T> for core::result::Result<T, StoreFault> {
    open spec fn unique_or(self, value: &'static str) -> core::result::Result<T, Error> {
        match self {
            Ok(res) => Ok(res),
            Err(StoreFault::UniqueViolation) => Err(Error::AlreadyExists(value)),
            Err(fault) => Err(Error::Database(fault)),
        }
    }

    fn or_already_exists(self, value: &'static str) -> (r: core::result::Result<T, Error>) {
        match self {
            Ok(res) => Ok(res),
            Err(StoreFault::UniqueViolation) => Err(Error::AlreadyExists(value)),
            Err(fault) => Err(Error::Database(fault)),
        }
    }
}

/// The status for a request that cannot be granted as it stands.
pub const BAD_REQUEST: u16 = 400;

/// The status for a request that breaks a rule.
pub const FORBIDDEN: u16 = 403;

/// The status for a resource that is not there.
pub const NOT_FOUND: u16 = 404;

/// The status for a failure on the ledger's side.
pub const INTERNAL_SERVER_ERROR: u16 = 500;

/// The body that goes with a lack of funds.
pub const LACK_OF_FUNDS: &'static str = "You lack the funds to send this payment";

/// The body that goes with every failure on the ledger's side.
pub const UNEXPECTED: &'static str = "An unexpected error has occurred";

/// What the body of a missing resource starts with.
pub const COULD_NOT_FIND: &'static str = "Could not find ";

/// What the body of a resource that exists already starts with.
pub const THIS: &'static str = "This ";

/// What the body of a resource that exists already ends with.
pub const IS_ALREADY_REGISTERED: &'static str = " is already registered!";

/// The status that an error answers with.
pub open spec fn status_of(e: Error) -> u16 {
    match e {
        Error::UUID(_) => 400,
        Error::NotFound(_) => 404,
        Error::AlreadyExists(_) => 400,
        Error::Forbidden(_) => 403,
        Error::InsufficientFunds => 400,
        Error::Database(_) => 500,
        Error::Test => 500,
    }
}

/// The body that an error answers with.
pub open spec fn body_of(e: Error) -> Seq<char> {
    match e {
        Error::UUID(message) => message@,
        Error::NotFound(resource) => COULD_NOT_FIND@ + resource@,
        Error::AlreadyExists(resource) => THIS@ + resource@ + IS_ALREADY_REGISTERED@,
        Error::Forbidden(message) => message@,
        Error::InsufficientFunds => LACK_OF_FUNDS@,
        Error::Database(_) => UNEXPECTED@,
        Error::Test => UNEXPECTED@,
    }
}

impl Error {
    /// The status and the body that the error answers with at the
    /// boundary. A failure on the ledger's side shows nothing of itself.
    pub fn response(&self) -> (answer: (u16, String))
        ensures
            answer.0 == status_of(*self),
            answer.1@ == body_of(*self),
    {
        match self {
            Error::UUID(message) => (BAD_REQUEST, message.clone()),
            Error::NotFound(resource) => {
                let body = String::from_str(COULD_NOT_FIND).concat(resource);
                (NOT_FOUND, body)
            },
            Error::AlreadyExists(resource) => {
                let body = String::from_str(THIS).concat(resource).concat(IS_ALREADY_REGISTERED);
                (BAD_REQUEST, body)
            },
            Error::Forbidden(message) => (FORBIDDEN, String::from_str(message)),
            Error::InsufficientFunds => (BAD_REQUEST, String::from_str(LACK_OF_FUNDS)),
            Error::Database(_) => (INTERNAL_SERVER_ERROR, String::from_str(UNEXPECTED)),
            Error::Test => (INTERNAL_SERVER_ERROR, String::from_str(UNEXPECTED)),
        }
    }
}

/// One of two things, by the condition that brought it.
#[derive(Debug, Clone, Copy, PartialEq, Eq)]
pub enum Example<T, B> {
    Condition1(T),
    Condition3(B),
}

} // verus!
