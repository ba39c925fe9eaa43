//! The time at which a key was made.

use vstd::prelude::*;
use crate::decimal::{dec_digits, push_decimal};
use crate::key::{is_time_ordered, unix_millis, uuid_seconds, version_of, Key};

verus! {

/// Whether a key of this version holds the time at which it was made.
pub open spec fn holds_time(bits: u128) -> bool {
    version_of(bits) == 1 || version_of(bits) == 6 || version_of(bits) == 7
}

/// The time at which a key was made, in seconds since 1970.
#[derive(Debug, Clone, Copy, PartialEq, Eq, Structural)]
pub struct UUIDTime(u64);

impl UUIDTime {
    /// The seconds since 1970.
    pub closed spec fn seconds(self) -> u64 {
        self.0
    }

    /// The time that a key holds. Only keys of the versions 1, 6 and 7
    /// hold one.
    pub fn from_key(id: Key) -> (time: UUIDTime)
        requires
            holds_time(id.bits),
        ensures
            uuid_seconds(id.bits) == Some(time.seconds()),
            is_time_ordered(id.bits) ==> time.seconds() == unix_millis(id.bits) / 1000,
    {
        match id.unix_seconds() {
            Some(seconds) => UUIDTime(seconds),
            None => vstd::pervasive::unreached(),
        }
    }

    /// The seconds since 1970.
    pub fn to_unix_sec(&self) -> (seconds: u64)
        ensures
            seconds == self.seconds(),
    {
        self.0
    }

    /// The seconds since 1970 in decimal digits.
    pub fn to_string(&self) -> (text: String)
        ensures
            text@ == dec_digits(self.seconds() as nat),
    {
        let mut text = String::new();
        push_decimal(&mut text, self.0);
        assert(text@ =~= dec_digits(self.seconds() as nat));
        text
    }
}

} // verus!
