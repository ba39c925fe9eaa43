//! Account keys: 128-bit identifiers that sort by the time they were made.

use vstd::prelude::*;

verus! {

/// A unique identifier of an account or of a transfer record.
#[derive(Debug, Clone, Copy, PartialEq, Eq, Structural, Hash)]
pub struct Key {
    /// The identifier's sixteen bytes, the first one highest.
    pub bits: u128,
}

/// The character of one hexadecimal digit, in lower case.
pub open spec fn hex_char(n: int) -> char
    recommends
        0 <= n < 16,
{
    if n == 0 {
        '0'
    } else if n == 1 {
        '1'
    } else if n == 2 {
        '2'
    } else if n == 3 {
        '3'
    } else if n == 4 {
        '4'
    } else if n == 5 {
        '5'
    } else if n == 6 {
        '6'
    } else if n == 7 {
        '7'
    } else if n == 8 {
        '8'
    } else if n == 9 {
        '9'
    } else if n == 10 {
        'a'
    } else if n == 11 {
        'b'
    } else if n == 12 {
        'c'
    } else if n == 13 {
        'd'
    } else if n == 14 {
        'e'
    } else {
        'f'
    }
}

/// The hexadecimal digit of `bits` at place `i`, counted from the highest.
pub open spec fn nibble(bits: u128, i: int) -> int
    recommends
        0 <= i < 32,
{
    (bits as int / vstd::arithmetic::power::pow(16, (31 - i) as nat)) % 16
}

/// The simple form of an identifier: its thirty-two hexadecimal digits in
/// lower case, the highest first, with nothing between them.
pub open spec fn simple_text(bits: u128) -> Seq<char> {
    Seq::new(32, |i: int| hex_char(nibble(bits, i)))
}

/// The version that an identifier carries in its thirteenth digit.
pub open spec fn version_of(bits: u128) -> int {
    nibble(bits, 12)
}

/// Whether an identifier is of version 7: made of the time in
/// milliseconds, then random bits.
pub open spec fn is_time_ordered(bits: u128) -> bool {
    version_of(bits) == 7
}

/// The milliseconds since 1970 that an identifier of version 7 starts
/// with.
pub open spec fn unix_millis(bits: u128) -> int {
    bits as int / 0x1_0000_0000_0000_0000_0000
}

/// What `uuid::Uuid::parse_str` reads from a text: the identifier's bits,
/// or nothing where it gives an error.
pub uninterp spec fn parsed_uuid(text: Seq<char>) -> Option<u128>;

/// The seconds since 1970 that `uuid::Uuid::get_timestamp` finds in an
/// identifier, or nothing where it finds no time.
pub uninterp spec fn uuid_seconds(bits: u128) -> Option<u64>;

/// Calls `uuid::Uuid::now_v7`, which makes an identifier from the system
/// clock and random bits, and gives its bits. All that is claimed is that
/// the version digit is 7. The call fails where the clock stands before
/// 1970.
#[verifier::external_body]
fn uuid_now_v7() -> (bits: u128)
    ensures
        is_time_ordered(bits),
{
    uuid::Uuid::now_v7().as_u128()
}

/// Calls `uuid::Uuid::as_simple` and writes the result with `to_string`.
/// Claimed: the text is the thirty-two lower-case hexadecimal digits of
/// the bits, and `uuid::Uuid::parse_str` reads the same bits back from it.
#[verifier::external_body]
fn uuid_simple(bits: u128) -> (text: String)
    ensures
        text@ == simple_text(bits),
        parsed_uuid(text@) == Some(bits),
{
    uuid::Uuid::from_u128(bits).as_simple().to_string()
}

/// Calls `uuid::Uuid::parse_str`, and `to_string` on the error where it
/// gives one. Claimed: whether bits come back, and which, depends on the
/// text alone. Nothing is claimed of the error's words.
#[verifier::external_body]
fn uuid_parse(text: &str) -> (r: Result<u128, String>)
    ensures
        r matches Ok(bits) ==> parsed_uuid(text@) == Some(bits),
        r is Err ==> parsed_uuid(text@) is None,
{
    match uuid::Uuid::parse_str(text) {
        Ok(id) => Ok(id.as_u128()),
        Err(e) => Err(e.to_string()),
    }
}

/// Calls `uuid::Uuid::get_timestamp` and takes the seconds of
/// `uuid::Timestamp::to_unix`. Claimed: the result depends on the bits
/// alone; there is one exactly for the versions 1, 6 and 7; for version 7
/// it is the leading milliseconds divided by a thousand.
#[verifier::external_body]
fn uuid_unix_seconds(bits: u128) -> (r: Option<u64>)
    ensures
        r == uuid_seconds(bits),
        r is Some <==> version_of(bits) == 1 || version_of(bits) == 6 || version_of(bits) == 7,
        is_time_ordered(bits) ==> r == Some((unix_millis(bits) / 1000) as u64),
{
    match uuid::Uuid::from_u128(bits).get_timestamp() {
        Some(time) => Some(time.to_unix().0),
        None => None,
    }
}

impl Key {
    /// The identifier's bits.
    pub open spec fn view(&self) -> u128 {
        self.bits
    }

    /// A new key, made from the current time and random bits.
    pub fn generate() -> (key: Key)
        ensures
            is_time_ordered(key.bits),
    {
        Key { bits: uuid_now_v7() }
    }

    /// The key in its simple form.
    pub fn to_simple_string(&self) -> (text: String)
        ensures
            text@ == simple_text(self.bits),
            parsed_uuid(text@) == Some(self.bits),
    {
        uuid_simple(self.bits)
    }

    /// Reads a key from a text in any of the forms that identifiers are
    /// written in. The error says in words what was wrong with the text.
    pub fn parse_str(text: &str) -> (r: Result<Key, String>)
        ensures
            r matches Ok(key) ==> parsed_uuid(text@) == Some(key.bits),
            r is Err ==> parsed_uuid(text@) is None,
    {
        match uuid_parse(text) {
            Ok(bits) => Ok(Key { bits }),
            Err(e) => Err(e),
        }
    }

    /// The seconds since 1970 at which the key was made, where it holds
    /// a time.
    pub fn unix_seconds(&self) -> (r: Option<u64>)
        ensures
            r == uuid_seconds(self.bits),
            r is Some <==> version_of(self.bits) == 1 || version_of(self.bits) == 6 || version_of(
                self.bits,
            ) == 7,
            is_time_ordered(self.bits) ==> r == Some((unix_millis(self.bits) / 1000) as u64),
    {
        uuid_unix_seconds(self.bits)
    }
}

} // verus!
