//! Platform identifiers as the store keeps them: eight bytes, the highest
//! first.

use vstd::prelude::*;
use vstd::std_specs::convert::FromSpecImpl;
use crate::decimal::{dec_digits, push_decimal};

verus! {

/// The number that eight bytes write, the highest byte first.
pub open spec fn be_value(b: Seq<u8>) -> int
    recommends
        b.len() == 8,
{
    ((((((b[0] * 256 + b[1]) * 256 + b[2]) * 256 + b[3]) * 256 + b[4]) * 256 + b[5]) * 256
        + b[6]) * 256 + b[7]
}

/// A number without its `n` lowest bytes.
pub open spec fn above(v: int, n: nat) -> int
    decreases n,
{
    if n == 0 {
        v
    } else {
        above(v, (n - 1) as nat) / 256
    }
}

/// The byte of a number that has `n` bytes below it.
pub open spec fn byte_at(v: u64, n: nat) -> u8 {
    (above(v as int, n) % 256) as u8
}

/// The eight bytes of a number, the highest first.
pub open spec fn be_bytes(v: u64) -> Seq<u8> {
    seq![
        byte_at(v, 7),
        byte_at(v, 6),
        byte_at(v, 5),
        byte_at(v, 4),
        byte_at(v, 3),
        byte_at(v, 2),
        byte_at(v, 1),
        byte_at(v, 0),
    ]
}

/// The bytes of a number write that number.
pub proof fn lemma_bytes_write_value(v: u64)
    ensures
        be_value(be_bytes(v)) == v,
{
    reveal_with_fuel(above, 9);
    let q0 = v as int;
    let q1 = q0 / 256;
    let q2 = q1 / 256;
    let q3 = q2 / 256;
    let q4 = q3 / 256;
    let q5 = q4 / 256;
    let q6 = q5 / 256;
    let q7 = q6 / 256;
    assert(above(q0, 7) == q7);
    assert(q7 < 256);
    assert(q6 == q7 * 256 + q6 % 256);
    assert(q5 == q6 * 256 + q5 % 256);
    assert(q4 == q5 * 256 + q4 % 256);
    assert(q3 == q4 * 256 + q3 % 256);
    assert(q2 == q3 * 256 + q2 % 256);
    assert(q1 == q2 * 256 + q1 % 256);
    assert(q0 == q1 * 256 + q0 % 256);
}

/// The number that eight bytes write has those bytes.
pub proof fn lemma_value_has_bytes(b: Seq<u8>)
    requires
        b.len() == 8,
    ensures
        0 <= be_value(b) <= u64::MAX,
        be_bytes(be_value(b) as u64) == b,
{
    reveal_with_fuel(above, 9);
    let h1 = b[0] as int;
    let h2 = h1 * 256 + b[1];
    let h3 = h2 * 256 + b[2];
    let h4 = h3 * 256 + b[3];
    let h5 = h4 * 256 + b[4];
    let h6 = h5 * 256 + b[5];
    let h7 = h6 * 256 + b[6];
    let h8 = h7 * 256 + b[7];
    assert(h8 == be_value(b));
    assert(h8 / 256 == h7 && h8 % 256 == b[7]);
    assert(h7 / 256 == h6 && h7 % 256 == b[6]);
    assert(h6 / 256 == h5 && h6 % 256 == b[5]);
    assert(h5 / 256 == h4 && h5 % 256 == b[4]);
    assert(h4 / 256 == h3 && h4 % 256 == b[3]);
    assert(h3 / 256 == h2 && h3 % 256 == b[2]);
    assert(h2 / 256 == h1 && h2 % 256 == b[1]);
    assert(h1 % 256 == b[0]);
    assert(be_bytes(be_value(b) as u64) =~= b);
}

/// The identifier whose bytes are those of a number.
pub closed spec fn id_of(v: u64) -> DiscordId {
    DiscordId(
        [
            byte_at(v, 7),
            byte_at(v, 6),
            byte_at(v, 5),
            byte_at(v, 4),
            byte_at(v, 3),
            byte_at(v, 2),
            byte_at(v, 1),
            byte_at(v, 0),
        ],
    )
}

/// The identifier of a number has the number's bytes.
pub proof fn lemma_id_of(v: u64)
    ensures
        id_of(v).bytes() == be_bytes(v),
        id_of(v).value() == v,
{
    assert(id_of(v).bytes() =~= be_bytes(v));
    lemma_bytes_write_value(v);
}

/// A platform identifier, kept as eight bytes.
pub struct DiscordId([u8; 8]);

impl DiscordId {
    /// The identifier's bytes, the highest first.
    pub closed spec fn bytes(self) -> Seq<u8> {
        self.0@
    }

    /// The identifier as a number.
    pub open spec fn value(self) -> u64 {
        be_value(self.bytes()) as u64
    }

    /// An identifier has eight bytes, and they are those of its number.
    pub proof fn lemma_bytes(self)
        ensures
            self.bytes().len() == 8,
            self.bytes() == be_bytes(self.value()),
            be_value(self.bytes()) == self.value(),
    {
        lemma_value_has_bytes(self.bytes());
    }

    /// The identifier's bytes, as they go to the store.
    pub fn as_bytes(&self) -> (b: &[u8; 8])
        ensures
            b@ == self.bytes(),
    {
        &self.0
    }

    /// The identifier that eight bytes of the store stand for.
    pub fn from_vec(vec: Vec<u8>) -> (id: DiscordId)
        requires
            vec@.len() == 8,
        ensures
            id.bytes() == vec@,
    {
        let id = DiscordId([vec[0], vec[1], vec[2], vec[3], vec[4], vec[5], vec[6], vec[7]]);
        assert(id.bytes() =~= vec@);
        id
    }

    /// The identifier's number.
    pub fn to_u64(&self) -> (v: u64)
        ensures
            v == self.value(),
    {
        let b = &self.0;
        proof {
            lemma_value_has_bytes(self.bytes());
        }
        let mut v: u64 = b[0] as u64;
        v = v * 256 + b[1] as u64;
        v = v * 256 + b[2] as u64;
        v = v * 256 + b[3] as u64;
        v = v * 256 + b[4] as u64;
        v = v * 256 + b[5] as u64;
        v = v * 256 + b[6] as u64;
        v = v * 256 + b[7] as u64;
        v
    }

    /// The identifier's number in decimal digits.
    pub fn to_string(&self) -> (text: String)
        ensures
            text@ == dec_digits(self.value() as nat),
    {
        let mut text = String::new();
        push_decimal(&mut text, self.to_u64());
        assert(text@ =~= dec_digits(self.value() as nat));
        text
    }
}

impl From<u64> for DiscordId {
    fn from(id: u64) -> (r: DiscordId) {
        let q1: u64 = id / 256;
        let q2: u64 = q1 / 256;
        let q3: u64 = q2 / 256;
        let q4: u64 = q3 / 256;
        let q5: u64 = q4 / 256;
        let q6: u64 = q5 / 256;
        let q7: u64 = q6 / 256;
        proof {
            reveal_with_fuel(above, 9);
        }
        DiscordId(
            [
                (q7 % 256) as u8,
                (q6 % 256) as u8,
                (q5 % 256) as u8,
                (q4 % 256) as u8,
                (q3 % 256) as u8,
                (q2 % 256) as u8,
                (q1 % 256) as u8,
                (id % 256) as u8,
            ],
        )
    }
}

impl FromSpecImpl<u64> for DiscordId {
    open spec fn obeys_from_spec() -> bool {
        true
    }

    open spec fn from_spec(id: u64) -> DiscordId {
        id_of(id)
    }
}

impl From<DiscordId> for u64 {
    fn from(id: DiscordId) -> (v: u64) {
        id.to_u64()
    }
}

impl FromSpecImpl<DiscordId> for u64 {
    open spec fn obeys_from_spec() -> bool {
        true
    }

    open spec fn from_spec(id: DiscordId) -> u64 {
        id.value()
    }
}

impl From<&DiscordId> for u64 {
    fn from(id: &DiscordId) -> (v: u64) {
        id.to_u64()
    }
}

impl FromSpecImpl<&DiscordId> for u64 {
    open spec fn obeys_from_spec() -> bool {
        true
    }

    open spec fn from_spec(id: &DiscordId) -> u64 {
        id.value()
    }
}

} // verus!
