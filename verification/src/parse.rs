//! Reading an amount of money from decimal text.

use vstd::prelude::*;
use vstd::string::StringSliceAdditionalSpecFns;
use vstd::utf8::{encode_utf8, is_ascii_chars, is_ascii_chars_encode_utf8};
use crate::decimal::{
    all_digits, dec_digits, digit_char, digit_of, digits_value, is_digit, magnitude, read_digits,
};
use crate::money::{magnitude_text, money_text, Money, PRECISION};

verus! {

/// Why a text is not an amount of money.
#[derive(Debug, Clone, Copy, PartialEq, Eq, Structural)]
pub enum MoneyFromStringError {
    /// The text is not a decimal number.
    FailedFloatParsing,
    /// More follows the decimal point than an amount can hold.
    ValueTooPrecise,
}

/// The byte of the decimal point.
pub const POINT: u8 = 46;

/// The byte of the minus sign.
pub const MINUS: u8 = 45;

/// Whether `p` is where the first decimal point of `b` stands.
pub open spec fn is_first_point(b: Seq<u8>, p: int) -> bool {
    &&& 0 <= p < b.len()
    &&& b[p] == POINT
    &&& forall|j: int| 0 <= j < p ==> #[trigger] b[j] != POINT
}

/// Whether `b` holds a decimal point.
pub open spec fn has_point(b: Seq<u8>) -> bool {
    exists|p: int| is_first_point(b, p)
}

/// Where the first decimal point of `b` stands.
pub open spec fn first_point(b: Seq<u8>) -> int
    recommends
        has_point(b),
{
    choose|p: int| is_first_point(b, p)
}

/// Whether `b` starts with a minus sign.
pub open spec fn is_negative(b: Seq<u8>) -> bool {
    b.len() > 0 && b[0] == MINUS
}

/// The bytes between the sign, where there is one, and the first point,
/// or the end where there is no point.
pub open spec fn whole_part(b: Seq<u8>) -> Seq<u8> {
    b.subrange(
        if is_negative(b) {
            1
        } else {
            0
        },
        if has_point(b) {
            first_point(b)
        } else {
            b.len() as int
        },
    )
}

/// The bytes after the first point; none where there is no point.
pub open spec fn fraction_part(b: Seq<u8>) -> Seq<u8> {
    if has_point(b) {
        b.subrange(first_point(b) + 1, b.len() as int)
    } else {
        Seq::empty()
    }
}

/// The thousandths that at most three fractional digits write: the
/// first one hundredfold, the second tenfold, the third as it is.
pub open spec fn fraction_value(f: Seq<u8>) -> int
    recommends
        f.len() <= 3,
{
    (if f.len() >= 1 {
        (f[0] - 48) * 100
    } else {
        0
    }) + (if f.len() >= 2 {
        (f[1] - 48) * 10
    } else {
        0
    }) + (if f.len() >= 3 {
        f[2] - 48
    } else {
        0
    })
}

/// The nearest `i64` to `v`.
pub open spec fn saturate(v: int) -> i64 {
    if v > i64::MAX {
        i64::MAX
    } else if v < i64::MIN {
        i64::MIN
    } else {
        v as i64
    }
}

/// Whether the bytes are a number in the form that is read: an optional
/// minus sign, then at least one digit; after that nothing, or a point
/// and digits only.
pub open spec fn well_formed(b: Seq<u8>) -> bool {
    &&& whole_part(b).len() >= 1
    &&& all_digits(whole_part(b))
    &&& all_digits(fraction_part(b))
}

/// The number that well-formed bytes write, in thousandths.
pub open spec fn thousandths(b: Seq<u8>) -> int {
    let size = digits_value(whole_part(b)) * 1000 + fraction_value(fraction_part(b));
    if is_negative(b) {
        -size
    } else {
        size
    }
}

/// What reading the bytes of a text gives. A text with more than three
/// bytes after its first decimal point is too precise, whatever the bytes
/// are. Of the others, those that are well formed give their number of
/// thousandths, exactly, cut to the range of an `i64`; the rest are no
/// numbers.
pub open spec fn parse_spec(b: Seq<u8>) -> Result<Money, MoneyFromStringError> {
    if has_point(b) && b.len() - first_point(b) - 1 > PRECISION {
        Err(MoneyFromStringError::ValueTooPrecise)
    } else if !well_formed(b) {
        Err(MoneyFromStringError::FailedFloatParsing)
    } else {
        Ok(Money(saturate(thousandths(b))))
    }
}

/// At most one place is that of the first decimal point.
pub proof fn lemma_first_point_unique(b: Seq<u8>, p: int)
    requires
        is_first_point(b, p),
    ensures
        has_point(b),
        first_point(b) == p,
{
    let q = first_point(b);
    assert(is_first_point(b, q));
    if q < p {
        assert(b[q] != POINT);
    }
    if p < q {
        assert(b[p] != POINT);
    }
}

/// Bytes of which none is a decimal point hold no decimal point.
pub proof fn lemma_no_point(b: Seq<u8>)
    requires
        forall|j: int| 0 <= j < b.len() ==> #[trigger] b[j] != POINT,
    ensures
        !has_point(b),
{
    if has_point(b) {
        let q = first_point(b);
        assert(is_first_point(b, q));
        assert(b[q] != POINT);
    }
}

impl Money {
    /// Reads an amount from its text.
    pub fn from_str(s: &str) -> (r: Result<Money, MoneyFromStringError>)
        ensures
            r == parse_spec(s.spec_bytes()),
    {
        let bytes = s.as_bytes();
        let n: usize = bytes.len();
        let mut p: usize = 0;
        while p < n && bytes[p] != POINT
            invariant
                p <= n,
                n == bytes@.len(),
                forall|j: int| 0 <= j < p ==> #[trigger] bytes@[j] != POINT,
            decreases n - p,
        {
            p += 1;
        }
        proof {
            if p < n {
                lemma_first_point_unique(bytes@, p as int);
            } else {
                lemma_no_point(bytes@);
            }
        }
        if p < n && n - p - 1 > PRECISION {
            return Err(MoneyFromStringError::ValueTooPrecise);
        }
        let negative: bool = n > 0 && bytes[0] == MINUS;
        let start: usize = if negative {
            1
        } else {
            0
        };
        if start == p {
            return Err(MoneyFromStringError::FailedFloatParsing);
        }
        let whole: u128 = match read_digits(bytes, start, p) {
            None => {
                return Err(MoneyFromStringError::FailedFloatParsing);
            },
            Some(w) => w,
        };
        let ghost fraction = fraction_part(bytes@);
        let mut part: u128 = 0;
        if n - p > 1 {
            match digit_of(bytes[p + 1]) {
                None => {
                    assert(!is_digit(fraction[0]));
                    return Err(MoneyFromStringError::FailedFloatParsing);
                },
                Some(d) => {
                    part = d * 100;
                },
            }
        }
        if n - p > 2 {
            match digit_of(bytes[p + 2]) {
                None => {
                    assert(!is_digit(fraction[1]));
                    return Err(MoneyFromStringError::FailedFloatParsing);
                },
                Some(d) => {
                    part = part + d * 10;
                },
            }
        }
        if n - p > 3 {
            match digit_of(bytes[p + 3]) {
                None => {
                    assert(!is_digit(fraction[2]));
                    return Err(MoneyFromStringError::FailedFloatParsing);
                },
                Some(d) => {
                    part = part + d;
                },
            }
        }
        assert(all_digits(fraction)) by {
            assert forall|k: int| 0 <= k < fraction.len() implies is_digit(
                #[trigger] fraction[k],
            ) by {
                assert(k == 0 || k == 1 || k == 2);
            }
        }
        assert(part == fraction_value(fraction));
        let size: u128 = whole * 1000 + part;
        let value: i64 = if negative {
            if size >= 9_223_372_036_854_775_808 {
                i64::MIN
            } else {
                -(size as i64)
            }
        } else {
            if size > 9_223_372_036_854_775_807 {
                i64::MAX
            } else {
                size as i64
            }
        };
        assert(value == saturate(thousandths(bytes@)));
        Ok(Money(value))
    }
}

/// Whether a character is a decimal digit.
pub open spec fn is_digit_char(c: char) -> bool {
    '0' <= c <= '9'
}

/// The decimal digits of a number are digits, one at least.
pub proof fn lemma_dec_digits_are_digits(n: nat)
    ensures
        dec_digits(n).len() >= 1,
        forall|i: int| 0 <= i < dec_digits(n).len() ==> is_digit_char(#[trigger] dec_digits(n)[i]),
    decreases n,
{
    if n >= 10 {
        lemma_dec_digits_are_digits(n / 10);
    }
}

/// The bytes of the decimal digits of a number are digits and write the
/// number.
pub proof fn lemma_digits_write_their_number(n: nat, b: Seq<u8>)
    requires
        b.len() == dec_digits(n).len(),
        forall|i: int| 0 <= i < b.len() ==> #[trigger] b[i] == dec_digits(n)[i] as u8,
    ensures
        all_digits(b),
        digits_value(b) == n,
    decreases n,
{
    if n < 10 {
        assert(b[0] == digit_char(n as int) as u8);
        assert(b.drop_last() =~= Seq::<u8>::empty());
        assert(digits_value(b.drop_last()) == 0);
    } else {
        let head = b.drop_last();
        assert forall|i: int| 0 <= i < head.len() implies #[trigger] head[i] == dec_digits(
            n / 10,
        )[i] as u8 by {
            assert(head[i] == b[i]);
        }
        lemma_digits_write_their_number(n / 10, head);
        assert(b.last() == digit_char((n % 10) as int) as u8);
        assert forall|i: int| 0 <= i < b.len() implies is_digit(#[trigger] b[i]) by {
            if i < head.len() {
                assert(b[i] == head[i]);
            }
        }
    }
}

/// The byte of a minus sign, for a negative number; else nothing.
pub open spec fn sign_bytes(negative: bool) -> Seq<u8> {
    if negative {
        seq![MINUS]
    } else {
        Seq::empty()
    }
}

/// A size with its sign.
pub open spec fn signed(negative: bool, size: int) -> int {
    if negative {
        -size
    } else {
        size
    }
}

/// What is read from a sign, digits, a point and at most three digits:
/// the thousandths that they write.
pub proof fn lemma_read_pointed(negative: bool, w: Seq<u8>, f: Seq<u8>)
    requires
        w.len() >= 1,
        all_digits(w),
        f.len() <= 3,
        all_digits(f),
    ensures
        parse_spec(sign_bytes(negative) + w + seq![POINT] + f) == Ok::<
            Money,
            MoneyFromStringError,
        >(Money(saturate(signed(negative, digits_value(w) * 1000 + fraction_value(f))))),
{
    let b = sign_bytes(negative) + w + seq![POINT] + f;
    let s = sign_bytes(negative).len() as int;
    let p = s + w.len();
    assert(b.len() == p + 1 + f.len());
    assert forall|j: int| 0 <= j < p implies #[trigger] b[j] != POINT by {
        if j >= s {
            assert(b[j] == w[j - s]);
            assert(is_digit(w[j - s]));
        }
    }
    assert(b[p] == POINT);
    lemma_first_point_unique(b, p);
    assert(is_negative(b) == negative) by {
        if !negative {
            assert(b[0] == w[0]);
            assert(is_digit(w[0]));
        }
    }
    assert(whole_part(b) =~= w);
    assert(fraction_part(b) =~= f);
}

/// What is read from a sign and digits alone: the whole units that they
/// write.
pub proof fn lemma_read_whole(negative: bool, w: Seq<u8>)
    requires
        w.len() >= 1,
        all_digits(w),
    ensures
        parse_spec(sign_bytes(negative) + w) == Ok::<Money, MoneyFromStringError>(
            Money(saturate(signed(negative, (digits_value(w) * 1000) as int))),
        ),
{
    let b = sign_bytes(negative) + w;
    let s = sign_bytes(negative).len() as int;
    assert forall|j: int| 0 <= j < b.len() implies #[trigger] b[j] != POINT by {
        if j >= s {
            assert(b[j] == w[j - s]);
            assert(is_digit(w[j - s]));
        }
    }
    lemma_no_point(b);
    assert(is_negative(b) == negative) by {
        if !negative {
            assert(b[0] == w[0]);
            assert(is_digit(w[0]));
        }
    }
    assert(whole_part(b) =~= w);
    assert(fraction_part(b) =~= Seq::<u8>::empty());
}

/// The bytes of the decimal digits of a number.
pub open spec fn digit_bytes(n: nat) -> Seq<u8> {
    Seq::new(dec_digits(n).len(), |i: int| dec_digits(n)[i] as u8)
}

/// The bytes of the three digits of `m` below a thousand.
pub open spec fn fraction_bytes(m: nat) -> Seq<u8> {
    seq![(48 + m / 100 % 10) as u8, (48 + m / 10 % 10) as u8, (48 + m % 10) as u8]
}

/// The three digits of a number below a thousand write what the number
/// has below a thousand.
pub proof fn lemma_fraction_bytes(m: nat)
    ensures
        fraction_bytes(m).len() == 3,
        all_digits(fraction_bytes(m)),
        fraction_value(fraction_bytes(m)) == m % 1000,
{
    let f = fraction_bytes(m);
    lemma_three_digits(m);
    assert forall|k: int| 0 <= k < f.len() implies is_digit(#[trigger] f[k]) by {
        assert(k == 0 || k == 1 || k == 2);
    }
}

/// The last three digits of a number make what it has below a thousand.
pub proof fn lemma_three_digits(m: nat)
    ensures
        (m / 100 % 10) * 100 + (m / 10 % 10) * 10 + m % 10 == m % 1000,
{
    let k = (m / 1000) as int;
    let r = (m % 1000) as int;
    let a = r / 100;
    let t = r % 100;
    let b = t / 10;
    let c = t % 10;
    assert(m == k * 1000 + r);
    assert(r == a * 100 + t);
    assert(t == b * 10 + c);
    assert(m / 100 == k * 10 + a) by {
        assert(m == (k * 10 + a) * 100 + t);
    }
    assert(m / 10 == k * 100 + a * 10 + b) by {
        assert(m == (k * 100 + a * 10 + b) * 10 + c);
    }
    assert(m % 10 == c) by {
        assert(m == (k * 100 + a * 10 + b) * 10 + c);
    }
    assert((k * 10 + a) % 10 == a);
    assert((k * 100 + a * 10 + b) % 10 == b) by {
        assert(k * 100 + a * 10 + b == (k * 10 + a) * 10 + b);
    }
}

/// The bytes of the display of a magnitude: those of the whole units,
/// and where the display has a point, the point and the three digits.
pub proof fn lemma_magnitude_bytes(m: nat)
    ensures
        is_ascii_chars(magnitude_text(m)),
        encode_utf8(magnitude_text(m)) == if m >= 1000 && m % 100 == 0 {
            digit_bytes(m / 1000)
        } else {
            digit_bytes(m / 1000) + seq![POINT] + fraction_bytes(m)
        },
{
    let text = magnitude_text(m);
    let whole = dec_digits(m / 1000);
    lemma_dec_digits_are_digits(m / 1000);
    let n = whole.len() as int;
    assert forall|i: int| 0 <= i < text.len() implies '\0' <= #[trigger] text[i] <= '\u{7f}' by {
        if i < n {
            assert(text[i] == whole[i]);
            assert(is_digit_char(whole[i]));
        }
    }
    is_ascii_chars_encode_utf8(text);
    let b = encode_utf8(text);
    let expected = if m >= 1000 && m % 100 == 0 {
        digit_bytes(m / 1000)
    } else {
        digit_bytes(m / 1000) + seq![POINT] + fraction_bytes(m)
    };
    assert(b.len() == expected.len());
    assert forall|i: int| 0 <= i < b.len() implies b[i] == expected[i] by {
        assert(b[i] == text[i] as u8);
        if i < n {
            assert(text[i] == whole[i]);
        }
    }
    assert(b =~= expected);
}

/// The bytes of the display of an amount: the sign, then the bytes of the
/// magnitude's display.
pub proof fn lemma_display_bytes(amount: int)
    ensures
        encode_utf8(money_text(amount)) == sign_bytes(amount < 0) + encode_utf8(
            magnitude_text(magnitude(amount)),
        ),
{
    let m = magnitude(amount);
    lemma_magnitude_bytes(m);
    let inner = magnitude_text(m);
    let text = money_text(amount);
    is_ascii_chars_encode_utf8(inner);
    if amount < 0 {
        assert forall|i: int| 0 <= i < text.len() implies '\0' <= #[trigger] text[i] <= '\u{7f}' by {
            if i > 0 {
                assert(text[i] == inner[i - 1]);
            }
        }
        is_ascii_chars_encode_utf8(text);
        let b = encode_utf8(text);
        let expected = sign_bytes(true) + encode_utf8(inner);
        assert(b.len() == expected.len());
        assert forall|i: int| 0 <= i < b.len() implies b[i] == expected[i] by {
            assert(b[i] == text[i] as u8);
            if i > 0 {
                assert(text[i] == inner[i - 1]);
                assert(encode_utf8(inner)[i - 1] == inner[i - 1] as u8);
            }
        }
        assert(b =~= expected);
    } else {
        assert(sign_bytes(false) + encode_utf8(inner) =~= encode_utf8(inner));
    }
}

/// The amount that a display shows: the amount itself, but for one of at
/// least a thousand either way whose last two digits are zero, of which
/// only the whole units are displayed.
pub open spec fn displayed(amount: int) -> int {
    let m = magnitude(amount);
    if m >= 1000 && m % 100 == 0 {
        signed(amount < 0, (m / 1000 * 1000) as int)
    } else {
        amount
    }
}

/// Whether the display of an amount shows all of it: every amount but
/// those of at least a thousand either way that end in two zeros and are
/// no whole number of units.
pub open spec fn shows_all(amount: int) -> bool {
    let m = magnitude(amount);
    !(m >= 1000 && m % 100 == 0 && m % 1000 != 0)
}

/// Reading the display of an amount gives the amount that the display
/// shows.
pub proof fn lemma_display_is_read(amount: i64)
    ensures
        parse_spec(encode_utf8(money_text(amount as int))) == Ok::<Money, MoneyFromStringError>(
            Money(displayed(amount as int) as i64),
        ),
{
    let m = magnitude(amount as int);
    let q = m / 1000;
    let negative = amount < 0;
    lemma_display_bytes(amount as int);
    lemma_magnitude_bytes(m);
    lemma_dec_digits_are_digits(q);
    let w = digit_bytes(q);
    lemma_digits_write_their_number(q, w);
    if m >= 1000 && m % 100 == 0 {
        lemma_read_whole(negative, w);
    } else {
        let f = fraction_bytes(m);
        lemma_fraction_bytes(m);
        lemma_read_pointed(negative, w, f);
        assert(sign_bytes(negative) + (w + seq![POINT] + f) =~= sign_bytes(negative) + w
            + seq![POINT] + f);
        assert(q * 1000 + m % 1000 == m);
    }
}

/// Reading is the inverse of display: the display of an amount is read
/// back as that amount, for every amount whose display shows all of it.
pub proof fn lemma_round_trip(amount: i64)
    requires
        shows_all(amount as int),
    ensures
        parse_spec(encode_utf8(money_text(amount as int))) == Ok::<Money, MoneyFromStringError>(
            Money(amount),
        ),
{
    lemma_display_is_read(amount);
    let m = magnitude(amount as int);
    if m >= 1000 && m % 100 == 0 {
        assert(m / 1000 * 1000 == m);
    }
}

} // verus!
