//! Decimal text of unsigned and signed integers.

use vstd::prelude::*;

verus! {

/// The character of one decimal digit.
pub open spec fn digit_char(d: int) -> char
    recommends
        0 <= d < 10,
{
    if d == 0 {
        '0'
    } else if d == 1 {
        '1'
    } else if d == 2 {
        '2'
    } else if d == 3 {
        '3'
    } else if d == 4 {
        '4'
    } else if d == 5 {
        '5'
    } else if d == 6 {
        '6'
    } else if d == 7 {
        '7'
    } else if d == 8 {
        '8'
    } else {
        '9'
    }
}

/// The decimal digits of `n`, most significant first, without leading
/// zeros; zero is the single digit `0`.
pub open spec fn dec_digits(n: nat) -> Seq<char>
    decreases n,
{
    if n < 10 {
        seq![digit_char(n as int)]
    } else {
        dec_digits(n / 10).push(digit_char((n % 10) as int))
    }
}

/// The decimal text of a signed integer: a minus sign, where it is
/// negative, and the digits of its magnitude.
pub open spec fn int_text(v: int) -> Seq<char> {
    if v < 0 {
        seq!['-'] + dec_digits((-v) as nat)
    } else {
        dec_digits(v as nat)
    }
}

/// The magnitude of a signed integer.
pub open spec fn magnitude(v: int) -> nat {
    if v < 0 {
        (-v) as nat
    } else {
        v as nat
    }
}

/// The magnitude of `v`, which fits in 64 bits for every `i64`.
pub fn magnitude_of(v: i64) -> (m: u64)
    ensures
        m as nat == magnitude(v as int),
{
    if v >= 0 {
        v as u64
    } else {
        let below: i64 = -(v + 1);
        (below as u64) + 1
    }
}

/// One decimal digit as a string of one character.
pub fn digit_str(d: u64) -> (s: &'static str)
    requires
        d < 10,
    ensures
        s@ == seq![digit_char(d as int)],
{
    proof {
        reveal_strlit("0");
        reveal_strlit("1");
        reveal_strlit("2");
        reveal_strlit("3");
        reveal_strlit("4");
        reveal_strlit("5");
        reveal_strlit("6");
        reveal_strlit("7");
        reveal_strlit("8");
        reveal_strlit("9");
    }
    let s: &'static str = if d == 0 {
        "0"
    } else if d == 1 {
        "1"
    } else if d == 2 {
        "2"
    } else if d == 3 {
        "3"
    } else if d == 4 {
        "4"
    } else if d == 5 {
        "5"
    } else if d == 6 {
        "6"
    } else if d == 7 {
        "7"
    } else if d == 8 {
        "8"
    } else {
        "9"
    };
    assert(s@ =~= seq![digit_char(d as int)]);
    s
}

/// Appends the decimal digits of `n` to `out`.
pub fn push_decimal(out: &mut String, n: u64)
    ensures
        final(out)@ == old(out)@ + dec_digits(n as nat),
    decreases n,
{
    if n >= 10 {
        push_decimal(out, n / 10);
    }
    out.append(digit_str(n % 10));
    proof {
        let last = seq![digit_char((n % 10) as int)];
        if n >= 10 {
            assert(dec_digits(n as nat) =~= dec_digits((n / 10) as nat) + last);
            assert(out@ =~= old(out)@ + dec_digits(n as nat));
        } else {
            assert(dec_digits(n as nat) =~= last);
        }
    }
}

/// Appends the decimal text of a signed integer to `out`.
pub fn push_signed(out: &mut String, v: i64)
    ensures
        final(out)@ == old(out)@ + int_text(v as int),
{
    if v < 0 {
        proof {
            reveal_strlit("-");
        }
        out.append("-");
    }
    push_decimal(out, magnitude_of(v));
    proof {
        assert(out@ =~= old(out)@ + int_text(v as int));
    }
}

/// Whether a byte is a decimal digit.
pub open spec fn is_digit(b: u8) -> bool {
    48 <= b <= 57
}

/// Whether every byte is a decimal digit.
pub open spec fn all_digits(d: Seq<u8>) -> bool {
    forall|i: int| 0 <= i < d.len() ==> is_digit(#[trigger] d[i])
}

/// The number that a run of decimal digits writes.
pub open spec fn digits_value(d: Seq<u8>) -> nat
    decreases d.len(),
{
    if d.len() == 0 {
        0
    } else {
        digits_value(d.drop_last()) * 10 + (d.last() - 48) as nat
    }
}

/// The most that `read_digits` counts up to: a number this large is out
/// of the range of an `i64`.
pub const DIGITS_CAP: u128 = 10_000_000_000_000_000_000;

/// The smaller of two numbers.
pub open spec fn least(a: nat, b: nat) -> nat {
    if a <= b {
        a
    } else {
        b
    }
}

/// The digit that a byte writes.
pub fn digit_of(b: u8) -> (d: Option<u128>)
    ensures
        d is Some <==> is_digit(b),
        d matches Some(v) ==> v == b - 48,
{
    if 48 <= b && b <= 57 {
        Some((b - 48) as u128)
    } else {
        None
    }
}

/// Reads the run of digits `bytes[from..to]`, counting up to
/// `DIGITS_CAP` and no further. Gives nothing where a byte is no digit.
pub fn read_digits(bytes: &[u8], from: usize, to: usize) -> (r: Option<u128>)
    requires
        from <= to <= bytes@.len(),
    ensures
        r is Some <==> all_digits(bytes@.subrange(from as int, to as int)),
        r matches Some(v) ==> v as nat == least(
            digits_value(bytes@.subrange(from as int, to as int)),
            DIGITS_CAP as nat,
        ),
{
    let mut i: usize = from;
    let mut acc: u128 = 0;
    assert(bytes@.subrange(from as int, from as int) =~= Seq::<u8>::empty());
    while i < to
        invariant
            from <= i <= to <= bytes@.len(),
            all_digits(bytes@.subrange(from as int, i as int)),
            acc as nat == least(
                digits_value(bytes@.subrange(from as int, i as int)),
                DIGITS_CAP as nat,
            ),
        decreases to - i,
    {
        let ghost before = bytes@.subrange(from as int, i as int);
        let ghost after = bytes@.subrange(from as int, i as int + 1);
        proof {
            assert(after.drop_last() =~= before);
            assert(after.last() == bytes@[i as int]);
        }
        match digit_of(bytes[i]) {
            None => {
                proof {
                    let whole = bytes@.subrange(from as int, to as int);
                    assert(whole[i - from] == bytes@[i as int]);
                    assert(!is_digit(whole[i - from]));
                }
                return None;
            },
            Some(d) => {
                if acc < DIGITS_CAP {
                    let next: u128 = acc * 10 + d;
                    acc = if next < DIGITS_CAP {
                        next
                    } else {
                        DIGITS_CAP
                    };
                }
                proof {
                    assert forall|k: int| 0 <= k < after.len() implies is_digit(
                        #[trigger] after[k],
                    ) by {
                        if k < before.len() {
                            assert(after[k] == before[k]);
                        }
                    }
                }
                i += 1;
            },
        }
    }
    Some(acc)
}

} // verus!
