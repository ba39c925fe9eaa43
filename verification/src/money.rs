//! Fixed-point money: a signed count of thousandths of the displayed unit.

use vstd::prelude::*;
use crate::decimal::{
    dec_digits, digit_char, digit_str, int_text, magnitude, magnitude_of, push_decimal,
    push_signed,
};

verus! {

/// Number of digits that the display keeps after the decimal point.
pub const PRECISION: usize = 3;

/// What an amount of one digit is written after.
pub const SINGLE_DIGIT: &'static str = "0.00";

/// What a negative amount of one digit is written after.
pub const SINGLE_NEG_DIGIT: &'static str = "-0.00";

/// What an amount of two digits is written after.
pub const DOUBLE_DIGIT: &'static str = "0.0";

/// What a negative amount of two digits is written after.
pub const DOUBLE_NEG_DIGIT: &'static str = "-0.0";

/// What an amount of three digits is written after.
pub const TRIPLE_DIGIT: &'static str = "0.";

/// What a negative amount of three digits is written after.
pub const TRIPLE_NEG_DIGIT: &'static str = "-0.";

/// An amount of money, counted in thousandths of the displayed unit.
#[derive(Debug, Clone, Copy, PartialEq, Eq, Structural)]
pub struct Money(pub i64);

impl core::ops::Add for Money {
    type Output = Money;

    fn add(self, other: Money) -> (sum: Money) {
        Money(self.0 + other.0)
    }
}

impl vstd::std_specs::ops::AddSpecImpl for Money {
    open spec fn obeys_add_spec() -> bool {
        true
    }

    open spec fn add_req(self, other: Money) -> bool {
        i64::MIN <= self.0 + other.0 <= i64::MAX
    }

    open spec fn add_spec(self, other: Money) -> Money {
        Money((self.0 + other.0) as i64)
    }
}

impl core::ops::Add<i64> for Money {
    type Output = Money;

    fn add(self, other: i64) -> (sum: Money) {
        Money(self.0 + other)
    }
}

impl vstd::std_specs::ops::AddSpecImpl<i64> for Money {
    open spec fn obeys_add_spec() -> bool {
        true
    }

    open spec fn add_req(self, other: i64) -> bool {
        i64::MIN <= self.0 + other <= i64::MAX
    }

    open spec fn add_spec(self, other: i64) -> Money {
        Money((self.0 + other) as i64)
    }
}

impl core::ops::Sub for Money {
    type Output = Money;

    fn sub(self, other: Money) -> (difference: Money) {
        Money(self.0 - other.0)
    }
}

impl vstd::std_specs::ops::SubSpecImpl for Money {
    open spec fn obeys_sub_spec() -> bool {
        true
    }

    open spec fn sub_req(self, other: Money) -> bool {
        i64::MIN <= self.0 - other.0 <= i64::MAX
    }

    open spec fn sub_spec(self, other: Money) -> Money {
        Money((self.0 - other.0) as i64)
    }
}

impl core::ops::Sub<i64> for Money {
    type Output = Money;

    fn sub(self, other: i64) -> (difference: Money) {
        Money(self.0 - other)
    }
}

impl vstd::std_specs::ops::SubSpecImpl<i64> for Money {
    open spec fn obeys_sub_spec() -> bool {
        true
    }

    open spec fn sub_req(self, other: i64) -> bool {
        i64::MIN <= self.0 - other <= i64::MAX
    }

    open spec fn sub_spec(self, other: i64) -> Money {
        Money((self.0 - other) as i64)
    }
}

/// The decimal point and the three digits of `m` below a thousand.
pub open spec fn fraction_text(m: nat) -> Seq<char> {
    seq![
        '.',
        digit_char((m / 100 % 10) as int),
        digit_char((m / 10 % 10) as int),
        digit_char((m % 10) as int),
    ]
}

/// The display of a magnitude. The whole units come first. Where the
/// magnitude is at least a thousand and its last two digits are zero,
/// nothing follows them; everywhere else the point and all three
/// fractional digits do.
pub open spec fn magnitude_text(m: nat) -> Seq<char> {
    if m >= 1000 && m % 100 == 0 {
        dec_digits(m / 1000)
    } else {
        dec_digits(m / 1000) + fraction_text(m)
    }
}

/// The display of an amount: its magnitude, after a minus sign where the
/// amount is negative.
pub open spec fn money_text(amount: int) -> Seq<char> {
    if amount < 0 {
        seq!['-'] + magnitude_text(magnitude(amount))
    } else {
        magnitude_text(magnitude(amount))
    }
}

/// Writes the decimal text of `value` after `lazy`.
pub fn format_from_lazy(lazy: String, value: i64) -> (text: String)
    ensures
        text@ == lazy@ + int_text(value as int),
{
    let mut cloned: String = lazy;
    push_signed(&mut cloned, value);
    cloned
}

/// The digits of a number below a thousand, as `dec_digits` gives them.
pub proof fn lemma_dec_digits_small(m: nat)
    requires
        m < 1000,
    ensures
        m < 10 ==> dec_digits(m) == seq![digit_char(m as int)],
        10 <= m < 100 ==> dec_digits(m) == seq![
            digit_char((m / 10) as int),
            digit_char((m % 10) as int),
        ],
        100 <= m ==> dec_digits(m) == seq![
            digit_char((m / 100) as int),
            digit_char((m / 10 % 10) as int),
            digit_char((m % 10) as int),
        ],
{
    reveal_with_fuel(dec_digits, 4);
    if 10 <= m < 100 {
        assert(dec_digits(m) =~= seq![digit_char((m / 10) as int), digit_char((m % 10) as int)]);
    }
    if 100 <= m {
        assert(m / 10 / 10 == m / 100);
        assert(dec_digits(m) =~= seq![
            digit_char((m / 100) as int),
            digit_char((m / 10 % 10) as int),
            digit_char((m % 10) as int),
        ]);
    }
}

/// What the display of a magnitude below a thousand starts with.
pub open spec fn band_prefix(m: nat) -> Seq<char> {
    if m < 10 {
        SINGLE_DIGIT@
    } else if m < 100 {
        DOUBLE_DIGIT@
    } else {
        TRIPLE_DIGIT@
    }
}

/// Nothing is displayed as `0.000`.
pub proof fn lemma_zero_display()
    ensures
        money_text(0) == "0.000"@,
{
    reveal_strlit("0.000");
    lemma_dec_digits_small(0);
    assert(money_text(0) =~= "0.000"@);
}

/// An amount other than nothing whose magnitude is below a thousand is
/// displayed as its sign, `0.`, as many zeros as make the digits three,
/// and the magnitude.
pub proof fn lemma_small_display(amount: i64)
    requires
        -1000 < amount < 1000,
        amount != 0,
    ensures
        amount > 0 ==> money_text(amount as int) == band_prefix(magnitude(amount as int))
            + dec_digits(magnitude(amount as int)),
        amount < 0 ==> money_text(amount as int) == seq!['-'] + band_prefix(
            magnitude(amount as int),
        ) + dec_digits(magnitude(amount as int)),
{
    reveal_strlit("0.00");
    reveal_strlit("0.0");
    reveal_strlit("0.");
    let m = magnitude(amount as int);
    lemma_dec_digits_small(m);
    lemma_dec_digits_small(0);
    assert(magnitude_text(m) =~= band_prefix(m) + dec_digits(m));
    if amount < 0 {
        assert(money_text(amount as int) =~= seq!['-'] + band_prefix(m) + dec_digits(m));
    }
}

/// A whole number of units, one at least, is displayed as that number
/// alone.
pub proof fn lemma_whole_display(units: int)
    requires
        units != 0,
        i64::MIN <= units * 1000 <= i64::MAX,
    ensures
        money_text(units * 1000) == int_text(units),
{
    let m = magnitude(units * 1000);
    assert(m == magnitude(units) * 1000);
    assert(m >= 1000 && m % 100 == 0 && m / 1000 == magnitude(units));
}

impl Money {
    /// The amount in thousandths of the displayed unit.
    pub open spec fn view(&self) -> int {
        self.0 as int
    }

    /// The amount in thousandths of the displayed unit.
    pub fn value(&self) -> (v: i64)
        ensures
            v == self.0,
    {
        self.0
    }

    /// The display of the amount.
    pub fn to_string(&self) -> (text: String)
        ensures
            text@ == money_text(self.0 as int),
    {
        let v: i64 = self.0;
        let m: u64 = magnitude_of(v);
        proof {
            reveal_strlit("0.000");
            reveal_strlit("0.00");
            reveal_strlit("-0.00");
            reveal_strlit("0.0");
            reveal_strlit("-0.0");
            reveal_strlit("0.");
            reveal_strlit("-0.");
            reveal_strlit(".");
            reveal_strlit("-");
            if m < 1000 {
                lemma_dec_digits_small(m as nat);
            }
        }
        if v == 0 {
            let text = String::from_str("0.000");
            assert(text@ =~= money_text(0));
            text
        } else if m < 10 {
            let prefix = if v < 0 {
                SINGLE_NEG_DIGIT
            } else {
                SINGLE_DIGIT
            };
            let text = format_from_lazy(String::from_str(prefix), m as i64);
            assert(text@ =~= money_text(v as int));
            text
        } else if m < 100 {
            let prefix = if v < 0 {
                DOUBLE_NEG_DIGIT
            } else {
                DOUBLE_DIGIT
            };
            let text = format_from_lazy(String::from_str(prefix), m as i64);
            assert(text@ =~= money_text(v as int));
            text
        } else if m < 1000 {
            let prefix = if v < 0 {
                TRIPLE_NEG_DIGIT
            } else {
                TRIPLE_DIGIT
            };
            let text = format_from_lazy(String::from_str(prefix), m as i64);
            assert(text@ =~= money_text(v as int));
            text
        } else {
            let mut text = String::new();
            if v < 0 {
                text.append("-");
            }
            push_decimal(&mut text, m / 1000);
            if m % 100 != 0 {
                text.append(".");
                text.append(digit_str(m / 100 % 10));
                text.append(digit_str(m / 10 % 10));
                text.append(digit_str(m % 10));
            }
            assert(text@ =~= money_text(v as int));
            text
        }
    }
}

} // verus!
