use aekosia::parse::MoneyFromStringError;
use aekosia::money::{
    Money, DOUBLE_DIGIT, DOUBLE_NEG_DIGIT, SINGLE_DIGIT, SINGLE_NEG_DIGIT, TRIPLE_DIGIT,
    TRIPLE_NEG_DIGIT,
};

#[test]
fn to_str() {
    assert_eq!(Money(42000).to_string(), "42");
}

#[test]
fn to_str_decimal() {
    assert_eq!(Money(4242).to_string(), "4.242");
}

#[test]
fn to_str_zero() {
    assert_eq!(Money(0).to_string(), "0.000");
}

#[test]
fn to_str_single_digit() {
    for i in 1..=9 {
        assert_eq!(
            Money(i).to_string(),
            SINGLE_DIGIT.to_owned() + &i.to_string()
        );
    }
}

#[test]
fn to_str_single_neg_digit() {
    for i in -9..=-1_i64 {
        assert_eq!(
            Money(i).to_string(),
            SINGLE_NEG_DIGIT.to_owned() + &i.abs().to_string()
        );
    }
}

#[test]
fn to_str_double_digit() {
    for i in 10..=99 {
        assert_eq!(
            Money(i).to_string(),
            DOUBLE_DIGIT.to_owned() + &i.to_string()
        );
    }
}

#[test]
fn to_str_double_neg_digit() {
    for i in -99..=-10_i64 {
        assert_eq!(
            Money(i).to_string(),
            DOUBLE_NEG_DIGIT.to_owned() + &i.abs().to_string()
        );
    }
}

#[test]
fn to_str_triple_digit() {
    for i in 100..=999 {
        assert_eq!(
            Money(i).to_string(),
            TRIPLE_DIGIT.to_owned() + &i.to_string()
        );
    }
}

#[test]
fn to_str_triple_neg_digit() {
    for i in -999..=-100_i64 {
        assert_eq!(
            Money(i).to_string(),
            TRIPLE_NEG_DIGIT.to_owned() + &i.abs().to_string()
        );
    }
}

#[test]
fn from_str() {
    assert_eq!(Money::from_str("42.50").unwrap(), Money(42500));
}

#[test]
fn from_str_err() {
    assert_eq!(
        Money::from_str("42.5071").unwrap_err(),
        MoneyFromStringError::ValueTooPrecise
    );
}
