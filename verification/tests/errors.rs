use aekosia::error::{Error, StoreFault, UniqueValueError};

#[test]
fn each_error_has_its_answer() {
    assert_eq!(
        Error::UUID(String::from("invalid length")).response(),
        (400, String::from("invalid length"))
    );
    assert_eq!(
        Error::NotFound("person").response(),
        (404, String::from("Could not find person"))
    );
    assert_eq!(
        Error::AlreadyExists("person").response(),
        (400, String::from("This person is already registered!"))
    );
    assert_eq!(
        Error::AlreadyExists("account").response(),
        (400, String::from("This account is already registered!"))
    );
    assert_eq!(
        Error::Forbidden("Cannot send zero money").response(),
        (403, String::from("Cannot send zero money"))
    );
    assert_eq!(
        Error::InsufficientFunds.response(),
        (400, String::from("You lack the funds to send this payment"))
    );
}

#[test]
fn failures_of_the_ledger_show_nothing_of_themselves() {
    let generic = (500, String::from("An unexpected error has occurred"));
    assert_eq!(Error::Database(StoreFault::Other).response(), generic);
    assert_eq!(Error::Database(StoreFault::UniqueViolation).response(), generic);
    assert_eq!(Error::Database(StoreFault::OutOfRange).response(), generic);
    assert_eq!(Error::Test.response(), generic);
}

#[test]
fn fault_of_each_status_code() {
    assert_eq!(StoreFault::from_sqlstate(Some("23505")), StoreFault::UniqueViolation);
    assert_eq!(StoreFault::from_sqlstate(Some("22003")), StoreFault::OutOfRange);
    assert_eq!(StoreFault::from_sqlstate(Some("23503")), StoreFault::Other);
    assert_eq!(StoreFault::from_sqlstate(Some("2350")), StoreFault::Other);
    assert_eq!(StoreFault::from_sqlstate(Some("235050")), StoreFault::Other);
    assert_eq!(StoreFault::from_sqlstate(Some("")), StoreFault::Other);
    assert_eq!(StoreFault::from_sqlstate(None), StoreFault::Other);
}

#[test]
fn or_already_exists_names_the_value() {
    let unique: Result<u8, Error> = Err(Error::Database(StoreFault::UniqueViolation));
    assert_eq!(
        unique.or_already_exists("person"),
        Err(Error::AlreadyExists("person"))
    );
    let other: Result<u8, Error> = Err(Error::Database(StoreFault::Other));
    assert_eq!(
        other.or_already_exists("person"),
        Err(Error::Database(StoreFault::Other))
    );
    let missing: Result<u8, Error> = Err(Error::NotFound("account"));
    assert_eq!(
        missing.or_already_exists("person"),
        Err(Error::NotFound("account"))
    );
    let fine: Result<u8, Error> = Ok(3);
    assert_eq!(fine.or_already_exists("person"), Ok(3));
}

#[test]
fn or_already_exists_on_a_fault_of_the_store() {
    let unique: Result<u8, StoreFault> = Err(StoreFault::UniqueViolation);
    assert_eq!(
        unique.or_already_exists("person"),
        Err(Error::AlreadyExists("person"))
    );
    let range: Result<u8, StoreFault> = Err(StoreFault::OutOfRange);
    assert_eq!(
        range.or_already_exists("person"),
        Err(Error::Database(StoreFault::OutOfRange))
    );
    let fine: Result<u8, StoreFault> = Ok(3);
    assert_eq!(fine.or_already_exists("person"), Ok(3));
}
