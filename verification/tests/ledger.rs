use aekosia::error::{Error, StoreFault};
use aekosia::key::Key;
use aekosia::ledger::Ledger;
use aekosia::money::Money;
use aekosia::store::{StoreAction, StoreReply, TransferRecord};
use aekosia::types::PersonInfo;

const A: Key = Key { bits: 0xA };
const B: Key = Key { bits: 0xB };

fn two_accounts(a: i64, b: i64) -> Ledger {
    let mut ledger = Ledger::new();
    assert_eq!(ledger.register_with(1, A), Ok(A));
    assert_eq!(ledger.register_with(2, B), Ok(B));
    assert_eq!(ledger.print_money(A, a), Ok(()));
    assert_eq!(ledger.print_money(B, b), Ok(()));
    ledger
}

#[test]
fn registration_gives_a_fresh_key() {
    let mut ledger = Ledger::new();
    let key = ledger.register(222).unwrap();
    assert_eq!(ledger.get_from_discord(222), Ok(key));
    assert_eq!(ledger.get_balance(key), Ok(Money(0)));
    assert_eq!(
        ledger.get_from_uuid(key),
        Ok(PersonInfo { discord_id: 222, balance: 0 })
    );
    let other = ledger.register(223).unwrap();
    assert_ne!(key, other);
}

#[test]
fn registration_of_the_same_person_fails_and_changes_nothing() {
    let mut ledger = Ledger::new();
    let key = ledger.register(222).unwrap();
    assert_eq!(ledger.print_money(key, 70), Ok(()));
    assert_eq!(
        ledger.register(222),
        Err(Error::AlreadyExists("person"))
    );
    assert_eq!(ledger.get_from_discord(222), Ok(key));
    assert_eq!(ledger.get_balance(key), Ok(Money(70)));
    assert_eq!(
        ledger.register_with(222, Key { bits: 5 }),
        Err(Error::AlreadyExists("person"))
    );
    assert_eq!(
        ledger.get_balance(Key { bits: 5 }),
        Err(Error::NotFound("account"))
    );
    assert_eq!(
        ledger.get_from_uuid(Key { bits: 5 }),
        Err(Error::NotFound("person"))
    );
}

#[test]
fn registration_under_a_key_in_use_is_the_fault_of_the_store() {
    let mut ledger = Ledger::new();
    assert_eq!(ledger.register_with(1, A), Ok(A));
    assert_eq!(
        ledger.register_with(2, A),
        Err(Error::Database(StoreFault::UniqueViolation))
    );
    assert_eq!(ledger.get_from_discord(2), Err(Error::NotFound("person")));
    assert_eq!(ledger.get_from_discord(1), Ok(A));
}

#[test]
fn lookups_of_what_is_not_there() {
    let ledger = Ledger::new();
    assert_eq!(ledger.get_from_discord(222), Err(Error::NotFound("person")));
    assert_eq!(ledger.get_from_uuid(A), Err(Error::NotFound("person")));
    assert_eq!(ledger.get_balance(A), Err(Error::NotFound("account")));
}

#[test]
fn account_without_a_person_has_a_balance_and_no_person() {
    let mut ledger = Ledger::new();
    assert_eq!(
        ledger.perform(StoreAction::InsertAccount { id: A }),
        StoreReply::Done { rows: 1 }
    );
    assert_eq!(ledger.get_balance(A), Ok(Money(0)));
    assert_eq!(ledger.get_from_uuid(A), Err(Error::NotFound("person")));
}

#[test]
fn payment_that_overdraws_fails_and_changes_nothing() {
    let mut ledger = two_accounts(100, 0);
    assert_eq!(
        ledger.payment_with(B, A, 150, None, Key { bits: 1 }),
        Err(Error::InsufficientFunds)
    );
    assert_eq!(ledger.get_balance(A), Ok(Money(100)));
    assert_eq!(ledger.get_balance(B), Ok(Money(0)));
    assert_eq!(ledger.transfers(), vec![]);
}

#[test]
fn payment_moves_the_amount_and_leaves_one_record() {
    let mut ledger = two_accounts(100, 0);
    assert_eq!(ledger.payment_with(B, A, 10, None, Key { bits: 1 }), Ok(()));
    assert_eq!(ledger.get_balance(A), Ok(Money(90)));
    assert_eq!(ledger.get_balance(B), Ok(Money(10)));
    let record = TransferRecord { id: Key { bits: 1 }, from: A, to: B, amount: 10 };
    assert_eq!(ledger.transfers(), vec![record]);
    assert_eq!(
        ledger.perform(StoreAction::InsertTransfer { record }),
        StoreReply::Failed(StoreFault::UniqueViolation)
    );
    assert_eq!(
        ledger.payment_with(B, A, 10, None, Key { bits: 1 }),
        Err(Error::Database(StoreFault::UniqueViolation))
    );
    assert_eq!(ledger.get_balance(A), Ok(Money(90)));
    assert_eq!(ledger.get_balance(B), Ok(Money(10)));
    assert_eq!(ledger.transfers(), vec![record]);
}

#[test]
fn payment_with_a_key_of_its_own() {
    let mut ledger = two_accounts(100, 0);
    assert_eq!(ledger.payment(B, A, 10, None), Ok(()));
    assert_eq!(ledger.payment(B, A, 10, Some(false)), Ok(()));
    assert_eq!(ledger.get_balance(A), Ok(Money(80)));
    assert_eq!(ledger.get_balance(B), Ok(Money(20)));
    assert_eq!(ledger.payment(B, A, 81, None), Err(Error::InsufficientFunds));
    let log = ledger.transfers();
    assert_eq!(log.len(), 2);
    assert_ne!(log[0].id, log[1].id);
    for record in log {
        assert_eq!((record.from, record.to, record.amount), (A, B, 10));
        assert_eq!((record.id.bits >> 76) & 0xf, 7);
    }
}

#[test]
fn payment_of_nothing_is_forbidden_unless_forced() {
    let mut ledger = two_accounts(100, 0);
    for force in [None, Some(false)] {
        assert_eq!(
            ledger.payment_with(B, A, 0, force, Key { bits: 1 }),
            Err(Error::Forbidden("Cannot send zero money"))
        );
        assert_eq!(
            ledger.payment_with(B, A, -5, force, Key { bits: 1 }),
            Err(Error::Forbidden("You cannot pay negative money"))
        );
    }
    assert_eq!(ledger.transfers(), vec![]);
    assert_eq!(ledger.payment_with(B, A, 0, Some(true), Key { bits: 1 }), Ok(()));
    assert_eq!(ledger.get_balance(A), Ok(Money(100)));
    assert_eq!(ledger.get_balance(B), Ok(Money(0)));
    assert_eq!(
        ledger.transfers(),
        vec![TransferRecord { id: Key { bits: 1 }, from: A, to: B, amount: 0 }]
    );
}

#[test]
fn forbidden_amount_is_seen_before_the_accounts() {
    let mut ledger = Ledger::new();
    assert_eq!(
        ledger.payment_with(B, A, 0, None, Key { bits: 1 }),
        Err(Error::Forbidden("Cannot send zero money"))
    );
    assert_eq!(
        ledger.payment_with(B, A, 1, None, Key { bits: 1 }),
        Err(Error::NotFound("account"))
    );
}

#[test]
fn forced_payment_of_less_than_nothing_goes_the_other_way() {
    let mut ledger = two_accounts(100, 50);
    assert_eq!(ledger.payment_with(B, A, -30, Some(true), Key { bits: 1 }), Ok(()));
    assert_eq!(ledger.get_balance(A), Ok(Money(130)));
    assert_eq!(ledger.get_balance(B), Ok(Money(20)));
    assert_eq!(
        ledger.transfers(),
        vec![TransferRecord { id: Key { bits: 1 }, from: A, to: B, amount: -30 }]
    );
}

#[test]
fn forced_payment_still_needs_the_funds() {
    let mut ledger = two_accounts(100, 0);
    assert_eq!(
        ledger.payment_with(B, A, 150, Some(true), Key { bits: 1 }),
        Err(Error::InsufficientFunds)
    );
    assert_eq!(ledger.print_money(A, -200), Ok(()));
    assert_eq!(
        ledger.payment_with(B, A, 0, Some(true), Key { bits: 1 }),
        Err(Error::InsufficientFunds)
    );
    assert_eq!(ledger.get_balance(A), Ok(Money(-100)));
}

#[test]
fn payment_between_accounts_that_are_not_there() {
    let mut ledger = two_accounts(100, 0);
    let nobody = Key { bits: 0xC };
    assert_eq!(
        ledger.payment_with(B, nobody, 10, None, Key { bits: 1 }),
        Err(Error::NotFound("account"))
    );
    assert_eq!(
        ledger.payment_with(nobody, A, 10, None, Key { bits: 1 }),
        Err(Error::NotFound("account"))
    );
    assert_eq!(ledger.get_balance(A), Ok(Money(100)));
    assert_eq!(
        ledger.payment_with(nobody, A, 150, None, Key { bits: 1 }),
        Err(Error::InsufficientFunds)
    );
    assert_eq!(ledger.transfers(), vec![]);
}

#[test]
fn payment_to_oneself_leaves_the_balance_and_a_record() {
    let mut ledger = two_accounts(100, 0);
    assert_eq!(ledger.payment_with(A, A, 40, None, Key { bits: 1 }), Ok(()));
    assert_eq!(ledger.get_balance(A), Ok(Money(100)));
    assert_eq!(
        ledger.transfers(),
        vec![TransferRecord { id: Key { bits: 1 }, from: A, to: A, amount: 40 }]
    );
    assert_eq!(
        ledger.payment_with(A, A, 101, None, Key { bits: 2 }),
        Err(Error::InsufficientFunds)
    );
}

#[test]
fn payment_out_of_range_is_the_fault_of_the_store_and_changes_nothing() {
    let mut ledger = two_accounts(100, i64::MAX);
    assert_eq!(
        ledger.payment_with(B, A, 1, None, Key { bits: 1 }),
        Err(Error::Database(StoreFault::OutOfRange))
    );
    assert_eq!(ledger.get_balance(A), Ok(Money(100)));
    assert_eq!(ledger.get_balance(B), Ok(Money(i64::MAX)));
    let mut ledger = two_accounts(i64::MAX, 0);
    assert_eq!(
        ledger.payment_with(B, A, -1, Some(true), Key { bits: 1 }),
        Err(Error::Database(StoreFault::OutOfRange))
    );
    assert_eq!(ledger.get_balance(A), Ok(Money(i64::MAX)));
    assert_eq!(ledger.get_balance(B), Ok(Money(0)));
    assert_eq!(ledger.transfers(), vec![]);
}

#[test]
fn printing_money_adds_either_sign() {
    let mut ledger = two_accounts(0, 0);
    assert_eq!(ledger.print_money(A, 10), Ok(()));
    assert_eq!(ledger.print_money(A, 15), Ok(()));
    assert_eq!(ledger.get_balance(A), Ok(Money(25)));
    assert_eq!(ledger.print_money(A, -40), Ok(()));
    assert_eq!(ledger.get_balance(A), Ok(Money(-15)));
    assert_eq!(ledger.get_balance(B), Ok(Money(0)));
}

#[test]
fn printing_money_for_nobody_does_nothing() {
    let mut ledger = two_accounts(0, 0);
    assert_eq!(ledger.print_money(Key { bits: 0xC }, 10), Ok(()));
    assert_eq!(
        ledger.get_balance(Key { bits: 0xC }),
        Err(Error::NotFound("account"))
    );
}

#[test]
fn printing_money_out_of_range_is_the_fault_of_the_store() {
    let mut ledger = two_accounts(i64::MAX, i64::MIN + 5);
    assert_eq!(
        ledger.print_money(A, 1),
        Err(Error::Database(StoreFault::OutOfRange))
    );
    assert_eq!(ledger.get_balance(A), Ok(Money(i64::MAX)));
    assert_eq!(ledger.print_money(B, -5), Ok(()));
    assert_eq!(
        ledger.print_money(B, -1),
        Err(Error::Database(StoreFault::OutOfRange))
    );
    assert_eq!(ledger.get_balance(B), Ok(Money(i64::MIN)));
}

#[test]
fn one_payment_too_many_fails_for_lack_of_funds() {
    let n = 6;
    let mut ledger = two_accounts(10 * (n - 1), 0);
    for d in 3..6_u64 {
        assert!(ledger.register_with(d, Key { bits: d as u128 }).is_ok());
    }
    let payees = [B, Key { bits: 3 }, Key { bits: 4 }, B, Key { bits: 5 }, Key { bits: 3 }];
    let mut paid = 0;
    let mut refused = 0;
    for (i, to) in payees.iter().enumerate() {
        match ledger.payment_with(*to, A, 10, None, Key { bits: 100 + i as u128 }) {
            Ok(()) => paid += 1,
            Err(Error::InsufficientFunds) => refused += 1,
            Err(other) => panic!("{:?}", other),
        }
        assert!(ledger.get_balance(A).unwrap().0 >= 0);
    }
    assert_eq!(paid, n - 1);
    assert_eq!(refused, 1);
    assert_eq!(ledger.transfers().len(), 5);
    assert_eq!(ledger.get_balance(A), Ok(Money(0)));
    assert_eq!(ledger.get_balance(B), Ok(Money(20)));
    assert_eq!(ledger.get_balance(Key { bits: 3 }), Ok(Money(10)));
    assert_eq!(ledger.get_balance(Key { bits: 4 }), Ok(Money(10)));
    assert_eq!(ledger.get_balance(Key { bits: 5 }), Ok(Money(10)));
}

#[test]
fn statements_answer_as_the_store_does() {
    let mut ledger = Ledger::new();
    assert_eq!(ledger.perform(StoreAction::Begin), StoreReply::Done { rows: 0 });
    assert_eq!(
        ledger.perform(StoreAction::ReadBalance { account: A }),
        StoreReply::Balance(None)
    );
    assert_eq!(
        ledger.perform(StoreAction::Credit { account: A, amount: 5 }),
        StoreReply::Done { rows: 0 }
    );
    assert_eq!(
        ledger.perform(StoreAction::InsertPerson { id: A, discord_id: 1 }),
        StoreReply::Failed(StoreFault::Other)
    );
    assert_eq!(
        ledger.perform(StoreAction::InsertAccount { id: A }),
        StoreReply::Done { rows: 1 }
    );
    assert_eq!(
        ledger.perform(StoreAction::InsertAccount { id: A }),
        StoreReply::Failed(StoreFault::UniqueViolation)
    );
    assert_eq!(
        ledger.perform(StoreAction::InsertPerson { id: A, discord_id: 1 }),
        StoreReply::Done { rows: 1 }
    );
    assert_eq!(
        ledger.perform(StoreAction::InsertPerson { id: A, discord_id: 2 }),
        StoreReply::Failed(StoreFault::UniqueViolation)
    );
    assert_eq!(
        ledger.perform(StoreAction::Credit { account: A, amount: 5 }),
        StoreReply::Done { rows: 1 }
    );
    assert_eq!(
        ledger.perform(StoreAction::Debit { account: A, amount: 7 }),
        StoreReply::Done { rows: 1 }
    );
    assert_eq!(
        ledger.perform(StoreAction::ReadBalance { account: A }),
        StoreReply::Balance(Some(-2))
    );
    assert_eq!(
        ledger.perform(StoreAction::Debit { account: A, amount: i64::MAX }),
        StoreReply::Failed(StoreFault::OutOfRange)
    );
    assert_eq!(
        ledger.perform(StoreAction::Credit { account: A, amount: i64::MIN }),
        StoreReply::Failed(StoreFault::OutOfRange)
    );
    assert_eq!(ledger.get_balance(A), Ok(Money(-2)));
    assert_eq!(
        ledger.perform(StoreAction::Debit { account: A, amount: i64::MIN }),
        StoreReply::Done { rows: 1 }
    );
    assert_eq!(ledger.perform(StoreAction::Commit), StoreReply::Done { rows: 0 });
    assert_eq!(ledger.get_balance(A), Ok(Money(i64::MAX - 1)));
}

#[test]
fn second_registration_answers_that_the_person_is_registered() {
    let mut ledger = Ledger::new();
    let key = ledger.register(222).unwrap();
    let error = ledger.register(222).unwrap_err();
    assert_eq!(error, Error::AlreadyExists("person"));
    assert_eq!(
        error.response(),
        (400, String::from("This person is already registered!"))
    );
    assert_eq!(ledger.get_from_discord(222), Ok(key));
}
