use aekosia::client::{
    format_with_query, read_balance, read_done, read_key, trim_trailing_slashes, AekosiaAPI,
    Answer, Error, FailedResponseError,
};
use aekosia::key::Key;
use aekosia::money::Money;
use aekosia::parse::MoneyFromStringError;

const KNOWN: Key = Key { bits: 0x0184_4ffb_50ee_7275_af11_e47e_51bc_92e7 };

fn api() -> AekosiaAPI {
    AekosiaAPI::new(reqwest::Client::new(), "http://127.0.0.1:8080")
}

fn answer(code: u16, body: &str) -> Answer {
    Answer { code, body: String::from(body) }
}

#[test]
fn trailing_slashes_do_not_count() {
    assert_eq!(trim_trailing_slashes("http://a/"), "http://a");
    assert_eq!(trim_trailing_slashes("http://a///"), "http://a");
    assert_eq!(trim_trailing_slashes("http://a/b"), "http://a/b");
    assert_eq!(trim_trailing_slashes("///"), "");
    assert_eq!(trim_trailing_slashes(""), "");
    assert_eq!(trim_trailing_slashes("h\u{e9}/\u{e9}//"), "h\u{e9}/\u{e9}");
    assert_eq!(
        AekosiaAPI::new(reqwest::Client::new(), "http://127.0.0.1:8080//").website_url,
        "http://127.0.0.1:8080"
    );
}

#[test]
fn format_with_query_joins_address_and_path() {
    assert_eq!(
        format_with_query("http://a", "/eco/balance/", 32),
        "http://a/eco/balance/"
    );
    assert_eq!(format_with_query("", "/x", 0), "/x");
    assert_eq!(format_with_query("y", "", usize::MAX), "y");
}

#[test]
fn each_request_has_its_address() {
    let api = api();
    assert_eq!(
        api.balance_url(&KNOWN),
        "http://127.0.0.1:8080/eco/balance/01844ffb50ee7275af11e47e51bc92e7"
    );
    assert_eq!(
        api.print_url(&KNOWN, &Money(10)),
        "http://127.0.0.1:8080/eco/print/01844ffb50ee7275af11e47e51bc92e7/10"
    );
    assert_eq!(
        api.print_url(&KNOWN, &Money(-4242)),
        "http://127.0.0.1:8080/eco/print/01844ffb50ee7275af11e47e51bc92e7/-4242"
    );
    assert_eq!(api.payment_url(), "http://127.0.0.1:8080/eco/payment");
    assert_eq!(
        api.person_url(&KNOWN),
        "http://127.0.0.1:8080/person/01844ffb50ee7275af11e47e51bc92e7"
    );
    assert_eq!(
        api.from_discord_url(&153_555_060_926_840_833),
        "http://127.0.0.1:8080/person/from_discord/153555060926840833"
    );
    assert_eq!(
        api.register_url(&222),
        "http://127.0.0.1:8080/person/register/222"
    );
}

#[test]
fn answer_of_failure_is_an_error_with_status_and_body() {
    assert_eq!(
        answer(400, "This person is already registered!").verify_success(),
        Err(Error::FailedResponse {
            code: 400,
            message: String::from("This person is already registered!")
        })
    );
    for code in [100, 199, 300, 404, 500, 0, u16::MAX] {
        assert_eq!(
            answer(code, "x").verify_success(),
            Err(Error::FailedResponse { code, message: String::from("x") })
        );
    }
    for code in [200, 201, 204, 299] {
        assert_eq!(answer(code, "x").verify_success(), Ok(answer(code, "x")));
    }
}

#[test]
fn balance_is_read_in_the_form_of_its_display() {
    assert_eq!(read_balance(answer(200, "0.000")), Ok(Money(0)));
    assert_eq!(read_balance(answer(200, "4.242")), Ok(Money(4242)));
    assert_eq!(read_balance(answer(200, "-42")), Ok(Money(-42000)));
    assert_eq!(
        read_balance(answer(200, &Money(-4242).to_string())),
        Ok(Money(-4242))
    );
    assert_eq!(
        read_balance(answer(200, "4.2424")),
        Err(Error::MoneyFromString(MoneyFromStringError::ValueTooPrecise))
    );
    assert_eq!(
        read_balance(answer(200, "")),
        Err(Error::MoneyFromString(MoneyFromStringError::FailedFloatParsing))
    );
    assert_eq!(
        read_balance(answer(404, "Could not find account")),
        Err(Error::FailedResponse {
            code: 404,
            message: String::from("Could not find account")
        })
    );
}

#[test]
fn key_is_read_in_any_form() {
    assert_eq!(
        read_key(answer(201, "01844ffb50ee7275af11e47e51bc92e7")),
        Ok(KNOWN)
    );
    assert_eq!(
        read_key(answer(200, "01844ffb-50ee-7275-af11-e47e51bc92e7")),
        Ok(KNOWN)
    );
    assert!(matches!(read_key(answer(200, "nothing")), Err(Error::UUID(_))));
    assert_eq!(
        read_key(answer(400, "01844ffb50ee7275af11e47e51bc92e7")),
        Err(Error::FailedResponse {
            code: 400,
            message: String::from("01844ffb50ee7275af11e47e51bc92e7")
        })
    );
}

#[test]
fn done_is_read_from_the_status_alone() {
    assert_eq!(read_done(answer(200, "Printed money!")), Ok(()));
    assert_eq!(read_done(answer(200, "")), Ok(()));
    assert_eq!(
        read_done(answer(403, "Cannot send zero money")),
        Err(Error::FailedResponse {
            code: 403,
            message: String::from("Cannot send zero money")
        })
    );
}

#[test]
fn money_error_becomes_a_client_error() {
    assert_eq!(
        Error::from(MoneyFromStringError::ValueTooPrecise),
        Error::MoneyFromString(MoneyFromStringError::ValueTooPrecise)
    );
}
