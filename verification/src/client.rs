//! The ledger seen from a caller over HTTP: where each request goes, and
//! what each answer means.

use vstd::prelude::*;
use vstd::std_specs::convert::FromSpecImpl;
use crate::decimal::{dec_digits, int_text, push_decimal, push_signed};
use crate::key::{parsed_uuid, simple_text, Key};
use crate::money::Money;
use crate::money::money_text;
use crate::parse::{displayed, lemma_display_is_read, parse_spec, MoneyFromStringError};

verus! {

/// The HTTP client of `reqwest`, which an `AekosiaAPI` carries for the
/// code that sends its requests.
#[verifier::external_type_specification]
#[verifier::external_body]
pub struct ExClient(reqwest::Client);

/// Why a call of the ledger's HTTP interface did not succeed.
#[derive(Debug, Clone, PartialEq, Eq)]
pub enum Error {
    /// The request could not be sent or the answer not be read; the
    /// message says why.
    Reqwest(String),
    /// The answer was to hold an account key and does not; the message
    /// says why.
    UUID(String),
    /// The answer was to hold an amount of money and does not.
    MoneyFromString(MoneyFromStringError),
    /// The ledger answered with a status that is no success.
    FailedResponse { code: u16, message: String },
    /// Anything else.
    Unknown,
}

impl From<MoneyFromStringError> for Error {
    fn from(e: MoneyFromStringError) -> (r: Error) {
        Error::MoneyFromString(e)
    }
}

impl FromSpecImpl<MoneyFromStringError> for Error {
    open spec fn obeys_from_spec() -> bool {
        true
    }

    open spec fn from_spec(e: MoneyFromStringError) -> Error {
        Error::MoneyFromString(e)
    }
}

/// The result of a call of the ledger's HTTP interface.
pub type Result<T> = core::result::Result<T, Error>;

/// What came back for a request: the status and the body.
#[derive(Debug, Clone, PartialEq, Eq)]
pub struct Answer {
    pub code: u16,
    pub body: String,
}

/// Whether a status is one of success.
pub open spec fn is_success(code: u16) -> bool {
    200 <= code < 300
}

/// Whether a status is one of success.
pub fn succeeded(code: u16) -> (yes: bool)
    ensures
        yes == is_success(code),
{
    200 <= code && code < 300
}

/// Telling an answer of success from one of failure.
pub trait FailedResponseError<T>: Sized {
    /// What `verify_success` gives.
    spec fn verified(self) -> core::result::Result<T, Error>;

    /// The answer itself where its status is one of success, and the
    /// error `FailedResponse` with its status and body where not.
    fn verify_success(self) -> (r: core::result::Result<T, Error>)
        ensures
            r == self.verified(),
    ;
}

impl FailedResponseError<Answer> for Answer {
    open spec fn verified(self) -> core::result::Result<Answer, Error> {
        if is_success(self.code) {
            Ok(self)
        } else {
            Err(Error::FailedResponse { code: self.code, message: self.body })
        }
    }

    fn verify_success(self) -> (r: core::result::Result<Answer, Error>) {
        if succeeded(self.code) {
            Ok(self)
        } else {
            Err(Error::FailedResponse { code: self.code, message: self.body })
        }
    }
}

/// A text without the slashes at its end.
pub open spec fn without_trailing_slashes(s: Seq<char>) -> Seq<char>
    decreases s.len(),
{
    if s.len() > 0 && s.last() == '/' {
        without_trailing_slashes(s.drop_last())
    } else {
        s
    }
}

/// The text without the slashes at its end.
pub fn trim_trailing_slashes(s: &str) -> (r: &str)
    ensures
        r@ == without_trailing_slashes(s@),
{
    let mut end: usize = s.unicode_len();
    assert(s@.subrange(0, end as int) =~= s@);
    while end > 0 && s.get_char(end - 1) == '/'
        invariant
            end <= s@.len(),
            without_trailing_slashes(s@) == without_trailing_slashes(s@.subrange(0, end as int)),
        decreases end,
    {
        assert(s@.subrange(0, end as int).drop_last() =~= s@.subrange(0, end - 1));
        end -= 1;
    }
    s.substring_char(0, end)
}

/// The address of a resource: the ledger's address, then the path.
/// `query_type` says how long what will follow may get; it changes
/// nothing of the text.
pub fn format_with_query(website_url: &str, path: &'static str, query_type: usize) -> (text: String)
    ensures
        text@ == website_url@ + path@,
{
    let mut string = String::new();
    string.append(website_url);
    string.append(path);
    assert(string@ =~= website_url@ + path@);
    string
}

/// The path under which balances are read.
pub const ECO_BALANCE: &'static str = "/eco/balance/";

/// The path under which payments are made.
pub const ECO_PAYMENT: &'static str = "/eco/payment";

/// The path under which money is printed.
pub const ECO_PRINT: &'static str = "/eco/print/";

/// The path under which persons are registered.
pub const PERSON_REGISTER: &'static str = "/person/register/";

/// The path under which persons are read.
pub const PERSON_GET: &'static str = "/person/";

/// The path under which a platform identifier is resolved.
pub const PERSON_GET_DISCORD: &'static str = "/person/from_discord/";

/// The length of a key in its simple form.
pub const UUID: usize = 32;

/// The most digits that an `i64` has, with its sign.
pub const I64: usize = 20;

/// The most digits that a `u64` has.
pub const U64: usize = 19;

/// The ledger's HTTP interface: the client that sends, and the address of
/// each resource.
pub struct AekosiaAPI {
    pub client: reqwest::Client,
    pub website_url: String,
    eco_balance: String,
    eco_payment: String,
    eco_print: String,
    person_register: String,
    person_get: String,
    person_get_discord: String,
}

impl AekosiaAPI {
    /// The address that everything is reached under.
    pub closed spec fn address(&self) -> Seq<char> {
        self.website_url@
    }

    /// What the address of a balance starts with.
    pub closed spec fn eco_balance(&self) -> Seq<char> {
        self.eco_balance@
    }

    /// The address of payments.
    pub closed spec fn eco_payment(&self) -> Seq<char> {
        self.eco_payment@
    }

    /// What the address of a printing of money starts with.
    pub closed spec fn eco_print(&self) -> Seq<char> {
        self.eco_print@
    }

    /// What the address of a registration starts with.
    pub closed spec fn person_register(&self) -> Seq<char> {
        self.person_register@
    }

    /// What the address of a person starts with.
    pub closed spec fn person_get(&self) -> Seq<char> {
        self.person_get@
    }

    /// What the address of a platform identifier starts with.
    pub closed spec fn person_get_discord(&self) -> Seq<char> {
        self.person_get_discord@
    }

    /// The interface of the ledger at `website_url`, whose slashes at the
    /// end do not count: every resource is reached under that address and
    /// its own path.
    pub fn new(client: reqwest::Client, website_url: &str) -> (api: AekosiaAPI)
        ensures
            api.address() == without_trailing_slashes(website_url@),
            api.eco_balance() == api.address() + ECO_BALANCE@,
            api.eco_payment() == api.address() + ECO_PAYMENT@,
            api.eco_print() == api.address() + ECO_PRINT@,
            api.person_register() == api.address() + PERSON_REGISTER@,
            api.person_get() == api.address() + PERSON_GET@,
            api.person_get_discord() == api.address() + PERSON_GET_DISCORD@,
    {
        let website_url = trim_trailing_slashes(website_url);
        AekosiaAPI {
            client,
            eco_balance: format_with_query(website_url, ECO_BALANCE, UUID),
            eco_payment: format_with_query(website_url, ECO_PAYMENT, 0),
            eco_print: format_with_query(website_url, ECO_PRINT, UUID + 1 + I64),
            person_register: format_with_query(website_url, PERSON_REGISTER, I64),
            person_get: format_with_query(website_url, PERSON_GET, UUID),
            person_get_discord: format_with_query(website_url, PERSON_GET_DISCORD, U64),
            website_url: String::from_str(website_url),
        }
    }

    /// Where the balance of the account `id` is read.
    pub fn balance_url(&self, id: &Key) -> (url: String)
        ensures
            url@ == self.eco_balance() + simple_text(id.bits),
    {
        let simple = id.to_simple_string();
        self.eco_balance.clone().concat(simple.as_str())
    }

    /// Where `amount` is printed for the account `id`.
    pub fn print_url(&self, id: &Key, amount: &Money) -> (url: String)
        ensures
            url@ == self.eco_print() + simple_text(id.bits) + seq!['/'] + int_text(
                amount.0 as int,
            ),
    {
        proof {
            reveal_strlit("/");
        }
        let simple = id.to_simple_string();
        let mut url = self.eco_print.clone().concat(simple.as_str()).concat("/");
        push_signed(&mut url, amount.0);
        url
    }

    /// Where payments are made.
    pub fn payment_url(&self) -> (url: String)
        ensures
            url@ == self.eco_payment(),
    {
        self.eco_payment.clone()
    }

    /// Where the person behind the account `id` is read.
    pub fn person_url(&self, id: &Key) -> (url: String)
        ensures
            url@ == self.person_get() + simple_text(id.bits),
    {
        let simple = id.to_simple_string();
        self.person_get.clone().concat(simple.as_str())
    }

    /// Where the platform identifier `id` is resolved.
    pub fn from_discord_url(&self, id: &u64) -> (url: String)
        ensures
            url@ == self.person_get_discord() + dec_digits(*id as nat),
    {
        let mut url = self.person_get_discord.clone();
        push_decimal(&mut url, *id);
        url
    }

    /// Where the platform identifier `discord_id` is registered.
    pub fn register_url(&self, discord_id: &u64) -> (url: String)
        ensures
            url@ == self.person_register() + dec_digits(*discord_id as nat),
    {
        let mut url = self.person_register.clone();
        push_decimal(&mut url, *discord_id);
        url
    }
}

/// The balance that an answer holds.
pub open spec fn balance_in(answer: Answer) -> core::result::Result<Money, Error> {
    if !is_success(answer.code) {
        Err(Error::FailedResponse { code: answer.code, message: answer.body })
    } else {
        match parse_spec(vstd::utf8::encode_utf8(answer.body@)) {
            Ok(balance) => Ok(balance),
            Err(e) => Err(Error::MoneyFromString(e)),
        }
    }
}

/// A balance comes over the wire as it is displayed: from an answer of
/// success whose body is the display of a balance, the balance that the
/// display shows is read.
pub proof fn lemma_balance_is_read(answer: Answer, balance: i64)
    requires
        is_success(answer.code),
        answer.body@ == money_text(balance as int),
    ensures
        balance_in(answer) == Ok::<Money, Error>(Money(displayed(balance as int) as i64)),
{
    lemma_display_is_read(balance);
}

/// Reads the balance that the ledger answered with: an amount in the
/// form that it is displayed in.
pub fn read_balance(answer: Answer) -> (r: core::result::Result<Money, Error>)
    ensures
        r == balance_in(answer),
{
    let answer = answer.verify_success()?;
    match Money::from_str(answer.body.as_str()) {
        Ok(balance) => Ok(balance),
        Err(e) => Err(Error::from(e)),
    }
}

/// Reads the account key that the ledger answered with. An answer of
/// failure gives `FailedResponse`; one of success gives the key that the
/// body writes, or the error `UUID` where it writes none.
pub fn read_key(answer: Answer) -> (r: core::result::Result<Key, Error>)
    ensures
        !is_success(answer.code) ==> r == Err::<Key, Error>(
            Error::FailedResponse { code: answer.code, message: answer.body },
        ),
        is_success(answer.code) ==> match parsed_uuid(answer.body@) {
            Some(bits) => r == Ok::<Key, Error>(Key { bits }),
            None => r matches Err(Error::UUID(_)),
        },
{
    let answer = answer.verify_success()?;
    match Key::parse_str(answer.body.as_str()) {
        Ok(key) => Ok(key),
        Err(message) => Err(Error::UUID(message)),
    }
}

/// Reads an answer that holds nothing but its status.
pub fn read_done(answer: Answer) -> (r: core::result::Result<(), Error>)
    ensures
        r == (if is_success(answer.code) {
            Ok::<(), Error>(())
        } else {
            Err(Error::FailedResponse { code: answer.code, message: answer.body })
        }),
{
    let _ = answer.verify_success()?;
    Ok(())
}

} // verus!
