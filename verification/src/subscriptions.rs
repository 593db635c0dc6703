//! Accepting a new subscriber: form validation, the confirmation email, and
//! the subscription token. Persisting the subscriber and sending the email
//! are the transactional and transport edges around this logic.

use vstd::prelude::*;

use crate::domain::NewSubscriber;
use crate::domain::SubscriberEmail;
use crate::domain::SubscriberName;
use crate::domain::char_is_whitespace;
use crate::domain::extended_grapheme_count;
use crate::domain::forbidden_name_char;
use crate::domain::unicode_whitespace;
use crate::domain::valid_email;
use crate::domain::valid_name;
use crate::email_client::EmailDispatch;
use crate::startup::ApplicationBaseUrl;
use crate::text::push_char;

verus! {

/// The form a subscription request carries.
pub struct FormData {
    pub email: String,
    pub name: String,
}

/// A rejected subscription input, with the message shown in logs.
#[derive(Debug)]
pub struct ValidationError(pub String);

impl ValidationError {
    /// The user-facing description; it repeats none of the input.
    pub fn message(&self) -> (r: &'static str)
        ensures
            r@ == "Invalid input."@,
    {
        "Invalid input."
    }
}

/// A failed send of one email, with the message shown in logs.
pub struct SendEmailError(pub String);

impl SendEmailError {
    /// The user-facing description.
    pub fn message(&self) -> (r: &'static str)
        ensures
            r@ == "Failed to send email."@,
    {
        "Failed to send email."
    }
}

/// Why a subscription request failed; every variant past validation is a
/// store or transport fault.
pub enum SubscribeError {
    ValidationError(ValidationError),
    PoolError,
    InsertSubscriberError,
    TransactionCommitError,
    StoreTokenError,
    SendEmailError(SendEmailError),
}

impl SubscribeError {
    /// The status the client sees: a 400 for rejected input, an opaque 500
    /// for every internal fault.
    pub fn status_code(&self) -> (r: u16)
        ensures
            *self matches SubscribeError::ValidationError(_) <==> r == 400,
            !(*self matches SubscribeError::ValidationError(_)) <==> r == 500,
    {
        match self {
            SubscribeError::ValidationError(_) => 400,
            SubscribeError::PoolError => 500,
            SubscribeError::InsertSubscriberError => 500,
            SubscribeError::TransactionCommitError => 500,
            SubscribeError::StoreTokenError => 500,
            SubscribeError::SendEmailError(_) => 500,
        }
    }
}

/// Returns `true` if the input satisfies all the validation constraints on
/// subscriber names, `false` otherwise.
pub fn is_valid_name(s: &str) -> (r: bool)
    ensures
        r == valid_name(s@),
{
    let n = s.unicode_len();
    let mut all_whitespace = true;
    let mut has_forbidden = false;
    let mut i: usize = 0;
    while i < n
        invariant
            n == s@.len(),
            i <= n,
            all_whitespace <==> (forall|j: int| 0 <= j < i ==> unicode_whitespace(#[trigger] s@[j])),
            has_forbidden <==> !(forall|j: int|
                0 <= j < i ==> !forbidden_name_char(#[trigger] s@[j])),
        decreases n - i,
    {
        let c = s.get_char(i);
        if !char_is_whitespace(c) {
            all_whitespace = false;
        }
        if c == '/' || c == '(' || c == ')' || c == '"' || c == '<' || c == '>' || c == '\\'
            || c == '{' || c == '}' {
            has_forbidden = true;
        }
        i = i + 1;
    }
    let too_long = extended_grapheme_count(s) > 256;
    !(all_whitespace || too_long || has_forbidden)
}

impl NewSubscriber {
    /// Validates a subscription form: the name and the address must both be
    /// well formed.
    pub fn try_from(value: FormData) -> (r: Result<NewSubscriber, ValidationError>)
        ensures
            match r {
                Ok(s) => valid_name(value.name@) && valid_email(value.email@) && s.name@
                    == value.name@ && s.email@ == value.email@,
                Err(_) => !(valid_name(value.name@) && valid_email(value.email@)),
            },
    {
        let name = match SubscriberName::parse(value.name) {
            Ok(name) => name,
            Err(e) => {
                return Err(e);
            },
        };
        let email = match SubscriberEmail::parse(value.email) {
            Ok(email) => email,
            Err(e) => {
                return Err(e);
            },
        };
        Ok(NewSubscriber { email, name })
    }
}

/// The confirmation link for a subscription token.
pub open spec fn confirmation_link(base_url: Seq<char>, token: Seq<char>) -> Seq<char> {
    base_url + "/subscriptions/confirm?subscription_token="@ + token
}

/// The text of the confirmation email for a link.
pub open spec fn confirmation_body(link: Seq<char>) -> Seq<char> {
    "Welcome to our newsletter!\nVisit "@ + link + " to confirm your subscription."@
}

/// The confirmation email for a new subscriber: the dispatch the transport
/// is asked to deliver. Sending it is the transport's part.
pub fn confirmation_email(
    new_subscriber: &NewSubscriber,
    base_url: &ApplicationBaseUrl,
    confirmation_token: &str,
) -> (e: EmailDispatch)
    ensures
        e@.to == new_subscriber.email@,
        e@.subject == "Welcome!"@,
        e@.text_body == confirmation_body(confirmation_link(base_url.0@, confirmation_token@)),
{
    let mut link = String::from_str(base_url.0.as_str());
    link.append("/subscriptions/confirm?subscription_token=");
    link.append(confirmation_token);
    let mut body = String::from_str("Welcome to our newsletter!\nVisit ");
    body.append(link.as_str());
    body.append(" to confirm your subscription.");
    EmailDispatch {
        to: String::from_str(new_subscriber.email.as_str()),
        subject: String::from_str("Welcome!"),
        text_body: body,
    }
}

/// Whether a character is an ASCII letter or digit.
pub open spec fn ascii_alphanumeric(c: char) -> bool {
    ('a' <= c && c <= 'z') || ('A' <= c && c <= 'Z') || ('0' <= c && c <= '9')
}

/// Relies on rand's `Alphanumeric` distribution: one uniformly random ASCII
/// letter or digit; nothing is promised beyond its shape, since the result
/// is random.
#[verifier::external_body]
fn random_alphanumeric() -> (r: char)
    ensures
        ascii_alphanumeric(r),
{
    rand::distr::Distribution::<u8>::sample(&rand::distr::Alphanumeric, &mut rand::rng()) as char
}

/// A fresh 25-character alphanumeric subscription token.
pub fn generate_subscription_token() -> (r: String)
    ensures
        r@.len() == 25,
        forall|i: int| 0 <= i < r@.len() ==> ascii_alphanumeric(#[trigger] r@[i]),
{
    let mut token = String::new();
    let mut i: usize = 0;
    while i < 25
        invariant
            i <= 25,
            token@.len() == i,
            forall|j: int| 0 <= j < i ==> ascii_alphanumeric(#[trigger] token@[j]),
        decreases 25 - i,
    {
        push_char(&mut token, random_alphanumeric());
        i = i + 1;
    }
    token
}

} // verus!
