//! The Basic-auth publish endpoint: parse the `Authorization` header, then
//! run the dispatch workflow over the confirmed recipients.

use vstd::prelude::*;

use base64::Engine;

use crate::admin_newsletters::dispatch_models;
use crate::admin_newsletters::first_failed_row;
use crate::admin_newsletters::planned;
use crate::authentication::Credentials;
use crate::domain::email_is_valid;
use crate::email_client::EmailDispatch;
use crate::email_client::EmailModel;
use crate::email_client::lemma_dispatch_deep_view;
use crate::http::HttpResponse;
use crate::text::find_char;
use crate::text::strip_prefix_chars;
use crate::utils::status_model;

verus! {

/// What base64 decoding (standard alphabet, padded) returns for a string; a
/// function of the string alone.
pub uninterp spec fn b64_decode(s: Seq<char>) -> Option<Seq<u8>>;

/// Relies on base64's `STANDARD` engine: decodes, or refuses the string.
#[verifier::external_body]
fn base64_decode(s: &str) -> (r: Option<Vec<u8>>)
    ensures
        match r {
            Some(v) => b64_decode(s@) == Some(v@),
            None => b64_decode(s@) is None,
        },
{
    match base64::engine::general_purpose::STANDARD.decode(s) {
        Ok(v) => Some(v),
        Err(_) => None,
    }
}

/// What UTF-8 decoding returns for a byte string; a function of the bytes
/// alone.
pub uninterp spec fn utf8_decode(bytes: Seq<u8>) -> Option<Seq<char>>;

/// Relies on `String::from_utf8`: decodes, or refuses the bytes.
#[verifier::external_body]
fn utf8_to_string(bytes: Vec<u8>) -> (r: Option<String>)
    ensures
        match r {
            Some(s) => utf8_decode(bytes@) == Some(s@),
            None => utf8_decode(bytes@) is None,
        },
{
    match String::from_utf8(bytes) {
        Ok(s) => Some(s),
        Err(_) => None,
    }
}

/// Why a `Basic` Authorization header was refused.
#[derive(Debug)]
pub enum BasicAuthError {
    MissingHeader,
    NotBasic,
    InvalidBase64,
    InvalidUtf8,
    MissingPassword,
}

/// The body of a publish request: the issue's title and content.
pub struct BodyData {
    pub title: String,
    pub content: String,
}

/// Why publishing failed: an authentication failure (answered with a 401 and
/// a challenge) or an internal fault (an opaque 500); each carries a message
/// for the server-side log only.
#[derive(Debug)]
pub enum PublishError {
    AuthError(String),
    UnexpectedError(String),
}

impl PublishError {
    /// The response the client sees: nothing but the status — and, for an
    /// authentication failure, the `Basic` challenge naming the realm.
    pub fn error_response(&self) -> (r: HttpResponse)
        ensures
            *self matches PublishError::UnexpectedError(_) ==> r@ == status_model(500),
            *self matches PublishError::AuthError(_) ==> r@.status == 401 && r@.headers == seq![
                ("WWW-Authenticate"@, "Basic realm=\"publish\""@),
            ] && r@.body == Seq::<u8>::empty(),
    {
        match self {
            PublishError::UnexpectedError(_) => HttpResponse::with_status(500),
            PublishError::AuthError(_) => {
                let mut r = HttpResponse::with_status(401);
                r.push_header("WWW-Authenticate", "Basic realm=\"publish\"");
                proof {
                    assert(r@.headers =~= seq![("WWW-Authenticate"@, "Basic realm=\"publish\""@)]);
                }
                r
            },
        }
    }
}

/// Whether a header value opens with the `Basic ` scheme tag.
pub open spec fn scheme_ok(h: Seq<char>) -> bool {
    h.len() >= "Basic "@.len() && h.subrange(0, "Basic "@.len() as int) == "Basic "@
}

/// The part of the header value after the scheme tag.
pub open spec fn scheme_rest(h: Seq<char>) -> Seq<char> {
    h.skip("Basic "@.len() as int)
}

/// The decoded `username:password` text of a header value, when scheme,
/// base64 and UTF-8 all parse.
pub open spec fn basic_decoded(h: Seq<char>) -> Option<Seq<char>> {
    if scheme_ok(h) {
        match b64_decode(scheme_rest(h)) {
            Some(bytes) => utf8_decode(bytes),
            None => None,
        }
    } else {
        None
    }
}

/// The header parses and `c` is exactly the username before the first colon
/// of the decoded text and the password after it.
pub open spec fn parsed_credentials(authorization: Option<&str>, c: Credentials) -> bool {
    &&& authorization is Some
    &&& basic_decoded((authorization->Some_0)@) is Some
    &&& ({
        let d = basic_decoded((authorization->Some_0)@)->Some_0;
        exists|i: int|
            #![all_triggers]
            0 <= i < d.len() && d[i] == ':' && (forall|j: int| 0 <= j < i ==> d[j] != ':')
                && c.username@ == d.take(i) && c.password@ == d.skip(i + 1)
    })
}

/// The credentials carried by a `Basic` Authorization header value, decoded
/// per that scheme: base64 over `username:password`. The caller hands in the
/// header's text, or `None` when the request carries no such header.
pub fn basic_authentication(authorization: Option<&str>) -> (r: Result<Credentials, BasicAuthError>)
    ensures
        match r {
            Ok(c) => parsed_credentials(authorization, c),
            Err(e) => match e {
                BasicAuthError::MissingHeader => authorization is None,
                BasicAuthError::NotBasic => authorization is Some && !scheme_ok(
                    (authorization->Some_0)@,
                ),
                BasicAuthError::InvalidBase64 => authorization is Some && scheme_ok(
                    (authorization->Some_0)@,
                ) && b64_decode(scheme_rest((authorization->Some_0)@)) is None,
                BasicAuthError::InvalidUtf8 => authorization is Some && scheme_ok(
                    (authorization->Some_0)@,
                ) && b64_decode(scheme_rest((authorization->Some_0)@)) is Some && utf8_decode(
                    b64_decode(scheme_rest((authorization->Some_0)@))->Some_0,
                ) is None,
                BasicAuthError::MissingPassword => {
                    &&& authorization is Some
                    &&& basic_decoded((authorization->Some_0)@) is Some
                    &&& ({
                        let d = basic_decoded((authorization->Some_0)@)->Some_0;
                        forall|j: int| 0 <= j < d.len() ==> d[j] != ':'
                    })
                },
            },
        },
{
    let header = match authorization {
        Some(h) => h,
        None => {
            return Err(BasicAuthError::MissingHeader);
        },
    };
    let encoded = match strip_prefix_chars(header, "Basic ") {
        Some(rest) => rest,
        None => {
            return Err(BasicAuthError::NotBasic);
        },
    };
    let decoded_bytes = match base64_decode(encoded) {
        Some(bytes) => bytes,
        None => {
            return Err(BasicAuthError::InvalidBase64);
        },
    };
    let decoded = match utf8_to_string(decoded_bytes) {
        Some(s) => s,
        None => {
            return Err(BasicAuthError::InvalidUtf8);
        },
    };
    let n = decoded.as_str().unicode_len();
    match find_char(decoded.as_str(), ':') {
        Some(i) => {
            let username = decoded.as_str().substring_char(0, i);
            let password = decoded.as_str().substring_char(i + 1, n);
            let username = String::from_str(username);
            let password = String::from_str(password);
            let credentials = Credentials { username, password };
            proof {
                let d = decoded@;
                assert(d.take(i as int) =~= d.subrange(0, i as int));
                assert(d.skip(i + 1) =~= d.subrange(i + 1, n as int));
                assert(basic_decoded(header@) == Some(d));
                assert(0 <= (i as int) < d.len() && d[i as int] == ':' && (forall|j: int|
                    0 <= j < i as int ==> d[j] != ':') && credentials.username@ == d.take(i as int)
                    && credentials.password@ == d.skip(i as int + 1));
                assert(parsed_credentials(authorization, credentials));
            }
            Ok(credentials)
        },
        None => Err(BasicAuthError::MissingPassword),
    }
}

/// Publishes an issue to every confirmed recipient, authenticating the
/// caller's `Basic` header first.
///
/// A header that does not parse refuses the request with `AuthError` and no
/// dispatch. Otherwise one email per well-formed recipient row is asked of
/// the transport, in order; rows with malformed stored addresses are
/// skipped. The first transport failure aborts the batch with
/// `UnexpectedError` naming the recipient; when every send succeeds the
/// caller gets a bare 200.
pub fn publish_newsletter(
    authorization: Option<&str>,
    body: &BodyData,
    subscriber_rows: &Vec<String>,
    send_ok: &Vec<bool>,
) -> (r: (Result<HttpResponse, PublishError>, Vec<EmailDispatch>))
    requires
        send_ok@.len() == subscriber_rows@.len(),
    ensures
        ({
            let rows = subscriber_rows.deep_view();
            match r.0 {
                Ok(resp) => {
                    &&& basic_auth_accepted(authorization)
                    &&& first_failed_row(rows, send_ok@, rows.len() as int) is None
                    &&& resp@ == status_model(200)
                    &&& r.1.deep_view() == dispatch_models(
                        planned(rows),
                        body.title@,
                        body.content@,
                    )
                },
                Err(PublishError::AuthError(_)) => !basic_auth_accepted(authorization) && r.1@.len()
                    == 0,
                Err(PublishError::UnexpectedError(_)) => {
                    &&& basic_auth_accepted(authorization)
                    &&& first_failed_row(rows, send_ok@, rows.len() as int) matches Some(f)
                        && r.1.deep_view() == dispatch_models(
                        planned(rows.take(f + 1)),
                        body.title@,
                        body.content@,
                    )
                },
            }
        }),
{
    if let Err(_) = basic_authentication(authorization) {
        return (
            Err(PublishError::AuthError(String::from_str("Authentication failed"))),
            Vec::new(),
        );
    }
    let ghost rows = subscriber_rows.deep_view();
    let mut dispatched: Vec<EmailDispatch> = Vec::new();
    let n = subscriber_rows.len();
    let mut i: usize = 0;
    let mut failed = false;
    proof {
        assert(rows.take(0) =~= Seq::<Seq<char>>::empty());
    }
    while i < n
        invariant_except_break
            !failed,
        invariant
            !failed ==> first_failed_row(rows, send_ok@, i as int) is None,
            n == subscriber_rows@.len(),
            n == send_ok@.len(),
            rows == subscriber_rows.deep_view(),
            i <= n,
            failed ==> first_failed_row(rows, send_ok@, n as int) == Some(i as int)
                && dispatched@.len() == planned(rows.take(i + 1)).len() && (forall|k: int|
                0 <= k < dispatched@.len() ==> (#[trigger] dispatched@[k])@ == (EmailModel {
                    to: planned(rows.take(i + 1))[k],
                    subject: body.title@,
                    text_body: body.content@,
                })),
            !failed ==> dispatched@.len() == planned(rows.take(i as int)).len() && (forall|k: int|
                0 <= k < dispatched@.len() ==> (#[trigger] dispatched@[k])@ == (EmailModel {
                    to: planned(rows.take(i as int))[k],
                    subject: body.title@,
                    text_body: body.content@,
                })),
        ensures
            failed ==> i < n,
            !failed ==> i == n,
        decreases n - i,
    {
        proof {
            assert(rows[i as int] == subscriber_rows@[i as int]@);
            assert(rows.take(i + 1).drop_last() =~= rows.take(i as int));
            assert(rows.take(i + 1).last() == rows[i as int]);
        }
        let row = &subscriber_rows[i];
        if email_is_valid(row.as_str()) {
            dispatched.push(
                EmailDispatch {
                    to: String::from_str(row.as_str()),
                    subject: String::from_str(body.title.as_str()),
                    text_body: String::from_str(body.content.as_str()),
                },
            );
            if !send_ok[i] {
                failed = true;
                proof {
                    assert(first_failed_row(rows, send_ok@, i + 1) == Some(i as int));
                    crate::admin_newsletters::lemma_first_failed_monotone(
                        rows,
                        send_ok@,
                        i + 1,
                        n as int,
                    );
                }
                break;
            }
        }
        i = i + 1;
    }
    if failed {
        proof {
            lemma_dispatch_deep_view(
                dispatched,
                dispatch_models(planned(rows.take(i + 1)), body.title@, body.content@),
            );
        }
        let row = &subscriber_rows[i];
        let mut message = String::from_str("Failed to send newsletter issue to ");
        message.append(row.as_str());
        (Err(PublishError::UnexpectedError(message)), dispatched)
    } else {
        proof {
            assert(rows.take(n as int) =~= rows);
            lemma_dispatch_deep_view(
                dispatched,
                dispatch_models(planned(rows), body.title@, body.content@),
            );
        }
        (Ok(HttpResponse::with_status(200)), dispatched)
    }
}

/// Whether an Authorization header value parses as `Basic` credentials.
pub open spec fn basic_auth_accepted(authorization: Option<&str>) -> bool {
    match authorization {
        None => false,
        Some(h) => match basic_decoded(h@) {
            None => false,
            Some(d) => exists|i: int| 0 <= i < d.len() && #[trigger] d[i] == ':',
        },
    }
}

} // verus!
