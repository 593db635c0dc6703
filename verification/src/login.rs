//! The login flow: validate credentials and redirect. A failure redirects
//! back to the login form with the user-facing message in the query string,
//! tagged with an HMAC so the message survives the redirect hop without
//! server-side session state and cannot be forged.

use vstd::prelude::*;

use hmac::Hmac;
use hmac::KeyInit;
use hmac::Mac;
use sha2::Sha256;

use vstd::utf8::encode_utf8;

use crate::authentication::AuthError;
use crate::authentication::Credentials;
use crate::authentication::StoredHash;
use crate::authentication::UserStore;
use crate::authentication::phc_parses;
use crate::authentication::phc_verifies;
use crate::authentication::validate_credentials;
use crate::http::HttpResponse;
use crate::text::hex_lower;
use crate::text::hex_of_bytes;
use crate::utils::see_other;
use crate::utils::see_other_model;

verus! {

/// What HMAC-SHA-256 returns for a key and a message; a function of the two
/// byte strings alone.
pub uninterp spec fn hmac_sha256(key: Seq<u8>, message: Seq<u8>) -> Seq<u8>;

/// Relies on `Hmac<Sha256>` from the hmac and sha2 crates: the keyed MAC of
/// the message; SHA-256 output is 32 bytes. HMAC accepts keys of any length.
#[verifier::external_body]
fn hmac_sha256_tag(key: &str, message: &str) -> (r: Vec<u8>)
    ensures
        r@ == hmac_sha256(encode_utf8(key@), encode_utf8(message@)),
        r@.len() == 32,
{
    let mut mac = <Hmac<Sha256> as KeyInit>::new_from_slice(key.as_bytes())
        .expect("HMAC accepts keys of any length");
    Mac::update(&mut mac, message.as_bytes());
    mac.finalize().into_bytes().to_vec()
}

/// What percent-encoding returns for a string; a function of the string
/// alone.
pub uninterp spec fn url_encoded(s: Seq<char>) -> Seq<char>;

/// Relies on `urlencoding::encode`: percent-encodes everything but
/// unreserved URL characters.
#[verifier::external_body]
fn url_encode(s: &str) -> (r: String)
    ensures
        r@ == url_encoded(s@),
{
    urlencoding::encode(s).into_owned()
}

/// Why a login failed; the two variants map to the two [`AuthError`] cases
/// and carry the user-facing message.
#[derive(Debug)]
pub enum LoginError {
    AuthError,
    UnexpectedError,
}

impl LoginError {
    /// The message shown to the user: it names no usernames and no internal
    /// detail.
    pub fn message(&self) -> (r: &'static str)
        ensures
            *self is AuthError ==> r@ == "Authentication failed."@,
            *self is UnexpectedError ==> r@ == "Something went wrong."@,
    {
        match self {
            LoginError::AuthError => "Authentication failed.",
            LoginError::UnexpectedError => "Something went wrong.",
        }
    }
}

/// The query string carrying a login error message.
pub open spec fn error_query(message: Seq<char>) -> Seq<char> {
    "error="@ + url_encoded(message)
}

/// The location a failed login redirects to: the login form, with the
/// encoded message and its HMAC tag (hex, lowercase) in the query string.
pub open spec fn login_error_location(message: Seq<char>, secret: Seq<char>) -> Seq<char> {
    "/login?"@ + error_query(message) + "&tag="@ + hex_lower(
        hmac_sha256(encode_utf8(secret), encode_utf8(error_query(message))),
    )
}

/// Handles one login request.
///
/// Valid credentials yield the user id — for the caller to bind to the
/// session — and a redirect to the home page. Both failure modes redirect
/// back to the login form carrying their message and its HMAC tag under
/// `secret`: `AuthError` exactly when the username does not exist or the
/// password does not verify (one value for both, so the response does not
/// reveal which), `UnexpectedError` exactly when the stored hash is corrupt.
/// The store is never mutated; the missing-username path hashes against
/// `fallback` so its timing matches the wrong-password path.
pub fn login(credentials: &Credentials, store: &UserStore, fallback: &StoredHash, secret: &str)
    -> (r: Result<(u128, HttpResponse), (LoginError, HttpResponse)>)
    requires
        store.wf(),
    ensures
        match r {
            Ok((user_id, resp)) => store@.dom().contains(credentials.username@) && phc_parses(
                store@[credentials.username@].password_hash,
            ) && phc_verifies(
                credentials.password@,
                store@[credentials.username@].password_hash,
            ) && user_id == store@[credentials.username@].user_id && resp@ == see_other_model(
                "/"@,
            ),
            Err((e, resp)) => {
                &&& (e is AuthError <==> (!store@.dom().contains(credentials.username@)
                    || (phc_parses(store@[credentials.username@].password_hash) && !phc_verifies(
                    credentials.password@,
                    store@[credentials.username@].password_hash,
                ))))
                &&& (e is UnexpectedError <==> (store@.dom().contains(credentials.username@)
                    && !phc_parses(store@[credentials.username@].password_hash)))
                &&& (e is AuthError ==> resp@ == see_other_model(
                    login_error_location("Authentication failed."@, secret@),
                ))
                &&& (e is UnexpectedError ==> resp@ == see_other_model(
                    login_error_location("Something went wrong."@, secret@),
                ))
            },
        },
{
    match validate_credentials(credentials, store, fallback) {
        Ok(user_id) => Ok((user_id, see_other("/"))),
        Err(auth_error) => {
            let error = match auth_error {
                AuthError::InvalidCredentials => LoginError::AuthError,
                AuthError::UnexpectedError => LoginError::UnexpectedError,
            };
            let message = error.message();
            let mut query = String::from_str("error=");
            query.append(url_encode(message).as_str());
            let tag = hmac_sha256_tag(secret, query.as_str());
            let mut location = String::from_str("/login?");
            location.append(query.as_str());
            location.append("&tag=");
            location.append(hex_of_bytes(&tag).as_str());
            proof {
                assert(query@ == error_query(message@));
                assert(location@ == login_error_location(message@, secret@));
            }
            Err((error, see_other(location.as_str())))
        },
    }
}

} // verus!
