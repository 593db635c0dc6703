use hmac::{KeyInit, Mac};
use newsletter::admin_password::{change_password, reject_anonymous_users, FlashLevel, FormData};
use newsletter::authentication::{
    fallback_hash, hash, validate_credentials, verify, AuthError, Credentials, StoredHash,
    UserStore,
};
use newsletter::http::HttpResponse;
use newsletter::login::{login, LoginError};
use sha2::Sha256;

fn location_of(response: &HttpResponse) -> Option<String> {
    response
        .headers
        .iter()
        .find(|(name, _)| name == "Location")
        .map(|(_, value)| value.clone())
}

fn store_with_user(user_id: u128, username: &str, password: &str) -> UserStore {
    let mut store = UserStore::new();
    let stored = hash(password).unwrap();
    store
        .add_user(user_id, username.to_string(), stored.as_str().to_string())
        .unwrap();
    store
}

fn credentials(username: &str, password: &str) -> Credentials {
    Credentials {
        username: username.to_string(),
        password: password.to_string(),
    }
}

#[test]
fn verify_accepts_the_hashed_password() {
    let stored = hash("correct horse battery staple").unwrap();
    assert!(verify("correct horse battery staple", &stored));
}

#[test]
fn verify_rejects_a_different_password() {
    let stored = hash("correct horse battery staple").unwrap();
    assert!(!verify("correct horse battery stable", &stored));
    assert!(!verify("", &stored));
}

#[test]
fn hashing_twice_salts_differently() {
    let first = hash("correct horse battery staple").unwrap();
    let second = hash("correct horse battery staple").unwrap();
    assert_ne!(first.as_str(), second.as_str());
    // Both still verify: the salt lives inside each hash string.
    assert!(verify("correct horse battery staple", &first));
    assert!(verify("correct horse battery staple", &second));
}

#[test]
fn stored_hash_rejects_a_corrupt_encoding() {
    assert!(StoredHash::parse("not a phc string".to_string()).is_err());
    let stored = hash("pw").unwrap();
    assert!(StoredHash::parse(stored.as_str().to_string()).is_ok());
}

#[test]
fn validate_accepts_the_right_password() {
    let store = store_with_user(42, "admin", "everythinghastostartsomewhere");
    let fallback = fallback_hash().unwrap();
    let user_id =
        validate_credentials(&credentials("admin", "everythinghastostartsomewhere"), &store, &fallback)
            .unwrap();
    assert_eq!(user_id, 42);
}

#[test]
fn unknown_user_and_wrong_password_yield_the_same_error() {
    let store = store_with_user(42, "admin", "everythinghastostartsomewhere");
    let fallback = fallback_hash().unwrap();
    let unknown = validate_credentials(&credentials("nobody", "whatever"), &store, &fallback);
    let wrong = validate_credentials(&credentials("admin", "wrong password"), &store, &fallback);
    assert!(matches!(unknown, Err(AuthError::InvalidCredentials)));
    assert!(matches!(wrong, Err(AuthError::InvalidCredentials)));
}

#[test]
fn corrupt_stored_hash_is_an_internal_fault() {
    let mut store = UserStore::new();
    store
        .add_user(7, "admin".to_string(), "garbage".to_string())
        .unwrap();
    let fallback = fallback_hash().unwrap();
    let outcome = validate_credentials(&credentials("admin", "anything"), &store, &fallback);
    assert!(matches!(outcome, Err(AuthError::UnexpectedError)));
}

#[test]
fn duplicate_usernames_and_ids_are_refused() {
    let mut store = UserStore::new();
    store.add_user(1, "admin".to_string(), "h".to_string()).unwrap();
    assert!(store.add_user(2, "admin".to_string(), "h".to_string()).is_err());
    assert!(store.add_user(1, "other".to_string(), "h".to_string()).is_err());
    assert!(store.add_user(2, "other".to_string(), "h".to_string()).is_ok());
}

#[test]
fn login_success_redirects_home() {
    let store = store_with_user(42, "admin", "everythinghastostartsomewhere");
    let fallback = fallback_hash().unwrap();
    let (user_id, response) = login(
        &credentials("admin", "everythinghastostartsomewhere"),
        &store,
        &fallback,
        "super-secret-hmac-key",
    )
    .unwrap();
    assert_eq!(user_id, 42);
    assert_eq!(response.status, 303);
    assert_eq!(location_of(&response).as_deref(), Some("/"));
}

#[test]
fn an_error_flash_message_is_set_on_failure() {
    // A failed login round-trips its message through the redirect, tagged
    // with an HMAC under the server's secret.
    let store = store_with_user(42, "admin", "everythinghastostartsomewhere");
    let fallback = fallback_hash().unwrap();
    let secret = "super-secret-hmac-key";
    let (error, response) = login(
        &credentials("random-username", "random-password"),
        &store,
        &fallback,
        secret,
    )
    .unwrap_err();
    assert!(matches!(error, LoginError::AuthError));
    assert_eq!(response.status, 303);

    let query = format!("error={}", urlencoding::encode("Authentication failed."));
    let mut mac = <hmac::Hmac<Sha256> as KeyInit>::new_from_slice(secret.as_bytes()).unwrap();
    Mac::update(&mut mac, query.as_bytes());
    let tag: String = mac
        .finalize()
        .into_bytes()
        .iter()
        .map(|b| format!("{:02x}", b))
        .collect();
    let expected = format!("/login?{}&tag={}", query, tag);
    assert_eq!(location_of(&response).as_deref(), Some(expected.as_str()));
}

#[test]
fn a_corrupt_stored_hash_fails_login_opaquely() {
    let mut store = UserStore::new();
    store
        .add_user(7, "admin".to_string(), "garbage".to_string())
        .unwrap();
    let fallback = fallback_hash().unwrap();
    let secret = "super-secret-hmac-key";
    let (error, response) = login(&credentials("admin", "anything"), &store, &fallback, secret)
        .unwrap_err();
    assert!(matches!(error, LoginError::UnexpectedError));
    let query = format!("error={}", urlencoding::encode("Something went wrong."));
    let mut mac = <hmac::Hmac<Sha256> as KeyInit>::new_from_slice(secret.as_bytes()).unwrap();
    Mac::update(&mut mac, query.as_bytes());
    let tag: String = mac
        .finalize()
        .into_bytes()
        .iter()
        .map(|b| format!("{:02x}", b))
        .collect();
    let expected = format!("/login?{}&tag={}", query, tag);
    assert_eq!(location_of(&response).as_deref(), Some(expected.as_str()));
}

#[test]
fn anonymous_users_are_redirected_to_login() {
    let refused = reject_anonymous_users(None).unwrap_err();
    assert_eq!(refused.status, 303);
    assert_eq!(location_of(&refused).as_deref(), Some("/login"));
    assert_eq!(reject_anonymous_users(Some(9)).unwrap(), 9);
}

fn password_form(current: &str, new: &str, check: &str) -> FormData {
    FormData {
        current_password: current.to_string(),
        new_password: new.to_string(),
        new_password_check: check.to_string(),
    }
}

#[test]
fn change_password_requires_matching_confirmation() {
    let mut store = store_with_user(42, "admin", "everythinghastostartsomewhere");
    let fallback = fallback_hash().unwrap();
    let outcome = change_password(
        Some(42),
        password_form("everythinghastostartsomewhere", "a new long password", "a different one"),
        &mut store,
        &fallback,
    );
    assert_eq!(outcome.response.status, 303);
    assert_eq!(location_of(&outcome.response).as_deref(), Some("/admin/password"));
    assert!(matches!(outcome.flash_level, Some(FlashLevel::Error)));
    assert_eq!(
        outcome.flash_text,
        "You entered two different new passwords - the field values must match."
    );
}

#[test]
fn change_password_rejects_a_wrong_current_password() {
    let mut store = store_with_user(42, "admin", "everythinghastostartsomewhere");
    let fallback = fallback_hash().unwrap();
    let outcome = change_password(
        Some(42),
        password_form("not the current one", "a new long password", "a new long password"),
        &mut store,
        &fallback,
    );
    assert!(matches!(outcome.flash_level, Some(FlashLevel::Error)));
    assert_eq!(outcome.flash_text, "The current password is incorrect.");
}

#[test]
fn change_password_enforces_the_length_policy() {
    let mut store = store_with_user(42, "admin", "everythinghastostartsomewhere");
    let fallback = fallback_hash().unwrap();
    let outcome = change_password(
        Some(42),
        password_form("everythinghastostartsomewhere", "short", "short"),
        &mut store,
        &fallback,
    );
    assert!(matches!(outcome.flash_level, Some(FlashLevel::Error)));
    assert_eq!(outcome.flash_text, "Password length must be between 12 and 128.");
    let too_long = "x".repeat(129);
    let outcome = change_password(
        Some(42),
        password_form("everythinghastostartsomewhere", &too_long, &too_long),
        &mut store,
        &fallback,
    );
    assert_eq!(outcome.flash_text, "Password length must be between 12 and 128.");
}

#[test]
fn change_password_stores_a_working_new_hash() {
    let mut store = store_with_user(42, "admin", "everythinghastostartsomewhere");
    let fallback = fallback_hash().unwrap();
    let outcome = change_password(
        Some(42),
        password_form(
            "everythinghastostartsomewhere",
            "a brand new password",
            "a brand new password",
        ),
        &mut store,
        &fallback,
    );
    assert!(matches!(outcome.flash_level, Some(FlashLevel::Info)));
    assert_eq!(outcome.flash_text, "Your password has been changed.");
    // The old password no longer validates; the new one does.
    assert!(matches!(
        validate_credentials(
            &credentials("admin", "everythinghastostartsomewhere"),
            &store,
            &fallback
        ),
        Err(AuthError::InvalidCredentials)
    ));
    assert_eq!(
        validate_credentials(&credentials("admin", "a brand new password"), &store, &fallback)
            .unwrap(),
        42
    );
}

#[test]
fn change_password_redirects_anonymous_sessions() {
    let mut store = store_with_user(42, "admin", "everythinghastostartsomewhere");
    let fallback = fallback_hash().unwrap();
    let outcome = change_password(
        None,
        password_form("a", "b", "b"),
        &mut store,
        &fallback,
    );
    assert_eq!(location_of(&outcome.response).as_deref(), Some("/login"));
    assert!(outcome.flash_level.is_none());
}
