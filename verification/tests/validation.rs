use newsletter::configuration::Environment;
use newsletter::domain::{email_is_valid, NewSubscriber, SubscriberEmail, SubscriberName};
use newsletter::http::HttpResponse;
use newsletter::startup::ApplicationBaseUrl;
use newsletter::subscriptions::{
    confirmation_email, generate_subscription_token, is_valid_name, FormData, SendEmailError,
    SubscribeError, ValidationError,
};
use newsletter::utils::see_other;

#[test]
fn a_256_grapheme_long_name_is_valid() {
    let name = "a".repeat(256);
    assert!(is_valid_name(&name));
}

#[test]
fn a_name_longer_than_256_graphemes_is_rejected() {
    let name = "a".repeat(257);
    assert!(!is_valid_name(&name));
}

#[test]
fn whitespace_only_names_are_rejected() {
    assert!(!is_valid_name(" \t\n "));
    assert!(!is_valid_name(""));
}

#[test]
fn names_containing_an_invalid_character_are_rejected() {
    for name in ["/", "(", ")", "\"", "<", ">", "\\", "{", "}"] {
        assert!(!is_valid_name(name));
        let mixed = format!("Ursula{}Le Guin", name);
        assert!(!is_valid_name(&mixed));
    }
}

#[test]
fn a_valid_name_is_parsed_successfully() {
    assert!(is_valid_name("Ursula Le Guin"));
    let parsed = SubscriberName::parse("Ursula Le Guin".to_string()).unwrap();
    assert_eq!(parsed.as_str(), "Ursula Le Guin");
}

#[test]
fn valid_emails_are_parsed_successfully() {
    assert!(email_is_valid("ursula_le_guin@gmail.com"));
    let parsed = SubscriberEmail::parse("ursula_le_guin@gmail.com".to_string()).unwrap();
    assert_eq!(parsed.as_str(), "ursula_le_guin@gmail.com");
}

#[test]
fn malformed_emails_are_rejected() {
    assert!(!email_is_valid(""));
    assert!(!email_is_valid("definitely-not-an-email"));
    assert!(!email_is_valid("@domain.com"));
    assert!(!email_is_valid("user@"));
    assert!(!email_is_valid("two@at@signs.com"));
    assert!(SubscriberEmail::parse("definitely-not-an-email".to_string()).is_err());
}

#[test]
fn subscription_forms_validate_both_fields() {
    let ok = NewSubscriber::try_from(FormData {
        email: "ursula_le_guin@gmail.com".to_string(),
        name: "le guin".to_string(),
    })
    .unwrap();
    assert_eq!(ok.name.as_str(), "le guin");
    assert_eq!(ok.email.as_str(), "ursula_le_guin@gmail.com");

    assert!(NewSubscriber::try_from(FormData {
        email: "some_email@gmail.com".to_string(),
        name: "".to_string(),
    })
    .is_err());
    assert!(NewSubscriber::try_from(FormData {
        email: "".to_string(),
        name: "Matheus".to_string(),
    })
    .is_err());
    assert!(NewSubscriber::try_from(FormData {
        email: "definitely-not-an-email".to_string(),
        name: "Matheus".to_string(),
    })
    .is_err());
}

#[test]
fn validation_failures_map_to_400_and_faults_to_500() {
    let validation = SubscribeError::ValidationError(ValidationError("bad".to_string()));
    assert_eq!(validation.status_code(), 400);
    assert_eq!(SubscribeError::PoolError.status_code(), 500);
    assert_eq!(SubscribeError::InsertSubscriberError.status_code(), 500);
    assert_eq!(SubscribeError::TransactionCommitError.status_code(), 500);
    assert_eq!(SubscribeError::StoreTokenError.status_code(), 500);
    assert_eq!(
        SubscribeError::SendEmailError(SendEmailError("boom".to_string())).status_code(),
        500
    );
    assert_eq!(ValidationError("x".to_string()).message(), "Invalid input.");
    assert_eq!(SendEmailError("x".to_string()).message(), "Failed to send email.");
}

#[test]
fn the_confirmation_email_carries_the_tokenized_link() {
    let subscriber = NewSubscriber::try_from(FormData {
        email: "ursula_le_guin@gmail.com".to_string(),
        name: "le guin".to_string(),
    })
    .unwrap();
    let base_url = ApplicationBaseUrl("https://newsletter.example".to_string());
    let email = confirmation_email(&subscriber, &base_url, "mytoken123");
    assert_eq!(email.to, "ursula_le_guin@gmail.com");
    assert_eq!(email.subject, "Welcome!");
    assert_eq!(
        email.text_body,
        "Welcome to our newsletter!\nVisit https://newsletter.example/subscriptions/confirm?subscription_token=mytoken123 to confirm your subscription."
    );
}

#[test]
fn subscription_tokens_are_25_fresh_alphanumerics() {
    let first = generate_subscription_token();
    let second = generate_subscription_token();
    assert_eq!(first.chars().count(), 25);
    assert!(first.chars().all(|c| c.is_ascii_alphanumeric()));
    assert_ne!(first, second);
}

#[test]
fn environments_parse_ignoring_case() {
    assert!(matches!(
        Environment::try_from("local".to_string()),
        Ok(Environment::Local)
    ));
    assert!(matches!(
        Environment::try_from("LOCAL".to_string()),
        Ok(Environment::Local)
    ));
    assert!(matches!(
        Environment::try_from("Production".to_string()),
        Ok(Environment::Production)
    ));
    let message = Environment::try_from("dev".to_string()).unwrap_err();
    assert_eq!(
        message,
        "dev is not a supported environment. Use either `local` or `production`."
    );
    assert_eq!(Environment::Local.as_str(), "local");
    assert_eq!(Environment::Production.as_str(), "production");
}

#[test]
fn see_other_carries_only_the_location_header() {
    let response = see_other("/admin/newsletters");
    assert_eq!(response.status, 303);
    assert_eq!(
        response.headers,
        vec![("Location".to_string(), "/admin/newsletters".to_string())]
    );
    assert!(response.body.is_empty());
}

#[test]
fn responses_compare_byte_for_byte() {
    let a = see_other("/a");
    let b = see_other("/a");
    let c = see_other("/b");
    assert!(a.same_as(&b));
    assert!(!a.same_as(&c));
    assert!(!a.same_as(&HttpResponse::with_status(303)));
    let duplicated = a.duplicate();
    assert!(duplicated.same_as(&a));
}
