use base64::Engine;
use newsletter::admin_newsletters::plan_dispatch;
use newsletter::newsletters::{
    basic_authentication, publish_newsletter, BasicAuthError, BodyData, PublishError,
};

fn basic_header(credentials: &str) -> String {
    format!(
        "Basic {}",
        base64::engine::general_purpose::STANDARD.encode(credentials)
    )
}

fn body() -> BodyData {
    BodyData {
        title: "Newsletter title".to_string(),
        content: "some content".to_string(),
    }
}

#[test]
fn basic_authentication_splits_at_the_first_colon() {
    let header = basic_header("user:pa:ss");
    let credentials = basic_authentication(Some(header.as_str())).unwrap();
    assert_eq!(credentials.username, "user");
    assert_eq!(credentials.password, "pa:ss");
}

#[test]
fn basic_authentication_accepts_an_empty_username() {
    let header = basic_header(":only-password");
    let credentials = basic_authentication(Some(header.as_str())).unwrap();
    assert_eq!(credentials.username, "");
    assert_eq!(credentials.password, "only-password");
}

#[test]
fn basic_authentication_rejects_each_malformed_header() {
    assert!(matches!(
        basic_authentication(None),
        Err(BasicAuthError::MissingHeader)
    ));
    assert!(matches!(
        basic_authentication(Some("Bearer abc")),
        Err(BasicAuthError::NotBasic)
    ));
    assert!(matches!(
        basic_authentication(Some("Basic !!!not-base64!!!")),
        Err(BasicAuthError::InvalidBase64)
    ));
    let invalid_utf8 = format!(
        "Basic {}",
        base64::engine::general_purpose::STANDARD.encode([0xffu8, 0xfe, 0xfd])
    );
    assert!(matches!(
        basic_authentication(Some(invalid_utf8.as_str())),
        Err(BasicAuthError::InvalidUtf8)
    ));
    let no_colon = basic_header("username-only");
    assert!(matches!(
        basic_authentication(Some(no_colon.as_str())),
        Err(BasicAuthError::MissingPassword)
    ));
}

#[test]
fn requests_without_credentials_are_refused_with_a_challenge() {
    let rows = vec!["reader@example.com".to_string()];
    let send_ok = vec![true];
    let (result, dispatched) = publish_newsletter(None, &body(), &rows, &send_ok);
    let error = result.unwrap_err();
    assert!(matches!(error, PublishError::AuthError(_)));
    assert_eq!(dispatched.len(), 0);

    let response = error.error_response();
    assert_eq!(response.status, 401);
    assert_eq!(
        response.headers,
        vec![(
            "WWW-Authenticate".to_string(),
            "Basic realm=\"publish\"".to_string()
        )]
    );
}

#[test]
fn publish_sends_to_every_well_formed_recipient() {
    let header = basic_header("admin:password");
    let rows = vec![
        "reader@example.com".to_string(),
        "broken-address".to_string(),
        "other@example.com".to_string(),
    ];
    let send_ok = vec![true, true, true];
    let (result, dispatched) = publish_newsletter(Some(header.as_str()), &body(), &rows, &send_ok);
    let response = result.unwrap();
    assert_eq!(response.status, 200);
    assert_eq!(dispatched.len(), 2);
    assert_eq!(dispatched[0].to, "reader@example.com");
    assert_eq!(dispatched[1].to, "other@example.com");
    assert_eq!(dispatched[0].subject, "Newsletter title");
    assert_eq!(dispatched[0].text_body, "some content");
}

#[test]
fn the_dispatch_plan_skips_malformed_rows_and_keeps_order() {
    let rows = vec![
        "broken".to_string(),
        "a@b.example".to_string(),
        "".to_string(),
        "c@d.example".to_string(),
    ];
    let plan = plan_dispatch("title", "content", &rows);
    assert_eq!(plan.len(), 2);
    assert_eq!(plan[0].to, "a@b.example");
    assert_eq!(plan[1].to, "c@d.example");
    assert_eq!(plan[1].subject, "title");
    assert_eq!(plan[1].text_body, "content");
}

#[test]
fn a_transport_failure_aborts_the_whole_batch() {
    let header = basic_header("admin:password");
    let rows = vec![
        "reader@example.com".to_string(),
        "other@example.com".to_string(),
        "third@example.com".to_string(),
    ];
    let send_ok = vec![true, false, true];
    let (result, dispatched) = publish_newsletter(Some(header.as_str()), &body(), &rows, &send_ok);
    let error = result.unwrap_err();
    match &error {
        PublishError::UnexpectedError(message) => {
            assert_eq!(message, "Failed to send newsletter issue to other@example.com");
        }
        PublishError::AuthError(_) => panic!("expected an internal fault"),
    }
    assert_eq!(dispatched.len(), 2);
    assert_eq!(error.error_response().status, 500);
}
