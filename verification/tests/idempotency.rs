use newsletter::admin_newsletters::{publish_newsletter, FormData};
use newsletter::http::HttpResponse;
use newsletter::idempotency::{IdempotencyKey, IdempotencyStore, NextAction};

fn subscribers() -> Vec<String> {
    vec![
        "ursula_le_guin@gmail.com".to_string(),
        "not-an-address".to_string(),
        "reader@example.com".to_string(),
    ]
}

fn form(key: &str, title: &str) -> FormData {
    FormData {
        title: title.to_string(),
        content: "issue content".to_string(),
        idempotency_key: key.to_string(),
    }
}

fn location_of(response: &HttpResponse) -> Option<String> {
    response
        .headers
        .iter()
        .find(|(name, _)| name == "Location")
        .map(|(_, value)| value.clone())
}

#[test]
fn key_accepts_1_to_50_characters() {
    assert!(IdempotencyKey::try_new("a".to_string()).is_ok());
    assert!(IdempotencyKey::try_new("a".repeat(50)).is_ok());
    assert!(IdempotencyKey::try_new(String::new()).is_err());
    assert!(IdempotencyKey::try_new("a".repeat(51)).is_err());
}

#[test]
fn first_call_executes_and_saves_then_retry_replays() {
    // Scenario: key "abc123", user U1, title "Hello".
    let mut store = IdempotencyStore::new();
    let user_u1: u128 = 1;
    let rows = subscribers();
    let send_ok = vec![true, true, true];

    let first = publish_newsletter(&mut store, user_u1, form("abc123", "Hello"), &rows, &send_ok, 7);
    assert_eq!(first.response.status, 303);
    assert_eq!(
        location_of(&first.response).as_deref(),
        Some("/admin/newsletters")
    );
    // Dispatch side effects observed exactly once: the two well-formed rows.
    assert_eq!(first.dispatched.len(), 2);
    assert_eq!(first.dispatched[0].to, "ursula_le_guin@gmail.com");
    assert_eq!(first.dispatched[1].to, "reader@example.com");
    assert_eq!(first.dispatched[0].subject, "Hello");

    let second =
        publish_newsletter(&mut store, user_u1, form("abc123", "Hello"), &rows, &send_ok, 9);
    // Identical headers and body, zero additional dispatch side effects.
    assert!(second.response.same_as(&first.response));
    assert_eq!(second.dispatched.len(), 0);
}

#[test]
fn over_length_key_is_rejected_before_any_store_access() {
    let mut store = IdempotencyStore::new();
    let rows = subscribers();
    let send_ok = vec![true, true, true];
    let long_key = "k".repeat(51);

    let refused = publish_newsletter(&mut store, 1, form(&long_key, "Hello"), &rows, &send_ok, 7);
    assert_eq!(refused.response.status, 400);
    assert_eq!(refused.dispatched.len(), 0);

    // The store was untouched: a valid key still starts from scratch.
    let fresh = publish_newsletter(&mut store, 1, form("abc123", "Hello"), &rows, &send_ok, 8);
    assert_eq!(fresh.response.status, 303);
    assert_eq!(fresh.dispatched.len(), 2);
}

#[test]
fn concurrent_duplicate_is_never_started_twice() {
    // Two concurrent submissions of the same request: the second observes
    // the first's in-progress claim and must wait, not execute.
    let mut store = IdempotencyStore::new();
    let key = IdempotencyKey::try_new("abc123".to_string()).unwrap();

    assert!(matches!(
        store.try_processing(1, &key, 7),
        NextAction::StartProcessing
    ));
    assert!(matches!(
        store.try_processing(1, &key, 7),
        NextAction::WaitForCompletion
    ));

    // The first finishes; the waiter re-evaluates and replays byte for byte.
    let mut response = HttpResponse::with_status(303);
    response.push_header("Location", "/admin/newsletters");
    let returned = store.save_response(1, &key, response);
    match store.try_processing(1, &key, 7) {
        NextAction::ReturnSavedResponse(replayed) => {
            assert!(replayed.same_as(&returned));
        }
        _ => panic!("a completed record must be replayed"),
    }
}

#[test]
fn concurrent_duplicate_surfaces_as_retryable_conflict() {
    let mut store = IdempotencyStore::new();
    let key = IdempotencyKey::try_new("abc123".to_string()).unwrap();
    assert!(matches!(
        store.try_processing(1, &key, 7),
        NextAction::StartProcessing
    ));

    let rows = subscribers();
    let send_ok = vec![true, true, true];
    let blocked = publish_newsletter(&mut store, 1, form("abc123", "Hello"), &rows, &send_ok, 8);
    assert_eq!(blocked.response.status, 409);
    assert_eq!(blocked.dispatched.len(), 0);
}

#[test]
fn distinct_users_and_keys_do_not_share_records() {
    let mut store = IdempotencyStore::new();
    let rows = subscribers();
    let send_ok = vec![true, true, true];

    let first = publish_newsletter(&mut store, 1, form("abc123", "Hello"), &rows, &send_ok, 7);
    assert_eq!(first.dispatched.len(), 2);
    // Same key, another user: a fresh execution.
    let other_user = publish_newsletter(&mut store, 2, form("abc123", "Hello"), &rows, &send_ok, 8);
    assert_eq!(other_user.response.status, 303);
    assert_eq!(other_user.dispatched.len(), 2);
    // Same user, another key: a fresh execution.
    let other_key = publish_newsletter(&mut store, 1, form("abc124", "Hello"), &rows, &send_ok, 9);
    assert_eq!(other_key.dispatched.len(), 2);
}

#[test]
fn workflow_failure_rolls_back_and_retry_reexecutes_fully() {
    let mut store = IdempotencyStore::new();
    let rows = subscribers();
    // The send to the second well-formed recipient fails.
    let failing = vec![true, true, false];

    let failed = publish_newsletter(&mut store, 1, form("abc123", "Hello"), &rows, &failing, 7);
    assert_eq!(failed.response.status, 500);
    // The batch stopped at the failure: both sends were attempted, the
    // second refused.
    assert_eq!(failed.dispatched.len(), 2);

    // No completed record was left behind: the retry re-executes the whole
    // workflow rather than replaying a partial failure.
    let send_ok = vec![true, true, true];
    let retried = publish_newsletter(&mut store, 1, form("abc123", "Hello"), &rows, &send_ok, 8);
    assert_eq!(retried.response.status, 303);
    assert_eq!(retried.dispatched.len(), 2);
    assert_eq!(retried.dispatched[0].to, "ursula_le_guin@gmail.com");
    assert_eq!(retried.dispatched[1].to, "reader@example.com");
}

#[test]
fn failure_on_first_recipient_attempts_nothing_further() {
    let mut store = IdempotencyStore::new();
    let rows = subscribers();
    let failing = vec![false, true, true];

    let failed = publish_newsletter(&mut store, 1, form("abc123", "Hello"), &rows, &failing, 7);
    assert_eq!(failed.response.status, 500);
    assert_eq!(failed.dispatched.len(), 1);
    assert_eq!(failed.dispatched[0].to, "ursula_le_guin@gmail.com");
}

#[test]
fn rollback_frees_the_key_for_a_fresh_claim() {
    let mut store = IdempotencyStore::new();
    let key = IdempotencyKey::try_new("abc123".to_string()).unwrap();
    assert!(matches!(
        store.try_processing(1, &key, 7),
        NextAction::StartProcessing
    ));
    store.rollback(1, &key);
    assert!(matches!(
        store.try_processing(1, &key, 8),
        NextAction::StartProcessing
    ));
}
