//! Publishing a newsletter issue: the idempotent executor around the dispatch
//! workflow. The workflow fetches the confirmed recipients, skips rows whose
//! stored address is malformed, and asks the transport to deliver one email
//! per remaining recipient; any transport failure aborts the whole batch and
//! releases the idempotency claim, so a retry re-runs the batch from scratch.

use vstd::prelude::*;

use crate::domain::email_is_valid;
use crate::domain::valid_email;
use crate::email_client::EmailDispatch;
use crate::email_client::EmailModel;
use crate::email_client::lemma_dispatch_deep_view;
use crate::http::HttpResponse;
use crate::idempotency::claimed;
use crate::idempotency::completed;
use crate::idempotency::decision;
use crate::idempotency::Decision;
use crate::idempotency::IdempotencyKey;
use crate::idempotency::IdempotencyStore;
use crate::idempotency::NextAction;
use crate::idempotency::valid_key;
use crate::utils::see_other;
use crate::utils::see_other_model;
use crate::utils::status_model;

verus! {

/// The form a publish request carries: the issue and the client's
/// idempotency key.
pub struct FormData {
    pub title: String,
    pub content: String,
    pub idempotency_key: String,
}

/// The confirmed recipients whose stored address is well formed, in store
/// order: the dispatch plan for one newsletter issue.
pub open spec fn planned(rows: Seq<Seq<char>>) -> Seq<Seq<char>>
    decreases rows.len(),
{
    if rows.len() == 0 {
        Seq::empty()
    } else {
        let p = planned(rows.drop_last());
        if valid_email(rows.last()) {
            p.push(rows.last())
        } else {
            p
        }
    }
}

/// The first row among the first `n` whose send is attempted and fails:
/// the dispatch runs in store order and stops at the first refusal.
pub open spec fn first_failed_row(rows: Seq<Seq<char>>, ok: Seq<bool>, n: int) -> Option<int>
    decreases n,
{
    if n <= 0 {
        None
    } else {
        match first_failed_row(rows, ok, n - 1) {
            Some(j) => Some(j),
            None => if valid_email(rows[n - 1]) && !ok[n - 1] {
                Some(n - 1)
            } else {
                None
            },
        }
    }
}

/// Extending the scan cannot change an already-found first failure.
pub proof fn lemma_first_failed_monotone(rows: Seq<Seq<char>>, ok: Seq<bool>, m: int, n: int)
    requires
        0 <= m <= n,
        first_failed_row(rows, ok, m) is Some,
    ensures
        first_failed_row(rows, ok, n) == first_failed_row(rows, ok, m),
    decreases n,
{
    if n > m {
        lemma_first_failed_monotone(rows, ok, m, n - 1);
    }
}

/// The emails asked of the transport for recipients `tos`.
pub open spec fn dispatch_models(tos: Seq<Seq<char>>, title: Seq<char>, content: Seq<char>) -> Seq<
    EmailModel,
> {
    Seq::new(tos.len(), |i: int| EmailModel { to: tos[i], subject: title, text_body: content })
}

/// What one publish request produced: the HTTP response for the client, and
/// the dispatches that were asked of the transport while handling it.
pub struct PublishOutcome {
    pub response: HttpResponse,
    pub dispatched: Vec<EmailDispatch>,
}

/// Handles one publish request end to end against the idempotency store.
///
/// `subscriber_rows` holds the stored addresses of the confirmed recipients;
/// `send_ok[i]` is the transport's verdict on the send to row `i`, consulted
/// only for rows whose send is attempted.
///
/// A malformed idempotency key is rejected with a 400 before the store is
/// read or written and before any dispatch. A completed earlier run is
/// replayed byte for byte with no dispatch. A still-running concurrent
/// duplicate leaves the store untouched and is surfaced as a retryable 409.
/// Otherwise the request claims the key and runs the workflow: one dispatch
/// per well-formed recipient row, in order, stopping at the first transport
/// failure — on failure the claim is rolled back (store exactly as before)
/// and the client sees an opaque 500; on success the stored record is
/// completed with the 303 redirect that every retry will replay.
pub fn publish_newsletter(
    store: &mut IdempotencyStore,
    user_id: u128,
    form: FormData,
    subscriber_rows: &Vec<String>,
    send_ok: &Vec<bool>,
    now: u64,
) -> (r: PublishOutcome)
    requires
        old(store).wf(),
        send_ok@.len() == subscriber_rows@.len(),
    ensures
        final(store).wf(),
        ({
            let rows = subscriber_rows.deep_view();
            let key = form.idempotency_key@;
            if !valid_key(key) {
                &&& r.response@ == status_model(400)
                &&& r.dispatched@.len() == 0
                &&& final(store)@ == old(store)@
            } else {
                match decision(old(store)@, user_id, key) {
                    Decision::Replay(resp) => {
                        &&& r.response@ == resp
                        &&& r.dispatched@.len() == 0
                        &&& final(store)@ == old(store)@
                    },
                    Decision::Wait => {
                        &&& r.response@ == status_model(409)
                        &&& r.dispatched@.len() == 0
                        &&& final(store)@ == old(store)@
                    },
                    Decision::Start => match first_failed_row(rows, send_ok@, rows.len() as int) {
                        None => {
                            &&& r.response@ == see_other_model("/admin/newsletters"@)
                            &&& r.dispatched.deep_view() == dispatch_models(
                                planned(rows),
                                form.title@,
                                form.content@,
                            )
                            &&& final(store)@ == completed(
                                claimed(old(store)@, user_id, key, now),
                                user_id,
                                key,
                                see_other_model("/admin/newsletters"@),
                            )
                        },
                        Some(f) => {
                            &&& r.response@ == status_model(500)
                            &&& r.dispatched.deep_view() == dispatch_models(
                                planned(rows.take(f + 1)),
                                form.title@,
                                form.content@,
                            )
                            &&& final(store)@ == old(store)@
                        },
                    },
                }
            }
        }),
{
    let FormData { title, content, idempotency_key } = form;
    let key = match IdempotencyKey::try_new(idempotency_key) {
        Ok(k) => k,
        Err(_) => {
            return PublishOutcome {
                response: HttpResponse::with_status(400),
                dispatched: Vec::new(),
            };
        },
    };
    match store.try_processing(user_id, &key, now) {
        NextAction::ReturnSavedResponse(resp) => PublishOutcome {
            response: resp,
            dispatched: Vec::new(),
        },
        NextAction::WaitForCompletion => PublishOutcome {
            response: HttpResponse::with_status(409),
            dispatched: Vec::new(),
        },
        NextAction::StartProcessing => {
            let ghost rows = subscriber_rows.deep_view();
            let mut dispatched: Vec<EmailDispatch> = Vec::new();
            let n = subscriber_rows.len();
            let mut i: usize = 0;
            let mut failed = false;
            proof {
                assert(rows.take(0) =~= Seq::<Seq<char>>::empty());
            }
            while i < n
                invariant_except_break
                    !failed,
                invariant
                    !failed ==> first_failed_row(rows, send_ok@, i as int) is None,
                    n == subscriber_rows@.len(),
                    n == send_ok@.len(),
                    rows == subscriber_rows.deep_view(),
                    i <= n,
                    failed ==> first_failed_row(rows, send_ok@, n as int) == Some(i as int)
                        && dispatched@.len() == planned(rows.take(i + 1)).len() && (forall|k: int|
                        0 <= k < dispatched@.len() ==> (#[trigger] dispatched@[k])@ == (EmailModel {
                            to: planned(rows.take(i + 1))[k],
                            subject: title@,
                            text_body: content@,
                        })),
                    !failed ==> dispatched@.len() == planned(rows.take(i as int)).len() && (forall|
                        k: int,
                    |
                        0 <= k < dispatched@.len() ==> (#[trigger] dispatched@[k])@ == (EmailModel {
                            to: planned(rows.take(i as int))[k],
                            subject: title@,
                            text_body: content@,
                        })),
                ensures
                    failed ==> i < n,
                    !failed ==> i == n,
                decreases n - i,
            {
                proof {
                    assert(rows[i as int] == subscriber_rows@[i as int]@);
                    assert(rows.take(i + 1).drop_last() =~= rows.take(i as int));
                    assert(rows.take(i + 1).last() == rows[i as int]);
                }
                let row = &subscriber_rows[i];
                if email_is_valid(row.as_str()) {
                    dispatched.push(
                        EmailDispatch {
                            to: String::from_str(row.as_str()),
                            subject: String::from_str(title.as_str()),
                            text_body: String::from_str(content.as_str()),
                        },
                    );
                    if !send_ok[i] {
                        failed = true;
                        proof {
                            assert(first_failed_row(rows, send_ok@, i + 1) == Some(i as int));
                            lemma_first_failed_monotone(rows, send_ok@, i + 1, n as int);
                        }
                        break;
                    }
                }
                i = i + 1;
            }
            proof {
                assert(rows.take(n as int) =~= rows);
                if failed {
                    lemma_dispatch_deep_view(
                        dispatched,
                        dispatch_models(planned(rows.take(i + 1)), title@, content@),
                    );
                } else {
                    lemma_dispatch_deep_view(
                        dispatched,
                        dispatch_models(planned(rows), title@, content@),
                    );
                }
            }
            if failed {
                store.rollback(user_id, &key);
                proof {
                    assert(store@ =~= old(store)@);
                }
                PublishOutcome { response: HttpResponse::with_status(500), dispatched }
            } else {
                let response = see_other("/admin/newsletters");
                let response = store.save_response(user_id, &key, response);
                PublishOutcome { response, dispatched }
            }
        },
    }
}

/// The dispatch plan for one issue: one email per well-formed recipient row,
/// in store order; malformed rows are skipped.
pub fn plan_dispatch(title: &str, content: &str, subscriber_rows: &Vec<String>) -> (r: Vec<
    EmailDispatch,
>)
    ensures
        r.deep_view() == dispatch_models(
            planned(subscriber_rows.deep_view()),
            title@,
            content@,
        ),
{
    let ghost rows = subscriber_rows.deep_view();
    let mut dispatched: Vec<EmailDispatch> = Vec::new();
    let n = subscriber_rows.len();
    let mut i: usize = 0;
    proof {
        assert(rows.take(0) =~= Seq::<Seq<char>>::empty());
    }
    while i < n
        invariant
            n == subscriber_rows@.len(),
            rows == subscriber_rows.deep_view(),
            i <= n,
            dispatched@.len() == planned(rows.take(i as int)).len(),
            forall|k: int|
                0 <= k < dispatched@.len() ==> (#[trigger] dispatched@[k])@ == (EmailModel {
                    to: planned(rows.take(i as int))[k],
                    subject: title@,
                    text_body: content@,
                }),
        decreases n - i,
    {
        proof {
            assert(rows[i as int] == subscriber_rows@[i as int]@);
            assert(rows.take(i + 1).drop_last() =~= rows.take(i as int));
            assert(rows.take(i + 1).last() == rows[i as int]);
        }
        let row = &subscriber_rows[i];
        if email_is_valid(row.as_str()) {
            dispatched.push(
                EmailDispatch {
                    to: String::from_str(row.as_str()),
                    subject: String::from_str(title),
                    text_body: String::from_str(content),
                },
            );
        }
        i = i + 1;
    }
    proof {
        assert(rows.take(n as int) =~= rows);
        lemma_dispatch_deep_view(dispatched, dispatch_models(planned(rows), title@, content@));
    }
    dispatched
}

} // verus!
