//! Idempotent command execution: a client-supplied key identifies a logical
//! request, and the store guarantees that the side-effecting operation behind
//! that request runs at most once per (user, key) pair.
//!
//! A record is claimed (inserted with no response) when processing starts and
//! completed (response filled in) when processing commits; a failed run rolls
//! its claim back, so a retry starts from scratch. A completed record is
//! replayed byte for byte and never reverts to an in-progress state.

use vstd::prelude::*;

use crate::http::HttpResponse;
use crate::http::RespModel;
use crate::seq_map::as_map;
use crate::seq_map::distinct_keys;
use crate::seq_map::lemma_as_map_get;
use crate::seq_map::lemma_as_map_push;
use crate::seq_map::lemma_as_map_remove;
use crate::seq_map::lemma_as_map_update;

verus! {

/// Maximum accepted length of an idempotency key, in characters.
pub const MAX_KEY_LEN: usize = 50;

/// A client-supplied idempotency key: 1 to 50 characters, checked on
/// construction and immutable afterwards.
pub struct IdempotencyKey {
    key: String,
}

/// The validity rule for idempotency keys.
pub open spec fn valid_key(s: Seq<char>) -> bool {
    1 <= s.len() <= MAX_KEY_LEN
}

impl View for IdempotencyKey {
    type V = Seq<char>;

    closed spec fn view(&self) -> Seq<char> {
        self.key@
    }
}

impl IdempotencyKey {
    #[verifier::type_invariant]
    closed spec fn type_inv(self) -> bool {
        valid_key(self.key@)
    }

    /// Accepts the string as an idempotency key exactly when it has 1 to 50
    /// characters; empty and over-length keys are rejected.
    pub fn try_new(s: String) -> (r: Result<IdempotencyKey, IdempotencyError>)
        ensures
            match r {
                Ok(k) => valid_key(s@) && k@ == s@,
                Err(e) => !valid_key(s@) && e is InvalidKey,
            },
    {
        let n = s.as_str().unicode_len();
        if n == 0 || n > MAX_KEY_LEN {
            Err(IdempotencyError::InvalidKey)
        } else {
            Ok(IdempotencyKey { key: s })
        }
    }

    /// The key's characters.
    pub fn as_str(&self) -> (r: &str)
        ensures
            r@ == self@,
    {
        self.key.as_str()
    }
}

/// Why an idempotency operation was refused: a malformed key (user-facing,
/// a 400) — store faults are not modelled by the in-memory store.
#[derive(Debug)]
pub enum IdempotencyError {
    InvalidKey,
}

/// One row of the idempotency store.
struct IdempotencyRecord {
    user_id: u128,
    idempotency_key: String,
    created_at: u64,
    response: Option<HttpResponse>,
}

/// The mathematical value of a record: when it was claimed, and the saved
/// response once the run completed (`None` while it is in progress).
pub ghost struct RecordModel {
    pub created_at: u64,
    pub response: Option<RespModel>,
}

impl IdempotencyRecord {
    spec fn key_pair(self) -> (u128, Seq<char>) {
        (self.user_id, self.idempotency_key@)
    }

    spec fn model(self) -> RecordModel {
        RecordModel {
            created_at: self.created_at,
            response: match self.response {
                Some(r) => Some(r@),
                None => None,
            },
        }
    }
}

/// What a request must do next, as decided by the store.
pub enum NextAction {
    /// No record existed: the claim is in place and the caller must run the
    /// side-effecting workflow, then either save a response or roll back.
    StartProcessing,
    /// A completed record existed: the caller must replay this response byte
    /// for byte and must not run the workflow.
    ReturnSavedResponse(HttpResponse),
    /// Another run of the same request is still in progress; the caller must
    /// wait for it to commit or roll back and then ask again. (The relational
    /// store blocks on the claimed row instead of returning this.)
    WaitForCompletion,
}

/// The decision the store makes for a (user, key) pair in a given state.
pub ghost enum Decision {
    Start,
    Replay(RespModel),
    Wait,
}

/// How a store state answers `try_processing` for `user_id` and `key`.
pub open spec fn decision(
    m: Map<(u128, Seq<char>), RecordModel>,
    user_id: u128,
    key: Seq<char>,
) -> Decision {
    if !m.dom().contains((user_id, key)) {
        Decision::Start
    } else {
        match m[(user_id, key)].response {
            Some(r) => Decision::Replay(r),
            None => Decision::Wait,
        }
    }
}

/// The store state after a claim for `(user_id, key)` is inserted at `now`.
pub open spec fn claimed(
    m: Map<(u128, Seq<char>), RecordModel>,
    user_id: u128,
    key: Seq<char>,
    now: u64,
) -> Map<(u128, Seq<char>), RecordModel> {
    m.insert((user_id, key), RecordModel { created_at: now, response: None })
}

/// The store state after the claim for `(user_id, key)` is completed with
/// `response`.
pub open spec fn completed(
    m: Map<(u128, Seq<char>), RecordModel>,
    user_id: u128,
    key: Seq<char>,
    response: RespModel,
) -> Map<(u128, Seq<char>), RecordModel> {
    m.insert(
        (user_id, key),
        RecordModel { created_at: m[(user_id, key)].created_at, response: Some(response) },
    )
}

/// The store state after the claim for `(user_id, key)` is rolled back.
pub open spec fn rolled_back(
    m: Map<(u128, Seq<char>), RecordModel>,
    user_id: u128,
    key: Seq<char>,
) -> Map<(u128, Seq<char>), RecordModel> {
    m.remove((user_id, key))
}

/// Law: once one request holds the claim for a (user, key) pair, a concurrent
/// duplicate of the same request is told to wait — the store never lets it
/// start a second execution of the workflow.
pub proof fn lemma_concurrent_duplicate_waits(
    m: Map<(u128, Seq<char>), RecordModel>,
    user_id: u128,
    key: Seq<char>,
    now: u64,
)
    ensures
        decision(claimed(m, user_id, key, now), user_id, key) == Decision::Wait,
{
}

/// Law: once a run has completed with a response, every later request for the
/// same (user, key) pair — the waiting concurrent duplicate included — is
/// answered with exactly that response, byte for byte, and the workflow is
/// not executed again.
pub proof fn lemma_replay_after_completion(
    m: Map<(u128, Seq<char>), RecordModel>,
    user_id: u128,
    key: Seq<char>,
    response: RespModel,
)
    ensures
        decision(completed(m, user_id, key, response), user_id, key) == Decision::Replay(response),
{
}

/// Law: a workflow failure after claiming a fresh key rolls the claim back
/// and leaves no completed record, so a retry with the same key starts the
/// workflow from scratch; indeed it leaves the store exactly as it was.
pub proof fn lemma_retry_after_rollback(
    m: Map<(u128, Seq<char>), RecordModel>,
    user_id: u128,
    key: Seq<char>,
    now: u64,
)
    requires
        decision(m, user_id, key) == Decision::Start,
    ensures
        decision(rolled_back(claimed(m, user_id, key, now), user_id, key), user_id, key)
            == Decision::Start,
        rolled_back(claimed(m, user_id, key, now), user_id, key) == m,
{
    assert(rolled_back(claimed(m, user_id, key, now), user_id, key) =~= m);
}

/// Law: a completed record is never observed reverting to an in-progress
/// state. `save_response` and `rollback` refuse it (both require the
/// in-progress claim), `try_processing` replays it and leaves the store
/// unchanged, and claims, completions and rollbacks under any other
/// (user, key) pair leave it exactly as it was.
pub proof fn lemma_completed_record_is_stable(
    m: Map<(u128, Seq<char>), RecordModel>,
    user_id: u128,
    key: Seq<char>,
    response: RespModel,
    other_user: u128,
    other_key: Seq<char>,
    now: u64,
    other_response: RespModel,
)
    requires
        decision(m, user_id, key) == Decision::Replay(response),
        (other_user, other_key) != (user_id, key),
    ensures
        decision(claimed(m, other_user, other_key, now), user_id, key) == Decision::Replay(
            response,
        ),
        decision(completed(m, other_user, other_key, other_response), user_id, key)
            == Decision::Replay(response),
        decision(rolled_back(m, other_user, other_key), user_id, key) == Decision::Replay(response),
{
}

/// The idempotency store: at most one record per (user, key) pair. This is
/// the in-memory model of the relational `idempotency` table; its uniqueness
/// constraint is the `distinct_keys` well-formedness condition.
pub struct IdempotencyStore {
    records: Vec<IdempotencyRecord>,
}

impl View for IdempotencyStore {
    type V = Map<(u128, Seq<char>), RecordModel>;

    closed spec fn view(&self) -> Map<(u128, Seq<char>), RecordModel> {
        as_map(
            self.records@,
            |r: IdempotencyRecord| r.key_pair(),
            |r: IdempotencyRecord| r.model(),
        )
    }
}

impl IdempotencyStore {
    /// The uniqueness constraint on (user, key) pairs.
    pub closed spec fn wf(self) -> bool {
        distinct_keys(self.records@, |r: IdempotencyRecord| r.key_pair())
    }

    /// An empty store.
    pub fn new() -> (s: IdempotencyStore)
        ensures
            s.wf(),
            s@ == Map::<(u128, Seq<char>), RecordModel>::empty(),
    {
        IdempotencyStore { records: Vec::new() }
    }

    /// The index of the record for (user_id, key), if any.
    fn find(&self, user_id: u128, key: &str) -> (r: Option<usize>)
        ensures
            match r {
                Some(i) => i < self.records@.len() && self.records@[i as int].user_id == user_id
                    && self.records@[i as int].idempotency_key@ == key@,
                None => forall|i: int|
                    0 <= i < self.records@.len() ==> !(#[trigger] self.records@[i].user_id
                        == user_id && self.records@[i].idempotency_key@ == key@),
            },
    {
        let n = self.records.len();
        let mut i: usize = 0;
        while i < n
            invariant
                n == self.records@.len(),
                i <= n,
                forall|j: int|
                    0 <= j < i ==> !(#[trigger] self.records@[j].user_id == user_id
                        && self.records@[j].idempotency_key@ == key@),
            decreases n - i,
        {
            let rec = &self.records[i];
            if rec.user_id == user_id && crate::text::str_eq(rec.idempotency_key.as_str(), key) {
                return Some(i);
            }
            i = i + 1;
        }
        None
    }

    /// Ties `find` to the map view.
    proof fn lemma_find_view(&self, user_id: u128, key: Seq<char>)
        requires
            self.wf(),
        ensures
            self@.dom().contains((user_id, key)) <==> exists|i: int|
                0 <= i < self.records@.len() && (#[trigger] self.records@[i]).user_id == user_id
                    && self.records@[i].idempotency_key@ == key,
            forall|i: int|
                0 <= i < self.records@.len() && (#[trigger] self.records@[i]).user_id == user_id
                    && self.records@[i].idempotency_key@ == key ==> self@[(user_id, key)]
                    == self.records@[i].model(),
    {
        let kf = |r: IdempotencyRecord| r.key_pair();
        let vf = |r: IdempotencyRecord| r.model();
        lemma_as_map_get(self.records@, kf, vf, (user_id, key));
        assert(forall|i: int|
            0 <= i < self.records@.len() ==> kf(#[trigger] self.records@[i])
                == (self.records@[i].user_id, self.records@[i].idempotency_key@));
    }

    /// Decides what to do for one incoming request: claim the key and start
    /// the workflow, replay the saved response of a completed earlier run, or
    /// wait for a concurrent run that holds the claim.
    pub fn try_processing(&mut self, user_id: u128, key: &IdempotencyKey, now: u64) -> (r:
        NextAction)
        requires
            old(self).wf(),
        ensures
            final(self).wf(),
            match r {
                NextAction::StartProcessing => decision(old(self)@, user_id, key@)
                    == Decision::Start && final(self)@ == claimed(old(self)@, user_id, key@, now),
                NextAction::ReturnSavedResponse(resp) => decision(old(self)@, user_id, key@)
                    == Decision::Replay(resp@) && final(self)@ == old(self)@,
                NextAction::WaitForCompletion => decision(old(self)@, user_id, key@)
                    == Decision::Wait && final(self)@ == old(self)@,
            },
    {
        proof {
            self.lemma_find_view(user_id, key@);
        }
        match self.find(user_id, key.as_str()) {
            Some(i) => {
                let rec = &self.records[i];
                match &rec.response {
                    Some(saved) => NextAction::ReturnSavedResponse(saved.duplicate()),
                    None => NextAction::WaitForCompletion,
                }
            },
            None => {
                let rec = IdempotencyRecord {
                    user_id,
                    idempotency_key: String::from_str(key.as_str()),
                    created_at: now,
                    response: None,
                };
                proof {
                    let kf = |r: IdempotencyRecord| r.key_pair();
                    let vf = |r: IdempotencyRecord| r.model();
                    lemma_as_map_push(self.records@, kf, vf, rec);
                }
                self.records.push(rec);
                NextAction::StartProcessing
            },
        }
    }

    /// Completes the claimed record with the response the workflow produced,
    /// and hands the response back for the caller to return. Requires the
    /// claim to be held: a completed record is never overwritten.
    pub fn save_response(
        &mut self,
        user_id: u128,
        key: &IdempotencyKey,
        response: HttpResponse,
    ) -> (r: HttpResponse)
        requires
            old(self).wf(),
            decision(old(self)@, user_id, key@) == Decision::Wait,
        ensures
            final(self).wf(),
            final(self)@ == completed(old(self)@, user_id, key@, response@),
            r@ == response@,
    {
        proof {
            self.lemma_find_view(user_id, key@);
        }
        match self.find(user_id, key.as_str()) {
            Some(i) => {
                let created_at = self.records[i].created_at;
                let rec = IdempotencyRecord {
                    user_id,
                    idempotency_key: String::from_str(key.as_str()),
                    created_at,
                    response: Some(response.duplicate()),
                };
                proof {
                    let kf = |r: IdempotencyRecord| r.key_pair();
                    let vf = |r: IdempotencyRecord| r.model();
                    lemma_as_map_update(self.records@, kf, vf, i as int, rec);
                }
                self.records[i] = rec;
                response
            },
            None => {
                // Unreachable: the claim is required to be held.
                proof {
                    assert(false);
                }
                response
            },
        }
    }

    /// Rolls the claimed record back: the transaction aborts, the claim
    /// disappears, and the key is free for a fresh attempt.
    pub fn rollback(&mut self, user_id: u128, key: &IdempotencyKey)
        requires
            old(self).wf(),
            decision(old(self)@, user_id, key@) == Decision::Wait,
        ensures
            final(self).wf(),
            final(self)@ == rolled_back(old(self)@, user_id, key@),
    {
        proof {
            self.lemma_find_view(user_id, key@);
        }
        match self.find(user_id, key.as_str()) {
            Some(i) => {
                proof {
                    let kf = |r: IdempotencyRecord| r.key_pair();
                    let vf = |r: IdempotencyRecord| r.model();
                    lemma_as_map_remove(self.records@, kf, vf, i as int);
                }
                let _ = self.records.remove(i);
            },
            None => {
                // Unreachable: the claim is required to be held.
                proof {
                    assert(false);
                }
            },
        }
    }
}

} // verus!
