//! Credential verification: a user store keyed by username, Argon2 password
//! hashing behind trusted wrappers, and a validator that takes the same time
//! whether or not the username exists, so response latency does not reveal
//! which usernames are taken.

use vstd::prelude::*;

use argon2::Argon2;
use argon2::PasswordHash;
use argon2::PasswordHasher;
use argon2::PasswordVerifier;

use crate::seq_map::as_map;
use crate::seq_map::distinct_keys;
use crate::seq_map::lemma_as_map_get;
use crate::seq_map::lemma_as_map_push;
use crate::seq_map::lemma_as_map_update;

verus! {

/// Whether a stored string parses as a PHC-format password hash; a function
/// of the string alone.
pub uninterp spec fn phc_parses(stored: Seq<char>) -> bool;

/// Whether Argon2 verification (with the default context and the parameters,
/// salt and digest embedded in the stored PHC string) accepts the password; a
/// function of the two strings alone.
pub uninterp spec fn phc_verifies(password: Seq<char>, stored: Seq<char>) -> bool;

/// Relies on `phc::PasswordHash::new`: whether the stored string is a
/// well-formed PHC hash string.
#[verifier::external_body]
fn parse_check(stored: &str) -> (r: bool)
    ensures
        r == phc_parses(stored@),
{
    PasswordHash::new(stored).is_ok()
}

/// Relies on `phc::PasswordHash::new` and argon2's
/// `PasswordVerifier::verify_password` with the default `Argon2` context:
/// recomputes the hash under the stored salt and parameters and compares.
#[verifier::external_body]
fn verify_parsed(password: &str, stored: &str) -> (r: bool)
    requires
        phc_parses(stored@),
    ensures
        r == phc_verifies(password@, stored@),
{
    match PasswordHash::new(stored) {
        Ok(parsed) => Argon2::default().verify_password(password.as_bytes(), &parsed).is_ok(),
        Err(_) => false,
    }
}

/// Relies on argon2's `PasswordHasher::hash_password`: hashes under a fresh
/// random 16-byte salt and serializes to a PHC string; re-verifying the same
/// password against that string succeeds, since verification recomputes the
/// hash from the embedded salt and parameters.
#[verifier::external_body]
fn argon2_hash(password: &str) -> (r: Option<String>)
    ensures
        r matches Some(h) ==> phc_parses(h@) && phc_verifies(password@, h@),
{
    match Argon2::default().hash_password(password.as_bytes()) {
        Ok(h) => Some(h.to_string()),
        Err(_) => None,
    }
}

/// A username and the password to check; the password is dropped as soon as
/// verification completes.
pub struct Credentials {
    pub username: String,
    pub password: String,
}

/// Why validation failed. Lookup failure and verification failure share one
/// value, so the error reveals nothing about whether the username exists;
/// store faults and corrupt stored hashes surface separately as internal
/// errors.
#[derive(Debug)]
pub enum AuthError {
    InvalidCredentials,
    UnexpectedError,
}

/// A stored password hash in self-describing PHC form: algorithm, parameters,
/// salt and digest in one string, checked for well-formedness on
/// construction.
pub struct StoredHash {
    phc: String,
}

impl View for StoredHash {
    type V = Seq<char>;

    closed spec fn view(&self) -> Seq<char> {
        self.phc@
    }
}

impl StoredHash {
    #[verifier::type_invariant]
    closed spec fn type_inv(self) -> bool {
        phc_parses(self.phc@)
    }

    /// Accepts a PHC string exactly when it parses.
    pub fn parse(s: String) -> (r: Result<StoredHash, AuthError>)
        ensures
            match r {
                Ok(h) => phc_parses(s@) && h@ == s@,
                Err(e) => !phc_parses(s@) && e is UnexpectedError,
            },
    {
        if parse_check(s.as_str()) {
            Ok(StoredHash { phc: s })
        } else {
            Err(AuthError::UnexpectedError)
        }
    }

    /// The PHC string.
    pub fn as_str(&self) -> (r: &str)
        ensures
            r@ == self@,
    {
        self.phc.as_str()
    }
}

/// Hashes a password for storage. Each call salts with fresh randomness, so
/// two calls on the same password produce different strings; every produced
/// hash verifies against the password it was made from. Fails only if the
/// hasher or its randomness source does.
pub fn hash(password: &str) -> (r: Result<StoredHash, AuthError>)
    ensures
        match r {
            Ok(h) => phc_parses(h@) && phc_verifies(password@, h@),
            Err(e) => e is UnexpectedError,
        },
{
    match argon2_hash(password) {
        Some(h) => Ok(StoredHash { phc: h }),
        None => Err(AuthError::UnexpectedError),
    }
}

/// Verifies a password against a stored hash; no configuration beyond the
/// hash itself is consulted, since the PHC string embeds its parameters.
pub fn verify(password: &str, stored: &StoredHash) -> (r: bool)
    ensures
        r == phc_verifies(password@, stored@),
{
    proof {
        use_type_invariant(stored);
    }
    verify_parsed(password, stored.as_str())
}

/// The fallback hash the validator verifies against when a username does not
/// exist: computed once at startup from a fixed password, never per request,
/// so the missing-user path costs the same hashing work as the wrong-password
/// path.
pub fn fallback_hash() -> (r: Result<StoredHash, AuthError>)
    ensures
        r matches Err(e) ==> e is UnexpectedError,
{
    hash("fallback password to equalize verification timing")
}

/// One row of the user store.
struct UserRecord {
    user_id: u128,
    username: String,
    password_hash: String,
}

/// The mathematical value of a user row, keyed by username in the store
/// view: the opaque user id and the stored hash string (which may be corrupt;
/// the validator treats an unparseable hash as an internal fault).
pub ghost struct UserModel {
    pub user_id: u128,
    pub password_hash: Seq<char>,
}

impl UserRecord {
    spec fn uname(self) -> Seq<char> {
        self.username@
    }

    spec fn model(self) -> UserModel {
        UserModel { user_id: self.user_id, password_hash: self.password_hash@ }
    }
}

/// The username that `user_id` is registered under in store state `m`.
pub open spec fn username_of(m: Map<Seq<char>, UserModel>, user_id: u128) -> Option<Seq<char>> {
    if exists|u: Seq<char>| #[trigger] m.dom().contains(u) && m[u].user_id == user_id {
        Some(choose|u: Seq<char>| #[trigger] m.dom().contains(u) && m[u].user_id == user_id)
    } else {
        None
    }
}

/// Rejections of a user-store insert: each models a uniqueness constraint of
/// the relational `users` table.
#[derive(Debug)]
pub enum UserStoreError {
    DuplicateUsername,
    DuplicateUserId,
}

/// The credential store: one row per user, usernames unique, user ids
/// unique. This is the in-memory model of the relational `users` table.
pub struct UserStore {
    users: Vec<UserRecord>,
}

impl View for UserStore {
    type V = Map<Seq<char>, UserModel>;

    closed spec fn view(&self) -> Map<Seq<char>, UserModel> {
        as_map(self.users@, |r: UserRecord| r.uname(), |r: UserRecord| r.model())
    }
}

impl UserStore {
    /// The store's uniqueness constraints.
    pub closed spec fn wf(self) -> bool {
        &&& distinct_keys(self.users@, |r: UserRecord| r.uname())
        &&& forall|i: int, j: int|
            0 <= i < j < self.users@.len() ==> (#[trigger] self.users@[i]).user_id
                != (#[trigger] self.users@[j]).user_id
    }

    /// An empty store.
    pub fn new() -> (s: UserStore)
        ensures
            s.wf(),
            s@ == Map::<Seq<char>, UserModel>::empty(),
    {
        UserStore { users: Vec::new() }
    }

    /// The index of the row for `username`, if any.
    fn find_by_username(&self, username: &str) -> (r: Option<usize>)
        ensures
            match r {
                Some(i) => i < self.users@.len() && self.users@[i as int].username@ == username@,
                None => forall|i: int|
                    0 <= i < self.users@.len() ==> (#[trigger] self.users@[i]).username@
                        != username@,
            },
    {
        let n = self.users.len();
        let mut i: usize = 0;
        while i < n
            invariant
                n == self.users@.len(),
                i <= n,
                forall|j: int| 0 <= j < i ==> (#[trigger] self.users@[j]).username@ != username@,
            decreases n - i,
        {
            if crate::text::str_eq(self.users[i].username.as_str(), username) {
                return Some(i);
            }
            i = i + 1;
        }
        None
    }

    /// The index of the row for `user_id`, if any.
    fn find_by_id(&self, user_id: u128) -> (r: Option<usize>)
        ensures
            match r {
                Some(i) => i < self.users@.len() && self.users@[i as int].user_id == user_id,
                None => forall|i: int|
                    0 <= i < self.users@.len() ==> (#[trigger] self.users@[i]).user_id != user_id,
            },
    {
        let n = self.users.len();
        let mut i: usize = 0;
        while i < n
            invariant
                n == self.users@.len(),
                i <= n,
                forall|j: int| 0 <= j < i ==> (#[trigger] self.users@[j]).user_id != user_id,
            decreases n - i,
        {
            if self.users[i].user_id == user_id {
                return Some(i);
            }
            i = i + 1;
        }
        None
    }

    /// Ties row facts to the map view.
    proof fn lemma_view(&self, username: Seq<char>)
        requires
            self.wf(),
        ensures
            self@.dom().contains(username) <==> exists|i: int|
                0 <= i < self.users@.len() && (#[trigger] self.users@[i]).username@ == username,
            forall|i: int|
                0 <= i < self.users@.len() && (#[trigger] self.users@[i]).username@ == username
                    ==> self@[username] == self.users@[i].model(),
    {
        let kf = |r: UserRecord| r.uname();
        let vf = |r: UserRecord| r.model();
        lemma_as_map_get(self.users@, kf, vf, username);
        assert(forall|i: int|
            0 <= i < self.users@.len() ==> kf(#[trigger] self.users@[i])
                == self.users@[i].username@);
    }

    /// Under the store's constraints, row `i` for `user_id` pins
    /// `username_of` to that row's username.
    proof fn lemma_username_of(&self, i: int)
        requires
            self.wf(),
            0 <= i < self.users@.len(),
        ensures
            username_of(self@, self.users@[i].user_id) == Some(self.users@[i].username@),
    {
        let uid = self.users@[i].user_id;
        self.lemma_view(self.users@[i].username@);
        assert(self@.dom().contains(self.users@[i].username@));
        assert(self@[self.users@[i].username@].user_id == uid);
        let u = choose|u: Seq<char>| #[trigger] self@.dom().contains(u) && self@[u].user_id == uid;
        self.lemma_view(u);
        let j = choose|j: int|
            0 <= j < self.users@.len() && (#[trigger] self.users@[j]).username@ == u;
        assert(self@[u] == self.users@[j].model());
        if i != j {
            assert(self.users@[i].user_id != self.users@[j].user_id);
        }
    }

    /// There is no row for `user_id`, so `username_of` is `None`.
    proof fn lemma_username_of_none(&self, user_id: u128)
        requires
            self.wf(),
            forall|i: int|
                0 <= i < self.users@.len() ==> (#[trigger] self.users@[i]).user_id != user_id,
        ensures
            username_of(self@, user_id) == Option::<Seq<char>>::None,
    {
        if exists|u: Seq<char>| #[trigger] self@.dom().contains(u) && self@[u].user_id == user_id {
            let u = choose|u: Seq<char>|
                #[trigger] self@.dom().contains(u) && self@[u].user_id == user_id;
            self.lemma_view(u);
            let j = choose|j: int|
                0 <= j < self.users@.len() && (#[trigger] self.users@[j]).username@ == u;
            assert(self@[u] == self.users@[j].model());
        }
    }

    /// Registers a user; refused when the username or the user id is already
    /// taken, as the table's uniqueness constraints would refuse it.
    pub fn add_user(&mut self, user_id: u128, username: String, password_hash: String) -> (r:
        Result<(), UserStoreError>)
        requires
            old(self).wf(),
        ensures
            final(self).wf(),
            match r {
                Ok(()) => !old(self)@.dom().contains(username@) && username_of(
                    old(self)@,
                    user_id,
                ) is None && final(self)@ == old(self)@.insert(
                    username@,
                    UserModel { user_id, password_hash: password_hash@ },
                ),
                Err(UserStoreError::DuplicateUsername) => old(self)@.dom().contains(username@)
                    && final(self)@ == old(self)@,
                Err(UserStoreError::DuplicateUserId) => username_of(old(self)@, user_id) is Some
                    && final(self)@ == old(self)@,
            },
    {
        proof {
            self.lemma_view(username@);
        }
        if let Some(_) = self.find_by_username(username.as_str()) {
            return Err(UserStoreError::DuplicateUsername);
        }
        match self.find_by_id(user_id) {
            Some(i) => {
                proof {
                    self.lemma_username_of(i as int);
                }
                Err(UserStoreError::DuplicateUserId)
            },
            None => {
                proof {
                    self.lemma_username_of_none(user_id);
                }
                let rec = UserRecord { user_id, username, password_hash };
                proof {
                    let kf = |r: UserRecord| r.uname();
                    let vf = |r: UserRecord| r.model();
                    lemma_as_map_push(self.users@, kf, vf, rec);
                }
                self.users.push(rec);
                Ok(())
            },
        }
    }

    /// The stored user id and password hash for a username, if the user
    /// exists.
    pub fn get_stored_credentials(&self, username: &str) -> (r: Option<(u128, String)>)
        requires
            self.wf(),
        ensures
            match r {
                Some(c) => self@.dom().contains(username@) && c.0 == self@[username@].user_id
                    && c.1@ == self@[username@].password_hash,
                None => !self@.dom().contains(username@),
            },
    {
        proof {
            self.lemma_view(username@);
        }
        match self.find_by_username(username) {
            Some(i) => {
                let rec = &self.users[i];
                Some((rec.user_id, String::from_str(rec.password_hash.as_str())))
            },
            None => None,
        }
    }

    /// The username a user id is registered under, if any.
    pub fn get_username(&self, user_id: u128) -> (r: Option<String>)
        requires
            self.wf(),
        ensures
            match r {
                Some(u) => username_of(self@, user_id) == Some(u@),
                None => username_of(self@, user_id) is None,
            },
    {
        match self.find_by_id(user_id) {
            Some(i) => {
                proof {
                    self.lemma_username_of(i as int);
                }
                Some(String::from_str(self.users[i].username.as_str()))
            },
            None => {
                proof {
                    self.lemma_username_of_none(user_id);
                }
                None
            },
        }
    }

    /// Replaces the stored hash of the row for `user_id`; a no-op when no
    /// such row exists, as the relational update would affect no rows.
    fn update_password_hash(&mut self, user_id: u128, new_hash: String)
        requires
            old(self).wf(),
        ensures
            final(self).wf(),
            match username_of(old(self)@, user_id) {
                Some(u) => final(self)@ == old(self)@.insert(
                    u,
                    UserModel { user_id, password_hash: new_hash@ },
                ),
                None => final(self)@ == old(self)@,
            },
    {
        match self.find_by_id(user_id) {
            Some(i) => {
                proof {
                    self.lemma_username_of(i as int);
                    self.lemma_view(self.users@[i as int].username@);
                }
                let rec = UserRecord {
                    user_id,
                    username: String::from_str(self.users[i].username.as_str()),
                    password_hash: new_hash,
                };
                proof {
                    let kf = |r: UserRecord| r.uname();
                    let vf = |r: UserRecord| r.model();
                    lemma_as_map_update(self.users@, kf, vf, i as int, rec);
                }
                self.users[i] = rec;
            },
            None => {
                proof {
                    self.lemma_username_of_none(user_id);
                }
            },
        }
    }
}

/// Validates credentials against the store.
///
/// Succeeds exactly when the username exists and the password verifies
/// against its stored hash. A missing username and a failing password yield
/// the same error value, and the missing-username path still performs one
/// hash verification — against `fallback` — so the two failures are
/// indistinguishable by both content and timing. A stored hash that does not
/// parse is an internal fault. The store is never mutated.
pub fn validate_credentials(credentials: &Credentials, store: &UserStore, fallback: &StoredHash)
    -> (r: Result<u128, AuthError>)
    requires
        store.wf(),
    ensures
        match r {
            Ok(user_id) => store@.dom().contains(credentials.username@) && phc_parses(
                store@[credentials.username@].password_hash,
            ) && phc_verifies(
                credentials.password@,
                store@[credentials.username@].password_hash,
            ) && user_id == store@[credentials.username@].user_id,
            Err(AuthError::UnexpectedError) => store@.dom().contains(credentials.username@)
                && !phc_parses(store@[credentials.username@].password_hash),
            Err(AuthError::InvalidCredentials) => !store@.dom().contains(credentials.username@)
                || (phc_parses(store@[credentials.username@].password_hash) && !phc_verifies(
                credentials.password@,
                store@[credentials.username@].password_hash,
            )),
        },
{
    match store.get_stored_credentials(credentials.username.as_str()) {
        Some((user_id, stored_hash)) => {
            if !parse_check(stored_hash.as_str()) {
                Err(AuthError::UnexpectedError)
            } else if verify_parsed(credentials.password.as_str(), stored_hash.as_str()) {
                Ok(user_id)
            } else {
                Err(AuthError::InvalidCredentials)
            }
        },
        None => {
            // The username does not exist: burn the same hashing work on the
            // fallback hash and discard the outcome.
            let _ = verify(credentials.password.as_str(), fallback);
            Err(AuthError::InvalidCredentials)
        },
    }
}

/// Stores a fresh hash of `password` for `user_id`. Fails only if hashing
/// fails, in which case the store is untouched; a user id with no row leaves
/// the store unchanged, as the relational update would affect no rows.
pub fn change_password(user_id: u128, password: &str, store: &mut UserStore) -> (r: Result<
    (),
    AuthError,
>)
    requires
        old(store).wf(),
    ensures
        final(store).wf(),
        match r {
            Ok(()) => exists|h: Seq<char>|
                #![all_triggers]
                phc_parses(h) && phc_verifies(password@, h) && (match username_of(
                    old(store)@,
                    user_id,
                ) {
                    Some(u) => final(store)@ == old(store)@.insert(
                        u,
                        UserModel { user_id, password_hash: h },
                    ),
                    None => final(store)@ == old(store)@,
                }),
            Err(e) => e is UnexpectedError && final(store)@ == old(store)@,
        },
{
    match hash(password) {
        Ok(h) => {
            let ghost hv = h@;
            store.update_password_hash(user_id, String::from_str(h.as_str()));
            proof {
                assert(phc_parses(hv) && phc_verifies(password@, hv));
            }
            Ok(())
        },
        Err(_) => Err(AuthError::UnexpectedError),
    }
}

} // verus!
