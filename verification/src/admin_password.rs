//! The password-change flow for a logged-in admin: confirm the new password
//! twice, re-check the current password, enforce the length policy, then
//! store a fresh hash.

use vstd::prelude::*;

use crate::authentication::AuthError;
use crate::authentication::Credentials;
use crate::authentication::StoredHash;
use crate::authentication::UserModel;
use crate::authentication::UserStore;
use crate::authentication::change_password as store_new_password;
use crate::authentication::phc_parses;
use crate::authentication::phc_verifies;
use crate::authentication::username_of;
use crate::authentication::validate_credentials;
use crate::http::HttpResponse;
use crate::utils::see_other;
use crate::utils::see_other_model;
use crate::utils::status_model;

verus! {

/// The form a password-change request carries.
pub struct FormData {
    pub current_password: String,
    pub new_password: String,
    pub new_password_check: String,
}

/// The flash notice set alongside a response, to be shown to the user after
/// the redirect.
pub enum FlashLevel {
    Info,
    Error,
}

/// What one password-change request produced: the response, and the flash
/// notice to set, if any.
pub struct ChangePasswordOutcome {
    pub response: HttpResponse,
    pub flash_level: Option<FlashLevel>,
    pub flash_text: String,
}

/// Admits the request only when the session names a logged-in user;
/// anonymous requests are redirected to the login form.
pub fn reject_anonymous_users(session_user_id: Option<u128>) -> (r: Result<u128, HttpResponse>)
    ensures
        match r {
            Ok(user_id) => session_user_id == Some(user_id),
            Err(resp) => session_user_id is None && resp@ == see_other_model("/login"@),
        },
{
    match session_user_id {
        Some(user_id) => Ok(user_id),
        None => Err(see_other("/login")),
    }
}

/// Handles one password-change request.
///
/// In order: an anonymous session is redirected to the login form; a new
/// password that differs from its confirmation is refused with a flash
/// error; a session user id with no user row, or a corrupt stored hash, is
/// an opaque 500; a wrong current password is refused with a flash error; a
/// new password shorter than 12 or longer than 128 characters is refused with a
/// flash error; otherwise a fresh hash of the new password is stored (an
/// opaque 500 if hashing fails, the store untouched). Only the final step
/// mutates the store.
pub fn change_password(
    session_user_id: Option<u128>,
    form: FormData,
    store: &mut UserStore,
    fallback: &StoredHash,
) -> (r: ChangePasswordOutcome)
    requires
        old(store).wf(),
    ensures
        final(store).wf(),
        ({
            let m = old(store)@;
            match session_user_id {
                None => r.response@ == see_other_model("/login"@) && r.flash_level is None
                    && final(store)@ == m,
                Some(user_id) => {
                    if form.new_password@ != form.new_password_check@ {
                        &&& r.response@ == see_other_model("/admin/password"@)
                        &&& r.flash_level matches Some(FlashLevel::Error)
                        &&& r.flash_text@
                            == "You entered two different new passwords - the field values must match."@
                        &&& final(store)@ == m
                    } else {
                        match username_of(m, user_id) {
                            None => r.response@ == status_model(500) && r.flash_level is None
                                && final(store)@ == m,
                            Some(u) => {
                                let stored = m[u].password_hash;
                                if !phc_parses(stored) {
                                    &&& r.response@ == status_model(500)
                                    &&& r.flash_level is None
                                    &&& final(store)@ == m
                                } else if !phc_verifies(form.current_password@, stored) {
                                    &&& r.response@ == see_other_model("/admin/password"@)
                                    &&& r.flash_level matches Some(FlashLevel::Error)
                                    &&& r.flash_text@ == "The current password is incorrect."@
                                    &&& final(store)@ == m
                                } else if !(12 <= form.new_password@.len() <= 128) {
                                    &&& r.response@ == see_other_model("/admin/password"@)
                                    &&& r.flash_level matches Some(FlashLevel::Error)
                                    &&& r.flash_text@
                                        == "Password length must be between 12 and 128."@
                                    &&& final(store)@ == m
                                } else {
                                    ||| (r.response@ == status_model(500) && r.flash_level is None
                                        && final(store)@ == m)
                                    ||| (r.response@ == see_other_model("/admin/password"@)
                                        && (r.flash_level matches Some(FlashLevel::Info))
                                        && r.flash_text@ == "Your password has been changed."@
                                        && exists|h: Seq<char>|
                                        #![all_triggers]
                                        phc_parses(h) && phc_verifies(form.new_password@, h)
                                            && final(store)@ == m.insert(
                                            u,
                                            UserModel { user_id, password_hash: h },
                                        ))
                                }
                            },
                        }
                    }
                },
            }
        }),
{
    let user_id = match reject_anonymous_users(session_user_id) {
        Ok(user_id) => user_id,
        Err(response) => {
            return ChangePasswordOutcome {
                response,
                flash_level: None,
                flash_text: String::new(),
            };
        },
    };
    if !crate::text::str_eq(form.new_password.as_str(), form.new_password_check.as_str()) {
        return ChangePasswordOutcome {
            response: see_other("/admin/password"),
            flash_level: Some(FlashLevel::Error),
            flash_text: String::from_str(
                "You entered two different new passwords - the field values must match.",
            ),
        };
    }
    let username = match store.get_username(user_id) {
        Some(username) => username,
        None => {
            return ChangePasswordOutcome {
                response: HttpResponse::with_status(500),
                flash_level: None,
                flash_text: String::new(),
            };
        },
    };
    let credentials = Credentials { username, password: form.current_password };
    match validate_credentials(&credentials, store, fallback) {
        Ok(_) => {},
        Err(AuthError::InvalidCredentials) => {
            return ChangePasswordOutcome {
                response: see_other("/admin/password"),
                flash_level: Some(FlashLevel::Error),
                flash_text: String::from_str("The current password is incorrect."),
            };
        },
        Err(AuthError::UnexpectedError) => {
            return ChangePasswordOutcome {
                response: HttpResponse::with_status(500),
                flash_level: None,
                flash_text: String::new(),
            };
        },
    }
    let new_password_len = form.new_password.as_str().unicode_len();
    if new_password_len < 12 || new_password_len > 128 {
        return ChangePasswordOutcome {
            response: see_other("/admin/password"),
            flash_level: Some(FlashLevel::Error),
            flash_text: String::from_str("Password length must be between 12 and 128."),
        };
    }
    match store_new_password(user_id, form.new_password.as_str(), store) {
        Ok(()) => ChangePasswordOutcome {
            response: see_other("/admin/password"),
            flash_level: Some(FlashLevel::Info),
            flash_text: String::from_str("Your password has been changed."),
        },
        Err(_) => ChangePasswordOutcome {
            response: HttpResponse::with_status(500),
            flash_level: None,
            flash_text: String::new(),
        },
    }
}

} // verus!
