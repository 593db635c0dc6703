//! Runtime environment selection: which configuration profile the application
//! runs under.

use vstd::prelude::*;

verus! {

/// The possible runtime environments for the application.
#[derive(Debug)]
pub enum Environment {
    Local,
    Production,
}

/// What `str::to_lowercase` returns for a given string; the result depends on
/// the characters of the input alone.
pub uninterp spec fn lower_of(s: Seq<char>) -> Seq<char>;

/// Relies on `str::to_lowercase`: Unicode lowercase mapping of the input.
#[verifier::external_body]
fn to_lowercase(s: &str) -> (r: String)
    ensures
        r@ == lower_of(s@),
{
    s.to_lowercase()
}

impl Environment {
    /// The canonical name of the environment, as it appears in configuration
    /// file names.
    pub fn as_str(&self) -> (r: &'static str)
        ensures
            *self is Local ==> r@ == "local"@,
            *self is Production ==> r@ == "production"@,
    {
        match self {
            Environment::Local => "local",
            Environment::Production => "production",
        }
    }

    /// Parses an environment name, ignoring case; anything other than
    /// `local` or `production` is rejected with a message naming the input.
    pub fn try_from(s: String) -> (r: Result<Environment, String>)
        ensures
            lower_of(s@) == "local"@ <==> r matches Ok(Environment::Local),
            lower_of(s@) == "production"@ <==> r matches Ok(Environment::Production),
    {
        proof {
            reveal_strlit("local");
            reveal_strlit("production");
            assert("local"@.len() == 5);
            assert("production"@.len() == 10);
        }
        let lowered = to_lowercase(s.as_str());
        if crate::text::str_eq(lowered.as_str(), "local") {
            Ok(Environment::Local)
        } else if crate::text::str_eq(lowered.as_str(), "production") {
            Ok(Environment::Production)
        } else {
            let mut message = s;
            message.append(" is not a supported environment. Use either `local` or `production`.");
            Err(message)
        }
    }
}

} // verus!
