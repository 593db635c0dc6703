//! Subscriber data: validated names and email addresses.

use vstd::prelude::*;

use unicode_segmentation::UnicodeSegmentation;

use crate::subscriptions::ValidationError;

verus! {

/// Whether a character counts as Unicode whitespace; a function of the
/// character alone.
pub uninterp spec fn unicode_whitespace(c: char) -> bool;

/// Relies on `char::is_whitespace`: the Unicode `White_Space` property.
#[verifier::external_body]
pub(crate) fn char_is_whitespace(c: char) -> (r: bool)
    ensures
        r == unicode_whitespace(c),
{
    c.is_whitespace()
}

/// The number of extended grapheme clusters in a string; a function of the
/// characters alone.
pub uninterp spec fn grapheme_count(s: Seq<char>) -> nat;

/// Relies on unicode_segmentation's `graphemes` (extended set): counts the
/// user-perceived characters.
#[verifier::external_body]
pub(crate) fn extended_grapheme_count(s: &str) -> (r: usize)
    ensures
        r == grapheme_count(s@),
{
    s.graphemes(true).count()
}

/// Characters never accepted in a subscriber name.
pub open spec fn forbidden_name_char(c: char) -> bool {
    c == '/' || c == '(' || c == ')' || c == '"' || c == '<' || c == '>' || c == '\\' || c == '{'
        || c == '}'
}

/// A well-formed subscriber name: not empty or all-whitespace, at most 256
/// graphemes, and free of the forbidden characters.
pub open spec fn valid_name(s: Seq<char>) -> bool {
    &&& !(forall|i: int| 0 <= i < s.len() ==> unicode_whitespace(#[trigger] s[i]))
    &&& grapheme_count(s) <= 256
    &&& forall|i: int| 0 <= i < s.len() ==> !forbidden_name_char(#[trigger] s[i])
}

/// A subscriber's display name, validated on construction.
pub struct SubscriberName {
    inner: String,
}

impl View for SubscriberName {
    type V = Seq<char>;

    closed spec fn view(&self) -> Seq<char> {
        self.inner@
    }
}

impl SubscriberName {
    #[verifier::type_invariant]
    closed spec fn type_inv(self) -> bool {
        valid_name(self.inner@)
    }

    /// Accepts the string exactly when it is a well-formed name.
    pub fn parse(s: String) -> (r: Result<SubscriberName, ValidationError>)
        ensures
            match r {
                Ok(name) => valid_name(s@) && name@ == s@,
                Err(_) => !valid_name(s@),
            },
    {
        if crate::subscriptions::is_valid_name(s.as_str()) {
            Ok(SubscriberName { inner: s })
        } else {
            let mut message = s;
            message.append(" is not a valid subscriber name.");
            Err(ValidationError(message))
        }
    }

    /// The name's characters.
    pub fn as_str(&self) -> (r: &str)
        ensures
            r@ == self@,
    {
        self.inner.as_str()
    }
}

/// A subscriber's email address, validated on construction.
pub struct SubscriberEmail {
    inner: String,
}

impl View for SubscriberEmail {
    type V = Seq<char>;

    closed spec fn view(&self) -> Seq<char> {
        self.inner@
    }
}

impl SubscriberEmail {
    #[verifier::type_invariant]
    closed spec fn type_inv(self) -> bool {
        valid_email(self.inner@)
    }

    /// Accepts the string exactly when it is a well-formed address.
    pub fn parse(s: String) -> (r: Result<SubscriberEmail, ValidationError>)
        ensures
            match r {
                Ok(email) => valid_email(s@) && email@ == s@,
                Err(_) => !valid_email(s@),
            },
    {
        if email_is_valid(s.as_str()) {
            Ok(SubscriberEmail { inner: s })
        } else {
            let mut message = s;
            message.append(" is not a valid subscriber email.");
            Err(ValidationError(message))
        }
    }

    /// The address's characters.
    pub fn as_str(&self) -> (r: &str)
        ensures
            r@ == self@,
    {
        self.inner.as_str()
    }
}

/// A validated subscription request: a name and an email address.
pub struct NewSubscriber {
    pub name: SubscriberName,
    pub email: SubscriberEmail,
}

/// A well-formed subscriber email address: exactly one `@`, with a non-empty
/// local part before it and a non-empty domain after it.
pub open spec fn valid_email(s: Seq<char>) -> bool {
    exists|i: int|
        0 < i < s.len() - 1 && #[trigger] s[i] == '@' && (forall|j: int|
            0 <= j < s.len() && j != i ==> s[j] != '@')
}

/// Checks a string against [`valid_email`].
pub fn email_is_valid(s: &str) -> (r: bool)
    ensures
        r == valid_email(s@),
{
    let n = s.unicode_len();
    let mut first: Option<usize> = None;
    let mut second: bool = false;
    let mut i: usize = 0;
    while i < n
        invariant
            n == s@.len(),
            i <= n,
            match first {
                Some(a) => a < i && s@[a as int] == '@' && (forall|j: int|
                    0 <= j < a ==> s@[j] != '@') && (second <==> exists|j: int|
                    a < j < i && #[trigger] s@[j] == '@'),
                None => !second && forall|j: int| 0 <= j < i ==> s@[j] != '@',
            },
        decreases n - i,
    {
        if s.get_char(i) == '@' {
            match first {
                None => { first = Some(i); },
                Some(_) => {
                    proof {
                        assert(s@[i as int] == '@');
                    }
                    second = true;
                },
            }
        }
        i = i + 1;
    }
    match first {
        Some(a) => {
            if second {
                proof {
                    let b = choose|j: int| a < j < n && #[trigger] s@[j] == '@';
                    assert forall|i0: int|
                        !(0 < i0 < s@.len() - 1 && #[trigger] s@[i0] == '@' && (forall|j: int|
                            0 <= j < s@.len() && j != i0 ==> s@[j] != '@')) by {
                        if 0 < i0 < s@.len() - 1 && s@[i0] == '@' {
                            if i0 != a {
                                assert(s@[a as int] == '@');
                            } else {
                                assert(s@[b] == '@');
                            }
                        }
                    }
                }
                false
            } else if a > 0 && a + 1 < n {
                proof {
                    assert(0 < a < s@.len() - 1 && s@[a as int] == '@');
                    assert(forall|j: int| 0 <= j < s@.len() && j != a ==> s@[j] != '@');
                }
                true
            } else {
                proof {
                    assert forall|i0: int|
                        !(0 < i0 < s@.len() - 1 && #[trigger] s@[i0] == '@' && (forall|j: int|
                            0 <= j < s@.len() && j != i0 ==> s@[j] != '@')) by {
                        if 0 < i0 < s@.len() - 1 && s@[i0] == '@' && i0 != a {
                            assert(s@[a as int] == '@');
                        }
                    }
                }
                false
            }
        },
        None => false,
    }
}

} // verus!
