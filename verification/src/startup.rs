//! Request-scoped application state shared by the handlers.

use vstd::prelude::*;

verus! {

/// The base URL the application is reachable under; confirmation links are
/// built against it.
pub struct ApplicationBaseUrl(pub String);

} // verus!
