//! Response helpers shared by the request handlers.

use vstd::prelude::*;

use crate::http::HttpResponse;
use crate::http::RespModel;

verus! {

/// The model of a See Other redirect to `location`.
pub open spec fn see_other_model(location: Seq<char>) -> RespModel {
    RespModel {
        status: 303,
        headers: seq![("Location"@, location)],
        body: Seq::<u8>::empty(),
    }
}

/// A 303 See Other redirect to `location`.
pub fn see_other(location: &str) -> (r: HttpResponse)
    ensures
        r@ == see_other_model(location@),
{
    let mut r = HttpResponse::with_status(303);
    r.push_header("Location", location);
    proof {
        assert(r@.headers =~= seq![("Location"@, location@)]);
    }
    r
}

/// The model of a bare response carrying only a status code.
pub open spec fn status_model(status: u16) -> RespModel {
    RespModel {
        status,
        headers: Seq::<(Seq<char>, Seq<char>)>::empty(),
        body: Seq::<u8>::empty(),
    }
}

} // verus!
