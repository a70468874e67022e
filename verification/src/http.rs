//! What the server answers: the reply to a finished upload, and the reply to
//! a request that was turned away.

use vstd::prelude::*;
use vstd::string::*;

verus! {

/// The largest request body, in bytes, that the upload route takes.
pub const MAX_BODY_BYTES: u64 = 5_000_000;

/// The port on which the server listens.
pub const PORT: u16 = 3030;

/// A status code and a plain body.
#[derive(Debug, PartialEq, Eq)]
pub struct Response {
    pub status: u16,
    pub body: String,
}

/// What a response is to the contracts.
pub ghost struct ResponseView {
    pub status: u16,
    pub body: Seq<char>,
}

impl View for Response {
    type V = ResponseView;

    open spec fn view(&self) -> ResponseView {
        ResponseView { status: self.status, body: self.body@ }
    }
}

/// The answer to a request that was turned away. A request that matched no
/// route is answered first, then one whose body was over the limit; whatever
/// else turned a request away is an internal error.
pub open spec fn rejection_response(not_found: bool, payload_too_large: bool) -> ResponseView {
    if not_found {
        ResponseView { status: 404, body: "Not found"@ }
    } else if payload_too_large {
        ResponseView { status: 400, body: "Payload too large"@ }
    } else {
        ResponseView { status: 500, body: "Internal Server Error"@ }
    }
}

/// The answer to an upload that was gone through to its end.
pub open spec fn success_response() -> ResponseView {
    ResponseView { status: 200, body: "success"@ }
}

/// Answers a request that was turned away: `not_found` says that it matched
/// no route, `payload_too_large` that its body was over the limit.
pub fn handle_rejection(not_found: bool, payload_too_large: bool) -> (response: Response)
    ensures
        response@ == rejection_response(not_found, payload_too_large),
{
    if not_found {
        Response { status: 404, body: "Not found".to_owned() }
    } else if payload_too_large {
        Response { status: 400, body: "Payload too large".to_owned() }
    } else {
        Response { status: 500, body: "Internal Server Error".to_owned() }
    }
}

/// Answers an upload that was gone through to its end. Whether a converted
/// copy was made does not show in the answer.
pub fn success() -> (response: Response)
    ensures
        response@ == success_response(),
{
    Response { status: 200, body: "success".to_owned() }
}

} // verus!
