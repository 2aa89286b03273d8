//! The decisions of a connection session.
//!
//! A session reads a request, answers it, and goes on to the next request on the same
//! connection for as long as the connection is kept open.
use crate::endpoints::{base_response, handled, Endpoints};
use crate::files::{Outcome, OutcomeView};
use crate::headers::value_of;
use crate::http_request::{stays_open, HttpRequest, RequestError};
use crate::http_response::{bad_request_response, response_for, HttpResponse, ResponseView};
use vstd::prelude::*;

verus! {

/// How long a session waits for the next bytes of a request, in seconds.
pub const READ_TIMEOUT_SECONDS: u64 = 30;

/// The response to what a session read.
pub open spec fn answer_for(
    read: Result<HttpRequest, RequestError>,
    out: OutcomeView,
) -> ResponseView {
    match read {
        Ok(request) => response_for(request@, out),
        Err(e) => bad_request_response(e),
    }
}

/// Whether a session goes on after what it read: it does after a request that keeps the
/// connection open, and never after a request that could not be read.
pub open spec fn goes_on(read: Result<HttpRequest, RequestError>) -> bool {
    match read {
        Ok(request) => stays_open(request@.headers),
        Err(_) => false,
    }
}

/// One turn of a session: the response to send for what was read, and whether to read
/// another request from the connection afterwards.
pub fn handle_read(read: &Result<HttpRequest, RequestError>, outcome: Outcome) -> (r: (
    HttpResponse,
    bool,
))
    ensures
        r.0@ == answer_for(*read, outcome@),
        r.1 == goes_on(*read),
{
    match read {
        Ok(http_request) => {
            let keep_alive = http_request.keep_alive();
            let http_response = HttpResponse::new_from_request(http_request, outcome);
            (http_response, keep_alive)
        },
        Err(e) => (HttpResponse::new_from_bad_request(e), false),
    }
}

/// A request with `Connection: close` ends the session once it is answered, and the
/// response of its endpoint carries the close flag.
pub proof fn lemma_close_ends_the_session(request: HttpRequest)
    requires
        value_of(request@.headers, "Connection"@) == Some("close"@),
    ensures
        !goes_on(Ok(request)),
        base_response(request@).conn_close,
        forall|endpoint: Endpoints, out: OutcomeView|
            (#[trigger] handled(endpoint, request@, out)) matches Ok(response)
                ==> response.conn_close,
{
}

} // verus!
