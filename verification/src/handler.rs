//! The echo request handler.
//!
//! One logical operation serves every path: the request body comes back as
//! the response body when it is well-formed text, under response headers
//! built from the configured static headers and the echoed request
//! headers. A body that is not well-formed text is refused as a bad
//! request, and such a response carries no body. The artificial delay is a
//! suspension of the calling task and is injected by the caller before
//! this handler runs, from the same configured duration for every request.

use vstd::prelude::*;

use crate::config::Config;
use crate::headers::Headers;
use crate::text::{is_text, is_valid_text};

verus! {

/// The one request-level failure: the body is not well-formed text.
pub enum HandleError {
    BadRequest,
}

/// A successful echo response: the headers to send and the body to send
/// back verbatim.
pub struct EchoResponse {
    pub headers: Headers,
    pub body: Vec<u8>,
}

impl Config {
    /// Handles one request: succeeds exactly when the body is well-formed
    /// text, echoing the body verbatim under the configured response
    /// headers; otherwise fails as a bad request.
    pub fn handle(&self, request_headers: &Headers, body: Vec<u8>) -> (r: Result<
        EchoResponse,
        HandleError,
    >)
        ensures
            r is Ok <==> is_text(body@),
            r matches Ok(resp) ==> resp.headers.wf() && resp.headers.as_map()
                == self.statics_map().union_prefer_right(
                request_headers.as_map().restrict(self.echoes()),
            ) && resp.body@ == body@,
            r matches Err(e) ==> e == HandleError::BadRequest,
    {
        if !is_valid_text(&body) {
            return Err(HandleError::BadRequest);
        }
        let headers = self.response_headers(request_headers);
        Ok(EchoResponse { headers, body })
    }
}

/// The wire status of a handler outcome: 200 for a successful echo, 400
/// for a body that was not well-formed text.
pub fn response_status(r: &Result<EchoResponse, HandleError>) -> (status: u16)
    ensures
        r is Ok ==> status == 200,
        r is Err ==> status == 400,
{
    match r {
        Ok(_) => 200,
        Err(_) => 400,
    }
}

} // verus!
