//! GET_PARAMETER and SET_PARAMETER.

use vstd::prelude::*;

use super::client::Client;
use crate::error::{Error, StatusCode};
use crate::headers::{header_value, with_optional_header};
use crate::message::{Request, RequestView, Response, ResponseView};

verus! {

/// The response to a request for parameters. Only empty ones are answered, with the session that
/// they name: these keep a session alive.
pub open spec fn parameter_response(request: RequestView) -> Result<ResponseView, Error> {
    if request.body.len() == 0 || request.body[0] == 0 {
        let response = ResponseView::empty(request.version, StatusCode::Success);
        Ok(
            ResponseView {
                headers: with_optional_header(
                    response.headers,
                    "Session"@,
                    header_value(request.headers, "Session"@),
                ),
                ..response
            },
        )
    } else {
        Err(Error::spec_status(StatusCode::ParameterNotUnderstood))
    }
}

/// Whether a request for parameters was answered as it has to be.
pub open spec fn parameter_answered(request: RequestView, r: Result<Response, Error>) -> bool {
    match parameter_response(request) {
        Ok(response) => r matches Ok(resp) && resp@ == response,
        Err(err) => r matches Err(e) && e == err,
    }
}

impl Client {
    /// Answers a GET_PARAMETER request.
    pub fn handle_get_parameter(&self, request: &Request) -> (r: Result<Response, Error>)
        ensures
            parameter_answered(request@, r),
    {
        // The session was already kept alive when the request came in
        if request.body.len() == 0 || request.body[0] == 0 {
            let mut response = Response::new(request.version, StatusCode::Success);
            let session = request.headers.get("Session");
            response.headers.insert_optional("Session", &session);
            return Ok(response);
        }
        Err(Error::status(StatusCode::ParameterNotUnderstood))
    }

    /// Answers a SET_PARAMETER request, which is the same.
    pub fn handle_set_parameter(&self, request: &Request) -> (r: Result<Response, Error>)
        ensures
            parameter_answered(request@, r),
    {
        self.handle_get_parameter(request)
    }
}

} // verus!
