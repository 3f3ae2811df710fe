//! TEARDOWN.

use vstd::prelude::*;

use super::lookup::{SessionLookup, Target};
use super::options::session_in;
use super::playback::{add_session_extra_data, session_extra_data};
use super::client::Client;
use crate::error::{Error, StatusCode};
use crate::extra_data::ExtraData;
use crate::media::stream::StreamId;
use crate::message::{Request, RequestView, Response, ResponseView, Version};
use crate::url::UrlView;

verus! {

/// The session and the URI of a TEARDOWN request, which has to have both.
pub open spec fn teardown_request(request: RequestView) -> Result<(Seq<char>, UrlView), Error> {
    match (session_in(request), request.request_uri) {
        (Some(session_id), Some(uri)) => Ok((session_id, uri)),
        _ => Err(Error::spec_status(StatusCode::BadRequest)),
    }
}

/// Whether a TEARDOWN request was read as it has to be.
pub open spec fn teardown_started(request: RequestView, r: Result<SessionLookup, Error>) -> bool {
    match teardown_request(request) {
        Ok((session_id, uri)) => r matches Ok(next) && next.session_id@ == session_id
            && next.uri@ == uri,
        Err(err) => r matches Err(e) && e == err,
    }
}

impl Client {
    /// Reads a TEARDOWN request. The session is to be found next.
    pub fn handle_teardown(&self, request: &Request) -> (r: Result<SessionLookup, Error>)
        ensures
            teardown_started(request@, r),
    {
        let session_id = match request.headers.session() {
            Ok(Some(session_id)) => session_id,
            _ => return Err(Error::status(StatusCode::BadRequest)),
        };
        match &request.request_uri {
            Some(uri) => Ok(SessionLookup { uri: uri.copy(), session_id }),
            None => Err(Error::status(StatusCode::BadRequest)),
        }
    }
}

/// What a TEARDOWN request takes down.
pub enum TeardownStep {
    /// The transport of one stream: the media is to be asked.
    RemoveTransport(u128, StreamId),
    /// The whole session.
    ShutdownSession,
}

/// What a TEARDOWN request takes down: the stream that it is for, else the session.
pub open spec fn teardown_of(target: Target) -> TeardownStep {
    match target.stream_id {
        Some(stream_id) => TeardownStep::RemoveTransport(target.media_id, stream_id),
        None => TeardownStep::ShutdownSession,
    }
}

/// Decides what a TEARDOWN request takes down.
pub fn teardown_step<V>(target: &Target, extra_data: &mut ExtraData<V>) -> (r: TeardownStep)
    ensures
        r == teardown_of(*target),
        final(extra_data)@ == session_extra_data(old(extra_data)@, *target),
{
    add_session_extra_data(extra_data, target);
    match &target.stream_id {
        Some(stream_id) => TeardownStep::RemoveTransport(target.media_id, stream_id.copy()),
        None => TeardownStep::ShutdownSession,
    }
}

/// The response to a TEARDOWN request that was carried out. A session is given if there still is
/// one.
pub open spec fn teardown_response(
    version: Version,
    session_id: Seq<char>,
    of_stream: bool,
) -> ResponseView {
    let response = ResponseView::empty(version, StatusCode::Success);
    if of_stream {
        response.with_header("Session"@, session_id)
    } else {
        response
    }
}

/// Whether a TEARDOWN request was answered as it has to be.
pub open spec fn teardown_finished(
    version: Version,
    target: Target,
    reply: Result<(), Error>,
    r: Result<Response, Error>,
) -> bool {
    match reply {
        Ok(()) => r matches Ok(response) && response@ == teardown_response(
            version,
            target.session_id@,
            target.stream_id is Some,
        ),
        Err(err) => r matches Err(e) && e == err,
    }
}

/// Answers a TEARDOWN request, or gives the error of whoever was asked.
pub fn finish_teardown(version: Version, target: &Target, reply: Result<(), Error>) -> (r: Result<
    Response,
    Error,
>)
    ensures
        teardown_finished(version, *target, reply, r),
{
    match reply {
        Ok(()) => {
            let mut response = Response::new(version, StatusCode::Success);
            if target.stream_id.is_some() {
                response.insert_header("Session", target.session_id.as_str());
            }
            Ok(response)
        },
        Err(err) => Err(err),
    }
}

} // verus!
