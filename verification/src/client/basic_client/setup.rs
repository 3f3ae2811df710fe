//! SETUP.

use vstd::prelude::*;

use super::lookup::{MediaFactoryLookup, SessionLookup, Target};
use super::options::{add_mount_extra_data, mount_extra_data};
use super::client::Client;
use crate::error::{Error, StatusCode};
use crate::extra_data::{
    extra_headers, extra_headers_in, Extra, ExtraData, ExtraMap, PRESENTATION_URI, SESSION_ID,
};
use crate::headers::{
    header_value, readable, reads_as_transports, typed_number, typed_session,
    with_extra_headers, with_header, with_optional_header,
};
use crate::media::stream::{extract_stream_id_from_uri, stream_of_uri, StreamId};
use crate::message::{Request, RequestView, Response, ResponseView, Version};
use crate::server::mounts::PresentationURI;
use crate::url::{opt_view, Url, UrlView};

verus! {

/// What a SETUP request asks for, as it is seen in contracts.
pub ghost struct SetupView {
    pub pipelined_request: Option<nat>,
    pub session_id: Option<Seq<char>>,
    pub transports: Seq<char>,
    pub accept_ranges: Option<Seq<char>>,
    pub uri: UrlView,
}

/// What a SETUP request asks for. Header values are as they are written.
pub struct SetupRequest {
    pub version: Version,
    pub pipelined_request: Option<u32>,
    pub transports: String,
    pub accept_ranges: Option<String>,
}

/// How a SETUP request goes on.
pub enum SetupStart {
    /// It is for a session that has to be found.
    Session(SessionLookup),
    /// It belongs to other requests that are sent one after the other: their session has to be
    /// looked for.
    Pipelined(PipelinedLookup),
    /// A new session has to be created for it.
    Create(CreateLookup),
}

/// The session of requests that are sent one after the other has to be looked for.
pub struct PipelinedLookup {
    pub uri: Url,
    pub request: u32,
}

/// The media factory that serves the URI has to be found, to create a session there.
pub struct CreateLookup {
    pub uri: Url,
    /// Whether the outcome has to be reported to the requests that wait for it.
    pub report: bool,
}

/// What a SETUP request asks for: it has to have transports and a URI, and every header that is
/// there has to be readable.
pub open spec fn setup_request(request: RequestView) -> Result<SetupView, Error> {
    let pipelined_request = typed_number(header_value(request.headers, "Pipelined-Requests"@));
    let session_id = typed_session(header_value(request.headers, "Session"@));
    let transports = readable(
        header_value(request.headers, "Transport"@),
        |v| reads_as_transports(v),
    );
    let accept_ranges = header_value(request.headers, "Accept-Ranges"@);
    match (pipelined_request, session_id, transports, request.request_uri) {
        (Ok(pipelined_request), Ok(session_id), Ok(Some(transports)), Some(uri)) => Ok(
            SetupView { pipelined_request, session_id, transports, accept_ranges, uri },
        ),
        _ => Err(Error::spec_status(StatusCode::BadRequest)),
    }
}

/// Whether a SETUP request was read as it has to be.
pub open spec fn setup_started(request: RequestView, r: Result<(SetupRequest, SetupStart), Error>) -> bool {
    match setup_request(request) {
        Ok(setup) => {
            &&& r matches Ok((s, start))
            &&& s.version == request.version
            &&& s.pipelined_request == match setup.pipelined_request {
                Some(p) => Some(p as u32),
                None => None,
            }
            &&& s.transports@ == setup.transports
            &&& opt_view(s.accept_ranges) == setup.accept_ranges
            &&& match setup.session_id {
                Some(session_id) => start matches SetupStart::Session(next)
                    && next.session_id@ == session_id && next.uri@ == setup.uri,
                None => match setup.pipelined_request {
                    Some(p) => start matches SetupStart::Pipelined(next) && next.request == p
                        && next.uri@ == setup.uri,
                    None => start matches SetupStart::Create(next) && next.uri@ == setup.uri
                        && !next.report,
                },
            }
        },
        Err(err) => r matches Err(e) && e == err,
    }
}

impl Client {
    /// Reads a SETUP request. A session that it names counts more than other requests that it
    /// belongs to.
    pub fn handle_setup(&self, request: &Request) -> (r: Result<(SetupRequest, SetupStart), Error>)
        ensures
            setup_started(request@, r),
    {
        let pipelined_request = match request.headers.pipelined_requests() {
            Ok(pipelined_request) => pipelined_request,
            Err(()) => return Err(Error::status(StatusCode::BadRequest)),
        };
        let session_id = match request.headers.session() {
            Ok(session_id) => session_id,
            Err(()) => return Err(Error::status(StatusCode::BadRequest)),
        };
        let transports = match request.headers.transports() {
            Ok(Some(transports)) => transports,
            _ => return Err(Error::status(StatusCode::BadRequest)),
        };
        let accept_ranges = match request.headers.accept_ranges() {
            Ok(accept_ranges) => accept_ranges,
            Err(()) => return Err(Error::status(StatusCode::BadRequest)),
        };
        let uri = match &request.request_uri {
            Some(uri) => uri.copy(),
            None => return Err(Error::status(StatusCode::BadRequest)),
        };
        let setup = SetupRequest {
            version: request.version,
            pipelined_request,
            transports,
            accept_ranges,
        };
        let start = match session_id {
            Some(session_id) => SetupStart::Session(SessionLookup { uri, session_id }),
            None => match pipelined_request {
                Some(request) => SetupStart::Pipelined(PipelinedLookup { uri, request }),
                None => SetupStart::Create(CreateLookup { uri, report: false }),
            },
        };
        Ok((setup, start))
    }
}

/// What is known of the session of requests that are sent one after the other.
pub enum PipelinedReply {
    /// This is the first of them.
    First,
    /// The session that the first of them has created, or its error: the identifier, the media and
    /// the presentation URI.
    Found(Result<(String, u128, PresentationURI), Error>),
}

/// How a request goes on when its session was looked for.
pub enum PipelinedNext {
    Create(CreateLookup),
    Existing(MediaFactoryLookup),
}

impl PipelinedLookup {
    /// Whether what is known of the session leads to `r`.
    pub open spec fn leads_to(
        self,
        reply: PipelinedReply,
        r: Result<PipelinedNext, Error>,
    ) -> bool {
        match reply {
            PipelinedReply::First => r matches Ok(PipelinedNext::Create(next)) && next.uri
                == self.uri && next.report,
            PipelinedReply::Found(Ok((session_id, media_id, session_uri))) => r matches Ok(
                PipelinedNext::Existing(next),
            ) && next == (MediaFactoryLookup {
                uri: self.uri,
                session_id,
                media_id,
                session_uri,
            }),
            PipelinedReply::Found(Err(err)) => r matches Err(e) && e == err,
        }
    }

    /// The session was looked for. The first request creates it, the others use it.
    pub fn session_found(self, reply: PipelinedReply) -> (r: Result<PipelinedNext, Error>)
        ensures
            self.leads_to(reply, r),
    {
        match reply {
            PipelinedReply::First => Ok(
                PipelinedNext::Create(CreateLookup { uri: self.uri, report: true }),
            ),
            PipelinedReply::Found(Ok((session_id, media_id, session_uri))) => Ok(
                PipelinedNext::Existing(
                    MediaFactoryLookup { uri: self.uri, session_id, media_id, session_uri },
                ),
            ),
            PipelinedReply::Found(Err(err)) => Err(err),
        }
    }
}

/// A media has to be created, for a session that is to be created then.
pub struct CreateMedia {
    pub media_factory_id: u128,
    pub presentation_uri: PresentationURI,
    pub stream_id: StreamId,
    pub report: bool,
}

/// The session has to be created.
pub struct CreateSession {
    pub media_id: u128,
    pub presentation_uri: PresentationURI,
    pub stream_id: StreamId,
    pub report: bool,
}

/// The stream that a transport is to be set up for.
pub struct SetupTarget {
    pub session_id: String,
    pub media_id: u128,
    pub presentation_uri: PresentationURI,
    pub stream_id: StreamId,
}

impl CreateLookup {
    /// Whether what is known of the URI leads to `r`, and to extra data from what was there before.
    pub open spec fn leads_to<V>(
        self,
        reply: Result<(u128, PresentationURI, ExtraData<V>), Error>,
        before: ExtraMap<V>,
        after: ExtraMap<V>,
        r: Result<CreateMedia, Error>,
    ) -> bool {
        match reply {
            Ok((media_factory_id, presentation_uri, mount_data)) => {
                &&& after == mount_extra_data(
                    before,
                    mount_data@,
                    presentation_uri,
                )
                &&& match stream_of_uri(presentation_uri@, self.uri@) {
                    Ok(Some(stream)) => {
                        &&& r matches Ok(next)
                        &&& next.media_factory_id == media_factory_id
                        &&& next.presentation_uri == presentation_uri
                        &&& next.stream_id@ == stream
                        &&& next.stream_id.wf()
                        &&& next.report == self.report
                    },
                    Ok(None) => r matches Err(e) && e == Error::spec_status(
                        StatusCode::NotFound,
                    ),
                    Err(err) => r matches Err(e) && e == err,
                }
            },
            Err(err) => r matches Err(e) && e == err && after == before,
        }
    }

    /// The media factory that serves the URI was found with its presentation URI and the extra data
    /// of its mount, or not. The request has to be for a stream.
    pub fn uri_found<V>(
        self,
        reply: Result<(u128, PresentationURI, ExtraData<V>), Error>,
        extra_data: &mut ExtraData<V>,
    ) -> (r: Result<CreateMedia, Error>)
        ensures
            self.leads_to(reply, old(extra_data)@, final(extra_data)@, r),
    {
        let (media_factory_id, presentation_uri, mount_data) = match reply {
            Ok(found) => found,
            Err(err) => return Err(err),
        };
        add_mount_extra_data(extra_data, &mount_data, &presentation_uri);
        match extract_stream_id_from_uri(&presentation_uri, &self.uri) {
            Ok(Some(stream_id)) => Ok(
                CreateMedia { media_factory_id, presentation_uri, stream_id, report: self.report },
            ),
            Ok(None) => Err(Error::status(StatusCode::NotFound)),
            Err(err) => Err(err),
        }
    }
}

impl CreateMedia {
    /// Whether the outcome for the media leads to `r`.
    pub open spec fn leads_to(
        self,
        reply: Result<u128, Error>,
        r: Result<CreateSession, Error>,
    ) -> bool {
        match reply {
            Ok(media_id) => r matches Ok(next) && next == (CreateSession {
                media_id,
                presentation_uri: self.presentation_uri,
                stream_id: self.stream_id,
                report: self.report,
            }),
            Err(err) => r matches Err(e) && e == err,
        }
    }

    /// The media was created, or not.
    pub fn media_created(self, reply: Result<u128, Error>) -> (r: Result<CreateSession, Error>)
        ensures
            self.leads_to(reply, r),
    {
        match reply {
            Ok(media_id) => Ok(
                CreateSession {
                    media_id,
                    presentation_uri: self.presentation_uri,
                    stream_id: self.stream_id,
                    report: self.report,
                },
            ),
            Err(err) => Err(err),
        }
    }
}

impl CreateSession {
    /// Whether the outcome for the session leads to `r`.
    pub open spec fn leads_to(
        self,
        reply: Result<String, Error>,
        r: Result<SetupTarget, Error>,
    ) -> bool {
        match reply {
            Ok(session_id) => r matches Ok(target) && target == (SetupTarget {
                session_id,
                media_id: self.media_id,
                presentation_uri: self.presentation_uri,
                stream_id: self.stream_id,
            }),
            Err(err) => r matches Err(e) && e == err,
        }
    }

    /// The session was created, or not.
    pub fn session_created(self, reply: Result<String, Error>) -> (r: Result<SetupTarget, Error>)
        ensures
            self.leads_to(reply, r),
    {
        match reply {
            Ok(session_id) => Ok(
                SetupTarget {
                    session_id,
                    media_id: self.media_id,
                    presentation_uri: self.presentation_uri,
                    stream_id: self.stream_id,
                },
            ),
            Err(err) => Err(err),
        }
    }
}

/// What is to be reported to the requests that wait for a session.
pub open spec fn setup_outcome(report: bool, outcome: Result<SetupTarget, Error>) -> Option<
    Result<(), Error>,
> {
    if report {
        Some(
            match outcome {
                Ok(_) => Ok(()),
                Err(err) => Err(err),
            },
        )
    } else {
        None
    }
}

/// What is to be reported to the requests that wait for a session, if any may: whether it was
/// created, or the error.
pub fn setup_report(report: bool, outcome: &Result<SetupTarget, Error>) -> (r: Option<
    Result<(), Error>,
>)
    ensures
        r == setup_outcome(report, *outcome),
{
    if report {
        match outcome {
            Ok(_) => Some(Ok(())),
            Err(err) => Some(Err(*err)),
        }
    } else {
        None
    }
}

/// Whether a transport in an existing session is set up for its stream.
pub open spec fn is_set_up_for(target: Target, r: Result<SetupTarget, Error>) -> bool {
    match target.stream_id {
        Some(stream_id) => r matches Ok(t) && t == (SetupTarget {
            session_id: target.session_id,
            media_id: target.media_id,
            presentation_uri: target.presentation_uri,
            stream_id,
        }),
        None => r matches Err(e) && e == Error::spec_status(StatusCode::NotFound),
    }
}

/// A transport in an existing session has to be for a stream.
pub fn existing_target(target: Target) -> (r: Result<SetupTarget, Error>)
    ensures
        is_set_up_for(target, r),
{
    match target.stream_id {
        Some(stream_id) => Ok(
            SetupTarget {
                session_id: target.session_id,
                media_id: target.media_id,
                presentation_uri: target.presentation_uri,
                stream_id,
            },
        ),
        None => Err(Error::status(StatusCode::NotFound)),
    }
}

/// The extra data for setting up a transport.
pub open spec fn setup_extra_data<V>(extra_data: ExtraMap<V>, target: SetupTarget) -> ExtraMap<V> {
    extra_data.insert(
        PRESENTATION_URI,
        Extra::PresentationURI(target.presentation_uri),
    ).insert(SESSION_ID, Extra::SessionId(target.session_id))
}

/// Adds what is known of the session to the extra data. The media is to be asked to set up a
/// transport next.
pub fn add_setup_extra_data<V>(extra_data: &mut ExtraData<V>, target: &SetupTarget)
    ensures
        final(extra_data)@ == setup_extra_data(old(extra_data)@, *target),
{
    extra_data.insert(PRESENTATION_URI, Extra::PresentationURI(target.presentation_uri.copy()));
    extra_data.insert(SESSION_ID, Extra::SessionId(target.session_id.clone()));
}

/// A transport that was set up. Header values are as they are written.
pub struct SetupReply<V> {
    pub transport: String,
    pub media_properties: String,
    pub accept_ranges: String,
    pub media_range: Option<String>,
    pub extra_data: ExtraData<V>,
}

/// The response to a SETUP request that was carried out. What is only known to RTSP 2.0 is only
/// given there.
pub open spec fn setup_response<V>(
    version: Version,
    session_id: Seq<char>,
    reply: SetupReply<V>,
) -> ResponseView {
    let response = ResponseView::empty(version, StatusCode::Success).with_header(
        "Session"@,
        session_id,
    ).with_header("Transport"@, reply.transport@);
    let headers = with_extra_headers(response.headers, extra_headers_in(reply.extra_data@));
    ResponseView {
        headers: if version == Version::V2_0 {
            with_optional_header(
                with_header(
                    with_header(headers, "Media-Properties"@, reply.media_properties@),
                    "Accept-Ranges"@,
                    reply.accept_ranges@,
                ),
                "Media-Range"@,
                opt_view(reply.media_range),
            )
        } else {
            headers
        },
        ..response
    }
}

/// The response to a SETUP request that failed. The session is given: it may have been created for
/// the request.
pub open spec fn setup_failure(version: Version, session_id: Seq<char>, err: Error) -> ResponseView {
    ResponseView::empty(version, err.spec_status_code()).with_header("Session"@, session_id)
}

/// Whether a SETUP request was answered as it has to be.
pub open spec fn setup_finished<V>(
    version: Version,
    session_id: Seq<char>,
    reply: Result<SetupReply<V>, Error>,
    r: Response,
) -> bool {
    match reply {
        Ok(reply) => r@ == setup_response(version, session_id, reply),
        Err(err) => r@ == setup_failure(version, session_id, err),
    }
}

/// Answers a SETUP request with the transport that was set up. Also if that failed, the session is
/// given: it may have been created for the request.
pub fn finish_setup<V>(version: Version, session_id: &str, reply: Result<SetupReply<V>, Error>) -> (r:
    Response)
    ensures
        setup_finished(version, session_id@, reply, r),
{
    match reply {
        Ok(reply) => {
            let mut response = Response::new(version, StatusCode::Success);
            response.insert_header("Session", session_id);
            response.insert_header("Transport", reply.transport.as_str());
            if let Some(extra) = extra_headers(&reply.extra_data) {
                response.insert_extra_headers(extra);
            }
            if version == Version::V2_0 {
                response.headers.insert("Media-Properties", reply.media_properties.as_str());
                response.headers.insert("Accept-Ranges", reply.accept_ranges.as_str());
                response.headers.insert_optional("Media-Range", &reply.media_range);
            }
            response
        },
        Err(err) => {
            let mut response = Response::new(version, err.status_code());
            response.insert_header("Session", session_id);
            response
        },
    }
}

} // verus!
