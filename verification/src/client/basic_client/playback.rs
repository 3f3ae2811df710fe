//! PLAY and PAUSE.

use vstd::prelude::*;

use super::lookup::{SessionLookup, Target};
use super::client::Client;
use crate::error::{Error, StatusCode};
use crate::extra_data::{
    extra_headers, extra_headers_in, Extra, ExtraData, ExtraMap, PRESENTATION_URI, SESSION_ID,
};
use crate::headers::{
    header_value, is_range, is_scale, is_speed, readable, typed_session, with_extra_headers,
    with_header, with_optional_header,
};
use crate::message::{Request, RequestView, Response, ResponseView, Version};
use crate::rtp_info::RtpInfos;
use crate::url::{opt_view, UrlView};

verus! {

/// What a PLAY request asks for, as it is seen in contracts.
pub ghost struct PlayView {
    pub range: Option<Seq<char>>,
    pub seek_style: Option<Seq<char>>,
    pub scale: Option<Seq<char>>,
    pub speed: Option<Seq<char>>,
    pub session_id: Seq<char>,
    pub uri: UrlView,
}

/// What a PLAY request asks for. Header values are as they are written.
pub struct PlayRequest {
    pub version: Version,
    pub range: Option<String>,
    pub seek_style: Option<String>,
    pub scale: Option<String>,
    pub speed: Option<String>,
}

/// The session in a request that has to have one, and the URI that it has to be for.
pub open spec fn session_and_uri(request: RequestView) -> Result<(Seq<char>, UrlView), Error> {
    match typed_session(header_value(request.headers, "Session"@)) {
        Err(_) => Err(Error::spec_status(StatusCode::BadRequest)),
        Ok(None) => Err(Error::spec_status(StatusCode::SessionNotFound)),
        Ok(Some(session_id)) => match request.request_uri {
            None => Err(Error::spec_status(StatusCode::BadRequest)),
            Some(uri) => Ok((session_id, uri)),
        },
    }
}

/// What a PLAY request asks for: every header that is there has to be readable.
pub open spec fn play_request(request: RequestView) -> Result<PlayView, Error> {
    let range = readable(header_value(request.headers, "Range"@), |v| is_range(v));
    let scale = readable(header_value(request.headers, "Scale"@), |v| is_scale(v));
    let speed = readable(header_value(request.headers, "Speed"@), |v| is_speed(v));
    if range is Err || scale is Err || speed is Err {
        Err(Error::spec_status(StatusCode::BadRequest))
    } else {
        match session_and_uri(request) {
            Ok((session_id, uri)) => Ok(
                PlayView {
                    range: range->Ok_0,
                    seek_style: header_value(request.headers, "Seek-Style"@),
                    scale: scale->Ok_0,
                    speed: speed->Ok_0,
                    session_id,
                    uri,
                },
            ),
            Err(err) => Err(err),
        }
    }
}

/// The session in a request that has to have one, and the URI that it has to be for.
fn find_session_and_uri(request: &Request) -> (r: Result<SessionLookup, Error>)
    ensures
        match session_and_uri(request@) {
            Ok((session_id, uri)) => r matches Ok(next) && next.session_id@ == session_id
                && next.uri@ == uri,
            Err(err) => r matches Err(e) && e == err,
        },
{
    let session_id = match request.headers.session() {
        Ok(Some(session_id)) => session_id,
        Ok(None) => return Err(Error::status(StatusCode::SessionNotFound)),
        Err(()) => return Err(Error::status(StatusCode::BadRequest)),
    };
    match &request.request_uri {
        Some(uri) => Ok(SessionLookup { uri: uri.copy(), session_id }),
        None => Err(Error::status(StatusCode::BadRequest)),
    }
}

/// Whether a PLAY request was read as it has to be.
pub open spec fn play_started(request: RequestView, r: Result<(PlayRequest, SessionLookup), Error>) -> bool {
    match play_request(request) {
        Ok(play) => {
            &&& r matches Ok((p, next))
            &&& p.version == request.version
            &&& opt_view(p.range) == play.range
            &&& opt_view(p.seek_style) == play.seek_style
            &&& opt_view(p.scale) == play.scale
            &&& opt_view(p.speed) == play.speed
            &&& next.session_id@ == play.session_id
            &&& next.uri@ == play.uri
        },
        Err(err) => r matches Err(e) && e == err,
    }
}

impl Client {
    /// Reads a PLAY request. The session is to be found next.
    pub fn handle_play(&self, request: &Request) -> (r: Result<(PlayRequest, SessionLookup), Error>)
        ensures
            play_started(request@, r),
    {
        let range = match request.headers.range() {
            Ok(range) => range,
            Err(()) => return Err(Error::status(StatusCode::BadRequest)),
        };
        let seek_style = match request.headers.seek_style() {
            Ok(seek_style) => seek_style,
            Err(()) => return Err(Error::status(StatusCode::BadRequest)),
        };
        let scale = match request.headers.scale() {
            Ok(scale) => scale,
            Err(()) => return Err(Error::status(StatusCode::BadRequest)),
        };
        let speed = match request.headers.speed() {
            Ok(speed) => speed,
            Err(()) => return Err(Error::status(StatusCode::BadRequest)),
        };
        match find_session_and_uri(request) {
            Ok(next) => Ok(
                (PlayRequest { version: request.version, range, seek_style, scale, speed }, next),
            ),
            Err(err) => Err(err),
        }
    }
}

/// Whether a PAUSE request was read as it has to be.
pub open spec fn pause_started(request: RequestView, r: Result<SessionLookup, Error>) -> bool {
    match session_and_uri(request) {
        Ok((session_id, uri)) => r matches Ok(next) && next.session_id@ == session_id
            && next.uri@ == uri,
        Err(err) => r matches Err(e) && e == err,
    }
}

impl Client {
    /// Reads a PAUSE request. The session is to be found next.
    pub fn handle_pause(&self, request: &Request) -> (r: Result<SessionLookup, Error>)
        ensures
            pause_started(request@, r),
    {
        find_session_and_uri(request)
    }
}

/// The extra data for what is done in a session.
pub open spec fn session_extra_data<V>(extra_data: ExtraMap<V>, target: Target) -> ExtraMap<V> {
    extra_data.insert(SESSION_ID, Extra::SessionId(target.session_id)).insert(
        PRESENTATION_URI,
        Extra::PresentationURI(target.presentation_uri),
    )
}

/// Adds what is known of the session to the extra data.
pub fn add_session_extra_data<V>(extra_data: &mut ExtraData<V>, target: &Target)
    ensures
        final(extra_data)@ == session_extra_data(old(extra_data)@, *target),
{
    extra_data.insert(SESSION_ID, Extra::SessionId(target.session_id.clone()));
    extra_data.insert(PRESENTATION_URI, Extra::PresentationURI(target.presentation_uri.copy()));
}

/// Whether a request is for the whole presentation.
pub open spec fn aggregate_check(target: Target) -> Result<(), Error> {
    if target.stream_id is Some {
        Err(Error::spec_status(StatusCode::MethodNotAllowed))
    } else {
        Ok(())
    }
}

/// Checks that a request is for the whole presentation: a single stream is neither played nor
/// paused. The media is to be asked next.
pub fn check_aggregate<V>(target: &Target, extra_data: &mut ExtraData<V>) -> (r: Result<(), Error>)
    ensures
        r == aggregate_check(*target),
        final(extra_data)@ == session_extra_data(old(extra_data)@, *target),
{
    add_session_extra_data(extra_data, target);
    if target.stream_id.is_some() {
        Err(Error::status(StatusCode::MethodNotAllowed))
    } else {
        Ok(())
    }
}

/// What a media plays. The values of the other headers are as they are written.
pub struct PlayReply<V> {
    pub range: String,
    pub rtp_infos: RtpInfos,
    pub seek_style: Option<String>,
    pub scale: Option<String>,
    pub speed: Option<String>,
    pub extra_data: ExtraData<V>,
}

/// The response to a PLAY request that was carried out. In RTSP 1.0, `RTP-Info` has to have the
/// form of that version. The URIs of the streams have to be URLs.
pub open spec fn play_response<V>(
    version: Version,
    session_id: Seq<char>,
    reply: PlayReply<V>,
) -> Result<ResponseView, Error> {
    let rtp_infos = if version == Version::V1_0 {
        reply.rtp_infos@.into_v1()
    } else {
        Some(reply.rtp_infos@)
    };
    match rtp_infos {
        None => Err(Error::spec_status(StatusCode::UnsupportedTransport)),
        Some(rtp_infos) => if !rtp_infos.has_uris() {
            Err(Error::spec_internal())
        } else {
            let response = ResponseView::empty(version, StatusCode::Success);
            let headers = with_header(
                with_header(
                    with_header(response.headers, "Session"@, session_id),
                    "Range"@,
                    reply.range@,
                ),
                "RTP-Info"@,
                rtp_infos.text(),
            );
            let headers = if version == Version::V2_0 {
                with_optional_header(headers, "Seek-Style"@, opt_view(reply.seek_style))
            } else {
                headers
            };
            let headers = with_optional_header(headers, "Scale"@, opt_view(reply.scale));
            let headers = with_optional_header(headers, "Speed"@, opt_view(reply.speed));
            let headers = with_extra_headers(headers, extra_headers_in(reply.extra_data@));
            Ok(ResponseView { headers, ..response })
        },
    }
}

/// Whether a PLAY request was answered as it has to be.
pub open spec fn play_finished<V>(
    version: Version,
    session_id: Seq<char>,
    reply: Result<PlayReply<V>, Error>,
    r: Result<Response, Error>,
) -> bool {
    match reply {
        Ok(reply) => match play_response(version, session_id, reply) {
            Ok(response) => r matches Ok(resp) && resp@ == response,
            Err(err) => r matches Err(e) && e == err,
        },
        Err(err) => r matches Err(e) && e == err,
    }
}

/// Answers a PLAY request with what the media plays, or with its error.
pub fn finish_play<V>(version: Version, session_id: &str, reply: Result<PlayReply<V>, Error>) -> (r:
    Result<Response, Error>)
    ensures
        play_finished(version, session_id@, reply, r),
{
    let reply = match reply {
        Ok(reply) => reply,
        Err(err) => return Err(err),
    };
    let rtp_infos = if version == Version::V1_0 {
        match reply.rtp_infos.try_into_v1() {
            Ok(rtp_infos) => rtp_infos,
            Err(_) => return Err(Error::status(StatusCode::UnsupportedTransport)),
        }
    } else {
        reply.rtp_infos
    };
    let mut response = Response::new(version, StatusCode::Success);
    response.headers.insert("Session", session_id);
    response.headers.insert("Range", reply.range.as_str());
    if !response.headers.insert_rtp_info(&rtp_infos) {
        return Err(Error::internal());
    }
    if version == Version::V2_0 {
        response.headers.insert_optional("Seek-Style", &reply.seek_style);
    }
    response.headers.insert_optional("Scale", &reply.scale);
    response.headers.insert_optional("Speed", &reply.speed);
    if let Some(extra) = extra_headers(&reply.extra_data) {
        response.insert_extra_headers(extra);
    }
    Ok(response)
}

/// Where a media was paused. The header value is as it is written.
pub struct PauseReply<V> {
    pub range: String,
    pub extra_data: ExtraData<V>,
}

/// The response to a PAUSE request that was carried out.
pub open spec fn pause_response<V>(
    version: Version,
    session_id: Seq<char>,
    reply: PauseReply<V>,
) -> ResponseView {
    let response = ResponseView::empty(version, StatusCode::Success);
    let headers = with_header(
        with_header(response.headers, "Session"@, session_id),
        "Range"@,
        reply.range@,
    );
    ResponseView {
        headers: with_extra_headers(headers, extra_headers_in(reply.extra_data@)),
        ..response
    }
}

/// Whether a PAUSE request was answered as it has to be.
pub open spec fn pause_finished<V>(
    version: Version,
    session_id: Seq<char>,
    reply: Result<PauseReply<V>, Error>,
    r: Result<Response, Error>,
) -> bool {
    match reply {
        Ok(reply) => r matches Ok(resp) && resp@ == pause_response(version, session_id, reply),
        Err(err) => r matches Err(e) && e == err,
    }
}

/// Answers a PAUSE request with where the media was paused, or with its error.
pub fn finish_pause<V>(version: Version, session_id: &str, reply: Result<PauseReply<V>, Error>) -> (r:
    Result<Response, Error>)
    ensures
        pause_finished(version, session_id@, reply, r),
{
    let reply = match reply {
        Ok(reply) => reply,
        Err(err) => return Err(err),
    };
    let mut response = Response::new(version, StatusCode::Success);
    response.headers.insert("Session", session_id);
    response.headers.insert("Range", reply.range.as_str());
    if let Some(extra) = extra_headers(&reply.extra_data) {
        response.insert_extra_headers(extra);
    }
    Ok(response)
}

} // verus!
