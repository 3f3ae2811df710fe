//! The client itself.

use vstd::prelude::*;

use super::describe::{describe_started, DescribeStart};
use super::lookup::SessionLookup;
use super::options::{options_started, OptionsStart};
use super::parameter::parameter_answered;
use super::playback::{pause_started, play_started, PlayRequest};
use super::setup::{setup_started, SetupRequest, SetupStart};
use super::teardown::teardown_started;
use crate::error::{Error, StatusCode};
use crate::extra_data::{extra_headers, extra_headers_in, ExtraData};
use crate::headers::{empty_headers, with_extra_headers, with_header};
use crate::message::{Method, Request, RequestView, Response, ResponseView, Version};

verus! {

/// A client. It remembers the version of the last request.
#[derive(Clone, Copy, PartialEq, Eq, Structural, Debug)]
pub struct Client {
    pub rtsp_version: Option<Version>,
}

impl Default for Client {
    fn default() -> (r: Self)
        ensures
            r.rtsp_version is None,
    {
        Client { rtsp_version: None }
    }
}

/// How the handling of a request begins.
pub enum Handling {
    Options(OptionsStart),
    Describe(DescribeStart),
    Setup(Result<(SetupRequest, SetupStart), Error>),
    Play(Result<(PlayRequest, SessionLookup), Error>),
    Pause(Result<SessionLookup, Error>),
    Teardown(Result<SessionLookup, Error>),
    /// It is over already.
    Answer(Result<Response, Error>),
}

/// Whether a request is handled as its method asks for. What is not known is not allowed.
pub open spec fn handles(request: RequestView, handling: Handling) -> bool {
    match request.method {
        Method::Options => handling matches Handling::Options(r) && options_started(request, r),
        Method::Describe => handling matches Handling::Describe(r) && describe_started(request, r),
        Method::Setup => handling matches Handling::Setup(r) && setup_started(request, r),
        Method::Play => handling matches Handling::Play(r) && play_started(request, r),
        Method::Pause => handling matches Handling::Pause(r) && pause_started(request, r),
        Method::Teardown => handling matches Handling::Teardown(r) && teardown_started(request, r),
        Method::GetParameter => handling matches Handling::Answer(r) && parameter_answered(
            request,
            r,
        ),
        Method::SetParameter => handling matches Handling::Answer(r) && parameter_answered(
            request,
            r,
        ),
        _ => handling matches Handling::Answer(Ok(response)) && response@ == ResponseView::empty(
            request.version,
            StatusCode::MethodNotAllowed,
        ),
    }
}

/// What a media notifies its client of. Header values are as they are written.
pub enum PlayNotifyMessage<V> {
    EndOfStream { range: String, rtp_info: String, extra_data: ExtraData<V> },
    MediaPropertiesUpdate {
        range: String,
        media_properties: String,
        media_range: String,
        extra_data: ExtraData<V>,
    },
    ScaleChange {
        range: String,
        media_properties: String,
        media_range: String,
        scale: String,
        rtp_info: String,
        extra_data: ExtraData<V>,
    },
}

/// The headers of the request that passes a notification on to the peer.
pub open spec fn notify_headers<V>(session_id: Seq<char>, notify: PlayNotifyMessage<V>) -> Map<
    Seq<char>,
    Seq<char>,
> {
    let headers = with_header(empty_headers(), "Session"@, session_id);
    match notify {
        PlayNotifyMessage::EndOfStream { range, rtp_info, extra_data } => {
            let headers = with_header(headers, "Notify-Reason"@, "end-of-stream"@);
            let headers = with_header(headers, "Range"@, range@);
            let headers = with_header(headers, "RTP-Info"@, rtp_info@);
            with_extra_headers(headers, extra_headers_in(extra_data@))
        },
        PlayNotifyMessage::MediaPropertiesUpdate {
            range,
            media_properties,
            media_range,
            extra_data,
        } => {
            let headers = with_header(headers, "Notify-Reason"@, "media-properties-update"@);
            let headers = with_header(headers, "Range"@, range@);
            let headers = with_header(headers, "Media-Properties"@, media_properties@);
            let headers = with_header(headers, "Media-Range"@, media_range@);
            with_extra_headers(headers, extra_headers_in(extra_data@))
        },
        PlayNotifyMessage::ScaleChange {
            range,
            media_properties,
            media_range,
            scale,
            rtp_info,
            extra_data,
        } => {
            let headers = with_header(headers, "Notify-Reason"@, "scale-change"@);
            let headers = with_header(headers, "Range"@, range@);
            let headers = with_header(headers, "Media-Properties"@, media_properties@);
            let headers = with_header(headers, "Media-Range"@, media_range@);
            let headers = with_header(headers, "RTP-Info"@, rtp_info@);
            let headers = with_header(headers, "Scale"@, scale@);
            with_extra_headers(headers, extra_headers_in(extra_data@))
        },
    }
}

/// The request that passes a notification on to the peer.
pub open spec fn notify_request<V>(session_id: Seq<char>, notify: PlayNotifyMessage<V>) -> RequestView {
    RequestView {
        method: Method::PlayNotify,
        request_uri: None,
        version: Version::V2_0,
        headers: notify_headers(session_id, notify),
        body: Seq::empty(),
    }
}

impl Client {
    /// The client after a request: it remembers its version.
    pub open spec fn after_request(self, request: RequestView) -> Client {
        Client { rtsp_version: Some(request.version) }
    }

    /// Whether a notification is passed on to the peer as it has to be, or not at all.
    pub open spec fn notifies<V>(
        self,
        session_id: Seq<char>,
        notify: PlayNotifyMessage<V>,
        r: Option<Request>,
    ) -> bool {
        match r {
            Some(request) => self.rtsp_version == Some(Version::V2_0) && request@
                == notify_request(session_id, notify),
            None => self.rtsp_version != Some(Version::V2_0),
        }
    }

    /// Begins to handle a request, and remembers its version.
    pub fn handle_request(&mut self, request: &Request) -> (r: Handling)
        ensures
            *final(self) == old(self).after_request(request@),
            final(self).rtsp_version == Some(request.version),
            handles(request@, r),
    {
        self.rtsp_version = Some(request.version);
        match request.method {
            Method::Options => Handling::Options(self.handle_options(request)),
            Method::Describe => Handling::Describe(self.handle_describe(request)),
            Method::Setup => Handling::Setup(self.handle_setup(request)),
            Method::Play => Handling::Play(self.handle_play(request)),
            Method::Pause => Handling::Pause(self.handle_pause(request)),
            Method::Teardown => Handling::Teardown(self.handle_teardown(request)),
            Method::GetParameter => Handling::Answer(self.handle_get_parameter(request)),
            Method::SetParameter => Handling::Answer(self.handle_set_parameter(request)),
            _ => Handling::Answer(Ok(Response::new(request.version, StatusCode::MethodNotAllowed))),
        }
    }

    /// A media notifies this client. Returns the request that passes it on to the peer, which is
    /// only known to RTSP 2.0.
    pub fn media_play_notify<V>(&self, session_id: &str, notify: PlayNotifyMessage<V>) -> (r: Option<
        Request,
    >)
        ensures
            self.notifies(session_id@, notify, r),
    {
        match self.rtsp_version {
            Some(Version::V2_0) => {},
            _ => return None,
        }
        let mut request = Request::new(Method::PlayNotify, Version::V2_0);
        request.headers.insert("Session", session_id);
        let extra_data = match notify {
            PlayNotifyMessage::EndOfStream { range, rtp_info, extra_data } => {
                request.headers.insert_notify_reason("end-of-stream");
                request.headers.insert("Range", range.as_str());
                request.headers.insert("RTP-Info", rtp_info.as_str());
                extra_data
            },
            PlayNotifyMessage::MediaPropertiesUpdate {
                range,
                media_properties,
                media_range,
                extra_data,
            } => {
                request.headers.insert_notify_reason("media-properties-update");
                request.headers.insert("Range", range.as_str());
                request.headers.insert("Media-Properties", media_properties.as_str());
                request.headers.insert("Media-Range", media_range.as_str());
                extra_data
            },
            PlayNotifyMessage::ScaleChange {
                range,
                media_properties,
                media_range,
                scale,
                rtp_info,
                extra_data,
            } => {
                request.headers.insert_notify_reason("scale-change");
                request.headers.insert("Range", range.as_str());
                request.headers.insert("Media-Properties", media_properties.as_str());
                request.headers.insert("Media-Range", media_range.as_str());
                request.headers.insert("RTP-Info", rtp_info.as_str());
                request.headers.insert("Scale", scale.as_str());
                extra_data
            },
        };
        if let Some(extra) = extra_headers(&extra_data) {
            request.headers.insert_extra(extra);
        }
        Some(request)
    }
}

} // verus!
