//! What the peer reads in responses, and in requests to it.

use vstd::prelude::*;

use super::client::{notify_request, PlayNotifyMessage};
use super::describe::describe_response;
use super::options::{all_unsupported, options_response, public_methods, OptionsReply};
use super::parameter::parameter_response;
use super::playback::{pause_response, play_response, PauseReply, PlayReply};
use super::setup::{setup_failure, setup_response, SetupReply};
use super::teardown::teardown_response;
use crate::error::{reason_phrase_text, Error, StatusCode};
use crate::extra_data::extra_headers_in;
use crate::headers::{
    ascii, decimal_value, empty_headers, header_value, is_list, law_extra_headers_are_given,
    law_extra_headers_keep_others, law_list_read_back, law_number_read_back, lemma_header_names,
    list_elements, list_text, lower, names_header, with_extra_headers, with_header,
};
use crate::message::{Method, RequestView, ResponseView, Version};
use crate::rtp_info::RtpInfosView;
use crate::text::views;
use crate::url::{opt_view, UrlView};

verus! {

/// A transport that was set up is answered with the session and the transport, in either version,
/// unless the media sets these headers itself. RTSP 2.0 learns the properties of the media too, and
/// RTSP 1.0 does not.
pub proof fn law_setup_gives_session_and_transport<V>(
    version: Version,
    session_id: Seq<char>,
    reply: SetupReply<V>,
)
    ensures
        ({
            let response = setup_response(version, session_id, reply);
            let extra = extra_headers_in(reply.extra_data@);
            let headers = response.headers;
            &&& response.version == version
            &&& response.status == StatusCode::Success
            &&& response.reason_phrase == reason_phrase_text(200)
            &&& response.body.len() == 0
            &&& !names_header(extra, "Session"@) ==> header_value(headers, "Session"@) == Some(
                session_id,
            )
            &&& !names_header(extra, "Transport"@) ==> header_value(headers, "Transport"@) == Some(
                reply.transport@,
            )
            &&& version == Version::V2_0 ==> {
                &&& header_value(headers, "Media-Properties"@) == Some(reply.media_properties@)
                &&& header_value(headers, "Accept-Ranges"@) == Some(reply.accept_ranges@)
                &&& reply.media_range matches Some(range) ==> header_value(
                    headers,
                    "Media-Range"@,
                ) == Some(range@)
            }
            &&& version == Version::V1_0 && !names_header(extra, "Media-Properties"@)
                ==> header_value(headers, "Media-Properties"@) is None
            &&& version == Version::V1_0 && !names_header(extra, "Accept-Ranges"@) ==> header_value(
                headers,
                "Accept-Ranges"@,
            ) is None
            &&& (version == Version::V1_0 || reply.media_range is None) && !names_header(
                extra,
                "Media-Range"@,
            ) ==> header_value(headers, "Media-Range"@) is None
        }),
{
    let extra = extra_headers_in(reply.extra_data@);
    let started = ResponseView::empty(version, StatusCode::Success).with_header(
        "Session"@,
        session_id,
    ).with_header("Transport"@, reply.transport@).headers;
    lemma_header_names();
    if !names_header(extra, "Session"@) {
        law_extra_headers_keep_others(started, extra, "Session"@);
    }
    if !names_header(extra, "Transport"@) {
        law_extra_headers_keep_others(started, extra, "Transport"@);
    }
    if !names_header(extra, "Media-Properties"@) {
        law_extra_headers_keep_others(started, extra, "Media-Properties"@);
    }
    if !names_header(extra, "Accept-Ranges"@) {
        law_extra_headers_keep_others(started, extra, "Accept-Ranges"@);
    }
    if !names_header(extra, "Media-Range"@) {
        law_extra_headers_keep_others(started, extra, "Media-Range"@);
    }
}

/// A transport that could not be set up is answered with the session and the status of the error.
pub proof fn law_failed_setup_gives_session(version: Version, session_id: Seq<char>, err: Error)
    ensures
        ({
            let response = setup_failure(version, session_id, err);
            &&& response.version == version
            &&& response.status == err.spec_status_code()
            &&& response.body.len() == 0
            &&& header_value(response.headers, "Session"@) == Some(session_id)
            &&& header_value(response.headers, "Transport"@) is None
        }),
{
    lemma_header_names();
}

/// What is played is answered with the session, the range and the first packets of the streams,
/// unless the media sets these headers itself. Scale and speed are given if the media gives them;
/// the style of seeking is only given in RTSP 2.0.
pub proof fn law_play_gives_range_and_packets<V>(
    version: Version,
    session_id: Seq<char>,
    reply: PlayReply<V>,
)
    ensures
        play_response(version, session_id, reply) matches Ok(response) ==> {
            let extra = extra_headers_in(reply.extra_data@);
            let headers = response.headers;
            &&& response.version == version
            &&& response.status == StatusCode::Success
            &&& response.body.len() == 0
            &&& !names_header(extra, "Session"@) ==> header_value(headers, "Session"@) == Some(
                session_id,
            )
            &&& !names_header(extra, "Range"@) ==> header_value(headers, "Range"@) == Some(
                reply.range@,
            )
            &&& !names_header(extra, "Scale"@) ==> header_value(headers, "Scale"@) == opt_view(
                reply.scale,
            )
            &&& !names_header(extra, "Speed"@) ==> header_value(headers, "Speed"@) == opt_view(
                reply.speed,
            )
            &&& !names_header(extra, "Seek-Style"@) ==> header_value(headers, "Seek-Style"@)
                == if version == Version::V2_0 {
                opt_view(reply.seek_style)
            } else {
                None
            }
            &&& !names_header(extra, "RTP-Info"@) && version == Version::V2_0 ==> header_value(
                headers,
                "RTP-Info"@,
            ) == Some(reply.rtp_infos@.text())
            &&& !names_header(extra, "RTP-Info"@) && reply.rtp_infos@ is V1 ==> header_value(
                headers,
                "RTP-Info"@,
            ) == Some(reply.rtp_infos@.text())
        },
        reply.rtp_infos@.has_uris() && (version == Version::V2_0 || reply.rtp_infos@ is V1)
            ==> play_response(version, session_id, reply) is Ok,
{
    let extra = extra_headers_in(reply.extra_data@);
    lemma_header_names();
    match play_response(version, session_id, reply) {
        Ok(response) => {
            let rtp_infos = if version == Version::V1_0 {
                reply.rtp_infos@.into_v1()->0
            } else {
                reply.rtp_infos@
            };
            let started = ResponseView::empty(version, StatusCode::Success).with_header(
                "Session"@,
                session_id,
            ).with_header("Range"@, reply.range@).with_header("RTP-Info"@, rtp_infos.text()).headers;
            let styled = if version == Version::V2_0 && reply.seek_style is Some {
                with_header(started, "Seek-Style"@, opt_view(reply.seek_style)->0)
            } else {
                started
            };
            let scaled = if reply.scale is Some {
                with_header(styled, "Scale"@, opt_view(reply.scale)->0)
            } else {
                styled
            };
            let all = if reply.speed is Some {
                with_header(scaled, "Speed"@, opt_view(reply.speed)->0)
            } else {
                scaled
            };
            assert(response.headers == with_extra_headers(all, extra));
            if !names_header(extra, "Session"@) {
                law_extra_headers_keep_others(all, extra, "Session"@);
            }
            if !names_header(extra, "Range"@) {
                law_extra_headers_keep_others(all, extra, "Range"@);
            }
            if !names_header(extra, "Scale"@) {
                law_extra_headers_keep_others(all, extra, "Scale"@);
            }
            if !names_header(extra, "Speed"@) {
                law_extra_headers_keep_others(all, extra, "Speed"@);
            }
            if !names_header(extra, "Seek-Style"@) {
                law_extra_headers_keep_others(all, extra, "Seek-Style"@);
            }
            if !names_header(extra, "RTP-Info"@) {
                law_extra_headers_keep_others(all, extra, "RTP-Info"@);
            }
        },
        Err(_) => {},
    }
}

/// RTSP 1.0 can only be told of streams that have exactly one source each. It is told the URI, the
/// sequence number and the time of each stream, in the same order.
pub proof fn law_old_version_plays_single_sources<V>(
    session_id: Seq<char>,
    reply: PlayReply<V>,
    i: int,
)
    requires
        reply.rtp_infos@ is V2,
    ensures
        ({
            let infos = reply.rtp_infos@->V2_0;
            let played = play_response(Version::V1_0, session_id, reply);
            &&& 0 <= i < infos.len() && infos[i].ssrc_infos.len() != 1 ==> played == Err::<
                ResponseView,
                Error,
            >(Error::spec_status(StatusCode::UnsupportedTransport))
            &&& (forall|j: int|
                0 <= j < infos.len() ==> (#[trigger] infos[j]).ssrc_infos.len() == 1) ==> {
                &&& reply.rtp_infos@.into_v1() matches Some(RtpInfosView::V1(told))
                &&& told.len() == infos.len()
                &&& 0 <= i < infos.len() ==> told[i].uri == infos[i].uri && told[i].seq
                    == infos[i].ssrc_infos[0].seq && told[i].rtptime
                    == infos[i].ssrc_infos[0].rtptime
            }
        }),
{
    let infos = reply.rtp_infos@->V2_0;
    if 0 <= i < infos.len() && infos[i].ssrc_infos.len() != 1 {
        assert(!(forall|j: int|
            0 <= j < infos.len() ==> (#[trigger] infos[j]).ssrc_infos.len() == 1));
    }
}

/// A pause is answered with the session and where the media was paused, unless the media sets these
/// headers itself.
pub proof fn law_pause_gives_range<V>(version: Version, session_id: Seq<char>, reply: PauseReply<V>)
    ensures
        ({
            let response = pause_response(version, session_id, reply);
            let extra = extra_headers_in(reply.extra_data@);
            &&& response.version == version
            &&& response.status == StatusCode::Success
            &&& response.body.len() == 0
            &&& !names_header(extra, "Session"@) ==> header_value(response.headers, "Session"@)
                == Some(session_id)
            &&& !names_header(extra, "Range"@) ==> header_value(response.headers, "Range"@) == Some(
                reply.range@,
            )
        }),
{
    let extra = extra_headers_in(reply.extra_data@);
    let started = ResponseView::empty(version, StatusCode::Success).with_header(
        "Session"@,
        session_id,
    ).with_header("Range"@, reply.range@).headers;
    lemma_header_names();
    if !names_header(extra, "Session"@) {
        law_extra_headers_keep_others(started, extra, "Session"@);
    }
    if !names_header(extra, "Range"@) {
        law_extra_headers_keep_others(started, extra, "Range"@);
    }
}

/// What was taken down is answered with success, and with the session exactly if only a stream of it
/// was.
pub proof fn law_teardown_gives_session_of_stream(version: Version, session_id: Seq<char>)
    ensures
        ({
            let stream = teardown_response(version, session_id, true);
            let session = teardown_response(version, session_id, false);
            &&& stream.version == version && session.version == version
            &&& stream.status == StatusCode::Success && session.status == StatusCode::Success
            &&& stream.body.len() == 0 && session.body.len() == 0
            &&& header_value(stream.headers, "Session"@) == Some(session_id)
            &&& header_value(session.headers, "Session"@) is None
        }),
{
    lemma_header_names();
}

/// A request for parameters succeeds exactly if it has no body, or none that begins. It gives back
/// the session that it was for, as it is written.
pub proof fn law_parameters_give_session_back(request: RequestView)
    ensures
        request.body.len() == 0 ==> parameter_response(request) is Ok,
        request.body.len() > 0 && request.body[0] == 0 ==> parameter_response(request) is Ok,
        request.body.len() > 0 && request.body[0] != 0 ==> parameter_response(request) == Err::<
            ResponseView,
            Error,
        >(Error::spec_status(StatusCode::ParameterNotUnderstood)),
        parameter_response(request) matches Ok(response) ==> {
            &&& response.version == request.version
            &&& response.status == StatusCode::Success
            &&& response.body.len() == 0
            &&& header_value(response.headers, "Session"@) == header_value(
                request.headers,
                "Session"@,
            )
        },
{
    lemma_header_names();
}

/// A description is answered with its text, whose length reads as it is, as a session description
/// that is relative to the presentation, unless the media factory sets these headers itself.
pub proof fn law_description_is_given(
    version: Version,
    presentation_uri: UrlView,
    description: Seq<u8>,
    extra: Seq<(String, String)>,
)
    ensures
        ({
            let response = describe_response(version, presentation_uri, description, extra);
            let headers = response.headers;
            &&& response.version == version
            &&& response.status == StatusCode::Success
            &&& response.body == description
            &&& !names_header(extra, "Content-Type"@) ==> header_value(headers, "Content-Type"@)
                == Some("application/"@ + "sdp"@)
            &&& !names_header(extra, "Content-Base"@) ==> header_value(headers, "Content-Base"@)
                == Some(presentation_uri.text)
            &&& !names_header(extra, "Content-Length"@) && 0 < description.len() <= u64::MAX ==> {
                &&& header_value(headers, "Content-Length"@) matches Some(length)
                &&& decimal_value(length, u64::MAX as nat) == Some(description.len())
            }
        }),
{
    let started = ResponseView::empty(version, StatusCode::Success).with_header(
        "Content-Type"@,
        "application/"@ + "sdp"@,
    ).with_header("Content-Base"@, presentation_uri.text).with_body(description).headers;
    lemma_header_names();
    if !names_header(extra, "Content-Type"@) {
        law_extra_headers_keep_others(started, extra, "Content-Type"@);
    }
    if !names_header(extra, "Content-Base"@) {
        law_extra_headers_keep_others(started, extra, "Content-Base"@);
    }
    if !names_header(extra, "Content-Length"@) {
        law_extra_headers_keep_others(started, extra, "Content-Length"@);
    }
    if description.len() <= u64::MAX {
        law_number_read_back(description.len(), u64::MAX as nat);
    }
}

/// Whatever headers a media or a media factory wants to be added are in the response, each with its
/// last value. Only those that RTSP 2.0 wants in the response to SETUP count more.
pub proof fn law_added_headers_are_in_responses<V>(
    version: Version,
    session_id: Seq<char>,
    setup: SetupReply<V>,
    play: PlayReply<V>,
    pause: PauseReply<V>,
    presentation_uri: UrlView,
    description: Seq<u8>,
    extra: Seq<(String, String)>,
    i: int,
)
    requires
        extra_headers_in(setup.extra_data@) == extra,
        extra_headers_in(play.extra_data@) == extra,
        extra_headers_in(pause.extra_data@) == extra,
        0 <= i < extra.len(),
        ascii(extra[i].0@),
        forall|j: int| i < j < extra.len() ==> lower((#[trigger] extra[j]).0@) != lower(extra[i].0@),
    ensures
        lower(extra[i].0@) != lower("Media-Properties"@) && lower(extra[i].0@) != lower(
            "Accept-Ranges"@,
        ) && lower(extra[i].0@) != lower("Media-Range"@) ==> header_value(
            setup_response(version, session_id, setup).headers,
            extra[i].0@,
        ) == Some(extra[i].1@),
        play_response(version, session_id, play) matches Ok(r) ==> header_value(
            r.headers,
            extra[i].0@,
        ) == Some(extra[i].1@),
        header_value(pause_response(version, session_id, pause).headers, extra[i].0@) == Some(
            extra[i].1@,
        ),
        header_value(
            describe_response(version, presentation_uri, description, extra).headers,
            extra[i].0@,
        ) == Some(extra[i].1@),
{
    assert forall|headers: Map<Seq<char>, Seq<char>>| #[trigger]
        header_value(with_extra_headers(headers, extra), extra[i].0@) == Some(extra[i].1@) by {
        law_extra_headers_are_given(headers, extra, i);
    }
}

/// A response to OPTIONS names exactly the features that are not supported: those that are reported,
/// and those that are required and not supported. RTSP 2.0 learns what is supported too.
pub proof fn law_options_name_features<V>(
    version: Version,
    required: Seq<Seq<char>>,
    reply: OptionsReply<V>,
    feature: Seq<char>,
)
    requires
        is_list(
            all_unsupported(
                required,
                required.len() as int,
                views(reply.supported@),
                views(reply.unsupported@),
            ),
        ),
    ensures
        ({
            let headers = options_response(version, required, reply).headers;
            &&& header_value(headers, "Unsupported"@) matches Some(value)
            &&& list_elements(value).contains(feature) <==> views(reply.unsupported@).contains(
                feature,
            ) || required.contains(feature) && !views(reply.supported@).contains(feature)
        }),
{
    let n = required.len() as int;
    let supported = views(reply.supported@);
    let reported = views(reply.unsupported@);
    let all = all_unsupported(required, n, supported, reported);
    super::options::lemma_all_unsupported(required, n, supported, reported);
    lemma_header_names();
    law_list_read_back(Map::empty(), "Unsupported"@, all);
    if required.contains(feature) {
        let i = choose|i: int| 0 <= i < required.len() && required[i] == feature;
        assert(supported.contains(required[i]) || all.contains(required[i]));
    }
    if reported.contains(feature) {
        let i = choose|i: int| 0 <= i < reported.len() && reported[i] == feature;
        assert(all[i] == feature);
    }
}

/// RTSP 2.0 learns which features are supported, and RTSP 1.0 does not, unless the media sets the
/// header itself.
pub proof fn law_options_name_supported_features<V>(
    version: Version,
    required: Seq<Seq<char>>,
    reply: OptionsReply<V>,
)
    requires
        reply.extra_data matches Some(extra_data) ==> !names_header(
            extra_headers_in(extra_data@),
            "Supported"@,
        ),
    ensures
        ({
            let response = options_response(version, required, reply);
            &&& response.version == version
            &&& response.body.len() == 0
            &&& version == Version::V1_0 ==> header_value(response.headers, "Supported"@) is None
            &&& version == Version::V2_0 && is_list(views(reply.supported@)) ==> {
                &&& header_value(response.headers, "Supported"@) matches Some(value)
                &&& list_elements(value) == views(reply.supported@)
            }
        }),
{
    lemma_header_names();
    match reply.extra_data {
        Some(extra_data) => {
            law_extra_headers_keep_others(
                with_header(empty_headers(), "Public"@, list_text(public_methods())),
                extra_headers_in(extra_data@),
                "Supported"@,
            );
        },
        None => {},
    }
    if is_list(views(reply.supported@)) {
        law_list_read_back(Map::empty(), "Supported"@, views(reply.supported@));
    }
}

/// A notification gets to the peer as a request of RTSP 2.0 without a URI and without a body, which
/// names the session and why it is sent, and tells what the media tells, unless the media sets these
/// headers itself.
pub proof fn law_notification_is_passed_on<V>(session_id: Seq<char>, notify: PlayNotifyMessage<V>)
    ensures
        ({
            let request = notify_request(session_id, notify);
            let headers = request.headers;
            let extra = match notify {
                PlayNotifyMessage::EndOfStream { extra_data, .. } => extra_headers_in(extra_data@),
                PlayNotifyMessage::MediaPropertiesUpdate { extra_data, .. } => extra_headers_in(
                    extra_data@,
                ),
                PlayNotifyMessage::ScaleChange { extra_data, .. } => extra_headers_in(extra_data@),
            };
            &&& request.method == Method::PlayNotify
            &&& request.version == Version::V2_0
            &&& request.request_uri is None
            &&& request.body.len() == 0
            &&& !names_header(extra, "Session"@) ==> header_value(headers, "Session"@) == Some(
                session_id,
            )
            &&& !names_header(extra, "Notify-Reason"@) ==> header_value(headers, "Notify-Reason"@)
                == Some(
                match notify {
                    PlayNotifyMessage::EndOfStream { .. } => "end-of-stream"@,
                    PlayNotifyMessage::MediaPropertiesUpdate { .. } => "media-properties-update"@,
                    PlayNotifyMessage::ScaleChange { .. } => "scale-change"@,
                },
            )
            &&& !names_header(extra, "Range"@) ==> header_value(headers, "Range"@) == Some(
                match notify {
                    PlayNotifyMessage::EndOfStream { range, .. } => range@,
                    PlayNotifyMessage::MediaPropertiesUpdate { range, .. } => range@,
                    PlayNotifyMessage::ScaleChange { range, .. } => range@,
                },
            )
            &&& !names_header(extra, "RTP-Info"@) ==> header_value(headers, "RTP-Info"@)
                == match notify {
                PlayNotifyMessage::EndOfStream { rtp_info, .. } => Some(rtp_info@),
                PlayNotifyMessage::MediaPropertiesUpdate { .. } => None,
                PlayNotifyMessage::ScaleChange { rtp_info, .. } => Some(rtp_info@),
            }
            &&& !names_header(extra, "Media-Properties"@) ==> header_value(
                headers,
                "Media-Properties"@,
            ) == match notify {
                PlayNotifyMessage::EndOfStream { .. } => None,
                PlayNotifyMessage::MediaPropertiesUpdate { media_properties, .. } => Some(
                    media_properties@,
                ),
                PlayNotifyMessage::ScaleChange { media_properties, .. } => Some(media_properties@),
            }
            &&& !names_header(extra, "Media-Range"@) ==> header_value(headers, "Media-Range"@)
                == match notify {
                PlayNotifyMessage::EndOfStream { .. } => None,
                PlayNotifyMessage::MediaPropertiesUpdate { media_range, .. } => Some(media_range@),
                PlayNotifyMessage::ScaleChange { media_range, .. } => Some(media_range@),
            }
            &&& !names_header(extra, "Scale"@) ==> header_value(headers, "Scale"@) == match notify {
                PlayNotifyMessage::ScaleChange { scale, .. } => Some(scale@),
                _ => None,
            }
        }),
{
    let extra = match notify {
        PlayNotifyMessage::EndOfStream { extra_data, .. } => extra_headers_in(extra_data@),
        PlayNotifyMessage::MediaPropertiesUpdate { extra_data, .. } => extra_headers_in(extra_data@),
        PlayNotifyMessage::ScaleChange { extra_data, .. } => extra_headers_in(extra_data@),
    };
    lemma_header_names();
    assert forall|headers: Map<Seq<char>, Seq<char>>, name: Seq<char>|
        !names_header(extra, name) implies #[trigger] header_value(
        with_extra_headers(headers, extra),
        name,
    ) == header_value(headers, name) by {
        law_extra_headers_keep_others(headers, extra, name);
    }
}

} // verus!
