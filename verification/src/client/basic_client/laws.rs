//! What holds of all responses.

use vstd::prelude::*;

use super::describe::describe_response;
use super::lookup::target_stream;
use super::options::{methods_in, options_response, public_methods, OptionsReply};
use super::parameter::parameter_response;
use super::playback::{pause_response, play_response, PauseReply, PlayReply};
use super::setup::{setup_response, SetupReply};
use super::teardown::teardown_response;
use crate::error::{Error, StatusCode};
use crate::extra_data::extra_headers_in;
use crate::headers::{
    empty_headers, header_value, is_list, is_list_element, is_whitespace,
    law_extra_headers_keep_others, law_list_read_back, list_text, lower, names_header, trim,
    with_header,
};
use crate::message::{RequestView, Version};
use crate::text::views;
use crate::url::UrlView;

verus! {

/// Whatever is answered is answered in the version of the request.
pub proof fn law_response_has_version_of_request<V>(
    request: RequestView,
    session_id: Seq<char>,
    play: PlayReply<V>,
    pause: PauseReply<V>,
    setup: SetupReply<V>,
    options: OptionsReply<V>,
    required: Seq<Seq<char>>,
    of_stream: bool,
    presentation_uri: UrlView,
    description: Seq<u8>,
    extra: Seq<(String, String)>,
)
    ensures
        play_response(request.version, session_id, play) matches Ok(r) ==> r.version
            == request.version,
        pause_response(request.version, session_id, pause).version == request.version,
        setup_response(request.version, session_id, setup).version == request.version,
        options_response(request.version, required, options).version == request.version,
        teardown_response(request.version, session_id, of_stream).version == request.version,
        describe_response(request.version, presentation_uri, description, extra).version
            == request.version,
        parameter_response(request) matches Ok(r) ==> r.version == request.version,
{
}

/// In RTSP 1.0 no response to SETUP or PLAY holds a header that only RTSP 2.0 knows, unless the
/// media adds it itself.
pub proof fn law_old_version_has_old_headers<V>(
    session_id: Seq<char>,
    setup: SetupReply<V>,
    play: PlayReply<V>,
)
    requires
        extra_headers_in(setup.extra_data@).len() == 0,
        extra_headers_in(play.extra_data@).len() == 0,
    ensures
        ({
            let headers = setup_response(Version::V1_0, session_id, setup).headers;
            &&& header_value(headers, "Media-Properties"@) is None
            &&& header_value(headers, "Accept-Ranges"@) is None
            &&& header_value(headers, "Media-Range"@) is None
        }),
        play_response(Version::V1_0, session_id, play) matches Ok(r) ==> header_value(
            r.headers,
            "Seek-Style"@,
        ) is None,
{
    reveal_strlit("Session");
    reveal_strlit("Transport");
    reveal_strlit("Media-Properties");
    reveal_strlit("Accept-Ranges");
    reveal_strlit("Media-Range");
    reveal_strlit("Seek-Style");
    reveal_strlit("Range");
    reveal_strlit("RTP-Info");
    reveal_strlit("Scale");
    reveal_strlit("Speed");
    assert(lower("Session"@).len() == 7);
    assert(lower("Transport"@).len() == 9);
    assert(lower("Media-Properties"@).len() == 16);
    assert(lower("Accept-Ranges"@).len() == 13);
    assert(lower("Media-Range"@).len() == 11);
    assert(lower("Seek-Style"@).len() == 10);
    assert(lower("Range"@).len() == 5);
    assert(lower("RTP-Info"@).len() == 8);
    assert(lower("Scale"@).len() == 5);
    assert(lower("Speed"@).len() == 5);
}

/// A request in a session only gets to a stream if the session was made for the presentation that
/// the URI of the request belongs to. Any other is not found.
pub proof fn law_session_and_uri_belong_together(
    uri: UrlView,
    session_media_factory_id: u128,
    session_uri: UrlView,
    media_factory_id: u128,
    presentation_uri: UrlView,
)
    requires
        session_media_factory_id != media_factory_id || session_uri.text != presentation_uri.text,
    ensures
        target_stream(
            uri,
            session_media_factory_id,
            session_uri,
            media_factory_id,
            presentation_uri,
        ) == Err::<Option<Seq<char>>, Error>(Error::spec_status(StatusCode::NotFound)),
{
}

/// What holds no comma and no white space can be told apart in a list.
proof fn lemma_plain_element(element: Seq<char>)
    requires
        forall|i: int|
            0 <= i < element.len() ==> #[trigger] element[i] != ',' && !is_whitespace(element[i]),
    ensures
        is_list_element(element),
{
    if element.len() > 0 {
        assert(!is_whitespace(element[0]));
        assert(!is_whitespace(element[element.len() - 1]));
    }
    assert(trim(element) == element);
}

/// The methods that the client answers can be told apart in a list.
proof fn lemma_public_methods()
    ensures
        is_list(public_methods()),
{
    reveal_strlit("OPTIONS");
    reveal_strlit("DESCRIBE");
    reveal_strlit("SETUP");
    reveal_strlit("PLAY");
    reveal_strlit("PAUSE");
    reveal_strlit("TEARDOWN");
    reveal_strlit("GET_PARAMETER");
    reveal_strlit("SET_PARAMETER");
    lemma_plain_element("OPTIONS"@);
    lemma_plain_element("DESCRIBE"@);
    lemma_plain_element("SETUP"@);
    lemma_plain_element("PLAY"@);
    lemma_plain_element("PAUSE"@);
    lemma_plain_element("TEARDOWN"@);
    lemma_plain_element("GET_PARAMETER"@);
    lemma_plain_element("SET_PARAMETER"@);
}

/// Unless the media sets these headers itself, a response to OPTIONS names exactly the methods that
/// the client answers, and, if it is a success, the methods that are allowed exactly if they are
/// others than those.
pub proof fn law_allowed_methods_differ<V>(
    version: Version,
    required: Seq<Seq<char>>,
    reply: OptionsReply<V>,
)
    requires
        reply.extra_data matches Some(extra_data) ==> !names_header(
            extra_headers_in(extra_data@),
            "Public"@,
        ) && !names_header(extra_headers_in(extra_data@), "Allow"@),
    ensures
        ({
            let response = options_response(version, required, reply);
            let headers = response.headers;
            &&& methods_in(headers, "Public"@) == Some(public_methods())
            &&& header_value(headers, "Allow"@) is Some <==> {
                &&& response.status == StatusCode::Success
                &&& reply.allow matches Some(allow) && allow@.len() > 0 && views(allow@)
                    != public_methods()
            }
            &&& reply.allow matches Some(allow) ==> header_value(headers, "Allow"@) is Some && is_list(
                views(allow@),
            ) ==> methods_in(headers, "Allow"@) == Some(views(allow@))
        }),
{
    reveal_strlit("Public");
    reveal_strlit("Allow");
    reveal_strlit("Supported");
    reveal_strlit("Unsupported");
    assert(lower("Public"@).len() == 6 && lower("Allow"@).len() == 5 && lower("Supported"@).len()
        == 9 && lower("Unsupported"@).len() == 11);
    lemma_public_methods();
    law_list_read_back(Map::empty(), "Public"@, public_methods());
    if let Some(extra_data) = reply.extra_data {
        let headers = with_header(empty_headers(), "Public"@, list_text(public_methods()));
        law_extra_headers_keep_others(headers, extra_headers_in(extra_data@), "Public"@);
        law_extra_headers_keep_others(headers, extra_headers_in(extra_data@), "Allow"@);
    }
    if let Some(allow) = reply.allow {
        if is_list(views(allow@)) {
            law_list_read_back(Map::empty(), "Allow"@, views(allow@));
        }
    }
}

} // verus!
