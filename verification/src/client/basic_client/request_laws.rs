//! What is read in requests.

use vstd::prelude::*;

use super::client::{handles, Handling};
use super::describe::{describe_started, DescribeStart};
use super::lookup::SessionLookup;
use super::options::{options_started, OptionsStart};
use super::parameter::parameter_answered;
use super::playback::{pause_started, play_started, PlayRequest};
use super::setup::{setup_started, SetupRequest, SetupStart};
use super::teardown::teardown_started;
use crate::error::{Error, StatusCode};
use crate::headers::{
    header_value, is_accept, is_range, is_scale, is_speed, is_whitespace, list_elements,
    range_types, reads_as_transports, trim, trim_end, typed_number, typed_session,
};
use crate::message::{Method, RequestView};
use crate::text::{lemma_first_index, lemma_split_concat, lemma_split_one, split, views};
use crate::url::opt_view;

verus! {

/// What is to be played is just what the headers of a PLAY request say, in either version. It is read
/// exactly if each of these headers that is there can be read, and there are a session and a URI.
pub proof fn law_play_asks_for_headers(
    request: RequestView,
    r: Result<(PlayRequest, SessionLookup), Error>,
)
    requires
        play_started(request, r),
    ensures
        ({
            let range = header_value(request.headers, "Range"@);
            let scale = header_value(request.headers, "Scale"@);
            let speed = header_value(request.headers, "Speed"@);
            let session = header_value(request.headers, "Session"@);
            let headers_are_good = {
                &&& range matches Some(v) ==> is_range(v)
                &&& scale matches Some(v) ==> is_scale(v)
                &&& speed matches Some(v) ==> is_speed(v)
            };
            &&& r is Ok <==> {
                &&& headers_are_good
                &&& typed_session(session) matches Ok(Some(_))
                &&& request.request_uri is Some
            }
            &&& r matches Ok((play, next)) ==> {
                &&& play.version == request.version
                &&& opt_view(play.range) == range
                &&& opt_view(play.scale) == scale
                &&& opt_view(play.speed) == speed
                &&& opt_view(play.seek_style) == header_value(request.headers, "Seek-Style"@)
                &&& typed_session(session) == Ok::<_, ()>(Some(next.session_id@))
                &&& request.request_uri == Some(next.uri@)
            }
            &&& r matches Err(err) ==> err == if headers_are_good && session is None {
                Error::spec_status(StatusCode::SessionNotFound)
            } else {
                Error::spec_status(StatusCode::BadRequest)
            }
        }),
{
}

/// A PAUSE request is read exactly if there are a session and a URI, and is for these.
pub proof fn law_pause_asks_for_session(request: RequestView, r: Result<SessionLookup, Error>)
    requires
        pause_started(request, r),
    ensures
        ({
            let session = header_value(request.headers, "Session"@);
            &&& r is Ok <==> {
                &&& typed_session(session) matches Ok(Some(_))
                &&& request.request_uri is Some
            }
            &&& r matches Ok(next) ==> {
                &&& typed_session(session) == Ok::<_, ()>(Some(next.session_id@))
                &&& request.request_uri == Some(next.uri@)
            }
            &&& r matches Err(err) ==> err == if session is None {
                Error::spec_status(StatusCode::SessionNotFound)
            } else {
                Error::spec_status(StatusCode::BadRequest)
            }
        }),
{
}

/// A TEARDOWN request is read exactly if there are a session and a URI, and is for these.
pub proof fn law_teardown_asks_for_session(request: RequestView, r: Result<SessionLookup, Error>)
    requires
        teardown_started(request, r),
    ensures
        ({
            let session = header_value(request.headers, "Session"@);
            &&& r is Ok <==> {
                &&& typed_session(session) matches Ok(Some(_))
                &&& request.request_uri is Some
            }
            &&& r matches Ok(next) ==> {
                &&& typed_session(session) == Ok::<_, ()>(Some(next.session_id@))
                &&& request.request_uri == Some(next.uri@)
            }
            &&& r matches Err(err) ==> err == Error::spec_status(StatusCode::BadRequest)
        }),
{
}

/// A SETUP request is read exactly if there are transports and a URI, and each header that is there
/// can be read. It asks for just what the headers say. It is for its session if it names one, else it
/// belongs to the other requests with its number if it has one, else it begins a session.
pub proof fn law_setup_asks_for_headers(
    request: RequestView,
    r: Result<(SetupRequest, SetupStart), Error>,
)
    requires
        setup_started(request, r),
    ensures
        ({
            let pipelined = typed_number(header_value(request.headers, "Pipelined-Requests"@));
            let session = typed_session(header_value(request.headers, "Session"@));
            let transport = header_value(request.headers, "Transport"@);
            &&& r is Ok <==> {
                &&& pipelined is Ok
                &&& session is Ok
                &&& transport matches Some(v) && reads_as_transports(v)
                &&& request.request_uri is Some
            }
            &&& r matches Err(err) ==> err == Error::spec_status(StatusCode::BadRequest)
            &&& r matches Ok((setup, start)) ==> {
                &&& setup.version == request.version
                &&& transport == Some(setup.transports@)
                &&& opt_view(setup.accept_ranges) == header_value(request.headers, "Accept-Ranges"@)
                &&& setup.pipelined_request is Some <==> pipelined->Ok_0 is Some
                &&& match start {
                    SetupStart::Session(next) => session == Ok::<_, ()>(Some(next.session_id@))
                        && request.request_uri == Some(next.uri@),
                    SetupStart::Pipelined(next) => {
                        &&& session->Ok_0 is None
                        &&& pipelined == Ok::<_, ()>(Some(next.request as nat))
                        &&& setup.pipelined_request == Some(next.request)
                        &&& request.request_uri == Some(next.uri@)
                    },
                    SetupStart::Create(next) => {
                        &&& session->Ok_0 is None
                        &&& pipelined->Ok_0 is None
                        &&& request.request_uri == Some(next.uri@)
                        &&& !next.report
                    },
                }
            }
        }),
{
}

/// An OPTIONS request is for the server itself if it has no URI, else for its session if it has one,
/// else for the URI. It asks for just the features that the headers list.
pub proof fn law_options_ask_for_headers(request: RequestView, r: OptionsStart)
    requires
        options_started(request, r),
    ensures
        ({
            let session = typed_session(header_value(request.headers, "Session"@));
            let options = match r {
                OptionsStart::Server(options) => options,
                OptionsStart::Session(options, _) => options,
                OptionsStart::Uri(options, _) => options,
            };
            &&& options.version == request.version
            &&& views(options.supported@) == match header_value(request.headers, "Supported"@) {
                Some(value) => list_elements(value),
                None => Seq::empty(),
            }
            &&& views(options.require@) == match header_value(request.headers, "Require"@) {
                Some(value) => list_elements(value),
                None => Seq::empty(),
            }
            &&& r is Server <==> request.request_uri is None
            &&& r is Session <==> request.request_uri is Some && (session matches Ok(Some(_)))
            &&& r matches OptionsStart::Session(_, next) ==> session == Ok::<_, ()>(
                Some(next.session_id@),
            ) && request.request_uri == Some(next.uri@)
            &&& r matches OptionsStart::Uri(_, next) ==> request.request_uri == Some(next.uri@)
        }),
{
}

/// Every request is handled by what handles its method. A method that nothing handles is not allowed.
pub proof fn law_requests_are_handled_by_method(request: RequestView, handling: Handling)
    requires
        handles(request, handling),
    ensures
        handling is Options <==> request.method == Method::Options,
        handling is Describe <==> request.method == Method::Describe,
        handling is Setup <==> request.method == Method::Setup,
        handling is Play <==> request.method == Method::Play,
        handling is Pause <==> request.method == Method::Pause,
        handling is Teardown <==> request.method == Method::Teardown,
        handling matches Handling::Options(r) ==> options_started(request, r),
        handling matches Handling::Describe(r) ==> describe_started(request, r),
        handling matches Handling::Setup(r) ==> setup_started(request, r),
        handling matches Handling::Play(r) ==> play_started(request, r),
        handling matches Handling::Pause(r) ==> pause_started(request, r),
        handling matches Handling::Teardown(r) ==> teardown_started(request, r),
        handling matches Handling::Answer(r) ==> if request.method == Method::GetParameter
            || request.method == Method::SetParameter {
            parameter_answered(request, r)
        } else {
            r matches Ok(response) && response@.status == StatusCode::MethodNotAllowed
                && response@.version == request.version
        },
{
}

/// What is left of `s` without the white space at its end: everything up to its last character that
/// is none.
proof fn lemma_trim_end(s: Seq<char>)
    ensures
        trim_end(s).len() <= s.len(),
        trim_end(s) == s.take(trim_end(s).len() as int),
        trim_end(s).len() > 0 ==> !is_whitespace(trim_end(s).last()),
        forall|i: int| trim_end(s).len() <= i < s.len() ==> is_whitespace(#[trigger] s[i]),
    decreases s.len(),
{
    if s.len() > 0 && is_whitespace(s.last()) {
        lemma_trim_end(s.drop_last());
        let n = trim_end(s).len() as int;
        assert(s.drop_last().take(n) =~= s.take(n));
        assert forall|i: int| n <= i < s.len() implies is_whitespace(#[trigger] s[i]) by {
            if i < s.len() - 1 {
                assert(s.drop_last()[i] == s[i]);
            }
        }
    } else {
        assert(s.take(s.len() as int) =~= s);
    }
}

/// A type and a subtype with a slash between them are read as these, whatever parameters follow.
pub proof fn law_media_type_read_back(
    media_type: Seq<char>,
    subtype: Seq<char>,
    parameters: Seq<char>,
)
    requires
        subtype.len() > 0,
        forall|i: int|
            0 <= i < media_type.len() ==> #[trigger] media_type[i] != '/' && media_type[i] != ';'
                && !is_whitespace(media_type[i]),
        forall|i: int|
            0 <= i < subtype.len() ==> #[trigger] subtype[i] != ';' && !is_whitespace(subtype[i]),
    ensures
        range_types(media_type.push('/') + subtype) == Some((media_type, subtype)),
        range_types((media_type.push('/') + subtype).push(';') + parameters) == Some(
            (media_type, subtype),
        ),
{
    let text = media_type.push('/') + subtype;
    let n = text.len() as int;
    assert(!is_whitespace('/'));
    assert forall|i: int| 0 <= i < n implies #[trigger] text[i] != ';' && !is_whitespace(
        text[i],
    ) by {
        if i < media_type.len() {
            assert(text[i] == media_type[i]);
        } else if i > media_type.len() {
            assert(text[i] == subtype[i - media_type.len() - 1]);
        }
    }
    assert(text[0] == text[0] && !is_whitespace(text[0]));
    assert(!is_whitespace(text.last())) by {
        assert(text[n - 1] == text.last());
    }
    assert(trim(text) == text);
    assert(!text.contains(';')) by {
        if text.contains(';') {
            let k = choose|k: int| 0 <= k < text.len() && text[k] == ';';
            assert(text[k] != ';');
        }
    }
    lemma_split_one(text, ';');
    lemma_first_index(text, '/', media_type.len() as int);
    assert(text.take(media_type.len() as int) =~= media_type);
    assert(text.skip(media_type.len() as int + 1) =~= subtype);
    let long = text.push(';') + parameters;
    assert(long[0] == text[0]);
    lemma_trim_end(long);
    let trimmed = trim(long);
    assert(trimmed == trim_end(long));
    assert(!is_whitespace(';'));
    assert(long[n] == ';');
    assert(trimmed.len() > n);
    assert forall|i: int| 0 <= i < n implies trimmed[i] != ';' by {
        assert(trimmed[i] == long[i] && long[i] == text[i]);
    }
    assert(trimmed[n] == long[n]);
    lemma_first_index(trimmed, ';', n);
    assert(trimmed.take(n) =~= text);
    assert(split(trimmed, ';')[0] == text);
}

/// A DESCRIBE request for a URI is acceptable if it does not say what is, or if any media type that
/// it lists, at any place, is that of a session description or stands for it. Otherwise it is not.
/// One without a URI finds nothing.
pub proof fn law_description_is_acceptable(request: RequestView, r: DescribeStart, i: int)
    requires
        describe_started(request, r),
    ensures
        request.request_uri is None ==> (r matches DescribeStart::Answer(Ok(response))
            && response@.status == StatusCode::NotFound && response@.version == request.version),
        request.request_uri matches Some(uri) ==> match header_value(request.headers, "Accept"@) {
            None => r matches DescribeStart::Find(next) && next.uri@ == uri,
            Some(value) => {
                let ranges = split(value, ',');
                &&& !is_accept(value) ==> (r matches DescribeStart::Answer(Err(err)) && err
                    == Error::spec_status(StatusCode::BadRequest))
                &&& is_accept(value) && 0 <= i < ranges.len() && ({
                    let types = range_types(ranges[i])->0;
                    types.0 == "*"@ || types.0 == "application"@ && (types.1 == "sdp"@ || types.1
                        == "*"@)
                }) ==> (r matches DescribeStart::Find(next) && next.uri@ == uri)
                &&& is_accept(value) && (forall|j: int|
                    0 <= j < ranges.len() ==> {
                        let types = range_types(#[trigger] ranges[j])->0;
                        types.0 != "*"@ && (types.0 == "application"@ ==> types.1 != "sdp"@
                            && types.1 != "*"@)
                    }) ==> (r matches DescribeStart::Answer(Ok(response)) && response@.status
                    == StatusCode::NotAcceptable && response@.version == request.version)
            },
        },
{
    match header_value(request.headers, "Accept"@) {
        Some(value) => {
            if is_accept(value) && 0 <= i < split(value, ',').len() {
                assert(range_types(split(value, ',')[i]) is Some);
                if super::describe::range_accepts_sdp(split(value, ',')[i]) {
                    assert(super::describe::accepts_sdp(value));
                }
            }
        },
        None => {},
    }
}

/// The types that stand for session descriptions are read as what they are.
proof fn lemma_description_types()
    ensures
        forall|i: int| 0 <= i < "application"@.len() ==> is_type_char(#[trigger] "application"@[i]),
        forall|i: int| 0 <= i < "sdp"@.len() ==> is_type_char(#[trigger] "sdp"@[i]),
        forall|i: int| 0 <= i < "*"@.len() ==> is_type_char(#[trigger] "*"@[i]),
        "sdp"@.len() > 0,
        "*"@.len() > 0,
{
    reveal_strlit("application");
    reveal_strlit("sdp");
    reveal_strlit("*");
}

/// Whether `c` can stand in a media type, and ends nothing there.
pub open spec fn is_type_char(c: char) -> bool {
    c != '/' && c != ';' && !is_whitespace(c)
}

/// A session description is acceptable for a request that lists `application/sdp`,
/// `application/*` or `*/*` anywhere, with parameters or without.
pub proof fn law_listed_description_is_acceptable(
    request: RequestView,
    r: DescribeStart,
    i: int,
    media_type: Seq<char>,
    subtype: Seq<char>,
    parameters: Seq<char>,
)
    requires
        describe_started(request, r),
        request.request_uri is Some,
        header_value(request.headers, "Accept"@) matches Some(value) && is_accept(value) && 0 <= i
            < split(value, ',').len() && (split(value, ',')[i] == media_type.push('/') + subtype
            || split(value, ',')[i] == (media_type.push('/') + subtype).push(';') + parameters),
        media_type == "application"@ && (subtype == "sdp"@ || subtype == "*"@) || media_type == "*"@
            && subtype == "*"@,
    ensures
        r matches DescribeStart::Find(next) && Some(next.uri@) == request.request_uri,
{
    lemma_description_types();
    assert forall|k: int| 0 <= k < media_type.len() implies #[trigger] media_type[k] != '/'
        && media_type[k] != ';' && !is_whitespace(media_type[k]) by {
        assert(is_type_char(media_type[k]));
    }
    assert forall|k: int| 0 <= k < subtype.len() implies #[trigger] subtype[k] != ';'
        && !is_whitespace(subtype[k]) by {
        assert(is_type_char(subtype[k]));
    }
    law_media_type_read_back(media_type, subtype, parameters);
    law_description_is_acceptable(request, r, i);
}

/// More media types at either end of the list never make a description unacceptable.
pub proof fn law_more_is_still_acceptable(
    request: RequestView,
    wider: RequestView,
    value: Seq<char>,
    more: Seq<char>,
    r: DescribeStart,
    wider_r: DescribeStart,
)
    requires
        describe_started(request, r),
        describe_started(wider, wider_r),
        r is Find,
        header_value(request.headers, "Accept"@) == Some(value),
        wider.request_uri == request.request_uri,
        header_value(wider.headers, "Accept"@) == Some(value.push(',') + more) || header_value(
            wider.headers,
            "Accept"@,
        ) == Some(more.push(',') + value),
        is_accept(header_value(wider.headers, "Accept"@)->0),
    ensures
        wider_r is Find,
{
    let ranges = split(value, ',');
    let i = choose|i: int|
        0 <= i < ranges.len() && super::describe::range_accepts_sdp(#[trigger] ranges[i]);
    lemma_split_concat(value, ',', more);
    lemma_split_concat(more, ',', value);
    let wide = header_value(wider.headers, "Accept"@)->0;
    if wide == value.push(',') + more {
        assert(split(wide, ',')[i] == ranges[i]);
        law_description_is_acceptable(wider, wider_r, i);
    } else {
        let k = split(more, ',').len() as int;
        assert(split(wide, ',')[k + i] == ranges[i]);
        law_description_is_acceptable(wider, wider_r, k + i);
    }
}

} // verus!
