//! Headers of requests and responses.
//!
//! The headers themselves are those of `rtsp_types`. What they hold is a map from the name of a
//! header, in lower case, to its value.

use vstd::prelude::*;

use crate::rtp_info::{
    rtp_info_views, stream_info_views, v1_text, v2_text, RtpInfo, RtpInfos, RtpInfosView, StreamInfo,
};
use crate::text::{lemma_split_one, lemma_split_push, split, views};
use crate::transport::{has_stray_quote, stray_quote};

verus! {

/// `rtsp_types::Headers`, of which nothing is read but through the functions below.
#[verifier::external_type_specification]
#[verifier::external_body]
pub struct ExHeaders(rtsp_types::Headers);

/// The values of the headers, by their names in lower case.
pub uninterp spec fn header_map(headers: rtsp_types::Headers) -> Map<Seq<char>, Seq<char>>;

/// An ASCII letter in lower case, any other character as it is.
pub open spec fn lower_char(c: char) -> char {
    if 'A' <= c <= 'Z' {
        (c as u32 + 32) as char
    } else {
        c
    }
}

/// A name with its ASCII letters in lower case.
pub open spec fn lower(name: Seq<char>) -> Seq<char> {
    name.map_values(|c: char| lower_char(c))
}

/// Whether all characters are ASCII, as those of a header's name have to be.
pub open spec fn ascii(name: Seq<char>) -> bool {
    forall|i: int| 0 <= i < name.len() ==> (#[trigger] name[i] as u32) < 128
}

/// The headers with the header `name` set to `value`. No header has a name that is not ASCII.
pub open spec fn with_header(
    headers: Map<Seq<char>, Seq<char>>,
    name: Seq<char>,
    value: Seq<char>,
) -> Map<Seq<char>, Seq<char>> {
    if ascii(name) {
        headers.insert(lower(name), value)
    } else {
        headers
    }
}

/// The value of the header `name`.
pub open spec fn header_value(headers: Map<Seq<char>, Seq<char>>, name: Seq<char>) -> Option<
    Seq<char>,
> {
    if ascii(name) && headers.dom().contains(lower(name)) {
        Some(headers[lower(name)])
    } else {
        None
    }
}

/// The characters that Unicode calls white space.
pub open spec fn is_whitespace(c: char) -> bool {
    let n = c as u32;
    ||| 0x9 <= n <= 0xd
    ||| n == 0x20
    ||| n == 0x85
    ||| n == 0xa0
    ||| n == 0x1680
    ||| 0x2000 <= n <= 0x200a
    ||| n == 0x2028
    ||| n == 0x2029
    ||| n == 0x202f
    ||| n == 0x205f
    ||| n == 0x3000
}

/// `s` without the white space at its end.
pub open spec fn trim_end(s: Seq<char>) -> Seq<char>
    decreases s.len(),
{
    if s.len() > 0 && is_whitespace(s.last()) {
        trim_end(s.drop_last())
    } else {
        s
    }
}

/// `s` without the white space around it.
pub open spec fn trim(s: Seq<char>) -> Seq<char>
    decreases s.len(),
{
    if s.len() > 0 && is_whitespace(s[0]) {
        trim(s.skip(1))
    } else {
        trim_end(s)
    }
}

/// The elements of a comma separated list, without the white space around them.
pub open spec fn list_elements(value: Seq<char>) -> Seq<Seq<char>> {
    split(value, ',').map_values(|element: Seq<char>| trim(element))
}

/// A list as it is written: the elements, with a comma and a space behind what is there already.
pub open spec fn list_text(elements: Seq<Seq<char>>) -> Seq<char>
    decreases elements.len(),
{
    if elements.len() == 0 {
        Seq::empty()
    } else {
        let before = list_text(elements.drop_last());
        if before.len() == 0 {
            elements.last()
        } else {
            before + ", "@ + elements.last()
        }
    }
}

/// The digit `d`.
pub open spec fn digit(d: nat) -> char {
    (48 + d) as char
}

/// `n` in decimal digits.
pub open spec fn decimal_digits(n: nat) -> Seq<char>
    decreases n,
{
    if n < 10 {
        seq![digit(n)]
    } else {
        decimal_digits(n / 10).push(digit(n % 10))
    }
}

/// What a sequence of digits stands for.
pub open spec fn digits_value(s: Seq<char>) -> Option<nat>
    decreases s.len(),
{
    if s.len() == 0 {
        Some(0)
    } else if '0' <= s.last() <= '9' {
        match digits_value(s.drop_last()) {
            Some(n) => Some(n * 10 + (s.last() as nat - 48) as nat),
            None => None,
        }
    } else {
        None
    }
}

/// The number that is written as `s`: digits, after a plus sign or none, up to `max`.
pub open spec fn decimal_value(s: Seq<char>, max: nat) -> Option<nat> {
    let digits = if s.len() > 0 && s[0] == '+' {
        s.skip(1)
    } else {
        s
    };
    match digits_value(digits) {
        Some(n) => if digits.len() > 0 && n <= max {
            Some(n)
        } else {
            None
        },
        None => None,
    }
}

/// The first element from `i` on that starts with `prefix`, without it.
pub open spec fn find_prefixed(elements: Seq<Seq<char>>, i: int, prefix: Seq<char>) -> Option<
    Seq<char>,
>
    decreases elements.len() - i,
{
    if i >= elements.len() {
        None
    } else if prefix.is_prefix_of(elements[i]) {
        Some(elements[i].skip(prefix.len() as int))
    } else {
        find_prefixed(elements, i + 1, prefix)
    }
}

/// The session id in the value of a `Session` header: what stands before the first semicolon. If
/// there is a timeout after it, that has to be a number.
pub open spec fn session_value(value: Seq<char>) -> Option<Seq<char>> {
    let parts = split(value, ';');
    match find_prefixed(parts, 1, "timeout="@) {
        Some(timeout) => if decimal_value(timeout, u64::MAX as nat) is Some {
            Some(parts[0])
        } else {
            None
        },
        None => Some(parts[0]),
    }
}

/// The type and the subtype of a media type range, if there is a slash between two.
pub open spec fn range_types(range: Seq<char>) -> Option<(Seq<char>, Seq<char>)> {
    let media_type = trim(split(trim(range), ';')[0]);
    let i = crate::text::first_index(media_type, '/');
    if 0 <= i < media_type.len() {
        Some((media_type.take(i), media_type.skip(i + 1)))
    } else {
        None
    }
}

/// What a header that holds a number of 32 bits is read as: nothing if it is not there, an error
/// if its value is no such number.
pub open spec fn typed_number(value: Option<Seq<char>>) -> Result<Option<nat>, ()> {
    match value {
        None => Ok(None),
        Some(value) => match decimal_value(value, u32::MAX as nat) {
            Some(n) => Ok(Some(n)),
            None => Err(()),
        },
    }
}

/// What a `Session` header is read as: nothing if it is not there, an error if its value can't be
/// read.
pub open spec fn typed_session(value: Option<Seq<char>>) -> Result<Option<Seq<char>>, ()> {
    match value {
        None => Ok(None),
        Some(value) => match session_value(value) {
            Some(id) => Ok(Some(id)),
            None => Err(()),
        },
    }
}

/// A typed number as it is seen in contracts.
pub open spec fn number_view(r: Result<Option<u32>, ()>) -> Result<Option<nat>, ()> {
    match r {
        Ok(Some(n)) => Ok(Some(n as nat)),
        Ok(None) => Ok(None),
        Err(()) => Err(()),
    }
}

/// A typed string as it is seen in contracts.
pub open spec fn string_view(r: Result<Option<String>, ()>) -> Result<Option<Seq<char>>, ()> {
    match r {
        Ok(Some(s)) => Ok(Some(s@)),
        Ok(None) => Ok(None),
        Err(()) => Err(()),
    }
}

/// No headers at all.
pub open spec fn empty_headers() -> Map<Seq<char>, Seq<char>> {
    Map::empty()
}

/// Whether a value without stray quotes can be read as a `Transport` header.
pub uninterp spec fn is_transports(value: Seq<char>) -> bool;

/// Whether a value can be read as a `Transport` header. None with a stray quote can.
pub open spec fn reads_as_transports(value: Seq<char>) -> bool {
    !has_stray_quote(value) && is_transports(value)
}

/// Whether a value can be read as a `Range` header.
pub uninterp spec fn is_range(value: Seq<char>) -> bool;

/// Whether a value can be read as a `Scale` header.
pub uninterp spec fn is_scale(value: Seq<char>) -> bool;

/// Whether a value can be read as a `Speed` header.
pub uninterp spec fn is_speed(value: Seq<char>) -> bool;

/// The headers of a response that `rtsp_types::Response::builder` has just made: none.
#[verifier::external_body]
fn no_headers() -> (r: rtsp_types::Headers)
    ensures
        header_map(r) == empty_headers(),
{
    let response = rtsp_types::Response::builder(
        rtsp_types::Version::V2_0,
        rtsp_types::StatusCode::Ok,
    ).empty();
    AsRef::<rtsp_types::Headers>::as_ref(&response).clone()
}

/// `Headers::insert` sets a header, whatever its value was. Names differ by more than their case.
/// `HeaderName::try_from` takes ASCII names only; under any other name nothing is set.
#[verifier::external_body]
fn set_header(headers: &mut rtsp_types::Headers, name: &str, value: &str)
    ensures
        header_map(*final(headers)) == with_header(header_map(*old(headers)), name@, value@),
{
    if let Ok(name) = std::convert::TryFrom::try_from(name) {
        headers.insert(name, value);
    }
}

/// `Headers::get` gives the value of a header. Names differ by more than their case.
/// `HeaderName::try_from` takes ASCII names only; under any other name there is nothing.
#[verifier::external_body]
fn get_header(headers: &rtsp_types::Headers, name: &str) -> (r: Option<String>)
    ensures
        crate::url::opt_view(r) == header_value(header_map(*headers), name@),
{
    let name = std::convert::TryFrom::try_from(name).ok()?;
    headers.get(&name).map(|value| value.as_str().to_string())
}

/// `Headers::get_typed` for `headers::CSeq`: the value has to be a number of 32 bits.
#[verifier::external_body]
fn get_cseq(headers: &rtsp_types::Headers) -> (r: Result<Option<u32>, ()>)
    ensures
        number_view(r) == typed_number(header_value(header_map(*headers), "CSeq"@)),
{
    headers.get_typed::<rtsp_types::headers::CSeq>().map(|cseq| cseq.map(u32::from)).map_err(|_| ())
}

/// `Headers::get_typed` for `headers::PipelinedRequests`: the value has to be a number of 32 bits.
#[verifier::external_body]
fn get_pipelined_requests(headers: &rtsp_types::Headers) -> (r: Result<Option<u32>, ()>)
    ensures
        number_view(r) == typed_number(header_value(header_map(*headers), "Pipelined-Requests"@)),
{
    headers.get_typed::<rtsp_types::headers::PipelinedRequests>().map(|p| p.map(u32::from)).map_err(
        |_| (),
    )
}

/// `Headers::get_typed` for `headers::Session`, of which the session id is kept.
#[verifier::external_body]
fn get_session(headers: &rtsp_types::Headers) -> (r: Result<Option<String>, ()>)
    ensures
        string_view(r) == typed_session(header_value(header_map(*headers), "Session"@)),
{
    headers.get_typed::<rtsp_types::headers::Session>().map(|s| s.map(|s| s.0)).map_err(|_| ())
}

/// `Headers::get_typed` for `headers::Require`: the elements of the list, or none without a header.
#[verifier::external_body]
fn get_require(headers: &rtsp_types::Headers) -> (r: Option<Vec<String>>)
    ensures
        match header_value(header_map(*headers), "Require"@) {
            Some(v) => r matches Some(l) && views(l@) == list_elements(v),
            None => r is None,
        },
{
    headers.get_typed::<rtsp_types::headers::Require>().ok()?.map(|l| l.to_vec())
}

/// `Headers::get_typed` for `headers::Supported`: the elements of the list, or none without a
/// header.
#[verifier::external_body]
fn get_supported(headers: &rtsp_types::Headers) -> (r: Option<Vec<String>>)
    ensures
        match header_value(header_map(*headers), "Supported"@) {
            Some(v) => r matches Some(l) && views(l@) == list_elements(v),
            None => r is None,
        },
{
    headers.get_typed::<rtsp_types::headers::Supported>().ok()?.map(|l| l.to_vec())
}

/// `Headers::get_typed` for `headers::Public`: the names of the methods, or none without a header.
#[verifier::external_body]
fn get_public(headers: &rtsp_types::Headers) -> (r: Option<Vec<String>>)
    ensures
        match header_value(header_map(*headers), "Public"@) {
            Some(v) => r matches Some(l) && views(l@) == list_elements(v),
            None => r is None,
        },
{
    let public = headers.get_typed::<rtsp_types::headers::Public>().ok()??;
    Some(public.iter().map(|m| <&str>::from(m).to_string()).collect())
}

/// Whether all of the media type ranges can be read.
pub open spec fn is_accept(value: Seq<char>) -> bool {
    forall|i: int|
        0 <= i < split(value, ',').len() ==> range_types(#[trigger] split(value, ',')[i]) is Some
}

/// Whether a media type range was read as it is written: a star stands for anything.
pub open spec fn reads_as_range(range: (Option<String>, Option<String>), text: Seq<char>) -> bool {
    match range_types(text) {
        Some((t, s)) => {
            &&& match range.0 {
                Some(media_type) => t != "*"@ && media_type@ == if t == "multipart"@ {
                    "Multipart"@
                } else {
                    t
                },
                None => t == "*"@,
            }
            &&& match range.1 {
                Some(subtype) => s != "*"@ && subtype@ == s,
                None => s == "*"@,
            }
        },
        None => false,
    }
}

/// `Headers::get_typed` for `headers::Accept`: the type and subtype of each range, without the
/// parameters. The type `multipart` is named in upper case by `MediaType::as_str`.
#[verifier::external_body]
fn get_accept(headers: &rtsp_types::Headers) -> (r: Result<
    Option<Vec<(Option<String>, Option<String>)>>,
    (),
>)
    ensures
        match header_value(header_map(*headers), "Accept"@) {
            None => r matches Ok(None),
            Some(value) => if is_accept(value) {
                r matches Ok(Some(ranges)) && ranges@.len() == split(value, ',').len() && forall|
                    i: int,
                |
                    0 <= i < ranges@.len() ==> reads_as_range(
                        #[trigger] ranges@[i],
                        split(value, ',')[i],
                    )
            } else {
                r is Err
            },
        },
{
    let accept = headers.get_typed::<rtsp_types::headers::Accept>().map_err(|_| ())?;
    Ok(accept.map(|a| {
        a.iter().map(|m| {
            (m.type_.as_ref().map(|t| t.as_str().to_string()), m.subtype.clone())
        }).collect()
    }))
}

/// Whether `Headers::get_typed` gives no error for `headers::Transports`. What makes a value
/// readable is not written out but named.
///
/// It panics where it unquotes the modes and the addresses of an RTP transport: it slices a lone
/// quote, and asserts that a character follows each backslash. Each such value has a stray quote.
#[verifier::external_body]
fn transports_readable(headers: &rtsp_types::Headers) -> (r: bool)
    requires
        header_value(header_map(*headers), "Transport"@) matches Some(v) ==> !has_stray_quote(v),
    ensures
        r == match header_value(header_map(*headers), "Transport"@) {
            Some(v) => is_transports(v),
            None => true,
        },
{
    headers.get_typed::<rtsp_types::headers::Transports>().is_ok()
}

/// Whether `Headers::get_typed` gives no error for `headers::AcceptRanges`. There never is one: a
/// unit that is not known is taken as an extension.
#[verifier::external_body]
fn accept_ranges_readable(headers: &rtsp_types::Headers) -> (r: bool)
    ensures
        r,
{
    headers.get_typed::<rtsp_types::headers::AcceptRanges>().is_ok()
}

/// Whether `Headers::get_typed` gives no error for `headers::Range`. What makes a value readable is
/// not written out but named.
#[verifier::external_body]
fn range_readable(headers: &rtsp_types::Headers) -> (r: bool)
    ensures
        r == match header_value(header_map(*headers), "Range"@) {
            Some(v) => is_range(v),
            None => true,
        },
{
    headers.get_typed::<rtsp_types::headers::Range>().is_ok()
}

/// Whether `Headers::get_typed` gives no error for `headers::SeekStyle`. There never is one: a
/// style that is not known is taken as an extension.
#[verifier::external_body]
fn seek_style_readable(headers: &rtsp_types::Headers) -> (r: bool)
    ensures
        r,
{
    headers.get_typed::<rtsp_types::headers::SeekStyle>().is_ok()
}

/// Whether `Headers::get_typed` gives no error for `headers::Scale`. What makes a value readable is
/// not written out but named.
#[verifier::external_body]
fn scale_readable(headers: &rtsp_types::Headers) -> (r: bool)
    ensures
        r == match header_value(header_map(*headers), "Scale"@) {
            Some(v) => is_scale(v),
            None => true,
        },
{
    headers.get_typed::<rtsp_types::headers::Scale>().is_ok()
}

/// Whether `Headers::get_typed` gives no error for `headers::Speed`. What makes a value readable is
/// not written out but named.
#[verifier::external_body]
fn speed_readable(headers: &rtsp_types::Headers) -> (r: bool)
    ensures
        r == match header_value(header_map(*headers), "Speed"@) {
            Some(v) => is_speed(v),
            None => true,
        },
{
    headers.get_typed::<rtsp_types::headers::Speed>().is_ok()
}

/// `Headers::insert_typed` for `headers::CSeq` writes the number in digits.
#[verifier::external_body]
fn set_cseq(headers: &mut rtsp_types::Headers, cseq: u32)
    ensures
        header_map(*final(headers)) == with_header(
            header_map(*old(headers)),
            "CSeq"@,
            decimal_digits(cseq as nat),
        ),
{
    headers.insert_typed(&rtsp_types::headers::CSeq::from(cseq));
}

/// `Headers::insert_typed` for `headers::Public` writes the names of the methods as a list.
#[verifier::external_body]
fn set_public(headers: &mut rtsp_types::Headers, methods: &Vec<String>)
    ensures
        header_map(*final(headers)) == with_header(
            header_map(*old(headers)),
            "Public"@,
            list_text(views(methods@)),
        ),
{
    let methods: Vec<rtsp_types::Method> = methods.iter().map(|m| m.as_str().into()).collect();
    headers.insert_typed(&rtsp_types::headers::Public::from(methods));
}

/// `Headers::insert_typed` for `headers::Allow` writes the names of the methods as a list.
#[verifier::external_body]
fn set_allow(headers: &mut rtsp_types::Headers, methods: &Vec<String>)
    ensures
        header_map(*final(headers)) == with_header(
            header_map(*old(headers)),
            "Allow"@,
            list_text(views(methods@)),
        ),
{
    let methods: Vec<rtsp_types::Method> = methods.iter().map(|m| m.as_str().into()).collect();
    headers.insert_typed(&rtsp_types::headers::Allow::from(methods));
}

/// `Headers::insert_typed` for `headers::Supported` writes the features as a list.
#[verifier::external_body]
fn set_supported(headers: &mut rtsp_types::Headers, features: &Vec<String>)
    ensures
        header_map(*final(headers)) == with_header(
            header_map(*old(headers)),
            "Supported"@,
            list_text(views(features@)),
        ),
{
    headers.insert_typed(&rtsp_types::headers::Supported::from(features.to_vec()));
}

/// `Headers::insert_typed` for `headers::Unsupported` writes the features as a list.
#[verifier::external_body]
fn set_unsupported(headers: &mut rtsp_types::Headers, features: &Vec<String>)
    ensures
        header_map(*final(headers)) == with_header(
            header_map(*old(headers)),
            "Unsupported"@,
            list_text(views(features@)),
        ),
{
    headers.insert_typed(&rtsp_types::headers::Unsupported::from(features.to_vec()));
}

/// `Headers::insert_typed` for `headers::ContentType` with a type of `application` and no
/// parameters writes both names with a slash between them.
#[verifier::external_body]
fn set_application_content_type(headers: &mut rtsp_types::Headers, subtype: &str)
    ensures
        header_map(*final(headers)) == with_header(
            header_map(*old(headers)),
            "Content-Type"@,
            "application/"@ + subtype@,
        ),
{
    headers.insert_typed(
        &rtsp_types::headers::ContentType {
            media_type: rtsp_types::headers::MediaType::Application,
            media_subtype: subtype.into(),
            params: Vec::new(),
        },
    );
}

/// `Headers::insert_typed` for `headers::RtpInfos` in the form of RTSP 1.0.
///
/// It writes the URI of each stream, and the numbers that are known. Nothing is written if a URI is
/// no URL.
#[verifier::external_body]
fn set_rtp_info_v1(headers: &mut rtsp_types::Headers, infos: &Vec<RtpInfo>) -> (r: bool)
    ensures
        r == RtpInfosView::V1(rtp_info_views(infos@)).has_uris(),
        header_map(*final(headers)) == if r {
            with_header(header_map(*old(headers)), "RTP-Info"@, v1_text(rtp_info_views(infos@)))
        } else {
            header_map(*old(headers))
        },
{
    let infos: Option<Vec<_>> = infos.iter().map(|i| Some(
        rtsp_types::headers::rtp_info::v1::RtpInfo {
            uri: url::Url::parse(&i.uri.text).ok()?,
            seq: i.seq,
            rtptime: i.rtptime,
        },
    )).collect();
    let infos = infos.map(|i| headers.insert_typed(&rtsp_types::headers::RtpInfos::V1(i)));
    infos.is_some()
}

/// `Headers::insert_typed` for `headers::RtpInfos` in the form of RTSP 2.0.
///
/// What it writes is not written out but named. Nothing is written if a URI is no URL.
#[verifier::external_body]
fn set_rtp_info_v2(headers: &mut rtsp_types::Headers, infos: &Vec<StreamInfo>) -> (r: bool)
    ensures
        r == RtpInfosView::V2(stream_info_views(infos@)).has_uris(),
        header_map(*final(headers)) == if r {
            with_header(header_map(*old(headers)), "RTP-Info"@, v2_text(stream_info_views(infos@)))
        } else {
            header_map(*old(headers))
        },
{
    let infos: Option<Vec<_>> = infos.iter().map(|i| Some(
        rtsp_types::headers::rtp_info::v2::RtpInfo {
            uri: url::Url::parse(&i.uri.text).ok()?,
            ssrc_infos: i.ssrc_infos.iter().map(|s| rtsp_types::headers::rtp_info::v2::SsrcInfo {
                ssrc: s.ssrc, seq: s.seq, rtptime: s.rtptime, others: s.others.iter().cloned().collect(),
            }).collect(),
        },
    )).collect();
    let infos = infos.map(|i| headers.insert_typed(&rtsp_types::headers::RtpInfos::V2(i)));
    infos.is_some()
}

/// `Headers::insert_typed` for `headers::NotifyReason` writes the name of the reason.
#[verifier::external_body]
fn set_notify_reason(headers: &mut rtsp_types::Headers, reason: &str)
    ensures
        header_map(*final(headers)) == with_header(
            header_map(*old(headers)),
            "Notify-Reason"@,
            reason@,
        ),
{
    if let Ok(reason) = reason.parse::<rtsp_types::headers::NotifyReason>() {
        headers.insert_typed(&reason);
    }
}

/// Headers of a message.
pub struct HeaderFields {
    pub inner: rtsp_types::Headers,
}

/// Headers by name and value, in the order in which they are set.
pub type ExtraHeaders = Vec<(String, String)>;

/// `headers` with all of `extra` set, one after the other.
pub open spec fn with_extra_headers(
    headers: Map<Seq<char>, Seq<char>>,
    extra: Seq<(String, String)>,
) -> Map<Seq<char>, Seq<char>>
    decreases extra.len(),
{
    if extra.len() == 0 {
        headers
    } else {
        with_header(
            with_extra_headers(headers, extra.drop_last()),
            extra.last().0@,
            extra.last().1@,
        )
    }
}

/// `headers` with the header `name` set if there is a value for it.
pub open spec fn with_optional_header(
    headers: Map<Seq<char>, Seq<char>>,
    name: Seq<char>,
    value: Option<Seq<char>>,
) -> Map<Seq<char>, Seq<char>> {
    match value {
        Some(value) => with_header(headers, name, value),
        None => headers,
    }
}

/// A header reads as what it was last set to, and setting one changes no other.
pub proof fn law_header_read_back(
    headers: Map<Seq<char>, Seq<char>>,
    name: Seq<char>,
    value: Seq<char>,
    other: Seq<char>,
)
    requires
        ascii(name),
    ensures
        header_value(with_header(headers, name, value), name) == Some(value),
        lower(other) != lower(name) ==> header_value(with_header(headers, name, value), other)
            == header_value(headers, other),
{
}

/// Whether one of the extra headers has that name.
pub open spec fn names_header(extra: Seq<(String, String)>, name: Seq<char>) -> bool {
    exists|i: int| 0 <= i < extra.len() && lower((#[trigger] extra[i]).0@) == lower(name)
}

/// Extra headers leave all headers alone whose names they do not have.
pub proof fn law_extra_headers_keep_others(
    headers: Map<Seq<char>, Seq<char>>,
    extra: Seq<(String, String)>,
    name: Seq<char>,
)
    requires
        !names_header(extra, name),
    ensures
        header_value(with_extra_headers(headers, extra), name) == header_value(headers, name),
    decreases extra.len(),
{
    if extra.len() > 0 {
        let front = extra.drop_last();
        assert forall|i: int| 0 <= i < front.len() implies lower((#[trigger] front[i]).0@) != lower(
            name,
        ) by {
            assert(front[i] == extra[i]);
        }
        assert(lower(extra[extra.len() - 1].0@) != lower(name));
        law_extra_headers_keep_others(headers, front, name);
    }
}

/// Every extra header is given with its value, unless a later one has the same name.
pub proof fn law_extra_headers_are_given(
    headers: Map<Seq<char>, Seq<char>>,
    extra: Seq<(String, String)>,
    i: int,
)
    requires
        0 <= i < extra.len(),
        ascii(extra[i].0@),
        forall|j: int| i < j < extra.len() ==> lower((#[trigger] extra[j]).0@) != lower(extra[i].0@),
    ensures
        header_value(with_extra_headers(headers, extra), extra[i].0@) == Some(extra[i].1@),
    decreases extra.len(),
{
    let front = extra.drop_last();
    if i < front.len() {
        assert forall|j: int| i < j < front.len() implies lower((#[trigger] front[j]).0@) != lower(
            front[i].0@,
        ) by {
            assert(front[j] == extra[j]);
        }
        assert(lower(extra[extra.len() - 1].0@) != lower(extra[i].0@));
        law_extra_headers_are_given(headers, front, i);
    }
}

/// The names of headers are told apart, whatever their case is.
pub proof fn lemma_header_names()
    ensures
        ascii("Session"@) && lower("Session"@).len() == 7,
        ascii("Transport"@) && lower("Transport"@).len() == 9,
        ascii("Media-Properties"@) && lower("Media-Properties"@).len() == 16,
        ascii("Accept-Ranges"@) && lower("Accept-Ranges"@).len() == 13,
        ascii("Media-Range"@) && lower("Media-Range"@).len() == 11,
        ascii("Range"@) && lower("Range"@).len() == 5,
        ascii("RTP-Info"@) && lower("RTP-Info"@).len() == 8,
        ascii("Seek-Style"@) && lower("Seek-Style"@).len() == 10,
        ascii("Scale"@) && lower("Scale"@).len() == 5,
        ascii("Speed"@) && lower("Speed"@).len() == 5,
        ascii("Public"@) && lower("Public"@).len() == 6,
        ascii("Supported"@) && lower("Supported"@).len() == 9,
        ascii("Unsupported"@) && lower("Unsupported"@).len() == 11,
        ascii("Allow"@) && lower("Allow"@).len() == 5,
        ascii("Content-Type"@) && lower("Content-Type"@).len() == 12,
        ascii("Content-Base"@) && lower("Content-Base"@).len() == 12,
        ascii("Content-Length"@) && lower("Content-Length"@).len() == 14,
        ascii("Notify-Reason"@) && lower("Notify-Reason"@).len() == 13,
        lower("Range"@) != lower("Scale"@),
        lower("Range"@) != lower("Speed"@),
        lower("Scale"@) != lower("Speed"@),
        lower("Content-Type"@) != lower("Content-Base"@),
        lower("Media-Range"@) != lower("Unsupported"@),
        lower("Transport"@) != lower("Supported"@),
{
    reveal_strlit("Session");
    reveal_strlit("Transport");
    reveal_strlit("Media-Properties");
    reveal_strlit("Accept-Ranges");
    reveal_strlit("Media-Range");
    reveal_strlit("Range");
    reveal_strlit("RTP-Info");
    reveal_strlit("Seek-Style");
    reveal_strlit("Scale");
    reveal_strlit("Speed");
    reveal_strlit("Public");
    reveal_strlit("Supported");
    reveal_strlit("Unsupported");
    reveal_strlit("Allow");
    reveal_strlit("Content-Type");
    reveal_strlit("Content-Base");
    reveal_strlit("Content-Length");
    reveal_strlit("Notify-Reason");
    assert(lower("Range"@)[4] == 'e' && lower("Speed"@)[4] == 'd' && lower("Scale"@)[4] == 'e');
    assert(lower("Range"@)[1] == 'a' && lower("Scale"@)[1] == 'c');
    assert(lower("Content-Type"@)[9] == 'y' && lower("Content-Base"@)[9] == 'a');
    assert(lower("Media-Range"@)[10] == 'e' && lower("Unsupported"@)[10] == 'd');
    assert(lower("Transport"@)[8] == 't' && lower("Supported"@)[8] == 'd');
}

proof fn lemma_digits_value(n: nat)
    ensures
        digits_value(decimal_digits(n)) == Some(n),
        decimal_digits(n).len() > 0,
        '0' <= decimal_digits(n)[0] <= '9',
    decreases n,
{
    reveal_with_fuel(digits_value, 2);
    if n < 10 {
        let s = decimal_digits(n);
        assert(s.drop_last() =~= Seq::<char>::empty());
        assert(s.last() == digit(n));
    } else {
        lemma_digits_value(n / 10);
        let s = decimal_digits(n);
        assert(s.drop_last() =~= decimal_digits(n / 10));
        assert(s.last() == digit(n % 10));
        assert(s[0] == decimal_digits(n / 10)[0]);
    }
}

/// A number reads as it was written.
pub proof fn law_number_read_back(n: nat, max: nat)
    requires
        n <= max,
    ensures
        decimal_value(decimal_digits(n), max) == Some(n),
{
    lemma_digits_value(n);
}

/// Digits are nothing but digits.
proof fn lemma_digits_only(n: nat)
    ensures
        forall|i: int|
            0 <= i < decimal_digits(n).len() ==> '0' <= #[trigger] decimal_digits(n)[i] <= '9',
    decreases n,
{
    let digits = decimal_digits(n);
    if n >= 10 {
        lemma_digits_only(n / 10);
        let front = decimal_digits(n / 10);
        assert forall|i: int| 0 <= i < digits.len() implies '0' <= #[trigger] digits[i] <= '9' by {
            if i < front.len() {
                assert(digits[i] == front[i]);
            } else {
                assert(digits[i] == digit(n % 10));
            }
        }
    } else {
        assert(digits[0] == digit(n));
    }
}

/// A session reads as it was written, with a timeout behind it or without one.
pub proof fn law_session_read_back(id: Seq<char>, timeout: u64)
    requires
        !id.contains(';'),
    ensures
        typed_session(Some(id)) == Ok::<Option<Seq<char>>, ()>(Some(id)),
        typed_session(Some(id.push(';') + ("timeout="@ + decimal_digits(timeout as nat)))) == Ok::<
            Option<Seq<char>>,
            (),
        >(Some(id)),
        typed_session(None) == Ok::<Option<Seq<char>>, ()>(None),
{
    let digits = decimal_digits(timeout as nat);
    let last = "timeout="@ + digits;
    lemma_split_one(id, ';');
    lemma_digits_only(timeout as nat);
    assert(!last.contains(';')) by {
        reveal_strlit("timeout=");
        if last.contains(';') {
            let k = choose|k: int| 0 <= k < last.len() && last[k] == ';';
            if k >= "timeout="@.len() {
                assert(last[k] == digits[k - "timeout="@.len()]);
            } else {
                assert(last[k] == "timeout="@[k]);
            }
        }
    }
    lemma_split_push(id, ';', last);
    let parts = split(id.push(';') + last, ';');
    assert(parts =~= seq![id, last]);
    assert("timeout="@ =~= last.take("timeout="@.len() as int));
    assert("timeout="@.is_prefix_of(parts[1]));
    assert(last.skip("timeout="@.len() as int) =~= digits);
    law_number_read_back(timeout as nat, u64::MAX as nat);
    assert(find_prefixed(seq![id], 1, "timeout="@) is None);
}

/// Whether `element` can be told apart in a list: there is no comma in it, and no white space
/// around it.
pub open spec fn is_list_element(element: Seq<char>) -> bool {
    !element.contains(',') && trim(element) == element
}

/// Whether the elements can be told apart in a list. An empty element is lost where others follow
/// it at the start of the list.
pub open spec fn is_list(elements: Seq<Seq<char>>) -> bool {
    &&& elements.len() > 0
    &&& elements.len() > 1 ==> elements[0].len() > 0
    &&& forall|i: int| 0 <= i < elements.len() ==> is_list_element(#[trigger] elements[i])
}

/// A list reads as it was written, if its elements can be told apart.
pub proof fn law_list_read_back(
    headers: Map<Seq<char>, Seq<char>>,
    name: Seq<char>,
    elements: Seq<Seq<char>>,
)
    requires
        ascii(name),
        is_list(elements),
    ensures
        header_value(with_header(headers, name, list_text(elements)), name) matches Some(v)
            && list_elements(v) == elements,
{
    lemma_list_read_back(elements);
}

proof fn lemma_list_read_back(elements: Seq<Seq<char>>)
    requires
        is_list(elements),
    ensures
        list_elements(list_text(elements)) == elements,
        elements[0].len() > 0 ==> list_text(elements).len() > 0,
    decreases elements.len(),
{
    reveal_with_fuel(list_text, 2);
    let front = elements.drop_last();
    let last = elements.last();
    assert(is_list_element(last)) by {
        assert(elements[elements.len() - 1] == last);
    }
    if front.len() == 0 {
        lemma_split_one(last, ',');
        assert(list_elements(last) =~= seq![last]);
        assert(elements =~= seq![last]);
    } else {
        assert forall|i: int| 0 <= i < front.len() implies is_list_element(#[trigger] front[i]) by {
            assert(front[i] == elements[i]);
        }
        lemma_list_read_back(front);
        reveal_strlit(", ");
        let before = list_text(front);
        let piece = seq![' '] + last;
        assert(before + ", "@ + last =~= before.push(',') + piece);
        assert(!piece.contains(',')) by {
            if piece.contains(',') {
                let k = choose|k: int| 0 <= k < piece.len() && piece[k] == ',';
                assert(last[k - 1] == ',');
            }
        }
        lemma_split_push(before, ',', piece);
        assert(piece.skip(1) =~= last);
        assert(trim(piece) == last);
        assert(list_elements(list_text(elements)) =~= list_elements(before).push(last));
        assert(front.push(last) =~= elements);
    }
}

/// The digit `d`, as a character.
fn digit_char(d: u64) -> (r: char)
    requires
        d < 10,
    ensures
        r == digit(d as nat),
{
    match d {
        0 => '0',
        1 => '1',
        2 => '2',
        3 => '3',
        4 => '4',
        5 => '5',
        6 => '6',
        7 => '7',
        8 => '8',
        _ => '9',
    }
}

/// `n` in decimal digits.
pub fn decimal_text(n: u64) -> (r: String)
    ensures
        r@ == decimal_digits(n as nat),
    decreases n,
{
    if n < 10 {
        let mut r = String::new();
        r.push(digit_char(n));
        proof {
            assert(r@ =~= decimal_digits(n as nat));
        }
        r
    } else {
        let mut r = decimal_text(n / 10);
        r.push(digit_char(n % 10));
        r
    }
}

impl HeaderFields {
    /// The values of the headers, by their names in lower case.
    pub open spec fn view(self) -> Map<Seq<char>, Seq<char>> {
        header_map(self.inner)
    }

    /// The value of the header `name`.
    pub open spec fn spec_get(self, name: Seq<char>) -> Option<Seq<char>> {
        header_value(self@, name)
    }

    /// No headers at all.
    pub fn new() -> (r: HeaderFields)
        ensures
            r@ == empty_headers(),
    {
        HeaderFields { inner: no_headers() }
    }

    /// Sets the header `name`, whatever its value was.
    pub fn insert(&mut self, name: &str, value: &str)
        ensures
            final(self)@ == with_header(old(self)@, name@, value@),
    {
        set_header(&mut self.inner, name, value);
    }

    /// Sets the header `name` if there is a value for it.
    pub fn insert_optional(&mut self, name: &str, value: &Option<String>)
        ensures
            final(self)@ == with_optional_header(
                old(self)@,
                name@,
                crate::url::opt_view(*value),
            ),
    {
        if let Some(value) = value {
            set_header(&mut self.inner, name, value.as_str());
        }
    }

    /// Sets all of `extra`, one after the other.
    pub fn insert_extra(&mut self, extra: &ExtraHeaders)
        ensures
            final(self)@ == with_extra_headers(old(self)@, extra@),
    {
        let mut i: usize = 0;
        proof {
            assert(extra@.take(0) =~= Seq::<(String, String)>::empty());
        }
        while i < extra.len()
            invariant
                i <= extra@.len(),
                self@ == with_extra_headers(old(self)@, extra@.take(i as int)),
            decreases extra@.len() - i,
        {
            self.insert(extra[i].0.as_str(), extra[i].1.as_str());
            proof {
                assert(extra@.take(i + 1).drop_last() =~= extra@.take(i as int));
            }
            i = i + 1;
        }
        proof {
            assert(extra@.take(i as int) =~= extra@);
        }
    }

    /// The value of the header `name`.
    pub fn get(&self, name: &str) -> (r: Option<String>)
        ensures
            crate::url::opt_view(r) == self.spec_get(name@),
    {
        get_header(&self.inner, name)
    }

    /// The number in the `CSeq` header.
    pub fn cseq(&self) -> (r: Result<Option<u32>, ()>)
        ensures
            number_view(r) == typed_number(self.spec_get("CSeq"@)),
    {
        get_cseq(&self.inner)
    }

    /// Sets the `CSeq` header.
    pub fn insert_cseq(&mut self, cseq: u32)
        ensures
            final(self)@ == with_header(old(self)@, "CSeq"@, decimal_digits(cseq as nat)),
    {
        set_cseq(&mut self.inner, cseq);
    }

    /// The session id in the `Session` header.
    pub fn session(&self) -> (r: Result<Option<String>, ()>)
        ensures
            string_view(r) == typed_session(self.spec_get("Session"@)),
    {
        get_session(&self.inner)
    }

    /// The number in the `Pipelined-Requests` header.
    pub fn pipelined_requests(&self) -> (r: Result<Option<u32>, ()>)
        ensures
            number_view(r) == typed_number(self.spec_get("Pipelined-Requests"@)),
    {
        get_pipelined_requests(&self.inner)
    }

    /// The features in the `Require` header: none if there is no header.
    pub fn require(&self) -> (r: Vec<String>)
        ensures
            views(r@) == match self.spec_get("Require"@) {
                Some(v) => list_elements(v),
                None => Seq::empty(),
            },
    {
        match get_require(&self.inner) {
            Some(features) => features,
            None => {
                let r: Vec<String> = Vec::new();
                proof {
                    assert(views(r@) =~= Seq::<Seq<char>>::empty());
                }
                r
            },
        }
    }

    /// The features in the `Supported` header: none if there is no header.
    pub fn supported(&self) -> (r: Vec<String>)
        ensures
            views(r@) == match self.spec_get("Supported"@) {
                Some(v) => list_elements(v),
                None => Seq::empty(),
            },
    {
        match get_supported(&self.inner) {
            Some(features) => features,
            None => {
                let r: Vec<String> = Vec::new();
                proof {
                    assert(views(r@) =~= Seq::<Seq<char>>::empty());
                }
                r
            },
        }
    }

    /// The names of the methods in the `Public` header.
    pub fn public(&self) -> (r: Option<Vec<String>>)
        ensures
            match self.spec_get("Public"@) {
                Some(v) => r matches Some(l) && views(l@) == list_elements(v),
                None => r is None,
            },
    {
        get_public(&self.inner)
    }

    /// The media type ranges in the `Accept` header.
    pub fn accept(&self) -> (r: Result<Option<Vec<(Option<String>, Option<String>)>>, ()>)
        ensures
            match self.spec_get("Accept"@) {
                None => r matches Ok(None),
                Some(value) => if is_accept(value) {
                    r matches Ok(Some(ranges)) && ranges@.len() == split(value, ',').len()
                        && forall|i: int|
                        0 <= i < ranges@.len() ==> reads_as_range(
                            #[trigger] ranges@[i],
                            split(value, ',')[i],
                        )
                } else {
                    r is Err
                },
            },
    {
        get_accept(&self.inner)
    }

    /// The value of the `Transport` header, if it can be read.
    pub fn transports(&self) -> (r: Result<Option<String>, ()>)
        ensures
            string_view(r) == readable(self.spec_get("Transport"@), |v| reads_as_transports(v)),
    {
        match self.get("Transport") {
            Some(value) => if stray_quote(value.as_str()) {
                Err(())
            } else if transports_readable(&self.inner) {
                Ok(Some(value))
            } else {
                Err(())
            },
            None => Ok(None),
        }
    }

    /// Sets the `RTP-Info` header. Fails if a URI is no URL.
    pub fn insert_rtp_info(&mut self, infos: &RtpInfos) -> (r: bool)
        ensures
            r == infos@.has_uris(),
            final(self)@ == if r {
                with_header(old(self)@, "RTP-Info"@, infos@.text())
            } else {
                old(self)@
            },
    {
        match infos {
            RtpInfos::V1(infos) => set_rtp_info_v1(&mut self.inner, infos),
            RtpInfos::V2(infos) => set_rtp_info_v2(&mut self.inner, infos),
        }
    }

    /// The value of the `Accept-Ranges` header. Any value can be read.
    pub fn accept_ranges(&self) -> (r: Result<Option<String>, ()>)
        ensures
            string_view(r) == Ok::<Option<Seq<char>>, ()>(self.spec_get("Accept-Ranges"@)),
    {
        if accept_ranges_readable(&self.inner) {
            Ok(self.get("Accept-Ranges"))
        } else {
            Err(())
        }
    }

    /// The value of the `Range` header, if it can be read.
    pub fn range(&self) -> (r: Result<Option<String>, ()>)
        ensures
            string_view(r) == readable(self.spec_get("Range"@), |v| is_range(v)),
    {
        if range_readable(&self.inner) {
            Ok(self.get("Range"))
        } else {
            Err(())
        }
    }

    /// The value of the `Seek-Style` header. Any value can be read.
    pub fn seek_style(&self) -> (r: Result<Option<String>, ()>)
        ensures
            string_view(r) == Ok::<Option<Seq<char>>, ()>(self.spec_get("Seek-Style"@)),
    {
        if seek_style_readable(&self.inner) {
            Ok(self.get("Seek-Style"))
        } else {
            Err(())
        }
    }

    /// The value of the `Scale` header, if it can be read.
    pub fn scale(&self) -> (r: Result<Option<String>, ()>)
        ensures
            string_view(r) == readable(self.spec_get("Scale"@), |v| is_scale(v)),
    {
        if scale_readable(&self.inner) {
            Ok(self.get("Scale"))
        } else {
            Err(())
        }
    }

    /// The value of the `Speed` header, if it can be read.
    pub fn speed(&self) -> (r: Result<Option<String>, ()>)
        ensures
            string_view(r) == readable(self.spec_get("Speed"@), |v| is_speed(v)),
    {
        if speed_readable(&self.inner) {
            Ok(self.get("Speed"))
        } else {
            Err(())
        }
    }

    /// Sets the `Public` header to a list of methods.
    pub fn insert_public(&mut self, methods: &Vec<String>)
        ensures
            final(self)@ == with_header(old(self)@, "Public"@, list_text(views(methods@))),
    {
        set_public(&mut self.inner, methods);
    }

    /// Sets the `Allow` header to a list of methods.
    pub fn insert_allow(&mut self, methods: &Vec<String>)
        ensures
            final(self)@ == with_header(old(self)@, "Allow"@, list_text(views(methods@))),
    {
        set_allow(&mut self.inner, methods);
    }

    /// Sets the `Supported` header to a list of features.
    pub fn insert_supported(&mut self, features: &Vec<String>)
        ensures
            final(self)@ == with_header(old(self)@, "Supported"@, list_text(views(features@))),
    {
        set_supported(&mut self.inner, features);
    }

    /// Sets the `Unsupported` header to a list of features.
    pub fn insert_unsupported(&mut self, features: &Vec<String>)
        ensures
            final(self)@ == with_header(old(self)@, "Unsupported"@, list_text(views(features@))),
    {
        set_unsupported(&mut self.inner, features);
    }

    /// Sets the `Content-Type` header to a subtype of `application`.
    pub fn insert_application_content_type(&mut self, subtype: &str)
        ensures
            final(self)@ == with_header(
                old(self)@,
                "Content-Type"@,
                "application/"@ + subtype@,
            ),
    {
        set_application_content_type(&mut self.inner, subtype);
    }

    /// Sets the `Notify-Reason` header.
    pub fn insert_notify_reason(&mut self, reason: &str)
        ensures
            final(self)@ == with_header(old(self)@, "Notify-Reason"@, reason@),
    {
        set_notify_reason(&mut self.inner, reason);
    }
}

/// What a header is read as of which only the text is kept.
pub open spec fn readable(value: Option<Seq<char>>, reads: spec_fn(Seq<char>) -> bool) -> Result<
    Option<Seq<char>>,
    (),
> {
    match value {
        None => Ok(None),
        Some(v) => if reads(v) {
            Ok(Some(v))
        } else {
            Err(())
        },
    }
}

} // verus!
