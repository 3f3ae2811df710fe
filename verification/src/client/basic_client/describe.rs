//! DESCRIBE.

use sdp_types::Session as SessionDescription;
use vstd::prelude::*;

use super::options::{add_mount_extra_data, mount_extra_data};
use super::client::Client;
use crate::error::{Error, StatusCode};
use crate::extra_data::{extra_headers, extra_headers_in, ExtraData, ExtraMap};
use crate::headers::{header_value, is_accept, range_types, with_extra_headers, with_header};
use crate::media::stream::{extract_stream_id_from_uri, stream_of_uri};
use crate::message::{Request, RequestView, Response, ResponseView, Version};
use crate::server::mounts::PresentationURI;
use crate::text::{same, split};
use crate::url::{Url, UrlView};

verus! {

/// `sdp_types::Session`, which is only carried from the media factory to the response.
#[verifier::external_type_specification]
#[verifier::external_body]
pub struct ExSdpSession(SessionDescription);

/// What a session description holds, as it is written.
pub uninterp spec fn sdp_text(session: SessionDescription) -> Seq<u8>;

/// `sdp_types::Session::write` into memory, where writing does not fail.
///
/// The format is not written out: the result is the named text of the description.
#[verifier::external_body]
fn write_sdp(session: &SessionDescription) -> (r: Vec<u8>)
    ensures
        r@ == sdp_text(*session),
{
    let mut text = Vec::new();
    session.write(&mut text).unwrap();
    text
}

/// Whether a session description is among what a media type range stands for.
pub open spec fn range_accepts_sdp(range: Seq<char>) -> bool {
    match range_types(range) {
        Some((media_type, subtype)) => media_type == "*"@ || (media_type == "application"@ && (
        subtype == "sdp"@ || subtype == "*"@)),
        None => false,
    }
}

/// Whether a session description is acceptable for one of the ranges.
pub open spec fn accepts_sdp(value: Seq<char>) -> bool {
    exists|i: int|
        0 <= i < split(value, ',').len() && range_accepts_sdp(#[trigger] split(value, ',')[i])
}

/// What a DESCRIBE request leads to.
pub ghost enum DescribeStartView {
    /// The media factory that serves the URI is to be found.
    Find(UrlView),
    /// It is answered at once.
    Answer(Result<ResponseView, Error>),
}

/// What a DESCRIBE request leads to: it has to be for a URI, and a session description has to be
/// acceptable for it.
pub open spec fn describe_start(request: RequestView) -> DescribeStartView {
    match request.request_uri {
        None => DescribeStartView::Answer(
            Ok(ResponseView::empty(request.version, StatusCode::NotFound)),
        ),
        Some(uri) => match header_value(request.headers, "Accept"@) {
            None => DescribeStartView::Find(uri),
            Some(value) => if !is_accept(value) {
                DescribeStartView::Answer(Err(Error::spec_status(StatusCode::BadRequest)))
            } else if accepts_sdp(value) {
                DescribeStartView::Find(uri)
            } else {
                DescribeStartView::Answer(
                    Ok(ResponseView::empty(request.version, StatusCode::NotAcceptable)),
                )
            },
        },
    }
}

/// What a DESCRIBE request leads to.
pub enum DescribeStart {
    /// The media factory that serves the URI is to be found.
    Find(DescribeUri),
    /// It is answered at once.
    Answer(Result<Response, Error>),
}

/// The media factory that serves the URI is to be found.
pub struct DescribeUri {
    pub uri: Url,
}

/// Whether a media type range was read as one that accepts a session description.
fn is_sdp(range: &(Option<String>, Option<String>)) -> (r: bool)
    ensures
        r == match range.0 {
            None => true,
            Some(media_type) => media_type@ == "application"@ && match range.1 {
                None => true,
                Some(subtype) => subtype@ == "sdp"@,
            },
        },
{
    match &range.0 {
        None => true,
        Some(media_type) => same(media_type.as_str(), "application") && match &range.1 {
            None => true,
            Some(subtype) => same(subtype.as_str(), "sdp"),
        },
    }
}

/// Whether a DESCRIBE request was read as it has to be.
pub open spec fn describe_started(request: RequestView, r: DescribeStart) -> bool {
    match describe_start(request) {
        DescribeStartView::Find(uri) => r matches DescribeStart::Find(next) && next.uri@ == uri,
        DescribeStartView::Answer(Ok(response)) => r matches DescribeStart::Answer(Ok(resp))
            && resp@ == response,
        DescribeStartView::Answer(Err(err)) => r matches DescribeStart::Answer(Err(e)) && e
            == err,
    }
}

impl Client {
    /// Reads a DESCRIBE request.
    pub fn handle_describe(&self, request: &Request) -> (r: DescribeStart)
        ensures
            describe_started(request@, r),
    {
        let uri = match &request.request_uri {
            Some(uri) => uri.copy(),
            None => return DescribeStart::Answer(
                Ok(Response::new(request.version, StatusCode::NotFound)),
            ),
        };
        match request.headers.accept() {
            Err(()) => DescribeStart::Answer(Err(Error::status(StatusCode::BadRequest))),
            Ok(None) => DescribeStart::Find(DescribeUri { uri }),
            Ok(Some(ranges)) => {
                let ghost value = header_value(request@.headers, "Accept"@)->0;
                let ghost texts = split(value, ',');
                let mut i: usize = 0;
                proof {
                    reveal_strlit("*");
                    reveal_strlit("application");
                    reveal_strlit("multipart");
                    reveal_strlit("Multipart");
                    assert("application"@ != "*"@) by {
                        assert("application"@.len() != "*"@.len());
                    }
                    assert("sdp"@ != "*"@) by {
                        reveal_strlit("sdp");
                        assert("sdp"@.len() != "*"@.len());
                    }
                    assert("multipart"@ != "application"@) by {
                        assert("multipart"@.len() != "application"@.len());
                    }
                    assert("Multipart"@ != "application"@) by {
                        assert("Multipart"@.len() != "application"@.len());
                    }
                }
                while i < ranges.len()
                    invariant
                        "application"@ != "*"@,
                        "sdp"@ != "*"@,
                        "multipart"@ != "application"@,
                        "Multipart"@ != "application"@,
                        i <= ranges@.len(),
                        texts == split(value, ','),
                        ranges@.len() == texts.len(),
                        forall|j: int|
                            0 <= j < ranges@.len() ==> crate::headers::reads_as_range(
                                #[trigger] ranges@[j],
                                texts[j],
                            ),
                        forall|j: int| 0 <= j < i ==> !range_accepts_sdp(#[trigger] texts[j]),
                        header_value(request@.headers, "Accept"@) == Some(value),
                        is_accept(value),
                        request@.request_uri == Some(uri@),
                    decreases ranges@.len() - i,
                {
                    proof {
                        assert(crate::headers::reads_as_range(ranges@[i as int], texts[i as int]));
                    }
                    if is_sdp(&ranges[i]) {
                        proof {
                            assert(range_accepts_sdp(texts[i as int]));
                            assert(accepts_sdp(value));
                        }
                        return DescribeStart::Find(DescribeUri { uri });
                    }
                    i = i + 1;
                }
                DescribeStart::Answer(Ok(Response::new(request.version, StatusCode::NotAcceptable)))
            },
        }
    }
}

impl DescribeUri {
    /// Whether what is known of the URI leads to `r`, and to extra data from what was there before.
    pub open spec fn leads_to<V>(
        self,
        reply: Result<(u128, PresentationURI, ExtraData<V>), Error>,
        before: ExtraMap<V>,
        after: ExtraMap<V>,
        r: Result<(u128, PresentationURI), Error>,
    ) -> bool {
        match reply {
            Ok((media_factory_id, presentation_uri, mount_data)) => match stream_of_uri(
                presentation_uri@,
                self.uri@,
            ) {
                Ok(None) => {
                    &&& r matches Ok((id, uri))
                    &&& id == media_factory_id
                    &&& uri == presentation_uri
                    &&& after == mount_extra_data(
                        before,
                        mount_data@,
                        presentation_uri,
                    )
                },
                Ok(Some(_)) => r matches Err(e) && e == Error::spec_status(
                    StatusCode::NotFound,
                ),
                Err(err) => r matches Err(e) && e == err,
            },
            Err(err) => r matches Err(e) && e == err,
        }
    }

    /// The media factory that serves the URI was found with its presentation URI and the extra data
    /// of its mount, or not. Only whole presentations are described.
    ///
    /// The media factory is to be asked for the description next.
    pub fn uri_found<V>(
        self,
        reply: Result<(u128, PresentationURI, ExtraData<V>), Error>,
        extra_data: &mut ExtraData<V>,
    ) -> (r: Result<(u128, PresentationURI), Error>)
        ensures
            self.leads_to(reply, old(extra_data)@, final(extra_data)@, r),
            r is Err ==> final(extra_data)@ == old(extra_data)@,
    {
        let (media_factory_id, presentation_uri, mount_data) = match reply {
            Ok(found) => found,
            Err(err) => return Err(err),
        };
        match extract_stream_id_from_uri(&presentation_uri, &self.uri) {
            Ok(None) => {
                add_mount_extra_data(extra_data, &mount_data, &presentation_uri);
                Ok((media_factory_id, presentation_uri))
            },
            Ok(Some(_)) => Err(Error::status(StatusCode::NotFound)),
            Err(err) => Err(err),
        }
    }
}

/// The response to a DESCRIBE request with a session description.
pub open spec fn describe_response(
    version: Version,
    presentation_uri: UrlView,
    description: Seq<u8>,
    extra: Seq<(String, String)>,
) -> ResponseView {
    let response = ResponseView::empty(version, StatusCode::Success).with_header(
        "Content-Type"@,
        "application/"@ + "sdp"@,
    ).with_header("Content-Base"@, presentation_uri.text).with_body(description);
    ResponseView { headers: with_extra_headers(response.headers, extra), ..response }
}

/// Answers a DESCRIBE request with the text of a description.
pub fn answer_describe<V>(
    version: Version,
    presentation_uri: &PresentationURI,
    description: Vec<u8>,
    extra_data: &ExtraData<V>,
) -> (r: Response)
    ensures
        r@ == describe_response(
            version,
            presentation_uri@,
            description@,
            extra_headers_in(extra_data@),
        ),
{
    let mut response = Response::new(version, StatusCode::Success);
    response.headers.insert_application_content_type("sdp");
    response.headers.insert("Content-Base", presentation_uri.url.text.as_str());
    response.set_body(description);
    if let Some(extra) = extra_headers(extra_data) {
        response.insert_extra_headers(extra);
    }
    response
}

/// Whether a DESCRIBE request was answered as it has to be.
pub open spec fn describe_finished<V>(
    version: Version,
    presentation_uri: UrlView,
    reply: Result<(SessionDescription, ExtraData<V>), Error>,
    r: Result<Response, Error>,
) -> bool {
    match reply {
        Ok((description, extra_data)) => r matches Ok(response) && response@ == describe_response(
            version,
            presentation_uri,
            sdp_text(description),
            extra_headers_in(extra_data@),
        ),
        Err(err) => r matches Err(e) && e == err,
    }
}

/// Answers a DESCRIBE request with what the media factory describes, or with its error.
pub fn finish_describe<V>(
    version: Version,
    presentation_uri: &PresentationURI,
    reply: Result<(SessionDescription, ExtraData<V>), Error>,
) -> (r: Result<Response, Error>)
    ensures
        describe_finished(version, presentation_uri@, reply, r),
{
    match reply {
        Ok((description, extra_data)) => {
            let text = write_sdp(&description);
            Ok(answer_describe(version, presentation_uri, text, &extra_data))
        },
        Err(err) => Err(err),
    }
}

} // verus!
