//! Streams of a media and how they are named.

use vstd::prelude::*;

use crate::error::{Error, StatusCode};
use crate::server::mounts::PresentationURI;
use crate::text::{chars_of, first_index, lemma_first_index, same};
use crate::url::{opt_view, Url, UrlExt, UrlView};

verus! {

/// The path of a relative URI: the part before its query and its fragment.
pub open spec fn path_part(s: Seq<char>) -> Seq<char> {
    let query = first_index(s, '?');
    let fragment = first_index(s, '#');
    s.take(
        if query <= fragment {
            query
        } else {
            fragment
        },
    )
}

/// Whether there are two dots next to each other.
pub open spec fn has_two_dots(s: Seq<char>) -> bool {
    exists|i: int| 0 <= i < s.len() - 1 && #[trigger] s[i] == '.' && s[i + 1] == '.'
}

/// What can be the name of a stream: there is no `..` in its path.
pub open spec fn is_stream_id(s: Seq<char>) -> bool {
    !has_two_dots(path_part(s))
}

/// The index of the first `c`, or the length if there is none.
fn find(v: &Vec<char>, c: char) -> (r: usize)
    ensures
        r == first_index(v@, c),
        r <= v@.len(),
{
    let mut i: usize = 0;
    while i < v.len()
        invariant
            i <= v@.len(),
            forall|j: int| 0 <= j < i ==> v@[j] != c,
        decreases v@.len() - i,
    {
        if v[i] == c {
            proof {
                lemma_first_index(v@, c, i as int);
            }
            return i;
        }
        i = i + 1;
    }
    proof {
        lemma_first_index(v@, c, v@.len() as int);
    }
    i
}

/// Whether `s` can be the name of a stream.
pub fn can_be_stream_id(s: &str) -> (r: bool)
    ensures
        r == is_stream_id(s@),
{
    let v = chars_of(s);
    let query = find(&v, '?');
    let fragment = find(&v, '#');
    let end: usize = if query <= fragment {
        query
    } else {
        fragment
    };
    let ghost path = path_part(s@);
    proof {
        assert(path =~= v@.take(end as int));
    }
    let mut i: usize = 0;
    while i < end
        invariant
            i <= end <= v@.len(),
            path == path_part(s@),
            path == v@.take(end as int),
            forall|j: int|
                0 <= j < i && j < path.len() - 1 ==> !(#[trigger] path[j] == '.' && path[j + 1]
                    == '.'),
        decreases end - i,
    {
        if i + 1 < end && v[i] == '.' && v[i + 1] == '.' {
            proof {
                assert(path[i as int] == '.' && path[i + 1] == '.');
            }
            return false;
        }
        i = i + 1;
    }
    true
}

/// Stream ID.
///
/// Equal to the control attribute of the SDP.
///
/// Joining this with the [`PresentationURI`] should give the control URI of the stream.
///
/// This allows referring directly to the different streams of the media.
pub struct StreamId {
    pub id: String,
}

impl StreamId {
    /// The name.
    pub open spec fn view(self) -> Seq<char> {
        self.id@
    }

    /// There is no `..` in the path of the name.
    pub open spec fn wf(self) -> bool {
        is_stream_id(self@)
    }

    /// The stream with this name, in whose path there must be no `..`.
    pub fn new(id: String) -> (r: StreamId)
        requires
            is_stream_id(id@),
        ensures
            r@ == id@,
            r.wf(),
    {
        StreamId { id }
    }

    /// The name.
    pub fn as_str(&self) -> (r: &str)
        ensures
            r@ == self@,
    {
        self.id.as_str()
    }

    /// A copy of this stream ID.
    pub fn copy(&self) -> (r: StreamId)
        ensures
            r == *self,
    {
        StreamId { id: self.id.clone() }
    }
}

/// What an optional stream ID reads as.
pub open spec fn opt_stream_view(id: Option<StreamId>) -> Option<Seq<char>> {
    match id {
        Some(id) => Some(id@),
        None => None,
    }
}

/// Which stream of the presentation a URI is for.
///
/// The URI of the presentation itself, with its last slash or without it, is for no stream. Any
/// other has to lie below it.
pub open spec fn stream_of_uri(presentation_uri: UrlView, uri: UrlView) -> Result<
    Option<Seq<char>>,
    Error,
> {
    match presentation_uri.relative(uri) {
        None => Err(Error::spec_status(StatusCode::NotFound)),
        Some(relative) => if (uri.path == presentation_uri.path || uri.path.push('/')
            == presentation_uri.path) && uri.query is None && uri.fragment is None {
            Ok(None)
        } else if is_stream_id(relative) {
            Ok(Some(relative))
        } else {
            Err(Error::spec_status(StatusCode::NotFound))
        },
    }
}

/// What was found out about the stream, as it is seen in contracts.
pub open spec fn stream_result_view(r: Result<Option<StreamId>, Error>) -> Result<
    Option<Seq<char>>,
    Error,
> {
    match r {
        Ok(id) => Ok(opt_stream_view(id)),
        Err(err) => Err(err),
    }
}

/// Finds out which stream of the presentation a URI is for.
pub fn extract_stream_id_from_uri(presentation_uri: &PresentationURI, uri: &Url) -> (r: Result<
    Option<StreamId>,
    Error,
>)
    ensures
        stream_result_view(r) == stream_of_uri(presentation_uri@, uri@),
        r matches Ok(Some(id)) ==> id.wf(),
{
    let relative = match presentation_uri.url.make_relative(uri) {
        Some(relative) => relative,
        None => return Err(Error::status(StatusCode::NotFound)),
    };
    let path = presentation_uri.url.path.as_str();
    let mut directory = uri.path.clone();
    directory.push('/');
    if (same(uri.path.as_str(), path) || same(directory.as_str(), path)) && uri.query.is_none()
        && uri.fragment.is_none() {
        return Ok(None);
    }
    if can_be_stream_id(relative.as_str()) {
        Ok(Some(StreamId::new(relative)))
    } else {
        Err(Error::status(StatusCode::NotFound))
    }
}

/// An attribute of a session description.
pub struct SdpAttribute {
    pub attribute: String,
    pub value: Option<String>,
}

/// A media in a session description.
pub struct SdpMedia {
    pub attributes: Vec<SdpAttribute>,
}

/// The medias of a session description.
pub struct SdpSession {
    pub medias: Vec<SdpMedia>,
}

/// The value of the `control` attribute among the first `n`, if it has one. More than one of them
/// is an error, unless all but the last have no value.
pub open spec fn control_among(attributes: Seq<SdpAttribute>, n: int) -> Result<
    Option<Seq<char>>,
    Error,
>
    decreases n,
{
    if n <= 0 {
        Ok(None)
    } else {
        match control_among(attributes, n - 1) {
            Ok(control) => if attributes[n - 1].attribute@ == "control"@ {
                if control is Some {
                    Err(Error::spec_internal())
                } else {
                    Ok(opt_view(attributes[n - 1].value))
                }
            } else {
                Ok(control)
            },
            Err(err) => Err(err),
        }
    }
}

/// The value of the `control` attribute of a media. A media without one is an error.
pub open spec fn control_of(media: SdpMedia) -> Result<Seq<char>, Error> {
    match control_among(media.attributes@, media.attributes@.len() as int) {
        Ok(Some(control)) => Ok(control),
        Ok(None) => Err(Error::spec_internal()),
        Err(err) => Err(err),
    }
}

/// All errors of a description are the same.
proof fn lemma_control_among(attributes: Seq<SdpAttribute>, m: int, n: int)
    requires
        0 <= m <= n,
    ensures
        control_among(attributes, n) matches Err(err) ==> err == Error::spec_internal(),
        control_among(attributes, m) is Err ==> control_among(attributes, n) is Err,
    decreases n,
{
    if n > 0 {
        if m < n {
            lemma_control_among(attributes, m, n - 1);
        } else {
            lemma_control_among(attributes, n - 1, n - 1);
        }
    }
}

fn control(media: &SdpMedia) -> (r: Result<&String, Error>)
    ensures
        match r {
            Ok(control) => control_of(*media) == Ok::<Seq<char>, Error>(control@),
            Err(err) => control_of(*media) == Err::<Seq<char>, Error>(err),
        },
{
    let mut control: Option<&String> = None;
    let mut i: usize = 0;
    while i < media.attributes.len()
        invariant
            i <= media.attributes@.len(),
            control_among(media.attributes@, i as int) == Ok::<Option<Seq<char>>, Error>(
                match control {
                    Some(c) => Some(c@),
                    None => None,
                },
            ),
        decreases media.attributes@.len() - i,
    {
        let attribute = &media.attributes[i];
        if same(attribute.attribute.as_str(), "control") {
            if control.is_some() {
                proof {
                    assert(control_among(media.attributes@, i + 1) is Err);
                    lemma_control_among(media.attributes@, i + 1, media.attributes@.len() as int);
                }
                return Err(Error::internal());
            }
            control = attribute.value.as_ref();
        }
        i = i + 1;
    }
    match control {
        Some(control) => Ok(control),
        None => Err(Error::internal()),
    }
}

/// Whether the medias up to the first one without a `control` attribute of its own have no `..` in
/// the paths of these.
pub open spec fn are_streams(session: SdpSession) -> bool {
    forall|i: int|
        0 <= i < session.medias@.len() && (forall|j: int|
            0 <= j <= i ==> control_of(#[trigger] session.medias@[j]) is Ok) ==> is_stream_id(
            control_of(#[trigger] session.medias@[i])->Ok_0,
        )
}

/// Whether stream IDs can be parsed from the medias.
pub fn can_be_streams(session: &SdpSession) -> (r: bool)
    ensures
        r == are_streams(*session),
{
    let mut i: usize = 0;
    while i < session.medias.len()
        invariant
            i <= session.medias@.len(),
            forall|k: int|
                0 <= k < i ==> control_of(#[trigger] session.medias@[k]) is Ok && is_stream_id(
                    control_of(session.medias@[k])->Ok_0,
                ),
        decreases session.medias@.len() - i,
    {
        match control(&session.medias[i]) {
            Ok(control) => if !can_be_stream_id(control.as_str()) {
                proof {
                    assert(control_of(session.medias@[i as int]) is Ok);
                    assert forall|j: int| 0 <= j <= i implies control_of(
                        #[trigger] session.medias@[j],
                    ) is Ok by {
                    }
                }
                return false;
            },
            Err(_) => {
                assert(control_of(session.medias@[i as int]) is Err);
                return true;
            },
        }
        i = i + 1;
    }
    true
}

/// Parses all stream IDs from the `control` attributes of the medias.
pub fn stream_ids_from_sdp(session: &SdpSession) -> (r: Result<Vec<StreamId>, Error>)
    requires
        are_streams(*session),
    ensures
        match r {
            Ok(ids) => {
                &&& ids@.len() == session.medias@.len()
                &&& forall|i: int|
                    0 <= i < ids@.len() ==> control_of(session.medias@[i]) == Ok::<
                        Seq<char>,
                        Error,
                    >((#[trigger] ids@[i])@) && ids@[i].wf()
            },
            Err(err) => err == Error::spec_internal() && exists|i: int|
                0 <= i < session.medias@.len() && control_of(#[trigger] session.medias@[i]) is Err,
        },
{
    let mut stream_ids: Vec<StreamId> = Vec::new();
    let mut i: usize = 0;
    while i < session.medias.len()
        invariant
            i <= session.medias@.len(),
            are_streams(*session),
            stream_ids@.len() == i,
            forall|k: int|
                0 <= k < i ==> control_of(#[trigger] session.medias@[k]) == Ok::<Seq<char>, Error>(
                    stream_ids@[k]@,
                ) && stream_ids@[k].wf(),
        decreases session.medias@.len() - i,
    {
        match control(&session.medias[i]) {
            Ok(control) => {
                proof {
                    assert(control_of(session.medias@[i as int]) is Ok);
                    assert forall|j: int| 0 <= j <= i implies control_of(
                        #[trigger] session.medias@[j],
                    ) is Ok by {
                    }
                }
                stream_ids.push(StreamId::new(control.clone()));
            },
            Err(err) => {
                proof {
                    let attributes = session.medias@[i as int].attributes@;
                    lemma_control_among(attributes, 0, attributes.len() as int);
                }
                return Err(err);
            },
        }
        i = i + 1;
    }
    Ok(stream_ids)
}

/// Previously configured transport.
pub struct ConfiguredTransport {
    pub session_id: String,
    pub media_id: u128,
    pub stream_id: StreamId,
    /// The transport, as it is written in a header.
    pub transport: String,
}

impl ConfiguredTransport {
    /// Whether both are for the same stream of the same media in the same session.
    pub open spec fn spec_same(self, other: ConfiguredTransport) -> bool {
        self.session_id@ == other.session_id@ && self.media_id == other.media_id
            && self.stream_id@ == other.stream_id@
    }

    /// Whether both are for the same stream of the same media in the same session.
    pub fn same(&self, other: &ConfiguredTransport) -> (r: bool)
        ensures
            r == self.spec_same(*other),
    {
        same(self.session_id.as_str(), other.session_id.as_str()) && self.media_id == other.media_id
            && same(self.stream_id.as_str(), other.stream_id.as_str())
    }
}

} // verus!
