//! OPTIONS.

use vstd::prelude::*;

use super::client::Client;
use crate::error::{Error, StatusCode};
use crate::extra_data::{
    extra_headers, extra_headers_in, Extra, ExtraData, ExtraMap, PRESENTATION_URI, SESSION_ID,
};
use crate::headers::{
    empty_headers, header_value, list_elements, list_text, typed_session, with_extra_headers,
    with_header,
};
use crate::media::stream::{
    extract_stream_id_from_uri, opt_stream_view, stream_of_uri, StreamId,
};
use crate::message::{Request, RequestView, Response, ResponseView, Version};
use crate::server::mounts::PresentationURI;
use crate::text::{same, views};
use crate::url::Url;

verus! {

/// The methods that a client answers.
pub open spec fn public_methods() -> Seq<Seq<char>> {
    seq![
        "OPTIONS"@,
        "DESCRIBE"@,
        "SETUP"@,
        "PLAY"@,
        "PAUSE"@,
        "TEARDOWN"@,
        "GET_PARAMETER"@,
        "SET_PARAMETER"@,
    ]
}

/// The features of a client itself.
pub open spec fn client_features() -> Seq<Seq<char>> {
    seq!["play.basic"@, "setup.rtp.rtcp.mux"@]
}

fn public_method_names() -> (r: Vec<String>)
    ensures
        views(r@) == public_methods(),
{
    let mut methods: Vec<String> = Vec::new();
    methods.push("OPTIONS".to_owned());
    methods.push("DESCRIBE".to_owned());
    methods.push("SETUP".to_owned());
    methods.push("PLAY".to_owned());
    methods.push("PAUSE".to_owned());
    methods.push("TEARDOWN".to_owned());
    methods.push("GET_PARAMETER".to_owned());
    methods.push("SET_PARAMETER".to_owned());
    proof {
        assert(views(methods@) =~= public_methods());
    }
    methods
}

fn client_feature_names() -> (r: Vec<String>)
    ensures
        views(r@) == client_features(),
{
    let mut features: Vec<String> = Vec::new();
    features.push("play.basic".to_owned());
    features.push("setup.rtp.rtcp.mux".to_owned());
    proof {
        assert(views(features@) =~= client_features());
    }
    features
}

/// The features in a list header: none if there is no header.
pub open spec fn features_in(request: RequestView, name: Seq<char>) -> Seq<Seq<char>> {
    match header_value(request.headers, name) {
        Some(value) => list_elements(value),
        None => Seq::empty(),
    }
}

/// What is known about the features that a request asks for.
pub struct OptionsReply<V> {
    /// The methods that are allowed, if that is known.
    pub allow: Option<Vec<String>>,
    pub supported: Vec<String>,
    pub unsupported: Vec<String>,
    /// Extra data of whoever was asked, if anybody was.
    pub extra_data: Option<ExtraData<V>>,
}

/// `unsupported` and those of the first `n` required features that are neither supported nor in it
/// already.
pub open spec fn all_unsupported(
    required: Seq<Seq<char>>,
    n: int,
    supported: Seq<Seq<char>>,
    unsupported: Seq<Seq<char>>,
) -> Seq<Seq<char>>
    decreases n,
{
    if n <= 0 {
        unsupported
    } else {
        let before = all_unsupported(required, n - 1, supported, unsupported);
        if supported.contains(required[n - 1]) || before.contains(required[n - 1]) {
            before
        } else {
            before.push(required[n - 1])
        }
    }
}

/// The headers of the response before the features are looked at.
pub open spec fn options_headers<V>(reply: OptionsReply<V>) -> Map<Seq<char>, Seq<char>> {
    let headers = with_header(empty_headers(), "Public"@, list_text(public_methods()));
    match reply.extra_data {
        Some(extra_data) => with_extra_headers(headers, extra_headers_in(extra_data@)),
        None => headers,
    }
}

/// The methods of a list header.
pub open spec fn methods_in(headers: Map<Seq<char>, Seq<char>>, name: Seq<char>) -> Option<
    Seq<Seq<char>>,
> {
    match header_value(headers, name) {
        Some(value) => Some(list_elements(value)),
        None => None,
    }
}

/// The response to an OPTIONS request. It fails if a feature is unsupported or if a required one is
/// not supported.
///
/// The methods that are allowed are given unless they are those that the client answers.
pub open spec fn options_response<V>(
    version: Version,
    required: Seq<Seq<char>>,
    reply: OptionsReply<V>,
) -> ResponseView {
    let supported = views(reply.supported@);
    let unsupported = all_unsupported(
        required,
        required.len() as int,
        supported,
        views(reply.unsupported@),
    );
    let response = ResponseView::empty(version, StatusCode::Success);
    let public_headers = options_headers(reply);
    let headers = if version == Version::V2_0 && supported.len() > 0 {
        with_header(public_headers, "Supported"@, list_text(supported))
    } else {
        public_headers
    };
    if unsupported.len() > 0 {
        ResponseView {
            status: StatusCode::OptionNotSupported,
            headers: with_header(headers, "Unsupported"@, list_text(unsupported)),
            ..response
        }
    } else {
        ResponseView {
            headers: match reply.allow {
                Some(allow) => if allow@.len() > 0 && methods_in(headers, "Public"@) != Some(
                    views(allow@),
                ) {
                    with_header(headers, "Allow"@, list_text(views(allow@)))
                } else {
                    headers
                },
                None => headers,
            },
            ..response
        }
    }
}

/// Whether a list holds a name.
fn contains(list: &Vec<String>, name: &str) -> (r: bool)
    ensures
        r == views(list@).contains(name@),
{
    let mut i: usize = 0;
    while i < list.len()
        invariant
            i <= list@.len(),
            forall|j: int| 0 <= j < i ==> views(list@)[j] != name@,
        decreases list@.len() - i,
    {
        if same(list[i].as_str(), name) {
            proof {
                assert(views(list@)[i as int] == name@);
            }
            return true;
        }
        i = i + 1;
    }
    false
}

/// Whether two lists hold the same names in the same order.
fn same_lists(a: &Vec<String>, b: &Vec<String>) -> (r: bool)
    ensures
        r == (views(a@) == views(b@)),
{
    if a.len() != b.len() {
        proof {
            assert(views(a@).len() != views(b@).len());
        }
        return false;
    }
    let mut i: usize = 0;
    while i < a.len()
        invariant
            i <= a@.len(),
            a@.len() == b@.len(),
            forall|j: int| 0 <= j < i ==> views(a@)[j] == views(b@)[j],
        decreases a@.len() - i,
    {
        if !same(a[i].as_str(), b[i].as_str()) {
            proof {
                assert(views(a@)[i as int] != views(b@)[i as int]);
            }
            return false;
        }
        i = i + 1;
    }
    proof {
        assert(views(a@) =~= views(b@));
    }
    true
}

/// Whether an OPTIONS request was answered as it has to be.
pub open spec fn options_finished<V>(
    version: Version,
    required: Seq<Seq<char>>,
    reply: Result<OptionsReply<V>, Error>,
    r: Result<Response, Error>,
) -> bool {
    match reply {
        Ok(reply) => r matches Ok(response) && response@ == options_response(
            version,
            required,
            reply,
        ),
        Err(err) => r matches Err(e) && e == err,
    }
}

/// Answers an OPTIONS request with what is known about the features, or with the error of whoever
/// was asked.
pub fn finish_options<V>(
    version: Version,
    required: &Vec<String>,
    reply: Result<OptionsReply<V>, Error>,
) -> (r: Result<Response, Error>)
    ensures
        options_finished(version, views(required@), reply, r),
{
    let reply = match reply {
        Ok(reply) => reply,
        Err(err) => return Err(err),
    };
    let mut response = Response::new(version, StatusCode::Success);
    let methods = public_method_names();
    response.headers.insert_public(&methods);
    if let Some(extra_data) = &reply.extra_data {
        if let Some(extra) = extra_headers(extra_data) {
            response.insert_extra_headers(extra);
        }
    }
    if version == Version::V2_0 && reply.supported.len() > 0 {
        response.headers.insert_supported(&reply.supported);
    }
    let ghost needs = views(required@);
    let ghost supported = views(reply.supported@);
    let ghost reported = views(reply.unsupported@);
    let mut unsupported = reply.unsupported;
    let mut i: usize = 0;
    while i < required.len()
        invariant
            i <= required@.len(),
            needs == views(required@),
            supported == views(reply.supported@),
            views(unsupported@) == all_unsupported(needs, i as int, supported, reported),
        decreases required@.len() - i,
    {
        let feature = &required[i];
        proof {
            assert(needs[i as int] == feature@);
        }
        if !contains(&reply.supported, feature.as_str()) && !contains(
            &unsupported,
            feature.as_str(),
        ) {
            let ghost before = unsupported@;
            unsupported.push(feature.clone());
            proof {
                assert(views(unsupported@) =~= views(before).push(feature@));
            }
        }
        i = i + 1;
    }
    if unsupported.len() > 0 {
        response.status = StatusCode::OptionNotSupported;
        response.headers.insert_unsupported(&unsupported);
    } else if let Some(allow) = &reply.allow {
        let is_public: bool = match response.headers.public() {
            Some(public) => same_lists(allow, &public),
            None => false,
        };
        if allow.len() > 0 && !is_public {
            response.headers.insert_allow(allow);
        }
    }
    Ok(response)
}

/// An OPTIONS request. What it asks for is passed on to whoever has to be asked.
pub struct OptionsRequest {
    pub version: Version,
    pub supported: Vec<String>,
    pub require: Vec<String>,
}

/// Where an OPTIONS request goes first.
pub enum OptionsStart {
    /// It is for the server itself: it is answered at once.
    Server(OptionsRequest),
    /// It is for a session.
    Session(OptionsRequest, OptionsSession),
    /// It is for a URI.
    Uri(OptionsRequest, OptionsUri),
}

/// An OPTIONS request for a URI: the media factory that serves it has to be found.
pub struct OptionsUri {
    pub uri: Url,
}

/// An OPTIONS request for a session: the media factory that serves the URI has to be found first.
pub struct OptionsSession {
    pub uri: Url,
    pub session_id: String,
}

/// The session has to be found next.
pub struct OptionsSessionLookup {
    pub uri: Url,
    pub session_id: String,
    pub media_factory_id: u128,
    pub presentation_uri: PresentationURI,
}

/// The media of the session has to be asked for its media factory next.
pub struct OptionsMediaFactoryLookup {
    pub uri: Url,
    pub session_id: String,
    pub media_factory_id: u128,
    pub presentation_uri: PresentationURI,
    pub media_id: u128,
}

/// The session in a request, if it can be read.
pub open spec fn session_in(request: RequestView) -> Option<Seq<char>> {
    match typed_session(header_value(request.headers, "Session"@)) {
        Ok(session_id) => session_id,
        Err(_) => None,
    }
}

/// Whether what an OPTIONS request asks for was read.
pub open spec fn reads_options(request: RequestView, options: OptionsRequest) -> bool {
    &&& options.version == request.version
    &&& views(options.supported@) == features_in(request, "Supported"@)
    &&& views(options.require@) == features_in(request, "Require"@)
}

/// Whether an OPTIONS request was read as it has to be.
pub open spec fn options_started(request: RequestView, r: OptionsStart) -> bool {
    match request.request_uri {
        None => r matches OptionsStart::Server(options) && reads_options(request, options),
        Some(uri) => match session_in(request) {
            Some(session_id) => {
                &&& r matches OptionsStart::Session(options, next)
                &&& reads_options(request, options)
                &&& next.uri@ == uri
                &&& next.session_id@ == session_id
            },
            None => {
                &&& r matches OptionsStart::Uri(options, next)
                &&& reads_options(request, options)
                &&& next.uri@ == uri
            },
        },
    }
}

impl Client {
    /// Reads an OPTIONS request.
    pub fn handle_options(&self, request: &Request) -> (r: OptionsStart)
        ensures
            options_started(request@, r),
    {
        let options = OptionsRequest {
            version: request.version,
            supported: request.headers.supported(),
            require: request.headers.require(),
        };
        let uri = match &request.request_uri {
            Some(uri) => uri.copy(),
            None => return OptionsStart::Server(options),
        };
        match request.headers.session() {
            Ok(Some(session_id)) => OptionsStart::Session(options, OptionsSession { uri, session_id }),
            _ => OptionsStart::Uri(options, OptionsUri { uri }),
        }
    }
}

/// Whether an OPTIONS request for the server itself was answered as it has to be.
pub open spec fn server_options_answered(options: OptionsRequest, r: Response) -> bool {
    exists|reply: OptionsReply<()>|
        {
            &&& r@ == #[trigger] options_response(options.version, views(options.require@), reply)
            &&& reply.allow is None
            &&& views(reply.supported@) == client_features()
            &&& views(reply.unsupported@) == Seq::<Seq<char>>::empty()
            &&& reply.extra_data is None
        }
}

/// Answers an OPTIONS request for the server itself.
pub fn answer_server_options(options: &OptionsRequest) -> (r: Response)
    ensures
        server_options_answered(*options, r),
{
    let unsupported: Vec<String> = Vec::new();
    proof {
        assert(views(unsupported@) =~= Seq::<Seq<char>>::empty());
    }
    let reply: OptionsReply<()> = OptionsReply {
        allow: None,
        supported: client_feature_names(),
        unsupported,
        extra_data: None,
    };
    let ghost asked = reply;
    match finish_options(options.version, &options.require, Ok(reply)) {
        Ok(response) => {
            proof {
                assert(response@ == options_response(
                    options.version,
                    views(options.require@),
                    asked,
                ));
            }
            response
        },
        Err(_) => {
            proof {
                assert(false);
            }
            Response::new(options.version, StatusCode::Success)
        },
    }
}

/// Extra data for what is done for a presentation: that of the request and of the mount, and the
/// presentation URI.
pub open spec fn mount_extra_data<V>(
    extra_data: ExtraMap<V>,
    mount_data: ExtraMap<V>,
    presentation_uri: PresentationURI,
) -> ExtraMap<V> {
    extra_data.union_prefer_right(mount_data).insert(
        PRESENTATION_URI,
        Extra::PresentationURI(presentation_uri),
    )
}

/// Adds the extra data of a mount.
pub fn add_mount_extra_data<V>(
    extra_data: &mut ExtraData<V>,
    mount_data: &ExtraData<V>,
    presentation_uri: &PresentationURI,
)
    ensures
        final(extra_data)@ == mount_extra_data(
            old(extra_data)@,
            mount_data@,
            *presentation_uri,
        ),
{
    extra_data.extend(mount_data);
    extra_data.insert(PRESENTATION_URI, Extra::PresentationURI(presentation_uri.copy()));
}

impl OptionsUri {
    /// Whether what is known of the URI leads to `r`, and to extra data from what was there before.
    pub open spec fn leads_to<V>(
        self,
        reply: Result<(u128, PresentationURI, ExtraData<V>), Error>,
        before: ExtraMap<V>,
        after: ExtraMap<V>,
        r: Result<(u128, Option<StreamId>), Error>,
    ) -> bool {
        match reply {
            Ok((media_factory_id, presentation_uri, mount_data)) => match stream_of_uri(
                presentation_uri@,
                self.uri@,
            ) {
                Ok(stream) => {
                    &&& r matches Ok((id, stream_id))
                    &&& id == media_factory_id
                    &&& opt_stream_view(stream_id) == stream
                    &&& after == mount_extra_data(
                        before,
                        mount_data@,
                        presentation_uri,
                    )
                },
                Err(err) => r matches Err(e) && e == err,
            },
            Err(err) => r matches Err(e) && e == err,
        }
    }

    /// The media factory that serves the URI was found with its presentation URI and the extra data
    /// of its mount, or not.
    ///
    /// The media factory is to be asked for the options of the stream next.
    pub fn uri_found<V>(
        self,
        reply: Result<(u128, PresentationURI, ExtraData<V>), Error>,
        extra_data: &mut ExtraData<V>,
    ) -> (r: Result<(u128, Option<StreamId>), Error>)
        ensures
            self.leads_to(reply, old(extra_data)@, final(extra_data)@, r),
            r is Err ==> final(extra_data)@ == old(extra_data)@,
    {
        let (media_factory_id, presentation_uri, mount_data) = match reply {
            Ok(found) => found,
            Err(err) => return Err(err),
        };
        match extract_stream_id_from_uri(&presentation_uri, &self.uri) {
            Ok(stream_id) => {
                add_mount_extra_data(extra_data, &mount_data, &presentation_uri);
                Ok((media_factory_id, stream_id))
            },
            Err(err) => Err(err),
        }
    }
}

impl OptionsSession {
    /// Whether what is known of the URI leads to `r`.
    pub open spec fn leads_to(
        self,
        reply: Result<(u128, PresentationURI), Error>,
        r: Result<OptionsSessionLookup, Error>,
    ) -> bool {
        match reply {
            Ok((media_factory_id, presentation_uri)) => r matches Ok(next) && next == (
            OptionsSessionLookup {
                uri: self.uri,
                session_id: self.session_id,
                media_factory_id,
                presentation_uri,
            }),
            Err(err) => r matches Err(e) && e == err,
        }
    }

    /// The media factory that serves the URI was found with its presentation URI, or not.
    pub fn uri_found(self, reply: Result<(u128, PresentationURI), Error>) -> (r: Result<
        OptionsSessionLookup,
        Error,
    >)
        ensures
            self.leads_to(reply, r),
    {
        match reply {
            Ok((media_factory_id, presentation_uri)) => Ok(
                OptionsSessionLookup {
                    uri: self.uri,
                    session_id: self.session_id,
                    media_factory_id,
                    presentation_uri,
                },
            ),
            Err(err) => Err(err),
        }
    }
}

impl OptionsSessionLookup {
    /// Whether what is known of the session leads to `r`.
    pub open spec fn leads_to(
        self,
        reply: Result<(u128, PresentationURI), Error>,
        r: Result<OptionsMediaFactoryLookup, Error>,
    ) -> bool {
        match reply {
            Ok((media_id, session_uri)) => if self.presentation_uri@.text == session_uri@.text {
                r matches Ok(next) && next == (OptionsMediaFactoryLookup {
                    uri: self.uri,
                    session_id: self.session_id,
                    media_factory_id: self.media_factory_id,
                    presentation_uri: self.presentation_uri,
                    media_id,
                })
            } else {
                r matches Err(e) && e == Error::spec_status(StatusCode::SessionNotFound)
            },
            Err(err) => r matches Err(e) && e == err,
        }
    }

    /// The session was found with its media and its presentation URI, or not. It has to have the
    /// presentation URI of the request.
    pub fn session_found(self, reply: Result<(u128, PresentationURI), Error>) -> (r: Result<
        OptionsMediaFactoryLookup,
        Error,
    >)
        ensures
            self.leads_to(reply, r),
    {
        match reply {
            Ok((media_id, session_uri)) => if self.presentation_uri.same(&session_uri) {
                Ok(
                    OptionsMediaFactoryLookup {
                        uri: self.uri,
                        session_id: self.session_id,
                        media_factory_id: self.media_factory_id,
                        presentation_uri: self.presentation_uri,
                        media_id,
                    },
                )
            } else {
                Err(Error::status(StatusCode::SessionNotFound))
            },
            Err(err) => Err(err),
        }
    }
}

impl OptionsMediaFactoryLookup {
    /// Whether what the media tells leads to `r`, and to extra data from that of the mount and what
    /// was there before.
    pub open spec fn leads_to<V>(
        self,
        reply: Result<u128, Error>,
        mount_data: ExtraMap<V>,
        before: ExtraMap<V>,
        after: ExtraMap<V>,
        r: Result<(u128, Option<StreamId>), Error>,
    ) -> bool {
        match reply {
            Ok(media_factory_id) => if media_factory_id != self.media_factory_id {
                r matches Err(e) && e == Error::spec_status(StatusCode::SessionNotFound)
            } else {
                match stream_of_uri(self.presentation_uri@, self.uri@) {
                    Ok(stream) => {
                        &&& r matches Ok((id, stream_id))
                        &&& id == self.media_id
                        &&& opt_stream_view(stream_id) == stream
                        &&& after == mount_extra_data(
                            before,
                            mount_data,
                            self.presentation_uri,
                        ).insert(SESSION_ID, Extra::SessionId(self.session_id))
                    },
                    Err(err) => r matches Err(e) && e == err,
                }
            },
            Err(err) => r matches Err(e) && e == err,
        }
    }

    /// The media has told its media factory, or failed to. It has to be the one that serves the
    /// URI.
    ///
    /// The media is to be asked for the options of the stream next.
    pub fn media_factory_found<V>(
        self,
        reply: Result<u128, Error>,
        mount_data: &ExtraData<V>,
        extra_data: &mut ExtraData<V>,
    ) -> (r: Result<(u128, Option<StreamId>), Error>)
        ensures
            self.leads_to(reply, mount_data@, old(extra_data)@, final(extra_data)@, r),
            r is Err ==> final(extra_data)@ == old(extra_data)@,
    {
        match reply {
            Ok(media_factory_id) => if media_factory_id != self.media_factory_id {
                Err(Error::status(StatusCode::SessionNotFound))
            } else {
                match extract_stream_id_from_uri(&self.presentation_uri, &self.uri) {
                    Ok(stream_id) => {
                        add_mount_extra_data(extra_data, mount_data, &self.presentation_uri);
                        extra_data.insert(SESSION_ID, Extra::SessionId(self.session_id));
                        Ok((self.media_id, stream_id))
                    },
                    Err(err) => Err(err),
                }
            },
            Err(err) => Err(err),
        }
    }
}

/// Which features are not supported.
pub proof fn lemma_all_unsupported(
    required: Seq<Seq<char>>,
    n: int,
    supported: Seq<Seq<char>>,
    unsupported: Seq<Seq<char>>,
)
    requires
        0 <= n <= required.len(),
    ensures
        unsupported.is_prefix_of(all_unsupported(required, n, supported, unsupported)),
        forall|i: int|
            0 <= i < n ==> supported.contains(#[trigger] required[i]) || all_unsupported(
                required,
                n,
                supported,
                unsupported,
            ).contains(required[i]),
        forall|f: Seq<char>| #[trigger]
            all_unsupported(required, n, supported, unsupported).contains(f)
                ==> unsupported.contains(f) || (required.contains(f) && !supported.contains(f)),
    decreases n,
{
    let all = all_unsupported(required, n, supported, unsupported);
    if n > 0 {
        let before = all_unsupported(required, n - 1, supported, unsupported);
        lemma_all_unsupported(required, n - 1, supported, unsupported);
        let last = required[n - 1];
        if !(supported.contains(last) || before.contains(last)) {
            assert(all =~= before.push(last));
            assert(all[before.len() as int] == last);
            assert forall|f: Seq<char>| before.contains(f) implies all.contains(f) by {
                let k = choose|k: int| 0 <= k < before.len() && before[k] == f;
                assert(all[k] == f);
            }
            assert forall|f: Seq<char>| #[trigger] all.contains(f) implies unsupported.contains(f)
                || (required.contains(f) && !supported.contains(f)) by {
                let k = choose|k: int| 0 <= k < all.len() && all[k] == f;
                if k < before.len() {
                    assert(before[k] == f);
                    assert(before.contains(f));
                }
            }
        }
    }
}

/// No feature is listed twice as unsupported unless it is reported so.
pub proof fn law_unsupported_is_listed_once(
    required: Seq<Seq<char>>,
    n: int,
    supported: Seq<Seq<char>>,
    unsupported: Seq<Seq<char>>,
)
    requires
        0 <= n <= required.len(),
        unsupported.no_duplicates(),
    ensures
        all_unsupported(required, n, supported, unsupported).no_duplicates(),
    decreases n,
{
    if n > 0 {
        law_unsupported_is_listed_once(required, n - 1, supported, unsupported);
        let before = all_unsupported(required, n - 1, supported, unsupported);
        let all = all_unsupported(required, n, supported, unsupported);
        assert forall|i: int, j: int| 0 <= i < j < all.len() implies all[i] != all[j] by {
            if j == before.len() {
                assert(before.contains(before[i]));
            }
        }
    }
}

/// An OPTIONS request succeeds exactly if nothing is reported as unsupported and everything that is
/// required is supported.
pub proof fn law_options_succeed<V>(
    version: Version,
    required: Seq<Seq<char>>,
    reply: OptionsReply<V>,
)
    ensures
        options_response(version, required, reply).status == StatusCode::Success <==> {
            &&& reply.unsupported@.len() == 0
            &&& forall|i: int|
                0 <= i < required.len() ==> views(reply.supported@).contains(
                    #[trigger] required[i],
                )
        },
        options_response(version, required, reply).status == StatusCode::Success
            || options_response(version, required, reply).status == StatusCode::OptionNotSupported,
{
    let supported = views(reply.supported@);
    let reported = views(reply.unsupported@);
    let n = required.len() as int;
    lemma_all_unsupported(required, n, supported, reported);
    let all = all_unsupported(required, n, supported, reported);
    if reply.unsupported@.len() == 0 && forall|i: int|
        0 <= i < required.len() ==> supported.contains(#[trigger] required[i]) {
        if all.len() > 0 {
            assert(all.contains(all[0]));
            assert(required.contains(all[0]));
            let i = choose|i: int| 0 <= i < required.len() && required[i] == all[0];
            assert(supported.contains(required[i]));
        }
    }
    if all.len() == 0 {
        assert forall|i: int| 0 <= i < required.len() implies supported.contains(
            #[trigger] required[i],
        ) by {
        }
    }
}

} // verus!
