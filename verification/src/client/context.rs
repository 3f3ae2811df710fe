//! The state of a client: its sessions, pipelined requests, interleaved channels and the requests
//! on their way.

use std::collections::{HashMap, HashSet};

use vstd::prelude::*;

use crate::collections::set_elements;
use crate::error::{Error, StatusCode};
use crate::server::mounts::PresentationURI;
use crate::table::Table;
use crate::url::{opt_view, UrlView};

verus! {

broadcast use vstd::std_specs::hash::group_hash_axioms;

/// A session of a client, as it is seen in contracts.
#[verifier::ext_equal]
pub ghost struct ClientSessionView {
    pub media_id: u128,
    pub presentation_uri: UrlView,
    pub pipelined_request: Option<u32>,
    pub channel_ids: Seq<u8>,
}

/// A session of a client.
pub struct ClientSession {
    pub media_id: u128,
    pub presentation_uri: PresentationURI,
    /// The pipelined request that the session was created for.
    pub pipelined_request: Option<u32>,
    /// The interleaved channels that end together with the session.
    pub channel_ids: Vec<u8>,
}

impl ClientSession {
    /// What is known of this session.
    pub open spec fn view(self) -> ClientSessionView {
        ClientSessionView {
            media_id: self.media_id,
            presentation_uri: self.presentation_uri@,
            pipelined_request: self.pipelined_request,
            channel_ids: self.channel_ids@,
        }
    }
}

/// A pipelined request, as it is seen in contracts.
#[verifier::ext_equal]
pub ghost enum PipelinedRequestView<W> {
    Waiting(Seq<W>),
    Registered(Seq<char>),
}

/// What is known of a pipelined request.
pub enum PipelinedRequest<W> {
    /// The first request for it is being worked on. The others wait.
    Waiting(Vec<W>),
    /// A session was created for it.
    Registered(String),
}

impl<W> PipelinedRequest<W> {
    /// What is known of this pipelined request.
    pub open spec fn view(self) -> PipelinedRequestView<W> {
        match self {
            PipelinedRequest::Waiting(waiters) => PipelinedRequestView::Waiting(waiters@),
            PipelinedRequest::Registered(session_id) => PipelinedRequestView::Registered(
                session_id@,
            ),
        }
    }
}

/// The state of a client, as it is seen in contracts.
#[verifier::ext_equal]
pub ghost struct ClientView<W> {
    /// The sequence number of the next request to the peer.
    pub cseq_counter: u32,
    /// Requests to the peer that wait for a response.
    pub pending_responses: Set<u32>,
    /// Requests of the peer that wait for a response.
    pub pending_requests: Set<u32>,
    /// The sessions, by their identifiers.
    pub sessions: Map<Seq<char>, ClientSessionView>,
    /// The pipelined requests.
    pub pipelined_requests: Map<u32, PipelinedRequestView<W>>,
    /// The medias in use, each with its session.
    pub session_medias: Map<u128, Seq<char>>,
    /// The interleaved channels in use, each with its session.
    pub interleaved_channels: Map<u8, Seq<char>>,
}

/// Whether the `n` channels from `first` on are free.
pub open spec fn channels_free(channels: Map<u8, Seq<char>>, first: int, n: int) -> bool {
    forall|c: u8| first <= c < first + n ==> !#[trigger] channels.dom().contains(c)
}

/// The first `n` free channels from `first` on, if there are any.
pub open spec fn first_free(channels: Map<u8, Seq<char>>, first: int, n: int) -> Option<u8>
    decreases 256 - first,
{
    if first < 0 || first + n > u8::MAX {
        None
    } else if channels_free(channels, first, n) {
        Some(first as u8)
    } else {
        first_free(channels, first + 1, n)
    }
}

/// The channels with `n` more of them from `first` on.
pub open spec fn with_channels(
    channels: Map<u8, Seq<char>>,
    first: int,
    n: int,
    session_id: Seq<char>,
) -> Map<u8, Seq<char>> {
    Map::new(
        |c: u8| first <= c < first + n || channels.dom().contains(c),
        |c: u8|
            if first <= c < first + n {
                session_id
            } else {
                channels[c]
            },
    )
}

/// The channels without those in `ids`.
pub open spec fn without_channels(channels: Map<u8, Seq<char>>, ids: Seq<u8>) -> Map<u8, Seq<char>> {
    Map::new(|c: u8| channels.dom().contains(c) && !ids.contains(c), |c: u8| channels[c])
}

/// Those of `ids` that are in use.
pub open spec fn channels_in_use(channels: Map<u8, Seq<char>>, ids: Seq<u8>) -> Set<u8> {
    Set::new(|c: u8| ids.contains(c) && channels.dom().contains(c))
}

/// The identifiers without `c`.
pub open spec fn without_id(ids: Seq<u8>, c: u8) -> Seq<u8>
    decreases ids.len(),
{
    if ids.len() == 0 {
        ids
    } else if ids.last() == c {
        without_id(ids.drop_last(), c)
    } else {
        without_id(ids.drop_last(), c).push(ids.last())
    }
}

/// The `n` identifiers from `first` on.
pub open spec fn ids_from(first: u8, n: int) -> Seq<u8> {
    Seq::new(n as nat, |i: int| (first + i) as u8)
}

/// The entry for a pipelined request removed, if there is one.
pub open spec fn without_pipelined<W>(
    pipelined: Map<u32, PipelinedRequestView<W>>,
    request: Option<u32>,
) -> Map<u32, PipelinedRequestView<W>> {
    match request {
        Some(request) => pipelined.remove(request),
        None => pipelined,
    }
}

/// The error that those get who wait for a pipelined request when the first one ends.
pub open spec fn waiting_error(result: Result<(), Error>) -> Error {
    match result {
        Ok(()) => Error::spec_internal(),
        Err(err) => err,
    }
}

impl<W> ClientView<W> {
    /// A client without sessions and requests. Its first request has the number 1.
    pub open spec fn initial() -> ClientView<W> {
        ClientView {
            cseq_counter: 1,
            pending_responses: Set::empty(),
            pending_requests: Set::empty(),
            sessions: Map::empty(),
            pipelined_requests: Map::empty(),
            session_medias: Map::empty(),
            interleaved_channels: Map::empty(),
        }
    }

    /// The client after a request was sent to the peer.
    pub open spec fn request_sent(self) -> ClientView<W> {
        ClientView {
            cseq_counter: (self.cseq_counter + 1) as u32,
            pending_responses: self.pending_responses.insert(self.cseq_counter),
            ..self
        }
    }

    /// The client after nothing more is to be done for a request to the peer.
    pub open spec fn request_finished(self, cseq: u32) -> ClientView<W> {
        ClientView { pending_responses: self.pending_responses.remove(cseq), ..self }
    }

    /// The client when a request of the peer is being worked on.
    pub open spec fn request_started(self, cseq: u32) -> ClientView<W> {
        ClientView { pending_requests: self.pending_requests.insert(cseq), ..self }
    }

    /// The client after a request of the peer was answered.
    pub open spec fn response_finished(self, cseq: u32) -> ClientView<W> {
        ClientView { pending_requests: self.pending_requests.remove(cseq), ..self }
    }

    /// Which channels are used for `n` new ones: those asked for if they are free, else the first
    /// free ones.
    pub open spec fn choose_channels(self, session_id: Seq<char>, channel_id: Option<u8>, n: int) -> Result<
        u8,
        Error,
    > {
        if !self.sessions.dom().contains(session_id) {
            Err(Error::spec_status(StatusCode::SessionNotFound))
        } else if n > u8::MAX || (channel_id matches Some(c) && c + n > u8::MAX) {
            Err(Error::spec_status(StatusCode::BadRequest))
        } else if channel_id matches Some(c) && channels_free(self.interleaved_channels, c as int, n) {
            Ok(channel_id->0)
        } else {
            match first_free(self.interleaved_channels, 0, n) {
                Some(c) => Ok(c),
                None => Err(Error::spec_status(StatusCode::UnsupportedTransport)),
            }
        }
    }

    /// This client with other channels in a session.
    pub open spec fn with_channel_ids(self, session_id: Seq<char>, ids: Seq<u8>) -> ClientView<W> {
        ClientView {
            sessions: self.sessions.insert(
                session_id,
                ClientSessionView { channel_ids: ids, ..self.sessions[session_id] },
            ),
            ..self
        }
    }

    /// This client with `n` more channels in use, which the session knows of.
    pub open spec fn register_interleaved_channel(
        self,
        session_id: Seq<char>,
        channel_id: Option<u8>,
        n: int,
    ) -> ClientView<W> {
        match self.choose_channels(session_id, channel_id, n) {
            Ok(first) => ClientView {
                interleaved_channels: with_channels(
                    self.interleaved_channels,
                    first as int,
                    n,
                    session_id,
                ),
                ..self.with_channel_ids(
                    session_id,
                    self.sessions[session_id].channel_ids + ids_from(first, n),
                )
            },
            Err(_) => self,
        }
    }

    /// This client when a media registers channels for its session.
    pub open spec fn media_registers_channels(
        self,
        media_id: u128,
        session_id: Seq<char>,
        channel_id: Option<u8>,
        n: int,
    ) -> (ClientView<W>, Result<u8, Error>) {
        match self.check_media(session_id, media_id) {
            Ok(()) => (
                self.register_interleaved_channel(session_id, channel_id, n),
                self.choose_channels(session_id, channel_id, n),
            ),
            Err(err) => (self, Err(err)),
        }
    }

    /// This client when a channel was closed: it is free again, and its session does not know of it
    /// any longer.
    pub open spec fn interleaved_channel_closed(self, c: u8) -> ClientView<W> {
        if self.interleaved_channels.dom().contains(c) {
            let session_id = self.interleaved_channels[c];
            let known = if self.sessions.dom().contains(session_id) {
                self.with_channel_ids(session_id, without_id(self.sessions[session_id].channel_ids, c))
            } else {
                self
            };
            ClientView { interleaved_channels: self.interleaved_channels.remove(c), ..known }
        } else {
            self
        }
    }

    /// The channels that end together with a session.
    pub open spec fn ending_channels(self, session_id: Seq<char>) -> Set<u8> {
        if self.sessions.dom().contains(session_id) {
            channels_in_use(self.interleaved_channels, self.sessions[session_id].channel_ids)
        } else {
            Set::empty()
        }
    }

    /// This client without a session, and without all that belongs to it but its media.
    pub open spec fn without_session(self, session_id: Seq<char>) -> ClientView<W> {
        if self.sessions.dom().contains(session_id) {
            let session = self.sessions[session_id];
            ClientView {
                sessions: self.sessions.remove(session_id),
                pipelined_requests: without_pipelined(
                    self.pipelined_requests,
                    session.pipelined_request,
                ),
                interleaved_channels: without_channels(
                    self.interleaved_channels,
                    session.channel_ids,
                ),
                ..self
            }
        } else {
            self
        }
    }

    /// This client without a session, and without all that belongs to it.
    pub open spec fn session_ended(self, session_id: Seq<char>) -> ClientView<W> {
        if self.sessions.dom().contains(session_id) {
            ClientView {
                session_medias: self.session_medias.remove(self.sessions[session_id].media_id),
                ..self.without_session(session_id)
            }
        } else {
            self
        }
    }

    /// This client without a media, and without the session that it is used for.
    pub open spec fn media_ended(self, media_id: u128) -> ClientView<W> {
        if self.session_medias.dom().contains(media_id) {
            ClientView {
                session_medias: self.session_medias.remove(media_id),
                ..self.without_session(self.session_medias[media_id])
            }
        } else {
            self
        }
    }

    /// Whether a media is the one of a session.
    pub open spec fn check_media(self, session_id: Seq<char>, media_id: u128) -> Result<(), Error> {
        if !self.sessions.dom().contains(session_id) {
            Err(Error::spec_status(StatusCode::SessionNotFound))
        } else if self.sessions[session_id].media_id == media_id {
            Ok(())
        } else {
            Err(Error::spec_internal())
        }
    }

    /// This client with a session that was created or found.
    pub open spec fn with_session(
        self,
        session_id: Seq<char>,
        media_id: u128,
        presentation_uri: UrlView,
        pipelined_request: Option<u32>,
    ) -> ClientView<W> {
        ClientView {
            sessions: self.sessions.insert(
                session_id,
                ClientSessionView {
                    media_id,
                    presentation_uri,
                    pipelined_request,
                    channel_ids: Seq::empty(),
                },
            ),
            session_medias: self.session_medias.insert(media_id, session_id),
            ..self
        }
    }

    /// This client when the server has found a session for it.
    pub open spec fn session_found(
        self,
        session_id: Seq<char>,
        media_id: u128,
        presentation_uri: UrlView,
    ) -> ClientView<W> {
        if self.sessions.dom().contains(session_id) {
            self
        } else {
            self.with_session(session_id, media_id, presentation_uri, None)
        }
    }

    /// The session that a channel is used for.
    pub open spec fn session_of_channel(self, c: u8) -> Option<Seq<char>> {
        if self.interleaved_channels.dom().contains(c) {
            Some(self.interleaved_channels[c])
        } else {
            None
        }
    }

    /// The media and the presentation URI of a session.
    pub open spec fn known_session(self, session_id: Seq<char>) -> Option<(u128, UrlView)> {
        if self.sessions.dom().contains(session_id) {
            Some(
                (self.sessions[session_id].media_id, self.sessions[session_id].presentation_uri),
            )
        } else {
            None
        }
    }

    /// The media that has to be told of what happens to a session, if it is in use.
    pub open spec fn media_to_tell(self, session_id: Seq<char>) -> Result<Option<u128>, Error> {
        if self.sessions.dom().contains(session_id) {
            let media_id = self.sessions[session_id].media_id;
            Ok(
                if self.session_medias.dom().contains(media_id) {
                    Some(media_id)
                } else {
                    None
                },
            )
        } else {
            Err(Error::spec_status(StatusCode::SessionNotFound))
        }
    }

    /// This client when the server refused to create a session.
    pub open spec fn create_session_failed(
        self,
        session_id: Seq<char>,
        media_id: u128,
        pipelined_request: Option<u32>,
    ) -> ClientView<W> {
        ClientView {
            session_medias: self.session_medias.remove(media_id),
            sessions: self.sessions.remove(session_id),
            pipelined_requests: without_pipelined(self.pipelined_requests, pipelined_request),
            interleaved_channels: if self.sessions.dom().contains(session_id) {
                without_channels(self.interleaved_channels, self.sessions[session_id].channel_ids)
            } else {
                self.interleaved_channels
            },
            ..self
        }
    }

    /// This client when the session of a pipelined request is looked for: the first request begins
    /// it, the others wait for the first as long as it has not ended.
    pub open spec fn pipelined_looked_for(self, request: u32, waiter: W) -> ClientView<W> {
        if !self.pipelined_requests.dom().contains(request) {
            ClientView {
                pipelined_requests: self.pipelined_requests.insert(
                    request,
                    PipelinedRequestView::Waiting(Seq::empty()),
                ),
                ..self
            }
        } else {
            match self.pipelined_requests[request] {
                PipelinedRequestView::Waiting(waiters) => ClientView {
                    pipelined_requests: self.pipelined_requests.insert(
                        request,
                        PipelinedRequestView::Waiting(waiters.push(waiter)),
                    ),
                    ..self
                },
                PipelinedRequestView::Registered(_) => self,
            }
        }
    }

    /// This client when the session for a pipelined request was created: all that waited for it
    /// stop doing so.
    pub open spec fn pipelined_registered(self, request: u32, session_id: Seq<char>) -> ClientView<W> {
        if self.pipelined_requests.dom().contains(request) {
            ClientView {
                pipelined_requests: self.pipelined_requests.insert(
                    request,
                    PipelinedRequestView::Registered(session_id),
                ),
                ..self
            }
        } else {
            self
        }
    }

    /// This client when the first request for a pipelined request has ended: a session that was
    /// created stays registered, and otherwise the next request is the first again.
    pub open spec fn pipelined_resolved(self, request: u32) -> ClientView<W> {
        if self.pipelined_requests.dom().contains(request)
            && self.pipelined_requests[request] is Registered {
            self
        } else {
            ClientView { pipelined_requests: self.pipelined_requests.remove(request), ..self }
        }
    }

    /// Whether this is what is found for a pipelined request.
    pub open spec fn pipelined_found(self, request: u32, waiter: W, r: PipelinedSession<W>) -> bool {
        if !self.pipelined_requests.dom().contains(request) {
            r == PipelinedSession::First(waiter)
        } else {
            match self.pipelined_requests[request] {
                PipelinedRequestView::Waiting(_) => r == PipelinedSession::<W>::Waits,
                PipelinedRequestView::Registered(s) => {
                    &&& r matches PipelinedSession::Found { session_id, media_id, presentation_uri }
                    &&& session_id@ == s
                    &&& media_id == self.sessions[s].media_id
                    &&& presentation_uri@ == self.sessions[s].presentation_uri
                },
            }
        }
    }

    /// Those that wait for a pipelined request.
    pub open spec fn waiters(self, request: u32) -> Seq<W> {
        if self.pipelined_requests.dom().contains(request) {
            match self.pipelined_requests[request] {
                PipelinedRequestView::Waiting(waiters) => waiters,
                PipelinedRequestView::Registered(_) => Seq::empty(),
            }
        } else {
            Seq::empty()
        }
    }

    /// This client when the server has created a session, and those who get it.
    pub open spec fn session_created(
        self,
        session_id: Seq<char>,
        pipelined_request: Option<u32>,
    ) -> (ClientView<W>, Seq<W>) {
        match pipelined_request {
            Some(p) => (self.pipelined_registered(p, session_id), self.waiters(p)),
            None => (self, Seq::empty()),
        }
    }

    /// This client when the first request for a pipelined request has ended, those who still wait
    /// for it, and the error that they get.
    pub open spec fn pipelined_ended(self, request: u32, result: Result<(), Error>) -> (
        ClientView<W>,
        Seq<W>,
        Error,
    ) {
        (self.pipelined_resolved(request), self.waiters(request), waiting_error(result))
    }

    /// Every session is the one that its media is used for.
    pub open spec fn medias_agree(self) -> bool {
        forall|s: Seq<char>|
            #![trigger self.sessions[s]]
            self.sessions.dom().contains(s) ==> self.session_medias.dom().contains(
                self.sessions[s].media_id,
            ) && self.session_medias[self.sessions[s].media_id] == s
    }

    /// Whether a pipelined request, if it has a session, has one that is there and knows of it.
    pub open spec fn pipelined_entry_agrees(self, request: u32) -> bool {
        match self.pipelined_requests[request] {
            PipelinedRequestView::Registered(s) => self.sessions.dom().contains(s)
                && self.sessions[s].pipelined_request == Some(request),
            PipelinedRequestView::Waiting(_) => true,
        }
    }

    /// Every pipelined request that has a session has one that is there, and that knows of it.
    pub open spec fn pipelined_agree(self) -> bool {
        forall|p: u32|
            #![trigger self.pipelined_requests[p]]
            self.pipelined_requests.dom().contains(p) ==> self.pipelined_entry_agrees(p)
    }

    /// Whether a channel is one of a session.
    pub open spec fn session_knows_channel(self, session_id: Seq<char>, c: u8) -> bool {
        self.sessions.dom().contains(session_id) && self.sessions[session_id].channel_ids.contains(c)
    }

    /// Every channel in use is known to the session that it is used for, and to no other; sessions
    /// know of no other channels.
    pub open spec fn channels_agree(self) -> bool {
        forall|s: Seq<char>, c: u8| #[trigger]
            self.session_knows_channel(s, c) <==> self.interleaved_channels.dom().contains(c)
                && self.interleaved_channels[c] == s
    }
}

/// The state of a client.
///
/// Those that wait for a pipelined request are of any kind.
pub struct Context<W> {
    pub id: u128,
    pub cseq_counter: u32,
    pub pending_responses: HashSet<u32>,
    pub pending_requests: HashSet<u32>,
    pub sessions: Table<ClientSession>,
    pub pipelined_requests: HashMap<u32, PipelinedRequest<W>>,
    pub session_medias: HashMap<u128, String>,
    pub interleaved_channels: HashMap<u8, String>,
}

/// The identifiers without `c`.
fn remove_id(ids: &Vec<u8>, c: u8) -> (r: Vec<u8>)
    ensures
        r@ == without_id(ids@, c),
{
    let mut rest: Vec<u8> = Vec::new();
    let mut i: usize = 0;
    while i < ids.len()
        invariant
            i <= ids@.len(),
            rest@ == without_id(ids@.take(i as int), c),
        decreases ids@.len() - i,
    {
        proof {
            assert(ids@.take(i + 1).drop_last() =~= ids@.take(i as int));
        }
        if ids[i] != c {
            rest.push(ids[i]);
        }
        i = i + 1;
    }
    proof {
        assert(ids@.take(i as int) =~= ids@);
    }
    rest
}

/// What is found for a pipelined request.
pub enum PipelinedSession<W> {
    /// It is the first request: the caller has to create the session.
    First(W),
    /// The caller waits for the first request.
    Waits,
    /// There is a session already.
    Found { session_id: String, media_id: u128, presentation_uri: PresentationURI },
}

impl<W> Context<W> {
    /// Every session has its name once.
    pub open spec fn wf(self) -> bool {
        self.sessions.wf()
    }

    /// What is known of requests, sessions, medias and channels.
    pub open spec fn view(self) -> ClientView<W> {
        ClientView {
            cseq_counter: self.cseq_counter,
            pending_responses: self.pending_responses@,
            pending_requests: self.pending_requests@,
            sessions: Map::new(
                |id: Seq<char>| self.sessions@.dom().contains(id),
                |id: Seq<char>| self.sessions@[id]@,
            ),
            pipelined_requests: Map::new(
                |p: u32| self.pipelined_requests@.dom().contains(p),
                |p: u32| self.pipelined_requests@[p]@,
            ),
            session_medias: Map::new(
                |m: u128| self.session_medias@.dom().contains(m),
                |m: u128| self.session_medias@[m]@,
            ),
            interleaved_channels: Map::new(
                |c: u8| self.interleaved_channels@.dom().contains(c),
                |c: u8| self.interleaved_channels@[c]@,
            ),
        }
    }

    /// A client without sessions and requests.
    pub fn new(id: u128) -> (r: Context<W>)
        ensures
            r.wf(),
            r.id == id,
            r@ == ClientView::<W>::initial(),
    {
        let r = Context {
            id,
            // Some clients take a 0 for an error
            cseq_counter: 1,
            pending_responses: HashSet::new(),
            pending_requests: HashSet::new(),
            sessions: Table::new(),
            pipelined_requests: HashMap::new(),
            session_medias: HashMap::new(),
            interleaved_channels: HashMap::new(),
        };
        proof {
            assert(r@.sessions =~= Map::<Seq<char>, ClientSessionView>::empty());
            assert(r@.pipelined_requests =~= Map::<u32, PipelinedRequestView<W>>::empty());
            assert(r@.session_medias =~= Map::<u128, Seq<char>>::empty());
            assert(r@.interleaved_channels =~= Map::<u8, Seq<char>>::empty());
        }
        r
    }

    fn all_free(&self, first: u8, n: u8) -> (r: bool)
        requires
            first + n <= u8::MAX,
        ensures
            r == channels_free(self@.interleaved_channels, first as int, n as int),
    {
        let mut i: u8 = 0;
        while i < n
            invariant
                i <= n,
                first + n <= u8::MAX,
                forall|c: u8| first <= c < first + i ==> !#[trigger] self.interleaved_channels@.dom().contains(c),
            decreases n - i,
        {
            let channel_id: u8 = first + i;
            if self.interleaved_channels.contains_key(&channel_id) {
                proof {
                    assert(self@.interleaved_channels.dom().contains(channel_id));
                }
                return false;
            }
            i = i + 1;
        }
        true
    }

    /// Registers `n` interleaved channels for a session, and returns the first of them.
    ///
    /// They are the ones from `channel_id` on if all of these are free, else the first ones that
    /// are. Each is unregistered once it is closed.
    pub fn register_interleaved_channel(
        &mut self,
        session_id: &str,
        channel_id: Option<u8>,
        n: usize,
    ) -> (r: Result<u8, Error>)
        requires
            old(self).wf(),
        ensures
            final(self).wf(),
            final(self).id == old(self).id,
            r == old(self)@.choose_channels(session_id@, channel_id, n as int),
            final(self)@ == old(self)@.register_interleaved_channel(
                session_id@,
                channel_id,
                n as int,
            ),
    {
        if !self.sessions.contains_key(session_id) {
            return Err(Error::status(StatusCode::SessionNotFound));
        }
        if n > u8::MAX as usize {
            return Err(Error::status(StatusCode::BadRequest));
        }
        let count: u8 = n as u8;
        let ghost channels = self@.interleaved_channels;

        // Try if all channel ids after the requested one are free and use those in that case
        let mut selected: Option<u8> = None;
        if let Some(first) = channel_id {
            if first as usize + n > u8::MAX as usize {
                return Err(Error::status(StatusCode::BadRequest));
            }
            if self.all_free(first, count) {
                selected = Some(first);
            }
        }

        // Otherwise try to find a block of enough free channel ids
        if selected.is_none() {
            let mut first: u8 = 0;
            while first as usize + n <= u8::MAX as usize && selected.is_none()
                invariant
                    n == count,
                    self == old(self),
                    channels == self@.interleaved_channels,
                    selected matches Some(c) ==> c + n <= u8::MAX && first_free(
                        channels,
                        0,
                        n as int,
                    ) == Some(c),
                    selected is None ==> first_free(channels, 0, n as int) == first_free(
                        channels,
                        first as int,
                        n as int,
                    ),
                decreases u8::MAX - first, (if selected.is_none() { 1int } else { 0int }),
            {
                if self.all_free(first, count) {
                    selected = Some(first);
                } else {
                    if first == u8::MAX {
                        proof {
                            assert(n == 0);
                            assert(channels_free(channels, first as int, 0));
                        }
                        return Err(Error::status(StatusCode::UnsupportedTransport));
                    }
                    first = first + 1;
                }
            }
        }
        let first: u8 = match selected {
            Some(first) => first,
            None => return Err(Error::status(StatusCode::UnsupportedTransport)),
        };
        let mut channel_ids: Vec<u8> = Vec::new();
        if let Some(session) = self.sessions.get(session_id) {
            channel_ids = session.channel_ids.clone();
        }
        let ghost ids = channel_ids@;
        let mut i: u8 = 0;
        proof {
            assert(ids == self@.sessions[session_id@].channel_ids);
            assert(channel_ids@ =~= ids + ids_from(first, 0));
            assert(self@.interleaved_channels =~= with_channels(channels, first as int, 0, session_id@));
        }
        while i < count
            invariant
                i <= count,
                first + count <= u8::MAX,
                self.wf(),
                self.id == old(self).id,
                self.cseq_counter == old(self).cseq_counter,
                self.pending_responses == old(self).pending_responses,
                self.pending_requests == old(self).pending_requests,
                self.sessions == old(self).sessions,
                self.pipelined_requests == old(self).pipelined_requests,
                self.session_medias == old(self).session_medias,
                self@.interleaved_channels == with_channels(
                    channels,
                    first as int,
                    i as int,
                    session_id@,
                ),
                channel_ids@ == ids + ids_from(first, i as int),
            decreases count - i,
        {
            let channel_id: u8 = first + i;
            let ghost before = self@.interleaved_channels;
            self.interleaved_channels.insert(channel_id, session_id.to_owned());
            channel_ids.push(channel_id);
            proof {
                assert(ids_from(first, i + 1) =~= ids_from(first, i as int).push(channel_id));
                assert(channel_ids@ =~= ids + ids_from(first, i + 1));
            }
            i = i + 1;
            proof {
                assert(self@.interleaved_channels =~= before.insert(channel_id, session_id@));
                assert(self@.interleaved_channels =~= with_channels(
                    channels,
                    first as int,
                    i as int,
                    session_id@,
                ));
            }
        }
        self.set_channel_ids(session_id, channel_ids);
        proof {
            assert(self@ =~= old(self)@.register_interleaved_channel(
                session_id@,
                channel_id,
                n as int,
            ));
        }
        Ok(first)
    }

    /// Sets the channels that a session knows of.
    fn set_channel_ids(&mut self, session_id: &str, channel_ids: Vec<u8>)
        requires
            old(self).wf(),
            old(self)@.sessions.dom().contains(session_id@),
        ensures
            final(self).wf(),
            final(self).id == old(self).id,
            final(self)@ == old(self)@.with_channel_ids(session_id@, channel_ids@),
    {
        if let Some(session) = self.sessions.remove(session_id) {
            let ClientSession { media_id, presentation_uri, pipelined_request, .. } = session;
            self.sessions.insert(
                session_id.to_owned(),
                ClientSession { media_id, presentation_uri, pipelined_request, channel_ids },
            );
        }
        proof {
            assert(self@ =~= old(self)@.with_channel_ids(session_id@, channel_ids@));
        }
    }

    /// A media registers `n` interleaved channels for its session, and for no other.
    pub fn media_register_interleaved_channel(
        &mut self,
        media_id: u128,
        session_id: &str,
        channel_id: Option<u8>,
        n: usize,
    ) -> (r: Result<u8, Error>)
        requires
            old(self).wf(),
        ensures
            final(self).wf(),
            final(self).id == old(self).id,
            (final(self)@, r) == old(self)@.media_registers_channels(
                media_id,
                session_id@,
                channel_id,
                n as int,
            ),
    {
        match self.check_media(session_id, media_id) {
            Ok(()) => self.register_interleaved_channel(session_id, channel_id, n),
            Err(err) => Err(err),
        }
    }

    /// Closes those of the channels that are in use, and returns them.
    fn close_channels(&mut self, ids: &Vec<u8>) -> (r: Vec<u8>)
        ensures
            final(self)@ == (ClientView {
                interleaved_channels: without_channels(old(self)@.interleaved_channels, ids@),
                ..old(self)@
            }),
            final(self).id == old(self).id,
            final(self).sessions == old(self).sessions,
            r@.no_duplicates(),
            r@.to_set() == channels_in_use(old(self)@.interleaved_channels, ids@),
    {
        let mut closed: Vec<u8> = Vec::new();
        let mut i: usize = 0;
        let ghost channels = self@.interleaved_channels;
        proof {
            assert(ids@.take(0) =~= Seq::<u8>::empty());
            assert(closed@.to_set() =~= channels_in_use(channels, ids@.take(0)));
            assert(self@.interleaved_channels =~= without_channels(channels, ids@.take(0)));
        }
        while i < ids.len()
            invariant
                i <= ids@.len(),
                channels == old(self)@.interleaved_channels,
                self.id == old(self).id,
                self.cseq_counter == old(self).cseq_counter,
                self.pending_responses == old(self).pending_responses,
                self.pending_requests == old(self).pending_requests,
                self.sessions == old(self).sessions,
                self.pipelined_requests == old(self).pipelined_requests,
                self.session_medias == old(self).session_medias,
                self@.interleaved_channels == without_channels(channels, ids@.take(i as int)),
                closed@.no_duplicates(),
                closed@.to_set() == channels_in_use(channels, ids@.take(i as int)),
            decreases ids@.len() - i,
        {
            let channel_id: u8 = ids[i];
            let ghost before = self@.interleaved_channels;
            let ghost already = closed@;
            proof {
                let a = ids@.take(i as int);
                let b = ids@.take(i + 1);
                assert(b =~= a.push(channel_id));
                assert forall|c: u8| b.contains(c) <==> a.contains(c) || c == channel_id by {
                    if a.contains(c) {
                        let k = choose|k: int| 0 <= k < a.len() && a[k] == c;
                        assert(b[k] == c);
                    }
                    if c == channel_id {
                        assert(b[i as int] == c);
                    }
                }
            }
            if let Some(_) = self.interleaved_channels.remove(&channel_id) {
                closed.push(channel_id);
                proof {
                    assert(before.dom().contains(channel_id));
                    assert(!already.to_set().contains(channel_id));
                    assert(closed@.to_set() =~= already.to_set().insert(channel_id)) by {
                        assert forall|c: u8| closed@.contains(c) <==> already.contains(c) || c
                            == channel_id by {
                            if already.contains(c) {
                                let k = choose|k: int| 0 <= k < already.len() && already[k] == c;
                                assert(closed@[k] == c);
                            }
                            if c == channel_id {
                                assert(closed@[already.len() as int] == c);
                            }
                        }
                    }
                    assert forall|x: int, y: int| 0 <= x < y < closed@.len() implies closed@[x]
                        != closed@[y] by {
                        if y == already.len() {
                            assert(already.contains(already[x]));
                        }
                    }
                }
            }
            proof {
                let a = ids@.take(i as int);
                let b = ids@.take(i + 1);
                assert forall|c: u8|
                    closed@.to_set().contains(c) <==> channels_in_use(channels, b).contains(c) by {
                    assert(b.contains(c) <==> a.contains(c) || c == channel_id);
                    assert(before.dom().contains(channel_id) <==> channels.dom().contains(
                        channel_id,
                    ) && !a.contains(channel_id));
                    assert(already.to_set().contains(c) <==> a.contains(c)
                        && channels.dom().contains(c));
                }
                assert(closed@.to_set() =~= channels_in_use(channels, b));
            }
            proof {
                assert(self@.interleaved_channels =~= before.remove(channel_id));
                assert(self@.interleaved_channels =~= without_channels(channels, ids@.take(i + 1)));
            }
            i = i + 1;
        }
        proof {
            assert(ids@.take(i as int) =~= ids@);
            assert(self@ =~= (ClientView {
                interleaved_channels: without_channels(channels, ids@),
                ..old(self)@
            }));
        }
        closed
    }

    /// Drops a session, and all that belongs to it but its media.
    ///
    /// Returns the media and the channels that were closed, if there is such a session.
    fn remove_session(&mut self, session_id: &str) -> (r: Option<(u128, Vec<u8>)>)
        requires
            old(self).wf(),
        ensures
            final(self).wf(),
            final(self).id == old(self).id,
            final(self)@ == old(self)@.without_session(session_id@),
            match r {
                Some((media_id, closed)) => {
                    &&& old(self)@.sessions.dom().contains(session_id@)
                    &&& media_id == old(self)@.sessions[session_id@].media_id
                    &&& closed@.no_duplicates()
                    &&& closed@.to_set() == old(self)@.ending_channels(session_id@)
                },
                None => !old(self)@.sessions.dom().contains(session_id@),
            },
    {
        match self.sessions.remove(session_id) {
            Some(session) => {
                if let Some(request) = session.pipelined_request {
                    let _ = self.pipelined_requests.remove(&request);
                }
                let ghost middle = ClientView {
                    sessions: old(self)@.sessions.remove(session_id@),
                    pipelined_requests: without_pipelined(
                        old(self)@.pipelined_requests,
                        session.pipelined_request,
                    ),
                    ..old(self)@
                };
                proof {
                    assert(self@ =~= middle);
                }
                let closed = self.close_channels(&session.channel_ids);
                proof {
                    assert(self@ =~= old(self)@.without_session(session_id@));
                    assert(closed@.to_set() =~= old(self)@.ending_channels(session_id@));
                }
                Some((session.media_id, closed))
            },
            None => {
                proof {
                    assert(self@ =~= old(self)@);
                }
                None
            },
        }
    }

    /// A session has timed out or was taken over by another client.
    ///
    /// Returns the channels that are closed with it, if there is such a session.
    pub fn session_ended(&mut self, session_id: &str) -> (r: Option<Vec<u8>>)
        requires
            old(self).wf(),
        ensures
            final(self).wf(),
            final(self).id == old(self).id,
            final(self)@ == old(self)@.session_ended(session_id@),
            match r {
                Some(closed) => {
                    &&& old(self)@.sessions.dom().contains(session_id@)
                    &&& closed@.no_duplicates()
                    &&& closed@.to_set() == old(self)@.ending_channels(session_id@)
                },
                None => !old(self)@.sessions.dom().contains(session_id@),
            },
    {
        match self.remove_session(session_id) {
            Some((media_id, closed)) => {
                let _ = self.session_medias.remove(&media_id);
                proof {
                    assert(self@ =~= old(self)@.session_ended(session_id@));
                }
                Some(closed)
            },
            None => None,
        }
    }

    /// A media has failed or finished, and takes its session with it.
    ///
    /// Returns the channels that are closed with it, if there is such a media.
    pub fn media_ended(&mut self, media_id: u128) -> (r: Option<Vec<u8>>)
        requires
            old(self).wf(),
        ensures
            final(self).wf(),
            final(self).id == old(self).id,
            final(self)@ == old(self)@.media_ended(media_id),
            match r {
                Some(closed) => {
                    &&& old(self)@.session_medias.dom().contains(media_id)
                    &&& closed@.no_duplicates()
                    &&& closed@.to_set() == old(self)@.ending_channels(
                        old(self)@.session_medias[media_id],
                    )
                },
                None => !old(self)@.session_medias.dom().contains(media_id),
            },
    {
        match self.session_medias.remove(&media_id) {
            Some(session_id) => {
                let ghost middle = ClientView {
                    session_medias: old(self)@.session_medias.remove(media_id),
                    ..old(self)@
                };
                proof {
                    assert(self@ =~= middle);
                    assert(middle.ending_channels(session_id@) =~= old(self)@.ending_channels(
                        session_id@,
                    ));
                }
                match self.remove_session(session_id.as_str()) {
                    Some((_, closed)) => {
                        proof {
                            assert(self@ =~= old(self)@.media_ended(media_id));
                        }
                        Some(closed)
                    },
                    None => {
                        let closed: Vec<u8> = Vec::new();
                        proof {
                            assert(self@ =~= old(self)@.media_ended(media_id));
                            assert(closed@.to_set() =~= old(self)@.ending_channels(session_id@));
                        }
                        Some(closed)
                    },
                }
            },
            None => {
                proof {
                    assert(self.session_medias@ =~= old(self).session_medias@);
                    assert(self@ =~= old(self)@);
                }
                None
            },
        }
    }

    /// A channel was closed. Returns its session, if it was in use.
    pub fn interleaved_channel_closed(&mut self, channel_id: u8) -> (r: Option<String>)
        requires
            old(self).wf(),
        ensures
            final(self).wf(),
            final(self).id == old(self).id,
            final(self)@ == old(self)@.interleaved_channel_closed(channel_id),
            opt_view(r) == old(self)@.session_of_channel(channel_id),
    {
        let r = self.interleaved_channels.remove(&channel_id);
        let ghost removed = ClientView {
            interleaved_channels: old(self)@.interleaved_channels.remove(channel_id),
            ..old(self)@
        };
        proof {
            assert(self@ =~= removed);
        }
        if let Some(session_id) = &r {
            let channel_ids = match self.sessions.get(session_id.as_str()) {
                Some(session) => Some(remove_id(&session.channel_ids, channel_id)),
                None => None,
            };
            if let Some(channel_ids) = channel_ids {
                self.set_channel_ids(session_id.as_str(), channel_ids);
            }
        }
        proof {
            assert(self@ =~= old(self)@.interleaved_channel_closed(channel_id));
        }
        r
    }

    /// The session of a channel that data came in on: it has to be kept alive.
    pub fn channel_session(&self, channel_id: u8) -> (r: Option<String>)
        ensures
            opt_view(r) == self@.session_of_channel(channel_id),
    {
        match self.interleaved_channels.get(&channel_id) {
            Some(session_id) => Some(session_id.clone()),
            None => None,
        }
    }

    /// Whether there is a session of that name.
    pub fn has_session(&self, session_id: &str) -> (r: bool)
        requires
            self.wf(),
        ensures
            r == self@.known_session(session_id@) is Some,
            r == self@.sessions.dom().contains(session_id@),
    {
        self.sessions.contains_key(session_id)
    }

    /// Checks that a media is the one of a session, as it has to be before it is asked to do
    /// anything for the session.
    pub fn check_media(&self, session_id: &str, media_id: u128) -> (r: Result<(), Error>)
        requires
            self.wf(),
        ensures
            r == self@.check_media(session_id@, media_id),
    {
        match self.sessions.get(session_id) {
            Some(session) => if session.media_id == media_id {
                Ok(())
            } else {
                Err(Error::internal())
            },
            None => Err(Error::status(StatusCode::SessionNotFound)),
        }
    }

    /// Looks for the session of a pipelined request.
    ///
    /// On the first call, the caller has to create the session. On errors before doing so, these
    /// have to be reported. All future calls wait for the first caller to succeed or fail, or find
    /// the session that was created.
    ///
    /// A session that was created for a pipelined request has to be there, with its media.
    pub fn find_session_for_pipelined_request(&mut self, request: u32, waiter: W) -> (r:
        PipelinedSession<W>)
        requires
            old(self).wf(),
            old(self)@.pipelined_requests.dom().contains(request) ==> match old(
                self,
            )@.pipelined_requests[request] {
                PipelinedRequestView::Registered(s) => old(self)@.sessions.dom().contains(s) && old(
                    self,
                )@.session_medias.dom().contains(old(self)@.sessions[s].media_id),
                PipelinedRequestView::Waiting(_) => true,
            },
        ensures
            final(self).wf(),
            final(self).id == old(self).id,
            final(self)@ == old(self)@.pipelined_looked_for(request, waiter),
            old(self)@.pipelined_found(request, waiter, r),
    {
        match self.pipelined_requests.remove(&request) {
            None => {
                let waiters: Vec<W> = Vec::new();
                self.pipelined_requests.insert(request, PipelinedRequest::Waiting(waiters));
                proof {
                    assert(self@ =~= old(self)@.pipelined_looked_for(request, waiter));
                }
                PipelinedSession::First(waiter)
            },
            Some(PipelinedRequest::Waiting(mut waiters)) => {
                let ghost before = waiters@;
                waiters.push(waiter);
                self.pipelined_requests.insert(request, PipelinedRequest::Waiting(waiters));
                proof {
                    assert(self@ =~= old(self)@.pipelined_looked_for(request, waiter));
                }
                PipelinedSession::Waits
            },
            Some(PipelinedRequest::Registered(session_id)) => {
                self.pipelined_requests.insert(
                    request,
                    PipelinedRequest::Registered(session_id.clone()),
                );
                proof {
                    assert(self@ =~= old(self)@);
                }
                match self.sessions.get(session_id.as_str()) {
                    Some(session) => PipelinedSession::Found {
                        session_id,
                        media_id: session.media_id,
                        presentation_uri: session.presentation_uri.copy(),
                    },
                    None => {
                        proof {
                            assert(false);
                        }
                        PipelinedSession::Waits
                    },
                }
            },
        }
    }

    /// The first request for a pipelined request has ended, with a session or with an error.
    ///
    /// Returns those that still wait, and the error that they get. They only wait if no session was
    /// created, and then that is an error even if none is reported. A session that was created is
    /// still found by later requests.
    ///
    /// A pipelined request ends after it has begun.
    pub fn pipelined_request_resolved(&mut self, request: u32, result: Result<(), Error>) -> (r: (
        Vec<W>,
        Error,
    ))
        requires
            old(self).wf(),
            old(self)@.pipelined_requests.dom().contains(request),
        ensures
            final(self).wf(),
            final(self).id == old(self).id,
            (final(self)@, r.0@, r.1) == old(self)@.pipelined_ended(request, result),
    {
        let error = match result {
            Ok(()) => Error::internal(),
            Err(err) => err,
        };
        match self.pipelined_requests.remove(&request) {
            Some(PipelinedRequest::Waiting(waiters)) => {
                proof {
                    assert(self@ =~= old(self)@.pipelined_resolved(request));
                }
                (waiters, error)
            },
            Some(PipelinedRequest::Registered(session_id)) => {
                self.pipelined_requests.insert(request, PipelinedRequest::Registered(session_id));
                proof {
                    assert(self@ =~= old(self)@);
                }
                (Vec::new(), error)
            },
            None => (Vec::new(), error),
        }
    }

    /// The media and the presentation URI of a session, if there is such a session.
    ///
    /// The media of a session has to be there.
    pub fn find_session(&self, session_id: &str) -> (r: Option<(u128, PresentationURI)>)
        requires
            self.wf(),
            self@.sessions.dom().contains(session_id@) ==> self@.session_medias.dom().contains(
                self@.sessions[session_id@].media_id,
            ),
        ensures
            match r {
                Some((media_id, presentation_uri)) => self@.known_session(session_id@) == Some(
                    (media_id, presentation_uri@),
                ),
                None => self@.known_session(session_id@) is None,
            },
    {
        match self.sessions.get(session_id) {
            Some(session) => Some((session.media_id, session.presentation_uri.copy())),
            None => None,
        }
    }

    /// The server has found a session for this client.
    ///
    /// If this client got to know it in the meantime, it has to be the same.
    pub fn session_found(
        &mut self,
        session_id: &str,
        media_id: u128,
        presentation_uri: PresentationURI,
    )
        requires
            old(self).wf(),
            old(self)@.sessions.dom().contains(session_id@) ==> {
                &&& old(self)@.sessions[session_id@].media_id == media_id
                &&& old(self)@.sessions[session_id@].presentation_uri.text == presentation_uri@.text
            },
        ensures
            final(self).wf(),
            final(self).id == old(self).id,
            final(self)@ == old(self)@.session_found(session_id@, media_id, presentation_uri@),
    {
        if !self.sessions.contains_key(session_id) {
            self.insert_session(session_id, media_id, presentation_uri, None);
        }
    }

    fn insert_session(
        &mut self,
        session_id: &str,
        media_id: u128,
        presentation_uri: PresentationURI,
        pipelined_request: Option<u32>,
    )
        requires
            old(self).wf(),
        ensures
            final(self).wf(),
            final(self).id == old(self).id,
            final(self)@ == old(self)@.with_session(
                session_id@,
                media_id,
                presentation_uri@,
                pipelined_request,
            ),
    {
        let channel_ids: Vec<u8> = Vec::new();
        self.sessions.insert(
            session_id.to_owned(),
            ClientSession { media_id, presentation_uri, pipelined_request, channel_ids },
        );
        self.session_medias.insert(media_id, session_id.to_owned());
        proof {
            assert(self@ =~= old(self)@.with_session(
                session_id@,
                media_id,
                presentation_uri@,
                pipelined_request,
            ));
        }
    }

    /// Creates a new session for a media. It is this client's at once; the server has to be asked
    /// to create it too.
    ///
    /// A pipelined request for which it is created has to have no session yet.
    pub fn create_session(
        &mut self,
        session_id: &str,
        media_id: u128,
        presentation_uri: PresentationURI,
        pipelined_request: Option<u32>,
    )
        requires
            old(self).wf(),
            pipelined_request matches Some(p) ==> !(old(self)@.pipelined_requests.dom().contains(p)
                && old(self)@.pipelined_requests[p] is Registered),
        ensures
            final(self).wf(),
            final(self).id == old(self).id,
            final(self)@ == old(self)@.with_session(
                session_id@,
                media_id,
                presentation_uri@,
                pipelined_request,
            ),
    {
        self.insert_session(session_id, media_id, presentation_uri, pipelined_request);
    }

    /// The server has created a session.
    ///
    /// Returns those that waited for the pipelined request that it was created for. They get the
    /// session.
    pub fn create_session_succeeded(&mut self, session_id: &str, pipelined_request: Option<u32>) -> (r:
        Vec<W>)
        requires
            old(self).wf(),
            pipelined_request matches Some(p) ==> !(old(self)@.pipelined_requests.dom().contains(p)
                && old(self)@.pipelined_requests[p] is Registered),
        ensures
            final(self).wf(),
            final(self).id == old(self).id,
            (final(self)@, r@) == old(self)@.session_created(session_id@, pipelined_request),
    {
        let waiters: Vec<W> = Vec::new();
        match pipelined_request {
            Some(request) => {
                match self.pipelined_requests.remove(&request) {
                    Some(PipelinedRequest::Waiting(waiters)) => {
                        self.pipelined_requests.insert(
                            request,
                            PipelinedRequest::Registered(session_id.to_owned()),
                        );
                        proof {
                            assert(self@ =~= old(self)@.pipelined_registered(request, session_id@));
                        }
                        waiters
                    },
                    _ => {
                        proof {
                            assert(self@ =~= old(self)@);
                        }
                        waiters
                    },
                }
            },
            None => waiters,
        }
    }

    /// The server has failed to create a session.
    ///
    /// Returns the channels that are closed with it, and whether the media has to be told.
    pub fn create_session_failed(
        &mut self,
        session_id: &str,
        media_id: u128,
        pipelined_request: Option<u32>,
    ) -> (r: (Vec<u8>, bool))
        requires
            old(self).wf(),
        ensures
            final(self).wf(),
            final(self).id == old(self).id,
            final(self)@ == old(self)@.create_session_failed(session_id@, media_id, pipelined_request),
            r.0@.no_duplicates(),
            r.0@.to_set() == old(self)@.ending_channels(session_id@),
            r.1 == old(self)@.session_medias.dom().contains(media_id),
    {
        if let Some(request) = pipelined_request {
            let _ = self.pipelined_requests.remove(&request);
        }
        let ghost middle = ClientView {
            pipelined_requests: without_pipelined(old(self)@.pipelined_requests, pipelined_request),
            ..old(self)@
        };
        proof {
            assert(self@ =~= middle);
        }
        let closed = match self.sessions.remove(session_id) {
            Some(session) => {
                proof {
                    assert(self@ =~= (ClientView {
                        sessions: old(self)@.sessions.remove(session_id@),
                        ..middle
                    }));
                }
                self.close_channels(&session.channel_ids)
            },
            None => {
                proof {
                    assert(old(self)@.sessions =~= old(self)@.sessions.remove(session_id@));
                }
                Vec::new()
            },
        };
        proof {
            assert(closed@.to_set() =~= old(self)@.ending_channels(session_id@));
        }
        let ghost channels = self@.interleaved_channels;
        let media = self.session_medias.remove(&media_id);
        proof {
            assert(self@.session_medias =~= old(self)@.session_medias.remove(media_id));
            assert(self@ =~= (ClientView {
                session_medias: old(self)@.session_medias.remove(media_id),
                sessions: old(self)@.sessions.remove(session_id@),
                pipelined_requests: middle.pipelined_requests,
                interleaved_channels: channels,
                ..old(self)@
            }));
        }
        (closed, media.is_some())
    }

    /// A session is to be kept alive.
    ///
    /// If there is such a session the server has to be asked for it. Returns the media that has to
    /// be told in case the server refuses.
    pub fn keep_alive_session(&self, session_id: &str) -> (r: Result<Option<u128>, Error>)
        requires
            self.wf(),
        ensures
            r == self@.media_to_tell(session_id@),
    {
        match self.sessions.get(session_id) {
            Some(session) => {
                let media_id: u128 = session.media_id;
                if self.session_medias.contains_key(&media_id) {
                    Ok(Some(media_id))
                } else {
                    Ok(None)
                }
            },
            None => Err(Error::status(StatusCode::SessionNotFound)),
        }
    }

    /// A session is to be shut down.
    ///
    /// If there is such a session it is gone at once, and the server has to be told. Returns the
    /// media that has to be told afterwards, and the channels that are closed.
    pub fn shutdown_session(&mut self, session_id: &str) -> (r: Result<
        (Option<u128>, Vec<u8>),
        Error,
    >)
        requires
            old(self).wf(),
        ensures
            final(self).wf(),
            final(self).id == old(self).id,
            final(self)@ == old(self)@.session_ended(session_id@),
            match r {
                Ok((media, closed)) => {
                    &&& old(self)@.media_to_tell(session_id@) == Ok::<Option<u128>, Error>(media)
                    &&& closed@.no_duplicates()
                    &&& closed@.to_set() == old(self)@.ending_channels(session_id@)
                },
                Err(err) => old(self)@.media_to_tell(session_id@) == Err::<Option<u128>, Error>(
                    err,
                ),
            },
    {
        match self.remove_session(session_id) {
            Some((media_id, closed)) => {
                let known = self.session_medias.remove(&media_id);
                proof {
                    assert(self@ =~= old(self)@.session_ended(session_id@));
                }
                if known.is_some() {
                    Ok((Some(media_id), closed))
                } else {
                    Ok((None, closed))
                }
            },
            None => Err(Error::status(StatusCode::SessionNotFound)),
        }
    }

    /// A request of the peer is being worked on.
    pub fn request_started(&mut self, cseq: u32)
        requires
            old(self).wf(),
        ensures
            final(self).wf(),
            final(self).id == old(self).id,
            final(self)@ == old(self)@.request_started(cseq),
    {
        self.pending_requests.insert(cseq);
    }

    /// A request of the peer was answered. That may be said more than once.
    pub fn response_finished(&mut self, cseq: u32) -> (r: bool)
        requires
            old(self).wf(),
        ensures
            final(self).wf(),
            final(self).id == old(self).id,
            final(self)@ == old(self)@.response_finished(cseq),
            r == old(self)@.pending_requests.contains(cseq),
    {
        self.pending_requests.remove(&cseq)
    }

    /// Nothing more is to be done for a request to the peer. That may be said more than once.
    pub fn request_finished(&mut self, cseq: u32) -> (r: bool)
        requires
            old(self).wf(),
        ensures
            final(self).wf(),
            final(self).id == old(self).id,
            final(self)@ == old(self)@.request_finished(cseq),
            r == old(self)@.pending_responses.contains(cseq),
    {
        self.pending_responses.remove(&cseq)
    }

    /// This client shuts down. Returns the requests to the peer that get no response any more, and
    /// the requests of the peer that are not worked on any more.
    pub fn shutdown(&self) -> (r: (Vec<u32>, Vec<u32>))
        ensures
            r.0@.no_duplicates(),
            r.0@.to_set() == self@.pending_responses,
            r.1@.no_duplicates(),
            r.1@.to_set() == self@.pending_requests,
    {
        (set_elements(&self.pending_responses), set_elements(&self.pending_requests))
    }
}

} // verus!
