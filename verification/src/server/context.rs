//! The state of the server, and what it does on each message.

use std::collections::HashMap;

use vstd::prelude::*;

use super::mounts::{Mount, Mounts, PresentationURI};
use super::session::{Session, SessionView};
use crate::error::{Error, StatusCode};
use crate::table::Table;
use crate::time::{elapsed, time_since};
use crate::typemap::TypeMap;
use crate::url::{Url, UrlView};

verus! {

broadcast use vstd::std_specs::hash::group_hash_axioms;

/// How long a session lives without any activity: 60 seconds, in nanoseconds.
pub const SESSION_TIMEOUT: u64 = 60_000_000_000;

/// The state of the server, as it is seen in contracts.
#[verifier::ext_equal]
pub ghost struct ServerView {
    /// The sessions, by their identifiers.
    pub sessions: Map<Seq<char>, SessionView>,
    /// The sessions that each client takes part in, some of which may be gone already.
    pub clients: Map<u128, Set<Seq<char>>>,
    /// The listeners.
    pub listeners: Set<Seq<char>>,
}

/// What the check of a session for inactivity leads to.
#[derive(Clone, Copy, PartialEq, Eq, Structural, Debug)]
pub enum TimeoutCheck {
    /// There is no such session.
    Unknown,
    /// The session has timed out and is gone. Its media has to be told, and its client if it has
    /// one.
    TimedOut { media_id: u128, client_id: Option<u128> },
    /// The session is to be checked again after this many nanoseconds.
    Remaining(u64),
}

/// A session that was found for a client, as it is seen in contracts.
pub ghost struct FoundSessionView {
    pub media_id: u128,
    pub presentation_uri: UrlView,
    pub replaced_client: Option<u128>,
}

/// A session that was found for a client. Its media has to be told of the client.
pub struct FoundSession {
    pub media_id: u128,
    pub presentation_uri: PresentationURI,
    /// The client that has to be told that it was replaced.
    pub replaced_client: Option<u128>,
}

impl FoundSession {
    pub open spec fn view(self) -> FoundSessionView {
        FoundSessionView {
            media_id: self.media_id,
            presentation_uri: self.presentation_uri@,
            replaced_client: self.replaced_client,
        }
    }
}

/// What is found, as it is seen in contracts.
pub open spec fn found_view(r: Result<FoundSession, Error>) -> Result<FoundSessionView, Error> {
    match r {
        Ok(found) => Ok(found@),
        Err(err) => Err(err),
    }
}

impl ServerView {
    /// `client_id` if it is the id of a client that is there.
    pub open spec fn present(self, client_id: Option<u128>) -> Option<u128> {
        match client_id {
            Some(c) => if self.clients.dom().contains(c) {
                Some(c)
            } else {
                None
            },
            None => None,
        }
    }

    /// Every session that a client takes part in, if it is still there, has this client.
    pub open spec fn owners_agree(self) -> bool {
        forall|c: u128, id: Seq<char>|
            #![trigger self.clients[c].contains(id)]
            self.clients.dom().contains(c) && self.clients[c].contains(id)
                && self.sessions.dom().contains(id) ==> self.sessions[id].client_id == Some(c)
    }

    /// No client takes part in a session of that name, not even in one that is gone.
    pub open spec fn is_fresh(self, id: Seq<char>) -> bool {
        forall|c: u128|
            #![trigger self.clients[c]]
            self.clients.dom().contains(c) ==> !self.clients[c].contains(id)
    }

    /// Checks a session for inactivity.
    pub open spec fn check_timeout(self, id: Seq<char>, now: u64) -> (ServerView, TimeoutCheck) {
        if self.sessions.dom().contains(id) {
            let session = self.sessions[id];
            let time = elapsed(session.last_active, now);
            if time >= SESSION_TIMEOUT {
                (
                    ServerView { sessions: self.sessions.remove(id), ..self },
                    TimeoutCheck::TimedOut {
                        media_id: session.media_id,
                        client_id: self.present(session.client_id),
                    },
                )
            } else {
                (self, TimeoutCheck::Remaining((SESSION_TIMEOUT - time) as u64))
            }
        } else {
            (self, TimeoutCheck::Unknown)
        }
    }

    /// A client that takes part in no session is there.
    pub open spec fn new_client(self, client_id: u128) -> ServerView {
        ServerView { clients: self.clients.insert(client_id, Set::empty()), ..self }
    }

    /// A listener is there.
    pub open spec fn new_listener(self, id: Seq<char>) -> ServerView {
        ServerView { listeners: self.listeners.insert(id), ..self }
    }

    /// A listener is gone.
    pub open spec fn listener_finished(self, id: Seq<char>) -> ServerView {
        ServerView { listeners: self.listeners.remove(id), ..self }
    }

    /// A session is dropped.
    pub open spec fn drop_session(self, id: Seq<char>) -> ServerView {
        ServerView { sessions: self.sessions.remove(id), ..self }
    }

    /// Creates a session for a client.
    pub open spec fn create_session(
        self,
        client_id: u128,
        id: Seq<char>,
        media_id: u128,
        presentation_uri: UrlView,
        now: u64,
    ) -> (ServerView, Result<(), Error>) {
        if self.sessions.dom().contains(id) || !self.clients.dom().contains(client_id) {
            (self, Err(Error::spec_internal()))
        } else {
            (
                ServerView {
                    sessions: self.sessions.insert(
                        id,
                        SessionView {
                            media_id,
                            client_id: Some(client_id),
                            presentation_uri,
                            last_active: now,
                        },
                    ),
                    clients: self.clients.insert(client_id, self.clients[client_id].insert(id)),
                    ..self
                },
                Ok(()),
            )
        }
    }

    /// Makes a client the active one of a session.
    pub open spec fn find_session(self, client_id: u128, id: Seq<char>, now: u64) -> (
        ServerView,
        Result<FoundSessionView, Error>,
    ) {
        if !self.sessions.dom().contains(id) {
            (self, Err(Error::spec_status(StatusCode::SessionNotFound)))
        } else if !self.clients.dom().contains(client_id) {
            (self, Err(Error::spec_internal()))
        } else {
            let session = self.sessions[id];
            let joined = self.clients.insert(client_id, self.clients[client_id].insert(id));
            let replaced = self.present(session.client_id);
            let clients = match replaced {
                Some(old) => joined.insert(old, joined[old].remove(id)),
                None => joined,
            };
            (
                ServerView {
                    sessions: self.sessions.insert(
                        id,
                        SessionView { client_id: Some(client_id), last_active: now, ..session },
                    ),
                    clients,
                    ..self
                },
                Ok(
                    FoundSessionView {
                        media_id: session.media_id,
                        presentation_uri: session.presentation_uri,
                        replaced_client: replaced,
                    },
                ),
            )
        }
    }

    /// Keeps a session alive for its client.
    pub open spec fn keep_alive_session(self, client_id: u128, id: Seq<char>, now: u64) -> (
        ServerView,
        Result<(), Error>,
    ) {
        if !self.sessions.dom().contains(id) {
            (self, Err(Error::spec_status(StatusCode::SessionNotFound)))
        } else if self.sessions[id].client_id != Some(client_id) {
            (self, Err(Error::spec_internal()))
        } else {
            (self.touch(id, now), Ok(()))
        }
    }

    /// A session is active.
    pub open spec fn touch(self, id: Seq<char>, now: u64) -> ServerView {
        ServerView {
            sessions: self.sessions.insert(
                id,
                SessionView { last_active: now, ..self.sessions[id] },
            ),
            ..self
        }
    }

    /// Shuts a session down. Its media is told if the client is its own.
    pub open spec fn shutdown_session(self, client_id: u128, id: Seq<char>) -> (
        ServerView,
        Result<Option<u128>, Error>,
    ) {
        if !self.sessions.dom().contains(id) {
            (self, Err(Error::spec_status(StatusCode::SessionNotFound)))
        } else {
            (
                ServerView { sessions: self.sessions.remove(id), ..self },
                Ok(
                    if self.sessions[id].client_id == Some(client_id) {
                        Some(self.sessions[id].media_id)
                    } else {
                        None
                    },
                ),
            )
        }
    }

    /// A client is gone. Its sessions stay, without a client.
    pub open spec fn client_finished(self, client_id: u128) -> ServerView {
        if self.clients.dom().contains(client_id) {
            let left = self.clients[client_id];
            ServerView {
                sessions: Map::new(
                    |id: Seq<char>| self.sessions.dom().contains(id),
                    |id: Seq<char>|
                        if left.contains(id) {
                            SessionView { client_id: None, ..self.sessions[id] }
                        } else {
                            self.sessions[id]
                        },
                ),
                clients: self.clients.remove(client_id),
                ..self
            }
        } else {
            self
        }
    }

    /// Whether these are the sessions that a client which is gone leaves, each with its media.
    pub open spec fn medias_told(self, client_id: u128, r: Seq<(String, u128)>) -> bool {
        &&& crate::table::names(r).no_duplicates()
        &&& forall|id: Seq<char>|
            crate::table::names(r).contains(id) <==> {
                &&& self.clients.dom().contains(client_id)
                &&& self.clients[client_id].contains(id)
                &&& #[trigger] self.sessions.dom().contains(id)
            }
        &&& forall|i: int|
            0 <= i < r.len() ==> (#[trigger] r[i]).1 == self.sessions[r[i].0@].media_id
    }

    /// Whether these are all sessions, each with its media and its client if that is there.
    pub open spec fn all_told(self, r: Seq<EndOfSession>) -> bool {
        &&& forall|i: int|
            0 <= i < r.len() ==> {
                &&& self.sessions.dom().contains((#[trigger] r[i]).session_id@)
                &&& r[i].media_id == self.sessions[r[i].session_id@].media_id
                &&& r[i].client_id == self.present(self.sessions[r[i].session_id@].client_id)
            }
        &&& forall|id: Seq<char>| #[trigger]
            self.sessions.dom().contains(id) ==> exists|i: int|
                0 <= i < r.len() && (#[trigger] r[i]).session_id@ == id
    }

    /// The media keeps its session alive.
    pub open spec fn media_keep_alive_session(self, id: Seq<char>, now: u64) -> (
        ServerView,
        Result<(), Error>,
    ) {
        if !self.sessions.dom().contains(id) {
            (self, Err(Error::spec_status(StatusCode::SessionNotFound)))
        } else {
            (self.touch(id, now), Ok(()))
        }
    }

    /// The media of a session is gone, and the session with it.
    pub open spec fn media_finished(self, id: Seq<char>) -> (ServerView, Option<u128>) {
        if self.sessions.dom().contains(id) {
            (
                ServerView { sessions: self.sessions.remove(id), ..self },
                self.present(self.sessions[id].client_id),
            )
        } else {
            (self, None)
        }
    }
}

/// What has to be told when the server shuts down because of a session.
pub struct EndOfSession {
    pub session_id: String,
    /// The client, if it is there, is told first.
    pub client_id: Option<u128>,
    pub media_id: u128,
}

/// The state of the server.
pub struct Context<G> {
    pub sessions: Table<Session>,
    pub clients: HashMap<u128, Table<()>>,
    pub listeners: Table<()>,
    pub mounts: Option<Mounts<G>>,
}

impl<G> Context<G> {
    /// Every table holds each name once, and the media factories of the mounts are spawned.
    pub open spec fn wf(self) -> bool {
        &&& self.sessions.wf()
        &&& self.listeners.wf()
        &&& forall|c: u128| #[trigger] self.clients@.dom().contains(c) ==> self.clients@[c].wf()
        &&& self.mounts matches Some(mounts) ==> mounts.wf() && mounts.unspawned@.len() == 0
    }

    /// What is known of clients, sessions and listeners.
    pub open spec fn view(self) -> ServerView {
        ServerView {
            sessions: Map::new(
                |id: Seq<char>| self.sessions@.dom().contains(id),
                |id: Seq<char>| self.sessions@[id]@,
            ),
            clients: Map::new(
                |c: u128| self.clients@.dom().contains(c),
                |c: u128| self.clients@[c]@.dom(),
            ),
            listeners: self.listeners@.dom(),
        }
    }

    /// Whether this is what a client finds for a URI: the first media factory of the mounts that
    /// serves it.
    pub open spec fn serves<V>(
        self,
        client_id: u128,
        uri: Url,
        extra_data: TypeMap<V>,
        r: Result<(u128, PresentationURI, TypeMap<V>), Error>,
    ) -> bool where G: Fn(&Url, &TypeMap<V>) -> Option<(PresentationURI, TypeMap<V>)> {
        &&& !self@.clients.dom().contains(client_id) ==> (r matches Err(err) && err
            == Error::spec_internal())
        &&& self@.clients.dom().contains(client_id) ==> match r {
            Ok(found) => self.mounts matches Some(mounts) && mounts.matched(
                uri,
                extra_data,
                Some(found),
            ),
            Err(err) => err == Error::spec_status(StatusCode::NotFound) && (
            self.mounts matches Some(mounts) ==> mounts.matched(uri, extra_data, None)),
        }
    }

    /// A server with these mounts, whose media factories have to be spawned, and nothing else.
    pub fn new(mounts: Option<Mounts<G>>) -> (r: Context<G>)
        requires
            mounts matches Some(m) ==> m.wf() && m.unspawned@.len() == 0,
        ensures
            r.wf(),
            r@.sessions == Map::<Seq<char>, SessionView>::empty(),
            r@.clients == Map::<u128, Set<Seq<char>>>::empty(),
            r@.listeners == Set::<Seq<char>>::empty(),
            r.mounts == mounts,
    {
        let r = Context {
            sessions: Table::new(),
            clients: HashMap::new(),
            listeners: Table::new(),
            mounts,
        };
        proof {
            assert(r@.sessions =~= Map::<Seq<char>, SessionView>::empty());
            assert(r@.clients =~= Map::<u128, Set<Seq<char>>>::empty());
            assert(r@.listeners =~= Set::<Seq<char>>::empty());
        }
        r
    }

    /// Starts a server with these listeners and mounts. Returns the media factories that have to be
    /// spawned.
    pub fn start(mounts: Option<Mounts<G>>, listener_ids: &Vec<String>) -> (r: (
        Context<G>,
        Vec<u128>,
    ))
        requires
            mounts matches Some(m) ==> m.wf(),
        ensures
            r.0.wf(),
            r.0@.sessions == Map::<Seq<char>, SessionView>::empty(),
            r.0@.clients == Map::<u128, Set<Seq<char>>>::empty(),
            r.0@.listeners == crate::text::views(listener_ids@).to_set(),
            match (mounts, r.0.mounts) {
                (Some(before), Some(after)) => {
                    &&& after.mounts == before.mounts
                    &&& after.factories@ == before.factories@ + before.unspawned@
                    &&& r.1@ == before.unspawned@
                },
                (None, None) => r.1@ == Seq::<u128>::empty(),
                _ => false,
            },
    {
        let (mounts, unspawned) = match mounts {
            Some(mut mounts) => {
                let unspawned = mounts.spawn();
                (Some(mounts), unspawned)
            },
            None => (None, Vec::new()),
        };
        let mut context = Context::new(mounts);
        let ghost ids = crate::text::views(listener_ids@);
        let mut i: usize = 0;
        proof {
            assert(ids.take(0).to_set() =~= Set::<Seq<char>>::empty());
        }
        while i < listener_ids.len()
            invariant
                ids == crate::text::views(listener_ids@),
                i <= listener_ids@.len(),
                context.wf(),
                context.mounts == mounts,
                context@.sessions == Map::<Seq<char>, SessionView>::empty(),
                context@.clients == Map::<u128, Set<Seq<char>>>::empty(),
                context@.listeners == ids.take(i as int).to_set(),
            decreases listener_ids@.len() - i,
        {
            context.new_listener(listener_ids[i].as_str());
            proof {
                let a = ids.take(i as int);
                let b = ids.take(i + 1);
                let id = ids[i as int];
                assert(b =~= a.push(id));
                assert forall|x: Seq<char>| b.contains(x) <==> a.contains(x) || x == id by {
                    if a.contains(x) {
                        let k = choose|k: int| 0 <= k < a.len() && a[k] == x;
                        assert(b[k] == x);
                    }
                    if x == id {
                        assert(b[i as int] == x);
                    }
                }
                assert(b.to_set() =~= a.to_set().insert(id));
            }
            i = i + 1;
        }
        proof {
            assert(ids.take(i as int) =~= ids);
        }
        (context, unspawned)
    }

    fn present(&self, client_id: Option<u128>) -> (r: Option<u128>)
        ensures
            r == self@.present(client_id),
    {
        match client_id {
            Some(c) => if self.clients.contains_key(&c) {
                Some(c)
            } else {
                None
            },
            None => None,
        }
    }

    /// Checks whether a session was inactive for too long, and drops it in that case.
    pub fn check_session_timeout(&mut self, session_id: &str, now: u64) -> (r: TimeoutCheck)
        requires
            old(self).wf(),
        ensures
            final(self).wf(),
            final(self).mounts == old(self).mounts,
            (final(self)@, r) == old(self)@.check_timeout(session_id@, now),
    {
        let (media_id, client_id, last_active) = match self.sessions.get(session_id) {
            Some(session) => (session.media_id, session.client_id, session.last_active),
            None => return TimeoutCheck::Unknown,
        };
        let time: u64 = time_since(last_active, now);
        if time >= SESSION_TIMEOUT {
            let _ = self.sessions.remove(session_id);
            let client_id = self.present(client_id);
            proof {
                assert(self@ =~= old(self)@.check_timeout(session_id@, now).0);
            }
            TimeoutCheck::TimedOut { media_id, client_id }
        } else {
            TimeoutCheck::Remaining(SESSION_TIMEOUT - time)
        }
    }

    /// A client for a new connection was created.
    pub fn new_client(&mut self, client_id: u128)
        requires
            old(self).wf(),
        ensures
            final(self).wf(),
            final(self).mounts == old(self).mounts,
            final(self)@ == old(self)@.new_client(client_id),
    {
        let sessions: Table<()> = Table::new();
        proof {
            assert(sessions@.dom() =~= Set::<Seq<char>>::empty());
        }
        self.clients.insert(client_id, sessions);
        proof {
            assert(self@ =~= old(self)@.new_client(client_id));
        }
    }

    /// A listener runs.
    pub fn new_listener(&mut self, listener_id: &str)
        requires
            old(self).wf(),
        ensures
            final(self).wf(),
            final(self).mounts == old(self).mounts,
            final(self)@ == old(self)@.new_listener(listener_id@),
    {
        self.listeners.insert(listener_id.to_owned(), ());
        proof {
            assert(self@ =~= old(self)@.new_listener(listener_id@));
        }
    }

    /// A listener has finished, with an error or without.
    pub fn listener_finished(&mut self, listener_id: &str)
        requires
            old(self).wf(),
        ensures
            final(self).wf(),
            final(self).mounts == old(self).mounts,
            final(self)@ == old(self)@.listener_finished(listener_id@),
    {
        let _ = self.listeners.remove(listener_id);
        proof {
            assert(self@ =~= old(self)@.listener_finished(listener_id@));
        }
    }

    /// A client creates a session for a media.
    ///
    /// When it is created, the client has to be answered. If the client is still there to take the
    /// answer, the media has to be told of its client, and the session is to be checked for
    /// inactivity after the timeout. Else the session has to be dropped again.
    pub fn create_session(
        &mut self,
        client_id: u128,
        session_id: &str,
        media_id: u128,
        presentation_uri: PresentationURI,
        now: u64,
    ) -> (r: Result<(), Error>)
        requires
            old(self).wf(),
        ensures
            final(self).wf(),
            final(self).mounts == old(self).mounts,
            (final(self)@, r) == old(self)@.create_session(
                client_id,
                session_id@,
                media_id,
                presentation_uri@,
                now,
            ),
    {
        if self.sessions.contains_key(session_id) {
            return Err(Error::internal());
        }
        match self.clients.remove(&client_id) {
            Some(mut client_sessions) => {
                client_sessions.insert(session_id.to_owned(), ());
                let ghost after = client_sessions@.dom();
                proof {
                    assert(after =~= old(self)@.clients[client_id].insert(session_id@));
                }
                self.clients.insert(client_id, client_sessions);
                self.sessions.insert(
                    session_id.to_owned(),
                    Session { media_id, client_id: Some(client_id), presentation_uri, last_active: now },
                );
                proof {
                    assert(self@ =~= old(self)@.create_session(
                        client_id,
                        session_id@,
                        media_id,
                        presentation_uri@,
                        now,
                    ).0);
                }
                Ok(())
            },
            None => {
                proof {
                    assert(self.clients@ =~= old(self).clients@);
                    assert(self@ =~= old(self)@);
                }
                Err(Error::internal())
            },
        }
    }

    /// Nobody took the answer that a session was created.
    pub fn create_session_unanswered(&mut self, session_id: &str)
        requires
            old(self).wf(),
        ensures
            final(self).wf(),
            final(self).mounts == old(self).mounts,
            final(self)@ == old(self)@.drop_session(session_id@),
    {
        let _ = self.sessions.remove(session_id);
        proof {
            assert(self@ =~= old(self)@.drop_session(session_id@));
        }
    }

    /// A client looks for a session, and becomes its active client.
    pub fn find_session(&mut self, client_id: u128, session_id: &str, now: u64) -> (r: Result<
        FoundSession,
        Error,
    >)
        requires
            old(self).wf(),
        ensures
            final(self).wf(),
            final(self).mounts == old(self).mounts,
            (final(self)@, found_view(r)) == old(self)@.find_session(client_id, session_id@, now),
    {
        let mut session = match self.sessions.get(session_id) {
            Some(session) => session.copy(),
            None => return Err(Error::status(StatusCode::SessionNotFound)),
        };
        let mut client_sessions = match self.clients.remove(&client_id) {
            Some(client_sessions) => client_sessions,
            None => {
                proof {
                    assert(self.clients@ =~= old(self).clients@);
                    assert(self@ =~= old(self)@);
                }
                return Err(Error::internal());
            },
        };
        client_sessions.insert(session_id.to_owned(), ());
        let ghost joined_sessions = client_sessions@.dom();
        proof {
            assert(joined_sessions =~= old(self)@.clients[client_id].insert(session_id@));
        }
        self.clients.insert(client_id, client_sessions);
        let ghost joined = old(self)@.clients.insert(
            client_id,
            old(self)@.clients[client_id].insert(session_id@),
        );
        proof {
            assert(self@.clients =~= joined);
        }

        let mut replaced_client: Option<u128> = None;
        if let Some(old_client_id) = session.client_id {
            if let Some(mut old_sessions) = self.clients.remove(&old_client_id) {
                let _ = old_sessions.remove(session_id);
                let ghost left = old_sessions@.dom();
                proof {
                    assert(left =~= joined[old_client_id].remove(session_id@));
                }
                self.clients.insert(old_client_id, old_sessions);
                replaced_client = Some(old_client_id);
            } else {
                proof {
                    assert(self@.clients =~= joined);
                }
            }
        }
        let ghost replaced = old(self)@.present(session.client_id);
        proof {
            assert(replaced_client == replaced);
            let clients = match replaced {
                Some(c) => joined.insert(c, joined[c].remove(session_id@)),
                None => joined,
            };
            assert(self@.clients =~= clients);
        }

        let media_id: u128 = session.media_id;
        let presentation_uri = session.presentation_uri.copy();
        session.client_id = Some(client_id);
        session.last_active = now;
        self.sessions.insert(session_id.to_owned(), session);
        proof {
            assert(self@ =~= old(self)@.find_session(client_id, session_id@, now).0);
        }
        Ok(FoundSession { media_id, presentation_uri, replaced_client })
    }

    fn touch(&mut self, session_id: &str, now: u64)
        requires
            old(self).wf(),
            old(self)@.sessions.dom().contains(session_id@),
        ensures
            final(self).wf(),
            final(self).mounts == old(self).mounts,
            final(self)@ == old(self)@.touch(session_id@, now),
    {
        if let Some(mut session) = self.sessions.remove(session_id) {
            session.last_active = now;
            self.sessions.insert(session_id.to_owned(), session);
        }
        proof {
            assert(self@ =~= old(self)@.touch(session_id@, now));
        }
    }

    /// A client keeps its session alive.
    pub fn keep_alive_session(&mut self, client_id: u128, session_id: &str, now: u64) -> (r: Result<
        (),
        Error,
    >)
        requires
            old(self).wf(),
        ensures
            final(self).wf(),
            final(self).mounts == old(self).mounts,
            (final(self)@, r) == old(self)@.keep_alive_session(client_id, session_id@, now),
    {
        let session_client: Option<u128> = match self.sessions.get(session_id) {
            Some(session) => session.client_id,
            None => return Err(Error::status(StatusCode::SessionNotFound)),
        };
        if session_client == Some(client_id) {
            self.touch(session_id, now);
            Ok(())
        } else {
            Err(Error::internal())
        }
    }

    /// A client shuts a session down.
    ///
    /// Returns the media that has to be told: that of the session, if the client is its own.
    pub fn shutdown_session(&mut self, client_id: u128, session_id: &str) -> (r: Result<
        Option<u128>,
        Error,
    >)
        requires
            old(self).wf(),
        ensures
            final(self).wf(),
            final(self).mounts == old(self).mounts,
            (final(self)@, r) == old(self)@.shutdown_session(client_id, session_id@),
    {
        match self.sessions.remove(session_id) {
            Some(session) => {
                proof {
                    assert(self@ =~= old(self)@.shutdown_session(client_id, session_id@).0);
                }
                if session.client_id == Some(client_id) {
                    Ok(Some(session.media_id))
                } else {
                    Ok(None)
                }
            },
            None => Err(Error::status(StatusCode::SessionNotFound)),
        }
    }

    /// A media keeps its session alive.
    ///
    /// Only the media of a session does so.
    pub fn media_keep_alive_session(&mut self, media_id: u128, session_id: &str, now: u64) -> (r:
        Result<(), Error>)
        requires
            old(self).wf(),
            old(self)@.sessions.dom().contains(session_id@) ==> old(
                self,
            )@.sessions[session_id@].media_id == media_id,
        ensures
            final(self).wf(),
            final(self).mounts == old(self).mounts,
            (final(self)@, r) == old(self)@.media_keep_alive_session(session_id@, now),
    {
        if self.sessions.contains_key(session_id) {
            self.touch(session_id, now);
            Ok(())
        } else {
            Err(Error::status(StatusCode::SessionNotFound))
        }
    }

    /// A media has finished, with an error or without, and takes its session with it.
    ///
    /// Only the media of a session does so. Returns the client that has to be told.
    pub fn media_finished(&mut self, media_id: u128, session_id: &str) -> (r: Option<u128>)
        requires
            old(self).wf(),
            old(self)@.sessions.dom().contains(session_id@) ==> old(
                self,
            )@.sessions[session_id@].media_id == media_id,
        ensures
            final(self).wf(),
            final(self).mounts == old(self).mounts,
            (final(self)@, r) == old(self)@.media_finished(session_id@),
    {
        match self.sessions.remove(session_id) {
            Some(session) => {
                proof {
                    assert(self@ =~= old(self)@.media_finished(session_id@).0);
                }
                self.present(session.client_id)
            },
            None => None,
        }
    }

    /// A client has finished, with an error or without. Its sessions stay, without a client, and
    /// time out separately if there is no activity any longer.
    ///
    /// Returns the sessions whose medias have to be told, with their medias. All of these have to
    /// be the client's own.
    pub fn client_finished(&mut self, client_id: u128) -> (r: Vec<(String, u128)>)
        requires
            old(self).wf(),
            old(self)@.clients.dom().contains(client_id) ==> forall|id: Seq<char>| #[trigger]
                old(self)@.clients[client_id].contains(id) && old(self)@.sessions.dom().contains(id)
                    ==> old(self)@.sessions[id].client_id == Some(client_id),
        ensures
            final(self).wf(),
            final(self).mounts == old(self).mounts,
            final(self)@ == old(self)@.client_finished(client_id),
            old(self)@.medias_told(client_id, r@),
    {
        let mut told: Vec<(String, u128)> = Vec::new();
        let left = match self.clients.remove(&client_id) {
            Some(left) => left,
            None => {
                proof {
                    assert(self.clients@ =~= old(self).clients@);
                    assert(self@ =~= old(self)@);
                    assert(crate::table::names(told@) =~= Seq::<Seq<char>>::empty());
                }
                return told;
            },
        };
        let ghost names = left.keys();
        let mut i: usize = 0;
        while i < left.entries.len()
            invariant
                i <= left.entries@.len(),
                left.wf(),
                names == left.keys(),
                old(self).wf(),
                self.wf(),
                self.mounts == old(self).mounts,
                self.listeners == old(self).listeners,
                self.clients@ == old(self).clients@.remove(client_id),
                forall|id: Seq<char>|
                    self.sessions@.dom().contains(id) <==> old(self).sessions@.dom().contains(id),
                forall|id: Seq<char>|
                    #![trigger self.sessions@[id]]
                    self.sessions@.dom().contains(id) ==> self.sessions@[id]@ == if names.take(
                        i as int,
                    ).contains(id) {
                        SessionView { client_id: None, ..old(self).sessions@[id]@ }
                    } else {
                        old(self).sessions@[id]@
                    },
                crate::table::names(told@).no_duplicates(),
                forall|id: Seq<char>|
                    crate::table::names(told@).contains(id) <==> names.take(i as int).contains(id)
                        && #[trigger] old(self).sessions@.dom().contains(id),
                forall|k: int|
                    0 <= k < told@.len() ==> {
                        &&& old(self).sessions@.dom().contains((#[trigger] told@[k]).0@)
                        &&& told@[k].1 == old(self).sessions@[told@[k].0@].media_id
                    },
            decreases left.entries@.len() - i,
        {
            let session_id = left.entries[i].0.clone();
            let ghost id = session_id@;
            let ghost sessions = self.sessions@;
            let ghost already = told@;
            proof {
                assert(names[i as int] == id);
                assert(names.take(i + 1) =~= names.take(i as int).push(id));
                assert(!names.take(i as int).contains(id));
                assert forall|x: Seq<char>| #[trigger]
                    names.take(i + 1).contains(x) <==> names.take(i as int).contains(x) || x
                        == id by {
                    if names.take(i as int).contains(x) {
                        let k = choose|k: int| 0 <= k < i && names.take(i as int)[k] == x;
                        assert(names.take(i + 1)[k] == x);
                    }
                    if x == id {
                        assert(names.take(i + 1)[i as int] == x);
                    }
                }
            }
            if let Some(mut session) = self.sessions.remove(session_id.as_str()) {
                let media_id: u128 = session.media_id;
                session.client_id = None;
                self.sessions.insert(session_id.clone(), session);
                told.push((session_id, media_id));
                proof {
                    let before = crate::table::names(already);
                    let after = crate::table::names(told@);
                    assert(after =~= before.push(id));
                    assert(!before.contains(id));
                    assert forall|x: int, y: int| 0 <= x < y < after.len() implies after[x]
                        != after[y] by {
                        if y == before.len() {
                            assert(before.contains(before[x]));
                        }
                    }
                    assert forall|x: Seq<char>| after.contains(x) <==> before.contains(x) || x
                        == id by {
                        if before.contains(x) {
                            let k = choose|k: int| 0 <= k < before.len() && before[k] == x;
                            assert(after[k] == x);
                        }
                        if x == id {
                            assert(after[before.len() as int] == x);
                        }
                    }
                }
            }
            i = i + 1;
        }
        proof {
            assert(names.take(i as int) =~= names);
            assert forall|id: Seq<char>| names.contains(id) <==> #[trigger] old(
                self,
            )@.clients[client_id].contains(id) by {
            }
            assert(self@ =~= old(self)@.client_finished(client_id));
        }
        told
    }

    /// A media factory has finished, with an error or without: nothing is matched with it any more.
    pub fn media_factory_finished(&mut self, media_factory_id: u128)
        requires
            old(self).wf(),
        ensures
            final(self).wf(),
            final(self)@ == old(self)@,
            match (old(self).mounts, final(self).mounts) {
                (Some(before), Some(after)) => {
                    &&& after.mounts@ == before.mounts@.filter(
                        |m: Mount<G>| m.media_factory_id != media_factory_id,
                    )
                    &&& after.factories@ == before.factories@.filter(
                        |id: u128| id != media_factory_id,
                    )
                    &&& forall|m: Mount<G>| #[trigger]
                        after.mounts@.contains(m) <==> before.mounts@.contains(m)
                            && m.media_factory_id != media_factory_id
                    &&& forall|id: u128| #[trigger]
                        after.factories@.contains(id) <==> before.factories@.contains(id) && id
                            != media_factory_id
                },
                (None, None) => true,
                _ => false,
            },
    {
        if let Some(mut mounts) = self.mounts.take() {
            mounts.media_factory_finished(media_factory_id);
            self.mounts = Some(mounts);
        }
    }

    /// A client looks for the media factory that serves a URI.
    ///
    /// Returns the first media factory in the order of the mounts that matches, the presentation
    /// URI and the extra data of the match.
    pub fn find_media_factory_for_uri<V>(
        &self,
        client_id: u128,
        uri: &Url,
        extra_data: &TypeMap<V>,
    ) -> (r: Result<(u128, PresentationURI, TypeMap<V>), Error>) where
        G: Fn(&Url, &TypeMap<V>) -> Option<(PresentationURI, TypeMap<V>)>,

        requires
            self.wf(),
            self.mounts matches Some(mounts) ==> forall|i: int|
                0 <= i < mounts.mounts@.len() ==> (#[trigger] mounts.mounts@[i]).takes(
                    *uri,
                    *extra_data,
                ),
        ensures
            self.serves(client_id, *uri, *extra_data, r),
    {
        if !self.clients.contains_key(&client_id) {
            return Err(Error::internal());
        }
        match &self.mounts {
            Some(mounts) => match mounts.match_uri(uri, extra_data) {
                Some(found) => Ok(found),
                None => Err(Error::status(StatusCode::NotFound)),
            },
            None => Err(Error::status(StatusCode::NotFound)),
        }
    }

    /// The server shuts down. Returns, for every session, who has to be told of its end.
    pub fn shutdown_sessions(&self) -> (r: Vec<EndOfSession>)
        requires
            self.wf(),
        ensures
            r@.len() == self.sessions.keys().len(),
            forall|i: int|
                0 <= i < r@.len() ==> (#[trigger] r@[i]).session_id@ == self.sessions.keys()[i],
            self@.all_told(r@),
    {
        let mut ends: Vec<EndOfSession> = Vec::new();
        let mut i: usize = 0;
        while i < self.sessions.entries.len()
            invariant
                self.wf(),
                i <= self.sessions.entries@.len(),
                ends@.len() == i,
                forall|k: int|
                    0 <= k < i ==> {
                        &&& (#[trigger] ends@[k]).session_id@ == self.sessions.keys()[k]
                        &&& self@.sessions.dom().contains(ends@[k].session_id@)
                        &&& ends@[k].media_id == self@.sessions[ends@[k].session_id@].media_id
                        &&& ends@[k].client_id == self@.present(
                            self@.sessions[ends@[k].session_id@].client_id,
                        )
                    },
            decreases self.sessions.entries@.len() - i,
        {
            let entry = &self.sessions.entries[i];
            proof {
                self.sessions.lemma_index(i as int);
            }
            ends.push(
                EndOfSession {
                    session_id: entry.0.clone(),
                    client_id: self.present(entry.1.client_id),
                    media_id: entry.1.media_id,
                },
            );
            i = i + 1;
        }
        proof {
            assert forall|id: Seq<char>| #[trigger] self@.sessions.dom().contains(id) implies exists|
                k: int,
            | 0 <= k < ends@.len() && (#[trigger] ends@[k]).session_id@ == id by {
                assert(self.sessions.keys().contains(id));
                let k = choose|k: int|
                    0 <= k < self.sessions.keys().len() && self.sessions.keys()[k] == id;
                assert(ends@[k].session_id@ == id);
            }
        }
        ends
    }
}

} // verus!
