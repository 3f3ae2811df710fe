//! The state of a media, and what it does on each message.

use std::collections::HashSet;

use vstd::prelude::*;

use crate::collections::set_elements;
use crate::error::{Error, StatusCode};
use crate::table::{names, Table};

verus! {

broadcast use vstd::std_specs::hash::group_hash_axioms;

/// The state of a media, as it is seen in contracts.
#[verifier::ext_equal]
pub ghost struct MediaView {
    /// The sessions, each with its client if it has one.
    pub sessions: Map<Seq<char>, Option<u128>>,
    /// The clients that take part in a session.
    pub clients: Set<u128>,
    /// Whether the media counts as idle. If that depends on its sessions, it does until its first
    /// session, and again from the end of any session on until there is a new one, even if other
    /// sessions go on.
    pub idle: bool,
    /// Whether the media is idle or not depending on its sessions.
    pub automatic_idle: bool,
}

/// What is to be done when the client of a session has changed.
#[derive(Clone, Copy, PartialEq, Eq, Structural, Debug)]
pub struct ClientChange {
    /// The client that has to be told that the media is finished with it.
    pub finished_client: Option<u128>,
    /// Whether the media factory has to be told that the media is not idle any more.
    pub not_idle: bool,
}

/// What is to be done when a session has ended.
#[derive(Clone, Copy, PartialEq, Eq, Structural, Debug)]
pub struct SessionEnd {
    /// The client that has to be told that the media is finished with it.
    pub finished_client: Option<u128>,
    /// Whether the media factory has to be told that the media is idle now.
    pub idle: bool,
}

impl MediaView {
    /// A media without sessions, which is idle.
    pub open spec fn initial(automatic_idle: bool) -> MediaView {
        MediaView { sessions: Map::empty(), clients: Set::empty(), idle: true, automatic_idle }
    }

    /// Whether a session can be kept alive.
    pub open spec fn keep_alive_check(self, id: Seq<char>) -> Result<(), Error> {
        if self.sessions.dom().contains(id) {
            Ok(())
        } else {
            Err(Error::spec_status(StatusCode::SessionNotFound))
        }
    }

    /// Whether the client of a session can be asked for something, or notified.
    pub open spec fn session_check(self, id: Seq<char>) -> Result<(), Error> {
        if self.sessions.dom().contains(id) {
            Ok(())
        } else {
            Err(Error::spec_status(StatusCode::NotFound))
        }
    }

    /// `client_id` if it is the id of a client that takes part in a session.
    pub open spec fn present(self, client_id: Option<u128>) -> Option<u128> {
        match client_id {
            Some(c) => if self.clients.contains(c) {
                Some(c)
            } else {
                None
            },
            None => None,
        }
    }

    /// Without the client of an ended or changed session.
    pub open spec fn without_client(self, client_id: Option<u128>) -> Set<u128> {
        match client_id {
            Some(c) => self.clients.remove(c),
            None => self.clients,
        }
    }

    /// A session has another client than before, or none. That is also how a session begins.
    pub open spec fn client_changed(self, id: Seq<char>, client_id: Option<u128>) -> (
        MediaView,
        ClientChange,
    ) {
        let is_new = !self.sessions.dom().contains(id);
        let old = if is_new {
            None
        } else {
            self.sessions[id]
        };
        let rest = self.without_client(old);
        let wakes = is_new && self.automatic_idle && self.idle;
        (
            MediaView {
                sessions: self.sessions.insert(id, client_id),
                clients: match client_id {
                    Some(c) => rest.insert(c),
                    None => rest,
                },
                idle: self.idle && !wakes,
                ..self
            },
            ClientChange { finished_client: self.present(old), not_idle: wakes },
        )
    }

    /// A session is over.
    pub open spec fn session_ended(self, id: Seq<char>) -> (MediaView, SessionEnd) {
        let client_id = self.sessions[id];
        let sleeps = self.automatic_idle && !self.idle;
        (
            MediaView {
                sessions: self.sessions.remove(id),
                clients: self.without_client(client_id),
                idle: self.idle || sleeps,
                ..self
            },
            SessionEnd { finished_client: self.present(client_id), idle: sleeps },
        )
    }

    /// The client of a session, if both are there.
    pub open spec fn session_client(self, id: Seq<char>) -> Option<u128> {
        if self.sessions.dom().contains(id) {
            self.present(self.sessions[id])
        } else {
            None
        }
    }

    /// The media says whether it is idle.
    pub open spec fn with_idle(self, idle: bool) -> (MediaView, bool) {
        (MediaView { idle, ..self }, self.idle != idle)
    }

    /// Whether these are told that the media has finished: the client of each session with the
    /// session, unless it was told already, and then all other clients.
    pub open spec fn ends_with(self, r: MediaShutdown) -> bool {
        &&& forall|i: int|
            0 <= i < r.sessions@.len() ==> {
                let client_id = self.present(self.sessions[(#[trigger] r.sessions@[i]).0@]);
                r.sessions@[i].1 == if client_id is Some && exists|j: int|
                    0 <= j < i && (#[trigger] r.sessions@[j]).1 == client_id {
                    None
                } else {
                    client_id
                }
            }
        &&& r.clients@.no_duplicates()
        &&& forall|c: u128|
            r.clients@.contains(c) <==> self.clients.contains(c) && !exists|i: int|
                0 <= i < r.sessions@.len() && (#[trigger] r.sessions@[i]).1 == Some(c)
    }

    /// Whether a client is the one of a session.
    pub open spec fn is_client_in_session(self, client_id: u128, id: Seq<char>) -> Result<
        (),
        Error,
    > {
        if !self.sessions.dom().contains(id) {
            Err(Error::spec_status(StatusCode::SessionNotFound))
        } else if self.sessions[id] == Some(client_id) {
            Ok(())
        } else {
            Err(Error::spec_internal())
        }
    }

    /// A session has timed out, if there is such a session.
    pub open spec fn session_timed_out(self, id: Seq<char>) -> (MediaView, Option<SessionEnd>) {
        if self.sessions.dom().contains(id) {
            let (after, end) = self.session_ended(id);
            (after, Some(end))
        } else {
            (self, None)
        }
    }

    /// A client shuts a session down, which has to be its own.
    pub open spec fn client_ends_session(self, client_id: u128, id: Seq<char>) -> (
        MediaView,
        Result<SessionEnd, Error>,
    ) {
        match self.is_client_in_session(client_id, id) {
            Ok(()) => {
                let (after, end) = self.session_ended(id);
                (after, Ok(end))
            },
            Err(err) => (self, Err(err)),
        }
    }

    /// The clients of the first `n` of these sessions, in order, as far as they are there.
    pub open spec fn clients_of(self, ids: Seq<Seq<char>>, n: int) -> Seq<u128>
        decreases n,
    {
        if n <= 0 {
            Seq::empty()
        } else {
            match self.present(self.sessions[ids[n - 1]]) {
                Some(c) => self.clients_of(ids, n - 1).push(c),
                None => self.clients_of(ids, n - 1),
            }
        }
    }
}

/// Who has to be told that a media has failed.
pub struct MediaError {
    /// The clients are told first.
    pub clients: Vec<u128>,
    /// The server is told for each of these sessions afterwards, and the media factory then.
    pub sessions: Vec<String>,
}

/// Who has to be told that a media has finished.
pub struct MediaShutdown {
    /// The server is told for each of these sessions, and its client before if there is one.
    pub sessions: Vec<(String, Option<u128>)>,
    /// These clients are told too.
    pub clients: Vec<u128>,
}

/// The state of a media.
pub struct Context {
    pub id: u128,
    pub sessions: Table<Option<u128>>,
    pub session_clients: HashSet<u128>,
    pub idle: bool,
    pub automatic_idle: bool,
}

impl Context {
    /// Every session has its name once.
    pub open spec fn wf(self) -> bool {
        self.sessions.wf()
    }

    /// What is known of sessions and clients.
    pub open spec fn view(self) -> MediaView {
        MediaView {
            sessions: self.sessions@,
            clients: self.session_clients@,
            idle: self.idle,
            automatic_idle: self.automatic_idle,
        }
    }

    /// A media without sessions, which is idle.
    pub fn new(id: u128, automatic_idle: bool) -> (r: Context)
        ensures
            r.wf(),
            r.id == id,
            r@ == MediaView::initial(automatic_idle),
    {
        Context {
            id,
            sessions: Table::new(),
            session_clients: HashSet::new(),
            idle: true,
            automatic_idle,
        }
    }

    /// The server says that a session has another client than before, or none. The first time it
    /// says so, the session begins.
    pub fn client_changed(&mut self, session_id: &str, client_id: Option<u128>) -> (r: ClientChange)
        requires
            old(self).wf(),
        ensures
            final(self).wf(),
            final(self).id == old(self).id,
            (final(self)@, r) == old(self)@.client_changed(session_id@, client_id),
    {
        let mut finished_client: Option<u128> = None;
        let mut not_idle: bool = false;
        match self.sessions.get(session_id) {
            Some(old_client) => {
                if let Some(old_client_id) = *old_client {
                    if self.session_clients.remove(&old_client_id) {
                        finished_client = Some(old_client_id);
                    } else {
                        proof {
                            assert(self.session_clients@ =~= old(self).session_clients@.remove(
                                old_client_id,
                            ));
                        }
                    }
                }
            },
            None => {
                if self.automatic_idle && self.idle {
                    self.idle = false;
                    not_idle = true;
                }
            },
        }
        self.sessions.insert(session_id.to_owned(), client_id);
        if let Some(new_client_id) = client_id {
            self.session_clients.insert(new_client_id);
        }
        proof {
            assert(self@ =~= old(self)@.client_changed(session_id@, client_id).0);
        }
        ClientChange { finished_client, not_idle }
    }

    fn end_session(&mut self, session_id: &str) -> (r: Option<SessionEnd>)
        requires
            old(self).wf(),
        ensures
            final(self).wf(),
            final(self).id == old(self).id,
            (final(self)@, r) == old(self)@.session_timed_out(session_id@),
    {
        match self.sessions.remove(session_id) {
            Some(client_id) => {
                let mut finished_client: Option<u128> = None;
                if let Some(c) = client_id {
                    if self.session_clients.remove(&c) {
                        finished_client = Some(c);
                    } else {
                        proof {
                            assert(self.session_clients@ =~= old(self).session_clients@.remove(c));
                        }
                    }
                }
                let mut idle: bool = false;
                if self.automatic_idle && !self.idle {
                    self.idle = true;
                    idle = true;
                }
                proof {
                    assert(self@ =~= old(self)@.session_ended(session_id@).0);
                }
                Some(SessionEnd { finished_client, idle })
            },
            None => None,
        }
    }

    /// The server says that a session has timed out.
    ///
    /// Returns what is to be done if there is such a session. The server has to be told too, after
    /// the client.
    pub fn timed_out(&mut self, session_id: &str) -> (r: Option<SessionEnd>)
        requires
            old(self).wf(),
        ensures
            final(self).wf(),
            final(self).id == old(self).id,
            (final(self)@, r) == old(self)@.session_timed_out(session_id@),
    {
        self.end_session(session_id)
    }

    /// Checks that a client is the one of a session, as it has to be before it can ask for anything
    /// in the session.
    pub fn is_client_in_session(&self, client_id: u128, session_id: &str) -> (r: Result<(), Error>)
        requires
            self.wf(),
        ensures
            r == self@.is_client_in_session(client_id, session_id@),
    {
        match self.sessions.get(session_id) {
            Some(session_client) => if *session_client == Some(client_id) {
                Ok(())
            } else {
                Err(Error::internal())
            },
            None => Err(Error::status(StatusCode::SessionNotFound)),
        }
    }

    /// A client shuts its session down.
    ///
    /// The server and the client have to be told, in this order, and then the client has to be
    /// answered. The client of a session has to be there.
    pub fn shutdown_session(&mut self, client_id: u128, session_id: &str) -> (r: Result<
        SessionEnd,
        Error,
    >)
        requires
            old(self).wf(),
            old(self)@.is_client_in_session(client_id, session_id@) is Ok ==> old(
                self,
            )@.clients.contains(client_id),
        ensures
            final(self).wf(),
            final(self).id == old(self).id,
            (final(self)@, r) == old(self)@.client_ends_session(client_id, session_id@),
            r matches Ok(end) ==> end.finished_client == Some(client_id),
    {
        match self.is_client_in_session(client_id, session_id) {
            Ok(()) => match self.end_session(session_id) {
                Some(end) => Ok(end),
                None => Err(Error::status(StatusCode::SessionNotFound)),
            },
            Err(err) => Err(err),
        }
    }

    /// The client of a session, if both are there.
    pub fn find_session_client(&self, session_id: &str) -> (r: Option<u128>)
        requires
            self.wf(),
        ensures
            r == self@.session_client(session_id@),
    {
        match self.sessions.get(session_id) {
            Some(client_id) => self.present(*client_id),
            None => None,
        }
    }

    fn present(&self, client_id: Option<u128>) -> (r: Option<u128>)
        ensures
            r == self@.present(client_id),
    {
        match client_id {
            Some(c) => if self.session_clients.contains(&c) {
                Some(c)
            } else {
                None
            },
            None => None,
        }
    }

    /// Whether a session can be kept alive: the server has to be asked for it.
    pub fn session_keep_alive(&self, session_id: &str) -> (r: Result<(), Error>)
        requires
            self.wf(),
        ensures
            r == self@.keep_alive_check(session_id@),
    {
        if self.sessions.contains_key(session_id) {
            Ok(())
        } else {
            Err(Error::status(StatusCode::SessionNotFound))
        }
    }

    /// Whether the client of a session can be asked for interleaved channels, or notified.
    pub fn check_session(&self, session_id: &str) -> (r: Result<(), Error>)
        requires
            self.wf(),
        ensures
            r == self@.session_check(session_id@),
    {
        if self.sessions.contains_key(session_id) {
            Ok(())
        } else {
            Err(Error::status(StatusCode::NotFound))
        }
    }

    /// The media says whether it is idle. Returns whether the media factory has to be told.
    ///
    /// A media that is idle depending on its sessions does not say so itself.
    pub fn idle(&mut self, idle: bool) -> (r: bool)
        requires
            old(self).wf(),
            !old(self)@.automatic_idle,
        ensures
            final(self).wf(),
            final(self).id == old(self).id,
            (final(self)@, r) == old(self)@.with_idle(idle),
    {
        if self.idle == idle {
            return false;
        }
        self.idle = idle;
        true
    }

    /// Whether the media is idle.
    pub fn is_idle(&self) -> (r: bool)
        ensures
            r == self@.idle,
    {
        self.idle
    }

    /// The media has failed. Returns who has to be told before it shuts down.
    pub fn error(&self) -> (r: MediaError)
        requires
            self.wf(),
        ensures
            crate::text::views(r.sessions@) == self.sessions.keys(),
            r.clients@ == self@.clients_of(self.sessions.keys(), self.sessions.keys().len() as int),
    {
        let mut clients: Vec<u128> = Vec::new();
        let mut sessions: Vec<String> = Vec::new();
        let ghost ids = self.sessions.keys();
        let mut i: usize = 0;
        while i < self.sessions.entries.len()
            invariant
                self.wf(),
                ids == self.sessions.keys(),
                i <= self.sessions.entries@.len(),
                crate::text::views(sessions@) == ids.take(i as int),
                clients@ == self@.clients_of(ids, i as int),
            decreases self.sessions.entries@.len() - i,
        {
            let entry = &self.sessions.entries[i];
            let ghost before = sessions@;
            sessions.push(entry.0.clone());
            proof {
                self.sessions.lemma_index(i as int);
                assert(ids[i as int] == entry.0@);
                assert(ids.take(i + 1) =~= ids.take(i as int).push(entry.0@));
                assert(crate::text::views(sessions@) =~= crate::text::views(before).push(entry.0@));
            }
            if let Some(c) = self.present(entry.1) {
                clients.push(c);
            }
            i = i + 1;
        }
        proof {
            assert(ids.take(i as int) =~= ids);
        }
        MediaError { clients, sessions }
    }

    /// The media shuts down. Returns who has to be told, every client once.
    pub fn shutdown(self) -> (r: MediaShutdown)
        requires
            self.wf(),
        ensures
            names(r.sessions@) == self.sessions.keys(),
            self@.ends_with(r),
    {
        let ghost start = self@;
        let ghost ids = self.sessions.keys();
        let table = self.sessions;
        let mut rest = self.session_clients;
        let mut sessions: Vec<(String, Option<u128>)> = Vec::new();
        let mut i: usize = 0;
        while i < table.entries.len()
            invariant
                table.wf(),
                table@ == start.sessions,
                ids == table.keys(),
                i <= table.entries@.len(),
                sessions@.len() == i,
                names(sessions@) == ids.take(i as int),
                forall|k: int|
                    0 <= k < i ==> {
                        let client_id = start.present(
                            start.sessions[(#[trigger] sessions@[k]).0@],
                        );
                        sessions@[k].1 == if client_id is Some && exists|j: int|
                            0 <= j < k && (#[trigger] sessions@[j]).1 == client_id {
                            None
                        } else {
                            client_id
                        }
                    },
                forall|c: u128|
                    rest@.contains(c) <==> start.clients.contains(c) && !exists|k: int|
                        0 <= k < i && (#[trigger] sessions@[k]).1 == Some(c),
            decreases table.entries@.len() - i,
        {
            let entry = &table.entries[i];
            let ghost before = sessions@;
            let ghost rest_before = rest@;
            proof {
                table.lemma_index(i as int);
                assert(ids[i as int] == entry.0@);
            }
            let mut told: Option<u128> = None;
            if let Some(c) = entry.1 {
                if rest.remove(&c) {
                    told = Some(c);
                }
            }
            sessions.push((entry.0.clone(), told));
            proof {
                assert(names(sessions@) =~= ids.take(i + 1));
                assert forall|k: int| 0 <= k < i implies #[trigger] sessions@[k] == before[k] by {}
                assert forall|c: u128|
                    rest@.contains(c) <==> start.clients.contains(c) && !exists|k: int|
                        0 <= k < i + 1 && (#[trigger] sessions@[k]).1 == Some(c) by {
                    if exists|k: int| 0 <= k < i && (#[trigger] before[k]).1 == Some(c) {
                        let k = choose|k: int| 0 <= k < i && (#[trigger] before[k]).1 == Some(c);
                        assert(sessions@[k].1 == Some(c));
                    }
                    if told == Some(c) {
                        assert(sessions@[i as int].1 == Some(c));
                    }
                }
                let client_id = start.present(start.sessions[sessions@[i as int].0@]);
                if client_id is Some {
                    let c = client_id->0;
                    if exists|j: int| 0 <= j < i && (#[trigger] before[j]).1 == Some(c) {
                        let j = choose|j: int| 0 <= j < i && (#[trigger] before[j]).1 == Some(c);
                        assert(sessions@[j].1 == client_id);
                    }
                    if exists|j: int| 0 <= j < i && (#[trigger] sessions@[j]).1 == client_id {
                        let j = choose|j: int| 0 <= j < i && (#[trigger] sessions@[j]).1 == client_id;
                        assert(before[j].1 == Some(c));
                    }
                }
            }
            i = i + 1;
        }
        proof {
            assert(ids.take(i as int) =~= ids);
        }
        let clients = set_elements(&rest);
        proof {
            assert forall|c: u128| clients@.contains(c) <==> rest@.contains(c) by {
                assert(clients@.to_set().contains(c) <==> clients@.contains(c));
            }
        }
        MediaShutdown { sessions, clients }
    }
}

} // verus!
