//! What holds of the server across messages.

use vstd::prelude::*;

use super::context::{FoundSessionView, ServerView, TimeoutCheck, SESSION_TIMEOUT};
use crate::error::{Error, StatusCode};
use crate::time::elapsed;
use crate::url::UrlView;

verus! {

/// A session that was created is found by any client, with the media and the presentation URI that
/// it was created with. The client that it was created for is replaced.
pub proof fn law_created_session_is_found(
    server: ServerView,
    client_id: u128,
    id: Seq<char>,
    media_id: u128,
    presentation_uri: UrlView,
    created: u64,
    other_client_id: u128,
    found: u64,
)
    requires
        server.create_session(client_id, id, media_id, presentation_uri, created).1 is Ok,
        server.clients.dom().contains(other_client_id),
    ensures
        server.create_session(client_id, id, media_id, presentation_uri, created).0.find_session(
            other_client_id,
            id,
            found,
        ).1 == Ok::<FoundSessionView, Error>(
            (FoundSessionView { media_id, presentation_uri, replaced_client: Some(client_id) }),
        ),
{
}

/// Whatever a client gets when it finds a session, it gets again when it or another client finds
/// the session later.
pub proof fn law_find_session_again(
    server: ServerView,
    client_id: u128,
    id: Seq<char>,
    now: u64,
    other_client_id: u128,
    later: u64,
)
    requires
        server.find_session(client_id, id, now).1 is Ok,
        server.clients.dom().contains(other_client_id),
    ensures
        ({
            let (after, first) = server.find_session(client_id, id, now);
            let second = after.find_session(other_client_id, id, later).1;
            &&& second is Ok
            &&& second->Ok_0.media_id == first->Ok_0.media_id
            &&& second->Ok_0.presentation_uri == first->Ok_0.presentation_uri
            &&& second->Ok_0.replaced_client == Some(client_id)
        }),
{
}

/// Once a client was replaced in a session, it can't keep the session alive any more, and the
/// client that replaced it can.
pub proof fn law_only_active_client_keeps_alive(
    server: ServerView,
    client_id: u128,
    id: Seq<char>,
    now: u64,
    other_client_id: u128,
    later: u64,
)
    requires
        server.find_session(client_id, id, now).1 is Ok,
        other_client_id != client_id,
    ensures
        server.find_session(client_id, id, now).0.keep_alive_session(client_id, id, later).1 is Ok,
        server.find_session(client_id, id, now).0.keep_alive_session(other_client_id, id, later).1
            == Err::<(), Error>(Error::spec_internal()),
{
}

/// A session that was shut down is unknown to everybody.
pub proof fn law_shut_down_session_is_gone(
    server: ServerView,
    client_id: u128,
    id: Seq<char>,
    other_client_id: u128,
    now: u64,
)
    requires
        server.shutdown_session(client_id, id).1 is Ok,
    ensures
        ({
            let after = server.shutdown_session(client_id, id).0;
            let not_found = Error::spec_status(StatusCode::SessionNotFound);
            &&& after.find_session(other_client_id, id, now).1 == Err::<FoundSessionView, Error>(
                not_found,
            )
            &&& after.keep_alive_session(other_client_id, id, now).1 == Err::<(), Error>(not_found)
            &&& after.media_keep_alive_session(id, now).1 == Err::<(), Error>(not_found)
            &&& after.shutdown_session(other_client_id, id).1 == Err::<Option<u128>, Error>(
                not_found,
            )
            &&& after.check_timeout(id, now).1 == TimeoutCheck::Unknown
        }),
{
}

/// A session that is kept alive does not time out before a whole timeout has passed, but then.
/// Until then it is checked again at just that time.
pub proof fn law_keep_alive_puts_off_timeout(
    server: ServerView,
    client_id: u128,
    id: Seq<char>,
    now: u64,
    later: u64,
)
    requires
        server.keep_alive_session(client_id, id, now).1 is Ok,
    ensures
        ({
            let after = server.keep_alive_session(client_id, id, now).0;
            let (checked, check) = after.check_timeout(id, later);
            if elapsed(now, later) < SESSION_TIMEOUT {
                checked == after && check == TimeoutCheck::Remaining(
                    (SESSION_TIMEOUT - elapsed(now, later)) as u64,
                )
            } else {
                &&& check == TimeoutCheck::TimedOut {
                    media_id: server.sessions[id].media_id,
                    client_id: server.present(Some(client_id)),
                }
                &&& !checked.sessions.dom().contains(id)
            }
        }),
{
}

/// Sessions outlive their clients: when a client is gone, all its sessions are still there with
/// the media and the presentation URI that they had, and any other client can take them over
/// without replacing anybody.
pub proof fn law_sessions_outlive_clients(
    server: ServerView,
    client_id: u128,
    id: Seq<char>,
    other_client_id: u128,
    now: u64,
)
    requires
        server.clients.dom().contains(client_id),
        server.clients[client_id].contains(id),
        server.sessions.dom().contains(id),
        server.clients.dom().contains(other_client_id),
        other_client_id != client_id,
    ensures
        ({
            let found = server.client_finished(client_id).find_session(other_client_id, id, now).1;
            &&& found is Ok
            &&& found->Ok_0.media_id == server.sessions[id].media_id
            &&& found->Ok_0.presentation_uri == server.sessions[id].presentation_uri
            &&& found->Ok_0.replaced_client is None
        }),
{
}

/// Every session that a client takes part in, if it is still there, has this client: all that the
/// server does keeps it so, as long as the identifiers of new clients and new sessions are new.
pub proof fn law_owners_agree(
    server: ServerView,
    client_id: u128,
    id: Seq<char>,
    media_id: u128,
    presentation_uri: UrlView,
    now: u64,
)
    requires
        server.owners_agree(),
    ensures
        server.check_timeout(id, now).0.owners_agree(),
        server.is_fresh(id) ==> server.create_session(
            client_id,
            id,
            media_id,
            presentation_uri,
            now,
        ).0.owners_agree(),
        server.find_session(client_id, id, now).0.owners_agree(),
        server.keep_alive_session(client_id, id, now).0.owners_agree(),
        server.shutdown_session(client_id, id).0.owners_agree(),
        server.client_finished(client_id).owners_agree(),
        server.media_keep_alive_session(id, now).0.owners_agree(),
        server.media_finished(id).0.owners_agree(),
        server.new_client(client_id).owners_agree(),
{
    let created = server.create_session(client_id, id, media_id, presentation_uri, now).0;
    if server.is_fresh(id) {
        assert forall|c: u128, s: Seq<char>|
            #![trigger created.clients[c].contains(s)]
            created.clients.dom().contains(c) && created.clients[c].contains(s)
                && created.sessions.dom().contains(s) implies created.sessions[s].client_id == Some(
            c,
        ) by {
            if c != client_id {
                assert(server.clients[c].contains(s));
            }
            if s != id {
                assert(server.clients[c].contains(s));
            }
        }
    }
    let found = server.find_session(client_id, id, now).0;
    assert forall|c: u128, s: Seq<char>|
        #![trigger found.clients[c].contains(s)]
        found.clients.dom().contains(c) && found.clients[c].contains(s)
            && found.sessions.dom().contains(s) implies found.sessions[s].client_id == Some(c) by {
        if s != id || c != client_id {
            assert(server.clients[c].contains(s));
        }
    }
    let finished = server.client_finished(client_id);
    assert forall|c: u128, s: Seq<char>|
        #![trigger finished.clients[c].contains(s)]
        finished.clients.dom().contains(c) && finished.clients[c].contains(s)
            && finished.sessions.dom().contains(s) implies finished.sessions[s].client_id == Some(
        c,
    ) by {
        assert(server.clients[c].contains(s));
        if server.clients.dom().contains(client_id) && server.clients[client_id].contains(s) {
            assert(server.clients[client_id].contains(s));
        }
    }
    let connected = server.new_client(client_id);
    assert forall|c: u128, s: Seq<char>|
        #![trigger connected.clients[c].contains(s)]
        connected.clients.dom().contains(c) && connected.clients[c].contains(s)
            && connected.sessions.dom().contains(s) implies connected.sessions[s].client_id == Some(
        c,
    ) by {
        if c != client_id {
            assert(server.clients[c].contains(s));
        }
    }
    let checked = server.check_timeout(id, now).0;
    assert forall|c: u128, s: Seq<char>|
        #![trigger checked.clients[c].contains(s)]
        checked.clients.dom().contains(c) && checked.clients[c].contains(s)
            && checked.sessions.dom().contains(s) implies checked.sessions[s].client_id == Some(
        c,
    ) by {
        assert(server.clients[c].contains(s));
    }
    let kept = server.keep_alive_session(client_id, id, now).0;
    assert forall|c: u128, s: Seq<char>|
        #![trigger kept.clients[c].contains(s)]
        kept.clients.dom().contains(c) && kept.clients[c].contains(s)
            && kept.sessions.dom().contains(s) implies kept.sessions[s].client_id == Some(c) by {
        assert(server.clients[c].contains(s));
    }
    let shut = server.shutdown_session(client_id, id).0;
    assert forall|c: u128, s: Seq<char>|
        #![trigger shut.clients[c].contains(s)]
        shut.clients.dom().contains(c) && shut.clients[c].contains(s)
            && shut.sessions.dom().contains(s) implies shut.sessions[s].client_id == Some(c) by {
        assert(server.clients[c].contains(s));
    }
    let touched = server.media_keep_alive_session(id, now).0;
    assert forall|c: u128, s: Seq<char>|
        #![trigger touched.clients[c].contains(s)]
        touched.clients.dom().contains(c) && touched.clients[c].contains(s)
            && touched.sessions.dom().contains(s) implies touched.sessions[s].client_id == Some(
        c,
    ) by {
        assert(server.clients[c].contains(s));
    }
    let dropped = server.media_finished(id).0;
    assert forall|c: u128, s: Seq<char>|
        #![trigger dropped.clients[c].contains(s)]
        dropped.clients.dom().contains(c) && dropped.clients[c].contains(s)
            && dropped.sessions.dom().contains(s) implies dropped.sessions[s].client_id == Some(
        c,
    ) by {
        assert(server.clients[c].contains(s));
    }
}

/// Where the owners agree, a client that has finished leaves only sessions of its own.
pub proof fn law_finished_client_leaves_own_sessions(
    server: ServerView,
    client_id: u128,
    id: Seq<char>,
)
    requires
        server.owners_agree(),
        server.clients.dom().contains(client_id),
        server.clients[client_id].contains(id),
        server.sessions.dom().contains(id),
    ensures
        server.sessions[id].client_id == Some(client_id),
        server.client_finished(client_id).sessions[id].client_id is None,
{
}

} // verus!
