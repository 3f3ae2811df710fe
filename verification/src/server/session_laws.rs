//! What each message does to the sessions of the server, and what it leaves alone.

use vstd::prelude::*;

use super::context::{EndOfSession, ServerView, TimeoutCheck, SESSION_TIMEOUT};
use crate::error::{Error, StatusCode};
use crate::time::elapsed;
use crate::url::UrlView;

verus! {

/// What has elapsed is what is between two points in time. Nothing has before the first.
pub proof fn law_elapsed_time(then: u64, now: u64)
    ensures
        then <= now ==> then + elapsed(then, now) == now,
        now <= then ==> elapsed(then, now) == 0,
        SESSION_TIMEOUT == 60 * 1_000_000_000,
{
}

/// Whether session `id`, active for the last time at `now`, times out a whole timeout after that,
/// and until then is to be checked again at just that time.
pub open spec fn times_out_after(server: ServerView, id: Seq<char>, now: u64) -> bool {
    &&& server.sessions.dom().contains(id)
    &&& forall|later: u64|
        now <= later ==> {
            let (checked, check) = #[trigger] server.check_timeout(id, later);
            if later - now < SESSION_TIMEOUT {
                &&& checked == server
                &&& check matches TimeoutCheck::Remaining(time) && later + time == now
                    + SESSION_TIMEOUT
            } else {
                &&& !checked.sessions.dom().contains(id)
                &&& check == TimeoutCheck::TimedOut {
                    media_id: server.sessions[id].media_id,
                    client_id: server.present(server.sessions[id].client_id),
                }
            }
        }
}

/// A media keeps its session alive just if the session is there: the session times out a whole
/// timeout after that, not earlier. Nothing else changes.
pub proof fn law_media_keeps_session_alive(server: ServerView, id: Seq<char>, now: u64, later: u64)
    ensures
        ({
            let (after, r) = server.media_keep_alive_session(id, now);
            let (checked, check) = after.check_timeout(id, later);
            &&& r is Ok <==> server.sessions.dom().contains(id)
            &&& r is Ok ==> {
                &&& times_out_after(after, id, now)
                &&& elapsed(now, later) < SESSION_TIMEOUT ==> check == TimeoutCheck::Remaining(
                    (SESSION_TIMEOUT - elapsed(now, later)) as u64,
                )
                &&& elapsed(now, later) >= SESSION_TIMEOUT <==> check is TimedOut
                &&& after.sessions[id].media_id == server.sessions[id].media_id
                &&& after.sessions[id].client_id == server.sessions[id].client_id
                &&& after.sessions[id].presentation_uri == server.sessions[id].presentation_uri
                &&& after.clients == server.clients
            }
            &&& r matches Err(err) ==> err == Error::spec_status(StatusCode::SessionNotFound)
                && after == server
        }),
{
}

/// A client keeps a session alive just if it is the client of the session: the session times out
/// a whole timeout after that, not earlier. Nothing else changes.
pub proof fn law_client_keeps_session_alive(
    server: ServerView,
    client_id: u128,
    id: Seq<char>,
    now: u64,
)
    ensures
        ({
            let (after, r) = server.keep_alive_session(client_id, id, now);
            &&& r is Ok <==> server.sessions.dom().contains(id) && server.sessions[id].client_id
                == Some(client_id)
            &&& r is Ok ==> {
                &&& times_out_after(after, id, now)
                &&& after.sessions[id].media_id == server.sessions[id].media_id
                &&& after.sessions[id].client_id == Some(client_id)
                &&& after.sessions[id].presentation_uri == server.sessions[id].presentation_uri
                &&& after.clients == server.clients
            }
            &&& r matches Err(err) ==> after == server && err == if server.sessions.dom().contains(
                id,
            ) {
                Error::spec_internal()
            } else {
                Error::spec_status(StatusCode::SessionNotFound)
            }
        }),
{
}

/// A session is found just if it and the client are there. It is what it was, has the client that
/// found it, and times out a whole timeout after that. The client that it had, if it is another
/// one, takes part in it no longer.
pub proof fn law_found_session_has_client(
    server: ServerView,
    client_id: u128,
    id: Seq<char>,
    now: u64,
    other_client_id: u128,
)
    ensures
        ({
            let (after, r) = server.find_session(client_id, id, now);
            &&& r is Ok <==> server.sessions.dom().contains(id) && server.clients.dom().contains(
                client_id,
            )
            &&& r matches Ok(found) ==> {
                &&& times_out_after(after, id, now)
                &&& found.media_id == server.sessions[id].media_id
                &&& found.presentation_uri == server.sessions[id].presentation_uri
                &&& found.replaced_client matches Some(replaced) ==> server.sessions[id].client_id
                    == Some(replaced)
                &&& found.replaced_client is None ==> match server.sessions[id].client_id {
                    Some(before) => !server.clients.dom().contains(before),
                    None => true,
                }
                &&& after.sessions[id].client_id == Some(client_id)
                &&& after.sessions[id].media_id == server.sessions[id].media_id
                &&& after.sessions[id].presentation_uri == server.sessions[id].presentation_uri
                &&& server.sessions[id].client_id != Some(client_id)
                    ==> after.clients[client_id].contains(id)
                &&& after.clients.dom() =~= server.clients.dom()
                &&& other_client_id != client_id && server.sessions[id].client_id == Some(
                    other_client_id,
                ) && server.clients.dom().contains(other_client_id)
                    ==> !after.clients[other_client_id].contains(id)
                &&& other_client_id != client_id && server.sessions[id].client_id != Some(
                    other_client_id,
                ) && server.clients.dom().contains(other_client_id)
                    ==> after.clients[other_client_id] == server.clients[other_client_id]
            }
            &&& r matches Err(err) ==> after == server && err == if server.sessions.dom().contains(
                id,
            ) {
                Error::spec_internal()
            } else {
                Error::spec_status(StatusCode::SessionNotFound)
            }
        }),
{
}

/// A session is created just if none has its name and the client is there. It is the client's, and
/// times out a whole timeout after that.
pub proof fn law_created_session_has_client(
    server: ServerView,
    client_id: u128,
    id: Seq<char>,
    media_id: u128,
    presentation_uri: UrlView,
    now: u64,
    other_client_id: u128,
)
    ensures
        ({
            let (after, r) = server.create_session(client_id, id, media_id, presentation_uri, now);
            &&& r is Ok <==> !server.sessions.dom().contains(id) && server.clients.dom().contains(
                client_id,
            )
            &&& r is Ok ==> {
                &&& times_out_after(after, id, now)
                &&& after.sessions[id].client_id == Some(client_id)
                &&& after.sessions[id].media_id == media_id
                &&& after.sessions[id].presentation_uri == presentation_uri
                &&& after.clients[client_id].contains(id)
                &&& after.clients.dom() =~= server.clients.dom()
                &&& other_client_id != client_id && server.clients.dom().contains(other_client_id)
                    ==> after.clients[other_client_id] == server.clients[other_client_id]
                &&& forall|other: Seq<char>|
                    other != id ==> (#[trigger] after.clients[client_id].contains(other)
                        <==> server.clients[client_id].contains(other))
            }
            &&& r matches Err(err) ==> after == server && err == Error::spec_internal()
        }),
{
}

/// A session that was shut down or has lost its media is gone. Its media is told of the first just
/// if the client was its own, and its client of the second if it is there. The clients stay.
pub proof fn law_ended_session_is_gone(server: ServerView, client_id: u128, id: Seq<char>)
    ensures
        ({
            let (after, r) = server.shutdown_session(client_id, id);
            &&& !after.sessions.dom().contains(id)
            &&& after.clients == server.clients
            &&& r is Ok <==> server.sessions.dom().contains(id)
            &&& r matches Ok(Some(media_id)) ==> media_id == server.sessions[id].media_id
            &&& r is Ok ==> (r->Ok_0 is Some <==> server.sessions[id].client_id == Some(client_id))
            &&& r matches Err(err) ==> after == server && err == Error::spec_status(
                StatusCode::SessionNotFound,
            )
        }),
        ({
            let (after, r) = server.media_finished(id);
            &&& !after.sessions.dom().contains(id)
            &&& after.clients == server.clients
            &&& r matches Some(c) ==> server.sessions.dom().contains(id)
                && server.sessions[id].client_id == Some(c) && server.clients.dom().contains(c)
            &&& server.sessions.dom().contains(id) && r is None ==> match (
            server.sessions[id].client_id) {
                Some(c) => !server.clients.dom().contains(c),
                None => true,
            }
        }),
        ({
            let after = server.drop_session(id);
            &&& !after.sessions.dom().contains(id)
            &&& after.clients == server.clients
        }),
{
    if !server.sessions.dom().contains(id) {
        assert(server.drop_session(id).sessions =~= server.sessions);
    }
}

/// What happens to a session leaves every other session and all listeners as they are.
pub proof fn law_other_sessions_stay(
    server: ServerView,
    client_id: u128,
    id: Seq<char>,
    media_id: u128,
    presentation_uri: UrlView,
    now: u64,
    other: Seq<char>,
)
    requires
        other != id,
    ensures
        stays(server, server.check_timeout(id, now).0, other),
        stays(
            server,
            server.create_session(client_id, id, media_id, presentation_uri, now).0,
            other,
        ),
        stays(server, server.find_session(client_id, id, now).0, other),
        stays(server, server.keep_alive_session(client_id, id, now).0, other),
        stays(server, server.shutdown_session(client_id, id).0, other),
        stays(server, server.media_keep_alive_session(id, now).0, other),
        stays(server, server.media_finished(id).0, other),
        stays(server, server.drop_session(id), other),
{
}

/// Whether session `id` is there after something just as it was before, if it was, and the
/// listeners are the same.
pub open spec fn stays(before: ServerView, after: ServerView, id: Seq<char>) -> bool {
    &&& after.sessions.dom().contains(id) <==> before.sessions.dom().contains(id)
    &&& before.sessions.dom().contains(id) ==> after.sessions[id] == before.sessions[id]
    &&& after.listeners == before.listeners
}

/// A client that has finished is gone, and nobody else is. Every session stays with its media,
/// its presentation URI and its timeout; just those that the client took part in lose their client.
pub proof fn law_finished_client_is_gone(
    server: ServerView,
    client_id: u128,
    id: Seq<char>,
    other_client_id: u128,
)
    ensures
        ({
            let after = server.client_finished(client_id);
            &&& !after.clients.dom().contains(client_id)
            &&& other_client_id != client_id ==> (after.clients.dom().contains(other_client_id)
                <==> server.clients.dom().contains(other_client_id))
            &&& other_client_id != client_id && server.clients.dom().contains(other_client_id)
                ==> after.clients[other_client_id] == server.clients[other_client_id]
            &&& after.listeners == server.listeners
            &&& after.sessions.dom().contains(id) <==> server.sessions.dom().contains(id)
            &&& server.sessions.dom().contains(id) ==> {
                &&& after.sessions[id].media_id == server.sessions[id].media_id
                &&& after.sessions[id].presentation_uri == server.sessions[id].presentation_uri
                &&& after.sessions[id].last_active == server.sessions[id].last_active
                &&& after.sessions[id].client_id == if server.clients.dom().contains(client_id)
                    && server.clients[client_id].contains(id) {
                    None
                } else {
                    server.sessions[id].client_id
                }
            }
        }),
{
}

/// A new client is there and takes part in no session. Nobody else changes, and no session.
pub proof fn law_new_client_is_there(server: ServerView, client_id: u128, other_client_id: u128)
    ensures
        ({
            let after = server.new_client(client_id);
            &&& after.clients.dom().contains(client_id)
            &&& forall|id: Seq<char>| !#[trigger] after.clients[client_id].contains(id)
            &&& other_client_id != client_id ==> (after.clients.dom().contains(other_client_id)
                <==> server.clients.dom().contains(other_client_id))
            &&& other_client_id != client_id && server.clients.dom().contains(other_client_id)
                ==> after.clients[other_client_id] == server.clients[other_client_id]
            &&& after.sessions == server.sessions
            &&& after.listeners == server.listeners
        }),
{
}

/// A listener is there until it has finished. Neither changes anything else.
pub proof fn law_listeners_come_and_go(server: ServerView, id: Seq<char>, other: Seq<char>)
    ensures
        server.new_listener(id).listeners.contains(id),
        !server.listener_finished(id).listeners.contains(id),
        other != id ==> (server.new_listener(id).listeners.contains(other)
            <==> server.listeners.contains(other)),
        other != id ==> (server.listener_finished(id).listeners.contains(other)
            <==> server.listeners.contains(other)),
        server.new_listener(id).sessions == server.sessions,
        server.new_listener(id).clients == server.clients,
        server.listener_finished(id).sessions == server.sessions,
        server.listener_finished(id).clients == server.clients,
{
}

/// When a client has finished, the media of each session that it leaves is told of that session,
/// once. No other media is told of anything.
pub proof fn law_medias_are_told_of_finished_client(
    server: ServerView,
    client_id: u128,
    r: Seq<(String, u128)>,
    id: Seq<char>,
    i: int,
    j: int,
)
    requires
        server.medias_told(client_id, r),
    ensures
        server.clients.dom().contains(client_id) && server.clients[client_id].contains(id)
            && server.sessions.dom().contains(id) ==> exists|k: int|
            0 <= k < r.len() && (#[trigger] r[k]).0@ == id && r[k].1
                == server.sessions[id].media_id,
        0 <= i < r.len() ==> server.clients.dom().contains(client_id)
            && server.clients[client_id].contains(r[i].0@) && server.sessions.dom().contains(
            r[i].0@,
        ),
        0 <= i < j < r.len() ==> r[i].0@ != r[j].0@,
{
    let names = crate::table::names(r);
    if names.contains(id) {
        let k = choose|k: int| 0 <= k < names.len() && names[k] == id;
        assert(r[k].0@ == id);
    }
    if 0 <= i < r.len() {
        assert(names[i] == r[i].0@);
        assert(names.contains(r[i].0@));
        assert(server.sessions.dom().contains(r[i].0@));
        if i < j < r.len() {
            assert(names[j] == r[j].0@);
        }
    }
}

/// When the server shuts down, the media of every session is told, and its client just if it is
/// there.
pub proof fn law_all_are_told_of_shutdown(
    server: ServerView,
    r: Seq<EndOfSession>,
    id: Seq<char>,
)
    requires
        server.all_told(r),
        server.sessions.dom().contains(id),
    ensures
        exists|k: int|
            0 <= k < r.len() && (#[trigger] r[k]).session_id@ == id && r[k].media_id
                == server.sessions[id].media_id && match server.sessions[id].client_id {
                Some(c) => r[k].client_id == Some(c) <==> server.clients.dom().contains(c),
                None => r[k].client_id is None,
            },
{
    let k = choose|k: int| 0 <= k < r.len() && (#[trigger] r[k]).session_id@ == id;
    assert(r[k].session_id@ == id);
}

} // verus!
