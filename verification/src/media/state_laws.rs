//! What each message does to the sessions and clients of a media, and what its streams are.

use vstd::prelude::*;

use super::context::{MediaShutdown, MediaView};
use super::stream::{
    are_streams, control_among, control_of, is_stream_id, path_part, stream_of_uri,
    ConfiguredTransport, SdpAttribute, SdpMedia, SdpSession,
};
use crate::error::{Error, StatusCode};
use crate::text::{lemma_first_index, lemma_first_index_bounds};
use crate::url::UrlView;

verus! {

/// A new media has no sessions and no clients, and is idle. The first session wakes it up just if
/// its sessions decide about that.
pub proof fn law_new_media_is_idle(
    automatic_idle: bool,
    id: Seq<char>,
    client_id: Option<u128>,
    c: u128,
)
    ensures
        ({
            let media = MediaView::initial(automatic_idle);
            let (first, change) = media.client_changed(id, client_id);
            &&& !media.sessions.dom().contains(id)
            &&& !media.clients.contains(c)
            &&& media.idle
            &&& change.finished_client is None
            &&& change.not_idle <==> automatic_idle
            &&& first.idle <==> !automatic_idle
        }),
{
}

/// A media can be asked for a session from when it has begun until it is over, and not otherwise.
pub proof fn law_session_is_checked(media: MediaView, id: Seq<char>, client_id: Option<u128>)
    ensures
        media.client_changed(id, client_id).0.keep_alive_check(id) is Ok,
        media.client_changed(id, client_id).0.session_check(id) is Ok,
        media.session_ended(id).0.keep_alive_check(id) == Err::<(), Error>(
            Error::spec_status(StatusCode::SessionNotFound),
        ),
        media.session_ended(id).0.session_check(id) == Err::<(), Error>(
            Error::spec_status(StatusCode::NotFound),
        ),
        media.keep_alive_check(id) is Ok <==> media.sessions.dom().contains(id),
        media.session_check(id) is Ok <==> media.sessions.dom().contains(id),
{
}

/// Just the client of a session is its client.
pub proof fn law_client_of_session(media: MediaView, client_id: u128, id: Seq<char>)
    ensures
        media.is_client_in_session(client_id, id) is Ok <==> media.sessions.dom().contains(id)
            && media.sessions[id] == Some(client_id),
        media.is_client_in_session(client_id, id) matches Err(err) ==> err
            == if media.sessions.dom().contains(id) {
            Error::spec_internal()
        } else {
            Error::spec_status(StatusCode::SessionNotFound)
        },
        media.session_client(id) matches Some(c) ==> media.sessions.dom().contains(id)
            && media.sessions[id] == Some(c) && media.clients.contains(c),
        media.is_client_in_session(client_id, id) is Ok && media.clients.contains(client_id)
            ==> media.session_client(id) == Some(client_id),
{
}

/// A session gets the client that it is given, and no other session changes. The client that it had
/// is told if it took part, and does so no longer unless it is the new one. The media factory is
/// told just if the media wakes up.
pub proof fn law_session_gets_client(
    media: MediaView,
    id: Seq<char>,
    client_id: Option<u128>,
    other: Seq<char>,
    other_client_id: u128,
)
    ensures
        ({
            let (after, change) = media.client_changed(id, client_id);
            let known = media.sessions.dom().contains(id);
            &&& after.sessions.dom().contains(id)
            &&& after.sessions[id] == client_id
            &&& client_id matches Some(c) ==> after.clients.contains(c)
            &&& other != id ==> (after.sessions.dom().contains(other)
                <==> media.sessions.dom().contains(other))
            &&& other != id && media.sessions.dom().contains(other) ==> after.sessions[other]
                == media.sessions[other]
            &&& change.finished_client matches Some(c) ==> known && media.sessions[id] == Some(c)
                && media.clients.contains(c)
            &&& known ==> (media.sessions[id] matches Some(c) ==> media.clients.contains(c)
                ==> change.finished_client == Some(c))
            &&& known && media.sessions[id] == Some(other_client_id) && client_id != Some(
                other_client_id,
            ) ==> !after.clients.contains(other_client_id)
            &&& client_id != Some(other_client_id) && !(known && media.sessions[id] == Some(
                other_client_id,
            )) ==> (after.clients.contains(other_client_id) <==> media.clients.contains(
                other_client_id,
            ))
            &&& after.automatic_idle == media.automatic_idle
            &&& change.not_idle <==> media.idle && !after.idle
            &&& known ==> after.idle == media.idle
            &&& !known && media.automatic_idle ==> !after.idle
        }),
{
}

/// A session that is over is gone, and no other session is. Its client is told if it took part, and
/// does so no longer. The media factory is told just if the media becomes idle.
pub proof fn law_session_is_over(
    media: MediaView,
    id: Seq<char>,
    other: Seq<char>,
    other_client_id: u128,
)
    requires
        media.sessions.dom().contains(id),
    ensures
        ({
            let (after, end) = media.session_ended(id);
            &&& !after.sessions.dom().contains(id)
            &&& other != id ==> (after.sessions.dom().contains(other)
                <==> media.sessions.dom().contains(other))
            &&& other != id && media.sessions.dom().contains(other) ==> after.sessions[other]
                == media.sessions[other]
            &&& end.finished_client matches Some(c) ==> media.sessions[id] == Some(c)
                && media.clients.contains(c)
            &&& media.sessions[id] matches Some(c) ==> {
                &&& !after.clients.contains(c)
                &&& media.clients.contains(c) ==> end.finished_client == Some(c)
            }
            &&& media.sessions[id] != Some(other_client_id) ==> (after.clients.contains(
                other_client_id,
            ) <==> media.clients.contains(other_client_id))
            &&& after.automatic_idle == media.automatic_idle
            &&& end.idle <==> !media.idle && after.idle
            &&& media.automatic_idle ==> after.idle
        }),
{
}

/// A session is shut down just by its own client, which is told. Whoever else tries gets an error,
/// and nothing changes. A session that has timed out is over all the same, whoever its client is.
pub proof fn law_client_shuts_down_own_session(media: MediaView, client_id: u128, id: Seq<char>)
    ensures
        ({
            let (after, r) = media.client_ends_session(client_id, id);
            let own = media.sessions.dom().contains(id) && media.sessions[id] == Some(client_id);
            &&& r is Ok <==> own
            &&& own ==> !after.sessions.dom().contains(id)
            &&& own && media.clients.contains(client_id) ==> (r->Ok_0).finished_client == Some(
                client_id,
            )
            &&& !own ==> after == media
            &&& r matches Err(err) ==> err == if media.sessions.dom().contains(id) {
                Error::spec_internal()
            } else {
                Error::spec_status(StatusCode::SessionNotFound)
            }
        }),
        ({
            let (after, r) = media.session_timed_out(id);
            &&& r is Some <==> media.sessions.dom().contains(id)
            &&& !after.sessions.dom().contains(id)
            &&& r is None ==> after == media
            &&& r matches Some(end) ==> (after, end) == media.session_ended(id)
        }),
{
}

/// A media is as idle as it says, and the media factory is told just if that is news. Nothing else
/// changes.
pub proof fn law_media_says_idle(media: MediaView, idle: bool)
    ensures
        media.with_idle(idle).0.idle == idle,
        media.with_idle(idle).0.sessions == media.sessions,
        media.with_idle(idle).0.clients == media.clients,
        media.with_idle(idle).0.automatic_idle == media.automatic_idle,
        !media.with_idle(media.idle).1,
        media.with_idle(!media.idle).1,
{
}

/// When a media has failed, just the clients of its sessions that take part are told.
pub proof fn law_failure_is_told(media: MediaView, ids: Seq<Seq<char>>, n: int, c: u128)
    requires
        0 <= n <= ids.len(),
    ensures
        media.clients_of(ids, n).contains(c) <==> media.clients.contains(c) && exists|i: int|
            0 <= i < n && media.sessions[#[trigger] ids[i]] == Some(c),
    decreases n,
{
    if n > 0 {
        law_failure_is_told(media, ids, n - 1, c);
        let front = media.clients_of(ids, n - 1);
        let all = media.clients_of(ids, n);
        match media.present(media.sessions[ids[n - 1]]) {
            Some(last) => {
                assert(all[front.len() as int] == last);
                if front.contains(c) {
                    let k = choose|k: int| 0 <= k < front.len() && front[k] == c;
                    assert(all[k] == c);
                }
            },
            None => {},
        }
        if media.clients.contains(c) && exists|i: int|
            0 <= i < n && media.sessions[#[trigger] ids[i]] == Some(c) {
            let i = choose|i: int| 0 <= i < n && media.sessions[#[trigger] ids[i]] == Some(c);
            if i == n - 1 {
                assert(all[front.len() as int] == c);
            }
        }
    }
}

/// When a media has finished, every client that takes part is told just once: with the first of its
/// sessions, or by itself if it has none.
pub proof fn law_end_is_told_once(media: MediaView, r: MediaShutdown, c: u128, i: int, j: int)
    requires
        media.ends_with(r),
    ensures
        media.clients.contains(c) ==> r.clients@.contains(c) || exists|k: int|
            0 <= k < r.sessions@.len() && (#[trigger] r.sessions@[k]).1 == Some(c),
        0 <= i < r.sessions@.len() && r.sessions@[i].1 == Some(c) ==> {
            &&& media.clients.contains(c)
            &&& media.sessions[r.sessions@[i].0@] == Some(c)
            &&& !r.clients@.contains(c)
            &&& 0 <= j < r.sessions@.len() && r.sessions@[j].1 == Some(c) ==> j == i
        },
        r.clients@.contains(c) ==> media.clients.contains(c),
        0 <= i < r.clients@.len() && 0 <= j < r.clients@.len() && r.clients@[i] == r.clients@[j]
            ==> i == j,
{
    if 0 <= i < r.sessions@.len() && r.sessions@[i].1 == Some(c) {
        assert(media.present(media.sessions[r.sessions@[i].0@]) == Some(c));
        if 0 <= j < r.sessions@.len() && r.sessions@[j].1 == Some(c) {
            assert(media.present(media.sessions[r.sessions@[j].0@]) == Some(c));
        }
    }
}

/// Whether two dots are next to each other in a name does not depend on what follows its path.
/// Nothing with two dots in its path can name a stream, and everything else can.
pub proof fn law_stream_names(path: Seq<char>, rest: Seq<char>)
    requires
        !path.contains('?'),
        !path.contains('#'),
        rest.len() > 0 ==> rest[0] == '?' || rest[0] == '#',
    ensures
        path_part(path + rest) == path,
        is_stream_id(path + rest) <==> forall|i: int|
            0 <= i < path.len() - 1 ==> !(#[trigger] path[i] == '.' && path[i + 1] == '.'),
{
    let s = path + rest;
    let n = path.len() as int;
    assert forall|j: int| 0 <= j < n implies s[j] != '?' && s[j] != '#' by {
        assert(path.contains(path[j]));
    }
    lemma_first_index_bounds(s, '?');
    lemma_first_index_bounds(s, '#');
    if rest.len() > 0 {
        assert(s[n] == rest[0]);
        if rest[0] == '?' {
            lemma_first_index(s, '?', n);
        } else {
            lemma_first_index(s, '#', n);
        }
    }
    assert(s.take(n) =~= path);
}

/// A URI elsewhere is for no stream of a presentation, and neither is one that is not below it. Any
/// other is for the stream by whose name it is reached from the presentation.
pub proof fn law_stream_is_below_presentation(presentation_uri: UrlView, uri: UrlView)
    ensures
        !presentation_uri.same_origin(uri) || presentation_uri.cannot_be_a_base ==> stream_of_uri(
            presentation_uri,
            uri,
        ) == Err::<Option<Seq<char>>, Error>(Error::spec_status(StatusCode::NotFound)),
        stream_of_uri(presentation_uri, uri) matches Err(err) ==> err == Error::spec_status(
            StatusCode::NotFound,
        ),
        stream_of_uri(presentation_uri, uri) matches Ok(Some(id)) ==> presentation_uri.relative(uri)
            == Some(id) && is_stream_id(id) && presentation_uri.same_origin(uri),
        stream_of_uri(presentation_uri, uri) matches Ok(None) ==> presentation_uri.same_origin(uri)
            && uri.query is None && uri.fragment is None && (uri.path == presentation_uri.path
            || uri.path.push('/') == presentation_uri.path),
{
}

/// Transports are told apart by their session, their media and their stream, and by nothing else.
pub proof fn law_transports_are_told_apart(a: ConfiguredTransport, b: ConfiguredTransport)
    ensures
        a.session_id@ != b.session_id@ ==> !a.spec_same(b),
        a.media_id != b.media_id ==> !a.spec_same(b),
        a.stream_id@ != b.stream_id@ ==> !a.spec_same(b),
        a.spec_same(b) <==> (ConfiguredTransport { transport: b.transport, ..a }).spec_same(b),
        a.session_id@ == b.session_id@ && a.media_id == b.media_id && a.stream_id@ == b.stream_id@
            ==> a.spec_same(b),
{
}

/// Nothing before a `control` attribute is one, and those without a value don't count.
proof fn lemma_no_control(attributes: Seq<SdpAttribute>, n: int)
    requires
        0 <= n <= attributes.len(),
        forall|i: int|
            0 <= i < n ==> (#[trigger] attributes[i]).attribute@ == "control"@
                ==> attributes[i].value is None,
    ensures
        control_among(attributes, n) == Ok::<Option<Seq<char>>, Error>(None),
    decreases n,
{
    if n > 0 {
        lemma_no_control(attributes, n - 1);
        assert(attributes[n - 1].attribute@ == "control"@ ==> attributes[n - 1].value is None);
    }
}

/// What follows the last `control` attribute does not change its value.
proof fn lemma_last_control(attributes: Seq<SdpAttribute>, k: int, n: int)
    requires
        0 <= k < n <= attributes.len(),
        control_among(attributes, k + 1) is Ok,
        forall|i: int| k < i < n ==> (#[trigger] attributes[i]).attribute@ != "control"@,
    ensures
        control_among(attributes, n) == control_among(attributes, k + 1),
    decreases n,
{
    if n > k + 1 {
        lemma_last_control(attributes, k, n - 1);
        assert(attributes[n - 1].attribute@ != "control"@);
    }
}

/// An error stays one.
proof fn lemma_control_error(attributes: Seq<SdpAttribute>, m: int, n: int)
    requires
        0 <= m <= n,
        control_among(attributes, m) is Err,
    ensures
        control_among(attributes, n) is Err,
    decreases n,
{
    if n > m {
        lemma_control_error(attributes, m, n - 1);
    }
}

/// A media is named by its one `control` attribute, wherever that stands. Without one that has a
/// value there is no name.
pub proof fn law_control_names_media(media: SdpMedia, k: int)
    ensures
        0 <= k < media.attributes@.len() && media.attributes@[k].attribute@ == "control"@
            && media.attributes@[k].value is Some && (forall|i: int|
            0 <= i < media.attributes@.len() && i != k ==> (
            #[trigger] media.attributes@[i]).attribute@ != "control"@) ==> control_of(media) == Ok::<
            Seq<char>,
            Error,
        >((media.attributes@[k].value->0)@),
        (forall|i: int|
            0 <= i < media.attributes@.len() ==> (#[trigger] media.attributes@[i]).attribute@
                == "control"@ ==> media.attributes@[i].value is None) ==> control_of(media) is Err,
{
    let attributes = media.attributes@;
    let n = attributes.len() as int;
    if 0 <= k < n && attributes[k].attribute@ == "control"@ && attributes[k].value is Some && (
    forall|i: int| 0 <= i < n && i != k ==> (#[trigger] attributes[i]).attribute@ != "control"@) {
        lemma_no_control(attributes, k);
        lemma_last_control(attributes, k, n);
    }
    if forall|i: int|
        0 <= i < n ==> (#[trigger] attributes[i]).attribute@ == "control"@
            ==> attributes[i].value is None {
        lemma_no_control(attributes, n);
    }
}

/// A media with another `control` attribute after one that has a value has no name.
pub proof fn law_second_control_is_error(media: SdpMedia, i: int, j: int)
    requires
        0 <= i < j < media.attributes@.len(),
        media.attributes@[i].attribute@ == "control"@,
        media.attributes@[i].value is Some,
        media.attributes@[j].attribute@ == "control"@,
    ensures
        control_of(media) is Err,
{
    lemma_control_found(media.attributes@, i, j);
    assert(control_among(media.attributes@, j + 1) is Err);
    lemma_control_error(media.attributes@, j + 1, media.attributes@.len() as int);
}

/// Once there is a `control` attribute with a value, there is one until there is an error.
proof fn lemma_control_found(attributes: Seq<SdpAttribute>, i: int, n: int)
    requires
        0 <= i < n <= attributes.len(),
        attributes[i].attribute@ == "control"@,
        attributes[i].value is Some,
    ensures
        control_among(attributes, n) is Err || control_among(attributes, n)->Ok_0 is Some,
    decreases n,
{
    if n > i + 1 {
        lemma_control_found(attributes, i, n - 1);
    }
}

/// The medias of a description can be streams if all of them have names without `..` in their paths,
/// and can't if one has `..` there and all before it have names.
pub proof fn law_medias_that_are_streams(session: SdpSession, i: int)
    ensures
        (forall|j: int|
            0 <= j < session.medias@.len() ==> control_of(#[trigger] session.medias@[j]) is Ok
                && is_stream_id(control_of(session.medias@[j])->Ok_0)) ==> are_streams(session),
        0 <= i < session.medias@.len() && (forall|j: int|
            0 <= j <= i ==> control_of(#[trigger] session.medias@[j]) is Ok) && !is_stream_id(
            control_of(session.medias@[i])->Ok_0,
        ) ==> !are_streams(session),
{
}

} // verus!
