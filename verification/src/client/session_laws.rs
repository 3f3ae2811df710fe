//! What each event does to the sessions, channels and requests of a client, and what it leaves
//! alone.

use vstd::prelude::*;

use super::context::{
    channels_free, waiting_error, ClientView, PipelinedRequestView, PipelinedSession,
};
use super::laws::{
    law_channels_were_free, law_registered_channels_are_closed, lemma_first_free, lemma_without_id,
};
use crate::error::{Error, StatusCode};
use crate::url::UrlView;

verus! {

/// Whether nothing but what belongs to sessions differs between two states of a client.
pub open spec fn keeps_requests<W>(before: ClientView<W>, after: ClientView<W>) -> bool {
    &&& after.cseq_counter == before.cseq_counter
    &&& after.pending_responses == before.pending_responses
    &&& after.pending_requests == before.pending_requests
}

/// Whether a session is there after something just as it was before, if it was.
pub open spec fn keeps_session<W>(
    before: ClientView<W>,
    after: ClientView<W>,
    session_id: Seq<char>,
) -> bool {
    &&& after.sessions.dom().contains(session_id) <==> before.sessions.dom().contains(session_id)
    &&& before.sessions.dom().contains(session_id) ==> after.sessions[session_id]
        == before.sessions[session_id]
}

/// Whether a pipelined request is there after something just as it was before, if it was.
pub open spec fn keeps_pipelined<W>(before: ClientView<W>, after: ClientView<W>, p: u32) -> bool {
    &&& after.pipelined_requests.dom().contains(p) <==> before.pipelined_requests.dom().contains(p)
    &&& before.pipelined_requests.dom().contains(p) ==> after.pipelined_requests[p]
        == before.pipelined_requests[p]
}

/// Whether a media is used after something just as it was before, if it was.
pub open spec fn keeps_media<W>(before: ClientView<W>, after: ClientView<W>, media_id: u128) -> bool {
    &&& after.session_medias.dom().contains(media_id) <==> before.session_medias.dom().contains(
        media_id,
    )
    &&& before.session_medias.dom().contains(media_id) ==> after.session_medias[media_id]
        == before.session_medias[media_id]
}

/// The channels that a session gets are those that it asks for if they are free. Otherwise they are
/// the first that are: those from any lower one on are not all free.
pub proof fn law_channels_are_the_first<W>(
    client: ClientView<W>,
    session_id: Seq<char>,
    channel_id: Option<u8>,
    n: int,
    lower: int,
)
    requires
        n >= 0,
        client.choose_channels(session_id, channel_id, n) is Ok,
    ensures
        ({
            let first = client.choose_channels(session_id, channel_id, n)->Ok_0;
            &&& client.sessions.dom().contains(session_id)
            &&& match channel_id {
                Some(c) => channels_free(client.interleaved_channels, c as int, n) ==> first == c,
                None => true,
            }
            &&& channel_id != Some(first) && 0 <= lower < first ==> !channels_free(
                client.interleaved_channels,
                lower,
                n,
            )
        }),
{
    lemma_first_free(client.interleaved_channels, 0, n);
}

/// A session that is not there gets no channels. More than there are, or such as would go past the
/// last one, can't be asked for. Channels that are not given change nothing.
pub proof fn law_channels_are_not_given<W>(
    client: ClientView<W>,
    session_id: Seq<char>,
    channel_id: Option<u8>,
    n: int,
)
    ensures
        !client.sessions.dom().contains(session_id) ==> client.choose_channels(
            session_id,
            channel_id,
            n,
        ) == Err::<u8, Error>(Error::spec_status(StatusCode::SessionNotFound)),
        client.sessions.dom().contains(session_id) && (n > u8::MAX || (channel_id matches Some(c)
            && c + n > u8::MAX)) ==> client.choose_channels(session_id, channel_id, n) == Err::<
            u8,
            Error,
        >(Error::spec_status(StatusCode::BadRequest)),
        client.choose_channels(session_id, channel_id, n) is Err
            ==> client.register_interleaved_channel(session_id, channel_id, n) == client,
{
}

/// New channels change nothing but the channels, and the channels of the one session, which keeps
/// those that it had.
pub proof fn law_new_channels_change_nothing_else<W>(
    client: ClientView<W>,
    session_id: Seq<char>,
    channel_id: Option<u8>,
    n: int,
    other: Seq<char>,
    c: u8,
)
    requires
        n >= 0,
        client.choose_channels(session_id, channel_id, n) is Ok,
    ensures
        ({
            let after = client.register_interleaved_channel(session_id, channel_id, n);
            &&& keeps_requests(client, after)
            &&& after.pipelined_requests == client.pipelined_requests
            &&& after.session_medias == client.session_medias
            &&& other != session_id ==> keeps_session(client, after, other)
            &&& after.sessions.dom().contains(session_id)
            &&& after.sessions[session_id].media_id == client.sessions[session_id].media_id
            &&& after.sessions[session_id].presentation_uri
                == client.sessions[session_id].presentation_uri
            &&& after.sessions[session_id].pipelined_request
                == client.sessions[session_id].pipelined_request
            &&& client.sessions[session_id].channel_ids.contains(c)
                ==> after.sessions[session_id].channel_ids.contains(c)
        }),
{
    let ids = client.sessions[session_id].channel_ids;
    let after = client.register_interleaved_channel(session_id, channel_id, n);
    if ids.contains(c) {
        let i = choose|i: int| 0 <= i < ids.len() && ids[i] == c;
        assert(after.sessions[session_id].channel_ids[i] == c);
    }
}

/// A media gets the channels that its session would get, and those of no other session.
pub proof fn law_media_gets_channels_of_own_session<W>(
    client: ClientView<W>,
    media_id: u128,
    session_id: Seq<char>,
    channel_id: Option<u8>,
    n: int,
)
    ensures
        ({
            let (after, r) = client.media_registers_channels(media_id, session_id, channel_id, n);
            let own = client.sessions.dom().contains(session_id)
                && client.sessions[session_id].media_id == media_id;
            &&& own ==> after == client.register_interleaved_channel(session_id, channel_id, n) && r
                == client.choose_channels(session_id, channel_id, n)
            &&& !own ==> after == client && r is Err
            &&& !client.sessions.dom().contains(session_id) ==> r == Err::<u8, Error>(
                Error::spec_status(StatusCode::SessionNotFound),
            )
        }),
{
}

/// A channel that was closed is free, and its session knows all its other channels still. Nothing
/// else changes.
pub proof fn law_closed_channel_is_free<W>(
    client: ClientView<W>,
    c: u8,
    other_channel: u8,
    other: Seq<char>,
)
    ensures
        ({
            let after = client.interleaved_channel_closed(c);
            let used = client.interleaved_channels.dom().contains(c);
            let session_id = client.interleaved_channels[c];
            &&& !after.interleaved_channels.dom().contains(c)
            &&& other_channel != c ==> (after.interleaved_channels.dom().contains(other_channel)
                <==> client.interleaved_channels.dom().contains(other_channel))
            &&& other_channel != c && client.interleaved_channels.dom().contains(other_channel)
                ==> after.interleaved_channels[other_channel]
                == client.interleaved_channels[other_channel]
            &&& keeps_requests(client, after)
            &&& after.pipelined_requests == client.pipelined_requests
            &&& after.session_medias == client.session_medias
            &&& !used || other != session_id ==> keeps_session(client, after, other)
            &&& after.sessions.dom() =~= client.sessions.dom()
            &&& used && client.sessions.dom().contains(session_id) ==> {
                &&& after.sessions[session_id].media_id == client.sessions[session_id].media_id
                &&& after.sessions[session_id].presentation_uri
                    == client.sessions[session_id].presentation_uri
                &&& after.sessions[session_id].pipelined_request
                    == client.sessions[session_id].pipelined_request
                &&& !after.sessions[session_id].channel_ids.contains(c)
                &&& other_channel != c ==> (after.sessions[session_id].channel_ids.contains(
                    other_channel,
                ) <==> client.sessions[session_id].channel_ids.contains(other_channel))
            }
        }),
{
    if client.interleaved_channels.dom().contains(c) {
        let session_id = client.interleaved_channels[c];
        lemma_without_id(client.sessions[session_id].channel_ids, c);
    }
}

/// A new session is there with what it was created with, and its media is used for it. It has no
/// channels yet. Nothing else changes.
pub proof fn law_new_session_is_there<W>(
    client: ClientView<W>,
    session_id: Seq<char>,
    media_id: u128,
    presentation_uri: UrlView,
    pipelined_request: Option<u32>,
    other: Seq<char>,
    other_media: u128,
)
    ensures
        ({
            let after = client.with_session(
                session_id,
                media_id,
                presentation_uri,
                pipelined_request,
            );
            &&& after.sessions.dom().contains(session_id)
            &&& after.sessions[session_id].media_id == media_id
            &&& after.sessions[session_id].presentation_uri == presentation_uri
            &&& after.sessions[session_id].pipelined_request == pipelined_request
            &&& after.sessions[session_id].channel_ids.len() == 0
            &&& after.session_medias.dom().contains(media_id)
            &&& after.session_medias[media_id] == session_id
            &&& after.check_media(session_id, media_id) is Ok
            &&& other_media != media_id ==> after.check_media(session_id, other_media) is Err
            &&& other != session_id ==> keeps_session(client, after, other)
            &&& other_media != media_id ==> keeps_media(client, after, other_media)
            &&& keeps_requests(client, after)
            &&& after.pipelined_requests == client.pipelined_requests
            &&& after.interleaved_channels == client.interleaved_channels
        }),
{
}

/// A session that the server has found is there. One that was there already stays as it is.
pub proof fn law_found_session_is_there<W>(
    client: ClientView<W>,
    session_id: Seq<char>,
    media_id: u128,
    presentation_uri: UrlView,
    other: Seq<char>,
)
    ensures
        ({
            let after = client.session_found(session_id, media_id, presentation_uri);
            &&& after.sessions.dom().contains(session_id)
            &&& client.sessions.dom().contains(session_id) ==> after == client
            &&& !client.sessions.dom().contains(session_id) ==> {
                &&& after.sessions[session_id].media_id == media_id
                &&& after.sessions[session_id].presentation_uri == presentation_uri
                &&& after.sessions[session_id].pipelined_request is None
                &&& after.session_medias[media_id] == session_id
            }
            &&& other != session_id ==> keeps_session(client, after, other)
            &&& keeps_requests(client, after)
            &&& after.pipelined_requests == client.pipelined_requests
            &&& after.interleaved_channels == client.interleaved_channels
        }),
{
}

/// A session that was created is found with its media and its presentation URI until it has ended,
/// whatever happens to other sessions.
pub proof fn law_session_is_found_until_it_ends<W>(
    client: ClientView<W>,
    session_id: Seq<char>,
    media_id: u128,
    presentation_uri: UrlView,
    pipelined_request: Option<u32>,
    other: Seq<char>,
    other_media: u128,
    other_uri: UrlView,
)
    requires
        other != session_id,
    ensures
        ({
            let created = client.with_session(
                session_id,
                media_id,
                presentation_uri,
                pipelined_request,
            );
            &&& created.known_session(session_id) == Some((media_id, presentation_uri))
            &&& created.session_ended(other).known_session(session_id) == Some(
                (media_id, presentation_uri),
            )
            &&& created.with_session(other, other_media, other_uri, None).known_session(session_id)
                == Some((media_id, presentation_uri))
            &&& created.session_ended(session_id).known_session(session_id) is None
        }),
{
}

/// What comes in on a channel that was registered for a session is for that session, until the
/// channel is closed or the session has ended. Channels that are not in use are for none.
pub proof fn law_channel_is_for_session<W>(
    client: ClientView<W>,
    session_id: Seq<char>,
    channel_id: Option<u8>,
    n: int,
    c: u8,
)
    requires
        n >= 0,
        client.choose_channels(session_id, channel_id, n) is Ok,
        client.choose_channels(session_id, channel_id, n)->Ok_0 <= c,
        c < client.choose_channels(session_id, channel_id, n)->Ok_0 + n,
    ensures
        ({
            let registered = client.register_interleaved_channel(session_id, channel_id, n);
            &&& client.session_of_channel(c) is None
            &&& registered.session_of_channel(c) == Some(session_id)
            &&& registered.interleaved_channel_closed(c).session_of_channel(c) is None
            &&& registered.session_ended(session_id).session_of_channel(c) is None
        }),
{
    law_channels_were_free(client, session_id, channel_id, n, c);
    law_registered_channels_are_closed(client, session_id, channel_id, n, c);
}

/// Just the media of a session passes for it.
pub proof fn law_media_of_session<W>(client: ClientView<W>, session_id: Seq<char>, media_id: u128)
    ensures
        client.check_media(session_id, media_id) is Ok <==> client.sessions.dom().contains(
            session_id,
        ) && client.sessions[session_id].media_id == media_id,
        client.check_media(session_id, media_id) matches Err(err) ==> err
            == if client.sessions.dom().contains(session_id) {
            Error::spec_internal()
        } else {
            Error::spec_status(StatusCode::SessionNotFound)
        },
        client.media_to_tell(session_id) is Ok <==> client.sessions.dom().contains(session_id),
        client.media_to_tell(session_id) matches Ok(Some(m)) ==> client.check_media(
            session_id,
            m,
        ) is Ok && client.session_medias.dom().contains(m),
        client.media_to_tell(session_id) matches Ok(None) ==> !client.session_medias.dom().contains(
            client.sessions[session_id].media_id,
        ),
        client.media_to_tell(session_id) matches Err(err) ==> err == Error::spec_status(
            StatusCode::SessionNotFound,
        ),
{
}

/// A session that has ended leaves everything that does not belong to it: other sessions, medias
/// and pipelined requests, and requests on their way. One that was not there changes nothing.
pub proof fn law_ended_session_leaves_others<W>(
    client: ClientView<W>,
    session_id: Seq<char>,
    other: Seq<char>,
    other_media: u128,
    p: u32,
)
    ensures
        ({
            let after = client.session_ended(session_id);
            let session = client.sessions[session_id];
            &&& keeps_requests(client, after)
            &&& !client.sessions.dom().contains(session_id) ==> after == client
            &&& other != session_id ==> keeps_session(client, after, other)
            &&& other_media != session.media_id ==> keeps_media(client, after, other_media)
            &&& session.pipelined_request != Some(p) ==> keeps_pipelined(client, after, p)
        }),
{
}

/// When a media has ended, the session that it is used for ends as it does otherwise. Nothing
/// changes if it is used for none.
pub proof fn law_media_takes_session_with_it<W>(client: ClientView<W>, media_id: u128)
    requires
        client.medias_agree(),
    ensures
        ({
            let after = client.media_ended(media_id);
            let session_id = client.session_medias[media_id];
            &&& !after.session_medias.dom().contains(media_id)
            &&& !client.session_medias.dom().contains(media_id) ==> after == client
            &&& client.session_medias.dom().contains(media_id) ==> {
                &&& !after.sessions.dom().contains(session_id)
                &&& client.sessions.dom().contains(session_id)
                    && client.sessions[session_id].media_id == media_id ==> after
                    == client.session_ended(session_id)
            }
        }),
{
}

/// When the server refuses a session that was just created, nothing of it is left.
pub proof fn law_refused_session_is_undone<W>(
    client: ClientView<W>,
    session_id: Seq<char>,
    media_id: u128,
    presentation_uri: UrlView,
    pipelined_request: Option<u32>,
    p: u32,
)
    requires
        !client.sessions.dom().contains(session_id),
        !client.session_medias.dom().contains(media_id),
    ensures
        ({
            let after = client.with_session(
                session_id,
                media_id,
                presentation_uri,
                pipelined_request,
            ).create_session_failed(session_id, media_id, pipelined_request);
            &&& after.sessions =~= client.sessions
            &&& after.session_medias =~= client.session_medias
            &&& after.interleaved_channels =~= client.interleaved_channels
            &&& keeps_requests(client, after)
            &&& pipelined_request == Some(p) ==> !after.pipelined_requests.dom().contains(p)
            &&& pipelined_request != Some(p) ==> keeps_pipelined(client, after, p)
        }),
{
}

/// A session that the server refuses is gone with its media, its pipelined request and all its
/// channels. Other sessions and channels stay.
pub proof fn law_refused_session_is_gone<W>(
    client: ClientView<W>,
    session_id: Seq<char>,
    media_id: u128,
    pipelined_request: Option<u32>,
    other: Seq<char>,
    c: u8,
)
    requires
        client.channels_agree(),
    ensures
        ({
            let after = client.create_session_failed(session_id, media_id, pipelined_request);
            &&& !after.sessions.dom().contains(session_id)
            &&& !after.session_medias.dom().contains(media_id)
            &&& pipelined_request matches Some(p) ==> !after.pipelined_requests.dom().contains(p)
            &&& other != session_id ==> keeps_session(client, after, other)
            &&& client.interleaved_channels.dom().contains(c) ==> (
            after.interleaved_channels.dom().contains(c) <==> client.interleaved_channels[c]
                != session_id)
            &&& after.interleaved_channels.dom().contains(c)
                ==> client.interleaved_channels.dom().contains(c) && after.interleaved_channels[c]
                == client.interleaved_channels[c]
        }),
{
    assert(client.session_knows_channel(session_id, c)
        <==> client.interleaved_channels.dom().contains(c) && client.interleaved_channels[c]
        == session_id);
}

/// Whoever asks for the session of a pipelined request is the first, or is put behind those that
/// wait, or finds the session. All who wait stop waiting when the session is registered, and when
/// the first has ended without one. Other pipelined requests don't change, and nothing else does.
pub proof fn law_pipelined_requests_wait_in_order<W>(
    client: ClientView<W>,
    request: u32,
    waiter: W,
    session_id: Seq<char>,
    other: u32,
)
    ensures
        ({
            let asked = client.pipelined_looked_for(request, waiter);
            let known = client.pipelined_requests.dom().contains(request);
            &&& asked.pipelined_requests.dom().contains(request)
            &&& !known ==> asked.waiters(request).len() == 0
            &&& known && client.pipelined_requests[request] is Waiting ==> asked.waiters(request)
                == client.waiters(request).push(waiter)
            &&& known && client.pipelined_requests[request] is Registered ==> asked == client
        }),
        ({
            let registered = client.pipelined_registered(request, session_id);
            &&& registered.pipelined_requests.dom().contains(request)
                <==> client.pipelined_requests.dom().contains(request)
            &&& client.pipelined_requests.dom().contains(request)
                ==> registered.pipelined_requests[request] == PipelinedRequestView::<
                W,
            >::Registered(session_id)
            &&& registered.waiters(request).len() == 0
        }),
        ({
            let resolved = client.pipelined_resolved(request);
            &&& resolved.waiters(request).len() == 0
            &&& client.pipelined_requests.dom().contains(request)
                && client.pipelined_requests[request] is Registered ==> resolved == client
            &&& client.pipelined_requests.dom().contains(request)
                && client.pipelined_requests[request] is Waiting
                ==> !resolved.pipelined_requests.dom().contains(request)
        }),
        only_pipelined_differs(client, client.pipelined_looked_for(request, waiter)),
        only_pipelined_differs(client, client.pipelined_registered(request, session_id)),
        only_pipelined_differs(client, client.pipelined_resolved(request)),
        other != request ==> {
            &&& keeps_pipelined(client, client.pipelined_looked_for(request, waiter), other)
            &&& keeps_pipelined(client, client.pipelined_registered(request, session_id), other)
            &&& keeps_pipelined(client, client.pipelined_resolved(request), other)
        },
{
}

/// Whoever asks for the session of a pipelined request that has been created finds just that
/// session, with its media and its presentation URI. Before that, the first who asks has to create
/// it, and everybody else waits.
pub proof fn law_pipelined_session_is_found<W>(
    client: ClientView<W>,
    request: u32,
    first: W,
    r: PipelinedSession<W>,
    other: W,
    next: PipelinedSession<W>,
    session_id: Seq<char>,
    media_id: u128,
    presentation_uri: UrlView,
    found: PipelinedSession<W>,
)
    requires
        !client.pipelined_requests.dom().contains(request),
        client.pipelined_found(request, first, r),
        client.pipelined_looked_for(request, first).pipelined_found(request, other, next),
        client.pipelined_looked_for(request, first).with_session(
            session_id,
            media_id,
            presentation_uri,
            Some(request),
        ).pipelined_registered(request, session_id).pipelined_found(request, other, found),
    ensures
        r == PipelinedSession::First(first),
        next is Waits,
        found matches PipelinedSession::Found { session_id: id, media_id: m, presentation_uri: uri }
            && id@ == session_id && m == media_id && uri@ == presentation_uri,
{
}

/// Everybody who waits for a pipelined request is told of its end just once: of the session when it
/// is created, else of the error when the first request has ended. Nobody is told if a session is
/// created for no pipelined request.
pub proof fn law_waiting_ends_once<W>(
    client: ClientView<W>,
    request: u32,
    waiters: Seq<W>,
    session_id: Seq<char>,
    result: Result<(), Error>,
)
    requires
        client.pipelined_requests.dom().contains(request),
        client.pipelined_requests[request] == PipelinedRequestView::Waiting(waiters),
    ensures
        client.session_created(session_id, Some(request)).1 == waiters,
        client.session_created(session_id, Some(request)).0.pipelined_ended(request, result).1.len()
            == 0,
        client.pipelined_ended(request, result).1 == waiters,
        client.pipelined_ended(request, result).2 == waiting_error(result),
        !client.pipelined_ended(request, result).0.pipelined_requests.dom().contains(request),
        client.session_created(session_id, None).0 == client,
        client.session_created(session_id, None).1.len() == 0,
{
}

/// Those who wait for a session that was not created always get an error: the one that is reported,
/// or that of the server if none is.
pub proof fn law_waiting_ends_with_error(result: Result<(), Error>)
    ensures
        result matches Err(err) ==> waiting_error(result) == err,
        result is Ok ==> waiting_error(result).spec_status_code()
            == StatusCode::InternalServerError,
{
}

/// Whether nothing but the pipelined requests differs between two states of a client.
pub open spec fn only_pipelined_differs<W>(before: ClientView<W>, after: ClientView<W>) -> bool {
    &&& keeps_requests(before, after)
    &&& after.sessions == before.sessions
    &&& after.session_medias == before.session_medias
    &&& after.interleaved_channels == before.interleaved_channels
}

/// Whether nothing but the requests on their way and the sequence number differs between two states
/// of a client.
pub open spec fn only_requests_differ<W>(before: ClientView<W>, after: ClientView<W>) -> bool {
    &&& after.sessions == before.sessions
    &&& after.session_medias == before.session_medias
    &&& after.interleaved_channels == before.interleaved_channels
    &&& after.pipelined_requests == before.pipelined_requests
}

/// A request waits for its response from when it is sent or has come in until it is done with,
/// whatever the other direction does with the same number. Nothing else changes.
pub proof fn law_requests_wait_for_responses<W>(client: ClientView<W>, cseq: u32, other: u32)
    ensures
        client.request_sent().pending_responses.contains(client.cseq_counter),
        client.cseq_counter < u32::MAX ==> client.request_sent().cseq_counter
            == client.cseq_counter + 1,
        other != client.cseq_counter ==> (client.request_sent().pending_responses.contains(other)
            <==> client.pending_responses.contains(other)),
        client.request_sent().pending_requests == client.pending_requests,
        client.request_started(cseq).pending_requests.contains(cseq),
        !client.request_finished(cseq).pending_responses.contains(cseq),
        !client.response_finished(cseq).pending_requests.contains(cseq),
        other != cseq ==> {
            &&& client.request_started(cseq).pending_requests.contains(other)
                <==> client.pending_requests.contains(other)
            &&& client.request_finished(cseq).pending_responses.contains(other)
                <==> client.pending_responses.contains(other)
            &&& client.response_finished(cseq).pending_requests.contains(other)
                <==> client.pending_requests.contains(other)
        },
        client.request_started(cseq).pending_responses == client.pending_responses,
        client.response_finished(cseq).pending_responses == client.pending_responses,
        client.request_finished(cseq).pending_requests == client.pending_requests,
        client.request_started(cseq).cseq_counter == client.cseq_counter,
        client.response_finished(cseq).cseq_counter == client.cseq_counter,
        client.request_finished(cseq).cseq_counter == client.cseq_counter,
        only_requests_differ(client, client.request_sent()),
        only_requests_differ(client, client.request_started(cseq)),
        only_requests_differ(client, client.request_finished(cseq)),
        only_requests_differ(client, client.response_finished(cseq)),
{
}

/// A new client knows of nothing, and its first request has the number 1.
pub proof fn law_new_client_knows_nothing<W>(id: Seq<char>, media_id: u128, c: u8, p: u32)
    ensures
        ({
            let client = ClientView::<W>::initial();
            &&& client.cseq_counter == 1
            &&& !client.sessions.dom().contains(id)
            &&& !client.session_medias.dom().contains(media_id)
            &&& !client.interleaved_channels.dom().contains(c)
            &&& !client.pipelined_requests.dom().contains(p)
            &&& !client.pending_requests.contains(p)
            &&& !client.pending_responses.contains(p)
        }),
{
}

} // verus!
