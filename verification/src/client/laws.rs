//! What holds of a client across messages.

use vstd::prelude::*;

use super::context::{
    channels_free, first_free, ids_from, without_channels, without_id, ClientView,
    PipelinedRequestView,
};
use super::task::{outgoing, server_name, stamped, RequestTask};
use crate::error::{Error, StatusCode};
use crate::headers::{
    ascii, decimal_digits, header_value, law_number_read_back, lower, lower_char, typed_number,
    with_header,
};
use crate::message::{Method, RequestView, ResponseView};
use crate::url::UrlView;

verus! {

/// The first free channels are free, and none before them are.
pub proof fn lemma_first_free(channels: Map<u8, Seq<char>>, from: int, n: int)
    requires
        from >= 0,
        n >= 0,
    ensures
        match first_free(channels, from, n) {
            Some(c) => {
                &&& from <= c
                &&& c + n <= u8::MAX
                &&& channels_free(channels, c as int, n)
                &&& forall|d: int|
                    from <= d < c ==> !#[trigger] channels_free(channels, d, n)
            },
            None => forall|d: int|
                from <= d && d + n <= u8::MAX ==> !#[trigger] channels_free(channels, d, n),
        },
    decreases 256 - from,
{
    if from + n <= u8::MAX {
        if !channels_free(channels, from, n) {
            lemma_first_free(channels, from + 1, n);
        }
    }
}

/// New interleaved channels are never ones that are in use, and those in use stay as they are. All
/// new ones belong to the session.
pub proof fn law_channels_were_free<W>(
    client: ClientView<W>,
    session_id: Seq<char>,
    channel_id: Option<u8>,
    n: int,
    c: u8,
)
    requires
        n >= 0,
        client.choose_channels(session_id, channel_id, n) is Ok,
    ensures
        ({
            let first = client.choose_channels(session_id, channel_id, n)->Ok_0;
            let after = client.register_interleaved_channel(session_id, channel_id, n);
            &&& first + n <= u8::MAX
            &&& first <= c < first + n ==> !client.interleaved_channels.dom().contains(c)
                && after.interleaved_channels.dom().contains(c) && after.interleaved_channels[c]
                == session_id
            &&& !(first <= c < first + n) ==> (after.interleaved_channels.dom().contains(c)
                <==> client.interleaved_channels.dom().contains(c)) && (
            client.interleaved_channels.dom().contains(c) ==> after.interleaved_channels[c]
                == client.interleaved_channels[c])
        }),
{
    lemma_first_free(client.interleaved_channels, 0, n);
    let first = client.choose_channels(session_id, channel_id, n)->Ok_0;
    assert(channels_free(client.interleaved_channels, first as int, n));
}

/// Interleaved channels are refused to a session that is there only if they were asked for out of
/// range, or if there is no free block of that many.
pub proof fn law_channels_refused<W>(
    client: ClientView<W>,
    session_id: Seq<char>,
    channel_id: Option<u8>,
    n: int,
    first: int,
)
    requires
        0 <= n <= u8::MAX,
        client.sessions.dom().contains(session_id),
        channel_id matches Some(c) ==> c + n <= u8::MAX,
        client.choose_channels(session_id, channel_id, n) is Err,
        0 <= first,
        first + n <= u8::MAX,
    ensures
        !channels_free(client.interleaved_channels, first, n),
        client.choose_channels(session_id, channel_id, n) == Err::<u8, Error>(
            Error::spec_status(StatusCode::UnsupportedTransport),
        ),
{
    lemma_first_free(client.interleaved_channels, 0, n);
}

/// Sessions that are kept with their medias still agree with them.
proof fn lemma_medias_kept<W>(before: ClientView<W>, after: ClientView<W>)
    requires
        before.medias_agree(),
        forall|s: Seq<char>|
            #![trigger after.sessions[s]]
            after.sessions.dom().contains(s) ==> {
                let media_id = after.sessions[s].media_id;
                &&& after.session_medias.dom().contains(media_id)
                &&& after.session_medias[media_id] == s || before.sessions.dom().contains(s)
                    && before.sessions[s].media_id == media_id && before.session_medias[media_id]
                    == after.session_medias[media_id]
            },
    ensures
        after.medias_agree(),
{
}

/// Every session is the one that its media is used for. All that a client does keeps it so, as long
/// as new sessions have new names and medias that are not in use.
pub proof fn law_medias_agree<W>(
    client: ClientView<W>,
    session_id: Seq<char>,
    media_id: u128,
    presentation_uri: UrlView,
    pipelined_request: Option<u32>,
    channel_id: Option<u8>,
    n: int,
    c: u8,
)
    requires
        client.medias_agree(),
    ensures
        !client.sessions.dom().contains(session_id) && !client.session_medias.dom().contains(
            media_id,
        ) ==> client.with_session(
            session_id,
            media_id,
            presentation_uri,
            pipelined_request,
        ).medias_agree(),
        client.session_ended(session_id).medias_agree(),
        client.media_ended(media_id).medias_agree(),
        client.register_interleaved_channel(session_id, channel_id, n).medias_agree(),
        client.interleaved_channel_closed(c).medias_agree(),
{
    if client.sessions.dom().contains(session_id) {
        assert(client.session_medias[client.sessions[session_id].media_id] == session_id);
    }
    assert forall|s: Seq<char>| #[trigger] client.sessions.dom().contains(s) implies {
        let m = client.sessions[s].media_id;
        client.session_medias.dom().contains(m) && client.session_medias[m] == s
    } by {
        assert(client.sessions[s] == client.sessions[s]);
    }
    lemma_medias_kept(client, client.session_ended(session_id));
    lemma_medias_kept(client, client.media_ended(media_id));
    if !client.sessions.dom().contains(session_id) && !client.session_medias.dom().contains(
        media_id,
    ) {
        lemma_medias_kept(
            client,
            client.with_session(session_id, media_id, presentation_uri, pipelined_request),
        );
    }
    lemma_medias_kept(client, client.register_interleaved_channel(session_id, channel_id, n));
    lemma_medias_kept(client, client.interleaved_channel_closed(c));
}

/// Pipelined requests agree with sessions if each of them does, or is one from before whose session
/// still knows of it.
proof fn lemma_pipelined_kept<W>(before: ClientView<W>, after: ClientView<W>)
    requires
        before.pipelined_agree(),
        forall|p: u32|
            #![trigger after.pipelined_requests[p]]
            after.pipelined_requests.dom().contains(p) ==> after.pipelined_entry_agrees(p) || {
                &&& before.pipelined_requests.dom().contains(p)
                &&& before.pipelined_requests[p] == after.pipelined_requests[p]
                &&& before.pipelined_entry_agrees(p) ==> after.pipelined_entry_agrees(p)
            },
    ensures
        after.pipelined_agree(),
{
    assert forall|p: u32|
        #![trigger after.pipelined_requests[p]]
        after.pipelined_requests.dom().contains(p) implies after.pipelined_entry_agrees(p) by {
        assert(before.pipelined_requests.dom().contains(p) ==> before.pipelined_requests[p]
            == before.pipelined_requests[p]);
    }
}

/// Every pipelined request that has a session has one that is there. All that a client does keeps
/// it so, as long as new sessions have new names, and a session is registered for the pipelined
/// request that it was created for while it is there.
pub proof fn law_pipelined_agree<W>(
    client: ClientView<W>,
    session_id: Seq<char>,
    media_id: u128,
    presentation_uri: UrlView,
    pipelined_request: Option<u32>,
    request: u32,
    waiter: W,
    channel_id: Option<u8>,
    n: int,
    c: u8,
)
    requires
        client.pipelined_agree(),
    ensures
        !client.sessions.dom().contains(session_id) ==> client.with_session(
            session_id,
            media_id,
            presentation_uri,
            pipelined_request,
        ).pipelined_agree(),
        client.session_ended(session_id).pipelined_agree(),
        client.media_ended(media_id).pipelined_agree(),
        client.pipelined_looked_for(request, waiter).pipelined_agree(),
        client.pipelined_resolved(request).pipelined_agree(),
        client.sessions.dom().contains(session_id) && client.sessions[session_id].pipelined_request
            == Some(request) ==> client.pipelined_registered(
            request,
            session_id,
        ).pipelined_agree(),
        client.register_interleaved_channel(session_id, channel_id, n).pipelined_agree(),
        client.interleaved_channel_closed(c).pipelined_agree(),
{
    if !client.sessions.dom().contains(session_id) {
        lemma_pipelined_kept(
            client,
            client.with_session(session_id, media_id, presentation_uri, pipelined_request),
        );
    }
    lemma_pipelined_kept(client, client.session_ended(session_id));
    lemma_pipelined_kept(client, client.media_ended(media_id));
    lemma_pipelined_kept(client, client.pipelined_looked_for(request, waiter));
    lemma_pipelined_kept(client, client.pipelined_resolved(request));
    if client.sessions.dom().contains(session_id) && client.sessions[session_id].pipelined_request
        == Some(request) {
        lemma_pipelined_kept(client, client.pipelined_registered(request, session_id));
    }
    lemma_pipelined_kept(client, client.register_interleaved_channel(session_id, channel_id, n));
    lemma_pipelined_kept(client, client.interleaved_channel_closed(c));
}

/// What is left of identifiers when one of them is taken out.
pub proof fn lemma_without_id(ids: Seq<u8>, c: u8)
    ensures
        forall|d: u8| #[trigger] without_id(ids, c).contains(d) <==> ids.contains(d) && d != c,
    decreases ids.len(),
{
    if ids.len() > 0 {
        let front = ids.drop_last();
        lemma_without_id(front, c);
        let rest = without_id(front, c);
        assert(ids =~= front.push(ids.last()));
        assert forall|d: u8| #[trigger] without_id(ids, c).contains(d) <==> ids.contains(d) && d
            != c by {
            lemma_contains_push(front, ids.last(), d);
            lemma_contains_push(rest, ids.last(), d);
            assert(rest.contains(d) <==> front.contains(d) && d != c);
        }
    }
}

proof fn lemma_contains_push(ids: Seq<u8>, last: u8, d: u8)
    ensures
        ids.push(last).contains(d) <==> ids.contains(d) || d == last,
{
    let all = ids.push(last);
    if ids.contains(d) {
        let k = choose|k: int| 0 <= k < ids.len() && ids[k] == d;
        assert(all[k] == d);
    }
    assert(all[ids.len() as int] == last);
}

/// Which identifiers there are from one on.
proof fn lemma_ids_from(ids: Seq<u8>, first: u8, n: int)
    requires
        0 <= n,
        first + n <= u8::MAX,
    ensures
        forall|d: u8| #[trigger]
            (ids + ids_from(first, n)).contains(d) <==> ids.contains(d) || first <= d < first + n,
{
    let all = ids + ids_from(first, n);
    assert forall|d: u8| #[trigger] all.contains(d) <==> ids.contains(d) || first <= d < first + n by {
        if ids.contains(d) {
            let k = choose|k: int| 0 <= k < ids.len() && ids[k] == d;
            assert(all[k] == d);
        }
        if first <= d < first + n {
            assert(all[ids.len() + d - first] == d);
        }
    }
}

/// Every channel in use is known to the session that it is used for, and sessions know of no other
/// channels. All that a client does keeps it so, as long as new sessions have new names.
pub proof fn law_channels_agree<W>(
    client: ClientView<W>,
    session_id: Seq<char>,
    media_id: u128,
    presentation_uri: UrlView,
    pipelined_request: Option<u32>,
    channel_id: Option<u8>,
    n: int,
    c: u8,
)
    requires
        client.channels_agree(),
        n >= 0,
    ensures
        client.register_interleaved_channel(session_id, channel_id, n).channels_agree(),
        client.interleaved_channel_closed(c).channels_agree(),
        !client.sessions.dom().contains(session_id) ==> client.with_session(
            session_id,
            media_id,
            presentation_uri,
            pipelined_request,
        ).channels_agree(),
        client.session_ended(session_id).channels_agree(),
        client.media_ended(media_id).channels_agree(),
        client.create_session_failed(session_id, media_id, pipelined_request).channels_agree(),
{
    let registered = client.register_interleaved_channel(session_id, channel_id, n);
    if client.choose_channels(session_id, channel_id, n) is Ok {
        let first = client.choose_channels(session_id, channel_id, n)->Ok_0;
        lemma_first_free(client.interleaved_channels, 0, n);
        lemma_ids_from(client.sessions[session_id].channel_ids, first, n);
        assert forall|s: Seq<char>, d: u8| #[trigger]
            registered.session_knows_channel(s, d)
                <==> registered.interleaved_channels.dom().contains(d)
                && registered.interleaved_channels[d] == s by {
            assert(client.session_knows_channel(s, d)
                <==> client.interleaved_channels.dom().contains(d) && client.interleaved_channels[d]
                == s);
        }
    }
    let closed = client.interleaved_channel_closed(c);
    if client.interleaved_channels.dom().contains(c) {
        let owner = client.interleaved_channels[c];
        lemma_without_id(client.sessions[owner].channel_ids, c);
        assert forall|s: Seq<char>, d: u8| #[trigger]
            closed.session_knows_channel(s, d) <==> closed.interleaved_channels.dom().contains(d)
                && closed.interleaved_channels[d] == s by {
            assert(client.session_knows_channel(s, d)
                <==> client.interleaved_channels.dom().contains(d) && client.interleaved_channels[d]
                == s);
        }
    }
    let created = client.with_session(session_id, media_id, presentation_uri, pipelined_request);
    if !client.sessions.dom().contains(session_id) {
        assert forall|s: Seq<char>, d: u8| #[trigger]
            created.session_knows_channel(s, d) <==> created.interleaved_channels.dom().contains(d)
                && created.interleaved_channels[d] == s by {
            assert(client.session_knows_channel(s, d)
                <==> client.interleaved_channels.dom().contains(d) && client.interleaved_channels[d]
                == s);
        }
    }
    lemma_channels_without_session(client, client.session_ended(session_id), session_id);
    if client.session_medias.dom().contains(media_id) {
        lemma_channels_without_session(
            client,
            client.media_ended(media_id),
            client.session_medias[media_id],
        );
    }
    lemma_channels_without_session(
        client,
        client.create_session_failed(session_id, media_id, pipelined_request),
        session_id,
    );
}

/// Channels agree with sessions without a session and its channels.
proof fn lemma_channels_without_session<W>(
    before: ClientView<W>,
    after: ClientView<W>,
    session_id: Seq<char>,
)
    requires
        before.channels_agree(),
        after.sessions =~= before.sessions.remove(session_id),
        after.interleaved_channels =~= if before.sessions.dom().contains(session_id) {
            without_channels(
                before.interleaved_channels,
                before.sessions[session_id].channel_ids,
            )
        } else {
            before.interleaved_channels
        },
    ensures
        after.channels_agree(),
{
    assert forall|s: Seq<char>, d: u8| #[trigger]
        after.session_knows_channel(s, d) <==> after.interleaved_channels.dom().contains(d)
            && after.interleaved_channels[d] == s by {
        assert(before.session_knows_channel(s, d) <==> before.interleaved_channels.dom().contains(d)
            && before.interleaved_channels[d] == s);
        assert(before.session_knows_channel(session_id, d)
            <==> before.interleaved_channels.dom().contains(d) && before.interleaved_channels[d]
            == session_id);
    }
}

/// Of requests that are sent one after the other, the first creates the session and the others wait
/// for it in the order in which they came. Once it is created, those that wait get it, and all that
/// come later find it, also after the first has ended. If the first ends without a session, the
/// next is the first again.
pub proof fn law_pipelined_requests_share_session<W>(
    client: ClientView<W>,
    request: u32,
    first: W,
    second: W,
    third: W,
    session_id: Seq<char>,
    media_id: u128,
    presentation_uri: UrlView,
)
    requires
        !client.pipelined_requests.dom().contains(request),
    ensures
        ({
            let waiting = client.pipelined_looked_for(request, first).pipelined_looked_for(
                request,
                second,
            ).pipelined_looked_for(request, third);
            let created = waiting.with_session(
                session_id,
                media_id,
                presentation_uri,
                Some(request),
            );
            let registered = created.pipelined_registered(request, session_id);
            &&& waiting.waiters(request) =~= seq![second, third]
            &&& created.waiters(request) =~= seq![second, third]
            &&& registered.waiters(request) =~= Seq::<W>::empty()
            &&& registered.pipelined_requests[request] == PipelinedRequestView::<W>::Registered(
                session_id,
            )
            &&& registered.sessions[session_id].media_id == media_id
            &&& registered.sessions[session_id].presentation_uri == presentation_uri
            &&& registered.pipelined_looked_for(request, first) == registered
            &&& registered.pipelined_resolved(request) == registered
            &&& waiting.pipelined_resolved(request) =~= client
        }),
{
}

/// When a session has ended, nothing that belonged to it is left: neither the session, nor its
/// media, nor its pipelined request, nor any channel that is used for it. Channels of other
/// sessions stay.
pub proof fn law_nothing_left_of_session<W>(client: ClientView<W>, session_id: Seq<char>, c: u8)
    requires
        client.channels_agree(),
        client.sessions.dom().contains(session_id),
    ensures
        ({
            let session = client.sessions[session_id];
            let after = client.session_ended(session_id);
            &&& !after.sessions.dom().contains(session_id)
            &&& !after.session_medias.dom().contains(session.media_id)
            &&& session.pipelined_request matches Some(p)
                ==> !after.pipelined_requests.dom().contains(p)
            &&& client.interleaved_channels.dom().contains(c) ==> if client.interleaved_channels[c]
                == session_id {
                client.ending_channels(session_id).contains(c)
                    && !after.interleaved_channels.dom().contains(c)
            } else {
                after.interleaved_channels.dom().contains(c) && after.interleaved_channels[c]
                    == client.interleaved_channels[c]
            }
        }),
{
    assert(client.session_knows_channel(session_id, c)
        <==> client.interleaved_channels.dom().contains(c) && client.interleaved_channels[c]
        == session_id);
}

/// Channels that were registered for a session are closed together with it, and free again.
pub proof fn law_registered_channels_are_closed<W>(
    client: ClientView<W>,
    session_id: Seq<char>,
    channel_id: Option<u8>,
    n: int,
    c: u8,
)
    requires
        n >= 0,
        client.choose_channels(session_id, channel_id, n) is Ok,
    ensures
        ({
            let first = client.choose_channels(session_id, channel_id, n)->Ok_0;
            let registered = client.register_interleaved_channel(session_id, channel_id, n);
            first <= c < first + n ==> {
                &&& registered.ending_channels(session_id).contains(c)
                &&& !registered.session_ended(session_id).interleaved_channels.dom().contains(c)
            }
        }),
{
    let first = client.choose_channels(session_id, channel_id, n)->Ok_0;
    lemma_first_free(client.interleaved_channels, 0, n);
    lemma_ids_from(client.sessions[session_id].channel_ids, first, n);
}

/// What a message says of itself when it is sent.
pub proof fn lemma_stamped_cseq(headers: Map<Seq<char>, Seq<char>>, cseq: u32, date: Seq<char>)
    ensures
        header_value(stamped(headers, cseq, date), "CSeq"@) == Some(decimal_digits(cseq as nat)),
        header_value(stamped(headers, cseq, date), "Server"@) == Some(server_name()),
        header_value(stamped(headers, cseq, date), "Date"@) == Some(date),
{
    reveal_strlit("CSeq");
    reveal_strlit("Server");
    reveal_strlit("Date");
    assert(ascii("CSeq"@));
    assert(ascii("Server"@));
    assert(ascii("Date"@));
    assert(lower("CSeq"@).len() != lower("Server"@).len());
    assert(lower("CSeq"@) != lower("Date"@)) by {
        assert(lower("CSeq"@)[0] == lower_char('C'));
        assert(lower("Date"@)[0] == lower_char('D'));
    }
    assert(lower("Server"@).len() != lower("Date"@).len());
}

/// A response that carries the sequence number of a request is taken for the response to that
/// request: the number that was sent reads as the same number.
pub proof fn law_sequence_number_read_back(request: RequestView, cseq: u32, date: Seq<char>)
    ensures
        typed_number(header_value(outgoing(request, cseq, date).headers, "CSeq"@)) == Ok::<
            Option<nat>,
            (),
        >(Some(cseq as nat)),
{
    lemma_stamped_cseq(request.headers, cseq, date);
    law_number_read_back(cseq as nat, u32::MAX as nat);
}

/// Every response carries the sequence number of its request, and says who sends it and when.
/// Status, reason, version and body are those of whoever answered.
pub proof fn law_response_carries_sequence_number(
    task: RequestTask,
    response: ResponseView,
    session_found: bool,
    date: Seq<char>,
)
    ensures
        ({
            let sent = task.outgoing(response, session_found, date);
            &&& typed_number(header_value(sent.headers, "CSeq"@)) == Ok::<Option<nat>, ()>(
                Some(task.cseq as nat),
            )
            &&& header_value(sent.headers, "Server"@) == Some(server_name())
            &&& header_value(sent.headers, "Date"@) == Some(date)
            &&& sent.status == response.status
            &&& sent.reason_phrase == response.reason_phrase
            &&& sent.version == response.version
            &&& sent.body == response.body
        }),
{
    let headers = match task.session_id {
        Some(session_id) => with_header(response.headers, "Session"@, session_id@),
        None => response.headers,
    };
    lemma_stamped_cseq(headers, task.cseq, date);
    lemma_stamped_cseq(response.headers, task.cseq, date);
    law_number_read_back(task.cseq as nat, u32::MAX as nat);
}

/// The response to a request for a session gives the session if it can still be found. If it can't,
/// an error and the response to a TEARDOWN request give nothing but what whoever answered gave. The
/// response to a DESCRIBE request never gives a session by itself.
pub proof fn law_session_in_response(
    task: RequestTask,
    response: ResponseView,
    date: Seq<char>,
)
    ensures
        task.session_id matches Some(session_id) ==> task.method != Method::Describe
            ==> header_value(task.outgoing(response, true, date).headers, "Session"@) == Some(
            session_id@,
        ),
        response.status.spec_is_client_error() || response.status.spec_is_server_error()
            || task.method == Method::Teardown ==> header_value(
            task.outgoing(response, false, date).headers,
            "Session"@,
        ) == header_value(response.headers, "Session"@),
        task.method == Method::Describe ==> task.outgoing(response, true, date)
            == task.outgoing(response, false, date) && task.outgoing(
            response,
            true,
            date,
        ).headers == stamped(response.headers, task.cseq, date),
{
    reveal_strlit("CSeq");
    reveal_strlit("Server");
    reveal_strlit("Date");
    reveal_strlit("Session");
    assert(ascii("Session"@));
    assert(lower("Session"@).len() == 7);
    assert(lower("CSeq"@).len() == 4);
    assert(lower("Server"@).len() == 6);
    assert(lower("Date"@).len() == 4);
}

} // verus!
