//! How requests and responses find each other, and what is in them.

use vstd::prelude::*;

use super::context::ClientView;
use super::laws::law_sequence_number_read_back;
use super::task::{
    failed_send, outgoing, refusal, request_start, server_name, spec_goes_on, spec_send_step,
    starts, LoopEvent, RequestEvent, RequestStep, RequestTask, SendEvent, SendStep,
    CONTINUE_INTERVAL, PEER_TIMEOUT,
};
use crate::channel::SendError;
use crate::error::StatusCode;
use crate::headers::{ascii, header_value, lower, lower_char, typed_number, typed_session};
use crate::message::{Method, RequestView, ResponseView, Version};
use crate::url::opt_view;

verus! {

/// The names of what every message says of itself are told apart from that of a session.
proof fn lemma_stamp_names()
    ensures
        ascii("CSeq"@) && lower("CSeq"@).len() == 4,
        ascii("Server"@) && lower("Server"@).len() == 6,
        ascii("Date"@) && lower("Date"@).len() == 4,
        ascii("Session"@) && lower("Session"@).len() == 7,
        lower("CSeq"@) != lower("Date"@),
{
    reveal_strlit("CSeq");
    reveal_strlit("Server");
    reveal_strlit("Date");
    reveal_strlit("Session");
    assert(lower("CSeq"@) != lower("Date"@)) by {
        assert(lower("CSeq"@)[0] == lower_char('C'));
        assert(lower("Date"@)[0] == lower_char('D'));
    }
}

/// Whether a header says of a message who sends it, when, or with which sequence number.
pub open spec fn is_stamp(name: Seq<char>) -> bool {
    lower(name) == lower("CSeq"@) || lower(name) == lower("Server"@) || lower(name) == lower(
        "Date"@,
    )
}

/// A request is sent as it was made: method, URI, version and body, and all headers but those that
/// every message gets.
pub proof fn law_request_is_sent_as_made(
    request: RequestView,
    cseq: u32,
    date: Seq<char>,
    name: Seq<char>,
)
    ensures
        ({
            let sent = outgoing(request, cseq, date);
            &&& sent.method == request.method
            &&& sent.request_uri == request.request_uri
            &&& sent.version == request.version
            &&& sent.body == request.body
            &&& !is_stamp(name) ==> header_value(sent.headers, name) == header_value(
                request.headers,
                name,
            )
        }),
{
    lemma_stamp_names();
}

/// A response to a request that was sent is taken for its response until the request is done with,
/// whatever else it says. One with a number that no request waits for is taken for none.
pub proof fn law_response_finds_request<W>(
    client: ClientView<W>,
    request: RequestView,
    date: Seq<char>,
    response: Map<Seq<char>, Seq<char>>,
)
    requires
        client.cseq_counter < u32::MAX,
        header_value(response, "CSeq"@) == header_value(
            outgoing(request, client.cseq_counter, date).headers,
            "CSeq"@,
        ),
    ensures
        client.request_sent().awaited(response) == Some(client.cseq_counter),
        client.request_sent().request_finished(client.cseq_counter).awaited(response) is None,
{
    law_sequence_number_read_back(request, client.cseq_counter, date);
}

/// A response is only taken for the response to a request that waits, and that has its number. A
/// response without a number is for none.
pub proof fn law_response_is_awaited<W>(client: ClientView<W>, response: Map<Seq<char>, Seq<char>>)
    requires
        typed_number(header_value(response, "CSeq"@)) matches Ok(Some(n)) ==> n <= u32::MAX,
    ensures
        client.awaited(response) matches Some(cseq) ==> client.pending_responses.contains(cseq)
            && typed_number(header_value(response, "CSeq"@)) == Ok::<Option<nat>, ()>(
            Some(cseq as nat),
        ),
        client.awaited(response) is None ==> (typed_number(
            header_value(response, "CSeq"@),
        ) matches Ok(Some(n)) ==> !client.pending_responses.contains(n as u32)),
{
}

/// A request can be worked on just if its number can be read, and its session if it has one. A
/// DESCRIBE request must not have one.
pub proof fn law_requests_that_start(request: RequestView)
    ensures
        ({
            let cseq = typed_number(header_value(request.headers, "CSeq"@));
            let session = typed_session(header_value(request.headers, "Session"@));
            &&& request_start(request) is Some <==> {
                &&& cseq matches Ok(Some(_))
                &&& session is Ok
                &&& request.method == Method::Describe ==> session->Ok_0 is None
            }
            &&& request_start(request) matches Some((n, id)) ==> cseq == Ok::<Option<nat>, ()>(
                Some(n),
            ) && session == Ok::<Option<Seq<char>>, ()>(id)
        }),
{
}

/// What is worked on is the request that came in. The session that it is for is kept alive just if
/// the client knows it, and looked for first just if it does not.
pub proof fn law_session_of_request<W>(
    client: ClientView<W>,
    request: RequestView,
    task: RequestTask,
)
    requires
        request_start(request) is Some,
        starts(client, request, task),
    ensures
        ({
            let session = typed_session(header_value(request.headers, "Session"@));
            &&& task.version == request.version
            &&& task.method == request.method
            &&& typed_number(header_value(request.headers, "CSeq"@)) == Ok::<Option<nat>, ()>(
                Some(task.cseq as nat),
            )
            &&& session == Ok::<Option<Seq<char>>, ()>(opt_view(task.session_id))
            &&& task.spec_kept_alive() matches Some(id) ==> client.sessions.dom().contains(id)
                && session == Ok::<Option<Seq<char>>, ()>(Some(id))
            &&& session matches Ok(Some(id)) ==> {
                &&& client.sessions.dom().contains(id) <==> task.spec_kept_alive() == Some(id)
                &&& client.sessions.dom().contains(id) <==> task.spec_next_step()
                    == RequestStep::AwaitResponse
                &&& !client.sessions.dom().contains(id) <==> task.spec_next_step()
                    == RequestStep::FindSession
            }
            &&& session == Ok::<Option<Seq<char>>, ()>(None) ==> task.spec_kept_alive() is None
                && task.spec_next_step() == RequestStep::AwaitResponse
        }),
{
}

/// A request that can't be worked on is refused in its version as a bad one. Who refuses it, and
/// when, is said, but nothing of the request.
pub proof fn law_refusal_is_bad_request(version: Version, date: Seq<char>, name: Seq<char>)
    ensures
        refusal(version, date).status == StatusCode::BadRequest,
        refusal(version, date).version == version,
        refusal(version, date).body.len() == 0,
        header_value(refusal(version, date).headers, "Server"@) == Some(server_name()),
        header_value(refusal(version, date).headers, "Date"@) == Some(date),
        lower(name) != lower("Server"@) && lower(name) != lower("Date"@) ==> header_value(
            refusal(version, date).headers,
            name,
        ) is None,
{
    lemma_stamp_names();
}

/// Where a session can't be found, that is said of it in the version of the request.
pub proof fn law_unknown_session_is_named(task: RequestTask, name: Seq<char>)
    requires
        task.session_id is Some,
    ensures
        task.session_not_found().status == StatusCode::SessionNotFound,
        task.session_not_found().version == task.version,
        header_value(task.session_not_found().headers, "Session"@) == Some((task.session_id->0)@),
        lower(name) != lower("Session"@) ==> header_value(
            task.session_not_found().headers,
            name,
        ) is None,
{
    lemma_stamp_names();
}

/// The peer gets the response that there is, else the status of the error, in the version of its
/// request. As long as there is neither, it is told to go on waiting.
pub proof fn law_request_is_answered(task: RequestTask, event: RequestEvent)
    ensures
        event matches RequestEvent::Response(response) ==> task.spec_response(event) == response@,
        event matches RequestEvent::Failed(error) ==> task.spec_response(event).status
            == error.spec_status_code() && task.spec_response(event).version == task.version,
        event is StillWorking ==> task.spec_response(event).status == StatusCode::Continue
            && task.spec_response(event).version == task.version,
{
}

/// A response is sent as it was given, and all its headers but those that every message gets and
/// the session. A success gives the session of the request, found or not, unless it was a
/// TEARDOWN or DESCRIBE request. Without a session in the request, none is added.
pub proof fn law_response_is_sent_as_given(
    task: RequestTask,
    response: ResponseView,
    session_found: bool,
    date: Seq<char>,
    name: Seq<char>,
)
    ensures
        ({
            let sent = task.outgoing(response, session_found, date);
            let session = header_value(sent.headers, "Session"@);
            &&& !is_stamp(name) && lower(name) != lower("Session"@) ==> header_value(
                sent.headers,
                name,
            ) == header_value(response.headers, name)
            &&& task.session_id is None ==> session == header_value(response.headers, "Session"@)
            &&& task.session_id matches Some(id) ==> {
                &&& !response.status.spec_is_client_error()
                    && !response.status.spec_is_server_error() && task.method != Method::Teardown
                    && task.method != Method::Describe ==> session == Some(id@)
                &&& session == Some(id@) || session == header_value(response.headers, "Session"@)
            }
        }),
{
    lemma_stamp_names();
}

/// A client ends when its controller or its peer is gone, when it is to quit, and when nothing can be
/// read or sent any more or in time. Messages never end it.
pub proof fn law_client_ends(event: LoopEvent)
    ensures
        !spec_goes_on(LoopEvent::ControllerClosed),
        !spec_goes_on(LoopEvent::Quit),
        !spec_goes_on(LoopEvent::SenderError),
        !spec_goes_on(LoopEvent::SenderFull),
        !spec_goes_on(LoopEvent::MessagesEnded),
        !spec_goes_on(LoopEvent::ReadError),
        !spec_goes_on(LoopEvent::ReadTimedOut),
        !spec_goes_on(LoopEvent::Disconnected),
        event is Message ==> spec_goes_on(event),
{
}

/// A request that could not be sent ends with an error of the server. The client is told just if too
/// much was to be sent, and not if nothing can be sent any more.
pub proof fn law_failed_request_ends(error: SendError)
    ensures
        failed_send(error).0.spec_status_code() == StatusCode::InternalServerError,
        failed_send(SendError::Full).1,
        !failed_send(SendError::Disconnected).1,
{
}

/// Just what was sent is acknowledged. Everything else is reported, and ends the sending.
pub proof fn law_sent_is_acknowledged(event: SendEvent)
    ensures
        event is Sent ==> spec_send_step(event) == SendStep::Acknowledge,
        event is TimedOut || event is Failed ==> spec_send_step(event) == SendStep::Report,
{
}

/// The peer is told twice that its request is worked on before it would be given up.
pub proof fn law_peer_times()
    ensures
        PEER_TIMEOUT == 10 * 1_000_000_000,
        2 * CONTINUE_INTERVAL == PEER_TIMEOUT,
{
}

} // verus!
