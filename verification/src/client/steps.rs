//! A client over all that it does: what its requests to the peer are, and what becomes of them.

use vstd::prelude::*;

use super::context::ClientView;
use super::laws::{law_sequence_number_read_back, lemma_stamped_cseq};
use super::task::{outgoing, response_step_for, server_name, ResponseEvent, ResponseStep};
use crate::error::{Error, StatusCode};
use crate::headers::{header_value, typed_number};
use crate::message::RequestView;
use crate::url::UrlView;

verus! {

/// Whatever may happen to a client.
pub ghost enum ClientStep<W> {
    /// A request is sent to the peer on a date.
    SendRequest { request: RequestView, date: Seq<char> },
    /// Nothing more is to be done for a request to the peer: it was answered, or could not be sent.
    RequestFinished { cseq: u32 },
    /// A request of the peer is worked on.
    RequestStarted { cseq: u32 },
    /// A request of the peer was answered.
    ResponseFinished { cseq: u32 },
    /// Interleaved channels are registered for a session.
    RegisterChannels { session_id: Seq<char>, channel_id: Option<u8>, n: int },
    /// An interleaved channel was closed.
    ChannelClosed { channel_id: u8 },
    /// A session is created, or was found on the server.
    AddSession {
        session_id: Seq<char>,
        media_id: u128,
        presentation_uri: UrlView,
        pipelined_request: Option<u32>,
    },
    /// A session could not be created.
    CreateSessionFailed { session_id: Seq<char>, media_id: u128, pipelined_request: Option<u32> },
    /// A session has ended.
    SessionEnded { session_id: Seq<char> },
    /// A media has ended.
    MediaEnded { media_id: u128 },
    /// Someone looks for the session of a pipelined request.
    LookForPipelined { request: u32, waiter: W },
    /// The session of a pipelined request was created.
    PipelinedRegistered { request: u32, session_id: Seq<char> },
    /// It was reported how the creation of the session of a pipelined request went.
    PipelinedResolved { request: u32 },
}

impl<W> ClientView<W> {
    /// The client after a step.
    pub open spec fn step(self, step: ClientStep<W>) -> ClientView<W> {
        match step {
            ClientStep::SendRequest { .. } => self.request_sent(),
            ClientStep::RequestFinished { cseq } => self.request_finished(cseq),
            ClientStep::RequestStarted { cseq } => self.request_started(cseq),
            ClientStep::ResponseFinished { cseq } => self.response_finished(cseq),
            ClientStep::RegisterChannels { session_id, channel_id, n } =>
                self.register_interleaved_channel(session_id, channel_id, n),
            ClientStep::ChannelClosed { channel_id } => self.interleaved_channel_closed(channel_id),
            ClientStep::AddSession { session_id, media_id, presentation_uri, pipelined_request } =>
                self.with_session(session_id, media_id, presentation_uri, pipelined_request),
            ClientStep::CreateSessionFailed { session_id, media_id, pipelined_request } =>
                self.create_session_failed(session_id, media_id, pipelined_request),
            ClientStep::SessionEnded { session_id } => self.session_ended(session_id),
            ClientStep::MediaEnded { media_id } => self.media_ended(media_id),
            ClientStep::LookForPipelined { request, waiter } => self.pipelined_looked_for(
                request,
                waiter,
            ),
            ClientStep::PipelinedRegistered { request, session_id } => self.pipelined_registered(
                request,
                session_id,
            ),
            ClientStep::PipelinedResolved { request } => self.pipelined_resolved(request),
        }
    }

    /// The client after all of these steps.
    pub open spec fn after(self, steps: Seq<ClientStep<W>>) -> ClientView<W>
        decreases steps.len(),
    {
        if steps.len() == 0 {
            self
        } else {
            self.after(steps.drop_last()).step(steps.last())
        }
    }

    /// The requests that the peer gets on the way, in order.
    pub open spec fn requests_sent(self, steps: Seq<ClientStep<W>>) -> Seq<RequestView>
        decreases steps.len(),
    {
        if steps.len() == 0 {
            Seq::empty()
        } else {
            let before = self.requests_sent(steps.drop_last());
            match steps.last() {
                ClientStep::SendRequest { request, date } => before.push(
                    outgoing(request, self.after(steps.drop_last()).cseq_counter, date),
                ),
                _ => before,
            }
        }
    }
}

/// The sequence number of a request, as the peer reads it.
pub open spec fn cseq_of(request: RequestView) -> Result<Option<nat>, ()> {
    typed_number(header_value(request.headers, "CSeq"@))
}

/// The first request of a client has the number 1, and every other one the next number, whatever
/// else happens: requests that could not be sent count too, and no number is used twice. Every
/// request says who sends it and when.
///
/// There are at most as many requests as there are sequence numbers.
pub proof fn law_requests_are_numbered<W>(steps: Seq<ClientStep<W>>, k: int)
    requires
        ClientView::<W>::initial().requests_sent(steps).len() < u32::MAX,
    ensures
        ({
            let sent = ClientView::<W>::initial().requests_sent(steps);
            &&& ClientView::<W>::initial().after(steps).cseq_counter == sent.len() + 1
            &&& 0 <= k < sent.len() ==> {
                &&& cseq_of(sent[k]) == Ok::<Option<nat>, ()>(Some((k + 1) as nat))
                &&& header_value(sent[k].headers, "Server"@) == Some(server_name())
                &&& header_value(sent[k].headers, "Date"@) is Some
            }
        }),
    decreases steps.len(),
{
    let client = ClientView::<W>::initial();
    if steps.len() > 0 {
        let front = steps.drop_last();
        law_requests_are_numbered(front, k);
        match steps.last() {
            ClientStep::SendRequest { request, date } => {
                let cseq = client.after(front).cseq_counter;
                lemma_stamped_cseq(request.headers, cseq, date);
                law_sequence_number_read_back(request, cseq, date);
            },
            _ => {},
        }
    }
}

/// How the wait for the response to a request ends, if it does: with the first of the events that
/// is not waited over, and what is done about it.
pub open spec fn outcome(events: Seq<ResponseEvent>) -> Option<(ResponseEvent, ResponseStep)>
    decreases events.len(),
{
    if events.len() == 0 {
        None
    } else if response_step_for(events[0]) != ResponseStep::Wait {
        Some((events[0], response_step_for(events[0])))
    } else {
        outcome(events.skip(1))
    }
}

/// A request ends with the first response that is no Continue, which is delivered, or else with an
/// internal error: if there is nothing for too long, or the peer goes away. As long as there is
/// nothing but Continue, it goes on.
pub proof fn law_outcome_of_request(events: Seq<ResponseEvent>, i: int)
    requires
        0 <= i <= events.len(),
        forall|j: int|
            0 <= j < i ==> #[trigger] events[j] == ResponseEvent::Received(StatusCode::Continue),
        i < events.len() ==> events[i] != ResponseEvent::Received(StatusCode::Continue),
    ensures
        outcome(events) == if i == events.len() {
            None
        } else {
            Some(
                (
                    events[i],
                    match events[i] {
                        ResponseEvent::Received(_) => ResponseStep::Deliver,
                        _ => ResponseStep::Fail(Error::spec_internal()),
                    },
                ),
            )
        },
    decreases events.len(),
{
    if i > 0 {
        let rest = events.skip(1);
        assert(events[0] == ResponseEvent::Received(StatusCode::Continue));
        assert forall|j: int| 0 <= j < i - 1 implies #[trigger] rest[j] == ResponseEvent::Received(
            StatusCode::Continue,
        ) by {
            assert(rest[j] == events[j + 1]);
        }
        law_outcome_of_request(rest, i - 1);
    }
}

} // verus!
