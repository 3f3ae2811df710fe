//! How requests are sent, received and answered.

use vstd::prelude::*;

use super::context::{ClientView, Context};
use crate::channel::SendError;
use crate::error::{Error, StatusCode};
use crate::headers::{decimal_digits, typed_number, typed_session, with_header, HeaderFields};
use crate::message::{Method, Request, RequestView, Response, ResponseView, Version};
use crate::url::opt_view;

verus! {

/// How long the peer has for a message, a response to a request, or taking a message: 10 seconds,
/// in nanoseconds.
pub const PEER_TIMEOUT: u64 = 10_000_000_000;

/// How often the peer is told that its request is still being worked on: every 5 seconds, in
/// nanoseconds.
pub const CONTINUE_INTERVAL: u64 = 5_000_000_000;

/// What the server calls itself.
pub open spec fn server_name() -> Seq<char> {
    "GStreamer RTSP Server/0.0"@
}

/// The headers that say who sends a message and when.
pub open spec fn signed(headers: Map<Seq<char>, Seq<char>>, date: Seq<char>) -> Map<
    Seq<char>,
    Seq<char>,
> {
    with_header(with_header(headers, "Server"@, server_name()), "Date"@, date)
}

/// The headers of a message with a sequence number that is about to be sent.
pub open spec fn stamped(headers: Map<Seq<char>, Seq<char>>, cseq: u32, date: Seq<char>) -> Map<
    Seq<char>,
    Seq<char>,
> {
    signed(with_header(headers, "CSeq"@, decimal_digits(cseq as nat)), date)
}

/// `chrono::Local::now` in the form that `DateTime::to_rfc2822` gives it.
///
/// Nothing is promised of it: it depends on the time and on the time zone of the machine, whose
/// clock must not be beyond the year 9999.
#[verifier::external_body]
fn current_date() -> (r: String) {
    chrono::Local::now().to_rfc2822()
}

fn sign(headers: &mut HeaderFields, date: &str)
    ensures
        final(headers)@ == signed(old(headers)@, date@),
{
    headers.insert("Server", "GStreamer RTSP Server/0.0");
    headers.insert("Date", date);
}

/// What is heard about the response to a request.
pub enum ResponseEvent {
    /// Nothing, for too long.
    TimedOut,
    /// Nothing, and there will be nothing.
    Disconnected,
    /// A response with this status.
    Received(StatusCode),
}

/// What is to be done about the response to a request.
#[derive(Clone, Copy, PartialEq, Eq, Structural, Debug)]
pub enum ResponseStep {
    /// Wait for the next one.
    Wait,
    /// Give up, and forget the request.
    Fail(Error),
    /// Hand out the response, and forget the request.
    Deliver,
}

/// What is to be done about the response to a request: a Continue is no response yet.
pub open spec fn response_step_for(event: ResponseEvent) -> ResponseStep {
    match event {
        ResponseEvent::TimedOut => ResponseStep::Fail(Error::spec_internal()),
        ResponseEvent::Disconnected => ResponseStep::Fail(Error::spec_internal()),
        ResponseEvent::Received(status) => if status == StatusCode::Continue {
            ResponseStep::Wait
        } else {
            ResponseStep::Deliver
        },
    }
}

/// Decides what to do about the response to a request.
pub fn response_step(event: ResponseEvent) -> (r: ResponseStep)
    ensures
        r == response_step_for(event),
{
    match event {
        ResponseEvent::TimedOut => ResponseStep::Fail(Error::internal()),
        ResponseEvent::Disconnected => ResponseStep::Fail(Error::internal()),
        ResponseEvent::Received(status) => if status == StatusCode::Continue {
            ResponseStep::Wait
        } else {
            ResponseStep::Deliver
        },
    }
}

/// How the sending of a message ended.
#[derive(Clone, Copy, PartialEq, Eq, Structural, Debug)]
pub enum SendEvent {
    /// It took too long.
    TimedOut,
    /// The message was sent.
    Sent,
    /// The message could not be sent.
    Failed,
}

/// What is to be done after a message.
#[derive(Clone, Copy, PartialEq, Eq, Structural, Debug)]
pub enum SendStep {
    /// Acknowledge it if asked to, and send the next one.
    Acknowledge,
    /// Report the error to the client, and send nothing more.
    Report,
}

/// What is to be done after the sending of a message.
pub open spec fn spec_send_step(event: SendEvent) -> SendStep {
    if event == SendEvent::Sent {
        SendStep::Acknowledge
    } else {
        SendStep::Report
    }
}

/// Decides what to do after the sending of a message.
pub fn send_step(event: SendEvent) -> (r: SendStep)
    ensures
        r == spec_send_step(event),
{
    if event == SendEvent::Sent {
        SendStep::Acknowledge
    } else {
        SendStep::Report
    }
}

/// The request that is to be sent to the peer.
pub open spec fn outgoing(request: RequestView, cseq: u32, date: Seq<char>) -> RequestView {
    RequestView { headers: stamped(request.headers, cseq, date), ..request }
}

impl<W> ClientView<W> {
    /// The request to the peer that a response with these headers belongs to, if it waits for one.
    pub open spec fn awaited(self, headers: Map<Seq<char>, Seq<char>>) -> Option<u32> {
        match typed_number(crate::headers::header_value(headers, "CSeq"@)) {
            Ok(Some(n)) => if self.pending_responses.contains(n as u32) {
                Some(n as u32)
            } else {
                None
            },
            _ => None,
        }
    }
}

impl<W> Context<W> {
    /// Makes a request ready to be sent to the peer, and expects a response to it. Returns its
    /// sequence number.
    ///
    /// There are at most as many requests as there are sequence numbers.
    pub fn send_request(&mut self, request: &mut Request, date: &str) -> (r: u32)
        requires
            old(self).wf(),
            old(self)@.cseq_counter < u32::MAX,
        ensures
            final(self).wf(),
            final(self).id == old(self).id,
            r == old(self)@.cseq_counter,
            final(request)@ == outgoing(old(request)@, r, date@),
            final(self)@ == old(self)@.request_sent(),
    {
        let cseq: u32 = self.cseq_counter;
        request.headers.insert_cseq(cseq);
        self.cseq_counter = cseq + 1;
        sign(&mut request.headers, date);
        self.pending_responses.insert(cseq);
        cseq
    }

    /// Makes a request ready to be sent to the peer now.
    pub fn send_request_now(&mut self, request: &mut Request) -> (r: u32)
        requires
            old(self).wf(),
            old(self)@.cseq_counter < u32::MAX,
        ensures
            final(self).wf(),
            final(self).id == old(self).id,
            r == old(self)@.cseq_counter,
            exists|date: Seq<char>| final(request)@ == #[trigger] outgoing(old(request)@, r, date),
            final(self)@ == old(self)@.request_sent(),
    {
        let date = current_date();
        self.send_request(request, date.as_str())
    }

    /// A request could not be sent. Returns the error that it ends with, and whether this client
    /// has to be told that it sends too much.
    pub fn send_request_failed(&mut self, cseq: u32, error: SendError) -> (r: (Error, bool))
        requires
            old(self).wf(),
        ensures
            final(self).wf(),
            final(self).id == old(self).id,
            final(self)@ == old(self)@.request_finished(cseq),
            r == failed_send(error),
    {
        let _ = self.request_finished(cseq);
        (Error::internal(), error.is_full())
    }

    /// A response of the peer came in. Returns the sequence number of the request that it belongs
    /// to, if one is waiting for it.
    pub fn response_received(&self, headers: &HeaderFields) -> (r: Option<u32>)
        requires
            self.wf(),
        ensures
            r == self@.awaited(headers@),
    {
        match headers.cseq() {
            Ok(Some(cseq)) => if self.pending_responses.contains(&cseq) {
                Some(cseq)
            } else {
                None
            },
            _ => None,
        }
    }
}

/// The error that a request ends with that could not be sent, and whether the client sends too much.
pub open spec fn failed_send(error: SendError) -> (Error, bool) {
    (Error::spec_internal(), error == SendError::Full)
}

/// What may end a client.
#[derive(Clone, Copy, PartialEq, Eq, Structural, Debug)]
pub enum LoopEvent {
    /// Nobody controls the client any more.
    ControllerClosed,
    /// The server wants the client to quit.
    Quit,
    /// A message could not be sent to the peer.
    SenderError,
    /// There are too many messages for the peer.
    SenderFull,
    /// There are no more messages for the client.
    MessagesEnded,
    /// Nothing could be read from the peer.
    ReadError,
    /// Nothing came from the peer for too long.
    ReadTimedOut,
    /// The peer is gone.
    Disconnected,
    /// A message for the client or from the peer.
    Message,
}

/// Whether a client goes on.
pub open spec fn spec_goes_on(event: LoopEvent) -> bool {
    event == LoopEvent::Message
}

/// Decides whether a client goes on.
pub fn goes_on(event: LoopEvent) -> (r: bool)
    ensures
        r == spec_goes_on(event),
{
    match event {
        LoopEvent::Message => true,
        _ => false,
    }
}

/// A request of the peer that is being worked on.
pub struct RequestTask {
    pub version: Version,
    pub method: Method,
    pub cseq: u32,
    /// The session that the request is for.
    pub session_id: Option<String>,
    /// Whether the session is known, if the request is for one.
    pub session_known: Option<bool>,
}

/// The sequence number and the session of a request, if it can be worked on: it has to have a
/// sequence number, and a session unless it wants a description, which is never in a session.
pub open spec fn request_start(request: RequestView) -> Option<(nat, Option<Seq<char>>)> {
    match (
        typed_number(crate::headers::header_value(request.headers, "CSeq"@)),
        typed_session(crate::headers::header_value(request.headers, "Session"@)),
    ) {
        (Ok(Some(cseq)), Ok(session_id)) => if request.method != Method::Describe
            || session_id is None {
            Some((cseq, session_id))
        } else {
            None
        },
        _ => None,
    }
}

/// Whether a request that can be worked on is worked on as it has to be.
pub open spec fn starts<W>(client: ClientView<W>, request: RequestView, task: RequestTask) -> bool {
    let (cseq, session_id) = request_start(request)->0;
    &&& task.wf()
    &&& task.version == request.version
    &&& task.method == request.method
    &&& task.cseq == cseq
    &&& opt_view(task.session_id) == session_id
    &&& task.session_known == match session_id {
        Some(id) => Some(client.sessions.dom().contains(id)),
        None => None,
    }
}

/// The response to a request that can't be worked on.
pub open spec fn refusal(version: Version, date: Seq<char>) -> ResponseView {
    let response = ResponseView::empty(version, StatusCode::BadRequest);
    ResponseView { headers: signed(response.headers, date), ..response }
}

impl<W> Context<W> {
    /// A request of the peer came in. It is worked on, or refused with a response.
    ///
    /// Where the request is for a session that this client knows, the session has to be kept
    /// alive.
    pub fn request_received(&mut self, request: &Request, date: &str) -> (r: Result<
        RequestTask,
        Response,
    >)
        requires
            old(self).wf(),
        ensures
            final(self).wf(),
            final(self).id == old(self).id,
            match r {
                Ok(task) => request_start(request@) is Some && starts(old(self)@, request@, task)
                    && final(self)@ == old(self)@.request_started(task.cseq),
                Err(response) => request_start(request@) is None && final(self)@ == old(self)@
                    && response@ == refusal(request.version, date@),
            },
    {
        let cseq = request.headers.cseq();
        let session = request.headers.session();
        match (cseq, session) {
            (Ok(Some(cseq)), Ok(session_id)) => {
                // The Session header must not be included in DESCRIBE requests
                if request.method != Method::Describe || session_id.is_none() {
                    let session_known = match &session_id {
                        Some(id) => Some(self.has_session(id.as_str())),
                        None => None,
                    };
                    self.request_started(cseq);
                    return Ok(
                        RequestTask {
                            version: request.version,
                            method: request.method,
                            cseq,
                            session_id,
                            session_known,
                        },
                    );
                }
            },
            _ => {},
        }
        let mut response = Response::new(request.version, StatusCode::BadRequest);
        sign(&mut response.headers, date);
        Err(response)
    }
}

impl<W> Context<W> {
    /// A request of the peer came in now. It is worked on, or refused with a response.
    pub fn request_received_now(&mut self, request: &Request) -> (r: Result<RequestTask, Response>)
        requires
            old(self).wf(),
        ensures
            final(self).wf(),
            final(self).id == old(self).id,
            match r {
                Ok(task) => request_start(request@) is Some && starts(old(self)@, request@, task)
                    && final(self)@ == old(self)@.request_started(task.cseq),
                Err(response) => request_start(request@) is None && final(self)@ == old(self)@
                    && exists|date: Seq<char>|
                    response@ == #[trigger] refusal(request.version, date),
            },
    {
        let date = current_date();
        self.request_received(request, date.as_str())
    }
}

/// What is to be done next for a request.
#[derive(Clone, Copy, PartialEq, Eq, Structural, Debug)]
pub enum RequestStep {
    /// Ask for the session first: it may be known to the server.
    FindSession,
    /// Wait for the response.
    AwaitResponse,
}

/// What is heard about the response that a request is to be answered with.
pub enum RequestEvent {
    /// It is not there yet.
    StillWorking,
    /// It is there.
    Response(Response),
    /// There is none but an error.
    Failed(Error),
}

/// Whether the session is given in a response.
#[derive(Clone, Copy, PartialEq, Eq, Structural, Debug)]
pub enum SessionHeader {
    /// It is.
    Insert,
    /// It is not.
    Omit,
    /// It is if the session can be found.
    IfFound,
}

impl RequestTask {
    /// The session is known or unknown for requests that have one.
    pub open spec fn wf(self) -> bool {
        self.session_known is Some == self.session_id is Some
    }

    /// The session that has to be kept alive because of the request.
    pub open spec fn spec_kept_alive(self) -> Option<Seq<char>> {
        if self.session_known == Some(true) {
            opt_view(self.session_id)
        } else {
            None
        }
    }

    /// What is to be done next.
    pub open spec fn spec_next_step(self) -> RequestStep {
        if self.session_known == Some(false) {
            RequestStep::FindSession
        } else {
            RequestStep::AwaitResponse
        }
    }

    /// The response if the session was not found.
    pub open spec fn session_not_found(self) -> ResponseView {
        ResponseView::empty(self.version, StatusCode::SessionNotFound).with_header(
            "Session"@,
            (self.session_id->0)@,
        )
    }

    /// The response for what is heard.
    pub open spec fn spec_response(self, event: RequestEvent) -> ResponseView {
        match event {
            RequestEvent::StillWorking => ResponseView::empty(self.version, StatusCode::Continue),
            RequestEvent::Response(response) => response@,
            RequestEvent::Failed(error) => ResponseView::empty(
                self.version,
                error.spec_status_code(),
            ),
        }
    }

    /// The session that has to be kept alive because of the request: the one that it is for, if it
    /// is known.
    pub fn kept_alive(&self) -> (r: Option<String>)
        requires
            self.wf(),
        ensures
            opt_view(r) == self.spec_kept_alive(),
    {
        match self.session_known {
            Some(true) => self.session_id.clone(),
            _ => None,
        }
    }

    /// What is to be done next.
    pub fn next_step(&self) -> (r: RequestStep)
        ensures
            r == self.spec_next_step(),
    {
        match self.session_known {
            Some(false) => RequestStep::FindSession,
            _ => RequestStep::AwaitResponse,
        }
    }

    /// The session was asked for. If it was not found, there is a response already.
    pub fn session_checked(&mut self, found: bool) -> (r: Option<Response>)
        requires
            old(self).wf(),
            old(self).session_known == Some(false),
        ensures
            final(self).wf(),
            final(self).version == old(self).version,
            final(self).method == old(self).method,
            final(self).cseq == old(self).cseq,
            final(self).session_id == old(self).session_id,
            final(self).session_known == Some(found),
            match r {
                Some(response) => !found && response@ == old(self).session_not_found(),
                None => found,
            },
    {
        self.session_known = Some(found);
        if found {
            None
        } else {
            let mut response = Response::new(self.version, StatusCode::SessionNotFound);
            if let Some(session_id) = &self.session_id {
                response.insert_header("Session", session_id.as_str());
            }
            Some(response)
        }
    }

    /// The response for what is heard: to continue waiting, the response itself, or the status of
    /// the error.
    ///
    /// Whoever answers the request never tells the peer to go on waiting.
    pub fn response(&self, event: RequestEvent) -> (r: Response)
        requires
            event matches RequestEvent::Response(response) ==> response.status
                != StatusCode::Continue,
        ensures
            r@ == self.spec_response(event),
            event matches RequestEvent::Response(response) ==> r == response,
    {
        match event {
            RequestEvent::StillWorking => Response::new(self.version, StatusCode::Continue),
            RequestEvent::Response(response) => response,
            RequestEvent::Failed(error) => Response::new(self.version, error.status_code()),
        }
    }

    /// Whether the session is given in a response with this status. After an error, and after the
    /// end of a session was asked for, it need not be there any longer.
    pub open spec fn spec_session_header(self, status: StatusCode) -> SessionHeader {
        if self.session_id is None || self.method == Method::Describe {
            SessionHeader::Omit
        } else if status.spec_is_client_error() || status.spec_is_server_error() || self.method
            == Method::Teardown {
            SessionHeader::IfFound
        } else {
            SessionHeader::Insert
        }
    }

    /// Whether the session is given in a response with this status.
    pub fn session_header(&self, status: StatusCode) -> (r: SessionHeader)
        ensures
            r == self.spec_session_header(status),
    {
        if self.session_id.is_none() || self.method == Method::Describe {
            SessionHeader::Omit
        } else if status.is_client_error() || status.is_server_error() || self.method
            == Method::Teardown {
            SessionHeader::IfFound
        } else {
            SessionHeader::Insert
        }
    }

    /// The response as it is sent to the peer.
    ///
    /// `session_found` tells whether the session can be found now, which counts only where it
    /// decides.
    pub open spec fn outgoing(
        self,
        response: ResponseView,
        session_found: bool,
        date: Seq<char>,
    ) -> ResponseView {
        let with_session = match self.spec_session_header(response.status) {
            SessionHeader::Insert => true,
            SessionHeader::Omit => false,
            SessionHeader::IfFound => session_found,
        };
        let headers = match self.session_id {
            Some(session_id) => if with_session {
                with_header(response.headers, "Session"@, session_id@)
            } else {
                response.headers
            },
            None => response.headers,
        };
        ResponseView { headers: stamped(headers, self.cseq, date), ..response }
    }

    /// Makes a response ready to be sent to the peer. Returns whether the request is answered with
    /// it.
    pub fn send_response(&self, response: &mut Response, session_found: bool, date: &str) -> (r: bool)
        ensures
            final(response)@ == self.outgoing(old(response)@, session_found, date@),
            r == (old(response).status != StatusCode::Continue),
    {
        let with_session: bool = match self.session_header(response.status) {
            SessionHeader::Insert => true,
            SessionHeader::Omit => false,
            SessionHeader::IfFound => session_found,
        };
        if let Some(session_id) = &self.session_id {
            if with_session {
                response.headers.insert("Session", session_id.as_str());
            }
        }
        response.headers.insert_cseq(self.cseq);
        sign(&mut response.headers, date);
        response.status != StatusCode::Continue
    }

    /// Makes a response ready to be sent to the peer now.
    pub fn send_response_now(&self, response: &mut Response, session_found: bool) -> (r: bool)
        ensures
            exists|date: Seq<char>|
                final(response)@ == #[trigger] self.outgoing(old(response)@, session_found, date),
            r == (old(response).status != StatusCode::Continue),
    {
        let date = current_date();
        self.send_response(response, session_found, date.as_str())
    }
}

} // verus!
