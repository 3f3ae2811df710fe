use rtsp_server::channel::SendError;
use rtsp_server::client::context::{Context, PipelinedSession};
use rtsp_server::client::interleaved::{send_data_result, InterleavedChannelClosedError};
use rtsp_server::client::task::{
    goes_on, response_step, send_step, LoopEvent, RequestEvent, RequestStep, ResponseEvent,
    ResponseStep, SendEvent, SendStep, SessionHeader,
};
use rtsp_server::error::{Error, StatusCode};
use rtsp_server::headers::HeaderFields;
use rtsp_server::message::{Method, Request, Response, Version};
use rtsp_server::server::mounts::PresentationURI;
use rtsp_server::url::Url;

fn presentation() -> PresentationURI {
    PresentationURI { url: Url::parse("rtsp://h/a/").unwrap() }
}

fn client() -> Context<u8> {
    let mut client = Context::new(1);
    client.create_session("s", 9, presentation(), None);
    client
}

fn status(code: StatusCode) -> Error {
    Error::status(code)
}

fn no_session() -> Error {
    status(StatusCode::SessionNotFound)
}

#[test]
fn channels_as_asked_for_or_the_first_free() {
    let mut c = client();
    assert_eq!(c.register_interleaved_channel("t", None, 1), Err(no_session()));
    assert_eq!(c.register_interleaved_channel("s", Some(2), 2), Ok(2));
    assert_eq!(c.register_interleaved_channel("s", Some(3), 2), Ok(0));
    assert_eq!(c.register_interleaved_channel("s", None, 3), Ok(4));
    assert_eq!(c.register_interleaved_channel("s", Some(7), 0), Ok(7));
    assert_eq!(c.interleaved_channels.len(), 7);
    assert_eq!(c.channel_session(6).as_deref(), Some("s"));
    assert_eq!(c.channel_session(7), None);
    assert_eq!(c.interleaved_channel_closed(3).as_deref(), Some("s"));
    assert_eq!(c.interleaved_channel_closed(3), None);
    assert_eq!(c.register_interleaved_channel("s", None, 1), Ok(3));
}

#[test]
fn channels_out_of_range() {
    let mut c = client();
    let bad = Err(status(StatusCode::BadRequest));
    assert_eq!(c.register_interleaved_channel("s", None, 256), bad);
    assert_eq!(c.register_interleaved_channel("s", Some(255), 1), bad);
    assert_eq!(c.register_interleaved_channel("s", Some(254), 1), Ok(254));
    assert_eq!(c.register_interleaved_channel("s", None, 254), Ok(0));
    assert_eq!(
        c.register_interleaved_channel("s", None, 1),
        Err(status(StatusCode::UnsupportedTransport))
    );
}

#[test]
fn channels_for_own_session_only() {
    let mut c = client();
    assert_eq!(c.media_register_interleaved_channel(8, "s", None, 2), Err(Error::internal()));
    assert_eq!(c.media_register_interleaved_channel(9, "t", None, 2), Err(no_session()));
    assert_eq!(c.media_register_interleaved_channel(9, "s", None, 2), Ok(0));
    assert_eq!(c.check_media("s", 9), Ok(()));
    assert_eq!(c.check_media("s", 8), Err(Error::internal()));
    assert_eq!(c.check_media("t", 9), Err(no_session()));
}

#[test]
fn pipelined_requests_share_a_session() {
    let mut c: Context<u8> = Context::new(1);
    assert!(matches!(
        c.find_session_for_pipelined_request(5, 1),
        PipelinedSession::First(1)
    ));
    assert!(matches!(c.find_session_for_pipelined_request(5, 2), PipelinedSession::Waits));
    assert!(matches!(c.find_session_for_pipelined_request(5, 3), PipelinedSession::Waits));
    c.create_session("s", 9, presentation(), Some(5));
    assert_eq!(c.create_session_succeeded("s", Some(5)), [2, 3]);
    match c.find_session_for_pipelined_request(5, 4) {
        PipelinedSession::Found { session_id, media_id, presentation_uri } => {
            assert_eq!(session_id, "s");
            assert_eq!(media_id, 9);
            assert_eq!(presentation_uri.url.text, "rtsp://h/a/");
        }
        _ => panic!("no session"),
    }
    let (waiters, _) = c.pipelined_request_resolved(5, Ok(()));
    assert!(waiters.is_empty());
    assert!(matches!(
        c.find_session_for_pipelined_request(5, 6),
        PipelinedSession::Found { .. }
    ));
}

#[test]
fn pipelined_requests_share_an_error() {
    let mut c: Context<u8> = Context::new(1);
    c.find_session_for_pipelined_request(5, 1);
    c.find_session_for_pipelined_request(5, 2);
    let error = status(StatusCode::NotFound);
    assert_eq!(c.pipelined_request_resolved(5, Err(error)), (vec![2], error));
    c.find_session_for_pipelined_request(5, 1);
    c.find_session_for_pipelined_request(5, 3);
    assert_eq!(c.pipelined_request_resolved(5, Ok(())), (vec![3], Error::internal()));
    assert!(matches!(c.find_session_for_pipelined_request(5, 1), PipelinedSession::First(1)));
}

#[test]
fn sessions_are_found_and_created() {
    let mut c = client();
    let (media_id, uri) = c.find_session("s").unwrap();
    assert_eq!((media_id, uri.url.text.as_str()), (9, "rtsp://h/a/"));
    assert!(c.find_session("t").is_none());
    c.session_found("t", 8, presentation());
    c.session_found("t", 8, presentation());
    assert_eq!(c.find_session("t").unwrap().0, 8);
    assert!(c.has_session("t"));
    assert_eq!(c.create_session_succeeded("t", None), []);
    assert_eq!(c.keep_alive_session("t"), Ok(Some(8)));
    assert_eq!(c.keep_alive_session("u"), Err(no_session()));
}

#[test]
fn failed_session_is_dropped() {
    let mut c: Context<u8> = Context::new(1);
    c.find_session_for_pipelined_request(5, 1);
    c.create_session("s", 9, presentation(), Some(5));
    c.register_interleaved_channel("s", None, 2).unwrap();
    assert_eq!(c.create_session_failed("s", 9, Some(5)), (vec![0, 1], true));
    assert!(c.interleaved_channels.is_empty());
    assert_eq!(c.create_session_failed("s", 9, Some(5)), (vec![], false));
    assert!(!c.has_session("s"));
    assert!(c.pipelined_requests.is_empty());
}

#[test]
fn nothing_left_of_ended_sessions() {
    let mut c: Context<u8> = Context::new(1);
    c.find_session_for_pipelined_request(5, 1);
    c.create_session("s", 9, presentation(), Some(5));
    c.create_session("other", 8, presentation(), None);
    c.register_interleaved_channel("s", Some(4), 3).unwrap();
    c.register_interleaved_channel("other", None, 1).unwrap();
    c.register_interleaved_channel("s", None, 1).unwrap();
    assert_eq!(c.interleaved_channel_closed(5).as_deref(), Some("s"));
    assert_eq!(c.session_ended("s"), Some(vec![4, 6, 1]));
    assert_eq!(c.session_ended("s"), None);
    assert!(!c.session_medias.contains_key(&9));
    assert!(c.pipelined_requests.is_empty());
    assert_eq!(c.interleaved_channels.len(), 1);
    assert_eq!(c.channel_session(0).as_deref(), Some("other"));

    let mut c = client();
    c.register_interleaved_channel("s", None, 2).unwrap();
    assert_eq!(c.media_ended(8), None);
    assert_eq!(c.media_ended(9), Some(vec![0, 1]));
    assert!(!c.has_session("s"));

    let mut c = client();
    assert_eq!(c.register_interleaved_channel("s", Some(7), 2), Ok(7));
    assert_eq!(c.shutdown_session("t"), Err(no_session()));
    assert_eq!(c.shutdown_session("s"), Ok((Some(9), vec![7, 8])));
    assert!(!c.has_session("s"));
    c.create_session("t", 8, presentation(), None);
    assert_eq!(c.register_interleaved_channel("t", Some(7), 2), Ok(7));
}

#[test]
fn requests_get_sequence_numbers() {
    let mut c = client();
    let mut request = Request::new(Method::PlayNotify, Version::V2_0);
    assert_eq!(c.send_request(&mut request, "now"), 1);
    assert_eq!(request.headers.get("CSeq").as_deref(), Some("1"));
    assert_eq!(request.headers.get("Server").as_deref(), Some("GStreamer RTSP Server/0.0"));
    assert_eq!(request.headers.get("Date").as_deref(), Some("now"));
    let mut other = Request::new(Method::PlayNotify, Version::V2_0);
    assert_eq!(c.send_request_now(&mut other), 2);
    let date = other.headers.get("Date").unwrap();
    assert!(date.contains(':') && date.contains(", "), "{}", date);
    assert_eq!(c.response_received(&request.headers), Some(1));
    assert!(c.request_finished(1));
    assert!(!c.request_finished(1));
    assert_eq!(c.response_received(&request.headers), None);
    assert_eq!(c.response_received(&HeaderFields::new()), None);
    assert_eq!(c.send_request_failed(2, SendError::Full), (Error::internal(), true));
    assert_eq!(c.send_request_failed(2, SendError::Disconnected), (Error::internal(), false));
    assert_eq!(c.response_received(&other.headers), None);
}

#[test]
fn requests_are_numbered() {
    let mut c = client();
    let mut numbers = vec![];
    for i in 0..5 {
        let mut request = Request::new(Method::PlayNotify, Version::V2_0);
        let cseq = c.send_request(&mut request, "now");
        numbers.push(request.headers.get("CSeq").unwrap());
        match i {
            0 => assert!(c.send_request_failed(cseq, SendError::Full).1),
            1 => assert!(c.request_finished(cseq)),
            2 => c.request_started(1),
            _ => assert!(c.session_ended("unknown").is_none()),
        }
    }
    assert_eq!(numbers, vec!["1", "2", "3", "4", "5"]);
}

#[test]
fn responses_are_waited_for() {
    let fail = ResponseStep::Fail(Error::internal());
    assert_eq!(response_step(ResponseEvent::TimedOut), fail);
    assert_eq!(response_step(ResponseEvent::Disconnected), fail);
    assert_eq!(response_step(ResponseEvent::Received(StatusCode::Continue)), ResponseStep::Wait);
    assert_eq!(response_step(ResponseEvent::Received(StatusCode::Success)), ResponseStep::Deliver);
    assert_eq!(response_step(ResponseEvent::Received(StatusCode::NotFound)), ResponseStep::Deliver);
    assert_eq!(send_step(SendEvent::Sent), SendStep::Acknowledge);
    assert_eq!(send_step(SendEvent::Failed), SendStep::Report);
    assert_eq!(send_step(SendEvent::TimedOut), SendStep::Report);
    assert!(goes_on(LoopEvent::Message));
    for event in [
        LoopEvent::ControllerClosed,
        LoopEvent::Quit,
        LoopEvent::SenderError,
        LoopEvent::SenderFull,
        LoopEvent::MessagesEnded,
        LoopEvent::ReadError,
        LoopEvent::ReadTimedOut,
        LoopEvent::Disconnected,
    ] {
        assert!(!goes_on(event));
    }
}

fn request(method: Method, headers: &[(&str, &str)]) -> Request {
    let mut request = Request::new(method, Version::V1_0);
    for (name, value) in headers {
        request.headers.insert(name, value);
    }
    request
}

#[test]
fn requests_without_sequence_number_are_refused() {
    let mut c = client();
    for bad in [
        request(Method::Play, &[]),
        request(Method::Play, &[("CSeq", "x")]),
        request(Method::Play, &[("CSeq", "1"), ("Session", "s;timeout=x")]),
        request(Method::Describe, &[("CSeq", "1"), ("Session", "s")]),
    ] {
        let response = c.request_received(&bad, "now").err().unwrap();
        assert_eq!(response.status, StatusCode::BadRequest);
        assert_eq!(response.headers.get("CSeq"), None);
        assert_eq!(response.headers.get("Server").as_deref(), Some("GStreamer RTSP Server/0.0"));
        assert_eq!(response.headers.get("Date").as_deref(), Some("now"));
        assert!(c.request_received_now(&bad).is_err());
    }
    assert!(c.pending_requests.is_empty());
}

#[test]
fn requests_are_worked_on() {
    let mut c = client();
    let known = request(Method::Play, &[("CSeq", "7"), ("Session", "s")]);
    let task = c.request_received(&known, "now").ok().unwrap();
    assert_eq!(task.cseq, 7);
    assert_eq!(task.session_known, Some(true));
    assert_eq!(task.kept_alive().as_deref(), Some("s"));
    assert_eq!(task.next_step(), RequestStep::AwaitResponse);
    assert!(c.pending_requests.contains(&7));
    assert_eq!(c.shutdown(), (vec![], vec![7]));
    assert!(c.response_finished(7));
    assert!(!c.response_finished(7));

    let unknown = request(Method::Play, &[("CSeq", "8"), ("Session", "t")]);
    let mut task = c.request_received_now(&unknown).ok().unwrap();
    assert_eq!(task.kept_alive(), None);
    assert_eq!(task.next_step(), RequestStep::FindSession);
    let response = task.session_checked(false).unwrap();
    assert_eq!(response.status, StatusCode::SessionNotFound);
    assert_eq!(response.headers.get("Session").as_deref(), Some("t"));

    let mut task = c.request_received(&unknown, "now").ok().unwrap();
    assert!(task.session_checked(true).is_none());
    assert_eq!(task.next_step(), RequestStep::AwaitResponse);

    let describe = request(Method::Describe, &[("CSeq", "9")]);
    let task = c.request_received(&describe, "now").ok().unwrap();
    assert_eq!(task.session_known, None);
    assert_eq!(task.next_step(), RequestStep::AwaitResponse);
}

#[test]
fn responses_are_completed() {
    let mut c = client();
    let known = request(Method::Play, &[("CSeq", "7"), ("Session", "s;timeout=60")]);
    let task = c.request_received(&known, "now").ok().unwrap();

    let mut response = task.response(RequestEvent::StillWorking);
    assert_eq!(response.status, StatusCode::Continue);
    assert!(!task.send_response(&mut response, false, "now"));
    assert_eq!(response.headers.get("Session").as_deref(), Some("s"));
    assert_eq!(response.headers.get("CSeq").as_deref(), Some("7"));

    let mut response = task.response(RequestEvent::Failed(status(StatusCode::NotFound)));
    assert_eq!(response.status, StatusCode::NotFound);
    assert!(task.send_response(&mut response, true, "now"));
    assert_eq!(response.headers.get("Session").as_deref(), Some("s"));
    assert_eq!(response.headers.get("Date").as_deref(), Some("now"));

    let own = Response::new(Version::V1_0, StatusCode::Success);
    let mut response = task.response(RequestEvent::Response(own));
    assert!(task.send_response_now(&mut response, true));
    assert_eq!(response.headers.get("Session").as_deref(), Some("s"));
    assert_eq!(response.status, StatusCode::Success);
}

#[test]
fn session_in_responses() {
    let mut c = client();
    let errors =
        [StatusCode::NotFound, StatusCode::InternalServerError, StatusCode::OptionNotSupported];
    let play = request(Method::Play, &[("CSeq", "7"), ("Session", "s")]);
    let task = c.request_received(&play, "now").ok().unwrap();
    assert_eq!(task.session_header(StatusCode::Success), SessionHeader::Insert);
    assert_eq!(task.session_header(StatusCode::Continue), SessionHeader::Insert);
    for status in errors {
        assert_eq!(task.session_header(status), SessionHeader::IfFound);
        let mut gone = Response::new(Version::V1_0, status);
        task.send_response(&mut gone, false, "now");
        assert_eq!(gone.headers.get("Session"), None);
        assert_eq!(gone.headers.get("CSeq").as_deref(), Some("7"));
        let mut there = Response::new(Version::V1_0, status);
        task.send_response(&mut there, true, "now");
        assert_eq!(there.headers.get("Session").as_deref(), Some("s"));
    }
    let teardown = request(Method::Teardown, &[("CSeq", "7"), ("Session", "s")]);
    let task = c.request_received(&teardown, "now").ok().unwrap();
    assert_eq!(task.session_header(StatusCode::InternalServerError), SessionHeader::IfFound);
    assert_eq!(task.session_header(StatusCode::Success), SessionHeader::IfFound);
    let options = request(Method::Options, &[("CSeq", "7")]);
    let task = c.request_received(&options, "now").ok().unwrap();
    assert_eq!(task.session_header(StatusCode::InternalServerError), SessionHeader::Omit);
    let describe = request(Method::Describe, &[("CSeq", "7")]);
    let task = c.request_received(&describe, "now").ok().unwrap();
    assert_eq!(task.session_header(StatusCode::InternalServerError), SessionHeader::Omit);
}

#[test]
fn interleaved_data() {
    assert_eq!(send_data_result(3, true, true), Ok(()));
    let closed = InterleavedChannelClosedError { channel_id: 3 };
    assert_eq!(send_data_result(3, false, false), Err(closed));
    assert_eq!(send_data_result(3, true, false), Err(closed));
    assert_eq!(closed.channel_id(), 3);
    assert_eq!(closed.text(), "Channel 3 was closed");
}
