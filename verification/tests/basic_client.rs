use rtsp_server::client::basic_client::client::{Client, Handling, PlayNotifyMessage};
use rtsp_server::client::basic_client::describe::{finish_describe, DescribeStart};
use rtsp_server::client::basic_client::lookup::{SessionLookup, Target};
use rtsp_server::client::basic_client::options::{
    answer_server_options, finish_options, OptionsReply, OptionsStart,
};
use rtsp_server::client::basic_client::playback::{
    check_aggregate, finish_pause, finish_play, PauseReply, PlayReply,
};
use rtsp_server::client::basic_client::setup::{
    add_setup_extra_data, existing_target, finish_setup, setup_report, PipelinedNext,
    PipelinedReply, SetupReply, SetupStart,
};
use rtsp_server::client::basic_client::teardown::{finish_teardown, teardown_step, TeardownStep};
use rtsp_server::error::{Error, StatusCode};
use rtsp_server::extra_data::{
    default_extra_data, default_extra_data_for_request, Extra, ExtraData, CONNECTION_INFORMATION,
    EXTRA_HEADERS, ORIGINAL_REQUEST, PRESENTATION_URI, SESSION_ID,
};
use rtsp_server::message::{Method, Request, Response, Version};
use rtsp_server::rtp_info::{RtpInfo, RtpInfos, SsrcInfo, StreamInfo};
use rtsp_server::server::mounts::PresentationURI;
use rtsp_server::typemap::TypeMap;
use rtsp_server::url::Url;
use std::sync::Arc;

type Data = ExtraData<u8>;

fn request(method: Method, version: Version, uri: Option<&str>, headers: &[(&str, &str)]) -> Request {
    let mut request = Request::new(method, version);
    request.request_uri = uri.map(|uri| Url::parse(uri).unwrap());
    for (name, value) in headers {
        request.headers.insert(name, value);
    }
    request
}

fn presentation(text: &str) -> PresentationURI {
    PresentationURI { url: Url::parse(text).unwrap() }
}

fn url(text: &str) -> Url {
    Url::parse(text).unwrap()
}

fn mount() -> PresentationURI {
    presentation("rtsp://h/m/")
}

fn with_headers(headers: &[(&str, &str)]) -> Data {
    let mut data = TypeMap::new();
    let headers = headers.iter().map(|(n, v)| (n.to_string(), v.to_string())).collect();
    data.insert(EXTRA_HEADERS, Extra::ExtraHeaders(headers));
    data
}

fn err(code: StatusCode) -> Error {
    Error::status(code)
}

fn header(response: &Response, name: &str) -> Option<String> {
    response.headers.get(name)
}

fn target(stream: Option<&str>) -> Target {
    let uri = match stream {
        Some(stream) => format!("rtsp://h/m/{}", stream),
        None => "rtsp://h/m/".to_string(),
    };
    let lookup = SessionLookup { uri: Url::parse(&uri).unwrap(), session_id: "s".to_string() };
    let lookup = lookup.session_found(Ok((9, mount()))).ok().unwrap();
    let lookup = lookup.media_factory_found(Ok(3)).ok().unwrap();
    lookup.uri_found(Ok((3, mount()))).ok().unwrap()
}

#[test]
fn targets_are_looked_up() {
    let found = target(Some("x"));
    assert_eq!(found.session_id, "s");
    assert_eq!(found.media_id, 9);
    assert_eq!(found.stream_id.unwrap().as_str(), "x");
    assert!(target(None).stream_id.is_none());

    let start = || SessionLookup {
        uri: Url::parse("rtsp://h/m/x").unwrap(),
        session_id: "s".to_string(),
    };
    let gone = err(StatusCode::SessionNotFound);
    assert_eq!(start().session_found(Err(gone)).err(), Some(gone));
    let second = || start().session_found(Ok((9, mount()))).ok().unwrap();
    assert_eq!(second().media_factory_found(Err(gone)).err(), Some(gone));
    let third = || second().media_factory_found(Ok(3)).ok().unwrap();
    assert_eq!(third().uri_found(Err(gone)).err(), Some(gone));
    let not_found = Some(err(StatusCode::NotFound));
    assert_eq!(third().uri_found(Ok((4, mount()))).err(), not_found);
    assert_eq!(third().uri_found(Ok((3, presentation("rtsp://h/n/")))).err(), not_found);
}

#[test]
fn methods_are_told_apart() {
    let mut client = Client::default();
    assert_eq!(client.rtsp_version, None);
    let uri = Some("rtsp://h/m/");
    let mut handle = |method| client.handle_request(&request(method, Version::V1_0, uri, &[]));
    assert!(matches!(handle(Method::Options), Handling::Options(_)));
    assert!(matches!(handle(Method::Describe), Handling::Describe(_)));
    assert!(matches!(handle(Method::Setup), Handling::Setup(Err(_))));
    assert!(matches!(handle(Method::Play), Handling::Play(Err(_))));
    assert!(matches!(handle(Method::Pause), Handling::Pause(Err(_))));
    assert!(matches!(handle(Method::Teardown), Handling::Teardown(Err(_))));
    assert!(matches!(handle(Method::GetParameter), Handling::Answer(Ok(_))));
    assert!(matches!(handle(Method::SetParameter), Handling::Answer(Ok(_))));
    for method in [Method::Announce, Method::Record, Method::Redirect, Method::Extension] {
        match handle(method) {
            Handling::Answer(Ok(response)) => {
                assert_eq!(response.status, StatusCode::MethodNotAllowed)
            }
            _ => panic!("not answered"),
        }
    }
    assert_eq!(client.rtsp_version, Some(Version::V1_0));
}

const PUBLIC: &str = "OPTIONS, DESCRIBE, SETUP, PLAY, PAUSE, TEARDOWN, GET_PARAMETER, SET_PARAMETER";

#[test]
fn options_of_the_server() {
    let client = Client::default();
    let plain = request(Method::Options, Version::V2_0, None, &[("Require", "play.basic")]);
    let options = match client.handle_options(&plain) {
        OptionsStart::Server(options) => options,
        _ => panic!("not for the server"),
    };
    let response = answer_server_options(&options);
    assert_eq!(response.status, StatusCode::Success);
    assert_eq!(header(&response, "Public").as_deref(), Some(PUBLIC));
    assert_eq!(header(&response, "Supported").as_deref(), Some("play.basic, setup.rtp.rtcp.mux"));
    assert_eq!(header(&response, "Unsupported"), None);

    let asking = request(Method::Options, Version::V1_0, None, &[("Require", "a, play.basic, b, a")]);
    let options = match client.handle_options(&asking) {
        OptionsStart::Server(options) => options,
        _ => panic!("not for the server"),
    };
    let response = answer_server_options(&options);
    assert_eq!(response.status, StatusCode::OptionNotSupported);
    assert_eq!(response.reason_phrase, "Ok");
    assert_eq!(header(&response, "Supported"), None);
    assert_eq!(header(&response, "Unsupported").as_deref(), Some("a, b"));
}

fn names(list: &[&str]) -> Vec<String> {
    list.iter().map(|s| s.to_string()).collect()
}

fn reply(allow: Option<&[&str]>, extra: Option<Data>) -> OptionsReply<u8> {
    OptionsReply {
        allow: allow.map(names),
        supported: names(&["x"]),
        unsupported: Vec::new(),
        extra_data: extra,
    }
}

#[test]
fn options_give_what_is_allowed() {
    let none = Vec::new();
    let finish = |reply| finish_options(Version::V2_0, &none, Ok(reply)).ok().unwrap();
    let response = finish(reply(Some(&["PLAY", "PAUSE"]), None));
    assert_eq!(header(&response, "Allow").as_deref(), Some("PLAY, PAUSE"));
    let all: Vec<&str> = PUBLIC.split(", ").collect();
    assert_eq!(header(&finish(reply(Some(&all), None)), "Allow"), None);
    assert_eq!(header(&finish(reply(Some(&[]), None)), "Allow"), None);
    assert_eq!(header(&finish(reply(None, None)), "Allow"), None);
    let extra = with_headers(&[("Public", "PLAY"), ("X", "y")]);
    let response = finish(reply(Some(&["PLAY"]), Some(extra)));
    assert_eq!(header(&response, "Allow"), None);
    assert_eq!(header(&response, "X").as_deref(), Some("y"));
    let required = names(&["x", "z"]);
    let response = finish_options(Version::V2_0, &required, Ok(reply(Some(&["PLAY"]), None)));
    let response = response.ok().unwrap();
    assert_eq!(header(&response, "Allow"), None);
    assert_eq!(header(&response, "Unsupported").as_deref(), Some("z"));
    let gone = err(StatusCode::NotFound);
    assert_eq!(finish_options::<u8>(Version::V2_0, &none, Err(gone)).err(), Some(gone));
}

#[test]
fn options_of_uris() {
    let client = Client::default();
    let uri = Some("rtsp://h/m/x");
    let start = || match client.handle_options(&request(Method::Options, Version::V1_0, uri, &[])) {
        OptionsStart::Uri(_, next) => next,
        _ => panic!("not for a URI"),
    };
    let mut data: Data = TypeMap::new();
    let (id, stream) = start()
        .uri_found(Ok((3, mount(), with_headers(&[]))), &mut data)
        .ok()
        .unwrap();
    assert_eq!(id, 3);
    assert_eq!(stream.unwrap().as_str(), "x");
    assert!(matches!(data.get(PRESENTATION_URI), Some(Extra::PresentationURI(_))));
    assert!(data.contains(EXTRA_HEADERS));
    let mut data: Data = TypeMap::new();
    let other = Ok((3, presentation("rtsp://h/n/"), TypeMap::new()));
    assert_eq!(start().uri_found(other, &mut data).err(), Some(err(StatusCode::NotFound)));
    assert!(!data.contains(PRESENTATION_URI));
}

#[test]
fn options_of_sessions() {
    let client = Client::default();
    let asking = request(Method::Options, Version::V1_0, Some("rtsp://h/m/x"), &[("Session", "s")]);
    let start = || match client.handle_options(&asking) {
        OptionsStart::Session(_, next) => next,
        _ => panic!("not for a session"),
    };
    let gone = Some(err(StatusCode::SessionNotFound));
    let second = || start().uri_found(Ok((3, mount()))).ok().unwrap();
    assert_eq!(second().session_id, "s");
    assert_eq!(second().session_found(Ok((9, presentation("rtsp://h/n/")))).err(), gone);
    let third = || second().session_found(Ok((9, mount()))).ok().unwrap();
    let mut data: Data = TypeMap::new();
    assert_eq!(third().media_factory_found(Ok(4), &TypeMap::new(), &mut data).err(), gone);
    let (media_id, stream) =
        third().media_factory_found(Ok(3), &TypeMap::new(), &mut data).ok().unwrap();
    assert_eq!(media_id, 9);
    assert_eq!(stream.unwrap().as_str(), "x");
    assert!(matches!(data.get(SESSION_ID), Some(Extra::SessionId(id)) if id == "s"));
    let failed = err(StatusCode::NotFound);
    assert_eq!(start().uri_found(Err(failed)).err(), Some(failed));
    assert_eq!(second().session_found(Err(failed)).err(), Some(failed));
    assert_eq!(
        third().media_factory_found(Err(failed), &TypeMap::new(), &mut data).err(),
        Some(failed)
    );
}

fn describe(uri: Option<&str>, accept: Option<&str>) -> DescribeStart {
    let headers: Vec<(&str, &str)> = accept.map(|a| ("Accept", a)).into_iter().collect();
    Client::default().handle_describe(&request(Method::Describe, Version::V1_0, uri, &headers))
}

#[test]
fn descriptions_have_to_be_acceptable() {
    let uri = Some("rtsp://h/m/");
    for good in ["application/sdp", "text/plain, application/*", "*/*", "*/sdp", " application/sdp;q=1"] {
        assert!(matches!(describe(uri, Some(good)), DescribeStart::Find(_)), "{}", good);
    }
    assert!(matches!(describe(uri, None), DescribeStart::Find(_)));
    for bad in ["text/plain", "application/xml", "text/sdp, audio/*"] {
        match describe(uri, Some(bad)) {
            DescribeStart::Answer(Ok(response)) => {
                assert_eq!(response.status, StatusCode::NotAcceptable)
            }
            _ => panic!("accepted {}", bad),
        }
    }
    assert!(matches!(
        describe(uri, Some("sdp")),
        DescribeStart::Answer(Err(e)) if e == err(StatusCode::BadRequest)
    ));
    match describe(None, None) {
        DescribeStart::Answer(Ok(response)) => assert_eq!(response.status, StatusCode::NotFound),
        _ => panic!("described"),
    }
}

#[test]
fn presentations_are_described() {
    let start = |uri| match describe(Some(uri), None) {
        DescribeStart::Find(next) => next,
        _ => panic!("not described"),
    };
    let mut data: Data = TypeMap::new();
    let found = || Ok((3, mount(), TypeMap::new()));
    let (id, uri) = start("rtsp://h/m").uri_found(found(), &mut data).ok().unwrap();
    assert_eq!((id, uri.url.text.as_str()), (3, "rtsp://h/m/"));
    assert!(data.contains(PRESENTATION_URI));
    let not_found = Some(err(StatusCode::NotFound));
    assert_eq!(start("rtsp://h/m/x").uri_found(found(), &mut data).err(), not_found);
    assert_eq!(start("rtsp://h/n").uri_found(found(), &mut data).err(), not_found);

    let text = b"v=0\r\no=- 1 1 IN IP4 127.0.0.1\r\ns=test\r\nt=0 0\r\n";
    let session = sdp_types::Session::parse(text).unwrap();
    let mut written = Vec::new();
    session.write(&mut written).unwrap();
    let extra = with_headers(&[("X", "y")]);
    let response = finish_describe(Version::V1_0, &uri, Ok((session, extra))).ok().unwrap();
    assert_eq!(response.status, StatusCode::Success);
    assert_eq!(response.body, written);
    assert!(response.body.starts_with(b"v=0\r\no=- 1 1 IN IP4 127.0.0.1\r\ns=test\r\n"));
    assert_eq!(header(&response, "Content-Type").as_deref(), Some("application/sdp"));
    assert_eq!(header(&response, "Content-Base").as_deref(), Some("rtsp://h/m/"));
    assert_eq!(header(&response, "Content-Length"), Some(written.len().to_string()));
    assert_eq!(header(&response, "X").as_deref(), Some("y"));
    let gone = err(StatusCode::NotFound);
    assert_eq!(finish_describe::<u8>(Version::V1_0, &uri, Err(gone)).err(), Some(gone));
}

const TRANSPORT: (&str, &str) = ("Transport", "RTP/AVP/TCP;unicast;interleaved=0-1");

#[test]
fn setup_requests() {
    let client = Client::default();
    let uri = Some("rtsp://h/m/x");
    let setup = |uri, headers: &[(&str, &str)]| {
        client.handle_setup(&request(Method::Setup, Version::V2_0, uri, headers))
    };
    let bad = Some(err(StatusCode::BadRequest));
    assert_eq!(setup(uri, &[]).err(), bad);
    assert_eq!(setup(None, &[TRANSPORT]).err(), bad);
    assert_eq!(setup(uri, &[("Transport", "RTP/AVP/TCP;interleaved=x")]).err(), bad);
    assert_eq!(setup(uri, &[TRANSPORT, ("Pipelined-Requests", "x")]).err(), bad);
    assert_eq!(setup(uri, &[TRANSPORT, ("Session", "s;timeout=x")]).err(), bad);
    let (request, start) = setup(uri, &[TRANSPORT]).ok().unwrap();
    assert_eq!(request.transports, TRANSPORT.1);
    assert_eq!(request.accept_ranges, None);
    assert!(matches!(start, SetupStart::Create(c) if !c.report));
    let pipelined = ("Pipelined-Requests", "5");
    let (request, start) = setup(uri, &[TRANSPORT, pipelined, ("Accept-Ranges", "npt")]).ok().unwrap();
    assert_eq!(request.pipelined_request, Some(5));
    assert_eq!(request.accept_ranges.as_deref(), Some("npt"));
    assert!(matches!(start, SetupStart::Pipelined(p) if p.request == 5));
    let (_, start) = setup(uri, &[TRANSPORT, pipelined, ("Session", "s")]).ok().unwrap();
    assert!(matches!(start, SetupStart::Session(s) if s.session_id == "s"));
}

#[test]
fn setup_requests_with_stray_quotes() {
    let setup = |transport: &str| {
        let mut client = Client::default();
        let headers = [("Transport", transport)];
        let request = request(Method::Setup, Version::V2_0, Some("rtsp://h/m/x"), &headers);
        let handling = client.handle_request(&request);
        assert_eq!(client.rtsp_version, Some(Version::V2_0));
        match handling {
            Handling::Setup(setup) => setup.map(|(setup, _)| setup.transports).ok(),
            _ => unreachable!(),
        }
    };
    assert_eq!(setup("RTP/AVP;mode=\""), None);
    assert_eq!(setup("RTP/AVP;a b;mode=\""), None);
    let later = "RTP/AVP;dest_addr=\"/\";dest_addr=\"a\"";
    assert_eq!(setup(later).as_deref(), Some(later));
    assert_eq!(setup(TRANSPORT.1).as_deref(), Some(TRANSPORT.1));
}

#[test]
fn setup_creates_sessions() {
    let client = Client::default();
    let begin = |uri| {
        let asking = request(
            Method::Setup,
            Version::V2_0,
            Some(uri),
            &[TRANSPORT, ("Pipelined-Requests", "5")],
        );
        match client.handle_setup(&asking).ok().unwrap().1 {
            SetupStart::Pipelined(next) => next,
            _ => panic!("not pipelined"),
        }
    };
    let first = |uri| match begin(uri).session_found(PipelinedReply::First) {
        Ok(PipelinedNext::Create(next)) => next,
        _ => panic!("not the first"),
    };
    let mut data: Data = TypeMap::new();
    let found = || Ok((3, mount(), TypeMap::new()));
    let not_found = err(StatusCode::NotFound);
    assert_eq!(first("rtsp://h/m/").uri_found(found(), &mut data).err(), Some(not_found));
    assert_eq!(
        first("rtsp://h/m/x").uri_found(Err(not_found), &mut data).err(),
        Some(not_found)
    );
    let media = || {
        let mut data: Data = TypeMap::new();
        first("rtsp://h/m/x").uri_found(found(), &mut data).ok().unwrap()
    };
    assert_eq!(media().media_factory_id, 3);
    assert_eq!(media().media_created(Err(not_found)).err(), Some(not_found));
    let session = || media().media_created(Ok(9)).ok().unwrap();
    assert!(session().report);
    let failed = session().session_created(Err(not_found));
    assert_eq!(setup_report(true, &failed), Some(Err(not_found)));
    assert_eq!(setup_report(false, &failed), None);
    let outcome = session().session_created(Ok("s".to_string()));
    assert_eq!(setup_report(true, &outcome), Some(Ok(())));
    let target = outcome.ok().unwrap();
    assert_eq!((target.media_id, target.session_id.as_str()), (9, "s"));
    assert_eq!(target.stream_id.as_str(), "x");
    add_setup_extra_data(&mut data, &target);
    assert!(data.contains(SESSION_ID) && data.contains(PRESENTATION_URI));

    let existing = PipelinedReply::Found(Ok(("s".to_string(), 9, mount())));
    match begin("rtsp://h/m/x").session_found(existing) {
        Ok(PipelinedNext::Existing(next)) => assert_eq!(next.media_id, 9),
        _ => panic!("no session"),
    }
    let refused = begin("rtsp://h/m/x").session_found(PipelinedReply::Found(Err(not_found)));
    assert_eq!(refused.err(), Some(not_found));
}

#[test]
fn setup_needs_a_stream() {
    assert_eq!(existing_target(target(None)).err(), Some(err(StatusCode::NotFound)));
    assert_eq!(existing_target(target(Some("x"))).ok().unwrap().stream_id.as_str(), "x");
}

#[test]
fn setup_responses() {
    let reply = || SetupReply {
        transport: "T".to_string(),
        media_properties: "P".to_string(),
        accept_ranges: "npt".to_string(),
        media_range: Some("npt=0-".to_string()),
        extra_data: with_headers(&[("X", "y")]),
    };
    let old = finish_setup(Version::V1_0, "s", Ok(reply()));
    assert_eq!(header(&old, "Session").as_deref(), Some("s"));
    assert_eq!(header(&old, "Transport").as_deref(), Some("T"));
    assert_eq!(header(&old, "X").as_deref(), Some("y"));
    assert_eq!(header(&old, "Media-Properties"), None);
    assert_eq!(header(&old, "Accept-Ranges"), None);
    assert_eq!(header(&old, "Media-Range"), None);
    let new = finish_setup(Version::V2_0, "s", Ok(reply()));
    assert_eq!(header(&new, "Media-Properties").as_deref(), Some("P"));
    assert_eq!(header(&new, "Accept-Ranges").as_deref(), Some("npt"));
    assert_eq!(header(&new, "Media-Range").as_deref(), Some("npt=0-"));
    let failed = finish_setup::<u8>(Version::V1_0, "s", Err(err(StatusCode::UnsupportedTransport)));
    assert_eq!(failed.status, StatusCode::UnsupportedTransport);
    assert_eq!(header(&failed, "Session").as_deref(), Some("s"));
}

#[test]
fn play_requests() {
    let client = Client::default();
    let play = |uri, headers: &[(&str, &str)]| {
        client.handle_play(&request(Method::Play, Version::V2_0, uri, headers))
    };
    let uri = Some("rtsp://h/m/");
    let bad = Some(err(StatusCode::BadRequest));
    let session = ("Session", "s");
    assert_eq!(play(uri, &[]).err(), Some(err(StatusCode::SessionNotFound)));
    assert_eq!(play(None, &[session]).err(), bad);
    assert_eq!(play(uri, &[("Session", "s;timeout=x")]).err(), bad);
    assert_eq!(play(uri, &[session, ("Range", "npt=x")]).err(), bad);
    assert_eq!(play(uri, &[session, ("Scale", "x")]).err(), bad);
    assert_eq!(play(uri, &[session, ("Speed", "x")]).err(), bad);
    let (asked, next) = play(uri, &[session, ("Range", "npt=0-"), ("Scale", "2.0")]).ok().unwrap();
    assert_eq!(asked.range.as_deref(), Some("npt=0-"));
    assert_eq!(asked.scale.as_deref(), Some("2.0"));
    assert_eq!(asked.speed, None);
    assert_eq!(next.session_id, "s");
    let pause = request(Method::Pause, Version::V2_0, uri, &[session]);
    assert_eq!(client.handle_pause(&pause).ok().unwrap().session_id, "s");
}

#[test]
fn single_streams_are_not_played() {
    let mut data: Data = TypeMap::new();
    assert_eq!(
        check_aggregate(&target(Some("x")), &mut data),
        Err(err(StatusCode::MethodNotAllowed))
    );
    assert_eq!(check_aggregate(&target(None), &mut data), Ok(()));
    assert!(matches!(data.get(SESSION_ID), Some(Extra::SessionId(id)) if id == "s"));
    assert!(data.contains(PRESENTATION_URI));
}

fn stream_info(uri: &str, sources: &[(u32, Option<u16>, Option<u32>)]) -> StreamInfo {
    StreamInfo {
        uri: url(uri),
        ssrc_infos: sources
            .iter()
            .map(|&(ssrc, seq, rtptime)| SsrcInfo { ssrc, seq, rtptime, others: vec![] })
            .collect(),
    }
}

fn rtp_info(uri: &str, seq: Option<u16>, rtptime: Option<u32>) -> RtpInfo {
    RtpInfo { uri: url(uri), seq, rtptime }
}

#[test]
fn play_responses() {
    let reply = |rtp_infos| PlayReply {
        range: "npt=0-".to_string(),
        rtp_infos,
        seek_style: Some("RAP".to_string()),
        scale: Some("2".to_string()),
        speed: None,
        extra_data: with_headers(&[("Speed", "9")]),
    };
    let single = || {
        RtpInfos::V2(vec![stream_info("rtsp://a/b", &[(0x0A13C760, Some(45102), Some(12345678))])])
    };
    let new = finish_play(Version::V2_0, "s", Ok(reply(single()))).ok().unwrap();
    assert_eq!(header(&new, "Session").as_deref(), Some("s"));
    assert_eq!(header(&new, "Range").as_deref(), Some("npt=0-"));
    assert_eq!(
        header(&new, "RTP-Info").as_deref(),
        Some("url=\"rtsp://a/b\" ssrc=0A13C760:seq=45102;rtptime=12345678")
    );
    assert_eq!(header(&new, "Seek-Style").as_deref(), Some("RAP"));
    assert_eq!(header(&new, "Scale").as_deref(), Some("2"));
    assert_eq!(header(&new, "Speed").as_deref(), Some("9"));
    let old = finish_play(Version::V1_0, "s", Ok(reply(single()))).ok().unwrap();
    assert_eq!(
        header(&old, "RTP-Info").as_deref(),
        Some("url=rtsp://a/b;seq=45102;rtptime=12345678")
    );
    assert_eq!(header(&old, "Seek-Style"), None);
    let many = RtpInfos::V2(vec![stream_info(
        "rtsp://a/b",
        &[(0x0A13C760, Some(1), None), (0x0A13C761, Some(2), None)],
    )]);
    assert_eq!(
        finish_play(Version::V1_0, "s", Ok(reply(many))).err(),
        Some(err(StatusCode::UnsupportedTransport))
    );
    let mut no_uri = url("rtsp://a/b");
    no_uri.text = "nonsense".to_string();
    let no_url = RtpInfos::V1(vec![RtpInfo { uri: no_uri, seq: None, rtptime: None }]);
    assert_eq!(
        finish_play(Version::V1_0, "s", Ok(reply(no_url))).err(),
        Some(Error::internal())
    );
    let gone = err(StatusCode::SessionNotFound);
    assert_eq!(finish_play::<u8>(Version::V1_0, "s", Err(gone)).err(), Some(gone));
}

#[test]
fn rtp_infos_of_old_version() {
    let written = |rtp_infos| {
        let reply = PlayReply {
            range: "npt=0-".to_string(),
            rtp_infos,
            seek_style: None,
            scale: None,
            speed: None,
            extra_data: with_headers(&[]),
        };
        header(&finish_play(Version::V1_0, "s", Ok(reply)).ok().unwrap(), "RTP-Info")
    };
    assert_eq!(written(RtpInfos::V1(vec![])).as_deref(), Some(""));
    assert_eq!(written(RtpInfos::V2(vec![])).as_deref(), Some(""));
    assert_eq!(
        written(RtpInfos::V1(vec![
            rtp_info("rtsp://a/b,c;d", Some(1), None),
            rtp_info("rtsp://a/e", None, Some(2)),
            rtp_info("rtsp://a/f", None, None),
        ]))
        .as_deref(),
        Some("url=rtsp://a/b,c;d;seq=1,url=rtsp://a/e;rtptime=2,url=rtsp://a/f")
    );
    assert_eq!(
        written(RtpInfos::V2(vec![
            stream_info("rtsp://a/b", &[(1, None, Some(3))]),
            stream_info("rtsp://a/c", &[(2, Some(4), None)]),
        ]))
        .as_deref(),
        Some("url=rtsp://a/b;rtptime=3,url=rtsp://a/c;seq=4")
    );
    let several = RtpInfos::V2(vec![stream_info("rtsp://a/b", &[])]);
    assert!(several.try_into_v1().is_err());
}

#[test]
fn pause_responses() {
    let reply = PauseReply {
        range: "npt=5-".to_string(),
        extra_data: with_headers(&[("X", "y")]),
    };
    let response = finish_pause(Version::V1_0, "s", Ok(reply)).ok().unwrap();
    assert_eq!(header(&response, "Session").as_deref(), Some("s"));
    assert_eq!(header(&response, "Range").as_deref(), Some("npt=5-"));
    assert_eq!(header(&response, "X").as_deref(), Some("y"));
    let gone = err(StatusCode::SessionNotFound);
    assert_eq!(finish_pause::<u8>(Version::V1_0, "s", Err(gone)).err(), Some(gone));
}

#[test]
fn teardown_of_streams_and_sessions() {
    let client = Client::default();
    let uri = Some("rtsp://h/m/");
    let bad = Some(err(StatusCode::BadRequest));
    let teardown = |uri, headers: &[(&str, &str)]| {
        client.handle_teardown(&request(Method::Teardown, Version::V1_0, uri, headers))
    };
    assert_eq!(teardown(uri, &[]).err(), bad);
    assert_eq!(teardown(None, &[("Session", "s")]).err(), bad);
    assert_eq!(teardown(uri, &[("Session", "s;timeout=x")]).err(), bad);
    assert_eq!(teardown(uri, &[("Session", "s")]).ok().unwrap().session_id, "s");
    let mut data: Data = TypeMap::new();
    assert!(matches!(
        teardown_step(&target(Some("x")), &mut data),
        TeardownStep::RemoveTransport(9, id) if id.as_str() == "x"
    ));
    assert!(matches!(teardown_step(&target(None), &mut data), TeardownStep::ShutdownSession));
    let of_stream = finish_teardown(Version::V1_0, &target(Some("x")), Ok(())).ok().unwrap();
    assert_eq!(header(&of_stream, "Session").as_deref(), Some("s"));
    let whole = finish_teardown(Version::V1_0, &target(None), Ok(())).ok().unwrap();
    assert_eq!(whole.status, StatusCode::Success);
    assert_eq!(header(&whole, "Session"), None);
    let gone = err(StatusCode::SessionNotFound);
    assert_eq!(finish_teardown(Version::V1_0, &target(None), Err(gone)).err(), Some(gone));
}

#[test]
fn parameters() {
    let client = Client::default();
    let mut asking = request(Method::GetParameter, Version::V1_0, None, &[("Session", "s;timeout=60")]);
    let response = client.handle_get_parameter(&asking).ok().unwrap();
    assert_eq!(header(&response, "Session").as_deref(), Some("s;timeout=60"));
    asking.body = vec![0, 1];
    assert!(client.handle_set_parameter(&asking).is_ok());
    asking.body = vec![b'a'];
    assert_eq!(
        client.handle_set_parameter(&asking).err(),
        Some(err(StatusCode::ParameterNotUnderstood))
    );
    assert_eq!(
        client.handle_get_parameter(&asking).err(),
        Some(err(StatusCode::ParameterNotUnderstood))
    );
}

#[test]
fn notifications_are_passed_on() {
    let mut client = Client { rtsp_version: Some(Version::V1_0) };
    let end = || PlayNotifyMessage::EndOfStream {
        range: "npt=0-".to_string(),
        rtp_info: "I".to_string(),
        extra_data: with_headers(&[("X", "y")]),
    };
    assert!(client.media_play_notify("s", end()).is_none());
    assert!(Client::default().media_play_notify("s", end()).is_none());
    client.rtsp_version = Some(Version::V2_0);
    let request = client.media_play_notify("s", end()).unwrap();
    assert_eq!(request.method, Method::PlayNotify);
    assert_eq!(request.version, Version::V2_0);
    assert_eq!(request.headers.get("Session").as_deref(), Some("s"));
    assert_eq!(request.headers.get("Notify-Reason").as_deref(), Some("end-of-stream"));
    assert_eq!(request.headers.get("Range").as_deref(), Some("npt=0-"));
    assert_eq!(request.headers.get("RTP-Info").as_deref(), Some("I"));
    assert_eq!(request.headers.get("X").as_deref(), Some("y"));
    let update = PlayNotifyMessage::MediaPropertiesUpdate {
        range: "npt=0-".to_string(),
        media_properties: "P".to_string(),
        media_range: "R".to_string(),
        extra_data: TypeMap::<Extra<u8>>::new(),
    };
    let request = client.media_play_notify("s", update).unwrap();
    assert_eq!(request.headers.get("Notify-Reason").as_deref(), Some("media-properties-update"));
    assert_eq!(request.headers.get("Media-Properties").as_deref(), Some("P"));
    assert_eq!(request.headers.get("Media-Range").as_deref(), Some("R"));
    assert_eq!(request.headers.get("RTP-Info"), None);
    let scale = PlayNotifyMessage::ScaleChange {
        range: "npt=0-".to_string(),
        media_properties: "P".to_string(),
        media_range: "R".to_string(),
        scale: "2".to_string(),
        rtp_info: "I".to_string(),
        extra_data: TypeMap::<Extra<u8>>::new(),
    };
    let request = client.media_play_notify("s", scale).unwrap();
    assert_eq!(request.headers.get("Notify-Reason").as_deref(), Some("scale-change"));
    assert_eq!(request.headers.get("Scale").as_deref(), Some("2"));
    assert_eq!(request.headers.get("RTP-Info").as_deref(), Some("I"));
}

#[test]
fn extra_data_of_requests() {
    let data = default_extra_data(7u8);
    assert!(matches!(data.get(CONNECTION_INFORMATION), Some(Extra::Application(7))));
    assert!(!data.contains(ORIGINAL_REQUEST));
    let asking = Arc::new(request(Method::Play, Version::V1_0, None, &[]));
    let data = default_extra_data_for_request(7u8, asking);
    assert!(matches!(data.get(CONNECTION_INFORMATION), Some(Extra::Application(7))));
    match data.get(ORIGINAL_REQUEST) {
        Some(Extra::OriginalRequest(original)) => assert_eq!(original.method, Method::Play),
        _ => panic!("no request"),
    }
}
