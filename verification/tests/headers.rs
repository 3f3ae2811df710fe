use rtsp_server::headers::{decimal_text, HeaderFields};
use rtsp_server::transport::stray_quote;
use rtsp_server::message::{Method, Request, Response, Version};
use rtsp_server::error::StatusCode;

fn with(name: &str, value: &str) -> HeaderFields {
    let mut headers = HeaderFields::new();
    headers.insert(name, value);
    headers
}

#[test]
fn headers_read_back() {
    let mut headers = HeaderFields::new();
    assert_eq!(headers.get("Server"), None);
    headers.insert("Server", "a");
    headers.insert("date", "b");
    assert_eq!(headers.get("SERVER").as_deref(), Some("a"));
    assert_eq!(headers.get("Date").as_deref(), Some("b"));
    headers.insert("sERVER", "c");
    assert_eq!(headers.get("Server").as_deref(), Some("c"));
    headers.insert("Schlüssel", "d");
    assert_eq!(headers.get("Schlüssel"), None);
    headers.insert_optional("Scale", &None);
    assert_eq!(headers.get("Scale"), None);
    headers.insert_optional("Scale", &Some("2.0".to_string()));
    assert_eq!(headers.get("Scale").as_deref(), Some("2.0"));
    headers.insert_extra(&vec![
        ("X-A".to_string(), "1".to_string()),
        ("Scale".to_string(), "3.0".to_string()),
        ("X-A".to_string(), "2".to_string()),
    ]);
    assert_eq!(headers.get("X-A").as_deref(), Some("2"));
    assert_eq!(headers.get("Scale").as_deref(), Some("3.0"));
}

#[test]
fn sequence_numbers() {
    assert_eq!(HeaderFields::new().cseq(), Ok(None));
    assert_eq!(with("CSeq", "17").cseq(), Ok(Some(17)));
    assert_eq!(with("CSeq", "+017").cseq(), Ok(Some(17)));
    assert_eq!(with("CSeq", "4294967295").cseq(), Ok(Some(u32::MAX)));
    assert_eq!(with("CSeq", "4294967296").cseq(), Err(()));
    assert_eq!(with("CSeq", "-0").cseq(), Err(()));
    assert_eq!(with("CSeq", "+").cseq(), Err(()));
    assert_eq!(with("CSeq", "").cseq(), Err(()));
    assert_eq!(with("CSeq", " 1").cseq(), Err(()));
    for n in [0, 9, 10, 99, 12345, u32::MAX] {
        let mut headers = HeaderFields::new();
        headers.insert_cseq(n);
        assert_eq!(headers.get("CSeq"), Some(n.to_string()));
        assert_eq!(headers.cseq(), Ok(Some(n)));
        assert_eq!(decimal_text(n as u64), n.to_string());
    }
    assert_eq!(with("Pipelined-Requests", "5").pipelined_requests(), Ok(Some(5)));
    assert_eq!(with("Pipelined-Requests", "x").pipelined_requests(), Err(()));
}

#[test]
fn sessions() {
    assert_eq!(HeaderFields::new().session(), Ok(None));
    assert_eq!(with("Session", "abc").session(), Ok(Some("abc".to_string())));
    assert_eq!(with("Session", "abc;timeout=60").session(), Ok(Some("abc".to_string())));
    assert_eq!(with("Session", "abc;x;timeout=60;y").session(), Ok(Some("abc".to_string())));
    assert_eq!(with("Session", "timeout=x").session(), Ok(Some("timeout=x".to_string())));
    assert_eq!(with("Session", "abc; timeout=x").session(), Ok(Some("abc".to_string())));
    assert_eq!(with("Session", "abc;timeout=x").session(), Err(()));
    assert_eq!(with("Session", "abc;timeout=18446744073709551616").session(), Err(()));
}

#[test]
fn lists() {
    assert!(HeaderFields::new().require().is_empty());
    assert_eq!(with("Require", "a, b ,\u{2003}c\t").require(), ["a", "b", "c"]);
    assert_eq!(with("Require", "").require(), [""]);
    assert_eq!(with("Supported", "play.basic,x").supported(), ["play.basic", "x"]);
    assert!(HeaderFields::new().supported().is_empty());
    assert_eq!(HeaderFields::new().public(), None);
    assert_eq!(
        with("Public", "PLAY, FOO").public(),
        Some(vec!["PLAY".to_string(), "FOO".to_string()])
    );
    let list = vec!["PLAY".to_string(), "FOO".to_string()];
    let mut headers = HeaderFields::new();
    headers.insert_public(&list);
    headers.insert_allow(&list);
    headers.insert_supported(&list);
    headers.insert_unsupported(&vec!["".to_string(), "x".to_string()]);
    assert_eq!(headers.get("Public").as_deref(), Some("PLAY, FOO"));
    assert_eq!(headers.get("Allow").as_deref(), Some("PLAY, FOO"));
    assert_eq!(headers.get("Supported").as_deref(), Some("PLAY, FOO"));
    assert_eq!(headers.get("Unsupported").as_deref(), Some("x"));
}

#[test]
fn accepted_types() {
    assert_eq!(HeaderFields::new().accept(), Ok(None));
    assert_eq!(with("Accept", "application").accept(), Err(()));
    let ranges = with("Accept", " application / sdp ;q=1, */*;x, multipart/*").accept();
    let some = |s: &str| Some(s.to_string());
    assert_eq!(
        ranges,
        Ok(Some(vec![
            (some("application "), some(" sdp")),
            (None, None),
            (some("Multipart"), None),
        ]))
    );
}

#[test]
fn readable_values() {
    let transport = "RTP/AVP/TCP;unicast;interleaved=0-1";
    assert_eq!(HeaderFields::new().transports(), Ok(None));
    assert_eq!(with("Transport", transport).transports(), Ok(Some(transport.to_string())));
    assert_eq!(with("Transport", "RTP/AVP/TCP;interleaved=x").transports(), Err(()));
    assert_eq!(with("Range", "npt=0-").range(), Ok(Some("npt=0-".to_string())));
    assert_eq!(with("Range", "npt=x").range(), Err(()));
    assert_eq!(with("Scale", "2.0").scale(), Ok(Some("2.0".to_string())));
    assert_eq!(with("Scale", "fast").scale(), Err(()));
    assert_eq!(with("Speed", "2.5").speed(), Ok(Some("2.5".to_string())));
    assert_eq!(with("Speed", "fast").speed(), Err(()));
    assert_eq!(with("Seek-Style", "RAP").seek_style(), Ok(Some("RAP".to_string())));
    assert_eq!(HeaderFields::new().seek_style(), Ok(None));
    assert_eq!(with("Accept-Ranges", "npt").accept_ranges(), Ok(Some("npt".to_string())));
    assert_eq!(HeaderFields::new().accept_ranges(), Ok(None));
}

#[test]
fn other_typed_headers() {
    let mut headers = HeaderFields::new();
    headers.insert_application_content_type("sdp");
    assert_eq!(headers.get("Content-Type").as_deref(), Some("application/sdp"));
    headers.insert_notify_reason("end-of-stream");
    assert_eq!(headers.get("Notify-Reason").as_deref(), Some("end-of-stream"));
    headers.insert_notify_reason("other");
    assert_eq!(headers.get("Notify-Reason").as_deref(), Some("other"));
}

#[test]
fn messages() {
    let request = Request::new(Method::Play, Version::V2_0);
    assert_eq!(request.method, Method::Play);
    assert!(request.body.is_empty());
    let mut response = Response::new(Version::V1_0, StatusCode::NotFound);
    assert_eq!(response.reason_phrase, "Not Found");
    response.set_body(Vec::new());
    assert_eq!(response.headers.get("Content-Length"), None);
    response.set_body(vec![1, 2, 3]);
    assert_eq!(response.headers.get("Content-Length").as_deref(), Some("3"));
    response.insert_header("X", "y");
    response.insert_extra_headers(&vec![("X".to_string(), "z".to_string())]);
    assert_eq!(response.headers.get("x").as_deref(), Some("z"));
}

#[test]
fn stray_quotes_in_transports() {
    let read = |value: &str| with("Transport", value).transports();
    assert_eq!(HeaderFields::new().transports(), Ok(None));
    for value in [
        "RTP/AVP;unicast;dest_addr=\"192.0.2.5:3456\"/\"192.0.2.5:3457\";mode=\"PLAY\"",
        "RTP/AVP;unicast;dest_addr=\"192.0.2.5:3456\"/\"192.0.2.5:3457\"",
        "RTP/AVP;dest_addr=\"a\\\"b\"",
        "RTP/AVP;dest_addr=\"a\\\"\"",
        "RTP/AVP;foo=\"/x\"",
        "RTP/AVP;foo=\"\"",
        "RTP/AVP;foo=\"",
        "RTP/AVP;mode=\"PLAY\";foo=\"",
        "RTP/AVP;dest_addr=\"a\";foo=\"b/\"",
        "RTP/AVP;mode=\"/\"",
        "RTP/AVP;dest_addr=\"a\\\\\"",
        "RTP/AVP;dest_addr=\"/\";dest_addr=\"a\"",
        "RTP/AVP;dest_addr=\"a\\\"\"/\"\";dest_addr=\"c\"",
        "RAW/RAW/UDP;mode=\"",
        "RAW/RAW/UDP;dest_addr=\"a\"/\"",
        "RTP/AVP,RAW/RAW/UDP;mode=\"",
        "RTP/AVP;mode=\"PLAY\",RAW/RAW/UDP;mode=\"",
        "RTP/AVP/UDP/X;mode=\"",
        "RTP;src_addr=\"",
        "RTP/AVP;mode=\"PLAY,RECORD\",RTP/AVP/TCP;interleaved=0-1",
    ] {
        assert!(!stray_quote(value), "{}", value);
        assert_eq!(read(value), Ok(Some(value.to_string())), "{}", value);
    }
    for value in [
        "RTP/AVP;dest_addr=\"ab/\"",
        "RTP/AVP;dest_addr=\"a\" / \"b/\"",
        "RTP/AVP;dest_addr=\"/x",
        "RTP/AVP;a b;mode=\"",
        "RTP/AVP;mode=\"\\",
        "RTP/AVP;mode=\"a\\\"b",
        "RTP/AVP;interleaved=x",
        "RTP/AVP;",
    ] {
        assert!(!stray_quote(value), "{}", value);
        assert_eq!(read(value), Err(()), "{}", value);
    }
    for value in [
        "RTP/AVP;mode=\"",
        "RTP/AVP;mode= \"",
        "RTP/AVP;mode=\t\"",
        "RTP/AVP;dest_addr=\"/\"",
        "RTP/AVP;dest_addr=\"a\"/\"",
        "RTP/AVP;dest_addr=\"a\"/\"/\"b\"",
        "RTP/AVP;dest_addr=\"a\\\"",
        "RTP/AVP;dest_addr=\"a\\\"/\"b\"",
        "RTP/AVP;dest_addr=\"a\\\\\\\"",
        "RTP/AVP;dest_addr=\"a\";dest_addr=\"/\"",
        "RAW/RAW/UDP,RTP/AVP;mode=\"",
        " RTP / AVP ; src_addr = \"",
        "RTP/AVP;foo=\"a\";src_addr=\"/x\"",
        "RTP/AVP;mode=\"PLAY,RECORD\";src_addr=\"",
        "RTP/AVP/TCP;mode=\"",
    ] {
        assert!(stray_quote(value), "{}", value);
        assert_eq!(read(value), Err(()), "{}", value);
    }
}

#[test]
fn lists_read_back() {
    let list = |elements: &[&str]| {
        let mut headers = HeaderFields::new();
        headers.insert_supported(&elements.iter().map(|e| e.to_string()).collect());
        headers.supported()
    };
    assert_eq!(list(&["play.basic"]), vec!["play.basic"]);
    assert_eq!(list(&["play.basic", "setup.rtp.rtcp.mux", "x"]), vec![
        "play.basic",
        "setup.rtp.rtcp.mux",
        "x"
    ]);
    assert_eq!(list(&["a", ""]), vec!["a", ""]);
    assert_eq!(list(&["", "a"]), vec!["a"]);
}
