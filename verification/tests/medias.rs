use rtsp_server::error::{Error, StatusCode};
use rtsp_server::media::context::{ClientChange, Context, SessionEnd};
use rtsp_server::media::stream::{
    can_be_stream_id, can_be_streams, extract_stream_id_from_uri, stream_ids_from_sdp, ConfiguredTransport,
    SdpAttribute, SdpMedia, SdpSession, StreamId,
};
use rtsp_server::media_factory;
use rtsp_server::media_factory::context::IdleChange;
use rtsp_server::server::mounts::PresentationURI;
use rtsp_server::url::Url;

fn no_session() -> Error {
    Error::status(StatusCode::SessionNotFound)
}

#[test]
fn stream_ids() {
    assert!(can_be_stream_id("stream=0"));
    assert!(can_be_stream_id("a.b/c."));
    assert!(!can_be_stream_id("../a"));
    assert!(!can_be_stream_id("a..b"));
    assert!(can_be_stream_id("a?x=.."));
    assert!(can_be_stream_id("a#.."));
    assert!(can_be_stream_id("a#..?x"));
    assert!(can_be_stream_id("a?..#x"));
    assert!(!can_be_stream_id("a/..?x#y"));
    let id = StreamId::new("x".to_string());
    assert_eq!(id.as_str(), "x");
    assert_eq!(id.copy().as_str(), "x");
}

fn stream(presentation: &str, uri: &str) -> Result<Option<String>, Error> {
    let presentation = PresentationURI { url: Url::parse(presentation).unwrap() };
    extract_stream_id_from_uri(&presentation, &Url::parse(uri).unwrap()).map(|s| s.map(|s| s.id))
}

#[test]
fn streams_of_uris() {
    let mount = "rtsp://h/mount/";
    assert_eq!(stream(mount, "rtsp://h/mount/"), Ok(None));
    assert_eq!(stream(mount, "rtsp://h/mount"), Ok(None));
    assert_eq!(stream(mount, "rtsp://h/mount/stream=0"), Ok(Some("stream=0".to_string())));
    assert_eq!(stream(mount, "rtsp://h/mount/a/b?q"), Ok(Some("a/b?q".to_string())));
    let not_found = Err(Error::status(StatusCode::NotFound));
    assert_eq!(stream(mount, "rtsp://h/other"), not_found);
    assert_eq!(stream(mount, "rtsp://other/mount/a"), not_found);
}

fn sdp(medias: &[&[(&str, Option<&str>)]]) -> SdpSession {
    SdpSession {
        medias: medias
            .iter()
            .map(|attributes| SdpMedia {
                attributes: attributes
                    .iter()
                    .map(|(name, value)| SdpAttribute {
                        attribute: name.to_string(),
                        value: value.map(String::from),
                    })
                    .collect(),
            })
            .collect(),
    }
}

#[test]
fn stream_ids_of_descriptions() {
    let ids = |s: &SdpSession| {
        stream_ids_from_sdp(s).map(|ids| ids.into_iter().map(|i| i.id).collect::<Vec<_>>())
    };
    let good = sdp(&[
        &[("rtpmap", Some("96")), ("control", Some("a"))],
        &[("control", None), ("control", Some("b"))],
    ]);
    assert_eq!(ids(&good), Ok(vec!["a".to_string(), "b".to_string()]));
    assert_eq!(ids(&sdp(&[])), Ok(vec![]));
    let internal = Err(Error::internal());
    assert_eq!(ids(&sdp(&[&[("rtpmap", None)]])), internal);
    assert_eq!(ids(&sdp(&[&[("control", None)]])), internal);
    assert_eq!(ids(&sdp(&[&[("control", Some("a")), ("control", Some("b"))]])), internal);
    assert_eq!(ids(&sdp(&[&[("control", Some("a"))], &[]])), internal);
    assert!(can_be_streams(&good));
    assert!(can_be_streams(&sdp(&[&[], &[("control", Some(".."))]])));
    assert!(!can_be_streams(&sdp(&[&[("control", Some("a"))], &[("control", Some("../b"))]])));
    assert!(!can_be_streams(&sdp(&[&[("control", None), ("control", Some(".."))]])));
}

#[test]
fn transports_are_told_apart_by_stream() {
    let transport = |stream: &str, text: &str| ConfiguredTransport {
        session_id: "s".to_string(),
        media_id: 1,
        stream_id: StreamId::new(stream.to_string()),
        transport: text.to_string(),
    };
    assert!(transport("a", "x").same(&transport("a", "y")));
    assert!(!transport("a", "x").same(&transport("b", "x")));
}

#[test]
fn media_knows_its_sessions() {
    let mut m = Context::new(9, true);
    assert!(m.is_idle());
    assert_eq!(
        m.client_changed("s", Some(1)),
        ClientChange { finished_client: None, not_idle: true }
    );
    assert!(!m.is_idle());
    assert_eq!(m.is_client_in_session(1, "s"), Ok(()));
    assert_eq!(m.is_client_in_session(2, "s"), Err(Error::internal()));
    assert_eq!(m.is_client_in_session(1, "t"), Err(no_session()));
    assert_eq!(m.find_session_client("s"), Some(1));
    assert_eq!(
        m.client_changed("s", Some(2)),
        ClientChange { finished_client: Some(1), not_idle: false }
    );
    assert_eq!(m.is_client_in_session(1, "s"), Err(Error::internal()));
    assert_eq!(
        m.client_changed("s", None),
        ClientChange { finished_client: Some(2), not_idle: false }
    );
    assert_eq!(m.find_session_client("s"), None);
    assert_eq!(m.session_keep_alive("s"), Ok(()));
    assert_eq!(m.session_keep_alive("t"), Err(no_session()));
    assert_eq!(m.check_session("s"), Ok(()));
    assert_eq!(m.check_session("t"), Err(Error::status(StatusCode::NotFound)));
}

#[test]
fn media_sessions_end() {
    let mut m = Context::new(9, true);
    m.client_changed("s", Some(1));
    m.client_changed("t", Some(2));
    assert_eq!(m.timed_out("u"), None);
    assert_eq!(m.timed_out("s"), Some(SessionEnd { finished_client: Some(1), idle: true }));
    assert!(m.is_idle());
    assert_eq!(m.shutdown_session(1, "t"), Err(Error::internal()));
    assert_eq!(m.shutdown_session(1, "s"), Err(no_session()));
    assert_eq!(
        m.shutdown_session(2, "t"),
        Ok(SessionEnd { finished_client: Some(2), idle: false })
    );
}

#[test]
fn media_says_itself_when_it_is_idle() {
    let mut m = Context::new(9, false);
    assert!(!m.client_changed("s", Some(1)).not_idle);
    assert!(m.is_idle());
    assert!(m.idle(false));
    assert!(!m.idle(false));
    assert_eq!(m.timed_out("s").map(|e| e.idle), Some(false));
    assert!(!m.is_idle());
}

#[test]
fn media_tells_everybody() {
    let mut m = Context::new(9, true);
    m.client_changed("s", Some(1));
    m.client_changed("t", None);
    m.client_changed("u", Some(1));
    let error = m.error();
    assert_eq!(error.clients, [1, 1]);
    assert_eq!(error.sessions, ["s", "t", "u"]);
    m.session_clients.insert(7);
    let shutdown = m.shutdown();
    assert_eq!(
        shutdown.sessions,
        [("s".to_string(), Some(1)), ("t".to_string(), None), ("u".to_string(), None)]
    );
    assert_eq!(shutdown.clients, [7]);
}

#[test]
fn idle_medias_are_shut_down() {
    let mut f = media_factory::context::Context::new(3);
    f.spawn_media(1, Some(10), 100);
    f.spawn_media(2, None, 100);
    assert!(!f.check_media_timeout(1, 109));
    assert!(f.find_media(1));
    assert_eq!(f.check_media(1), Ok(()));
    assert!(f.check_media_timeout(1, 110));
    assert!(!f.find_media(1));
    assert_eq!(f.check_media(1), Err(Error::status(StatusCode::NotFound)));
    assert!(!f.check_media_timeout(1, 110));
    assert!(!f.check_media_timeout(2, 1_000_000));
    assert_eq!(f.shutdown(), [2]);
    assert!(f.media_ended(2));
    assert!(!f.media_ended(2));
}

#[test]
fn used_medias_stay() {
    let mut f = media_factory::context::Context::new(3);
    f.spawn_media(1, Some(10), 100);
    assert_eq!(f.media_idle(1, false, 105), Ok(IdleChange::InUse));
    assert!(!f.check_media_timeout(1, 1000));
    assert_eq!(f.media_idle(1, true, 1000), Ok(IdleChange::Idle(Some(10))));
    assert!(!f.check_media_timeout(1, 1009));
    assert!(f.check_media_timeout(1, 1010));
    assert_eq!(f.media_idle(1, true, 1000), Err(Error::internal()));
}
