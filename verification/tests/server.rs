use rtsp_server::error::{Error, StatusCode};
use rtsp_server::server::context::{Context, TimeoutCheck, SESSION_TIMEOUT};
use rtsp_server::server::mounts::{match_path, Mounts, PresentationURI};
use rtsp_server::typemap::TypeMap;
use rtsp_server::url::Url;

type Custom = fn(&Url, &TypeMap<u8>) -> Option<(PresentationURI, TypeMap<u8>)>;

fn url(text: &str) -> Url {
    Url::parse(text).unwrap()
}

fn presentation(text: &str) -> PresentationURI {
    PresentationURI { url: url(text) }
}

fn server() -> Context<Custom> {
    Context::new(None)
}

fn not_found() -> Error {
    Error::status(StatusCode::SessionNotFound)
}

#[test]
fn paths_match_by_segment() {
    let found = |uri: &str, path: &str| match_path(&url(uri), path).map(|p| p.url.text);
    let mount = Some("rtsp://h:1/foo/".to_string());
    assert_eq!(found("rtsp://h:1/foo", "/foo/"), mount);
    assert_eq!(found("rtsp://h:1/foo/", "/foo/"), mount);
    assert_eq!(found("rtsp://u:p@h:1/foo/bar?q#f", "/foo/"), mount);
    assert_eq!(found("rtsp://h:1/foobar", "/foo/"), None);
    assert_eq!(found("rtsp://h:1/", "/foo/"), None);
    assert_eq!(found("rtsp://h:1/a", "/a/b/"), None);
    assert_eq!(found("rtsp://h:1/x/y", "/").as_deref(), Some("rtsp://h:1/"));
    assert_eq!(found("mailto:foo", "/foo/"), None);
    assert_eq!(found("rtsp://h:1", "/"), None);
}

fn custom(uri: &Url, extra: &TypeMap<u8>) -> Option<(PresentationURI, TypeMap<u8>)> {
    if uri.path.ends_with(".sdp") {
        let mut data = TypeMap::new();
        data.insert(30, *extra.get(30).unwrap_or(&0) + 1);
        Some((PresentationURI { url: uri.copy() }, data))
    } else {
        None
    }
}

fn mounts() -> Mounts<Custom> {
    let mut mounts = Mounts::builder()
        .path(1, "/a")
        .path(2, "/a/b/")
        .matches(3, custom as Custom)
        .path(4, "/")
        .build();
    assert!(mounts.factories.is_empty());
    assert_eq!(mounts.spawn(), [1, 2, 3, 4]);
    assert_eq!(mounts.spawn(), []);
    assert_eq!(mounts.factories, [1, 2, 3, 4]);
    mounts
}

#[test]
fn first_mount_in_order_wins() {
    let mounts = mounts();
    let mut extra = TypeMap::new();
    extra.insert(30, 4);
    let found = |uri: &str| {
        mounts.match_uri(&url(uri), &extra).map(|(id, p, data)| (id, p.url.text, data.get(30).copied()))
    };
    assert_eq!(found("rtsp://h/a/b/c"), Some((1, "rtsp://h/a/".to_string(), None)));
    assert_eq!(found("rtsp://h/x.sdp"), Some((3, "rtsp://h/x.sdp".to_string(), Some(5))));
    assert_eq!(found("rtsp://h/a/x.sdp"), Some((1, "rtsp://h/a/".to_string(), None)));
    assert_eq!(found("rtsp://h/other"), Some((4, "rtsp://h/".to_string(), None)));
}

#[test]
fn finished_media_factory_is_not_matched() {
    let mut mounts = mounts();
    mounts.media_factory_finished(1);
    assert_eq!(mounts.factories, [2, 3, 4]);
    let extra = TypeMap::new();
    let (id, _, _) = mounts.match_uri(&url("rtsp://h/a/b/c"), &extra).unwrap();
    assert_eq!(id, 2);
    mounts.media_factory_finished(9);
    assert_eq!(mounts.factories, [2, 3, 4]);
    mounts.media_factory_finished(4);
    assert!(mounts.match_uri(&url("rtsp://h/other"), &extra).is_none());
}

#[test]
fn server_finds_media_factories() {
    let listeners = vec!["tcp://0.0.0.0:1".to_string(), "tcp://0.0.0.0:1".to_string()];
    let built: Mounts<Custom> = Mounts::builder().path(7, "/a").build();
    let (mut server, spawned) = Context::start(Some(built), &listeners);
    assert_eq!(spawned, [7]);
    assert_eq!(server.listeners.entries.len(), 1);
    let extra = TypeMap::new();
    let uri = url("rtsp://h/a/x");
    let find = |server: &Context<Custom>| {
        server.find_media_factory_for_uri(1, &uri, &extra).map(|(id, p, _)| (id, p.url.text))
    };
    assert_eq!(find(&server), Err(Error::internal()));
    server.new_client(1);
    assert_eq!(find(&server), Ok((7, "rtsp://h/a/".to_string())));
    server.media_factory_finished(7);
    assert_eq!(find(&server), Err(Error::status(StatusCode::NotFound)));
    server.listener_finished("tcp://0.0.0.0:1");
    assert!(server.listeners.entries.is_empty());
    let mut bare = self::server();
    bare.new_client(1);
    bare.media_factory_finished(7);
    assert_eq!(find(&bare), Err(Error::status(StatusCode::NotFound)));
}

#[test]
fn created_session_is_found() {
    let mut server = server();
    assert_eq!(
        server.create_session(1, "s", 9, presentation("rtsp://h/a/"), 0),
        Err(Error::internal())
    );
    server.new_client(1);
    server.new_client(2);
    assert_eq!(server.create_session(1, "s", 9, presentation("rtsp://h/a/"), 0), Ok(()));
    assert_eq!(
        server.create_session(2, "s", 8, presentation("rtsp://h/b/"), 0),
        Err(Error::internal())
    );
    let found = server.find_session(2, "s", 5).unwrap();
    assert_eq!(found.media_id, 9);
    assert_eq!(found.presentation_uri.url.text, "rtsp://h/a/");
    assert_eq!(found.replaced_client, Some(1));
    let again = server.find_session(2, "s", 6).unwrap();
    assert_eq!(again.replaced_client, Some(2));
    assert_eq!(server.find_session(2, "t", 6).err(), Some(not_found()));
    assert_eq!(server.find_session(3, "s", 6).err(), Some(Error::internal()));
}

#[test]
fn unanswered_session_is_dropped() {
    let mut server = server();
    server.new_client(1);
    server.create_session(1, "s", 9, presentation("rtsp://h/a/"), 0).unwrap();
    server.create_session_unanswered("s");
    assert_eq!(server.find_session(1, "s", 5).err(), Some(not_found()));
}

#[test]
fn only_active_client_keeps_session_alive() {
    let mut server = server();
    server.new_client(1);
    server.new_client(2);
    server.create_session(1, "s", 9, presentation("rtsp://h/a/"), 0).unwrap();
    assert_eq!(server.keep_alive_session(1, "s", 1), Ok(()));
    assert_eq!(server.keep_alive_session(2, "s", 1), Err(Error::internal()));
    server.find_session(2, "s", 2).unwrap();
    assert_eq!(server.keep_alive_session(1, "s", 3), Err(Error::internal()));
    assert_eq!(server.keep_alive_session(2, "s", 3), Ok(()));
    assert_eq!(server.keep_alive_session(2, "t", 3), Err(not_found()));
    assert_eq!(server.media_keep_alive_session(9, "s", 4), Ok(()));
    assert_eq!(server.media_keep_alive_session(9, "t", 4), Err(not_found()));
}

#[test]
fn sessions_time_out() {
    let mut server = server();
    server.new_client(1);
    server.create_session(1, "s", 9, presentation("rtsp://h/a/"), 100).unwrap();
    assert_eq!(
        server.check_session_timeout("s", 150),
        TimeoutCheck::Remaining(SESSION_TIMEOUT - 50)
    );
    assert_eq!(server.check_session_timeout("s", 50), TimeoutCheck::Remaining(SESSION_TIMEOUT));
    server.keep_alive_session(1, "s", 150).unwrap();
    assert_eq!(
        server.check_session_timeout("s", 100 + SESSION_TIMEOUT),
        TimeoutCheck::Remaining(50)
    );
    assert_eq!(
        server.check_session_timeout("s", 150 + SESSION_TIMEOUT),
        TimeoutCheck::TimedOut { media_id: 9, client_id: Some(1) }
    );
    assert_eq!(server.check_session_timeout("s", 0), TimeoutCheck::Unknown);
}

#[test]
fn shut_down_session_is_gone() {
    let mut server = server();
    server.new_client(1);
    server.new_client(2);
    server.create_session(1, "s", 9, presentation("rtsp://h/a/"), 0).unwrap();
    server.create_session(1, "t", 8, presentation("rtsp://h/a/"), 0).unwrap();
    assert_eq!(server.shutdown_session(1, "s"), Ok(Some(9)));
    assert_eq!(server.shutdown_session(1, "s"), Err(not_found()));
    assert_eq!(server.find_session(1, "s", 1).err(), Some(not_found()));
    assert_eq!(server.shutdown_session(2, "t"), Ok(None));
}

#[test]
fn sessions_outlive_their_clients() {
    let mut server = server();
    server.new_client(1);
    server.new_client(2);
    server.create_session(1, "s", 9, presentation("rtsp://h/a/"), 0).unwrap();
    server.create_session(1, "t", 8, presentation("rtsp://h/b/"), 0).unwrap();
    server.shutdown_session(1, "t").unwrap();
    assert_eq!(server.client_finished(1), [("s".to_string(), 9)]);
    assert_eq!(server.client_finished(1), []);
    let found = server.find_session(2, "s", 1).unwrap();
    assert_eq!(found.replaced_client, None);
    assert_eq!(found.media_id, 9);
    assert_eq!(
        server.check_session_timeout("s", 2 + SESSION_TIMEOUT),
        TimeoutCheck::TimedOut { media_id: 9, client_id: Some(2) }
    );
}

#[test]
fn media_takes_its_session_with_it() {
    let mut server = server();
    server.new_client(1);
    server.create_session(1, "s", 9, presentation("rtsp://h/a/"), 0).unwrap();
    assert_eq!(server.media_finished(9, "s"), Some(1));
    assert_eq!(server.media_finished(9, "s"), None);
    server.create_session(1, "t", 9, presentation("rtsp://h/a/"), 0).unwrap();
    server.client_finished(1);
    assert_eq!(server.media_finished(9, "t"), None);
}

#[test]
fn shutdown_ends_every_session() {
    let mut server = server();
    server.new_client(1);
    server.new_client(2);
    server.create_session(1, "s", 9, presentation("rtsp://h/a/"), 0).unwrap();
    server.create_session(2, "t", 8, presentation("rtsp://h/b/"), 0).unwrap();
    server.client_finished(2);
    let ends: Vec<(String, Option<u128>, u128)> = server
        .shutdown_sessions()
        .into_iter()
        .map(|e| (e.session_id, e.client_id, e.media_id))
        .collect();
    assert_eq!(ends, [("s".to_string(), Some(1), 9), ("t".to_string(), None, 8)]);
}

#[test]
fn presentation_uris_are_compared_as_written() {
    assert!(presentation("rtsp://h/a/").same(&presentation("RTSP://h/x/../a/")));
    assert!(!presentation("rtsp://h/a/").same(&presentation("rtsp://h/a")));
}
