use rtsp_server::channel::{request_result, Disconnected, SendError};
use rtsp_server::collections::{map_keys, set_elements};
use rtsp_server::error::{Error, ErrorStatus, InternalServerError, StatusCode};
use rtsp_server::id::IdSource;
use rtsp_server::listener::{
    accept_step, listener_step, tcp_listener_id, AcceptStep, ConnectionInformation, ListenerEvent,
    ListenerStep,
};
use rtsp_server::server::session::SessionIds;
use rtsp_server::stream_handler::{stream_step, StreamHandler, StreamPoll, StreamStep};
use rtsp_server::table::Table;
use rtsp_server::text::{chars_of, split_str, string_of};
use rtsp_server::time::time_since;
use rtsp_server::typemap::TypeMap;
use rtsp_server::utils::RunOnDrop;
use std::cell::Cell;
use std::collections::{HashMap, HashSet};

#[test]
fn status_codes() {
    assert_eq!(StatusCode::SessionNotFound.code(), 454);
    assert_eq!(StatusCode::from_code(454), StatusCode::SessionNotFound);
    assert_eq!(StatusCode::from_code(403), StatusCode::Extension(403));
    assert!(StatusCode::BadRequest.is_client_error());
    assert!(!StatusCode::BadRequest.is_server_error());
    assert!(StatusCode::OptionNotSupported.is_server_error());
    assert!(!StatusCode::Success.is_client_error());
    assert!(!StatusCode::Extension(600).is_server_error());
    assert!(StatusCode::Extension(499).is_client_error());
}

#[test]
fn reason_phrases() {
    assert_eq!(StatusCode::Success.text(), "Ok");
    assert_eq!(StatusCode::NotFound.text(), "Not Found");
    assert_eq!(StatusCode::Extension(403).text(), "Forbidden");
    assert_eq!(StatusCode::Extension(299).text(), "Extension 299");
}

#[test]
fn errors_have_status_codes() {
    assert_eq!(InternalServerError.status_code(), StatusCode::InternalServerError);
    assert_eq!(InternalServerError.text(), "Internal server error");
    let status = ErrorStatus::new(StatusCode::NotFound);
    assert_eq!(status.status_code(), StatusCode::NotFound);
    assert_eq!(status.text(), "Not Found");
    assert_eq!(Error::internal().status_code(), StatusCode::InternalServerError);
    assert_eq!(Error::status(StatusCode::NotFound).status_code(), StatusCode::NotFound);
    assert_eq!(Error::Io.status_code(), StatusCode::InternalServerError);
    assert_eq!(
        Error::Application(StatusCode::Extension(503)).status_code(),
        StatusCode::Extension(503)
    );
}

#[test]
fn send_errors() {
    assert_eq!(SendError::from_reports(true, false), SendError::Full);
    assert_eq!(SendError::from_reports(false, true), SendError::Disconnected);
    assert!(SendError::Full.is_full());
    assert!(!SendError::Full.is_disconnected());
    assert!(SendError::Disconnected.is_disconnected());
    assert_eq!(SendError::Full.text(), "Channel is full");
    assert_eq!(SendError::Disconnected.text(), "Channel is disconnected");
    assert_eq!(Disconnected.text(), "Channel is disconnected");
}

#[test]
fn questions_to_other_tasks() {
    assert_eq!(request_result(Ok(()), Ok(Ok(3))), Ok(3));
    let not_found: Result<u8, Error> = Err(Error::status(StatusCode::NotFound));
    assert_eq!(request_result(Ok(()), Ok(not_found)), not_found);
    let internal: Result<u8, Error> = Err(Error::internal());
    assert_eq!(request_result(Err(SendError::Full), Ok(Ok(3))), internal);
    assert_eq!(request_result::<u8>(Ok(()), Err(Disconnected)), internal);
}

#[test]
fn type_map_holds_one_value_of_each_type() {
    let mut map: TypeMap<&str> = TypeMap::default();
    assert!(!map.contains(1));
    assert_eq!(map.get(1), None);
    map.insert(1, "a");
    map.insert(2, "b");
    map.insert(1, "c");
    assert_eq!(map.get(1), Some(&"c"));
    assert!(map.contains(2));
    let mut other = map.clone();
    other.remove(2);
    other.insert(3, "d");
    other.insert(1, "e");
    assert!(!other.contains(2));
    assert_eq!(map.get(2), Some(&"b"));
    map.extend(&other);
    assert_eq!(map.get(1), Some(&"e"));
    assert_eq!(map.get(2), Some(&"b"));
    assert_eq!(map.get(3), Some(&"d"));
    map.clear();
    assert!(!map.contains(1));
    map.remove(1);
    map.extend(&TypeMap::new());
    assert!(!map.contains(1));
    map.extend(&other);
    assert_eq!(map.get(3), Some(&"d"));
}

#[test]
fn run_on_drop_runs_once() {
    let runs = Cell::new(0);
    let mut guard = RunOnDrop::new(|| runs.set(runs.get() + 1));
    assert_eq!(runs.get(), 0);
    assert!(guard.run());
    assert!(!guard.run());
    assert_eq!(runs.get(), 1);
}

#[test]
fn table_keeps_order() {
    let mut table: Table<u8> = Table::new();
    table.insert("b".to_string(), 1);
    table.insert("a".to_string(), 2);
    table.insert("c".to_string(), 3);
    table.insert("b".to_string(), 4);
    let names: Vec<&str> = table.entries.iter().map(|e| e.0.as_str()).collect();
    assert_eq!(names, ["b", "a", "c"]);
    assert_eq!(table.get("b"), Some(&4));
    assert_eq!(table.position("c"), Some(2));
    assert_eq!(table.remove("a"), Some(2));
    assert_eq!(table.remove("a"), None);
    assert!(!table.contains_key("a"));
    assert_eq!(table.position("c"), Some(1));
}

#[test]
fn text_helpers() {
    assert_eq!(split_str("", '/'), [""]);
    assert_eq!(split_str("/a//b/", '/'), ["", "a", "", "b", ""]);
    let chars = chars_of("häß");
    assert_eq!(chars, ['h', 'ä', 'ß']);
    assert_eq!(string_of(&chars, 1, 3), "äß");
    assert_eq!(time_since(5, 7), 2);
    assert_eq!(time_since(7, 5), 0);
}

#[test]
fn elements_of_collections() {
    let set: HashSet<u128> = [3, 1, 2].iter().copied().collect();
    let mut elements = set_elements(&set);
    elements.sort();
    assert_eq!(elements, [1, 2, 3]);
    let map: HashMap<u128, &str> = [(7, "a"), (5, "b")].iter().copied().collect();
    let mut keys = map_keys(&map);
    keys.sort();
    assert_eq!(keys, [5, 7]);
}

#[test]
fn time_based_ids() {
    // 20616934-4ba2-11e7-8000-010203040000
    let mut ids = IdSource::new(0x0102_0304);
    assert_eq!(
        ids.next(1_496_854_535, 812_946_000),
        0x2061_6934_4ba2_11e7_8000_0102_0304_0000
    );
    assert_eq!(
        ids.next(1_496_854_535, 812_946_000),
        0x2061_6934_4ba2_11e7_8001_0102_0304_0000
    );
}

#[test]
fn ids_differ() {
    let mut ids = IdSource::new(17);
    let mut other = IdSource::new(18);
    let mut seen = HashSet::new();
    for i in 0..1000 {
        assert!(seen.insert(ids.next(1_600_000_000 + i / 100, 5)));
        assert!(seen.insert(other.next(1_600_000_000 + i / 100, 5)));
    }
    let mut wrapping = IdSource { sequence: u16::MAX, process: 1 };
    wrapping.next(0, 0);
    assert_eq!(wrapping.sequence, 0);
}

#[test]
fn new_session_ids_are_not_in_use() {
    let allowed = "abcdefghijklmnopqrstuvwxyzABCDEFGHIJKLMNOPQRSTUVWXYZ0123456789-_.+";
    let mut ids = SessionIds::new();
    let mut seen = HashSet::new();
    for _ in 0..200 {
        let id = ids.new_id().unwrap();
        assert_eq!(id.len(), 16);
        assert!(id.chars().all(|c| allowed.contains(c)));
        let distinct: HashSet<char> = id.chars().collect();
        assert_eq!(distinct.len(), 16);
        assert!(seen.insert(id));
    }
}

#[test]
fn session_ids_are_taken_and_released() {
    let mut ids = SessionIds::new();
    ids.register("abc");
    let chars = vec!['a', 'b', 'c'];
    assert_eq!(ids.take(&chars), None);
    ids.release("abc");
    assert_eq!(ids.take(&chars).as_deref(), Some("abc"));
    assert_eq!(ids.take(&chars), None);
}

#[test]
fn streams_are_polled_until_they_give_nothing() {
    assert_eq!(stream_step(StreamPoll::Item), StreamStep::Again);
    assert_eq!(stream_step(StreamPoll::Pending), StreamStep::Next);
    assert_eq!(stream_step(StreamPoll::Finished), StreamStep::Remove);
    let (mut handler, mut registration) = StreamHandler::new();
    let a = registration.register();
    let b = registration.register();
    assert_eq!((a, b), (0, 1));
    handler.insert(a, "a");
    handler.insert(b, "b");
    handler.polled(&vec![]);
    assert_eq!(handler.streams.len(), 2);
    handler.polled(&vec![a]);
    assert!(!handler.streams.contains_key(&a));
    assert!(handler.streams.contains_key(&b));
    handler.polled(&vec![b]);
    assert!(handler.streams.is_empty());
}

#[test]
fn polls_of_all_streams() {
    let (mut handler, mut registration) = StreamHandler::new();
    let mut answers = vec![
        vec![StreamPoll::Item, StreamPoll::Item, StreamPoll::Pending],
        vec![StreamPoll::Item, StreamPoll::Finished],
        vec![StreamPoll::Finished],
        vec![StreamPoll::Pending],
    ];
    for i in 0..answers.len() {
        handler.insert(registration.register(), i);
    }
    let mut round = handler.start_poll();
    let mut steps = vec![vec![]; answers.len()];
    while let Some(id) = round.next() {
        let i = handler.streams[&id];
        steps[i].push(round.polled(answers[i].remove(0)));
    }
    assert_eq!(steps[0], vec![StreamStep::Again, StreamStep::Again, StreamStep::Next]);
    assert_eq!(steps[1], vec![StreamStep::Again, StreamStep::Remove]);
    assert_eq!(steps[2], vec![StreamStep::Remove]);
    assert_eq!(steps[3], vec![StreamStep::Next]);
    handler.polled(&round.finished);

    let id = registration.register();
    handler.insert(id, 4);
    let mut waiting = handler.start_poll().waiting;
    waiting.sort();
    assert_eq!(waiting, vec![0, 3, 4]);
}

#[test]
fn listener_decisions() {
    assert_eq!(listener_step(ListenerEvent::Incoming), ListenerStep::GoOn);
    assert_eq!(listener_step(ListenerEvent::Failed), ListenerStep::ReportError);
    assert_eq!(listener_step(ListenerEvent::Ended), ListenerStep::Stop);
    assert_eq!(listener_step(ListenerEvent::Quit), ListenerStep::Stop);
    assert_eq!(listener_step(ListenerEvent::ReportFailed), ListenerStep::Finish);
    assert_eq!(accept_step(true, true), AcceptStep::Connection);
    assert_eq!(accept_step(true, false), AcceptStep::Error);
    assert_eq!(accept_step(false, false), AcceptStep::LastError);
}

#[test]
fn listener_ids_and_connections() {
    assert_eq!(tcp_listener_id("127.0.0.1:8554").unwrap().text, "tcp://127.0.0.1:8554");
    assert!(tcp_listener_id("no port:x").is_none());
    let mut extra: TypeMap<u8> = TypeMap::new();
    extra.insert(20, 7);
    let info = ConnectionInformation::new(Some("local"), None, extra);
    assert_eq!(info.local_addr(), Some(&"local"));
    assert_eq!(info.peer_addr(), None);
    assert_eq!(info.extra_data().get(20), Some(&7));
}
