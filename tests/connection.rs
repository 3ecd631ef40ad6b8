use mini_redis::connection::{Action, Connection, Event, Phase};
use mini_redis::store::Store;

fn sent(a: Action) -> String {
    match a {
        Action::Send(s) => s,
        other => panic!("expected a response, got {:?}", other),
    }
}

#[test]
fn batch_is_answered_in_order_then_closed() {
    let mut store = Store::new();
    let mut conn = Connection::new();
    assert!(matches!(conn.step(Event::Accepted, &mut store, 0), Action::ReadLine));
    let line = "{\"commands\":[{\"command\":\"SET\",\"key\":\"x\",\"value\":\"10\"},{\"command\":\"GET\",\"key\":\"x\"}]}\n";
    assert_eq!(sent(conn.step(Event::LineRead(line.to_string()), &mut store, 0)), "OK");
    assert_eq!(sent(conn.step(Event::Written, &mut store, 0)), "Value: 10");
    assert!(matches!(conn.step(Event::Written, &mut store, 0), Action::Shutdown));
    assert_eq!(conn.phase(), Phase::Closing);
    assert!(matches!(conn.step(Event::ShutDown, &mut store, 0), Action::Finish));
    assert_eq!(conn.phase(), Phase::Closed);
    assert!(matches!(conn.step(Event::Written, &mut store, 0), Action::Finish));
}

#[test]
fn batch_continues_after_missing_field() {
    let mut store = Store::new();
    let mut conn = Connection::new();
    conn.step(Event::Accepted, &mut store, 0);
    let line = r#"{"commands":[{"command":"SET","key":"x"},{"command":"SET","key":"x","value":"1"},{"command":"EXISTS","key":"x"}]}"#;
    assert_eq!(sent(conn.step(Event::LineRead(line.to_string()), &mut store, 0)), "Error: Missing value");
    assert_eq!(sent(conn.step(Event::Written, &mut store, 0)), "OK");
    assert_eq!(sent(conn.step(Event::Written, &mut store, 0)), "1");
    assert!(matches!(conn.step(Event::Written, &mut store, 0), Action::Shutdown));
}

#[test]
fn parse_error_gets_one_response() {
    let mut store = Store::new();
    let mut conn = Connection::new();
    conn.step(Event::Accepted, &mut store, 0);
    let reply = sent(conn.step(Event::LineRead("{oops".to_string()), &mut store, 0));
    assert!(reply.starts_with("Error parsing request: "));
    assert!(matches!(conn.step(Event::Written, &mut store, 0), Action::Shutdown));
    assert!(matches!(conn.step(Event::ShutDown, &mut store, 0), Action::Finish));
}

#[test]
fn idle_connection_times_out_and_closes() {
    let mut store = Store::new();
    let mut conn = Connection::new();
    conn.step(Event::Accepted, &mut store, 0);
    assert!(matches!(conn.step(Event::TimedOut, &mut store, 10_000), Action::Shutdown));
    assert_eq!(conn.phase(), Phase::Closing);
    assert!(matches!(conn.step(Event::ShutDown, &mut store, 10_000), Action::Finish));
    assert_eq!(conn.phase(), Phase::Closed);
}

#[test]
fn timeout_mid_batch_sends_nothing_more() {
    let mut store = Store::new();
    let mut conn = Connection::new();
    conn.step(Event::Accepted, &mut store, 0);
    let line = r#"{"commands":[{"command":"SET","key":"a","value":"1"},{"command":"SET","key":"b","value":"2"}]}"#;
    assert_eq!(sent(conn.step(Event::LineRead(line.to_string()), &mut store, 0)), "OK");
    assert!(matches!(conn.step(Event::TimedOut, &mut store, 0), Action::Shutdown));
    assert!(store.contains(&"a".to_string()));
    assert!(!store.contains(&"b".to_string()));
}

#[test]
fn one_connection_timing_out_leaves_another_working() {
    let mut store = Store::new();
    let mut idle = Connection::new();
    let mut busy = Connection::new();
    idle.step(Event::Accepted, &mut store, 0);
    busy.step(Event::Accepted, &mut store, 0);
    assert!(matches!(idle.step(Event::TimedOut, &mut store, 0), Action::Shutdown));
    let line = r#"{"commands":[{"command":"SET","key":"a","value":"1"}]}"#;
    assert_eq!(sent(busy.step(Event::LineRead(line.to_string()), &mut store, 0)), "OK");
    assert_eq!(busy.phase(), Phase::Dispatching);
}

#[test]
fn end_of_input_and_io_failure_close() {
    let mut store = Store::new();
    let mut conn = Connection::new();
    conn.step(Event::Accepted, &mut store, 0);
    assert!(matches!(conn.step(Event::EndOfInput, &mut store, 0), Action::Shutdown));
    let mut other = Connection::new();
    other.step(Event::Accepted, &mut store, 0);
    let line = r#"{"commands":[{"command":"GET","key":"a"}]}"#;
    other.step(Event::LineRead(line.to_string()), &mut store, 0);
    assert!(matches!(other.step(Event::IoFailed, &mut store, 0), Action::Shutdown));
}

#[test]
fn empty_batch_closes_at_once() {
    let mut store = Store::new();
    let mut conn = Connection::new();
    conn.step(Event::Accepted, &mut store, 0);
    let a = conn.step(Event::LineRead(r#"{"commands":[]}"#.to_string()), &mut store, 0);
    assert!(matches!(a, Action::Shutdown));
}
