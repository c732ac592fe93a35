use rwrk::limiter::{Limiter, LimiterEvent};
use rwrk::load_test::{
    connection_turn, monitor_turn, recorded_status, ConnectionAction, MonitorAction,
};
use rwrk::registration::{FieldMap, Registration};
use rwrk::sse::{sse_turn, SseAction, SseEvent};
use rwrk::worker::{connections, rate, EndAction, Worker, WorkerAction, DEFAULT_HOST};

fn registration(fields: &[(&str, &str)]) -> Registration {
    let mut map = FieldMap::new();
    for (name, value) in fields {
        map.insert(name.to_string(), value.to_string());
    }
    Registration { id: "rwrk".to_string(), fields: map }
}

fn is_quiet(action: &WorkerAction) -> bool {
    !action.stop && action.start.is_none()
}

#[test]
fn fields_keep_their_last_value() {
    let mut map = FieldMap::new();
    assert!(map.get("host").is_none());
    map.insert("host".to_string(), "a".to_string());
    map.insert("rate".to_string(), "1".to_string());
    map.insert("host".to_string(), "b".to_string());
    assert_eq!(map.get("host").map(|s| s.as_str()), Some("b"));
    assert_eq!(map.get("rate").map(|s| s.as_str()), Some("1"));
    let mut entries = map.clone().entries().clone();
    entries.sort();
    assert_eq!(
        entries,
        vec![("host".to_string(), "b".to_string()), ("rate".to_string(), "1".to_string())]
    );
}

#[test]
fn the_documented_request_starts_a_test() {
    let mut worker = Worker::new();
    let action = worker.update(
        Some(registration(&[
            ("conn", "100"),
            ("host", "http://localhost:8080"),
            ("rate", "1000"),
            ("expire", "60"),
        ])),
        5000,
    );
    assert!(!action.stop);
    let test = action.start.unwrap();
    assert_eq!(test.host, "http://localhost:8080");
    assert_eq!(test.connections, 100);
    assert_eq!(test.rate, 1000);
    assert_eq!(test.expire, 5060);
    assert!(worker.is_running());
}

#[test]
fn a_full_registration_starts_a_test() {
    let mut worker = Worker::new();
    let reg = registration(&[("connection", "3"), ("expire", "2000.1.1-00:00")]);
    let test = worker.update(Some(reg), 946656000).start.unwrap();
    assert_eq!(test.host, "http://127.0.0.1:8080/check");
    assert_eq!(test.host, DEFAULT_HOST);
    assert_eq!(test.connections, 3);
    assert_eq!(test.rate, 3);
    assert_eq!(test.expire, 946656000);
}

#[test]
fn the_default_registration_is_idle() {
    let mut worker = Worker::new();
    let reg = registration(&[("connection", "0"), ("expire", "2000.1.1-00:00")]);
    assert!(is_quiet(&worker.update(Some(reg), 0)));
    assert!(!worker.is_running());
}

#[test]
fn expired_and_endless_registrations_start_nothing() {
    for fields in [
        vec![("connection", "3"), ("expire", "2000.1.1-00:00")],
        vec![("connection", "3"), ("expire", "never")],
        vec![("connection", "3")],
        vec![("connection", "many"), ("expire", "60")],
        vec![("connection", "x"), ("conn", "3"), ("expire", "60")],
        vec![("expire", "60")],
    ] {
        let mut worker = Worker::new();
        assert!(is_quiet(&worker.update(Some(registration(&fields)), 946656001)), "{:?}", fields);
        assert!(!worker.is_running());
    }
}

#[test]
fn repeated_registrations_change_nothing() {
    let mut worker = Worker::new();
    let fields = [("connection", "3"), ("host", "h"), ("rate", "7"), ("expire", "60")];
    assert_eq!(worker.update(Some(registration(&fields)), 0).start.unwrap().rate, 7);
    let action = worker.update(Some(registration(&fields)), 50);
    assert!(is_quiet(&action));
    assert_eq!(action.rate, Some(7));
    assert!(worker.is_running());
    assert!(matches!(worker.watch_end(59), EndAction::Sleep(1)));
    assert!(matches!(worker.watch_end(60), EndAction::Finish));
}

#[test]
fn ends_and_rates_change_while_a_test_runs() {
    let mut worker = Worker::new();
    let start = [("connection", "3"), ("rate", "7"), ("expire", "60")];
    worker.update(Some(registration(&start)), 0);
    assert!(matches!(worker.watch_end(20), EndAction::Sleep(40)));

    let longer = [("connection", "3"), ("rate", "9"), ("expire", "100")];
    let action = worker.update(Some(registration(&longer)), 20);
    assert!(is_quiet(&action));
    assert_eq!(action.rate, Some(9));
    assert!(matches!(worker.watch_end(20), EndAction::Sleep(100)));

    let shorter = [("connection", "3"), ("expire", "5")];
    let action = worker.update(Some(registration(&shorter)), 30);
    assert!(is_quiet(&action));
    assert_eq!(action.rate, None);
    assert!(matches!(worker.watch_end(30), EndAction::Sleep(5)));
    assert!(matches!(worker.watch_end(36), EndAction::Finish));
    assert!(!worker.is_running());
}

#[test]
fn ended_tests_run_again() {
    let mut worker = Worker::new();
    assert!(matches!(worker.watch_end(0), EndAction::Idle));
    let first = [("connection", "3"), ("host", "h"), ("rate", "7"), ("expire", "60")];
    worker.update(Some(registration(&first)), 0);
    assert!(matches!(worker.watch_end(60), EndAction::Finish));
    assert!(matches!(worker.watch_end(60), EndAction::Idle));
    assert!(!worker.is_running());

    let action = worker.update(Some(registration(&first)), 100);
    assert!(!action.stop);
    let test = action.start.unwrap();
    assert_eq!((test.host.as_str(), test.connections, test.rate, test.expire), ("h", 3, 7, 160));

    // The end of the test has come, though nobody has looked.
    let action = worker.update(Some(registration(&first)), 160);
    assert!(action.stop);
    assert_eq!(action.start.unwrap().expire, 220);
    let now = [("connection", "3"), ("host", "h"), ("expire", "0")];
    assert!(is_quiet(&worker.update(Some(registration(&now)), 300)));
    assert!(matches!(worker.watch_end(300), EndAction::Finish));
}

#[test]
fn only_connections_and_host_restart_a_test() {
    let mut worker = Worker::new();
    let start = [("connection", "3"), ("host", "h"), ("rate", "5"), ("expire", "60")];
    assert!(worker.update(Some(registration(&start)), 0).start.is_some());

    let rate_and_end = [("connection", "3"), ("host", "h"), ("rate", "9"), ("expire", "90")];
    assert!(is_quiet(&worker.update(Some(registration(&rate_and_end)), 0)));

    let short_name = [("conn", "3"), ("host", "h"), ("expire", "60")];
    assert!(is_quiet(&worker.update(Some(registration(&short_name)), 0)));

    let host = [("connection", "3"), ("host", "g"), ("expire", "60")];
    let action = worker.update(Some(registration(&host)), 0);
    assert!(action.stop);
    assert_eq!(action.start.unwrap().host, "g");

    let no_host = [("connection", "3"), ("expire", "60")];
    let action = worker.update(Some(registration(&no_host)), 0);
    assert!(action.stop);
    assert_eq!(action.start.unwrap().host, DEFAULT_HOST);

    let count = [("connection", "4"), ("expire", "60")];
    let action = worker.update(Some(registration(&count)), 0);
    assert!(action.stop);
    assert_eq!(action.start.unwrap().connections, 4);
}

#[test]
fn tests_stop_when_they_are_not_asked_for() {
    let running = [("connection", "3"), ("expire", "60")];
    let idle = [("connection", "0"), ("expire", "60")];
    let mut worker = Worker::new();
    worker.update(Some(registration(&running)), 0);
    let action = worker.update(Some(registration(&idle)), 0);
    assert!(action.stop && action.start.is_none());
    assert!(!worker.is_running());
    assert!(is_quiet(&worker.update(None, 0)));

    worker.update(Some(registration(&running)), 0);
    let action = worker.update(None, 0);
    assert!(action.stop && action.start.is_none());
    assert!(!worker.is_running());
}

#[test]
fn steps_take_the_end_as_given() {
    let mut worker = Worker::new();
    let fields = [("connection", "2"), ("expire", "whatever")];
    assert!(is_quiet(&worker.step(Some(registration(&fields)), Some(9), 10)));
    let action = worker.step(Some(registration(&fields)), Some(10), 10);
    assert_eq!(action.start.unwrap().expire, 10);
    let action = worker.step(Some(registration(&fields)), None, 10);
    assert!(action.stop && action.start.is_none() && action.rate.is_none());
}

#[test]
fn registrations_are_compared_by_what_they_say() {
    let one = registration(&[("a", "1"), ("b", "2")]);
    assert!(one.same_registration(&registration(&[("b", "2"), ("a", "1")])));
    assert!(!one.same_registration(&registration(&[("a", "1")])));
    assert!(!registration(&[("a", "1")]).same_registration(&one));
    assert!(!one.same_registration(&registration(&[("a", "1"), ("b", "3")])));
    let mut other = registration(&[("a", "1"), ("b", "2")]);
    other.id = "other".to_string();
    assert!(!one.same_registration(&other));
}

#[test]
fn numbers_of_a_registration() {
    assert_eq!(connections(&registration(&[("connection", "7"), ("conn", "8")]).fields), 7);
    assert_eq!(connections(&registration(&[("conn", "8")]).fields), 8);
    assert_eq!(connections(&registration(&[]).fields), 0);
    assert_eq!(rate(&registration(&[("rate", "12")]).fields), Some(12));
    assert_eq!(rate(&registration(&[("rate", "-1")]).fields), None);
    assert_eq!(rate(&registration(&[]).fields), None);
}

#[test]
fn the_monitor_waits_out_a_test() {
    assert!(matches!(monitor_turn(100, 40), MonitorAction::Sleep(60)));
    assert!(matches!(monitor_turn(100, 99), MonitorAction::Sleep(1)));
    assert!(matches!(monitor_turn(100, 100), MonitorAction::Stop));
    assert!(matches!(monitor_turn(100, 101), MonitorAction::Stop));
    assert!(matches!(monitor_turn(i64::MAX, i64::MIN), MonitorAction::Sleep(u64::MAX)));
}

#[test]
fn connections_send_as_the_limiter_allows() {
    let mut limiter = Limiter::new(2, 3, 0);
    assert!(matches!(connection_turn(&mut limiter, true, 0), ConnectionAction::Finish));
    assert!(matches!(connection_turn(&mut limiter, false, 0), ConnectionAction::Send));
    assert!(matches!(connection_turn(&mut limiter, false, 0), ConnectionAction::Send));
    assert!(matches!(connection_turn(&mut limiter, false, 0), ConnectionAction::Hold));
    limiter.turn(LimiterEvent::Ended, 0);
    assert!(matches!(connection_turn(&mut limiter, false, 0), ConnectionAction::Send));
    limiter.turn(LimiterEvent::Ended, 0);
    assert!(matches!(connection_turn(&mut limiter, false, 0), ConnectionAction::Sleep(334)));
    assert!(matches!(connection_turn(&mut limiter, true, 334), ConnectionAction::Finish));
    assert!(matches!(connection_turn(&mut limiter, false, 334), ConnectionAction::Send));
}

#[test]
fn failed_requests_have_status_zero() {
    assert_eq!(recorded_status(Some(204)), 204);
    assert_eq!(recorded_status(None), 0);
}

#[test]
fn stream_events() {
    assert!(matches!(sse_turn(SseEvent::Message(" \n".to_string())), SseAction::Ignore));
    assert!(matches!(sse_turn(SseEvent::Message(String::new())), SseAction::Ignore));
    match sse_turn(SseEvent::Message(" {\"id\":\"rwrk\"} ".to_string())) {
        SseAction::Decode(text) => assert_eq!(text, " {\"id\":\"rwrk\"} "),
        _ => panic!("data is to be decoded"),
    }
    match sse_turn(SseEvent::Decoded(Some(registration(&[("rate", "5")])))) {
        SseAction::HandOn(handed) => {
            assert!(handed.same_registration(&registration(&[("rate", "5")])))
        }
        _ => panic!("a registration is to be handed on"),
    }
    assert!(matches!(sse_turn(SseEvent::Decoded(None)), SseAction::Ignore));
    assert!(matches!(sse_turn(SseEvent::Failed), SseAction::Fail));
    assert!(matches!(sse_turn(SseEvent::Closed), SseAction::Finish));
}
