use rwrk::enroll::{
    AppState, ConnectionIds, GetParams, Info, Notification, SetParams, StreamAction, Subscription,
    NOTIFIER_BACKLOG,
};
use rwrk::registration::{FieldMap, Registration};
use tokio::sync::broadcast::error::TryRecvError;

fn set(id: &str, fields: &[(&str, &str)]) -> SetParams {
    let mut extra = FieldMap::new();
    for (name, value) in fields {
        extra.insert(name.to_string(), value.to_string());
    }
    SetParams { id: id.to_string(), extra }
}

fn get(id: &str) -> GetParams {
    GetParams { id: id.to_string() }
}

fn fields_of(registration: &Registration) -> Vec<(String, String)> {
    let mut fields = registration.fields.entries().clone();
    fields.sort();
    fields
}

fn pairs(fields: &[(&str, &str)]) -> Vec<(String, String)> {
    fields.iter().map(|(a, b)| (a.to_string(), b.to_string())).collect()
}

fn listeners_of(info: &Info, id: &str) -> Option<usize> {
    info.listeners.iter().find(|count| count.id == id).map(|count| count.listeners)
}

#[test]
fn the_worker_is_idle_at_first() {
    let mut ids = ConnectionIds::new();
    let mut state = AppState::new();
    let subscription = state.get_handler(&mut ids, get("rwrk"));
    assert_eq!(subscription.initial.id, "rwrk");
    assert_eq!(
        fields_of(&subscription.initial),
        pairs(&[("connection", "0"), ("expire", "2000.1.1-00:00")])
    );
    assert_eq!(subscription.key, "rwrk:0");
}

#[test]
fn unknown_ids_have_no_parameters() {
    let mut ids = ConnectionIds::new();
    let mut state = AppState::new();
    let subscription = state.get_handler(&mut ids, get("other"));
    assert_eq!(subscription.initial.id, "other");
    assert!(subscription.initial.fields.entries().is_empty());
    assert!(matches!(state.notified("other", Notification::Message), StreamAction::Wait));
}

#[test]
fn what_is_set_is_read() {
    let mut ids = ConnectionIds::new();
    let mut state = AppState::new();
    let answer = state.set_handler(set("a", &[("rate", "5"), ("host", "h")]));
    assert_eq!(answer.id, "a");
    assert_eq!(fields_of(&answer), pairs(&[("host", "h"), ("rate", "5")]));
    let initial = state.get_handler(&mut ids, get("a")).initial;
    assert_eq!(fields_of(&initial), pairs(&[("host", "h"), ("rate", "5")]));

    state.set_handler(set("a", &[("rate", "6")]));
    let initial = state.get_handler(&mut ids, get("a")).initial;
    assert_eq!(fields_of(&initial), pairs(&[("rate", "6")]));
    let initial = state.get_handler(&mut ids, get("rwrk")).initial;
    assert_eq!(
        fields_of(&initial),
        pairs(&[("connection", "0"), ("expire", "2000.1.1-00:00")])
    );
}

/// What a listener is sent, until it has to wait.
fn pushed(state: &AppState, id: &str, listener: &mut Subscription) -> Vec<Registration> {
    let mut sent = Vec::new();
    loop {
        let notification = match listener.receiver.try_recv() {
            Ok(()) => Notification::Message,
            Err(TryRecvError::Lagged(_)) => Notification::Lagged,
            Err(TryRecvError::Closed) => Notification::Closed,
            Err(TryRecvError::Empty) => return sent,
        };
        match state.notified(id, notification) {
            StreamAction::Push(registration) => sent.push(registration),
            StreamAction::Wait => {}
            StreamAction::End => panic!("the stream is to go on"),
        }
    }
}

#[test]
fn listeners_hear_of_later_sets() {
    let mut ids = ConnectionIds::new();
    let mut state = AppState::new();
    state.set_handler(set("a", &[("rate", "4")]));
    let mut first = state.get_handler(&mut ids, get("a"));
    let mut other = state.get_handler(&mut ids, get("b"));
    assert!(pushed(&state, "a", &mut first).is_empty());

    state.set_handler(set("a", &[("rate", "5")]));
    let mut late = state.get_handler(&mut ids, get("a"));
    let sent = pushed(&state, "a", &mut first);
    assert_eq!(sent.len(), 1);
    assert_eq!(sent[0].id, "a");
    assert_eq!(fields_of(&sent[0]), pairs(&[("rate", "5")]));
    assert!(pushed(&state, "b", &mut other).is_empty());
    assert!(pushed(&state, "a", &mut late).is_empty());
    assert_eq!(fields_of(&late.initial), pairs(&[("rate", "5")]));

    state.set_handler(set("b", &[]));
    assert!(pushed(&state, "a", &mut first).is_empty());
    assert_eq!(pushed(&state, "b", &mut other).len(), 1);
}

#[test]
fn what_becomes_of_a_notification() {
    let mut state = AppState::new();
    state.set_handler(set("a", &[("rate", "5")]));
    assert!(matches!(state.notified("a", Notification::Message), StreamAction::Push(_)));
    assert!(matches!(state.notified("a", Notification::Lagged), StreamAction::Wait));
    assert!(matches!(state.notified("a", Notification::Closed), StreamAction::End));
}

#[test]
fn the_last_set_is_pushed_last() {
    for sets in [1, 2, NOTIFIER_BACKLOG, NOTIFIER_BACKLOG + 1, 100] {
        let mut state = AppState::new();
        let mut listener = state.get_handler(&mut ConnectionIds::new(), get("a"));
        for n in 0..sets {
            let value = n.to_string();
            state.set_handler(set("a", &[("n", &value)]));
            state.set_handler(set("b", &[]));
        }
        let sent = pushed(&state, "a", &mut listener);
        assert_eq!(sent.len(), sets.min(NOTIFIER_BACKLOG));
        let last = (sets - 1).to_string();
        assert_eq!(fields_of(&sent[sent.len() - 1]), pairs(&[("n", &last)]));
    }
}

#[test]
fn channels_keep_sixteen_notifications() {
    let mut ids = ConnectionIds::new();
    let mut state = AppState::new();
    let mut listener = state.get_handler(&mut ids, get("a"));
    for _ in 0..17 {
        state.set_handler(set("a", &[]));
    }
    assert_eq!(NOTIFIER_BACKLOG, 16);
    assert!(matches!(listener.receiver.try_recv(), Err(TryRecvError::Lagged(1))));
    for _ in 0..16 {
        assert!(listener.receiver.try_recv().is_ok());
    }
    assert!(matches!(listener.receiver.try_recv(), Err(TryRecvError::Empty)));
}

#[test]
fn listeners_are_counted_while_they_are_open() {
    let mut ids = ConnectionIds::new();
    let mut state = AppState::new();
    state.set_handler(set("a", &[]));
    assert_eq!(listeners_of(&state.info_handler(), "a"), Some(0));
    let first = state.get_handler(&mut ids, get("a"));
    let second = state.get_handler(&mut ids, get("a"));
    state.get_handler(&mut ids, get("b"));
    assert_eq!(first.key, "a:0");
    assert_eq!(second.key, "a:1");
    let info = state.info_handler();
    assert_eq!(listeners_of(&info, "a"), Some(2));
    assert_eq!(listeners_of(&info, "rwrk"), Some(0));
    assert_eq!(listeners_of(&info, "b"), None);
    state.listener_gone(&first.key);
    state.listener_gone("no such key");
    assert_eq!(listeners_of(&state.info_handler(), "a"), Some(1));
    state.listener_gone(&second.key);
    assert_eq!(listeners_of(&state.info_handler(), "a"), Some(0));
}

#[test]
fn listeners_count_for_their_own_id_only() {
    let mut ids = ConnectionIds::new();
    let mut state = AppState::new();
    for id in ["a", "a:b", "ab", "a:0", "", ":"] {
        state.set_handler(set(id, &[]));
    }
    state.get_handler(&mut ids, get("a:b"));
    state.get_handler(&mut ids, get("ab"));
    state.get_handler(&mut ids, get("a:0"));
    state.get_handler(&mut ids, get("a:0"));
    state.get_handler(&mut ids, get(":"));
    let info = state.info_handler();
    assert_eq!(listeners_of(&info, "a"), Some(0));
    assert_eq!(listeners_of(&info, "a:b"), Some(1));
    assert_eq!(listeners_of(&info, "ab"), Some(1));
    assert_eq!(listeners_of(&info, "a:0"), Some(2));
    assert_eq!(listeners_of(&info, ""), Some(0));
    assert_eq!(listeners_of(&info, ":"), Some(1));
}

#[test]
fn every_listener_has_its_own_key() {
    let mut ids = ConnectionIds::new();
    let mut state = AppState::new();
    let mut keys = Vec::new();
    for n in 0..30 {
        keys.push(state.get_handler(&mut ids, get(["a", "b", "a:1"][n % 3])).key);
    }
    assert_eq!(keys[4], "b:4");
    keys.sort();
    keys.dedup();
    assert_eq!(keys.len(), 30);
}

#[test]
fn info_lists_every_registration_once() {
    let mut state = AppState::new();
    for n in 0..50 {
        let id = format!("id{}", n % 40);
        let value = n.to_string();
        state.set_handler(set(&id, &[("n", &value)]));
    }
    let info = state.info_handler();
    assert_eq!(info.registrations.len(), 41);
    let mut ids: Vec<String> = info.registrations.iter().map(|r| r.id.clone()).collect();
    ids.sort();
    ids.dedup();
    assert_eq!(ids.len(), 41);
    let mut counted: Vec<String> = info.listeners.iter().map(|c| c.id.clone()).collect();
    counted.sort();
    assert_eq!(counted, ids);
    let five = info.registrations.iter().find(|r| r.id == "id5").unwrap();
    assert_eq!(fields_of(five), pairs(&[("n", "45")]));
}

#[test]
fn the_services_of_a_process_share_their_numbers() {
    let mut ids = ConnectionIds::new();
    let mut one = AppState::new();
    let mut other = AppState::new();
    assert_eq!(one.get_handler(&mut ids, get("a")).key, "a:0");
    assert_eq!(other.get_handler(&mut ids, get("a")).key, "a:1");
    one.listener_gone("a:0");
    one.set_handler(set("a", &[]));
    assert_eq!(one.get_handler(&mut ids, get("a")).key, "a:2");
}
