use vr_lab_server::models::{ConnectionHealth, HeadsetState, Message, MessageVariant, Response, ResponseType, ServerState};

#[test]
fn message_type_discriminants() {
    let query: Message = MessageVariant::Query {}.into();
    let scene_change: Message = MessageVariant::ChangeScene { scene: 1 }.into();
    let object_focus: Message = MessageVariant::FocusOnObject { object: "object".to_owned() }.into();
    let attn: Message = MessageVariant::SetAttentionMode { attention: true }.into();
    let trans: Message = MessageVariant::SetTransparencyMode { transparency: true }.into();

    assert!(query.id() == 0);
    assert!(scene_change.id() == 1);
    assert!(object_focus.id() == 2);
    assert!(attn.id() == 3);
    assert!(trans.id() == 4);
}

#[test]
fn message_keeps_its_command() {
    let m: Message = MessageVariant::FocusOnObject { object: "globe".to_owned() }.into();
    match m.kwargs() {
        MessageVariant::FocusOnObject { object } => assert_eq!(object, "globe"),
        _ => panic!("wrong command"),
    }
    let c = m.clone();
    assert_eq!(c.id(), 2);
}

const MS: u64 = 1_000_000;

#[test]
fn health_without_round_trips_is_excellent() {
    assert_eq!(ConnectionHealth::from_times(0, &vec![]), ConnectionHealth::Excellent);
    assert_eq!(ConnectionHealth::from_times(0, &vec![(0, 900 * MS)]), ConnectionHealth::Excellent);
}

#[test]
fn health_thresholds() {
    assert_eq!(ConnectionHealth::from_times(1, &vec![(0, 49 * MS)]), ConnectionHealth::Excellent);
    assert_eq!(ConnectionHealth::from_times(1, &vec![(0, 50 * MS)]), ConnectionHealth::Good);
    assert_eq!(ConnectionHealth::from_times(1, &vec![(0, 199 * MS)]), ConnectionHealth::Good);
    assert_eq!(ConnectionHealth::from_times(1, &vec![(0, 200 * MS)]), ConnectionHealth::Poor);
}

#[test]
fn health_mean_latency() {
    // 40 ms and 70 ms average to 55 ms.
    let times = vec![(100 * MS, 140 * MS), (1_000 * MS, 1_070 * MS)];
    assert_eq!(ConnectionHealth::from_times(2, &times), ConnectionHealth::Good);
    // Sub-millisecond parts are dropped per round trip: 49.9 ms counts as 49 ms.
    let times = vec![(0, 49 * MS + 900_000)];
    assert_eq!(ConnectionHealth::from_times(1, &times), ConnectionHealth::Excellent);
}

#[test]
fn health_clock_going_backwards_counts_zero() {
    let times = vec![(500 * MS, 100 * MS)];
    assert_eq!(ConnectionHealth::from_times(1, &times), ConnectionHealth::Excellent);
}

#[test]
fn health_averages_first_ten_only() {
    let mut times = vec![(0, 10 * MS); 10];
    times.push((0, 10_000 * MS));
    assert_eq!(ConnectionHealth::from_times(11, &times), ConnectionHealth::Excellent);
}

#[test]
fn health_divides_by_count_even_when_fewer_pairs() {
    // Two round trips counted but one pair known: 120 ms / 2 = 60 ms.
    assert_eq!(ConnectionHealth::from_times(2, &vec![(0, 120 * MS)]), ConnectionHealth::Good);
}

#[test]
fn new_headset_state() {
    let h = HeadsetState::new("Student 1".to_owned());
    assert_eq!(h.name(), "Student 1");
    assert_eq!(h.recv(), 0);
    assert_eq!(h.connection_health(), ConnectionHealth::Excellent);
}

#[test]
fn headset_health_pairs_latest_sends() {
    let mut h = HeadsetState::new("a".to_owned());
    // Three sends, one reply: the reply is matched with the latest send.
    h.push_send_time(0);
    h.push_send_time(1_000 * MS);
    h.push_send_time(2_000 * MS);
    h.push_recv_time(2_300 * MS);
    assert_eq!(h.connection_health(), ConnectionHealth::Poor);

    let mut h = HeadsetState::new("b".to_owned());
    h.push_send_time(0);
    h.push_send_time(1_000 * MS);
    h.push_send_time(2_000 * MS);
    h.push_recv_time(2_010 * MS);
    assert_eq!(h.connection_health(), ConnectionHealth::Excellent);
}

#[test]
fn headset_health_pairs_first_sends() {
    let mut h = HeadsetState::new("c".to_owned());
    h.push_send_time(0);
    h.push_recv_time(100 * MS);
    h.push_send_time(1_000 * MS);
    h.push_recv_time(1_100 * MS);
    assert_eq!(h.connection_health(), ConnectionHealth::Good);
}

#[test]
fn push_response_keeps_count() {
    let mut h = HeadsetState::new("d".to_owned());
    h.push_response(Response { error: false, response: None });
    assert_eq!(h.recv(), 0);
}

fn error_response() -> Response {
    Response {
        error: true,
        response: Some(ResponseType::Error {
            message: "Object did not exist".to_owned(),
            detail: serde_json::Value::Null,
        }),
    }
}

#[test]
fn server_state_headsets() {
    let mut s: ServerState<u32> = ServerState::new();
    assert!(s.headset_iter().is_empty());
    s.push_headset("h1".to_owned(), 1);
    s.push_headset("h2".to_owned(), 2);
    s.push_headset("h1".to_owned(), 3);
    let mut listed: Vec<(String, u32)> = s.headset_iter().into_iter().map(|(k, v)| (k.to_owned(), *v)).collect();
    listed.sort();
    assert_eq!(listed, vec![("h1".to_owned(), 3), ("h2".to_owned(), 2)]);
    s.drop_headset("h1");
    let listed: Vec<(String, u32)> = s.headset_iter().into_iter().map(|(k, v)| (k.to_owned(), *v)).collect();
    assert_eq!(listed, vec![("h2".to_owned(), 2)]);
    s.drop_headset("absent");
    assert_eq!(s.headset_iter().len(), 1);
}

#[test]
fn connect_then_disconnect_forgets_headset() {
    let mut s: ServerState<u32> = ServerState::new();
    s.push_headset("h".to_owned(), 7);
    s.drop_headset("h");
    assert!(s.headset_iter().is_empty());
}

#[test]
fn server_state_messages_and_retransmission() {
    let mut s: ServerState<()> = ServerState::new();
    assert!(s.messages().is_empty());
    assert!(s.retransmission().is_none());
    s.push_message(MessageVariant::SetAttentionMode { attention: true }.into());
    assert!(s.retransmission().is_none());
    s.push_message(MessageVariant::ChangeScene { scene: 4 }.into());
    s.push_message(MessageVariant::ChangeScene { scene: 7 }.into());
    s.push_message(MessageVariant::FocusOnObject { object: "x".to_owned() }.into());
    assert_eq!(s.messages().len(), 4);
    let r = s.retransmission().unwrap();
    assert_eq!(r.id(), 1);
    match r.kwargs() {
        MessageVariant::ChangeScene { scene } => assert_eq!(*scene, 7),
        _ => panic!("not a scene change"),
    }
}

#[test]
fn error_response_is_recorded() {
    let mut h = HeadsetState::new("e".to_owned());
    h.push_response(error_response());
    h.push_recv_time(5);
    assert_eq!(h.recv(), 0);
}
