use vr_lab_server::models::{HeadsetState, Response};
use vr_lab_server::server::{
    Handshake, HandshakeAction, HandshakeEvent, LoopControl, ReceiveEvent, SendAction, SendEvent, SessionName,
    PROTOCOL_VERSION,
};

#[test]
fn session_names_count_up() {
    let mut counter: u32 = 0;
    assert_eq!(SessionName::get_new_name(&mut counter).session_name, "Student 1");
    assert_eq!(SessionName::get_new_name(&mut counter).session_name, "Student 2");
    assert_eq!(counter, 2);
}

#[test]
fn session_name_digits() {
    let mut counter: u32 = 9;
    assert_eq!(SessionName::get_new_name(&mut counter).session_name, "Student 10");
    let mut counter: u32 = 4_294_967_294;
    assert_eq!(SessionName::get_new_name(&mut counter).session_name, "Student 4294967295");
    let mut counter: u32 = 1_203_099;
    assert_eq!(SessionName::get_new_name(&mut counter).session_name, "Student 1203100");
}

fn run(id: Option<&str>, version_ok: bool, name_ok: bool, counter: &mut u32) -> (String, Option<(String, String)>) {
    let (hs, action) = Handshake::start();
    match action {
        HandshakeAction::SendVersion(v) => assert_eq!(v.version, PROTOCOL_VERSION),
        _ => panic!("handshake must open with the version"),
    }
    let (hs, action) = hs.step(HandshakeEvent::VersionSent { ok: version_ok }, counter);
    assert!(matches!(action, HandshakeAction::ReceiveId));
    let (hs, action) = hs.step(HandshakeEvent::IdReceived { headset_id: id.map(|s| s.to_owned()) }, counter);
    let name = match action {
        HandshakeAction::SendSessionName(n) => n.session_name,
        _ => panic!("a session name must be sent"),
    };
    let (hs, action) = hs.step(HandshakeEvent::SessionNameSent { ok: name_ok }, counter);
    assert!(matches!(hs, Handshake::Finished));
    match action {
        HandshakeAction::Finish(outcome) => (name, outcome),
        _ => panic!("handshake must finish"),
    }
}

#[test]
fn handshake_succeeds() {
    let mut counter = 0;
    let (name, outcome) = run(Some("uuid-1"), true, true, &mut counter);
    assert_eq!(name, "Student 1");
    assert_eq!(outcome, Some(("uuid-1".to_owned(), "Student 1".to_owned())));
}

#[test]
fn handshake_ignores_failed_version_send() {
    let mut counter = 3;
    let (_, outcome) = run(Some("x"), false, true, &mut counter);
    assert_eq!(outcome, Some(("x".to_owned(), "Student 4".to_owned())));
}

#[test]
fn handshake_without_id_still_names_session() {
    let mut counter = 0;
    let (name, outcome) = run(None, true, true, &mut counter);
    assert_eq!(name, "Student 1");
    assert_eq!(outcome, None);
    assert_eq!(counter, 1);
}

#[test]
fn handshake_fails_when_name_not_sent() {
    let mut counter = 0;
    let (_, outcome) = run(Some("y"), true, false, &mut counter);
    assert_eq!(outcome, None);
}

#[test]
fn receive_loop_records_replies() {
    let mut h = HeadsetState::new("s".to_owned());
    let c = h.on_receive(ReceiveEvent::Reply(Response { error: false, response: None }), 42);
    assert_eq!(c, LoopControl::Continue);
    assert_eq!(h.recv(), 1);
    h.push_send_time(0);
    assert_eq!(h.on_receive(ReceiveEvent::Undecodable, 50), LoopControl::Stop);
    assert_eq!(h.on_receive(ReceiveEvent::StreamEnded, 50), LoopControl::Stop);
    assert_eq!(h.on_receive(ReceiveEvent::StreamFailed, 50), LoopControl::Stop);
    assert_eq!(h.recv(), 1);
}

#[test]
fn send_loop_records_send_times() {
    let mut h = HeadsetState::new("s".to_owned());
    assert_eq!(h.on_send(SendEvent::Dequeued, 0), SendAction::Transmit);
    assert_eq!(h.on_send(SendEvent::Transmitted, 0), SendAction::AwaitNext);
    assert_eq!(h.on_send(SendEvent::TransmitFailed, 0), SendAction::Stop);
    assert_eq!(h.on_send(SendEvent::QueueClosed, 0), SendAction::Stop);
    // One send at 0 and one reply at 300 ms: poor.
    h.on_receive(ReceiveEvent::Reply(Response { error: false, response: None }), 300_000_000);
    assert_eq!(h.connection_health(), vr_lab_server::models::ConnectionHealth::Poor);
}
