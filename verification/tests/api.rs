use vr_lab_server::api::{accept_command, broadcast_reply, headsets_status, ApiStatus, HeadsetInfo};
use vr_lab_server::models::{ConnectionHealth, HeadsetState, MessageVariant};
use vr_lab_server::server::ReceiveEvent;

#[test]
fn status_codes() {
    assert_eq!(ApiStatus::Success.code(), 200);
    assert_eq!(ApiStatus::BadRequest.code(), 400);
    assert_eq!(ApiStatus::MethodNotAllowed.code(), 405);
    assert_eq!(ApiStatus::InternalServerError.code(), 500);
}

#[test]
fn headsets_listing_is_get_only() {
    assert_eq!(headsets_status(true), ApiStatus::Success);
    assert_eq!(headsets_status(false), ApiStatus::MethodNotAllowed);
}

#[test]
fn command_kind_must_match_path() {
    let ok = accept_command(1, MessageVariant::ChangeScene { scene: 2 });
    assert_eq!(ok.unwrap().id(), 1);
    let bad = accept_command(3, MessageVariant::ChangeScene { scene: 2 });
    assert_eq!(bad.err(), Some(ApiStatus::BadRequest));
    let ok = accept_command(4, MessageVariant::SetTransparencyMode { transparency: false });
    assert!(ok.is_ok());
    let bad = accept_command(0, MessageVariant::FocusOnObject { object: "o".to_owned() });
    assert!(bad.is_err());
}

#[test]
fn broadcast_replies() {
    let r = broadcast_reply(Ok(()));
    assert_eq!(r.status, ApiStatus::Success);
    assert_eq!(r.body, None);
    let r = broadcast_reply(Err("channel closed".to_owned()));
    assert_eq!(r.status, ApiStatus::InternalServerError);
    assert_eq!(r.body.as_deref(), Some("Failed to broadcast message: channel closed"));
}

#[test]
fn headset_info_collection() {
    let mut a = HeadsetState::new("Student 1".to_owned());
    a.push_send_time(0);
    a.on_receive(ReceiveEvent::Reply(vr_lab_server::models::Response { error: false, response: None }), 70_000_000);
    let b = HeadsetState::new("Student 2".to_owned());
    let listed = vec![("id-a", &a), ("id-b", &b)];
    let infos = HeadsetInfo::collect_from_state(&listed);
    assert_eq!(infos.len(), 2);
    assert_eq!(infos[0].0, "id-a");
    assert_eq!(infos[0].1.name, "Student 1");
    assert_eq!(infos[0].1.recv, 1);
    assert_eq!(infos[0].1.connection_health, ConnectionHealth::Good);
    assert_eq!(infos[1].0, "id-b");
    assert_eq!(infos[1].1.recv, 0);
    assert_eq!(infos[1].1.connection_health, ConnectionHealth::Excellent);
}
