use rmr_core::json::{JsonNumber, JsonValue};
use rmr_core::klippy::client::{
    update_state_from_notification, KlippyCommand, KlippySession, PrintStatus, ReconnectBackoff,
    SessionAction, SessionEnd, SessionEvent,
};

fn s(text: &str) -> JsonValue {
    JsonValue::String(text.to_string())
}

fn obj(members: Vec<(&str, JsonValue)>) -> JsonValue {
    JsonValue::Object(members.into_iter().map(|(k, v)| (k.to_string(), v)).collect())
}

fn uint(n: u64) -> JsonValue {
    JsonValue::Number(JsonNumber::PosInt(n))
}

fn member<'a>(v: &'a JsonValue, key: &str) -> &'a JsonValue {
    v.get(key).unwrap()
}

fn text(v: &JsonValue) -> String {
    v.as_str().unwrap().to_string()
}

#[test]
fn session_handshake_request_and_reconnect() {
    // Handshake on connect.
    let (mut session, handshake) = KlippySession::start();
    assert_eq!(text(member(&handshake, "method")), "emulator_identify");
    assert_eq!(text(member(&handshake, "jsonrpc")), "2.0");
    assert_eq!(member(&handshake, "id").as_u64(), Some(1));

    // The identify result is not awaited by anyone.
    let ack = obj(vec![("jsonrpc", s("2.0")), ("result", s("ok")), ("id", uint(1))]);
    assert!(matches!(session.handle(SessionEvent::Frame(ack)), SessionAction::Ignore));

    // A request from a client goes out with the next id.
    let action = session.handle(SessionEvent::Command(KlippyCommand::JsonRpcRequest {
        method: "printer.info".to_string(),
        params: obj(vec![]),
    }));
    let req_id = match action {
        SessionAction::Send { payload, reply_id } => {
            assert_eq!(text(member(&payload, "method")), "printer.info");
            let id = member(&payload, "id").as_u64().unwrap();
            assert_eq!(reply_id, Some(id));
            id
        }
        _ => panic!("expected a send"),
    };
    assert_eq!(req_id, 2);

    // Klippy answers; the reply goes back to the caller.
    let response = obj(vec![
        ("jsonrpc", s("2.0")),
        ("result", obj(vec![("state", s("ready"))])),
        ("id", uint(req_id)),
    ]);
    match session.handle(SessionEvent::Frame(response)) {
        SessionAction::Reply { id, result: Ok(result) } => {
            assert_eq!(id, req_id);
            assert_eq!(text(member(&result, "state")), "ready");
        }
        _ => panic!("expected a reply"),
    }

    // The socket closes: the connection is lost and a new one starts over.
    assert!(matches!(
        session.handle(SessionEvent::StreamEnded),
        SessionAction::Finish(SessionEnd::ConnectionLost)
    ));
    let (_again, handshake2) = KlippySession::start();
    assert_eq!(text(member(&handshake2, "method")), "emulator_identify");
}

#[test]
fn session_commands_are_numbered_in_order() {
    let (mut session, _) = KlippySession::start();
    match session.handle(SessionEvent::Command(KlippyCommand::EmergencyStop)) {
        SessionAction::Send { payload, reply_id } => {
            assert_eq!(reply_id, None);
            assert_eq!(text(member(&payload, "method")), "printer.emergency_stop");
            assert_eq!(member(&payload, "id").as_u64(), Some(2));
            assert!(payload.get("params").is_none());
        }
        _ => panic!("expected a send"),
    }
    match session.handle(SessionEvent::Command(KlippyCommand::SetTargetTemperature("210.5".to_string()))) {
        SessionAction::Send { payload, reply_id } => {
            assert_eq!(reply_id, None);
            assert_eq!(text(member(&payload, "method")), "printer.gcode.script");
            assert_eq!(text(member(member(&payload, "params"), "script")), "M104 S210.5");
            assert_eq!(member(&payload, "id").as_u64(), Some(3));
        }
        _ => panic!("expected a send"),
    }
    assert!(session.can_number_request());
}

#[test]
fn session_error_reply_and_unknown_ids() {
    let (mut session, _) = KlippySession::start();
    let _ = session.handle(SessionEvent::Command(KlippyCommand::JsonRpcRequest {
        method: "printer.objects.query".to_string(),
        params: JsonValue::Null,
    }));
    // A reply to an id nobody waits for is dropped.
    let stray = obj(vec![("result", s("x")), ("id", uint(99))]);
    assert!(matches!(session.handle(SessionEvent::Frame(stray)), SessionAction::Ignore));
    // An error reply is handed back as an error.
    let failed = obj(vec![("error", obj(vec![("message", s("boom"))])), ("id", uint(2))]);
    match session.handle(SessionEvent::Frame(failed)) {
        SessionAction::Reply { id: 2, result: Err(e) } => {
            assert_eq!(text(member(&e, "message")), "boom");
        }
        _ => panic!("expected an error reply"),
    }
    // The same id again is no longer awaited.
    let again = obj(vec![("result", s("late")), ("id", uint(2))]);
    assert!(matches!(session.handle(SessionEvent::Frame(again)), SessionAction::Ignore));
    // A reply without a result carries null.
    let _ = session.handle(SessionEvent::Command(KlippyCommand::JsonRpcRequest {
        method: "m".to_string(),
        params: JsonValue::Null,
    }));
    match session.handle(SessionEvent::Frame(obj(vec![("id", uint(3))]))) {
        SessionAction::Reply { id: 3, result: Ok(JsonValue::Null) } => {}
        _ => panic!("expected a null reply"),
    }
}

#[test]
fn session_finishes() {
    let (mut session, _) = KlippySession::start();
    assert!(matches!(
        session.handle(SessionEvent::CommandChannelClosed),
        SessionAction::Finish(SessionEnd::CommandsClosed)
    ));
    assert!(matches!(
        session.handle(SessionEvent::StreamFailed),
        SessionAction::Finish(SessionEnd::StreamFailed)
    ));
}

fn status_update(status: JsonValue) -> JsonValue {
    obj(vec![("method", s("notify_status_update")), ("params", JsonValue::Array(vec![status, uint(0)]))])
}

#[test]
fn notifications_update_the_state() {
    let (mut session, _) = KlippySession::start();
    let status = obj(vec![
        ("extruder", obj(vec![("temperature", uint(205)), ("target", JsonValue::Number(JsonNumber::Real(2.5f64.to_bits())))])),
        ("toolhead", obj(vec![("position", JsonValue::Array(vec![uint(1), uint(2), s("z"), uint(4)]))])),
        ("print_stats", obj(vec![("state", s("PRINTING")), ("progress", uint(0))])),
    ]);
    match session.handle(SessionEvent::Frame(status_update(status))) {
        SessionAction::UpdateStatus(p) => {
            assert_eq!(p.tool_temp, Some(JsonNumber::PosInt(205)));
            assert_eq!(p.target_temp, Some(JsonNumber::Real(2.5f64.to_bits())));
            let pos = p.position.unwrap();
            assert_eq!(pos.x, Some(JsonNumber::PosInt(1)));
            assert_eq!(pos.z, None);
            assert_eq!(pos.e, Some(JsonNumber::PosInt(4)));
            assert_eq!(p.print_status, Some(PrintStatus::Printing));
            assert_eq!(p.print_progress, Some(JsonNumber::PosInt(0)));
        }
        _ => panic!("expected a status update"),
    }
    // A status object that reports nothing known changes nothing.
    let quiet = status_update(obj(vec![("heater_bed", obj(vec![("temperature", uint(60))]))]));
    assert!(matches!(session.handle(SessionEvent::Frame(quiet)), SessionAction::Ignore));
    // Other notifications change nothing.
    let other = obj(vec![("method", s("notify_gcode_response")), ("params", JsonValue::Array(vec![s("ok")]))]);
    assert!(matches!(session.handle(SessionEvent::Frame(other)), SessionAction::Ignore));
    // A frame with an id is never a notification, even an id of null.
    let with_id = obj(vec![("method", s("notify_status_update")), ("id", JsonValue::Null)]);
    assert!(matches!(session.handle(SessionEvent::Frame(with_id)), SessionAction::Ignore));
}

#[test]
fn notification_details() {
    let params = JsonValue::Array(vec![obj(vec![
        ("toolhead", obj(vec![("position", JsonValue::Array(vec![uint(1), uint(2), uint(3)]))])),
        ("print_stats", obj(vec![("state", s("Paused"))])),
    ])]);
    let patch = update_state_from_notification("notify_status_update", &params).unwrap();
    assert_eq!(patch.position, None);
    assert_eq!(patch.print_status, Some(PrintStatus::Paused));
    assert_eq!(patch.print_status.unwrap().label(), "Paused");
    assert_eq!(PrintStatus::from_state_text("complete"), PrintStatus::Idle);
    assert_eq!(PrintStatus::from_state_text("printing").label(), "Printing");
    assert_eq!(PrintStatus::Idle.label(), "Idle");
    assert!(update_state_from_notification("notify_status_update", &JsonValue::Array(vec![])).is_none());
    assert!(update_state_from_notification("notify_status_update", &obj(vec![])).is_none());
    assert!(update_state_from_notification("other", &params).is_none());
}

#[test]
fn backoff_doubles_up_to_the_limit() {
    let mut b = ReconnectBackoff::new();
    let mut seen = Vec::new();
    for _ in 0..8 {
        seen.push(b.delay_secs());
        b.after_attempt();
    }
    assert_eq!(seen, vec![1, 2, 4, 8, 16, 32, 32, 32]);
    b.on_connected();
    assert_eq!(b.delay_secs(), 1);
}

#[test]
fn json_lookups() {
    let v = obj(vec![("a", uint(1)), ("a", uint(2)), ("b", JsonValue::Number(JsonNumber::NegInt(-3)))]);
    assert_eq!(v.get("a").unwrap().as_u64(), Some(1));
    assert_eq!(v.get("b").unwrap().as_u64(), None);
    assert_eq!(v.get("b").unwrap().as_number(), Some(JsonNumber::NegInt(-3)));
    assert!(v.get("c").is_none());
    assert!(uint(1).get("a").is_none());
    assert_eq!(v.take("a").unwrap().as_u64(), Some(1));
}

#[test]
fn request_stays_awaited_across_other_events() {
    let (mut session, _) = KlippySession::start();
    let first = session.handle(SessionEvent::Command(KlippyCommand::JsonRpcRequest {
        method: "printer.info".to_string(),
        params: obj(vec![]),
    }));
    assert!(matches!(first, SessionAction::Send { reply_id: Some(2), .. }));
    session.handle(SessionEvent::Command(KlippyCommand::EmergencyStop));
    let stray = session.handle(SessionEvent::Frame(obj(vec![("id", uint(9)), ("result", uint(0))])));
    assert!(matches!(stray, SessionAction::Ignore));
    let reply = session.handle(SessionEvent::Frame(obj(vec![("id", uint(2)), ("result", uint(5))])));
    match reply {
        SessionAction::Reply { id: 2, result: Ok(v) } => assert_eq!(v.as_u64(), Some(5)),
        _ => panic!("expected the reply to request 2"),
    }
    let again = session.handle(SessionEvent::Frame(obj(vec![("id", uint(2)), ("result", uint(5))])));
    assert!(matches!(again, SessionAction::Ignore));
}

#[test]
fn state_text_case() {
    assert_eq!(PrintStatus::from_state_text("PRINTING"), PrintStatus::Printing);
    assert_eq!(PrintStatus::from_state_text("Paused"), PrintStatus::Paused);
    assert_eq!(PrintStatus::from_lowered_text("printing"), PrintStatus::Printing);
    assert_eq!(PrintStatus::from_lowered_text("Printing"), PrintStatus::Idle);
    assert_eq!(PrintStatus::from_lowered_text("standby"), PrintStatus::Idle);
}
