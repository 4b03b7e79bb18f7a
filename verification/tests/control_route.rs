//! Control-route request validation, response frames, handshake routing,
//! and the retry-once delivery policy.

use robot_gateway::control::{
    control_ack_json, control_error_json, control_failure_directive, control_loop_directive,
    parse_control_request, ControlError, LoopDirective, SocketEvent,
};
use robot_gateway::route::{
    after_reopen, after_send, extract_robot_id, relay_delivery_directive, route_path,
    DeliveryPhase, DeliveryStep, Route, SendOutcome,
};
use robot_gateway::signal::{CommandType, ControlPayload, NumberLit, WsSignalMessage};

#[test]
fn move_command_is_accepted() {
    let got = parse_control_request(
        "{\"type\":\"move\",\"payload\":{\"direction\":\"forward\",\"speed\":1}}",
        "r1",
    )
    .expect("valid move command");
    let want = WsSignalMessage::ControlCommand {
        robot_id: "r1".to_owned(),
        command: CommandType::Move,
        payload: Some(ControlPayload::Move {
            direction: "forward".to_owned(),
            speed: NumberLit::new("1").unwrap(),
        }),
    };
    assert_eq!(got, want);
    assert_eq!(
        control_ack_json("command accepted"),
        "{\"type\":\"control_ack\",\"message\":\"command accepted\"}"
    );
}

#[test]
fn set_speed_without_speed_is_answered_and_survivable() {
    let e = parse_control_request("{\"type\":\"set_speed\",\"payload\":{}}", "r1")
        .expect_err("speed is required");
    assert_eq!(e, ControlError::SpeedRequired);
    assert_eq!(e.message(), "speed is required for set_speed command");
    assert_eq!(
        control_error_json(&e.message()),
        "{\"type\":\"control_error\",\"message\":\"speed is required for set_speed command\"}"
    );
    // A text frame, however bad, never ends the control loop by itself.
    assert_eq!(control_loop_directive(SocketEvent::TextFrame), LoopDirective::Continue);
}

#[test]
fn unrecognized_type_is_answered_and_survivable() {
    let e = parse_control_request("{\"type\":\"self_destruct\",\"payload\":{}}", "r1")
        .expect_err("unknown command name");
    assert_eq!(e, ControlError::UnknownType);
    assert_eq!(control_loop_directive(SocketEvent::TextFrame), LoopDirective::Continue);
    assert_eq!(control_loop_directive(SocketEvent::CloseFrame), LoopDirective::Stop);
    assert_eq!(control_loop_directive(SocketEvent::OtherFrame), LoopDirective::Continue);
    assert_eq!(control_loop_directive(SocketEvent::SocketError), LoopDirective::Stop);
}

#[test]
fn control_request_validation_rules() {
    // Not JSON at all.
    assert_eq!(
        parse_control_request("{oops", "r1").unwrap_err(),
        ControlError::NotJson
    );
    // No type field.
    assert_eq!(
        parse_control_request("{\"payload\":{}}", "r1").unwrap_err(),
        ControlError::TypeMissing
    );
    // Payload must be an object (or null, or absent).
    assert_eq!(
        parse_control_request("{\"type\":\"move\",\"payload\":7}", "r1").unwrap_err(),
        ControlError::PayloadNotObject
    );
    assert_eq!(
        parse_control_request("{\"type\":\"move\",\"payload\":{}}", "r1").unwrap_err(),
        ControlError::DirectionRequired
    );
    assert_eq!(
        parse_control_request("{\"type\":\"path_follow\",\"payload\":{}}", "r1").unwrap_err(),
        ControlError::PathIdRequired
    );
    // Null and absent payloads act as empty objects.
    let stop = parse_control_request("{\"type\":\"stop\",\"payload\":null}", "r9").unwrap();
    assert_eq!(
        stop,
        WsSignalMessage::ControlCommand {
            robot_id: "r9".to_owned(),
            command: CommandType::Stop,
            payload: None,
        }
    );
    let estop = parse_control_request("{\"type\":\"e_stop\"}", "r9").unwrap();
    assert_eq!(
        estop,
        WsSignalMessage::ControlCommand {
            robot_id: "r9".to_owned(),
            command: CommandType::EmergencyStop,
            payload: None,
        }
    );
    let dock = parse_control_request("{\"type\":\"dock\",\"payload\":{}}", "r9").unwrap();
    assert_eq!(
        dock,
        WsSignalMessage::ControlCommand {
            robot_id: "r9".to_owned(),
            command: CommandType::Dock,
            payload: None,
        }
    );
}

#[test]
fn move_without_speed_gets_speed_one() {
    let got = parse_control_request(
        "{\"type\":\"move\",\"payload\":{\"direction\":\"left\"}}",
        "r1",
    )
    .unwrap();
    let want = WsSignalMessage::ControlCommand {
        robot_id: "r1".to_owned(),
        command: CommandType::Move,
        payload: Some(ControlPayload::Move {
            direction: "left".to_owned(),
            speed: NumberLit::new("1.0").unwrap(),
        }),
    };
    assert_eq!(got, want);
}

#[test]
fn move_with_non_numeric_speed_gets_speed_one() {
    let got = parse_control_request(
        "{\"type\":\"move\",\"payload\":{\"direction\":\"left\",\"speed\":\"fast\"}}",
        "r1",
    )
    .unwrap();
    match got {
        WsSignalMessage::ControlCommand { payload: Some(ControlPayload::Move { speed, .. }), .. } => {
            assert_eq!(speed.as_str(), "1.0");
        },
        other => panic!("unexpected frame: {other:?}"),
    }
}

#[test]
fn set_speed_with_non_numeric_speed_is_an_error() {
    let e = parse_control_request(
        "{\"type\":\"set_speed\",\"payload\":{\"speed\":\"fast\"}}",
        "r1",
    )
    .unwrap_err();
    assert_eq!(e, ControlError::SpeedRequired);
}

#[test]
fn robot_id_extraction() {
    assert_eq!(extract_robot_id("/ws/screen/r1", "/ws/screen/").as_deref(), Some("r1"));
    assert_eq!(extract_robot_id("/ws/screen/r1///", "/ws/screen/").as_deref(), Some("r1"));
    assert_eq!(extract_robot_id("/ws/screen/", "/ws/screen/").as_deref(), Some(""));
    assert!(extract_robot_id("/ws/control/r1", "/ws/screen/").is_none());
    assert!(extract_robot_id("/ws", "/ws/screen/").is_none());
}

#[test]
fn handshake_routing() {
    match route_path("/ws/screen/bot-1") {
        Route::Screen { robot_id } => assert_eq!(robot_id, "bot-1"),
        other => panic!("unexpected route: {other:?}"),
    }
    match route_path("/ws/control/bot-2/") {
        Route::Control { robot_id } => assert_eq!(robot_id, "bot-2"),
        other => panic!("unexpected route: {other:?}"),
    }
    assert!(matches!(route_path("/metrics"), Route::Unsupported));
    assert!(matches!(route_path("/ws/screen/"), Route::Unsupported));
    assert!(matches!(route_path(""), Route::Unsupported));
}

#[test]
fn retry_policy_first_try_succeeds() {
    let (p, step) = after_send(DeliveryPhase::FirstAttempt, SendOutcome::Sent);
    assert_eq!(p, DeliveryPhase::Done { delivered: true });
    assert_eq!(step, DeliveryStep::Finish);
}

#[test]
fn retry_policy_reopen_then_deliver_exactly_once() {
    let (p, step) = after_send(DeliveryPhase::FirstAttempt, SendOutcome::ChannelClosed);
    assert_eq!(p, DeliveryPhase::Reopening);
    assert_eq!(step, DeliveryStep::Reopen);
    let (p, step) = after_reopen(p, true);
    assert_eq!(p, DeliveryPhase::RetryAttempt);
    assert_eq!(step, DeliveryStep::Send);
    let (p, step) = after_send(p, SendOutcome::Sent);
    assert_eq!(p, DeliveryPhase::Done { delivered: true });
    assert_eq!(step, DeliveryStep::Finish);
}

#[test]
fn retry_policy_failure_paths_and_route_verdicts() {
    // Reopen itself fails: undelivered, one reopen, no second send.
    let (p, _) = after_send(DeliveryPhase::FirstAttempt, SendOutcome::NoSender);
    let (p, step) = after_reopen(p, false);
    assert_eq!(p, DeliveryPhase::Done { delivered: false });
    assert_eq!(step, DeliveryStep::Finish);
    // The relay route closes on an undelivered frame; stays open otherwise.
    assert_eq!(relay_delivery_directive(false), LoopDirective::Stop);
    assert_eq!(relay_delivery_directive(true), LoopDirective::Continue);
    // The control route answers with an error frame in every failure, and
    // ends the loop exactly when no sender could be had at all.
    assert_eq!(
        control_failure_directive(false, SendOutcome::ChannelClosed),
        (true, LoopDirective::Stop)
    );
    assert_eq!(
        control_failure_directive(true, SendOutcome::NoSender),
        (true, LoopDirective::Stop)
    );
    assert_eq!(
        control_failure_directive(true, SendOutcome::ChannelClosed),
        (true, LoopDirective::Continue)
    );
}
