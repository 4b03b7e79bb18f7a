//! Wire codec round trips and error cases, exercised on concrete frames.

use robot_gateway::backend::{ConversionError, SignalMessage, SignalPayload};
use robot_gateway::codec::{from_client_json, to_client_json};
use robot_gateway::convert::{decode_frame, encode_frame};
use robot_gateway::signal::{
    CommandType, ControlPayload, NumberLit, WsIceCandidate, WsSessionDescription, WsSignalMessage,
};

fn num(s: &str) -> NumberLit {
    NumberLit::new(s).expect("valid number token")
}

fn sample_frames() -> Vec<WsSignalMessage> {
    vec![
        WsSignalMessage::ScreenRequest { robot_id: "r1".to_owned() },
        WsSignalMessage::RobotOffer {
            robot_id: "robot-7".to_owned(),
            offer: WsSessionDescription {
                sdp: "v=0\r\no=- 46117 2 IN IP4 127.0.0.1".to_owned(),
                sdp_type: "offer".to_owned(),
            },
        },
        WsSignalMessage::ClientAnswer {
            robot_id: "r2".to_owned(),
            answer: WsSessionDescription {
                sdp: "v=0 answer \"quoted\" \\backslash".to_owned(),
                sdp_type: "answer".to_owned(),
            },
        },
        WsSignalMessage::RobotIce {
            robot_id: "r3".to_owned(),
            ice: WsIceCandidate {
                candidate: "candidate:1 1 UDP 2122252543 192.0.2.1 54400 typ host".to_owned(),
                sdp_mid: "0".to_owned(),
                sdp_mline_index: 0,
            },
        },
        WsSignalMessage::ClientIce {
            robot_id: "r4".to_owned(),
            ice: WsIceCandidate {
                candidate: "candidate:2".to_owned(),
                sdp_mid: "audio".to_owned(),
                sdp_mline_index: -2147483648,
            },
        },
        WsSignalMessage::WebrtcError {
            robot_id: "r5".to_owned(),
            error: "ice failed\nline two\ttabbed".to_owned(),
        },
        WsSignalMessage::ControlCommand {
            robot_id: "r6".to_owned(),
            command: CommandType::Move,
            payload: Some(ControlPayload::Move {
                direction: "forward".to_owned(),
                speed: num("1.5"),
            }),
        },
        WsSignalMessage::ControlCommand {
            robot_id: "r6".to_owned(),
            command: CommandType::SetSpeed,
            payload: Some(ControlPayload::SetSpeed { speed: num("-2.5e-3") }),
        },
        WsSignalMessage::ControlCommand {
            robot_id: "r6".to_owned(),
            command: CommandType::PathFollow,
            payload: Some(ControlPayload::PathFollow { path_id: "dock-route-9".to_owned() }),
        },
        WsSignalMessage::ControlCommand {
            robot_id: "r6".to_owned(),
            command: CommandType::EmergencyStop,
            payload: None,
        },
        WsSignalMessage::ControlCommand {
            robot_id: "r6".to_owned(),
            command: CommandType::Stop,
            payload: None,
        },
        WsSignalMessage::ControlCommand {
            robot_id: "r6".to_owned(),
            command: CommandType::Dock,
            payload: None,
        },
    ]
}

#[test]
fn backend_roundtrip_every_variant() {
    for f in sample_frames() {
        let original = f.duplicate();
        let decoded = decode_frame(encode_frame(f)).expect("decode of encode");
        assert_eq!(decoded, original);
    }
}

#[test]
fn client_json_roundtrip_every_variant() {
    for f in sample_frames() {
        let original = f.duplicate();
        let text = to_client_json(f);
        let back = from_client_json(&text).expect("reparse of printed frame");
        assert_eq!(back, original);
    }
}

#[test]
fn printed_json_is_valid_json_elsewhere() {
    // The printer's output must parse as JSON by an independent parser.
    for f in sample_frames() {
        let text = to_client_json(f);
        let v: serde_json::Value = serde_json::from_str(&text).expect("serde parses it");
        assert!(v.get("type").is_some());
        assert!(v.get("robot_id").is_some());
    }
}

#[test]
fn printed_screen_request_exact_text() {
    let f = WsSignalMessage::ScreenRequest { robot_id: "r1".to_owned() };
    assert_eq!(to_client_json(f), "{\"type\":\"screen_request\",\"robot_id\":\"r1\"}");
}

#[test]
fn printed_control_command_exact_text() {
    let f = WsSignalMessage::ControlCommand {
        robot_id: "r1".to_owned(),
        command: CommandType::Move,
        payload: Some(ControlPayload::Move {
            direction: "left".to_owned(),
            speed: num("1"),
        }),
    };
    assert_eq!(
        to_client_json(f),
        "{\"type\":\"control_command\",\"robot_id\":\"r1\",\"command\":\"MOVE\",\
         \"payload_type\":\"move\",\"direction\":\"left\",\"speed\":1}"
    );
}

#[test]
fn parser_accepts_whitespace_and_field_order() {
    let back = from_client_json(
        " { \"robot_id\" : \"r1\" ,\n\t\"type\" : \"screen_request\" } ",
    )
    .expect("reordered, spaced frame parses");
    assert_eq!(back, WsSignalMessage::ScreenRequest { robot_id: "r1".to_owned() });
}

#[test]
fn parser_handles_escapes() {
    let f = WsSignalMessage::WebrtcError {
        robot_id: "r\"quote\\slash".to_owned(),
        error: "line\nbreak\u{1}low".to_owned(),
    };
    let original = f.duplicate();
    let text = to_client_json(f);
    let via_serde: serde_json::Value = serde_json::from_str(&text).expect("serde parses escapes");
    assert_eq!(via_serde["robot_id"].as_str().unwrap(), "r\"quote\\slash");
    assert_eq!(from_client_json(&text).expect("own parser"), original);
}

#[test]
fn malformed_json_is_rejected() {
    assert!(from_client_json("{\"type\":\"screen_request\"").is_err());
    assert!(from_client_json("not json at all").is_err());
    assert!(from_client_json("").is_err());
}

#[test]
fn unknown_frame_shape_is_rejected() {
    assert!(from_client_json("{\"type\":\"warp_drive\",\"robot_id\":\"r1\"}").is_err());
    assert!(from_client_json("{\"robot_id\":\"r1\"}").is_err());
    assert!(from_client_json("[1,2,3]").is_err());
    assert!(from_client_json("{\"type\":\"robot_offer\",\"robot_id\":\"r1\"}").is_err());
}

#[test]
fn decode_empty_payload_fails() {
    let m = SignalMessage { robot_id: "r1".to_owned(), payload: None };
    let e = decode_frame(m).expect_err("handshake has no client form");
    assert_eq!(e, ConversionError::EmptyPayload);
    assert_eq!(e.message(), "empty SignalMessage payload");
}

#[test]
fn decode_unknown_command_code_fails() {
    let m = SignalMessage {
        robot_id: "r1".to_owned(),
        payload: Some(SignalPayload::ControlCommand { command: 0, payload: None }),
    };
    let e = decode_frame(m).expect_err("unspecified code has no client form");
    assert_eq!(e, ConversionError::UnknownCommandCode { code: 0 });
    assert_eq!(e.message(), "unknown control command type value: 0");
    let m2 = SignalMessage {
        robot_id: "r1".to_owned(),
        payload: Some(SignalPayload::ControlCommand { command: -7, payload: None }),
    };
    assert_eq!(
        decode_frame(m2).expect_err("negative code").message(),
        "unknown control command type value: -7"
    );
}

#[test]
fn number_literal_accepts_exactly_the_grammar() {
    for ok in ["0", "1", "-1", "1.5", "-0.25", "1e9", "2E-3", "10.25e+4", "1.0"] {
        assert!(NumberLit::new(ok).is_some(), "{ok} should be accepted");
    }
    for bad in ["", "-", "01", "1.", ".5", "+1", "1e", "1e+", "abc", "0x1f", "1 "] {
        assert!(NumberLit::new(bad).is_none(), "{bad} should be rejected");
    }
}
