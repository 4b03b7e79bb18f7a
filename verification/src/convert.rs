//! The binary half of the wire codec: the lossless, discriminant-preserving
//! mapping between client-facing frames and backend messages.
//!
//! Mapping a frame to a backend message is total; the reverse direction
//! fails exactly on a missing payload or an unrecognized command code.

use vstd::prelude::*;

use crate::backend::CommandPayload;
use crate::backend::ConversionError;
use crate::backend::SignalMessage;
use crate::backend::SignalPayload;
use crate::backend::command_code;
use crate::backend::command_code_spec;
use crate::backend::command_of_code;
use crate::backend::command_of_code_spec;
use crate::backend::lemma_command_code_roundtrip;
use crate::signal::ControlPayload;
use crate::signal::WsIceCandidate;
use crate::signal::WsSessionDescription;
use crate::signal::WsSignalMessage;

verus! {

/// The backend payload of a client control payload, field for field.
pub open spec fn encode_payload_spec(p: ControlPayload) -> CommandPayload {
    match p {
        ControlPayload::Move { direction, speed } => CommandPayload::Move { direction, speed },
        ControlPayload::SetSpeed { speed } => CommandPayload::SetSpeed { speed },
        ControlPayload::PathFollow { path_id } => CommandPayload::PathFollow { path_id },
    }
}

/// The backend message of a client frame: same discriminant, same fields,
/// the command discriminant as its wire code.
pub open spec fn encode_spec(f: WsSignalMessage) -> SignalMessage {
    match f {
        WsSignalMessage::ScreenRequest { robot_id } => SignalMessage {
            robot_id,
            payload: Option::Some(SignalPayload::ScreenRequest),
        },
        WsSignalMessage::RobotOffer { robot_id, offer } => SignalMessage {
            robot_id,
            payload: Option::Some(SignalPayload::RobotOffer {
                sdp: offer.sdp,
                sdp_type: offer.sdp_type,
            }),
        },
        WsSignalMessage::ClientAnswer { robot_id, answer } => SignalMessage {
            robot_id,
            payload: Option::Some(SignalPayload::ClientAnswer {
                sdp: answer.sdp,
                sdp_type: answer.sdp_type,
            }),
        },
        WsSignalMessage::RobotIce { robot_id, ice } => SignalMessage {
            robot_id,
            payload: Option::Some(SignalPayload::RobotIce {
                candidate: ice.candidate,
                sdp_mid: ice.sdp_mid,
                sdp_mline_index: ice.sdp_mline_index,
            }),
        },
        WsSignalMessage::ClientIce { robot_id, ice } => SignalMessage {
            robot_id,
            payload: Option::Some(SignalPayload::ClientIce {
                candidate: ice.candidate,
                sdp_mid: ice.sdp_mid,
                sdp_mline_index: ice.sdp_mline_index,
            }),
        },
        WsSignalMessage::WebrtcError { robot_id, error } => SignalMessage {
            robot_id,
            payload: Option::Some(SignalPayload::WebrtcError { error }),
        },
        WsSignalMessage::ControlCommand { robot_id, command, payload } => SignalMessage {
            robot_id,
            payload: Option::Some(SignalPayload::ControlCommand {
                command: command_code_spec(command),
                payload: match payload {
                    Option::Some(p) => Option::Some(encode_payload_spec(p)),
                    Option::None => Option::None,
                },
            }),
        },
    }
}

/// The client frame of a backend message; fails exactly on a missing
/// payload or an unrecognized command code.
pub open spec fn decode_spec(m: SignalMessage) -> Result<WsSignalMessage, ConversionError> {
    match m.payload {
        Option::None => Result::Err(ConversionError::EmptyPayload),
        Option::Some(p) => match p {
            SignalPayload::ScreenRequest => Result::Ok(
                WsSignalMessage::ScreenRequest { robot_id: m.robot_id },
            ),
            SignalPayload::RobotOffer { sdp, sdp_type } => Result::Ok(
                WsSignalMessage::RobotOffer {
                    robot_id: m.robot_id,
                    offer: WsSessionDescription { sdp, sdp_type },
                },
            ),
            SignalPayload::ClientAnswer { sdp, sdp_type } => Result::Ok(
                WsSignalMessage::ClientAnswer {
                    robot_id: m.robot_id,
                    answer: WsSessionDescription { sdp, sdp_type },
                },
            ),
            SignalPayload::RobotIce { candidate, sdp_mid, sdp_mline_index } => Result::Ok(
                WsSignalMessage::RobotIce {
                    robot_id: m.robot_id,
                    ice: WsIceCandidate { candidate, sdp_mid, sdp_mline_index },
                },
            ),
            SignalPayload::ClientIce { candidate, sdp_mid, sdp_mline_index } => Result::Ok(
                WsSignalMessage::ClientIce {
                    robot_id: m.robot_id,
                    ice: WsIceCandidate { candidate, sdp_mid, sdp_mline_index },
                },
            ),
            SignalPayload::WebrtcError { error } => Result::Ok(
                WsSignalMessage::WebrtcError { robot_id: m.robot_id, error },
            ),
            SignalPayload::ControlCommand { command, payload } => {
                match command_of_code_spec(command) {
                    Option::None => Result::Err(
                        ConversionError::UnknownCommandCode { code: command },
                    ),
                    Option::Some(c) => Result::Ok(
                        WsSignalMessage::ControlCommand {
                            robot_id: m.robot_id,
                            command: c,
                            payload: match payload {
                                Option::Some(CommandPayload::Move { direction, speed }) => {
                                    Option::Some(ControlPayload::Move { direction, speed })
                                },
                                Option::Some(CommandPayload::SetSpeed { speed }) => Option::Some(
                                    ControlPayload::SetSpeed { speed },
                                ),
                                Option::Some(CommandPayload::PathFollow { path_id }) => {
                                    Option::Some(ControlPayload::PathFollow { path_id })
                                },
                                Option::None => Option::None,
                            },
                        },
                    ),
                }
            },
        },
    }
}

/// Maps a client frame to its backend message. Total: every frame has a
/// backend form.
pub fn encode_frame(f: WsSignalMessage) -> (r: SignalMessage)
    ensures
        r == encode_spec(f),
{
    match f {
        WsSignalMessage::ScreenRequest { robot_id } => SignalMessage {
            robot_id,
            payload: Some(SignalPayload::ScreenRequest),
        },
        WsSignalMessage::RobotOffer { robot_id, offer } => SignalMessage {
            robot_id,
            payload: Some(SignalPayload::RobotOffer {
                sdp: offer.sdp,
                sdp_type: offer.sdp_type,
            }),
        },
        WsSignalMessage::ClientAnswer { robot_id, answer } => SignalMessage {
            robot_id,
            payload: Some(SignalPayload::ClientAnswer {
                sdp: answer.sdp,
                sdp_type: answer.sdp_type,
            }),
        },
        WsSignalMessage::RobotIce { robot_id, ice } => SignalMessage {
            robot_id,
            payload: Some(SignalPayload::RobotIce {
                candidate: ice.candidate,
                sdp_mid: ice.sdp_mid,
                sdp_mline_index: ice.sdp_mline_index,
            }),
        },
        WsSignalMessage::ClientIce { robot_id, ice } => SignalMessage {
            robot_id,
            payload: Some(SignalPayload::ClientIce {
                candidate: ice.candidate,
                sdp_mid: ice.sdp_mid,
                sdp_mline_index: ice.sdp_mline_index,
            }),
        },
        WsSignalMessage::WebrtcError { robot_id, error } => SignalMessage {
            robot_id,
            payload: Some(SignalPayload::WebrtcError { error }),
        },
        WsSignalMessage::ControlCommand { robot_id, command, payload } => SignalMessage {
            robot_id,
            payload: Some(SignalPayload::ControlCommand {
                command: command_code(command),
                payload: match payload {
                    Some(p) => Some(match p {
                        ControlPayload::Move { direction, speed } => CommandPayload::Move {
                            direction,
                            speed,
                        },
                        ControlPayload::SetSpeed { speed } => CommandPayload::SetSpeed { speed },
                        ControlPayload::PathFollow { path_id } => CommandPayload::PathFollow {
                            path_id,
                        },
                    }),
                    None => None,
                },
            }),
        },
    }
}

/// Maps a backend message to a client frame, failing exactly where the
/// message has no client-facing equivalent.
pub fn decode_frame(m: SignalMessage) -> (r: Result<WsSignalMessage, ConversionError>)
    ensures
        r == decode_spec(m),
        r is Err <==> (m.payload is None || (m.payload matches Option::Some(
            SignalPayload::ControlCommand { command, .. },
        ) && command_of_code_spec(command) is None)),
{
    let SignalMessage { robot_id, payload } = m;
    match payload {
        None => Err(ConversionError::EmptyPayload),
        Some(p) => match p {
            SignalPayload::ScreenRequest => Ok(WsSignalMessage::ScreenRequest { robot_id }),
            SignalPayload::RobotOffer { sdp, sdp_type } => Ok(WsSignalMessage::RobotOffer {
                robot_id,
                offer: WsSessionDescription { sdp, sdp_type },
            }),
            SignalPayload::ClientAnswer { sdp, sdp_type } => Ok(WsSignalMessage::ClientAnswer {
                robot_id,
                answer: WsSessionDescription { sdp, sdp_type },
            }),
            SignalPayload::RobotIce { candidate, sdp_mid, sdp_mline_index } => Ok(
                WsSignalMessage::RobotIce {
                    robot_id,
                    ice: WsIceCandidate { candidate, sdp_mid, sdp_mline_index },
                },
            ),
            SignalPayload::ClientIce { candidate, sdp_mid, sdp_mline_index } => Ok(
                WsSignalMessage::ClientIce {
                    robot_id,
                    ice: WsIceCandidate { candidate, sdp_mid, sdp_mline_index },
                },
            ),
            SignalPayload::WebrtcError { error } => Ok(WsSignalMessage::WebrtcError {
                robot_id,
                error,
            }),
            SignalPayload::ControlCommand { command, payload } => {
                match command_of_code(command) {
                    None => Err(ConversionError::UnknownCommandCode { code: command }),
                    Some(c) => Ok(WsSignalMessage::ControlCommand {
                        robot_id,
                        command: c,
                        payload: match payload {
                            Some(CommandPayload::Move { direction, speed }) => Some(
                                ControlPayload::Move { direction, speed },
                            ),
                            Some(CommandPayload::SetSpeed { speed }) => Some(
                                ControlPayload::SetSpeed { speed },
                            ),
                            Some(CommandPayload::PathFollow { path_id }) => Some(
                                ControlPayload::PathFollow { path_id },
                            ),
                            None => None,
                        },
                    }),
                }
            },
        },
    }
}

/// Round trip: decoding an encoded frame gives back the frame, field for
/// field, for every frame.
pub proof fn lemma_frame_roundtrip(f: WsSignalMessage)
    ensures
        decode_spec(encode_spec(f)) == Result::<WsSignalMessage, ConversionError>::Ok(f),
{
    match f {
        WsSignalMessage::ControlCommand { robot_id, command, payload } => {
            lemma_command_code_roundtrip(command);
        },
        _ => {},
    }
}

} // verus!
