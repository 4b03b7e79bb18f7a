//! The control command route: raw client requests, their validation per
//! the payload rules, and the acknowledgement and error frames the route
//! answers with. A bad request is answered and the loop continues; only a
//! closed or broken socket ends it.

use vstd::prelude::*;

use crate::codec::get_num;
use crate::codec::get_num_field;
use crate::codec::get_str;
use crate::codec::get_str_field;
use crate::codec::obj_get;
use crate::codec::obj_member;
use crate::codec::str_eq_lit;
use crate::json::Json;
use crate::json::JsonV;
use crate::json::lemma_view_members;
use crate::json::parse_json_exec;
use crate::json::parse_json_spec;
use crate::json::print_json;
use crate::json::print_json_onto;
use crate::json::view_members;
use crate::signal::CommandType;
use crate::signal::ControlPayload;
use crate::signal::FrameV;
use crate::signal::NumberLit;
use crate::signal::PayloadV;
use crate::signal::WsSignalMessage;
use crate::text::chars_to_string;
use crate::text::str_to_chars;

verus! {

/// The discriminant of a raw client control request.
#[derive(Clone, Copy, PartialEq, Eq, Structural, Debug)]
pub enum ControlRequestType {
    Move,
    Stop,
    EStop,
    SetSpeed,
    Dock,
    PathFollow,
}

/// A raw client control request: its discriminant and its payload as
/// parsed JSON (an absent payload parses as null).
#[derive(Debug)]
pub struct ControlRequest {
    pub kind: ControlRequestType,
    pub payload: Json,
}

/// The request discriminant of a wire name, if recognized.
pub open spec fn request_kind_of_name(n: Seq<char>) -> Option<ControlRequestType> {
    if n == "move"@ { Option::Some(ControlRequestType::Move) }
    else if n == "stop"@ { Option::Some(ControlRequestType::Stop) }
    else if n == "e_stop"@ { Option::Some(ControlRequestType::EStop) }
    else if n == "set_speed"@ { Option::Some(ControlRequestType::SetSpeed) }
    else if n == "dock"@ { Option::Some(ControlRequestType::Dock) }
    else if n == "path_follow"@ { Option::Some(ControlRequestType::PathFollow) }
    else { Option::None }
}

/// A failure to turn a client text into a control command.
#[derive(Clone, Copy, PartialEq, Eq, Structural, Debug)]
pub enum ControlError {
    /// The text is not JSON.
    NotJson,
    /// The JSON is not an object with a string `type` field.
    TypeMissing,
    /// The `type` string names no known command.
    UnknownType,
    /// A `payload` field is present but neither an object nor null.
    PayloadNotObject,
    /// A move command without a string `direction`.
    DirectionRequired,
    /// A set-speed command without a numeric `speed`.
    SpeedRequired,
    /// A path-follow command without a string `path_id`.
    PathIdRequired,
}

/// The description text of a control failure, sent in the error frame.
pub open spec fn control_error_text(e: ControlError) -> Seq<char> {
    match e {
        ControlError::NotJson => "invalid control request"@,
        ControlError::TypeMissing => "control request type is missing"@,
        ControlError::UnknownType => "unknown control request type"@,
        ControlError::PayloadNotObject => "control payload must be an object"@,
        ControlError::DirectionRequired => "direction is required for move command"@,
        ControlError::SpeedRequired => "speed is required for set_speed command"@,
        ControlError::PathIdRequired => "path_id is required for path_follow command"@,
    }
}

impl ControlError {
    /// Renders the failure for the error frame.
    pub fn message(&self) -> (r: String)
        ensures
            r@ == control_error_text(*self),
    {
        match self {
            ControlError::NotJson => "invalid control request".to_owned(),
            ControlError::TypeMissing => "control request type is missing".to_owned(),
            ControlError::UnknownType => "unknown control request type".to_owned(),
            ControlError::PayloadNotObject => "control payload must be an object".to_owned(),
            ControlError::DirectionRequired => "direction is required for move command".to_owned(),
            ControlError::SpeedRequired => "speed is required for set_speed command".to_owned(),
            ControlError::PathIdRequired => "path_id is required for path_follow command"
                .to_owned(),
        }
    }
}

/// The payload members a request offers: an absent or null `payload` is
/// an empty object; anything but an object fails.
pub open spec fn request_payload_members(ms: Seq<(Seq<char>, JsonV)>) -> Option<
    Seq<(Seq<char>, JsonV)>,
> {
    match obj_get(ms, "payload"@) {
        Option::None => Option::Some(Seq::empty()),
        Option::Some(JsonV::Null) => Option::Some(Seq::empty()),
        Option::Some(JsonV::Obj(pm)) => Option::Some(pm),
        Option::Some(_) => Option::None,
    }
}

/// The frame a control text maps to, or the failure, for a given robot:
/// the text must be a JSON object whose `type` names a command; required
/// payload fields follow the payload rules, and a move without a speed
/// gets speed one.
pub open spec fn parse_control_spec(text: Seq<char>, robot_id: Seq<char>) -> Result<
    FrameV,
    ControlError,
> {
    match parse_json_spec(text) {
        Option::None => Result::Err(ControlError::NotJson),
        Option::Some(v) => match v {
            JsonV::Obj(ms) => match get_str(ms, "type"@) {
                Option::None => Result::Err(ControlError::TypeMissing),
                Option::Some(t) => match request_kind_of_name(t) {
                    Option::None => Result::Err(ControlError::UnknownType),
                    Option::Some(kind) => match request_payload_members(ms) {
                        Option::None => Result::Err(ControlError::PayloadNotObject),
                        Option::Some(pm) => control_frame_of(kind, pm, robot_id),
                    },
                },
            },
            _ => Result::Err(ControlError::TypeMissing),
        },
    }
}

/// The frame of a validated request kind and payload members.
pub open spec fn control_frame_of(
    kind: ControlRequestType,
    pm: Seq<(Seq<char>, JsonV)>,
    robot_id: Seq<char>,
) -> Result<FrameV, ControlError> {
    match kind {
        ControlRequestType::Move => match get_str(pm, "direction"@) {
            Option::None => Result::Err(ControlError::DirectionRequired),
            Option::Some(d) => Result::Ok(
                FrameV::ControlCommand {
                    robot_id,
                    command: CommandType::Move,
                    payload: Option::Some(
                        PayloadV::Move {
                            direction: d,
                            speed: match get_num(pm, "speed"@) {
                                Option::Some(sp) => sp,
                                Option::None => "1.0"@,
                            },
                        },
                    ),
                },
            ),
        },
        ControlRequestType::Stop => Result::Ok(
            FrameV::ControlCommand {
                robot_id,
                command: CommandType::Stop,
                payload: Option::None,
            },
        ),
        ControlRequestType::EStop => Result::Ok(
            FrameV::ControlCommand {
                robot_id,
                command: CommandType::EmergencyStop,
                payload: Option::None,
            },
        ),
        ControlRequestType::SetSpeed => match get_num(pm, "speed"@) {
            Option::None => Result::Err(ControlError::SpeedRequired),
            Option::Some(sp) => Result::Ok(
                FrameV::ControlCommand {
                    robot_id,
                    command: CommandType::SetSpeed,
                    payload: Option::Some(PayloadV::SetSpeed { speed: sp }),
                },
            ),
        },
        ControlRequestType::Dock => Result::Ok(
            FrameV::ControlCommand {
                robot_id,
                command: CommandType::Dock,
                payload: Option::None,
            },
        ),
        ControlRequestType::PathFollow => match get_str(pm, "path_id"@) {
            Option::None => Result::Err(ControlError::PathIdRequired),
            Option::Some(p) => Result::Ok(
                FrameV::ControlCommand {
                    robot_id,
                    command: CommandType::PathFollow,
                    payload: Option::Some(PayloadV::PathFollow { path_id: p }),
                },
            ),
        },
    }
}

fn request_kind_from_name(n: &String) -> (r: Option<ControlRequestType>)
    ensures
        r == request_kind_of_name(n@),
{
    if str_eq_lit(n, "move") { Some(ControlRequestType::Move) }
    else if str_eq_lit(n, "stop") { Some(ControlRequestType::Stop) }
    else if str_eq_lit(n, "e_stop") { Some(ControlRequestType::EStop) }
    else if str_eq_lit(n, "set_speed") { Some(ControlRequestType::SetSpeed) }
    else if str_eq_lit(n, "dock") { Some(ControlRequestType::Dock) }
    else if str_eq_lit(n, "path_follow") { Some(ControlRequestType::PathFollow) }
    else { None }
}

/// Validates one control text for `robot_id` and builds the signaling
/// frame to forward, or reports exactly what is wrong with the request;
/// one bad request never ends the route.
pub fn parse_control_request(text: &str, robot_id: &str) -> (r: Result<
    WsSignalMessage,
    ControlError,
>)
    ensures
        match r {
            Result::Ok(f) => parse_control_spec(text@, robot_id@) == Result::<
                FrameV,
                ControlError,
            >::Ok(f@),
            Result::Err(e) => parse_control_spec(text@, robot_id@) == Result::<
                FrameV,
                ControlError,
            >::Err(e),
        },
{
    let chars = str_to_chars(text);
    let parsed = match parse_json_exec(&chars) {
        Some(v) => v,
        None => {
            return Err(ControlError::NotJson);
        },
    };
    let ms = match &parsed {
        Json::Obj(ms) => ms,
        _ => {
            return Err(ControlError::TypeMissing);
        },
    };
    let tag = match get_str_field(ms, "type") {
        Some(t) => t,
        None => {
            return Err(ControlError::TypeMissing);
        },
    };
    let kind = match request_kind_from_name(&tag) {
        Some(k) => k,
        None => {
            return Err(ControlError::UnknownType);
        },
    };
    let empty_payload: Vec<(String, Json)> = Vec::new();
    proof {
        assert(view_members(empty_payload@) =~= Seq::<(Seq<char>, JsonV)>::empty());
    }
    let pm: &Vec<(String, Json)> = match obj_member(ms, "payload") {
        None => &empty_payload,
        Some(p) => match p {
            Json::Null => &empty_payload,
            Json::Obj(pmm) => pmm,
            _ => {
                return Err(ControlError::PayloadNotObject);
            },
        },
    };
    let rid: String = robot_id.to_owned();
    match kind {
        ControlRequestType::Move => match get_str_field(pm, "direction") {
            None => Err(ControlError::DirectionRequired),
            Some(d) => {
                let speed = match get_num_field(pm, "speed") {
                    Some(sp) => sp,
                    None => NumberLit::from_text("1.0".to_owned()),
                };
                Ok(WsSignalMessage::ControlCommand {
                    robot_id: rid,
                    command: CommandType::Move,
                    payload: Some(ControlPayload::Move { direction: d, speed }),
                })
            },
        },
        ControlRequestType::Stop => Ok(WsSignalMessage::ControlCommand {
            robot_id: rid,
            command: CommandType::Stop,
            payload: None,
        }),
        ControlRequestType::EStop => Ok(WsSignalMessage::ControlCommand {
            robot_id: rid,
            command: CommandType::EmergencyStop,
            payload: None,
        }),
        ControlRequestType::SetSpeed => match get_num_field(pm, "speed") {
            None => Err(ControlError::SpeedRequired),
            Some(sp) => Ok(WsSignalMessage::ControlCommand {
                robot_id: rid,
                command: CommandType::SetSpeed,
                payload: Some(ControlPayload::SetSpeed { speed: sp }),
            }),
        },
        ControlRequestType::Dock => Ok(WsSignalMessage::ControlCommand {
            robot_id: rid,
            command: CommandType::Dock,
            payload: None,
        }),
        ControlRequestType::PathFollow => match get_str_field(pm, "path_id") {
            None => Err(ControlError::PathIdRequired),
            Some(p) => Ok(WsSignalMessage::ControlCommand {
                robot_id: rid,
                command: CommandType::PathFollow,
                payload: Some(ControlPayload::PathFollow { path_id: p }),
            }),
        },
    }
}

/// A response frame on the control route.
#[derive(Debug)]
pub enum WsControlResponse {
    Ack { robot_id: String, message: String },
    Error { robot_id: String, message: String },
}

/// The acknowledgement text sent after a delivered command.
pub open spec fn control_ack_json_of(message: Seq<char>) -> Seq<char> {
    print_json(
        JsonV::Obj(
            seq![
                ("type"@, JsonV::Str("control_ack"@)),
                ("message"@, JsonV::Str(message)),
            ],
        ),
    )
}

/// The error text sent after a failed command.
pub open spec fn control_error_json_of(message: Seq<char>) -> Seq<char> {
    print_json(
        JsonV::Obj(
            seq![
                ("type"@, JsonV::Str("control_error"@)),
                ("message"@, JsonV::Str(message)),
            ],
        ),
    )
}

fn response_json(tag: &str, message: &str) -> (r: String)
    ensures
        r@ == print_json(
            JsonV::Obj(
                seq![
                    ("type"@, JsonV::Str(tag@)),
                    ("message"@, JsonV::Str(message@)),
                ],
            ),
        ),
{
    let mut ms: Vec<(String, Json)> = Vec::new();
    ms.push(("type".to_owned(), Json::Str(tag.to_owned())));
    ms.push(("message".to_owned(), Json::Str(message.to_owned())));
    let j = Json::Obj(ms);
    proof {
        lemma_view_members(ms@);
        assert(ms@.len() == 2);
        assert(ms@[0].0@ == "type"@);
        assert(ms@[0].1@ == JsonV::Str(tag@));
        assert(ms@[1].0@ == "message"@);
        assert(ms@[1].1@ == JsonV::Str(message@));
        assert(view_members(ms@)[0] == ("type"@, JsonV::Str(tag@)));
        assert(view_members(ms@)[1] == ("message"@, JsonV::Str(message@)));
        assert(view_members(ms@) =~= seq![
            ("type"@, JsonV::Str(tag@)),
            ("message"@, JsonV::Str(message@)),
        ]);
    }
    let mut out: Vec<char> = Vec::new();
    print_json_onto(&j, &mut out);
    chars_to_string(&out)
}

/// The acknowledgement frame for the client, as wire text.
pub fn control_ack_json(message: &str) -> (r: String)
    ensures
        r@ == control_ack_json_of(message@),
{
    response_json("control_ack", message)
}

/// The error frame for the client, as wire text.
pub fn control_error_json(message: &str) -> (r: String)
    ensures
        r@ == control_error_json_of(message@),
{
    response_json("control_error", message)
}

/// What arrived on the client socket, stripped to what the decision
/// needs.
#[derive(Clone, Copy, PartialEq, Eq, Structural, Debug)]
pub enum SocketEvent {
    /// A text frame (handled separately).
    TextFrame,
    /// The client closed the connection.
    CloseFrame,
    /// A non-text, non-close frame.
    OtherFrame,
    /// The socket failed.
    SocketError,
}

/// Whether the read loop goes on after an event.
#[derive(Clone, Copy, PartialEq, Eq, Structural, Debug)]
pub enum LoopDirective {
    Continue,
    Stop,
}

/// The control route's read loop survives every frame but a close or a
/// socket failure; in particular a text frame never ends it by itself,
/// whatever the text held.
pub fn control_loop_directive(ev: SocketEvent) -> (r: LoopDirective)
    ensures
        r == (match ev {
            SocketEvent::TextFrame => LoopDirective::Continue,
            SocketEvent::CloseFrame => LoopDirective::Stop,
            SocketEvent::OtherFrame => LoopDirective::Continue,
            SocketEvent::SocketError => LoopDirective::Stop,
        }),
{
    match ev {
        SocketEvent::TextFrame => LoopDirective::Continue,
        SocketEvent::CloseFrame => LoopDirective::Stop,
        SocketEvent::OtherFrame => LoopDirective::Continue,
        SocketEvent::SocketError => LoopDirective::Stop,
    }
}

/// After a delivery failure that survived the retry, an error frame is
/// owed in every case, and the loop ends exactly when the failure shows a
/// structurally broken backend connection (no sender could be had).
pub fn control_failure_directive(reopen_ok: bool, second: crate::route::SendOutcome) -> (r: (
    bool,
    LoopDirective,
))
    ensures
        r.0 == true,
        r.1 == (if !reopen_ok || second == crate::route::SendOutcome::NoSender {
            LoopDirective::Stop
        } else {
            LoopDirective::Continue
        }),
{
    if !reopen_ok || matches!(second, crate::route::SendOutcome::NoSender) {
        (true, LoopDirective::Stop)
    } else {
        (true, LoopDirective::Continue)
    }
}


/// The payload of a move command.
#[derive(Debug)]
pub struct MovePayload {
    /// One of forward, backward, left or right.
    pub direction: String,
    pub speed: NumberLit,
}

/// The payload of a command that takes none.
#[derive(Debug, Default)]
pub struct EmptyPayload {}

/// The payload of a set-speed command.
#[derive(Debug)]
pub struct SetSpeedPayload {
    pub speed: NumberLit,
}

/// The payload of a path-follow command.
#[derive(Debug)]
pub struct PathFollowPayload {
    pub path_id: String,
}

/// A fully-typed control message, the control route's data model with the
/// payload rules already applied.
#[derive(Debug)]
pub enum WsControlMessage {
    Move { robot_id: String, payload: MovePayload },
    Stop { robot_id: String, payload: EmptyPayload },
    EmergencyStop { robot_id: String, payload: EmptyPayload },
    SetSpeed { robot_id: String, payload: SetSpeedPayload },
    Dock { robot_id: String, payload: EmptyPayload },
    PathFollow { robot_id: String, payload: PathFollowPayload },
}

} // verus!
