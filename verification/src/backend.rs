//! The backend wire message union: the binary-schema counterpart of the
//! client-facing frames, exchanged over the one shared backend stream.
//!
//! The command discriminant travels as a raw code so that the wire side can
//! carry values this crate does not know; decoding such a value fails.

use vstd::prelude::*;

use crate::number::print_i32_spec;
use crate::number::print_i32;
use crate::signal::CommandType;
use crate::signal::NumberLit;
use crate::text::chars_to_string;
use crate::text::str_to_chars;

verus! {

/// Wire code carried for a command discriminant that this crate does not
/// recognize (the unspecified value of the backend enumeration).
pub open spec fn unknown_command_code() -> int {
    0
}

/// The wire code of each recognized command discriminant.
pub open spec fn command_code_spec(c: CommandType) -> i32 {
    match c {
        CommandType::Move => 1,
        CommandType::Stop => 2,
        CommandType::EmergencyStop => 3,
        CommandType::SetSpeed => 4,
        CommandType::Dock => 5,
        CommandType::PathFollow => 6,
    }
}

/// The command discriminant of a wire code, if recognized.
pub open spec fn command_of_code_spec(code: i32) -> Option<CommandType> {
    if code == 1 { Option::Some(CommandType::Move) }
    else if code == 2 { Option::Some(CommandType::Stop) }
    else if code == 3 { Option::Some(CommandType::EmergencyStop) }
    else if code == 4 { Option::Some(CommandType::SetSpeed) }
    else if code == 5 { Option::Some(CommandType::Dock) }
    else if code == 6 { Option::Some(CommandType::PathFollow) }
    else { Option::None }
}

/// The two code maps invert each other on recognized discriminants.
pub proof fn lemma_command_code_roundtrip(c: CommandType)
    ensures
        command_of_code_spec(command_code_spec(c)) == Option::Some(c),
{
}

pub fn command_code(c: CommandType) -> (r: i32)
    ensures
        r == command_code_spec(c),
{
    match c {
        CommandType::Move => 1,
        CommandType::Stop => 2,
        CommandType::EmergencyStop => 3,
        CommandType::SetSpeed => 4,
        CommandType::Dock => 5,
        CommandType::PathFollow => 6,
    }
}

pub fn command_of_code(code: i32) -> (r: Option<CommandType>)
    ensures
        r == command_of_code_spec(code),
{
    if code == 1 { Some(CommandType::Move) }
    else if code == 2 { Some(CommandType::Stop) }
    else if code == 3 { Some(CommandType::EmergencyStop) }
    else if code == 4 { Some(CommandType::SetSpeed) }
    else if code == 5 { Some(CommandType::Dock) }
    else if code == 6 { Some(CommandType::PathFollow) }
    else { None }
}

/// Variant-dependent command payload on the backend wire.
#[derive(Debug)]
pub enum CommandPayload {
    Move { direction: String, speed: NumberLit },
    SetSpeed { speed: NumberLit },
    PathFollow { path_id: String },
}

/// Payload union of a backend message.
#[derive(Debug)]
pub enum SignalPayload {
    ScreenRequest,
    RobotOffer { sdp: String, sdp_type: String },
    ClientAnswer { sdp: String, sdp_type: String },
    RobotIce { candidate: String, sdp_mid: String, sdp_mline_index: i32 },
    ClientIce { candidate: String, sdp_mid: String, sdp_mline_index: i32 },
    WebrtcError { error: String },
    ControlCommand { command: i32, payload: Option<CommandPayload> },
}

/// A message on the shared backend stream. The robot identifier is carried
/// inside every message because the stream is shared by all sessions; a
/// handshake message carries no payload.
#[derive(Debug)]
pub struct SignalMessage {
    pub robot_id: String,
    pub payload: Option<SignalPayload>,
}

/// The handshake message that binds a session: a robot identifier and no
/// payload.
pub fn hello_message(robot_id: String) -> (r: SignalMessage)
    ensures
        r.robot_id == robot_id,
        r.payload is None,
{
    SignalMessage { robot_id, payload: None }
}

pub open spec fn cmd_payload_eqv(a: CommandPayload, b: CommandPayload) -> bool {
    match (a, b) {
        (
            CommandPayload::Move { direction: d1, speed: s1 },
            CommandPayload::Move { direction: d2, speed: s2 },
        ) => d1@ == d2@ && s1@ == s2@,
        (
            CommandPayload::SetSpeed { speed: s1 },
            CommandPayload::SetSpeed { speed: s2 },
        ) => s1@ == s2@,
        (
            CommandPayload::PathFollow { path_id: p1 },
            CommandPayload::PathFollow { path_id: p2 },
        ) => p1@ == p2@,
        _ => false,
    }
}

pub open spec fn payload_eqv(a: SignalPayload, b: SignalPayload) -> bool {
    match (a, b) {
        (SignalPayload::ScreenRequest, SignalPayload::ScreenRequest) => true,
        (
            SignalPayload::RobotOffer { sdp: s1, sdp_type: t1 },
            SignalPayload::RobotOffer { sdp: s2, sdp_type: t2 },
        ) => s1@ == s2@ && t1@ == t2@,
        (
            SignalPayload::ClientAnswer { sdp: s1, sdp_type: t1 },
            SignalPayload::ClientAnswer { sdp: s2, sdp_type: t2 },
        ) => s1@ == s2@ && t1@ == t2@,
        (
            SignalPayload::RobotIce { candidate: c1, sdp_mid: m1, sdp_mline_index: i1 },
            SignalPayload::RobotIce { candidate: c2, sdp_mid: m2, sdp_mline_index: i2 },
        ) => c1@ == c2@ && m1@ == m2@ && i1 == i2,
        (
            SignalPayload::ClientIce { candidate: c1, sdp_mid: m1, sdp_mline_index: i1 },
            SignalPayload::ClientIce { candidate: c2, sdp_mid: m2, sdp_mline_index: i2 },
        ) => c1@ == c2@ && m1@ == m2@ && i1 == i2,
        (
            SignalPayload::WebrtcError { error: e1 },
            SignalPayload::WebrtcError { error: e2 },
        ) => e1@ == e2@,
        (
            SignalPayload::ControlCommand { command: c1, payload: p1 },
            SignalPayload::ControlCommand { command: c2, payload: p2 },
        ) => c1 == c2 && match (p1, p2) {
            (Option::Some(x), Option::Some(y)) => cmd_payload_eqv(x, y),
            (Option::None, Option::None) => true,
            _ => false,
        },
        _ => false,
    }
}

/// Content equality of two backend messages, field for field.
pub open spec fn msg_eqv(a: SignalMessage, b: SignalMessage) -> bool {
    &&& a.robot_id@ == b.robot_id@
    &&& match (a.payload, b.payload) {
        (Option::Some(x), Option::Some(y)) => payload_eqv(x, y),
        (Option::None, Option::None) => true,
        _ => false,
    }
}

impl CommandPayload {
    pub fn duplicate(&self) -> (r: CommandPayload)
        ensures
            r == *self,
    {
        match self {
            CommandPayload::Move { direction, speed } => CommandPayload::Move {
                direction: direction.clone(),
                speed: speed.duplicate(),
            },
            CommandPayload::SetSpeed { speed } => CommandPayload::SetSpeed {
                speed: speed.duplicate(),
            },
            CommandPayload::PathFollow { path_id } => CommandPayload::PathFollow {
                path_id: path_id.clone(),
            },
        }
    }
}

impl PartialEq for CommandPayload {
    fn eq(&self, other: &CommandPayload) -> (r: bool) {
        match (self, other) {
            (
                CommandPayload::Move { direction: d1, speed: s1 },
                CommandPayload::Move { direction: d2, speed: s2 },
            ) => *d1 == *d2 && *s1 == *s2,
            (
                CommandPayload::SetSpeed { speed: s1 },
                CommandPayload::SetSpeed { speed: s2 },
            ) => *s1 == *s2,
            (
                CommandPayload::PathFollow { path_id: p1 },
                CommandPayload::PathFollow { path_id: p2 },
            ) => *p1 == *p2,
            _ => false,
        }
    }
}

impl vstd::std_specs::cmp::PartialEqSpecImpl for CommandPayload {
    open spec fn obeys_eq_spec() -> bool {
        true
    }

    open spec fn eq_spec(&self, other: &CommandPayload) -> bool {
        cmd_payload_eqv(*self, *other)
    }
}

impl SignalPayload {
    pub fn duplicate(&self) -> (r: SignalPayload)
        ensures
            r == *self,
    {
        match self {
            SignalPayload::ScreenRequest => SignalPayload::ScreenRequest,
            SignalPayload::RobotOffer { sdp, sdp_type } => SignalPayload::RobotOffer {
                sdp: sdp.clone(),
                sdp_type: sdp_type.clone(),
            },
            SignalPayload::ClientAnswer { sdp, sdp_type } => SignalPayload::ClientAnswer {
                sdp: sdp.clone(),
                sdp_type: sdp_type.clone(),
            },
            SignalPayload::RobotIce { candidate, sdp_mid, sdp_mline_index } => {
                SignalPayload::RobotIce {
                    candidate: candidate.clone(),
                    sdp_mid: sdp_mid.clone(),
                    sdp_mline_index: *sdp_mline_index,
                }
            },
            SignalPayload::ClientIce { candidate, sdp_mid, sdp_mline_index } => {
                SignalPayload::ClientIce {
                    candidate: candidate.clone(),
                    sdp_mid: sdp_mid.clone(),
                    sdp_mline_index: *sdp_mline_index,
                }
            },
            SignalPayload::WebrtcError { error } => SignalPayload::WebrtcError {
                error: error.clone(),
            },
            SignalPayload::ControlCommand { command, payload } => SignalPayload::ControlCommand {
                command: *command,
                payload: match payload {
                    Option::Some(p) => Option::Some(p.duplicate()),
                    Option::None => Option::None,
                },
            },
        }
    }
}

impl PartialEq for SignalPayload {
    fn eq(&self, other: &SignalPayload) -> (r: bool) {
        match (self, other) {
            (SignalPayload::ScreenRequest, SignalPayload::ScreenRequest) => true,
            (
                SignalPayload::RobotOffer { sdp: s1, sdp_type: t1 },
                SignalPayload::RobotOffer { sdp: s2, sdp_type: t2 },
            ) => *s1 == *s2 && *t1 == *t2,
            (
                SignalPayload::ClientAnswer { sdp: s1, sdp_type: t1 },
                SignalPayload::ClientAnswer { sdp: s2, sdp_type: t2 },
            ) => *s1 == *s2 && *t1 == *t2,
            (
                SignalPayload::RobotIce { candidate: c1, sdp_mid: m1, sdp_mline_index: i1 },
                SignalPayload::RobotIce { candidate: c2, sdp_mid: m2, sdp_mline_index: i2 },
            ) => *c1 == *c2 && *m1 == *m2 && *i1 == *i2,
            (
                SignalPayload::ClientIce { candidate: c1, sdp_mid: m1, sdp_mline_index: i1 },
                SignalPayload::ClientIce { candidate: c2, sdp_mid: m2, sdp_mline_index: i2 },
            ) => *c1 == *c2 && *m1 == *m2 && *i1 == *i2,
            (
                SignalPayload::WebrtcError { error: e1 },
                SignalPayload::WebrtcError { error: e2 },
            ) => *e1 == *e2,
            (
                SignalPayload::ControlCommand { command: c1, payload: p1 },
                SignalPayload::ControlCommand { command: c2, payload: p2 },
            ) => *c1 == *c2 && match (p1, p2) {
                (Option::Some(x), Option::Some(y)) => *x == *y,
                (Option::None, Option::None) => true,
                _ => false,
            },
            _ => false,
        }
    }
}

impl vstd::std_specs::cmp::PartialEqSpecImpl for SignalPayload {
    open spec fn obeys_eq_spec() -> bool {
        true
    }

    open spec fn eq_spec(&self, other: &SignalPayload) -> bool {
        payload_eqv(*self, *other)
    }
}

impl SignalMessage {
    pub fn duplicate(&self) -> (r: SignalMessage)
        ensures
            r == *self,
    {
        SignalMessage {
            robot_id: self.robot_id.clone(),
            payload: match &self.payload {
                Option::Some(p) => Option::Some(p.duplicate()),
                Option::None => Option::None,
            },
        }
    }
}

impl PartialEq for SignalMessage {
    fn eq(&self, other: &SignalMessage) -> (r: bool) {
        self.robot_id == other.robot_id && match (&self.payload, &other.payload) {
            (Option::Some(x), Option::Some(y)) => *x == *y,
            (Option::None, Option::None) => true,
            _ => false,
        }
    }
}

impl vstd::std_specs::cmp::PartialEqSpecImpl for SignalMessage {
    open spec fn obeys_eq_spec() -> bool {
        true
    }

    open spec fn eq_spec(&self, other: &SignalMessage) -> bool {
        msg_eqv(*self, *other)
    }
}

/// The failure of mapping a backend message to a client-facing frame.
#[derive(Debug)]
pub enum ConversionError {
    /// The message carried no payload at all (as a handshake does).
    EmptyPayload,
    /// The command discriminant code has no client-facing equivalent.
    UnknownCommandCode { code: i32 },
}

/// The description text of a conversion failure.
pub open spec fn conversion_error_text(e: ConversionError) -> Seq<char> {
    match e {
        ConversionError::EmptyPayload => "empty SignalMessage payload"@,
        ConversionError::UnknownCommandCode { code } => "unknown control command type value: "@
            + print_i32_spec(code as int),
    }
}

impl ConversionError {
    /// Renders the failure for reporting to a client or a log.
    pub fn message(&self) -> (r: String)
        ensures
            r@ == conversion_error_text(*self),
    {
        match self {
            ConversionError::EmptyPayload => {
                let mut v = str_to_chars("empty SignalMessage payload");
                chars_to_string(&v)
            },
            ConversionError::UnknownCommandCode { code } => {
                let mut v = str_to_chars("unknown control command type value: ");
                print_i32(*code, &mut v);
                chars_to_string(&v)
            },
        }
    }

    pub fn duplicate(&self) -> (r: ConversionError)
        ensures
            r == *self,
    {
        match self {
            ConversionError::EmptyPayload => ConversionError::EmptyPayload,
            ConversionError::UnknownCommandCode { code } => ConversionError::UnknownCommandCode {
                code: *code,
            },
        }
    }
}

impl PartialEq for ConversionError {
    fn eq(&self, other: &ConversionError) -> (r: bool) {
        match (self, other) {
            (ConversionError::EmptyPayload, ConversionError::EmptyPayload) => true,
            (
                ConversionError::UnknownCommandCode { code: a },
                ConversionError::UnknownCommandCode { code: b },
            ) => *a == *b,
            _ => false,
        }
    }
}

impl vstd::std_specs::cmp::PartialEqSpecImpl for ConversionError {
    open spec fn obeys_eq_spec() -> bool {
        true
    }

    open spec fn eq_spec(&self, other: &ConversionError) -> bool {
        *self == *other
    }
}

} // verus!
