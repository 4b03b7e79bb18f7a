//! Client-facing signaling frames: the tagged union exchanged with web
//! clients, together with the spec-level view of each frame.

use vstd::prelude::*;

use crate::number::is_num_token;
use crate::number::is_num_token_exec;
use crate::text::str_to_chars;

verus! {

/// Discriminant of a robot control command.
#[derive(Clone, Copy, PartialEq, Eq, Structural, Debug)]
pub enum CommandType {
    Move,
    Stop,
    EmergencyStop,
    SetSpeed,
    Dock,
    PathFollow,
}

/// A numeric wire field, carried verbatim as its decimal token so that no
/// precision is lost in transit. The token always satisfies the JSON
/// number grammar.
#[derive(Debug)]
pub struct NumberLit {
    text: String,
}

impl View for NumberLit {
    type V = Seq<char>;

    closed spec fn view(&self) -> Seq<char> {
        self.text@
    }
}

impl NumberLit {
    /// Accepts exactly the well-formed number tokens.
    pub fn new(s: &str) -> (r: Option<NumberLit>)
        ensures
            r is Some <==> is_num_token(s@),
            r is Some ==> r->Some_0@ == s@,
    {
        let chars = str_to_chars(s);
        if is_num_token_exec(&chars) {
            Some(NumberLit { text: s.to_owned() })
        } else {
            None
        }
    }

    /// Wraps text that the caller has already read with the number
    /// grammar (the lexer only yields such tokens).
    pub(crate) fn from_text(text: String) -> (r: NumberLit)
        ensures
            r@ == text@,
    {
        NumberLit { text }
    }

    pub open spec fn wf(&self) -> bool {
        is_num_token(self@)
    }

    /// The token text.
    pub fn as_str(&self) -> (r: &str)
        ensures
            r@ == self@,
    {
        self.text.as_str()
    }

    pub fn duplicate(&self) -> (r: NumberLit)
        ensures
            r == *self,
    {
        NumberLit { text: self.text.clone() }
    }
}

impl PartialEq for NumberLit {
    fn eq(&self, other: &NumberLit) -> (r: bool) {
        self.text == other.text
    }
}

impl vstd::std_specs::cmp::PartialEqSpecImpl for NumberLit {
    open spec fn obeys_eq_spec() -> bool {
        true
    }

    open spec fn eq_spec(&self, other: &NumberLit) -> bool {
        self@ == other@
    }
}

/// An SDP session description carried in an offer or answer.
#[derive(Debug)]
pub struct WsSessionDescription {
    pub sdp: String,
    /// "offer" or "answer"; carried verbatim.
    pub sdp_type: String,
}

/// Spec-level contents of a session description.
pub struct SdpV {
    pub sdp: Seq<char>,
    pub sdp_type: Seq<char>,
}

impl View for WsSessionDescription {
    type V = SdpV;

    open spec fn view(&self) -> SdpV {
        SdpV { sdp: self.sdp@, sdp_type: self.sdp_type@ }
    }
}

impl WsSessionDescription {
    pub fn duplicate(&self) -> (r: WsSessionDescription)
        ensures
            r == *self,
    {
        WsSessionDescription { sdp: self.sdp.clone(), sdp_type: self.sdp_type.clone() }
    }
}

impl PartialEq for WsSessionDescription {
    fn eq(&self, other: &WsSessionDescription) -> (r: bool) {
        self.sdp == other.sdp && self.sdp_type == other.sdp_type
    }
}

impl vstd::std_specs::cmp::PartialEqSpecImpl for WsSessionDescription {
    open spec fn obeys_eq_spec() -> bool {
        true
    }

    open spec fn eq_spec(&self, other: &WsSessionDescription) -> bool {
        self@ == other@
    }
}

/// An ICE candidate exchanged during connection establishment.
#[derive(Debug)]
pub struct WsIceCandidate {
    pub candidate: String,
    pub sdp_mid: String,
    pub sdp_mline_index: i32,
}

/// Spec-level contents of an ICE candidate.
pub struct IceV {
    pub candidate: Seq<char>,
    pub sdp_mid: Seq<char>,
    pub sdp_mline_index: i32,
}

impl View for WsIceCandidate {
    type V = IceV;

    open spec fn view(&self) -> IceV {
        IceV {
            candidate: self.candidate@,
            sdp_mid: self.sdp_mid@,
            sdp_mline_index: self.sdp_mline_index,
        }
    }
}

impl WsIceCandidate {
    pub fn duplicate(&self) -> (r: WsIceCandidate)
        ensures
            r == *self,
    {
        WsIceCandidate {
            candidate: self.candidate.clone(),
            sdp_mid: self.sdp_mid.clone(),
            sdp_mline_index: self.sdp_mline_index,
        }
    }
}

impl PartialEq for WsIceCandidate {
    fn eq(&self, other: &WsIceCandidate) -> (r: bool) {
        self.candidate == other.candidate && self.sdp_mid == other.sdp_mid
            && self.sdp_mline_index == other.sdp_mline_index
    }
}

impl vstd::std_specs::cmp::PartialEqSpecImpl for WsIceCandidate {
    open spec fn obeys_eq_spec() -> bool {
        true
    }

    open spec fn eq_spec(&self, other: &WsIceCandidate) -> bool {
        self@ == other@
    }
}

/// Variant-dependent payload of a control command.
#[derive(Debug)]
pub enum ControlPayload {
    Move { direction: String, speed: NumberLit },
    SetSpeed { speed: NumberLit },
    PathFollow { path_id: String },
}

/// Spec-level contents of a control payload.
pub enum PayloadV {
    Move { direction: Seq<char>, speed: Seq<char> },
    SetSpeed { speed: Seq<char> },
    PathFollow { path_id: Seq<char> },
}

impl View for ControlPayload {
    type V = PayloadV;

    open spec fn view(&self) -> PayloadV {
        match self {
            ControlPayload::Move { direction, speed } => PayloadV::Move {
                direction: direction@,
                speed: speed@,
            },
            ControlPayload::SetSpeed { speed } => PayloadV::SetSpeed { speed: speed@ },
            ControlPayload::PathFollow { path_id } => PayloadV::PathFollow { path_id: path_id@ },
        }
    }
}

impl ControlPayload {
    pub fn duplicate(&self) -> (r: ControlPayload)
        ensures
            r == *self,
    {
        match self {
            ControlPayload::Move { direction, speed } => ControlPayload::Move {
                direction: direction.clone(),
                speed: speed.duplicate(),
            },
            ControlPayload::SetSpeed { speed } => ControlPayload::SetSpeed {
                speed: speed.duplicate(),
            },
            ControlPayload::PathFollow { path_id } => ControlPayload::PathFollow {
                path_id: path_id.clone(),
            },
        }
    }
}

impl PartialEq for ControlPayload {
    fn eq(&self, other: &ControlPayload) -> (r: bool) {
        match (self, other) {
            (
                ControlPayload::Move { direction: d1, speed: s1 },
                ControlPayload::Move { direction: d2, speed: s2 },
            ) => *d1 == *d2 && *s1 == *s2,
            (
                ControlPayload::SetSpeed { speed: s1 },
                ControlPayload::SetSpeed { speed: s2 },
            ) => *s1 == *s2,
            (
                ControlPayload::PathFollow { path_id: p1 },
                ControlPayload::PathFollow { path_id: p2 },
            ) => *p1 == *p2,
            _ => false,
        }
    }
}

impl vstd::std_specs::cmp::PartialEqSpecImpl for ControlPayload {
    open spec fn obeys_eq_spec() -> bool {
        true
    }

    open spec fn eq_spec(&self, other: &ControlPayload) -> bool {
        self@ == other@
    }
}

/// The signaling frame union relayed between clients and the backend.
/// Every variant carries the robot identifier it is routed by.
#[derive(Debug)]
pub enum WsSignalMessage {
    ScreenRequest { robot_id: String },
    RobotOffer { robot_id: String, offer: WsSessionDescription },
    ClientAnswer { robot_id: String, answer: WsSessionDescription },
    RobotIce { robot_id: String, ice: WsIceCandidate },
    ClientIce { robot_id: String, ice: WsIceCandidate },
    WebrtcError { robot_id: String, error: String },
    ControlCommand { robot_id: String, command: CommandType, payload: Option<ControlPayload> },
}

/// Spec-level contents of a signaling frame.
pub enum FrameV {
    ScreenRequest { robot_id: Seq<char> },
    RobotOffer { robot_id: Seq<char>, offer: SdpV },
    ClientAnswer { robot_id: Seq<char>, answer: SdpV },
    RobotIce { robot_id: Seq<char>, ice: IceV },
    ClientIce { robot_id: Seq<char>, ice: IceV },
    WebrtcError { robot_id: Seq<char>, error: Seq<char> },
    ControlCommand { robot_id: Seq<char>, command: CommandType, payload: Option<PayloadV> },
}

impl View for WsSignalMessage {
    type V = FrameV;

    open spec fn view(&self) -> FrameV {
        match self {
            WsSignalMessage::ScreenRequest { robot_id } => FrameV::ScreenRequest {
                robot_id: robot_id@,
            },
            WsSignalMessage::RobotOffer { robot_id, offer } => FrameV::RobotOffer {
                robot_id: robot_id@,
                offer: offer@,
            },
            WsSignalMessage::ClientAnswer { robot_id, answer } => FrameV::ClientAnswer {
                robot_id: robot_id@,
                answer: answer@,
            },
            WsSignalMessage::RobotIce { robot_id, ice } => FrameV::RobotIce {
                robot_id: robot_id@,
                ice: ice@,
            },
            WsSignalMessage::ClientIce { robot_id, ice } => FrameV::ClientIce {
                robot_id: robot_id@,
                ice: ice@,
            },
            WsSignalMessage::WebrtcError { robot_id, error } => FrameV::WebrtcError {
                robot_id: robot_id@,
                error: error@,
            },
            WsSignalMessage::ControlCommand { robot_id, command, payload } => {
                FrameV::ControlCommand {
                    robot_id: robot_id@,
                    command: *command,
                    payload: match payload {
                        Option::Some(p) => Option::Some(p@),
                        Option::None => Option::None,
                    },
                }
            },
        }
    }
}

/// The robot identifier carried by a frame.
pub open spec fn frame_robot_id(f: FrameV) -> Seq<char> {
    match f {
        FrameV::ScreenRequest { robot_id } => robot_id,
        FrameV::RobotOffer { robot_id, .. } => robot_id,
        FrameV::ClientAnswer { robot_id, .. } => robot_id,
        FrameV::RobotIce { robot_id, .. } => robot_id,
        FrameV::ClientIce { robot_id, .. } => robot_id,
        FrameV::WebrtcError { robot_id, .. } => robot_id,
        FrameV::ControlCommand { robot_id, .. } => robot_id,
    }
}

/// Well-formedness of a payload: numeric fields hold number tokens.
pub open spec fn wf_payload_v(p: PayloadV) -> bool {
    match p {
        PayloadV::Move { speed, .. } => is_num_token(speed),
        PayloadV::SetSpeed { speed } => is_num_token(speed),
        PayloadV::PathFollow { .. } => true,
    }
}

/// Well-formedness of a frame: a non-empty robot identifier and
/// well-formed numeric fields.
pub open spec fn wf_frame_v(f: FrameV) -> bool {
    &&& frame_robot_id(f).len() > 0
    &&& match f {
        FrameV::ControlCommand { payload: Option::Some(p), .. } => wf_payload_v(p),
        _ => true,
    }
}

impl WsSignalMessage {
    /// The robot identifier this frame is routed by.
    pub fn robot_id(&self) -> (r: &String)
        ensures
            r@ == frame_robot_id(self@),
    {
        match self {
            WsSignalMessage::ScreenRequest { robot_id } => robot_id,
            WsSignalMessage::RobotOffer { robot_id, .. } => robot_id,
            WsSignalMessage::ClientAnswer { robot_id, .. } => robot_id,
            WsSignalMessage::RobotIce { robot_id, .. } => robot_id,
            WsSignalMessage::ClientIce { robot_id, .. } => robot_id,
            WsSignalMessage::WebrtcError { robot_id, .. } => robot_id,
            WsSignalMessage::ControlCommand { robot_id, .. } => robot_id,
        }
    }

    pub fn duplicate(&self) -> (r: WsSignalMessage)
        ensures
            r == *self,
    {
        match self {
            WsSignalMessage::ScreenRequest { robot_id } => WsSignalMessage::ScreenRequest {
                robot_id: robot_id.clone(),
            },
            WsSignalMessage::RobotOffer { robot_id, offer } => WsSignalMessage::RobotOffer {
                robot_id: robot_id.clone(),
                offer: offer.duplicate(),
            },
            WsSignalMessage::ClientAnswer { robot_id, answer } => WsSignalMessage::ClientAnswer {
                robot_id: robot_id.clone(),
                answer: answer.duplicate(),
            },
            WsSignalMessage::RobotIce { robot_id, ice } => WsSignalMessage::RobotIce {
                robot_id: robot_id.clone(),
                ice: ice.duplicate(),
            },
            WsSignalMessage::ClientIce { robot_id, ice } => WsSignalMessage::ClientIce {
                robot_id: robot_id.clone(),
                ice: ice.duplicate(),
            },
            WsSignalMessage::WebrtcError { robot_id, error } => WsSignalMessage::WebrtcError {
                robot_id: robot_id.clone(),
                error: error.clone(),
            },
            WsSignalMessage::ControlCommand { robot_id, command, payload } => {
                WsSignalMessage::ControlCommand {
                    robot_id: robot_id.clone(),
                    command: *command,
                    payload: match payload {
                        Option::Some(p) => Option::Some(p.duplicate()),
                        Option::None => Option::None,
                    },
                }
            },
        }
    }
}

impl PartialEq for WsSignalMessage {
    fn eq(&self, other: &WsSignalMessage) -> (r: bool) {
        match (self, other) {
            (
                WsSignalMessage::ScreenRequest { robot_id: a },
                WsSignalMessage::ScreenRequest { robot_id: b },
            ) => *a == *b,
            (
                WsSignalMessage::RobotOffer { robot_id: a, offer: x },
                WsSignalMessage::RobotOffer { robot_id: b, offer: y },
            ) => *a == *b && *x == *y,
            (
                WsSignalMessage::ClientAnswer { robot_id: a, answer: x },
                WsSignalMessage::ClientAnswer { robot_id: b, answer: y },
            ) => *a == *b && *x == *y,
            (
                WsSignalMessage::RobotIce { robot_id: a, ice: x },
                WsSignalMessage::RobotIce { robot_id: b, ice: y },
            ) => *a == *b && *x == *y,
            (
                WsSignalMessage::ClientIce { robot_id: a, ice: x },
                WsSignalMessage::ClientIce { robot_id: b, ice: y },
            ) => *a == *b && *x == *y,
            (
                WsSignalMessage::WebrtcError { robot_id: a, error: x },
                WsSignalMessage::WebrtcError { robot_id: b, error: y },
            ) => *a == *b && *x == *y,
            (
                WsSignalMessage::ControlCommand { robot_id: a, command: c1, payload: p1 },
                WsSignalMessage::ControlCommand { robot_id: b, command: c2, payload: p2 },
            ) => *a == *b && *c1 == *c2 && match (p1, p2) {
                (Option::Some(x), Option::Some(y)) => *x == *y,
                (Option::None, Option::None) => true,
                _ => false,
            },
            _ => false,
        }
    }
}

impl vstd::std_specs::cmp::PartialEqSpecImpl for WsSignalMessage {
    open spec fn obeys_eq_spec() -> bool {
        true
    }

    open spec fn eq_spec(&self, other: &WsSignalMessage) -> bool {
        self@ == other@
    }
}

} // verus!
