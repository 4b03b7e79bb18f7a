//! The JSON half of the wire codec: the mapping between signaling frames
//! and the client-facing JSON schema, composed with the JSON printer and
//! parser. The tag field `type` selects the variant; unknown fields are
//! ignored; a missing or malformed required field fails the whole frame.

use vstd::prelude::*;

use crate::json::Json;
use crate::json::JsonV;
use crate::json::parse_json_exec;
use crate::json::parse_json_spec;
use crate::json::print_json;
use crate::json::print_json_onto;
use crate::json::view_members;
use crate::json::wf_json;
use crate::json::lemma_view_members;
use crate::number::parse_i32_spec;
use crate::number::parse_i32_chars;
use crate::number::print_i32_spec;
use crate::number::print_i32;
use crate::signal::CommandType;
use crate::signal::ControlPayload;
use crate::signal::FrameV;
use crate::signal::IceV;
use crate::signal::NumberLit;
use crate::signal::PayloadV;
use crate::signal::SdpV;
use crate::signal::WsIceCandidate;
use crate::signal::WsSessionDescription;
use crate::signal::WsSignalMessage;
use crate::text::chars_to_string;
use crate::text::str_to_chars;

verus! {

/// First member under `key`, if any (later duplicates are shadowed).
pub open spec fn obj_get(ms: Seq<(Seq<char>, JsonV)>, key: Seq<char>) -> Option<JsonV>
    decreases ms.len(),
{
    if ms.len() == 0 {
        Option::None
    } else if ms.first().0 == key {
        Option::Some(ms.first().1)
    } else {
        obj_get(ms.drop_first(), key)
    }
}

/// String member under `key`.
pub open spec fn get_str(ms: Seq<(Seq<char>, JsonV)>, key: Seq<char>) -> Option<Seq<char>> {
    match obj_get(ms, key) {
        Option::Some(JsonV::Str(s)) => Option::Some(s),
        _ => Option::None,
    }
}

/// Number-token member under `key`.
pub open spec fn get_num(ms: Seq<(Seq<char>, JsonV)>, key: Seq<char>) -> Option<Seq<char>> {
    match obj_get(ms, key) {
        Option::Some(JsonV::Num(t)) => Option::Some(t),
        _ => Option::None,
    }
}

/// Object member under `key`.
pub open spec fn get_obj(ms: Seq<(Seq<char>, JsonV)>, key: Seq<char>) -> Option<
    Seq<(Seq<char>, JsonV)>,
> {
    match obj_get(ms, key) {
        Option::Some(JsonV::Obj(o)) => Option::Some(o),
        _ => Option::None,
    }
}

/// The wire name of a command discriminant.
pub open spec fn command_name_spec(c: CommandType) -> Seq<char> {
    match c {
        CommandType::Move => "MOVE"@,
        CommandType::Stop => "STOP"@,
        CommandType::EmergencyStop => "EMERGENCY_STOP"@,
        CommandType::SetSpeed => "SET_SPEED"@,
        CommandType::Dock => "DOCK"@,
        CommandType::PathFollow => "PATH_FOLLOW"@,
    }
}

/// The command discriminant of a wire name, if recognized.
pub open spec fn command_of_name(n: Seq<char>) -> Option<CommandType> {
    if n == "MOVE"@ { Option::Some(CommandType::Move) }
    else if n == "STOP"@ { Option::Some(CommandType::Stop) }
    else if n == "EMERGENCY_STOP"@ { Option::Some(CommandType::EmergencyStop) }
    else if n == "SET_SPEED"@ { Option::Some(CommandType::SetSpeed) }
    else if n == "DOCK"@ { Option::Some(CommandType::Dock) }
    else if n == "PATH_FOLLOW"@ { Option::Some(CommandType::PathFollow) }
    else { Option::None }
}

/// The name maps invert each other on every discriminant.
pub proof fn lemma_command_name_roundtrip(c: CommandType)
    ensures
        command_of_name(command_name_spec(c)) == Option::Some(c),
{
    reveal_strlit("MOVE");
    reveal_strlit("STOP");
    reveal_strlit("EMERGENCY_STOP");
    reveal_strlit("SET_SPEED");
    reveal_strlit("DOCK");
    reveal_strlit("PATH_FOLLOW");
    match c {
        CommandType::Move => {},
        CommandType::Stop => {
            assert("STOP"@[0] != "MOVE"@[0]);
        },
        CommandType::EmergencyStop => {
            assert("EMERGENCY_STOP"@.len() != "MOVE"@.len());
        },
        CommandType::SetSpeed => {
            assert("SET_SPEED"@.len() != "MOVE"@.len());
            assert("SET_SPEED"@.len() != "EMERGENCY_STOP"@.len());
        },
        CommandType::Dock => {
            assert("DOCK"@[0] != "MOVE"@[0]);
            assert("DOCK"@[0] != "STOP"@[0]);
            assert("DOCK"@.len() != "EMERGENCY_STOP"@.len());
            assert("DOCK"@.len() != "SET_SPEED"@.len());
        },
        CommandType::PathFollow => {
            assert("PATH_FOLLOW"@.len() != "MOVE"@.len());
            assert("PATH_FOLLOW"@.len() != "EMERGENCY_STOP"@.len());
            assert("PATH_FOLLOW"@.len() != "SET_SPEED"@.len());
        },
    }
}

/// The members of the nested session-description object.
pub open spec fn sdp_members(o: SdpV) -> Seq<(Seq<char>, JsonV)> {
    seq![("sdp"@, JsonV::Str(o.sdp)), ("type"@, JsonV::Str(o.sdp_type))]
}

/// The members of the nested ICE-candidate object.
pub open spec fn ice_members(o: IceV) -> Seq<(Seq<char>, JsonV)> {
    seq![
        ("candidate"@, JsonV::Str(o.candidate)),
        ("sdpMid"@, JsonV::Str(o.sdp_mid)),
        ("sdpMLineIndex"@, JsonV::Num(print_i32_spec(o.sdp_mline_index as int))),
    ]
}

/// The flattened payload members of a control command.
pub open spec fn payload_members(p: PayloadV) -> Seq<(Seq<char>, JsonV)> {
    match p {
        PayloadV::Move { direction, speed } => seq![
            ("payload_type"@, JsonV::Str("move"@)),
            ("direction"@, JsonV::Str(direction)),
            ("speed"@, JsonV::Num(speed)),
        ],
        PayloadV::SetSpeed { speed } => seq![
            ("payload_type"@, JsonV::Str("set_speed"@)),
            ("speed"@, JsonV::Num(speed)),
        ],
        PayloadV::PathFollow { path_id } => seq![
            ("payload_type"@, JsonV::Str("path_follow"@)),
            ("path_id"@, JsonV::Str(path_id)),
        ],
    }
}

/// The client-facing JSON form of a frame: a tagged object, fields in
/// declaration order, the control payload flattened into the same object.
pub open spec fn json_of_frame(f: FrameV) -> JsonV {
    match f {
        FrameV::ScreenRequest { robot_id } => JsonV::Obj(
            seq![
                ("type"@, JsonV::Str("screen_request"@)),
                ("robot_id"@, JsonV::Str(robot_id)),
            ],
        ),
        FrameV::RobotOffer { robot_id, offer } => JsonV::Obj(
            seq![
                ("type"@, JsonV::Str("robot_offer"@)),
                ("robot_id"@, JsonV::Str(robot_id)),
                ("offer"@, JsonV::Obj(sdp_members(offer))),
            ],
        ),
        FrameV::ClientAnswer { robot_id, answer } => JsonV::Obj(
            seq![
                ("type"@, JsonV::Str("client_answer"@)),
                ("robot_id"@, JsonV::Str(robot_id)),
                ("answer"@, JsonV::Obj(sdp_members(answer))),
            ],
        ),
        FrameV::RobotIce { robot_id, ice } => JsonV::Obj(
            seq![
                ("type"@, JsonV::Str("robot_ice"@)),
                ("robot_id"@, JsonV::Str(robot_id)),
                ("ice"@, JsonV::Obj(ice_members(ice))),
            ],
        ),
        FrameV::ClientIce { robot_id, ice } => JsonV::Obj(
            seq![
                ("type"@, JsonV::Str("client_ice"@)),
                ("robot_id"@, JsonV::Str(robot_id)),
                ("ice"@, JsonV::Obj(ice_members(ice))),
            ],
        ),
        FrameV::WebrtcError { robot_id, error } => JsonV::Obj(
            seq![
                ("type"@, JsonV::Str("webrtc_error"@)),
                ("robot_id"@, JsonV::Str(robot_id)),
                ("error"@, JsonV::Str(error)),
            ],
        ),
        FrameV::ControlCommand { robot_id, command, payload } => JsonV::Obj(
            seq![
                ("type"@, JsonV::Str("control_command"@)),
                ("robot_id"@, JsonV::Str(robot_id)),
                ("command"@, JsonV::Str(command_name_spec(command))),
            ] + match payload {
                Option::Some(p) => payload_members(p),
                Option::None => Seq::empty(),
            },
        ),
    }
}

/// The frame a JSON value describes, if any: the object's `type` tag picks
/// the variant, required fields are read by name, unknown fields are
/// ignored, and the control payload is read from the flattened fields
/// exactly when a `payload_type` member is present.
pub open spec fn frame_of_json(v: JsonV) -> Option<FrameV> {
    match v {
        JsonV::Obj(ms) => match get_str(ms, "type"@) {
            Option::Some(tag) => if tag == "screen_request"@ {
                match get_str(ms, "robot_id"@) {
                    Option::Some(rid) => Option::Some(FrameV::ScreenRequest { robot_id: rid }),
                    Option::None => Option::None,
                }
            } else if tag == "robot_offer"@ {
                match (get_str(ms, "robot_id"@), get_obj(ms, "offer"@)) {
                    (Option::Some(rid), Option::Some(o)) => match sdp_of_obj(o) {
                        Option::Some(sd) => Option::Some(
                            FrameV::RobotOffer { robot_id: rid, offer: sd },
                        ),
                        Option::None => Option::None,
                    },
                    _ => Option::None,
                }
            } else if tag == "client_answer"@ {
                match (get_str(ms, "robot_id"@), get_obj(ms, "answer"@)) {
                    (Option::Some(rid), Option::Some(o)) => match sdp_of_obj(o) {
                        Option::Some(sd) => Option::Some(
                            FrameV::ClientAnswer { robot_id: rid, answer: sd },
                        ),
                        Option::None => Option::None,
                    },
                    _ => Option::None,
                }
            } else if tag == "robot_ice"@ {
                match (get_str(ms, "robot_id"@), get_obj(ms, "ice"@)) {
                    (Option::Some(rid), Option::Some(o)) => match ice_of_obj(o) {
                        Option::Some(ic) => Option::Some(
                            FrameV::RobotIce { robot_id: rid, ice: ic },
                        ),
                        Option::None => Option::None,
                    },
                    _ => Option::None,
                }
            } else if tag == "client_ice"@ {
                match (get_str(ms, "robot_id"@), get_obj(ms, "ice"@)) {
                    (Option::Some(rid), Option::Some(o)) => match ice_of_obj(o) {
                        Option::Some(ic) => Option::Some(
                            FrameV::ClientIce { robot_id: rid, ice: ic },
                        ),
                        Option::None => Option::None,
                    },
                    _ => Option::None,
                }
            } else if tag == "webrtc_error"@ {
                match (get_str(ms, "robot_id"@), get_str(ms, "error"@)) {
                    (Option::Some(rid), Option::Some(e)) => Option::Some(
                        FrameV::WebrtcError { robot_id: rid, error: e },
                    ),
                    _ => Option::None,
                }
            } else if tag == "control_command"@ {
                match (get_str(ms, "robot_id"@), get_str(ms, "command"@)) {
                    (Option::Some(rid), Option::Some(cn)) => match command_of_name(cn) {
                        Option::Some(cmd) => match payload_of_members(ms) {
                            Option::Some(p) => Option::Some(
                                FrameV::ControlCommand {
                                    robot_id: rid,
                                    command: cmd,
                                    payload: p,
                                },
                            ),
                            Option::None => Option::None,
                        },
                        Option::None => Option::None,
                    },
                    _ => Option::None,
                }
            } else {
                Option::None
            },
            Option::None => Option::None,
        },
        _ => Option::None,
    }
}

/// A session description read from a nested object.
pub open spec fn sdp_of_obj(o: Seq<(Seq<char>, JsonV)>) -> Option<SdpV> {
    match (get_str(o, "sdp"@), get_str(o, "type"@)) {
        (Option::Some(sdp), Option::Some(t)) => Option::Some(SdpV { sdp, sdp_type: t }),
        _ => Option::None,
    }
}

/// An ICE candidate read from a nested object.
pub open spec fn ice_of_obj(o: Seq<(Seq<char>, JsonV)>) -> Option<IceV> {
    match (get_str(o, "candidate"@), get_str(o, "sdpMid"@), get_num(o, "sdpMLineIndex"@)) {
        (Option::Some(c), Option::Some(m), Option::Some(t)) => match parse_i32_spec(t) {
            Option::Some(idx) => Option::Some(
                IceV { candidate: c, sdp_mid: m, sdp_mline_index: idx },
            ),
            Option::None => Option::None,
        },
        _ => Option::None,
    }
}

/// The control payload read from the flattened members: absent exactly
/// when no `payload_type` member exists.
pub open spec fn payload_of_members(ms: Seq<(Seq<char>, JsonV)>) -> Option<Option<PayloadV>> {
    match obj_get(ms, "payload_type"@) {
        Option::None => Option::Some(Option::None),
        Option::Some(JsonV::Str(pt)) => if pt == "move"@ {
            match (get_str(ms, "direction"@), get_num(ms, "speed"@)) {
                (Option::Some(d), Option::Some(sp)) => Option::Some(
                    Option::Some(PayloadV::Move { direction: d, speed: sp }),
                ),
                _ => Option::None,
            }
        } else if pt == "set_speed"@ {
            match get_num(ms, "speed"@) {
                Option::Some(sp) => Option::Some(Option::Some(PayloadV::SetSpeed { speed: sp })),
                Option::None => Option::None,
            }
        } else if pt == "path_follow"@ {
            match get_str(ms, "path_id"@) {
                Option::Some(p) => Option::Some(
                    Option::Some(PayloadV::PathFollow { path_id: p }),
                ),
                Option::None => Option::None,
            }
        } else {
            Option::None
        },
        Option::Some(_) => Option::None,
    }
}

/// The client-facing JSON text of a frame.
pub open spec fn client_json_of(f: FrameV) -> Seq<char> {
    print_json(json_of_frame(f))
}

/// The frame a client JSON text describes, if any: parsed, then read as a
/// frame.
pub open spec fn client_frame_of_text(s: Seq<char>) -> Option<FrameV> {
    match parse_json_spec(s) {
        Option::Some(v) => frame_of_json(v),
        Option::None => Option::None,
    }
}


proof fn lemma_obj_get_at(ms: Seq<(Seq<char>, JsonV)>, i: int)
    requires
        0 <= i < ms.len(),
        forall|j: int| 0 <= j < i ==> (#[trigger] ms[j]).0 != ms[i].0,
    ensures
        obj_get(ms, ms[i].0) == Option::Some(ms[i].1),
    decreases i,
{
    if i == 0 {
    } else {
        assert(ms.first().0 != ms[i].0);
        assert(obj_get(ms, ms[i].0) == obj_get(ms.drop_first(), ms[i].0));
        assert(ms.drop_first()[i - 1] == ms[i]);
        assert(forall|j: int|
            0 <= j < i - 1 ==> (#[trigger] ms.drop_first()[j]) == ms[j + 1]);
        lemma_obj_get_at(ms.drop_first(), i - 1);
    }
}

proof fn lemma_obj_get_absent(ms: Seq<(Seq<char>, JsonV)>, key: Seq<char>)
    requires
        forall|j: int| 0 <= j < ms.len() ==> (#[trigger] ms[j]).0 != key,
    ensures
        obj_get(ms, key) is None,
    decreases ms.len(),
{
    if ms.len() > 0 {
        assert(ms.first().0 != key);
        assert(forall|j: int|
            0 <= j < ms.drop_first().len() ==> (#[trigger] ms.drop_first()[j]) == ms[j + 1]);
        lemma_obj_get_absent(ms.drop_first(), key);
    }
}

proof fn lemma_keys()
    ensures
        "type"@.len() == 4,
        "robot_id"@.len() == 8,
        "offer"@.len() == 5,
        "answer"@.len() == 6,
        "ice"@.len() == 3,
        "error"@.len() == 5,
        "command"@.len() == 7,
        "payload_type"@.len() == 12,
        "direction"@.len() == 9,
        "speed"@.len() == 5,
        "path_id"@.len() == 7,
        "sdp"@.len() == 3,
        "candidate"@.len() == 9,
        "sdpMid"@.len() == 6,
        "sdpMLineIndex"@.len() == 13,
        "command"@[0] != "path_id"@[0],
        "screen_request"@.len() == 14,
        "robot_offer"@.len() == 11,
        "client_answer"@.len() == 13,
        "robot_ice"@.len() == 9,
        "client_ice"@.len() == 10,
        "webrtc_error"@.len() == 12,
        "control_command"@.len() == 15,
        "move"@.len() == 4,
        "set_speed"@.len() == 9,
        "path_follow"@.len() == 11,
{
    reveal_strlit("type");
    reveal_strlit("robot_id");
    reveal_strlit("offer");
    reveal_strlit("answer");
    reveal_strlit("ice");
    reveal_strlit("error");
    reveal_strlit("command");
    reveal_strlit("payload_type");
    reveal_strlit("direction");
    reveal_strlit("speed");
    reveal_strlit("path_id");
    reveal_strlit("sdp");
    reveal_strlit("candidate");
    reveal_strlit("sdpMid");
    reveal_strlit("sdpMLineIndex");
    reveal_strlit("screen_request");
    reveal_strlit("robot_offer");
    reveal_strlit("client_answer");
    reveal_strlit("robot_ice");
    reveal_strlit("client_ice");
    reveal_strlit("webrtc_error");
    reveal_strlit("control_command");
    reveal_strlit("move");
    reveal_strlit("set_speed");
    reveal_strlit("path_follow");
}

proof fn lemma_sdp_roundtrip(o: SdpV)
    ensures
        sdp_of_obj(sdp_members(o)) == Option::Some(o),
{
    lemma_keys();
    let ms = sdp_members(o);
    lemma_obj_get_at(ms, 0);
    lemma_obj_get_at(ms, 1);
}

proof fn lemma_ice_roundtrip(ic: IceV)
    ensures
        ice_of_obj(ice_members(ic)) == Option::Some(ic),
{
    lemma_keys();
    let ms = ice_members(ic);
    lemma_obj_get_at(ms, 0);
    lemma_obj_get_at(ms, 1);
    lemma_obj_get_at(ms, 2);
    crate::number::lemma_print_parse_i32(ic.sdp_mline_index);
}

/// Round trip: mapping a frame to its JSON form and reading it back
/// yields the frame, field for field, for every frame.
pub proof fn lemma_frame_json_roundtrip(f: FrameV)
    ensures
        frame_of_json(json_of_frame(f)) == Option::Some(f),
{
    lemma_keys();
    match f {
        FrameV::ScreenRequest { robot_id } => {
            let ms = json_of_frame(f)->Obj_0;
            lemma_obj_get_at(ms, 0);
            lemma_obj_get_at(ms, 1);
        },
        FrameV::RobotOffer { robot_id, offer } => {
            let ms = json_of_frame(f)->Obj_0;
            lemma_obj_get_at(ms, 0);
            lemma_obj_get_at(ms, 1);
            lemma_obj_get_at(ms, 2);
            lemma_sdp_roundtrip(offer);
        },
        FrameV::ClientAnswer { robot_id, answer } => {
            let ms = json_of_frame(f)->Obj_0;
            lemma_obj_get_at(ms, 0);
            lemma_obj_get_at(ms, 1);
            lemma_obj_get_at(ms, 2);
            lemma_sdp_roundtrip(answer);
        },
        FrameV::RobotIce { robot_id, ice } => {
            let ms = json_of_frame(f)->Obj_0;
            lemma_obj_get_at(ms, 0);
            lemma_obj_get_at(ms, 1);
            lemma_obj_get_at(ms, 2);
            lemma_ice_roundtrip(ice);
        },
        FrameV::ClientIce { robot_id, ice } => {
            let ms = json_of_frame(f)->Obj_0;
            lemma_obj_get_at(ms, 0);
            lemma_obj_get_at(ms, 1);
            lemma_obj_get_at(ms, 2);
            lemma_ice_roundtrip(ice);
        },
        FrameV::WebrtcError { robot_id, error } => {
            let ms = json_of_frame(f)->Obj_0;
            lemma_obj_get_at(ms, 0);
            lemma_obj_get_at(ms, 1);
            lemma_obj_get_at(ms, 2);
        },
        FrameV::ControlCommand { robot_id, command, payload } => {
            let ms = json_of_frame(f)->Obj_0;
            lemma_command_name_roundtrip(command);
            match payload {
                Option::None => {
                    assert(ms =~= seq![
                        ("type"@, JsonV::Str("control_command"@)),
                        ("robot_id"@, JsonV::Str(robot_id)),
                        ("command"@, JsonV::Str(command_name_spec(command))),
                    ]);
                    lemma_obj_get_at(ms, 0);
                    lemma_obj_get_at(ms, 1);
                    lemma_obj_get_at(ms, 2);
                    lemma_obj_get_absent(ms, "payload_type"@);
                },
                Option::Some(p) => {
                    lemma_obj_get_at(ms, 0);
                    lemma_obj_get_at(ms, 1);
                    lemma_obj_get_at(ms, 2);
                    match p {
                        PayloadV::Move { direction, speed } => {
                            assert(ms[3] == ("payload_type"@, JsonV::Str("move"@)));
                            assert(ms[4] == ("direction"@, JsonV::Str(direction)));
                            assert(ms[5] == ("speed"@, JsonV::Num(speed)));
                            lemma_obj_get_at(ms, 3);
                            lemma_obj_get_at(ms, 4);
                            lemma_obj_get_at(ms, 5);
                        },
                        PayloadV::SetSpeed { speed } => {
                            assert(ms[3] == ("payload_type"@, JsonV::Str("set_speed"@)));
                            assert(ms[4] == ("speed"@, JsonV::Num(speed)));
                            lemma_obj_get_at(ms, 3);
                            lemma_obj_get_at(ms, 4);
                            assert("set_speed"@ != "move"@);
                        },
                        PayloadV::PathFollow { path_id } => {
                            assert(ms[3] == ("payload_type"@, JsonV::Str("path_follow"@)));
                            assert(ms[4] == ("path_id"@, JsonV::Str(path_id)));
                            lemma_obj_get_at(ms, 3);
                            lemma_obj_get_at(ms, 4);
                            assert("path_follow"@ != "move"@);
                            assert("path_follow"@ != "set_speed"@);
                        },
                    }
                },
            }
        },
    }
}


/// An error mapping client JSON text to a frame.
#[derive(Clone, Copy, PartialEq, Eq, Structural, Debug)]
pub enum ClientJsonError {
    /// The text is not JSON at all.
    MalformedJson,
    /// The JSON does not describe any frame.
    UnrecognizedFrame,
}

pub(crate) fn str_eq_lit(s: &String, lit: &str) -> (r: bool)
    ensures
        r == (s@ == lit@),
{
    *s == lit.to_owned()
}

fn find_member<'a>(ms: &'a Vec<(String, Json)>, key: &String, i: usize) -> (r: Option<&'a Json>)
    requires
        i <= ms@.len(),
    ensures
        match r {
            Option::Some(j) => obj_get(view_members(ms@).skip(i as int), key@) == Option::Some(
                j@,
            ),
            Option::None => obj_get(view_members(ms@).skip(i as int), key@) is None,
        },
    decreases ms@.len() - i,
{
    proof {
        lemma_view_members(ms@);
    }
    let ghost vm = view_members(ms@);
    if i == ms.len() {
        proof {
            assert(vm.skip(i as int) =~= Seq::<(Seq<char>, JsonV)>::empty());
        }
        None
    } else {
        proof {
            assert(vm.skip(i as int).first() == vm[i as int]);
            assert(vm.skip(i as int).drop_first() =~= vm.skip(i as int + 1));
            assert(vm[i as int] == (ms@[i as int].0@, ms@[i as int].1@));
        }
        if ms[i].0 == *key {
            Some(&ms[i].1)
        } else {
            find_member(ms, key, i + 1)
        }
    }
}

/// The first member under `key`, if any.
pub(crate) fn obj_member<'a>(ms: &'a Vec<(String, Json)>, key: &str) -> (r: Option<&'a Json>)
    ensures
        match r {
            Option::Some(j) => obj_get(view_members(ms@), key@) == Option::Some(j@),
            Option::None => obj_get(view_members(ms@), key@) is None,
        },
{
    let owned = key.to_owned();
    let r = find_member(ms, &owned, 0);
    proof {
        assert(view_members(ms@).skip(0int) =~= view_members(ms@));
    }
    r
}

pub(crate) fn get_str_field(ms: &Vec<(String, Json)>, key: &str) -> (r: Option<String>)
    ensures
        match r {
            Option::Some(s) => get_str(view_members(ms@), key@) == Option::Some(s@),
            Option::None => get_str(view_members(ms@), key@) is None,
        },
{
    match obj_member(ms, key) {
        Some(j) => match j {
            Json::Str(s) => Some(s.clone()),
            _ => None,
        },
        None => None,
    }
}

pub(crate) fn get_num_field(ms: &Vec<(String, Json)>, key: &str) -> (r: Option<NumberLit>)
    ensures
        match r {
            Option::Some(n) => get_num(view_members(ms@), key@) == Option::Some(n@),
            Option::None => get_num(view_members(ms@), key@) is None,
        },
{
    match obj_member(ms, key) {
        Some(j) => match j {
            Json::Num(n) => Some(n.duplicate()),
            _ => None,
        },
        None => None,
    }
}

fn get_obj_field<'a>(ms: &'a Vec<(String, Json)>, key: &str) -> (r: Option<
    &'a Vec<(String, Json)>,
>)
    ensures
        match r {
            Option::Some(o) => get_obj(view_members(ms@), key@) == Option::Some(
                view_members(o@),
            ),
            Option::None => get_obj(view_members(ms@), key@) is None,
        },
{
    match obj_member(ms, key) {
        Some(j) => match j {
            Json::Obj(o) => Some(o),
            _ => None,
        },
        None => None,
    }
}

fn sdp_from_obj(o: &Vec<(String, Json)>) -> (r: Option<WsSessionDescription>)
    ensures
        match r {
            Option::Some(sd) => sdp_of_obj(view_members(o@)) == Option::Some(sd@),
            Option::None => sdp_of_obj(view_members(o@)) is None,
        },
{
    match (get_str_field(o, "sdp"), get_str_field(o, "type")) {
        (Some(sdp), Some(t)) => Some(WsSessionDescription { sdp, sdp_type: t }),
        _ => None,
    }
}

fn ice_from_obj(o: &Vec<(String, Json)>) -> (r: Option<WsIceCandidate>)
    ensures
        match r {
            Option::Some(ic) => ice_of_obj(view_members(o@)) == Option::Some(ic@),
            Option::None => ice_of_obj(view_members(o@)) is None,
        },
{
    match (get_str_field(o, "candidate"), get_str_field(o, "sdpMid"), get_num_field(
        o,
        "sdpMLineIndex",
    )) {
        (Some(c), Some(m), Some(t)) => {
            let chars = str_to_chars(t.as_str());
            match parse_i32_chars(&chars) {
                Some(idx) => Some(WsIceCandidate {
                    candidate: c,
                    sdp_mid: m,
                    sdp_mline_index: idx,
                }),
                None => None,
            }
        },
        _ => None,
    }
}

/// The command discriminant of a wire name.
fn command_from_name(n: &String) -> (r: Option<CommandType>)
    ensures
        r == command_of_name(n@),
{
    if str_eq_lit(n, "MOVE") { Some(CommandType::Move) }
    else if str_eq_lit(n, "STOP") { Some(CommandType::Stop) }
    else if str_eq_lit(n, "EMERGENCY_STOP") { Some(CommandType::EmergencyStop) }
    else if str_eq_lit(n, "SET_SPEED") { Some(CommandType::SetSpeed) }
    else if str_eq_lit(n, "DOCK") { Some(CommandType::Dock) }
    else if str_eq_lit(n, "PATH_FOLLOW") { Some(CommandType::PathFollow) }
    else { None }
}

fn payload_from_members(ms: &Vec<(String, Json)>) -> (r: Option<Option<ControlPayload>>)
    ensures
        match r {
            Option::Some(Option::Some(p)) => payload_of_members(view_members(ms@))
                == Option::Some(Option::Some(p@)),
            Option::Some(Option::None) => payload_of_members(view_members(ms@)) == Option::Some(
                Option::<PayloadV>::None,
            ),
            Option::None => payload_of_members(view_members(ms@)) is None,
        },
{
    match obj_member(ms, "payload_type") {
        None => Some(None),
        Some(j) => match j {
            Json::Str(pt) => {
                if str_eq_lit(pt, "move") {
                    match (get_str_field(ms, "direction"), get_num_field(ms, "speed")) {
                        (Some(d), Some(sp)) => Some(
                            Some(ControlPayload::Move { direction: d, speed: sp }),
                        ),
                        _ => None,
                    }
                } else if str_eq_lit(pt, "set_speed") {
                    match get_num_field(ms, "speed") {
                        Some(sp) => Some(Some(ControlPayload::SetSpeed { speed: sp })),
                        None => None,
                    }
                } else if str_eq_lit(pt, "path_follow") {
                    match get_str_field(ms, "path_id") {
                        Some(p) => Some(Some(ControlPayload::PathFollow { path_id: p })),
                        None => None,
                    }
                } else {
                    None
                }
            },
            _ => None,
        },
    }
}

/// The frame a JSON value describes, if any.
pub fn json_to_frame(v: &Json) -> (r: Option<WsSignalMessage>)
    ensures
        match r {
            Option::Some(f) => frame_of_json(v@) == Option::Some(f@),
            Option::None => frame_of_json(v@) is None,
        },
{
    match v {
        Json::Obj(ms) => {
            match get_str_field(ms, "type") {
                Some(tag) => {
                    if str_eq_lit(&tag, "screen_request") {
                        match get_str_field(ms, "robot_id") {
                            Some(rid) => Some(WsSignalMessage::ScreenRequest { robot_id: rid }),
                            None => None,
                        }
                    } else if str_eq_lit(&tag, "robot_offer") {
                        match (get_str_field(ms, "robot_id"), get_obj_field(ms, "offer")) {
                            (Some(rid), Some(o)) => match sdp_from_obj(o) {
                                Some(sd) => Some(WsSignalMessage::RobotOffer {
                                    robot_id: rid,
                                    offer: sd,
                                }),
                                None => None,
                            },
                            _ => None,
                        }
                    } else if str_eq_lit(&tag, "client_answer") {
                        match (get_str_field(ms, "robot_id"), get_obj_field(ms, "answer")) {
                            (Some(rid), Some(o)) => match sdp_from_obj(o) {
                                Some(sd) => Some(WsSignalMessage::ClientAnswer {
                                    robot_id: rid,
                                    answer: sd,
                                }),
                                None => None,
                            },
                            _ => None,
                        }
                    } else if str_eq_lit(&tag, "robot_ice") {
                        match (get_str_field(ms, "robot_id"), get_obj_field(ms, "ice")) {
                            (Some(rid), Some(o)) => match ice_from_obj(o) {
                                Some(ic) => Some(WsSignalMessage::RobotIce {
                                    robot_id: rid,
                                    ice: ic,
                                }),
                                None => None,
                            },
                            _ => None,
                        }
                    } else if str_eq_lit(&tag, "client_ice") {
                        match (get_str_field(ms, "robot_id"), get_obj_field(ms, "ice")) {
                            (Some(rid), Some(o)) => match ice_from_obj(o) {
                                Some(ic) => Some(WsSignalMessage::ClientIce {
                                    robot_id: rid,
                                    ice: ic,
                                }),
                                None => None,
                            },
                            _ => None,
                        }
                    } else if str_eq_lit(&tag, "webrtc_error") {
                        match (get_str_field(ms, "robot_id"), get_str_field(ms, "error")) {
                            (Some(rid), Some(e)) => Some(WsSignalMessage::WebrtcError {
                                robot_id: rid,
                                error: e,
                            }),
                            _ => None,
                        }
                    } else if str_eq_lit(&tag, "control_command") {
                        match (get_str_field(ms, "robot_id"), get_str_field(ms, "command")) {
                            (Some(rid), Some(cn)) => match command_from_name(&cn) {
                                Some(cmd) => match payload_from_members(ms) {
                                    Some(p) => Some(WsSignalMessage::ControlCommand {
                                        robot_id: rid,
                                        command: cmd,
                                        payload: p,
                                    }),
                                    None => None,
                                },
                                None => None,
                            },
                            _ => None,
                        }
                    } else {
                        None
                    }
                },
                None => None,
            }
        },
        _ => None,
    }
}


/// The wire name of a command discriminant.
pub fn command_name(c: CommandType) -> (r: String)
    ensures
        r@ == command_name_spec(c),
{
    match c {
        CommandType::Move => "MOVE".to_owned(),
        CommandType::Stop => "STOP".to_owned(),
        CommandType::EmergencyStop => "EMERGENCY_STOP".to_owned(),
        CommandType::SetSpeed => "SET_SPEED".to_owned(),
        CommandType::Dock => "DOCK".to_owned(),
        CommandType::PathFollow => "PATH_FOLLOW".to_owned(),
    }
}

fn sdp_to_obj(o: WsSessionDescription) -> (r: Vec<(String, Json)>)
    ensures
        view_members(r@) == sdp_members(o@),
{
    let ghost ov = o@;
    let WsSessionDescription { sdp, sdp_type } = o;
    let mut ms: Vec<(String, Json)> = Vec::new();
    ms.push(("sdp".to_owned(), Json::Str(sdp)));
    ms.push(("type".to_owned(), Json::Str(sdp_type)));
    proof {
        lemma_view_members(ms@);
        assert(ms@.len() == 2);
        assert(ms@[0].0@ == "sdp"@);
        assert(ms@[0].1@ == JsonV::Str(ov.sdp));
        assert(ms@[1].0@ == "type"@);
        assert(ms@[1].1@ == JsonV::Str(ov.sdp_type));
        assert(view_members(ms@)[0] == ("sdp"@, JsonV::Str(ov.sdp)));
        assert(view_members(ms@)[1] == ("type"@, JsonV::Str(ov.sdp_type)));
        assert(view_members(ms@) =~= sdp_members(ov));
    }
    ms
}

fn ice_to_obj(o: WsIceCandidate) -> (r: Vec<(String, Json)>)
    ensures
        view_members(r@) == ice_members(o@),
{
    let ghost ov = o@;
    let WsIceCandidate { candidate, sdp_mid, sdp_mline_index } = o;
    let mut digits: Vec<char> = Vec::new();
    print_i32(sdp_mline_index, &mut digits);
    let tok = NumberLit::from_text(chars_to_string(&digits));
    let mut ms: Vec<(String, Json)> = Vec::new();
    ms.push(("candidate".to_owned(), Json::Str(candidate)));
    ms.push(("sdpMid".to_owned(), Json::Str(sdp_mid)));
    ms.push(("sdpMLineIndex".to_owned(), Json::Num(tok)));
    proof {
        lemma_view_members(ms@);
        assert(ms@.len() == 3);
        assert(ms@[0].0@ == "candidate"@);
        assert(ms@[0].1@ == JsonV::Str(ov.candidate));
        assert(ms@[1].0@ == "sdpMid"@);
        assert(ms@[1].1@ == JsonV::Str(ov.sdp_mid));
        assert(ms@[2].0@ == "sdpMLineIndex"@);
        assert(ms@[2].1@ == JsonV::Num(print_i32_spec(ov.sdp_mline_index as int)));
        assert(view_members(ms@)[0] == ("candidate"@, JsonV::Str(ov.candidate)));
        assert(view_members(ms@)[1] == ("sdpMid"@, JsonV::Str(ov.sdp_mid)));
        assert(view_members(ms@)[2] == ("sdpMLineIndex"@, JsonV::Num(
            print_i32_spec(ov.sdp_mline_index as int),
        )));
        assert(view_members(ms@) =~= ice_members(ov));
    }
    ms
}

/// The client-facing JSON form of a frame.
pub fn frame_to_json(f: WsSignalMessage) -> (r: Json)
    ensures
        r@ == json_of_frame(f@),
{
    let ghost fv = f@;
    match f {
        WsSignalMessage::ScreenRequest { robot_id } => {
            let mut ms: Vec<(String, Json)> = Vec::new();
            ms.push(("type".to_owned(), Json::Str("screen_request".to_owned())));
            ms.push(("robot_id".to_owned(), Json::Str(robot_id)));
            proof {
                lemma_view_members(ms@);
                assert(ms@.len() == 2);
                assert(ms@[0].0@ == "type"@);
                assert(ms@[0].1@ == JsonV::Str("screen_request"@));
                assert(ms@[1].0@ == "robot_id"@);
                assert(ms@[1].1@ == JsonV::Str(fv->ScreenRequest_robot_id));
                assert(view_members(ms@)[0] == ("type"@, JsonV::Str("screen_request"@)));
                assert(view_members(ms@)[1] == ("robot_id"@, JsonV::Str(
                    fv->ScreenRequest_robot_id,
                )));
                assert(view_members(ms@) =~= json_of_frame(fv)->Obj_0);
            }
            Json::Obj(ms)
        },
        WsSignalMessage::RobotOffer { robot_id, offer } => {
            let inner = sdp_to_obj(offer);
            let mut ms: Vec<(String, Json)> = Vec::new();
            ms.push(("type".to_owned(), Json::Str("robot_offer".to_owned())));
            ms.push(("robot_id".to_owned(), Json::Str(robot_id)));
            ms.push(("offer".to_owned(), Json::Obj(inner)));
            proof {
                lemma_view_members(ms@);
                assert(ms@.len() == 3);
                assert(ms@[0].0@ == "type"@);
                assert(ms@[0].1@ == JsonV::Str("robot_offer"@));
                assert(ms@[1].0@ == "robot_id"@);
                assert(ms@[1].1@ == JsonV::Str(fv->RobotOffer_robot_id));
                assert(ms@[2].0@ == "offer"@);
                assert(ms@[2].1@ == JsonV::Obj(sdp_members(fv->RobotOffer_offer)));
                assert(view_members(ms@)[0] == ("type"@, JsonV::Str("robot_offer"@)));
                assert(view_members(ms@)[1] == ("robot_id"@, JsonV::Str(fv->RobotOffer_robot_id)));
                assert(view_members(ms@)[2] == json_of_frame(fv)->Obj_0[2]);
                assert(view_members(ms@) =~= json_of_frame(fv)->Obj_0);
            }
            Json::Obj(ms)
        },
        WsSignalMessage::ClientAnswer { robot_id, answer } => {
            let inner = sdp_to_obj(answer);
            let mut ms: Vec<(String, Json)> = Vec::new();
            ms.push(("type".to_owned(), Json::Str("client_answer".to_owned())));
            ms.push(("robot_id".to_owned(), Json::Str(robot_id)));
            ms.push(("answer".to_owned(), Json::Obj(inner)));
            proof {
                lemma_view_members(ms@);
                assert(ms@.len() == 3);
                assert(ms@[0].0@ == "type"@);
                assert(ms@[0].1@ == JsonV::Str("client_answer"@));
                assert(ms@[1].0@ == "robot_id"@);
                assert(ms@[1].1@ == JsonV::Str(fv->ClientAnswer_robot_id));
                assert(ms@[2].0@ == "answer"@);
                assert(ms@[2].1@ == JsonV::Obj(sdp_members(fv->ClientAnswer_answer)));
                assert(view_members(ms@)[0] == ("type"@, JsonV::Str("client_answer"@)));
                assert(view_members(ms@)[1] == ("robot_id"@, JsonV::Str(fv->ClientAnswer_robot_id)));
                assert(view_members(ms@)[2] == json_of_frame(fv)->Obj_0[2]);
                assert(view_members(ms@) =~= json_of_frame(fv)->Obj_0);
            }
            Json::Obj(ms)
        },
        WsSignalMessage::RobotIce { robot_id, ice } => {
            let inner = ice_to_obj(ice);
            let mut ms: Vec<(String, Json)> = Vec::new();
            ms.push(("type".to_owned(), Json::Str("robot_ice".to_owned())));
            ms.push(("robot_id".to_owned(), Json::Str(robot_id)));
            ms.push(("ice".to_owned(), Json::Obj(inner)));
            proof {
                lemma_view_members(ms@);
                assert(ms@.len() == 3);
                assert(ms@[0].0@ == "type"@);
                assert(ms@[0].1@ == JsonV::Str("robot_ice"@));
                assert(ms@[1].0@ == "robot_id"@);
                assert(ms@[1].1@ == JsonV::Str(fv->RobotIce_robot_id));
                assert(ms@[2].0@ == "ice"@);
                assert(ms@[2].1@ == JsonV::Obj(ice_members(fv->RobotIce_ice)));
                assert(view_members(ms@)[0] == ("type"@, JsonV::Str("robot_ice"@)));
                assert(view_members(ms@)[1] == ("robot_id"@, JsonV::Str(fv->RobotIce_robot_id)));
                assert(view_members(ms@)[2] == json_of_frame(fv)->Obj_0[2]);
                assert(view_members(ms@) =~= json_of_frame(fv)->Obj_0);
            }
            Json::Obj(ms)
        },
        WsSignalMessage::ClientIce { robot_id, ice } => {
            let inner = ice_to_obj(ice);
            let mut ms: Vec<(String, Json)> = Vec::new();
            ms.push(("type".to_owned(), Json::Str("client_ice".to_owned())));
            ms.push(("robot_id".to_owned(), Json::Str(robot_id)));
            ms.push(("ice".to_owned(), Json::Obj(inner)));
            proof {
                lemma_view_members(ms@);
                assert(ms@.len() == 3);
                assert(ms@[0].0@ == "type"@);
                assert(ms@[0].1@ == JsonV::Str("client_ice"@));
                assert(ms@[1].0@ == "robot_id"@);
                assert(ms@[1].1@ == JsonV::Str(fv->ClientIce_robot_id));
                assert(ms@[2].0@ == "ice"@);
                assert(ms@[2].1@ == JsonV::Obj(ice_members(fv->ClientIce_ice)));
                assert(view_members(ms@)[0] == ("type"@, JsonV::Str("client_ice"@)));
                assert(view_members(ms@)[1] == ("robot_id"@, JsonV::Str(fv->ClientIce_robot_id)));
                assert(view_members(ms@)[2] == json_of_frame(fv)->Obj_0[2]);
                assert(view_members(ms@) =~= json_of_frame(fv)->Obj_0);
            }
            Json::Obj(ms)
        },
        WsSignalMessage::WebrtcError { robot_id, error } => {
            let mut ms: Vec<(String, Json)> = Vec::new();
            ms.push(("type".to_owned(), Json::Str("webrtc_error".to_owned())));
            ms.push(("robot_id".to_owned(), Json::Str(robot_id)));
            ms.push(("error".to_owned(), Json::Str(error)));
            proof {
                lemma_view_members(ms@);
                assert(ms@.len() == 3);
                assert(ms@[0].0@ == "type"@);
                assert(ms@[0].1@ == JsonV::Str("webrtc_error"@));
                assert(ms@[1].0@ == "robot_id"@);
                assert(ms@[1].1@ == JsonV::Str(fv->WebrtcError_robot_id));
                assert(ms@[2].0@ == "error"@);
                assert(ms@[2].1@ == JsonV::Str(fv->WebrtcError_error));
                assert(view_members(ms@)[0] == ("type"@, JsonV::Str("webrtc_error"@)));
                assert(view_members(ms@)[1] == ("robot_id"@, JsonV::Str(fv->WebrtcError_robot_id)));
                assert(view_members(ms@)[2] == json_of_frame(fv)->Obj_0[2]);
                assert(view_members(ms@) =~= json_of_frame(fv)->Obj_0);
            }
            Json::Obj(ms)
        },
        WsSignalMessage::ControlCommand { robot_id, command, payload } => {
            let mut ms: Vec<(String, Json)> = Vec::new();
            ms.push(("type".to_owned(), Json::Str("control_command".to_owned())));
            ms.push(("robot_id".to_owned(), Json::Str(robot_id)));
            ms.push(("command".to_owned(), Json::Str(command_name(command))));
            match payload {
                Some(p) => match p {
                    ControlPayload::Move { direction, speed } => {
                        let ghost dv = direction@;
                        let ghost sv = speed@;
                        ms.push(("payload_type".to_owned(), Json::Str("move".to_owned())));
                        ms.push(("direction".to_owned(), Json::Str(direction)));
                        ms.push(("speed".to_owned(), Json::Num(speed)));
                        proof {
                            lemma_view_members(ms@);
                            let tgt = seq![
                                ("type"@, JsonV::Str("control_command"@)),
                                ("robot_id"@, JsonV::Str(fv->ControlCommand_robot_id)),
                                (
                                    "command"@,
                                    JsonV::Str(command_name_spec(fv->ControlCommand_command)),
                                ),
                                ("payload_type"@, JsonV::Str("move"@)),
                                ("direction"@, JsonV::Str(dv)),
                                ("speed"@, JsonV::Num(sv)),
                            ];
                            assert(json_of_frame(fv)->Obj_0 =~= tgt);
                            assert(ms@.len() == 6);
                            assert(ms@[0].0@ == "type"@);
                            assert(ms@[0].1@ == JsonV::Str("control_command"@));
                            assert(ms@[1].0@ == "robot_id"@);
                            assert(ms@[1].1@ == JsonV::Str(fv->ControlCommand_robot_id));
                            assert(ms@[2].0@ == "command"@);
                            assert(ms@[2].1@ == JsonV::Str(
                                command_name_spec(fv->ControlCommand_command),
                            ));
                            assert(ms@[3].0@ == "payload_type"@);
                            assert(ms@[3].1@ == JsonV::Str("move"@));
                            assert(ms@[4].0@ == "direction"@);
                            assert(ms@[4].1@ == JsonV::Str(dv));
                            assert(ms@[5].0@ == "speed"@);
                            assert(ms@[5].1@ == JsonV::Num(sv));
                            assert(view_members(ms@)[0] == tgt[0]);
                            assert(view_members(ms@)[1] == tgt[1]);
                            assert(view_members(ms@)[2] == tgt[2]);
                            assert(view_members(ms@)[3] == tgt[3]);
                            assert(view_members(ms@)[4] == tgt[4]);
                            assert(view_members(ms@)[5] == tgt[5]);
                            assert(view_members(ms@) =~= json_of_frame(fv)->Obj_0);
                        }
                    },
                    ControlPayload::SetSpeed { speed } => {
                        let ghost sv = speed@;
                        ms.push(("payload_type".to_owned(), Json::Str("set_speed".to_owned())));
                        ms.push(("speed".to_owned(), Json::Num(speed)));
                        proof {
                            lemma_view_members(ms@);
                            let tgt = seq![
                                ("type"@, JsonV::Str("control_command"@)),
                                ("robot_id"@, JsonV::Str(fv->ControlCommand_robot_id)),
                                (
                                    "command"@,
                                    JsonV::Str(command_name_spec(fv->ControlCommand_command)),
                                ),
                                ("payload_type"@, JsonV::Str("set_speed"@)),
                                ("speed"@, JsonV::Num(sv)),
                            ];
                            assert(json_of_frame(fv)->Obj_0 =~= tgt);
                            assert(ms@.len() == 5);
                            assert(ms@[0].0@ == "type"@);
                            assert(ms@[0].1@ == JsonV::Str("control_command"@));
                            assert(ms@[1].0@ == "robot_id"@);
                            assert(ms@[1].1@ == JsonV::Str(fv->ControlCommand_robot_id));
                            assert(ms@[2].0@ == "command"@);
                            assert(ms@[2].1@ == JsonV::Str(
                                command_name_spec(fv->ControlCommand_command),
                            ));
                            assert(ms@[3].0@ == "payload_type"@);
                            assert(ms@[3].1@ == JsonV::Str("set_speed"@));
                            assert(ms@[4].0@ == "speed"@);
                            assert(ms@[4].1@ == JsonV::Num(sv));
                            assert(view_members(ms@)[0] == tgt[0]);
                            assert(view_members(ms@)[1] == tgt[1]);
                            assert(view_members(ms@)[2] == tgt[2]);
                            assert(view_members(ms@)[3] == tgt[3]);
                            assert(view_members(ms@)[4] == tgt[4]);
                            assert(view_members(ms@) =~= json_of_frame(fv)->Obj_0);
                        }
                    },
                    ControlPayload::PathFollow { path_id } => {
                        let ghost pv = path_id@;
                        ms.push(
                            ("payload_type".to_owned(), Json::Str("path_follow".to_owned())),
                        );
                        ms.push(("path_id".to_owned(), Json::Str(path_id)));
                        proof {
                            lemma_view_members(ms@);
                            let tgt = seq![
                                ("type"@, JsonV::Str("control_command"@)),
                                ("robot_id"@, JsonV::Str(fv->ControlCommand_robot_id)),
                                (
                                    "command"@,
                                    JsonV::Str(command_name_spec(fv->ControlCommand_command)),
                                ),
                                ("payload_type"@, JsonV::Str("path_follow"@)),
                                ("path_id"@, JsonV::Str(pv)),
                            ];
                            assert(json_of_frame(fv)->Obj_0 =~= tgt);
                            assert(ms@.len() == 5);
                            assert(ms@[0].0@ == "type"@);
                            assert(ms@[0].1@ == JsonV::Str("control_command"@));
                            assert(ms@[1].0@ == "robot_id"@);
                            assert(ms@[1].1@ == JsonV::Str(fv->ControlCommand_robot_id));
                            assert(ms@[2].0@ == "command"@);
                            assert(ms@[2].1@ == JsonV::Str(
                                command_name_spec(fv->ControlCommand_command),
                            ));
                            assert(ms@[3].0@ == "payload_type"@);
                            assert(ms@[3].1@ == JsonV::Str("path_follow"@));
                            assert(ms@[4].0@ == "path_id"@);
                            assert(ms@[4].1@ == JsonV::Str(pv));
                            assert(view_members(ms@)[0] == tgt[0]);
                            assert(view_members(ms@)[1] == tgt[1]);
                            assert(view_members(ms@)[2] == tgt[2]);
                            assert(view_members(ms@)[3] == tgt[3]);
                            assert(view_members(ms@)[4] == tgt[4]);
                            assert(view_members(ms@) =~= json_of_frame(fv)->Obj_0);
                        }
                    },
                },
                None => {
                    proof {
                        lemma_view_members(ms@);
                        assert(ms@.len() == 3);
                        assert(ms@[0].0@ == "type"@);
                        assert(ms@[0].1@ == JsonV::Str("control_command"@));
                        assert(ms@[1].0@ == "robot_id"@);
                        assert(ms@[1].1@ == JsonV::Str(fv->ControlCommand_robot_id));
                        assert(ms@[2].0@ == "command"@);
                        assert(ms@[2].1@ == JsonV::Str(
                            command_name_spec(fv->ControlCommand_command),
                        ));
                        assert(json_of_frame(fv)->Obj_0 =~= seq![
                            ("type"@, JsonV::Str("control_command"@)),
                            ("robot_id"@, JsonV::Str(fv->ControlCommand_robot_id)),
                            ("command"@, JsonV::Str(command_name_spec(fv->ControlCommand_command))),
                        ]);
                        assert(view_members(ms@)[0] == json_of_frame(fv)->Obj_0[0]);
                        assert(view_members(ms@)[1] == json_of_frame(fv)->Obj_0[1]);
                        assert(view_members(ms@)[2] == json_of_frame(fv)->Obj_0[2]);
                        assert(view_members(ms@) =~= json_of_frame(fv)->Obj_0);
                    }
                },
            }
            proof {
                assert(view_members(ms@) == json_of_frame(fv)->Obj_0);
            }
            Json::Obj(ms)
        },
    }
}

/// The client-facing JSON text of a frame.
pub fn to_client_json(f: WsSignalMessage) -> (r: String)
    ensures
        r@ == client_json_of(f@),
{
    let j = frame_to_json(f);
    let mut out: Vec<char> = Vec::new();
    print_json_onto(&j, &mut out);
    chars_to_string(&out)
}

/// The frame of a client JSON text: parses the text and reads the frame,
/// failing exactly where the text is not JSON or describes no frame.
pub fn from_client_json(s: &str) -> (r: Result<WsSignalMessage, ClientJsonError>)
    ensures
        match parse_json_spec(s@) {
            Option::None => r == Result::<WsSignalMessage, ClientJsonError>::Err(
                ClientJsonError::MalformedJson,
            ),
            Option::Some(v) => match frame_of_json(v) {
                Option::None => r == Result::<WsSignalMessage, ClientJsonError>::Err(
                    ClientJsonError::UnrecognizedFrame,
                ),
                Option::Some(fv) => r is Ok && r->Ok_0@ == fv,
            },
        },
{
    let chars = str_to_chars(s);
    match parse_json_exec(&chars) {
        Some(v) => match json_to_frame(&v) {
            Some(f) => Ok(f),
            None => Err(ClientJsonError::UnrecognizedFrame),
        },
        None => Err(ClientJsonError::MalformedJson),
    }
}


proof fn lemma_wf_members_of(ms: Seq<(Seq<char>, JsonV)>)
    requires
        forall|i: int| 0 <= i < ms.len() ==> wf_json((#[trigger] ms[i]).1),
    ensures
        crate::json::wf_json_members(ms),
    decreases ms.len(),
{
    if ms.len() > 0 {
        assert(wf_json(ms[0].1));
        assert(forall|i: int|
            0 <= i < ms.drop_first().len() ==> (#[trigger] ms.drop_first()[i]) == ms[i + 1]);
        lemma_wf_members_of(ms.drop_first());
    }
}

/// The JSON form of a well-formed frame is itself well formed: every
/// number member is a number token.
proof fn lemma_json_of_frame_wf(f: FrameV)
    requires
        crate::signal::wf_frame_v(f),
    ensures
        wf_json(json_of_frame(f)),
{
    let ms = json_of_frame(f)->Obj_0;
    assert forall|i: int| 0 <= i < ms.len() implies wf_json((#[trigger] ms[i]).1) by {
        match f {
            FrameV::ScreenRequest { robot_id } => {},
            FrameV::RobotOffer { robot_id, offer } => {
                if i == 2 {
                    assert(ms[i].1 == JsonV::Obj(sdp_members(offer)));
                    lemma_wf_members_of(sdp_members(offer));
                }
            },
            FrameV::ClientAnswer { robot_id, answer } => {
                if i == 2 {
                    assert(ms[i].1 == JsonV::Obj(sdp_members(answer)));
                    lemma_wf_members_of(sdp_members(answer));
                }
            },
            FrameV::RobotIce { robot_id, ice } => {
                if i == 2 {
                    assert(ms[i].1 == JsonV::Obj(ice_members(ice)));
                    crate::number::lemma_print_i32_is_num_token(ice.sdp_mline_index);
                    lemma_wf_members_of(ice_members(ice));
                }
            },
            FrameV::ClientIce { robot_id, ice } => {
                if i == 2 {
                    assert(ms[i].1 == JsonV::Obj(ice_members(ice)));
                    crate::number::lemma_print_i32_is_num_token(ice.sdp_mline_index);
                    lemma_wf_members_of(ice_members(ice));
                }
            },
            FrameV::WebrtcError { robot_id, error } => {},
            FrameV::ControlCommand { robot_id, command, payload } => {
                match payload {
                    Option::Some(p) => {
                        assert(crate::signal::wf_payload_v(p));
                        assert(ms =~= seq![
                            ("type"@, JsonV::Str("control_command"@)),
                            ("robot_id"@, JsonV::Str(robot_id)),
                            ("command"@, JsonV::Str(command_name_spec(command))),
                        ] + payload_members(p));
                        if i >= 3 {
                            assert(ms[i].1 == payload_members(p)[i - 3].1);
                        }
                    },
                    Option::None => {},
                }
            },
        }
    }
    lemma_wf_members_of(ms);
}

/// Round trip, the whole way: printing a well-formed frame as client JSON
/// and reading the text back yields the frame, field for field.
pub proof fn lemma_client_json_roundtrip(f: FrameV)
    requires
        crate::signal::wf_frame_v(f),
    ensures
        parse_json_spec(client_json_of(f)) == Option::Some(json_of_frame(f)),
        frame_of_json(json_of_frame(f)) == Option::Some(f),
{
    lemma_json_of_frame_wf(f);
    crate::json::lemma_print_parse_roundtrip(json_of_frame(f));
    lemma_frame_json_roundtrip(f);
}

/// Round trip, stated once: reading back the printed client JSON of any
/// well-formed frame yields that frame.
pub proof fn lemma_client_codec_roundtrip(f: FrameV)
    requires
        crate::signal::wf_frame_v(f),
    ensures
        client_frame_of_text(client_json_of(f)) == Option::Some(f),
{
    lemma_client_json_roundtrip(f);
}

} // verus!
