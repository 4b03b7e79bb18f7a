//! Per-connection handshake routing and the retry-once delivery policy.
//!
//! The handshake path picks the channel kind and carries the robot
//! identifier as its suffix; any other path refuses the connection. A
//! frame that fails to reach the backend triggers exactly one
//! reopen-and-resend attempt before the failure is reported.

use vstd::prelude::*;

use crate::backend::ConversionError;
use crate::backend::SignalMessage;
use crate::codec::client_json_of;
use crate::codec::to_client_json;
use crate::convert::decode_spec;
use crate::convert::decode_frame;
use crate::text::chars_to_string;
use crate::text::str_to_chars;

verus! {

/// The suffix of `path` after `prefix`, or nothing.
pub open spec fn strip_prefix_spec(path: Seq<char>, prefix: Seq<char>) -> Option<Seq<char>> {
    if path.len() >= prefix.len() && path.take(prefix.len() as int) == prefix {
        Option::Some(path.skip(prefix.len() as int))
    } else {
        Option::None
    }
}

/// `s` without its trailing slashes.
pub open spec fn trim_trailing_slashes(s: Seq<char>) -> Seq<char>
    decreases s.len(),
{
    if s.len() > 0 && s.last() == '/' {
        trim_trailing_slashes(s.drop_last())
    } else {
        s
    }
}

/// The robot identifier a path carries after a route prefix: the suffix
/// with trailing slashes removed, or nothing if the prefix does not match.
pub open spec fn robot_id_spec(path: Seq<char>, prefix: Seq<char>) -> Option<Seq<char>> {
    match strip_prefix_spec(path, prefix) {
        Option::Some(rest) => Option::Some(trim_trailing_slashes(rest)),
        Option::None => Option::None,
    }
}

/// Extracts the robot identifier that follows a route prefix, ignoring
/// trailing slashes; fails exactly when the path does not start with the
/// prefix.
pub fn extract_robot_id(path: &str, prefix: &str) -> (r: Option<String>)
    ensures
        match r {
            Option::Some(id) => robot_id_spec(path@, prefix@) == Option::Some(id@),
            Option::None => robot_id_spec(path@, prefix@) is None,
        },
{
    let pc = str_to_chars(path);
    let pf = str_to_chars(prefix);
    if pc.len() < pf.len() {
        return None;
    }
    let mut i: usize = 0;
    while i < pf.len()
        invariant
            pc@ == path@,
            pf@ == prefix@,
            i <= pf@.len() <= pc@.len(),
            forall|j: int| 0 <= j < i ==> pc@[j] == pf@[j],
        decreases pf@.len() - i,
    {
        if pc[i] != pf[i] {
            proof {
                assert(path@.take(prefix@.len() as int)[i as int] != prefix@[i as int]);
            }
            return None;
        }
        i = i + 1;
    }
    proof {
        assert(path@.take(prefix@.len() as int) =~= prefix@);
    }
    let ghost rest = path@.skip(prefix@.len() as int);
    let mut end: usize = pc.len();
    while end > pf.len() && pc[end - 1] == '/'
        invariant
            pc@ == path@,
            pf@ == prefix@,
            pf@.len() <= end <= pc@.len(),
            rest == path@.skip(prefix@.len() as int),
            trim_trailing_slashes(rest) == trim_trailing_slashes(
                path@.subrange(prefix@.len() as int, end as int),
            ),
        decreases end,
    {
        proof {
            let cur = path@.subrange(prefix@.len() as int, end as int);
            assert(cur.last() == path@[end - 1]);
            assert(cur.drop_last() =~= path@.subrange(prefix@.len() as int, end - 1));
        }
        end = end - 1;
    }
    proof {
        let cur = path@.subrange(prefix@.len() as int, end as int);
        if end > pf@.len() {
            assert(cur.last() == path@[end - 1]);
        }
        assert(trim_trailing_slashes(cur) == cur);
    }
    let mut out: Vec<char> = Vec::new();
    let mut k: usize = i;
    while k < end
        invariant
            pc@ == path@,
            i <= k <= end <= pc@.len(),
            i == 0 || i <= end,
            out@ == path@.subrange(i as int, k as int),
        decreases end - k,
    {
        out.push(pc[k]);
        assert(out@ =~= path@.subrange(i as int, k as int + 1));
        k = k + 1;
    }
    Some(chars_to_string(&out))
}

/// The channel kind a handshake path selects.
#[derive(Debug)]
pub enum Route {
    /// The signaling relay route for one robot.
    Screen { robot_id: String },
    /// The control command route for one robot.
    Control { robot_id: String },
    /// Any other path: the connection is refused.
    Unsupported,
}

/// Spec-level route of a path.
pub enum RouteV {
    Screen { robot_id: Seq<char> },
    Control { robot_id: Seq<char> },
    Unsupported,
}

impl View for Route {
    type V = RouteV;

    open spec fn view(&self) -> RouteV {
        match self {
            Route::Screen { robot_id } => RouteV::Screen { robot_id: robot_id@ },
            Route::Control { robot_id } => RouteV::Control { robot_id: robot_id@ },
            Route::Unsupported => RouteV::Unsupported,
        }
    }
}

/// The route a handshake path selects: the screen relay prefix or the
/// control prefix followed by a non-empty robot identifier; every other
/// path is unsupported.
pub open spec fn route_spec(path: Seq<char>) -> RouteV {
    match robot_id_spec(path, "/ws/screen/"@) {
        Option::Some(id) => if id.len() > 0 {
            RouteV::Screen { robot_id: id }
        } else {
            RouteV::Unsupported
        },
        Option::None => match robot_id_spec(path, "/ws/control/"@) {
            Option::Some(id) => if id.len() > 0 {
                RouteV::Control { robot_id: id }
            } else {
                RouteV::Unsupported
            },
            Option::None => RouteV::Unsupported,
        },
    }
}

/// Routes a handshake path.
pub fn route_path(path: &str) -> (r: Route)
    ensures
        r@ == route_spec(path@),
{
    match extract_robot_id(path, "/ws/screen/") {
        Some(id) => {
            if id.as_str().unicode_len() > 0 {
                Route::Screen { robot_id: id }
            } else {
                Route::Unsupported
            }
        },
        None => match extract_robot_id(path, "/ws/control/") {
            Some(id) => {
                if id.as_str().unicode_len() > 0 {
                    Route::Control { robot_id: id }
                } else {
                    Route::Unsupported
                }
            },
            None => Route::Unsupported,
        },
    }
}

/// The outcome of one attempt to hand a message to the backend stream.
#[derive(Clone, Copy, PartialEq, Eq, Structural, Debug)]
pub enum SendOutcome {
    /// The stored sender accepted the message.
    Sent,
    /// A sender existed but its channel has closed.
    ChannelClosed,
    /// No sender is stored at all.
    NoSender,
}

/// Where a delivery stands.
#[derive(Clone, Copy, PartialEq, Eq, Structural, Debug)]
pub enum DeliveryPhase {
    /// About to make the first send attempt.
    FirstAttempt,
    /// The first attempt failed; about to reopen the stream.
    Reopening,
    /// The reopen succeeded; about to resend, once.
    RetryAttempt,
    /// Finished, delivered or not.
    Done { delivered: bool },
}

/// What the delivery loop must do next.
#[derive(Clone, Copy, PartialEq, Eq, Structural, Debug)]
pub enum DeliveryStep {
    /// Attempt a send.
    Send,
    /// Ensure the shared stream is open again.
    Reopen,
    /// Stop.
    Finish,
}

/// Phase after a send attempt: success finishes; a first failure moves to
/// the one reopen; a retry failure finishes undelivered.
pub open spec fn after_send_spec(p: DeliveryPhase, o: SendOutcome) -> (DeliveryPhase, DeliveryStep) {
    match (p, o) {
        (DeliveryPhase::FirstAttempt, SendOutcome::Sent) => (
            DeliveryPhase::Done { delivered: true },
            DeliveryStep::Finish,
        ),
        (DeliveryPhase::FirstAttempt, _) => (DeliveryPhase::Reopening, DeliveryStep::Reopen),
        (DeliveryPhase::RetryAttempt, SendOutcome::Sent) => (
            DeliveryPhase::Done { delivered: true },
            DeliveryStep::Finish,
        ),
        (DeliveryPhase::RetryAttempt, _) => (
            DeliveryPhase::Done { delivered: false },
            DeliveryStep::Finish,
        ),
        (_, _) => (p, DeliveryStep::Finish),
    }
}

pub fn after_send(p: DeliveryPhase, o: SendOutcome) -> (r: (DeliveryPhase, DeliveryStep))
    ensures
        r == after_send_spec(p, o),
{
    match (p, o) {
        (DeliveryPhase::FirstAttempt, SendOutcome::Sent) => (
            DeliveryPhase::Done { delivered: true },
            DeliveryStep::Finish,
        ),
        (DeliveryPhase::FirstAttempt, _) => (DeliveryPhase::Reopening, DeliveryStep::Reopen),
        (DeliveryPhase::RetryAttempt, SendOutcome::Sent) => (
            DeliveryPhase::Done { delivered: true },
            DeliveryStep::Finish,
        ),
        (DeliveryPhase::RetryAttempt, _) => (
            DeliveryPhase::Done { delivered: false },
            DeliveryStep::Finish,
        ),
        (_, _) => (p, DeliveryStep::Finish),
    }
}

/// Phase after the one reopen attempt: success grants the one resend; a
/// failure finishes undelivered.
pub open spec fn after_reopen_spec(p: DeliveryPhase, ok: bool) -> (DeliveryPhase, DeliveryStep) {
    match p {
        DeliveryPhase::Reopening => if ok {
            (DeliveryPhase::RetryAttempt, DeliveryStep::Send)
        } else {
            (DeliveryPhase::Done { delivered: false }, DeliveryStep::Finish)
        },
        _ => (p, DeliveryStep::Finish),
    }
}

pub fn after_reopen(p: DeliveryPhase, ok: bool) -> (r: (DeliveryPhase, DeliveryStep))
    ensures
        r == after_reopen_spec(p, ok),
{
    match p {
        DeliveryPhase::Reopening => if ok {
            (DeliveryPhase::RetryAttempt, DeliveryStep::Send)
        } else {
            (DeliveryPhase::Done { delivered: false }, DeliveryStep::Finish)
        },
        _ => (p, DeliveryStep::Finish),
    }
}

/// Whether a complete delivery run ends delivered, given what each stage
/// returned (later stages are only consulted if they are reached).
pub open spec fn run_delivered(first: SendOutcome, reopen_ok: bool, second: SendOutcome) -> bool {
    first == SendOutcome::Sent || (reopen_ok && second == SendOutcome::Sent)
}

/// Whether a failed run shows the backend connection structurally broken:
/// no sender could be had at all.
pub open spec fn run_broken(first: SendOutcome, reopen_ok: bool, second: SendOutcome) -> bool {
    !run_delivered(first, reopen_ok, second) && (!reopen_ok || second == SendOutcome::NoSender)
}

/// Retry policy: every delivery run makes at most two send attempts and
/// at most one reopen attempt; a first success ends the run at once; the
/// run is delivered exactly when some attempt was accepted, and a message
/// is never sent again after an attempt was accepted.
pub proof fn lemma_retry_policy(first: SendOutcome, reopen_ok: bool, second: SendOutcome)
    ensures
        after_send_spec(DeliveryPhase::FirstAttempt, first).0 == (if first == SendOutcome::Sent {
            DeliveryPhase::Done { delivered: true }
        } else {
            DeliveryPhase::Reopening
        }),
        first == SendOutcome::Sent ==> after_send_spec(DeliveryPhase::FirstAttempt, first).1
            == DeliveryStep::Finish,
        first != SendOutcome::Sent && !reopen_ok ==> after_reopen_spec(
            DeliveryPhase::Reopening,
            reopen_ok,
        ).0 == (DeliveryPhase::Done { delivered: false }),
        first != SendOutcome::Sent && reopen_ok ==> after_send_spec(
            after_reopen_spec(DeliveryPhase::Reopening, reopen_ok).0,
            second,
        ).0 == (DeliveryPhase::Done { delivered: run_delivered(first, reopen_ok, second) }),
{
}


/// The relay route ends its connection when a frame still cannot be
/// delivered after the one reopen-and-resend attempt.
pub fn relay_delivery_directive(delivered: bool) -> (r: crate::control::LoopDirective)
    ensures
        r == (if delivered {
            crate::control::LoopDirective::Continue
        } else {
            crate::control::LoopDirective::Stop
        }),
{
    if delivered {
        crate::control::LoopDirective::Continue
    } else {
        crate::control::LoopDirective::Stop
    }
}

/// Renders one backend-originated message for the relay client: decoded
/// to its frame and printed as client JSON. A message with no client
/// equivalent fails, which aborts only that one message's delivery.
pub fn screen_outbound_json(m: SignalMessage) -> (r: Result<String, ConversionError>)
    ensures
        (r is Ok) == (decode_spec(m) is Ok),
        r is Ok ==> r->Ok_0@ == client_json_of(decode_spec(m)->Ok_0@),
        r is Err ==> r->Err_0 == decode_spec(m)->Err_0,
{
    match decode_frame(m) {
        Ok(f) => Ok(to_client_json(f)),
        Err(e) => Err(e),
    }
}

} // verus!
