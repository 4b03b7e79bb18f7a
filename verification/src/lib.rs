//! Protocol gateway core: wire codec, session registry, shared-stream state
//! machine, and per-connection handler logic for a WebSocket-to-backend
//! robot signaling bridge.

pub mod backend;
pub mod codec;
pub mod config;
pub mod control;
pub mod convert;
pub mod json;
pub mod number;
pub mod route;
pub mod session;
pub mod stream;
pub mod signal;
pub mod text;

use vstd::prelude::*;

verus! {

/// A robot identifier is routing data: it must be non-empty.
pub open spec fn valid_robot_id(id: Seq<char>) -> bool {
    id.len() > 0
}

/// Checks that a robot identifier is non-empty, as every routing key must be.
pub fn robot_id_ok(id: &str) -> (r: bool)
    ensures
        r == valid_robot_id(id@),
{
    id.unicode_len() > 0
}

} // verus!
