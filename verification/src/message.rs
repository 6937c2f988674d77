//! The two message shapes of the probe protocol.

use vstd::prelude::*;

verus! {

/// A probe sent by the client. The cookie is the only correlation token.
#[derive(Clone, Copy, Debug, PartialEq, Eq, Structural)]
pub struct Request {
    pub cookie: u32,
}

/// The responder's answer: its wall clock reading and the probe's cookie.
#[derive(Clone, Copy, Debug, PartialEq, Eq, Structural)]
pub struct Response {
    pub send_time: u64,
    pub cookie: u32,
}

/// A datagram that is not a message of the expected shape.
#[derive(Clone, Copy, Debug, PartialEq, Eq, Structural)]
pub struct DecodeError {}

} // verus!
