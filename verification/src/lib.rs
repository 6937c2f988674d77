//! Clock-offset and round-trip probing between two hosts: the messages of the
//! probe protocol, the responder's reply rule, the client's self-correcting
//! poll scheduler with cookie correlation, and the log record it produces.
//!
//! Monotonic instants are whole nanoseconds since the client started; wall
//! clock readings are whole seconds since the Unix epoch.

pub mod codec;
pub mod cookie;
pub mod message;
pub mod record;
pub mod responder;
pub mod scheduler;
