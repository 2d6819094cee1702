//! Client side of a bidirectional chat session: a paced outbound producer, an
//! inbound dispatcher and a session driver, each a state machine on plain
//! values. Connecting, timers and the wire are left to the caller, which feeds
//! the machines the events it observes and performs the actions they return.

pub mod envelope;
pub mod dispatch;
pub mod producer;
pub mod session;
