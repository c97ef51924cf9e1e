//! Reliable, ordered delivery of ball positions over an unreliable datagram
//! channel: the simulator's sequencing and retransmit history, the viewer's
//! reorder queue, and the deterministic arena physics that feeds them.

pub mod arena;
pub mod receiver;
pub mod sender;
pub mod wire;
