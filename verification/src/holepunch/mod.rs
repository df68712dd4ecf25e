//! The hole punching engine: single punches, further attempts with the help of
//! the worker, the registration that keeps the node known, and the addresses
//! at which it may be reached.

pub mod heartbeat;
pub mod punch;
pub mod retry;
pub mod stun;
