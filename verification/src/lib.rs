//! Verified core of an edge node agent: the decisions behind hole punching,
//! CDN rules, token renewal, tunnel supervision and packet routing.
//!
//! Every function here computes on plain values. Sockets, files, child
//! processes and timers belong to the program around the library, which hands
//! over what it observed and carries out what it is told.

pub mod auth;
pub mod cdn;
pub mod clock;
pub mod config;
pub mod holepunch;
pub mod http;
pub mod json;
pub mod net;
pub mod paths;
pub mod registry;
pub mod text;
pub mod tun;
pub mod tunnel;
pub mod types;
pub mod windows;
pub mod worker;
