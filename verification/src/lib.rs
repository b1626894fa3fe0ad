//! Gated tunnels over an authenticated transport: what a node serves, to whom, and what a refused
//! caller is told.
//!
//! A node binds service names to targets ([`router`]), proves at startup that nothing it serves can
//! face a stranger it must not face ([`exposer`]), rules on each stream ([`admission`]), and keeps
//! what it needs to end a live session when the authority it was admitted by goes away ([`cut`]). A
//! service implements the handler contract ([`contract`], [`open_policy`], [`bridge`]), or the
//! typed door over it ([`service`], [`wire`]). A dialing node asks for a service by name
//! ([`connector`]).
//!
//! Everything here is a decision: plain values in, plain values out. The sockets, the clock, the
//! token library and the tasks that drive these decisions belong to the caller.

pub mod admission;
pub mod bridge;
pub mod builtins;
pub mod catalog;
pub mod connector;
pub mod contract;
pub mod cut;
pub mod exposer;
pub mod gate;
pub mod live_cuts;
pub mod open_policy;
pub mod overlay;
pub mod pool;
pub mod protocol;
pub mod router;
mod sealed;
pub mod serve;
pub mod service;
pub mod services;
pub mod session;
pub mod target;
pub mod text;
pub mod wire;
pub mod witness;
