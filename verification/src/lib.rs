//! Live-notification relay core: sanitizing, authentication, dedup cache,
//! rate limiting, broadcast fan-out and the per-connection session machine.

pub mod auth;
pub mod broadcast;
pub mod cache;
pub mod rate;
pub mod registry;
pub mod sched;
pub mod session;
pub mod types;
