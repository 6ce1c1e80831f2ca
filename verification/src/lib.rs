//! A self-healing reverse proxy core: a supervisor state machine that starts a
//! single backend process exactly once and gates traffic on its health, and a
//! forwarding pipeline that rewrites targets, strips hop-by-hop headers and
//! relays streamed bodies frame by frame.
//!
//! The I/O itself (spawning the process, HTTP calls, timers, signals) lives in
//! the surrounding application; this library holds every decision those loops
//! make, with contracts.

pub mod config;
pub mod forward;
pub mod supervisor;
pub mod text;
