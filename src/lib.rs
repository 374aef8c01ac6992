//! A two-party chat whose messages form a hash-linked log per interlocutor.
//!
//! `codec` hashes blocks, `log` validates and appends them, `router` keeps
//! one log per peer and routes envelopes, and `command` classifies a line of
//! interactive input and drives the router; `laws` states and proves what
//! holds across calls.
pub mod codec;
pub mod laws;
pub mod log;
pub mod router;
pub mod command;
