//! Core of a collaborative text-editing server: operational transformation of
//! concurrent edits, the authoritative document with its operation log, the
//! wire framing, and the client registry with its fan-out and liveness rules.

pub mod text;
pub mod operation;
pub mod transform;
pub mod convergence;
pub mod ids;
pub mod document;
pub mod frame;
pub mod protocol;
pub mod oplog;
pub mod client_entry;
pub mod broadcaster;
pub mod state;
pub mod client;
