//! Persistence core for a process-scheduling node.
//!
//! The library models the durable state a scheduling node relies on: a
//! store of processes with their binary payloads, a per-process append
//! log of messages, a registry of schedulers, and the one-time binding
//! of each process to a scheduler. Every operation leases a connection
//! from a bounded pool, performs one unit of work, and releases the
//! lease on every exit path. The consistency rules of the store —
//! first-write-wins for processes and assignments, explicit duplicate
//! rejection for messages, ascending insertion order for enumeration —
//! are stated as contracts and proved.

pub mod domain;
pub mod error;
pub mod laws;
pub mod model;
pub mod pool;
pub mod rows;
pub mod store;
mod strings;
