//! Verified core of a multi-room chat service.
//!
//! The library models the authoritative server state — which rooms exist, who
//! owns them, which authenticated identities occupy them, and the per-room
//! fanout of broadcast events — and exposes the atomic operations that mutate
//! it: create, join, leave, kick, delete, publish and drain.  Every operation
//! is a single atomic step on that state, so the linearizability the service
//! needs is obtained by running each operation under one exclusive borrow;
//! the contracts here pin down exactly what each step does.
//!
//! Transport, framing and presentation (HTTP endpoints, websockets, JSON
//! encoding, terminal output) live outside the library and hand it plain,
//! already-decoded values.
pub mod actor;
pub mod client;
pub mod clock;
pub mod engine;
pub mod hub;
pub mod idgen;
pub mod laws;
pub mod messages;
pub mod registry;
pub mod sessions;
