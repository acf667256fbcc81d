//! Reading-progress synchronisation for e-readers: a credential store, a
//! per-device progress store with last-write-wins reads, and the routing
//! rules of the wire protocol, all over an in-memory key-value model.

pub mod api;
pub mod args;
pub mod digest;
pub mod keys;
pub mod laws;
pub mod router;
pub mod store;
pub mod text;
