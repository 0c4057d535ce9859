//! Per-shard tracking of the client sessions that live requests hold open.
//!
//! A shard owns one [`registry::SessionRegistry`]. Every request is bracketed
//! by [`lifecycle::begin_request`], which registers the peer before the
//! handler chain runs, and [`lifecycle::finish_request`], which removes it
//! again on every exit path.

pub mod session;
pub mod registry;
pub mod shard;
pub mod lifecycle;
pub mod laws;
