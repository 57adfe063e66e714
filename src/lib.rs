//! The stream-consumption engine of a lattice control plane: a shared permit
//! pool, single-finalization message handles, a per-tenant consumer registry,
//! the pull-loop dispatch step and the command fan-out.

pub mod claims;
pub mod events;
pub mod manager;
pub mod message;
pub mod pool;
pub mod publisher;
