//! The store module contains the in-memory implementations of the event and
//! snapshot stores, verified against the store contracts.

pub mod in_memory;
pub mod in_memory_snapshot;
