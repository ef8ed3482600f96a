//! Assembles heterogeneous catalog records into a compact immutable
//! in-memory store: append-only arenas addressed by offset/length handles,
//! deduplicating dictionary builders, and a last-write-wins record map.

pub mod arena;
pub mod data;
pub mod dict;
pub mod disowned;
pub mod parse;
pub mod store;
pub mod text;
pub mod transform;
