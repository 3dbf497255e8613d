//! World generation: features placed while populating, and the chunk source that
//! coordinates terrain generation and population across neighbouring chunks.

pub mod dungeon;
pub mod lake;
pub mod source;
