//! Core of a beta 1.7.3 voxel-world server: the block world, its generators and the
//! bookkeeping of connected players, with their behaviour stated and proved.

pub mod block;
pub mod block_entity;
pub mod chunk;
pub mod dropping;
pub mod entities;
pub mod entity;
pub mod gen;
pub mod geom;
pub mod interact;
pub mod inventory;
pub mod item;
pub mod rand;
pub mod server;
pub mod tick;
pub mod world;
