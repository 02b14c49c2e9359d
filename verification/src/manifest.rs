//! The reference dataset: records that give opaque hashes a name.

pub mod definitions;
