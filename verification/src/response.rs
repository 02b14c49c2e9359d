//! What the remote service hands to the sync engine, as plain values.

pub mod activities;
pub mod character;
pub mod pgcr;
