//! Verified core of a per-player activity history: the definition cache's
//! identifier rule, the record store, the queue-driven sync engine and the
//! projection of stored rows into reports.

pub mod activitystoreinterface;
pub mod crucible;
pub mod enums;
pub mod error;
pub mod manifest;
pub mod manifestinterface;
pub mod performances;
pub mod prefetch;
pub mod response;
pub mod retrieval;
pub mod storedtables;
pub mod storelaws;
pub mod storemodel;
pub mod sync;
pub mod synclaws;
pub mod syncmodel;
