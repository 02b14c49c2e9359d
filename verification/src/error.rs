//! Failures that the store, the sync engine and the projection report.

use vstd::prelude::*;

verus! {

#[derive(Clone, Copy, Debug, PartialEq, Eq, Structural)]
pub enum Error {
    /// No stored event matches the selection.
    ActivityNotFound,
    /// The roster holds no entry of the requested class.
    CharacterDoesNotExist,
    /// The collaborator returned no roster at all.
    NoCharacters,
    /// A row that a lookup relies on is absent.
    RowNotFound,
    /// A write would break a uniqueness or a reference rule of the store.
    Constraint,
    /// A table has no row identifier left to hand out.
    StoreFull,
    /// A counter of a sync run no longer fits its 32 bits.
    CounterOverflow,
    /// The engine was handed a response it had not asked for.
    UnexpectedEvent,
}

} // verus!
