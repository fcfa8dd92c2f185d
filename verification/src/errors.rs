//! The ways a store operation can be refused.

use vstd::prelude::*;

verus! {

/// Why a store operation was refused. Each variant marks a broken caller
/// invariant; none is retried internally.
#[derive(Copy, Clone, Debug, PartialEq, Eq, Structural)]
pub enum StoreError {
    /// The operation referenced a type that was never registered.
    UnregisteredType,
    /// The type tag was valid but the key is absent: freed, stale, or never
    /// used with that type.
    MissingKey,
    /// An exclusive borrow was attempted on an item that is already borrowed.
    AlreadyBorrowed,
    /// A release was attempted on an item that is not currently borrowed.
    NotBorrowed,
    /// No factory is registered for the (interface, type) pair.
    UnregisteredInterface,
    /// More than the maximum number of distinct types were registered.
    CapacityExceeded,
}

/// The error that every lookup of an unregistered type reports.
pub fn type_not_registered() -> (e: StoreError)
    ensures
        e == StoreError::UnregisteredType,
{
    StoreError::UnregisteredType
}

} // verus!
