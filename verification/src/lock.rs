//! The process-wide lock flag.
//!
//! The flag says whether a transaction of this process holds the lock of
//! the package database. It lives in an atomic cell so that a termination
//! handler can read it at any time without blocking.

use crossbeam_utils::atomic::AtomicCell;
use vstd::prelude::*;

verus! {

/// The type `AtomicCell` of crossbeam-utils, a cell that threads share and
/// whose value is read and replaced atomically. Nothing is claimed of its
/// contents.
#[verifier::external_type_specification]
#[verifier::external_body]
#[verifier::reject_recursive_types(T)]
pub struct ExAtomicCell<T>(AtomicCell<T>);

/// Calls `AtomicCell::store`, which replaces the value in the cell. The
/// cell is shared, so nothing is claimed here of what a later load sees.
#[verifier::external_body]
pub(crate) fn store_lock_state(flag: &AtomicCell<bool>, held: bool) {
    flag.store(held)
}

} // verus!
