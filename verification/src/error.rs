//! The ways in which an update can fail.

use vstd::prelude::*;

verus! {

/// Why an operation of the updater failed.
#[derive(Clone, Copy, PartialEq, Eq, Debug)]
pub enum UpdateError {
    /// The process may not change the package database.
    PermissionDenied,
    /// The package databases could not be synchronized.
    DatabaseSyncFailed,
    /// The backend refused to open a transaction.
    TransactionOpenFailed,
    /// The upgrade plan could not be prepared.
    TransactionPrepareFailed,
    /// The transaction could not be committed.
    SystemUpgradeFailed,
    /// The transaction did its work but could not be released.
    TransactionReleaseFailed,
    /// A lock artifact that was left behind could not be removed.
    LockArtifactCleanupFailed,
}

/// The text that describes `error`.
pub open spec fn error_text(error: UpdateError) -> Seq<char> {
    match error {
        UpdateError::PermissionDenied => "Permission Denied"@,
        UpdateError::DatabaseSyncFailed => "Database synchronization failed"@,
        UpdateError::TransactionOpenFailed => "Transaction could not be opened"@,
        UpdateError::TransactionPrepareFailed => "Transaction could not be prepared"@,
        UpdateError::SystemUpgradeFailed => "System upgrade failed"@,
        UpdateError::TransactionReleaseFailed => "Transaction could not be released"@,
        UpdateError::LockArtifactCleanupFailed => "Lock artifact could not be removed"@,
    }
}

impl UpdateError {
    /// A line that describes the error.
    pub fn message(&self) -> (text: &'static str)
        ensures
            text@ == error_text(*self),
    {
        match self {
            UpdateError::PermissionDenied => "Permission Denied",
            UpdateError::DatabaseSyncFailed => "Database synchronization failed",
            UpdateError::TransactionOpenFailed => "Transaction could not be opened",
            UpdateError::TransactionPrepareFailed => "Transaction could not be prepared",
            UpdateError::SystemUpgradeFailed => "System upgrade failed",
            UpdateError::TransactionReleaseFailed => "Transaction could not be released",
            UpdateError::LockArtifactCleanupFailed => "Lock artifact could not be removed",
        }
    }

    /// Whether the error is handed to the caller. A failed cleanup of the
    /// lock artifact happens while the process goes down and is only
    /// logged; every other error is handed on.
    pub fn is_propagated(&self) -> (r: bool)
        ensures
            r == !(*self is LockArtifactCleanupFailed),
    {
        match self {
            UpdateError::LockArtifactCleanupFailed => false,
            _ => true,
        }
    }
}

} // verus!
