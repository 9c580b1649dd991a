//! The crash guard.
//!
//! When the process goes down abnormally while a transaction holds the
//! lock of the package database, the lock artifact would stay on disk and
//! block every later run. The termination handler reads the lock flag and
//! asks here what to do.

use crate::error::UpdateError;
use vstd::prelude::*;

verus! {

/// What the termination handler does with the lock artifact.
#[derive(Clone, Copy, PartialEq, Eq, Debug)]
pub enum CrashAction {
    /// Remove it: a transaction of this process left it behind.
    RemoveLockArtifact,
    /// Leave it alone: if it exists, it is not ours.
    LeaveLockArtifact,
}

/// The path of the lock artifact of the package database.
pub open spec fn lock_artifact_path_text() -> Seq<char> {
    "/var/lib/pacman/db.lck"@
}

/// The path of the lock artifact of the package database.
pub fn lock_artifact_path() -> (path: &'static str)
    ensures
        path@ == lock_artifact_path_text(),
{
    "/var/lib/pacman/db.lck"
}

/// What to do on abnormal termination, given the lock flag: the artifact
/// is removed exactly when the flag says that the lock is held.
pub fn crash_action(lock_held: bool) -> (action: CrashAction)
    ensures
        lock_held <==> action is RemoveLockArtifact,
        !lock_held <==> action is LeaveLockArtifact,
{
    if lock_held {
        CrashAction::RemoveLockArtifact
    } else {
        CrashAction::LeaveLockArtifact
    }
}

/// What to log after the removal was attempted: a failed removal is an
/// error of its own kind, which is logged and never handed on.
pub fn cleanup_report(removed: bool) -> (report: Option<UpdateError>)
    ensures
        removed <==> report is None,
        !removed ==> report == Some(UpdateError::LockArtifactCleanupFailed),
{
    if removed {
        None
    } else {
        Some(UpdateError::LockArtifactCleanupFailed)
    }
}

} // verus!
