//! What one run of the updater does, and the exit code that it ends with.

use vstd::prelude::*;

verus! {

/// Updates were found, or were applied.
pub const EXIT_UPDATED: i32 = 0;

/// The run only answered the probe for duplicate detection.
pub const EXIT_DUPLICATE_DETECTION: i32 = 1;

/// There is nothing to update.
pub const EXIT_NO_UPDATES: i32 = 7;

/// What a run was asked for.
#[derive(Clone, Copy, PartialEq, Eq, Debug)]
pub enum Request {
    /// Only look for updates.
    Check,
    /// Only answer the probe for duplicate detection.
    DuplicateDetection,
    /// Look for updates and apply them.
    Upgrade,
}

/// What a run does once it knows how many packages would change.
#[derive(Clone, Copy, PartialEq, Eq, Debug)]
pub enum Verdict {
    /// End with this exit code.
    Exit(i32),
    /// Upgrade the system, then end with `EXIT_UPDATED`.
    Upgrade,
}

/// The request of a command line: the `check` subcommand only looks for
/// updates whatever else is given; without it, the probe for duplicate
/// detection is answered if it was made, and else the system is upgraded.
pub open spec fn request_of(check_subcommand: bool, supports_duplicate_detection: bool) -> Request {
    if check_subcommand {
        Request::Check
    } else if supports_duplicate_detection {
        Request::DuplicateDetection
    } else {
        Request::Upgrade
    }
}

/// What follows for `request` when `changes` packages would change. The
/// probe for duplicate detection looks at no package.
pub open spec fn verdict_of(request: Request, changes: nat) -> Verdict {
    match request {
        Request::DuplicateDetection => Verdict::Exit(EXIT_DUPLICATE_DETECTION),
        Request::Check => Verdict::Exit(
            if changes > 0 {
                EXIT_UPDATED
            } else {
                EXIT_NO_UPDATES
            },
        ),
        Request::Upgrade => if changes == 0 {
            Verdict::Exit(EXIT_NO_UPDATES)
        } else {
            Verdict::Upgrade
        },
    }
}

/// The request of a command line.
pub fn classify(check_subcommand: bool, supports_duplicate_detection: bool) -> (request: Request)
    ensures
        request == request_of(check_subcommand, supports_duplicate_detection),
{
    if check_subcommand {
        Request::Check
    } else if supports_duplicate_detection {
        Request::DuplicateDetection
    } else {
        Request::Upgrade
    }
}

/// Whether `request` needs the packages that would change to be counted.
pub fn needs_check(request: Request) -> (r: bool)
    ensures
        r == !(request is DuplicateDetection),
{
    match request {
        Request::DuplicateDetection => false,
        _ => true,
    }
}

/// What follows for `request` when `changes` packages would change.
pub fn decide(request: Request, changes: usize) -> (verdict: Verdict)
    ensures
        verdict == verdict_of(request, changes as nat),
{
    match request {
        Request::DuplicateDetection => Verdict::Exit(EXIT_DUPLICATE_DETECTION),
        Request::Check => {
            if changes > 0 {
                Verdict::Exit(EXIT_UPDATED)
            } else {
                Verdict::Exit(EXIT_NO_UPDATES)
            }
        },
        Request::Upgrade => {
            if changes == 0 {
                Verdict::Exit(EXIT_NO_UPDATES)
            } else {
                Verdict::Upgrade
            }
        },
    }
}

} // verus!
