//! The transaction orchestrator.
//!
//! A `Pacman` owns the state machine of the operation in flight, the
//! progress tracker of its transaction, and the shared lock flag. It is
//! driven from outside: `check_updates` or `update_system` start an
//! operation and name the first backend call, `advance` takes the reply
//! to a call and names the next one, and the two event handlers take what
//! the backend reports while it commits.

use crate::error::UpdateError;
use crate::lock::store_lock_state;
use crate::machine::{Action, BackendReply, MachineState, Operation, Pending};
use crate::progress::{progress_percent, ProgressTracker, ProgressView};
use crate::render::{
    download_line, install_line, is_package_archive, names_package_archive, plain_line,
    render_download, render_install,
};
use crossbeam_utils::atomic::AtomicCell;
use vstd::prelude::*;

verus! {

/// The step of an installation that a progress event of the backend
/// belongs to.
#[derive(Clone, Copy, PartialEq, Eq, Debug)]
pub enum InstallPhase {
    AddStart,
    ReinstallStart,
    RemoveStart,
    UpgradeStart,
    /// Any other step; such events are not counted.
    Other,
}

impl InstallPhase {
    /// Whether events of this step are counted as install progress.
    pub open spec fn counted(self) -> bool {
        !(self is Other)
    }

    /// Whether events of this step are counted as install progress.
    pub fn is_counted(&self) -> (r: bool)
        ensures
            r == self.counted(),
    {
        match self {
            InstallPhase::Other => false,
            _ => true,
        }
    }
}

/// The user id that may change the package database.
pub const ROOT_UID: u32 = 0;

/// The progress that the tracker of a transaction shows: none before the
/// upgrade plan of an upgrade is known and none after the operation is
/// over; a fresh tracker, sized to the plan, when the commit is asked for.
pub open spec fn progress_after(
    before: Option<ProgressView>,
    next: MachineState,
) -> Option<ProgressView> {
    if next.pending is Commit {
        Some(ProgressView::initial(next.planned as nat))
    } else if next.settled() {
        None
    } else {
        before
    }
}

/// The orchestrator of check and upgrade operations.
pub struct Pacman<'a> {
    steam_progress: bool,
    flag: &'a AtomicCell<bool>,
    state: MachineState,
    tracker: Option<ProgressTracker>,
}

impl<'a> Pacman<'a> {
    #[verifier::type_invariant]
    spec fn well_formed(&self) -> bool {
        self.state.consistent()
    }

    /// The state of the machine.
    pub closed spec fn state(&self) -> MachineState {
        self.state
    }

    /// What the tracker of the transaction has recorded, while there is
    /// one.
    pub closed spec fn progress(&self) -> Option<ProgressView> {
        match self.tracker {
            Some(tracker) => Some(tracker@),
            None => None,
        }
    }

    /// Whether progress is reported in the plain form.
    pub closed spec fn plain_progress(&self) -> bool {
        self.steam_progress
    }

    /// The shared lock flag that this orchestrator writes to: the one that
    /// it was made with.
    pub closed spec fn shared_flag(&self) -> &'a AtomicCell<bool> {
        self.flag
    }

    /// An orchestrator for a process that runs as user `euid`. Only the
    /// root user may change the package database. `flag` is the shared
    /// flag that says whether the lock of the database is held;
    /// `steam_progress` asks for progress lines in the plain form.
    pub fn new(steam_progress: bool, euid: u32, flag: &'a AtomicCell<bool>) -> (r: Result<
        Pacman<'a>,
        UpdateError,
    >)
        ensures
            euid == ROOT_UID <==> r is Ok,
            r matches Err(error) ==> error == UpdateError::PermissionDenied,
            r matches Ok(pacman) ==> {
                &&& pacman.state() == MachineState::idle()
                &&& pacman.progress() is None
                &&& pacman.plain_progress() == steam_progress
                &&& pacman.shared_flag() == flag
            },
    {
        if euid != ROOT_UID {
            Err(UpdateError::PermissionDenied)
        } else {
            Ok(Pacman { steam_progress, flag, state: MachineState::new(), tracker: None })
        }
    }

    /// The state of the machine. It is always one of the possible states,
    /// so the lock is held exactly while a transaction is open.
    pub fn current_state(&self) -> (r: MachineState)
        ensures
            r == self.state(),
            r.consistent(),
    {
        proof {
            use_type_invariant(self);
        }
        self.state
    }

    /// Whether this orchestrator holds the lock of the package database.
    /// It never does while no operation is in flight.
    pub fn lock_held(&self) -> (r: bool)
        ensures
            r == self.state().lock_held,
            self.state().settled() ==> !r,
    {
        proof {
            use_type_invariant(self);
        }
        self.state.lock_held
    }

    /// The overall percentage of the transaction in flight, while it has a
    /// tracker.
    pub fn current_progress(&self) -> (r: Option<usize>)
        ensures
            r == match self.progress() {
                Some(view) => Some(progress_percent(view) as usize),
                None => None,
            },
    {
        match &self.tracker {
            Some(tracker) => Some(tracker.get_current_progress()),
            None => None,
        }
    }

    /// Starts counting the packages that an upgrade would change and names
    /// the first backend call. While an operation is in flight nothing is
    /// started and nothing changes.
    pub fn check_updates(&mut self) -> (action: Option<Action>)
        ensures
            old(self).state().settled() <==> action is Some,
            !old(self).state().settled() ==> *final(self) == *old(self),
            old(self).state().settled() ==> {
                &&& final(self).state() == MachineState::started(Operation::CheckUpdates)
                &&& action == Some(final(self).state().action())
                &&& final(self).progress() is None
                &&& final(self).plain_progress() == old(self).plain_progress()
            },
            final(self).shared_flag() == old(self).shared_flag(),
    {
        self.begin(Operation::CheckUpdates)
    }

    /// Starts an upgrade of the system and names the first backend call.
    /// While an operation is in flight nothing is started and nothing
    /// changes.
    pub fn update_system(&mut self) -> (action: Option<Action>)
        ensures
            old(self).state().settled() <==> action is Some,
            !old(self).state().settled() ==> *final(self) == *old(self),
            old(self).state().settled() ==> {
                &&& final(self).state() == MachineState::started(Operation::UpdateSystem)
                &&& action == Some(final(self).state().action())
                &&& final(self).progress() is None
                &&& final(self).plain_progress() == old(self).plain_progress()
            },
            final(self).shared_flag() == old(self).shared_flag(),
    {
        self.begin(Operation::UpdateSystem)
    }

    fn begin(&mut self, operation: Operation) -> (action: Option<Action>)
        ensures
            old(self).state().settled() <==> action is Some,
            !old(self).state().settled() ==> *final(self) == *old(self),
            old(self).state().settled() ==> {
                &&& final(self).state() == MachineState::started(operation)
                &&& action == Some(final(self).state().action())
                &&& final(self).progress() is None
                &&& final(self).plain_progress() == old(self).plain_progress()
            },
            final(self).shared_flag() == old(self).shared_flag(),
    {
        if !self.state.is_settled() {
            return None;
        }
        self.state = MachineState::start(operation);
        self.tracker = None;
        Some(self.state.next_action())
    }

    /// Takes the reply to the backend call that was named last and names
    /// what comes next. The shared lock flag, `shared_flag()`, is set when
    /// the transaction has been opened and cleared when its release has
    /// been attempted, before the operation is reported as over. While no operation is in
    /// flight there is nothing to reply to, and nothing changes.
    pub fn advance(&mut self, reply: BackendReply) -> (action: Option<Action>)
        ensures
            old(self).state().settled() <==> action is None,
            old(self).state().settled() ==> *final(self) == *old(self),
            !old(self).state().settled() ==> {
                &&& final(self).state() == old(self).state().after(reply)
                &&& action == Some(final(self).state().action())
                &&& final(self).progress() == progress_after(
                    old(self).progress(),
                    final(self).state(),
                )
                &&& final(self).plain_progress() == old(self).plain_progress()
            },
            action matches Some(Action::Finish(_)) ==> !final(self).state().lock_held,
            final(self).shared_flag() == old(self).shared_flag(),
    {
        proof {
            use_type_invariant(&*self);
        }
        if self.state.is_settled() {
            return None;
        }
        let held_before: bool = self.state.lock_held;
        let next: MachineState = self.state.step(reply);
        self.state = next;
        if next.lock_held != held_before {
            store_lock_state(self.flag, next.lock_held);
        }
        match next.pending {
            Pending::Commit => {
                self.tracker = Some(ProgressTracker::new(next.planned));
            },
            Pending::Nothing => {
                self.tracker = None;
            },
            _ => {},
        }
        Some(next.next_action())
    }

    /// Takes a download event of the backend: `downloaded` of `total`
    /// bytes of `filename` have arrived. While the transaction has a
    /// tracker and the file is a package archive, the event is recorded
    /// and the line that reports the new overall percentage is returned.
    /// Any other event changes nothing.
    pub fn on_download_event(&mut self, filename: &str, downloaded: usize, total: usize) -> (line:
        Option<String>)
        ensures
            final(self).state() == old(self).state(),
            final(self).plain_progress() == old(self).plain_progress(),
            final(self).shared_flag() == old(self).shared_flag(),
            match old(self).progress() {
                Some(before) if names_package_archive(filename@) => {
                    let now = before.record_download(filename@, downloaded, total);
                    &&& final(self).progress() == Some(now)
                    &&& line matches Some(text)
                    &&& text@ == if old(self).plain_progress() {
                        plain_line(progress_percent(now))
                    } else {
                        download_line(filename@, progress_percent(now))
                    }
                },
                _ => final(self).progress() == old(self).progress() && line is None,
            },
    {
        proof {
            use_type_invariant(&*self);
        }
        if !is_package_archive(filename) {
            return None;
        }
        let mut tracker: Option<ProgressTracker> = None;
        std::mem::swap(&mut self.tracker, &mut tracker);
        let line: Option<String> = match &mut tracker {
            Some(current) => {
                current.update_download_progress(filename, downloaded, total);
                let overall: usize = current.get_current_progress();
                Some(render_download(self.steam_progress, filename, overall))
            },
            None => None,
        };
        std::mem::swap(&mut self.tracker, &mut tracker);
        line
    }

    /// Takes an install event of the backend: `package_name` is installed
    /// to `percent`. While the transaction has a tracker and the event
    /// belongs to a counted step, the event is recorded and the line that
    /// reports the new overall percentage is returned. Any other event
    /// changes nothing.
    pub fn on_install_event(&mut self, phase: InstallPhase, package_name: &str, percent: usize) -> (line:
        Option<String>)
        ensures
            final(self).state() == old(self).state(),
            final(self).plain_progress() == old(self).plain_progress(),
            final(self).shared_flag() == old(self).shared_flag(),
            match old(self).progress() {
                Some(before) if phase.counted() => {
                    let now = before.record_install(package_name@, percent);
                    &&& final(self).progress() == Some(now)
                    &&& line matches Some(text)
                    &&& text@ == if old(self).plain_progress() {
                        plain_line(progress_percent(now))
                    } else {
                        install_line(package_name@, percent as nat, progress_percent(now))
                    }
                },
                _ => final(self).progress() == old(self).progress() && line is None,
            },
    {
        proof {
            use_type_invariant(&*self);
        }
        if !phase.is_counted() {
            return None;
        }
        let mut tracker: Option<ProgressTracker> = None;
        std::mem::swap(&mut self.tracker, &mut tracker);
        let line: Option<String> = match &mut tracker {
            Some(current) => {
                current.update_install_progress(package_name, percent);
                let overall: usize = current.get_current_progress();
                Some(render_install(self.steam_progress, package_name, percent, overall))
            },
            None => None,
        };
        std::mem::swap(&mut self.tracker, &mut tracker);
        line
    }
}

} // verus!
