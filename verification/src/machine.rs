//! The transaction state machine.
//!
//! One operation is a fixed sequence of calls into the package-manager
//! backend: synchronize the databases, open a transaction, compute the
//! upgrade plan, commit it (when upgrading), release the transaction. The
//! machine decides which call comes next from how the last one went. It
//! makes no call itself: whoever drives it performs the action and hands
//! back the reply.
//!
//! The lock of the package database is held from the moment the
//! transaction is open until the release has been attempted. Whatever
//! fails in between, the release is still asked for, and the first
//! failure is the one reported.

use crate::error::UpdateError;
use vstd::prelude::*;

verus! {

/// What the updater was asked to do.
#[derive(Clone, Copy, PartialEq, Eq, Debug)]
pub enum Operation {
    /// Count the packages that an upgrade would change.
    CheckUpdates,
    /// Upgrade the system.
    UpdateSystem,
}

/// How far an operation has come.
#[derive(Clone, Copy, PartialEq, Eq, Debug)]
pub enum Phase {
    /// No operation was started yet.
    Idle,
    /// The databases are being synchronized and the transaction opened.
    SyncingDatabases,
    /// The transaction is open; its upgrade plan is not known yet.
    TransactionOpen,
    /// The upgrade plan is known and nothing more is to be done with it.
    Prepared,
    /// The upgrade plan is known and is being committed.
    Committing,
    /// The operation is over and succeeded.
    Released,
    /// The operation is over and failed.
    Failed,
}

/// The backend call whose reply the machine waits for.
#[derive(Clone, Copy, PartialEq, Eq, Debug)]
pub enum Pending {
    /// None: no operation is in flight.
    Nothing,
    /// The synchronization of the databases.
    Synchronize,
    /// The opening of the transaction.
    OpenTransaction,
    /// The computation of the upgrade plan.
    ComputeUpgradePlan,
    /// The commit of the transaction.
    Commit,
    /// The release of the transaction.
    Release,
}

/// What a transaction may change.
#[derive(Clone, Copy, PartialEq, Eq, Debug)]
pub enum TransactionMode {
    /// Only the package database.
    DatabaseOnly,
    /// The database and the installed files.
    Full,
}

/// How a backend call went.
#[derive(Clone, Copy, PartialEq, Eq, Debug)]
pub enum BackendReply {
    /// The call succeeded. The number is the count of packages in the
    /// upgrade plan; it is read in reply to `ComputeUpgradePlan` only.
    Succeeded(usize),
    /// The call failed.
    Failed,
}

impl BackendReply {
    /// The reply to `ComputeUpgradePlan` for a plan that installs,
    /// upgrades or reinstalls `additions` packages and removes `removals`:
    /// the plan changes as many packages as the two together, or as many
    /// as can be counted.
    pub fn planned(additions: usize, removals: usize) -> (reply: BackendReply)
        ensures
            reply == BackendReply::Succeeded(
                if additions + removals <= usize::MAX {
                    (additions + removals) as usize
                } else {
                    usize::MAX
                },
            ),
    {
        BackendReply::Succeeded(additions.saturating_add(removals))
    }
}

/// What the driver of the machine has to do next.
#[derive(Clone, Copy, PartialEq, Eq, Debug)]
pub enum Action {
    /// Synchronize the package databases, forcing a refresh or not.
    SynchronizeDatabases { force: bool },
    /// Open a transaction.
    OpenTransaction { mode: TransactionMode },
    /// Compute and prepare the system upgrade, and reply with the number of
    /// packages that it changes.
    ComputeUpgradePlan,
    /// Commit the transaction.
    Commit,
    /// Release the transaction.
    Release,
    /// Nothing: the operation is over, with this result. On success the
    /// number is the count of packages in the upgrade plan.
    Finish(Result<usize, UpdateError>),
}

/// The state of the machine.
#[derive(Clone, Copy, PartialEq, Eq, Debug)]
pub struct MachineState {
    /// The operation that was started last.
    pub operation: Operation,
    pub phase: Phase,
    pub pending: Pending,
    /// Whether the lock of the package database is held.
    pub lock_held: bool,
    /// The number of packages in the upgrade plan, once it is known.
    pub planned: usize,
    /// The first failure of the operation.
    pub failure: Option<UpdateError>,
}

impl MachineState {
    /// The state before any operation.
    pub open spec fn idle() -> MachineState {
        MachineState {
            operation: Operation::CheckUpdates,
            phase: Phase::Idle,
            pending: Pending::Nothing,
            lock_held: false,
            planned: 0,
            failure: None,
        }
    }

    /// The state in which `operation` has just been started.
    pub open spec fn started(operation: Operation) -> MachineState {
        MachineState {
            operation,
            phase: Phase::SyncingDatabases,
            pending: Pending::Synchronize,
            lock_held: false,
            planned: 0,
            failure: None,
        }
    }

    /// No backend call is awaited: no operation is in flight.
    pub open spec fn settled(self) -> bool {
        self.pending is Nothing
    }

    /// The states that the machine can be in. The lock is held exactly in
    /// the phases `TransactionOpen`, `Prepared` and `Committing`.
    pub open spec fn consistent(self) -> bool {
        match self.pending {
            Pending::Nothing => {
                &&& !self.lock_held
                &&& match self.phase {
                    Phase::Idle | Phase::Released => self.failure is None,
                    Phase::Failed => self.failure is Some,
                    _ => false,
                }
            },
            Pending::Synchronize | Pending::OpenTransaction => {
                &&& self.phase is SyncingDatabases
                &&& !self.lock_held
                &&& self.failure is None
            },
            Pending::ComputeUpgradePlan => {
                &&& self.phase is TransactionOpen
                &&& self.lock_held
                &&& self.failure is None
            },
            Pending::Commit => {
                &&& self.phase is Committing
                &&& self.operation is UpdateSystem
                &&& self.lock_held
                &&& self.failure is None
            },
            Pending::Release => {
                &&& self.lock_held
                &&& match self.phase {
                    Phase::TransactionOpen => self.failure == Some(
                        UpdateError::TransactionPrepareFailed,
                    ),
                    Phase::Prepared => self.operation is CheckUpdates && self.failure is None,
                    Phase::Committing => {
                        &&& self.operation is UpdateSystem
                        &&& (self.failure is None || self.failure == Some(
                            UpdateError::SystemUpgradeFailed,
                        ))
                    },
                    _ => false,
                }
            },
        }
    }

    /// The result of the operation so far: its first failure, or the
    /// number of packages in the upgrade plan.
    pub open spec fn outcome(self) -> Result<usize, UpdateError> {
        match self.failure {
            Some(error) => Err(error),
            None => Ok(self.planned),
        }
    }

    /// The mode of the transaction that the operation opens.
    pub open spec fn mode(self) -> TransactionMode {
        match self.operation {
            Operation::CheckUpdates => TransactionMode::DatabaseOnly,
            Operation::UpdateSystem => TransactionMode::Full,
        }
    }

    /// What the driver has to do in this state.
    pub open spec fn action(self) -> Action {
        match self.pending {
            Pending::Nothing => Action::Finish(self.outcome()),
            Pending::Synchronize => Action::SynchronizeDatabases { force: false },
            Pending::OpenTransaction => Action::OpenTransaction { mode: self.mode() },
            Pending::ComputeUpgradePlan => Action::ComputeUpgradePlan,
            Pending::Commit => Action::Commit,
            Pending::Release => Action::Release,
        }
    }

    /// The state in which the operation has ended with `error` before a
    /// transaction was open.
    pub open spec fn failed_early(self, error: UpdateError) -> MachineState {
        MachineState { phase: Phase::Failed, pending: Pending::Nothing, failure: Some(error), ..self }
    }

    /// The state after `reply` to the pending call. A settled state stays
    /// as it is.
    pub open spec fn after(self, reply: BackendReply) -> MachineState {
        match self.pending {
            Pending::Nothing => self,
            Pending::Synchronize => match reply {
                BackendReply::Succeeded(_) => MachineState {
                    pending: Pending::OpenTransaction,
                    ..self
                },
                BackendReply::Failed => self.failed_early(UpdateError::DatabaseSyncFailed),
            },
            Pending::OpenTransaction => match reply {
                BackendReply::Succeeded(_) => MachineState {
                    phase: Phase::TransactionOpen,
                    pending: Pending::ComputeUpgradePlan,
                    lock_held: true,
                    ..self
                },
                BackendReply::Failed => self.failed_early(UpdateError::TransactionOpenFailed),
            },
            Pending::ComputeUpgradePlan => match reply {
                BackendReply::Succeeded(count) => match self.operation {
                    Operation::CheckUpdates => MachineState {
                        phase: Phase::Prepared,
                        pending: Pending::Release,
                        planned: count,
                        ..self
                    },
                    Operation::UpdateSystem => MachineState {
                        phase: Phase::Committing,
                        pending: Pending::Commit,
                        planned: count,
                        ..self
                    },
                },
                BackendReply::Failed => MachineState {
                    pending: Pending::Release,
                    failure: Some(UpdateError::TransactionPrepareFailed),
                    ..self
                },
            },
            Pending::Commit => match reply {
                BackendReply::Succeeded(_) => MachineState { pending: Pending::Release, ..self },
                BackendReply::Failed => MachineState {
                    pending: Pending::Release,
                    failure: Some(UpdateError::SystemUpgradeFailed),
                    ..self
                },
            },
            Pending::Release => {
                let failure = match self.failure {
                    Some(error) => Some(error),
                    None => match reply {
                        BackendReply::Succeeded(_) => None,
                        BackendReply::Failed => Some(UpdateError::TransactionReleaseFailed),
                    },
                };
                MachineState {
                    phase: if failure is None {
                        Phase::Released
                    } else {
                        Phase::Failed
                    },
                    pending: Pending::Nothing,
                    lock_held: false,
                    failure,
                    ..self
                }
            },
        }
    }

    /// An upper bound on the number of replies until the operation is
    /// over.
    pub open spec fn steps_left(self) -> nat {
        match self.pending {
            Pending::Nothing => 0,
            Pending::Release => 1,
            Pending::Commit => 2,
            Pending::ComputeUpgradePlan => 3,
            Pending::OpenTransaction => 4,
            Pending::Synchronize => 5,
        }
    }

    /// Whether no operation is in flight.
    pub fn is_settled(&self) -> (r: bool)
        ensures
            r == self.settled(),
    {
        match self.pending {
            Pending::Nothing => true,
            _ => false,
        }
    }

    /// The state before any operation.
    pub fn new() -> (r: MachineState)
        ensures
            r == MachineState::idle(),
            r.consistent(),
    {
        MachineState {
            operation: Operation::CheckUpdates,
            phase: Phase::Idle,
            pending: Pending::Nothing,
            lock_held: false,
            planned: 0,
            failure: None,
        }
    }

    /// The state in which `operation` has just been started.
    pub fn start(operation: Operation) -> (r: MachineState)
        ensures
            r == MachineState::started(operation),
            r.consistent(),
    {
        MachineState {
            operation,
            phase: Phase::SyncingDatabases,
            pending: Pending::Synchronize,
            lock_held: false,
            planned: 0,
            failure: None,
        }
    }

    /// The state after `reply` to the pending call.
    pub fn step(self, reply: BackendReply) -> (next: MachineState)
        ensures
            next == self.after(reply),
            self.consistent() ==> next.consistent(),
            !self.settled() ==> next.steps_left() < self.steps_left(),
            self.consistent() && next.settled() ==> !next.lock_held,
    {
        let succeeded: bool = match reply {
            BackendReply::Succeeded(_) => true,
            BackendReply::Failed => false,
        };
        let mut next: MachineState = self;
        match self.pending {
            Pending::Nothing => {},
            Pending::Synchronize => {
                if succeeded {
                    next.pending = Pending::OpenTransaction;
                } else {
                    next.phase = Phase::Failed;
                    next.pending = Pending::Nothing;
                    next.failure = Some(UpdateError::DatabaseSyncFailed);
                }
            },
            Pending::OpenTransaction => {
                if succeeded {
                    next.phase = Phase::TransactionOpen;
                    next.pending = Pending::ComputeUpgradePlan;
                    next.lock_held = true;
                } else {
                    next.phase = Phase::Failed;
                    next.pending = Pending::Nothing;
                    next.failure = Some(UpdateError::TransactionOpenFailed);
                }
            },
            Pending::ComputeUpgradePlan => {
                match reply {
                    BackendReply::Succeeded(count) => {
                        next.planned = count;
                        match self.operation {
                            Operation::CheckUpdates => {
                                next.phase = Phase::Prepared;
                                next.pending = Pending::Release;
                            },
                            Operation::UpdateSystem => {
                                next.phase = Phase::Committing;
                                next.pending = Pending::Commit;
                            },
                        }
                    },
                    BackendReply::Failed => {
                        next.pending = Pending::Release;
                        next.failure = Some(UpdateError::TransactionPrepareFailed);
                    },
                }
            },
            Pending::Commit => {
                next.pending = Pending::Release;
                if !succeeded {
                    next.failure = Some(UpdateError::SystemUpgradeFailed);
                }
            },
            Pending::Release => {
                next.pending = Pending::Nothing;
                next.lock_held = false;
                match self.failure {
                    Some(_) => {
                        next.phase = Phase::Failed;
                    },
                    None => {
                        if succeeded {
                            next.phase = Phase::Released;
                        } else {
                            next.phase = Phase::Failed;
                            next.failure = Some(UpdateError::TransactionReleaseFailed);
                        }
                    },
                }
            },
        }
        next
    }

    /// What the driver has to do in this state.
    pub fn next_action(&self) -> (r: Action)
        ensures
            r == self.action(),
    {
        match self.pending {
            Pending::Nothing => Action::Finish(
                match self.failure {
                    Some(error) => Err(error),
                    None => Ok(self.planned),
                },
            ),
            Pending::Synchronize => Action::SynchronizeDatabases { force: false },
            Pending::OpenTransaction => Action::OpenTransaction {
                mode: match self.operation {
                    Operation::CheckUpdates => TransactionMode::DatabaseOnly,
                    Operation::UpdateSystem => TransactionMode::Full,
                },
            },
            Pending::ComputeUpgradePlan => Action::ComputeUpgradePlan,
            Pending::Commit => Action::Commit,
            Pending::Release => Action::Release,
        }
    }
}

/// Whenever no operation is in flight the lock is not held.
pub proof fn lemma_settled_means_unlocked(state: MachineState)
    requires
        state.consistent(),
        state.settled(),
    ensures
        !state.lock_held,
{
}

/// The lock is held exactly while the transaction is open.
pub proof fn lemma_lock_window(state: MachineState)
    requires
        state.consistent(),
    ensures
        state.lock_held <==> (state.phase is TransactionOpen || state.phase is Prepared
            || state.phase is Committing),
{
}

/// A reply leads from a possible state to a possible state, and nearer to
/// the end of the operation.
pub proof fn lemma_after_reply(state: MachineState, reply: BackendReply)
    requires
        state.consistent(),
    ensures
        state.after(reply).consistent(),
        !state.settled() ==> state.after(reply).steps_left() < state.steps_left(),
        state.settled() ==> state.after(reply) == state,
{
}

/// The lock is given up in reply to the release and in no other way, and
/// it is given up whether the release succeeded or not.
pub proof fn lemma_release_gives_up_lock(state: MachineState, reply: BackendReply)
    requires
        state.consistent(),
    ensures
        state.lock_held && !state.after(reply).lock_held ==> state.pending is Release,
        state.pending is Release ==> !state.after(reply).lock_held && state.after(reply).settled(),
        state.lock_held && !(state.pending is Release) ==> !state.after(reply).settled(),
{
}

/// A failure is never replaced by a later one: what failed first is what
/// the operation reports.
pub proof fn lemma_first_failure_stays(state: MachineState, reply: BackendReply)
    requires
        state.consistent(),
        state.failure is Some,
    ensures
        state.after(reply).failure == state.failure,
{
}

/// Whatever the backend replies, an operation is over after five replies,
/// and then the lock is not held.
pub proof fn lemma_operation_ends_unlocked(
    operation: Operation,
    r1: BackendReply,
    r2: BackendReply,
    r3: BackendReply,
    r4: BackendReply,
    r5: BackendReply,
)
    ensures
        MachineState::started(operation).after(r1).after(r2).after(r3).after(r4).after(r5).settled(),
        !MachineState::started(operation).after(r1).after(r2).after(r3).after(r4).after(
            r5,
        ).lock_held,
{
    let s0 = MachineState::started(operation);
    let s1 = s0.after(r1);
    let s2 = s1.after(r2);
    let s3 = s2.after(r3);
    let s4 = s3.after(r4);
    lemma_after_reply(s0, r1);
    lemma_after_reply(s1, r2);
    lemma_after_reply(s2, r3);
    lemma_after_reply(s3, r4);
    lemma_after_reply(s4, r5);
}

} // verus!
