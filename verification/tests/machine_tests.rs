use molyuu_updater::error::UpdateError;
use molyuu_updater::machine::{
    Action, BackendReply, MachineState, Operation, Pending, Phase, TransactionMode,
};

const OK: BackendReply = BackendReply::Succeeded(0);

fn run(operation: Operation, replies: &[BackendReply]) -> (MachineState, Vec<Action>) {
    let mut state = MachineState::start(operation);
    let mut actions = vec![state.next_action()];
    for reply in replies {
        state = state.step(*reply);
        actions.push(state.next_action());
    }
    (state, actions)
}

#[test]
fn machine_starts_idle_and_unlocked() {
    let state = MachineState::new();
    assert_eq!(state.phase, Phase::Idle);
    assert!(state.is_settled());
    assert!(!state.lock_held);
}

#[test]
fn check_runs_through_its_calls() {
    let (state, actions) =
        run(Operation::CheckUpdates, &[OK, OK, BackendReply::Succeeded(12), OK]);
    assert_eq!(
        actions,
        vec![
            Action::SynchronizeDatabases { force: false },
            Action::OpenTransaction { mode: TransactionMode::DatabaseOnly },
            Action::ComputeUpgradePlan,
            Action::Release,
            Action::Finish(Ok(12)),
        ]
    );
    assert_eq!(state.phase, Phase::Released);
    assert!(!state.lock_held);
}

#[test]
fn upgrade_runs_through_its_calls() {
    let (state, actions) =
        run(Operation::UpdateSystem, &[OK, OK, BackendReply::Succeeded(3), OK, OK]);
    assert_eq!(
        actions,
        vec![
            Action::SynchronizeDatabases { force: false },
            Action::OpenTransaction { mode: TransactionMode::Full },
            Action::ComputeUpgradePlan,
            Action::Commit,
            Action::Release,
            Action::Finish(Ok(3)),
        ]
    );
    assert_eq!(state.phase, Phase::Released);
    assert!(!state.lock_held);
}

#[test]
fn phases_and_lock_of_an_upgrade() {
    let mut state = MachineState::start(Operation::UpdateSystem);
    assert_eq!((state.phase, state.lock_held), (Phase::SyncingDatabases, false));
    state = state.step(OK);
    assert_eq!((state.phase, state.lock_held), (Phase::SyncingDatabases, false));
    assert_eq!(state.pending, Pending::OpenTransaction);
    state = state.step(OK);
    assert_eq!((state.phase, state.lock_held), (Phase::TransactionOpen, true));
    state = state.step(BackendReply::Succeeded(2));
    assert_eq!((state.phase, state.lock_held), (Phase::Committing, true));
    assert_eq!(state.planned, 2);
    state = state.step(OK);
    assert_eq!((state.phase, state.lock_held), (Phase::Committing, true));
    assert_eq!(state.pending, Pending::Release);
    state = state.step(OK);
    assert_eq!((state.phase, state.lock_held), (Phase::Released, false));
}

#[test]
fn check_is_prepared_before_its_release() {
    let mut state = MachineState::start(Operation::CheckUpdates);
    state = state.step(OK).step(OK).step(BackendReply::Succeeded(0));
    assert_eq!((state.phase, state.lock_held), (Phase::Prepared, true));
    assert_eq!(state.next_action(), Action::Release);
    state = state.step(OK);
    assert_eq!(state.next_action(), Action::Finish(Ok(0)));
}

#[test]
fn failed_synchronization_ends_the_operation() {
    for operation in [Operation::CheckUpdates, Operation::UpdateSystem] {
        let (state, actions) = run(operation, &[BackendReply::Failed]);
        assert_eq!(actions[1], Action::Finish(Err(UpdateError::DatabaseSyncFailed)));
        assert_eq!(state.phase, Phase::Failed);
        assert!(!state.lock_held);
    }
}

#[test]
fn failed_open_ends_the_operation_without_lock() {
    let (state, actions) = run(Operation::UpdateSystem, &[OK, BackendReply::Failed]);
    assert_eq!(actions[2], Action::Finish(Err(UpdateError::TransactionOpenFailed)));
    assert_eq!(state.phase, Phase::Failed);
    assert!(!state.lock_held);
}

#[test]
fn failed_plan_is_reported_after_the_release() {
    for operation in [Operation::CheckUpdates, Operation::UpdateSystem] {
        let (state, actions) = run(operation, &[OK, OK, BackendReply::Failed]);
        assert_eq!(actions[3], Action::Release);
        assert!(state.lock_held);
        assert_eq!(state.phase, Phase::TransactionOpen);
        let state = state.step(OK);
        assert_eq!(
            state.next_action(),
            Action::Finish(Err(UpdateError::TransactionPrepareFailed))
        );
        assert_eq!(state.phase, Phase::Failed);
        assert!(!state.lock_held);
    }
}

#[test]
fn failed_commit_is_reported_after_the_release() {
    let (state, actions) = run(
        Operation::UpdateSystem,
        &[OK, OK, BackendReply::Succeeded(4), BackendReply::Failed],
    );
    assert_eq!(actions[4], Action::Release);
    assert!(state.lock_held);
    let state = state.step(OK);
    assert_eq!(state.next_action(), Action::Finish(Err(UpdateError::SystemUpgradeFailed)));
    assert_eq!(state.phase, Phase::Failed);
    assert!(!state.lock_held);
}

#[test]
fn failed_release_does_not_mask_the_first_failure() {
    let (state, _) = run(
        Operation::UpdateSystem,
        &[OK, OK, BackendReply::Succeeded(4), BackendReply::Failed, BackendReply::Failed],
    );
    assert_eq!(state.next_action(), Action::Finish(Err(UpdateError::SystemUpgradeFailed)));
    assert!(!state.lock_held);
    let (state, _) =
        run(Operation::CheckUpdates, &[OK, OK, BackendReply::Failed, BackendReply::Failed]);
    assert_eq!(
        state.next_action(),
        Action::Finish(Err(UpdateError::TransactionPrepareFailed))
    );
    assert!(!state.lock_held);
}

#[test]
fn failed_release_alone_fails_the_operation() {
    let (state, _) = run(
        Operation::CheckUpdates,
        &[OK, OK, BackendReply::Succeeded(9), BackendReply::Failed],
    );
    assert_eq!(
        state.next_action(),
        Action::Finish(Err(UpdateError::TransactionReleaseFailed))
    );
    assert_eq!(state.phase, Phase::Failed);
    assert!(!state.lock_held);
}

#[test]
fn settled_machine_ignores_replies() {
    let (state, _) = run(Operation::CheckUpdates, &[OK, OK, BackendReply::Succeeded(1), OK]);
    assert_eq!(state.step(BackendReply::Failed), state);
    assert_eq!(state.step(BackendReply::Succeeded(5)), state);
    let idle = MachineState::new();
    assert_eq!(idle.step(OK), idle);
}

#[test]
fn every_run_of_replies_ends_unlocked() {
    let replies = [BackendReply::Succeeded(2), BackendReply::Failed];
    for operation in [Operation::CheckUpdates, Operation::UpdateSystem] {
        for code in 0..32usize {
            let mut state = MachineState::start(operation);
            let mut steps = 0;
            while !state.is_settled() {
                state = state.step(replies[(code >> steps) & 1]);
                steps += 1;
                assert!(steps <= 5);
            }
            assert!(!state.lock_held);
            assert!(state.phase == Phase::Released || state.phase == Phase::Failed);
        }
    }
}

#[test]
fn plan_counts_additions_and_removals() {
    assert_eq!(BackendReply::planned(0, 0), BackendReply::Succeeded(0));
    assert_eq!(BackendReply::planned(3, 0), BackendReply::Succeeded(3));
    assert_eq!(BackendReply::planned(3, 2), BackendReply::Succeeded(5));
    assert_eq!(BackendReply::planned(usize::MAX, 2), BackendReply::Succeeded(usize::MAX));
}
