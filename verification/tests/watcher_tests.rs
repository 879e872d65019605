use pbe::watcher::{ReloadAction, ReloadState, WatchEvent, step};

fn run(mut state: ReloadState, events: &[WatchEvent]) -> (ReloadState, usize) {
    let mut rebuilds: usize = 0;
    for event in events {
        let (next, action) = step(state, *event);
        if action == ReloadAction::StartRebuild {
            rebuilds += 1;
        }
        state = next;
    }
    (state, rebuilds)
}

#[test]
fn burst_of_changes_triggers_exactly_one_rebuild() {
    let mut events = vec![WatchEvent::Change; 5];
    events.push(WatchEvent::TimerFired);
    let (state, rebuilds) = run(ReloadState::Idle, &events);
    assert_eq!(rebuilds, 1);
    assert_eq!(state, ReloadState::Rebuilding { pending: false });
}

#[test]
fn single_change_triggers_one_rebuild() {
    let (state, rebuilds) = run(ReloadState::Idle, &[WatchEvent::Change, WatchEvent::TimerFired]);
    assert_eq!(rebuilds, 1);
    assert_eq!(state, ReloadState::Rebuilding { pending: false });
}

#[test]
fn every_change_rearms_the_timer() {
    let (state, action) = step(ReloadState::Idle, WatchEvent::Change);
    assert_eq!(state, ReloadState::Accumulating);
    assert_eq!(action, ReloadAction::ArmTimer);
    let (state, action) = step(ReloadState::Accumulating, WatchEvent::Change);
    assert_eq!(state, ReloadState::Accumulating);
    assert_eq!(action, ReloadAction::ArmTimer);
}

#[test]
fn change_during_rebuild_is_not_lost() {
    let (state, action) = step(ReloadState::Rebuilding { pending: false }, WatchEvent::Change);
    assert_eq!(state, ReloadState::Rebuilding { pending: true });
    assert_eq!(action, ReloadAction::Nothing);
    let (state, action) = step(state, WatchEvent::RebuildDone);
    assert_eq!(state, ReloadState::Accumulating);
    assert_eq!(action, ReloadAction::ArmTimer);
}

#[test]
fn quiet_rebuild_returns_to_idle() {
    let (state, action) = step(ReloadState::Rebuilding { pending: false }, WatchEvent::RebuildDone);
    assert_eq!(state, ReloadState::Idle);
    assert_eq!(action, ReloadAction::Nothing);
}

#[test]
fn stale_timer_in_idle_is_ignored() {
    let (state, action) = step(ReloadState::Idle, WatchEvent::TimerFired);
    assert_eq!(state, ReloadState::Idle);
    assert_eq!(action, ReloadAction::Nothing);
}

#[test]
fn cancel_stops_without_rebuilding() {
    for start in [
        ReloadState::Idle,
        ReloadState::Accumulating,
        ReloadState::Rebuilding { pending: true },
    ] {
        let (state, action) = step(start, WatchEvent::Cancel);
        assert_eq!(state, ReloadState::Stopped);
        assert_eq!(action, ReloadAction::Nothing);
    }
    let (state, action) = step(ReloadState::Stopped, WatchEvent::Change);
    assert_eq!(state, ReloadState::Stopped);
    assert_eq!(action, ReloadAction::Nothing);
}
