//! The debounced reload coordinator, as a pure state machine. The
//! surrounding loop (which owns the filesystem watcher, the timer and the
//! rebuild) feeds it events and performs the returned actions: `ArmTimer`
//! (re)arms one timer for the debounce window, `StartRebuild` begins exactly
//! one rebuild, and the timer only fires after a full window with no further
//! change. Duplicate or reordered change notifications are harmless: every
//! change in `Accumulating` merely re-arms the timer, and changes during a
//! rebuild are remembered in `pending` rather than dropped, so no change is
//! ever lost and rebuilds never overlap.

use vstd::prelude::*;

verus! {

/// The coordinator's states: waiting for a change, waiting out the debounce
/// window, rebuilding (remembering whether more changes arrived meanwhile),
/// or stopped by cancellation.
#[derive(Clone, Copy, PartialEq, Eq, Structural, Debug)]
pub enum ReloadState {
    Idle,
    Accumulating,
    Rebuilding { pending: bool },
    Stopped,
}

/// What the loop observes: a change notification, the debounce timer
/// firing, the end of a rebuild, or the cancellation signal.
#[derive(Clone, Copy, PartialEq, Eq, Structural, Debug)]
pub enum WatchEvent {
    Change,
    TimerFired,
    RebuildDone,
    Cancel,
}

/// What the loop must do next.
#[derive(Clone, Copy, PartialEq, Eq, Structural, Debug)]
pub enum ReloadAction {
    Nothing,
    ArmTimer,
    StartRebuild,
}

/// One transition of the coordinator. A stale timer in `Idle` and a stray
/// rebuild end are ignored; cancellation stops the machine from any state
/// without starting a rebuild.
pub open spec fn spec_step(s: ReloadState, e: WatchEvent) -> (ReloadState, ReloadAction) {
    match (s, e) {
        (ReloadState::Stopped, _) => (ReloadState::Stopped, ReloadAction::Nothing),
        (_, WatchEvent::Cancel) => (ReloadState::Stopped, ReloadAction::Nothing),
        (ReloadState::Idle, WatchEvent::Change) => (
            ReloadState::Accumulating,
            ReloadAction::ArmTimer,
        ),
        (ReloadState::Idle, _) => (ReloadState::Idle, ReloadAction::Nothing),
        (ReloadState::Accumulating, WatchEvent::Change) => (
            ReloadState::Accumulating,
            ReloadAction::ArmTimer,
        ),
        (ReloadState::Accumulating, WatchEvent::TimerFired) => (
            ReloadState::Rebuilding { pending: false },
            ReloadAction::StartRebuild,
        ),
        (ReloadState::Accumulating, WatchEvent::RebuildDone) => (
            ReloadState::Accumulating,
            ReloadAction::Nothing,
        ),
        (ReloadState::Rebuilding { pending }, WatchEvent::Change) => (
            ReloadState::Rebuilding { pending: true },
            ReloadAction::Nothing,
        ),
        (ReloadState::Rebuilding { pending }, WatchEvent::TimerFired) => (
            ReloadState::Rebuilding { pending },
            ReloadAction::Nothing,
        ),
        (ReloadState::Rebuilding { pending }, WatchEvent::RebuildDone) => if pending {
            (ReloadState::Accumulating, ReloadAction::ArmTimer)
        } else {
            (ReloadState::Idle, ReloadAction::Nothing)
        },
    }
}

/// One transition of the coordinator, for the loop to call.
pub fn step(state: ReloadState, event: WatchEvent) -> (r: (ReloadState, ReloadAction))
    ensures
        r == spec_step(state, event),
{
    match (state, event) {
        (ReloadState::Stopped, _) => (ReloadState::Stopped, ReloadAction::Nothing),
        (_, WatchEvent::Cancel) => (ReloadState::Stopped, ReloadAction::Nothing),
        (ReloadState::Idle, WatchEvent::Change) => (
            ReloadState::Accumulating,
            ReloadAction::ArmTimer,
        ),
        (ReloadState::Idle, _) => (ReloadState::Idle, ReloadAction::Nothing),
        (ReloadState::Accumulating, WatchEvent::Change) => (
            ReloadState::Accumulating,
            ReloadAction::ArmTimer,
        ),
        (ReloadState::Accumulating, WatchEvent::TimerFired) => (
            ReloadState::Rebuilding { pending: false },
            ReloadAction::StartRebuild,
        ),
        (ReloadState::Accumulating, WatchEvent::RebuildDone) => (
            ReloadState::Accumulating,
            ReloadAction::Nothing,
        ),
        (ReloadState::Rebuilding { pending: _ }, WatchEvent::Change) => (
            ReloadState::Rebuilding { pending: true },
            ReloadAction::Nothing,
        ),
        (ReloadState::Rebuilding { pending }, WatchEvent::TimerFired) => (
            ReloadState::Rebuilding { pending },
            ReloadAction::Nothing,
        ),
        (ReloadState::Rebuilding { pending }, WatchEvent::RebuildDone) => if pending {
            (ReloadState::Accumulating, ReloadAction::ArmTimer)
        } else {
            (ReloadState::Idle, ReloadAction::Nothing)
        },
    }
}

/// Runs the machine over a sequence of events; the second component counts
/// how many rebuilds were started.
pub open spec fn spec_run(s: ReloadState, events: Seq<WatchEvent>) -> (ReloadState, int)
    decreases events.len(),
{
    if events.len() == 0 {
        (s, 0)
    } else {
        let first = spec_step(s, events[0]);
        let rest = spec_run(first.0, events.drop_first());
        (
            rest.0,
            rest.1 + if first.1 == ReloadAction::StartRebuild {
                1int
            } else {
                0int
            },
        )
    }
}

/// A burst of `k` change notifications.
pub open spec fn burst(k: nat) -> Seq<WatchEvent> {
    Seq::new(k, |i: int| WatchEvent::Change)
}

/// Debounce coalescing: a burst of `k >= 1` change notifications, each
/// arriving within the debounce window of the one before (so that the timer,
/// re-armed on every change, fires only once the window has elapsed after
/// the last one), triggers exactly one rebuild.
pub proof fn lemma_burst_one_rebuild(s: ReloadState, k: nat)
    requires
        k >= 1,
        s == ReloadState::Idle || s == ReloadState::Accumulating,
    ensures
        spec_run(s, burst(k).push(WatchEvent::TimerFired)) == (
            ReloadState::Rebuilding { pending: false },
            1int,
        ),
    decreases k,
{
    let events = burst(k).push(WatchEvent::TimerFired);
    assert(events[0] == WatchEvent::Change);
    let first = spec_step(s, events[0]);
    assert(first == (ReloadState::Accumulating, ReloadAction::ArmTimer));
    if k == 1 {
        assert(events.drop_first() =~= seq![WatchEvent::TimerFired]);
        let rest = events.drop_first();
        assert(spec_step(ReloadState::Accumulating, rest[0]) == (
            ReloadState::Rebuilding { pending: false },
            ReloadAction::StartRebuild,
        ));
        assert(rest.drop_first() =~= Seq::<WatchEvent>::empty());
        assert(spec_run(ReloadState::Rebuilding { pending: false }, rest.drop_first()) == (
            ReloadState::Rebuilding { pending: false },
            0int,
        ));
        assert(spec_run(ReloadState::Accumulating, rest) == (
            ReloadState::Rebuilding { pending: false },
            1int,
        ));
    } else {
        assert(events.drop_first() =~= burst((k - 1) as nat).push(WatchEvent::TimerFired));
        lemma_burst_one_rebuild(ReloadState::Accumulating, (k - 1) as nat);
        assert(spec_run(ReloadState::Accumulating, events.drop_first()) == (
            ReloadState::Rebuilding { pending: false },
            1int,
        ));
    }
    assert(spec_run(s, events) == (ReloadState::Rebuilding { pending: false }, 1int));
}

/// No change is lost across a rebuild: a change that arrives while a
/// rebuild runs re-arms the debounce window as soon as the rebuild ends,
/// instead of being dropped; and without such a change the machine goes
/// back to rest.
pub proof fn lemma_rebuild_keeps_changes(pending: bool)
    ensures
        spec_run(
            ReloadState::Rebuilding { pending: false },
            seq![WatchEvent::Change, WatchEvent::RebuildDone],
        ) == (ReloadState::Accumulating, 0int),
        spec_step(ReloadState::Rebuilding { pending }, WatchEvent::RebuildDone) == if pending {
            (ReloadState::Accumulating, ReloadAction::ArmTimer)
        } else {
            (ReloadState::Idle, ReloadAction::Nothing)
        },
{
    let events = seq![WatchEvent::Change, WatchEvent::RebuildDone];
    assert(events.drop_first() =~= seq![WatchEvent::RebuildDone]);
    assert(events.drop_first().drop_first() =~= Seq::<WatchEvent>::empty());
    assert(spec_run(ReloadState::Accumulating, events.drop_first().drop_first()) == (
        ReloadState::Accumulating,
        0int,
    ));
    assert(spec_run(ReloadState::Rebuilding { pending: true }, events.drop_first()) == (
        ReloadState::Accumulating,
        0int,
    ));
    assert(spec_run(ReloadState::Rebuilding { pending: false }, events) == (
        ReloadState::Accumulating,
        0int,
    ));
}

} // verus!
