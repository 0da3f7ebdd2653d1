//! Decision logic of the filesystem watcher. The subscription to OS events
//! runs outside; every delivered event is reduced here to a choice of path
//! and a store upsert, and the watcher's life cycle follows a three-state
//! machine that never restarts after a failure.

use vstd::prelude::*;
use crate::store::{upserted, MountStore};

verus! {

/// Life cycle of one mount's watcher: it starts, watches until its event
/// source fails unrecoverably, and stays failed — there is no restart.
#[derive(PartialEq, Eq, Structural, Clone, Copy, Debug)]
pub enum WatchState {
    Starting,
    Watching,
    Failed,
}

/// What the watcher observes next.
#[derive(PartialEq, Eq, Structural, Clone, Copy, Debug)]
pub enum WatchSignal {
    /// The recursive subscription was registered.
    Subscribed,
    /// An event arrived and was handled, well or not; per-event errors are
    /// logged and dropped, they do not end the watch.
    EventHandled,
    /// The event source closed or failed unrecoverably.
    SourceFailed,
}

/// The next state of the watcher after `signal`.
pub open spec fn watch_transition(state: WatchState, signal: WatchSignal) -> WatchState {
    match signal {
        WatchSignal::Subscribed => if state == WatchState::Starting {
            WatchState::Watching
        } else {
            state
        },
        WatchSignal::EventHandled => state,
        WatchSignal::SourceFailed => WatchState::Failed,
    }
}

/// Advance the watcher's state machine by one observation.
pub fn watch_step(state: WatchState, signal: WatchSignal) -> (next: WatchState)
    ensures
        next == watch_transition(state, signal),
        state == WatchState::Failed ==> next == WatchState::Failed,
{
    match signal {
        WatchSignal::Subscribed => {
            if state == WatchState::Starting {
                WatchState::Watching
            } else {
                state
            }
        },
        WatchSignal::EventHandled => state,
        WatchSignal::SourceFailed => WatchState::Failed,
    }
}

/// The path an event is acted on: the first reported path, by design, even
/// when the source batches several.
pub fn pick_event_path(paths: &Vec<String>) -> (r: Option<&String>)
    ensures
        (r is Some) == (paths@.len() > 0),
        r matches Some(p) ==> p@ == paths@[0]@,
{
    if paths.len() > 0 {
        Option::Some(&paths[0])
    } else {
        Option::None
    }
}

/// The word the watcher reports for an entry's kind.
pub fn file_kind_label(is_directory: bool) -> (r: &'static str)
    ensures
        is_directory ==> r@ == "Directory"@,
        !is_directory ==> r@ == "File"@,
{
    if is_directory {
        "Directory"
    } else {
        "File"
    }
}

impl MountStore {
    /// Record one watch event whose path could be inspected: upsert the
    /// entry (clearing any digest) and name its kind for the log.
    pub fn apply_watch_event(&mut self, path: &str, is_directory: bool, now: i64) -> (label:
        &'static str)
        requires
            old(self).wf(),
        ensures
            final(self).wf(),
            final(self)@ == upserted(old(self)@, path@, is_directory, now),
            final(self).meta == old(self).meta,
            is_directory ==> label@ == "Directory"@,
            !is_directory ==> label@ == "File"@,
    {
        self.upsert_file(path, is_directory, now);
        file_kind_label(is_directory)
    }
}

} // verus!
