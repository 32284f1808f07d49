//! When the status page is polled.

use vstd::prelude::*;

use crate::state::{AppState, AppStateView};

verus! {

/// How long the watcher sleeps between two looks at the timer, in milliseconds.
pub const TICK_MS: u64 = 500;

/// How long the watcher has waited since the last poll.
pub struct PollTimer {
    pub waited_ms: u64,
}

/// Whether a poll is due.
pub open spec fn is_due(waited_ms: int, state: AppStateView) -> bool {
    state.check_requested || waited_ms >= state.config.poll_secs * 1000
}

/// How long the watcher has waited when it looks at the timer the next time.
pub open spec fn waited_next(waited_ms: int, state: AppStateView) -> int {
    if is_due(waited_ms, state) {
        TICK_MS as int
    } else {
        waited_ms + TICK_MS
    }
}

impl PollTimer {
    /// A timer at which the first poll is due at once.
    pub fn new() -> (timer: Self)
        ensures
            timer.waited_ms == u64::MAX,
    {
        PollTimer { waited_ms: u64::MAX }
    }

    /// Looks at the timer, ahead of one sleep: says whether a poll is due, and takes the user's
    /// request for one as met.
    pub fn tick(&mut self, state: &mut AppState) -> (due: bool)
        requires
            old(state).wf(),
        ensures
            due == is_due(old(self).waited_ms as int, old(state)@),
            final(self).waited_ms == waited_next(old(self).waited_ms as int, old(state)@),
            final(state)@ == (AppStateView { check_requested: false, ..old(state)@ }),
            final(state).wf(),
    {
        let requested = state.check_requested;
        state.check_requested = false;
        let due = requested || self.waited_ms >= state.config.poll_secs * 1000;
        if due {
            self.waited_ms = 0;
        }
        self.waited_ms = self.waited_ms + TICK_MS;
        due
    }
}

} // verus!
