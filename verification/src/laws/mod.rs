//! What holds of the watcher over any course of events.

pub mod calls;
pub mod models;
pub mod news;
pub mod notifications;
pub mod reports;
pub mod source;
pub mod windows;
pub mod wording;

use vstd::prelude::*;

use crate::config::AppConfigView;
use crate::notify::ActionView;
use crate::settings::{SettingsCall, SettingsReplyView};
use crate::state::AppStateView;
use crate::status::RawStatusView;
use crate::window::HudCall;

verus! {

/// Something that happens to the watcher.
pub enum Happening {
    /// A fetch brought a report, at this time.
    Fetched(RawStatusView, u64),
    /// A fetch reached the status page at this time, and its report was not taken into account.
    Reached(u64),
    /// A fetch failed with this message, at this time.
    FetchFailed(Seq<char>, u64),
    /// The user asked for a poll.
    CheckNow,
    /// The timer was looked at.
    Tick,
    /// A call on the floating window returned.
    HudReply(HudCall, Result<(), Seq<char>>),
    /// A call returned that was made to put settings in force.
    SettingsReply(AppConfigView, SettingsCall, SettingsReplyView),
}

/// The state after something happens, and what the watcher does.
pub open spec fn step(state: AppStateView, happening: Happening) -> (
    AppStateView,
    Seq<ActionView>,
) {
    match happening {
        Happening::Fetched(raw, now) => state.fetched(raw, now),
        Happening::Reached(now) => state.reached(now),
        Happening::FetchFailed(error, now) => state.fetch_failed(error, now),
        Happening::CheckNow => (
            AppStateView { check_requested: true, ..state },
            Seq::empty(),
        ),
        Happening::Tick => (AppStateView { check_requested: false, ..state }, Seq::empty()),
        Happening::HudReply(call, reply) => (state.hud_after(call, reply).0, Seq::empty()),
        Happening::SettingsReply(config, call, reply) => (
            state.settings_after(config, call, reply).0,
            Seq::empty(),
        ),
    }
}

/// The state after a course of events.
pub open spec fn state_after(state: AppStateView, course: Seq<Happening>) -> AppStateView
    decreases course.len(),
{
    if course.len() == 0 {
        state
    } else {
        step(state_after(state, course.drop_last()), course.last()).0
    }
}

/// Whether all settings that a course of events puts in force were sanitized first.
pub open spec fn sane_settings(course: Seq<Happening>) -> bool {
    forall|i: int|
        0 <= i < course.len() ==> (#[trigger] course[i] matches Happening::SettingsReply(
            config,
            _,
            _,
        ) ==> config.is_sane())
}

/// The settings in force are in range at all times.
pub proof fn settings_stay_in_range(state: AppStateView, course: Seq<Happening>)
    requires
        state.is_valid(),
        sane_settings(course),
    ensures
        state_after(state, course).is_valid(),
    decreases course.len(),
{
    if course.len() > 0 {
        assert(sane_settings(course.drop_last())) by {
            assert forall|i: int| 0 <= i < course.drop_last().len() implies (
            #[trigger] course.drop_last()[i] matches Happening::SettingsReply(config, _, _)
                ==> config.is_sane()) by {
                assert(course.drop_last()[i] == course[i]);
            }
        }
        settings_stay_in_range(state, course.drop_last());
        assert(course.last() == course[course.len() - 1]);
    }
}

/// Taking a course of events one step further.
pub proof fn state_after_one_more(state: AppStateView, course: Seq<Happening>, n: int)
    requires
        0 <= n < course.len(),
    ensures
        state_after(state, course.take(n + 1)) == step(state_after(state, course.take(n)), course[n]).0,
{
    assert(course.take(n + 1).drop_last() =~= course.take(n));
    assert(course.take(n + 1).last() == course[n]);
}

/// The settings of the first events of a course were sanitized if those of all were.
pub proof fn sane_settings_at_first(course: Seq<Happening>, n: int)
    requires
        sane_settings(course),
        0 <= n <= course.len(),
    ensures
        sane_settings(course.take(n)),
{
    assert forall|i: int| 0 <= i < course.take(n).len() implies (#[trigger] course.take(
        n,
    )[i] matches Happening::SettingsReply(config, _, _) ==> config.is_sane()) by {
        assert(course.take(n)[i] == course[i]);
    }
}

} // verus!
