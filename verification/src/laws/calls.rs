//! How what one call gives relates to what was handed to it, or to what another call gives.

use vstd::prelude::*;

use crate::clock::secs_of_reading;
use crate::config::{load_config, AppConfig};
use crate::poll::PollTimer;
use crate::settings::{SettingsCall, SettingsChange};
use crate::state::AppState;
use crate::status::{wanted, StatusSnapshot};
use crate::window::{hud_toggle, HudWish};

verus! {

/// Settings in range that are saved and read back are the settings that the next start has, field
/// by field.
pub proof fn settings_in_range_survive(saved: AppConfig, read: AppConfig)
    requires
        5 <= saved.poll_secs <= 3600,
        1 <= saved.fail_threshold <= 10,
        10 <= saved.cooldown_secs <= 86400,
        call_ensures(load_config, (Some(saved),), read),
    ensures
        read.models.deep_view() == saved.models.deep_view(),
        read.poll_secs == saved.poll_secs,
        read.fail_threshold == saved.fail_threshold,
        read.cooldown_secs == saved.cooldown_secs,
        read.notify_sound == saved.notify_sound,
        read.notify_recovery == saved.notify_recovery,
        read.autostart == saved.autostart,
        read.hud_enabled == saved.hud_enabled,
{
    assert(read@ == saved@);
}

/// New settings are put in force by asking first whether the program starts with the system.
pub proof fn change_begins_with_a_question(change: SettingsChange, call: SettingsCall)
    requires
        call_ensures(SettingsChange::first_call, (&change,), call),
    ensures
        call == SettingsCall::AskAutostart,
{
}

/// A name that the settings give is wanted, and where they give any, nothing else is.
pub proof fn names_are_wanted(named: Vec<String>, model: String, want: bool)
    requires
        call_ensures(wanted, (&named, &model), want),
    ensures
        named.len() == 0 ==> want,
        named.len() > 0 ==> (want <==> exists|i: int|
            0 <= i < named.len() && (#[trigger] named@[i])@ == model@),
{
}

/// A new timer finds the first poll due, whatever the interval.
pub proof fn new_timer_has_waited_long_enough(timer: PollTimer, state: AppState)
    requires
        state.wf(),
        call_ensures(PollTimer::new, (), timer),
    ensures
        timer.waited_ms >= 1000 * state.config.poll_secs,
{
}

/// To toggle the floating window shows it where it is hidden, and hides it where it is visible.
pub proof fn toggling_goes_both_ways(visible: bool, wish: HudWish)
    requires
        call_ensures(hud_toggle, (visible,), wish),
    ensures
        wish == HudWish::Show <==> !visible,
        wish == HudWish::Hide <==> visible,
{
}

/// Once the floating window is ready it is shown exactly if the settings say so.
pub proof fn ready_hud_is_shown_as_set(state: AppState, wish: Option<HudWish>)
    requires
        call_ensures(AppState::hud_ready, (&state,), wish),
    ensures
        wish is Some <==> state.config.hud_enabled,
        wish matches Some(what) ==> what == HudWish::Show,
{
}

/// The models that can be asked for are those that the snapshot lists, and none before there is
/// one.
pub proof fn models_are_those_of_the_snapshot(
    state: AppState,
    snapshot: Option<StatusSnapshot>,
    models: Vec<String>,
)
    requires
        call_ensures(AppState::get_status, (&state,), snapshot),
        call_ensures(AppState::get_models, (&state,), models),
    ensures
        snapshot is Some <==> state.snapshot is Some,
        snapshot matches Some(shown) ==> models.deep_view() == shown@.all_models && shown@
            == state.snapshot->0@,
        snapshot is None ==> models.deep_view().len() == 0,
{
}

/// The settings that can be asked for are those in force.
pub proof fn settings_asked_for_are_in_force(state: AppState, config: AppConfig)
    requires
        call_ensures(AppState::get_config, (&state,), config),
    ensures
        config@ == state.config@,
{
}

/// A clock that stands before the epoch counts as standing at it; any other is taken at its word.
pub proof fn clock_is_taken_at_its_word(reading: Option<u64>, secs: u64)
    requires
        call_ensures(secs_of_reading, (reading,), secs),
    ensures
        reading == Some(secs) || (reading is None && secs == 0),
{
}

} // verus!
