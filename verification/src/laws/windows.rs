//! What holds of starts, of the floating window, of new settings, and of the poll timer.

use vstd::prelude::*;

use crate::config::{settings_at_start, AppConfigView};
use crate::laws::{state_after, state_after_one_more, step, Happening};
use crate::poll::{is_due, waited_next, TICK_MS};
use crate::settings::{can_return, SettingsCall, SettingsNextView, SettingsReplyView};
use crate::state::AppStateView;
use crate::window::{hud_first, HudCall, HudNextView, HudWish, Startup};

verus! {

/// Whether saved settings exist after a start, given whether its save succeeds if it makes one.
pub open spec fn settings_left_by(
    config_exists: Option<bool>,
    startup: Startup,
    succeeds: bool,
) -> Option<bool> {
    if startup.save_settings && succeeds {
        Some(true)
    } else {
        config_exists
    }
}

/// Whether the `n`th of a series of starts finds saved settings, where nothing but the starts
/// touches them. The start with number 0 finds `config_exists`. `starts` gives the state of each
/// start, and `succeeds` whether its save succeeds if it makes one.
pub open spec fn settings_found(
    config_exists: Option<bool>,
    starts: spec_fn(nat) -> AppStateView,
    succeeds: spec_fn(nat) -> bool,
    n: nat,
) -> Option<bool>
    decreases n,
{
    if n == 0 {
        config_exists
    } else {
        let last = (n - 1) as nat;
        let found = settings_found(config_exists, starts, succeeds, last);
        settings_left_by(found, starts(last).startup_of(found), succeeds(last))
    }
}

/// Where it is known at one start where the settings are saved, it is at all.
proof fn place_stays_known(
    config_exists: Option<bool>,
    starts: spec_fn(nat) -> AppStateView,
    succeeds: spec_fn(nat) -> bool,
    n: nat,
)
    requires
        config_exists is Some,
    ensures
        settings_found(config_exists, starts, succeeds, n) is Some,
    decreases n,
{
    if n > 0 {
        place_stays_known(config_exists, starts, succeeds, (n - 1) as nat);
    }
}

/// Later starts stay in the background: once a start has run whose save, if it made one,
/// succeeded, every start after it finds saved settings, does not show the main window, and
/// saves nothing, though the user never changed a setting.
pub proof fn later_starts_stay_in_the_background(
    config_exists: Option<bool>,
    starts: spec_fn(nat) -> AppStateView,
    succeeds: spec_fn(nat) -> bool,
    i: nat,
    n: nat,
)
    requires
        config_exists is Some,
        i < n,
        succeeds(i),
    ensures
        settings_found(config_exists, starts, succeeds, n) == Some(true),
        !starts(n).startup_of(settings_found(config_exists, starts, succeeds, n)).show_main,
        !starts(n).startup_of(settings_found(config_exists, starts, succeeds, n)).save_settings,
    decreases n,
{
    if i + 1 < n {
        later_starts_stay_in_the_background(
            config_exists,
            starts,
            succeeds,
            i,
            (n - 1) as nat,
        );
    } else {
        place_stays_known(config_exists, starts, succeeds, i);
    }
}

/// The second start stays in the background where the first could save its settings: whatever
/// the first found, and whatever the settings are.
pub proof fn second_start_stays_in_the_background(
    config_exists: bool,
    first: AppStateView,
    second: AppStateView,
)
    ensures
        ({
            let startup = first.startup_of(Some(config_exists));
            let found = settings_left_by(Some(config_exists), startup, true);
            !second.startup_of(found).show_main
        }),
{
}

/// The first start shows the main window and saves its settings.
pub proof fn first_start_shows_the_main_window(state: AppStateView)
    ensures
        state.startup_of(Some(false)).show_main,
        state.startup_of(Some(false)).save_settings,
{
}

/// A start that reads back what an earlier one saved begins with the settings that were in
/// force in that one.
pub proof fn saved_start_is_taken_up(saved: Option<AppConfigView>)
    ensures
        settings_at_start(Some(AppStateView::initial(settings_at_start(saved)).config))
            == settings_at_start(saved),
{
}

/// Whether the floating window is to be put in its place when something happens.
pub open spec fn places(state: AppStateView, happening: Happening) -> bool {
    happening matches Happening::HudReply(call, reply) && state.hud_after(call, reply).1
        == HudNextView::Call(HudCall::Place)
}

/// Once the floating window was put in its place, that is remembered.
proof fn place_is_remembered(state: AppStateView, course: Seq<Happening>, i: int, j: int)
    requires
        0 <= i <= j <= course.len(),
        state_after(state, course.take(i)).hud_pos_set,
    ensures
        state_after(state, course.take(j)).hud_pos_set,
    decreases j,
{
    if i < j {
        place_is_remembered(state, course, i, j - 1);
        state_after_one_more(state, course, j - 1);
    }
}

/// The floating window is put in its place at most once, so that it stays where the user drags
/// it.
pub proof fn hud_is_placed_once(state: AppStateView, course: Seq<Happening>, i: int, j: int)
    requires
        0 <= i < j < course.len(),
        places(state_after(state, course.take(i)), course[i]),
    ensures
        !places(state_after(state, course.take(j)), course[j]),
{
    state_after_one_more(state, course, i);
    place_is_remembered(state, course, i + 1, j);
}

/// Where every call on the floating window succeeds, it is made visible on all workspaces and
/// shown, put in its place if it never was, and asked whether it is visible.
pub proof fn hud_is_shown_in_order(state: AppStateView)
    ensures
        ({
            let (a, first) = state.hud_after(HudCall::Pin, Ok(()));
            let (b, second) = a.hud_after(HudCall::Show, Ok(()));
            let (c, third) = b.hud_after(HudCall::Place, Ok(()));
            let (d, fourth) = c.hud_after(HudCall::AskVisible, Ok(()));
            &&& first == HudNextView::Call(HudCall::Show)
            &&& second == HudNextView::Call(
                if state.hud_pos_set {
                    HudCall::AskVisible
                } else {
                    HudCall::Place
                },
            )
            &&& third == HudNextView::Call(HudCall::AskVisible)
            &&& fourth == HudNextView::Finished(Ok(()))
            &&& a == state
            &&& b == AppStateView { hud_pos_set: true, ..state }
            &&& c == b && d == b
        }),
{
}

/// A call of a change of the settings that fails ends the change with its message and leaves the
/// settings in force as they were when the call was made.
pub proof fn failed_call_ends_the_change(
    state: AppStateView,
    config: AppConfigView,
    call: SettingsCall,
    error: Seq<char>,
)
    ensures
        state.settings_after(config, call, SettingsReplyView::Failed(error)) == (
            state,
            SettingsNextView::Finished(Err(error)),
        ),
{
}

/// Every call of a change of the settings can fail; the question whether the program starts with
/// the system is answered by whether it does, and every other call by having been done.
pub proof fn calls_return_as_asked(call: SettingsCall, on: bool, error: Seq<char>)
    ensures
        can_return(call, SettingsReplyView::Failed(error)),
        can_return(call, SettingsReplyView::Autostart(on)) <==> call == SettingsCall::AskAutostart,
        can_return(call, SettingsReplyView::Done) <==> call != SettingsCall::AskAutostart,
{
}

/// Settings are saved only once they are in force: what is saved is what is in force.
pub proof fn saved_settings_are_in_force(
    state: AppStateView,
    config: AppConfigView,
    call: SettingsCall,
    reply: SettingsReplyView,
)
    requires
        can_return(call, reply),
    ensures
        ({
            let (after, next) = state.settings_after(config, call, reply);
            &&& next == SettingsNextView::Call(SettingsCall::Save) ==> after == AppStateView {
                config,
                ..state
            }
            &&& next != SettingsNextView::Call(SettingsCall::Save) ==> after == state
        }),
{
}

/// Where every call succeeds, new settings make the program start with the system exactly if
/// they say so, with a call only where that changes something; then they are in force and saved;
/// then the floating window is shown exactly if they say so; then all is done.
pub proof fn settings_are_put_in_force(state: AppStateView, config: AppConfigView, on: bool)
    ensures
        ({
            let (asked, first) = state.settings_after(
                config,
                SettingsCall::AskAutostart,
                SettingsReplyView::Autostart(on),
            );
            let changing = if config.autostart {
                SettingsCall::EnableAutostart
            } else {
                SettingsCall::DisableAutostart
            };
            let (changed, second) = asked.settings_after(
                config,
                changing,
                SettingsReplyView::Done,
            );
            let wish = SettingsCall::Hud(
                if config.hud_enabled {
                    HudWish::Show
                } else {
                    HudWish::Hide
                },
            );
            let save = SettingsNextView::Call(SettingsCall::Save);
            let in_force = AppStateView { config, ..state };
            &&& config.autostart == on ==> asked == in_force && first == save
            &&& config.autostart != on ==> asked == state && first == SettingsNextView::Call(
                changing,
            ) && changed == in_force && second == save
            &&& in_force.settings_after(config, SettingsCall::Save, SettingsReplyView::Done) == (
                in_force,
                SettingsNextView::Call(wish),
            )
            &&& forall|any: HudWish| #[trigger]
                in_force.settings_after(config, SettingsCall::Hud(any), SettingsReplyView::Done)
                    == (in_force, SettingsNextView::Finished(Ok(())))
        }),
{
}

/// How long the watcher has waited when it looks at the timer for the `n`th time after a poll,
/// where no poll was asked for and none was due in between.
pub open spec fn waited_at(state: AppStateView, n: nat) -> int
    decreases n,
{
    if n <= 1 {
        TICK_MS as int
    } else {
        waited_next(waited_at(state, (n - 1) as nat), state)
    }
}

/// Where no poll is asked for, the next poll after one is due once the watcher has slept for as
/// long as the settings say, and not before.
pub proof fn polls_keep_their_interval(state: AppStateView, n: nat)
    requires
        state.is_valid(),
        !state.check_requested,
        1 <= n <= state.config.poll_secs * 1000 / TICK_MS as int,
    ensures
        waited_at(state, n) == n * TICK_MS,
        is_due(waited_at(state, n), state) <==> n * TICK_MS == state.config.poll_secs * 1000,
    decreases n,
{
    if n > 1 {
        polls_keep_their_interval(state, (n - 1) as nat);
    }
}

/// A poll that is asked for is due at the next look at the timer, and is asked for no longer
/// then.
pub proof fn requested_poll_is_due(state: AppStateView, waited_ms: int)
    ensures
        ({
            let asked = step(state, Happening::CheckNow).0;
            &&& is_due(waited_ms, asked)
            &&& step(asked, Happening::Tick).0 == (AppStateView {
                check_requested: false,
                ..state
            })
        }),
{
}

/// The first look at the timer finds a poll due.
pub proof fn first_poll_is_due(state: AppStateView)
    requires
        state.is_valid(),
    ensures
        is_due(u64::MAX as int, state),
{
}

/// A poll is due exactly if one was asked for, or the watcher has waited for as many seconds as
/// the settings say; it waits anew after a poll, and half a second longer at each look that finds
/// none due.
pub proof fn poll_is_due_when_asked_for_or_waited_for(state: AppStateView, waited_ms: int)
    ensures
        is_due(waited_ms, state) <==> state.check_requested || waited_ms >= 1000
            * state.config.poll_secs,
        is_due(waited_ms, state) ==> waited_next(waited_ms, state) == 500,
        !is_due(waited_ms, state) ==> waited_next(waited_ms, state) == waited_ms + 500,
{
}

/// A start shows the main window unless saved settings exist, saves the settings exactly if it
/// is known where and none exist there, and makes the program start with the system exactly if
/// the settings say so.
pub proof fn start_does_what_is_needed(state: AppStateView, config_exists: Option<bool>)
    ensures
        ({
            let startup = state.startup_of(config_exists);
            &&& startup.show_main <==> !(config_exists matches Some(exists) && exists)
            &&& startup.save_settings <==> (config_exists matches Some(exists) && !exists)
            &&& startup.enable_autostart <==> state.config.autostart
        }),
{
}

/// What is wanted of a floating window that is not there fails; one that is there is first made
/// visible on all workspaces if it is to be shown, and hidden if it is to be hidden.
pub proof fn hud_begins_with_a_window(wish: HudWish)
    ensures
        hud_first(wish, false) == HudNextView::Finished(Err("HUD 窗口不存在"@)),
        hud_first(HudWish::Show, true) == HudNextView::Call(HudCall::Pin),
        hud_first(HudWish::Hide, true) == HudNextView::Call(HudCall::Hide),
{
}

/// A call on the floating window that fails ends it with its message and changes nothing; once
/// the window is hidden, all is done, and nothing has changed.
pub proof fn failed_call_on_the_hud_ends_it(state: AppStateView, call: HudCall, error: Seq<char>)
    ensures
        state.hud_after(call, Err(error)) == (state, HudNextView::Finished(Err(error))),
        state.hud_after(HudCall::Hide, Ok(())) == (state, HudNextView::Finished(Ok(()))),
{
}

} // verus!
