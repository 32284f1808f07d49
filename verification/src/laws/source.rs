//! What holds of a status page that goes out of reach and comes back.

use vstd::prelude::*;

use crate::config::AppConfigView;
use crate::laws::notifications::{
    fetch_failed_shows, processed_shows, reached_shows, shows_in_turn, tells,
};
use crate::laws::{state_after, step, Happening};
use crate::notify::{ActionView, NotifyKind, NotifyTimes, TrayStatus};
use crate::state::{AppStateView, API_DOWN_CONFIRM};
use crate::status::{RawStatusView, StatusSnapshotView};

verus! {

/// How many fetches failed in a course of events since the last that reached the status page.
pub open spec fn failures_since_reached(course: Seq<Happening>) -> nat
    decreases course.len(),
{
    if course.len() == 0 {
        0
    } else {
        match course.last() {
            Happening::Fetched(_, _) | Happening::Reached(_) => 0,
            Happening::FetchFailed(_, _) => failures_since_reached(course.drop_last()) + 1,
            _ => failures_since_reached(course.drop_last()),
        }
    }
}

/// Whether the status page counts as out of reach exactly if enough fetches failed in a row.
pub open spec fn reach_is_known(state: AppStateView) -> bool {
    state.api_was_down <==> state.api_fail_streak >= API_DOWN_CONFIRM
}

/// The status page counts as out of reach exactly if the last fetches failed in a row as often
/// as it takes.
pub proof fn out_of_reach_after_failures_in_a_row(state: AppStateView, course: Seq<Happening>)
    requires
        state.api_fail_streak == 0,
        !state.api_was_down,
    ensures
        state_after(state, course).api_fail_streak == failures_since_reached(course),
        state_after(state, course).api_was_down <==> failures_since_reached(course) >= API_DOWN_CONFIRM,
        reach_is_known(state_after(state, course)),
    decreases course.len(),
{
    if course.len() > 0 {
        out_of_reach_after_failures_in_a_row(state, course.drop_last());
    }
}

/// That the status page is out of reach is told by the failure that makes it count as such, and
/// by no other.
pub proof fn out_of_reach_is_told_once(state: AppStateView, happening: Happening)
    requires
        reach_is_known(state),
        tells(state, happening, NotifyKind::SourceDown),
    ensures
        happening is FetchFailed,
        state.api_fail_streak + 1 == API_DOWN_CONFIRM,
        !state.api_was_down,
        step(state, happening).0.api_was_down,
{
    shown_of_source(state, happening, NotifyKind::SourceDown);
}

/// That the status page is back is told by the first fetch that reaches it after it counted as
/// out of reach, and by no other.
pub proof fn back_in_reach_is_told_once(state: AppStateView, happening: Happening)
    requires
        tells(state, happening, NotifyKind::SourceUp),
    ensures
        happening is Fetched || happening is Reached,
        state.api_was_down,
        !step(state, happening).0.api_was_down,
{
    shown_of_source(state, happening, NotifyKind::SourceUp);
}

/// Which notifications about the source are shown.
proof fn shown_of_source(state: AppStateView, happening: Happening, kind: NotifyKind)
    ensures
        tells(state, happening, kind) && kind == NotifyKind::SourceDown ==> (happening is FetchFailed
            && state.api_fail_streak + 1 >= API_DOWN_CONFIRM && !state.api_was_down),
        tells(state, happening, kind) && kind == NotifyKind::SourceUp ==> ((happening is Fetched
            || happening is Reached) && state.api_was_down),
{
    match happening {
        Happening::Fetched(raw, now) => {
            let (back, first) = state.reached(now);
            reached_shows(state, now, kind);
            processed_shows(back, raw, now, kind);
            shows_in_turn(first, back.processed(raw, now).1, kind);
        },
        Happening::Reached(now) => {
            reached_shows(state, now, kind);
        },
        Happening::FetchFailed(error, now) => {
            fetch_failed_shows(state, error, now, kind);
        },
        _ => {},
    }
}

/// A failed fetch leaves what is shown as it is, but marks it as stale; what is known of the
/// models does not change.
pub proof fn failure_only_marks_the_snapshot(state: AppStateView, error: Seq<char>, now: u64)
    ensures
        ({
            let after = state.fetch_failed(error, now).0;
            &&& after.last_ok == state.last_ok
            &&& after.fail_streak == state.fail_streak
            &&& after.baseline_done == state.baseline_done
            &&& after.config == state.config
            &&& match state.snapshot {
                Some(snapshot) => after.snapshot == Some(
                    StatusSnapshotView { source_error: true, ..snapshot },
                ),
                None => after.snapshot is None,
            }
        }),
{
}

/// A report clears the mark of a stale snapshot.
pub proof fn report_clears_the_mark(state: AppStateView, raw: RawStatusView, now: u64)
    ensures
        state.fetched(raw, now).0.snapshot matches Some(snapshot) && !snapshot.source_error
            && snapshot.generated_at == raw.generated_at,
{
}

/// Whether an action shows a notification of `kind` with the given text.
pub open spec fn is_notice(action: ActionView, kind: NotifyKind, body: Seq<char>) -> bool {
    action matches ActionView::Notify(n) && n.kind == kind && n.body == body
}

/// A change of the source sets the tray in any case, and is told in the given words unless one of
/// its kind was told less than the cooldown ago; nothing else changes.
pub proof fn change_of_the_source_is_told(
    state: AppStateView,
    down: bool,
    msg: Seq<char>,
    now: u64,
)
    requires
        state.config.cooldown_secs > 0,
    ensures
        ({
            let (after, actions) = state.source_changed(down, msg, now);
            let last = if down {
                state.last_notify.source_down
            } else {
                state.last_notify.source_up
            };
            let kind = if down {
                NotifyKind::SourceDown
            } else {
                NotifyKind::SourceUp
            };
            let tray = if down {
                TrayStatus::SourceDown
            } else {
                TrayStatus::Recovered
            };
            let told = now - last >= state.config.cooldown_secs;
            &&& actions.len() == (if told {
                2int
            } else {
                1int
            })
            &&& told ==> is_notice(actions[0], kind, msg)
            &&& actions.last() == ActionView::Tray(tray)
            &&& after == AppStateView { last_notify: after.last_notify, ..state }
            &&& after.last_notify.source_down == (if told && down {
                now
            } else {
                state.last_notify.source_down
            })
            &&& after.last_notify.source_up == (if told && !down {
                now
            } else {
                state.last_notify.source_up
            })
            &&& after.last_notify.degraded == state.last_notify.degraded
            &&& after.last_notify.recovered == state.last_notify.recovered
        }),
{
}

/// The third failed fetch in a row makes the status page count as out of reach, where it did not
/// yet: the tray says so, and it is told with the error unless that was told less than the
/// cooldown ago. No other failed fetch tells anything or touches the tray. Whatever was shown is
/// then shown as stale.
pub proof fn third_failure_in_a_row_is_told(state: AppStateView, error: Seq<char>, now: u64)
    requires
        state.config.cooldown_secs > 0,
    ensures
        ({
            let (after, actions) = state.fetch_failed(error, now);
            let lost = !state.api_was_down && state.api_fail_streak + 1 >= 3;
            let told = lost && now - state.last_notify.source_down >= state.config.cooldown_secs;
            let before: int = if told {
                2
            } else if lost {
                1
            } else {
                0
            };
            &&& after.api_fail_streak == state.api_fail_streak + 1
            &&& after.api_was_down <==> state.api_was_down || state.api_fail_streak + 1 >= 3
            &&& after.last_notify.source_down == (if told {
                now
            } else {
                state.last_notify.source_down
            })
            &&& after.last_notify.source_up == state.last_notify.source_up
            &&& after.last_notify.degraded == state.last_notify.degraded
            &&& after.last_notify.recovered == state.last_notify.recovered
            &&& after.check_requested == state.check_requested
            &&& after.hud_pos_set == state.hud_pos_set
            &&& told ==> is_notice(
                actions[0],
                NotifyKind::SourceDown,
                "监控页面不可达："@ + error + "，稍后自动重试"@,
            )
            &&& lost ==> actions[before - 1] == ActionView::Tray(TrayStatus::SourceDown)
            &&& state.snapshot is None ==> actions.len() == before
            &&& state.snapshot matches Some(was) ==> {
                &&& actions.len() == before + 1
                &&& actions[before] matches ActionView::Emit(stale)
                &&& after.snapshot == Some(stale)
                &&& stale == StatusSnapshotView { source_error: true, ..was }
            }
        }),
{
}

/// A fetch that reaches a status page that counted as out of reach brings it back: the tray says
/// so, and it is told unless that was told less than the cooldown ago. Where the page did not
/// count as out of reach, nothing is done. Failures are counted anew in either case, and nothing
/// else changes.
pub proof fn first_reach_after_an_outage_is_told(state: AppStateView, now: u64)
    requires
        state.config.cooldown_secs > 0,
    ensures
        ({
            let (after, actions) = state.reached(now);
            let told = state.api_was_down && now - state.last_notify.source_up
                >= state.config.cooldown_secs;
            let times = NotifyTimes {
                source_up: if told {
                    now
                } else {
                    state.last_notify.source_up
                },
                ..state.last_notify
            };
            &&& after == AppStateView {
                api_fail_streak: 0,
                api_was_down: false,
                last_notify: times,
                ..state
            }
            &&& told ==> actions.len() == 2 && is_notice(
                actions[0],
                NotifyKind::SourceUp,
                "监控页面已恢复连接"@,
            )
            &&& state.api_was_down ==> actions.last() == ActionView::Tray(TrayStatus::Recovered)
            &&& state.api_was_down && !told ==> actions.len() == 1
            &&& !state.api_was_down ==> actions.len() == 0
        }),
{
}

/// A report is taken into account in the same way whether or not the status page was out of
/// reach before: first comes what its being reached brings about, then what the report does.
pub proof fn report_counts_whatever_was_before(state: AppStateView, raw: RawStatusView, now: u64)
    ensures
        ({
            let (after, actions) = state.fetched(raw, now);
            let (back, first) = state.reached(now);
            let (done, rest) = state.processed(raw, now);
            &&& actions == first + rest
            &&& after.api_fail_streak == 0 && !after.api_was_down
            &&& after.config == state.config
            &&& after.snapshot == done.snapshot
            &&& after.last_ok == done.last_ok
            &&& after.fail_streak == done.fail_streak
            &&& after.baseline_done
            &&& after.last_notify.degraded == done.last_notify.degraded
            &&& after.last_notify.recovered == done.last_notify.recovered
            &&& after.last_notify.source_up == back.last_notify.source_up
            &&& after.last_notify.source_down == state.last_notify.source_down
            &&& after.check_requested == state.check_requested
            &&& after.hud_pos_set == state.hud_pos_set
        }),
{
    let (back, first) = state.reached(now);
    assert(back.shown(raw) == state.shown(raw));
    assert(back.news(back.shown(raw)) == state.news(state.shown(raw)));
    assert(back.processed(raw, now).1 =~= state.processed(raw, now).1);
}

/// Before anything happens, nothing is known and nothing was told: no report was seen, no fetch
/// failed, and no poll was asked for.
pub proof fn start_knows_nothing(config: AppConfigView)
    ensures
        ({
            let state = AppStateView::initial(config);
            &&& state.config == config
            &&& state.snapshot is None
            &&& state.last_ok.is_empty() && state.fail_streak.is_empty()
            &&& state.last_notify.degraded == 0 && state.last_notify.recovered == 0
            &&& state.last_notify.source_down == 0 && state.last_notify.source_up == 0
            &&& state.api_fail_streak == 0 && !state.api_was_down
            &&& !state.baseline_done && !state.check_requested && !state.hud_pos_set
        }),
{
}

} // verus!
