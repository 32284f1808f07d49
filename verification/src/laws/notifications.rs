//! What holds of notifications.

use vstd::prelude::*;

use crate::judge::{counts_as_up, goes_down, newly_down};
use crate::laws::{
    state_after, state_after_one_more, sane_settings, sane_settings_at_first, settings_stay_in_range, step,
    Happening,
};
use crate::notify::{notification_of, ActionView, NotifyKind, TrayStatus};
use crate::shown::filter_keeps;
use crate::state::{unreachable_text, AppStateView, API_DOWN_CONFIRM};
use crate::status::RawStatusView;

verus! {

/// Whether a sequence of actions shows a notification of `kind`.
pub open spec fn shows(actions: Seq<ActionView>, kind: NotifyKind) -> bool {
    exists|i: int|
        0 <= i < actions.len() && (#[trigger] actions[i] matches ActionView::Notify(notification)
            && notification.kind == kind)
}

/// Whether a notification of `kind` is shown when something happens.
pub open spec fn tells(state: AppStateView, happening: Happening, kind: NotifyKind) -> bool {
    shows(step(state, happening).1, kind)
}

/// When something happens, as far as the watcher looks at the clock.
pub open spec fn time_of(happening: Happening) -> int {
    match happening {
        Happening::Fetched(_, now) => now as int,
        Happening::Reached(now) => now as int,
        Happening::FetchFailed(_, now) => now as int,
        _ => 0,
    }
}

/// What two sequences of actions show, they show one after the other.
pub proof fn shows_in_turn(first: Seq<ActionView>, rest: Seq<ActionView>, kind: NotifyKind)
    ensures
        shows(first + rest, kind) == (shows(first, kind) || shows(rest, kind)),
{
    let both = first + rest;
    if shows(first, kind) {
        let i = choose|i: int|
            0 <= i < first.len() && (#[trigger] first[i] matches ActionView::Notify(notification)
                && notification.kind == kind);
        assert(both[i] == first[i]);
    }
    if shows(rest, kind) {
        let i = choose|i: int|
            0 <= i < rest.len() && (#[trigger] rest[i] matches ActionView::Notify(notification)
                && notification.kind == kind);
        assert(both[first.len() + i] == rest[i]);
    }
    if shows(both, kind) {
        let i = choose|i: int|
            0 <= i < both.len() && (#[trigger] both[i] matches ActionView::Notify(notification)
                && notification.kind == kind);
        if i < first.len() {
            assert(first[i] == both[i]);
        } else {
            assert(rest[i - first.len()] == both[i]);
        }
    }
}

/// What is told is told in a notification of its kind, if the time allows it.
proof fn told_shows(
    state: AppStateView,
    about: NotifyKind,
    body: Seq<char>,
    now: u64,
    kind: NotifyKind,
)
    ensures
        shows(state.told(about, body, now).1, kind) == (kind == about && state.last_notify.allows(
            kind,
            now,
            state.config.cooldown_secs,
        )),
{
    let actions = state.told(about, body, now).1;
    if state.last_notify.allows(about, now, state.config.cooldown_secs) {
        assert(actions[0] matches ActionView::Notify(notification) && notification.kind == about);
    }
}

/// A report shows a notification of `kind` if its news are of that kind and the time allows it.
pub proof fn processed_shows(state: AppStateView, raw: RawStatusView, now: u64, kind: NotifyKind)
    ensures
        shows(state.processed(raw, now).1, kind) == (state.news(state.shown(raw)) matches Some(
            (about, _),
        ) && about == kind && state.last_notify.allows(kind, now, state.config.cooldown_secs)),
{
    let seen = state.shown(raw);
    let news = state.news(seen);
    let said = state.told_if_any(news, now).1;
    let tray = state.tray(seen);
    let emit = seq![ActionView::Emit(state.snapshot_of(raw))];
    match news {
        Some((about, body)) => {
            told_shows(state, about, body, now, kind);
        },
        None => {},
    }
    assert(!shows(tray, kind));
    assert(!shows(emit, kind));
    shows_in_turn(said, tray, kind);
    shows_in_turn(said + tray, emit, kind);
}

/// A change of the source shows a notification of its kind, if the time allows it.
proof fn source_changed_shows(
    state: AppStateView,
    down: bool,
    msg: Seq<char>,
    now: u64,
    kind: NotifyKind,
)
    ensures
        shows(state.source_changed(down, msg, now).1, kind) == (kind == (if down {
            NotifyKind::SourceDown
        } else {
            NotifyKind::SourceUp
        }) && state.last_notify.allows(kind, now, state.config.cooldown_secs)),
{
    let about = if down {
        NotifyKind::SourceDown
    } else {
        NotifyKind::SourceUp
    };
    let said = state.told(about, msg, now).1;
    let all = state.source_changed(down, msg, now).1;
    let tray = seq![all.last()];
    told_shows(state, about, msg, now, kind);
    assert(!shows(tray, kind));
    shows_in_turn(said, tray, kind);
    assert(all =~= said + tray);
}

/// A fetch that reaches the status page shows a notification if the page counted as out of reach
/// and the time allows it.
pub proof fn reached_shows(state: AppStateView, now: u64, kind: NotifyKind)
    ensures
        shows(state.reached(now).1, kind) == (kind == NotifyKind::SourceUp && state.api_was_down
            && state.last_notify.allows(kind, now, state.config.cooldown_secs)),
{
    let reached = AppStateView { api_fail_streak: 0, api_was_down: false, ..state };
    source_changed_shows(reached, false, "监控页面已恢复连接"@, now, kind);
}

/// A failed fetch shows a notification if it makes the status page count as out of reach and the
/// time allows it.
pub proof fn fetch_failed_shows(
    state: AppStateView,
    error: Seq<char>,
    now: u64,
    kind: NotifyKind,
)
    ensures
        shows(state.fetch_failed(error, now).1, kind) == (kind == NotifyKind::SourceDown
            && state.api_fail_streak + 1 >= API_DOWN_CONFIRM && !state.api_was_down
            && state.last_notify.allows(kind, now, state.config.cooldown_secs)),
{
    let counted = AppStateView { api_fail_streak: state.api_fail_streak + 1, ..state };
    let known = AppStateView { api_was_down: true, ..counted };
    let msg = unreachable_text(error);
    let said = if counted.api_fail_streak >= API_DOWN_CONFIRM && !state.api_was_down {
        known.source_changed(true, msg, now).1
    } else {
        Seq::empty()
    };
    source_changed_shows(known, true, msg, now, kind);
    match state.stale() {
        Some(snapshot) => {
            let emit = seq![ActionView::Emit(snapshot)];
            assert(!shows(emit, kind));
            shows_in_turn(said, emit, kind);
            assert(said.push(ActionView::Emit(snapshot)) =~= said + emit);
        },
        None => {},
    }
}

/// A notification is shown only once the cooldown has passed since the last of its kind, and its
/// time is kept; where none is shown, the time of the last is kept.
pub proof fn notifications_keep_their_times(
    state: AppStateView,
    happening: Happening,
    kind: NotifyKind,
)
    requires
        state.is_valid(),
    ensures
        tells(state, happening, kind) ==> {
            &&& step(state, happening).0.last_notify.at(kind) == time_of(happening)
            &&& time_of(happening) - state.last_notify.at(kind) >= state.config.cooldown_secs
        },
        !tells(state, happening, kind) ==> step(state, happening).0.last_notify.at(kind)
            == state.last_notify.at(kind),
{
    match happening {
        Happening::Fetched(raw, now) => {
            let (back, first) = state.reached(now);
            reached_shows(state, now, kind);
            processed_shows(back, raw, now, kind);
            shows_in_turn(first, back.processed(raw, now).1, kind);
        },
        Happening::Reached(now) => {
            reached_shows(state, now, kind);
        },
        Happening::FetchFailed(error, now) => {
            fetch_failed_shows(state, error, now, kind);
        },
        _ => {},
    }
}

/// The time of the last notification of a kind does not go back.
proof fn times_do_not_go_back(
    state: AppStateView,
    course: Seq<Happening>,
    kind: NotifyKind,
    i: int,
    j: int,
)
    requires
        state.is_valid(),
        sane_settings(course),
        0 <= i <= j <= course.len(),
    ensures
        state_after(state, course.take(i)).last_notify.at(kind) <= state_after(
            state,
            course.take(j),
        ).last_notify.at(kind),
    decreases j,
{
    if i < j {
        times_do_not_go_back(state, course, kind, i, j - 1);
        state_after_one_more(state, course, j - 1);
        sane_settings_at_first(course, j - 1);
        settings_stay_in_range(state, course.take(j - 1));
        notifications_keep_their_times(state_after(state, course.take(j - 1)), course[j - 1], kind);
    }
}

/// Two notifications of one kind are never closer together than the cooldown that is in force
/// when the second is shown, whatever happens between them and however the clock is set.
pub proof fn notifications_keep_their_distance(
    state: AppStateView,
    course: Seq<Happening>,
    kind: NotifyKind,
    i: int,
    j: int,
)
    requires
        state.is_valid(),
        sane_settings(course),
        0 <= i < j < course.len(),
        tells(state_after(state, course.take(i)), course[i], kind),
        tells(state_after(state, course.take(j)), course[j], kind),
    ensures
        time_of(course[j]) - time_of(course[i]) >= state_after(
            state,
            course.take(j),
        ).config.cooldown_secs,
{
    sane_settings_at_first(course, i);
    sane_settings_at_first(course, j);
    settings_stay_in_range(state, course.take(i));
    settings_stay_in_range(state, course.take(j));
    notifications_keep_their_times(state_after(state, course.take(i)), course[i], kind);
    notifications_keep_their_times(state_after(state, course.take(j)), course[j], kind);
    state_after_one_more(state, course, i);
    times_do_not_go_back(state, course, kind, i + 1, j);
}

/// A notification of one kind does not put off those of another.
pub proof fn kinds_cool_down_apart(
    state: AppStateView,
    about: NotifyKind,
    body: Seq<char>,
    now: u64,
    kind: NotifyKind,
)
    requires
        kind != about,
    ensures
        forall|later: u64, cooldown: u64|
            state.told(about, body, now).0.last_notify.allows(kind, later, cooldown)
                == state.last_notify.allows(kind, later, cooldown),
{
}

/// The cooldown holds back notifications and nothing else: but for the notifications and their
/// times, what comes of a report does not depend on when it is taken into account.
pub proof fn cooldown_holds_back_only_notifications(
    state: AppStateView,
    raw: RawStatusView,
    now: u64,
    later: u64,
)
    ensures
        ({
            let (a, actions) = state.processed(raw, now);
            let (b, others) = state.processed(raw, later);
            let quiet = |action: ActionView| !(action is Notify);
            &&& AppStateView { last_notify: b.last_notify, ..a } == b
            &&& actions.filter(quiet) == others.filter(quiet)
            &&& actions.filter(quiet) == state.tray(state.shown(raw)).push(
                ActionView::Emit(state.snapshot_of(raw)),
            )
        }),
{
    processed_without_notifications(state, raw, now);
    processed_without_notifications(state, raw, later);
}

/// What a report brings about besides notifications.
proof fn processed_without_notifications(state: AppStateView, raw: RawStatusView, now: u64)
    ensures
        state.processed(raw, now).1.filter(|action: ActionView| !(action is Notify)) == state.tray(
            state.shown(raw),
        ).push(ActionView::Emit(state.snapshot_of(raw))),
{
    let quiet = |action: ActionView| !(action is Notify);
    let seen = state.shown(raw);
    let said = state.told_if_any(state.news(seen), now).1;
    let tray = state.tray(seen);
    let emit = seq![ActionView::Emit(state.snapshot_of(raw))];
    let all = said + tray + emit;
    reveal_with_fuel(Seq::filter, 4);
    assert(said.len() <= 1 && tray.len() <= 1);
    assert(all.last() == emit[0]);
    assert(all.drop_last() =~= said + tray);
    if tray.len() == 1 {
        assert((said + tray).last() == tray[0]);
        assert((said + tray).drop_last() =~= said);
    } else {
        assert(said + tray =~= said);
    }
    if said.len() == 1 {
        assert(said.last() is Notify);
        assert(said.drop_last() =~= Seq::empty());
    }
    assert(all.filter(quiet) =~= tray.push(emit[0]));
}

/// The first report is never news: it shows no notification about models, and from then on
/// there is one to compare with.
pub proof fn first_report_is_no_news(state: AppStateView, raw: RawStatusView, now: u64)
    requires
        !state.baseline_done,
    ensures
        !tells(state, Happening::Fetched(raw, now), NotifyKind::Degraded),
        !tells(state, Happening::Fetched(raw, now), NotifyKind::Recovered),
        step(state, Happening::Fetched(raw, now)).0.baseline_done,
{
    let (back, first) = state.reached(now);
    reached_shows(state, now, NotifyKind::Degraded);
    reached_shows(state, now, NotifyKind::Recovered);
    processed_shows(back, raw, now, NotifyKind::Degraded);
    processed_shows(back, raw, now, NotifyKind::Recovered);
    shows_in_turn(first, back.processed(raw, now).1, NotifyKind::Degraded);
    shows_in_turn(first, back.processed(raw, now).1, NotifyKind::Recovered);
}

/// An outage is told: where a watched model goes down by a report that is not the first, a
/// notification that models are down is shown, unless one was shown too short a time ago.
pub proof fn outage_is_told(state: AppStateView, raw: RawStatusView, now: u64, i: int)
    requires
        state.baseline_done,
        0 <= i < state.shown(raw).len(),
        goes_down(state.fail_streak, state.config.fail_threshold as nat)(state.shown(raw)[i]),
        state.last_notify.allows(NotifyKind::Degraded, now, state.config.cooldown_secs),
    ensures
        tells(state, Happening::Fetched(raw, now), NotifyKind::Degraded),
        step(state, Happening::Fetched(raw, now)).1.contains(
            ActionView::Tray(TrayStatus::Degraded),
        ),
{
    let shown = state.shown(raw);
    let threshold = state.config.fail_threshold as nat;
    let pick = goes_down(state.fail_streak, threshold);
    let (back, first) = state.reached(now);
    let (done, rest) = back.processed(raw, now);
    filter_keeps(shown, pick);
    assert(shown.contains(shown[i]));
    assert(shown.filter(pick).contains(shown[i]));
    assert(newly_down(state.fail_streak, threshold, shown).len() > 0);
    assert(!counts_as_up(state.fail_streak, threshold, shown[i]));
    processed_shows(back, raw, now, NotifyKind::Degraded);
    shows_in_turn(first, rest, NotifyKind::Degraded);
    let said = back.told_if_any(back.news(shown), now).1;
    assert(rest[said.len() as int] == ActionView::Tray(TrayStatus::Degraded));
    assert((first + rest)[(first.len() + said.len()) as int] == ActionView::Tray(TrayStatus::Degraded));
}

/// A recovery is told: where not all was well before and all is by a report that is not the
/// first, a notification of the recovery is shown if the settings ask for it, unless one was
/// shown too short a time ago. The tray says that all is well in any case.
pub proof fn recovery_is_told(state: AppStateView, raw: RawStatusView, now: u64)
    requires
        state.baseline_done,
        !state.was_well(state.shown(raw)),
        state.is_well(state.shown(raw)),
    ensures
        tells(state, Happening::Fetched(raw, now), NotifyKind::Recovered) == (
        state.config.notify_recovery && state.last_notify.allows(
            NotifyKind::Recovered,
            now,
            state.config.cooldown_secs,
        )),
        step(state, Happening::Fetched(raw, now)).1.contains(ActionView::Tray(TrayStatus::AllOk)),
{
    let (back, first) = state.reached(now);
    let (done, rest) = back.processed(raw, now);
    reached_shows(state, now, NotifyKind::Recovered);
    processed_shows(back, raw, now, NotifyKind::Recovered);
    shows_in_turn(first, rest, NotifyKind::Recovered);
    let said = back.told_if_any(back.news(state.shown(raw)), now).1;
    assert(rest[said.len() as int] == ActionView::Tray(TrayStatus::AllOk));
    assert((first + rest)[(first.len() + said.len()) as int] == ActionView::Tray(TrayStatus::AllOk));
}

/// Where nothing of a kind is told from `i` on until `j`, the time of the last notification of
/// that kind stays what it is.
proof fn time_stays_while_nothing_is_told(
    state: AppStateView,
    course: Seq<Happening>,
    kind: NotifyKind,
    i: int,
    j: int,
)
    requires
        state.is_valid(),
        sane_settings(course),
        0 <= i <= j <= course.len(),
        forall|k: int|
            i <= k < j ==> !tells(state_after(state, course.take(k)), #[trigger] course[k], kind),
    ensures
        state_after(state, course.take(j)).last_notify.at(kind) == state_after(
            state,
            course.take(i),
        ).last_notify.at(kind),
    decreases j,
{
    if i < j {
        time_stays_while_nothing_is_told(state, course, kind, i, j - 1);
        state_after_one_more(state, course, j - 1);
        sane_settings_at_first(course, j - 1);
        settings_stay_in_range(state, course.take(j - 1));
        assert(!tells(state_after(state, course.take(j - 1)), course[j - 1], kind));
        notifications_keep_their_times(state_after(state, course.take(j - 1)), course[j - 1], kind);
    }
}

/// What was told once is told again: where the status page goes out of reach at `j`, and that was
/// last told at `i`, at least the cooldown earlier, it is told at `j` too, whatever happened in
/// between.
pub proof fn next_outage_of_the_source_is_told(
    state: AppStateView,
    course: Seq<Happening>,
    i: int,
    j: int,
    error: Seq<char>,
    now: u64,
)
    requires
        state.is_valid(),
        sane_settings(course),
        0 <= i < j < course.len(),
        tells(state_after(state, course.take(i)), course[i], NotifyKind::SourceDown),
        forall|k: int|
            i < k < j ==> !tells(
                state_after(state, course.take(k)),
                #[trigger] course[k],
                NotifyKind::SourceDown,
            ),
        course[j] == Happening::FetchFailed(error, now),
        !state_after(state, course.take(j)).api_was_down,
        state_after(state, course.take(j)).api_fail_streak >= 2,
        now - time_of(course[i]) >= state_after(state, course.take(j)).config.cooldown_secs,
    ensures
        tells(state_after(state, course.take(j)), course[j], NotifyKind::SourceDown),
{
    let kind = NotifyKind::SourceDown;
    sane_settings_at_first(course, i);
    settings_stay_in_range(state, course.take(i));
    notifications_keep_their_times(state_after(state, course.take(i)), course[i], kind);
    state_after_one_more(state, course, i);
    time_stays_while_nothing_is_told(state, course, kind, i + 1, j);
    fetch_failed_shows(state_after(state, course.take(j)), error, now, kind);
}

/// Whatever happens, a notification has the title of its kind and plays a sound exactly if the
/// settings say so.
pub proof fn every_notification_is_as_the_settings_say(
    state: AppStateView,
    happening: Happening,
    i: int,
)
    requires
        0 <= i < step(state, happening).1.len(),
        step(state, happening).1[i] is Notify,
    ensures
        ({
            let n = step(state, happening).1[i]->Notify_0;
            n == notification_of(state.config, n.kind, n.body)
        }),
{
}

} // verus!
