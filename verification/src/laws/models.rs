//! What holds of models that fail and recover.

use vstd::prelude::*;

use crate::judge::{
    counts_as_up, goes_down, newly_down, next_streak, streak_of, streaks_after, verdicts, was_up,
};
use crate::laws::{state_after, sane_settings, settings_stay_in_range, step, Happening};
use crate::notify::NotifyKind;
use crate::shown::{filter_keeps, monitored_are_the_watched, watched};
use crate::state::AppStateView;
use crate::status::{
    is_up, is_wanted, models_in, service_of, status_of, ModelStatusView, RawStatusView,
};

verus! {

impl AppStateView {
    /// Whether `model` is watched in a report.
    pub open spec fn watches(self, raw: RawStatusView, model: Seq<char>) -> bool {
        models_in(raw.services).contains(model) && is_wanted(self.config.models, model)
    }
}

/// Whether no two statuses are of one model.
pub open spec fn distinct(shown: Seq<ModelStatusView>) -> bool {
    forall|i: int, j: int|
        0 <= i < j < shown.len() ==> (#[trigger] shown[i]).model != (#[trigger] shown[j]).model
}

/// Whether one of the statuses is of `model`.
pub open spec fn speaks_of(shown: Seq<ModelStatusView>, model: Seq<char>) -> bool {
    exists|i: int| 0 <= i < shown.len() && (#[trigger] shown[i]).model == model
}

/// The failures in a row of a model that is not shown stay as they are, and nothing is said of
/// it.
pub proof fn not_shown_is_not_counted(
    streaks: Map<Seq<char>, nat>,
    threshold: nat,
    shown: Seq<ModelStatusView>,
    model: Seq<char>,
)
    requires
        !speaks_of(shown, model),
    ensures
        streak_of(streaks_after(streaks, shown), model) == streak_of(streaks, model),
        streaks_after(streaks, shown).contains_key(model) == streaks.contains_key(model),
        !verdicts(streaks, threshold, shown).contains_key(model),
    decreases shown.len(),
{
    if shown.len() > 0 {
        let rest = shown.drop_last();
        assert(shown[shown.len() - 1].model != model);
        assert(!speaks_of(rest, model)) by {
            if speaks_of(rest, model) {
                let i = choose|i: int| 0 <= i < rest.len() && (#[trigger] rest[i]).model == model;
                assert(shown[i].model == model);
            }
        }
        not_shown_is_not_counted(streaks, threshold, rest, model);
    }
}

/// The failures in a row of a model that is shown, and what is said of it.
pub proof fn shown_is_counted(
    streaks: Map<Seq<char>, nat>,
    threshold: nat,
    shown: Seq<ModelStatusView>,
    i: int,
)
    requires
        distinct(shown),
        0 <= i < shown.len(),
    ensures
        streaks_after(streaks, shown).contains_key(shown[i].model),
        streak_of(streaks_after(streaks, shown), shown[i].model) == next_streak(streaks, shown[i]),
        verdicts(streaks, threshold, shown).contains_key(shown[i].model),
        verdicts(streaks, threshold, shown)[shown[i].model] == counts_as_up(
            streaks,
            threshold,
            shown[i],
        ),
    decreases shown.len(),
{
    if i < shown.len() - 1 {
        let rest = shown.drop_last();
        assert(rest[i] == shown[i]);
        assert(distinct(rest)) by {
            assert forall|a: int, b: int| 0 <= a < b < rest.len() implies (
            #[trigger] rest[a]).model != (#[trigger] rest[b]).model by {
                assert(rest[a] == shown[a] && rest[b] == shown[b]);
            }
        }
        assert(shown[i].model != shown[shown.len() - 1].model);
        shown_is_counted(streaks, threshold, rest, i);
    }
}

/// What is shown of a report: the watched models, each once.
pub proof fn shown_is_of_the_watched(state: AppStateView, raw: RawStatusView, model: Seq<char>)
    ensures
        distinct(state.shown(raw)),
        speaks_of(state.shown(raw), model) == state.watches(raw, model),
        forall|i: int|
            0 <= i < state.shown(raw).len() ==> #[trigger] state.shown(raw)[i] == status_of(
                service_of(raw.services, state.shown(raw)[i].model),
                true,
            ),
{
    let shown = state.shown(raw);
    let names = watched(state.config.models, raw.services);
    monitored_are_the_watched(state.config.models, raw.services);
    let listed = shown.map_values(|status: ModelStatusView| status.model);
    assert(listed == names);
    assert forall|i: int| 0 <= i < shown.len() implies #[trigger] shown[i].model == names[i] by {
        assert(listed[i] == shown[i].model);
    }
    assert forall|i: int, j: int| 0 <= i < j < shown.len() implies (#[trigger] shown[i]).model != (
    #[trigger] shown[j]).model by {
        assert(names[i] != names[j]);
    }
    if speaks_of(shown, model) {
        let i = choose|i: int| 0 <= i < shown.len() && (#[trigger] shown[i]).model == model;
        assert(names[i] == model);
        assert(names.contains(model));
    }
    if state.watches(raw, model) {
        assert(names.contains(model));
        let i = choose|i: int| 0 <= i < names.len() && names[i] == model;
        assert(shown[i].model == model);
    }
}

/// A report sets the failures in a row of each watched model to zero where the model is up, and
/// counts one more where it is not; the model is said to be up where it is, or where that is
/// fewer than the threshold. Of other models nothing is said, and their counts stay.
pub proof fn report_counts_failures(
    state: AppStateView,
    raw: RawStatusView,
    now: u64,
    model: Seq<char>,
)
    ensures
        ({
            let after = state.fetched(raw, now).0;
            let before = streak_of(state.fail_streak, model);
            let up = is_up(service_of(raw.services, model));
            &&& after.config == state.config
            &&& if state.watches(raw, model) {
                &&& streak_of(after.fail_streak, model) == if up {
                    0
                } else {
                    before + 1
                }
                &&& after.last_ok.contains_key(model)
                &&& after.last_ok[model] == (up || before + 1 < state.config.fail_threshold)
            } else {
                &&& streak_of(after.fail_streak, model) == before
                &&& !after.last_ok.contains_key(model)
            }
        }),
{
    let shown = state.shown(raw);
    let threshold = state.config.fail_threshold as nat;
    shown_is_of_the_watched(state, raw, model);
    if state.watches(raw, model) {
        let i = choose|i: int| 0 <= i < shown.len() && (#[trigger] shown[i]).model == model;
        shown_is_counted(state.fail_streak, threshold, shown, i);
        assert(shown[i] == status_of(service_of(raw.services, model), true));
    } else {
        not_shown_is_not_counted(state.fail_streak, threshold, shown, model);
    }
}

/// Whether `model` was up, report by report, in the reports of a course of events in which it
/// was watched.
pub open spec fn sightings(state: AppStateView, course: Seq<Happening>, model: Seq<char>) -> Seq<
    bool,
>
    decreases course.len(),
{
    if course.len() == 0 {
        Seq::empty()
    } else {
        let so_far = sightings(state, course.drop_last(), model);
        match course.last() {
            Happening::Fetched(raw, _) => if state_after(state, course.drop_last()).watches(raw, model) {
                so_far.push(is_up(service_of(raw.services, model)))
            } else {
                so_far
            },
            _ => so_far,
        }
    }
}

/// How many of the last sightings were failures, without a success after them.
pub open spec fn failures_at_last(seen: Seq<bool>) -> nat
    decreases seen.len(),
{
    if seen.len() == 0 || seen.last() {
        0
    } else {
        failures_at_last(seen.drop_last()) + 1
    }
}

/// Whether the last `n` sightings were all failures.
pub open spec fn last_all_failed(seen: Seq<bool>, n: int) -> bool {
    &&& n <= seen.len()
    &&& forall|i: int| seen.len() - n <= i < seen.len() ==> !#[trigger] seen[i]
}

/// There are at least `n` failures at last exactly if the last `n` sightings all failed.
proof fn failures_at_last_means(seen: Seq<bool>, n: int)
    requires
        n >= 0,
    ensures
        (failures_at_last(seen) >= n) == last_all_failed(seen, n),
    decreases seen.len(),
{
    if n > 0 && seen.len() > 0 {
        assert(seen.last() == seen[seen.len() - 1]);
        if !seen.last() {
            let rest = seen.drop_last();
            failures_at_last_means(rest, n - 1);
            if last_all_failed(rest, n - 1) {
                assert forall|i: int| seen.len() - n <= i < seen.len() implies !#[trigger] seen[i] by {
                    if i < rest.len() {
                        assert(!rest[i]);
                    }
                }
            }
            if last_all_failed(seen, n) {
                assert forall|i: int| rest.len() - (n - 1) <= i < rest.len() implies !#[trigger] rest[i] by {
                    assert(!seen[i]);
                }
            }
        }
    }
}

/// The failures in a row of a model are counted over every report in which it is watched, and
/// over those only, whatever else happens.
pub proof fn streak_is_failures_at_last(
    state: AppStateView,
    course: Seq<Happening>,
    model: Seq<char>,
)
    requires
        streak_of(state.fail_streak, model) == 0,
    ensures
        streak_of(state_after(state, course).fail_streak, model) == failures_at_last(
            sightings(state, course, model),
        ),
    decreases course.len(),
{
    if course.len() > 0 {
        let before = state_after(state, course.drop_last());
        let so_far = sightings(state, course.drop_last(), model);
        streak_is_failures_at_last(state, course.drop_last(), model);
        match course.last() {
            Happening::Fetched(raw, now) => {
                report_counts_failures(before, raw, now, model);
                let up = is_up(service_of(raw.services, model));
                assert(so_far.push(up).drop_last() =~= so_far);
            },
            _ => {},
        }
    }
}

/// A watched model is said to be down exactly if it has failed in the last `fail_threshold`
/// reports in which it was watched: fewer failures in a row, such as a single one where the
/// threshold is more than one, do not make it count as down.
pub proof fn down_after_failures_in_a_row(
    state: AppStateView,
    course: Seq<Happening>,
    raw: RawStatusView,
    now: u64,
    model: Seq<char>,
)
    requires
        state.is_valid(),
        sane_settings(course),
        streak_of(state.fail_streak, model) == 0,
        state_after(state, course).watches(raw, model),
    ensures
        ({
            let before = state_after(state, course);
            let after = step(before, Happening::Fetched(raw, now)).0;
            let seen = sightings(state, course.push(Happening::Fetched(raw, now)), model);
            &&& seen == sightings(state, course, model).push(
                is_up(service_of(raw.services, model)),
            )
            &&& after.last_ok.contains_key(model)
            &&& !after.last_ok[model] <==> last_all_failed(
                seen,
                before.config.fail_threshold as int,
            )
        }),
{
    let last = Happening::Fetched(raw, now);
    let whole = course.push(last);
    let before = state_after(state, course);
    assert(whole.drop_last() =~= course);
    settings_stay_in_range(state, course);
    streak_is_failures_at_last(state, course, model);
    streak_is_failures_at_last(state, whole, model);
    report_counts_failures(before, raw, now, model);
    failures_at_last_means(
        sightings(state, whole, model),
        before.config.fail_threshold as int,
    );
}

/// Once a report shows all watched models up, no recovery is news until one has gone down: the
/// next report finds that all was well, whichever models it watches.
pub proof fn all_well_is_remembered(
    state: AppStateView,
    raw: RawStatusView,
    now: u64,
    next: Seq<ModelStatusView>,
)
    requires
        state.is_well(state.shown(raw)),
    ensures
        state.processed(raw, now).0.was_well(next),
        state.processed(raw, now).0.news(next) matches Some((kind, _)) ==> kind
            == NotifyKind::Degraded,
{
    let shown = state.shown(raw);
    let threshold = state.config.fail_threshold as nat;
    let after = state.processed(raw, now).0;
    shown_is_of_the_watched(state, raw, shown[0].model);
    shown_is_counted(state.fail_streak, threshold, shown, 0);
    assert(after.last_ok.dom().contains(shown[0].model));
    assert forall|i: int| 0 <= i < next.len() implies was_up(
        after.last_ok,
        (#[trigger] next[i]).model,
    ) by {
        let model = next[i].model;
        if speaks_of(shown, model) {
            let k = choose|k: int| 0 <= k < shown.len() && (#[trigger] shown[k]).model == model;
            shown_is_counted(state.fail_streak, threshold, shown, k);
        } else {
            not_shown_is_not_counted(state.fail_streak, threshold, shown, model);
        }
    }
}

/// Once a report shows a watched model down, a next report that watches it still finds that not
/// all was well, so that all being up again is then news of a recovery, where the settings ask
/// for it.
pub proof fn trouble_is_remembered(
    state: AppStateView,
    raw: RawStatusView,
    now: u64,
    i: int,
    next: Seq<ModelStatusView>,
)
    requires
        0 <= i < state.shown(raw).len(),
        !counts_as_up(
            state.fail_streak,
            state.config.fail_threshold as nat,
            state.shown(raw)[i],
        ),
        speaks_of(next, state.shown(raw)[i].model),
    ensures
        ({
            let after = state.processed(raw, now).0;
            &&& !after.was_well(next)
            &&& after.is_well(next) && state.config.notify_recovery ==> after.news(next) == Some(
                (NotifyKind::Recovered, "所有监听模型均已恢复"@),
            )
        }),
{
    let shown = state.shown(raw);
    let threshold = state.config.fail_threshold as nat;
    let after = state.processed(raw, now).0;
    let model = shown[i].model;
    shown_is_of_the_watched(state, raw, model);
    shown_is_counted(state.fail_streak, threshold, shown, i);
    let k = choose|k: int| 0 <= k < next.len() && (#[trigger] next[k]).model == model;
    assert(!was_up(after.last_ok, next[k].model));
}

/// A snapshot says that all is well exactly if something is watched and nothing watched is said
/// to be down.
pub proof fn all_ok_means_no_watched_model_is_down(
    state: AppStateView,
    raw: RawStatusView,
    now: u64,
)
    ensures
        ({
            let after = state.processed(raw, now).0;
            after.snapshot matches Some(snapshot) && (snapshot.all_ok <==> {
                &&& exists|model: Seq<char>| #[trigger] state.watches(raw, model)
                &&& forall|model: Seq<char>| #[trigger]
                    state.watches(raw, model) ==> after.last_ok.contains_key(model)
                        && after.last_ok[model]
            })
        }),
{
    let shown = state.shown(raw);
    let threshold = state.config.fail_threshold as nat;
    let after = state.processed(raw, now).0;
    assert forall|model: Seq<char>| state.watches(raw, model) == #[trigger] speaks_of(
        shown,
        model,
    ) by {
        shown_is_of_the_watched(state, raw, model);
    }
    shown_is_of_the_watched(state, raw, Seq::empty());
    if state.is_well(shown) {
        assert(speaks_of(shown, shown[0].model));
        assert(state.watches(raw, shown[0].model));
        assert forall|model: Seq<char>| #[trigger]
            state.watches(raw, model) implies after.last_ok.contains_key(model)
            && after.last_ok[model] by {
            assert(speaks_of(shown, model));
            let k = choose|k: int| 0 <= k < shown.len() && (#[trigger] shown[k]).model == model;
            shown_is_counted(state.fail_streak, threshold, shown, k);
        }
    } else {
        if shown.len() > 0 {
            let k = choose|k: int|
                0 <= k < shown.len() && !counts_as_up(
                    state.fail_streak,
                    threshold,
                    #[trigger] shown[k],
                );
            shown_is_counted(state.fail_streak, threshold, shown, k);
            assert(speaks_of(shown, shown[k].model));
            assert(state.watches(raw, shown[k].model));
            assert(!after.last_ok[shown[k].model]);
        } else {
            assert forall|model: Seq<char>| !#[trigger] state.watches(raw, model) by {
                assert(!speaks_of(shown, model));
            }
        }
    }
}

/// Models that are down already are no news: where not all was well before and no model goes
/// down that was not down yet, nothing is told of models that are down.
pub proof fn standing_trouble_is_no_news(state: AppStateView, shown: Seq<ModelStatusView>)
    requires
        !state.was_well(shown),
        forall|i: int|
            0 <= i < shown.len() && !counts_as_up(
                state.fail_streak,
                state.config.fail_threshold as nat,
                #[trigger] shown[i],
            ) ==> streak_of(state.fail_streak, shown[i].model) >= state.config.fail_threshold,
    ensures
        state.news(shown) matches Some((kind, _)) ==> kind == NotifyKind::Recovered,
{
    let threshold = state.config.fail_threshold as nat;
    let pick = goes_down(state.fail_streak, threshold);
    let more = shown.filter(pick);
    filter_keeps(shown, pick);
    if more.len() > 0 {
        assert(more.contains(more[0]));
        assert(shown.contains(more[0]));
        let i = choose|i: int| 0 <= i < shown.len() && shown[i] == more[0];
        assert(pick(shown[i]));
    }
    assert(newly_down(state.fail_streak, threshold, shown).len() == 0);
}

} // verus!
