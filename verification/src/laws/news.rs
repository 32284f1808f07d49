//! What is told of models that go down and come back: when, and in what words.

use vstd::prelude::*;

use crate::judge::{down_line, goes_down, is_down, newly_down};
use crate::laws::models::{shown_is_counted, shown_is_of_the_watched};
use crate::laws::notifications::{processed_shows, shows};
use crate::laws::reports::{
    report_counts_each_model, snapshot_after,
    snapshot_shows_the_watched_models, stood_well, stood_well_is_was_well,
};
use crate::laws::wording::precedes;
use crate::notify::{ActionView, NotifyKind, TrayStatus};
use crate::shown::filter_keeps;
use crate::state::AppStateView;
use crate::status::{ModelStatusView, RawStatusView};
use crate::text::{decimal, joined};

verus! {

/// Whether the statuses stand in the order of their models.
pub open spec fn in_order(list: Seq<ModelStatusView>) -> bool {
    forall|i: int, j: int|
        0 <= i < j < list.len() ==> precedes(
            (#[trigger] list[i]).model,
            (#[trigger] list[j]).model,
        )
}

/// Whether the names stand in order.
pub open spec fn names_in_order(names: Seq<Seq<char>>) -> bool {
    forall|i: int, j: int|
        0 <= i < j < names.len() ==> precedes(#[trigger] names[i], #[trigger] names[j])
}

/// Whether `downs` are those of the statuses shown that the state says are down, in order.
pub open spec fn are_the_down(
    after: AppStateView,
    shown: Seq<ModelStatusView>,
    downs: Seq<ModelStatusView>,
) -> bool {
    &&& in_order(downs)
    &&& forall|status: ModelStatusView| #[trigger]
        downs.contains(status) <==> shown.contains(status) && !after.last_ok[status.model]
}

/// Whether `names` are those of the models shown that the state says are down by a last failure
/// that was the one too many, in order.
pub open spec fn are_the_fallen(
    after: AppStateView,
    shown: Seq<ModelStatusView>,
    names: Seq<Seq<char>>,
) -> bool {
    &&& names_in_order(names)
    &&& forall|model: Seq<char>| #[trigger]
        names.contains(model) <==> exists|j: int|
            0 <= j < shown.len() && (#[trigger] shown[j]).model == model && has_fallen(after, model)
}

/// Whether a model is said to be down, and has failed just as often as it takes.
pub open spec fn has_fallen(after: AppStateView, model: Seq<char>) -> bool {
    !after.last_ok[model] && after.fail_streak[model] == after.config.fail_threshold
}

/// Whether a text says how many of the `watched` models are down, and lists each on a line of its
/// own, by name and with its error where there is one.
pub open spec fn says_outage(
    body: Seq<char>,
    downs: Seq<ModelStatusView>,
    watched: nat,
    lines: Seq<Seq<char>>,
) -> bool {
    &&& lines.len() == downs.len()
    &&& forall|i: int|
        0 <= i < downs.len() ==> #[trigger] lines[i] == (if downs[i].error is None
            || downs[i].error->0.len() == 0 {
            downs[i].model
        } else {
            downs[i].model + ": "@ + downs[i].error->0
        })
    &&& body == decimal(downs.len()) + "/"@ + decimal(watched) + " 个模型不可用\n"@ + joined(
        lines,
        "\n"@,
    )
}

/// A filter keeps statuses in order.
proof fn filter_keeps_order(s: Seq<ModelStatusView>, pick: spec_fn(ModelStatusView) -> bool)
    requires
        in_order(s),
    ensures
        in_order(s.filter(pick)),
    decreases s.len(),
{
    reveal(Seq::filter);
    if s.len() > 0 {
        let rest = s.drop_last();
        let kept = rest.filter(pick);
        assert(in_order(rest)) by {
            assert forall|i: int, j: int| 0 <= i < j < rest.len() implies precedes(
                (#[trigger] rest[i]).model,
                (#[trigger] rest[j]).model,
            ) by {
                assert(rest[i] == s[i] && rest[j] == s[j]);
            }
        }
        filter_keeps_order(rest, pick);
        filter_keeps(rest, pick);
        if pick(s.last()) {
            let more = kept.push(s.last());
            assert forall|i: int, j: int| 0 <= i < j < more.len() implies precedes(
                (#[trigger] more[i]).model,
                (#[trigger] more[j]).model,
            ) by {
                if j == kept.len() {
                    assert(kept.contains(kept[i]));
                    assert(rest.contains(kept[i]));
                    let k = choose|k: int| 0 <= k < rest.len() && rest[k] == kept[i];
                    assert(precedes(s[k].model, s[s.len() - 1].model));
                } else {
                    assert(more[i] == kept[i] && more[j] == kept[j]);
                }
            }
        }
    }
}

/// What the state says of a status shown, by how it is judged.
proof fn verdict_of(state: AppStateView, raw: RawStatusView, now: u64, i: int)
    requires
        0 <= i < state.shown(raw).len(),
    ensures
        ({
            let after = state.processed(raw, now).0;
            let status = state.shown(raw)[i];
            let threshold = state.config.fail_threshold as nat;
            &&& is_down(state.fail_streak, threshold)(status) == !after.last_ok[status.model]
            &&& goes_down(state.fail_streak, threshold)(status) == has_fallen(after, status.model)
        }),
{
    let shown = state.shown(raw);
    shown_is_of_the_watched(state, raw, shown[i].model);
    shown_is_counted(state.fail_streak, state.config.fail_threshold as nat, shown, i);
}

/// A notification that a report shows comes first and tells its news.
proof fn notification_tells_the_news(state: AppStateView, raw: RawStatusView, now: u64, i: int)
    requires
        0 <= i < state.processed(raw, now).1.len(),
        state.processed(raw, now).1[i] is Notify,
    ensures
        i == 0,
        state.news(state.shown(raw)) == Some(
            (
                (state.processed(raw, now).1[i]->Notify_0).kind,
                (state.processed(raw, now).1[i]->Notify_0).body,
            ),
        ),
{
    let shown = state.shown(raw);
    let said = state.told_if_any(state.news(shown), now).1;
    let tray = state.tray(shown);
    assert(said.len() <= 1 && tray.len() <= 1);
}

/// Where all was well before, a notification that models are down lists exactly the watched
/// models that the same report leaves as down, in ascending order, each with its error, and says
/// how many they are: a model that is up, or has failed fewer times in a row than the settings
/// say, is neither listed nor counted.
pub proof fn outage_lists_the_models_that_are_down(
    state: AppStateView,
    raw: RawStatusView,
    now: u64,
    i: int,
)
    requires
        0 <= i < state.processed(raw, now).1.len(),
        state.processed(raw, now).1[i] matches ActionView::Notify(n) && n.kind
            == NotifyKind::Degraded,
        stood_well(state, snapshot_after(state, raw, now).monitored),
    ensures
        ({
            let (after, actions) = state.processed(raw, now);
            let shown = snapshot_after(state, raw, now).monitored;
            exists|downs: Seq<ModelStatusView>, lines: Seq<Seq<char>>| #[trigger]
                says_outage((actions[i]->Notify_0).body, downs, shown.len(), lines)
                    && are_the_down(after, shown, downs) && forall|k: int|
                    0 <= k < downs.len() ==> !(#[trigger] downs[k]).ok
                        && after.fail_streak[downs[k].model] >= state.config.fail_threshold
        }),
{
    let (after, actions) = state.processed(raw, now);
    let shown = state.shown(raw);
    let threshold = state.config.fail_threshold as nat;
    let pick = is_down(state.fail_streak, threshold);
    let downs = shown.filter(pick);
    let lines = downs.map_values(|status: ModelStatusView| down_line(status));
    notification_tells_the_news(state, raw, now, i);
    stood_well_is_was_well(state, shown);
    snapshot_shows_the_watched_models(state, raw, now);
    filter_keeps(shown, pick);
    filter_keeps_order(shown, pick);
    assert forall|status: ModelStatusView| #[trigger] downs.contains(status) <==> shown.contains(
        status,
    ) && !after.last_ok[status.model] by {
        if shown.contains(status) {
            let k = choose|k: int| 0 <= k < shown.len() && shown[k] == status;
            verdict_of(state, raw, now, k);
        }
    }
    assert forall|k: int| 0 <= k < downs.len() implies !(#[trigger] downs[k]).ok
        && after.fail_streak[downs[k].model] >= state.config.fail_threshold by {
        assert(downs.contains(downs[k]));
        let j = choose|j: int| 0 <= j < shown.len() && shown[j] == downs[k];
        report_counts_each_model(state, raw, now, downs[k].model);
        assert(shown[j].model == downs[k].model);
    }
    assert(says_outage((actions[i]->Notify_0).body, downs, shown.len(), lines));
}

/// Where not all was well before, a notification that models are down names exactly the watched
/// models that went down by this report, in ascending order, and there is at least one.
pub proof fn more_trouble_names_the_models_that_fell(
    state: AppStateView,
    raw: RawStatusView,
    now: u64,
    i: int,
)
    requires
        0 <= i < state.processed(raw, now).1.len(),
        state.processed(raw, now).1[i] matches ActionView::Notify(n) && n.kind
            == NotifyKind::Degraded,
        !stood_well(state, snapshot_after(state, raw, now).monitored),
    ensures
        ({
            let (after, actions) = state.processed(raw, now);
            let shown = snapshot_after(state, raw, now).monitored;
            exists|names: Seq<Seq<char>>| #[trigger]
                are_the_fallen(after, shown, names) && names.len() > 0 && (
                actions[i]->Notify_0).body == "新增故障: "@ + joined(names, ", "@)
        }),
{
    let after = state.processed(raw, now).0;
    let shown = state.shown(raw);
    let threshold = state.config.fail_threshold as nat;
    let pick = goes_down(state.fail_streak, threshold);
    let kept = shown.filter(pick);
    let names = newly_down(state.fail_streak, threshold, shown);
    notification_tells_the_news(state, raw, now, i);
    stood_well_is_was_well(state, shown);
    snapshot_shows_the_watched_models(state, raw, now);
    filter_keeps(shown, pick);
    filter_keeps_order(shown, pick);
    assert forall|a: int, b: int| 0 <= a < b < names.len() implies precedes(
        #[trigger] names[a],
        #[trigger] names[b],
    ) by {
        assert(names[a] == kept[a].model && names[b] == kept[b].model);
    }
    assert forall|model: Seq<char>| #[trigger] names.contains(model) <==> exists|j: int|
        0 <= j < shown.len() && (#[trigger] shown[j]).model == model && has_fallen(
            after,
            model,
        ) by {
        if names.contains(model) {
            let a = choose|a: int| 0 <= a < names.len() && names[a] == model;
            assert(kept.contains(kept[a]));
            let j = choose|j: int| 0 <= j < shown.len() && shown[j] == kept[a];
            verdict_of(state, raw, now, j);
            assert(shown[j].model == model);
        }
        if exists|j: int|
            0 <= j < shown.len() && (#[trigger] shown[j]).model == model && has_fallen(
                after,
                model,
            ) {
            let j = choose|j: int|
                0 <= j < shown.len() && (#[trigger] shown[j]).model == model && has_fallen(
                    after,
                    model,
                );
            verdict_of(state, raw, now, j);
            assert(shown.contains(shown[j]));
            assert(kept.contains(shown[j]));
            let a = choose|a: int| 0 <= a < kept.len() && kept[a] == shown[j];
            assert(names[a] == model);
        }
    }
    assert(are_the_fallen(after, shown, names));
}

/// Whether models have newly gone down by a report that is not the first: all was well before and
/// no longer is, or a watched model has just failed once too often.
pub open spec fn is_worse(state: AppStateView, raw: RawStatusView, now: u64) -> bool {
    let after = state.processed(raw, now).0;
    let snapshot = snapshot_after(state, raw, now);
    &&& state.baseline_done
    &&& !snapshot.all_ok
    &&& stood_well(state, snapshot.monitored) || exists|j: int|
        0 <= j < snapshot.monitored.len() && has_fallen(
            after,
            (#[trigger] snapshot.monitored[j]).model,
        )
}

/// Whether all is well again by a report that is not the first.
pub open spec fn is_better(state: AppStateView, raw: RawStatusView, now: u64) -> bool {
    let snapshot = snapshot_after(state, raw, now);
    &&& state.baseline_done
    &&& snapshot.all_ok
    &&& !stood_well(state, snapshot.monitored)
}

/// What the news of a report are about.
proof fn news_of_a_report(state: AppStateView, raw: RawStatusView, now: u64)
    ensures
        (state.news(state.shown(raw)) matches Some((kind, _)) && kind == NotifyKind::Degraded)
            <==> is_worse(state, raw, now),
        (state.news(state.shown(raw)) matches Some((kind, _)) && kind == NotifyKind::Recovered)
            <==> is_better(state, raw, now) && state.config.notify_recovery,
        state.news(state.shown(raw)) matches Some((kind, _)) ==> kind == NotifyKind::Degraded
            || kind == NotifyKind::Recovered,
{
    let after = state.processed(raw, now).0;
    let shown = state.shown(raw);
    let threshold = state.config.fail_threshold as nat;
    let pick = goes_down(state.fail_streak, threshold);
    let kept = shown.filter(pick);
    let more = newly_down(state.fail_streak, threshold, shown);
    stood_well_is_was_well(state, shown);
    filter_keeps(shown, pick);
    if more.len() > 0 {
        assert(kept.contains(kept[0]));
        let j = choose|j: int| 0 <= j < shown.len() && shown[j] == kept[0];
        verdict_of(state, raw, now, j);
        assert(has_fallen(after, shown[j].model));
    }
    if exists|j: int| 0 <= j < shown.len() && has_fallen(after, (#[trigger] shown[j]).model) {
        let j = choose|j: int|
            0 <= j < shown.len() && has_fallen(after, (#[trigger] shown[j]).model);
        verdict_of(state, raw, now, j);
        assert(shown.contains(shown[j]));
        assert(kept.contains(shown[j]));
        assert(more.len() > 0);
    }
}

/// A report tells that models went down exactly if they did and the cooldown has passed since
/// that was last told, and that all is well again exactly if it is, the settings ask for it and
/// the cooldown has passed since that was last told. Nothing but the cooldown holds such a
/// notification back, and its time is kept.
pub proof fn report_tells_its_news(state: AppStateView, raw: RawStatusView, now: u64)
    requires
        state.config.cooldown_secs > 0,
    ensures
        ({
            let (after, actions) = state.processed(raw, now);
            let worse = is_worse(state, raw, now) && now - state.last_notify.degraded
                >= state.config.cooldown_secs;
            let better = is_better(state, raw, now) && state.config.notify_recovery && now
                - state.last_notify.recovered >= state.config.cooldown_secs;
            &&& shows(actions, NotifyKind::Degraded) <==> worse
            &&& shows(actions, NotifyKind::Recovered) <==> better
            &&& !shows(actions, NotifyKind::SourceDown)
            &&& !shows(actions, NotifyKind::SourceUp)
            &&& after.last_notify.degraded == (if worse {
                now
            } else {
                state.last_notify.degraded
            })
            &&& after.last_notify.recovered == (if better {
                now
            } else {
                state.last_notify.recovered
            })
        }),
{
    news_of_a_report(state, raw, now);
    processed_shows(state, raw, now, NotifyKind::Degraded);
    processed_shows(state, raw, now, NotifyKind::Recovered);
    processed_shows(state, raw, now, NotifyKind::SourceDown);
    processed_shows(state, raw, now, NotifyKind::SourceUp);
}

/// The tray says that models are down exactly if they newly went down, whether or not that is
/// told; a report never makes it say anything of the status page.
pub proof fn tray_follows_the_models(state: AppStateView, raw: RawStatusView, now: u64)
    ensures
        ({
            let actions = state.processed(raw, now).1;
            &&& actions.contains(ActionView::Tray(TrayStatus::Degraded)) <==> is_worse(
                state,
                raw,
                now,
            )
            &&& !actions.contains(ActionView::Tray(TrayStatus::SourceDown))
            &&& !actions.contains(ActionView::Tray(TrayStatus::Recovered))
        }),
{
    let actions = state.processed(raw, now).1;
    let shown = state.shown(raw);
    let said = state.told_if_any(state.news(shown), now).1;
    let tray = state.tray(shown);
    news_of_a_report(state, raw, now);
    assert(said.len() <= 1 && tray.len() <= 1);
    assert(actions.len() == said.len() + tray.len() + 1);
    if is_worse(state, raw, now) {
        assert(actions[said.len() as int] == ActionView::Tray(TrayStatus::Degraded));
    }
}

/// The words in which a recovery is told.
pub proof fn recovery_is_told_in_these_words(
    state: AppStateView,
    raw: RawStatusView,
    now: u64,
    i: int,
)
    requires
        0 <= i < state.processed(raw, now).1.len(),
        state.processed(raw, now).1[i] matches ActionView::Notify(n) && n.kind
            == NotifyKind::Recovered,
    ensures
        (state.processed(raw, now).1[i]->Notify_0).body == "所有监听模型均已恢复"@,
{
    notification_tells_the_news(state, raw, now, i);
}

} // verus!
