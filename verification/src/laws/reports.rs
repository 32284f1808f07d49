//! What a report leaves behind: which models are shown, with what, and what is said of them.

use vstd::prelude::*;

use crate::judge::{counts_as_up, was_up};
use crate::laws::models::{
    not_shown_is_not_counted, shown_is_counted, shown_is_of_the_watched, speaks_of,
};
use crate::laws::wording::{
    is_short_of, order_goes_by_the_first_difference, precedes, short_error_is_the_middle,
};
use crate::notify::{ActionView, TrayStatus};
use crate::order::before;
use crate::shown::{all_models_is_the_listing, monitored_are_the_watched, watched};
use crate::state::AppStateView;
use crate::status::{
    all_models, is_wanted, models_in, service_of, status_of, statuses, ModelStatusView,
    RawServiceView, RawStatusView, StatusSnapshotView,
};

verus! {

/// What is shown once a report is taken into account.
pub open spec fn snapshot_after(
    state: AppStateView,
    raw: RawStatusView,
    now: u64,
) -> StatusSnapshotView {
    state.processed(raw, now).0.snapshot->0
}

/// Whether a service of the report is of `model`.
pub open spec fn reported(raw: RawStatusView, model: Seq<char>) -> bool {
    exists|k: int| 0 <= k < raw.services.len() && #[trigger] raw.services[k].model == model
}

/// Whether the service at `k` is of `model`, and none after it is.
pub open spec fn is_last_of(services: Seq<RawServiceView>, k: int, model: Seq<char>) -> bool {
    &&& 0 <= k < services.len()
    &&& services[k].model == model
    &&& forall|l: int| k < l < services.len() ==> (#[trigger] services[l]).model != model
}

/// Whether two texts have the same characters in the same places.
pub open spec fn same_characters(a: Seq<char>, b: Seq<char>) -> bool {
    &&& a.len() == b.len()
    &&& forall|c: int| 0 <= c < a.len() ==> #[trigger] a[c] == b[c]
}

/// Whether one of `names` is `model`, character by character.
pub open spec fn names_model(names: Seq<Seq<char>>, model: Seq<char>) -> bool {
    exists|j: int| 0 <= j < names.len() && same_characters(#[trigger] names[j], model)
}

/// Whether a status shows what the last probe of a service found.
pub open spec fn tells_of(status: ModelStatusView, service: RawServiceView) -> bool {
    &&& status.model == service.model
    &&& status.uptime_bits == service.uptime_bits
    &&& service.last is None ==> !status.ok && status.latency_ms is None && status.last_ts is None
        && status.error is None
    &&& service.last matches Some(last) ==> {
        &&& status.ok == last.ok
        &&& status.latency_ms == last.latency_ms
        &&& status.last_ts == Some(last.ts)
        &&& status.error is Some <==> last.error is Some
        &&& last.error matches Some(error) ==> is_short_of(status.error->0, error)
    }
}

/// Where the service that a report gives for a model stands.
proof fn place_of_service(services: Seq<RawServiceView>, model: Seq<char>, upto: int) -> (k: int)
    requires
        0 <= upto <= services.len(),
        exists|k: int| 0 <= k < upto && #[trigger] services[k].model == model,
    ensures
        0 <= k < upto,
        services[k].model == model,
        forall|l: int| k < l < upto ==> (#[trigger] services[l]).model != model,
        service_of(services.take(upto), model) == services[k],
    decreases upto,
{
    let part = services.take(upto);
    assert(part.last() == services[upto - 1]);
    if services[upto - 1].model == model {
        upto - 1
    } else {
        let some = choose|k: int| 0 <= k < upto && #[trigger] services[k].model == model;
        assert(some < upto - 1);
        assert(part.drop_last() =~= services.take(upto - 1));
        place_of_service(services, model, upto - 1)
    }
}

/// The status of a model shows what the last service of that model found.
proof fn status_tells_of_the_last(
    services: Seq<RawServiceView>,
    model: Seq<char>,
    monitored: bool,
)
    requires
        exists|k: int| 0 <= k < services.len() && #[trigger] services[k].model == model,
    ensures
        ({
            let status = status_of(service_of(services, model), monitored);
            status.model == model && status.monitored == monitored && exists|k: int| #[trigger]
                is_last_of(services, k, model) && tells_of(status, services[k])
        }),
{
    let k = place_of_service(services, model, services.len() as int);
    assert(services.take(services.len() as int) =~= services);
    let service = services[k];
    if service.last is Some && service.last->0.error is Some {
        short_error_is_the_middle(service.last->0.error->0);
    }
    assert(is_last_of(services, k, model));
    assert(tells_of(status_of(service, monitored), service));
}

/// The models shown stand in the order of the names.
proof fn shown_in_order(state: AppStateView, raw: RawStatusView, i: int, j: int)
    requires
        0 <= i < j < state.shown(raw).len(),
    ensures
        precedes(state.shown(raw)[i].model, state.shown(raw)[j].model),
{
    let shown = state.shown(raw);
    let names = watched(state.config.models, raw.services);
    monitored_are_the_watched(state.config.models, raw.services);
    let listed = shown.map_values(|status: ModelStatusView| status.model);
    assert(listed == names);
    assert(listed[i] == shown[i].model && listed[j] == shown[j].model);
    assert(before(names[i], names[j]));
    order_goes_by_the_first_difference(names[i], names[j]);
}

/// Which models are wanted, by the names in the settings.
proof fn wanted_by_name(names: Seq<Seq<char>>, model: Seq<char>)
    ensures
        is_wanted(names, model) <==> names.len() == 0 || names_model(names, model),
{
    if names.contains(model) {
        let j = choose|j: int| 0 <= j < names.len() && names[j] == model;
        assert(same_characters(names[j], model));
    }
    if names_model(names, model) {
        let j = choose|j: int| 0 <= j < names.len() && same_characters(#[trigger] names[j], model);
        assert(names[j] =~= model);
        assert(names.contains(model));
    }
}

/// Which models are watched in a report.
proof fn watched_by_name(state: AppStateView, raw: RawStatusView, model: Seq<char>)
    ensures
        speaks_of(state.shown(raw), model) <==> reported(raw, model) && (state.config.models.len()
            == 0 || names_model(state.config.models, model)),
{
    shown_is_of_the_watched(state, raw, model);
    assert(models_in(raw.services).contains(model) <==> reported(raw, model));
    wanted_by_name(state.config.models, model);
}

/// A model of a report is watched exactly if the settings name no models, or one of the names is
/// that model, character by character: it is then shown, and something is said of it.
pub proof fn named_models_are_watched(
    state: AppStateView,
    raw: RawStatusView,
    now: u64,
    model: Seq<char>,
)
    ensures
        ({
            let shown = snapshot_after(state, raw, now).monitored;
            let is_watched = reported(raw, model) && (state.config.models.len() == 0 || names_model(
                state.config.models,
                model,
            ));
            &&& (exists|i: int| 0 <= i < shown.len() && (#[trigger] shown[i]).model == model)
                <==> is_watched
            &&& state.processed(raw, now).0.last_ok.contains_key(model) <==> is_watched
        }),
{
    let shown = state.shown(raw);
    let threshold = state.config.fail_threshold as nat;
    watched_by_name(state, raw, model);
    shown_is_of_the_watched(state, raw, model);
    if speaks_of(shown, model) {
        let i = choose|i: int| 0 <= i < shown.len() && (#[trigger] shown[i]).model == model;
        shown_is_counted(state.fail_streak, threshold, shown, i);
    } else {
        not_shown_is_not_counted(state.fail_streak, threshold, shown, model);
    }
}

/// Each watched model is shown once, in ascending order, whatever is said of it, with what the
/// report's last service of that model found.
pub proof fn snapshot_shows_the_watched_models(state: AppStateView, raw: RawStatusView, now: u64)
    ensures
        state.processed(raw, now).0.snapshot is Some,
        ({
            let shown = snapshot_after(state, raw, now).monitored;
            &&& forall|i: int, j: int|
                0 <= i < j < shown.len() ==> precedes(
                    (#[trigger] shown[i]).model,
                    (#[trigger] shown[j]).model,
                )
            &&& forall|i: int|
                0 <= i < shown.len() ==> (#[trigger] shown[i]).monitored && exists|k: int|
                    #[trigger]
                    is_last_of(raw.services, k, shown[i].model) && tells_of(
                        shown[i],
                        raw.services[k],
                    )
            &&& forall|model: Seq<char>|
                reported(raw, model) && (state.config.models.len() == 0 || names_model(
                    state.config.models,
                    model,
                )) ==> exists|i: int|
                    0 <= i < shown.len() && (#[trigger] shown[i]).model == model
        }),
{
    let shown = state.shown(raw);
    assert(snapshot_after(state, raw, now).monitored == shown);
    assert forall|i: int, j: int| 0 <= i < j < shown.len() implies precedes(
        (#[trigger] shown[i]).model,
        (#[trigger] shown[j]).model,
    ) by {
        shown_in_order(state, raw, i, j);
    }
    assert forall|i: int| 0 <= i < shown.len() implies (#[trigger] shown[i]).monitored && exists|
        k: int,
    | #[trigger]
        is_last_of(raw.services, k, shown[i].model) && tells_of(shown[i], raw.services[k]) by {
        let model = shown[i].model;
        assert(speaks_of(shown, model));
        watched_by_name(state, raw, model);
        shown_is_of_the_watched(state, raw, model);
        status_tells_of_the_last(raw.services, model, true);
    }
    assert forall|model: Seq<char>|
        reported(raw, model) && (state.config.models.len() == 0 || names_model(
            state.config.models,
            model,
        )) implies exists|i: int| 0 <= i < shown.len() && (#[trigger] shown[i]).model == model by {
        watched_by_name(state, raw, model);
    }
}

/// Every model of a report is listed once, in ascending order, and nothing else is; the snapshot
/// is of that report and is not stale.
pub proof fn snapshot_lists_every_model(state: AppStateView, raw: RawStatusView, now: u64)
    ensures
        ({
            let snapshot = snapshot_after(state, raw, now);
            let all = snapshot.all_models;
            &&& forall|i: int, j: int|
                0 <= i < j < all.len() ==> precedes(#[trigger] all[i], #[trigger] all[j])
            &&& forall|model: Seq<char>| #[trigger] all.contains(model) <==> reported(raw, model)
            &&& snapshot.generated_at == raw.generated_at
            &&& !snapshot.source_error
        }),
{
    let all = snapshot_after(state, raw, now).all_models;
    all_models_is_the_listing(raw.services);
    assert forall|i: int, j: int| 0 <= i < j < all.len() implies precedes(
        #[trigger] all[i],
        #[trigger] all[j],
    ) by {
        order_goes_by_the_first_difference(all[i], all[j]);
    }
    assert forall|model: Seq<char>| #[trigger] all.contains(model) <==> reported(raw, model) by {
        assert(models_in(raw.services).contains(model) <==> reported(raw, model));
    }
}

/// Every model of a report has its status, watched or not: the statuses stand in the order of the
/// models, each shows what the last service of its model found, and whether it is watched.
pub proof fn every_model_has_its_status(named: Seq<Seq<char>>, services: Seq<RawServiceView>, i: int)
    requires
        0 <= i < all_models(services).len(),
    ensures
        ({
            let all = all_models(services);
            let status = statuses(named, services)[i];
            &&& statuses(named, services).len() == all.len()
            &&& status.model == all[i]
            &&& status.monitored <==> named.len() == 0 || names_model(named, all[i])
            &&& exists|k: int| #[trigger]
                is_last_of(services, k, all[i]) && tells_of(status, services[k])
        }),
{
    let all = all_models(services);
    all_models_is_the_listing(services);
    assert(all.contains(all[i]));
    assert(models_in(services).contains(all[i]));
    wanted_by_name(named, all[i]);
    status_tells_of_the_last(services, all[i], is_wanted(named, all[i]));
}

/// How often a model has failed in a row, as far as the state says.
pub open spec fn failures_so_far(state: AppStateView, model: Seq<char>) -> int {
    if state.fail_streak.contains_key(model) {
        state.fail_streak[model] as int
    } else {
        0
    }
}

/// Each model that is shown has failed once more in a row if it is not up, and not at all if it
/// is; it is said to be down exactly if it is not up and has failed as often as the settings say.
/// Of other models nothing is said, and their failures stay as they were.
pub proof fn report_counts_each_model(
    state: AppStateView,
    raw: RawStatusView,
    now: u64,
    model: Seq<char>,
)
    ensures
        ({
            let after = state.processed(raw, now).0;
            let shown = snapshot_after(state, raw, now).monitored;
            &&& forall|i: int|
                0 <= i < shown.len() && (#[trigger] shown[i]).model == model ==> {
                    let n = if shown[i].ok {
                        0
                    } else {
                        failures_so_far(state, model) + 1
                    };
                    &&& after.fail_streak.contains_key(model)
                    &&& after.fail_streak[model] == n
                    &&& after.last_ok.contains_key(model)
                    &&& !after.last_ok[model] <==> !shown[i].ok && n >= state.config.fail_threshold
                }
            &&& (forall|i: int| 0 <= i < shown.len() ==> (#[trigger] shown[i]).model != model) ==> {
                &&& after.fail_streak.contains_key(model) == state.fail_streak.contains_key(model)
                &&& failures_so_far(after, model) == failures_so_far(state, model)
                &&& !after.last_ok.contains_key(model)
            }
        }),
{
    let shown = state.shown(raw);
    let threshold = state.config.fail_threshold as nat;
    shown_is_of_the_watched(state, raw, model);
    assert forall|i: int| 0 <= i < shown.len() && (#[trigger] shown[i]).model == model implies {
        let after = state.processed(raw, now).0;
        let n = if shown[i].ok {
            0
        } else {
            failures_so_far(state, model) + 1
        };
        &&& after.fail_streak.contains_key(model)
        &&& after.fail_streak[model] == n
        &&& after.last_ok.contains_key(model)
        &&& !after.last_ok[model] <==> !shown[i].ok && n >= state.config.fail_threshold
    } by {
        shown_is_counted(state.fail_streak, threshold, shown, i);
    }
    if !speaks_of(shown, model) {
        not_shown_is_not_counted(state.fail_streak, threshold, shown, model);
    }
}

/// All is well exactly if something is shown and nothing shown is said to be down.
pub proof fn all_ok_is_said_of_what_is_shown(state: AppStateView, raw: RawStatusView, now: u64)
    ensures
        ({
            let after = state.processed(raw, now).0;
            let snapshot = snapshot_after(state, raw, now);
            let shown = snapshot.monitored;
            snapshot.all_ok <==> {
                &&& shown.len() > 0
                &&& forall|i: int|
                    0 <= i < shown.len() ==> after.last_ok[(#[trigger] shown[i]).model]
            }
        }),
{
    let after = state.processed(raw, now).0;
    let shown = state.shown(raw);
    let threshold = state.config.fail_threshold as nat;
    assert forall|i: int| 0 <= i < shown.len() implies after.last_ok[(#[trigger] shown[i]).model]
        == counts_as_up(state.fail_streak, threshold, shown[i]) by {
        shown_is_of_the_watched(state, raw, shown[i].model);
        shown_is_counted(state.fail_streak, threshold, shown, i);
    }
}

/// What a report brings about: a notification at most, then at most one change of the tray, then
/// the snapshot that is kept is handed to the windows. The tray says that all is well exactly if
/// the snapshot does.
pub proof fn report_ends_with_its_snapshot(state: AppStateView, raw: RawStatusView, now: u64)
    ensures
        ({
            let (after, actions) = state.processed(raw, now);
            let all_well = ActionView::Tray(TrayStatus::AllOk);
            &&& 1 <= actions.len() <= 3
            &&& after.snapshot is Some
            &&& actions.last() == ActionView::Emit(after.snapshot->0)
            &&& forall|i: int|
                0 <= i < actions.len() - 1 ==> !(#[trigger] actions[i] is Emit)
            &&& forall|i: int| 0 < i < actions.len() ==> !(#[trigger] actions[i] is Notify)
            &&& forall|i: int|
                0 <= i < actions.len() - 2 ==> !(#[trigger] actions[i] is Tray)
            &&& actions.contains(all_well) <==> after.snapshot->0.all_ok
        }),
{
    let (after, actions) = state.processed(raw, now);
    let shown = state.shown(raw);
    let said = state.told_if_any(state.news(shown), now).1;
    let tray = state.tray(shown);
    let all_well = ActionView::Tray(TrayStatus::AllOk);
    assert(said.len() <= 1 && tray.len() <= 1);
    assert(actions.len() == said.len() + tray.len() + 1);
    if state.is_well(shown) {
        assert(actions[said.len() as int] == all_well);
    }
}

/// A report changes what is known of the models, and nothing else: the settings, what is known
/// of the status page, a request for a poll and the place of the floating window stay.
pub proof fn report_leaves_the_rest(state: AppStateView, raw: RawStatusView, now: u64)
    ensures
        ({
            let after = state.processed(raw, now).0;
            &&& after.baseline_done
            &&& after.config == state.config
            &&& after.api_fail_streak == state.api_fail_streak
            &&& after.api_was_down == state.api_was_down
            &&& after.check_requested == state.check_requested
            &&& after.hud_pos_set == state.hud_pos_set
            &&& after.last_notify.source_down == state.last_notify.source_down
            &&& after.last_notify.source_up == state.last_notify.source_up
        }),
{
}

/// Whether a report finds that all was well before: something was said last time, and of nothing
/// that is shown that it was down.
pub open spec fn stood_well(state: AppStateView, shown: Seq<ModelStatusView>) -> bool {
    &&& exists|model: Seq<char>| #[trigger] state.last_ok.contains_key(model)
    &&& forall|i: int|
        0 <= i < shown.len() && state.last_ok.contains_key((#[trigger] shown[i]).model)
            ==> state.last_ok[shown[i].model]
}

/// What a report finds of the time before.
pub proof fn stood_well_is_was_well(state: AppStateView, shown: Seq<ModelStatusView>)
    ensures
        stood_well(state, shown) <==> state.was_well(shown),
{
    if state.was_well(shown) {
        if !(exists|model: Seq<char>| #[trigger] state.last_ok.contains_key(model)) {
            assert(state.last_ok.dom() =~= Set::empty());
        }
        assert forall|i: int|
            0 <= i < shown.len() && state.last_ok.contains_key((#[trigger] shown[i]).model) implies
            state.last_ok[shown[i].model] by {
            assert(was_up(state.last_ok, shown[i].model));
        }
    }
    if stood_well(state, shown) {
        let model = choose|model: Seq<char>| #[trigger] state.last_ok.contains_key(model);
        assert(state.last_ok.dom().contains(model));
    }
}

/// A report can be taken into account exactly if none of the models shown as not up has failed as
/// often in a row as can be counted.
pub proof fn room_is_for_one_more_failure(state: AppStateView, raw: RawStatusView, now: u64)
    ensures
        ({
            let shown = snapshot_after(state, raw, now).monitored;
            state.has_room_for(raw) <==> forall|i: int|
                0 <= i < shown.len() && !(#[trigger] shown[i]).ok ==> failures_so_far(
                    state,
                    shown[i].model,
                ) < 0xffff_ffff
        }),
{
}

} // verus!
