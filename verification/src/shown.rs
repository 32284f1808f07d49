//! What holds of the statuses shown of a report: which models they are of, and in what order.

use vstd::prelude::*;

use crate::order::{
    ascending, ascending_has_no_duplicates, before_is_irreflexive, before_is_total,
    before_is_transitive, before, is_listing,
};
use crate::status::{
    all_models, is_wanted, models_in, monitored, service_of, status_of, statuses, ModelStatusView,
    RawServiceView,
};

verus! {

/// Every report's models can be listed in ascending order, and [`all_models`] is that listing:
/// it holds each model of the report once, and nothing else.
pub proof fn all_models_is_the_listing(services: Seq<RawServiceView>)
    ensures
        is_listing(all_models(services), models_in(services)),
        all_models(services).no_duplicates(),
{
    let names = some_listing(services);
    assert(is_listing(names, models_in(services)));
    ascending_has_no_duplicates(all_models(services));
}

/// A listing of the models of a report.
proof fn some_listing(services: Seq<RawServiceView>) -> (names: Seq<Seq<char>>)
    ensures
        is_listing(names, models_in(services)),
    decreases services.len(),
{
    if services.len() == 0 {
        Seq::empty()
    } else {
        let rest = services.drop_last();
        let some = some_listing(rest);
        let names = with_name(some, models_in(rest), services.last().model);
        assert forall|name: Seq<char>| #[trigger] names.contains(name) <==> models_in(
            services,
        ).contains(name) by {
            assert(names.contains(name) <==> models_in(rest).insert(
                services.last().model,
            ).contains(name));
            if models_in(rest).contains(name) {
                let k = choose|k: int| 0 <= k < rest.len() && #[trigger] rest[k].model == name;
                assert(services[k].model == name);
            }
            if name == services.last().model {
                assert(services[services.len() - 1].model == name);
            }
            if models_in(services).contains(name) {
                let k = choose|k: int|
                    0 <= k < services.len() && #[trigger] services[k].model == name;
                if k < services.len() - 1 {
                    assert(rest[k].model == name);
                }
            }
        }
        names
    }
}

/// A listing with one more text.
proof fn with_name(names: Seq<Seq<char>>, all: Set<Seq<char>>, name: Seq<char>) -> (more: Seq<
    Seq<char>,
>)
    requires
        is_listing(names, all),
    ensures
        is_listing(more, all.insert(name)),
    decreases names.len(),
{
    if names.contains(name) {
        assert(all.insert(name) =~= all);
        names
    } else if names.len() == 0 {
        let more = seq![name];
        assert(more[0] == name);
        assert forall|other: Seq<char>| #[trigger] more.contains(other) <==> all.insert(
            name,
        ).contains(other) by {
            assert(!names.contains(other));
            if other == name {
                assert(more[0] == other);
            }
        }
        more
    } else {
        let last = names.last();
        before_is_total(name, last);
        assert(names[names.len() - 1] == last);
        assert(name != last);
        if before(last, name) {
            let more = names.push(name);
            assert forall|i: int, j: int| 0 <= i < j < more.len() implies before(
                #[trigger] more[i],
                #[trigger] more[j],
            ) by {
                if j == names.len() && i < names.len() - 1 {
                    assert(before(names[i], names[names.len() - 1]));
                    before_is_transitive(names[i], last, name);
                }
            }
            pushed_is_listing(names, all, name);
            more
        } else {
            let rest = names.drop_last();
            let others = all.remove(last);
            assert forall|other: Seq<char>| #[trigger] rest.contains(other) <==> others.contains(
                other,
            ) by {
                if rest.contains(other) {
                    let i = choose|i: int| 0 <= i < rest.len() && rest[i] == other;
                    assert(names[i] == other && names.contains(other));
                    assert(before(names[i], names[names.len() - 1]));
                    before_is_irreflexive(other);
                }
                if others.contains(other) {
                    assert(names.contains(other));
                    let i = choose|i: int| 0 <= i < names.len() && names[i] == other;
                    assert(rest[i] == other);
                }
            }
            let some = with_name(rest, others, name);
            let more = some.push(last);
            assert forall|i: int, j: int| 0 <= i < j < more.len() implies before(
                #[trigger] more[i],
                #[trigger] more[j],
            ) by {
                if j == some.len() {
                    assert(some.contains(some[i]));
                    assert(others.insert(name).contains(some[i]));
                    if some[i] != name {
                        assert(rest.contains(some[i]));
                        let k = choose|k: int| 0 <= k < rest.len() && rest[k] == some[i];
                        assert(before(names[k], names[names.len() - 1]));
                    }
                }
            }
            pushed_is_listing(some, others.insert(name), last);
            assert(names.contains(last));
            assert(others.insert(name).insert(last) =~= all.insert(name));
            more
        }
    }
}

/// A sequence that stays ascending with one more text at the end lists one more text.
proof fn pushed_is_listing(names: Seq<Seq<char>>, all: Set<Seq<char>>, name: Seq<char>)
    requires
        is_listing(names, all),
        ascending(names.push(name)),
    ensures
        is_listing(names.push(name), all.insert(name)),
{
    let more = names.push(name);
    assert forall|other: Seq<char>| #[trigger] more.contains(other) <==> all.insert(
        name,
    ).contains(other) by {
        if more.contains(other) {
            let i = choose|i: int| 0 <= i < more.len() && more[i] == other;
            if i < names.len() {
                assert(names[i] == other && names.contains(other));
            }
        }
        if all.contains(other) {
            assert(names.contains(other));
            let i = choose|i: int| 0 <= i < names.len() && names[i] == other;
            assert(more[i] == other);
        }
        if other == name {
            assert(more[names.len() as int] == other);
        }
    }
}

/// The service that a report gives for one of its models is of that model.
pub proof fn service_is_of_its_model(services: Seq<RawServiceView>, model: Seq<char>)
    requires
        models_in(services).contains(model),
    ensures
        service_of(services, model).model == model,
    decreases services.len(),
{
    let k = choose|k: int| 0 <= k < services.len() && #[trigger] services[k].model == model;
    if services.len() > 1 && services.last().model != model {
        assert(services.drop_last()[k].model == model);
        service_is_of_its_model(services.drop_last(), model);
    }
}

/// To filter what a map gives is to filter first, and then to map.
proof fn filter_of_map<A, B>(
    s: Seq<A>,
    f: spec_fn(A) -> B,
    keep: spec_fn(B) -> bool,
    pick: spec_fn(A) -> bool,
)
    requires
        forall|i: int| 0 <= i < s.len() ==> pick(#[trigger] s[i]) == keep(f(s[i])),
    ensures
        s.map_values(f).filter(keep) == s.filter(pick).map_values(f),
    decreases s.len(),
{
    reveal(Seq::filter);
    let left = s.map_values(f);
    if s.len() > 0 {
        let rest = s.drop_last();
        assert forall|i: int| 0 <= i < rest.len() implies pick(#[trigger] rest[i]) == keep(
            f(rest[i]),
        ) by {
            assert(rest[i] == s[i]);
        }
        filter_of_map(rest, f, keep, pick);
        assert(left.drop_last() =~= rest.map_values(f));
        assert(s[s.len() - 1] == s.last());
        assert(rest.filter(pick).push(s.last()).map_values(f) =~= rest.filter(pick).map_values(
            f,
        ).push(f(s.last())));
    } else {
        assert(left.filter(keep) =~= s.filter(pick).map_values(f));
    }
}

/// What a filter keeps: the elements that it is to keep, in their order, none twice where none
/// was twice.
pub proof fn filter_keeps<A>(s: Seq<A>, pick: spec_fn(A) -> bool)
    ensures
        forall|a: A| #[trigger] s.filter(pick).contains(a) <==> s.contains(a) && pick(a),
        s.no_duplicates() ==> s.filter(pick).no_duplicates(),
    decreases s.len(),
{
    reveal(Seq::filter);
    if s.len() > 0 {
        let rest = s.drop_last();
        let kept = rest.filter(pick);
        let last = s.last();
        filter_keeps(rest, pick);
        assert forall|a: A| #[trigger] s.filter(pick).contains(a) <==> s.contains(a) && pick(a) by {
            if s.filter(pick).contains(a) {
                let i = choose|i: int| 0 <= i < s.filter(pick).len() && s.filter(pick)[i] == a;
                if i < kept.len() {
                    assert(kept[i] == a);
                    assert(kept.contains(a));
                    assert(rest.contains(a));
                    let k = choose|k: int| 0 <= k < rest.len() && rest[k] == a;
                    assert(s[k] == a);
                } else {
                    assert(a == last && s[s.len() - 1] == a);
                }
            }
            if s.contains(a) && pick(a) {
                let k = choose|k: int| 0 <= k < s.len() && s[k] == a;
                if k < rest.len() {
                    assert(rest[k] == a);
                    assert(kept.contains(a));
                    let i = choose|i: int| 0 <= i < kept.len() && kept[i] == a;
                    assert(s.filter(pick)[i] == a);
                } else {
                    assert(s.filter(pick)[kept.len() as int] == a);
                }
            }
        }
        if s.no_duplicates() {
            assert(rest.no_duplicates());
            if pick(last) {
                if kept.contains(last) {
                    assert(rest.contains(last));
                    let k = choose|k: int| 0 <= k < rest.len() && rest[k] == last;
                    assert(s[k] == s[s.len() - 1]);
                }
                assert(s.filter(pick) == kept.push(last));
            }
        }
    }
}

/// A filter keeps an ascending sequence ascending.
proof fn filter_keeps_ascending(s: Seq<Seq<char>>, pick: spec_fn(Seq<char>) -> bool)
    requires
        ascending(s),
    ensures
        ascending(s.filter(pick)),
    decreases s.len(),
{
    reveal(Seq::filter);
    if s.len() > 0 {
        let rest = s.drop_last();
        let kept = rest.filter(pick);
        filter_keeps_ascending(rest, pick);
        filter_keeps(rest, pick);
        if pick(s.last()) {
            let more = kept.push(s.last());
            assert forall|i: int, j: int| 0 <= i < j < more.len() implies before(
                #[trigger] more[i],
                #[trigger] more[j],
            ) by {
                if j == kept.len() {
                    assert(kept.contains(kept[i]));
                    assert(rest.contains(kept[i]));
                    let k = choose|k: int| 0 <= k < rest.len() && rest[k] == kept[i];
                    assert(before(s[k], s[s.len() - 1]));
                }
            }
        }
    }
}

/// The models that a report speaks of and the settings ask for, in ascending order.
pub open spec fn watched(named: Seq<Seq<char>>, services: Seq<RawServiceView>) -> Seq<Seq<char>> {
    all_models(services).filter(|model: Seq<char>| is_wanted(named, model))
}

/// What is shown as monitored is one status for each watched model of the report, in ascending
/// order: no model is left out, none is shown twice, and each status is made of the report's
/// last service of that model.
pub proof fn monitored_are_the_watched(named: Seq<Seq<char>>, services: Seq<RawServiceView>)
    ensures
        monitored(named, services) == watched(named, services).map_values(
            |model: Seq<char>| status_of(service_of(services, model), true),
        ),
        monitored(named, services).map_values(|status: ModelStatusView| status.model) == watched(
            named,
            services,
        ),
        ascending(watched(named, services)),
        watched(named, services).no_duplicates(),
        forall|model: Seq<char>| #[trigger]
            watched(named, services).contains(model) <==> models_in(services).contains(model)
                && is_wanted(named, model),
{
    let all = all_models(services);
    let show = |model: Seq<char>| status_of(service_of(services, model), is_wanted(named, model));
    let simply = |model: Seq<char>| status_of(service_of(services, model), true);
    let keep = |status: ModelStatusView| status.monitored;
    let pick = |model: Seq<char>| is_wanted(named, model);
    let kept = watched(named, services);
    all_models_is_the_listing(services);
    filter_of_map(all, show, keep, pick);
    filter_keeps(all, pick);
    filter_keeps_ascending(all, pick);
    assert forall|i: int| 0 <= i < kept.len() implies show(#[trigger] kept[i]) == simply(
        kept[i],
    ) && show(kept[i]).model == kept[i] by {
        assert(kept.contains(kept[i]));
        assert(all.contains(kept[i]));
        service_is_of_its_model(services, kept[i]);
    }
    assert(kept.map_values(show) =~= kept.map_values(simply));
    assert(monitored(named, services).map_values(|status: ModelStatusView| status.model) =~= kept);
}

/// Settings that name no models watch all of them.
pub proof fn no_names_watch_all(services: Seq<RawServiceView>)
    ensures
        watched(Seq::empty(), services) == all_models(services),
        monitored(Seq::empty(), services) == statuses(Seq::empty(), services),
{
    filter_of_all(all_models(services), |model: Seq<char>| is_wanted(Seq::empty(), model));
    filter_of_all(
        statuses(Seq::empty(), services),
        |status: ModelStatusView| status.monitored,
    );
}

/// A filter that is to keep everything does.
proof fn filter_of_all<A>(s: Seq<A>, pick: spec_fn(A) -> bool)
    requires
        forall|i: int| 0 <= i < s.len() ==> pick(#[trigger] s[i]),
    ensures
        s.filter(pick) == s,
    decreases s.len(),
{
    reveal(Seq::filter);
    if s.len() > 0 {
        let rest = s.drop_last();
        assert forall|i: int| 0 <= i < rest.len() implies pick(#[trigger] rest[i]) by {
            assert(rest[i] == s[i]);
        }
        filter_of_all(rest, pick);
        assert(s[s.len() - 1] == s.last());
        assert(rest.push(s.last()) =~= s);
    } else {
        assert(s.filter(pick) =~= s);
    }
}

} // verus!
