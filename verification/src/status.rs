//! Status reports as fetched, and what is shown of them.

use vstd::prelude::*;

use crate::order::{insert_ascending, is_listing, listing, listing_is_the_listing};
use crate::text::{short_error, shortened};

verus! {

/// A status report as the status page gives it.
pub struct RawStatus {
    pub generated_at: i64,
    pub services: Vec<RawService>,
}

/// One service of a report.
pub struct RawService {
    pub model: String,
    /// The share of time that the service was up, in percent: the bits of an IEEE 754 double.
    pub uptime_bits: u64,
    /// The last probe, if there was one.
    pub last: Option<RawLast>,
}

/// The last probe of a service.
pub struct RawLast {
    pub ts: i64,
    pub ok: bool,
    pub latency_ms: Option<i64>,
    pub error: Option<String>,
}

/// What is shown of one model.
#[derive(Debug)]
pub struct ModelStatus {
    pub model: String,
    pub ok: bool,
    /// The share of time that the model was up, in percent: the bits of an IEEE 754 double.
    pub uptime_bits: u64,
    pub latency_ms: Option<i64>,
    pub error: Option<String>,
    pub monitored: bool,
    pub last_ts: Option<i64>,
}

/// What is shown of a report.
#[derive(Debug)]
pub struct StatusSnapshot {
    pub all_ok: bool,
    pub generated_at: i64,
    pub monitored: Vec<ModelStatus>,
    pub all_models: Vec<String>,
    pub source_error: bool,
}

/// What a [`RawStatus`] holds.
pub struct RawStatusView {
    pub generated_at: i64,
    pub services: Seq<RawServiceView>,
}

/// What a [`RawService`] holds.
pub struct RawServiceView {
    pub model: Seq<char>,
    pub uptime_bits: u64,
    pub last: Option<RawLastView>,
}

/// What a [`RawLast`] holds.
pub struct RawLastView {
    pub ts: i64,
    pub ok: bool,
    pub latency_ms: Option<i64>,
    pub error: Option<Seq<char>>,
}

/// What a [`ModelStatus`] holds.
pub struct ModelStatusView {
    pub model: Seq<char>,
    pub ok: bool,
    pub uptime_bits: u64,
    pub latency_ms: Option<i64>,
    pub error: Option<Seq<char>>,
    pub monitored: bool,
    pub last_ts: Option<i64>,
}

/// What a [`StatusSnapshot`] holds.
pub struct StatusSnapshotView {
    pub all_ok: bool,
    pub generated_at: i64,
    pub monitored: Seq<ModelStatusView>,
    pub all_models: Seq<Seq<char>>,
    pub source_error: bool,
}

impl View for RawStatus {
    type V = RawStatusView;

    open spec fn view(&self) -> RawStatusView {
        RawStatusView { generated_at: self.generated_at, services: self.services.deep_view() }
    }
}

impl View for RawService {
    type V = RawServiceView;

    open spec fn view(&self) -> RawServiceView {
        RawServiceView {
            model: self.model@,
            uptime_bits: self.uptime_bits,
            last: self.last.deep_view(),
        }
    }
}

impl DeepView for RawService {
    type V = RawServiceView;

    open spec fn deep_view(&self) -> RawServiceView {
        self@
    }
}

impl View for RawLast {
    type V = RawLastView;

    open spec fn view(&self) -> RawLastView {
        RawLastView {
            ts: self.ts,
            ok: self.ok,
            latency_ms: self.latency_ms,
            error: self.error.deep_view(),
        }
    }
}

impl DeepView for RawLast {
    type V = RawLastView;

    open spec fn deep_view(&self) -> RawLastView {
        self@
    }
}

impl View for ModelStatus {
    type V = ModelStatusView;

    open spec fn view(&self) -> ModelStatusView {
        ModelStatusView {
            model: self.model@,
            ok: self.ok,
            uptime_bits: self.uptime_bits,
            latency_ms: self.latency_ms,
            error: self.error.deep_view(),
            monitored: self.monitored,
            last_ts: self.last_ts,
        }
    }
}

impl DeepView for ModelStatus {
    type V = ModelStatusView;

    open spec fn deep_view(&self) -> ModelStatusView {
        self@
    }
}

impl View for StatusSnapshot {
    type V = StatusSnapshotView;

    open spec fn view(&self) -> StatusSnapshotView {
        StatusSnapshotView {
            all_ok: self.all_ok,
            generated_at: self.generated_at,
            monitored: self.monitored.deep_view(),
            all_models: self.all_models.deep_view(),
            source_error: self.source_error,
        }
    }
}

impl DeepView for StatusSnapshot {
    type V = StatusSnapshotView;

    open spec fn deep_view(&self) -> StatusSnapshotView {
        self@
    }
}

impl Clone for ModelStatus {
    fn clone(&self) -> (copy: Self)
        ensures
            copy@ == self@,
    {
        ModelStatus {
            model: self.model.clone(),
            ok: self.ok,
            uptime_bits: self.uptime_bits,
            latency_ms: self.latency_ms,
            error: self.error.clone(),
            monitored: self.monitored,
            last_ts: self.last_ts,
        }
    }
}

impl Clone for StatusSnapshot {
    fn clone(&self) -> (copy: Self)
        ensures
            copy@ == self@,
    {
        let monitored = self.monitored.clone();
        let all_models = self.all_models.clone();
        assert(monitored.deep_view() =~= self.monitored.deep_view());
        assert(all_models.deep_view() =~= self.all_models.deep_view());
        StatusSnapshot {
            all_ok: self.all_ok,
            generated_at: self.generated_at,
            monitored,
            all_models,
            source_error: self.source_error,
        }
    }
}

/// The models that a report speaks of.
pub open spec fn models_in(services: Seq<RawServiceView>) -> Set<Seq<char>> {
    Set::new(|model: Seq<char>| exists|i: int| 0 <= i < services.len() && #[trigger] services[i].model == model)
}

/// The models that a report speaks of, in ascending order.
pub open spec fn all_models(services: Seq<RawServiceView>) -> Seq<Seq<char>> {
    listing(models_in(services))
}

/// The service that a report gives for `model`: where there are several, the last.
pub open spec fn service_of(services: Seq<RawServiceView>, model: Seq<char>) -> RawServiceView
    decreases services.len(),
{
    if services.len() <= 1 || services.last().model == model {
        services.last()
    } else {
        service_of(services.drop_last(), model)
    }
}

/// Whether a model is to be watched, by the models that the settings name.
pub open spec fn is_wanted(named: Seq<Seq<char>>, model: Seq<char>) -> bool {
    named.len() == 0 || named.contains(model)
}

/// Whether the last probe of a service succeeded; false where there was none.
pub open spec fn is_up(service: RawServiceView) -> bool {
    match service.last {
        Some(last) => last.ok,
        None => false,
    }
}

/// What is shown of a service.
pub open spec fn status_of(service: RawServiceView, monitored: bool) -> ModelStatusView {
    ModelStatusView {
        model: service.model,
        ok: is_up(service),
        uptime_bits: service.uptime_bits,
        latency_ms: match service.last {
            Some(last) => last.latency_ms,
            None => None,
        },
        error: match service.last {
            Some(RawLastView { error: Some(error), .. }) => Some(shortened(error)),
            _ => None,
        },
        monitored,
        last_ts: match service.last {
            Some(last) => Some(last.ts),
            None => None,
        },
    }
}

/// What is shown of each model of a report, in ascending order of the models.
pub open spec fn statuses(named: Seq<Seq<char>>, services: Seq<RawServiceView>) -> Seq<
    ModelStatusView,
> {
    all_models(services).map_values(
        |model: Seq<char>| status_of(service_of(services, model), is_wanted(named, model)),
    )
}

/// What is shown of each watched model, in ascending order of the models.
pub open spec fn monitored(named: Seq<Seq<char>>, services: Seq<RawServiceView>) -> Seq<
    ModelStatusView,
> {
    statuses(named, services).filter(|status: ModelStatusView| status.monitored)
}

/// The models that a report speaks of, in ascending order.
pub fn list_models(services: &Vec<RawService>) -> (names: Vec<String>)
    ensures
        names.deep_view() == all_models(services.deep_view()),
        is_listing(names.deep_view(), models_in(services.deep_view())),
{
    let mut names: Vec<String> = Vec::new();
    let ghost all = services.deep_view();
    let mut i: usize = 0;
    while i < services.len()
        invariant
            i <= services.len(),
            all == services.deep_view(),
            is_listing(names.deep_view(), models_in(all.take(i as int))),
        decreases services.len() - i,
    {
        let ghost was = names.deep_view();
        insert_ascending(&mut names, &services[i].model);
        proof {
            let now = names.deep_view();
            let part = all.take(i as int);
            let next = all.take(i as int + 1);
            assert(all[i as int] == services@[i as int]@);
            assert forall|name: Seq<char>| #[trigger] now.contains(name) <==> models_in(
                next,
            ).contains(name) by {
                assert(now.contains(name) <==> was.contains(name) || name == all[i as int].model);
                assert(was.contains(name) <==> models_in(part).contains(name));
                if models_in(part).contains(name) {
                    let k = choose|k: int| 0 <= k < part.len() && #[trigger] part[k].model == name;
                    assert(next[k].model == name);
                }
                if name == all[i as int].model {
                    assert(next[i as int].model == name);
                }
                if models_in(next).contains(name) {
                    let k = choose|k: int| 0 <= k < next.len() && #[trigger] next[k].model == name;
                    if k < i {
                        assert(part[k].model == name);
                    }
                }
            }
        }
        i += 1;
    }
    proof {
        assert(all.take(i as int) =~= all);
        listing_is_the_listing(names.deep_view(), models_in(all));
    }
    names
}

/// The place of the service that a report gives for `model`.
fn find_service(services: &Vec<RawService>, model: &String) -> (at: usize)
    requires
        models_in(services.deep_view()).contains(model@),
    ensures
        at < services.len(),
        services@[at as int]@ == service_of(services.deep_view(), model@),
        services@[at as int]@.model == model@,
{
    let ghost all = services.deep_view();
    let mut end: usize = services.len();
    assert(all.take(end as int) =~= all);
    proof {
        let k = choose|k: int| 0 <= k < all.len() && #[trigger] all[k].model == model@;
        assert(0 <= k < end && all[k].model == model@);
    }
    while services[end - 1].model != *model
        invariant
            0 < end <= services.len(),
            all == services.deep_view(),
            service_of(all, model@) == service_of(all.take(end as int), model@),
            exists|k: int| 0 <= k < end && #[trigger] all[k].model == model@,
        decreases end,
    {
        proof {
            let k = choose|k: int| 0 <= k < end && #[trigger] all[k].model == model@;
            assert(all[end - 1] == services@[end - 1]@);
            assert(k < end - 1);
            assert(all.take(end as int).last() == all[end - 1]);
            assert(all.take(end as int).drop_last() =~= all.take(end - 1));
        }
        end -= 1;
    }
    assert(all[end - 1] == services@[end - 1]@);
    assert(all.take(end as int).last() == all[end - 1]);
    end - 1
}

/// What is shown of a service.
fn show_service(service: &RawService, monitored: bool) -> (status: ModelStatus)
    ensures
        status@ == status_of(service@, monitored),
{
    let model = service.model.clone();
    match &service.last {
        Some(last) => ModelStatus {
            model,
            ok: last.ok,
            uptime_bits: service.uptime_bits,
            latency_ms: last.latency_ms,
            error: match &last.error {
                Some(error) => Some(short_error(error.as_str())),
                None => None,
            },
            monitored,
            last_ts: Some(last.ts),
        },
        None => ModelStatus {
            model,
            ok: false,
            uptime_bits: service.uptime_bits,
            latency_ms: None,
            error: None,
            monitored,
            last_ts: None,
        },
    }
}

/// Whether a model is to be watched, by the models that the settings name.
pub fn wanted(named: &Vec<String>, model: &String) -> (want: bool)
    ensures
        want == is_wanted(named.deep_view(), model@),
        named.len() > 0 ==> (want <==> exists|i: int|
            0 <= i < named.len() && (#[trigger] named@[i])@ == model@),
        named.len() == 0 ==> want,
{
    if named.len() == 0 {
        return true;
    }
    let mut i: usize = 0;
    while i < named.len()
        invariant
            i <= named.len(),
            forall|j: int| 0 <= j < i ==> #[trigger] named.deep_view()[j] != model@,
        decreases named.len() - i,
    {
        assert(named.deep_view()[i as int] == named@[i as int]@);
        if named[i] == *model {
            return true;
        }
        i += 1;
    }
    assert forall|j: int| 0 <= j < named.len() implies (#[trigger] named@[j])@ != model@ by {
        assert(named.deep_view()[j] == named@[j]@);
    }
    false
}

/// What is shown of each model of a report, in ascending order of the models.
pub fn show_models(named: &Vec<String>, services: &Vec<RawService>, names: &Vec<String>) -> (shown:
    Vec<ModelStatus>)
    requires
        names.deep_view() == all_models(services.deep_view()),
        is_listing(names.deep_view(), models_in(services.deep_view())),
    ensures
        shown.deep_view() == statuses(named.deep_view(), services.deep_view()),
{
    let mut shown: Vec<ModelStatus> = Vec::new();
    let ghost all = statuses(named.deep_view(), services.deep_view());
    let mut i: usize = 0;
    while i < names.len()
        invariant
            i <= names.len(),
            names.deep_view() == all_models(services.deep_view()),
            is_listing(names.deep_view(), models_in(services.deep_view())),
            all == statuses(named.deep_view(), services.deep_view()),
            shown.deep_view() == all.take(i as int),
        decreases names.len() - i,
    {
        assert(names.deep_view()[i as int] == names@[i as int]@);
        assert(names.deep_view().contains(names@[i as int]@));
        let ghost was = shown.deep_view();
        let at = find_service(services, &names[i]);
        let status = show_service(&services[at], wanted(named, &names[i]));
        assert(status@ == all[i as int]);
        shown.push(status);
        assert(shown.deep_view() =~= was.push(all[i as int]));
        assert(shown.deep_view() =~= all.take(i as int + 1));
        i += 1;
    }
    assert(shown.deep_view() =~= all);
    shown
}

/// One step of a filter: the first `i + 1` elements, from the first `i`.
pub proof fn filter_step<A>(s: Seq<A>, keep: spec_fn(A) -> bool, i: int)
    requires
        0 <= i < s.len(),
    ensures
        s.take(i + 1).filter(keep) == if keep(s[i]) {
            s.take(i).filter(keep).push(s[i])
        } else {
            s.take(i).filter(keep)
        },
{
    reveal(Seq::filter);
    assert(s.take(i + 1).drop_last() =~= s.take(i));
}

/// The watched ones among the statuses.
pub fn watched_only(shown: &Vec<ModelStatus>) -> (kept: Vec<ModelStatus>)
    ensures
        kept.deep_view() == shown.deep_view().filter(|status: ModelStatusView| status.monitored),
{
    let mut kept: Vec<ModelStatus> = Vec::new();
    let ghost all = shown.deep_view();
    let ghost keep = |status: ModelStatusView| status.monitored;
    proof {
        reveal(Seq::filter);
        assert(kept.deep_view() =~= all.take(0).filter(keep));
    }
    let mut i: usize = 0;
    while i < shown.len()
        invariant
            i <= shown.len(),
            all == shown.deep_view(),
            keep == (|status: ModelStatusView| status.monitored),
            kept.deep_view() == all.take(i as int).filter(keep),
        decreases shown.len() - i,
    {
        let ghost was = kept.deep_view();
        proof {
            filter_step(all, keep, i as int);
            assert(all[i as int] == shown@[i as int]@);
        }
        if shown[i].monitored {
            kept.push(shown[i].clone());
            assert(kept.deep_view() =~= was.push(all[i as int]));
        }
        i += 1;
    }
    assert(all.take(i as int) =~= all);
    kept
}

} // verus!
