//! What the watcher knows, and what it does when a fetch ends.

use vstd::hash_map::StringHashMap;
use vstd::prelude::*;

use crate::config::{load_config, settings_at_start, AppConfig, AppConfigView};
use crate::judge::{
    all_up, all_were_up, counts, degraded_text, down_lines, has_room, list_down, list_newly_down,
    more_degraded_text, newly_down, none_down, none_was_down, record, room_for, streaks_after,
    tell_degraded, tell_more_degraded, verdicts,
};
use crate::notify::{
    compose_notification, notification_of, Action, ActionView, NotifyKind, NotifyTimes, TrayStatus,
};
use crate::status::{
    all_models, list_models, monitored, show_models, watched_only, ModelStatus, ModelStatusView,
    RawStatus, RawStatusView, StatusSnapshot, StatusSnapshotView,
};

verus! {

/// How many fetches must fail in a row before the status page counts as out of reach.
pub const API_DOWN_CONFIRM: u32 = 3;

/// What the watcher knows.
pub struct AppState {
    pub config: AppConfig,
    /// What is shown of the last report, once there was one.
    pub snapshot: Option<StatusSnapshot>,
    /// What was said of each watched model last time.
    pub last_ok: StringHashMap<bool>,
    /// How often each model has failed in a row.
    pub fail_streak: StringHashMap<u32>,
    pub last_notify: NotifyTimes,
    /// How many fetches have failed in a row.
    pub api_fail_streak: u32,
    /// Whether the status page counts as out of reach.
    pub api_was_down: bool,
    /// Whether a report was seen before.
    pub baseline_done: bool,
    /// Whether the user asked for a poll.
    pub check_requested: bool,
    /// Whether the floating window was put in its place.
    pub hud_pos_set: bool,
}

/// What an [`AppState`] holds.
pub struct AppStateView {
    pub config: AppConfigView,
    pub snapshot: Option<StatusSnapshotView>,
    pub last_ok: Map<Seq<char>, bool>,
    pub fail_streak: Map<Seq<char>, nat>,
    pub last_notify: NotifyTimes,
    pub api_fail_streak: nat,
    pub api_was_down: bool,
    pub baseline_done: bool,
    pub check_requested: bool,
    pub hud_pos_set: bool,
}

impl View for AppState {
    type V = AppStateView;

    open spec fn view(&self) -> AppStateView {
        AppStateView {
            config: self.config@,
            snapshot: self.snapshot.deep_view(),
            last_ok: self.last_ok@,
            fail_streak: counts(self.fail_streak@),
            last_notify: self.last_notify,
            api_fail_streak: self.api_fail_streak as nat,
            api_was_down: self.api_was_down,
            baseline_done: self.baseline_done,
            check_requested: self.check_requested,
            hud_pos_set: self.hud_pos_set,
        }
    }
}

impl AppStateView {
    /// Whether the settings in force are in range.
    pub open spec fn is_valid(self) -> bool {
        self.config.is_sane()
    }

    /// The state of a start with the given settings.
    pub open spec fn initial(config: AppConfigView) -> AppStateView {
        AppStateView {
            config,
            snapshot: None,
            last_ok: Map::empty(),
            fail_streak: Map::empty(),
            last_notify: NotifyTimes { degraded: 0, recovered: 0, source_down: 0, source_up: 0 },
            api_fail_streak: 0,
            api_was_down: false,
            baseline_done: false,
            check_requested: false,
            hud_pos_set: false,
        }
    }

    /// What is shown of each watched model in a report.
    pub open spec fn shown(self, raw: RawStatusView) -> Seq<ModelStatusView> {
        monitored(self.config.models, raw.services)
    }

    /// Whether every count of failures can take a report into account.
    pub open spec fn has_room_for(self, raw: RawStatusView) -> bool {
        has_room(self.fail_streak, self.shown(raw))
    }

    /// Whether all is well once `shown` is seen.
    pub open spec fn is_well(self, shown: Seq<ModelStatusView>) -> bool {
        all_up(self.fail_streak, self.config.fail_threshold as nat, shown)
    }

    /// Whether all was well before, as far as the models shown go.
    pub open spec fn was_well(self, shown: Seq<ModelStatusView>) -> bool {
        all_were_up(self.last_ok, shown)
    }

    /// The news in `shown`, if any: what it is about and the text that tells it. The first
    /// report has none.
    pub open spec fn news(self, shown: Seq<ModelStatusView>) -> Option<(NotifyKind, Seq<char>)> {
        let threshold = self.config.fail_threshold as nat;
        let more = newly_down(self.fail_streak, threshold, shown);
        if !self.baseline_done {
            None
        } else if self.is_well(shown) {
            if !self.was_well(shown) && self.config.notify_recovery {
                Some((NotifyKind::Recovered, "所有监听模型均已恢复"@))
            } else {
                None
            }
        } else if self.was_well(shown) {
            Some(
                (
                    NotifyKind::Degraded,
                    degraded_text(
                        down_lines(self.fail_streak, threshold, shown),
                        shown.len(),
                    ),
                ),
            )
        } else if more.len() > 0 {
            Some((NotifyKind::Degraded, more_degraded_text(more)))
        } else {
            None
        }
    }

    /// The state and the actions when there is something to tell at `now`: it is told unless
    /// something of its kind was told too short a time ago.
    pub open spec fn told(self, kind: NotifyKind, body: Seq<char>, now: u64) -> (
        AppStateView,
        Seq<ActionView>,
    ) {
        if self.last_notify.allows(kind, now, self.config.cooldown_secs) {
            (
                AppStateView { last_notify: self.last_notify.with(kind, now), ..self },
                seq![ActionView::Notify(notification_of(self.config, kind, body))],
            )
        } else {
            (self, Seq::empty())
        }
    }

    /// The state and the actions when there may be something to tell at `now`.
    pub open spec fn told_if_any(self, news: Option<(NotifyKind, Seq<char>)>, now: u64) -> (
        AppStateView,
        Seq<ActionView>,
    ) {
        match news {
            Some((kind, body)) => self.told(kind, body, now),
            None => (self, Seq::empty()),
        }
    }

    /// What is done to the tray once `shown` is seen.
    pub open spec fn tray(self, shown: Seq<ModelStatusView>) -> Seq<ActionView> {
        if self.is_well(shown) {
            seq![ActionView::Tray(TrayStatus::AllOk)]
        } else {
            match self.news(shown) {
                Some((NotifyKind::Degraded, _)) => seq![ActionView::Tray(TrayStatus::Degraded)],
                _ => Seq::empty(),
            }
        }
    }

    /// What is shown of a report.
    pub open spec fn snapshot_of(self, raw: RawStatusView) -> StatusSnapshotView {
        StatusSnapshotView {
            all_ok: self.is_well(self.shown(raw)),
            generated_at: raw.generated_at,
            monitored: self.shown(raw),
            all_models: all_models(raw.services),
            source_error: false,
        }
    }

    /// The state and the actions when a report is taken into account at `now`.
    pub open spec fn processed(self, raw: RawStatusView, now: u64) -> (
        AppStateView,
        Seq<ActionView>,
    ) {
        let shown = self.shown(raw);
        let (told, said) = self.told_if_any(self.news(shown), now);
        (
            AppStateView {
                snapshot: Some(self.snapshot_of(raw)),
                last_ok: verdicts(
                    self.fail_streak,
                    self.config.fail_threshold as nat,
                    shown,
                ),
                fail_streak: streaks_after(self.fail_streak, shown),
                baseline_done: true,
                ..told
            },
            said + self.tray(shown) + seq![ActionView::Emit(self.snapshot_of(raw))],
        )
    }

    /// The state and the actions when the status page comes into reach or goes out of it.
    pub open spec fn source_changed(self, down: bool, msg: Seq<char>, now: u64) -> (
        AppStateView,
        Seq<ActionView>,
    ) {
        let kind = if down {
            NotifyKind::SourceDown
        } else {
            NotifyKind::SourceUp
        };
        let (told, said) = self.told(kind, msg, now);
        (
            told,
            said.push(
                ActionView::Tray(
                    if down {
                        TrayStatus::SourceDown
                    } else {
                        TrayStatus::Recovered
                    },
                ),
            ),
        )
    }

    /// The state and the actions when a fetch reaches the status page.
    pub open spec fn reached(self, now: u64) -> (AppStateView, Seq<ActionView>) {
        let reached = AppStateView { api_fail_streak: 0, api_was_down: false, ..self };
        if self.api_was_down {
            reached.source_changed(false, "监控页面已恢复连接"@, now)
        } else {
            (reached, Seq::empty())
        }
    }

    /// The state and the actions when a fetch brings a report.
    pub open spec fn fetched(self, raw: RawStatusView, now: u64) -> (
        AppStateView,
        Seq<ActionView>,
    ) {
        let (back, first) = self.reached(now);
        let (done, rest) = back.processed(raw, now);
        (done, first + rest)
    }

    /// What is shown once a fetch has failed.
    pub open spec fn stale(self) -> Option<StatusSnapshotView> {
        match self.snapshot {
            Some(snapshot) => Some(StatusSnapshotView { source_error: true, ..snapshot }),
            None => None,
        }
    }

    /// The state and the actions when a fetch fails.
    pub open spec fn fetch_failed(self, error: Seq<char>, now: u64) -> (
        AppStateView,
        Seq<ActionView>,
    ) {
        let counted = AppStateView { api_fail_streak: self.api_fail_streak + 1, ..self };
        let (known, said) = if counted.api_fail_streak >= API_DOWN_CONFIRM && !self.api_was_down {
            AppStateView { api_was_down: true, ..counted }.source_changed(
                true,
                unreachable_text(error),
                now,
            )
        } else {
            (counted, Seq::empty())
        };
        (
            AppStateView { snapshot: self.stale(), ..known },
            match self.stale() {
                Some(snapshot) => said.push(ActionView::Emit(snapshot)),
                None => said,
            },
        )
    }
}

/// The text of a notification that the status page is out of reach.
pub open spec fn unreachable_text(error: Seq<char>) -> Seq<char> {
    "监控页面不可达："@ + error + "，稍后自动重试"@
}

impl AppState {
    /// Whether the settings in force are in range.
    pub open spec fn wf(self) -> bool {
        self@.is_valid()
    }

    /// The state of a start, given what was read back of the settings saved before.
    pub fn new(saved: Option<AppConfig>) -> (state: Self)
        ensures
            state@ == AppStateView::initial(settings_at_start(saved.deep_view())),
            state.wf(),
    {
        let state = AppState {
            config: load_config(saved),
            snapshot: None,
            last_ok: StringHashMap::new(),
            fail_streak: StringHashMap::new(),
            last_notify: NotifyTimes::new(),
            api_fail_streak: 0,
            api_was_down: false,
            baseline_done: false,
            check_requested: false,
            hud_pos_set: false,
        };
        proof {
            assert(state.last_notify.at(NotifyKind::Degraded) == 0);
            assert(state.last_notify.at(NotifyKind::Recovered) == 0);
            assert(state.last_notify.at(NotifyKind::SourceDown) == 0);
            assert(state.last_notify.at(NotifyKind::SourceUp) == 0);
            assert(state@.fail_streak =~= Map::empty());
        }
        state
    }

    /// Tells something of the given kind at `now`, unless something of its kind was told too
    /// short a time ago.
    fn tell(&mut self, kind: NotifyKind, body: String, now: u64, actions: &mut Vec<Action>)
        ensures
            final(self)@ == old(self)@.told(kind, body@, now).0,
            final(actions).deep_view() == old(actions).deep_view() + old(self)@.told(
                kind,
                body@,
                now,
            ).1,
    {
        let ghost was = actions.deep_view();
        if self.last_notify.claim(kind, now, self.config.cooldown_secs) {
            actions.push(Action::Notify(compose_notification(&self.config, kind, body)));
            assert(actions.deep_view() =~= was + old(self)@.told(kind, body@, now).1);
        } else {
            assert(actions.deep_view() =~= was + old(self)@.told(kind, body@, now).1);
        }
    }

    /// The news in `shown`, if any.
    fn find_news(&self, shown: &Vec<ModelStatus>) -> (news: Option<(NotifyKind, String)>)
        requires
            has_room(self@.fail_streak, shown.deep_view()),
        ensures
            match news {
                Some((kind, body)) => self@.news(shown.deep_view()) == Some((kind, body@)),
                None => self@.news(shown.deep_view()) is None,
            },
    {
        if !self.baseline_done {
            return None;
        }
        let threshold: u32 = self.config.fail_threshold;
        let well = none_down(&self.fail_streak, threshold, shown);
        let was_well = none_was_down(&self.last_ok, shown);
        if well {
            if !was_well && self.config.notify_recovery {
                return Some((NotifyKind::Recovered, String::from_str("所有监听模型均已恢复")));
            }
            return None;
        }
        if was_well {
            let lines = list_down(&self.fail_streak, threshold, shown);
            return Some((NotifyKind::Degraded, tell_degraded(&lines, shown.len())));
        }
        let more = list_newly_down(&self.fail_streak, threshold, shown);
        if more.len() > 0 {
            return Some((NotifyKind::Degraded, tell_more_degraded(&more)));
        }
        None
    }

    /// Whether every count of failures can take a report into account.
    pub fn room_for(&self, raw: &RawStatus) -> (room: bool)
        ensures
            room == self@.has_room_for(raw@),
    {
        let names = list_models(&raw.services);
        let shown = watched_only(&show_models(&self.config.models, &raw.services, &names));
        room_for(&self.fail_streak, &shown)
    }

    /// Takes a report into account at `now`.
    pub fn process_raw(&mut self, raw: RawStatus, now: u64) -> (actions: Vec<Action>)
        requires
            old(self)@.has_room_for(raw@),
        ensures
            final(self)@ == old(self)@.processed(raw@, now).0,
            actions.deep_view() == old(self)@.processed(raw@, now).1,
            old(self).wf() ==> final(self).wf(),
    {
        let ghost start = self@;
        let all_models = list_models(&raw.services);
        let shown = watched_only(&show_models(&self.config.models, &raw.services, &all_models));
        let ghost seen = shown.deep_view();
        assert(seen == start.shown(raw@));
        let threshold: u32 = self.config.fail_threshold;
        let all_ok = none_down(&self.fail_streak, threshold, &shown);
        let news = self.find_news(&shown);
        let mut actions: Vec<Action> = Vec::new();
        assert(actions.deep_view() =~= Seq::empty());
        let mut worse: bool = false;
        if let Some((kind, body)) = news {
            worse = kind == NotifyKind::Degraded;
            self.tell(kind, body, now, &mut actions);
        }
        let ghost said = actions.deep_view();
        assert(said =~= start.told_if_any(start.news(seen), now).1);
        if all_ok {
            actions.push(Action::Tray(TrayStatus::AllOk));
        } else if worse {
            actions.push(Action::Tray(TrayStatus::Degraded));
        }
        let ghost so_far = actions.deep_view();
        assert(so_far =~= said + start.tray(seen));
        record(&mut self.fail_streak, &mut self.last_ok, threshold, &shown);
        self.baseline_done = true;
        let snapshot = StatusSnapshot {
            all_ok,
            generated_at: raw.generated_at,
            monitored: shown,
            all_models,
            source_error: false,
        };
        assert(snapshot@ == start.snapshot_of(raw@));
        self.snapshot = Some(snapshot.clone());
        actions.push(Action::Emit(snapshot));
        assert(actions.deep_view() =~= so_far.push(ActionView::Emit(start.snapshot_of(raw@))));
        assert(actions.deep_view() =~= start.processed(raw@, now).1);
        actions
    }

    /// Takes into account that the status page comes into reach or goes out of it.
    pub fn notify_source(&mut self, down: bool, msg: String, now: u64) -> (actions: Vec<Action>)
        ensures
            final(self)@ == old(self)@.source_changed(down, msg@, now).0,
            actions.deep_view() == old(self)@.source_changed(down, msg@, now).1,
            old(self).wf() ==> final(self).wf(),
    {
        let kind = if down {
            NotifyKind::SourceDown
        } else {
            NotifyKind::SourceUp
        };
        let mut actions: Vec<Action> = Vec::new();
        assert(actions.deep_view() =~= Seq::empty());
        self.tell(kind, msg, now, &mut actions);
        let ghost said = actions.deep_view();
        assert(said =~= old(self)@.told(kind, msg@, now).1);
        let status = if down {
            TrayStatus::SourceDown
        } else {
            TrayStatus::Recovered
        };
        actions.push(Action::Tray(status));
        assert(actions.deep_view() =~= said.push(ActionView::Tray(status)));
        actions
    }

    /// Takes into account that a fetch reached the status page.
    pub fn on_reached(&mut self, now: u64) -> (actions: Vec<Action>)
        ensures
            final(self)@ == old(self)@.reached(now).0,
            actions.deep_view() == old(self)@.reached(now).1,
            old(self).wf() ==> final(self).wf(),
    {
        self.api_fail_streak = 0;
        let was_down = self.api_was_down;
        self.api_was_down = false;
        if was_down {
            self.notify_source(false, String::from_str("监控页面已恢复连接"), now)
        } else {
            let actions: Vec<Action> = Vec::new();
            assert(actions.deep_view() =~= Seq::empty());
            actions
        }
    }

    /// Takes into account that a fetch brought a report.
    pub fn on_fetched(&mut self, raw: RawStatus, now: u64) -> (actions: Vec<Action>)
        requires
            old(self)@.has_room_for(raw@),
        ensures
            final(self)@ == old(self)@.fetched(raw@, now).0,
            actions.deep_view() == old(self)@.fetched(raw@, now).1,
            old(self).wf() ==> final(self).wf(),
    {
        let mut actions = self.on_reached(now);
        let ghost first = actions.deep_view();
        let mut rest = self.process_raw(raw, now);
        let ghost second = rest.deep_view();
        actions.append(&mut rest);
        assert(actions.deep_view() =~= first + second);
        actions
    }

    /// Takes into account that a fetch failed.
    pub fn on_fetch_failed(&mut self, error: &str, now: u64) -> (actions: Vec<Action>)
        requires
            old(self)@.api_fail_streak < u32::MAX,
        ensures
            final(self)@ == old(self)@.fetch_failed(error@, now).0,
            actions.deep_view() == old(self)@.fetch_failed(error@, now).1,
            old(self).wf() ==> final(self).wf(),
    {
        self.api_fail_streak = self.api_fail_streak + 1;
        let mut actions: Vec<Action> = Vec::new();
        assert(actions.deep_view() =~= Seq::empty());
        if self.api_fail_streak >= API_DOWN_CONFIRM && !self.api_was_down {
            self.api_was_down = true;
            let mut msg = String::from_str("监控页面不可达：");
            msg.append(error);
            msg.append("，稍后自动重试");
            actions = self.notify_source(true, msg, now);
        }
        let ghost said = actions.deep_view();
        if let Some(snapshot) = &self.snapshot {
            let mut stale = snapshot.clone();
            stale.source_error = true;
            actions.push(Action::Emit(stale.clone()));
            assert(actions.deep_view() =~= said.push(ActionView::Emit(stale@)));
            self.snapshot = Some(stale);
        }
        actions
    }

    /// What is shown of the last report, once there was one.
    pub fn get_status(&self) -> (snapshot: Option<StatusSnapshot>)
        ensures
            snapshot.deep_view() == self@.snapshot,
    {
        match &self.snapshot {
            Some(snapshot) => Some(snapshot.clone()),
            None => None,
        }
    }

    /// The settings in force.
    pub fn get_config(&self) -> (config: AppConfig)
        ensures
            config@ == self@.config,
    {
        self.config.clone()
    }

    /// The models that the last report spoke of; none before there was one.
    pub fn get_models(&self) -> (models: Vec<String>)
        ensures
            models.deep_view() == match self@.snapshot {
                Some(snapshot) => snapshot.all_models,
                None => Seq::empty(),
            },
    {
        match &self.snapshot {
            Some(snapshot) => {
                let models = snapshot.all_models.clone();
                assert(models.deep_view() =~= snapshot.all_models.deep_view());
                models
            },
            None => {
                let models: Vec<String> = Vec::new();
                assert(models.deep_view() =~= Seq::empty());
                models
            },
        }
    }

    /// Asks for a poll.
    pub fn check_now(&mut self)
        ensures
            final(self)@ == (AppStateView { check_requested: true, ..old(self)@ }),
            old(self).wf() ==> final(self).wf(),
    {
        self.check_requested = true;
    }
}

} // verus!
