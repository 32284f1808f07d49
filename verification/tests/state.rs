use ai_status_watcher::config::AppConfig;
use ai_status_watcher::notify::{tooltip, Action, Notification, NotifyKind, NotifyTimes, TrayStatus};
use ai_status_watcher::state::AppState;
use ai_status_watcher::status::{RawLast, RawService, RawStatus, StatusSnapshot};

const T0: u64 = 1_700_000_000;

fn service(model: &str, ok: bool) -> RawService {
    RawService {
        model: model.to_string(),
        uptime_bits: 99.5f64.to_bits(),
        last: Some(RawLast { ts: 5, ok, latency_ms: Some(120), error: None }),
    }
}

fn failing(model: &str, error: &str) -> RawService {
    RawService {
        model: model.to_string(),
        uptime_bits: 50.0f64.to_bits(),
        last: Some(RawLast { ts: 6, ok: false, latency_ms: None, error: Some(error.to_string()) }),
    }
}

fn report(services: Vec<RawService>) -> RawStatus {
    RawStatus { generated_at: 77, services }
}

fn state(models: &[&str]) -> AppState {
    let config = AppConfig {
        models: models.iter().map(|model| model.to_string()).collect(),
        ..AppConfig::default()
    };
    AppState::new(Some(config))
}

fn notifications(actions: &[Action]) -> Vec<(NotifyKind, String)> {
    actions
        .iter()
        .filter_map(|action| match action {
            Action::Notify(n) => Some((n.kind, n.body.clone())),
            _ => None,
        })
        .collect()
}

fn trays(actions: &[Action]) -> Vec<TrayStatus> {
    actions
        .iter()
        .filter_map(|action| match action {
            Action::Tray(status) => Some(*status),
            _ => None,
        })
        .collect()
}

fn emitted(actions: &[Action]) -> Vec<&StatusSnapshot> {
    actions
        .iter()
        .filter_map(|action| match action {
            Action::Emit(snapshot) => Some(snapshot),
            _ => None,
        })
        .collect()
}

fn models_of(snapshot: &StatusSnapshot) -> Vec<&str> {
    snapshot.monitored.iter().map(|status| status.model.as_str()).collect()
}

#[test]
fn a_start_knows_nothing() {
    let state = AppState::new(None);
    assert!(state.get_status().is_none());
    assert!(state.get_models().is_empty());
    assert_eq!(state.get_config().poll_secs, 20);
    assert!(!state.api_was_down);
    assert!(!state.baseline_done);
    assert!(!state.check_requested);
    assert!(!state.hud_pos_set);
    assert_eq!(state.api_fail_streak, 0);
    assert!(state.fail_streak.is_empty());
    assert!(state.last_ok.is_empty());
}

#[test]
fn a_snapshot_lists_the_models_in_order() {
    let mut state = state(&[]);
    let actions =
        state.process_raw(report(vec![service("z", true), service("a", true), service("m", true)]), T0);
    let snapshot = state.get_status().unwrap();
    assert!(snapshot.all_ok);
    assert_eq!(snapshot.generated_at, 77);
    assert_eq!(snapshot.all_models, vec!["a", "m", "z"]);
    assert_eq!(models_of(&snapshot), vec!["a", "m", "z"]);
    assert!(!snapshot.source_error);
    assert_eq!(state.get_models(), vec!["a", "m", "z"]);
    assert_eq!(emitted(&actions).len(), 1);
    assert_eq!(models_of(emitted(&actions)[0]), vec!["a", "m", "z"]);
    assert_eq!(trays(&actions), vec![TrayStatus::AllOk]);
    assert!(notifications(&actions).is_empty());
    assert!(matches!(actions.last(), Some(Action::Emit(_))));
}

#[test]
fn the_last_service_of_a_model_counts() {
    let mut state = state(&[]);
    state.process_raw(
        report(vec![failing("a", "first"), service("b", true), service("a", true)]),
        T0,
    );
    let snapshot = state.get_status().unwrap();
    assert_eq!(snapshot.all_models, vec!["a", "b"]);
    assert!(snapshot.monitored[0].ok);
    assert_eq!(snapshot.monitored[0].latency_ms, Some(120));
    assert_eq!(f64::from_bits(snapshot.monitored[0].uptime_bits), 99.5);
}

#[test]
fn statuses_hold_what_the_report_says() {
    let mut state = state(&[]);
    let silent =
        RawService { model: "quiet".to_string(), uptime_bits: 0.25f64.to_bits(), last: None };
    state.process_raw(report(vec![failing("bad", " up\nstream  "), silent]), T0);
    let snapshot = state.get_status().unwrap();
    let bad = &snapshot.monitored[0];
    assert_eq!(bad.model, "bad");
    assert!(!bad.ok);
    assert_eq!(bad.latency_ms, None);
    assert_eq!(bad.error, Some("up stream".to_string()));
    assert_eq!(bad.last_ts, Some(6));
    assert!(bad.monitored);
    let quiet = &snapshot.monitored[1];
    assert_eq!(quiet.model, "quiet");
    assert!(!quiet.ok);
    assert_eq!(f64::from_bits(quiet.uptime_bits), 0.25);
    assert_eq!(quiet.error, None);
    assert_eq!(quiet.last_ts, None);
}

#[test]
fn only_named_models_are_watched() {
    let mut state = state(&["m", "x", "a"]);
    state.process_raw(report(vec![service("z", false), service("m", true), service("a", true)]), T0);
    let snapshot = state.get_status().unwrap();
    assert_eq!(snapshot.all_models, vec!["a", "m", "z"]);
    assert_eq!(models_of(&snapshot), vec!["a", "m"]);
    assert!(snapshot.all_ok);
    assert!(state.fail_streak.get("z").is_none());
    assert!(state.last_ok.get("z").is_none());
    assert!(state.last_ok.get("x").is_none());
    assert_eq!(state.last_ok.get("a"), Some(&true));
}

#[test]
fn nothing_watched_is_not_well() {
    let mut state = state(&["x"]);
    let actions = state.process_raw(report(vec![service("a", true)]), T0);
    let snapshot = state.get_status().unwrap();
    assert!(!snapshot.all_ok);
    assert!(snapshot.monitored.is_empty());
    assert!(trays(&actions).is_empty());
    assert!(state.baseline_done);
}

#[test]
fn one_failure_is_not_an_outage() {
    let mut state = state(&[]);
    state.process_raw(report(vec![service("a", true)]), T0);
    let actions = state.process_raw(report(vec![service("a", false)]), T0 + 20);
    assert!(notifications(&actions).is_empty());
    assert_eq!(trays(&actions), vec![TrayStatus::AllOk]);
    assert!(state.get_status().unwrap().all_ok);
    assert!(!state.get_status().unwrap().monitored[0].ok);
    assert_eq!(state.fail_streak.get("a"), Some(&1));
    let actions = state.process_raw(report(vec![service("a", true)]), T0 + 40);
    assert!(notifications(&actions).is_empty());
    assert_eq!(state.fail_streak.get("a"), Some(&0));
}

#[test]
fn failures_in_a_row_are_an_outage() {
    let mut state = state(&[]);
    state.process_raw(report(vec![service("a", true), service("b", true)]), T0);
    state.process_raw(report(vec![failing("a", "x"), service("b", true)]), T0 + 20);
    let actions = state.process_raw(report(vec![failing("a", "超时"), service("b", true)]), T0 + 40);
    assert_eq!(
        notifications(&actions),
        vec![(NotifyKind::Degraded, "1/2 个模型不可用\na: 超时".to_string())]
    );
    assert_eq!(trays(&actions), vec![TrayStatus::Degraded]);
    assert!(!state.get_status().unwrap().all_ok);
    assert_eq!(state.last_ok.get("a"), Some(&false));
    assert_eq!(state.last_ok.get("b"), Some(&true));
    assert_eq!(state.fail_streak.get("a"), Some(&2));
    assert_eq!(state.last_notify.degraded, T0 + 40);
}

#[test]
fn an_outage_lists_all_that_is_down() {
    let mut state = state(&[]);
    state.config.fail_threshold = 1;
    state.process_raw(report(vec![service("a", true), service("b", true), service("c", true)]), T0);
    let actions = state.process_raw(
        report(vec![failing("c", " \n"), failing("a", "HTTP 500"), service("b", false)]),
        T0 + 20,
    );
    assert_eq!(
        notifications(&actions),
        vec![(NotifyKind::Degraded, "3/3 个模型不可用\na: HTTP 500\nb\nc".to_string())]
    );
}

#[test]
fn more_outages_are_told_by_name() {
    let mut state = state(&[]);
    state.process_raw(report(vec![service("a", true), service("b", true), service("c", true)]), T0);
    state.process_raw(report(vec![service("a", false), service("b", true), service("c", true)]), T0 + 20);
    state.process_raw(report(vec![service("a", false), service("b", false), service("c", false)]), T0 + 40);
    let actions = state.process_raw(
        report(vec![service("a", false), service("b", false), failing("c", "x")]),
        T0 + 200,
    );
    assert_eq!(notifications(&actions), vec![(NotifyKind::Degraded, "新增故障: b, c".to_string())]);
    assert_eq!(trays(&actions), vec![TrayStatus::Degraded]);
}

#[test]
fn a_standing_outage_is_no_news() {
    let mut state = state(&[]);
    state.process_raw(report(vec![service("a", true)]), T0);
    state.process_raw(report(vec![service("a", false)]), T0 + 20);
    state.process_raw(report(vec![service("a", false)]), T0 + 40);
    let actions = state.process_raw(report(vec![service("a", false)]), T0 + 9000);
    assert!(notifications(&actions).is_empty());
    assert!(trays(&actions).is_empty());
    assert_eq!(actions.len(), 1);
    assert_eq!(state.fail_streak.get("a"), Some(&3));
}

#[test]
fn a_recovery_is_told() {
    let mut state = state(&[]);
    state.process_raw(report(vec![service("a", true)]), T0);
    state.process_raw(report(vec![service("a", false)]), T0 + 20);
    state.process_raw(report(vec![service("a", false)]), T0 + 40);
    let actions = state.process_raw(report(vec![service("a", true)]), T0 + 60);
    assert_eq!(
        notifications(&actions),
        vec![(NotifyKind::Recovered, "所有监听模型均已恢复".to_string())]
    );
    assert_eq!(trays(&actions), vec![TrayStatus::AllOk]);
    let actions = state.process_raw(report(vec![service("a", true)]), T0 + 9000);
    assert!(notifications(&actions).is_empty());
}

#[test]
fn a_recovery_is_not_told_where_it_is_not_wanted() {
    let mut state = state(&[]);
    state.config.notify_recovery = false;
    state.process_raw(report(vec![service("a", true)]), T0);
    state.process_raw(report(vec![service("a", false)]), T0 + 20);
    state.process_raw(report(vec![service("a", false)]), T0 + 40);
    let actions = state.process_raw(report(vec![service("a", true)]), T0 + 60);
    assert!(notifications(&actions).is_empty());
    assert_eq!(trays(&actions), vec![TrayStatus::AllOk]);
}

#[test]
fn the_first_report_is_no_news() {
    let mut state = state(&[]);
    state.config.fail_threshold = 1;
    let actions = state.process_raw(report(vec![service("a", false)]), T0);
    assert!(notifications(&actions).is_empty());
    assert!(trays(&actions).is_empty());
    assert!(!state.get_status().unwrap().all_ok);
    let actions = state.process_raw(report(vec![service("a", true)]), T0 + 20);
    assert_eq!(notifications(&actions)[0].0, NotifyKind::Recovered);
}

#[test]
fn notifications_of_a_kind_keep_their_distance() {
    let mut state = state(&[]);
    state.config.fail_threshold = 1;
    state.process_raw(report(vec![service("a", true)]), T0);
    let down = |state: &mut AppState, now: u64| {
        notifications(&state.process_raw(report(vec![service("a", false)]), now)).len()
    };
    let up = |state: &mut AppState, now: u64| {
        notifications(&state.process_raw(report(vec![service("a", true)]), now)).len()
    };
    assert_eq!(down(&mut state, T0 + 10), 1);
    assert_eq!(up(&mut state, T0 + 20), 1);
    assert_eq!(down(&mut state, T0 + 129), 0);
    assert_eq!(state.last_notify.degraded, T0 + 10);
    assert_eq!(up(&mut state, T0 + 139), 0);
    assert_eq!(down(&mut state, T0 + 140), 1);
    assert_eq!(state.last_notify.degraded, T0 + 140);
    assert_eq!(up(&mut state, T0 + 140), 1);
    assert_eq!(down(&mut state, T0), 0);
}

#[test]
fn the_cooldown_does_not_hold_back_the_tray() {
    let mut state = state(&[]);
    state.config.fail_threshold = 1;
    state.process_raw(report(vec![service("a", true)]), T0);
    state.process_raw(report(vec![service("a", false)]), T0 + 10);
    state.process_raw(report(vec![service("a", true)]), T0 + 20);
    let actions = state.process_raw(report(vec![service("a", false)]), T0 + 30);
    assert!(notifications(&actions).is_empty());
    assert_eq!(trays(&actions), vec![TrayStatus::Degraded]);
    assert_eq!(emitted(&actions).len(), 1);
}

#[test]
fn a_clock_at_the_epoch_allows_nothing() {
    let mut times = NotifyTimes::new();
    assert!(!times.claim(NotifyKind::Degraded, 0, 10));
    assert!(!times.claim(NotifyKind::Degraded, 9, 10));
    assert!(times.claim(NotifyKind::Degraded, 10, 10));
    assert!(times.claim(NotifyKind::SourceUp, 10, 10));
    assert!(!times.claim(NotifyKind::Degraded, 19, 10));
    assert_eq!(times.degraded, 10);
    assert_eq!(times.source_up, 10);
    assert_eq!(times.recovered, 0);
    assert!(times.claim(NotifyKind::Recovered, 3, 0));
    assert!(times.claim(NotifyKind::SourceDown, 300, 60));
    assert_eq!((times.recovered, times.source_down), (3, 300));
}

fn notified(state: &mut AppState, down: bool) -> Notification {
    let actions = state.notify_source(down, "msg".to_string(), T0);
    assert_eq!(actions.len(), 2);
    match actions.into_iter().next() {
        Some(Action::Notify(notification)) => notification,
        _ => panic!("no notification"),
    }
}

#[test]
fn titles_and_sounds_go_by_kind() {
    let mut state = state(&[]);
    let down = notified(&mut state, true);
    assert_eq!(down.kind, NotifyKind::SourceDown);
    assert_eq!(down.title, "AI.INPUT.IM 监控源不可达");
    assert_eq!(down.body, "msg");
    assert_eq!(down.sound, Some("Sosumi"));
    let up = notified(&mut state, false);
    assert_eq!(up.kind, NotifyKind::SourceUp);
    assert_eq!(up.title, "AI.INPUT.IM 通知");
    assert_eq!(up.sound, Some("Glass"));
}

#[test]
fn titles_and_sounds_of_models() {
    let mut state = state(&[]);
    state.config.fail_threshold = 1;
    state.process_raw(report(vec![service("a", true)]), T0);
    let mut kinds = Vec::new();
    for (ok, now) in [(false, T0 + 1), (true, T0 + 2)] {
        for action in state.process_raw(report(vec![service("a", ok)]), now) {
            if let Action::Notify(n) = action {
                kinds.push((n.title, n.sound));
            }
        }
    }
    assert_eq!(
        kinds,
        vec![
            ("AI.INPUT.IM 服务降级", Some("Sosumi")),
            ("AI.INPUT.IM 服务已恢复", Some("Glass")),
        ]
    );
}

#[test]
fn sounds_can_be_switched_off() {
    let mut state = state(&[]);
    state.config.notify_sound = false;
    assert_eq!(notified(&mut state, true).sound, None);
    assert_eq!(notified(&mut state, false).sound, None);
}

#[test]
fn tooltips() {
    assert_eq!(tooltip(TrayStatus::AllOk), "AI 状态：全部正常");
    assert_eq!(tooltip(TrayStatus::Degraded), "AI 状态：服务降级");
    assert_eq!(tooltip(TrayStatus::SourceDown), "AI 状态：监控源不可达");
    assert_eq!(tooltip(TrayStatus::Recovered), "AI 状态");
}

#[test]
fn the_source_is_out_of_reach_after_three_failures() {
    let mut state = state(&[]);
    assert!(state.on_fetch_failed("x", T0).is_empty());
    assert!(state.on_fetch_failed("x", T0 + 20).is_empty());
    assert!(!state.api_was_down);
    let actions = state.on_fetch_failed("HTTP 502 Bad Gateway", T0 + 40);
    assert!(state.api_was_down);
    assert_eq!(
        notifications(&actions),
        vec![(
            NotifyKind::SourceDown,
            "监控页面不可达：HTTP 502 Bad Gateway，稍后自动重试".to_string()
        )]
    );
    assert_eq!(trays(&actions), vec![TrayStatus::SourceDown]);
    assert!(emitted(&actions).is_empty());
    assert!(state.on_fetch_failed("x", T0 + 4000).is_empty());
    assert_eq!(state.api_fail_streak, 4);
}

#[test]
fn a_failure_marks_what_is_shown() {
    let mut state = state(&[]);
    state.on_fetched(report(vec![service("a", true)]), T0);
    let actions = state.on_fetch_failed("x", T0 + 20);
    assert_eq!(emitted(&actions).len(), 1);
    assert!(emitted(&actions)[0].source_error);
    let snapshot = state.get_status().unwrap();
    assert!(snapshot.source_error);
    assert!(snapshot.all_ok);
    assert_eq!(snapshot.all_models, vec!["a"]);
    assert_eq!(snapshot.generated_at, 77);
    state.on_fetched(report(vec![service("a", true)]), T0 + 40);
    assert!(!state.get_status().unwrap().source_error);
    assert_eq!(state.api_fail_streak, 0);
}

#[test]
fn the_source_comes_back() {
    let mut state = state(&[]);
    for i in 0..3 {
        state.on_fetch_failed("x", T0 + i);
    }
    let actions = state.on_fetched(report(vec![service("a", true)]), T0 + 60);
    assert!(!state.api_was_down);
    assert_eq!(
        notifications(&actions),
        vec![(NotifyKind::SourceUp, "监控页面已恢复连接".to_string())]
    );
    assert_eq!(trays(&actions), vec![TrayStatus::Recovered, TrayStatus::AllOk]);
    assert!(matches!(actions[0], Action::Notify(_)));
    assert!(matches!(actions[1], Action::Tray(TrayStatus::Recovered)));
    assert!(matches!(actions[2], Action::Tray(TrayStatus::AllOk)));
    assert!(matches!(actions[3], Action::Emit(_)));
    let actions = state.on_fetched(report(vec![service("a", true)]), T0 + 600);
    assert!(notifications(&actions).is_empty());
}

#[test]
fn two_failures_are_forgotten() {
    let mut state = state(&[]);
    state.on_fetch_failed("x", T0);
    state.on_fetch_failed("x", T0);
    state.on_fetched(report(vec![]), T0);
    state.on_fetch_failed("x", T0);
    let actions = state.on_fetch_failed("x", T0);
    assert!(notifications(&actions).is_empty());
    assert!(!state.api_was_down);
}

#[test]
fn counts_of_models_that_are_not_watched_stay() {
    let mut state = state(&[]);
    state.process_raw(report(vec![service("a", false), service("b", false)]), T0);
    state.config.models = vec!["a".to_string()];
    state.process_raw(report(vec![service("a", true), service("b", false)]), T0);
    assert_eq!(state.fail_streak.get("a"), Some(&0));
    assert_eq!(state.fail_streak.get("b"), Some(&1));
    assert!(state.last_ok.get("b").is_none());
    state.config.models = vec![];
    state.process_raw(report(vec![service("b", false)]), T0);
    assert_eq!(state.fail_streak.get("b"), Some(&2));
    assert_eq!(state.last_ok.get("b"), Some(&false));
}

#[test]
fn there_is_room_until_a_count_is_full() {
    let mut state = state(&[]);
    let down = || report(vec![service("a", false)]);
    assert!(state.room_for(&down()));
    state.fail_streak.insert("a".to_string(), u32::MAX);
    assert!(!state.room_for(&down()));
    assert!(state.room_for(&report(vec![service("a", true)])));
    assert!(state.room_for(&report(vec![service("b", false)])));
    state.fail_streak.insert("a".to_string(), u32::MAX - 1);
    assert!(state.room_for(&down()));
    state.process_raw(down(), T0);
    assert_eq!(state.fail_streak.get("a"), Some(&u32::MAX));
}

#[test]
fn a_source_that_is_reached_is_back_without_a_report() {
    let mut state = state(&[]);
    assert!(state.on_reached(T0).is_empty());
    for i in 0..3 {
        state.on_fetch_failed("x", T0 + i);
    }
    let actions = state.on_reached(T0 + 60);
    assert_eq!(
        notifications(&actions),
        vec![(NotifyKind::SourceUp, "监控页面已恢复连接".to_string())]
    );
    assert_eq!(trays(&actions), vec![TrayStatus::Recovered]);
    assert!(!state.api_was_down);
    assert_eq!(state.api_fail_streak, 0);
    assert!(!state.baseline_done);
    assert!(state.get_status().is_none());
}
