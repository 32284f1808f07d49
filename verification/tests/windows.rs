use ai_status_watcher::config::AppConfig;
use ai_status_watcher::poll::{PollTimer, TICK_MS};
use ai_status_watcher::settings::{SettingsCall, SettingsChange, SettingsNext, SettingsReply};
use ai_status_watcher::state::AppState;
use ai_status_watcher::window::{
    hud_begin, hud_toggle, menu_command, HudCall, HudNext, HudWish, MenuCommand,
};

fn call_of(next: HudNext) -> HudCall {
    match next {
        HudNext::Call(call) => call,
        HudNext::Finished(_) => panic!("finished"),
    }
}

fn error_of(next: HudNext) -> String {
    match next {
        HudNext::Finished(Err(error)) => error,
        _ => panic!("no error"),
    }
}

/// Shows the floating window, every call succeeding; gives the calls made.
fn show(state: &mut AppState) -> Vec<HudCall> {
    let mut calls = Vec::new();
    let mut next = hud_begin(HudWish::Show, true);
    while let HudNext::Call(call) = next {
        calls.push(call);
        next = state.on_hud_reply(call, Ok(()));
    }
    assert!(matches!(next, HudNext::Finished(Ok(()))));
    calls
}

#[test]
fn the_hud_is_placed_when_it_is_first_shown() {
    let mut state = AppState::new(None);
    assert_eq!(
        show(&mut state),
        vec![HudCall::Pin, HudCall::Show, HudCall::Place, HudCall::AskVisible]
    );
    assert!(state.hud_pos_set);
    assert_eq!(show(&mut state), vec![HudCall::Pin, HudCall::Show, HudCall::AskVisible]);
}

#[test]
fn a_hud_that_could_not_be_placed_is_not_placed_again() {
    let mut state = AppState::new(None);
    assert_eq!(call_of(state.on_hud_reply(HudCall::Show, Ok(()))), HudCall::Place);
    assert_eq!(error_of(state.on_hud_reply(HudCall::Place, Err("no".to_string()))), "no");
    assert_eq!(show(&mut state), vec![HudCall::Pin, HudCall::Show, HudCall::AskVisible]);
}

#[test]
fn a_failed_call_ends_showing() {
    let mut state = AppState::new(None);
    for call in [HudCall::Pin, HudCall::Show, HudCall::AskVisible, HudCall::Hide] {
        assert_eq!(error_of(state.on_hud_reply(call, Err("broken".to_string()))), "broken");
    }
    assert!(!state.hud_pos_set);
}

#[test]
fn a_missing_hud_is_an_error() {
    assert_eq!(error_of(hud_begin(HudWish::Show, false)), "HUD 窗口不存在");
    assert_eq!(error_of(hud_begin(HudWish::Hide, false)), "HUD 窗口不存在");
}

#[test]
fn the_hud_is_hidden() {
    let mut state = AppState::new(None);
    assert_eq!(call_of(hud_begin(HudWish::Hide, true)), HudCall::Hide);
    assert!(matches!(state.on_hud_reply(HudCall::Hide, Ok(())), HudNext::Finished(Ok(()))));
    assert!(!state.hud_pos_set);
}

#[test]
fn the_hud_is_toggled() {
    assert_eq!(hud_toggle(true), HudWish::Hide);
    assert_eq!(hud_toggle(false), HudWish::Show);
}

#[test]
fn a_ready_hud_is_shown_if_it_is_enabled() {
    assert_eq!(AppState::new(None).hud_ready(), None);
    let config = AppConfig { hud_enabled: true, ..AppConfig::default() };
    assert_eq!(AppState::new(Some(config)).hud_ready(), Some(HudWish::Show));
}

#[test]
fn menu_entries() {
    assert_eq!(menu_command("open"), MenuCommand::OpenMain);
    assert_eq!(menu_command("check"), MenuCommand::CheckNow);
    assert_eq!(menu_command("hud"), MenuCommand::ToggleHud);
    assert_eq!(menu_command("quit"), MenuCommand::Nothing);
    assert_eq!(menu_command(""), MenuCommand::Nothing);
    assert_eq!(menu_command("opens"), MenuCommand::Nothing);
}

#[test]
fn the_first_start_shows_the_main_window() {
    let state = AppState::new(None);
    assert!(state.startup(None).show_main);
    assert!(state.startup(Some(false)).show_main);
    assert!(!state.startup(Some(true)).show_main);
    assert!(!state.startup(Some(true)).enable_autostart);
    let config = AppConfig { autostart: true, ..AppConfig::default() };
    assert!(AppState::new(Some(config)).startup(Some(true)).enable_autostart);
}

#[test]
fn the_second_start_stays_in_the_background() {
    let first = AppState::new(None);
    let startup = first.startup(Some(false));
    assert!(startup.show_main);
    assert!(startup.save_settings);
    let saved = first.get_config();
    let second = AppState::new(Some(saved));
    let startup = second.startup(Some(true));
    assert!(!startup.show_main);
    assert!(!startup.save_settings);
    assert_eq!(second.config.poll_secs, first.config.poll_secs);
    assert_eq!(second.config.fail_threshold, first.config.fail_threshold);
    assert_eq!(second.config.cooldown_secs, first.config.cooldown_secs);
    assert_eq!(second.config.models, first.config.models);
}

#[test]
fn nothing_is_saved_where_no_place_is_known() {
    let startup = AppState::new(None).startup(None);
    assert!(startup.show_main);
    assert!(!startup.save_settings);
}

#[test]
fn a_change_of_the_settings_first_asks_about_autostart() {
    let change = SettingsChange::begin(settings(true, false));
    assert_eq!(change.first_call(), SettingsCall::AskAutostart);
}

/// Puts settings in force, every call succeeding; gives the calls made.
fn put_in_force(state: &mut AppState, config: AppConfig, on: bool) -> Vec<SettingsCall> {
    let change = SettingsChange::begin(config);
    let mut calls = Vec::new();
    let mut next = SettingsNext::Call(change.first_call());
    while let SettingsNext::Call(call) = next {
        calls.push(call);
        let reply = if call == SettingsCall::AskAutostart {
            SettingsReply::Autostart(on)
        } else {
            SettingsReply::Done
        };
        next = change.on_reply(state, call, reply);
    }
    assert!(matches!(next, SettingsNext::Finished(Ok(()))));
    calls
}

fn settings(autostart: bool, hud_enabled: bool) -> AppConfig {
    AppConfig { poll_secs: 1, autostart, hud_enabled, ..AppConfig::default() }
}

#[test]
fn settings_are_put_in_force() {
    let mut state = AppState::new(None);
    assert_eq!(
        put_in_force(&mut state, settings(true, true), false),
        vec![
            SettingsCall::AskAutostart,
            SettingsCall::EnableAutostart,
            SettingsCall::Save,
            SettingsCall::Hud(HudWish::Show),
        ]
    );
    assert_eq!(state.config.poll_secs, 5);
    assert!(state.config.autostart);
    assert_eq!(
        put_in_force(&mut state, settings(false, false), true),
        vec![
            SettingsCall::AskAutostart,
            SettingsCall::DisableAutostart,
            SettingsCall::Save,
            SettingsCall::Hud(HudWish::Hide),
        ]
    );
    assert!(!state.config.autostart);
    for on in [true, false] {
        assert_eq!(
            put_in_force(&mut state, settings(on, true), on),
            vec![
                SettingsCall::AskAutostart,
                SettingsCall::Save,
                SettingsCall::Hud(HudWish::Show),
            ]
        );
    }
}

#[test]
fn settings_are_not_in_force_where_autostart_fails() {
    for call in [
        SettingsCall::AskAutostart,
        SettingsCall::EnableAutostart,
        SettingsCall::DisableAutostart,
    ] {
        let mut state = AppState::new(None);
        let change = SettingsChange::begin(settings(true, true));
        match change.on_reply(&mut state, call, SettingsReply::Failed("denied".to_string())) {
            SettingsNext::Finished(Err(error)) => assert_eq!(error, "denied"),
            _ => panic!("no error"),
        }
        assert_eq!(state.config.poll_secs, 20);
        assert!(!state.config.autostart);
    }
}

#[test]
fn settings_that_could_not_be_saved_are_in_force() {
    let mut state = AppState::new(None);
    let change = SettingsChange::begin(settings(false, true));
    let next = change.on_reply(&mut state, SettingsCall::AskAutostart, SettingsReply::Autostart(false));
    assert!(matches!(next, SettingsNext::Call(SettingsCall::Save)));
    let next = change.on_reply(&mut state, SettingsCall::Save, SettingsReply::Failed("full".to_string()));
    match next {
        SettingsNext::Finished(Err(error)) => assert_eq!(error, "full"),
        _ => panic!("no error"),
    }
    assert!(state.config.hud_enabled);
    assert_eq!(change.config.poll_secs, 5);
}

#[test]
fn polls_keep_their_interval() {
    let mut state = AppState::new(Some(settings(false, false)));
    let mut timer = PollTimer::new();
    let mut due = Vec::new();
    for tick in 0..35u64 {
        if timer.tick(&mut state) {
            due.push(tick * TICK_MS);
        }
    }
    assert_eq!(due, vec![0, 5000, 10000, 15000]);
}

#[test]
fn a_requested_poll_is_due_at_once() {
    let mut state = AppState::new(None);
    let mut timer = PollTimer::new();
    assert!(timer.tick(&mut state));
    assert!(!timer.tick(&mut state));
    state.check_now();
    assert!(state.check_requested);
    assert!(timer.tick(&mut state));
    assert!(!state.check_requested);
    assert_eq!(timer.waited_ms, 500);
    assert!(!timer.tick(&mut state));
}

#[test]
fn a_new_interval_counts_at_once() {
    let mut state = AppState::new(None);
    let mut timer = PollTimer::new();
    assert!(timer.tick(&mut state));
    for _ in 0..12 {
        assert!(!timer.tick(&mut state));
    }
    put_in_force(&mut state, settings(false, false), false);
    assert!(timer.tick(&mut state));
}
