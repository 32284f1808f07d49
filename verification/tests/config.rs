use ai_status_watcher::config::{load_config, AppConfig};

#[test]
fn config_sanitize_clamps() {
    let cfg = AppConfig {
        models: vec![],
        poll_secs: 1,
        fail_threshold: 0,
        cooldown_secs: 0,
        notify_sound: true,
        notify_recovery: true,
        autostart: false,
        hud_enabled: false,
    }
    .sanitized();
    assert_eq!(cfg.poll_secs, 5);
    assert_eq!(cfg.fail_threshold, 1);
    assert_eq!(cfg.cooldown_secs, 10);
}

fn config(poll_secs: u64, fail_threshold: u32, cooldown_secs: u64) -> AppConfig {
    AppConfig {
        models: vec!["b".to_string(), "a".to_string()],
        poll_secs,
        fail_threshold,
        cooldown_secs,
        notify_sound: false,
        notify_recovery: false,
        autostart: true,
        hud_enabled: true,
    }
}

fn numbers(cfg: &AppConfig) -> (u64, u32, u64) {
    (cfg.poll_secs, cfg.fail_threshold, cfg.cooldown_secs)
}

#[test]
fn large_numbers_come_down() {
    let cfg = config(u64::MAX, u32::MAX, u64::MAX).sanitized();
    assert_eq!(numbers(&cfg), (3600, 10, 86400));
}

#[test]
fn bounds_are_in_range() {
    assert_eq!(numbers(&config(5, 1, 10).sanitized()), (5, 1, 10));
    assert_eq!(numbers(&config(3600, 10, 86400).sanitized()), (3600, 10, 86400));
    assert_eq!(numbers(&config(4, 11, 86401).sanitized()), (5, 10, 86400));
}

#[test]
fn sanitizing_keeps_the_rest() {
    let cfg = config(30, 3, 60).sanitized();
    assert_eq!(numbers(&cfg), (30, 3, 60));
    assert_eq!(cfg.models, vec!["b".to_string(), "a".to_string()]);
    assert!(!cfg.notify_sound);
    assert!(!cfg.notify_recovery);
    assert!(cfg.autostart);
    assert!(cfg.hud_enabled);
}

#[test]
fn sanitizing_twice_is_sanitizing_once() {
    let once = config(1, 99, 7).sanitized();
    let twice = once.clone().sanitized();
    assert_eq!(numbers(&once), numbers(&twice));
    assert_eq!(once.models, twice.models);
}

#[test]
fn initial_settings() {
    let cfg = AppConfig::default();
    assert!(cfg.models.is_empty());
    assert_eq!(numbers(&cfg), (20, 2, 120));
    assert!(cfg.notify_sound);
    assert!(cfg.notify_recovery);
    assert!(!cfg.autostart);
    assert!(!cfg.hud_enabled);
    assert_eq!(numbers(&cfg.clone().sanitized()), (20, 2, 120));
}

#[test]
fn saved_settings_are_sanitized_when_loaded() {
    assert_eq!(numbers(&load_config(Some(config(1, 0, 0)))), (5, 1, 10));
    assert!(load_config(Some(config(1, 0, 0))).autostart);
}

#[test]
fn unreadable_settings_give_the_initial_ones() {
    let cfg = load_config(None);
    assert_eq!(numbers(&cfg), (20, 2, 120));
    assert!(!cfg.autostart);
}
