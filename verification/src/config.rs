//! The user's settings.

use vstd::prelude::*;

verus! {

pub const MIN_POLL_SECS: u64 = 5;

pub const MAX_POLL_SECS: u64 = 3600;

pub const MIN_FAIL_THRESHOLD: u32 = 1;

pub const MAX_FAIL_THRESHOLD: u32 = 10;

pub const MIN_COOLDOWN_SECS: u64 = 10;

pub const MAX_COOLDOWN_SECS: u64 = 86400;

/// The settings that the user can change.
pub struct AppConfig {
    /// The models to watch; none means all of them.
    pub models: Vec<String>,
    /// Seconds between two polls.
    pub poll_secs: u64,
    /// How many failures in a row make a model count as down.
    pub fail_threshold: u32,
    /// Seconds that must pass before a notification of one kind is repeated.
    pub cooldown_secs: u64,
    /// Whether notifications play a sound.
    pub notify_sound: bool,
    /// Whether a recovery is notified.
    pub notify_recovery: bool,
    /// Whether the program starts with the system.
    pub autostart: bool,
    /// Whether the floating status window is shown.
    pub hud_enabled: bool,
}

/// What an [`AppConfig`] holds.
pub struct AppConfigView {
    pub models: Seq<Seq<char>>,
    pub poll_secs: u64,
    pub fail_threshold: u32,
    pub cooldown_secs: u64,
    pub notify_sound: bool,
    pub notify_recovery: bool,
    pub autostart: bool,
    pub hud_enabled: bool,
}

impl View for AppConfig {
    type V = AppConfigView;

    open spec fn view(&self) -> AppConfigView {
        AppConfigView {
            models: self.models.deep_view(),
            poll_secs: self.poll_secs,
            fail_threshold: self.fail_threshold,
            cooldown_secs: self.cooldown_secs,
            notify_sound: self.notify_sound,
            notify_recovery: self.notify_recovery,
            autostart: self.autostart,
            hud_enabled: self.hud_enabled,
        }
    }
}

impl DeepView for AppConfig {
    type V = AppConfigView;

    open spec fn deep_view(&self) -> AppConfigView {
        self@
    }
}

/// The value in `lo..=hi` that is nearest to `x`.
pub open spec fn clamped(x: int, lo: int, hi: int) -> int {
    if x < lo {
        lo
    } else if x > hi {
        hi
    } else {
        x
    }
}

impl AppConfigView {
    /// Whether every number is in its range.
    pub open spec fn is_sane(self) -> bool {
        &&& MIN_POLL_SECS <= self.poll_secs <= MAX_POLL_SECS
        &&& MIN_FAIL_THRESHOLD <= self.fail_threshold <= MAX_FAIL_THRESHOLD
        &&& MIN_COOLDOWN_SECS <= self.cooldown_secs <= MAX_COOLDOWN_SECS
    }

    /// These settings with every number moved into its range.
    pub open spec fn sanitized(self) -> AppConfigView {
        AppConfigView {
            poll_secs: clamped(
                self.poll_secs as int,
                MIN_POLL_SECS as int,
                MAX_POLL_SECS as int,
            ) as u64,
            fail_threshold: clamped(
                self.fail_threshold as int,
                MIN_FAIL_THRESHOLD as int,
                MAX_FAIL_THRESHOLD as int,
            ) as u32,
            cooldown_secs: clamped(
                self.cooldown_secs as int,
                MIN_COOLDOWN_SECS as int,
                MAX_COOLDOWN_SECS as int,
            ) as u64,
            ..self
        }
    }

    /// The settings of a first start.
    pub open spec fn initial() -> AppConfigView {
        AppConfigView {
            models: Seq::empty(),
            poll_secs: 20,
            fail_threshold: 2,
            cooldown_secs: 120,
            notify_sound: true,
            notify_recovery: true,
            autostart: false,
            hud_enabled: false,
        }
    }
}

/// The settings that a start begins with, given what was read back of those saved before.
pub open spec fn settings_at_start(saved: Option<AppConfigView>) -> AppConfigView {
    match saved {
        Some(config) => config.sanitized(),
        None => AppConfigView::initial().sanitized(),
    }
}

impl Default for AppConfig {
    fn default() -> (config: Self)
        ensures
            config@ == AppConfigView::initial(),
    {
        let config = AppConfig {
            models: Vec::new(),
            poll_secs: 20,
            fail_threshold: 2,
            cooldown_secs: 120,
            notify_sound: true,
            notify_recovery: true,
            autostart: false,
            hud_enabled: false,
        };
        assert(config@.models =~= AppConfigView::initial().models);
        config
    }
}

impl Clone for AppConfig {
    fn clone(&self) -> (copy: Self)
        ensures
            copy@ == self@,
    {
        let models = self.models.clone();
        assert(models.deep_view() =~= self.models.deep_view());
        AppConfig {
            models,
            poll_secs: self.poll_secs,
            fail_threshold: self.fail_threshold,
            cooldown_secs: self.cooldown_secs,
            notify_sound: self.notify_sound,
            notify_recovery: self.notify_recovery,
            autostart: self.autostart,
            hud_enabled: self.hud_enabled,
        }
    }
}

/// The value in `lo..=hi` that is nearest to `x`.
fn clamp(x: u64, lo: u64, hi: u64) -> (y: u64)
    requires
        lo <= hi,
    ensures
        y == clamped(x as int, lo as int, hi as int),
{
    if x < lo {
        lo
    } else if x > hi {
        hi
    } else {
        x
    }
}

impl AppConfig {
    /// These settings with every number moved into its range.
    pub fn sanitized(self) -> (config: Self)
        ensures
            config@ == self@.sanitized(),
            config@.is_sane(),
            keeps_settings(config@, self@),
    {
        AppConfig {
            poll_secs: clamp(self.poll_secs, MIN_POLL_SECS, MAX_POLL_SECS),
            fail_threshold: clamp(
                self.fail_threshold as u64,
                MIN_FAIL_THRESHOLD as u64,
                MAX_FAIL_THRESHOLD as u64,
            ) as u32,
            cooldown_secs: clamp(self.cooldown_secs, MIN_COOLDOWN_SECS, MAX_COOLDOWN_SECS),
            ..self
        }
    }
}

/// The settings to start with: those that were saved, if they could be read back, else the
/// initial ones, in either case with every number in its range.
pub fn load_config(saved: Option<AppConfig>) -> (config: AppConfig)
    ensures
        config@ == settings_at_start(saved.deep_view()),
        config@.is_sane(),
        saved.deep_view() matches Some(read) ==> keeps_settings(config@, read),
{
    match saved {
        Some(config) => config.sanitized(),
        None => AppConfig::default().sanitized(),
    }
}

/// Settings whose numbers are all in range stay as they are.
pub proof fn sane_settings_are_kept(config: AppConfigView)
    requires
        config.is_sane(),
    ensures
        config.sanitized() == config,
{
}

/// To sanitize twice is to sanitize once, and what comes out is in range.
pub proof fn sanitizing_is_idempotent(config: AppConfigView)
    ensures
        config.sanitized().is_sane(),
        config.sanitized().sanitized() == config.sanitized(),
{
}

/// The initial settings are in range.
pub proof fn initial_settings_are_sane()
    ensures
        AppConfigView::initial().is_sane(),
        AppConfigView::initial().sanitized() == AppConfigView::initial(),
{
}

/// Whether `y` is `x` where that is in `lo..=hi`, and else the bound that `x` is beyond.
pub open spec fn is_moved_into(y: int, x: int, lo: int, hi: int) -> bool {
    &&& lo <= y <= hi
    &&& lo <= x <= hi ==> y == x
    &&& x < lo ==> y == lo
    &&& x > hi ==> y == hi
}

/// Whether `kept` differs from `config` in its three numbers at most: polls are 5 seconds to an
/// hour apart, it takes 1 to 10 failures for a model to count as down, and the cooldown is 10
/// seconds to a day; a number that is in range stays as it is.
pub open spec fn keeps_settings(kept: AppConfigView, config: AppConfigView) -> bool {
    &&& kept.models == config.models
    &&& kept.notify_sound == config.notify_sound
    &&& kept.notify_recovery == config.notify_recovery
    &&& kept.autostart == config.autostart
    &&& kept.hud_enabled == config.hud_enabled
    &&& is_moved_into(kept.poll_secs as int, config.poll_secs as int, 5, 3600)
    &&& is_moved_into(kept.fail_threshold as int, config.fail_threshold as int, 1, 10)
    &&& is_moved_into(kept.cooldown_secs as int, config.cooldown_secs as int, 10, 86400)
}

/// A start that reads back settings begins with them: every field but the three numbers is kept,
/// and so is every number that is in range, so that settings whose numbers all are in range are
/// kept as they are.
pub proof fn read_back_settings_are_kept(config: AppConfigView)
    ensures
        keeps_settings(settings_at_start(Some(config)), config),
        5 <= config.poll_secs <= 3600 && 1 <= config.fail_threshold <= 10 && 10
            <= config.cooldown_secs <= 86400 ==> settings_at_start(Some(config)) == config,
{
}

/// To sanitize settings keeps them in the same way.
pub proof fn sanitized_settings_are_kept(config: AppConfigView)
    ensures
        keeps_settings(config.sanitized(), config),
        config.is_sane() <==> 5 <= config.poll_secs <= 3600 && 1 <= config.fail_threshold <= 10
            && 10 <= config.cooldown_secs <= 86400,
{
}

/// A start that reads back nothing watches all models, polls every 20 seconds, takes two failures
/// in a row for an outage, repeats itself after two minutes at the earliest, plays a sound, tells
/// of recoveries, does not start with the system and does not show the floating window.
pub proof fn start_without_settings()
    ensures
        ({
            let config = settings_at_start(None);
            &&& config.models.len() == 0
            &&& config.poll_secs == 20
            &&& config.fail_threshold == 2
            &&& config.cooldown_secs == 120
            &&& config.notify_sound && config.notify_recovery
            &&& !config.autostart && !config.hud_enabled
        }),
{
}

} // verus!
