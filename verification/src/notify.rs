//! Notifications, the tray's tooltip, and how often a notification may be repeated.

use vstd::prelude::*;

use crate::config::{AppConfig, AppConfigView};
use crate::status::{StatusSnapshot, StatusSnapshotView};

verus! {

/// What a notification is about.
#[derive(Clone, Copy, Debug, PartialEq, Eq, Structural)]
pub enum NotifyKind {
    /// Watched models went down.
    Degraded,
    /// All watched models are up again.
    Recovered,
    /// The status page cannot be reached.
    SourceDown,
    /// The status page can be reached again.
    SourceUp,
}

/// What the tray stands for.
#[derive(Clone, Copy, Debug, PartialEq, Eq, Structural)]
pub enum TrayStatus {
    AllOk,
    Degraded,
    SourceDown,
    Recovered,
}

/// A notification to show.
#[derive(Debug)]
pub struct Notification {
    pub kind: NotifyKind,
    pub title: &'static str,
    pub body: String,
    /// The name of the sound to play, if any.
    pub sound: Option<&'static str>,
}

/// Something for the surroundings to do.
#[derive(Debug)]
pub enum Action {
    /// Show a notification.
    Notify(Notification),
    /// Set the tray's tooltip.
    Tray(TrayStatus),
    /// Hand a snapshot to the windows.
    Emit(StatusSnapshot),
}

/// What a [`Notification`] holds.
pub struct NotificationView {
    pub kind: NotifyKind,
    pub title: Seq<char>,
    pub body: Seq<char>,
    pub sound: Option<Seq<char>>,
}

/// What an [`Action`] holds.
pub enum ActionView {
    Notify(NotificationView),
    Tray(TrayStatus),
    Emit(StatusSnapshotView),
}

impl View for Notification {
    type V = NotificationView;

    open spec fn view(&self) -> NotificationView {
        NotificationView {
            kind: self.kind,
            title: self.title@,
            body: self.body@,
            sound: self.sound.deep_view(),
        }
    }
}

impl View for Action {
    type V = ActionView;

    open spec fn view(&self) -> ActionView {
        match self {
            Action::Notify(notification) => ActionView::Notify(notification@),
            Action::Tray(status) => ActionView::Tray(*status),
            Action::Emit(snapshot) => ActionView::Emit(snapshot@),
        }
    }
}

impl DeepView for Action {
    type V = ActionView;

    open spec fn deep_view(&self) -> ActionView {
        self@
    }
}

/// The title of a notification.
pub open spec fn title_of(kind: NotifyKind) -> Seq<char> {
    match kind {
        NotifyKind::Degraded => "AI.INPUT.IM 服务降级"@,
        NotifyKind::Recovered => "AI.INPUT.IM 服务已恢复"@,
        NotifyKind::SourceDown => "AI.INPUT.IM 监控源不可达"@,
        NotifyKind::SourceUp => "AI.INPUT.IM 通知"@,
    }
}

/// The sound of a notification.
pub open spec fn sound_of(kind: NotifyKind) -> Seq<char> {
    match kind {
        NotifyKind::Degraded | NotifyKind::SourceDown => "Sosumi"@,
        NotifyKind::Recovered | NotifyKind::SourceUp => "Glass"@,
    }
}

/// The notification of `kind` with the given text, as the settings would have it.
pub open spec fn notification_of(
    config: AppConfigView,
    kind: NotifyKind,
    body: Seq<char>,
) -> NotificationView {
    NotificationView {
        kind,
        title: title_of(kind),
        body,
        sound: if config.notify_sound {
            Some(sound_of(kind))
        } else {
            None
        },
    }
}

/// The notification of `kind` with the given text, as the settings would have it.
pub fn compose_notification(config: &AppConfig, kind: NotifyKind, body: String) -> (notification:
    Notification)
    ensures
        notification@ == notification_of(config@, kind, body@),
{
    let title: &'static str = match kind {
        NotifyKind::Degraded => "AI.INPUT.IM 服务降级",
        NotifyKind::Recovered => "AI.INPUT.IM 服务已恢复",
        NotifyKind::SourceDown => "AI.INPUT.IM 监控源不可达",
        NotifyKind::SourceUp => "AI.INPUT.IM 通知",
    };
    let sound: Option<&'static str> = if config.notify_sound {
        match kind {
            NotifyKind::Degraded | NotifyKind::SourceDown => Some("Sosumi"),
            NotifyKind::Recovered | NotifyKind::SourceUp => Some("Glass"),
        }
    } else {
        None
    };
    Notification { kind, title, body, sound }
}

/// The tray's tooltip.
pub open spec fn tooltip_of(status: TrayStatus) -> Seq<char> {
    match status {
        TrayStatus::AllOk => "AI 状态：全部正常"@,
        TrayStatus::Degraded => "AI 状态：服务降级"@,
        TrayStatus::SourceDown => "AI 状态：监控源不可达"@,
        TrayStatus::Recovered => "AI 状态"@,
    }
}

/// The tray's tooltip.
pub fn tooltip(status: TrayStatus) -> (text: &'static str)
    ensures
        text@ == tooltip_of(status),
{
    match status {
        TrayStatus::AllOk => "AI 状态：全部正常",
        TrayStatus::Degraded => "AI 状态：服务降级",
        TrayStatus::SourceDown => "AI 状态：监控源不可达",
        TrayStatus::Recovered => "AI 状态",
    }
}

/// When a notification of each kind was last shown, in seconds since the epoch; 0 where none
/// was.
#[derive(Clone, Copy, Debug)]
pub struct NotifyTimes {
    pub degraded: u64,
    pub recovered: u64,
    pub source_down: u64,
    pub source_up: u64,
}

impl NotifyTimes {
    /// When a notification of `kind` was last shown.
    pub open spec fn at(self, kind: NotifyKind) -> u64 {
        match kind {
            NotifyKind::Degraded => self.degraded,
            NotifyKind::Recovered => self.recovered,
            NotifyKind::SourceDown => self.source_down,
            NotifyKind::SourceUp => self.source_up,
        }
    }

    /// These times, with `now` for `kind`.
    pub open spec fn with(self, kind: NotifyKind, now: u64) -> NotifyTimes {
        match kind {
            NotifyKind::Degraded => NotifyTimes { degraded: now, ..self },
            NotifyKind::Recovered => NotifyTimes { recovered: now, ..self },
            NotifyKind::SourceDown => NotifyTimes { source_down: now, ..self },
            NotifyKind::SourceUp => NotifyTimes { source_up: now, ..self },
        }
    }

    /// Whether `cooldown` seconds have passed at `now` since a notification of `kind` was last
    /// shown. None have passed where the clock stands before that time.
    pub open spec fn allows(self, kind: NotifyKind, now: u64, cooldown: u64) -> bool {
        cooldown == 0 || now - self.at(kind) >= cooldown
    }

    /// The times before anything was shown.
    pub fn new() -> (times: Self)
        ensures
            forall|kind: NotifyKind| times.at(kind) == 0,
    {
        NotifyTimes { degraded: 0, recovered: 0, source_down: 0, source_up: 0 }
    }

    /// Takes `now` as the time of a notification of `kind` if one may be shown, and says
    /// whether it may.
    pub fn claim(&mut self, kind: NotifyKind, now: u64, cooldown: u64) -> (allowed: bool)
        ensures
            allowed == old(self).allows(kind, now, cooldown),
            cooldown > 0 ==> (allowed <==> now - old(self).at(kind) >= cooldown),
            *final(self) == if allowed {
                old(self).with(kind, now)
            } else {
                *old(self)
            },
    {
        let last: u64 = match kind {
            NotifyKind::Degraded => self.degraded,
            NotifyKind::Recovered => self.recovered,
            NotifyKind::SourceDown => self.source_down,
            NotifyKind::SourceUp => self.source_up,
        };
        let passed: u64 = now.saturating_sub(last);
        if passed < cooldown {
            return false;
        }
        match kind {
            NotifyKind::Degraded => self.degraded = now,
            NotifyKind::Recovered => self.recovered = now,
            NotifyKind::SourceDown => self.source_down = now,
            NotifyKind::SourceUp => self.source_up = now,
        }
        true
    }
}

/// Nothing but the cooldown holds a notification back: one of a kind may be shown exactly if the
/// cooldown has passed since the last of that kind, however many there were; where there is no
/// cooldown, one may always be shown.
pub proof fn only_the_cooldown_holds_back(times: NotifyTimes, now: u64, cooldown: u64)
    ensures
        cooldown == 0 ==> forall|kind: NotifyKind| #[trigger] times.allows(kind, now, cooldown),
        cooldown > 0 ==> {
            &&& times.allows(NotifyKind::Degraded, now, cooldown) <==> now - times.degraded
                >= cooldown
            &&& times.allows(NotifyKind::Recovered, now, cooldown) <==> now - times.recovered
                >= cooldown
            &&& times.allows(NotifyKind::SourceDown, now, cooldown) <==> now - times.source_down
                >= cooldown
            &&& times.allows(NotifyKind::SourceUp, now, cooldown) <==> now - times.source_up
                >= cooldown
        },
{
}

/// The time of a notification is kept for its kind, and for no other: from then on one of that
/// kind may be shown exactly if the cooldown has passed since.
pub proof fn time_is_kept_for_the_kind(
    times: NotifyTimes,
    kind: NotifyKind,
    now: u64,
    later: u64,
    cooldown: u64,
)
    requires
        cooldown > 0,
    ensures
        ({
            let after = times.with(kind, now);
            &&& after.allows(kind, later, cooldown) <==> later - now >= cooldown
            &&& after.degraded == (if kind == NotifyKind::Degraded {
                now
            } else {
                times.degraded
            })
            &&& after.recovered == (if kind == NotifyKind::Recovered {
                now
            } else {
                times.recovered
            })
            &&& after.source_down == (if kind == NotifyKind::SourceDown {
                now
            } else {
                times.source_down
            })
            &&& after.source_up == (if kind == NotifyKind::SourceUp {
                now
            } else {
                times.source_up
            })
        }),
{
}

/// A notification carries the text that it was made with, has the title of its kind, and plays a
/// sound exactly if the settings say so: the one for trouble, or the one for good news.
pub proof fn notification_is_as_the_settings_say(
    config: AppConfigView,
    kind: NotifyKind,
    body: Seq<char>,
)
    ensures
        ({
            let made = notification_of(config, kind, body);
            let trouble = kind == NotifyKind::Degraded || kind == NotifyKind::SourceDown;
            &&& made.kind == kind
            &&& made.body == body
            &&& made.sound is Some <==> config.notify_sound
            &&& made.sound == Some("Sosumi"@) <==> config.notify_sound && trouble
            &&& made.sound == Some("Glass"@) <==> config.notify_sound && !trouble
            &&& made.title == "AI.INPUT.IM 服务降级"@ <==> kind == NotifyKind::Degraded
            &&& made.title == "AI.INPUT.IM 服务已恢复"@ <==> kind == NotifyKind::Recovered
            &&& made.title == "AI.INPUT.IM 监控源不可达"@ <==> kind == NotifyKind::SourceDown
            &&& made.title == "AI.INPUT.IM 通知"@ <==> kind == NotifyKind::SourceUp
        }),
{
    reveal_strlit("Sosumi");
    reveal_strlit("Glass");
    reveal_strlit("AI.INPUT.IM 服务降级");
    reveal_strlit("AI.INPUT.IM 服务已恢复");
    reveal_strlit("AI.INPUT.IM 监控源不可达");
    reveal_strlit("AI.INPUT.IM 通知");
    assert("Sosumi"@.len() == 6 && "Glass"@.len() == 5);
    assert("AI.INPUT.IM 服务降级"@.len() == 16);
    assert("AI.INPUT.IM 服务已恢复"@.len() == 17);
    assert("AI.INPUT.IM 监控源不可达"@.len() == 18);
    assert("AI.INPUT.IM 通知"@.len() == 14);
}

/// The tray has its own words for each thing that it can stand for.
pub proof fn tray_has_its_words(status: TrayStatus)
    ensures
        tooltip_of(status) == "AI 状态：全部正常"@ <==> status == TrayStatus::AllOk,
        tooltip_of(status) == "AI 状态：服务降级"@ <==> status == TrayStatus::Degraded,
        tooltip_of(status) == "AI 状态：监控源不可达"@ <==> status == TrayStatus::SourceDown,
        tooltip_of(status) == "AI 状态"@ <==> status == TrayStatus::Recovered,
{
    reveal_strlit("AI 状态：全部正常");
    reveal_strlit("AI 状态：服务降级");
    reveal_strlit("AI 状态：监控源不可达");
    reveal_strlit("AI 状态");
    assert("AI 状态：全部正常"@[6] != "AI 状态：服务降级"@[6]);
    assert("AI 状态：全部正常"@.len() == 10 && "AI 状态：服务降级"@.len() == 10);
    assert("AI 状态：监控源不可达"@.len() == 12 && "AI 状态"@.len() == 5);
}

} // verus!
