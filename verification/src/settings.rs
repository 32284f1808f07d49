//! How new settings are put in force.

use vstd::prelude::*;

use crate::config::{AppConfig, AppConfigView};
use crate::state::{AppState, AppStateView};
use crate::window::{outcome, HudWish};

verus! {

/// A call that a change of the settings makes.
#[derive(Clone, Copy, Debug, PartialEq, Eq, Structural)]
pub enum SettingsCall {
    /// Ask whether the program starts with the system.
    AskAutostart,
    /// Make it start with the system.
    EnableAutostart,
    /// Make it not start with the system.
    DisableAutostart,
    /// Save the settings.
    Save,
    /// Show or hide the floating window.
    Hud(HudWish),
}

/// How such a call returned.
pub enum SettingsReply {
    /// Whether the program starts with the system.
    Autostart(bool),
    /// The call did what it should.
    Done,
    /// The call failed.
    Failed(String),
}

/// How it goes on with a change of the settings.
pub enum SettingsNext {
    /// This is called next.
    Call(SettingsCall),
    /// All is done, or a call failed with a message.
    Finished(Result<(), String>),
}

/// What a [`SettingsReply`] holds.
pub enum SettingsReplyView {
    Autostart(bool),
    Done,
    Failed(Seq<char>),
}

/// What a [`SettingsNext`] holds.
pub enum SettingsNextView {
    Call(SettingsCall),
    Finished(Result<(), Seq<char>>),
}

impl View for SettingsReply {
    type V = SettingsReplyView;

    open spec fn view(&self) -> SettingsReplyView {
        match self {
            SettingsReply::Autostart(on) => SettingsReplyView::Autostart(*on),
            SettingsReply::Done => SettingsReplyView::Done,
            SettingsReply::Failed(error) => SettingsReplyView::Failed(error@),
        }
    }
}

impl View for SettingsNext {
    type V = SettingsNextView;

    open spec fn view(&self) -> SettingsNextView {
        match self {
            SettingsNext::Call(call) => SettingsNextView::Call(*call),
            SettingsNext::Finished(result) => SettingsNextView::Finished(outcome(*result)),
        }
    }
}

/// Whether a call can return in this way.
pub open spec fn can_return(call: SettingsCall, reply: SettingsReplyView) -> bool {
    match reply {
        SettingsReplyView::Autostart(_) => call == SettingsCall::AskAutostart,
        SettingsReplyView::Done => call != SettingsCall::AskAutostart,
        SettingsReplyView::Failed(_) => true,
    }
}

impl AppStateView {
    /// The state with new settings in force.
    pub open spec fn with_config(self, config: AppConfigView) -> AppStateView {
        AppStateView { config, ..self }
    }

    /// The state and what follows once a call has returned that was made to put `config` in
    /// force. A failure ends it. The settings are in force once the start with the system is as
    /// they want it; then they are saved; then the floating window is shown or hidden.
    pub open spec fn settings_after(
        self,
        config: AppConfigView,
        call: SettingsCall,
        reply: SettingsReplyView,
    ) -> (AppStateView, SettingsNextView) {
        match reply {
            SettingsReplyView::Failed(error) => (self, SettingsNextView::Finished(Err(error))),
            SettingsReplyView::Autostart(on) => if config.autostart == on {
                (self.with_config(config), SettingsNextView::Call(SettingsCall::Save))
            } else if config.autostart {
                (self, SettingsNextView::Call(SettingsCall::EnableAutostart))
            } else {
                (self, SettingsNextView::Call(SettingsCall::DisableAutostart))
            },
            SettingsReplyView::Done => match call {
                SettingsCall::EnableAutostart | SettingsCall::DisableAutostart => (
                    self.with_config(config),
                    SettingsNextView::Call(SettingsCall::Save),
                ),
                SettingsCall::Save => (
                    self,
                    SettingsNextView::Call(
                        SettingsCall::Hud(
                            if config.hud_enabled {
                                HudWish::Show
                            } else {
                                HudWish::Hide
                            },
                        ),
                    ),
                ),
                _ => (self, SettingsNextView::Finished(Ok(()))),
            },
        }
    }
}

/// A change of the settings that is under way.
pub struct SettingsChange {
    /// The new settings.
    pub config: AppConfig,
}

impl SettingsChange {
    /// Whether the new settings are in range.
    pub open spec fn wf(self) -> bool {
        self.config@.is_sane()
    }

    /// Begins to put settings in force, with every number moved into its range.
    pub fn begin(config: AppConfig) -> (change: Self)
        ensures
            change.config@ == config@.sanitized(),
            change.wf(),
    {
        SettingsChange { config: config.sanitized() }
    }

    /// The call that a change of the settings makes first.
    pub fn first_call(&self) -> (call: SettingsCall)
        ensures
            call == SettingsCall::AskAutostart,
    {
        SettingsCall::AskAutostart
    }

    /// Takes into account that a call has returned.
    pub fn on_reply(&self, state: &mut AppState, call: SettingsCall, reply: SettingsReply) -> (next:
        SettingsNext)
        requires
            self.wf(),
            can_return(call, reply@),
        ensures
            final(state)@ == old(state)@.settings_after(self.config@, call, reply@).0,
            next@ == old(state)@.settings_after(self.config@, call, reply@).1,
            old(state).wf() ==> final(state).wf(),
    {
        match reply {
            SettingsReply::Failed(error) => SettingsNext::Finished(Err(error)),
            SettingsReply::Autostart(on) => {
                if self.config.autostart == on {
                    state.config = self.config.clone();
                    SettingsNext::Call(SettingsCall::Save)
                } else if self.config.autostart {
                    SettingsNext::Call(SettingsCall::EnableAutostart)
                } else {
                    SettingsNext::Call(SettingsCall::DisableAutostart)
                }
            },
            SettingsReply::Done => match call {
                SettingsCall::EnableAutostart | SettingsCall::DisableAutostart => {
                    state.config = self.config.clone();
                    SettingsNext::Call(SettingsCall::Save)
                },
                SettingsCall::Save => {
                    let wish = if self.config.hud_enabled {
                        HudWish::Show
                    } else {
                        HudWish::Hide
                    };
                    SettingsNext::Call(SettingsCall::Hud(wish))
                },
                _ => SettingsNext::Finished(Ok(())),
            },
        }
    }
}

} // verus!
