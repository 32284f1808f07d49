//! The windows, the tray's menu and the start: what is called for, and what follows a call.

use vstd::prelude::*;

use crate::state::{AppState, AppStateView};
use crate::text::same_text;

verus! {

/// What is wanted of the floating window.
#[derive(Clone, Copy, Debug, PartialEq, Eq, Structural)]
pub enum HudWish {
    Show,
    Hide,
}

/// A call on the floating window.
#[derive(Clone, Copy, Debug, PartialEq, Eq, Structural)]
pub enum HudCall {
    /// Make it visible on all workspaces.
    Pin,
    /// Show it.
    Show,
    /// Put it in its place in the corner of the screen.
    Place,
    /// Ask whether it is visible.
    AskVisible,
    /// Hide it.
    Hide,
}

/// How it goes on with the floating window.
pub enum HudNext {
    /// This is called next.
    Call(HudCall),
    /// All is done, or a call failed with a message.
    Finished(Result<(), String>),
}

/// What a [`HudNext`] holds.
pub enum HudNextView {
    Call(HudCall),
    Finished(Result<(), Seq<char>>),
}

/// What a result without a value holds.
pub open spec fn outcome(result: Result<(), String>) -> Result<(), Seq<char>> {
    match result {
        Ok(done) => Ok(done),
        Err(error) => Err(error@),
    }
}

impl View for HudNext {
    type V = HudNextView;

    open spec fn view(&self) -> HudNextView {
        match self {
            HudNext::Call(call) => HudNextView::Call(*call),
            HudNext::Finished(result) => HudNextView::Finished(outcome(*result)),
        }
    }
}

/// The first call for a wish, if there is a window to call on.
pub open spec fn hud_first(wish: HudWish, found: bool) -> HudNextView {
    if !found {
        HudNextView::Finished(Err("HUD 窗口不存在"@))
    } else {
        match wish {
            HudWish::Show => HudNextView::Call(HudCall::Pin),
            HudWish::Hide => HudNextView::Call(HudCall::Hide),
        }
    }
}

/// The first call for a wish, if there is a window to call on.
pub fn hud_begin(wish: HudWish, found: bool) -> (next: HudNext)
    ensures
        next@ == hud_first(wish, found),
{
    if !found {
        return HudNext::Finished(Err(String::from_str("HUD 窗口不存在")));
    }
    match wish {
        HudWish::Show => HudNext::Call(HudCall::Pin),
        HudWish::Hide => HudNext::Call(HudCall::Hide),
    }
}

impl AppStateView {
    /// The state and what follows once a call on the floating window has returned. A failure
    /// ends it. The window is put in its place when it is shown the first time.
    pub open spec fn hud_after(self, call: HudCall, reply: Result<(), Seq<char>>) -> (
        AppStateView,
        HudNextView,
    ) {
        match reply {
            Err(error) => (self, HudNextView::Finished(Err(error))),
            Ok(_) => match call {
                HudCall::Pin => (self, HudNextView::Call(HudCall::Show)),
                HudCall::Show => (
                    AppStateView { hud_pos_set: true, ..self },
                    if self.hud_pos_set {
                        HudNextView::Call(HudCall::AskVisible)
                    } else {
                        HudNextView::Call(HudCall::Place)
                    },
                ),
                HudCall::Place => (self, HudNextView::Call(HudCall::AskVisible)),
                HudCall::AskVisible | HudCall::Hide => (self, HudNextView::Finished(Ok(()))),
            },
        }
    }
}

impl AppState {
    /// Takes into account that a call on the floating window has returned.
    pub fn on_hud_reply(&mut self, call: HudCall, reply: Result<(), String>) -> (next: HudNext)
        ensures
            final(self)@ == old(self)@.hud_after(call, outcome(reply)).0,
            next@ == old(self)@.hud_after(call, outcome(reply)).1,
            old(self).wf() ==> final(self).wf(),
    {
        if let Err(error) = reply {
            return HudNext::Finished(Err(error));
        }
        match call {
            HudCall::Pin => HudNext::Call(HudCall::Show),
            HudCall::Show => {
                let placed = self.hud_pos_set;
                self.hud_pos_set = true;
                if placed {
                    HudNext::Call(HudCall::AskVisible)
                } else {
                    HudNext::Call(HudCall::Place)
                }
            },
            HudCall::Place => HudNext::Call(HudCall::AskVisible),
            HudCall::AskVisible | HudCall::Hide => HudNext::Finished(Ok(())),
        }
    }

    /// What is wanted of the floating window once it is ready: to be shown, if the settings say
    /// so.
    pub fn hud_ready(&self) -> (wish: Option<HudWish>)
        ensures
            wish == if self@.config.hud_enabled {
                Some(HudWish::Show)
            } else {
                None
            },
    {
        if self.config.hud_enabled {
            Some(HudWish::Show)
        } else {
            None
        }
    }

    /// What is to be done at a start, given whether saved settings exist; nothing is given where
    /// it is unknown where they would be.
    pub fn startup(&self, config_exists: Option<bool>) -> (startup: Startup)
        ensures
            startup == self@.startup_of(config_exists),
    {
        match config_exists {
            Some(exists) => Startup {
                show_main: !exists,
                save_settings: !exists,
                enable_autostart: self.config.autostart,
            },
            None => Startup {
                show_main: true,
                save_settings: false,
                enable_autostart: self.config.autostart,
            },
        }
    }
}

/// What is to be done at a start.
pub struct Startup {
    /// Whether the main window is shown: it is at the first start, and where no start can leave
    /// anything behind for the next. Later starts stay in the background.
    pub show_main: bool,
    /// Whether the settings in force are saved, so that a later start finds them and knows that
    /// it is not the first.
    pub save_settings: bool,
    /// Whether the program is made to start with the system.
    pub enable_autostart: bool,
}

impl AppStateView {
    /// What is to be done at a start, given whether saved settings exist.
    pub open spec fn startup_of(self, config_exists: Option<bool>) -> Startup {
        Startup {
            show_main: config_exists != Some(true),
            save_settings: config_exists == Some(false),
            enable_autostart: self.config.autostart,
        }
    }
}

/// What is wanted of the floating window when it is toggled.
pub fn hud_toggle(visible: bool) -> (wish: HudWish)
    ensures
        wish == if visible {
            HudWish::Hide
        } else {
            HudWish::Show
        },
{
    if visible {
        HudWish::Hide
    } else {
        HudWish::Show
    }
}

/// What an entry of the tray's menu asks for.
#[derive(Clone, Copy, Debug, PartialEq, Eq, Structural)]
pub enum MenuCommand {
    /// Show the main window.
    OpenMain,
    /// Poll now.
    CheckNow,
    /// Show the floating window, or hide it.
    ToggleHud,
    /// Nothing.
    Nothing,
}

/// What the menu entry with the given name asks for.
pub open spec fn command_of(id: Seq<char>) -> MenuCommand {
    if id == "open"@ {
        MenuCommand::OpenMain
    } else if id == "check"@ {
        MenuCommand::CheckNow
    } else if id == "hud"@ {
        MenuCommand::ToggleHud
    } else {
        MenuCommand::Nothing
    }
}

/// What the menu entry with the given name asks for.
pub fn menu_command(id: &str) -> (command: MenuCommand)
    ensures
        command == command_of(id@),
{
    if same_text(id, "open") {
        MenuCommand::OpenMain
    } else if same_text(id, "check") {
        MenuCommand::CheckNow
    } else if same_text(id, "hud") {
        MenuCommand::ToggleHud
    } else {
        MenuCommand::Nothing
    }
}

} // verus!
