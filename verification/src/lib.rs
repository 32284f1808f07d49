//! The rules of a desktop watcher for the AI.INPUT.IM status page: what it makes of a
//! fetched status report, when it warns its user, and what it shows.

pub mod clock;
pub mod config;
pub mod fetch;
pub mod judge;
pub mod laws;
pub mod notify;
pub mod order;
pub mod poll;
pub mod settings;
pub mod shown;
pub mod state;
pub mod status;
pub mod text;
pub mod window;
