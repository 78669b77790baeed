//! Watches game libraries of remote accounts and reports changes in the
//! cumulative playtime of each title as activity events.

pub mod delta;
pub mod event;
pub mod game;
pub mod remote;
pub mod user;
pub mod watcher;
