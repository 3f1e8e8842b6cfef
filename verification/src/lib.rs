//! Core logic of the Spotter application launcher: configuration
//! sanitizing, recent-search history, ranked search, readline-style
//! editing and window placement.

pub mod ai;
pub mod config;
pub mod desktop;
pub mod history;
pub mod platform;
pub mod readline;
pub mod search;
pub mod settings;
pub mod text;
pub mod tray;
pub mod ui;
