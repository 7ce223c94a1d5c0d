//! Pomolife: the verified core of a Pomodoro timer.
pub mod clock;
pub mod timer;
pub mod time;
pub mod profile;
pub mod text;
pub mod cli;
pub mod table;
pub mod config;
pub mod session;
pub mod stats;
pub mod theme;
pub mod font;
pub mod task;
pub mod note;
pub mod ui;
pub mod storage;
pub mod view;
pub mod app;
