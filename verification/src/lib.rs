pub mod calendar;
pub mod clock;
pub mod config;
pub mod text;
pub mod theme;
pub mod diff;
pub mod status;
pub mod ui;
pub mod operations;
pub mod log;
pub mod repository;
