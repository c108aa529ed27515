pub mod cli;
pub mod config;
pub mod hooks;
pub mod konsole;
pub mod operations;
pub mod plasma_rc;
pub mod schedule;
pub mod state;
pub mod target_theme;
pub mod text;
pub mod theme;
