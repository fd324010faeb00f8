//! Verified core of a terminal dashboard for GitHub Spec-Kit projects.
pub mod text;
pub mod layout;
pub mod registry;
pub mod cli;
pub mod workflow;
pub mod theme;
pub mod config;
pub mod speckit;
pub mod watch;
pub mod hints;
pub mod tmux;
pub mod views;
pub mod app;
pub mod app_laws;
pub mod keys;
pub mod popup_keys;
pub mod screen_keys;
pub mod input;
