//! Behaviour-based endpoint security: events, TOML-style detection rules,
//! log formatting and the pure parts of the collectors and the scanner UI.

pub mod log;
pub mod log_rotation;
pub mod alert;
pub mod collectors;
pub mod daemon;
pub mod daemon_view;
pub mod engine;
pub mod event;
pub mod name_set;
pub mod netstat;
pub mod quarantine;
pub mod registry;
pub mod report;
pub mod rules;
pub mod text;
pub mod threat;
pub mod ui;
