//! Verified core of OSS Share: the upload tracker, Windows path handling,
//! configuration rules, OSS key and link preparation, the pipe protocol and
//! the tray menu.

pub mod commands;
pub mod config;
pub mod ipc;
pub mod oss;
pub mod shell;
pub mod text;
pub mod tray;
pub mod upload_state;
pub mod win_path;
