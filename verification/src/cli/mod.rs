//! The command-line front end's own logic: argument parsing and
//! validation, device selection, and the discovery report.

pub mod date;
pub mod hex;
pub mod rgb;
pub mod device;
pub mod format;
pub mod discover;
pub mod report;
pub mod actions;
pub mod preset;
pub mod info;
pub mod list;
pub mod host;
pub mod profile;
pub mod lighting;
pub mod sleep;
