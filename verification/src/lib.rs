//! Local-first demo hosting panel: the rules behind it.
//!
//! Three curated services are built and run as hardened systemd user
//! services. This library decides; reading files, running commands, opening
//! sockets and drawing on the terminal is left to the program around it,
//! which hands plain values in and carries out what comes back.

pub mod crashlog;
pub mod hoster;
pub mod logfile;
pub mod netlog;
pub mod paths;
pub mod text;
pub mod tui;
pub mod tui_v2;
