//! The terminal panel: its screens, its keys, and what it shows.

pub mod keys;
pub mod messages;
pub mod paint;
pub mod state;
pub mod tail;
pub mod view;
pub mod workers;
