//! Deployment engine: curated recipes → hardened systemd user services.

pub mod cancel;
pub mod deploy;
pub mod github;
pub mod ip;
pub mod journal;
pub mod lock;
pub mod models;
pub mod recipes;
pub mod resolver;
pub mod toolcheck;
pub mod units;
