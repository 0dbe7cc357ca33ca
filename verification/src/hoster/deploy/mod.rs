//! Deploy sequence for the curated demo services.

pub mod reconcile;
pub mod run;
pub mod service;
pub mod steps;

pub use self::reconcile::{
    cleanup_cmd, quiesce, reconcile_stale, reconcile_stale_with_basis, remove_unit_and_state,
    sweep_stale, ReconcileBasis, SweepOutcome,
};
pub use self::run::{deploy_in_flight, run_deployment, DeployOutcome, DeployRun, Pipelines};
pub use self::service::{deploy_service, DeployHooks};
pub use self::steps::{clone_repo, resolve_start};
