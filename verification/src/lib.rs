//! Client-side core of a code-push service: the verified patch lifecycle
//! engine.  The persistent slot state, the on-disk state document, the
//! patch-check wire protocol, the install and rollback rules, and the
//! binary-diff inflation are specified and proved here; file and network
//! traffic stays with the caller.

pub mod text;
pub mod json;
pub mod cache;
pub mod config;
pub mod doc;
pub mod inflate;
pub mod network;
pub mod updater;

pub use cache::{PatchInfo, Slot, UpdaterState};
pub use config::{AppConfig, ResolvedConfig, YamlConfig};
pub use inflate::inflate;
pub use network::{Patch, PatchCheckRequest, PatchCheckResponse};
pub use updater::{
    active_patch, check_for_update, init, plan_update, report_failed_launch,
    report_successful_launch, DownloadPlan, UpdateError, UpdateStatus,
};
