//! The public surface of the update lifecycle: configuration intake, the
//! status and error types, and the decision steps of the check / update /
//! report operations.  Network and filesystem traffic stays with the caller;
//! every decision about it is made here.

use vstd::prelude::*;

use crate::cache::{
    spec_bootable, spec_current_patch, spec_mark_bad, spec_mark_good, wf, PatchInfo, StateV,
    UpdaterState,
};
use crate::config::{resolve_config, spec_parse_yaml, AppConfig, ResolvedConfig, YamlConfig};
use crate::network::PatchCheckResponse;
use crate::text::{append_str_chars, chars_to_string, render_uint_into, spec_uint_chars};

verus! {

/// The outcome of an update operation.
#[derive(Debug, PartialEq, Eq, Structural, Clone, Copy)]
pub enum UpdateStatus {
    NoUpdate,
    UpdateAvailable,
    UpdateDownloaded,
    UpdateInstalled,
    UpdateHadError,
}

/// The typed errors the lifecycle surfaces.
#[derive(Debug, PartialEq)]
pub enum UpdateError {
    InvalidArgument(String, String),
    InvalidState(String),
    BadServerResponse,
    FailedToSaveState,
}

impl UpdateStatus {
    /// A human-readable description of the status.
    pub fn to_message(&self) -> (r: String)
        ensures
            r@ == match self {
                UpdateStatus::NoUpdate => "No update"@,
                UpdateStatus::UpdateAvailable => "Update available"@,
                UpdateStatus::UpdateDownloaded => "Update downloaded"@,
                UpdateStatus::UpdateInstalled => "Update installed"@,
                UpdateStatus::UpdateHadError => "Update had error"@,
            },
    {
        match self {
            UpdateStatus::NoUpdate => "No update".to_owned(),
            UpdateStatus::UpdateAvailable => "Update available".to_owned(),
            UpdateStatus::UpdateDownloaded => "Update downloaded".to_owned(),
            UpdateStatus::UpdateInstalled => "Update installed".to_owned(),
            UpdateStatus::UpdateHadError => "Update had error".to_owned(),
        }
    }
}

/// Read the compiled-in YAML text and resolve the configuration the other
/// operations read.  Where the caller keeps the result, typically as a
/// process-wide singleton, is the caller's business.
pub fn init(app_config: AppConfig, yaml: &str) -> (r: Result<ResolvedConfig, UpdateError>)
    ensures
        spec_parse_yaml(yaml@) is None ==> ({
            &&& r matches Err(e)
            &&& e matches UpdateError::InvalidArgument(f, d)
            &&& f@ == "yaml"@
            &&& d@ == "invalid yaml"@
        }),
        spec_parse_yaml(yaml@) matches Some(y) && y.app_id is None ==> ({
            &&& r matches Err(e)
            &&& e matches UpdateError::InvalidArgument(f, d)
            &&& f@ == "yaml"@
            &&& d@ == "missing field `app_id`"@
        }),
        spec_parse_yaml(yaml@) matches Some(y) ==> (y.app_id matches Some(a) ==> {
            &&& r matches Ok(c)
            &&& c.is_initialized
            &&& c.cache_dir@ == app_config.cache_dir@
            &&& c.download_dir@ == app_config.cache_dir@ + "/downloads"@
            &&& c.release_version@ == app_config.release_version@
            &&& c.original_libapp_path@ == app_config.original_libapp_path@
            &&& c.vm_path@ == app_config.vm_path@
            &&& c.app_id@ == a
            &&& c.channel@ == match y.channel {
                Some(ch) => ch,
                None => "stable"@,
            }
            &&& c.base_url@ == match y.base_url {
                Some(u) => u,
                None => "https://api.shorebird.dev"@,
            }
        }),
{
    match YamlConfig::from_yaml(yaml) {
        None => Err(
            UpdateError::InvalidArgument("yaml".to_owned(), "invalid yaml".to_owned()),
        ),
        Some(cfg) => {
            if cfg.app_id.is_some() {
                Ok(resolve_config(app_config, cfg))
            } else {
                Err(
                    UpdateError::InvalidArgument(
                        "yaml".to_owned(),
                        "missing field `app_id`".to_owned(),
                    ),
                )
            }
        },
    }
}

/// Is an update available, given what the patch-check returned?  A failed
/// check (`None`) reads as no update: the availability check never throws.
pub fn check_for_update(response: &Option<PatchCheckResponse>) -> (r: bool)
    ensures
        r == match response {
            Some(resp) => resp.patch_available,
            None => false,
        },
{
    match response {
        Some(resp) => resp.patch_available,
        None => false,
    }
}

/// The patch the state says will boot next, if any.
pub fn active_patch(state: &UpdaterState) -> (r: Option<PatchInfo>)
    ensures
        match r {
            Some(p) => spec_current_patch(state@) == Some(p@),
            None => spec_current_patch(state@) is None,
        },
{
    state.current_patch()
}

/// What `update` does once the server has answered: where to download, and
/// whether the artifact must be inflated from a diff before installing.
pub struct DownloadPlan {
    pub number: usize,
    pub download_url: String,
    pub hash: String,
    pub is_diff: bool,
    pub download_path: String,
    pub output_path: String,
}

/// Decide the update from the server's answer: no patch means no update; a
/// patch without its record is a bad response; otherwise the artifact for
/// patch `n` is downloaded to `<cache_dir>/<n>`, and a diff is inflated to
/// `<cache_dir>/<n>.full`.
pub fn plan_update(config: &ResolvedConfig, response: &PatchCheckResponse) -> (r: Result<
    Option<DownloadPlan>,
    UpdateError,
>)
    ensures
        !response.patch_available ==> r matches Ok(None),
        response.patch_available && response.patch is None ==> (r matches Err(e) && e
            == UpdateError::BadServerResponse),
        response.patch matches Some(p) ==> (response.patch_available ==> {
            &&& r matches Ok(op)
            &&& op matches Some(plan)
            &&& plan.number == p.number
            &&& plan.download_url@ == p.download_url@
            &&& plan.hash@ == p.hash@
            &&& plan.is_diff == p.is_diff
            &&& plan.download_path@ == config.cache_dir@ + "/"@ + spec_uint_chars(p.number as nat)
            &&& plan.output_path@ == plan.download_path@ + ".full"@
        }),
{
    if !response.patch_available {
        return Ok(None);
    }
    match &response.patch {
        None => Err(UpdateError::BadServerResponse),
        Some(p) => {
            let mut chars: Vec<char> = Vec::new();
            append_str_chars(&mut chars, config.cache_dir.as_str());
            append_str_chars(&mut chars, "/");
            render_uint_into(&mut chars, p.number);
            let download_path = chars_to_string(&chars);
            append_str_chars(&mut chars, ".full");
            let output_path = chars_to_string(&chars);
            proof {
                assert(download_path@ =~= config.cache_dir@ + "/"@ + spec_uint_chars(
                    p.number as nat,
                ));
                assert(output_path@ =~= download_path@ + ".full"@);
            }
            Ok(
                Some(
                    DownloadPlan {
                        number: p.number,
                        download_url: p.download_url.clone(),
                        hash: p.hash.clone(),
                        is_diff: p.is_diff,
                        download_path,
                        output_path,
                    },
                ),
            )
        },
    }
}

/// Allowlist the patch that booted.  With no current patch there is nothing
/// to report; otherwise the current patch's number is marked good (unless
/// already blacklisted) and nothing else changes.
pub fn report_successful_launch(state: &mut UpdaterState) -> (r: Result<(), UpdateError>)
    ensures
        spec_current_patch(old(state)@) is None ==> ({
            &&& r matches Err(e)
            &&& e matches UpdateError::InvalidState(m)
            &&& m@ == "No current patch"@
            &&& final(state)@ == old(state)@
        }),
        spec_current_patch(old(state)@) matches Some(p) ==> (r is Ok && final(state)@
            == spec_mark_good(old(state)@, p.number)),
        wf(old(state)@) ==> wf(final(state)@),
        final(state)@.latest_downloaded_patch == old(state)@.latest_downloaded_patch,
{
    match state.current_patch() {
        None => Err(UpdateError::InvalidState("No current patch".to_owned())),
        Some(patch) => {
            state.mark_patch_as_good(&patch);
            Ok(())
        },
    }
}

/// Blacklist the patch that failed to boot, then roll back: among the slots
/// that are not blacklisted and whose artifact still exists on disk (the
/// flags in `slot_path_exists`, one per slot, as the caller found), the one
/// with the highest patch number becomes current; with none, no slot does.
pub fn report_failed_launch(state: &mut UpdaterState, slot_path_exists: &Vec<bool>) -> (r: Result<
    (),
    UpdateError,
>)
    requires
        slot_path_exists@.len() == old(state)@.slots.len(),
    ensures
        spec_current_patch(old(state)@) is None ==> ({
            &&& r matches Err(e)
            &&& e matches UpdateError::InvalidState(m)
            &&& m@ == "No current patch"@
            &&& final(state)@ == old(state)@
        }),
        spec_current_patch(old(state)@) matches Some(p) ==> ({
            let marked = spec_mark_bad(old(state)@, p.number);
            &&& r is Ok
            &&& final(state)@ == (StateV {
                current_slot_index: final(state)@.current_slot_index,
                ..marked
            })
            &&& match final(state)@.current_slot_index {
                Some(j) => spec_bootable(marked, slot_path_exists@, j as int) && forall|i: int|
                    spec_bootable(marked, slot_path_exists@, i) ==> marked.slots[i].patch_number
                        <= marked.slots[j as int].patch_number,
                None => forall|i: int| !spec_bootable(marked, slot_path_exists@, i),
            }
        }),
        wf(old(state)@) ==> wf(final(state)@),
        final(state)@.latest_downloaded_patch == old(state)@.latest_downloaded_patch,
{
    match state.current_patch() {
        None => Err(UpdateError::InvalidState("No current patch".to_owned())),
        Some(patch) => {
            state.mark_patch_as_bad(&patch);
            state.activate_latest_bootable_patch(slot_path_exists);
            Ok(())
        },
    }
}

} // verus!
