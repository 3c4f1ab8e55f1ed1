//! The update lifecycle: init, check, the update plan, and boot reports.

use updater::cache::{PatchInfo, UpdaterState};
use updater::config::YamlConfig;
use updater::network::parse_patch_check_response;
use updater::updater::{
    active_patch, check_for_update, init, plan_update, report_failed_launch,
    report_successful_launch, UpdateError,
};
use updater::AppConfig;

fn test_app_config() -> AppConfig {
    AppConfig {
        cache_dir: "example".to_string(),
        release_version: "1.0.0".to_string(),
        original_libapp_path: "original_libapp_path".to_string(),
        vm_path: "vm_path".to_string(),
    }
}

#[test]
fn init_missing_yaml() {
    assert_eq!(
        init(test_app_config(), "").err(),
        Some(UpdateError::InvalidArgument(
            "yaml".to_string(),
            "missing field `app_id`".to_string()
        ))
    );
}

#[test]
fn init_resolves_defaults() {
    let config = init(test_app_config(), "app_id: 1234").unwrap();
    assert_eq!(config.app_id, "1234");
    assert_eq!(config.channel, "stable");
    assert_eq!(config.base_url, "https://api.shorebird.dev");
    assert_eq!(config.cache_dir, "example");
    assert_eq!(config.download_dir, "example/downloads");
    assert_eq!(config.release_version, "1.0.0");
}

#[test]
fn init_reads_all_keys() {
    let yaml = "\n# compiled-in configuration\napp_id: demo\nchannel: beta\nbase_url: http://localhost:8000\nextra_key: ignored\n";
    let config = init(test_app_config(), yaml).unwrap();
    assert_eq!(config.app_id, "demo");
    assert_eq!(config.channel, "beta");
    assert_eq!(config.base_url, "http://localhost:8000");
}

#[test]
fn init_rejects_a_line_without_a_colon() {
    assert_eq!(
        init(test_app_config(), "app_id demo").err(),
        Some(UpdateError::InvalidArgument(
            "yaml".to_string(),
            "invalid yaml".to_string()
        ))
    );
}

#[test]
fn yaml_config_reads_values() {
    let cfg = YamlConfig::from_yaml("app_id: a\nbase_url: b").unwrap();
    assert_eq!(cfg.app_id.as_deref(), Some("a"));
    assert_eq!(cfg.base_url.as_deref(), Some("b"));
    assert_eq!(cfg.channel, None);
}

#[test]
fn report_launch_result_with_no_current_patch() {
    let mut state = UpdaterState::new("example".to_string(), "1.0.0".to_string());
    assert_eq!(
        report_failed_launch(&mut state, &Vec::new()),
        Err(UpdateError::InvalidState("No current patch".to_string()))
    );
    assert_eq!(
        report_successful_launch(&mut state),
        Err(UpdateError::InvalidState("No current patch".to_string()))
    );
}

#[test]
fn cold_check_with_no_patch() {
    let config = init(test_app_config(), "app_id: 1234").unwrap();
    let state = UpdaterState::new("example".to_string(), "1.0.0".to_string());
    let response = parse_patch_check_response("{\"patch_available\":false}");
    assert_eq!(check_for_update(&response), false);
    let plan = plan_update(&config, &response.unwrap()).unwrap();
    assert!(plan.is_none());
    assert_eq!(active_patch(&state), None);
}

#[test]
fn failed_check_reads_as_no_update() {
    assert_eq!(check_for_update(&None), false);
}

#[test]
fn update_plan_for_first_install() {
    let config = init(test_app_config(), "app_id: 1234").unwrap();
    let response = parse_patch_check_response(
        "{\"patch_available\":true,\"patch\":{\"number\":1,\"download_url\":\"https://example.invalid/p1\",\"hash\":\"#\"}}",
    )
    .unwrap();
    assert!(check_for_update(&Some(response)));
    let response = parse_patch_check_response(
        "{\"patch_available\":true,\"patch\":{\"number\":1,\"download_url\":\"https://example.invalid/p1\",\"hash\":\"#\"}}",
    )
    .unwrap();
    let plan = plan_update(&config, &response).unwrap().unwrap();
    assert_eq!(plan.number, 1);
    assert_eq!(plan.download_url, "https://example.invalid/p1");
    assert_eq!(plan.hash, "#");
    assert!(!plan.is_diff);
    assert_eq!(plan.download_path, "example/1");
    assert_eq!(plan.output_path, "example/1.full");

    let mut state = UpdaterState::new("example".to_string(), "1.0.0".to_string());
    state
        .install_patch(PatchInfo {
            path: plan.download_path.clone(),
            number: plan.number,
        })
        .unwrap();
    assert_eq!(state.current_slot_index, Some(0));
    assert_eq!(state.latest_patch_number(), Some(1));
    let active = active_patch(&state).unwrap();
    assert_eq!(active.number, 1);
    assert_eq!(active.path, "example/slot_0/dlc.vmcode");
}

#[test]
fn patch_available_without_patch_is_a_bad_response() {
    let config = init(test_app_config(), "app_id: 1234").unwrap();
    let response = parse_patch_check_response("{\"patch_available\":true}").unwrap();
    assert_eq!(
        plan_update(&config, &response).err(),
        Some(UpdateError::BadServerResponse)
    );
}

#[test]
fn bad_boot_rolls_back_to_previous_patch() {
    let mut state = UpdaterState::new("example".to_string(), "1.0.0".to_string());
    state
        .install_patch(PatchInfo {
            path: "example/1".to_string(),
            number: 1,
        })
        .unwrap();
    state
        .install_patch(PatchInfo {
            path: "example/2".to_string(),
            number: 2,
        })
        .unwrap();
    assert_eq!(active_patch(&state).unwrap().number, 2);
    // Both slot artifacts still exist on disk.
    report_failed_launch(&mut state, &vec![true, true]).unwrap();
    assert!(state.is_known_bad_patch(&PatchInfo {
        path: String::new(),
        number: 2,
    }));
    assert_eq!(active_patch(&state).unwrap().number, 1);
}

#[test]
fn successful_launch_allowlists_the_current_patch() {
    let mut state = UpdaterState::new("example".to_string(), "1.0.0".to_string());
    state
        .install_patch(PatchInfo {
            path: "example/1".to_string(),
            number: 1,
        })
        .unwrap();
    report_successful_launch(&mut state).unwrap();
    assert!(state.is_known_good_patch(&PatchInfo {
        path: String::new(),
        number: 1,
    }));
    assert_eq!(active_patch(&state).unwrap().number, 1);
}

#[test]
fn release_version_change_wipes_cache() {
    let mut state = UpdaterState::new("example".to_string(), "1.0.0".to_string());
    state
        .install_patch(PatchInfo {
            path: "example/1".to_string(),
            number: 1,
        })
        .unwrap();
    let doc = state.save();
    let reloaded = UpdaterState::load_or_new_on_error("example", "1.0.1", Some(&doc));
    assert_eq!(active_patch(&reloaded), None);
    assert_eq!(reloaded.latest_patch_number(), None);
}
