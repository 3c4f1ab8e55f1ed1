//! The state document codec: exact rendering, parsing, and the round trip.

use updater::cache::{PatchInfo, UpdaterState};

#[test]
fn save_renders_the_expected_document() {
    let state = UpdaterState::new("c".to_string(), "1.0.0".to_string());
    assert_eq!(
        state.save(),
        "{\n  \"cache_dir\": \"c\",\n  \"release_version\": \"1.0.0\",\n  \
         \"latest_downloaded_patch\": null,\n  \"failed_patches\": [],\n  \
         \"successful_patches\": [],\n  \"current_slot_index\": null,\n  \
         \"slots\": []\n}"
    );
}

#[test]
fn save_renders_slots_and_lists() {
    let mut state = UpdaterState::new("c".to_string(), "1.0.0".to_string());
    state
        .install_patch(PatchInfo {
            path: "c/stage".to_string(),
            number: 3,
        })
        .unwrap();
    state.mark_patch_as_good(&PatchInfo {
        path: String::new(),
        number: 3,
    });
    assert_eq!(
        state.save(),
        "{\n  \"cache_dir\": \"c\",\n  \"release_version\": \"1.0.0\",\n  \
         \"latest_downloaded_patch\": 3,\n  \"failed_patches\": [],\n  \
         \"successful_patches\": [\n    3\n  ],\n  \"current_slot_index\": 0,\n  \
         \"slots\": [\n    {\n      \"path\": \"c/slot_0/dlc.vmcode\",\n      \
         \"patch_number\": 3\n    }\n  ]\n}"
    );
}

#[test]
fn save_then_load_is_identity() {
    let mut state = UpdaterState::new("some/dir".to_string(), "1.2.3".to_string());
    state
        .install_patch(PatchInfo {
            path: "some/dir/stage".to_string(),
            number: 1,
        })
        .unwrap();
    state
        .install_patch(PatchInfo {
            path: "some/dir/stage".to_string(),
            number: 2,
        })
        .unwrap();
    state.mark_patch_as_good(&PatchInfo {
        path: String::new(),
        number: 1,
    });
    state.mark_patch_as_bad(&PatchInfo {
        path: String::new(),
        number: 2,
    });
    let doc = state.save();
    let loaded = UpdaterState::load_or_new_on_error("some/dir", "1.2.3", Some(&doc));
    assert_eq!(loaded.cache_dir, state.cache_dir);
    assert_eq!(loaded.release_version, state.release_version);
    assert_eq!(loaded.latest_downloaded_patch, state.latest_downloaded_patch);
    assert_eq!(loaded.failed_patches, state.failed_patches);
    assert_eq!(loaded.successful_patches, state.successful_patches);
    assert_eq!(loaded.current_slot_index, state.current_slot_index);
    assert_eq!(loaded.slots.len(), state.slots.len());
    for (a, b) in loaded.slots.iter().zip(state.slots.iter()) {
        assert_eq!(a.path, b.path);
        assert_eq!(a.patch_number, b.patch_number);
    }
}

#[test]
fn round_trip_keeps_quotes_and_backslashes_in_paths() {
    let mut state = UpdaterState::new("a\\b\"c".to_string(), "1.0.0".to_string());
    state.latest_downloaded_patch = Some(9);
    let doc = state.save();
    let loaded = UpdaterState::load_or_new_on_error("x", "1.0.0", Some(&doc));
    assert_eq!(loaded.cache_dir, "a\\b\"c");
    assert_eq!(loaded.latest_patch_number(), Some(9));
}

#[test]
fn missing_file_gives_fresh_state() {
    let state = UpdaterState::load_or_new_on_error("dir", "2.0.0", None);
    assert_eq!(state.cache_dir, "dir");
    assert_eq!(state.release_version, "2.0.0");
    assert_eq!(state.latest_patch_number(), None);
    assert_eq!(state.current_patch(), None);
    assert_eq!(state.slots.len(), 0);
    assert_eq!(state.failed_patches.len(), 0);
    assert_eq!(state.successful_patches.len(), 0);
}

#[test]
fn malformed_document_gives_fresh_state() {
    let state = UpdaterState::load_or_new_on_error("dir", "2.0.0", Some("not json at all"));
    assert_eq!(state.release_version, "2.0.0");
    assert_eq!(state.latest_patch_number(), None);
    let state = UpdaterState::load_or_new_on_error("dir", "2.0.0", Some("{\n  \"cache_dir\": \"d\""));
    assert_eq!(state.latest_patch_number(), None);
}

#[test]
fn document_violating_invariants_gives_fresh_state() {
    // A crafted document whose lists overlap is not taken at face value.
    let doc = "{\n  \"cache_dir\": \"d\",\n  \"release_version\": \"2.0.0\",\n  \
               \"latest_downloaded_patch\": 5,\n  \"failed_patches\": [\n    4\n  ],\n  \
               \"successful_patches\": [\n    4\n  ],\n  \"current_slot_index\": null,\n  \
               \"slots\": []\n}";
    let state = UpdaterState::load_or_new_on_error("dir", "2.0.0", Some(doc));
    assert_eq!(state.failed_patches.len(), 0);
    assert_eq!(state.latest_patch_number(), None);
}

#[test]
fn parse_state_doc_reads_back_numbers() {
    let doc = "{\n  \"cache_dir\": \"d\",\n  \"release_version\": \"2.0.0\",\n  \
               \"latest_downloaded_patch\": 5,\n  \"failed_patches\": [\n    1,\n    2\n  ],\n  \
               \"successful_patches\": [\n    3\n  ],\n  \"current_slot_index\": 0,\n  \
               \"slots\": [\n    {\n      \"path\": \"d/slot_0/dlc.vmcode\",\n      \
               \"patch_number\": 3\n    }\n  ]\n}";
    let state = updater::doc::parse_state_doc(doc).unwrap();
    assert_eq!(state.latest_downloaded_patch, Some(5));
    assert_eq!(state.failed_patches, vec![1, 2]);
    assert_eq!(state.successful_patches, vec![3]);
    assert_eq!(state.current_slot_index, Some(0));
    assert_eq!(state.slots[0].patch_number, 3);
    assert_eq!(state.slots[0].path, "d/slot_0/dlc.vmcode");
}
