//! The persistent state: slot table, blacklist, install and rollback.

use updater::cache::{PatchInfo, Slot, UpdaterState};
use updater::updater::UpdateError;

fn test_state() -> UpdaterState {
    UpdaterState::new("example".to_string(), "1.0.0".to_string())
}

fn fake_patch(number: usize) -> PatchInfo {
    PatchInfo {
        number,
        path: format!("example/patch_{}", number),
    }
}

#[test]
fn current_patch_does_not_crash() {
    let mut state = test_state();
    assert_eq!(state.current_patch(), None);
    state.set_current_slot(Some(3));
    assert_eq!(state.current_patch(), None);
    state.set_slot(0, Slot::default());
    // This used to crash, where index was bad, but slots were not empty.
    assert_eq!(state.current_patch(), None);
}

#[test]
fn release_version_changed() {
    let mut state = test_state();
    state.latest_downloaded_patch = Some(1);
    let doc = state.save();
    let loaded = UpdaterState::load_or_new_on_error("example", "1.0.0", Some(&doc));
    assert_eq!(loaded.latest_patch_number(), Some(1));

    let loaded_after_version_change =
        UpdaterState::load_or_new_on_error("example", "1.0.1", Some(&doc));
    assert_eq!(loaded_after_version_change.latest_patch_number(), None);
}

#[test]
fn latest_downloaded_patch() {
    let mut state = test_state();
    assert_eq!(state.latest_patch_number(), None);
    state.install_patch(fake_patch(1)).unwrap();
    assert_eq!(state.latest_patch_number(), Some(1));
    state.install_patch(fake_patch(2)).unwrap();
    assert_eq!(state.latest_patch_number(), Some(2));
    state.install_patch(fake_patch(1)).unwrap();
    assert_eq!(state.latest_patch_number(), Some(2));
}

#[test]
fn do_not_install_known_bad_patch() {
    let mut state = test_state();
    let bad_patch = fake_patch(1);
    state.mark_patch_as_bad(&bad_patch);
    assert!(state.install_patch(bad_patch).is_err());
}

#[test]
fn install_refusal_mutates_nothing() {
    let mut state = test_state();
    state.install_patch(fake_patch(1)).unwrap();
    state.mark_patch_as_bad(&fake_patch(3));
    let before_slots: Vec<(String, usize)> = state
        .slots
        .iter()
        .map(|s| (s.path.clone(), s.patch_number))
        .collect();
    let r = state.install_patch(fake_patch(3));
    match r {
        Err(UpdateError::InvalidArgument(field, _)) => assert_eq!(field, "patch"),
        other => panic!("expected InvalidArgument, got {:?}", other),
    }
    let after_slots: Vec<(String, usize)> = state
        .slots
        .iter()
        .map(|s| (s.path.clone(), s.patch_number))
        .collect();
    assert_eq!(before_slots, after_slots);
    assert_eq!(state.current_patch().unwrap().number, 1);
}

#[test]
fn mark_bad_on_known_good_patch_is_ignored() {
    let mut state = test_state();
    let p = fake_patch(7);
    state.mark_patch_as_good(&p);
    state.mark_patch_as_bad(&p);
    assert!(state.is_known_good_patch(&p));
    assert!(!state.is_known_bad_patch(&p));
}

#[test]
fn mark_good_on_known_bad_patch_is_ignored() {
    let mut state = test_state();
    let p = fake_patch(7);
    state.mark_patch_as_bad(&p);
    state.mark_patch_as_good(&p);
    assert!(state.is_known_bad_patch(&p));
    assert!(!state.is_known_good_patch(&p));
}

#[test]
fn install_ping_pongs_between_slots() {
    let mut state = UpdaterState::new("cache".to_string(), "1.0.0".to_string());
    state.install_patch(fake_patch(1)).unwrap();
    assert_eq!(state.current_slot_index, Some(0));
    let current = state.current_patch().unwrap();
    assert_eq!(current.path, "cache/slot_0/dlc.vmcode");
    assert_eq!(current.number, 1);
    assert_eq!(state.latest_patch_number(), Some(1));

    state.install_patch(fake_patch(2)).unwrap();
    assert_eq!(state.current_slot_index, Some(1));
    let current = state.current_patch().unwrap();
    assert_eq!(current.path, "cache/slot_1/dlc.vmcode");
    assert_eq!(current.number, 2);
    assert_eq!(state.latest_patch_number(), Some(2));
    assert_eq!(state.slots.len(), 2);

    state.install_patch(fake_patch(3)).unwrap();
    assert_eq!(state.current_slot_index, Some(0));
    assert_eq!(state.slots.len(), 2);
}

#[test]
fn reinstall_of_older_does_not_lower_floor() {
    let mut state = UpdaterState::new("cache".to_string(), "1.0.0".to_string());
    state.install_patch(fake_patch(1)).unwrap();
    state.install_patch(fake_patch(2)).unwrap();
    state.install_patch(fake_patch(1)).unwrap();
    assert_eq!(state.latest_patch_number(), Some(2));
    assert_eq!(state.current_patch().unwrap().number, 1);
}

#[test]
fn activate_latest_bootable_picks_highest_good_slot() {
    let mut state = UpdaterState::new("cache".to_string(), "1.0.0".to_string());
    state.install_patch(fake_patch(1)).unwrap();
    state.install_patch(fake_patch(2)).unwrap();
    state.mark_patch_as_bad(&PatchInfo {
        path: "cache/slot_1/dlc.vmcode".to_string(),
        number: 2,
    });
    state.activate_latest_bootable_patch(&vec![true, true]);
    assert_eq!(state.current_slot_index, Some(0));
    assert_eq!(state.current_patch().unwrap().number, 1);
}

#[test]
fn activate_with_no_bootable_slot_clears_current() {
    let mut state = UpdaterState::new("cache".to_string(), "1.0.0".to_string());
    state.install_patch(fake_patch(1)).unwrap();
    // The artifact file is gone from disk.
    state.activate_latest_bootable_patch(&vec![false]);
    assert_eq!(state.current_slot_index, None);
    assert_eq!(state.current_patch(), None);
}

#[test]
fn available_slot_alternates() {
    let mut state = test_state();
    assert_eq!(state.available_slot(), 0);
    state.install_patch(fake_patch(1)).unwrap();
    assert_eq!(state.available_slot(), 1);
    state.install_patch(fake_patch(2)).unwrap();
    assert_eq!(state.available_slot(), 0);
}

#[test]
fn install_at_the_largest_patch_number() {
    let mut state = test_state();
    state.install_patch(fake_patch(usize::MAX)).unwrap();
    assert_eq!(state.latest_patch_number(), Some(usize::MAX));
    state.install_patch(fake_patch(1)).unwrap();
    assert_eq!(state.latest_patch_number(), Some(usize::MAX));
    let doc = state.save();
    let loaded = UpdaterState::load_or_new_on_error("example", "1.0.0", Some(&doc));
    assert_eq!(loaded.latest_patch_number(), Some(usize::MAX));
}

#[test]
fn current_patch_skips_default_slot() {
    let mut state = test_state();
    state.set_slot(0, Slot::default());
    state.set_current_slot(Some(0));
    assert_eq!(state.current_patch(), None);
}
