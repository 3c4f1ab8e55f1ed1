//! The persistent updater state: the slot table, the patch blacklist and
//! allowlist, and the operations the update lifecycle performs on them.
//!
//! The state itself is a plain value; reading and writing `state.json` is the
//! caller's business (the document codec lives in the `doc` module).

use vstd::prelude::*;

use crate::text::{append_str_chars, chars_to_string, render_uint_into, spec_uint_chars};
use crate::updater::UpdateError;

verus! {

/// The patch identity handed back to callers: where its artifact lies and its
/// server-assigned number.
#[derive(Debug, PartialEq)]
pub struct PatchInfo {
    pub path: String,
    pub number: usize,
}

/// Mathematical image of a `PatchInfo`.
#[verifier::ext_equal]
pub ghost struct PatchInfoV {
    pub path: Seq<char>,
    pub number: usize,
}

impl View for PatchInfo {
    type V = PatchInfoV;

    open spec fn view(&self) -> PatchInfoV {
        PatchInfoV { path: self.path@, number: self.number }
    }
}

/// One entry of the slot table: the artifact path recorded on disk and the
/// number of the patch installed there.
#[derive(Debug)]
pub struct Slot {
    pub path: String,
    pub patch_number: usize,
}

/// Mathematical image of a `Slot`.
#[verifier::ext_equal]
pub ghost struct SlotV {
    pub path: Seq<char>,
    pub patch_number: usize,
}

impl View for Slot {
    type V = SlotV;

    open spec fn view(&self) -> SlotV {
        SlotV { path: self.path@, patch_number: self.patch_number }
    }
}

/// The empty slot: no path, number zero.  It marks a cleared table entry and
/// is never reported as the current patch.
pub open spec fn default_slot() -> SlotV {
    SlotV { path: Seq::empty(), patch_number: 0 }
}

impl Default for Slot {
    fn default() -> (r: Slot)
        ensures
            r@ == default_slot(),
    {
        let r = Slot { path: String::new(), patch_number: 0 };
        proof {
            assert(r@ =~= default_slot());
        }
        r
    }
}

/// The persistent state of the updater, as held in `state.json`.
pub struct UpdaterState {
    pub cache_dir: String,
    pub release_version: String,
    pub latest_downloaded_patch: Option<usize>,
    pub failed_patches: Vec<usize>,
    pub successful_patches: Vec<usize>,
    pub current_slot_index: Option<usize>,
    pub slots: Vec<Slot>,
}

/// Mathematical image of an `UpdaterState`.
#[verifier::ext_equal]
pub ghost struct StateV {
    pub cache_dir: Seq<char>,
    pub release_version: Seq<char>,
    pub latest_downloaded_patch: Option<usize>,
    pub failed_patches: Seq<usize>,
    pub successful_patches: Seq<usize>,
    pub current_slot_index: Option<usize>,
    pub slots: Seq<SlotV>,
}

/// The slot table, slot by slot, as mathematical values.
pub open spec fn deep_slots(l: Seq<Slot>) -> Seq<SlotV> {
    Seq::new(l.len(), |i: int| l[i]@)
}

impl View for UpdaterState {
    type V = StateV;

    open spec fn view(&self) -> StateV {
        StateV {
            cache_dir: self.cache_dir@,
            release_version: self.release_version@,
            latest_downloaded_patch: self.latest_downloaded_patch,
            failed_patches: self.failed_patches@,
            successful_patches: self.successful_patches@,
            current_slot_index: self.current_slot_index,
            slots: deep_slots(self.slots@),
        }
    }
}

// ---------------------------------------------------------------------------
// Invariants
// ---------------------------------------------------------------------------
/// No patch number stands in both the blacklist and the allowlist.
pub open spec fn partition_ok(v: StateV) -> bool {
    forall|n: usize| !(v.failed_patches.contains(n) && v.successful_patches.contains(n))
}

/// Every populated slot's number is covered by the floor
/// `latest_downloaded_patch`.
pub open spec fn floor_ok(v: StateV) -> bool {
    forall|i: int|
        0 <= i < v.slots.len() && (#[trigger] v.slots[i]).patch_number != 0
            ==> (v.latest_downloaded_patch matches Some(m) && v.slots[i].patch_number <= m)
}

/// Well-formedness of a state: at most two slots, disjoint lists, and the
/// floor covering the slot table.
pub open spec fn wf(v: StateV) -> bool {
    &&& v.slots.len() <= 2
    &&& partition_ok(v)
    &&& floor_ok(v)
}

/// A state with nothing installed, scoped to a cache directory and release.
pub open spec fn spec_fresh_state(cache_dir: Seq<char>, release_version: Seq<char>) -> StateV {
    StateV {
        cache_dir: cache_dir,
        release_version: release_version,
        latest_downloaded_patch: None,
        failed_patches: Seq::empty(),
        successful_patches: Seq::empty(),
        current_slot_index: None,
        slots: Seq::empty(),
    }
}

/// Pushing onto a list extends what it contains by exactly the new element.
pub proof fn lemma_push_contains(s: Seq<usize>, x: usize, y: usize)
    ensures
        s.push(x).contains(y) <==> (s.contains(y) || x == y),
{
    if s.contains(y) {
        let i = choose|i: int| 0 <= i < s.len() && s[i] == y;
        assert(s.push(x)[i] == y);
    }
    if x == y {
        assert(s.push(x)[s.len() as int] == y);
    }
    if s.push(x).contains(y) {
        let i = choose|i: int| 0 <= i < s.push(x).len() && s.push(x)[i] == y;
        if i < s.len() {
            assert(s[i] == y);
        }
    }
}

/// Does the list hold the number `n`?
fn list_contains(v: &Vec<usize>, n: usize) -> (b: bool)
    ensures
        b == v@.contains(n),
{
    let mut i: usize = 0;
    while i < v.len()
        invariant
            0 <= i <= v@.len(),
            forall|k: int| 0 <= k < i ==> v@[k] != n,
        decreases v@.len() - i,
    {
        if v[i] == n {
            return true;
        }
        i = i + 1;
    }
    false
}

// ---------------------------------------------------------------------------
// Spec-level descriptions of the operations
// ---------------------------------------------------------------------------
/// The slot an install writes to: the first slot of an empty table, the
/// second while slot zero is current, the first otherwise.
pub open spec fn spec_available_slot(v: StateV) -> int {
    if v.slots.len() == 0 {
        0
    } else if v.current_slot_index matches Some(i) && i == 0 {
        1
    } else {
        0
    }
}

/// The path under which slot `t` stores its artifact:
/// `<cache_dir>/slot_<t>/dlc.vmcode`.
pub open spec fn spec_slot_artifact_path(cache_dir: Seq<char>, t: int) -> Seq<char> {
    cache_dir + "/slot_"@ + spec_uint_chars(t as nat) + "/dlc.vmcode"@
}

/// What the current patch is: the slot the current index points at, unless
/// the index is absent, out of range, or the slot is the empty default.
pub open spec fn spec_current_patch(v: StateV) -> Option<PatchInfoV> {
    match v.current_slot_index {
        Some(i) => if i < v.slots.len() && v.slots[i as int] != default_slot() {
            Some(
                PatchInfoV {
                    path: v.slots[i as int].path,
                    number: v.slots[i as int].patch_number,
                },
            )
        } else {
            None
        },
        None => None,
    }
}

/// Blacklisting a patch: appended to `failed_patches` unless the number is
/// already known, good or bad.
pub open spec fn spec_mark_bad(v: StateV, n: usize) -> StateV {
    if v.successful_patches.contains(n) || v.failed_patches.contains(n) {
        v
    } else {
        StateV { failed_patches: v.failed_patches.push(n), ..v }
    }
}

/// Allowlisting a patch, symmetrically.
pub open spec fn spec_mark_good(v: StateV, n: usize) -> StateV {
    if v.failed_patches.contains(n) || v.successful_patches.contains(n) {
        v
    } else {
        StateV { successful_patches: v.successful_patches.push(n), ..v }
    }
}

/// The new floor after installing patch number `n`: the old floor never
/// decreases, even when an older patch is reinstalled.
pub open spec fn spec_new_floor(v: StateV, n: usize) -> usize {
    match v.latest_downloaded_patch {
        Some(m) => if m >= n {
            m
        } else {
            n
        },
        None => n,
    }
}

/// The state after a successful install of `p`: the target slot holds the
/// new artifact path and number, the target becomes current, and the floor
/// rises to cover the new number.
pub open spec fn spec_install(v: StateV, p: PatchInfoV) -> StateV {
    let t = spec_available_slot(v);
    let entry = SlotV { path: spec_slot_artifact_path(v.cache_dir, t), patch_number: p.number };
    let slots1 = if t < v.slots.len() {
        v.slots.update(t, entry)
    } else {
        v.slots.push(entry)
    };
    StateV {
        slots: slots1,
        current_slot_index: Some(t as usize),
        latest_downloaded_patch: Some(spec_new_floor(v, p.number)),
        ..v
    }
}

/// Installs ping-pong between the two slots: a successful install makes its
/// target slot current, and the following install targets the other slot, so
/// an install never overwrites the patch that is running.  Together with
/// well-formedness (`wf`, kept by every operation) the slot table never
/// grows beyond two entries.
pub proof fn lemma_install_ping_pong(v: StateV, p: PatchInfoV)
    ensures
        spec_install(v, p).current_slot_index == Some(spec_available_slot(v) as usize),
        spec_available_slot(spec_install(v, p)) != spec_available_slot(v),
        spec_install(v, p).slots.len() <= vstd::math::max(v.slots.len() as int, 2),
{
    let t = spec_available_slot(v);
    let v1 = spec_install(v, p);
    assert(v1.slots.len() > 0);
    if t == 0 {
        assert(spec_available_slot(v1) == 1);
    } else {
        assert(spec_available_slot(v1) == 0);
    }
}

/// Is slot `i` bootable: in range, not blacklisted, and its artifact still
/// present on disk (as the caller reports in `ex`)?
pub open spec fn spec_bootable(v: StateV, ex: Seq<bool>, i: int) -> bool {
    &&& 0 <= i < v.slots.len()
    &&& !v.failed_patches.contains(v.slots[i].patch_number)
    &&& ex[i]
}

impl UpdaterState {
    /// A fresh, empty state for the given cache directory and release.
    pub fn new(cache_dir: String, release_version: String) -> (r: UpdaterState)
        ensures
            r@ == spec_fresh_state(cache_dir@, release_version@),
            wf(r@),
    {
        let r = UpdaterState {
            cache_dir,
            release_version,
            latest_downloaded_patch: None,
            failed_patches: Vec::new(),
            successful_patches: Vec::new(),
            current_slot_index: None,
            slots: Vec::new(),
        };
        proof {
            assert(r@ =~~= spec_fresh_state(r.cache_dir@, r.release_version@));
        }
        r
    }

    /// Has this patch's number been confirmed good?
    pub fn is_known_good_patch(&self, patch: &PatchInfo) -> (b: bool)
        ensures
            b == self@.successful_patches.contains(patch.number),
    {
        list_contains(&self.successful_patches, patch.number)
    }

    /// Has this patch's number been blacklisted?
    pub fn is_known_bad_patch(&self, patch: &PatchInfo) -> (b: bool)
        ensures
            b == self@.failed_patches.contains(patch.number),
    {
        list_contains(&self.failed_patches, patch.number)
    }

    /// Blacklist a patch.  A number already confirmed good is left alone, as
    /// is one already blacklisted; a number never moves between the lists.
    pub fn mark_patch_as_bad(&mut self, patch: &PatchInfo)
        ensures
            final(self)@ == spec_mark_bad(old(self)@, patch.number),
            partition_ok(old(self)@) ==> partition_ok(final(self)@),
            wf(old(self)@) ==> wf(final(self)@),
            final(self)@.latest_downloaded_patch == old(self)@.latest_downloaded_patch,
    {
        if self.is_known_good_patch(patch) {
            return;
        }
        if self.is_known_bad_patch(patch) {
            return;
        }
        self.failed_patches.push(patch.number);
        proof {
            assert(self@ =~~= spec_mark_bad(old(self)@, patch.number));
            if partition_ok(old(self)@) {
                assert forall|n: usize|
                    !(self@.failed_patches.contains(n) && self@.successful_patches.contains(
                        n,
                    )) by {
                    lemma_push_contains(old(self)@.failed_patches, patch.number, n);
                }
            }
        }
    }

    /// Allowlist a patch, symmetrically to `mark_patch_as_bad`.
    pub fn mark_patch_as_good(&mut self, patch: &PatchInfo)
        ensures
            final(self)@ == spec_mark_good(old(self)@, patch.number),
            partition_ok(old(self)@) ==> partition_ok(final(self)@),
            wf(old(self)@) ==> wf(final(self)@),
            final(self)@.latest_downloaded_patch == old(self)@.latest_downloaded_patch,
    {
        if self.is_known_bad_patch(patch) {
            return;
        }
        if self.is_known_good_patch(patch) {
            return;
        }
        self.successful_patches.push(patch.number);
        proof {
            assert(self@ =~~= spec_mark_good(old(self)@, patch.number));
            if partition_ok(old(self)@) {
                assert forall|n: usize|
                    !(self@.failed_patches.contains(n) && self@.successful_patches.contains(
                        n,
                    )) by {
                    lemma_push_contains(old(self)@.successful_patches, patch.number, n);
                }
            }
        }
    }

    /// The patch that will boot next, if the current index points at a
    /// populated slot; `None` when the index is absent or out of range.
    pub fn current_patch(&self) -> (r: Option<PatchInfo>)
        ensures
            match r {
                Some(p) => spec_current_patch(self@) == Some(p@),
                None => spec_current_patch(self@) is None,
            },
    {
        if self.slots.is_empty() {
            return None;
        }
        match self.current_slot_index {
            Some(slot_index) => {
                if slot_index >= self.slots.len() {
                    return None;
                }
                let slot = &self.slots[slot_index];
                if slot.path.as_str().is_empty() && slot.patch_number == 0 {
                    proof {
                        assert(self@.slots[slot_index as int] =~= default_slot());
                    }
                    return None;
                }
                let p = PatchInfo { path: slot.path.clone(), number: slot.patch_number };
                proof {
                    assert(self@.slots[slot_index as int] != default_slot());
                    assert(spec_current_patch(self@) == Some(p@));
                }
                Some(p)
            },
            None => None,
        }
    }

    /// Point the state at a slot, or at none.
    pub fn set_current_slot(&mut self, maybe_index: Option<usize>)
        ensures
            final(self)@ == (StateV { current_slot_index: maybe_index, ..old(self)@ }),
            wf(old(self)@) ==> wf(final(self)@),
            final(self)@.latest_downloaded_patch == old(self)@.latest_downloaded_patch,
    {
        self.current_slot_index = maybe_index;
        proof {
            assert(self@ =~~= (StateV { current_slot_index: maybe_index, ..old(self)@ }));
        }
    }

    /// The highest patch number ever installed, if any.
    pub fn latest_patch_number(&self) -> (r: Option<usize>)
        ensures
            r == self@.latest_downloaded_patch,
    {
        self.latest_downloaded_patch
    }

    /// The slot the next install writes to.
    pub fn available_slot(&self) -> (t: usize)
        ensures
            t as int == spec_available_slot(self@),
            t <= 1,
    {
        if self.slots.is_empty() {
            return 0;
        }
        if let Some(slot_index) = self.current_slot_index {
            if slot_index == 0 {
                return 1;
            }
        }
        0
    }

    /// Reset a slot record to the empty default; out-of-range indices are
    /// left alone.
    pub fn clear_slot(&mut self, index: usize)
        ensures
            final(self)@ == if index < old(self)@.slots.len() {
                StateV {
                    slots: old(self)@.slots.update(index as int, default_slot()),
                    ..old(self)@
                }
            } else {
                old(self)@
            },
            wf(old(self)@) ==> wf(final(self)@),
    {
        if index >= self.slots.len() {
            return;
        }
        self.slots[index] = Slot::default();
        proof {
            assert(self@ =~~= (StateV {
                slots: old(self)@.slots.update(index as int, default_slot()),
                ..old(self)@
            }));
        }
    }

    /// The artifact path of slot `t`: `<cache_dir>/slot_<t>/dlc.vmcode`.
    pub fn slot_artifact_path(&self, t: usize) -> (r: String)
        ensures
            r@ == spec_slot_artifact_path(self@.cache_dir, t as int),
    {
        let mut out: Vec<char> = Vec::new();
        append_str_chars(&mut out, self.cache_dir.as_str());
        append_str_chars(&mut out, "/slot_");
        render_uint_into(&mut out, t);
        append_str_chars(&mut out, "/dlc.vmcode");
        let r = chars_to_string(&out);
        proof {
            assert(r@ =~= spec_slot_artifact_path(self@.cache_dir, t as int));
        }
        r
    }

    /// Record an installed patch: refuse a blacklisted number outright;
    /// otherwise write the target slot, make it current, and raise the floor
    /// `latest_downloaded_patch` to cover the new number (never lower it).
    ///
    /// The caller has already placed the artifact under the slot's
    /// directory; this is the install's state transition alone.
    pub fn install_patch(&mut self, patch: PatchInfo) -> (r: Result<(), UpdateError>)
        requires
            wf(old(self)@),
        ensures
            wf(final(self)@),
            old(self)@.failed_patches.contains(patch.number) ==> ({
                &&& final(self)@ == old(self)@
                &&& r matches Err(e)
                &&& e matches UpdateError::InvalidArgument(f, d)
                &&& f@ == "patch"@
            }),
            !old(self)@.failed_patches.contains(patch.number) ==> (r is Ok && final(self)@
                == spec_install(old(self)@, patch@)),
            old(self)@.latest_downloaded_patch matches Some(m) ==> (
            final(self)@.latest_downloaded_patch matches Some(m2) && m2 >= m),
    {
        if self.is_known_bad_patch(&patch) {
            return Err(
                UpdateError::InvalidArgument(
                    "patch".to_owned(),
                    "refusing to install a known bad patch".to_owned(),
                ),
            );
        }
        let slot_index = self.available_slot();
        self.clear_slot(slot_index);
        let artifact_path = self.slot_artifact_path(slot_index);
        self.set_slot(slot_index, Slot { path: artifact_path, patch_number: patch.number });
        self.set_current_slot(Some(slot_index));
        let raise = match self.latest_downloaded_patch {
            None => true,
            Some(m) => m < patch.number,
        };
        if raise {
            self.latest_downloaded_patch = Some(patch.number);
        }
        proof {
            let v0 = old(self)@;
            let t = spec_available_slot(v0);
            assert(self@ =~~= spec_install(v0, patch@));
            let v1 = self@;
            assert forall|i: int|
                0 <= i < v1.slots.len() && (#[trigger] v1.slots[i]).patch_number != 0 implies (
            v1.latest_downloaded_patch matches Some(m) && v1.slots[i].patch_number <= m) by {
                if i != t {
                    assert(v1.slots[i] == v0.slots[i]);
                }
            }
        }
        Ok(())
    }

    /// Roll back to the best bootable slot: among the slots that are not
    /// blacklisted and whose artifact file still exists (`slot_path_exists`,
    /// one flag per slot, as the caller found on disk), make the one with the
    /// highest patch number current; with none, make no slot current.
    pub fn activate_latest_bootable_patch(&mut self, slot_path_exists: &Vec<bool>)
        requires
            slot_path_exists@.len() == old(self)@.slots.len(),
        ensures
            final(self)@ == (StateV {
                current_slot_index: final(self)@.current_slot_index,
                ..old(self)@
            }),
            match final(self)@.current_slot_index {
                Some(j) => spec_bootable(old(self)@, slot_path_exists@, j as int) && forall|i: int|
                    spec_bootable(old(self)@, slot_path_exists@, i)
                        ==> old(self)@.slots[i].patch_number <= old(
                        self,
                    )@.slots[j as int].patch_number,
                None => forall|i: int| !spec_bootable(old(self)@, slot_path_exists@, i),
            },
            wf(old(self)@) ==> wf(final(self)@),
    {
        let ghost v0 = self@;
        let ghost ex = slot_path_exists@;
        let mut best: Option<usize> = None;
        let mut i: usize = 0;
        let n = self.slots.len();
        while i < n
            invariant
                0 <= i <= n,
                n == v0.slots.len(),
                v0 == self@,
                ex.len() == n,
                ex == slot_path_exists@,
                match best {
                    Some(j) => spec_bootable(v0, ex, j as int) && forall|k: int|
                        0 <= k < i && spec_bootable(v0, ex, k) ==> v0.slots[k].patch_number
                            <= v0.slots[j as int].patch_number,
                    None => forall|k: int| 0 <= k < i ==> !spec_bootable(v0, ex, k),
                },
            decreases n - i,
        {
            let bootable = !list_contains(&self.failed_patches, self.slots[i].patch_number)
                && slot_path_exists[i];
            if bootable {
                let better = match best {
                    None => true,
                    Some(j) => self.slots[j].patch_number < self.slots[i].patch_number,
                };
                if better {
                    best = Some(i);
                }
            }
            i = i + 1;
        }
        self.set_current_slot(best);
    }

    /// Write a slot record, extending the table by exactly one entry when
    /// the index is the current length.
    pub fn set_slot(&mut self, index: usize, slot: Slot)
        requires
            index <= old(self)@.slots.len(),
        ensures
            final(self)@ == if index < old(self)@.slots.len() {
                StateV { slots: old(self)@.slots.update(index as int, slot@), ..old(self)@ }
            } else {
                StateV { slots: old(self)@.slots.push(slot@), ..old(self)@ }
            },
    {
        if index == self.slots.len() {
            self.slots.push(slot);
            proof {
                assert(self@ =~~= (StateV {
                    slots: old(self)@.slots.push(self.slots@[index as int]@),
                    ..old(self)@
                }));
            }
        } else {
            self.slots[index] = slot;
            proof {
                assert(self@ =~~= (StateV {
                    slots: old(self)@.slots.update(index as int, self.slots@[index as int]@),
                    ..old(self)@
                }));
            }
        }
    }
}

} // verus!
