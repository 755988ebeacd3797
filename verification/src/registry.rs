//! The device registry: the one owner of lock state.
//!
//! All insert/remove/lock/unlock mutations run through this registry, which
//! an actor thread drives off one ordered message queue, so no two threads
//! ever race on the device map. Devices are grouped by [`InputId`];
//! exclusive access is taken and released per device through the kernel
//! grab, and a systemic failure reported by the hotplug watcher is held as
//! one sticky error surfaced to exactly the next caller.

use vstd::prelude::*;

use crate::check_inputs::device_removed;
use crate::config::{seq_contains_string, InputFilter};
use crate::identity::{BlockableInput, InputId, NewInput};

verus! {

/// Declares evdev's device type so handles can live in registry entries;
/// its contents stay opaque here.
#[verifier::external_type_specification]
#[verifier::external_body]
pub struct ExEvdevDevice(evdev::Device);

/// Relies on evdev::Device::grab, the EVIOCGRAB ioctl: asks the kernel for
/// exclusive access to the device. Whether it is granted depends on the
/// system, so every outcome is left open.
pub assume_specification[ evdev::Device::grab ](dev: &mut evdev::Device) -> (r: Result<
    (),
    std::io::Error,
>);

/// Relies on evdev::Device::ungrab, the EVIOCGRAB release: gives exclusive
/// access back to the kernel. Every outcome is left open.
pub assume_specification[ evdev::Device::ungrab ](dev: &mut evdev::Device) -> (r: Result<
    (),
    std::io::Error,
>);

/// Relies on io::Error::kind: whether the error is the kernel's "resource
/// busy" (EBUSY), the transient contention that is skipped, never fatal.
#[verifier::external_body]
fn io_error_is_busy(e: &std::io::Error) -> bool {
    e.kind() == std::io::ErrorKind::ResourceBusy
}

/// Relies on the std `Display` impl of `io::Error` for the OS error
/// message carried in reported failures.
#[verifier::external_body]
fn io_error_details(e: &std::io::Error) -> String {
    format!("{e}")
}

/// The handle exclusive access is taken through: a real kernel device
/// node, or a synthetic one for test harnesses (the actor pattern is kept
/// testable by swapping the real transport out), which always grants.
pub enum DeviceHandle {
    Kernel(evdev::Device),
    Synthetic,
}

impl DeviceHandle {
    /// Takes the kernel grab; a synthetic handle always grants.
    fn grab(&mut self) -> Result<(), std::io::Error> {
        match self {
            DeviceHandle::Kernel(dev) => dev.grab(),
            DeviceHandle::Synthetic => Ok(()),
        }
    }

    /// Releases the kernel grab; a synthetic handle always grants.
    fn ungrab(&mut self) -> Result<(), std::io::Error> {
        match self {
            DeviceHandle::Kernel(dev) => dev.ungrab(),
            DeviceHandle::Synthetic => Ok(()),
        }
    }
}

/// One registered device node. Destroyed when the node is removed; the
/// `locked` flag is mutated only by the registry in response to lock and
/// unlock orders.
pub struct DeviceEntry {
    pub id: InputId,
    /// The node path, unique per entry within one identity.
    pub path: String,
    /// The advertised display name.
    pub name: String,
    /// Whether this registry holds the kernel grab on the device.
    pub locked: bool,
    /// The handle the grab is taken through.
    pub raw: DeviceHandle,
}

impl DeviceEntry {
    /// A freshly opened node starts unlocked.
    pub fn new(id: InputId, path: String, name: String, raw: DeviceHandle) -> (r: DeviceEntry)
        ensures
            r.id == id,
            r.path == path,
            r.name == name,
            !r.locked,
    {
        DeviceEntry { id, path, name, locked: false, raw }
    }
}

/// Whether a filter selects this entry: same identity and the entry's name
/// is in the filter's name list.
pub open spec fn entry_matches(e: DeviceEntry, f: InputFilter) -> bool {
    e.id == f.id && seq_contains_string(f.names@, e.name@)
}

/// Whether an entry registers the node `path` under identity `id`.
pub open spec fn key_eq(e: DeviceEntry, id: InputId, path: Seq<char>) -> bool {
    e.id == id && e.path@ == path
}

/// Entry metadata (identity, path, name) agrees; the lock flag may differ.
pub open spec fn same_meta(a: DeviceEntry, b: DeviceEntry) -> bool {
    a.id == b.id && a.path@ == b.path@ && a.name@ == b.name@
}

/// No two entries register the same node path under the same identity.
pub open spec fn keys_distinct(s: Seq<DeviceEntry>) -> bool {
    forall|i: int, j: int|
        0 <= i < j < s.len() ==> !#[trigger] key_eq(s[j], s[i].id, s[i].path@)
}

/// An error reported by a registry operation.
#[derive(Debug)]
pub enum RegistryError {
    /// The sticky systemic error left by the hotplug watcher, surfaced
    /// once and cleared; the scheduler treats it as fatal.
    Systemic(String),
    /// The kernel refused a grab for a reason that is neither contention
    /// nor removal.
    Grab { device: String, details: String },
    /// The kernel refused to release a grab on a device that is still
    /// present.
    Ungrab { device: String, details: String },
}

/// The registry state: the registered device nodes and the sticky error.
pub struct Registry {
    pub devices: Vec<DeviceEntry>,
    /// Systemic failure to surface to exactly the next caller.
    pub status_err: Option<String>,
}

impl Registry {
    pub open spec fn wf(self) -> bool {
        keys_distinct(self.devices@)
    }

    pub fn new() -> (r: Registry)
        ensures
            r.devices@.len() == 0,
            r.status_err is None,
            r.wf(),
    {
        Registry { devices: Vec::new(), status_err: None }
    }

    /// Records a systemic failure; the next operation will surface it.
    pub fn report_error(&mut self, msg: String)
        ensures
            final(self).status_err == Some(msg),
            final(self).devices@ == old(self).devices@,
    {
        self.status_err = Some(msg);
    }

    /// Surfaces the sticky error exactly once: an error left by the
    /// watcher is returned and cleared, otherwise the operation may go on.
    pub fn check_status(&mut self) -> (r: Result<(), String>)
        ensures
            final(self).status_err is None,
            final(self).devices@ == old(self).devices@,
            old(self).status_err matches Some(m) ==> r == Err::<(), String>(m),
            old(self).status_err is None ==> r is Ok,
    {
        match self.status_err.take() {
            Some(m) => Err(m),
            None => Ok(()),
        }
    }

    /// The index registering (`id`, `path`), if any.
    fn find_key(&self, id: InputId, path: &String) -> (r: Option<usize>)
        ensures
            r matches Some(i) ==> i < self.devices@.len() && key_eq(self.devices@[i as int], id, path@),
            r is None ==> forall|i: int|
                0 <= i < self.devices@.len() ==> !key_eq(#[trigger] self.devices@[i], id, path@),
    {
        let mut i: usize = 0;
        while i < self.devices.len()
            invariant
                0 <= i <= self.devices@.len(),
                forall|j: int| 0 <= j < i ==> !key_eq(#[trigger] self.devices@[j], id, path@),
            decreases self.devices@.len() - i,
        {
            let e = &self.devices[i];
            if e.id == id && e.path == *path {
                return Some(i);
            }
            i += 1;
        }
        None
    }

    /// Registers a node. A node already present under the same identity is
    /// replaced (its lock flag starts over as unlocked); the result says
    /// whether the node was new.
    pub fn insert(&mut self, id: InputId, name: String, path: String, raw: DeviceHandle) -> (is_new:
        bool)
        requires
            old(self).wf(),
        ensures
            final(self).wf(),
            final(self).status_err == old(self).status_err,
            is_new == !(exists|i: int|
                0 <= i < old(self).devices@.len() && key_eq(
                    #[trigger] old(self).devices@[i],
                    id,
                    path@,
                )),
            is_new ==> {
                &&& final(self).devices@.len() == old(self).devices@.len() + 1
                &&& forall|j: int|
                    0 <= j < old(self).devices@.len() ==> final(self).devices@[j] == old(
                        self,
                    ).devices@[j]
                &&& key_eq(final(self).devices@.last(), id, path@)
                &&& final(self).devices@.last().name == name
                &&& !final(self).devices@.last().locked
            },
            !is_new ==> {
                &&& final(self).devices@.len() == old(self).devices@.len()
                &&& exists|i: int|
                    {
                        &&& 0 <= i < old(self).devices@.len()
                        &&& key_eq(#[trigger] old(self).devices@[i], id, path@)
                        &&& key_eq(final(self).devices@[i], id, path@)
                        &&& final(self).devices@[i].name == name
                        &&& !final(self).devices@[i].locked
                        &&& forall|j: int|
                            0 <= j < old(self).devices@.len() && j != i ==> final(self).devices@[j]
                                == old(self).devices@[j]
                    }
            },
    {
        let entry = DeviceEntry::new(id, path.clone(), name, raw);
        match self.find_key(id, &path) {
            Some(i) => {
                self.devices[i] = entry;
                proof {
                    assert(key_eq(self.devices@[i as int], id, path@));
                }
                false
            },
            None => {
                self.devices.push(entry);
                true
            },
        }
    }

    /// The entries that register a different node path.
    pub open spec fn keeps_other_path(path: Seq<char>) -> spec_fn(DeviceEntry) -> bool {
        |e: DeviceEntry| e.path@ != path
    }

    /// Purges every entry for a removed node path, whichever identities it
    /// was registered under, and reports the display names that vanished.
    pub fn remove(&mut self, path: &String) -> (removed: Vec<String>)
        requires
            old(self).wf(),
        ensures
            final(self).wf(),
            final(self).status_err == old(self).status_err,
            final(self).devices@ == old(self).devices@.filter(Registry::keeps_other_path(path@)),
            removed@ == old(self).devices@.filter(
                |e: DeviceEntry| e.path@ == path@,
            ).map_values(|e: DeviceEntry| e.name),
    {
        let ghost orig = self.devices@;
        let ghost keep = Registry::keeps_other_path(path@);
        let ghost gone = |e: DeviceEntry| e.path@ == path@;
        let mut removed: Vec<String> = Vec::new();
        let ghost mut k: int = 0;
        let mut i: usize = 0;
        while i < self.devices.len()
            invariant
                0 <= k <= orig.len(),
                i == orig.take(k).filter(keep).len(),
                self.devices@ == orig.take(k).filter(keep) + orig.skip(k),
                self.status_err == old(self).status_err,
                removed@ == orig.take(k).filter(gone).map_values(|e: DeviceEntry| e.name),
                i <= self.devices@.len(),
                keep == Registry::keeps_other_path(path@),
                gone == (|e: DeviceEntry| e.path@ == path@),
            decreases self.devices@.len() - i,
        {
            let ghost prefix = orig.take(k).filter(keep);
            proof {
                assert(orig.take(k + 1).drop_last() == orig.take(k));
                assert(orig.take(k + 1).last() == orig[k]);
                reveal(Seq::filter);
                assert(orig.skip(k)[0] == orig[k]);
                assert(self.devices@[i as int] == orig[k]);
                assert(orig.skip(k) =~= seq![orig[k]] + orig.skip(k + 1));
            }
            let same = self.devices[i].path == *path;
            if same {
                let e = self.devices.remove(i);
                removed.push(e.name);
                proof {
                    assert(orig.take(k + 1).filter(keep) == prefix);
                    assert(orig.take(k + 1).filter(gone) == orig.take(k).filter(gone).push(
                        orig[k],
                    ));
                    assert(self.devices@ =~= prefix + orig.skip(k + 1));
                    assert(removed@ =~= orig.take(k + 1).filter(gone).map_values(
                        |e: DeviceEntry| e.name,
                    ));
                }
            } else {
                i += 1;
                proof {
                    assert(orig.take(k + 1).filter(keep) == prefix.push(orig[k]));
                    assert(orig.take(k + 1).filter(gone) == orig.take(k).filter(gone));
                    assert(self.devices@ =~= prefix.push(orig[k]) + orig.skip(k + 1));
                    assert(removed@ =~= orig.take(k + 1).filter(gone).map_values(
                        |e: DeviceEntry| e.name,
                    ));
                }
            }
            proof {
                k = k + 1;
            }
        }
        proof {
            assert(orig.take(k) =~= orig);
            lemma_filter_keeps_distinct_keys(orig, keep);
        }
        removed
    }
}

impl Registry {
    /// Whether every device the filter selects is already locked, so that
    /// a lock order has nothing left to do.
    pub open spec fn all_matching_locked(self, f: InputFilter) -> bool {
        forall|i: int|
            0 <= i < self.devices@.len() && entry_matches(#[trigger] self.devices@[i], f)
                ==> self.devices@[i].locked
    }

    /// Whether no device the filter selects is locked, so that an unlock
    /// order has nothing left to do.
    pub open spec fn none_matching_locked(self, f: InputFilter) -> bool {
        forall|i: int|
            0 <= i < self.devices@.len() && entry_matches(#[trigger] self.devices@[i], f)
                ==> !self.devices@[i].locked
    }

    /// Whether `filter` selects the entry, checked by contents.
    fn matches_filter(e: &DeviceEntry, filter: &InputFilter) -> (r: bool)
        ensures
            r == entry_matches(*e, *filter),
    {
        e.id == filter.id && crate::config::names_contain(&filter.names, &e.name)
    }

    /// Grabs every currently unlocked device the filter selects. An
    /// already locked device is left alone, so repeating a lock order is
    /// idempotent and re-issues no grab. A busy device is skipped for this
    /// cycle; a vanished device is informational; any other refusal is
    /// reported and ends the sweep. An unknown identity locks nothing and
    /// succeeds. A sticky systemic error is surfaced first instead.
    pub fn lock_all_matching(&mut self, filter: &InputFilter) -> (r: Result<(), RegistryError>)
        requires
            old(self).wf(),
        ensures
            final(self).wf(),
            final(self).status_err is None,
            final(self).devices@.len() == old(self).devices@.len(),
            forall|j: int|
                0 <= j < old(self).devices@.len() ==> same_meta(
                    #[trigger] final(self).devices@[j],
                    old(self).devices@[j],
                ),
            forall|j: int|
                0 <= j < old(self).devices@.len() && !entry_matches(
                    #[trigger] old(self).devices@[j],
                    *filter,
                ) ==> final(self).devices@[j] == old(self).devices@[j],
            forall|j: int|
                0 <= j < old(self).devices@.len() && (#[trigger] old(self).devices@[j]).locked
                    ==> final(self).devices@[j].locked,
            old(self).status_err matches Some(m) ==> r == Err::<(), RegistryError>(
                RegistryError::Systemic(m),
            ) && final(self).devices@ == old(self).devices@,
            old(self).status_err is None ==> !(r matches Err(RegistryError::Systemic(_))),
            (old(self).status_err is None && old(self).all_matching_locked(*filter)) ==> (r is Ok
                && final(self).devices@ == old(self).devices@),
            r matches Err(RegistryError::Grab { device, details }) ==> exists|j: int|
                0 <= j < old(self).devices@.len() && entry_matches(
                    #[trigger] old(self).devices@[j],
                    *filter,
                ) && !old(self).devices@[j].locked && old(self).devices@[j].name@ == device@,
            !(r matches Err(RegistryError::Ungrab { device, details })),
    {
        if let Err(m) = self.check_status() {
            return Err(RegistryError::Systemic(m));
        }
        let ghost orig = self.devices@;
        let mut i: usize = 0;
        while i < self.devices.len()
            invariant
                orig == old(self).devices@,
                old(self).status_err is None,
                keys_distinct(orig),
                self.devices@.len() == orig.len(),
                self.status_err is None,
                0 <= i <= orig.len(),
                forall|j: int|
                    0 <= j < orig.len() ==> same_meta(#[trigger] self.devices@[j], orig[j]),
                forall|j: int|
                    0 <= j < orig.len() && !entry_matches(#[trigger] orig[j], *filter)
                        ==> self.devices@[j] == orig[j],
                forall|j: int|
                    0 <= j < orig.len() && (#[trigger] orig[j]).locked ==> self.devices@[j].locked,
                (forall|j: int|
                    0 <= j < orig.len() && entry_matches(#[trigger] orig[j], *filter)
                        ==> orig[j].locked) ==> self.devices@ == orig,
            decreases orig.len() - i,
        {
            let wants_lock = {
                let e = &self.devices[i];
                !e.locked && Registry::matches_filter(e, filter)
            };
            proof {
                assert(same_meta(self.devices@[i as int], orig[i as int]));
                assert(entry_matches(self.devices@[i as int], *filter) == entry_matches(
                    orig[i as int],
                    *filter,
                ));
            }
            if wants_lock {
                let device = self.devices[i].name.clone();
                let res = {
                    let entry = &mut self.devices[i];
                    let res = entry.raw.grab();
                    if res.is_ok() {
                        entry.locked = true;
                    }
                    res
                };
                match res {
                    Ok(()) => {},
                    Err(e) => {
                        if io_error_is_busy(&e) {
                            // transient contention: skip, retry next cycle
                        } else if device_removed(&e) {
                            // the node vanished mid-operation: informational
                        } else {
                            let details = io_error_details(&e);
                            proof {
                                lemma_meta_preserved_keys_distinct(self.devices@, orig);
                                assert(entry_matches(orig[i as int], *filter));
                                assert(!orig[i as int].locked);
                                assert(orig[i as int].name@ == device@);
                            }
                            return Err(RegistryError::Grab { device, details });
                        }
                    },
                }
            }
            i += 1;
        }
        proof {
            lemma_meta_preserved_keys_distinct(self.devices@, orig);
        }
        Ok(())
    }

    /// Releases the grab on every locked device the filter selects. An
    /// unlocked device is left alone, a vanished one is informational (its
    /// flag stays, the node is gone anyway); any other refusal is reported
    /// and ends the sweep. A sticky systemic error is surfaced first.
    pub fn unlock_all_matching(&mut self, filter: &InputFilter) -> (r: Result<(), RegistryError>)
        requires
            old(self).wf(),
        ensures
            final(self).wf(),
            final(self).status_err is None,
            final(self).devices@.len() == old(self).devices@.len(),
            forall|j: int|
                0 <= j < old(self).devices@.len() ==> same_meta(
                    #[trigger] final(self).devices@[j],
                    old(self).devices@[j],
                ),
            forall|j: int|
                0 <= j < old(self).devices@.len() && !entry_matches(
                    #[trigger] old(self).devices@[j],
                    *filter,
                ) ==> final(self).devices@[j] == old(self).devices@[j],
            forall|j: int|
                0 <= j < old(self).devices@.len() && !(#[trigger] old(self).devices@[j]).locked
                    ==> !final(self).devices@[j].locked,
            old(self).status_err matches Some(m) ==> r == Err::<(), RegistryError>(
                RegistryError::Systemic(m),
            ) && final(self).devices@ == old(self).devices@,
            old(self).status_err is None ==> !(r matches Err(RegistryError::Systemic(_))),
            (old(self).status_err is None && old(self).none_matching_locked(*filter)) ==> (r is Ok
                && final(self).devices@ == old(self).devices@),
            r matches Err(RegistryError::Ungrab { device, details }) ==> exists|j: int|
                0 <= j < old(self).devices@.len() && entry_matches(
                    #[trigger] old(self).devices@[j],
                    *filter,
                ) && old(self).devices@[j].locked && old(self).devices@[j].name@ == device@,
            !(r matches Err(RegistryError::Grab { device, details })),
    {
        if let Err(m) = self.check_status() {
            return Err(RegistryError::Systemic(m));
        }
        let ghost orig = self.devices@;
        let mut i: usize = 0;
        while i < self.devices.len()
            invariant
                orig == old(self).devices@,
                old(self).status_err is None,
                keys_distinct(orig),
                self.devices@.len() == orig.len(),
                self.status_err is None,
                0 <= i <= orig.len(),
                forall|j: int|
                    0 <= j < orig.len() ==> same_meta(#[trigger] self.devices@[j], orig[j]),
                forall|j: int|
                    0 <= j < orig.len() && !entry_matches(#[trigger] orig[j], *filter)
                        ==> self.devices@[j] == orig[j],
                forall|j: int|
                    0 <= j < orig.len() && !(#[trigger] orig[j]).locked
                        ==> !self.devices@[j].locked,
                (forall|j: int|
                    0 <= j < orig.len() && entry_matches(#[trigger] orig[j], *filter)
                        ==> !orig[j].locked) ==> self.devices@ == orig,
            decreases orig.len() - i,
        {
            let wants_unlock = {
                let e = &self.devices[i];
                e.locked && Registry::matches_filter(e, filter)
            };
            proof {
                assert(same_meta(self.devices@[i as int], orig[i as int]));
                assert(entry_matches(self.devices@[i as int], *filter) == entry_matches(
                    orig[i as int],
                    *filter,
                ));
            }
            if wants_unlock {
                let device = self.devices[i].name.clone();
                let res = {
                    let entry = &mut self.devices[i];
                    let res = entry.raw.ungrab();
                    if res.is_ok() {
                        entry.locked = false;
                    }
                    res
                };
                match res {
                    Ok(()) => {},
                    Err(e) => {
                        if device_removed(&e) {
                            // the node vanished: nothing left to release
                        } else {
                            let details = io_error_details(&e);
                            proof {
                                lemma_meta_preserved_keys_distinct(self.devices@, orig);
                                assert(entry_matches(orig[i as int], *filter));
                                assert(orig[i as int].locked);
                                assert(orig[i as int].name@ == device@);
                            }
                            return Err(RegistryError::Ungrab { device, details });
                        }
                    },
                }
            }
            i += 1;
        }
        proof {
            lemma_meta_preserved_keys_distinct(self.devices@, orig);
        }
        Ok(())
    }
}

/// The entries registered under one identity.
pub open spec fn has_id(id: InputId) -> spec_fn(DeviceEntry) -> bool {
    |e: DeviceEntry| e.id == id
}

/// The names (as character sequences) of the devices registered under one
/// identity, in registration order.
pub open spec fn id_group_names(devs: Seq<DeviceEntry>, id: InputId) -> Seq<Seq<char>> {
    devs.filter(has_id(id)).map_values(|e: DeviceEntry| e.name@)
}

/// The identities the groups list, in order.
pub open spec fn group_ids(groups: Seq<BlockableInput>) -> Seq<InputId> {
    groups.map_values(|g: BlockableInput| g.id)
}

/// The identities of the registered devices, in order.
pub open spec fn device_ids(devs: Seq<DeviceEntry>) -> Seq<InputId> {
    devs.map_values(|e: DeviceEntry| e.id)
}

/// The raw grouping the listing collects before its names are ordered:
/// one group per registered identity, no identity twice, and each group
/// carries exactly the names of the node paths registered under it, in
/// registration order.
pub open spec fn groups_collected(devs: Seq<DeviceEntry>, groups: Seq<BlockableInput>) -> bool {
    &&& forall|a: int, b: int|
        0 <= a < b < groups.len() ==> (#[trigger] groups[a]).id != (#[trigger] groups[b]).id
    &&& forall|k: int|
        0 <= k < devs.len() ==> group_ids(groups).contains((#[trigger] devs[k]).id)
    &&& forall|g: int|
        0 <= g < groups.len() ==> device_ids(devs).contains((#[trigger] groups[g]).id)
    &&& forall|g: int|
        0 <= g < groups.len() ==> crate::config::names_view((#[trigger] groups[g]).names@)
            == id_group_names(devs, groups[g].id)
}

/// What a correct listing looks like: one group per registered identity,
/// no identity twice, and each group carries — sorted — exactly the
/// names of the node paths registered under it.
pub open spec fn groups_devices(devs: Seq<DeviceEntry>, groups: Seq<BlockableInput>) -> bool {
    &&& forall|a: int, b: int|
        0 <= a < b < groups.len() ==> (#[trigger] groups[a]).id != (#[trigger] groups[b]).id
    &&& forall|k: int|
        0 <= k < devs.len() ==> group_ids(groups).contains((#[trigger] devs[k]).id)
    &&& forall|g: int|
        0 <= g < groups.len() ==> device_ids(devs).contains((#[trigger] groups[g]).id)
    &&& forall|g: int| 0 <= g < groups.len() ==> crate::names::names_sorted(
        (#[trigger] groups[g]).names@,
    )
    &&& forall|g: int|
        0 <= g < groups.len() ==> crate::config::names_view(
            (#[trigger] groups[g]).names@,
        ).to_multiset() == id_group_names(devs, groups[g].id).to_multiset()
}

impl Registry {
    /// The index of the group carrying `id`, if one exists yet.
    fn find_group(groups: &Vec<BlockableInput>, id: InputId) -> (r: Option<usize>)
        ensures
            r matches Some(g) ==> g < groups@.len() && groups@[g as int].id == id,
            r is None ==> forall|g: int|
                0 <= g < groups@.len() ==> (#[trigger] groups@[g]).id != id,
    {
        let mut g: usize = 0;
        while g < groups.len()
            invariant
                0 <= g <= groups@.len(),
                forall|j: int| 0 <= j < g ==> (#[trigger] groups@[j]).id != id,
            decreases groups@.len() - g,
        {
            if groups[g].id == id {
                return Some(g);
            }
            g += 1;
        }
        None
    }

    /// Lists the registered devices grouped exactly by identity: one group
    /// per identity present, carrying the display names of that identity's
    /// node paths, sorted — as many names as paths. A sticky systemic
    /// error is surfaced instead, once.
    pub fn list_inputs(&mut self) -> (r: Result<Vec<BlockableInput>, String>)
        requires
            old(self).wf(),
        ensures
            final(self).wf(),
            final(self).devices@ == old(self).devices@,
            final(self).status_err is None,
            old(self).status_err matches Some(m) ==> r == Err::<Vec<BlockableInput>, String>(m),
            old(self).status_err is None ==> r is Ok,
            r matches Ok(groups) ==> groups_devices(old(self).devices@, groups@),
            r matches Ok(groups) ==> forall|g: int|
                0 <= g < groups@.len() ==> (#[trigger] groups@[g]).names@.len() == old(
                    self,
                ).devices@.filter(has_id(groups@[g].id)).len(),
    {
        if let Err(m) = self.check_status() {
            return Err(m);
        }
        let ghost devs = self.devices@;
        let mut groups: Vec<BlockableInput> = Vec::new();
        let mut k: usize = 0;
        while k < self.devices.len()
            invariant
                self.devices@ == devs,
                self.status_err is None,
                0 <= k <= devs.len(),
                groups_collected(devs.take(k as int), groups@),
            decreases devs.len() - k,
        {
            let ghost pre = groups@;
            let e_id = self.devices[k].id;
            let e_name = self.devices[k].name.clone();
            match Registry::find_group(&groups, e_id) {
                Some(g) => {
                    groups[g].names.push(e_name);
                    proof {
                        assert(crate::config::names_view(groups@[g as int].names@)
                            =~= crate::config::names_view(pre[g as int].names@).push(
                            devs[k as int].name@,
                        ));
                        lemma_group_extended(devs, pre, groups@, k as int, g as int);
                    }
                },
                None => {
                    let mut names: Vec<String> = Vec::new();
                    names.push(e_name);
                    groups.push(BlockableInput { id: e_id, names });
                    proof {
                        assert(crate::config::names_view(groups@.last().names@) =~= seq![
                            devs[k as int].name@,
                        ]);
                        lemma_group_added(devs, pre, groups@, k as int);
                    }
                },
            }
            k += 1;
        }
        proof {
            assert(devs.take(devs.len() as int) =~= devs);
        }
        let ghost collected = groups@;
        let mut g: usize = 0;
        while g < groups.len()
            invariant
                self.devices@ == devs,
                self.status_err is None,
                groups_collected(devs, collected),
                groups@.len() == collected.len(),
                0 <= g <= groups@.len(),
                forall|j: int|
                    0 <= j < groups@.len() ==> (#[trigger] groups@[j]).id == collected[j].id,
                forall|j: int|
                    g <= j < groups@.len() ==> (#[trigger] groups@[j]).names@
                        == collected[j].names@,
                forall|j: int|
                    0 <= j < g ==> crate::names::names_sorted((#[trigger] groups@[j]).names@),
                forall|j: int|
                    0 <= j < g ==> crate::config::names_view(
                        (#[trigger] groups@[j]).names@,
                    ).to_multiset() == crate::config::names_view(collected[j].names@).to_multiset(),
                forall|j: int|
                    0 <= j < g ==> (#[trigger] groups@[j]).names@.len()
                        == collected[j].names@.len(),
            decreases groups@.len() - g,
        {
            let entry = &mut groups[g];
            crate::names::sort_names(&mut entry.names);
            g += 1;
        }
        proof {
            lemma_sorting_keeps_grouping(devs, collected, groups@);
            assert(forall|j: int|
                0 <= j < groups@.len() ==> (#[trigger] groups@[j]).names@.len() == devs.filter(
                    has_id(groups@[j].id),
                ).len()) by {
                assert(forall|j: int|
                    0 <= j < groups@.len() ==> crate::config::names_view(
                        (#[trigger] collected[j]).names@,
                    ).len() == collected[j].names@.len());
            }
        }
        Ok(groups)
    }
}

/// Sorting each group's names in place leaves the listing grouped exactly
/// as collected: the identities and their coverage are untouched, and
/// each group keeps the same collection of names, now in order.
proof fn lemma_sorting_keeps_grouping(
    devs: Seq<DeviceEntry>,
    collected: Seq<BlockableInput>,
    post: Seq<BlockableInput>,
)
    requires
        groups_collected(devs, collected),
        post.len() == collected.len(),
        forall|j: int| 0 <= j < post.len() ==> (#[trigger] post[j]).id == collected[j].id,
        forall|j: int|
            0 <= j < post.len() ==> crate::names::names_sorted((#[trigger] post[j]).names@),
        forall|j: int|
            0 <= j < post.len() ==> crate::config::names_view(
                (#[trigger] post[j]).names@,
            ).to_multiset() == crate::config::names_view(collected[j].names@).to_multiset(),
    ensures
        groups_devices(devs, post),
{
    assert(group_ids(post) =~= group_ids(collected));
    assert forall|a: int, b: int| 0 <= a < b < post.len() implies (#[trigger] post[a]).id != (
    #[trigger] post[b]).id by {
        assert(collected[a].id != collected[b].id);
    }
    assert forall|k: int| 0 <= k < devs.len() implies group_ids(post).contains(
        (#[trigger] devs[k]).id,
    ) by {
        assert(group_ids(collected).contains(devs[k].id));
    }
    assert forall|g: int| 0 <= g < post.len() implies device_ids(devs).contains(
        (#[trigger] post[g]).id,
    ) by {
        assert(device_ids(devs).contains(collected[g].id));
    }
    assert forall|g: int| 0 <= g < post.len() implies crate::config::names_view(
        (#[trigger] post[g]).names@,
    ).to_multiset() == id_group_names(devs, post[g].id).to_multiset() by {
        assert(crate::config::names_view(collected[g].names@) == id_group_names(
            devs,
            collected[g].id,
        ));
    }
}

/// How one more element changes a filtered prefix.
pub(crate) proof fn lemma_filter_take_step<A>(s: Seq<A>, pred: spec_fn(A) -> bool, k: int)
    requires
        0 <= k < s.len(),
    ensures
        pred(s[k]) ==> s.take(k + 1).filter(pred) == s.take(k).filter(pred).push(s[k]),
        !pred(s[k]) ==> s.take(k + 1).filter(pred) == s.take(k).filter(pred),
{
    reveal(Seq::filter);
    assert(s.take(k + 1).drop_last() == s.take(k));
    assert(s.take(k + 1).last() == s[k]);
}

/// Appending a device of an already listed identity to that identity's
/// group keeps the listing exact.
#[verifier::rlimit(40)]
proof fn lemma_group_extended(
    devs: Seq<DeviceEntry>,
    pre: Seq<BlockableInput>,
    post: Seq<BlockableInput>,
    k: int,
    g: int,
)
    requires
        0 <= k < devs.len(),
        groups_collected(devs.take(k), pre),
        0 <= g < pre.len(),
        pre[g].id == devs[k].id,
        post.len() == pre.len(),
        forall|j: int| 0 <= j < pre.len() && j != g ==> post[j] == pre[j],
        post[g].id == pre[g].id,
        crate::config::names_view(post[g].names@) == crate::config::names_view(
            pre[g].names@,
        ).push(devs[k].name@),
    ensures
        groups_collected(devs.take(k + 1), post),
{
    let e = devs[k];
    assert(devs.take(k + 1)[k] == e);
    assert forall|j: int| 0 <= j < post.len() implies crate::config::names_view(
        (#[trigger] post[j]).names@,
    ) == id_group_names(devs.take(k + 1), post[j].id) by {
        lemma_filter_take_step(devs, has_id(post[j].id), k);
        if j == g {
            assert(has_id(post[g].id)(e));
            assert(id_group_names(devs.take(k + 1), post[g].id) =~= id_group_names(
                devs.take(k),
                pre[g].id,
            ).push(e.name@));
        } else {
            assert(post[j].id != e.id);
            assert(!has_id(post[j].id)(e));
        }
    }
    assert(group_ids(post) =~= group_ids(pre));
    assert(device_ids(devs.take(k + 1)) =~= device_ids(devs.take(k)).push(e.id));
    assert forall|m: int| 0 <= m < devs.take(k + 1).len() implies group_ids(post).contains(
        (#[trigger] devs.take(k + 1)[m]).id,
    ) by {
        if m < k {
            assert(devs.take(k + 1)[m] == devs.take(k)[m]);
            assert(group_ids(pre).contains(devs.take(k)[m].id));
        } else {
            assert(group_ids(post)[g] == e.id);
        }
    }
    assert forall|j: int| 0 <= j < post.len() implies device_ids(devs.take(k + 1)).contains(
        (#[trigger] post[j]).id,
    ) by {
        assert(device_ids(devs.take(k)).contains(pre[j].id));
        let c = choose|c: int|
            0 <= c < device_ids(devs.take(k)).len() && device_ids(devs.take(k))[c] == pre[j].id;
        assert(device_ids(devs.take(k + 1))[c] == post[j].id);
    }
}

/// Opening a new group for a first-seen identity keeps the listing exact.
proof fn lemma_group_added(
    devs: Seq<DeviceEntry>,
    pre: Seq<BlockableInput>,
    post: Seq<BlockableInput>,
    k: int,
)
    requires
        0 <= k < devs.len(),
        groups_collected(devs.take(k), pre),
        forall|j: int| 0 <= j < pre.len() ==> (#[trigger] pre[j]).id != devs[k].id,
        post.len() == pre.len() + 1,
        forall|j: int| 0 <= j < pre.len() ==> post[j] == pre[j],
        post.last().id == devs[k].id,
        crate::config::names_view(post.last().names@) == seq![devs[k].name@],
    ensures
        groups_collected(devs.take(k + 1), post),
{
    let e = devs[k];
    assert(devs.take(k + 1)[k] == e);
    let gnew = pre.len() as int;
    // no earlier device carries the new identity, else its group would
    assert(devs.take(k).filter(has_id(e.id)).len() == 0) by {
        if devs.take(k).filter(has_id(e.id)).len() > 0 {
            let fs = devs.take(k).filter(has_id(e.id));
            assert(fs[0] == fs.first());
            assert(fs.contains(fs[0]));
            lemma_filter_is_subset(devs.take(k), has_id(e.id));
            assert(devs.take(k).contains(fs[0]));
            let m = choose|m: int| 0 <= m < devs.take(k).len() && devs.take(k)[m] == fs[0];
            assert(has_id(e.id)(fs[0]));
            assert(devs.take(k)[m].id == e.id);
            assert(group_ids(pre).contains(devs.take(k)[m].id));
            let j = choose|j: int|
                0 <= j < group_ids(pre).len() && group_ids(pre)[j] == devs.take(k)[m].id;
            assert(pre[j].id == e.id);
            assert(false);
        }
    }
    assert forall|j: int| 0 <= j < post.len() implies crate::config::names_view(
        (#[trigger] post[j]).names@,
    ) == id_group_names(devs.take(k + 1), post[j].id) by {
        lemma_filter_take_step(devs, has_id(post[j].id), k);
        if j == gnew {
            assert(has_id(e.id)(e));
            assert(id_group_names(devs.take(k + 1), e.id) =~= seq![e.name@]);
        } else {
            assert(post[j].id != e.id);
            assert(!has_id(post[j].id)(e));
        }
    }
    assert(group_ids(post) =~= group_ids(pre).push(e.id));
    assert(device_ids(devs.take(k + 1)) =~= device_ids(devs.take(k)).push(e.id));
    assert forall|m: int| 0 <= m < devs.take(k + 1).len() implies group_ids(post).contains(
        (#[trigger] devs.take(k + 1)[m]).id,
    ) by {
        if m < k {
            assert(devs.take(k + 1)[m] == devs.take(k)[m]);
            assert(group_ids(pre).contains(devs.take(k)[m].id));
            let c = choose|c: int|
                0 <= c < group_ids(pre).len() && group_ids(pre)[c] == devs.take(k)[m].id;
            assert(group_ids(post)[c] == devs.take(k + 1)[m].id);
        } else {
            assert(group_ids(post)[gnew] == e.id);
        }
    }
    assert forall|j: int| 0 <= j < post.len() implies device_ids(devs.take(k + 1)).contains(
        (#[trigger] post[j]).id,
    ) by {
        if j < gnew {
            assert(device_ids(devs.take(k)).contains(pre[j].id));
            let c = choose|c: int|
                0 <= c < device_ids(devs.take(k)).len() && device_ids(devs.take(k))[c]
                    == pre[j].id;
            assert(device_ids(devs.take(k + 1))[c] == post[j].id);
        } else {
            assert(device_ids(devs.take(k + 1))[k] == e.id);
        }
    }
}

/// Entries whose metadata agrees pairwise have the same keys, so key
/// distinctness carries over.
proof fn lemma_meta_preserved_keys_distinct(a: Seq<DeviceEntry>, b: Seq<DeviceEntry>)
    requires
        a.len() == b.len(),
        forall|j: int| 0 <= j < a.len() ==> same_meta(#[trigger] a[j], b[j]),
        keys_distinct(b),
    ensures
        keys_distinct(a),
{
    assert forall|i: int, j: int|
        0 <= i < j < a.len() implies !#[trigger] key_eq(a[j], a[i].id, a[i].path@) by {
        assert(same_meta(a[i], b[i]));
        assert(same_meta(a[j], b[j]));
        assert(!key_eq(b[j], b[i].id, b[i].path@));
    }
}

/// Every element a filter keeps was an element of the original sequence.
proof fn lemma_filter_is_subset<A>(s: Seq<A>, pred: spec_fn(A) -> bool)
    ensures
        forall|x: A| s.filter(pred).contains(x) ==> s.contains(x),
    decreases s.len(),
{
    reveal(Seq::filter);
    if s.len() > 0 {
        lemma_filter_is_subset(s.drop_last(), pred);
        assert forall|x: A| s.filter(pred).contains(x) implies s.contains(x) by {
            if s.drop_last().filter(pred).contains(x) {
                assert(s.drop_last().contains(x));
                let i = choose|i: int|
                    0 <= i < s.drop_last().len() && s.drop_last()[i] == x;
                assert(s[i] == x);
            } else {
                assert(x == s.last());
            }
        }
    }
}

/// Removing entries keeps the remaining keys pairwise distinct.
proof fn lemma_filter_keeps_distinct_keys(s: Seq<DeviceEntry>, pred: spec_fn(DeviceEntry) -> bool)
    requires
        keys_distinct(s),
    ensures
        keys_distinct(s.filter(pred)),
    decreases s.len(),
{
    reveal(Seq::filter);
    if s.len() > 0 {
        assert(keys_distinct(s.drop_last())) by {
            assert(forall|i: int, j: int|
                0 <= i < j < s.drop_last().len() ==> !#[trigger] key_eq(
                    s.drop_last()[j],
                    s.drop_last()[i].id,
                    s.drop_last()[i].path@,
                )) by {
                assert(forall|i: int|
                    0 <= i < s.drop_last().len() ==> s.drop_last()[i] == s[i]);
            }
        }
        lemma_filter_keeps_distinct_keys(s.drop_last(), pred);
        if pred(s.last()) {
            let fs = s.filter(pred);
            let head = s.drop_last().filter(pred);
            assert(fs == head.push(s.last()));
            lemma_filter_is_subset(s.drop_last(), pred);
            assert forall|i: int, j: int|
                0 <= i < j < fs.len() implies !#[trigger] key_eq(
                fs[j],
                fs[i].id,
                fs[i].path@,
            ) by {
                if j < head.len() {
                    assert(fs[i] == head[i] && fs[j] == head[j]);
                } else {
                    assert(fs[j] == s.last());
                    assert(fs[i] == head[i]);
                    assert(head.contains(head[i]));
                    assert(s.drop_last().contains(head[i]));
                    let m = choose|m: int|
                        0 <= m < s.drop_last().len() && s.drop_last()[m] == head[i];
                    assert(s[m] == head[i]);
                    assert(!key_eq(s[s.len() - 1], s[m].id, s[m].path@));
                }
            }
        }
    }
}

impl RegistryError {
    /// A human-readable account of the failure.
    pub fn describe(&self) -> (r: String)
        ensures
            self matches RegistryError::Systemic(m) ==> r@ == m@,
            self matches RegistryError::Grab { device, details } ==> r@
                == "Could not grab (acquire exclusive access) to device, device name: "@ + device@
                + ", "@ + details@,
            self matches RegistryError::Ungrab { device, details } ==> r@
                == "Could not ungrab (release exclusive access) to device, device name: "@
                + device@ + ", "@ + details@,
    {
        match self {
            RegistryError::Systemic(m) => m.clone(),
            RegistryError::Grab { device, details } => {
                let mut s =
                    "Could not grab (acquire exclusive access) to device, device name: ".to_owned();
                s.append(device.as_str());
                s.append(", ");
                s.append(details.as_str());
                s
            },
            RegistryError::Ungrab { device, details } => {
                let mut s =
                    "Could not ungrab (release exclusive access) to device, device name: ".to_owned();
                s.append(device.as_str());
                s.append(", ");
                s.append(details.as_str());
                s
            },
        }
    }
}

impl Registry {
    /// One hot-added node: registers it and re-applies every currently
    /// held filter, so a device rejoining a locked identity group is
    /// locked again before input can leak. A failure to re-lock becomes
    /// the sticky error. Announces the device if its node was new.
    pub fn on_device_added(
        &mut self,
        id: InputId,
        name: String,
        path: String,
        raw: DeviceHandle,
        held: &Vec<InputFilter>,
    ) -> (r: Option<NewInput>)
        requires
            old(self).wf(),
        ensures
            final(self).wf(),
            (r is Some) == !(exists|i: int|
                0 <= i < old(self).devices@.len() && key_eq(
                    #[trigger] old(self).devices@[i],
                    id,
                    path@,
                )),
            r matches Some(n) ==> n.id == id && n.name@ == name@ && n.path@ == path@,
            exists|i: int|
                0 <= i < final(self).devices@.len() && key_eq(
                    #[trigger] final(self).devices@[i],
                    id,
                    path@,
                ),
            r is Some ==> final(self).devices@.len() == old(self).devices@.len() + 1,
            r is None ==> final(self).devices@.len() == old(self).devices@.len(),
            forall|j: int|
                0 <= j < old(self).devices@.len() && !key_eq(
                    #[trigger] old(self).devices@[j],
                    id,
                    path@,
                ) ==> same_meta(final(self).devices@[j], old(self).devices@[j]),
            forall|j: int|
                0 <= j < old(self).devices@.len() && !key_eq(
                    #[trigger] old(self).devices@[j],
                    id,
                    path@,
                ) && old(self).devices@[j].locked ==> final(self).devices@[j].locked,
            held@.len() == 0 ==> final(self).status_err == old(self).status_err,
    {
        let is_new = self.insert(id, name.clone(), path.clone(), raw);
        proof {
            assert(exists|i: int|
                0 <= i < self.devices@.len() && key_eq(#[trigger] self.devices@[i], id, path@));
            assert(forall|j: int|
                0 <= j < old(self).devices@.len() && !key_eq(
                    #[trigger] old(self).devices@[j],
                    id,
                    path@,
                ) ==> self.devices@[j] == old(self).devices@[j]);
        }
        let ghost len_after_insert = self.devices@.len();
        let mut fi: usize = 0;
        while fi < held.len()
            invariant
                self.wf(),
                self.devices@.len() == len_after_insert,
                len_after_insert >= old(self).devices@.len(),
                exists|i: int|
                    0 <= i < self.devices@.len() && key_eq(#[trigger] self.devices@[i], id, path@),
                forall|j: int|
                    0 <= j < old(self).devices@.len() && !key_eq(
                        #[trigger] old(self).devices@[j],
                        id,
                        path@,
                    ) ==> same_meta(self.devices@[j], old(self).devices@[j]),
                forall|j: int|
                    0 <= j < old(self).devices@.len() && !key_eq(
                        #[trigger] old(self).devices@[j],
                        id,
                        path@,
                    ) && old(self).devices@[j].locked ==> self.devices@[j].locked,
                held@.len() == 0 ==> self.status_err == old(self).status_err,
            decreases held@.len() - fi,
        {
            let ghost before = self.devices@;
            let res = self.lock_all_matching(&held[fi]);
            proof {
                let w = choose|i: int|
                    0 <= i < before.len() && key_eq(#[trigger] before[i], id, path@);
                assert(same_meta(self.devices@[w], before[w]));
                assert(key_eq(self.devices@[w], id, path@));
                assert forall|j: int|
                    0 <= j < old(self).devices@.len() && !key_eq(
                        #[trigger] old(self).devices@[j],
                        id,
                        path@,
                    ) implies same_meta(self.devices@[j], old(self).devices@[j]) by {
                    assert(same_meta(self.devices@[j], before[j]));
                    assert(same_meta(before[j], old(self).devices@[j]));
                }
            }
            match res {
                Ok(()) => {},
                Err(e) => {
                    let msg = e.describe();
                    self.report_error(msg);
                },
            }
            fi += 1;
        }
        if is_new {
            Some(NewInput { id, name, path })
        } else {
            None
        }
    }
}

/// The prefix that marks a raw event node in the device directory (the
/// bytes of "event"); legacy mouse/js nodes are duplicates of the event
/// nodes and are skipped.
pub open spec fn event_prefix() -> Seq<u8> {
    seq![101u8, 118u8, 101u8, 110u8, 116u8]
}

/// Whether a directory entry names a raw event node worth registering.
pub fn is_event_node(fname: &Vec<u8>) -> (r: bool)
    ensures
        r == (fname@.len() >= 5 && fname@.subrange(0, 5) == event_prefix()),
{
    if fname.len() < 5 {
        return false;
    }
    let r = fname[0] == 101 && fname[1] == 118 && fname[2] == 101 && fname[3] == 110 && fname[4]
        == 116;
    proof {
        assert(fname@.subrange(0, 5)[0] == fname@[0]);
        assert(fname@.subrange(0, 5)[1] == fname@[1]);
        assert(fname@.subrange(0, 5)[2] == fname@[2]);
        assert(fname@.subrange(0, 5)[3] == fname@[3]);
        assert(fname@.subrange(0, 5)[4] == fname@[4]);
        if r {
            assert(fname@.subrange(0, 5) =~= event_prefix());
        }
    }
    r
}

} // verus!
