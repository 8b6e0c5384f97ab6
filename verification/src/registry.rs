//! The registry core: the in-memory collection of session entries, kept
//! consistent with the persisted store model under every operation.

use vstd::prelude::*;
use crate::driver;
use crate::records::{
    Action, ActionV, Method, StoreDevice, StoreDeviceV, action_names_unique, has_action,
};
use crate::store::{DeviceStore, StoreEntryV, store_has_key};

verus! {

/// The error taxonomy every registry operation draws from.
#[derive(Debug)]
pub enum RegistryError {
    /// The named device is not registered.
    NotFound,
    /// The named action is not on the device.
    ActionNotFound,
    /// A device with that name is already registered.
    DuplicateName,
    /// An action with that name is already on the device.
    DuplicateActionName,
    /// The device has no live driver handle.
    NotConnected,
    /// The driver failed while invoking a method; carries its message.
    DriverInvocationError(String),
    /// A record could not be encoded for durable storage.
    SerializationError,
    /// The shared state or the store could not be reached.
    StateUnavailable,
    /// Persisted store and memory disagreed; a bug signal, never expected.
    InconsistentState,
}

/// Runtime pairing of one persisted record with an optional live session.
pub struct StateDevice {
    pub store_device: StoreDevice,
    pub device: Option<rust_py_miio::Device>,
}

/// Spec-level mirror of [`StateDevice`]: the record, and whether the most
/// recent connection attempt succeeded.
pub struct StateDeviceV {
    pub record: StoreDeviceV,
    pub connected: bool,
}

impl View for StateDevice {
    type V = StateDeviceV;

    open spec fn view(&self) -> StateDeviceV {
        StateDeviceV { record: self.store_device@, connected: self.device is Some }
    }
}

/// The externally visible shape of one device: the record's fields, whether
/// it was found, and — only then — the driver's callable methods.
pub struct DeviceView {
    pub name: String,
    pub ip: String,
    pub token: String,
    pub device_type: String,
    pub found: bool,
    pub methods: Vec<Method>,
    pub actions: Vec<Action>,
}

/// How a [`DeviceView`] faithfully renders one session entry.
pub open spec fn view_matches(v: DeviceView, d: StateDeviceV) -> bool {
    &&& v.name@ == d.record.name
    &&& v.ip@ == d.record.ip
    &&& v.token@ == d.record.token
    &&& v.device_type@ == d.record.device_type
    &&& v.found == d.connected
    &&& v.actions@.map_values(|a: Action| a@) == d.record.actions
    &&& !v.found ==> v.methods@.len() == 0
}

impl StateDevice {
    /// Pairs a record with the outcome of a connection attempt.
    pub fn from(store_device: StoreDevice, device: Option<rust_py_miio::Device>) -> (r: Self)
        ensures
            r@.record == store_device@,
            r@.connected == (device is Some),
    {
        Self { store_device, device }
    }

    /// Renders the entry for external consumers; the method table is empty
    /// whenever the device is not connected.
    pub fn to_view(&self) -> (r: DeviceView)
        ensures
            view_matches(r, self@),
    {
        let copy = self.store_device.duplicate();
        let StoreDevice { name, ip, token, device_type, actions } = copy;
        match &self.device {
            Some(d) => DeviceView {
                name,
                ip,
                token,
                device_type,
                found: true,
                methods: driver::callable_methods(d),
                actions,
            },
            None => DeviceView {
                name,
                ip,
                token,
                device_type,
                found: false,
                methods: Vec::new(),
                actions,
            },
        }
    }
}

impl core::default::Default for Registry {
    /// Same empty state as [`Registry::new`].
    fn default() -> (r: Registry)
        ensures
            r.wf(),
            r.devices().len() == 0,
            r.store@.len() == 0,
            r.device_types is None,
    {
        Registry::new()
    }
}

/// Lexicographic order on character sequences, by scalar value; ties on a
/// common prefix go to the shorter sequence.
pub open spec fn lex_leq(a: Seq<char>, b: Seq<char>) -> bool
    decreases a.len(),
{
    if a.len() == 0 {
        true
    } else if b.len() == 0 {
        false
    } else if (a[0] as u32) < (b[0] as u32) {
        true
    } else if (b[0] as u32) < (a[0] as u32) {
        false
    } else {
        lex_leq(a.drop_first(), b.drop_first())
    }
}

/// True when the sequence is lexicographically non-decreasing.
pub open spec fn sorted_lex(s: Seq<Seq<char>>) -> bool {
    forall|i: int, j: int| 0 <= i < j < s.len() ==> lex_leq(s[i], s[j])
}

/// Relies on the standard library's slice sort for `String`: an in-place
/// sort that keeps the elements, ordering strings lexicographically by
/// their scalar values.
#[verifier::external_body]
fn sort_strings(v: &mut Vec<String>)
    ensures
        final(v)@.len() == old(v)@.len(),
        final(v)@.map_values(|s: String| s@).to_multiset() == old(v)@.map_values(
            |s: String| s@,
        ).to_multiset(),
        sorted_lex(final(v)@.map_values(|s: String| s@)),
{
    v.sort();
}

/// Law: adding an action with a fresh name and then removing that name
/// restores the action list exactly. `add_action` appends the action and
/// `remove_action` removes the entry found under its name; since the name
/// was fresh, the only entry carrying it is the appended one, whichever
/// index the removal reports.
pub proof fn lemma_action_round_trip(acts: Seq<ActionV>, a: ActionV, k: int)
    requires
        !has_action(acts, a.name),
        0 <= k < acts.push(a).len(),
        acts.push(a)[k].name == a.name,
    ensures
        acts.push(a).remove(k) =~= acts,
{
    if k < acts.len() {
        assert(acts[k].name == a.name);
        assert(false);
    }
    assert(acts.push(a).remove(acts.len() as int) =~= acts);
}

/// Classifies one driver invocation outcome: the raw textual result is
/// handed through unchanged, and a driver failure is wrapped with its
/// message, never retried.
pub fn wrap_invocation(outcome: Result<String, String>) -> (r: Result<String, RegistryError>)
    ensures
        outcome matches Ok(s) ==> r == Ok::<String, RegistryError>(s),
        outcome matches Err(m) ==> r == Err::<String, RegistryError>(
            RegistryError::DriverInvocationError(m),
        ),
{
    match outcome {
        Ok(s) => Ok(s),
        Err(m) => Err(RegistryError::DriverInvocationError(m)),
    }
}

/// The index of the first action carrying `name`, if any.
fn find_action(actions: &Vec<Action>, name: &String) -> (r: Option<usize>)
    ensures
        match r {
            Some(i) => i < actions@.len() && actions@.map_values(|a: Action| a@)[i as int].name
                == name@,
            None => !has_action(actions@.map_values(|a: Action| a@), name@),
        },
{
    let n = actions.len();
    let mut i: usize = 0;
    while i < n
        invariant
            n == actions.len(),
            i <= n,
            forall|j: int| 0 <= j < i ==> (#[trigger] actions@[j]@).name != name@,
        decreases n - i,
    {
        if actions[i].name == *name {
            return Some(i);
        }
        i = i + 1;
    }
    None
}

/// The decoded value of one stored entry: the record, or `None` when the
/// stored value was not a valid record.
pub open spec fn rec_view(o: Option<StoreDevice>) -> Option<StoreDeviceV> {
    match o {
        None => None,
        Some(r) => Some(r@),
    }
}

/// True when some already-loaded record carries the given name.
pub open spec fn loaded_has_name(acc: Seq<StoreDeviceV>, name: Seq<char>) -> bool {
    exists|i: int| 0 <= i < acc.len() && acc[i].name == name
}

/// The records a load produces from the decoded entries, front to back on
/// top of the records in `acc`: undecodable entries are skipped, as is any
/// record whose name is already taken or whose action names collide.
pub open spec fn load_model(
    entries: Seq<Option<StoreDeviceV>>,
    acc: Seq<StoreDeviceV>,
) -> Seq<StoreDeviceV>
    decreases entries.len(),
{
    if entries.len() == 0 {
        acc
    } else {
        match entries[0] {
            None => load_model(entries.drop_first(), acc),
            Some(r) => if loaded_has_name(acc, r.name) || !action_names_unique(r.actions) {
                load_model(entries.drop_first(), acc)
            } else {
                load_model(entries.drop_first(), acc.push(r))
            },
        }
    }
}

/// The arguments of one `add_device` call, together with the outcome of
/// its connection attempt, at spec level.
pub struct AddCall {
    pub name: Seq<char>,
    pub ip: Seq<char>,
    pub token: Seq<char>,
    pub device_type: Seq<char>,
    pub connected: bool,
}

/// The record a successful `add_device` call persists: the call's fields
/// and an empty action list.
pub open spec fn added_record(c: AddCall) -> StoreDeviceV {
    StoreDeviceV {
        name: c.name,
        ip: c.ip,
        token: c.token,
        device_type: c.device_type,
        actions: Seq::empty(),
    }
}

/// The session entry a successful `add_device` call appends.
pub open spec fn added_entry(c: AddCall) -> StateDeviceV {
    StateDeviceV { record: added_record(c), connected: c.connected }
}

/// The listing after a sequence of successful `add_device` calls on an
/// initially empty registry, in call order.
pub open spec fn devices_after_adds(calls: Seq<AddCall>) -> Seq<StateDeviceV>
    decreases calls.len(),
{
    if calls.len() == 0 {
        Seq::empty()
    } else {
        devices_after_adds(calls.drop_last()).push(added_entry(calls.last()))
    }
}

/// Law: after any sequence of successful additions on an initially empty
/// registry, the listing holds exactly one device per call, in call order,
/// carrying that call's name, connection parameters and an empty action
/// list; and when the names are pairwise distinct, so are the listed
/// devices' names. Each `add_device` postcondition appends `added_entry`
/// of its call, so this law composes them; the store holds the same
/// records by `lemma_store_matches_listing`.
pub proof fn lemma_add_sequence_listing(calls: Seq<AddCall>)
    ensures
        devices_after_adds(calls).len() == calls.len(),
        forall|i: int|
            0 <= i < calls.len() ==> devices_after_adds(calls)[i] == added_entry(calls[i]),
        (forall|i: int, j: int| 0 <= i < j < calls.len() ==> calls[i].name != calls[j].name)
            ==> device_names_unique(devices_after_adds(calls)),
    decreases calls.len(),
{
    if calls.len() > 0 {
        lemma_add_sequence_listing(calls.drop_last());
        assert(forall|i: int|
            0 <= i < calls.len() - 1 ==> #[trigger] calls.drop_last()[i] == calls[i]);
    }
}

/// True when no two session entries share a device name.
pub open spec fn device_names_unique(s: Seq<StateDeviceV>) -> bool {
    forall|i: int, j: int| 0 <= i < j < s.len() ==> s[i].record.name != s[j].record.name
}

/// The process-wide registry state: the cached device-type catalog, the
/// session entries, and the persisted-store model they write through to.
pub struct Registry {
    pub device_types: Option<Vec<String>>,
    pub loaded_devices: Vec<StateDevice>,
    pub store: DeviceStore,
}

impl Registry {
    /// The session entries, at spec level, in listing order.
    pub open spec fn devices(self) -> Seq<StateDeviceV> {
        self.loaded_devices@.map_values(|d: StateDevice| d@)
    }

    /// The cached device-type catalog, at spec level.
    pub open spec fn types(self) -> Option<Seq<Seq<char>>> {
        match self.device_types {
            None => None,
            Some(v) => Some(v@.map_values(|s: String| s@)),
        }
    }

    /// Well-formedness: device names are unique, each record's action names
    /// are unique, and the store model holds exactly the in-memory records,
    /// entry for entry.
    pub open spec fn wf(self) -> bool {
        &&& device_names_unique(self.devices())
        &&& forall|i: int|
            0 <= i < self.devices().len() ==> action_names_unique(
                #[trigger] self.devices()[i].record.actions,
            )
        &&& self.store@.len() == self.devices().len()
        &&& forall|i: int|
            0 <= i < self.devices().len() ==> #[trigger] self.store@[i].key
                == self.devices()[i].record.name && self.store@[i].record
                == self.devices()[i].record
    }

    /// True when a device of this name is registered.
    pub open spec fn has_device(self, name: Seq<char>) -> bool {
        exists|i: int| 0 <= i < self.devices().len() && self.devices()[i].record.name == name
    }

    /// True when the named device is registered and holds a live handle.
    pub open spec fn device_connected(self, name: Seq<char>) -> bool {
        exists|i: int|
            0 <= i < self.devices().len() && self.devices()[i].record.name == name
                && self.devices()[i].connected
    }

    /// True when the named device carries an action of the given name.
    pub open spec fn device_has_action(self, name: Seq<char>, action_name: Seq<char>) -> bool {
        exists|i: int|
            0 <= i < self.devices().len() && self.devices()[i].record.name == name && has_action(
                self.devices()[i].record.actions,
                action_name,
            )
    }

    /// An empty registry: no catalog, no devices, an empty store.
    pub fn new() -> (r: Registry)
        ensures
            r.wf(),
            r.devices().len() == 0,
            r.store@.len() == 0,
            r.device_types is None,
    {
        Registry { device_types: None, loaded_devices: Vec::new(), store: DeviceStore::empty() }
    }

    /// The index of the first entry for `name`, if any.
    fn find_device(&self, name: &String) -> (r: Option<usize>)
        ensures
            match r {
                Some(i) => i < self.devices().len() && self.devices()[i as int].record.name
                    == name@ && (forall|j: int|
                    0 <= j < i ==> self.devices()[j].record.name != name@),
                None => !self.has_device(name@),
            },
    {
        let n = self.loaded_devices.len();
        let mut i: usize = 0;
        while i < n
            invariant
                n == self.loaded_devices.len(),
                i <= n,
                forall|j: int| 0 <= j < i ==> self.devices()[j].record.name != name@,
            decreases n - i,
        {
            if self.loaded_devices[i].store_device.name == *name {
                return Some(i);
            }
            i = i + 1;
        }
        None
    }

    /// Views of all registered devices, in listing order.
    pub fn get_state_devices(&self) -> (r: Vec<DeviceView>)
        ensures
            r@.len() == self.devices().len(),
            forall|i: int| 0 <= i < r@.len() ==> view_matches(#[trigger] r@[i], self.devices()[i]),
    {
        let n = self.loaded_devices.len();
        let mut out: Vec<DeviceView> = Vec::new();
        let mut i: usize = 0;
        while i < n
            invariant
                n == self.loaded_devices.len(),
                i <= n,
                out@.len() == i,
                forall|j: int|
                    0 <= j < i ==> view_matches(#[trigger] out@[j], self.devices()[j]),
            decreases n - i,
        {
            out.push(self.loaded_devices[i].to_view());
            i = i + 1;
        }
        out
    }

    /// Under well-formedness, a key is in the store model exactly when a
    /// device of that name is registered.
    proof fn lemma_store_key_iff_device(self, name: Seq<char>)
        requires
            self.wf(),
        ensures
            store_has_key(self.store@, name) <==> self.has_device(name),
    {
        if store_has_key(self.store@, name) {
            let i = choose|i: int| 0 <= i < self.store@.len() && self.store@[i].key == name;
            assert(self.devices()[i].record.name == name);
        }
        if self.has_device(name) {
            let i = choose|i: int|
                0 <= i < self.devices().len() && self.devices()[i].record.name == name;
            assert(self.store@[i].key == name);
        }
    }

    /// Registers a new device: validates the name, attempts a driver
    /// connection (failure is tolerated and yields `found: false`), writes
    /// the fresh record through to the store model, then commits the
    /// session entry to memory.
    pub fn add_device(
        &mut self,
        ip: String,
        token: String,
        device_type: String,
        name: String,
    ) -> (r: Result<DeviceView, RegistryError>)
        requires
            old(self).wf(),
        ensures
            final(self).wf(),
            final(self).device_types == old(self).device_types,
            r is Ok <==> !old(self).has_device(name@),
            r is Err ==> *final(self) == *old(self) && (r matches Err(
                RegistryError::DuplicateName,
            )),
            r matches Ok(v) ==> {
                let call = AddCall {
                    name: name@,
                    ip: ip@,
                    token: token@,
                    device_type: device_type@,
                    connected: v.found,
                };
                &&& final(self).devices() =~= old(self).devices().push(added_entry(call))
                &&& final(self).store@ =~= old(self).store@.push(
                    (StoreEntryV { key: name@, record: added_record(call) }),
                )
                &&& view_matches(v, final(self).devices().last())
            },
    {
        proof {
            self.lemma_store_key_iff_device(name@);
        }
        if self.store.has(&name) {
            return Err(RegistryError::DuplicateName);
        }
        let device = driver::connect(&ip, &token, &device_type);
        let record = StoreDevice::new(name.clone(), ip, token, device_type, Vec::new());
        let ghost record_v = record@;
        proof {
            assert(record_v.actions =~= Seq::<ActionV>::empty());
        }
        self.store.set(name, record.duplicate());
        let entry = StateDevice::from(record, device);
        let view = entry.to_view();
        self.loaded_devices.push(entry);
        proof {
            let n0 = old(self).devices().len() as int;
            assert(self.devices() =~= old(self).devices().push(self.devices().last()));
            assert(forall|j: int|
                0 <= j < n0 ==> old(self).devices()[j].record.name != name@);
            assert(self.devices()[n0].record == record_v);
            assert(self.store@ =~= old(self).store@.push(
                (StoreEntryV { key: name@, record: record_v }),
            ));
            assert(forall|j: int| 0 <= j < n0 ==> self.devices()[j] == old(self).devices()[j]);
            assert(forall|j: int| 0 <= j < n0 ==> self.store@[j] == old(self).store@[j]);
            assert(self.wf());
        }
        Ok(view)
    }

    /// Unregisters a device: deletes the key from the store model and the
    /// entry from memory independently, then classifies the pair of
    /// outcomes as the anomaly check demands. Under well-formedness the two
    /// deletions always agree, so the anomalous classification is provably
    /// never returned.
    pub fn remove_device(&mut self, name: &String) -> (r: Result<(), RegistryError>)
        requires
            old(self).wf(),
        ensures
            final(self).wf(),
            final(self).device_types == old(self).device_types,
            r is Ok <==> old(self).has_device(name@),
            !(r matches Err(RegistryError::InconsistentState)),
            r is Err ==> *final(self) == *old(self) && (r matches Err(RegistryError::NotFound)),
            r is Ok ==> !final(self).has_device(name@) && exists|i: int|
                0 <= i < old(self).devices().len() && old(self).devices()[i].record.name == name@
                    && final(self).devices() =~= old(self).devices().remove(i)
                    && final(self).store@ =~= old(self).store@.remove(i),
    {
        proof {
            self.lemma_store_key_iff_device(name@);
        }
        let store_deleted = self.store.delete(name);
        let found = self.find_device(name);
        let state_deleted: bool = match found {
            Some(i) => {
                self.loaded_devices.remove(i);
                proof {
                    assert(self.devices() =~= old(self).devices().remove(i as int));
                    let k = choose|k: int|
                        0 <= k < old(self).store@.len() && old(self).store@[k].key == name@ && (
                        forall|j: int| 0 <= j < k ==> old(self).store@[j].key != name@)
                            && self.store@ =~= old(self).store@.remove(k);
                    assert(old(self).store@[i as int].key == name@);
                    assert(old(self).devices()[k].record.name == name@);
                    assert(k == i);
                    assert(forall|j: int|
                        0 <= j < self.devices().len() ==> #[trigger] self.devices()[j] == if j
                            < i as int {
                            old(self).devices()[j]
                        } else {
                            old(self).devices()[j + 1]
                        });
                    assert(forall|j: int|
                        0 <= j < self.store@.len() ==> #[trigger] self.store@[j] == if j
                            < i as int {
                            old(self).store@[j]
                        } else {
                            old(self).store@[j + 1]
                        });
                    assert(forall|j: int|
                        0 <= j < old(self).devices().len() && j != i as int ==> old(
                            self,
                        ).devices()[j].record.name != name@);
                }
                true
            },
            None => false,
        };
        if store_deleted && state_deleted {
            Ok(())
        } else if !store_deleted && !state_deleted {
            Err(RegistryError::NotFound)
        } else {
            // Store and memory disagreed; unreachable while the registry is
            // well-formed, but classified distinctly as the anomaly it is.
            Err(RegistryError::InconsistentState)
        }
    }

    /// Re-attempts a driver connection from the currently stored
    /// connection parameters, replacing only the entry's handle; the
    /// record, its actions included, is untouched, and so is the store.
    pub fn reload_device(&mut self, device_name: &String) -> (r: Result<
        DeviceView,
        RegistryError,
    >)
        requires
            old(self).wf(),
        ensures
            final(self).wf(),
            final(self).device_types == old(self).device_types,
            final(self).store@ == old(self).store@,
            r is Ok <==> old(self).has_device(device_name@),
            r is Err ==> *final(self) == *old(self) && (r matches Err(RegistryError::NotFound)),
            r is Ok ==> final(self).devices().len() == old(self).devices().len(),
            r is Ok ==> forall|j: int|
                0 <= j < old(self).devices().len() && old(self).devices()[j].record.name
                    != device_name@ ==> final(self).devices()[j] == old(self).devices()[j],
            r is Ok ==> forall|j: int|
                0 <= j < old(self).devices().len() && old(self).devices()[j].record.name
                    == device_name@ ==> #[trigger] final(self).devices()[j].record == old(
                    self,
                ).devices()[j].record,
            r matches Ok(v) ==> forall|j: int|
                0 <= j < final(self).devices().len() && final(self).devices()[j].record.name
                    == device_name@ ==> view_matches(v, #[trigger] final(self).devices()[j]),
    {
        let found = self.find_device(device_name);
        match found {
            Some(i) => {
                let mut entry = self.loaded_devices.remove(i);
                let device = driver::connect(
                    &entry.store_device.ip,
                    &entry.store_device.token,
                    &entry.store_device.device_type,
                );
                entry.device = device;
                let view = entry.to_view();
                self.loaded_devices.insert(i, entry);
                proof {
                    assert(forall|j: int|
                        0 <= j < self.devices().len() ==> #[trigger] self.devices()[j] == if j
                            == i as int {
                            self.devices()[i as int]
                        } else {
                            old(self).devices()[j]
                        });
                    assert(forall|j: int|
                        0 <= j < old(self).devices().len() && j != i as int ==> old(
                            self,
                        ).devices()[j].record.name != device_name@);
                }
                Ok(view)
            },
            None => Err(RegistryError::NotFound),
        }
    }

    /// Appends a user-defined action to the named device's record, after
    /// checking the action name is fresh on that device, and writes the
    /// whole updated record through to the store model.
    pub fn add_action(&mut self, device_name: &String, action: Action) -> (r: Result<
        (),
        RegistryError,
    >)
        requires
            old(self).wf(),
        ensures
            final(self).wf(),
            final(self).device_types == old(self).device_types,
            r is Ok <==> old(self).has_device(device_name@) && !old(self).device_has_action(
                device_name@,
                action@.name,
            ),
            r is Err ==> *final(self) == *old(self),
            !old(self).has_device(device_name@) ==> (r matches Err(RegistryError::NotFound)),
            old(self).has_device(device_name@) && old(self).device_has_action(
                device_name@,
                action@.name,
            ) ==> (r matches Err(RegistryError::DuplicateActionName)),
            r is Ok ==> final(self).devices().len() == old(self).devices().len()
                && final(self).store@.len() == old(self).store@.len(),
            r is Ok ==> forall|j: int|
                0 <= j < old(self).devices().len() && old(self).devices()[j].record.name
                    != device_name@ ==> final(self).devices()[j] == old(self).devices()[j]
                    && final(self).store@[j] == old(self).store@[j],
            r is Ok ==> forall|j: int|
                0 <= j < old(self).devices().len() && old(self).devices()[j].record.name
                    == device_name@ ==> {
                    let d = #[trigger] final(self).devices()[j];
                    &&& d.record.name == old(self).devices()[j].record.name
                    &&& d.record.ip == old(self).devices()[j].record.ip
                    &&& d.record.token == old(self).devices()[j].record.token
                    &&& d.record.device_type == old(self).devices()[j].record.device_type
                    &&& d.record.actions =~= old(self).devices()[j].record.actions.push(action@)
                    &&& d.connected == old(self).devices()[j].connected
                    &&& final(self).store@[j].key == old(self).store@[j].key
                    &&& final(self).store@[j].record == d.record
                },
    {
        let found = self.find_device(device_name);
        let i = match found {
            Some(i) => i,
            None => {
                return Err(RegistryError::NotFound);
            },
        };
        // Reject a duplicate action name on this device.
        if find_action(&self.loaded_devices[i].store_device.actions, &action.name).is_some() {
            return Err(RegistryError::DuplicateActionName);
        }
        proof {
            assert(!has_action(self.devices()[i as int].record.actions, action@.name));
            assert(forall|j: int|
                0 <= j < self.devices().len() && j != i as int ==> self.devices()[j].record.name
                    != device_name@);
        }
        let mut entry = self.loaded_devices.remove(i);
        entry.store_device.actions.push(action);
        proof {
            assert(entry.store_device@.name == device_name@);
            assert(self.store@[i as int].key == device_name@);
            assert(store_has_key(self.store@, device_name@));
        }
        self.store.set(entry.store_device.name.clone(), entry.store_device.duplicate());
        self.loaded_devices.insert(i, entry);
        proof {
            assert(forall|j: int|
                0 <= j < self.devices().len() ==> #[trigger] self.devices()[j] == if j == i as int {
                    self.devices()[i as int]
                } else {
                    old(self).devices()[j]
                });
            let acts = old(self).devices()[i as int].record.actions;
            assert(self.devices()[i as int].record.actions =~= acts.push(action@));
            assert(forall|p: int| 0 <= p < acts.len() ==> acts[p].name != action@.name);
            assert(forall|j: int|
                0 <= j < old(self).store@.len() && old(self).store@[j].key != device_name@
                    ==> old(self).devices()[j].record.name != device_name@);
        }
        Ok(())
    }

    /// Removes the named action from the named device's record and writes
    /// the whole updated record through to the store model.
    pub fn remove_action(&mut self, device_name: &String, action_name: &String) -> (r: Result<
        (),
        RegistryError,
    >)
        requires
            old(self).wf(),
        ensures
            final(self).wf(),
            final(self).device_types == old(self).device_types,
            r is Ok <==> old(self).has_device(device_name@) && old(self).device_has_action(
                device_name@,
                action_name@,
            ),
            r is Err ==> *final(self) == *old(self),
            !old(self).has_device(device_name@) ==> (r matches Err(RegistryError::NotFound)),
            old(self).has_device(device_name@) && !old(self).device_has_action(
                device_name@,
                action_name@,
            ) ==> (r matches Err(RegistryError::ActionNotFound)),
            r is Ok ==> final(self).devices().len() == old(self).devices().len()
                && final(self).store@.len() == old(self).store@.len(),
            r is Ok ==> forall|j: int|
                0 <= j < old(self).devices().len() && old(self).devices()[j].record.name
                    != device_name@ ==> final(self).devices()[j] == old(self).devices()[j]
                    && final(self).store@[j] == old(self).store@[j],
            r is Ok ==> forall|j: int|
                0 <= j < old(self).devices().len() && old(self).devices()[j].record.name
                    == device_name@ ==> {
                    let d = #[trigger] final(self).devices()[j];
                    let before = old(self).devices()[j].record.actions;
                    &&& d.record.name == old(self).devices()[j].record.name
                    &&& d.record.ip == old(self).devices()[j].record.ip
                    &&& d.record.token == old(self).devices()[j].record.token
                    &&& d.record.device_type == old(self).devices()[j].record.device_type
                    &&& exists|k: int|
                        0 <= k < before.len() && before[k].name == action_name@
                            && d.record.actions =~= before.remove(k)
                    &&& d.connected == old(self).devices()[j].connected
                    &&& final(self).store@[j].key == old(self).store@[j].key
                    &&& final(self).store@[j].record == d.record
                },
    {
        let found = self.find_device(device_name);
        let i = match found {
            Some(i) => i,
            None => {
                return Err(RegistryError::NotFound);
            },
        };
        // Locate the action by name on this device.
        let k = match find_action(&self.loaded_devices[i].store_device.actions, action_name) {
            Some(k) => k,
            None => {
                proof {
                    assert(!has_action(self.devices()[i as int].record.actions, action_name@));
                    assert(forall|j: int|
                        0 <= j < self.devices().len() && j != i as int ==> self.devices()[
                            j
                        ].record.name != device_name@);
                }
                return Err(RegistryError::ActionNotFound);
            },
        };
        proof {
            assert(forall|j: int|
                0 <= j < self.devices().len() && j != i as int ==> self.devices()[j].record.name
                    != device_name@);
        }
        let mut entry = self.loaded_devices.remove(i);
        entry.store_device.actions.remove(k);
        proof {
            assert(entry.store_device@.name == device_name@);
            assert(self.store@[i as int].key == device_name@);
            assert(store_has_key(self.store@, device_name@));
        }
        self.store.set(entry.store_device.name.clone(), entry.store_device.duplicate());
        self.loaded_devices.insert(i, entry);
        proof {
            assert(forall|j: int|
                0 <= j < self.devices().len() ==> #[trigger] self.devices()[j] == if j == i as int {
                    self.devices()[i as int]
                } else {
                    old(self).devices()[j]
                });
            let acts = old(self).devices()[i as int].record.actions;
            let after = self.devices()[i as int].record.actions;
            assert(after =~= acts.remove(k as int));
            assert(forall|q: int|
                0 <= q < after.len() ==> after[q] == if q < k as int {
                    acts[q]
                } else {
                    acts[q + 1]
                });
        }
        Ok(())
    }

    /// Invokes a user-defined action's method on the named device's live
    /// session, passing the argument values in order, and returns the
    /// driver's raw textual result unchanged. Driver-level failure is
    /// wrapped as `DriverInvocationError` and never retried.
    pub fn run_action(&self, device_name: &String, action: &Action) -> (r: Result<
        String,
        RegistryError,
    >)
        requires
            self.wf(),
        ensures
            (r matches Err(RegistryError::NotFound)) <==> !self.has_device(device_name@),
            self.has_device(device_name@) ==> ((r matches Err(RegistryError::NotConnected))
                <==> !self.device_connected(device_name@)),
            self.has_device(device_name@) && self.device_connected(device_name@) ==> (r is Ok
                || r matches Err(RegistryError::DriverInvocationError(_))),
    {
        let i = match self.find_device(device_name) {
            Some(i) => i,
            None => {
                return Err(RegistryError::NotFound);
            },
        };
        proof {
            assert(forall|j: int|
                0 <= j < self.devices().len() && j != i as int ==> self.devices()[j].record.name
                    != device_name@);
        }
        let entry = &self.loaded_devices[i];
        match &entry.device {
            None => Err(RegistryError::NotConnected),
            Some(d) => wrap_invocation(
                driver::invoke(d, &action.method, &action.argument_values()),
            ),
        }
    }

    /// Queries the driver for the supported device types and commits the
    /// outcome: a failed query leaves the previous cache untouched, so a
    /// stale catalog is preferred over an empty one.
    pub fn update_device_types(&mut self)
        ensures
            final(self).loaded_devices == old(self).loaded_devices,
            final(self).store == old(self).store,
            final(self).device_types == old(self).device_types || final(self).device_types
                is Some,
    {
        let fetched = driver::list_device_types();
        self.apply_device_types(fetched);
    }

    /// Commits the outcome of a catalog query: a successful fetch replaces
    /// the cached list, a failed one leaves it untouched.
    pub fn apply_device_types(&mut self, fetched: Option<Vec<String>>)
        ensures
            final(self).loaded_devices == old(self).loaded_devices,
            final(self).store == old(self).store,
            fetched is None ==> final(self).device_types == old(self).device_types,
            fetched matches Some(v) ==> final(self).device_types == Some(v),
    {
        match fetched {
            Some(v) => {
                self.device_types = Some(v);
            },
            None => {},
        }
    }

    /// The cached device-type catalog, sorted lexicographically; empty if
    /// the catalog was never successfully populated.
    pub fn get_device_types(&self) -> (r: Vec<String>)
        ensures
            sorted_lex(r@.map_values(|s: String| s@)),
            match self.types() {
                None => r@.len() == 0,
                Some(ts) => r@.map_values(|s: String| s@).to_multiset() == ts.to_multiset(),
            },
    {
        let mut out: Vec<String> = Vec::new();
        match &self.device_types {
            None => {},
            Some(v) => {
                let n = v.len();
                let mut i: usize = 0;
                while i < n
                    invariant
                        n == v@.len(),
                        i <= n,
                        out@.len() == i,
                        forall|j: int| 0 <= j < i ==> out@[j] == v@[j],
                    decreases n - i,
                {
                    out.push(v[i].clone());
                    i = i + 1;
                }
                proof {
                    assert(out@ =~= v@);
                }
            },
        }
        sort_strings(&mut out);
        out
    }

    /// Builds the in-memory collection from the persisted entries' decoded
    /// values: one session entry per valid record, each with its own
    /// connection attempt whose failure is tolerated. Entries whose stored
    /// value did not decode, and records breaking the uniqueness
    /// invariants, are skipped without failing the load; order is kept.
    pub fn load_devices(&mut self, entries: Vec<Option<StoreDevice>>)
        requires
            old(self).wf(),
            old(self).devices().len() == 0,
        ensures
            final(self).wf(),
            final(self).device_types == old(self).device_types,
            final(self).devices().map_values(|d: StateDeviceV| d.record) =~= load_model(
                entries@.map_values(|o: Option<StoreDevice>| rec_view(o)),
                Seq::empty(),
            ),
    {
        let ghost full = entries@.map_values(|o: Option<StoreDevice>| rec_view(o));
        let n = entries.len();
        let mut idx: usize = 0;
        proof {
            assert(full.skip(0) =~= full);
            assert(old(self).devices().map_values(|d: StateDeviceV| d.record)
                =~= Seq::<StoreDeviceV>::empty());
        }
        while idx < n
            invariant
                self.wf(),
                n == entries@.len(),
                idx <= n,
                full == entries@.map_values(|o: Option<StoreDevice>| rec_view(o)),
                self.device_types == old(self).device_types,
                load_model(
                    full.skip(idx as int),
                    self.devices().map_values(|d: StateDeviceV| d.record),
                ) == load_model(full, Seq::empty()),
            decreases n - idx,
        {
            let ghost prev = *self;
            let ghost acc = prev.devices().map_values(|d: StateDeviceV| d.record);
            proof {
                assert(full.skip(idx as int).len() > 0);
                assert(full.skip(idx as int)[0] == full[idx as int]);
                assert(full.skip(idx as int).drop_first() =~= full.skip(idx as int + 1));
            }
            match &entries[idx] {
                None => {
                    proof {
                        assert(full[idx as int] is None);
                    }
                },
                Some(rec) => {
                    let ok_actions = rec.actions_unique();
                    let dup = self.find_device(&rec.name).is_some();
                    proof {
                        assert(full[idx as int] == Some(rec@));
                        assert(dup == prev.has_device(rec@.name));
                        if prev.has_device(rec@.name) {
                            let w = choose|w: int|
                                0 <= w < prev.devices().len() && prev.devices()[w].record.name
                                    == rec@.name;
                            assert(acc[w].name == rec@.name);
                        }
                        if loaded_has_name(acc, rec@.name) {
                            let w = choose|w: int|
                                0 <= w < acc.len() && acc[w].name == rec@.name;
                            assert(prev.devices()[w].record.name == rec@.name);
                        }
                        assert(prev.has_device(rec@.name) == loaded_has_name(acc, rec@.name));
                    }
                    if ok_actions && !dup {
                        let record = rec.duplicate();
                        let ghost record_v = record@;
                        let device = driver::connect(
                            &record.ip,
                            &record.token,
                            &record.device_type,
                        );
                        proof {
                            prev.lemma_store_key_iff_device(record_v.name);
                        }
                        self.store.set(record.name.clone(), record.duplicate());
                        self.loaded_devices.push(StateDevice::from(record, device));
                        proof {
                            let n0 = prev.devices().len() as int;
                            assert(self.devices() =~= prev.devices().push(
                                self.devices().last(),
                            ));
                            assert(forall|j: int|
                                0 <= j < n0 ==> prev.devices()[j].record.name != record_v.name);
                            assert(self.devices()[n0].record == record_v);
                            assert(self.store@ =~= prev.store@.push(
                                (StoreEntryV { key: record_v.name, record: record_v }),
                            ));
                            assert(forall|j: int|
                                0 <= j < n0 ==> self.devices()[j] == prev.devices()[j]);
                            assert(forall|j: int|
                                0 <= j < n0 ==> self.store@[j] == prev.store@[j]);
                            assert(self.wf());
                            assert(self.devices().map_values(|d: StateDeviceV| d.record)
                                =~= acc.push(record_v));
                        }
                    }
                },
            }
            idx = idx + 1;
        }
        proof {
            assert(full.skip(n as int) =~= Seq::<Option<StoreDeviceV>>::empty());
        }
    }

    /// Law: in a well-formed registry the persisted store and the listing
    /// agree exactly — every listed device's record is stored under its
    /// name, every stored key is listed, and the stored record matches the
    /// listed one field for field. Together with `add_device`'s
    /// postcondition this pins down the state after any sequence of
    /// successful additions with distinct names.
    pub proof fn lemma_store_matches_listing(self)
        requires
            self.wf(),
        ensures
            self.store@.len() == self.devices().len(),
            forall|i: int|
                0 <= i < self.devices().len() ==> store_has_key(
                    self.store@,
                    #[trigger] self.devices()[i].record.name,
                ),
            forall|i: int, k: int|
                0 <= i < self.devices().len() && 0 <= k < self.store@.len()
                    && self.store@[k].key == self.devices()[i].record.name ==> self.store@[k].record
                    == self.devices()[i].record,
            forall|k: int|
                0 <= k < self.store@.len() ==> self.has_device(#[trigger] self.store@[k].key),
    {
        assert(forall|i: int|
            0 <= i < self.devices().len() ==> store_has_key(
                self.store@,
                #[trigger] self.devices()[i].record.name,
            )) by {
            assert(forall|i: int|
                0 <= i < self.devices().len() ==> self.store@[i].key == (
                #[trigger] self.devices()[i]).record.name);
        }
        assert forall|i: int, k: int|
            0 <= i < self.devices().len() && 0 <= k < self.store@.len() && self.store@[k].key
                == self.devices()[i].record.name implies self.store@[k].record == self.devices()[
            i
        ].record by {
            assert(self.store@[k].key == self.devices()[k].record.name);
            if k != i {
                assert(self.devices()[k].record.name != self.devices()[i].record.name);
                assert(false);
            }
        }
        assert(forall|k: int|
            0 <= k < self.store@.len() ==> (#[trigger] self.store@[k].key) == self.devices()[
                k
            ].record.name);
    }

    /// The record persisted under `name`, copied out, if any.
    pub fn get_stored(&self, name: &String) -> (r: Option<StoreDevice>)
        ensures
            match r {
                Some(rec) => exists|i: int|
                    0 <= i < self.store@.len() && self.store@[i].key == name@
                        && self.store@[i].record == rec@,
                None => !store_has_key(self.store@, name@),
            },
    {
        self.store.get(name)
    }
}

} // verus!
