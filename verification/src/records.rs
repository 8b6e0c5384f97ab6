//! The persisted data entities: device configurations and their actions.

use vstd::prelude::*;

verus! {

/// One named argument of a user-defined action.
pub struct Argument {
    pub name: String,
    pub value: String,
}

/// Spec-level mirror of [`Argument`].
pub struct ArgumentV {
    pub name: Seq<char>,
    pub value: Seq<char>,
}

impl View for Argument {
    type V = ArgumentV;

    open spec fn view(&self) -> ArgumentV {
        ArgumentV { name: self.name@, value: self.value@ }
    }
}

impl Argument {
    /// A field-for-field copy.
    pub fn duplicate(&self) -> (r: Argument)
        ensures
            r@ == self@,
    {
        Argument { name: self.name.clone(), value: self.value.clone() }
    }
}

/// A user-defined named shortcut: a method name and an ordered argument list.
pub struct Action {
    pub name: String,
    pub method: String,
    pub arguments: Vec<Argument>,
}

/// Spec-level mirror of [`Action`].
pub struct ActionV {
    pub name: Seq<char>,
    pub method: Seq<char>,
    pub arguments: Seq<ArgumentV>,
}

impl View for Action {
    type V = ActionV;

    open spec fn view(&self) -> ActionV {
        ActionV {
            name: self.name@,
            method: self.method@,
            arguments: self.arguments@.map_values(|a: Argument| a@),
        }
    }
}

impl Action {
    /// A field-for-field copy.
    pub fn duplicate(&self) -> (r: Action)
        ensures
            r@ == self@,
    {
        let mut arguments: Vec<Argument> = Vec::new();
        let n = self.arguments.len();
        let mut i: usize = 0;
        while i < n
            invariant
                n == self.arguments.len(),
                i <= n,
                arguments@.len() == i,
                forall|j: int| 0 <= j < i ==> arguments@[j]@ == self.arguments@[j]@,
            decreases n - i,
        {
            arguments.push(self.arguments[i].duplicate());
            i = i + 1;
        }
        let r = Action { name: self.name.clone(), method: self.method.clone(), arguments };
        proof {
            assert(r@.arguments =~= self@.arguments);
        }
        r
    }
}

impl Action {
    /// The argument values, in order: exactly what the driver is handed
    /// when this action is invoked.
    pub fn argument_values(&self) -> (r: Vec<String>)
        ensures
            r@.map_values(|s: String| s@) =~= self@.arguments.map_values(
                |g: ArgumentV| g.value,
            ),
    {
        let n = self.arguments.len();
        let mut r: Vec<String> = Vec::new();
        let mut i: usize = 0;
        while i < n
            invariant
                n == self.arguments.len(),
                i <= n,
                r@.len() == i,
                forall|j: int| 0 <= j < i ==> (#[trigger] r@[j])@ == self.arguments@[j]@.value,
            decreases n - i,
        {
            r.push(self.arguments[i].value.clone());
            i = i + 1;
        }
        r
    }
}

/// True when some action in the sequence carries the given name.
pub open spec fn has_action(actions: Seq<ActionV>, name: Seq<char>) -> bool {
    exists|i: int| 0 <= i < actions.len() && actions[i].name == name
}

/// True when no two actions in the sequence share a name.
pub open spec fn action_names_unique(actions: Seq<ActionV>) -> bool {
    forall|i: int, j: int|
        0 <= i < j < actions.len() ==> actions[i].name != actions[j].name
}

/// The durable description of one device: identity, connection parameters,
/// and the user-defined action list. The `name` field doubles as the
/// persistent store's key.
pub struct StoreDevice {
    pub name: String,
    pub ip: String,
    pub token: String,
    pub device_type: String,
    pub actions: Vec<Action>,
}

/// Spec-level mirror of [`StoreDevice`].
pub struct StoreDeviceV {
    pub name: Seq<char>,
    pub ip: Seq<char>,
    pub token: Seq<char>,
    pub device_type: Seq<char>,
    pub actions: Seq<ActionV>,
}

impl View for StoreDevice {
    type V = StoreDeviceV;

    open spec fn view(&self) -> StoreDeviceV {
        StoreDeviceV {
            name: self.name@,
            ip: self.ip@,
            token: self.token@,
            device_type: self.device_type@,
            actions: self.actions@.map_values(|a: Action| a@),
        }
    }
}

impl StoreDevice {
    pub fn new(
        name: String,
        ip: String,
        token: String,
        device_type: String,
        actions: Vec<Action>,
    ) -> (r: Self)
        ensures
            r@.name == name@,
            r@.ip == ip@,
            r@.token == token@,
            r@.device_type == device_type@,
            r@.actions == actions@.map_values(|a: Action| a@),
    {
        Self { name, ip, token, device_type, actions }
    }

    /// A field-for-field copy.
    pub fn duplicate(&self) -> (r: StoreDevice)
        ensures
            r@ == self@,
    {
        let mut actions: Vec<Action> = Vec::new();
        let n = self.actions.len();
        let mut i: usize = 0;
        while i < n
            invariant
                n == self.actions.len(),
                i <= n,
                actions@.len() == i,
                forall|j: int| 0 <= j < i ==> actions@[j]@ == self.actions@[j]@,
            decreases n - i,
        {
            actions.push(self.actions[i].duplicate());
            i = i + 1;
        }
        let r = StoreDevice {
            name: self.name.clone(),
            ip: self.ip.clone(),
            token: self.token.clone(),
            device_type: self.device_type.clone(),
            actions,
        };
        proof {
            assert(r@.actions =~= self@.actions);
        }
        r
    }

    /// True when no two of this record's actions share a name, checked
    /// executably; records breaking the data-model invariant are rejected
    /// at load time.
    pub fn actions_unique(&self) -> (r: bool)
        ensures
            r == action_names_unique(self@.actions),
    {
        let n = self.actions.len();
        let mut i: usize = 0;
        while i < n
            invariant
                n == self.actions.len(),
                i <= n,
                forall|p: int, q: int|
                    0 <= p < i && p < q < n ==> self@.actions[p].name != self@.actions[q].name,
            decreases n - i,
        {
            let mut j: usize = i + 1;
            while j < n
                invariant
                    n == self.actions.len(),
                    i < j <= n,
                    forall|p: int, q: int|
                        0 <= p < i && p < q < n ==> self@.actions[p].name != self@.actions[q].name,
                    forall|q: int| i < q < j ==> self@.actions[i as int].name != self@.actions[q].name,
                decreases n - j,
            {
                if self.actions[i].name == self.actions[j].name {
                    proof {
                        assert(self@.actions[i as int].name == self@.actions[j as int].name);
                        assert(!action_names_unique(self@.actions));
                    }
                    return false;
                }
                j = j + 1;
            }
            i = i + 1;
        }
        true
    }
}

/// One callable method a connected driver handle exposes: its name and the
/// driver-reported signature text.
pub struct Method {
    pub name: String,
    pub signature: String,
}

} // verus!
