use crate::str_eq;
use vstd::prelude::*;
use vstd::seq_lib::group_seq_properties;

verus! {

/// The names held in a vector of strings, as sequences of characters.
pub open spec fn name_seqs(names: Seq<String>) -> Seq<Seq<char>> {
    names.map_values(|n: String| n@)
}

/// The subsequence of `names` that keeps the first occurrence of each name
/// and drops the later ones.
pub open spec fn dedup_first(names: Seq<Seq<char>>) -> Seq<Seq<char>>
    decreases names.len(),
{
    if names.len() == 0 {
        Seq::empty()
    } else if names.drop_last().contains(names.last()) {
        dedup_first(names.drop_last())
    } else {
        dedup_first(names.drop_last()).push(names.last())
    }
}

/// Keeping first occurrences drops no name and invents none.
pub proof fn lemma_dedup_first_membership(names: Seq<Seq<char>>)
    ensures
        forall|n: Seq<char>| dedup_first(names).contains(n) == names.contains(n),
    decreases names.len(),
{
    broadcast use group_seq_properties;

    if names.len() > 0 {
        lemma_dedup_first_membership(names.drop_last());
        assert(names =~= names.drop_last().push(names.last()));
    }
}

/// Keeping first occurrences leaves no duplicates.
pub proof fn lemma_dedup_first_no_duplicates(names: Seq<Seq<char>>)
    ensures
        dedup_first(names).no_duplicates(),
    decreases names.len(),
{
    broadcast use group_seq_properties;

    if names.len() > 0 {
        lemma_dedup_first_no_duplicates(names.drop_last());
        lemma_dedup_first_membership(names.drop_last());
    }
}

/// Whether one of `names` reads as `target`.
pub(crate) fn contains_name(names: &Vec<String>, target: &str) -> (found: bool)
    ensures
        found == name_seqs(names@).contains(target@),
{
    broadcast use group_seq_properties;

    let mut k: usize = 0;
    while k < names.len()
        invariant
            k <= names.len(),
            forall|i: int| 0 <= i < k ==> name_seqs(names@)[i] != target@,
        decreases names.len() - k,
    {
        if str_eq(names[k].as_str(), target) {
            assert(name_seqs(names@)[k as int] == target@);
            return true;
        }
        k += 1;
    }
    false
}

/// Removes every name that already occurred earlier in `names`,
/// keeping first occurrences in order.
pub(crate) fn dedup_names(names: Vec<String>) -> (unique: Vec<String>)
    ensures
        name_seqs(unique@) == dedup_first(name_seqs(names@)),
{
    broadcast use group_seq_properties;

    let mut unique: Vec<String> = Vec::new();
    let mut k: usize = 0;
    while k < names.len()
        invariant
            k <= names.len(),
            name_seqs(unique@) == dedup_first(name_seqs(names@).take(k as int)),
        decreases names.len() - k,
    {
        let ghost prefix = name_seqs(names@).take(k as int);
        proof {
            lemma_dedup_first_membership(prefix);
            assert(name_seqs(names@).take(k + 1) =~= prefix.push(names@[k as int]@));
            assert(prefix.push(names@[k as int]@).drop_last() =~= prefix);
        }
        if !contains_name(&unique, names[k].as_str()) {
            let device = names[k].clone();
            unique.push(device);
            assert(name_seqs(unique@) =~= dedup_first(name_seqs(names@).take(k + 1)));
        } else {
            assert(name_seqs(unique@) =~= dedup_first(name_seqs(names@).take(k + 1)));
        }
        k += 1;
    }
    assert(name_seqs(names@).take(names@.len() as int) =~= name_seqs(names@));
    unique
}

/// The state of a room: its name and the device names it references.
pub ghost struct RoomView {
    pub name: Seq<char>,
    pub devices: Seq<Seq<char>>,
}

impl RoomView {
    /// A room never references the same device name twice.
    pub open spec fn wf(self) -> bool {
        self.devices.no_duplicates()
    }

    /// Whether the room references a device of this name.
    pub open spec fn has_device(self, device: Seq<char>) -> bool {
        self.devices.contains(device)
    }

    /// The room after an add-if-absent of `device`.
    pub open spec fn with_device(self, device: Seq<char>) -> RoomView {
        if self.has_device(device) {
            self
        } else {
            RoomView { devices: self.devices.push(device), ..self }
        }
    }
}

/// Adding a device name a second time changes nothing: the room ends up
/// referencing the name exactly once, however often it is added.
pub proof fn lemma_duplicate_device_ignored(room: RoomView, device: Seq<char>)
    requires
        room.wf(),
    ensures
        room.with_device(device).with_device(device) == room.with_device(device),
        room.with_device(device).has_device(device),
        room.with_device(device).wf(),
{
    broadcast use group_seq_properties;

    let once = room.with_device(device);
    if !room.has_device(device) {
        assert(once.devices =~= room.devices.push(device));
    }
}

/// A named collection of device names, each referenced at most once.
pub struct Room {
    devices: Vec<String>,
    name: String,
}

impl View for Room {
    type V = RoomView;

    closed spec fn view(&self) -> RoomView {
        RoomView { name: self.name@, devices: name_seqs(self.devices@) }
    }
}

impl Room {
    /// Builds a room that references each of the given device names once:
    /// a name that repeats in `devices` is kept at its first occurrence only.
    pub fn new(name: String, devices: Vec<String>) -> (room: Room)
        ensures
            room@.name == name@,
            room@.devices == dedup_first(name_seqs(devices@)),
            room@.wf(),
    {
        proof {
            lemma_dedup_first_no_duplicates(name_seqs(devices@));
        }
        let unique = dedup_names(devices);
        Room { devices: unique, name }
    }

    pub fn get_name(&self) -> (name: &str)
        ensures
            name@ == self@.name,
    {
        self.name.as_str()
    }

    /// Inserts `device` if the room does not reference it yet; reports
    /// whether the insertion happened. Adding a name twice changes nothing.
    pub fn add_device(&mut self, device: String) -> (added: bool)
        requires
            old(self)@.wf(),
        ensures
            final(self)@ == old(self)@.with_device(device@),
            final(self)@.wf(),
            added == !old(self)@.has_device(device@),
    {
        broadcast use group_seq_properties;

        if !contains_name(&self.devices, device.as_str()) {
            let ghost before = self@;
            self.devices.push(device);
            assert(self@.devices =~= before.devices.push(device@));
            true
        } else {
            false
        }
    }

    /// The device names the room references.
    pub fn get_devices(&self) -> (devices: &Vec<String>)
        ensures
            name_seqs(devices@) == self@.devices,
    {
        &self.devices
    }
}

impl PartialEq for Room {
    /// Two rooms are the same room exactly when their names are equal.
    fn eq(&self, other: &Self) -> (same: bool) {
        self.name == other.name
    }
}

impl vstd::std_specs::cmp::PartialEqSpecImpl for Room {
    open spec fn obeys_eq_spec() -> bool {
        true
    }

    open spec fn eq_spec(&self, other: &Room) -> bool {
        self@.name == other@.name
    }
}

} // verus!
