pub mod room;

use crate::provider::{info_line, DeviceInfoProvider};
use crate::str_eq;
use room::{dedup_first, Room, RoomView};
use vstd::prelude::*;

verus! {

/// The state of a house: its description and the rooms it owns, in the order
/// they were added.
pub ghost struct SmartHomeView {
    pub description: Seq<char>,
    pub rooms: Seq<RoomView>,
}

impl SmartHomeView {
    /// A house holds at most one room per name, and each room is itself
    /// well formed.
    pub open spec fn wf(self) -> bool {
        &&& forall|i: int| 0 <= i < self.rooms.len() ==> (#[trigger] self.rooms[i]).wf()
        &&& forall|i: int, j: int|
            0 <= i < j < self.rooms.len() ==> self.rooms[i].name != self.rooms[j].name
    }

    /// Whether the house already holds a room of this name.
    pub open spec fn has_room(self, name: Seq<char>) -> bool {
        some_room_named(self.rooms, name)
    }

    /// The house after an add-if-absent of `room`.
    pub open spec fn with_room(self, room: RoomView) -> SmartHomeView {
        if self.has_room(room.name) {
            self
        } else {
            SmartHomeView { rooms: self.rooms.push(room), ..self }
        }
    }
}

/// The rooms of a vector, by their state.
pub open spec fn rooms_view(rooms: Seq<Room>) -> Seq<RoomView> {
    rooms.map_values(|r: Room| r@)
}

/// Whether one of `rooms` carries the name `name`.
pub open spec fn some_room_named(rooms: Seq<RoomView>, name: Seq<char>) -> bool {
    exists|i: int| 0 <= i < rooms.len() && rooms[i].name == name
}

/// Why a report could not be produced.
#[derive(Debug, Clone)]
pub enum ReportError {
    /// A room references this required device name, but the provider could
    /// not produce info for it.
    NoInfoProvided(String),
    /// No room in the house references this required device name.
    NotFoundDevice(String),
}

pub ghost enum ReportErrorView {
    NoInfoProvided(Seq<char>),
    NotFoundDevice(Seq<char>),
}

impl View for ReportError {
    type V = ReportErrorView;

    closed spec fn view(&self) -> ReportErrorView {
        match self {
            ReportError::NoInfoProvided(device) => ReportErrorView::NoInfoProvided(device@),
            ReportError::NotFoundDevice(device) => ReportErrorView::NotFoundDevice(device@),
        }
    }
}

impl ReportErrorView {
    /// The text the error renders as.
    pub open spec fn message_text(self) -> Seq<char> {
        match self {
            ReportErrorView::NoInfoProvided(device) => "Do not have info for this device: "@
                + device,
            ReportErrorView::NotFoundDevice(device) => "Cannot find this device: "@ + device,
        }
    }
}

impl ReportError {
    /// The error rendered as one line of text.
    pub fn message(&self) -> (text: String)
        ensures
            text@ == self@.message_text(),
    {
        match self {
            ReportError::NoInfoProvided(device) => {
                let mut text = "Do not have info for this device: ".to_owned();
                text.append(device.as_str());
                text
            },
            ReportError::NotFoundDevice(device) => {
                let mut text = "Cannot find this device: ".to_owned();
                text.append(device.as_str());
                text
            },
        }
    }
}

/// Looks through `rooms` for one that carries the name `name`.
fn rooms_contain_name(rooms: &Vec<Room>, name: &str) -> (found: bool)
    ensures
        found == some_room_named(rooms_view(rooms@), name@),
{
    let mut k: usize = 0;
    while k < rooms.len()
        invariant
            k <= rooms.len(),
            forall|i: int| 0 <= i < k ==> rooms_view(rooms@)[i].name != name@,
        decreases rooms.len() - k,
    {
        if str_eq(rooms[k].get_name(), name) {
            assert(rooms_view(rooms@)[k as int].name == name@);
            return true;
        }
        k += 1;
    }
    false
}

/// A house: a description used in report headers, and uniquely named rooms.
pub struct SmartHome {
    description: String,
    rooms: Vec<Room>,
}

impl View for SmartHome {
    type V = SmartHomeView;

    closed spec fn view(&self) -> SmartHomeView {
        SmartHomeView { description: self.description@, rooms: rooms_view(self.rooms@) }
    }
}

impl SmartHome {
    /// Builds a house with no rooms yet.
    pub fn new(description: String) -> (home: SmartHome)
        ensures
            home@.description == description@,
            home@.rooms == Seq::<RoomView>::empty(),
            home@.wf(),
    {
        let home = SmartHome { description, rooms: Vec::new() };
        proof {
            assert(home@.rooms =~= Seq::<RoomView>::empty());
        }
        home
    }

    /// Inserts `room` if no room of that name is in the house yet; reports
    /// whether the insertion happened. A colliding name changes nothing.
    pub fn add_room(&mut self, room: Room) -> (added: bool)
        requires
            old(self)@.wf(),
            room@.wf(),
        ensures
            final(self)@ == old(self)@.with_room(room@),
            final(self)@.wf(),
            added == !old(self)@.has_room(room@.name),
    {
        if !rooms_contain_name(&self.rooms, room.get_name()) {
            let ghost before = self@;
            let ghost added_view = room@;
            self.rooms.push(room);
            proof {
                assert(self@.rooms =~= before.rooms.push(added_view));
                assert forall|i: int, j: int|
                    0 <= i < j < self@.rooms.len() implies self@.rooms[i].name
                    != self@.rooms[j].name by {
                    if j < before.rooms.len() {
                    } else {
                        assert(!before.has_room(added_view.name));
                        assert(before.rooms[i].name != added_view.name);
                    }
                }
            }
            true
        } else {
            false
        }
    }

    /// The rooms the house holds, in the order they were added.
    pub fn get_rooms(&self) -> (rooms: &Vec<Room>)
        ensures
            rooms_view(rooms@) == self@.rooms,
    {
        &self.rooms
    }

    /// Builds the report this provider can give about the house: a header
    /// naming the house, then one info line per required device per room
    /// that references it, in room order, grouped by required device.
    /// Fails with `NoInfoProvided` where a room references a required device
    /// the provider cannot answer for, and with `NotFoundDevice` where a
    /// required device is referenced by no room at all.
    pub fn create_report<P: DeviceInfoProvider>(&self, provider: &P) -> (result: Result<
        String,
        ReportError,
    >)
        ensures
            result_view(result) == report_view(self@, provider),
    {
        broadcast use vstd::seq_lib::group_seq_properties;

        let required = room::dedup_names(provider.required_devices());
        let ghost req = dedup_first(provider.spec_required());
        let ghost rooms_v = self@.rooms;

        // Walk every room: a required device name the provider has no info
        // for aborts the report at once.
        let mut i: usize = 0;
        while i < self.rooms.len()
            invariant
                i <= self.rooms@.len(),
                req == dedup_first(provider.spec_required()),
                room::name_seqs(required@) == req,
                rooms_v == self@.rooms,
                first_no_info(rooms_v.take(i as int), req, provider) is None,
            decreases self.rooms@.len() - i,
        {
            let room = &self.rooms[i];
            let devices = room.get_devices();
            let mut j: usize = 0;
            while j < devices.len()
                invariant
                    j <= devices@.len(),
                    i < self.rooms@.len(),
                    req == dedup_first(provider.spec_required()),
                    room::name_seqs(required@) == req,
                    rooms_v == self@.rooms,
                    room@ == rooms_v[i as int],
                    room::name_seqs(devices@) == room@.devices,
                    first_no_info(rooms_v.take(i as int), req, provider) is None,
                    first_no_info_in_devices(room@.devices.take(j as int), req, provider) is None,
                decreases devices@.len() - j,
            {
                let device = &devices[j];
                let ghost device_name = room@.devices[j as int];
                proof {
                    assert(device_name == device@);
                    lemma_first_no_info_in_devices_push(
                        room@.devices.take(j as int),
                        device_name,
                        req,
                        provider,
                    );
                    assert(room@.devices.take(j as int + 1) =~= room@.devices.take(
                        j as int,
                    ).push(device_name));
                }
                if room::contains_name(&required, device.as_str()) {
                    let info = provider.get_info(room.get_name(), device.as_str());
                    if info.is_none() {
                        proof {
                            lemma_first_no_info_in_devices_prefix(
                                room@.devices,
                                j as int + 1,
                                req,
                                provider,
                            );
                            lemma_first_no_info_push(
                                rooms_v.take(i as int),
                                rooms_v[i as int],
                                req,
                                provider,
                            );
                            assert(rooms_v.take(i as int + 1) =~= rooms_v.take(i as int).push(
                                rooms_v[i as int],
                            ));
                            lemma_first_no_info_prefix(rooms_v, i as int + 1, req, provider);
                        }
                        return Err(ReportError::NoInfoProvided(device.clone()));
                    }
                }
                j += 1;
            }
            proof {
                assert(room@.devices.take(devices@.len() as int) =~= room@.devices);
                lemma_first_no_info_push(rooms_v.take(i as int), rooms_v[i as int], req, provider);
                assert(rooms_v.take(i as int + 1) =~= rooms_v.take(i as int).push(
                    rooms_v[i as int],
                ));
            }
            i += 1;
        }
        proof {
            assert(rooms_v.take(self.rooms@.len() as int) =~= rooms_v);
        }

        // Every required device must be referenced by some room.
        let mut k: usize = 0;
        while k < required.len()
            invariant
                k <= required@.len(),
                req == dedup_first(provider.spec_required()),
                room::name_seqs(required@) == req,
                rooms_v == self@.rooms,
                first_no_info(rooms_v, req, provider) is None,
                first_unreferenced(req.take(k as int), rooms_v) is None,
            decreases required@.len() - k,
        {
            let device = &required[k];
            let mut found = false;
            let mut i2: usize = 0;
            while i2 < self.rooms.len()
                invariant
                    i2 <= self.rooms@.len(),
                    k < required@.len(),
                    room::name_seqs(required@) == req,
                    rooms_v == self@.rooms,
                    device@ == req[k as int],
                    found == referenced(rooms_v.take(i2 as int), req[k as int]),
                decreases self.rooms@.len() - i2,
            {
                if room::contains_name(self.rooms[i2].get_devices(), device.as_str()) {
                    found = true;
                }
                proof {
                    lemma_referenced_push(
                        rooms_v.take(i2 as int),
                        rooms_v[i2 as int],
                        req[k as int],
                    );
                    assert(rooms_v.take(i2 as int + 1) =~= rooms_v.take(i2 as int).push(
                        rooms_v[i2 as int],
                    ));
                }
                i2 += 1;
            }
            proof {
                assert(rooms_v.take(self.rooms@.len() as int) =~= rooms_v);
                lemma_first_unreferenced_push(req.take(k as int), req[k as int], rooms_v);
                assert(req.take(k as int + 1) =~= req.take(k as int).push(req[k as int]));
            }
            if !found {
                proof {
                    lemma_first_unreferenced_prefix(req, k as int + 1, rooms_v);
                }
                return Err(ReportError::NotFoundDevice(device.clone()));
            }
            k += 1;
        }
        proof {
            assert(req.take(required@.len() as int) =~= req);
        }

        // Assemble the report: the header, then each required device's lines.
        let mut result = "Finding report of ".to_owned();
        result.append(self.description.as_str());
        let ghost header = "Finding report of "@ + self@.description;
        let mut k2: usize = 0;
        while k2 < required.len()
            invariant
                k2 <= required@.len(),
                req == dedup_first(provider.spec_required()),
                room::name_seqs(required@) == req,
                rooms_v == self@.rooms,
                first_no_info(rooms_v, req, provider) is None,
                first_unreferenced(req, rooms_v) is None,
                header == "Finding report of "@ + self@.description,
                result@ == header + report_sections(rooms_v, req.take(k2 as int), provider),
            decreases required@.len() - k2,
        {
            let device = &required[k2];
            let mut i3: usize = 0;
            while i3 < self.rooms.len()
                invariant
                    i3 <= self.rooms@.len(),
                    k2 < required@.len(),
                    room::name_seqs(required@) == req,
                    rooms_v == self@.rooms,
                    device@ == req[k2 as int],
                    first_no_info(rooms_v, req, provider) is None,
                    header == "Finding report of "@ + self@.description,
                    result@ == header + report_sections(rooms_v, req.take(k2 as int), provider)
                        + device_section(rooms_v.take(i3 as int), req[k2 as int], provider),
                decreases self.rooms@.len() - i3,
            {
                let room = &self.rooms[i3];
                let ghost result_before = result@;
                if room::contains_name(room.get_devices(), device.as_str()) {
                    let info = provider.get_info(room.get_name(), device.as_str());
                    match info {
                        Some(line) => {
                            result.append("\n");
                            result.append(line.as_str());
                            proof {
                                assert(result@ =~= result_before + room_line(
                                    rooms_v[i3 as int],
                                    req[k2 as int],
                                    provider,
                                ));
                            }
                        },
                        None => {
                            proof {
                                assert(req[k2 as int] == device@);
                                assert(req.contains(device@));
                                lemma_rooms_all_known(rooms_v, req, provider, i3 as int, device@);
                                assert(false);
                            }
                        },
                    }
                }
                proof {
                    lemma_device_section_push(
                        rooms_v.take(i3 as int),
                        rooms_v[i3 as int],
                        req[k2 as int],
                        provider,
                    );
                    assert(rooms_v.take(i3 as int + 1) =~= rooms_v.take(i3 as int).push(
                        rooms_v[i3 as int],
                    ));
                    assert(result@ =~= header + report_sections(
                        rooms_v,
                        req.take(k2 as int),
                        provider,
                    ) + device_section(rooms_v.take(i3 as int + 1), req[k2 as int], provider));
                }
                i3 += 1;
            }
            proof {
                assert(rooms_v.take(self.rooms@.len() as int) =~= rooms_v);
                lemma_report_sections_push(rooms_v, req.take(k2 as int), req[k2 as int], provider);
                assert(req.take(k2 as int + 1) =~= req.take(k2 as int).push(req[k2 as int]));
                assert(result@ =~= header + report_sections(
                    rooms_v,
                    req.take(k2 as int + 1),
                    provider,
                ));
            }
            k2 += 1;
        }
        proof {
            assert(req.take(required@.len() as int) =~= req);
            assert(result@ =~= report_text(self@, provider));
        }
        Ok(result)
    }
}

/// The first device name in `devices` that is required but for which the
/// provider has no info, if any.
pub open spec fn first_no_info_in_devices<P: DeviceInfoProvider>(
    devices: Seq<Seq<char>>,
    required: Seq<Seq<char>>,
    provider: &P,
) -> Option<Seq<char>>
    decreases devices.len(),
{
    if devices.len() == 0 {
        None
    } else if required.contains(devices[0]) && !provider.spec_knows(devices[0]) {
        Some(devices[0])
    } else {
        first_no_info_in_devices(devices.drop_first(), required, provider)
    }
}

/// The first device name found when walking the rooms in order that is
/// required but for which the provider has no info, if any.
pub open spec fn first_no_info<P: DeviceInfoProvider>(
    rooms: Seq<RoomView>,
    required: Seq<Seq<char>>,
    provider: &P,
) -> Option<Seq<char>>
    decreases rooms.len(),
{
    if rooms.len() == 0 {
        None
    } else {
        match first_no_info_in_devices(rooms[0].devices, required, provider) {
            Some(device) => Some(device),
            None => first_no_info(rooms.drop_first(), required, provider),
        }
    }
}

/// Whether some room references a device of this name.
pub open spec fn referenced(rooms: Seq<RoomView>, device: Seq<char>) -> bool {
    exists|i: int| 0 <= i < rooms.len() && rooms[i].has_device(device)
}

/// The first required device name that no room references, if any.
pub open spec fn first_unreferenced(
    required: Seq<Seq<char>>,
    rooms: Seq<RoomView>,
) -> Option<Seq<char>>
    decreases required.len(),
{
    if required.len() == 0 {
        None
    } else if !referenced(rooms, required[0]) {
        Some(required[0])
    } else {
        first_unreferenced(required.drop_first(), rooms)
    }
}

/// What one room contributes to the report for one device: a line break and
/// the device's info line where the room references it, nothing otherwise.
pub open spec fn room_line<P: DeviceInfoProvider>(
    room: RoomView,
    device: Seq<char>,
    provider: &P,
) -> Seq<char> {
    if room.has_device(device) {
        "\n"@ + info_line(room.name, provider.spec_report(device))
    } else {
        Seq::empty()
    }
}

/// The lines the report holds for one device, one per room that references
/// it, in room order.
pub open spec fn device_section<P: DeviceInfoProvider>(
    rooms: Seq<RoomView>,
    device: Seq<char>,
    provider: &P,
) -> Seq<char>
    decreases rooms.len(),
{
    if rooms.len() == 0 {
        Seq::empty()
    } else {
        room_line(rooms[0], device, provider) + device_section(rooms.drop_first(), device, provider)
    }
}

/// The body of the report: the sections of the required devices, in order.
pub open spec fn report_sections<P: DeviceInfoProvider>(
    rooms: Seq<RoomView>,
    required: Seq<Seq<char>>,
    provider: &P,
) -> Seq<char>
    decreases required.len(),
{
    if required.len() == 0 {
        Seq::empty()
    } else {
        device_section(rooms, required[0], provider) + report_sections(
            rooms,
            required.drop_first(),
            provider,
        )
    }
}

/// The full report text: a header naming the house, then the sections of the
/// required devices.
pub open spec fn report_text<P: DeviceInfoProvider>(home: SmartHomeView, provider: &P) -> Seq<
    char,
> {
    "Finding report of "@ + home.description + report_sections(
        home.rooms,
        dedup_first(provider.spec_required()),
        provider,
    )
}

/// What `create_report` returns, as a function of the house state and the
/// provider alone.
pub open spec fn report_view<P: DeviceInfoProvider>(home: SmartHomeView, provider: &P) -> Result<
    Seq<char>,
    ReportErrorView,
> {
    let required = dedup_first(provider.spec_required());
    match first_no_info(home.rooms, required, provider) {
        Some(device) => Err(ReportErrorView::NoInfoProvided(device)),
        None => match first_unreferenced(required, home.rooms) {
            Some(device) => Err(ReportErrorView::NotFoundDevice(device)),
            None => Ok(report_text(home, provider)),
        },
    }
}

/// A returned report or error, by its text.
pub open spec fn result_view(result: Result<String, ReportError>) -> Result<
    Seq<char>,
    ReportErrorView,
> {
    match result {
        Ok(text) => Ok(text@),
        Err(err) => Err(err@),
    }
}

/// Adding a second room under an already used name changes nothing: only
/// the first insertion is retained, and the house holds exactly one room of
/// that name, since its room names stay unique.
pub proof fn lemma_duplicate_room_ignored(
    home: SmartHomeView,
    first: RoomView,
    second: RoomView,
)
    requires
        second.name == first.name,
        home.wf(),
        first.wf(),
    ensures
        home.with_room(first).with_room(second) == home.with_room(first),
        home.with_room(first).has_room(first.name),
        home.with_room(first).wf(),
{
    let once = home.with_room(first);
    if !home.has_room(first.name) {
        assert(once.rooms[home.rooms.len() as int] == first);
        assert forall|i: int, j: int|
            0 <= i < j < once.rooms.len() implies once.rooms[i].name != once.rooms[j].name by {
            if j == home.rooms.len() as int {
                assert(home.rooms[i].name != first.name);
            }
        }
    }
}

/// A report is a pure function of the house state and the provider: two
/// results that `create_report`'s contract allows for the same house state
/// and the same provider carry the same text or the same error.
pub proof fn lemma_report_deterministic<P: DeviceInfoProvider>(
    home: SmartHomeView,
    provider: &P,
    first: Result<String, ReportError>,
    second: Result<String, ReportError>,
)
    requires
        result_view(first) == report_view(home, provider),
        result_view(second) == report_view(home, provider),
    ensures
        result_view(first) == result_view(second),
{
}

proof fn lemma_first_no_info_in_devices_push<P: DeviceInfoProvider>(
    devices: Seq<Seq<char>>,
    device: Seq<char>,
    required: Seq<Seq<char>>,
    provider: &P,
)
    ensures
        first_no_info_in_devices(devices.push(device), required, provider) == match first_no_info_in_devices(
            devices,
            required,
            provider,
        ) {
            Some(found) => Some(found),
            None => if required.contains(device) && !provider.spec_knows(device) {
                Some(device)
            } else {
                None
            },
        },
    decreases devices.len(),
{
    let whole = devices.push(device);
    if devices.len() == 0 {
        reveal_with_fuel(first_no_info_in_devices, 2);
        assert(whole[0] == device);
        assert(whole.drop_first() =~= Seq::<Seq<char>>::empty());
    } else {
        assert(whole[0] == devices[0]);
        assert(whole.drop_first() =~= devices.drop_first().push(device));
        lemma_first_no_info_in_devices_push(devices.drop_first(), device, required, provider);
    }
}

proof fn lemma_first_no_info_push<P: DeviceInfoProvider>(
    rooms: Seq<RoomView>,
    room: RoomView,
    required: Seq<Seq<char>>,
    provider: &P,
)
    ensures
        first_no_info(rooms.push(room), required, provider) == match first_no_info(
            rooms,
            required,
            provider,
        ) {
            Some(found) => Some(found),
            None => first_no_info_in_devices(room.devices, required, provider),
        },
    decreases rooms.len(),
{
    let whole = rooms.push(room);
    if rooms.len() == 0 {
        reveal_with_fuel(first_no_info, 2);
        assert(whole[0] == room);
        assert(whole.drop_first() =~= Seq::<RoomView>::empty());
    } else {
        assert(whole[0] == rooms[0]);
        assert(whole.drop_first() =~= rooms.drop_first().push(room));
        lemma_first_no_info_push(rooms.drop_first(), room, required, provider);
    }
}

/// Once a prefix of the device names yields a hit, the rest cannot change it.
proof fn lemma_first_no_info_in_devices_prefix<P: DeviceInfoProvider>(
    devices: Seq<Seq<char>>,
    n: int,
    required: Seq<Seq<char>>,
    provider: &P,
)
    requires
        0 <= n <= devices.len(),
        first_no_info_in_devices(devices.take(n), required, provider) is Some,
    ensures
        first_no_info_in_devices(devices, required, provider) == first_no_info_in_devices(
            devices.take(n),
            required,
            provider,
        ),
    decreases devices.len(),
{
    let prefix = devices.take(n);
    assert(n >= 1);
    assert(prefix[0] == devices[0]);
    if required.contains(devices[0]) && !provider.spec_knows(devices[0]) {
    } else {
        assert(prefix.drop_first() =~= devices.drop_first().take(n - 1));
        lemma_first_no_info_in_devices_prefix(devices.drop_first(), n - 1, required, provider);
    }
}

/// Once a prefix of the rooms yields a hit, the rest cannot change it.
proof fn lemma_first_no_info_prefix<P: DeviceInfoProvider>(
    rooms: Seq<RoomView>,
    n: int,
    required: Seq<Seq<char>>,
    provider: &P,
)
    requires
        0 <= n <= rooms.len(),
        first_no_info(rooms.take(n), required, provider) is Some,
    ensures
        first_no_info(rooms, required, provider) == first_no_info(
            rooms.take(n),
            required,
            provider,
        ),
    decreases rooms.len(),
{
    let prefix = rooms.take(n);
    assert(n >= 1);
    assert(prefix[0] == rooms[0]);
    if first_no_info_in_devices(rooms[0].devices, required, provider) is Some {
    } else {
        assert(prefix.drop_first() =~= rooms.drop_first().take(n - 1));
        lemma_first_no_info_prefix(rooms.drop_first(), n - 1, required, provider);
    }
}

/// Where the walk found no required device without info, the provider has
/// info for every required device some room references.
proof fn lemma_devices_all_known<P: DeviceInfoProvider>(
    devices: Seq<Seq<char>>,
    required: Seq<Seq<char>>,
    provider: &P,
    device: Seq<char>,
)
    requires
        first_no_info_in_devices(devices, required, provider) is None,
        devices.contains(device),
        required.contains(device),
    ensures
        provider.spec_knows(device),
    decreases devices.len(),
{
    let i = choose|i: int| 0 <= i < devices.len() && devices[i] == device;
    if devices[0] == device {
    } else {
        assert(devices.drop_first()[i - 1] == device);
        lemma_devices_all_known(devices.drop_first(), required, provider, device);
    }
}

proof fn lemma_rooms_all_known<P: DeviceInfoProvider>(
    rooms: Seq<RoomView>,
    required: Seq<Seq<char>>,
    provider: &P,
    i: int,
    device: Seq<char>,
)
    requires
        first_no_info(rooms, required, provider) is None,
        0 <= i < rooms.len(),
        rooms[i].has_device(device),
        required.contains(device),
    ensures
        provider.spec_knows(device),
    decreases rooms.len(),
{
    if i == 0 {
        lemma_devices_all_known(rooms[0].devices, required, provider, device);
    } else {
        assert(rooms.drop_first()[i - 1] == rooms[i]);
        lemma_rooms_all_known(rooms.drop_first(), required, provider, i - 1, device);
    }
}

proof fn lemma_referenced_push(rooms: Seq<RoomView>, room: RoomView, device: Seq<char>)
    ensures
        referenced(rooms.push(room), device) == (referenced(rooms, device) || room.has_device(
            device,
        )),
{
    let whole = rooms.push(room);
    if referenced(rooms, device) {
        let m = choose|m: int| 0 <= m < rooms.len() && rooms[m].has_device(device);
        assert(whole[m].has_device(device));
    }
    if room.has_device(device) {
        assert(whole[rooms.len() as int].has_device(device));
    }
    if referenced(whole, device) && !room.has_device(device) {
        let m = choose|m: int| 0 <= m < whole.len() && whole[m].has_device(device);
        assert(rooms[m].has_device(device));
    }
}

proof fn lemma_first_unreferenced_push(
    required: Seq<Seq<char>>,
    device: Seq<char>,
    rooms: Seq<RoomView>,
)
    ensures
        first_unreferenced(required.push(device), rooms) == match first_unreferenced(
            required,
            rooms,
        ) {
            Some(found) => Some(found),
            None => if !referenced(rooms, device) {
                Some(device)
            } else {
                None
            },
        },
    decreases required.len(),
{
    let whole = required.push(device);
    if required.len() == 0 {
        reveal_with_fuel(first_unreferenced, 2);
        assert(whole[0] == device);
        assert(whole.drop_first() =~= Seq::<Seq<char>>::empty());
    } else {
        assert(whole[0] == required[0]);
        assert(whole.drop_first() =~= required.drop_first().push(device));
        lemma_first_unreferenced_push(required.drop_first(), device, rooms);
    }
}

/// Once a prefix of the required names yields an unreferenced one, the rest
/// cannot change it.
proof fn lemma_first_unreferenced_prefix(required: Seq<Seq<char>>, n: int, rooms: Seq<RoomView>)
    requires
        0 <= n <= required.len(),
        first_unreferenced(required.take(n), rooms) is Some,
    ensures
        first_unreferenced(required, rooms) == first_unreferenced(required.take(n), rooms),
    decreases required.len(),
{
    let prefix = required.take(n);
    assert(n >= 1);
    assert(prefix[0] == required[0]);
    if !referenced(rooms, required[0]) {
    } else {
        assert(prefix.drop_first() =~= required.drop_first().take(n - 1));
        lemma_first_unreferenced_prefix(required.drop_first(), n - 1, rooms);
    }
}

proof fn lemma_device_section_push<P: DeviceInfoProvider>(
    rooms: Seq<RoomView>,
    room: RoomView,
    device: Seq<char>,
    provider: &P,
)
    ensures
        device_section(rooms.push(room), device, provider) == device_section(
            rooms,
            device,
            provider,
        ) + room_line(room, device, provider),
    decreases rooms.len(),
{
    let whole = rooms.push(room);
    if rooms.len() == 0 {
        reveal_with_fuel(device_section, 2);
        assert(whole[0] == room);
        assert(whole.drop_first() =~= Seq::<RoomView>::empty());
        assert(device_section(whole, device, provider) =~= device_section(rooms, device, provider)
            + room_line(room, device, provider));
    } else {
        assert(whole[0] == rooms[0]);
        assert(whole.drop_first() =~= rooms.drop_first().push(room));
        lemma_device_section_push(rooms.drop_first(), room, device, provider);
        let head = room_line(rooms[0], device, provider);
        let rest = device_section(rooms.drop_first(), device, provider);
        let tail = room_line(room, device, provider);
        assert(device_section(whole, device, provider) == head + (rest + tail));
        assert(head + (rest + tail) =~= (head + rest) + tail);
    }
}

proof fn lemma_report_sections_push<P: DeviceInfoProvider>(
    rooms: Seq<RoomView>,
    required: Seq<Seq<char>>,
    device: Seq<char>,
    provider: &P,
)
    ensures
        report_sections(rooms, required.push(device), provider) == report_sections(
            rooms,
            required,
            provider,
        ) + device_section(rooms, device, provider),
    decreases required.len(),
{
    let whole = required.push(device);
    if required.len() == 0 {
        reveal_with_fuel(report_sections, 2);
        assert(whole[0] == device);
        assert(whole.drop_first() =~= Seq::<Seq<char>>::empty());
        assert(report_sections(rooms, whole, provider) =~= report_sections(
            rooms,
            required,
            provider,
        ) + device_section(rooms, device, provider));
    } else {
        assert(whole[0] == required[0]);
        assert(whole.drop_first() =~= required.drop_first().push(device));
        lemma_report_sections_push(rooms, required.drop_first(), device, provider);
        let head = device_section(rooms, required[0], provider);
        let rest = report_sections(rooms, required.drop_first(), provider);
        let tail = device_section(rooms, device, provider);
        assert(report_sections(rooms, whole, provider) == head + (rest + tail));
        assert(head + (rest + tail) =~= (head + rest) + tail);
    }
}

} // verus!
