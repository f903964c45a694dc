use crate::device::{Device, SmartSocket, SmartThermometer};
use crate::house::room::name_seqs;
use crate::str_eq;
use vstd::prelude::*;

verus! {

/// The line reported for one device as seen in one room.
pub open spec fn info_line(room: Seq<char>, device_report: Seq<char>) -> Seq<char> {
    "Room: "@ + room + ", Device "@ + device_report
}

/// A collaborator that enumerates the devices it can report on and supplies
/// per-device status text.
pub trait DeviceInfoProvider {
    /// The names of the devices the provider requires a report to cover,
    /// in order.
    spec fn spec_required(&self) -> Seq<Seq<char>>;

    /// Whether the provider can produce info for a device of this name.
    spec fn spec_knows(&self, device: Seq<char>) -> bool;

    /// The status text of the provider's device of this name.
    spec fn spec_report(&self, device: Seq<char>) -> Seq<char>;

    /// The names of the required devices.
    fn required_devices(&self) -> (names: Vec<String>)
        ensures
            name_seqs(names@) == self.spec_required(),
    ;

    /// The info line for `device` as seen in `room`, or absence where the
    /// provider does not recognize the device name. The room name is only
    /// carried through into the line.
    fn get_info(&self, room: &str, device: &str) -> (info: Option<String>)
        ensures
            info is Some <==> self.spec_knows(device@),
            info matches Some(line) ==> line@ == info_line(room@, self.spec_report(device@)),
    ;
}

/// Builds the info line for a device report as seen in `room`.
pub(crate) fn extract_info(room: &str, device_report: String) -> (line: String)
    ensures
        line@ == info_line(room@, device_report@),
{
    let mut line = "Room: ".to_owned();
    line.append(room);
    line.append(", Device ");
    line.append(device_report.as_str());
    line
}

/// A provider that owns the one device it reports on.
pub struct OwningDeviceInfoProvider {
    pub socket: SmartSocket,
}

impl DeviceInfoProvider for OwningDeviceInfoProvider {
    open spec fn spec_required(&self) -> Seq<Seq<char>> {
        seq![self.socket.spec_name()]
    }

    open spec fn spec_knows(&self, device: Seq<char>) -> bool {
        device == self.socket.spec_name()
    }

    open spec fn spec_report(&self, device: Seq<char>) -> Seq<char> {
        self.socket.spec_report()
    }

    fn required_devices(&self) -> (names: Vec<String>) {
        let mut names: Vec<String> = Vec::new();
        names.push(self.socket.get_name().to_owned());
        proof {
            assert(name_seqs(names@) =~= seq![self.socket.spec_name()]);
        }
        names
    }

    fn get_info(&self, room: &str, device: &str) -> (info: Option<String>) {
        if str_eq(device, self.socket.get_name()) {
            Some(extract_info(room, self.socket.report()))
        } else {
            None
        }
    }
}

/// A provider that borrows the devices it reports on.
pub struct BorrowingDeviceInfoProvider<'a, 'b> {
    pub socket: &'a SmartSocket,
    pub thermo: &'b SmartThermometer,
}

impl<'a, 'b> DeviceInfoProvider for BorrowingDeviceInfoProvider<'a, 'b> {
    open spec fn spec_required(&self) -> Seq<Seq<char>> {
        seq![self.socket.spec_name(), self.thermo.spec_name()]
    }

    open spec fn spec_knows(&self, device: Seq<char>) -> bool {
        device == self.socket.spec_name() || device == self.thermo.spec_name()
    }

    /// Where the two device names collide, the thermometer's report wins.
    open spec fn spec_report(&self, device: Seq<char>) -> Seq<char> {
        if device == self.thermo.spec_name() {
            self.thermo.spec_report()
        } else {
            self.socket.spec_report()
        }
    }

    fn required_devices(&self) -> (names: Vec<String>) {
        let mut names: Vec<String> = Vec::new();
        names.push(self.socket.get_name().to_owned());
        names.push(self.thermo.get_name().to_owned());
        proof {
            assert(name_seqs(names@) =~= seq![
                self.socket.spec_name(),
                self.thermo.spec_name(),
            ]);
        }
        names
    }

    fn get_info(&self, room: &str, device: &str) -> (info: Option<String>) {
        if str_eq(device, self.thermo.get_name()) {
            Some(extract_info(room, self.thermo.report()))
        } else if str_eq(device, self.socket.get_name()) {
            Some(extract_info(room, self.socket.report()))
        } else {
            None
        }
    }
}

/// A provider that only declares which devices a report must cover: it owns
/// no devices, and every lookup signals absence.
pub struct SilentDeviceInfoProvider {
    pub required: Vec<String>,
}

impl DeviceInfoProvider for SilentDeviceInfoProvider {
    open spec fn spec_required(&self) -> Seq<Seq<char>> {
        name_seqs(self.required@)
    }

    open spec fn spec_knows(&self, device: Seq<char>) -> bool {
        false
    }

    open spec fn spec_report(&self, device: Seq<char>) -> Seq<char> {
        Seq::empty()
    }

    fn required_devices(&self) -> (names: Vec<String>) {
        broadcast use vstd::seq_lib::group_seq_properties;

        let mut names: Vec<String> = Vec::new();
        let mut k: usize = 0;
        while k < self.required.len()
            invariant
                k <= self.required@.len(),
                name_seqs(names@) == name_seqs(self.required@).take(k as int),
            decreases self.required@.len() - k,
        {
            let ghost before = names@;
            names.push(self.required[k].clone());
            proof {
                assert(name_seqs(before).len() == k as int);
                assert(before.len() == k as int);
                assert(name_seqs(names@) =~= name_seqs(self.required@).take(k as int + 1));
            }
            k += 1;
        }
        proof {
            assert(name_seqs(self.required@).take(self.required@.len() as int) =~= name_seqs(
                self.required@,
            ));
        }
        names
    }

    fn get_info(&self, room: &str, device: &str) -> (info: Option<String>) {
        None
    }
}

} // verus!
