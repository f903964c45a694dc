use house::device::{SmartSocket, SmartSocketState, SmartThermometer};
use house::house::{ReportError, SmartHome};
use house::house::room::Room;
use house::provider::{
    BorrowingDeviceInfoProvider, OwningDeviceInfoProvider, SilentDeviceInfoProvider,
};

#[test]
fn report_has_exact_text() {
    let socket1 = SmartSocket::new(String::from("socket_1"), SmartSocketState::On);
    let room1 = Room::new(
        "Room 1".to_string(),
        vec!["socket_1".to_string(), "socket_2".to_string()],
    );
    let room2 = Room::new(
        "Room 2".to_string(),
        vec!["thermo".to_string(), "socket_2".to_string()],
    );
    let mut house = SmartHome::new("House :)".to_string());
    house.add_room(room1);
    house.add_room(room2);
    let info_provider = OwningDeviceInfoProvider { socket: socket1 };

    let report = house.create_report(&info_provider).unwrap();

    assert_eq!(
        report,
        "Finding report of House :)\nRoom: Room 1, Device Socket: socket_1 and state is On"
    );
}

#[test]
fn report_groups_lines_by_required_device() {
    let socket1 = SmartSocket::new(String::from("socket_1"), SmartSocketState::On);
    let thermo = SmartThermometer::new(String::from("thermo"), String::from("27.6"));
    let room1 = Room::new("Room 1".to_string(), vec!["socket_1".to_string()]);
    let room2 = Room::new(
        "Room 2".to_string(),
        vec!["thermo".to_string(), "socket_1".to_string()],
    );
    let mut house = SmartHome::new("House :)".to_string());
    house.add_room(room1);
    house.add_room(room2);
    let info_provider = BorrowingDeviceInfoProvider {
        socket: &socket1,
        thermo: &thermo,
    };

    let report = house.create_report(&info_provider).unwrap();

    assert_eq!(
        report,
        "Finding report of House :)\
         \nRoom: Room 1, Device Socket: socket_1 and state is On\
         \nRoom: Room 2, Device Socket: socket_1 and state is On\
         \nRoom: Room 2, Device Thermometer: thermo and temperature is 27.6"
    );
}

#[test]
fn report_is_the_same_when_created_twice() {
    let socket1 = SmartSocket::new(String::from("socket_1"), SmartSocketState::On);
    let room1 = Room::new("Room 1".to_string(), vec!["socket_1".to_string()]);
    let mut house = SmartHome::new("House :)".to_string());
    house.add_room(room1);
    let info_provider = OwningDeviceInfoProvider { socket: socket1 };

    let report1 = house.create_report(&info_provider).unwrap();
    let report2 = house.create_report(&info_provider).unwrap();

    assert_eq!(report1, report2);
}

#[test]
fn no_info_for_referenced_required_device_fails_the_report() {
    let room1 = Room::new("Room 1".to_string(), vec!["socket_1".to_string()]);
    let mut house = SmartHome::new("House :)".to_string());
    house.add_room(room1);
    let info_provider = SilentDeviceInfoProvider {
        required: vec![String::from("socket_1")],
    };

    match house.create_report(&info_provider) {
        Err(ReportError::NoInfoProvided(device)) => assert_eq!(device, "socket_1"),
        other => panic!("expected NoInfoProvided, got {:?}", other),
    }
}

#[test]
fn nothing_required_gives_a_bare_header() {
    let room1 = Room::new("Room 1".to_string(), vec!["socket_1".to_string()]);
    let mut house = SmartHome::new("House :)".to_string());
    house.add_room(room1);

    let info_provider = SilentDeviceInfoProvider { required: Vec::new() };
    let report = house.create_report(&info_provider).unwrap();

    assert_eq!(report, "Finding report of House :)");
}
