use house::device::{SmartSocket, SmartSocketState};
use house::house::{ReportError, SmartHome};
use house::house::room::Room;
use house::provider::OwningDeviceInfoProvider;

#[test]
fn can_add_room() {
    let mut house = SmartHome::new(String::from("new house"));
    let room = Room::new(String::from("room"), Vec::new());

    house.add_room(room);

    assert!(house.get_rooms().iter().any(|r| r.get_name() == "room"));
}

#[test]
fn cannot_add_room_with_same_name() {
    let mut house = SmartHome::new(String::from("new house"));
    let room1 = Room::new(String::from("room"), Vec::new());
    let room2 = Room::new(String::from("room"), Vec::new());

    house.add_room(room1);
    house.add_room(room2);

    assert_eq!(house.get_rooms().len(), 1);
}

#[test]
fn creates_report() {
    let socket1 = SmartSocket::new(String::from("socket_1"), SmartSocketState::On);
    let room1 = Room::new(
        "Room 1".to_string(),
        vec!["socket_1".to_string(), "socket_2".to_string()],
    );
    let room2 = Room::new(
        "Room 2".to_string(),
        vec!["thermo".to_string(), "socket_2".to_string()],
    );
    let mut house = SmartHome::new("House :)".to_string());
    house.add_room(room1);
    house.add_room(room2);
    let info_provider_1 = OwningDeviceInfoProvider { socket: socket1 };

    let report1 = house.create_report(&info_provider_1).unwrap();

    assert!(report1.contains("Room: Room 1, Device Socket: socket_1 and state is On"));
    assert!(!report1.contains("Room: Room 1, Device Socket: socket_2"));
    assert!(!report1.contains("Room: Room 2, Device Socket: socket_2"));
    assert!(!report1.contains("Room: Room 2, Device Thermometer: thermo"));
}

#[test]
fn device_not_found() {
    let socket1 = SmartSocket::new(String::from("socket_1"), SmartSocketState::On);
    let room1 = Room::new("Room 1".to_string(), Vec::new());
    let mut house = SmartHome::new("House :)".to_string());
    let info_provider_1 = OwningDeviceInfoProvider { socket: socket1 };

    house.add_room(room1);
    let report = house.create_report(&info_provider_1);

    assert!(report.is_err());
}

#[test]
fn not_found_device_error_names_the_device() {
    let socket1 = SmartSocket::new(String::from("socket_1"), SmartSocketState::On);
    let room1 = Room::new("Room 1".to_string(), Vec::new());
    let mut house = SmartHome::new("House :)".to_string());
    house.add_room(room1);
    let info_provider_1 = OwningDeviceInfoProvider { socket: socket1 };

    match house.create_report(&info_provider_1) {
        Err(ReportError::NotFoundDevice(device)) => assert_eq!(device, "socket_1"),
        other => panic!("expected NotFoundDevice, got {:?}", other),
    }
}

#[test]
fn add_room_reports_insertion() {
    let mut house = SmartHome::new(String::from("new house"));
    let room1 = Room::new(String::from("room"), Vec::new());
    let room2 = Room::new(String::from("room"), Vec::new());

    assert!(house.add_room(room1));
    assert!(!house.add_room(room2));
}

#[test]
fn error_message_for_not_found_device() {
    let err = ReportError::NotFoundDevice(String::from("socket_1"));
    assert_eq!(err.message(), "Cannot find this device: socket_1");
}

#[test]
fn error_message_for_no_info_provided() {
    let err = ReportError::NoInfoProvided(String::from("socket_1"));
    assert_eq!(err.message(), "Do not have info for this device: socket_1");
}
