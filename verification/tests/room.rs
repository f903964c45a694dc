use house::house::room::Room;

#[test]
fn can_add_devise() {
    let mut room = Room::new(String::from("room"), Vec::new());
    let device_name = String::from("device");

    room.add_device(device_name);

    assert!(room.get_devices().contains(&String::from("device")));
}

#[test]
fn cannot_add_same_device() {
    let mut room = Room::new(String::from("room"), Vec::new());

    room.add_device(String::from("device"));
    room.add_device(String::from("device"));

    assert_eq!(room.get_devices().len(), 1);
}

#[test]
fn add_device_reports_insertion() {
    let mut room = Room::new(String::from("room"), Vec::new());

    assert!(room.add_device(String::from("device")));
    assert!(!room.add_device(String::from("device")));
}

#[test]
fn new_room_drops_repeated_names() {
    let room = Room::new(
        String::from("room"),
        vec![
            String::from("device"),
            String::from("other"),
            String::from("device"),
        ],
    );

    assert_eq!(room.get_devices().as_slice(), ["device", "other"]);
}

#[test]
fn rooms_are_equal_by_name_alone() {
    let room1 = Room::new(String::from("room"), vec![String::from("device")]);
    let room2 = Room::new(String::from("room"), Vec::new());
    let room3 = Room::new(String::from("other"), Vec::new());

    assert!(room1 == room2);
    assert!(room1 != room3);
}
