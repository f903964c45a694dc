use house::device::{Device, SmartSocket, SmartSocketState, SmartThermometer};
use house::provider::{BorrowingDeviceInfoProvider, DeviceInfoProvider, OwningDeviceInfoProvider};

#[test]
fn create_report_for_owning_device() {
    let socket1 = SmartSocket::new(String::from("socket_1"), SmartSocketState::On);
    let info_provider = OwningDeviceInfoProvider { socket: socket1 };

    let report = info_provider.get_info("room", "socket_1").unwrap();
    assert!(report.contains("Room: room, Device Socket: socket_1"));
}

#[test]
fn create_report_for_borrowing_device() {
    let socket1 = SmartSocket::new(String::from("socket_1"), SmartSocketState::On);
    let thermo = SmartThermometer::new(String::from("thermo"), String::from("27.6"));
    let info_provider = BorrowingDeviceInfoProvider {
        socket: &socket1,
        thermo: &thermo,
    };

    let info1 = info_provider.get_info("room", "socket_1").unwrap();
    let info2 = info_provider.get_info("room", "thermo").unwrap();

    assert!(info1.contains("Room: room, Device Socket: socket_1"));
    assert!(info2.contains("Room: room, Device Thermometer: thermo"));
}

#[test]
fn do_not_return_report_if_device_is_not_found() {
    let socket1 = SmartSocket::new(String::from("socket_1"), SmartSocketState::On);
    let info_provider = OwningDeviceInfoProvider { socket: socket1 };

    let info = info_provider.get_info("room", "not_found");
    assert!(info.is_none());
}

#[test]
fn socket_reports_its_state() {
    let on = SmartSocket::new(String::from("socket_1"), SmartSocketState::On);
    let off = SmartSocket::new(String::from("socket_2"), SmartSocketState::Off);

    assert_eq!(on.report(), "Socket: socket_1 and state is On");
    assert_eq!(off.report(), "Socket: socket_2 and state is Off");
    assert_eq!(on.get_name(), "socket_1");
}

#[test]
fn thermometer_reports_its_temperature() {
    let thermo = SmartThermometer::new(String::from("thermo"), String::from("27.6"));

    assert_eq!(thermo.report(), "Thermometer: thermo and temperature is 27.6");
    assert_eq!(thermo.get_name(), "thermo");
}

#[test]
fn required_devices_name_the_providers_devices() {
    let socket1 = SmartSocket::new(String::from("socket_1"), SmartSocketState::On);
    let thermo = SmartThermometer::new(String::from("thermo"), String::from("27.6"));

    let owning = OwningDeviceInfoProvider {
        socket: SmartSocket::new(String::from("socket_1"), SmartSocketState::On),
    };
    assert_eq!(owning.required_devices(), ["socket_1"]);

    let borrowing = BorrowingDeviceInfoProvider {
        socket: &socket1,
        thermo: &thermo,
    };
    assert_eq!(borrowing.required_devices(), ["socket_1", "thermo"]);
}
