use mx_mini_battery_manager::hidpp::{battery_from_response, battery_request};
use mx_mini_battery_manager::decision::Action;
use mx_mini_battery_manager::power::PowerController;
use mx_mini_battery_manager::usb::{parse_uevent_identity, DeviceEntry, FileContent, LocateError, USBDeviceManager};

fn entry(name: &str, uevent: FileContent, devnum: FileContent) -> DeviceEntry {
    DeviceEntry { name: name.to_string(), sys_path: format!("/sys/bus/usb/devices/{}", name), uevent, devnum }
}

fn text(s: &str) -> FileContent {
    FileContent::Text(s.to_string())
}

#[test]
fn uevent_identity_is_hexadecimal() {
    assert_eq!(parse_uevent_identity("MAJOR=189\nPRODUCT=46d/b369/1234\nTYPE=0/0/0\n"), Some((0x046d, 0xb369)));
    assert_eq!(parse_uevent_identity("PRODUCT=046D/C52B\n"), Some((0x046d, 0xc52b)));
    assert_eq!(parse_uevent_identity("PRODUCT=46d\n"), None);
    assert_eq!(parse_uevent_identity("PRODUCT=zz/1/1\nPRODUCT=1/2/3\n"), None);
    assert_eq!(parse_uevent_identity("DEVTYPE=usb_device\n"), None);
    assert_eq!(parse_uevent_identity("PRODUCT=10000/1/1\n"), None);
}

#[test]
fn finds_first_matching_entry() {
    let m = USBDeviceManager::new();
    let entries = vec![
        entry("usb1", text("PRODUCT=1d6b/2/515\n"), text("1\n")),
        entry("1-0:1.0", FileContent::Absent, FileContent::Absent),
        entry("1-2", text("PRODUCT=46d/b369/1\n"), text("7\n")),
        entry("2-1", text("PRODUCT=46d/b369/1\n"), text("9\n")),
    ];
    let d = m.find_device(&entries, 0x046d, 0xb369).unwrap().unwrap();
    assert_eq!(d.bus, 1);
    assert_eq!(d.device, 7);
    assert_eq!(d.vendor_id, 0x046d);
    assert_eq!(d.product_id, 0xb369);
    assert_eq!(d.sys_path, "/sys/bus/usb/devices/1-2");
}

#[test]
fn no_matching_entry_is_not_found() {
    let m = USBDeviceManager::new();
    let entries = vec![
        entry("usb1", text("PRODUCT=1d6b/2/515\n"), text("1\n")),
        entry("1-1", text("garbage"), FileContent::Absent),
        entry("1-1:1.0", FileContent::Absent, FileContent::Absent),
    ];
    assert!(matches!(m.find_device(&entries, 0x046d, 0xb369), Ok(None)));
    assert!(matches!(m.find_device(&Vec::new(), 0x046d, 0xb369), Ok(None)));
}

#[test]
fn locate_errors() {
    let m = USBDeviceManager::new();
    let unreadable = vec![
        entry("1-1", FileContent::Unreadable, FileContent::Absent),
        entry("1-2", text("PRODUCT=1/2/3"), text("4")),
    ];
    let d = m.find_device(&unreadable, 1, 2).unwrap().unwrap();
    assert_eq!(d.sys_path, "/sys/bus/usb/devices/1-2");
    let bad_devnum = vec![entry("1-1", text("PRODUCT=1/2/3"), text("300"))];
    assert!(matches!(m.find_device(&bad_devnum, 1, 2), Err(LocateError::DevnumInvalid)));
    let lost_devnum = vec![entry("1-1", text("PRODUCT=1/2/3"), FileContent::Unreadable)];
    assert!(matches!(m.find_device(&lost_devnum, 1, 2), Err(LocateError::DevnumUnreadable)));
}

#[test]
fn bus_and_address() {
    let m = USBDeviceManager::new();
    assert_eq!(m.bus_from_name("usb3"), 3);
    assert_eq!(m.bus_from_name("usbx"), 0);
    assert_eq!(m.bus_from_name("4-1.2"), 4);
    assert_eq!(m.bus_from_name("x"), 0);
    assert_eq!(m.get_device_number(&FileContent::Absent), Ok(0));
    assert_eq!(m.get_device_number(&text(" 12\n")), Ok(12));
    let d = m.create_usb_device(&entry("usb2", FileContent::Absent, FileContent::Absent), 5, 6).unwrap().unwrap();
    assert_eq!((d.bus, d.device, d.vendor_id, d.product_id), (2, 0, 5, 6));
}

#[test]
fn charge_plans() {
    let p = PowerController::new();
    let on = p.set_charging_enabled("/sys/dev/1-2");
    assert_eq!(on.len(), 2);
    assert_eq!(on[0].path, "/sys/dev/1-2/power/autosuspend");
    assert_eq!(on[0].value, "2");
    assert!(!on[0].required);
    assert_eq!(on[1].path, "/sys/dev/1-2/power/control");
    assert_eq!(on[1].value, "auto");
    assert!(on[1].required);
    let off = p.set_charging_disabled("/sys/dev/1-2");
    assert_eq!(off[1].value, "suspend");
}

#[test]
fn charge_change_twice_is_the_same() {
    let p = PowerController::new();
    let first = p.set_charging_disabled("/d");
    let second = p.set_charging_disabled("/d");
    assert_eq!(first.len(), second.len());
    for (a, b) in first.iter().zip(second.iter()) {
        assert_eq!(a.path, b.path);
        assert_eq!(a.value, b.value);
    }
    assert_eq!(p.change_result(&first, &vec![true, true]), Ok(()));
    assert_eq!(p.change_result(&second, &vec![true, true]), Ok(()));
}

#[test]
fn charge_change_outcome() {
    let p = PowerController::new();
    let plan = p.set_charging_enabled("/d");
    assert!(p.change_result(&plan, &vec![false, true]).is_ok());
    assert!(p.change_result(&plan, &vec![true, false]).is_err());
}

#[test]
fn charge_state_reading() {
    let p = PowerController::new();
    assert!(p.is_charging_enabled(Some("auto\n")));
    assert!(!p.is_charging_enabled(Some("suspend\n")));
    assert!(p.is_charging_enabled(Some("on\n")));
    assert!(p.is_charging_enabled(Some("")));
    assert!(p.is_charging_enabled(None));
}

#[test]
fn protocol_response() {
    assert_eq!(battery_request(), vec![0x10, 0xFF, 0x00, 0x00]);
    let resp = [0x10u8, 0xFF, 0, 0, 0, 0, 64, 0];
    assert_eq!(battery_from_response(Some(8), &resp), Some(64));
    assert_eq!(battery_from_response(Some(6), &resp), None);
    assert_eq!(battery_from_response(None, &resp), None);
    let other = [0x11u8, 0xFF, 0, 0, 0, 0, 64];
    assert_eq!(battery_from_response(Some(7), &other), None);
}

#[test]
fn writes_for_each_action() {
    let p = PowerController::new();
    let on = p.writes_for("/d", Action::ChargingEnabled).unwrap();
    assert_eq!(on[1].path, "/d/power/control");
    assert_eq!(on[1].value, "auto");
    let off = p.writes_for("/d", Action::ChargingDisabled).unwrap();
    assert_eq!(off[0].path, "/d/power/autosuspend");
    assert_eq!(off[1].value, "suspend");
    assert!(p.writes_for("/d", Action::NoChange).is_none());
    assert!(p.writes_for("/d", Action::Error).is_none());
}
