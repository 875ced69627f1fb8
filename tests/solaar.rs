use mx_mini_battery_manager::solaar::{
    battery_from_diagnostic_text, get_battery_by_vendor_product_id, get_mx_keys_mini_battery,
    parse_battery_from_solaar_output, ScanError,
};

#[test]
fn test_parse_mx_keys_mini() {
    let sample_output = r#"solaar version 1.1.14

MX Keys Mini
     Device path  : /dev/hidraw5
     USB id       : 046d:B369
     Codename     : MX Keys Mini
     Kind         : keyboard
     Protocol     : HID++ 4.5
     Battery: 95%, 0.
"#;

    let result = parse_battery_from_solaar_output(sample_output, "046d", "B369");
    assert_eq!(result, Ok(95));
}

#[test]
fn test_parse_case_insensitive() {
    let sample_output = r#"solaar version 1.1.14

MX Keys Mini
     USB id       : 046D:b369
     Battery: 42%, 0.
"#;

    let result = parse_battery_from_solaar_output(sample_output, "046d", "B369");
    assert_eq!(result, Ok(42));
}

#[test]
fn test_device_not_found() {
    let sample_output = r#"solaar version 1.1.14

Some Other Device
     USB id       : 046d:C094
     Battery: 50%, 0.
"#;

    let result = parse_battery_from_solaar_output(sample_output, "046d", "B369");
    assert!(result.is_err());
    assert!(result.unwrap_err().contains("not found"));
}

#[test]
fn test_multiple_devices() {
    let sample_output = r#"solaar version 1.1.14

PRO X Wireless
     USB id       : 046d:C094
     Battery: 25%, 0.

MX Keys Mini
     USB id       : 046d:B369
     Battery: 87%, 0.
"#;

    let result = parse_battery_from_solaar_output(sample_output, "046d", "B369");
    assert_eq!(result, Ok(87));
}

const TWO_DEVICES_MATCH_FIRST: &str = "solaar version 1.1.14\n\nMX Keys Mini\n     USB id       : 046d:B369\n     Battery: 61%, 0.\n\nPRO X Wireless\n     USB id       : 046d:C094\n     Battery: 25%, 0.\n";

#[test]
fn matching_device_first_of_two() {
    assert_eq!(battery_from_diagnostic_text(TWO_DEVICES_MATCH_FIRST, "046d", "B369"), Ok(61));
    assert_eq!(battery_from_diagnostic_text(TWO_DEVICES_MATCH_FIRST, "046d", "C094"), Ok(25));
}

#[test]
fn matching_device_between_others() {
    let text = "A\n  USB id : 1111:2222\n  Battery: 10%\nB\n  USB id : 046d:b369\n  Battery: 33%\nC\n  USB id : 3333:4444\n  Battery: 90%\n";
    assert_eq!(battery_from_diagnostic_text(text, "046d", "B369"), Ok(33));
}

#[test]
fn absent_identity_is_not_found() {
    let r = parse_battery_from_solaar_output("Other\n  USB id : 1111:2222\n  Battery: 10%\n", "046d", "B369");
    assert_eq!(r, Err("Device with vendor ID 046d and product ID B369 not found".to_string()));
    assert_eq!(battery_from_diagnostic_text("", "046d", "B369"), Err(ScanError::DeviceNotFound));
}

#[test]
fn matched_device_without_percentage() {
    let text = "MX Keys Mini\n     USB id       : 046d:B369\n     Battery: unknown\n";
    assert_eq!(
        parse_battery_from_solaar_output(text, "046d", "B369"),
        Err("Device found but no battery information available".to_string())
    );
    let later = "MX Keys Mini\n  USB id : 046d:B369\nOther\n  USB id : 1111:2222\n  Battery: 50%\n";
    assert_eq!(battery_from_diagnostic_text(later, "046d", "B369"), Err(ScanError::NoBatteryInfo));
}

#[test]
fn target_identity_case_does_not_matter() {
    let text = "MX\n  USB id : 046d:b369\n  Battery: 70%\n";
    assert_eq!(battery_from_diagnostic_text(text, "046D", "B369"), Ok(70));
    assert_eq!(battery_from_diagnostic_text(text, "046d", "b369"), Ok(70));
}

#[test]
fn first_valid_percentage_wins() {
    let text = "MX\n  USB id : 046d:B369\n  Battery: 150%, abc%, 40%, 30%\n";
    assert_eq!(battery_from_diagnostic_text(text, "046d", "B369"), Ok(40));
    let plus = "MX\n  USB id : 046d:B369\n  Battery: +7%%\n";
    assert_eq!(battery_from_diagnostic_text(plus, "046d", "B369"), Ok(7));
    let edge = "MX\n  USB id : 046d:B369\n  Battery: 100%,\n";
    assert_eq!(battery_from_diagnostic_text(edge, "046d", "B369"), Ok(100));
    let zero = "MX\n  USB id : 046d:B369\n  Battery: 0%\n";
    assert_eq!(battery_from_diagnostic_text(zero, "046d", "B369"), Ok(0));
}

#[test]
fn battery_before_identity_is_ignored() {
    let text = "MX\n  Battery: 12%\n  USB id : 046d:B369\n";
    assert_eq!(battery_from_diagnostic_text(text, "046d", "B369"), Err(ScanError::NoBatteryInfo));
}

#[test]
fn preamble_and_blank_lines_do_not_open_devices() {
    let text = "MX\n  USB id : 046d:B369\n\nDevice path /dev/x\nПриёмник 1\n  Battery: 55%\n";
    assert_eq!(battery_from_diagnostic_text(text, "046d", "B369"), Ok(55));
}

#[test]
fn identity_lines_before_any_device_are_ignored() {
    let text = "  USB id : 046d:B369\n  Battery: 44%\n";
    assert_eq!(battery_from_diagnostic_text(text, "046d", "B369"), Err(ScanError::DeviceNotFound));
}

#[test]
fn crlf_line_endings() {
    let text = "MX\r\n  USB id : 046d:B369\r\n  Battery: 66%, 0.\r\n";
    assert_eq!(battery_from_diagnostic_text(text, "046d", "B369"), Ok(66));
}

#[test]
fn failed_tool_run_is_an_error() {
    let r = get_battery_by_vendor_product_id(false, "MX\n  USB id : 046d:B369\n  Battery: 5%\n", "046d", "B369");
    assert_eq!(r, Err("Solaar command failed".to_string()));
    let ok = get_battery_by_vendor_product_id(true, "MX\n  USB id : 046d:B369\n  Battery: 5%\n", "046d", "B369");
    assert_eq!(ok, Ok(5));
}

#[test]
fn mx_keys_mini_identity() {
    let text = "MX Keys Mini\n  USB id : 046D:B369\n  Battery: 81%, 0.\n";
    assert_eq!(get_mx_keys_mini_battery(true, text), Ok(81));
    assert!(get_mx_keys_mini_battery(false, text).is_err());
}

#[test]
fn error_messages() {
    assert_eq!(ScanError::NoBatteryInfo.message("a", "b"), "Device found but no battery information available");
    assert_eq!(ScanError::DeviceNotFound.message("046d", "B369"), "Device with vendor ID 046d and product ID B369 not found");
}

#[test]
fn identity_case_in_text_and_target() {
    let upper = "MX\n  USB id : 046D:B369\n  Battery: 58%\n";
    let lower = "MX\n  USB id : 046d:b369\n  Battery: 58%\n";
    assert_eq!(battery_from_diagnostic_text(upper, "046d", "b369"), Ok(58));
    assert_eq!(battery_from_diagnostic_text(lower, "046D", "B369"), Ok(58));
}

#[test]
fn identity_in_preamble_is_not_read() {
    let text = "  USB id : 046d:B369\nMX\n  USB id : 046d:B369\n  Battery: 23%\n";
    assert_eq!(battery_from_diagnostic_text(text, "046d", "B369"), Ok(23));
}
