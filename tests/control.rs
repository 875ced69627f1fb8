use mx_mini_battery_manager::control::{advance, start_tick, TickEvent, TickPhase, TickReport};
use mx_mini_battery_manager::decision::{decide, resolve_next_event, Action, PowerEvent};
use mx_mini_battery_manager::config::Config;

#[test]
fn decide_threshold_cases() {
    assert_eq!(decide(Some(79), false, 80), Action::ChargingEnabled);
    assert_eq!(decide(Some(80), true, 80), Action::ChargingDisabled);
    assert_eq!(decide(Some(50), true, 80), Action::NoChange);
    assert_eq!(decide(None, true, 80), Action::Error);
    assert_eq!(decide(None, false, 80), Action::Error);
    assert_eq!(decide(Some(90), false, 80), Action::NoChange);
}

#[test]
fn action_labels() {
    assert_eq!(Action::ChargingEnabled.label(), "charging_enabled");
    assert_eq!(Action::ChargingDisabled.label(), "charging_disabled");
    assert_eq!(Action::NoChange.label(), "no_change");
    assert_eq!(Action::Error.label(), "error");
}

#[test]
fn next_event_by_threshold_and_charge_state() {
    assert_eq!(resolve_next_event(Some(79), false, 80), PowerEvent::ChargingEnabling(79));
    assert_eq!(resolve_next_event(Some(80), true, 80), PowerEvent::ChargingDisabling(80));
    assert_eq!(resolve_next_event(Some(50), true, 80), PowerEvent::NoChange(50));
    assert_eq!(resolve_next_event(Some(90), false, 80), PowerEvent::NoChange(90));
    assert_eq!(resolve_next_event(None, true, 80), PowerEvent::Error(None));
}

#[test]
fn event_messages() {
    assert_eq!(PowerEvent::ChargingEnabling(7).message(), "charging_enabled, at 7%");
    assert_eq!(PowerEvent::ChargingDisabling(100).message(), "charging_disabled, at 100%");
    assert_eq!(PowerEvent::NoChange(42).message(), "no_change, at 42");
    assert_eq!(PowerEvent::NoChange(0).message(), "no_change, at 0");
    assert_eq!(PowerEvent::ChargingEnabling(255).message(), "charging_enabled, at 255%");
    assert_eq!(PowerEvent::Error(Some("read failed".to_string())).message(), "error: read failed");
    assert_eq!(PowerEvent::Error(None).message(), "error: battery level unknown");
}

#[test]
fn tick_device_absent() {
    let p = advance(start_tick(), TickEvent::DeviceMissing, 80);
    assert_eq!(p, TickPhase::Finished(TickReport::DeviceAbsent));
    let f = advance(start_tick(), TickEvent::SearchFailed, 80);
    assert_eq!(f, TickPhase::Finished(TickReport::SearchFailed));
}

#[test]
fn tick_enables_charging_below_threshold() {
    let mut p = start_tick();
    p = advance(p, TickEvent::DeviceFound, 80);
    assert_eq!(p, TickPhase::ReadingBattery);
    p = advance(p, TickEvent::BatteryLevel(Some(79)), 80);
    assert_eq!(p, TickPhase::ReadingChargeState { level: 79 });
    p = advance(p, TickEvent::ChargeState(false), 80);
    assert_eq!(p, TickPhase::Applying { level: 79, action: Action::ChargingEnabled });
    p = advance(p, TickEvent::ChargeWritten(true), 80);
    assert_eq!(p, TickPhase::Finished(TickReport::Completed { level: Some(79), action: Action::ChargingEnabled }));
}

#[test]
fn tick_write_failure_is_error() {
    let p = TickPhase::Applying { level: 85, action: Action::ChargingDisabled };
    assert_eq!(
        advance(p, TickEvent::ChargeWritten(false), 80),
        TickPhase::Finished(TickReport::Completed { level: Some(85), action: Action::Error })
    );
}

#[test]
fn tick_unknown_level_and_no_change() {
    let p = advance(TickPhase::ReadingBattery, TickEvent::BatteryLevel(None), 80);
    assert_eq!(p, TickPhase::Finished(TickReport::Completed { level: None, action: Action::Error }));
    let q = advance(TickPhase::ReadingChargeState { level: 50 }, TickEvent::ChargeState(true), 80);
    assert_eq!(q, TickPhase::Finished(TickReport::Completed { level: Some(50), action: Action::NoChange }));
    let r = advance(TickPhase::ReadingBattery, TickEvent::ChargeState(true), 80);
    assert_eq!(r, TickPhase::ReadingBattery);
}

#[test]
fn default_config() {
    let c = Config::default();
    assert_eq!(c.device.vendor_id, 0x05e3);
    assert_eq!(c.device.product_id, 0x0608);
    assert_eq!(c.device.name, "Logitech MX Mini");
    assert_eq!(c.thresholds.high_threshold, 80);
    assert_eq!(c.thresholds.low_threshold, 20);
    assert_eq!(c.logging.level, "info");
    assert!(c.logging.use_journal);
}
