//! The decisions of one poll tick, as a state machine driven by the outcomes of the
//! outside work (device search, battery read, charge state read, charge write).
use vstd::prelude::*;
use crate::decision::{decide, decision, Action};

verus! {

/// How a tick ended.
#[derive(PartialEq, Eq, Structural, Debug, Clone, Copy)]
pub enum TickReport {
    /// The device is not attached.
    DeviceAbsent,
    /// The device tree could not be searched.
    SearchFailed,
    /// The device was found; `level` is what was read of its battery.
    Completed { level: Option<u8>, action: Action },
}

/// Where a tick stands; each phase but the last waits for one kind of event.
#[derive(PartialEq, Eq, Structural, Debug, Clone, Copy)]
pub enum TickPhase {
    /// Waiting for the device search.
    Locating,
    /// Waiting for the battery level of the found device.
    ReadingBattery,
    /// Waiting for the charge state, the level being known.
    ReadingChargeState { level: u8 },
    /// Waiting for the outcome of the charge change that `action` names.
    Applying { level: u8, action: Action },
    /// The tick is over.
    Finished(TickReport),
}

/// The outcome of a piece of outside work.
#[derive(PartialEq, Eq, Structural, Debug, Clone, Copy)]
pub enum TickEvent {
    DeviceFound,
    DeviceMissing,
    SearchFailed,
    BatteryLevel(Option<u8>),
    ChargeState(bool),
    ChargeWritten(bool),
}

/// The phase after `event`; an event that the phase does not wait for changes nothing.
pub open spec fn transition(phase: TickPhase, event: TickEvent, high_threshold: u8) -> TickPhase {
    match phase {
        TickPhase::Locating => match event {
            TickEvent::DeviceFound => TickPhase::ReadingBattery,
            TickEvent::DeviceMissing => TickPhase::Finished(TickReport::DeviceAbsent),
            TickEvent::SearchFailed => TickPhase::Finished(TickReport::SearchFailed),
            _ => phase,
        },
        TickPhase::ReadingBattery => match event {
            TickEvent::BatteryLevel(None) => TickPhase::Finished(
                TickReport::Completed { level: None, action: Action::Error },
            ),
            TickEvent::BatteryLevel(Some(l)) => TickPhase::ReadingChargeState { level: l },
            _ => phase,
        },
        TickPhase::ReadingChargeState { level } => match event {
            TickEvent::ChargeState(enabled) => {
                let a = decision(Some(level), enabled, high_threshold);
                if a == Action::NoChange {
                    TickPhase::Finished(TickReport::Completed { level: Some(level), action: a })
                } else {
                    TickPhase::Applying { level, action: a }
                }
            },
            _ => phase,
        },
        TickPhase::Applying { level, action } => match event {
            TickEvent::ChargeWritten(ok) => TickPhase::Finished(
                TickReport::Completed {
                    level: Some(level),
                    action: if ok {
                        action
                    } else {
                        Action::Error
                    },
                },
            ),
            _ => phase,
        },
        TickPhase::Finished(_) => phase,
    }
}

/// The phase in which every tick starts.
pub fn start_tick() -> (r: TickPhase)
    ensures
        r == TickPhase::Locating,
{
    TickPhase::Locating
}

pub fn advance(phase: TickPhase, event: TickEvent, high_threshold: u8) -> (r: TickPhase)
    ensures
        r == transition(phase, event, high_threshold),
{
    match phase {
        TickPhase::Locating => match event {
            TickEvent::DeviceFound => TickPhase::ReadingBattery,
            TickEvent::DeviceMissing => TickPhase::Finished(TickReport::DeviceAbsent),
            TickEvent::SearchFailed => TickPhase::Finished(TickReport::SearchFailed),
            _ => phase,
        },
        TickPhase::ReadingBattery => match event {
            TickEvent::BatteryLevel(None) => TickPhase::Finished(
                TickReport::Completed { level: None, action: Action::Error },
            ),
            TickEvent::BatteryLevel(Some(l)) => TickPhase::ReadingChargeState { level: l },
            _ => phase,
        },
        TickPhase::ReadingChargeState { level } => match event {
            TickEvent::ChargeState(enabled) => {
                let a = decide(Some(level), enabled, high_threshold);
                if a == Action::NoChange {
                    TickPhase::Finished(TickReport::Completed { level: Some(level), action: a })
                } else {
                    TickPhase::Applying { level, action: a }
                }
            },
            _ => phase,
        },
        TickPhase::Applying { level, action } => match event {
            TickEvent::ChargeWritten(ok) => TickPhase::Finished(
                TickReport::Completed {
                    level: Some(level),
                    action: if ok {
                        action
                    } else {
                        Action::Error
                    },
                },
            ),
            _ => phase,
        },
        TickPhase::Finished(_) => phase,
    }
}

/// A tick only waits to write where the rule asks for a change: the action it waits
/// on enables or disables charging.
pub proof fn lemma_writes_only_on_change(phase: TickPhase, event: TickEvent, high_threshold: u8)
    requires
        !(phase is Applying),
    ensures
        transition(phase, event, high_threshold) is Applying ==> {
            let a = transition(phase, event, high_threshold)->Applying_action;
            a == Action::ChargingEnabled || a == Action::ChargingDisabled
        },
{
}

} // verus!
