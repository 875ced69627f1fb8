//! The threshold rule that maps a battery level and the current charge state to an action.
use vstd::prelude::*;
use crate::text::{decimal, decimal_string};

verus! {

/// The outcome of one poll, for reporting.
#[derive(PartialEq, Eq, Structural, Debug, Clone, Copy)]
pub enum Action {
    ChargingEnabled,
    ChargingDisabled,
    NoChange,
    Error,
}

pub open spec fn action_label(a: Action) -> Seq<char> {
    match a {
        Action::ChargingEnabled => "charging_enabled"@,
        Action::ChargingDisabled => "charging_disabled"@,
        Action::NoChange => "no_change"@,
        Action::Error => "error"@,
    }
}

impl Action {
    /// The action's name in reports.
    pub fn label(&self) -> (r: &'static str)
        ensures
            r@ == action_label(*self),
    {
        match self {
            Action::ChargingEnabled => "charging_enabled",
            Action::ChargingDisabled => "charging_disabled",
            Action::NoChange => "no_change",
            Action::Error => "error",
        }
    }
}

/// Below the high threshold charging is wanted, at or above it not; an action is taken
/// only where the current state differs. An unknown level is an error.
pub open spec fn decision(level: Option<u8>, charging_enabled: bool, high_threshold: u8) -> Action {
    match level {
        None => Action::Error,
        Some(l) => if l < high_threshold && !charging_enabled {
            Action::ChargingEnabled
        } else if l >= high_threshold && charging_enabled {
            Action::ChargingDisabled
        } else {
            Action::NoChange
        },
    }
}

pub fn decide(level: Option<u8>, charging_enabled: bool, high_threshold: u8) -> (r: Action)
    ensures
        r == decision(level, charging_enabled, high_threshold),
{
    match level {
        None => Action::Error,
        Some(l) => {
            if l < high_threshold && !charging_enabled {
                Action::ChargingEnabled
            } else if l >= high_threshold && charging_enabled {
                Action::ChargingDisabled
            } else {
                Action::NoChange
            }
        },
    }
}

/// The event that a poll leads to, with the battery level it was decided at.
#[derive(Debug, Clone, PartialEq)]
pub enum PowerEvent {
    ChargingEnabling(u8),
    ChargingDisabling(u8),
    NoChange(u8),
    Error(Option<String>),
}

/// The event for a battery reading and the current charge state: the action that the
/// threshold rule decides, one for one; an unknown level is an error without a message.
pub open spec fn event_for(level: Option<u8>, charging_enabled: bool, high_threshold: u8) -> PowerEvent {
    match level {
        None => PowerEvent::Error(None),
        Some(l) => match decision(level, charging_enabled, high_threshold) {
            Action::ChargingEnabled => PowerEvent::ChargingEnabling(l),
            Action::ChargingDisabled => PowerEvent::ChargingDisabling(l),
            _ => PowerEvent::NoChange(l),
        },
    }
}

pub fn resolve_next_event(level: Option<u8>, charging_enabled: bool, high_threshold: u8) -> (r: PowerEvent)
    ensures
        r == event_for(level, charging_enabled, high_threshold),
{
    match level {
        None => PowerEvent::Error(None),
        Some(l) => match decide(level, charging_enabled, high_threshold) {
            Action::ChargingEnabled => PowerEvent::ChargingEnabling(l),
            Action::ChargingDisabled => PowerEvent::ChargingDisabling(l),
            _ => PowerEvent::NoChange(l),
        },
    }
}

/// The report text of an event.
pub open spec fn event_message(e: PowerEvent) -> Seq<char> {
    match e {
        PowerEvent::ChargingEnabling(v) => "charging_enabled, at "@ + decimal(v as nat) + "%"@,
        PowerEvent::ChargingDisabling(v) => "charging_disabled, at "@ + decimal(v as nat) + "%"@,
        PowerEvent::NoChange(v) => "no_change, at "@ + decimal(v as nat),
        PowerEvent::Error(Some(m)) => "error: "@ + m@,
        PowerEvent::Error(None) => "error: battery level unknown"@,
    }
}

impl PowerEvent {
    /// The event's report text.
    pub fn message(&self) -> (r: String)
        ensures
            r@ == event_message(*self),
    {
        match self {
            PowerEvent::ChargingEnabling(v) => {
                let mut m = String::from_str("charging_enabled, at ");
                m.append(decimal_string(*v).as_str());
                m.append("%");
                m
            },
            PowerEvent::ChargingDisabling(v) => {
                let mut m = String::from_str("charging_disabled, at ");
                m.append(decimal_string(*v).as_str());
                m.append("%");
                m
            },
            PowerEvent::NoChange(v) => {
                let mut m = String::from_str("no_change, at ");
                m.append(decimal_string(*v).as_str());
                m
            },
            PowerEvent::Error(Some(msg)) => {
                let mut m = String::from_str("error: ");
                m.append(msg.as_str());
                m
            },
            PowerEvent::Error(None) => String::from_str("error: battery level unknown"),
        }
    }
}

} // verus!
