//! The settings the controller runs with.
use vstd::prelude::*;

verus! {

/// The device to manage.
#[derive(Debug, Clone)]
pub struct DeviceConfig {
    pub vendor_id: u16,
    pub product_id: u16,
    pub name: String,
}

/// Charging stops at `high_threshold` percent; `low_threshold` is kept with the
/// settings but the decision does not consult it.
#[derive(Debug, Clone)]
pub struct ThresholdConfig {
    pub high_threshold: u8,
    pub low_threshold: u8,
}

#[derive(Debug, Clone)]
pub struct LoggingConfig {
    pub level: String,
    pub use_journal: bool,
}

#[derive(Debug, Clone)]
pub struct Config {
    pub device: DeviceConfig,
    pub thresholds: ThresholdConfig,
    pub logging: LoggingConfig,
}

impl Default for Config {
    fn default() -> (r: Config)
        ensures
            r.device.vendor_id == 0x05e3,
            r.device.product_id == 0x0608,
            r.device.name@ == "Logitech MX Mini"@,
            r.thresholds.high_threshold == 80,
            r.thresholds.low_threshold == 20,
            r.logging.level@ == "info"@,
            r.logging.use_journal,
    {
        Config {
            device: DeviceConfig {
                vendor_id: 0x05e3,
                product_id: 0x0608,
                name: String::from_str("Logitech MX Mini"),
            },
            thresholds: ThresholdConfig { high_threshold: 80, low_threshold: 20 },
            logging: LoggingConfig { level: String::from_str("info"), use_journal: true },
        }
    }
}

} // verus!
