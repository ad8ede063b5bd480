//! Committed behavioural tunables of the firmware, in whole seconds, and
//! their bundle for the registry.

use vstd::prelude::*;
use crate::clock::Millis;
use crate::Tunables;

verus! {

/// TCP port of the HTTP server.
pub const LISTEN_PORT: u16 = 8183;

/// A device unseen this long is offline.
pub const DEVICE_TIMEOUT_SECS: u64 = 90;

/// BLE scan interval, milliseconds.
pub const SCAN_INTERVAL_MS: u16 = 40;

/// BLE scan window, milliseconds.
pub const SCAN_WINDOW_MS: u16 = 30;

/// Silence that counts as a radio wedge.
pub const WEDGE_WINDOW_SECS: u64 = 600;

/// Continuous Wi-Fi outage after which the firmware restarts.
pub const WIFI_GIVEUP_SECS: u64 = 300;

/// Spacing of sparkline columns.
pub const SPARK_SAMPLE_INTERVAL_SECS: u64 = 300;

/// Healthy uptime after which a new image with radio evidence is marked valid.
pub const OTA_VALIDATE_AFTER_SECS: u64 = 60;

/// Uptime after which a new image is marked valid unconditionally.
pub const OTA_VALIDATE_DEADLINE_SECS: u64 = 600;

/// The tunables bundle injected into the registry: timeout, wedge window
/// and sparkline interval, in milliseconds.
pub fn tunables() -> (r: Tunables)
    ensures
        r.device_timeout == Millis(90_000),
        r.wedge_window == Millis(600_000),
        r.spark_sample_interval == Millis(300_000),
{
    Tunables {
        device_timeout: Millis(DEVICE_TIMEOUT_SECS * 1000),
        wedge_window: Millis(WEDGE_WINDOW_SECS * 1000),
        spark_sample_interval: Millis(SPARK_SAMPLE_INTERVAL_SECS * 1000),
    }
}

} // verus!
