//! Every decision of the BLE beacon harvester, verified: advert decoding
//! (service data lookup, BTHome v2 frame decryption and object walk),
//! per-device state with staleness and counters, the radio-wedge verdict,
//! the sparkline and log rings, the byte-exact renderers for `/metrics`,
//! `/api/readings`, `/api/history`, `/status` and `/logs`, and the
//! housekeeping, Wi-Fi, boot-accounting and OTA decisions of the firmware.
//! Properties that span several calls are stated and proved in `laws`.

pub mod clock;
pub mod text;
pub mod fixed;
pub mod parse;
pub mod frame;
pub mod advert;
pub mod config;
pub mod wifi;
pub mod effects;
pub mod ota;
pub mod housekeeping;
pub mod device;
pub mod site;
pub mod registry;
pub mod wedge;
pub mod spark;
pub mod render;
pub mod logring;
pub mod laws;

pub use clock::{Clock, Millis};
pub use device::Device;
pub use registry::Registry;
pub use spark::Spark;
pub use wedge::{WedgeDetector, WedgeVerdict};

use vstd::prelude::*;

verus! {

/// Most configured devices the fixed-size state holds.
pub const MAX_DEVICES: usize = 8;

/// Sparkline columns kept per device.
pub const SPARK_DEPTH: usize = 72;

/// Lines in the in-memory log ring.
pub const LOG_LINES: usize = 128;

/// Bytes of one log line slot.
pub const LOG_LINE_BYTES: usize = 96;

/// Behavioural tunables injected at construction time.
#[derive(Clone, Copy, Debug, PartialEq, Eq)]
pub struct Tunables {
    pub device_timeout: Millis,
    pub wedge_window: Millis,
    pub spark_sample_interval: Millis,
}

} // verus!
