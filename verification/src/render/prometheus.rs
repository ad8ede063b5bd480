//! The complete `/metrics` exposition body, rendered metric-major: one pass
//! per family, `# HELP` and `# TYPE` once each, gauges gap for offline
//! devices, counters never do.

use vstd::prelude::*;
use crate::clock::{sat_sub, Millis};
use crate::device::Device;
use crate::fixed::{centi, milli, write_centi, write_milli};
use crate::registry::{DeviceModel, DeviceView, Registry, RegistryModel};
use crate::render::{
    flag_text, label_body, per_device, write_escaped, write_flag, Health, RebootCounts,
};
use crate::text::{bytes_of, dec, push_i64, push_str, push_u64, signed_dec};

verus! {

pub const TEMPERATURE: &'static str = "ble_sensor_temperature_celsius";
pub const HUMIDITY: &'static str = "ble_sensor_humidity_percent";
pub const BATTERY: &'static str = "ble_sensor_battery_percent";
pub const VOLTAGE: &'static str = "ble_sensor_voltage_volts";
pub const RSSI: &'static str = "ble_sensor_rssi_dbm";
pub const LAST_UPDATE: &'static str = "ble_sensor_last_update_timestamp_seconds";
pub const SEEN: &'static str = "ble_sensor_seen";
pub const UPTIME: &'static str = "ble_harvester_uptime_seconds";
pub const FREE_HEAP: &'static str = "ble_harvester_free_heap_bytes";
pub const MIN_FREE_HEAP: &'static str = "ble_harvester_min_free_heap_bytes";
pub const WIFI_RSSI: &'static str = "ble_harvester_wifi_rssi_dbm";
pub const TIME_SYNCED: &'static str = "ble_harvester_time_synced";
pub const BUILD_INFO: &'static str = "ble_harvester_build_info";
pub const REBOOTS: &'static str = "ble_harvester_reboot_total";
pub const BEACONS: &'static str = "ble_harvester_beacons_total";
pub const UNKNOWN_ADVERTS: &'static str = "ble_harvester_unknown_adverts_total";
pub const UNKNOWN_OBJECTS: &'static str = "ble_harvester_parse_unknown_object_total";

/// A family with one sample line per device.
#[derive(Clone, Copy, Debug, PartialEq, Eq, Structural)]
pub enum DeviceFamily {
    Temperature,
    Humidity,
    Battery,
    Voltage,
    Rssi,
    LastUpdate,
    Seen,
    Beacons,
}

/// `# HELP` then `# TYPE`, each on its own line.
#[verifier::opaque]
pub open spec fn family_text(name: &str, help: &str, kind: &str) -> Seq<u8> {
    bytes_of("# HELP ") + bytes_of(name) + bytes_of(" ") + bytes_of(help) + bytes_of("\n")
        + bytes_of("# TYPE ") + bytes_of(name) + bytes_of(" ") + bytes_of(kind) + bytes_of("\n")
}

/// `name{device="<escaped>"} `.
pub open spec fn sample_prefix(name: &str, device: &str) -> Seq<u8> {
    bytes_of(name) + bytes_of("{device=\"") + label_body(bytes_of(device)) + bytes_of("\"} ")
}

/// Whole seconds since `seen` at `now`.
pub open spec fn age_secs(now: Millis, seen: Millis) -> int {
    sat_sub(now.0 as int, seen.0 as int) / 1000
}

/// One beacon-counter line.
pub open spec fn beacon_line(device: &str, result: &str, count: u32) -> Seq<u8> {
    bytes_of(BEACONS) + bytes_of("{device=\"") + label_body(bytes_of(device)) + bytes_of(
        "\",result=\"",
    ) + bytes_of(result) + bytes_of("\"} ") + dec(count as nat) + bytes_of("\n")
}

/// What one device contributes to a device family.
pub open spec fn device_line(
    family: DeviceFamily,
    now: Millis,
    unix_now: Option<u64>,
    dev: Device,
    st: DeviceModel,
) -> Seq<u8> {
    match family {
        DeviceFamily::Temperature => if st.online && st.readings.temperature_centi is Some {
            sample_prefix(TEMPERATURE, dev.name) + centi(
                st.readings.temperature_centi->Some_0 as int,
            ) + bytes_of("\n")
        } else {
            Seq::empty()
        },
        DeviceFamily::Humidity => if st.online && st.readings.humidity_centi is Some {
            sample_prefix(HUMIDITY, dev.name) + centi(st.readings.humidity_centi->Some_0 as int)
                + bytes_of("\n")
        } else {
            Seq::empty()
        },
        DeviceFamily::Battery => if st.online && st.readings.battery_percent is Some {
            sample_prefix(BATTERY, dev.name) + dec(st.readings.battery_percent->Some_0 as nat)
                + bytes_of("\n")
        } else {
            Seq::empty()
        },
        DeviceFamily::Voltage => if st.online && st.readings.voltage_milli is Some {
            sample_prefix(VOLTAGE, dev.name) + milli(st.readings.voltage_milli->Some_0 as int)
                + bytes_of("\n")
        } else {
            Seq::empty()
        },
        DeviceFamily::Rssi => if st.online && st.rssi_dbm is Some {
            sample_prefix(RSSI, dev.name) + signed_dec(st.rssi_dbm->Some_0 as int) + bytes_of("\n")
        } else {
            Seq::empty()
        },
        DeviceFamily::LastUpdate => if unix_now is Some && st.online && st.last_seen is Some
            && unix_now->Some_0 >= age_secs(now, st.last_seen->Some_0) {
            sample_prefix(LAST_UPDATE, dev.name) + dec(
                (unix_now->Some_0 - age_secs(now, st.last_seen->Some_0)) as nat,
            ) + bytes_of("\n")
        } else {
            Seq::empty()
        },
        DeviceFamily::Seen => sample_prefix(SEEN, dev.name) + flag_text(st.online) + bytes_of("\n"),
        DeviceFamily::Beacons => beacon_line(dev.name, "ok", st.counters.ok) + beacon_line(
            dev.name,
            "decrypt_fail",
            st.counters.decrypt_fail,
        ) + beacon_line(dev.name, "parse_fail", st.counters.parse_fail),
    }
}

/// Every configured device's lines of one family, in configuration order.
#[verifier::opaque]
pub open spec fn family_lines(
    m: RegistryModel,
    family: DeviceFamily,
    now: Millis,
    unix_now: Option<u64>,
) -> Seq<u8> {
    per_device(
        m,
        m.devices.len() as int,
        |i: int, dev: Device, st: DeviceModel| device_line(family, now, unix_now, dev, st),
    )
}

/// A family with a single unlabelled sample.
#[verifier::opaque]
pub open spec fn single_gauge(name: &str, help: &str, kind: &str, value: Seq<u8>) -> Seq<u8> {
    family_text(name, help, kind) + bytes_of(name) + bytes_of(" ") + value + bytes_of("\n")
}

/// One reboot-counter line.
pub open spec fn reboot_line(reason: &str, count: u32) -> Seq<u8> {
    bytes_of(REBOOTS) + bytes_of("{reason=\"") + bytes_of(reason) + bytes_of("\"} ") + dec(
        count as nat,
    ) + bytes_of("\n")
}

/// All seven reboot-counter lines, zeros included.
pub open spec fn reboot_lines(r: RebootCounts) -> Seq<u8> {
    reboot_line("panic", r.panic) + reboot_line("wifi", r.wifi) + reboot_line(
        "ble_wedge",
        r.ble_wedge,
    ) + reboot_line("ota", r.ota) + reboot_line("power", r.power) + reboot_line("wdt", r.wdt)
        + reboot_line("unknown", r.unknown)
}

/// A device family: its metadata, then every device's lines.
pub open spec fn device_family(
    m: RegistryModel,
    f: DeviceFamily,
    now: Millis,
    unix_now: Option<u64>,
) -> Seq<u8> {
    family_header(f) + family_lines(m, f, now, unix_now)
}

/// The metadata of a device family.
pub open spec fn family_header(f: DeviceFamily) -> Seq<u8> {
    match f {
        DeviceFamily::Temperature => family_text(
            TEMPERATURE,
            "Sensor temperature in degrees Celsius.",
            "gauge",
        ),
        DeviceFamily::Humidity => family_text(HUMIDITY, "Sensor relative humidity in percent.", "gauge"),
        DeviceFamily::Battery => family_text(
            BATTERY,
            "Sensor-reported battery level in percent.",
            "gauge",
        ),
        DeviceFamily::Voltage => family_text(VOLTAGE, "Sensor battery voltage in volts.", "gauge"),
        DeviceFamily::Rssi => family_text(
            RSSI,
            "Signal strength of the sensor's last beacon in dBm.",
            "gauge",
        ),
        DeviceFamily::LastUpdate => family_text(
            LAST_UPDATE,
            "Unix timestamp of the sensor's last successful reading.",
            "gauge",
        ),
        DeviceFamily::Seen => family_text(
            SEEN,
            "Whether the sensor is currently online (1) or timed out (0).",
            "gauge",
        ),
        DeviceFamily::Beacons => family_text(BEACONS, "Beacons received per device by outcome.", "counter"),
    }
}

/// The per-device gauge families, one pass each, in their fixed order.
#[verifier::opaque]
pub open spec fn sensor_families(m: RegistryModel, now: Millis, unix_now: Option<u64>) -> Seq<u8> {
    device_family(m, DeviceFamily::Temperature, now, unix_now) + device_family(
        m,
        DeviceFamily::Humidity,
        now,
        unix_now,
    ) + device_family(m, DeviceFamily::Battery, now, unix_now) + device_family(
        m,
        DeviceFamily::Voltage,
        now,
        unix_now,
    ) + device_family(m, DeviceFamily::Rssi, now, unix_now) + device_family(
        m,
        DeviceFamily::LastUpdate,
        now,
        unix_now,
    ) + device_family(m, DeviceFamily::Seen, now, unix_now)
}

/// The heap, uptime and Wi-Fi gauges.
pub open spec fn resource_gauges(h: Health) -> Seq<u8> {
    single_gauge(UPTIME, "Seconds since the harvester booted.", "gauge", dec(h.uptime_seconds as nat))
        + single_gauge(FREE_HEAP, "Current free heap in bytes.", "gauge", dec(h.free_heap_bytes as nat))
        + single_gauge(
        MIN_FREE_HEAP,
        "Lowest free heap since boot in bytes.",
        "gauge",
        dec(h.min_free_heap_bytes as nat),
    ) + family_text(WIFI_RSSI, "Wi-Fi access point signal strength in dBm.", "gauge") + (
    match h.wifi_rssi_dbm {
        Some(r) => bytes_of(WIFI_RSSI) + bytes_of(" ") + signed_dec(r as int) + bytes_of("\n"),
        None => Seq::empty(),
    })
}

/// The time-sync flag and the build identity.
pub open spec fn identity_gauges(h: Health, unix_now: Option<u64>) -> Seq<u8> {
    single_gauge(
        TIME_SYNCED,
        "Whether SNTP has synced wall-clock time (1) or not (0).",
        "gauge",
        flag_text(unix_now is Some),
    ) + family_text(BUILD_INFO, "Build identity; the value is always 1.", "gauge") + bytes_of(BUILD_INFO)
        + bytes_of("{version=\"") + label_body(bytes_of(h.version)) + bytes_of("\",git_sha=\"") + label_body(bytes_of(h.git_sha))
        + bytes_of("\"} 1") + bytes_of("\n")
}

/// The reboot counter family.
pub open spec fn reboot_family(h: Health) -> Seq<u8> {
    family_text(REBOOTS, "Reboots by reason, persisted across restarts.", "counter") + reboot_lines(
        h.reboots,
    )
}

/// The harvester-health families.
#[verifier::opaque]
pub open spec fn health_families(h: Health, unix_now: Option<u64>) -> Seq<u8> {
    resource_gauges(h) + identity_gauges(h, unix_now) + reboot_family(h)
}

/// The counter families of the registry.
#[verifier::opaque]
pub open spec fn counter_families(m: RegistryModel, now: Millis, unix_now: Option<u64>) -> Seq<u8> {
    device_family(m, DeviceFamily::Beacons, now, unix_now) + single_gauge(
        UNKNOWN_ADVERTS,
        "Adverts received from MACs not in the device list.",
        "counter",
        dec(m.unknown_adverts as nat),
    ) + single_gauge(
        UNKNOWN_OBJECTS,
        "Beacons whose object walk stopped at an unrecognised object id.",
        "counter",
        dec(m.parse_unknown_object as nat),
    )
}

/// The full `/metrics` body.
pub open spec fn metrics_body(
    m: RegistryModel,
    h: Health,
    now: Millis,
    unix_now: Option<u64>,
) -> Seq<u8> {
    sensor_families(m, now, unix_now) + health_families(h, unix_now) + counter_families(
        m,
        now,
        unix_now,
    )
}

/// One family's metadata: HELP then TYPE, exactly once, before any sample.
pub fn family(w: &mut Vec<u8>, name: &str, help: &str, kind: &str)
    ensures
        final(w)@ == old(w)@ + family_text(name, help, kind),
{
    push_str(w, "# HELP ");
    push_str(w, name);
    push_str(w, " ");
    push_str(w, help);
    push_str(w, "\n");
    push_str(w, "# TYPE ");
    push_str(w, name);
    push_str(w, " ");
    push_str(w, kind);
    push_str(w, "\n");
    reveal(family_text);
    assert(w@ =~= old(w)@ + family_text(name, help, kind));
}

/// `name{device="<escaped>"} `: the prefix of a per-device sample.
pub fn device_sample(w: &mut Vec<u8>, name: &str, device: &str)
    ensures
        final(w)@ == old(w)@ + sample_prefix(name, device),
{
    push_str(w, name);
    push_str(w, "{device=\"");
    write_escaped(w, device);
    push_str(w, "\"} ");
    assert(w@ =~= old(w)@ + sample_prefix(name, device));
}

fn write_beacon_line(w: &mut Vec<u8>, device: &str, result: &str, count: u32)
    ensures
        final(w)@ == old(w)@ + beacon_line(device, result, count),
{
    push_str(w, BEACONS);
    push_str(w, "{device=\"");
    write_escaped(w, device);
    push_str(w, "\",result=\"");
    push_str(w, result);
    push_str(w, "\"} ");
    push_u64(w, count as u64);
    push_str(w, "\n");
    assert(w@ =~= old(w)@ + beacon_line(device, result, count));
}

/// One device's lines of one family.
pub fn write_device_line(
    w: &mut Vec<u8>,
    family: DeviceFamily,
    now: Millis,
    unix_now: Option<u64>,
    v: &DeviceView,
    Ghost(st): Ghost<DeviceModel>,
)
    requires
        v.readings == st.readings,
        v.rssi_dbm == st.rssi_dbm,
        v.online == st.online,
        v.last_seen == st.last_seen,
        v.counters == st.counters,
    ensures
        final(w)@ == old(w)@ + device_line(family, now, unix_now, *v.device, st),
{
    let name = v.device.name;
    match family {
        DeviceFamily::Temperature => {
            if v.online {
                if let Some(t) = v.readings.temperature_centi {
                    device_sample(w, TEMPERATURE, name);
                    write_centi(w, t as i32);
                    push_str(w, "\n");
                }
            }
        },
        DeviceFamily::Humidity => {
            if v.online {
                if let Some(h) = v.readings.humidity_centi {
                    device_sample(w, HUMIDITY, name);
                    write_centi(w, h as i32);
                    push_str(w, "\n");
                }
            }
        },
        DeviceFamily::Battery => {
            if v.online {
                if let Some(b) = v.readings.battery_percent {
                    device_sample(w, BATTERY, name);
                    push_u64(w, b as u64);
                    push_str(w, "\n");
                }
            }
        },
        DeviceFamily::Voltage => {
            if v.online {
                if let Some(mv) = v.readings.voltage_milli {
                    device_sample(w, VOLTAGE, name);
                    write_milli(w, mv as i32);
                    push_str(w, "\n");
                }
            }
        },
        DeviceFamily::Rssi => {
            if v.online {
                if let Some(r) = v.rssi_dbm {
                    device_sample(w, RSSI, name);
                    push_i64(w, r as i64);
                    push_str(w, "\n");
                }
            }
        },
        DeviceFamily::LastUpdate => {
            if let Some(unix) = unix_now {
                if v.online {
                    if let Some(seen) = v.last_seen {
                        let age = now.since(seen).as_secs();
                        if let Some(ts) = unix.checked_sub(age) {
                            device_sample(w, LAST_UPDATE, name);
                            push_u64(w, ts);
                            push_str(w, "\n");
                        }
                    }
                }
            }
        },
        DeviceFamily::Seen => {
            device_sample(w, SEEN, name);
            write_flag(w, v.online);
            push_str(w, "\n");
        },
        DeviceFamily::Beacons => {
            write_beacon_line(w, name, "ok", v.counters.ok);
            write_beacon_line(w, name, "decrypt_fail", v.counters.decrypt_fail);
            write_beacon_line(w, name, "parse_fail", v.counters.parse_fail);
        },
    }
    assert(w@ =~= old(w)@ + device_line(family, now, unix_now, *v.device, st));
}

/// Every configured device's lines of one family, in configuration order.
pub fn write_device_family(
    w: &mut Vec<u8>,
    registry: &Registry,
    family: DeviceFamily,
    now: Millis,
    unix_now: Option<u64>,
)
    ensures
        final(w)@ == old(w)@ + family_lines(registry.model(), family, now, unix_now),
{
    let ghost m = registry.model();
    let ghost f = |i: int, dev: Device, st: DeviceModel| device_line(family, now, unix_now, dev, st);
    let ghost start = w@;
    let n = registry.len();
    let mut idx: usize = 0;
    while idx < n
        invariant
            idx <= n,
            n == m.devices.len(),
            m == registry.model(),
            f == (|i: int, dev: Device, st: DeviceModel| device_line(family, now, unix_now, dev, st)),
            w@ == start + per_device(m, idx as int, f),
        decreases n - idx,
    {
        let v = registry.view(idx);
        if let Some(v) = v {
            let ghost before = w@;
            write_device_line(w, family, now, unix_now, &v, Ghost(m.states[idx as int]));
            assert(per_device(m, idx + 1, f) == per_device(m, idx as int, f) + f(
                idx as int,
                m.devices[idx as int],
                m.states[idx as int],
            ));
            assert(w@ =~= start + per_device(m, idx + 1, f));
        }
        idx = idx + 1;
    }
    reveal(family_lines);
}

fn single(w: &mut Vec<u8>, name: &str, help: &str, kind: &str, value: u64)
    ensures
        final(w)@ == old(w)@ + single_gauge(name, help, kind, dec(value as nat)),
{
    family(w, name, help, kind);
    push_str(w, name);
    push_str(w, " ");
    push_u64(w, value);
    push_str(w, "\n");
    reveal(single_gauge);
    assert(w@ =~= old(w)@ + single_gauge(name, help, kind, dec(value as nat)));
}

fn reboot_line_w(w: &mut Vec<u8>, reason: &str, count: u32)
    ensures
        final(w)@ == old(w)@ + reboot_line(reason, count),
{
    push_str(w, REBOOTS);
    push_str(w, "{reason=\"");
    push_str(w, reason);
    push_str(w, "\"} ");
    push_u64(w, count as u64);
    push_str(w, "\n");
    assert(w@ =~= old(w)@ + reboot_line(reason, count));
}

/// One device family: its metadata, then every device's lines.
pub fn write_family_block(
    w: &mut Vec<u8>,
    registry: &Registry,
    f: DeviceFamily,
    now: Millis,
    unix_now: Option<u64>,
)
    ensures
        final(w)@ == old(w)@ + device_family(registry.model(), f, now, unix_now),
{
    match f {
        DeviceFamily::Temperature => family(w, TEMPERATURE, "Sensor temperature in degrees Celsius.", "gauge"),
        DeviceFamily::Humidity => family(w, HUMIDITY, "Sensor relative humidity in percent.", "gauge"),
        DeviceFamily::Battery => family(w, BATTERY, "Sensor-reported battery level in percent.", "gauge"),
        DeviceFamily::Voltage => family(w, VOLTAGE, "Sensor battery voltage in volts.", "gauge"),
        DeviceFamily::Rssi => family(w, RSSI, "Signal strength of the sensor's last beacon in dBm.", "gauge"),
        DeviceFamily::LastUpdate => family(
            w,
            LAST_UPDATE,
            "Unix timestamp of the sensor's last successful reading.",
            "gauge",
        ),
        DeviceFamily::Seen => family(
            w,
            SEEN,
            "Whether the sensor is currently online (1) or timed out (0).",
            "gauge",
        ),
        DeviceFamily::Beacons => family(w, BEACONS, "Beacons received per device by outcome.", "counter"),
    }
    write_device_family(w, registry, f, now, unix_now);
    assert(w@ =~= old(w)@ + device_family(registry.model(), f, now, unix_now));
}

fn write_sensor_families(w: &mut Vec<u8>, registry: &Registry, now: Millis, unix_now: Option<u64>)
    ensures
        final(w)@ == old(w)@ + sensor_families(registry.model(), now, unix_now),
{
    let ghost m = registry.model();
    let ghost s0 = w@;
    write_family_block(w, registry, DeviceFamily::Temperature, now, unix_now);
    let ghost s1 = w@;
    write_family_block(w, registry, DeviceFamily::Humidity, now, unix_now);
    let ghost s2 = w@;
    write_family_block(w, registry, DeviceFamily::Battery, now, unix_now);
    let ghost s3 = w@;
    write_family_block(w, registry, DeviceFamily::Voltage, now, unix_now);
    let ghost s4 = w@;
    write_family_block(w, registry, DeviceFamily::Rssi, now, unix_now);
    let ghost s5 = w@;
    write_family_block(w, registry, DeviceFamily::LastUpdate, now, unix_now);
    let ghost s6 = w@;
    write_family_block(w, registry, DeviceFamily::Seen, now, unix_now);
    reveal(sensor_families);
    assert(w@ =~= s0 + sensor_families(m, now, unix_now));
}

fn write_resource_gauges(w: &mut Vec<u8>, health: &Health)
    ensures
        final(w)@ == old(w)@ + resource_gauges(*health),
{
    single(w, UPTIME, "Seconds since the harvester booted.", "gauge", health.uptime_seconds);
    single(w, FREE_HEAP, "Current free heap in bytes.", "gauge", health.free_heap_bytes as u64);
    single(
        w,
        MIN_FREE_HEAP,
        "Lowest free heap since boot in bytes.",
        "gauge",
        health.min_free_heap_bytes as u64,
    );
    family(w, WIFI_RSSI, "Wi-Fi access point signal strength in dBm.", "gauge");
    if let Some(rssi) = health.wifi_rssi_dbm {
        push_str(w, WIFI_RSSI);
        push_str(w, " ");
        push_i64(w, rssi as i64);
        push_str(w, "\n");
    }
    assert(w@ =~= old(w)@ + resource_gauges(*health));
}

fn write_identity_gauges(w: &mut Vec<u8>, health: &Health, unix_now: Option<u64>)
    ensures
        final(w)@ == old(w)@ + identity_gauges(*health, unix_now),
{
    family(w, TIME_SYNCED, "Whether SNTP has synced wall-clock time (1) or not (0).", "gauge");
    push_str(w, TIME_SYNCED);
    push_str(w, " ");
    write_flag(w, unix_now.is_some());
    push_str(w, "\n");
    family(w, BUILD_INFO, "Build identity; the value is always 1.", "gauge");
    push_str(w, BUILD_INFO);
    push_str(w, "{version=\"");
    write_escaped(w, health.version);
    push_str(w, "\",git_sha=\"");
    write_escaped(w, health.git_sha);
    push_str(w, "\"} 1");
    push_str(w, "\n");
    reveal(single_gauge);
    assert(w@ =~= old(w)@ + identity_gauges(*health, unix_now));
}

fn write_reboot_family(w: &mut Vec<u8>, health: &Health)
    ensures
        final(w)@ == old(w)@ + reboot_family(*health),
{
    family(w, REBOOTS, "Reboots by reason, persisted across restarts.", "counter");
    reboot_line_w(w, "panic", health.reboots.panic);
    reboot_line_w(w, "wifi", health.reboots.wifi);
    reboot_line_w(w, "ble_wedge", health.reboots.ble_wedge);
    reboot_line_w(w, "ota", health.reboots.ota);
    reboot_line_w(w, "power", health.reboots.power);
    reboot_line_w(w, "wdt", health.reboots.wdt);
    reboot_line_w(w, "unknown", health.reboots.unknown);
    assert(w@ =~= old(w)@ + reboot_family(*health));
}

fn write_health_families(w: &mut Vec<u8>, health: &Health, unix_now: Option<u64>)
    ensures
        final(w)@ == old(w)@ + health_families(*health, unix_now),
{
    write_resource_gauges(w, health);
    write_identity_gauges(w, health, unix_now);
    write_reboot_family(w, health);
    reveal(health_families);
    assert(w@ =~= old(w)@ + health_families(*health, unix_now));
}

fn write_counter_families(w: &mut Vec<u8>, registry: &Registry, now: Millis, unix_now: Option<u64>)
    ensures
        final(w)@ == old(w)@ + counter_families(registry.model(), now, unix_now),
{
    write_family_block(w, registry, DeviceFamily::Beacons, now, unix_now);
    single(
        w,
        UNKNOWN_ADVERTS,
        "Adverts received from MACs not in the device list.",
        "counter",
        registry.unknown_adverts_total(),
    );
    single(
        w,
        UNKNOWN_OBJECTS,
        "Beacons whose object walk stopped at an unrecognised object id.",
        "counter",
        registry.parse_unknown_object_total() as u64,
    );
    reveal(counter_families);
    assert(w@ =~= old(w)@ + counter_families(registry.model(), now, unix_now));
}

/// Appends the full `/metrics` body. `now` is the monotonic instant at
/// render, `unix_now` the wall clock once synced: the last-update timestamp
/// of a device is `unix_now` minus its monotonic age, and is omitted until
/// the clock is synced.
pub fn render_metrics(
    w: &mut Vec<u8>,
    registry: &Registry,
    health: &Health,
    now: Millis,
    unix_now: Option<u64>,
)
    ensures
        final(w)@ == old(w)@ + metrics_body(registry.model(), *health, now, unix_now),
{
    write_sensor_families(w, registry, now, unix_now);
    write_health_families(w, health, unix_now);
    write_counter_families(w, registry, now, unix_now);
    assert(w@ =~= old(w)@ + metrics_body(registry.model(), *health, now, unix_now));
}

} // verus!
