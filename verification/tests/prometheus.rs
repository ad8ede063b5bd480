use harvester_core::parse::{Parsed, Readings};
use harvester_core::registry::BeaconFailure;
use harvester_core::render::prometheus::render_metrics;
use harvester_core::render::{Health, RebootCounts};
use harvester_core::{Device, Millis, Registry, Tunables};

const TUNABLES: Tunables = Tunables {
    device_timeout: Millis(90_000),
    wedge_window: Millis(600_000),
    spark_sample_interval: Millis(300_000),
};

/// The two disjoint frame shapes a sensor alternates between.
fn temp_hum_batt() -> Result<Parsed, BeaconFailure> {
    Ok(Parsed {
        readings: Readings {
            temperature_centi: Some(2365),
            humidity_centi: Some(3815),
            battery_percent: Some(48),
            voltage_milli: None,
        },
        unknown_object: None,
    })
}

fn voltage_only() -> Result<Parsed, BeaconFailure> {
    Ok(Parsed {
        readings: Readings {
            temperature_centi: None,
            humidity_centi: None,
            battery_percent: None,
            voltage_milli: Some(2587),
        },
        unknown_object: None,
    })
}

fn health() -> Health {
    Health {
        uptime_seconds: 3600,
        free_heap_bytes: 150_000,
        min_free_heap_bytes: 120_000,
        wifi_rssi_dbm: Some(-55),
        version: "1.0.0",
        git_sha: "abc1234",
        reboots: RebootCounts {
            power: 1,
            ..RebootCounts::default()
        },
        last_reboot_reason: "power",
    }
}

fn render_to_string(
    registry: &Registry,
    health: &Health,
    now: Millis,
    unix_now: Option<u64>,
) -> String {
    let mut out = Vec::new();
    render_metrics(&mut out, registry, health, now, unix_now);
    String::from_utf8(out).unwrap()
}

fn three() -> &'static [Device] {
    Box::leak(Box::new([
        Device::plain([0xA4, 0xC1, 0x38, 0x00, 0x00, 0x01], "kitchen"),
        Device::plain([0xA4, 0xC1, 0x38, 0x00, 0x00, 0x02], "freezer"),
        Device::plain([0xA4, 0xC1, 0x38, 0x00, 0x00, 0x03], "attic"),
    ]))
}

/// kitchen online with all four readings + rssi; freezer seen then swept
/// past timeout (the gap); attic never seen at all.
fn golden_registry() -> Registry {
    let mut r = Registry::new(three(), TUNABLES);
    // freezer: one good beacon, one parse failure, then expiry.
    r.record_beacon(1, Millis(1_000), -80, temp_hum_batt());
    r.record_beacon(1, Millis(2_000), -80, Err(BeaconFailure::Parse));
    r.sweep(Millis(91_000)); // 90 s after freezer's last sighting: expired
    // kitchen: both frame shapes, well after the sweep.
    r.record_beacon(0, Millis(100_000), -60, temp_hum_batt());
    r.record_beacon(0, Millis(102_000), -61, voltage_only());
    for _ in 0..7 {
        r.record_unknown_advert();
    }
    r
}

/// The gap test: assert the ENTIRE exposition byte-for-byte. freezer
/// and attic appear in NO gauge family, both read 0 in ble_sensor_seen, and
/// freezer's counters survive expiry with their counts intact.
#[test]
fn golden_full_exposition() {
    let r = golden_registry();
    // kitchen last_seen = 102 s, render at 120 s → 18 s old;
    // 1_700_000_000 − 18 = 1_699_999_982.
    let out = render_to_string(&r, &health(), Millis(120_000), Some(1_700_000_000));
    let expected = "\
# HELP ble_sensor_temperature_celsius Sensor temperature in degrees Celsius.
# TYPE ble_sensor_temperature_celsius gauge
ble_sensor_temperature_celsius{device=\"kitchen\"} 23.65
# HELP ble_sensor_humidity_percent Sensor relative humidity in percent.
# TYPE ble_sensor_humidity_percent gauge
ble_sensor_humidity_percent{device=\"kitchen\"} 38.15
# HELP ble_sensor_battery_percent Sensor-reported battery level in percent.
# TYPE ble_sensor_battery_percent gauge
ble_sensor_battery_percent{device=\"kitchen\"} 48
# HELP ble_sensor_voltage_volts Sensor battery voltage in volts.
# TYPE ble_sensor_voltage_volts gauge
ble_sensor_voltage_volts{device=\"kitchen\"} 2.587
# HELP ble_sensor_rssi_dbm Signal strength of the sensor's last beacon in dBm.
# TYPE ble_sensor_rssi_dbm gauge
ble_sensor_rssi_dbm{device=\"kitchen\"} -61
# HELP ble_sensor_last_update_timestamp_seconds Unix timestamp of the sensor's last successful reading.
# TYPE ble_sensor_last_update_timestamp_seconds gauge
ble_sensor_last_update_timestamp_seconds{device=\"kitchen\"} 1699999982
# HELP ble_sensor_seen Whether the sensor is currently online (1) or timed out (0).
# TYPE ble_sensor_seen gauge
ble_sensor_seen{device=\"kitchen\"} 1
ble_sensor_seen{device=\"freezer\"} 0
ble_sensor_seen{device=\"attic\"} 0
# HELP ble_harvester_uptime_seconds Seconds since the harvester booted.
# TYPE ble_harvester_uptime_seconds gauge
ble_harvester_uptime_seconds 3600
# HELP ble_harvester_free_heap_bytes Current free heap in bytes.
# TYPE ble_harvester_free_heap_bytes gauge
ble_harvester_free_heap_bytes 150000
# HELP ble_harvester_min_free_heap_bytes Lowest free heap since boot in bytes.
# TYPE ble_harvester_min_free_heap_bytes gauge
ble_harvester_min_free_heap_bytes 120000
# HELP ble_harvester_wifi_rssi_dbm Wi-Fi access point signal strength in dBm.
# TYPE ble_harvester_wifi_rssi_dbm gauge
ble_harvester_wifi_rssi_dbm -55
# HELP ble_harvester_time_synced Whether SNTP has synced wall-clock time (1) or not (0).
# TYPE ble_harvester_time_synced gauge
ble_harvester_time_synced 1
# HELP ble_harvester_build_info Build identity; the value is always 1.
# TYPE ble_harvester_build_info gauge
ble_harvester_build_info{version=\"1.0.0\",git_sha=\"abc1234\"} 1
# HELP ble_harvester_reboot_total Reboots by reason, persisted across restarts.
# TYPE ble_harvester_reboot_total counter
ble_harvester_reboot_total{reason=\"panic\"} 0
ble_harvester_reboot_total{reason=\"wifi\"} 0
ble_harvester_reboot_total{reason=\"ble_wedge\"} 0
ble_harvester_reboot_total{reason=\"ota\"} 0
ble_harvester_reboot_total{reason=\"power\"} 1
ble_harvester_reboot_total{reason=\"wdt\"} 0
ble_harvester_reboot_total{reason=\"unknown\"} 0
# HELP ble_harvester_beacons_total Beacons received per device by outcome.
# TYPE ble_harvester_beacons_total counter
ble_harvester_beacons_total{device=\"kitchen\",result=\"ok\"} 2
ble_harvester_beacons_total{device=\"kitchen\",result=\"decrypt_fail\"} 0
ble_harvester_beacons_total{device=\"kitchen\",result=\"parse_fail\"} 0
ble_harvester_beacons_total{device=\"freezer\",result=\"ok\"} 1
ble_harvester_beacons_total{device=\"freezer\",result=\"decrypt_fail\"} 0
ble_harvester_beacons_total{device=\"freezer\",result=\"parse_fail\"} 1
ble_harvester_beacons_total{device=\"attic\",result=\"ok\"} 0
ble_harvester_beacons_total{device=\"attic\",result=\"decrypt_fail\"} 0
ble_harvester_beacons_total{device=\"attic\",result=\"parse_fail\"} 0
# HELP ble_harvester_unknown_adverts_total Adverts received from MACs not in the device list.
# TYPE ble_harvester_unknown_adverts_total counter
ble_harvester_unknown_adverts_total 7
# HELP ble_harvester_parse_unknown_object_total Beacons whose object walk stopped at an unrecognised object id.
# TYPE ble_harvester_parse_unknown_object_total counter
ble_harvester_parse_unknown_object_total 0
";
    assert_eq!(out, expected);
}

/// The family order documented in the implementation, used by the
/// structural test to pin ordering (byte-stable goldens depend on it).
const FAMILY_ORDER: [&str; 17] = [
    "ble_sensor_temperature_celsius",
    "ble_sensor_humidity_percent",
    "ble_sensor_battery_percent",
    "ble_sensor_voltage_volts",
    "ble_sensor_rssi_dbm",
    "ble_sensor_last_update_timestamp_seconds",
    "ble_sensor_seen",
    "ble_harvester_uptime_seconds",
    "ble_harvester_free_heap_bytes",
    "ble_harvester_min_free_heap_bytes",
    "ble_harvester_wifi_rssi_dbm",
    "ble_harvester_time_synced",
    "ble_harvester_build_info",
    "ble_harvester_reboot_total",
    "ble_harvester_beacons_total",
    "ble_harvester_unknown_adverts_total",
    "ble_harvester_parse_unknown_object_total",
];

/// Metric-major invariants: TYPE exactly once per family, every
/// sample under the family it belongs to, families in the documented order.
#[test]
fn exposition_is_strictly_metric_major() {
    let r = golden_registry();
    let out = render_to_string(&r, &health(), Millis(120_000), Some(1_700_000_000));

    let mut families: Vec<&str> = Vec::new();
    let mut current: Option<&str> = None;
    for line in out.lines() {
        if let Some(rest) = line.strip_prefix("# TYPE ") {
            let name = rest.split(' ').next().unwrap_or("");
            assert!(
                !families.contains(&name),
                "second TYPE line for {name} — fails the whole scrape"
            );
            families.push(name);
            current = Some(name);
        } else if let Some(rest) = line.strip_prefix("# HELP ") {
            let name = rest.split(' ').next().unwrap_or("");
            assert!(
                !families.contains(&name),
                "HELP for {name} after its TYPE — metadata must lead"
            );
        } else if !line.is_empty() {
            let name = line.split(['{', ' ']).next().unwrap_or("");
            assert_eq!(
                Some(name),
                current,
                "sample {line:?} interleaved outside its family"
            );
        }
    }
    assert_eq!(families, FAMILY_ORDER);
}

/// Until SNTP syncs, last_update emits HELP/TYPE with zero samples
/// and time_synced reads 0. Everything else is unaffected.
#[test]
fn unsynced_clock_omits_timestamps_and_reports_time_synced_zero() {
    let r = golden_registry();
    let out = render_to_string(&r, &health(), Millis(120_000), None);
    assert!(out.contains(
        "# TYPE ble_sensor_last_update_timestamp_seconds gauge\n# HELP ble_sensor_seen"
    ));
    assert!(out.contains("\nble_harvester_time_synced 0\n"));
    // The device is still online — its other gauges are untouched.
    assert!(out.contains("ble_sensor_temperature_celsius{device=\"kitchen\"} 23.65\n"));
}

/// Derived at render time: last_update = unix_now − (now − last_seen).
#[test]
fn last_update_is_derived_from_monotonic_age_at_render_time() {
    let one: &'static [Device] =
        Box::leak(Box::new([Device::plain([0xA4, 0xC1, 0x38, 0x00, 0x00, 0x09], "porch")]));
    let mut r = Registry::new(one, TUNABLES);
    r.record_beacon(0, Millis(5_000), -60, temp_hum_batt());
    let out = render_to_string(&r, &health(), Millis(65_000), Some(1_787_832_000));
    assert!(
        out.contains("ble_sensor_last_update_timestamp_seconds{device=\"porch\"} 1787831940\n")
    );
}

/// wifi_rssi gaps like any other gauge — HELP/TYPE, zero samples.
#[test]
fn wifi_rssi_none_emits_family_with_zero_samples() {
    let r = golden_registry();
    let mut h = health();
    h.wifi_rssi_dbm = None;
    let out = render_to_string(&r, &h, Millis(120_000), Some(1_700_000_000));
    assert!(out.contains(
        "# TYPE ble_harvester_wifi_rssi_dbm gauge\n# HELP ble_harvester_time_synced"
    ));
    assert!(!out.contains("\nble_harvester_wifi_rssi_dbm -"));
}

/// Exposition-format label escaping: backslash, double-quote, newline.
#[test]
fn label_values_are_escaped() {
    let weird: &'static [Device] = Box::leak(Box::new([Device::plain(
        [0xA4, 0xC1, 0x38, 0x00, 0x00, 0x0A],
        r#"we"ird\name"#,
    )]));
    let r = Registry::new(weird, TUNABLES);
    let out = render_to_string(&r, &health(), Millis(1_000), None);
    assert!(out.contains(r#"ble_sensor_seen{device="we\"ird\\name"} 0"#));
}

#[test]
fn an_offline_device_is_named_by_no_gauge_line() {
    let devs: &'static [Device] = Box::leak(Box::new([
        Device::plain([0, 0, 0, 0, 0, 1], "a\"} 1\nx"),
        Device::plain([0, 0, 0, 0, 0, 2], "a"),
    ]));
    let mut r = Registry::new(devs, TUNABLES);
    r.record_beacon(0, Millis(1_000), -60, temp_hum_batt());
    let out = render_to_string(&r, &health(), Millis(2_000), Some(1_700_000_000));
    let gauges = [
        "ble_sensor_temperature_celsius",
        "ble_sensor_humidity_percent",
        "ble_sensor_battery_percent",
        "ble_sensor_voltage_volts",
        "ble_sensor_rssi_dbm",
        "ble_sensor_last_update_timestamp_seconds",
    ];
    for line in out.lines() {
        if gauges.iter().any(|g| line.starts_with(g)) {
            assert!(!line.contains("device=\"a\""), "offline device named in {line:?}");
        }
        if !line.starts_with('#') {
            assert!(line.starts_with("ble_"), "every sample line names its family: {line:?}");
        }
    }
    assert!(out.contains("ble_sensor_seen{device=\"a\"} 0\n"));
    assert!(out.contains("ble_sensor_temperature_celsius{device=\"a\\\"} 1\\nx\"} 23.65\n"));
}
