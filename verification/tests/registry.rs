use harvester_core::parse::{Parsed, Readings};
use harvester_core::registry::{BeaconFailure, DeviceView};
use harvester_core::{Device, Millis, Registry, Tunables};

fn devices() -> &'static [Device] {
    Box::leak(Box::new([
        Device::plain([0xAA, 0xBB, 0xCC, 0x00, 0x00, 0x01], "baby_room"),
        Device::plain([0xAA, 0xBB, 0xCC, 0x00, 0x00, 0x02], "freezer"),
    ]))
}

const TUNABLES: Tunables = Tunables {
    device_timeout: Millis(90_000),
    wedge_window: Millis(600_000),
    spark_sample_interval: Millis(300_000),
};

fn registry() -> Registry {
    Registry::new(devices(), TUNABLES)
}

fn view(r: &Registry, idx: usize) -> DeviceView<'_> {
    match r.view(idx) {
        Some(v) => v,
        None => unreachable!("configured device index must have a view"),
    }
}

/// The two disjoint frame shapes a sensor alternates between.
fn temp_hum_batt() -> Result<Parsed, BeaconFailure> {
    Ok(Parsed {
        readings: Readings {
            temperature_centi: Some(2365),
            humidity_centi: Some(3815),
            battery_percent: Some(48),
            voltage_milli: None,
        },
        unknown_object: None,
    })
}

fn voltage_only() -> Result<Parsed, BeaconFailure> {
    Ok(Parsed {
        readings: Readings {
            temperature_centi: None,
            humidity_centi: None,
            battery_percent: None,
            voltage_milli: Some(2587),
        },
        unknown_object: None,
    })
}

fn unknown_object(id: u8) -> Result<Parsed, BeaconFailure> {
    Ok(Parsed {
        readings: Readings::default(),
        unknown_object: Some(id),
    })
}

#[test]
fn two_shape_merge_voltage_does_not_erase_temperature() {
    let mut r = registry();
    r.record_beacon(0, Millis(1_000), -60, temp_hum_batt());
    r.record_beacon(0, Millis(3_000), -61, voltage_only());
    let v = view(&r, 0);
    assert_eq!(v.readings.temperature_centi, Some(2365));
    assert_eq!(v.readings.humidity_centi, Some(3815));
    assert_eq!(v.readings.battery_percent, Some(48));
    assert_eq!(v.readings.voltage_milli, Some(2587));
    assert_eq!(v.rssi_dbm, Some(-61));
    assert_eq!(v.last_seen, Some(Millis(3_000)));
    assert!(v.online);
    assert_eq!(v.counters.ok, 2);
}

#[test]
fn expiry_gaps_gauges_but_never_counters() {
    let mut r = registry();
    r.record_beacon(0, Millis(1_000), -60, temp_hum_batt());
    r.sweep(Millis(91_000)); // exactly device_timeout later
    let v = view(&r, 0);
    assert_eq!(v.readings, Readings::default());
    assert_eq!(v.rssi_dbm, None);
    assert_eq!(v.last_seen, None);
    assert!(!v.online);
    // Counters never gap, and the bpm ring still holds the beacon.
    assert_eq!(v.counters.ok, 1);
    assert_eq!(v.beacons_per_minute, 1);
    // Expiry must not blind the wedge detector.
    assert_eq!(r.newest_last_seen(), Some(Millis(1_000)));
}

#[test]
fn expiry_boundary_is_at_exactly_device_timeout() {
    let mut r = registry();
    r.record_beacon(0, Millis(1_000), -60, temp_hum_batt());
    r.sweep(Millis(90_999)); // 89.999 s elapsed: still online
    assert!(view(&r, 0).online);
    r.sweep(Millis(91_000)); // 90 s exactly: offline
    assert!(!view(&r, 0).online);
}

#[test]
fn expired_device_comes_back_online_on_next_beacon() {
    let mut r = registry();
    r.record_beacon(0, Millis(1_000), -60, temp_hum_batt());
    r.sweep(Millis(91_000));
    assert!(!view(&r, 0).online);
    r.record_beacon(0, Millis(95_000), -55, voltage_only());
    let v = view(&r, 0);
    assert!(v.online);
    assert_eq!(v.last_seen, Some(Millis(95_000)));
    assert_eq!(v.rssi_dbm, Some(-55));
    assert_eq!(v.readings.voltage_milli, Some(2587));
    // Expiry wiped temperature; the new frame did not carry one.
    assert_eq!(v.readings.temperature_centi, None);
    assert_eq!(r.newest_last_seen(), Some(Millis(95_000)));
}

#[test]
fn failed_beacon_is_not_a_sighting() {
    let mut r = registry();
    r.record_beacon(0, Millis(1_000), -60, Err(BeaconFailure::Decrypt));
    r.record_beacon(0, Millis(2_000), -60, Err(BeaconFailure::Parse));
    let v = view(&r, 0);
    assert!(!v.online);
    assert_eq!(v.last_seen, None);
    assert_eq!(v.readings, Readings::default());
    assert_eq!(v.rssi_dbm, None);
    assert_eq!(v.counters.decrypt_fail, 1);
    assert_eq!(v.counters.parse_fail, 1);
    // Every outcome counts toward reception...
    assert_eq!(v.beacons_per_minute, 2);
    // ...and feeds the wedge watermark: a failed frame still proves radio
    // delivery, and a wedge reboot would not fix a wrong bindkey.
    assert_eq!(r.newest_last_seen(), Some(Millis(2_000)));
    assert_eq!(r.devices_active(), 0);
}

#[test]
fn beacons_per_minute_is_an_exact_trailing_60s_count() {
    let mut r = registry();
    for _ in 0..5 {
        r.record_beacon(0, Millis(1_000), -60, temp_hum_batt());
    }
    assert_eq!(view(&r, 0).beacons_per_minute, 5);
    for s in 0..59u64 {
        r.sweep(Millis(2_000).saturating_add(Millis::from_secs(s)));
        assert_eq!(view(&r, 0).beacons_per_minute, 5);
    }
    // 60th sweep: the bucket holding the 5 falls out of the window.
    r.sweep(Millis(61_000));
    assert_eq!(view(&r, 0).beacons_per_minute, 0);
}

#[test]
fn beacons_per_minute_bucket_saturates_instead_of_wrapping() {
    let mut r = registry();
    for _ in 0..300 {
        r.record_beacon(0, Millis(1_000), -60, temp_hum_batt());
    }
    assert_eq!(view(&r, 0).beacons_per_minute, 255);
}

#[test]
fn novel_object_latch_is_per_device_and_id() {
    let mut r = registry();
    assert!(r.record_beacon(0, Millis(1_000), -60, unknown_object(0xF0)));
    assert!(!r.record_beacon(0, Millis(2_000), -60, unknown_object(0xF0)));
    assert!(r.record_beacon(0, Millis(3_000), -60, unknown_object(0xF1)));
    assert!(r.record_beacon(1, Millis(4_000), -60, unknown_object(0xF0)));
    // Counter climbs once per occurrence, latched or not.
    assert_eq!(r.parse_unknown_object_total(), 4);
}

#[test]
fn full_latch_counts_but_never_logs() {
    let mut r = registry();
    for id in 0x80..0x90u8 {
        assert!(r.record_beacon(0, Millis(1_000), -60, unknown_object(id)));
    }
    // 17th distinct entry: latch full, counted, not logged.
    assert!(!r.record_beacon(0, Millis(2_000), -60, unknown_object(0x90)));
    assert_eq!(r.parse_unknown_object_total(), 17);
}

#[test]
fn device_index_finds_exact_mac_only() {
    let r = registry();
    assert_eq!(
        r.device_index(&[0xAA, 0xBB, 0xCC, 0x00, 0x00, 0x02]),
        Some(1)
    );
    assert_eq!(
        r.device_index(&[0xAA, 0xBB, 0xCC, 0x00, 0x00, 0x01]),
        Some(0)
    );
    assert_eq!(r.device_index(&[0xDE, 0xAD, 0xBE, 0xEF, 0x00, 0x00]), None);
}

#[test]
fn devices_active_counts_only_online() {
    let mut r = registry();
    assert_eq!(r.devices_active(), 0);
    r.record_beacon(0, Millis(1_000), -60, temp_hum_batt());
    assert_eq!(r.devices_active(), 1);
    r.record_beacon(1, Millis(2_000), -70, voltage_only());
    assert_eq!(r.devices_active(), 2);
    r.sweep(Millis(91_000)); // device 0 expires; device 1 has 89 s left
    assert_eq!(r.devices_active(), 1);
}

#[test]
fn unknown_adverts_total_climbs_as_u64() {
    let mut r = registry();
    r.record_unknown_advert();
    r.record_unknown_advert();
    assert_eq!(r.unknown_adverts_total(), 2u64);
}

#[test]
fn len_is_configured_count_and_views_stop_there() {
    let r = registry();
    assert_eq!(r.len(), 2);
    assert!(!r.is_empty());
    assert!(r.view(1).is_some());
    assert!(r.view(2).is_none());
    assert_eq!(view(&r, 0).device.name, "baby_room");

    let empty = Registry::new(&[], TUNABLES);
    assert_eq!(empty.len(), 0);
    assert!(empty.is_empty());
    assert!(empty.view(0).is_none());
}

#[test]
fn hot_region_stays_near_the_1kb_budget() {
    assert!(core::mem::size_of::<Registry>() <= 1_200);
}

#[test]
fn out_of_range_index_records_nothing() {
    let mut r = registry();
    assert!(!r.record_beacon(5, Millis(1_000), -60, unknown_object(0xF0)));
    assert_eq!(r.parse_unknown_object_total(), 0);
    assert_eq!(r.newest_last_seen(), None);
}

#[test]
fn more_devices_than_slots_keeps_the_first_eight() {
    let many: &'static [Device] = Box::leak(
        (0..10u8)
            .map(|i| Device::plain([0, 0, 0, 0, 0, i], "d"))
            .collect::<Vec<_>>()
            .into_boxed_slice(),
    );
    let r = Registry::new(many, TUNABLES);
    assert_eq!(r.len(), 8);
    assert_eq!(r.device_index(&[0, 0, 0, 0, 0, 9]), None);
    assert_eq!(r.device_index(&[0, 0, 0, 0, 0, 7]), Some(7));
}

#[test]
fn a_snapshot_is_an_equal_registry() {
    let mut r = registry();
    r.record_beacon(0, Millis(1_000), -60, temp_hum_batt());
    let snap = r.clone();
    r.record_beacon(0, Millis(2_000), -61, voltage_only());
    assert_eq!(view(&snap, 0).readings.voltage_milli, None);
    assert_eq!(view(&snap, 0).counters.ok, 1);
    assert_eq!(view(&r, 0).counters.ok, 2);
}
