use harvester_core::config::tunables;
use harvester_core::effects::{
    bytes_eq, claim_upload, classify_boot, ota_authorized, reboot_count, wifi_rssi_from_slot,
    wifi_rssi_slot, RebootReason, ResetKind,
};
use harvester_core::housekeeping::{sample_spark, spark_columns, SweepEvent, Sweeper};
use harvester_core::ota::validate_if_due;
use harvester_core::parse::{Parsed, Readings};
use harvester_core::render::RebootCounts;
use harvester_core::wifi::{down_for, giveup_due, WifiBackoff};
use harvester_core::{Device, Millis, Registry, Spark, Tunables, SPARK_DEPTH};
use harvester_core::ota::{
    admit_upload, ota_restart_due, upload_ack, upload_status, UploadAdmission, UploadEnd,
};
use harvester_core::effects::next_boot_count;
use harvester_core::housekeeping::radio_evidence;
use harvester_core::registry::BeaconFailure;

#[test]
fn tunables_are_the_committed_values() {
    let t = tunables();
    assert_eq!(t.device_timeout, Millis(90_000));
    assert_eq!(t.wedge_window, Millis(600_000));
    assert_eq!(t.spark_sample_interval, Millis(300_000));
}

#[test]
fn backoff_runs_1_2_4_up_to_60_seconds() {
    let mut w = WifiBackoff::new();
    let mut now = Millis(0);
    let mut seen = Vec::new();
    for _ in 0..8 {
        seen.push(w.backoff_secs);
        assert!(w.supervise(now, false));
        now = w.next_attempt;
    }
    assert_eq!(seen, vec![1, 2, 4, 8, 16, 32, 60, 60]);
}

#[test]
fn backoff_waits_for_its_next_attempt_and_resets_when_up() {
    let mut w = WifiBackoff::new();
    assert!(w.supervise(Millis(0), false));
    assert_eq!(w.next_attempt, Millis(1_000));
    assert!(!w.supervise(Millis(500), false));
    assert!(w.supervise(Millis(1_000), false));
    assert_eq!(w.backoff_secs, 4);
    assert!(!w.supervise(Millis(2_000), true));
    assert_eq!(w.backoff_secs, 1);
    assert_eq!(w.last_connected, Some(Millis(2_000)));
    assert!(w.ever_connected());
}

#[test]
fn outage_clock_and_giveup() {
    let mut w = WifiBackoff::new();
    assert_eq!(down_for(&w, Millis(7_000)), Some(Millis(7_000)));
    // Never connected: down since boot, so the giveup fires at 300 s.
    assert!(!giveup_due(&w, Millis(299_999), Millis(300_000), false));
    assert!(giveup_due(&w, Millis(300_000), Millis(300_000), false));
    w.supervise(Millis(10_000), true);
    assert_eq!(down_for(&w, Millis(40_000)), Some(Millis(30_000)));
    assert!(!giveup_due(&w, Millis(309_999), Millis(300_000), false));
    assert!(giveup_due(&w, Millis(310_000), Millis(300_000), false));
    // An upload in progress suppresses it.
    assert!(!giveup_due(&w, Millis(310_000), Millis(300_000), true));
}

#[test]
fn validation_needs_a_minute_and_evidence_or_ten_minutes() {
    let mut valid = false;
    assert!(!validate_if_due(59, true, &mut valid));
    assert!(!validate_if_due(120, false, &mut valid));
    assert!(!valid);
    assert!(validate_if_due(60, true, &mut valid));
    assert!(valid);
    assert!(!validate_if_due(700, true, &mut valid));
    let mut fresh = false;
    assert!(validate_if_due(600, false, &mut fresh));
}

#[test]
fn boot_reasons_follow_the_reset_register_and_the_declared_reason() {
    assert_eq!(classify_boot(ResetKind::Software, Some(RebootReason::Wifi)), RebootReason::Wifi);
    assert_eq!(classify_boot(ResetKind::Software, Some(RebootReason::BleWedge)), RebootReason::BleWedge);
    assert_eq!(classify_boot(ResetKind::Software, Some(RebootReason::Ota)), RebootReason::Ota);
    assert_eq!(classify_boot(ResetKind::Software, Some(RebootReason::Panic)), RebootReason::Unknown);
    assert_eq!(classify_boot(ResetKind::Software, None), RebootReason::Unknown);
    assert_eq!(classify_boot(ResetKind::Panic, Some(RebootReason::Wifi)), RebootReason::Panic);
    assert_eq!(classify_boot(ResetKind::TaskWatchdog, None), RebootReason::Wdt);
    assert_eq!(classify_boot(ResetKind::InterruptWatchdog, None), RebootReason::Wdt);
    assert_eq!(classify_boot(ResetKind::OtherWatchdog, None), RebootReason::Wdt);
    assert_eq!(classify_boot(ResetKind::PowerOn, None), RebootReason::Power);
    assert_eq!(classify_boot(ResetKind::Brownout, None), RebootReason::Power);
    assert_eq!(classify_boot(ResetKind::Other, None), RebootReason::Unknown);
}

#[test]
fn reason_labels_round_trip() {
    for r in [
        RebootReason::Panic,
        RebootReason::Wifi,
        RebootReason::BleWedge,
        RebootReason::Ota,
        RebootReason::Power,
        RebootReason::Wdt,
        RebootReason::Unknown,
    ] {
        assert_eq!(RebootReason::from_label(r.label()), Some(r));
    }
    assert_eq!(RebootReason::Wifi.label(), "wifi");
    assert_eq!(RebootReason::from_label("wifi2"), None);
    assert_eq!(RebootReason::from_label(""), None);
}

#[test]
fn reboot_counters_are_read_by_reason() {
    let c = RebootCounts { ota: 3, ..RebootCounts::default() };
    assert_eq!(reboot_count(&c, RebootReason::Ota), 3);
    assert_eq!(reboot_count(&c, RebootReason::Panic), 0);
}

#[test]
fn rssi_slot_uses_zero_for_unassociated() {
    assert_eq!(wifi_rssi_slot(None), 0);
    assert_eq!(wifi_rssi_slot(Some(-55)), -55);
    assert_eq!(wifi_rssi_from_slot(0), None);
    assert_eq!(wifi_rssi_from_slot(-55), Some(-55));
}

#[test]
fn upload_slot_is_exclusive() {
    let mut busy = false;
    assert!(claim_upload(&mut busy));
    assert!(busy);
    assert!(!claim_upload(&mut busy));
    assert!(busy);
}

#[test]
fn ota_token_must_match_exactly() {
    assert!(ota_authorized(Some("s3cret"), "s3cret"));
    assert!(!ota_authorized(Some("s3cret "), "s3cret"));
    assert!(!ota_authorized(None, "s3cret"));
    assert!(bytes_eq(b"", b""));
    assert!(!bytes_eq(b"a", b"b"));
}

const TUNABLES: Tunables = Tunables {
    device_timeout: Millis(90_000),
    wedge_window: Millis(600_000),
    spark_sample_interval: Millis(300_000),
};

#[test]
fn spark_columns_follow_current_readings() {
    let devs: &'static [Device] = Box::leak(Box::new([
        Device::plain([0, 0, 0, 0, 0, 1], "a"),
        Device::plain([0, 0, 0, 0, 0, 2], "b"),
    ]));
    let mut r = Registry::new(devs, TUNABLES);
    r.record_beacon(
        0,
        Millis(1_000),
        -60,
        Ok(Parsed {
            readings: Readings {
                temperature_centi: Some(2100),
                humidity_centi: Some(4500),
                ..Readings::default()
            },
            unknown_object: None,
        }),
    );
    let (cols, count) = spark_columns(&r);
    assert_eq!(&cols[..count], &[(Some(2100), Some(4500)), (None, None)]);
    assert!(cols[count..].iter().all(|c| *c == (None, None)));
    let mut spark = Spark::new();
    sample_spark(&mut spark, &cols[..count]);
    assert_eq!(spark.temperature(0)[SPARK_DEPTH - 1], Some(2100));
    assert_eq!(spark.humidity(0)[SPARK_DEPTH - 1], Some(4500));
    assert_eq!(spark.temperature(1)[SPARK_DEPTH - 1], None);
}

fn quiet(newest: Option<Millis>, wifi_up: bool, ota_busy: bool) -> SweepEvent {
    SweepEvent { newest, unknown_total: 0, wifi_up, ota_busy }
}

#[test]
fn sweep_samples_every_interval_and_restarts_on_a_wedge() {
    let mut s = Sweeper::new();
    let giveup = Millis(300_000);
    let p = s.step(Millis(1_000), quiet(Some(Millis(1_000)), true, false), TUNABLES, giveup);
    assert!(!p.sample_spark);
    assert_eq!(p.restart, None);
    let p = s.step(Millis(300_000), quiet(Some(Millis(1_000)), true, false), TUNABLES, giveup);
    assert!(p.sample_spark);
    assert_eq!(s.last_spark_sample, Millis(300_000));
    // Beacons stopped at 1 s; the wedge fires 600 s later, unless an upload runs.
    let p = s.step(Millis(601_000), quiet(Some(Millis(1_000)), true, true), TUNABLES, giveup);
    assert_eq!(p.restart, None);
    let p = s.step(Millis(601_001), quiet(Some(Millis(1_000)), true, false), TUNABLES, giveup);
    assert_eq!(p.restart, Some(RebootReason::BleWedge));
}

#[test]
fn sweep_gives_up_on_wifi_after_five_minutes_down() {
    let mut s = Sweeper::new();
    let giveup = Millis(300_000);
    s.step(Millis(1_000), quiet(None, true, false), TUNABLES, giveup);
    let p = s.step(Millis(2_000), quiet(None, false, false), TUNABLES, giveup);
    assert!(p.reconnect_wifi);
    assert_eq!(p.restart, None);
    let p = s.step(Millis(301_000), quiet(None, false, false), TUNABLES, giveup);
    assert_eq!(p.restart, Some(RebootReason::Wifi));
    let p = s.step(Millis(301_000), quiet(None, false, true), TUNABLES, giveup);
    assert_eq!(p.restart, None);
}

#[test]
fn sweep_gives_up_when_wifi_never_came_up() {
    // Wrong credentials: the link never comes up, and the outage counts from boot.
    let mut s = Sweeper::new();
    let giveup = Millis(300_000);
    let p = s.step(Millis(299_000), quiet(None, false, false), TUNABLES, giveup);
    assert_eq!(p.restart, None);
    let p = s.step(Millis(400_000), quiet(None, false, false), TUNABLES, giveup);
    assert_eq!(p.restart, Some(RebootReason::Wifi));
}

#[test]
fn uploads_are_admitted_only_with_the_token_and_a_free_slot() {
    assert_eq!(admit_upload(false, true), UploadAdmission::Unauthorized);
    assert_eq!(admit_upload(true, false), UploadAdmission::Busy);
    assert_eq!(admit_upload(true, true), UploadAdmission::Admitted);
}

#[test]
fn upload_statuses_and_acknowledgement() {
    assert_eq!(upload_status(UploadEnd::ReadFailed, 10), 500);
    assert_eq!(upload_status(UploadEnd::WriteFailed, 0), 500);
    assert_eq!(upload_status(UploadEnd::Finished, 0), 400);
    assert_eq!(upload_status(UploadEnd::Finished, 4096), 200);
    let mut w = Vec::new();
    upload_ack(&mut w, 4096);
    assert_eq!(String::from_utf8(w).unwrap(), "ok: 4096 bytes, rebooting\n");
}

#[test]
fn radio_evidence_is_a_parsed_beacon_or_a_stray_advert() {
    let devs: &'static [Device] = Box::leak(Box::new([Device::plain([0, 0, 0, 0, 0, 1], "a")]));
    let mut r = Registry::new(devs, TUNABLES);
    assert!(!radio_evidence(&r));
    r.record_beacon(0, Millis(1_000), -60, Err(BeaconFailure::Decrypt));
    assert!(!radio_evidence(&r));
    r.record_unknown_advert();
    assert!(radio_evidence(&r));
    let mut r = Registry::new(devs, TUNABLES);
    r.record_beacon(
        0,
        Millis(1_000),
        -60,
        Ok(Parsed { readings: Readings::default(), unknown_object: None }),
    );
    assert!(radio_evidence(&r));
}

#[test]
fn a_completed_upload_restarts_unless_another_streams() {
    assert!(ota_restart_due(true, false));
    assert!(!ota_restart_due(true, true));
    assert!(!ota_restart_due(false, false));
}

#[test]
fn boot_counts_saturate() {
    assert_eq!(next_boot_count(0), 1);
    assert_eq!(next_boot_count(41), 42);
    assert_eq!(next_boot_count(u32::MAX), u32::MAX);
}
