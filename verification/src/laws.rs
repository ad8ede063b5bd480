//! Properties that span calls: what every operation keeps, what the
//! sweeps and checks do over time, and what reading back a write gives.
//! Each is stated over the models the operations' contracts use.

use vstd::prelude::*;
use crate::clock::{sat_sub, Millis};
use crate::advert::{advert_outcome, frame_is_encrypted};
use crate::clock::{sat_add, secs_to_millis};
use crate::frame::frame_open;
use crate::logring::{
    civil_of_days, day_of_year, is_leap_year, lemma_era_bounds, line_text, march_month, newest_first,
    ring_pushed, year_of_era, LogLine,
};
use crate::effects::{rssi_of_slot, rssi_slot};
use crate::ota::validation_due;
use crate::parse::{fcd2_from, no_readings, spec_parse, walk, ParseError, Parsed, Readings};
use crate::spark::empty_spark;
use crate::housekeeping::wifi_gives_up;
use crate::logring::{boundary_at_or_below, slot_bytes};
use crate::wifi::{WifiBackoff, BACKOFF_CAP_SECS};
use crate::registry::{
    inc_u32, sum_u8, BeaconFailure, DeviceModel, RegistryModel, LATCH_CAPACITY,
};
use crate::spark::{SparkModel, NO_SAMPLE};
use crate::wedge::{WedgeModel, WedgeVerdict};
use crate::device::{hex_value, is_hex};
use crate::render::{json_body, json_byte, json_str, per_device, sep};
use crate::render::history::{history_body, history_entry, sample_text, series_text};
use crate::render::readings::{device_entries, device_entry, readings_body, health_block};
use crate::render::bool_text;
use crate::render::flag_text;
use crate::render::prometheus::{
    beacon_line, counter_families, device_family, device_line, family_header, family_lines,
    family_text, health_families, identity_gauges, metrics_body, reboot_family, resource_gauges,
    reboot_line, sample_prefix, sensor_families, single_gauge, DeviceFamily, BATTERY, BEACONS, BUILD_INFO,
    FREE_HEAP, HUMIDITY, LAST_UPDATE, MIN_FREE_HEAP, REBOOTS, RSSI, SEEN, TEMPERATURE, TIME_SYNCED,
    UNKNOWN_ADVERTS, UNKNOWN_OBJECTS, UPTIME, VOLTAGE, WIFI_RSSI,
};
use crate::render::{label_body, label_byte};
use crate::text::{dec, padded, signed_dec};
use crate::fixed::scaled;
use crate::device::Device;
use crate::spark::empty_series;
use crate::text::bytes_of;
use crate::{LOG_LINES, MAX_DEVICES, SPARK_DEPTH};

verus! {

/// Shape every state of a live registry has: at most `MAX_DEVICES`
/// devices, one 60-bucket ring per slot with its cursor inside it, and a
/// latch within capacity.
pub open spec fn registry_valid(m: RegistryModel) -> bool {
    &&& m.devices.len() <= MAX_DEVICES
    &&& m.states.len() == MAX_DEVICES
    &&& forall|i: int| 0 <= i < MAX_DEVICES ==> device_valid(#[trigger] m.states[i])
    &&& m.latch.len() <= LATCH_CAPACITY
}

/// A device state's ring is 60 buckets long and its cursor points into it.
pub open spec fn device_valid(d: DeviceModel) -> bool {
    d.buckets.len() == 60 && 0 <= d.cursor < 60
}

/// Recording a beacon and sweeping keep a registry's shape.
pub proof fn law_registry_shape_is_kept(
    m: RegistryModel,
    idx: int,
    now: Millis,
    rssi_dbm: i8,
    outcome: Result<Parsed, BeaconFailure>,
)
    requires
        registry_valid(m),
    ensures
        registry_valid(m.recorded(idx, now, rssi_dbm, outcome)),
        registry_valid(m.swept(now)),
{
    let r = m.recorded(idx, now, rssi_dbm, outcome);
    assert forall|i: int| 0 <= i < MAX_DEVICES implies device_valid(#[trigger] r.states[i]) by {
        if 0 <= idx < m.devices.len() && i == idx {
            assert(device_valid(m.states[i]));
        }
    }
    let s = m.swept(now);
    assert forall|i: int| 0 <= i < MAX_DEVICES implies device_valid(#[trigger] s.states[i]) by {
        assert(device_valid(m.states[i]));
    }
}

/// Counters never gap: the sweep, expiry included, leaves every counter,
/// every last sighting, the latch and the newest-seen watermark as they were.
pub proof fn law_sweep_never_touches_counters(m: RegistryModel, now: Millis)
    requires
        registry_valid(m),
    ensures
        forall|i: int|
            0 <= i < MAX_DEVICES ==> (#[trigger] m.swept(now).states[i]).counters == m.states[i].counters
                && m.swept(now).states[i].last_sighting == m.states[i].last_sighting,
        m.swept(now).unknown_adverts == m.unknown_adverts,
        m.swept(now).parse_unknown_object == m.parse_unknown_object,
        m.swept(now).latch == m.latch,
        m.swept(now).newest_seen == m.newest_seen,
{
}

/// No counter ever decreases when a beacon is recorded: exactly the counter
/// of the outcome moves, by one unless already saturated; an unknown object
/// id is counted on every occurrence, latched or not; and every outcome,
/// failed or not, counts toward beacons per minute.
pub proof fn law_record_counts_the_outcome(
    m: RegistryModel,
    idx: int,
    now: Millis,
    rssi_dbm: i8,
    outcome: Result<Parsed, BeaconFailure>,
)
    requires
        registry_valid(m),
        0 <= idx < m.devices.len(),
    ensures
        ({
            let before = m.states[idx].counters;
            let after = m.recorded(idx, now, rssi_dbm, outcome).states[idx].counters;
            &&& after.ok == (if outcome is Ok { inc_u32(before.ok) } else { before.ok })
            &&& after.decrypt_fail == (if outcome == Err::<Parsed, BeaconFailure>(
                BeaconFailure::Decrypt,
            ) {
                inc_u32(before.decrypt_fail)
            } else {
                before.decrypt_fail
            })
            &&& after.parse_fail == (if outcome == Err::<Parsed, BeaconFailure>(BeaconFailure::Parse) {
                inc_u32(before.parse_fail)
            } else {
                before.parse_fail
            })
            &&& after.ok >= before.ok && after.decrypt_fail >= before.decrypt_fail && after.parse_fail
                >= before.parse_fail
        }),
        forall|i: int|
            0 <= i < MAX_DEVICES && i != idx ==> #[trigger] m.recorded(
                idx,
                now,
                rssi_dbm,
                outcome,
            ).states[i] == m.states[i],
        m.recorded(idx, now, rssi_dbm, outcome).unknown_adverts == m.unknown_adverts,
        m.recorded(idx, now, rssi_dbm, outcome).parse_unknown_object == (if outcome matches Ok(p)
            && p.unknown_object is Some {
            inc_u32(m.parse_unknown_object)
        } else {
            m.parse_unknown_object
        }),
        m.recorded(idx, now, rssi_dbm, outcome).states[idx].buckets == m.states[idx].bumped().buckets,
        m.recorded(idx, now, rssi_dbm, outcome).states[idx].cursor == m.states[idx].cursor,
{
}

/// A failed frame is not a sighting: readings, RSSI, last seen, last
/// sighting and the online flag of the device stay exactly as they were.
pub proof fn law_failed_beacon_is_not_a_sighting(
    m: RegistryModel,
    idx: int,
    now: Millis,
    rssi_dbm: i8,
    failure: BeaconFailure,
)
    requires
        registry_valid(m),
    ensures
        ({
            let after = m.recorded(idx, now, rssi_dbm, Err(failure));
            &&& after.states[idx].readings == m.states[idx].readings
            &&& after.states[idx].rssi_dbm == m.states[idx].rssi_dbm
            &&& after.states[idx].last_seen == m.states[idx].last_seen
            &&& after.states[idx].last_sighting == m.states[idx].last_sighting
            &&& after.states[idx].online == m.states[idx].online
        }),
{
}

/// A parsed frame merges per field: a reading it carries replaces the
/// stored one, a reading it lacks leaves the stored one (the voltage-only
/// frame does not erase the temperature), and the device is online.
pub proof fn law_parsed_frame_merges_per_field(
    m: RegistryModel,
    idx: int,
    now: Millis,
    rssi_dbm: i8,
    parsed: Parsed,
)
    requires
        registry_valid(m),
        0 <= idx < m.devices.len(),
    ensures
        ({
            let before = m.states[idx].readings;
            let fresh = parsed.readings;
            let after = m.recorded(idx, now, rssi_dbm, Ok(parsed)).states[idx];
            &&& after.readings.temperature_centi == (if fresh.temperature_centi is Some {
                fresh.temperature_centi
            } else {
                before.temperature_centi
            })
            &&& after.readings.humidity_centi == (if fresh.humidity_centi is Some {
                fresh.humidity_centi
            } else {
                before.humidity_centi
            })
            &&& after.readings.battery_percent == (if fresh.battery_percent is Some {
                fresh.battery_percent
            } else {
                before.battery_percent
            })
            &&& after.readings.voltage_milli == (if fresh.voltage_milli is Some {
                fresh.voltage_milli
            } else {
                before.voltage_milli
            })
            &&& after.online
            &&& after.last_seen == Some(now)
            &&& after.last_sighting == Some(now)
            &&& after.rssi_dbm == Some(rssi_dbm)
        }),
{
}

/// The newest-seen watermark never moves backwards: every recorded beacon
/// of a configured device, whatever its outcome, brings it to at least the
/// beacon's instant, and the sweep leaves it alone.
pub proof fn law_watermark_never_recedes(
    m: RegistryModel,
    idx: int,
    now: Millis,
    rssi_dbm: i8,
    outcome: Result<Parsed, BeaconFailure>,
)
    requires
        registry_valid(m),
    ensures
        m.newest_seen matches Some(w) ==> (m.recorded(idx, now, rssi_dbm, outcome).newest_seen matches Some(
            w2,
        ) && w2.0 >= w.0),
        0 <= idx < m.devices.len() ==> (m.recorded(idx, now, rssi_dbm, outcome).newest_seen matches Some(
            w2,
        ) && w2.0 >= now.0),
        m.swept(now).newest_seen == m.newest_seen,
{
}

/// Expiry happens at exactly `device_timeout` after the last sighting:
/// from then on the gauges are gone and the device is offline; before it
/// the device's readings and online flag are untouched.
pub proof fn law_expiry_at_exactly_the_timeout(m: RegistryModel, i: int, now: Millis)
    requires
        registry_valid(m),
        0 <= i < m.devices.len(),
    ensures
        ({
            let d = m.states[i];
            let after = m.swept(now).states[i];
            &&& (d.last_seen matches Some(seen) && sat_sub(now.0 as int, seen.0 as int)
                >= m.tunables.device_timeout.0) ==> {
                &&& !after.online
                &&& after.readings == no_readings()
                &&& after.rssi_dbm is None
                &&& after.last_seen is None
            }
            &&& !(d.last_seen matches Some(seen) && sat_sub(now.0 as int, seen.0 as int)
                >= m.tunables.device_timeout.0) ==> {
                &&& after.online == d.online
                &&& after.readings == d.readings
                &&& after.rssi_dbm == d.rssi_dbm
                &&& after.last_seen == d.last_seen
            }
        }),
{
}

/// An unknown object id is reported at most once per `(device, id)`: once
/// reported it is latched, later beacons never remove a latched pair, and a
/// latched pair is never reported again.
pub proof fn law_novel_object_is_reported_once(
    m: RegistryModel,
    idx: int,
    now: Millis,
    rssi_dbm: i8,
    outcome: Result<Parsed, BeaconFailure>,
    pair: (u8, u8),
)
    requires
        registry_valid(m),
    ensures
        m.record_reports(idx, outcome) ==> m.recorded(idx, now, rssi_dbm, outcome).latch.contains(
            (idx as u8, outcome->Ok_0.unknown_object->Some_0),
        ),
        m.latch.contains(pair) ==> m.recorded(idx, now, rssi_dbm, outcome).latch.contains(pair),
        m.latch.contains(pair) ==> m.swept(now).latch.contains(pair),
        m.latch.contains((idx as u8, pair.1)) ==> !m.record_reports(
            idx,
            Ok(Parsed { readings: no_readings(), unknown_object: Some(pair.1) }),
        ),
{
    if m.latch.contains(pair) {
        let k = choose|k: int| 0 <= k < m.latch.len() && m.latch[k] == pair;
        let after = m.recorded(idx, now, rssi_dbm, outcome).latch;
        assert(after[k] == pair);
    }
    if m.record_reports(idx, outcome) {
        let after = m.recorded(idx, now, rssi_dbm, outcome).latch;
        assert(after[after.len() - 1] == (idx as u8, outcome->Ok_0.unknown_object->Some_0));
    }
}

/// Online devices are counted among the configured ones only.
pub proof fn law_active_devices_never_exceed_configured(m: RegistryModel, n: int)
    requires
        0 <= n,
    ensures
        m.online_among(n) <= n,
    decreases n,
{
    if n > 0 {
        law_active_devices_never_exceed_configured(m, n - 1);
    }
}

/// Each sweep moves every configured device's beacons-per-minute ring on
/// by exactly one second, expired or not.
pub proof fn law_sweep_advances_every_ring(m: RegistryModel, i: int, now: Millis)
    requires
        registry_valid(m),
        0 <= i < m.devices.len(),
    ensures
        m.swept(now).states[i].buckets == m.states[i].advanced().buckets,
        m.swept(now).states[i].cursor == m.states[i].advanced().cursor,
{
}

/// A ring after `k` seconds without beacons.
pub open spec fn advanced_n(d: DeviceModel, k: nat) -> DeviceModel
    decreases k,
{
    if k == 0 {
        d
    } else {
        advanced_n(d, (k - 1) as nat).advanced()
    }
}

/// Whether bucket `j` has been emptied `k` seconds after the cursor stood at `c`.
pub open spec fn emptied_after(c: int, j: int, k: int) -> bool {
    let dist = (j - c + 60) % 60;
    (1 <= dist <= k) || (dist == 0 && k >= 60)
}

proof fn lemma_advanced_n(d: DeviceModel, k: nat)
    requires
        device_valid(d),
        k <= 60,
    ensures
        device_valid(advanced_n(d, k)),
        advanced_n(d, k).cursor == (d.cursor + k) % 60,
        forall|j: int|
            0 <= j < 60 ==> #[trigger] advanced_n(d, k).buckets[j] == (if emptied_after(
                d.cursor,
                j,
                k as int,
            ) {
                0u8
            } else {
                d.buckets[j]
            }),
    decreases k,
{
    if k > 0 {
        lemma_advanced_n(d, (k - 1) as nat);
        let a = advanced_n(d, (k - 1) as nat);
        let next = if a.cursor + 1 >= 60 { 0 } else { a.cursor + 1 };
        assert(next == (d.cursor + k) % 60);
        assert forall|j: int| 0 <= j < 60 implies #[trigger] advanced_n(d, k).buckets[j] == (
        if emptied_after(d.cursor, j, k as int) {
            0u8
        } else {
            d.buckets[j]
        }) by {
            assert(advanced_n(d, k) == a.advanced());
            if j == next {
                assert(emptied_after(d.cursor, j, k as int));
            } else {
                assert(emptied_after(d.cursor, j, k as int) == emptied_after(
                    d.cursor,
                    j,
                    k - 1,
                ));
            }
        }
    }
}

proof fn lemma_sum_all_zero(s: Seq<u8>)
    requires
        forall|j: int| 0 <= j < s.len() ==> s[j] == 0,
    ensures
        sum_u8(s) == 0,
    decreases s.len(),
{
    if s.len() > 0 {
        lemma_sum_all_zero(s.drop_last());
    }
}

proof fn lemma_sum_at_least_element(s: Seq<u8>, i: int)
    requires
        0 <= i < s.len(),
    ensures
        sum_u8(s) >= s[i],
    decreases s.len(),
{
    if i < s.len() - 1 {
        lemma_sum_at_least_element(s.drop_last(), i);
    }
}

proof fn lemma_sum_update(s: Seq<u8>, i: int, v: u8)
    requires
        0 <= i < s.len(),
    ensures
        sum_u8(s.update(i, v)) == sum_u8(s) - s[i] + v,
    decreases s.len(),
{
    if i == s.len() - 1 {
        assert(s.update(i, v).drop_last() =~= s.drop_last());
    } else {
        lemma_sum_update(s.drop_last(), i, v);
        assert(s.update(i, v).drop_last() =~= s.drop_last().update(i, v));
    }
}

/// Beacons per minute is a trailing 60 s count: a beacon adds one (until
/// its bucket saturates at 255), stays counted for the next 59 seconds, and
/// after 60 seconds without beacons nothing is counted.
pub proof fn law_beacons_per_minute_is_a_trailing_minute(d: DeviceModel, k: nat)
    requires
        device_valid(d),
    ensures
        d.buckets[d.cursor] < 255 ==> d.bumped().bpm() == d.bpm() + 1,
        k < 60 ==> advanced_n(d.bumped(), k).bpm() >= 1,
        advanced_n(d, 60).bpm() == 0,
{
    lemma_sum_update(d.buckets, d.cursor, crate::registry::inc_u8(d.buckets[d.cursor]));
    lemma_advanced_n(d, 60);
    lemma_sum_all_zero(advanced_n(d, 60).buckets);
    if k < 60 {
        let b = d.bumped();
        assert(device_valid(b));
        lemma_advanced_n(b, k);
        assert(!emptied_after(b.cursor, b.cursor, k as int));
        assert(advanced_n(b, k).buckets[b.cursor] == b.buckets[b.cursor]);
        lemma_sum_at_least_element(advanced_n(b, k).buckets, b.cursor);
    }
}

/// The detector as it starts at boot.
pub open spec fn wedge_at_boot() -> WedgeModel {
    WedgeModel { armed: false, last_activity: Millis(0), last_unknown_total: 0, last_newest_seen: None }
}

/// A board that never hears anything never arms and so never reboots:
/// from boot, with no configured beacon and no stray advert, every check
/// answers `NotArmed` and leaves the detector as it was.
pub proof fn law_silent_boot_never_arms(now: Millis, ota_in_progress: bool, window: Millis)
    ensures
        wedge_at_boot().checked(now, None, 0) == wedge_at_boot(),
        wedge_at_boot().verdict(now, None, 0, ota_in_progress, window) == WedgeVerdict::NotArmed,
{
}

/// An upload in progress suppresses the verdict, never the watermark: a
/// check during the upload answers anything but `Wedged` and updates the
/// detector exactly as a check without it would, so silence that persists
/// past the window fires on the first check after the upload.
pub proof fn law_ota_suppresses_but_keeps_the_watermark(
    m: WedgeModel,
    now: Millis,
    later: Millis,
    newest: Option<Millis>,
    unknown_total: u64,
    window: Millis,
)
    requires
        m.armed,
        !m.is_activity(newest, unknown_total),
        sat_sub(later.0 as int, m.last_activity.0 as int) >= window.0,
    ensures
        m.verdict(now, newest, unknown_total, true, window) != WedgeVerdict::Wedged,
        m.checked(now, newest, unknown_total).verdict(later, newest, unknown_total, false, window)
            == WedgeVerdict::Wedged,
{
}

/// Any change of either liveness input, including a counter going down,
/// is activity: the check that sees it is healthy for any positive window.
pub proof fn law_activity_is_never_a_wedge(
    m: WedgeModel,
    now: Millis,
    newest: Option<Millis>,
    unknown_total: u64,
    ota_in_progress: bool,
    window: Millis,
)
    requires
        m.is_activity(newest, unknown_total),
        window.0 > 0,
    ensures
        m.verdict(now, newest, unknown_total, ota_in_progress, window) == WedgeVerdict::Healthy,
        m.checked(now, newest, unknown_total).last_activity == now,
{
}

/// `Wedged` exactly when the detector is armed, no upload streams, and
/// both inputs have stayed flat for at least the window.
pub proof fn law_wedged_iff_armed_flat_for_the_window(
    m: WedgeModel,
    now: Millis,
    newest: Option<Millis>,
    unknown_total: u64,
    ota_in_progress: bool,
    window: Millis,
)
    requires
        window.0 > 0,
    ensures
        (m.verdict(now, newest, unknown_total, ota_in_progress, window) == WedgeVerdict::Wedged) <==> (
        m.armed && !ota_in_progress && !m.is_activity(newest, unknown_total) && sat_sub(
            now.0 as int,
            m.last_activity.0 as int,
        ) >= window.0),
{
}

/// Shape of the sparkline rings: `MAX_DEVICES` rows of `SPARK_DEPTH`
/// slots each, every cursor inside its row.
pub open spec fn spark_valid(m: SparkModel) -> bool {
    &&& m.temperature.len() == MAX_DEVICES
    &&& m.humidity.len() == MAX_DEVICES
    &&& m.cursor.len() == MAX_DEVICES
    &&& forall|d: int|
        0 <= d < MAX_DEVICES ==> (#[trigger] m.temperature[d]).len() == SPARK_DEPTH
            && m.humidity[d].len() == SPARK_DEPTH && 0 <= m.cursor[d] < SPARK_DEPTH
}

/// Reading back a pushed column: both series of the device move one column
/// on, oldest first; the newest column is the pushed sample, and every
/// other column is the one that followed it before. A sample equal to the
/// missing-sample sentinel reads back as a gap.
pub proof fn law_pushed_column_reads_back_newest(
    m: SparkModel,
    device: int,
    temp: Option<i16>,
    hum: Option<i16>,
)
    requires
        spark_valid(m),
        0 <= device < MAX_DEVICES,
    ensures
        ({
            let after = m.pushed(device, temp, hum);
            &&& after.temperature_series(device).len() == SPARK_DEPTH
            &&& after.humidity_series(device).len() == SPARK_DEPTH
            &&& temp != Some(NO_SAMPLE) ==> after.temperature_series(device)[SPARK_DEPTH - 1] == temp
            &&& hum != Some(NO_SAMPLE) ==> after.humidity_series(device)[SPARK_DEPTH - 1] == hum
            &&& forall|k: int|
                0 <= k < SPARK_DEPTH - 1 ==> #[trigger] after.temperature_series(device)[k]
                    == m.temperature_series(device)[k + 1] && after.humidity_series(device)[k]
                    == m.humidity_series(device)[k + 1]
            &&& forall|other: int|
                0 <= other < MAX_DEVICES && other != device ==> #[trigger] after.temperature_series(
                    other,
                ) == m.temperature_series(other) && after.humidity_series(other)
                    == m.humidity_series(other)
        }),
{
    let after = m.pushed(device, temp, hum);
    let at = m.cursor[device];
    assert(after.cursor[device] == (at + 1) % 72);
    assert forall|k: int| 0 <= k < SPARK_DEPTH - 1 implies #[trigger] after.temperature_series(device)[k]
        == m.temperature_series(device)[k + 1] && after.humidity_series(device)[k]
        == m.humidity_series(device)[k + 1] by {
        assert((after.cursor[device] + k) % 72 == (at + (k + 1)) % 72);
        assert((at + (k + 1)) % 72 != at);
    }
    assert((after.cursor[device] + 71) % 72 == at);
    assert forall|other: int| 0 <= other < MAX_DEVICES && other != device implies #[trigger] after.temperature_series(
        other,
    ) == m.temperature_series(other) && after.humidity_series(other) == m.humidity_series(other) by {
        assert(after.temperature_series(other) =~= m.temperature_series(other));
        assert(after.humidity_series(other) =~= m.humidity_series(other));
    }
}

/// The rings start in shape and every push keeps them so.
pub proof fn law_spark_shape_is_kept(m: SparkModel, device: int, temp: Option<i16>, hum: Option<i16>)
    requires
        spark_valid(m),
    ensures
        spark_valid(empty_spark()),
        spark_valid(m.pushed(device, temp, hum)),
{
    let e = empty_spark();
    assert forall|d: int| 0 <= d < MAX_DEVICES implies (#[trigger] e.temperature[d]).len() == SPARK_DEPTH
        && e.humidity[d].len() == SPARK_DEPTH && 0 <= e.cursor[d] < SPARK_DEPTH by {}
    let p = m.pushed(device, temp, hum);
    assert forall|d: int| 0 <= d < MAX_DEVICES implies (#[trigger] p.temperature[d]).len() == SPARK_DEPTH
        && p.humidity[d].len() == SPARK_DEPTH && 0 <= p.cursor[d] < SPARK_DEPTH by {
        assert(m.temperature[d].len() == SPARK_DEPTH);
    }
}

/// Readings within their plausible ranges.
pub open spec fn readings_in_range(r: Readings) -> bool {
    &&& r.temperature_centi matches Some(t) ==> -4000 <= t <= 8500
    &&& r.humidity_centi matches Some(h) ==> h <= 10000
    &&& r.battery_percent matches Some(b) ==> b <= 100
    &&& r.voltage_milli matches Some(v) ==> v <= 4000
}

proof fn lemma_walk_in_range(acc: Readings, rest: Seq<u8>)
    requires
        readings_in_range(acc),
    ensures
        walk(acc, rest) matches Ok(p) ==> readings_in_range(p.readings),
    decreases rest.len(),
{
    if rest.len() > 0 {
        let id = rest[0];
        let tail = rest.drop_first();
        if id == 0x00 || id == 0x10 || id == 0x11 {
            if tail.len() >= 1 {
                lemma_walk_in_range(acc, tail.skip(1));
            }
        } else if id == 0x01 {
            if tail.len() >= 1 && tail[0] <= 100 {
                lemma_walk_in_range(Readings { battery_percent: Some(tail[0]), ..acc }, tail.skip(1));
            }
        } else if id == 0x02 || id == 0x03 || id == 0x0C {
            if tail.len() >= 2 {
                let w = crate::parse::le_u16(tail[0], tail[1]);
                let t = w as i16;
                if id == 0x02 && -4000 <= t <= 8500 {
                    lemma_walk_in_range(Readings { temperature_centi: Some(t), ..acc }, tail.skip(2));
                }
                if id == 0x03 && w <= 10000 {
                    lemma_walk_in_range(Readings { humidity_centi: Some(w), ..acc }, tail.skip(2));
                }
                if id == 0x0C && w <= 4000 {
                    lemma_walk_in_range(Readings { voltage_milli: Some(w), ..acc }, tail.skip(2));
                }
            }
        } else if id == 0x3E {
            if tail.len() >= 4 {
                lemma_walk_in_range(acc, tail.skip(4));
            }
        }
    }
}

/// Every reading a frame yields is within its plausible range (-40..85 °C,
/// 0..100 %, battery 0..100 %, 0..4 V), so the humidity always fits the
/// `i16` sparkline ring; and only a BTHome v2 `device_info` parses at all.
pub proof fn law_parsed_readings_are_in_range(device_info: u8, payload: Seq<u8>)
    ensures
        spec_parse(device_info, payload) matches Ok(p) ==> readings_in_range(p.readings),
        (device_info >> 5u8) != 2 ==> spec_parse(device_info, payload) == Err::<Parsed, ParseError>(
            ParseError::NotBthomeV2,
        ),
{
    lemma_walk_in_range(no_readings(), payload);
}

/// Readings come only from authenticated frames when a bindkey is
/// configured: an advert yields readings for such a device only if its
/// frame is marked encrypted and opens under the bindkey; and a device
/// without a bindkey never takes readings from a frame marked encrypted.
pub proof fn law_readings_need_the_configured_authentication(
    bindkey: Option<[u8; 16]>,
    mac: Seq<u8>,
    adv: Seq<u8>,
)
    ensures
        advert_outcome(bindkey, mac, adv) is Ok ==> (fcd2_from(adv, 0) matches Some(svc) && svc.len()
            > 0 && frame_is_encrypted(svc[0]) == (bindkey is Some)),
        (bindkey is Some && advert_outcome(bindkey, mac, adv) is Ok) ==> (fcd2_from(adv, 0) matches Some(
            svc,
        ) && frame_open(bindkey->0@, mac, svc[0], svc.drop_first()) is Some),
{
}

/// Proleptic Gregorian `(year, month, day)` to days since 1970-01-01: the
/// inverse conversion, counted through 400-year eras.
pub open spec fn days_from_civil(y: int, m: int, d: int) -> int {
    let yy = if m <= 2 { y - 1 } else { y };
    let era = yy / 400;
    let yoe = yy - era * 400;
    let mp = if m > 2 { m - 3 } else { m + 9 };
    let doy = (153 * mp + 2) / 5 + d - 1;
    let doe = yoe * 365 + yoe / 4 - yoe / 100 + doy;
    era * 146097 + doe - 719468
}

/// Longest a month can be: 29 days for February, 30 for April, June,
/// September and November, 31 otherwise.
pub open spec fn longest_month(m: int) -> int {
    if m == 2 {
        29
    } else if m == 4 || m == 6 || m == 9 || m == 11 {
        30
    } else {
        31
    }
}

/// The date of a day count is a real calendar position that counts back to
/// the same day: month 1..=12, a day within that month's length, February 29
/// only in leap years, and converting the date back to days gives the count
/// it came from.
pub proof fn law_civil_date_round_trips(days: int)
    ensures
        1 <= civil_of_days(days).1 <= 12,
        1 <= civil_of_days(days).2 <= longest_month(civil_of_days(days).1),
        civil_of_days(days).1 == 2 && civil_of_days(days).2 == 29 ==> is_leap_year(
            civil_of_days(days).0,
        ),
        days_from_civil(civil_of_days(days).0, civil_of_days(days).1, civil_of_days(days).2) == days,
{
    let z = days + 719468;
    let era = z / 146097;
    let doe = z % 146097;
    crate::logring::lemma_era_bounds(doe);
    let yoe = crate::logring::year_of_era(doe);
    let y = yoe + era * 400;
    vstd::arithmetic::div_mod::lemma_fundamental_div_mod_converse(y, 400, era, yoe);
    vstd::arithmetic::div_mod::lemma_fundamental_div_mod(z, 146097);
    let c = civil_of_days(days);
    if c.1 == 2 && c.2 == 29 {
        assert(crate::logring::day_of_year(doe) == 365);
        crate::logring::lemma_day_365_precedes_a_leap_year(doe);
        let next = yoe + 1;
        assert(c.0 == next + era * 400);
        vstd::arithmetic::div_mod::lemma_mod_multiples_vanish(era * 100, next, 4);
        vstd::arithmetic::div_mod::lemma_mod_multiples_vanish(era * 4, next, 100);
        vstd::arithmetic::div_mod::lemma_mod_multiples_vanish(era, next, 400);
        assert(4 * (era * 100) == era * 400 && 100 * (era * 4) == era * 400 && 400 * era == era * 400)
            by (nonlinear_arith);
    }
}

/// Rendering a ring prints its newest line first, then the rest in the
/// same order.
pub proof fn law_render_is_newest_first(lines: Seq<LogLine>, now: Millis, unix_now: Option<u64>)
    requires
        lines.len() > 0,
    ensures
        newest_first(lines, lines.len(), now, unix_now) == line_text(lines.last(), now, unix_now)
            + newest_first(lines.drop_last(), lines.drop_last().len(), now, unix_now),
{
    lemma_newest_first_split(lines, lines.len(), now, unix_now);
}

proof fn lemma_newest_first_split(lines: Seq<LogLine>, k: nat, now: Millis, unix_now: Option<u64>)
    requires
        1 <= k <= lines.len(),
    ensures
        newest_first(lines, k, now, unix_now) == line_text(lines.last(), now, unix_now)
            + newest_first(lines.drop_last(), (k - 1) as nat, now, unix_now),
    decreases k,
{
    if k > 1 {
        lemma_newest_first_split(lines, (k - 1) as nat, now, unix_now);
        let d = lines.drop_last();
        assert(d[d.len() - (k - 1)] == lines[lines.len() - k]);
        assert(newest_first(lines, k, now, unix_now) =~= line_text(lines.last(), now, unix_now)
            + newest_first(d, (k - 1) as nat, now, unix_now));
    } else {
        assert(newest_first(lines, 0, now, unix_now) =~= Seq::<u8>::empty());
        assert(newest_first(lines.drop_last(), 0, now, unix_now) =~= Seq::<u8>::empty());
        assert(newest_first(lines, 1, now, unix_now) == newest_first(lines, 0, now, unix_now)
            + line_text(lines[lines.len() - 1], now, unix_now));
        assert(newest_first(lines, 1, now, unix_now) =~= line_text(lines.last(), now, unix_now));
    }
}

/// The ring holds the most recent lines, at most `LOG_LINES` of them: a
/// push appends the line as the newest, and drops the oldest only once
/// `LOG_LINES` are held.
pub proof fn law_ring_keeps_the_latest_lines(lines: Seq<LogLine>, line: LogLine)
    requires
        lines.len() <= LOG_LINES,
    ensures
        ring_pushed(lines, line).len() <= LOG_LINES,
        ring_pushed(lines, line).last() == line,
        lines.len() < LOG_LINES ==> ring_pushed(lines, line).drop_last() == lines,
        lines.len() == LOG_LINES ==> ring_pushed(lines, line).drop_last() == lines.drop_first(),
{
    assert(lines.push(line).drop_last() =~= lines);
    assert(lines.drop_first().push(line).drop_last() =~= lines.drop_first());
}

/// Reconnect backoff doubles per failed attempt, from 1 s up to the 60 s
/// cap, and never leaves `1..=60`; an up link resets it to 1 s.
pub proof fn law_backoff_doubles_up_to_the_cap(w: WifiBackoff, now: Millis, up: bool)
    requires
        1 <= w.backoff_secs <= BACKOFF_CAP_SECS,
    ensures
        1 <= w.supervised(now, up).backoff_secs <= BACKOFF_CAP_SECS,
        up ==> w.supervised(now, up).backoff_secs == 1,
        w.reconnects(now, up) ==> w.supervised(now, up).backoff_secs == (if 2 * w.backoff_secs
            > BACKOFF_CAP_SECS {
            BACKOFF_CAP_SECS as int
        } else {
            2 * w.backoff_secs
        }),
        w.reconnects(now, up) ==> w.supervised(now, up).next_attempt.0 == sat_add(
            now.0 as int,
            w.backoff_secs * 1000,
        ),
{
}

/// Validation never waits past the deadline and never comes before a
/// minute of uptime; in between it waits for radio evidence.
pub proof fn law_validation_window(uptime_secs: u64, radio_evidence: bool)
    ensures
        uptime_secs >= 600 ==> validation_due(uptime_secs, radio_evidence),
        uptime_secs < 60 ==> !validation_due(uptime_secs, radio_evidence),
        60 <= uptime_secs < 600 ==> validation_due(uptime_secs, radio_evidence) == radio_evidence,
{
}

/// Publishing an RSSI and reading it back gives the same value, and an
/// unassociated station reads back as unassociated (0 dBm does not occur).
pub proof fn law_rssi_reads_back(rssi: Option<i8>)
    requires
        rssi != Some(0i8),
    ensures
        rssi_of_slot(rssi_slot(rssi)) == rssi,
{
}

/// Whole seconds survive the trip through milliseconds, wherever the
/// milliseconds fit a `u64`.
pub proof fn law_seconds_round_trip(secs: u64)
    requires
        secs * 1000 <= u64::MAX,
    ensures
        secs_to_millis(secs) / 1000 == secs,
{
}

/// While an upload streams, neither deliberate restart fires: the Wi-Fi
/// giveup is off and the wedge verdict is never `Wedged`.
pub proof fn law_upload_suppresses_both_restarts(
    wifi: WifiBackoff,
    wedge: WedgeModel,
    now: Millis,
    newest: Option<Millis>,
    unknown_total: u64,
    window: Millis,
    giveup: Millis,
)
    ensures
        !wifi_gives_up(wifi, now, giveup, true),
        wedge.verdict(now, newest, unknown_total, true, window) != WedgeVerdict::Wedged,
{
}

proof fn lemma_boundary_is_a_boundary(b: Seq<u8>, n: nat)
    ensures
        boundary_at_or_below(b, n) <= n,
        boundary_at_or_below(b, n) == 0 || vstd::utf8::is_char_boundary(
            b,
            boundary_at_or_below(b, n) as int,
        ),
    decreases n,
{
    if n > 0 && !vstd::utf8::is_char_boundary(b, n as int) {
        lemma_boundary_is_a_boundary(b, (n - 1) as nat);
    }
}

/// A stored log line is a prefix of the message of at most
/// `LOG_LINE_BYTES` bytes, and is valid UTF-8 whenever the message was:
/// truncation never splits a character.
pub proof fn law_stored_line_stays_utf8(msg: Seq<u8>)
    ensures
        slot_bytes(msg).len() <= crate::LOG_LINE_BYTES,
        msg.len() <= crate::LOG_LINE_BYTES ==> slot_bytes(msg) == msg,
        slot_bytes(msg) == msg.subrange(0, slot_bytes(msg).len() as int),
        vstd::utf8::valid_utf8(msg) ==> vstd::utf8::valid_utf8(slot_bytes(msg)),
{
    if msg.len() > crate::LOG_LINE_BYTES {
        let n = boundary_at_or_below(msg, crate::LOG_LINE_BYTES as nat);
        lemma_boundary_is_a_boundary(msg, crate::LOG_LINE_BYTES as nat);
        if vstd::utf8::valid_utf8(msg) {
            if n == 0 {
                assert(msg.subrange(0, 0) =~= Seq::<u8>::empty());
                assert(vstd::utf8::valid_utf8(Seq::<u8>::empty()));
            } else {
                vstd::utf8::valid_utf8_split(msg, n as int);
            }
        }
    } else {
        assert(msg.subrange(0, msg.len() as int) =~= msg);
    }
}

/// The object ids the walk knows.
pub open spec fn is_known_object(id: u8) -> bool {
    id == 0x00 || id == 0x01 || id == 0x02 || id == 0x03 || id == 0x0C || id == 0x10 || id == 0x11
        || id == 0x3E
}

/// A walk from `acc` over `rest` that stops at an unknown id stops at an
/// id outside the whitelist, and the same walk over `rest + extra` agrees.
pub open spec fn stops_cleanly(acc: Readings, rest: Seq<u8>, extra: Seq<u8>) -> bool {
    match walk(acc, rest) {
        Ok(p) => match p.unknown_object {
            Some(id) => !is_known_object(id) && walk(acc, rest + extra) == walk(acc, rest),
            None => true,
        },
        Err(_) => true,
    }
}

proof fn lemma_walk_stops_at_unknown(acc: Readings, rest: Seq<u8>, extra: Seq<u8>)
    ensures
        stops_cleanly(acc, rest, extra),
    decreases rest.len(),
{
    if rest.len() > 0 {
        let id = rest[0];
        let tail = rest.drop_first();
        let tx = tail + extra;
        assert((rest + extra)[0] == id);
        assert((rest + extra).drop_first() =~= tx);
        if tail.len() >= 1 {
            assert(tx[0] == tail[0]);
            assert(tx.skip(1) =~= tail.skip(1) + extra);
        }
        if tail.len() >= 2 {
            assert(tx[1] == tail[1]);
            assert(tx.skip(2) =~= tail.skip(2) + extra);
        }
        if tail.len() >= 4 {
            assert(tx.skip(4) =~= tail.skip(4) + extra);
        }
        if !is_known_object(id) {
            assert(stops_cleanly(acc, rest, extra));
        } else if id == 0x00 || id == 0x10 || id == 0x11 {
            if tail.len() >= 1 {
                lemma_walk_stops_at_unknown(acc, tail.skip(1), extra);
                assert(walk(acc, rest) == walk(acc, tail.skip(1)));
                assert(walk(acc, rest + extra) == walk(acc, tail.skip(1) + extra));
            }
        } else if id == 0x01 {
            if tail.len() >= 1 {
                let acc2 = Readings { battery_percent: Some(tail[0]), ..acc };
                lemma_walk_stops_at_unknown(acc2, tail.skip(1), extra);
                if tail[0] <= 100 {
                    assert(walk(acc, rest) == walk(acc2, tail.skip(1)));
                    assert(walk(acc, rest + extra) == walk(acc2, tail.skip(1) + extra));
                }
            }
        } else if id == 0x02 || id == 0x03 || id == 0x0C {
            if tail.len() >= 2 {
                let w = crate::parse::le_u16(tail[0], tail[1]);
                if id == 0x02 {
                    let acc2 = Readings { temperature_centi: Some(w as i16), ..acc };
                    lemma_walk_stops_at_unknown(acc2, tail.skip(2), extra);
                    assert(crate::parse::le_u16(tx[0], tx[1]) == w);
                    let t = w as i16;
                    if -4000 <= t <= 8500 {
                        assert(walk(acc, rest) == walk(acc2, tail.skip(2)));
                        assert(walk(acc, rest + extra) == walk(acc2, tx.skip(2)));
                    }
                } else if id == 0x03 {
                    let acc2 = Readings { humidity_centi: Some(w), ..acc };
                    lemma_walk_stops_at_unknown(acc2, tail.skip(2), extra);
                    assert(crate::parse::le_u16(tx[0], tx[1]) == w);
                    if w <= 10000 {
                        assert(walk(acc, rest) == walk(acc2, tail.skip(2)));
                        assert(walk(acc, rest + extra) == walk(acc2, tx.skip(2)));
                    }
                } else {
                    let acc2 = Readings { voltage_milli: Some(w), ..acc };
                    lemma_walk_stops_at_unknown(acc2, tail.skip(2), extra);
                    assert(crate::parse::le_u16(tx[0], tx[1]) == w);
                    if w <= 4000 {
                        assert(walk(acc, rest) == walk(acc2, tail.skip(2)));
                        assert(walk(acc, rest + extra) == walk(acc2, tx.skip(2)));
                    }
                }
            }
        } else if id == 0x3E {
            if tail.len() >= 4 {
                lemma_walk_stops_at_unknown(acc, tail.skip(4), extra);
                assert(walk(acc, rest) == walk(acc, tail.skip(4)));
                assert(walk(acc, rest + extra) == walk(acc, tx.skip(4)));
            }
        }
    }
}

/// A walk that stops at an unknown object stopped at an id outside the
/// whitelist, and whatever follows it is never read: appending bytes to
/// the payload changes nothing.
pub proof fn law_walk_stops_at_the_first_unknown_id(device_info: u8, payload: Seq<u8>, extra: Seq<u8>)
    ensures
        match spec_parse(device_info, payload) {
            Ok(p) => match p.unknown_object {
                Some(id) => !is_known_object(id) && spec_parse(device_info, payload + extra)
                    == spec_parse(device_info, payload),
                None => true,
            },
            Err(_) => true,
        },
{
    lemma_walk_stops_at_unknown(no_readings(), payload, extra);
}

/// The ring after pushing `lines` in order into an empty ring.
pub open spec fn pushed_all(lines: Seq<LogLine>) -> Seq<LogLine>
    decreases lines.len(),
{
    if lines.len() == 0 {
        Seq::empty()
    } else {
        ring_pushed(pushed_all(lines.drop_last()), lines.last())
    }
}

/// The last `min(k, LOG_LINES)` of `k` lines, oldest first.
pub open spec fn latest_lines(lines: Seq<LogLine>) -> Seq<LogLine> {
    if lines.len() <= LOG_LINES {
        lines
    } else {
        lines.skip(lines.len() - LOG_LINES)
    }
}

/// After any number of pushes into an empty ring, it holds exactly the
/// last `LOG_LINES` of the pushed lines (all of them when fewer), oldest
/// first; rendering then prints them newest first.
pub proof fn law_ring_holds_the_last_pushes(lines: Seq<LogLine>)
    ensures
        pushed_all(lines) == latest_lines(lines),
        pushed_all(lines).len() == (if lines.len() <= LOG_LINES {
            lines.len()
        } else {
            LOG_LINES as nat
        }),
    decreases lines.len(),
{
    if lines.len() > 0 {
        let prev = lines.drop_last();
        law_ring_holds_the_last_pushes(prev);
        if prev.len() < LOG_LINES {
            assert(prev.push(lines.last()) =~= lines);
        } else {
            let kept = prev.skip(prev.len() - LOG_LINES);
            assert(kept.len() == LOG_LINES);
            assert(kept.drop_first().push(lines.last()) =~= lines.skip(lines.len() - LOG_LINES));
        }
    }
}

/// One wedge check's inputs: the instant, the newest beacon instant and
/// the stray-advert total.
pub type WedgeInput = (Millis, Option<Millis>, u64);

/// The liveness inputs seen before check `k`: those of check `k - 1`, or
/// the boot values `(None, 0)` before the first.
pub open spec fn inputs_before(ins: Seq<WedgeInput>, k: int) -> (Option<Millis>, u64) {
    if k <= 0 {
        (None, 0)
    } else {
        (ins[k - 1].1, ins[k - 1].2)
    }
}

/// Index of the last check whose liveness inputs differ from the check
/// before it (or from the boot values), if any.
pub open spec fn last_change(ins: Seq<WedgeInput>) -> Option<int>
    decreases ins.len(),
{
    if ins.len() == 0 {
        None
    } else if (ins.last().1, ins.last().2) != inputs_before(ins, ins.len() - 1) {
        Some(ins.len() - 1)
    } else {
        last_change(ins.drop_last())
    }
}

/// The detector after a boot followed by the checks `ins`, in order.
pub open spec fn checked_all(ins: Seq<WedgeInput>) -> WedgeModel
    decreases ins.len(),
{
    if ins.len() == 0 {
        wedge_at_boot()
    } else {
        checked_all(ins.drop_last()).checked(ins.last().0, ins.last().1, ins.last().2)
    }
}

proof fn lemma_newest_first_concat(lines: Seq<LogLine>, k: nat, now: Millis, unix_now: Option<u64>)
    requires
        k <= lines.len(),
    ensures
        newest_first(lines, k, now, unix_now) == concat_all(
            Seq::new(k, |j: int| line_text(lines[lines.len() - 1 - j], now, unix_now)),
        ),
    decreases k,
{
    if k > 0 {
        lemma_newest_first_concat(lines, (k - 1) as nat, now, unix_now);
        let f = |j: int| line_text(lines[lines.len() - 1 - j], now, unix_now);
        assert(Seq::new(k, f).drop_last() =~= Seq::new((k - 1) as nat, f));
    }
}

/// Rendering after any number of pushes into an empty ring prints the
/// last `min(k, LOG_LINES)` pushed lines, newest first: the `j`-th printed
/// line is the `j`-th newest pushed; older ones are gone, and nothing is
/// printed when nothing was pushed.
pub proof fn law_render_after_pushes(lines: Seq<LogLine>, now: Millis, unix_now: Option<u64>)
    ensures
        newest_first(pushed_all(lines), pushed_all(lines).len(), now, unix_now) == concat_all(
            Seq::new(
                if lines.len() <= LOG_LINES { lines.len() } else { LOG_LINES as nat },
                |j: int| line_text(lines[lines.len() - 1 - j], now, unix_now),
            ),
        ),
{
    law_ring_holds_the_last_pushes(lines);
    let held = pushed_all(lines);
    lemma_newest_first_concat(held, held.len(), now, unix_now);
    let m: nat = if lines.len() <= LOG_LINES { lines.len() } else { LOG_LINES as nat };
    assert(Seq::new(held.len(), |j: int| line_text(held[held.len() - 1 - j], now, unix_now))
        =~= Seq::new(m, |j: int| line_text(lines[lines.len() - 1 - j], now, unix_now)));
}

/// Over a whole history of checks from boot: the detector is armed exactly
/// when some check saw either input change (a decrease counts), silence
/// since boot leaves it as it booted, and its window runs from the last
/// such change. Upload flags and windows never enter the state, so an
/// upload only masks the verdicts of the calls it is passed to.
pub proof fn law_wedge_over_a_history(ins: Seq<WedgeInput>)
    ensures
        checked_all(ins).armed == (last_change(ins) is Some),
        last_change(ins) is None ==> checked_all(ins) == wedge_at_boot(),
        last_change(ins) matches Some(a) ==> (0 <= a < ins.len() && checked_all(ins).last_activity
            == ins[a].0),
        (checked_all(ins).last_newest_seen, checked_all(ins).last_unknown_total) == inputs_before(
            ins,
            ins.len() as int,
        ),
    decreases ins.len(),
{
    if ins.len() > 0 {
        let pre = ins.drop_last();
        law_wedge_over_a_history(pre);
        assert(inputs_before(pre, pre.len() as int) == inputs_before(ins, ins.len() - 1));
        match last_change(pre) {
            Some(a) => {
                assert(pre[a] == ins[a]);
            },
            None => {},
        }
    }
}

/// The verdict of the last of a history of checks from boot: `NotArmed`
/// while nothing ever changed, else `Wedged` exactly when no upload is
/// flagged on this call and the window has passed since the last change.
pub proof fn law_wedge_verdict_over_a_history(ins: Seq<WedgeInput>, ota_in_progress: bool, window: Millis)
    requires
        ins.len() > 0,
    ensures
        checked_all(ins.drop_last()).verdict(
            ins.last().0,
            ins.last().1,
            ins.last().2,
            ota_in_progress,
            window,
        ) == (match last_change(ins) {
            None => WedgeVerdict::NotArmed,
            Some(a) => if !ota_in_progress && sat_sub((ins.last().0).0 as int, (ins[a].0).0 as int)
                >= window.0 {
                WedgeVerdict::Wedged
            } else {
                WedgeVerdict::Healthy
            },
        }),
{
    law_wedge_over_a_history(ins);
}

/// How a JSON reader turns the body of a string literal back into bytes:
/// `\"`, `\\`, `\/` and the short escapes `\b \f \n \r \t` stand for one
/// byte each, as does `\u00XX` below `\u0080`; any other byte stands for
/// itself.
pub open spec fn json_unescape(b: Seq<u8>) -> Seq<u8>
    decreases b.len(),
{
    if b.len() == 0 {
        Seq::empty()
    } else if b[0] == 92 && b.len() >= 2 {
        let e = b[1];
        if e == 117 && b.len() >= 6 && b[2] == 48 && b[3] == 48 && is_hex(b[4]) && is_hex(b[5])
            && 16 * hex_value(b[4]) + hex_value(b[5]) < 128 {
            seq![(16 * hex_value(b[4]) + hex_value(b[5])) as u8] + json_unescape(b.skip(6))
        } else if e == 34 || e == 92 || e == 47 {
            seq![e] + json_unescape(b.skip(2))
        } else if e == 98 {
            seq![8u8] + json_unescape(b.skip(2))
        } else if e == 102 {
            seq![12u8] + json_unescape(b.skip(2))
        } else if e == 110 {
            seq![10u8] + json_unescape(b.skip(2))
        } else if e == 114 {
            seq![13u8] + json_unescape(b.skip(2))
        } else if e == 116 {
            seq![9u8] + json_unescape(b.skip(2))
        } else {
            seq![b[0]] + json_unescape(b.skip(1))
        }
    } else {
        seq![b[0]] + json_unescape(b.skip(1))
    }
}

/// The bytes a JSON reader gets from a string literal: its body unescaped.
pub open spec fn json_string_value(lit: Seq<u8>) -> Option<Seq<u8>> {
    if lit.len() >= 2 && lit[0] == 34 && lit.last() == 34 {
        Some(json_unescape(lit.subrange(1, lit.len() - 1)))
    } else {
        None
    }
}

proof fn lemma_json_body_front(s: Seq<u8>)
    requires
        s.len() > 0,
    ensures
        json_body(s) == json_byte(s[0]) + json_body(s.drop_first()),
    decreases s.len(),
{
    if s.len() == 1 {
        assert(s.drop_last() =~= Seq::<u8>::empty());
        assert(s.drop_first() =~= Seq::<u8>::empty());
        assert(json_body(s.drop_last()) == Seq::<u8>::empty());
        assert(json_body(s.drop_first()) == Seq::<u8>::empty());
        assert(s.last() == s[0]);
        assert(json_body(s) == json_body(s.drop_last()) + json_byte(s.last()));
        assert(json_body(s) =~= json_byte(s[0]));
    } else {
        lemma_json_body_front(s.drop_last());
        assert(s.drop_last().drop_first() =~= s.drop_first().drop_last());
        assert(s.drop_first().last() == s.last());
        assert(s.drop_last()[0] == s[0]);
        assert(json_body(s) =~= json_byte(s[0]) + json_body(s.drop_first()));
    }
}

proof fn lemma_unescape_byte(c: u8, rest: Seq<u8>)
    ensures
        json_unescape(json_byte(c) + rest) == seq![c] + json_unescape(rest),
{
    let b = json_byte(c) + rest;
    if c == 34 || c == 92 {
        assert(b.skip(2) =~= rest);
    } else if c < 32 {
        let h1 = crate::render::hex_digit((c / 16) as int);
        let h2 = crate::render::hex_digit((c % 16) as int);
        assert(b[4] == h1 && b[5] == h2);
        assert(is_hex(h1) && is_hex(h2));
        assert(hex_value(h1) == c / 16 && hex_value(h2) == c % 16);
        assert(b.skip(6) =~= rest);
    } else {
        assert(b.skip(1) =~= rest);
    }
}

proof fn lemma_unescape_body(s: Seq<u8>)
    ensures
        json_unescape(json_body(s)) == s,
    decreases s.len(),
{
    if s.len() > 0 {
        lemma_json_body_front(s);
        lemma_unescape_byte(s[0], json_body(s.drop_first()));
        lemma_unescape_body(s.drop_first());
        assert(seq![s[0]] + s.drop_first() =~= s);
    }
}

/// Escaping round-trips: a JSON reader gets back exactly the bytes of the
/// string that was written as a literal.
pub proof fn law_json_string_round_trips(s: &str)
    ensures
        json_string_value(json_str(s)) == Some(bytes_of(s)),
{
    reveal(json_str);
    let lit = json_str(s);
    assert(lit.subrange(1, lit.len() - 1) =~= json_body(bytes_of(s)));
    lemma_unescape_body(bytes_of(s));
}

/// The parts, one after another.
pub open spec fn concat_all(parts: Seq<Seq<u8>>) -> Seq<u8>
    decreases parts.len(),
{
    if parts.len() == 0 {
        Seq::empty()
    } else {
        concat_all(parts.drop_last()) + parts.last()
    }
}

/// The items as the elements of a JSON array: comma separated, in order.
pub open spec fn json_list(items: Seq<Seq<u8>>) -> Seq<u8> {
    concat_all(Seq::new(items.len(), |i: int| sep(i) + items[i]))
}

proof fn lemma_per_device_concat(m: RegistryModel, n: int, f: spec_fn(int, Device, DeviceModel) -> Seq<u8>)
    requires
        0 <= n,
    ensures
        per_device(m, n, f) == concat_all(Seq::new(n as nat, |i: int| f(i, m.devices[i], m.states[i]))),
    decreases n,
{
    if n > 0 {
        lemma_per_device_concat(m, n - 1, f);
        assert(Seq::new(n as nat, |i: int| f(i, m.devices[i], m.states[i])).drop_last() =~= Seq::new(
            (n - 1) as nat,
            |i: int| f(i, m.devices[i], m.states[i]),
        ));
    }
}

proof fn lemma_concat_ext(a: Seq<Seq<u8>>, b: Seq<Seq<u8>>)
    requires
        a.len() == b.len(),
        forall|i: int| 0 <= i < a.len() ==> a[i] == b[i],
    ensures
        concat_all(a) == concat_all(b),
{
    assert(a =~= b);
}

/// The readings body lists exactly one object per configured device, in
/// configuration order, between the sync flag and the health block; each
/// object holds every key whatever the device's state.
pub proof fn law_readings_lists_every_device_in_order(
    m: RegistryModel,
    h: crate::render::Health,
    now: Millis,
    unix_now: Option<u64>,
)
    ensures
        readings_body(m, h, now, unix_now) == bytes_of("{\"time_synced\":") + bool_text(
            unix_now is Some,
        ) + bytes_of(",\"devices\":[") + json_list(
            Seq::new(
                m.devices.len(),
                |i: int| device_entry(now, 0, m.devices[i], m.states[i]),
            ),
        ) + health_block(m, h),
{
    reveal(device_entries);
    let n = m.devices.len() as int;
    let f = |i: int, dev: Device, st: DeviceModel| device_entry(now, i, dev, st);
    lemma_per_device_concat(m, n, f);
    let items = Seq::new(m.devices.len(), |i: int| device_entry(now, 0, m.devices[i], m.states[i]));
    assert forall|i: int| 0 <= i < n implies #[trigger] f(i, m.devices[i], m.states[i]) == sep(i)
        + items[i] by {
        assert(device_entry(now, i, m.devices[i], m.states[i]) =~= sep(i) + device_entry(
            now,
            0,
            m.devices[i],
            m.states[i],
        ));
    }
    lemma_concat_ext(
        Seq::new(n as nat, |i: int| f(i, m.devices[i], m.states[i])),
        Seq::new(items.len(), |i: int| sep(i) + items[i]),
    );
}

/// A series as the elements of a JSON array: one value per sample, `null`
/// for a missing one.
pub proof fn law_series_is_one_value_per_sample(s: Seq<Option<i16>>)
    ensures
        series_text(s) == json_list(Seq::new(s.len(), |k: int| sample_text(s[k]))),
    decreases s.len(),
{
    if s.len() > 0 {
        law_series_is_one_value_per_sample(s.drop_last());
        let items = Seq::new(s.len(), |k: int| sample_text(s[k]));
        let d = s.drop_last();
        let items2 = Seq::new(d.len(), |k: int| sample_text(d[k]));
        assert(Seq::new(items.len(), |i: int| sep(i) + items[i]).drop_last() =~= Seq::new(
            items2.len(),
            |i: int| sep(i) + items2[i],
        ));
    }
}

/// One device's object in the history body: its name and both series.
pub open spec fn history_object(sp: SparkModel, k: int, dev: Device) -> Seq<u8> {
    bytes_of("{\"name\":") + json_str(dev.name) + bytes_of(",\"temperature\":[") + series_text(
        sp.temperature_series(k),
    ) + bytes_of("],\"humidity\":[") + series_text(sp.humidity_series(k)) + bytes_of("]}")
}

/// The history body lists exactly one object per configured device, online
/// or not, in configuration order; and every series in it holds exactly
/// `SPARK_DEPTH` values.
pub proof fn law_history_lists_every_device_in_order(m: RegistryModel, sp: SparkModel, interval_seconds: u64, i: int)
    requires
        spark_valid(sp),
    ensures
        history_body(m, sp, interval_seconds) == bytes_of("{\"interval_seconds\":") + crate::text::dec(
            interval_seconds as nat,
        ) + bytes_of(",\"depth\":") + crate::text::dec(SPARK_DEPTH as nat) + bytes_of(
            ",\"devices\":[",
        ) + json_list(Seq::new(m.devices.len(), |k: int| history_object(sp, k, m.devices[k])))
            + bytes_of("]}"),
        sp.temperature_series(i).len() == SPARK_DEPTH,
        sp.humidity_series(i).len() == SPARK_DEPTH,
{
    let n = m.devices.len() as int;
    let f = |k: int, dev: Device, st: DeviceModel| history_entry(sp, k, dev);
    lemma_per_device_concat(m, n, f);
    let items = Seq::new(m.devices.len(), |k: int| history_object(sp, k, m.devices[k]));
    assert forall|k: int| 0 <= k < n implies #[trigger] f(k, m.devices[k], m.states[k]) == sep(k)
        + items[k] by {
        assert(history_entry(sp, k, m.devices[k]) =~= sep(k) + history_object(sp, k, m.devices[k]));
    }
    lemma_concat_ext(
        Seq::new(n as nat, |k: int| f(k, m.devices[k], m.states[k])),
        Seq::new(items.len(), |k: int| sep(k) + items[k]),
    );
    if !(0 <= i < MAX_DEVICES) {
        assert(empty_series().len() == SPARK_DEPTH);
    }
}

/// The gauge families that gap: every per-device family but the seen flag
/// and the beacon counters.
pub open spec fn is_gauge_family(f: DeviceFamily) -> bool {
    f != DeviceFamily::Seen && f != DeviceFamily::Beacons
}

/// Counters never gap and gauges do: an offline device has no sample in any
/// gauge family, while every configured device, online or not, has its
/// `seen` sample and all three beacon counters; a family's samples are its
/// devices' lines in configuration order.
pub proof fn law_counters_never_gap(m: RegistryModel, f: DeviceFamily, now: Millis, unix_now: Option<u64>, i: int)
    requires
        0 <= i < m.devices.len(),
    ensures
        family_lines(m, f, now, unix_now) == concat_all(
            Seq::new(
                m.devices.len(),
                |k: int| device_line(f, now, unix_now, m.devices[k], m.states[k]),
            ),
        ),
        is_gauge_family(f) && !m.states[i].online ==> device_line(
            f,
            now,
            unix_now,
            m.devices[i],
            m.states[i],
        ) == Seq::<u8>::empty(),
        device_line(DeviceFamily::Seen, now, unix_now, m.devices[i], m.states[i]) == sample_prefix(
            SEEN,
            m.devices[i].name,
        ) + flag_text(m.states[i].online) + bytes_of("\n"),
        device_line(DeviceFamily::Beacons, now, unix_now, m.devices[i], m.states[i]) == beacon_line(
            m.devices[i].name,
            "ok",
            m.states[i].counters.ok,
        ) + beacon_line(m.devices[i].name, "decrypt_fail", m.states[i].counters.decrypt_fail)
            + beacon_line(m.devices[i].name, "parse_fail", m.states[i].counters.parse_fail),
{
    reveal(family_lines);
    lemma_per_device_concat(
        m,
        m.devices.len() as int,
        |k: int, dev: Device, st: DeviceModel| device_line(f, now, unix_now, dev, st),
    );
    assert(Seq::new(
        m.devices.len(),
        |k: int|
            (|k: int, dev: Device, st: DeviceModel| device_line(f, now, unix_now, dev, st))(
                k,
                m.devices[k],
                m.states[k],
            ),
    ) =~= Seq::new(m.devices.len(), |k: int| device_line(f, now, unix_now, m.devices[k], m.states[k])));
}

/// Only the last-update samples and the time-synced flag read the wall
/// clock: every other device family, every counter family and the rest of
/// the health families are the same whatever `unix_now` is; without a
/// synced clock the last-update family has its metadata and no sample.
pub proof fn law_only_timestamps_read_the_wall_clock(
    m: RegistryModel,
    h: crate::render::Health,
    f: DeviceFamily,
    now: Millis,
    u1: Option<u64>,
    u2: Option<u64>,
)
    ensures
        f != DeviceFamily::LastUpdate ==> device_family(m, f, now, u1) == device_family(m, f, now, u2),
        device_family(m, DeviceFamily::LastUpdate, now, None) == family_header(DeviceFamily::LastUpdate),
        counter_families(m, now, u1) == counter_families(m, now, u2),
        (u1 is Some) == (u2 is Some) ==> health_families(h, u1) == health_families(h, u2),
        identity_gauges(h, u1).subrange(0, single_gauge(
            TIME_SYNCED,
            "Whether SNTP has synced wall-clock time (1) or not (0).",
            "gauge",
            flag_text(u1 is Some),
        ).len() as int) == single_gauge(
            TIME_SYNCED,
            "Whether SNTP has synced wall-clock time (1) or not (0).",
            "gauge",
            flag_text(u1 is Some),
        ),
{
    reveal(family_lines);
    reveal(counter_families);
    reveal(health_families);
    if f != DeviceFamily::LastUpdate {
        let g1 = |k: int, dev: Device, st: DeviceModel| device_line(f, now, u1, dev, st);
        let g2 = |k: int, dev: Device, st: DeviceModel| device_line(f, now, u2, dev, st);
        lemma_per_device_concat(m, m.devices.len() as int, g1);
        lemma_per_device_concat(m, m.devices.len() as int, g2);
        lemma_concat_ext(
            Seq::new(m.devices.len(), |k: int| g1(k, m.devices[k], m.states[k])),
            Seq::new(m.devices.len(), |k: int| g2(k, m.devices[k], m.states[k])),
        );
    }
    let g0 = |k: int, dev: Device, st: DeviceModel| device_line(DeviceFamily::LastUpdate, now, None, dev, st);
    lemma_per_device_concat(m, m.devices.len() as int, g0);
    lemma_concat_all_empty(Seq::new(m.devices.len(), |k: int| g0(k, m.devices[k], m.states[k])));
    assert(device_family(m, DeviceFamily::LastUpdate, now, None) =~= family_header(DeviceFamily::LastUpdate));
    let b1 = |k: int, dev: Device, st: DeviceModel| device_line(DeviceFamily::Beacons, now, u1, dev, st);
    let b2 = |k: int, dev: Device, st: DeviceModel| device_line(DeviceFamily::Beacons, now, u2, dev, st);
    lemma_per_device_concat(m, m.devices.len() as int, b1);
    lemma_per_device_concat(m, m.devices.len() as int, b2);
    lemma_concat_ext(
        Seq::new(m.devices.len(), |k: int| b1(k, m.devices[k], m.states[k])),
        Seq::new(m.devices.len(), |k: int| b2(k, m.devices[k], m.states[k])),
    );
    let sg = single_gauge(
        TIME_SYNCED,
        "Whether SNTP has synced wall-clock time (1) or not (0).",
        "gauge",
        flag_text(u1 is Some),
    );
    assert(identity_gauges(h, u1).subrange(0, sg.len() as int) =~= sg);
}

proof fn lemma_concat_all_empty(parts: Seq<Seq<u8>>)
    requires
        forall|i: int| 0 <= i < parts.len() ==> parts[i] == Seq::<u8>::empty(),
    ensures
        concat_all(parts) == Seq::<u8>::empty(),
    decreases parts.len(),
{
    if parts.len() > 0 {
        lemma_concat_all_empty(parts.drop_last());
        assert(concat_all(parts) =~= Seq::<u8>::empty());
    }
}

/// Name, help text and type of the `k`-th family of the exposition.
pub open spec fn metric_meta(k: int) -> (&'static str, &'static str, &'static str) {
    if k == 0 {
        (TEMPERATURE, "Sensor temperature in degrees Celsius.", "gauge")
    } else if k == 1 {
        (HUMIDITY, "Sensor relative humidity in percent.", "gauge")
    } else if k == 2 {
        (BATTERY, "Sensor-reported battery level in percent.", "gauge")
    } else if k == 3 {
        (VOLTAGE, "Sensor battery voltage in volts.", "gauge")
    } else if k == 4 {
        (RSSI, "Signal strength of the sensor's last beacon in dBm.", "gauge")
    } else if k == 5 {
        (LAST_UPDATE, "Unix timestamp of the sensor's last successful reading.", "gauge")
    } else if k == 6 {
        (SEEN, "Whether the sensor is currently online (1) or timed out (0).", "gauge")
    } else if k == 7 {
        (UPTIME, "Seconds since the harvester booted.", "gauge")
    } else if k == 8 {
        (FREE_HEAP, "Current free heap in bytes.", "gauge")
    } else if k == 9 {
        (MIN_FREE_HEAP, "Lowest free heap since boot in bytes.", "gauge")
    } else if k == 10 {
        (WIFI_RSSI, "Wi-Fi access point signal strength in dBm.", "gauge")
    } else if k == 11 {
        (TIME_SYNCED, "Whether SNTP has synced wall-clock time (1) or not (0).", "gauge")
    } else if k == 12 {
        (BUILD_INFO, "Build identity; the value is always 1.", "gauge")
    } else if k == 13 {
        (REBOOTS, "Reboots by reason, persisted across restarts.", "counter")
    } else if k == 14 {
        (BEACONS, "Beacons received per device by outcome.", "counter")
    } else if k == 15 {
        (UNKNOWN_ADVERTS, "Adverts received from MACs not in the device list.", "counter")
    } else {
        (UNKNOWN_OBJECTS, "Beacons whose object walk stopped at an unrecognised object id.", "counter")
    }
}

/// The device family rendered as the `k`-th family, for `k` in `0..7` and `14`.
pub open spec fn metric_device_family(k: int) -> DeviceFamily {
    if k == 0 {
        DeviceFamily::Temperature
    } else if k == 1 {
        DeviceFamily::Humidity
    } else if k == 2 {
        DeviceFamily::Battery
    } else if k == 3 {
        DeviceFamily::Voltage
    } else if k == 4 {
        DeviceFamily::Rssi
    } else if k == 5 {
        DeviceFamily::LastUpdate
    } else if k == 6 {
        DeviceFamily::Seen
    } else {
        DeviceFamily::Beacons
    }
}

/// The sample lines of the `k`-th family: each starts with the family's
/// name (the per-device lines, one family pass over all devices).
pub open spec fn metric_samples(
    k: int,
    m: RegistryModel,
    h: crate::render::Health,
    now: Millis,
    unix_now: Option<u64>,
) -> Seq<u8> {
    if k < 7 || k == 14 {
        family_lines(m, metric_device_family(k), now, unix_now)
    } else if k == 7 {
        bytes_of(UPTIME) + bytes_of(" ") + dec(h.uptime_seconds as nat) + bytes_of("\n")
    } else if k == 8 {
        bytes_of(FREE_HEAP) + bytes_of(" ") + dec(h.free_heap_bytes as nat) + bytes_of("\n")
    } else if k == 9 {
        bytes_of(MIN_FREE_HEAP) + bytes_of(" ") + dec(h.min_free_heap_bytes as nat) + bytes_of("\n")
    } else if k == 10 {
        match h.wifi_rssi_dbm {
            Some(r) => bytes_of(WIFI_RSSI) + bytes_of(" ") + signed_dec(r as int) + bytes_of("\n"),
            None => Seq::empty(),
        }
    } else if k == 11 {
        bytes_of(TIME_SYNCED) + bytes_of(" ") + flag_text(unix_now is Some) + bytes_of("\n")
    } else if k == 12 {
        bytes_of(BUILD_INFO) + bytes_of("{version=\"") + label_body(bytes_of(h.version)) + bytes_of(
            "\",git_sha=\"",
        ) + label_body(bytes_of(h.git_sha)) + bytes_of("\"} 1") + bytes_of("\n")
    } else if k == 13 {
        crate::render::prometheus::reboot_lines(h.reboots)
    } else if k == 15 {
        bytes_of(UNKNOWN_ADVERTS) + bytes_of(" ") + dec(m.unknown_adverts as nat) + bytes_of("\n")
    } else {
        bytes_of(UNKNOWN_OBJECTS) + bytes_of(" ") + dec(m.parse_unknown_object as nat) + bytes_of("\n")
    }
}

/// The `k`-th family of the exposition: `# HELP` then `# TYPE`, then its samples.
pub open spec fn metric_block(
    k: int,
    m: RegistryModel,
    h: crate::render::Health,
    now: Millis,
    unix_now: Option<u64>,
) -> Seq<u8> {
    family_text(metric_meta(k).0, metric_meta(k).1, metric_meta(k).2) + metric_samples(
        k,
        m,
        h,
        now,
        unix_now,
    )
}

proof fn lemma_concat_append(a: Seq<Seq<u8>>, b: Seq<Seq<u8>>)
    ensures
        concat_all(a + b) == concat_all(a) + concat_all(b),
    decreases b.len(),
{
    if b.len() == 0 {
        assert(a + b =~= a);
        assert(concat_all(a) + concat_all(b) =~= concat_all(a));
    } else {
        lemma_concat_append(a, b.drop_last());
        assert((a + b).drop_last() =~= a + b.drop_last());
        assert(concat_all(a + b) =~= concat_all(a) + concat_all(b));
    }
}

proof fn lemma_sensor_blocks(m: RegistryModel, h: crate::render::Health, now: Millis, unix_now: Option<u64>)
    ensures
        concat_all(Seq::new(7, |k: int| metric_block(k, m, h, now, unix_now))) == sensor_families(
            m,
            now,
            unix_now,
        ),
{
    reveal(sensor_families);
    reveal_with_fuel(concat_all, 8);
    let b = Seq::new(7, |k: int| metric_block(k, m, h, now, unix_now));
    assert(concat_all(b) =~= sensor_families(m, now, unix_now));
}

proof fn lemma_concat_new_last(n: int, f: spec_fn(int) -> Seq<u8>)
    requires
        n > 0,
    ensures
        concat_all(Seq::new(n as nat, f)) == concat_all(Seq::new((n - 1) as nat, f)) + f(n - 1),
{
    assert(Seq::new(n as nat, f).drop_last() =~= Seq::new((n - 1) as nat, f));
}

proof fn lemma_resource_blocks(m: RegistryModel, h: crate::render::Health, now: Millis, unix_now: Option<u64>)
    ensures
        concat_all(Seq::new(4, |k: int| metric_block(k + 7, m, h, now, unix_now))) == resource_gauges(h),
{
    let f = |k: int| metric_block(k + 7, m, h, now, unix_now);
    lemma_concat_new_last(4, f);
    lemma_concat_new_last(3, f);
    lemma_concat_new_last(2, f);
    lemma_concat_new_last(1, f);
    assert(concat_all(Seq::new(0, f)) =~= Seq::<u8>::empty());
    reveal(single_gauge);
    assert(f(0) =~= single_gauge(
        UPTIME,
        "Seconds since the harvester booted.",
        "gauge",
        dec(h.uptime_seconds as nat),
    ));
    assert(f(1) =~= single_gauge(
        FREE_HEAP,
        "Current free heap in bytes.",
        "gauge",
        dec(h.free_heap_bytes as nat),
    ));
    assert(f(2) =~= single_gauge(
        MIN_FREE_HEAP,
        "Lowest free heap since boot in bytes.",
        "gauge",
        dec(h.min_free_heap_bytes as nat),
    ));
    assert(concat_all(Seq::new(4, f)) =~= resource_gauges(h));
}

proof fn lemma_identity_blocks(m: RegistryModel, h: crate::render::Health, now: Millis, unix_now: Option<u64>)
    ensures
        metric_block(11, m, h, now, unix_now) + metric_block(12, m, h, now, unix_now)
            == identity_gauges(h, unix_now),
{
    reveal(single_gauge);
    assert(metric_block(11, m, h, now, unix_now) + metric_block(12, m, h, now, unix_now)
        =~= identity_gauges(h, unix_now));
}

proof fn lemma_health_blocks(m: RegistryModel, h: crate::render::Health, now: Millis, unix_now: Option<u64>)
    ensures
        concat_all(Seq::new(7, |k: int| metric_block(k + 7, m, h, now, unix_now))) == health_families(
            h,
            unix_now,
        ),
{
    let f = |k: int| metric_block(k + 7, m, h, now, unix_now);
    lemma_concat_new_last(7, f);
    lemma_concat_new_last(6, f);
    lemma_concat_new_last(5, f);
    lemma_resource_blocks(m, h, now, unix_now);
    lemma_identity_blocks(m, h, now, unix_now);
    assert(f(4) == metric_block(11, m, h, now, unix_now));
    assert(f(5) == metric_block(12, m, h, now, unix_now));
    assert(f(6) =~= reboot_family(h));
    reveal(health_families);
    let r = resource_gauges(h);
    let a = metric_block(11, m, h, now, unix_now);
    let b = metric_block(12, m, h, now, unix_now);
    assert(r + a + b =~= r + (a + b));
    assert(concat_all(Seq::new(7, f)) =~= health_families(h, unix_now));
}

proof fn lemma_counter_blocks(m: RegistryModel, h: crate::render::Health, now: Millis, unix_now: Option<u64>)
    ensures
        concat_all(Seq::new(3, |k: int| metric_block(k + 14, m, h, now, unix_now))) == counter_families(
            m,
            now,
            unix_now,
        ),
{
    reveal(counter_families);
    reveal(single_gauge);
    reveal_with_fuel(concat_all, 4);
    let b = Seq::new(3, |k: int| metric_block(k + 14, m, h, now, unix_now));
    assert(concat_all(b) =~= counter_families(m, now, unix_now));
}

/// The exposition is metric-major: exactly seventeen families, in a fixed
/// order (sensor gauges, harvester health, counters), each its `# HELP` and
/// `# TYPE` lines followed by all of its samples, none interleaved.
pub proof fn law_exposition_is_metric_major(
    m: RegistryModel,
    h: crate::render::Health,
    now: Millis,
    unix_now: Option<u64>,
)
    ensures
        metrics_body(m, h, now, unix_now) == concat_all(
            Seq::new(17, |k: int| metric_block(k, m, h, now, unix_now)),
        ),
{
    let all = Seq::new(17, |k: int| metric_block(k, m, h, now, unix_now));
    let s1 = Seq::new(7, |k: int| metric_block(k, m, h, now, unix_now));
    let s2 = Seq::new(7, |k: int| metric_block(k + 7, m, h, now, unix_now));
    let s3 = Seq::new(3, |k: int| metric_block(k + 14, m, h, now, unix_now));
    assert(all =~= s1 + s2 + s3);
    lemma_concat_append(s1 + s2, s3);
    lemma_concat_append(s1, s2);
    lemma_sensor_blocks(m, h, now, unix_now);
    lemma_health_blocks(m, h, now, unix_now);
    lemma_counter_blocks(m, h, now, unix_now);
}


/// Without a synced wall clock the last-update family is its `# HELP` and
/// `# TYPE` lines alone, so the `seen` family's metadata follows them
/// directly; the time-synced sample reads `1` exactly when the clock is
/// synced.
pub proof fn law_unsynced_clock_leaves_last_update_empty(
    m: RegistryModel,
    h: crate::render::Health,
    now: Millis,
    unix_now: Option<u64>,
)
    ensures
        metric_block(5, m, h, now, None) == family_text(
            LAST_UPDATE,
            "Unix timestamp of the sensor's last successful reading.",
            "gauge",
        ),
        metric_samples(11, m, h, now, unix_now) == bytes_of(TIME_SYNCED) + bytes_of(" ") + (if unix_now is Some {
            seq![49u8]
        } else {
            seq![48u8]
        }) + bytes_of("\n"),
{
    law_only_timestamps_read_the_wall_clock(m, h, DeviceFamily::LastUpdate, now, None, None);
    let header = family_header(DeviceFamily::LastUpdate);
    let lines = family_lines(m, DeviceFamily::LastUpdate, now, None);
    assert(header + lines == header);
    assert(lines.len() == 0);
    assert(lines =~= Seq::<u8>::empty());
    assert(metric_block(5, m, h, now, None) =~= header);
}

/// Length of month `m` of year `y`: February has 29 days in leap years.
pub open spec fn days_in_month(y: int, m: int) -> int {
    if m == 2 {
        if is_leap_year(y) { 29 } else { 28 }
    } else {
        longest_month(m)
    }
}

/// The calendar day after `(y, m, d)`.
pub open spec fn next_date(c: (int, int, int)) -> (int, int, int) {
    if c.2 < days_in_month(c.0, c.1) {
        (c.0, c.1, c.2 + 1)
    } else if c.1 < 12 {
        (c.0, c.1 + 1, 1)
    } else {
        (c.0 + 1, 1, 1)
    }
}

/// Length of the `mp`-th month of a March-based year whose February has `feb` days.
spec fn march_month_len(mp: int, feb: int) -> int {
    if mp == 11 {
        feb
    } else if mp == 1 || mp == 3 || mp == 6 || mp == 8 {
        30
    } else {
        31
    }
}

/// Whether the March-based year of era `n` ends on a February 29.
spec fn era_leap(n: int) -> bool {
    n % 4 == 0 && (n % 100 != 0 || n == 400)
}

#[verifier::spinoff_prover]
#[verifier::rlimit(60)]
proof fn lemma_year_step(doe: int)
    requires
        0 <= doe < 146096,
    ensures
        ({
            let yoe = year_of_era(doe);
            let doy = day_of_year(doe);
            let last = if era_leap(yoe + 1) { 365int } else { 364int };
            &&& doy <= last
            &&& doy < last ==> year_of_era(doe + 1) == yoe && day_of_year(doe + 1) == doy + 1
            &&& doy == last ==> year_of_era(doe + 1) == yoe + 1 && day_of_year(doe + 1) == 0
        }),
{
    lemma_era_bounds(doe);
    lemma_era_bounds(doe + 1);
}

#[verifier::spinoff_prover]
proof fn lemma_month_step(doy: int, feb: int)
    requires
        0 <= doy <= 336 + feb,
        feb == 28 || feb == 29,
    ensures
        ({
            let mp = march_month(doy);
            let d = doy - (153 * mp + 2) / 5 + 1;
            &&& 0 <= mp <= 11
            &&& 1 <= d <= march_month_len(mp, feb)
            &&& doy < 336 + feb ==> (if d < march_month_len(mp, feb) {
                march_month(doy + 1) == mp && (doy + 1) - (153 * mp + 2) / 5 + 1 == d + 1
            } else {
                march_month(doy + 1) == mp + 1 && (doy + 1) - (153 * (mp + 1) + 2) / 5 + 1 == 1
            })
        }),
{
    if doy < 31 {
        assert(march_month(doy) == 0);
        assert(doy + 1 < 31 ==> march_month(doy + 1) == 0);
        assert(doy + 1 == 31 ==> march_month(doy + 1) == 1);
    } else if doy < 61 {
        assert(march_month(doy) == 1);
        assert(doy + 1 < 61 ==> march_month(doy + 1) == 1);
        assert(doy + 1 == 61 ==> march_month(doy + 1) == 2);
    } else if doy < 92 {
        assert(march_month(doy) == 2);
        assert(doy + 1 < 92 ==> march_month(doy + 1) == 2);
        assert(doy + 1 == 92 ==> march_month(doy + 1) == 3);
    } else if doy < 122 {
        assert(march_month(doy) == 3);
        assert(doy + 1 < 122 ==> march_month(doy + 1) == 3);
        assert(doy + 1 == 122 ==> march_month(doy + 1) == 4);
    } else if doy < 153 {
        assert(march_month(doy) == 4);
        assert(doy + 1 < 153 ==> march_month(doy + 1) == 4);
        assert(doy + 1 == 153 ==> march_month(doy + 1) == 5);
    } else if doy < 184 {
        assert(march_month(doy) == 5);
        assert(doy + 1 < 184 ==> march_month(doy + 1) == 5);
        assert(doy + 1 == 184 ==> march_month(doy + 1) == 6);
    } else if doy < 214 {
        assert(march_month(doy) == 6);
        assert(doy + 1 < 214 ==> march_month(doy + 1) == 6);
        assert(doy + 1 == 214 ==> march_month(doy + 1) == 7);
    } else if doy < 245 {
        assert(march_month(doy) == 7);
        assert(doy + 1 < 245 ==> march_month(doy + 1) == 7);
        assert(doy + 1 == 245 ==> march_month(doy + 1) == 8);
    } else if doy < 275 {
        assert(march_month(doy) == 8);
        assert(doy + 1 < 275 ==> march_month(doy + 1) == 8);
        assert(doy + 1 == 275 ==> march_month(doy + 1) == 9);
    } else if doy < 306 {
        assert(march_month(doy) == 9);
        assert(doy + 1 < 306 ==> march_month(doy + 1) == 9);
        assert(doy + 1 == 306 ==> march_month(doy + 1) == 10);
    } else if doy < 337 {
        assert(march_month(doy) == 10);
        assert(doy + 1 < 337 ==> march_month(doy + 1) == 10);
        assert(doy + 1 == 337 ==> march_month(doy + 1) == 11);
    } else {
        assert(march_month(doy) == 11);
        assert(doy + 1 <= 365 ==> march_month(doy + 1) == 11);
    }
}

proof fn lemma_era_leap_is_leap_year(era: int, n: int)
    requires
        1 <= n <= 400,
    ensures
        is_leap_year(n + era * 400) == era_leap(n),
{
    vstd::arithmetic::div_mod::lemma_mod_multiples_vanish(era * 100, n, 4);
    vstd::arithmetic::div_mod::lemma_mod_multiples_vanish(era * 4, n, 100);
    vstd::arithmetic::div_mod::lemma_mod_multiples_vanish(era, n, 400);
    assert(4 * (era * 100) == era * 400 && 100 * (era * 4) == era * 400 && 400 * era == era * 400)
        by (nonlinear_arith);
}

/// Every date lies within its month, and the day count after a date is
/// the next calendar day: the next day of the month, else the first of the
/// next month, else January 1 of the next year.
pub proof fn law_next_day_is_the_next_date(days: int)
    ensures
        1 <= civil_of_days(days).2 <= days_in_month(civil_of_days(days).0, civil_of_days(days).1),
        civil_of_days(days + 1) == next_date(civil_of_days(days)),
{
    let z = days + 719468;
    let era = z / 146097;
    let doe = z % 146097;
    vstd::arithmetic::div_mod::lemma_fundamental_div_mod(z, 146097);
    lemma_era_bounds(doe);
    let yoe = year_of_era(doe);
    let doy = day_of_year(doe);
    let feb: int = if era_leap(yoe + 1) { 29 } else { 28 };
    lemma_era_leap_is_leap_year(era, yoe + 1);
    let c = civil_of_days(days);
    if doe < 146096 {
        vstd::arithmetic::div_mod::lemma_fundamental_div_mod_converse(z + 1, 146097, era, doe + 1);
        lemma_year_step(doe);
        lemma_month_step(doy, feb);
        if doy < 336 + feb {
            lemma_month_step(doy + 1, feb);
        } else {
            lemma_era_bounds(doe + 1);
            lemma_month_step(0, if era_leap(yoe + 2) { 29 } else { 28 });
        }
    } else {
        vstd::arithmetic::div_mod::lemma_fundamental_div_mod_converse(z + 1, 146097, era + 1, 0);
        assert(yoe == 399 && doy == 365);
        lemma_month_step(doy, feb);
        lemma_month_step(0, 28);
    }
}

/// No line feed anywhere in `s`.
pub open spec fn no_line_feed(s: Seq<u8>) -> bool {
    forall|i: int| 0 <= i < s.len() ==> #[trigger] s[i] != 10u8
}

/// `l` is one sample line of the family `name`: the name, then `{` (labels
/// follow) or a space (the value follows), more text without a line break,
/// and the closing line feed.
pub open spec fn is_sample_of(name: Seq<u8>, l: Seq<u8>) -> bool {
    &&& l.len() >= name.len() + 2
    &&& l.subrange(0, name.len() as int) == name
    &&& (l[name.len() as int] == 123u8 || l[name.len() as int] == 32u8)
    &&& l.last() == 10u8
    &&& forall|i: int| 0 <= i < l.len() - 1 ==> #[trigger] l[i] != 10u8
}

proof fn lemma_family_names_have_no_line_feed()
    ensures
        no_line_feed(bytes_of(TEMPERATURE)),
        no_line_feed(bytes_of(HUMIDITY)),
        no_line_feed(bytes_of(BATTERY)),
        no_line_feed(bytes_of(VOLTAGE)),
        no_line_feed(bytes_of(RSSI)),
        no_line_feed(bytes_of(LAST_UPDATE)),
        no_line_feed(bytes_of(SEEN)),
        no_line_feed(bytes_of(UPTIME)),
        no_line_feed(bytes_of(FREE_HEAP)),
        no_line_feed(bytes_of(MIN_FREE_HEAP)),
        no_line_feed(bytes_of(WIFI_RSSI)),
        no_line_feed(bytes_of(TIME_SYNCED)),
        no_line_feed(bytes_of(BUILD_INFO)),
        no_line_feed(bytes_of(REBOOTS)),
        no_line_feed(bytes_of(BEACONS)),
        no_line_feed(bytes_of(UNKNOWN_ADVERTS)),
        no_line_feed(bytes_of(UNKNOWN_OBJECTS)),
{
    broadcast use vstd::string::is_ascii_spec_bytes;
    reveal_strlit("ble_sensor_temperature_celsius");
    assert(vstd::string::is_ascii("ble_sensor_temperature_celsius"));
    reveal_strlit("ble_sensor_humidity_percent");
    assert(vstd::string::is_ascii("ble_sensor_humidity_percent"));
    reveal_strlit("ble_sensor_battery_percent");
    assert(vstd::string::is_ascii("ble_sensor_battery_percent"));
    reveal_strlit("ble_sensor_voltage_volts");
    assert(vstd::string::is_ascii("ble_sensor_voltage_volts"));
    reveal_strlit("ble_sensor_rssi_dbm");
    assert(vstd::string::is_ascii("ble_sensor_rssi_dbm"));
    reveal_strlit("ble_sensor_last_update_timestamp_seconds");
    assert(vstd::string::is_ascii("ble_sensor_last_update_timestamp_seconds"));
    reveal_strlit("ble_sensor_seen");
    assert(vstd::string::is_ascii("ble_sensor_seen"));
    reveal_strlit("ble_harvester_uptime_seconds");
    assert(vstd::string::is_ascii("ble_harvester_uptime_seconds"));
    reveal_strlit("ble_harvester_free_heap_bytes");
    assert(vstd::string::is_ascii("ble_harvester_free_heap_bytes"));
    reveal_strlit("ble_harvester_min_free_heap_bytes");
    assert(vstd::string::is_ascii("ble_harvester_min_free_heap_bytes"));
    reveal_strlit("ble_harvester_wifi_rssi_dbm");
    assert(vstd::string::is_ascii("ble_harvester_wifi_rssi_dbm"));
    reveal_strlit("ble_harvester_time_synced");
    assert(vstd::string::is_ascii("ble_harvester_time_synced"));
    reveal_strlit("ble_harvester_build_info");
    assert(vstd::string::is_ascii("ble_harvester_build_info"));
    reveal_strlit("ble_harvester_reboot_total");
    assert(vstd::string::is_ascii("ble_harvester_reboot_total"));
    reveal_strlit("ble_harvester_beacons_total");
    assert(vstd::string::is_ascii("ble_harvester_beacons_total"));
    reveal_strlit("ble_harvester_unknown_adverts_total");
    assert(vstd::string::is_ascii("ble_harvester_unknown_adverts_total"));
    reveal_strlit("ble_harvester_parse_unknown_object_total");
    assert(vstd::string::is_ascii("ble_harvester_parse_unknown_object_total"));
}

proof fn lemma_sample_literals_have_no_line_feed()
    ensures
        no_line_feed(bytes_of("{device=\"")),
        no_line_feed(bytes_of("\"} ")),
        no_line_feed(bytes_of("\",result=\"")),
        no_line_feed(bytes_of("ok")),
        no_line_feed(bytes_of("decrypt_fail")),
        no_line_feed(bytes_of("parse_fail")),
        no_line_feed(bytes_of("{reason=\"")),
        no_line_feed(bytes_of("panic")),
        no_line_feed(bytes_of("wifi")),
        no_line_feed(bytes_of("ble_wedge")),
        no_line_feed(bytes_of("ota")),
        no_line_feed(bytes_of("power")),
        no_line_feed(bytes_of("wdt")),
        no_line_feed(bytes_of("unknown")),
        no_line_feed(bytes_of("{version=\"")),
        no_line_feed(bytes_of("\",git_sha=\"")),
        no_line_feed(bytes_of("\"} 1")),
        bytes_of("\n") == seq![10u8],
        bytes_of(" ") == seq![32u8],
        bytes_of("{device=\"").len() > 0 && bytes_of("{device=\"")[0] == 123u8,
        bytes_of("{reason=\"").len() > 0 && bytes_of("{reason=\"")[0] == 123u8,
        bytes_of("{version=\"").len() > 0 && bytes_of("{version=\"")[0] == 123u8,
{
    broadcast use vstd::string::is_ascii_spec_bytes;
    reveal_strlit("{device=\"");
    assert(vstd::string::is_ascii("{device=\""));
    reveal_strlit("\"} ");
    assert(vstd::string::is_ascii("\"} "));
    reveal_strlit("\",result=\"");
    assert(vstd::string::is_ascii("\",result=\""));
    reveal_strlit("ok");
    assert(vstd::string::is_ascii("ok"));
    reveal_strlit("decrypt_fail");
    assert(vstd::string::is_ascii("decrypt_fail"));
    reveal_strlit("parse_fail");
    assert(vstd::string::is_ascii("parse_fail"));
    reveal_strlit("{reason=\"");
    assert(vstd::string::is_ascii("{reason=\""));
    reveal_strlit("panic");
    assert(vstd::string::is_ascii("panic"));
    reveal_strlit("wifi");
    assert(vstd::string::is_ascii("wifi"));
    reveal_strlit("ble_wedge");
    assert(vstd::string::is_ascii("ble_wedge"));
    reveal_strlit("ota");
    assert(vstd::string::is_ascii("ota"));
    reveal_strlit("power");
    assert(vstd::string::is_ascii("power"));
    reveal_strlit("wdt");
    assert(vstd::string::is_ascii("wdt"));
    reveal_strlit("unknown");
    assert(vstd::string::is_ascii("unknown"));
    reveal_strlit("{version=\"");
    assert(vstd::string::is_ascii("{version=\""));
    reveal_strlit("\",git_sha=\"");
    assert(vstd::string::is_ascii("\",git_sha=\""));
    reveal_strlit("\"} 1");
    assert(vstd::string::is_ascii("\"} 1"));
    reveal_strlit("\n");
    assert(vstd::string::is_ascii("\n"));
    reveal_strlit(" ");
    assert(vstd::string::is_ascii(" "));
}

proof fn lemma_dec_has_no_line_feed(n: nat)
    ensures
        no_line_feed(dec(n)),
    decreases n,
{
    if n >= 10 {
        lemma_dec_has_no_line_feed(n / 10);
    }
}

proof fn lemma_padded_has_no_line_feed(n: nat, width: nat)
    ensures
        no_line_feed(padded(n, width)),
    decreases width,
{
    if width > 0 {
        lemma_padded_has_no_line_feed(n / 10, (width - 1) as nat);
    }
}

proof fn lemma_label_body_has_no_line_feed(s: Seq<u8>)
    ensures
        no_line_feed(label_body(s)),
    decreases s.len(),
{
    if s.len() > 0 {
        lemma_label_body_has_no_line_feed(s.drop_last());
    }
}

proof fn lemma_numbers_have_no_line_feed(v: int, n: nat, scale: nat, digits: nat)
    ensures
        no_line_feed(dec(n)),
        no_line_feed(signed_dec(v)),
        no_line_feed(scaled(v, scale, digits)),
{
    lemma_dec_has_no_line_feed(n);
    lemma_dec_has_no_line_feed(if v < 0 { (-v) as nat } else { v as nat });
    let magnitude: nat = if v < 0 { (-v) as nat } else { v as nat };
    let integer: nat = if scale == 0 { 0 } else { magnitude / scale };
    let fraction: nat = if scale == 0 { 0 } else { magnitude % scale };
    lemma_dec_has_no_line_feed(integer);
    lemma_padded_has_no_line_feed(fraction, digits);
}

proof fn lemma_no_line_feed_add(a: Seq<u8>, b: Seq<u8>)
    requires
        no_line_feed(a),
        no_line_feed(b),
    ensures
        no_line_feed(a + b),
{
    assert forall|i: int| 0 <= i < (a + b).len() implies #[trigger] (a + b)[i] != 10u8 by {
        if i < a.len() {
            assert((a + b)[i] == a[i]);
        } else {
            assert((a + b)[i] == b[i - a.len()]);
        }
    }
}

proof fn lemma_sample_line(name: Seq<u8>, open: Seq<u8>, body: Seq<u8>)
    requires
        open.len() > 0,
        open[0] == 123u8 || open[0] == 32u8,
        no_line_feed(name),
        no_line_feed(open),
        no_line_feed(body),
    ensures
        is_sample_of(name, name + open + body + seq![10u8]),
{
    let l = name + open + body + seq![10u8];
    lemma_no_line_feed_add(name, open);
    lemma_no_line_feed_add(name + open, body);
    assert(l.subrange(0, name.len() as int) =~= name);
    assert(l[name.len() as int] == open[0]);
    assert forall|i: int| 0 <= i < l.len() - 1 implies #[trigger] l[i] != 10u8 by {
        assert(l[i] == (name + open + body)[i]);
    }
}

proof fn lemma_prefixed_sample(name: &str, device: &str, value: Seq<u8>)
    requires
        no_line_feed(bytes_of(name)),
        no_line_feed(value),
    ensures
        is_sample_of(bytes_of(name), sample_prefix(name, device) + value + bytes_of("\n")),
{
    lemma_sample_literals_have_no_line_feed();
    lemma_label_body_has_no_line_feed(bytes_of(device));
    let open = bytes_of("{device=\"");
    let body = label_body(bytes_of(device)) + bytes_of("\"} ") + value;
    lemma_no_line_feed_add(label_body(bytes_of(device)), bytes_of("\"} "));
    lemma_no_line_feed_add(label_body(bytes_of(device)) + bytes_of("\"} "), value);
    lemma_sample_line(bytes_of(name), open, body);
    assert(sample_prefix(name, device) + value + bytes_of("\n") =~= bytes_of(name) + open + body + seq![
        10u8,
    ]);
}

proof fn lemma_plain_sample(name: &str, value: Seq<u8>)
    requires
        no_line_feed(bytes_of(name)),
        no_line_feed(value),
    ensures
        is_sample_of(bytes_of(name), bytes_of(name) + bytes_of(" ") + value + bytes_of("\n")),
{
    lemma_sample_literals_have_no_line_feed();
    lemma_sample_line(bytes_of(name), bytes_of(" "), value);
}

proof fn lemma_beacon_sample(device: &str, result: &str, count: u32)
    requires
        no_line_feed(bytes_of(result)),
    ensures
        is_sample_of(bytes_of(BEACONS), beacon_line(device, result, count)),
{
    lemma_sample_literals_have_no_line_feed();
    lemma_family_names_have_no_line_feed();
    lemma_label_body_has_no_line_feed(bytes_of(device));
    lemma_dec_has_no_line_feed(count as nat);
    let open = bytes_of("{device=\"");
    let p1 = label_body(bytes_of(device)) + bytes_of("\",result=\"");
    let p2 = p1 + bytes_of(result);
    let p3 = p2 + bytes_of("\"} ");
    let body = p3 + dec(count as nat);
    lemma_no_line_feed_add(label_body(bytes_of(device)), bytes_of("\",result=\""));
    lemma_no_line_feed_add(p1, bytes_of(result));
    lemma_no_line_feed_add(p2, bytes_of("\"} "));
    lemma_no_line_feed_add(p3, dec(count as nat));
    lemma_sample_line(bytes_of(BEACONS), open, body);
    assert(beacon_line(device, result, count) =~= bytes_of(BEACONS) + open + body + seq![10u8]);
}

proof fn lemma_reboot_sample(reason: &str, count: u32)
    requires
        no_line_feed(bytes_of(reason)),
    ensures
        is_sample_of(bytes_of(REBOOTS), reboot_line(reason, count)),
{
    lemma_sample_literals_have_no_line_feed();
    lemma_family_names_have_no_line_feed();
    lemma_dec_has_no_line_feed(count as nat);
    let open = bytes_of("{reason=\"");
    let p1 = bytes_of(reason) + bytes_of("\"} ");
    let body = p1 + dec(count as nat);
    lemma_no_line_feed_add(bytes_of(reason), bytes_of("\"} "));
    lemma_no_line_feed_add(p1, dec(count as nat));
    lemma_sample_line(bytes_of(REBOOTS), open, body);
    assert(reboot_line(reason, count) =~= bytes_of(REBOOTS) + open + body + seq![10u8]);
}

/// The name of a per-device family.
pub open spec fn family_name(f: DeviceFamily) -> &'static str {
    match f {
        DeviceFamily::Temperature => TEMPERATURE,
        DeviceFamily::Humidity => HUMIDITY,
        DeviceFamily::Battery => BATTERY,
        DeviceFamily::Voltage => VOLTAGE,
        DeviceFamily::Rssi => RSSI,
        DeviceFamily::LastUpdate => LAST_UPDATE,
        DeviceFamily::Seen => SEEN,
        DeviceFamily::Beacons => BEACONS,
    }
}

/// The sample lines one device contributes to a family: none or one for a
/// gauge, the three outcome counters for the beacon family.
pub open spec fn device_sample_lines(
    f: DeviceFamily,
    now: Millis,
    unix_now: Option<u64>,
    dev: Device,
    st: DeviceModel,
) -> Seq<Seq<u8>> {
    match f {
        DeviceFamily::Beacons => seq![
            beacon_line(dev.name, "ok", st.counters.ok),
            beacon_line(dev.name, "decrypt_fail", st.counters.decrypt_fail),
            beacon_line(dev.name, "parse_fail", st.counters.parse_fail),
        ],
        _ => {
            let l = device_line(f, now, unix_now, dev, st);
            if l.len() == 0 { Seq::empty() } else { seq![l] }
        },
    }
}

/// The sample lines of the first `n` devices of a family, in order.
pub open spec fn family_sample_lines(
    m: RegistryModel,
    f: DeviceFamily,
    now: Millis,
    unix_now: Option<u64>,
    n: int,
) -> Seq<Seq<u8>>
    decreases n,
{
    if n <= 0 {
        Seq::empty()
    } else {
        family_sample_lines(m, f, now, unix_now, n - 1) + device_sample_lines(
            f,
            now,
            unix_now,
            m.devices[n - 1],
            m.states[n - 1],
        )
    }
}

proof fn lemma_device_sample_lines(f: DeviceFamily, now: Millis, unix_now: Option<u64>, dev: Device, st: DeviceModel)
    ensures
        concat_all(device_sample_lines(f, now, unix_now, dev, st)) == device_line(f, now, unix_now, dev, st),
        forall|j: int|
            0 <= j < device_sample_lines(f, now, unix_now, dev, st).len() ==> is_sample_of(
                bytes_of(family_name(f)),
                #[trigger] device_sample_lines(f, now, unix_now, dev, st)[j],
            ),
{
    lemma_family_names_have_no_line_feed();
    lemma_sample_literals_have_no_line_feed();
    let lines = device_sample_lines(f, now, unix_now, dev, st);
    match f {
        DeviceFamily::Beacons => {
            lemma_beacon_sample(dev.name, "ok", st.counters.ok);
            lemma_beacon_sample(dev.name, "decrypt_fail", st.counters.decrypt_fail);
            lemma_beacon_sample(dev.name, "parse_fail", st.counters.parse_fail);
            reveal_with_fuel(concat_all, 4);
            assert(concat_all(lines) =~= device_line(f, now, unix_now, dev, st));
        },
        _ => {
            let l = device_line(f, now, unix_now, dev, st);
            reveal_with_fuel(concat_all, 2);
            if l.len() == 0 {
                assert(concat_all(lines) =~= l);
            } else {
                assert(concat_all(lines) =~= l);
                match f {
                    DeviceFamily::Temperature => {
                        let v = st.readings.temperature_centi->Some_0 as int;
                        lemma_numbers_have_no_line_feed(v, 0, 100, 2);
                        lemma_prefixed_sample(TEMPERATURE, dev.name, crate::fixed::centi(v));
                    },
                    DeviceFamily::Humidity => {
                        let v = st.readings.humidity_centi->Some_0 as int;
                        lemma_numbers_have_no_line_feed(v, 0, 100, 2);
                        lemma_prefixed_sample(HUMIDITY, dev.name, crate::fixed::centi(v));
                    },
                    DeviceFamily::Battery => {
                        let v = st.readings.battery_percent->Some_0 as nat;
                        lemma_numbers_have_no_line_feed(0, v, 1, 0);
                        lemma_prefixed_sample(BATTERY, dev.name, dec(v));
                    },
                    DeviceFamily::Voltage => {
                        let v = st.readings.voltage_milli->Some_0 as int;
                        lemma_numbers_have_no_line_feed(v, 0, 1000, 3);
                        lemma_prefixed_sample(VOLTAGE, dev.name, crate::fixed::milli(v));
                    },
                    DeviceFamily::Rssi => {
                        let v = st.rssi_dbm->Some_0 as int;
                        lemma_numbers_have_no_line_feed(v, 0, 1, 0);
                        lemma_prefixed_sample(RSSI, dev.name, signed_dec(v));
                    },
                    DeviceFamily::LastUpdate => {
                        let v = (unix_now->Some_0 - crate::render::prometheus::age_secs(
                            now,
                            st.last_seen->Some_0,
                        )) as nat;
                        lemma_numbers_have_no_line_feed(0, v, 1, 0);
                        lemma_prefixed_sample(LAST_UPDATE, dev.name, dec(v));
                    },
                    DeviceFamily::Seen => {
                        lemma_prefixed_sample(SEEN, dev.name, flag_text(st.online));
                    },
                    DeviceFamily::Beacons => {},
                }
            }
        },
    }
}

proof fn lemma_family_sample_lines(m: RegistryModel, f: DeviceFamily, now: Millis, unix_now: Option<u64>, n: int)
    requires
        0 <= n,
    ensures
        concat_all(family_sample_lines(m, f, now, unix_now, n)) == per_device(
            m,
            n,
            |i: int, dev: Device, st: DeviceModel| device_line(f, now, unix_now, dev, st),
        ),
        forall|j: int|
            0 <= j < family_sample_lines(m, f, now, unix_now, n).len() ==> is_sample_of(
                bytes_of(family_name(f)),
                #[trigger] family_sample_lines(m, f, now, unix_now, n)[j],
            ),
    decreases n,
{
    if n > 0 {
        lemma_family_sample_lines(m, f, now, unix_now, n - 1);
        let prev = family_sample_lines(m, f, now, unix_now, n - 1);
        let own = device_sample_lines(f, now, unix_now, m.devices[n - 1], m.states[n - 1]);
        lemma_device_sample_lines(f, now, unix_now, m.devices[n - 1], m.states[n - 1]);
        lemma_concat_append(prev, own);
        let all = family_sample_lines(m, f, now, unix_now, n);
        assert(all == prev + own);
        assert forall|j: int| 0 <= j < all.len() implies is_sample_of(
            bytes_of(family_name(f)),
            #[trigger] all[j],
        ) by {
            if j < prev.len() {
                assert(all[j] == prev[j]);
            } else {
                assert(all[j] == own[j - prev.len()]);
            }
        }
    }
}

proof fn lemma_build_info_sample(h: crate::render::Health)
    ensures
        is_sample_of(
            bytes_of(BUILD_INFO),
            bytes_of(BUILD_INFO) + bytes_of("{version=\"") + label_body(bytes_of(h.version)) + bytes_of(
                "\",git_sha=\"",
            ) + label_body(bytes_of(h.git_sha)) + bytes_of("\"} 1") + bytes_of("\n"),
        ),
{
    lemma_family_names_have_no_line_feed();
    lemma_sample_literals_have_no_line_feed();
    lemma_label_body_has_no_line_feed(bytes_of(h.version));
    lemma_label_body_has_no_line_feed(bytes_of(h.git_sha));
    let open = bytes_of("{version=\"");
    let p1 = label_body(bytes_of(h.version)) + bytes_of("\",git_sha=\"");
    let p2 = p1 + label_body(bytes_of(h.git_sha));
    let body = p2 + bytes_of("\"} 1");
    lemma_no_line_feed_add(label_body(bytes_of(h.version)), bytes_of("\",git_sha=\""));
    lemma_no_line_feed_add(p1, label_body(bytes_of(h.git_sha)));
    lemma_no_line_feed_add(p2, bytes_of("\"} 1"));
    lemma_sample_line(bytes_of(BUILD_INFO), open, body);
    assert(bytes_of(BUILD_INFO) + bytes_of("{version=\"") + label_body(bytes_of(h.version)) + bytes_of(
        "\",git_sha=\"",
    ) + label_body(bytes_of(h.git_sha)) + bytes_of("\"} 1") + bytes_of("\n") =~= bytes_of(BUILD_INFO)
        + open + body + seq![10u8]);
}

/// The sample lines of the `k`-th family of the exposition, in order.
pub open spec fn metric_lines(
    k: int,
    m: RegistryModel,
    h: crate::render::Health,
    now: Millis,
    unix_now: Option<u64>,
) -> Seq<Seq<u8>> {
    if k < 7 || k == 14 {
        family_sample_lines(m, metric_device_family(k), now, unix_now, m.devices.len() as int)
    } else if k == 10 && h.wifi_rssi_dbm is None {
        Seq::empty()
    } else if k == 13 {
        seq![
            reboot_line("panic", h.reboots.panic),
            reboot_line("wifi", h.reboots.wifi),
            reboot_line("ble_wedge", h.reboots.ble_wedge),
            reboot_line("ota", h.reboots.ota),
            reboot_line("power", h.reboots.power),
            reboot_line("wdt", h.reboots.wdt),
            reboot_line("unknown", h.reboots.unknown),
        ]
    } else {
        seq![metric_samples(k, m, h, now, unix_now)]
    }
}

/// Every sample of the exposition is a whole line of the family whose
/// `# TYPE` precedes it: the `k`-th family's samples are exactly its sample
/// lines, each starting with the family's name followed by `{` or a space,
/// holding no other line break and ending in a line feed.
#[verifier::spinoff_prover]
#[verifier::rlimit(60)]
pub proof fn law_every_sample_line_names_its_family(
    k: int,
    m: RegistryModel,
    h: crate::render::Health,
    now: Millis,
    unix_now: Option<u64>,
)
    requires
        0 <= k < 17,
    ensures
        concat_all(metric_lines(k, m, h, now, unix_now)) == metric_samples(k, m, h, now, unix_now),
        forall|j: int|
            0 <= j < metric_lines(k, m, h, now, unix_now).len() ==> is_sample_of(
                bytes_of(metric_meta(k).0),
                #[trigger] metric_lines(k, m, h, now, unix_now)[j],
            ),
{
    lemma_family_names_have_no_line_feed();
    lemma_sample_literals_have_no_line_feed();
    let lines = metric_lines(k, m, h, now, unix_now);
    if k < 7 || k == 14 {
        let f = metric_device_family(k);
        reveal(family_lines);
        lemma_family_sample_lines(m, f, now, unix_now, m.devices.len() as int);
        assert(bytes_of(family_name(f)) == bytes_of(metric_meta(k).0));
    } else if k == 13 {
        lemma_reboot_sample("panic", h.reboots.panic);
        lemma_reboot_sample("wifi", h.reboots.wifi);
        lemma_reboot_sample("ble_wedge", h.reboots.ble_wedge);
        lemma_reboot_sample("ota", h.reboots.ota);
        lemma_reboot_sample("power", h.reboots.power);
        lemma_reboot_sample("wdt", h.reboots.wdt);
        lemma_reboot_sample("unknown", h.reboots.unknown);
        reveal_with_fuel(concat_all, 8);
        assert(concat_all(lines) =~= metric_samples(k, m, h, now, unix_now));
    } else if k == 10 && h.wifi_rssi_dbm is None {
        assert(concat_all(lines) =~= metric_samples(k, m, h, now, unix_now));
    } else {
        reveal_with_fuel(concat_all, 2);
        assert(concat_all(lines) =~= metric_samples(k, m, h, now, unix_now));
        if k == 7 {
            lemma_numbers_have_no_line_feed(0, h.uptime_seconds as nat, 1, 0);
            lemma_plain_sample(UPTIME, dec(h.uptime_seconds as nat));
        } else if k == 8 {
            lemma_numbers_have_no_line_feed(0, h.free_heap_bytes as nat, 1, 0);
            lemma_plain_sample(FREE_HEAP, dec(h.free_heap_bytes as nat));
        } else if k == 9 {
            lemma_numbers_have_no_line_feed(0, h.min_free_heap_bytes as nat, 1, 0);
            lemma_plain_sample(MIN_FREE_HEAP, dec(h.min_free_heap_bytes as nat));
        } else if k == 10 {
            let r = h.wifi_rssi_dbm->Some_0 as int;
            lemma_numbers_have_no_line_feed(r, 0, 1, 0);
            lemma_plain_sample(WIFI_RSSI, signed_dec(r));
        } else if k == 11 {
            lemma_plain_sample(TIME_SYNCED, flag_text(unix_now is Some));
        } else if k == 12 {
            lemma_build_info_sample(h);
        } else if k == 15 {
            lemma_numbers_have_no_line_feed(0, m.unknown_adverts as nat, 1, 0);
            lemma_plain_sample(UNKNOWN_ADVERTS, dec(m.unknown_adverts as nat));
        } else {
            lemma_numbers_have_no_line_feed(0, m.parse_unknown_object as nat, 1, 0);
            lemma_plain_sample(UNKNOWN_OBJECTS, dec(m.parse_unknown_object as nat));
        }
    }
}

/// No byte `c` anywhere in `s`.
pub open spec fn lacks(s: Seq<u8>, c: u8) -> bool {
    forall|i: int| 0 <= i < s.len() ==> #[trigger] s[i] != c
}

/// `pattern` occurs in `s`.
pub open spec fn occurs_in(pattern: Seq<u8>, s: Seq<u8>) -> bool {
    exists|at: int| 0 <= at && at + pattern.len() <= s.len() && #[trigger] s.subrange(at, at + pattern.len()) == pattern
}

/// `device="<escaped name>"`: the label that names a device in a sample line.
pub open spec fn device_label(name: Seq<u8>) -> Seq<u8> {
    seq![100u8, 101u8, 118u8, 105u8, 99u8, 101u8, 61u8, 34u8] + label_body(name) + seq![34u8]
}

proof fn lemma_label_body_front(s: Seq<u8>)
    requires
        s.len() > 0,
    ensures
        label_body(s) == label_byte(s[0]) + label_body(s.drop_first()),
    decreases s.len(),
{
    if s.len() > 1 {
        lemma_label_body_front(s.drop_last());
        assert(s.drop_last().drop_first() =~= s.drop_first().drop_last());
        assert(s.drop_first().last() == s.last());
        assert(label_body(s) =~= label_byte(s[0]) + label_body(s.drop_first()));
    } else {
        assert(s.drop_last() =~= Seq::<u8>::empty());
        assert(s.drop_first() =~= Seq::<u8>::empty());
        assert(label_body(s) =~= label_byte(s[0]) + label_body(s.drop_first()));
    }
}

proof fn lemma_label_quotes_are_escaped(s: Seq<u8>)
    ensures
        forall|k: int|
            0 <= k < label_body(s).len() && #[trigger] label_body(s)[k] == 34u8 ==> k > 0 && label_body(s)[k
                - 1] == 92u8,
    decreases s.len(),
{
    if s.len() > 0 {
        lemma_label_quotes_are_escaped(s.drop_last());
        let e = label_body(s.drop_last());
        let t = label_byte(s.last());
        assert(label_body(s) == e + t);
        assert forall|k: int| 0 <= k < label_body(s).len() && #[trigger] label_body(s)[k] == 34u8 implies k > 0
            && label_body(s)[k - 1] == 92u8 by {
            if k < e.len() {
                assert(label_body(s)[k] == e[k]);
                assert(label_body(s)[k - 1] == e[k - 1]);
            } else {
                assert(label_body(s)[k] == t[k - e.len()]);
                assert(label_body(s)[k - 1] == (e + t)[k - 1]);
            }
        }
    }
}

proof fn lemma_label_first_byte(s: Seq<u8>)
    requires
        s.len() > 0,
    ensures
        label_body(s).len() > 0,
        label_body(s)[0] != 34u8,
{
    lemma_label_body_front(s);
}

proof fn lemma_label_decodes(a: Seq<u8>, b: Seq<u8>, r: Seq<u8>)
    requires
        (label_body(b) + seq![34u8] + r).len() >= label_body(a).len() as int + 1,
        (label_body(b) + seq![34u8] + r).subrange(0, label_body(a).len() as int + 1) == label_body(a) + seq![34u8],
    ensures
        a == b,
    decreases a.len(),
{
    let x = label_body(b) + seq![34u8] + r;
    let la = label_body(a);
    if a.len() == 0 {
        assert(la.len() == 0);
        assert(x[0] == 34u8) by {
            assert(x.subrange(0, 1)[0] == (la + seq![34u8])[0]);
        }
        if b.len() > 0 {
            lemma_label_first_byte(b);
            assert(x[0] == label_body(b)[0]);
        }
        assert(a =~= b);
    } else {
        lemma_label_body_front(a);
        lemma_label_first_byte(a);
        let ca = label_byte(a[0]);
        assert(x[0] == la[0]) by {
            assert(x.subrange(0, la.len() as int + 1)[0] == (la + seq![34u8])[0]);
        }
        if b.len() == 0 {
            assert(label_body(b).len() == 0);
            assert(x[0] == 34u8);
            assert(false);
        } else {
            lemma_label_body_front(b);
            let cb = label_byte(b[0]);
            let lb = label_body(b);
            assert(x[0] == lb[0]);
            assert(la[0] == ca[0]);
            assert(lb[0] == cb[0]);
            if ca.len() == 2 {
                assert(x[1] == la[1]) by {
                    assert(x.subrange(0, la.len() as int + 1)[1] == (la + seq![34u8])[1]);
                }
                assert(x[1] == lb[1]);
            }
            assert(a[0] == b[0]);
            let n = ca.len() as int;
            let a2 = a.drop_first();
            let b2 = b.drop_first();
            assert(label_body(b2) + seq![34u8] + r =~= x.subrange(n, x.len() as int));
            assert((label_body(b2) + seq![34u8] + r).subrange(0, label_body(a2).len() as int + 1) =~= label_body(a2)
                + seq![34u8]) by {
                assert(la =~= ca + label_body(a2));
                assert forall|k: int| 0 <= k < label_body(a2).len() as int + 1 implies #[trigger] (label_body(b2)
                    + seq![34u8] + r)[k] == (label_body(a2) + seq![34u8])[k] by {
                    assert(x.subrange(0, la.len() as int + 1)[n + k] == (la + seq![34u8])[n + k]);
                }
            }
            lemma_label_decodes(a2, b2, r);
            assert(a =~= b) by {
                assert(a =~= seq![a[0]] + a2);
                assert(b =~= seq![b[0]] + b2);
            }
        }
    }
}

proof fn lemma_dec_lacks(n: nat, c: u8)
    requires
        !(48 <= c <= 57),
    ensures
        lacks(dec(n), c),
    decreases n,
{
    if n >= 10 {
        lemma_dec_lacks(n / 10, c);
    }
}

proof fn lemma_padded_lacks(n: nat, width: nat, c: u8)
    requires
        !(48 <= c <= 57),
    ensures
        lacks(padded(n, width), c),
    decreases width,
{
    if width > 0 {
        lemma_padded_lacks(n / 10, (width - 1) as nat, c);
    }
}

proof fn lemma_numbers_lack_quotes(v: int, n: nat, scale: nat, digits: nat)
    ensures
        lacks(dec(n), 34u8),
        lacks(signed_dec(v), 34u8),
        lacks(scaled(v, scale, digits), 34u8),
{
    lemma_dec_lacks(n, 34u8);
    lemma_dec_lacks(if v < 0 { (-v) as nat } else { v as nat }, 34u8);
    let magnitude: nat = if v < 0 { (-v) as nat } else { v as nat };
    let integer: nat = if scale == 0 { 0 } else { magnitude / scale };
    let fraction: nat = if scale == 0 { 0 } else { magnitude % scale };
    lemma_dec_lacks(integer, 34u8);
    lemma_padded_lacks(fraction, digits, 34u8);
}

proof fn lemma_gauge_text_literals()
    ensures
        bytes_of("{device=\"") == seq![123u8, 100u8, 101u8, 118u8, 105u8, 99u8, 101u8, 61u8, 34u8],
        bytes_of("\"} ") == seq![34u8, 125u8, 32u8],
        bytes_of("\n") == seq![10u8],
        lacks(bytes_of(TEMPERATURE), 34u8),
        lacks(bytes_of(HUMIDITY), 34u8),
        lacks(bytes_of(BATTERY), 34u8),
        lacks(bytes_of(VOLTAGE), 34u8),
        lacks(bytes_of(RSSI), 34u8),
        lacks(bytes_of(LAST_UPDATE), 34u8),
{
    broadcast use vstd::string::is_ascii_spec_bytes;
    reveal_strlit("{device=\"");
    assert(vstd::string::is_ascii("{device=\""));
    reveal_strlit("\"} ");
    assert(vstd::string::is_ascii("\"} "));
    reveal_strlit("\n");
    assert(vstd::string::is_ascii("\n"));
    reveal_strlit("ble_sensor_temperature_celsius");
    assert(vstd::string::is_ascii("ble_sensor_temperature_celsius"));
    reveal_strlit("ble_sensor_humidity_percent");
    assert(vstd::string::is_ascii("ble_sensor_humidity_percent"));
    reveal_strlit("ble_sensor_battery_percent");
    assert(vstd::string::is_ascii("ble_sensor_battery_percent"));
    reveal_strlit("ble_sensor_voltage_volts");
    assert(vstd::string::is_ascii("ble_sensor_voltage_volts"));
    reveal_strlit("ble_sensor_rssi_dbm");
    assert(vstd::string::is_ascii("ble_sensor_rssi_dbm"));
    reveal_strlit("ble_sensor_last_update_timestamp_seconds");
    assert(vstd::string::is_ascii("ble_sensor_last_update_timestamp_seconds"));
    assert(bytes_of("{device=\"") =~= seq![123u8, 100u8, 101u8, 118u8, 105u8, 99u8, 101u8, 61u8, 34u8]);
    assert(bytes_of("\"} ") =~= seq![34u8, 125u8, 32u8]);
    assert(bytes_of("\n") =~= seq![10u8]);
}

/// Where the label of one device sits in a gauge line of another: only in
/// the line's own label, so the two names agree.
proof fn lemma_gauge_line_names_one_device(nm: Seq<u8>, dn: Seq<u8>, v: Seq<u8>, other: Seq<u8>, at: int)
    requires
        lacks(nm, 34u8),
        lacks(v, 34u8),
        0 <= at,
        at + device_label(other).len() <= (nm + seq![123u8, 100u8, 101u8, 118u8, 105u8, 99u8, 101u8, 61u8, 34u8]
            + label_body(dn) + seq![34u8, 125u8, 32u8] + v + seq![10u8]).len(),
        (nm + seq![123u8, 100u8, 101u8, 118u8, 105u8, 99u8, 101u8, 61u8, 34u8] + label_body(dn) + seq![
            34u8,
            125u8,
            32u8,
        ] + v + seq![10u8]).subrange(at, at + device_label(other).len()) == device_label(other),
    ensures
        dn == other,
{
    let open = seq![123u8, 100u8, 101u8, 118u8, 105u8, 99u8, 101u8, 61u8, 34u8];
    let close = seq![34u8, 125u8, 32u8];
    let e = label_body(dn);
    let l = nm + open + e + close + v + seq![10u8];
    let p = device_label(other);
    let lo = label_body(other);
    let a = nm.len() as int;
    let ee = e.len() as int;
    lemma_label_quotes_are_escaped(dn);
    let q = at + 7;
    assert(l[q] == 34u8 && l[q - 1] == 61u8) by {
        assert(l.subrange(at, at + p.len())[7] == p[7]);
        assert(l.subrange(at, at + p.len())[6] == p[6]);
    }
    assert(l[at + p.len() - 1] == 34u8) by {
        assert(l.subrange(at, at + p.len())[p.len() - 1] == p[p.len() - 1]);
    }
    if q < a {
        assert(l[q] == nm[q]);
    } else if q < a + 8 {
        assert(l[q] == open[q - a]);
    } else if q == a + 8 {
        let rest = close.drop_first() + v + seq![10u8];
        let x = e + seq![34u8] + rest;
        assert(l.subrange(a + 9, l.len() as int) =~= x);
        assert(x.subrange(0, lo.len() as int + 1) =~= lo + seq![34u8]) by {
            assert forall|k: int| 0 <= k < lo.len() + 1 implies #[trigger] x.subrange(
                0,
                lo.len() as int + 1,
            )[k] == (lo + seq![34u8])[k] by {
                assert(l.subrange(at, at + p.len())[8 + k] == p[8 + k]);
            }
        }
        lemma_label_decodes(other, dn, rest);
    } else if q < a + 9 + ee {
        assert(l[q] == e[q - a - 9]);
        if q - a - 9 == 0 {
            assert(l[q - 1] == open[8]);
        } else {
            assert(l[q - 1] == e[q - a - 10]);
        }
    } else if q == a + 9 + ee {
        let last = at + p.len() - 1;
        assert(last > q);
        if last < a + 12 + ee {
            assert(l[last] == close[last - a - 9 - ee]);
        } else if last < a + 12 + ee + v.len() {
            assert(l[last] == v[last - a - 12 - ee]);
        } else {
            assert(l[last] == 10u8);
        }
    } else if q < a + 12 + ee {
        assert(l[q] == close[q - a - 9 - ee]);
    } else if q < a + 12 + ee + v.len() {
        assert(l[q] == v[q - a - 12 - ee]);
    } else {
        assert(l[q] == 10u8);
    }
}

/// The value text of a gauge sample of a device.
pub open spec fn gauge_value(f: DeviceFamily, now: Millis, unix_now: Option<u64>, st: DeviceModel) -> Seq<u8> {
    match f {
        DeviceFamily::Temperature => crate::fixed::centi(st.readings.temperature_centi->Some_0 as int),
        DeviceFamily::Humidity => crate::fixed::centi(st.readings.humidity_centi->Some_0 as int),
        DeviceFamily::Battery => dec(st.readings.battery_percent->Some_0 as nat),
        DeviceFamily::Voltage => crate::fixed::milli(st.readings.voltage_milli->Some_0 as int),
        DeviceFamily::Rssi => signed_dec(st.rssi_dbm->Some_0 as int),
        DeviceFamily::LastUpdate => dec(
            (unix_now->Some_0 - crate::render::prometheus::age_secs(now, st.last_seen->Some_0)) as nat,
        ),
        _ => Seq::empty(),
    }
}

proof fn lemma_gauge_line_form(f: DeviceFamily, now: Millis, unix_now: Option<u64>, dev: Device, st: DeviceModel)
    requires
        is_gauge_family(f),
        device_line(f, now, unix_now, dev, st).len() > 0,
    ensures
        st.online,
        lacks(gauge_value(f, now, unix_now, st), 34u8),
        device_line(f, now, unix_now, dev, st) == bytes_of(family_name(f)) + seq![
            123u8,
            100u8,
            101u8,
            118u8,
            105u8,
            99u8,
            101u8,
            61u8,
            34u8,
        ] + label_body(bytes_of(dev.name)) + seq![34u8, 125u8, 32u8] + gauge_value(f, now, unix_now, st)
            + seq![10u8],
        lacks(bytes_of(family_name(f)), 34u8),
{
    lemma_gauge_text_literals();
    let v = gauge_value(f, now, unix_now, st);
    match f {
        DeviceFamily::Temperature => lemma_numbers_lack_quotes(
            st.readings.temperature_centi->Some_0 as int,
            0,
            100,
            2,
        ),
        DeviceFamily::Humidity => lemma_numbers_lack_quotes(
            st.readings.humidity_centi->Some_0 as int,
            0,
            100,
            2,
        ),
        DeviceFamily::Battery => lemma_numbers_lack_quotes(
            0,
            st.readings.battery_percent->Some_0 as nat,
            1,
            0,
        ),
        DeviceFamily::Voltage => lemma_numbers_lack_quotes(
            st.readings.voltage_milli->Some_0 as int,
            0,
            1000,
            3,
        ),
        DeviceFamily::Rssi => lemma_numbers_lack_quotes(st.rssi_dbm->Some_0 as int, 0, 1, 0),
        DeviceFamily::LastUpdate => lemma_numbers_lack_quotes(
            0,
            (unix_now->Some_0 - crate::render::prometheus::age_secs(now, st.last_seen->Some_0)) as nat,
            1,
            0,
        ),
        _ => {},
    }
    assert(device_line(f, now, unix_now, dev, st) =~= bytes_of(family_name(f)) + seq![
        123u8,
        100u8,
        101u8,
        118u8,
        105u8,
        99u8,
        101u8,
        61u8,
        34u8,
    ] + label_body(bytes_of(dev.name)) + seq![34u8, 125u8, 32u8] + v + seq![10u8]);
}

proof fn lemma_gauge_line_origin(m: RegistryModel, f: DeviceFamily, now: Millis, unix_now: Option<u64>, n: int, j: int) -> (d: int)
    requires
        is_gauge_family(f),
        0 <= n,
        0 <= j < family_sample_lines(m, f, now, unix_now, n).len(),
    ensures
        0 <= d < n,
        family_sample_lines(m, f, now, unix_now, n)[j] == device_line(f, now, unix_now, m.devices[d], m.states[d]),
        device_line(f, now, unix_now, m.devices[d], m.states[d]).len() > 0,
    decreases n,
{
    let prev = family_sample_lines(m, f, now, unix_now, n - 1);
    let own = device_sample_lines(f, now, unix_now, m.devices[n - 1], m.states[n - 1]);
    assert(family_sample_lines(m, f, now, unix_now, n) == prev + own);
    if j < prev.len() {
        lemma_gauge_line_origin(m, f, now, unix_now, n - 1, j)
    } else {
        n - 1
    }
}

/// Gauges gap by name: when the configured names are distinct, the label
/// `device="<name>"` of an offline device occurs in no sample line of any
/// gauge family, whoever's line it is.
pub proof fn law_offline_device_is_absent_from_gauges(
    m: RegistryModel,
    f: DeviceFamily,
    now: Millis,
    unix_now: Option<u64>,
    i: int,
    j: int,
)
    requires
        is_gauge_family(f),
        0 <= i < m.devices.len(),
        !m.states[i].online,
        forall|a: int, b: int|
            0 <= a < m.devices.len() && 0 <= b < m.devices.len() && a != b ==> bytes_of(
                #[trigger] m.devices[a].name,
            ) != bytes_of(#[trigger] m.devices[b].name),
        0 <= j < family_sample_lines(m, f, now, unix_now, m.devices.len() as int).len(),
    ensures
        !occurs_in(
            device_label(bytes_of(m.devices[i].name)),
            family_sample_lines(m, f, now, unix_now, m.devices.len() as int)[j],
        ),
{
    let n = m.devices.len() as int;
    let d = lemma_gauge_line_origin(m, f, now, unix_now, n, j);
    let st = m.states[d];
    lemma_gauge_line_form(f, now, unix_now, m.devices[d], st);
    let line = family_sample_lines(m, f, now, unix_now, n)[j];
    let pat = device_label(bytes_of(m.devices[i].name));
    if occurs_in(pat, line) {
        let at = choose|at: int| 0 <= at && at + pat.len() <= line.len() && #[trigger] line.subrange(at, at + pat.len()) == pat;
        lemma_gauge_line_names_one_device(
            bytes_of(family_name(f)),
            bytes_of(m.devices[d].name),
            gauge_value(f, now, unix_now, st),
            bytes_of(m.devices[i].name),
            at,
        );
        assert(d != i);
    }
}

/// Every failure to authenticate a frame counts as a decryption failure:
/// a frame that does not open under the key (whatever the reason), and a
/// frame whose encryption disagrees with the configuration, land in
/// `decrypt_fail`; only a missing service data block and a walk failure
/// land in `parse_fail`.
pub proof fn law_decryption_failures_count_as_decrypt(f: crate::advert::AdvertFailure)
    ensures
        crate::advert::failure_kind(f) == BeaconFailure::Decrypt <==> (f is Decrypt || f is AuthMismatch),
        crate::advert::failure_kind(f) == BeaconFailure::Parse <==> (f is NoServiceData || f is Parse),
{
}

/// A frame from a device with a bindkey that does not open under it is
/// counted under `decrypt_fail`, whatever its bytes.
pub proof fn law_unopened_frame_counts_as_decrypt_failure(key: [u8; 16], mac: Seq<u8>, adv: Seq<u8>)
    ensures
        advert_outcome(Some(key), mac, adv) matches Err(crate::advert::AdvertFailure::Decrypt(e))
            ==> crate::advert::failure_kind(crate::advert::AdvertFailure::Decrypt(e)) == BeaconFailure::Decrypt,
{
}

/// An online device with a reading always has its gauge sample, whatever
/// the value (negative, zero or positive): the line is the device's prefix,
/// the value as written by the fixed-point or decimal formatter, and a line
/// feed. A gauge gaps only for an offline device or a missing reading.
pub proof fn law_online_readings_never_gap(now: Millis, unix_now: Option<u64>, dev: Device, st: DeviceModel)
    ensures
        st.online && st.readings.temperature_centi is Some ==> device_line(
            DeviceFamily::Temperature,
            now,
            unix_now,
            dev,
            st,
        ) == sample_prefix(TEMPERATURE, dev.name) + crate::fixed::centi(st.readings.temperature_centi->Some_0 as int) + bytes_of("\n"),
        st.online && st.readings.humidity_centi is Some ==> device_line(
            DeviceFamily::Humidity,
            now,
            unix_now,
            dev,
            st,
        ) == sample_prefix(HUMIDITY, dev.name) + crate::fixed::centi(st.readings.humidity_centi->Some_0 as int) + bytes_of("\n"),
        st.online && st.readings.battery_percent is Some ==> device_line(
            DeviceFamily::Battery,
            now,
            unix_now,
            dev,
            st,
        ) == sample_prefix(BATTERY, dev.name) + dec(st.readings.battery_percent->Some_0 as nat) + bytes_of("\n"),
        st.online && st.readings.voltage_milli is Some ==> device_line(
            DeviceFamily::Voltage,
            now,
            unix_now,
            dev,
            st,
        ) == sample_prefix(VOLTAGE, dev.name) + crate::fixed::milli(st.readings.voltage_milli->Some_0 as int) + bytes_of("\n"),
        st.online && st.rssi_dbm is Some ==> device_line(DeviceFamily::Rssi, now, unix_now, dev, st)
            == sample_prefix(RSSI, dev.name) + signed_dec(st.rssi_dbm->Some_0 as int) + bytes_of("\n"),
        (device_line(DeviceFamily::Temperature, now, unix_now, dev, st).len() > 0 <==> (st.online
            && st.readings.temperature_centi is Some)),
{
    lemma_gauge_text_literals();
}

/// The climate keys of a readings entry: each value is `null` exactly when
/// the reading is absent, and otherwise the reading with two fraction
/// digits, for every value including negative ones.
pub proof fn law_readings_climate_values(st: DeviceModel)
    ensures
        crate::render::readings::entry_climate(st) == bytes_of(",\"temperature\":") + (
        match st.readings.temperature_centi {
            Some(t) => crate::fixed::centi(t as int),
            None => bytes_of("null"),
        }) + bytes_of(",\"humidity\":") + (match st.readings.humidity_centi {
            Some(h) => crate::fixed::centi(h as int),
            None => bytes_of("null"),
        }),
{
    reveal(crate::render::centi_or_null);
}

/// A history value is `null` exactly for a missing sample and otherwise
/// the sample with two fraction digits, zero and negative values included.
pub proof fn law_history_values(v: Option<i16>)
    ensures
        sample_text(v) == (match v {
            Some(x) => crate::fixed::centi(x as int),
            None => bytes_of("null"),
        }),
{
    reveal(crate::render::centi_or_null);
}

/// The sparkline column of a device carries its stored temperature
/// unchanged, and its humidity whenever that fits a sample (an `i16`); a
/// humidity too large for one is a gap.
pub proof fn law_spark_column_keeps_the_readings(r: Readings)
    ensures
        crate::housekeeping::spark_sample(r).0 == r.temperature_centi,
        r.humidity_centi is Some && r.humidity_centi->Some_0 <= 32767 ==> crate::housekeeping::spark_sample(
            r,
        ).1 == Some((r.humidity_centi->Some_0) as i16),
        r.humidity_centi is Some && r.humidity_centi->Some_0 > 32767 ==> crate::housekeeping::spark_sample(r).1
            is None,
        r.humidity_centi is None ==> crate::housekeeping::spark_sample(r).1 is None,
{
}

/// The power and radio keys of a readings entry: each value is `null`
/// exactly when the reading is absent, and otherwise the reading itself
/// (battery and signal as integers, voltage in volts with three decimals);
/// the entry closes with the beacons of the trailing minute.
pub proof fn law_readings_power_and_radio_values(st: DeviceModel)
    ensures
        crate::render::readings::entry_power(st) == bytes_of(",\"battery\":") + (
        match st.readings.battery_percent {
            Some(b) => dec(b as nat),
            None => bytes_of("null"),
        }) + bytes_of(",\"voltage\":") + (match st.readings.voltage_milli {
            Some(v) => crate::fixed::milli(v as int),
            None => bytes_of("null"),
        }),
        crate::render::readings::entry_radio(st) == bytes_of(",\"rssi\":") + (match st.rssi_dbm {
            Some(r) => signed_dec(r as int),
            None => bytes_of("null"),
        }) + bytes_of(",\"beacons_per_minute\":") + dec(sum_u8(st.buckets)) + bytes_of("}"),
{
    reveal(crate::render::int_or_null);
    reveal(crate::render::readings::milli_or_null);
}

} // verus!
