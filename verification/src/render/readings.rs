//! `/api/readings` body: current values, health, and a server-computed
//! `age_seconds`, so the browser's clock never enters.

use vstd::prelude::*;
use crate::clock::{sat_sub, Millis};
use crate::device::Device;
use crate::fixed::{milli, write_milli};
use crate::registry::{DeviceModel, DeviceView, Registry, RegistryModel};
use crate::render::{
    bool_text, centi_or_null, int_or_null, json_str, per_device, reboot_sum, reboot_total, sep,
    write_bool, write_centi_or_null, write_int_or_null, write_json_str, Health,
};
use crate::text::{bytes_of, dec, push_byte, push_str, push_u64};

verus! {

/// Seconds since the last sighting, or absent for a device never sighted.
pub open spec fn age_of(now: Millis, last_sighting: Option<Millis>) -> Option<i64> {
    match last_sighting {
        Some(s) => Some((sat_sub(now.0 as int, s.0 as int) / 1000) as i64),
        None => None,
    }
}

/// The voltage as volts with three decimals, or `null`.
#[verifier::opaque]
pub open spec fn milli_or_null(v: Option<u16>) -> Seq<u8> {
    match v {
        Some(x) => milli(x as int),
        None => bytes_of("null"),
    }
}

/// Separator, name and encryption flag of a device entry.
pub open spec fn entry_name(i: int, dev: Device) -> Seq<u8> {
    sep(i) + bytes_of("{\"name\":") + json_str(dev.name) + bytes_of(",\"encrypted\":") + bool_text(
        dev.bindkey is Some,
    )
}

/// Online flag and sighting age of a device entry.
pub open spec fn entry_status(now: Millis, st: DeviceModel) -> Seq<u8> {
    bytes_of(",\"online\":") + bool_text(st.online) + bytes_of(",\"age_seconds\":") + int_or_null(
        age_of(now, st.last_sighting),
    )
}

/// The identity half of a device entry.
pub open spec fn entry_head(now: Millis, i: int, dev: Device, st: DeviceModel) -> Seq<u8> {
    entry_name(i, dev) + entry_status(now, st)
}

/// Temperature and humidity of a device entry.
pub open spec fn entry_climate(st: DeviceModel) -> Seq<u8> {
    bytes_of(",\"temperature\":") + centi_or_null(
        match st.readings.temperature_centi {
            Some(t) => Some(t as i32),
            None => None,
        },
    ) + bytes_of(",\"humidity\":") + centi_or_null(
        match st.readings.humidity_centi {
            Some(h) => Some(h as i32),
            None => None,
        },
    )
}

/// Battery and voltage of a device entry.
pub open spec fn entry_power(st: DeviceModel) -> Seq<u8> {
    bytes_of(",\"battery\":") + int_or_null(
        match st.readings.battery_percent {
            Some(b) => Some(b as i64),
            None => None,
        },
    ) + bytes_of(",\"voltage\":") + milli_or_null(st.readings.voltage_milli)
}

/// Signal and reception rate, closing a device entry.
pub open spec fn entry_radio(st: DeviceModel) -> Seq<u8> {
    bytes_of(",\"rssi\":") + int_or_null(
        match st.rssi_dbm {
            Some(r) => Some(r as i64),
            None => None,
        },
    ) + bytes_of(",\"beacons_per_minute\":") + dec(st.bpm()) + bytes_of("}")
}

/// The values half of a device entry.
pub open spec fn entry_values(st: DeviceModel) -> Seq<u8> {
    entry_climate(st) + entry_power(st) + entry_radio(st)
}

/// One device entry; every key always present.
pub open spec fn device_entry(now: Millis, i: int, dev: Device, st: DeviceModel) -> Seq<u8> {
    entry_head(now, i, dev, st) + entry_values(st)
}

/// Every configured device's entry, comma separated.
#[verifier::opaque]
pub open spec fn device_entries(m: RegistryModel, now: Millis) -> Seq<u8> {
    per_device(
        m,
        m.devices.len() as int,
        |i: int, dev: Device, st: DeviceModel| device_entry(now, i, dev, st),
    )
}

/// Uptime, Wi-Fi signal and heap figures of the health block.
pub open spec fn health_resources(h: Health) -> Seq<u8> {
    bytes_of("],\"health\":{\"uptime_seconds\":") + dec(h.uptime_seconds as nat) + bytes_of(
        ",\"wifi_rssi\":",
    ) + int_or_null(
        match h.wifi_rssi_dbm {
            Some(r) => Some(r as i64),
            None => None,
        },
    ) + bytes_of(",\"free_heap_bytes\":") + dec(h.free_heap_bytes as nat) + bytes_of(
        ",\"min_free_heap_bytes\":",
    ) + dec(h.min_free_heap_bytes as nat)
}

/// Counters of the health block.
pub open spec fn health_counts(m: RegistryModel, h: Health) -> Seq<u8> {
    bytes_of(",\"unknown_adverts\":") + dec(m.unknown_adverts as nat) + bytes_of(
        ",\"reboot_total\":",
    ) + dec(reboot_sum(h.reboots) as nat)
}

/// Identity strings closing the health block and the body.
pub open spec fn health_identity(h: Health) -> Seq<u8> {
    bytes_of(",\"last_reboot_reason\":") + json_str(h.last_reboot_reason) + bytes_of(
        ",\"version\":",
    ) + json_str(h.version) + bytes_of(",\"git_sha\":") + json_str(h.git_sha) + bytes_of("}}")
}

/// The health block, closing the body.
pub open spec fn health_block(m: RegistryModel, h: Health) -> Seq<u8> {
    health_resources(h) + health_counts(m, h) + health_identity(h)
}

/// The `/api/readings` body.
pub open spec fn readings_body(
    m: RegistryModel,
    h: Health,
    now: Millis,
    unix_now: Option<u64>,
) -> Seq<u8> {
    bytes_of("{\"time_synced\":") + bool_text(unix_now is Some) + bytes_of(",\"devices\":[")
        + device_entries(m, now) + health_block(m, h)
}

fn write_milli_or_null(w: &mut Vec<u8>, v: Option<u16>)
    ensures
        final(w)@ == old(w)@ + milli_or_null(v),
{
    reveal(milli_or_null);
    match v {
        Some(x) => write_milli(w, x as i32),
        None => push_str(w, "null"),
    }
}

fn write_entry_name(w: &mut Vec<u8>, idx: usize, dev: &Device)
    ensures
        final(w)@ == old(w)@ + entry_name(idx as int, *dev),
{
    let ghost s0 = w@;
    if idx != 0 {
        push_byte(w, 44u8);
    }
    assert(w@ =~= s0 + sep(idx as int));
    push_str(w, "{\"name\":");
    write_json_str(w, dev.name);
    push_str(w, ",\"encrypted\":");
    write_bool(w, dev.is_encrypted());
    assert(w@ =~= old(w)@ + entry_name(idx as int, *dev));
}

fn write_entry_status(w: &mut Vec<u8>, now: Millis, v: &DeviceView, Ghost(st): Ghost<DeviceModel>)
    requires
        v.online == st.online,
        v.last_sighting == st.last_sighting,
    ensures
        final(w)@ == old(w)@ + entry_status(now, st),
{
    push_str(w, ",\"online\":");
    write_bool(w, v.online);
    push_str(w, ",\"age_seconds\":");
    let age = match v.last_sighting {
        Some(s) => Some(now.since(s).as_secs() as i64),
        None => None,
    };
    write_int_or_null(w, age);
    assert(w@ =~= old(w)@ + entry_status(now, st));
}

fn write_entry_head(
    w: &mut Vec<u8>,
    now: Millis,
    idx: usize,
    v: &DeviceView,
    Ghost(st): Ghost<DeviceModel>,
)
    requires
        v.online == st.online,
        v.last_sighting == st.last_sighting,
    ensures
        final(w)@ == old(w)@ + entry_head(now, idx as int, *v.device, st),
{
    write_entry_name(w, idx, v.device);
    write_entry_status(w, now, v, Ghost(st));
    assert(w@ =~= old(w)@ + entry_head(now, idx as int, *v.device, st));
}

fn write_entry_climate(w: &mut Vec<u8>, v: &DeviceView, Ghost(st): Ghost<DeviceModel>)
    requires
        v.readings == st.readings,
    ensures
        final(w)@ == old(w)@ + entry_climate(st),
{
    push_str(w, ",\"temperature\":");
    write_centi_or_null(
        w,
        match v.readings.temperature_centi {
            Some(t) => Some(t as i32),
            None => None,
        },
    );
    push_str(w, ",\"humidity\":");
    write_centi_or_null(
        w,
        match v.readings.humidity_centi {
            Some(h) => Some(h as i32),
            None => None,
        },
    );
    assert(w@ =~= old(w)@ + entry_climate(st));
}

fn write_entry_power(w: &mut Vec<u8>, v: &DeviceView, Ghost(st): Ghost<DeviceModel>)
    requires
        v.readings == st.readings,
    ensures
        final(w)@ == old(w)@ + entry_power(st),
{
    push_str(w, ",\"battery\":");
    write_int_or_null(
        w,
        match v.readings.battery_percent {
            Some(b) => Some(b as i64),
            None => None,
        },
    );
    push_str(w, ",\"voltage\":");
    write_milli_or_null(w, v.readings.voltage_milli);
    assert(w@ =~= old(w)@ + entry_power(st));
}

fn write_entry_radio(w: &mut Vec<u8>, v: &DeviceView, Ghost(st): Ghost<DeviceModel>)
    requires
        v.rssi_dbm == st.rssi_dbm,
        v.beacons_per_minute == st.bpm(),
    ensures
        final(w)@ == old(w)@ + entry_radio(st),
{
    push_str(w, ",\"rssi\":");
    write_int_or_null(
        w,
        match v.rssi_dbm {
            Some(r) => Some(r as i64),
            None => None,
        },
    );
    push_str(w, ",\"beacons_per_minute\":");
    push_u64(w, v.beacons_per_minute as u64);
    push_str(w, "}");
    assert(w@ =~= old(w)@ + entry_radio(st));
}

fn write_entry_values(w: &mut Vec<u8>, v: &DeviceView, Ghost(st): Ghost<DeviceModel>)
    requires
        v.readings == st.readings,
        v.rssi_dbm == st.rssi_dbm,
        v.beacons_per_minute == st.bpm(),
    ensures
        final(w)@ == old(w)@ + entry_values(st),
{
    write_entry_climate(w, v, Ghost(st));
    write_entry_power(w, v, Ghost(st));
    write_entry_radio(w, v, Ghost(st));
    assert(w@ =~= old(w)@ + entry_values(st));
}

fn write_device_entry(
    w: &mut Vec<u8>,
    now: Millis,
    idx: usize,
    v: &DeviceView,
    Ghost(st): Ghost<DeviceModel>,
)
    requires
        v.readings == st.readings,
        v.rssi_dbm == st.rssi_dbm,
        v.online == st.online,
        v.last_sighting == st.last_sighting,
        v.beacons_per_minute == st.bpm(),
    ensures
        final(w)@ == old(w)@ + device_entry(now, idx as int, *v.device, st),
{
    write_entry_head(w, now, idx, v, Ghost(st));
    write_entry_values(w, v, Ghost(st));
    assert(w@ =~= old(w)@ + device_entry(now, idx as int, *v.device, st));
}

fn write_device_entries(w: &mut Vec<u8>, registry: &Registry, now: Millis)
    ensures
        final(w)@ == old(w)@ + device_entries(registry.model(), now),
{
    let ghost m = registry.model();
    let ghost f = |i: int, dev: Device, st: DeviceModel| device_entry(now, i, dev, st);
    let ghost start = w@;
    let n = registry.len();
    let mut idx: usize = 0;
    while idx < n
        invariant
            idx <= n,
            n == m.devices.len(),
            m == registry.model(),
            f == (|i: int, dev: Device, st: DeviceModel| device_entry(now, i, dev, st)),
            w@ == start + per_device(m, idx as int, f),
        decreases n - idx,
    {
        let v = registry.view(idx);
        if let Some(v) = v {
            write_device_entry(w, now, idx, &v, Ghost(m.states[idx as int]));
            assert(per_device(m, idx + 1, f) == per_device(m, idx as int, f) + f(
                idx as int,
                m.devices[idx as int],
                m.states[idx as int],
            ));
            assert(w@ =~= start + per_device(m, idx + 1, f));
        }
        idx = idx + 1;
    }
    reveal(device_entries);
}

fn write_health_resources(w: &mut Vec<u8>, health: &Health)
    ensures
        final(w)@ == old(w)@ + health_resources(*health),
{
    push_str(w, "],\"health\":{\"uptime_seconds\":");
    push_u64(w, health.uptime_seconds);
    push_str(w, ",\"wifi_rssi\":");
    write_int_or_null(
        w,
        match health.wifi_rssi_dbm {
            Some(r) => Some(r as i64),
            None => None,
        },
    );
    push_str(w, ",\"free_heap_bytes\":");
    push_u64(w, health.free_heap_bytes as u64);
    push_str(w, ",\"min_free_heap_bytes\":");
    push_u64(w, health.min_free_heap_bytes as u64);
    assert(w@ =~= old(w)@ + health_resources(*health));
}

fn write_health_counts(w: &mut Vec<u8>, registry: &Registry, health: &Health)
    ensures
        final(w)@ == old(w)@ + health_counts(registry.model(), *health),
{
    push_str(w, ",\"unknown_adverts\":");
    push_u64(w, registry.unknown_adverts_total());
    push_str(w, ",\"reboot_total\":");
    push_u64(w, reboot_total(&health.reboots));
    assert(w@ =~= old(w)@ + health_counts(registry.model(), *health));
}

fn write_health_identity(w: &mut Vec<u8>, health: &Health)
    ensures
        final(w)@ == old(w)@ + health_identity(*health),
{
    push_str(w, ",\"last_reboot_reason\":");
    write_json_str(w, health.last_reboot_reason);
    push_str(w, ",\"version\":");
    write_json_str(w, health.version);
    push_str(w, ",\"git_sha\":");
    write_json_str(w, health.git_sha);
    push_str(w, "}}");
    assert(w@ =~= old(w)@ + health_identity(*health));
}

fn write_health_block(w: &mut Vec<u8>, registry: &Registry, health: &Health)
    ensures
        final(w)@ == old(w)@ + health_block(registry.model(), *health),
{
    write_health_resources(w, health);
    write_health_counts(w, registry, health);
    write_health_identity(w, health);
    assert(w@ =~= old(w)@ + health_block(registry.model(), *health));
}

/// Appends the `/api/readings` body: `time_synced`, one entry per
/// configured device (absent values `null`), and the health block.
pub fn render_readings(
    w: &mut Vec<u8>,
    registry: &Registry,
    health: &Health,
    now: Millis,
    unix_now: Option<u64>,
)
    ensures
        final(w)@ == old(w)@ + readings_body(registry.model(), *health, now, unix_now),
{
    push_str(w, "{\"time_synced\":");
    write_bool(w, unix_now.is_some());
    push_str(w, ",\"devices\":[");
    write_device_entries(w, registry, now);
    write_health_block(w, registry, health);
    assert(w@ =~= old(w)@ + readings_body(registry.model(), *health, now, unix_now));
}

} // verus!
