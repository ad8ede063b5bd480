//! Per-device state, staleness, the beacons-per-minute rings and every
//! counter. Gauges vanish when a device expires; counters never do.

use vstd::prelude::*;
use vstd::slice::slice_subrange;
use crate::clock::{sat_sub, Millis};
use crate::device::Device;
use crate::parse::{no_readings, Parsed, Readings};
use crate::{Tunables, MAX_DEVICES};

verus! {

/// One-second buckets of the trailing beacons-per-minute window.
pub const BPM_BUCKETS: usize = 60;

/// Capacity of the log-once latch of novel `(device, object id)` pairs.
pub const LATCH_CAPACITY: usize = 16;

/// Why a beacon from a configured device was unintelligible.
#[derive(Clone, Copy, Debug, PartialEq, Eq, Structural)]
pub enum BeaconFailure {
    Decrypt,
    Parse,
}

/// Per-device beacon counters by outcome. Never cleared by expiry.
#[derive(Clone, Copy, Debug, PartialEq, Eq, Structural)]
pub struct DeviceCounters {
    pub ok: u32,
    pub decrypt_fail: u32,
    pub parse_fail: u32,
}

impl Default for DeviceCounters {
    fn default() -> (r: Self)
        ensures
            r == (DeviceCounters { ok: 0, decrypt_fail: 0, parse_fail: 0 }),
    {
        DeviceCounters { ok: 0, decrypt_fail: 0, parse_fail: 0 }
    }
}

/// Snapshot of one device for rendering. `readings`, `rssi_dbm` and
/// `last_seen` are cleared once the device is offline; `last_sighting`,
/// `counters` and `beacons_per_minute` survive expiry.
#[derive(Clone, Copy, Debug)]
pub struct DeviceView<'a> {
    pub device: &'a Device,
    pub readings: Readings,
    pub rssi_dbm: Option<i8>,
    pub online: bool,
    pub last_seen: Option<Millis>,
    pub last_sighting: Option<Millis>,
    pub counters: DeviceCounters,
    pub beacons_per_minute: u16,
}

/// The mathematical state of one device.
pub struct DeviceModel {
    pub readings: Readings,
    pub rssi_dbm: Option<i8>,
    pub last_seen: Option<Millis>,
    pub last_sighting: Option<Millis>,
    pub online: bool,
    pub counters: DeviceCounters,
    /// The 60 one-second buckets of the beacons-per-minute ring.
    pub buckets: Seq<u8>,
    /// The bucket the current second counts into.
    pub cursor: int,
}

/// The mathematical state of the registry.
pub struct RegistryModel {
    /// The configured devices, at most `MAX_DEVICES`, in configuration order.
    pub devices: Seq<Device>,
    /// One state per slot; slots at and beyond `devices.len()` stay fresh.
    pub states: Seq<DeviceModel>,
    pub tunables: Tunables,
    pub unknown_adverts: u64,
    pub parse_unknown_object: u32,
    /// `(device index, object id)` pairs already reported, oldest first.
    pub latch: Seq<(u8, u8)>,
    /// Latest instant any beacon of a configured device arrived.
    pub newest_seen: Option<Millis>,
}

/// `x + 1` clamped to the `u32` range.
pub open spec fn inc_u32(x: u32) -> u32 {
    if x == u32::MAX { x } else { (x + 1) as u32 }
}

/// `x + 1` clamped to the `u8` range.
pub open spec fn inc_u8(x: u8) -> u8 {
    if x == u8::MAX { x } else { (x + 1) as u8 }
}

/// Sum of a byte sequence.
pub open spec fn sum_u8(s: Seq<u8>) -> nat
    decreases s.len(),
{
    if s.len() == 0 {
        0
    } else {
        sum_u8(s.drop_last()) + s.last() as nat
    }
}

/// Per-field merge: a present fresh reading replaces, an absent one keeps
/// the stored value.
pub open spec fn merged(stored: Readings, fresh: Readings) -> Readings {
    Readings {
        temperature_centi: if fresh.temperature_centi is Some {
            fresh.temperature_centi
        } else {
            stored.temperature_centi
        },
        humidity_centi: if fresh.humidity_centi is Some {
            fresh.humidity_centi
        } else {
            stored.humidity_centi
        },
        battery_percent: if fresh.battery_percent is Some {
            fresh.battery_percent
        } else {
            stored.battery_percent
        },
        voltage_milli: if fresh.voltage_milli is Some {
            fresh.voltage_milli
        } else {
            stored.voltage_milli
        },
    }
}

/// A device that has never been heard.
pub open spec fn fresh_device() -> DeviceModel {
    DeviceModel {
        readings: no_readings(),
        rssi_dbm: None,
        last_seen: None,
        last_sighting: None,
        online: false,
        counters: DeviceCounters { ok: 0, decrypt_fail: 0, parse_fail: 0 },
        buckets: Seq::new(60, |i: int| 0u8),
        cursor: 0,
    }
}

impl DeviceModel {
    /// Beacons counted over the trailing 60 s window.
    pub open spec fn bpm(self) -> nat {
        sum_u8(self.buckets)
    }

    /// One received beacon, any outcome, counted in the current bucket.
    pub open spec fn bumped(self) -> DeviceModel {
        DeviceModel {
            buckets: self.buckets.update(self.cursor, inc_u8(self.buckets[self.cursor])),
            ..self
        }
    }

    /// One second passed: the next bucket becomes current and is emptied.
    pub open spec fn advanced(self) -> DeviceModel {
        let next = if self.cursor + 1 >= 60 { 0 } else { self.cursor + 1 };
        DeviceModel { buckets: self.buckets.update(next, 0u8), cursor: next, ..self }
    }

    /// Expiry: gauges vanish, counters and the ring stay.
    pub open spec fn expired(self) -> DeviceModel {
        DeviceModel {
            readings: no_readings(),
            rssi_dbm: None,
            last_seen: None,
            online: false,
            ..self
        }
    }

    /// Whether the device is past `timeout` at `now`.
    pub open spec fn is_stale(self, now: Millis, timeout: Millis) -> bool {
        self.last_seen matches Some(seen) && sat_sub(now.0 as int, seen.0 as int) >= timeout.0
    }

    /// The 1 Hz sweep of one device.
    pub open spec fn swept(self, now: Millis, timeout: Millis) -> DeviceModel {
        if self.is_stale(now, timeout) {
            self.expired().advanced()
        } else {
            self.advanced()
        }
    }

    /// The effect of one beacon outcome, after the bucket bump.
    pub open spec fn recorded(
        self,
        now: Millis,
        rssi_dbm: i8,
        outcome: Result<Parsed, BeaconFailure>,
    ) -> DeviceModel {
        let b = self.bumped();
        match outcome {
            Ok(parsed) => DeviceModel {
                readings: merged(b.readings, parsed.readings),
                rssi_dbm: Some(rssi_dbm),
                last_seen: Some(now),
                last_sighting: Some(now),
                online: true,
                counters: DeviceCounters { ok: inc_u32(b.counters.ok), ..b.counters },
                ..b
            },
            Err(BeaconFailure::Decrypt) => DeviceModel {
                counters: DeviceCounters {
                    decrypt_fail: inc_u32(b.counters.decrypt_fail),
                    ..b.counters
                },
                ..b
            },
            Err(BeaconFailure::Parse) => DeviceModel {
                counters: DeviceCounters { parse_fail: inc_u32(b.counters.parse_fail), ..b.counters },
                ..b
            },
        }
    }
}

impl RegistryModel {
    /// Whether `(device, id)` is new and a latch slot is free.
    pub open spec fn is_novel(self, device: u8, id: u8) -> bool {
        !self.latch.contains((device, id)) && self.latch.len() < LATCH_CAPACITY
    }

    /// The watermark after a beacon at `now`: it never moves backwards.
    pub open spec fn newest_after(self, now: Millis) -> Option<Millis> {
        match self.newest_seen {
            Some(w) => if w.0 > now.0 { Some(w) } else { Some(now) },
            None => Some(now),
        }
    }

    /// `record_beacon`'s answer: a novel unknown object id worth logging.
    pub open spec fn record_reports(
        self,
        idx: int,
        outcome: Result<Parsed, BeaconFailure>,
    ) -> bool {
        0 <= idx < self.devices.len() && (outcome matches Ok(p) && p.unknown_object matches Some(
            id,
        ) && self.is_novel(idx as u8, id))
    }

    /// The registry after one beacon outcome for the device at `idx`.
    pub open spec fn recorded(
        self,
        idx: int,
        now: Millis,
        rssi_dbm: i8,
        outcome: Result<Parsed, BeaconFailure>,
    ) -> RegistryModel {
        if !(0 <= idx < self.devices.len()) {
            self
        } else {
            let unknown = outcome matches Ok(p) && p.unknown_object is Some;
            RegistryModel {
                states: self.states.update(idx, self.states[idx].recorded(now, rssi_dbm, outcome)),
                newest_seen: self.newest_after(now),
                parse_unknown_object: if unknown {
                    inc_u32(self.parse_unknown_object)
                } else {
                    self.parse_unknown_object
                },
                latch: if self.record_reports(idx, outcome) {
                    self.latch.push((idx as u8, outcome->Ok_0.unknown_object->Some_0))
                } else {
                    self.latch
                },
                ..self
            }
        }
    }

    /// The registry after the 1 Hz sweep at `now`.
    pub open spec fn swept(self, now: Millis) -> RegistryModel {
        RegistryModel {
            states: Seq::new(
                self.states.len(),
                |i: int|
                    if i < self.devices.len() {
                        self.states[i].swept(now, self.tunables.device_timeout)
                    } else {
                        self.states[i]
                    },
            ),
            ..self
        }
    }

    /// How many of the first `n` devices are online.
    pub open spec fn online_among(self, n: int) -> nat
        decreases n,
    {
        if n <= 0 {
            0
        } else {
            self.online_among(n - 1) + if self.states[n - 1].online { 1nat } else { 0nat }
        }
    }

    /// The first configured device with this MAC.
    pub open spec fn index_of(self, mac: Seq<u8>) -> Option<int> {
        if exists|i: int| 0 <= i < self.devices.len() && #[trigger] self.devices[i].mac@ == mac {
            let i = choose|i: int|
                0 <= i < self.devices.len() && #[trigger] self.devices[i].mac@ == mac && forall|
                    j: int,
                | 0 <= j < i ==> #[trigger] self.devices[j].mac@ != mac;
            Some(i)
        } else {
            None
        }
    }
}

/// State of one configured device.
#[derive(Clone, Copy, Debug)]
pub struct DeviceState {
    readings: Readings,
    rssi_dbm: Option<i8>,
    last_seen: Option<Millis>,
    last_sighting: Option<Millis>,
    online: bool,
    counters: DeviceCounters,
    buckets: [u8; 60],
    cursor: u8,
}

impl DeviceState {
    pub closed spec fn model(self) -> DeviceModel {
        DeviceModel {
            readings: self.readings,
            rssi_dbm: self.rssi_dbm,
            last_seen: self.last_seen,
            last_sighting: self.last_sighting,
            online: self.online,
            counters: self.counters,
            buckets: self.buckets@,
            cursor: self.cursor as int,
        }
    }

    pub closed spec fn inv(self) -> bool {
        self.cursor < BPM_BUCKETS
    }

    pub fn new() -> (r: Self)
        ensures
            r.inv(),
            r.model() == fresh_device(),
    {
        let r = DeviceState {
            readings: Readings::default(),
            rssi_dbm: None,
            last_seen: None,
            last_sighting: None,
            online: false,
            counters: DeviceCounters::default(),
            buckets: [0u8; 60],
            cursor: 0,
        };
        assert(r.model().buckets =~= fresh_device().buckets);
        r
    }

    /// Counts one received beacon, any outcome.
    pub fn bump_bucket(&mut self)
        requires
            old(self).inv(),
        ensures
            final(self).inv(),
            final(self).model() == old(self).model().bumped(),
    {
        let c = self.cursor as usize;
        let b = self.buckets[c];
        self.buckets[c] = b.saturating_add(1);
        assert(self.model().buckets =~= old(self).model().bumped().buckets);
    }

    /// One second has passed: moves to the next bucket and zeroes it.
    pub fn advance_bucket(&mut self)
        requires
            old(self).inv(),
        ensures
            final(self).inv(),
            final(self).model() == old(self).model().advanced(),
    {
        let next = self.cursor as usize + 1;
        self.cursor = if next >= BPM_BUCKETS { 0 } else { self.cursor + 1 };
        let c = self.cursor as usize;
        self.buckets[c] = 0;
        assert(self.model().buckets =~= old(self).model().advanced().buckets);
    }

    /// Beacons counted over the trailing 60 s.
    pub fn beacons_per_minute(&self) -> (r: u16)
        ensures
            r == self.model().bpm(),
    {
        let mut sum: u16 = 0;
        let mut i: usize = 0;
        while i < BPM_BUCKETS
            invariant
                i <= BPM_BUCKETS,
                self.buckets@.len() == 60,
                sum == sum_u8(self.buckets@.subrange(0, i as int)),
                sum <= 255 * i,
            decreases BPM_BUCKETS - i,
        {
            assert(self.buckets@.subrange(0, i + 1).drop_last() =~= self.buckets@.subrange(
                0,
                i as int,
            ));
            sum = sum + self.buckets[i] as u16;
            i = i + 1;
        }
        assert(self.buckets@.subrange(0, 60) =~= self.buckets@);
        sum
    }

    /// Gauges vanish, counters and the ring stay.
    pub fn expire(&mut self)
        ensures
            final(self).model() == old(self).model().expired(),
            final(self).inv() == old(self).inv(),
    {
        self.readings = Readings::default();
        self.rssi_dbm = None;
        self.last_seen = None;
        self.online = false;
    }
}


/// Whether two MACs are equal.
pub fn mac_eq(a: &[u8; 6], b: &[u8; 6]) -> (r: bool)
    ensures
        r == (a@ == b@),
{
    let mut i: usize = 0;
    while i < 6
        invariant
            i <= 6,
            forall|k: int| 0 <= k < i ==> a@[k] == b@[k],
        decreases 6 - i,
    {
        if a[i] != b[i] {
            return false;
        }
        i = i + 1;
    }
    assert(a@ =~= b@);
    true
}

/// Per-device readings, staleness, counters and beacons-per-minute rings,
/// plus the registry-wide beacon counters.
pub struct Registry {
    devices: &'static [Device],
    states: [DeviceState; MAX_DEVICES],
    tunables: Tunables,
    unknown_adverts: u64,
    parse_unknown_object: u32,
    latch: [(u8, u8); LATCH_CAPACITY],
    latch_len: usize,
    newest_seen: Option<Millis>,
}

impl Registry {
    /// The mathematical state of the registry.
    pub closed spec fn model(&self) -> RegistryModel {
        RegistryModel {
            devices: self.devices@,
            states: self.states@.map_values(|s: DeviceState| s.model()),
            tunables: self.tunables,
            unknown_adverts: self.unknown_adverts,
            parse_unknown_object: self.parse_unknown_object,
            latch: self.latch@.subrange(0, self.latch_len as int),
            newest_seen: self.newest_seen,
        }
    }
}

impl Registry {
    #[verifier::type_invariant]
    closed spec fn well_formed(self) -> bool {
        &&& self.devices@.len() <= MAX_DEVICES
        &&& self.states@.len() == MAX_DEVICES
        &&& forall|i: int| 0 <= i < MAX_DEVICES ==> (#[trigger] self.states@[i]).inv()
        &&& self.latch@.len() == LATCH_CAPACITY
        &&& self.latch_len <= LATCH_CAPACITY
    }

    /// The type invariant, read as the shape of the model.
    proof fn lemma_shape(&self)
        requires
            self.devices@.len() <= MAX_DEVICES,
            self.states@.len() == MAX_DEVICES,
            forall|i: int| 0 <= i < MAX_DEVICES ==> (#[trigger] self.states@[i]).inv(),
            self.latch@.len() == LATCH_CAPACITY,
            self.latch_len <= LATCH_CAPACITY,
        ensures
            crate::laws::registry_valid(self.model()),
    {
        assert forall|i: int| 0 <= i < MAX_DEVICES implies crate::laws::device_valid(
            #[trigger] self.model().states[i],
        ) by {
            assert(self.states@[i].inv());
        }
    }

    /// The devices the registry tracks: the first `MAX_DEVICES` of `devices`.
    pub fn new(devices: &'static [Device], tunables: Tunables) -> (r: Self)
        ensures
            crate::laws::registry_valid(r.model()),
            r.model().devices == devices@.take(
                if devices@.len() < MAX_DEVICES { devices@.len() as int } else { MAX_DEVICES as int },
            ),
            r.model().states == Seq::new(MAX_DEVICES as nat, |i: int| fresh_device()),
            r.model().tunables == tunables,
            r.model().unknown_adverts == 0,
            r.model().parse_unknown_object == 0,
            r.model().latch == Seq::<(u8, u8)>::empty(),
            r.model().newest_seen == None::<Millis>,
    {
        let count = if devices.len() < MAX_DEVICES { devices.len() } else { MAX_DEVICES };
        let devices = slice_subrange(devices, 0, count);
        let fresh = DeviceState::new();
        let states = [fresh; MAX_DEVICES];
        let r = Registry {
            devices,
            states,
            tunables,
            unknown_adverts: 0,
            parse_unknown_object: 0,
            latch: [(0u8, 0u8); LATCH_CAPACITY],
            latch_len: 0,
            newest_seen: None,
        };
        assert(r.model().states =~= Seq::new(MAX_DEVICES as nat, |i: int| fresh_device()));
        assert(r.model().devices =~= devices@);
        r
    }

    /// Index of the first configured device with this MAC (human-readable
    /// byte order).
    pub fn device_index(&self, mac: &[u8; 6]) -> (r: Option<usize>)
        ensures
            crate::laws::registry_valid(self.model()),
            r matches Some(i) ==> i < self.model().devices.len() && self.model().devices[i as int].mac@ == mac@
                && forall|j: int| 0 <= j < i ==> #[trigger] self.model().devices[j].mac@ != mac@,
            r is None ==> forall|j: int|
                0 <= j < self.model().devices.len() ==> #[trigger] self.model().devices[j].mac@ != mac@,
    {
        proof {
            use_type_invariant(self);
            self.lemma_shape();
        }
        let mut i: usize = 0;
        while i < self.devices.len()
            invariant
                crate::laws::registry_valid(self.model()),
                i <= self.devices@.len(),
                self.model().devices == self.devices@,
                forall|j: int| 0 <= j < i ==> #[trigger] self.model().devices[j].mac@ != mac@,
            decreases self.devices@.len() - i,
        {
            if mac_eq(&self.devices[i].mac, mac) {
                return Some(i);
            }
            i = i + 1;
        }
        None
    }

    /// Number of configured devices.
    pub fn len(&self) -> (r: usize)
        ensures
            crate::laws::registry_valid(self.model()),
            r == self.model().devices.len(),
    {
        proof {
            use_type_invariant(self);
            self.lemma_shape();
        }
        self.devices.len()
    }

    pub fn is_empty(&self) -> (r: bool)
        ensures
            crate::laws::registry_valid(self.model()),
            r == (self.model().devices.len() == 0),
    {
        proof {
            use_type_invariant(self);
            self.lemma_shape();
        }
        self.devices.len() == 0
    }

    /// Adverts heard from MACs outside the device list.
    pub fn unknown_adverts_total(&self) -> (r: u64)
        ensures
            crate::laws::registry_valid(self.model()),
            r == self.model().unknown_adverts,
    {
        proof {
            use_type_invariant(self);
            self.lemma_shape();
        }
        self.unknown_adverts
    }

    /// Beacons whose object walk stopped at an unknown object id.
    pub fn parse_unknown_object_total(&self) -> (r: u32)
        ensures
            crate::laws::registry_valid(self.model()),
            r == self.model().parse_unknown_object,
    {
        proof {
            use_type_invariant(self);
            self.lemma_shape();
        }
        self.parse_unknown_object
    }

    /// Latest instant any beacon of a configured device arrived, whatever
    /// its outcome; expiry does not clear it.
    pub fn newest_last_seen(&self) -> (r: Option<Millis>)
        ensures
            crate::laws::registry_valid(self.model()),
            r == self.model().newest_seen,
    {
        proof {
            use_type_invariant(self);
            self.lemma_shape();
        }
        self.newest_seen
    }

    /// An advert from a MAC outside the device list.
    pub fn record_unknown_advert(&mut self)
        ensures
            crate::laws::registry_valid(old(self).model()),
            crate::laws::registry_valid(final(self).model()),
            final(self).model() == (RegistryModel {
                unknown_adverts: if old(self).model().unknown_adverts == u64::MAX {
                    u64::MAX
                } else {
                    (old(self).model().unknown_adverts + 1) as u64
                },
                ..old(self).model()
            }),
    {
        proof {
            use_type_invariant(&*self);
            self.lemma_shape();
        }
        proof {
            use_type_invariant(&*self);
        }
        self.unknown_adverts = self.unknown_adverts.saturating_add(1);
    }

    /// Snapshot of the device at `idx`.
    pub fn view(&self, idx: usize) -> (r: Option<DeviceView<'_>>)
        ensures
            crate::laws::registry_valid(self.model()),
            idx >= self.model().devices.len() ==> r is None,
            idx < self.model().devices.len() ==> (r matches Some(v) && *v.device == self.model().devices[idx as int]
                && v.readings == self.model().states[idx as int].readings && v.rssi_dbm
                == self.model().states[idx as int].rssi_dbm && v.online == self.model().states[idx as int].online
                && v.last_seen == self.model().states[idx as int].last_seen && v.last_sighting
                == self.model().states[idx as int].last_sighting && v.counters
                == self.model().states[idx as int].counters && v.beacons_per_minute
                == self.model().states[idx as int].bpm()),
    {
        proof {
            use_type_invariant(self);
            self.lemma_shape();
        }
        proof {
            use_type_invariant(self);
        }
        if idx >= self.devices.len() {
            return None;
        }
        let state = &self.states[idx];
        Some(
            DeviceView {
                device: &self.devices[idx],
                readings: state.readings,
                rssi_dbm: state.rssi_dbm,
                online: state.online,
                last_seen: state.last_seen,
                last_sighting: state.last_sighting,
                counters: state.counters,
                beacons_per_minute: state.beacons_per_minute(),
            },
        )
    }

    /// Records one beacon outcome for the device at `idx`. A parsed frame
    /// merges per field and marks the device seen; a failed one only bumps
    /// its counter. Every outcome counts toward beacons per minute and moves
    /// the newest-seen watermark forward. Returns `true` iff the frame
    /// carried an unknown object id that is new for this device and the
    /// latch had room.
    pub fn record_beacon(
        &mut self,
        idx: usize,
        now: Millis,
        rssi_dbm: i8,
        outcome: Result<Parsed, BeaconFailure>,
    ) -> (r: bool)
        ensures
            crate::laws::registry_valid(old(self).model()),
            crate::laws::registry_valid(final(self).model()),
            final(self).model() == old(self).model().recorded(idx as int, now, rssi_dbm, outcome),
            r == old(self).model().record_reports(idx as int, outcome),
    {
        proof {
            use_type_invariant(&*self);
            self.lemma_shape();
        }
        proof {
            use_type_invariant(&*self);
        }
        if idx >= self.devices.len() {
            return false;
        }
        let ghost before = self.model();
        let mut state = self.states[idx];
        state.bump_bucket();
        let newest = match self.newest_seen {
            Some(w) => if w.0 > now.0 { w } else { now },
            None => now,
        };
        self.newest_seen = Some(newest);
        match outcome {
            Ok(parsed) => {
                state.counters.ok = state.counters.ok.saturating_add(1);
                let fresh = parsed.readings;
                if fresh.temperature_centi.is_some() {
                    state.readings.temperature_centi = fresh.temperature_centi;
                }
                if fresh.humidity_centi.is_some() {
                    state.readings.humidity_centi = fresh.humidity_centi;
                }
                if fresh.battery_percent.is_some() {
                    state.readings.battery_percent = fresh.battery_percent;
                }
                if fresh.voltage_milli.is_some() {
                    state.readings.voltage_milli = fresh.voltage_milli;
                }
                state.rssi_dbm = Some(rssi_dbm);
                state.last_seen = Some(now);
                state.last_sighting = Some(now);
                state.online = true;
                self.states[idx] = state;
                assert(self.model().states =~= before.states.update(
                    idx as int,
                    before.states[idx as int].recorded(now, rssi_dbm, outcome),
                ));
                match parsed.unknown_object {
                    Some(id) => {
                        self.parse_unknown_object = self.parse_unknown_object.saturating_add(1);
                        self.latch_novel(idx as u8, id)
                    },
                    None => false,
                }
            },
            Err(BeaconFailure::Decrypt) => {
                state.counters.decrypt_fail = state.counters.decrypt_fail.saturating_add(1);
                self.states[idx] = state;
                assert(self.model().states =~= before.states.update(
                    idx as int,
                    before.states[idx as int].recorded(now, rssi_dbm, outcome),
                ));
                false
            },
            Err(BeaconFailure::Parse) => {
                state.counters.parse_fail = state.counters.parse_fail.saturating_add(1);
                self.states[idx] = state;
                assert(self.model().states =~= before.states.update(
                    idx as int,
                    before.states[idx as int].recorded(now, rssi_dbm, outcome),
                ));
                false
            },
        }
    }

    /// The log-once latch: `true` iff `(device, id)` is new and a slot was
    /// free, in which case the pair is remembered.
    pub fn latch_novel(&mut self, device: u8, id: u8) -> (r: bool)
        ensures
            crate::laws::registry_valid(old(self).model()),
            crate::laws::registry_valid(final(self).model()),
            r == old(self).model().is_novel(device, id),
            final(self).model() == (RegistryModel {
                latch: if r { old(self).model().latch.push((device, id)) } else { old(self).model().latch },
                ..old(self).model()
            }),
    {
        proof {
            use_type_invariant(&*self);
            self.lemma_shape();
        }
        proof {
            use_type_invariant(&*self);
            self.lemma_shape();
        }
        let mut i: usize = 0;
        while i < self.latch_len
            invariant
                i <= self.latch_len <= LATCH_CAPACITY,
                self.latch@.len() == LATCH_CAPACITY,
                forall|k: int| 0 <= k < i ==> self.latch@[k] != (device, id),
                crate::laws::registry_valid(self.model()),
            decreases self.latch_len - i,
        {
            let entry = self.latch[i];
            if entry.0 == device && entry.1 == id {
                assert(self.model().latch[i as int] == (device, id));
                return false;
            }
            i = i + 1;
        }
        assert(!self.model().latch.contains((device, id)));
        if self.latch_len < LATCH_CAPACITY {
            let ghost before = self.model();
            self.latch[self.latch_len] = (device, id);
            self.latch_len = self.latch_len + 1;
            assert(self.model().latch =~= before.latch.push((device, id)));
            true
        } else {
            false
        }
    }

    /// The 1 Hz sweep: expires every device whose last sighting is at least
    /// `device_timeout` old, then advances every beacons-per-minute ring.
    pub fn sweep(&mut self, now: Millis)
        ensures
            crate::laws::registry_valid(old(self).model()),
            crate::laws::registry_valid(final(self).model()),
            final(self).model() == old(self).model().swept(now),
    {
        proof {
            use_type_invariant(&*self);
            self.lemma_shape();
        }
        proof {
            use_type_invariant(&*self);
        }
        let ghost before = self.model();
        let timeout = self.tunables.device_timeout;
        let n = self.devices.len();
        let mut i: usize = 0;
        while i < n
            invariant
                i <= n,
                n == self.devices@.len(),
                n <= MAX_DEVICES,
                timeout == before.tunables.device_timeout,
                self.devices@ == before.devices,
                self.states@.len() == MAX_DEVICES,
                before.states.len() == MAX_DEVICES,
                forall|k: int| 0 <= k < MAX_DEVICES ==> (#[trigger] self.states@[k]).inv(),
                self.latch@.len() == LATCH_CAPACITY,
                self.latch_len <= LATCH_CAPACITY,
                self.tunables == before.tunables,
                self.unknown_adverts == before.unknown_adverts,
                self.parse_unknown_object == before.parse_unknown_object,
                self.latch@.subrange(0, self.latch_len as int) == before.latch,
                self.newest_seen == before.newest_seen,
                forall|k: int|
                    0 <= k < i ==> (#[trigger] self.states@[k]).model() == before.states[k].swept(
                        now,
                        timeout,
                    ),
                forall|k: int| i <= k < MAX_DEVICES ==> (#[trigger] self.states@[k]).model() == before.states[k],
            decreases n - i,
        {
            let mut state = self.states[i];
            let stale = match state.last_seen {
                Some(seen) => now.since(seen).0 >= timeout.0,
                None => false,
            };
            if stale {
                state.expire();
            }
            state.advance_bucket();
            self.states[i] = state;
            i = i + 1;
        }
        assert(self.model().states =~= before.swept(now).states);
    }

    /// How many configured devices are online.
    pub fn devices_active(&self) -> (r: usize)
        ensures
            crate::laws::registry_valid(self.model()),
            r == self.model().online_among(self.model().devices.len() as int),
    {
        proof {
            use_type_invariant(self);
            self.lemma_shape();
        }
        proof {
            use_type_invariant(self);
        }
        let mut n: usize = 0;
        let mut i: usize = 0;
        while i < self.devices.len()
            invariant
                i <= self.devices@.len() <= MAX_DEVICES,
                self.states@.len() == MAX_DEVICES,
                self.model().devices == self.devices@,
                n == self.model().online_among(i as int),
                n <= i,
            decreases self.devices@.len() - i,
        {
            if self.states[i].online {
                n = n + 1;
            }
            i = i + 1;
        }
        n
    }
}

impl Clone for Registry {
    /// A snapshot: an equal registry.
    fn clone(&self) -> (r: Self)
        ensures
            crate::laws::registry_valid(r.model()),
            r.model() == self.model(),
    {
        proof {
            use_type_invariant(self);
        }
        Registry {
            devices: self.devices,
            states: self.states,
            tunables: self.tunables,
            unknown_adverts: self.unknown_adverts,
            parse_unknown_object: self.parse_unknown_object,
            latch: self.latch,
            latch_len: self.latch_len,
            newest_seen: self.newest_seen,
        }
    }
}

} // verus!
