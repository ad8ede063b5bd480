//! Decisions of the 1 Hz housekeeping sweep: when to sample the sparkline
//! and what goes into a column, Wi-Fi supervision, and which deliberate
//! restart (if any) the sweep ends in.

use vstd::prelude::*;
use crate::clock::{sat_sub, Millis};
use crate::effects::RebootReason;
use crate::parse::Readings;
use crate::registry::Registry;
use crate::spark::{Spark, SparkModel};
use crate::wedge::{WedgeDetector, WedgeModel, WedgeVerdict};
use crate::wifi::{giveup_due, WifiBackoff};
use crate::{Tunables, MAX_DEVICES};

verus! {

/// One device's sparkline column: its temperature, and its humidity when
/// that fits the `i16` ring (range-checked readings always do).
pub open spec fn spark_sample(r: Readings) -> (Option<i16>, Option<i16>) {
    (
        r.temperature_centi,
        match r.humidity_centi {
            Some(h) => if h <= 32767 { Some(h as i16) } else { None },
            None => None,
        },
    )
}

/// The column of current readings, one entry per configured device; an
/// offline device has no readings and samples as gaps.
pub fn spark_columns(registry: &Registry) -> (r: ([(Option<i16>, Option<i16>); MAX_DEVICES], usize))
    ensures
        r.1 == registry.model().devices.len(),
        r.1 <= MAX_DEVICES,
        forall|i: int|
            0 <= i < r.1 ==> r.0@[i] == spark_sample(#[trigger] registry.model().states[i].readings),
        forall|i: int| r.1 <= i < MAX_DEVICES ==> #[trigger] r.0@[i] == (None::<i16>, None::<i16>),
{
    let count = registry.len();
    let mut columns: [(Option<i16>, Option<i16>); MAX_DEVICES] = [(None, None); MAX_DEVICES];
    let mut idx: usize = 0;
    while idx < count
        invariant
            count == registry.model().devices.len(),
            count <= MAX_DEVICES,
            idx <= count,
            forall|i: int|
                0 <= i < idx ==> columns@[i] == spark_sample(
                    #[trigger] registry.model().states[i].readings,
                ),
            forall|i: int| idx <= i < MAX_DEVICES ==> #[trigger] columns@[i] == (None::<i16>, None::<i16>),
        decreases count - idx,
    {
        let entry = match registry.view(idx) {
            Some(v) => {
                let hum: Option<i16> = match v.readings.humidity_centi {
                    Some(h) => if h <= 32767 { Some(h as i16) } else { None },
                    None => None,
                };
                (v.readings.temperature_centi, hum)
            },
            None => (None, None),
        };
        columns[idx] = entry;
        idx = idx + 1;
    }
    (columns, count)
}

/// The rings after pushing the first `n` entries of `columns`, entry `i`
/// for device `i`.
pub open spec fn columns_pushed(
    m: SparkModel,
    columns: Seq<(Option<i16>, Option<i16>)>,
    n: nat,
) -> SparkModel
    decreases n,
{
    if n == 0 || n > columns.len() {
        m
    } else {
        columns_pushed(m, columns, (n - 1) as nat).pushed(
            n - 1,
            columns[n - 1].0,
            columns[n - 1].1,
        )
    }
}

/// Pushes one sampled column into the sparkline rings.
pub fn sample_spark(spark: &mut Spark, columns: &[(Option<i16>, Option<i16>)])
    ensures
        final(spark).model() == columns_pushed(old(spark).model(), columns@, columns@.len()),
{
    let mut i: usize = 0;
    while i < columns.len()
        invariant
            i <= columns@.len(),
            spark.model() == columns_pushed(old(spark).model(), columns@, i as nat),
        decreases columns@.len() - i,
    {
        let (temp, hum) = columns[i];
        spark.push(i, temp, hum);
        i = i + 1;
    }
}

/// What one sweep observed outside the sweeper.
#[derive(Clone, Copy, Debug, PartialEq, Eq, Structural)]
pub struct SweepEvent {
    /// Newest beacon instant of any configured device, after expiry.
    pub newest: Option<Millis>,
    pub unknown_total: u64,
    pub wifi_up: bool,
    /// A firmware upload is streaming.
    pub ota_busy: bool,
}

/// What the firmware does at the end of one sweep.
#[derive(Clone, Copy, Debug, PartialEq, Eq, Structural)]
pub struct SweepPlan {
    pub sample_spark: bool,
    pub reconnect_wifi: bool,
    /// A deliberate restart, and the reason declared for it.
    pub restart: Option<RebootReason>,
}

/// State the sweep carries from one second to the next.
pub struct Sweeper {
    pub wedge: WedgeDetector,
    pub last_spark_sample: Millis,
    pub wifi: WifiBackoff,
}

/// Whether the Wi-Fi giveup rule fires for the supervised state at `now`:
/// the link has been down at least `giveup`, counted from the last sweep
/// that saw it up, or from boot when it never was.
pub open spec fn wifi_gives_up(wifi: WifiBackoff, now: Millis, giveup: Millis, ota_busy: bool) -> bool {
    !ota_busy && match wifi.last_connected {
        Some(last) => sat_sub(now.0 as int, last.0 as int) >= giveup.0,
        None => now.0 >= giveup.0,
    }
}

impl Sweeper {
    pub fn new() -> (r: Self)
        ensures
            r.wedge.model() == (WedgeModel {
                armed: false,
                last_activity: Millis(0),
                last_unknown_total: 0,
                last_newest_seen: None,
            }),
            r.last_spark_sample == Millis(0),
            r.wifi == (WifiBackoff { next_attempt: Millis(0), backoff_secs: 1, last_connected: None }),
    {
        Sweeper { wedge: WedgeDetector::new(), last_spark_sample: Millis(0), wifi: WifiBackoff::new() }
    }

    /// One sweep at `now`: sample the sparkline when an interval has
    /// passed since the last column; supervise Wi-Fi; then restart for a
    /// Wi-Fi giveup, or else for a radio wedge, both suppressed while an
    /// upload streams.
    pub fn step(&mut self, now: Millis, event: SweepEvent, tunables: Tunables, giveup: Millis) -> (plan:
        SweepPlan)
        ensures
            plan.sample_spark == (sat_sub(now.0 as int, old(self).last_spark_sample.0 as int)
                >= tunables.spark_sample_interval.0),
            final(self).last_spark_sample == (if plan.sample_spark {
                now
            } else {
                old(self).last_spark_sample
            }),
            final(self).wifi == old(self).wifi.supervised(now, event.wifi_up),
            plan.reconnect_wifi == old(self).wifi.reconnects(now, event.wifi_up),
            wifi_gives_up(final(self).wifi, now, giveup, event.ota_busy) ==> plan.restart == Some(
                RebootReason::Wifi,
            ) && final(self).wedge.model() == old(self).wedge.model(),
            !wifi_gives_up(final(self).wifi, now, giveup, event.ota_busy) ==> {
                &&& final(self).wedge.model() == old(self).wedge.model().checked(
                    now,
                    event.newest,
                    event.unknown_total,
                )
                &&& plan.restart == (if old(self).wedge.model().verdict(
                    now,
                    event.newest,
                    event.unknown_total,
                    event.ota_busy,
                    tunables.wedge_window,
                ) == WedgeVerdict::Wedged {
                    Some(RebootReason::BleWedge)
                } else {
                    None
                })
            },
    {
        let sample = now.since(self.last_spark_sample).0 >= tunables.spark_sample_interval.0;
        if sample {
            self.last_spark_sample = now;
        }
        let reconnect = self.wifi.supervise(now, event.wifi_up);
        if giveup_due(&self.wifi, now, giveup, event.ota_busy) {
            return SweepPlan { sample_spark: sample, reconnect_wifi: reconnect, restart: Some(RebootReason::Wifi) };
        }
        let verdict = self.wedge.check(
            now,
            event.newest,
            event.unknown_total,
            event.ota_busy,
            tunables.wedge_window,
        );
        let restart = match verdict {
            WedgeVerdict::Wedged => Some(RebootReason::BleWedge),
            _ => None,
        };
        SweepPlan { sample_spark: sample, reconnect_wifi: reconnect, restart }
    }
}

/// Radio evidence for image validation: a parsed beacon from any
/// configured device, or a stray advert. Either proves the radio path
/// delivers; requiring a parsed beacon alone would reject a good image on a
/// bench with no sensors in range.
pub open spec fn has_radio_evidence(m: crate::registry::RegistryModel) -> bool {
    m.unknown_adverts > 0 || exists|i: int|
        0 <= i < m.devices.len() && (#[trigger] m.states[i]).last_sighting is Some
}

/// Whether the registry holds radio evidence.
pub fn radio_evidence(registry: &Registry) -> (r: bool)
    ensures
        r == has_radio_evidence(registry.model()),
{
    if registry.unknown_adverts_total() > 0 {
        return true;
    }
    let n = registry.len();
    let mut i: usize = 0;
    while i < n
        invariant
            n == registry.model().devices.len(),
            i <= n,
            registry.model().unknown_adverts == 0,
            forall|k: int| 0 <= k < i ==> (#[trigger] registry.model().states[k]).last_sighting is None,
        decreases n - i,
    {
        match registry.view(i) {
            Some(v) => {
                if v.last_sighting.is_some() {
                    return true;
                }
            },
            None => {},
        }
        i = i + 1;
    }
    false
}

} // verus!
