//! Detection of a wedged BLE radio from two liveness signals; the verdict
//! only, restarting is up to the caller.

use vstd::prelude::*;
use crate::clock::{sat_sub, Millis};

verus! {

/// Outcome of one wedge check. `NotArmed` until the first advert of any
/// kind since boot: a stall cannot be detected in something that never
/// started.
#[derive(Clone, Copy, Debug, PartialEq, Eq, Structural)]
pub enum WedgeVerdict {
    NotArmed,
    Healthy,
    Wedged,
}

/// The mathematical state of the detector.
pub struct WedgeModel {
    pub armed: bool,
    /// Last instant either liveness input changed.
    pub last_activity: Millis,
    pub last_unknown_total: u64,
    pub last_newest_seen: Option<Millis>,
}

impl WedgeModel {
    /// Whether either liveness input differs from what was last seen.
    pub open spec fn is_activity(self, newest: Option<Millis>, unknown_total: u64) -> bool {
        newest != self.last_newest_seen || unknown_total != self.last_unknown_total
    }

    /// The detector after one check at `now`.
    pub open spec fn checked(self, now: Millis, newest: Option<Millis>, unknown_total: u64) -> WedgeModel {
        if self.is_activity(newest, unknown_total) {
            WedgeModel {
                armed: true,
                last_activity: now,
                last_unknown_total: unknown_total,
                last_newest_seen: newest,
            }
        } else {
            self
        }
    }

    /// The verdict of one check at `now`.
    pub open spec fn verdict(
        self,
        now: Millis,
        newest: Option<Millis>,
        unknown_total: u64,
        ota_in_progress: bool,
        window: Millis,
    ) -> WedgeVerdict {
        let next = self.checked(now, newest, unknown_total);
        if !next.armed {
            WedgeVerdict::NotArmed
        } else if !ota_in_progress && sat_sub(now.0 as int, next.last_activity.0 as int) >= window.0 {
            WedgeVerdict::Wedged
        } else {
            WedgeVerdict::Healthy
        }
    }
}

/// Detects a wedged BLE stack from two liveness signals: configured-device
/// beacons and the stray-advert counter. Wedged iff armed, both flat for
/// the window, and no OTA streaming.
pub struct WedgeDetector {
    armed: bool,
    last_activity: Millis,
    last_unknown_total: u64,
    last_newest_seen: Option<Millis>,
}

/// Whether two optional instants are equal.
pub fn same_instant(a: Option<Millis>, b: Option<Millis>) -> (r: bool)
    ensures
        r == (a == b),
{
    match (a, b) {
        (Some(x), Some(y)) => x.0 == y.0,
        (None, None) => true,
        _ => false,
    }
}

impl WedgeDetector {
    pub closed spec fn model(&self) -> WedgeModel {
        WedgeModel {
            armed: self.armed,
            last_activity: self.last_activity,
            last_unknown_total: self.last_unknown_total,
            last_newest_seen: self.last_newest_seen,
        }
    }

    pub fn new() -> (r: Self)
        ensures
            r.model() == (WedgeModel {
                armed: false,
                last_activity: Millis(0),
                last_unknown_total: 0,
                last_newest_seen: None,
            }),
    {
        WedgeDetector {
            armed: false,
            last_activity: Millis(0),
            last_unknown_total: 0,
            last_newest_seen: None,
        }
    }

    /// One check per sweep. Any change of either input is activity; an OTA
    /// in progress suppresses the verdict of this call only.
    pub fn check(
        &mut self,
        now: Millis,
        newest_last_seen: Option<Millis>,
        unknown_adverts_total: u64,
        ota_in_progress: bool,
        wedge_window: Millis,
    ) -> (r: WedgeVerdict)
        ensures
            final(self).model() == old(self).model().checked(now, newest_last_seen, unknown_adverts_total),
            r == old(self).model().verdict(
                now,
                newest_last_seen,
                unknown_adverts_total,
                ota_in_progress,
                wedge_window,
            ),
    {
        let activity = !same_instant(newest_last_seen, self.last_newest_seen)
            || unknown_adverts_total != self.last_unknown_total;
        if activity {
            self.armed = true;
            self.last_activity = now;
            self.last_newest_seen = newest_last_seen;
            self.last_unknown_total = unknown_adverts_total;
        }
        if !self.armed {
            return WedgeVerdict::NotArmed;
        }
        if !ota_in_progress && now.since(self.last_activity).0 >= wedge_window.0 {
            return WedgeVerdict::Wedged;
        }
        WedgeVerdict::Healthy
    }
}

impl Default for WedgeDetector {
    fn default() -> (r: Self)
        ensures
            r.model() == (WedgeModel {
                armed: false,
                last_activity: Millis(0),
                last_unknown_total: 0,
                last_newest_seen: None,
            }),
    {
        Self::new()
    }
}

} // verus!
