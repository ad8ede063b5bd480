//! Wi-Fi supervision decisions: exponential reconnect backoff (1, 2, 4, …
//! capped at 60 s) and the outage clock behind the giveup restart.

use vstd::prelude::*;
use crate::clock::{sat_add, sat_sub, secs_to_millis, Millis};

verus! {

/// Cap of the reconnect backoff, seconds.
pub const BACKOFF_CAP_SECS: u64 = 60;

/// Reconnect backoff and connection history, updated once per sweep.
#[derive(Clone, Copy, Debug, PartialEq, Eq, Structural)]
pub struct WifiBackoff {
    /// Next reconnect attempt not before this instant.
    pub next_attempt: Millis,
    /// Backoff applied after the next attempt, seconds (1..=60).
    pub backoff_secs: u64,
    /// Monotonic instant the station last had an IP.
    pub last_connected: Option<Millis>,
}

/// `min(2 * secs, BACKOFF_CAP_SECS)`.
pub open spec fn doubled_backoff(secs: u64) -> u64 {
    if 2 * secs > BACKOFF_CAP_SECS { BACKOFF_CAP_SECS } else { (2 * secs) as u64 }
}

impl WifiBackoff {
    /// The state after one sweep at `now` that found the link `up` or not.
    pub open spec fn supervised(self, now: Millis, up: bool) -> WifiBackoff {
        if up {
            WifiBackoff { next_attempt: self.next_attempt, backoff_secs: 1, last_connected: Some(now) }
        } else if now.0 >= self.next_attempt.0 {
            WifiBackoff {
                next_attempt: Millis(sat_add(now.0 as int, secs_to_millis(self.backoff_secs)) as u64),
                backoff_secs: doubled_backoff(self.backoff_secs),
                last_connected: self.last_connected,
            }
        } else {
            self
        }
    }

    /// Whether that sweep fires a reconnect.
    pub open spec fn reconnects(self, now: Millis, up: bool) -> bool {
        !up && now.0 >= self.next_attempt.0
    }

    /// Freshly booted: reconnect at once, first backoff 1 s, never connected.
    pub fn new() -> (r: Self)
        ensures
            r == (WifiBackoff { next_attempt: Millis(0), backoff_secs: 1, last_connected: None }),
    {
        WifiBackoff { next_attempt: Millis(0), backoff_secs: 1, last_connected: None }
    }

    /// One sweep: an up link resets the backoff and stamps the connection;
    /// a down link past its next attempt fires a reconnect (returns `true`),
    /// schedules the next one a backoff later and doubles the backoff up to
    /// the cap.
    pub fn supervise(&mut self, now: Millis, up: bool) -> (reconnect: bool)
        ensures
            *final(self) == old(self).supervised(now, up),
            reconnect == old(self).reconnects(now, up),
    {
        if up {
            self.last_connected = Some(now);
            self.backoff_secs = 1;
            return false;
        }
        if now.0 >= self.next_attempt.0 {
            self.next_attempt = now.saturating_add(Millis::from_secs(self.backoff_secs));
            self.backoff_secs = if self.backoff_secs > BACKOFF_CAP_SECS / 2 {
                BACKOFF_CAP_SECS
            } else {
                self.backoff_secs * 2
            };
            true
        } else {
            false
        }
    }

    /// Whether the station has held an IP since boot.
    pub fn ever_connected(&self) -> (r: bool)
        ensures
            r == self.last_connected is Some,
    {
        self.last_connected.is_some()
    }
}

/// How long the link has been continuously down: since the last sweep that
/// saw it up, or since boot when it never was.
pub fn down_for(wifi: &WifiBackoff, now: Millis) -> (r: Option<Millis>)
    ensures
        r == Some(
            match wifi.last_connected {
                Some(last) => Millis(sat_sub(now.0 as int, last.0 as int) as u64),
                None => now,
            },
        ),
{
    match wifi.last_connected {
        Some(last) => Some(now.since(last)),
        None => Some(now),
    }
}

/// The giveup rule: restart once the link has been continuously down for
/// at least `giveup` (since boot when it never came up, so a build with
/// wrong credentials restarts too), unless an upload is streaming.
pub fn giveup_due(wifi: &WifiBackoff, now: Millis, giveup: Millis, ota_busy: bool) -> (r: bool)
    ensures
        r == (!ota_busy && match wifi.last_connected {
            Some(last) => sat_sub(now.0 as int, last.0 as int) >= giveup.0,
            None => now.0 >= giveup.0,
        }),
{
    if ota_busy {
        return false;
    }
    match down_for(wifi, now) {
        Some(down) => down.0 >= giveup.0,
        None => false,
    }
}

} // verus!
