//! Decisions behind the firmware's effects: which reason a boot is counted
//! under, how the published Wi-Fi RSSI is encoded, and the OTA upload
//! admission rules.

use vstd::prelude::*;
use crate::render::RebootCounts;
use crate::text::bytes_of;

verus! {

/// Why the chip last reset, as the reset-reason register reports it.
#[derive(Clone, Copy, Debug, PartialEq, Eq, Structural)]
pub enum ResetKind {
    /// `esp_restart()`: every deliberate restart looks alike here.
    Software,
    Panic,
    TaskWatchdog,
    InterruptWatchdog,
    OtherWatchdog,
    PowerOn,
    Brownout,
    /// Anything else the register can report.
    Other,
}

/// The reasons a boot is counted under; each is also its counter's key.
#[derive(Clone, Copy, Debug, PartialEq, Eq, Structural)]
pub enum RebootReason {
    Panic,
    Wifi,
    BleWedge,
    Ota,
    Power,
    Wdt,
    Unknown,
}

/// Label of a reason, as stored and exported.
pub open spec fn reason_label(r: RebootReason) -> Seq<u8> {
    match r {
        RebootReason::Panic => bytes_of("panic"),
        RebootReason::Wifi => bytes_of("wifi"),
        RebootReason::BleWedge => bytes_of("ble_wedge"),
        RebootReason::Ota => bytes_of("ota"),
        RebootReason::Power => bytes_of("power"),
        RebootReason::Wdt => bytes_of("wdt"),
        RebootReason::Unknown => bytes_of("unknown"),
    }
}

/// The reason a boot is counted under: a software reset takes the reason
/// declared before the restart when that is one of the deliberate ones
/// (Wi-Fi giveup, radio wedge, OTA), else `unknown`; the hardware reasons
/// map directly.
pub open spec fn boot_reason(reset: ResetKind, pending: Option<RebootReason>) -> RebootReason {
    match reset {
        ResetKind::Software => match pending {
            Some(RebootReason::Wifi) => RebootReason::Wifi,
            Some(RebootReason::BleWedge) => RebootReason::BleWedge,
            Some(RebootReason::Ota) => RebootReason::Ota,
            _ => RebootReason::Unknown,
        },
        ResetKind::Panic => RebootReason::Panic,
        ResetKind::TaskWatchdog => RebootReason::Wdt,
        ResetKind::InterruptWatchdog => RebootReason::Wdt,
        ResetKind::OtherWatchdog => RebootReason::Wdt,
        ResetKind::PowerOn => RebootReason::Power,
        ResetKind::Brownout => RebootReason::Power,
        ResetKind::Other => RebootReason::Unknown,
    }
}

/// The counter of `reason` in `c`.
pub open spec fn count_of(c: RebootCounts, reason: RebootReason) -> u32 {
    match reason {
        RebootReason::Panic => c.panic,
        RebootReason::Wifi => c.wifi,
        RebootReason::BleWedge => c.ble_wedge,
        RebootReason::Ota => c.ota,
        RebootReason::Power => c.power,
        RebootReason::Wdt => c.wdt,
        RebootReason::Unknown => c.unknown,
    }
}

/// Byte-wise equality of two slices.
pub fn bytes_eq(a: &[u8], b: &[u8]) -> (r: bool)
    ensures
        r == (a@ == b@),
{
    if a.len() != b.len() {
        return false;
    }
    let mut i: usize = 0;
    while i < a.len()
        invariant
            a@.len() == b@.len(),
            i <= a@.len(),
            forall|j: int| 0 <= j < i ==> a@[j] == b@[j],
        decreases a@.len() - i,
    {
        if a[i] != b[i] {
            return false;
        }
        i = i + 1;
    }
    assert(a@ =~= b@);
    true
}

impl RebootReason {
    /// The label: `panic`, `wifi`, `ble_wedge`, `ota`, `power`, `wdt` or `unknown`.
    pub fn label(self) -> (r: &'static str)
        ensures
            bytes_of(r) == reason_label(self),
    {
        match self {
            RebootReason::Panic => "panic",
            RebootReason::Wifi => "wifi",
            RebootReason::BleWedge => "ble_wedge",
            RebootReason::Ota => "ota",
            RebootReason::Power => "power",
            RebootReason::Wdt => "wdt",
            RebootReason::Unknown => "unknown",
        }
    }

    /// The reason whose label is `s`, if any.
    pub fn from_label(s: &str) -> (r: Option<RebootReason>)
        ensures
            r matches Some(x) ==> reason_label(x) == bytes_of(s),
            r is None ==> forall|x: RebootReason| reason_label(x) != bytes_of(s),
            forall|x: RebootReason| #[trigger] reason_label(x) == bytes_of(s) <==> r == Some(x),
    {
        let b = s.as_bytes();
        let r = if bytes_eq(b, "panic".as_bytes()) {
            Some(RebootReason::Panic)
        } else if bytes_eq(b, "wifi".as_bytes()) {
            Some(RebootReason::Wifi)
        } else if bytes_eq(b, "ble_wedge".as_bytes()) {
            Some(RebootReason::BleWedge)
        } else if bytes_eq(b, "ota".as_bytes()) {
            Some(RebootReason::Ota)
        } else if bytes_eq(b, "power".as_bytes()) {
            Some(RebootReason::Power)
        } else if bytes_eq(b, "wdt".as_bytes()) {
            Some(RebootReason::Wdt)
        } else if bytes_eq(b, "unknown".as_bytes()) {
            Some(RebootReason::Unknown)
        } else {
            None
        };
        proof {
            assert forall|x: RebootReason| #[trigger] reason_label(x) == bytes_of(s) <==> r == Some(x) by {
                if let Some(y) = r {
                    lemma_labels_distinct(x, y);
                }
            }
        }
        r
    }
}

/// Distinct reasons have distinct labels.
pub proof fn lemma_labels_distinct(x: RebootReason, y: RebootReason)
    ensures
        reason_label(x) == reason_label(y) ==> x == y,
{
    broadcast use vstd::string::is_ascii_spec_bytes;
    reveal_strlit("panic");
    reveal_strlit("wifi");
    reveal_strlit("ble_wedge");
    reveal_strlit("ota");
    reveal_strlit("power");
    reveal_strlit("wdt");
    reveal_strlit("unknown");
    assert(vstd::string::is_ascii("panic"));
    assert(vstd::string::is_ascii("wifi"));
    assert(vstd::string::is_ascii("ble_wedge"));
    assert(vstd::string::is_ascii("ota"));
    assert(vstd::string::is_ascii("power"));
    assert(vstd::string::is_ascii("wdt"));
    assert(vstd::string::is_ascii("unknown"));
    assert(bytes_of("panic").len() == 5 && bytes_of("panic")[0] == 112u8 && bytes_of("panic")[1] == 97u8);
    assert(bytes_of("wifi").len() == 4 && bytes_of("wifi")[0] == 119u8 && bytes_of("wifi")[1] == 105u8);
    assert(bytes_of("ble_wedge").len() == 9 && bytes_of("ble_wedge")[0] == 98u8 && bytes_of("ble_wedge")[1] == 108u8);
    assert(bytes_of("ota").len() == 3 && bytes_of("ota")[0] == 111u8 && bytes_of("ota")[1] == 116u8);
    assert(bytes_of("power").len() == 5 && bytes_of("power")[0] == 112u8 && bytes_of("power")[1] == 111u8);
    assert(bytes_of("wdt").len() == 3 && bytes_of("wdt")[0] == 119u8 && bytes_of("wdt")[1] == 100u8);
    assert(bytes_of("unknown").len() == 7 && bytes_of("unknown")[0] == 117u8 && bytes_of("unknown")[1] == 110u8);
    if reason_label(x) == reason_label(y) {
        assert(reason_label(x).len() == reason_label(y).len());
        assert(reason_label(x)[0] == reason_label(y)[0]);
        assert(reason_label(x)[1] == reason_label(y)[1]);
    }
}

/// Classifies this boot from the reset register and the reason declared
/// before a deliberate restart.
pub fn classify_boot(reset: ResetKind, pending: Option<RebootReason>) -> (r: RebootReason)
    ensures
        r == boot_reason(reset, pending),
{
    match reset {
        ResetKind::Software => match pending {
            Some(RebootReason::Wifi) => RebootReason::Wifi,
            Some(RebootReason::BleWedge) => RebootReason::BleWedge,
            Some(RebootReason::Ota) => RebootReason::Ota,
            _ => RebootReason::Unknown,
        },
        ResetKind::Panic => RebootReason::Panic,
        ResetKind::TaskWatchdog => RebootReason::Wdt,
        ResetKind::InterruptWatchdog => RebootReason::Wdt,
        ResetKind::OtherWatchdog => RebootReason::Wdt,
        ResetKind::PowerOn => RebootReason::Power,
        ResetKind::Brownout => RebootReason::Power,
        ResetKind::Other => RebootReason::Unknown,
    }
}

/// The stored count of a reason after one more boot under it, saturating
/// at `u32::MAX`.
pub fn next_boot_count(n: u32) -> (r: u32)
    ensures
        r == (if n == u32::MAX { n } else { (n + 1) as u32 }),
{
    if n == u32::MAX {
        n
    } else {
        n + 1
    }
}

/// Reads the counter of `reason`.
pub fn reboot_count(counts: &RebootCounts, reason: RebootReason) -> (r: u32)
    ensures
        r == count_of(*counts, reason),
{
    match reason {
        RebootReason::Panic => counts.panic,
        RebootReason::Wifi => counts.wifi,
        RebootReason::BleWedge => counts.ble_wedge,
        RebootReason::Ota => counts.ota,
        RebootReason::Power => counts.power,
        RebootReason::Wdt => counts.wdt,
        RebootReason::Unknown => counts.unknown,
    }
}

/// The stored form of an RSSI reading: the dBm value, or 0 while unassociated.
pub open spec fn rssi_slot(rssi: Option<i8>) -> i8 {
    match rssi {
        Some(v) => v,
        None => 0i8,
    }
}

/// The RSSI a stored slot stands for.
pub open spec fn rssi_of_slot(slot: i8) -> Option<i8> {
    if slot == 0 { None } else { Some(slot) }
}

/// The stored form of the Wi-Fi RSSI: the dBm value, or 0 (physically
/// impossible) while unassociated.
pub fn wifi_rssi_slot(rssi: Option<i8>) -> (r: i8)
    ensures
        r == rssi_slot(rssi),
{
    match rssi {
        Some(v) => v,
        None => 0,
    }
}

/// The Wi-Fi RSSI a stored slot stands for: `None` for 0.
pub fn wifi_rssi_from_slot(slot: i8) -> (r: Option<i8>)
    ensures
        r == rssi_of_slot(slot),
{
    if slot == 0 {
        None
    } else {
        Some(slot)
    }
}

/// Claims the single upload slot: `true` (and the flag set) when no upload
/// was streaming, `false` (flag untouched) when one was.
pub fn claim_upload(in_progress: &mut bool) -> (claimed: bool)
    ensures
        claimed == !*old(in_progress),
        *final(in_progress),
{
    if *in_progress {
        false
    } else {
        *in_progress = true;
        true
    }
}

/// Whether an `X-Auth` header value grants access to `/ota`: present and
/// byte-for-byte equal to the token.
pub fn ota_authorized(header: Option<&str>, token: &str) -> (r: bool)
    ensures
        r == match header {
            Some(h) => bytes_of(h) == bytes_of(token),
            None => false,
        },
{
    match header {
        Some(h) => bytes_eq(h.as_bytes(), token.as_bytes()),
        None => false,
    }
}

} // verus!
