//! When a freshly flashed image is marked valid: after a minute of healthy
//! uptime with any radio evidence, or unconditionally after ten minutes.

use vstd::prelude::*;
use crate::config::{OTA_VALIDATE_AFTER_SECS, OTA_VALIDATE_DEADLINE_SECS};
use crate::text::{bytes_of, dec, push_str, push_u64};

verus! {

/// Whether the running image is due to be marked valid at `uptime_secs`.
/// Radio evidence is a parsed beacon or a stray advert: requiring a parsed
/// beacon alone would boot-loop a good build on a bench with no sensors.
pub open spec fn validation_due(uptime_secs: u64, radio_evidence: bool) -> bool {
    (uptime_secs >= 60 && radio_evidence) || uptime_secs >= 600
}

/// The validation step of the 1 Hz sweep. Returns `true` when the running
/// slot must be marked valid now; the slot then counts as settled whatever
/// the marking reports, so `already_valid` becomes `true` and later sweeps
/// do nothing.
pub fn validate_if_due(uptime_secs: u64, radio_evidence: bool, already_valid: &mut bool) -> (mark_now: bool)
    ensures
        mark_now == (!*old(already_valid) && validation_due(uptime_secs, radio_evidence)),
        *final(already_valid) == (*old(already_valid) || mark_now),
{
    if *already_valid {
        return false;
    }
    let due = (uptime_secs >= OTA_VALIDATE_AFTER_SECS && radio_evidence) || uptime_secs
        >= OTA_VALIDATE_DEADLINE_SECS;
    if !due {
        return false;
    }
    *already_valid = true;
    true
}

/// How an upload request is answered before any byte of it is read.
#[derive(Clone, Copy, Debug, PartialEq, Eq, Structural)]
pub enum UploadAdmission {
    /// Missing or wrong token: 401, flash untouched.
    Unauthorized,
    /// Another upload is streaming: 409.
    Busy,
    /// Stream the body into the other slot.
    Admitted,
}

/// The token is checked before the upload slot is claimed; `claimed` is
/// what claiming returned and is only consulted for an authorized request.
pub fn admit_upload(authorized: bool, claimed: bool) -> (r: UploadAdmission)
    ensures
        r == (if !authorized {
            UploadAdmission::Unauthorized
        } else if !claimed {
            UploadAdmission::Busy
        } else {
            UploadAdmission::Admitted
        }),
{
    if !authorized {
        UploadAdmission::Unauthorized
    } else if !claimed {
        UploadAdmission::Busy
    } else {
        UploadAdmission::Admitted
    }
}

/// What ends a streamed upload.
#[derive(Clone, Copy, Debug, PartialEq, Eq, Structural)]
pub enum UploadEnd {
    /// Reading the request body failed: abort the update, 500.
    ReadFailed,
    /// Writing to flash failed: abort the update, 500.
    WriteFailed,
    /// The body ended.
    Finished,
}

/// HTTP status of an upload that ended with `end` after `total` bytes:
/// 500 for a failed read or write, 400 for an empty body (the update is
/// aborted in all three), 200 when the image is complete.
pub open spec fn upload_status_of(end: UploadEnd, total: u64) -> u16 {
    match end {
        UploadEnd::ReadFailed => 500,
        UploadEnd::WriteFailed => 500,
        UploadEnd::Finished => if total == 0 { 400 } else { 200 },
    }
}

/// The status an upload is answered with; only a 200 completes the update
/// and queues the restart.
pub fn upload_status(end: UploadEnd, total: u64) -> (r: u16)
    ensures
        r == upload_status_of(end, total),
{
    match end {
        UploadEnd::ReadFailed => 500,
        UploadEnd::WriteFailed => 500,
        UploadEnd::Finished => if total == 0 { 400 } else { 200 },
    }
}

/// Body of the answer to a completed upload.
pub open spec fn upload_ack_text(total: u64) -> Seq<u8> {
    bytes_of("ok: ") + dec(total as nat) + bytes_of(" bytes, rebooting\n")
}

/// Appends `ok: <total> bytes, rebooting\n`.
pub fn upload_ack(w: &mut Vec<u8>, total: u64)
    ensures
        final(w)@ == old(w)@ + upload_ack_text(total),
{
    push_str(w, "ok: ");
    push_u64(w, total);
    push_str(w, " bytes, rebooting\n");
    assert(w@ =~= old(w)@ + upload_ack_text(total));
}

/// Whether the sweep restarts into a freshly uploaded image now: one was
/// completed, and no other upload is streaming.
pub fn ota_restart_due(requested: bool, ota_busy: bool) -> (r: bool)
    ensures
        r == (requested && !ota_busy),
{
    requested && !ota_busy
}

} // verus!
