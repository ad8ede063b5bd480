//! `/status` body: the device timeout and how many devices are online.

use vstd::prelude::*;
use crate::text::{bytes_of, dec, push_str, push_u64};

verus! {

/// The `/status` body.
pub open spec fn status_body(device_timeout_seconds: u64, devices_active: usize) -> Seq<u8> {
    bytes_of("{\"device_timeout_seconds\": ") + dec(device_timeout_seconds as nat) + bytes_of(
        ", \"devices_active\": ",
    ) + dec(devices_active as nat) + bytes_of("}")
}

/// Appends the `/status` body: spaces after colons and comma included.
pub fn render_status(w: &mut Vec<u8>, device_timeout_seconds: u64, devices_active: usize)
    ensures
        final(w)@ == old(w)@ + status_body(device_timeout_seconds, devices_active),
{
    push_str(w, "{\"device_timeout_seconds\": ");
    push_u64(w, device_timeout_seconds);
    push_str(w, ", \"devices_active\": ");
    push_u64(w, devices_active as u64);
    push_str(w, "}");
    assert(w@ =~= old(w)@ + status_body(device_timeout_seconds, devices_active));
}

} // verus!
