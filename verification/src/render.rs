//! The render layer: every HTTP body as bytes appended to a buffer, with
//! the exact bytes stated. Serving them is the firmware's business.

pub mod history;
pub mod prometheus;
pub mod readings;
pub mod status;

use vstd::prelude::*;
use crate::fixed::{centi, write_centi};
use crate::registry::{DeviceModel, RegistryModel};
use crate::device::Device;
use crate::text::{bytes_of, push_byte, push_bytes, push_i64, push_str, signed_dec};

verus! {

/// Harvester health, filled in by the firmware as plain values.
#[derive(Clone, Copy, Debug)]
pub struct Health {
    pub uptime_seconds: u64,
    pub free_heap_bytes: u32,
    pub min_free_heap_bytes: u32,
    /// `None` while the access point is unreachable: the gauge gaps.
    pub wifi_rssi_dbm: Option<i8>,
    pub version: &'static str,
    pub git_sha: &'static str,
    pub reboots: RebootCounts,
    /// Reason recorded for the most recent boot.
    pub last_reboot_reason: &'static str,
}

/// All seven reboot counters, exported even at zero.
#[derive(Clone, Copy, Debug, PartialEq, Eq, Structural)]
pub struct RebootCounts {
    pub panic: u32,
    pub wifi: u32,
    pub ble_wedge: u32,
    pub ota: u32,
    pub power: u32,
    pub wdt: u32,
    pub unknown: u32,
}

impl Default for RebootCounts {
    fn default() -> (r: Self)
        ensures
            r == (RebootCounts { panic: 0, wifi: 0, ble_wedge: 0, ota: 0, power: 0, wdt: 0, unknown: 0 }),
    {
        RebootCounts { panic: 0, wifi: 0, ble_wedge: 0, ota: 0, power: 0, wdt: 0, unknown: 0 }
    }
}

/// Sum of the seven reboot counters.
pub open spec fn reboot_sum(r: RebootCounts) -> int {
    r.panic + r.wifi + r.ble_wedge + r.ota + r.power + r.wdt + r.unknown
}

/// All seven reboot reasons summed; seven `u32`s cannot overflow a `u64`.
pub fn reboot_total(reboots: &RebootCounts) -> (r: u64)
    ensures
        r == reboot_sum(*reboots),
{
    reboots.panic as u64 + reboots.wifi as u64 + reboots.ble_wedge as u64 + reboots.ota as u64
        + reboots.power as u64 + reboots.wdt as u64 + reboots.unknown as u64
}

/// The bytes of one device's contribution, for each configured device in
/// order: `f(i, device, state)` for `i` in `0..n`.
pub open spec fn per_device(
    m: RegistryModel,
    n: int,
    f: spec_fn(int, Device, DeviceModel) -> Seq<u8>,
) -> Seq<u8>
    decreases n,
{
    if n <= 0 {
        Seq::empty()
    } else {
        per_device(m, n - 1, f) + f(n - 1, m.devices[n - 1], m.states[n - 1])
    }
}

/// `,` before every item but the first.
pub open spec fn sep(i: int) -> Seq<u8> {
    if i == 0 { Seq::empty() } else { seq![44u8] }
}

/// `true` or `false`.
#[verifier::opaque]
pub open spec fn bool_text(b: bool) -> Seq<u8> {
    if b { bytes_of("true") } else { bytes_of("false") }
}

/// `1` or `0`.
pub open spec fn flag_text(b: bool) -> Seq<u8> {
    if b { seq![49u8] } else { seq![48u8] }
}

/// Appends `true` or `false`.
pub fn write_bool(w: &mut Vec<u8>, b: bool)
    ensures
        final(w)@ == old(w)@ + bool_text(b),
{
    reveal(bool_text);
    if b {
        push_str(w, "true");
    } else {
        push_str(w, "false");
    }
}

/// Appends `1` or `0`.
pub fn write_flag(w: &mut Vec<u8>, b: bool)
    ensures
        final(w)@ == old(w)@ + flag_text(b),
{
    if b {
        push_byte(w, 49u8);
    } else {
        push_byte(w, 48u8);
    }
    assert(old(w)@.push(if b { 49u8 } else { 48u8 }) =~= old(w)@ + flag_text(b));
}

/// Lower-case hex digit of `v` (0..=15).
pub open spec fn hex_digit(v: int) -> u8 {
    if v < 10 { (48 + v) as u8 } else { (87 + v) as u8 }
}

/// One byte inside a JSON string literal.
pub open spec fn json_byte(b: u8) -> Seq<u8> {
    if b == 34 {
        seq![92u8, 34u8]
    } else if b == 92 {
        seq![92u8, 92u8]
    } else if b < 32 {
        seq![92u8, 117u8, 48u8, 48u8, hex_digit((b / 16) as int), hex_digit((b % 16) as int)]
    } else {
        seq![b]
    }
}

/// The bytes of a JSON string literal's body.
pub open spec fn json_body(s: Seq<u8>) -> Seq<u8>
    decreases s.len(),
{
    if s.len() == 0 {
        Seq::empty()
    } else {
        json_body(s.drop_last()) + json_byte(s.last())
    }
}

/// `s` as a JSON string literal: quotes, backslashes and control
/// characters escaped.
#[verifier::opaque]
pub open spec fn json_str(s: &str) -> Seq<u8> {
    seq![34u8] + json_body(bytes_of(s)) + seq![34u8]
}

/// One byte of an exposition-format label value.
pub open spec fn label_byte(b: u8) -> Seq<u8> {
    if b == 92 {
        seq![92u8, 92u8]
    } else if b == 34 {
        seq![92u8, 34u8]
    } else if b == 10 {
        seq![92u8, 110u8]
    } else {
        seq![b]
    }
}

/// An exposition-format label value: backslash, quote and newline escaped.
pub open spec fn label_body(s: Seq<u8>) -> Seq<u8>
    decreases s.len(),
{
    if s.len() == 0 {
        Seq::empty()
    } else {
        label_body(s.drop_last()) + label_byte(s.last())
    }
}

/// Appends `s` as a JSON string literal. Escaping works byte by byte: the
/// escaped bytes are all ASCII, and no byte of a multi-byte UTF-8 sequence is.
pub fn write_json_str(w: &mut Vec<u8>, s: &str)
    ensures
        final(w)@ == old(w)@ + json_str(s),
{
    let b = s.as_bytes();
    push_byte(w, 34u8);
    let ghost start = w@;
    let mut i: usize = 0;
    while i < b.len()
        invariant
            i <= b@.len(),
            w@ == start + json_body(b@.subrange(0, i as int)),
        decreases b@.len() - i,
    {
        let c = b[i];
        let ghost before = w@;
        if c == 34 {
            push_byte(w, 92u8);
            push_byte(w, 34u8);
        } else if c == 92 {
            push_byte(w, 92u8);
            push_byte(w, 92u8);
        } else if c < 32 {
            push_byte(w, 92u8);
            push_byte(w, 117u8);
            push_byte(w, 48u8);
            push_byte(w, 48u8);
            let hi = c / 16;
            let lo = c % 16;
            push_byte(w, if hi < 10 { 48 + hi } else { 87 + hi });
            push_byte(w, if lo < 10 { 48 + lo } else { 87 + lo });
        } else {
            push_byte(w, c);
        }
        assert(w@ == before + json_byte(c));
        assert(b@.subrange(0, i + 1).drop_last() =~= b@.subrange(0, i as int));
        i = i + 1;
    }
    assert(b@.subrange(0, b@.len() as int) =~= b@);
    push_byte(w, 34u8);
    reveal(json_str);
}

/// Appends `s` as an exposition-format label value.
pub fn write_escaped(w: &mut Vec<u8>, s: &str)
    ensures
        final(w)@ == old(w)@ + label_body(bytes_of(s)),
{
    let b = s.as_bytes();
    let ghost start = w@;
    let mut i: usize = 0;
    while i < b.len()
        invariant
            i <= b@.len(),
            w@ == start + label_body(b@.subrange(0, i as int)),
        decreases b@.len() - i,
    {
        let c = b[i];
        let ghost before = w@;
        if c == 92 {
            push_byte(w, 92u8);
            push_byte(w, 92u8);
        } else if c == 34 {
            push_byte(w, 92u8);
            push_byte(w, 34u8);
        } else if c == 10 {
            push_byte(w, 92u8);
            push_byte(w, 110u8);
        } else {
            push_byte(w, c);
        }
        assert(w@ == before + label_byte(c));
        assert(b@.subrange(0, i + 1).drop_last() =~= b@.subrange(0, i as int));
        i = i + 1;
    }
    assert(b@.subrange(0, b@.len() as int) =~= b@);
}

/// A centi-scaled number, or `null` when absent.
#[verifier::opaque]
pub open spec fn centi_or_null(v: Option<i32>) -> Seq<u8> {
    match v {
        Some(x) => centi(x as int),
        None => bytes_of("null"),
    }
}

/// An integer, or `null` when absent.
#[verifier::opaque]
pub open spec fn int_or_null(v: Option<i64>) -> Seq<u8> {
    match v {
        Some(x) => signed_dec(x as int),
        None => bytes_of("null"),
    }
}

/// Appends a centi-scaled number or `null`: absent is never a fake zero.
pub fn write_centi_or_null(w: &mut Vec<u8>, value: Option<i32>)
    ensures
        final(w)@ == old(w)@ + centi_or_null(value),
{
    reveal(centi_or_null);
    match value {
        Some(v) => write_centi(w, v),
        None => push_str(w, "null"),
    }
}

/// Appends an integer or `null`.
pub fn write_int_or_null(w: &mut Vec<u8>, value: Option<i64>)
    ensures
        final(w)@ == old(w)@ + int_or_null(value),
{
    reveal(int_or_null);
    match value {
        Some(v) => push_i64(w, v),
        None => push_str(w, "null"),
    }
}

} // verus!
