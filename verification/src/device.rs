//! A configured sensor and the hex parsers for its MAC and bindkey.

use vstd::prelude::*;
use crate::text::bytes_of;

verus! {

/// A configured sensor: MAC in human-readable order, a name, and the AES
/// bindkey when its frames are encrypted.
#[derive(Clone, Copy, Debug, PartialEq, Eq)]
pub struct Device {
    pub mac: [u8; 6],
    pub name: &'static str,
    pub bindkey: Option<[u8; 16]>,
}

impl Device {
    pub fn plain(mac: [u8; 6], name: &'static str) -> (r: Self)
        ensures
            r.mac == mac,
            r.name == name,
            r.bindkey == None::<[u8; 16]>,
    {
        Device { mac, name, bindkey: None }
    }

    pub fn encrypted(mac: [u8; 6], name: &'static str, bindkey: [u8; 16]) -> (r: Self)
        ensures
            r.mac == mac,
            r.name == name,
            r.bindkey == Some(bindkey),
    {
        Device { mac, name, bindkey: Some(bindkey) }
    }

    pub fn is_encrypted(&self) -> (r: bool)
        ensures
            r == self.bindkey.is_some(),
    {
        self.bindkey.is_some()
    }
}

/// An ASCII hex digit, either case.
pub open spec fn is_hex(c: u8) -> bool {
    (48 <= c <= 57) || (97 <= c <= 102) || (65 <= c <= 70)
}

/// The value of an ASCII hex digit.
pub open spec fn hex_value(c: u8) -> int {
    if 48 <= c <= 57 {
        c - 48
    } else if 97 <= c <= 102 {
        c - 97 + 10
    } else {
        c - 65 + 10
    }
}

/// The byte written by the two hex digits `hi` and `lo`.
pub open spec fn hex_pair(hi: u8, lo: u8) -> u8 {
    (16 * hex_value(hi) + hex_value(lo)) as u8
}

/// `AA:BB:CC:DD:EE:FF`: six hex pairs separated by colons.
pub open spec fn is_mac_text(b: Seq<u8>) -> bool {
    &&& b.len() == 17
    &&& forall|k: int| 0 <= k < 17 && k % 3 != 2 ==> is_hex(#[trigger] b[k])
    &&& forall|k: int| 0 <= k < 17 && k % 3 == 2 ==> #[trigger] b[k] == 58u8
}

/// Thirty-two hex digits.
pub open spec fn is_bindkey_text(b: Seq<u8>) -> bool {
    &&& b.len() == 32
    &&& forall|i: int| 0 <= i < 32 ==> is_hex(#[trigger] b[i])
}

/// Parses `AA:BB:CC:DD:EE:FF` (either case) into bytes in the written order.
pub fn parse_mac(s: &str) -> (r: [u8; 6])
    requires
        is_mac_text(bytes_of(s)),
    ensures
        forall|i: int|
            0 <= i < 6 ==> #[trigger] r@[i] == hex_pair(bytes_of(s)[3 * i], bytes_of(s)[3 * i + 1]),
{
    mac_from_bytes(s.as_bytes())
}

/// `parse_mac` on bytes.
pub fn mac_from_bytes(b: &[u8]) -> (r: [u8; 6])
    requires
        is_mac_text(b@),
    ensures
        forall|i: int| 0 <= i < 6 ==> #[trigger] r@[i] == hex_pair(b@[3 * i], b@[3 * i + 1]),
{
    let mut out = [0u8; 6];
    let mut i: usize = 0;
    while i < 6
        invariant
            is_mac_text(b@),
            i <= 6,
            forall|k: int| 0 <= k < i ==> #[trigger] out@[k] == hex_pair(b@[3 * k], b@[3 * k + 1]),
        decreases 6 - i,
    {
        let p = i * 3;
        assert(is_hex(b@[p as int]) && is_hex(b@[p + 1]));
        out[i] = hex_val(b[p]) * 16 + hex_val(b[p + 1]);
        i = i + 1;
    }
    out
}

/// Parses 32 hex digits (either case) into the 16-byte bindkey.
pub fn parse_bindkey(s: &str) -> (r: [u8; 16])
    requires
        is_bindkey_text(bytes_of(s)),
    ensures
        forall|i: int|
            0 <= i < 16 ==> #[trigger] r@[i] == hex_pair(bytes_of(s)[2 * i], bytes_of(s)[2 * i + 1]),
{
    bindkey_from_bytes(s.as_bytes())
}

/// `parse_bindkey` on bytes.
pub fn bindkey_from_bytes(b: &[u8]) -> (r: [u8; 16])
    requires
        is_bindkey_text(b@),
    ensures
        forall|i: int| 0 <= i < 16 ==> #[trigger] r@[i] == hex_pair(b@[2 * i], b@[2 * i + 1]),
{
    let mut out = [0u8; 16];
    let mut i: usize = 0;
    while i < 16
        invariant
            is_bindkey_text(b@),
            i <= 16,
            forall|k: int| 0 <= k < i ==> #[trigger] out@[k] == hex_pair(b@[2 * k], b@[2 * k + 1]),
        decreases 16 - i,
    {
        out[i] = hex_val(b[i * 2]) * 16 + hex_val(b[i * 2 + 1]);
        i = i + 1;
    }
    out
}

/// The value of one hex digit.
pub fn hex_val(c: u8) -> (r: u8)
    requires
        is_hex(c),
    ensures
        r == hex_value(c),
        r < 16,
{
    if c >= 48 && c <= 57 {
        c - 48
    } else if c >= 97 && c <= 102 {
        c - 97 + 10
    } else {
        c - 65 + 10
    }
}

/// Whether `c` is an ASCII hex digit.
pub fn hex_digit(c: u8) -> (r: bool)
    ensures
        r == is_hex(c),
{
    (c >= 48 && c <= 57) || (c >= 97 && c <= 102) || (c >= 65 && c <= 70)
}

/// Whether `s` is a MAC in `AA:BB:CC:DD:EE:FF` form, as `parse_mac` takes it.
pub fn is_mac_str(s: &str) -> (r: bool)
    ensures
        r == is_mac_text(bytes_of(s)),
{
    is_mac_bytes(s.as_bytes())
}

/// `is_mac_str` on bytes.
pub fn is_mac_bytes(b: &[u8]) -> (r: bool)
    ensures
        r == is_mac_text(b@),
{
    if b.len() != 17 {
        return false;
    }
    let mut k: usize = 0;
    while k < 17
        invariant
            b@.len() == 17,
            k <= 17,
            forall|j: int| 0 <= j < k && j % 3 != 2 ==> is_hex(#[trigger] b@[j]),
            forall|j: int| 0 <= j < k && j % 3 == 2 ==> #[trigger] b@[j] == 58u8,
        decreases 17 - k,
    {
        if k % 3 == 2 {
            if b[k] != 58u8 {
                return false;
            }
        } else if !hex_digit(b[k]) {
            return false;
        }
        k = k + 1;
    }
    true
}

/// Whether `s` is 32 hex digits, as `parse_bindkey` takes it.
pub fn is_bindkey_str(s: &str) -> (r: bool)
    ensures
        r == is_bindkey_text(bytes_of(s)),
{
    is_bindkey_bytes(s.as_bytes())
}

/// `is_bindkey_str` on bytes.
pub fn is_bindkey_bytes(b: &[u8]) -> (r: bool)
    ensures
        r == is_bindkey_text(b@),
{
    if b.len() != 32 {
        return false;
    }
    let mut k: usize = 0;
    while k < 32
        invariant
            b@.len() == 32,
            k <= 32,
            forall|j: int| 0 <= j < k ==> is_hex(#[trigger] b@[j]),
        decreases 32 - k,
    {
        if !hex_digit(b[k]) {
            return false;
        }
        k = k + 1;
    }
    true
}

} // verus!
