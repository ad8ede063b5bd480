//! From the raw advertising payload of a configured device to the outcome
//! the registry records: service data lookup, the encrypted/plaintext
//! pairing rule, decryption and the object walk.

use vstd::prelude::*;
use vstd::slice::slice_subrange;
use crate::frame::{decrypt, frame_open, DecryptError, MAX_PLAINTEXT};
use crate::parse::{fcd2_from, fcd2_service_data, parse, spec_parse, ParseError, Parsed};
use crate::registry::BeaconFailure;
use crate::text::{bytes_of, dec, push_byte, push_str, push_u64};

verus! {

/// Why a beacon from a configured device yielded no readings.
#[derive(Clone, Copy, Debug, PartialEq, Eq, Structural)]
pub enum AdvertFailure {
    /// No, or empty, `0xFCD2` service data.
    NoServiceData,
    /// The frame was encrypted as configured, and did not decrypt.
    Decrypt(DecryptError),
    /// An encrypted frame for a plaintext device, or a plaintext frame for a
    /// device configured with a bindkey: neither can be authenticated.
    AuthMismatch { frame_encrypted: bool },
    /// The (decrypted) objects did not walk.
    Parse(ParseError),
}

/// The counter a failure lands in.
pub open spec fn failure_kind(f: AdvertFailure) -> BeaconFailure {
    match f {
        AdvertFailure::NoServiceData => BeaconFailure::Parse,
        AdvertFailure::Decrypt(_) => BeaconFailure::Decrypt,
        AdvertFailure::AuthMismatch { .. } => BeaconFailure::Decrypt,
        AdvertFailure::Parse(_) => BeaconFailure::Parse,
    }
}

impl AdvertFailure {
    /// The counter this failure lands in: `decrypt_fail` for anything that
    /// could not be authenticated, `parse_fail` for anything unintelligible.
    pub fn beacon_failure(self) -> (r: BeaconFailure)
        ensures
            r == failure_kind(self),
    {
        match self {
            AdvertFailure::NoServiceData => BeaconFailure::Parse,
            AdvertFailure::Decrypt(_) => BeaconFailure::Decrypt,
            AdvertFailure::AuthMismatch { .. } => BeaconFailure::Decrypt,
            AdvertFailure::Parse(_) => BeaconFailure::Parse,
        }
    }
}

/// The object walk over the bytes decryption produced, or the decryption failure.
pub open spec fn plaintext_outcome(device_info: u8, decrypted: Result<Seq<u8>, DecryptError>) -> Result<
    Parsed,
    AdvertFailure,
> {
    match decrypted {
        Ok(objects) => match spec_parse(device_info, objects) {
            Ok(p) => Ok(p),
            Err(e) => Err(AdvertFailure::Parse(e)),
        },
        Err(e) => Err(AdvertFailure::Decrypt(e)),
    }
}

/// Walks the objects of a frame once decryption has had its say.
pub fn decode_plaintext(device_info: u8, decrypted: Result<&[u8], DecryptError>) -> (r: Result<
    Parsed,
    AdvertFailure,
>)
    ensures
        r == plaintext_outcome(
            device_info,
            match decrypted {
                Ok(b) => Ok(b@),
                Err(e) => Err(e),
            },
        ),
{
    match decrypted {
        Ok(objects) => match parse(device_info, objects) {
            Ok(p) => Ok(p),
            Err(e) => Err(AdvertFailure::Parse(e)),
        },
        Err(e) => Err(AdvertFailure::Decrypt(e)),
    }
}

/// What decrypting an encrypted body into a `MAX_PLAINTEXT` buffer gives.
pub open spec fn decrypted_body(bindkey: Seq<u8>, mac: Seq<u8>, device_info: u8, body: Seq<u8>) -> Result<
    Seq<u8>,
    DecryptError,
> {
    if body.len() < 8 {
        Err(DecryptError::TooShort)
    } else if body.len() - 8 > MAX_PLAINTEXT {
        Err(DecryptError::BufferTooSmall)
    } else {
        match frame_open(bindkey, mac, device_info, body) {
            Some(p) => Ok(p),
            None => Err(DecryptError::MicMismatch),
        }
    }
}

/// Whether `device_info` marks the frame as encrypted.
pub open spec fn frame_is_encrypted(device_info: u8) -> bool {
    device_info & 1u8 != 0
}

/// The outcome for an advert from the configured device `mac` (with
/// `bindkey` when configured encrypted) carrying `adv`.
pub open spec fn advert_outcome(bindkey: Option<[u8; 16]>, mac: Seq<u8>, adv: Seq<u8>) -> Result<
    Parsed,
    AdvertFailure,
> {
    match fcd2_from(adv, 0) {
        None => Err(AdvertFailure::NoServiceData),
        Some(svc) => if svc.len() == 0 {
            Err(AdvertFailure::NoServiceData)
        } else {
            let info = svc[0];
            let body = svc.drop_first();
            let encrypted = frame_is_encrypted(info);
            match bindkey {
                None => if encrypted {
                    Err(AdvertFailure::AuthMismatch { frame_encrypted: true })
                } else {
                    plaintext_outcome(info, Ok(body))
                },
                Some(key) => if encrypted {
                    plaintext_outcome(info, decrypted_body(key@, mac, info, body))
                } else {
                    Err(AdvertFailure::AuthMismatch { frame_encrypted: false })
                },
            }
        },
    }
}

/// Decodes one advert from a configured device: the `0xFCD2` service data,
/// decryption when (and only when) both the frame and the device
/// configuration say encrypted, then the object walk.
pub fn decode_advert(bindkey: Option<[u8; 16]>, mac: &[u8; 6], adv: &[u8]) -> (r: Result<
    Parsed,
    AdvertFailure,
>)
    ensures
        r == advert_outcome(bindkey, mac@, adv@),
{
    let svc = match fcd2_service_data(adv) {
        Some(s) => s,
        None => return Err(AdvertFailure::NoServiceData),
    };
    if svc.len() == 0 {
        return Err(AdvertFailure::NoServiceData);
    }
    let info: u8 = svc[0];
    let body = slice_subrange(svc, 1, svc.len());
    assert(body@ == svc@.drop_first());
    let encrypted: bool = info & 1u8 != 0;
    match bindkey {
        None => {
            if encrypted {
                Err(AdvertFailure::AuthMismatch { frame_encrypted: true })
            } else {
                decode_plaintext(info, Ok(body))
            }
        },
        Some(key) => {
            if !encrypted {
                return Err(AdvertFailure::AuthMismatch { frame_encrypted: false });
            }
            let mut plaintext = [0u8; 24];
            match decrypt(&key, mac, info, body, &mut plaintext) {
                Ok(len) => {
                    let objects = slice_subrange(plaintext.as_slice(), 0, len);
                    decode_plaintext(info, Ok(objects))
                },
                Err(e) => decode_plaintext(info, Err(e)),
            }
        },
    }
}

/// Name of a decryption failure, as it appears in the log.
pub open spec fn decrypt_error_name(e: DecryptError) -> Seq<u8> {
    match e {
        DecryptError::TooShort => bytes_of("TooShort"),
        DecryptError::BufferTooSmall => bytes_of("BufferTooSmall"),
        DecryptError::MicMismatch => bytes_of("MicMismatch"),
    }
}

/// Name of a walk failure, as it appears in the log.
pub open spec fn parse_error_name(e: ParseError) -> Seq<u8> {
    match e {
        ParseError::NotBthomeV2 => bytes_of("NotBthomeV2"),
        ParseError::Truncated => bytes_of("Truncated"),
        ParseError::OutOfRange => bytes_of("OutOfRange"),
    }
}

/// The log line a failure leaves for device `idx`; a missing service data
/// block is only counted, never logged.
pub open spec fn failure_note(idx: nat, f: AdvertFailure) -> Option<Seq<u8>> {
    match f {
        AdvertFailure::NoServiceData => None,
        AdvertFailure::Decrypt(e) => Some(
            bytes_of("decrypt failed for device ") + dec(idx) + bytes_of(": ") + decrypt_error_name(e),
        ),
        AdvertFailure::AuthMismatch { frame_encrypted } => Some(
            bytes_of("auth mismatch for device ") + dec(idx) + bytes_of(": frame encrypted=") + (
            if frame_encrypted {
                bytes_of("true")
            } else {
                bytes_of("false")
            }),
        ),
        AdvertFailure::Parse(e) => Some(
            bytes_of("parse failed for device ") + dec(idx) + bytes_of(": ") + parse_error_name(e),
        ),
    }
}

/// Upper-case hex digit of `v` (0..=15).
pub open spec fn upper_hex_digit(v: int) -> u8 {
    if v < 10 { (48 + v) as u8 } else { (55 + v) as u8 }
}

/// The log line of a newly latched unknown object id.
pub open spec fn novel_object_note(idx: nat, id: u8) -> Seq<u8> {
    bytes_of("device ") + dec(idx) + bytes_of(": unknown BTHome object id 0x") + seq![
        upper_hex_digit((id / 16) as int),
        upper_hex_digit((id % 16) as int),
    ] + bytes_of(", walk stopped (") + seq![0xc2u8, 0xa7u8] + bytes_of("7)")
}

/// Appends the log line of a failure for device `idx`, if it has one, and
/// says whether it did.
pub fn write_failure_note(w: &mut Vec<u8>, idx: usize, failure: AdvertFailure) -> (logged: bool)
    ensures
        logged == failure_note(idx as nat, failure) is Some,
        logged ==> final(w)@ == old(w)@ + failure_note(idx as nat, failure)->0,
        !logged ==> final(w)@ == old(w)@,
{
    match failure {
        AdvertFailure::NoServiceData => false,
        AdvertFailure::Decrypt(e) => {
            push_str(w, "decrypt failed for device ");
            push_u64(w, idx as u64);
            push_str(w, ": ");
            match e {
                DecryptError::TooShort => push_str(w, "TooShort"),
                DecryptError::BufferTooSmall => push_str(w, "BufferTooSmall"),
                DecryptError::MicMismatch => push_str(w, "MicMismatch"),
            }
            assert(w@ =~= old(w)@ + failure_note(idx as nat, failure)->0);
            true
        },
        AdvertFailure::AuthMismatch { frame_encrypted } => {
            push_str(w, "auth mismatch for device ");
            push_u64(w, idx as u64);
            push_str(w, ": frame encrypted=");
            if frame_encrypted {
                push_str(w, "true");
            } else {
                push_str(w, "false");
            }
            assert(w@ =~= old(w)@ + failure_note(idx as nat, failure)->0);
            true
        },
        AdvertFailure::Parse(e) => {
            push_str(w, "parse failed for device ");
            push_u64(w, idx as u64);
            push_str(w, ": ");
            match e {
                ParseError::NotBthomeV2 => push_str(w, "NotBthomeV2"),
                ParseError::Truncated => push_str(w, "Truncated"),
                ParseError::OutOfRange => push_str(w, "OutOfRange"),
            }
            assert(w@ =~= old(w)@ + failure_note(idx as nat, failure)->0);
            true
        },
    }
}

/// Appends the log line of a newly latched unknown object id.
pub fn write_novel_object_note(w: &mut Vec<u8>, idx: usize, id: u8)
    ensures
        final(w)@ == old(w)@ + novel_object_note(idx as nat, id),
{
    push_str(w, "device ");
    push_u64(w, idx as u64);
    push_str(w, ": unknown BTHome object id 0x");
    let hi = id / 16;
    let lo = id % 16;
    push_byte(w, if hi < 10 { 48 + hi } else { 55 + hi });
    push_byte(w, if lo < 10 { 48 + lo } else { 55 + lo });
    push_str(w, ", walk stopped (");
    push_byte(w, 0xc2u8);
    push_byte(w, 0xa7u8);
    push_str(w, "7)");
    assert(w@ =~= old(w)@ + novel_object_note(idx as nat, id));
}

} // verus!
