use harvester_core::advert::{
    decode_advert, decode_plaintext, write_failure_note, write_novel_object_note, AdvertFailure,
};
use harvester_core::frame::DecryptError;
use harvester_core::parse::{ParseError, Parsed, Readings};
use harvester_core::registry::BeaconFailure;

const MAC: [u8; 6] = [0xAA, 0xBB, 0xCC, 0x00, 0x00, 0x02];
const BINDKEY: [u8; 16] = [0x02; 16];

fn unhex(s: &str) -> Vec<u8> {
    (0..s.len() / 2)
        .map(|i| u8::from_str_radix(&s[2 * i..2 * i + 2], 16).unwrap())
        .collect()
}

/// A raw advert: flags, then the frame as `0xFCD2` service data.
fn advert(frame_hex: &str) -> Vec<u8> {
    let frame = unhex(frame_hex);
    let mut adv = vec![0x02, 0x01, 0x06, (frame.len() + 3) as u8, 0x16, 0xD2, 0xFC];
    adv.extend_from_slice(&frame);
    adv
}

fn voltage_frame() -> Parsed {
    Parsed {
        readings: Readings {
            voltage_milli: Some(2962),
            ..Readings::default()
        },
        unknown_object: None,
    }
}

#[test]
fn encrypted_frame_for_an_encrypted_device_decodes() {
    let adv = advert("41df9b1b85a19e3d7cea100069eefb40");
    assert_eq!(decode_advert(Some(BINDKEY), &MAC, &adv), Ok(voltage_frame()));
}

#[test]
fn plaintext_frame_for_a_plaintext_device_decodes() {
    let adv = advert("4000290130023d0903e70e");
    assert_eq!(
        decode_advert(None, &MAC, &adv),
        Ok(Parsed {
            readings: Readings {
                temperature_centi: Some(2365),
                humidity_centi: Some(3815),
                battery_percent: Some(48),
                voltage_milli: None,
            },
            unknown_object: None,
        })
    );
}

#[test]
fn a_bindkey_device_rejects_plaintext_frames() {
    let adv = advert("4000290130023d0903e70e");
    let r = decode_advert(Some(BINDKEY), &MAC, &adv);
    assert_eq!(r, Err(AdvertFailure::AuthMismatch { frame_encrypted: false }));
    assert_eq!(r.unwrap_err().beacon_failure(), BeaconFailure::Decrypt);
}

#[test]
fn a_plaintext_device_rejects_encrypted_frames() {
    let adv = advert("41df9b1b85a19e3d7cea100069eefb40");
    assert_eq!(
        decode_advert(None, &MAC, &adv),
        Err(AdvertFailure::AuthMismatch { frame_encrypted: true })
    );
}

#[test]
fn wrong_key_and_short_bodies_are_decrypt_failures() {
    let adv = advert("41df9b1b85a19e3d7cea100069eefb40");
    assert_eq!(
        decode_advert(Some([0x03; 16]), &MAC, &adv),
        Err(AdvertFailure::Decrypt(DecryptError::MicMismatch))
    );
    let short = advert("41df9b1b85");
    assert_eq!(
        decode_advert(Some(BINDKEY), &MAC, &short),
        Err(AdvertFailure::Decrypt(DecryptError::TooShort))
    );
    let long = advert(&format!("41{}", "00".repeat(33)));
    assert_eq!(
        decode_advert(Some(BINDKEY), &MAC, &long),
        Err(AdvertFailure::Decrypt(DecryptError::BufferTooSmall))
    );
}

#[test]
fn missing_or_empty_service_data_is_a_parse_failure() {
    let r = decode_advert(None, &MAC, &[0x02, 0x01, 0x06]);
    assert_eq!(r, Err(AdvertFailure::NoServiceData));
    assert_eq!(r.unwrap_err().beacon_failure(), BeaconFailure::Parse);
    assert_eq!(
        decode_advert(None, &MAC, &[0x03, 0x16, 0xD2, 0xFC]),
        Err(AdvertFailure::NoServiceData)
    );
}

#[test]
fn walk_failures_after_decryption_are_parse_failures() {
    let r = decode_plaintext(0x40, Ok(&[0x02, 0x3d]));
    assert_eq!(r, Err(AdvertFailure::Parse(ParseError::Truncated)));
    assert_eq!(r.unwrap_err().beacon_failure(), BeaconFailure::Parse);
    assert_eq!(
        decode_plaintext(0x41, Err(DecryptError::MicMismatch)),
        Err(AdvertFailure::Decrypt(DecryptError::MicMismatch))
    );
    assert_eq!(
        decode_plaintext(0x41, Ok(&[0x0c, 0x92, 0x0b, 0x10, 0x00, 0x11, 0x01])),
        Ok(voltage_frame())
    );
}

fn note(idx: usize, failure: AdvertFailure) -> Option<String> {
    let mut w = Vec::new();
    if write_failure_note(&mut w, idx, failure) {
        Some(String::from_utf8(w).unwrap())
    } else {
        assert!(w.is_empty());
        None
    }
}

#[test]
fn failures_leave_the_expected_log_lines() {
    assert_eq!(
        note(3, AdvertFailure::Decrypt(DecryptError::MicMismatch)).as_deref(),
        Some("decrypt failed for device 3: MicMismatch")
    );
    assert_eq!(
        note(0, AdvertFailure::AuthMismatch { frame_encrypted: true }).as_deref(),
        Some("auth mismatch for device 0: frame encrypted=true")
    );
    assert_eq!(
        note(12, AdvertFailure::Parse(ParseError::OutOfRange)).as_deref(),
        Some("parse failed for device 12: OutOfRange")
    );
    assert_eq!(note(1, AdvertFailure::NoServiceData), None);
}

#[test]
fn novel_object_note_names_the_id_in_upper_hex() {
    let mut w = Vec::new();
    write_novel_object_note(&mut w, 2, 0xf0);
    assert_eq!(
        String::from_utf8(w).unwrap(),
        "device 2: unknown BTHome object id 0xF0, walk stopped (\u{a7}7)"
    );
    let mut w = Vec::new();
    write_novel_object_note(&mut w, 0, 0x0a);
    assert!(String::from_utf8(w).unwrap().contains("0x0A"));
}
