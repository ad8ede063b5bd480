use harvester_core::device::{hex_val, parse_bindkey, parse_mac};
use harvester_core::Device;
use harvester_core::device::{is_bindkey_str, is_mac_str};

fn mac() -> [u8; 6] {
    parse_mac("Aa:bB:CC:0f:00:2A")
}

fn key() -> [u8; 16] {
    parse_bindkey("00112233445566778899aabbccddeeff")
}

#[test]
fn mac_parses_mixed_case_at_compile_time() {
    assert_eq!(mac(), [0xAA, 0xBB, 0xCC, 0x0F, 0x00, 0x2A]);
}

#[test]
fn bindkey_parses_at_compile_time() {
    assert_eq!(
        key(),
        [
            0x00, 0x11, 0x22, 0x33, 0x44, 0x55, 0x66, 0x77, 0x88, 0x99, 0xAA, 0xBB, 0xCC, 0xDD,
            0xEE, 0xFF
        ]
    );
}

#[test]
fn constructors_set_encryption() {
    let plain = Device::plain(mac(), "humidor");
    let enc = Device::encrypted(mac(), "living_room", key());
    assert!(!plain.is_encrypted());
    assert!(enc.is_encrypted());
}

#[test]
fn hex_digits_of_both_cases_decode() {
    assert_eq!(hex_val(b'0'), 0);
    assert_eq!(hex_val(b'9'), 9);
    assert_eq!(hex_val(b'a'), 10);
    assert_eq!(hex_val(b'F'), 15);
}

#[test]
fn text_checks_accept_exactly_what_the_parsers_take() {
    assert!(is_mac_str("Aa:bB:CC:0f:00:2A"));
    assert!(!is_mac_str("Aa:bB:CC:0f:00:2"));
    assert!(!is_mac_str("Aa-bB:CC:0f:00:2A"));
    assert!(!is_mac_str("Ag:bB:CC:0f:00:2A"));
    assert!(is_bindkey_str("00112233445566778899aabbccddeeff"));
    assert!(!is_bindkey_str("00112233445566778899aabbccddeefg"));
    assert!(!is_bindkey_str("0011"));
}
