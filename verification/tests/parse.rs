use harvester_core::parse::{fcd2_service_data, parse, skip, take_u16_le, take_u8, ParseError, Parsed, Readings};

/// Walk completed cleanly with no readings and no unknown id.
const EMPTY_OK: Parsed = Parsed {
    readings: Readings {
        temperature_centi: None,
        humidity_centi: None,
        battery_percent: None,
        voltage_milli: None,
    },
    unknown_object: None,
};

// Corpus frame "4000290130023d0903e70e" (baby_room, info=40 [00 01 02 03]).
#[test]
fn corpus_frame_battery_temperature_humidity() {
    let payload = [0x00, 0x29, 0x01, 0x30, 0x02, 0x3d, 0x09, 0x03, 0xe7, 0x0e];
    assert_eq!(
        parse(0x40, &payload),
        Ok(Parsed {
            readings: Readings {
                temperature_centi: Some(2365),
                humidity_centi: Some(3815),
                battery_percent: Some(48),
                voltage_milli: None,
            },
            unknown_object: None,
        })
    );
}

// Corpus frame "40002a0c1b0a10001101" (baby_room, info=40 [00 0C 10 11]).
#[test]
fn corpus_frame_voltage_only() {
    let payload = [0x00, 0x2a, 0x0c, 0x1b, 0x0a, 0x10, 0x00, 0x11, 0x01];
    assert_eq!(
        parse(0x40, &payload),
        Ok(Parsed {
            readings: Readings {
                temperature_centi: None,
                humidity_centi: None,
                battery_percent: None,
                voltage_milli: Some(2587),
            },
            unknown_object: None,
        })
    );
}

// Plaintext "4011013e00000000": 0x3E's four bytes consume the payload
// exactly. Structurally perfect, zero readings, and it must be `ok`.
#[test]
fn corpus_frame_valid_but_empty() {
    let payload = [0x11, 0x01, 0x3e, 0x00, 0x00, 0x00, 0x00];
    assert_eq!(parse(0x40, &payload), Ok(EMPTY_OK));
}

#[test]
fn negative_temperature_decodes_as_i16() {
    // -9.00 °C = -900 centi = 0xFC7C, little-endian "7c fc".
    let payload = [0x02, 0x7c, 0xfc];
    let parsed = parse(0x40, &payload);
    assert!(parsed.is_ok());
    assert_eq!(parsed.map(|p| p.readings.temperature_centi), Ok(Some(-900)));
}

#[test]
fn unknown_object_at_start_stops_cleanly() {
    let payload = [0xf0, 0x12, 0x34];
    assert_eq!(
        parse(0x40, &payload),
        Ok(Parsed {
            readings: Readings::default(),
            unknown_object: Some(0xf0),
        })
    );
}

#[test]
fn unknown_object_keeps_accumulated_readings() {
    let payload = [0x02, 0x3d, 0x09, 0xf0, 0xde, 0xad];
    assert_eq!(
        parse(0x40, &payload),
        Ok(Parsed {
            readings: Readings {
                temperature_centi: Some(2365),
                ..Readings::default()
            },
            unknown_object: Some(0xf0),
        })
    );
}

#[test]
fn truncated_temperature_is_truncated_not_garbage() {
    assert_eq!(parse(0x40, &[0x02, 0x3d]), Err(ParseError::Truncated));
}

#[test]
fn truncated_battery_and_count_are_truncated() {
    assert_eq!(parse(0x40, &[0x01]), Err(ParseError::Truncated));
    assert_eq!(
        parse(0x40, &[0x3e, 0x00, 0x00, 0x00]),
        Err(ParseError::Truncated)
    );
}

#[test]
fn temperature_above_85c_rejects_beacon() {
    // 8501 centi = 0x2135, LE "35 21".
    assert_eq!(
        parse(0x40, &[0x02, 0x35, 0x21]),
        Err(ParseError::OutOfRange)
    );
}

#[test]
fn temperature_below_minus_40c_rejects_beacon() {
    // -4001 centi = 0xF05F, LE "5f f0".
    assert_eq!(
        parse(0x40, &[0x02, 0x5f, 0xf0]),
        Err(ParseError::OutOfRange)
    );
}

#[test]
fn humidity_ffff_rejects_beacon() {
    // 655.35 % is garbage, and would overflow the i16 sparkline ring.
    assert_eq!(
        parse(0x40, &[0x03, 0xff, 0xff]),
        Err(ParseError::OutOfRange)
    );
}

#[test]
fn battery_over_100_rejects_beacon() {
    assert_eq!(parse(0x40, &[0x01, 101]), Err(ParseError::OutOfRange));
}

#[test]
fn voltage_over_4v_rejects_beacon() {
    // 4001 mV = 0x0FA1, LE "a1 0f".
    assert_eq!(
        parse(0x40, &[0x0c, 0xa1, 0x0f]),
        Err(ParseError::OutOfRange)
    );
}

#[test]
fn range_boundaries_are_inclusive() {
    // 8500 centi = 0x2134; -4000 = 0xF060; 10000 = 0x2710; 4000 = 0x0FA0.
    let extremes = [
        0x02, 0x34, 0x21, // temp 85.00 °C
        0x03, 0x10, 0x27, // humidity 100.00 %
        0x01, 100, // battery 100 %
        0x0c, 0xa0, 0x0f, // voltage 4.000 V
    ];
    assert_eq!(
        parse(0x40, &extremes),
        Ok(Parsed {
            readings: Readings {
                temperature_centi: Some(8500),
                humidity_centi: Some(10_000),
                battery_percent: Some(100),
                voltage_milli: Some(4000),
            },
            unknown_object: None,
        })
    );
    let low_temp = [0x02, 0x60, 0xf0]; // -40.00 °C exactly
    assert_eq!(
        parse(0x40, &low_temp).map(|p| p.readings.temperature_centi),
        Ok(Some(-4000))
    );
}

#[test]
fn wrong_version_is_not_bthome_v2() {
    // 0x20 >> 5 == 1, not 2: reject before touching the payload.
    assert_eq!(parse(0x20, &[0x01, 0x30]), Err(ParseError::NotBthomeV2));
}

#[test]
fn empty_payload_is_ok_with_defaults() {
    assert_eq!(parse(0x40, &[]), Ok(EMPTY_OK));
}

#[test]
fn duplicate_object_id_last_write_wins() {
    let payload = [0x01, 0x32, 0x01, 0x30];
    assert_eq!(
        parse(0x40, &payload).map(|p| p.readings.battery_percent),
        Ok(Some(0x30))
    );
}

#[test]
fn byte_takers_report_truncation() {
    assert_eq!(take_u8(&[7, 8]), Ok((7, &[8u8][..])));
    assert_eq!(take_u8(&[]), Err(ParseError::Truncated));
    assert_eq!(take_u16_le(&[0x34, 0x12, 9]), Ok((0x1234, &[9u8][..])));
    assert_eq!(take_u16_le(&[0x34]), Err(ParseError::Truncated));
    assert_eq!(skip(&[1, 2, 3], 2), Ok(&[3u8][..]));
    assert_eq!(skip(&[1], 2), Err(ParseError::Truncated));
}

#[test]
fn service_data_is_found_behind_other_ad_structures() {
    // Flags AD, then a 16-bit service data AD for UUID 0xFCD2.
    let adv = [0x02, 0x01, 0x06, 0x06, 0x16, 0xD2, 0xFC, 0x40, 0x01, 0x55];
    assert_eq!(fcd2_service_data(&adv), Some(&[0x40u8, 0x01, 0x55][..]));
}

#[test]
fn service_data_for_another_uuid_is_skipped() {
    let adv = [0x04, 0x16, 0x1A, 0x18, 0x99, 0x04, 0x16, 0xD2, 0xFC, 0x44];
    assert_eq!(fcd2_service_data(&adv), Some(&[0x44u8][..]));
    let other_only = [0x04, 0x16, 0x1A, 0x18, 0x99];
    assert_eq!(fcd2_service_data(&other_only), None);
}

#[test]
fn malformed_ad_structures_yield_no_service_data() {
    // Length runs past the end.
    assert_eq!(fcd2_service_data(&[0x09, 0x16, 0xD2, 0xFC, 0x40]), None);
    // A zero length ends the significant part.
    assert_eq!(fcd2_service_data(&[0x00, 0x04, 0x16, 0xD2, 0xFC, 0x40]), None);
    assert_eq!(fcd2_service_data(&[]), None);
    // Present but empty service data.
    assert_eq!(fcd2_service_data(&[0x03, 0x16, 0xD2, 0xFC]), Some(&[][..]));
}

#[test]
fn bytes_after_an_unknown_object_change_nothing() {
    let short = [0x02, 0x3d, 0x09, 0xf0];
    let long = [0x02, 0x3d, 0x09, 0xf0, 0x02, 0xff, 0x7f, 0x2e];
    let parsed = parse(0x40, &short);
    assert_eq!(parse(0x40, &long), parsed);
    let id = parsed.unwrap().unknown_object.unwrap();
    for known in [0x00u8, 0x01, 0x02, 0x03, 0x0c, 0x10, 0x11, 0x3e] {
        assert_ne!(id, known);
    }
}
