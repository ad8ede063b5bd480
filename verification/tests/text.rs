use harvester_core::render::prometheus::{device_sample, family};
use harvester_core::render::{
    reboot_total, write_bool, write_centi_or_null, write_escaped, write_flag, write_int_or_null,
    RebootCounts,
};
use harvester_core::text::{push_i64, push_padded, push_u64, push_zpad};

fn text(f: impl FnOnce(&mut Vec<u8>)) -> String {
    let mut w = Vec::new();
    f(&mut w);
    String::from_utf8(w).unwrap()
}

#[test]
fn decimal_integers_render_exactly() {
    assert_eq!(text(|w| push_u64(w, 0)), "0");
    assert_eq!(text(|w| push_u64(w, u64::MAX)), "18446744073709551615");
    assert_eq!(text(|w| push_i64(w, i64::MIN)), "-9223372036854775808");
    assert_eq!(text(|w| push_i64(w, -7)), "-7");
}

#[test]
fn padding_keeps_the_low_digits_or_pads_to_width() {
    assert_eq!(text(|w| push_padded(w, 5, 3)), "005");
    assert_eq!(text(|w| push_padded(w, 12345, 2)), "45");
    assert_eq!(text(|w| push_zpad(w, 7, 2)), "07");
    assert_eq!(text(|w| push_zpad(w, 2026, 4)), "2026");
    assert_eq!(text(|w| push_zpad(w, 12345, 4)), "12345");
    assert_eq!(text(|w| push_zpad(w, 0, 0)), "0");
}

#[test]
fn json_scalars_and_nulls() {
    assert_eq!(text(|w| write_bool(w, true)), "true");
    assert_eq!(text(|w| write_flag(w, false)), "0");
    assert_eq!(text(|w| write_centi_or_null(w, None)), "null");
    assert_eq!(text(|w| write_centi_or_null(w, Some(-523))), "-5.23");
    assert_eq!(text(|w| write_int_or_null(w, Some(-61))), "-61");
    assert_eq!(text(|w| write_int_or_null(w, None)), "null");
}

#[test]
fn label_escaping_covers_backslash_quote_and_newline() {
    assert_eq!(text(|w| write_escaped(w, "a\\b\"c\nd")), "a\\\\b\\\"c\\nd");
}

#[test]
fn family_header_and_sample_prefix() {
    assert_eq!(
        text(|w| family(w, "x_total", "Things.", "counter")),
        "# HELP x_total Things.\n# TYPE x_total counter\n"
    );
    assert_eq!(text(|w| device_sample(w, "x", "porch")), "x{device=\"porch\"} ");
}

#[test]
fn reboot_total_sums_all_seven_without_overflow() {
    let all = RebootCounts {
        panic: u32::MAX,
        wifi: u32::MAX,
        ble_wedge: u32::MAX,
        ota: u32::MAX,
        power: u32::MAX,
        wdt: u32::MAX,
        unknown: u32::MAX,
    };
    assert_eq!(reboot_total(&all), 7 * u64::from(u32::MAX));
    assert_eq!(reboot_total(&RebootCounts::default()), 0);
}
