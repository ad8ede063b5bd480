use harvester_core::{LOG_LINES, LOG_LINE_BYTES, MAX_DEVICES, SPARK_DEPTH};

#[test]
fn state_budget_stays_inside_spec_table() {
    // The budget is ~15 KB total; logs dominate at ~12 KB.
    assert_eq!(LOG_LINES * LOG_LINE_BYTES, 12_288);
    assert!(MAX_DEVICES * SPARK_DEPTH * 2 * core::mem::size_of::<i16>() <= 2_304);
}
