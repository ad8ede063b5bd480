use harvester_core::spark::{series, NO_SAMPLE};
use harvester_core::{Spark, MAX_DEVICES, SPARK_DEPTH};

fn collect(v: [Option<i16>; SPARK_DEPTH]) -> [Option<i16>; SPARK_DEPTH] {
    assert_eq!(v.len(), SPARK_DEPTH, "series must hold exactly SPARK_DEPTH");
    v
}

fn at(cols: &[Option<i16>; SPARK_DEPTH], i: usize) -> Option<i16> {
    cols.get(i).copied().flatten()
}

#[test]
fn fresh_ring_is_all_none_for_both_metrics() {
    let s = Spark::new();
    assert!(collect(s.temperature(0)).iter().all(Option::is_none));
    assert!(collect(s.humidity(0)).iter().all(Option::is_none));
}

#[test]
fn three_pushes_land_at_the_newest_end_in_order() {
    let mut s = Spark::new();
    s.push(0, Some(2100), Some(4500));
    s.push(0, Some(2150), Some(4550));
    s.push(0, Some(2200), Some(4600));

    let t = collect(s.temperature(0));
    assert!(t.iter().take(SPARK_DEPTH - 3).all(Option::is_none));
    assert_eq!(at(&t, SPARK_DEPTH - 3), Some(2100));
    assert_eq!(at(&t, SPARK_DEPTH - 2), Some(2150));
    assert_eq!(at(&t, SPARK_DEPTH - 1), Some(2200));

    let h = collect(s.humidity(0));
    assert_eq!(at(&h, SPARK_DEPTH - 3), Some(4500));
    assert_eq!(at(&h, SPARK_DEPTH - 1), Some(4600));
}

#[test]
fn overfilling_evicts_the_oldest_samples() {
    let mut s = Spark::new();
    for i in 0..(SPARK_DEPTH.wrapping_add(5)) {
        let v = i as i16;
        s.push(0, Some(v), Some(v.wrapping_add(1000)));
    }

    let t = collect(s.temperature(0));
    assert!(t.iter().all(Option::is_some), "ring is full: no gaps");
    assert_eq!(at(&t, 0), Some(5), "oldest five evicted");
    assert_eq!(at(&t, SPARK_DEPTH - 1), Some(76), "newest survives");

    let h = collect(s.humidity(0));
    assert_eq!(at(&h, 0), Some(1005));
    assert_eq!(at(&h, SPARK_DEPTH - 1), Some(1076));
}

#[test]
fn metrics_are_independent_within_a_column() {
    let mut s = Spark::new();
    s.push(0, None, Some(4321));

    let t = collect(s.temperature(0));
    let h = collect(s.humidity(0));
    assert_eq!(at(&t, SPARK_DEPTH - 1), None);
    assert_eq!(at(&h, SPARK_DEPTH - 1), Some(4321));
}

#[test]
fn out_of_range_device_is_ignored_and_reads_all_none() {
    let mut s = Spark::new();
    s.push(MAX_DEVICES, Some(2100), Some(4500));

    let t = collect(s.temperature(MAX_DEVICES));
    assert!(t.iter().all(Option::is_none));
    let h = collect(s.humidity(MAX_DEVICES));
    assert!(h.iter().all(Option::is_none));
    // And nothing leaked into a real device's ring.
    assert!(collect(s.temperature(0)).iter().all(Option::is_none));
}

#[test]
fn devices_are_isolated_from_each_other() {
    let mut s = Spark::new();
    s.push(0, Some(2100), Some(4500));

    assert!(collect(s.temperature(1)).iter().all(Option::is_none));
    assert!(collect(s.humidity(1)).iter().all(Option::is_none));
    assert_eq!(at(&collect(s.temperature(0)), SPARK_DEPTH - 1), Some(2100));
}

#[test]
fn oldest_column_follows_the_cursor() {
    let mut s = Spark::new();
    assert_eq!(s.oldest(0), 0);
    s.push(0, Some(1), Some(2));
    assert_eq!(s.oldest(0), 1);
    for _ in 0..(SPARK_DEPTH - 1) {
        s.push(0, Some(1), Some(2));
    }
    assert_eq!(s.oldest(0), 0);
    assert_eq!(s.oldest(MAX_DEVICES), 0);
}

#[test]
fn the_sentinel_reads_as_a_gap() {
    let mut table = [7i16; MAX_DEVICES * SPARK_DEPTH];
    table[SPARK_DEPTH + 3] = NO_SAMPLE;
    let row = series(&table, 1, 3, true);
    assert_eq!(row.len(), SPARK_DEPTH);
    assert_eq!(row[0], None);
    assert_eq!(row[1], Some(7));
    assert!(series(&table, 1, 0, false).iter().all(Option::is_none));
}

#[test]
fn a_snapshot_keeps_the_rings() {
    let mut s = Spark::new();
    s.push(2, Some(1), Some(2));
    let snap = s.clone();
    s.push(2, Some(3), Some(4));
    assert_eq!(snap.temperature(2)[SPARK_DEPTH - 1], Some(1));
    assert_eq!(s.temperature(2)[SPARK_DEPTH - 1], Some(3));
}
