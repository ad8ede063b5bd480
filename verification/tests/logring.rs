use harvester_core::logring::{civil_datetime, civil_from_days, LogRing};
use harvester_core::{Millis, LOG_LINES, LOG_LINE_BYTES};

fn rendered(ring: &LogRing, now: Millis, unix_now: Option<u64>) -> String {
    let mut sink = Vec::new();
    ring.render(&mut sink, now, unix_now);
    String::from_utf8(sink).unwrap_or_else(|_| "<bad utf8>".to_string())
}

// Civil-date vectors verified independently with `date -u -d @<epoch>`.

#[test]
fn civil_epoch_zero_is_1970_01_01_midnight() {
    assert_eq!(civil_datetime(0), Some((1970, 1, 1, 0, 0, 0)));
}

#[test]
fn civil_last_second_of_first_day() {
    assert_eq!(civil_datetime(86_399), Some((1970, 1, 1, 23, 59, 59)));
}

#[test]
fn civil_leap_day_2000() {
    // date -u -d @951782400 -> Tue Feb 29 00:00:00 UTC 2000
    assert_eq!(civil_datetime(951_782_400), Some((2000, 2, 29, 0, 0, 0)));
}

#[test]
fn civil_2026_08_27_noon() {
    // date -u -d @1787832000 -> Thu Aug 27 12:00:00 UTC 2026
    assert_eq!(civil_datetime(1_787_832_000), Some((2026, 8, 27, 12, 0, 0)));
}

#[test]
fn one_line_synced_renders_exact_string() {
    let mut ring = LogRing::new();
    ring.push(Millis(5_000), &format!("hello {}", 42));
    let text = rendered(&ring, Millis(5_000), Some(1_787_832_000));
    assert_eq!(text, "[2026-08-27 12:00:00] hello 42\n");
}

#[test]
fn unsynced_renders_seconds_since_boot_at_push() {
    let mut ring = LogRing::new();
    ring.push(Millis(834_000), "boot");
    let text = rendered(&ring, Millis(900_000), None);
    assert_eq!(text, "[+834s] boot\n");
}

#[test]
fn overflow_drops_oldest_and_serves_newest_first() {
    let mut ring = LogRing::new();
    for i in 0..130u32 {
        ring.push(Millis(u64::from(i)), &format!("line {i};"));
    }
    let text = rendered(&ring, Millis(1_000), None);
    assert_eq!(text.lines().count(), LOG_LINES);
    // Newest first: line 129 leads, then 128, ...
    assert!(text.starts_with("[+0s] line 129;"), "got: {}", text);
    assert!(text.contains("line 2;"));
    // Oldest two evicted. Trailing ';' keeps "line 12" from matching "line 12x".
    assert!(!text.contains("line 1;"));
    assert!(!text.contains("line 0;"));
    // Order check: 129 before 128.
    let p129 = text.find("line 129;").unwrap_or(usize::MAX);
    let p128 = text.find("line 128;").unwrap_or(0);
    assert!(p129 < p128);
}

#[test]
fn oversized_message_truncates_without_panic_and_keeps_newline() {
    // 100 chars; formatted twice = a 200-byte message into a 96-byte slot.
    const HUNDRED: &str =
        "0123456789012345678901234567890123456789012345678901234567890123456789012345678901234567890123456789";
    let mut ring = LogRing::new();
    ring.push(Millis(0), &format!("{HUNDRED}{HUNDRED}"));
    let text = rendered(&ring, Millis(0), None);
    assert!(text.ends_with('\n'));
    // "[+0s] " (6 bytes) + 96 truncated bytes + "\n" = 103
    assert_eq!(text.len(), 103);
    let expected_msg = HUNDRED.get(..LOG_LINE_BYTES).unwrap_or("");
    assert!(text.contains(expected_msg));
}

#[test]
fn absolute_stamp_is_derived_at_render_time() {
    // Pushed pre-sync at +5s; rendered at +65s with wall clock T. The line
    // is 60s old, so it must be stamped T-60s, never the 1970 push-time.
    let mut ring = LogRing::new();
    ring.push(Millis(5_000), "early beacon");
    let text = rendered(&ring, Millis(65_000), Some(1_787_832_000));
    // date -u -d @1787831940 -> Thu Aug 27 11:59:00 UTC 2026
    assert_eq!(text, "[2026-08-27 11:59:00] early beacon\n");
}

#[test]
fn empty_ring_renders_nothing() {
    let ring = LogRing::new();
    let text = rendered(&ring, Millis(0), Some(1_787_832_000));
    assert_eq!(text, "");
}

#[test]
fn truncation_never_splits_a_character() {
    // 95 ASCII bytes then a 2-byte 'é': the cut falls inside it, so the
    // slot keeps only the 95 ASCII bytes.
    let msg = format!("{}é", "a".repeat(95));
    let mut ring = LogRing::new();
    ring.push(Millis(0), &msg);
    let text = rendered(&ring, Millis(0), None);
    assert_eq!(text, format!("[+0s] {}\n", "a".repeat(95)));
}

#[test]
fn wall_clock_younger_than_the_line_falls_back_to_boot_seconds() {
    let mut ring = LogRing::new();
    ring.push(Millis(2_000), "x");
    // 100 s old line but the wall clock reads only 50 s: no valid stamp.
    let text = rendered(&ring, Millis(102_000), Some(50));
    assert_eq!(text, "[+2s] x\n");
}

#[test]
fn civil_dates_cross_centuries_and_negative_days() {
    assert_eq!(civil_from_days(0), Some((1970, 1, 1)));
    assert_eq!(civil_from_days(-1), Some((1969, 12, 31)));
    assert_eq!(civil_from_days(-719_468), Some((0, 3, 1)));
    assert_eq!(civil_from_days(11_016), Some((2000, 2, 29)));
    assert_eq!(civil_from_days(i64::MAX), None);
    assert_eq!(civil_datetime(4_102_444_800), Some((2100, 1, 1, 0, 0, 0)));
}

#[test]
fn next_day_count_is_the_next_calendar_day() {
    assert_eq!(civil_from_days(10956), Some((1999, 12, 31)));
    assert_eq!(civil_from_days(10957), Some((2000, 1, 1)));
    assert_eq!(civil_from_days(11015), Some((2000, 2, 28)));
    assert_eq!(civil_from_days(11016), Some((2000, 2, 29)));
    assert_eq!(civil_from_days(11017), Some((2000, 3, 1)));
    assert_eq!(civil_from_days(-25509), Some((1900, 2, 28)));
    assert_eq!(civil_from_days(-25508), Some((1900, 3, 1)));
    assert_eq!(civil_from_days(47540), Some((2100, 2, 28)));
    assert_eq!(civil_from_days(47541), Some((2100, 3, 1)));
}

#[test]
fn rendering_after_pushes_lists_the_newest_first() {
    let mut ring = LogRing::new();
    for i in 0..(LOG_LINES + 3) {
        ring.push(Millis(1000 * i as u64), &format!("n{i}"));
    }
    let out = rendered(&ring, Millis(0), None);
    let lines: Vec<&str> = out.lines().collect();
    assert_eq!(lines.len(), LOG_LINES);
    assert_eq!(lines[0], format!("[+{}s] n{}", LOG_LINES + 2, LOG_LINES + 2));
    assert_eq!(lines[LOG_LINES - 1], "[+3s] n3");
}
