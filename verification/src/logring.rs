//! In-memory log ring: `LOG_LINES` lines of at most `LOG_LINE_BYTES`
//! bytes, stamped with the monotonic push instant; wall-clock stamps are
//! derived at render time.

use vstd::prelude::*;
use vstd::slice::slice_subrange;
use crate::clock::{sat_sub, Millis};
use crate::text::{bytes_of, dec, push_bytes, push_str, push_u64, push_zpad, zpad};
use crate::{LOG_LINES, LOG_LINE_BYTES};

verus! {

/// Days between 0000-03-01 and 1970-01-01 in the proleptic Gregorian calendar.
pub const EPOCH_SHIFT: i64 = 719468;

/// Days in a 400-year Gregorian era.
pub const ERA_DAYS: i64 = 146097;

/// Year of era (0..=399) for a day of era, years starting on March 1.
pub open spec fn year_of_era(doe: int) -> int {
    (doe - doe / 1460 + doe / 36524 - doe / 146096) / 365
}

/// Day of year (0..=365, March 1 is 0) for a day of era.
pub open spec fn day_of_year(doe: int) -> int {
    let yoe = year_of_era(doe);
    doe - (365 * yoe + yoe / 4 - yoe / 100)
}

/// Month index counted from March (0 = March, 11 = February) of a March-based day of year.
pub open spec fn march_month(doy: int) -> int {
    (5 * doy + 2) / 153
}

/// Proleptic Gregorian `(year, month, day)` of the day `days` after 1970-01-01.
pub open spec fn civil_of_days(days: int) -> (int, int, int) {
    let z = days + 719468;
    let era = z / 146097;
    let doe = z % 146097;
    let y = year_of_era(doe) + era * 400;
    let doy = day_of_year(doe);
    let mp = march_month(doy);
    let d = doy - (153 * mp + 2) / 5 + 1;
    let m = if mp < 10 { mp + 3 } else { mp - 9 };
    (if m <= 2 { y + 1 } else { y }, m, d)
}

/// UTC `(year, month, day, hour, minute, second)` of a Unix timestamp.
pub open spec fn civil_of_secs(secs: nat) -> (int, int, int, int, int, int) {
    let (y, m, d) = civil_of_days((secs / 86400) as int);
    let sod = secs % 86400;
    (y, m, d, (sod / 3600) as int, (sod % 3600 / 60) as int, (sod % 60) as int)
}

/// Bounds of the within-era quantities: year of era, day of year, month
/// index and day of month.
pub proof fn lemma_era_bounds(doe: int)
    requires
        0 <= doe < 146097,
    ensures
        0 <= year_of_era(doe) <= 399,
        0 <= day_of_year(doe) <= 365,
        0 <= march_month(day_of_year(doe)) <= 11,
        1 <= day_of_year(doe) - (153 * march_month(day_of_year(doe)) + 2) / 5 + 1 <= 31,
{
}

/// Whether the proleptic Gregorian year `y` has a February 29.
pub open spec fn is_leap_year(y: int) -> bool {
    y % 4 == 0 && (y % 100 != 0 || y % 400 == 0)
}

/// Within an era, only the last day of a March-based year that precedes a
/// leap year is day 365.
pub proof fn lemma_day_365_precedes_a_leap_year(doe: int)
    requires
        0 <= doe < 146097,
        day_of_year(doe) == 365,
    ensures
        is_leap_year(year_of_era(doe) + 1),
{
}

/// Dates on or after the epoch have a non-negative year.
pub proof fn lemma_civil_year_nonnegative(days: int)
    requires
        days >= 0,
    ensures
        civil_of_days(days).0 >= 0,
{
    lemma_era_bounds((days + 719468) % 146097);
}

/// Days since 1970-01-01 to the proleptic Gregorian date; `None` only where
/// the day count lies so close to `i64::MAX` that the era arithmetic would
/// overflow.
pub fn civil_from_days(days: i64) -> (r: Option<(i64, u32, u32)>)
    ensures
        r is Some <==> days + 719468 <= i64::MAX,
        r matches Some((y, m, d)) ==> (y as int, m as int, d as int) == civil_of_days(days as int),
{
    if days > i64::MAX - EPOCH_SHIFT {
        return None;
    }
    let z: i64 = days + EPOCH_SHIFT;
    let era: i64;
    let doe: u64;
    if z >= 0 {
        let zu: u64 = z as u64;
        era = (zu / 146097) as i64;
        doe = zu % 146097;
    } else {
        let n: u64 = (-(z + 1)) as u64;
        era = -((n / 146097) as i64) - 1;
        doe = 146096 - n % 146097;
        assert(z == era * 146097 + doe);
        assert(era == z / 146097 && doe == z % 146097) by {
            vstd::arithmetic::div_mod::lemma_fundamental_div_mod_converse(
                z as int,
                146097,
                era as int,
                doe as int,
            );
        }
    }
    proof {
        lemma_era_bounds(doe as int);
    }
    let yoe: u64 = (doe - doe / 1460 + doe / 36524 - doe / 146096) / 365;
    let y: i64 = yoe as i64 + era * 400;
    let doy: u64 = doe - (365 * yoe + yoe / 4 - yoe / 100);
    let mp: u64 = (5 * doy + 2) / 153;
    let d: u64 = doy - (153 * mp + 2) / 5 + 1;
    let m: u64 = if mp < 10 { mp + 3 } else { mp - 9 };
    let year: i64 = if m <= 2 { y + 1 } else { y };
    Some((year, m as u32, d as u32))
}

/// Unix seconds to UTC `(year, month, day, hour, minute, second)`; always `Some`.
pub fn civil_datetime(secs: u64) -> (r: Option<(i64, u32, u32, u64, u64, u64)>)
    ensures
        r matches Some((y, mo, d, h, mi, s)) && (y as int, mo as int, d as int, h as int, mi as int, s as int)
            == civil_of_secs(secs as nat),
{
    let days: i64 = (secs / 86400) as i64;
    let sod: u64 = secs % 86400;
    match civil_from_days(days) {
        Some((y, m, d)) => Some((y, m, d, sod / 3600, sod % 3600 / 60, sod % 60)),
        None => None,
    }
}

/// One stored line: message bytes and the monotonic instant of the push.
pub type LogLine = (Seq<u8>, Millis);

/// Largest char boundary of `b` at or below `n`.
pub open spec fn boundary_at_or_below(b: Seq<u8>, n: nat) -> nat
    decreases n,
{
    if n == 0 || vstd::utf8::is_char_boundary(b, n as int) {
        n
    } else {
        boundary_at_or_below(b, (n - 1) as nat)
    }
}

/// The part of a message a slot keeps: all of it when it fits, else the
/// longest prefix of at most `LOG_LINE_BYTES` bytes ending on a char boundary.
pub open spec fn slot_bytes(b: Seq<u8>) -> Seq<u8> {
    if b.len() <= LOG_LINE_BYTES {
        b
    } else {
        b.subrange(0, boundary_at_or_below(b, LOG_LINE_BYTES as nat) as int)
    }
}

/// The ring after one push: the line is appended, and the oldest line
/// leaves once `LOG_LINES` are held.
pub open spec fn ring_pushed(lines: Seq<LogLine>, line: LogLine) -> Seq<LogLine> {
    if lines.len() < LOG_LINES {
        lines.push(line)
    } else {
        lines.drop_first().push(line)
    }
}

/// `[YYYY-MM-DD HH:MM:SS] ` for a Unix timestamp.
pub open spec fn wall_stamp(secs: nat) -> Seq<u8> {
    let c = civil_of_secs(secs);
    bytes_of("[") + zpad(c.0 as nat, 4) + bytes_of("-") + zpad(c.1 as nat, 2) + bytes_of("-")
        + zpad(c.2 as nat, 2) + bytes_of(" ") + zpad(c.3 as nat, 2) + bytes_of(":") + zpad(
        c.4 as nat,
        2,
    ) + bytes_of(":") + zpad(c.5 as nat, 2) + bytes_of("] ")
}

/// Stamp of a line pushed at `stamp`, rendered at `now`: the wall-clock time
/// `unix_now - age` when the wall clock is known and reaches back that far,
/// else `[+Ns] ` with the seconds since boot at the push.
pub open spec fn line_stamp(stamp: Millis, now: Millis, unix_now: Option<u64>) -> Seq<u8> {
    let age = sat_sub(now.0 as int, stamp.0 as int) / 1000;
    if unix_now is Some && unix_now->0 >= age {
        wall_stamp((unix_now->0 - age) as nat)
    } else {
        bytes_of("[+") + dec(stamp.0 as nat / 1000) + bytes_of("s] ")
    }
}

/// One rendered line: stamp, message, newline.
pub open spec fn line_text(line: LogLine, now: Millis, unix_now: Option<u64>) -> Seq<u8> {
    line_stamp(line.1, now, unix_now) + line.0 + bytes_of("\n")
}

/// The `k` newest lines rendered, newest first.
pub open spec fn newest_first(lines: Seq<LogLine>, k: nat, now: Millis, unix_now: Option<u64>) -> Seq<
    u8,
>
    decreases k,
{
    if k == 0 || k > lines.len() {
        Seq::empty()
    } else {
        newest_first(lines, (k - 1) as nat, now, unix_now) + line_text(
            lines[lines.len() - k],
            now,
            unix_now,
        )
    }
}

/// Slot holding the `k`-th oldest of `count` lines when the next push goes to `next`.
pub open spec fn slot_of(next: int, count: int, k: int) -> int {
    (next + LOG_LINES - count + k) % (LOG_LINES as int)
}

/// Fixed slots for the most recent `LOG_LINES` lines.
pub struct LogRing {
    /// Message bytes of each slot; the first `lens[i]` bytes are the message.
    slots: [[u8; LOG_LINE_BYTES]; LOG_LINES],
    lens: [usize; LOG_LINES],
    stamps: [Millis; LOG_LINES],
    /// Slot the next push writes into.
    next: usize,
    /// Valid lines, saturating at `LOG_LINES`.
    count: usize,
}

impl LogRing {
    /// Slot and cursor bounds.
    #[verifier::type_invariant]
    closed spec fn bounded(self) -> bool {
        &&& self.next < LOG_LINES
        &&& self.count <= LOG_LINES
        &&& forall|i: int| 0 <= i < LOG_LINES ==> #[trigger] self.lens@[i] <= LOG_LINE_BYTES
    }

    /// Message bytes held in slot `i`.
    closed spec fn message(&self, i: int) -> Seq<u8> {
        self.slots@[i]@.subrange(0, self.lens@[i] as int)
    }

    /// The held lines, oldest first.
    pub closed spec fn lines(&self) -> Seq<LogLine> {
        Seq::new(
            self.count as nat,
            |k: int|
                (
                    self.message(slot_of(self.next as int, self.count as int, k)),
                    self.stamps@[slot_of(self.next as int, self.count as int, k)],
                ),
        )
    }

    pub fn new() -> (r: Self)
        ensures
            r.lines() == Seq::<LogLine>::empty(),
    {
        let r = LogRing {
            slots: [[0u8; LOG_LINE_BYTES]; LOG_LINES],
            lens: [0usize; LOG_LINES],
            stamps: [Millis(0); LOG_LINES],
            next: 0,
            count: 0,
        };
        assert(r.lines() =~= Seq::<LogLine>::empty());
        r
    }

    /// Stores `msg`, cut to fit the slot on a char boundary, stamped `now`;
    /// once the ring is full the oldest line is overwritten.
    pub fn push(&mut self, now: Millis, msg: &str)
        ensures
            final(self).lines() == ring_pushed(old(self).lines(), (slot_bytes(bytes_of(msg)), now)),
    {
        proof {
            use_type_invariant(&*self);
        }
        let b = msg.as_bytes();
        let ghost bs = bytes_of(msg);
        let keep: usize = if b.len() <= LOG_LINE_BYTES {
            b.len()
        } else {
            let mut n: usize = LOG_LINE_BYTES;
            while n > 0 && !msg.is_char_boundary(n)
                invariant
                    n <= LOG_LINE_BYTES,
                    bs == bytes_of(msg),
                    boundary_at_or_below(bs, n as nat) == boundary_at_or_below(
                        bs,
                        LOG_LINE_BYTES as nat,
                    ),
                decreases n,
            {
                n = n - 1;
            }
            n
        };
        assert(keep <= b@.len());
        let mut line = [0u8; LOG_LINE_BYTES];
        let mut i: usize = 0;
        while i < keep
            invariant
                keep <= b@.len(),
                keep <= LOG_LINE_BYTES,
                i <= keep,
                line@.subrange(0, i as int) == b@.subrange(0, i as int),
            decreases keep - i,
        {
            line[i] = b[i];
            i = i + 1;
            assert(line@.subrange(0, i as int) =~= b@.subrange(0, i as int));
        }
        assert(line@.subrange(0, keep as int) =~= slot_bytes(bs));
        let ghost old_lines = self.lines();
        let idx = self.next;
        self.slots[idx] = line;
        self.lens[idx] = keep;
        self.stamps[idx] = now;
        self.next = if idx + 1 >= LOG_LINES { 0 } else { idx + 1 };
        if self.count < LOG_LINES {
            self.count = self.count + 1;
        }
        assert(self.message(idx as int) =~= slot_bytes(bs));
        assert(self.lines() =~= ring_pushed(old_lines, (slot_bytes(bs), now)));
    }

    /// Message bytes and push instant of the line in slot `idx`.
    fn line(&self, idx: usize) -> (r: (&[u8], Millis))
        requires
            idx < LOG_LINES,
        ensures
            r.0@ == self.message(idx as int),
            r.1 == self.stamps@[idx as int],
    {
        proof {
            use_type_invariant(self);
        }
        (slice_subrange(self.slots[idx].as_slice(), 0, self.lens[idx]), self.stamps[idx])
    }

    /// Appends the held lines newest first, each as `stamp message\n`.
    pub fn render(&self, w: &mut Vec<u8>, now: Millis, unix_now: Option<u64>)
        ensures
            final(w)@ == old(w)@ + newest_first(self.lines(), self.lines().len(), now, unix_now),
    {
        proof {
            use_type_invariant(self);
        }
        let ghost lines = self.lines();
        let mut idx: usize = self.next;
        let mut k: usize = 0;
        while k < self.count
            invariant
                self.next < LOG_LINES,
                self.count <= LOG_LINES,
                lines == self.lines(),
                k <= self.count,
                idx < LOG_LINES,
                idx as int == (self.next + LOG_LINES - k) % (LOG_LINES as int),
                w@ == old(w)@ + newest_first(lines, k as nat, now, unix_now),
            decreases self.count - k,
        {
            let prev: usize = if idx == 0 { LOG_LINES - 1 } else { idx - 1 };
            proof {
                lemma_previous_slot(self.next as int, self.count as int, k as int, idx as int, prev as int);
            }
            idx = prev;
            let (msg, stamp) = self.line(idx);
            assert(lines[lines.len() - (k + 1)] == (msg@, stamp));
            write_line(w, msg, stamp, now, unix_now);
            k = k + 1;
        }
    }
}

proof fn lemma_previous_slot(next: int, count: int, k: int, idx: int, prev: int)
    requires
        0 <= next < 128,
        0 <= k < count <= 128,
        idx == (next + 128 - k) % 128,
        prev == (if idx == 0 { 127 } else { idx - 1 }),
    ensures
        prev == (next + 128 - (k + 1)) % 128,
        prev == slot_of(next, count, count - 1 - k),
{
}

/// Appends one line: stamp, message, newline.
fn write_line(w: &mut Vec<u8>, msg: &[u8], stamp: Millis, now: Millis, unix_now: Option<u64>)
    ensures
        final(w)@ == old(w)@ + line_text((msg@, stamp), now, unix_now),
{
    write_stamp(w, stamp, now, unix_now);
    push_bytes(w, msg);
    push_str(w, "\n");
    assert(w@ =~= old(w)@ + line_text((msg@, stamp), now, unix_now));
}

impl Default for LogRing {
    fn default() -> (r: Self)
        ensures
            r.lines() == Seq::<LogLine>::empty(),
    {
        LogRing::new()
    }
}

/// Appends the stamp of a line pushed at `stamp`, rendered at `now`.
fn write_stamp(w: &mut Vec<u8>, stamp: Millis, now: Millis, unix_now: Option<u64>)
    ensures
        final(w)@ == old(w)@ + line_stamp(stamp, now, unix_now),
{
    let age: u64 = now.since(stamp).as_secs();
    match unix_now {
        Some(t) => {
            if t >= age {
                write_wall_stamp(w, t - age);
                return;
            }
        },
        None => {},
    }
    push_str(w, "[+");
    push_u64(w, stamp.as_secs());
    push_str(w, "s] ");
    assert(w@ =~= old(w)@ + line_stamp(stamp, now, unix_now));
}

/// Appends `[YYYY-MM-DD HH:MM:SS] ` for the Unix timestamp `secs`.
fn write_wall_stamp(w: &mut Vec<u8>, secs: u64)
    ensures
        final(w)@ == old(w)@ + wall_stamp(secs as nat),
{
    let (year, month, day, hour, minute, second) = match civil_datetime(secs) {
        Some(c) => c,
        None => (0, 0, 0, 0, 0, 0),
    };
    proof {
        lemma_civil_year_nonnegative((secs as nat / 86400) as int);
    }
    push_str(w, "[");
    push_zpad(w, year as u64, 4);
    push_str(w, "-");
    push_zpad(w, month as u64, 2);
    push_str(w, "-");
    push_zpad(w, day as u64, 2);
    push_str(w, " ");
    push_zpad(w, hour, 2);
    push_str(w, ":");
    push_zpad(w, minute, 2);
    push_str(w, ":");
    push_zpad(w, second, 2);
    push_str(w, "] ");
    assert(w@ =~= old(w)@ + wall_stamp(secs as nat));
}

} // verus!
