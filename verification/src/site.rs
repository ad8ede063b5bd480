//! The site's device table: `;`-separated entries, each `MAC=name` or
//! `MAC=name=bindkey`, blank entries skipped, ASCII whitespace around an
//! entry ignored. Names are handed back as byte ranges of the table, so
//! a caller holding the table for the whole run can name devices by slices
//! of it.

use vstd::prelude::*;
use vstd::slice::slice_subrange;
use crate::device::{
    bindkey_from_bytes, hex_pair, is_bindkey_bytes, is_bindkey_text, is_mac_bytes, is_mac_text,
    mac_from_bytes,
};

verus! {

/// ASCII whitespace: space, tab, line feed, vertical tab, form feed, carriage return.
pub open spec fn is_space(c: u8) -> bool {
    c == 32 || (9 <= c && c <= 13)
}

/// First index in `from..to` holding `c`, or `to` when there is none.
pub open spec fn find_byte(t: Seq<u8>, from: int, to: int, c: u8) -> int
    decreases to - from,
{
    if from >= to {
        to
    } else if t[from] == c {
        from
    } else {
        find_byte(t, from + 1, to, c)
    }
}

/// First index in `from..to` that is not whitespace, or `to`.
pub open spec fn skip_spaces(t: Seq<u8>, from: int, to: int) -> int
    decreases to - from,
{
    if from >= to {
        to
    } else if is_space(t[from]) {
        skip_spaces(t, from + 1, to)
    } else {
        from
    }
}

/// End of `lo..to` once trailing whitespace is dropped.
pub open spec fn drop_spaces(t: Seq<u8>, lo: int, to: int) -> int
    decreases to - lo,
{
    if to <= lo {
        lo
    } else if is_space(t[to - 1]) {
        drop_spaces(t, lo, to - 1)
    } else {
        to
    }
}

/// `find_byte` lands within its range.
pub proof fn lemma_find_bounds(t: Seq<u8>, from: int, to: int, c: u8)
    requires
        from <= to,
    ensures
        from <= find_byte(t, from, to, c) <= to,
    decreases to - from,
{
    if from < to && t[from] != c {
        lemma_find_bounds(t, from + 1, to, c);
    }
}

proof fn lemma_skip_bounds(t: Seq<u8>, from: int, to: int)
    requires
        from <= to,
    ensures
        from <= skip_spaces(t, from, to) <= to,
    decreases to - from,
{
    if from < to && is_space(t[from]) {
        lemma_skip_bounds(t, from + 1, to);
    }
}

proof fn lemma_drop_bounds(t: Seq<u8>, lo: int, to: int)
    requires
        lo <= to,
    ensures
        lo <= drop_spaces(t, lo, to) <= to,
    decreases to - lo,
{
    if lo < to && is_space(t[to - 1]) {
        lemma_drop_bounds(t, lo, to - 1);
    }
}

/// Why an entry of the table is refused.
#[derive(Clone, Copy, Debug, PartialEq, Eq, Structural)]
pub enum EntryProblem {
    /// The first field is not `AA:BB:CC:DD:EE:FF`.
    BadMac,
    /// The name field is missing or empty.
    MissingName,
    /// A bindkey field is present but is not 32 hex digits.
    BadBindkey,
}

/// A refused entry: its span in the table, as split at `;`, and why.
#[derive(Clone, Copy, Debug, PartialEq, Eq, Structural)]
pub struct TableError {
    pub start: usize,
    pub end: usize,
    pub problem: EntryProblem,
}

/// One accepted entry: the parsed MAC, the name as the byte range
/// `name_start..name_end` of the table, and the parsed bindkey if given.
#[derive(Clone, Copy, Debug, PartialEq, Eq)]
pub struct SiteDevice {
    pub mac: [u8; 6],
    pub name_start: usize,
    pub name_end: usize,
    pub bindkey: Option<[u8; 16]>,
}

/// An accepted entry as values.
pub struct SiteEntry {
    pub mac: Seq<u8>,
    pub name_start: int,
    pub name_end: int,
    pub bindkey: Option<Seq<u8>>,
}

/// The value of an accepted entry.
pub open spec fn site_entry(d: SiteDevice) -> SiteEntry {
    SiteEntry {
        mac: d.mac@,
        name_start: d.name_start as int,
        name_end: d.name_end as int,
        bindkey: match d.bindkey {
            Some(k) => Some(k@),
            None => None,
        },
    }
}

/// The six bytes written by `AA:BB:CC:DD:EE:FF`.
pub open spec fn mac_value(b: Seq<u8>) -> Seq<u8> {
    Seq::new(6, |i: int| hex_pair(b[3 * i], b[3 * i + 1]))
}

/// The sixteen bytes written by thirty-two hex digits.
pub open spec fn bindkey_value(b: Seq<u8>) -> Seq<u8> {
    Seq::new(16, |i: int| hex_pair(b[2 * i], b[2 * i + 1]))
}

/// What the entry `t[start..end]` says: `None` when it is blank, else the
/// entry or why it is refused. Fields are split at `=` after trimming;
/// the MAC is checked first, then the name, then the bindkey; fields past
/// the third are ignored.
pub open spec fn entry_outcome(t: Seq<u8>, start: int, end: int) -> Option<Result<SiteEntry, EntryProblem>> {
    let ts = skip_spaces(t, start, end);
    let te = drop_spaces(t, ts, end);
    if ts >= te {
        None
    } else {
        let p1 = find_byte(t, ts, te, 61u8);
        let mac = t.subrange(ts, p1);
        let ns = if p1 < te { p1 + 1 } else { te };
        let ne = if p1 < te { find_byte(t, p1 + 1, te, 61u8) } else { te };
        let key = if ne < te { Some(t.subrange(ne + 1, find_byte(t, ne + 1, te, 61u8))) } else { None };
        if !is_mac_text(mac) {
            Some(Err(EntryProblem::BadMac))
        } else if ns >= ne {
            Some(Err(EntryProblem::MissingName))
        } else if key matches Some(k) && !is_bindkey_text(k) {
            Some(Err(EntryProblem::BadBindkey))
        } else {
            Some(
                Ok(
                    SiteEntry {
                        mac: mac_value(mac),
                        name_start: ns,
                        name_end: ne,
                        bindkey: match key {
                            Some(k) => Some(bindkey_value(k)),
                            None => None,
                        },
                    },
                ),
            )
        }
    }
}

/// The entries of `t` from `start` on, in order, or the first refused one
/// with its span.
pub open spec fn table_from(t: Seq<u8>, start: int) -> Result<Seq<SiteEntry>, (int, int, EntryProblem)>
    decreases t.len() - start,
{
    if start > t.len() {
        Ok(Seq::empty())
    } else {
        let end = find_byte(t, start, t.len() as int, 59u8);
        proof {
            lemma_find_bounds(t, start, t.len() as int, 59u8);
        }
        let rest = if end < t.len() { table_from(t, end + 1) } else { Ok(Seq::empty()) };
        match entry_outcome(t, start, end) {
            None => rest,
            Some(Err(p)) => Err((start, end, p)),
            Some(Ok(e)) => match rest {
                Ok(s) => Ok(seq![e] + s),
                Err(x) => Err(x),
            },
        }
    }
}

/// `find_byte` over `t[from..to]`.
fn find_byte_in(t: &[u8], from: usize, to: usize, c: u8) -> (r: usize)
    requires
        from <= to <= t@.len(),
    ensures
        r == find_byte(t@, from as int, to as int, c),
{
    let mut i = from;
    while i < to
        invariant
            from <= i <= to <= t@.len(),
            find_byte(t@, i as int, to as int, c) == find_byte(t@, from as int, to as int, c),
        decreases to - i,
    {
        if t[i] == c {
            return i;
        }
        i = i + 1;
    }
    i
}

fn space(c: u8) -> (r: bool)
    ensures
        r == is_space(c),
{
    c == 32 || (9 <= c && c <= 13)
}

/// Splits the entry `t[start..end]` and parses its fields.
pub fn parse_entry(t: &[u8], start: usize, end: usize) -> (r: Option<Result<SiteDevice, EntryProblem>>)
    requires
        start <= end <= t@.len(),
    ensures
        match r {
            None => entry_outcome(t@, start as int, end as int) is None,
            Some(Err(p)) => entry_outcome(t@, start as int, end as int) == Some(
                Err::<SiteEntry, EntryProblem>(p),
            ),
            Some(Ok(d)) => entry_outcome(t@, start as int, end as int) == Some(
                Ok::<SiteEntry, EntryProblem>(site_entry(d)),
            ),
        },
{
    let mut ts = start;
    while ts < end && space(t[ts])
        invariant
            start <= ts <= end <= t@.len(),
            skip_spaces(t@, ts as int, end as int) == skip_spaces(t@, start as int, end as int),
        decreases end - ts,
    {
        ts = ts + 1;
    }
    let mut te = end;
    while te > ts && space(t[te - 1])
        invariant
            ts <= te <= end <= t@.len(),
            drop_spaces(t@, ts as int, te as int) == drop_spaces(t@, ts as int, end as int),
        decreases te - ts,
    {
        te = te - 1;
    }
    if ts >= te {
        return None;
    }
    let p1 = find_byte_in(t, ts, te, 61u8);
    proof {
        lemma_find_bounds(t@, ts as int, te as int, 61u8);
    }
    let mac = slice_subrange(t, ts, p1);
    if !is_mac_bytes(mac) {
        return Some(Err(EntryProblem::BadMac));
    }
    let ns: usize = if p1 < te { p1 + 1 } else { te };
    let ne: usize = if p1 < te { find_byte_in(t, p1 + 1, te, 61u8) } else { te };
    proof {
        if p1 < te {
            lemma_find_bounds(t@, p1 + 1, te as int, 61u8);
        }
    }
    if ns >= ne {
        return Some(Err(EntryProblem::MissingName));
    }
    let mac_bytes = mac_from_bytes(mac);
    assert(mac_bytes@ =~= mac_value(mac@));
    if ne < te {
        let ke = find_byte_in(t, ne + 1, te, 61u8);
        proof {
            lemma_find_bounds(t@, ne + 1, te as int, 61u8);
        }
        let key = slice_subrange(t, ne + 1, ke);
        if !is_bindkey_bytes(key) {
            return Some(Err(EntryProblem::BadBindkey));
        }
        let key_bytes = bindkey_from_bytes(key);
        assert(key_bytes@ =~= bindkey_value(key@));
        Some(Ok(SiteDevice { mac: mac_bytes, name_start: ns, name_end: ne, bindkey: Some(key_bytes) }))
    } else {
        Some(Ok(SiteDevice { mac: mac_bytes, name_start: ns, name_end: ne, bindkey: None }))
    }
}

/// Every entry of the device table, in order, or the first refused one.
pub fn parse_device_table(t: &[u8]) -> (r: Result<Vec<SiteDevice>, TableError>)
    ensures
        match r {
            Ok(v) => table_from(t@, 0) == Ok::<Seq<SiteEntry>, (int, int, EntryProblem)>(
                v@.map_values(|d: SiteDevice| site_entry(d)),
            ),
            Err(e) => table_from(t@, 0) == Err::<Seq<SiteEntry>, (int, int, EntryProblem)>(
                (e.start as int, e.end as int, e.problem),
            ),
        },
{
    let mut out: Vec<SiteDevice> = Vec::new();
    let mut start: usize = 0;
    loop
        invariant
            start <= t@.len(),
            match table_from(t@, start as int) {
                Ok(s) => table_from(t@, 0) == Ok::<Seq<SiteEntry>, (int, int, EntryProblem)>(
                    out@.map_values(|d: SiteDevice| site_entry(d)) + s,
                ),
                Err(x) => table_from(t@, 0) == Err::<Seq<SiteEntry>, (int, int, EntryProblem)>(x),
            },
        decreases t@.len() - start,
    {
        let end = find_byte_in(t, start, t.len(), 59u8);
        proof {
            lemma_find_bounds(t@, start as int, t@.len() as int, 59u8);
        }
        let ghost before = out@.map_values(|d: SiteDevice| site_entry(d));
        let ghost rest = if end < t@.len() {
            table_from(t@, end + 1)
        } else {
            Ok(Seq::<SiteEntry>::empty())
        };
        assert(table_from(t@, start as int) == match entry_outcome(t@, start as int, end as int) {
            None => rest,
            Some(Err(p)) => Err((start as int, end as int, p)),
            Some(Ok(e)) => match rest {
                Ok(s) => Ok(seq![e] + s),
                Err(x) => Err(x),
            },
        });
        match parse_entry(t, start, end) {
            None => {},
            Some(Err(p)) => {
                return Err(TableError { start, end, problem: p });
            },
            Some(Ok(d)) => {
                out.push(d);
                assert(out@.map_values(|d: SiteDevice| site_entry(d)) =~= before.push(site_entry(d)));
                proof {
                    if let Ok(s) = rest {
                        assert(before.push(site_entry(d)) + s =~= before + (seq![site_entry(d)] + s));
                    }
                }
            },
        }
        if end >= t.len() {
            assert(out@.map_values(|d: SiteDevice| site_entry(d)) + Seq::<SiteEntry>::empty()
                =~= out@.map_values(|d: SiteDevice| site_entry(d)));
            return Ok(out);
        }
        start = end + 1;
    }
}

} // verus!
