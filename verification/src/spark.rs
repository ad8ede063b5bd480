//! Sparkline history ring: `SPARK_DEPTH` columns of temperature and
//! humidity per device, with `i16::MIN` marking a missing sample.

use vstd::prelude::*;
use crate::registry::Registry;
use crate::{MAX_DEVICES, SPARK_DEPTH};

verus! {

/// Missing-sample sentinel: not yet filled, or the device was offline at
/// sample time. As a reading it would mean -327.68 °C.
pub const NO_SAMPLE: i16 = -32768i16;

/// The mathematical state of the rings.
pub struct SparkModel {
    /// `MAX_DEVICES` rows of `SPARK_DEPTH` raw slots.
    pub temperature: Seq<Seq<i16>>,
    pub humidity: Seq<Seq<i16>>,
    /// Next write position per device; also the oldest column.
    pub cursor: Seq<int>,
}

/// A stored slot as a sample: the sentinel reads as absent.
pub open spec fn as_sample(v: i16) -> Option<i16> {
    if v == NO_SAMPLE { None } else { Some(v) }
}

/// A pushed value as a stored slot.
pub open spec fn as_slot(v: Option<i16>) -> i16 {
    match v {
        Some(x) => x,
        None => NO_SAMPLE,
    }
}

/// One row read oldest to newest from `oldest`.
pub open spec fn series_of(row: Seq<i16>, oldest: int) -> Seq<Option<i16>> {
    Seq::new(
        SPARK_DEPTH as nat,
        |k: int| as_sample(row[(oldest + k) % (SPARK_DEPTH as int)]),
    )
}

/// The series of an unknown device: all absent.
pub open spec fn empty_series() -> Seq<Option<i16>> {
    Seq::new(SPARK_DEPTH as nat, |k: int| None::<i16>)
}

impl SparkModel {
    pub open spec fn temperature_series(self, device: int) -> Seq<Option<i16>> {
        if 0 <= device < MAX_DEVICES {
            series_of(self.temperature[device], self.cursor[device])
        } else {
            empty_series()
        }
    }

    pub open spec fn humidity_series(self, device: int) -> Seq<Option<i16>> {
        if 0 <= device < MAX_DEVICES {
            series_of(self.humidity[device], self.cursor[device])
        } else {
            empty_series()
        }
    }

    /// The rings after one pushed column.
    pub open spec fn pushed(self, device: int, temp: Option<i16>, hum: Option<i16>) -> SparkModel {
        if 0 <= device < MAX_DEVICES {
            let at = self.cursor[device];
            let next = if at + 1 >= SPARK_DEPTH { 0 } else { at + 1 };
            SparkModel {
                temperature: self.temperature.update(
                    device,
                    self.temperature[device].update(at, as_slot(temp)),
                ),
                humidity: self.humidity.update(device, self.humidity[device].update(at, as_slot(hum))),
                cursor: self.cursor.update(device, next),
            }
        } else {
            self
        }
    }
}

/// Rings with every slot missing and every cursor at the start.
pub open spec fn empty_spark() -> SparkModel {
    SparkModel {
        temperature: Seq::new(MAX_DEVICES as nat, |d: int| Seq::new(SPARK_DEPTH as nat, |k: int| NO_SAMPLE)),
        humidity: Seq::new(MAX_DEVICES as nat, |d: int| Seq::new(SPARK_DEPTH as nat, |k: int| NO_SAMPLE)),
        cursor: Seq::new(MAX_DEVICES as nat, |d: int| 0int),
    }
}

/// Fixed-capacity rings of sparkline samples, one column per sample
/// interval, per device.
pub struct Spark {
    temperature: [i16; 576],
    humidity: [i16; 576],
    cursor: [usize; 8],
}

/// Row `d` of a flat `MAX_DEVICES x SPARK_DEPTH` table.
pub open spec fn row_of(table: Seq<i16>, d: int) -> Seq<i16> {
    Seq::new(SPARK_DEPTH as nat, |k: int| table[d * 72 + k])
}

impl Spark {
    pub closed spec fn model(&self) -> SparkModel {
        SparkModel {
            temperature: Seq::new(MAX_DEVICES as nat, |d: int| row_of(self.temperature@, d)),
            humidity: Seq::new(MAX_DEVICES as nat, |d: int| row_of(self.humidity@, d)),
            cursor: Seq::new(MAX_DEVICES as nat, |d: int| self.cursor@[d] as int),
        }
    }

    #[verifier::type_invariant]
    closed spec fn cursors_in_range(self) -> bool {
        forall|d: int| 0 <= d < MAX_DEVICES ==> #[trigger] self.cursor@[d] < SPARK_DEPTH
    }

    /// Every slot of every device missing, every cursor at the start.
    pub fn new() -> (r: Self)
        ensures
            crate::laws::spark_valid(r.model()),
            r.model() == empty_spark(),
    {
        let r = Spark { temperature: [NO_SAMPLE; 576], humidity: [NO_SAMPLE; 576], cursor: [0usize; 8] };
        assert(r.model().temperature =~= Seq::new(
            MAX_DEVICES as nat,
            |d: int| Seq::new(SPARK_DEPTH as nat, |k: int| NO_SAMPLE),
        )) by {
            assert forall|d: int| 0 <= d < MAX_DEVICES implies #[trigger] r.model().temperature[d]
                =~= Seq::new(SPARK_DEPTH as nat, |k: int| NO_SAMPLE) by {}
        }
        assert(r.model().humidity =~= Seq::new(
            MAX_DEVICES as nat,
            |d: int| Seq::new(SPARK_DEPTH as nat, |k: int| NO_SAMPLE),
        )) by {
            assert forall|d: int| 0 <= d < MAX_DEVICES implies #[trigger] r.model().humidity[d]
                =~= Seq::new(SPARK_DEPTH as nat, |k: int| NO_SAMPLE) by {}
        }
        assert(r.model().cursor =~= Seq::new(MAX_DEVICES as nat, |d: int| 0int));
        r
    }

    /// Appends one sample column for a device; `None` records a missing
    /// sample. A `device` at or beyond `MAX_DEVICES` is ignored.
    pub fn push(&mut self, device: usize, temp_centi: Option<i16>, hum_centi: Option<i16>)
        ensures
            crate::laws::spark_valid(old(self).model()),
            crate::laws::spark_valid(final(self).model()),
            final(self).model() == old(self).model().pushed(device as int, temp_centi, hum_centi),
    {
        proof {
            use_type_invariant(&*self);
        }
        if device >= MAX_DEVICES {
            return;
        }
        let ghost before = self.model();
        let at = self.cursor[device];
        let slot = device * SPARK_DEPTH + at;
        let mut temperature = self.temperature;
        temperature[slot] = match temp_centi {
            Some(v) => v,
            None => NO_SAMPLE,
        };
        let mut humidity = self.humidity;
        humidity[slot] = match hum_centi {
            Some(v) => v,
            None => NO_SAMPLE,
        };
        let mut cursor = self.cursor;
        cursor[device] = if at + 1 >= SPARK_DEPTH { 0 } else { at + 1 };
        self.temperature = temperature;
        self.humidity = humidity;
        self.cursor = cursor;
        let ghost after = before.pushed(device as int, temp_centi, hum_centi);
        assert forall|d: int| 0 <= d < MAX_DEVICES implies #[trigger] self.model().temperature[d]
            =~= after.temperature[d] by {
            if d == device {
                assert forall|k: int| 0 <= k < SPARK_DEPTH implies self.model().temperature[d][k]
                    == after.temperature[d][k] by {
                    if k == at {
                    } else {
                        assert(d * 72 + k != slot);
                    }
                }
            } else {
                assert forall|k: int| 0 <= k < SPARK_DEPTH implies self.model().temperature[d][k]
                    == after.temperature[d][k] by {
                    assert(d * 72 + k != slot);
                }
            }
        }
        assert forall|d: int| 0 <= d < MAX_DEVICES implies #[trigger] self.model().humidity[d]
            =~= after.humidity[d] by {
            if d == device {
                assert forall|k: int| 0 <= k < SPARK_DEPTH implies self.model().humidity[d][k]
                    == after.humidity[d][k] by {
                    if k == at {
                    } else {
                        assert(d * 72 + k != slot);
                    }
                }
            } else {
                assert forall|k: int| 0 <= k < SPARK_DEPTH implies self.model().humidity[d][k]
                    == after.humidity[d][k] by {
                    assert(d * 72 + k != slot);
                }
            }
        }
        assert(self.model().temperature =~= after.temperature);
        assert(self.model().humidity =~= after.humidity);
        assert(self.model().cursor =~= after.cursor);
    }

    /// Temperature history, oldest to newest, exactly `SPARK_DEPTH` items;
    /// missing samples and unknown devices read `None`.
    pub fn temperature(&self, device: usize) -> (r: [Option<i16>; SPARK_DEPTH])
        ensures
            crate::laws::spark_valid(self.model()),
            r@ == self.model().temperature_series(device as int),
    {
        proof {
            use_type_invariant(self);
        }
        if device >= MAX_DEVICES {
            series(&self.temperature, device, 0, false)
        } else {
            series(&self.temperature, device, self.oldest(device), true)
        }
    }

    /// Humidity history; same shape as `temperature`.
    pub fn humidity(&self, device: usize) -> (r: [Option<i16>; SPARK_DEPTH])
        ensures
            crate::laws::spark_valid(self.model()),
            r@ == self.model().humidity_series(device as int),
    {
        proof {
            use_type_invariant(self);
        }
        if device >= MAX_DEVICES {
            series(&self.humidity, device, 0, false)
        } else {
            series(&self.humidity, device, self.oldest(device), true)
        }
    }

    /// The oldest column of a device, which is also the next write position.
    pub fn oldest(&self, device: usize) -> (r: usize)
        ensures
            crate::laws::spark_valid(self.model()),
            device < MAX_DEVICES ==> r == self.model().cursor[device as int] && r < SPARK_DEPTH,
            device >= MAX_DEVICES ==> r == 0,
    {
        proof {
            use_type_invariant(self);
        }
        if device < MAX_DEVICES {
            self.cursor[device]
        } else {
            0
        }
    }
}

impl Clone for Spark {
    /// A snapshot: equal rings.
    fn clone(&self) -> (r: Self)
        ensures
            crate::laws::spark_valid(self.model()),
            crate::laws::spark_valid(r.model()),
            r.model() == self.model(),
    {
        proof {
            use_type_invariant(self);
        }
        Spark { temperature: self.temperature, humidity: self.humidity, cursor: self.cursor }
    }
}

impl Default for Spark {
    fn default() -> (r: Self)
        ensures
            crate::laws::spark_valid(r.model()),
            r.model() == empty_spark(),
    {
        Spark::new()
    }
}

/// Walks one device's row oldest to newest; a missing row (unknown device)
/// still yields `SPARK_DEPTH` items, all `None`.
pub fn series(table: &[i16; 576], device: usize, oldest: usize, present: bool) -> (r: [Option<i16>; SPARK_DEPTH])
    requires
        present ==> device < MAX_DEVICES && oldest < SPARK_DEPTH,
    ensures
        present ==> r@ == series_of(row_of(table@, device as int), oldest as int),
        !present ==> r@ == empty_series(),
{
    let mut out: [Option<i16>; SPARK_DEPTH] = [None; SPARK_DEPTH];
    let mut offset: usize = 0;
    while offset < SPARK_DEPTH
        invariant
            offset <= SPARK_DEPTH,
            present ==> device < MAX_DEVICES && oldest < SPARK_DEPTH,
            forall|k: int|
                0 <= k < offset ==> #[trigger] out@[k] == (if present {
                    series_of(row_of(table@, device as int), oldest as int)[k]
                } else {
                    None
                }),
        decreases SPARK_DEPTH - offset,
    {
        if present {
            let idx = oldest + offset;
            let idx = if idx >= SPARK_DEPTH { idx - SPARK_DEPTH } else { idx };
            assert(idx as int == (oldest + offset) % (SPARK_DEPTH as int));
            let v = table[device * SPARK_DEPTH + idx];
            out[offset] = if v == NO_SAMPLE { None } else { Some(v) };
        } else {
            out[offset] = None;
        }
        offset = offset + 1;
    }
    if present {
        assert(out@ =~= series_of(row_of(table@, device as int), oldest as int));
    } else {
        assert(out@ =~= empty_series());
    }
    out
}

} // verus!
