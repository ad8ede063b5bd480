//! `/api/history` body: the sparkline series, oldest to newest, with
//! `null` where a sample is missing.

use vstd::prelude::*;
use crate::device::Device;
use crate::registry::{DeviceModel, Registry, RegistryModel};
use crate::render::{centi_or_null, json_str, per_device, sep, write_centi_or_null, write_json_str};
use crate::spark::{Spark, SparkModel};
use crate::text::{bytes_of, dec, push_byte, push_str, push_u64};
use crate::SPARK_DEPTH;

verus! {

/// A sample as a centi-scaled number, or `null`.
pub open spec fn sample_text(v: Option<i16>) -> Seq<u8> {
    centi_or_null(
        match v {
            Some(x) => Some(x as i32),
            None => None,
        },
    )
}

/// Samples as comma-separated JSON values.
pub open spec fn series_text(s: Seq<Option<i16>>) -> Seq<u8>
    decreases s.len(),
{
    if s.len() == 0 {
        Seq::empty()
    } else {
        series_text(s.drop_last()) + sep(s.len() - 1) + sample_text(s.last())
    }
}

/// One device's entry: its name and both series.
pub open spec fn history_entry(sp: SparkModel, i: int, dev: Device) -> Seq<u8> {
    sep(i) + bytes_of("{\"name\":") + json_str(dev.name) + bytes_of(",\"temperature\":[")
        + series_text(sp.temperature_series(i)) + bytes_of("],\"humidity\":[") + series_text(
        sp.humidity_series(i),
    ) + bytes_of("]}")
}

/// The `/api/history` body.
pub open spec fn history_body(m: RegistryModel, sp: SparkModel, interval_seconds: u64) -> Seq<u8> {
    bytes_of("{\"interval_seconds\":") + dec(interval_seconds as nat) + bytes_of(",\"depth\":")
        + dec(SPARK_DEPTH as nat) + bytes_of(",\"devices\":[") + per_device(
        m,
        m.devices.len() as int,
        |i: int, dev: Device, st: DeviceModel| history_entry(sp, i, dev),
    ) + bytes_of("]}")
}

/// One metric's samples as comma-separated JSON values.
pub fn write_series(w: &mut Vec<u8>, series: &[Option<i16>])
    ensures
        final(w)@ == old(w)@ + series_text(series@),
{
    let ghost start = w@;
    let mut k: usize = 0;
    while k < series.len()
        invariant
            k <= series@.len(),
            w@ == start + series_text(series@.subrange(0, k as int)),
        decreases series@.len() - k,
    {
        let ghost before = w@;
        if k != 0 {
            push_byte(w, 44u8);
        }
        assert(w@ =~= before + sep(k as int));
        let sample = series[k];
        write_centi_or_null(
            w,
            match sample {
                Some(x) => Some(x as i32),
                None => None,
            },
        );
        assert(series@.subrange(0, k + 1).drop_last() =~= series@.subrange(0, k as int));
        assert(w@ =~= start + series_text(series@.subrange(0, k + 1)));
        k = k + 1;
    }
    assert(series@.subrange(0, series@.len() as int) =~= series@);
}

fn write_history_entry(w: &mut Vec<u8>, spark: &Spark, idx: usize, dev: &Device)
    ensures
        final(w)@ == old(w)@ + history_entry(spark.model(), idx as int, *dev),
{
    let ghost s0 = w@;
    if idx != 0 {
        push_byte(w, 44u8);
    }
    assert(w@ =~= s0 + sep(idx as int));
    push_str(w, "{\"name\":");
    write_json_str(w, dev.name);
    push_str(w, ",\"temperature\":[");
    let temperature = spark.temperature(idx);
    write_series(w, temperature.as_slice());
    push_str(w, "],\"humidity\":[");
    let humidity = spark.humidity(idx);
    write_series(w, humidity.as_slice());
    push_str(w, "]}");
    assert(w@ =~= old(w)@ + history_entry(spark.model(), idx as int, *dev));
}

/// Appends the `/api/history` body. `interval_seconds` travels with the
/// series; every configured device appears, online or not, each metric
/// exactly `SPARK_DEPTH` values.
pub fn render_history(w: &mut Vec<u8>, registry: &Registry, spark: &Spark, interval_seconds: u64)
    ensures
        final(w)@ == old(w)@ + history_body(registry.model(), spark.model(), interval_seconds),
{
    let ghost m = registry.model();
    let ghost sp = spark.model();
    let ghost f = |i: int, dev: Device, st: DeviceModel| history_entry(sp, i, dev);
    push_str(w, "{\"interval_seconds\":");
    push_u64(w, interval_seconds);
    push_str(w, ",\"depth\":");
    push_u64(w, SPARK_DEPTH as u64);
    push_str(w, ",\"devices\":[");
    let ghost start = w@;
    let n = registry.len();
    let mut idx: usize = 0;
    while idx < n
        invariant
            idx <= n,
            n == m.devices.len(),
            m == registry.model(),
            sp == spark.model(),
            f == (|i: int, dev: Device, st: DeviceModel| history_entry(sp, i, dev)),
            w@ == start + per_device(m, idx as int, f),
        decreases n - idx,
    {
        let v = registry.view(idx);
        if let Some(v) = v {
            write_history_entry(w, spark, idx, v.device);
            assert(per_device(m, idx + 1, f) == per_device(m, idx as int, f) + f(
                idx as int,
                m.devices[idx as int],
                m.states[idx as int],
            ));
            assert(w@ =~= start + per_device(m, idx + 1, f));
        }
        idx = idx + 1;
    }
    push_str(w, "]}");
    assert(w@ =~= old(w)@ + history_body(m, sp, interval_seconds));
}

} // verus!
