use harvester_core::device::parse_mac;
use harvester_core::render::history::{render_history, write_series};
use harvester_core::{Device, Millis, Registry, Spark, Tunables, SPARK_DEPTH};

fn devices() -> &'static [Device] {
    Box::leak(Box::new([
        Device::plain(parse_mac("00:11:22:33:44:01"), "baby_room"),
        Device::plain(parse_mac("00:11:22:33:44:02"), "freezer"),
    ]))
}

const TUNABLES: Tunables = Tunables {
    device_timeout: Millis(90_000),
    wedge_window: Millis(600_000),
    spark_sample_interval: Millis(300_000),
};

fn render(spark: &Spark) -> String {
    let registry = Registry::new(devices(), TUNABLES);
    let mut s = Vec::new();
    render_history(&mut s, &registry, spark, 300);
    String::from_utf8(s).unwrap()
}

fn parse(s: &str) -> serde_json::Value {
    match serde_json::from_str(s) {
        Ok(v) => v,
        Err(e) => unreachable!("renderer must emit valid JSON: {e}"),
    }
}

/// `n` JSON nulls followed by a comma each: "null,null,...,".
fn nulls(n: usize) -> String {
    "null,".repeat(n)
}

#[test]
fn history_golden_body_is_byte_exact() {
    let mut spark = Spark::new();
    spark.push(0, Some(2100), Some(4500));
    spark.push(0, None, Some(4550)); // device offline at sample time
    spark.push(0, Some(2200), None);

    let mut expected = String::from("{\"interval_seconds\":300,\"depth\":72,\"devices\":[");
    expected.push_str("{\"name\":\"baby_room\",\"temperature\":[");
    expected.push_str(&nulls(SPARK_DEPTH - 3));
    expected.push_str("21.00,null,22.00],\"humidity\":[");
    expected.push_str(&nulls(SPARK_DEPTH - 3));
    expected.push_str("45.00,45.50,null]},");
    expected.push_str("{\"name\":\"freezer\",\"temperature\":[");
    expected.push_str(&nulls(SPARK_DEPTH - 1));
    expected.push_str("null],\"humidity\":[");
    expected.push_str(&nulls(SPARK_DEPTH - 1));
    expected.push_str("null]}]}");

    assert_eq!(render(&spark), expected);
}

#[test]
fn every_metric_array_is_exactly_spark_depth() {
    let mut spark = Spark::new();
    spark.push(0, Some(2100), Some(4500));

    let v = parse(&render(&spark));
    let devices = match v.get("devices").and_then(serde_json::Value::as_array) {
        Some(d) => d,
        None => unreachable!("devices must be an array"),
    };
    assert_eq!(devices.len(), 2, "all configured devices, online or not");
    for device in devices {
        for metric in ["temperature", "humidity"] {
            let series = match device.get(metric).and_then(serde_json::Value::as_array) {
                Some(s) => s,
                None => unreachable!("{metric} must be an array"),
            };
            assert_eq!(series.len(), SPARK_DEPTH);
        }
    }
}

#[test]
fn a_series_renders_centi_values_and_nulls() {
    let mut s = Vec::new();
    write_series(&mut s, &vec![Some(-50), None, Some(2365)]);
    assert_eq!(String::from_utf8(s).unwrap(), "-0.50,null,23.65");
}
