use harvester_core::fixed::{write_centi, write_milli, write_scaled};

fn centi(v: i32) -> String {
    let mut s = Vec::new();
    write_centi(&mut s, v);
    String::from_utf8(s).unwrap()
}

fn milli(v: i32) -> String {
    let mut s = Vec::new();
    write_milli(&mut s, v);
    String::from_utf8(s).unwrap()
}

#[test]
fn centi_positive() {
    assert_eq!(centi(2696), "26.96");
    assert_eq!(centi(2062), "20.62");
}

#[test]
fn centi_negative() {
    assert_eq!(centi(-5), "-0.05");
    assert_eq!(centi(-900), "-9.00");
    assert_eq!(centi(-4000), "-40.00");
    assert_eq!(centi(-50), "-0.50");
    assert_eq!(centi(-523), "-5.23");
}

#[test]
fn centi_zero_padding() {
    assert_eq!(centi(1), "0.01");
    assert_eq!(centi(10), "0.10");
    assert_eq!(centi(100), "1.00");
    assert_eq!(centi(0), "0.00");
}

#[test]
fn centi_extremes() {
    assert_eq!(centi(i32::MIN), "-21474836.48");
    assert_eq!(centi(i32::MAX), "21474836.47");
}

#[test]
fn milli_cases() {
    assert_eq!(milli(2939), "2.939");
    assert_eq!(milli(2586), "2.586");
    assert_eq!(milli(0), "0.000");
    assert_eq!(milli(-1), "-0.001");
    assert_eq!(milli(3175), "3.175");
}

#[test]
fn milli_extremes() {
    assert_eq!(milli(i32::MIN), "-2147483.648");
    assert_eq!(milli(i32::MAX), "2147483.647");
}

#[test]
fn scaled_appends_after_existing_bytes() {
    let mut s = b"t=".to_vec();
    write_scaled(&mut s, -12345, 10, 1);
    assert_eq!(String::from_utf8(s).unwrap(), "t=-1234.5");
}

#[test]
fn zero_scale_writes_zero_parts_without_panicking() {
    let mut s = Vec::new();
    write_scaled(&mut s, -12345, 0, 2);
    assert_eq!(String::from_utf8(s).unwrap(), "-0.00");
}
