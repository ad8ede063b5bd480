use harvester_core::render::status::render_status;

fn render(timeout: u64, active: usize) -> String {
    let mut s = Vec::new();
    render_status(&mut s, timeout, active);
    String::from_utf8(s).unwrap()
}

#[test]
fn python_shape_is_byte_exact() {
    assert_eq!(
        render(90, 5),
        "{\"device_timeout_seconds\": 90, \"devices_active\": 5}"
    );
}

#[test]
fn values_are_not_hardcoded() {
    assert_eq!(
        render(120, 8),
        "{\"device_timeout_seconds\": 120, \"devices_active\": 8}"
    );
}
