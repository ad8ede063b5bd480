use harvester_core::site::{parse_device_table, EntryProblem, SiteDevice, TableError};

const KEY: &str = "231d39c1d7cc1ab1aee224cd096db932";

fn name<'a>(table: &'a str, d: &SiteDevice) -> &'a str {
    &table[d.name_start..d.name_end]
}

#[test]
fn table_with_plain_and_encrypted_entries() {
    let table = format!(" A4:C1:38:00:11:22=baby_room ; ;a4:c1:38:aa:bb:cc=attic={KEY};");
    let devices = parse_device_table(table.as_bytes()).unwrap();
    assert_eq!(devices.len(), 2);
    assert_eq!(devices[0].mac, [0xa4, 0xc1, 0x38, 0x00, 0x11, 0x22]);
    assert_eq!(name(&table, &devices[0]), "baby_room");
    assert_eq!(devices[0].bindkey, None);
    assert_eq!(devices[1].mac, [0xa4, 0xc1, 0x38, 0xaa, 0xbb, 0xcc]);
    assert_eq!(name(&table, &devices[1]), "attic");
    let key = devices[1].bindkey.unwrap();
    assert_eq!(key[0], 0x23);
    assert_eq!(key[15], 0x32);
}

#[test]
fn empty_table_has_no_devices() {
    assert_eq!(parse_device_table(b"").unwrap().len(), 0);
    assert_eq!(parse_device_table(b" ; \t;").unwrap().len(), 0);
}

#[test]
fn bad_mac_is_refused_with_its_span() {
    let table = "A4:C1:38:00:11:22=ok;A4-C1-38-00-11-22=bad";
    assert_eq!(
        parse_device_table(table.as_bytes()),
        Err(TableError { start: 21, end: 42, problem: EntryProblem::BadMac })
    );
}

#[test]
fn missing_or_empty_name_is_refused() {
    assert_eq!(
        parse_device_table(b"A4:C1:38:00:11:22").unwrap_err().problem,
        EntryProblem::MissingName
    );
    assert_eq!(
        parse_device_table(b"A4:C1:38:00:11:22=").unwrap_err().problem,
        EntryProblem::MissingName
    );
}

#[test]
fn short_bindkey_is_refused() {
    assert_eq!(
        parse_device_table(b"A4:C1:38:00:11:22=attic=abcd").unwrap_err(),
        TableError { start: 0, end: 28, problem: EntryProblem::BadBindkey }
    );
}

#[test]
fn fields_past_the_third_are_ignored() {
    let table = format!("A4:C1:38:00:11:22=attic={KEY}=extra");
    let devices = parse_device_table(table.as_bytes()).unwrap();
    assert_eq!(devices.len(), 1);
    assert!(devices[0].bindkey.is_some());
}
