use keylogger::event::{decode_event, host_little_endian, is_key_press, record_time_fits, KeyPress, Timestamp};
use keylogger::keylog::KeyLog;

fn record(secs: u64, micros: u64, key: u16, value: u8) -> [u8; 24] {
    let mut r = [0u8; 24];
    r[0..8].copy_from_slice(&secs.to_ne_bytes());
    r[8..16].copy_from_slice(&micros.to_ne_bytes());
    r[16..18].copy_from_slice(&1u16.to_ne_bytes());
    r[18..20].copy_from_slice(&key.to_ne_bytes());
    r[20] = value;
    r
}

#[test]
fn host_order_matches_the_target() {
    assert_eq!(host_little_endian(), u32::from_ne_bytes([1, 0, 0, 0]) == 1);
}

#[test]
fn press_record_decodes_to_epoch_plus_offset() {
    let little = host_little_endian();
    let r = record(1_700_000_000, 2_345_678, 30, 1);
    let p = decode_event(&r, little).unwrap();
    assert_eq!(p, KeyPress { time: Timestamp { secs: 1_700_000_002, nanos: 345_678_000 }, key: 30 });
    let expected = std::time::UNIX_EPOCH
        + std::time::Duration::from_secs(1_700_000_000)
        + std::time::Duration::from_micros(2_345_678);
    let d = expected.duration_since(std::time::UNIX_EPOCH).unwrap();
    assert_eq!((p.time.secs, p.time.nanos), (d.as_secs(), d.subsec_nanos()));
}

#[test]
fn little_endian_fields_are_read_from_fixed_offsets() {
    let mut r = [0u8; 24];
    r[0] = 5;
    r[8] = 0x40;
    r[9] = 0x42;
    r[10] = 0x0f;
    r[18] = 0x1e;
    r[19] = 0x01;
    r[20] = 1;
    let p = KeyPress::new(&r, true);
    assert_eq!(p, KeyPress { time: Timestamp { secs: 6, nanos: 0 }, key: 0x011e });
    let q = KeyPress::new(&r, false);
    assert_eq!(q.key, 0x1e01);
}

#[test]
fn release_and_repeat_records_are_skipped() {
    let little = host_little_endian();
    assert_eq!(decode_event(&record(10, 0, 30, 0), little), None);
    assert_eq!(decode_event(&record(10, 0, 30, 2), little), None);
    assert!(!is_key_press(&record(10, 0, 30, 0), little));
    assert!(is_key_press(&record(10, 0, 30, 1), little));
}

#[test]
fn records_without_key_code_are_skipped() {
    let little = host_little_endian();
    assert_eq!(decode_event(&record(10, 0, 0, 1), little), None);
}

#[test]
fn time_overflow_is_detected() {
    let little = host_little_endian();
    assert!(!record_time_fits(&record(u64::MAX, 1_000_000, 30, 1), little));
    assert!(record_time_fits(&record(u64::MAX, 999_999, 30, 1), little));
    let p = KeyPress::new(&record(u64::MAX, 999_999, 30, 1), little);
    assert_eq!(p.time, Timestamp { secs: u64::MAX, nanos: 999_999_000 });
}

#[test]
fn log_appends_in_order() {
    let little = host_little_endian();
    let mut log = KeyLog::new();
    assert_eq!(log.len(), 0);
    log.log(&record(1, 0, 30, 1), little);
    log.add(KeyPress { time: Timestamp { secs: 2, nanos: 0 }, key: 31 });
    assert_eq!(log.len(), 2);
    assert_eq!(log.0[0].key, 30);
    assert_eq!(log.0[1].key, 31);
}
