use keylogger::event::{KeyPress, Timestamp};
use keylogger::keylog::KeyLog;
use keylogger::legacy::OldKeyLog;
use std::time::{Duration, SystemTime, UNIX_EPOCH};

#[test]
fn byte_form_matches_bincode_of_system_times() {
    let mut log = KeyLog::new();
    log.add(KeyPress { time: Timestamp { secs: 1_700_000_000, nanos: 5 }, key: 30 });
    log.add(KeyPress { time: Timestamp { secs: 3, nanos: 999_999_999 }, key: 0xffff });
    let std_form: Vec<(SystemTime, u16)> = vec![
        (UNIX_EPOCH + Duration::new(1_700_000_000, 5), 30),
        (UNIX_EPOCH + Duration::new(3, 999_999_999), 0xffff),
    ];
    assert_eq!(log.to_bytes(), bincode::serialize(&std_form).unwrap());
}

#[test]
fn byte_form_of_empty_log_is_a_zero_count() {
    assert_eq!(KeyLog::new().to_bytes(), vec![0u8; 8]);
}

#[test]
fn bytes_round_trip() {
    let mut log = KeyLog::new();
    log.add(KeyPress { time: Timestamp { secs: 42, nanos: 7 }, key: 57 });
    let back = KeyLog::from_bytes(&log.to_bytes()).unwrap();
    assert_eq!(back.0, log.0);
}

#[test]
fn malformed_bytes_are_rejected() {
    let mut log = KeyLog::new();
    log.add(KeyPress { time: Timestamp { secs: 42, nanos: 7 }, key: 57 });
    let good = log.to_bytes();
    assert!(KeyLog::from_bytes(&good[..7]).is_none());
    assert!(KeyLog::from_bytes(&good[..good.len() - 1]).is_none());
    let mut longer = good.clone();
    longer.push(0);
    assert!(KeyLog::from_bytes(&longer).is_none());
    let mut bad_nanos = good.clone();
    bad_nanos[16..20].copy_from_slice(&1_000_000_000u32.to_le_bytes());
    assert!(KeyLog::from_bytes(&bad_nanos).is_none());
}

#[test]
fn legacy_bytes_match_bincode() {
    let old: Vec<(u128, u16)> = vec![(1000, 30), (u128::MAX, 31)];
    let bytes = bincode::serialize(&old).unwrap();
    let parsed = OldKeyLog::from_bytes(&bytes).unwrap();
    assert_eq!(parsed.0.len(), 2);
    assert_eq!((parsed.0[0].time, parsed.0[0].key), (1000, 30));
    assert_eq!((parsed.0[1].time, parsed.0[1].key), (u128::MAX, 31));
    assert!(OldKeyLog::from_bytes(&bytes[..bytes.len() - 1]).is_none());
}
