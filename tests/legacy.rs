use keylogger::crypto::{encrypt, CodecError};
use keylogger::legacy::{convert, OldKeyLog, OldKeyPress};

#[test]
fn legacy_millis_convert_to_timestamps() {
    let old = OldKeyLog(vec![
        OldKeyPress { time: 1000, key: 30 },
        OldKeyPress { time: 2000, key: 31 },
        OldKeyPress { time: 5000, key: 32 },
    ]);
    let log = convert(&old).unwrap();
    let got: Vec<(u64, u32, u16)> = log.0.iter().map(|p| (p.time.secs, p.time.nanos, p.key)).collect();
    assert_eq!(got, vec![(1, 0, 30), (2, 0, 31), (5, 0, 32)]);
}

#[test]
fn legacy_sub_second_millis_keep_their_fraction() {
    let old = OldKeyLog(vec![OldKeyPress { time: 1_700_000_000_123, key: 44 }]);
    let log = convert(&old).unwrap();
    assert_eq!((log.0[0].time.secs, log.0[0].time.nanos), (1_700_000_000, 123_000_000));
}

#[test]
fn legacy_time_past_u64_is_a_format_error() {
    let old = OldKeyLog(vec![
        OldKeyPress { time: 1, key: 30 },
        OldKeyPress { time: u64::MAX as u128 + 1, key: 31 },
    ]);
    assert_eq!(convert(&old).unwrap_err(), CodecError::Format);
}

#[test]
fn legacy_envelope_decodes() {
    let old: Vec<(u128, u16)> = vec![(1000, 30), (2000, 31), (5000, 32)];
    let env = encrypt(&bincode::serialize(&old).unwrap(), b"pw").unwrap();
    let parsed = OldKeyLog::decode(&env, b"pw").unwrap();
    let keys: Vec<u16> = parsed.0.iter().map(|p| p.key).collect();
    assert_eq!(keys, vec![30, 31, 32]);
    let bad = encrypt(&[1u8, 2, 3], b"pw").unwrap();
    assert_eq!(OldKeyLog::decode(&bad, b"pw").unwrap_err(), CodecError::Format);
    assert_eq!(OldKeyLog::decode(&[0u8; 27], b"pw").unwrap_err(), CodecError::Format);
}
