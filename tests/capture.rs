use keylogger::capture::{Capture, DEFAULT_CHECKPOINT_EVERY};
use keylogger::event::{host_little_endian, KeyPress, Timestamp};
use keylogger::keylog::KeyLog;

fn record(secs: u64, key: u16, value: u8) -> [u8; 24] {
    let mut r = [0u8; 24];
    r[0..8].copy_from_slice(&secs.to_ne_bytes());
    r[18..20].copy_from_slice(&key.to_ne_bytes());
    r[20] = value;
    r
}

#[test]
fn crash_after_checkpoint_keeps_checkpointed_presses() {
    let mut session = Capture::new(KeyLog::new(), DEFAULT_CHECKPOINT_EVERY, host_little_endian());
    let mut disk: Option<Vec<u8>> = None;
    let mut processed = 0usize;
    for i in 0..1250u64 {
        if session.record(&record(i, 30 + (i % 10) as u16, 1)) {
            disk = Some(session.log().encode(b"pw").unwrap());
        }
        processed += 1;
        session.record(&record(i, 30, 0));
    }
    // crash: no final checkpoint
    let reloaded = KeyLog::decode(&disk.unwrap(), b"pw").unwrap();
    assert_eq!(reloaded.len(), 1000);
    assert!(reloaded.len() >= 1000 && reloaded.len() <= processed);
    assert_eq!(&reloaded.0[..], &session.log().0[..1000]);
    assert_eq!(session.saved(), 1000);
    assert_eq!(session.len(), 1250);
}

#[test]
fn checkpoint_comes_every_interval_of_new_presses() {
    let mut loaded = KeyLog::new();
    loaded.add(KeyPress { time: Timestamp { secs: 0, nanos: 0 }, key: 1 });
    let mut session = Capture::new(loaded, 3, host_little_endian());
    let mut at = vec![];
    for i in 0..7u64 {
        if session.record(&record(i, 30, 1)) {
            at.push(session.len());
        }
        assert!(!session.record(&record(i, 0, 1)));
    }
    assert_eq!(at, vec![4, 7]);
    assert_eq!(session.saved(), 7);
    session.record(&record(9, 30, 1));
    assert_eq!(session.saved(), 7);
    session.finish();
    assert_eq!(session.saved(), 9);
}
