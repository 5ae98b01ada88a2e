use keylogger::codec::INFLATE_LIMIT;
use keylogger::crypto::{decrypt, encrypt, encrypt_with, CodecError};
use keylogger::event::{KeyPress, Timestamp};
use keylogger::keylog::KeyLog;

fn sample_log() -> KeyLog {
    let mut log = KeyLog::new();
    log.add(KeyPress { time: Timestamp { secs: 1_700_000_000, nanos: 123_456_000 }, key: 30 });
    log.add(KeyPress { time: Timestamp { secs: 1_700_000_001, nanos: 0 }, key: 31 });
    log.add(KeyPress { time: Timestamp { secs: 1_700_000_005, nanos: 999_999_000 }, key: 57 });
    log
}

#[test]
fn test_encrypt() {
    let data = b"hello world";
    let password = b"password";
    let encrypted = encrypt(data, password).unwrap();
    let decrypted = decrypt(&encrypted, password).unwrap();

    assert_eq!(data, decrypted.as_slice());
}

#[test]
fn encrypt_with_lays_out_salt_nonce_ciphertext() {
    let salt = [7u8; 16];
    let nonce = [9u8; 12];
    let env = encrypt_with(b"hello world", b"password", &salt, &nonce).unwrap();
    assert_eq!(env.len(), 28 + 11 + 16);
    assert_eq!(&env[..16], &salt);
    assert_eq!(&env[16..28], &nonce);
    assert_ne!(&env[28..39], b"hello world");
    let again = encrypt_with(b"hello world", b"password", &salt, &nonce).unwrap();
    assert_eq!(env, again);
}

#[test]
fn round_trip_keeps_every_field() {
    let log = sample_log();
    let env = log.encode(b"secret").unwrap();
    let back = KeyLog::decode(&env, b"secret").unwrap();
    assert_eq!(back.0, log.0);
}

#[test]
fn round_trip_of_empty_log() {
    let log = KeyLog::new();
    let env = log.encode(b"").unwrap();
    let back = KeyLog::decode(&env, b"").unwrap();
    assert_eq!(back.len(), 0);
}

#[test]
fn flipped_ciphertext_bit_fails_authentication() {
    let log = sample_log();
    let mut env = log.encode(b"secret").unwrap();
    let last = env.len() - 1;
    env[30] ^= 0x01;
    env[last] ^= 0x80;
    assert_eq!(KeyLog::decode(&env, b"secret").unwrap_err(), CodecError::Authentication);
}

#[test]
fn wrong_password_fails_authentication() {
    let log = sample_log();
    let env = log.encode(b"right").unwrap();
    assert_eq!(KeyLog::decode(&env, b"wrong").unwrap_err(), CodecError::Authentication);
}

#[test]
fn two_encodings_differ_but_decode_alike() {
    let log = sample_log();
    let a = log.encode(b"pw").unwrap();
    let b = log.encode(b"pw").unwrap();
    assert_ne!(a, b);
    assert_ne!(&a[..28], &b[..28]);
    assert_eq!(KeyLog::decode(&a, b"pw").unwrap().0, log.0);
    assert_eq!(KeyLog::decode(&b, b"pw").unwrap().0, log.0);
}

#[test]
fn short_envelope_is_a_format_error() {
    for n in 0..28usize {
        let bytes = vec![0u8; n];
        assert_eq!(KeyLog::decode(&bytes, b"pw").unwrap_err(), CodecError::Format);
        assert_eq!(decrypt(&bytes, b"pw").unwrap_err(), CodecError::Format);
    }
}

#[test]
fn garbage_payload_is_a_decompression_error() {
    let env = encrypt(&[0xffu8; 40], b"pw").unwrap();
    assert_eq!(KeyLog::decode(&env, b"pw").unwrap_err(), CodecError::Decompression);
}

#[test]
fn bad_serialized_log_is_a_format_error() {
    let compressed = miniz_oxide::deflate::compress_to_vec(&[1u8, 2, 3], 6);
    let env = encrypt(&compressed, b"pw").unwrap();
    assert_eq!(KeyLog::decode(&env, b"pw").unwrap_err(), CodecError::Format);
}

#[test]
fn envelope_payload_is_the_deflated_log() {
    let log = sample_log();
    let env = log.encode_with(b"pw", &[1u8; 16], &[2u8; 12]).unwrap();
    let inner = decrypt(&env, b"pw").unwrap();
    let serialized = miniz_oxide::inflate::decompress_to_vec_with_limit(&inner, INFLATE_LIMIT).unwrap();
    assert_eq!(serialized, log.to_bytes());
    assert_ne!(inner, log.to_bytes());
}

#[test]
fn key_depends_on_password_and_salt() {
    let nonce = [3u8; 12];
    let a = encrypt_with(b"data", b"alpha", &[1u8; 16], &nonce).unwrap();
    let b = encrypt_with(b"data", b"beta", &[1u8; 16], &nonce).unwrap();
    let c = encrypt_with(b"data", b"alpha", &[2u8; 16], &nonce).unwrap();
    assert_ne!(&a[28..], &b[28..]);
    assert_ne!(&a[28..], &c[28..]);
    assert_eq!(decrypt(&a, b"beta").unwrap_err(), CodecError::Authentication);
}
