//! The full transform between a key log and its envelope: serialize, then
//! deflate, then encrypt; and back.
use vstd::prelude::*;
use crate::crypto::{CodecError, decrypt, encrypt, encrypt_with, gcm_open, key_of, open_envelope, seal_envelope, PLAINTEXT_MAX};
use crate::format::{lemma_log_round_trip, log_bytes, parse_log};
use crate::event::KeyPress;
use crate::keylog::{KeyLog, presses_wf};

verus! {

/// The deflate level at which logs are compressed.
pub const COMPRESSION_LEVEL: u8 = 6;

/// The most bytes that inflating a stored log may produce.
pub const INFLATE_LIMIT: usize = 0x4000_0000;

#[verifier::external_type_specification]
#[verifier::external_body]
pub struct ExDecompressError(miniz_oxide::inflate::DecompressError);

/// The raw deflate stream of some bytes at a compression level.
pub uninterp spec fn deflated(data: Seq<u8>, level: u8) -> Seq<u8>;

/// The bytes that a raw deflate stream inflates to within a size limit, or
/// `None` for a malformed stream or one that inflates past the limit.
pub uninterp spec fn inflated(data: Seq<u8>, limit: usize) -> Option<Seq<u8>>;

/// Relies on miniz_oxide::deflate::compress_to_vec: a raw deflate stream of
/// the input, which miniz_oxide::inflate::decompress_to_vec_with_limit turns
/// back into the input when the input is below the limit.
#[verifier::external_body]
fn deflate(data: &[u8], level: u8) -> (r: Vec<u8>)
    ensures
        r@ == deflated(data@, level),
        data@.len() < INFLATE_LIMIT ==> inflated(r@, INFLATE_LIMIT) == Some(data@),
{
    miniz_oxide::deflate::compress_to_vec(data, level)
}

/// Relies on miniz_oxide::inflate::decompress_to_vec_with_limit: the inflated
/// bytes, or an error for a malformed stream or one past the limit.
#[verifier::external_body]
fn inflate(data: &[u8], limit: usize) -> (r: Result<Vec<u8>, miniz_oxide::inflate::DecompressError>)
    ensures
        r matches Ok(v) ==> inflated(data@, limit) == Some(v@),
        r is Err ==> inflated(data@, limit) is None,
{
    miniz_oxide::inflate::decompress_to_vec_with_limit(data, limit)
}

/// The compressed byte form of a log, the plaintext of its envelope.
pub open spec fn compressed_log(log: Seq<KeyPress>) -> Seq<u8> {
    deflated(log_bytes(log), COMPRESSION_LEVEL)
}

/// What decoding an envelope under a password gives.
pub open spec fn decode_spec(env: Seq<u8>, password: Seq<u8>) -> Result<Seq<KeyPress>, CodecError> {
    match open_envelope(env, password) {
        Err(e) => Err(e),
        Ok(c) => match inflated(c, INFLATE_LIMIT) {
            None => Err(CodecError::Decompression),
            Some(s) => match parse_log(s) {
                None => Err(CodecError::Format),
                Some(log) => Ok(log),
            },
        },
    }
}

/// The log can be stored and read back: its presses are well formed and its
/// byte form stays below the inflation limit.
pub open spec fn storable(log: Seq<KeyPress>) -> bool {
    presses_wf(log) && log_bytes(log).len() < INFLATE_LIMIT
}

/// Authentication comes first: decoding succeeds only when the tag verifies
/// under the key from the password and the envelope's salt; when it does not
/// (a wrong password, or a changed byte), decoding fails with `Authentication`
/// and goes no further, whatever the ciphertext holds.
pub proof fn lemma_decode_authenticates(env: Seq<u8>, password: Seq<u8>)
    requires
        env.len() >= 28,
    ensures
        decode_spec(env, password) is Ok ==> gcm_open(
            key_of(password, env.subrange(0, 16)),
            env.subrange(16, 28),
            env.subrange(28, env.len() as int),
        ) is Some,
        gcm_open(
            key_of(password, env.subrange(0, 16)),
            env.subrange(16, 28),
            env.subrange(28, env.len() as int),
        ) is None ==> decode_spec(env, password) == Err::<Seq<KeyPress>, CodecError>(
            CodecError::Authentication,
        ),
{
}

impl KeyLog {
    /// The envelope of the log under a password, with the given salt and nonce.
    pub fn encode_with(&self, password: &[u8], salt: &[u8], nonce: &[u8]) -> (r: Result<Vec<u8>, CodecError>)
        requires
            salt@.len() == 16,
            nonce@.len() == 12,
        ensures
            r is Ok <==> compressed_log(self@).len() <= PLAINTEXT_MAX,
            match r {
                Ok(env) => env@ == seal_envelope(compressed_log(self@), password@, salt@, nonce@),
                Err(e) => e == CodecError::Crypto,
            },
            storable(self@) && r is Ok ==> decode_spec(r->Ok_0@, password@)
                == Ok::<Seq<KeyPress>, CodecError>(self@),
    {
        let n = self.len();
        assert(n as int <= u64::MAX);
        let serialized = self.to_bytes();
        let compressed = deflate(serialized.as_slice(), COMPRESSION_LEVEL);
        let r = encrypt_with(compressed.as_slice(), password, salt, nonce);
        proof {
            if storable(self@) {
                lemma_log_round_trip(self@);
            }
        }
        r
    }

    /// The envelope of the log under a password, with a fresh random salt and nonce.
    pub fn encode(&self, password: &[u8]) -> (r: Result<Vec<u8>, CodecError>)
        ensures
            match r {
                Ok(env) => env@.len() >= 28 && env@ == seal_envelope(
                    compressed_log(self@),
                    password@,
                    env@.subrange(0, 16),
                    env@.subrange(16, 28),
                ),
                Err(e) => e == CodecError::Crypto,
            },
            compressed_log(self@).len() > PLAINTEXT_MAX ==> r is Err,
            storable(self@) && r is Ok ==> decode_spec(r->Ok_0@, password@)
                == Ok::<Seq<KeyPress>, CodecError>(self@),
    {
        let n = self.len();
        assert(n as int <= u64::MAX);
        let serialized = self.to_bytes();
        let compressed = deflate(serialized.as_slice(), COMPRESSION_LEVEL);
        let r = encrypt(compressed.as_slice(), password);
        proof {
            if storable(self@) {
                lemma_log_round_trip(self@);
            }
        }
        r
    }

    /// The log that an envelope holds under a password.
    pub fn decode(bytes: &[u8], password: &[u8]) -> (r: Result<KeyLog, CodecError>)
        ensures
            match r {
                Ok(log) => decode_spec(bytes@, password@) == Ok::<Seq<KeyPress>, CodecError>(log@),
                Err(e) => decode_spec(bytes@, password@) == Err::<Seq<KeyPress>, CodecError>(e),
            },
            bytes@.len() < 28 ==> r matches Err(CodecError::Format),
    {
        let compressed = match decrypt(bytes, password) {
            Ok(c) => c,
            Err(e) => return Err(e),
        };
        let serialized = match inflate(compressed.as_slice(), INFLATE_LIMIT) {
            Ok(s) => s,
            Err(_) => return Err(CodecError::Decompression),
        };
        match KeyLog::from_bytes(serialized.as_slice()) {
            Some(log) => Ok(log),
            None => Err(CodecError::Format),
        }
    }
}

} // verus!
