//! The encrypted envelope: `salt (16) || nonce (12) || AES-256-GCM ciphertext`,
//! under a key that PBKDF2-HMAC-SHA-256 derives from a password and the salt.
use vstd::prelude::*;
use aes_gcm::aead::rand_core::RngCore;
use aes_gcm::aead::{Aead, OsRng};
use aes_gcm::{Aes256Gcm, KeyInit, Nonce};

verus! {

/// Width in bytes of the salt.
pub const SALT_LEN: usize = 16;

/// Width in bytes of the nonce.
pub const NONCE_LEN: usize = 12;

/// Width in bytes of salt and nonce together, the envelope's fixed head.
pub const HEAD_LEN: usize = 28;

/// PBKDF2 iterations per key derivation.
pub const ITERATIONS: u32 = 500_000;

/// The largest plaintext, in bytes, that AES-GCM encrypts.
pub const PLAINTEXT_MAX: u64 = 0x10_0000_0000;

/// Why a log could not be encoded or decoded.
#[derive(Clone, Copy, Debug, PartialEq, Eq, Structural)]
pub enum CodecError {
    /// structurally invalid bytes: a short envelope, or a bad serialized log
    Format,
    /// the authentication tag did not match: a wrong password or tampering
    Authentication,
    /// a corrupt compressed stream, or one that inflates past the limit
    Decompression,
    /// the cipher or the random source refused the operation
    Crypto,
}

#[verifier::external_type_specification]
#[verifier::external_body]
pub struct ExAeadError(aes_gcm::Error);

#[verifier::external_type_specification]
#[verifier::external_body]
pub struct ExRandError(aes_gcm::aead::rand_core::Error);

/// The key that PBKDF2-HMAC-SHA-256 derives from a password and a salt in a number of rounds.
pub uninterp spec fn pbkdf2_sha256(password: Seq<u8>, salt: Seq<u8>, rounds: u32) -> Seq<u8>;

/// The AES-256-GCM ciphertext, tag included, of a plaintext under a key and a nonce.
pub uninterp spec fn gcm_seal(key: Seq<u8>, nonce: Seq<u8>, plaintext: Seq<u8>) -> Seq<u8>;

/// The plaintext that AES-256-GCM recovers from a ciphertext under a key and a
/// nonce, or `None` when the authentication tag does not match.
pub uninterp spec fn gcm_open(key: Seq<u8>, nonce: Seq<u8>, ciphertext: Seq<u8>) -> Option<Seq<u8>>;

/// Relies on pbkdf2::pbkdf2_hmac::<sha2::Sha256>, which fills the 32-byte
/// output from password, salt and rounds alone (with HMAC it cannot fail).
#[verifier::external_body]
fn pbkdf2_hmac_sha256(password: &[u8], salt: &[u8], rounds: u32) -> (r: [u8; 32])
    ensures
        r@ == pbkdf2_sha256(password@, salt@, rounds),
{
    let mut key = [0u8; 32];
    pbkdf2::pbkdf2_hmac::<sha2::Sha256>(password, salt, rounds, &mut key);
    key
}

/// Relies on Aes256Gcm::encrypt (aead::Aead): it fails only for a plaintext
/// over `P_MAX` bytes, and otherwise returns the ciphertext with the tag, which
/// Aes256Gcm::decrypt under the same key and nonce turns back into the plaintext.
#[verifier::external_body]
fn aes256gcm_encrypt(key: &[u8; 32], nonce: &[u8], plaintext: &[u8]) -> (r: Result<Vec<u8>, aes_gcm::Error>)
    requires
        nonce@.len() == 12,
    ensures
        r is Ok <==> plaintext@.len() <= PLAINTEXT_MAX,
        r matches Ok(c) ==> c@ == gcm_seal(key@, nonce@, plaintext@),
        r matches Ok(c) ==> gcm_open(key@, nonce@, c@) == Some(plaintext@),
{
    let cipher = Aes256Gcm::new(&(*key).into());
    cipher.encrypt(Nonce::from_slice(nonce), plaintext)
}

/// Relies on Aes256Gcm::decrypt (aead::Aead): the plaintext when the tag
/// matches, an error otherwise.
#[verifier::external_body]
fn aes256gcm_decrypt(key: &[u8; 32], nonce: &[u8], ciphertext: &[u8]) -> (r: Result<Vec<u8>, aes_gcm::Error>)
    requires
        nonce@.len() == 12,
    ensures
        r matches Ok(p) ==> gcm_open(key@, nonce@, ciphertext@) == Some(p@),
        r is Err ==> gcm_open(key@, nonce@, ciphertext@) is None,
{
    let cipher = Aes256Gcm::new(&(*key).into());
    cipher.decrypt(Nonce::from_slice(nonce), ciphertext)
}

/// Relies on rand_core's OsRng::try_fill_bytes: `n` bytes from the operating
/// system's random source, or its error. Nothing is known of the bytes.
#[verifier::external_body]
fn os_random_bytes(n: usize) -> (r: Result<Vec<u8>, aes_gcm::aead::rand_core::Error>)
    ensures
        r matches Ok(v) ==> v@.len() == n,
{
    let mut v = vec![0u8; n];
    OsRng.try_fill_bytes(&mut v)?;
    Ok(v)
}

/// The 256-bit key for a password and a salt.
pub open spec fn key_of(password: Seq<u8>, salt: Seq<u8>) -> Seq<u8> {
    pbkdf2_sha256(password, salt, ITERATIONS)
}

/// The envelope that holds `data` under a password, a salt and a nonce.
pub open spec fn seal_envelope(data: Seq<u8>, password: Seq<u8>, salt: Seq<u8>, nonce: Seq<u8>) -> Seq<u8> {
    salt + nonce + gcm_seal(key_of(password, salt), nonce, data)
}

/// What opening an envelope under a password gives.
pub open spec fn open_envelope(env: Seq<u8>, password: Seq<u8>) -> Result<Seq<u8>, CodecError> {
    if env.len() < 28 {
        Err(CodecError::Format)
    } else {
        match gcm_open(key_of(password, env.subrange(0, 16)), env.subrange(16, 28), env.subrange(28, env.len() as int)) {
            Some(p) => Ok(p),
            None => Err(CodecError::Authentication),
        }
    }
}

/// Derives the 256-bit key for a password and a salt.
fn derive_key(password: &[u8], salt: &[u8]) -> (r: [u8; 32])
    ensures
        r@ == key_of(password@, salt@),
{
    pbkdf2_hmac_sha256(password, salt, ITERATIONS)
}

/// Encrypts `data` under a password with the given salt and nonce.
pub fn encrypt_with(data: &[u8], password: &[u8], salt: &[u8], nonce: &[u8]) -> (r: Result<Vec<u8>, CodecError>)
    requires
        salt@.len() == 16,
        nonce@.len() == 12,
    ensures
        r is Ok <==> data@.len() <= PLAINTEXT_MAX,
        match r {
            Ok(v) => v@ == seal_envelope(data@, password@, salt@, nonce@),
            Err(e) => e == CodecError::Crypto,
        },
        r matches Ok(v) ==> open_envelope(v@, password@) == Ok::<Seq<u8>, CodecError>(data@),
{
    let key = derive_key(password, salt);
    match aes256gcm_encrypt(&key, nonce, data) {
        Ok(ciphertext) => {
            let mut res: Vec<u8> = Vec::new();
            res.extend_from_slice(salt);
            res.extend_from_slice(nonce);
            res.extend_from_slice(ciphertext.as_slice());
            assert(res@ =~= seal_envelope(data@, password@, salt@, nonce@));
            assert(res@.subrange(0, 16) =~= salt@);
            assert(res@.subrange(16, 28) =~= nonce@);
            assert(res@.subrange(28, res@.len() as int) =~= ciphertext@);
            Ok(res)
        },
        Err(_) => Err(CodecError::Crypto),
    }
}

/// Encrypts `data` under a password, with a fresh random salt and nonce.
pub fn encrypt(data: &[u8], password: &[u8]) -> (r: Result<Vec<u8>, CodecError>)
    ensures
        match r {
            Ok(v) => v@.len() >= 28 && v@ == seal_envelope(
                data@,
                password@,
                v@.subrange(0, 16),
                v@.subrange(16, 28),
            ),
            Err(e) => e == CodecError::Crypto,
        },
        r matches Ok(v) ==> open_envelope(v@, password@) == Ok::<Seq<u8>, CodecError>(data@),
        data@.len() > PLAINTEXT_MAX ==> r is Err,
{
    let salt = match os_random_bytes(SALT_LEN) {
        Ok(s) => s,
        Err(_) => return Err(CodecError::Crypto),
    };
    let nonce = match os_random_bytes(NONCE_LEN) {
        Ok(n) => n,
        Err(_) => return Err(CodecError::Crypto),
    };
    let r = encrypt_with(data, password, salt.as_slice(), nonce.as_slice());
    proof {
        if r is Ok {
            let v = r->Ok_0;
            assert(v@.subrange(0, 16) =~= salt@);
            assert(v@.subrange(16, 28) =~= nonce@);
        }
    }
    r
}

/// Opens an envelope under a password.
pub fn decrypt(data: &[u8], password: &[u8]) -> (r: Result<Vec<u8>, CodecError>)
    ensures
        match r {
            Ok(v) => open_envelope(data@, password@) == Ok::<Seq<u8>, CodecError>(v@),
            Err(e) => open_envelope(data@, password@) == Err::<Seq<u8>, CodecError>(e),
        },
        data@.len() < 28 ==> r == Err::<Vec<u8>, CodecError>(CodecError::Format),
{
    if data.len() < HEAD_LEN {
        return Err(CodecError::Format);
    }
    let salt = vstd::slice::slice_subrange(data, 0, SALT_LEN);
    let nonce = vstd::slice::slice_subrange(data, SALT_LEN, HEAD_LEN);
    let ciphertext = vstd::slice::slice_subrange(data, HEAD_LEN, data.len());
    let key = derive_key(password, salt);
    match aes256gcm_decrypt(&key, nonce, ciphertext) {
        Ok(p) => Ok(p),
        Err(_) => Err(CodecError::Authentication),
    }
}

} // verus!
