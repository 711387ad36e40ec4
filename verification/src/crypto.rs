//! Key derivation, authenticated encryption, randomness and text decoding,
//! as the outside crates and std provide them.

use vstd::prelude::*;
use vstd::utf8::{valid_utf8, decode_utf8};

verus! {

/// What `ring::pbkdf2::derive` with HMAC-SHA512 writes into an output buffer
/// of `len` bytes for an iteration count, a salt and a secret.
pub uninterp spec fn pbkdf2_sha512(iterations: u32, salt: Seq<u8>, secret: Seq<u8>, len: nat) -> Seq<u8>;

/// Calls `ring::pbkdf2::derive` with `PBKDF2_HMAC_SHA512` into a fresh
/// buffer of `len` bytes. The output is named by `pbkdf2_sha512` and fills
/// the buffer. ring refuses (by panicking) a zero iteration count, and an
/// output longer than 2^32 - 1 blocks.
#[verifier::external_body]
pub(crate) fn pbkdf2_derive(iterations: u32, salt: &[u8], secret: &[u8], len: usize) -> (out: Vec<u8>)
    requires
        iterations > 0,
        len <= u32::MAX,
    ensures
        out@ == pbkdf2_sha512(iterations, salt@, secret@, len as nat),
        out@.len() == len,
{
    let mut out = vec![0u8; len];
    ring::pbkdf2::derive(
        ring::pbkdf2::PBKDF2_HMAC_SHA512,
        core::num::NonZeroU32::new(iterations).unwrap(),
        salt,
        secret,
        &mut out,
    );
    out
}

/// What AES-256-GCM sealing (ring's `seal_in_place_append_tag`, empty
/// associated data) turns a plaintext into: ciphertext followed by the tag.
pub uninterp spec fn aes256gcm_seal(key: Seq<u8>, nonce: Seq<u8>, plaintext: Seq<u8>) -> Seq<u8>;

/// What AES-256-GCM opening (ring's `open_in_place`, empty associated data)
/// gives for a sealed text: the plaintext, or `None` when authentication
/// fails.
pub uninterp spec fn aes256gcm_open(key: Seq<u8>, nonce: Seq<u8>, sealed: Seq<u8>) -> Option<Seq<u8>>;

/// The longest plaintext ring seals with AES-256-GCM: 2^36 - 32 bytes.
pub const AEAD_MAX_INPUT: u64 = 68719476704;

/// Calls ring's `LessSafeKey::seal_in_place_append_tag` for AES-256-GCM with
/// empty associated data. The result is named by `aes256gcm_seal`; it is 16
/// bytes longer than the plaintext, and opening it with the same key and
/// nonce gives the plaintext back (the defining property of an AEAD). ring
/// accepts 32-byte keys and 12-byte nonces, and plaintexts up to
/// `AEAD_MAX_INPUT` bytes; the sealed buffer must fit in memory.
#[verifier::external_body]
pub(crate) fn aead_seal(key: &[u8], nonce: &[u8], plaintext: &[u8]) -> (sealed: Vec<u8>)
    requires
        key@.len() == 32,
        nonce@.len() == 12,
        plaintext@.len() <= AEAD_MAX_INPUT,
        plaintext@.len() + 16 <= isize::MAX,
    ensures
        sealed@ == aes256gcm_seal(key@, nonce@, plaintext@),
        sealed@.len() == plaintext@.len() + 16,
        aes256gcm_open(key@, nonce@, sealed@) == Some(plaintext@),
{
    let key = ring::aead::LessSafeKey::new(
        ring::aead::UnboundKey::new(&ring::aead::AES_256_GCM, key).unwrap(),
    );
    let nonce = ring::aead::Nonce::try_assume_unique_for_key(nonce).unwrap();
    let mut buf = plaintext.to_vec();
    key.seal_in_place_append_tag(nonce, ring::aead::Aad::empty(), &mut buf).unwrap();
    buf
}

/// Calls ring's `LessSafeKey::open_in_place` for AES-256-GCM with empty
/// associated data. The result is named by `aes256gcm_open`.
#[verifier::external_body]
pub(crate) fn aead_open(key: &[u8], nonce: &[u8], sealed: &[u8]) -> (r: Option<Vec<u8>>)
    requires
        key@.len() == 32,
        nonce@.len() == 12,
    ensures
        match r {
            Some(p) => aes256gcm_open(key@, nonce@, sealed@) == Some(p@),
            None => aes256gcm_open(key@, nonce@, sealed@) is None,
        },
{
    let key = ring::aead::LessSafeKey::new(
        ring::aead::UnboundKey::new(&ring::aead::AES_256_GCM, key).unwrap(),
    );
    let nonce = ring::aead::Nonce::try_assume_unique_for_key(nonce).unwrap();
    let mut buf = sealed.to_vec();
    match key.open_in_place(nonce, ring::aead::Aad::empty(), &mut buf) {
        Ok(plain) => Some(plain.to_vec()),
        Err(_) => None,
    }
}

/// Calls snow's default random number generator
/// (`DefaultResolver::resolve_rng` and `try_fill_bytes`) for `len` bytes.
/// The bytes are random, so nothing is stated of them but their number;
/// `None` where no generator is available or it fails.
#[verifier::external_body]
pub(crate) fn random_bytes(len: usize) -> (r: Option<Vec<u8>>)
    ensures
        r matches Some(b) ==> b@.len() == len,
{
    let mut buf = vec![0u8; len];
    let mut rng = snow::resolvers::CryptoResolver::resolve_rng(&snow::resolvers::DefaultResolver)?;
    match rng.try_fill_bytes(&mut buf) {
        Ok(()) => Some(buf),
        Err(_) => None,
    }
}

/// Calls `std::str::from_utf8`: a string exactly when the bytes are valid
/// UTF-8, holding the characters they encode.
#[verifier::external_body]
pub(crate) fn utf8_string(bytes: &[u8]) -> (r: Option<String>)
    ensures
        r is Some <==> valid_utf8(bytes@),
        r matches Some(s) ==> s@ == decode_utf8(bytes@),
{
    match std::str::from_utf8(bytes) {
        Ok(s) => Some(s.to_string()),
        Err(_) => None,
    }
}

/// Calls `std::time::SystemTime::elapsed` on the Unix epoch, in whole
/// seconds: the current time, so nothing is stated of it. `None` where the
/// clock is set before the epoch.
#[verifier::external_body]
pub(crate) fn unix_time_secs() -> (r: Option<u64>) {
    match std::time::UNIX_EPOCH.elapsed() {
        Ok(d) => Some(d.as_secs()),
        Err(_) => None,
    }
}

} // verus!
