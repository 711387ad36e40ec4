//! Passphrase protection of whole configuration files.
//!
//! An encrypted file is a table with one entry, `encrypted`, holding base32
//! text. The text decodes to a 32-byte salt, a 12-byte nonce, a big-endian
//! 32-bit PBKDF2 iteration count, and the AES-256-GCM sealed file contents.

use vstd::prelude::*;
use vstd::slice::slice_subrange;
use vstd::string::*;
use vstd::utf8::{decode_utf8, encode_utf8, valid_utf8, encode_utf8_valid_utf8, encode_utf8_decode_utf8};
use crate::base32::{base32_encode, decode_spec, decode_text, encode_bytes};
use crate::crypto::{
    AEAD_MAX_INPUT, aead_open, aead_seal, aes256gcm_open, aes256gcm_seal, pbkdf2_derive, pbkdf2_sha512,
    random_bytes, utf8_string,
};
use crate::util::{be32, be32_bytes, lemma_be32_roundtrip, push_be32, read_be32};
use crate::value::{entries_get, entries_view, lemma_view_table, TomlSpec, TomlValue};

verus! {

/// The PBKDF2 iteration count used when encrypting.
pub const ENCRYPTION_DIFFICULTY: u32 = 10240;

/// The key derived from a passphrase, a salt and an iteration count.
pub open spec fn passphrase_key(passphrase: Seq<char>, salt: Seq<u8>, difficulty: u32) -> Seq<u8> {
    pbkdf2_sha512(difficulty, salt, encode_utf8(passphrase), 32)
}

/// The encrypted form of some bytes under a passphrase, salt and nonce.
pub open spec fn encrypted_form(data: Seq<u8>, passphrase: Seq<char>, salt: Seq<u8>, nonce: Seq<u8>) -> Seq<u8> {
    salt + nonce + be32_bytes(ENCRYPTION_DIFFICULTY) + aes256gcm_seal(
        passphrase_key(passphrase, salt, ENCRYPTION_DIFFICULTY),
        nonce,
        data,
    )
}

/// Whether encrypted bytes carry a full header with a usable iteration count.
pub open spec fn has_header(data: Seq<u8>) -> bool {
    data.len() >= 48 && be32(data.subrange(44, 48)) > 0
}

/// What some bytes decode to as UTF-8 text, `None` where they are not UTF-8.
pub open spec fn utf8_text(bytes: Seq<u8>) -> Option<Seq<char>> {
    if valid_utf8(bytes) {
        Some(decode_utf8(bytes))
    } else {
        None
    }
}

/// What decrypting encrypted bytes with a passphrase gives: the text, or
/// `None` where authentication fails or the plaintext is not UTF-8.
pub open spec fn decrypt_spec(data: Seq<u8>, passphrase: Seq<char>) -> Option<Seq<char>> {
    let key = passphrase_key(passphrase, data.subrange(0, 32), be32(data.subrange(44, 48)));
    match aes256gcm_open(key, data.subrange(32, 44), data.subrange(48, data.len() as int)) {
        Some(p) => utf8_text(p),
        None => None,
    }
}

/// Decrypts a passphrase-protected configuration text.
pub fn decrypt(data: &[u8], passphrase: &str) -> (r: Option<String>)
    requires
        has_header(data@),
    ensures
        r matches Some(s) ==> decrypt_spec(data@, passphrase@) == Some(s@),
        r is None ==> decrypt_spec(data@, passphrase@) is None,
{
    let salt = slice_subrange(data, 0, 32);
    let nonce = slice_subrange(data, 32, 44);
    let header = slice_subrange(data, 44, 48);
    let body = slice_subrange(data, 48, data.len());
    let difficulty = read_be32(header);
    let key = pbkdf2_derive(difficulty, salt, passphrase.as_bytes(), 32);
    let plain = aead_open(key.as_slice(), nonce, body);
    match plain {
        Some(p) => utf8_string(p.as_slice()),
        None => None,
    }
}

/// Encrypts bytes under a passphrase with the given salt and nonce.
/// Decrypting the result with the same passphrase gives the bytes back as
/// text, where they are UTF-8.
pub fn encrypt_with(data: &[u8], passphrase: &str, salt: &[u8], nonce: &[u8]) -> (r: Vec<u8>)
    requires
        salt@.len() == 32,
        nonce@.len() == 12,
        data@.len() <= AEAD_MAX_INPUT,
        data@.len() + 64 <= isize::MAX,
    ensures
        r@ == encrypted_form(data@, passphrase@, salt@, nonce@),
        r@.len() == data@.len() + 64,
        has_header(r@),
        decrypt_spec(r@, passphrase@) == utf8_text(data@),
{
    let key = pbkdf2_derive(ENCRYPTION_DIFFICULTY, salt, passphrase.as_bytes(), 32);
    let sealed = aead_seal(key.as_slice(), nonce, data);
    let mut result: Vec<u8> = Vec::new();
    result.extend_from_slice(salt);
    result.extend_from_slice(nonce);
    push_be32(&mut result, ENCRYPTION_DIFFICULTY);
    result.extend_from_slice(sealed.as_slice());
    proof {
        let s = salt@ + nonce@ + be32_bytes(ENCRYPTION_DIFFICULTY) + sealed@;
        assert(result@ =~= s);
        assert(s.subrange(0, 32) =~= salt@);
        assert(s.subrange(32, 44) =~= nonce@);
        assert(s.subrange(44, 48) =~= be32_bytes(ENCRYPTION_DIFFICULTY));
        assert(s.subrange(48, s.len() as int) =~= sealed@);
        lemma_be32_roundtrip(ENCRYPTION_DIFFICULTY);
    }
    result
}

/// Encrypts bytes under a passphrase with a fresh random salt and nonce.
/// `None` where no random bytes can be had.
pub fn encrypt(data: &[u8], passphrase: &str) -> (r: Option<Vec<u8>>)
    requires
        data@.len() <= AEAD_MAX_INPUT,
        data@.len() + 64 <= isize::MAX,
    ensures
        r matches Some(v) ==> {
            &&& exists|salt: Seq<u8>, nonce: Seq<u8>|
                salt.len() == 32 && nonce.len() == 12 && v@ == encrypted_form(data@, passphrase@, salt, nonce)
            &&& v@.len() == data@.len() + 64
            &&& has_header(v@)
            &&& decrypt_spec(v@, passphrase@) == utf8_text(data@)
        },
{
    let nonce = random_bytes(12)?;
    let salt = random_bytes(32)?;
    let r = encrypt_with(data, passphrase, salt.as_slice(), nonce.as_slice());
    assert(salt@.len() == 32 && nonce@.len() == 12 && r@ == encrypted_form(data@, passphrase@, salt@, nonce@));
    Some(r)
}

/// The configuration table that stores encrypted bytes.
pub open spec fn envelope(payload: Seq<u8>) -> TomlSpec {
    TomlSpec::Table(seq![("encrypted"@, TomlSpec::Str(base32_encode(payload)))])
}

/// What a loaded configuration holds: `Ok(None)` for a plain table, the
/// encrypted bytes of a sealed one, or why it cannot be read.
pub open spec fn payload_spec(config: TomlSpec) -> Result<Option<Seq<u8>>, Seq<char>> {
    match config {
        TomlSpec::Table(t) => match entries_get(t, "encrypted"@) {
            None => Ok(None),
            Some(v) => match v.as_str() {
                None => Err("Encrypted config is not a string?"@),
                Some(text) => match decode_spec(text) {
                    Some(b) => Ok(Some(b)),
                    None => Err("Failed to decode encrypted config value."@),
                },
            },
        },
        _ => Err("Failed to interpret toml as table"@),
    }
}

/// The model of a payload result.
pub open spec fn payload_view(r: Result<Option<Vec<u8>>, String>) -> Result<Option<Seq<u8>>, Seq<char>> {
    match r {
        Ok(Some(b)) => Ok(Some(b@)),
        Ok(None) => Ok(None),
        Err(e) => Err(e@),
    }
}

/// Reads the encrypted bytes out of a loaded configuration, if it is
/// encrypted.
pub fn encrypted_payload(config: &TomlValue) -> (r: Result<Option<Vec<u8>>, String>)
    ensures
        payload_view(r) == payload_spec(config@),
{
    let table = match config {
        TomlValue::Table(t) => t,
        _ => return Err(String::from_str("Failed to interpret toml as table")),
    };
    proof {
        lemma_view_table(*table);
    }
    let value = match config.get("encrypted") {
        Some(v) => v,
        None => return Ok(None),
    };
    let text = match value.as_str() {
        Some(t) => t,
        None => return Err(String::from_str("Encrypted config is not a string?")),
    };
    match decode_text(text) {
        Some(bytes) => Ok(Some(bytes)),
        None => Err(String::from_str("Failed to decode encrypted config value.")),
    }
}

/// Decrypts the bytes of an encrypted configuration to its text.
pub fn decrypt_config(payload: &[u8], passphrase: &str) -> (r: Result<String, String>)
    requires
        has_header(payload@),
    ensures
        r matches Ok(s) ==> decrypt_spec(payload@, passphrase@) == Some(s@),
        r matches Err(e) ==> decrypt_spec(payload@, passphrase@) is None && e@ == "Decryption failed"@,
{
    match decrypt(payload, passphrase) {
        Some(s) => Ok(s),
        None => Err(String::from_str("Decryption failed")),
    }
}

/// The table that stores encrypted bytes in place of a configuration.
/// Reading it back gives the bytes.
pub fn sealed_envelope(sealed: &[u8]) -> (r: TomlValue)
    requires
        sealed@.len() <= usize::MAX / 512,
    ensures
        r@ == envelope(sealed@),
        payload_spec(r@) == Ok::<Option<Seq<u8>>, Seq<char>>(Some(sealed@)),
{
    let encoded = encode_bytes(sealed);
    let mut entries: Vec<(String, TomlValue)> = Vec::new();
    entries.push((String::from_str("encrypted"), TomlValue::String(encoded)));
    let ghost e = entries;
    let v = TomlValue::Table(entries);
    proof {
        lemma_view_table(e);
        assert(entries_view(e@) =~= seq![("encrypted"@, TomlSpec::Str(base32_encode(sealed@)))]);
    }
    v
}

/// Encrypts a configuration's text under a passphrase, with a fresh random
/// salt and nonce, into the table that is stored in its place. Reading that
/// table back gives the encrypted bytes, and decrypting them with the
/// passphrase gives the text. `None` where no random bytes can be had.
pub fn encrypt_config(text: &str, passphrase: &str) -> (r: Option<TomlValue>)
    requires
        encode_utf8(text@).len() <= AEAD_MAX_INPUT,
        encode_utf8(text@).len() + 64 <= usize::MAX / 512,
    ensures
        r matches Some(v) ==> exists|salt: Seq<u8>, nonce: Seq<u8>| {
            &&& salt.len() == 32
            &&& nonce.len() == 12
            &&& v@ == envelope(encrypted_form(encode_utf8(text@), passphrase@, salt, nonce))
        },
        r matches Some(v) ==> exists|payload: Seq<u8>| {
            &&& v@ == envelope(payload)
            &&& payload_spec(v@) == Ok::<Option<Seq<u8>>, Seq<char>>(Some(payload))
            &&& has_header(payload)
            &&& decrypt_spec(payload, passphrase@) == Some(text@)
        },
{
    let bytes = text.as_bytes();
    proof {
        assert(bytes@ == encode_utf8(text@));
    }
    let sealed = encrypt(bytes, passphrase)?;
    let v = sealed_envelope(sealed.as_slice());
    proof {
        encode_utf8_valid_utf8(text@);
        encode_utf8_decode_utf8(text@);
        let (salt, nonce) = choose|salt: Seq<u8>, nonce: Seq<u8>|
            salt.len() == 32 && nonce.len() == 12 && sealed@ == encrypted_form(bytes@, passphrase@, salt, nonce);
        assert(v@ == envelope(encrypted_form(encode_utf8(text@), passphrase@, salt, nonce)));
        assert(decrypt_spec(sealed@, passphrase@) == Some(text@));
    }
    Some(v)
}

} // verus!
