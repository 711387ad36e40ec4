//! Base32 (RFC 4648, without padding) text for key material, as it appears in
//! configuration files.

use vstd::prelude::*;
use vstd::arithmetic::power2::pow2;
use crate::value::opt_bytes_view;
use vstd::utf8::encode_utf8;
use vstd::string::*;

verus! {

/// The bit at position `k` of some bytes, most significant bit first; 0
/// past their end.
pub open spec fn bit_at(bytes: Seq<u8>, k: int) -> int {
    if 0 <= k < 8 * bytes.len() {
        (bytes[k / 8] as int / pow2((7 - k % 8) as nat) as int) % 2
    } else {
        0
    }
}

/// The value of the `i`-th group of five bits.
pub open spec fn group_value(bytes: Seq<u8>, i: int) -> int {
    16 * bit_at(bytes, 5 * i) + 8 * bit_at(bytes, 5 * i + 1) + 4 * bit_at(bytes, 5 * i + 2) + 2 * bit_at(
        bytes,
        5 * i + 3,
    ) + bit_at(bytes, 5 * i + 4)
}

/// The symbol of a five-bit value in the RFC 4648 base32 alphabet: `A` to
/// `Z`, then `2` to `7`.
pub open spec fn base32_symbol(v: int) -> char {
    if v < 26 {
        (65 + v) as char
    } else {
        (24 + v) as char
    }
}

/// The RFC 4648 base32 text of some bytes without padding, as
/// `data_encoding::BASE32_NOPAD` writes it: their bits, most significant
/// first, in groups of five (the last filled up with zero bits), each
/// written as one symbol.
pub open spec fn base32_encode(bytes: Seq<u8>) -> Seq<char> {
    Seq::new(((8 * bytes.len() + 4) / 5) as nat, |i: int| base32_symbol(group_value(bytes, i)))
}

/// What `data_encoding::BASE32_NOPAD` decodes a text to, `None` where it
/// reports an error.
pub uninterp spec fn base32_decode(text: Seq<char>) -> Option<Seq<u8>>;

/// Whether a text is short enough for the decoder, which refuses (by
/// panicking) inputs of more than `usize::MAX / 8` bytes.
pub open spec fn decodable(text: Seq<char>) -> bool {
    (encode_utf8(text).len() as usize) <= usize::MAX / 8
}

/// What decoding a text gives: the decoder's result, or `None` for a text the
/// decoder cannot take.
pub open spec fn decode_spec(text: Seq<char>) -> Option<Seq<u8>> {
    if decodable(text) {
        base32_decode(text)
    } else {
        None
    }
}

/// Calls `data_encoding::BASE32_NOPAD.encode`. Its result is the RFC 4648
/// encoding without padding (`base32_encode`); the contract also states the
/// documented round trip (the decoder gives the encoded bytes back).
#[verifier::external_body]
pub(crate) fn encode_bytes(bytes: &[u8]) -> (s: String)
    requires
        bytes@.len() <= usize::MAX / 512,
    ensures
        s@ == base32_encode(bytes@),
        base32_decode(s@) == Some(bytes@),
        decodable(s@),
{
    data_encoding::BASE32_NOPAD.encode(bytes)
}

/// Calls `data_encoding::BASE32_NOPAD.decode` on the UTF-8 bytes of a text.
/// Its result is named by `base32_decode`.
#[verifier::external_body]
fn decode_raw(text: &str) -> (r: Option<Vec<u8>>)
    requires
        decodable(text@),
    ensures
        opt_bytes_view(r) == base32_decode(text@),
{
    data_encoding::BASE32_NOPAD.decode(text.as_bytes()).ok()
}

/// Decodes a base32 text, `None` where it is not valid base32.
pub fn decode_text(text: &str) -> (r: Option<Vec<u8>>)
    ensures
        opt_bytes_view(r) == decode_spec(text@),
{
    let n = text.len();
    proof {
        assert(text.spec_bytes() == encode_utf8(text@));
    }
    if n <= usize::MAX / 8 {
        decode_raw(text)
    } else {
        None
    }
}

/// Writes present key bytes as base32 text for a configuration file.
pub fn serialize(input: &Option<Vec<u8>>) -> (r: String)
    requires
        input is Some,
        input->0@.len() <= usize::MAX / 512,
    ensures
        r@ == base32_encode(input->0@),
        decode_spec(r@) == Some(input->0@),
{
    match input {
        Some(bytes) => encode_bytes(bytes.as_slice()),
        None => String::new(),
    }
}

/// Reads key bytes from base32 text in a configuration file.
pub fn deserialize(val: &str) -> (r: Result<Option<Vec<u8>>, String>)
    ensures
        r matches Ok(v) ==> v is Some && decode_spec(val@) == Some(v->0@),
        r matches Err(e) ==> decode_spec(val@) is None && e@ == "invalid base32"@,
        r is Ok <==> decode_spec(val@) is Some,
{
    match decode_text(val) {
        Some(bytes) => Ok(Some(bytes)),
        None => Err(String::from_str("invalid base32")),
    }
}

} // verus!
