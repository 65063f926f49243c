//! Base64 text and comparison of secrets.

use vstd::prelude::*;
use vstd::string::*;

verus! {

/// The standard padded Base64 text of a byte string.
pub uninterp spec fn base64_text(bytes: Seq<u8>) -> Seq<char>;

/// The bytes behind a standard padded Base64 text, or `None` where the text
/// is malformed.
pub uninterp spec fn base64_bytes(text: Seq<char>) -> Option<Seq<u8>>;

/// The bytes behind an unpadded URL-safe Base64 text, or `None` where the
/// text is malformed.
pub uninterp spec fn base64url_bytes(text: Seq<u8>) -> Option<Seq<u8>>;

/// The longest input that the encoder takes: the length of its output must
/// fit the machine and the decoder.
pub open spec fn encodable(len: nat) -> bool {
    len <= 0x2fff_fffd
}

/// The longest input that the decoders take.
pub open spec fn decodable(len: nat) -> bool {
    len <= 0x3fff_ffff
}

/// The length of the standard padded Base64 text of `len` bytes.
pub open spec fn base64_len(len: nat) -> nat {
    ((len + 2) / 3 * 4) as nat
}

/// The bytes behind a standard padded Base64 text that is short enough to
/// decode.
pub open spec fn base64_decoded(text: Seq<char>) -> Option<Seq<u8>> {
    if decodable(vstd::utf8::encode_utf8(text).len()) {
        base64_bytes(text)
    } else {
        None
    }
}

/// The bytes behind an unpadded URL-safe Base64 text that is short enough to
/// decode.
pub open spec fn base64url_decoded(text: Seq<u8>) -> Option<Seq<u8>> {
    if decodable(text.len()) {
        base64url_bytes(text)
    } else {
        None
    }
}

/// Trusted: `base64::encode`. Claims that the text is a function of the bytes
/// alone, that it has four bytes for every three of the input, rounded up,
/// and that `base64::decode` reads it back as the same bytes. The encoder
/// panics when the length of the output overflows; the bound keeps below.
#[verifier::external_body]
pub(crate) fn encode_standard(bytes: &[u8]) -> (text: String)
    requires
        encodable(bytes@.len()),
    ensures
        text@ == base64_text(bytes@),
        vstd::utf8::encode_utf8(text@).len() == base64_len(bytes@.len()),
        base64_bytes(text@) == Some(bytes@),
{
    base64::encode(bytes)
}

/// Trusted: `base64::decode`. Claims only that the outcome is a function of
/// the text alone. The decoder panics when the length of the input plus
/// three overflows; the bound keeps below.
#[verifier::external_body]
pub(crate) fn decode_standard(text: &str) -> (bytes: Option<Vec<u8>>)
    requires
        decodable(vstd::utf8::encode_utf8(text@).len()),
    ensures
        bytes.is_some() == base64_bytes(text@).is_some(),
        bytes matches Some(b) ==> base64_bytes(text@) == Some(b@),
{
    base64::decode(text).ok()
}

/// Trusted: `base64::decode_config` with `URL_SAFE_NO_PAD`. Claims only that
/// the outcome is a function of the text alone. The decoder panics when the
/// length of the input plus three overflows; the bound keeps below.
#[verifier::external_body]
pub(crate) fn decode_url_safe(text: &[u8]) -> (bytes: Option<Vec<u8>>)
    requires
        decodable(text@.len()),
    ensures
        bytes.is_some() == base64url_bytes(text@).is_some(),
        bytes matches Some(b) ==> base64url_bytes(text@) == Some(b@),
{
    base64::decode_config(text, base64::URL_SAFE_NO_PAD).ok()
}

/// The Base64 text of `bytes`, or `None` where `bytes` is too long to encode.
/// The text decodes to `bytes` again.
pub fn to_base64(bytes: &[u8]) -> (text: Option<String>)
    ensures
        text.is_some() == encodable(bytes@.len()),
        text matches Some(t) ==> t@ == base64_text(bytes@) && base64_decoded(t@) == Some(bytes@),
{
    if bytes.len() <= 0x2fff_fffd {
        Some(encode_standard(bytes))
    } else {
        None
    }
}

/// The bytes behind a Base64 text, or `None` where it is malformed or too
/// long to decode.
pub fn from_base64(text: &str) -> (bytes: Option<Vec<u8>>)
    ensures
        bytes.is_some() == base64_decoded(text@).is_some(),
        bytes matches Some(b) ==> base64_decoded(text@) == Some(b@),
{
    if text.as_bytes().len() <= 0x3fff_ffff {
        decode_standard(text)
    } else {
        None
    }
}

/// The bytes behind an unpadded URL-safe Base64 text, or `None` where it is
/// malformed or too long to decode.
pub fn from_base64url(text: &[u8]) -> (bytes: Option<Vec<u8>>)
    ensures
        bytes.is_some() == base64url_decoded(text@).is_some(),
        bytes matches Some(b) ==> base64url_decoded(text@) == Some(b@),
{
    if text.len() <= 0x3fff_ffff {
        decode_url_safe(text)
    } else {
        None
    }
}

/// Compares two byte strings without stopping at the first difference: every
/// byte of both is read whenever the lengths agree.
pub fn constant_time_eq(a: &[u8], b: &[u8]) -> (equal: bool)
    ensures
        equal == (a@ == b@),
{
    if a.len() != b.len() {
        return false;
    }
    let mut acc: u8 = 0;
    let mut i: usize = 0;
    while i < a.len()
        invariant
            a@.len() == b@.len(),
            i <= a@.len(),
            (acc == 0) == (a@.subrange(0, i as int) =~= b@.subrange(0, i as int)),
        decreases a@.len() - i,
    {
        let x: u8 = a[i];
        let y: u8 = b[i];
        let d: u8 = x ^ y;
        let next: u8 = acc | d;
        proof {
            assert((d == 0) == (x == y)) by (bit_vector)
                requires
                    d == x ^ y,
            ;
            assert((next == 0) == (acc == 0 && d == 0)) by (bit_vector)
                requires
                    next == acc | d,
            ;
            let pa = a@.subrange(0, i as int);
            let pb = b@.subrange(0, i as int);
            let qa = a@.subrange(0, i + 1);
            let qb = b@.subrange(0, i + 1);
            assert(qa == pa.push(x));
            assert(qb == pb.push(y));
            if qa == qb {
                assert(qa[i as int] == qb[i as int]);
                assert(pa == qa.subrange(0, i as int));
                assert(pb == qb.subrange(0, i as int));
            }
        }
        acc = next;
        i = i + 1;
    }
    proof {
        assert(a@.subrange(0, i as int) == a@);
        assert(b@.subrange(0, i as int) == b@);
    }
    acc == 0
}

} // verus!
