//! Base64 renderings of secret material, computed by the `base64` crate.

use vstd::prelude::*;
use base64::{engine::general_purpose, Engine};

verus! {

/// The base64 digit for a 6-bit value `v` (RFC 4648): `A`-`Z`, `a`-`z`,
/// `0`-`9`, then `+` and `/`, or `-` and `_` in the URL-safe alphabet.
pub open spec fn base64_digit(v: int, url_safe: bool) -> char {
    if v < 26 {
        (65 + v) as char
    } else if v < 52 {
        (97 + (v - 26)) as char
    } else if v < 62 {
        (48 + (v - 52)) as char
    } else if v == 62 {
        if url_safe { '-' } else { '+' }
    } else {
        if url_safe { '_' } else { '/' }
    }
}

/// Base64 encoding (RFC 4648) of `bytes`: each group of three bytes becomes
/// four digits; a final group of one or two bytes becomes two or three
/// digits, followed by `=` up to four characters when `pad` is set.
pub open spec fn base64_encoded(bytes: Seq<u8>, url_safe: bool, pad: bool) -> Seq<char>
    decreases bytes.len(),
{
    if bytes.len() == 0 {
        seq![]
    } else if bytes.len() == 1 {
        let b0 = bytes[0] as int;
        seq![base64_digit(b0 / 4, url_safe), base64_digit((b0 % 4) * 16, url_safe)] + if pad {
            seq!['=', '=']
        } else {
            seq![]
        }
    } else if bytes.len() == 2 {
        let b0 = bytes[0] as int;
        let b1 = bytes[1] as int;
        seq![
            base64_digit(b0 / 4, url_safe),
            base64_digit((b0 % 4) * 16 + b1 / 16, url_safe),
            base64_digit((b1 % 16) * 4, url_safe),
        ] + if pad {
            seq!['=']
        } else {
            seq![]
        }
    } else {
        let b0 = bytes[0] as int;
        let b1 = bytes[1] as int;
        let b2 = bytes[2] as int;
        seq![
            base64_digit(b0 / 4, url_safe),
            base64_digit((b0 % 4) * 16 + b1 / 16, url_safe),
            base64_digit((b1 % 16) * 4 + b2 / 64, url_safe),
            base64_digit(b2 % 64, url_safe),
        ] + base64_encoded(bytes.skip(3), url_safe, pad)
    }
}

/// What `general_purpose::STANDARD` encodes `bytes` to: standard alphabet,
/// `=` padding.
pub open spec fn base64_standard(bytes: Seq<u8>) -> Seq<char> {
    base64_encoded(bytes, false, true)
}

/// What `general_purpose::URL_SAFE_NO_PAD` encodes `bytes` to: URL-safe
/// alphabet, no padding.
pub open spec fn base64_url_safe_no_pad(bytes: Seq<u8>) -> Seq<char> {
    base64_encoded(bytes, true, false)
}

/// Calls `Engine::encode` on `general_purpose::STANDARD`.
/// Trusted: the result is the standard-alphabet, padded RFC 4648 encoding
/// of the bytes, `base64_standard`. The crate only panics when the encoded length
/// overflows `usize`, which no slice that fits in memory reaches.
#[verifier::external_body]
pub(crate) fn encode_base64_standard(bytes: &[u8]) -> (res: String)
    ensures
        res@ == base64_standard(bytes@),
{
    general_purpose::STANDARD.encode(bytes)
}

/// Calls `Engine::encode` on `general_purpose::URL_SAFE_NO_PAD`.
/// Trusted: the result is the URL-safe, unpadded RFC 4648 encoding of the
/// bytes, `base64_url_safe_no_pad`; the same remark on panics holds.
#[verifier::external_body]
pub(crate) fn encode_base64_url_safe_no_pad(bytes: &[u8]) -> (res: String)
    ensures
        res@ == base64_url_safe_no_pad(bytes@),
{
    general_purpose::URL_SAFE_NO_PAD.encode(bytes)
}

} // verus!
