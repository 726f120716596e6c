//! Printable encoding of byte buffers: the standard base64 alphabet,
//! padded on output and accepted with or without padding on input.
use base64::Engine;
use vstd::prelude::*;

verus! {

#[verifier::external_type_specification]
#[verifier::external_body]
pub struct ExDecodeError(base64::DecodeError);

/// The 64 characters of the standard alphabet, in order of value.
pub open spec fn base64_alphabet() -> Seq<char> {
    "ABCDEFGHIJKLMNOPQRSTUVWXYZabcdefghijklmnopqrstuvwxyz0123456789+/"@
}

/// The padded standard base64 text of `b`: each group of three bytes gives
/// four characters of six bits each, and a final group of one or two bytes
/// is filled out with `=`.
pub open spec fn base64_text(b: Seq<u8>) -> Seq<char>
    decreases b.len(),
{
    let a = base64_alphabet();
    if b.len() == 0 {
        Seq::empty()
    } else if b.len() == 1 {
        let x = b[0] as int;
        seq![a[x / 4], a[(x % 4) * 16], '=', '=']
    } else if b.len() == 2 {
        let x = b[0] as int;
        let y = b[1] as int;
        seq![a[x / 4], a[(x % 4) * 16 + y / 16], a[(y % 16) * 4], '=']
    } else {
        let x = b[0] as int;
        let y = b[1] as int;
        let z = b[2] as int;
        seq![a[x / 4], a[(x % 4) * 16 + y / 16], a[(y % 16) * 4 + z / 64], a[z % 64]]
            + base64_text(b.subrange(3, b.len() as int))
    }
}

/// `s` holds a character that is neither of the alphabet nor padding.
pub open spec fn has_foreign_char(s: Seq<char>) -> bool {
    exists|i: int| 0 <= i < s.len() && !base64_alphabet().contains(#[trigger] s[i]) && s[i] != '='
}

/// The bytes that padding-indifferent standard base64 decoding reads from
/// `s`, or `None` where it rejects `s`.
pub uninterp spec fn base64_bytes(s: Seq<char>) -> Option<Seq<u8>>;

/// Relies on base64's `Engine::encode` for the standard alphabet with
/// padding, which writes the standard encoding; the same engine decodes it
/// back to the bytes.
#[verifier::external_body]
pub(crate) fn encode_base64(b: &[u8]) -> (r: String)
    ensures
        r@ == base64_text(b@),
        base64_bytes(r@) == Some(b@),
{
    let config = base64::engine::GeneralPurposeConfig::new()
        .with_decode_padding_mode(base64::engine::DecodePaddingMode::Indifferent)
        .with_encode_padding(true);
    base64::engine::GeneralPurpose::new(&base64::alphabet::STANDARD, config).encode(b)
}

/// Relies on base64's `Engine::decode` for the standard alphabet, with
/// padding optional: it fails exactly on text that it does not accept, and
/// a character outside the alphabet and padding is always refused
/// (`DecodeError::InvalidByte`).
#[verifier::external_body]
pub(crate) fn decode_base64(s: &str) -> (r: Result<Vec<u8>, base64::DecodeError>)
    ensures
        match r {
            Ok(v) => base64_bytes(s@) == Some(v@),
            Err(_) => base64_bytes(s@).is_none(),
        },
        has_foreign_char(s@) ==> r is Err,
{
    let config = base64::engine::GeneralPurposeConfig::new()
        .with_decode_padding_mode(base64::engine::DecodePaddingMode::Indifferent)
        .with_encode_padding(true);
    base64::engine::GeneralPurpose::new(&base64::alphabet::STANDARD, config).decode(s)
}

/// Encodes `bytes` as padded standard base64 text.
pub fn encode(bytes: &[u8]) -> (r: String)
    ensures
        r@ == base64_text(bytes@),
        base64_bytes(r@) == Some(bytes@),
{
    encode_base64(bytes)
}

/// Decodes base64 text, padded or not; `None` where the text is malformed.
pub fn decode(text: &str) -> (r: Option<Vec<u8>>)
    ensures
        match r {
            Some(v) => base64_bytes(text@) == Some(v@),
            None => base64_bytes(text@).is_none(),
        },
        has_foreign_char(text@) ==> r is None,
{
    match decode_base64(text) {
        Ok(v) => Some(v),
        Err(_) => None,
    }
}

} // verus!
