//! The two ingredients of a block's fingerprint that come from other crates:
//! the SHA-256 digest and the JSON form of a string.
use sha2::Digest;
use vstd::prelude::*;

verus! {

/// The SHA-256 digest of `data`, as the `sha2` crate computes it.
pub uninterp spec fn sha256_digest(data: Seq<u8>) -> Seq<u8>;

/// The JSON string literal that `serde_json` writes for `text`: the
/// surrounding quotes included, with the escapes that JSON requires.
pub uninterp spec fn json_quoted(text: Seq<char>) -> Seq<char>;

/// `sha2::Sha256::digest`: hashes the whole input in one call. The result is
/// the digest, 32 bytes long, which depends on the input bytes alone.
#[verifier::external_body]
pub(crate) fn sha256(data: &[u8]) -> (digest: [u8; 32])
    ensures
        digest@ == sha256_digest(data@),
{
    sha2::Sha256::digest(data).into()
}

/// `serde_json::to_string` on a string slice: writes the slice as a JSON
/// string literal. Writing a string into memory has no way to fail, so the
/// result is always present; it depends on the characters alone.
#[verifier::external_body]
pub(crate) fn json_quote(text: &str) -> (quoted: Option<String>)
    ensures
        quoted.is_some(),
        quoted.unwrap()@ == json_quoted(text@),
{
    serde_json::to_string(text).ok()
}

/// The lower-case hexadecimal rendering of the SHA-256 digest of the UTF-8
/// bytes of `text`.
pub open spec fn fingerprint(text: Seq<char>) -> Seq<char> {
    crate::text::hex_lower(sha256_digest(vstd::utf8::encode_utf8(text)))
}

/// Computes the fingerprint of `text`.
pub fn fingerprint_of(text: &str) -> (hex: String)
    ensures
        hex@ == fingerprint(text@),
        hex@.len() == 64,
{
    let digest = sha256(text.as_bytes());
    crate::text::to_hex(digest.as_slice())
}

} // verus!
