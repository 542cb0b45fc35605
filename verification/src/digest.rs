//! Digests and encodings of bytes, as the crates `md5`, `sha1`, `sha2` and
//! `base64` compute them.

use base64::Engine;
use sha2::Digest;
use vstd::prelude::*;

verus! {

/// The MD5 digest of the bytes, in lower-case hexadecimal digits.
pub uninterp spec fn md5_hex(data: Seq<u8>) -> Seq<char>;

/// The SHA-1 digest of the bytes, in lower-case hexadecimal digits.
pub uninterp spec fn sha1_hex(data: Seq<u8>) -> Seq<char>;

/// The SHA-256 digest of the bytes, in lower-case hexadecimal digits.
pub uninterp spec fn sha256_hex(data: Seq<u8>) -> Seq<char>;

/// The SHA-512 digest of the bytes, in lower-case hexadecimal digits.
pub uninterp spec fn sha512_hex(data: Seq<u8>) -> Seq<char>;

/// The bytes in Base64, with the standard alphabet and padding.
pub uninterp spec fn base64_text(data: Seq<u8>) -> Seq<char>;

/// The bytes that a Base64 text stands for, or the message with which the
/// text is refused.
pub uninterp spec fn base64_bytes(text: Seq<char>) -> Result<Seq<u8>, Seq<char>>;

/// `md5::compute`, the digest written in hexadecimal.
#[verifier::external_body]
pub fn calc_md5(data: &[u8]) -> (r: String)
    ensures
        r@ == md5_hex(data@),
{
    format!("{:x}", md5::compute(data))
}

/// `Sha1::digest` of the crate `sha1`, the digest written in hexadecimal.
#[verifier::external_body]
pub fn calc_sha1(data: &[u8]) -> (r: String)
    ensures
        r@ == sha1_hex(data@),
{
    format!("{:x}", sha1::Sha1::digest(data))
}

/// `Sha256::digest` of the crate `sha2`, the digest written in hexadecimal.
#[verifier::external_body]
pub fn calc_sha256(data: &[u8]) -> (r: String)
    ensures
        r@ == sha256_hex(data@),
{
    format!("{:x}", sha2::Sha256::digest(data))
}

/// `Sha512::digest` of the crate `sha2`, the digest written in hexadecimal.
#[verifier::external_body]
pub fn calc_sha512(data: &[u8]) -> (r: String)
    ensures
        r@ == sha512_hex(data@),
{
    format!("{:x}", sha2::Sha512::digest(data))
}

/// `Engine::encode` of the crate `base64`, with the standard engine.
#[verifier::external_body]
pub(crate) fn base64_encode(data: &[u8]) -> (r: String)
    ensures
        r@ == base64_text(data@),
{
    base64::engine::general_purpose::STANDARD.encode(data)
}

/// `Engine::decode` of the crate `base64`, with the standard engine.
#[verifier::external_body]
pub(crate) fn base64_decode(text: &str) -> (r: Result<Vec<u8>, String>)
    ensures
        match r {
            Ok(bytes) => base64_bytes(text@) == Ok::<Seq<u8>, Seq<char>>(bytes@),
            Err(message) => base64_bytes(text@) == Err::<Seq<u8>, Seq<char>>(message@),
        },
{
    base64::engine::general_purpose::STANDARD.decode(text.as_bytes()).map_err(|e| e.to_string())
}

} // verus!
