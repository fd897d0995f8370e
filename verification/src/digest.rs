use crate::text::chars_to_string;
use crate::text::push_str_chars;
use sha2::Digest;
use vstd::prelude::*;

verus! {

/// The SHA-256 digest (32 bytes) of a byte sequence, as the `sha2` crate
/// computes it.
pub uninterp spec fn sha256_of(data: Seq<u8>) -> Seq<u8>;

/// The URL-safe, unpadded base64 encoding of a byte sequence, as the
/// `base64` crate computes it.
pub uninterp spec fn b64url_of(data: Seq<u8>) -> Seq<char>;

/// Relies on `sha2::Sha256::digest` (via the `Digest` trait): the digest is
/// a pure function of the input bytes and is 256 bits (32 bytes) long.
#[verifier::external_body]
fn sha256(data: &Vec<u8>) -> (r: Vec<u8>)
    ensures
        r@ == sha256_of(data@),
        r@.len() == 32,
{
    sha2::Sha256::digest(data.as_slice()).to_vec()
}

/// Relies on the `base64` crate's `URL_SAFE_NO_PAD` engine: the encoding is
/// a pure function of the input bytes, over the URL-safe alphabet, without
/// padding. The length bound keeps clear of the engine's documented panic on
/// near-address-space-sized inputs.
#[verifier::external_body]
fn b64url(data: &Vec<u8>) -> (r: String)
    requires
        data@.len() <= 1024,
    ensures
        r@ == b64url_of(data@),
{
    base64::Engine::encode(&base64::engine::general_purpose::URL_SAFE_NO_PAD, data.as_slice())
}

/// The digest field recorded for a file's bytes: `sha256=` followed by the
/// URL-safe unpadded base64 form of the SHA-256 digest.
pub open spec fn digest_chars(data: Seq<u8>) -> Seq<char> {
    "sha256="@ + b64url_of(sha256_of(data))
}

/// Computes the manifest digest field for a file's raw bytes.
pub fn digest_of(data: &Vec<u8>) -> (r: String)
    ensures
        r@ == digest_chars(data@),
{
    let h = sha256(data);
    let b = b64url(&h);
    let mut out: Vec<char> = Vec::new();
    push_str_chars(&mut out, "sha256=");
    push_str_chars(&mut out, b.as_str());
    proof {
        assert(out@ =~= digest_chars(data@));
    }
    chars_to_string(&out)
}

} // verus!
