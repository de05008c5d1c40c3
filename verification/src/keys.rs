//! Queue keys: the text-safe, deduplicating encoding of a job payload.
//!
//! A payload's identity in the shared store is its base64 encoding. Two
//! payloads with identical text collapse to the same key, which is what makes
//! the `pending` set deduplicate deliveries.

use base64::Engine;
use vstd::prelude::*;

verus! {

/// The key that stands for a payload in the shared store: the base64 encoding
/// (standard alphabet, padded) of the payload's UTF-8 bytes. The encoding
/// itself is performed by an outside crate; this name stands for its result,
/// which depends on the payload alone.
pub uninterp spec fn key_of(payload: Seq<char>) -> Seq<char>;

/// Relies on base64's standard engine `encode` (standard alphabet, padded):
/// the result is a deterministic function of the input bytes, here the UTF-8
/// bytes of the payload.
#[verifier::external_body]
pub(crate) fn encode_key(payload: &String) -> (r: String)
    ensures
        r@ == key_of(payload@),
{
    base64::engine::general_purpose::STANDARD.encode(payload.as_bytes())
}

/// Relies on base64's standard engine `decode`, the inverse of `encode`. The
/// standard engine only accepts canonical input (padding required, no stray
/// trailing bits), so a string that decodes here is exactly the encoding of
/// the bytes returned: on `key_of(p)` it returns the UTF-8 bytes of `p`, and
/// the conversion back to a string succeeds. A string that is no payload's
/// key decodes to `None`, either because the base64 is not canonical or
/// because the bytes are not UTF-8.
#[verifier::external_body]
pub(crate) fn decode_key(key: &String) -> (r: Option<String>)
    ensures
        r matches Some(p) ==> key@ == key_of(p@),
        r is None ==> forall|p: Seq<char>| key@ != key_of(p),
        r matches Some(q) ==> forall|p: Seq<char>| key@ == key_of(p) ==> q@ == p,
{
    match base64::engine::general_purpose::STANDARD.decode(key.as_bytes()) {
        Ok(bytes) => String::from_utf8(bytes).ok(),
        Err(_) => None,
    }
}

/// Builds the key under which a payload is queued. Payloads with equal text
/// get equal keys, which is the deduplication the pending set relies on.
pub fn payload_key(payload: &String) -> (r: String)
    ensures
        r@ == key_of(payload@),
{
    encode_key(payload)
}

} // verus!
