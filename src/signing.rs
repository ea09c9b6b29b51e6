use vstd::prelude::*;
use vstd::utf8::encode_utf8;
use hmac::Mac;
use crate::blockchain::{hex_chars, hex_encode};

verus! {

/// Name for the HMAC-SHA256 tag of `message` under `key`.
pub uninterp spec fn hmac_sha256_of(key: Seq<u8>, message: Seq<u8>) -> Seq<u8>;

/// Relies on hmac's `Hmac::<Sha256>` (`new_from_slice`, `update`,
/// `finalize`): the HMAC-SHA256 tag of `message` under `key`, which depends
/// on the bytes alone. `new_from_slice` accepts keys of any length.
#[verifier::external_body]
fn hmac_sha256(key: &[u8], message: &[u8]) -> (r: Vec<u8>)
    ensures
        r@ == hmac_sha256_of(key@, message@),
{
    match hmac::Hmac::<sha2::Sha256>::new_from_slice(key) {
        Ok(mut mac) => {
            mac.update(message);
            mac.finalize().into_bytes().to_vec()
        },
        Err(_) => Vec::new(),
    }
}

/// Signature of a request's query text: the lowercase hex HMAC-SHA256 tag of
/// the query's UTF-8 bytes under the secret's.
pub fn sign_query(query: &str, secret: &str) -> (r: String)
    ensures
        r@ == hex_chars(hmac_sha256_of(encode_utf8(secret@), encode_utf8(query@))),
{
    let tag = hmac_sha256(secret.as_bytes(), query.as_bytes());
    hex_encode(&tag)
}

} // verus!
