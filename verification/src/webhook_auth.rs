//! Who may call the cache-invalidation webhook: a caller that signs the
//! request body with the shared secret (HMAC-SHA256, hex-encoded in a
//! header), or else one that presents a valid bearer token.

use vstd::prelude::*;
use vstd::string::StringSliceAdditionalSpecFns;
use hmac::{Hmac, Mac};
use sha2::Sha256;
use crate::text::seq_starts_with;
use crate::api_checks::bearer_token;

verus! {

/// The value of a hexadecimal digit, in either case.
pub open spec fn hex_digit(c: u8) -> Option<u8> {
    if 48 <= c <= 57 {
        Some((c - 48) as u8)
    } else if 97 <= c <= 102 {
        Some((c - 87) as u8)
    } else if 65 <= c <= 70 {
        Some((c - 55) as u8)
    } else {
        None
    }
}

/// The bytes that a hexadecimal text encodes, two digits to a byte, high
/// digit first; none for an odd length or a character that is no digit.
pub open spec fn hex_bytes(d: Seq<u8>) -> Option<Seq<u8>> {
    if d.len() % 2 == 0 && forall|i: int| 0 <= i < d.len() ==> #[trigger] hex_digit(d[i]) is Some {
        Some(Seq::new(d.len() / 2, |i: int| (hex_digit(d[2 * i])->0 * 16 + hex_digit(d[2 * i + 1])->0) as u8))
    } else {
        None
    }
}

/// `hex::decode`: the bytes a hexadecimal text encodes (see `hex_bytes`),
/// or none where the crate reports an odd length or a bad character.
#[verifier::external_body]
fn hex_decode(data: &[u8]) -> (r: Option<Vec<u8>>)
    ensures
        match r {
            Some(v) => hex_bytes(data@) == Some(v@),
            None => hex_bytes(data@) is None,
        },
{
    hex::decode(data).ok()
}

/// The HMAC-SHA256 tag of `message` under `key`.
pub uninterp spec fn hmac_sha256(key: Seq<u8>, message: Seq<u8>) -> Seq<u8>;

/// `Hmac::<Sha256>::new_from_slice`, `update` and `verify_slice`: whether
/// `tag` is the whole HMAC-SHA256 tag of `message` under `key` (the crate
/// takes keys of any length, so making the code never fails).
#[verifier::external_body]
fn hmac_verifies(key: &[u8], message: &[u8], tag: &[u8]) -> (r: bool)
    ensures
        r == (tag@ == hmac_sha256(key@, message@)),
{
    match Hmac::<Sha256>::new_from_slice(key) {
        Ok(mut mac) => {
            mac.update(message);
            mac.verify_slice(tag).is_ok()
        },
        Err(_) => false,
    }
}

/// `jsonwebtoken::decode` with the default validation and a secret key:
/// whether the token is accepted. Nothing is stated of the answer: the
/// crate checks the token's expiry against the current time.
#[verifier::external_body]
fn jwt_accepted(token: &str, secret: &str) -> (r: bool)
{
    jsonwebtoken::decode::<serde_json::Value>(
        token,
        &jsonwebtoken::DecodingKey::from_secret(secret.as_bytes()),
        &jsonwebtoken::Validation::default(),
    ).is_ok()
}

/// Whether a webhook request may pass: with a signature header, exactly
/// when the header is the hex encoding of the body's HMAC-SHA256 tag under
/// the webhook secret; without one, only when a bearer token is presented
/// and accepted under the token secret.
pub fn webhook_authorized(
    signature: Option<&str>,
    body: &[u8],
    webhook_secret: &str,
    authorization: Option<&str>,
    jwt_secret: &str,
) -> (ok: bool)
    ensures
        signature matches Some(s) ==> ok == (hex_bytes(s.spec_bytes()) matches Some(t)
            && t == hmac_sha256(webhook_secret.spec_bytes(), body@)),
        signature is None && !(authorization matches Some(h) && seq_starts_with(h@, "Bearer "@)) ==> !ok,
{
    match signature {
        Some(s) => match hex_decode(s.as_bytes()) {
            Some(tag) => hmac_verifies(webhook_secret.as_bytes(), body, tag.as_slice()),
            None => false,
        },
        None => match bearer_token(authorization) {
            Some(token) => jwt_accepted(token.as_str(), jwt_secret),
            None => false,
        },
    }
}

} // verus!
