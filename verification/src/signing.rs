//! Hashing, hex encoding, nonces and token signing, done by outside crates.
//!
//! Nothing here is proved: each function states what the crate it calls is
//! trusted to do.

use vstd::prelude::*;
use crate::api::distinct_keys;
use crate::text::plain_pairs;
use jwt::SignWithKey;
use sha2::Digest;
use std::collections::BTreeMap;

verus! {

/// The error of the `jwt` crate.
#[verifier::external_type_specification]
#[verifier::external_body]
pub struct ExJwtError(jwt::Error);

/// The SHA-512 digest of `data`.
pub uninterp spec fn sha512_of(data: Seq<u8>) -> Seq<u8>;

/// The compact serialization of the JSON Web Token that carries `claims`,
/// signed with HMAC-SHA256 under `secret`.
pub uninterp spec fn hs256_token(claims: Seq<(Seq<char>, Seq<char>)>, secret: Seq<u8>) -> Seq<char>;

/// The JSON text of the string `s`: quoted and escaped.
pub uninterp spec fn json_text_of(s: Seq<char>) -> Seq<char>;

/// The character of a hexadecimal digit, in lower case.
pub open spec fn hex_char(d: int) -> char {
    seq!['0', '1', '2', '3', '4', '5', '6', '7', '8', '9', 'a', 'b', 'c', 'd', 'e', 'f'][d]
}

/// The lower-case hexadecimal text of `bytes`: two digits a byte, the high
/// half first.
pub open spec fn lower_hex(bytes: Seq<u8>) -> Seq<char> {
    Seq::new(
        2 * bytes.len(),
        |i: int| hex_char(if i % 2 == 0 { bytes[i / 2] as int / 16 } else { bytes[i / 2] as int % 16 }),
    )
}

/// `sha2::Sha512::digest`: the SHA-512 digest of `data`, which has 64 bytes.
#[verifier::external_body]
pub(crate) fn sha512(data: &[u8]) -> (out: Vec<u8>)
    ensures
        out@ == sha512_of(data@),
        out@.len() == 64,
{
    sha2::Sha512::digest(data).to_vec()
}

/// `base16ct::lower::encode_str` on a zeroed buffer of `capacity` bytes, which
/// is kept small: the lower-case hexadecimal text of `src`, or nothing where
/// the buffer is shorter than that text.
#[verifier::external_body]
pub(crate) fn hex_lower(src: &[u8], capacity: usize) -> (r: Option<String>)
    requires
        capacity <= 65536,
    ensures
        match r {
            Some(text) => capacity >= 2 * src@.len() && text@ == lower_hex(src@),
            None => capacity < 2 * src@.len(),
        },
{
    let mut buffer: Vec<u8> = vec![0u8; capacity];
    match base16ct::lower::encode_str(src, &mut buffer) {
        Ok(text) => Some(text.to_string()),
        Err(_) => None,
    }
}

/// `uuid::Uuid::new_v4`, written out by its `Display`: a random identifier in
/// the hyphenated form, which has 36 characters.
#[verifier::external_body]
pub(crate) fn fresh_nonce() -> (nonce: String)
    ensures
        nonce@.len() == 36,
{
    uuid::Uuid::new_v4().to_string()
}

/// `jwt::SignWithKey::sign_with_key` on the claims as a map from name to
/// value, with the key that `hmac::Hmac::<sha2::Sha256>::new_from_slice`
/// makes of `secret`: the signed token.
///
/// Both calls return a `Result`, and neither fails here: the key takes a
/// secret of any length, and a header and a map of strings always serialise.
/// The names of the claims are distinct, so that the map holds each claim.
#[verifier::external_body]
pub(crate) fn sign_hs256(claims: &Vec<(String, String)>, secret: &[u8]) -> (r: Result<
    String,
    jwt::Error,
>)
    requires
        distinct_keys(plain_pairs(claims@)),
    ensures
        r is Ok,
        r matches Ok(token) ==> token@ == hs256_token(plain_pairs(claims@), secret@),
{
    let key: hmac::Hmac<sha2::Sha256> = match hmac::Mac::new_from_slice(secret) {
        Ok(key) => key,
        Err(e) => return Err(jwt::Error::RustCryptoMacKeyLength(e)),
    };
    let mut map: BTreeMap<&str, &str> = BTreeMap::new();
    for pair in claims.iter() {
        map.insert(pair.0.as_str(), pair.1.as_str());
    }
    map.sign_with_key(&key)
}

/// `serde_json::Value::String`, written out by its `Display`: the JSON text
/// of the string `s`.
#[verifier::external_body]
pub(crate) fn json_text(s: &str) -> (out: String)
    ensures
        out@ == json_text_of(s@),
{
    serde_json::Value::String(s.to_string()).to_string()
}

} // verus!
