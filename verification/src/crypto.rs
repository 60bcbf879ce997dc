//! Boundary to the cryptographic library, and the verified guards around
//! it. Signature verification, key parsing and base58 rendering are
//! deterministic functions of their byte and character inputs; each is given
//! a name here, and a trusted wrapper whose contract ties the library call
//! to that name.
//!
//! The key parser behind those calls is total only on well-framed inputs:
//! its secp256k1 arm aborts on bytes that frame as a SEC1 point but name no
//! valid public key, and its RSA arm aborts when the embedded length prefix
//! exceeds the buffer. [`key_bytes_safe`] states exactly the inputs that are
//! safe to hand it; the wrappers that reach the parser require it, and the
//! verified checkers here decide it first — with one further trusted call
//! into the curve library for point validity, which no byte arithmetic can
//! settle. Every result a caller sees is therefore defined for every input,
//! and nothing in this module can abort.

use helium_crypto::PublicKey;
use helium_crypto::Verify;
use vstd::prelude::*;

verus! {

/// Whether `sig` is a valid detached signature over `msg` under the public
/// key whose binary form is `key` (false as well when `key` does not parse
/// as a key).
pub uninterp spec fn bytes_sig_valid(key: Seq<u8>, msg: Seq<u8>, sig: Seq<u8>) -> bool;

/// Whether `key` is the binary form of a well-formed public key.
pub uninterp spec fn key_bytes_parse(key: Seq<u8>) -> bool;

/// The base58 rendering of the well-formed binary public key `key`.
pub uninterp spec fn key_bytes_b58(key: Seq<u8>) -> Seq<char>;

/// Whether `b` is a SEC1 encoding of a valid point on the k256 curve (the
/// identity is not a valid public key).
pub uninterp spec fn k256_key_valid(b: Seq<u8>) -> bool;

/// The payload of a base58check string with version byte zero: the bytes it
/// encodes after the version byte, or nothing when the characters, checksum
/// or version do not check out.
pub uninterp spec fn b58check_payload(s: Seq<char>) -> Option<Seq<u8>>;

/// Whether the RSA key arm of the parser can read `b` without aborting: its
/// two big-endian length prefixes (after the tag byte) must not place the
/// modulus length beyond the buffer it is split out of.
pub open spec fn rsa_frame_ok(b: Seq<u8>) -> bool {
    b.len() < 5 || {
        let buf_size = b[1] * 256 + b[2];
        let n_size = b[3] * 256 + b[4];
        !(b.len() - 1 >= 4 + buf_size && n_size > buf_size)
    }
}

/// The inputs the key parser is safe to run on. The tag nibble routes the
/// bytes: the secp256k1 arm must only see a valid curve point (or bytes the
/// safe checker already rejected), the RSA arm only sane length prefixes;
/// the remaining arms reject anything else without aborting.
pub open spec fn key_bytes_safe(b: Seq<u8>) -> bool {
    b.len() == 0 || {
        let tag = b[0] & 0x0f;
        &&& (tag == 0x03 ==> k256_key_valid(b.drop_first()))
        &&& (tag == 0x04 ==> rsa_frame_ok(b))
    }
}

/// Whether `s` is the base58 form of a well-formed public key.
pub open spec fn is_key_b58(s: Seq<char>) -> bool {
    match b58check_payload(s) {
        Some(b) => key_bytes_safe(b) && key_bytes_parse(b),
        None => false,
    }
}

/// Whether `sig` is a valid detached signature over `msg` under the public
/// key whose base58 form is `key_b58` (false as well when `key_b58` is not
/// a well-formed key).
pub open spec fn key_sig_valid(key_b58: Seq<char>, msg: Seq<u8>, sig: Seq<u8>) -> bool {
    match b58check_payload(key_b58) {
        Some(b) => key_bytes_safe(b) && bytes_sig_valid(b, msg, sig),
        None => false,
    }
}

/// Relies on `k256::PublicKey::from_sec1_bytes`: fully fallible, and the
/// outcome depends on the bytes alone. Succeeds exactly on SEC1 encodings
/// of valid non-identity curve points — the inputs the parser's secp256k1
/// arm handles without aborting.
#[verifier::external_body]
fn check_k256_key(key: &Vec<u8>) -> (ok: bool)
    requires
        key@.len() >= 1,
    ensures
        ok == k256_key_valid(key@.drop_first()),
{
    k256::PublicKey::from_sec1_bytes(&key[1..]).is_ok()
}

/// Relies on `bs58`'s checked decode: deterministic in the characters, and
/// fallible on bad characters, checksums and versions. The version byte is
/// split off so the payload is exactly the binary key form; a decode so
/// short that no version byte follows the checksum counts as no payload.
#[verifier::external_body]
fn b58check_decode(s: &str) -> (r: Option<Vec<u8>>)
    ensures
        r is Some <==> b58check_payload(s@) is Some,
        r matches Some(b) ==> b58check_payload(s@) == Some(b@),
{
    match bs58::decode(s).with_check(Some(0)).into_vec() {
        Ok(data) => data.get(1..).map(|tail| tail.to_vec()),
        Err(_) => None,
    }
}

/// Relies on `helium_crypto::PublicKey::try_from` (binary form) and
/// `helium_crypto::Verify::verify` for `PublicKey`: on safe inputs both
/// return, the outcome depends only on the key, message and signature
/// bytes, and verification can succeed only when the key bytes parse.
#[verifier::external_body]
pub(crate) fn verify_with_key_bytes(key: &Vec<u8>, msg: &Vec<u8>, sig: &Vec<u8>) -> (ok: bool)
    requires
        key_bytes_safe(key@),
    ensures
        ok == bytes_sig_valid(key@, msg@, sig@),
        ok ==> key_bytes_parse(key@),
{
    match PublicKey::try_from(key.as_slice()) {
        Ok(parsed) => parsed.verify(msg, sig).is_ok(),
        Err(_) => false,
    }
}

/// Relies on `helium_crypto::PublicKey::try_from` (binary form): on safe
/// inputs it returns, and success depends on the bytes alone.
#[verifier::external_body]
fn check_key_bytes(key: &Vec<u8>) -> (ok: bool)
    requires
        key_bytes_safe(key@),
    ensures
        ok == key_bytes_parse(key@),
{
    PublicKey::try_from(key.as_slice()).is_ok()
}

/// Relies on `helium_crypto::PublicKey::try_from` (binary form) and the
/// `Display` rendering of `PublicKey`: on safe inputs both return, key
/// bytes parse or not depending on the bytes alone, and a parsed key
/// renders to its base58 form — a base58check string (version zero) of the
/// key's canonical bytes, which itself names a well-formed key.
#[verifier::external_body]
pub(crate) fn key_bytes_to_b58(key: &Vec<u8>) -> (r: Option<String>)
    requires
        key_bytes_safe(key@),
    ensures
        r is Some <==> key_bytes_parse(key@),
        r matches Some(s) ==> s@ == key_bytes_b58(key@) && is_key_b58(s@),
{
    match PublicKey::try_from(key.as_slice()) {
        Ok(parsed) => Some(parsed.to_string()),
        Err(_) => None,
    }
}

/// Decide [`key_bytes_safe`]: everything but curve membership is byte
/// arithmetic, checked here; the curve itself is asked through
/// [`check_k256_key`].
pub(crate) fn key_bytes_safe_check(key: &Vec<u8>) -> (ok: bool)
    ensures
        ok == key_bytes_safe(key@),
{
    let n = key.len();
    if n == 0 {
        return true;
    }
    let tag = key[0] & 0x0f;
    if tag == 0x03 {
        check_k256_key(key)
    } else if tag == 0x04 {
        if n < 5 {
            true
        } else {
            let buf_size: usize = (key[1] as usize) * 256 + (key[2] as usize);
            let n_size: usize = (key[3] as usize) * 256 + (key[4] as usize);
            !(n - 1 >= 4 + buf_size && n_size > buf_size)
        }
    } else {
        true
    }
}

/// Whether `s` is the base58 form of a well-formed public key: decode, keep
/// the parser safe, then ask it.
pub(crate) fn check_key_b58(s: &str) -> (ok: bool)
    ensures
        ok == is_key_b58(s@),
{
    match b58check_decode(s) {
        Some(payload) => {
            if key_bytes_safe_check(&payload) {
                check_key_bytes(&payload)
            } else {
                false
            }
        },
        None => false,
    }
}

/// Whether `sig` is a valid signature over `msg` under the base58 key
/// `key_b58`: decode, keep the parser safe, then verify.
pub(crate) fn verify_with_key_b58(key_b58: &str, msg: &Vec<u8>, sig: &Vec<u8>) -> (ok: bool)
    ensures
        ok == key_sig_valid(key_b58@, msg@, sig@),
        ok ==> is_key_b58(key_b58@),
{
    match b58check_decode(key_b58) {
        Some(payload) => {
            if key_bytes_safe_check(&payload) {
                verify_with_key_bytes(&payload, msg, sig)
            } else {
                false
            }
        },
        None => false,
    }
}

} // verus!
