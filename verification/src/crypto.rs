//! The cryptographic and encoding primitives the signed-message formats
//! rely on: Ed25519 signing and verification, standard base64, hex
//! decoding and UUID text parsing. Each is the outside crate's own code;
//! this module names or states what it computes.

use vstd::prelude::*;
use base64::Engine;

verus! {

/// The Ed25519 signature `ed25519_dalek` makes of `message` with the key
/// whose 32-byte seed is `seed` (deterministic, RFC 8032).
pub uninterp spec fn ed25519_signature(seed: Seq<u8>, message: Seq<u8>) -> Seq<u8>;

/// The Ed25519 public key of the 32-byte seed `seed`.
pub uninterp spec fn ed25519_public_key(seed: Seq<u8>) -> Seq<u8>;

/// The standard, padded base64 text of `bytes`.
pub uninterp spec fn base64_text(bytes: Seq<u8>) -> Seq<char>;

/// What standard, padded base64 decodes `text` to; `None` when it is not
/// valid base64.
pub uninterp spec fn base64_bytes(text: Seq<char>) -> Option<Seq<u8>>;

/// The 128-bit value `uuid` parses `text` as (any of its accepted forms);
/// `None` when it does not parse.
pub uninterp spec fn uuid_value(text: Seq<char>) -> Option<u128>;

/// Signs `message` with the Ed25519 key whose seed is `seed`
/// (`ed25519_dalek::SigningKey::from_bytes`, then `Signer::sign`). The
/// signature is a function of the key and the message alone.
#[verifier::external_body]
pub(crate) fn sign(seed: &[u8; 32], message: &[u8]) -> (r: [u8; 64])
    ensures
        r@ == ed25519_signature(seed@, message@),
{
    let key = ed25519_dalek::SigningKey::from_bytes(seed);
    ed25519_dalek::Signer::sign(&key, message).to_bytes()
}

/// The Ed25519 public key of `seed`
/// (`ed25519_dalek::SigningKey::verifying_key`).
#[verifier::external_body]
pub(crate) fn public_key(seed: &[u8; 32]) -> (r: [u8; 32])
    ensures
        r@ == ed25519_public_key(seed@),
{
    ed25519_dalek::SigningKey::from_bytes(seed).verifying_key().to_bytes()
}

/// Standard, padded base64 of `bytes` (`base64`'s `STANDARD` engine).
#[verifier::external_body]
pub(crate) fn base64_encode(bytes: &[u8]) -> (r: String)
    ensures
        r@ == base64_text(bytes@),
{
    base64::engine::general_purpose::STANDARD.encode(bytes)
}

/// Decodes standard, padded base64 (`base64`'s `STANDARD` engine); `None`
/// when `text` is not valid base64.
#[verifier::external_body]
pub(crate) fn base64_decode(text: &str) -> (r: Option<Vec<u8>>)
    ensures
        match r {
            Some(b) => base64_bytes(text@) == Some(b@),
            None => base64_bytes(text@) is None,
        },
{
    base64::engine::general_purpose::STANDARD.decode(text).ok()
}

/// Parses a UUID text (`uuid::Uuid::parse_str`), as its 128-bit value.
#[verifier::external_body]
pub(crate) fn parse_uuid(text: &str) -> (r: Option<u128>)
    ensures
        r == uuid_value(text@),
{
    match uuid::Uuid::parse_str(text) {
        Ok(u) => Some(u.as_u128()),
        Err(_) => None,
    }
}

/// Whether `signature` is a valid Ed25519 signature of `message` under the
/// compressed public key `key`, by `ed25519_dalek`'s strict verification;
/// `false` as well when `key` is not a valid curve point.
pub uninterp spec fn ed25519_verifies(key: Seq<u8>, message: Seq<u8>, signature: Seq<u8>) -> bool;

/// Checks an Ed25519 signature (`ed25519_dalek::VerifyingKey::from_bytes`,
/// then `verify_strict`); a key that is not a curve point verifies nothing.
/// Whether it verifies is a function of the key, message and signature.
#[verifier::external_body]
pub(crate) fn verify_signature(key: &[u8; 32], message: &[u8], signature: &[u8; 64]) -> (r: bool)
    ensures
        r == ed25519_verifies(key@, message@, signature@),
{
    match ed25519_dalek::VerifyingKey::from_bytes(key) {
        Ok(k) => k.verify_strict(message, &ed25519_dalek::Signature::from_bytes(signature)).is_ok(),
        Err(_) => false,
    }
}

/// The value of a hex digit of either case.
pub open spec fn hex_digit_value(c: char) -> Option<int> {
    let n = c as u32;
    if 0x30 <= n <= 0x39 {
        Some(n - 0x30)
    } else if 0x61 <= n <= 0x66 {
        Some(n - 0x61 + 10)
    } else if 0x41 <= n <= 0x46 {
        Some(n - 0x41 + 10)
    } else {
        None
    }
}

/// What `hex::decode` makes of a text: every pair of hex digits (either
/// case, high digit first) one byte; nothing for an odd length or any
/// other character.
pub open spec fn hex_decoded(text: Seq<char>) -> Option<Seq<u8>> {
    if text.len() % 2 == 0 && forall|i: int| 0 <= i < text.len() ==> (#[trigger] hex_digit_value(text[i])) is Some {
        Some(Seq::new(text.len() / 2, |k: int|
            (hex_digit_value(text[2 * k]).unwrap() * 16 + hex_digit_value(text[2 * k + 1]).unwrap()) as u8))
    } else {
        None
    }
}

/// Decodes hex text (`hex::decode`), as its documentation and source
/// define it; `None` when the text is not hex.
#[verifier::external_body]
pub(crate) fn hex_decode(text: &str) -> (r: Option<Vec<u8>>)
    ensures
        match r {
            Some(b) => hex_decoded(text@) == Some(b@),
            None => hex_decoded(text@) is None,
        },
{
    hex::decode(text).ok()
}

} // verus!
