//! The sealed-value encryptor: wraps a plaintext value and the store's
//! public key into a transmittable ciphertext blob.
//!
//! `seal` uses an anonymous sealed box: an ephemeral key pair is generated
//! inside the call, a shared secret is derived against the recipient key,
//! and the ephemeral public key is prepended to the authenticated
//! ciphertext, so only the holder of the recipient's private key can
//! decrypt and the sender keeps no way to decrypt its own output. The
//! sealed bytes are then base64-encoded (standard alphabet, padded), since
//! the transport expects text.

use vstd::prelude::*;

use crate::errors::AppError;
use crate::model::{PublicKeyResponse, RecipientKey};

verus! {

/// The byte length of valid recipient key material.
pub const KEY_BYTES_LEN: usize = 32;

/// Bytes a sealed box adds to its plaintext: the ephemeral public key and
/// the authentication tag.
pub const SEAL_OVERHEAD: usize = 48;

/// The longest plaintext `seal` accepts; beyond it the base64 form of the
/// sealed bytes could exceed the address space.
pub const MAX_SEAL_INPUT: usize = usize::MAX / 4 - 50;

/// The base64 text (standard alphabet, padded) of a byte sequence.
pub uninterp spec fn b64_of(bytes: Seq<u8>) -> Seq<char>;

/// The bytes a base64 text decodes to, when it is valid base64.
pub uninterp spec fn b64_decoded(text: Seq<char>) -> Seq<u8>;

/// Whether a text is valid base64 (standard alphabet, padded) and so
/// decodes.
pub uninterp spec fn b64_ok(text: Seq<char>) -> bool;

/// Relies on base64's `Engine::encode` with the `general_purpose::STANDARD`
/// engine: the output is a function of the input bytes alone (standard
/// alphabet, padded), four characters for every three input bytes, rounded
/// up to whole blocks. The engine panics if that length overflows `usize`,
/// so inputs that large are excluded.
#[verifier::external_body]
fn b64_encode(bytes: &[u8]) -> (r: String)
    requires
        4 * ((bytes@.len() + 2) / 3) <= usize::MAX,
    ensures
        r@ == b64_of(bytes@),
        r@.len() == 4 * ((bytes@.len() + 2) / 3),
{
    base64::Engine::encode(&base64::engine::general_purpose::STANDARD, bytes)
}

#[verifier::external_type_specification]
#[verifier::external_body]
pub struct ExDecodeError(base64::DecodeError);

/// Relies on base64's `Engine::decode` with the `general_purpose::STANDARD`
/// engine: whether decoding succeeds, and what it returns, are functions of
/// the input text alone; on success the decoded bytes are returned, and
/// invalid text returns an error without panicking.
#[verifier::external_body]
fn b64_decode(text: &str) -> (r: Result<Vec<u8>, base64::DecodeError>)
    ensures
        r is Ok <==> b64_ok(text@),
        r matches Ok(v) ==> v@ == b64_decoded(text@),
{
    base64::Engine::decode(&base64::engine::general_purpose::STANDARD, text)
}

/// Relies on sodiumoxide's `crypto::sealedbox::seal`, which returns a
/// ciphertext exactly `SEAL_OVERHEAD` bytes longer than its plaintext. The
/// ciphertext also depends on the ephemeral key generated inside the call,
/// so nothing beyond its length is stated. Also relies on
/// `crypto::box_::PublicKey::from_slice`, which accepts exactly the slices
/// of length `KEY_BYTES_LEN`.
#[verifier::external_body]
fn sealedbox_seal(plaintext: &[u8], key_bytes: &[u8]) -> (r: Vec<u8>)
    requires
        key_bytes@.len() == KEY_BYTES_LEN,
        plaintext@.len() + SEAL_OVERHEAD <= usize::MAX,
    ensures
        r@.len() == plaintext@.len() + SEAL_OVERHEAD,
{
    let pk = sodiumoxide::crypto::box_::PublicKey::from_slice(key_bytes).unwrap();
    sodiumoxide::crypto::sealedbox::seal(plaintext, &pk)
}

/// Seals `plaintext` against the recipient key and returns the base64 text
/// of the sealed box. Fails with `InvalidKey` exactly when the key material
/// is not `KEY_BYTES_LEN` bytes; the sender retains no way to decrypt the
/// output.
pub fn seal(plaintext: &[u8], key: &RecipientKey) -> (r: Result<String, AppError>)
    requires
        plaintext@.len() <= MAX_SEAL_INPUT,
    ensures
        r is Ok <==> key.key_bytes@.len() == KEY_BYTES_LEN,
        r matches Err(err) ==> err is InvalidKey,
        r matches Ok(c) ==> c@.len() == 4 * ((plaintext@.len() + SEAL_OVERHEAD + 2) / 3)
            && exists|sealed: Seq<u8>|
            sealed.len() == plaintext@.len() + SEAL_OVERHEAD && c@ == b64_of(sealed),
{
    if key.key_bytes.len() != KEY_BYTES_LEN {
        return Err(AppError::InvalidKey);
    }
    let sealed = sealedbox_seal(plaintext, key.key_bytes.as_slice());
    proof {
        assert(sealed@.len() + 2 <= usize::MAX / 4) by {
            assert(plaintext@.len() <= usize::MAX / 4 - 50);
        }
        assert(4 * ((sealed@.len() + 2) / 3) <= usize::MAX) by {
            let x = sealed@.len() + 2;
            assert(x <= usize::MAX / 4);
            assert(x / 3 <= x);
            assert(4 * (x / 3) <= 4 * x) by (nonlinear_arith)
                requires x / 3 <= x;
            assert(4 * x <= usize::MAX);
        }
    }
    let encoded = b64_encode(sealed.as_slice());
    Ok(encoded)
}

/// Builds a recipient key from already-decoded key material. Succeeds
/// exactly when the material is `KEY_BYTES_LEN` bytes long; otherwise the
/// key is structurally invalid.
pub fn key_from_bytes(key_id: String, bytes: Vec<u8>) -> (r: Result<RecipientKey, AppError>)
    ensures
        r is Ok <==> bytes@.len() == KEY_BYTES_LEN,
        r matches Ok(k) ==> k.key_id@ == key_id@ && k.key_bytes@ == bytes@,
        r matches Err(err) ==> err is InvalidKey,
{
    if bytes.len() != KEY_BYTES_LEN {
        return Err(AppError::InvalidKey);
    }
    Ok(RecipientKey { key_id, key_bytes: bytes })
}

/// Decodes the store's published key response into a recipient key.
/// Succeeds exactly when the key material is valid base64 that decodes to
/// `KEY_BYTES_LEN` bytes; otherwise the key is structurally invalid and
/// the run cannot proceed.
pub fn decode_public_key(response: &PublicKeyResponse) -> (r: Result<RecipientKey, AppError>)
    ensures
        r is Ok <==> b64_ok(response.key@) && b64_decoded(response.key@).len() == KEY_BYTES_LEN,
        r matches Ok(k) ==> k.key_id@ == response.key_id@ && k.key_bytes@ == b64_decoded(
            response.key@,
        ) && k.key_bytes@.len() == KEY_BYTES_LEN,
        r matches Err(err) ==> err is InvalidKey,
{
    let bytes = match b64_decode(response.key.as_str()) {
        Ok(bytes) => bytes,
        Err(_) => {
            return Err(AppError::InvalidKey);
        },
    };
    key_from_bytes(response.key_id.clone(), bytes)
}

} // verus!
