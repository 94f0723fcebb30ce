//! Ed25519 signature checking.

use vstd::prelude::*;

verus! {

/// Length in bytes of an encoded Ed25519 signature.
pub const SIGNATURE_LENGTH: usize = 64;

/// Whether `ed25519-dalek` accepts `signature` as a strict Ed25519 signature
/// of `message` under the key encoded by `public_key`. False when the key or
/// the signature does not decode.
pub uninterp spec fn ed25519_accepts(public_key: Seq<u8>, message: Seq<u8>, signature: Seq<u8>) -> bool;

/// Decodes the key with `ed25519_dalek::VerifyingKey::from_bytes` and the
/// signature with `ed25519_dalek::Signature::from_slice`, then calls
/// `VerifyingKey::verify_strict`. The contract only names the outcome: it
/// depends on the three byte strings alone, and a key or signature that does
/// not decode counts as a rejection.
#[verifier::external_body]
pub(crate) fn ed25519_verify(public_key: &[u8; 32], message: &[u8], signature: &[u8]) -> (ok: bool)
    ensures
        ok == ed25519_accepts(public_key@, message@, signature@),
{
    let key = ed25519_dalek::VerifyingKey::from_bytes(public_key);
    let sig = ed25519_dalek::Signature::from_slice(signature);
    match (key, sig) {
        (Ok(k), Ok(s)) => k.verify_strict(message, &s).is_ok(),
        _ => false,
    }
}

} // verus!
