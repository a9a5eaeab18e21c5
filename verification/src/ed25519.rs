//! Proof of ownership: Ed25519 signatures over the bytes of a message.

use crate::hex::{decode_hex, hex_decoded};
use ed25519_compact::{PublicKey, Signature};
use vstd::prelude::*;
use vstd::utf8::encode_utf8;

verus! {

/// Whether `signature` is an Ed25519 signature of `message` that verifies
/// under `public_key`, as `ed25519_compact` decides it.
pub uninterp spec fn ed25519_accepts(
    public_key: Seq<u8>,
    signature: Seq<u8>,
    message: Seq<u8>,
) -> bool;

/// Calls `PublicKey::verify` of `ed25519_compact` on the key and the
/// signature that `PublicKey::from_slice` and `Signature::from_slice` make of
/// the bytes. The answer is `true` where both are made and the verification
/// returns `Ok`, and `false` otherwise. Nothing is proved of it: the contract
/// gives the answer its name.
#[verifier::external_body]
fn ed25519_check(public_key: &[u8], signature: &[u8], message: &[u8]) -> (ok: bool)
    ensures
        ok == ed25519_accepts(public_key@, signature@, message@),
{
    match (PublicKey::from_slice(public_key), Signature::from_slice(signature)) {
        (Ok(pk), Ok(sig)) => pk.verify(message, &sig).is_ok(),
        _ => false,
    }
}

/// Whether a write is authorized: the key and the signature are hexadecimal
/// text, and the signature verifies under the key for the UTF-8 bytes of the
/// message.
pub open spec fn signature_accepts(
    public_key: Seq<char>,
    signature: Seq<char>,
    message: Seq<char>,
) -> bool {
    let pk = hex_decoded(encode_utf8(public_key));
    let sig = hex_decoded(encode_utf8(signature));
    pk is Some && sig is Some && ed25519_accepts(pk->Some_0, sig->Some_0, encode_utf8(message))
}

/// Checks that `signature` proves control of `public_key` for `message`.
/// Malformed text gives `false`, never a failure.
pub fn verify(public_key: String, signature: String, message: String) -> (ok: bool)
    ensures
        ok == signature_accepts(public_key@, signature@, message@),
{
    let pk = decode_hex(public_key.as_str().as_bytes());
    let sig = decode_hex(signature.as_str().as_bytes());
    match (pk, sig) {
        (Some(pk), Some(sig)) => ed25519_check(
            pk.as_slice(),
            sig.as_slice(),
            message.as_str().as_bytes(),
        ),
        _ => false,
    }
}

} // verus!
