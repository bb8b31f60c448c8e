//! Ed25519 signatures, through `ed25519-dalek`.
use ed25519_dalek::Signer;
use ed25519_dalek::Verifier;
use vstd::prelude::*;

verus! {

/// The public key of a 32-byte Ed25519 secret key.
pub uninterp spec fn ed25519_public_of(secret: Seq<u8>) -> Seq<u8>;

/// The Ed25519 signature of a message under a secret key (Ed25519 signing is
/// deterministic).
pub uninterp spec fn ed25519_signature_of(secret: Seq<u8>, message: Seq<u8>) -> Seq<u8>;

/// Whether a signature over a message verifies under a public key.
pub uninterp spec fn ed25519_accepts(public: Seq<u8>, message: Seq<u8>, signature: Seq<u8>) -> bool;

/// Whether a public key and a signature are the ones that some secret key
/// gives for a message.
pub open spec fn honestly_signed(public: Seq<u8>, message: Seq<u8>, signature: Seq<u8>) -> bool {
    exists|k: Seq<u8>|
        k.len() == 32 && #[trigger] ed25519_public_of(k) == public && ed25519_signature_of(k, message)
            == signature
}

/// Relies on ed25519_dalek::SigningKey::from_bytes and verifying_key: the
/// 32-byte public key of the secret key.
#[verifier::external_body]
pub(crate) fn public_key(secret: &[u8]) -> (r: Vec<u8>)
    requires
        secret@.len() == 32,
    ensures
        r@ == ed25519_public_of(secret@),
        r@.len() == 32,
{
    let k: &[u8; 32] = secret.try_into().unwrap();
    ed25519_dalek::SigningKey::from_bytes(k).verifying_key().to_bytes().to_vec()
}

/// Relies on ed25519_dalek::SigningKey::sign: the 64-byte signature of the
/// message.
#[verifier::external_body]
pub(crate) fn sign(secret: &[u8], message: &[u8]) -> (r: Vec<u8>)
    requires
        secret@.len() == 32,
    ensures
        r@ == ed25519_signature_of(secret@, message@),
        r@.len() == 64,
{
    let k: &[u8; 32] = secret.try_into().unwrap();
    ed25519_dalek::SigningKey::from_bytes(k).sign(message).to_bytes().to_vec()
}

/// Relies on ed25519_dalek::VerifyingKey::from_bytes and Verifier::verify:
/// false where the key bytes are no valid point or the signature does not
/// verify; a signature that the matching secret key made always verifies.
#[verifier::external_body]
pub(crate) fn signature_accepts(public: &[u8], message: &[u8], signature: &[u8]) -> (r: bool)
    requires
        public@.len() == 32,
        signature@.len() == 64,
    ensures
        r == ed25519_accepts(public@, message@, signature@),
        honestly_signed(public@, message@, signature@) ==> r,
{
    let p: &[u8; 32] = public.try_into().unwrap();
    let s: &[u8; 64] = signature.try_into().unwrap();
    match ed25519_dalek::VerifyingKey::from_bytes(p) {
        Ok(key) => key.verify(message, &ed25519_dalek::Signature::from_bytes(s)).is_ok(),
        Err(_) => false,
    }
}

} // verus!
