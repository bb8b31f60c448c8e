//! The stateless seal verifier.
use vstd::prelude::*;
use crate::digest::{blake3_digest, blake3_of, utf8};
use crate::hex_text::{hex_bytes, hex_chars, hex_decode, hex_encode, is_hex_text};
use crate::json::{canonical_of, canonical_result};
use crate::seal::{a_hash_of, b_hash_of, compute_a_hash, compute_b_hash, payload_of, signature_payload};
use crate::signing::{ed25519_accepts, honestly_signed, signature_accepts};
use crate::text::text_equal;

verus! {

/// A sealed response as the verifier reads it: the JSON text of its result and
/// the fields of its seal, each absent where the response lacks it.
pub struct SealedResponse {
    pub result: Option<String>,
    pub signature: Option<String>,
    pub pub_key: Option<String>,
    pub a_hash: Option<String>,
    pub b_hash: Option<String>,
}

/// Why a seal could not be checked at all.
#[derive(Clone, Copy, Debug, PartialEq, Eq, Structural)]
pub enum VerifyError {
    /// A field of the seal, or the result, is missing.
    MalformedSeal,
    /// The expected root hash is not 64 hexadecimal digits.
    InvalidExpectedRoot,
}

/// The outcome of a verification.
pub struct VerificationReport {
    pub valid: bool,
    pub signature_verified: bool,
    pub binding_verified: bool,
    pub identity_verified: bool,
    pub message: String,
}

/// Hexadecimal text of exactly `n` bytes.
pub open spec fn is_hex_of_len(s: Seq<char>, n: nat) -> bool {
    is_hex_text(s) && hex_bytes(s).len() == n
}

/// Every field is present.
pub open spec fn well_formed(e: SealedResponse) -> bool {
    &&& e.result.is_some()
    &&& e.signature.is_some()
    &&& e.pub_key.is_some()
    &&& e.a_hash.is_some()
    &&& e.b_hash.is_some()
}

/// The key and the signature of a well-formed response decode to 32 and 64
/// bytes.
pub open spec fn keys_decode(e: SealedResponse) -> bool {
    is_hex_of_len(e.pub_key.unwrap()@, 32) && is_hex_of_len(e.signature.unwrap()@, 64)
}

/// The hexadecimal digest of the canonical form of a result text.
pub open spec fn result_hex_of(result: Seq<char>) -> Seq<char> {
    hex_chars(blake3_of(utf8(canonical_of(result))))
}

/// The payload that the signature must cover.
pub open spec fn signed_text(result: Seq<char>, wax: Seq<char>, a: Seq<char>, b: Seq<char>) -> Seq<char> {
    payload_of(wax, a, b, result_hex_of(result))
}

/// The signature verifies over the reconstructed payload.
pub open spec fn signature_holds(
    result: Seq<char>,
    wax: Seq<char>,
    sig: Seq<char>,
    pk: Seq<char>,
    a: Seq<char>,
    b: Seq<char>,
) -> bool {
    ed25519_accepts(hex_bytes(pk), utf8(signed_text(result, wax, a, b)), hex_bytes(sig))
}

/// `b` is the binding recomputed from `a`, the challenge and the result.
pub open spec fn binding_holds(result: Seq<char>, wax: Seq<char>, a: Seq<char>, b: Seq<char>) -> bool {
    is_hex_of_len(a, 32) && b == hex_chars(b_hash_of(hex_bytes(a), wax, utf8(canonical_of(result))))
}

/// `a` is the blinded identity of `root` under the challenge.
pub open spec fn identity_holds(root: Seq<u8>, wax: Seq<char>, a: Seq<char>) -> bool {
    hex_chars(a_hash_of(root, wax)) == a
}

/// The message of a report.
pub open spec fn report_message(signature: bool, binding: bool, identity: bool) -> Seq<char> {
    if !signature {
        "Signature verification failed. The seal may have been tampered."@
    } else if !binding {
        "Binding mismatch. The result is not the one that was sealed."@
    } else if !identity {
        "Identity Mismatch. The code executed is different from what was expected."@
    } else {
        "SEAL VALID. The result is authentic and untampered."@
    }
}

/// The signature check of a well-formed response: the key and the signature
/// decode, and the signature verifies.
pub open spec fn response_signature_holds(e: SealedResponse, wax: Seq<char>) -> bool {
    keys_decode(e) && signature_holds(
        e.result.unwrap()@,
        wax,
        e.signature.unwrap()@,
        e.pub_key.unwrap()@,
        e.a_hash.unwrap()@,
        e.b_hash.unwrap()@,
    )
}

fn decode_exact(s: &str, n: usize) -> (r: Option<Vec<u8>>)
    ensures
        r.is_some() == is_hex_of_len(s@, n as nat),
        r.is_some() ==> r.unwrap()@ == hex_bytes(s@),
{
    match hex_decode(s) {
        Some(v) => {
            if v.len() == n {
                Some(v)
            } else {
                None
            }
        },
        None => None,
    }
}

fn report(valid: bool, signature: bool, binding: bool, identity: bool, message: &str) -> (r:
    VerificationReport)
    ensures
        r.valid == valid,
        r.signature_verified == signature,
        r.binding_verified == binding,
        r.identity_verified == identity,
        r.message@ == message@,
{
    VerificationReport {
        valid,
        signature_verified: signature,
        binding_verified: binding,
        identity_verified: identity,
        message: message.to_owned(),
    }
}

/// Verifies a sealed response against the challenge it was requested with,
/// and, where given, against the expected root hash in hexadecimal.
///
/// The signature is checked first; where it fails, nothing else is reported
/// as verified. Then the binding is recomputed from the disclosed `A`, and the
/// blinded identity from the expected root hash.
pub fn verify_seal(response: &SealedResponse, wax: &str, expected_root_hash: Option<&str>) -> (r:
    Result<VerificationReport, VerifyError>)
    ensures
        !well_formed(*response) <==> r == Err::<VerificationReport, VerifyError>(
            VerifyError::MalformedSeal,
        ),
        r == Err::<VerificationReport, VerifyError>(VerifyError::InvalidExpectedRoot) <==> (
        well_formed(*response) && response_signature_holds(*response, wax@)
            && expected_root_hash.is_some() && !is_hex_of_len(expected_root_hash.unwrap()@, 32)),
        well_formed(*response) && keys_decode(*response) && honestly_signed(
            hex_bytes(response.pub_key.unwrap()@),
            utf8(
                signed_text(
                    response.result.unwrap()@,
                    wax@,
                    response.a_hash.unwrap()@,
                    response.b_hash.unwrap()@,
                ),
            ),
            hex_bytes(response.signature.unwrap()@),
        ) ==> response_signature_holds(*response, wax@),
        r.is_ok() ==> {
            let rep = r.unwrap();
            let e = *response;
            let sig = response_signature_holds(e, wax@);
            let binding = sig && binding_holds(
                e.result.unwrap()@,
                wax@,
                e.a_hash.unwrap()@,
                e.b_hash.unwrap()@,
            );
            let identity = sig && (expected_root_hash.is_none() || identity_holds(
                hex_bytes(expected_root_hash.unwrap()@),
                wax@,
                e.a_hash.unwrap()@,
            ));
            &&& rep.signature_verified == sig
            &&& rep.binding_verified == binding
            &&& rep.identity_verified == identity
            &&& rep.valid == (binding && identity)
            &&& rep.message@ == report_message(sig, binding, identity)
        },
{
    let result = match &response.result {
        Some(v) => v,
        None => return Err(VerifyError::MalformedSeal),
    };
    let signature_hex = match &response.signature {
        Some(v) => v,
        None => return Err(VerifyError::MalformedSeal),
    };
    let pub_key_hex = match &response.pub_key {
        Some(v) => v,
        None => return Err(VerifyError::MalformedSeal),
    };
    let a_hash_hex = match &response.a_hash {
        Some(v) => v,
        None => return Err(VerifyError::MalformedSeal),
    };
    let b_hash_hex = match &response.b_hash {
        Some(v) => v,
        None => return Err(VerifyError::MalformedSeal),
    };
    let failed = "Signature verification failed. The seal may have been tampered.";
    let pub_key = match decode_exact(pub_key_hex.as_str(), 32) {
        Some(v) => v,
        None => return Ok(report(false, false, false, false, failed)),
    };
    let signature = match decode_exact(signature_hex.as_str(), 64) {
        Some(v) => v,
        None => return Ok(report(false, false, false, false, failed)),
    };

    let canonical = canonical_result(result.as_str());
    let result_hash = blake3_digest(canonical.as_str().as_bytes());
    let result_hex = hex_encode(result_hash.as_slice());
    let payload = signature_payload(
        wax,
        a_hash_hex.as_str(),
        b_hash_hex.as_str(),
        result_hex.as_str(),
    );
    let signature_verified = signature_accepts(
        pub_key.as_slice(),
        payload.as_str().as_bytes(),
        signature.as_slice(),
    );
    if !signature_verified {
        return Ok(report(false, false, false, false, failed));
    }
    let identity_verified = match expected_root_hash {
        Some(h) => {
            let root = match decode_exact(h, 32) {
                Some(v) => v,
                None => return Err(VerifyError::InvalidExpectedRoot),
            };
            let computed_a = compute_a_hash(root.as_slice(), wax);
            let computed_hex = hex_encode(computed_a.as_slice());
            text_equal(computed_hex.as_str(), a_hash_hex.as_str())
        },
        None => true,
    };
    let binding_verified = match decode_exact(a_hash_hex.as_str(), 32) {
        Some(a) => {
            let b = compute_b_hash(a.as_slice(), wax, canonical.as_str().as_bytes());
            let b_hex = hex_encode(b.as_slice());
            text_equal(b_hex.as_str(), b_hash_hex.as_str())
        },
        None => false,
    };
    if !binding_verified {
        Ok(
            report(
                false,
                true,
                false,
                identity_verified,
                "Binding mismatch. The result is not the one that was sealed.",
            ),
        )
    } else if !identity_verified {
        Ok(
            report(
                false,
                true,
                true,
                false,
                "Identity Mismatch. The code executed is different from what was expected.",
            ),
        )
    } else {
        Ok(report(true, true, true, true, "SEAL VALID. The result is authentic and untampered."))
    }
}

} // verus!
