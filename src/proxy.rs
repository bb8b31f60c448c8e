//! The attestation proxy's decisions: the boot gate, the challenge gate, the
//! sealing of an upstream reply and the identity endpoint.
use vstd::prelude::*;
use crate::digest::{blake3_digest, blake3_of, utf8};
use crate::hex_text::{hex_chars, hex_encode};
use crate::identity::ProjectIdentity;
use crate::json::{canonical_of, canonical_result, json_quoted};
use crate::seal::{
    a_hash_of, b_hash_of, compute_a_hash, compute_b_hash, payload_of, signature_payload, Seal,
    SealMode,
};
use crate::signing::{ed25519_public_of, ed25519_signature_of, public_key, sign};
use crate::text::{bytes_equal, decimal_chars, decimal_text, join2};

verus! {

/// Why the proxy refuses to start.
#[derive(Clone, Copy, Debug, PartialEq, Eq, Structural)]
pub enum BootError {
    /// The bundle's files no longer match the root hash its manifest records.
    IntegrityViolation,
}

/// The root hash as a manifest records it.
pub enum ManifestRoot {
    /// A JSON array of integers, one per byte.
    Numbers(Vec<u64>),
    /// A hexadecimal string.
    Hex(String),
    /// No usable root hash.
    Missing,
}

/// The bytes that a recorded root hash stands for: each integer taken modulo
/// 256, or the decoded hexadecimal text.
pub open spec fn recorded_root_of(root: ManifestRoot) -> Option<Seq<u8>> {
    match root {
        ManifestRoot::Numbers(v) => Some(v@.map_values(|n: u64| (n % 256) as u8)),
        ManifestRoot::Hex(s) => if crate::hex_text::is_hex_text(s@) {
            Some(crate::hex_text::hex_bytes(s@))
        } else {
            None
        },
        ManifestRoot::Missing => None,
    }
}

/// Reads a recorded root hash (see `recorded_root_of`).
pub fn recorded_root(root: &ManifestRoot) -> (r: Option<Vec<u8>>)
    ensures
        r.is_some() == recorded_root_of(*root).is_some(),
        r.is_some() ==> r.unwrap()@ == recorded_root_of(*root).unwrap(),
{
    match root {
        ManifestRoot::Numbers(v) => {
            let mut out: Vec<u8> = Vec::new();
            let mut i: usize = 0;
            while i < v.len()
                invariant
                    i <= v@.len(),
                    out@ == v@.subrange(0, i as int).map_values(|n: u64| (n % 256) as u8),
                decreases v@.len() - i,
            {
                out.push((v[i] % 256) as u8);
                i = i + 1;
                assert(out@ =~= v@.subrange(0, i as int).map_values(|n: u64| (n % 256) as u8));
            }
            assert(v@.subrange(0, i as int) =~= v@);
            Some(out)
        },
        ManifestRoot::Hex(s) => crate::hex_text::hex_decode(s.as_str()),
        ManifestRoot::Missing => None,
    }
}

/// The boot gate: with no manifest the proxy starts; with one, it starts only
/// where the recorded root hash is byte-equal to the live one.
pub fn check_boot(live: &ProjectIdentity, manifest: Option<&ManifestRoot>) -> (r: Result<(), BootError>)
    ensures
        r.is_ok() <==> (manifest.is_none() || recorded_root_of(*manifest.unwrap()) == Some(
            live.root_hash@,
        )),
        r.is_err() ==> r == Err::<(), BootError>(BootError::IntegrityViolation),
{
    match manifest {
        None => Ok(()),
        Some(m) => match recorded_root(m) {
            Some(recorded) => {
                if bytes_equal(recorded.as_slice(), live.root_hash.as_slice()) {
                    Ok(())
                } else {
                    Err(BootError::IntegrityViolation)
                }
            },
            None => Err(BootError::IntegrityViolation),
        },
    }
}

/// A reply that the proxy sends to its client.
pub struct ProxyReply {
    pub status: u16,
    pub body: String,
}

/// The body of the reply to a request without a challenge.
pub open spec fn missing_challenge_body() -> Seq<char> {
    "Missing Required Header: X-OpenSeal-Wax"@
}

/// The hexadecimal blinded identity of a seal.
pub open spec fn sealed_a_hex(root: Seq<u8>, wax: Seq<char>) -> Seq<char> {
    hex_chars(a_hash_of(root, wax))
}

/// The hexadecimal result binding of a seal over a canonical result.
pub open spec fn sealed_b_hex(root: Seq<u8>, wax: Seq<char>, canonical: Seq<char>) -> Seq<char> {
    hex_chars(b_hash_of(a_hash_of(root, wax), wax, utf8(canonical)))
}

/// The payload that the proxy signs for a canonical result.
pub open spec fn sealed_payload(root: Seq<u8>, wax: Seq<char>, canonical: Seq<char>) -> Seq<char> {
    payload_of(
        wax,
        sealed_a_hex(root, wax),
        sealed_b_hex(root, wax, canonical),
        hex_chars(blake3_of(utf8(canonical))),
    )
}

/// The hexadecimal signature of a seal.
pub open spec fn sealed_signature_hex(secret: Seq<u8>, root: Seq<u8>, wax: Seq<char>, canonical: Seq<char>) -> Seq<char> {
    hex_chars(ed25519_signature_of(secret, utf8(sealed_payload(root, wax, canonical))))
}

/// The JSON object of a seal that discloses every field.
pub open spec fn full_seal_json(sig: Seq<char>, pk: Seq<char>, a: Seq<char>, b: Seq<char>) -> Seq<char> {
    "{"@ + json_quoted("signature"@) + ":"@ + json_quoted(sig) + ","@ + json_quoted(
        "pub_key"@,
    ) + ":"@ + json_quoted(pk) + ","@ + json_quoted("a_hash"@) + ":"@ + json_quoted(a)
        + ","@ + json_quoted("b_hash"@) + ":"@ + json_quoted(b) + "}"@
}

/// The envelope: the canonical result and the seal.
pub open spec fn envelope_of(canonical: Seq<char>, seal: Seq<char>) -> Seq<char> {
    "{\"result\":"@ + canonical + ",\"openseal\":"@ + seal + "}"@
}

/// The default limit on a request or response body: 10 MiB.
pub const MAX_BODY_BYTES: usize = 10485760;

/// The per-process state of the proxy. It does not change after boot.
pub struct ProxySession {
    /// Base URL of the wrapped application.
    pub target_url: String,
    /// The identity computed, and checked, at boot.
    pub identity: ProjectIdentity,
    /// The ephemeral 32-byte secret key; it is never sent anywhere.
    pub signing_key: Vec<u8>,
    /// The public half of the ephemeral signing key.
    pub public_key: Vec<u8>,
    /// The seal mode, read once at startup. Both modes disclose the key, `A`
    /// and `B`, which verification needs.
    pub mode: SealMode,
    /// The largest request or response body that is sealed.
    pub max_body_bytes: usize,
}

impl ProxySession {
    /// The ephemeral secret key.
    pub open spec fn secret(&self) -> Seq<u8> {
        self.signing_key@
    }

    /// A 32-byte root hash and secret key, and the public key that belongs to
    /// the secret.
    pub open spec fn wf(&self) -> bool {
        &&& self.identity.wf()
        &&& self.secret().len() == 32
        &&& self.public_key@ == ed25519_public_of(self.secret())
        &&& self.public_key@.len() == 32
    }

    /// Starts a session with a freshly drawn 32-byte secret key.
    pub fn new(target_url: String, identity: ProjectIdentity, signing_key: Vec<u8>, mode: SealMode) -> (r: ProxySession)
        requires
            identity.wf(),
            signing_key@.len() == 32,
        ensures
            r.wf(),
            r.secret() == signing_key@,
            r.target_url == target_url,
            r.identity == identity,
            r.mode == mode,
            r.max_body_bytes == MAX_BODY_BYTES,
    {
        let public_key = public_key(signing_key.as_slice());
        ProxySession {
            target_url,
            identity,
            signing_key,
            public_key,
            mode,
            max_body_bytes: MAX_BODY_BYTES,
        }
    }

    /// Whether a body of `len` bytes is within the limit.
    pub fn admits_body(&self, len: usize) -> (r: bool)
        ensures
            r == (len <= self.max_body_bytes),
    {
        len <= self.max_body_bytes
    }

    /// The reply to a body over the limit: `413`, and no seal.
    pub fn payload_too_large(&self) -> (r: ProxyReply)
        ensures
            r.status == 413,
            r.body@ == "Payload Too Large"@,
    {
        ProxyReply { status: 413, body: "Payload Too Large".to_owned() }
    }

    /// The challenge gate: a request with a challenge goes on to the wrapped
    /// application; one without is answered with `400`.
    pub fn receive(&self, wax_header: Option<String>) -> (r: Result<String, ProxyReply>)
        ensures
            wax_header.is_some() ==> r == Ok::<String, ProxyReply>(wax_header.unwrap()),
            wax_header.is_none() ==> r.is_err() && r->Err_0.status == 400 && r->Err_0.body@
                == missing_challenge_body(),
    {
        match wax_header {
            Some(w) => Ok(w),
            None => Err(
                ProxyReply {
                    status: 400,
                    body: "Missing Required Header: X-OpenSeal-Wax".to_owned(),
                },
            ),
        }
    }

    /// The URL that a request for `path` and `query` is forwarded to.
    pub fn forward_url(&self, path: &str, query: Option<&str>) -> (r: String)
        ensures
            r@ == self.target_url@ + path@ + (if query.is_some() {
                "?"@ + query.unwrap()@
            } else {
                Seq::empty()
            }),
    {
        let mut u = join2(self.target_url.as_str(), path);
        match query {
            Some(q) => {
                u.append("?");
                u.append(q);
            },
            None => {
                assert(u@ + Seq::<char>::empty() =~= u@);
            },
        }
        u
    }

    /// Seals an upstream body under a challenge: returns the canonical result
    /// text and the seal.
    pub fn seal_result(&self, wax: &str, body: &str) -> (r: (String, Seal))
        requires
            self.wf(),
        ensures
            r.0@ == canonical_of(body@),
            r.1.signature@ == sealed_signature_hex(
                self.secret(),
                self.identity.root_hash@,
                wax@,
                canonical_of(body@),
            ),
            r.1.pub_key.is_some() && r.1.pub_key.unwrap()@ == hex_chars(self.public_key@),
            r.1.a_hash.is_some() && r.1.a_hash.unwrap()@ == sealed_a_hex(self.identity.root_hash@, wax@),
            r.1.b_hash.is_some() && r.1.b_hash.unwrap()@ == sealed_b_hex(
                self.identity.root_hash@,
                wax@,
                canonical_of(body@),
            ),
            a_hash_of(self.identity.root_hash@, wax@).len() == 32,
            ed25519_signature_of(
                self.secret(),
                utf8(sealed_payload(self.identity.root_hash@, wax@, canonical_of(body@))),
            ).len() == 64,
    {
        let canonical = canonical_result(body);
        let bytes = canonical.as_str().as_bytes();
        let a = compute_a_hash(self.identity.root_hash.as_slice(), wax);
        let a_hex = hex_encode(a.as_slice());
        let b = compute_b_hash(a.as_slice(), wax, bytes);
        let b_hex = hex_encode(b.as_slice());
        let result_hash = blake3_digest(bytes);
        let result_hex = hex_encode(result_hash.as_slice());
        let payload = signature_payload(wax, a_hex.as_str(), b_hex.as_str(), result_hex.as_str());
        let sig = sign(self.signing_key.as_slice(), payload.as_str().as_bytes());
        let seal = Seal {
            signature: hex_encode(sig.as_slice()),
            pub_key: Some(hex_encode(self.public_key.as_slice())),
            a_hash: Some(a_hex),
            b_hash: Some(b_hex),
        };
        (canonical, seal)
    }

    /// The reply to a request that carries a challenge: `502` with the error
    /// text where the wrapped application failed, else `200` with the sealed
    /// envelope.
    pub fn respond(&self, wax: &str, upstream: Result<&str, &str>) -> (r: ProxyReply)
        requires
            self.wf(),
        ensures
            upstream.is_err() ==> r.status == 502 && r.body@ == "Internal Application Error: "@
                + upstream->Err_0@,
            upstream.is_ok() ==> {
                let root = self.identity.root_hash@;
                let canonical = canonical_of(upstream->Ok_0@);
                &&& r.status == 200
                &&& r.body@ == envelope_of(
                    canonical,
                    full_seal_json(
                        sealed_signature_hex(self.secret(), root, wax@, canonical),
                        hex_chars(self.public_key@),
                        sealed_a_hex(root, wax@),
                        sealed_b_hex(root, wax@, canonical),
                    ),
                )
            },
    {
        match upstream {
            Err(e) => ProxyReply { status: 502, body: join2("Internal Application Error: ", e) },
            Ok(body) => {
                let (canonical, seal) = self.seal_result(wax, body);
                let seal_text = seal.to_json();
                let mut out = "{\"result\":".to_owned();
                out.append(canonical.as_str());
                out.append(",\"openseal\":");
                out.append(seal_text.as_str());
                out.append("}");
                ProxyReply { status: 200, body: out }
            },
        }
    }

    /// The body of the identity endpoint, which publishes the bare root hash.
    pub fn identity_document(&self) -> (r: String)
        ensures
            r@ == "{\"identity\":{\"a_hash\":\""@ + hex_chars(self.identity.root_hash@)
                + "\",\"file_count\":"@ + decimal_chars(self.identity.file_count as nat)
                + "},\"service\":\"OpenSeal Runtime Identity\",\"status\":\"sealed\",\"version\":\"0.2.0\"}"@,
    {
        let mut out = "{\"identity\":{\"a_hash\":\"".to_owned();
        let h = hex_encode(self.identity.root_hash.as_slice());
        out.append(h.as_str());
        out.append("\",\"file_count\":");
        let n = decimal_text(self.identity.file_count);
        out.append(n.as_str());
        out.append(
            "},\"service\":\"OpenSeal Runtime Identity\",\"status\":\"sealed\",\"version\":\"0.2.0\"}",
        );
        out
    }
}

} // verus!
