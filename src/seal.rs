//! Seal primitives: the blinded identity `A`, the sealing key `g_B`, the result
//! binding `B`, the signed payload and the seal's JSON form.
use vstd::prelude::*;
use crate::digest::{append_bytes, blake3_digest, blake3_keyed_digest, blake3_keyed_of, blake3_of, utf8};
use crate::json::{json_quote, json_quoted};
use crate::text::join2;

verus! {

/// The bytes hashed for the blinded identity.
pub open spec fn a_hash_input(root: Seq<u8>, wax: Seq<char>) -> Seq<u8> {
    utf8("OPENSEAL_BLINDED_IDENTITY"@) + root + utf8(wax)
}

/// The blinded identity `A` of a root hash under a challenge.
pub open spec fn a_hash_of(root: Seq<u8>, wax: Seq<char>) -> Seq<u8> {
    blake3_of(a_hash_input(root, wax))
}

/// Computes the blinded identity `A = BLAKE3(tag || root || wax)`.
pub fn compute_a_hash(project_root: &[u8], wax: &str) -> (r: Vec<u8>)
    ensures
        r@ == a_hash_of(project_root@, wax@),
        r@.len() == 32,
{
    let mut buf: Vec<u8> = Vec::new();
    append_bytes(&mut buf, "OPENSEAL_BLINDED_IDENTITY".as_bytes());
    append_bytes(&mut buf, project_root);
    append_bytes(&mut buf, wax.as_bytes());
    blake3_digest(buf.as_slice())
}

/// The challenge bytes as stage one of `g_B` absorbs them: byte `i` of `L`
/// becomes `b_i * ((7 i) mod 256) + (L mod 256)`, modulo 256.
pub open spec fn mixed_wax(w: Seq<u8>) -> Seq<u8> {
    Seq::new(w.len(), |i: int| ((w[i] * ((i * 7) % 256) + w.len() % 256) % 256) as u8)
}

/// Stage one of `g_B`.
pub open spec fn stage1_of(a: Seq<u8>, w: Seq<u8>) -> Seq<u8> {
    blake3_of(utf8("OPENSEAL_GB_V2_STAGE1"@) + a + mixed_wax(w))
}

/// The cross hash of `g_B`.
pub open spec fn cross_of(a: Seq<u8>, w: Seq<u8>) -> Seq<u8> {
    blake3_of(w + a)
}

/// Stage two of `g_B`.
pub open spec fn stage2_of(a: Seq<u8>, w: Seq<u8>) -> Seq<u8> {
    blake3_of(utf8("OPENSEAL_GB_V2_STAGE2"@) + stage1_of(a, w) + cross_of(a, w))
}

/// The sealing key `g_B(A, wax)`: byte `i` is `(A[i] + S[i]) xor C[31 - i]`.
pub open spec fn sealing_key_of(a: Seq<u8>, wax: Seq<char>) -> Seq<u8> {
    Seq::new(
        32,
        |i: int|
            (((a[i] + stage2_of(a, utf8(wax))[i]) % 256) as u8) ^ cross_of(a, utf8(wax))[31 - i],
    )
}

/// The result binding `B` of a canonical result under `A` and a challenge.
pub open spec fn b_hash_of(a: Seq<u8>, wax: Seq<char>, result: Seq<u8>) -> Seq<u8> {
    blake3_keyed_of(sealing_key_of(a, wax), result)
}

fn mix_wax(w: &[u8]) -> (r: Vec<u8>)
    ensures
        r@ == mixed_wax(w@),
{
    let n: usize = w.len();
    let len_mod: u32 = (n % 256) as u32;
    let mut out: Vec<u8> = Vec::new();
    let mut i: usize = 0;
    while i < n
        invariant
            n == w@.len(),
            i <= n,
            len_mod == n % 256,
            out@.len() == i,
            forall|j: int| 0 <= j < i ==> #[trigger] out@[j] == mixed_wax(w@)[j],
        decreases n - i,
    {
        let salt: u32 = ((i % 256) as u32 * 7) % 256;
        assert(salt == (i * 7) % 256) by (nonlinear_arith)
            requires
                salt == ((i % 256) * 7) % 256,
        {
            assert(i == 256 * (i / 256) + i % 256);
            assert(i * 7 == 256 * (7 * (i / 256)) + (i % 256) * 7);
        }
        let b: u32 = w[i] as u32;
        assert(b * salt <= 255 * 255) by (nonlinear_arith)
            requires
                b <= 255,
                salt <= 255,
        ;
        let m: u8 = ((b * salt + len_mod) % 256) as u8;
        out.push(m);
        i = i + 1;
    }
    assert(out@ =~= mixed_wax(w@));
    out
}

/// Derives the sealing key `g_B(A, wax)` in four stages: a hash over a tag,
/// `A` and the mixed challenge bytes; a cross hash of the challenge and `A`; a
/// hash over a second tag and both; and a byte-wise mix of the three.
pub fn derive_sealing_key_hardened(a_hash: &[u8], wax: &str) -> (r: Vec<u8>)
    requires
        a_hash@.len() == 32,
    ensures
        r@ == sealing_key_of(a_hash@, wax@),
        r@.len() == 32,
{
    let w = wax.as_bytes();
    let mut s1: Vec<u8> = Vec::new();
    append_bytes(&mut s1, "OPENSEAL_GB_V2_STAGE1".as_bytes());
    append_bytes(&mut s1, a_hash);
    let mixed = mix_wax(w);
    append_bytes(&mut s1, mixed.as_slice());
    let intermediate = blake3_digest(s1.as_slice());

    let mut c: Vec<u8> = Vec::new();
    append_bytes(&mut c, w);
    append_bytes(&mut c, a_hash);
    let cross = blake3_digest(c.as_slice());

    let mut s2: Vec<u8> = Vec::new();
    append_bytes(&mut s2, "OPENSEAL_GB_V2_STAGE2".as_bytes());
    append_bytes(&mut s2, intermediate.as_slice());
    append_bytes(&mut s2, cross.as_slice());
    let stage2 = blake3_digest(s2.as_slice());

    let mut key: Vec<u8> = Vec::new();
    let mut i: usize = 0;
    while i < 32
        invariant
            a_hash@.len() == 32,
            stage2@ == stage2_of(a_hash@, utf8(wax@)),
            cross@ == cross_of(a_hash@, utf8(wax@)),
            stage2@.len() == 32,
            cross@.len() == 32,
            i <= 32,
            key@.len() == i,
            forall|j: int| 0 <= j < i ==> #[trigger] key@[j] == sealing_key_of(a_hash@, wax@)[j],
        decreases 32 - i,
    {
        let sum: u8 = ((a_hash[i] as u16 + stage2[i] as u16) % 256) as u8;
        key.push(sum ^ cross[31 - i]);
        i = i + 1;
    }
    assert(key@ =~= sealing_key_of(a_hash@, wax@));
    key
}

/// Computes the result binding `B = BLAKE3_KEYED(g_B(A, wax), result)`.
pub fn compute_b_hash(a_hash: &[u8], wax: &str, result: &[u8]) -> (r: Vec<u8>)
    requires
        a_hash@.len() == 32,
    ensures
        r@ == b_hash_of(a_hash@, wax@, result@),
        r@.len() == 32,
{
    let key = derive_sealing_key_hardened(a_hash, wax);
    blake3_keyed_digest(key.as_slice(), result)
}

/// The signed payload: the challenge and three hexadecimal texts, joined
/// without separator.
pub open spec fn payload_of(wax: Seq<char>, a_hex: Seq<char>, b_hex: Seq<char>, result_hex: Seq<char>) -> Seq<char> {
    wax + a_hex + b_hex + result_hex
}

/// Builds the signed payload (see `payload_of`).
pub fn signature_payload(wax: &str, a_hex: &str, b_hex: &str, result_hex: &str) -> (r: String)
    ensures
        r@ == payload_of(wax@, a_hex@, b_hex@, result_hex@),
{
    let mut p = join2(wax, a_hex);
    p.append(b_hex);
    p.append(result_hex);
    p
}

/// What a seal discloses besides its signature.
#[derive(Clone, Copy, Debug, PartialEq, Eq, Structural)]
pub enum SealMode {
    /// Every seal field is disclosed.
    Development,
    /// The signature-centric mode; the fields needed for verification stay.
    Production,
}

impl SealMode {
    /// The mode that the value of `OPENSEAL_MODE` selects: `"production"`
    /// selects production, any other value or none selects development.
    pub fn from_env(value: Option<&str>) -> (r: SealMode)
        ensures
            r == (if value.is_some() && value.unwrap()@ == "production"@ {
                SealMode::Production
            } else {
                SealMode::Development
            }),
    {
        match value {
            Some(v) => {
                if crate::text::text_equal(v, "production") {
                    SealMode::Production
                } else {
                    SealMode::Development
                }
            },
            None => SealMode::Development,
        }
    }
}

/// The seal attached to a response.
pub struct Seal {
    pub signature: String,
    pub pub_key: Option<String>,
    pub a_hash: Option<String>,
    pub b_hash: Option<String>,
}

/// One optional member of a JSON object, preceded by a comma, or nothing.
pub open spec fn optional_member(key: Seq<char>, value: Option<String>) -> Seq<char> {
    match value {
        Some(v) => ","@ + json_quoted(key) + ":"@ + json_quoted(v@),
        None => Seq::empty(),
    }
}

/// The JSON object of a seal; absent fields are left out.
pub open spec fn seal_json(s: Seal) -> Seq<char> {
    "{"@ + json_quoted("signature"@) + ":"@ + json_quoted(s.signature@) + optional_member(
        "pub_key"@,
        s.pub_key,
    ) + optional_member("a_hash"@, s.a_hash) + optional_member("b_hash"@, s.b_hash) + "}"@
}

fn push_member(out: &mut String, key: &str, value: &Option<String>)
    ensures
        final(out)@ == old(out)@ + optional_member(key@, *value),
{
    match value {
        Some(v) => {
            out.append(",");
            let k = json_quote(key);
            out.append(k.as_str());
            out.append(":");
            let q = json_quote(v.as_str());
            out.append(q.as_str());
        },
        None => {
            assert(old(out)@ + Seq::<char>::empty() =~= old(out)@);
        },
    }
}

impl Seal {
    /// The seal as a JSON object (see `seal_json`).
    pub fn to_json(&self) -> (r: String)
        ensures
            r@ == seal_json(*self),
    {
        let mut out = "{".to_owned();
        let k = json_quote("signature");
        out.append(k.as_str());
        out.append(":");
        let q = json_quote(self.signature.as_str());
        out.append(q.as_str());
        push_member(&mut out, "pub_key", &self.pub_key);
        push_member(&mut out, "a_hash", &self.a_hash);
        push_member(&mut out, "b_hash", &self.b_hash);
        out.append("}");
        out
    }
}

} // verus!
