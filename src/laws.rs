//! Laws that relate the functions of the library to one another.
use vstd::prelude::*;
use crate::digest::utf8;
use crate::hex_text::{hex_chars, lemma_hex_round_trip};
use crate::identity::{
    file_hash_input, file_hashes, identity_over, mutable_paths, path_keys, ProjectIdentity,
    ScannedFile,
};
use crate::json::canonical_of;
use crate::manifest::root_numbers;
use crate::order::{distinct_keys, is_sorted_order, lemma_sorted_order_unique, lists_index, path_le};
use crate::patterns::{is_mutable_path, patterns_of};
use crate::proxy::{
    recorded_root_of, sealed_a_hex, sealed_b_hex, sealed_payload, sealed_signature_hex,
    ManifestRoot, ProxySession,
};
use crate::seal::{a_hash_input, a_hash_of};
use crate::signing::{ed25519_signature_of, honestly_signed};
use crate::verify::{
    binding_holds, identity_holds, keys_decode, signed_text, well_formed, SealedResponse,
};

verus! {

/// `pi` lists each index below `n` exactly once.
pub open spec fn is_permutation(pi: Seq<usize>, n: nat) -> bool {
    &&& pi.len() == n
    &&& forall|k: int| 0 <= k < pi.len() ==> #[trigger] pi[k] < n
    &&& forall|k: int, l: int| 0 <= k < l < pi.len() ==> pi[k] != pi[l]
    &&& forall|i: int| 0 <= i < n ==> #[trigger] lists_index(pi, i)
}

proof fn lemma_mutable_paths_agree(
    f1: Seq<ScannedFile>,
    o1: Seq<usize>,
    f2: Seq<ScannedFile>,
    o2: Seq<usize>,
    p: Seq<Seq<u8>>,
)
    requires
        o1.len() == o2.len(),
        forall|k: int| 0 <= k < o1.len() ==> f1[#[trigger] o1[k] as int] == f2[o2[k] as int],
    ensures
        mutable_paths(f1, o1, p) == mutable_paths(f2, o2, p),
    decreases o1.len(),
{
    if o1.len() > 0 {
        lemma_mutable_paths_agree(f1, o1.drop_last(), f2, o2.drop_last(), p);
        assert(f1[o1.last() as int] == f2[o2.last() as int]);
    }
}

/// Fingerprinting is deterministic: two walks of one tree (its paths
/// distinct) that yield the same files in any two orders give identities with
/// the same root hash, file count and mutable files.
pub proof fn lemma_identity_deterministic(
    files1: Seq<ScannedFile>,
    files2: Seq<ScannedFile>,
    pi: Seq<usize>,
    config: Seq<u8>,
    id1: ProjectIdentity,
    ord1: Seq<usize>,
    id2: ProjectIdentity,
    ord2: Seq<usize>,
)
    requires
        is_permutation(pi, files1.len()),
        files2.len() == files1.len(),
        forall|i: int| 0 <= i < files2.len() ==> #[trigger] files2[i] == files1[pi[i] as int],
        distinct_keys(path_keys(files1)),
        is_sorted_order(path_keys(files1), ord1),
        is_sorted_order(path_keys(files2), ord2),
        identity_over(id1, files1, ord1, patterns_of(config)),
        identity_over(id2, files2, ord2, patterns_of(config)),
    ensures
        id1.root_hash@ == id2.root_hash@,
        id1.file_count == id2.file_count,
        id1.mutable_files@.map_values(|s: String| s@) == id2.mutable_files@.map_values(
            |s: String| s@,
        ),
{
    let keys1 = path_keys(files1);
    let keys2 = path_keys(files2);
    let n = files1.len();
    let via = Seq::new(ord2.len(), |k: int| pi[ord2[k] as int]);
    assert forall|k: int| 0 <= k < via.len() implies #[trigger] via[k] < keys1.len() by {
        assert(ord2[k] < n);
    }
    assert forall|k: int, l: int| 0 <= k < l < via.len() implies via[k] != via[l] by {
        assert(ord2[k] != ord2[l]);
        if ord2[k] < ord2[l] {
            assert(pi[ord2[k] as int] != pi[ord2[l] as int]);
        } else {
            assert(pi[ord2[l] as int] != pi[ord2[k] as int]);
        }
    }
    assert forall|i: int| 0 <= i < keys1.len() implies #[trigger] lists_index(via, i) by {
        assert(lists_index(pi, i));
        let j = choose|j: int| 0 <= j < pi.len() && pi[j] == i;
        assert(lists_index(ord2, j));
        let k = choose|k: int| 0 <= k < ord2.len() && ord2[k] == j;
        assert(via[k] == i);
    }
    assert forall|k: int, l: int| 0 <= k < l < via.len() implies path_le(
        #[trigger] keys1[via[k] as int],
        #[trigger] keys1[via[l] as int],
    ) by {
        assert(keys2[ord2[k] as int] == keys1[via[k] as int]);
        assert(keys2[ord2[l] as int] == keys1[via[l] as int]);
    }
    assert(is_sorted_order(keys1, via));
    lemma_sorted_order_unique(keys1, ord1, via);
    assert forall|k: int| 0 <= k < ord1.len() implies files1[#[trigger] ord1[k] as int]
        == files2[ord2[k] as int] by {
        assert(ord2[k] < n);
    }
    let p = patterns_of(config);
    assert forall|k: int| 0 <= k < ord1.len() implies #[trigger] file_hashes(files1, ord1, p)[k]
        == file_hashes(files2, ord2, p)[k] by {
        assert(files1[ord1[k] as int] == files2[ord2[k] as int]);
    }
    assert(file_hashes(files1, ord1, p) =~= file_hashes(files2, ord2, p));
    lemma_mutable_paths_agree(files1, ord1, files2, ord2, p);
}

proof fn lemma_mutable_paths_same(
    f1: Seq<ScannedFile>,
    f2: Seq<ScannedFile>,
    ord: Seq<usize>,
    p: Seq<Seq<u8>>,
)
    requires
        f1.len() == f2.len(),
        forall|i: int| 0 <= i < f1.len() ==> (#[trigger] f1[i]).path@ == f2[i].path@,
        forall|k: int| 0 <= k < ord.len() ==> #[trigger] ord[k] < f1.len(),
    ensures
        mutable_paths(f1, ord, p) == mutable_paths(f2, ord, p),
    decreases ord.len(),
{
    if ord.len() > 0 {
        lemma_mutable_paths_same(f1, f2, ord.drop_last(), p);
        assert(f1[ord.last() as int].path@ == f2[ord.last() as int].path@);
    }
}

/// The contents of a mutable file do not reach the fingerprint: two trees
/// with the same paths, whose immutable files have the same contents, have
/// the same root hash and mutable files.
pub proof fn lemma_mutable_contents_ignored(
    files1: Seq<ScannedFile>,
    files2: Seq<ScannedFile>,
    config: Seq<u8>,
    id1: ProjectIdentity,
    ord1: Seq<usize>,
    id2: ProjectIdentity,
    ord2: Seq<usize>,
)
    requires
        files1.len() == files2.len(),
        forall|i: int| 0 <= i < files1.len() ==> (#[trigger] files1[i]).path@ == files2[i].path@,
        forall|i: int|
            0 <= i < files1.len() && !is_mutable_path((#[trigger] files1[i]).path@, patterns_of(config))
                ==> files1[i].contents.is_some() == files2[i].contents.is_some() && (
            files1[i].contents.is_some() ==> files1[i].contents.unwrap()@
                == files2[i].contents.unwrap()@),
        distinct_keys(path_keys(files1)),
        is_sorted_order(path_keys(files1), ord1),
        is_sorted_order(path_keys(files2), ord2),
        identity_over(id1, files1, ord1, patterns_of(config)),
        identity_over(id2, files2, ord2, patterns_of(config)),
    ensures
        id1.root_hash@ == id2.root_hash@,
        id1.mutable_files@.map_values(|s: String| s@) == id2.mutable_files@.map_values(
            |s: String| s@,
        ),
{
    let p = patterns_of(config);
    assert(path_keys(files1) =~= path_keys(files2));
    lemma_sorted_order_unique(path_keys(files1), ord1, ord2);
    assert forall|k: int| 0 <= k < ord1.len() implies #[trigger] file_hashes(files1, ord1, p)[k]
        == file_hashes(files2, ord1, p)[k] by {
        let i = ord1[k] as int;
        assert(files1[i].path@ == files2[i].path@);
        assert(file_hash_input(files1[i], p) == file_hash_input(files2[i], p));
    }
    assert(file_hashes(files1, ord1, p) =~= file_hashes(files2, ord1, p));
    lemma_mutable_paths_same(files1, files2, ord1, p);
}

proof fn lemma_mutable_paths_members(files: Seq<ScannedFile>, o: Seq<usize>, p: Seq<Seq<u8>>)
    requires
        forall|k: int| 0 <= k < o.len() ==> #[trigger] o[k] < files.len(),
    ensures
        forall|k: int|
            0 <= k < o.len() && is_mutable_path(files[#[trigger] o[k] as int].path@, p)
                ==> mutable_paths(files, o, p).contains(files[o[k] as int].path@),
        forall|x: Seq<char>|
            #[trigger] mutable_paths(files, o, p).contains(x) ==> exists|k: int|
                0 <= k < o.len() && is_mutable_path(files[o[k] as int].path@, p) && files[#[trigger] o[k] as int].path@
                    == x,
    decreases o.len(),
{
    if o.len() > 0 {
        let rest = o.drop_last();
        lemma_mutable_paths_members(files, rest, p);
        let m = mutable_paths(files, rest, p);
        assert forall|k: int|
            0 <= k < o.len() && is_mutable_path(files[#[trigger] o[k] as int].path@, p)
                implies mutable_paths(files, o, p).contains(files[o[k] as int].path@) by {
            if k < o.len() - 1 {
                assert(rest[k] == o[k]);
                let i = choose|i: int| 0 <= i < m.len() && m[i] == files[o[k] as int].path@;
                assert(mutable_paths(files, o, p)[i] == m[i]);
            } else {
                let mp = mutable_paths(files, o, p);
                assert(mp[mp.len() - 1] == files[o[k] as int].path@);
            }
        }
        assert forall|x: Seq<char>| #[trigger] mutable_paths(files, o, p).contains(x) implies exists|
            k: int,
        |
            0 <= k < o.len() && is_mutable_path(files[o[k] as int].path@, p) && files[#[trigger] o[k] as int].path@
                == x by {
            let mp = mutable_paths(files, o, p);
            let i = choose|i: int| 0 <= i < mp.len() && mp[i] == x;
            if i < m.len() {
                assert(m.contains(x));
                let k = choose|k: int|
                    0 <= k < rest.len() && is_mutable_path(files[rest[k] as int].path@, p)
                        && files[rest[k] as int].path@ == x;
                assert(o[k] == rest[k]);
            } else {
                assert(o[o.len() - 1] == o.last());
            }
        }
    }
}

/// The paths that an identity lists as mutable.
pub open spec fn listed_paths(id: ProjectIdentity) -> Seq<Seq<char>> {
    id.mutable_files@.map_values(|s: String| s@)
}

/// The mutable files of an identity are exactly the files whose paths the
/// declarations match: each such file is listed, and each listed path is
/// one. The file count is the number of files.
pub proof fn lemma_mutable_files_listed(
    files: Seq<ScannedFile>,
    config: Seq<u8>,
    id: ProjectIdentity,
    ord: Seq<usize>,
)
    requires
        is_sorted_order(path_keys(files), ord),
        identity_over(id, files, ord, patterns_of(config)),
    ensures
        id.file_count == files.len(),
        forall|i: int|
            0 <= i < files.len() && is_mutable_path((#[trigger] files[i]).path@, patterns_of(config))
                ==> listed_paths(id).contains(files[i].path@),
        forall|x: Seq<char>|
            #[trigger] listed_paths(id).contains(x) ==> exists|i: int|
                0 <= i < files.len() && is_mutable_path((#[trigger] files[i]).path@, patterns_of(config))
                    && files[i].path@ == x,
{
    let p = patterns_of(config);
    lemma_mutable_paths_members(files, ord, p);
    assert forall|i: int|
        0 <= i < files.len() && is_mutable_path((#[trigger] files[i]).path@, p)
            implies listed_paths(id).contains(files[i].path@) by {
        assert(lists_index(ord, i));
        let k = choose|k: int| 0 <= k < ord.len() && ord[k] == i;
        assert(files[ord[k] as int] == files[i]);
    }
    assert forall|x: Seq<char>| #[trigger] listed_paths(id).contains(x)
        implies exists|i: int|
        0 <= i < files.len() && is_mutable_path((#[trigger] files[i]).path@, p) && files[i].path@
            == x by {
        let k = choose|k: int|
            0 <= k < ord.len() && is_mutable_path(files[ord[k] as int].path@, p) && files[ord[k] as int].path@
                == x;
        assert(files[ord[k] as int].path@ == x);
    }
}

/// Two different challenges are hashed from different inputs into their
/// blinded identities under one root hash.
pub proof fn lemma_blinded_inputs_differ(root: Seq<u8>, w1: Seq<char>, w2: Seq<char>)
    requires
        w1 != w2,
    ensures
        a_hash_input(root, w1) != a_hash_input(root, w2),
{
    let t = utf8("OPENSEAL_BLINDED_IDENTITY"@) + root;
    if a_hash_input(root, w1) == a_hash_input(root, w2) {
        assert(a_hash_input(root, w1) == t + utf8(w1));
        assert(a_hash_input(root, w2) == t + utf8(w2));
        assert((t + utf8(w1)).subrange(t.len() as int, (t + utf8(w1)).len() as int) =~= utf8(w1));
        assert((t + utf8(w2)).subrange(t.len() as int, (t + utf8(w2)).len() as int) =~= utf8(w2));
        vstd::utf8::encode_utf8_decode_utf8(w1);
        vstd::utf8::encode_utf8_decode_utf8(w2);
    }
}

/// A response sealed by the proxy passes the verifier's checks under the
/// challenge it was sealed with: its fields are well formed, its signature is
/// the session key's signature of the payload the verifier rebuilds, its
/// binding recomputes, and its blinded identity is that of the session's root
/// hash. The verifier may read the result back in any form with the same
/// canonical text. The two lengths required are those that
/// `ProxySession::seal_result` ensures of the seal it makes.
pub proof fn lemma_proxy_seal_verifies(s: ProxySession, wax: Seq<char>, body: Seq<char>, e: SealedResponse)
    requires
        s.wf(),
        a_hash_of(s.identity.root_hash@, wax).len() == 32,
        ed25519_signature_of(
            s.secret(),
            utf8(sealed_payload(s.identity.root_hash@, wax, canonical_of(body))),
        ).len() == 64,
        e.result.is_some() && canonical_of(e.result.unwrap()@) == canonical_of(body),
        e.signature.is_some() && e.signature.unwrap()@ == sealed_signature_hex(
            s.secret(),
            s.identity.root_hash@,
            wax,
            canonical_of(body),
        ),
        e.pub_key.is_some() && e.pub_key.unwrap()@ == hex_chars(s.public_key@),
        e.a_hash.is_some() && e.a_hash.unwrap()@ == sealed_a_hex(s.identity.root_hash@, wax),
        e.b_hash.is_some() && e.b_hash.unwrap()@ == sealed_b_hex(
            s.identity.root_hash@,
            wax,
            canonical_of(body),
        ),
    ensures
        well_formed(e),
        keys_decode(e),
        honestly_signed(
            crate::hex_text::hex_bytes(e.pub_key.unwrap()@),
            utf8(signed_text(e.result.unwrap()@, wax, e.a_hash.unwrap()@, e.b_hash.unwrap()@)),
            crate::hex_text::hex_bytes(e.signature.unwrap()@),
        ),
        binding_holds(e.result.unwrap()@, wax, e.a_hash.unwrap()@, e.b_hash.unwrap()@),
        identity_holds(s.identity.root_hash@, wax, e.a_hash.unwrap()@),
{
    let root = s.identity.root_hash@;
    let canon = canonical_of(body);
    let secret = s.secret();
    let sig = ed25519_signature_of(secret, utf8(sealed_payload(root, wax, canon)));
    lemma_hex_round_trip(s.public_key@);
    lemma_hex_round_trip(sig);
    lemma_hex_round_trip(a_hash_of(root, wax));
    assert(signed_text(e.result.unwrap()@, wax, e.a_hash.unwrap()@, e.b_hash.unwrap()@)
        == sealed_payload(root, wax, canon));
    assert(crate::signing::ed25519_public_of(secret) == s.public_key@);
}

/// The root hash that a manifest records, as integers or as hexadecimal text,
/// reads back as that root hash.
pub proof fn lemma_manifest_root_round_trip(root: Seq<u8>, numbers: Vec<u64>, text: String)
    requires
        numbers@ == root_numbers(root),
        text@ == hex_chars(root),
    ensures
        recorded_root_of(ManifestRoot::Numbers(numbers)) == Some(root),
        recorded_root_of(ManifestRoot::Hex(text)) == Some(root),
{
    assert(numbers@.map_values(|n: u64| (n % 256) as u8) =~= root);
    lemma_hex_round_trip(root);
}

} // verus!
