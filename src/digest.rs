//! BLAKE3 digests, through the `blake3` crate.
use rayon::iter::IntoParallelRefIterator;
use rayon::iter::ParallelIterator;
use vstd::prelude::*;

verus! {

/// The BLAKE3 digest of a byte string.
pub uninterp spec fn blake3_of(data: Seq<u8>) -> Seq<u8>;

/// The BLAKE3 digest of a byte string under a 32-byte key.
pub uninterp spec fn blake3_keyed_of(key: Seq<u8>, data: Seq<u8>) -> Seq<u8>;

/// The UTF-8 bytes of a text.
pub open spec fn utf8(s: Seq<char>) -> Seq<u8> {
    vstd::utf8::encode_utf8(s)
}

/// Relies on blake3::hash: the 32-byte digest of the input, which depends on
/// the input alone.
#[verifier::external_body]
pub(crate) fn blake3_digest(data: &[u8]) -> (r: Vec<u8>)
    ensures
        r@ == blake3_of(data@),
        r@.len() == 32,
{
    blake3::hash(data).as_bytes().to_vec()
}

/// Relies on blake3::keyed_hash: the 32-byte keyed digest of the input, which
/// depends on the key and the input alone.
#[verifier::external_body]
pub(crate) fn blake3_keyed_digest(key: &[u8], data: &[u8]) -> (r: Vec<u8>)
    requires
        key@.len() == 32,
    ensures
        r@ == blake3_keyed_of(key@, data@),
        r@.len() == 32,
{
    let k: &[u8; 32] = key.try_into().unwrap();
    blake3::keyed_hash(k, data).as_bytes().to_vec()
}

/// Relies on rayon's indexed parallel map and collect, which keep the order of
/// their input: one digest per input, each computed by `compute_file_hash`.
#[verifier::external_body]
pub(crate) fn blake3_digest_all(inputs: &Vec<Vec<u8>>) -> (r: Vec<Vec<u8>>)
    ensures
        r@.len() == inputs@.len(),
        forall|i: int| 0 <= i < inputs@.len() ==> #[trigger] r@[i]@ == blake3_of(inputs@[i]@),
        forall|i: int| 0 <= i < inputs@.len() ==> #[trigger] r@[i]@.len() == 32,
{
    inputs.par_iter().map(|d| crate::identity::compute_file_hash(d)).collect()
}

/// Appends the bytes of `src` to `buf`.
pub(crate) fn append_bytes(buf: &mut Vec<u8>, src: &[u8])
    ensures
        final(buf)@ == old(buf)@ + src@,
{
    let mut i: usize = 0;
    while i < src.len()
        invariant
            i <= src@.len(),
            buf@ == old(buf)@ + src@.subrange(0, i as int),
        decreases src@.len() - i,
    {
        buf.push(src[i]);
        i = i + 1;
        assert(src@.subrange(0, i as int) =~= src@.subrange(0, i - 1 as int).push(src@[i - 1]));
    }
    assert(src@.subrange(0, i as int) =~= src@);
}

} // verus!
