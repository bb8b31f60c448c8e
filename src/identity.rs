//! The project identity: a deterministic fingerprint of a file tree.
use vstd::prelude::*;
use crate::digest::{append_bytes, blake3_digest, blake3_digest_all, blake3_of, utf8};
use crate::order::{is_sorted_order, sort_order};
use crate::patterns::{
    is_forbidden_mutable, is_mutable_path, matches_mutable, mutable_file_allowed,
    parse_mutable_patterns, patterns_of, views,
};

verus! {

/// The fingerprint of a project tree.
pub struct ProjectIdentity {
    /// The 32-byte root hash.
    pub root_hash: Vec<u8>,
    /// How many files were fingerprinted.
    pub file_count: usize,
    /// The relative paths of the mutable files, in fingerprint order.
    pub mutable_files: Vec<String>,
}

impl ProjectIdentity {
    /// A root hash has 32 bytes.
    pub open spec fn wf(&self) -> bool {
        self.root_hash@.len() == 32
    }
}

/// A file that the tree walk yielded: its path relative to the root, with `/`
/// between components, and its contents, absent where they were not read
/// (a mutable file) or could not be read.
pub struct ScannedFile {
    pub path: String,
    pub contents: Option<Vec<u8>>,
}

/// Why a tree cannot be fingerprinted.
#[derive(Debug)]
pub enum IdentityError {
    /// A file with a code or configuration extension is declared mutable.
    SecurityViolation(String),
    /// The contents of an immutable file could not be read.
    IoError(String),
}

/// What is hashed for a file: the marker and its path where it is mutable,
/// its contents where it is not.
pub open spec fn file_hash_input(f: ScannedFile, patterns: Seq<Seq<u8>>) -> Seq<u8> {
    if is_mutable_path(f.path@, patterns) {
        utf8("MUTABLE_MARKER"@) + utf8(f.path@)
    } else {
        f.contents.unwrap()@
    }
}

/// A file can be fingerprinted: a mutable one has no forbidden extension, an
/// immutable one was read.
pub open spec fn file_accepted(f: ScannedFile, patterns: Seq<Seq<u8>>) -> bool {
    if is_mutable_path(f.path@, patterns) {
        !is_forbidden_mutable(f.path@)
    } else {
        f.contents.is_some()
    }
}

/// The byte strings joined in order.
pub open spec fn concat_all(h: Seq<Seq<u8>>) -> Seq<u8>
    decreases h.len(),
{
    if h.len() == 0 {
        Seq::empty()
    } else {
        concat_all(h.drop_last()) + h.last()
    }
}

/// The root hash over the per-file hashes in fingerprint order: the digest of
/// their concatenation, or of `EMPTY_PROJECT` where there are none.
pub open spec fn root_of(hashes: Seq<Seq<u8>>) -> Seq<u8> {
    if hashes.len() == 0 {
        blake3_of(utf8("EMPTY_PROJECT"@))
    } else {
        blake3_of(concat_all(hashes))
    }
}

/// The UTF-8 paths of the files, the keys that fix the fingerprint order.
pub open spec fn path_keys(files: Seq<ScannedFile>) -> Seq<Seq<u8>> {
    files.map_values(|f: ScannedFile| utf8(f.path@))
}

/// The per-file hashes, taken in the order `ord`.
pub open spec fn file_hashes(files: Seq<ScannedFile>, ord: Seq<usize>, patterns: Seq<Seq<u8>>) -> Seq<Seq<u8>> {
    Seq::new(ord.len(), |k: int| blake3_of(file_hash_input(files[ord[k] as int], patterns)))
}

/// The paths of the mutable files, taken in the order `ord`.
pub open spec fn mutable_paths(files: Seq<ScannedFile>, ord: Seq<usize>, patterns: Seq<Seq<u8>>) -> Seq<Seq<char>>
    decreases ord.len(),
{
    if ord.len() == 0 {
        Seq::empty()
    } else {
        let rest = mutable_paths(files, ord.drop_last(), patterns);
        let f = files[ord.last() as int];
        if is_mutable_path(f.path@, patterns) {
            rest.push(f.path@)
        } else {
            rest
        }
    }
}

/// `id` is the identity of the files fingerprinted in the order `ord`.
pub open spec fn identity_over(id: ProjectIdentity, files: Seq<ScannedFile>, ord: Seq<usize>, patterns: Seq<Seq<u8>>) -> bool {
    &&& id.root_hash@ == root_of(file_hashes(files, ord, patterns))
    &&& id.file_count == files.len()
    &&& id.mutable_files@.map_values(|s: String| s@) == mutable_paths(files, ord, patterns)
}

/// The hash of an immutable file: the digest of its contents.
pub fn compute_file_hash(contents: &[u8]) -> (r: Vec<u8>)
    ensures
        r@ == blake3_of(contents@),
        r@.len() == 32,
{
    blake3_digest(contents)
}

/// The hash of a mutable file: the digest of the marker and its relative
/// path. Its contents are not read.
pub fn compute_mutable_file_hash(rel_path: &str) -> (r: Vec<u8>)
    ensures
        r@ == blake3_of(utf8("MUTABLE_MARKER"@) + utf8(rel_path@)),
        r@.len() == 32,
{
    let mut buf: Vec<u8> = Vec::new();
    append_bytes(&mut buf, "MUTABLE_MARKER".as_bytes());
    append_bytes(&mut buf, rel_path.as_bytes());
    blake3_digest(buf.as_slice())
}

/// The root hash over per-file hashes (see `root_of`).
pub fn compute_merkle_root(hashes: &Vec<Vec<u8>>) -> (r: Vec<u8>)
    ensures
        r@ == root_of(views(hashes@)),
        r@.len() == 32,
{
    if hashes.len() == 0 {
        return blake3_digest("EMPTY_PROJECT".as_bytes());
    }
    let mut buf: Vec<u8> = Vec::new();
    let mut i: usize = 0;
    while i < hashes.len()
        invariant
            i <= hashes@.len(),
            buf@ == concat_all(views(hashes@).subrange(0, i as int)),
        decreases hashes@.len() - i,
    {
        append_bytes(&mut buf, hashes[i].as_slice());
        assert(views(hashes@).subrange(0, i + 1 as int).drop_last() =~= views(hashes@).subrange(
            0,
            i as int,
        ));
        i = i + 1;
    }
    assert(views(hashes@).subrange(0, i as int) =~= views(hashes@));
    blake3_digest(buf.as_slice())
}

/// Refuses a mutable file whose lowercase path ends in an extension of code
/// or configuration.
pub fn validate_mutable_file_security(path: &str) -> (r: Result<(), IdentityError>)
    ensures
        r.is_ok() == !is_forbidden_mutable(path@),
        r matches Err(IdentityError::SecurityViolation(p)) ==> p@ == path@,
        !(r matches Err(IdentityError::IoError(_))),
{
    if mutable_file_allowed(path) {
        Ok(())
    } else {
        Err(IdentityError::SecurityViolation(path.to_owned()))
    }
}

/// Checks that every file can be fingerprinted, in the order given.
fn check_files(files: &Vec<ScannedFile>, patterns: &Vec<Vec<u8>>) -> (r: Result<(), IdentityError>)
    ensures
        r.is_ok() <==> forall|i: int| 0 <= i < files@.len() ==> file_accepted(#[trigger] files@[i], views(patterns@)),
        r matches Err(IdentityError::SecurityViolation(p)) ==> exists|i: int|
            0 <= i < files@.len() && #[trigger] files@[i].path@ == p@ && is_mutable_path(p@, views(patterns@))
                && is_forbidden_mutable(p@),
        r matches Err(IdentityError::IoError(p)) ==> exists|i: int|
            0 <= i < files@.len() && #[trigger] files@[i].path@ == p@ && !is_mutable_path(p@, views(patterns@))
                && files@[i].contents.is_none(),
{
    let mut i: usize = 0;
    while i < files.len()
        invariant
            i <= files@.len(),
            forall|j: int| 0 <= j < i ==> file_accepted(#[trigger] files@[j], views(patterns@)),
        decreases files@.len() - i,
    {
        let f = &files[i];
        if matches_mutable(f.path.as_str(), patterns) {
            validate_mutable_file_security(f.path.as_str())?;
        } else if f.contents.is_none() {
            return Err(IdentityError::IoError(f.path.clone()));
        }
        i = i + 1;
    }
    Ok(())
}

/// Computes the identity of a tree from the files its walk yielded and the
/// text of its mutable-file declarations (empty where there are none or they
/// cannot be read as text).
///
/// Files are fingerprinted in path order. A mutable file is hashed by its
/// path, an immutable one by its contents; the root hash is the digest of the
/// per-file hashes. The computation fails where a mutable file has a code or
/// configuration extension, or an immutable file could not be read.
pub fn compute_project_identity(files: &Vec<ScannedFile>, mutable_config: &str) -> (r: Result<
    ProjectIdentity,
    IdentityError,
>)
    ensures
        r.is_ok() <==> forall|i: int|
            0 <= i < files@.len() ==> file_accepted(#[trigger] files@[i], patterns_of(utf8(mutable_config@))),
        r matches Err(IdentityError::SecurityViolation(p)) ==> exists|i: int|
            0 <= i < files@.len() && #[trigger] files@[i].path@ == p@ && is_mutable_path(
                p@,
                patterns_of(utf8(mutable_config@)),
            ) && is_forbidden_mutable(p@),
        r matches Err(IdentityError::IoError(p)) ==> exists|i: int|
            0 <= i < files@.len() && #[trigger] files@[i].path@ == p@ && !is_mutable_path(
                p@,
                patterns_of(utf8(mutable_config@)),
            ) && files@[i].contents.is_none(),
        (exists|i: int|
            0 <= i < files@.len() && is_mutable_path(#[trigger] files@[i].path@, patterns_of(utf8(mutable_config@)))
                && is_forbidden_mutable(files@[i].path@)) && (forall|i: int|
            0 <= i < files@.len() && !is_mutable_path(#[trigger] files@[i].path@, patterns_of(utf8(mutable_config@)))
                ==> files@[i].contents.is_some()) ==> r matches Err(IdentityError::SecurityViolation(_)),
        r.is_ok() ==> r.unwrap().wf() && exists|ord: Seq<usize>|
            is_sorted_order(path_keys(files@), ord) && #[trigger] identity_over(
                r.unwrap(),
                files@,
                ord,
                patterns_of(utf8(mutable_config@)),
            ),
{
    let patterns = parse_mutable_patterns(mutable_config);
    let ghost pats = views(patterns@);
    check_files(files, &patterns)?;

    let n = files.len();
    let mut keys: Vec<Vec<u8>> = Vec::new();
    let mut i: usize = 0;
    assert(keys@.map_values(|x: Vec<u8>| x@) =~= path_keys(files@).subrange(0, 0));
    while i < n
        invariant
            n == files@.len(),
            i <= n,
            keys@.len() == i,
            keys@.map_values(|x: Vec<u8>| x@) == path_keys(files@).subrange(0, i as int),
        decreases n - i,
    {
        let mut k: Vec<u8> = Vec::new();
        append_bytes(&mut k, files[i].path.as_str().as_bytes());
        assert(k@ == path_keys(files@)[i as int]);
        let ghost before = keys@;
        keys.push(k);
        assert forall|j: int| 0 <= j <= i implies #[trigger] keys@[j]@ == path_keys(files@)[j] by {
            if j < i {
                assert(keys@[j] == before[j]);
                assert(before.map_values(|x: Vec<u8>| x@)[j] == path_keys(files@).subrange(0, i as int)[j]);
            }
        }
        i = i + 1;
        assert(keys@.map_values(|x: Vec<u8>| x@) =~= path_keys(files@).subrange(0, i as int));
    }
    assert(path_keys(files@).subrange(0, n as int) =~= path_keys(files@));
    let ord = sort_order(&keys);

    let mut inputs: Vec<Vec<u8>> = Vec::new();
    let mut mutable_files: Vec<String> = Vec::new();
    let mut k: usize = 0;
    while k < n
        invariant
            n == files@.len(),
            pats == views(patterns@),
            pats == patterns_of(utf8(mutable_config@)),
            is_sorted_order(path_keys(files@), ord@),
            forall|j: int| 0 <= j < n ==> file_accepted(#[trigger] files@[j], pats),
            k <= n,
            inputs@.len() == k,
            forall|j: int|
                0 <= j < k ==> #[trigger] inputs@[j]@ == file_hash_input(files@[ord@[j] as int], pats),
            mutable_files@.map_values(|s: String| s@) == mutable_paths(
                files@,
                ord@.subrange(0, k as int),
                pats,
            ),
        decreases n - k,
    {
        let idx = ord[k];
        assert(idx < n);
        let f = &files[idx];
        assert(file_accepted(files@[idx as int], pats));
        let mut input: Vec<u8> = Vec::new();
        if matches_mutable(f.path.as_str(), &patterns) {
            append_bytes(&mut input, "MUTABLE_MARKER".as_bytes());
            append_bytes(&mut input, f.path.as_str().as_bytes());
            mutable_files.push(f.path.clone());
        } else {
            match &f.contents {
                Some(c) => append_bytes(&mut input, c.as_slice()),
                None => {},
            }
        }
        inputs.push(input);
        assert(ord@.subrange(0, k + 1 as int).drop_last() =~= ord@.subrange(0, k as int));
        k = k + 1;
        assert(mutable_files@.map_values(|s: String| s@) =~= mutable_paths(
            files@,
            ord@.subrange(0, k as int),
            pats,
        ));
    }
    let hashes = blake3_digest_all(&inputs);
    let root_hash = compute_merkle_root(&hashes);
    assert(ord@.subrange(0, n as int) =~= ord@);
    assert(views(hashes@) =~= file_hashes(files@, ord@, pats));
    let id = ProjectIdentity { root_hash, file_count: n, mutable_files };
    assert(identity_over(id, files@, ord@, pats));
    assert(is_sorted_order(path_keys(files@), ord@) && identity_over(id, files@, ord@, patterns_of(utf8(mutable_config@))));
    let r: Result<ProjectIdentity, IdentityError> = Ok(id);
    assert(r.unwrap().wf());
    assert(identity_over(r.unwrap(), files@, ord@, patterns_of(utf8(mutable_config@))));
    r
}

} // verus!
