//! The mutable-file declarations: parsing, matching and the blacklist.
use vstd::prelude::*;
use crate::digest::utf8;
use crate::text::{bytes_end_with, bytes_equal, ends_with, text_ends_with};

verus! {

/// The byte strings held by a vector of byte vectors.
pub open spec fn views(v: Seq<Vec<u8>>) -> Seq<Seq<u8>> {
    v.map_values(|x: Vec<u8>| x@)
}

/// ASCII white space: tab, line feed, vertical tab, form feed, carriage
/// return and space (U+0009 to U+000D, U+0020).
pub open spec fn is_ascii_space(b: u8) -> bool {
    b == 32 || (9 <= b && b <= 13)
}

/// Whether three bytes are the UTF-8 form of a white-space character from
/// U+0800 on: U+1680, U+2000 to U+200A, U+2028, U+2029, U+202F, U+205F and
/// U+3000.
pub open spec fn is_wide_space(a: u8, b: u8, c: u8) -> bool {
    ||| (a == 0xE1 && b == 0x9A && c == 0x80)
    ||| (a == 0xE2 && b == 0x80 && ((0x80 <= c && c <= 0x8A) || c == 0xA8 || c == 0xA9 || c == 0xAF))
    ||| (a == 0xE2 && b == 0x81 && c == 0x9F)
    ||| (a == 0xE3 && b == 0x80 && c == 0x80)
}

/// The length in bytes of the white-space character that UTF-8 text starts
/// with, or 0. With `unicode` the white space is the Unicode White_Space set
/// (U+0009 to U+000D, U+0020, U+0085, U+00A0 and the wide characters of
/// `is_wide_space`); without, ASCII white space only.
pub open spec fn space_prefix_len(s: Seq<u8>, unicode: bool) -> int {
    if s.len() >= 1 && is_ascii_space(s[0]) {
        1
    } else if unicode && s.len() >= 2 && s[0] == 0xC2 && (s[1] == 0x85 || s[1] == 0xA0) {
        2
    } else if unicode && s.len() >= 3 && is_wide_space(s[0], s[1], s[2]) {
        3
    } else {
        0
    }
}

/// The length in bytes of the white-space character that UTF-8 text ends
/// with, or 0 (see `space_prefix_len`).
pub open spec fn space_suffix_len(s: Seq<u8>, unicode: bool) -> int {
    let n = s.len() as int;
    if n >= 1 && is_ascii_space(s[n - 1]) {
        1
    } else if unicode && n >= 2 && s[n - 2] == 0xC2 && (s[n - 1] == 0x85 || s[n - 1] == 0xA0) {
        2
    } else if unicode && n >= 3 && is_wide_space(s[n - 3], s[n - 2], s[n - 1]) {
        3
    } else {
        0
    }
}

/// The Unicode White_Space characters.
pub open spec fn is_white_space(c: char) -> bool {
    let n = c as u32;
    ||| (9 <= n && n <= 13)
    ||| n == 0x20
    ||| n == 0x85
    ||| n == 0xA0
    ||| n == 0x1680
    ||| (0x2000 <= n && n <= 0x200A)
    ||| n == 0x2028
    ||| n == 0x2029
    ||| n == 0x202F
    ||| n == 0x205F
    ||| n == 0x3000
}

proof fn lemma_ascii_space_byte(n: u32)
    by (bit_vector)
    requires
        n <= 0x7F,
    ensures
        (n & 0x7F) == n,
{
}

proof fn lemma_two_byte_spaces(n: u32)
    by (bit_vector)
    requires
        n == 0x85 || n == 0xA0,
    ensures
        (0xC0u8 | ((n >> 6) & 0x1F) as u8) == 0xC2u8,
        n == 0x85 ==> (0x80u8 | (n & 0x3F) as u8) == 0x85u8,
        n == 0xA0 ==> (0x80u8 | (n & 0x3F) as u8) == 0xA0u8,
{
}

proof fn lemma_general_punctuation_spaces(n: u32)
    by (bit_vector)
    requires
        0x2000 <= n <= 0x203F,
    ensures
        (0xE0u8 | ((n >> 12) & 0x0F) as u8) == 0xE2u8,
        (0x80u8 | ((n >> 6) & 0x3F) as u8) == 0x80u8,
        (0x80u8 | (n & 0x3F) as u8) == (n - 0x1F80) as u8,
{
}

proof fn lemma_other_wide_spaces(n: u32)
    by (bit_vector)
    requires
        n == 0x1680 || n == 0x205F || n == 0x3000,
    ensures
        n == 0x1680 ==> (0xE0u8 | ((n >> 12) & 0x0F) as u8) == 0xE1u8 && (0x80u8 | ((n >> 6)
            & 0x3F) as u8) == 0x9Au8 && (0x80u8 | (n & 0x3F) as u8) == 0x80u8,
        n == 0x205F ==> (0xE0u8 | ((n >> 12) & 0x0F) as u8) == 0xE2u8 && (0x80u8 | ((n >> 6)
            & 0x3F) as u8) == 0x81u8 && (0x80u8 | (n & 0x3F) as u8) == 0x9Fu8,
        n == 0x3000 ==> (0xE0u8 | ((n >> 12) & 0x0F) as u8) == 0xE3u8 && (0x80u8 | ((n >> 6)
            & 0x3F) as u8) == 0x80u8 && (0x80u8 | (n & 0x3F) as u8) == 0x80u8,
{
}

/// With `unicode`, the white space that `space_prefix_len` and
/// `space_suffix_len` recognise is that of the Unicode White_Space
/// characters: the UTF-8 form of each is recognised whole.
pub proof fn lemma_white_space_encodings(c: char)
    requires
        is_white_space(c),
    ensures
        space_prefix_len(utf8(seq![c]), true) == utf8(seq![c]).len(),
        space_suffix_len(utf8(seq![c]), true) == utf8(seq![c]).len(),
{
    let n = c as u32;
    let e = utf8(seq![c]);
    assert(seq![c].drop_first() =~= Seq::<char>::empty());
    assert(e == vstd::utf8::encode_scalar(n) + vstd::utf8::encode_utf8(Seq::<char>::empty()));
    assert(e =~= vstd::utf8::encode_scalar(n));
    if n <= 0x7F {
        lemma_ascii_space_byte(n);
    } else if n == 0x85 || n == 0xA0 {
        lemma_two_byte_spaces(n);
    } else if 0x2000 <= n <= 0x203F {
        lemma_general_punctuation_spaces(n);
    } else {
        lemma_other_wide_spaces(n);
    }
}

/// `s` without its leading white space.
pub open spec fn trim_start(s: Seq<u8>, unicode: bool) -> Seq<u8>
    decreases s.len(),
{
    if space_prefix_len(s, unicode) > 0 {
        trim_start(s.subrange(space_prefix_len(s, unicode), s.len() as int), unicode)
    } else {
        s
    }
}

/// `s` without its trailing white space.
pub open spec fn trim_end(s: Seq<u8>, unicode: bool) -> Seq<u8>
    decreases s.len(),
{
    if space_suffix_len(s, unicode) > 0 {
        trim_end(s.subrange(0, s.len() - space_suffix_len(s, unicode)), unicode)
    } else {
        s
    }
}

/// `s` without leading and trailing white space.
pub open spec fn trim(s: Seq<u8>, unicode: bool) -> Seq<u8> {
    trim_end(trim_start(s, unicode), unicode)
}

/// A trimmed line that declares something: not empty, and no comment.
pub open spec fn is_pattern_line(t: Seq<u8>) -> bool {
    t.len() > 0 && t[0] != 35
}

/// The declarations found so far, with one more line added.
pub open spec fn keep_line(found: Seq<Seq<u8>>, line: Seq<u8>, unicode: bool) -> Seq<Seq<u8>> {
    if is_pattern_line(trim(line, unicode)) {
        found.push(trim(line, unicode))
    } else {
        found
    }
}

/// Reading a file of declarations left to right: the declarations of the
/// finished lines and the line read so far.
pub open spec fn scan_lines(b: Seq<u8>, unicode: bool) -> (Seq<Seq<u8>>, Seq<u8>)
    decreases b.len(),
{
    if b.len() == 0 {
        (Seq::empty(), Seq::empty())
    } else {
        let (found, line) = scan_lines(b.drop_last(), unicode);
        if b.last() == 10 {
            (keep_line(found, line, unicode), Seq::empty())
        } else {
            (found, line.push(b.last()))
        }
    }
}

/// The declarations that a file holds: its lines, split at line feeds and
/// trimmed, without the empty ones and those starting with `#`.
pub open spec fn declared_lines(b: Seq<u8>, unicode: bool) -> Seq<Seq<u8>> {
    keep_line(scan_lines(b, unicode).0, scan_lines(b, unicode).1, unicode)
}

/// The patterns of a mutable-file declarations file: its lines trimmed of
/// Unicode white space.
pub open spec fn patterns_of(b: Seq<u8>) -> Seq<Seq<u8>> {
    declared_lines(b, true)
}

fn is_ascii_space_byte(b: u8) -> (r: bool)
    ensures
        r == is_ascii_space(b),
{
    b == 32 || (9 <= b && b <= 13)
}

fn is_wide_space_bytes(a: u8, b: u8, c: u8) -> (r: bool)
    ensures
        r == is_wide_space(a, b, c),
{
    (a == 0xE1 && b == 0x9A && c == 0x80) || (a == 0xE2 && b == 0x80 && ((0x80 <= c && c <= 0x8A)
        || c == 0xA8 || c == 0xA9 || c == 0xAF)) || (a == 0xE2 && b == 0x81 && c == 0x9F) || (a
        == 0xE3 && b == 0x80 && c == 0x80)
}

fn space_prefix_at(s: &[u8], at: usize, end: usize, unicode: bool) -> (r: usize)
    requires
        at <= end <= s@.len(),
    ensures
        r as int == space_prefix_len(s@.subrange(at as int, end as int), unicode),
        r <= end - at,
{
    let ghost t = s@.subrange(at as int, end as int);
    let n = end - at;
    if n >= 1 {
        assert(t[0] == s@[at as int]);
    }
    if n >= 2 {
        assert(t[1] == s@[at + 1]);
    }
    if n >= 3 {
        assert(t[2] == s@[at + 2]);
    }
    if n >= 1 && is_ascii_space_byte(s[at]) {
        1
    } else if unicode && n >= 2 && s[at] == 0xC2 && (s[at + 1] == 0x85 || s[at + 1] == 0xA0) {
        2
    } else if unicode && n >= 3 && is_wide_space_bytes(s[at], s[at + 1], s[at + 2]) {
        3
    } else {
        0
    }
}

fn space_suffix_at(s: &[u8], start: usize, end: usize, unicode: bool) -> (r: usize)
    requires
        start <= end <= s@.len(),
    ensures
        r as int == space_suffix_len(s@.subrange(start as int, end as int), unicode),
        r <= end - start,
{
    let ghost t = s@.subrange(start as int, end as int);
    let n = end - start;
    if n >= 1 {
        assert(t[n - 1] == s@[end - 1]);
    }
    if n >= 2 {
        assert(t[n - 2] == s@[end - 2]);
    }
    if n >= 3 {
        assert(t[n - 3] == s@[end - 3]);
    }
    if n >= 1 && is_ascii_space_byte(s[end - 1]) {
        1
    } else if unicode && n >= 2 && s[end - 2] == 0xC2 && (s[end - 1] == 0x85 || s[end - 1] == 0xA0) {
        2
    } else if unicode && n >= 3 && is_wide_space_bytes(s[end - 3], s[end - 2], s[end - 1]) {
        3
    } else {
        0
    }
}

/// Removes leading and trailing white space (see `trim`).
pub fn trim_bytes(s: &[u8], unicode: bool) -> (r: Vec<u8>)
    ensures
        r@ == trim(s@, unicode),
{
    let n = s.len();
    let mut start: usize = 0;
    assert(s@.subrange(0, n as int) =~= s@);
    let mut k = space_prefix_at(s, 0, n, unicode);
    while k > 0
        invariant
            n == s@.len(),
            start <= n,
            k as int == space_prefix_len(s@.subrange(start as int, n as int), unicode),
            k <= n - start,
            trim_start(s@, unicode) == trim_start(s@.subrange(start as int, n as int), unicode),
        decreases n - start,
    {
        assert(s@.subrange(start as int, n as int).subrange(k as int, n - start) =~= s@.subrange(
            start + k,
            n as int,
        ));
        start = start + k;
        k = space_prefix_at(s, start, n, unicode);
    }
    let mut end: usize = n;
    let mut k = space_suffix_at(s, start, end, unicode);
    while k > 0
        invariant
            n == s@.len(),
            start <= end <= n,
            k as int == space_suffix_len(s@.subrange(start as int, end as int), unicode),
            k <= end - start,
            trim(s@, unicode) == trim_end(s@.subrange(start as int, end as int), unicode),
        decreases end,
    {
        assert(s@.subrange(start as int, end as int).subrange(0, end - start - k) =~= s@.subrange(
            start as int,
            end - k,
        ));
        end = end - k;
        k = space_suffix_at(s, start, end, unicode);
    }
    copy_range(s, start, end)
}

fn keep_line_exec(found: &mut Vec<Vec<u8>>, line: &[u8], unicode: bool)
    ensures
        views(final(found)@) == keep_line(views(old(found)@), line@, unicode),
{
    let t = trim_bytes(line, unicode);
    if t.len() > 0 && t[0] != 35 {
        found.push(t);
        assert(views(found@) =~= views(old(found)@).push(trim(line@, unicode)));
    }
}

fn copy_range(b: &[u8], from: usize, to: usize) -> (r: Vec<u8>)
    requires
        from <= to <= b@.len(),
    ensures
        r@ == b@.subrange(from as int, to as int),
{
    let mut out: Vec<u8> = Vec::new();
    let mut i: usize = from;
    while i < to
        invariant
            from <= i <= to <= b@.len(),
            out@ == b@.subrange(from as int, i as int),
        decreases to - i,
    {
        out.push(b[i]);
        i = i + 1;
        assert(out@ =~= b@.subrange(from as int, i as int));
    }
    out
}

/// Parses a file of declarations into its trimmed lines (see
/// `declared_lines`).
pub fn parse_declared_lines(config: &[u8], unicode: bool) -> (r: Vec<Vec<u8>>)
    ensures
        views(r@) == declared_lines(config@, unicode),
{
    let n = config.len();
    let mut found: Vec<Vec<u8>> = Vec::new();
    let mut line_start: usize = 0;
    let mut i: usize = 0;
    while i < n
        invariant
            n == config@.len(),
            line_start <= i <= n,
            scan_lines(config@.subrange(0, i as int), unicode) == (
                views(found@),
                config@.subrange(line_start as int, i as int),
            ),
        decreases n - i,
    {
        let ghost prev = config@.subrange(0, i as int);
        assert(config@.subrange(0, i + 1 as int).drop_last() =~= prev);
        if config[i] == 10 {
            let line = copy_range(config, line_start, i);
            keep_line_exec(&mut found, line.as_slice(), unicode);
            line_start = i + 1;
            assert(config@.subrange(line_start as int, i + 1 as int) =~= Seq::<u8>::empty());
        } else {
            assert(config@.subrange(line_start as int, i + 1 as int) =~= config@.subrange(
                line_start as int,
                i as int,
            ).push(config@[i as int]));
        }
        i = i + 1;
    }
    assert(config@.subrange(0, n as int) =~= config@);
    let line = copy_range(config, line_start, n);
    keep_line_exec(&mut found, line.as_slice(), unicode);
    found
}

/// Parses the text of a mutable-file declarations file into its patterns
/// (see `patterns_of`).
pub fn parse_mutable_patterns(config: &str) -> (r: Vec<Vec<u8>>)
    ensures
        views(r@) == patterns_of(utf8(config@)),
{
    parse_declared_lines(config.as_bytes(), true)
}

/// A relative path matches a pattern where it equals it or ends with it.
pub open spec fn matches_pattern(path: Seq<u8>, pattern: Seq<u8>) -> bool {
    path == pattern || ends_with(path, pattern)
}

/// Whether a relative path is declared mutable by one of the patterns.
pub open spec fn is_mutable_path(path: Seq<char>, patterns: Seq<Seq<u8>>) -> bool {
    exists|j: int| 0 <= j < patterns.len() && matches_pattern(utf8(path), #[trigger] patterns[j])
}

/// Whether one of the patterns declares `path` mutable.
pub fn matches_mutable(path: &str, patterns: &Vec<Vec<u8>>) -> (r: bool)
    ensures
        r == is_mutable_path(path@, views(patterns@)),
{
    let p = path.as_bytes();
    let mut j: usize = 0;
    while j < patterns.len()
        invariant
            j <= patterns@.len(),
            p@ == utf8(path@),
            forall|k: int| 0 <= k < j ==> !matches_pattern(p@, #[trigger] views(patterns@)[k]),
        decreases patterns@.len() - j,
    {
        let q = patterns[j].as_slice();
        if bytes_equal(p, q) || bytes_end_with(p, q) {
            assert(matches_pattern(utf8(path@), views(patterns@)[j as int]));
            return true;
        }
        j = j + 1;
    }
    false
}

/// The lowercase form of a text.
pub uninterp spec fn lowercase_of(s: Seq<char>) -> Seq<char>;

/// Relies on str::to_lowercase: the Unicode lowercase mapping of the text,
/// which depends on the text alone.
#[verifier::external_body]
fn to_lowercase(s: &str) -> (r: String)
    ensures
        r@ == lowercase_of(s@),
{
    s.to_lowercase()
}

/// Whether a lowercase path ends in an extension of code or configuration.
pub open spec fn has_blacklisted_extension(lower: Seq<char>) -> bool {
    let b = utf8(lower);
    ||| ends_with(b, utf8(".rs"@))
    ||| ends_with(b, utf8(".js"@))
    ||| ends_with(b, utf8(".ts"@))
    ||| ends_with(b, utf8(".py"@))
    ||| ends_with(b, utf8(".go"@))
    ||| ends_with(b, utf8(".c"@))
    ||| ends_with(b, utf8(".cpp"@))
    ||| ends_with(b, utf8(".h"@))
    ||| ends_with(b, utf8(".hpp"@))
    ||| ends_with(b, utf8(".wasm"@))
    ||| ends_with(b, utf8(".sh"@))
    ||| ends_with(b, utf8(".bat"@))
    ||| ends_with(b, utf8(".cmd"@))
    ||| ends_with(b, utf8(".json"@))
    ||| ends_with(b, utf8(".toml"@))
    ||| ends_with(b, utf8(".yaml"@))
    ||| ends_with(b, utf8(".yml"@))
}

/// Whether a path may not be declared mutable: its lowercase form ends in a
/// blacklisted extension.
pub open spec fn is_forbidden_mutable(path: Seq<char>) -> bool {
    has_blacklisted_extension(lowercase_of(path))
}

/// Whether a lowercase path ends in an extension of code or configuration
/// (see `has_blacklisted_extension`).
pub fn blacklisted(lower: &str) -> (r: bool)
    ensures
        r == has_blacklisted_extension(lower@),
{
    text_ends_with(lower, ".rs") || text_ends_with(lower, ".js") || text_ends_with(lower, ".ts")
        || text_ends_with(lower, ".py") || text_ends_with(lower, ".go") || text_ends_with(
        lower,
        ".c",
    ) || text_ends_with(lower, ".cpp") || text_ends_with(lower, ".h") || text_ends_with(
        lower,
        ".hpp",
    ) || text_ends_with(lower, ".wasm") || text_ends_with(lower, ".sh") || text_ends_with(
        lower,
        ".bat",
    ) || text_ends_with(lower, ".cmd") || text_ends_with(lower, ".json") || text_ends_with(
        lower,
        ".toml",
    ) || text_ends_with(lower, ".yaml") || text_ends_with(lower, ".yml")
}

/// Whether a path may be declared mutable: false where its lowercase form
/// ends in an extension of code or configuration.
pub fn mutable_file_allowed(path: &str) -> (r: bool)
    ensures
        r == !is_forbidden_mutable(path@),
{
    let lower = to_lowercase(path);
    !blacklisted(lower.as_str())
}

} // verus!
