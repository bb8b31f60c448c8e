//! Decisions of the build and boot steps about the project directory: whether
//! it looks like a project, which dependency directories it has, and the
//! ignore rules it needs.
use vstd::prelude::*;
use crate::digest::utf8;
use crate::patterns::{declared_lines, parse_declared_lines, trim, trim_bytes, views};
use crate::text::{bytes_equal, text_equal};

verus! {

/// An entry of a directory, as listed: its name, and whether it is a symbolic
/// link.
pub struct DirEntry {
    pub name: String,
    pub is_symlink: bool,
}

/// Whether a directory holds an entry of this name.
pub open spec fn has_entry(entries: Seq<DirEntry>, name: Seq<char>) -> bool {
    exists|i: int| 0 <= i < entries.len() && (#[trigger] entries[i]).name@ == name
}

/// Whether a directory holds an entry of this name that is no symbolic link.
pub open spec fn has_own_entry(entries: Seq<DirEntry>, name: Seq<char>) -> bool {
    exists|i: int| 0 <= i < entries.len() && (#[trigger] entries[i]).name@ == name && !entries[i].is_symlink
}

fn find_entry(entries: &Vec<DirEntry>, name: &str) -> (r: (bool, bool))
    ensures
        r.0 == has_entry(entries@, name@),
        r.1 == has_own_entry(entries@, name@),
{
    let mut found = false;
    let mut own = false;
    let mut i: usize = 0;
    while i < entries.len()
        invariant
            i <= entries@.len(),
            found == exists|j: int| 0 <= j < i && (#[trigger] entries@[j]).name@ == name@,
            own == exists|j: int|
                0 <= j < i && (#[trigger] entries@[j]).name@ == name@ && !entries@[j].is_symlink,
        decreases entries@.len() - i,
    {
        if text_equal(entries[i].name.as_str(), name) {
            found = true;
            if !entries[i].is_symlink {
                own = true;
            }
        }
        i = i + 1;
    }
    (found, own)
}

/// A directory looks like a project where it holds one of the usual project
/// files or directories.
pub open spec fn looks_like_project(entries: Seq<DirEntry>) -> bool {
    ||| has_entry(entries, "package.json"@)
    ||| has_entry(entries, "Cargo.toml"@)
    ||| has_entry(entries, "requirements.txt"@)
    ||| has_entry(entries, "pyproject.toml"@)
    ||| has_entry(entries, "go.mod"@)
    ||| has_entry(entries, "composer.json"@)
    ||| has_entry(entries, "Gemfile"@)
    ||| has_entry(entries, ".git"@)
    ||| has_entry(entries, ".opensealignore"@)
}

/// Whether the directory whose entries are given looks like a project root.
pub fn is_project_root(entries: &Vec<DirEntry>) -> (r: bool)
    ensures
        r == looks_like_project(entries@),
{
    find_entry(entries, "package.json").0 || find_entry(entries, "Cargo.toml").0 || find_entry(
        entries,
        "requirements.txt",
    ).0 || find_entry(entries, "pyproject.toml").0 || find_entry(entries, "go.mod").0
        || find_entry(entries, "composer.json").0 || find_entry(entries, "Gemfile").0
        || find_entry(entries, ".git").0 || find_entry(entries, ".opensealignore").0
}

/// The kind of project found, and whether its dependencies are installed.
#[derive(Clone, Copy, Debug, PartialEq, Eq, Structural)]
pub enum DepInfo {
    NodeJs { exists: bool },
    Python { exists: bool },
}

/// The dependencies that a directory's entries show.
pub open spec fn dependencies_of(entries: Seq<DirEntry>) -> Option<DepInfo> {
    if has_entry(entries, "package.json"@) {
        Some(DepInfo::NodeJs { exists: has_own_entry(entries, "node_modules"@) })
    } else if has_entry(entries, "requirements.txt"@) {
        Some(
            DepInfo::Python {
                exists: has_own_entry(entries, "venv"@) || has_own_entry(entries, ".venv"@),
            },
        )
    } else {
        None
    }
}

/// Detects a Node.js project (by `package.json`) or else a Python project
/// (by `requirements.txt`), and whether its dependency directory is present
/// as a real directory rather than a link.
pub fn detect_dependencies(entries: &Vec<DirEntry>) -> (r: Option<DepInfo>)
    ensures
        r == dependencies_of(entries@),
{
    if find_entry(entries, "package.json").0 {
        Some(DepInfo::NodeJs { exists: find_entry(entries, "node_modules").1 })
    } else if find_entry(entries, "requirements.txt").0 {
        let venv = find_entry(entries, "venv").1;
        let dot_venv = find_entry(entries, ".venv").1;
        Some(DepInfo::Python { exists: venv || dot_venv })
    } else {
        None
    }
}

/// What the runtime does about dependencies before it starts.
#[derive(Clone, Copy, Debug, PartialEq, Eq, Structural)]
pub enum DepAction {
    /// Link the given dependency directory as `node_modules`.
    LinkHint,
    /// The given dependency directory is linked already.
    UseExisting,
    /// Install the dependencies of the detected project.
    Install(DepInfo),
    /// Nothing to do.
    Nothing,
}

/// The dependency plan: a given directory that exists is linked unless the
/// link is there; otherwise a detected project whose dependencies are missing
/// gets them installed.
pub open spec fn dependency_plan(hint_is_dir: bool, link_present: bool, detected: Option<DepInfo>) -> DepAction {
    if hint_is_dir {
        if link_present {
            DepAction::UseExisting
        } else {
            DepAction::LinkHint
        }
    } else {
        match detected {
            Some(DepInfo::NodeJs { exists }) => if exists {
                DepAction::Nothing
            } else {
                DepAction::Install(detected.unwrap())
            },
            Some(DepInfo::Python { exists }) => if exists {
                DepAction::Nothing
            } else {
                DepAction::Install(detected.unwrap())
            },
            None => DepAction::Nothing,
        }
    }
}

/// Plans the dependency step (see `dependency_plan`).
pub fn plan_dependencies(hint_is_dir: bool, link_present: bool, detected: Option<DepInfo>) -> (r: DepAction)
    ensures
        r == dependency_plan(hint_is_dir, link_present, detected),
{
    if hint_is_dir {
        if link_present {
            DepAction::UseExisting
        } else {
            DepAction::LinkHint
        }
    } else {
        match detected {
            Some(d) => match d {
                DepInfo::NodeJs { exists } => if exists {
                    DepAction::Nothing
                } else {
                    DepAction::Install(d)
                },
                DepInfo::Python { exists } => if exists {
                    DepAction::Nothing
                } else {
                    DepAction::Install(d)
                },
            },
            None => DepAction::Nothing,
        }
    }
}

/// Whether an answer to a yes/no prompt is yes: trimmed of Unicode white
/// space, it starts with `y` or `Y`, or is empty where the prompt defaults to
/// yes.
pub open spec fn answer_yes(answer: Seq<u8>, default_yes: bool) -> bool {
    let t = trim(answer, true);
    if t.len() == 0 {
        default_yes
    } else {
        t[0] == 121 || t[0] == 89
    }
}

/// Reads an answer to a yes/no prompt (see `answer_yes`).
pub fn answer_is_yes(answer: &str, default_yes: bool) -> (r: bool)
    ensures
        r == answer_yes(utf8(answer@), default_yes),
{
    let t = trim_bytes(answer.as_bytes(), true);
    if t.len() == 0 {
        default_yes
    } else {
        t[0] == 121 || t[0] == 89
    }
}

/// The dependency directories that a build links: the one given, or the usual
/// ones.
pub fn dependency_candidates(explicit: Option<String>) -> (r: Vec<String>)
    ensures
        explicit.is_some() ==> r@.map_values(|s: String| s@) == seq![explicit.unwrap()@],
        explicit.is_none() ==> r@.map_values(|s: String| s@) == seq![
            "node_modules"@,
            "venv"@,
            ".venv"@,
            "env"@,
        ],
{
    let mut v: Vec<String> = Vec::new();
    match explicit {
        Some(d) => {
            v.push(d);
        },
        None => {
            v.push("node_modules".to_owned());
            v.push("venv".to_owned());
            v.push(".venv".to_owned());
            v.push("env".to_owned());
        },
    }
    assert(v@.map_values(|s: String| s@) =~= (if explicit.is_some() {
        seq![explicit.unwrap()@]
    } else {
        seq!["node_modules"@, "venv"@, ".venv"@, "env"@]
    }));
    v
}

/// `s` without its trailing `/` bytes.
pub open spec fn strip_slashes(s: Seq<u8>) -> Seq<u8>
    decreases s.len(),
{
    if s.len() > 0 && s.last() == 47 {
        strip_slashes(s.drop_last())
    } else {
        s
    }
}

fn strip_trailing_slashes(s: &[u8]) -> (r: Vec<u8>)
    ensures
        r@ == strip_slashes(s@),
{
    let mut end: usize = s.len();
    assert(s@.subrange(0, end as int) =~= s@);
    while end > 0 && s[end - 1] == 47
        invariant
            end <= s@.len(),
            strip_slashes(s@) == strip_slashes(s@.subrange(0, end as int)),
        decreases end,
    {
        assert(s@.subrange(0, end as int).drop_last() =~= s@.subrange(0, end - 1 as int));
        end = end - 1;
    }
    let mut out: Vec<u8> = Vec::new();
    let mut i: usize = 0;
    while i < end
        invariant
            end <= s@.len(),
            i <= end,
            out@ == s@.subrange(0, i as int),
        decreases end - i,
    {
        out.push(s[i]);
        i = i + 1;
        assert(out@ =~= s@.subrange(0, i as int));
    }
    out
}

/// The ignore rule for an output directory: its name without trailing `/`,
/// then one `/`.
pub open spec fn output_rule_of(output: Seq<u8>) -> Seq<u8> {
    strip_slashes(output).push(47)
}

/// The rules of an ignore file: its lines trimmed of ASCII white space, as
/// ignore files treat them, without the empty ones and the comments.
pub open spec fn ignore_rules_of(rules: Seq<u8>) -> Seq<Seq<u8>> {
    declared_lines(rules, false)
}

/// Whether the ignore rules already name the output directory, with or
/// without its trailing `/`.
pub open spec fn covers_output(rules: Seq<u8>, output: Seq<u8>) -> bool {
    exists|j: int|
        0 <= j < ignore_rules_of(rules).len() && (#[trigger] ignore_rules_of(rules)[j] == output_rule_of(output)
            || ignore_rules_of(rules)[j] == strip_slashes(output))
}

/// The ignore rule for an output directory (see `output_rule_of`).
pub fn output_ignore_rule(output: &str) -> (r: Vec<u8>)
    ensures
        r@ == output_rule_of(utf8(output@)),
{
    let mut r = strip_trailing_slashes(output.as_bytes());
    r.push(47);
    r
}

/// Whether the ignore rules already exclude the output directory (see
/// `covers_output`).
pub fn ignore_covers_output(rules: &[u8], output: &str) -> (r: bool)
    ensures
        r == covers_output(rules@, utf8(output@)),
{
    let patterns = parse_declared_lines(rules, false);
    let rule = output_ignore_rule(output);
    let bare = strip_trailing_slashes(output.as_bytes());
    let mut j: usize = 0;
    while j < patterns.len()
        invariant
            j <= patterns@.len(),
            views(patterns@) == ignore_rules_of(rules@),
            rule@ == output_rule_of(utf8(output@)),
            bare@ == strip_slashes(utf8(output@)),
            forall|k: int|
                0 <= k < j ==> !(#[trigger] ignore_rules_of(rules@)[k] == rule@ || ignore_rules_of(rules@)[k]
                    == bare@),
        decreases patterns@.len() - j,
    {
        let p = patterns[j].as_slice();
        assert(p@ == ignore_rules_of(rules@)[j as int]);
        if bytes_equal(p, rule.as_slice()) || bytes_equal(p, bare.as_slice()) {
            return true;
        }
        j = j + 1;
    }
    false
}

/// Whether `needle` occurs in `hay`.
pub open spec fn contains_bytes(hay: Seq<u8>, needle: Seq<u8>) -> bool {
    exists|i: int| 0 <= i <= hay.len() - needle.len() && #[trigger] hay.subrange(i, i + needle.len()) == needle
}

/// Whether the ignore rules mention the manifest file; where they do not, the
/// build adds a rule for it.
pub fn ignore_mentions_manifest(rules: &[u8]) -> (r: bool)
    ensures
        r == contains_bytes(rules@, utf8("openseal.json"@)),
{
    let needle = "openseal.json".as_bytes();
    if needle.len() > rules.len() {
        return false;
    }
    let last: usize = rules.len() - needle.len();
    let mut i: usize = 0;
    while i <= last
        invariant
            last + needle@.len() == rules@.len(),
            rules@.len() <= usize::MAX,
            i <= last + 1,
            needle@ == utf8("openseal.json"@),
            forall|k: int| 0 <= k < i ==> #[trigger] rules@.subrange(k, k + needle@.len()) != needle@,
        decreases last + 1 - i,
    {
        let mut j: usize = 0;
        let mut same = true;
        while j < needle.len()
            invariant
                i <= last,
                last + needle@.len() == rules@.len(),
                rules@.len() <= usize::MAX,
                j <= needle@.len(),
                same == forall|m: int| 0 <= m < j ==> rules@[i + m] == needle@[m],
            decreases needle@.len() - j,
        {
            if rules[i + j] != needle[j] {
                same = false;
            }
            j = j + 1;
        }
        if same {
            assert(rules@.subrange(i as int, i + needle@.len()) =~= needle@);
            return true;
        }
        proof {
            let m = choose|m: int| 0 <= m < needle@.len() && rules@[i + m] != needle@[m];
            assert(rules@.subrange(i as int, i + needle@.len())[m] != needle@[m]);
        }
        i = i + 1;
    }
    false
}

} // verus!
