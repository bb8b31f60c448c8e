//! The manifest of a sealed bundle, written at build time as JSON.
use vstd::prelude::*;
use crate::identity::ProjectIdentity;
use crate::json::{json_quote, json_quoted};
use crate::text::{decimal_chars, decimal_text};

verus! {

/// The manifest of a sealed bundle. The timestamp is informational and no
/// input to any hash.
pub struct Manifest {
    pub version: String,
    pub identity: ProjectIdentity,
    pub is_sealed: bool,
    pub timestamp: String,
    pub exec_command: Option<String>,
    pub deps: Option<Vec<String>>,
}

/// Items joined by commas.
pub open spec fn json_join(items: Seq<Seq<char>>) -> Seq<char>
    decreases items.len(),
{
    if items.len() == 0 {
        Seq::empty()
    } else if items.len() == 1 {
        items[0]
    } else {
        json_join(items.drop_last()) + ","@ + items.last()
    }
}

/// A JSON array of items that are JSON texts already.
pub open spec fn json_array(items: Seq<Seq<char>>) -> Seq<char> {
    "["@ + json_join(items) + "]"@
}

/// The integers that stand for a root hash's bytes in a manifest.
pub open spec fn root_numbers(root: Seq<u8>) -> Seq<u64> {
    root.map_values(|b: u8| b as u64)
}

/// A root hash as a JSON array of integers.
pub open spec fn numbers_json(root: Seq<u8>) -> Seq<char> {
    json_array(root.map_values(|b: u8| decimal_chars(b as nat)))
}

/// Texts as a JSON array of strings.
pub open spec fn strings_json(items: Seq<Seq<char>>) -> Seq<char> {
    json_array(items.map_values(|s: Seq<char>| json_quoted(s)))
}

/// The JSON object of an identity.
pub open spec fn identity_json(id: ProjectIdentity) -> Seq<char> {
    "{\"file_count\":"@ + decimal_chars(id.file_count as nat) + ",\"mutable_files\":"@ + strings_json(
        id.mutable_files@.map_values(|s: String| s@),
    ) + ",\"root_hash\":"@ + numbers_json(id.root_hash@) + "}"@
}

/// The JSON object of a manifest, members in key order; absent members are
/// left out.
pub open spec fn manifest_json(m: Manifest) -> Seq<char> {
    "{"@ + optional_members_json(m.deps, m.exec_command) + "\"identity\":"@ + identity_json(m.identity) + ",\"sealed\":"@ + (if m.is_sealed {
        "true"@
    } else {
        "false"@
    }) + ",\"timestamp\":"@ + json_quoted(m.timestamp@) + ",\"version\":"@ + json_quoted(
        m.version@,
    ) + "}"@
}

fn strings_array(items: &Vec<String>) -> (r: String)
    ensures
        r@ == strings_json(items@.map_values(|s: String| s@)),
{
    let ghost qs = items@.map_values(|s: String| s@).map_values(|s: Seq<char>| json_quoted(s));
    let mut out = "[".to_owned();
    let mut i: usize = 0;
    while i < items.len()
        invariant
            i <= items@.len(),
            qs == items@.map_values(|s: String| s@).map_values(|s: Seq<char>| json_quoted(s)),
            out@ == "["@ + json_join(qs.subrange(0, i as int)),
        decreases items@.len() - i,
    {
        if i > 0 {
            out.append(",");
        }
        let q = json_quote(items[i].as_str());
        out.append(q.as_str());
        assert(qs.subrange(0, i + 1 as int).drop_last() =~= qs.subrange(0, i as int));
        assert(i == 0 ==> json_join(qs.subrange(0, 1)) == qs[0]);
        i = i + 1;
    }
    assert(qs.subrange(0, i as int) =~= qs);
    out.append("]");
    out
}

fn numbers_array(root: &Vec<u8>) -> (r: String)
    ensures
        r@ == numbers_json(root@),
{
    let ghost ds = root@.map_values(|b: u8| decimal_chars(b as nat));
    let mut out = "[".to_owned();
    let mut i: usize = 0;
    while i < root.len()
        invariant
            i <= root@.len(),
            ds == root@.map_values(|b: u8| decimal_chars(b as nat)),
            out@ == "["@ + json_join(ds.subrange(0, i as int)),
        decreases root@.len() - i,
    {
        if i > 0 {
            out.append(",");
        }
        let d = decimal_text(root[i] as usize);
        out.append(d.as_str());
        assert(ds.subrange(0, i + 1 as int).drop_last() =~= ds.subrange(0, i as int));
        assert(i == 0 ==> json_join(ds.subrange(0, 1)) == ds[0]);
        i = i + 1;
    }
    assert(ds.subrange(0, i as int) =~= ds);
    out.append("]");
    out
}

impl Manifest {
    /// The manifest of a fresh build: version `1.0.0`, sealed, with the
    /// dependency directories that were linked, if any.
    pub fn new(identity: ProjectIdentity, timestamp: String, exec_command: Option<String>, deps: Vec<String>) -> (r: Manifest)
        ensures
            r.version@ == "1.0.0"@,
            r.identity == identity,
            r.is_sealed,
            r.timestamp == timestamp,
            r.exec_command == exec_command,
            deps@.len() == 0 ==> r.deps.is_none(),
            deps@.len() > 0 ==> r.deps == Some(deps),
    {
        let deps = if deps.len() == 0 {
            None
        } else {
            Some(deps)
        };
        Manifest { version: "1.0.0".to_owned(), identity, is_sealed: true, timestamp, exec_command, deps }
    }

    /// The manifest as JSON text (see `manifest_json`).
    pub fn to_json(&self) -> (r: String)
        ensures
            r@ == manifest_json(*self),
    {
        let head = optional_members(&self.deps, &self.exec_command);
        let id = identity_text(&self.identity);
        let ts = json_quote(self.timestamp.as_str());
        let v = json_quote(self.version.as_str());
        let mut out = "{".to_owned();
        out.append(head.as_str());
        out.append("\"identity\":");
        out.append(id.as_str());
        out.append(",\"sealed\":");
        if self.is_sealed {
            out.append("true");
        } else {
            out.append("false");
        }
        out.append(",\"timestamp\":");
        out.append(ts.as_str());
        out.append(",\"version\":");
        out.append(v.as_str());
        out.append("}");
        assert(out@ =~= manifest_json(*self));
        out
    }
}

/// The optional members of a manifest that precede its identity.
pub open spec fn optional_members_json(deps: Option<Vec<String>>, exec_command: Option<String>) -> Seq<char> {
    (match deps {
        Some(d) => "\"deps\":"@ + strings_json(d@.map_values(|s: String| s@)) + ","@,
        None => Seq::empty(),
    }) + (match exec_command {
        Some(e) => "\"exec\":"@ + json_quoted(e@) + ","@,
        None => Seq::empty(),
    })
}

fn optional_members(deps: &Option<Vec<String>>, exec_command: &Option<String>) -> (r: String)
    ensures
        r@ == optional_members_json(*deps, *exec_command),
{
    let mut out = String::new();
    match deps {
        Some(d) => {
            out.append("\"deps\":");
            let a = strings_array(d);
            out.append(a.as_str());
            out.append(",");
        },
        None => {},
    }
    let ghost mid = out@;
    match exec_command {
        Some(e) => {
            out.append("\"exec\":");
            let q = json_quote(e.as_str());
            out.append(q.as_str());
            out.append(",");
        },
        None => {},
    }
    assert(out@ =~= optional_members_json(*deps, *exec_command));
    out
}

fn identity_text(id: &ProjectIdentity) -> (r: String)
    ensures
        r@ == identity_json(*id),
{
    let n = decimal_text(id.file_count);
    let mf = strings_array(&id.mutable_files);
    let rh = numbers_array(&id.root_hash);
    let mut out = "{\"file_count\":".to_owned();
    out.append(n.as_str());
    out.append(",\"mutable_files\":");
    out.append(mf.as_str());
    out.append(",\"root_hash\":");
    out.append(rh.as_str());
    out.append("}");
    assert(out@ =~= identity_json(*id));
    out
}

} // verus!
