//! The capture store: where an immutable candidate capture and the record of
//! each candidate's single activation live.
//!
//! This module decides the store's layout and what is written; the files are
//! read and written by the caller.

use crate::json::{push_str, push_string_text, spec_string_text};
use crate::nix::propose::CapturedProposal;
use crate::protocol::ConfigFileChange;
use crate::text::push_char;
use vstd::prelude::*;
use vstd::string::StrSliceExecFns;
use vstd::string::StringExecFns;

verus! {

/// Why capture persistence failed.
#[derive(Debug, Clone, Copy, PartialEq, Eq, Structural)]
pub enum CaptureError {
    /// A capture or activation already exists.
    Conflict,
    /// The filesystem failed.
    Io,
}

/// The stored capture: the candidate and the fingerprint of the changes that
/// produced it.
#[derive(Debug, Clone)]
pub struct StoredCapture {
    pub capture: CapturedProposal,
    pub fingerprint: String,
}

/// One change as `serde_json` writes it: `{"path":...,"content":...}`.
pub open spec fn spec_change_json(c: ConfigFileChange) -> Seq<char> {
    "{\"path\":"@ + spec_string_text(c.path@) + ",\"content\":"@ + spec_string_text(c.content@) + "}"@
}

/// Texts joined by commas.
pub open spec fn spec_commas(texts: Seq<Seq<char>>) -> Seq<char>
    decreases texts.len(),
{
    if texts.len() == 0 {
        Seq::empty()
    } else if texts.len() == 1 {
        texts[0]
    } else {
        spec_commas(texts.drop_last()) + seq![','] + texts.last()
    }
}

/// The fingerprint of a change set: the JSON array of its changes.
pub open spec fn spec_changes_fingerprint(changes: Seq<ConfigFileChange>) -> Seq<char> {
    seq!['['] + spec_commas(changes.map_values(|c: ConfigFileChange| spec_change_json(c))) + seq![']']
}

fn change_json(c: &ConfigFileChange) -> (t: String)
    ensures
        t@ == spec_change_json(*c),
{
    let mut s = String::new();
    push_str(&mut s, "{\"path\":");
    push_string_text(&mut s, c.path.as_str());
    push_str(&mut s, ",\"content\":");
    push_string_text(&mut s, c.content.as_str());
    push_str(&mut s, "}");
    assert(s@ =~= spec_change_json(*c));
    s
}

/// The fingerprint of a change set.
pub fn changes_fingerprint(changes: &Vec<ConfigFileChange>) -> (r: String)
    ensures
        r@ == spec_changes_fingerprint(changes@),
{
    let ghost f = |c: ConfigFileChange| spec_change_json(c);
    let mut s = String::new();
    push_char(&mut s, '[');
    let ghost start = s@;
    let mut i: usize = 0;
    assert(changes@.take(0).map_values(f) =~= Seq::<Seq<char>>::empty());
    while i < changes.len()
        invariant
            i <= changes@.len(),
            f == (|c: ConfigFileChange| spec_change_json(c)),
            s@ == start + spec_commas(changes@.take(i as int).map_values(f)),
        decreases changes@.len() - i,
    {
        let ghost before = changes@.take(i as int).map_values(f);
        let ghost x = spec_change_json(changes@[i as int]);
        assert(changes@.take(i + 1).map_values(f) =~= before.push(x));
        assert(before.push(x).drop_last() =~= before);
        if i > 0 {
            push_char(&mut s, ',');
        } else {
            assert(before.push(x)[0] == x);
        }
        let t = change_json(&changes[i]);
        push_str(&mut s, t.as_str());
        i = i + 1;
    }
    assert(changes@.take(changes@.len() as int) =~= changes@);
    push_char(&mut s, ']');
    s
}

/// `s` with every leading copy of `prefix` removed.
pub open spec fn spec_trim_start_matches(s: Seq<char>, prefix: Seq<char>) -> Seq<char>
    decreases s.len(),
{
    if prefix.len() > 0 && prefix.len() <= s.len() && s.take(prefix.len() as int) == prefix {
        spec_trim_start_matches(s.skip(prefix.len() as int), prefix)
    } else {
        s
    }
}

/// Every `/` replaced by `_`.
pub open spec fn spec_slashes_to_underscores(s: Seq<char>) -> Seq<char> {
    s.map_values(|c: char| if c == '/' { '_' } else { c })
}

/// The activation record's file name for a candidate closure: the closure
/// without its leading `/nix/store/` prefixes, slashes as underscores, and
/// `.activated`.
pub open spec fn spec_activation_filename(closure: Seq<char>) -> Seq<char> {
    spec_slashes_to_underscores(spec_trim_start_matches(closure, "/nix/store/"@)) + ".activated"@
}

/// The activation record's file name for a candidate closure.
pub fn activation_filename(closure: &str) -> (r: String)
    ensures
        r@ == spec_activation_filename(closure@),
{
    proof {
        reveal_strlit("/nix/store/");
    }
    let prefix = "/nix/store/";
    let cs = crate::text::chars_of(closure);
    let ps = crate::text::chars_of(prefix);
    let n = cs.len();
    let mut start: usize = 0;
    assert(cs@.skip(0) =~= cs@);
    loop
        invariant
            cs@ == closure@,
            ps@ == prefix@,
            ps@ == "/nix/store/"@,
            ps@.len() == 11,
            n == cs@.len(),
            start <= n,
            spec_trim_start_matches(closure@, prefix@) == spec_trim_start_matches(cs@.skip(start as int), prefix@),
        ensures
            start <= n,
            spec_trim_start_matches(closure@, prefix@) == cs@.skip(start as int),
        decreases n - start,
    {
        let ghost rest = cs@.skip(start as int);
        if n - start < 11 {
            break;
        }
        let mut k: usize = 0;
        let mut matches = true;
        while k < 11
            invariant
                start + 11 <= n,
                n == cs@.len(),
                ps@.len() == 11,
                k <= 11,
                matches == (forall|j: int| 0 <= j < k ==> cs@[start + j] == ps@[j]),
            decreases 11 - k,
        {
            if cs[start + k] != ps[k] {
                matches = false;
            }
            k = k + 1;
        }
        if !matches {
            assert(rest.take(11) != ps@) by {
                let j = choose|j: int| 0 <= j < 11 && cs@[start + j] != ps@[j];
                assert(rest.take(11)[j] == cs@[start + j]);
            }
            break;
        }
        assert(rest.take(11) =~= ps@);
        assert(rest.skip(11) =~= cs@.skip(start + 11));
        start = start + 11;
    }
    let mut out = String::new();
    let mut i: usize = start;
    let ghost f = |c: char| if c == '/' { '_' } else { c };
    assert(cs@.subrange(start as int, start as int).map_values(f) =~= Seq::<char>::empty());
    while i < n
        invariant
            start <= i <= n,
            n == cs@.len(),
            f == (|c: char| if c == '/' { '_' } else { c }),
            out@ == cs@.subrange(start as int, i as int).map_values(f),
        decreases n - i,
    {
        let c = cs[i];
        if c == '/' {
            push_char(&mut out, '_');
        } else {
            push_char(&mut out, c);
        }
        i = i + 1;
        assert(out@ =~= cs@.subrange(start as int, i as int).map_values(f));
    }
    assert(cs@.subrange(start as int, n as int) =~= cs@.skip(start as int));
    assert(out@ =~= spec_slashes_to_underscores(spec_trim_start_matches(closure@, "/nix/store/"@)));
    out.append(".activated");
    out
}

/// The durable capture store rooted at a directory.
#[derive(Debug, Clone)]
pub struct CaptureStore {
    root: String,
}

/// `dir/name`.
pub open spec fn spec_path_join(dir: Seq<char>, name: Seq<char>) -> Seq<char> {
    dir + seq!['/'] + name
}

fn path_join(dir: &str, name: &str) -> (r: String)
    ensures
        r@ == spec_path_join(dir@, name@),
{
    let mut s = dir.to_owned();
    push_char(&mut s, '/');
    s.append(name);
    s
}

impl CaptureStore {
    pub closed spec fn spec_root(&self) -> Seq<char> {
        self.root@
    }

    /// A store rooted at `root`.
    pub fn new(root: String) -> (s: CaptureStore)
        ensures
            s.spec_root() == root@,
    {
        CaptureStore { root }
    }

    /// The store's root directory.
    pub fn root(&self) -> (r: &str)
        ensures
            r@ == self.spec_root(),
    {
        self.root.as_str()
    }

    /// The active capture: `root/active.json`.
    pub fn active_path(&self) -> (r: String)
        ensures
            r@ == spec_path_join(self.spec_root(), "active.json"@),
    {
        path_join(self.root.as_str(), "active.json")
    }

    /// Where the active capture is first written: `root/active.json.tmp`.
    pub fn active_temp_path(&self) -> (r: String)
        ensures
            r@ == spec_path_join(self.spec_root(), "active.json.tmp"@),
    {
        path_join(self.root.as_str(), "active.json.tmp")
    }

    /// The marker that the active capture is durable: `root/active.json.synced`.
    pub fn synced_marker_path(&self) -> (r: String)
        ensures
            r@ == spec_path_join(self.spec_root(), "active.json.synced"@),
    {
        path_join(self.root.as_str(), "active.json.synced")
    }

    /// The durable pin of the candidate: `root/pin.json`.
    pub fn pin_path(&self) -> (r: String)
        ensures
            r@ == spec_path_join(self.spec_root(), "pin.json"@),
    {
        path_join(self.root.as_str(), "pin.json")
    }

    /// The directory of activation records: `root/activations`.
    pub fn activations_dir(&self) -> (r: String)
        ensures
            r@ == spec_path_join(self.spec_root(), "activations"@),
    {
        path_join(self.root.as_str(), "activations")
    }

    /// The record that a candidate was activated.
    pub fn activation_record_path(&self, candidate_closure: &str) -> (r: String)
        ensures
            r@ == spec_path_join(
                spec_path_join(self.spec_root(), "activations"@),
                spec_activation_filename(candidate_closure@),
            ),
    {
        let dir = self.activations_dir();
        let name = activation_filename(candidate_closure);
        path_join(dir.as_str(), name.as_str())
    }

    /// The reservation held while a candidate is being activated.
    pub fn activation_lock_path(&self, candidate_closure: &str) -> (r: String)
        ensures
            r@ == spec_path_join(
                spec_path_join(self.spec_root(), "activations"@),
                spec_activation_filename(candidate_closure@) + ".lock"@,
            ),
    {
        let dir = self.activations_dir();
        let mut name = activation_filename(candidate_closure);
        name.append(".lock");
        path_join(dir.as_str(), name.as_str())
    }
}

/// Whether a new capture may be stored: only when none is active.
pub fn may_store_capture(active_exists: bool) -> (r: Result<(), CaptureError>)
    ensures
        r == if active_exists {
            Err::<(), CaptureError>(CaptureError::Conflict)
        } else {
            Ok(())
        },
{
    if active_exists {
        Err(CaptureError::Conflict)
    } else {
        Ok(())
    }
}

/// Whether an activation may be reserved: neither its record nor its
/// reservation may exist yet.
pub fn may_reserve_activation(record_exists: bool, lock_exists: bool) -> (r: Result<(), CaptureError>)
    ensures
        r == if record_exists || lock_exists {
            Err::<(), CaptureError>(CaptureError::Conflict)
        } else {
            Ok(())
        },
{
    if record_exists || lock_exists {
        Err(CaptureError::Conflict)
    } else {
        Ok(())
    }
}

} // verus!
