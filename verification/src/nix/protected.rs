//! Class-F protected-path rejection before staging.
//!
//! A change is refused when its normalized path, lowercased, names the
//! watchdog, the broker WAL, the rollback or out-of-band stores or the
//! adapter's own configuration, or when its content, lowercased and with
//! whitespace removed, selects the watchdog, the kernel, the boot loader, the
//! firewall or the storage layout. Two changes to one path must agree.

use crate::nix::command_runner::{contains, spec_contains};
use crate::protocol::ConfigFileChange;
use crate::text::{chars_of, is_whitespace, push_char, spec_is_whitespace};
use vstd::prelude::*;
use vstd::string::StringExecFns;

verus! {

/// Why a proposed change was rejected.
#[derive(Debug, Clone, Copy, PartialEq, Eq, Structural)]
pub enum ProtectedRejectReason {
    Watchdog,
    BrokerWal,
    RollbackPath,
    OobStore,
    SelfProtection,
    Kernel,
    Bootloader,
    Firewall,
    StorageLayout,
    ConflictingChange,
    /// The content computes an attribute name, which no check can read.
    DynamicExpression,
}

/// The lowercase mapping of a string, as `str::to_lowercase` gives it.
pub uninterp spec fn spec_to_lowercase(s: Seq<char>) -> Seq<char>;

/// The lowercase of an ASCII character: `A` to `Z` become `a` to `z`, every
/// other character stays.
pub open spec fn spec_ascii_lower(c: char) -> char {
    if 'A' <= c && c <= 'Z' {
        ((c as u32) + 32) as char
    } else {
        c
    }
}

/// Whether every character of `s` is ASCII.
pub open spec fn spec_all_ascii(s: Seq<char>) -> bool {
    forall|i: int| 0 <= i < s.len() ==> (#[trigger] s[i] as u32) < 128
}

/// `str::to_lowercase`: the Unicode lowercase mapping of `s`. Of an ASCII
/// string it is the ASCII lowercasing, character by character (Unicode maps
/// `A` to `Z` onto `a` to `z` and leaves every other ASCII character); of
/// other strings nothing is stated beyond its being the mapping of `s`.
#[verifier::external_body]
fn to_lowercase(s: &str) -> (r: String)
    ensures
        r@ == spec_to_lowercase(s@),
        spec_all_ascii(s@) ==> r@ == s@.map_values(|c: char| spec_ascii_lower(c)),
{
    s.to_lowercase()
}

/// Apply one path component: empty and `.` are skipped, `..` drops the last
/// kept component, anything else is kept.
pub open spec fn spec_apply_component(stack: Seq<Seq<char>>, comp: Seq<char>) -> Seq<Seq<char>> {
    if comp.len() == 0 || comp == seq!['.'] {
        stack
    } else if comp == seq!['.', '.'] {
        if stack.len() > 0 {
            stack.drop_last()
        } else {
            stack
        }
    } else {
        stack.push(comp)
    }
}

/// The kept components and the component being read, after the characters
/// of `p`.
pub open spec fn spec_path_state(p: Seq<char>) -> (Seq<Seq<char>>, Seq<char>)
    decreases p.len(),
{
    if p.len() == 0 {
        (Seq::empty(), Seq::empty())
    } else {
        let (stack, cur) = spec_path_state(p.drop_last());
        if p.last() == '/' {
            (spec_apply_component(stack, cur), Seq::empty())
        } else {
            (stack, cur.push(p.last()))
        }
    }
}

/// Components joined by `/`.
pub open spec fn spec_join_slash(comps: Seq<Seq<char>>) -> Seq<char>
    decreases comps.len(),
{
    if comps.len() == 0 {
        Seq::empty()
    } else if comps.len() == 1 {
        comps[0]
    } else {
        spec_join_slash(comps.drop_last()) + seq!['/'] + comps.last()
    }
}

/// A path with `.` and `..` resolved lexically and repeated separators
/// collapsed, absolute when it starts with `/`.
pub open spec fn spec_normalize_path(p: Seq<char>) -> Seq<char> {
    let (stack, cur) = spec_path_state(p);
    let comps = spec_apply_component(stack, cur);
    if p.len() > 0 && p[0] == '/' {
        seq!['/'] + spec_join_slash(comps)
    } else {
        spec_join_slash(comps)
    }
}

fn apply_component(stack: &mut Vec<Vec<char>>, comp: Vec<char>)
    ensures
        seqs_view(final(stack)@) == spec_apply_component(seqs_view(old(stack)@), comp@),
{
    let ghost before = seqs_view(stack@);
    if comp.len() == 0 {
        return;
    }
    if comp.len() == 1 && comp[0] == '.' {
        assert(comp@ =~= seq!['.']);
        return;
    }
    if comp.len() == 2 && comp[0] == '.' && comp[1] == '.' {
        assert(comp@ =~= seq!['.', '.']);
        if stack.len() > 0 {
            stack.pop();
            assert(seqs_view(stack@) =~= before.drop_last());
        }
        return;
    }
    assert(comp@ != seq!['.']);
    assert(comp@ != seq!['.', '.']);
    stack.push(comp);
    assert(seqs_view(stack@) =~= before.push(comp@));
}

/// The views of character vectors.
pub open spec fn seqs_view(v: Seq<Vec<char>>) -> Seq<Seq<char>> {
    v.map_values(|x: Vec<char>| x@)
}

/// Normalize a path lexically.
pub fn normalize_path(path: &str) -> (r: String)
    ensures
        r@ == spec_normalize_path(path@),
{
    let cs = chars_of(path);
    let mut stack: Vec<Vec<char>> = Vec::new();
    let mut cur: Vec<char> = Vec::new();
    let mut i: usize = 0;
    assert(cs@.take(0) =~= Seq::<char>::empty());
    assert(seqs_view(stack@) =~= Seq::<Seq<char>>::empty());
    while i < cs.len()
        invariant
            cs@ == path@,
            i <= cs@.len(),
            spec_path_state(cs@.take(i as int)) == (seqs_view(stack@), cur@),
        decreases cs@.len() - i,
    {
        assert(cs@.take(i + 1).drop_last() =~= cs@.take(i as int));
        assert(cs@.take(i + 1).last() == cs@[i as int]);
        if cs[i] == '/' {
            let comp = cur;
            cur = Vec::new();
            apply_component(&mut stack, comp);
            assert(cur@ =~= Seq::<char>::empty());
        } else {
            cur.push(cs[i]);
        }
        i = i + 1;
    }
    assert(cs@.take(cs@.len() as int) =~= cs@);
    apply_component(&mut stack, cur);
    let mut out = String::new();
    if cs.len() > 0 && cs[0] == '/' {
        push_char(&mut out, '/');
    }
    let ghost start = out@;
    let ghost sv = seqs_view(stack@);
    let mut k: usize = 0;
    assert(sv.take(0) =~= Seq::<Seq<char>>::empty());
    while k < stack.len()
        invariant
            k <= stack@.len(),
            sv == seqs_view(stack@),
            out@ == start + spec_join_slash(sv.take(k as int)),
        decreases stack@.len() - k,
    {
        let ghost before = sv.take(k as int);
        assert(sv.take(k + 1).drop_last() =~= before);
        assert(sv.take(k + 1).last() == stack@[k as int]@);
        if k > 0 {
            push_char(&mut out, '/');
        } else {
            assert(sv.take(1) =~= seq![stack@[0]@]);
        }
        let comp = &stack[k];
        let mut j: usize = 0;
        let ghost mid = out@;
        while j < comp.len()
            invariant
                j <= comp@.len(),
                out@ == mid + comp@.take(j as int),
            decreases comp@.len() - j,
        {
            push_char(&mut out, comp[j]);
            j = j + 1;
            assert(out@ =~= mid + comp@.take(j as int));
        }
        assert(comp@.take(comp@.len() as int) =~= comp@);
        k = k + 1;
        assert(out@ =~= start + spec_join_slash(sv.take(k as int)));
    }
    assert(sv.take(sv.len() as int) =~= sv);
    out
}

/// Where a scan of Nix source stands.
#[derive(Debug, Clone, Copy, PartialEq, Eq, Structural)]
pub enum ScanState {
    /// In code.
    Code,
    /// In a `#` comment, up to the end of the line.
    LineComment,
    /// In a `/* */` comment.
    BlockComment,
    /// In a double-quoted string.
    Quoted,
    /// Just after a backslash in a double-quoted string.
    Escaped,
    /// In a `''` string.
    Indented,
}

/// Whether what follows a string makes it an attribute name: after any
/// whitespace, a `.` (the path goes on) or a single `=` (a binding).
pub open spec fn spec_attr_follows(s: Seq<char>) -> bool
    decreases s.len(),
{
    if s.len() == 0 {
        false
    } else if spec_is_whitespace(s[0]) {
        spec_attr_follows(s.drop_first())
    } else {
        s[0] == '.' || (s[0] == '=' && !(s.len() > 1 && s[1] == '='))
    }
}

/// Scan Nix source from `state`, with the current string's text in `buf`:
/// comments are dropped; a string is kept, without its quotes, when it names
/// an attribute, and dropped when it is a value; `''` strings are dropped;
/// everything else is kept. The flag records a `${` in code, an attribute
/// name computed at evaluation time.
pub open spec fn spec_scan(s: Seq<char>, state: ScanState, buf: Seq<char>, out: Seq<char>, dynamic: bool) -> (Seq<char>, bool)
    decreases s.len(),
{
    if s.len() == 0 {
        (out, dynamic)
    } else {
        let c = s[0];
        let rest = s.drop_first();
        let two = |d: char| rest.len() > 0 && rest[0] == d;
        match state {
            ScanState::Code => if c == '#' {
                spec_scan(rest, ScanState::LineComment, buf, out, dynamic)
            } else if c == '/' && two('*') {
                spec_scan(rest.drop_first(), ScanState::BlockComment, buf, out, dynamic)
            } else if c == '"' {
                spec_scan(rest, ScanState::Quoted, Seq::empty(), out, dynamic)
            } else if c == '\'' && two('\'') {
                spec_scan(rest.drop_first(), ScanState::Indented, buf, out, dynamic)
            } else if c == '$' && two('{') {
                spec_scan(rest, ScanState::Code, buf, out.push(c), true)
            } else {
                spec_scan(rest, ScanState::Code, buf, out.push(c), dynamic)
            },
            ScanState::LineComment => if c == '\n' {
                spec_scan(rest, ScanState::Code, buf, out.push(c), dynamic)
            } else {
                spec_scan(rest, ScanState::LineComment, buf, out, dynamic)
            },
            ScanState::BlockComment => if c == '*' && two('/') {
                spec_scan(rest.drop_first(), ScanState::Code, buf, out, dynamic)
            } else {
                spec_scan(rest, ScanState::BlockComment, buf, out, dynamic)
            },
            ScanState::Quoted => if c == '\\' {
                spec_scan(rest, ScanState::Escaped, buf, out, dynamic)
            } else if c == '"' {
                if spec_attr_follows(rest) {
                    spec_scan(rest, ScanState::Code, buf, out + buf, dynamic)
                } else {
                    spec_scan(rest, ScanState::Code, buf, out, dynamic)
                }
            } else {
                spec_scan(rest, ScanState::Quoted, buf.push(c), out, dynamic)
            },
            ScanState::Escaped => spec_scan(rest, ScanState::Quoted, buf.push(c), out, dynamic),
            ScanState::Indented => if c == '\'' && two('\'') {
                spec_scan(rest.drop_first(), ScanState::Code, buf, out, dynamic)
            } else {
                spec_scan(rest, ScanState::Indented, buf, out, dynamic)
            },
        }
    }
}

/// The code of Nix source, and whether it computes an attribute name.
pub open spec fn spec_code_of(content: Seq<char>) -> (Seq<char>, bool) {
    spec_scan(content, ScanState::Code, Seq::empty(), Seq::empty(), false)
}

fn attr_follows(cs: &Vec<char>, from: usize) -> (r: bool)
    requires
        from <= cs@.len(),
    ensures
        r == spec_attr_follows(cs@.skip(from as int)),
{
    let n = cs.len();
    let mut k = from;
    while k < n && is_whitespace(cs[k])
        invariant
            n == cs@.len(),
            from <= k <= n,
            spec_attr_follows(cs@.skip(from as int)) == spec_attr_follows(cs@.skip(k as int)),
        decreases n - k,
    {
        assert(cs@.skip(k as int)[0] == cs@[k as int]);
        assert(cs@.skip(k as int).drop_first() =~= cs@.skip(k + 1));
        k = k + 1;
    }
    if k == n {
        assert(cs@.skip(k as int).len() == 0);
        return false;
    }
    let ghost t = cs@.skip(k as int);
    assert(t[0] == cs@[k as int]);
    assert(t.len() > 1 ==> t[1] == cs@[k + 1]);
    cs[k] == '.' || (cs[k] == '=' && !(k + 1 < n && cs[k + 1] == '='))
}

/// Scan Nix source: its code, and whether it computes an attribute name.
pub fn code_of(content: &str) -> (r: (String, bool))
    ensures
        (r.0@, r.1) == spec_code_of(content@),
{
    let cs = chars_of(content);
    let n = cs.len();
    let mut out = String::new();
    let mut buf: Vec<char> = Vec::new();
    let mut state = ScanState::Code;
    let mut dynamic = false;
    let mut i: usize = 0;
    assert(cs@.skip(0) =~= cs@);
    while i < n
        invariant
            n == cs@.len(),
            i <= n,
            spec_code_of(content@) == spec_scan(cs@.skip(i as int), state, buf@, out@, dynamic),
            cs@ == content@,
        decreases n - i,
    {
        let ghost s = cs@.skip(i as int);
        let c = cs[i];
        assert(s[0] == c);
        assert(s.drop_first() =~= cs@.skip(i + 1));
        let next_is = |d: char| -> (b: bool)
            ensures b == (i + 1 < n && cs@[i + 1] == d)
        { i + 1 < n && cs[i + 1] == d };
        proof {
            if i + 1 < n {
                assert(s.drop_first()[0] == cs@[i + 1]);
                assert(s.drop_first().drop_first() =~= cs@.skip(i + 2));
            }
        }
        match state {
            ScanState::Code => {
                if c == '#' {
                    state = ScanState::LineComment;
                    i = i + 1;
                } else if c == '/' && next_is('*') {
                    state = ScanState::BlockComment;
                    i = i + 2;
                } else if c == '"' {
                    state = ScanState::Quoted;
                    buf = Vec::new();
                    assert(buf@ =~= Seq::<char>::empty());
                    i = i + 1;
                } else if c == '\'' && next_is('\'') {
                    state = ScanState::Indented;
                    i = i + 2;
                } else if c == '$' && next_is('{') {
                    push_char(&mut out, c);
                    dynamic = true;
                    i = i + 1;
                } else {
                    push_char(&mut out, c);
                    i = i + 1;
                }
            },
            ScanState::LineComment => {
                if c == '\n' {
                    push_char(&mut out, c);
                    state = ScanState::Code;
                }
                i = i + 1;
            },
            ScanState::BlockComment => {
                if c == '*' && next_is('/') {
                    state = ScanState::Code;
                    i = i + 2;
                } else {
                    i = i + 1;
                }
            },
            ScanState::Quoted => {
                if c == '\\' {
                    state = ScanState::Escaped;
                } else if c == '"' {
                    if attr_follows(&cs, i + 1) {
                        let mut k: usize = 0;
                        let ghost before = out@;
                        while k < buf.len()
                            invariant
                                k <= buf@.len(),
                                out@ == before + buf@.take(k as int),
                            decreases buf@.len() - k,
                        {
                            push_char(&mut out, buf[k]);
                            k = k + 1;
                            assert(out@ =~= before + buf@.take(k as int));
                        }
                        assert(buf@.take(buf@.len() as int) =~= buf@);
                    }
                    state = ScanState::Code;
                } else {
                    buf.push(c);
                }
                i = i + 1;
            },
            ScanState::Escaped => {
                buf.push(c);
                state = ScanState::Quoted;
                i = i + 1;
            },
            ScanState::Indented => {
                if c == '\'' && next_is('\'') {
                    state = ScanState::Code;
                    i = i + 2;
                } else {
                    i = i + 1;
                }
            },
        }
    }
    assert(cs@.skip(n as int).len() == 0);
    (out, dynamic)
}

/// Code as the checks read it: lowercased, with every whitespace character
/// removed.
pub open spec fn spec_semantic(content: Seq<char>) -> Seq<char> {
    spec_without_whitespace(spec_to_lowercase(content))
}

pub open spec fn spec_without_whitespace(s: Seq<char>) -> Seq<char>
    decreases s.len(),
{
    if s.len() == 0 {
        Seq::empty()
    } else if spec_is_whitespace(s.last()) {
        spec_without_whitespace(s.drop_last())
    } else {
        spec_without_whitespace(s.drop_last()).push(s.last())
    }
}

fn normalize_nix_content(content: &str) -> (r: String)
    ensures
        r@ == spec_semantic(content@),
{
    let lower = to_lowercase(content);
    let cs = chars_of(lower.as_str());
    let mut out = String::new();
    let mut i: usize = 0;
    assert(cs@.take(0) =~= Seq::<char>::empty());
    while i < cs.len()
        invariant
            i <= cs@.len(),
            out@ == spec_without_whitespace(cs@.take(i as int)),
        decreases cs@.len() - i,
    {
        assert(cs@.take(i + 1).drop_last() =~= cs@.take(i as int));
        assert(cs@.take(i + 1).last() == cs@[i as int]);
        if !is_whitespace(cs[i]) {
            push_char(&mut out, cs[i]);
        }
        i = i + 1;
    }
    assert(cs@.take(cs@.len() as int) =~= cs@);
    out
}

/// Whether the content selects the watchdog.
pub open spec fn spec_selects_watchdog(c: Seq<char>) -> bool {
    spec_contains(c, "agentbed-watchdogd"@) || spec_contains(c, "watchdogd.package"@) || spec_contains(
        c,
        "watchdogd.enable"@,
    ) || spec_contains(c, "services.agentbed-watchdogd"@) || spec_contains(c, "systemd.services.agentbed-watchdogd"@)
}

/// Whether the content selects the kernel.
pub open spec fn spec_selects_kernel(c: Seq<char>) -> bool {
    spec_contains(c, "boot.kernelpackages"@) || (spec_contains(c, "kernelpackages"@) && (spec_contains(c, "boot={"@)
        || spec_contains(c, "boot="@)))
}

/// Whether the content selects the boot loader.
pub open spec fn spec_selects_bootloader(c: Seq<char>) -> bool {
    spec_contains(c, "boot.loader"@) || spec_contains(c, "systemd-boot"@) || (spec_contains(c, "boot={"@)
        && spec_contains(c, "loader"@)) || (spec_contains(c, "boot="@) && spec_contains(c, "loader="@))
}

/// Whether the content selects the firewall.
pub open spec fn spec_selects_firewall(c: Seq<char>) -> bool {
    spec_contains(c, "networking.firewall"@) || (spec_contains(c, "networking={"@) && spec_contains(c, "firewall"@))
}

/// Whether the content selects the storage layout.
pub open spec fn spec_selects_storage(c: Seq<char>) -> bool {
    spec_contains(c, "filesystems."@) || spec_contains(c, "filesystems="@) || spec_contains(c, "filesystems={"@)
}

/// The broker's durable state (WAL, events, idempotency): a path under it,
/// or content that names it, is treated as the broker's WAL.
pub const BROKER_STATE: &'static str = "/var/lib/agentbed/broker/state";

/// Whether a lowercased path names the watchdog: its daemon, its unit or its
/// state.
pub open spec fn spec_path_names_watchdog(path: Seq<char>) -> bool {
    spec_contains(path, "watchdogd"@) || spec_contains(path, "agentbed-watchdogd"@) || spec_contains(
        path,
        "/var/lib/agentbed/watchdog"@,
    )
}

/// Whether a lowercased path lies in the broker's WAL or durable state.
pub open spec fn spec_path_names_broker_state(path: Seq<char>) -> bool {
    spec_contains(path, "/var/lib/agentbed/wal/"@) || spec_contains(path, BROKER_STATE@)
}

/// The number of protection rules.
pub open spec fn spec_rule_count() -> int {
    12
}

/// Whether a change meets protection rule `k`, given its lowercased
/// normalized path, whether its content computes attribute names, and the
/// semantic text of its code. Rules 0 to 4 read the path (watchdog, broker
/// state, rollback store, out-of-band store, the broker's own
/// configuration); rule 5 refuses computed attribute names; rules 6 to 11
/// read what the content sets (watchdog, broker state, kernel, boot loader,
/// firewall, storage layout).
pub open spec fn spec_rule_met(k: int, path: Seq<char>, dynamic: bool, sem: Seq<char>) -> bool {
    if k == 0 {
        spec_path_names_watchdog(path)
    } else if k == 1 {
        spec_path_names_broker_state(path)
    } else if k == 2 {
        spec_contains(path, "/var/lib/agentbed/rollback/"@)
    } else if k == 3 {
        spec_contains(path, "/var/lib/agentbed/oob/"@)
    } else if k == 4 {
        spec_contains(path, "/etc/nixos/agentbed/"@)
    } else if k == 5 {
        dynamic
    } else if k == 6 {
        spec_selects_watchdog(sem)
    } else if k == 7 {
        spec_contains(sem, BROKER_STATE@)
    } else if k == 8 {
        spec_selects_kernel(sem)
    } else if k == 9 {
        spec_selects_bootloader(sem)
    } else if k == 10 {
        spec_selects_firewall(sem)
    } else if k == 11 {
        spec_selects_storage(sem)
    } else {
        false
    }
}

/// The reason protection rule `k` gives.
pub open spec fn spec_rule_reason(k: int) -> ProtectedRejectReason {
    if k == 0 || k == 6 {
        ProtectedRejectReason::Watchdog
    } else if k == 1 || k == 7 {
        ProtectedRejectReason::BrokerWal
    } else if k == 2 {
        ProtectedRejectReason::RollbackPath
    } else if k == 3 {
        ProtectedRejectReason::OobStore
    } else if k == 4 {
        ProtectedRejectReason::SelfProtection
    } else if k == 5 {
        ProtectedRejectReason::DynamicExpression
    } else if k == 8 {
        ProtectedRejectReason::Kernel
    } else if k == 9 {
        ProtectedRejectReason::Bootloader
    } else if k == 10 {
        ProtectedRejectReason::Firewall
    } else {
        ProtectedRejectReason::StorageLayout
    }
}

/// Whether rule `k` is the first protection rule the change meets.
pub open spec fn spec_first_rule(k: int, path: Seq<char>, dynamic: bool, sem: Seq<char>) -> bool {
    &&& 0 <= k < spec_rule_count()
    &&& spec_rule_met(k, path, dynamic, sem)
    &&& forall|j: int| 0 <= j < k ==> !#[trigger] spec_rule_met(j, path, dynamic, sem)
}

/// The verdict on one change at its normalized path: refused with the
/// reason of the first protection rule it meets, accepted when it meets
/// none.
pub open spec fn spec_check_one(normalized: Seq<char>, content: Seq<char>) -> Result<(), ProtectedRejectReason> {
    let path = spec_to_lowercase(normalized);
    let code = spec_code_of(content);
    let sem = spec_semantic(code.0);
    if exists|k: int| #[trigger] spec_first_rule(k, path, code.1, sem) {
        Err(spec_rule_reason(choose|k: int| #[trigger] spec_first_rule(k, path, code.1, sem)))
    } else {
        Ok(())
    }
}

/// There is at most one first rule.
proof fn lemma_first_rule_unique(k1: int, k2: int, path: Seq<char>, dynamic: bool, sem: Seq<char>)
    requires
        spec_first_rule(k1, path, dynamic, sem),
        spec_first_rule(k2, path, dynamic, sem),
    ensures
        k1 == k2,
{
    if k1 < k2 {
        assert(!spec_rule_met(k1, path, dynamic, sem));
    } else if k2 < k1 {
        assert(!spec_rule_met(k2, path, dynamic, sem));
    }
}

/// A change whose first met rule is `k` is refused with rule `k`'s reason.
proof fn lemma_refused_by_first(k: int, normalized: Seq<char>, content: Seq<char>)
    requires
        spec_first_rule(
            k,
            spec_to_lowercase(normalized),
            spec_code_of(content).1,
            spec_semantic(spec_code_of(content).0),
        ),
    ensures
        spec_check_one(normalized, content) == Err::<(), ProtectedRejectReason>(spec_rule_reason(k)),
{
    let path = spec_to_lowercase(normalized);
    let code = spec_code_of(content);
    let sem = spec_semantic(code.0);
    let c = choose|k: int| #[trigger] spec_first_rule(k, path, code.1, sem);
    lemma_first_rule_unique(c, k, path, code.1, sem);
}

fn check_one(change: &ConfigFileChange, normalized: &str) -> (r: Result<(), ProtectedRejectReason>)
    ensures
        r == spec_check_one(normalized@, change.content@),
{
    let ghost path = spec_to_lowercase(normalized@);
    let ghost code = spec_code_of(change.content@);
    let ghost sem = spec_semantic(code.0);
    let lower_s = to_lowercase(normalized);
    let lower = lower_s.as_str();
    if contains(lower, "watchdogd") || contains(lower, "agentbed-watchdogd") || contains(
        lower,
        "/var/lib/agentbed/watchdog",
    ) {
        proof {
            lemma_refused_by_first(0, normalized@, change.content@);
        }
        return Err(ProtectedRejectReason::Watchdog);
    }
    if contains(lower, "/var/lib/agentbed/wal/") || contains(lower, BROKER_STATE) {
        proof {
            lemma_refused_by_first(1, normalized@, change.content@);
        }
        return Err(ProtectedRejectReason::BrokerWal);
    }
    if contains(lower, "/var/lib/agentbed/rollback/") {
        proof {
            lemma_refused_by_first(2, normalized@, change.content@);
        }
        return Err(ProtectedRejectReason::RollbackPath);
    }
    if contains(lower, "/var/lib/agentbed/oob/") {
        proof {
            lemma_refused_by_first(3, normalized@, change.content@);
        }
        return Err(ProtectedRejectReason::OobStore);
    }
    if contains(lower, "/etc/nixos/agentbed/") {
        proof {
            lemma_refused_by_first(4, normalized@, change.content@);
        }
        return Err(ProtectedRejectReason::SelfProtection);
    }
    let (code_s, dynamic) = code_of(change.content.as_str());
    if dynamic {
        proof {
            lemma_refused_by_first(5, normalized@, change.content@);
        }
        return Err(ProtectedRejectReason::DynamicExpression);
    }
    let sem_s = normalize_nix_content(code_s.as_str());
    let c = sem_s.as_str();
    if contains(c, "agentbed-watchdogd") || contains(c, "watchdogd.package") || contains(c, "watchdogd.enable")
        || contains(c, "services.agentbed-watchdogd") || contains(c, "systemd.services.agentbed-watchdogd") {
        proof {
            lemma_refused_by_first(6, normalized@, change.content@);
        }
        return Err(ProtectedRejectReason::Watchdog);
    }
    if contains(c, BROKER_STATE) {
        proof {
            lemma_refused_by_first(7, normalized@, change.content@);
        }
        return Err(ProtectedRejectReason::BrokerWal);
    }
    if contains(c, "boot.kernelpackages") || (contains(c, "kernelpackages") && (contains(c, "boot={") || contains(
        c,
        "boot=",
    ))) {
        proof {
            lemma_refused_by_first(8, normalized@, change.content@);
        }
        return Err(ProtectedRejectReason::Kernel);
    }
    if contains(c, "boot.loader") || contains(c, "systemd-boot") || (contains(c, "boot={") && contains(c, "loader"))
        || (contains(c, "boot=") && contains(c, "loader=")) {
        proof {
            lemma_refused_by_first(9, normalized@, change.content@);
        }
        return Err(ProtectedRejectReason::Bootloader);
    }
    if contains(c, "networking.firewall") || (contains(c, "networking={") && contains(c, "firewall")) {
        proof {
            lemma_refused_by_first(10, normalized@, change.content@);
        }
        return Err(ProtectedRejectReason::Firewall);
    }
    if contains(c, "filesystems.") || contains(c, "filesystems=") || contains(c, "filesystems={") {
        proof {
            lemma_refused_by_first(11, normalized@, change.content@);
        }
        return Err(ProtectedRejectReason::StorageLayout);
    }
    proof {
        assert forall|k: int| !#[trigger] spec_first_rule(k, path, code.1, sem) by {
            if 0 <= k < spec_rule_count() {
                assert(!spec_rule_met(k, path, code.1, sem));
            }
        }
    }
    Ok(())
}

/// The content of the first earlier change at the same normalized path.
pub open spec fn spec_first_at(earlier: Seq<ConfigFileChange>, normalized: Seq<char>) -> Option<Seq<char>>
    decreases earlier.len(),
{
    if earlier.len() == 0 {
        None
    } else {
        match spec_first_at(earlier.drop_last(), normalized) {
            Some(c) => Some(c),
            None => if spec_normalize_path(earlier.last().path@) == normalized {
                Some(earlier.last().content@)
            } else {
                None
            },
        }
    }
}

/// The verdict on a change set: the changes in order, a repeated path
/// agreeing with its first content and checked once, a new path checked.
pub open spec fn spec_check_changes(changes: Seq<ConfigFileChange>) -> Result<(), ProtectedRejectReason>
    decreases changes.len(),
{
    if changes.len() == 0 {
        Ok(())
    } else {
        match spec_check_changes(changes.drop_last()) {
            Err(e) => Err(e),
            Ok(()) => {
                let c = changes.last();
                let n = spec_normalize_path(c.path@);
                match spec_first_at(changes.drop_last(), n) {
                    Some(prev) => if prev != c.content@ {
                        Err(ProtectedRejectReason::ConflictingChange)
                    } else {
                        Ok(())
                    },
                    None => spec_check_one(n, c.content@),
                }
            },
        }
    }
}

/// Reject any change that would touch a protected resource.
pub fn check_protected_changes(changes: &Vec<ConfigFileChange>) -> (r: Result<(), ProtectedRejectReason>)
    ensures
        r == spec_check_changes(changes@),
{
    let mut seen: Vec<(String, String)> = Vec::new();
    let mut i: usize = 0;
    assert(changes@.take(0) =~= Seq::<ConfigFileChange>::empty());
    while i < changes.len()
        invariant
            i <= changes@.len(),
            spec_check_changes(changes@.take(i as int)) == Ok::<(), ProtectedRejectReason>(()),
            seen@.len() <= i,
            forall|n: Seq<char>|
                #![trigger spec_first_at(changes@.take(i as int), n)]
                spec_first_at(changes@.take(i as int), n) == spec_seen_lookup(seen_view(seen@), n),
        decreases changes@.len() - i,
    {
        let ghost pre = changes@.take(i as int);
        assert(changes@.take(i + 1).drop_last() =~= pre);
        assert(changes@.take(i + 1).last() == changes@[i as int]);
        let change = &changes[i];
        let normalized = normalize_path(change.path.as_str());
        match find_seen(&seen, &normalized) {
            Some(k) => {
                if seen[k].1 != change.content {
                    proof {
                        lemma_check_failure_persists(changes@, i + 1);
                    }
                    return Err(ProtectedRejectReason::ConflictingChange);
                }
                proof {
                    assert forall|n: Seq<char>| #![trigger spec_first_at(changes@.take(i + 1), n)]
                        spec_first_at(changes@.take(i + 1), n) == spec_seen_lookup(seen_view(seen@), n) by {
                        assert(spec_first_at(changes@.take(i + 1), n) == spec_first_at(pre, n) || spec_first_at(
                            pre,
                            n,
                        ).is_none());
                        if spec_first_at(pre, n).is_none() && n == normalized@ {
                            assert(false);
                        }
                    }
                }
            },
            None => {
                match check_one(change, normalized.as_str()) {
                    Err(e) => {
                        proof {
                            lemma_check_failure_persists(changes@, i + 1);
                        }
                        return Err(e);
                    },
                    Ok(()) => {},
                }
                let ghost before = seen_view(seen@);
                seen.push((normalized, change.content.clone()));
                proof {
                    assert(seen_view(seen@) =~= before.push((normalized@, changes@[i as int].content@)));
                    assert forall|n: Seq<char>| #![trigger spec_first_at(changes@.take(i + 1), n)]
                        spec_first_at(changes@.take(i + 1), n) == spec_seen_lookup(seen_view(seen@), n) by {
                        lemma_seen_lookup_push(before, (normalized@, changes@[i as int].content@), n);
                        assert(spec_first_at(pre, n) == spec_seen_lookup(before, n));
                    }
                }
            },
        }
        i = i + 1;
    }
    assert(changes@.take(changes@.len() as int) =~= changes@);
    Ok(())
}

/// The view of the kept `(normalized path, content)` pairs.
pub open spec fn seen_view(v: Seq<(String, String)>) -> Seq<(Seq<char>, Seq<char>)> {
    v.map_values(|p: (String, String)| (p.0@, p.1@))
}

/// The content kept for a normalized path, if any (the first kept).
pub open spec fn spec_seen_lookup(seen: Seq<(Seq<char>, Seq<char>)>, n: Seq<char>) -> Option<Seq<char>>
    decreases seen.len(),
{
    if seen.len() == 0 {
        None
    } else {
        match spec_seen_lookup(seen.drop_last(), n) {
            Some(c) => Some(c),
            None => if seen.last().0 == n {
                Some(seen.last().1)
            } else {
                None
            },
        }
    }
}

proof fn lemma_seen_lookup_push(seen: Seq<(Seq<char>, Seq<char>)>, x: (Seq<char>, Seq<char>), n: Seq<char>)
    ensures
        spec_seen_lookup(seen.push(x), n) == match spec_seen_lookup(seen, n) {
            Some(c) => Some(c),
            None => if x.0 == n {
                Some(x.1)
            } else {
                None
            },
        },
{
    assert(seen.push(x).drop_last() =~= seen);
}

fn find_seen(seen: &Vec<(String, String)>, n: &String) -> (r: Option<usize>)
    ensures
        match r {
            Some(k) => k < seen@.len() && spec_seen_lookup(seen_view(seen@), n@) == Some(seen@[k as int].1@),
            None => spec_seen_lookup(seen_view(seen@), n@).is_none(),
        },
{
    let ghost sv = seen_view(seen@);
    let mut k: usize = 0;
    assert(sv.take(0) =~= Seq::<(Seq<char>, Seq<char>)>::empty());
    while k < seen.len()
        invariant
            k <= seen@.len(),
            sv == seen_view(seen@),
            spec_seen_lookup(sv.take(k as int), n@).is_none(),
        decreases seen@.len() - k,
    {
        assert(sv.take(k + 1).drop_last() =~= sv.take(k as int));
        if seen[k].0 == *n {
            proof {
                lemma_lookup_prefix(sv, k + 1, n@);
            }
            return Some(k);
        }
        k = k + 1;
    }
    assert(sv.take(sv.len() as int) =~= sv);
    None
}

proof fn lemma_lookup_prefix(s: Seq<(Seq<char>, Seq<char>)>, k: int, n: Seq<char>)
    requires
        0 <= k <= s.len(),
        spec_seen_lookup(s.take(k), n).is_some(),
    ensures
        spec_seen_lookup(s, n) == spec_seen_lookup(s.take(k), n),
    decreases s.len(),
{
    if s.len() == k {
        assert(s.take(k) =~= s);
    } else {
        assert(s.drop_last().take(k) =~= s.take(k));
        lemma_lookup_prefix(s.drop_last(), k, n);
    }
}

proof fn lemma_check_failure_persists(cs: Seq<ConfigFileChange>, k: int)
    requires
        0 <= k <= cs.len(),
        spec_check_changes(cs.take(k)) is Err,
    ensures
        spec_check_changes(cs) == spec_check_changes(cs.take(k)),
    decreases cs.len(),
{
    if cs.len() == k {
        assert(cs.take(k) =~= cs);
    } else {
        assert(cs.drop_last().take(k) =~= cs.take(k));
        lemma_check_failure_persists(cs.drop_last(), k);
    }
}

proof fn lemma_first_at_witness(earlier: Seq<ConfigFileChange>, normalized: Seq<char>)
    ensures
        spec_first_at(earlier, normalized) matches Some(c) ==> exists|j: int|
            0 <= j < earlier.len() && spec_normalize_path((#[trigger] earlier[j]).path@) == normalized
                && earlier[j].content@ == c,
    decreases earlier.len(),
{
    if earlier.len() > 0 {
        lemma_first_at_witness(earlier.drop_last(), normalized);
        match spec_first_at(earlier.drop_last(), normalized) {
            Some(c) => {
                let j = choose|j: int|
                    0 <= j < earlier.drop_last().len() && spec_normalize_path((#[trigger] earlier.drop_last()[j]).path@)
                        == normalized && earlier.drop_last()[j].content@ == c;
                assert(earlier[j] == earlier.drop_last()[j]);
            },
            None => {
                let j = earlier.len() - 1;
                assert(earlier[j] == earlier.last());
            },
        }
    }
}

/// A change set is accepted only when every change in it, at its normalized
/// path, passes the protected-resource check: a repeated path is let through
/// only with the content already checked there.
pub proof fn accepted_changes_each_pass(changes: Seq<ConfigFileChange>)
    requires
        spec_check_changes(changes) is Ok,
    ensures
        forall|i: int|
            0 <= i < changes.len() ==> spec_check_one(spec_normalize_path((#[trigger] changes[i]).path@), changes[i].content@)
                is Ok,
    decreases changes.len(),
{
    if changes.len() > 0 {
        let prefix = changes.drop_last();
        accepted_changes_each_pass(prefix);
        let c = changes.last();
        let n = spec_normalize_path(c.path@);
        lemma_first_at_witness(prefix, n);
        assert forall|i: int| 0 <= i < changes.len() implies spec_check_one(
            spec_normalize_path((#[trigger] changes[i]).path@),
            changes[i].content@,
        ) is Ok by {
            if i < prefix.len() {
                assert(changes[i] == prefix[i]);
            } else {
                assert(changes[i] == c);
                match spec_first_at(prefix, n) {
                    Some(prev) => {
                        let j = choose|j: int|
                            0 <= j < prefix.len() && spec_normalize_path((#[trigger] prefix[j]).path@) == n
                                && prefix[j].content@ == prev;
                        assert(spec_check_one(spec_normalize_path(prefix[j].path@), prefix[j].content@) is Ok);
                    },
                    None => {},
                }
            }
        }
    }
}

/// A change whose content sets the storage layout is never staged: when the
/// semantic text of its code (lowercased, without whitespace, comments or
/// value strings) binds `fileSystems`, in the dotted form or as an attribute
/// set, it is refused; and when it names no protected path, computes no
/// attribute names and sets nothing of the watchdog, the broker's state, the
/// kernel, the boot loader or the firewall, it is refused as
/// `StorageLayout`.
pub proof fn storage_layout_changes_are_refused(normalized: Seq<char>, content: Seq<char>)
    requires
        ({
            let sem = spec_semantic(spec_code_of(content).0);
            spec_contains(sem, "filesystems."@) || spec_contains(sem, "filesystems="@) || spec_contains(
                sem,
                "filesystems={"@,
            )
        }),
    ensures
        spec_check_one(normalized, content) is Err,
        ({
            let path = spec_to_lowercase(normalized);
            let code = spec_code_of(content);
            let sem = spec_semantic(code.0);
            (forall|j: int| 0 <= j < 11 ==> !#[trigger] spec_rule_met(j, path, code.1, sem))
                ==> spec_check_one(normalized, content) == Err::<(), ProtectedRejectReason>(
                ProtectedRejectReason::StorageLayout,
            )
        }),
{
    let path = spec_to_lowercase(normalized);
    let code = spec_code_of(content);
    let sem = spec_semantic(code.0);
    assert(spec_rule_met(11, path, code.1, sem));
    lemma_some_rule_refuses(11, path, code.1, sem, normalized, content);
    if forall|j: int| 0 <= j < 11 ==> !#[trigger] spec_rule_met(j, path, code.1, sem) {
        assert(spec_first_rule(11, path, code.1, sem));
        lemma_refused_by_first(11, normalized, content);
    }
}

/// A change that meets any protection rule is refused.
proof fn lemma_some_rule_refuses(
    k: int,
    path: Seq<char>,
    dynamic: bool,
    sem: Seq<char>,
    normalized: Seq<char>,
    content: Seq<char>,
)
    requires
        0 <= k < spec_rule_count(),
        spec_rule_met(k, path, dynamic, sem),
        path == spec_to_lowercase(normalized),
        dynamic == spec_code_of(content).1,
        sem == spec_semantic(spec_code_of(content).0),
    ensures
        spec_check_one(normalized, content) is Err,
    decreases k,
{
    if forall|j: int| 0 <= j < k ==> !#[trigger] spec_rule_met(j, path, dynamic, sem) {
        assert(spec_first_rule(k, path, dynamic, sem));
    } else {
        let j = choose|j: int| 0 <= j < k && #[trigger] spec_rule_met(j, path, dynamic, sem);
        lemma_some_rule_refuses(j, path, dynamic, sem, normalized, content);
    }
}

} // verus!
