//! Host facts for `system.info`, from what the host's files and the kernel
//! report. Reading them is done by the caller.

use crate::text::{chars_of, spec_trim, string_of, trim};
use crate::wire::{HostInfo, LandlockInfo};
use vstd::prelude::*;

verus! {

/// A file's trimmed text, or `unknown` when it could not be read or is
/// blank.
pub open spec fn spec_trimmed_or_unknown(contents: Option<Seq<char>>) -> Seq<char> {
    match contents {
        Some(c) => if spec_trim(c).len() > 0 {
            spec_trim(c)
        } else {
            "unknown"@
        },
        None => "unknown"@,
    }
}

pub fn trimmed_or_unknown(contents: Option<String>) -> (r: String)
    ensures
        r@ == spec_trimmed_or_unknown(match contents {
            Some(c) => Some(c@),
            None => None,
        }),
{
    match contents {
        Some(c) => {
            let t = trim(c.as_str());
            if t.unicode_len() > 0 {
                t
            } else {
                "unknown".to_owned()
            }
        },
        None => "unknown".to_owned(),
    }
}

/// The lines of a text, as `str::lines` splits them: at `\n`, a `\r` just
/// before it dropped, with no empty line after a final `\n`.
pub open spec fn spec_lines_acc(text: Seq<char>, done: Seq<Seq<char>>, cur: Seq<char>) -> Seq<Seq<char>>
    decreases text.len(),
{
    if text.len() == 0 {
        if cur.len() == 0 {
            done
        } else {
            done.push(cur)
        }
    } else if text[0] == '\n' {
        let line = if cur.len() > 0 && cur.last() == '\r' {
            cur.drop_last()
        } else {
            cur
        };
        spec_lines_acc(text.drop_first(), done.push(line), Seq::empty())
    } else {
        spec_lines_acc(text.drop_first(), done, cur.push(text[0]))
    }
}

/// `s` without leading or trailing `"`.
pub open spec fn spec_trim_quotes(s: Seq<char>) -> Seq<char>
    decreases s.len(),
{
    if s.len() > 0 && s[0] == '"' {
        spec_trim_quotes(s.drop_first())
    } else if s.len() > 0 && s.last() == '"' {
        spec_trim_quotes(s.drop_last())
    } else {
        s
    }
}

/// The position of the first `=` in a line, if any.
pub open spec fn spec_first_eq(line: Seq<char>) -> int
    decreases line.len(),
{
    if line.len() == 0 {
        -1
    } else if line[0] == '=' {
        0
    } else {
        let rest = spec_first_eq(line.drop_first());
        if rest < 0 {
            -1
        } else {
            rest + 1
        }
    }
}

/// The value a line gives `key`: the line is `name=value` with the trimmed
/// name equal to `key`; the value trimmed, then stripped of quotes.
pub open spec fn spec_line_value(line: Seq<char>, key: Seq<char>) -> Option<Seq<char>> {
    let k = spec_first_eq(line);
    if k >= 0 && spec_trim(line.take(k)) == key {
        Some(spec_trim_quotes(spec_trim(line.skip(k + 1))))
    } else {
        None
    }
}

/// The first line's value for `key`.
pub open spec fn spec_first_value(lines: Seq<Seq<char>>, key: Seq<char>) -> Option<Seq<char>>
    decreases lines.len(),
{
    if lines.len() == 0 {
        None
    } else {
        match spec_line_value(lines[0], key) {
            Some(v) => Some(v),
            None => spec_first_value(lines.drop_first(), key),
        }
    }
}

/// A field of `/etc/os-release`, or `unknown`.
pub open spec fn spec_os_release_field(contents: Option<Seq<char>>, key: Seq<char>) -> Seq<char> {
    match contents {
        None => "unknown"@,
        Some(c) => match spec_first_value(spec_lines_acc(c, Seq::empty(), Seq::empty()), key) {
            Some(v) => v,
            None => "unknown"@,
        },
    }
}

fn lines_of(text: &str) -> (r: Vec<Vec<char>>)
    ensures
        r@.map_values(|l: Vec<char>| l@) == spec_lines_acc(text@, Seq::empty(), Seq::empty()),
{
    let cs = chars_of(text);
    let mut done: Vec<Vec<char>> = Vec::new();
    let mut cur: Vec<char> = Vec::new();
    let mut i: usize = 0;
    assert(cs@.skip(0) =~= cs@);
    assert(done@.map_values(|l: Vec<char>| l@) =~= Seq::<Seq<char>>::empty());
    while i < cs.len()
        invariant
            cs@ == text@,
            i <= cs@.len(),
            spec_lines_acc(text@, Seq::empty(), Seq::empty()) == spec_lines_acc(
                cs@.skip(i as int),
                done@.map_values(|l: Vec<char>| l@),
                cur@,
            ),
        decreases cs@.len() - i,
    {
        let ghost dv = done@.map_values(|l: Vec<char>| l@);
        assert(cs@.skip(i as int)[0] == cs@[i as int]);
        assert(cs@.skip(i as int).drop_first() =~= cs@.skip(i + 1));
        if cs[i] == '\n' {
            let mut line = cur;
            if line.len() > 0 && line[line.len() - 1] == '\r' {
                let ghost lv = line@;
                line.pop();
                assert(line@ =~= lv.drop_last());
            }
            let ghost lv2 = line@;
            done.push(line);
            assert(done@.map_values(|l: Vec<char>| l@) =~= dv.push(lv2));
            cur = Vec::new();
            assert(cur@ =~= Seq::<char>::empty());
        } else {
            cur.push(cs[i]);
        }
        i = i + 1;
    }
    let ghost dv = done@.map_values(|l: Vec<char>| l@);
    if cur.len() > 0 {
        let ghost cv = cur@;
        done.push(cur);
        assert(done@.map_values(|l: Vec<char>| l@) =~= dv.push(cv));
    }
    done
}

/// Read one field of `/etc/os-release`: the first `KEY=value` line whose key
/// matches, the value trimmed and unquoted; `unknown` when the file could not
/// be read or has no such line.
pub fn os_release_field(contents: Option<String>, key: &str) -> (r: String)
    ensures
        r@ == spec_os_release_field(match contents {
            Some(c) => Some(c@),
            None => None,
        }, key@),
{
    let text = match contents {
        None => {
            return "unknown".to_owned();
        },
        Some(c) => c,
    };
    let lines = lines_of(text.as_str());
    match first_value(&lines, key) {
        Some(v) => v,
        None => "unknown".to_owned(),
    }
}

fn first_value(lines: &Vec<Vec<char>>, key: &str) -> (r: Option<String>)
    ensures
        match spec_first_value(lines@.map_values(|l: Vec<char>| l@), key@) {
            Some(v) => r matches Some(s) && s@ == v,
            None => r.is_none(),
        },
{
    let ghost lv = lines@.map_values(|l: Vec<char>| l@);
    let mut i: usize = 0;
    assert(lv.skip(0) =~= lv);
    while i < lines.len()
        invariant
            i <= lines@.len(),
            lv == lines@.map_values(|l: Vec<char>| l@),
            spec_first_value(lv, key@) == spec_first_value(lv.skip(i as int), key@),
        decreases lines@.len() - i,
    {
        assert(lv.skip(i as int)[0] == lines@[i as int]@);
        assert(lv.skip(i as int).drop_first() =~= lv.skip(i + 1));
        match line_value(&lines[i], key) {
            Some(v) => {
                assert(spec_line_value(lv.skip(i as int)[0], key@) == Some(v@));
                return Some(v);
            },
            None => {},
        }
        i = i + 1;
    }
    assert(lv.skip(i as int).len() == 0);
    None
}

fn line_value(line: &Vec<char>, key: &str) -> (r: Option<String>)
    ensures
        match spec_line_value(line@, key@) {
            Some(v) => r matches Some(s) && s@ == v,
            None => r.is_none(),
        },
{
    let n = line.len();
    let mut k: usize = 0;
    assert(line@.skip(0) =~= line@);
    while k < n && line[k] != '='
        invariant
            n == line@.len(),
            k <= n,
            forall|j: int| 0 <= j < k ==> line@[j] != '=',
            spec_first_eq(line@) == (if spec_first_eq(line@.skip(k as int)) < 0 {
                -1
            } else {
                spec_first_eq(line@.skip(k as int)) + k
            }),
        decreases n - k,
    {
        assert(line@.skip(k as int)[0] == line@[k as int]);
        assert(line@.skip(k as int).drop_first() =~= line@.skip(k + 1));
        k = k + 1;
    }
    if k == n {
        assert(line@.skip(k as int).len() == 0);
        return None;
    }
    assert(line@.skip(k as int)[0] == '=');
    let name = string_of(line, 0, k);
    let tn = trim(name.as_str());
    assert(line@.subrange(0, k as int) =~= line@.take(k as int));
    if tn != key.to_owned() {
        return None;
    }
    let value = string_of(line, k + 1, n);
    assert(line@.subrange(k + 1, n as int) =~= line@.skip(k + 1));
    let tv = trim(value.as_str());
    Some(trim_quotes(&tv))
}

fn trim_quotes(s: &String) -> (r: String)
    ensures
        r@ == spec_trim_quotes(s@),
{
    let cs = chars_of(s.as_str());
    let n = cs.len();
    let mut a: usize = 0;
    let mut b: usize = n;
    assert(cs@.subrange(0, n as int) =~= cs@);
    while a < b && (cs[a] == '"' || cs[b - 1] == '"')
        invariant
            cs@ == s@,
            n == cs@.len(),
            a <= b <= n,
            spec_trim_quotes(s@) == spec_trim_quotes(cs@.subrange(a as int, b as int)),
        decreases b - a,
    {
        let ghost cur = cs@.subrange(a as int, b as int);
        if cs[a] == '"' {
            assert(cur.drop_first() =~= cs@.subrange(a + 1, b as int));
            a = a + 1;
        } else {
            assert(cur.drop_last() =~= cs@.subrange(a as int, b - 1));
            b = b - 1;
        }
    }
    string_of(&cs, a, b)
}

/// Landlock as the kernel reports it: supported with its ABI version when the
/// probe gave a positive version, unsupported otherwise.
pub fn landlock_info_of(abi: Option<i32>) -> (l: LandlockInfo)
    ensures
        match abi {
            Some(v) => if v > 0 {
                l == (LandlockInfo { supported: true, abi_version: Some(v) })
            } else {
                l == (LandlockInfo { supported: false, abi_version: None })
            },
            None => l == (LandlockInfo { supported: false, abi_version: None }),
        },
{
    match abi {
        Some(v) => if v > 0 {
            LandlockInfo { supported: true, abi_version: Some(v) }
        } else {
            LandlockInfo { supported: false, abi_version: None }
        },
        None => LandlockInfo { supported: false, abi_version: None },
    }
}

/// Host facts from the hostname file, `/etc/os-release` and `uname`.
pub fn host_info_from(hostname: Option<String>, os_release: Option<String>, kernel_release: String, architecture: String) -> (h: HostInfo)
    ensures
        h.hostname@ == spec_trimmed_or_unknown(match hostname {
            Some(c) => Some(c@),
            None => None,
        }),
        h.os_id@ == spec_os_release_field(match os_release {
            Some(c) => Some(c@),
            None => None,
        }, "ID"@),
        h.os_version_id@ == spec_os_release_field(match os_release {
            Some(c) => Some(c@),
            None => None,
        }, "VERSION_ID"@),
        h.kernel_release@ == kernel_release@,
        h.architecture@ == architecture@,
{
    let copy = match &os_release {
        Some(c) => Some(c.clone()),
        None => None,
    };
    HostInfo {
        hostname: trimmed_or_unknown(hostname),
        os_id: os_release_field(os_release, "ID"),
        os_version_id: os_release_field(copy, "VERSION_ID"),
        kernel_release,
        architecture,
    }
}

} // verus!
