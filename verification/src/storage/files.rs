//! File-name rules of the stores: extensions, stems and sequence numbers.

use crate::text::hex_char;
use vstd::prelude::*;

verus! {

/// Position of the last `.` of a name, when it is not the first character:
/// the split point of `Path::file_stem` and `Path::extension`.
pub open spec fn spec_ext_dot(name: Seq<char>) -> Option<int> {
    if exists|i: int| 0 < i < name.len() && name[i] == '.' {
        let i = choose|i: int| 0 < i < name.len() && name[i] == '.' && forall|j: int| i < j < name.len() ==> name[j] != '.';
        Some(i)
    } else {
        None
    }
}

/// The stem of a file name: everything before the extension dot.
pub open spec fn spec_file_stem(name: Seq<char>) -> Seq<char> {
    match spec_ext_dot(name) {
        Some(i) => name.subrange(0, i),
        None => name,
    }
}

/// The extension of a file name, when it has one.
pub open spec fn spec_extension(name: Seq<char>) -> Option<Seq<char>> {
    match spec_ext_dot(name) {
        Some(i) => Some(name.subrange(i + 1, name.len() as int)),
        None => None,
    }
}

/// Finds the extension dot of a name.
pub fn ext_dot(name: &str) -> (r: Option<usize>)
    ensures
        match r {
            Some(i) => 0 < i < name@.len() && spec_ext_dot(name@) == Some(i as int),
            None => spec_ext_dot(name@) is None,
        },
{
    let n = name.unicode_len();
    let mut i = n;
    while i > 1
        invariant
            n == name@.len(),
            0 <= i <= n,
            forall|j: int| i <= j < n && j > 0 ==> name@[j] != '.',
        decreases i,
    {
        if name.get_char(i - 1) == '.' {
            let k = i - 1;
            proof {
                let w = k as int;
                assert(0 < w < name@.len() && name@[w] == '.');
                let c = choose|c: int| 0 < c < name@.len() && name@[c] == '.' && forall|j: int| c < j < name@.len() ==> name@[j] != '.';
                assert(forall|j: int| w < j < name@.len() ==> name@[j] != '.');
                if c < w {
                    assert(name@[w] != '.');
                } else if c > w {
                    assert(name@[c] != '.');
                }
            }
            return Some(k);
        }
        i = i - 1;
    }
    None
}

/// Whether a name's extension is `ext`.
pub fn has_extension(name: &str, ext: &str) -> (r: bool)
    ensures
        r == (spec_extension(name@) == Some(ext@)),
{
    match ext_dot(name) {
        None => false,
        Some(i) => {
            let n = name.unicode_len();
            let tail = name.substring_char(i + 1, n);
            let a = tail.to_owned();
            let b = ext.to_owned();
            a == b
        },
    }
}

/// The stem of a file name.
pub fn file_stem(name: &str) -> (r: &str)
    ensures
        r@ == spec_file_stem(name@),
{
    match ext_dot(name) {
        None => {
            proof {
                assert(name@.subrange(0, name@.len() as int) =~= name@);
            }
            name.substring_char(0, name.unicode_len())
        },
        Some(i) => name.substring_char(0, i),
    }
}

/// The value of a string of decimal digits.
pub open spec fn spec_digits_value(s: Seq<char>) -> int
    decreases s.len(),
{
    if s.len() == 0 {
        0
    } else {
        spec_digits_value(s.drop_last()) * 10 + (s.last() as int - '0' as int)
    }
}

pub open spec fn spec_is_digit(c: char) -> bool {
    '0' <= c && c <= '9'
}

/// The digits of an unsigned integer's text, `u64::from_str` style: an
/// optional leading `+`, then at least one decimal digit.
pub open spec fn spec_digits_part(s: Seq<char>) -> Seq<char> {
    if s.len() > 0 && s[0] == '+' { s.drop_first() } else { s }
}

/// `u64::from_str`: the value of the text when it is an optional `+` and one
/// or more decimal digits whose value fits in 64 bits.
pub open spec fn spec_parse_u64(s: Seq<char>) -> Option<u64> {
    let d = spec_digits_part(s);
    if d.len() > 0 && (forall|i: int| 0 <= i < d.len() ==> spec_is_digit(#[trigger] d[i]))
        && spec_digits_value(d) <= u64::MAX {
        Some(spec_digits_value(d) as u64)
    } else {
        None
    }
}

proof fn lemma_digits_nonneg(s: Seq<char>)
    requires
        forall|i: int| 0 <= i < s.len() ==> spec_is_digit(#[trigger] s[i]),
    ensures
        spec_digits_value(s) >= 0,
    decreases s.len(),
{
    if s.len() > 0 {
        lemma_digits_nonneg(s.drop_last());
    }
}

proof fn lemma_digits_grow(s: Seq<char>, k: int)
    requires
        0 <= k <= s.len(),
        forall|i: int| 0 <= i < s.len() ==> spec_is_digit(#[trigger] s[i]),
    ensures
        spec_digits_value(s) >= spec_digits_value(s.subrange(0, k)),
    decreases s.len(),
{
    if k < s.len() {
        assert(s.drop_last().subrange(0, k) =~= s.subrange(0, k));
        lemma_digits_grow(s.drop_last(), k);
        lemma_digits_nonneg(s.drop_last());
    } else {
        assert(s.subrange(0, k) =~= s);
    }
}

/// `u64::from_str`.
pub fn parse_u64(s: &str) -> (r: Option<u64>)
    ensures
        r == spec_parse_u64(s@),
{
    let n = s.unicode_len();
    let start: usize = if n > 0 && s.get_char(0) == '+' { 1 } else { 0 };
    let ghost d = spec_digits_part(s@);
    proof {
        assert(d =~= s@.subrange(start as int, n as int));
    }
    if start == n {
        return None;
    }
    let mut acc: u128 = 0;
    let mut i = start;
    while i < n
        invariant
            n == s@.len(),
            start <= i <= n,
            d == spec_digits_part(s@),
            d == s@.subrange(start as int, n as int),
            forall|j: int| 0 <= j < i - start ==> spec_is_digit(#[trigger] d[j]),
            acc == spec_digits_value(d.subrange(0, i - start)),
            acc <= u64::MAX,
        decreases n - i,
    {
        let c = s.get_char(i);
        if !('0' <= c && c <= '9') {
            proof {
                assert(!spec_is_digit(d[i - start]));
            }
            return None;
        }
        let digit = (c as u32 - 48u32) as u128;
        proof {
            let t = d.subrange(0, i - start + 1);
            assert(t.drop_last() =~= d.subrange(0, i - start));
            assert(t.last() == c);
        }
        acc = acc * 10 + digit;
        if acc > 18446744073709551615u128 {
            proof {
                assert forall|j: int| 0 <= j < i - start + 1 implies spec_is_digit(#[trigger] d[j]) by {
                    if j == i - start {
                        assert(d[j] == c);
                    }
                }
                if forall|j: int| 0 <= j < d.len() ==> spec_is_digit(#[trigger] d[j]) {
                    lemma_digits_grow(d, i - start + 1);
                }
            }
            return None;
        }
        i = i + 1;
    }
    proof {
        assert(d.subrange(0, d.len() as int) =~= d);
    }
    Some(acc as u64)
}

/// Appends the decimal rendering of `n`.
pub fn decimal(n: u64) -> (s: String)
    ensures
        s@ == crate::text::spec_decimal(n as nat),
{
    let mut s = String::new();
    crate::text::push_decimal(&mut s, n);
    proof {
        assert(s@ =~= crate::text::spec_decimal(n as nat));
    }
    s
}

} // verus!
