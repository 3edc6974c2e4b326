//! JSON values as this crate reasons about them, and their canonical
//! (RFC 8785) serialization.
//!
//! Numbers are integers here and are written in exact decimal.

use crate::text::{hex_char, hex_digit, push_char, push_decimal, spec_decimal};
use vstd::prelude::*;
use vstd::string::StrSliceExecFns;
use vstd::string::StringExecFns;
use vstd::utf8::encode_utf8;

verus! {

/// A JSON value. Object members keep the order they were given in.
#[derive(Debug)]
pub enum JsonValue {
    Null,
    Bool(bool),
    Int(i64),
    Str(String),
    Array(Vec<JsonValue>),
    Object(Vec<(String, JsonValue)>),
}

/// How one character of a string is written in canonical JSON.
pub open spec fn spec_escape(c: char) -> Seq<char> {
    if c == '"' {
        seq!['\\', '"']
    } else if c == '\\' {
        seq!['\\', '\\']
    } else if c == '\u{8}' {
        seq!['\\', 'b']
    } else if c == '\t' {
        seq!['\\', 't']
    } else if c == '\n' {
        seq!['\\', 'n']
    } else if c == '\u{c}' {
        seq!['\\', 'f']
    } else if c == '\r' {
        seq!['\\', 'r']
    } else if (c as u32) < 0x20 {
        seq!['\\', 'u', '0', '0', hex_char(((c as u32) / 16) as u8), hex_char(((c as u32) % 16) as u8)]
    } else {
        seq![c]
    }
}

/// The escaped characters of `s`, without quotes.
pub open spec fn spec_escape_all(s: Seq<char>) -> Seq<char>
    decreases s.len(),
{
    if s.len() == 0 {
        Seq::empty()
    } else {
        spec_escape_all(s.drop_last()) + spec_escape(s.last())
    }
}

/// A string in canonical JSON.
pub open spec fn spec_string_text(s: Seq<char>) -> Seq<char> {
    seq!['"'] + spec_escape_all(s) + seq!['"']
}

fn push_escaped(out: &mut String, c: char)
    ensures
        final(out)@ == old(out)@ + spec_escape(c),
{
    if c == '"' {
        push_char(out, '\\');
        push_char(out, '"');
    } else if c == '\\' {
        push_char(out, '\\');
        push_char(out, '\\');
    } else if c == '\u{8}' {
        push_char(out, '\\');
        push_char(out, 'b');
    } else if c == '\t' {
        push_char(out, '\\');
        push_char(out, 't');
    } else if c == '\n' {
        push_char(out, '\\');
        push_char(out, 'n');
    } else if c == '\u{c}' {
        push_char(out, '\\');
        push_char(out, 'f');
    } else if c == '\r' {
        push_char(out, '\\');
        push_char(out, 'r');
    } else if (c as u32) < 0x20 {
        let n = c as u32;
        push_char(out, '\\');
        push_char(out, 'u');
        push_char(out, '0');
        push_char(out, '0');
        push_char(out, hex_digit((n / 16) as u8));
        push_char(out, hex_digit((n % 16) as u8));
    } else {
        push_char(out, c);
    }
    assert(final(out)@ =~= old(out)@ + spec_escape(c)) by {
    }
}

/// Appends `s` as a canonical JSON string.
pub fn push_string_text(out: &mut String, s: &str)
    ensures
        final(out)@ == old(out)@ + spec_string_text(s@),
{
    let ghost start = out@;
    push_char(out, '"');
    for c in it: s.chars()
        invariant
            out@ == start + seq!['"'] + spec_escape_all(it.seq().take(it.index())),
            it.seq() == s@,
    {
        let ghost k = it.index();
        proof {
            assert(it.seq().take(k + 1).drop_last() =~= it.seq().take(k));
        }
        push_escaped(out, c);
    }
    push_char(out, '"');
    proof {
        assert(s@.take(s@.len() as int) =~= s@);
    }
}

/// An integer in canonical JSON: exact decimal, `-` before a negative one.
pub open spec fn spec_int_text(n: i64) -> Seq<char> {
    if n < 0 {
        seq!['-'] + spec_decimal((-(n as int)) as nat)
    } else {
        spec_decimal(n as nat)
    }
}

/// Appends an integer in canonical JSON.
pub fn push_int_text(out: &mut String, n: i64)
    ensures
        final(out)@ == old(out)@ + spec_int_text(n),
{
    if n < 0 {
        push_char(out, '-');
        let magnitude: u64 = if n == i64::MIN {
            9_223_372_036_854_775_808u64
        } else {
            (-n) as u64
        };
        push_decimal(out, magnitude);
        assert(final(out)@ =~= old(out)@ + spec_int_text(n));
    } else {
        push_decimal(out, n as u64);
    }
}

/// The first UTF-16 code unit of a character.
pub open spec fn spec_first_unit(c: char) -> int {
    if (c as u32) < 0x10000 {
        c as int
    } else {
        0xD800 + (c as int - 0x10000) / 1024
    }
}

/// Whether character `a` sorts before `b` by UTF-16 code units.
pub open spec fn spec_char_lt(a: char, b: char) -> bool {
    if ((a as u32) < 0x10000) == ((b as u32) < 0x10000) {
        (a as u32) < (b as u32)
    } else {
        spec_first_unit(a) < spec_first_unit(b)
    }
}

/// Whether key `a` sorts before key `b`, comparing UTF-16 code units as
/// RFC 8785 orders object members.
pub open spec fn spec_key_lt(a: Seq<char>, b: Seq<char>) -> bool
    decreases a.len(),
{
    if a.len() == 0 {
        b.len() > 0
    } else if b.len() == 0 {
        false
    } else if a[0] == b[0] {
        spec_key_lt(a.drop_first(), b.drop_first())
    } else {
        spec_char_lt(a[0], b[0])
    }
}

fn char_lt(a: char, b: char) -> (r: bool)
    ensures
        r == spec_char_lt(a, b),
{
    let x = a as u32;
    let y = b as u32;
    if (x < 0x10000) == (y < 0x10000) {
        x < y
    } else {
        let fx: u32 = if x < 0x10000 { x } else { 0xD800 + (x - 0x10000) / 1024 };
        let fy: u32 = if y < 0x10000 { y } else { 0xD800 + (y - 0x10000) / 1024 };
        fx < fy
    }
}

/// Whether key `a` sorts before key `b`.
pub fn key_lt(a: &str, b: &str) -> (r: bool)
    ensures
        r == spec_key_lt(a@, b@),
{
    let n = a.unicode_len();
    let m = b.unicode_len();
    let mut i: usize = 0;
    assert(a@.subrange(0, n as int) =~= a@);
    assert(b@.subrange(0, m as int) =~= b@);
    while i < n && i < m
        invariant
            n == a@.len(),
            m == b@.len(),
            i <= n,
            i <= m,
            spec_key_lt(a@, b@) == spec_key_lt(a@.subrange(i as int, n as int), b@.subrange(i as int, m as int)),
        decreases n - i,
    {
        let x = a.get_char(i);
        let y = b.get_char(i);
        let ghost sa = a@.subrange(i as int, n as int);
        let ghost sb = b@.subrange(i as int, m as int);
        assert(sa[0] == x && sb[0] == y);
        if x != y {
            return char_lt(x, y);
        }
        assert(sa.drop_first() =~= a@.subrange(i + 1, n as int));
        assert(sb.drop_first() =~= b@.subrange(i + 1, m as int));
        i = i + 1;
    }
    i < m
}

/// One object member in canonical JSON: the key, a colon, the value's text.
pub open spec fn spec_member_text(m: (Seq<char>, Seq<char>)) -> Seq<char> {
    spec_string_text(m.0) + seq![':'] + m.1
}

/// Texts joined by commas.
pub open spec fn spec_join(texts: Seq<Seq<char>>) -> Seq<char>
    decreases texts.len(),
{
    if texts.len() == 0 {
        Seq::empty()
    } else if texts.len() == 1 {
        texts[0]
    } else {
        spec_join(texts.drop_last()) + seq![','] + texts.last()
    }
}

/// `sorted` with `x` inserted after every member whose key does not sort
/// after `x`'s.
pub open spec fn spec_insert_member(sorted: Seq<(Seq<char>, Seq<char>)>, x: (Seq<char>, Seq<char>)) -> Seq<
    (Seq<char>, Seq<char>),
>
    decreases sorted.len(),
{
    if sorted.len() == 0 {
        seq![x]
    } else if !spec_key_lt(x.0, sorted.last().0) {
        sorted.push(x)
    } else {
        spec_insert_member(sorted.drop_last(), x).push(sorted.last())
    }
}

/// Members stably sorted by key.
pub open spec fn spec_sort_members(s: Seq<(Seq<char>, Seq<char>)>) -> Seq<(Seq<char>, Seq<char>)>
    decreases s.len(),
{
    if s.len() == 0 {
        s
    } else {
        spec_insert_member(spec_sort_members(s.drop_last()), s.last())
    }
}

/// The canonical (RFC 8785) text of a JSON value.
pub open spec fn spec_jcs(v: JsonValue) -> Seq<char>
    decreases v,
{
    match v {
        JsonValue::Null => "null"@,
        JsonValue::Bool(b) => if b {
            "true"@
        } else {
            "false"@
        },
        JsonValue::Int(n) => spec_int_text(n),
        JsonValue::Str(s) => spec_string_text(s@),
        JsonValue::Array(items) => seq!['['] + spec_join(spec_item_texts(items@)) + seq![']'],
        JsonValue::Object(members) => seq!['{'] + spec_join(
            spec_sort_members(spec_member_pairs(members@)).map_values(
                |m: (Seq<char>, Seq<char>)| spec_member_text(m),
            ),
        ) + seq!['}'],
    }
}

/// The canonical texts of array items, in order.
pub open spec fn spec_item_texts(items: Seq<JsonValue>) -> Seq<Seq<char>>
    decreases items,
{
    if items.len() == 0 {
        Seq::empty()
    } else {
        spec_item_texts(items.drop_last()).push(spec_jcs(items.last()))
    }
}

/// Each member's key with its value's canonical text, in the given order.
pub open spec fn spec_member_pairs(members: Seq<(String, JsonValue)>) -> Seq<(Seq<char>, Seq<char>)>
    decreases members,
{
    if members.len() == 0 {
        Seq::empty()
    } else {
        spec_member_pairs(members.drop_last()).push((members.last().0@, spec_jcs(members.last().1)))
    }
}

/// Appends `s`.
pub fn push_str(out: &mut String, s: &str)
    ensures
        final(out)@ == old(out)@ + s@,
{
    out.append(s);
}

/// The view of key/text pairs.
pub open spec fn text_pairs_view(v: Seq<(String, String)>) -> Seq<(Seq<char>, Seq<char>)> {
    Seq::new(v.len(), |i: int| (v[i].0@, v[i].1@))
}

fn insert_member(mut v: Vec<(String, String)>, x: (String, String)) -> (r: Vec<(String, String)>)
    ensures
        text_pairs_view(r@) == spec_insert_member(text_pairs_view(v@), (x.0@, x.1@)),
    decreases v@.len(),
{
    let ghost xv = (x.0@, x.1@);
    let ghost orig = text_pairs_view(v@);
    if v.len() == 0 {
        v.push(x);
        assert(text_pairs_view(v@) =~= seq![xv]);
        return v;
    }
    let n = v.len();
    if !key_lt(x.0.as_str(), v[n - 1].0.as_str()) {
        v.push(x);
        assert(text_pairs_view(v@) =~= orig.push(xv));
        v
    } else {
        let last = v.pop().unwrap();
        assert(text_pairs_view(v@) =~= orig.drop_last());
        let mut r = insert_member(v, x);
        let ghost before = text_pairs_view(r@);
        r.push(last);
        assert(text_pairs_view(r@) =~= before.push(orig.last()));
        r
    }
}

/// Stable sort of key/text pairs by key.
pub fn sort_members(mut v: Vec<(String, String)>) -> (r: Vec<(String, String)>)
    ensures
        text_pairs_view(r@) == spec_sort_members(text_pairs_view(v@)),
{
    let ghost orig = text_pairs_view(v@);
    let mut out: Vec<(String, String)> = Vec::new();
    assert(orig.subrange(0, 0) =~= Seq::<(Seq<char>, Seq<char>)>::empty());
    assert(text_pairs_view(out@) =~= Seq::<(Seq<char>, Seq<char>)>::empty());
    while v.len() > 0
        invariant
            orig.len() == out@.len() + v@.len(),
            text_pairs_view(v@) == orig.subrange(out@.len() as int, orig.len() as int),
            text_pairs_view(out@) == spec_sort_members(orig.subrange(0, out@.len() as int)),
        decreases v@.len(),
    {
        let ghost k: int = out@.len() as int;
        let ghost vv = text_pairs_view(v@);
        assert(vv[0] == orig[k]);
        let x = v.remove(0);
        proof {
            let t = orig.subrange(0, k + 1);
            assert(t.drop_last() =~= orig.subrange(0, k));
            assert(t.last() == orig[k]);
            assert(text_pairs_view(v@) =~= vv.drop_first());
        }
        out = insert_member(out, x);
        proof {
            lemma_insert_member_len(spec_sort_members(orig.subrange(0, k)), orig[k]);
            assert(text_pairs_view(v@) =~= orig.subrange(out@.len() as int, orig.len() as int));
        }
    }
    assert(orig.subrange(0, orig.len() as int) =~= orig);
    out
}

proof fn lemma_insert_member_len(sorted: Seq<(Seq<char>, Seq<char>)>, x: (Seq<char>, Seq<char>))
    ensures
        spec_insert_member(sorted, x).len() == sorted.len() + 1,
    decreases sorted.len(),
{
    if sorted.len() > 0 && spec_key_lt(x.0, sorted.last().0) {
        lemma_insert_member_len(sorted.drop_last(), x);
    }
}

proof fn lemma_join_push(t: Seq<Seq<char>>, x: Seq<char>)
    ensures
        spec_join(t.push(x)) == if t.len() == 0 {
            x
        } else {
            spec_join(t) + seq![','] + x
        },
{
    assert(t.push(x).drop_last() =~= t);
    if t.len() == 0 {
        assert(t.push(x)[0] == x);
    }
}

/// Nesting depth of a value: scalars are 0, containers one more than their
/// deepest element.
pub open spec fn spec_depth(v: JsonValue) -> nat
    decreases v,
{
    match v {
        JsonValue::Array(items) => 1 + spec_items_depth(items@),
        JsonValue::Object(members) => 1 + spec_members_depth(members@),
        _ => 0,
    }
}

pub open spec fn spec_items_depth(items: Seq<JsonValue>) -> nat
    decreases items,
{
    if items.len() == 0 {
        0
    } else {
        let a = spec_items_depth(items.drop_last());
        let b = spec_depth(items.last());
        if a >= b {
            a
        } else {
            b
        }
    }
}

pub open spec fn spec_members_depth(members: Seq<(String, JsonValue)>) -> nat
    decreases members,
{
    if members.len() == 0 {
        0
    } else {
        let a = spec_members_depth(members.drop_last());
        let b = spec_depth(members.last().1);
        if a >= b {
            a
        } else {
            b
        }
    }
}

proof fn lemma_item_depth(items: Seq<JsonValue>, i: int)
    requires
        0 <= i < items.len(),
    ensures
        spec_depth(items[i]) <= spec_items_depth(items),
    decreases items.len(),
{
    if i < items.len() - 1 {
        assert(items.drop_last()[i] == items[i]);
        lemma_item_depth(items.drop_last(), i);
    }
}

proof fn lemma_member_depth(members: Seq<(String, JsonValue)>, i: int)
    requires
        0 <= i < members.len(),
    ensures
        spec_depth(members[i].1) <= spec_members_depth(members),
    decreases members.len(),
{
    if i < members.len() - 1 {
        assert(members.drop_last()[i] == members[i]);
        lemma_member_depth(members.drop_last(), i);
    }
}

/// Appends the canonical text of `v`.
pub fn write_jcs(v: &JsonValue, out: &mut String)
    ensures
        final(out)@ == old(out)@ + spec_jcs(*v),
    decreases spec_depth(*v),
{
    let ghost start = out@;
    match v {
        JsonValue::Null => push_str(out, "null"),
        JsonValue::Bool(b) => {
            if *b {
                push_str(out, "true");
            } else {
                push_str(out, "false");
            }
        },
        JsonValue::Int(n) => push_int_text(out, *n),
        JsonValue::Str(s) => push_string_text(out, s.as_str()),
        JsonValue::Array(items) => {
            push_char(out, '[');
            let mut i: usize = 0;
            assert(items@.take(0) =~= Seq::<JsonValue>::empty());
            while i < items.len()
                invariant
                    *v == JsonValue::Array(*items),
                    i <= items@.len(),
                    out@ == start + seq!['['] + spec_join(spec_item_texts(items@.take(i as int))),
                decreases items@.len() - i,
            {
                let ghost before = spec_item_texts(items@.take(i as int));
                assert(items@.take(i + 1).drop_last() =~= items@.take(i as int));
                assert(items@.take(i + 1).last() == items@[i as int]);
                proof {
                    lemma_join_push(before, spec_jcs(items@[i as int]));
                }
                if i > 0 {
                    push_char(out, ',');
                }
                proof {
                    lemma_item_depth(items@, i as int);
                }
                write_jcs(&items[i], out);
                i = i + 1;
            }
            push_char(out, ']');
            assert(items@.take(items@.len() as int) =~= items@);
        },
        JsonValue::Object(members) => {
            let mut pairs: Vec<(String, String)> = Vec::new();
            let mut i: usize = 0;
            assert(members@.take(0) =~= Seq::<(String, JsonValue)>::empty());
            assert(text_pairs_view(pairs@) =~= Seq::<(Seq<char>, Seq<char>)>::empty());
            while i < members.len()
                invariant
                    *v == JsonValue::Object(*members),
                    i <= members@.len(),
                    text_pairs_view(pairs@) == spec_member_pairs(members@.take(i as int)),
                decreases members@.len() - i,
            {
                let mut t = String::new();
                proof {
                    lemma_member_depth(members@, i as int);
                }
                write_jcs(&members[i].1, &mut t);
                let ghost before = text_pairs_view(pairs@);
                pairs.push((members[i].0.clone(), t));
                assert(members@.take(i + 1).drop_last() =~= members@.take(i as int));
                assert(members@.take(i + 1).last() == members@[i as int]);
                assert(text_pairs_view(pairs@) =~= before.push((members@[i as int].0@, spec_jcs(members@[i as int].1))));
                i = i + 1;
            }
            assert(members@.take(members@.len() as int) =~= members@);
            let sorted = sort_members(pairs);
            let ghost sv = text_pairs_view(sorted@);
            let ghost f = |m: (Seq<char>, Seq<char>)| spec_member_text(m);
            push_char(out, '{');
            let mut j: usize = 0;
            assert(sv.take(0).map_values(f) =~= Seq::<Seq<char>>::empty());
            while j < sorted.len()
                invariant
                    j <= sorted@.len(),
                    sv == text_pairs_view(sorted@),
                    f == (|m: (Seq<char>, Seq<char>)| spec_member_text(m)),
                    out@ == start + seq!['{'] + spec_join(sv.take(j as int).map_values(f)),
                decreases sorted@.len() - j,
            {
                let ghost before = sv.take(j as int).map_values(f);
                assert(sv.take(j + 1).map_values(f) =~= before.push(spec_member_text(sv[j as int])));
                proof {
                    lemma_join_push(before, spec_member_text(sv[j as int]));
                }
                if j > 0 {
                    push_char(out, ',');
                }
                push_string_text(out, sorted[j].0.as_str());
                push_char(out, ':');
                push_str(out, sorted[j].1.as_str());
                j = j + 1;
            }
            push_char(out, '}');
            assert(sv.take(sv.len() as int) =~= sv);
        },
    }
    assert(out@ =~= start + spec_jcs(*v));
}

/// The canonical text of `v`.
pub fn canonical_text(v: &JsonValue) -> (s: String)
    ensures
        s@ == spec_jcs(*v),
{
    let mut s = String::new();
    write_jcs(v, &mut s);
    assert(s@ =~= spec_jcs(*v));
    s
}

/// The canonical bytes of `v`: the UTF-8 encoding of its canonical text.
pub fn canonicalize(v: &JsonValue) -> (b: Vec<u8>)
    ensures
        b@ == encode_utf8(spec_jcs(*v)),
{
    let s = canonical_text(v);
    s.as_str().as_bytes_vec()
}

/// The members of a JSON object, each with its value when that value is a
/// string: what `serde_json` parses `text` into, or nothing when `text` is
/// not a JSON object.
pub uninterp spec fn spec_json_object_fields(text: Seq<char>) -> Option<Seq<(Seq<char>, Option<Seq<char>>)>>;

/// The view of parsed object members.
pub open spec fn fields_view(fields: Seq<(String, Option<String>)>) -> Seq<(Seq<char>, Option<Seq<char>>)> {
    Seq::new(
        fields.len(),
        |i: int|
            (
                fields[i].0@,
                match fields[i].1 {
                    Some(s) => Some(s@),
                    None => None,
                },
            ),
    )
}

/// `serde_json::from_str::<serde_json::Value>`, kept when it is an object:
/// its members in the map's order, each value given when it is a string.
/// Nothing is claimed of the result beyond its being that parse.
#[verifier::external_body]
pub(crate) fn parse_json_object(text: &str) -> (r: Option<Vec<(String, Option<String>)>>)
    ensures
        match r {
            Some(v) => spec_json_object_fields(text@) == Some(fields_view(v@)),
            None => spec_json_object_fields(text@).is_none(),
        },
{
    let value: serde_json::Value = serde_json::from_str(text).ok()?;
    let object = value.as_object()?;
    let mut out = Vec::new();
    for (key, field) in object {
        out.push((key.clone(), field.as_str().map(str::to_owned)));
    }
    Some(out)
}

// The key order is a strict total order; insertion sort by it then does not
// depend on the order distinct keys arrive in.

proof fn lemma_char_lt_order(a: char, b: char, c: char)
    ensures
        !spec_char_lt(a, a),
        spec_char_lt(a, b) ==> !spec_char_lt(b, a),
        a != b ==> spec_char_lt(a, b) || spec_char_lt(b, a),
        spec_char_lt(a, b) && spec_char_lt(b, c) ==> spec_char_lt(a, c),
{
    let x = a as int;
    let y = b as int;
    let z = c as int;
    assert(x < 0xD800 || 0xE000 <= x);
    assert(y < 0xD800 || 0xE000 <= y);
    assert(z < 0xD800 || 0xE000 <= z);
    assert(x >= 0x10000 ==> 0xD800 <= spec_first_unit(a) < 0xDC00);
    assert(y >= 0x10000 ==> 0xD800 <= spec_first_unit(b) < 0xDC00);
    assert(z >= 0x10000 ==> 0xD800 <= spec_first_unit(c) < 0xDC00);
    assert(x >= 0x10000 && y >= 0x10000 && x <= y ==> spec_first_unit(a) <= spec_first_unit(b));
    assert(y >= 0x10000 && z >= 0x10000 && y <= z ==> spec_first_unit(b) <= spec_first_unit(c));
    assert(x >= 0x10000 && z >= 0x10000 && spec_first_unit(a) < spec_first_unit(c) ==> x < z);
}

/// Characters are ordered by their UTF-16 code units: two characters of the
/// basic plane, or two beyond it, by code point; a basic-plane character
/// before one beyond it exactly when it lies below the surrogate block
/// (`U+D800`), since a character beyond the basic plane starts with a lead
/// surrogate.
pub proof fn char_order_is_utf16_order(a: char, b: char)
    ensures
        (a as u32) < 0x10000 && (b as u32) < 0x10000 ==> (spec_char_lt(a, b) <==> (a as u32) < (b as u32)),
        (a as u32) >= 0x10000 && (b as u32) >= 0x10000 ==> (spec_char_lt(a, b) <==> (a as u32) < (b as u32)),
        (a as u32) < 0x10000 && (b as u32) >= 0x10000 ==> (spec_char_lt(a, b) <==> (a as u32) < 0xD800),
        (a as u32) >= 0x10000 && (b as u32) < 0x10000 ==> (spec_char_lt(a, b) <==> (b as u32) >= 0xE000),
{
    let x = a as u32;
    let y = b as u32;
    assert(x <= 0x10FFFF && (x < 0xD800 || x >= 0xE000));
    assert(y <= 0x10FFFF && (y < 0xD800 || y >= 0xE000));
    if x >= 0x10000 {
        assert(0 <= (x - 0x10000) / 1024 <= 1023) by (nonlinear_arith)
            requires
                0x10000 <= x <= 0x10FFFF,
        ;
    }
    if y >= 0x10000 {
        assert(0 <= (y - 0x10000) / 1024 <= 1023) by (nonlinear_arith)
            requires
                0x10000 <= y <= 0x10FFFF,
        ;
    }
}

/// Whether `a` is a proper prefix of `b`.
pub open spec fn spec_proper_prefix(a: Seq<char>, b: Seq<char>) -> bool {
    a.len() < b.len() && b.take(a.len() as int) == a
}

/// Whether `a` and `b` first differ at position `i`, with `a`'s character
/// sorting first there.
pub open spec fn spec_first_difference_smaller(a: Seq<char>, b: Seq<char>, i: int) -> bool {
    &&& 0 <= i < a.len()
    &&& i < b.len()
    &&& a.take(i) == b.take(i)
    &&& a[i] != b[i]
    &&& spec_char_lt(a[i], b[i])
}

/// Object members are ordered as RFC 8785 orders them: key `a` sorts before
/// key `b` exactly when `a` is a proper prefix of `b`, or at the first
/// position where they differ `a`'s character sorts first by UTF-16 code
/// units. In particular a key sorts before every longer key it begins.
pub proof fn key_order_is_utf16_lexicographic(a: Seq<char>, b: Seq<char>)
    ensures
        spec_key_lt(a, b) <==> (spec_proper_prefix(a, b) || exists|i: int|
            #[trigger] spec_first_difference_smaller(a, b, i)),
        forall|c: Seq<char>| c.len() > 0 ==> spec_key_lt(a, #[trigger] (a + c)),
    decreases a.len(),
{
    assert forall|c: Seq<char>| c.len() > 0 implies spec_key_lt(a, #[trigger] (a + c)) by {
        lemma_key_lt_extension(a, c);
    }
    if a.len() == 0 {
        if b.len() > 0 {
            assert(b.take(0) =~= a);
        }
    } else if b.len() == 0 {
    } else if a[0] == b[0] {
        let a1 = a.drop_first();
        let b1 = b.drop_first();
        key_order_is_utf16_lexicographic(a1, b1);
        if spec_proper_prefix(a1, b1) {
            assert(b.take(a.len() as int) =~= seq![b[0]] + b1.take(a1.len() as int));
            assert(a =~= seq![a[0]] + a1);
        }
        if spec_proper_prefix(a, b) {
            assert(b1.take(a1.len() as int) =~= b.take(a.len() as int).drop_first());
            assert(a1 =~= a.drop_first());
        }
        if exists|i: int| #[trigger] spec_first_difference_smaller(a1, b1, i) {
            let i = choose|i: int| #[trigger] spec_first_difference_smaller(a1, b1, i);
            assert(a.take(i + 1) =~= seq![a[0]] + a1.take(i));
            assert(b.take(i + 1) =~= seq![b[0]] + b1.take(i));
            assert(spec_first_difference_smaller(a, b, i + 1));
        }
        if exists|i: int| #[trigger] spec_first_difference_smaller(a, b, i) {
            let i = choose|i: int| #[trigger] spec_first_difference_smaller(a, b, i);
            assert(i != 0);
            assert(a1.take(i - 1) =~= a.take(i).drop_first());
            assert(b1.take(i - 1) =~= b.take(i).drop_first());
            assert(spec_first_difference_smaller(a1, b1, i - 1));
        }
    } else {
        assert(a.take(0) =~= b.take(0));
        if spec_char_lt(a[0], b[0]) {
            assert(spec_first_difference_smaller(a, b, 0));
        }
        if spec_proper_prefix(a, b) {
            assert(b.take(a.len() as int)[0] == b[0]);
        }
        if exists|i: int| #[trigger] spec_first_difference_smaller(a, b, i) {
            let i = choose|i: int| #[trigger] spec_first_difference_smaller(a, b, i);
            if i > 0 {
                assert(a.take(i)[0] == b.take(i)[0]);
            }
        }
    }
}

proof fn lemma_key_lt_extension(a: Seq<char>, c: Seq<char>)
    requires
        c.len() > 0,
    ensures
        spec_key_lt(a, a + c),
    decreases a.len(),
{
    if a.len() > 0 {
        assert((a + c)[0] == a[0]);
        assert((a + c).drop_first() =~= a.drop_first() + c);
        lemma_key_lt_extension(a.drop_first(), c);
    }
}

proof fn lemma_key_lt_irrefl(a: Seq<char>)
    ensures
        !spec_key_lt(a, a),
    decreases a.len(),
{
    if a.len() > 0 {
        lemma_key_lt_irrefl(a.drop_first());
    }
}

proof fn lemma_key_lt_asym(a: Seq<char>, b: Seq<char>)
    ensures
        spec_key_lt(a, b) ==> !spec_key_lt(b, a),
    decreases a.len(),
{
    if a.len() > 0 && b.len() > 0 {
        if a[0] == b[0] {
            lemma_key_lt_asym(a.drop_first(), b.drop_first());
        } else {
            lemma_char_lt_order(a[0], b[0], a[0]);
        }
    }
}

proof fn lemma_key_lt_total(a: Seq<char>, b: Seq<char>)
    ensures
        a != b ==> spec_key_lt(a, b) || spec_key_lt(b, a),
    decreases a.len(),
{
    if a.len() > 0 && b.len() > 0 {
        if a[0] == b[0] {
            lemma_key_lt_total(a.drop_first(), b.drop_first());
            if a.drop_first() == b.drop_first() {
                assert(a =~= seq![a[0]] + a.drop_first());
                assert(b =~= seq![b[0]] + b.drop_first());
            }
        } else {
            lemma_char_lt_order(a[0], b[0], a[0]);
        }
    } else if a.len() == 0 && b.len() == 0 {
        assert(a =~= b);
    }
}

proof fn lemma_key_lt_trans(a: Seq<char>, b: Seq<char>, c: Seq<char>)
    ensures
        spec_key_lt(a, b) && spec_key_lt(b, c) ==> spec_key_lt(a, c),
    decreases a.len(),
{
    if a.len() > 0 && b.len() > 0 && c.len() > 0 {
        lemma_char_lt_order(a[0], b[0], c[0]);
        if a[0] == b[0] && b[0] == c[0] {
            lemma_key_lt_trans(a.drop_first(), b.drop_first(), c.drop_first());
        }
    }
}

proof fn lemma_insert_commutes(s: Seq<(Seq<char>, Seq<char>)>, x: (Seq<char>, Seq<char>), y: (Seq<char>, Seq<char>))
    requires
        x.0 != y.0,
    ensures
        spec_insert_member(spec_insert_member(s, x), y) == spec_insert_member(spec_insert_member(s, y), x),
    decreases s.len(),
{
    lemma_key_lt_total(x.0, y.0);
    lemma_key_lt_asym(x.0, y.0);
    if s.len() == 0 {
        let sx = spec_insert_member(s, x);
        let sy = spec_insert_member(s, y);
        assert(sx == seq![x]);
        assert(sy == seq![y]);
        assert(sx.drop_last() =~= s);
        assert(sy.drop_last() =~= s);
        assert(spec_insert_member(sx, y) =~= spec_insert_member(sy, x));
    } else {
        let l = s.last();
        let p = s.drop_last();
        lemma_key_lt_total(x.0, l.0);
        lemma_key_lt_total(y.0, l.0);
        lemma_key_lt_trans(y.0, l.0, x.0);
        lemma_key_lt_trans(x.0, l.0, y.0);
        let xl = spec_key_lt(x.0, l.0);
        let yl = spec_key_lt(y.0, l.0);
        if !xl && !yl {
            let sx = s.push(x);
            let sy = s.push(y);
            assert(sx.drop_last() =~= s);
            assert(sy.drop_last() =~= s);
            assert(spec_insert_member(s, x) == sx);
            assert(spec_insert_member(s, y) == sy);
            if spec_key_lt(y.0, x.0) {
                assert(spec_insert_member(sx, y) == sy.push(x));
                assert(spec_insert_member(sy, x) == sy.push(x));
            } else {
                assert(spec_insert_member(sx, y) == sx.push(y));
                assert(spec_insert_member(sy, x) == sx.push(y));
            }
        } else if xl && yl {
            lemma_insert_commutes(p, x, y);
            let ix = spec_insert_member(p, x);
            let iy = spec_insert_member(p, y);
            assert(ix.push(l).drop_last() =~= ix);
            assert(iy.push(l).drop_last() =~= iy);
        } else if !xl && yl {
            let sx = s.push(x);
            assert(sx.drop_last() =~= s);
            assert(spec_key_lt(y.0, x.0));
            let iy = spec_insert_member(p, y);
            assert(iy.push(l).drop_last() =~= iy);
        } else {
            let sy = s.push(y);
            assert(sy.drop_last() =~= s);
            assert(spec_key_lt(x.0, y.0));
            let ix = spec_insert_member(p, x);
            assert(ix.push(l).drop_last() =~= ix);
        }
    }
}

/// `s` with the elements at `k` and `k + 1` exchanged.
pub open spec fn spec_swap<T>(s: Seq<T>, k: int) -> Seq<T> {
    s.update(k, s[k + 1]).update(k + 1, s[k])
}

proof fn lemma_sort_swap(s: Seq<(Seq<char>, Seq<char>)>, k: int)
    requires
        0 <= k,
        k + 1 < s.len(),
        s[k].0 != s[k + 1].0,
    ensures
        spec_sort_members(spec_swap(s, k)) == spec_sort_members(s),
    decreases s.len(),
{
    let t = spec_swap(s, k);
    if k + 2 == s.len() {
        let p = s.take(k);
        let a = s[k];
        let b = s[k + 1];
        assert(s.drop_last() =~= p.push(a));
        assert(t.drop_last() =~= p.push(b));
        assert(p.push(a).drop_last() =~= p);
        assert(p.push(b).drop_last() =~= p);
        assert(s.last() == b && t.last() == a);
        assert(p.push(a).last() == a && p.push(b).last() == b);
        assert(spec_sort_members(s) == spec_insert_member(spec_sort_members(p.push(a)), b));
        assert(spec_sort_members(t) == spec_insert_member(spec_sort_members(p.push(b)), a));
        assert(spec_sort_members(p.push(a)) == spec_insert_member(spec_sort_members(p), a));
        assert(spec_sort_members(p.push(b)) == spec_insert_member(spec_sort_members(p), b));
        lemma_insert_commutes(spec_sort_members(p), a, b);
    } else {
        assert(t.drop_last() =~= spec_swap(s.drop_last(), k));
        assert(t.last() == s.last());
        assert(spec_sort_members(s) == spec_insert_member(spec_sort_members(s.drop_last()), s.last()));
        assert(spec_sort_members(t) == spec_insert_member(spec_sort_members(t.drop_last()), t.last()));
        lemma_sort_swap(s.drop_last(), k);
    }
}

proof fn lemma_member_pairs_index(m: Seq<(String, JsonValue)>)
    ensures
        spec_member_pairs(m).len() == m.len(),
        forall|i: int| 0 <= i < m.len() ==> #[trigger] spec_member_pairs(m)[i] == (m[i].0@, spec_jcs(m[i].1)),
    decreases m.len(),
{
    if m.len() > 0 {
        lemma_member_pairs_index(m.drop_last());
    }
}

/// Canonicalization does not echo the order the caller gave object members
/// in: exchanging two neighbouring members with different keys leaves the
/// canonical text unchanged. Any reordering of members with distinct keys is
/// a series of such exchanges, so it leaves the text, and every digest over
/// it, unchanged.
pub proof fn canonical_text_ignores_member_order(a: Vec<(String, JsonValue)>, b: Vec<(String, JsonValue)>, k: int)
    requires
        0 <= k,
        k + 1 < a@.len(),
        a@[k].0@ != a@[k + 1].0@,
        b@ == spec_swap(a@, k),
    ensures
        spec_jcs(JsonValue::Object(a)) == spec_jcs(JsonValue::Object(b)),
{
    lemma_member_pairs_index(a@);
    lemma_member_pairs_index(b@);
    let pa = spec_member_pairs(a@);
    let pb = spec_member_pairs(b@);
    assert(pb =~= spec_swap(pa, k));
    lemma_sort_swap(pa, k);
}

/// Whether no member's key sorts before an earlier member's key.
pub open spec fn spec_members_in_key_order(s: Seq<(Seq<char>, Seq<char>)>) -> bool {
    forall|i: int, j: int| 0 <= i < j < s.len() ==> !spec_key_lt((#[trigger] s[j]).0, (#[trigger] s[i]).0)
}

proof fn lemma_insert_member_in(sorted: Seq<(Seq<char>, Seq<char>)>, x: (Seq<char>, Seq<char>), k: int)
    requires
        0 <= k < spec_insert_member(sorted, x).len(),
    ensures
        spec_insert_member(sorted, x)[k] == x || exists|m: int|
            0 <= m < sorted.len() && #[trigger] sorted[m] == spec_insert_member(sorted, x)[k],
    decreases sorted.len(),
{
    lemma_insert_member_len(sorted, x);
    if sorted.len() == 0 {
    } else if !spec_key_lt(x.0, sorted.last().0) {
        if k < sorted.len() {
            assert(sorted[k] == spec_insert_member(sorted, x)[k]);
        }
    } else {
        let rest = sorted.drop_last();
        let inner = spec_insert_member(rest, x);
        lemma_insert_member_len(rest, x);
        if k < inner.len() {
            lemma_insert_member_in(rest, x, k);
            if inner[k] != x {
                let m = choose|m: int| 0 <= m < rest.len() && #[trigger] rest[m] == inner[k];
                assert(sorted[m] == rest[m]);
            }
        } else {
            assert(sorted[sorted.len() - 1] == spec_insert_member(sorted, x)[k]);
        }
    }
}

proof fn lemma_insert_member_keeps_order(sorted: Seq<(Seq<char>, Seq<char>)>, x: (Seq<char>, Seq<char>))
    requires
        spec_members_in_key_order(sorted),
    ensures
        spec_members_in_key_order(spec_insert_member(sorted, x)),
    decreases sorted.len(),
{
    lemma_insert_member_len(sorted, x);
    if sorted.len() == 0 {
    } else if !spec_key_lt(x.0, sorted.last().0) {
        let r = sorted.push(x);
        let last = sorted.last();
        assert forall|i: int, j: int| 0 <= i < j < r.len() implies !spec_key_lt((#[trigger] r[j]).0, (
        #[trigger] r[i]).0) by {
            if j == sorted.len() {
                assert(r[i] == sorted[i]);
                if i < sorted.len() - 1 {
                    assert(!spec_key_lt(sorted[sorted.len() - 1].0, sorted[i].0));
                }
                lemma_key_lt_total(sorted[i].0, last.0);
                lemma_key_lt_trans(x.0, sorted[i].0, last.0);
            } else {
                assert(r[i] == sorted[i] && r[j] == sorted[j]);
            }
        }
    } else {
        let rest = sorted.drop_last();
        let last = sorted.last();
        assert forall|i: int, j: int| 0 <= i < j < rest.len() implies !spec_key_lt((#[trigger] rest[j]).0, (
        #[trigger] rest[i]).0) by {
            assert(rest[i] == sorted[i] && rest[j] == sorted[j]);
        }
        lemma_insert_member_keeps_order(rest, x);
        lemma_insert_member_len(rest, x);
        let inner = spec_insert_member(rest, x);
        let r = inner.push(last);
        assert forall|i: int, j: int| 0 <= i < j < r.len() implies !spec_key_lt((#[trigger] r[j]).0, (
        #[trigger] r[i]).0) by {
            if j == inner.len() {
                assert(r[i] == inner[i]);
                lemma_insert_member_in(rest, x, i);
                if inner[i] == x {
                    lemma_key_lt_asym(x.0, last.0);
                } else {
                    let m = choose|m: int| 0 <= m < rest.len() && #[trigger] rest[m] == inner[i];
                    assert(sorted[m] == rest[m]);
                    assert(!spec_key_lt(sorted[sorted.len() - 1].0, sorted[m].0));
                }
            } else {
                assert(r[i] == inner[i] && r[j] == inner[j]);
            }
        }
    }
}

/// The canonical text lists an object's members in key order: after the
/// stable sort that canonical text applies, no member's key sorts before an
/// earlier one's, so a key always comes before the longer keys it begins.
pub proof fn canonical_members_are_in_key_order(s: Seq<(Seq<char>, Seq<char>)>)
    ensures
        spec_members_in_key_order(spec_sort_members(s)),
    decreases s.len(),
{
    if s.len() > 0 {
        canonical_members_are_in_key_order(s.drop_last());
        lemma_insert_member_keeps_order(spec_sort_members(s.drop_last()), s.last());
    }
}

} // verus!
