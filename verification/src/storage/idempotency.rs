//! Durable idempotency bindings for D/M operations.
//!
//! Each binding maps an idempotency key to the transaction it created, the
//! fingerprint of the parameters that created it and the serialized result.
//! The files live under the store's root, one per key; they are read and
//! written by the caller.

use crate::protocol::WireState;
use crate::storage::wal::WalRecord;
use crate::text::push_char;
use std::hash::{Hash, Hasher};
use vstd::prelude::*;
use vstd::string::StringExecFns;

verus! {

/// One durable idempotency binding with the first serialized result.
#[derive(Debug, Clone, PartialEq, Eq)]
pub struct IdempotencyRecord {
    pub key: String,
    pub tx_id: String,
    pub fingerprint: String,
    pub result_json: String,
}

/// What a binding stands for.
pub struct BindingView {
    pub key: Seq<char>,
    pub tx_id: Seq<char>,
    pub fingerprint: Seq<char>,
    pub result_json: Seq<char>,
}

pub open spec fn binding_view(r: IdempotencyRecord) -> BindingView {
    BindingView { key: r.key@, tx_id: r.tx_id@, fingerprint: r.fingerprint@, result_json: r.result_json@ }
}

/// The operation whose idempotency a WAL state records: a proposal or an
/// apply.
pub open spec fn spec_op_for_state(state: WireState) -> Option<&'static str> {
    match state {
        WireState::Proposed => Some("config.propose"),
        WireState::Applying => Some("tx.apply"),
        _ => None,
    }
}

pub fn op_for_state(state: WireState) -> (r: Option<&'static str>)
    ensures
        r == spec_op_for_state(state),
{
    match state {
        WireState::Proposed => Some("config.propose"),
        WireState::Applying => Some("tx.apply"),
        _ => None,
    }
}

/// The 64-bit hash `std::hash::DefaultHasher` gives a key.
pub uninterp spec fn spec_hash_key(key: Seq<char>) -> u64;

/// `DefaultHasher::new()` fed the key through `Hash`, then `finish`. std
/// documents every hasher made by `new` as the same one (unkeyed), so the
/// value depends on the key alone within a build; nothing else about it is
/// stated, and the algorithm may differ between Rust releases.
#[verifier::external_body]
fn hash_key(key: &str) -> (h: u64)
    ensures
        h == spec_hash_key(key@),
{
    let mut hasher = std::collections::hash_map::DefaultHasher::new();
    key.hash(&mut hasher);
    hasher.finish()
}

/// Lowercase hexadecimal digit.
pub open spec fn spec_lower_hex(n: u64) -> char {
    if n < 10 {
        (('0' as u64) + n) as char
    } else {
        (('a' as u64) + (n - 10)) as char
    }
}

/// `n` in `width` lowercase hexadecimal digits, zero-padded.
pub open spec fn spec_hex_fixed(n: u64, width: nat) -> Seq<char>
    decreases width,
{
    if width == 0 {
        Seq::empty()
    } else {
        spec_hex_fixed(n / 16, (width - 1) as nat).push(spec_lower_hex(n % 16))
    }
}

fn push_hex_fixed(out: &mut String, n: u64, width: u64)
    requires
        width <= 16,
    ensures
        final(out)@ == old(out)@ + spec_hex_fixed(n, width as nat),
    decreases width,
{
    if width > 0 {
        push_hex_fixed(out, n / 16, width - 1);
        let d = n % 16;
        let c = if d < 10 {
            (48u8 + d as u8) as char
        } else {
            (97u8 + (d as u8 - 10)) as char
        };
        push_char(out, c);
    }
}

/// The file a binding lives in: the key's hash in 16 hex digits, `.json`.
pub open spec fn spec_binding_file_name(key: Seq<char>) -> Seq<char> {
    spec_hex_fixed(spec_hash_key(key), 16) + ".json"@
}

pub fn binding_file_name(key: &str) -> (r: String)
    ensures
        r@ == spec_binding_file_name(key@),
{
    let mut s = String::new();
    push_hex_fixed(&mut s, hash_key(key), 16);
    s.append(".json");
    s
}

/// The binding under `key`, if any.
pub open spec fn spec_find_binding(entries: Seq<BindingView>, key: Seq<char>) -> int
    decreases entries.len(),
{
    if entries.len() == 0 {
        -1
    } else if entries.last().key == key {
        entries.len() - 1
    } else {
        spec_find_binding(entries.drop_last(), key)
    }
}

/// `entries` with `b` in place of the binding of the same key, or added.
pub open spec fn spec_put(entries: Seq<BindingView>, b: BindingView) -> Seq<BindingView> {
    let i = spec_find_binding(entries, b.key);
    if i >= 0 {
        entries.update(i, b)
    } else {
        entries.push(b)
    }
}

/// `entries` with `b` added unless its key is bound already.
pub open spec fn spec_put_if_absent(entries: Seq<BindingView>, b: BindingView) -> Seq<BindingView> {
    if spec_find_binding(entries, b.key) >= 0 {
        entries
    } else {
        entries.push(b)
    }
}

/// The binding a WAL record restores, if it restores one: a record with an
/// idempotency key and a result, in a state that records an operation, binds
/// `agent:op:key` to its transaction, under its fingerprint or, lacking one,
/// its transaction id.
pub open spec fn spec_wal_binding(r: WalRecord) -> Option<BindingView> {
    match (r.idempotency_key, r.result_json, spec_op_for_state(r.state)) {
        (Some(key), Some(result), Some(op)) => Some(
            BindingView {
                key: r.agent_id@ + seq![':'] + op@ + seq![':'] + key@,
                tx_id: r.tx_id@,
                fingerprint: match r.idem_fingerprint {
                    Some(f) => f@,
                    None => r.tx_id@,
                },
                result_json: result@,
            },
        ),
        _ => None,
    }
}

/// The bindings after merging `records` in order, earlier bindings kept.
pub open spec fn spec_merge(entries: Seq<BindingView>, records: Seq<WalRecord>) -> Seq<BindingView>
    decreases records.len(),
{
    if records.len() == 0 {
        entries
    } else {
        let before = spec_merge(entries, records.drop_last());
        match spec_wal_binding(records.last()) {
            Some(b) => spec_put_if_absent(before, b),
            None => before,
        }
    }
}

/// The idempotency index rooted at a directory.
#[derive(Debug)]
pub struct IdempotencyStore {
    root: String,
    entries: Vec<IdempotencyRecord>,
}

impl IdempotencyStore {
    pub closed spec fn spec_root(&self) -> Seq<char> {
        self.root@
    }

    pub closed spec fn spec_entries(&self) -> Seq<BindingView> {
        self.entries@.map_values(|r: IdempotencyRecord| binding_view(r))
    }

    /// Open over the bindings read from the root, in the order read: a later
    /// binding of a key replaces an earlier one.
    pub fn open_with(root: String, loaded: Vec<IdempotencyRecord>) -> (s: IdempotencyStore)
        ensures
            s.spec_root() == root@,
            s.spec_entries() == spec_put_all(Seq::empty(), loaded@.map_values(|r: IdempotencyRecord| binding_view(r))),
    {
        let mut s = IdempotencyStore { root, entries: Vec::new() };
        let ghost lv = loaded@.map_values(|r: IdempotencyRecord| binding_view(r));
        assert(s.spec_entries() =~= Seq::<BindingView>::empty());
        let mut rest = loaded;
        let ghost all = rest@;
        assert(all.subrange(0, 0).map_values(|r: IdempotencyRecord| binding_view(r)) =~= Seq::<BindingView>::empty());
        while rest.len() > 0
            invariant
                lv == all.map_values(|r: IdempotencyRecord| binding_view(r)),
                rest@.len() <= all.len(),
                rest@ == all.subrange(all.len() - rest@.len(), all.len() as int),
                s.spec_root() == root@,
                s.spec_entries() == spec_put_all(Seq::empty(), lv.take(all.len() - rest@.len())),
            decreases rest@.len(),
        {
            let ghost k: int = all.len() - rest@.len();
            let ghost before = rest@;
            assert(before[0] == all[k]);
            let r = rest.remove(0);
            assert(rest@ =~= all.subrange(all.len() - rest@.len(), all.len() as int));
            assert(lv.take(k + 1).drop_last() =~= lv.take(k));
            assert(lv.take(k + 1).last() == binding_view(r));
            s.put(r);
        }
        assert(lv.take(all.len() as int) =~= lv);
        s
    }

    fn find(&self, key: &str) -> (r: Option<usize>)
        ensures
            match r {
                Some(i) => i as int == spec_find_binding(self.spec_entries(), key@) && i < self.entries@.len(),
                None => spec_find_binding(self.spec_entries(), key@) == -1,
            },
    {
        let ghost ev = self.spec_entries();
        let mut n: usize = self.entries.len();
        assert(ev.subrange(0, n as int) =~= ev);
        while n > 0
            invariant
                n <= self.entries@.len(),
                ev == self.spec_entries(),
                spec_find_binding(ev, key@) == spec_find_binding(ev.subrange(0, n as int), key@),
            decreases n,
        {
            let ghost pre = ev.subrange(0, n as int);
            assert(pre.drop_last() =~= ev.subrange(0, n - 1));
            if self.entries[n - 1].key == key.to_owned() {
                return Some(n - 1);
            }
            n = n - 1;
        }
        None
    }

    fn put(&mut self, record: IdempotencyRecord)
        ensures
            final(self).spec_entries() == spec_put(old(self).spec_entries(), binding_view(record)),
            final(self).spec_root() == old(self).spec_root(),
    {
        let ghost before = self.spec_entries();
        let ghost bv = binding_view(record);
        match self.find(record.key.as_str()) {
            Some(i) => {
                self.entries.set(i, record);
                assert(self.spec_entries() =~= before.update(i as int, bv));
            },
            None => {
                self.entries.push(record);
                assert(self.spec_entries() =~= before.push(bv));
            },
        }
    }

    /// The binding under `key`.
    pub fn get(&self, key: &str) -> (r: Option<IdempotencyRecord>)
        ensures
            match spec_lookup(self.spec_entries(), key@) {
                Some(bv) => r matches Some(b) && binding_view(b) == bv,
                None => r is None,
            },
            match r {
                Some(b) => spec_find_binding(self.spec_entries(), key@) >= 0 && binding_view(b)
                    == self.spec_entries()[spec_find_binding(self.spec_entries(), key@)],
                None => spec_find_binding(self.spec_entries(), key@) == -1,
            },
    {
        match self.find(key) {
            None => None,
            Some(i) => {
                let e = &self.entries[i];
                Some(
                    IdempotencyRecord {
                        key: e.key.clone(),
                        tx_id: e.tx_id.clone(),
                        fingerprint: e.fingerprint.clone(),
                        result_json: e.result_json.clone(),
                    },
                )
            },
        }
    }

    /// Where a binding is written: first the temporary file, then its final
    /// name, both under the root.
    pub fn paths_for(&self, key: &str) -> (r: (String, String))
        ensures
            r.1@ == self.spec_root() + seq!['/'] + spec_binding_file_name(key@),
            r.0@ == r.1@ + ".tmp"@,
    {
        let name = binding_file_name(key);
        let mut path = self.root.clone();
        push_char(&mut path, '/');
        path.append(name.as_str());
        let mut temp = path.clone();
        temp.append(".tmp");
        (temp, path)
    }

    /// Record a binding once its file is durable.
    pub fn note_inserted(&mut self, record: IdempotencyRecord)
        ensures
            final(self).spec_entries() == spec_put(old(self).spec_entries(), binding_view(record)),
            final(self).spec_root() == old(self).spec_root(),
    {
        self.put(record);
    }

    /// Restore bindings from WAL records; a key already bound keeps its
    /// binding.
    pub fn merge_from_wal(&mut self, records: &Vec<WalRecord>)
        ensures
            final(self).spec_entries() == spec_merge(old(self).spec_entries(), records@),
            final(self).spec_root() == old(self).spec_root(),
    {
        let ghost start = self.spec_entries();
        let mut i: usize = 0;
        assert(records@.take(0) =~= Seq::<WalRecord>::empty());
        while i < records.len()
            invariant
                i <= records@.len(),
                self.spec_entries() == spec_merge(start, records@.take(i as int)),
                self.spec_root() == old(self).spec_root(),
            decreases records@.len() - i,
        {
            assert(records@.take(i + 1).drop_last() =~= records@.take(i as int));
            assert(records@.take(i + 1).last() == records@[i as int]);
            let record = &records[i];
            match (&record.idempotency_key, &record.result_json, op_for_state(record.state)) {
                (Some(key), Some(result), Some(op)) => {
                    let mut binding_key = record.agent_id.clone();
                    push_char(&mut binding_key, ':');
                    binding_key.append(op);
                    push_char(&mut binding_key, ':');
                    binding_key.append(key.as_str());
                    assert(binding_key@ =~= record.agent_id@ + seq![':'] + op@ + seq![':'] + key@);
                    let fingerprint = match &record.idem_fingerprint {
                        Some(f) => f.clone(),
                        None => record.tx_id.clone(),
                    };
                    if self.find(binding_key.as_str()).is_none() {
                        let ghost before = self.spec_entries();
                        let b = IdempotencyRecord {
                            key: binding_key,
                            tx_id: record.tx_id.clone(),
                            fingerprint,
                            result_json: result.clone(),
                        };
                        let ghost bv = binding_view(b);
                        self.entries.push(b);
                        assert(self.spec_entries() =~= before.push(bv));
                    }
                },
                _ => {},
            }
            i = i + 1;
        }
        assert(records@.take(records@.len() as int) =~= records@);
    }
}

/// The bindings after putting each of `bs` in order.
pub open spec fn spec_put_all(entries: Seq<BindingView>, bs: Seq<BindingView>) -> Seq<BindingView>
    decreases bs.len(),
{
    if bs.len() == 0 {
        entries
    } else {
        spec_put(spec_put_all(entries, bs.drop_last()), bs.last())
    }
}


/// What `get` finds under `key`: the binding at [`spec_find_binding`], if any.
pub open spec fn spec_lookup(entries: Seq<BindingView>, key: Seq<char>) -> Option<BindingView> {
    let i = spec_find_binding(entries, key);
    if i >= 0 {
        Some(entries[i])
    } else {
        None
    }
}

proof fn lemma_find_in_range(entries: Seq<BindingView>, key: Seq<char>)
    ensures
        -1 <= spec_find_binding(entries, key) < entries.len(),
        spec_find_binding(entries, key) >= 0 ==> entries[spec_find_binding(entries, key)].key == key,
    decreases entries.len(),
{
    if entries.len() > 0 {
        lemma_find_in_range(entries.drop_last(), key);
    }
}

/// Two binding sequences with the same keys in the same places find every
/// key at the same place.
proof fn lemma_find_same_keys(a: Seq<BindingView>, b: Seq<BindingView>, key: Seq<char>)
    requires
        a.len() == b.len(),
        forall|i: int| 0 <= i < a.len() ==> (#[trigger] a[i]).key == b[i].key,
    ensures
        spec_find_binding(a, key) == spec_find_binding(b, key),
    decreases a.len(),
{
    if a.len() > 0 {
        assert(a.last().key == b.last().key);
        assert forall|i: int| 0 <= i < a.drop_last().len() implies (#[trigger] a.drop_last()[i]).key
            == b.drop_last()[i].key by {
            assert(a.drop_last()[i] == a[i] && b.drop_last()[i] == b[i]);
        }
        lemma_find_same_keys(a.drop_last(), b.drop_last(), key);
    }
}

proof fn lemma_find_after_push(entries: Seq<BindingView>, b: BindingView, key: Seq<char>)
    ensures
        spec_find_binding(entries.push(b), key) == if b.key == key {
            entries.len() as int
        } else {
            spec_find_binding(entries, key)
        },
{
    assert(entries.push(b).drop_last() =~= entries);
}

/// A binding put under its key is what a later `get` of that key finds.
pub proof fn get_finds_what_was_put(entries: Seq<BindingView>, b: BindingView)
    ensures
        spec_lookup(spec_put(entries, b), b.key) == Some(b),
{
    lemma_find_in_range(entries, b.key);
    let i = spec_find_binding(entries, b.key);
    if i >= 0 {
        let after = entries.update(i, b);
        assert forall|j: int| 0 <= j < entries.len() implies (#[trigger] entries[j]).key == after[j].key by {}
        lemma_find_same_keys(entries, after, b.key);
    } else {
        lemma_find_after_push(entries, b, b.key);
    }
}

/// Putting a binding leaves what `get` finds under every other key as it was.
pub proof fn put_leaves_other_keys(entries: Seq<BindingView>, b: BindingView, key: Seq<char>)
    requires
        key != b.key,
    ensures
        spec_lookup(spec_put(entries, b), key) == spec_lookup(entries, key),
{
    lemma_find_in_range(entries, b.key);
    lemma_find_in_range(entries, key);
    let i = spec_find_binding(entries, b.key);
    if i >= 0 {
        let after = entries.update(i, b);
        assert forall|j: int| 0 <= j < entries.len() implies (#[trigger] entries[j]).key == after[j].key by {}
        lemma_find_same_keys(entries, after, key);
        let k = spec_find_binding(entries, key);
        if k >= 0 {
            assert(k != i);
        }
    } else {
        lemma_find_after_push(entries, b, key);
    }
}

/// Merging WAL records never replaces a binding: a key bound before the
/// merge is found bound to the same binding after it.
pub proof fn merge_never_replaces_a_binding(entries: Seq<BindingView>, records: Seq<WalRecord>, key: Seq<char>)
    requires
        spec_lookup(entries, key) is Some,
    ensures
        spec_lookup(spec_merge(entries, records), key) == spec_lookup(entries, key),
    decreases records.len(),
{
    if records.len() > 0 {
        merge_never_replaces_a_binding(entries, records.drop_last(), key);
        let before = spec_merge(entries, records.drop_last());
        match spec_wal_binding(records.last()) {
            Some(b) => {
                lemma_find_in_range(before, key);
                if spec_find_binding(before, b.key) < 0 {
                    lemma_find_after_push(before, b, key);
                    if b.key == key {
                        assert(false);
                    }
                }
            },
            None => {},
        }
    }
}

/// `get` after `note_inserted` finds what was put: a store whose bindings
/// are those of `before` with `record` put finds `record` under its key.
pub proof fn get_after_note_inserted_finds_it(
    before: IdempotencyStore,
    after: IdempotencyStore,
    record: IdempotencyRecord,
)
    requires
        after.spec_entries() == spec_put(before.spec_entries(), binding_view(record)),
    ensures
        spec_lookup(after.spec_entries(), record.key@) == Some(binding_view(record)),
{
    get_finds_what_was_put(before.spec_entries(), binding_view(record));
}

/// A store opened with nothing loaded finds no key.
pub proof fn an_empty_store_finds_nothing(key: Seq<char>)
    ensures
        spec_lookup(Seq::empty(), key) is None,
{
}

} // verus!
