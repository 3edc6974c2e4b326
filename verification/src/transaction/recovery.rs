//! WAL semantic validation during broker recovery.
//!
//! Every transaction's records, taken in sequence order (records with equal
//! sequence numbers keep their position in the WAL), must start at
//! `Proposed`, keep one binding throughout and move only along the broker's
//! transition table. `tx.state` events may lag the WAL but never run ahead of
//! it or disagree with it.

use crate::events::StoredEvent;
use crate::json::{fields_view, parse_json_object, spec_json_object_fields};
use crate::protocol::WireState;
use crate::sort::{lemma_sort_members, sort_by_key, spec_sort_by_key, SortKey};
use crate::storage::wal::{same_binding, spec_same_binding, WalRecord, SUPPORTED_RECORD_VERSION};
use crate::transaction::state::{
    broker_may_enter, is_watchdog_owned, spec_broker_may_enter, spec_from_wire, spec_is_watchdog_owned,
    TransactionState,
};
use vstd::prelude::*;

verus! {

/// A WAL record's position in the record list and its sequence number.
#[derive(Debug, Clone, Copy, PartialEq, Eq)]
pub struct ChainEntry {
    pub seq: u64,
    pub idx: usize,
}

impl SortKey for ChainEntry {
    open spec fn spec_key(&self) -> u64 {
        self.seq
    }

    fn sort_key(&self) -> (k: u64) {
        self.seq
    }
}

/// The entries of the first `n` records that belong to transaction `tx`, in
/// WAL order.
pub open spec fn spec_chain_entries(records: Seq<WalRecord>, n: int, tx: Seq<char>) -> Seq<ChainEntry>
    decreases n,
{
    if n <= 0 {
        Seq::empty()
    } else {
        let rest = spec_chain_entries(records, n - 1, tx);
        if records[n - 1].tx_id@ == tx {
            rest.push(ChainEntry { seq: records[n - 1].seq, idx: (n - 1) as usize })
        } else {
            rest
        }
    }
}

/// Transaction `tx`'s records in sequence order.
pub open spec fn spec_chain_order(records: Seq<WalRecord>, tx: Seq<char>) -> Seq<ChainEntry> {
    spec_sort_by_key(spec_chain_entries(records, records.len() as int, tx))
}

/// Two consecutive records of one chain agree on the binding, and the
/// broker may move from the first one's state to the second one's.
pub open spec fn spec_link_ok(prev: WalRecord, next: WalRecord) -> bool {
    &&& spec_same_binding(prev, next)
    &&& spec_broker_may_enter(spec_from_wire(prev.state), spec_from_wire(next.state))
}

/// Transaction `tx`'s chain starts at `Proposed` and every step is a valid link.
pub open spec fn spec_chain_ok(records: Seq<WalRecord>, tx: Seq<char>) -> bool {
    let order = spec_chain_order(records, tx);
    &&& order.len() > 0 ==> records[order[0].idx as int].state == WireState::Proposed
    &&& forall|j: int|
        0 <= j < order.len() - 1 ==> spec_link_ok(
            #[trigger] records[order[j].idx as int],
            records[order[j + 1].idx as int],
        )
}

/// Every record has the supported format and a broker-owned-or-idle state,
/// and every transaction's chain is well formed.
pub open spec fn spec_wal_semantics_valid(records: Seq<WalRecord>) -> bool {
    &&& forall|i: int|
        0 <= i < records.len() ==> (#[trigger] records[i]).record_version == SUPPORTED_RECORD_VERSION
            && !spec_is_watchdog_owned(records[i].state)
    &&& forall|i: int| 0 <= i < records.len() ==> spec_chain_ok(records, (#[trigger] records[i]).tx_id@)
}

proof fn lemma_entries_in_range(records: Seq<WalRecord>, n: int, tx: Seq<char>)
    requires
        0 <= n <= records.len(),
        records.len() <= usize::MAX,
    ensures
        forall|k: int|
            0 <= k < spec_chain_entries(records, n, tx).len() ==> {
                let e = #[trigger] spec_chain_entries(records, n, tx)[k];
                &&& e.idx < n
                &&& e.seq == records[e.idx as int].seq
            },
    decreases n,
{
    if n > 0 {
        lemma_entries_in_range(records, n - 1, tx);
        let rest = spec_chain_entries(records, n - 1, tx);
        let all = spec_chain_entries(records, n, tx);
        assert forall|k: int| 0 <= k < all.len() implies (#[trigger] all[k]).idx < n && all[k].seq
            == records[all[k].idx as int].seq by {
            if k < rest.len() {
                assert(all[k] == rest[k]);
            } else {
                assert(all[k].idx == n - 1);
            }
        }
    }
}

proof fn lemma_order_in_range(records: Seq<WalRecord>, tx: Seq<char>)
    requires
        records.len() <= usize::MAX,
    ensures
        forall|k: int|
            0 <= k < spec_chain_order(records, tx).len() ==> (#[trigger] spec_chain_order(records, tx)[k]).idx
                < records.len(),
{
    let entries = spec_chain_entries(records, records.len() as int, tx);
    lemma_entries_in_range(records, records.len() as int, tx);
    assert forall|k: int| 0 <= k < spec_chain_order(records, tx).len() implies (#[trigger] spec_chain_order(
        records,
        tx,
    )[k]).idx < records.len() by {
        let e = spec_chain_order(records, tx)[k];
        assert(spec_sort_by_key(entries).contains(e));
        lemma_sort_members(entries, e);
        let m = choose|m: int| 0 <= m < entries.len() && entries[m] == e;
        assert(entries[m].idx < records.len());
    }
}

fn chain_entries(records: &Vec<WalRecord>, tx: &String) -> (r: Vec<ChainEntry>)
    ensures
        r@ == spec_chain_entries(records@, records@.len() as int, tx@),
{
    let mut out: Vec<ChainEntry> = Vec::new();
    let mut j: usize = 0;
    while j < records.len()
        invariant
            j <= records@.len(),
            out@ == spec_chain_entries(records@, j as int, tx@),
        decreases records@.len() - j,
    {
        if records[j].tx_id == *tx {
            out.push(ChainEntry { seq: records[j].seq, idx: j });
        }
        j = j + 1;
    }
    out
}

/// Whether transaction `tx`'s chain is well formed.
pub fn chain_ok(records: &Vec<WalRecord>, tx: &String) -> (r: bool)
    ensures
        r == spec_chain_ok(records@, tx@),
{
    let order = sort_by_key(chain_entries(records, tx));
    proof {
        assert(records@.len() == records.len());
        lemma_order_in_range(records@, tx@);
        assert forall|k: int| 0 <= k < order@.len() implies (#[trigger] order@[k]).idx < records@.len() by {
            assert(order@[k] == spec_chain_order(records@, tx@)[k]);
        }
    }
    if order.len() == 0 {
        return true;
    }
    if records[order[0].idx].state != WireState::Proposed {
        return false;
    }
    let mut j: usize = 0;
    while j + 1 < order.len()
        invariant
            order@ == spec_chain_order(records@, tx@),
            order@.len() > 0,
            j + 1 <= order@.len(),
            forall|k: int| 0 <= k < order@.len() ==> (#[trigger] order@[k]).idx < records@.len(),
            forall|k: int|
                0 <= k < j ==> spec_link_ok(#[trigger] records@[order@[k].idx as int], records@[order@[k + 1].idx as int]),
        decreases order@.len() - j,
    {
        let prev = &records[order[j].idx];
        let next = &records[order[j + 1].idx];
        if !same_binding(prev, next) {
            return false;
        }
        if !broker_may_enter(TransactionState::from(prev.state), TransactionState::from(next.state)) {
            return false;
        }
        j = j + 1;
    }
    true
}

/// Validate broker-owned WAL semantics for every transaction chain.
pub fn validate_wal_semantics(records: &Vec<WalRecord>) -> (r: bool)
    ensures
        r == spec_wal_semantics_valid(records@),
{
    let mut i: usize = 0;
    while i < records.len()
        invariant
            i <= records@.len(),
            forall|k: int|
                0 <= k < i ==> (#[trigger] records@[k]).record_version == SUPPORTED_RECORD_VERSION
                    && !spec_is_watchdog_owned(records@[k].state),
        decreases records@.len() - i,
    {
        if records[i].record_version != SUPPORTED_RECORD_VERSION {
            return false;
        }
        if is_watchdog_owned(records[i].state) {
            return false;
        }
        i = i + 1;
    }
    let mut i: usize = 0;
    while i < records.len()
        invariant
            i <= records@.len(),
            forall|k: int|
                0 <= k < records@.len() ==> (#[trigger] records@[k]).record_version == SUPPORTED_RECORD_VERSION
                    && !spec_is_watchdog_owned(records@[k].state),
            forall|k: int| 0 <= k < i ==> spec_chain_ok(records@, (#[trigger] records@[k]).tx_id@),
        decreases records@.len() - i,
    {
        if !chain_ok(records, &records[i].tx_id) {
            return false;
        }
        i = i + 1;
    }
    true
}

/// The transaction state named by its wire name (`"Idle"`, `"Proposed"`, ...).
pub open spec fn spec_state_from_name(name: Seq<char>) -> Option<WireState> {
    if name == "Idle"@ {
        Some(WireState::Idle)
    } else if name == "Proposed"@ {
        Some(WireState::Proposed)
    } else if name == "Testing"@ {
        Some(WireState::Testing)
    } else if name == "Applying"@ {
        Some(WireState::Applying)
    } else if name == "Probation"@ {
        Some(WireState::Probation)
    } else if name == "ProbationPassed"@ {
        Some(WireState::ProbationPassed)
    } else if name == "Committing"@ {
        Some(WireState::Committing)
    } else if name == "Committed"@ {
        Some(WireState::Committed)
    } else if name == "Rejected"@ {
        Some(WireState::Rejected)
    } else if name == "Reverting"@ {
        Some(WireState::Reverting)
    } else if name == "Reverted"@ {
        Some(WireState::Reverted)
    } else {
        None
    }
}

/// The state a wire name denotes, if any.
pub fn state_from_name(name: &String) -> (r: Option<WireState>)
    ensures
        r == spec_state_from_name(name@),
{
    if *name == "Idle".to_owned() {
        Some(WireState::Idle)
    } else if *name == "Proposed".to_owned() {
        Some(WireState::Proposed)
    } else if *name == "Testing".to_owned() {
        Some(WireState::Testing)
    } else if *name == "Applying".to_owned() {
        Some(WireState::Applying)
    } else if *name == "Probation".to_owned() {
        Some(WireState::Probation)
    } else if *name == "ProbationPassed".to_owned() {
        Some(WireState::ProbationPassed)
    } else if *name == "Committing".to_owned() {
        Some(WireState::Committing)
    } else if *name == "Committed".to_owned() {
        Some(WireState::Committed)
    } else if *name == "Rejected".to_owned() {
        Some(WireState::Rejected)
    } else if *name == "Reverting".to_owned() {
        Some(WireState::Reverting)
    } else if *name == "Reverted".to_owned() {
        Some(WireState::Reverted)
    } else {
        None
    }
}

/// The value of the first member named `key`, if there is one.
pub open spec fn spec_field(
    fields: Seq<(Seq<char>, Option<Seq<char>>)>,
    key: Seq<char>,
) -> Option<Option<Seq<char>>>
    decreases fields.len(),
{
    if fields.len() == 0 {
        None
    } else if fields[0].0 == key {
        Some(fields[0].1)
    } else {
        spec_field(fields.drop_first(), key)
    }
}

/// A `tx.state` payload: an object of exactly two members, a non-empty
/// string `tx_id` and a `state` string naming a transaction state.
pub open spec fn spec_parse_tx_state(fields: Seq<(Seq<char>, Option<Seq<char>>)>) -> Option<(Seq<char>, WireState)> {
    if fields.len() != 2 {
        None
    } else {
        match spec_field(fields, "tx_id"@) {
            Some(Some(tx)) => if tx.len() == 0 {
                None
            } else {
                match spec_field(fields, "state"@) {
                    Some(Some(name)) => match spec_state_from_name(name) {
                        Some(state) => Some((tx, state)),
                        None => None,
                    },
                    _ => None,
                }
            },
            _ => None,
        }
    }
}

fn field_value(fields: &Vec<(String, Option<String>)>, key: &String) -> (r: Option<Option<String>>)
    ensures
        spec_field(fields_view(fields@), key@) == match r {
            Some(Some(v)) => Some(Some(v@)),
            Some(None) => Some(None::<Seq<char>>),
            None => None,
        },
{
    let ghost fv = fields_view(fields@);
    let mut i: usize = 0;
    proof {
        assert(fv.subrange(0, fv.len() as int) =~= fv);
    }
    while i < fields.len()
        invariant
            i <= fields@.len(),
            fv == fields_view(fields@),
            spec_field(fv, key@) == spec_field(fv.subrange(i as int, fv.len() as int), key@),
        decreases fields@.len() - i,
    {
        let ghost rest = fv.subrange(i as int, fv.len() as int);
        assert(rest[0] == fv[i as int]);
        if fields[i].0 == *key {
            return match &fields[i].1 {
                Some(v) => Some(Some(v.clone())),
                None => Some(None),
            };
        }
        assert(rest.drop_first() =~= fv.subrange(i + 1, fv.len() as int));
        i = i + 1;
    }
    None
}

/// Parse a `tx.state` payload from its parsed object members.
pub fn parse_tx_state_event_payload(fields: &Vec<(String, Option<String>)>) -> (r: Option<(String, WireState)>)
    ensures
        spec_parse_tx_state(fields_view(fields@)) == match r {
            Some((tx, state)) => Some((tx@, state)),
            None => None,
        },
{
    if fields.len() != 2 {
        return None;
    }
    let tx = match field_value(fields, &"tx_id".to_owned()) {
        Some(Some(tx)) => tx,
        _ => {
            return None;
        },
    };
    if tx.unicode_len() == 0 {
        return None;
    }
    let name = match field_value(fields, &"state".to_owned()) {
        Some(Some(name)) => name,
        _ => {
            return None;
        },
    };
    match state_from_name(&name) {
        Some(state) => Some((tx, state)),
        None => None,
    }
}

/// What a `tx.state` event's payload parses to.
pub open spec fn spec_tx_state_payload(payload: Seq<char>) -> Option<(Seq<char>, WireState)> {
    match spec_json_object_fields(payload) {
        Some(fields) => spec_parse_tx_state(fields),
        None => None,
    }
}

/// The `tx.state` events among `events`, parsed, in log order; nothing when
/// one of them does not parse.
pub open spec fn spec_parsed_events(events: Seq<StoredEvent>) -> Option<Seq<(Seq<char>, WireState)>>
    decreases events.len(),
{
    if events.len() == 0 {
        Some(Seq::empty())
    } else {
        match spec_parsed_events(events.drop_last()) {
            None => None,
            Some(parsed) => if events.last().kind@ == "tx.state"@ {
                match spec_tx_state_payload(events.last().payload@) {
                    Some(p) => Some(parsed.push(p)),
                    None => None,
                }
            } else {
                Some(parsed)
            },
        }
    }
}

/// The states the parsed events report for transaction `tx`, in order.
pub open spec fn spec_event_states(parsed: Seq<(Seq<char>, WireState)>, tx: Seq<char>) -> Seq<WireState>
    decreases parsed.len(),
{
    if parsed.len() == 0 {
        Seq::empty()
    } else {
        let rest = spec_event_states(parsed.drop_last(), tx);
        if parsed.last().0 == tx {
            rest.push(parsed.last().1)
        } else {
            rest
        }
    }
}

/// The states the WAL records for transaction `tx`, in chain order.
pub open spec fn spec_wal_states(records: Seq<WalRecord>, tx: Seq<char>) -> Seq<WireState> {
    spec_chain_order(records, tx).map_values(|e: ChainEntry| records[e.idx as int].state)
}

/// Whether `a` is a prefix of `b`.
pub open spec fn spec_is_prefix(a: Seq<WireState>, b: Seq<WireState>) -> bool {
    a.len() <= b.len() && a == b.subrange(0, a.len() as int)
}

/// Every `tx.state` event parses, and for every transaction the states its
/// events report are a prefix of the states its WAL chain records.
pub open spec fn spec_events_consistent_with_wal(records: Seq<WalRecord>, events: Seq<StoredEvent>) -> bool {
    match spec_parsed_events(events) {
        None => false,
        Some(parsed) => forall|i: int|
            0 <= i < parsed.len() ==> spec_is_prefix(
                spec_event_states(parsed, (#[trigger] parsed[i]).0),
                spec_wal_states(records, parsed[i].0),
            ),
    }
}

/// The view of parsed `(tx_id, state)` pairs.
pub open spec fn pairs_view(v: Seq<(String, WireState)>) -> Seq<(Seq<char>, WireState)> {
    Seq::new(v.len(), |i: int| (v[i].0@, v[i].1))
}

proof fn lemma_parse_failure_persists(events: Seq<StoredEvent>, n: int)
    requires
        0 <= n <= events.len(),
        spec_parsed_events(events.subrange(0, n)).is_none(),
    ensures
        spec_parsed_events(events).is_none(),
    decreases events.len(),
{
    if events.len() == n {
        assert(events.subrange(0, n) =~= events);
    } else {
        assert(events.drop_last().subrange(0, n) =~= events.subrange(0, n));
        lemma_parse_failure_persists(events.drop_last(), n);
    }
}

fn parsed_events(events: &Vec<StoredEvent>) -> (r: Option<Vec<(String, WireState)>>)
    ensures
        spec_parsed_events(events@) == match r {
            Some(v) => Some(pairs_view(v@)),
            None => None,
        },
{
    let mut out: Vec<(String, WireState)> = Vec::new();
    let mut j: usize = 0;
    while j < events.len()
        invariant
            j <= events@.len(),
            spec_parsed_events(events@.subrange(0, j as int)) == Some(pairs_view(out@)),
        decreases events@.len() - j,
    {
        proof {
            let t = events@.subrange(0, j + 1);
            assert(t.drop_last() =~= events@.subrange(0, j as int));
            assert(t.last() == events@[j as int]);
        }
        if events[j].kind == "tx.state".to_owned() {
            let fields = match parse_json_object(events[j].payload.as_str()) {
                Some(f) => f,
                None => {
                    proof {
                        lemma_parse_failure_persists(events@, j + 1);
                    }
                    return None;
                },
            };
            match parse_tx_state_event_payload(&fields) {
                Some(p) => {
                    let ghost before = out@;
                    out.push(p);
                    proof {
                        assert(pairs_view(out@) =~= pairs_view(before).push((p.0@, p.1)));
                    }
                },
                None => {
                    proof {
                        lemma_parse_failure_persists(events@, j + 1);
                    }
                    return None;
                },
            }
        }
        j = j + 1;
    }
    proof {
        assert(events@.subrange(0, events@.len() as int) =~= events@);
    }
    Some(out)
}

fn event_states(parsed: &Vec<(String, WireState)>, tx: &String) -> (r: Vec<WireState>)
    ensures
        r@ == spec_event_states(pairs_view(parsed@), tx@),
{
    let ghost pv = pairs_view(parsed@);
    let mut out: Vec<WireState> = Vec::new();
    let mut j: usize = 0;
    while j < parsed.len()
        invariant
            j <= parsed@.len(),
            pv == pairs_view(parsed@),
            out@ == spec_event_states(pv.subrange(0, j as int), tx@),
        decreases parsed@.len() - j,
    {
        proof {
            let t = pv.subrange(0, j + 1);
            assert(t.drop_last() =~= pv.subrange(0, j as int));
            assert(t.last() == pv[j as int]);
        }
        if parsed[j].0 == *tx {
            out.push(parsed[j].1);
        }
        j = j + 1;
    }
    proof {
        assert(pv.subrange(0, pv.len() as int) =~= pv);
    }
    out
}

fn wal_states(records: &Vec<WalRecord>, tx: &String) -> (r: Vec<WireState>)
    ensures
        r@ == spec_wal_states(records@, tx@),
{
    let order = sort_by_key(chain_entries(records, tx));
    proof {
        assert(records@.len() == records.len());
        lemma_order_in_range(records@, tx@);
        assert forall|k: int| 0 <= k < order@.len() implies (#[trigger] order@[k]).idx < records@.len() by {
            assert(order@[k] == spec_chain_order(records@, tx@)[k]);
        }
    }
    let ghost f = |e: ChainEntry| records@[e.idx as int].state;
    let mut out: Vec<WireState> = Vec::new();
    let mut k: usize = 0;
    while k < order.len()
        invariant
            k <= order@.len(),
            order@ == spec_chain_order(records@, tx@),
            forall|m: int| 0 <= m < order@.len() ==> (#[trigger] order@[m]).idx < records@.len(),
            f == (|e: ChainEntry| records@[e.idx as int].state),
            out@ == order@.subrange(0, k as int).map_values(f),
        decreases order@.len() - k,
    {
        out.push(records[order[k].idx].state);
        proof {
            assert(out@ =~= order@.subrange(0, k + 1).map_values(f));
        }
        k = k + 1;
    }
    proof {
        assert(order@.subrange(0, order@.len() as int) =~= order@);
    }
    out
}

fn is_prefix(a: &Vec<WireState>, b: &Vec<WireState>) -> (r: bool)
    ensures
        r == spec_is_prefix(a@, b@),
{
    if a.len() > b.len() {
        return false;
    }
    let mut i: usize = 0;
    while i < a.len()
        invariant
            a@.len() <= b@.len(),
            i <= a@.len(),
            forall|j: int| 0 <= j < i ==> a@[j] == b@[j],
        decreases a@.len() - i,
    {
        if a[i] != b[i] {
            assert(a@[i as int] != b@.subrange(0, a@.len() as int)[i as int]);
            return false;
        }
        i = i + 1;
    }
    assert(a@ =~= b@.subrange(0, a@.len() as int));
    true
}

/// Cross-validate `tx.state` events against the authoritative WAL history.
///
/// The WAL is authoritative: events may lag it when a later write failed, but
/// an event state with no matching WAL transition is divergence.
pub fn validate_tx_state_events_against_wal(records: &Vec<WalRecord>, events: &Vec<StoredEvent>) -> (r: bool)
    ensures
        r == spec_events_consistent_with_wal(records@, events@),
{
    let parsed = match parsed_events(events) {
        Some(p) => p,
        None => {
            return false;
        },
    };
    let ghost pv = pairs_view(parsed@);
    let mut i: usize = 0;
    while i < parsed.len()
        invariant
            i <= parsed@.len(),
            pv == pairs_view(parsed@),
            spec_parsed_events(events@) == Some(pv),
            forall|k: int|
                0 <= k < i ==> spec_is_prefix(
                    spec_event_states(pv, (#[trigger] pv[k]).0),
                    spec_wal_states(records@, pv[k].0),
                ),
        decreases parsed@.len() - i,
    {
        let evs = event_states(&parsed, &parsed[i].0);
        let wal = wal_states(records, &parsed[i].0);
        if !is_prefix(&evs, &wal) {
            assert(pv[i as int].0 == parsed@[i as int].0@);
            assert(!spec_is_prefix(spec_event_states(pv, pv[i as int].0), spec_wal_states(records@, pv[i as int].0)));
            assert(!(forall|k: int|
                0 <= k < pv.len() ==> spec_is_prefix(
                    spec_event_states(pv, (#[trigger] pv[k]).0),
                    spec_wal_states(records@, pv[k].0),
                )));
            assert(spec_parsed_events(events@).unwrap() == pv);
            assert(!spec_events_consistent_with_wal(records@, events@));
            return false;
        }
        i = i + 1;
    }
    true
}

} // verus!
