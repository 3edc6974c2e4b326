//! The durable `agentbed://events` append log and cursor replay.
//!
//! The log file and its metadata are read and written where the log is
//! opened; this module holds the log's metadata, assigns sequence numbers,
//! checks integrity and decides what a cursor replays.

use crate::storage::durability::DurabilityError;
use crate::text::push_char;
use vstd::prelude::*;

verus! {

/// One event to append.
#[derive(Debug, Clone, PartialEq, Eq)]
pub struct EventRecord {
    pub kind: String,
    pub payload: String,
}

/// A stored event with its sequence number.
#[derive(Debug, Clone, PartialEq, Eq)]
pub struct StoredEvent {
    pub seq: u64,
    pub kind: String,
    pub payload: String,
}

/// A client-held replay cursor: the log it belongs to (empty for "this
/// log") and the last sequence number already seen.
#[derive(Debug, Clone, PartialEq, Eq)]
pub struct EventCursor {
    log_id: String,
    seq: u64,
}

impl EventCursor {
    pub closed spec fn spec_log_id(&self) -> Seq<char> {
        self.log_id@
    }

    pub closed spec fn spec_seq(&self) -> u64 {
        self.seq
    }

    /// The cursor just after `event`, in whatever log is replaying it.
    pub fn after(event: &StoredEvent) -> (c: EventCursor)
        ensures
            c.spec_log_id() == Seq::<char>::empty(),
            c.spec_seq() == event.seq,
    {
        EventCursor { log_id: String::new(), seq: event.seq }
    }

    /// The cursor after sequence number `seq` of log `log_id`.
    pub fn after_seq(log_id: String, seq: u64) -> (c: EventCursor)
        ensures
            c.spec_log_id() == log_id@,
            c.spec_seq() == seq,
    {
        EventCursor { log_id, seq }
    }

    /// A cursor naming another log.
    pub fn foreign(log_id: String, seq: u64) -> (c: EventCursor)
        ensures
            c.spec_log_id() == log_id@,
            c.spec_seq() == seq,
    {
        EventCursor { log_id, seq }
    }

    /// The same position in log `log_id`.
    pub fn with_log_id(self, log_id: String) -> (c: EventCursor)
        ensures
            c.spec_log_id() == log_id@,
            c.spec_seq() == self.spec_seq(),
    {
        EventCursor { log_id, seq: self.seq }
    }

    /// The log the cursor names.
    pub fn log_id(&self) -> (r: &str)
        ensures
            r@ == self.spec_log_id(),
    {
        self.log_id.as_str()
    }

    /// The last sequence number the cursor has seen.
    pub fn seq(&self) -> (r: u64)
        ensures
            r == self.spec_seq(),
    {
        self.seq
    }
}

/// Event log failures.
#[derive(Debug, Clone, PartialEq, Eq)]
pub enum EventError {
    MalformedCursor,
    ForeignLog,
    BeyondTail,
    Io(DurabilityError),
}

/// Persisted log metadata.
#[derive(Debug, Clone, PartialEq, Eq)]
pub struct EventMeta {
    pub log_id: String,
    pub next_seq: u64,
}

/// Append-only durable event log.
#[derive(Debug)]
pub struct EventLog {
    root: String,
    meta: EventMeta,
}

/// The events of a log whose sequence numbers are gapless from 1, with the
/// metadata's next number one past the last (1 for an empty log).
pub open spec fn spec_log_intact(events: Seq<StoredEvent>, next_seq: u64) -> bool {
    &&& forall|i: int| 0 <= i < events.len() ==> (#[trigger] events[i]).seq == i + 1
    &&& next_seq == if events.len() == 0 { 1 } else if events.last().seq == u64::MAX { u64::MAX } else { (events.last().seq + 1) as u64 }
}

/// The events strictly after sequence number `seq`, in log order.
pub open spec fn spec_events_after(events: Seq<StoredEvent>, seq: u64) -> Seq<StoredEvent>
    decreases events.len(),
{
    if events.len() == 0 {
        Seq::empty()
    } else {
        let rest = spec_events_after(events.drop_last(), seq);
        if events.last().seq > seq { rest.push(events.last()) } else { rest }
    }
}

/// The highest sequence number the metadata has handed out.
pub open spec fn spec_max_seq(next_seq: u64) -> u64 {
    if next_seq == 0 { 0 } else { (next_seq - 1) as u64 }
}

/// What replaying from a cursor gives, against a log with metadata `meta`
/// whose file read gave `read`: a cursor naming another log is foreign; a
/// read failure is reported; a cursor past the last handed-out number of a
/// non-empty log is beyond the tail; otherwise the events after the cursor.
pub open spec fn spec_replay(log_id: Seq<char>, next_seq: u64, cursor_log: Seq<char>, cursor_seq: u64,
    read: Result<Seq<StoredEvent>, EventError>) -> Result<Seq<StoredEvent>, EventError> {
    if cursor_log.len() != 0 && cursor_log != log_id {
        Err(EventError::ForeignLog)
    } else {
        match read {
            Err(e) => Err(e),
            Ok(events) => if cursor_seq > spec_max_seq(next_seq) && spec_max_seq(next_seq) > 0 {
                Err(EventError::BeyondTail)
            } else {
                Ok(spec_events_after(events, cursor_seq))
            },
        }
    }
}

fn join(dir: &str, name: &str) -> (r: String)
    ensures
        r@ == dir@ + seq!['/'] + name@,
{
    let mut s = dir.to_owned();
    push_char(&mut s, '/');
    s.append(name);
    s
}

impl EventLog {
    /// Open a log at `root` with its stored metadata, or start a fresh log
    /// named after the process when there is none.
    pub fn open_with(root: String, stored: Option<EventMeta>, process_id: u32) -> (l: EventLog)
        ensures
            l.spec_root() == root@,
            match stored {
                Some(m) => l.spec_log_id() == m.log_id@ && l.spec_next_seq() == m.next_seq,
                None => l.spec_log_id() == seq!['l', 'o', 'g', '-'] + crate::text::spec_decimal(process_id as nat)
                    && l.spec_next_seq() == 1,
            },
    {
        let meta = match stored {
            Some(m) => m,
            None => {
                let mut log_id = String::new();
                push_char(&mut log_id, 'l');
                push_char(&mut log_id, 'o');
                push_char(&mut log_id, 'g');
                push_char(&mut log_id, '-');
                crate::text::push_decimal(&mut log_id, process_id as u64);
                proof {
                    assert(log_id@ =~= seq!['l', 'o', 'g', '-'] + crate::text::spec_decimal(process_id as nat));
                }
                EventMeta { log_id, next_seq: 1 }
            },
        };
        EventLog { root, meta }
    }

    pub closed spec fn spec_root(&self) -> Seq<char> {
        self.root@
    }

    pub closed spec fn spec_log_id(&self) -> Seq<char> {
        self.meta.log_id@
    }

    pub closed spec fn spec_next_seq(&self) -> u64 {
        self.meta.next_seq
    }

    /// The metadata to persist.
    pub fn meta(&self) -> (m: &EventMeta)
        ensures
            m.log_id@ == self.spec_log_id(),
            m.next_seq == self.spec_next_seq(),
    {
        &self.meta
    }

    /// The log file.
    pub fn log_path(&self) -> (r: String)
        ensures
            r@ == self.spec_root() + seq!['/', 'l', 'o', 'g', '.', 'j', 's', 'o', 'n', 'l'],
    {
        proof {
            reveal_strlit("log.jsonl");
        }
        let r = join(self.root.as_str(), "log.jsonl");
        proof {
            assert(r@ =~= self.spec_root() + seq!['/', 'l', 'o', 'g', '.', 'j', 's', 'o', 'n', 'l']);
        }
        r
    }

    /// The metadata file.
    pub fn meta_path(&self) -> (r: String)
        ensures
            r@ == self.spec_root() + seq!['/', 'm', 'e', 't', 'a', '.', 'j', 's', 'o', 'n'],
    {
        proof {
            reveal_strlit("meta.json");
        }
        let r = join(self.root.as_str(), "meta.json");
        proof {
            assert(r@ =~= self.spec_root() + seq!['/', 'm', 'e', 't', 'a', '.', 'j', 's', 'o', 'n']);
        }
        r
    }

    /// The temporary file the metadata is written through.
    pub fn meta_temp_path(&self) -> (r: String)
        ensures
            r@ == self.spec_root() + seq!['/', 'm', 'e', 't', 'a', '.', 'j', 's', 'o', 'n', '.', 't', 'm', 'p'],
    {
        proof {
            reveal_strlit("meta.json.tmp");
        }
        let r = join(self.root.as_str(), "meta.json.tmp");
        proof {
            assert(r@ =~= self.spec_root() + seq!['/', 'm', 'e', 't', 'a', '.', 'j', 's', 'o', 'n', '.', 't', 'm', 'p']);
        }
        r
    }

    /// Check the log's events against its metadata: sequence numbers run
    /// 1, 2, ... without gaps and the next number is one past the last.
    pub fn validate_integrity(&self, events: &Vec<StoredEvent>) -> (r: Result<(), EventError>)
        ensures
            r is Ok == spec_log_intact(events@, self.spec_next_seq()),
            r matches Err(e) ==> e == EventError::MalformedCursor,
    {
        let expected_next: u64 = if events.len() == 0 {
            1
        } else {
            let last = events[events.len() - 1].seq;
            if last == u64::MAX { u64::MAX } else { last + 1 }
        };
        if self.meta.next_seq != expected_next {
            return Err(EventError::MalformedCursor);
        }
        let mut i: usize = 0;
        while i < events.len()
            invariant
                i <= events@.len(),
                forall|j: int| 0 <= j < i ==> (#[trigger] events@[j]).seq == j + 1,
            decreases events@.len() - i,
        {
            if i as u64 == u64::MAX || events[i].seq != i as u64 + 1 {
                return Err(EventError::MalformedCursor);
            }
            i = i + 1;
        }
        Ok(())
    }

    /// The log's identity.
    pub fn log_id(&self) -> (r: String)
        ensures
            r@ == self.spec_log_id(),
    {
        self.meta.log_id.clone()
    }

    /// Assign the next sequence number to `record` and advance the metadata.
    /// The caller writes the event line and then the metadata.
    pub fn stage_append(&mut self, record: EventRecord) -> (stored: StoredEvent)
        ensures
            stored.seq == old(self).spec_next_seq(),
            stored.kind@ == record.kind@,
            stored.payload@ == record.payload@,
            final(self).spec_next_seq() == if old(self).spec_next_seq() == u64::MAX { u64::MAX } else {
                (old(self).spec_next_seq() + 1) as u64
            },
            final(self).spec_log_id() == old(self).spec_log_id(),
            final(self).spec_root() == old(self).spec_root(),
    {
        let stored = StoredEvent { seq: self.meta.next_seq, kind: record.kind, payload: record.payload };
        self.meta.next_seq = if self.meta.next_seq == u64::MAX { u64::MAX } else { self.meta.next_seq + 1 };
        stored
    }

    /// Replay from a cursor, given what reading the log file gave.
    pub fn replay(&self, cursor: &EventCursor, read: Result<Vec<StoredEvent>, EventError>) -> (r: Result<Vec<StoredEvent>, EventError>)
        ensures
            match spec_replay(self.spec_log_id(), self.spec_next_seq(), cursor.spec_log_id(), cursor.spec_seq(),
                match read { Ok(v) => Ok(v@), Err(e) => Err(e) }) {
                Ok(s) => r matches Ok(v) && v@ == s,
                Err(e) => r == Err::<Vec<StoredEvent>, EventError>(e),
            },
    {
        let cursor_log = cursor.log_id();
        if cursor_log.unicode_len() != 0 {
            let mine = self.meta.log_id.clone();
            let theirs = cursor_log.to_owned();
            if mine != theirs {
                return Err(EventError::ForeignLog);
            }
        }
        let events = match read {
            Err(e) => {
                return Err(e);
            },
            Ok(events) => events,
        };
        let max_seq = if self.meta.next_seq == 0 { 0 } else { self.meta.next_seq - 1 };
        if cursor.seq > max_seq && max_seq > 0 {
            return Err(EventError::BeyondTail);
        }
        let mut out: Vec<StoredEvent> = Vec::new();
        let mut rest = events;
        let ghost all = rest@;
        while rest.len() > 0
            invariant
                rest@.len() <= all.len(),
                rest@ == all.subrange(all.len() - rest@.len(), all.len() as int),
                out@ == spec_events_after(all.subrange(0, all.len() - rest@.len()), cursor.spec_seq()),
            decreases rest@.len(),
        {
            let ghost k: int = all.len() - rest@.len();
            let ghost before = rest@;
            assert(before[0] == all[k]);
            let e = rest.remove(0);
            proof {
                let t = all.subrange(0, k + 1);
                assert(t.drop_last() =~= all.subrange(0, k));
                assert(t.last() == all[k]);
                assert(e == before[0]);
                assert(rest@ =~= all.subrange(all.len() - rest@.len(), all.len() as int));
            }
            if e.seq > cursor.seq {
                out.push(e);
            }
        }
        proof {
            assert(all.subrange(0, all.len() as int) =~= all);
        }
        Ok(out)
    }

    /// The cursor after the last event handed out.
    pub fn latest_cursor(&self) -> (r: Result<EventCursor, EventError>)
        ensures
            r matches Ok(c) && c.spec_log_id() == self.spec_log_id() && c.spec_seq() == spec_max_seq(self.spec_next_seq()),
    {
        let seq = if self.meta.next_seq == 0 { 0 } else { self.meta.next_seq - 1 };
        Ok(EventCursor { log_id: self.meta.log_id.clone(), seq })
    }

    /// The cursor just after `event` in this log.
    pub fn cursor_after(&self, event: &StoredEvent) -> (c: EventCursor)
        ensures
            c.spec_log_id() == self.spec_log_id(),
            c.spec_seq() == event.seq,
    {
        EventCursor::after(event).with_log_id(self.log_id())
    }
}

/// Staging an append onto an intact log and adding the staged event keeps the
/// log intact: sequence numbers stay gapless and the metadata stays one ahead.
pub proof fn append_keeps_log_intact(events: Seq<StoredEvent>, next_seq: u64, stored: StoredEvent)
    requires
        spec_log_intact(events, next_seq),
        stored.seq == next_seq,
        next_seq < u64::MAX,
    ensures
        spec_log_intact(events.push(stored), (next_seq + 1) as u64),
{
    assert forall|i: int| 0 <= i < events.push(stored).len() implies (#[trigger] events.push(stored)[i]).seq == i + 1 by {
        if i < events.len() {
            assert(events.push(stored)[i] == events[i]);
        } else {
            if events.len() > 0 {
                assert(events[events.len() - 1].seq == events.len());
            }
        }
    }
}

/// Replaying an intact log from its latest cursor yields nothing new: the
/// replay of the log's own events from the cursor `latest_cursor` gives is
/// empty.
pub proof fn replay_from_latest_is_empty(events: Seq<StoredEvent>, log_id: Seq<char>, next_seq: u64)
    requires
        spec_log_intact(events, next_seq),
        next_seq < u64::MAX,
    ensures
        spec_events_after(events, spec_max_seq(next_seq)).len() == 0,
        spec_replay(log_id, next_seq, log_id, spec_max_seq(next_seq), Ok(events)) == Ok::<
            Seq<StoredEvent>,
            EventError,
        >(Seq::empty()),
    decreases events.len(),
{
    lemma_all_at_most(events, spec_max_seq(next_seq));
    lemma_none_after(events, spec_max_seq(next_seq));
    assert(spec_events_after(events, spec_max_seq(next_seq)) =~= Seq::<StoredEvent>::empty());
}

/// In an intact log the events after sequence number `m` (at most the count)
/// are exactly those from position `m` on.
proof fn lemma_after_is_suffix(events: Seq<StoredEvent>, m: u64)
    requires
        forall|i: int| 0 <= i < events.len() ==> (#[trigger] events[i]).seq == i + 1,
        m <= events.len(),
    ensures
        spec_events_after(events, m) == events.skip(m as int),
    decreases events.len(),
{
    if events.len() > 0 {
        let rest = events.drop_last();
        assert forall|i: int| 0 <= i < rest.len() implies (#[trigger] rest[i]).seq == i + 1 by {
            assert(rest[i] == events[i]);
        }
        assert(events.last().seq == events.len());
        if m < events.len() {
            lemma_after_is_suffix(rest, m);
            assert(rest.skip(m as int).push(events.last()) =~= events.skip(m as int));
        } else {
            assert forall|i: int| 0 <= i < rest.len() implies (#[trigger] rest[i]).seq <= m by {}
            lemma_none_after(rest, m);
            assert(spec_events_after(rest, m) =~= Seq::<StoredEvent>::empty());
            assert(events.skip(m as int) =~= Seq::<StoredEvent>::empty());
        }
    } else {
        assert(events.skip(m as int) =~= Seq::<StoredEvent>::empty());
    }
}

/// Replaying an intact log from the cursor after one of its events (what
/// `cursor_after` gives) yields exactly the events appended after it, in
/// order.
pub proof fn replay_after_an_event_gives_the_later_events(
    events: Seq<StoredEvent>,
    log_id: Seq<char>,
    next_seq: u64,
    k: int,
)
    requires
        spec_log_intact(events, next_seq),
        next_seq < u64::MAX,
        0 <= k < events.len(),
    ensures
        spec_replay(log_id, next_seq, log_id, events[k].seq, Ok(events)) == Ok::<Seq<StoredEvent>, EventError>(
            events.skip(k + 1),
        ),
{
    assert(events[k].seq == k + 1);
    assert(events.last().seq == events.len());
    lemma_after_is_suffix(events, events[k].seq);
}

proof fn lemma_all_at_most(events: Seq<StoredEvent>, m: u64)
    requires
        forall|i: int| 0 <= i < events.len() ==> (#[trigger] events[i]).seq == i + 1,
        m == events.len(),
    ensures
        forall|i: int| 0 <= i < events.len() ==> (#[trigger] events[i]).seq <= m,
{
}

proof fn lemma_none_after(events: Seq<StoredEvent>, m: u64)
    requires
        forall|i: int| 0 <= i < events.len() ==> (#[trigger] events[i]).seq <= m,
    ensures
        spec_events_after(events, m).len() == 0,
    decreases events.len(),
{
    if events.len() > 0 {
        assert forall|i: int| 0 <= i < events.drop_last().len() implies (#[trigger] events.drop_last()[i]).seq <= m by {
            assert(events.drop_last()[i] == events[i]);
        }
        lemma_none_after(events.drop_last(), m);
        assert(events.last() == events[events.len() - 1]);
    }
}

/// Replay returns events in log order and only ones past the cursor.
pub proof fn replay_returns_only_later_events(events: Seq<StoredEvent>, seq: u64, e: StoredEvent)
    requires
        spec_events_after(events, seq).contains(e),
    ensures
        e.seq > seq,
        events.contains(e),
    decreases events.len(),
{
    if events.len() > 0 {
        let rest = spec_events_after(events.drop_last(), seq);
        if events.last().seq > seq && e == events.last() {
            assert(events[events.len() - 1] == e);
        } else {
            if events.last().seq > seq {
                let k = choose|k: int| 0 <= k < rest.push(events.last()).len() && rest.push(events.last())[k] == e;
                if k < rest.len() {
                    assert(rest[k] == e);
                } else {
                    assert(rest.push(events.last())[k] == events.last());
                }
            }
            replay_returns_only_later_events(events.drop_last(), seq, e);
            let m = choose|m: int| 0 <= m < events.drop_last().len() && events.drop_last()[m] == e;
            assert(events[m] == e);
        }
    }
}

/// Replaying a log from its `latest_cursor` gives nothing: for a log whose
/// events are intact, the replay at the cursor `latest_cursor` gives (this
/// log's id, its last handed-out number) is empty, and that number is the
/// last event's.
pub proof fn replay_from_latest_cursor_is_empty(log: EventLog, events: Seq<StoredEvent>)
    requires
        spec_log_intact(events, log.spec_next_seq()),
        log.spec_next_seq() < u64::MAX,
    ensures
        spec_replay(
            log.spec_log_id(),
            log.spec_next_seq(),
            log.spec_log_id(),
            spec_max_seq(log.spec_next_seq()),
            Ok(events),
        ) == Ok::<Seq<StoredEvent>, EventError>(Seq::empty()),
        events.len() > 0 ==> spec_max_seq(log.spec_next_seq()) == events.last().seq,
{
    replay_from_latest_is_empty(events, log.spec_log_id(), log.spec_next_seq());
}

/// Replaying a log from `cursor_after(e)` gives exactly the events appended
/// after `e`, in order: for a log whose events are intact, the replay at the
/// cursor (this log's id, `e`'s number) is the events after `e`'s position.
pub proof fn replay_from_cursor_after_gives_the_later_events(log: EventLog, events: Seq<StoredEvent>, k: int)
    requires
        spec_log_intact(events, log.spec_next_seq()),
        log.spec_next_seq() < u64::MAX,
        0 <= k < events.len(),
    ensures
        spec_replay(log.spec_log_id(), log.spec_next_seq(), log.spec_log_id(), events[k].seq, Ok(events))
            == Ok::<Seq<StoredEvent>, EventError>(events.skip(k + 1)),
{
    replay_after_an_event_gives_the_later_events(events, log.spec_log_id(), log.spec_next_seq(), k);
}

/// After an append the latest cursor is the cursor after the appended event:
/// staging an event on a log whose next number has not saturated leaves the
/// last handed-out number at that event's.
pub proof fn latest_cursor_follows_the_last_append(before: EventLog, after: EventLog, stored: StoredEvent)
    requires
        before.spec_next_seq() < u64::MAX,
        stored.seq == before.spec_next_seq(),
        after.spec_next_seq() == before.spec_next_seq() + 1,
        after.spec_log_id() == before.spec_log_id(),
    ensures
        spec_max_seq(after.spec_next_seq()) == stored.seq,
        after.spec_log_id() == before.spec_log_id(),
{
}

} // verus!
