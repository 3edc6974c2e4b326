//! `events.replay` — read the durable event log from a cursor.

use crate::events::{spec_replay, EventCursor, EventError, EventLog, StoredEvent};
use crate::policy::CallDescriptor;
use crate::protocol::EffectClass;
use crate::transaction::engine::EngineError;
use crate::wire::EventsReplayResult;
use vstd::prelude::*;

verus! {

/// The operation's wire name.
pub const OP: &'static str = "events.replay";

/// The operation's version.
pub const VERSION: u32 = 1;

/// The call: read-only, effect set {R}, touching no resource.
pub fn describe_call() -> (c: CallDescriptor)
    ensures
        c.op == OP,
        c.effect_set@ == seq![EffectClass::R],
        c.footprint@.len() == 0,
        !c.globally_forbidden,
        c.within_bounds is None,
{
    CallDescriptor::read_only(OP)
}

/// How an event-log failure is answered: a cursor the log cannot honour
/// (malformed, foreign, beyond the tail) is refused as not found; a storage
/// failure stays a storage failure.
pub open spec fn spec_replay_failure(e: EventError) -> EngineError {
    match e {
        EventError::Io(d) => EngineError::Storage(d),
        _ => EngineError::NotFound,
    }
}

pub fn replay_failure(e: EventError) -> (r: EngineError)
    ensures
        r == spec_replay_failure(e),
{
    match e {
        EventError::Io(d) => EngineError::Storage(d),
        _ => EngineError::NotFound,
    }
}

/// `events.replay`: the events after the cursor (from the start of this log
/// when none is given), given what decoding the cursor and reading the log
/// file gave.
pub fn replay(
    log: &EventLog,
    cursor: Option<Result<EventCursor, EventError>>,
    read: Result<Vec<StoredEvent>, EventError>,
) -> (r: Result<EventsReplayResult, EngineError>)
    ensures
        match cursor {
            Some(Err(e)) => r == Err::<EventsReplayResult, EngineError>(spec_replay_failure(e)),
            _ => {
                let (cl, cs) = match cursor {
                    Some(Ok(c)) => (c.spec_log_id(), c.spec_seq()),
                    _ => (log.spec_log_id(), 0u64),
                };
                match spec_replay(log.spec_log_id(), log.spec_next_seq(), cl, cs,
                    match read { Ok(v) => Ok(v@), Err(e) => Err(e) }) {
                    Ok(s) => r matches Ok(res) && res.events@ == s,
                    Err(e) => r == Err::<EventsReplayResult, EngineError>(spec_replay_failure(e)),
                }
            },
        },
{
    let c = match cursor {
        Some(Err(e)) => {
            return Err(replay_failure(e));
        },
        Some(Ok(c)) => c,
        None => EventCursor::after_seq(log.log_id(), 0),
    };
    match log.replay(&c, read) {
        Ok(events) => Ok(EventsReplayResult { events }),
        Err(e) => Err(replay_failure(e)),
    }
}

} // verus!
