//! Broker-owned transaction state vocabulary and transition table.

use crate::protocol::WireState;
use vstd::prelude::*;

verus! {

/// Internal state, including the idle sentinel that is never persisted.
#[derive(Debug, Clone, Copy, PartialEq, Eq, Structural)]
pub enum TransactionState {
    /// No transaction yet (`Idle` on the wire).
    Unstarted,
    Proposed,
    Testing,
    Applying,
    Probation,
    Rejected,
    ProbationPassed,
    Committing,
    Committed,
    Reverting,
    Reverted,
}

/// The internal state a wire state stands for.
pub open spec fn spec_from_wire(value: WireState) -> TransactionState {
    match value {
        WireState::Idle => TransactionState::Unstarted,
        WireState::Proposed => TransactionState::Proposed,
        WireState::Testing => TransactionState::Testing,
        WireState::Applying => TransactionState::Applying,
        WireState::Probation => TransactionState::Probation,
        WireState::Rejected => TransactionState::Rejected,
        WireState::ProbationPassed => TransactionState::ProbationPassed,
        WireState::Committing => TransactionState::Committing,
        WireState::Committed => TransactionState::Committed,
        WireState::Reverting => TransactionState::Reverting,
        WireState::Reverted => TransactionState::Reverted,
    }
}

/// The wire state an internal state is reported as.
pub open spec fn spec_to_wire(value: TransactionState) -> WireState {
    match value {
        TransactionState::Unstarted => WireState::Idle,
        TransactionState::Proposed => WireState::Proposed,
        TransactionState::Testing => WireState::Testing,
        TransactionState::Applying => WireState::Applying,
        TransactionState::Probation => WireState::Probation,
        TransactionState::Rejected => WireState::Rejected,
        TransactionState::ProbationPassed => WireState::ProbationPassed,
        TransactionState::Committing => WireState::Committing,
        TransactionState::Committed => WireState::Committed,
        TransactionState::Reverting => WireState::Reverting,
        TransactionState::Reverted => WireState::Reverted,
    }
}

impl From<WireState> for TransactionState {
    fn from(value: WireState) -> (r: TransactionState) {
        match value {
            WireState::Idle => TransactionState::Unstarted,
            WireState::Proposed => TransactionState::Proposed,
            WireState::Testing => TransactionState::Testing,
            WireState::Applying => TransactionState::Applying,
            WireState::Probation => TransactionState::Probation,
            WireState::Rejected => TransactionState::Rejected,
            WireState::ProbationPassed => TransactionState::ProbationPassed,
            WireState::Committing => TransactionState::Committing,
            WireState::Committed => TransactionState::Committed,
            WireState::Reverting => TransactionState::Reverting,
            WireState::Reverted => TransactionState::Reverted,
        }
    }
}

impl vstd::std_specs::convert::FromSpecImpl<WireState> for TransactionState {
    open spec fn obeys_from_spec() -> bool {
        true
    }

    open spec fn from_spec(v: WireState) -> TransactionState {
        spec_from_wire(v)
    }
}

impl From<TransactionState> for WireState {
    fn from(value: TransactionState) -> (r: WireState) {
        match value {
            TransactionState::Unstarted => WireState::Idle,
            TransactionState::Proposed => WireState::Proposed,
            TransactionState::Testing => WireState::Testing,
            TransactionState::Applying => WireState::Applying,
            TransactionState::Probation => WireState::Probation,
            TransactionState::Rejected => WireState::Rejected,
            TransactionState::ProbationPassed => WireState::ProbationPassed,
            TransactionState::Committing => WireState::Committing,
            TransactionState::Committed => WireState::Committed,
            TransactionState::Reverting => WireState::Reverting,
            TransactionState::Reverted => WireState::Reverted,
        }
    }
}

impl vstd::std_specs::convert::FromSpecImpl<TransactionState> for WireState {
    open spec fn obeys_from_spec() -> bool {
        true
    }

    open spec fn from_spec(v: TransactionState) -> WireState {
        spec_to_wire(v)
    }
}

/// States the broker writes: proposed through probation, and rejected.
pub open spec fn spec_is_broker_owned(state: WireState) -> bool {
    state == WireState::Proposed || state == WireState::Testing || state == WireState::Applying
        || state == WireState::Probation || state == WireState::Rejected
}

/// States only the watchdog may write: from probation-passed on.
pub open spec fn spec_is_watchdog_owned(state: WireState) -> bool {
    state == WireState::ProbationPassed || state == WireState::Committing || state == WireState::Committed
        || state == WireState::Reverting || state == WireState::Reverted
}

/// Whether a state belongs to the broker.
pub fn is_broker_owned(state: WireState) -> (r: bool)
    ensures
        r == spec_is_broker_owned(state),
{
    match state {
        WireState::Proposed | WireState::Testing | WireState::Applying | WireState::Probation
        | WireState::Rejected => true,
        _ => false,
    }
}

/// Whether a state belongs to the watchdog.
pub fn is_watchdog_owned(state: WireState) -> (r: bool)
    ensures
        r == spec_is_watchdog_owned(state),
{
    match state {
        WireState::ProbationPassed | WireState::Committing | WireState::Committed
        | WireState::Reverting | WireState::Reverted => true,
        _ => false,
    }
}

/// The broker's transition table: none → proposed; proposed → testing or
/// rejected; testing → applying or rejected; applying → probation or rejected.
pub open spec fn spec_broker_may_enter(from: TransactionState, to: TransactionState) -> bool {
    match (from, to) {
        (TransactionState::Unstarted, TransactionState::Proposed) => true,
        (TransactionState::Proposed, TransactionState::Testing) => true,
        (TransactionState::Proposed, TransactionState::Rejected) => true,
        (TransactionState::Testing, TransactionState::Applying) => true,
        (TransactionState::Testing, TransactionState::Rejected) => true,
        (TransactionState::Applying, TransactionState::Probation) => true,
        (TransactionState::Applying, TransactionState::Rejected) => true,
        _ => false,
    }
}

/// Whether the broker may move a transaction from `from` to `to`.
pub fn broker_may_enter(from: TransactionState, to: TransactionState) -> (r: bool)
    ensures
        r == spec_broker_may_enter(from, to),
{
    match from {
        TransactionState::Unstarted => match to {
            TransactionState::Proposed => true,
            _ => false,
        },
        TransactionState::Proposed => match to {
            TransactionState::Testing | TransactionState::Rejected => true,
            _ => false,
        },
        TransactionState::Testing => match to {
            TransactionState::Applying | TransactionState::Rejected => true,
            _ => false,
        },
        TransactionState::Applying => match to {
            TransactionState::Probation | TransactionState::Rejected => true,
            _ => false,
        },
        _ => false,
    }
}

/// Progress rank of a broker state; every broker transition raises it.
pub open spec fn spec_progress(s: TransactionState) -> int {
    match s {
        TransactionState::Unstarted => 0,
        TransactionState::Proposed => 1,
        TransactionState::Testing => 2,
        TransactionState::Applying => 3,
        TransactionState::Probation => 4,
        TransactionState::Rejected => 5,
        _ => 6,
    }
}

/// The broker only ever enters states it owns, never a watchdog-owned one,
/// and every transition it may take moves strictly forward, so no state is
/// entered twice in one chain.
pub proof fn broker_transitions_stay_broker_owned(from: TransactionState, to: TransactionState)
    requires
        spec_broker_may_enter(from, to),
    ensures
        spec_is_broker_owned(spec_to_wire(to)),
        !spec_is_watchdog_owned(spec_to_wire(to)),
        spec_progress(from) < spec_progress(to),
{
}

/// Rejected, probation and the watchdog-owned states are terminal for the
/// broker: it may leave none of them.
pub proof fn broker_terminal_states(from: TransactionState, to: TransactionState)
    requires
        from == TransactionState::Rejected || from == TransactionState::Probation
            || spec_is_watchdog_owned(spec_to_wire(from)),
    ensures
        !spec_broker_may_enter(from, to),
{
}

/// The wire and internal vocabularies convert into each other without loss.
pub proof fn wire_round_trip(w: WireState, t: TransactionState)
    ensures
        spec_to_wire(spec_from_wire(w)) == w,
        spec_from_wire(spec_to_wire(t)) == t,
{
}

/// Ownership partitions the persisted states: every state but idle belongs
/// to exactly one of the broker and the watchdog.
pub proof fn ownership_partitions_states(w: WireState)
    ensures
        w != WireState::Idle ==> (spec_is_broker_owned(w) != spec_is_watchdog_owned(w)),
        w == WireState::Idle ==> !spec_is_broker_owned(w) && !spec_is_watchdog_owned(w),
{
}

} // verus!
