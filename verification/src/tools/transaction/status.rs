//! `tx.status` — report a transaction's state (protocol v2).

use crate::policy::CallDescriptor;
use crate::protocol::EffectClass;
use vstd::prelude::*;

verus! {

/// The operation's wire name.
pub const OP: &'static str = "tx.status";

/// The operation's version.
pub const VERSION: u32 = 1;

/// The call: read-only, effect set {R}, touching no resource.
pub fn describe_call() -> (c: CallDescriptor)
    ensures
        c.op == OP,
        c.effect_set@ == seq![EffectClass::R],
        c.footprint@.len() == 0,
        !c.globally_forbidden,
        c.within_bounds is None,
{
    CallDescriptor::read_only(OP)
}

} // verus!
