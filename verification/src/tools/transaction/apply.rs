//! `tx.apply` — apply a tested transaction (protocol v2).

use crate::policy::CallDescriptor;
use crate::protocol::EffectClass;
use crate::safety::Resource;
use vstd::prelude::*;

verus! {

/// The operation's wire name.
pub const OP: &'static str = "tx.apply";

/// The operation's version.
pub const VERSION: u32 = 1;

/// The call: effect set {D} on the root configuration.
pub fn describe_call() -> (c: CallDescriptor)
    ensures
        c.op == OP,
        c.effect_set@ == seq![EffectClass::D],
        c.footprint@ == seq![(Resource::RootConfig, EffectClass::D)],
        !c.globally_forbidden,
        c.within_bounds is None,
{
    CallDescriptor {
        op: OP,
        effect_set: vec![EffectClass::D],
        footprint: vec![(Resource::RootConfig, EffectClass::D)],
        globally_forbidden: false,
        within_bounds: None,
    }
}

} // verus!
