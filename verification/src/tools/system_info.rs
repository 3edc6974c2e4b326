//! `system.info` — report host facts, the adapter, the per-resource safety vector and the Landlock ABI.

use crate::adapter::HostAdapter;
use crate::policy::CallDescriptor;
use crate::protocol::EffectClass;
use crate::wire::{HostInfo, LandlockInfo, SystemInfo};
use vstd::prelude::*;

verus! {

/// The operation's wire name.
pub const OP: &'static str = "system.info";

/// The operation's version.
pub const VERSION: u32 = 1;

/// The call: read-only, effect set {R}, touching no resource.
pub fn describe_call() -> (c: CallDescriptor)
    ensures
        c.op == OP,
        c.effect_set@ == seq![EffectClass::R],
        c.footprint@.len() == 0,
        !c.globally_forbidden,
        c.within_bounds is None,
{
    CallDescriptor::read_only(OP)
}

/// Gather the report: the host facts and Landlock probe the caller read, and
/// the adapter's identity, safety vector and its source, each as the adapter
/// reported it.
pub fn execute<A: HostAdapter>(adapter: &mut A, host: HostInfo, landlock: LandlockInfo) -> (r: SystemInfo)
    ensures
        r.host == host,
        r.landlock == landlock,
        old(adapter).spec_may_report_info(r.adapter),
        old(adapter).spec_may_report_safety(r.safety),
        old(adapter).spec_may_report_source(r.safety_source),
{
    let info = adapter.info();
    let safety = adapter.safety_vector();
    let safety_source = adapter.safety_source();
    SystemInfo { host, adapter: info, safety, safety_source, landlock }
}

} // verus!
