//! The resolved Nix host adapter: its probe, cached once it succeeds.

use crate::adapter::{spec_unresolved_safety, unresolved_safety_vector};
use crate::nix::capture::CaptureStore;
use crate::nix::command_runner::CommandRunner;
use crate::nix::probe::{probe, spec_probe_answer, spec_probe_commands, ProbeError, ProbeResult};
use crate::protocol::{AdapterInfo, BaseRevision, SafetySource, SafetyVector};
use vstd::prelude::*;

verus! {

/// A field-by-field copy of an adapter identity.
pub open spec fn spec_same_info(a: AdapterInfo, b: AdapterInfo) -> bool {
    &&& a.kind@ == b.kind@
    &&& a.resolved == b.resolved
    &&& a.available_at_gate == b.available_at_gate
    &&& a.generations == b.generations
    &&& a.snapshots == b.snapshots
}

/// A field-by-field copy of a probe result.
pub open spec fn spec_same_probe(a: ProbeResult, b: ProbeResult) -> bool {
    &&& a.adapter.kind@ == b.adapter.kind@
    &&& a.adapter.resolved == b.adapter.resolved
    &&& a.adapter.available_at_gate == b.adapter.available_at_gate
    &&& a.adapter.generations == b.adapter.generations
    &&& a.adapter.snapshots == b.adapter.snapshots
    &&& a.safety == b.safety
    &&& a.safety_source == b.safety_source
    &&& a.base_revision@ == b.base_revision@
}

fn copy_probe(p: &ProbeResult) -> (r: ProbeResult)
    ensures
        spec_same_probe(r, *p),
{
    ProbeResult {
        adapter: AdapterInfo {
            kind: p.adapter.kind.clone(),
            resolved: p.adapter.resolved,
            available_at_gate: p.adapter.available_at_gate,
            generations: p.adapter.generations,
            snapshots: p.adapter.snapshots,
        },
        safety: p.safety,
        safety_source: p.safety_source,
        base_revision: p.base_revision.duplicate(),
    }
}

/// The resolved Nix host adapter.
#[derive(Debug)]
pub struct NixAdapter<R> {
    runner: R,
    store: CaptureStore,
    probe_cache: Option<ProbeResult>,
}

impl<R: CommandRunner> NixAdapter<R> {
    pub closed spec fn spec_cache(&self) -> Option<ProbeResult> {
        self.probe_cache
    }

    pub closed spec fn spec_runner(&self) -> R {
        self.runner
    }

    pub closed spec fn spec_store(&self) -> CaptureStore {
        self.store
    }

    /// An adapter over a runner and a capture store; nothing probed yet.
    pub fn new(runner: R, store: CaptureStore) -> (a: NixAdapter<R>)
        ensures
            a.spec_cache().is_none(),
            a.spec_runner() == runner,
            a.spec_store() == store,
    {
        NixAdapter { runner, store, probe_cache: None }
    }

    /// The runner.
    pub fn runner(&self) -> (r: &R)
        ensures
            *r == self.spec_runner(),
    {
        &self.runner
    }

    /// The capture store.
    pub fn capture_store(&self) -> (s: &CaptureStore)
        ensures
            *s == self.spec_store(),
    {
        &self.store
    }

    /// The probe, run once: a successful probe is kept and every later call
    /// returns it without running a command; a failed one is retried next
    /// time.
    pub fn probe_cached(&mut self) -> (r: Result<ProbeResult, ProbeError>)
        ensures
            match old(self).spec_cache() {
                Some(c) => r matches Ok(p) && spec_same_probe(p, c) && *final(self) == *old(self),
                None => match r {
                    Ok(p) => final(self).spec_cache() matches Some(c) && spec_same_probe(p, c),
                    Err(_) => final(self).spec_cache().is_none(),
                },
            },
            final(self).spec_store() == old(self).spec_store(),
            old(self).spec_cache() is None ==> spec_probe_answer(old(self).spec_runner(), r),
            old(self).spec_cache() is None && old(self).spec_runner().spec_keeps_record() ==> exists|k: int|
                1 <= k <= 3 && final(self).spec_runner().spec_issued() == old(self).spec_runner().spec_issued()
                    + #[trigger] spec_probe_commands().take(k),
        old(self).spec_runner().spec_keeps_record() ==> exists|k: int|
            0 <= k <= 3 && final(self).spec_runner().spec_issued() == old(self).spec_runner().spec_issued()
                + #[trigger] spec_probe_commands().take(k),
    {
        if let Some(c) = &self.probe_cache {
            proof {
                assert(self.spec_runner().spec_issued() =~= self.spec_runner().spec_issued() + spec_probe_commands().take(0));
            }
            return Ok(copy_probe(c));
        }
        match probe(&mut self.runner) {
            Ok(p) => {
                let kept = copy_probe(&p);
                self.probe_cache = Some(kept);
                Ok(p)
            },
            Err(e) => Err(e),
        }
    }

    /// The adapter's identity: the probed one, or an unresolved Nix adapter.
    pub fn info(&mut self) -> (i: AdapterInfo)
        ensures
            old(self).spec_cache() is Some ==> *final(self) == *old(self),
            final(self).spec_cache() matches Some(c) ==> spec_same_info(i, c.adapter),
            final(self).spec_cache().is_none() ==> i.kind@ == "nix"@ && !i.resolved && i.available_at_gate == 1
                && i.generations.is_none() && i.snapshots.is_none(),
        old(self).spec_runner().spec_keeps_record() ==> exists|k: int|
            0 <= k <= 3 && final(self).spec_runner().spec_issued() == old(self).spec_runner().spec_issued()
                + #[trigger] spec_probe_commands().take(k),
    {
        match self.probe_cached() {
            Ok(p) => p.adapter,
            Err(_) => AdapterInfo {
                kind: "nix".to_owned(),
                resolved: false,
                available_at_gate: 1,
                generations: None,
                snapshots: None,
            },
        }
    }

    /// The probed safety vector, or no coverage anywhere.
    pub fn safety_vector(&mut self) -> (v: SafetyVector)
        ensures
            match final(self).spec_cache() {
                Some(c) => v == c.safety,
                None => v == spec_unresolved_safety(),
            },
        old(self).spec_runner().spec_keeps_record() ==> exists|k: int|
            0 <= k <= 3 && final(self).spec_runner().spec_issued() == old(self).spec_runner().spec_issued()
                + #[trigger] spec_probe_commands().take(k),
    {
        match self.probe_cached() {
            Ok(p) => p.safety,
            Err(_) => unresolved_safety_vector(),
        }
    }

    /// Where the safety vector came from.
    pub fn safety_source(&mut self) -> (s: SafetySource)
        ensures
            match final(self).spec_cache() {
                Some(c) => s == c.safety_source,
                None => s == SafetySource::UnresolvedAdapter,
            },
        old(self).spec_runner().spec_keeps_record() ==> exists|k: int|
            0 <= k <= 3 && final(self).spec_runner().spec_issued() == old(self).spec_runner().spec_issued()
                + #[trigger] spec_probe_commands().take(k),
    {
        match self.probe_cached() {
            Ok(p) => p.safety_source,
            Err(_) => SafetySource::UnresolvedAdapter,
        }
    }

    /// The probed base revision, if the probe succeeds.
    pub fn probed_base_revision(&mut self) -> (b: Option<BaseRevision>)
        ensures
            match final(self).spec_cache() {
                Some(c) => b matches Some(r) && r@ == c.base_revision@,
                None => b.is_none(),
            },
        old(self).spec_runner().spec_keeps_record() ==> exists|k: int|
            0 <= k <= 3 && final(self).spec_runner().spec_issued() == old(self).spec_runner().spec_issued()
                + #[trigger] spec_probe_commands().take(k),
    {
        match self.probe_cached() {
            Ok(p) => Some(p.base_revision),
            Err(_) => None,
        }
    }
}

} // verus!
