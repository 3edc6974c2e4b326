//! Host adapters, and the honest default that resolves nothing.
//!
//! With no adapter resolved, every resource reports no rollback coverage and
//! the safety source says no probe was made, so the two cases (a measured
//! unrecoverable host, and no measurement) stay distinguishable. Both refuse
//! D/M steps.

use crate::protocol::{
    DecisionStage, EffectClass, ErrorCode,
    strings_view, AdapterInfo, BaseRevision, ConfigFileChange, DataSafety, Digest, ExternalEffectsSafety,
    HostSafety, RecoveryRequires, SafetySource, SafetyVector, ServiceStateSafety, TestPlan,
};
use crate::manifest::AgentManifest;
use crate::policy::{safety_minimum_precedes_permissions, spec_contains_forbidden, spec_decision, spec_fails_safety, spec_refuse, CallDescriptor};
use crate::safety::none_never_meets;
use crate::transaction::engine::{spec_staged_diff, staged_diff};
use vstd::prelude::*;

verus! {

/// Outcome of adapter-specific `config.propose` staging.
#[derive(Debug, Clone)]
pub struct AdapterProposeOutcome {
    pub diff: String,
    pub test_plan: TestPlan,
    pub affected_resources: Vec<String>,
    pub candidate_closure: Option<String>,
}

/// Adapter-level propose failures, before any WAL side effect.
#[derive(Debug, Clone, PartialEq, Eq)]
pub enum AdapterProposeError {
    Rejected(String),
}

/// What an adapter with no host behind it stages: the synthetic diff, a
/// no-op test plan, the root configuration, and no candidate.
pub open spec fn spec_unresolved_propose(o: AdapterProposeOutcome, changes: Seq<ConfigFileChange>) -> bool {
    &&& o.diff@ == spec_staged_diff(changes)
    &&& o.test_plan.adapter@ == "unresolved"@
    &&& strings_view(o.test_plan.steps@) == seq!["noop-test"@]
    &&& strings_view(o.affected_resources@) == seq!["root_config"@]
    &&& o.candidate_closure.is_none()
}

pub fn unresolved_propose(changes: &Vec<ConfigFileChange>) -> (o: AdapterProposeOutcome)
    ensures
        spec_unresolved_propose(o, changes@),
{
    let mut steps: Vec<String> = Vec::new();
    steps.push("noop-test".to_owned());
    let mut affected: Vec<String> = Vec::new();
    affected.push("root_config".to_owned());
    assert(strings_view(steps@) =~= seq!["noop-test"@]);
    assert(strings_view(affected@) =~= seq!["root_config"@]);
    AdapterProposeOutcome {
        diff: staged_diff(changes),
        test_plan: TestPlan { adapter: "unresolved".to_owned(), steps },
        affected_resources: affected,
        candidate_closure: None,
    }
}

/// What the broker needs from a host adapter.
pub trait HostAdapter {
    /// Whether `i` is an identity this adapter may report. The default, for
    /// an adapter whose reports depend on its host, admits any.
    open spec fn spec_may_report_info(&self, i: AdapterInfo) -> bool {
        true
    }

    /// Whether `v` is a safety vector this adapter may report.
    open spec fn spec_may_report_safety(&self, v: SafetyVector) -> bool {
        true
    }

    /// Whether `s` is a safety source this adapter may report.
    open spec fn spec_may_report_source(&self, s: SafetySource) -> bool {
        true
    }

    /// Adapter identity, as reported to callers: one it may report. No call
    /// widens what it may report later.
    fn info(&mut self) -> (i: AdapterInfo)
        ensures
            old(self).spec_may_report_info(i),
            forall|i: AdapterInfo| #[trigger] final(self).spec_may_report_info(i) ==> old(self).spec_may_report_info(i),
            forall|v: SafetyVector| #[trigger] final(self).spec_may_report_safety(v) ==> old(self).spec_may_report_safety(v),
            forall|s: SafetySource| #[trigger] final(self).spec_may_report_source(s) ==> old(self).spec_may_report_source(s),
    ;

    /// Rollback coverage per resource.
    fn safety_vector(&mut self) -> (v: SafetyVector)
        ensures
            old(self).spec_may_report_safety(v),
            forall|i: AdapterInfo| #[trigger] final(self).spec_may_report_info(i) ==> old(self).spec_may_report_info(i),
            forall|v: SafetyVector| #[trigger] final(self).spec_may_report_safety(v) ==> old(self).spec_may_report_safety(v),
            forall|s: SafetySource| #[trigger] final(self).spec_may_report_source(s) ==> old(self).spec_may_report_source(s),
    ;

    /// Where those values came from.
    fn safety_source(&mut self) -> (s: SafetySource)
        ensures
            old(self).spec_may_report_source(s),
            forall|i: AdapterInfo| #[trigger] final(self).spec_may_report_info(i) ==> old(self).spec_may_report_info(i),
            forall|v: SafetyVector| #[trigger] final(self).spec_may_report_safety(v) ==> old(self).spec_may_report_safety(v),
            forall|s: SafetySource| #[trigger] final(self).spec_may_report_source(s) ==> old(self).spec_may_report_source(s),
    ;

    /// The active base revision, for base-movement checks.
    fn current_base_revision(&mut self) -> (b: BaseRevision)
        ensures
            forall|i: AdapterInfo| #[trigger] final(self).spec_may_report_info(i) ==> old(self).spec_may_report_info(i),
            forall|v: SafetyVector| #[trigger] final(self).spec_may_report_safety(v) ==> old(self).spec_may_report_safety(v),
            forall|s: SafetySource| #[trigger] final(self).spec_may_report_source(s) ==> old(self).spec_may_report_source(s),
    ;

    /// Stage a proposal through the adapter; by default, the synthetic
    /// staging of an adapter with no host.
    fn propose_config(&mut self, changes: &Vec<ConfigFileChange>) -> (r: Result<
        AdapterProposeOutcome,
        AdapterProposeError,
    >)
        ensures
            forall|i: AdapterInfo| #[trigger] final(self).spec_may_report_info(i) ==> old(self).spec_may_report_info(i),
            forall|v: SafetyVector| #[trigger] final(self).spec_may_report_safety(v) ==> old(self).spec_may_report_safety(v),
            forall|s: SafetySource| #[trigger] final(self).spec_may_report_source(s) ==> old(self).spec_may_report_source(s),
        default_ensures
            r matches Ok(o) && spec_unresolved_propose(o, changes@),
    {
        Ok(unresolved_propose(changes))
    }
}

/// No coverage anywhere, and recovery only through the out-of-band console.
pub open spec fn spec_unresolved_safety() -> SafetyVector {
    SafetyVector {
        root_config: HostSafety::Absent,
        packages: HostSafety::Absent,
        bootloader: HostSafety::Absent,
        kernel: HostSafety::Absent,
        service_state: ServiceStateSafety::Absent,
        plugin_data: DataSafety::Absent,
        desktop_data: DataSafety::Absent,
        home_data: DataSafety::Absent,
        external_effects: ExternalEffectsSafety::Absent,
        recovery_requires: RecoveryRequires::OobConsole,
    }
}

pub fn unresolved_safety_vector() -> (v: SafetyVector)
    ensures
        v == spec_unresolved_safety(),
{
    SafetyVector {
        root_config: HostSafety::Absent,
        packages: HostSafety::Absent,
        bootloader: HostSafety::Absent,
        kernel: HostSafety::Absent,
        service_state: ServiceStateSafety::Absent,
        plugin_data: DataSafety::Absent,
        desktop_data: DataSafety::Absent,
        home_data: DataSafety::Absent,
        external_effects: ExternalEffectsSafety::Absent,
        recovery_requires: RecoveryRequires::OobConsole,
    }
}

/// The adapter used when none is resolved: it resolves nothing and claims
/// nothing.
#[derive(Debug, Default)]
pub struct UnresolvedAdapter;

/// The identity the unresolved adapter reports.
pub open spec fn spec_unresolved_info(i: AdapterInfo) -> bool {
    &&& i.kind@ == "unresolved"@
    &&& !i.resolved
    &&& i.available_at_gate == 1
    &&& i.generations.is_none()
    &&& i.snapshots.is_none()
}

impl HostAdapter for UnresolvedAdapter {
    open spec fn spec_may_report_info(&self, i: AdapterInfo) -> bool {
        spec_unresolved_info(i)
    }

    open spec fn spec_may_report_safety(&self, v: SafetyVector) -> bool {
        v == spec_unresolved_safety()
    }

    open spec fn spec_may_report_source(&self, s: SafetySource) -> bool {
        s == SafetySource::UnresolvedAdapter
    }

    fn info(&mut self) -> (i: AdapterInfo)
        ensures
            i.kind@ == "unresolved"@,
            !i.resolved,
            i.available_at_gate == 1,
            i.generations.is_none(),
            i.snapshots.is_none(),
    {
        AdapterInfo {
            kind: "unresolved".to_owned(),
            resolved: false,
            available_at_gate: 1,
            generations: None,
            snapshots: None,
        }
    }

    fn safety_vector(&mut self) -> (v: SafetyVector)
        ensures
            v == spec_unresolved_safety(),
    {
        unresolved_safety_vector()
    }

    fn safety_source(&mut self) -> (s: SafetySource)
        ensures
            s == SafetySource::UnresolvedAdapter,
    {
        SafetySource::UnresolvedAdapter
    }

    fn current_base_revision(&mut self) -> (b: BaseRevision)
        ensures
            b@.generation == Some("gen-1"@),
            b@.etc_git_commit == "deadbeef"@,
            b@.config_digest == Seq::new(32, |i: int| 0x22u8),
    {
        let d = Digest::from_sha256_bytes([0x22u8; 32]);
        assert(d@ =~= Seq::new(32, |i: int| 0x22u8));
        BaseRevision { generation: Some("gen-1".to_owned()), etc_git_commit: "deadbeef".to_owned(), config_digest: d }
    }
}

/// With no adapter resolved, every D or M step is refused at the safety
/// stage, whatever the manifest pre-authorizes and however much quota
/// remains: the unresolved adapter claims no coverage anywhere, and no
/// manifest can lower the floor to `none`.
pub proof fn unresolved_host_refuses_every_mutation(call: CallDescriptor, manifest: AgentManifest, admitted: bool)
    requires
        !spec_contains_forbidden(call),
        exists|i: int|
            0 <= i < call.footprint@.len() && (#[trigger] call.footprint@[i].1 == EffectClass::D
                || call.footprint@[i].1 == EffectClass::M),
    ensures
        spec_decision(call, manifest, spec_unresolved_safety(), admitted) == spec_refuse(
            ErrorCode::Denied,
            DecisionStage::SafetyMinimum,
            "resource_below_safety_minimum",
        ),
{
    let i = choose|i: int|
        0 <= i < call.footprint@.len() && (#[trigger] call.footprint@[i].1 == EffectClass::D
            || call.footprint@[i].1 == EffectClass::M);
    none_never_meets(call.footprint@[i].0, spec_unresolved_safety(), manifest.spec_min_safety());
    assert(spec_fails_safety(call.footprint@, manifest.spec_min_safety(), spec_unresolved_safety()));
    safety_minimum_precedes_permissions(call, manifest, spec_unresolved_safety(), admitted);
}

} // verus!
