use agentbed::manifest::{AgentManifest, Capabilities, ManifestError, Quotas, Risk};
use agentbed::policy::{evaluate, evaluate_on, CallAdmission, CallDescriptor, Decision, OperationPolicy, OutOfBounds, PolicyKind};
use agentbed::protocol::{
    DataSafety, DecisionStage, Digest, EffectClass, ErrorCode, ExternalEffectsSafety, HostSafety, RecoveryRequires,
    SafetyVector, ServiceStateSafety,
};
use agentbed::quota::QuotaLedger;
use agentbed::safety::{MinSafety, Resource};

fn manifest(
    ceiling: Option<EffectClass>,
    calls_per_day: Option<u64>,
    ops: Vec<(&str, OperationPolicy)>,
) -> AgentManifest {
    let capabilities = Capabilities {
        operations: ops.into_iter().map(|(n, p)| (n.to_owned(), p)).collect(),
        quotas: Quotas { tx_per_day: None, calls_per_day },
        risk: Risk { max_unapproved_class: ceiling, min_safety: MinSafety::default() },
    };
    AgentManifest::from_parts("policy-fixture".to_owned(), Digest::from_sha256_bytes([0; 32]), capabilities)
        .expect("manifest loads")
}

fn pre_authorized() -> OperationPolicy {
    OperationPolicy::new(PolicyKind::PreAuthorized, Some("{}".to_owned()), None)
}

fn generous_host() -> SafetyVector {
    SafetyVector {
        root_config: HostSafety::Generation,
        packages: HostSafety::Generation,
        bootloader: HostSafety::Absent,
        kernel: HostSafety::Absent,
        service_state: ServiceStateSafety::DesiredState,
        plugin_data: DataSafety::DedicatedSnapshot,
        desktop_data: DataSafety::DedicatedSnapshot,
        home_data: DataSafety::DedicatedSnapshot,
        external_effects: ExternalEffectsSafety::Absent,
        recovery_requires: RecoveryRequires::RemoteReboot,
    }
}

struct AlwaysAdmits;

impl CallAdmission for AlwaysAdmits {
    fn try_admit(&mut self, _limit: Option<u64>) -> bool {
        true
    }
}

#[derive(Default)]
struct CountingAdmission {
    used: u64,
}

impl CountingAdmission {
    fn with_used(used: u64) -> Self {
        CountingAdmission { used }
    }
}

impl CallAdmission for CountingAdmission {
    fn try_admit(&mut self, limit: Option<u64>) -> bool {
        if let Some(limit) = limit {
            if self.used >= limit {
                return false;
            }
        }
        self.used = self.used.saturating_add(1);
        true
    }
}

#[derive(Default)]
struct RecordingAdmission {
    consulted: bool,
}

impl CallAdmission for RecordingAdmission {
    fn try_admit(&mut self, _limit: Option<u64>) -> bool {
        self.consulted = true;
        true
    }
}

fn config_apply() -> CallDescriptor {
    CallDescriptor {
        op: "config.apply",
        effect_set: vec![EffectClass::D],
        footprint: vec![(Resource::RootConfig, EffectClass::D)],
        globally_forbidden: false,
        within_bounds: None,
    }
}

fn hubspot(within_bounds: bool) -> CallDescriptor {
    CallDescriptor {
        op: "hubspot.request",
        effect_set: vec![EffectClass::E],
        footprint: vec![],
        globally_forbidden: false,
        within_bounds: Some(within_bounds),
    }
}

#[test]
fn stage1_forbidden_class_beats_every_permission() {
    let manifest = manifest(Some(EffectClass::E), None, vec![("kernel.patch", pre_authorized())]);
    let call = CallDescriptor {
        op: "kernel.patch",
        effect_set: vec![EffectClass::D],
        footprint: vec![],
        globally_forbidden: true,
        within_bounds: Some(true),
    };
    let decision = evaluate(&call, &manifest, &generous_host(), &mut AlwaysAdmits);
    assert_eq!(decision.stage(), Some(DecisionStage::ForbiddenClass));
}

#[test]
fn stage2_safety_minimum_refuses_before_any_permission_is_consulted() {
    let manifest = manifest(Some(EffectClass::M), None, vec![("config.apply", pre_authorized())]);
    let mut host = generous_host();
    host.root_config = HostSafety::Absent;
    let mut call = config_apply();
    call.within_bounds = Some(true);
    let decision = evaluate(&call, &manifest, &host, &mut AlwaysAdmits);
    assert_eq!(decision.stage(), Some(DecisionStage::SafetyMinimum));
}

#[test]
fn stage3_requires_approval_is_not_bypassed_by_a_low_class() {
    let manifest = manifest(
        Some(EffectClass::M),
        None,
        vec![("config.apply", OperationPolicy::new(PolicyKind::RequiresApproval, None, None))],
    );
    let decision = evaluate(&config_apply(), &manifest, &generous_host(), &mut AlwaysAdmits);
    assert_eq!(
        decision,
        Decision::Refuse {
            code: ErrorCode::ApprovalRequired,
            stage: DecisionStage::OperationPolicy,
            reason: "operation_requires_approval",
        }
    );
}

#[test]
fn stage3_pre_authorization_overrides_a_lower_class_ceiling() {
    let manifest = manifest(Some(EffectClass::M), None, vec![("hubspot.request", pre_authorized())]);
    assert_eq!(evaluate(&hubspot(true), &manifest, &generous_host(), &mut AlwaysAdmits), Decision::Allow);
}

#[test]
fn stage3_out_of_bounds_never_falls_through_to_the_ceiling() {
    let manifest = manifest(Some(EffectClass::E), None, vec![("hubspot.request", pre_authorized())]);
    let decision = evaluate(&hubspot(false), &manifest, &generous_host(), &mut AlwaysAdmits);
    assert_eq!(
        decision,
        Decision::Refuse {
            code: ErrorCode::ApprovalRequired,
            stage: DecisionStage::OperationPolicy,
            reason: "arguments_outside_pre_authorized_bounds",
        }
    );
}

#[test]
fn stage3_out_of_bounds_deny_refuses_outright() {
    let policy = OperationPolicy::new(PolicyKind::PreAuthorized, Some("{}".to_owned()), Some(OutOfBounds::Deny));
    let manifest = manifest(Some(EffectClass::E), None, vec![("hubspot.request", policy)]);
    let decision = evaluate(&hubspot(false), &manifest, &generous_host(), &mut AlwaysAdmits);
    assert_eq!(decision.stage(), Some(DecisionStage::OperationPolicy));
    assert!(matches!(decision, Decision::Refuse { code: ErrorCode::Denied, .. }));
}

#[test]
fn stage4_applies_only_without_an_explicit_policy() {
    let manifest = manifest(Some(EffectClass::R), None, vec![]);
    assert_eq!(
        evaluate(&CallDescriptor::read_only("system.info"), &manifest, &generous_host(), &mut AlwaysAdmits),
        Decision::Allow
    );
    let decision = evaluate(&config_apply(), &manifest, &generous_host(), &mut AlwaysAdmits);
    assert_eq!(
        decision,
        Decision::Refuse {
            code: ErrorCode::ApprovalRequired,
            stage: DecisionStage::ClassCeiling,
            reason: "class_above_unapproved_ceiling",
        }
    );
}

#[test]
fn stage4_refuses_a_call_whose_effect_set_could_not_be_computed() {
    let manifest = manifest(Some(EffectClass::E), None, vec![]);
    let call = CallDescriptor {
        op: "mystery.tool",
        effect_set: vec![],
        footprint: vec![],
        globally_forbidden: false,
        within_bounds: None,
    };
    assert_eq!(
        evaluate(&call, &manifest, &generous_host(), &mut AlwaysAdmits).stage(),
        Some(DecisionStage::ClassCeiling)
    );
}

#[test]
fn stage5_vetoes_both_ceiling_allows_and_pre_authorized_calls() {
    let by_ceiling = manifest(Some(EffectClass::R), Some(2), vec![]);
    let call = CallDescriptor::read_only("system.info");
    let mut admission = CountingAdmission::default();
    assert_eq!(evaluate(&call, &by_ceiling, &generous_host(), &mut admission), Decision::Allow);
    assert_eq!(evaluate(&call, &by_ceiling, &generous_host(), &mut admission), Decision::Allow);
    let exhausted = evaluate(&call, &by_ceiling, &generous_host(), &mut admission);
    assert_eq!(
        exhausted,
        Decision::Refuse {
            code: ErrorCode::QuotaExhausted,
            stage: DecisionStage::Quota,
            reason: "call_quota_exhausted",
        }
    );

    let pre = manifest(Some(EffectClass::R), Some(1), vec![("hubspot.request", pre_authorized())]);
    assert_eq!(
        evaluate(&hubspot(true), &pre, &generous_host(), &mut CountingAdmission::with_used(1)).stage(),
        Some(DecisionStage::Quota)
    );
}

#[test]
fn a_refused_call_never_consumes_quota() {
    let manifest = manifest(
        Some(EffectClass::M),
        Some(10),
        vec![("config.apply", OperationPolicy::new(PolicyKind::Deny, None, None))],
    );
    let mut admission = RecordingAdmission::default();
    let decision = evaluate(&config_apply(), &manifest, &generous_host(), &mut admission);
    assert_eq!(decision.stage(), Some(DecisionStage::OperationPolicy));
    assert!(!admission.consulted);
}

#[test]
fn an_earlier_refusal_keeps_its_attribution_when_quota_is_also_exhausted() {
    let manifest = manifest(
        Some(EffectClass::M),
        Some(0),
        vec![("config.apply", OperationPolicy::new(PolicyKind::Deny, None, None))],
    );
    let decision = evaluate(&config_apply(), &manifest, &generous_host(), &mut CountingAdmission::with_used(99));
    assert_eq!(decision.stage(), Some(DecisionStage::OperationPolicy));
}

#[test]
fn an_unbounded_pre_authorization_is_refused_at_load_time() {
    let capabilities = Capabilities {
        operations: vec![(
            "hubspot.request".to_owned(),
            OperationPolicy::new(PolicyKind::PreAuthorized, None, None),
        )],
        quotas: Quotas::default(),
        risk: Risk { max_unapproved_class: None, min_safety: MinSafety::default() },
    };
    let r = AgentManifest::from_parts("unbounded".to_owned(), Digest::from_sha256_bytes([0; 32]), capabilities);
    assert_eq!(
        r.err(),
        Some(ManifestError::SemanticallyRefused("pre_authorized operation without bounds"))
    );
}

#[test]
fn a_ceiling_of_f_is_refused_at_load_time() {
    let capabilities = Capabilities {
        operations: vec![],
        quotas: Quotas::default(),
        risk: Risk { max_unapproved_class: Some(EffectClass::F), min_safety: MinSafety::default() },
    };
    let r = AgentManifest::from_parts("f".to_owned(), Digest::from_sha256_bytes([0; 32]), capabilities);
    assert_eq!(r.err(), Some(ManifestError::SemanticallyRefused("max_unapproved_class may never be F")));
}

#[test]
fn the_ledger_counts_only_calls_the_ladder_allowed() {
    let manifest = manifest(
        Some(EffectClass::R),
        Some(1),
        vec![("config.apply", OperationPolicy::new(PolicyKind::Deny, None, None))],
    );
    let mut ledger = QuotaLedger::new();
    let refused = evaluate_on(&config_apply(), &manifest, &generous_host(), &mut ledger, "a", 10);
    assert_eq!(refused.stage(), Some(DecisionStage::OperationPolicy));
    assert_eq!(ledger.admitted_on("a", 10), 0);
    let call = CallDescriptor::read_only("system.info");
    assert_eq!(evaluate_on(&call, &manifest, &generous_host(), &mut ledger, "a", 10), Decision::Allow);
    assert_eq!(ledger.admitted_on("a", 10), 1);
    assert_eq!(
        evaluate_on(&call, &manifest, &generous_host(), &mut ledger, "a", 10).stage(),
        Some(DecisionStage::Quota)
    );
    assert_eq!(evaluate_on(&call, &manifest, &generous_host(), &mut ledger, "b", 10), Decision::Allow);
}

#[test]
fn an_unresolved_host_refuses_every_mutation() {
    let host = agentbed::adapter::unresolved_safety_vector();
    let manifest = manifest(Some(EffectClass::E), None, vec![("config.apply", pre_authorized())]);
    let mut call = config_apply();
    call.within_bounds = Some(true);
    assert_eq!(
        evaluate(&call, &manifest, &host, &mut AlwaysAdmits),
        Decision::Refuse {
            code: ErrorCode::Denied,
            stage: DecisionStage::SafetyMinimum,
            reason: "resource_below_safety_minimum",
        }
    );
    assert_eq!(
        evaluate(&CallDescriptor::read_only("system.info"), &manifest, &host, &mut AlwaysAdmits),
        Decision::Allow,
        "reads touch no resource"
    );
}
