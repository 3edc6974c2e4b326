//! The policy precedence ladder of `docs/effects.md` §1.
//!
//! Every call is evaluated through five stages in order; any stage may refuse,
//! and a later stage never relaxes an earlier one:
//!
//! 1. F / explicit deny: class F or a globally forbidden operation. Terminal.
//! 2. Safety minimum: a D/M footprint member below the per-resource minimum,
//!    or at `none`. Terminal.
//! 3. Explicit operation policy: `deny` refuses, `requires_approval` always
//!    requires a per-call approval whatever the class ceiling says, and a
//!    `pre_authorized` scope allows only arguments inside its bounds.
//! 4. Class ceiling: only for operations with no explicit policy at all.
//! 5. Quota: a final veto over every allow, admitted atomically.

use crate::manifest::AgentManifest;
use crate::protocol::{DecisionStage, EffectClass, ErrorCode, SafetyVector};
use crate::safety::{meets_minimum, spec_meets_minimum, MinSafety, Resource};
use crate::quota::{spec_admits, spec_window_after, QuotaLedger};
use vstd::prelude::*;

verus! {

/// The three explicit policies.
#[derive(Debug, Clone, Copy, PartialEq, Eq, Structural)]
pub enum PolicyKind {
    /// Refuse the operation outright.
    Deny,
    /// Always require a per-call approval.
    RequiresApproval,
    /// Allow within declared bounds.
    PreAuthorized,
}

/// What happens to arguments outside a `pre_authorized` scope. There is no
/// variant meaning "fall back to the class ceiling".
#[derive(Debug, Clone, Copy, PartialEq, Eq, Structural)]
pub enum OutOfBounds {
    /// Require a per-call approval. The default.
    RequiresApproval,
    /// Refuse.
    Deny,
}

impl Default for OutOfBounds {
    fn default() -> (r: OutOfBounds)
        ensures
            r == OutOfBounds::RequiresApproval,
    {
        OutOfBounds::RequiresApproval
    }
}

/// What a manifest says about one named operation (stage 3).
#[derive(Debug, Clone)]
pub struct OperationPolicy {
    policy: PolicyKind,
    /// The declared bounds, as the JSON text of the manifest's `bounds` value.
    bounds: Option<String>,
    out_of_bounds: Option<OutOfBounds>,
}

pub open spec fn spec_policy_kind(p: OperationPolicy) -> PolicyKind {
    p.spec_kind()
}

pub open spec fn spec_is_pre_authorized(p: OperationPolicy) -> bool {
    p.spec_kind() == PolicyKind::PreAuthorized
}

pub open spec fn spec_has_bounds(p: OperationPolicy) -> bool {
    p.spec_has_bounds()
}

impl OperationPolicy {
    /// A policy as a manifest declares it.
    pub fn new(policy: PolicyKind, bounds: Option<String>, out_of_bounds: Option<OutOfBounds>) -> (p: OperationPolicy)
        ensures
            p.spec_kind() == policy,
            p.spec_has_bounds() == bounds is Some,
            p.spec_out_of_bounds() == match out_of_bounds {
                Some(o) => o,
                None => OutOfBounds::RequiresApproval,
            },
    {
        OperationPolicy { policy, bounds, out_of_bounds }
    }

    pub closed spec fn spec_kind(&self) -> PolicyKind {
        self.policy
    }

    pub closed spec fn spec_has_bounds(&self) -> bool {
        self.bounds is Some
    }

    pub closed spec fn spec_out_of_bounds(&self) -> OutOfBounds {
        match self.out_of_bounds {
            Some(o) => o,
            None => OutOfBounds::RequiresApproval,
        }
    }

    /// Which policy this is.
    pub fn kind(&self) -> (r: PolicyKind)
        ensures
            r == self.spec_kind(),
    {
        self.policy
    }

    /// Whether this is a pre-authorization.
    pub fn is_pre_authorized(&self) -> (r: bool)
        ensures
            r == (self.spec_kind() == PolicyKind::PreAuthorized),
    {
        match self.policy {
            PolicyKind::PreAuthorized => true,
            _ => false,
        }
    }

    /// Whether bounds were declared.
    pub fn has_bounds(&self) -> (r: bool)
        ensures
            r == self.spec_has_bounds(),
    {
        self.bounds.is_some()
    }

    /// Out-of-bounds handling, defaulting to requiring an approval.
    pub fn out_of_bounds(&self) -> (r: OutOfBounds)
        ensures
            r == self.spec_out_of_bounds(),
    {
        match self.out_of_bounds {
            Some(o) => o,
            None => OutOfBounds::RequiresApproval,
        }
    }
}

/// A call as the broker computed it, ready to be judged.
#[derive(Debug, Clone)]
pub struct CallDescriptor {
    /// Operation name, e.g. `system.info`.
    pub op: &'static str,
    /// The exact computed effect set.
    pub effect_set: Vec<EffectClass>,
    /// Resources the call touches, with the class of the touch.
    pub footprint: Vec<(Resource, EffectClass)>,
    /// Whether the operation is globally forbidden (class F).
    pub globally_forbidden: bool,
    /// Under a `pre_authorized` policy: whether these arguments are inside the
    /// declared bounds.
    pub within_bounds: Option<bool>,
}

/// Rank in the R < D < M < E order. F is outside the order and ranks highest
/// so that any accidental comparison fails closed.
pub open spec fn spec_rank(class: EffectClass) -> u8 {
    match class {
        EffectClass::R => 0,
        EffectClass::D => 1,
        EffectClass::M => 2,
        EffectClass::E => 3,
        EffectClass::F => 255,
    }
}

fn rank(class: EffectClass) -> (r: u8)
    ensures
        r == spec_rank(class),
{
    match class {
        EffectClass::R => 0,
        EffectClass::D => 1,
        EffectClass::M => 2,
        EffectClass::E => 3,
        EffectClass::F => 255,
    }
}

/// The highest class of a set by the R < D < M < E order, F left out.
pub open spec fn spec_highest_class(effects: Seq<EffectClass>) -> Option<EffectClass>
    decreases effects.len(),
{
    if effects.len() == 0 {
        None
    } else {
        let rest = spec_highest_class(effects.drop_last());
        let c = effects.last();
        if c == EffectClass::F {
            rest
        } else {
            match rest {
                None => Some(c),
                Some(h) => if spec_rank(c) >= spec_rank(h) { Some(c) } else { Some(h) },
            }
        }
    }
}

/// Whether the call is forbidden outright (stage 1).
pub open spec fn spec_contains_forbidden(call: CallDescriptor) -> bool {
    call.globally_forbidden || call.effect_set@.contains(EffectClass::F)
}

/// Whether some D or M member of the footprint fails the safety minimum.
pub open spec fn spec_fails_safety(footprint: Seq<(Resource, EffectClass)>, min: MinSafety, host: SafetyVector) -> bool {
    exists|i: int| 0 <= i < footprint.len()
        && (#[trigger] footprint[i].1 == EffectClass::D || footprint[i].1 == EffectClass::M)
        && !spec_meets_minimum(footprint[i].0, host, min)
}

impl CallDescriptor {
    /// A read-only call touching nothing.
    pub fn read_only(op: &'static str) -> (c: CallDescriptor)
        ensures
            c.op == op,
            c.effect_set@ == seq![EffectClass::R],
            c.footprint@.len() == 0,
            !c.globally_forbidden,
            c.within_bounds is None,
    {
        CallDescriptor {
            op,
            effect_set: vec![EffectClass::R],
            footprint: Vec::new(),
            globally_forbidden: false,
            within_bounds: None,
        }
    }

    /// The highest class in the set, by the R < D < M < E order; F is never ranked.
    pub fn highest_class(&self) -> (r: Option<EffectClass>)
        ensures
            r == spec_highest_class(self.effect_set@),
    {
        let mut best: Option<EffectClass> = None;
        let mut i: usize = 0;
        while i < self.effect_set.len()
            invariant
                i <= self.effect_set@.len(),
                best == spec_highest_class(self.effect_set@.subrange(0, i as int)),
            decreases self.effect_set@.len() - i,
        {
            let c = self.effect_set[i];
            proof {
                let s = self.effect_set@.subrange(0, i + 1);
                assert(s.drop_last() =~= self.effect_set@.subrange(0, i as int));
                assert(s.last() == c);
            }
            match c {
                EffectClass::F => {},
                _ => {
                    best = match best {
                        None => Some(c),
                        Some(h) => if rank(c) >= rank(h) { Some(c) } else { Some(h) },
                    };
                },
            }
            i = i + 1;
        }
        proof {
            assert(self.effect_set@.subrange(0, self.effect_set@.len() as int) =~= self.effect_set@);
        }
        best
    }

    /// Whether the call is forbidden outright.
    pub fn contains_forbidden(&self) -> (r: bool)
        ensures
            r == spec_contains_forbidden(*self),
    {
        if self.globally_forbidden {
            return true;
        }
        let mut i: usize = 0;
        while i < self.effect_set.len()
            invariant
                i <= self.effect_set@.len(),
                forall|j: int| 0 <= j < i ==> self.effect_set@[j] != EffectClass::F,
            decreases self.effect_set@.len() - i,
        {
            match self.effect_set[i] {
                EffectClass::F => {
                    proof {
                        assert(self.effect_set@.contains(EffectClass::F));
                    }
                    return true;
                },
                _ => {},
            }
            i = i + 1;
        }
        false
    }
}

/// Stage 5's admission step: an action, not a reading. Implementations check
/// and count in one step, and refuse when accounting is unavailable.
pub trait CallAdmission {
    /// Whether this admission keeps a record of its verdicts. The default, no
    /// record, promises nothing of [`CallAdmission::spec_verdicts`].
    open spec fn spec_keeps_record(&self) -> bool {
        false
    }

    /// The verdicts given so far, oldest first, each with the limit it was
    /// asked against, for an admission that keeps a record: the record each
    /// `try_admit` extends.
    open spec fn spec_verdicts(&self) -> Seq<(Option<u64>, bool)> {
        Seq::empty()
    }

    /// Admit one call against `limit`, returning `false` when the budget is
    /// exhausted. `None` means no ceiling is declared.
    fn try_admit(&mut self, limit: Option<u64>) -> (admitted: bool)
        ensures
            final(self).spec_keeps_record() == old(self).spec_keeps_record(),
            old(self).spec_keeps_record() ==> final(self).spec_verdicts() == old(self).spec_verdicts().push(
                (limit, admitted),
            ),
    ;
}

/// The outcome of evaluating the ladder.
#[derive(Debug, Clone, Copy, PartialEq, Eq)]
pub enum Decision {
    /// The call may proceed.
    Allow,
    /// The call is refused.
    Refuse {
        /// Wire error for the caller.
        code: ErrorCode,
        /// Which stage decided.
        stage: DecisionStage,
        /// Machine-readable reason for the ledger.
        reason: &'static str,
    },
}

pub open spec fn spec_refuse(code: ErrorCode, stage: DecisionStage, reason: &'static str) -> Decision {
    Decision::Refuse { code, stage, reason }
}

impl Decision {
    fn refuse(code: ErrorCode, stage: DecisionStage, reason: &'static str) -> (d: Decision)
        ensures
            d == spec_refuse(code, stage, reason),
    {
        Decision::Refuse { code, stage, reason }
    }

    /// Whether the call may proceed.
    pub fn is_allowed(&self) -> (r: bool)
        ensures
            r == (*self is Allow),
    {
        match self {
            Decision::Allow => true,
            _ => false,
        }
    }

    /// The deciding stage, when a stage decided.
    pub fn stage(&self) -> (r: Option<DecisionStage>)
        ensures
            r == match *self {
                Decision::Allow => None,
                Decision::Refuse { stage, .. } => Some(stage),
            },
    {
        match self {
            Decision::Allow => None,
            Decision::Refuse { stage, .. } => Some(*stage),
        }
    }
}

/// Stage 3 for an operation with an explicit policy.
pub open spec fn spec_stage_three(policy: OperationPolicy, within_bounds: Option<bool>) -> Result<(), Decision> {
    match policy.spec_kind() {
        PolicyKind::Deny => Err(spec_refuse(ErrorCode::Denied, DecisionStage::OperationPolicy, "operation_denied_by_manifest")),
        PolicyKind::RequiresApproval => Err(spec_refuse(ErrorCode::ApprovalRequired, DecisionStage::OperationPolicy, "operation_requires_approval")),
        PolicyKind::PreAuthorized => if within_bounds == Some(true) {
            Ok(())
        } else {
            match policy.spec_out_of_bounds() {
                OutOfBounds::RequiresApproval => Err(spec_refuse(ErrorCode::ApprovalRequired, DecisionStage::OperationPolicy, "arguments_outside_pre_authorized_bounds")),
                OutOfBounds::Deny => Err(spec_refuse(ErrorCode::Denied, DecisionStage::OperationPolicy, "arguments_outside_pre_authorized_bounds")),
            }
        },
    }
}

/// Stage 4, for an operation with no explicit policy: the highest class must
/// not exceed the manifest's ceiling (R when none is declared), and an empty
/// effect set is refused rather than guessed.
pub open spec fn spec_stage_four(effects: Seq<EffectClass>, ceiling: Option<EffectClass>) -> Result<(), Decision> {
    match spec_highest_class(effects) {
        None => Err(spec_refuse(ErrorCode::Denied, DecisionStage::ClassCeiling, "effect_set_not_computable")),
        Some(highest) => {
            let c = match ceiling {
                Some(c) => c,
                None => EffectClass::R,
            };
            if spec_rank(highest) <= spec_rank(c) {
                Ok(())
            } else {
                Err(spec_refuse(ErrorCode::ApprovalRequired, DecisionStage::ClassCeiling, "class_above_unapproved_ceiling"))
            }
        },
    }
}

/// What a call descriptor stands for.
pub struct CallView {
    pub op: Seq<char>,
    pub effect_set: Seq<EffectClass>,
    pub footprint: Seq<(Resource, EffectClass)>,
    pub globally_forbidden: bool,
    pub within_bounds: Option<bool>,
}

impl View for CallDescriptor {
    type V = CallView;

    open spec fn view(&self) -> CallView {
        CallView {
            op: self.op@,
            effect_set: self.effect_set@,
            footprint: self.footprint@,
            globally_forbidden: self.globally_forbidden,
            within_bounds: self.within_bounds,
        }
    }
}

/// Stages 1 to 4 over a call's view: `Ok` when they allow, else the refusal
/// that decided.
pub open spec fn spec_ladder_of(call: CallView, manifest: AgentManifest, host: SafetyVector) -> Result<(), Decision> {
    if call.globally_forbidden || call.effect_set.contains(EffectClass::F) {
        Err(spec_refuse(ErrorCode::Denied, DecisionStage::ForbiddenClass, "forbidden_class"))
    } else if spec_fails_safety(call.footprint, manifest.spec_min_safety(), host) {
        Err(spec_refuse(ErrorCode::Denied, DecisionStage::SafetyMinimum, "resource_below_safety_minimum"))
    } else {
        match manifest.spec_operation_policy(call.op) {
            Some(policy) => spec_stage_three(policy, call.within_bounds),
            None => spec_stage_four(call.effect_set, manifest.spec_max_unapproved_class()),
        }
    }
}

/// Stages 1 to 4: `Ok` when they allow, else the refusal that decided.
pub open spec fn spec_ladder(call: CallDescriptor, manifest: AgentManifest, host: SafetyVector) -> Result<(), Decision> {
    spec_ladder_of(call@, manifest, host)
}

/// The quota veto's refusal.
pub open spec fn spec_quota_refusal() -> Decision {
    spec_refuse(ErrorCode::QuotaExhausted, DecisionStage::Quota, "call_quota_exhausted")
}

/// The whole ladder over a call's view, given whether stage 5 admitted it.
pub open spec fn spec_decision_of(call: CallView, manifest: AgentManifest, host: SafetyVector, admitted: bool) -> Decision {
    match spec_ladder_of(call, manifest, host) {
        Err(d) => d,
        Ok(()) => if admitted { Decision::Allow } else { spec_quota_refusal() },
    }
}

/// The whole ladder, given whether stage 5 admitted the call.
pub open spec fn spec_decision(call: CallDescriptor, manifest: AgentManifest, host: SafetyVector, admitted: bool) -> Decision {
    spec_decision_of(call@, manifest, host, admitted)
}

fn failing_safety(call: &CallDescriptor, min: &MinSafety, host: &SafetyVector) -> (r: Option<&'static str>)
    ensures
        r is Some == spec_fails_safety(call.footprint@, *min, *host),
        r matches Some(reason) ==> reason == "resource_below_safety_minimum",
{
    let fp = &call.footprint;
    let mut i: usize = 0;
    while i < fp.len()
        invariant
            i <= fp@.len(),
            fp@ == call.footprint@,
            forall|j: int| 0 <= j < i ==> !((fp@[j].1 == EffectClass::D || fp@[j].1 == EffectClass::M)
                && !spec_meets_minimum(fp@[j].0, *host, *min)),
        decreases fp@.len() - i,
    {
        let (resource, class) = fp[i];
        let mutating = match class {
            EffectClass::D | EffectClass::M => true,
            _ => false,
        };
        if mutating && !meets_minimum(resource, host, min) {
            proof {
                let k = i as int;
                assert(fp@[k].0 == resource && fp@[k].1 == class);
                assert((fp@[k].1 == EffectClass::D || fp@[k].1 == EffectClass::M)
                    && !spec_meets_minimum(fp@[k].0, *host, *min));
                assert(spec_fails_safety(call.footprint@, *min, *host));
            }
            return Some("resource_below_safety_minimum");
        }
        i = i + 1;
    }
    None
}

fn stage_three(policy: &OperationPolicy, call: &CallDescriptor) -> (r: Result<(), Decision>)
    ensures
        r == spec_stage_three(*policy, call.within_bounds),
{
    match policy.kind() {
        PolicyKind::Deny => Err(Decision::refuse(ErrorCode::Denied, DecisionStage::OperationPolicy, "operation_denied_by_manifest")),
        PolicyKind::RequiresApproval => Err(Decision::refuse(ErrorCode::ApprovalRequired, DecisionStage::OperationPolicy, "operation_requires_approval")),
        PolicyKind::PreAuthorized => match call.within_bounds {
            Some(true) => Ok(()),
            _ => match policy.out_of_bounds() {
                OutOfBounds::RequiresApproval => Err(Decision::refuse(ErrorCode::ApprovalRequired, DecisionStage::OperationPolicy, "arguments_outside_pre_authorized_bounds")),
                OutOfBounds::Deny => Err(Decision::refuse(ErrorCode::Denied, DecisionStage::OperationPolicy, "arguments_outside_pre_authorized_bounds")),
            },
        },
    }
}

fn stage_four(call: &CallDescriptor, manifest: &AgentManifest) -> (r: Result<(), Decision>)
    ensures
        r == spec_stage_four(call.effect_set@, manifest.spec_max_unapproved_class()),
{
    let highest = match call.highest_class() {
        None => {
            return Err(Decision::refuse(ErrorCode::Denied, DecisionStage::ClassCeiling, "effect_set_not_computable"));
        },
        Some(h) => h,
    };
    let ceiling = match manifest.max_unapproved_class() {
        Some(c) => c,
        None => EffectClass::R,
    };
    if rank(highest) <= rank(ceiling) {
        Ok(())
    } else {
        Err(Decision::refuse(ErrorCode::ApprovalRequired, DecisionStage::ClassCeiling, "class_above_unapproved_ceiling"))
    }
}

/// Stage 5: ask the admission once, against the manifest's daily limit, and
/// allow exactly when it admits.
fn stage_five<A: CallAdmission>(manifest: &AgentManifest, admission: &mut A) -> (d: Decision)
    ensures
        d == Decision::Allow || d == spec_quota_refusal(),
        final(admission).spec_keeps_record() == old(admission).spec_keeps_record(),
        old(admission).spec_keeps_record() ==> final(admission).spec_verdicts() == old(admission).spec_verdicts().push(
            (manifest.spec_calls_per_day(), d is Allow),
        ),
{
    if admission.try_admit(manifest.calls_per_day()) {
        Decision::Allow
    } else {
        Decision::refuse(ErrorCode::QuotaExhausted, DecisionStage::Quota, "call_quota_exhausted")
    }
}

/// A refusal from stages 1 to 4 is already terminal: the quota veto cannot
/// turn it into an allow, so the earlier stage keeps the attribution.
fn apply_quota_to_refusal(decision: Decision) -> (d: Decision)
    ensures
        d == decision,
{
    decision
}

/// Stages 1 to 4 of the ladder.
pub fn ladder(call: &CallDescriptor, manifest: &AgentManifest, host: &SafetyVector) -> (r: Result<(), Decision>)
    ensures
        r == spec_ladder(*call, *manifest, *host),
{
    if call.contains_forbidden() {
        return Err(Decision::refuse(ErrorCode::Denied, DecisionStage::ForbiddenClass, "forbidden_class"));
    }
    match failing_safety(call, manifest.min_safety(), host) {
        Some(reason) => {
            return Err(Decision::refuse(ErrorCode::Denied, DecisionStage::SafetyMinimum, reason));
        },
        None => {},
    }
    match manifest.operation_policy(call.op) {
        Some(policy) => stage_three(policy, call),
        None => stage_four(call, manifest),
    }
}

/// Evaluate one call against one manifest, host vector and quota admission.
///
/// Stages 1 to 4 decide as [`spec_ladder`] says; a refusal there is returned
/// unchanged and the admission is not consulted, so a refused call never
/// consumes budget. When they allow, the admission decides between `Allow`
/// and the quota refusal.
pub fn evaluate<A: CallAdmission>(call: &CallDescriptor, manifest: &AgentManifest, host: &SafetyVector, admission: &mut A) -> (d: Decision)
    ensures
        match spec_ladder(*call, *manifest, *host) {
            Err(refusal) => d == refusal && *final(admission) == *old(admission),
            Ok(()) => {
                &&& d == Decision::Allow || d == spec_quota_refusal()
                &&& old(admission).spec_keeps_record() ==> final(admission).spec_verdicts() == old(
                    admission,
                ).spec_verdicts().push((manifest.spec_calls_per_day(), d is Allow))
            },
        },
        d == spec_decision(*call, *manifest, *host, d is Allow),
{
    match ladder(call, manifest, host) {
        Err(decision) => apply_quota_to_refusal(decision),
        Ok(()) => stage_five(manifest, admission),
    }
}


/// The ladder with stage 5 counted against `ledger` for `agent_id` on day
/// `today`: a refusal by stages 1 to 4 leaves the ledger untouched; otherwise
/// the agent's window decides and an admitted call is counted.
pub fn evaluate_on(
    call: &CallDescriptor,
    manifest: &AgentManifest,
    host: &SafetyVector,
    ledger: &mut QuotaLedger,
    agent_id: &str,
    today: u64,
) -> (d: Decision)
    ensures
        match spec_ladder(*call, *manifest, *host) {
            Err(refusal) => d == refusal && *final(ledger) == *old(ledger),
            Ok(()) => {
                &&& d == spec_decision(
                    *call,
                    *manifest,
                    *host,
                    spec_admits(old(ledger).window_of(agent_id@), today, manifest.spec_calls_per_day()),
                )
                &&& final(ledger).window_of(agent_id@) == Some(
                    spec_window_after(old(ledger).window_of(agent_id@), today, manifest.spec_calls_per_day()),
                )
                &&& forall|k: Seq<char>| k != agent_id@ ==> final(ledger).window_of(k) == old(ledger).window_of(k)
            },
        },
{
    match ladder(call, manifest, host) {
        Err(decision) => apply_quota_to_refusal(decision),
        Ok(()) => {
            if ledger.try_admit_on(agent_id, manifest.calls_per_day(), today) {
                Decision::Allow
            } else {
                Decision::refuse(ErrorCode::QuotaExhausted, DecisionStage::Quota, "call_quota_exhausted")
            }
        },
    }
}

/// Stage 1 beats every permission: a call that is globally forbidden or whose
/// effect set contains F is refused as forbidden, whatever the manifest, the
/// host's coverage and the quota say.
pub proof fn forbidden_beats_every_permission(call: CallDescriptor, manifest: AgentManifest, host: SafetyVector, admitted: bool)
    requires
        spec_contains_forbidden(call),
    ensures
        spec_decision(call, manifest, host, admitted) == spec_refuse(ErrorCode::Denied, DecisionStage::ForbiddenClass, "forbidden_class"),
{
}

/// Stage 2 refuses before any permission is consulted: a call that is not
/// forbidden but mutates (D or M) a resource below the manifest's minimum, or
/// at `none`, is refused at the safety stage even when the manifest
/// pre-authorizes it.
pub proof fn safety_minimum_precedes_permissions(call: CallDescriptor, manifest: AgentManifest, host: SafetyVector, admitted: bool)
    requires
        !spec_contains_forbidden(call),
        spec_fails_safety(call.footprint@, manifest.spec_min_safety(), host),
    ensures
        spec_decision(call, manifest, host, admitted) == spec_refuse(ErrorCode::Denied, DecisionStage::SafetyMinimum, "resource_below_safety_minimum"),
{
}

/// An explicit `requires_approval` is never bypassed by a low class: such an
/// operation is never allowed, whatever its effect set and class ceiling.
pub proof fn requires_approval_is_never_bypassed(call: CallDescriptor, manifest: AgentManifest, host: SafetyVector, admitted: bool)
    requires
        manifest.spec_operation_policy(call.op@) matches Some(p) && p.spec_kind() == PolicyKind::RequiresApproval,
    ensures
        !(spec_decision(call, manifest, host, admitted) is Allow),
{
}

/// Arguments outside a pre-authorized scope never fall through to the class
/// ceiling: the call is refused, and never by stage 4.
pub proof fn out_of_bounds_never_falls_through(call: CallDescriptor, manifest: AgentManifest, host: SafetyVector, admitted: bool)
    requires
        manifest.spec_operation_policy(call.op@) matches Some(p) && p.spec_kind() == PolicyKind::PreAuthorized,
        call.within_bounds != Some(true),
    ensures
        !(spec_decision(call, manifest, host, admitted) is Allow),
        spec_decision(call, manifest, host, admitted)->Refuse_stage != DecisionStage::ClassCeiling,
{
}

/// The class ceiling applies only to operations with no explicit policy.
pub proof fn ceiling_applies_only_without_policy(call: CallDescriptor, manifest: AgentManifest, host: SafetyVector, admitted: bool)
    requires
        manifest.spec_operation_policy(call.op@) is Some,
    ensures
        spec_decision(call, manifest, host, admitted) is Allow
            || spec_decision(call, manifest, host, admitted)->Refuse_stage != DecisionStage::ClassCeiling,
{
}

/// Quota is a mandatory final veto: when admission refuses, no call is
/// allowed, approved or pre-authorized alike.
pub proof fn quota_vetoes_every_allow(call: CallDescriptor, manifest: AgentManifest, host: SafetyVector)
    ensures
        !(spec_decision(call, manifest, host, false) is Allow),
{
}

/// An earlier refusal keeps its attribution: when stages 1 to 4 refuse, the
/// decision is the same whether or not quota remains.
pub proof fn earlier_refusal_keeps_attribution(call: CallDescriptor, manifest: AgentManifest, host: SafetyVector)
    requires
        spec_ladder(call, manifest, host) is Err,
    ensures
        spec_decision(call, manifest, host, true) == spec_decision(call, manifest, host, false),
        spec_decision(call, manifest, host, true)->Refuse_stage != DecisionStage::Quota,
{
}

/// An allowed call passed every stage: it is not forbidden, every D/M member
/// of its footprint meets the minimum, an explicit policy allowed it only as
/// an in-bounds pre-authorization, a call without policy is within the
/// ceiling, and quota admitted it.
pub proof fn allow_passed_every_stage(call: CallDescriptor, manifest: AgentManifest, host: SafetyVector, admitted: bool)
    requires
        spec_decision(call, manifest, host, admitted) is Allow,
    ensures
        admitted,
        !spec_contains_forbidden(call),
        !spec_fails_safety(call.footprint@, manifest.spec_min_safety(), host),
        manifest.spec_operation_policy(call.op@) matches Some(p) ==> p.spec_kind() == PolicyKind::PreAuthorized
            && call.within_bounds == Some(true),
        manifest.spec_operation_policy(call.op@) is None ==> (spec_highest_class(call.effect_set@) matches Some(h)
            && spec_rank(h) <= spec_rank(match manifest.spec_max_unapproved_class() {
                Some(c) => c,
                None => EffectClass::R,
            })),
{
}

} // verus!
