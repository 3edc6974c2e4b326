//! Structured, redacted observations of what the broker decided, and the
//! peer credentials that attribute the channel a call came on.
//!
//! Observations carry the resolved identity, never the credential that
//! produced it. They are not the audit ledger: nothing here is durable.

use crate::protocol::{DecisionStage, Digest, EffectClass, ErrorCode};
use vstd::prelude::*;

verus! {

/// Kernel-reported credentials of the connected process. They authenticate
/// the channel, never an agent.
#[derive(Debug, Clone, Copy, PartialEq, Eq, Structural)]
pub struct PeerCredentials {
    pub uid: u32,
    pub gid: u32,
    pub pid: i32,
}

/// What the broker decided about one request.
#[derive(Debug, Clone)]
pub struct CallObservation {
    /// Correlation id, when the request was well-formed enough to have one.
    pub request_id: Option<String>,
    /// Identity the broker resolved, if any.
    pub agent_id: Option<String>,
    /// Kernel-reported peer, for attribution of the channel.
    pub peer: PeerCredentials,
    /// Operation name, when it parsed.
    pub op: Option<&'static str>,
    /// The exact computed effect set.
    pub effect_set: Vec<EffectClass>,
    /// Digest of the manifest evaluated against.
    pub manifest_digest: Option<Digest>,
    /// SHA-256 over the canonical bytes of the validated operation.
    pub operation_digest: Option<Digest>,
    /// Whether the call was allowed.
    pub allowed: bool,
    /// Which stage decided, when a policy stage did.
    pub stage: Option<DecisionStage>,
    /// The wire error returned, when the call failed.
    pub error: Option<ErrorCode>,
    /// Short machine-readable reason.
    pub reason: &'static str,
}

impl CallObservation {
    /// A record for a request that never reached identity resolution.
    pub fn rejected(peer: PeerCredentials, error: ErrorCode, reason: &'static str) -> (o: CallObservation)
        ensures
            o.request_id.is_none(),
            o.agent_id.is_none(),
            o.peer == peer,
            o.op.is_none(),
            o.effect_set@ == Seq::<EffectClass>::empty(),
            o.manifest_digest.is_none(),
            o.operation_digest.is_none(),
            !o.allowed,
            o.stage.is_none(),
            o.error == Some(error),
            o.reason == reason,
    {
        let o = CallObservation {
            request_id: None,
            agent_id: None,
            peer,
            op: None,
            effect_set: Vec::new(),
            manifest_digest: None,
            operation_digest: None,
            allowed: false,
            stage: None,
            error: Some(error),
            reason,
        };
        assert(o.effect_set@ =~= Seq::<EffectClass>::empty());
        o
    }
}

/// The view of an optional string.
pub open spec fn opt_view(s: Option<String>) -> Option<Seq<char>> {
    match s {
        Some(t) => Some(t@),
        None => None,
    }
}

/// The observation of a call refused or failed with no stage or manifest
/// attribution beyond what is given.
pub open spec fn spec_observed(
    o: CallObservation,
    request_id: Option<Seq<char>>,
    agent_id: Option<Seq<char>>,
    peer: PeerCredentials,
    op: Option<&'static str>,
    effect_set: Seq<EffectClass>,
    manifest_digest: Option<Digest>,
    operation_digest: Option<Digest>,
    allowed: bool,
    stage: Option<DecisionStage>,
    error: Option<ErrorCode>,
    reason: &'static str,
) -> bool {
    &&& opt_view(o.request_id) == request_id
    &&& opt_view(o.agent_id) == agent_id
    &&& o.peer == peer
    &&& o.op == op
    &&& o.effect_set@ == effect_set
    &&& o.manifest_digest == manifest_digest
    &&& o.operation_digest == operation_digest
    &&& o.allowed == allowed
    &&& o.stage == stage
    &&& o.error == error
    &&& o.reason == reason
}

} // verus!
