//! Audit records: what happened to one request, with the identity the broker
//! resolved. Not yet hash-chained or anchored.

use crate::observability::PeerCredentials;
use crate::protocol::{DecisionStage, Digest, EffectClass, ErrorCode};
use vstd::prelude::*;

verus! {

/// What happened to one request.
#[derive(Debug, Clone)]
pub struct AuditRecord {
    pub request_id: Option<String>,
    pub agent_id: Option<String>,
    pub peer: PeerCredentials,
    pub op: Option<&'static str>,
    pub effect_set: Vec<EffectClass>,
    pub manifest_digest: Option<Digest>,
    pub operation_digest: Option<Digest>,
    pub allowed: bool,
    pub stage: Option<DecisionStage>,
    pub error: Option<ErrorCode>,
    pub reason: &'static str,
}

impl AuditRecord {
    /// A record for a request that never reached identity resolution.
    pub fn rejected(peer: PeerCredentials, error: ErrorCode, reason: &'static str) -> (r: AuditRecord)
        ensures
            r.request_id.is_none(),
            r.agent_id.is_none(),
            r.peer == peer,
            r.op.is_none(),
            r.effect_set@ == Seq::<EffectClass>::empty(),
            r.manifest_digest.is_none(),
            r.operation_digest.is_none(),
            !r.allowed,
            r.stage.is_none(),
            r.error == Some(error),
            r.reason == reason,
    {
        let r = AuditRecord {
            request_id: None,
            agent_id: None,
            peer,
            op: None,
            effect_set: Vec::new(),
            manifest_digest: None,
            operation_digest: None,
            allowed: false,
            stage: None,
            error: Some(error),
            reason,
        };
        assert(r.effect_set@ =~= Seq::<EffectClass>::empty());
        r
    }
}

} // verus!
