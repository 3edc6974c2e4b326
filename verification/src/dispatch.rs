//! Request dispatch: parse, authenticate, authorize, then execute.
//!
//! The order is fixed. A frame that does not parse, or speaks an unknown
//! protocol version, is refused before anything else. Identity comes from the
//! token alone. The operation's arguments are projected and digested, the
//! manifest is loaded by the broker, and the five-stage ladder decides; only
//! an allowed call is executed, and stage 5 counts it in the same step that
//! admits it. Every frame yields exactly one response and one observation.
//!
//! Reading the frame, loading the manifest file and running an operation are
//! done by the caller between these steps; each step here takes what that
//! work produced and decides what happens next.

use crate::digest::{spec_operation_domain, spec_operation_text, OperationDigest};
use crate::hash::spec_sha256;
use crate::identity::{spec_resolve, AgentContext, TokenStore};
use crate::json::JsonValue;
use crate::manifest::{AgentManifest, ManifestError, ManifestStore};
use crate::observability::{opt_view, CallObservation, PeerCredentials};
use crate::policy::{evaluate_on, spec_decision_of, spec_ladder_of, CallDescriptor, CallView, Decision};
use crate::protocol::{DecisionStage, Digest, EffectClass, ErrorCode, SafetyVector};
use crate::quota::{spec_admits, spec_window_after, QuotaLedger};
use crate::safety::Resource;
use crate::transaction::engine::{EngineError, TransactionEngine};
use crate::wire::{
    spec_is_failure, spec_op_str, spec_operation_allowed, spec_version_supported, CallBinding, OpName,
    OperationResult, Request, Response, ResponseError,
};
use vstd::prelude::*;
use vstd::utf8::encode_utf8;

verus! {

/// Why a frame did not become a request.
#[derive(Debug, Clone, Copy, PartialEq, Eq, Structural)]
pub enum ParseFailure {
    /// The body is not JSON.
    MalformedJson,
    /// The JSON is not a request envelope (unknown or missing fields).
    EnvelopeRejected,
}

pub open spec fn spec_parse_reason(f: ParseFailure) -> &'static str {
    match f {
        ParseFailure::MalformedJson => "malformed_json",
        ParseFailure::EnvelopeRejected => "envelope_rejected",
    }
}

/// Why an operation's arguments were not projected through its schema.
#[derive(Debug, Clone, Copy, PartialEq, Eq, Structural)]
pub enum ProjectionFailure {
    /// The arguments do not deserialize into the operation's parameters.
    ParamsRejected,
    /// The typed parameters do not serialize back.
    NotSerializable,
    /// The projection fails the operation's schema.
    FailedSchema,
}

pub open spec fn spec_projection_code(f: ProjectionFailure) -> ErrorCode {
    match f {
        ProjectionFailure::NotSerializable => ErrorCode::Internal,
        _ => ErrorCode::InvalidRequest,
    }
}

pub open spec fn spec_projection_reason(f: ProjectionFailure) -> &'static str {
    match f {
        ProjectionFailure::ParamsRejected => "params_rejected",
        ProjectionFailure::NotSerializable => "params_not_serializable",
        ProjectionFailure::FailedSchema => "params_failed_schema",
    }
}

/// The call an operation makes: read-only operations have effect set {R} and
/// touch nothing; the others have {D} on the root configuration.
pub open spec fn spec_op_call(op: OpName) -> CallView {
    if op == OpName::SystemInfo || op == OpName::TxStatus || op == OpName::EventsReplay {
        CallView {
            op: spec_op_str(op)@,
            effect_set: seq![EffectClass::R],
            footprint: Seq::empty(),
            globally_forbidden: false,
            within_bounds: None,
        }
    } else {
        CallView {
            op: spec_op_str(op)@,
            effect_set: seq![EffectClass::D],
            footprint: seq![(Resource::RootConfig, EffectClass::D)],
            globally_forbidden: false,
            within_bounds: None,
        }
    }
}

/// The call descriptor of an operation.
pub fn describe(op: OpName) -> (c: CallDescriptor)
    ensures
        c@ == spec_op_call(op),
        c.op == spec_op_str(op),
{
    let c = match op {
        OpName::SystemInfo => crate::tools::system_info::describe_call(),
        OpName::ConfigPropose => crate::tools::config_propose::describe_call(),
        OpName::TxTest => crate::tools::transaction::test::describe_call(),
        OpName::TxApply => crate::tools::transaction::apply::describe_call(),
        OpName::TxRollback => crate::tools::transaction::rollback::describe_call(),
        OpName::TxStatus => crate::tools::transaction::status::describe_call(),
        OpName::EventsReplay => crate::tools::events::describe_call(),
    };
    assert(c.footprint@ =~= spec_op_call(op).footprint);
    assert(c.effect_set@ =~= spec_op_call(op).effect_set);
    c
}

/// The version every operation is at.
pub open spec fn spec_op_version(op: OpName) -> u32 {
    1
}

/// The operation digest of a projected call: SHA-256 over the protocol's
/// domain separator and the canonical bytes of the operation.
pub open spec fn spec_operation_digest(v: u8, op: OpName, op_version: u32, arguments: JsonValue) -> Option<Seq<u8>> {
    match spec_operation_domain(v) {
        Some(domain) => Some(
            spec_sha256(domain + encode_utf8(spec_operation_text(spec_op_str(op)@, op_version, arguments))),
        ),
        None => None,
    }
}

/// A request whose token resolved to an identity.
#[derive(Debug)]
pub struct Authenticated {
    request: Request,
    agent: AgentContext,
}

impl Authenticated {
    pub closed spec fn spec_request(&self) -> Request {
        self.request
    }

    pub closed spec fn spec_agent(&self) -> AgentContext {
        self.agent
    }

    /// The request.
    pub fn request(&self) -> (r: &Request)
        ensures
            *r == self.spec_request(),
    {
        &self.request
    }

    /// The identity the token resolved to.
    pub fn agent(&self) -> (r: &AgentContext)
        ensures
            *r == self.spec_agent(),
    {
        &self.agent
    }
}

/// What happens to a frame: it is answered now, or it goes on as an
/// authenticated request.
#[derive(Debug)]
pub enum FrameStep {
    Respond(Response, CallObservation),
    Proceed(Authenticated),
}

/// Permission to execute one call, with everything its binding needs.
#[derive(Debug)]
pub struct Grant {
    pub id: String,
    pub v: u8,
    pub op: OpName,
    pub agent_id: String,
    pub manifest_digest: Digest,
    pub operation_digest: Digest,
    pub effect_set: Vec<EffectClass>,
}

/// What happens to an authenticated request: it is answered now, or it is
/// executed under a grant.
#[derive(Debug)]
pub enum AuthorizeStep {
    Respond(Response, CallObservation),
    Execute(Grant),
}

/// An observation, field by field; digests are compared by their bytes.
pub open spec fn spec_obs(
    o: CallObservation,
    request_id: Option<Seq<char>>,
    agent_id: Option<Seq<char>>,
    peer: PeerCredentials,
    op: Option<&'static str>,
    effect_set: Seq<EffectClass>,
    manifest_digest: Option<Seq<u8>>,
    operation_digest: Option<Seq<u8>>,
    allowed: bool,
    stage: Option<DecisionStage>,
    error: Option<ErrorCode>,
    reason: &'static str,
) -> bool {
    &&& opt_view(o.request_id) == request_id
    &&& opt_view(o.agent_id) == agent_id
    &&& o.peer == peer
    &&& o.op == op
    &&& o.effect_set@ == effect_set
    &&& match o.manifest_digest {
        Some(d) => manifest_digest == Some(d@),
        None => manifest_digest.is_none(),
    }
    &&& match o.operation_digest {
        Some(d) => operation_digest == Some(d@),
        None => operation_digest.is_none(),
    }
    &&& o.allowed == allowed
    &&& o.stage == stage
    &&& o.error == error
    &&& o.reason == reason
}

/// A step that answers with a failure and records its observation.
pub open spec fn spec_answers(
    step: FrameStep,
    id: Option<Seq<char>>,
    v: u8,
    error: ResponseError,
    request_id: Option<Seq<char>>,
    agent_id: Option<Seq<char>>,
    peer: PeerCredentials,
    op: Option<&'static str>,
    reason: &'static str,
) -> bool {
    step matches FrameStep::Respond(resp, obs) && spec_is_failure(resp, id, v, error) && spec_obs(
        obs,
        request_id,
        agent_id,
        peer,
        op,
        Seq::empty(),
        None,
        None,
        false,
        None,
        Some(error.code),
        reason,
    )
}

/// A refusal before or instead of execution.
pub open spec fn spec_refused(
    step: AuthorizeStep,
    id: Seq<char>,
    v: u8,
    error: ResponseError,
    agent_id: Seq<char>,
    peer: PeerCredentials,
    op: OpName,
    manifest_digest: Option<Seq<u8>>,
    operation_digest: Option<Seq<u8>>,
    reason: &'static str,
) -> bool {
    step matches AuthorizeStep::Respond(resp, obs) && spec_is_failure(resp, Some(id), v, error) && spec_obs(
        obs,
        Some(id),
        Some(agent_id),
        peer,
        Some(spec_op_str(op)),
        spec_op_call(op).effect_set,
        manifest_digest,
        operation_digest,
        false,
        error.stage,
        Some(error.code),
        reason,
    )
}

/// How an engine failure is answered: code, stage and reason.
pub open spec fn spec_engine_failure(e: EngineError) -> (ErrorCode, DecisionStage, &'static str) {
    match e {
        EngineError::NotFound | EngineError::BaseRevisionMoved | EngineError::IdempotencyConflict => (
            ErrorCode::Denied,
            DecisionStage::OperationPolicy,
            "transaction_refused",
        ),
        EngineError::SafeMode | EngineError::InvalidTransition | EngineError::WatchdogAuthorityRequired => (
            ErrorCode::Denied,
            DecisionStage::ForbiddenClass,
            "transaction_refused",
        ),
        EngineError::Storage(_) => (ErrorCode::Internal, DecisionStage::ForbiddenClass, "storage_failure"),
    }
}

/// Everything the request path needs, assembled once at startup.
#[derive(Debug)]
pub struct Dispatcher {
    tokens: TokenStore,
    manifests: ManifestStore,
    quotas: QuotaLedger,
    pub transactions: TransactionEngine,
}

impl Dispatcher {
    pub closed spec fn spec_tokens(&self) -> TokenStore {
        self.tokens
    }

    pub closed spec fn spec_quotas(&self) -> QuotaLedger {
        self.quotas
    }

    pub closed spec fn spec_manifests(&self) -> ManifestStore {
        self.manifests
    }

    pub closed spec fn spec_transactions(&self) -> TransactionEngine {
        self.transactions
    }

    /// Assemble a dispatcher: the token store, the manifest directory and the
    /// transaction engine. Quotas start empty.
    pub fn new(tokens: TokenStore, manifests: ManifestStore, transactions: TransactionEngine) -> (d: Dispatcher)
        ensures
            d.spec_tokens() == tokens,
            d.spec_manifests() == manifests,
            forall|k: Seq<char>| d.spec_quotas().window_of(k) is None,
            d.spec_transactions() == transactions,
    {
        Dispatcher { tokens, manifests, quotas: QuotaLedger::new(), transactions }
    }

    /// The manifest directory.
    pub fn manifests(&self) -> (r: &ManifestStore)
        ensures
            *r == self.spec_manifests(),
    {
        &self.manifests
    }

    /// How many credentials are enrolled.
    pub fn enrolled_tokens(&self) -> (n: usize)
        ensures
            n == self.spec_tokens().spec_creds().len(),
    {
        self.tokens.len()
    }

    /// Decide what happens to a frame, given what parsing it gave and the Unix
    /// time `now`: a parse failure, an unknown protocol version, an operation
    /// the version does not carry, a token that does not resolve and an
    /// unsupported operation version are answered here; anything else goes on
    /// with the identity its token resolved to.
    pub fn admit_frame(&self, parsed: Result<Request, ParseFailure>, peer: PeerCredentials, now: u64) -> (r: FrameStep)
        ensures
            match parsed {
                Err(f) => spec_answers(
                    r,
                    None,
                    1,
                    ResponseError { code: ErrorCode::InvalidRequest, stage: None },
                    None,
                    None,
                    peer,
                    None,
                    spec_parse_reason(f),
                ),
                Ok(req) => if !spec_version_supported(req.v) {
                    spec_answers(
                        r,
                        None,
                        1,
                        ResponseError { code: ErrorCode::InvalidRequest, stage: None },
                        None,
                        None,
                        peer,
                        None,
                        "unsupported_protocol_version",
                    )
                } else if !spec_operation_allowed(req.v, req.op) {
                    spec_answers(
                        r,
                        Some(req.id@),
                        req.v,
                        ResponseError { code: ErrorCode::InvalidRequest, stage: None },
                        None,
                        None,
                        peer,
                        None,
                        "operation_not_allowed_for_protocol_version",
                    )
                } else {
                    match spec_resolve(self.spec_tokens().spec_creds(), req.token@, now) {
                        Err(_) => spec_answers(
                            r,
                            Some(req.id@),
                            req.v,
                            ResponseError { code: ErrorCode::Unauthenticated, stage: None },
                            Some(req.id@),
                            None,
                            peer,
                            Some(spec_op_str(req.op)),
                            "token_not_resolved",
                        ),
                        Ok((agent, manifest_ref)) => if req.op_version != spec_op_version(req.op) {
                            spec_answers(
                                r,
                                Some(req.id@),
                                req.v,
                                ResponseError { code: ErrorCode::UnsupportedOperation, stage: None },
                                Some(req.id@),
                                Some(agent),
                                peer,
                                Some(spec_op_str(req.op)),
                                "unsupported_operation_version",
                            )
                        } else {
                            r matches FrameStep::Proceed(a) && a.spec_request() == req && a.spec_agent().spec_agent_id()
                                == agent && a.spec_agent().spec_manifest_ref() == manifest_ref
                        },
                    }
                },
            },
    {
        let req = match parsed {
            Err(f) => {
                let reason = match f {
                    ParseFailure::MalformedJson => "malformed_json",
                    ParseFailure::EnvelopeRejected => "envelope_rejected",
                };
                return FrameStep::Respond(
                    Response::failed(None, 1, ResponseError::new(ErrorCode::InvalidRequest)),
                    CallObservation::rejected(peer, ErrorCode::InvalidRequest, reason),
                );
            },
            Ok(req) => req,
        };
        if !req.version_supported() {
            return FrameStep::Respond(
                Response::failed(None, 1, ResponseError::new(ErrorCode::InvalidRequest)),
                CallObservation::rejected(peer, ErrorCode::InvalidRequest, "unsupported_protocol_version"),
            );
        }
        if !req.operation_allowed() {
            return FrameStep::Respond(
                Response::failed(Some(req.id), req.v, ResponseError::new(ErrorCode::InvalidRequest)),
                CallObservation::rejected(peer, ErrorCode::InvalidRequest, "operation_not_allowed_for_protocol_version"),
            );
        }
        let agent = match self.tokens.resolve_at(req.token.as_str(), now) {
            Err(_) => {
                let mut obs = CallObservation::rejected(peer, ErrorCode::Unauthenticated, "token_not_resolved");
                obs.request_id = Some(req.id.clone());
                obs.op = Some(req.op.as_str());
                return FrameStep::Respond(
                    Response::failed(Some(req.id), req.v, ResponseError::new(ErrorCode::Unauthenticated)),
                    obs,
                );
            },
            Ok(agent) => agent,
        };
        if req.op_version != 1 {
            let mut obs = CallObservation::rejected(
                peer,
                ErrorCode::UnsupportedOperation,
                "unsupported_operation_version",
            );
            obs.request_id = Some(req.id.clone());
            obs.agent_id = Some(agent.agent_id().to_owned());
            obs.op = Some(req.op.as_str());
            return FrameStep::Respond(
                Response::failed(Some(req.id), req.v, ResponseError::new(ErrorCode::UnsupportedOperation)),
                obs,
            );
        }
        FrameStep::Proceed(Authenticated { request: req, agent })
    }

    /// Authorize an authenticated request, given its arguments' projection
    /// through the operation's schema, the agent's manifest as loaded, the
    /// safety vector the host adapter reports now, and the day: digest the
    /// projection, evaluate the ladder (stage 5 counting the
    /// call against the agent's daily quota) and either refuse or grant.
    /// `tx.rollback` is authorized but not executed.
    pub fn authorize(
        &mut self,
        auth: Authenticated,
        projection: Result<JsonValue, ProjectionFailure>,
        manifest: Result<AgentManifest, ManifestError>,
        host: SafetyVector,
        today: u64,
        peer: PeerCredentials,
    ) -> (r: AuthorizeStep)
        ensures
            ({
                let req = auth.spec_request();
                let id = req.id@;
                let agent = auth.spec_agent().spec_agent_id();
                let call = spec_op_call(req.op);
                match projection {
                    Err(f) => spec_refused(
                        r,
                        id,
                        req.v,
                        ResponseError { code: spec_projection_code(f), stage: None },
                        agent,
                        peer,
                        req.op,
                        None,
                        None,
                        spec_projection_reason(f),
                    ) && final(self).spec_quotas() == old(self).spec_quotas(),
                    Ok(args) => match spec_operation_digest(req.v, req.op, req.op_version, args) {
                        None => spec_refused(
                            r,
                            id,
                            req.v,
                            ResponseError { code: ErrorCode::Internal, stage: None },
                            agent,
                            peer,
                            req.op,
                            None,
                            None,
                            "operation_not_canonicalizable",
                        ) && final(self).spec_quotas() == old(self).spec_quotas(),
                        Some(opd) => match manifest {
                            Err(_) => spec_refused(
                                r,
                                id,
                                req.v,
                                ResponseError { code: ErrorCode::Denied, stage: None },
                                agent,
                                peer,
                                req.op,
                                None,
                                Some(opd),
                                "manifest_unavailable",
                            ) && final(self).spec_quotas() == old(self).spec_quotas(),
                            Ok(m) => {
                                let admitted = spec_admits(
                                    old(self).spec_quotas().window_of(agent),
                                    today,
                                    m.spec_calls_per_day(),
                                );
                                &&& match spec_ladder_of(call, m, host) {
                                    Err(_) => final(self).spec_quotas() == old(self).spec_quotas(),
                                    Ok(()) => final(self).spec_quotas().window_of(agent) == Some(
                                        spec_window_after(
                                            old(self).spec_quotas().window_of(agent),
                                            today,
                                            m.spec_calls_per_day(),
                                        ),
                                    ) && forall|k: Seq<char>|
                                        k != agent ==> final(self).spec_quotas().window_of(k) == old(
                                            self,
                                        ).spec_quotas().window_of(k),
                                }
                                &&& match spec_decision_of(call, m, host, admitted) {
                                    Decision::Refuse { code, stage, reason } => spec_refused(
                                        r,
                                        id,
                                        req.v,
                                        ResponseError { code, stage: Some(stage) },
                                        agent,
                                        peer,
                                        req.op,
                                        Some(m.spec_digest()@),
                                        Some(opd),
                                        reason,
                                    ),
                                    Decision::Allow => if req.op == OpName::TxRollback {
                                        spec_refused(
                                            r,
                                            id,
                                            req.v,
                                            ResponseError { code: ErrorCode::Internal, stage: None },
                                            agent,
                                            peer,
                                            req.op,
                                            Some(m.spec_digest()@),
                                            Some(opd),
                                            "execution_not_implemented_at_l00",
                                        )
                                    } else {
                                        r matches AuthorizeStep::Execute(g) && g.id@ == id && g.v == req.v && g.op
                                            == req.op && g.agent_id@ == agent && g.manifest_digest == m.spec_digest()
                                            && g.operation_digest@ == opd && g.effect_set@ == call.effect_set
                                    },
                                }
                            },
                        },
                    },
                }
            }),
            final(self).spec_tokens() == old(self).spec_tokens(),
            final(self).spec_transactions() == old(self).spec_transactions(),
    {
        let Authenticated { request, agent } = auth;
        let call = describe(request.op);
        let op = request.op.as_str();
        let args = match projection {
            Err(f) => {
                let (code, reason) = match f {
                    ProjectionFailure::ParamsRejected => (ErrorCode::InvalidRequest, "params_rejected"),
                    ProjectionFailure::NotSerializable => (ErrorCode::Internal, "params_not_serializable"),
                    ProjectionFailure::FailedSchema => (ErrorCode::InvalidRequest, "params_failed_schema"),
                };
                return refuse(request.id, &agent, peer, request.v, ResponseError::new(code), reason, None, None, op, call.effect_set);
            },
            Ok(args) => args,
        };
        let digest = match OperationDigest::of(request.v, op, request.op_version, &args) {
            Ok(d) => *d.digest(),
            Err(_) => {
                return refuse(
                    request.id,
                    &agent,
                    peer,
                    request.v,
                    ResponseError::new(ErrorCode::Internal),
                    "operation_not_canonicalizable",
                    None,
                    None,
                    op,
                    call.effect_set,
                );
            },
        };
        let manifest = match manifest {
            Err(_) => {
                return refuse(
                    request.id,
                    &agent,
                    peer,
                    request.v,
                    ResponseError::new(ErrorCode::Denied),
                    "manifest_unavailable",
                    None,
                    Some(digest),
                    op,
                    call.effect_set,
                );
            },
            Ok(m) => m,
        };
        let decision = evaluate_on(&call, &manifest, &host, &mut self.quotas, agent.agent_id(), today);
        match decision {
            Decision::Refuse { code, stage, reason } => refuse(
                request.id,
                &agent,
                peer,
                request.v,
                ResponseError::at_stage(code, stage),
                reason,
                Some(*manifest.digest()),
                Some(digest),
                op,
                call.effect_set,
            ),
            Decision::Allow => {
                if request.op == OpName::TxRollback {
                    return refuse(
                        request.id,
                        &agent,
                        peer,
                        request.v,
                        ResponseError::new(ErrorCode::Internal),
                        "execution_not_implemented_at_l00",
                        Some(*manifest.digest()),
                        Some(digest),
                        op,
                        call.effect_set,
                    );
                }
                AuthorizeStep::Execute(
                    Grant {
                        id: request.id,
                        v: request.v,
                        op: request.op,
                        agent_id: agent.agent_id().to_owned(),
                        manifest_digest: *manifest.digest(),
                        operation_digest: digest,
                        effect_set: call.effect_set,
                    },
                )
            },
        }
    }

    /// Answer an executed call: its result, bound to the grant, or the engine
    /// failure it ended in.
    pub fn finish(grant: Grant, outcome: Result<OperationResult, EngineError>, peer: PeerCredentials) -> (r: (
        Response,
        CallObservation,
    ))
        ensures
            match outcome {
                Ok(res0) => r.0 matches Response::Success { id, v, result, binding } && result == res0 && id@ == grant.id@
                    && v == grant.v
                    && binding.agent_id@ == grant.agent_id@ && binding.manifest_digest == grant.manifest_digest
                    && binding.effect_set@ == grant.effect_set@ && binding.operation_digest == grant.operation_digest
                    && spec_obs(
                    r.1,
                    Some(grant.id@),
                    Some(grant.agent_id@),
                    peer,
                    Some(spec_op_str(grant.op)),
                    grant.effect_set@,
                    Some(grant.manifest_digest@),
                    Some(grant.operation_digest@),
                    true,
                    None,
                    None,
                    "authorized",
                ),
                Err(e) => {
                    let (code, stage, reason) = spec_engine_failure(e);
                    let error = if code == ErrorCode::Internal {
                        ResponseError { code, stage: None }
                    } else {
                        ResponseError { code, stage: Some(stage) }
                    };
                    &&& spec_is_failure(r.0, Some(grant.id@), grant.v, error)
                    &&& spec_obs(
                        r.1,
                        Some(grant.id@),
                        Some(grant.agent_id@),
                        peer,
                        Some(spec_op_str(grant.op)),
                        grant.effect_set@,
                        Some(grant.manifest_digest@),
                        Some(grant.operation_digest@),
                        false,
                        Some(stage),
                        Some(code),
                        reason,
                    )
                },
            },
    {
        match outcome {
            Ok(result) => {
                let binding = CallBinding {
                    agent_id: grant.agent_id.clone(),
                    manifest_digest: grant.manifest_digest,
                    effect_set: copy_classes(&grant.effect_set),
                    operation_digest: grant.operation_digest,
                };
                let obs = CallObservation {
                    request_id: Some(grant.id.clone()),
                    agent_id: Some(grant.agent_id),
                    peer,
                    op: Some(grant.op.as_str()),
                    effect_set: grant.effect_set,
                    manifest_digest: Some(grant.manifest_digest),
                    operation_digest: Some(grant.operation_digest),
                    allowed: true,
                    stage: None,
                    error: None,
                    reason: "authorized",
                };
                (Response::Success { id: grant.id, v: grant.v, result, binding }, obs)
            },
            Err(e) => engine_failure(grant, &e, peer),
        }
    }
}

fn copy_classes(v: &Vec<EffectClass>) -> (r: Vec<EffectClass>)
    ensures
        r@ == v@,
{
    let mut r: Vec<EffectClass> = Vec::new();
    let mut i: usize = 0;
    while i < v.len()
        invariant
            i <= v@.len(),
            r@ == v@.subrange(0, i as int),
        decreases v@.len() - i,
    {
        r.push(v[i]);
        i = i + 1;
        assert(r@ =~= v@.subrange(0, i as int));
    }
    assert(v@.subrange(0, v@.len() as int) =~= v@);
    r
}

/// Record and return a refusal that happened before or instead of execution.
fn refuse(
    id: String,
    agent: &AgentContext,
    peer: PeerCredentials,
    v: u8,
    error: ResponseError,
    reason: &'static str,
    manifest_digest: Option<Digest>,
    operation_digest: Option<Digest>,
    op: &'static str,
    effect_set: Vec<EffectClass>,
) -> (r: AuthorizeStep)
    ensures
        r matches AuthorizeStep::Respond(resp, obs) && spec_is_failure(resp, Some(id@), v, error) && opt_view(
            obs.request_id,
        ) == Some(id@) && opt_view(obs.agent_id) == Some(agent.spec_agent_id()) && obs.peer == peer && obs.op == Some(
            op,
        ) && obs.effect_set@ == effect_set@ && obs.manifest_digest == manifest_digest && obs.operation_digest
            == operation_digest && !obs.allowed && obs.stage == error.stage && obs.error == Some(error.code)
            && obs.reason == reason,
{
    let obs = CallObservation {
        request_id: Some(id.clone()),
        agent_id: Some(agent.agent_id().to_owned()),
        peer,
        op: Some(op),
        effect_set,
        manifest_digest,
        operation_digest,
        allowed: false,
        stage: error.stage,
        error: Some(error.code),
        reason,
    };
    AuthorizeStep::Respond(Response::failed(Some(id), v, error), obs)
}

/// Answer a call the engine refused or failed.
pub fn engine_failure(grant: Grant, err: &EngineError, peer: PeerCredentials) -> (r: (Response, CallObservation))
    ensures
        ({
            let (code, stage, reason) = spec_engine_failure(*err);
            let error = if code == ErrorCode::Internal {
                ResponseError { code, stage: None }
            } else {
                ResponseError { code, stage: Some(stage) }
            };
            &&& spec_is_failure(r.0, Some(grant.id@), grant.v, error)
            &&& spec_obs(
                r.1,
                Some(grant.id@),
                Some(grant.agent_id@),
                peer,
                Some(spec_op_str(grant.op)),
                grant.effect_set@,
                Some(grant.manifest_digest@),
                Some(grant.operation_digest@),
                false,
                Some(stage),
                Some(code),
                reason,
            )
        }),
{
    let (code, stage, reason) = match err {
        EngineError::NotFound | EngineError::BaseRevisionMoved | EngineError::IdempotencyConflict => (
            ErrorCode::Denied,
            DecisionStage::OperationPolicy,
            "transaction_refused",
        ),
        EngineError::SafeMode | EngineError::InvalidTransition | EngineError::WatchdogAuthorityRequired => (
            ErrorCode::Denied,
            DecisionStage::ForbiddenClass,
            "transaction_refused",
        ),
        EngineError::Storage(_) => (ErrorCode::Internal, DecisionStage::ForbiddenClass, "storage_failure"),
    };
    let obs = CallObservation {
        request_id: Some(grant.id.clone()),
        agent_id: Some(grant.agent_id),
        peer,
        op: Some(grant.op.as_str()),
        effect_set: grant.effect_set,
        manifest_digest: Some(grant.manifest_digest),
        operation_digest: Some(grant.operation_digest),
        allowed: false,
        stage: Some(stage),
        error: Some(code),
        reason,
    };
    let error = if code == ErrorCode::Internal {
        ResponseError::new(code)
    } else {
        ResponseError::at_stage(code, stage)
    };
    (Response::failed(Some(grant.id), grant.v, error), obs)
}

} // verus!
