use agentbed::dispatch::{describe, engine_failure, AuthorizeStep, Dispatcher, FrameStep, Grant, ParseFailure, ProjectionFailure};
use agentbed::digest::OperationDigest;
use agentbed::identity::TokenStore;
use agentbed::json::JsonValue;
use agentbed::manifest::{AgentManifest, Capabilities, ManifestError, ManifestStore, Quotas, Risk};
use agentbed::observability::PeerCredentials;
use agentbed::policy::{OperationPolicy, PolicyKind};
use agentbed::protocol::{
    DataSafety, DecisionStage, Digest, EffectClass, ErrorCode, ExternalEffectsSafety, HostSafety, RecoveryRequires,
    SafetyVector, ServiceStateSafety, TxStepResult, WireState,
};
use agentbed::safety::MinSafety;
use agentbed::storage::durability::DurabilityError;
use agentbed::transaction::engine::{EngineError, TransactionEngine};
use agentbed::wire::{OpName, OperationResult, Request, Response, ResponseError};

const TOKEN: &str = "aaaaaaaaaaaaaaaaaaaaaaaaaaaaaa";
const PEER: PeerCredentials = PeerCredentials { uid: 1000, gid: 1000, pid: 42 };

fn host() -> SafetyVector {
    SafetyVector {
        root_config: HostSafety::Generation,
        packages: HostSafety::Generation,
        bootloader: HostSafety::Absent,
        kernel: HostSafety::Absent,
        service_state: ServiceStateSafety::DesiredState,
        plugin_data: DataSafety::DedicatedSnapshot,
        desktop_data: DataSafety::DedicatedSnapshot,
        home_data: DataSafety::DedicatedSnapshot,
        external_effects: ExternalEffectsSafety::Absent,
        recovery_requires: RecoveryRequires::RemoteReboot,
    }
}

fn dispatcher() -> Dispatcher {
    let tokens = TokenStore::from_pairs(vec![("agent-a".to_owned(), "a.json".to_owned(), TOKEN.to_owned())]).unwrap();
    Dispatcher::new(tokens, ManifestStore::new("/tmp/manifests".to_owned()), TransactionEngine::open_with(&Vec::new(), false))
}

fn manifest(calls_per_day: Option<u64>, ops: Vec<(&str, PolicyKind)>) -> AgentManifest {
    let capabilities = Capabilities {
        operations: ops.into_iter().map(|(n, k)| (n.to_owned(), OperationPolicy::new(k, None, None))).collect(),
        quotas: Quotas { tx_per_day: None, calls_per_day },
        risk: Risk { max_unapproved_class: Some(EffectClass::M), min_safety: MinSafety::default() },
    };
    AgentManifest::from_parts("m".to_owned(), Digest::from_sha256_bytes([7; 32]), capabilities).unwrap()
}

fn request(v: u8, op: OpName, op_version: u32, token: &str) -> Request {
    Request { id: "req-1".to_owned(), v, op, op_version, token: token.to_owned(), params: JsonValue::Object(Vec::new()) }
}

fn failure(step: FrameStep) -> (Response, agentbed::observability::CallObservation) {
    match step {
        FrameStep::Respond(r, o) => (r, o),
        FrameStep::Proceed(_) => panic!("expected an answer"),
    }
}

fn is_failed(r: &Response, id: Option<&str>, v: u8, error: ResponseError) -> bool {
    matches!(r, Response::Failed { id: rid, v: rv, error: re } if rid.as_deref() == id && *rv == v && *re == error)
}

#[test]
fn unparsable_frames_are_invalid_requests_without_an_id() {
    let d = dispatcher();
    let (r, o) = failure(d.admit_frame(Err(ParseFailure::MalformedJson), PEER, 0));
    assert!(is_failed(&r, None, 1, ResponseError::new(ErrorCode::InvalidRequest)));
    assert_eq!(o.reason, "malformed_json");
    let (_, o) = failure(d.admit_frame(Err(ParseFailure::EnvelopeRejected), PEER, 0));
    assert_eq!(o.reason, "envelope_rejected");
    let (r, o) = failure(d.admit_frame(Ok(request(9, OpName::SystemInfo, 1, TOKEN)), PEER, 0));
    assert!(is_failed(&r, None, 1, ResponseError::new(ErrorCode::InvalidRequest)));
    assert_eq!(o.reason, "unsupported_protocol_version");
}

#[test]
fn v1_carries_only_system_info() {
    let d = dispatcher();
    let (r, o) = failure(d.admit_frame(Ok(request(1, OpName::ConfigPropose, 1, TOKEN)), PEER, 0));
    assert!(is_failed(&r, Some("req-1"), 1, ResponseError::new(ErrorCode::InvalidRequest)));
    assert_eq!(o.reason, "operation_not_allowed_for_protocol_version");
    assert!(matches!(d.admit_frame(Ok(request(1, OpName::SystemInfo, 1, TOKEN)), PEER, 0), FrameStep::Proceed(_)));
}

#[test]
fn identity_comes_from_the_token_alone() {
    let d = dispatcher();
    let (r, o) = failure(d.admit_frame(Ok(request(2, OpName::TxStatus, 1, "bbbbbbbbbbbbbbbbbbbbbbbbbbbbbb")), PEER, 0));
    assert!(is_failed(&r, Some("req-1"), 2, ResponseError::new(ErrorCode::Unauthenticated)));
    assert_eq!(o.reason, "token_not_resolved");
    assert_eq!(o.op, Some("tx.status"));
    assert_eq!(o.agent_id, None);
    match d.admit_frame(Ok(request(2, OpName::TxStatus, 1, TOKEN)), PEER, 0) {
        FrameStep::Proceed(a) => {
            assert_eq!(a.agent().agent_id(), "agent-a");
            assert_eq!(a.agent().manifest_ref(), "a.json");
            assert_eq!(a.request().op, OpName::TxStatus);
        }
        FrameStep::Respond(..) => panic!("the token resolves"),
    }
    assert_eq!(d.enrolled_tokens(), 1);
}

#[test]
fn an_unknown_operation_version_is_unsupported() {
    let d = dispatcher();
    let (r, o) = failure(d.admit_frame(Ok(request(2, OpName::SystemInfo, 2, TOKEN)), PEER, 0));
    assert!(is_failed(&r, Some("req-1"), 2, ResponseError::new(ErrorCode::UnsupportedOperation)));
    assert_eq!(o.reason, "unsupported_operation_version");
    assert_eq!(o.agent_id.as_deref(), Some("agent-a"));
}

fn authorize(
    d: &mut Dispatcher,
    op: OpName,
    projection: Result<JsonValue, ProjectionFailure>,
    manifest: Result<AgentManifest, ManifestError>,
) -> AuthorizeStep {
    let auth = match d.admit_frame(Ok(request(2, op, 1, TOKEN)), PEER, 0) {
        FrameStep::Proceed(a) => a,
        FrameStep::Respond(..) => panic!("admitted"),
    };
    d.authorize(auth, projection, manifest, host(), 100, PEER)
}

#[test]
fn projection_and_manifest_failures_are_refused_before_the_ladder() {
    let mut d = dispatcher();
    match authorize(&mut d, OpName::SystemInfo, Err(ProjectionFailure::FailedSchema), Ok(manifest(None, vec![]))) {
        AuthorizeStep::Respond(r, o) => {
            assert!(is_failed(&r, Some("req-1"), 2, ResponseError::new(ErrorCode::InvalidRequest)));
            assert_eq!(o.reason, "params_failed_schema");
            assert_eq!(o.operation_digest, None);
        }
        AuthorizeStep::Execute(_) => panic!(),
    }
    match authorize(&mut d, OpName::SystemInfo, Ok(JsonValue::Object(vec![])), Err(ManifestError::UnsafeReference)) {
        AuthorizeStep::Respond(r, o) => {
            assert!(is_failed(&r, Some("req-1"), 2, ResponseError::new(ErrorCode::Denied)));
            assert_eq!(o.reason, "manifest_unavailable");
            let expected = OperationDigest::of(2, "system.info", 1, &JsonValue::Object(vec![])).unwrap();
            assert_eq!(o.operation_digest, Some(*expected.digest()));
            assert_eq!(o.manifest_digest, None);
        }
        AuthorizeStep::Execute(_) => panic!(),
    }
}

#[test]
fn an_allowed_call_is_granted_with_its_binding() {
    let mut d = dispatcher();
    let grant = match authorize(&mut d, OpName::ConfigPropose, Ok(JsonValue::Object(vec![])), Ok(manifest(None, vec![]))) {
        AuthorizeStep::Execute(g) => g,
        AuthorizeStep::Respond(_, o) => panic!("refused: {}", o.reason),
    };
    assert_eq!(grant.agent_id, "agent-a");
    assert_eq!(grant.effect_set, vec![EffectClass::D]);
    assert_eq!(grant.manifest_digest, Digest::from_sha256_bytes([7; 32]));
    let expected = OperationDigest::of(2, "config.propose", 1, &JsonValue::Object(vec![])).unwrap();
    assert_eq!(grant.operation_digest, *expected.digest());

    let step = TxStepResult { tx_id: "T".to_owned(), state: WireState::Testing };
    let (r, o) = Dispatcher::finish(grant, Ok(OperationResult::TxTest(step)), PEER);
    match r {
        Response::Success { id, v, binding, .. } => {
            assert_eq!(id, "req-1");
            assert_eq!(v, 2);
            assert_eq!(binding.agent_id, "agent-a");
            assert_eq!(binding.effect_set, vec![EffectClass::D]);
        }
        Response::Failed { .. } => panic!(),
    }
    assert!(o.allowed);
    assert_eq!(o.reason, "authorized");
}

#[test]
fn a_ladder_refusal_is_attributed_and_never_counted() {
    let mut d = dispatcher();
    let m = manifest(Some(1), vec![("config.propose", PolicyKind::Deny)]);
    match authorize(&mut d, OpName::ConfigPropose, Ok(JsonValue::Object(vec![])), Ok(m)) {
        AuthorizeStep::Respond(r, o) => {
            assert!(is_failed(&r, Some("req-1"), 2, ResponseError::at_stage(ErrorCode::Denied, DecisionStage::OperationPolicy)));
            assert_eq!(o.reason, "operation_denied_by_manifest");
            assert_eq!(o.manifest_digest, Some(Digest::from_sha256_bytes([7; 32])));
        }
        AuthorizeStep::Execute(_) => panic!(),
    }
    // The single daily call is still available.
    assert!(matches!(
        authorize(&mut d, OpName::SystemInfo, Ok(JsonValue::Object(vec![])), Ok(manifest(Some(1), vec![]))),
        AuthorizeStep::Execute(_)
    ));
    match authorize(&mut d, OpName::SystemInfo, Ok(JsonValue::Object(vec![])), Ok(manifest(Some(1), vec![]))) {
        AuthorizeStep::Respond(r, o) => {
            assert!(is_failed(&r, Some("req-1"), 2, ResponseError::at_stage(ErrorCode::QuotaExhausted, DecisionStage::Quota)));
            assert_eq!(o.reason, "call_quota_exhausted");
        }
        AuthorizeStep::Execute(_) => panic!("the quota is spent"),
    }
}

#[test]
fn rollback_is_authorized_but_not_executed() {
    let mut d = dispatcher();
    match authorize(&mut d, OpName::TxRollback, Ok(JsonValue::Object(vec![])), Ok(manifest(None, vec![]))) {
        AuthorizeStep::Respond(r, o) => {
            assert!(is_failed(&r, Some("req-1"), 2, ResponseError::new(ErrorCode::Internal)));
            assert_eq!(o.reason, "execution_not_implemented_at_l00");
            assert!(!o.allowed);
        }
        AuthorizeStep::Execute(_) => panic!(),
    }
}

fn grant() -> Grant {
    Grant {
        id: "g".to_owned(),
        v: 2,
        op: OpName::TxApply,
        agent_id: "a".to_owned(),
        manifest_digest: Digest::from_sha256_bytes([1; 32]),
        operation_digest: Digest::from_sha256_bytes([2; 32]),
        effect_set: vec![EffectClass::D],
    }
}

#[test]
fn engine_failures_map_to_their_wire_errors() {
    let (r, o) = engine_failure(grant(), &EngineError::BaseRevisionMoved, PEER);
    assert!(is_failed(&r, Some("g"), 2, ResponseError::at_stage(ErrorCode::Denied, DecisionStage::OperationPolicy)));
    assert_eq!(o.reason, "transaction_refused");
    let (r, _) = engine_failure(grant(), &EngineError::SafeMode, PEER);
    assert!(is_failed(&r, Some("g"), 2, ResponseError::at_stage(ErrorCode::Denied, DecisionStage::ForbiddenClass)));
    let (r, o) = engine_failure(grant(), &EngineError::Storage(DurabilityError::Io), PEER);
    assert!(is_failed(&r, Some("g"), 2, ResponseError::new(ErrorCode::Internal)));
    assert_eq!(o.reason, "storage_failure");
    assert_eq!(o.stage, Some(DecisionStage::ForbiddenClass));
}

#[test]
fn operations_describe_their_effects() {
    assert_eq!(describe(OpName::SystemInfo).effect_set, vec![EffectClass::R]);
    assert_eq!(describe(OpName::EventsReplay).effect_set, vec![EffectClass::R]);
    assert_eq!(describe(OpName::TxApply).effect_set, vec![EffectClass::D]);
    assert_eq!(describe(OpName::TxApply).op, "tx.apply");
    assert_eq!(describe(OpName::TxStatus).footprint.len(), 0);
}
