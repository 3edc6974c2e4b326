//! The broker's request and response envelopes.

use crate::events::StoredEvent;
use crate::json::JsonValue;
use crate::observability::opt_view;
use crate::protocol::{
    AdapterInfo, BaseRevision, DecisionStage, Digest, EffectClass, ErrorCode, SafetySource, SafetyVector,
    TestPlan, TxStatusResult, TxStepResult, PROTOCOL_VERSION_V1, PROTOCOL_VERSION_V2,
};
use vstd::prelude::*;

verus! {

/// The closed set of operations: an unknown name never parses.
#[derive(Debug, Clone, Copy, PartialEq, Eq, Structural)]
pub enum OpName {
    SystemInfo,
    ConfigPropose,
    TxTest,
    TxApply,
    TxRollback,
    TxStatus,
    EventsReplay,
}

/// The wire name of an operation.
pub open spec fn spec_op_str(op: OpName) -> &'static str {
    match op {
        OpName::SystemInfo => crate::tools::system_info::OP,
        OpName::ConfigPropose => crate::tools::config_propose::OP,
        OpName::TxTest => crate::tools::transaction::test::OP,
        OpName::TxApply => crate::tools::transaction::apply::OP,
        OpName::TxRollback => crate::tools::transaction::rollback::OP,
        OpName::TxStatus => crate::tools::transaction::status::OP,
        OpName::EventsReplay => crate::tools::events::OP,
    }
}

impl OpName {
    /// The operation's wire name.
    pub fn as_str(&self) -> (r: &'static str)
        ensures
            r == spec_op_str(*self),
    {
        match self {
            OpName::SystemInfo => crate::tools::system_info::OP,
            OpName::ConfigPropose => crate::tools::config_propose::OP,
            OpName::TxTest => crate::tools::transaction::test::OP,
            OpName::TxApply => crate::tools::transaction::apply::OP,
            OpName::TxRollback => crate::tools::transaction::rollback::OP,
            OpName::TxStatus => crate::tools::transaction::status::OP,
            OpName::EventsReplay => crate::tools::events::OP,
        }
    }
}

/// One request: correlation id, protocol version, operation and its
/// version, the bearer token, and the arguments.
#[derive(Debug)]
pub struct Request {
    pub id: String,
    pub v: u8,
    pub op: OpName,
    pub op_version: u32,
    pub token: String,
    pub params: JsonValue,
}

/// Protocol versions this broker speaks.
pub open spec fn spec_version_supported(v: u8) -> bool {
    v == PROTOCOL_VERSION_V1 || v == PROTOCOL_VERSION_V2
}

/// Protocol v1 carries only `system.info`; v2 carries every operation.
pub open spec fn spec_operation_allowed(v: u8, op: OpName) -> bool {
    v == PROTOCOL_VERSION_V2 || op == OpName::SystemInfo
}

impl Request {
    /// Whether the protocol version is one this broker speaks.
    pub fn version_supported(&self) -> (r: bool)
        ensures
            r == spec_version_supported(self.v),
    {
        self.v == PROTOCOL_VERSION_V1 || self.v == PROTOCOL_VERSION_V2
    }

    /// Whether the operation exists at the request's protocol version.
    pub fn operation_allowed(&self) -> (r: bool)
        ensures
            r == spec_operation_allowed(self.v, self.op),
    {
        self.v == PROTOCOL_VERSION_V2 || self.op == OpName::SystemInfo
    }
}

/// A wire error: the code, and the ladder stage when a stage decided.
#[derive(Debug, Clone, Copy, PartialEq, Eq, Structural)]
pub struct ResponseError {
    pub code: ErrorCode,
    pub stage: Option<DecisionStage>,
}

impl ResponseError {
    /// An error with no stage.
    pub fn new(code: ErrorCode) -> (e: ResponseError)
        ensures
            e == (ResponseError { code, stage: None }),
    {
        ResponseError { code, stage: None }
    }

    /// An error attributed to a ladder stage.
    pub fn at_stage(code: ErrorCode, stage: DecisionStage) -> (e: ResponseError)
        ensures
            e == (ResponseError { code, stage: Some(stage) }),
    {
        ResponseError { code, stage: Some(stage) }
    }
}

/// What an allowed call was bound to: who, under which manifest, with which
/// effects, over which canonical operation.
#[derive(Debug, Clone)]
pub struct CallBinding {
    pub agent_id: String,
    pub manifest_digest: Digest,
    pub effect_set: Vec<EffectClass>,
    pub operation_digest: Digest,
}

/// Host facts reported by `system.info`.
#[derive(Debug, Clone, PartialEq, Eq)]
pub struct HostInfo {
    pub hostname: String,
    pub os_id: String,
    pub os_version_id: String,
    pub kernel_release: String,
    pub architecture: String,
}

/// The Landlock ABI the kernel offers.
#[derive(Debug, Clone, Copy, PartialEq, Eq)]
pub struct LandlockInfo {
    pub supported: bool,
    pub abi_version: Option<i32>,
}

/// The `system.info` report.
#[derive(Debug, Clone)]
pub struct SystemInfo {
    pub host: HostInfo,
    pub adapter: AdapterInfo,
    pub safety: SafetyVector,
    pub safety_source: SafetySource,
    pub landlock: LandlockInfo,
}

/// The `config.propose` result.
#[derive(Debug, Clone)]
pub struct ConfigProposeResult {
    pub tx_id: String,
    pub diff: String,
    pub test_plan: TestPlan,
    pub affected_resources: Vec<String>,
    pub base_revision: BaseRevision,
}

/// The `events.replay` result.
#[derive(Debug, Clone)]
pub struct EventsReplayResult {
    pub events: Vec<StoredEvent>,
}

/// An operation's result.
#[derive(Debug)]
pub enum OperationResult {
    SystemInfo(SystemInfo),
    ConfigPropose(ConfigProposeResult),
    TxTest(TxStepResult),
    TxApply(TxStepResult),
    TxStatus(TxStatusResult),
    EventsReplay(EventsReplayResult),
}

/// Exactly one response per frame.
#[derive(Debug)]
pub enum Response {
    Success { id: String, v: u8, result: OperationResult, binding: CallBinding },
    Failed { id: Option<String>, v: u8, error: ResponseError },
}

impl Response {
    /// A failure response.
    pub fn failed(id: Option<String>, v: u8, error: ResponseError) -> (r: Response)
        ensures
            r == (Response::Failed { id, v, error }),
    {
        Response::Failed { id, v, error }
    }
}

/// Whether `r` is the failure with this id, version and error.
pub open spec fn spec_is_failure(r: Response, id: Option<Seq<char>>, v: u8, error: ResponseError) -> bool {
    match r {
        Response::Failed { id: rid, v: rv, error: re } => opt_view(rid) == id && rv == v && re == error,
        _ => false,
    }
}

} // verus!
