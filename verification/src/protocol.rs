//! The wire vocabulary the broker and its adapters share: effect classes,
//! decision stages, error codes, the per-resource safety vector, digests,
//! base revisions and transaction states.

use crate::text::{push_char, push_hex, spec_hex};
use vstd::prelude::*;

verus! {

/// Protocol version 1.
pub const PROTOCOL_VERSION_V1: u8 = 1;

/// Protocol version 2.
pub const PROTOCOL_VERSION_V2: u8 = 2;

/// The effect classes of `docs/effects.md`: read, declarative, mutable-data,
/// external, forbidden.
#[derive(Debug, Clone, Copy, PartialEq, Eq, Hash, Structural)]
pub enum EffectClass {
    R,
    D,
    M,
    E,
    F,
}

/// The five stages of the policy ladder, in evaluation order.
#[derive(Debug, Clone, Copy, PartialEq, Eq, Structural)]
pub enum DecisionStage {
    ForbiddenClass,
    SafetyMinimum,
    OperationPolicy,
    ClassCeiling,
    Quota,
}

/// Position of a stage in the ladder, counting from one.
pub open spec fn spec_stage_ordinal(stage: DecisionStage) -> u8 {
    match stage {
        DecisionStage::ForbiddenClass => 1,
        DecisionStage::SafetyMinimum => 2,
        DecisionStage::OperationPolicy => 3,
        DecisionStage::ClassCeiling => 4,
        DecisionStage::Quota => 5,
    }
}

impl DecisionStage {
    /// Position of this stage in the ladder, counting from one.
    pub fn ordinal(&self) -> (n: u8)
        ensures
            n == spec_stage_ordinal(*self),
    {
        match self {
            DecisionStage::ForbiddenClass => 1,
            DecisionStage::SafetyMinimum => 2,
            DecisionStage::OperationPolicy => 3,
            DecisionStage::ClassCeiling => 4,
            DecisionStage::Quota => 5,
        }
    }
}

/// Wire error codes.
#[derive(Debug, Clone, Copy, PartialEq, Eq, Structural)]
pub enum ErrorCode {
    InvalidRequest,
    Unauthenticated,
    Denied,
    ApprovalRequired,
    QuotaExhausted,
    UnsupportedOperation,
    Internal,
}

/// Rollback coverage of a host resource (root configuration, packages,
/// bootloader, kernel), weakest first.
#[derive(Debug, Clone, Copy, PartialEq, Eq, Structural)]
pub enum HostSafety {
    /// No rollback coverage (`none` on the wire).
    Absent,
    SnapshotReboot,
    SnapshotLive,
    Generation,
}

/// Rollback coverage of systemd unit desired state.
#[derive(Debug, Clone, Copy, PartialEq, Eq, Structural)]
pub enum ServiceStateSafety {
    /// No rollback coverage (`none` on the wire).
    Absent,
    DesiredState,
}

/// Rollback coverage of a data volume.
#[derive(Debug, Clone, Copy, PartialEq, Eq, Structural)]
pub enum DataSafety {
    /// No rollback coverage (`none` on the wire).
    Absent,
    DedicatedSnapshot,
}

/// External effects have no rollback, by definition.
#[derive(Debug, Clone, Copy, PartialEq, Eq, Structural)]
pub enum ExternalEffectsSafety {
    /// No rollback coverage (`none` on the wire).
    Absent,
}

/// What recovery from a failed change requires.
#[derive(Debug, Clone, Copy, PartialEq, Eq, Structural)]
pub enum RecoveryRequires {
    RemoteReboot,
    OobConsole,
}

/// Rollback coverage per resource, as reported by the host adapter.
#[derive(Debug, Clone, Copy, PartialEq, Eq, Structural)]
pub struct SafetyVector {
    pub root_config: HostSafety,
    pub packages: HostSafety,
    pub bootloader: HostSafety,
    pub kernel: HostSafety,
    pub service_state: ServiceStateSafety,
    pub plugin_data: DataSafety,
    pub desktop_data: DataSafety,
    pub home_data: DataSafety,
    pub external_effects: ExternalEffectsSafety,
    pub recovery_requires: RecoveryRequires,
}

/// Where a safety vector came from: a measurement, or the absence of one.
#[derive(Debug, Clone, Copy, PartialEq, Eq, Structural)]
pub enum SafetySource {
    AdapterProbe,
    UnresolvedAdapter,
}

/// Adapter identity as reported to callers.
#[derive(Debug, Clone, PartialEq, Eq)]
pub struct AdapterInfo {
    pub kind: String,
    pub resolved: bool,
    pub available_at_gate: u8,
    pub generations: Option<u64>,
    pub snapshots: Option<u64>,
}

/// A SHA-256 digest.
#[derive(Debug, Clone, Copy, PartialEq, Eq, Hash)]
pub struct Digest {
    pub bytes: [u8; 32],
}

impl View for Digest {
    type V = Seq<u8>;

    open spec fn view(&self) -> Seq<u8> {
        self.bytes@
    }
}

/// The text form of a digest: `sha256:` and 64 lowercase hex digits.
pub open spec fn spec_digest_text(bytes: Seq<u8>) -> Seq<char> {
    seq!['s', 'h', 'a', '2', '5', '6', ':'] + spec_hex(bytes)
}

impl Digest {
    /// A digest from the 32 bytes of a SHA-256 output.
    pub fn from_sha256_bytes(bytes: [u8; 32]) -> (d: Digest)
        ensures
            d@ == bytes@,
    {
        Digest { bytes }
    }

    /// The text form, `sha256:<hex>`.
    pub fn to_text(&self) -> (s: String)
        ensures
            s@ == spec_digest_text(self@),
    {
        let mut s = String::new();
        push_char(&mut s, 's');
        push_char(&mut s, 'h');
        push_char(&mut s, 'a');
        push_char(&mut s, '2');
        push_char(&mut s, '5');
        push_char(&mut s, '6');
        push_char(&mut s, ':');
        push_hex(&mut s, self.bytes.as_slice());
        proof {
            assert(s@ =~= spec_digest_text(self@));
        }
        s
    }

    /// Whether two digests hold the same bytes.
    pub fn same_as(&self, other: &Digest) -> (r: bool)
        ensures
            r == (self@ == other@),
    {
        let mut i: usize = 0;
        while i < 32
            invariant
                i <= 32,
                self@.len() == 32,
                other@.len() == 32,
                forall|j: int| 0 <= j < i ==> self@[j] == other@[j],
            decreases 32 - i,
        {
            if self.bytes[i] != other.bytes[i] {
                return false;
            }
            i = i + 1;
        }
        proof {
            assert(self@ =~= other@);
        }
        true
    }
}


/// Whether two optional strings are equal.
pub fn same_opt_string(a: &Option<String>, b: &Option<String>) -> (r: bool)
    ensures
        r == (opt_string_view(a) == opt_string_view(b)),
{
    match a {
        Some(x) => match b {
            Some(y) => *x == *y,
            None => false,
        },
        None => b.is_none(),
    }
}

/// The characters of an optional string.
pub open spec fn opt_string_view(a: &Option<String>) -> Option<Seq<char>> {
    match a {
        Some(s) => Some(s@),
        None => None,
    }
}

/// The characters of each string of a vector.
pub open spec fn strings_view(v: Seq<String>) -> Seq<Seq<char>> {
    v.map_values(|s: String| s@)
}

/// Whether two vectors of strings hold the same strings in the same order.
pub fn same_strings(a: &Vec<String>, b: &Vec<String>) -> (r: bool)
    ensures
        r == (strings_view(a@) == strings_view(b@)),
{
    if a.len() != b.len() {
        proof {
            assert(strings_view(a@).len() != strings_view(b@).len());
        }
        return false;
    }
    let mut i: usize = 0;
    while i < a.len()
        invariant
            a@.len() == b@.len(),
            i <= a@.len(),
            forall|j: int| 0 <= j < i ==> a@[j]@ == b@[j]@,
        decreases a@.len() - i,
    {
        if a[i] != b[i] {
            proof {
                assert(strings_view(a@)[i as int] != strings_view(b@)[i as int]);
            }
            return false;
        }
        i = i + 1;
    }
    proof {
        assert(strings_view(a@) =~= strings_view(b@));
    }
    true
}

/// The revision a transaction was proposed against.
#[derive(Debug, Clone, PartialEq, Eq)]
pub struct BaseRevision {
    pub generation: Option<String>,
    pub etc_git_commit: String,
    pub config_digest: Digest,
}

/// The value a base revision stands for.
pub struct BaseRevisionView {
    pub generation: Option<Seq<char>>,
    pub etc_git_commit: Seq<char>,
    pub config_digest: Seq<u8>,
}

impl View for BaseRevision {
    type V = BaseRevisionView;

    open spec fn view(&self) -> BaseRevisionView {
        BaseRevisionView {
            generation: opt_string_view(&self.generation),
            etc_git_commit: self.etc_git_commit@,
            config_digest: self.config_digest@,
        }
    }
}

impl BaseRevision {
    /// Whether two base revisions name the same revision.
    pub fn same_as(&self, other: &BaseRevision) -> (r: bool)
        ensures
            r == (self@ == other@),
    {
        same_opt_string(&self.generation, &other.generation)
            && self.etc_git_commit == other.etc_git_commit
            && self.config_digest.same_as(&other.config_digest)
    }

    /// A field-by-field copy.
    pub fn duplicate(&self) -> (r: BaseRevision)
        ensures
            r@ == self@,
    {
        BaseRevision {
            generation: match &self.generation {
                Some(g) => Some(g.clone()),
                None => None,
            },
            etc_git_commit: self.etc_git_commit.clone(),
            config_digest: self.config_digest,
        }
    }
}

/// How an adapter will test a proposal.
#[derive(Debug, Clone, PartialEq, Eq)]
pub struct TestPlan {
    pub adapter: String,
    pub steps: Vec<String>,
}

/// One file of a proposed configuration change.
#[derive(Debug, Clone, PartialEq, Eq)]
pub struct ConfigFileChange {
    pub path: String,
    pub content: String,
}

/// Transaction states as they appear on the wire and in the WAL.
#[derive(Debug, Clone, Copy, PartialEq, Eq, Structural)]
pub enum WireState {
    Idle,
    Proposed,
    Testing,
    Applying,
    Probation,
    Rejected,
    ProbationPassed,
    Committing,
    Committed,
    Reverting,
    Reverted,
}

/// Result of a broker-owned transaction step.
#[derive(Debug, Clone, PartialEq, Eq)]
pub struct TxStepResult {
    pub tx_id: String,
    pub state: WireState,
}

/// Result of `tx.status`.
#[derive(Debug, Clone, PartialEq, Eq)]
pub struct TxStatusResult {
    pub tx_id: String,
    pub state: WireState,
    pub effect_set: Vec<EffectClass>,
    pub base_revision: Option<BaseRevision>,
}

} // verus!
