//! Agent manifests, as the broker evaluates them.
//!
//! Reading the file, YAML-to-JSON conversion, schema validation and the
//! canonical digest happen where the document is loaded; this module holds the
//! projection the policy ladder reads, the checks the broker applies to it
//! before it may be used, and the rule that a manifest reference is a plain
//! file name.

use crate::policy::{OperationPolicy, PolicyKind, spec_has_bounds, spec_is_pre_authorized};
use crate::protocol::{Digest, EffectClass};
use crate::safety::MinSafety;
use vstd::prelude::*;

verus! {

/// Quota settings.
#[derive(Debug, Clone, Copy, PartialEq, Eq, Default, Structural)]
pub struct Quotas {
    /// D/M transactions per day.
    pub tx_per_day: Option<u64>,
    /// Authorized calls per day, class R included.
    pub calls_per_day: Option<u64>,
}

/// Risk settings.
#[derive(Debug, Clone, Copy, PartialEq, Eq, Structural)]
pub struct Risk {
    /// Class ceiling for stage 4.
    pub max_unapproved_class: Option<EffectClass>,
    /// Per-resource minimums for stage 2.
    pub min_safety: MinSafety,
}

/// The capabilities block the broker evaluates.
#[derive(Debug, Clone)]
pub struct Capabilities {
    /// Explicit per-operation policy (stage 3), one entry per operation name.
    pub operations: Vec<(String, OperationPolicy)>,
    /// Quotas (stage 5).
    pub quotas: Quotas,
    /// Risk settings (stages 2 and 4).
    pub risk: Risk,
}

/// The explicit policy a list of operation entries gives `op`: the first
/// entry of that name.
pub open spec fn spec_find_policy(ops: Seq<(String, OperationPolicy)>, op: Seq<char>) -> Option<OperationPolicy>
    decreases ops.len(),
{
    if ops.len() == 0 {
        None
    } else if ops[0].0@ == op {
        Some(ops[0].1)
    } else {
        spec_find_policy(ops.drop_first(), op)
    }
}

/// Why a manifest could not be loaded or used.
#[derive(Debug, Clone, PartialEq, Eq)]
pub enum ManifestError {
    /// The reference names something outside the manifest directory.
    UnsafeReference,
    /// The file could not be read.
    Unreadable(String),
    /// The document is not valid YAML/JSON, or fails its schema.
    Invalid(String),
    /// The document is well-formed but semantically refused by the broker.
    SemanticallyRefused(&'static str),
}

impl ManifestError {
    /// The error's message: the fixed text for an unsafe reference, the
    /// carried text otherwise.
    pub fn message(&self) -> (m: String)
        ensures
            m@ == match *self {
                ManifestError::UnsafeReference => "manifest reference is not a plain file name"@,
                ManifestError::Unreadable(e) => e@,
                ManifestError::Invalid(e) => e@,
                ManifestError::SemanticallyRefused(r) => r@,
            },
    {
        match self {
            ManifestError::UnsafeReference => "manifest reference is not a plain file name".to_owned(),
            ManifestError::Unreadable(e) => e.clone(),
            ManifestError::Invalid(e) => e.clone(),
            ManifestError::SemanticallyRefused(r) => (*r).to_owned(),
        }
    }
}

/// A loaded, validated agent manifest.
#[derive(Debug, Clone)]
pub struct AgentManifest {
    name: String,
    digest: Digest,
    capabilities: Capabilities,
}

/// The manifest checks the broker applies beyond the schema: no
/// pre-authorization without bounds, and a class ceiling that is never F.
pub open spec fn spec_semantic_refusal(ops: Seq<(String, OperationPolicy)>, ceiling: Option<EffectClass>) -> Option<&'static str> {
    if exists|i: int| 0 <= i < ops.len() && spec_is_pre_authorized(ops[i].1) && !spec_has_bounds(ops[i].1) {
        Some("pre_authorized operation without bounds")
    } else if ceiling == Some(EffectClass::F) {
        Some("max_unapproved_class may never be F")
    } else {
        None
    }
}

/// Apply the semantic checks to a capabilities block.
pub fn semantic_checks(capabilities: &Capabilities) -> (r: Result<(), ManifestError>)
    ensures
        match spec_semantic_refusal(capabilities.operations@, capabilities.risk.max_unapproved_class) {
            Some(reason) => r == Err::<(), ManifestError>(ManifestError::SemanticallyRefused(reason)),
            None => r is Ok,
        },
{
    let ops = &capabilities.operations;
    let mut i: usize = 0;
    while i < ops.len()
        invariant
            i <= ops@.len(),
            ops@ == capabilities.operations@,
            forall|j: int| 0 <= j < i ==> !(spec_is_pre_authorized(ops@[j].1) && !spec_has_bounds(ops@[j].1)),
        decreases ops@.len() - i,
    {
        let policy = &ops[i].1;
        if policy.is_pre_authorized() && !policy.has_bounds() {
            proof {
                let k = i as int;
                assert(spec_is_pre_authorized(ops@[k].1) && !spec_has_bounds(ops@[k].1));
            }
            return Err(ManifestError::SemanticallyRefused("pre_authorized operation without bounds"));
        }
        i = i + 1;
    }
    match capabilities.risk.max_unapproved_class {
        Some(EffectClass::F) => Err(ManifestError::SemanticallyRefused("max_unapproved_class may never be F")),
        _ => Ok(()),
    }
}

impl AgentManifest {
    /// Assemble a manifest from a loaded document's name, canonical digest and
    /// capabilities, refusing it when the semantic checks fail.
    pub fn from_parts(name: String, digest: Digest, capabilities: Capabilities) -> (r: Result<AgentManifest, ManifestError>)
        ensures
            match spec_semantic_refusal(capabilities.operations@, capabilities.risk.max_unapproved_class) {
                Some(reason) => r == Err::<AgentManifest, ManifestError>(ManifestError::SemanticallyRefused(reason)),
                None => (r matches Ok(m) && m.spec_name() == name@ && m.spec_digest() == digest
                    && m.spec_capabilities() == capabilities),
            },
    {
        match semantic_checks(&capabilities) {
            Err(e) => Err(e),
            Ok(()) => Ok(AgentManifest { name, digest, capabilities }),
        }
    }

    pub closed spec fn spec_name(&self) -> Seq<char> {
        self.name@
    }

    pub closed spec fn spec_digest(&self) -> Digest {
        self.digest
    }

    pub closed spec fn spec_capabilities(&self) -> Capabilities {
        self.capabilities
    }

    /// The explicit policy the manifest gives an operation.
    pub open spec fn spec_operation_policy(&self, op: Seq<char>) -> Option<OperationPolicy> {
        spec_find_policy(self.spec_capabilities().operations@, op)
    }

    /// Highest class invocable without approval (stage 4).
    pub open spec fn spec_max_unapproved_class(&self) -> Option<EffectClass> {
        self.spec_capabilities().risk.max_unapproved_class
    }

    /// Per-resource minimums (stage 2).
    pub open spec fn spec_min_safety(&self) -> MinSafety {
        self.spec_capabilities().risk.min_safety
    }

    /// Daily call ceiling (stage 5).
    pub open spec fn spec_calls_per_day(&self) -> Option<u64> {
        self.spec_capabilities().quotas.calls_per_day
    }

    /// Manifest name.
    pub fn name(&self) -> (r: &str)
        ensures
            r@ == self.spec_name(),
    {
        self.name.as_str()
    }

    /// Digest over the manifest's canonical bytes.
    pub fn digest(&self) -> (r: &Digest)
        ensures
            *r == self.spec_digest(),
    {
        &self.digest
    }

    /// The capabilities block.
    pub fn capabilities(&self) -> (r: &Capabilities)
        ensures
            *r == self.spec_capabilities(),
    {
        &self.capabilities
    }

    /// The explicit policy for an operation, if the manifest carries one.
    pub fn operation_policy(&self, op: &str) -> (r: Option<&OperationPolicy>)
        ensures
            match r {
                Some(p) => self.spec_operation_policy(op@) == Some(*p),
                None => self.spec_operation_policy(op@) is None,
            },
    {
        let ops = &self.capabilities.operations;
        let wanted = op.to_owned();
        let mut i: usize = 0;
        proof {
            assert(ops@.subrange(0, ops@.len() as int) =~= ops@);
        }
        while i < ops.len()
            invariant
                i <= ops@.len(),
                ops@ == self.spec_capabilities().operations@,
                wanted@ == op@,
                spec_find_policy(ops@, op@) == spec_find_policy(ops@.subrange(i as int, ops@.len() as int), op@),
            decreases ops@.len() - i,
        {
            proof {
                let rest = ops@.subrange(i as int, ops@.len() as int);
                assert(rest.drop_first() =~= ops@.subrange(i + 1, ops@.len() as int));
                assert(rest[0] == ops@[i as int]);
            }
            if ops[i].0 == wanted {
                proof {
                    let rest = ops@.subrange(i as int, ops@.len() as int);
                    assert(rest[0].0@ == op@);
                }
                return Some(&ops[i].1);
            }
            i = i + 1;
        }
        proof {
            assert(ops@.subrange(i as int, ops@.len() as int).len() == 0);
        }
        None
    }

    /// Highest class invocable without approval (stage 4).
    pub fn max_unapproved_class(&self) -> (r: Option<EffectClass>)
        ensures
            r == self.spec_max_unapproved_class(),
    {
        self.capabilities.risk.max_unapproved_class
    }

    /// Per-resource minimums (stage 2).
    pub fn min_safety(&self) -> (r: &MinSafety)
        ensures
            *r == self.spec_min_safety(),
    {
        &self.capabilities.risk.min_safety
    }

    /// Daily call ceiling (stage 5).
    pub fn calls_per_day(&self) -> (r: Option<u64>)
        ensures
            r == self.spec_calls_per_day(),
    {
        self.capabilities.quotas.calls_per_day
    }
}

/// Whether a manifest reference is a plain file name: not empty, no path
/// separator of either kind, no `..`.
pub open spec fn spec_reference_is_plain(r: Seq<char>) -> bool {
    &&& r.len() > 0
    &&& !r.contains('/')
    &&& !r.contains('\\')
    &&& !(exists|i: int| 0 <= i < r.len() - 1 && #[trigger] spec_double_dot_at(r, i))
}

/// Whether `r` holds `..` starting at position `i`.
pub open spec fn spec_double_dot_at(r: Seq<char>, i: int) -> bool {
    r[i] == '.' && r[i + 1] == '.'
}

/// Check that a manifest reference is a plain file name.
pub fn check_reference(manifest_ref: &str) -> (r: Result<(), ManifestError>)
    ensures
        spec_reference_is_plain(manifest_ref@) ==> r is Ok,
        !spec_reference_is_plain(manifest_ref@) ==> r == Err::<(), ManifestError>(ManifestError::UnsafeReference),
{
    let n = manifest_ref.unicode_len();
    if n == 0 {
        return Err(ManifestError::UnsafeReference);
    }
    let mut i: usize = 0;
    let mut prev_dot = false;
    while i < n
        invariant
            n == manifest_ref@.len(),
            0 < n,
            i <= n,
            prev_dot == (i > 0 && manifest_ref@[i - 1] == '.'),
            forall|j: int| 0 <= j < i ==> manifest_ref@[j] != '/' && manifest_ref@[j] != '\\',
            forall|j: int| 0 <= j < i - 1 ==> !#[trigger] spec_double_dot_at(manifest_ref@, j),
        decreases n - i,
    {
        let c = manifest_ref.get_char(i);
        if c == '/' || c == '\\' {
            proof {
                assert(manifest_ref@.contains(c));
            }
            return Err(ManifestError::UnsafeReference);
        }
        if c == '.' && prev_dot {
            proof {
                assert(spec_double_dot_at(manifest_ref@, i - 1));
            }
            return Err(ManifestError::UnsafeReference);
        }
        prev_dot = c == '.';
        i = i + 1;
    }
    Ok(())
}

/// Loads agent manifests from a directory.
#[derive(Debug)]
pub struct ManifestStore {
    dir: String,
}

impl ManifestStore {
    /// Point the store at a directory of manifests.
    pub fn new(dir: String) -> (s: ManifestStore)
        ensures
            s.spec_dir() == dir@,
    {
        ManifestStore { dir }
    }

    pub closed spec fn spec_dir(&self) -> Seq<char> {
        self.dir@
    }

    /// The manifest directory.
    pub fn dir(&self) -> (r: &str)
        ensures
            r@ == self.spec_dir(),
    {
        self.dir.as_str()
    }

    /// The file a reference names inside the directory, after checking that
    /// the reference is a plain file name.
    pub fn resolve_reference(&self, manifest_ref: &str) -> (r: Result<String, ManifestError>)
        ensures
            spec_reference_is_plain(manifest_ref@) ==> (r matches Ok(p) && p@ == self.spec_dir() + seq!['/'] + manifest_ref@),
            !spec_reference_is_plain(manifest_ref@) ==> r == Err::<String, ManifestError>(ManifestError::UnsafeReference),
    {
        match check_reference(manifest_ref) {
            Err(e) => Err(e),
            Ok(()) => {
                let mut path = self.dir.clone();
                crate::text::push_char(&mut path, '/');
                path.append(manifest_ref);
                Ok(path)
            },
        }
    }
}

} // verus!
