//! The operation digest:
//!
//! ```text
//! SHA-256( domain(protocol_version) || JCS({
//!     "operation":         "<name>",
//!     "operation_version": <u32>,
//!     "arguments":         <schema-projected arguments>
//! }) )
//! ```
//!
//! Domain separators are version-specific so identical operations under v1
//! and v2 never share a digest, and manifests have a domain of their own.

use crate::hash::{sha256, spec_sha256};
use crate::json::{canonicalize, push_str, push_string_text, spec_jcs, spec_string_text, write_jcs, JsonValue};
use crate::protocol::{Digest, PROTOCOL_VERSION_V1, PROTOCOL_VERSION_V2};
use crate::text::{push_char, push_decimal, spec_decimal};
use vstd::prelude::*;
use vstd::string::StrSliceExecFns;
use vstd::utf8::encode_utf8;

verus! {

/// Domain separator for protocol v1 operation digests: `agentbed.operation.v1\0`.
pub const OPERATION_DOMAIN_V1: [u8; 22] = [
    97u8, 103, 101, 110, 116, 98, 101, 100, 46, 111, 112, 101, 114, 97, 116, 105, 111, 110, 46, 118, 49, 0,
];

/// Domain separator for protocol v2 operation digests: `agentbed.operation.v2\0`.
pub const OPERATION_DOMAIN_V2: [u8; 22] = [
    97u8, 103, 101, 110, 116, 98, 101, 100, 46, 111, 112, 101, 114, 97, 116, 105, 111, 110, 46, 118, 50, 0,
];

/// Domain separator for manifest digests: `agentbed.manifest.v1\0`.
pub const MANIFEST_DOMAIN: [u8; 21] = [
    97u8, 103, 101, 110, 116, 98, 101, 100, 46, 109, 97, 110, 105, 102, 101, 115, 116, 46, 118, 49, 0,
];

/// Why canonicalization or digesting refused its input.
#[derive(Debug, Clone, Copy, PartialEq, Eq, Structural)]
pub enum JcsError {
    Format,
}

/// The domain separator of a supported protocol version.
pub open spec fn spec_operation_domain(protocol_version: u8) -> Option<Seq<u8>> {
    if protocol_version == PROTOCOL_VERSION_V1 {
        Some(OPERATION_DOMAIN_V1@)
    } else if protocol_version == PROTOCOL_VERSION_V2 {
        Some(OPERATION_DOMAIN_V2@)
    } else {
        None
    }
}

/// Return the frozen domain separator for a supported protocol version.
pub fn operation_domain(protocol_version: u8) -> (r: Result<Vec<u8>, &'static str>)
    ensures
        match spec_operation_domain(protocol_version) {
            Some(d) => r matches Ok(v) && v@ == d,
            None => r.is_err(),
        },
{
    if protocol_version == PROTOCOL_VERSION_V1 {
        Ok(bytes_of(&OPERATION_DOMAIN_V1))
    } else if protocol_version == PROTOCOL_VERSION_V2 {
        Ok(bytes_of(&OPERATION_DOMAIN_V2))
    } else {
        Err("unsupported protocol version for digest")
    }
}

fn bytes_of(s: &[u8]) -> (v: Vec<u8>)
    ensures
        v@ == s@,
{
    let mut v: Vec<u8> = Vec::new();
    let mut i: usize = 0;
    while i < s.len()
        invariant
            i <= s@.len(),
            v@ == s@.subrange(0, i as int),
        decreases s@.len() - i,
    {
        v.push(s[i]);
        i = i + 1;
        assert(v@ =~= s@.subrange(0, i as int));
    }
    assert(s@.subrange(0, s@.len() as int) =~= s@);
    v
}

/// The canonical text of `{"operation", "operation_version", "arguments"}`:
/// the members in key order, `arguments` first.
pub open spec fn spec_operation_text(operation: Seq<char>, operation_version: u32, arguments: JsonValue) -> Seq<
    char,
> {
    "{\"arguments\":"@ + spec_jcs(arguments) + ",\"operation\":"@ + spec_string_text(operation)
        + ",\"operation_version\":"@ + spec_decimal(operation_version as nat) + "}"@
}

/// Canonical bytes plus the digest over exactly those bytes.
#[derive(Debug)]
pub struct OperationDigest {
    canonical_bytes: Vec<u8>,
    digest: Digest,
}

impl OperationDigest {
    pub closed spec fn spec_canonical_bytes(&self) -> Seq<u8> {
        self.canonical_bytes@
    }

    pub closed spec fn spec_digest(&self) -> Digest {
        self.digest
    }

    /// Build the digest for a validated, schema-projected operation.
    pub fn of(protocol_version: u8, operation: &str, operation_version: u32, arguments: &JsonValue) -> (r: Result<
        OperationDigest,
        JcsError,
    >)
        ensures
            match spec_operation_domain(protocol_version) {
                None => r == Err::<OperationDigest, JcsError>(JcsError::Format),
                Some(domain) => r matches Ok(d) && d.spec_canonical_bytes() == encode_utf8(
                    spec_operation_text(operation@, operation_version, *arguments),
                ) && d.spec_digest()@ == spec_sha256(domain + d.spec_canonical_bytes()),
            },
    {
        let domain = match operation_domain(protocol_version) {
            Ok(d) => d,
            Err(_) => {
                return Err(JcsError::Format);
            },
        };
        let mut text = String::new();
        push_str(&mut text, "{\"arguments\":");
        write_jcs(arguments, &mut text);
        push_str(&mut text, ",\"operation\":");
        push_string_text(&mut text, operation);
        push_str(&mut text, ",\"operation_version\":");
        push_decimal(&mut text, operation_version as u64);
        push_str(&mut text, "}");
        assert(text@ =~= spec_operation_text(operation@, operation_version, *arguments));
        let canonical_bytes = text.as_str().as_bytes_vec();
        let digest = digest_with_domain(domain, &canonical_bytes);
        Ok(OperationDigest { canonical_bytes, digest })
    }

    /// The canonical bytes the digest covers, excluding the domain separator.
    pub fn canonical_bytes(&self) -> (r: &[u8])
        ensures
            r@ == self.spec_canonical_bytes(),
    {
        self.canonical_bytes.as_slice()
    }

    /// The digest.
    pub fn digest(&self) -> (r: &Digest)
        ensures
            *r == self.spec_digest(),
    {
        &self.digest
    }
}

fn digest_with_domain(mut data: Vec<u8>, payload: &Vec<u8>) -> (d: Digest)
    ensures
        d@ == spec_sha256(data@ + payload@),
{
    let ghost start = data@;
    let mut i: usize = 0;
    while i < payload.len()
        invariant
            i <= payload@.len(),
            data@ == start + payload@.subrange(0, i as int),
        decreases payload@.len() - i,
    {
        data.push(payload[i]);
        i = i + 1;
        assert(data@ =~= start + payload@.subrange(0, i as int));
    }
    assert(payload@.subrange(0, payload@.len() as int) =~= payload@);
    Digest::from_sha256_bytes(sha256(data.as_slice()))
}

/// Digest of a manifest document, domain-separated from operations.
pub fn manifest_digest(manifest: &JsonValue) -> (r: Result<Digest, JcsError>)
    ensures
        r matches Ok(d) && d@ == spec_sha256(MANIFEST_DOMAIN@ + encode_utf8(spec_jcs(*manifest))),
{
    let canonical = canonicalize(manifest);
    Ok(digest_with_domain(bytes_of(&MANIFEST_DOMAIN), &canonical))
}

/// The domain separators separate: whatever follows them, the bytes hashed
/// for a v1 operation, a v2 operation and a manifest are never the same, so
/// the same canonical operation gets a different digest under each protocol
/// version and no operation digest is ever a manifest digest's input.
pub proof fn domains_never_collide(x: Seq<u8>, y: Seq<u8>)
    ensures
        OPERATION_DOMAIN_V1@ + x != OPERATION_DOMAIN_V2@ + y,
        OPERATION_DOMAIN_V1@ + x != MANIFEST_DOMAIN@ + y,
        OPERATION_DOMAIN_V2@ + x != MANIFEST_DOMAIN@ + y,
{
    assert((OPERATION_DOMAIN_V1@ + x)[20] == 49u8);
    assert((OPERATION_DOMAIN_V2@ + y)[20] == 50u8);
    assert((OPERATION_DOMAIN_V1@ + x)[9] == 111u8);
    assert((OPERATION_DOMAIN_V2@ + x)[9] == 111u8);
    assert((MANIFEST_DOMAIN@ + y)[9] == 109u8);
}

} // verus!
