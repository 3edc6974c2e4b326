//! SHA-256, computed by the `sha2` crate.

use sha2::Digest as _;
use vstd::prelude::*;

verus! {

/// The SHA-256 digest of a byte string, 32 bytes.
pub uninterp spec fn spec_sha256(data: Seq<u8>) -> Seq<u8>;

/// `sha2::Sha256::digest` over `data`. The result is the SHA-256 digest of
/// exactly these bytes; nothing else about its value is stated.
#[verifier::external_body]
pub(crate) fn sha256(data: &[u8]) -> (r: [u8; 32])
    ensures
        r@ == spec_sha256(data@),
{
    sha2::Sha256::digest(data).into()
}

} // verus!
