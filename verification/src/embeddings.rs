//! Deterministic hash-based tool-name embeddings.

use vstd::prelude::*;

verus! {

/// The SHA-256 digest of a string's UTF-8 bytes. Named rather than spelled
/// out: the algorithm is the sha2 crate's, and nothing here re-states it.
pub uninterp spec fn sha256_of(s: Seq<char>) -> Seq<u8>;

/// Relies on sha2::Sha256::digest (through the Digest trait): the 32-byte
/// SHA-256 digest of the name's UTF-8 bytes, a function of the name alone.
#[verifier::external_body]
fn sha256_digest(tool_name: &str) -> (r: Vec<u8>)
    ensures
        r@ == sha256_of(tool_name@),
        r@.len() == 32,
{
    let digest = <sha2::Sha256 as sha2::Digest>::digest(tool_name.as_bytes());
    digest.to_vec()
}

/// Compute a deterministic 256-bit embedding for a tool name using SHA-256.
///
/// Returns the raw hash bytes (32 bytes = 32 dimensions) and the dimension
/// count. This is a hash-based embedding — no external API call required.
pub fn compute_tool_embedding(tool_name: &str) -> (r: (Vec<u8>, usize))
    ensures
        r.0@ == sha256_of(tool_name@),
        r.0@.len() == 32,
        r.1 == 32,
{
    let hash = sha256_digest(tool_name);
    (hash, 32)
}

} // verus!
