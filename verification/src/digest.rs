//! Integrity digests of stored payloads.

use sha2::Digest;
use sha2::Sha256;
use vstd::prelude::*;
use vstd::string::*;

verus! {

/// The SHA-256 digest of `data`, written as lower-case hexadecimal text.
pub uninterp spec fn sha256_hex(data: Seq<u8>) -> Seq<char>;

/// Calls `sha2::Sha256` (`new`, `update`, `finalize`) on `data` and renders
/// the digest with `{:x}`. The contract only gives that result its name: the
/// digest is a function of the bytes alone.
#[verifier::external_body]
fn sha256_hex_digest(data: &[u8]) -> (hex: String)
    ensures
        hex@ == sha256_hex(data@),
{
    let mut hasher = Sha256::new();
    hasher.update(data);
    format!("{:x}", hasher.finalize())
}

/// The digest under which a payload is checked for integrity.
pub fn calculate_data_hash(data: &[u8]) -> (hex: String)
    ensures
        hex@ == sha256_hex(data@),
{
    sha256_hex_digest(data)
}

/// The digest of a chunk id's UTF-8 bytes, from which the name of the chunk's
/// blob in durable storage is made.
pub fn calculate_chunk_hash(chunk_id: &str) -> (hex: String)
    ensures
        hex@ == sha256_hex(chunk_id.spec_bytes()),
{
    sha256_hex_digest(chunk_id.as_bytes())
}

/// Whether a payload still has the digest that was recorded for it.
pub fn verify_data_hash(data: &[u8], expected: &String) -> (intact: bool)
    ensures
        intact == (sha256_hex(data@) == expected@),
{
    let current = sha256_hex_digest(data);
    current == *expected
}

/// Whether a digest computed now equals the recorded one.
pub fn digest_matches(current: &String, recorded: &String) -> (same: bool)
    ensures
        same == (current@ == recorded@),
{
    *current == *recorded
}

} // verus!
