//! The 64-bit content digest used throughout the value engine: for hashed map
//! keys derived from field names, for interned symbol ids, and for the content
//! hash of variable-length values.

use std::hash::Hasher;
use vstd::prelude::*;

verus! {

/// The xxHash64 digest (seed 0) of a byte sequence. The algorithm is supplied
/// by an outside crate; the digest is a pure function of the bytes alone.
pub uninterp spec fn xxh64_of(data: Seq<u8>) -> u64;

/// Relies on twox_hash::XxHash64 with its default seed (0): writing a byte
/// slice and finishing yields the xxHash64 digest, which depends on the bytes
/// alone, on every machine and in every process.
#[verifier::external_body]
pub(crate) fn xxh64_bytes(data: &[u8]) -> (r: u64)
    ensures
        r == xxh64_of(data@),
{
    let mut hasher = twox_hash::XxHash64::default();
    hasher.write(data);
    hasher.finish()
}

/// The key id a field name or symbol name is stored under: the digest of the
/// name's UTF-8 bytes.
pub open spec fn key_hash_of(name: Seq<char>) -> u64 {
    xxh64_of(vstd::utf8::encode_utf8(name))
}

/// Hash a field name or symbol name to the 64-bit key id it is stored under.
pub fn key_hash(key: &str) -> (r: u64)
    ensures
        r == key_hash_of(key@),
{
    xxh64_bytes(key.as_bytes())
}

/// Hash every name in a list of field names.
pub fn key_hashes(keys: &Vec<String>) -> (r: Vec<u64>)
    ensures
        r@.len() == keys@.len(),
        forall|i: int| 0 <= i < r@.len() ==> r@[i] == key_hash_of(keys@[i]@),
{
    let mut out: Vec<u64> = Vec::new();
    let mut i: usize = 0;
    while i < keys.len()
        invariant
            i <= keys@.len(),
            out@.len() == i,
            forall|j: int| 0 <= j < i ==> out@[j] == key_hash_of(keys@[j]@),
        decreases keys@.len() - i,
    {
        out.push(key_hash(keys[i].as_str()));
        i = i + 1;
    }
    out
}

} // verus!
