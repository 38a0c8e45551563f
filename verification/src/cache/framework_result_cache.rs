//! Keys of the framework-extraction result cache.
use vstd::prelude::*;

use std::collections::hash_map::DefaultHasher;
use std::hash::Hasher;

use vstd::std_specs::hash::DefaultHasherAdditionalSpecFns;

use crate::hashing::{digest, hash_str, str_writes};
use crate::text::u64_to_hex;

verus! {

/// The writes that key a framework result: the parse key, the extractor's name and its
/// version, each as `str::hash` writes it.
pub open spec fn framework_key_writes(parse_key: Seq<char>, extractor_name: Seq<char>, version: Seq<char>) -> Seq<Seq<u8>> {
    str_writes(parse_key) + str_writes(extractor_name) + str_writes(version)
}

/// The 64-bit hash that identifies a framework extractor's result on a parsed file.
pub fn framework_cache_id(parse_key: &str, extractor_name: &str, version: &str) -> (r: u64)
    ensures
        r == DefaultHasher::spec_finish(framework_key_writes(parse_key@, extractor_name@, version@)),
{
    let mut hasher = DefaultHasher::new();
    hash_str(&mut hasher, parse_key);
    hash_str(&mut hasher, extractor_name);
    hash_str(&mut hasher, version);
    assert(hasher@ =~= framework_key_writes(parse_key@, extractor_name@, version@));
    hasher.finish()
}

/// The cache key of a framework extractor's result on a parsed file:
/// `framework_cache_id` in lowercase hexadecimal.
pub fn framework_cache_key(parse_key: &str, extractor_name: &str, version: &str) -> (r: String)
    ensures
        r@ == digest(framework_key_writes(parse_key@, extractor_name@, version@)),
{
    u64_to_hex(framework_cache_id(parse_key, extractor_name, version))
}

} // verus!
