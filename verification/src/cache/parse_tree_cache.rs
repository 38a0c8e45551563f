//! Keys of the parse-tree cache and the entries it holds.
use vstd::prelude::*;

use std::collections::hash_map::DefaultHasher;
use std::hash::Hasher;

use vstd::std_specs::hash::DefaultHasherAdditionalSpecFns;

use crate::hashing::{digest, hash_str, hash_u64, str_writes, u64_bytes};
use crate::text::u64_to_hex;

verus! {

/// A cached parse: the source and what is needed to describe or re-parse it.
pub struct CachedTree {
    pub source: String,
    pub root_kind: String,
    pub node_count: usize,
    pub parse_time_ms: u64,
}

/// The writes that key a parse: workspace path, file path, modification time, size
/// (the two integers as eight bytes each, least significant first) and language.
pub open spec fn parse_key_writes(
    workspace_path: Seq<char>,
    file_path: Seq<char>,
    mtime: u64,
    size: u64,
    language: Seq<char>,
) -> Seq<Seq<u8>> {
    str_writes(workspace_path) + str_writes(file_path) + seq![u64_bytes(mtime, true), u64_bytes(size, true)]
        + str_writes(language)
}

/// The 64-bit hash that identifies a parse of a file, from its location, metadata and
/// language.
pub fn cache_id(workspace_path: &str, file_path: &str, mtime: u64, size: u64, language: &str) -> (r: u64)
    ensures
        r == DefaultHasher::spec_finish(parse_key_writes(workspace_path@, file_path@, mtime, size, language@)),
{
    let mut hasher = DefaultHasher::new();
    hash_str(&mut hasher, workspace_path);
    hash_str(&mut hasher, file_path);
    hash_u64(&mut hasher, mtime);
    hash_u64(&mut hasher, size);
    hash_str(&mut hasher, language);
    assert(hasher@ =~= parse_key_writes(workspace_path@, file_path@, mtime, size, language@));
    hasher.finish()
}

/// The cache key of a parse of a file: `cache_id` in lowercase hexadecimal.
pub fn cache_key(workspace_path: &str, file_path: &str, mtime: u64, size: u64, language: &str) -> (r: String)
    ensures
        r@ == digest(parse_key_writes(workspace_path@, file_path@, mtime, size, language@)),
{
    u64_to_hex(cache_id(workspace_path, file_path, mtime, size, language))
}

} // verus!
