//! Keys of the query result cache.
use vstd::prelude::*;

use std::collections::hash_map::DefaultHasher;
use std::hash::Hasher;

use vstd::std_specs::hash::DefaultHasherAdditionalSpecFns;

use crate::hashing::{digest, hash_str, str_writes};
use crate::text::u64_to_hex;

verus! {

/// The writes that key a query result: the parse key and the query text.
pub open spec fn query_key_writes(parse_key: Seq<char>, query_string: Seq<char>) -> Seq<Seq<u8>> {
    str_writes(parse_key) + str_writes(query_string)
}

/// The 64-bit hash that identifies a query's result on a parsed file.
pub fn query_cache_id(parse_key: &str, query_string: &str) -> (r: u64)
    ensures
        r == DefaultHasher::spec_finish(query_key_writes(parse_key@, query_string@)),
{
    let mut hasher = DefaultHasher::new();
    hash_str(&mut hasher, parse_key);
    hash_str(&mut hasher, query_string);
    assert(hasher@ =~= query_key_writes(parse_key@, query_string@));
    hasher.finish()
}

/// The cache key of a query's result on a parsed file: `query_cache_id` in lowercase
/// hexadecimal.
pub fn query_cache_key(parse_key: &str, query_string: &str) -> (r: String)
    ensures
        r@ == digest(query_key_writes(parse_key@, query_string@)),
{
    u64_to_hex(query_cache_id(parse_key, query_string))
}

} // verus!
