//! The three caches of the server and their status.
use vstd::prelude::*;

use super::parse_tree_cache::CachedTree;
use super::ttl_cache::TtlCache;

verus! {

broadcast use vstd::std_specs::hash::group_hash_axioms;

#[verifier::external_type_specification]
#[verifier::external_body]
pub struct ExJsonValue(serde_json::Value);

/// The status of one cache.
#[derive(Debug, Clone, Copy, PartialEq, Eq, Structural)]
pub struct CacheSectionStatus {
    pub entries: usize,
    pub max_entries: Option<usize>,
    pub ttl_ms: u64,
    pub estimated_bytes: Option<usize>,
}

/// The status of the request log, which the caller fills in.
#[derive(Debug, Clone, Copy, PartialEq, Eq, Structural)]
pub struct RequestLogCacheStatus {
    pub entries: usize,
    pub max_entries: usize,
}

/// The status of all caches.
#[derive(Debug, Clone, Copy, PartialEq, Eq, Structural)]
pub struct AstCacheStatus {
    pub parse_trees: CacheSectionStatus,
    pub query_results: CacheSectionStatus,
    pub framework_results: CacheSectionStatus,
    pub request_log: RequestLogCacheStatus,
}

/// The parse-tree, query-result and framework-result caches, keyed by the 64-bit hashes
/// `cache_id`, `query_cache_id` and `framework_cache_id`. Query results depend on parse
/// trees, so clearing the parse trees clears the other two as well.
pub struct CacheManager {
    pub parse_trees: TtlCache<u64, CachedTree>,
    pub query_results: TtlCache<u64, serde_json::Value>,
    pub framework_results: TtlCache<u64, serde_json::Value>,
    pub parse_ttl_ms: u64,
    pub query_ttl_ms: u64,
    pub framework_ttl_ms: u64,
    pub max_cached_files: usize,
}

impl CacheManager {
    /// The entry limit of the parse-tree and framework caches.
    pub closed spec fn max_files(&self) -> usize {
        self.max_cached_files
    }

    /// Empty caches: parse trees and framework results hold up to `max_cached_files`
    /// entries, query results twice as many (stopping at `usize::MAX`).
    pub fn new(parse_ttl_ms: u64, query_ttl_ms: u64, framework_ttl_ms: u64, max_cached_files: usize) -> (r: Self)
        ensures
            r.parse_trees.contents() == Map::<u64, CachedTree>::empty(),
            r.query_results.contents() == Map::<u64, serde_json::Value>::empty(),
            r.framework_results.contents() == Map::<u64, serde_json::Value>::empty(),
            r.parse_trees.limit() == max_cached_files && r.parse_trees.ttl() == parse_ttl_ms,
            r.query_results.limit() == double_limit(max_cached_files) && r.query_results.ttl() == query_ttl_ms,
            r.framework_results.limit() == max_cached_files && r.framework_results.ttl() == framework_ttl_ms,
            r.max_files() == max_cached_files,
    {
        CacheManager {
            parse_trees: TtlCache::new(max_cached_files, parse_ttl_ms),
            query_results: TtlCache::new(double(max_cached_files), query_ttl_ms),
            framework_results: TtlCache::new(max_cached_files, framework_ttl_ms),
            parse_ttl_ms,
            query_ttl_ms,
            framework_ttl_ms,
            max_cached_files,
        }
    }

    /// The status of the three caches; the request-log section is left at zero for the
    /// caller to fill in.
    pub fn status(&self) -> (r: AstCacheStatus)
        ensures
            r.parse_trees.max_entries == Some(self.max_files()),
            r.parse_trees.ttl_ms == self.parse_trees_ttl(),
            r.query_results.max_entries == Some(double_limit(self.max_files())),
            r.query_results.ttl_ms == self.query_results_ttl(),
            r.framework_results.max_entries == Some(self.max_files()),
            r.framework_results.ttl_ms == self.framework_results_ttl(),
            r.parse_trees.estimated_bytes is Some,
            r.query_results.estimated_bytes is Some,
            r.framework_results.estimated_bytes is Some,
            r.request_log.entries == 0 && r.request_log.max_entries == 0,
            r.parse_trees.entries == self.parse_trees.contents().len(),
            r.query_results.entries == self.query_results.contents().len(),
            r.framework_results.entries == self.framework_results.contents().len(),
    {
        AstCacheStatus {
            parse_trees: CacheSectionStatus {
                entries: self.parse_trees.len(),
                max_entries: Some(self.max_cached_files),
                ttl_ms: self.parse_ttl_ms,
                estimated_bytes: Some(self.parse_trees.estimated_bytes()),
            },
            query_results: CacheSectionStatus {
                entries: self.query_results.len(),
                max_entries: Some(double(self.max_cached_files)),
                ttl_ms: self.query_ttl_ms,
                estimated_bytes: Some(self.query_results.estimated_bytes()),
            },
            framework_results: CacheSectionStatus {
                entries: self.framework_results.len(),
                max_entries: Some(self.max_cached_files),
                ttl_ms: self.framework_ttl_ms,
                estimated_bytes: Some(self.framework_results.estimated_bytes()),
            },
            request_log: RequestLogCacheStatus { entries: 0, max_entries: 0 },
        }
    }

    /// The configured parse-tree time-to-live.
    pub closed spec fn parse_trees_ttl(&self) -> u64 {
        self.parse_ttl_ms
    }

    /// The configured query-result time-to-live.
    pub closed spec fn query_results_ttl(&self) -> u64 {
        self.query_ttl_ms
    }

    /// The configured framework-result time-to-live.
    pub closed spec fn framework_results_ttl(&self) -> u64 {
        self.framework_ttl_ms
    }

    /// Clear the parse trees and, with them, the query and framework results; returns how
    /// many parse trees there were.
    pub fn clear_parse_trees(&mut self) -> (r: usize)
        ensures
            final(self).parse_trees.contents() == Map::<u64, CachedTree>::empty(),
            final(self).query_results.contents() == Map::<u64, serde_json::Value>::empty(),
            final(self).framework_results.contents() == Map::<u64, serde_json::Value>::empty(),
            final(self).max_files() == old(self).max_files(),
            r == old(self).parse_trees.contents().len(),
    {
        let count = self.parse_trees.clear();
        self.query_results.clear();
        self.framework_results.clear();
        count
    }

    /// Clear the query results; returns how many there were.
    pub fn clear_query_results(&mut self) -> (r: usize)
        ensures
            final(self).query_results.contents() == Map::<u64, serde_json::Value>::empty(),
            final(self).parse_trees.contents() == old(self).parse_trees.contents(),
            final(self).framework_results.contents() == old(self).framework_results.contents(),
            final(self).max_files() == old(self).max_files(),
            r == old(self).query_results.contents().len(),
    {
        self.query_results.clear()
    }

    /// Clear the framework results; returns how many there were.
    pub fn clear_framework_results(&mut self) -> (r: usize)
        ensures
            final(self).framework_results.contents() == Map::<u64, serde_json::Value>::empty(),
            final(self).parse_trees.contents() == old(self).parse_trees.contents(),
            final(self).query_results.contents() == old(self).query_results.contents(),
            final(self).max_files() == old(self).max_files(),
            r == old(self).framework_results.contents().len(),
    {
        self.framework_results.clear()
    }
}

/// Twice a limit, stopping at `usize::MAX`.
pub open spec fn double_limit(n: usize) -> usize {
    if n * 2 <= usize::MAX { (n * 2) as usize } else { usize::MAX }
}

fn double(n: usize) -> (r: usize)
    ensures
        r == double_limit(n),
{
    match n.checked_mul(2) {
        Some(d) => d,
        None => usize::MAX,
    }
}

} // verus!
