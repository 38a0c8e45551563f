//! Result caches with a time-to-live and an entry limit, and their keys.
pub mod framework_result_cache;
pub mod parse_tree_cache;
pub mod query_result_cache;
pub mod ttl_cache;
pub mod manager;
