use std::collections::hash_map::DefaultHasher;
use std::hash::{Hash, Hasher};

use ast_tools::analysis::complexity::{analyze_file, ComplexitySummaryInput};
use ast_tools::analysis::large_nodes::{detect_in_file, DetectLargeNodesInput};
use ast_tools::cache::framework_result_cache::{framework_cache_id, framework_cache_key};
use ast_tools::cache::manager::CacheManager;
use ast_tools::cache::parse_tree_cache::{cache_id, cache_key, CachedTree};
use ast_tools::cache::query_result_cache::{query_cache_id, query_cache_key};
use ast_tools::cache::ttl_cache::TtlCache;
use ast_tools::shared::Position;

const SOURCE: &str = "import a from 'b'\nfn main() {\n    if x { } else { }\n    for i in 0..3 { }\n}\nstruct S;\nimpl S {}\n";

fn no_complexity_options() -> ComplexitySummaryInput {
    ComplexitySummaryInput {
        file_path: None,
        glob: None,
        max_files: None,
        include_functions: None,
        include_classes: None,
        max_results: None,
    }
}

fn large_nodes_options(min_lines: Option<usize>) -> DetectLargeNodesInput {
    DetectLargeNodesInput { file_path: None, glob: None, max_files: None, min_lines, node_kinds: None, max_results: None }
}

#[test]
fn complexity_counts_keywords() {
    let (s, hotspots) = analyze_file("src/main.rs", SOURCE, &no_complexity_options()).expect("a summary");
    assert!(hotspots.is_empty());
    assert_eq!(s.file_path, "src/main.rs");
    assert_eq!(s.line_count, 7);
    assert_eq!(s.import_count, 2);
    assert_eq!(s.function_count, 1);
    assert_eq!(s.class_count, 2);
    assert_eq!(s.branch_count, 2);
    assert_eq!(s.loop_count, 1);
    assert_eq!(s.max_nesting_depth, 0);
    assert_eq!(s.max_function_lines, 0);
}

#[test]
fn complexity_of_empty_and_unterminated_sources() {
    let (s, _) = analyze_file("a.py", "", &no_complexity_options()).expect("a summary");
    assert_eq!(s.line_count, 0);
    assert_eq!(s.function_count, 0);
    // The last line needs no line break; `matches` does not overlap.
    let (s, _) = analyze_file("a.py", "def f():\n  return 1\ndef g(): pass", &no_complexity_options()).expect("a summary");
    assert_eq!(s.line_count, 3);
    assert_eq!(s.function_count, 2);
    let (s, _) = analyze_file("a.go", "elseelse", &no_complexity_options()).expect("a summary");
    assert_eq!(s.branch_count, 2);
}

#[test]
fn large_file_over_the_threshold() {
    let nodes = detect_in_file("src/main.rs", SOURCE, &large_nodes_options(Some(7)));
    assert_eq!(nodes.len(), 1);
    assert_eq!(nodes[0].file_path, "src/main.rs");
    assert_eq!(nodes[0].kind, "file");
    assert_eq!(nodes[0].name, None);
    assert_eq!(nodes[0].line_count, 7);
    assert_eq!(nodes[0].child_count, 1);
    assert_eq!(nodes[0].nesting_depth, 0);
    assert_eq!(nodes[0].range.start, Position { line: 0, character: 0 });
    assert_eq!(nodes[0].range.end, Position { line: 7, character: 0 });
    assert!(detect_in_file("src/main.rs", SOURCE, &large_nodes_options(Some(8))).is_empty());
    // The default threshold is 80 lines.
    assert!(detect_in_file("src/main.rs", SOURCE, &large_nodes_options(None)).is_empty());
}

#[test]
fn ttl_cache_holds_a_bounded_number_of_entries() {
    let mut c: TtlCache<u64, u32> = TtlCache::new(2, 60_000);
    assert!(c.is_empty());
    assert_eq!(c.max_entries(), 2);
    assert_eq!(c.ttl_ms(), 60_000);
    assert_eq!(c.estimated_bytes(), 0);
    c.insert(1, 1);
    c.insert(2, 2);
    assert_eq!(c.len(), 2);
    assert_eq!(c.get(&1), Some(&1));
    c.insert(3, 3);
    // One entry was evicted to make room.
    assert_eq!(c.len(), 2);
    assert_eq!(c.get(&3), Some(&3));
    assert_eq!(c.remove(&3), Some(3));
    assert_eq!(c.remove(&3), None);
    assert_eq!(c.get(&3), None);
    assert_eq!(c.clear(), 1);
    assert!(c.is_empty());
    assert!(c.estimated_bytes() == 0);

    // Below the limit an insertion under a present key replaces its value.
    let mut c: TtlCache<u64, u32> = TtlCache::new(5, 60_000);
    c.insert(1, 1);
    c.insert(1, 10);
    assert_eq!(c.len(), 1);
    assert_eq!(c.get(&1), Some(&10));
    assert!(c.estimated_bytes() > 0);
}

#[test]
fn ttl_cache_expires_entries() {
    let mut c: TtlCache<u64, &str> = TtlCache::new(4, 0);
    c.insert(1, "x");
    // With a time-to-live of zero every entry has expired when read, and is dropped.
    assert_eq!(c.get(&1), None);
    assert_eq!(c.len(), 0);
}

#[test]
fn ttl_cache_freshness_at_given_times() {
    let mut c: TtlCache<u64, &str> = TtlCache::new(4, 100);
    c.insert_at(7, "v", 1_000);
    // An entry is fresh while its age is below the time-to-live.
    assert_eq!(c.get_at(&7, 1_000), Some(&"v"));
    assert_eq!(c.get_at(&7, 1_099), Some(&"v"));
    // A reading before the stamp counts as age zero.
    assert_eq!(c.get_at(&7, 10), Some(&"v"));
    assert_eq!(c.len(), 1);
    // At an age of the time-to-live it has expired, and reading it removes it.
    assert_eq!(c.get_at(&7, 1_100), None);
    assert_eq!(c.len(), 0);
    assert_eq!(c.remove(&7), None);
    // Re-inserting stamps the entry afresh.
    c.insert_at(7, "w", 5_000);
    assert_eq!(c.get_at(&7, 5_050), Some(&"w"));
}

#[test]
fn ttl_cache_full_insert_evicts_a_present_entry() {
    let mut c: TtlCache<u64, u32> = TtlCache::new(3, 1_000);
    for k in 0..3u64 {
        c.insert_at(k, k as u32, 0);
    }
    c.insert_at(9, 9, 0);
    assert_eq!(c.len(), 3);
    assert_eq!(c.get_at(&9, 0), Some(&9));
    let kept = (0..3u64).filter(|k| c.get_at(k, 0).is_some()).count();
    assert_eq!(kept, 2);
    for k in 0..3u64 {
        if let Some(v) = c.get_at(&k, 0) {
            assert_eq!(*v, k as u32);
        }
    }
}

fn tree(source: &str) -> CachedTree {
    CachedTree { source: source.to_string(), root_kind: "program".to_string(), node_count: 1, parse_time_ms: 0 }
}

#[test]
fn clearing_parse_trees_clears_dependent_results() {
    let mut m = CacheManager::new(1_000, 2_000, 3_000, 2);
    let st = m.status();
    assert_eq!(st.parse_trees.max_entries, Some(2));
    assert_eq!(st.query_results.max_entries, Some(4));
    assert_eq!(st.framework_results.max_entries, Some(2));
    assert_eq!((st.parse_trees.ttl_ms, st.query_results.ttl_ms, st.framework_results.ttl_ms), (1_000, 2_000, 3_000));
    assert_eq!(st.parse_trees.entries, 0);
    assert_eq!(st.request_log.entries, 0);

    m.parse_trees.insert(1, tree("x"));
    m.query_results.insert(2, serde_json::Value::Bool(true));
    m.framework_results.insert(3, serde_json::Value::Null);
    assert_eq!(m.status().query_results.entries, 1);
    assert_eq!(m.clear_query_results(), 1);
    assert_eq!(m.status().parse_trees.entries, 1);
    assert_eq!(m.status().framework_results.entries, 1);
    m.query_results.insert(2, serde_json::Value::Bool(true));
    assert_eq!(m.clear_parse_trees(), 1);
    let st = m.status();
    assert_eq!((st.parse_trees.entries, st.query_results.entries, st.framework_results.entries), (0, 0, 0));
    assert_eq!(m.clear_framework_results(), 0);
}

fn hex_of<F: FnOnce(&mut DefaultHasher)>(feed: F) -> String {
    let mut h = DefaultHasher::new();
    feed(&mut h);
    format!("{:x}", h.finish())
}

#[test]
fn cache_keys_follow_the_default_hasher() {
    let k = cache_key("/ws", "src/a.ts", 17, 42, "typescript");
    let expected = hex_of(|h| {
        "/ws".hash(h);
        "src/a.ts".hash(h);
        17u64.hash(h);
        42u64.hash(h);
        "typescript".hash(h);
    });
    assert_eq!(k, expected);
    assert_ne!(k, cache_key("/ws", "src/a.ts", 18, 42, "typescript"));
    assert_eq!(k, cache_key("/ws", "src/a.ts", 17, 42, "typescript"));
    assert_eq!(k, format!("{:x}", cache_id("/ws", "src/a.ts", 17, 42, "typescript")));
    assert!(!k.is_empty() && k.len() <= 16 && k.chars().all(|c| c.is_ascii_hexdigit() && !c.is_ascii_uppercase()));

    let q = query_cache_key(&k, "(identifier) @id");
    assert_eq!(q, format!("{:x}", query_cache_id(&k, "(identifier) @id")));
    assert_eq!(q, hex_of(|h| {
        k.as_str().hash(h);
        "(identifier) @id".hash(h);
    }));
    let fw = framework_cache_key(&k, "routes", "1");
    assert_eq!(fw, format!("{:x}", framework_cache_id(&k, "routes", "1")));
    assert_eq!(fw, hex_of(|h| {
        k.as_str().hash(h);
        "routes".hash(h);
        "1".hash(h);
    }));
}
