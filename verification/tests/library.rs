use ast_tools::config::env_config::{apply_partial, from_env};
use ast_tools::config::runtime_config::{
    PartialRuntimeCaches, PartialRuntimeDebug, PartialRuntimeLimits, PartialRuntimeScans,
    PartialRuntimeTimeouts, RuntimeConfig, RuntimeConfigStore,
};
use ast_tools::frameworks::{is_camel_case, is_pascal_case, make_evidence, truncate_evidence_text, MAX_EVIDENCE_TEXT};
use ast_tools::text::{join_strings, replace_str, trim_start_pattern, trim_str, CharSet, TextBudget};

fn no_limits() -> PartialRuntimeLimits {
    PartialRuntimeLimits {
        max_file_bytes: None,
        max_parse_tree_nodes: None,
        max_query_results: None,
        max_workspace_files: None,
        max_workspace_results: None,
        max_context_characters: None,
        max_chunk_lines: None,
        max_changed_files: None,
        max_edits: None,
        max_duplicate_candidates: None,
    }
}

fn no_timeouts() -> PartialRuntimeTimeouts {
    PartialRuntimeTimeouts {
        parse_file: None,
        query_file: None,
        query_workspace: None,
        chunk_file: None,
        framework_extraction: None,
        rewrite_preview: None,
        complexity_summary: None,
        duplicate_detection: None,
    }
}

fn no_caches() -> PartialRuntimeCaches {
    PartialRuntimeCaches {
        parse_tree_ttl_ms: None,
        query_result_ttl_ms: None,
        framework_result_ttl_ms: None,
        request_log_max_entries: None,
        max_cached_files: None,
    }
}

fn snapshot(c: &RuntimeConfig) -> String {
    format!("{:?}", c)
}

#[test]
fn empty_update_changes_nothing() {
    let mut c = RuntimeConfig::default();
    let before = snapshot(&c);
    let rejected = apply_partial(&mut c, None, None, None, None, None);
    assert!(rejected.is_empty());
    assert_eq!(snapshot(&c), before);
}

#[test]
fn update_is_idempotent() {
    let limits = PartialRuntimeLimits { max_query_results: Some(50), max_edits: Some(0), ..no_limits() };
    let timeouts = PartialRuntimeTimeouts { parse_file: Some(9), ..no_timeouts() };
    let caches = PartialRuntimeCaches { request_log_max_entries: Some(20_000), ..no_caches() };
    let debug = PartialRuntimeDebug { verbose_logging: Some(true), include_node_text_in_logs: None, include_raw_tree_debug: None };
    let scans = || PartialRuntimeScans { max_parallelism: Some(4), respect_gitignore: Some(false), include_hidden: None, default_exclude_globs: Some(vec!["dist/**".to_string()]) };
    let mut c = RuntimeConfig::default();
    let first = apply_partial(&mut c, Some(limits), Some(timeouts), Some(caches), Some(scans()), Some(debug));
    let once = snapshot(&c);
    let second = apply_partial(&mut c, Some(limits), Some(timeouts), Some(caches), Some(scans()), Some(debug));
    assert_eq!(snapshot(&c), once);
    assert_eq!(first.len(), 2);
    assert_eq!(second.len(), 2);
    assert_eq!(c.limits.max_query_results, 50);
    assert_eq!(c.timeouts_ms.parse_file, 9);
    assert_eq!(c.scans.max_parallelism, 4);
    assert!(!c.scans.respect_gitignore);
    assert_eq!(c.scans.default_exclude_globs, vec!["dist/**".to_string()]);
    assert!(c.debug.verbose_logging);
}

#[test]
fn refused_values_keep_settings() {
    let mut c = RuntimeConfig::default();
    let edits = c.limits.max_edits;
    let log = c.caches.request_log_max_entries;
    let limits = PartialRuntimeLimits { max_edits: Some(0), ..no_limits() };
    let caches = PartialRuntimeCaches { request_log_max_entries: Some(10_001), ..no_caches() };
    let timeouts = PartialRuntimeTimeouts { query_file: Some(0), ..no_timeouts() };
    let scans = PartialRuntimeScans { max_parallelism: Some(0), respect_gitignore: None, include_hidden: None, default_exclude_globs: None };
    let rejected = apply_partial(&mut c, Some(limits), Some(timeouts), Some(caches), Some(scans), None);
    assert_eq!(c.limits.max_edits, edits);
    assert_eq!(c.caches.request_log_max_entries, log);
    let paths: Vec<&str> = rejected.iter().map(|r| r.path.as_str()).collect();
    assert_eq!(paths, vec!["limits.max_edits", "timeouts_ms.query_file", "caches.request_log_max_entries", "scans.max_parallelism"]);
    assert_eq!(rejected[0].reason, "value must be positive");
    assert_eq!(rejected[1].reason, "timeout must be positive");
    assert_eq!(rejected[2].reason, "request_log_max_entries 10001 exceeds hard ceiling 10000");
    assert_eq!(rejected[3].reason, "max_parallelism must be at least 1");
}

#[test]
fn budget_never_overspends() {
    let mut b = TextBudget::new(10);
    assert!(b.try_spend(7));
    assert_eq!(b.remaining(), 3);
    assert!(!b.try_spend(4));
    assert_eq!(b.remaining(), 3);
    assert!(b.exceeded);
    assert!(b.try_spend(3));
    assert_eq!(b.remaining(), 0);
}

#[test]
fn evidence_text_is_bounded() {
    let long = "é".repeat(400);
    let cut = truncate_evidence_text(&long);
    assert!(cut.len() <= MAX_EVIDENCE_TEXT);
    assert_eq!(cut.len(), 500);
    let odd = format!("a{}", "é".repeat(300));
    assert_eq!(truncate_evidence_text(&odd).len(), 499);
    assert_eq!(truncate_evidence_text("short"), "short");
    let e = make_evidence("k", Some(&long), None, Some("node"));
    assert_eq!(e.text.as_ref().map(|t| t.len()), Some(500));
    assert_eq!(e.node_kind.as_deref(), Some("node"));
}

#[test]
fn naming_conventions() {
    assert!(is_pascal_case("UserCard"));
    assert!(!is_pascal_case("userCard"));
    assert!(!is_pascal_case("User_Card"));
    assert!(!is_pascal_case(""));
    assert!(is_camel_case("userCard"));
    assert!(!is_camel_case("UserCard"));
}

#[test]
fn text_helpers() {
    assert_eq!(replace_str("app/users/[id]/route.ts", "[", ":"), "app/users/:id]/route.ts");
    assert_eq!(replace_str("aaa", "aa", "b"), "ba");
    assert_eq!(replace_str("abc", "x", "y"), "abc");
    assert_eq!(trim_str("  'x'  ", CharSet::Whitespace), "'x'");
    assert_eq!(trim_str("`x`", CharSet::Backtick), "x");
    let parts = vec!["a".to_string(), "b".to_string(), "c".to_string()];
    assert_eq!(join_strings(&parts, "::"), "a::b::c");
    assert_eq!(join_strings(&Vec::new(), "::"), "");
    let chars: Vec<char> = "#[#[x]".chars().collect();
    let pat: Vec<char> = "#[".chars().collect();
    let rest: String = trim_start_pattern(&chars, &pat).into_iter().collect();
    assert_eq!(rest, "x]");
}

use ast_tools::context::context_pack::{pack_plan, ContextPackPart};
use ast_tools::extractors::queries::{finish_query, QueryOptions, RawCapture, RawQueryMatch};
use ast_tools::shared::Position;

fn cap(name: &str, text: &str) -> RawCapture {
    RawCapture { name: name.to_string(), kind: "identifier".to_string(), start: (2, 4), end: (2, 4 + text.len()), text: text.to_string() }
}

#[test]
fn query_captures_sorted_by_name_stably() {
    let raw = vec![RawQueryMatch { pattern_index: 3, captures: vec![cap("b", "1"), cap("a", "first"), cap("a", "second")] }];
    let opts = QueryOptions { max_results: 10, include_node_text: true, max_text_bytes: 4 };
    let out = finish_query(raw, opts).expect("cuttable");
    assert_eq!(out.len(), 1);
    assert_eq!(out[0].pattern_index, Some(3));
    let names: Vec<&str> = out[0].captures.iter().map(|c| c.name.as_str()).collect();
    assert_eq!(names, vec!["a", "a", "b"]);
    assert_eq!(out[0].captures[0].text.as_deref(), Some("firs"));
    assert_eq!(out[0].captures[1].text.as_deref(), Some("seco"));
    assert_eq!(out[0].captures[0].range.start, Position { line: 2, character: 4 });
    assert_eq!(out[0].captures[0].range.end, Position { line: 2, character: 9 });
}

#[test]
fn query_results_are_limited() {
    let raw: Vec<RawQueryMatch> = (0..5).map(|i| RawQueryMatch { pattern_index: i, captures: vec![] }).collect();
    let opts = QueryOptions { max_results: 2, include_node_text: false, max_text_bytes: 0 };
    let out = finish_query(raw, opts).expect("no texts");
    assert_eq!(out.iter().map(|m| m.pattern_index).collect::<Vec<_>>(), vec![Some(0), Some(1)]);
}

#[test]
fn query_text_cut_inside_a_character_is_refused() {
    let raw = vec![RawQueryMatch { pattern_index: 0, captures: vec![cap("x", "aé")] }];
    let opts = QueryOptions { max_results: 5, include_node_text: true, max_text_bytes: 2 };
    assert!(finish_query(raw, opts).is_none());
    let raw = vec![RawQueryMatch { pattern_index: 0, captures: vec![cap("x", "aé")] }];
    let opts = QueryOptions { max_results: 5, include_node_text: false, max_text_bytes: 2 };
    assert_eq!(finish_query(raw, opts).unwrap()[0].captures[0].text, None);
}

#[test]
fn context_pack_blocks_share_the_budget() {
    let parts = [ContextPackPart::Imports, ContextPackPart::EnclosingScope, ContextPackPart::Exports, ContextPackPart::NearbyClasses, ContextPackPart::TopLevelOutline];
    let (blocks, exceeded, summaries) = pack_plan(&parts, "src/a.ts", "[\"imp\"]", "[\"exports\"]", 12);
    assert_eq!(summaries, vec![ContextPackPart::EnclosingScope, ContextPackPart::TopLevelOutline]);
    assert_eq!(blocks.len(), 2);
    assert_eq!(blocks[0].label, "imports");
    assert_eq!(blocks[0].text, "[\"imp\"]");
    assert!(!blocks[0].truncated);
    assert_eq!(blocks[1].kind, "exports");
    assert_eq!(blocks[1].text, "[\"exp");
    assert!(blocks[1].truncated);
    assert_eq!(blocks[1].file_path, "src/a.ts");
    let total: usize = blocks.iter().map(|b| b.text.len()).sum();
    assert!(total <= 12);
    assert!(!exceeded);
    let (none, _, _) = pack_plan(&parts, "a", "", "x", 0);
    assert!(none.is_empty());
}

fn var(k: &str, v: &str) -> (String, String) {
    (k.to_string(), v.to_string())
}

#[test]
fn without_ast_variables_the_defaults_hold() {
    let env = vec![var("PATH", "/bin"), var("HOME", "/root"), var("ASTX_MAX_FILE_BYTES", "1")];
    let c = from_env("/ws".to_string(), &env);
    let expected = RuntimeConfig { workspace_path: "/ws".to_string(), ..RuntimeConfig::default() };
    assert_eq!(snapshot(&c), snapshot(&expected));
    let overridden = from_env("/ws".to_string(), &vec![var("AST_MAX_FILE_BYTES", "1234")]);
    assert_eq!(overridden.limits.max_file_bytes, 1234);
}

#[test]
fn workspace_path_survives_updates() {
    let mut store = RuntimeConfigStore::new("/ws".to_string(), &vec![]);
    let mut rejected = Vec::new();
    let mut limits = no_limits();
    limits.max_file_bytes = Some(0);
    store.update(Some(limits), None, None, None, None, &mut rejected);
    store.update(None, Some(no_timeouts()), Some(no_caches()), None, None, &mut rejected);
    assert_eq!(store.workspace_path(), "/ws");
    assert_eq!(store.current().workspace_path, "/ws");
}
