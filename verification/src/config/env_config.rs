//! Environment and partial-update overrides of the runtime configuration.
use vstd::prelude::*;
use vstd::string::*;

use super::runtime_config::{
    PartialRuntimeCaches, PartialRuntimeDebug, PartialRuntimeLimits, PartialRuntimeScans,
    PartialRuntimeTimeouts, RuntimeCaches, RuntimeConfig, RuntimeDebug, RuntimeLimits,
    RuntimeScans, RuntimeTimeouts, is_default_config, same_config, strings_view,
};
use super::validate_config::{
    RejectedUpdate, limit_verdict, parallelism_verdict, rejections_view, request_log_verdict,
    timeout_verdict, validate_limit_usize, validate_parallelism, validate_request_log_entries,
    validate_timeout,
};
use crate::text::str_eq;

verus! {

broadcast use vstd::string::group_string_axioms;

// ---------------------------------------------------------------------------
// Parsing of environment values
// ---------------------------------------------------------------------------

/// The value of a non-empty string of ASCII digits, `None` if a character is not a digit.
pub open spec fn digits_value(d: Seq<char>) -> Option<nat>
    decreases d.len(),
{
    if d.len() == 0 {
        Some(0)
    } else if '0' <= d.last() && d.last() <= '9' {
        match digits_value(d.drop_last()) {
            Some(v) => Some(v * 10 + ((d.last() as nat) - ('0' as nat)) as nat),
            None => None,
        }
    } else {
        None
    }
}

/// How `str::parse` reads an unsigned integer: an optional `+`, then one or more ASCII digits.
pub open spec fn unsigned_text_value(s: Seq<char>) -> Option<nat> {
    if s.len() == 0 {
        None
    } else if s[0] == '+' {
        if s.len() == 1 { None } else { digits_value(s.drop_first()) }
    } else {
        digits_value(s)
    }
}

/// `str::parse::<usize>` as a partial function on text.
pub open spec fn parse_usize_spec(s: Seq<char>) -> Option<usize> {
    match unsigned_text_value(s) {
        Some(n) => if n <= usize::MAX { Some(n as usize) } else { None },
        None => None,
    }
}

/// `str::parse::<u64>` as a partial function on text.
pub open spec fn parse_u64_spec(s: Seq<char>) -> Option<u64> {
    match unsigned_text_value(s) {
        Some(n) => if n <= u64::MAX { Some(n as u64) } else { None },
        None => None,
    }
}

/// `str::parse::<bool>` as a partial function on text.
pub open spec fn parse_bool_spec(s: Seq<char>) -> Option<bool> {
    if s == "true"@ {
        Some(true)
    } else if s == "false"@ {
        Some(false)
    } else {
        None
    }
}

proof fn lemma_digits_value_ascii(d: Seq<char>)
    requires
        digits_value(d) is Some,
    ensures
        forall|i: int| 0 <= i < d.len() ==> '0' <= #[trigger] d[i] && d[i] <= '9',
    decreases d.len(),
{
    if d.len() > 0 {
        lemma_digits_value_ascii(d.drop_last());
        assert forall|i: int| 0 <= i < d.len() implies '0' <= #[trigger] d[i] && d[i] <= '9' by {
            if i < d.len() - 1 {
                assert(d[i] == d.drop_last()[i]);
            }
        }
    }
}

/// Parse an unsigned decimal as `str::parse::<u64>` does.
pub fn parse_u64_text(s: &str) -> (r: Option<u64>)
    ensures
        r == parse_u64_spec(s@),
{
    let n = s.unicode_len();
    if n == 0 {
        return None;
    }
    let mut start: usize = 0;
    let first = s.get_char(0);
    if first == '+' {
        if n == 1 {
            return None;
        }
        start = 1;
    }
    let ghost d = s@.subrange(start as int, n as int);
    assert(d =~= (if start == 1 { s@.drop_first() } else { s@ }));
    assert(unsigned_text_value(s@) == digits_value(d));
    let mut acc: u64 = 0;
    let mut i: usize = start;
    while i < n
        invariant
            n == s@.len(),
            start <= i <= n,
            d == s@.subrange(start as int, n as int),
            unsigned_text_value(s@) == digits_value(d),
            digits_value(s@.subrange(start as int, i as int)) == Some(acc as nat),
        decreases n - i,
    {
        let c = s.get_char(i);
        assert(s@.subrange(start as int, i + 1).drop_last() =~= s@.subrange(start as int, i as int));
        if !('0' <= c && c <= '9') {
            proof {
                if digits_value(d) is Some {
                    lemma_digits_value_ascii(d);
                    assert(d[i - start] == c);
                }
            }
            return None;
        }
        let dv = (c as u32 - '0' as u32) as u64;
        let ghost next: nat = (acc as nat) * 10 + dv as nat;
        assert(s@.subrange(start as int, i + 1).last() == c);
        assert(digits_value(s@.subrange(start as int, i + 1)) == Some(next));
        assert(d.take(i - start + 1) =~= s@.subrange(start as int, i + 1));
        let m = acc.checked_mul(10);
        match m {
            None => {
                proof { lemma_digits_value_grows(d, (i - start) as int); }
                return None;
            },
            Some(m) => {
                let a = m.checked_add(dv);
                match a {
                    None => {
                        proof { lemma_digits_value_grows(d, (i - start) as int); }
                        return None;
                    },
                    Some(a) => {
                        acc = a;
                    },
                }
            },
        }
        i = i + 1;
    }
    assert(s@.subrange(start as int, n as int) =~= d);
    Some(acc)
}

proof fn lemma_digits_value_grows(d: Seq<char>, k: int)
    requires
        0 <= k < d.len(),
        digits_value(d.take(k + 1)) is Some,
    ensures
        digits_value(d) is Some ==> digits_value(d).unwrap() >= digits_value(d.take(k + 1)).unwrap(),
    decreases d.len(),
{
    if digits_value(d) is Some && d.len() > k + 1 {
        assert(d.drop_last().take(k + 1) =~= d.take(k + 1));
        lemma_digits_value_grows(d.drop_last(), k);
    }
    if d.len() == k + 1 {
        assert(d.take(k + 1) =~= d);
    }
}

/// Parse an unsigned decimal as `str::parse::<usize>` does.
pub fn parse_usize_text(s: &str) -> (r: Option<usize>)
    ensures
        r == parse_usize_spec(s@),
{
    match parse_u64_text(s) {
        None => {
            None
        },
        Some(v) => {
            if v <= usize::MAX as u64 {
                Some(v as usize)
            } else {
                None
            }
        },
    }
}

/// Parse `true` or `false` as `str::parse::<bool>` does.
pub fn parse_bool_text(s: &str) -> (r: Option<bool>)
    ensures
        r == parse_bool_spec(s@),
{
    if str_eq(s, "true") {
        Some(true)
    } else if str_eq(s, "false") {
        Some(false)
    } else {
        None
    }
}


// ---------------------------------------------------------------------------
// Environment overrides
// ---------------------------------------------------------------------------

/// The value of the first variable named `key` in a list of environment variables.
pub open spec fn env_lookup(env: Seq<(String, String)>, key: Seq<char>) -> Option<Seq<char>>
    decreases env.len(),
{
    if env.len() == 0 {
        None
    } else if env[0].0@ == key {
        Some(env[0].1@)
    } else {
        env_lookup(env.drop_first(), key)
    }
}

/// A variable read as `usize`: absent or unparsable values give `None`.
pub open spec fn env_usize(env: Seq<(String, String)>, key: Seq<char>) -> Option<usize> {
    match env_lookup(env, key) {
        Some(v) => parse_usize_spec(v),
        None => None,
    }
}

/// A variable read as `u64`.
pub open spec fn env_u64(env: Seq<(String, String)>, key: Seq<char>) -> Option<u64> {
    match env_lookup(env, key) {
        Some(v) => parse_u64_spec(v),
        None => None,
    }
}

/// A variable read as `bool`.
pub open spec fn env_bool(env: Seq<(String, String)>, key: Seq<char>) -> Option<bool> {
    match env_lookup(env, key) {
        Some(v) => parse_bool_spec(v),
        None => None,
    }
}

/// `o` if present, else `d`.
pub open spec fn or_keep<T>(o: Option<T>, d: T) -> T {
    match o {
        Some(v) => v,
        None => d,
    }
}

/// Find the value of the first variable named `key`.
fn lookup_env<'a>(env: &'a Vec<(String, String)>, key: &str) -> (r: Option<&'a String>)
    ensures
        match r {
            Some(v) => env_lookup(env@, key@) == Some(v@),
            None => env_lookup(env@, key@) is None,
        },
{
    let mut i: usize = 0;
    assert(env@.skip(0) =~= env@);
    while i < env.len()
        invariant
            i <= env@.len(),
            env_lookup(env@, key@) == env_lookup(env@.skip(i as int), key@),
        decreases env@.len() - i,
    {
        assert(env@.skip(i as int).drop_first() =~= env@.skip(i + 1));
        if str_eq(env[i].0.as_str(), key) {
            return Some(&env[i].1);
        }
        i = i + 1;
    }
    None
}

fn env_parse_usize(env: &Vec<(String, String)>, key: &str) -> (r: Option<usize>)
    ensures
        r == env_usize(env@, key@),
{
    match lookup_env(env, key) {
        Some(v) => parse_usize_text(v.as_str()),
        None => None,
    }
}

fn env_parse_u64(env: &Vec<(String, String)>, key: &str) -> (r: Option<u64>)
    ensures
        r == env_u64(env@, key@),
{
    match lookup_env(env, key) {
        Some(v) => parse_u64_text(v.as_str()),
        None => None,
    }
}

fn env_parse_bool(env: &Vec<(String, String)>, key: &str) -> (r: Option<bool>)
    ensures
        r == env_bool(env@, key@),
{
    match lookup_env(env, key) {
        Some(v) => parse_bool_text(v.as_str()),
        None => None,
    }
}

/// The configuration after the `AST_` environment overrides: each variable that is
/// present and parses replaces its setting; everything else is kept.
pub open spec fn env_overridden(old: RuntimeConfig, new: RuntimeConfig, env: Seq<(String, String)>) -> bool {
    &&& new.workspace_path@ == old.workspace_path@
    &&& new.limits == RuntimeLimits {
        max_file_bytes: or_keep(env_usize(env, "AST_MAX_FILE_BYTES"@), old.limits.max_file_bytes),
        max_workspace_files: or_keep(env_usize(env, "AST_MAX_WORKSPACE_FILES"@), old.limits.max_workspace_files),
        max_workspace_results: or_keep(env_usize(env, "AST_MAX_WORKSPACE_RESULTS"@), old.limits.max_workspace_results),
        max_context_characters: or_keep(env_usize(env, "AST_MAX_CONTEXT_CHARACTERS"@), old.limits.max_context_characters),
        ..old.limits
    }
    &&& new.timeouts_ms == old.timeouts_ms
    &&& new.caches == RuntimeCaches {
        parse_tree_ttl_ms: or_keep(env_u64(env, "AST_PARSE_TREE_TTL_MS"@), old.caches.parse_tree_ttl_ms),
        request_log_max_entries: or_keep(env_usize(env, "AST_REQUEST_LOG_MAX_ENTRIES"@), old.caches.request_log_max_entries),
        max_cached_files: or_keep(env_usize(env, "AST_MAX_CACHED_FILES"@), old.caches.max_cached_files),
        ..old.caches
    }
    &&& new.scans.max_parallelism == or_keep(env_usize(env, "AST_MAX_PARALLELISM"@), old.scans.max_parallelism)
    &&& new.scans.respect_gitignore == or_keep(env_bool(env, "AST_RESPECT_GITIGNORE"@), old.scans.respect_gitignore)
    &&& new.scans.include_hidden == or_keep(env_bool(env, "AST_INCLUDE_HIDDEN"@), old.scans.include_hidden)
    &&& strings_view(new.scans.default_exclude_globs@) == strings_view(old.scans.default_exclude_globs@)
    &&& new.debug == RuntimeDebug {
        verbose_logging: or_keep(env_bool(env, "AST_VERBOSE_LOGGING"@), old.debug.verbose_logging),
        include_node_text_in_logs: or_keep(env_bool(env, "AST_INCLUDE_NODE_TEXT_IN_LOGS"@), old.debug.include_node_text_in_logs),
        ..old.debug
    }
}

/// Apply the `AST_` environment overrides, read from the given variables, to a configuration.
pub fn apply_env_overrides(config: &mut RuntimeConfig, env: &Vec<(String, String)>)
    ensures
        env_overridden(*old(config), *final(config), env@),
{
    let file_bytes = env_parse_usize(env, "AST_MAX_FILE_BYTES");
    let ws_files = env_parse_usize(env, "AST_MAX_WORKSPACE_FILES");
    let ws_results = env_parse_usize(env, "AST_MAX_WORKSPACE_RESULTS");
    let ctx_chars = env_parse_usize(env, "AST_MAX_CONTEXT_CHARACTERS");
    let parallelism = env_parse_usize(env, "AST_MAX_PARALLELISM");
    let gitignore = env_parse_bool(env, "AST_RESPECT_GITIGNORE");
    let hidden = env_parse_bool(env, "AST_INCLUDE_HIDDEN");
    let parse_ttl = env_parse_u64(env, "AST_PARSE_TREE_TTL_MS");
    let log_entries = env_parse_usize(env, "AST_REQUEST_LOG_MAX_ENTRIES");
    let cached_files = env_parse_usize(env, "AST_MAX_CACHED_FILES");
    let verbose = env_parse_bool(env, "AST_VERBOSE_LOGGING");
    let node_text = env_parse_bool(env, "AST_INCLUDE_NODE_TEXT_IN_LOGS");
    config.limits = RuntimeLimits {
        max_file_bytes: keep_usize(file_bytes, config.limits.max_file_bytes),
        max_workspace_files: keep_usize(ws_files, config.limits.max_workspace_files),
        max_workspace_results: keep_usize(ws_results, config.limits.max_workspace_results),
        max_context_characters: keep_usize(ctx_chars, config.limits.max_context_characters),
        ..config.limits
    };
    config.scans.max_parallelism = keep_usize(parallelism, config.scans.max_parallelism);
    config.scans.respect_gitignore = keep_bool(gitignore, config.scans.respect_gitignore);
    config.scans.include_hidden = keep_bool(hidden, config.scans.include_hidden);
    config.caches = RuntimeCaches {
        parse_tree_ttl_ms: keep_u64(parse_ttl, config.caches.parse_tree_ttl_ms),
        request_log_max_entries: keep_usize(log_entries, config.caches.request_log_max_entries),
        max_cached_files: keep_usize(cached_files, config.caches.max_cached_files),
        ..config.caches
    };
    config.debug = RuntimeDebug {
        verbose_logging: keep_bool(verbose, config.debug.verbose_logging),
        include_node_text_in_logs: keep_bool(node_text, config.debug.include_node_text_in_logs),
        ..config.debug
    };
}

fn keep_usize(o: Option<usize>, d: usize) -> (r: usize)
    ensures
        r == or_keep(o, d),
{
    match o {
        Some(v) => v,
        None => d,
    }
}

fn keep_u64(o: Option<u64>, d: u64) -> (r: u64)
    ensures
        r == or_keep(o, d),
{
    match o {
        Some(v) => v,
        None => d,
    }
}

fn keep_bool(o: Option<bool>, d: bool) -> (r: bool)
    ensures
        r == or_keep(o, d),
{
    match o {
        Some(v) => v,
        None => d,
    }
}

/// The default configuration for a workspace, with the environment overrides applied.
pub fn from_env(workspace_path: String, env: &Vec<(String, String)>) -> (r: RuntimeConfig)
    ensures
        exists|d: RuntimeConfig| is_default_config(d) && #[trigger] env_overridden(
            RuntimeConfig { workspace_path, ..d }, r, env@),
{
    let d = RuntimeConfig::default();
    let mut config = RuntimeConfig { workspace_path, ..d };
    let ghost before = config;
    apply_env_overrides(&mut config, env);
    assert(env_overridden(RuntimeConfig { workspace_path, ..d }, config, env@));
    config
}


// ---------------------------------------------------------------------------
// Partial runtime updates
// ---------------------------------------------------------------------------

/// A rejection as plain text.
pub type RejectionText = (Seq<char>, Seq<char>);

/// The rejections a verdict contributes: none, or one for `path`.
pub open spec fn verdict_rejections(verdict: Option<Seq<char>>, path: Seq<char>) -> Seq<RejectionText> {
    match verdict {
        Some(reason) => seq![(path, reason)],
        None => Seq::empty(),
    }
}

/// A setting after an optional update that a verdict may refuse.
pub open spec fn checked_after<T>(old: T, upd: Option<T>, verdict: Option<Seq<char>>) -> T {
    match upd {
        Some(v) => if verdict is None { v } else { old },
        None => old,
    }
}

/// A size limit after an optional update.
pub open spec fn limit_after(old: usize, upd: Option<usize>, path: Seq<char>) -> usize {
    match upd {
        Some(v) => checked_after(old, upd, limit_verdict(v, path)),
        None => old,
    }
}

/// The rejection an optional size-limit update produces.
pub open spec fn limit_rejections(upd: Option<usize>, path: Seq<char>) -> Seq<RejectionText> {
    match upd {
        Some(v) => verdict_rejections(limit_verdict(v, path), path),
        None => Seq::empty(),
    }
}

/// A timeout after an optional update.
pub open spec fn timeout_after(old: u64, upd: Option<u64>) -> u64 {
    match upd {
        Some(v) => checked_after(old, upd, timeout_verdict(v)),
        None => old,
    }
}

/// The rejection an optional timeout update produces.
pub open spec fn timeout_rejections(upd: Option<u64>, path: Seq<char>) -> Seq<RejectionText> {
    match upd {
        Some(v) => verdict_rejections(timeout_verdict(v), path),
        None => Seq::empty(),
    }
}

/// The parallelism after an optional update.
pub open spec fn parallelism_after(old: usize, upd: Option<usize>) -> usize {
    match upd {
        Some(v) => checked_after(old, upd, parallelism_verdict(v)),
        None => old,
    }
}

/// The rejection an optional parallelism update produces.
pub open spec fn parallelism_rejections(upd: Option<usize>, path: Seq<char>) -> Seq<RejectionText> {
    match upd {
        Some(v) => verdict_rejections(parallelism_verdict(v), path),
        None => Seq::empty(),
    }
}

/// The request-log capacity after an optional update.
pub open spec fn request_log_after(old: usize, upd: Option<usize>) -> usize {
    match upd {
        Some(v) => checked_after(old, upd, request_log_verdict(v)),
        None => old,
    }
}

/// The rejection an optional request-log update produces.
pub open spec fn request_log_rejections(upd: Option<usize>, path: Seq<char>) -> Seq<RejectionText> {
    match upd {
        Some(v) => verdict_rejections(request_log_verdict(v), path),
        None => Seq::empty(),
    }
}

fn step_limit(target: &mut usize, upd: Option<usize>, path: &str, rejected: &mut Vec<RejectedUpdate>)
    ensures
        *final(target) == limit_after(*old(target), upd, path@),
        rejections_view(final(rejected)@) == rejections_view(old(rejected)@) + limit_rejections(upd, path@),
{
    if let Some(v) = upd {
        validate_limit_usize(target, v, path, rejected);
    }
    assert(rejections_view(rejected@) =~= rejections_view(old(rejected)@) + limit_rejections(upd, path@));
}

fn step_timeout(target: &mut u64, upd: Option<u64>, path: &str, rejected: &mut Vec<RejectedUpdate>)
    ensures
        *final(target) == timeout_after(*old(target), upd),
        rejections_view(final(rejected)@) == rejections_view(old(rejected)@) + timeout_rejections(upd, path@),
{
    if let Some(v) = upd {
        validate_timeout(target, v, path, rejected);
    }
    assert(rejections_view(rejected@) =~= rejections_view(old(rejected)@) + timeout_rejections(upd, path@));
}

/// The limits after an optional partial update.
pub open spec fn limits_after(old: RuntimeLimits, upd: Option<PartialRuntimeLimits>) -> RuntimeLimits {
    match upd {
        Some(l) => RuntimeLimits {
            max_file_bytes: limit_after(old.max_file_bytes, l.max_file_bytes, "limits.max_file_bytes"@),
            max_parse_tree_nodes: limit_after(old.max_parse_tree_nodes, l.max_parse_tree_nodes, "limits.max_parse_tree_nodes"@),
            max_query_results: limit_after(old.max_query_results, l.max_query_results, "limits.max_query_results"@),
            max_workspace_files: limit_after(old.max_workspace_files, l.max_workspace_files, "limits.max_workspace_files"@),
            max_workspace_results: limit_after(old.max_workspace_results, l.max_workspace_results, "limits.max_workspace_results"@),
            max_context_characters: limit_after(old.max_context_characters, l.max_context_characters, "limits.max_context_characters"@),
            max_chunk_lines: limit_after(old.max_chunk_lines, l.max_chunk_lines, "limits.max_chunk_lines"@),
            max_changed_files: limit_after(old.max_changed_files, l.max_changed_files, "limits.max_changed_files"@),
            max_edits: limit_after(old.max_edits, l.max_edits, "limits.max_edits"@),
            max_duplicate_candidates: limit_after(old.max_duplicate_candidates, l.max_duplicate_candidates, "limits.max_duplicate_candidates"@),
        },
        None => old,
    }
}

/// The rejections an optional partial limits update produces, in field order.
pub open spec fn limits_rejections(upd: Option<PartialRuntimeLimits>) -> Seq<RejectionText> {
    match upd {
        Some(l) => limit_rejections(l.max_file_bytes, "limits.max_file_bytes"@)
            + limit_rejections(l.max_parse_tree_nodes, "limits.max_parse_tree_nodes"@)
            + limit_rejections(l.max_query_results, "limits.max_query_results"@)
            + limit_rejections(l.max_workspace_files, "limits.max_workspace_files"@)
            + limit_rejections(l.max_workspace_results, "limits.max_workspace_results"@)
            + limit_rejections(l.max_context_characters, "limits.max_context_characters"@)
            + limit_rejections(l.max_chunk_lines, "limits.max_chunk_lines"@)
            + limit_rejections(l.max_changed_files, "limits.max_changed_files"@)
            + limit_rejections(l.max_edits, "limits.max_edits"@)
            + limit_rejections(l.max_duplicate_candidates, "limits.max_duplicate_candidates"@),
        None => Seq::empty(),
    }
}

/// The timeouts after an optional partial update.
pub open spec fn timeouts_after(old: RuntimeTimeouts, upd: Option<PartialRuntimeTimeouts>) -> RuntimeTimeouts {
    match upd {
        Some(t) => RuntimeTimeouts {
            parse_file: timeout_after(old.parse_file, t.parse_file),
            query_file: timeout_after(old.query_file, t.query_file),
            query_workspace: timeout_after(old.query_workspace, t.query_workspace),
            chunk_file: timeout_after(old.chunk_file, t.chunk_file),
            framework_extraction: timeout_after(old.framework_extraction, t.framework_extraction),
            rewrite_preview: timeout_after(old.rewrite_preview, t.rewrite_preview),
            complexity_summary: timeout_after(old.complexity_summary, t.complexity_summary),
            duplicate_detection: timeout_after(old.duplicate_detection, t.duplicate_detection),
        },
        None => old,
    }
}

/// The rejections an optional partial timeouts update produces, in field order.
pub open spec fn timeouts_rejections(upd: Option<PartialRuntimeTimeouts>) -> Seq<RejectionText> {
    match upd {
        Some(t) => timeout_rejections(t.parse_file, "timeouts_ms.parse_file"@)
            + timeout_rejections(t.query_file, "timeouts_ms.query_file"@)
            + timeout_rejections(t.query_workspace, "timeouts_ms.query_workspace"@)
            + timeout_rejections(t.chunk_file, "timeouts_ms.chunk_file"@)
            + timeout_rejections(t.framework_extraction, "timeouts_ms.framework_extraction"@)
            + timeout_rejections(t.rewrite_preview, "timeouts_ms.rewrite_preview"@)
            + timeout_rejections(t.complexity_summary, "timeouts_ms.complexity_summary"@)
            + timeout_rejections(t.duplicate_detection, "timeouts_ms.duplicate_detection"@),
        None => Seq::empty(),
    }
}

/// The cache settings after an optional partial update.
pub open spec fn caches_after(old: RuntimeCaches, upd: Option<PartialRuntimeCaches>) -> RuntimeCaches {
    match upd {
        Some(c) => RuntimeCaches {
            parse_tree_ttl_ms: timeout_after(old.parse_tree_ttl_ms, c.parse_tree_ttl_ms),
            query_result_ttl_ms: timeout_after(old.query_result_ttl_ms, c.query_result_ttl_ms),
            framework_result_ttl_ms: timeout_after(old.framework_result_ttl_ms, c.framework_result_ttl_ms),
            request_log_max_entries: request_log_after(old.request_log_max_entries, c.request_log_max_entries),
            max_cached_files: limit_after(old.max_cached_files, c.max_cached_files, "caches.max_cached_files"@),
        },
        None => old,
    }
}

/// The rejections an optional partial caches update produces, in field order.
pub open spec fn caches_rejections(upd: Option<PartialRuntimeCaches>) -> Seq<RejectionText> {
    match upd {
        Some(c) => timeout_rejections(c.parse_tree_ttl_ms, "caches.parse_tree_ttl_ms"@)
            + timeout_rejections(c.query_result_ttl_ms, "caches.query_result_ttl_ms"@)
            + timeout_rejections(c.framework_result_ttl_ms, "caches.framework_result_ttl_ms"@)
            + request_log_rejections(c.request_log_max_entries, "caches.request_log_max_entries"@)
            + limit_rejections(c.max_cached_files, "caches.max_cached_files"@),
        None => Seq::empty(),
    }
}

/// The scan settings after an optional partial update (the globs are replaced whole).
pub open spec fn scans_updated(old: RuntimeScans, new: RuntimeScans, upd: Option<PartialRuntimeScans>) -> bool {
    match upd {
        Some(s) => {
            &&& new.max_parallelism == parallelism_after(old.max_parallelism, s.max_parallelism)
            &&& new.respect_gitignore == or_keep(s.respect_gitignore, old.respect_gitignore)
            &&& new.include_hidden == or_keep(s.include_hidden, old.include_hidden)
            &&& new.default_exclude_globs == or_keep(s.default_exclude_globs, old.default_exclude_globs)
        },
        None => new == old,
    }
}

/// The rejections an optional partial scans update produces.
pub open spec fn scans_rejections(upd: Option<PartialRuntimeScans>) -> Seq<RejectionText> {
    match upd {
        Some(s) => parallelism_rejections(s.max_parallelism, "scans.max_parallelism"@),
        None => Seq::empty(),
    }
}

/// The debug switches after an optional partial update.
pub open spec fn debug_after(old: RuntimeDebug, upd: Option<PartialRuntimeDebug>) -> RuntimeDebug {
    match upd {
        Some(d) => RuntimeDebug {
            verbose_logging: or_keep(d.verbose_logging, old.verbose_logging),
            include_node_text_in_logs: or_keep(d.include_node_text_in_logs, old.include_node_text_in_logs),
            include_raw_tree_debug: or_keep(d.include_raw_tree_debug, old.include_raw_tree_debug),
        },
        None => old,
    }
}

#[verifier::rlimit(40)]
fn apply_limits(target: &mut RuntimeLimits, upd: Option<PartialRuntimeLimits>, rejected: &mut Vec<RejectedUpdate>)
    ensures
        *final(target) == limits_after(*old(target), upd),
        rejections_view(final(rejected)@) == rejections_view(old(rejected)@) + limits_rejections(upd),
{
    if let Some(u) = upd {
        let ghost r0 = rejections_view(rejected@);
        let mut v0 = target.max_file_bytes;
        step_limit(&mut v0, u.max_file_bytes, "limits.max_file_bytes", rejected);
        let ghost r1 = rejections_view(rejected@);
        let mut v1 = target.max_parse_tree_nodes;
        step_limit(&mut v1, u.max_parse_tree_nodes, "limits.max_parse_tree_nodes", rejected);
        let ghost r2 = rejections_view(rejected@);
        let mut v2 = target.max_query_results;
        step_limit(&mut v2, u.max_query_results, "limits.max_query_results", rejected);
        let ghost r3 = rejections_view(rejected@);
        let mut v3 = target.max_workspace_files;
        step_limit(&mut v3, u.max_workspace_files, "limits.max_workspace_files", rejected);
        let ghost r4 = rejections_view(rejected@);
        let mut v4 = target.max_workspace_results;
        step_limit(&mut v4, u.max_workspace_results, "limits.max_workspace_results", rejected);
        let ghost r5 = rejections_view(rejected@);
        let mut v5 = target.max_context_characters;
        step_limit(&mut v5, u.max_context_characters, "limits.max_context_characters", rejected);
        let ghost r6 = rejections_view(rejected@);
        let mut v6 = target.max_chunk_lines;
        step_limit(&mut v6, u.max_chunk_lines, "limits.max_chunk_lines", rejected);
        let ghost r7 = rejections_view(rejected@);
        let mut v7 = target.max_changed_files;
        step_limit(&mut v7, u.max_changed_files, "limits.max_changed_files", rejected);
        let ghost r8 = rejections_view(rejected@);
        let mut v8 = target.max_edits;
        step_limit(&mut v8, u.max_edits, "limits.max_edits", rejected);
        let ghost r9 = rejections_view(rejected@);
        let mut v9 = target.max_duplicate_candidates;
        step_limit(&mut v9, u.max_duplicate_candidates, "limits.max_duplicate_candidates", rejected);
        let ghost r10 = rejections_view(rejected@);
        *target = RuntimeLimits {
            max_file_bytes: v0,
            max_parse_tree_nodes: v1,
            max_query_results: v2,
            max_workspace_files: v3,
            max_workspace_results: v4,
            max_context_characters: v5,
            max_chunk_lines: v6,
            max_changed_files: v7,
            max_edits: v8,
            max_duplicate_candidates: v9,
        };
        assert(r10 =~= r0 + limits_rejections(upd));
    }
    assert(rejections_view(rejected@) =~= rejections_view(old(rejected)@) + limits_rejections(upd));
}

#[verifier::rlimit(100)]
#[verifier::spinoff_prover]
fn apply_timeouts(target: &mut RuntimeTimeouts, upd: Option<PartialRuntimeTimeouts>, rejected: &mut Vec<RejectedUpdate>)
    ensures
        *final(target) == timeouts_after(*old(target), upd),
        rejections_view(final(rejected)@) == rejections_view(old(rejected)@) + timeouts_rejections(upd),
{
    if let Some(u) = upd {
        let ghost r0 = rejections_view(rejected@);
        let mut v0 = target.parse_file;
        step_timeout(&mut v0, u.parse_file, "timeouts_ms.parse_file", rejected);
        let ghost r1 = rejections_view(rejected@);
        let mut v1 = target.query_file;
        step_timeout(&mut v1, u.query_file, "timeouts_ms.query_file", rejected);
        let ghost r2 = rejections_view(rejected@);
        let mut v2 = target.query_workspace;
        step_timeout(&mut v2, u.query_workspace, "timeouts_ms.query_workspace", rejected);
        let ghost r3 = rejections_view(rejected@);
        let mut v3 = target.chunk_file;
        step_timeout(&mut v3, u.chunk_file, "timeouts_ms.chunk_file", rejected);
        let ghost r4 = rejections_view(rejected@);
        let mut v4 = target.framework_extraction;
        step_timeout(&mut v4, u.framework_extraction, "timeouts_ms.framework_extraction", rejected);
        let ghost r5 = rejections_view(rejected@);
        let mut v5 = target.rewrite_preview;
        step_timeout(&mut v5, u.rewrite_preview, "timeouts_ms.rewrite_preview", rejected);
        let ghost r6 = rejections_view(rejected@);
        let mut v6 = target.complexity_summary;
        step_timeout(&mut v6, u.complexity_summary, "timeouts_ms.complexity_summary", rejected);
        let ghost r7 = rejections_view(rejected@);
        let mut v7 = target.duplicate_detection;
        step_timeout(&mut v7, u.duplicate_detection, "timeouts_ms.duplicate_detection", rejected);
        let ghost r8 = rejections_view(rejected@);
        *target = RuntimeTimeouts {
            parse_file: v0,
            query_file: v1,
            query_workspace: v2,
            chunk_file: v3,
            framework_extraction: v4,
            rewrite_preview: v5,
            complexity_summary: v6,
            duplicate_detection: v7,
        };
        assert(r8 =~= r0 + timeouts_rejections(upd));
    }
    assert(rejections_view(rejected@) =~= rejections_view(old(rejected)@) + timeouts_rejections(upd));
}

fn apply_caches(target: &mut RuntimeCaches, upd: Option<PartialRuntimeCaches>, rejected: &mut Vec<RejectedUpdate>)
    ensures
        *final(target) == caches_after(*old(target), upd),
        rejections_view(final(rejected)@) == rejections_view(old(rejected)@) + caches_rejections(upd),
{
    if let Some(c) = upd {
        step_timeout(&mut target.parse_tree_ttl_ms, c.parse_tree_ttl_ms, "caches.parse_tree_ttl_ms", rejected);
        step_timeout(&mut target.query_result_ttl_ms, c.query_result_ttl_ms, "caches.query_result_ttl_ms", rejected);
        step_timeout(&mut target.framework_result_ttl_ms, c.framework_result_ttl_ms,
            "caches.framework_result_ttl_ms", rejected);
        let ghost mid = rejections_view(rejected@);
        if let Some(v) = c.request_log_max_entries {
            validate_request_log_entries(&mut target.request_log_max_entries, v,
                "caches.request_log_max_entries", rejected);
        }
        assert(rejections_view(rejected@) =~= mid + request_log_rejections(c.request_log_max_entries,
            "caches.request_log_max_entries"@));
        step_limit(&mut target.max_cached_files, c.max_cached_files, "caches.max_cached_files", rejected);
    }
    assert(rejections_view(rejected@) =~= rejections_view(old(rejected)@) + caches_rejections(upd));
}

fn apply_scans(target: &mut RuntimeScans, upd: Option<PartialRuntimeScans>, rejected: &mut Vec<RejectedUpdate>)
    ensures
        scans_updated(*old(target), *final(target), upd),
        rejections_view(final(rejected)@) == rejections_view(old(rejected)@) + scans_rejections(upd),
{
    if let Some(s) = upd {
        if let Some(v) = s.max_parallelism {
            validate_parallelism(&mut target.max_parallelism, v, "scans.max_parallelism", rejected);
        }
        if let Some(v) = s.respect_gitignore {
            target.respect_gitignore = v;
        }
        if let Some(v) = s.include_hidden {
            target.include_hidden = v;
        }
        if let Some(v) = s.default_exclude_globs {
            target.default_exclude_globs = v;
        }
    }
    assert(rejections_view(rejected@) =~= rejections_view(old(rejected)@) + scans_rejections(upd));
}

fn apply_debug(target: &mut RuntimeDebug, upd: Option<PartialRuntimeDebug>)
    ensures
        *final(target) == debug_after(*old(target), upd),
{
    if let Some(d) = upd {
        if let Some(v) = d.verbose_logging {
            target.verbose_logging = v;
        }
        if let Some(v) = d.include_node_text_in_logs {
            target.include_node_text_in_logs = v;
        }
        if let Some(v) = d.include_raw_tree_debug {
            target.include_raw_tree_debug = v;
        }
    }
}

/// All rejections a partial update produces, section by section in field order.
pub open spec fn partial_rejections(
    limits: Option<PartialRuntimeLimits>,
    timeouts_ms: Option<PartialRuntimeTimeouts>,
    caches: Option<PartialRuntimeCaches>,
    scans: Option<PartialRuntimeScans>,
) -> Seq<RejectionText> {
    limits_rejections(limits) + timeouts_rejections(timeouts_ms) + caches_rejections(caches)
        + scans_rejections(scans)
}

/// The configuration after a partial update.
pub open spec fn partially_updated(
    old: RuntimeConfig,
    new: RuntimeConfig,
    limits: Option<PartialRuntimeLimits>,
    timeouts_ms: Option<PartialRuntimeTimeouts>,
    caches: Option<PartialRuntimeCaches>,
    scans: Option<PartialRuntimeScans>,
    debug: Option<PartialRuntimeDebug>,
) -> bool {
    &&& new.workspace_path == old.workspace_path
    &&& new.limits == limits_after(old.limits, limits)
    &&& new.timeouts_ms == timeouts_after(old.timeouts_ms, timeouts_ms)
    &&& new.caches == caches_after(old.caches, caches)
    &&& scans_updated(old.scans, new.scans, scans)
    &&& new.debug == debug_after(old.debug, debug)
}

/// Apply partial runtime overrides to a configuration. Every accepted value replaces its
/// setting; every refused one leaves it and is reported, in section and field order.
pub fn apply_partial(
    config: &mut RuntimeConfig,
    limits: Option<PartialRuntimeLimits>,
    timeouts_ms: Option<PartialRuntimeTimeouts>,
    caches: Option<PartialRuntimeCaches>,
    scans: Option<PartialRuntimeScans>,
    debug: Option<PartialRuntimeDebug>,
) -> (rejected: Vec<RejectedUpdate>)
    ensures
        partially_updated(*old(config), *final(config), limits, timeouts_ms, caches, scans, debug),
        rejections_view(rejected@) == partial_rejections(limits, timeouts_ms, caches, scans),
{
    let ghost scans_in = scans;
    let mut rejected: Vec<RejectedUpdate> = Vec::new();
    assert(rejections_view(rejected@) =~= Seq::empty());
    apply_limits(&mut config.limits, limits, &mut rejected);
    apply_timeouts(&mut config.timeouts_ms, timeouts_ms, &mut rejected);
    apply_caches(&mut config.caches, caches, &mut rejected);
    apply_scans(&mut config.scans, scans, &mut rejected);
    apply_debug(&mut config.debug, debug);
    assert(rejections_view(rejected@) =~= partial_rejections(limits, timeouts_ms, caches, scans_in));
    rejected
}


/// A partial update that holds no section leaves the configuration as it is and refuses
/// nothing.
pub proof fn law_empty_update_changes_nothing(old: RuntimeConfig, new: RuntimeConfig)
    requires
        partially_updated(old, new, None, None, None, None, None),
    ensures
        new == old,
        partial_rejections(None, None, None, None).len() == 0,
{
    assert(partial_rejections(None, None, None, None) =~= Seq::<RejectionText>::empty());
}

/// Applying the same partial update a second time changes nothing more: each accepted
/// value is already in place and each refused one is refused again.
pub proof fn law_update_is_idempotent(
    old: RuntimeConfig,
    once: RuntimeConfig,
    twice: RuntimeConfig,
    limits: Option<PartialRuntimeLimits>,
    timeouts_ms: Option<PartialRuntimeTimeouts>,
    caches: Option<PartialRuntimeCaches>,
    scans: Option<PartialRuntimeScans>,
    debug: Option<PartialRuntimeDebug>,
)
    requires
        partially_updated(old, once, limits, timeouts_ms, caches, scans, debug),
        partially_updated(once, twice, limits, timeouts_ms, caches, scans, debug),
    ensures
        twice == once,
{
}

/// A size-limit value is refused, with one rejection for its path, exactly when it is
/// out of bounds; a refused value leaves the setting, an accepted one replaces it.
pub proof fn law_limit_update(old: usize, value: usize, path: Seq<char>)
    ensures
        limit_rejections(Some(value), path).len() == (if limit_verdict(value, path) is Some { 1int } else { 0int }),
        limit_verdict(value, path) is Some ==> limit_after(old, Some(value), path) == old,
        limit_verdict(value, path) is None ==> limit_after(old, Some(value), path) == value,
{
}

/// A timeout value is refused, with one rejection, exactly when it is out of bounds; a
/// refused value leaves the setting, an accepted one replaces it.
pub proof fn law_timeout_update(old: u64, value: u64, path: Seq<char>)
    ensures
        timeout_rejections(Some(value), path).len() == (if timeout_verdict(value) is Some { 1int } else { 0int }),
        timeout_verdict(value) is Some ==> timeout_after(old, Some(value)) == old,
        timeout_verdict(value) is None ==> timeout_after(old, Some(value)) == value,
{
}

/// A parallelism value is refused, with one rejection, exactly when it is out of bounds;
/// a refused value leaves the setting, an accepted one replaces it.
pub proof fn law_parallelism_update(old: usize, value: usize, path: Seq<char>)
    ensures
        parallelism_rejections(Some(value), path).len() == (if parallelism_verdict(value) is Some { 1int } else { 0int }),
        parallelism_verdict(value) is Some ==> parallelism_after(old, Some(value)) == old,
        parallelism_verdict(value) is None ==> parallelism_after(old, Some(value)) == value,
{
}

/// A request-log capacity is refused, with one rejection, exactly when it is out of
/// bounds; a refused value leaves the setting, an accepted one replaces it.
pub proof fn law_request_log_update(old: usize, value: usize, path: Seq<char>)
    ensures
        request_log_rejections(Some(value), path).len() == (if request_log_verdict(value) is Some { 1int } else { 0int }),
        request_log_verdict(value) is Some ==> request_log_after(old, Some(value)) == old,
        request_log_verdict(value) is None ==> request_log_after(old, Some(value)) == value,
{
}


/// Whether no variable's name starts with `AST_`.
pub open spec fn no_ast_variables(env: Seq<(String, String)>) -> bool {
    forall|i: int| 0 <= i < env.len() ==> !((#[trigger] env[i]).0@.len() >= 4 && env[i].0@.take(4) == "AST_"@)
}

proof fn lemma_lookup_absent(env: Seq<(String, String)>, key: Seq<char>)
    requires
        forall|i: int| 0 <= i < env.len() ==> (#[trigger] env[i]).0@ != key,
    ensures
        env_lookup(env, key) is None,
    decreases env.len(),
{
    if env.len() > 0 {
        assert(env[0].0@ != key);
        assert forall|i: int| 0 <= i < env.drop_first().len() implies (#[trigger] env.drop_first()[i]).0@ != key by {
            assert(env.drop_first()[i] == env[i + 1]);
        }
        lemma_lookup_absent(env.drop_first(), key);
    }
}

proof fn lemma_ast_key_absent(env: Seq<(String, String)>, key: Seq<char>)
    requires
        no_ast_variables(env),
        key.len() >= 4,
        key.take(4) == "AST_"@,
    ensures
        env_lookup(env, key) is None,
{
    assert forall|i: int| 0 <= i < env.len() implies (#[trigger] env[i]).0@ != key by {
        if env[i].0@ == key {
            assert(!(env[i].0@.len() >= 4 && env[i].0@.take(4) == "AST_"@));
        }
    }
    lemma_lookup_absent(env, key);
}

/// Only `AST_` variables override settings: with none of them set, the overridden
/// configuration holds the same settings as the one it started from. So `from_env` and
/// `RuntimeConfigStore::new` then give the defaults with the workspace path.
pub proof fn law_no_ast_variables_keep_settings(old: RuntimeConfig, new: RuntimeConfig, env: Seq<(String, String)>)
    requires
        env_overridden(old, new, env),
        no_ast_variables(env),
    ensures
        same_config(new, old),
{
    reveal_strlit("AST_");
    reveal_strlit("AST_MAX_FILE_BYTES");
    assert("AST_MAX_FILE_BYTES"@.take(4) =~= "AST_"@);
    lemma_ast_key_absent(env, "AST_MAX_FILE_BYTES"@);
    reveal_strlit("AST_MAX_WORKSPACE_FILES");
    assert("AST_MAX_WORKSPACE_FILES"@.take(4) =~= "AST_"@);
    lemma_ast_key_absent(env, "AST_MAX_WORKSPACE_FILES"@);
    reveal_strlit("AST_MAX_WORKSPACE_RESULTS");
    assert("AST_MAX_WORKSPACE_RESULTS"@.take(4) =~= "AST_"@);
    lemma_ast_key_absent(env, "AST_MAX_WORKSPACE_RESULTS"@);
    reveal_strlit("AST_MAX_CONTEXT_CHARACTERS");
    assert("AST_MAX_CONTEXT_CHARACTERS"@.take(4) =~= "AST_"@);
    lemma_ast_key_absent(env, "AST_MAX_CONTEXT_CHARACTERS"@);
    reveal_strlit("AST_MAX_PARALLELISM");
    assert("AST_MAX_PARALLELISM"@.take(4) =~= "AST_"@);
    lemma_ast_key_absent(env, "AST_MAX_PARALLELISM"@);
    reveal_strlit("AST_RESPECT_GITIGNORE");
    assert("AST_RESPECT_GITIGNORE"@.take(4) =~= "AST_"@);
    lemma_ast_key_absent(env, "AST_RESPECT_GITIGNORE"@);
    reveal_strlit("AST_INCLUDE_HIDDEN");
    assert("AST_INCLUDE_HIDDEN"@.take(4) =~= "AST_"@);
    lemma_ast_key_absent(env, "AST_INCLUDE_HIDDEN"@);
    reveal_strlit("AST_PARSE_TREE_TTL_MS");
    assert("AST_PARSE_TREE_TTL_MS"@.take(4) =~= "AST_"@);
    lemma_ast_key_absent(env, "AST_PARSE_TREE_TTL_MS"@);
    reveal_strlit("AST_REQUEST_LOG_MAX_ENTRIES");
    assert("AST_REQUEST_LOG_MAX_ENTRIES"@.take(4) =~= "AST_"@);
    lemma_ast_key_absent(env, "AST_REQUEST_LOG_MAX_ENTRIES"@);
    reveal_strlit("AST_MAX_CACHED_FILES");
    assert("AST_MAX_CACHED_FILES"@.take(4) =~= "AST_"@);
    lemma_ast_key_absent(env, "AST_MAX_CACHED_FILES"@);
    reveal_strlit("AST_VERBOSE_LOGGING");
    assert("AST_VERBOSE_LOGGING"@.take(4) =~= "AST_"@);
    lemma_ast_key_absent(env, "AST_VERBOSE_LOGGING"@);
    reveal_strlit("AST_INCLUDE_NODE_TEXT_IN_LOGS");
    assert("AST_INCLUDE_NODE_TEXT_IN_LOGS"@.take(4) =~= "AST_"@);
    lemma_ast_key_absent(env, "AST_INCLUDE_NODE_TEXT_IN_LOGS"@);
}

/// Whether `new` follows `old` by some partial update.
pub open spec fn is_partial_update(old: RuntimeConfig, new: RuntimeConfig) -> bool {
    exists|l: Option<PartialRuntimeLimits>, t: Option<PartialRuntimeTimeouts>, c: Option<PartialRuntimeCaches>,
        s: Option<PartialRuntimeScans>, d: Option<PartialRuntimeDebug>|
        #[trigger] partially_updated(old, new, l, t, c, s, d)
}

/// The workspace path survives any sequence of runtime updates: along a chain of
/// configurations each of which follows the one before by a partial update, every one
/// has the workspace path of the first.
pub proof fn law_workspace_path_survives_updates(cs: Seq<RuntimeConfig>)
    requires
        forall|i: int| 0 <= i < cs.len() - 1 ==> is_partial_update(#[trigger] cs[i], cs[i + 1]),
    ensures
        forall|i: int| 0 <= i < cs.len() ==> (#[trigger] cs[i]).workspace_path == cs[0].workspace_path,
    decreases cs.len(),
{
    if cs.len() > 1 {
        let init = cs.drop_last();
        assert forall|i: int| 0 <= i < init.len() - 1 implies is_partial_update(#[trigger] init[i], init[i + 1]) by {
            assert(init[i] == cs[i] && init[i + 1] == cs[i + 1]);
            assert(is_partial_update(cs[i], cs[i + 1]));
        }
        law_workspace_path_survives_updates(init);
        let k = cs.len() - 2;
        assert(is_partial_update(cs[k], cs[k + 1]));
        assert(init[k] == cs[k]);
        assert forall|i: int| 0 <= i < cs.len() implies (#[trigger] cs[i]).workspace_path == cs[0].workspace_path by {
            if i < cs.len() - 1 {
                assert(init[i] == cs[i]);
            }
        }
    }
}

} // verus!
