//! Runtime configuration: its sections, their defaults, hard ceilings and the store.
use vstd::prelude::*;

use super::env_config::{apply_env_overrides, apply_partial, env_overridden, is_partial_update, law_workspace_path_survives_updates, partial_rejections, partially_updated};
use super::validate_config::{RejectedUpdate, rejections_view};

verus! {

/// Hard ceiling on `limits.max_file_bytes`.
pub const HARD_MAX_FILE_BYTES: usize = 50_000_000;
/// Hard ceiling on `scans.max_parallelism`.
pub const HARD_MAX_PARALLELISM: usize = 64;
/// Hard ceiling on `caches.request_log_max_entries`.
pub const HARD_MAX_REQUEST_LOG_ENTRIES: usize = 10_000;

/// Size and count limits.
#[derive(Debug, Clone, Copy, PartialEq, Eq, Structural)]
pub struct RuntimeLimits {
    pub max_file_bytes: usize,
    pub max_parse_tree_nodes: usize,
    pub max_query_results: usize,
    pub max_workspace_files: usize,
    pub max_workspace_results: usize,
    pub max_context_characters: usize,
    pub max_chunk_lines: usize,
    pub max_changed_files: usize,
    pub max_edits: usize,
    pub max_duplicate_candidates: usize,
}

/// Per-operation timeouts in milliseconds.
#[derive(Debug, Clone, Copy, PartialEq, Eq, Structural)]
pub struct RuntimeTimeouts {
    pub parse_file: u64,
    pub query_file: u64,
    pub query_workspace: u64,
    pub chunk_file: u64,
    pub framework_extraction: u64,
    pub rewrite_preview: u64,
    pub complexity_summary: u64,
    pub duplicate_detection: u64,
}

/// Cache lifetimes and capacities.
#[derive(Debug, Clone, Copy, PartialEq, Eq, Structural)]
pub struct RuntimeCaches {
    pub parse_tree_ttl_ms: u64,
    pub query_result_ttl_ms: u64,
    pub framework_result_ttl_ms: u64,
    pub request_log_max_entries: usize,
    pub max_cached_files: usize,
}

/// Workspace scanning settings.
#[derive(Debug)]
pub struct RuntimeScans {
    pub max_parallelism: usize,
    pub respect_gitignore: bool,
    pub include_hidden: bool,
    pub default_exclude_globs: Vec<String>,
}

/// Debugging switches.
#[derive(Debug, Clone, Copy, PartialEq, Eq, Structural)]
pub struct RuntimeDebug {
    pub verbose_logging: bool,
    pub include_node_text_in_logs: bool,
    pub include_raw_tree_debug: bool,
}

/// The whole runtime configuration.
#[derive(Debug)]
pub struct RuntimeConfig {
    pub workspace_path: String,
    pub limits: RuntimeLimits,
    pub timeouts_ms: RuntimeTimeouts,
    pub caches: RuntimeCaches,
    pub scans: RuntimeScans,
    pub debug: RuntimeDebug,
}

/// Partial update of the limits section.
#[derive(Debug, Clone, Copy, PartialEq, Eq, Structural)]
pub struct PartialRuntimeLimits {
    pub max_file_bytes: Option<usize>,
    pub max_parse_tree_nodes: Option<usize>,
    pub max_query_results: Option<usize>,
    pub max_workspace_files: Option<usize>,
    pub max_workspace_results: Option<usize>,
    pub max_context_characters: Option<usize>,
    pub max_chunk_lines: Option<usize>,
    pub max_changed_files: Option<usize>,
    pub max_edits: Option<usize>,
    pub max_duplicate_candidates: Option<usize>,
}

/// Partial update of the timeouts section.
#[derive(Debug, Clone, Copy, PartialEq, Eq, Structural)]
pub struct PartialRuntimeTimeouts {
    pub parse_file: Option<u64>,
    pub query_file: Option<u64>,
    pub query_workspace: Option<u64>,
    pub chunk_file: Option<u64>,
    pub framework_extraction: Option<u64>,
    pub rewrite_preview: Option<u64>,
    pub complexity_summary: Option<u64>,
    pub duplicate_detection: Option<u64>,
}

/// Partial update of the caches section.
#[derive(Debug, Clone, Copy, PartialEq, Eq, Structural)]
pub struct PartialRuntimeCaches {
    pub parse_tree_ttl_ms: Option<u64>,
    pub query_result_ttl_ms: Option<u64>,
    pub framework_result_ttl_ms: Option<u64>,
    pub request_log_max_entries: Option<usize>,
    pub max_cached_files: Option<usize>,
}

/// Partial update of the scans section.
#[derive(Debug)]
pub struct PartialRuntimeScans {
    pub max_parallelism: Option<usize>,
    pub respect_gitignore: Option<bool>,
    pub include_hidden: Option<bool>,
    pub default_exclude_globs: Option<Vec<String>>,
}

/// Partial update of the debug section.
#[derive(Debug, Clone, Copy, PartialEq, Eq, Structural)]
pub struct PartialRuntimeDebug {
    pub verbose_logging: Option<bool>,
    pub include_node_text_in_logs: Option<bool>,
    pub include_raw_tree_debug: Option<bool>,
}

/// A refused update as reported to clients.
#[derive(Debug)]
pub struct RejectedConfigUpdate {
    pub path: String,
    pub reason: String,
}

/// The default limits.
pub open spec fn default_limits() -> RuntimeLimits {
    RuntimeLimits {
        max_file_bytes: 1_048_576,
        max_parse_tree_nodes: 200_000,
        max_query_results: 1_000,
        max_workspace_files: 500,
        max_workspace_results: 5_000,
        max_context_characters: 20_000,
        max_chunk_lines: 160,
        max_changed_files: 100,
        max_edits: 1_000,
        max_duplicate_candidates: 200,
    }
}

/// The default timeouts.
pub open spec fn default_timeouts() -> RuntimeTimeouts {
    RuntimeTimeouts {
        parse_file: 5_000,
        query_file: 5_000,
        query_workspace: 30_000,
        chunk_file: 10_000,
        framework_extraction: 30_000,
        rewrite_preview: 10_000,
        complexity_summary: 30_000,
        duplicate_detection: 60_000,
    }
}

/// The default cache settings.
pub open spec fn default_caches() -> RuntimeCaches {
    RuntimeCaches {
        parse_tree_ttl_ms: 300_000,
        query_result_ttl_ms: 120_000,
        framework_result_ttl_ms: 120_000,
        request_log_max_entries: 500,
        max_cached_files: 1_000,
    }
}

/// The default debug switches.
pub open spec fn default_debug() -> RuntimeDebug {
    RuntimeDebug { verbose_logging: false, include_node_text_in_logs: false, include_raw_tree_debug: false }
}

/// The default exclude globs, in order.
pub open spec fn default_globs() -> Seq<Seq<char>> {
    seq![
        "**/node_modules/**"@,
        "**/.git/**"@,
        "**/dist/**"@,
        "**/build/**"@,
        "**/target/**"@,
        "**/.venv/**"@,
        "**/__pycache__/**"@
    ]
}

/// The text of a list of strings.
pub open spec fn strings_view(v: Seq<String>) -> Seq<Seq<char>> {
    v.map_values(|s: String| s@)
}

/// The default scan settings.
pub open spec fn is_default_scans(s: RuntimeScans) -> bool {
    &&& s.max_parallelism == 8
    &&& s.respect_gitignore
    &&& !s.include_hidden
    &&& strings_view(s.default_exclude_globs@) == default_globs()
}

/// The default configuration, with an empty workspace path.
pub open spec fn is_default_config(c: RuntimeConfig) -> bool {
    &&& c.workspace_path@ == Seq::<char>::empty()
    &&& c.limits == default_limits()
    &&& c.timeouts_ms == default_timeouts()
    &&& c.caches == default_caches()
    &&& is_default_scans(c.scans)
    &&& c.debug == default_debug()
}

/// Two configurations hold the same settings.
pub open spec fn same_config(a: RuntimeConfig, b: RuntimeConfig) -> bool {
    &&& a.workspace_path@ == b.workspace_path@
    &&& a.limits == b.limits
    &&& a.timeouts_ms == b.timeouts_ms
    &&& a.caches == b.caches
    &&& a.scans.max_parallelism == b.scans.max_parallelism
    &&& a.scans.respect_gitignore == b.scans.respect_gitignore
    &&& a.scans.include_hidden == b.scans.include_hidden
    &&& strings_view(a.scans.default_exclude_globs@) == strings_view(b.scans.default_exclude_globs@)
    &&& a.debug == b.debug
}

impl Default for RuntimeLimits {
    fn default() -> (r: Self)
        ensures
            r == default_limits(),
    {
        RuntimeLimits {
            max_file_bytes: 1_048_576,
            max_parse_tree_nodes: 200_000,
            max_query_results: 1_000,
            max_workspace_files: 500,
            max_workspace_results: 5_000,
            max_context_characters: 20_000,
            max_chunk_lines: 160,
            max_changed_files: 100,
            max_edits: 1_000,
            max_duplicate_candidates: 200,
        }
    }
}

impl Default for RuntimeTimeouts {
    fn default() -> (r: Self)
        ensures
            r == default_timeouts(),
    {
        RuntimeTimeouts {
            parse_file: 5_000,
            query_file: 5_000,
            query_workspace: 30_000,
            chunk_file: 10_000,
            framework_extraction: 30_000,
            rewrite_preview: 10_000,
            complexity_summary: 30_000,
            duplicate_detection: 60_000,
        }
    }
}

impl Default for RuntimeCaches {
    fn default() -> (r: Self)
        ensures
            r == default_caches(),
    {
        RuntimeCaches {
            parse_tree_ttl_ms: 300_000,
            query_result_ttl_ms: 120_000,
            framework_result_ttl_ms: 120_000,
            request_log_max_entries: 500,
            max_cached_files: 1_000,
        }
    }
}

impl Default for RuntimeScans {
    fn default() -> (r: Self)
        ensures
            is_default_scans(r),
    {
        let mut globs: Vec<String> = Vec::new();
        globs.push("**/node_modules/**".to_owned());
        globs.push("**/.git/**".to_owned());
        globs.push("**/dist/**".to_owned());
        globs.push("**/build/**".to_owned());
        globs.push("**/target/**".to_owned());
        globs.push("**/.venv/**".to_owned());
        globs.push("**/__pycache__/**".to_owned());
        let r = RuntimeScans {
            max_parallelism: 8,
            respect_gitignore: true,
            include_hidden: false,
            default_exclude_globs: globs,
        };
        assert(strings_view(r.default_exclude_globs@) =~= default_globs());
        r
    }
}

impl Default for RuntimeDebug {
    fn default() -> (r: Self)
        ensures
            r == default_debug(),
    {
        RuntimeDebug { verbose_logging: false, include_node_text_in_logs: false, include_raw_tree_debug: false }
    }
}

impl Default for RuntimeConfig {
    fn default() -> (r: Self)
        ensures
            is_default_config(r),
    {
        RuntimeConfig {
            workspace_path: String::new(),
            limits: RuntimeLimits::default(),
            timeouts_ms: RuntimeTimeouts::default(),
            caches: RuntimeCaches::default(),
            scans: RuntimeScans::default(),
            debug: RuntimeDebug::default(),
        }
    }
}

/// A copy of a list of strings.
pub fn copy_strings(v: &Vec<String>) -> (r: Vec<String>)
    ensures
        strings_view(r@) == strings_view(v@),
{
    let mut r: Vec<String> = Vec::new();
    let mut i: usize = 0;
    while i < v.len()
        invariant
            i <= v@.len(),
            r@.len() == i,
            forall|j: int| 0 <= j < i ==> #[trigger] r@[j]@ == v@[j]@,
        decreases v@.len() - i,
    {
        r.push(v[i].clone());
        i = i + 1;
    }
    assert(strings_view(r@) =~= strings_view(v@));
    r
}

impl RuntimeConfig {
    /// A deep copy of the configuration.
    pub fn copy(&self) -> (r: Self)
        ensures
            same_config(r, *self),
    {
        RuntimeConfig {
            workspace_path: self.workspace_path.clone(),
            limits: self.limits,
            timeouts_ms: self.timeouts_ms,
            caches: self.caches,
            scans: RuntimeScans {
                max_parallelism: self.scans.max_parallelism,
                respect_gitignore: self.scans.respect_gitignore,
                include_hidden: self.scans.include_hidden,
                default_exclude_globs: copy_strings(&self.scans.default_exclude_globs),
            },
            debug: self.debug,
        }
    }
}


impl From<RejectedUpdate> for RejectedConfigUpdate {
    fn from(r: RejectedUpdate) -> (res: Self) {
        RejectedConfigUpdate { path: r.path, reason: r.reason }
    }
}

impl vstd::std_specs::convert::FromSpecImpl<RejectedUpdate> for RejectedConfigUpdate {
    open spec fn obeys_from_spec() -> bool {
        true
    }

    open spec fn from_spec(r: RejectedUpdate) -> Self {
        RejectedConfigUpdate { path: r.path, reason: r.reason }
    }
}

/// A client-facing rejection as plain text.
pub open spec fn config_rejections_view(v: Seq<RejectedConfigUpdate>) -> Seq<(Seq<char>, Seq<char>)> {
    v.map_values(|r: RejectedConfigUpdate| (r.path@, r.reason@))
}

/// The live configuration together with the defaults and the environment-derived baseline.
pub struct RuntimeConfigStore {
    config: RuntimeConfig,
    defaults: RuntimeConfig,
    env_overrides: RuntimeConfig,
}

impl RuntimeConfigStore {
    /// The live configuration.
    pub closed spec fn live(&self) -> RuntimeConfig {
        self.config
    }

    /// The defaults the store was built from.
    pub closed spec fn defaults_view(&self) -> RuntimeConfig {
        self.defaults
    }

    /// The defaults with the environment overrides applied.
    pub closed spec fn env_view(&self) -> RuntimeConfig {
        self.env_overrides
    }

    /// Build a store for a workspace: the live configuration starts as the defaults
    /// with the workspace path and the environment overrides applied.
    pub fn new(workspace_path: String, env: &Vec<(String, String)>) -> (r: Self)
        ensures
            is_default_config(r.defaults_view()),
            env_overridden(RuntimeConfig { workspace_path, ..r.defaults_view() }, r.env_view(), env@),
            same_config(r.live(), r.env_view()),
            r.live().workspace_path@ == workspace_path@,
    {
        let defaults = RuntimeConfig::default();
        let mut env_overrides = defaults.copy();
        env_overrides.workspace_path = workspace_path.clone();
        let ghost start = env_overrides;
        apply_env_overrides(&mut env_overrides, env);
        let mut config = env_overrides.copy();
        config.workspace_path = workspace_path;
        let r = RuntimeConfigStore { config, defaults, env_overrides };
        assert(env_overridden(RuntimeConfig { workspace_path, ..r.defaults }, r.env_overrides, env@)) by {
            assert(start.workspace_path@ == workspace_path@);
        }
        r
    }

    /// A copy of the live configuration.
    pub fn current(&self) -> (r: RuntimeConfig)
        ensures
            same_config(r, self.live()),
    {
        self.config.copy()
    }

    /// The workspace path of the live configuration.
    pub fn workspace_path(&self) -> (r: String)
        ensures
            r@ == self.live().workspace_path@,
    {
        self.config.workspace_path.clone()
    }

    /// Apply a partial update to the live configuration; refused values are appended to
    /// `rejected`. Always returns `true`.
    pub fn update(
        &mut self,
        limits: Option<PartialRuntimeLimits>,
        timeouts_ms: Option<PartialRuntimeTimeouts>,
        caches: Option<PartialRuntimeCaches>,
        scans: Option<PartialRuntimeScans>,
        debug: Option<PartialRuntimeDebug>,
        rejected: &mut Vec<RejectedConfigUpdate>,
    ) -> (r: bool)
        ensures
            r,
            partially_updated(old(self).live(), final(self).live(), limits, timeouts_ms, caches, scans, debug),
            is_partial_update(old(self).live(), final(self).live()),
            final(self).defaults_view() == old(self).defaults_view(),
            final(self).env_view() == old(self).env_view(),
            config_rejections_view(final(rejected)@) == config_rejections_view(old(rejected)@)
                + partial_rejections(limits, timeouts_ms, caches, scans),
    {
        let ghost scans_in = scans;
        let raw = apply_partial(&mut self.config, limits, timeouts_ms, caches, scans, debug);
        let ghost base = config_rejections_view(rejected@);
        let mut raw = raw;
        let n = raw.len();
        let mut taken: Vec<RejectedConfigUpdate> = Vec::new();
        let mut i: usize = 0;
        while i < n
            invariant
                n == raw@.len(),
                i <= n,
                taken@.len() == i,
                config_rejections_view(taken@) == rejections_view(raw@).take(i as int),
            decreases n - i,
        {
            let path = raw[i].path.clone();
            let reason = raw[i].reason.clone();
            assert(rejections_view(raw@)[i as int] == (path@, reason@));
            let ghost before = taken@;
            taken.push(RejectedConfigUpdate { path, reason });
            assert(taken@ == before.push(RejectedConfigUpdate { path, reason }));
            assert forall|j: int| 0 <= j < i + 1 implies #[trigger] config_rejections_view(taken@)[j]
                == rejections_view(raw@).take(i + 1)[j] by {
                if j < i {
                    assert(config_rejections_view(before)[j] == rejections_view(raw@).take(i as int)[j]);
                }
            }
            assert(config_rejections_view(taken@) =~= rejections_view(raw@).take(i + 1));
            i = i + 1;
        }
        assert(rejections_view(raw@).take(n as int) =~= rejections_view(raw@));
        rejected.append(&mut taken);
        assert(config_rejections_view(rejected@) =~= base + partial_rejections(limits, timeouts_ms, caches, scans_in));
        assert(partially_updated(old(self).live(), self.live(), limits, timeouts_ms, caches, scans_in, debug));
        true
    }

    /// A copy of the defaults.
    pub fn defaults(&self) -> (r: RuntimeConfig)
        ensures
            same_config(r, self.defaults_view()),
    {
        self.defaults.copy()
    }

    /// A copy of the defaults with the environment overrides applied.
    pub fn env_overrides(&self) -> (r: RuntimeConfig)
        ensures
            same_config(r, self.env_view()),
    {
        self.env_overrides.copy()
    }

    /// The configuration that runtime overrides start from: the defaults.
    pub fn runtime_overrides() -> (r: RuntimeConfig)
        ensures
            is_default_config(r),
    {
        RuntimeConfig::default()
    }
}

/// A store keeps the workspace path it was built with through any sequence of updates:
/// along a sequence of stores, the first with `path` as its live workspace path and each
/// following the one before by an update, every store's live workspace path (what
/// `workspace_path()` and `current()` give) is `path`.
pub proof fn law_store_keeps_workspace_path(path: Seq<char>, stores: Seq<RuntimeConfigStore>)
    requires
        stores.len() > 0,
        stores[0].live().workspace_path@ == path,
        forall|i: int| 0 <= i < stores.len() - 1 ==> is_partial_update(#[trigger] stores[i].live(), stores[i + 1].live()),
    ensures
        forall|i: int| 0 <= i < stores.len() ==> (#[trigger] stores[i]).live().workspace_path@ == path,
{
    let cs = stores.map_values(|s: RuntimeConfigStore| s.live());
    assert forall|i: int| 0 <= i < cs.len() - 1 implies is_partial_update(#[trigger] cs[i], cs[i + 1]) by {
        assert(is_partial_update(stores[i].live(), stores[i + 1].live()));
    }
    law_workspace_path_survives_updates(cs);
    assert forall|i: int| 0 <= i < stores.len() implies (#[trigger] stores[i]).live().workspace_path@ == path by {
        assert(cs[i] == stores[i].live());
        assert(cs[0] == stores[0].live());
    }
}

} // verus!
