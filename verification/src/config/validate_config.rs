//! Validation of individual runtime-configuration updates.
use vstd::prelude::*;

use super::runtime_config::{HARD_MAX_FILE_BYTES, HARD_MAX_PARALLELISM, HARD_MAX_REQUEST_LOG_ENTRIES};
use crate::text::{concat4, decimal, str_eq, usize_to_string};

verus! {

/// An update that was refused, with the dotted path of the setting and the reason.
pub struct RejectedUpdate {
    pub path: String,
    pub reason: String,
}

/// A rejection as plain text: (path, reason).
pub open spec fn rejection_view(r: RejectedUpdate) -> (Seq<char>, Seq<char>) {
    (r.path@, r.reason@)
}

/// A list of rejections as plain text.
pub open spec fn rejections_view(v: Seq<RejectedUpdate>) -> Seq<(Seq<char>, Seq<char>)> {
    v.map_values(|r: RejectedUpdate| rejection_view(r))
}

/// The reason text for a value above a hard ceiling, e.g. `value 60 exceeds hard safety ceiling 50`.
pub open spec fn above_ceiling_reason(prefix: Seq<char>, value: nat, middle: Seq<char>, ceiling: nat) -> Seq<char> {
    prefix + decimal(value) + middle + decimal(ceiling)
}

/// What `validate_limit_usize` decides: `None` when the value is taken, else the reason it is refused.
pub open spec fn limit_verdict(value: usize, path: Seq<char>) -> Option<Seq<char>> {
    if value == 0 {
        Some("value must be positive"@)
    } else if path == "limits.max_file_bytes"@ && value > HARD_MAX_FILE_BYTES {
        Some(above_ceiling_reason("value "@, value as nat, " exceeds hard safety ceiling "@, HARD_MAX_FILE_BYTES as nat))
    } else {
        None
    }
}

/// What `validate_timeout` decides.
pub open spec fn timeout_verdict(value: u64) -> Option<Seq<char>> {
    if value == 0 { Some("timeout must be positive"@) } else { None }
}

/// What `validate_parallelism` decides.
pub open spec fn parallelism_verdict(value: usize) -> Option<Seq<char>> {
    if value == 0 {
        Some("max_parallelism must be at least 1"@)
    } else if value > HARD_MAX_PARALLELISM {
        Some(above_ceiling_reason("max_parallelism "@, value as nat, " exceeds hard ceiling "@, HARD_MAX_PARALLELISM as nat))
    } else {
        None
    }
}

/// What `validate_request_log_entries` decides.
pub open spec fn request_log_verdict(value: usize) -> Option<Seq<char>> {
    if value == 0 {
        Some("request_log_max_entries must be positive"@)
    } else if value > HARD_MAX_REQUEST_LOG_ENTRIES {
        Some(above_ceiling_reason("request_log_max_entries "@, value as nat, " exceeds hard ceiling "@, HARD_MAX_REQUEST_LOG_ENTRIES as nat))
    } else {
        None
    }
}

/// The effect of a verdict on a setting and on the list of rejections.
pub open spec fn verdict_applied<T>(
    verdict: Option<Seq<char>>,
    old_target: T,
    value: T,
    new_target: T,
    path: Seq<char>,
    old_rejected: Seq<RejectedUpdate>,
    new_rejected: Seq<RejectedUpdate>,
) -> bool {
    match verdict {
        None => new_target == value && new_rejected == old_rejected,
        Some(reason) => new_target == old_target
            && rejections_view(new_rejected) == rejections_view(old_rejected).push((path, reason)),
    }
}

fn push_rejection(rejected: &mut Vec<RejectedUpdate>, path: &str, reason: String)
    ensures
        rejections_view(final(rejected)@) == rejections_view(old(rejected)@).push((path@, reason@)),
{
    let ghost old_v = rejected@;
    rejected.push(RejectedUpdate { path: path.to_owned(), reason });
    assert(rejections_view(rejected@) =~= rejections_view(old_v).push((path@, reason@)));
}

fn ceiling_reason(prefix: &str, value: usize, middle: &str, ceiling: usize) -> (r: String)
    ensures
        r@ == above_ceiling_reason(prefix@, value as nat, middle@, ceiling as nat),
{
    let v = usize_to_string(value);
    let c = usize_to_string(ceiling);
    concat4(prefix, v.as_str(), middle, c.as_str())
}

/// Set a positive size limit, refusing zero and, for `limits.max_file_bytes`,
/// values above the hard ceiling.
pub fn validate_limit_usize(
    target: &mut usize,
    value: usize,
    path: &str,
    rejected: &mut Vec<RejectedUpdate>,
)
    ensures
        verdict_applied(limit_verdict(value, path@), *old(target), value, *final(target), path@,
            old(rejected)@, final(rejected)@),
{
    if value == 0 {
        push_rejection(rejected, path, "value must be positive".to_owned());
    } else if str_eq(path, "limits.max_file_bytes") && value > HARD_MAX_FILE_BYTES {
        let reason = ceiling_reason("value ", value, " exceeds hard safety ceiling ", HARD_MAX_FILE_BYTES);
        push_rejection(rejected, path, reason);
    } else {
        *target = value;
    }
}

/// Set a positive timeout, refusing zero.
pub fn validate_timeout(target: &mut u64, value: u64, path: &str, rejected: &mut Vec<RejectedUpdate>)
    ensures
        verdict_applied(timeout_verdict(value), *old(target), value, *final(target), path@,
            old(rejected)@, final(rejected)@),
{
    if value == 0 {
        push_rejection(rejected, path, "timeout must be positive".to_owned());
    } else {
        *target = value;
    }
}

/// Set the scan parallelism, refusing zero and values above the hard ceiling.
pub fn validate_parallelism(
    target: &mut usize,
    value: usize,
    path: &str,
    rejected: &mut Vec<RejectedUpdate>,
)
    ensures
        verdict_applied(parallelism_verdict(value), *old(target), value, *final(target), path@,
            old(rejected)@, final(rejected)@),
{
    if value == 0 {
        push_rejection(rejected, path, "max_parallelism must be at least 1".to_owned());
    } else if value > HARD_MAX_PARALLELISM {
        let reason = ceiling_reason("max_parallelism ", value, " exceeds hard ceiling ", HARD_MAX_PARALLELISM);
        push_rejection(rejected, path, reason);
    } else {
        *target = value;
    }
}

/// Set the request-log capacity, refusing zero and values above the hard ceiling.
pub fn validate_request_log_entries(
    target: &mut usize,
    value: usize,
    path: &str,
    rejected: &mut Vec<RejectedUpdate>,
)
    ensures
        verdict_applied(request_log_verdict(value), *old(target), value, *final(target), path@,
            old(rejected)@, final(rejected)@),
{
    if value == 0 {
        push_rejection(rejected, path, "request_log_max_entries must be positive".to_owned());
    } else if value > HARD_MAX_REQUEST_LOG_ENTRIES {
        let reason = ceiling_reason("request_log_max_entries ", value, " exceeds hard ceiling ",
            HARD_MAX_REQUEST_LOG_ENTRIES);
        push_rejection(rejected, path, reason);
    } else {
        *target = value;
    }
}

} // verus!
