//! Deterministic renaming of one event-log file.
//!
//! The new name is `<short-host>-<channel>.evtx`, where the short host is
//! the part of the host name before its first `.`. The candidate name is
//! passed through the filesystem-safe-name transform of an outside crate,
//! and the renamed file stays in the parent directory of the old one. When
//! no descriptor could be extracted, no new path is computed and nothing
//! may be touched.

use vstd::prelude::*;
use crate::metadata::EventLog;
use crate::paths::{
    spec_base_name,
    spec_find_first,
    spec_parent_prefix,
    base_start,
    find_first,
    lemma_base_start_append,
    lemma_base_start_bounds,
    lemma_find_first_bounds,
    lemma_parent_prefix_full,
};

verus! {

/// What the filesystem-safe-name transform returns: a function of the input
/// characters alone.
pub uninterp spec fn sanitized_of(s: Seq<char>) -> Seq<char>;

/// Relies on sanitize_filename::sanitize_with_options, called with fixed
/// options (windows and truncate on, empty replacement), so the result
/// depends on the input characters alone. Every `/` is among the characters
/// the transform removes, so none is left in the result.
#[verifier::external_body]
pub(crate) fn sanitize_name(name: &str) -> (r: String)
    ensures
        r@ == sanitized_of(name@),
        forall|i: int| 0 <= i < r@.len() ==> r@[i] != '/',
{
    sanitize_filename::sanitize_with_options(
        name,
        sanitize_filename::Options { windows: true, truncate: true, replacement: "" },
    )
}

/// The host name cut at its first `.`: the NetBIOS-style short form.
pub open spec fn spec_short_host(host: Seq<char>) -> Seq<char> {
    host.take(spec_find_first(host, '.'))
}

/// The candidate file name before sanitizing: `<short-host>-<channel>.evtx`.
pub open spec fn spec_candidate_name(log: EventLog) -> Seq<char> {
    spec_short_host(log.host_name@) + "-"@ + log.event_log_type@ + ".evtx"@
}

/// Computes the candidate file name of a descriptor.
pub fn candidate_file_name(log: &EventLog) -> (r: String)
    ensures
        r@ == spec_candidate_name(*log),
{
    let host = log.host_name.as_str();
    let d = find_first(host, '.');
    proof {
        lemma_find_first_bounds(host@, '.');
    }
    let mut r = host.substring_char(0, d).to_owned();
    r.append("-");
    r.append(log.event_log_type.as_str());
    r.append(".evtx");
    proof {
        assert(r@ =~= spec_candidate_name(*log));
    }
    r
}

/// Computes the new path of one file from its descriptor: the sanitized
/// candidate name, joined to the parent prefix of the old path. When there
/// is no descriptor there is no new path, and the caller must leave the
/// file untouched. On success the new path sits in the same directory as
/// the old one, and its base name is exactly the sanitized candidate name.
pub fn rename_event_logs(input_path: &str, log: &Option<EventLog>) -> (r: Option<String>)
    ensures
        r is Some <==> log is Some,
        r matches Some(p) ==> log matches Some(l) && p@ == spec_parent_prefix(input_path@)
            + sanitized_of(spec_candidate_name(*l)),
        r matches Some(p) ==> spec_parent_prefix(p@) == spec_parent_prefix(input_path@)
            && spec_base_name(p@) == sanitized_of(spec_candidate_name(log->0)),
{
    match log {
        Option::Some(l) => {
            let candidate = candidate_file_name(l);
            let cleaned = sanitize_name(candidate.as_str());
            let s = base_start(input_path);
            proof {
                lemma_base_start_bounds(input_path@);
            }
            let mut p = input_path.substring_char(0, s).to_owned();
            p.append(cleaned.as_str());
            proof {
                lemma_parent_prefix_full(input_path@);
                lemma_base_start_append(spec_parent_prefix(input_path@), cleaned@);
            }
            Option::Some(p)
        },
        Option::None => Option::None,
    }
}

} // verus!
