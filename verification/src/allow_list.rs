//! The allow-list policy: which layers may be switched away from
//! automatically, resolved anew on every cycle from whatever the configured
//! source yielded this time.

use vstd::prelude::*;

verus! {

/// What the configured allow-list source yielded on one cycle. The caller
/// reads the source (a file, a directory) and hands the outcome in as plain
/// values.
pub enum AllowListSource {
    /// No source is configured: every layer may be switched away from.
    Unconfigured,
    /// The configured file was read; its lines are the permitted layers.
    FileLines(Vec<String>),
    /// The configured directory was listed; its entry names are the permitted
    /// layers.
    DirEntries(Vec<String>),
    /// The configured source could not be read this cycle. Non-fatal: treated
    /// as no restriction, so the cycle is skipped rather than the process
    /// stopped.
    Unreadable,
}

/// The membership set an allow-list source resolves to: `None` means "no
/// restriction", either because nothing is configured or because the source
/// could not be read this cycle.
pub open spec fn spec_white_list(source: AllowListSource) -> Option<Seq<Seq<char>>> {
    match source {
        AllowListSource::Unconfigured => None,
        AllowListSource::Unreadable => None,
        AllowListSource::FileLines(lines) => Some(lines.deep_view()),
        AllowListSource::DirEntries(names) => Some(names.deep_view()),
    }
}

/// Resolves one cycle's allow-list from what the configured source yielded.
pub fn get_white_list(source: AllowListSource) -> (r: Option<Vec<String>>)
    ensures
        r.deep_view() == spec_white_list(source),
{
    match source {
        AllowListSource::Unconfigured => None,
        AllowListSource::Unreadable => None,
        AllowListSource::FileLines(lines) => Some(lines),
        AllowListSource::DirEntries(names) => Some(names),
    }
}

} // verus!
