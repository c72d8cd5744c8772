//! Counters for network filter matching, kept in a value that the caller owns and passes to
//! the checking functions.

use vstd::prelude::*;

verus! {

/// Which sequential check stage accepted or rejected a filter.
#[derive(Clone, Copy, Debug, PartialEq, Eq, Structural)]
pub enum MatchStage {
    Options,
    IncludedDomains,
    ExcludedDomains,
    IncludedToDomains,
    ExcludedToDomains,
    Pattern,
}

/// Counters collected while matching network filters.
#[derive(Clone, Copy, Debug, PartialEq, Eq, Structural)]
pub struct MatchDebugStats {
    /// Number of filters for which matching was attempted.
    pub filters_checked: u64,
    /// Number of filters that matched.
    pub filters_matched: u64,
    /// Stage of the last successful match.
    pub last_match_stage: Option<MatchStage>,
    /// Stage that rejected the most recently checked non-matching filter.
    pub last_reject_stage: Option<MatchStage>,
    pub reject_options: u64,
    pub reject_included_domains: u64,
    pub reject_excluded_domains: u64,
    pub reject_included_to_domains: u64,
    pub reject_excluded_to_domains: u64,
    pub reject_pattern: u64,
}

/// All counters at zero, no stage recorded.
pub open spec fn zero_stats() -> MatchDebugStats {
    MatchDebugStats {
        filters_checked: 0,
        filters_matched: 0,
        last_match_stage: None,
        last_reject_stage: None,
        reject_options: 0,
        reject_included_domains: 0,
        reject_excluded_domains: 0,
        reject_included_to_domains: 0,
        reject_excluded_to_domains: 0,
        reject_pattern: 0,
    }
}

impl Default for MatchDebugStats {
    fn default() -> (r: Self)
        ensures
            r == zero_stats(),
    {
        MatchDebugStats {
            filters_checked: 0,
            filters_matched: 0,
            last_match_stage: None,
            last_reject_stage: None,
            reject_options: 0,
            reject_included_domains: 0,
            reject_excluded_domains: 0,
            reject_included_to_domains: 0,
            reject_excluded_to_domains: 0,
            reject_pattern: 0,
        }
    }
}

/// The rejection counters and stage of `a` and `b` agree.
pub open spec fn same_rejects(a: MatchDebugStats, b: MatchDebugStats) -> bool {
    &&& a.last_reject_stage == b.last_reject_stage
    &&& a.reject_options == b.reject_options
    &&& a.reject_included_domains == b.reject_included_domains
    &&& a.reject_excluded_domains == b.reject_excluded_domains
    &&& a.reject_included_to_domains == b.reject_included_to_domains
    &&& a.reject_excluded_to_domains == b.reject_excluded_to_domains
    &&& a.reject_pattern == b.reject_pattern
}

/// Clears the statistics.
pub fn reset(stats: &mut MatchDebugStats)
    ensures
        *final(stats) == zero_stats(),
{
    *stats = MatchDebugStats::default();
}

/// A copy of the statistics.
pub fn snapshot(stats: &MatchDebugStats) -> (r: MatchDebugStats)
    ensures
        r == *stats,
{
    *stats
}

/// Returns the statistics and clears them.
pub fn take(stats: &mut MatchDebugStats) -> (r: MatchDebugStats)
    ensures
        r == *old(stats),
        *final(stats) == zero_stats(),
{
    let r = *stats;
    *stats = MatchDebugStats::default();
    r
}

/// Counts one more checked filter.
pub fn record_checked(stats: &mut MatchDebugStats)
    ensures
        final(stats).filters_checked == old(stats).filters_checked.saturating_add(1),
        same_rejects(*final(stats), *old(stats)),
        final(stats).filters_matched == old(stats).filters_matched,
        final(stats).last_match_stage == old(stats).last_match_stage,
{
    stats.filters_checked = stats.filters_checked.saturating_add(1);
}

/// Counts a filter rejected at `stage`.
pub fn record_reject(stats: &mut MatchDebugStats, stage: MatchStage)
    ensures
        final(stats).last_reject_stage == Some(stage),
        final(stats).filters_checked == old(stats).filters_checked,
        final(stats).filters_matched == old(stats).filters_matched,
        final(stats).last_match_stage == old(stats).last_match_stage,
        final(stats).reject_options == old(stats).reject_options.saturating_add(
            if stage == MatchStage::Options {
                1u64
            } else {
                0u64
            },
        ),
        final(stats).reject_included_domains == old(stats).reject_included_domains.saturating_add(
            if stage == MatchStage::IncludedDomains {
                1u64
            } else {
                0u64
            },
        ),
        final(stats).reject_excluded_domains == old(stats).reject_excluded_domains.saturating_add(
            if stage == MatchStage::ExcludedDomains {
                1u64
            } else {
                0u64
            },
        ),
        final(stats).reject_included_to_domains
            == old(stats).reject_included_to_domains.saturating_add(
            if stage == MatchStage::IncludedToDomains {
                1u64
            } else {
                0u64
            },
        ),
        final(stats).reject_excluded_to_domains
            == old(stats).reject_excluded_to_domains.saturating_add(
            if stage == MatchStage::ExcludedToDomains {
                1u64
            } else {
                0u64
            },
        ),
        final(stats).reject_pattern == old(stats).reject_pattern.saturating_add(
            if stage == MatchStage::Pattern {
                1u64
            } else {
                0u64
            },
        ),
{
    stats.last_reject_stage = Some(stage);
    match stage {
        MatchStage::Options => stats.reject_options = stats.reject_options.saturating_add(1),
        MatchStage::IncludedDomains => stats.reject_included_domains =
        stats.reject_included_domains.saturating_add(1),
        MatchStage::ExcludedDomains => stats.reject_excluded_domains =
        stats.reject_excluded_domains.saturating_add(1),
        MatchStage::IncludedToDomains => stats.reject_included_to_domains =
        stats.reject_included_to_domains.saturating_add(1),
        MatchStage::ExcludedToDomains => stats.reject_excluded_to_domains =
        stats.reject_excluded_to_domains.saturating_add(1),
        MatchStage::Pattern => stats.reject_pattern = stats.reject_pattern.saturating_add(1),
    }
}

/// Counts a filter that matched, accepted at `stage`.
pub fn record_match(stats: &mut MatchDebugStats, stage: MatchStage)
    ensures
        final(stats).filters_matched == old(stats).filters_matched.saturating_add(1),
        final(stats).last_match_stage == Some(stage),
        final(stats).filters_checked == old(stats).filters_checked,
        same_rejects(*final(stats), *old(stats)),
{
    stats.filters_matched = stats.filters_matched.saturating_add(1);
    stats.last_match_stage = Some(stage);
}

} // verus!
