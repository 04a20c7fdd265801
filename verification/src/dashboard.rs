//! The whole-number parts of the dashboard's daily summary.

use vstd::prelude::*;

verus! {

/// The dashboard's counts for the day: tracked time, the most-used
/// application, and the number of sessions.
pub struct DashboardCounts {
    pub total_tracked_seconds: i64,
    pub most_used_app: Option<String>,
    pub sessions_count: usize,
}

/// The counts shown for a day with `total` tracked seconds and
/// `sessions_count` sessions, given the per-application usage `by_app`
/// ordered from most to least used: the most-used application is the first
/// one, and there is none on a day without usage.
pub fn dashboard_counts(total: i64, by_app: &[(String, i64)], sessions_count: usize) -> (r:
    DashboardCounts)
    ensures
        r.total_tracked_seconds == total,
        r.sessions_count == sessions_count,
        by_app@.len() == 0 ==> r.most_used_app is None,
        by_app@.len() > 0 ==> (r.most_used_app matches Some(name) && name@ == by_app@[0].0@),
{
    let most_used_app = if by_app.len() == 0 {
        None
    } else {
        Some(by_app[0].0.clone())
    };
    DashboardCounts { total_tracked_seconds: total, most_used_app, sessions_count }
}

} // verus!
