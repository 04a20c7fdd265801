//! Daily category quotas: how much time each category has used today, and
//! whether a tab falls under a category that is over its limit.

use vstd::prelude::*;

use crate::matching::{
    app_in_category, app_matches_category, open_time_fits, session_seconds,
    session_seconds_spec, tab_in_category, tab_matches_category, tab_text_in, tab_text_matches,
};
use crate::model::{AppSession, BlockCategory, BlockDecision, CategoryUsage, TabSession};

verus! {

// ---------------------------------------------------------------------------
// Sums
// ---------------------------------------------------------------------------

/// The sum of a sequence of integers.
pub open spec fn sum_of(s: Seq<int>) -> int
    decreases s.len(),
{
    if s.len() == 0 {
        0
    } else {
        sum_of(s.drop_last()) + s.last()
    }
}

/// No term of `s` is negative.
pub open spec fn all_non_negative(s: Seq<int>) -> bool {
    forall|i: int| 0 <= i < s.len() ==> s[i] >= 0
}

pub(crate) proof fn lemma_sum_step(s: Seq<int>, j: int)
    requires
        0 <= j < s.len(),
    ensures
        sum_of(s.take(j + 1)) == sum_of(s.take(j)) + s[j],
{
    assert(s.take(j + 1).drop_last() =~= s.take(j));
}

pub(crate) proof fn lemma_sum_prefix_le(s: Seq<int>, j: int)
    requires
        0 <= j <= s.len(),
        all_non_negative(s),
    ensures
        0 <= sum_of(s.take(j)) <= sum_of(s),
    decreases s.len(),
{
    if j == s.len() {
        assert(s.take(j) =~= s);
        if s.len() > 0 {
            lemma_sum_prefix_le(s.drop_last(), j - 1);
            assert(s.drop_last().take(j - 1) =~= s.drop_last());
        }
    } else {
        lemma_sum_prefix_le(s.drop_last(), j);
        assert(s.drop_last().take(j) =~= s.take(j));
        lemma_sum_prefix_le(s.drop_last(), s.len() - 1);
        assert(s.drop_last().take(s.len() - 1) =~= s.drop_last());
    }
}

// ---------------------------------------------------------------------------
// Usage
// ---------------------------------------------------------------------------

/// Seconds each application session contributes to the category.
pub open spec fn app_terms(apps: Seq<AppSession>, c: BlockCategory, now: i64) -> Seq<int> {
    Seq::new(
        apps.len(),
        |j: int|
            if app_in_category(apps[j], c) {
                session_seconds_spec(apps[j].start_time, apps[j].end_time, apps[j].duration_seconds, now)
            } else {
                0
            },
    )
}

/// Seconds each tab session contributes to the category.
pub open spec fn tab_terms(tabs: Seq<TabSession>, c: BlockCategory, now: i64) -> Seq<int> {
    Seq::new(
        tabs.len(),
        |j: int|
            if tab_in_category(tabs[j], c) {
                session_seconds_spec(tabs[j].start_time, tabs[j].end_time, tabs[j].duration_seconds, now)
            } else {
                0
            },
    )
}

/// Seconds the category has used: its application sessions plus its tab
/// sessions.
pub open spec fn used_seconds_spec(
    c: BlockCategory,
    apps: Seq<AppSession>,
    tabs: Seq<TabSession>,
    now: i64,
) -> int {
    sum_of(app_terms(apps, c, now)) + sum_of(tab_terms(tabs, c, now))
}

/// The category's daily limit in seconds; a negative limit counts as none.
pub open spec fn limit_seconds_spec(c: BlockCategory) -> int {
    if c.daily_limit_minutes > 0 {
        c.daily_limit_minutes * 60
    } else {
        0
    }
}

/// Every open application session the category counts started at most
/// `i64::MAX` seconds before `now`.
pub open spec fn app_times_fit(apps: Seq<AppSession>, c: BlockCategory, now: i64) -> bool {
    forall|j: int|
        0 <= j < apps.len() && #[trigger] app_in_category(apps[j], c) && apps[j].end_time is None
            ==> open_time_fits(apps[j].start_time, now)
}

/// Every open tab session the category counts started at most `i64::MAX`
/// seconds before `now`.
pub open spec fn tab_times_fit(tabs: Seq<TabSession>, c: BlockCategory, now: i64) -> bool {
    forall|j: int|
        0 <= j < tabs.len() && #[trigger] tab_in_category(tabs[j], c) && tabs[j].end_time is None
            ==> open_time_fits(tabs[j].start_time, now)
}

/// A category's usage can be computed without overflow: the open sessions it
/// counts fit, and the total fits in an `i64`.
pub open spec fn usage_computable(
    c: BlockCategory,
    apps: Seq<AppSession>,
    tabs: Seq<TabSession>,
    now: i64,
) -> bool {
    &&& app_times_fit(apps, c, now)
    &&& tab_times_fit(tabs, c, now)
    &&& used_seconds_spec(c, apps, tabs, now) <= i64::MAX
}

/// Every category with an id has a computable usage.
pub open spec fn all_usage_computable(
    cats: Seq<BlockCategory>,
    apps: Seq<AppSession>,
    tabs: Seq<TabSession>,
    now: i64,
) -> bool {
    forall|i: int|
        0 <= i < cats.len() && cats[i].id is Some ==> #[trigger] usage_computable(
            cats[i],
            apps,
            tabs,
            now,
        )
}

/// The usage record of category `c` (whose id is `id`).
pub open spec fn usage_of(
    c: BlockCategory,
    id: i64,
    apps: Seq<AppSession>,
    tabs: Seq<TabSession>,
    now: i64,
) -> CategoryUsage {
    let used = used_seconds_spec(c, apps, tabs, now);
    let limit = limit_seconds_spec(c);
    CategoryUsage {
        category_id: id,
        category_name: c.name,
        used_seconds: used as i64,
        limit_seconds: limit as i64,
        limit_exceeded: limit > 0 && used >= limit,
        enabled: c.enabled,
        manual_block_paused: c.manual_block_paused,
    }
}

/// One usage record per category that has an id, in category order.
pub open spec fn usages_spec(
    cats: Seq<BlockCategory>,
    apps: Seq<AppSession>,
    tabs: Seq<TabSession>,
    now: i64,
) -> Seq<CategoryUsage>
    decreases cats.len(),
{
    if cats.len() == 0 {
        seq![]
    } else {
        let rest = usages_spec(cats.drop_last(), apps, tabs, now);
        match cats.last().id {
            Some(id) => rest.push(usage_of(cats.last(), id, apps, tabs, now)),
            None => rest,
        }
    }
}

proof fn lemma_app_terms_non_negative(apps: Seq<AppSession>, c: BlockCategory, now: i64)
    ensures
        all_non_negative(app_terms(apps, c, now)),
{
}

proof fn lemma_tab_terms_non_negative(tabs: Seq<TabSession>, c: BlockCategory, now: i64)
    ensures
        all_non_negative(tab_terms(tabs, c, now)),
{
}

/// Seconds one session counts for, when that can be computed: `None` when
/// the session is open and started more than `i64::MAX` seconds before
/// `now`.
fn counted_seconds(start: i64, end: Option<i64>, duration: i64, now: i64) -> (r: Option<i64>)
    ensures
        r is Some <==> (end is Some || open_time_fits(start, now)),
        r matches Some(v) ==> v == session_seconds_spec(start, end, duration, now),
{
    match end {
        Some(_) => Some(session_seconds(start, end, duration, now)),
        None => match now.checked_sub(start) {
            Some(_) => Some(session_seconds(start, end, duration, now)),
            None => None,
        },
    }
}

/// Seconds the category's application sessions count for, when every
/// counted session and the total fit in an `i64`.
fn app_seconds_checked(c: &BlockCategory, apps: &[AppSession], now: i64) -> (r: Option<i64>)
    ensures
        r is Some <==> (app_times_fit(apps@, *c, now) && sum_of(app_terms(apps@, *c, now))
            <= i64::MAX),
        r matches Some(v) ==> v == sum_of(app_terms(apps@, *c, now)),
{
    let ghost terms = app_terms(apps@, *c, now);
    proof {
        lemma_app_terms_non_negative(apps@, *c, now);
    }
    let mut total: i64 = 0;
    let mut j: usize = 0;
    while j < apps.len()
        invariant
            j <= apps@.len(),
            terms == app_terms(apps@, *c, now),
            all_non_negative(terms),
            total == sum_of(terms.take(j as int)),
            forall|k: int|
                0 <= k < j && #[trigger] app_in_category(apps@[k], *c) && apps@[k].end_time is None
                    ==> open_time_fits(apps@[k].start_time, now),
        decreases apps@.len() - j,
    {
        proof {
            lemma_sum_step(terms, j as int);
            lemma_sum_prefix_le(terms, j + 1);
        }
        let s = &apps[j];
        if app_matches_category(s, c) {
            match counted_seconds(s.start_time, s.end_time, s.duration_seconds, now) {
                Some(secs) => match total.checked_add(secs) {
                    Some(t) => {
                        total = t;
                    },
                    None => {
                        return None;
                    },
                },
                None => {
                    return None;
                },
            }
        }
        j = j + 1;
    }
    assert(terms.take(apps@.len() as int) =~= terms);
    Some(total)
}

/// Seconds the category's tab sessions count for, when every counted
/// session and the total fit in an `i64`.
fn tab_seconds_checked(c: &BlockCategory, tabs: &[TabSession], now: i64) -> (r: Option<i64>)
    ensures
        r is Some <==> (tab_times_fit(tabs@, *c, now) && sum_of(tab_terms(tabs@, *c, now))
            <= i64::MAX),
        r matches Some(v) ==> v == sum_of(tab_terms(tabs@, *c, now)),
{
    let ghost terms = tab_terms(tabs@, *c, now);
    proof {
        lemma_tab_terms_non_negative(tabs@, *c, now);
    }
    let mut total: i64 = 0;
    let mut j: usize = 0;
    while j < tabs.len()
        invariant
            j <= tabs@.len(),
            terms == tab_terms(tabs@, *c, now),
            all_non_negative(terms),
            total == sum_of(terms.take(j as int)),
            forall|k: int|
                0 <= k < j && #[trigger] tab_in_category(tabs@[k], *c) && tabs@[k].end_time is None
                    ==> open_time_fits(tabs@[k].start_time, now),
        decreases tabs@.len() - j,
    {
        proof {
            lemma_sum_step(terms, j as int);
            lemma_sum_prefix_le(terms, j + 1);
        }
        let s = &tabs[j];
        if tab_matches_category(s, c) {
            match counted_seconds(s.start_time, s.end_time, s.duration_seconds, now) {
                Some(secs) => match total.checked_add(secs) {
                    Some(t) => {
                        total = t;
                    },
                    None => {
                        return None;
                    },
                },
                None => {
                    return None;
                },
            }
        }
        j = j + 1;
    }
    assert(terms.take(tabs@.len() as int) =~= terms);
    Some(total)
}

/// How much of its daily limit each category (that has an id) has used at
/// time `now`, or `None` when some category's usage does not fit in an
/// `i64` (an open session started more than `i64::MAX` seconds before `now`,
/// or the total overflows).
pub fn try_category_usage(
    categories: &[BlockCategory],
    app_sessions: &[AppSession],
    tab_sessions: &[TabSession],
    now: i64,
) -> (r: Option<Vec<CategoryUsage>>)
    ensures
        r is Some <==> all_usage_computable(categories@, app_sessions@, tab_sessions@, now),
        r matches Some(v) ==> v@ == usages_spec(categories@, app_sessions@, tab_sessions@, now),
{
    let ghost apps = app_sessions@;
    let ghost tabs = tab_sessions@;
    let mut out: Vec<CategoryUsage> = Vec::new();
    let mut i: usize = 0;
    while i < categories.len()
        invariant
            i <= categories@.len(),
            apps == app_sessions@,
            tabs == tab_sessions@,
            forall|m: int|
                0 <= m < i && categories@[m].id is Some ==> #[trigger] usage_computable(
                    categories@[m],
                    apps,
                    tabs,
                    now,
                ),
            out@ == usages_spec(categories@.take(i as int), apps, tabs, now),
        decreases categories@.len() - i,
    {
        let c = &categories[i];
        assert(categories@.take(i + 1).drop_last() =~= categories@.take(i as int));
        proof {
            lemma_app_terms_non_negative(apps, *c, now);
            lemma_tab_terms_non_negative(tabs, *c, now);
            lemma_sum_prefix_le(app_terms(apps, *c, now), 0);
            lemma_sum_prefix_le(tab_terms(tabs, *c, now), 0);
        }
        match c.id {
            Some(id) => {
                let a = match app_seconds_checked(c, app_sessions, now) {
                    Some(a) => a,
                    None => {
                        assert(!usage_computable(categories@[i as int], apps, tabs, now));
                        return None;
                    },
                };
                let t = match tab_seconds_checked(c, tab_sessions, now) {
                    Some(t) => t,
                    None => {
                        assert(!usage_computable(categories@[i as int], apps, tabs, now));
                        return None;
                    },
                };
                let used = match a.checked_add(t) {
                    Some(u) => u,
                    None => {
                        assert(!usage_computable(categories@[i as int], apps, tabs, now));
                        return None;
                    },
                };
                let limit: i64 = if c.daily_limit_minutes > 0 {
                    c.daily_limit_minutes as i64 * 60
                } else {
                    0
                };
                out.push(
                    CategoryUsage {
                        category_id: id,
                        category_name: c.name.clone(),
                        used_seconds: used,
                        limit_seconds: limit,
                        limit_exceeded: limit > 0 && used >= limit,
                        enabled: c.enabled,
                        manual_block_paused: c.manual_block_paused,
                    },
                );
            },
            None => {},
        }
        i = i + 1;
    }
    assert(categories@.take(categories@.len() as int) =~= categories@);
    Some(out)
}

/// How much of its daily limit each category (that has an id) has used at
/// time `now`, counting the application and tab sessions it covers; a
/// category is over its limit when the limit is positive and reached.
pub fn category_usage(
    categories: &[BlockCategory],
    app_sessions: &[AppSession],
    tab_sessions: &[TabSession],
    now: i64,
) -> (r: Vec<CategoryUsage>)
    requires
        all_usage_computable(categories@, app_sessions@, tab_sessions@, now),
    ensures
        r@ == usages_spec(categories@, app_sessions@, tab_sessions@, now),
{
    match try_category_usage(categories, app_sessions, tab_sessions, now) {
        Some(v) => v,
        None => {
            proof {
                assert(false);
            }
            Vec::new()
        },
    }
}

// ---------------------------------------------------------------------------
// Blocking
// ---------------------------------------------------------------------------

/// Index of the first usage record of category `id` at or after `k`, or -1.
pub open spec fn usage_index_from(usages: Seq<CategoryUsage>, id: i64, k: int) -> int
    decreases usages.len() - k,
{
    if 0 <= k < usages.len() {
        if usages[k].category_id == id {
            k
        } else {
            usage_index_from(usages, id, k + 1)
        }
    } else {
        -1
    }
}

/// Category `i` blocks a tab with this URL and title: it is enabled and not
/// paused, covers the tab, has an id, and the first usage record with that
/// id is over its limit.
pub open spec fn blocks_at(
    cats: Seq<BlockCategory>,
    usages: Seq<CategoryUsage>,
    url: Seq<char>,
    title: Seq<char>,
    i: int,
) -> bool {
    let c = cats[i];
    &&& c.enabled
    &&& !c.manual_block_paused
    &&& tab_text_in(url, title, c.domain_keywords.deep_view())
    &&& c.id is Some
    &&& usage_index_from(usages, c.id->0, 0) >= 0
    &&& usages[usage_index_from(usages, c.id->0, 0)].limit_exceeded
}

/// Index of the first category at or after `i` that blocks the tab, or -1.
pub open spec fn first_blocking_from(
    cats: Seq<BlockCategory>,
    usages: Seq<CategoryUsage>,
    url: Seq<char>,
    title: Seq<char>,
    i: int,
) -> int
    decreases cats.len() - i,
{
    if 0 <= i < cats.len() {
        if blocks_at(cats, usages, url, title, i) {
            i
        } else {
            first_blocking_from(cats, usages, url, title, i + 1)
        }
    } else {
        -1
    }
}

/// `r` is the decision for a tab with this URL and title: blocked by the
/// first category that blocks it, reporting that category's usage, with the
/// rotating deterrent every 5 seconds; otherwise not blocked, with no
/// deterrent.
pub open spec fn decision_is(
    r: BlockDecision,
    cats: Seq<BlockCategory>,
    usages: Seq<CategoryUsage>,
    url: Seq<char>,
    title: Seq<char>,
) -> bool {
    let i = first_blocking_from(cats, usages, url, title, 0);
    if i >= 0 {
        let c = cats[i];
        let u = usages[usage_index_from(usages, c.id->0, 0)];
        &&& r.blocked
        &&& r.category_id == c.id
        &&& r.category_name == Some(c.name)
        &&& r.used_seconds == u.used_seconds
        &&& r.limit_seconds == u.limit_seconds
        &&& r.deterrent_mode@ == "rotating_mix"@
        &&& r.popup_interval_ms == 5000
    } else {
        &&& !r.blocked
        &&& r.category_id is None
        &&& r.category_name is None
        &&& r.used_seconds == 0
        &&& r.limit_seconds == 0
        &&& r.deterrent_mode@ == "none"@
        &&& r.popup_interval_ms == 0
    }
}

/// Position of the first usage record of category `id`.
fn find_usage(usages: &[CategoryUsage], id: i64) -> (r: Option<usize>)
    ensures
        r matches Some(k) ==> k == usage_index_from(usages@, id, 0) && k < usages@.len(),
        r is None ==> usage_index_from(usages@, id, 0) == -1,
{
    let mut k: usize = 0;
    while k < usages.len()
        invariant
            k <= usages@.len(),
            usage_index_from(usages@, id, k as int) == usage_index_from(usages@, id, 0),
        decreases usages@.len() - k,
    {
        if usages[k].category_id == id {
            return Some(k);
        }
        k = k + 1;
    }
    None
}

/// Whether a tab with this URL and title is blocked: by the first enabled,
/// unpaused category that covers it and whose usage is over its limit.
pub fn decide_tab_block(
    categories: &[BlockCategory],
    usages: &[CategoryUsage],
    tab_url: &str,
    tab_title: &str,
) -> (r: BlockDecision)
    ensures
        decision_is(r, categories@, usages@, tab_url@, tab_title@),
{
    let ghost cats = categories@;
    let ghost us = usages@;
    let mut i: usize = 0;
    while i < categories.len()
        invariant
            i <= cats.len(),
            cats == categories@,
            us == usages@,
            first_blocking_from(cats, us, tab_url@, tab_title@, i as int) == first_blocking_from(
                cats,
                us,
                tab_url@,
                tab_title@,
                0,
            ),
        decreases cats.len() - i,
    {
        let c = &categories[i];
        if c.enabled && !c.manual_block_paused {
            let ks = c.domain_keywords.as_slice();
            assert(ks.deep_view() =~= c.domain_keywords.deep_view());
            if tab_text_matches(tab_url, tab_title, ks) {
                match c.id {
                    Some(id) => match find_usage(usages, id) {
                        Some(k) => {
                            if usages[k].limit_exceeded {
                                assert(blocks_at(cats, us, tab_url@, tab_title@, i as int));
                                return BlockDecision {
                                    blocked: true,
                                    category_id: Some(id),
                                    category_name: Some(c.name.clone()),
                                    used_seconds: usages[k].used_seconds,
                                    limit_seconds: usages[k].limit_seconds,
                                    deterrent_mode: String::from_str("rotating_mix"),
                                    popup_interval_ms: 5000,
                                };
                            }
                        },
                        None => {},
                    },
                    None => {},
                }
            }
        }
        i = i + 1;
    }
    BlockDecision {
        blocked: false,
        category_id: None,
        category_name: None,
        used_seconds: 0,
        limit_seconds: 0,
        deterrent_mode: String::from_str("none"),
        popup_interval_ms: 0,
    }
}

} // verus!
