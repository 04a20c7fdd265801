//! Properties of the library as a whole, stated over the specifications the
//! functions' contracts use.

use vstd::prelude::*;

use crate::bridge::{
    distinct_ids, finalized, id_unused, open_session_of, remembered_after, remembered_run,
    run_decided, store_after, store_run, tab_event_decided, Received, TabEvent, TabEventPlan,
};
use crate::matching::{
    any_keyword_in, app_in_category, domain_matches, open_time_fits, tab_in_category, tab_text_in,
};
use crate::report::{fmt_date, fmt_time, labels_from_own_times, shown_start, EntryView, ReportLabels};
use crate::text::lowercase;
use crate::model::{
    ActiveWindowInfo, AppSession, BlockCategory, BlockDecision, CategoryUsage, TabSession,
};
use crate::quota::{
    app_terms, blocks_at, decision_is, first_blocking_from, limit_seconds_spec, sum_of, tab_terms,
    usage_index_from, usage_of, usages_spec, used_seconds_spec,
};
use crate::tracking::{close_of, differs_from, poll_decided, OpenSession, PollPlan};

verus! {

/// A tab is only ever blocked by a category that is enabled, not paused,
/// covers the tab, and has used up a positive daily limit; the decision
/// reports that category's usage.
pub proof fn law_block_needs_active_exhausted_category(
    r: BlockDecision,
    cats: Seq<BlockCategory>,
    usages: Seq<CategoryUsage>,
    url: Seq<char>,
    title: Seq<char>,
)
    requires
        decision_is(r, cats, usages, url, title),
        r.blocked,
    ensures
        exists|i: int, k: int|
            0 <= i < cats.len() && 0 <= k < usages.len() && {
                let c = #[trigger] cats[i];
                let u = #[trigger] usages[k];
                &&& c.enabled
                &&& !c.manual_block_paused
                &&& tab_text_in(url, title, c.domain_keywords.deep_view())
                &&& c.id == Some(u.category_id)
                &&& u.limit_exceeded
                &&& r.category_id == c.id
                &&& r.used_seconds == u.used_seconds
                &&& r.limit_seconds == u.limit_seconds
            },
{
    let i = first_blocking_from(cats, usages, url, title, 0);
    lemma_first_blocking(cats, usages, url, title, 0);
    let c = cats[i];
    lemma_usage_index(usages, c.id->0, 0);
    let k = usage_index_from(usages, c.id->0, 0);
    assert(0 <= i < cats.len() && 0 <= k < usages.len());
    let u = usages[k];
    assert(c == cats[i] && u == usages[k]);
}

proof fn lemma_first_blocking(
    cats: Seq<BlockCategory>,
    usages: Seq<CategoryUsage>,
    url: Seq<char>,
    title: Seq<char>,
    i: int,
)
    requires
        0 <= i,
    ensures
        first_blocking_from(cats, usages, url, title, i) == -1 || (i <= first_blocking_from(
            cats,
            usages,
            url,
            title,
            i,
        ) < cats.len() && blocks_at(
            cats,
            usages,
            url,
            title,
            first_blocking_from(cats, usages, url, title, i),
        )),
    decreases cats.len() - i,
{
    if i < cats.len() && !blocks_at(cats, usages, url, title, i) {
        lemma_first_blocking(cats, usages, url, title, i + 1);
    }
}

proof fn lemma_usage_index(usages: Seq<CategoryUsage>, id: i64, k: int)
    requires
        0 <= k,
    ensures
        usage_index_from(usages, id, k) == -1 || (k <= usage_index_from(usages, id, k)
            < usages.len() && usages[usage_index_from(usages, id, k)].category_id == id),
    decreases usages.len() - k,
{
    if k < usages.len() && usages[k].category_id != id {
        lemma_usage_index(usages, id, k + 1);
    }
}

/// Every usage record is over its limit exactly when the category's limit is
/// positive and its used time (application plus tab sessions) has reached
/// it.
pub proof fn law_usage_over_limit_iff_reached(
    cats: Seq<BlockCategory>,
    apps: Seq<AppSession>,
    tabs: Seq<TabSession>,
    now: i64,
    k: int,
)
    requires
        0 <= k < usages_spec(cats, apps, tabs, now).len(),
    ensures
        exists|i: int|
            0 <= i < cats.len() && #[trigger] cats[i].id is Some && usages_spec(
                cats,
                apps,
                tabs,
                now,
            )[k] == usage_of(cats[i], cats[i].id->0, apps, tabs, now),
        usages_spec(cats, apps, tabs, now)[k].limit_exceeded <==> exists|i: int|
            0 <= i < cats.len() && #[trigger] cats[i].id is Some && usages_spec(
                cats,
                apps,
                tabs,
                now,
            )[k] == usage_of(cats[i], cats[i].id->0, apps, tabs, now) && limit_seconds_spec(
                cats[i],
            ) > 0 && used_seconds_spec(cats[i], apps, tabs, now) >= limit_seconds_spec(cats[i]),
    decreases cats.len(),
{
    let us = usages_spec(cats, apps, tabs, now);
    let d = cats.drop_last();
    let rest = usages_spec(d, apps, tabs, now);
    if k < rest.len() {
        law_usage_over_limit_iff_reached(d, apps, tabs, now, k);
        assert(us[k] == rest[k]);
        let i = choose|i: int|
            0 <= i < d.len() && #[trigger] d[i].id is Some && rest[k] == usage_of(
                d[i],
                d[i].id->0,
                apps,
                tabs,
                now,
            );
        assert(cats[i] == d[i]);
    } else {
        let i = cats.len() - 1;
        assert(cats[i].id is Some);
        assert(us[k] == usage_of(cats[i], cats[i].id->0, apps, tabs, now));
    }
}

/// A domain keyword covers a host only as the host itself or as a parent
/// domain: `twitter.com` covers `mobile.twitter.com` but not
/// `notwitter.com`.
pub proof fn law_domain_match_on_label_boundary(host: Seq<char>, d: Seq<char>)
    requires
        domain_matches(host, d),
    ensures
        host == d || (host.len() > d.len() && host.subrange(host.len() - d.len(), host.len() as int)
            == d && host[host.len() - d.len() - 1] == '.'),
{
    if host != d {
        let dotted = seq!['.'] + d;
        let tail = host.subrange(host.len() - dotted.len(), host.len() as int);
        assert(tail == dotted);
        assert(host.subrange(host.len() - d.len(), host.len() as int) =~= tail.subrange(
            1,
            tail.len() as int,
        ));
        assert(tail[0] == '.');
    }
}

/// When the tracker moves from one session to another, it first closes the
/// old one at that moment, with the time since it started as its duration.
pub proof fn law_switch_closes_previous_session(
    o: OpenSession,
    info: ActiveWindowInfo,
    now: i64,
    plan: PollPlan,
    next: Option<OpenSession>,
)
    requires
        poll_decided(Some(o), Some(info), now, plan, next),
        plan.open is Some,
        open_time_fits(o.session.start_time, now),
    ensures
        plan.close == Some(close_of(o, now)),
        plan.close->0.end_time == now,
        plan.close->0.duration == now - o.session.start_time,
        differs_from(o.session, info),
{
}

/// While the foreground window stays the same application and title, the
/// tracker keeps extending its session and writes nothing.
pub proof fn law_same_window_keeps_session(
    o: OpenSession,
    info: ActiveWindowInfo,
    now: i64,
    plan: PollPlan,
    next: Option<OpenSession>,
)
    requires
        poll_decided(Some(o), Some(info), now, plan, next),
        !differs_from(o.session, info),
    ensures
        plan.close is None,
        plan.open is None,
        next == Some(o),
{
}

/// With no session (as after a reset), a poll never closes anything: the
/// stale session of a cleared store is never written back.
pub proof fn law_no_session_closes_nothing(
    window: Option<ActiveWindowInfo>,
    now: i64,
    plan: PollPlan,
    next: Option<OpenSession>,
)
    requires
        poll_decided(None, window, now, plan, next),
    ensures
        plan.close is None,
{
}

/// Every tab event leaves exactly one open session for its source: the
/// previous one is closed with a non-negative duration and a new, open one
/// starts at the event's time.
pub proof fn law_tab_event_replaces_open_session(
    event: TabEvent,
    previous: Option<(i64, i64)>,
    plan: TabEventPlan,
)
    requires
        tab_event_decided(event, previous, plan),
        previous matches Some((id, start)) ==> open_time_fits(start, event.timestamp),
    ensures
        previous is Some <==> plan.close is Some,
        plan.close matches Some(c) ==> c.duration >= 0 && c.end_time == event.timestamp,
        match (previous, plan.close) {
            (Some((id, _)), Some(c)) => c.id == id,
            _ => true,
        },
        plan.open.end_time is None,
        plan.open.source@ == event.source@,
        plan.open.tab_title@ == event.tab_title@,
        plan.open.tab_url@ == event.tab_url@,
        plan.open.start_time == event.timestamp,
        plan.open.duration_seconds == 0,
        plan.open.id is None,
{
}

/// What one event does to the store's open sessions: the session `plan`
/// closes is the source's previous open one (if it had one), the source then
/// has one open session, the new row starting at the event's time, and every
/// other source's open session is as it was.
pub open spec fn event_step_ok(
    before: Map<Seq<char>, (i64, i64)>,
    after: Map<Seq<char>, (i64, i64)>,
    e: TabEvent,
    plan: TabEventPlan,
    id: i64,
) -> bool {
    &&& (plan.close is Some <==> before.dom().contains(e.source@))
    &&& (plan.close matches Some(c) ==> c.id == before[e.source@].0 && c.end_time == e.timestamp)
    &&& open_session_of(after, e.source@) == Some((id, e.timestamp))
    &&& forall|x: Seq<char>|
        x != e.source@ ==> #[trigger] open_session_of(after, x) == open_session_of(before, x)
}

/// `last` is the source of the last event among `msgs`, or `None` when no
/// message was an event.
pub open spec fn last_event_is(msgs: Seq<Received>, last: Option<Seq<char>>) -> bool {
    match last {
        None => forall|i: int| 0 <= i < msgs.len() ==> #[trigger] msgs[i] is Unreadable,
        Some(l) => exists|i: int|
            0 <= i < msgs.len() && (#[trigger] msgs[i] matches Received::Event(e) && e.source@ == l)
                && forall|j: int| i < j < msgs.len() ==> #[trigger] msgs[j] is Unreadable,
    }
}

/// Finalizing at disconnect closes the open session of `l` and no other.
pub open spec fn only_source_closed(
    before: Map<Seq<char>, (i64, i64)>,
    after: Map<Seq<char>, (i64, i64)>,
    l: Seq<char>,
) -> bool {
    &&& open_session_of(after, l) is None
    &&& forall|x: Seq<char>|
        x != l ==> #[trigger] open_session_of(after, x) == open_session_of(before, x)
}

proof fn lemma_event_step(
    b: Map<Seq<char>, (i64, i64)>,
    e: TabEvent,
    plan: TabEventPlan,
    id: i64,
)
    requires
        distinct_ids(b),
        tab_event_decided(e, open_session_of(b, e.source@), plan),
        id_unused(b, id),
    ensures
        event_step_ok(b, store_after(b, plan, id), e, plan, id),
        distinct_ids(store_after(b, plan, id)),
{
    let a = store_after(b, plan, id);
    let src = e.source@;
    assert forall|x: Seq<char>| x != src implies #[trigger] open_session_of(a, x)
        == open_session_of(b, x) by {
        if b.dom().contains(x) && b.dom().contains(src) {
            assert(b[x].0 != b[src].0);
        }
    }
    assert forall|p: Seq<char>, q: Seq<char>|
        a.dom().contains(p) && a.dom().contains(q) && p != q implies #[trigger] a[p].0
        != #[trigger] a[q].0 by {
        if p != src && q != src {
            assert(open_session_of(a, p) == open_session_of(b, p));
            assert(open_session_of(a, q) == open_session_of(b, q));
        } else if p == src {
            assert(open_session_of(a, q) == open_session_of(b, q));
        } else {
            assert(open_session_of(a, p) == open_session_of(b, p));
        }
    }
}

proof fn lemma_run_prefix(
    open: Map<Seq<char>, (i64, i64)>,
    msgs: Seq<Received>,
    plans: Seq<TabEventPlan>,
    ids: Seq<i64>,
    i: int,
)
    requires
        0 <= i < msgs.len(),
    ensures
        store_run(open, msgs.take(i + 1), plans, ids) == match msgs[i] {
            Received::Unreadable => store_run(open, msgs.take(i), plans, ids),
            Received::Event(_) => store_after(store_run(open, msgs.take(i), plans, ids), plans[i], ids[i]),
        },
{
    assert(msgs.take(i + 1).drop_last() =~= msgs.take(i));
    assert(msgs.take(i + 1).last() == msgs[i]);
}

proof fn lemma_run_distinct(
    open: Map<Seq<char>, (i64, i64)>,
    msgs: Seq<Received>,
    plans: Seq<TabEventPlan>,
    ids: Seq<i64>,
    i: int,
)
    requires
        distinct_ids(open),
        run_decided(open, msgs, plans, ids),
        0 <= i <= msgs.len(),
    ensures
        distinct_ids(store_run(open, msgs.take(i), plans, ids)),
    decreases i,
{
    if i == 0 {
        assert(msgs.take(0) =~= Seq::<Received>::empty());
    } else {
        lemma_run_distinct(open, msgs, plans, ids, i - 1);
        lemma_run_prefix(open, msgs, plans, ids, i - 1);
        let k = i - 1;
        if let Received::Event(e) = msgs[k] {
            assert(msgs[k] matches Received::Event(e));
            lemma_event_step(store_run(open, msgs.take(k), plans, ids), e, plans[k], ids[k]);
        }
    }
}

proof fn lemma_remembered(msgs: Seq<Received>)
    ensures
        last_event_is(msgs, remembered_run(msgs)),
    decreases msgs.len(),
{
    if msgs.len() > 0 {
        let d = msgs.drop_last();
        lemma_remembered(d);
        let n = msgs.len() - 1;
        match msgs.last() {
            Received::Event(e) => {
                assert(msgs[n] matches Received::Event(e) && e.source@ == e.source@);
            },
            Received::Unreadable => {
                match remembered_run(d) {
                    None => {
                        assert forall|i: int| 0 <= i < msgs.len() implies #[trigger] msgs[i] is Unreadable by {
                            if i < n {
                                assert(msgs[i] == d[i]);
                            }
                        }
                    },
                    Some(l) => {
                        let i = choose|i: int|
                            0 <= i < d.len() && (#[trigger] d[i] matches Received::Event(e) && e.source@ == l)
                                && forall|j: int| i < j < d.len() ==> #[trigger] d[j] is Unreadable;
                        assert(msgs[i] == d[i]);
                        assert forall|j: int| i < j < msgs.len() implies #[trigger] msgs[j] is Unreadable by {
                            if j < n {
                                assert(msgs[j] == d[j]);
                            }
                        }
                    },
                }
            },
        }
    }
}

/// Over a whole connection: an unreadable message leaves the store's open
/// sessions as they were, and later events are handled all the same; each
/// event closes only its own source's previous open session and opens one
/// for that source, leaving every other source's open session as it was; no
/// two open sessions ever share a row; and when the connection goes away,
/// the source it remembers is that of the last event, so finalizing closes
/// that source's open session and no other.
pub proof fn law_connection_sessions_per_source(
    open: Map<Seq<char>, (i64, i64)>,
    msgs: Seq<Received>,
    plans: Seq<TabEventPlan>,
    ids: Seq<i64>,
)
    requires
        distinct_ids(open),
        run_decided(open, msgs, plans, ids),
    ensures
        forall|i: int|
            0 <= i < msgs.len() && #[trigger] msgs[i] is Unreadable ==> store_run(
                open,
                msgs.take(i + 1),
                plans,
                ids,
            ) == store_run(open, msgs.take(i), plans, ids),
        forall|i: int|
            0 <= i < msgs.len() ==> (#[trigger] msgs[i] matches Received::Event(e) ==> event_step_ok(
                store_run(open, msgs.take(i), plans, ids),
                store_run(open, msgs.take(i + 1), plans, ids),
                e,
                plans[i],
                ids[i],
            )),
        distinct_ids(store_run(open, msgs, plans, ids)),
        last_event_is(msgs, remembered_run(msgs)),
        match remembered_run(msgs) {
            Some(l) => only_source_closed(
                store_run(open, msgs, plans, ids),
                finalized(store_run(open, msgs, plans, ids), Some(l)),
                l,
            ),
            None => finalized(store_run(open, msgs, plans, ids), None) == store_run(
                open,
                msgs,
                plans,
                ids,
            ),
        },
{
    assert forall|i: int| 0 <= i < msgs.len() && #[trigger] msgs[i] is Unreadable implies store_run(
        open,
        msgs.take(i + 1),
        plans,
        ids,
    ) == store_run(open, msgs.take(i), plans, ids) by {
        lemma_run_prefix(open, msgs, plans, ids, i);
    }
    assert forall|i: int| 0 <= i < msgs.len() implies (#[trigger] msgs[i] matches Received::Event(e)
        ==> event_step_ok(
        store_run(open, msgs.take(i), plans, ids),
        store_run(open, msgs.take(i + 1), plans, ids),
        e,
        plans[i],
        ids[i],
    )) by {
        lemma_run_prefix(open, msgs, plans, ids, i);
        lemma_run_distinct(open, msgs, plans, ids, i);
        if let Received::Event(e) = msgs[i] {
            assert(msgs[i] matches Received::Event(e));
            lemma_event_step(store_run(open, msgs.take(i), plans, ids), e, plans[i], ids[i]);
        }
    }
    lemma_run_distinct(open, msgs, plans, ids, msgs.len() as int);
    assert(msgs.take(msgs.len() as int) =~= msgs);
    lemma_remembered(msgs);
}

/// The tracker never tracks its own window: a poll whose foreground window
/// belongs to "Accountability App" neither closes nor opens a session and
/// keeps whatever session it had, with or without one.
pub proof fn law_own_window_never_tracked(
    cur: Option<OpenSession>,
    info: ActiveWindowInfo,
    now: i64,
    plan: PollPlan,
    next: Option<OpenSession>,
)
    requires
        poll_decided(cur, Some(info), now, plan, next),
        info.app_name@ == "Accountability App"@,
    ensures
        plan.open is None,
        plan.close is None,
        next == cur,
{
}

/// Each application session adds its own time to a category that covers it:
/// a closed session its recorded duration, an open one the time from its
/// start to `now` (neither counting below zero); a session the category does
/// not cover adds nothing. Tab sessions add their time the same way.
pub proof fn law_session_adds_its_time(
    c: BlockCategory,
    apps: Seq<AppSession>,
    tabs: Seq<TabSession>,
    s: AppSession,
    t: TabSession,
    now: i64,
)
    ensures
        used_seconds_spec(c, apps.push(s), tabs, now) == used_seconds_spec(c, apps, tabs, now) + if !app_in_category(s, c) {
            0
        } else if s.end_time is None {
            if now - s.start_time > 0 {
                now - s.start_time
            } else {
                0
            }
        } else if s.duration_seconds > 0 {
            s.duration_seconds as int
        } else {
            0
        },
        used_seconds_spec(c, apps, tabs.push(t), now) == used_seconds_spec(c, apps, tabs, now) + if !tab_in_category(t, c) {
            0
        } else if t.end_time is None {
            if now - t.start_time > 0 {
                now - t.start_time
            } else {
                0
            }
        } else if t.duration_seconds > 0 {
            t.duration_seconds as int
        } else {
            0
        },
{
    let a = app_terms(apps.push(s), c, now);
    assert(a.drop_last() =~= app_terms(apps, c, now));
    let b = tab_terms(tabs.push(t), c, now);
    assert(b.drop_last() =~= tab_terms(tabs, c, now));
}

proof fn lemma_usage_index_at(usages: Seq<CategoryUsage>, id: i64, j: int, k: int)
    requires
        0 <= j <= k < usages.len(),
        usages[k].category_id == id,
        forall|m: int| 0 <= m < k ==> #[trigger] usages[m].category_id != id,
    ensures
        usage_index_from(usages, id, j) == k,
    decreases k - j,
{
    if j < k {
        lemma_usage_index_at(usages, id, j + 1, k);
    }
}

proof fn lemma_blocking_found(
    cats: Seq<BlockCategory>,
    usages: Seq<CategoryUsage>,
    url: Seq<char>,
    title: Seq<char>,
    j: int,
    i: int,
)
    requires
        0 <= j <= i < cats.len(),
        blocks_at(cats, usages, url, title, i),
    ensures
        first_blocking_from(cats, usages, url, title, j) >= 0,
    decreases i - j,
{
    if j < i && !blocks_at(cats, usages, url, title, j) {
        lemma_blocking_found(cats, usages, url, title, j + 1, i);
    }
}

/// A tab whose lowercased URL or title holds one of a category's domain
/// keywords as a whole word is covered by that category; so when the
/// category is enabled, not paused, and its first usage record is over the
/// limit, the tab is blocked.
pub proof fn law_keyword_in_url_or_title_blocks(
    r: BlockDecision,
    cats: Seq<BlockCategory>,
    usages: Seq<CategoryUsage>,
    url: Seq<char>,
    title: Seq<char>,
    i: int,
    k: int,
)
    requires
        decision_is(r, cats, usages, url, title),
        0 <= i < cats.len(),
        0 <= k < usages.len(),
        cats[i].enabled,
        !cats[i].manual_block_paused,
        cats[i].id == Some(usages[k].category_id),
        usages[k].limit_exceeded,
        forall|m: int| 0 <= m < k ==> #[trigger] usages[m].category_id != usages[k].category_id,
        any_keyword_in(lowercase(url), cats[i].domain_keywords.deep_view()) || any_keyword_in(
            lowercase(title),
            cats[i].domain_keywords.deep_view(),
        ),
    ensures
        tab_text_in(url, title, cats[i].domain_keywords.deep_view()),
        r.blocked,
{
    lemma_usage_index_at(usages, usages[k].category_id, 0, k);
    assert(blocks_at(cats, usages, url, title, i));
    lemma_blocking_found(cats, usages, url, title, 0, i);
}

/// Every label of a report comes from its own timestamp: each row's start
/// label and start date are what `fmt_time` and `fmt_date` give for that
/// row's start, a finished row's end label what `fmt_time` gives for its end,
/// and the window's labels those for the shown start and the window's end.
pub proof fn law_report_labels_use_own_times(
    l: ReportLabels,
    window_start: i64,
    window_end: i64,
    es: Seq<EntryView>,
)
    requires
        labels_from_own_times(l, window_start, window_end, es),
    ensures
        forall|i: int|
            0 <= i < es.len() ==> call_ensures(fmt_time, (es[i].start_time,), #[trigger] l.entry_starts@[i]),
        forall|i: int|
            0 <= i < es.len() ==> call_ensures(fmt_date, (es[i].start_time,), #[trigger] l.entry_dates@[i]),
        forall|i: int|
            0 <= i < es.len() && #[trigger] es[i].end_time is Some ==> call_ensures(
                fmt_time,
                (es[i].end_time->0,),
                l.entry_ends@[i],
            ),
        call_ensures(fmt_time, (window_end,), l.window_end),
        es.len() > 0 ==> call_ensures(fmt_time, (es[0].start_time,), l.window_start)
            && call_ensures(fmt_date, (es[0].start_time,), l.date),
        es.len() == 0 ==> call_ensures(fmt_time, (window_start,), l.window_start)
            && call_ensures(fmt_date, (window_start,), l.date),
{
    assert forall|i: int| 0 <= i < es.len() && #[trigger] es[i].end_time is Some implies call_ensures(
        fmt_time,
        (es[i].end_time->0,),
        l.entry_ends@[i],
    ) by {
        assert(es[i].end_time matches Some(t));
    }
}

} // verus!
