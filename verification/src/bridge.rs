//! The decisions of the tab-event bridge: clients (a browser extension, an
//! editor) report the tab they switched to; each report closes the source's
//! previous tab session, opens a new one, and may ask for a block decision.

use vstd::prelude::*;

use crate::matching::open_time_fits;
use crate::model::{BlockDecision, TabSession};
use crate::text::str_equal;
use crate::tracking::SessionClose;

verus! {

/// A tab switch reported by a client.
#[derive(Debug, Clone, PartialEq, Eq)]
pub struct TabEvent {
    pub event_type: Option<String>,
    pub client_event_id: Option<String>,
    pub source: String,
    pub tab_id: Option<i64>,
    pub tab_title: String,
    pub tab_url: String,
    pub timestamp: i64,
}

/// The answer to a tab event that asked for a block decision.
#[derive(Debug, Clone, PartialEq, Eq)]
pub struct BlockDecisionResponse {
    pub response_type: String,
    pub client_event_id: Option<String>,
    pub tab_id: Option<i64>,
    pub blocked: bool,
    pub category_id: Option<i64>,
    pub category_name: Option<String>,
    pub used_seconds: i64,
    pub limit_seconds: i64,
    pub deterrent_mode: String,
    pub popup_interval_ms: i32,
}

/// What one tab event asks of the store: close the source's open session,
/// open a session for the new tab, and whether to answer with a block
/// decision.
pub struct TabEventPlan {
    pub close: Option<SessionClose>,
    pub open: TabSession,
    pub wants_decision: bool,
}

/// The state of one client connection: the source of its last event.
pub struct Connection {
    pub last_source: Option<String>,
}

/// A message a connection receives: a well-formed tab event, or text that
/// does not read as one.
pub enum Received {
    Unreadable,
    Event(TabEvent),
}

/// The source a connection remembers after `msg`: the source of an event,
/// else what it remembered before.
pub open spec fn remembered_after(last: Option<Seq<char>>, msg: Received) -> Option<Seq<char>> {
    match msg {
        Received::Unreadable => last,
        Received::Event(e) => Some(e.source@),
    }
}

/// The source a fresh connection remembers after the messages `msgs`.
pub open spec fn remembered_run(msgs: Seq<Received>) -> Option<Seq<char>>
    decreases msgs.len(),
{
    if msgs.len() == 0 {
        None
    } else {
        remembered_after(remembered_run(msgs.drop_last()), msgs.last())
    }
}

// ---------------------------------------------------------------------------
// The store's open tab sessions, per source
// ---------------------------------------------------------------------------

/// The open session that the store holds for `source` in `open` (a map from
/// each source with an open session to that session's row id and start).
pub open spec fn open_session_of(open: Map<Seq<char>, (i64, i64)>, source: Seq<char>) -> Option<
    (i64, i64),
> {
    if open.dom().contains(source) {
        Some(open[source])
    } else {
        None
    }
}

/// No two open sessions share a row id.
pub open spec fn distinct_ids(open: Map<Seq<char>, (i64, i64)>) -> bool {
    forall|a: Seq<char>, b: Seq<char>|
        open.dom().contains(a) && open.dom().contains(b) && a != b ==> #[trigger] open[a].0
            != #[trigger] open[b].0
}

/// No open session has the row id `id`.
pub open spec fn id_unused(open: Map<Seq<char>, (i64, i64)>, id: i64) -> bool {
    forall|s: Seq<char>| open.dom().contains(s) ==> #[trigger] open[s].0 != id
}

/// The open sessions once the store has carried out `plan`, giving the new
/// session the row id `new_id`: the session the plan closes is no longer
/// open, and the new one is open for its source.
pub open spec fn store_after(open: Map<Seq<char>, (i64, i64)>, plan: TabEventPlan, new_id: i64) -> Map<
    Seq<char>,
    (i64, i64),
> {
    let kept = match plan.close {
        Some(c) => Map::new(
            |s: Seq<char>| open.dom().contains(s) && open[s].0 != c.id,
            |s: Seq<char>| open[s],
        ),
        None => open,
    };
    kept.insert(plan.open.source@, (new_id, plan.open.start_time))
}

/// The open sessions after a connection's messages `msgs`, starting from
/// `open`: an unreadable message changes nothing; the `i`-th message, an
/// event, has the store carry out `plans[i]` with new row id `ids[i]`.
pub open spec fn store_run(
    open: Map<Seq<char>, (i64, i64)>,
    msgs: Seq<Received>,
    plans: Seq<TabEventPlan>,
    ids: Seq<i64>,
) -> Map<Seq<char>, (i64, i64)>
    decreases msgs.len(),
{
    if msgs.len() == 0 {
        open
    } else {
        let before = store_run(open, msgs.drop_last(), plans, ids);
        match msgs.last() {
            Received::Unreadable => before,
            Received::Event(_) => store_after(before, plans[msgs.len() - 1], ids[msgs.len() - 1]),
        }
    }
}

/// Each event's plan is what `handle_event` decides given the open session
/// that the store then holds for the event's source, and each new row gets
/// an id that no open session has.
pub open spec fn run_decided(
    open: Map<Seq<char>, (i64, i64)>,
    msgs: Seq<Received>,
    plans: Seq<TabEventPlan>,
    ids: Seq<i64>,
) -> bool {
    &&& plans.len() == msgs.len()
    &&& ids.len() == msgs.len()
    &&& forall|i: int|
        0 <= i < msgs.len() ==> (#[trigger] msgs[i] matches Received::Event(e) ==> {
            let before = store_run(open, msgs.take(i), plans, ids);
            &&& tab_event_decided(e, open_session_of(before, e.source@), plans[i])
            &&& id_unused(before, ids[i])
        })
}

/// The open sessions once the sessions of the source `last` (the one the
/// connection remembers when it goes away) are finalized.
pub open spec fn finalized(open: Map<Seq<char>, (i64, i64)>, last: Option<Seq<char>>) -> Map<
    Seq<char>,
    (i64, i64),
> {
    match last {
        Some(l) => open.remove(l),
        None => open,
    }
}

/// An event asks for a block decision unless it names a type other than
/// `tab_event`.
pub open spec fn asks_decision(event_type: Option<Seq<char>>) -> bool {
    match event_type {
        Some(t) => t == "tab_event"@,
        None => true,
    }
}

/// `plan` is what `event` decides, given the source's open session
/// `previous` (its row id and start time): close that session at the event's
/// time, with the time since it started (never negative), and open a session
/// for the event's tab starting then.
pub open spec fn tab_event_decided(event: TabEvent, previous: Option<(i64, i64)>, plan: TabEventPlan) -> bool {
    let now = event.timestamp;
    &&& plan.close == match previous {
        Some((id, start)) => Some(
            SessionClose {
                id,
                end_time: now,
                duration: if now - start > 0 {
                    (now - start) as i64
                } else {
                    0
                },
            },
        ),
        None => None,
    }
    &&& plan.open.id is None
    &&& plan.open.source@ == event.source@
    &&& plan.open.tab_title@ == event.tab_title@
    &&& plan.open.tab_url@ == event.tab_url@
    &&& plan.open.start_time == now
    &&& plan.open.end_time is None
    &&& plan.open.duration_seconds == 0
    &&& plan.wants_decision == asks_decision(event.event_type.deep_view())
}

impl Connection {
    /// A connection that has seen no event.
    pub fn new() -> (c: Self)
        ensures
            c.last_source is None,
    {
        Connection { last_source: None }
    }

    /// Handles a well-formed tab event, given the open session its source
    /// had (`None` when there was none or it could not be read), and
    /// remembers the event's source.
    pub fn handle_event(&mut self, event: &TabEvent, previous: Option<(i64, i64)>) -> (plan:
        TabEventPlan)
        requires
            previous matches Some((id, start)) ==> open_time_fits(start, event.timestamp),
        ensures
            tab_event_decided(*event, previous, plan),
            final(self).last_source.deep_view() == Some(event.source@),
    {
        let now = event.timestamp;
        let close = match previous {
            Some((id, start)) => {
                let d = now - start;
                Some(SessionClose { id, end_time: now, duration: if d > 0 { d } else { 0 } })
            },
            None => None,
        };
        let open = TabSession {
            id: None,
            source: event.source.clone(),
            tab_url: event.tab_url.clone(),
            tab_title: event.tab_title.clone(),
            start_time: now,
            end_time: None,
            duration_seconds: 0,
        };
        let wants_decision = match &event.event_type {
            Some(t) => str_equal(t.as_str(), "tab_event"),
            None => true,
        };
        self.last_source = Some(event.source.clone());
        TabEventPlan { close, open, wants_decision }
    }

    /// Handles one received message: an unreadable one changes nothing and
    /// asks nothing of the store; an event is handled as `handle_event` does.
    pub fn receive(&mut self, msg: &Received, previous: Option<(i64, i64)>) -> (plan: Option<
        TabEventPlan,
    >)
        requires
            *msg matches Received::Event(e) ==> (previous matches Some((id, start))
                ==> open_time_fits(start, e.timestamp)),
        ensures
            final(self).last_source.deep_view() == remembered_after(
                old(self).last_source.deep_view(),
                *msg,
            ),
            *msg is Unreadable ==> plan is None,
            *msg matches Received::Event(e) ==> (plan matches Some(p) && tab_event_decided(
                e,
                previous,
                p,
            )),
    {
        match msg {
            Received::Unreadable => None,
            Received::Event(e) => Some(self.handle_event(e, previous)),
        }
    }

    /// The client went away: the source whose open sessions are to be
    /// finalized, if the connection saw any event.
    pub fn disconnected(&self) -> (r: Option<String>)
        ensures
            r.deep_view() == self.last_source.deep_view(),
    {
        match &self.last_source {
            Some(s) => Some(s.clone()),
            None => None,
        }
    }
}

/// The response to `event` carrying `decision`.
pub fn block_response(event: &TabEvent, decision: BlockDecision) -> (r: BlockDecisionResponse)
    ensures
        r.response_type@ == "block_decision"@,
        r.client_event_id.deep_view() == event.client_event_id.deep_view(),
        r.tab_id == event.tab_id,
        r.blocked == decision.blocked,
        r.category_id == decision.category_id,
        r.category_name == decision.category_name,
        r.used_seconds == decision.used_seconds,
        r.limit_seconds == decision.limit_seconds,
        r.deterrent_mode == decision.deterrent_mode,
        r.popup_interval_ms == decision.popup_interval_ms,
{
    let client_event_id = match &event.client_event_id {
        Some(c) => Some(c.clone()),
        None => None,
    };
    BlockDecisionResponse {
        response_type: String::from_str("block_decision"),
        client_event_id,
        tab_id: event.tab_id,
        blocked: decision.blocked,
        category_id: decision.category_id,
        category_name: decision.category_name,
        used_seconds: decision.used_seconds,
        limit_seconds: decision.limit_seconds,
        deterrent_mode: decision.deterrent_mode,
        popup_interval_ms: decision.popup_interval_ms,
    }
}

} // verus!
