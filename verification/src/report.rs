//! Markdown session reports: application and tab sessions merged into one
//! timeline, ordered by start time.

use vstd::prelude::*;

use chrono::TimeZone;

use crate::model::{AppSession, TabSession};
use crate::quota::{all_non_negative, lemma_sum_prefix_le, lemma_sum_step, sum_of};
use crate::text::{chars_of, decimal, decimal_u64, push_all, push_str, str_equal, string_of};

verus! {

// ---------------------------------------------------------------------------
// Durations
// ---------------------------------------------------------------------------

/// How a number of seconds is shown: hours and minutes from one hour on,
/// minutes and seconds from one minute on, else seconds; negative counts as
/// zero.
pub open spec fn duration_text(secs: int) -> Seq<char> {
    let s: nat = if secs > 0 {
        secs as nat
    } else {
        0
    };
    let h = s / 3600;
    let m = (s % 3600) / 60;
    let r = s % 60;
    if h > 0 {
        decimal(h) + "h "@ + decimal(m) + "m"@
    } else if m > 0 {
        decimal(m) + "m "@ + decimal(r) + "s"@
    } else {
        decimal(r) + "s"@
    }
}

fn duration_chars(secs: i64) -> (r: Vec<char>)
    ensures
        r@ == duration_text(secs as int),
{
    let s: u64 = if secs > 0 {
        secs as u64
    } else {
        0
    };
    let h = s / 3600;
    let m = (s % 3600) / 60;
    let rem = s % 60;
    let mut out: Vec<char> = Vec::new();
    if h > 0 {
        let hd = decimal_u64(h);
        push_all(&mut out, hd.as_slice());
        push_str(&mut out, "h ");
        let md = decimal_u64(m);
        push_all(&mut out, md.as_slice());
        push_str(&mut out, "m");
    } else if m > 0 {
        let md = decimal_u64(m);
        push_all(&mut out, md.as_slice());
        push_str(&mut out, "m ");
        let sd = decimal_u64(rem);
        push_all(&mut out, sd.as_slice());
        push_str(&mut out, "s");
    } else {
        let sd = decimal_u64(rem);
        push_all(&mut out, sd.as_slice());
        push_str(&mut out, "s");
    }
    out
}

/// A number of seconds as text, such as `1h 5m`, `3m 20s` or `45s`.
pub fn fmt_duration(secs: i64) -> (r: String)
    ensures
        r@ == duration_text(secs as int),
{
    let cs = duration_chars(secs);
    string_of(cs.as_slice())
}

// ---------------------------------------------------------------------------
// Local clock times
// ---------------------------------------------------------------------------

/// An ASCII decimal digit.
pub open spec fn is_digit(c: char) -> bool {
    '0' <= c && c <= '9'
}

/// Text of the form `HH:MM:SS`: eight characters, digits around two colons.
pub open spec fn is_clock_text(s: Seq<char>) -> bool {
    &&& s.len() == 8
    &&& s[2] == ':'
    &&& s[5] == ':'
    &&& is_digit(s[0]) && is_digit(s[1]) && is_digit(s[3]) && is_digit(s[4])
    &&& is_digit(s[6]) && is_digit(s[7])
}

/// Text of the form `YYYY-MM-DD`: a year of at least four digits (with a
/// leading sign outside years 0 to 9999), then two-digit month and day.
pub open spec fn is_date_text(s: Seq<char>) -> bool {
    let n = s.len() as int;
    &&& n >= 10
    &&& s[n - 6] == '-'
    &&& s[n - 3] == '-'
    &&& is_digit(s[n - 5]) && is_digit(s[n - 4]) && is_digit(s[n - 2]) && is_digit(s[n - 1])
    &&& forall|i: int|
        0 <= i < n - 6 ==> (is_digit(#[trigger] s[i]) || (i == 0 && (s[i] == '+' || s[i] == '-')))
}

/// The first second chrono's `DateTime` can hold: -262143-01-01 00:00:00 UTC
/// (its `MIN_YEAR`).
pub const EARLIEST_CHRONO_SECOND: i64 = -8334601228800;

/// The last second chrono's `DateTime` can hold: 262142-12-31 23:59:59 UTC
/// (its `MAX_YEAR`).
pub const LATEST_CHRONO_SECOND: i64 = 8210266876799;

/// `ts` is a Unix time that chrono can turn into a date and time.
pub open spec fn chrono_can_hold(ts: int) -> bool {
    EARLIEST_CHRONO_SECOND <= ts <= LATEST_CHRONO_SECOND
}

/// Calls chrono's `Local.timestamp_opt(ts, 0)`, and when the local time is
/// unambiguous formats it with `DateTime::format(pattern)`. As chrono
/// documents, `timestamp_opt` returns `None` on an out-of-range number of
/// seconds and otherwise always a single time; its range is that of
/// `NaiveDate` (`MIN_YEAR` to `MAX_YEAR`). Which time comes out depends on the
/// machine's time zone, so only the shape of the text is claimed, as chrono's
/// format table documents it: `%H`, `%M`, `%S`, `%m` and `%d` zero-padded to
/// two digits, `%Y` to four with a sign outside 0 to 9999.
#[verifier::external_body]
fn local_clock_text(ts: i64, pattern: &str) -> (r: Option<String>)
    requires
        pattern@ == "%H:%M:%S"@ || pattern@ == "%Y-%m-%d"@,
    ensures
        r is Some <==> chrono_can_hold(ts as int),
        pattern@ == "%H:%M:%S"@ ==> (r matches Some(s) ==> is_clock_text(s@)),
        pattern@ == "%Y-%m-%d"@ ==> (r matches Some(s) ==> is_date_text(s@)),
{
    match chrono::Local.timestamp_opt(ts, 0).single() {
        Some(dt) => Some(dt.format(pattern).to_string()),
        None => None,
    }
}

/// The local clock time of `ts` as `HH:MM:SS`, or `?` when chrono cannot
/// hold `ts`.
pub fn fmt_time(ts: i64) -> (r: String)
    ensures
        chrono_can_hold(ts as int) ==> is_clock_text(r@),
        !chrono_can_hold(ts as int) ==> r@ == "?"@,
{
    match local_clock_text(ts, "%H:%M:%S") {
        Some(s) => s,
        None => String::from_str("?"),
    }
}

/// The local date of `ts` as `YYYY-MM-DD`, or empty when chrono cannot hold
/// `ts`.
pub fn fmt_date(ts: i64) -> (r: String)
    ensures
        chrono_can_hold(ts as int) ==> is_date_text(r@),
        !chrono_can_hold(ts as int) ==> r@.len() == 0,
{
    match local_clock_text(ts, "%Y-%m-%d") {
        Some(s) => s,
        None => String::new(),
    }
}

// ---------------------------------------------------------------------------
// Entries
// ---------------------------------------------------------------------------

/// One line of a report.
pub struct ReportEntry {
    pub start_time: i64,
    pub end_time: Option<i64>,
    pub duration_seconds: i64,
    pub source: String,
    pub detail: String,
}

/// A report line as values.
pub struct EntryView {
    pub start_time: i64,
    pub end_time: Option<i64>,
    pub duration_seconds: i64,
    pub source: Seq<char>,
    pub detail: Seq<char>,
}

impl View for ReportEntry {
    type V = EntryView;

    open spec fn view(&self) -> EntryView {
        EntryView {
            start_time: self.start_time,
            end_time: self.end_time,
            duration_seconds: self.duration_seconds,
            source: self.source@,
            detail: self.detail@,
        }
    }
}

/// The views of a sequence of entries.
pub open spec fn views(v: Seq<ReportEntry>) -> Seq<EntryView> {
    Seq::new(v.len(), |i: int| v[i]@)
}

/// The report line of an application session: `app: <name>`, with the window
/// title as detail.
pub open spec fn app_entry(s: AppSession) -> EntryView {
    EntryView {
        start_time: s.start_time,
        end_time: s.end_time,
        duration_seconds: s.duration_seconds,
        source: "app: "@ + s.app_name@,
        detail: match s.window_title {
            Some(t) => t@,
            None => seq![],
        },
    }
}

/// The report line of a tab session: its source, with `<title> — <url>` as
/// detail.
pub open spec fn tab_entry(s: TabSession) -> EntryView {
    EntryView {
        start_time: s.start_time,
        end_time: s.end_time,
        duration_seconds: s.duration_seconds,
        source: s.source@,
        detail: s.tab_title@ + " \u{2014} "@ + s.tab_url@,
    }
}

/// Application lines followed by tab lines, each in input order.
pub open spec fn merged_entries(apps: Seq<AppSession>, tabs: Seq<TabSession>) -> Seq<EntryView> {
    Seq::new(apps.len(), |i: int| app_entry(apps[i])) + Seq::new(
        tabs.len(),
        |i: int| tab_entry(tabs[i]),
    )
}

/// First index at or after `j` whose line starts later than `t`, or the
/// length.
pub open spec fn insert_pos(s: Seq<EntryView>, t: i64, j: int) -> int
    decreases s.len() - j,
{
    if 0 <= j < s.len() {
        if s[j].start_time > t {
            j
        } else {
            insert_pos(s, t, j + 1)
        }
    } else {
        s.len() as int
    }
}

/// `e` inserted after every line that starts no later than it.
pub open spec fn insert_sorted(s: Seq<EntryView>, e: EntryView) -> Seq<EntryView> {
    s.insert(insert_pos(s, e.start_time, 0), e)
}

/// The lines ordered by start time; lines that start together keep their
/// order (a stable sort).
pub open spec fn sort_by_start(s: Seq<EntryView>) -> Seq<EntryView>
    decreases s.len(),
{
    if s.len() == 0 {
        s
    } else {
        insert_sorted(sort_by_start(s.drop_last()), s.last())
    }
}

proof fn lemma_insert_pos_bounds(s: Seq<EntryView>, t: i64, j: int)
    requires
        0 <= j <= s.len(),
    ensures
        j <= insert_pos(s, t, j) <= s.len(),
    decreases s.len() - j,
{
    if j < s.len() && s[j].start_time <= t {
        lemma_insert_pos_bounds(s, t, j + 1);
    }
}

fn app_report_entry(s: &AppSession) -> (r: ReportEntry)
    ensures
        r@ == app_entry(*s),
{
    let mut src: Vec<char> = Vec::new();
    push_str(&mut src, "app: ");
    push_str(&mut src, s.app_name.as_str());
    let detail = match &s.window_title {
        Some(t) => t.clone(),
        None => String::new(),
    };
    ReportEntry {
        start_time: s.start_time,
        end_time: s.end_time,
        duration_seconds: s.duration_seconds,
        source: string_of(src.as_slice()),
        detail,
    }
}

fn tab_report_entry(s: &TabSession) -> (r: ReportEntry)
    ensures
        r@ == tab_entry(*s),
{
    let mut detail: Vec<char> = Vec::new();
    push_str(&mut detail, s.tab_title.as_str());
    push_str(&mut detail, " \u{2014} ");
    push_str(&mut detail, s.tab_url.as_str());
    ReportEntry {
        start_time: s.start_time,
        end_time: s.end_time,
        duration_seconds: s.duration_seconds,
        source: s.source.clone(),
        detail: string_of(detail.as_slice()),
    }
}

/// Inserts `e` after every entry that starts no later than it.
fn insert_entry(v: &mut Vec<ReportEntry>, e: ReportEntry)
    ensures
        views(final(v)@) == insert_sorted(views(old(v)@), e@),
{
    let ghost vs = views(v@);
    let mut k: usize = 0;
    while k < v.len() && v[k].start_time <= e.start_time
        invariant
            k <= v@.len(),
            vs == views(v@),
            insert_pos(vs, e.start_time, k as int) == insert_pos(vs, e.start_time, 0),
        decreases v@.len() - k,
    {
        k = k + 1;
    }
    let ghost ev = e@;
    v.insert(k, e);
    assert(views(v@) =~= vs.insert(k as int, ev));
}

/// The entries of a report, ordered by start time.
fn sorted_entries(apps: &[AppSession], tabs: &[TabSession]) -> (r: Vec<ReportEntry>)
    ensures
        views(r@) == sort_by_start(merged_entries(apps@, tabs@)),
{
    let ghost merged = merged_entries(apps@, tabs@);
    let mut out: Vec<ReportEntry> = Vec::new();
    let mut i: usize = 0;
    while i < apps.len()
        invariant
            i <= apps@.len(),
            merged == merged_entries(apps@, tabs@),
            views(out@) == sort_by_start(merged.take(i as int)),
        decreases apps@.len() - i,
    {
        let e = app_report_entry(&apps[i]);
        insert_entry(&mut out, e);
        assert(merged.take(i + 1).drop_last() =~= merged.take(i as int));
        assert(merged.take(i + 1).last() == app_entry(apps@[i as int]));
        i = i + 1;
    }
    let mut j: usize = 0;
    while j < tabs.len()
        invariant
            j <= tabs@.len(),
            apps@.len() + tabs@.len() == merged.len(),
            merged == merged_entries(apps@, tabs@),
            views(out@) == sort_by_start(merged.take(apps@.len() + j as int)),
        decreases tabs@.len() - j,
    {
        let e = tab_report_entry(&tabs[j]);
        insert_entry(&mut out, e);
        assert(merged.take(apps@.len() + j as int + 1).drop_last() =~= merged.take(apps@.len() + j as int));
        assert(merged.take(apps@.len() + j as int + 1).last() == tab_entry(tabs@[j as int]));
        j = j + 1;
    }
    assert(merged.take((apps@.len() + tabs@.len()) as int) =~= merged);
    out
}

// ---------------------------------------------------------------------------
// Rendering
// ---------------------------------------------------------------------------

/// The clock labels a report shows: the date and the start and end times of
/// the window shown, and each entry's start and end (`open` for an entry
/// still running) and the date it started.
pub struct ReportLabels {
    pub date: String,
    pub window_start: String,
    pub window_end: String,
    pub entry_starts: Vec<String>,
    pub entry_ends: Vec<String>,
    pub entry_dates: Vec<String>,
}

/// Report labels as values.
pub struct LabelsView {
    pub date: Seq<char>,
    pub window_start: Seq<char>,
    pub window_end: Seq<char>,
    pub entry_starts: Seq<Seq<char>>,
    pub entry_ends: Seq<Seq<char>>,
    pub entry_dates: Seq<Seq<char>>,
}

impl View for ReportLabels {
    type V = LabelsView;

    open spec fn view(&self) -> LabelsView {
        LabelsView {
            date: self.date@,
            window_start: self.window_start@,
            window_end: self.window_end@,
            entry_starts: self.entry_starts.deep_view(),
            entry_ends: self.entry_ends.deep_view(),
            entry_dates: self.entry_dates.deep_view(),
        }
    }
}

/// `d` with every `|` written as `\|`, so that it stays inside a table cell.
pub open spec fn escape_pipes(d: Seq<char>) -> Seq<char>
    decreases d.len(),
{
    if d.len() == 0 {
        seq![]
    } else {
        escape_pipes(d.drop_last()) + if d.last() == '|' {
            seq!['\\', '|']
        } else {
            seq![d.last()]
        }
    }
}

/// Row `i` shows its date: it has one, and it is the first row or its date
/// differs from the row before.
pub open spec fn shows_date(dates: Seq<Seq<char>>, i: int) -> bool {
    dates[i].len() > 0 && (i == 0 || dates[i] != dates[i - 1])
}

/// What row `i`'s time cell starts with: its date and a space where it
/// shows the date, else nothing.
pub open spec fn date_prefix(dates: Seq<Seq<char>>, i: int) -> Seq<char> {
    if shows_date(dates, i) {
        dates[i] + " "@
    } else {
        seq![]
    }
}

/// One table row: optional date, times, duration, source and escaped detail.
pub open spec fn row_text(e: EntryView, prefix: Seq<char>, start: Seq<char>, end: Seq<char>) -> Seq<
    char,
> {
    "| "@ + prefix + start + "\u{2013}"@ + end + " | "@ + duration_text(e.duration_seconds as int)
        + " | "@ + e.source + " | "@ + escape_pipes(e.detail) + " |\n"@
}

/// The table rows of `es`, row `i` using labels `starts[i]`, `ends[i]` and
/// `dates[i]`.
pub open spec fn rows_text(
    es: Seq<EntryView>,
    starts: Seq<Seq<char>>,
    ends: Seq<Seq<char>>,
    dates: Seq<Seq<char>>,
) -> Seq<char>
    decreases es.len(),
{
    if es.len() == 0 {
        seq![]
    } else {
        rows_text(es.drop_last(), starts, ends, dates) + row_text(
            es.last(),
            date_prefix(dates, es.len() - 1),
            starts[es.len() - 1],
            ends[es.len() - 1],
        )
    }
}

/// Seconds each entry contributes to the tracked total (negative counts as
/// zero).
pub open spec fn tracked_terms(es: Seq<EntryView>) -> Seq<int> {
    Seq::new(
        es.len(),
        |i: int|
            if es[i].duration_seconds > 0 {
                es[i].duration_seconds as int
            } else {
                0
            },
    )
}

/// Where the report's window is shown to start: at the first entry, or at
/// `window_start` when there is none.
pub open spec fn shown_start(window_start: i64, es: Seq<EntryView>) -> i64 {
    if es.len() == 0 {
        window_start
    } else {
        es[0].start_time
    }
}

/// The wall-clock time from `start` to `window_end`; negative counts as zero.
pub open spec fn elapsed_spec(start: i64, window_end: i64) -> int {
    if window_end - start > 0 {
        window_end - start
    } else {
        0
    }
}

/// The report body: a table of the entries, or a note that there are none.
pub open spec fn body_text(es: Seq<EntryView>, l: LabelsView) -> Seq<char> {
    if es.len() == 0 {
        "_No tracked activity in this window._\n"@
    } else {
        "| Time | Duration | Source | Detail |\n"@ + "|------|----------|--------|--------|\n"@
            + rows_text(es, l.entry_starts, l.entry_ends, l.entry_dates)
    }
}

/// The report's title with the date, and the window with its elapsed time.
pub open spec fn head_text(l: LabelsView, elapsed: int) -> Seq<char> {
    "# Session Report \u{2014} "@ + l.date + "\n\n"@ + "**Window:** "@ + l.window_start
        + " \u{2013} "@ + l.window_end + " ("@ + duration_text(elapsed) + " elapsed)\n\n"@
}

/// The report's footer: the number of entries and the tracked time against
/// the elapsed time.
pub open spec fn foot_text(n: nat, total: int, elapsed: int) -> Seq<char> {
    "\n---\n"@ + decimal(n) + " entries. Tracked switch-time: "@ + duration_text(total) + " vs "@
        + duration_text(elapsed) + " elapsed.\n"@
}

/// The whole report: title and window, body, footer. The window is shown
/// from its first entry on, and the elapsed time is counted from there.
pub open spec fn report_text(
    window_start: i64,
    window_end: i64,
    es: Seq<EntryView>,
    l: LabelsView,
) -> Seq<char> {
    let elapsed = elapsed_spec(shown_start(window_start, es), window_end);
    head_text(l, elapsed) + body_text(es, l) + foot_text(
        es.len(),
        sum_of(tracked_terms(es)),
        elapsed,
    )
}

/// The report can be computed without overflow.
pub open spec fn report_computable(window_start: i64, window_end: i64, es: Seq<EntryView>) -> bool {
    &&& i64::MIN <= window_end - shown_start(window_start, es) <= i64::MAX
    &&& sum_of(tracked_terms(es)) <= i64::MAX
}

fn escaped_chars(d: &str) -> (r: Vec<char>)
    ensures
        r@ == escape_pipes(d@),
{
    let cs = chars_of(d);
    let mut out: Vec<char> = Vec::new();
    let mut i: usize = 0;
    while i < cs.len()
        invariant
            i <= cs@.len(),
            cs@ == d@,
            out@ == escape_pipes(cs@.take(i as int)),
        decreases cs@.len() - i,
    {
        assert(cs@.take(i + 1).drop_last() =~= cs@.take(i as int));
        if cs[i] == '|' {
            out.push('\\');
            out.push('|');
        } else {
            out.push(cs[i]);
        }
        assert(out@ =~= escape_pipes(cs@.take(i + 1)));
        i = i + 1;
    }
    assert(cs@.take(cs@.len() as int) =~= cs@);
    out
}

fn row_chars(e: &ReportEntry, prefix: &[char], start: &String, end: &String) -> (r: Vec<char>)
    ensures
        r@ == row_text(e@, prefix@, start@, end@),
{
    let mut row: Vec<char> = Vec::new();
    push_str(&mut row, "| ");
    push_all(&mut row, prefix);
    push_str(&mut row, start.as_str());
    push_str(&mut row, "\u{2013}");
    push_str(&mut row, end.as_str());
    push_str(&mut row, " | ");
    let d = duration_chars(e.duration_seconds);
    push_all(&mut row, d.as_slice());
    push_str(&mut row, " | ");
    push_str(&mut row, e.source.as_str());
    push_str(&mut row, " | ");
    let x = escaped_chars(e.detail.as_str());
    push_all(&mut row, x.as_slice());
    push_str(&mut row, " |\n");
    assert(row@ =~= row_text(e@, prefix@, start@, end@));
    row
}

fn total_of(entries: &[ReportEntry]) -> (r: i64)
    requires
        sum_of(tracked_terms(views(entries@))) <= i64::MAX,
    ensures
        r == sum_of(tracked_terms(views(entries@))),
{
    let ghost terms = tracked_terms(views(entries@));
    let mut total: i64 = 0;
    let mut k: usize = 0;
    while k < entries.len()
        invariant
            k <= entries@.len(),
            terms == tracked_terms(views(entries@)),
            all_non_negative(terms),
            sum_of(terms) <= i64::MAX,
            total == sum_of(terms.take(k as int)),
        decreases entries@.len() - k,
    {
        proof {
            lemma_sum_step(terms, k as int);
            lemma_sum_prefix_le(terms, k + 1);
        }
        let d = entries[k].duration_seconds;
        if d > 0 {
            total = total + d;
        }
        k = k + 1;
    }
    assert(terms.take(entries@.len() as int) =~= terms);
    total
}

fn head_chars(labels: &ReportLabels, elapsed: i64) -> (r: Vec<char>)
    ensures
        r@ == head_text(labels@, elapsed as int),
{
    let mut out: Vec<char> = Vec::new();
    push_str(&mut out, "# Session Report \u{2014} ");
    push_str(&mut out, labels.date.as_str());
    push_str(&mut out, "\n\n");
    push_str(&mut out, "**Window:** ");
    push_str(&mut out, labels.window_start.as_str());
    push_str(&mut out, " \u{2013} ");
    push_str(&mut out, labels.window_end.as_str());
    push_str(&mut out, " (");
    let el = duration_chars(elapsed);
    push_all(&mut out, el.as_slice());
    push_str(&mut out, " elapsed)\n\n");
    assert(out@ =~= head_text(labels@, elapsed as int));
    out
}

/// The date prefix of row `i`.
fn prefix_chars(dates: &Vec<String>, i: usize) -> (r: Vec<char>)
    requires
        i < dates@.len(),
    ensures
        r@ == date_prefix(dates.deep_view(), i as int),
{
    let ghost ds = dates.deep_view();
    assert(ds[i as int] == dates@[i as int]@);
    let dc = chars_of(dates[i].as_str());
    let show = if dc.len() == 0 {
        false
    } else if i == 0 {
        true
    } else {
        assert(ds[i - 1] == dates@[i - 1]@);
        !str_equal(dates[i].as_str(), dates[i - 1].as_str())
    };
    let mut out: Vec<char> = Vec::new();
    if show {
        push_all(&mut out, dc.as_slice());
        out.push(' ');
    }
    proof {
        reveal_strlit(" ");
    }
    assert(out@ =~= date_prefix(ds, i as int));
    out
}

fn body_chars(entries: &[ReportEntry], labels: &ReportLabels) -> (r: Vec<char>)
    requires
        labels.entry_starts@.len() == entries@.len(),
        labels.entry_ends@.len() == entries@.len(),
        labels.entry_dates@.len() == entries@.len(),
    ensures
        r@ == body_text(views(entries@), labels@),
{
    let ghost es = views(entries@);
    let ghost l = labels@;
    let mut body: Vec<char> = Vec::new();
    if entries.len() == 0 {
        push_str(&mut body, "_No tracked activity in this window._\n");
    } else {
        push_str(&mut body, "| Time | Duration | Source | Detail |\n");
        push_str(&mut body, "|------|----------|--------|--------|\n");
        let ghost table_head = body@;
        let mut i: usize = 0;
        while i < entries.len()
            invariant
                i <= entries@.len(),
                es == views(entries@),
                l == labels@,
                labels.entry_starts@.len() == entries@.len(),
                labels.entry_ends@.len() == entries@.len(),
                labels.entry_dates@.len() == entries@.len(),
                body@ == table_head + rows_text(
                    es.take(i as int),
                    l.entry_starts,
                    l.entry_ends,
                    l.entry_dates,
                ),
            decreases entries@.len() - i,
        {
            let prefix = prefix_chars(&labels.entry_dates, i);
            let row = row_chars(
                &entries[i],
                prefix.as_slice(),
                &labels.entry_starts[i],
                &labels.entry_ends[i],
            );
            push_all(&mut body, row.as_slice());
            assert(es.take(i + 1).drop_last() =~= es.take(i as int));
            assert(rows_text(es.take(i + 1), l.entry_starts, l.entry_ends, l.entry_dates)
                == rows_text(es.take(i as int), l.entry_starts, l.entry_ends, l.entry_dates)
                + row_text(
                es[i as int],
                date_prefix(l.entry_dates, i as int),
                l.entry_starts[i as int],
                l.entry_ends[i as int],
            ));
            assert(body@ =~= table_head + rows_text(
                es.take(i + 1),
                l.entry_starts,
                l.entry_ends,
                l.entry_dates,
            ));
            i = i + 1;
        }
        assert(es.take(entries@.len() as int) =~= es);
    }
    assert(body@ =~= body_text(es, l));
    body
}

fn foot_chars(n: usize, total: i64, elapsed: i64) -> (r: Vec<char>)
    ensures
        r@ == foot_text(n as nat, total as int, elapsed as int),
{
    let mut foot: Vec<char> = Vec::new();
    push_str(&mut foot, "\n---\n");
    let nd = decimal_u64(n as u64);
    push_all(&mut foot, nd.as_slice());
    push_str(&mut foot, " entries. Tracked switch-time: ");
    let tr = duration_chars(total);
    push_all(&mut foot, tr.as_slice());
    push_str(&mut foot, " vs ");
    let el = duration_chars(elapsed);
    push_all(&mut foot, el.as_slice());
    push_str(&mut foot, " elapsed.\n");
    assert(foot@ =~= foot_text(n as nat, total as int, elapsed as int));
    foot
}

/// The report text for entries already in order, with the given clock
/// labels; the window is shown from the first entry on.
pub fn render_report(
    window_start: i64,
    window_end: i64,
    entries: &[ReportEntry],
    labels: &ReportLabels,
) -> (r: String)
    requires
        labels.entry_starts@.len() == entries@.len(),
        labels.entry_ends@.len() == entries@.len(),
        labels.entry_dates@.len() == entries@.len(),
        report_computable(window_start, window_end, views(entries@)),
    ensures
        r@ == report_text(window_start, window_end, views(entries@), labels@),
{
    let start = if entries.len() == 0 {
        window_start
    } else {
        entries[0].start_time
    };
    let span = window_end - start;
    let elapsed: i64 = if span > 0 {
        span
    } else {
        0
    };
    let total = total_of(entries);
    let mut out = head_chars(labels, elapsed);
    let body = body_chars(entries, labels);
    push_all(&mut out, body.as_slice());
    let foot = foot_chars(entries.len(), total, elapsed);
    push_all(&mut out, foot.as_slice());
    string_of(out.as_slice())
}

// ---------------------------------------------------------------------------
// Reports
// ---------------------------------------------------------------------------

/// `s` is a clock text that `fmt_time` gives for `ts` (the local time
/// depends on the machine's time zone, so this says which call produced it,
/// not which text it is).
pub open spec fn time_text_of(ts: i64, s: String) -> bool {
    call_ensures(fmt_time, (ts,), s)
}

/// `s` is a date text that `fmt_date` gives for `ts`.
pub open spec fn date_text_of(ts: i64, s: String) -> bool {
    call_ensures(fmt_date, (ts,), s)
}

/// Every label of `l` is what `fmt_time` or `fmt_date` gives for its own
/// timestamp: the window's date and start for the shown start, its end for
/// `window_end`, and each entry's start, start date and end (unless it is
/// still running) for that entry's own times.
pub open spec fn labels_from_own_times(
    l: ReportLabels,
    window_start: i64,
    window_end: i64,
    es: Seq<EntryView>,
) -> bool {
    &&& l.entry_starts@.len() == es.len()
    &&& l.entry_ends@.len() == es.len()
    &&& l.entry_dates@.len() == es.len()
    &&& date_text_of(shown_start(window_start, es), l.date)
    &&& time_text_of(shown_start(window_start, es), l.window_start)
    &&& time_text_of(window_end, l.window_end)
    &&& forall|i: int|
        0 <= i < es.len() ==> time_text_of(es[i].start_time, #[trigger] l.entry_starts@[i])
    &&& forall|i: int|
        0 <= i < es.len() ==> date_text_of(es[i].start_time, #[trigger] l.entry_dates@[i])
    &&& forall|i: int|
        0 <= i < es.len() ==> (#[trigger] es[i].end_time matches Some(t) ==> time_text_of(
            t,
            l.entry_ends@[i],
        ))
}

/// `s` is a clock label of `ts`: `HH:MM:SS` text where chrono can hold
/// `ts`, else `?`.
pub open spec fn clock_label_of(ts: i64, s: Seq<char>) -> bool {
    if chrono_can_hold(ts as int) {
        is_clock_text(s)
    } else {
        s == "?"@
    }
}

/// `s` is a date label of `ts`: `YYYY-MM-DD` text where chrono can hold
/// `ts`, else empty.
pub open spec fn date_label_of(ts: i64, s: Seq<char>) -> bool {
    if chrono_can_hold(ts as int) {
        is_date_text(s)
    } else {
        s.len() == 0
    }
}

/// `l` labels a report of the entries `es` for the given window: the date
/// and start of the window shown (from its first entry on) and its end, and
/// each entry's start time, start date and end time, the end label of a
/// running entry being `open`.
pub open spec fn labels_fit(l: LabelsView, window_start: i64, window_end: i64, es: Seq<EntryView>) -> bool {
    &&& l.entry_starts.len() == es.len()
    &&& l.entry_ends.len() == es.len()
    &&& l.entry_dates.len() == es.len()
    &&& date_label_of(shown_start(window_start, es), l.date)
    &&& clock_label_of(shown_start(window_start, es), l.window_start)
    &&& clock_label_of(window_end, l.window_end)
    &&& forall|i: int|
        0 <= i < es.len() ==> clock_label_of(es[i].start_time, #[trigger] l.entry_starts[i])
    &&& forall|i: int|
        0 <= i < es.len() ==> date_label_of(es[i].start_time, #[trigger] l.entry_dates[i])
    &&& forall|i: int|
        0 <= i < es.len() ==> if (#[trigger] es[i]).end_time is None {
            l.entry_ends[i] == "open"@
        } else {
            clock_label_of(es[i].end_time->0, l.entry_ends[i])
        }
}

proof fn lemma_sort_len(s: Seq<EntryView>)
    ensures
        sort_by_start(s).len() == s.len(),
    decreases s.len(),
{
    if s.len() > 0 {
        lemma_sort_len(s.drop_last());
        lemma_insert_pos_bounds(sort_by_start(s.drop_last()), s.last().start_time, 0);
    }
}

proof fn lemma_tracked_insert(s: Seq<EntryView>, p: int, e: EntryView)
    requires
        0 <= p <= s.len(),
    ensures
        sum_of(tracked_terms(s.insert(p, e))) == sum_of(tracked_terms(s)) + tracked_terms(
            seq![e],
        )[0],
    decreases s.len(),
{
    let t = s.insert(p, e);
    if p == s.len() {
        assert(tracked_terms(t).drop_last() =~= tracked_terms(s));
    } else {
        assert(t.drop_last() =~= s.drop_last().insert(p, e));
        assert(tracked_terms(t).drop_last() =~= tracked_terms(t.drop_last()));
        assert(tracked_terms(s).drop_last() =~= tracked_terms(s.drop_last()));
        lemma_tracked_insert(s.drop_last(), p, e);
    }
}

/// The tracked total a report shows does not depend on the order in which
/// the sessions were given: ordering them keeps the sum.
pub proof fn lemma_report_total_ignores_order(s: Seq<EntryView>)
    ensures
        sum_of(tracked_terms(sort_by_start(s))) == sum_of(tracked_terms(s)),
    decreases s.len(),
{
    if s.len() > 0 {
        let d = s.drop_last();
        lemma_report_total_ignores_order(d);
        lemma_sort_len(d);
        lemma_insert_pos_bounds(sort_by_start(d), s.last().start_time, 0);
        lemma_tracked_insert(
            sort_by_start(d),
            insert_pos(sort_by_start(d), s.last().start_time, 0),
            s.last(),
        );
        assert(tracked_terms(s).drop_last() =~= tracked_terms(d));
    }
}

/// A Markdown report of the sessions between `window_start` and
/// `window_end`: application and tab sessions merged and ordered by start
/// time, then rendered with local clock labels. The window is shown from the
/// earliest session on (from `window_start` when there is none), and a row
/// shows its date on the first row and wherever the date changes. The labels
/// come from the machine's time zone, so the contract states the text for
/// some labels that fit the entries and the window: clock and date text
/// wherever chrono can hold the time, `?` or nothing elsewhere.
pub fn format_report(
    window_start: i64,
    window_end: i64,
    app_sessions: &[AppSession],
    tab_sessions: &[TabSession],
) -> (r: String)
    requires
        report_computable(
            window_start,
            window_end,
            sort_by_start(merged_entries(app_sessions@, tab_sessions@)),
        ),
    ensures
        exists|l: ReportLabels|
            labels_fit(
                l@,
                window_start,
                window_end,
                sort_by_start(merged_entries(app_sessions@, tab_sessions@)),
            ) && labels_from_own_times(
                l,
                window_start,
                window_end,
                sort_by_start(merged_entries(app_sessions@, tab_sessions@)),
            ) && r@ == report_text(
                window_start,
                window_end,
                sort_by_start(merged_entries(app_sessions@, tab_sessions@)),
                l@,
            ),
{
    let entries = sorted_entries(app_sessions, tab_sessions);
    let ghost es = views(entries@);
    let shown = if entries.len() == 0 {
        window_start
    } else {
        entries[0].start_time
    };
    let date = fmt_date(shown);
    let first = fmt_time(shown);
    let last = fmt_time(window_end);
    let mut starts: Vec<String> = Vec::new();
    let mut ends: Vec<String> = Vec::new();
    let mut dates: Vec<String> = Vec::new();
    let mut i: usize = 0;
    while i < entries.len()
        invariant
            i <= entries@.len(),
            es == views(entries@),
            starts@.len() == i,
            ends@.len() == i,
            dates@.len() == i,
            forall|k: int| 0 <= k < i ==> clock_label_of(es[k].start_time, #[trigger] starts@[k]@),
            forall|k: int| 0 <= k < i ==> time_text_of(es[k].start_time, #[trigger] starts@[k]),
            forall|k: int| 0 <= k < i ==> date_text_of(es[k].start_time, #[trigger] dates@[k]),
            forall|k: int|
                0 <= k < i ==> (#[trigger] es[k].end_time matches Some(t) ==> time_text_of(
                    t,
                    ends@[k],
                )),
            forall|k: int| 0 <= k < i ==> date_label_of(es[k].start_time, #[trigger] dates@[k]@),
            forall|k: int|
                0 <= k < i ==> if es[k].end_time is None {
                    (#[trigger] ends@[k])@ == "open"@
                } else {
                    clock_label_of(es[k].end_time->0, ends@[k]@)
                },
        decreases entries@.len() - i,
    {
        starts.push(fmt_time(entries[i].start_time));
        dates.push(fmt_date(entries[i].start_time));
        let end = match entries[i].end_time {
            Some(t) => fmt_time(t),
            None => String::from_str("open"),
        };
        ends.push(end);
        i = i + 1;
    }
    let labels = ReportLabels {
        date,
        window_start: first,
        window_end: last,
        entry_starts: starts,
        entry_ends: ends,
        entry_dates: dates,
    };
    let out = render_report(window_start, window_end, entries.as_slice(), &labels);
    assert(labels_fit(labels@, window_start, window_end, es));
    assert(labels_from_own_times(labels, window_start, window_end, es));
    out
}

// ---------------------------------------------------------------------------
// Laws
// ---------------------------------------------------------------------------

proof fn lemma_insert_pos_split(s: Seq<EntryView>, t: i64, j: int)
    requires
        0 <= j <= s.len(),
        forall|a: int, b: int| 0 <= a <= b < s.len() ==> s[a].start_time <= s[b].start_time,
        forall|k: int| 0 <= k < j ==> s[k].start_time <= t,
    ensures
        forall|k: int| 0 <= k < insert_pos(s, t, j) ==> s[k].start_time <= t,
        forall|k: int| insert_pos(s, t, j) <= k < s.len() ==> s[k].start_time > t,
    decreases s.len() - j,
{
    if j < s.len() && s[j].start_time <= t {
        lemma_insert_pos_split(s, t, j + 1);
    }
}

/// A report lists its entries in order of start time.
pub proof fn lemma_report_entries_ordered(s: Seq<EntryView>)
    ensures
        forall|a: int, b: int|
            0 <= a <= b < sort_by_start(s).len() ==> sort_by_start(s)[a].start_time
                <= sort_by_start(s)[b].start_time,
    decreases s.len(),
{
    if s.len() > 0 {
        let d = sort_by_start(s.drop_last());
        let t = s.last().start_time;
        lemma_report_entries_ordered(s.drop_last());
        lemma_insert_pos_bounds(d, t, 0);
        lemma_insert_pos_split(d, t, 0);
        let p = insert_pos(d, t, 0);
        let r = d.insert(p, s.last());
        assert forall|a: int, b: int| 0 <= a <= b < r.len() implies r[a].start_time
            <= r[b].start_time by {
            if a < p && b < p {
            } else if a < p && b == p {
            } else if a < p {
                assert(r[b] == d[b - 1]);
            } else if a == p && b == p {
            } else if a == p {
                assert(r[b] == d[b - 1]);
            } else {
                assert(r[a] == d[a - 1]);
                assert(r[b] == d[b - 1]);
            }
        }
    }
}

/// A report has one entry per session it was given, so its footer counts
/// them all.
pub proof fn lemma_report_counts_every_session(apps: Seq<AppSession>, tabs: Seq<TabSession>)
    ensures
        sort_by_start(merged_entries(apps, tabs)).len() == apps.len() + tabs.len(),
{
    lemma_sort_len(merged_entries(apps, tabs));
}

/// A report keeps every session it was given, each exactly once.
pub proof fn lemma_report_entries_complete(s: Seq<EntryView>)
    ensures
        sort_by_start(s).to_multiset() == s.to_multiset(),
    decreases s.len(),
{
    broadcast use vstd::seq_lib::to_multiset_build, vstd::seq_lib::to_multiset_insert;

    if s.len() > 0 {
        let d = s.drop_last();
        lemma_report_entries_complete(d);
        lemma_sort_len(d);
        lemma_insert_pos_bounds(sort_by_start(d), s.last().start_time, 0);
        assert(d.push(s.last()) =~= s);
    }
}


/// A report of at least one session shows its window from the earliest
/// session on: the displayed start is the start of one of the sessions, and
/// no session starts before it.
pub proof fn lemma_report_window_starts_at_earliest_entry(window_start: i64, s: Seq<EntryView>)
    requires
        s.len() > 0,
    ensures
        exists|j: int| 0 <= j < s.len() && #[trigger] s[j].start_time == shown_start(window_start, sort_by_start(s)),
        forall|j: int| 0 <= j < s.len() ==> shown_start(window_start, sort_by_start(s)) <= #[trigger] s[j].start_time,
{
    broadcast use vstd::seq_lib::group_to_multiset_ensures;

    let t = sort_by_start(s);
    lemma_sort_len(s);
    lemma_report_entries_ordered(s);
    lemma_report_entries_complete(s);
    assert(t.contains(t[0]));
    assert(t.to_multiset().count(t[0]) > 0);
    assert(s.to_multiset().count(t[0]) > 0);
    assert(s.contains(t[0]));
    assert forall|j: int| 0 <= j < s.len() implies shown_start(window_start, t) <= #[trigger] s[j].start_time by {
        assert(s.contains(s[j]));
        assert(s.to_multiset().count(s[j]) > 0);
        assert(t.to_multiset().count(s[j]) > 0);
        assert(t.contains(s[j]));
        let k = choose|k: int| 0 <= k < t.len() && t[k] == s[j];
        assert(t[0].start_time <= t[k].start_time);
    }
}

} // verus!
