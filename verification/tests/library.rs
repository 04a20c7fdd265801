use accountability::bridge::{block_response, Connection, Received, TabEvent};
use accountability::dashboard::dashboard_counts;
use accountability::clock::{today_start, utc_day_start, LocalMidnight};
use accountability::defaults::default_block_categories;
use accountability::keys::{
    encode_db_key, key_pragma, new_db_key, plan_key, unreadable_extension, KeyLookup, KeyPlan,
};
use accountability::matching::{
    app_matches_category, contains_domain_keyword, contains_keyword, host_from_url,
    session_seconds, tab_matches_category, tab_text_matches,
};
use accountability::quota::{category_usage, decide_tab_block, try_category_usage};
use accountability::report::{fmt_date, fmt_duration, fmt_time, format_report, EARLIEST_CHRONO_SECOND, LATEST_CHRONO_SECOND, render_report, ReportEntry, ReportLabels};
use accountability::shell::{
    bottom_right_position, failure_message, menu_command, toggle_change, tray_click_change,
    FailureKind, MenuCommand, WindowChange,
};
use accountability::storage::{decode_keywords, encode_keywords};
use accountability::text::{chars_of, string_of};
use accountability::tracking::{tracker_status, SessionClose, SessionTracker};
use accountability::{
    ActiveWindowInfo, AppSession, BlockCategory, BlockDecision, CategoryUsage, TabSession,
};

fn strings(items: &[&str]) -> Vec<String> {
    items.iter().map(|s| s.to_string()).collect()
}

fn category(id: i64, name: &str, limit: i32, domains: &[&str], apps: &[&str]) -> BlockCategory {
    BlockCategory {
        id: Some(id),
        name: name.to_string(),
        daily_limit_minutes: limit,
        enabled: true,
        manual_block_paused: false,
        domain_keywords: strings(domains),
        app_keywords: strings(apps),
        display_order: 0,
    }
}

fn app(name: &str, title: Option<&str>, start: i64, end: Option<i64>, dur: i64) -> AppSession {
    AppSession {
        id: None,
        app_name: name.to_string(),
        window_title: title.map(str::to_string),
        start_time: start,
        end_time: end,
        duration_seconds: dur,
    }
}

fn tab(source: &str, url: &str, title: &str, start: i64, end: Option<i64>, dur: i64) -> TabSession {
    TabSession {
        id: None,
        source: source.to_string(),
        tab_url: url.to_string(),
        tab_title: title.to_string(),
        start_time: start,
        end_time: end,
        duration_seconds: dur,
    }
}

fn window(app_name: &str, title: &str) -> ActiveWindowInfo {
    ActiveWindowInfo {
        app_name: app_name.to_string(),
        window_title: title.to_string(),
    }
}

// ---------------------------------------------------------------------------
// Session length
// ---------------------------------------------------------------------------

#[test]
fn closed_session_counts_recorded_duration() {
    assert_eq!(session_seconds(100, Some(500), 42, 10_000), 42);
    assert_eq!(session_seconds(100, Some(500), -7, 10_000), 0);
}

#[test]
fn open_session_counts_time_since_start() {
    assert_eq!(session_seconds(100, None, 0, 160), 60);
    assert_eq!(session_seconds(200, None, 0, 160), 0);
}

// ---------------------------------------------------------------------------
// Keywords, domains, hosts
// ---------------------------------------------------------------------------

#[test]
fn keywords_are_trimmed_and_lowercased() {
    assert!(contains_keyword("hello world", &strings(&["  WORLD  "])));
    assert!(!contains_keyword("hello", &strings(&["planet"])));
}

#[test]
fn x_keyword_does_not_match_inside_explorer() {
    assert!(!contains_keyword("windows explorer", &strings(&["x"])));
    assert!(!contains_keyword("xbox", &strings(&["x"])));
    assert!(!contains_keyword("tax2", &strings(&["x"])));
}

#[test]
fn x_keyword_matches_window_titled_x() {
    assert!(contains_keyword("x", &strings(&["x"])));
    assert!(contains_keyword("home / x", &strings(&["x"])));
    assert!(contains_keyword("x.com - home", &strings(&["x"])));
    assert!(contains_keyword("explorer x", &strings(&["x"])));
    assert!(!contains_keyword("xé", &strings(&["x"])));
}

#[test]
fn blank_keywords_never_match() {
    assert!(!contains_keyword("anything", &strings(&["", "   "])));
}

#[test]
fn haystack_is_not_lowercased_by_contains_keyword() {
    assert!(!contains_keyword("HELLO", &strings(&["hello"])));
}

#[test]
fn domain_keyword_wildcards_and_case() {
    assert!(contains_domain_keyword(Some("m.reddit.com"), &strings(&[" *.Reddit.com "])));
    assert!(contains_domain_keyword(Some("reddit.com"), &strings(&["*.*.reddit.com"])));
    assert!(!contains_domain_keyword(None, &strings(&["reddit.com"])));
    assert!(!contains_domain_keyword(Some("reddit.com"), &strings(&["*."])));
}

#[test]
fn host_is_taken_from_the_authority() {
    assert_eq!(
        host_from_url("https://user@www.Example.com:8080/path?q=1#frag"),
        Some("Example.com".to_string())
    );
    assert_eq!(host_from_url("example.org/page"), Some("example.org".to_string()));
    assert_eq!(host_from_url("https://www.www.a.com"), Some("a.com".to_string()));
    assert_eq!(host_from_url("file:///main.rs"), None);
    assert_eq!(host_from_url("   "), None);
    assert_eq!(host_from_url("a@b@c.com?x"), Some("c.com".to_string()));
}

#[test]
fn app_session_matches_on_name_or_title() {
    let social = category(1, "Social", 60, &[], &["discord"]);
    assert!(app_matches_category(&app("Discord", Some("Friends"), 0, None, 0), &social));
    assert!(app_matches_category(&app("Browser", Some("Discord - chat"), 0, None, 0), &social));
    assert!(!app_matches_category(&app("Editor", None, 0, None, 0), &social));
}

#[test]
fn tab_session_matches_on_host_title_or_url() {
    let social = category(1, "Social", 60, &["instagram.com", "reels"], &[]);
    assert!(tab_matches_category(
        &tab("chrome", "https://www.INSTAGRAM.com/direct", "Inbox", 0, None, 0),
        &social
    ));
    assert!(tab_matches_category(
        &tab("chrome", "https://example.com/", "Best Reels", 0, None, 0),
        &social
    ));
    assert!(!tab_matches_category(
        &tab("chrome", "https://notinstagram.net/", "News", 0, None, 0),
        &social
    ));
    assert!(tab_text_matches("https://x.com/home", "X", &strings(&["x.com"])));
}

// ---------------------------------------------------------------------------
// Quotas
// ---------------------------------------------------------------------------

#[test]
fn category_usage_counts_tabs_and_apps() {
    let now = 1_000_000;
    let cats = vec![
        category(1, "Social Media", 60, &["instagram.com"], &["discord"]),
        BlockCategory { id: None, ..category(9, "Unsaved", 60, &["x.com"], &[]) },
    ];
    let apps = vec![app("Discord", Some("Friends"), now, Some(now + 60), 60)];
    let tabs = vec![
        tab("chrome", "https://instagram.com/direct", "Instagram", now, Some(now + 120), 120),
        tab("chrome", "https://instagram.com/", "Instagram", now + 200, None, 0),
    ];
    let usages = category_usage(&cats, &apps, &tabs, now + 230);
    assert_eq!(usages.len(), 1);
    assert_eq!(usages[0].category_name, "Social Media");
    assert_eq!(usages[0].used_seconds, 210);
    assert_eq!(usages[0].limit_seconds, 3600);
    assert!(!usages[0].limit_exceeded);
}

#[test]
fn usage_over_limit_only_with_positive_limit() {
    let cats = vec![
        category(1, "One minute", 1, &["a.com"], &[]),
        category(2, "No limit", 0, &["a.com"], &[]),
        category(3, "Negative", -5, &["a.com"], &[]),
    ];
    let tabs = vec![tab("chrome", "https://a.com", "A", 0, Some(60), 60)];
    let usages = category_usage(&cats, &[], &tabs, 100);
    assert!(usages[0].limit_exceeded);
    assert!(!usages[1].limit_exceeded);
    assert_eq!(usages[2].limit_seconds, 0);
    assert!(!usages[2].limit_exceeded);
}

#[test]
fn usage_overflow_is_reported() {
    let cats = vec![category(1, "All", 60, &["a.com"], &[])];
    let tabs = vec![
        tab("chrome", "https://a.com", "A", 0, Some(1), i64::MAX),
        tab("chrome", "https://a.com", "A", 0, Some(1), 1),
    ];
    assert!(try_category_usage(&cats, &[], &tabs, 0).is_none());
    let open = vec![tab("chrome", "https://a.com", "A", i64::MIN, None, 0)];
    assert!(try_category_usage(&cats, &[], &open, 10).is_none());
    assert!(try_category_usage(&cats, &[], &[], 10).is_some());
}

#[test]
fn evaluate_tab_block_after_limit_exceeded() {
    let cats = vec![category(1, "Social Media", 1, &["x.com", "instagram.com"], &[])];
    let tabs = vec![tab("chrome", "https://x.com/home", "X", 0, Some(60), 60)];
    let usages = category_usage(&cats, &[], &tabs, 100);
    let decision = decide_tab_block(&cats, &usages, "https://instagram.com/reels", "Instagram");
    assert!(decision.blocked);
    assert_eq!(decision.category_id, Some(1));
    assert_eq!(decision.category_name, Some("Social Media".to_string()));
    assert_eq!(decision.used_seconds, 60);
    assert_eq!(decision.limit_seconds, 60);
    assert_eq!(decision.deterrent_mode, "rotating_mix");
    assert_eq!(decision.popup_interval_ms, 5000);
}

#[test]
fn paused_or_disabled_category_does_not_block() {
    let mut cats = vec![category(1, "Social Media", 1, &["reddit.com"], &[])];
    let tabs = vec![tab("chrome", "https://reddit.com/r/rust", "Reddit", 0, Some(120), 120)];
    let usages = category_usage(&cats, &[], &tabs, 200);
    cats[0].manual_block_paused = true;
    let decision = decide_tab_block(&cats, &usages, "https://reddit.com/r/games", "Reddit");
    assert!(!decision.blocked);
    assert_eq!(decision.category_id, None);
    assert_eq!(decision.category_name, None);
    assert_eq!(decision.deterrent_mode, "none");
    assert_eq!(decision.popup_interval_ms, 0);
    cats[0].manual_block_paused = false;
    cats[0].enabled = false;
    assert!(!decide_tab_block(&cats, &usages, "https://reddit.com/r/games", "Reddit").blocked);
}

#[test]
fn only_the_first_usage_record_counts() {
    let cats = vec![category(7, "Games", 1, &["steam"], &[])];
    let usages = vec![
        CategoryUsage {
            category_id: 7,
            category_name: "Games".to_string(),
            used_seconds: 0,
            limit_seconds: 60,
            limit_exceeded: false,
            enabled: true,
            manual_block_paused: false,
        },
        CategoryUsage {
            category_id: 7,
            category_name: "Games".to_string(),
            used_seconds: 100,
            limit_seconds: 60,
            limit_exceeded: true,
            enabled: true,
            manual_block_paused: false,
        },
    ];
    assert!(!decide_tab_block(&cats, &usages, "https://store.steampowered.com", "Steam").blocked);
}

#[test]
fn default_categories_are_social_media_and_games() {
    let cats = default_block_categories();
    assert_eq!(cats.len(), 2);
    assert_eq!(cats[0].name, "Social Media");
    assert_eq!(cats[1].name, "Games");
    assert_eq!(cats[0].daily_limit_minutes, 60);
    assert_eq!(cats[0].domain_keywords.len(), 9);
    assert!(!cats[0].domain_keywords.iter().any(|k| k.contains("twitter")));
    assert!(!cats[0].app_keywords.iter().any(|k| k.contains("twitter")));
    assert!(cats[0].app_keywords.iter().any(|k| k == "x"));
    assert_eq!(cats[0].domain_keywords[0], "x.com");
    assert_eq!(cats[1].app_keywords[6], "game");
    assert!(cats.iter().all(|c| c.id.is_none() && c.enabled && !c.manual_block_paused));
}

// ---------------------------------------------------------------------------
// Reports
// ---------------------------------------------------------------------------

#[test]
fn durations_are_formatted_by_magnitude() {
    assert_eq!(fmt_duration(3725), "1h 2m");
    assert_eq!(fmt_duration(125), "2m 5s");
    assert_eq!(fmt_duration(45), "45s");
    assert_eq!(fmt_duration(0), "0s");
    assert_eq!(fmt_duration(-30), "0s");
    assert_eq!(fmt_duration(7200), "2h 0m");
}

fn entry(start: i64, end: Option<i64>, dur: i64, source: &str, detail: &str) -> ReportEntry {
    ReportEntry {
        start_time: start,
        end_time: end,
        duration_seconds: dur,
        source: source.to_string(),
        detail: detail.to_string(),
    }
}

#[test]
fn rendered_report_has_exact_layout() {
    let entries = vec![
        entry(100, Some(160), 60, "app: Code", "main.rs | lib.rs"),
        entry(160, None, 0, "chrome", "Docs \u{2014} https://docs.rs"),
    ];
    let labels = ReportLabels {
        date: "2024-01-02".to_string(),
        window_start: "10:00:00".to_string(),
        window_end: "11:00:00".to_string(),
        entry_starts: strings(&["10:01:40", "10:02:40"]),
        entry_ends: strings(&["10:02:40", "open"]),
        entry_dates: strings(&["2024-01-02", "2024-01-02"]),
    };
    let text = render_report(100, 3700, &entries, &labels);
    let expected = "# Session Report \u{2014} 2024-01-02\n\n\
**Window:** 10:00:00 \u{2013} 11:00:00 (1h 0m elapsed)\n\n\
| Time | Duration | Source | Detail |\n\
|------|----------|--------|--------|\n\
| 2024-01-02 10:01:40\u{2013}10:02:40 | 1m 0s | app: Code | main.rs \\| lib.rs |\n\
| 10:02:40\u{2013}open | 0s | chrome | Docs \u{2014} https://docs.rs |\n\
\n---\n2 entries. Tracked switch-time: 1m 0s vs 1h 0m elapsed.\n";
    assert_eq!(text, expected);
}

#[test]
fn empty_report_has_note_and_zero_count() {
    let labels = ReportLabels {
        date: String::new(),
        window_start: "?".to_string(),
        window_end: "?".to_string(),
        entry_starts: vec![],
        entry_ends: vec![],
        entry_dates: vec![],
    };
    let text = render_report(500, 100, &[], &labels);
    assert!(text.contains("_No tracked activity in this window._\n"));
    assert!(text.contains("(0s elapsed)"));
    assert!(text.ends_with("0 entries. Tracked switch-time: 0s vs 0s elapsed.\n"));
}

#[test]
fn report_lists_open_tab_sessions_and_escapes_pipes() {
    let apps = vec![app("Term", Some("a|b"), 300, Some(360), 60)];
    let tabs = vec![tab("vscode", "file:///main.rs", "main.rs", 100, None, 0)];
    let report = format_report(0, 400, &apps, &tabs);
    assert!(report.contains("| vscode | main.rs \u{2014} file:///main.rs |"));
    assert!(report.contains("open | 0s | vscode"));
    assert!(report.contains("| app: Term | a\\|b |"));
    assert!(report.find("vscode").unwrap() < report.find("app: Term").unwrap());
    assert!(report.contains("2 entries. Tracked switch-time: 1m 0s vs 5m 0s elapsed."));
    assert!(report.contains("(5m 0s elapsed)"));
}

#[test]
fn report_keeps_input_order_for_equal_start_times() {
    let apps = vec![app("First", None, 100, Some(110), 10)];
    let tabs = vec![tab("second", "https://b.com", "B", 100, Some(110), 10)];
    let report = format_report(100, 110, &apps, &tabs);
    assert!(report.find("app: First").unwrap() < report.find("| second |").unwrap());
}

// ---------------------------------------------------------------------------
// Tracking
// ---------------------------------------------------------------------------

#[test]
fn tracker_opens_switches_and_closes_sessions() {
    let mut tracker = SessionTracker::new();

    let plan = tracker.poll(false, Some(window("Chrome", "Docs")), 100);
    assert!(plan.close.is_none());
    let opened = plan.open.unwrap();
    assert_eq!(opened.app_name, "Chrome");
    assert_eq!(opened.window_title, Some("Docs".to_string()));
    assert_eq!(opened.start_time, 100);
    tracker.opened(opened, Some(1));

    let plan = tracker.poll(false, Some(window("Chrome", "Docs")), 103);
    assert!(plan.close.is_none() && plan.open.is_none());

    let plan = tracker.poll(false, Some(window("Code", "main.rs")), 106);
    assert_eq!(plan.close, Some(SessionClose { id: 1, end_time: 106, duration: 6 }));
    tracker.opened(plan.open.unwrap(), Some(2));

    let plan = tracker.poll(false, Some(window("Accountability App", "Widget")), 109);
    assert!(plan.close.is_none() && plan.open.is_none());

    let plan = tracker.poll(false, None, 112);
    assert_eq!(plan.close, Some(SessionClose { id: 2, end_time: 112, duration: 6 }));
    assert!(tracker.current.is_none());
    assert_eq!(tracker.finish(115), None);
}

#[test]
fn tracker_reset_forgets_without_closing() {
    let mut tracker = SessionTracker::new();
    let plan = tracker.poll(false, Some(window("Chrome", "Docs")), 100);
    tracker.opened(plan.open.unwrap(), Some(5));
    let plan = tracker.poll(true, Some(window("Chrome", "Docs")), 103);
    assert!(plan.close.is_none());
    assert!(plan.open.is_some());
}

#[test]
fn tracker_keeps_old_session_when_insert_fails() {
    let mut tracker = SessionTracker::new();
    let plan = tracker.poll(false, Some(window("Chrome", "Docs")), 100);
    tracker.opened(plan.open.unwrap(), Some(5));
    let plan = tracker.poll(false, Some(window("Code", "x")), 110);
    tracker.opened(plan.open.unwrap(), None);
    assert_eq!(tracker.current.as_ref().unwrap().id, 5);
    assert_eq!(tracker.finish(120), Some(SessionClose { id: 5, end_time: 120, duration: 20 }));
}

#[test]
fn tracker_status_reflects_tracker() {
    let s = tracker_status(Some(true), Some(window("Code", "main.rs")));
    assert!(s.is_tracking);
    assert_eq!(s.current_app, Some("Code".to_string()));
    assert_eq!(s.current_window_title, Some("main.rs".to_string()));
    let s = tracker_status(None, Some(window("Code", "main.rs")));
    assert!(!s.is_tracking);
    assert_eq!(s.current_app, None);
}

// ---------------------------------------------------------------------------
// Tab events
// ---------------------------------------------------------------------------

fn event(kind: Option<&str>, source: &str, url: &str, ts: i64) -> TabEvent {
    TabEvent {
        event_type: kind.map(str::to_string),
        client_event_id: Some("e1".to_string()),
        source: source.to_string(),
        tab_id: Some(9),
        tab_title: "Tab".to_string(),
        tab_url: url.to_string(),
        timestamp: ts,
    }
}

#[test]
fn tab_event_closes_previous_and_opens_new() {
    let mut conn = Connection::new();
    assert_eq!(conn.disconnected(), None);
    let plan = conn.handle_event(&event(None, "chrome", "https://b.com", 110), Some((4, 100)));
    assert_eq!(plan.close, Some(SessionClose { id: 4, end_time: 110, duration: 10 }));
    assert_eq!(plan.open.source, "chrome");
    assert_eq!(plan.open.tab_url, "https://b.com");
    assert_eq!(plan.open.start_time, 110);
    assert_eq!(plan.open.end_time, None);
    assert!(plan.wants_decision);
    assert_eq!(conn.disconnected(), Some("chrome".to_string()));
}

#[test]
fn tab_event_duration_never_negative_and_type_checked() {
    let mut conn = Connection::new();
    let plan = conn.handle_event(&event(Some("heartbeat"), "vscode", "file:///a", 50), Some((1, 80)));
    assert_eq!(plan.close.unwrap().duration, 0);
    assert!(!plan.wants_decision);
    let plan = conn.handle_event(&event(Some("tab_event"), "vscode", "file:///a", 90), None);
    assert!(plan.close.is_none());
    assert!(plan.wants_decision);
}

#[test]
fn block_response_copies_event_and_decision() {
    let decision = BlockDecision {
        blocked: true,
        category_id: Some(3),
        category_name: Some("Games".to_string()),
        used_seconds: 70,
        limit_seconds: 60,
        deterrent_mode: "rotating_mix".to_string(),
        popup_interval_ms: 5000,
    };
    let r = block_response(&event(None, "chrome", "https://a", 1), decision);
    assert_eq!(r.response_type, "block_decision");
    assert_eq!(r.client_event_id, Some("e1".to_string()));
    assert_eq!(r.tab_id, Some(9));
    assert!(r.blocked);
    assert_eq!(r.category_name, Some("Games".to_string()));
    assert_eq!(r.used_seconds, 70);
}

// ---------------------------------------------------------------------------
// Keys, storage, clock, shell, text
// ---------------------------------------------------------------------------

#[test]
fn keys_are_lowercase_hex() {
    assert_eq!(encode_db_key(&[0xbe, 0xef, 0x00, 0x0a]), "beef000a");
    let key = new_db_key().unwrap();
    assert_eq!(key.len(), 64);
    assert!(key.chars().all(|c| c.is_ascii_hexdigit() && !c.is_ascii_uppercase()));
    assert_eq!(key_pragma("ab12"), "PRAGMA key = \"x'ab12'\";");
}

#[test]
fn key_lookup_decides_next_step() {
    assert!(matches!(plan_key(KeyLookup::Found("k".to_string()), true), KeyPlan::Use(k) if k == "k"));
    assert!(matches!(
        plan_key(KeyLookup::Missing, true),
        KeyPlan::Create { set_aside_database: true }
    ));
    assert!(matches!(
        plan_key(KeyLookup::Missing, false),
        KeyPlan::Create { set_aside_database: false }
    ));
    assert!(matches!(plan_key(KeyLookup::Unavailable("x".to_string()), false), KeyPlan::Fail(m) if m == "x"));
    assert_eq!(unreadable_extension(1700000000), "db.unreadable.1700000000");
    assert_eq!(unreadable_extension(-5), "db.unreadable.-5");
    assert_eq!(unreadable_extension(i64::MIN), format!("db.unreadable.{}", i64::MIN));
}

#[test]
fn keywords_are_stored_as_json() {
    let kws = strings(&["x.com", "say \"hi\""]);
    let text = encode_keywords(&kws);
    assert_eq!(text, "[\"x.com\",\"say \\\"hi\\\"\"]");
    assert_eq!(decode_keywords(&text), kws);
    assert_eq!(decode_keywords("not json"), Vec::<String>::new());
    assert_eq!(decode_keywords("[]"), Vec::<String>::new());
}

#[test]
fn utc_day_start_floors_to_midnight() {
    assert_eq!(utc_day_start(3 * 86400 + 5), 3 * 86400);
    assert_eq!(utc_day_start(86400), 86400);
    assert_eq!(utc_day_start(-1), -86400);
}

#[test]
fn widget_sits_bottom_right() {
    assert_eq!(bottom_right_position(1920, 1080, 400, 300), (1500, 740));
    assert_eq!(bottom_right_position(100, 100, 400, 300), (0, 0));
    assert_eq!(bottom_right_position(1000, 1000, 10, u32::MAX), (970, 0));
    assert_eq!(bottom_right_position(u32::MAX, 0, 0, 0), ((u32::MAX - 20) as i32, 0));
}

#[test]
fn shell_commands() {
    assert_eq!(menu_command("show"), MenuCommand::Show);
    assert_eq!(menu_command("hide"), MenuCommand::Ignore);
    assert_eq!(menu_command("quit"), MenuCommand::Quit);
    assert_eq!(menu_command("other"), MenuCommand::Ignore);
    assert_eq!(toggle_change(true), WindowChange::Hide);
    assert_eq!(toggle_change(false), WindowChange::ShowAndFocus);
    assert_eq!(tray_click_change(true), WindowChange::ShowAndFocus);
    assert_eq!(tray_click_change(false), WindowChange::ShowAndFocus);
}

#[test]
fn text_round_trips_through_chars() {
    let s = "héllo — wörld";
    let cs = chars_of(s);
    assert_eq!(cs.len(), s.chars().count());
    assert_eq!(string_of(&cs), s);
}

#[test]
fn local_time_and_date_have_fixed_shapes() {
    let t = fmt_time(1_700_000_000);
    let d = fmt_date(1_700_000_000);
    assert_eq!(t.len(), 8);
    assert_eq!(&t[2..3], ":");
    assert_eq!(&t[5..6], ":");
    assert!(t.chars().enumerate().all(|(i, c)| i == 2 || i == 5 || c.is_ascii_digit()));
    assert_eq!(d.len(), 10);
    assert!(d.starts_with("2023-11-1"));
    assert_eq!(&d[4..5], "-");
    assert_eq!(&d[7..8], "-");
}

#[test]
fn local_date_is_empty_only_outside_chrono_range() {
    assert_eq!(fmt_date(i64::MIN), "");
    assert_eq!(fmt_date(EARLIEST_CHRONO_SECOND - 1), "");
    assert_eq!(fmt_date(LATEST_CHRONO_SECOND + 1), "");
    assert!(fmt_date(EARLIEST_CHRONO_SECOND).len() >= 10);
    assert!(fmt_date(LATEST_CHRONO_SECOND).len() >= 10);
    assert!(fmt_date(0).len() >= 10);
}

#[test]
fn rows_show_their_date_when_it_changes() {
    let entries = vec![
        entry(100, Some(110), 10, "a", "one"),
        entry(110, Some(120), 10, "b", "two"),
        entry(90000, Some(90010), 10, "c", "three"),
    ];
    let labels = ReportLabels {
        date: "2024-01-01".to_string(),
        window_start: "00:01:40".to_string(),
        window_end: "01:00:00".to_string(),
        entry_starts: strings(&["00:01:40", "00:01:50", "01:00:00"]),
        entry_ends: strings(&["00:01:50", "00:02:00", "01:00:10"]),
        entry_dates: strings(&["2024-01-01", "2024-01-01", "2024-01-02"]),
    };
    let text = render_report(0, 90010, &entries, &labels);
    assert!(text.contains("| 2024-01-01 00:01:40\u{2013}00:01:50 | 10s | a |"));
    assert!(text.contains("| 00:01:50\u{2013}00:02:00 | 10s | b |"));
    assert!(text.contains("| 2024-01-02 01:00:00\u{2013}01:00:10 | 10s | c |"));
    assert!(text.contains("(24h 58m elapsed)"));
}

#[test]
fn report_window_starts_at_first_entry() {
    let apps = vec![app("Late", None, 5000, Some(5060), 60)];
    let report = format_report(0, 5060, &apps, &[]);
    assert!(report.contains("(1m 0s elapsed)"));
    assert!(report.contains("vs 1m 0s elapsed."));
    let empty = format_report(0, 5060, &[], &[]);
    assert!(empty.contains("(1h 24m elapsed)"));
}

#[test]
fn out_of_range_times_show_question_marks() {
    assert_eq!(fmt_time(i64::MIN), "?");
    assert_eq!(fmt_time(LATEST_CHRONO_SECOND + 1), "?");
    assert_eq!(fmt_time(LATEST_CHRONO_SECOND).len(), 8);
}

#[test]
fn failure_messages_hold_no_error_text() {
    assert_eq!(
        failure_message(FailureKind::Storage),
        "Your activity data could not be read or saved. Please try again."
    );
    assert_eq!(failure_message(FailureKind::Busy), "The app is busy with another request. Please try again.");
    assert_eq!(failure_message(FailureKind::Files), "The app could not access its data folder.");
    assert_eq!(
        failure_message(FailureKind::Keychain),
        "The app could not reach the system keychain to unlock your data."
    );
}

#[test]
fn today_starts_at_local_midnight() {
    assert_eq!(today_start(LocalMidnight::Single(1000), 5000), 1000);
    assert_eq!(today_start(LocalMidnight::Ambiguous(1000, 4600), 5000), 1000);
    assert_eq!(today_start(LocalMidnight::Missing, 5000), 5000);
}

#[test]
fn keyword_json_escapes_controls_and_round_trips() {
    let kws = strings(&["a\nb", "\u{1}", "tab\there", "back\\slash", "é", ""]);
    let text = encode_keywords(&kws);
    assert_eq!(text, "[\"a\\nb\",\"\\u0001\",\"tab\\there\",\"back\\\\slash\",\"é\",\"\"]");
    assert_eq!(decode_keywords(&text), kws);
    assert_eq!(encode_keywords(&Vec::new()), "[]");
}

#[test]
fn connection_ignores_unreadable_text_and_keeps_sources_apart() {
    let mut c = Connection::new();
    assert!(c.receive(&Received::Unreadable, None).is_none());
    assert_eq!(c.disconnected(), None);
    let a = c.receive(&Received::Event(event(None, "chrome", "https://a.com", 100)), None).unwrap();
    assert!(a.close.is_none());
    assert_eq!(a.open.source, "chrome");
    let b = c
        .receive(&Received::Event(event(None, "vscode", "file:///main.rs", 150)), None)
        .unwrap();
    assert!(b.close.is_none());
    assert!(c.receive(&Received::Unreadable, Some((1, 100))).is_none());
    assert_eq!(c.disconnected(), Some("vscode".to_string()));
    let again = c
        .receive(&Received::Event(event(None, "chrome", "https://b.com", 160)), Some((1, 100)))
        .unwrap();
    let closed = again.close.unwrap();
    assert_eq!((closed.id, closed.end_time, closed.duration), (1, 160, 60));
    assert_eq!(again.open.start_time, 160);
    assert_eq!(c.disconnected(), Some("chrome".to_string()));
}

#[test]
fn dashboard_counts_take_the_first_app_as_most_used() {
    let by_app = vec![("Code".to_string(), 300), ("Chrome".to_string(), 100)];
    let counts = dashboard_counts(400, &by_app, 5);
    assert_eq!(counts.total_tracked_seconds, 400);
    assert_eq!(counts.most_used_app, Some("Code".to_string()));
    assert_eq!(counts.sessions_count, 5);
    let empty = dashboard_counts(0, &[], 0);
    assert_eq!(empty.most_used_app, None);
}
