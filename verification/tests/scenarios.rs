use accountability::defaults::default_block_categories;
use accountability::matching::contains_domain_keyword;
use accountability::quota::{category_usage, decide_tab_block};
use accountability::report::format_report;
use accountability::tracking::should_start_new_session;
use accountability::{ActiveWindowInfo, AppSession, BlockCategory, TabSession};

fn app_session(start: i64, end: i64, name: &str) -> AppSession {
    AppSession {
        id: Some(1),
        app_name: name.to_string(),
        window_title: Some("Window".to_string()),
        start_time: start,
        end_time: Some(end),
        duration_seconds: end - start,
    }
}

fn tab_session(start: i64, end: i64, source: &str) -> TabSession {
    TabSession {
        id: Some(1),
        source: source.to_string(),
        tab_url: "https://example.com".to_string(),
        tab_title: "Example".to_string(),
        start_time: start,
        end_time: Some(end),
        duration_seconds: end - start,
    }
}

#[test]
fn test_domain_keyword_matches_subdomain() {
    assert!(contains_domain_keyword(
        Some("mobile.twitter.com"),
        &[String::from("twitter.com")]
    ));
    assert!(!contains_domain_keyword(
        Some("notwitter.com"),
        &[String::from("twitter.com")]
    ));
}

#[test]
fn merges_and_sorts_by_start_time() {
    let apps = vec![app_session(200, 300, "Terminal")];
    let tabs = vec![tab_session(100, 200, "chrome")];

    let report = format_report(100, 300, &apps, &tabs);

    let chrome_pos = report.find("chrome").unwrap();
    let terminal_pos = report.find("Terminal").unwrap();
    assert!(chrome_pos < terminal_pos, "chrome entry should appear before terminal entry");
}

#[test]
fn empty_window_says_so() {
    let report = format_report(100, 200, &[], &[]);
    assert!(report.contains("No tracked activity"));
}

#[test]
fn footer_reports_entry_count() {
    let apps = vec![app_session(100, 150, "A"), app_session(150, 200, "B")];
    let report = format_report(100, 200, &apps, &[]);
    assert!(report.contains("2 entries"));
}

fn session(app_name: &str, window_title: Option<&str>) -> AppSession {
    AppSession {
        id: Some(1),
        app_name: app_name.to_string(),
        window_title: window_title.map(str::to_string),
        start_time: 100,
        end_time: None,
        duration_seconds: 0,
    }
}

fn info(app_name: &str, window_title: &str) -> ActiveWindowInfo {
    ActiveWindowInfo {
        app_name: app_name.to_string(),
        window_title: window_title.to_string(),
    }
}

#[test]
fn starts_new_session_when_app_changes() {
    assert!(should_start_new_session(
        &session("Chrome", Some("Docs")),
        &info("Code", "Docs")
    ));
}

#[test]
fn starts_new_session_when_title_changes() {
    assert!(should_start_new_session(
        &session("Chrome", Some("Docs")),
        &info("Chrome", "Mail")
    ));
}

#[test]
fn keeps_session_when_app_and_title_match() {
    assert!(!should_start_new_session(
        &session("Chrome", Some("Docs")),
        &info("Chrome", "Docs")
    ));
}

/// The default categories as stored: numbered from 1 in seeding order.
fn seeded_categories() -> Vec<BlockCategory> {
    let mut cats = default_block_categories();
    let mut next: i64 = 1;
    for c in cats.iter_mut() {
        c.id = Some(next);
        next += 1;
    }
    cats
}

fn closed_tab(url: &str, title: &str, start: i64, secs: i64) -> TabSession {
    TabSession {
        id: None,
        source: "chrome".to_string(),
        tab_url: url.to_string(),
        tab_title: title.to_string(),
        start_time: start,
        end_time: Some(start + secs),
        duration_seconds: secs,
    }
}

#[test]
fn test_default_block_categories_seeded() {
    let categories = seeded_categories();
    assert!(categories.iter().any(|c| c.name == "Social Media"));
    assert!(categories.iter().any(|c| c.name == "Games"));
}

#[test]
fn test_category_usage_counts_tabs_and_apps() {
    let now: i64 = 1_700_000_000;
    let categories = seeded_categories();
    let tabs = vec![closed_tab("https://instagram.com/direct", "Instagram", now, 120)];
    let apps = vec![AppSession {
        id: None,
        app_name: "Discord".to_string(),
        window_title: Some("Friends".to_string()),
        start_time: now,
        end_time: Some(now + 60),
        duration_seconds: 60,
    }];
    let usages = category_usage(&categories, &apps, &tabs, now);
    let social = usages
        .iter()
        .find(|usage| usage.category_name == "Social Media")
        .unwrap();
    assert_eq!(social.used_seconds, 180);
}

#[test]
fn test_evaluate_tab_block_after_limit_exceeded() {
    let now: i64 = 1_700_000_000;
    let mut categories = seeded_categories();
    let social = categories
        .iter_mut()
        .find(|category| category.name == "Social Media")
        .unwrap();
    social.daily_limit_minutes = 1;
    let tabs = vec![closed_tab("https://x.com/home", "X", now, 60)];
    let usages = category_usage(&categories, &[], &tabs, now);
    let decision = decide_tab_block(&categories, &usages, "https://instagram.com/reels", "Instagram");
    assert!(decision.blocked);
    assert_eq!(decision.category_name, Some("Social Media".to_string()));
}

#[test]
fn test_evaluate_tab_block_respects_manual_pause() {
    let now: i64 = 1_700_000_000;
    let mut categories = seeded_categories();
    let social = categories
        .iter_mut()
        .find(|category| category.name == "Social Media")
        .unwrap();
    social.daily_limit_minutes = 1;
    social.manual_block_paused = true;
    let tabs = vec![closed_tab("https://reddit.com/r/rust", "Reddit", now, 120)];
    let usages = category_usage(&categories, &[], &tabs, now);
    let decision = decide_tab_block(&categories, &usages, "https://reddit.com/r/games", "Reddit");
    assert!(!decision.blocked);
}
