//! The records that the tracker stores and the decisions it hands out.

use vstd::prelude::*;

verus! {

/// One stretch of time spent in a foreground application.
#[derive(Debug, Clone, PartialEq, Eq)]
pub struct AppSession {
    pub id: Option<i64>,
    pub app_name: String,
    pub window_title: Option<String>,
    pub start_time: i64,
    pub end_time: Option<i64>,
    pub duration_seconds: i64,
}

/// One stretch of time spent on a browser tab or editor file, reported by a
/// client such as a browser extension.
#[derive(Debug, Clone, PartialEq, Eq)]
pub struct TabSession {
    pub id: Option<i64>,
    pub source: String,
    pub tab_url: String,
    pub tab_title: String,
    pub start_time: i64,
    pub end_time: Option<i64>,
    pub duration_seconds: i64,
}

/// An application the user asked to have blocked.
#[derive(Debug, Clone, PartialEq, Eq)]
pub struct BlockedApp {
    pub id: Option<i64>,
    pub app_name: String,
    pub block_duration_minutes: i32,
    pub enabled: bool,
}

/// A group of sites and applications that share a daily time limit.
#[derive(Debug, Clone, PartialEq, Eq)]
pub struct BlockCategory {
    pub id: Option<i64>,
    pub name: String,
    pub daily_limit_minutes: i32,
    pub enabled: bool,
    pub manual_block_paused: bool,
    pub domain_keywords: Vec<String>,
    pub app_keywords: Vec<String>,
    pub display_order: i32,
}

/// How much of its daily limit a category has used.
#[derive(Debug, Clone, PartialEq, Eq)]
pub struct CategoryUsage {
    pub category_id: i64,
    pub category_name: String,
    pub used_seconds: i64,
    pub limit_seconds: i64,
    pub limit_exceeded: bool,
    pub enabled: bool,
    pub manual_block_paused: bool,
}

/// Whether a tab should be blocked, and why.
#[derive(Debug, Clone, PartialEq, Eq)]
pub struct BlockDecision {
    pub blocked: bool,
    pub category_id: Option<i64>,
    pub category_name: Option<String>,
    pub used_seconds: i64,
    pub limit_seconds: i64,
    pub deterrent_mode: String,
    pub popup_interval_ms: i32,
}

/// What the tracker reports about itself.
#[derive(Debug, Clone, PartialEq, Eq)]
pub struct TrackerStatus {
    pub is_tracking: bool,
    pub current_app: Option<String>,
    pub current_window_title: Option<String>,
}

/// The foreground window as the operating system reports it.
#[derive(Debug, Clone, PartialEq, Eq)]
pub struct ActiveWindowInfo {
    pub app_name: String,
    pub window_title: String,
}

} // verus!
