//! Activity accounting: session bookkeeping, category quotas, tab blocking
//! decisions and session reports.

pub mod bridge;
pub mod clock;
pub mod dashboard;
pub mod defaults;
pub mod keys;
pub mod laws;
pub mod matching;
pub mod model;
pub mod quota;
pub mod report;
pub mod shell;
pub mod storage;
pub mod text;
pub mod tracking;

pub use model::{
    ActiveWindowInfo, AppSession, BlockCategory, BlockDecision, BlockedApp, CategoryUsage,
    TabSession, TrackerStatus,
};
