//! The operator console's state: tabs, scrolling, per-tool statistics, sessions,
//! a bounded log, knowledge-base statistics, and a synthetic traffic feed.
pub mod app;
pub mod traffic;
