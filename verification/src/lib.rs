//! Spaced-repetition knowledge tracking for mentor sessions: the SM-2 review
//! rule, topics and their categories, sessions, the decisions of the
//! mentor's tools, and the dashboard's state.
pub mod dashboard;
pub mod display;
pub mod header;
pub mod knowledge_tools;
pub mod logger;
pub mod migration;
pub mod overview;
pub mod panes;
pub mod params;
pub mod session;
pub mod sm2;
pub mod storage;
pub mod text;
pub mod tools;
pub mod topic;
pub mod topics_view;
pub mod trigram;
