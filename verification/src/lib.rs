//! An incremental search-and-display engine for a package-browsing terminal
//! front-end: a compact catalogue of package names, a filter engine with
//! regular-expression and substring queries, a pure view projection over the
//! filtered subset, detail-text parsing, and the interaction state machine
//! that coordinates them.

pub mod catalogue;
pub mod controller;
pub mod config;
pub mod matcher;
pub mod message;
pub mod mode;
pub mod selset;
pub mod detail;
pub mod installed;
pub mod render;
pub mod search;
pub mod pattern;
pub mod shown;
pub mod store;
pub mod text;
