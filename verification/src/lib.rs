//! Fuzzy search over organisation and repository names, ranked by match
//! quality and past usage, with the keyboard-driven session that drives it.

pub mod application;
pub mod cache;
pub mod clock;
pub mod config;
pub mod domain;
pub mod engine;
pub mod fetch;
pub mod git;
pub mod github_api;
pub mod layout;
pub mod matcher;
pub mod matching;
pub mod ranking;
pub mod scoring;
pub mod session;
pub mod text;
