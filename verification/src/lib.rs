//! Verified core of grove, a manager for many Git repositories declared in
//! `grove.toml`: configuration resolution, cache naming, report bookkeeping,
//! and the decisions the sync, refresh and status use cases take.

pub mod app;
pub mod cache;
pub mod cli;
pub mod config;
pub mod error;
pub mod git;
pub mod paths;
pub mod repositories;
pub mod text;
pub mod zoxide;
