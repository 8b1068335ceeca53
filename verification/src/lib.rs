//! A polite, depth-bounded web-crawler core.
//!
//! The crate provides the verified building blocks of a crawl engine:
//! a bounded least-recently-used frontier cache, a regex-based domain
//! allow-list guard, robots-rules compliance with crawl-delay parsing,
//! link and metadata extraction, the per-page crawl step with its
//! before/after event hooks, and the same-host/cross-host dispatch
//! decision.  Network transport is left to the embedding program; every
//! decision the engine takes is specified and proved here.

pub mod cache;
pub mod crawler;
pub mod dispatch;
pub mod domain;
pub mod engine;
pub mod error;
pub mod links;
pub mod meta;
pub mod robots;
