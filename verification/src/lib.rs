//! An ingestion-and-distribution pipeline for live-stream chat: a polling
//! fetcher with pagination and failure recovery, an at-most-once persistence
//! gate keyed on the upstream message id, and an in-process broadcast hub that
//! fans every ingested event out to any number of subscribers.

pub mod clock;
pub mod dedup;
pub mod event;
pub mod fetch;
pub mod hub;
pub mod service;
pub mod upstream;
