//! Downloads all media of a public profile through a mirror site: session
//! establishment with an anti-forgery token, cursor-based pagination,
//! per-item media resolution (photo, video, carousel), and idempotent
//! persistence under timestamped names. Network and filesystem work stays
//! with the caller; this crate holds the decisions, each under contract.

pub mod downloader;
pub mod error;
pub mod json;
pub mod page;
pub mod persist;
pub mod resolve;
pub mod session;
pub mod urls;
