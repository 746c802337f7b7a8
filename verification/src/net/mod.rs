//! Downloads: checksums, HTTP status decisions, mirrors and retries.

pub mod checksum;
pub mod download;
pub mod mirror;
pub mod resilient;
