//! Statistics over pull-request and issue activity fetched from a code
//! hosting service: per-record derived fields (who commented, who approved,
//! who merged or closed), collection-level aggregates, summary building, and
//! a calendar-month partitioner for date windows.
//!
//! Everything that decides or computes is verified; fetching, command-line
//! handling and JSON output live outside the library and hand it plain
//! values.

pub mod aggregate;
pub mod daterange;
pub mod datetime;
pub mod issue;
pub mod issues;
pub mod issues_summary;
pub mod laws;
pub mod pull_request;
pub mod pull_requests;
pub mod pull_requests_summary;
pub mod strutil;
