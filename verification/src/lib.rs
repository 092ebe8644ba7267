//! Verified core of a pull-request review dashboard.
//!
//! The crate models the interactive controller of a terminal dashboard for
//! reviewing pull requests: the working set of records with its selection
//! cursor, the preview-content cache with its pruning policy, the deferred
//! task queue that keeps the interface responsive during network calls, the
//! commit-graph layout used to render a compact history view, and the
//! contribution-statistics windows. Network access, terminal handling and
//! styling live outside the library; the library exposes the decisions and
//! the data they act on, with contracts proved by Verus.

mod paint;
pub mod assignees;
pub mod commits;
pub mod config;
pub mod contrib;
pub mod dashboard;
pub mod graph;
pub mod numfmt;
pub mod preview;
pub mod prs;
pub mod search;
pub mod slug;
pub mod strutil;
pub mod styling;
pub mod workingset;
