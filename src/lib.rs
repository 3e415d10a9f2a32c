//! Polls a scheduling API once per date of a range, keeps the locations of
//! chosen states, and renders the aggregate as a chat message or CSV rows.
//! The network, timers and files are driven by the caller; this crate decides
//! what to fetch, when to retry, what to keep and what to report.
pub mod dates;
pub mod dispatch;
pub mod locations;
pub mod report;
pub mod retry;
