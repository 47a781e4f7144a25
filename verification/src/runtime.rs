//! Running Codex behind a local proxy, and changing its account while it runs.
pub mod args;
pub mod chance;
pub mod login;
pub mod messages;
pub mod prewarm;
pub mod proxy;
pub mod reconcile;
pub mod schedule;
pub mod shown;
pub mod startup;
