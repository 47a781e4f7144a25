//! Multi-account switching for the Codex CLI: the decisions, rules and formats
//! behind the `codex-switch` program, proved against their contracts.
//!
//! The library works on plain values only. Reading files, talking to servers,
//! running processes and floating-point arithmetic belong to the program around it.
pub mod accounts;
pub mod assessment;
pub mod auth_json;
pub mod auto_switch;
pub mod calendar;
pub mod cli;
pub mod codex_http;
pub mod commands;
pub mod doctor;
pub mod encoding;
pub mod forecast;
pub mod json;
pub mod json_output;
pub mod logs;
pub mod oauth;
pub mod policies;
pub mod process;
pub mod quantity;
pub mod query;
pub mod rank;
pub mod record;
pub mod redaction;
pub mod runtime;
pub mod runtime_log;
pub mod search;
pub mod selector;
pub mod terminal;
pub mod text;
pub mod time;
pub mod url;
pub mod usage;
pub mod usage_view;
