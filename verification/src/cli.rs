//! What the program can be asked to do.
use vstd::prelude::*;

verus! {

pub const DEFAULT_LOG_TAIL_LINES: usize = 100;

#[derive(Debug)]
pub struct Cli {
    pub command: Command,
}

/// A command with its arguments. An account is given by its name, its full id or
/// a prefix of the id that no other account shares.
#[derive(Debug)]
pub enum Command {
    /// List stored accounts.
    List { json: bool },
    /// Log in and save the account.
    Login { name: String, replace: bool, device_auth: bool },
    /// Import an `auth.json`, that of Codex where no file is given.
    Import { name: String, file: Option<String> },
    /// Export an account as an `auth.json`, to the output where no file is given.
    Export { account: String, file: Option<String>, force: bool },
    /// Switch Codex to an account.
    Switch { account: String },
    /// Exclude an account from automatic selection.
    Disable { account: String },
    /// Include an account in automatic selection again.
    Enable { account: String },
    /// Switch to a usable account where the current one is out of usage.
    AutoSwitch,
    /// Run Codex and switch accounts as it runs.
    Run { codex_bin: String, codex_args: Vec<String> },
    /// Update the installation.
    Update { check: bool, version: Option<String> },
    /// Diagnose the configuration.
    Doctor { codex_bin: String, json: bool },
    /// Inspect the logs of runs.
    Logs { command: LogsCommand },
    /// Show usage, that of the current account where none is given.
    Usage { all: bool, show_additional: bool, json: bool, account: Option<String> },
    /// Use one reset of the rate limit.
    ResetUsage { account: Option<String>, yes: bool },
    /// Delete an account.
    Delete { account: String },
    /// Rename an account.
    Rename { account: String, new_name: String },
}

#[derive(Debug)]
pub enum LogsCommand {
    /// Print where the logs are.
    Path,
    /// Print which log is the newest.
    Latest,
    /// Print the end of the newest log, and what is added to it.
    Tail { lines: usize, follow: bool },
    /// Delete old logs.
    Prune { days: u64, dry_run: bool },
}

} // verus!
