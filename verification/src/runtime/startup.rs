//! The course of a session: what is started, in which order, and how everything
//! that was started is taken down again, however the session ends.
use crate::accounts;
use crate::auto_switch;
use crate::auto_switch::{AutoSwitchError, AutoSwitchResult};
use crate::runtime::args;
use crate::runtime::shown;
use crate::runtime::shown::{Elapsed, Failure};
use crate::text;
use vstd::prelude::*;

verus! {

/// What a session is started with.
pub struct RunPlan {
    /// Codex's arguments, with the current directory.
    pub codex_args: Vec<String>,
    /// What the log says of the arguments.
    pub summary: String,
}

/// Gets a session ready, or says what is wrong with its arguments.
pub fn plan_run(codex_args: &Vec<String>, cwd: &str) -> (r: Result<RunPlan, String>)
    ensures
        match r {
            Ok(p) => {
                &&& args::is_interactive(codex_args@)
                &&& !args::option_given(codex_args@, "--remote"@)
                &&& !args::option_given(codex_args@, "--remote-auth-token-env"@)
                &&& text::views(p.codex_args@) == args::with_cwd(codex_args@, cwd@)
                &&& p.summary@ == args::args_summary(codex_args@)
            },
            Err(m) => m@ == if !args::is_interactive(codex_args@) {
                args::NOT_INTERACTIVE@
            } else if args::option_given(codex_args@, "--remote"@) {
                args::REMOTE_GIVEN@
            } else {
                args::REMOTE_TOKEN_GIVEN@
            } && (!args::is_interactive(codex_args@) || args::option_given(
                codex_args@,
                "--remote"@,
            ) || args::option_given(codex_args@, "--remote-auth-token-env"@)),
        },
{
    match args::validate_remote_capable_codex_args(codex_args) {
        Ok(()) => {},
        Err(m) => {
            return Err(m);
        },
    }
    match args::reject_remote_args(codex_args) {
        Ok(()) => {},
        Err(m) => {
            return Err(m);
        },
    }
    Ok(
        RunPlan {
            codex_args: args::codex_args_with_default_cwd(codex_args, cwd),
            summary: args::format_codex_args_summary_for_log(codex_args),
        },
    )
}

/// How far a session has come: what is being waited for.
#[derive(Debug, Clone, Copy, PartialEq, Eq, Structural)]
pub enum RunPhase {
    InitialSwitch,
    Endpoint,
    AppServer,
    Readiness,
    ProxyListener,
    CodexStart,
    Running,
    /// The proxy is gone, Codex is not.
    LastWait,
    Over,
}

/// What happened.
pub enum RunEvent {
    Switched(AutoSwitchResult),
    SwitchFailed { error: AutoSwitchError, detail: String },
    /// The app-server's address is reserved and its token is written.
    EndpointReady { url: String },
    EndpointFailed(String),
    AppServerSpawned { pid: Option<u32> },
    AppServerFailed(Failure),
    AppServerReady,
    AppServerNotReady(Failure),
    ProxyBound { url: String },
    ProxyNotBound(Failure),
    CodexSpawned { pid: Option<u32> },
    CodexNotSpawned(Failure),
    /// Codex ended, or could not be waited for.
    CodexEnded(Result<(), String>),
    ProxyEnded(ProxyEnd),
}

pub enum ProxyEnd {
    Closed,
    Failed,
    Crashed(String),
}

/// What has to be done next.
pub enum RunAction {
    Log(String),
    PrepareEndpoint,
    SpawnAppServer,
    ProbeAppServer,
    BindProxy,
    StartTasks,
    /// The log is no longer shown: the terminal is Codex's.
    Quiet,
    Loud,
    SpawnCodex,
    AwaitCodexOrProxy,
    AwaitCodex,
    ShutdownCodex,
    AbortProxy,
    StopTasks,
    ShutdownAppServer,
    RemoveToken,
    /// The session ends as Codex did.
    Finish,
    /// The session ends with an error.
    Fail(String),
}

pub enum ActionView {
    Log(Seq<char>),
    PrepareEndpoint,
    SpawnAppServer,
    ProbeAppServer,
    BindProxy,
    StartTasks,
    Quiet,
    Loud,
    SpawnCodex,
    AwaitCodexOrProxy,
    AwaitCodex,
    ShutdownCodex,
    AbortProxy,
    StopTasks,
    ShutdownAppServer,
    RemoveToken,
    Finish,
    Fail(Seq<char>),
}

impl View for RunAction {
    type V = ActionView;

    open spec fn view(&self) -> ActionView {
        match self {
            RunAction::Log(s) => ActionView::Log(s@),
            RunAction::PrepareEndpoint => ActionView::PrepareEndpoint,
            RunAction::SpawnAppServer => ActionView::SpawnAppServer,
            RunAction::ProbeAppServer => ActionView::ProbeAppServer,
            RunAction::BindProxy => ActionView::BindProxy,
            RunAction::StartTasks => ActionView::StartTasks,
            RunAction::Quiet => ActionView::Quiet,
            RunAction::Loud => ActionView::Loud,
            RunAction::SpawnCodex => ActionView::SpawnCodex,
            RunAction::AwaitCodexOrProxy => ActionView::AwaitCodexOrProxy,
            RunAction::AwaitCodex => ActionView::AwaitCodex,
            RunAction::ShutdownCodex => ActionView::ShutdownCodex,
            RunAction::AbortProxy => ActionView::AbortProxy,
            RunAction::StopTasks => ActionView::StopTasks,
            RunAction::ShutdownAppServer => ActionView::ShutdownAppServer,
            RunAction::RemoveToken => ActionView::RemoveToken,
            RunAction::Finish => ActionView::Finish,
            RunAction::Fail(s) => ActionView::Fail(s@),
        }
    }
}

pub open spec fn actions_view(actions: Seq<RunAction>) -> Seq<ActionView> {
    actions.map_values(|a: RunAction| a@)
}

/// A line of the log.
pub open spec fn logged(s: Seq<char>) -> ActionView {
    ActionView::Log(shown::sanitized(s))
}

fn log(s: &str) -> (r: RunAction)
    ensures
        r@ == logged(s@),
{
    RunAction::Log(shown::sanitize_startup_log_message(s))
}

/// The lines that a session's log starts with.
pub fn opening_lines(
    log_path: &str,
    codex_bin: &str,
    summary: &str,
    version: &str,
    codex_version: Option<&str>,
) -> (r: Vec<RunAction>)
    ensures
        actions_view(r@) == seq![
            logged("runtime log: "@ + log_path@),
            logged("run start: codex-bin="@ + codex_bin@ + ", args="@ + summary@),
            logged("codex-switch version: "@ + version@),
            logged(
                "codex version: "@ + match codex_version {
                    Some(v) => v@,
                    None => "unknown"@,
                },
            ),
            logged("initial auto-switch: start"@),
        ],
{
    let known: &str = match codex_version {
        Some(v) => v,
        None => "unknown",
    };
    let a = text::cat2("runtime log: ", log_path);
    let b = text::cat4("run start: codex-bin=", codex_bin, ", args=", summary);
    let c = text::cat2("codex-switch version: ", version);
    let d = text::cat2("codex version: ", known);
    let r: Vec<RunAction> = vec![
        log(a.as_str()),
        log(b.as_str()),
        log(c.as_str()),
        log(d.as_str()),
        log("initial auto-switch: start"),
    ];
    assert(actions_view(r@) =~= seq![
        logged("runtime log: "@ + log_path@),
        logged("run start: codex-bin="@ + codex_bin@ + ", args="@ + summary@),
        logged("codex-switch version: "@ + version@),
        logged("codex version: "@ + known@),
        logged("initial auto-switch: start"@),
    ]);
    r
}

/// What went wrong while something was done.
pub open spec fn failure_line(what: Seq<char>, elapsed: Elapsed, detail: Seq<char>) -> ActionView {
    logged(what + " failed in "@ + elapsed.shown() + ": "@ + detail)
}

fn log_failure(what: &str, elapsed: &Elapsed, detail: &str) -> (r: RunAction)
    ensures
        r@ == failure_line(what@, *elapsed, detail@),
{
    let shown = shown::format_elapsed(elapsed);
    let line = text::cat5(what, " failed in ", shown.as_str(), ": ", detail);
    log(line.as_str())
}

pub const INITIAL_SWITCH_FAILED: &'static str = "Initial account auto-switch failed";

pub const WAIT_FAILED: &'static str = "Failed to wait for codex";

pub const PROXY_FAILED: &'static str = "Codex websocket proxy failed";

pub const CODEX_NOT_STARTED: &'static str = "Failed to start codex";

/// What follows a search for an account at the start.
pub open spec fn after_initial(event: RunEvent, elapsed: Elapsed) -> (RunPhase, Seq<ActionView>) {
    match event {
        RunEvent::Switched(result) => {
            let done = logged(
                "initial auto-switch: done in "@ + elapsed.shown() + " ("@ + shown::result_shown(
                    result,
                ) + ")"@,
            );
            match result {
                AutoSwitchResult::CurrentUnsupported { reason, .. } => (
                    RunPhase::Over,
                    seq![
                        done,
                        logged("initial auto-switch: current account unsupported: "@ + reason@),
                        ActionView::Fail(
                            "current account does not support runtime auto-switch: "@ + reason@,
                        ),
                    ],
                ),
                _ => (RunPhase::Endpoint, seq![done, ActionView::PrepareEndpoint]),
            }
        },
        RunEvent::SwitchFailed { error, detail } => match error {
            AutoSwitchError::NoUsableReplacement(e) => (
                RunPhase::Endpoint,
                seq![
                    logged(
                        "initial auto-switch: no usable replacement in "@ + elapsed.shown()
                            + "; continuing without switch: "@ + e.reason@,
                    ),
                    ActionView::PrepareEndpoint,
                ],
            ),
            AutoSwitchError::Other(_) => (
                RunPhase::Over,
                seq![
                    failure_line("initial auto-switch:"@, elapsed, detail@),
                    ActionView::Fail(INITIAL_SWITCH_FAILED@),
                ],
            ),
        },
        _ => (RunPhase::InitialSwitch, Seq::empty()),
    }
}

fn step_initial(event: RunEvent, elapsed: &Elapsed) -> (r: (RunPhase, Vec<RunAction>))
    ensures
        (r.0, actions_view(r.1@)) == after_initial(event, *elapsed),
{
    let shown = shown::format_elapsed(elapsed);
    match event {
        RunEvent::Switched(result) => {
            let told = shown::format_auto_switch_result_for_log(&result);
            let line = text::cat5(
                "initial auto-switch: done in ",
                shown.as_str(),
                " (",
                told.as_str(),
                ")",
            );
            let done = log(line.as_str());
            let ghost first = done@;
            match result {
                AutoSwitchResult::CurrentUnsupported { reason, .. } => {
                    let a = text::cat2(
                        "initial auto-switch: current account unsupported: ",
                        reason.as_str(),
                    );
                    let b = text::cat2(
                        "current account does not support runtime auto-switch: ",
                        reason.as_str(),
                    );
                    let r: Vec<RunAction> = vec![done, log(a.as_str()), RunAction::Fail(b)];
                    assert(actions_view(r@) =~= seq![
                        first,
                        logged("initial auto-switch: current account unsupported: "@ + reason@),
                        ActionView::Fail(
                            "current account does not support runtime auto-switch: "@ + reason@,
                        ),
                    ]);
                    (RunPhase::Over, r)
                },
                _ => {
                    let r: Vec<RunAction> = vec![done, RunAction::PrepareEndpoint];
                    assert(actions_view(r@) =~= seq![first, ActionView::PrepareEndpoint]);
                    (RunPhase::Endpoint, r)
                },
            }
        },
        RunEvent::SwitchFailed { error, detail } => {
            match auto_switch::initial_auto_switch_nonfatal_reason(&error) {
                Some(reason) => {
                    let line = text::cat4(
                        "initial auto-switch: no usable replacement in ",
                        shown.as_str(),
                        "; continuing without switch: ",
                        reason,
                    );
                    let r: Vec<RunAction> = vec![log(line.as_str()), RunAction::PrepareEndpoint];
                    assert(actions_view(r@) =~= seq![logged(line@), ActionView::PrepareEndpoint]);
                    (RunPhase::Endpoint, r)
                },
                None => {
                    let r: Vec<RunAction> = vec![
                        log_failure("initial auto-switch:", elapsed, detail.as_str()),
                        RunAction::Fail(INITIAL_SWITCH_FAILED.to_owned()),
                    ];
                    assert(actions_view(r@) =~= seq![
                        failure_line("initial auto-switch:"@, *elapsed, detail@),
                        ActionView::Fail(INITIAL_SWITCH_FAILED@),
                    ]);
                    (RunPhase::Over, r)
                },
            }
        },
        _ => {
            let r: Vec<RunAction> = Vec::new();
            assert(actions_view(r@) =~= Seq::empty());
            (RunPhase::InitialSwitch, r)
        },
    }
}

/// What follows while the app-server and the proxy come up.
pub open spec fn after_coming_up(phase: RunPhase, event: RunEvent, elapsed: Elapsed) -> (
    RunPhase,
    Seq<ActionView>,
) {
    match (phase, event) {
        (RunPhase::Endpoint, RunEvent::EndpointReady { url }) => (
            RunPhase::AppServer,
            seq![logged("app-server: spawn start ("@ + url@ + ")"@), ActionView::SpawnAppServer],
        ),
        (RunPhase::Endpoint, RunEvent::EndpointFailed(m)) => (
            RunPhase::Over,
            seq![ActionView::Fail(m@)],
        ),
        (RunPhase::AppServer, RunEvent::AppServerSpawned { pid }) => (
            RunPhase::Readiness,
            seq![
                logged("app-server: spawned pid="@ + shown::pid_shown(pid) + " in "@ + elapsed.shown()),
                logged("app-server: waiting for ready probe"@),
                ActionView::ProbeAppServer,
            ],
        ),
        (RunPhase::AppServer, RunEvent::AppServerFailed(f)) => (
            RunPhase::Over,
            seq![
                failure_line("app-server: spawn"@, elapsed, f.detail@),
                ActionView::RemoveToken,
                ActionView::Fail(f.message@),
            ],
        ),
        (RunPhase::Readiness, RunEvent::AppServerReady) => (
            RunPhase::ProxyListener,
            seq![
                logged("app-server: ready in "@ + elapsed.shown()),
                logged("proxy: bind start"@),
                ActionView::BindProxy,
            ],
        ),
        (RunPhase::Readiness, RunEvent::AppServerNotReady(f)) => (
            RunPhase::Over,
            seq![
                failure_line("app-server: ready probe"@, elapsed, f.detail@),
                ActionView::ShutdownAppServer,
                ActionView::RemoveToken,
                ActionView::Fail(f.message@),
            ],
        ),
        (RunPhase::ProxyListener, RunEvent::ProxyBound { url }) => (
            RunPhase::CodexStart,
            seq![
                logged("proxy: listening at "@ + url@ + " in "@ + elapsed.shown()),
                ActionView::StartTasks,
                logged("codex tui: spawn start with proxy "@ + url@),
                ActionView::Quiet,
                ActionView::SpawnCodex,
            ],
        ),
        (RunPhase::ProxyListener, RunEvent::ProxyNotBound(f)) => (
            RunPhase::Over,
            seq![
                failure_line("proxy: bind"@, elapsed, f.detail@),
                ActionView::ShutdownAppServer,
                ActionView::RemoveToken,
                ActionView::Fail(f.message@),
            ],
        ),
        _ => (phase, Seq::empty()),
    }
}

fn step_coming_up(phase: RunPhase, event: RunEvent, elapsed: &Elapsed) -> (r: (
    RunPhase,
    Vec<RunAction>,
))
    ensures
        (r.0, actions_view(r.1@)) == after_coming_up(phase, event, *elapsed),
{
    let shown = shown::format_elapsed(elapsed);
    match (phase, event) {
        (RunPhase::Endpoint, RunEvent::EndpointReady { url }) => {
            let line = text::cat3("app-server: spawn start (", url.as_str(), ")");
            let r: Vec<RunAction> = vec![log(line.as_str()), RunAction::SpawnAppServer];
            assert(actions_view(r@) =~= seq![logged(line@), ActionView::SpawnAppServer]);
            (RunPhase::AppServer, r)
        },
        (RunPhase::Endpoint, RunEvent::EndpointFailed(m)) => {
            let ghost given = m@;
            let r: Vec<RunAction> = vec![RunAction::Fail(m)];
            assert(actions_view(r@) =~= seq![ActionView::Fail(given)]);
            (RunPhase::Over, r)
        },
        (RunPhase::AppServer, RunEvent::AppServerSpawned { pid }) => {
            let pid = shown::child_pid_for_log(pid);
            let line = text::cat4("app-server: spawned pid=", pid.as_str(), " in ", shown.as_str());
            let r: Vec<RunAction> = vec![
                log(line.as_str()),
                log("app-server: waiting for ready probe"),
                RunAction::ProbeAppServer,
            ];
            assert(actions_view(r@) =~= seq![
                logged(line@),
                logged("app-server: waiting for ready probe"@),
                ActionView::ProbeAppServer,
            ]);
            (RunPhase::Readiness, r)
        },
        (RunPhase::AppServer, RunEvent::AppServerFailed(f)) => {
            let ghost given = f;
            let r: Vec<RunAction> = vec![
                log_failure("app-server: spawn", elapsed, f.detail.as_str()),
                RunAction::RemoveToken,
                RunAction::Fail(f.message),
            ];
            assert(actions_view(r@) =~= seq![
                failure_line("app-server: spawn"@, *elapsed, given.detail@),
                ActionView::RemoveToken,
                ActionView::Fail(given.message@),
            ]);
            (RunPhase::Over, r)
        },
        (RunPhase::Readiness, RunEvent::AppServerReady) => {
            let line = text::cat2("app-server: ready in ", shown.as_str());
            let r: Vec<RunAction> = vec![
                log(line.as_str()),
                log("proxy: bind start"),
                RunAction::BindProxy,
            ];
            assert(actions_view(r@) =~= seq![
                logged(line@),
                logged("proxy: bind start"@),
                ActionView::BindProxy,
            ]);
            (RunPhase::ProxyListener, r)
        },
        (RunPhase::Readiness, RunEvent::AppServerNotReady(f)) => {
            let ghost given = f;
            let r: Vec<RunAction> = vec![
                log_failure("app-server: ready probe", elapsed, f.detail.as_str()),
                RunAction::ShutdownAppServer,
                RunAction::RemoveToken,
                RunAction::Fail(f.message),
            ];
            assert(actions_view(r@) =~= seq![
                failure_line("app-server: ready probe"@, *elapsed, given.detail@),
                ActionView::ShutdownAppServer,
                ActionView::RemoveToken,
                ActionView::Fail(given.message@),
            ]);
            (RunPhase::Over, r)
        },
        (RunPhase::ProxyListener, RunEvent::ProxyBound { url }) => {
            let line = text::cat4("proxy: listening at ", url.as_str(), " in ", shown.as_str());
            let start = text::cat2("codex tui: spawn start with proxy ", url.as_str());
            let r: Vec<RunAction> = vec![
                log(line.as_str()),
                RunAction::StartTasks,
                log(start.as_str()),
                RunAction::Quiet,
                RunAction::SpawnCodex,
            ];
            assert(actions_view(r@) =~= seq![
                logged(line@),
                ActionView::StartTasks,
                logged(start@),
                ActionView::Quiet,
                ActionView::SpawnCodex,
            ]);
            (RunPhase::CodexStart, r)
        },
        (RunPhase::ProxyListener, RunEvent::ProxyNotBound(f)) => {
            let ghost given = f;
            let r: Vec<RunAction> = vec![
                log_failure("proxy: bind", elapsed, f.detail.as_str()),
                RunAction::ShutdownAppServer,
                RunAction::RemoveToken,
                RunAction::Fail(f.message),
            ];
            assert(actions_view(r@) =~= seq![
                failure_line("proxy: bind"@, *elapsed, given.detail@),
                ActionView::ShutdownAppServer,
                ActionView::RemoveToken,
                ActionView::Fail(given.message@),
            ]);
            (RunPhase::Over, r)
        },
        (p, _) => {
            let r: Vec<RunAction> = Vec::new();
            assert(actions_view(r@) =~= Seq::empty());
            (p, r)
        },
    }
}

/// How a session is ended by Codex's own end.
pub open spec fn end_with(status: Result<(), String>) -> ActionView {
    match status {
        Ok(()) => ActionView::Finish,
        Err(_) => ActionView::Fail(WAIT_FAILED@),
    }
}

fn ending(status: Result<(), String>) -> (r: RunAction)
    ensures
        r@ == end_with(status),
{
    match status {
        Ok(()) => RunAction::Finish,
        Err(_) => RunAction::Fail(WAIT_FAILED.to_owned()),
    }
}

/// What follows once Codex is started.
pub open spec fn after_running(phase: RunPhase, event: RunEvent, elapsed: Elapsed) -> (
    RunPhase,
    Seq<ActionView>,
) {
    match (phase, event) {
        (RunPhase::CodexStart, RunEvent::CodexSpawned { pid }) => (
            RunPhase::Running,
            seq![
                logged(
                    "codex tui: spawned pid="@ + shown::pid_shown(pid) + " in "@ + elapsed.shown()
                        + "; handing terminal to codex"@,
                ),
                ActionView::AwaitCodexOrProxy,
            ],
        ),
        (RunPhase::CodexStart, RunEvent::CodexNotSpawned(f)) => (
            RunPhase::Over,
            seq![
                ActionView::Loud,
                failure_line("codex tui: spawn"@, elapsed, f.detail@),
                ActionView::AbortProxy,
                ActionView::StopTasks,
                ActionView::ShutdownAppServer,
                ActionView::RemoveToken,
                ActionView::Fail(CODEX_NOT_STARTED@),
            ],
        ),
        (RunPhase::Running, RunEvent::CodexEnded(status)) => (
            RunPhase::Over,
            seq![
                ActionView::Loud,
                ActionView::AbortProxy,
                ActionView::StopTasks,
                ActionView::ShutdownAppServer,
                ActionView::RemoveToken,
                end_with(status),
            ],
        ),
        (RunPhase::Running, RunEvent::ProxyEnded(end)) => match end {
            ProxyEnd::Closed => (RunPhase::LastWait, seq![ActionView::AwaitCodex]),
            ProxyEnd::Failed => (
                RunPhase::Over,
                seq![
                    ActionView::ShutdownCodex,
                    ActionView::Loud,
                    ActionView::StopTasks,
                    ActionView::ShutdownAppServer,
                    ActionView::RemoveToken,
                    ActionView::Fail(PROXY_FAILED@),
                ],
            ),
            ProxyEnd::Crashed(m) => (
                RunPhase::Over,
                seq![
                    ActionView::ShutdownCodex,
                    ActionView::Loud,
                    ActionView::StopTasks,
                    ActionView::ShutdownAppServer,
                    ActionView::RemoveToken,
                    ActionView::Fail("Codex websocket proxy task failed: "@ + m@),
                ],
            ),
        },
        (RunPhase::LastWait, RunEvent::CodexEnded(status)) => (
            RunPhase::Over,
            seq![
                ActionView::Loud,
                ActionView::StopTasks,
                ActionView::ShutdownAppServer,
                ActionView::RemoveToken,
                end_with(status),
            ],
        ),
        _ => (phase, Seq::empty()),
    }
}

fn proxy_loss(message: String) -> (r: Vec<RunAction>)
    ensures
        actions_view(r@) == seq![
            ActionView::ShutdownCodex,
            ActionView::Loud,
            ActionView::StopTasks,
            ActionView::ShutdownAppServer,
            ActionView::RemoveToken,
            ActionView::Fail(message@),
        ],
{
    let ghost given = message@;
    let r: Vec<RunAction> = vec![
        RunAction::ShutdownCodex,
        RunAction::Loud,
        RunAction::StopTasks,
        RunAction::ShutdownAppServer,
        RunAction::RemoveToken,
        RunAction::Fail(message),
    ];
    assert(actions_view(r@) =~= seq![
        ActionView::ShutdownCodex,
        ActionView::Loud,
        ActionView::StopTasks,
        ActionView::ShutdownAppServer,
        ActionView::RemoveToken,
        ActionView::Fail(given),
    ]);
    r
}

fn step_running(phase: RunPhase, event: RunEvent, elapsed: &Elapsed) -> (r: (
    RunPhase,
    Vec<RunAction>,
))
    ensures
        (r.0, actions_view(r.1@)) == after_running(phase, event, *elapsed),
{
    let shown = shown::format_elapsed(elapsed);
    match (phase, event) {
        (RunPhase::CodexStart, RunEvent::CodexSpawned { pid }) => {
            let pid = shown::child_pid_for_log(pid);
            let line = text::cat5(
                "codex tui: spawned pid=",
                pid.as_str(),
                " in ",
                shown.as_str(),
                "; handing terminal to codex",
            );
            let r: Vec<RunAction> = vec![log(line.as_str()), RunAction::AwaitCodexOrProxy];
            assert(actions_view(r@) =~= seq![logged(line@), ActionView::AwaitCodexOrProxy]);
            (RunPhase::Running, r)
        },
        (RunPhase::CodexStart, RunEvent::CodexNotSpawned(f)) => {
            let r: Vec<RunAction> = vec![
                RunAction::Loud,
                log_failure("codex tui: spawn", elapsed, f.detail.as_str()),
                RunAction::AbortProxy,
                RunAction::StopTasks,
                RunAction::ShutdownAppServer,
                RunAction::RemoveToken,
                RunAction::Fail(CODEX_NOT_STARTED.to_owned()),
            ];
            assert(actions_view(r@) =~= seq![
                ActionView::Loud,
                failure_line("codex tui: spawn"@, *elapsed, f.detail@),
                ActionView::AbortProxy,
                ActionView::StopTasks,
                ActionView::ShutdownAppServer,
                ActionView::RemoveToken,
                ActionView::Fail(CODEX_NOT_STARTED@),
            ]);
            (RunPhase::Over, r)
        },
        (RunPhase::Running, RunEvent::CodexEnded(status)) => {
            let ghost given = status;
            let r: Vec<RunAction> = vec![
                RunAction::Loud,
                RunAction::AbortProxy,
                RunAction::StopTasks,
                RunAction::ShutdownAppServer,
                RunAction::RemoveToken,
                ending(status),
            ];
            assert(actions_view(r@) =~= seq![
                ActionView::Loud,
                ActionView::AbortProxy,
                ActionView::StopTasks,
                ActionView::ShutdownAppServer,
                ActionView::RemoveToken,
                end_with(given),
            ]);
            (RunPhase::Over, r)
        },
        (RunPhase::Running, RunEvent::ProxyEnded(end)) => match end {
            ProxyEnd::Closed => {
                let r: Vec<RunAction> = vec![RunAction::AwaitCodex];
                assert(actions_view(r@) =~= seq![ActionView::AwaitCodex]);
                (RunPhase::LastWait, r)
            },
            ProxyEnd::Failed => (RunPhase::Over, proxy_loss(PROXY_FAILED.to_owned())),
            ProxyEnd::Crashed(m) => (
                RunPhase::Over,
                proxy_loss(text::cat2("Codex websocket proxy task failed: ", m.as_str())),
            ),
        },
        (RunPhase::LastWait, RunEvent::CodexEnded(status)) => {
            let ghost given = status;
            let r: Vec<RunAction> = vec![
                RunAction::Loud,
                RunAction::StopTasks,
                RunAction::ShutdownAppServer,
                RunAction::RemoveToken,
                ending(status),
            ];
            assert(actions_view(r@) =~= seq![
                ActionView::Loud,
                ActionView::StopTasks,
                ActionView::ShutdownAppServer,
                ActionView::RemoveToken,
                end_with(given),
            ]);
            (RunPhase::Over, r)
        },
        (p, _) => {
            let r: Vec<RunAction> = Vec::new();
            assert(actions_view(r@) =~= Seq::empty());
            (p, r)
        },
    }
}

/// The next phase, and what has to be done; an event that does not belong to
/// the phase changes nothing.
pub open spec fn run_next(phase: RunPhase, event: RunEvent, elapsed: Elapsed) -> (
    RunPhase,
    Seq<ActionView>,
) {
    match phase {
        RunPhase::InitialSwitch => after_initial(event, elapsed),
        RunPhase::Endpoint
        | RunPhase::AppServer
        | RunPhase::Readiness
        | RunPhase::ProxyListener => after_coming_up(phase, event, elapsed),
        RunPhase::CodexStart
        | RunPhase::Running
        | RunPhase::LastWait => after_running(phase, event, elapsed),
        RunPhase::Over => (RunPhase::Over, Seq::empty()),
    }
}

/// Takes a session one step on.
pub fn run_codex_step(phase: RunPhase, event: RunEvent, elapsed: &Elapsed) -> (r: (
    RunPhase,
    Vec<RunAction>,
))
    ensures
        (r.0, actions_view(r.1@)) == run_next(phase, event, *elapsed),
{
    match phase {
        RunPhase::InitialSwitch => step_initial(event, elapsed),
        RunPhase::Endpoint => step_coming_up(phase, event, elapsed),
        RunPhase::AppServer => step_coming_up(phase, event, elapsed),
        RunPhase::Readiness => step_coming_up(phase, event, elapsed),
        RunPhase::ProxyListener => step_coming_up(phase, event, elapsed),
        RunPhase::CodexStart => step_running(phase, event, elapsed),
        RunPhase::Running => step_running(phase, event, elapsed),
        RunPhase::LastWait => step_running(phase, event, elapsed),
        RunPhase::Over => {
            let r: Vec<RunAction> = Vec::new();
            assert(actions_view(r@) =~= Seq::empty());
            (RunPhase::Over, r)
        },
    }
}

// ---------------------------------------------------------------------------
// Waiting for the app-server
// ---------------------------------------------------------------------------

/// Ten seconds, in nanoseconds.
pub const APP_SERVER_STARTUP_TIMEOUT: u128 = 10_000_000_000;

/// What the wait for the app-server does next.
pub enum ReadinessStep {
    Probe,
    GiveUp(String),
}

/// Before each probe: gives up once the time is over, with what the last probe
/// said, or once the app-server has ended.
pub fn readiness_step(
    deadline: u128,
    now: u128,
    last_error: Option<&str>,
    exited: Option<&str>,
) -> (r: ReadinessStep)
    ensures
        match r {
            ReadinessStep::Probe => now < deadline && exited is None,
            ReadinessStep::GiveUp(m) => if now >= deadline {
                m@ == "Timed out waiting for Codex app-server: "@ + match last_error {
                    Some(e) => e@,
                    None => "connection was not ready"@,
                }
            } else {
                exited matches Some(status) && m@ == "Codex app-server exited during startup: "@
                    + status@
            },
        },
{
    if now >= deadline {
        let detail: &str = match last_error {
            Some(e) => e,
            None => "connection was not ready",
        };
        return ReadinessStep::GiveUp(
            text::cat2("Timed out waiting for Codex app-server: ", detail),
        );
    }
    match exited {
        Some(status) => ReadinessStep::GiveUp(
            text::cat2("Codex app-server exited during startup: ", status),
        ),
        None => ReadinessStep::Probe,
    }
}

/// A client of the proxy has to show the token.
pub fn is_authorized(header: Option<&str>, token: &str) -> (r: bool)
    ensures
        r == (accounts::str_view(header) == Some("Bearer "@ + token@)),
{
    let expected = text::cat2("Bearer ", token);
    match header {
        Some(h) => text::same(h, expected.as_str()),
        None => false,
    }
}

// ---------------------------------------------------------------------------
// Laws
// ---------------------------------------------------------------------------

/// What a session holds on to while it is in a phase.
pub struct Held {
    pub token: bool,
    pub app_server: bool,
    pub tasks: bool,
    pub proxy: bool,
    pub quiet: bool,
    pub codex: bool,
}

pub open spec fn held(phase: RunPhase) -> Held {
    let nothing = Held {
        token: false,
        app_server: false,
        tasks: false,
        proxy: false,
        quiet: false,
        codex: false,
    };
    match phase {
        RunPhase::InitialSwitch | RunPhase::Endpoint | RunPhase::Over => nothing,
        RunPhase::AppServer => Held { token: true, ..nothing },
        RunPhase::Readiness | RunPhase::ProxyListener => Held {
            token: true,
            app_server: true,
            ..nothing
        },
        RunPhase::CodexStart => Held {
            token: true,
            app_server: true,
            tasks: true,
            proxy: true,
            quiet: true,
            ..nothing
        },
        RunPhase::Running => Held {
            token: true,
            app_server: true,
            tasks: true,
            proxy: true,
            quiet: true,
            codex: true,
        },
        RunPhase::LastWait => Held {
            token: true,
            app_server: true,
            tasks: true,
            proxy: false,
            quiet: true,
            codex: true,
        },
    }
}

/// What is held once an event has happened: some of it ends by itself, some of
/// it begins.
pub open spec fn held_at(phase: RunPhase, event: RunEvent) -> Held {
    let h = held(phase);
    match event {
        RunEvent::EndpointReady { .. } => Held { token: h.token || phase == RunPhase::Endpoint, ..h },
        RunEvent::AppServerSpawned { .. } => Held {
            app_server: h.app_server || phase == RunPhase::AppServer,
            ..h
        },
        RunEvent::CodexSpawned { .. } => Held { codex: h.codex || phase == RunPhase::CodexStart, ..h },
        RunEvent::CodexEnded(_) => Held {
            codex: h.codex && phase != RunPhase::Running && phase != RunPhase::LastWait,
            ..h
        },
        RunEvent::ProxyEnded(_) => Held { proxy: h.proxy && phase != RunPhase::Running, ..h },
        _ => h,
    }
}

/// What is held once an action was done.
pub open spec fn held_after(h: Held, action: ActionView) -> Held {
    match action {
        ActionView::StartTasks => Held { tasks: true, proxy: true, ..h },
        ActionView::Quiet => Held { quiet: true, ..h },
        ActionView::Loud => Held { quiet: false, ..h },
        ActionView::ShutdownCodex => Held { codex: false, ..h },
        ActionView::AbortProxy => Held { proxy: false, ..h },
        ActionView::StopTasks => Held { tasks: false, ..h },
        ActionView::ShutdownAppServer => Held { app_server: false, ..h },
        ActionView::RemoveToken => Held { token: false, ..h },
        _ => h,
    }
}

pub open spec fn held_after_all(h: Held, actions: Seq<ActionView>) -> Held
    decreases actions.len(),
{
    if actions.len() == 0 {
        h
    } else {
        held_after_all(held_after(h, actions[0]), actions.drop_first())
    }
}

/// However a session goes on, it holds exactly what its phase says. So once it
/// is over nothing is left: no token file, no app-server, no task, no proxy, no
/// Codex that nobody waits for, and the terminal has its log back.
#[verifier::rlimit(40)]
pub proof fn nothing_is_left_behind(phase: RunPhase, event: RunEvent, elapsed: Elapsed)
    ensures
        ({
            let (next, actions) = run_next(phase, event, elapsed);
            held_after_all(held_at(phase, event), actions) == held(next)
        }),
{
    let (next, actions) = run_next(phase, event, elapsed);
    reveal_with_fuel(held_after_all, 8);
    if actions.len() >= 1 {
        let a1 = actions.drop_first();
        if actions.len() >= 2 {
            let a2 = a1.drop_first();
            assert(a1[0] == actions[1]);
            if actions.len() >= 3 {
                let a3 = a2.drop_first();
                assert(a2[0] == actions[2]);
                if actions.len() >= 4 {
                    let a4 = a3.drop_first();
                    assert(a3[0] == actions[3]);
                    if actions.len() >= 5 {
                        let a5 = a4.drop_first();
                        assert(a4[0] == actions[4]);
                        if actions.len() >= 6 {
                            let a6 = a5.drop_first();
                            assert(a5[0] == actions[5]);
                            if actions.len() >= 7 {
                                assert(a6[0] == actions[6]);
                            }
                        }
                    }
                }
            }
        }
    }
}

/// A session that is over says how it ended, as the last thing it does; one that
/// goes on does not.
pub proof fn the_end_is_told_once(phase: RunPhase, event: RunEvent, elapsed: Elapsed, i: int)
    ensures
        ({
            let (next, actions) = run_next(phase, event, elapsed);
            0 <= i < actions.len() ==> ((actions[i] is Finish || actions[i] is Fail) <==> (next
                == RunPhase::Over && i == actions.len() - 1))
        }),
{
}

/// Each thing that has come up leads to the next: the endpoint, the app-server, its
/// readiness, the proxy, and Codex last.
pub proof fn one_thing_leads_to_the_next(phase: RunPhase, event: RunEvent, elapsed: Elapsed)
    ensures
        ({
            let (next, actions) = run_next(phase, event, elapsed);
            &&& (phase == RunPhase::InitialSwitch && event is Switched
                && !(event->Switched_0 is CurrentUnsupported) ==> actions.last()
                == ActionView::PrepareEndpoint && next == RunPhase::Endpoint)
            &&& (phase == RunPhase::Endpoint && event is EndpointReady ==> actions.last()
                == ActionView::SpawnAppServer && next == RunPhase::AppServer)
            &&& (phase == RunPhase::AppServer && event is AppServerSpawned ==> actions.last()
                == ActionView::ProbeAppServer && next == RunPhase::Readiness)
            &&& (phase == RunPhase::Readiness && event is AppServerReady ==> actions.last()
                == ActionView::BindProxy && next == RunPhase::ProxyListener)
            &&& (phase == RunPhase::ProxyListener && event is ProxyBound ==> actions.last()
                == ActionView::SpawnCodex && next == RunPhase::CodexStart)
            &&& (phase == RunPhase::CodexStart && event is CodexSpawned ==> actions.last()
                == ActionView::AwaitCodexOrProxy && next == RunPhase::Running)
            &&& (phase == RunPhase::Running && event is ProxyEnded && event->ProxyEnded_0 is Closed
                ==> actions.last() == ActionView::AwaitCodex && next == RunPhase::LastWait)
        }),
{
}

/// Codex is started only once the proxy is bound, with the tasks started and the
/// output quiet before it.
pub proof fn codex_comes_last(phase: RunPhase, event: RunEvent, elapsed: Elapsed, i: int)
    requires
        0 <= i < run_next(phase, event, elapsed).1.len(),
        run_next(phase, event, elapsed).1[i] == ActionView::SpawnCodex,
    ensures
        phase == RunPhase::ProxyListener && event is ProxyBound,
        exists|j: int|
            0 <= j < i && #[trigger] run_next(phase, event, elapsed).1[j] == ActionView::StartTasks,
        exists|j: int|
            0 <= j < i && #[trigger] run_next(phase, event, elapsed).1[j] == ActionView::Quiet,
{
    let actions = run_next(phase, event, elapsed).1;
    assert(actions.len() == 5);
    assert(actions[1] == ActionView::StartTasks);
    assert(actions[3] == ActionView::Quiet);
}

/// What does not come up ends the session with the message of the failure, and no
/// other account is no reason to end it.
pub proof fn failures_end_the_session(phase: RunPhase, event: RunEvent, elapsed: Elapsed)
    ensures
        ({
            let (next, actions) = run_next(phase, event, elapsed);
            &&& (phase == RunPhase::InitialSwitch && event is SwitchFailed
                && event->error is NoUsableReplacement ==> actions.last()
                == ActionView::PrepareEndpoint && next == RunPhase::Endpoint)
            &&& (phase == RunPhase::InitialSwitch && event is SwitchFailed && event->error is Other
                ==> actions.last() == ActionView::Fail("Initial account auto-switch failed"@))
            &&& (phase == RunPhase::InitialSwitch && event is Switched
                && event->Switched_0 is CurrentUnsupported ==> actions.last() is Fail && next
                == RunPhase::Over && text::finishes_with(
                actions.last()->Fail_0,
                event->Switched_0->CurrentUnsupported_reason@,
            ))
            &&& (phase == RunPhase::Endpoint && event is EndpointFailed ==> actions.last()
                == ActionView::Fail(event->EndpointFailed_0@))
            &&& (phase == RunPhase::AppServer && event is AppServerFailed ==> actions.last()
                == ActionView::Fail(event->AppServerFailed_0.message@))
            &&& (phase == RunPhase::Readiness && event is AppServerNotReady ==> actions.last()
                == ActionView::Fail(event->AppServerNotReady_0.message@))
            &&& (phase == RunPhase::ProxyListener && event is ProxyNotBound ==> actions.last()
                == ActionView::Fail(event->ProxyNotBound_0.message@))
            &&& (phase == RunPhase::CodexStart && event is CodexNotSpawned ==> actions.last()
                == ActionView::Fail("Failed to start codex"@))
        }),
{
    let (next, actions) = run_next(phase, event, elapsed);
    if phase == RunPhase::InitialSwitch && event is Switched
        && event->Switched_0 is CurrentUnsupported {
        let why = event->Switched_0->CurrentUnsupported_reason@;
        let told = actions.last()->Fail_0;
        assert(told.subrange(told.len() - why.len(), told.len() as int) =~= why);
    }
}

/// A session ends well only where Codex ended and could be waited for.
pub proof fn sessions_end_well_with_codex(phase: RunPhase, event: RunEvent, elapsed: Elapsed)
    ensures
        ({
            let (next, actions) = run_next(phase, event, elapsed);
            (actions.len() > 0 && actions.last() == ActionView::Finish) <==> ((phase
                == RunPhase::Running || phase == RunPhase::LastWait) && event is CodexEnded
                && event->CodexEnded_0 is Ok)
        }),
        ({
            let (next, actions) = run_next(phase, event, elapsed);
            (phase == RunPhase::Running || phase == RunPhase::LastWait) && event is CodexEnded
                && event->CodexEnded_0 is Err ==> actions.last() == ActionView::Fail(
                "Failed to wait for codex"@,
            )
        }),
{
}

/// Nothing is removed before what uses it is gone: the token goes behind the
/// app-server, and the app-server behind Codex.
pub proof fn things_are_taken_down_in_turn(
    phase: RunPhase,
    event: RunEvent,
    elapsed: Elapsed,
    i: int,
    j: int,
)
    requires
        0 <= i < run_next(phase, event, elapsed).1.len(),
        0 <= j < run_next(phase, event, elapsed).1.len(),
    ensures
        ({
            let actions = run_next(phase, event, elapsed).1;
            &&& (actions[i] == ActionView::ShutdownAppServer && actions[j]
                == ActionView::RemoveToken ==> i < j)
            &&& (actions[i] == ActionView::ShutdownCodex && actions[j]
                == ActionView::ShutdownAppServer ==> i < j)
        }),
{
}

/// What happens at a time when it is not waited for changes nothing.
pub proof fn strange_events_change_nothing(phase: RunPhase, event: RunEvent, elapsed: Elapsed)
    ensures
        phase == RunPhase::Over ==> run_next(phase, event, elapsed) == (
            RunPhase::Over,
            Seq::<ActionView>::empty(),
        ),
        event is CodexEnded && phase != RunPhase::Running && phase != RunPhase::LastWait ==> run_next(
            phase,
            event,
            elapsed,
        ) == (phase, Seq::<ActionView>::empty()),
        event is ProxyEnded && phase != RunPhase::Running ==> run_next(phase, event, elapsed) == (
            phase,
            Seq::<ActionView>::empty(),
        ),
{
}

/// The app-server is asked whether it is ready as long as there is time and it runs.
/// Once the time is over it is told with the last error.
pub proof fn the_app_server_is_waited_for(
    deadline: u128,
    now: u128,
    last_error: Option<&str>,
    exited: Option<&str>,
    r: ReadinessStep,
)
    requires
        call_ensures(readiness_step, (deadline, now, last_error, exited), r),
    ensures
        r is Probe <==> now < deadline && exited is None,
        now >= deadline && last_error is Some ==> text::finishes_with(
            r->GiveUp_0@,
            last_error->Some_0@,
        ),
        now < deadline && exited is Some ==> text::finishes_with(r->GiveUp_0@, exited->Some_0@),
{
    if r is GiveUp {
        let m = r->GiveUp_0@;
        if now >= deadline && last_error is Some {
            let e = last_error->Some_0@;
            assert(m.subrange(m.len() - e.len(), m.len() as int) =~= e);
        }
        if now < deadline && exited is Some {
            let e = exited->Some_0@;
            assert(m.subrange(m.len() - e.len(), m.len() as int) =~= e);
        }
    }
}

/// Only who names the token is let in: no header, no scheme and another token are
/// not enough.
pub proof fn only_the_token_lets_in(header: Option<&str>, token: &str, other: &str, r: bool)
    requires
        call_ensures(is_authorized, (header, token), r),
    ensures
        header is None ==> !r,
        header is Some && header->Some_0@ == token@ ==> !r,
        header is Some && header->Some_0@ == "Bearer "@ + token@ ==> r,
        header is Some && header->Some_0@ == "Bearer "@ + other@ && other@ != token@ ==> !r,
{
    reveal_strlit("Bearer ");
    if header is Some {
        let h = header->Some_0@;
        let good = "Bearer "@ + token@;
        assert(good.len() == 7 + token@.len());
        if h == "Bearer "@ + other@ && other@ != token@ {
            assert(h.skip(7) =~= other@);
            assert(good.skip(7) =~= token@);
        }
    }
}

/// The first lines of a log tell where it is, what is run, and which versions.
pub proof fn logs_open_with_the_run(
    log_path: &str,
    codex_bin: &str,
    summary: &str,
    version: &str,
    codex_version: Option<&str>,
    r: Vec<RunAction>,
)
    requires
        call_ensures(opening_lines, (log_path, codex_bin, summary, version, codex_version), r),
    ensures
        r@.len() == 5,
        forall|i: int| 0 <= i < 5 ==> (#[trigger] r@[i]) is Log,
        r@[0]->Log_0@ == shown::sanitized("runtime log: "@ + log_path@),
        r@[1]->Log_0@ == shown::sanitized(
            "run start: codex-bin="@ + codex_bin@ + ", args="@ + summary@,
        ),
        r@[2]->Log_0@ == shown::sanitized("codex-switch version: "@ + version@),
        codex_version is Some ==> r@[3]->Log_0@ == shown::sanitized(
            "codex version: "@ + codex_version->Some_0@,
        ),
        codex_version is None ==> r@[3]->Log_0@ == shown::sanitized("codex version: unknown"@),
{
    let v = actions_view(r@);
    assert(v.len() == r@.len());
    assert(v[0] == r@[0]@ && v[1] == r@[1]@ && v[2] == r@[2]@ && v[3] == r@[3]@ && v[4] == r@[4]@);
    reveal_strlit("codex version: unknown");
    reveal_strlit("codex version: ");
    reveal_strlit("unknown");
    assert("codex version: unknown"@ =~= "codex version: "@ + "unknown"@);
}

/// A session is planned where it can run with the proxy and does not say itself where
/// it connects to.
pub proof fn sessions_are_planned(codex_args: Vec<String>, cwd: &str, r: Result<RunPlan, String>)
    requires
        call_ensures(plan_run, (&codex_args, cwd), r),
    ensures
        r is Ok <==> args::is_interactive(codex_args@) && !args::option_given(
            codex_args@,
            "--remote"@,
        ) && !args::option_given(codex_args@, "--remote-auth-token-env"@),
        !args::is_interactive(codex_args@) ==> r->Err_0@ == args::NOT_INTERACTIVE@,
        r matches Ok(p) ==> text::views(p.codex_args@) == args::with_cwd(codex_args@, cwd@)
            && p.summary@ == args::args_summary(codex_args@),
{
}

} // verus!
