//! A report on the installation: what works, what is odd, and what to do.
use crate::accounts;
use crate::accounts::{AccountsStore, StoredAccount, Timestamp};
use crate::auth_json;
use crate::codex_http;
use crate::encoding;
use crate::process;
use crate::process::CodexProcessInfo;
use crate::search;
use crate::text;
use crate::time;
use vstd::prelude::*;

verus! {

#[derive(Debug, Clone, Copy, PartialEq, Eq, Structural)]
pub enum DoctorSeverity {
    Fine,
    Warn,
    Error,
}

impl DoctorSeverity {
    pub open spec fn name(self) -> Seq<char> {
        match self {
            DoctorSeverity::Fine => "ok"@,
            DoctorSeverity::Warn => "warn"@,
            DoctorSeverity::Error => "error"@,
        }
    }

    pub fn as_str(self) -> (r: &'static str)
        ensures
            r@ == self.name(),
    {
        match self {
            DoctorSeverity::Fine => "ok",
            DoctorSeverity::Warn => "warn",
            DoctorSeverity::Error => "error",
        }
    }
}

#[derive(Debug)]
pub struct DoctorCheck {
    pub severity: DoctorSeverity,
    pub category: &'static str,
    pub message: String,
    pub hints: Vec<String>,
}

pub struct CheckView {
    pub severity: DoctorSeverity,
    pub category: Seq<char>,
    pub message: Seq<char>,
    pub hints: Seq<Seq<char>>,
}

impl View for DoctorCheck {
    type V = CheckView;

    open spec fn view(&self) -> CheckView {
        CheckView {
            severity: self.severity,
            category: self.category@,
            message: self.message@,
            hints: text::views(self.hints@),
        }
    }
}

pub open spec fn check(severity: DoctorSeverity, category: Seq<char>, message: Seq<char>) -> CheckView {
    CheckView { severity, category, message, hints: Seq::empty() }
}

pub open spec fn ok(category: Seq<char>, message: Seq<char>) -> CheckView {
    check(DoctorSeverity::Fine, category, message)
}

pub open spec fn warn(category: Seq<char>, message: Seq<char>) -> CheckView {
    check(DoctorSeverity::Warn, category, message)
}

pub open spec fn error(category: Seq<char>, message: Seq<char>) -> CheckView {
    check(DoctorSeverity::Error, category, message)
}

pub open spec fn hinted(c: CheckView, hint: Seq<char>) -> CheckView {
    CheckView { hints: c.hints.push(hint), ..c }
}

impl DoctorCheck {
    pub fn new(severity: DoctorSeverity, category: &'static str, message: String) -> (r: Self)
        ensures
            r@ == check(severity, category@, message@),
    {
        let hints: Vec<String> = Vec::new();
        assert(text::views(hints@) =~= Seq::empty());
        DoctorCheck { severity, category, message, hints }
    }

    pub fn ok(category: &'static str, message: String) -> (r: Self)
        ensures
            r@ == ok(category@, message@),
    {
        DoctorCheck::new(DoctorSeverity::Fine, category, message)
    }

    pub fn warn(category: &'static str, message: String) -> (r: Self)
        ensures
            r@ == warn(category@, message@),
    {
        DoctorCheck::new(DoctorSeverity::Warn, category, message)
    }

    pub fn error(category: &'static str, message: String) -> (r: Self)
        ensures
            r@ == error(category@, message@),
    {
        DoctorCheck::new(DoctorSeverity::Error, category, message)
    }

    pub fn with_hint(self, hint: &str) -> (r: Self)
        ensures
            r@ == hinted(self@, hint@),
    {
        let mut hints = self.hints;
        let ghost before = hints@;
        hints.push(hint.to_owned());
        assert(text::views(hints@) =~= text::views(before).push(hint@));
        DoctorCheck {
            severity: self.severity,
            category: self.category,
            message: self.message,
            hints,
        }
    }
}

// ---------------------------------------------------------------------------
// The report
// ---------------------------------------------------------------------------

#[derive(Debug)]
pub struct DoctorReport {
    pub checks: Vec<DoctorCheck>,
}

pub open spec fn checks_view(checks: Seq<DoctorCheck>) -> Seq<CheckView> {
    checks.map_values(|c: DoctorCheck| c@)
}

impl View for DoctorReport {
    type V = Seq<CheckView>;

    open spec fn view(&self) -> Seq<CheckView> {
        checks_view(self.checks@)
    }
}

pub open spec fn has_error(checks: Seq<CheckView>) -> bool {
    exists|i: int| 0 <= i < checks.len() && (#[trigger] checks[i]).severity == DoctorSeverity::Error
}

pub open spec fn hints_shown(hints: Seq<Seq<char>>) -> Seq<char>
    decreases hints.len(),
{
    if hints.len() == 0 {
        Seq::empty()
    } else {
        hints_shown(hints.drop_last()) + ("  hint: "@ + hints.last() + "\n"@)
    }
}

pub open spec fn check_shown(c: CheckView) -> Seq<char> {
    "["@ + c.severity.name() + "] "@ + c.category + ": "@ + c.message + "\n"@ + hints_shown(
        c.hints,
    )
}

pub open spec fn report_shown(checks: Seq<CheckView>) -> Seq<char>
    decreases checks.len(),
{
    if checks.len() == 0 {
        Seq::empty()
    } else {
        report_shown(checks.drop_last()) + check_shown(checks.last())
    }
}

fn show_check(c: &DoctorCheck) -> (r: String)
    ensures
        r@ == check_shown(c@),
{
    let head = text::cat6("[", c.severity.as_str(), "] ", c.category, ": ", c.message.as_str());
    let mut r = text::cat2(head.as_str(), "\n");
    let ghost line = r@;
    let ghost hints = text::views(c.hints@);
    let mut i: usize = 0;
    assert(hints.take(0) =~= Seq::empty());
    assert(line + hints_shown(hints.take(0)) =~= line);
    while i < c.hints.len()
        invariant
            i <= c.hints@.len(),
            hints == text::views(c.hints@),
            r@ == line + hints_shown(hints.take(i as int)),
        decreases c.hints@.len() - i,
    {
        assert(hints.take(i as int + 1).drop_last() =~= hints.take(i as int));
        assert(hints[i as int] == c.hints@[i as int]@);
        let shown = text::cat3("  hint: ", c.hints[i].as_str(), "\n");
        let ghost before = r@;
        r = text::cat2(r.as_str(), shown.as_str());
        assert(r@ =~= line + hints_shown(hints.take(i as int + 1)));
        i = i + 1;
    }
    assert(hints.take(i as int) =~= hints);
    r
}

impl DoctorReport {
    pub fn new() -> (r: Self)
        ensures
            r@ == Seq::<CheckView>::empty(),
    {
        let r = DoctorReport { checks: Vec::new() };
        assert(r@ =~= Seq::<CheckView>::empty());
        r
    }

    pub fn push(&mut self, c: DoctorCheck)
        ensures
            final(self)@ == old(self)@.push(c@),
    {
        let ghost before = self.checks@;
        let ghost shown = c@;
        self.checks.push(c);
        assert(checks_view(self.checks@) =~= checks_view(before).push(shown));
    }

    pub fn has_errors(&self) -> (r: bool)
        ensures
            r == has_error(self@),
    {
        let mut i: usize = 0;
        while i < self.checks.len()
            invariant
                i <= self.checks@.len(),
                forall|k: int|
                    0 <= k < i ==> (#[trigger] self.checks@[k]).severity != DoctorSeverity::Error,
            decreases self.checks@.len() - i,
        {
            if self.checks[i].severity == DoctorSeverity::Error {
                assert(self@[i as int].severity == DoctorSeverity::Error);
                return true;
            }
            i = i + 1;
        }
        assert forall|k: int| 0 <= k < self@.len() implies (#[trigger] self@[k]).severity
            != DoctorSeverity::Error by {
            assert(self@[k] == self.checks@[k]@);
        }
        false
    }

    pub fn format_human(&self) -> (r: String)
        ensures
            r@ == report_shown(self@),
    {
        let mut r = String::new();
        let ghost all = self@;
        let mut i: usize = 0;
        assert(all.take(0) =~= Seq::empty());
        while i < self.checks.len()
            invariant
                i <= self.checks@.len(),
                all == self@,
                r@ == report_shown(all.take(i as int)),
            decreases self.checks@.len() - i,
        {
            assert(all.take(i as int + 1).drop_last() =~= all.take(i as int));
            assert(all[i as int] == self.checks@[i as int]@);
            let shown = show_check(&self.checks[i]);
            r = text::cat2(r.as_str(), shown.as_str());
            i = i + 1;
        }
        assert(all.take(i as int) =~= all);
        r
    }
}

// ---------------------------------------------------------------------------
// The installation
// ---------------------------------------------------------------------------

pub open spec fn install_check(version: Seq<char>, exe: Result<String, String>) -> CheckView {
    match exe {
        Ok(path) => ok("install"@, "codex-switch "@ + version + " at "@ + path@),
        Err(e) => hinted(
            warn(
                "install"@,
                "codex-switch "@ + version
                    + " is running, but current executable path could not be read: "@ + e@,
            ),
            "check PATH or reinstall codex-switch if multiple versions are installed"@,
        ),
    }
}

pub fn add_install_checks(report: &mut DoctorReport, version: &str, exe: &Result<String, String>)
    ensures
        final(report)@ == old(report)@.push(install_check(version@, *exe)),
{
    match exe {
        Ok(path) => {
            let m = text::cat4("codex-switch ", version, " at ", path.as_str());
            report.push(DoctorCheck::ok("install", m));
        },
        Err(e) => {
            let m = text::cat4(
                "codex-switch ",
                version,
                " is running, but current executable path could not be read: ",
                e.as_str(),
            );
            report.push(
                DoctorCheck::warn("install", m).with_hint(
                    "check PATH or reinstall codex-switch if multiple versions are installed",
                ),
            );
        },
    }
}

// ---------------------------------------------------------------------------
// Codex
// ---------------------------------------------------------------------------

/// What running a command came to.
pub enum CommandProbe {
    Completed(CommandOutput),
    TimedOut,
    NotFound(String),
    Failed(String),
}

pub struct CommandOutput {
    pub success: bool,
    /// How the command ended, in words.
    pub status: String,
    pub stdout: Vec<u8>,
    pub stderr: Vec<u8>,
}

pub const CODEX_COMMAND_SECONDS: u64 = 10;

pub const EXCERPT_CHARS: usize = 240;

pub open spec fn output_text(o: CommandOutput) -> Seq<char> {
    encoding::text_of(o.stdout@) + "\n"@ + encoding::text_of(o.stderr@)
}

pub fn command_output_text(o: &CommandOutput) -> (r: String)
    ensures
        r@ == output_text(*o),
{
    let stdout = encoding::decode_lossy(&o.stdout);
    let stderr = encoding::decode_lossy(&o.stderr);
    text::cat3(stdout.as_str(), "\n", stderr.as_str())
}

/// The beginning of what a command said, or how it ended where it said nothing.
pub open spec fn output_excerpt(o: CommandOutput) -> Seq<char> {
    let said = text::trimmed(output_text(o));
    if said.len() == 0 {
        "exit status "@ + o.status@
    } else if said.len() > EXCERPT_CHARS {
        said.take(EXCERPT_CHARS as int) + "..."@
    } else {
        said
    }
}

pub fn command_output_excerpt(o: &CommandOutput) -> (r: String)
    ensures
        r@ == output_excerpt(*o),
{
    let both = command_output_text(o);
    let said = text::trim(both.as_str());
    if said.as_str().is_empty() {
        return text::cat2("exit status ", o.status.as_str());
    }
    let v = text::to_chars(said.as_str());
    if v.len() > EXCERPT_CHARS {
        let head = text::from_chars(&v, 0, EXCERPT_CHARS);
        assert(head@ =~= said@.take(EXCERPT_CHARS as int));
        text::cat2(head.as_str(), "...")
    } else {
        said
    }
}

pub open spec fn is_flag_char(c: char) -> bool {
    text::is_alphanumeric(c) || c == '-' || c == '='
}

pub open spec fn skip_to_flag(s: Seq<char>) -> Seq<char>
    decreases s.len(),
{
    if s.len() > 0 && !is_flag_char(s[0]) {
        skip_to_flag(s.skip(1))
    } else {
        s
    }
}

pub open spec fn drop_from_flag(s: Seq<char>) -> Seq<char>
    decreases s.len(),
{
    if s.len() > 0 && !is_flag_char(s.last()) {
        drop_from_flag(s.drop_last())
    } else {
        s
    }
}

/// A word of the help is the flag itself, with or without a value.
pub open spec fn is_remote_flag(word: Seq<char>) -> bool {
    let flag = drop_from_flag(skip_to_flag(word));
    flag == "--remote"@ || text::begins_with(flag, "--remote="@)
}

pub open spec fn supports_remote(help: Seq<char>) -> bool {
    (exists|i: int|
        0 <= i < text::words_of(help).len() && is_remote_flag(#[trigger] text::words_of(help)[i]))
        && text::has_text(help, "--remote-auth-token-env"@)
}

fn flag_char(c: char) -> (r: bool)
    ensures
        r == is_flag_char(c),
{
    text::alphanumeric(c) || c == '-' || c == '='
}

fn bare_flag(s: &str) -> (r: String)
    ensures
        r@ == drop_from_flag(skip_to_flag(s@)),
{
    let v = text::to_chars(s);
    let mut from: usize = 0;
    assert(s@.skip(0) =~= s@);
    while from < v.len() && !flag_char(v[from])
        invariant
            from <= v@.len(),
            v@ == s@,
            skip_to_flag(s@) == skip_to_flag(s@.skip(from as int)),
        decreases v@.len() - from,
    {
        assert(s@.skip(from as int).skip(1) =~= s@.skip(from as int + 1));
        from = from + 1;
    }
    let ghost rest = s@.skip(from as int);
    assert(skip_to_flag(s@) == rest);
    let mut to: usize = v.len();
    assert(rest.take(rest.len() as int) =~= rest);
    while to > from && !flag_char(v[to - 1])
        invariant
            from <= to <= v@.len(),
            v@ == s@,
            rest == s@.skip(from as int),
            drop_from_flag(rest) == drop_from_flag(rest.take(to - from)),
        decreases to,
    {
        assert(rest.take(to - from).drop_last() =~= rest.take(to - from - 1));
        assert(rest.take(to - from).last() == v@[to - 1]);
        to = to - 1;
    }
    let r = text::from_chars(&v, from, to);
    assert(r@ =~= rest.take(to - from));
    if to > from {
        assert(rest.take(to - from).last() == v@[to - 1]);
    }
    r
}

pub fn help_output_supports_remote(output: &str) -> (r: bool)
    ensures
        r == supports_remote(output@),
{
    let words = text::words(output);
    let ghost all = text::words_of(output@);
    let mut found: bool = false;
    let mut i: usize = 0;
    while i < words.len()
        invariant
            i <= words@.len(),
            text::views(words@) == all,
            found == exists|k: int| 0 <= k < i && is_remote_flag(#[trigger] all[k]),
        decreases words@.len() - i,
    {
        assert(text::views(words@)[i as int] == words@[i as int]@);
        let flag = bare_flag(words[i].as_str());
        if text::same(flag.as_str(), "--remote") || text::starts_with(flag.as_str(), "--remote=") {
            assert(is_remote_flag(all[i as int]));
            found = true;
        }
        i = i + 1;
    }
    found && text::contains(output, "--remote-auth-token-env")
}

pub open spec fn seconds_shown() -> Seq<char> {
    text::decimal(CODEX_COMMAND_SECONDS as nat) + "s"@
}

pub const REMOTE_HINT: &'static str = "codex-switch run requires Codex --remote support";

/// What Codex's help says of the flags that a session needs.
pub open spec fn remote_check(bin: Seq<char>, help: CommandProbe) -> CheckView {
    match help {
        CommandProbe::TimedOut => hinted(
            warn(
                "codex"@,
                bin + " --help timed out after "@ + seconds_shown()
                    + " during remote support check"@,
            ),
            REMOTE_HINT@,
        ),
        CommandProbe::NotFound(e) => hinted(
            warn(
                "codex"@,
                "failed to run "@ + bin + " --help for remote support check: "@ + e@,
            ),
            REMOTE_HINT@,
        ),
        CommandProbe::Failed(e) => hinted(
            warn(
                "codex"@,
                "failed to run "@ + bin + " --help for remote support check: "@ + e@,
            ),
            REMOTE_HINT@,
        ),
        CommandProbe::Completed(o) => if !o.success {
            hinted(
                warn(
                    "codex"@,
                    bin + " --help failed during remote support check: "@ + output_excerpt(o),
                ),
                REMOTE_HINT@,
            )
        } else if supports_remote(output_text(o)) {
            ok("codex"@, "Codex help advertises --remote and --remote-auth-token-env"@)
        } else {
            hinted(
                error(
                    "codex"@,
                    "Codex help does not advertise the remote TUI flags required by codex-switch run"@,
                ),
                "upgrade Codex or pass --codex-bin <path> for a compatible Codex CLI"@,
            )
        },
    }
}

pub fn add_codex_remote_support_check(
    report: &mut DoctorReport,
    codex_bin: &str,
    help: &CommandProbe,
)
    ensures
        final(report)@ == old(report)@.push(remote_check(codex_bin@, *help)),
{
    match help {
        CommandProbe::TimedOut => {
            let n = text::number(CODEX_COMMAND_SECONDS);
            let seconds = text::cat2(n.as_str(), "s");
            let m = text::cat4(
                codex_bin,
                " --help timed out after ",
                seconds.as_str(),
                " during remote support check",
            );
            report.push(DoctorCheck::warn("codex", m).with_hint(REMOTE_HINT));
        },
        CommandProbe::NotFound(e) => {
            let m = text::cat4(
                "failed to run ",
                codex_bin,
                " --help for remote support check: ",
                e.as_str(),
            );
            report.push(DoctorCheck::warn("codex", m).with_hint(REMOTE_HINT));
        },
        CommandProbe::Failed(e) => {
            let m = text::cat4(
                "failed to run ",
                codex_bin,
                " --help for remote support check: ",
                e.as_str(),
            );
            report.push(DoctorCheck::warn("codex", m).with_hint(REMOTE_HINT));
        },
        CommandProbe::Completed(o) => {
            if !o.success {
                let excerpt = command_output_excerpt(o);
                let m = text::cat3(
                    codex_bin,
                    " --help failed during remote support check: ",
                    excerpt.as_str(),
                );
                report.push(DoctorCheck::warn("codex", m).with_hint(REMOTE_HINT));
                return ;
            }
            let said = command_output_text(o);
            if help_output_supports_remote(said.as_str()) {
                report.push(
                    DoctorCheck::ok(
                        "codex",
                        "Codex help advertises --remote and --remote-auth-token-env".to_owned(),
                    ),
                );
            } else {
                report.push(
                    DoctorCheck::error(
                        "codex",
                        "Codex help does not advertise the remote TUI flags required by codex-switch run".to_owned(),
                    ).with_hint(
                        "upgrade Codex or pass --codex-bin <path> for a compatible Codex CLI",
                    ),
                );
            }
        },
    }
}

/// Codex told its version, so that its help can be asked for.
pub open spec fn told_version(version: CommandProbe) -> bool {
    version matches CommandProbe::Completed(o) && o.success
}

pub fn wants_help(version: &CommandProbe) -> (r: bool)
    ensures
        r == told_version(*version),
{
    match version {
        CommandProbe::Completed(o) => o.success,
        _ => false,
    }
}

/// What Codex's version says.
pub open spec fn version_check(bin: Seq<char>, version: CommandProbe) -> CheckView {
    match version {
        CommandProbe::TimedOut => hinted(
            error("codex"@, bin + " --version timed out after "@ + seconds_shown()),
            "verify the Codex executable path; wrappers should not block"@,
        ),
        CommandProbe::NotFound(_) => hinted(
            error("codex"@, "Codex executable not found: "@ + bin),
            "install Codex or pass --codex-bin <path>"@,
        ),
        CommandProbe::Failed(e) => hinted(
            error("codex"@, "failed to run "@ + bin + " --version: "@ + e@),
            "verify the Codex executable path and permissions"@,
        ),
        CommandProbe::Completed(o) => if !o.success {
            hinted(
                error("codex"@, bin + " --version failed: "@ + output_excerpt(o)),
                "verify the Codex executable path and installation"@,
            )
        } else {
            match codex_http::version_in_output(output_text(o)) {
                Some(v) => ok("codex"@, bin + " reports Codex version "@ + v),
                None => hinted(
                    warn(
                        "codex"@,
                        bin + " --version succeeded, but the version could not be parsed"@,
                    ),
                    "run codex --version manually to verify the installed Codex CLI"@,
                ),
            }
        },
    }
}

fn check_version(codex_bin: &str, version: &CommandProbe) -> (r: DoctorCheck)
    ensures
        r@ == version_check(codex_bin@, *version),
{
    match version {
        CommandProbe::TimedOut => {
            let n = text::number(CODEX_COMMAND_SECONDS);
            let seconds = text::cat2(n.as_str(), "s");
            let m = text::cat3(codex_bin, " --version timed out after ", seconds.as_str());
            DoctorCheck::error("codex", m).with_hint(
                "verify the Codex executable path; wrappers should not block",
            )
        },
        CommandProbe::NotFound(_) => {
            let m = text::cat2("Codex executable not found: ", codex_bin);
            DoctorCheck::error("codex", m).with_hint("install Codex or pass --codex-bin <path>")
        },
        CommandProbe::Failed(e) => {
            let m = text::cat4("failed to run ", codex_bin, " --version: ", e.as_str());
            DoctorCheck::error("codex", m).with_hint(
                "verify the Codex executable path and permissions",
            )
        },
        CommandProbe::Completed(o) => {
            if !o.success {
                let excerpt = command_output_excerpt(o);
                let m = text::cat3(codex_bin, " --version failed: ", excerpt.as_str());
                return DoctorCheck::error("codex", m).with_hint(
                    "verify the Codex executable path and installation",
                );
            }
            let said = command_output_text(o);
            match codex_http::parse_codex_version_output(said.as_str()) {
                Some(v) => {
                    let m = text::cat3(codex_bin, " reports Codex version ", v.as_str());
                    DoctorCheck::ok("codex", m)
                },
                None => {
                    let m = text::cat2(
                        codex_bin,
                        " --version succeeded, but the version could not be parsed",
                    );
                    DoctorCheck::warn("codex", m).with_hint(
                        "run codex --version manually to verify the installed Codex CLI",
                    )
                },
            }
        },
    }
}

pub open spec fn codex_checks(
    bin: Seq<char>,
    version: CommandProbe,
    help: Option<CommandProbe>,
) -> Seq<CheckView> {
    let first = seq![version_check(bin, version)];
    if told_version(version) && help is Some {
        first.push(remote_check(bin, help->Some_0))
    } else {
        first
    }
}

/// The help is looked at where Codex told its version.
pub fn add_codex_checks(
    report: &mut DoctorReport,
    codex_bin: &str,
    version: &CommandProbe,
    help: &Option<CommandProbe>,
)
    ensures
        final(report)@ == old(report)@ + codex_checks(codex_bin@, *version, *help),
{
    let ghost before = report@;
    report.push(check_version(codex_bin, version));
    assert(report@ =~= before + seq![version_check(codex_bin@, *version)]);
    if wants_help(version) {
        if let Some(h) = help {
            add_codex_remote_support_check(report, codex_bin, h);
            assert(report@ =~= before + codex_checks(codex_bin@, *version, *help));
        }
    }
}

// ---------------------------------------------------------------------------
// Permissions
// ---------------------------------------------------------------------------

#[derive(Debug, Clone, Copy, PartialEq, Eq, Structural)]
pub enum PermissionTarget {
    File,
    Directory,
}

/// The permissions of a file, where the system has such.
pub enum PermissionProbe {
    Mode(u32),
    Skipped,
    Failed(String),
}

/// Neither the group nor others may do anything.
pub open spec fn is_private(mode: u32) -> bool {
    mode & 0o077 == 0
}

pub fn private_mode_is_safe(mode: u32) -> (r: bool)
    ensures
        r == is_private(mode),
{
    mode & 0o077 == 0
}

/// The nine permission bits, in three octal digits.
pub open spec fn octal(mode: u32) -> Seq<char> {
    seq![
        text::digit_char((mode / 64 % 8) as nat),
        text::digit_char((mode / 8 % 8) as nat),
        text::digit_char((mode % 8) as nat),
    ]
}

fn to_octal(mode: u32) -> (r: String)
    ensures
        r@ == octal(mode),
{
    let a = text::number((mode / 64 % 8) as u64);
    let b = text::number((mode / 8 % 8) as u64);
    let c = text::number((mode % 8) as u64);
    let r = text::cat3(a.as_str(), b.as_str(), c.as_str());
    assert(r@ =~= octal(mode));
    r
}

/// Three octal digits say whether the mode is private.
pub proof fn private_modes_end_in_zeros(mode: u32)
    ensures
        is_private(mode) <==> octal(mode)[1] == '0' && octal(mode)[2] == '0',
{
    assert(mode & 0o077 == mode % 64) by (bit_vector);
}

pub open spec fn permission_check(
    category: Seq<char>,
    label: Seq<char>,
    path: Seq<char>,
    target: PermissionTarget,
    probe: PermissionProbe,
) -> CheckView {
    match probe {
        PermissionProbe::Failed(e) => warn(
            category,
            "failed to inspect "@ + label + " permissions at "@ + path + ": "@ + e@,
        ),
        PermissionProbe::Skipped => ok(
            "permissions"@,
            label + " permission check is skipped on this platform"@,
        ),
        PermissionProbe::Mode(mode) => if is_private(mode) {
            ok("permissions"@, label + " permissions are "@ + octal(mode))
        } else {
            let file = target == PermissionTarget::File;
            hinted(
                warn(
                    "permissions"@,
                    label + " permissions are "@ + octal(mode) + (if file {
                        "; expected 0600 or stricter at "@
                    } else {
                        "; expected 0700 or stricter at "@
                    }) + path,
                ),
                (if file {
                    "run chmod 600 "@
                } else {
                    "run chmod 700 "@
                }) + path,
            )
        },
    }
}

pub fn private_permission_check(
    category: &'static str,
    label: &str,
    path: &str,
    target: PermissionTarget,
    probe: &PermissionProbe,
) -> (r: DoctorCheck)
    ensures
        r@ == permission_check(category@, label@, path@, target, *probe),
{
    match probe {
        PermissionProbe::Failed(e) => {
            let m = text::cat6(
                "failed to inspect ",
                label,
                " permissions at ",
                path,
                ": ",
                e.as_str(),
            );
            DoctorCheck::warn(category, m)
        },
        PermissionProbe::Skipped => DoctorCheck::ok(
            "permissions",
            text::cat2(label, " permission check is skipped on this platform"),
        ),
        PermissionProbe::Mode(mode) => {
            let shown = to_octal(*mode);
            if private_mode_is_safe(*mode) {
                return DoctorCheck::ok(
                    "permissions",
                    text::cat3(label, " permissions are ", shown.as_str()),
                );
            }
            let file: bool = target == PermissionTarget::File;
            let expected: &str = if file {
                "; expected 0600 or stricter at "
            } else {
                "; expected 0700 or stricter at "
            };
            let command: &str = if file {
                "run chmod 600 "
            } else {
                "run chmod 700 "
            };
            let m = text::cat5(label, " permissions are ", shown.as_str(), expected, path);
            let hint = text::cat2(command, path);
            DoctorCheck::warn("permissions", m).with_hint(hint.as_str())
        },
    }
}

// ---------------------------------------------------------------------------
// Stored accounts
// ---------------------------------------------------------------------------

/// How many accounts are logged in with ChatGPT.
pub open spec fn chatgpt_count(accounts: Seq<StoredAccount>) -> nat
    decreases accounts.len(),
{
    if accounts.len() == 0 {
        0
    } else {
        chatgpt_count(accounts.drop_last()) + if accounts.last().is_chatgpt() {
            1nat
        } else {
            0nat
        }
    }
}

pub open spec fn store_summary(accounts: Seq<StoredAccount>) -> Seq<char> {
    text::decimal(accounts.len()) + " account(s): "@ + text::decimal(chatgpt_count(accounts))
        + " ChatGPT OAuth, "@ + text::decimal((accounts.len() - chatgpt_count(accounts)) as nat)
        + " API key"@
}

pub fn account_store_summary(store: &AccountsStore) -> (r: String)
    ensures
        r@ == store_summary(store.accounts@),
{
    let ghost all = store.accounts@;
    let mut chatgpt: usize = 0;
    let mut i: usize = 0;
    assert(all.take(0) =~= Seq::empty());
    while i < store.accounts.len()
        invariant
            i <= store.accounts@.len(),
            all == store.accounts@,
            chatgpt <= i,
            chatgpt as nat == chatgpt_count(all.take(i as int)),
        decreases store.accounts@.len() - i,
    {
        assert(all.take(i as int + 1).drop_last() =~= all.take(i as int));
        if store.accounts[i].uses_chatgpt() {
            chatgpt = chatgpt + 1;
        }
        i = i + 1;
    }
    assert(all.take(i as int) =~= all);
    let total: usize = store.accounts.len();
    let n = text::number(total as u64);
    let a = text::number(chatgpt as u64);
    let b = text::number((total - chatgpt) as u64);
    text::cat6(n.as_str(), " account(s): ", a.as_str(), " ChatGPT OAuth, ", b.as_str(), " API key")
}

pub open spec fn pair_shown(left: StoredAccount, right: StoredAccount) -> Seq<char> {
    accounts::label(left) + " and "@ + accounts::label(right)
}

/// What two accounts have in common that they should not.
pub open spec fn pair_checks(left: StoredAccount, right: StoredAccount) -> Seq<CheckView> {
    let name = if left.name@ == right.name@ {
        seq![
            hinted(
                error("store"@, "duplicate account name: "@ + pair_shown(left, right)),
                "rename or delete one duplicate account"@,
            ),
        ]
    } else {
        Seq::empty()
    };
    let identity = if accounts::same_auth_identity(left, right) {
        seq![
            hinted(
                error("store"@, "duplicate account auth identity: "@ + pair_shown(left, right)),
                "delete or replace one duplicate account"@,
            ),
        ]
    } else {
        Seq::empty()
    };
    name + identity
}

/// The pairs of account `i` with those from `i + 1` to `j`.
pub open spec fn row_checks(accounts: Seq<StoredAccount>, i: int, j: int) -> Seq<CheckView>
    decreases j - i,
{
    if j <= i + 1 {
        Seq::empty()
    } else {
        row_checks(accounts, i, j - 1) + pair_checks(accounts[i], accounts[j - 1])
    }
}

/// All pairs of the first `n` accounts with those behind them.
pub open spec fn duplicate_checks(accounts: Seq<StoredAccount>, n: int) -> Seq<CheckView>
    decreases n,
{
    if n <= 0 {
        Seq::empty()
    } else {
        duplicate_checks(accounts, n - 1) + row_checks(accounts, n - 1, accounts.len() as int)
    }
}

fn add_pair_checks(report: &mut DoctorReport, left: &StoredAccount, right: &StoredAccount)
    ensures
        final(report)@ == old(report)@ + pair_checks(*left, *right),
{
    let ghost before = report@;
    let a = accounts::account_label(left);
    let b = accounts::account_label(right);
    let pair = text::cat3(a.as_str(), " and ", b.as_str());
    if text::same(left.name.as_str(), right.name.as_str()) {
        let m = text::cat2("duplicate account name: ", pair.as_str());
        report.push(
            DoctorCheck::error("store", m).with_hint("rename or delete one duplicate account"),
        );
    }
    if accounts::accounts_have_same_auth_identity(left, right) {
        let m = text::cat2("duplicate account auth identity: ", pair.as_str());
        report.push(
            DoctorCheck::error("store", m).with_hint("delete or replace one duplicate account"),
        );
    }
    assert(report@ =~= before + pair_checks(*left, *right));
}

pub fn add_duplicate_account_checks(report: &mut DoctorReport, store: &AccountsStore)
    ensures
        final(report)@ == old(report)@ + duplicate_checks(
            store.accounts@,
            store.accounts@.len() as int,
        ),
{
    let ghost before = report@;
    let ghost all = store.accounts@;
    let mut i: usize = 0;
    assert(report@ =~= before + duplicate_checks(all, 0));
    while i < store.accounts.len()
        invariant
            i <= store.accounts@.len(),
            all == store.accounts@,
            report@ == before + duplicate_checks(all, i as int),
        decreases store.accounts@.len() - i,
    {
        let ghost start = report@;
        let mut j: usize = i + 1;
        assert(report@ =~= start + row_checks(all, i as int, j as int));
        while j < store.accounts.len()
            invariant
                i < j <= store.accounts@.len(),
                all == store.accounts@,
                report@ == start + row_checks(all, i as int, j as int),
            decreases store.accounts@.len() - j,
        {
            add_pair_checks(report, &store.accounts[i], &store.accounts[j]);
            assert(report@ =~= start + row_checks(all, i as int, j as int + 1));
            j = j + 1;
        }
        assert(report@ =~= before + duplicate_checks(all, i as int + 1));
        i = i + 1;
    }
}

/// What became of the accounts file: where it is, whether it is there, its
/// permissions, and what it holds.
pub struct StoreProbe {
    pub path: Result<String, String>,
    pub exists: bool,
    pub permissions: PermissionProbe,
    pub accounts: Result<AccountsStore, String>,
}

pub open spec fn store_checks(p: StoreProbe) -> Seq<CheckView> {
    match p.path {
        Err(e) => seq![error("store"@, "failed to resolve accounts.json path: "@ + e@)],
        Ok(path) => {
            let first = if p.exists {
                permission_check(
                    "store"@,
                    "accounts.json"@,
                    path@,
                    PermissionTarget::File,
                    p.permissions,
                )
            } else {
                hinted(
                    warn("store"@, "accounts.json does not exist at "@ + path@),
                    "run codex-switch login <name> or codex-switch import <name>"@,
                )
            };
            match p.accounts {
                Ok(store) => seq![first].push(
                    ok(
                        "store"@,
                        store_summary(store.accounts@) + " loaded from "@ + path@,
                    ),
                ) + duplicate_checks(store.accounts@, store.accounts@.len() as int),
                Err(e) => seq![first].push(
                    hinted(
                        error(
                            "store"@,
                            "failed to read accounts.json at "@ + path@ + ": "@ + e@,
                        ),
                        "fix or restore ~/.codex-switch/accounts.json"@,
                    ),
                ),
            }
        },
    }
}

pub fn add_store_checks(report: &mut DoctorReport, probe: &StoreProbe)
    ensures
        final(report)@ == old(report)@ + store_checks(*probe),
{
    let ghost before = report@;
    match &probe.path {
        Err(e) => {
            let m = text::cat2("failed to resolve accounts.json path: ", e.as_str());
            report.push(DoctorCheck::error("store", m));
            assert(report@ =~= before + store_checks(*probe));
        },
        Ok(path) => {
            if probe.exists {
                report.push(
                    private_permission_check(
                        "store",
                        "accounts.json",
                        path.as_str(),
                        PermissionTarget::File,
                        &probe.permissions,
                    ),
                );
            } else {
                let m = text::cat2("accounts.json does not exist at ", path.as_str());
                report.push(
                    DoctorCheck::warn("store", m).with_hint(
                        "run codex-switch login <name> or codex-switch import <name>",
                    ),
                );
            }
            match &probe.accounts {
                Ok(store) => {
                    let summary = account_store_summary(store);
                    let m = text::cat3(summary.as_str(), " loaded from ", path.as_str());
                    report.push(DoctorCheck::ok("store", m));
                    add_duplicate_account_checks(report, store);
                    assert(report@ =~= before + store_checks(*probe));
                },
                Err(e) => {
                    let m = text::cat4(
                        "failed to read accounts.json at ",
                        path.as_str(),
                        ": ",
                        e.as_str(),
                    );
                    report.push(
                        DoctorCheck::error("store", m).with_hint(
                            "fix or restore ~/.codex-switch/accounts.json",
                        ),
                    );
                    assert(report@ =~= before + store_checks(*probe));
                },
            }
        },
    }
}

// ---------------------------------------------------------------------------
// Codex's login
// ---------------------------------------------------------------------------

/// What the end of the current access token says. API keys have none.
pub open spec fn token_checks(
    account: StoredAccount,
    token_end: Option<Timestamp>,
    now: Timestamp,
) -> Seq<CheckView> {
    if !account.is_chatgpt() {
        Seq::empty()
    } else {
        match token_end {
            Some(end) => if !now.is_before(end) {
                seq![
                    hinted(
                        warn(
                            "auth"@,
                            "current ChatGPT access token expired at "@ + time::shown_moment(end),
                        ),
                        "run codex-switch usage or codex-switch login <name> --replace if refresh fails"@,
                    ),
                ]
            } else {
                seq![
                    ok(
                        "auth"@,
                        "current ChatGPT access token expires at "@ + time::shown_moment(end),
                    ),
                ]
            },
            None => seq![
                hinted(
                    warn("auth"@, "current ChatGPT access token expiry could not be parsed"@),
                    "run codex-switch login <name> --replace if this account stops refreshing"@,
                ),
            ],
        }
    }
}

/// Looks at the end of the account's own access token.
pub fn add_current_token_check(
    report: &mut DoctorReport,
    account: &StoredAccount,
    now: Timestamp,
)
    ensures
        final(report)@ == old(report)@ + token_checks(
            *account,
            auth_json::account_token_end(*account),
            now,
        ),
{
    add_token_end_check(report, account, auth_json::account_token_expires_at(account), now);
}

/// `token_end` is when the account's access token ends, where that can be told.
pub fn add_token_end_check(
    report: &mut DoctorReport,
    account: &StoredAccount,
    token_end: Option<Timestamp>,
    now: Timestamp,
)
    ensures
        final(report)@ == old(report)@ + token_checks(*account, token_end, now),
{
    let ghost before = report@;
    if !account.uses_chatgpt() {
        assert(report@ =~= before + Seq::empty());
        return ;
    }
    match token_end {
        Some(end) => {
            let shown = time::show_moment(end);
            if !now.before(end) {
                let m = text::cat2("current ChatGPT access token expired at ", shown.as_str());
                report.push(
                    DoctorCheck::warn("auth", m).with_hint(
                        "run codex-switch usage or codex-switch login <name> --replace if refresh fails",
                    ),
                );
            } else {
                let m = text::cat2("current ChatGPT access token expires at ", shown.as_str());
                report.push(DoctorCheck::ok("auth", m));
            }
        },
        None => {
            report.push(
                DoctorCheck::warn(
                    "auth",
                    "current ChatGPT access token expiry could not be parsed".to_owned(),
                ).with_hint(
                    "run codex-switch login <name> --replace if this account stops refreshing",
                ),
            );
        },
    }
    assert(report@ =~= before + token_checks(*account, token_end, now));
}

pub open spec fn match_check(accounts: Seq<StoredAccount>, auth: StoredAccount) -> CheckView {
    match search::first_of(accounts, accounts::matches_identity(auth)) {
        Some(a) => ok(
            "auth"@,
            "current auth.json matches stored account "@ + accounts::label(a),
        ),
        None => hinted(
            warn("auth"@, "current auth.json does not match a stored account"@),
            "run codex-switch import <name> or codex-switch switch <name-or-id>"@,
        ),
    }
}

pub fn add_current_auth_match_check(
    report: &mut DoctorReport,
    store: &AccountsStore,
    current_auth: &StoredAccount,
)
    ensures
        final(report)@ == old(report)@.push(match_check(store.accounts@, *current_auth)),
{
    match accounts::find_matching_account(store, current_auth) {
        Some(a) => {
            let label = accounts::account_label(a);
            let m = text::cat2("current auth.json matches stored account ", label.as_str());
            report.push(DoctorCheck::ok("auth", m));
        },
        None => {
            report.push(
                DoctorCheck::warn(
                    "auth",
                    "current auth.json does not match a stored account".to_owned(),
                ).with_hint("run codex-switch import <name> or codex-switch switch <name-or-id>"),
            );
        },
    }
}

/// What became of Codex's login: where it is, whether it is there, its
/// permissions and what it holds.
pub struct AuthProbe {
    pub path: Result<String, String>,
    pub exists: bool,
    pub permissions: PermissionProbe,
    pub current: Result<Option<StoredAccount>, String>,
    pub now: Timestamp,
}

pub open spec fn auth_checks(p: AuthProbe, store: Option<AccountsStore>) -> Seq<CheckView> {
    match p.path {
        Err(e) => seq![error("auth"@, "failed to resolve Codex auth.json path: "@ + e@)],
        Ok(path) => {
            let first = if p.exists {
                seq![
                    permission_check(
                        "auth"@,
                        "Codex auth.json"@,
                        path@,
                        PermissionTarget::File,
                        p.permissions,
                    ),
                ]
            } else {
                Seq::empty()
            };
            first + match p.current {
                Ok(Some(account)) => seq![
                    ok(
                        "auth"@,
                        "Codex auth.json at "@ + path@ + " uses "@ + account.auth_mode.name()
                            + " auth"@,
                    ),
                ] + token_checks(account, auth_json::account_token_end(account), p.now) + match store {
                    Some(s) => seq![match_check(s.accounts@, account)],
                    None => Seq::empty(),
                },
                Ok(None) => seq![
                    hinted(
                        warn("auth"@, "Codex auth.json does not exist at "@ + path@),
                        "run codex-switch switch <name-or-id> to write Codex auth.json"@,
                    ),
                ],
                Err(e) => seq![
                    hinted(
                        error(
                            "auth"@,
                            "failed to parse Codex auth.json at "@ + path@ + ": "@ + e@,
                        ),
                        "run codex-switch import <name> after fixing auth.json, or switch to a stored account"@,
                    ),
                ],
            }
        },
    }
}

pub open spec fn deref_store(store: Option<&AccountsStore>) -> Option<AccountsStore> {
    match store {
        Some(s) => Some(*s),
        None => None,
    }
}

pub fn add_auth_checks(
    report: &mut DoctorReport,
    probe: &AuthProbe,
    store: Option<&AccountsStore>,
)
    ensures
        final(report)@ == old(report)@ + auth_checks(*probe, deref_store(store)),
{
    let ghost before = report@;
    match &probe.path {
        Err(e) => {
            let m = text::cat2("failed to resolve Codex auth.json path: ", e.as_str());
            report.push(DoctorCheck::error("auth", m));
            assert(report@ =~= before + auth_checks(*probe, deref_store(store)));
        },
        Ok(path) => {
            if probe.exists {
                report.push(
                    private_permission_check(
                        "auth",
                        "Codex auth.json",
                        path.as_str(),
                        PermissionTarget::File,
                        &probe.permissions,
                    ),
                );
            }
            match &probe.current {
                Ok(Some(account)) => {
                    let m = text::cat5(
                        "Codex auth.json at ",
                        path.as_str(),
                        " uses ",
                        account.auth_mode.as_str(),
                        " auth",
                    );
                    report.push(DoctorCheck::ok("auth", m));
                    add_current_token_check(report, account, probe.now);
                    if let Some(s) = store {
                        add_current_auth_match_check(report, s, account);
                    }
                },
                Ok(None) => {
                    let m = text::cat2("Codex auth.json does not exist at ", path.as_str());
                    report.push(
                        DoctorCheck::warn("auth", m).with_hint(
                            "run codex-switch switch <name-or-id> to write Codex auth.json",
                        ),
                    );
                },
                Err(e) => {
                    let m = text::cat4(
                        "failed to parse Codex auth.json at ",
                        path.as_str(),
                        ": ",
                        e.as_str(),
                    );
                    report.push(
                        DoctorCheck::error("auth", m).with_hint(
                            "run codex-switch import <name> after fixing auth.json, or switch to a stored account",
                        ),
                    );
                },
            }
            assert(report@ =~= before + auth_checks(*probe, deref_store(store)));
        },
    }
}

// ---------------------------------------------------------------------------
// Processes
// ---------------------------------------------------------------------------

pub open spec fn process_check(info: Result<CodexProcessInfo, String>) -> CheckView {
    match info {
        Ok(i) => if i.can_switch {
            ok(
                "process"@,
                "no unmanaged Codex processes would block switching"@ + if i.background_count == 0
                    && i.managed_run_count == 0 {
                    Seq::empty()
                } else {
                    " (ignored "@ + text::decimal(i.background_count as nat) + " background, "@
                        + text::decimal(i.managed_run_count as nat) + " managed run)"@
                },
            )
        } else {
            hinted(
                warn(
                    "process"@,
                    text::decimal(i.count as nat)
                        + " unmanaged Codex process(es) would block codex-switch switch (pid: "@
                        + text::joined(process::pids_shown(i.pids@), ", "@) + ")"@,
                ),
                "close regular Codex sessions before running codex-switch switch"@,
            )
        },
        Err(e) => hinted(
            warn("process"@, "failed to inspect Codex processes: "@ + e@),
            "process detection may not work in this environment"@,
        ),
    }
}

pub fn add_process_checks(report: &mut DoctorReport, info: &Result<CodexProcessInfo, String>)
    ensures
        final(report)@ == old(report)@.push(process_check(*info)),
{
    match info {
        Ok(i) => {
            if i.can_switch {
                let head = "no unmanaged Codex processes would block switching";
                let m = if i.background_count == 0 && i.managed_run_count == 0 {
                    assert(head@ + Seq::empty() =~= head@);
                    head.to_owned()
                } else {
                    let a = text::number(i.background_count as u64);
                    let b = text::number(i.managed_run_count as u64);
                    let extra = text::cat5(
                        " (ignored ",
                        a.as_str(),
                        " background, ",
                        b.as_str(),
                        " managed run)",
                    );
                    text::cat2(head, extra.as_str())
                };
                report.push(DoctorCheck::ok("process", m));
            } else {
                let shown = process::show_pids(&i.pids);
                let pids = text::join(&shown, ", ");
                let n = text::number(i.count as u64);
                let m = text::cat4(
                    n.as_str(),
                    " unmanaged Codex process(es) would block codex-switch switch (pid: ",
                    pids.as_str(),
                    ")",
                );
                report.push(
                    DoctorCheck::warn("process", m).with_hint(
                        "close regular Codex sessions before running codex-switch switch",
                    ),
                );
            }
        },
        Err(e) => {
            let m = text::cat2("failed to inspect Codex processes: ", e.as_str());
            report.push(
                DoctorCheck::warn("process", m).with_hint(
                    "process detection may not work in this environment",
                ),
            );
        },
    }
}

// ---------------------------------------------------------------------------
// Logs
// ---------------------------------------------------------------------------

/// What became of the log directory: where it is, whether it is there, its
/// permissions, and the latest log in it with its own.
pub struct LogProbe {
    pub dir: Result<String, String>,
    pub exists: bool,
    pub dir_permissions: PermissionProbe,
    pub latest: Result<Option<String>, String>,
    pub latest_permissions: PermissionProbe,
}

pub open spec fn log_checks(p: LogProbe) -> Seq<CheckView> {
    match p.dir {
        Err(e) => seq![warn("logs"@, "failed to resolve runtime log directory: "@ + e@)],
        Ok(dir) => if !p.exists {
            seq![ok("logs"@, "runtime log directory has not been created at "@ + dir@)]
        } else {
            seq![
                permission_check(
                    "logs"@,
                    "runtime log directory"@,
                    dir@,
                    PermissionTarget::Directory,
                    p.dir_permissions,
                ),
            ] + match p.latest {
                Ok(Some(path)) => seq![
                    ok("logs"@, "latest runtime log: "@ + path@),
                    permission_check(
                        "logs"@,
                        "latest runtime log"@,
                        path@,
                        PermissionTarget::File,
                        p.latest_permissions,
                    ),
                ],
                Ok(None) => seq![ok("logs"@, "no runtime logs found in "@ + dir@)],
                Err(e) => seq![
                    hinted(
                        warn("logs"@, "failed to inspect runtime logs: "@ + e@),
                        "check ~/.codex-switch/logs permissions"@,
                    ),
                ],
            }
        },
    }
}

pub fn add_log_checks(report: &mut DoctorReport, probe: &LogProbe)
    ensures
        final(report)@ == old(report)@ + log_checks(*probe),
{
    let ghost before = report@;
    match &probe.dir {
        Err(e) => {
            let m = text::cat2("failed to resolve runtime log directory: ", e.as_str());
            report.push(DoctorCheck::warn("logs", m));
        },
        Ok(dir) => {
            if !probe.exists {
                let m = text::cat2(
                    "runtime log directory has not been created at ",
                    dir.as_str(),
                );
                report.push(DoctorCheck::ok("logs", m));
            } else {
                report.push(
                    private_permission_check(
                        "logs",
                        "runtime log directory",
                        dir.as_str(),
                        PermissionTarget::Directory,
                        &probe.dir_permissions,
                    ),
                );
                match &probe.latest {
                    Ok(Some(path)) => {
                        let m = text::cat2("latest runtime log: ", path.as_str());
                        report.push(DoctorCheck::ok("logs", m));
                        report.push(
                            private_permission_check(
                                "logs",
                                "latest runtime log",
                                path.as_str(),
                                PermissionTarget::File,
                                &probe.latest_permissions,
                            ),
                        );
                    },
                    Ok(None) => {
                        let m = text::cat2("no runtime logs found in ", dir.as_str());
                        report.push(DoctorCheck::ok("logs", m));
                    },
                    Err(e) => {
                        let m = text::cat2("failed to inspect runtime logs: ", e.as_str());
                        report.push(
                            DoctorCheck::warn("logs", m).with_hint(
                                "check ~/.codex-switch/logs permissions",
                            ),
                        );
                    },
                }
            }
        },
    }
    assert(report@ =~= before + log_checks(*probe));
}

// ---------------------------------------------------------------------------
// All checks
// ---------------------------------------------------------------------------

/// Everything that the report is drawn up from.
pub struct DoctorProbes {
    pub version: String,
    pub exe: Result<String, String>,
    pub codex_bin: String,
    pub codex_version: CommandProbe,
    pub codex_help: Option<CommandProbe>,
    pub store: StoreProbe,
    pub auth: AuthProbe,
    pub processes: Result<CodexProcessInfo, String>,
    pub logs: LogProbe,
}

pub open spec fn loaded_store(p: StoreProbe) -> Option<AccountsStore> {
    match (p.path, p.accounts) {
        (Ok(_), Ok(s)) => Some(s),
        _ => None,
    }
}

pub open spec fn all_checks(p: DoctorProbes) -> Seq<CheckView> {
    seq![install_check(p.version@, p.exe)] + codex_checks(
        p.codex_bin@,
        p.codex_version,
        p.codex_help,
    ) + store_checks(p.store) + auth_checks(p.auth, loaded_store(p.store)) + seq![
        process_check(p.processes),
    ] + log_checks(p.logs)
}

pub fn run(probes: &DoctorProbes) -> (r: DoctorReport)
    ensures
        r@ == all_checks(*probes),
{
    let mut report = DoctorReport::new();
    add_install_checks(&mut report, probes.version.as_str(), &probes.exe);
    add_codex_checks(
        &mut report,
        probes.codex_bin.as_str(),
        &probes.codex_version,
        &probes.codex_help,
    );
    add_store_checks(&mut report, &probes.store);
    let store: Option<&AccountsStore> = match (&probes.store.path, &probes.store.accounts) {
        (Ok(_), Ok(s)) => Some(s),
        _ => None,
    };
    add_auth_checks(&mut report, &probes.auth, store);
    add_process_checks(&mut report, &probes.processes);
    add_log_checks(&mut report, &probes.logs);
    assert(report@ =~= all_checks(*probes));
    report
}

// ---------------------------------------------------------------------------
// Laws
// ---------------------------------------------------------------------------

/// A report that has an error keeps it, whatever is added.
pub proof fn errors_stay(checks: Seq<CheckView>, more: Seq<CheckView>)
    ensures
        has_error(checks) || has_error(more) <==> has_error(checks + more),
{
    let all = checks + more;
    if has_error(checks) {
        let i = choose|i: int|
            0 <= i < checks.len() && (#[trigger] checks[i]).severity == DoctorSeverity::Error;
        assert(all[i].severity == DoctorSeverity::Error);
    }
    if has_error(more) {
        let i = choose|i: int|
            0 <= i < more.len() && (#[trigger] more[i]).severity == DoctorSeverity::Error;
        assert(all[checks.len() + i].severity == DoctorSeverity::Error);
    }
    if has_error(all) {
        let i = choose|i: int|
            0 <= i < all.len() && (#[trigger] all[i]).severity == DoctorSeverity::Error;
        if i < checks.len() {
            assert(checks[i].severity == DoctorSeverity::Error);
        } else {
            assert(more[i - checks.len()].severity == DoctorSeverity::Error);
        }
    }
}

/// Two accounts that have their names, ids and identities alike are reported
/// alike, whatever their secrets are.
pub proof fn duplicates_are_told_without_secrets(
    left: StoredAccount,
    right: StoredAccount,
    other_left: StoredAccount,
    other_right: StoredAccount,
)
    requires
        left.name@ == other_left.name@ && left.id@ == other_left.id@,
        right.name@ == other_right.name@ && right.id@ == other_right.id@,
        accounts::same_auth_identity(left, right) == accounts::same_auth_identity(
            other_left,
            other_right,
        ),
    ensures
        pair_checks(left, right) == pair_checks(other_left, other_right),
{
}

/// An installation is fine where the program knows where it is.
pub proof fn the_installation_is_told(version: Seq<char>, exe: Result<String, String>)
    ensures
        install_check(version, exe).severity == DoctorSeverity::Fine <==> exe is Ok,
        exe is Err ==> install_check(version, exe).severity == DoctorSeverity::Warn,
        exe is Ok ==> install_check(version, exe).message == "codex-switch "@ + version + " at "@
            + exe->Ok_0@,
        exe is Err ==> text::finishes_with(install_check(version, exe).message, exe->Err_0@)
            && install_check(version, exe).hints.len() == 1,
{
    if exe is Err {
        let m = install_check(version, exe).message;
        let e = exe->Err_0@;
        assert(m.subrange(m.len() - e.len(), m.len() as int) =~= e);
    }
}

/// Codex is fine where it tells a version that can be read; one that cannot be run is
/// an error, and a version that cannot be read is odd.
pub proof fn codex_has_to_run(bin: Seq<char>, version: CommandProbe)
    ensures
        ({
            let c = version_check(bin, version);
            let ran = version is Completed && version->Completed_0.success;
            let told = codex_http::version_in_output(output_text(version->Completed_0));
            &&& (!ran ==> c.severity == DoctorSeverity::Error && c.hints.len() == 1)
            &&& (ran && told is Some ==> c.severity == DoctorSeverity::Fine && c.message == bin
                + " reports Codex version "@ + told->Some_0)
            &&& (ran && told is None ==> c.severity == DoctorSeverity::Warn)
            &&& (version is NotFound ==> c.message == "Codex executable not found: "@ + bin)
            &&& c.category == "codex"@
        }),
{
}

/// A Codex that runs and does not know the remote flags is an error; one whose help
/// could not be read is only odd.
pub proof fn codex_has_to_know_the_flags(bin: Seq<char>, help: CommandProbe)
    ensures
        ({
            let c = remote_check(bin, help);
            let ran = help is Completed && help->Completed_0.success;
            let knows = supports_remote(output_text(help->Completed_0));
            &&& (ran && knows <==> c.severity == DoctorSeverity::Fine)
            &&& (ran && !knows <==> c.severity == DoctorSeverity::Error)
            &&& (!ran <==> c.severity == DoctorSeverity::Warn)
            &&& c.category == "codex"@
        }),
{
}

/// The help is asked for only where the version was told.
pub proof fn the_help_follows_the_version(
    bin: Seq<char>,
    version: CommandProbe,
    help: Option<CommandProbe>,
)
    ensures
        codex_checks(bin, version, help)[0] == version_check(bin, version),
        version is Completed && version->Completed_0.success && help is Some ==> codex_checks(
            bin,
            version,
            help,
        ) == seq![version_check(bin, version), remote_check(bin, help->Some_0)],
        !(version is Completed && version->Completed_0.success) || help is None ==> codex_checks(
            bin,
            version,
            help,
        ).len() == 1,
{
    assert(codex_checks(bin, version, help) =~= if told_version(version) && help is Some {
        seq![version_check(bin, version), remote_check(bin, help->Some_0)]
    } else {
        seq![version_check(bin, version)]
    });
}

proof fn flags_lie_between(before: Seq<char>, flag: Seq<char>, behind: Seq<char>)
    requires
        flag.len() > 0,
        is_flag_char(flag[0]),
        is_flag_char(flag.last()),
        forall|i: int| 0 <= i < before.len() ==> !is_flag_char(#[trigger] before[i]),
        forall|i: int| 0 <= i < behind.len() ==> !is_flag_char(#[trigger] behind[i]),
    ensures
        drop_from_flag(skip_to_flag(before + flag + behind)) == flag,
    decreases before.len() + behind.len(),
{
    let s = before + flag + behind;
    if before.len() > 0 {
        assert(!is_flag_char(before[0]));
        assert(s[0] == before[0]);
        assert(s.skip(1) =~= before.skip(1) + flag + behind);
        flags_lie_between(before.skip(1), flag, behind);
    } else {
        assert(s =~= flag + behind);
        assert(s[0] == flag[0]);
        if behind.len() > 0 {
            assert(!is_flag_char(behind[behind.len() - 1]));
            let less = flag + behind.drop_last();
            assert(s.drop_last() =~= less);
            assert(before + flag + behind.drop_last() =~= less);
            flags_lie_between(before, flag, behind.drop_last());
            assert(less[0] == flag[0]);
            assert(skip_to_flag(less) == less);
        } else {
            assert(s =~= flag);
        }
    }
}

/// A word of the help names the remote flag by itself, with brackets or commas around
/// it, and with a value behind `=`; a longer flag that begins alike does not.
pub proof fn flags_are_found_in_help(before: Seq<char>, behind: Seq<char>, value: Seq<char>)
    requires
        forall|i: int| 0 <= i < before.len() ==> !is_flag_char(#[trigger] before[i]),
        forall|i: int| 0 <= i < behind.len() ==> !is_flag_char(#[trigger] behind[i]),
        value.len() > 0,
        text::is_alphanumeric(value.last()),
    ensures
        is_remote_flag(before + "--remote"@ + behind),
        is_remote_flag(before + ("--remote="@ + value) + behind),
        !is_remote_flag(before + "--remote-auth-token-env"@ + behind),
        is_flag_char('-') && is_flag_char('='),
{
    reveal_strlit("--remote");
    reveal_strlit("--remote=");
    reveal_strlit("--remote-auth-token-env");
    assert("--remote"@.len() == 8);
    assert("--remote="@.len() == 9);
    assert("--remote-auth-token-env"@.len() == 23);

    assert(text::is_alphanumeric('e') && text::is_alphanumeric('v'));
    flags_lie_between(before, "--remote"@, behind);
    let with_value = "--remote="@ + value;
    assert(with_value[0] == '-');
    assert(with_value.last() == value.last());
    flags_lie_between(before, with_value, behind);
    assert(with_value.subrange(0, 9) =~= "--remote="@);
    flags_lie_between(before, "--remote-auth-token-env"@, behind);
    assert("--remote-auth-token-env"@.subrange(0, 9)[8] == '-');
}

/// The help has to name both flags.
pub proof fn both_flags_are_needed(help: Seq<char>, i: int)
    requires
        0 <= i < text::words_of(help).len(),
    ensures
        is_remote_flag(text::words_of(help)[i]) && text::has_text(help, "--remote-auth-token-env"@)
            ==> supports_remote(help),
        !text::has_text(help, "--remote-auth-token-env"@) ==> !supports_remote(help),
        (forall|k: int|
            0 <= k < text::words_of(help).len() ==> !is_remote_flag(#[trigger] text::words_of(help)[k]))
            ==> !supports_remote(help),
{
}

/// What a command said is told as it is where it is short, and by its beginning where
/// it is long; one that said nothing is told by its status.
pub proof fn outputs_are_told_in_short(o: CommandOutput)
    ensures
        ({
            let said = text::trimmed(
                encoding::text_of(o.stdout@) + "\n"@ + encoding::text_of(o.stderr@),
            );
            &&& (said.len() == 0 ==> output_excerpt(o) == "exit status "@ + o.status@)
            &&& (0 < said.len() <= 240 ==> output_excerpt(o) == said)
            &&& (said.len() > 240 ==> output_excerpt(o) == said.take(240) + "..."@)
        }),
{
}

/// A file or directory that only its owner can use is fine; any other is odd, and the
/// hint says how to mend it.
pub proof fn others_may_not_read(
    category: Seq<char>,
    label: Seq<char>,
    path: Seq<char>,
    target: PermissionTarget,
    mode: u32,
    e: String,
)
    ensures
        ({
            let c = permission_check(category, label, path, target, PermissionProbe::Mode(mode));
            &&& (octal(mode)[1] == '0' && octal(mode)[2] == '0' <==> c.severity
                == DoctorSeverity::Fine)
            &&& (c.severity != DoctorSeverity::Fine ==> c.severity == DoctorSeverity::Warn
                && c.hints == seq![
                if target == PermissionTarget::File {
                    "run chmod 600 "@ + path
                } else {
                    "run chmod 700 "@ + path
                },
            ] && text::finishes_with(c.message, path))
            &&& c.category == "permissions"@
        }),
        permission_check(category, label, path, target, PermissionProbe::Skipped).severity
            == DoctorSeverity::Fine,
        permission_check(category, label, path, target, PermissionProbe::Failed(e)).severity
            == DoctorSeverity::Warn,
        permission_check(category, label, path, target, PermissionProbe::Failed(e)).category
            == category,
{
    private_modes_end_in_zeros(mode);
    let c = permission_check(category, label, path, target, PermissionProbe::Mode(mode));
    if c.severity != DoctorSeverity::Fine {
        let m = c.message;
        assert(m.subrange(m.len() - path.len(), m.len() as int) =~= path);
    }
    assert(Seq::<Seq<char>>::empty().push("run chmod 600 "@ + path) =~= seq![
        "run chmod 600 "@ + path,
    ]);
    assert(Seq::<Seq<char>>::empty().push("run chmod 700 "@ + path) =~= seq![
        "run chmod 700 "@ + path,
    ]);
}

/// Each account is counted once, as one of its two kinds.
pub proof fn accounts_are_counted(accounts: Seq<StoredAccount>, account: StoredAccount)
    ensures
        chatgpt_count(accounts) <= accounts.len(),
        account.is_chatgpt() ==> chatgpt_count(accounts.push(account)) == chatgpt_count(accounts)
            + 1,
        !account.is_chatgpt() ==> chatgpt_count(accounts.push(account)) == chatgpt_count(accounts),
        chatgpt_count(Seq::empty()) == 0,
        text::begins_with(store_summary(accounts), text::decimal(accounts.len())),
    decreases accounts.len(),
{
    assert(accounts.push(account).drop_last() =~= accounts);
    if accounts.len() > 0 {
        accounts_are_counted(accounts.drop_last(), account);
    }
    let n = text::decimal(accounts.len());
    assert(store_summary(accounts).subrange(0, n.len() as int) =~= n);
}

proof fn a_row_tells_duplicates(accounts: Seq<StoredAccount>, i: int, j: int)
    requires
        0 <= i < accounts.len(),
        j <= accounts.len(),
    ensures
        has_error(row_checks(accounts, i, j)) <==> exists|k: int|
            i < k < j && ((#[trigger] accounts[k]).name@ == accounts[i].name@
                || accounts::same_auth_identity(accounts[i], accounts[k])),
    decreases j - i,
{
    if j > i + 1 {
        a_row_tells_duplicates(accounts, i, j - 1);
        let pair = pair_checks(accounts[i], accounts[j - 1]);
        errors_stay(row_checks(accounts, i, j - 1), pair);
        let alike = accounts[j - 1].name@ == accounts[i].name@ || accounts::same_auth_identity(
            accounts[i],
            accounts[j - 1],
        );
        if alike {
            assert(pair[0].severity == DoctorSeverity::Error);
        } else {
            assert(pair.len() == 0);
        }
        assert(has_error(pair) <==> alike);
    }
}

proof fn rows_tell_duplicates(accounts: Seq<StoredAccount>, n: int)
    requires
        0 <= n <= accounts.len(),
    ensures
        has_error(duplicate_checks(accounts, n)) <==> exists|i: int, k: int|
            0 <= i < n && i < k < accounts.len() && ((#[trigger] accounts[k]).name@
                == (#[trigger] accounts[i]).name@ || accounts::same_auth_identity(
                accounts[i],
                accounts[k],
            )),
    decreases n,
{
    if n > 0 {
        rows_tell_duplicates(accounts, n - 1);
        let m = accounts.len() as int;
        a_row_tells_duplicates(accounts, n - 1, m);
        errors_stay(duplicate_checks(accounts, n - 1), row_checks(accounts, n - 1, m));
        if has_error(row_checks(accounts, n - 1, m)) {
            let k = choose|k: int|
                n - 1 < k < m && ((#[trigger] accounts[k]).name@ == accounts[n - 1].name@
                    || accounts::same_auth_identity(accounts[n - 1], accounts[k]));
            assert(accounts[k].name@ == accounts[n - 1].name@ || accounts::same_auth_identity(
                accounts[n - 1],
                accounts[k],
            ));
        }
    }
}

/// Two accounts are told as duplicates where they share a name or a login, and only
/// there.
pub proof fn duplicates_are_errors(accounts: Seq<StoredAccount>)
    ensures
        has_error(duplicate_checks(accounts, accounts.len() as int)) <==> exists|i: int, k: int|
            0 <= i < k < accounts.len() && ((#[trigger] accounts[k]).name@
                == (#[trigger] accounts[i]).name@ || accounts::same_auth_identity(
                accounts[i],
                accounts[k],
            )),
{
    rows_tell_duplicates(accounts, accounts.len() as int);
}

/// A store that cannot be found or read is an error; one that is not there yet is odd;
/// and what it holds is told with where it is.
pub proof fn the_store_is_told(p: StoreProbe)
    ensures
        p.path is Err ==> store_checks(p).len() == 1 && store_checks(p)[0].severity
            == DoctorSeverity::Error,
        p.path is Ok && !p.exists ==> store_checks(p)[0].severity == DoctorSeverity::Warn,
        p.path is Ok && p.accounts is Err ==> store_checks(p).len() == 2
            && store_checks(p)[1].severity == DoctorSeverity::Error,
        p.path is Ok && p.accounts is Ok ==> store_checks(p).len() >= 2
            && store_checks(p)[1].severity == DoctorSeverity::Fine && text::finishes_with(
            store_checks(p)[1].message,
            p.path->Ok_0@,
        ),
        p.path is Ok && p.accounts is Ok ==> (has_error(store_checks(p)) <==> has_error(
            duplicate_checks(p.accounts->Ok_0.accounts@, p.accounts->Ok_0.accounts@.len() as int),
        )),
{
    if p.path is Ok && p.accounts is Ok {
        let more = duplicate_checks(
            p.accounts->Ok_0.accounts@,
            p.accounts->Ok_0.accounts@.len() as int,
        );
        let all = store_checks(p);
        let first = seq![all[0], all[1]];
        assert(all =~= first + more);
        errors_stay(first, more);
        let m = all[1].message;
        let path = p.path->Ok_0@;
        assert(m.subrange(m.len() - path.len(), m.len() as int) =~= path);
        assert(!has_error(first));
    }
}

/// A token that has run out is odd, one that has not is fine, one whose end is not
/// known is odd, and a key has no end.
pub proof fn run_out_tokens_are_told(
    account: StoredAccount,
    token_end: Option<Timestamp>,
    now: Timestamp,
)
    ensures
        !account.is_chatgpt() ==> token_checks(account, token_end, now).len() == 0,
        account.is_chatgpt() ==> token_checks(account, token_end, now).len() == 1,
        account.is_chatgpt() && token_end is Some && time::total_nanos(now) < time::total_nanos(
            token_end->Some_0,
        ) && now.millis < token_end->Some_0.millis ==> token_checks(account, token_end, now)[0].severity
            == DoctorSeverity::Fine,
        account.is_chatgpt() && token_end is Some && now.millis > token_end->Some_0.millis
            ==> token_checks(account, token_end, now)[0].severity == DoctorSeverity::Warn,
        account.is_chatgpt() && token_end == Some(now) ==> token_checks(
            account,
            token_end,
            now,
        )[0].severity == DoctorSeverity::Warn,
        account.is_chatgpt() && token_end is None ==> token_checks(
            account,
            token_end,
            now,
        )[0].severity == DoctorSeverity::Warn,
        account.is_chatgpt() && token_end is Some ==> text::finishes_with(
            token_checks(account, token_end, now)[0].message,
            time::shown_moment(token_end->Some_0),
        ),
{
    if account.is_chatgpt() && token_end is Some {
        let m = token_checks(account, token_end, now)[0].message;
        let e = time::shown_moment(token_end->Some_0);
        assert(m.subrange(m.len() - e.len(), m.len() as int) =~= e);
    }
}

/// The current login is fine where an account is stored for it, which is then named.
pub proof fn the_current_login_is_looked_for(accounts: Seq<StoredAccount>, auth: StoredAccount)
    ensures
        match_check(accounts, auth).severity == DoctorSeverity::Fine <==> exists|i: int|
            0 <= i < accounts.len() && accounts::same_auth_identity(#[trigger] accounts[i], auth),
        match_check(accounts, auth).severity == DoctorSeverity::Fine ==> exists|i: int|
            0 <= i < accounts.len() && accounts::same_auth_identity(#[trigger] accounts[i], auth)
                && text::finishes_with(
                match_check(accounts, auth).message,
                accounts::label(accounts[i]),
            ),
        match_check(accounts, auth).severity != DoctorSeverity::Fine ==> match_check(
            accounts,
            auth,
        ).severity == DoctorSeverity::Warn,
{
    let p = accounts::matches_identity(auth);
    search::first_index_is_first(accounts, p);
    match search::first_index(accounts, p) {
        Some(i) => {
            assert(p(accounts[i]));
            let m = match_check(accounts, auth).message;
            let l = accounts::label(accounts[i]);
            assert(m.subrange(m.len() - l.len(), m.len() as int) =~= l);
        },
        None => {
            assert forall|i: int| 0 <= i < accounts.len() implies !accounts::same_auth_identity(
                #[trigger] accounts[i],
                auth,
            ) by {
                assert(!p(accounts[i]));
            }
        },
    }
}

/// A login that cannot be read is an error, one that is not there is odd, and one that
/// is there is told with its kind.
pub proof fn the_login_is_told(p: AuthProbe, store: Option<AccountsStore>)
    ensures
        p.path is Err ==> has_error(auth_checks(p, store)),
        p.path is Ok && p.current is Err ==> has_error(auth_checks(p, store)),
        p.path is Ok && p.current is Ok ==> !has_error(auth_checks(p, store)),
        p.path is Ok && p.current is Ok && p.current->Ok_0 is None ==> auth_checks(
            p,
            store,
        ).last().severity == DoctorSeverity::Warn,
        p.path is Ok && p.current is Ok && p.current->Ok_0 is Some && store is Some ==> auth_checks(
            p,
            store,
        ).last() == match_check(store->Some_0.accounts@, p.current->Ok_0->Some_0),
{
    let all = auth_checks(p, store);
    if p.path is Err {
        assert(all[0].severity == DoctorSeverity::Error);
    } else if p.current is Err {
        assert(all.last().severity == DoctorSeverity::Error);
    } else {
        if p.current->Ok_0 is Some && store is Some {
            the_current_login_is_looked_for(store->Some_0.accounts@, p.current->Ok_0->Some_0);
        }
        assert(!has_error(all));
    }
}

/// Processes that stand in the way of a switch are odd, and so is not knowing.
pub proof fn processes_are_told(info: Result<CodexProcessInfo, String>)
    ensures
        process_check(info).severity == DoctorSeverity::Fine <==> info is Ok
            && info->Ok_0.can_switch,
        process_check(info).severity != DoctorSeverity::Error,
        info is Ok && !info->Ok_0.can_switch ==> text::begins_with(
            process_check(info).message,
            text::decimal(info->Ok_0.count as nat),
        ),
        info is Err ==> text::finishes_with(process_check(info).message, info->Err_0@),
{
    let m = process_check(info).message;
    if info is Err {
        let e = info->Err_0@;
        assert(m.subrange(m.len() - e.len(), m.len() as int) =~= e);
    } else if !info->Ok_0.can_switch {
        let n = text::decimal(info->Ok_0.count as nat);
        assert(m.subrange(0, n.len() as int) =~= n);
    }
}

/// Logs are never an error. Both the directory and the newest log are to be private.
pub proof fn logs_are_told(p: LogProbe)
    ensures
        !has_error(log_checks(p)),
        p.dir is Ok && !p.exists ==> log_checks(p).len() == 1 && log_checks(p)[0].severity
            == DoctorSeverity::Fine,
        p.dir is Ok && p.exists ==> log_checks(p)[0] == permission_check(
            "logs"@,
            "runtime log directory"@,
            p.dir->Ok_0@,
            PermissionTarget::Directory,
            p.dir_permissions,
        ),
        p.dir is Ok && p.exists && p.latest is Ok && p.latest->Ok_0 is Some ==> log_checks(p).last()
            == permission_check(
            "logs"@,
            "latest runtime log"@,
            p.latest->Ok_0->Some_0@,
            PermissionTarget::File,
            p.latest_permissions,
        ),
        p.dir is Ok && p.exists && p.latest is Err ==> log_checks(p).last().severity
            == DoctorSeverity::Warn,
{
}

/// A report has an error where one of its parts has one: the installation, the
/// processes and the logs never do.
pub proof fn errors_come_from_codex_the_store_or_the_login(p: DoctorProbes)
    ensures
        has_error(all_checks(p)) <==> has_error(
            codex_checks(p.codex_bin@, p.codex_version, p.codex_help),
        ) || has_error(store_checks(p.store)) || has_error(
            auth_checks(p.auth, loaded_store(p.store)),
        ),
        all_checks(p)[0] == install_check(p.version@, p.exe),
{
    let a = seq![install_check(p.version@, p.exe)];
    let b = codex_checks(p.codex_bin@, p.codex_version, p.codex_help);
    let c = store_checks(p.store);
    let d = auth_checks(p.auth, loaded_store(p.store));
    let e = seq![process_check(p.processes)];
    let f = log_checks(p.logs);
    errors_stay(a, b);
    errors_stay(a + b, c);
    errors_stay(a + b + c, d);
    errors_stay(a + b + c + d, e);
    errors_stay(a + b + c + d + e, f);
    logs_are_told(p.logs);
    processes_are_told(p.processes);
    the_installation_is_told(p.version@, p.exe);
    assert(!has_error(a));
    assert(!has_error(e));
}

/// The login is held against the accounts only where they could be read.
pub proof fn logins_are_held_against_what_was_read(p: StoreProbe)
    ensures
        loaded_store(p) is Some <==> p.path is Ok && p.accounts is Ok,
        loaded_store(p) is Some ==> loaded_store(p)->Some_0 == p.accounts->Ok_0,
{
}

/// A report is shown check by check, each with its severity, its category, what it
/// says and its hints below.
pub proof fn reports_are_shown_in_order(checks: Seq<CheckView>, c: CheckView, hint: Seq<char>)
    ensures
        report_shown(Seq::empty()) == Seq::<char>::empty(),
        report_shown(checks.push(c)) == report_shown(checks) + check_shown(c),
        check_shown(hinted(c, hint)) == check_shown(c) + ("  hint: "@ + hint + "\n"@),
        c.hints.len() == 0 ==> check_shown(c) == "["@ + c.severity.name() + "] "@ + c.category
            + ": "@ + c.message + "\n"@,
        hinted(c, hint).severity == c.severity && hinted(c, hint).category == c.category && hinted(
            c,
            hint,
        ).message == c.message,
{
    assert(checks.push(c).drop_last() =~= checks);
    let h = hinted(c, hint);
    assert(h.hints.drop_last() =~= c.hints);
    assert(h.hints.last() == hint);
    let head = "["@ + c.severity.name() + "] "@ + c.category + ": "@ + c.message + "\n"@;
    assert(check_shown(h) =~= head + (hints_shown(c.hints) + ("  hint: "@ + hint + "\n"@)));
    assert(check_shown(h) =~= check_shown(c) + ("  hint: "@ + hint + "\n"@));
    if c.hints.len() == 0 {
        assert(check_shown(c) =~= head);
    }
}

/// Severities have three different names.
pub proof fn severities_have_names(a: DoctorSeverity, b: DoctorSeverity)
    ensures
        a.name() == b.name() ==> a == b,
        DoctorSeverity::Fine.name() == "ok"@,
        DoctorSeverity::Error.name() == "error"@,
{
    reveal_strlit("ok");
    reveal_strlit("warn");
    reveal_strlit("error");
    assert("ok"@.len() == 2);
    assert("warn"@.len() == 4);
    assert("error"@.len() == 5);

}

/// Every check on the store, the login and the logs is told as one of these, or as one
/// on permissions.
pub proof fn checks_tell_their_part(s: StoreProbe, a: AuthProbe, l: LogProbe)
    ensures
        forall|i: int|
            0 <= i < log_checks(l).len() ==> ((#[trigger] log_checks(l)[i]).category == "logs"@
                || log_checks(l)[i].category == "permissions"@),
        s.path is Err ==> store_checks(s)[0].category == "store"@,
        s.path is Ok && !s.exists ==> store_checks(s)[0].category == "store"@,
        s.path is Ok ==> store_checks(s)[1].category == "store"@,
        forall|i: int, store: Option<AccountsStore>|
            0 <= i < auth_checks(a, store).len() ==> ((#[trigger] auth_checks(a, store)[i]).category
                == "auth"@ || auth_checks(a, store)[i].category == "permissions"@),
{
}

} // verus!
