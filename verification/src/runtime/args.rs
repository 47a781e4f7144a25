//! The arguments that are handed to Codex.
use crate::accounts;
use crate::text;
use vstd::prelude::*;

verus! {

pub const REMOTE_TOKEN_ENV: &'static str = "CODEX_SWITCH_REMOTE_TOKEN";

pub const NOT_INTERACTIVE: &'static str = "codex-switch run only supports Codex interactive commands that accept --remote: codex, codex resume, or codex fork";

pub const REMOTE_GIVEN: &'static str = "do not pass --remote to codex-switch run";

pub const REMOTE_TOKEN_GIVEN: &'static str = "do not pass --remote-auth-token-env to codex-switch run";

pub open spec fn first_arg(args: Seq<String>) -> Option<Seq<char>> {
    if args.len() > 0 {
        Some(args[0]@)
    } else {
        None
    }
}

fn first(args: &Vec<String>) -> (r: Option<&str>)
    ensures
        accounts::str_view(r) == first_arg(args@),
{
    if args.len() > 0 {
        Some(args[0].as_str())
    } else {
        None
    }
}

/// A session that Codex can run with a remote app-server: the default one,
/// `resume` and `fork`.
pub open spec fn is_interactive(args: Seq<String>) -> bool {
    match first_arg(args) {
        None => true,
        Some(arg) => text::begins_with(arg, "-"@) || arg == "resume"@ || arg == "fork"@,
    }
}

pub fn validate_remote_capable_codex_args(args: &Vec<String>) -> (r: Result<(), String>)
    ensures
        r is Ok <==> is_interactive(args@),
        r matches Err(m) ==> m@ == NOT_INTERACTIVE@,
{
    match first(args) {
        None => Ok(()),
        Some(arg) => if text::starts_with(arg, "-") || text::same(arg, "resume") || text::same(
            arg,
            "fork",
        ) {
            Ok(())
        } else {
            Err(NOT_INTERACTIVE.to_owned())
        },
    }
}

/// An argument gives an option, alone or with `=` and a value.
pub open spec fn gives_option(arg: Seq<char>, option: Seq<char>) -> bool {
    arg == option || text::begins_with(arg, option + "="@)
}

/// Some argument gives the option.
pub open spec fn option_given(args: Seq<String>, option: Seq<char>) -> bool {
    exists|i: int| 0 <= i < args.len() && gives_option((#[trigger] args[i])@, option)
}

fn has_option(args: &Vec<String>, option: &str) -> (r: bool)
    ensures
        r == option_given(args@, option@),
{
    let with_value = text::cat2(option, "=");
    let mut i: usize = 0;
    while i < args.len()
        invariant
            i <= args@.len(),
            with_value@ == option@ + "="@,
            forall|k: int| 0 <= k < i ==> !gives_option((#[trigger] args@[k])@, option@),
        decreases args@.len() - i,
    {
        let arg = args[i].as_str();
        if text::same(arg, option) || text::starts_with(arg, with_value.as_str()) {
            assert(gives_option(args@[i as int]@, option@));
            return true;
        }
        i = i + 1;
    }
    false
}

pub fn reject_remote_args(args: &Vec<String>) -> (r: Result<(), String>)
    ensures
        match r {
            Ok(()) => !option_given(args@, "--remote"@) && !option_given(
                args@,
                "--remote-auth-token-env"@,
            ),
            Err(m) => if option_given(args@, "--remote"@) {
                m@ == REMOTE_GIVEN@
            } else {
                option_given(args@, "--remote-auth-token-env"@) && m@ == REMOTE_TOKEN_GIVEN@
            },
        },
{
    if has_option(args, "--remote") {
        return Err(REMOTE_GIVEN.to_owned());
    }
    if has_option(args, "--remote-auth-token-env") {
        return Err(REMOTE_TOKEN_GIVEN.to_owned());
    }
    Ok(())
}

/// `-C` with the directory behind it, in one argument.
pub open spec fn is_joined_cd(arg: Seq<char>) -> bool {
    text::begins_with(arg, "-C"@) && arg.len() > 2
}

/// An argument that says in which directory Codex runs.
pub open spec fn names_cwd(arg: Seq<char>) -> bool {
    ||| arg == "-C"@
    ||| arg == "--cd"@
    ||| text::begins_with(arg, "--cd="@)
    ||| is_joined_cd(arg)
}

/// An argument before `--` says in which directory Codex runs.
pub open spec fn cwd_given(args: Seq<String>) -> bool {
    exists|i: int|
        {
            &&& 0 <= i < args.len()
            &&& names_cwd((#[trigger] args[i])@)
            &&& forall|k: int| 0 <= k <= i ==> (#[trigger] args[k])@ != "--"@
        }
}

pub fn is_short_cd_arg(arg: &str) -> (r: bool)
    ensures
        r == is_joined_cd(arg@),
{
    let v = text::to_chars(arg);
    text::starts_with(arg, "-C") && v.len() > 2
}

pub fn has_cwd_arg(args: &Vec<String>) -> (r: bool)
    ensures
        r == cwd_given(args@),
{
    let mut i: usize = 0;
    while i < args.len()
        invariant
            i <= args@.len(),
            forall|k: int|
                0 <= k < i ==> (#[trigger] args@[k])@ != "--"@ && !names_cwd(args@[k]@),
        decreases args@.len() - i,
    {
        let arg = args[i].as_str();
        if text::same(arg, "--") {
            return false;
        }
        if text::same(arg, "-C") || text::same(arg, "--cd") || text::starts_with(arg, "--cd=")
            || is_short_cd_arg(arg) {
            assert(names_cwd(args@[i as int]@));
            return true;
        }
        i = i + 1;
    }
    false
}

/// Where the directory is put in: behind `resume` and `fork`, else in front.
pub open spec fn cwd_place(args: Seq<String>) -> int {
    if first_arg(args) == Some("resume"@) || first_arg(args) == Some("fork"@) {
        1
    } else {
        0
    }
}

/// The arguments with the current directory, unless they name one.
pub open spec fn with_cwd(args: Seq<String>, cwd: Seq<char>) -> Seq<Seq<char>> {
    let given = text::views(args);
    if cwd_given(args) {
        given
    } else {
        given.insert(cwd_place(args), "-C"@).insert(cwd_place(args) + 1, cwd)
    }
}

pub fn codex_args_with_default_cwd(args: &Vec<String>, cwd: &str) -> (r: Vec<String>)
    ensures
        text::views(r@) == with_cwd(args@, cwd@),
{
    let mut r: Vec<String> = Vec::new();
    let mut i: usize = 0;
    while i < args.len()
        invariant
            i <= args@.len(),
            r@.len() == i,
            forall|k: int| 0 <= k < i ==> (#[trigger] r@[k])@ == args@[k]@,
        decreases args@.len() - i,
    {
        r.push(args[i].clone());
        i = i + 1;
    }
    assert(text::views(r@) =~= text::views(args@));
    if has_cwd_arg(args) {
        return r;
    }
    let after_command: bool = match first(args) {
        Some(arg) => text::same(arg, "resume") || text::same(arg, "fork"),
        None => false,
    };
    let at: usize = if after_command {
        1
    } else {
        0
    };
    let ghost before = r@;
    r.insert(at, "-C".to_owned());
    r.insert(at + 1, cwd.to_owned());
    assert(text::views(r@) =~= text::views(before).insert(at as int, "-C"@).insert(
        at + 1,
        cwd@,
    ));
    r
}

/// The kind of session and the number of arguments, and nothing else of them.
pub open spec fn args_summary(args: Seq<String>) -> Seq<char> {
    let command = match first_arg(args) {
        None => "default"@,
        Some(arg) => if arg == "resume"@ {
            "resume"@
        } else if arg == "fork"@ {
            "fork"@
        } else if text::begins_with(arg, "-"@) {
            "default"@
        } else {
            "interactive"@
        },
    };
    command + " ("@ + text::decimal(args.len()) + " args)"@
}

pub fn format_codex_args_summary_for_log(args: &Vec<String>) -> (r: String)
    ensures
        r@ == args_summary(args@),
{
    let command: &str = match first(args) {
        None => "default",
        Some(arg) => if text::same(arg, "resume") {
            "resume"
        } else if text::same(arg, "fork") {
            "fork"
        } else if text::starts_with(arg, "-") {
            "default"
        } else {
            "interactive"
        },
    };
    let count = text::number(args.len() as u64);
    text::cat4(command, " (", count.as_str(), " args)")
}

/// Copies a literal list of arguments.
fn push_arg(args: &mut Vec<String>, arg: &str)
    ensures
        text::views(final(args)@) == text::views(old(args)@).push(arg@),
{
    let ghost before = args@;
    args.push(arg.to_owned());
    assert(text::views(args@) =~= text::views(before).push(arg@));
}

/// The arguments that start the app-server.
pub fn app_server_args(websocket_url: &str, token_path: &str) -> (r: Vec<String>)
    ensures
        text::views(r@) == seq![
            "app-server"@,
            "--listen"@,
            websocket_url@,
            "--ws-auth"@,
            "capability-token"@,
            "--ws-token-file"@,
            token_path@,
        ],
{
    let mut r: Vec<String> = Vec::new();
    assert(text::views(r@) =~= Seq::<Seq<char>>::empty());
    push_arg(&mut r, "app-server");
    push_arg(&mut r, "--listen");
    push_arg(&mut r, websocket_url);
    push_arg(&mut r, "--ws-auth");
    push_arg(&mut r, "capability-token");
    push_arg(&mut r, "--ws-token-file");
    push_arg(&mut r, token_path);
    assert(text::views(r@) =~= seq![
        "app-server"@,
        "--listen"@,
        websocket_url@,
        "--ws-auth"@,
        "capability-token"@,
        "--ws-token-file"@,
        token_path@,
    ]);
    r
}

/// The arguments of the session itself, with the proxy behind them.
pub fn remote_codex_args(codex_args: Vec<String>, websocket_url: &str) -> (r: Vec<String>)
    ensures
        text::views(r@) == text::views(codex_args@) + seq![
            "--remote"@,
            websocket_url@,
            "--remote-auth-token-env"@,
            REMOTE_TOKEN_ENV@,
        ],
{
    let mut r = codex_args;
    push_arg(&mut r, "--remote");
    push_arg(&mut r, websocket_url);
    push_arg(&mut r, "--remote-auth-token-env");
    push_arg(&mut r, REMOTE_TOKEN_ENV);
    assert(text::views(r@) =~= text::views(codex_args@) + seq![
        "--remote"@,
        websocket_url@,
        "--remote-auth-token-env"@,
        REMOTE_TOKEN_ENV@,
    ]);
    r
}

// ---------------------------------------------------------------------------
// Laws
// ---------------------------------------------------------------------------

/// A directory that was given is never overridden, and where none was given all
/// arguments are kept, in order, around the one that was put in.
pub proof fn given_arguments_are_kept(args: Seq<String>, cwd: Seq<char>)
    ensures
        cwd_given(args) ==> with_cwd(args, cwd) == text::views(args),
        !cwd_given(args) ==> with_cwd(args, cwd).len() == args.len() + 2 && with_cwd(
            args,
            cwd,
        ).remove(cwd_place(args)).remove(cwd_place(args)) == text::views(args) && with_cwd(
            args,
            cwd,
        )[cwd_place(args)] == "-C"@ && with_cwd(args, cwd)[cwd_place(args) + 1] == cwd,
{
    if !cwd_given(args) {
        assert(with_cwd(args, cwd).remove(cwd_place(args)).remove(cwd_place(args)) =~= text::views(
            args,
        ));
    }
}

/// Codex can be run with a remote app-server where it is started by itself, with
/// options first, or to resume or fork a session; any other command cannot.
pub proof fn sessions_can_be_remote(args: Seq<String>)
    ensures
        args.len() == 0 ==> is_interactive(args),
        args.len() > 0 && args[0]@.len() > 0 && args[0]@[0] == '-' ==> is_interactive(args),
        args.len() > 0 && (args[0]@ == "resume"@ || args[0]@ == "fork"@) ==> is_interactive(args),
        args.len() > 0 && !(args[0]@.len() > 0 && args[0]@[0] == '-') && args[0]@ != "resume"@
            && args[0]@ != "fork"@ ==> !is_interactive(args),
{
    reveal_strlit("-");
    if args.len() > 0 {
        let a = args[0]@;
        if a.len() > 0 && a[0] == '-' {
            assert(a.subrange(0, 1) =~= "-"@);
        }
        if text::begins_with(a, "-"@) {
            assert(a.subrange(0, 1)[0] == '-');
        }
    }
}

/// An option is given by itself, or with its value behind `=`, at any place; a longer
/// option that begins alike is another one.
pub proof fn options_are_recognised(args: Seq<String>, option: Seq<char>, value: Seq<char>, i: int)
    requires
        0 <= i < args.len(),
    ensures
        args[i]@ == option ==> option_given(args, option),
        args[i]@ == option + seq!['='] + value ==> option_given(args, option),
        option_given(args, option) ==> exists|k: int|
            0 <= k < args.len() && ((#[trigger] args[k])@ == option || (args[k]@.len() > option.len()
                && args[k]@.take(option.len() as int) == option && args[k]@[option.len() as int]
                == '=')),
{
    reveal_strlit("=");
    if args[i]@ == option + seq!['='] + value {
        let a = args[i]@;
        let front = option + "="@;
        assert(a.subrange(0, front.len() as int) =~= front);
        assert(gives_option(a, option));
    }
    if args[i]@ == option {
        assert(gives_option(args[i]@, option));
    }
    if option_given(args, option) {
        let k = choose|k: int| 0 <= k < args.len() && gives_option((#[trigger] args[k])@, option);
        let a = args[k]@;
        if a != option {
            let front = option + "="@;
            assert(a.subrange(0, front.len() as int) == front);
            assert(a.take(option.len() as int) =~= front.take(option.len() as int));
            assert(front.take(option.len() as int) =~= option);
            assert(a[option.len() as int] == a.subrange(0, front.len() as int)[option.len() as int]);
        }
    }
}

/// A directory is given by `-C` or `--cd`, with what is behind it in the same argument
/// or the next, but only before `--`: what follows is meant for Codex as text.
pub proof fn directories_are_given_before_the_end_of_options(args: Seq<String>, i: int)
    requires
        0 <= i < args.len(),
    ensures
        (args[i]@ == "-C"@ || args[i]@ == "--cd"@) && (forall|k: int|
            0 <= k < i ==> (#[trigger] args[k])@ != "--"@) ==> cwd_given(args),
        args[i]@ == "--"@ && (forall|k: int|
            0 <= k < i ==> !names_cwd((#[trigger] args[k])@)) ==> !cwd_given(args),
        names_cwd("-C"@) && names_cwd("--cd"@),
        !names_cwd("--"@),
{
    reveal_strlit("-C");
    reveal_strlit("--cd");
    reveal_strlit("--");
    reveal_strlit("--cd=");
    assert("-C"@.len() == 2);
    assert("--cd"@.len() == 4);
    assert("--"@.len() == 2);
    assert("--cd="@.len() == 5);
    assert("-C"@[1] != "--"@[1]);

    assert(!text::begins_with("--"@, "-C"@)) by {
        assert("--"@.subrange(0, 2)[1] == '-');
    }
    if (args[i]@ == "-C"@ || args[i]@ == "--cd"@) && (forall|k: int|
        0 <= k < i ==> (#[trigger] args[k])@ != "--"@) {
        assert(names_cwd(args[i]@));
        assert forall|k: int| 0 <= k <= i implies (#[trigger] args[k])@ != "--"@ by {}
    }
}

/// What is logged of the arguments is the kind of session and how many there are:
/// arguments that agree in that are logged alike.
pub proof fn arguments_are_not_logged(a: Seq<String>, b: Seq<String>)
    requires
        a.len() == b.len(),
        first_arg(a) == first_arg(b),
    ensures
        args_summary(a) == args_summary(b),
        text::finishes_with(args_summary(a), text::decimal(a.len()) + " args)"@),
{
    let s = args_summary(a);
    let t = text::decimal(a.len()) + " args)"@;
    assert(s.subrange(s.len() - t.len(), s.len() as int) =~= t);
}

/// The session is run with its own arguments first, in their order, and is then told
/// where the proxy is and which variable holds the token.
pub proof fn the_proxy_is_named_last(args: Vec<String>, url: &str, r: Vec<String>)
    requires
        call_ensures(remote_codex_args, (args, url), r),
    ensures
        r@.len() == args@.len() + 4,
        forall|i: int| 0 <= i < args@.len() ==> (#[trigger] r@[i])@ == args@[i]@,
        r@[args@.len() as int]@ == "--remote"@,
        r@[args@.len() as int + 1]@ == url@,
        r@[args@.len() as int + 2]@ == "--remote-auth-token-env"@,
        r@[args@.len() as int + 3]@ == "CODEX_SWITCH_REMOTE_TOKEN"@,
{
    let n = args@.len() as int;
    let all = text::views(r@);
    assert(all.len() == r@.len());
    assert(all[n] == r@[n]@ && all[n + 1] == r@[n + 1]@ && all[n + 2] == r@[n + 2]@ && all[n + 3]
        == r@[n + 3]@);
    assert forall|i: int| 0 <= i < args@.len() implies (#[trigger] r@[i])@ == args@[i]@ by {
        assert(all[i] == r@[i]@);
        assert(text::views(args@)[i] == args@[i]@);
    }
}

/// The app-server listens where it is told, and asks for the token in the file.
pub proof fn the_app_server_asks_for_the_token(url: &str, path: &str, r: Vec<String>)
    requires
        call_ensures(app_server_args, (url, path), r),
    ensures
        r@.len() == 7,
        r@[0]@ == "app-server"@,
        r@[1]@ == "--listen"@ && r@[2]@ == url@,
        r@[3]@ == "--ws-auth"@ && r@[4]@ == "capability-token"@,
        r@[5]@ == "--ws-token-file"@ && r@[6]@ == path@,
{
    let all = text::views(r@);
    assert(all.len() == r@.len());
    assert(all[0] == r@[0]@ && all[1] == r@[1]@ && all[2] == r@[2]@ && all[3] == r@[3]@ && all[4]
        == r@[4]@ && all[5] == r@[5]@ && all[6] == r@[6]@);
}

/// A session that says itself where it connects to is turned down, with the option that
/// does so.
pub proof fn remote_options_are_turned_down(args: Vec<String>, r: Result<(), String>)
    requires
        call_ensures(reject_remote_args, (&args,), r),
    ensures
        option_given(args@, "--remote"@) ==> r is Err,
        option_given(args@, "--remote-auth-token-env"@) ==> r is Err,
        !option_given(args@, "--remote"@) && !option_given(args@, "--remote-auth-token-env"@)
            ==> r is Ok,
        r is Err && option_given(args@, "--remote"@) ==> r->Err_0@ == REMOTE_GIVEN@,
        r is Err && !option_given(args@, "--remote"@) ==> r->Err_0@ == REMOTE_TOKEN_GIVEN@,
{
}

/// A directory can stand in the same argument, behind `-C` or behind `--cd=`; another
/// option that begins alike names none.
pub proof fn directories_can_be_joined(dir: Seq<char>, arg: Seq<char>)
    requires
        dir.len() > 0,
    ensures
        names_cwd("-C"@ + dir),
        names_cwd("--cd="@ + dir),
        names_cwd(arg) ==> arg.len() >= 2 && arg[0] == '-' && (arg[1] == 'C' || (arg.len() >= 4
            && arg.take(4) == "--cd"@)),
        arg.len() > 4 && arg.take(4) == "--cd"@ && arg[4] != '=' ==> !names_cwd(arg),
{
    reveal_strlit("-C");
    reveal_strlit("--cd");
    reveal_strlit("--cd=");
    assert("-C"@.len() == 2);
    assert("--cd"@.len() == 4);
    assert("--cd="@.len() == 5);

    let a = "-C"@ + dir;
    assert(a.subrange(0, 2) =~= "-C"@);
    let b = "--cd="@ + dir;
    assert(b.subrange(0, 5) =~= "--cd="@);
    if text::begins_with(arg, "-C"@) {
        assert(arg.subrange(0, 2)[0] == '-' && arg.subrange(0, 2)[1] == 'C');
    }
    if text::begins_with(arg, "--cd="@) {
        assert(arg.subrange(0, 5)[0] == '-' && arg.subrange(0, 5)[4] == '=');
        assert(arg.take(4) =~= arg.subrange(0, 5).take(4));
        assert("--cd="@.take(4) =~= "--cd"@);
    }
    if arg == "--cd"@ {
        assert(arg.take(4) =~= arg);
    }
    if arg.len() > 4 && arg.take(4) == "--cd"@ {
        assert(arg.take(4)[1] == '-');
        assert(arg[1] == '-');
    }
}

} // verus!
