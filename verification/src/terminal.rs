//! Which terminal Codex runs in, as the environment tells it.
use crate::encoding;
use crate::search;
use crate::text;
use vstd::prelude::*;

verus! {

#[derive(Debug, Clone, Copy, PartialEq, Eq, Structural)]
pub enum TerminalName {
    AppleTerminal,
    Ghostty,
    Iterm2,
    WarpTerminal,
    VsCode,
    WezTerm,
    Kitty,
    Alacritty,
    Konsole,
    GnomeTerminal,
    Vte,
    WindowsTerminal,
    Dumb,
    Unknown,
}

#[derive(Debug)]
pub enum Multiplexer {
    Tmux { version: Option<String> },
    Zellij,
}

pub enum MultiplexerView {
    Tmux { version: Option<Seq<char>> },
    Zellij,
}

#[derive(Debug)]
pub struct TerminalInfo {
    pub name: TerminalName,
    pub term_program: Option<String>,
    pub version: Option<String>,
    pub term: Option<String>,
    pub multiplexer: Option<Multiplexer>,
}

pub struct TerminalView {
    pub name: TerminalName,
    pub program: Option<Seq<char>>,
    pub version: Option<Seq<char>>,
    pub term: Option<Seq<char>>,
    pub multiplexer: Option<MultiplexerView>,
}

pub open spec fn multiplexer_view(m: Option<Multiplexer>) -> Option<MultiplexerView> {
    match m {
        Some(Multiplexer::Tmux { version }) => Some(
            MultiplexerView::Tmux { version: text::opt_view(version) },
        ),
        Some(Multiplexer::Zellij) => Some(MultiplexerView::Zellij),
        None => None,
    }
}

impl View for TerminalInfo {
    type V = TerminalView;

    open spec fn view(&self) -> TerminalView {
        TerminalView {
            name: self.name,
            program: text::opt_view(self.term_program),
            version: text::opt_view(self.version),
            term: text::opt_view(self.term),
            multiplexer: multiplexer_view(self.multiplexer),
        }
    }
}

/// What tmux says of the terminal that it runs in.
#[derive(Debug)]
pub struct TmuxClientInfo {
    pub termtype: Option<String>,
    pub termname: Option<String>,
}

/// The variables of the environment, and what tmux says.
pub struct Environment {
    pub vars: Vec<(String, String)>,
    pub tmux: TmuxClientInfo,
}

// ---------------------------------------------------------------------------
// Variables
// ---------------------------------------------------------------------------

pub open spec fn is_var(name: Seq<char>) -> spec_fn((String, String)) -> bool {
    |v: (String, String)| v.0@ == name
}

pub open spec fn var_of(env: Environment, name: Seq<char>) -> Option<Seq<char>> {
    match search::first_index(env.vars@, is_var(name)) {
        Some(i) => Some(env.vars@[i].1@),
        None => None,
    }
}

pub open spec fn not_blank(s: Option<Seq<char>>) -> Option<Seq<char>> {
    match s {
        Some(t) => if text::is_blank(t) {
            None
        } else {
            Some(t)
        },
        None => None,
    }
}

pub open spec fn has_var(env: Environment, name: Seq<char>) -> bool {
    var_of(env, name) is Some
}

pub open spec fn filled_var(env: Environment, name: Seq<char>) -> Option<Seq<char>> {
    not_blank(var_of(env, name))
}

pub fn none_if_whitespace(value: Option<String>) -> (r: Option<String>)
    ensures
        text::opt_view(r) == not_blank(text::opt_view(value)),
{
    match value {
        Some(t) => if text::blank(t.as_str()) {
            None
        } else {
            Some(t)
        },
        None => None,
    }
}

/// What `tmux display-message` said: its output without the space around it, where
/// the command ended well and the output is a text that is not blank.
pub open spec fn tmux_said(success: bool, stdout: Seq<u8>) -> Option<Seq<char>> {
    if success && vstd::utf8::valid_utf8(stdout) {
        not_blank(Some(text::trimmed(vstd::utf8::decode_utf8(stdout))))
    } else {
        None
    }
}

pub fn tmux_display_message(success: bool, stdout: Vec<u8>) -> (r: Option<String>)
    ensures
        text::opt_view(r) == tmux_said(success, stdout@),
{
    if !success {
        return None;
    }
    match encoding::decode_utf8(stdout) {
        Some(value) => none_if_whitespace(Some(text::trim(value.as_str()))),
        None => None,
    }
}

impl Environment {
    pub fn var(&self, name: &str) -> (r: Option<String>)
        ensures
            text::opt_view(r) == var_of(*self, name@),
    {
        let ghost p = is_var(name@);
        let mut i: usize = 0;
        while i < self.vars.len()
            invariant
                i <= self.vars@.len(),
                p == is_var(name@),
                forall|k: int| 0 <= k < i ==> !p(#[trigger] self.vars@[k]),
            decreases self.vars@.len() - i,
        {
            if text::same(self.vars[i].0.as_str(), name) {
                proof {
                    search::first_index_unique(self.vars@, p, i as int);
                }
                return Some(self.vars[i].1.clone());
            }
            i = i + 1;
        }
        proof {
            search::first_index_absent(self.vars@, p);
        }
        None
    }

    pub fn has(&self, name: &str) -> (r: bool)
        ensures
            r == has_var(*self, name@),
    {
        self.var(name).is_some()
    }

    pub fn var_non_empty(&self, name: &str) -> (r: Option<String>)
        ensures
            text::opt_view(r) == filled_var(*self, name@),
    {
        none_if_whitespace(self.var(name))
    }

    pub fn has_non_empty(&self, name: &str) -> (r: bool)
        ensures
            r == filled_var(*self, name@) is Some,
    {
        self.var_non_empty(name).is_some()
    }
}

// ---------------------------------------------------------------------------
// Names
// ---------------------------------------------------------------------------

pub open spec fn is_joint(c: char) -> bool {
    c == ' ' || c == '-' || c == '_' || c == '.'
}

/// A name in lower case, without what joins its words.
pub open spec fn plain_name(s: Seq<char>) -> Seq<char>
    decreases s.len(),
{
    if s.len() == 0 {
        Seq::empty()
    } else if is_joint(s.last()) {
        plain_name(s.drop_last())
    } else {
        plain_name(s.drop_last()).push(text::lower_char(s.last()))
    }
}

fn to_plain_name(s: &str) -> (r: String)
    ensures
        r@ == plain_name(s@),
{
    let v = text::to_chars(s);
    let mut r = String::new();
    let mut i: usize = 0;
    while i < v.len()
        invariant
            i <= v@.len(),
            r@ == plain_name(v@.take(i as int)),
        decreases v@.len() - i,
    {
        assert(v@.take(i as int + 1).drop_last() =~= v@.take(i as int));
        let c: char = v[i];
        if !(c == ' ' || c == '-' || c == '_' || c == '.') {
            r.push(text::ascii_lower(c));
        }
        i = i + 1;
    }
    assert(v@.take(i as int) =~= v@);
    r
}

/// The terminal that a plain name stands for.
pub open spec fn known_name(s: Seq<char>) -> Option<TerminalName> {
    if s == "appleterminal"@ {
        Some(TerminalName::AppleTerminal)
    } else if s == "ghostty"@ {
        Some(TerminalName::Ghostty)
    } else if s == "iterm"@ || s == "iterm2"@ || s == "itermapp"@ {
        Some(TerminalName::Iterm2)
    } else if s == "warp"@ || s == "warpterminal"@ {
        Some(TerminalName::WarpTerminal)
    } else if s == "vscode"@ {
        Some(TerminalName::VsCode)
    } else if s == "wezterm"@ {
        Some(TerminalName::WezTerm)
    } else if s == "kitty"@ {
        Some(TerminalName::Kitty)
    } else if s == "alacritty"@ {
        Some(TerminalName::Alacritty)
    } else if s == "konsole"@ {
        Some(TerminalName::Konsole)
    } else if s == "gnometerminal"@ {
        Some(TerminalName::GnomeTerminal)
    } else if s == "vte"@ {
        Some(TerminalName::Vte)
    } else if s == "windowsterminal"@ {
        Some(TerminalName::WindowsTerminal)
    } else if s == "dumb"@ {
        Some(TerminalName::Dumb)
    } else {
        None
    }
}

pub open spec fn name_of_program(program: Seq<char>) -> Option<TerminalName> {
    known_name(plain_name(text::trimmed(program)))
}

pub fn terminal_name_from_term_program(value: &str) -> (r: Option<TerminalName>)
    ensures
        r == name_of_program(value@),
{
    let plain = to_plain_name(text::trim(value).as_str());
    let s = plain.as_str();
    if text::same(s, "appleterminal") {
        Some(TerminalName::AppleTerminal)
    } else if text::same(s, "ghostty") {
        Some(TerminalName::Ghostty)
    } else if text::same(s, "iterm") || text::same(s, "iterm2") || text::same(s, "itermapp") {
        Some(TerminalName::Iterm2)
    } else if text::same(s, "warp") || text::same(s, "warpterminal") {
        Some(TerminalName::WarpTerminal)
    } else if text::same(s, "vscode") {
        Some(TerminalName::VsCode)
    } else if text::same(s, "wezterm") {
        Some(TerminalName::WezTerm)
    } else if text::same(s, "kitty") {
        Some(TerminalName::Kitty)
    } else if text::same(s, "alacritty") {
        Some(TerminalName::Alacritty)
    } else if text::same(s, "konsole") {
        Some(TerminalName::Konsole)
    } else if text::same(s, "gnometerminal") {
        Some(TerminalName::GnomeTerminal)
    } else if text::same(s, "vte") {
        Some(TerminalName::Vte)
    } else if text::same(s, "windowsterminal") {
        Some(TerminalName::WindowsTerminal)
    } else if text::same(s, "dumb") {
        Some(TerminalName::Dumb)
    } else {
        None
    }
}

pub open spec fn name_or_unknown(program: Seq<char>) -> TerminalName {
    match name_of_program(program) {
        Some(n) => n,
        None => TerminalName::Unknown,
    }
}

fn program_name(program: &str) -> (r: TerminalName)
    ensures
        r == name_or_unknown(program@),
{
    match terminal_name_from_term_program(program) {
        Some(n) => n,
        None => TerminalName::Unknown,
    }
}

// ---------------------------------------------------------------------------
// Kinds of findings
// ---------------------------------------------------------------------------

pub open spec fn by_name(
    name: TerminalName,
    version: Option<Seq<char>>,
    multiplexer: Option<MultiplexerView>,
) -> TerminalView {
    TerminalView { name, program: None, version, term: None, multiplexer }
}

pub open spec fn by_term(term: Seq<char>, multiplexer: Option<MultiplexerView>) -> TerminalView {
    TerminalView {
        name: if term == "dumb"@ {
            TerminalName::Dumb
        } else if term == "wezterm"@ || term == "wezterm-mux"@ {
            TerminalName::WezTerm
        } else {
            TerminalName::Unknown
        },
        program: None,
        version: None,
        term: Some(term),
        multiplexer,
    }
}

impl TerminalInfo {
    pub fn from_name(
        name: TerminalName,
        version: Option<String>,
        multiplexer: Option<Multiplexer>,
    ) -> (r: Self)
        ensures
            r@ == by_name(name, text::opt_view(version), multiplexer_view(multiplexer)),
    {
        TerminalInfo { name, term_program: None, version, term: None, multiplexer }
    }

    pub fn from_term(term: String, multiplexer: Option<Multiplexer>) -> (r: Self)
        ensures
            r@ == by_term(term@, multiplexer_view(multiplexer)),
    {
        let name = if text::same(term.as_str(), "dumb") {
            TerminalName::Dumb
        } else if text::same(term.as_str(), "wezterm") || text::same(
            term.as_str(),
            "wezterm-mux",
        ) {
            TerminalName::WezTerm
        } else {
            TerminalName::Unknown
        };
        TerminalInfo { name, term_program: None, version: None, term: Some(term), multiplexer }
    }
}

// ---------------------------------------------------------------------------
// Multiplexers
// ---------------------------------------------------------------------------

pub open spec fn is_tmux(program: Seq<char>) -> bool {
    text::lowered(program) == "tmux"@
}

pub fn is_tmux_term_program(value: &str) -> (r: bool)
    ensures
        r == is_tmux(value@),
{
    let lowered = text::to_lower(value);
    text::same(lowered.as_str(), "tmux")
}

pub open spec fn tmux_version(env: Environment) -> Option<Seq<char>> {
    match var_of(env, "TERM_PROGRAM"@) {
        Some(p) => if is_tmux(p) {
            filled_var(env, "TERM_PROGRAM_VERSION"@)
        } else {
            None
        },
        None => None,
    }
}

pub fn tmux_version_from_env(env: &Environment) -> (r: Option<String>)
    ensures
        text::opt_view(r) == tmux_version(*env),
{
    match env.var("TERM_PROGRAM") {
        Some(p) => if is_tmux_term_program(p.as_str()) {
            env.var_non_empty("TERM_PROGRAM_VERSION")
        } else {
            None
        },
        None => None,
    }
}

pub open spec fn multiplexer_of(env: Environment) -> Option<MultiplexerView> {
    if filled_var(env, "TMUX"@) is Some || filled_var(env, "TMUX_PANE"@) is Some {
        Some(MultiplexerView::Tmux { version: tmux_version(env) })
    } else if filled_var(env, "ZELLIJ"@) is Some || filled_var(env, "ZELLIJ_SESSION_NAME"@) is Some
        || filled_var(env, "ZELLIJ_VERSION"@) is Some {
        Some(MultiplexerView::Zellij)
    } else {
        None
    }
}

pub fn detect_multiplexer(env: &Environment) -> (r: Option<Multiplexer>)
    ensures
        multiplexer_view(r) == multiplexer_of(*env),
{
    if env.has_non_empty("TMUX") || env.has_non_empty("TMUX_PANE") {
        Some(Multiplexer::Tmux { version: tmux_version_from_env(env) })
    } else if env.has_non_empty("ZELLIJ") || env.has_non_empty("ZELLIJ_SESSION_NAME")
        || env.has_non_empty("ZELLIJ_VERSION") {
        Some(Multiplexer::Zellij)
    } else {
        None
    }
}

pub open spec fn first_word(s: Seq<char>) -> Seq<char> {
    if text::words_of(s).len() > 0 {
        text::words_of(s)[0]
    } else {
        Seq::empty()
    }
}

pub open spec fn second_word(s: Seq<char>) -> Option<Seq<char>> {
    if text::words_of(s).len() > 1 {
        Some(text::words_of(s)[1])
    } else {
        None
    }
}

pub fn split_term_program_and_version(value: &str) -> (r: (String, Option<String>))
    ensures
        r.0@ == first_word(value@),
        text::opt_view(r.1) == second_word(value@),
{
    let words = text::words(value);
    proof {
        if words@.len() > 0 {
            assert(text::views(words@)[0] == words@[0]@);
        }
        if words@.len() > 1 {
            assert(text::views(words@)[1] == words@[1]@);
        }
        assert(text::views(words@).len() == words@.len());
    }
    let program = if words.len() > 0 {
        words[0].clone()
    } else {
        let blank = String::new();
        assert(blank@ =~= Seq::<char>::empty());
        blank
    };
    let version = if words.len() > 1 {
        Some(words[1].clone())
    } else {
        None
    };
    (program, version)
}

/// The terminal that tmux says it runs in.
pub open spec fn tmux_terminal(
    termtype: Option<Seq<char>>,
    termname: Option<Seq<char>>,
    multiplexer: Option<MultiplexerView>,
) -> Option<TerminalView> {
    match not_blank(termtype) {
        Some(t) => Some(
            TerminalView {
                name: name_or_unknown(first_word(t)),
                program: Some(first_word(t)),
                version: second_word(t),
                term: not_blank(termname),
                multiplexer,
            },
        ),
        None => match not_blank(termname) {
            Some(n) => Some(by_term(n, multiplexer)),
            None => None,
        },
    }
}

pub open spec fn terminal_view(t: Option<TerminalInfo>) -> Option<TerminalView> {
    match t {
        Some(x) => Some(x@),
        None => None,
    }
}

pub fn terminal_from_tmux_client_info(
    client_info: &TmuxClientInfo,
    multiplexer: Option<Multiplexer>,
) -> (r: Option<TerminalInfo>)
    ensures
        terminal_view(r) == tmux_terminal(
            text::opt_view(client_info.termtype),
            text::opt_view(client_info.termname),
            multiplexer_view(multiplexer),
        ),
{
    let termtype = none_if_whitespace(text::clone_option(&client_info.termtype));
    let termname = none_if_whitespace(text::clone_option(&client_info.termname));
    match termtype {
        Some(t) => {
            let (program, version) = split_term_program_and_version(t.as_str());
            let name = program_name(program.as_str());
            Some(
                TerminalInfo {
                    name,
                    term_program: Some(program),
                    version,
                    term: termname,
                    multiplexer,
                },
            )
        },
        None => match termname {
            Some(n) => Some(TerminalInfo::from_term(n, multiplexer)),
            None => None,
        },
    }
}

// ---------------------------------------------------------------------------
// Detection
// ---------------------------------------------------------------------------

/// Whether tmux has to be asked for the terminal that it runs in.
pub open spec fn asks_tmux(env: Environment) -> bool {
    filled_var(env, "TERM_PROGRAM"@) matches Some(p) && is_tmux(p) && multiplexer_of(
        env,
    ) matches Some(MultiplexerView::Tmux { .. })
}

pub fn needs_tmux_client_info(env: &Environment) -> (r: bool)
    ensures
        r == asks_tmux(*env),
{
    let tmux: bool = match env.var_non_empty("TERM_PROGRAM") {
        Some(p) => is_tmux_term_program(p.as_str()),
        None => false,
    };
    tmux && match detect_multiplexer(env) {
        Some(Multiplexer::Tmux { .. }) => true,
        _ => false,
    }
}

/// What the name of the terminal's program says, with tmux looked through.
pub open spec fn by_program(env: Environment, program: Seq<char>) -> TerminalView {
    let m = multiplexer_of(env);
    let inner = tmux_terminal(
        text::opt_view(env.tmux.termtype),
        text::opt_view(env.tmux.termname),
        m,
    );
    if asks_tmux(env) && inner is Some {
        inner->Some_0
    } else {
        TerminalView {
            name: name_or_unknown(program),
            program: Some(program),
            version: filled_var(env, "TERM_PROGRAM_VERSION"@),
            term: None,
            multiplexer: m,
        }
    }
}

pub open spec fn term_has_kitty(env: Environment) -> bool {
    var_of(env, "TERM"@) matches Some(t) && text::has_text(t, "kitty"@)
}

/// What the environment says, the surest sign first.
pub open spec fn detected(env: Environment) -> TerminalView {
    let m = multiplexer_of(env);
    match filled_var(env, "TERM_PROGRAM"@) {
        Some(program) => by_program(env, program),
        None => if has_var(env, "WEZTERM_VERSION"@) {
            by_name(TerminalName::WezTerm, filled_var(env, "WEZTERM_VERSION"@), m)
        } else if has_var(env, "ITERM_SESSION_ID"@) || has_var(env, "ITERM_PROFILE"@) || has_var(
            env,
            "ITERM_PROFILE_NAME"@,
        ) {
            by_name(TerminalName::Iterm2, None, m)
        } else if has_var(env, "TERM_SESSION_ID"@) {
            by_name(TerminalName::AppleTerminal, None, m)
        } else if has_var(env, "KITTY_WINDOW_ID"@) || term_has_kitty(env) {
            by_name(TerminalName::Kitty, None, m)
        } else if has_var(env, "ALACRITTY_SOCKET"@) || var_of(env, "TERM"@) == Some(
            "alacritty"@,
        ) {
            by_name(TerminalName::Alacritty, None, m)
        } else if has_var(env, "KONSOLE_VERSION"@) {
            by_name(TerminalName::Konsole, filled_var(env, "KONSOLE_VERSION"@), m)
        } else if has_var(env, "GNOME_TERMINAL_SCREEN"@) {
            by_name(TerminalName::GnomeTerminal, None, m)
        } else if has_var(env, "VTE_VERSION"@) {
            by_name(TerminalName::Vte, filled_var(env, "VTE_VERSION"@), m)
        } else if has_var(env, "WT_SESSION"@) {
            by_name(TerminalName::WindowsTerminal, None, m)
        } else {
            match filled_var(env, "TERM"@) {
                Some(t) => by_term(t, m),
                None => by_name(TerminalName::Unknown, None, m),
            }
        },
    }
}

fn detect_by_program(env: &Environment, program: String) -> (r: TerminalInfo)
    requires
        filled_var(*env, "TERM_PROGRAM"@) == Some(program@),
    ensures
        r@ == by_program(*env, program@),
{
    if needs_tmux_client_info(env) {
        if let Some(inner) = terminal_from_tmux_client_info(&env.tmux, detect_multiplexer(env)) {
            return inner;
        }
    }
    let name = program_name(program.as_str());
    TerminalInfo {
        name,
        term_program: Some(program),
        version: env.var_non_empty("TERM_PROGRAM_VERSION"),
        term: None,
        multiplexer: detect_multiplexer(env),
    }
}

pub fn detect_terminal_info_from_env(env: &Environment) -> (r: TerminalInfo)
    ensures
        r@ == detected(*env),
{
    if let Some(program) = env.var_non_empty("TERM_PROGRAM") {
        return detect_by_program(env, program);
    }
    let multiplexer = detect_multiplexer(env);
    if env.has("WEZTERM_VERSION") {
        let version = env.var_non_empty("WEZTERM_VERSION");
        return TerminalInfo::from_name(TerminalName::WezTerm, version, multiplexer);
    }
    if env.has("ITERM_SESSION_ID") || env.has("ITERM_PROFILE") || env.has("ITERM_PROFILE_NAME") {
        return TerminalInfo::from_name(TerminalName::Iterm2, None, multiplexer);
    }
    if env.has("TERM_SESSION_ID") {
        return TerminalInfo::from_name(TerminalName::AppleTerminal, None, multiplexer);
    }
    let term = env.var("TERM");
    let kitty: bool = match &term {
        Some(t) => text::contains(t.as_str(), "kitty"),
        None => false,
    };
    if env.has("KITTY_WINDOW_ID") || kitty {
        return TerminalInfo::from_name(TerminalName::Kitty, None, multiplexer);
    }
    let alacritty: bool = match &term {
        Some(t) => text::same(t.as_str(), "alacritty"),
        None => false,
    };
    if env.has("ALACRITTY_SOCKET") || alacritty {
        return TerminalInfo::from_name(TerminalName::Alacritty, None, multiplexer);
    }
    if env.has("KONSOLE_VERSION") {
        let version = env.var_non_empty("KONSOLE_VERSION");
        return TerminalInfo::from_name(TerminalName::Konsole, version, multiplexer);
    }
    if env.has("GNOME_TERMINAL_SCREEN") {
        return TerminalInfo::from_name(TerminalName::GnomeTerminal, None, multiplexer);
    }
    if env.has("VTE_VERSION") {
        let version = env.var_non_empty("VTE_VERSION");
        return TerminalInfo::from_name(TerminalName::Vte, version, multiplexer);
    }
    if env.has("WT_SESSION") {
        return TerminalInfo::from_name(TerminalName::WindowsTerminal, None, multiplexer);
    }
    match env.var_non_empty("TERM") {
        Some(t) => TerminalInfo::from_term(t, multiplexer),
        None => TerminalInfo::from_name(TerminalName::Unknown, None, multiplexer),
    }
}

// ---------------------------------------------------------------------------
// In the user agent
// ---------------------------------------------------------------------------

pub open spec fn is_token_char(c: char) -> bool {
    text::is_alphanumeric(c) || c == '-' || c == '_' || c == '.' || c == '/'
}

pub open spec fn token_char(c: char) -> char {
    if is_token_char(c) {
        c
    } else {
        '_'
    }
}

pub open spec fn token_text(s: Seq<char>) -> Seq<char> {
    s.map_values(|c: char| token_char(c))
}

pub fn is_valid_terminal_header_value_char(c: char) -> (r: bool)
    ensures
        r == is_token_char(c),
{
    text::alphanumeric(c) || c == '-' || c == '_' || c == '.' || c == '/'
}

pub fn sanitize_terminal_header_value(value: String) -> (r: String)
    ensures
        r@ == token_text(value@),
{
    let v = text::to_chars(value.as_str());
    let mut r = String::new();
    let mut i: usize = 0;
    while i < v.len()
        invariant
            i <= v@.len(),
            r@ == token_text(v@.take(i as int)),
        decreases v@.len() - i,
    {
        let ghost before = r@;
        let c: char = if is_valid_terminal_header_value_char(v[i]) {
            v[i]
        } else {
            '_'
        };
        r.push(c);
        assert(token_text(v@.take(i as int + 1)) =~= before.push(token_char(v@[i as int])));
        i = i + 1;
    }
    assert(v@.take(i as int) =~= v@);
    r
}

/// A name with a version behind it, where there is one.
pub open spec fn versioned(name: Seq<char>, version: Option<Seq<char>>) -> Seq<char> {
    match version {
        Some(v) => if v.len() == 0 {
            name
        } else {
            name + "/"@ + v
        },
        None => name,
    }
}

pub fn format_terminal_version(name: &str, version: &Option<String>) -> (r: String)
    ensures
        r@ == versioned(name@, text::opt_view(*version)),
{
    match version {
        Some(v) => if v.as_str().is_empty() {
            name.to_owned()
        } else {
            text::cat3(name, "/", v.as_str())
        },
        None => name.to_owned(),
    }
}

/// What a terminal is called, and whether its version goes with the name.
pub open spec fn title_of(name: TerminalName) -> (Seq<char>, bool) {
    match name {
        TerminalName::AppleTerminal => ("Apple_Terminal"@, true),
        TerminalName::Ghostty => ("Ghostty"@, true),
        TerminalName::Iterm2 => ("iTerm.app"@, true),
        TerminalName::WarpTerminal => ("WarpTerminal"@, true),
        TerminalName::VsCode => ("vscode"@, true),
        TerminalName::WezTerm => ("WezTerm"@, true),
        TerminalName::Kitty => ("kitty"@, false),
        TerminalName::Alacritty => ("Alacritty"@, false),
        TerminalName::Konsole => ("Konsole"@, true),
        TerminalName::GnomeTerminal => ("gnome-terminal"@, false),
        TerminalName::Vte => ("VTE"@, true),
        TerminalName::WindowsTerminal => ("WindowsTerminal"@, false),
        TerminalName::Dumb => ("dumb"@, false),
        TerminalName::Unknown => ("unknown"@, false),
    }
}

fn title(name: TerminalName) -> (r: (&'static str, bool))
    ensures
        (r.0@, r.1) == title_of(name),
{
    match name {
        TerminalName::AppleTerminal => ("Apple_Terminal", true),
        TerminalName::Ghostty => ("Ghostty", true),
        TerminalName::Iterm2 => ("iTerm.app", true),
        TerminalName::WarpTerminal => ("WarpTerminal", true),
        TerminalName::VsCode => ("vscode", true),
        TerminalName::WezTerm => ("WezTerm", true),
        TerminalName::Kitty => ("kitty", false),
        TerminalName::Alacritty => ("Alacritty", false),
        TerminalName::Konsole => ("Konsole", true),
        TerminalName::GnomeTerminal => ("gnome-terminal", false),
        TerminalName::Vte => ("VTE", true),
        TerminalName::WindowsTerminal => ("WindowsTerminal", false),
        TerminalName::Dumb => ("dumb", false),
        TerminalName::Unknown => ("unknown", false),
    }
}

/// The terminal's part of the user agent: its program, else what `TERM` says,
/// else its name.
pub open spec fn agent_token(t: TerminalView) -> Seq<char> {
    token_text(
        match t.program {
            Some(p) => versioned(p, t.version),
            None => if t.term is Some && t.term->Some_0.len() > 0 {
                t.term->Some_0
            } else if title_of(t.name).1 {
                versioned(title_of(t.name).0, t.version)
            } else {
                title_of(t.name).0
            },
        },
    )
}

impl TerminalInfo {
    pub fn user_agent_token(&self) -> (r: String)
        ensures
            r@ == agent_token(self@),
    {
        let raw = match &self.term_program {
            Some(p) => format_terminal_version(p.as_str(), &self.version),
            None => {
                let term: Option<String> = match &self.term {
                    Some(t) => if t.as_str().is_empty() {
                        None
                    } else {
                        Some(t.clone())
                    },
                    None => None,
                };
                match term {
                    Some(t) => t,
                    None => {
                        let (name, with_version) = title(self.name);
                        if with_version {
                            format_terminal_version(name, &self.version)
                        } else {
                            name.to_owned()
                        }
                    },
                }
            },
        };
        sanitize_terminal_header_value(raw)
    }
}

// ---------------------------------------------------------------------------
// Laws
// ---------------------------------------------------------------------------

/// The terminal's part of the user agent has only letters, digits, `-`, `_`,
/// `.` and `/`, whatever the environment holds.
pub proof fn tokens_are_plain(t: TerminalView, i: int)
    requires
        0 <= i < agent_token(t).len(),
    ensures
        is_token_char(agent_token(t)[i]),
{
}

/// The program that the environment names goes before every other sign, unless
/// it is tmux, which is looked through.
pub proof fn program_goes_first(env: Environment, program: Seq<char>)
    requires
        filled_var(env, "TERM_PROGRAM"@) == Some(program),
        !is_tmux(program),
    ensures
        detected(env).program == Some(program),
        detected(env).version == filled_var(env, "TERM_PROGRAM_VERSION"@),
{
}

/// A variable has the value that its first entry gives; one that only holds white
/// space counts as not set.
pub proof fn the_first_value_counts(env: Environment, name: Seq<char>, i: int)
    requires
        0 <= i < env.vars@.len(),
        env.vars@[i].0@ == name,
        forall|j: int| 0 <= j < i ==> (#[trigger] env.vars@[j]).0@ != name,
    ensures
        var_of(env, name) == Some(env.vars@[i].1@),
        has_var(env, name),
        text::is_blank(env.vars@[i].1@) ==> filled_var(env, name) is None,
        !text::is_blank(env.vars@[i].1@) ==> filled_var(env, name) == Some(env.vars@[i].1@),
{
    let p = is_var(name);
    assert forall|j: int| 0 <= j < i implies !p(#[trigger] env.vars@[j]) by {}
    assert(p(env.vars@[i]));
    search::first_index_unique(env.vars@, p, i);
}

/// A variable that no entry names is not set.
pub proof fn missing_variables_are_not_set(env: Environment, name: Seq<char>)
    requires
        forall|j: int| 0 <= j < env.vars@.len() ==> (#[trigger] env.vars@[j]).0@ != name,
    ensures
        !has_var(env, name),
        filled_var(env, name) is None,
{
    let p = is_var(name);
    assert forall|j: int| 0 <= j < env.vars@.len() implies !p(#[trigger] env.vars@[j]) by {}
    search::first_index_absent(env.vars@, p);
}

/// What tmux says counts where it succeeded with a text that is not blank.
pub proof fn tmux_is_heard(success: bool, stdout: Seq<u8>)
    ensures
        !success ==> tmux_said(success, stdout) is None,
        !vstd::utf8::valid_utf8(stdout) ==> tmux_said(success, stdout) is None,
        tmux_said(success, stdout) matches Some(s) ==> s == text::trimmed(
            vstd::utf8::decode_utf8(stdout),
        ) && s.len() > 0,
        success && vstd::utf8::valid_utf8(stdout) && text::trimmed(
            vstd::utf8::decode_utf8(stdout),
        ).len() > 0 ==> tmux_said(success, stdout) is Some,
{
    let s = text::trimmed(vstd::utf8::decode_utf8(stdout));
    text::trimming_is_idempotent(vstd::utf8::decode_utf8(stdout));
    if s.len() == 0 {
        assert(text::is_blank(s));
    }
}

/// Spaces, hyphens, underscores and dots in a name do not matter.
pub proof fn joints_do_not_matter(a: Seq<char>, joint: char, b: Seq<char>)
    requires
        joint == ' ' || joint == '-' || joint == '_' || joint == '.',
    ensures
        plain_name(a + seq![joint] + b) == plain_name(a) + plain_name(b),
    decreases b.len(),
{
    let s = a + seq![joint] + b;
    if b.len() == 0 {
        assert(s.drop_last() =~= a);
        assert(s.last() == joint);
        assert(plain_name(a) + plain_name(b) =~= plain_name(a));
    } else {
        joints_do_not_matter(a, joint, b.drop_last());
        assert(s.drop_last() =~= a + seq![joint] + b.drop_last());
        assert(s.last() == b.last());
        assert(plain_name(s) =~= plain_name(a) + plain_name(b));
    }
}

/// A name without joints is only put in lower case.
pub proof fn names_without_joints(s: Seq<char>)
    requires
        forall|i: int|
            0 <= i < s.len() ==> #[trigger] s[i] != ' ' && s[i] != '-' && s[i] != '_' && s[i] != '.',
    ensures
        plain_name(s) == text::lowered(s),
    decreases s.len(),
{
    if s.len() > 0 {
        let t = s.drop_last();
        assert forall|i: int| 0 <= i < t.len() implies #[trigger] t[i] != ' ' && t[i] != '-' && t[i]
            != '_' && t[i] != '.' by {
            assert(t[i] == s[i]);
        }
        names_without_joints(t);
        assert(s[s.len() - 1] == s.last());
        assert(plain_name(s) =~= text::lowered(s));
    } else {
        assert(plain_name(s) =~= text::lowered(s));
    }
}

proof fn unspaced_texts_stay(s: Seq<char>)
    requires
        s.len() > 0,
        !text::is_white(s[0]),
        !text::is_white(s.last()),
    ensures
        text::trimmed(s) == s,
{
    let from = text::trimming_leaves_the_core(s);
    let n = text::trimmed(s).len();
    if from > 0 {
        assert(text::is_white(s[0]));
    }
    if n < s.len() {
        assert(text::is_white(s[s.len() - 1]));
    }
    assert(s.subrange(0, s.len() as int) =~= s);
}

/// What a terminal is called in the user agent is a name that it is recognised by.
#[verifier::rlimit(60)]
pub proof fn titles_are_recognised(name: TerminalName)
    requires
        name != TerminalName::Unknown,
    ensures
        name_of_program(title_of(name).0) == Some(name),
{
    reveal_strlit("appleterminal");
    reveal_strlit("ghostty");
    reveal_strlit("iterm");
    reveal_strlit("iterm2");
    reveal_strlit("itermapp");
    reveal_strlit("warp");
    reveal_strlit("warpterminal");
    reveal_strlit("vscode");
    reveal_strlit("wezterm");
    reveal_strlit("kitty");
    reveal_strlit("alacritty");
    reveal_strlit("konsole");
    reveal_strlit("gnometerminal");
    reveal_strlit("vte");
    reveal_strlit("windowsterminal");
    reveal_strlit("dumb");
    assert("appleterminal"@.len() == 13);
    assert("ghostty"@.len() == 7);
    assert("iterm"@.len() == 5);
    assert("iterm2"@.len() == 6);
    assert("itermapp"@.len() == 8);
    assert("warp"@.len() == 4);
    assert("warpterminal"@.len() == 12);
    assert("vscode"@.len() == 6);
    assert("wezterm"@.len() == 7);
    assert("kitty"@.len() == 5);
    assert("alacritty"@.len() == 9);
    assert("konsole"@.len() == 7);
    assert("gnometerminal"@.len() == 13);
    assert("vte"@.len() == 3);
    assert("windowsterminal"@.len() == 15);
    assert("dumb"@.len() == 4);
    assert("appleterminal"@[0] != "gnometerminal"@[0]);
    assert("ghostty"@[0] != "wezterm"@[0]);
    assert("ghostty"@[0] != "konsole"@[0]);
    assert("iterm"@[0] != "kitty"@[0]);
    assert("iterm2"@[0] != "vscode"@[0]);
    assert("warp"@[0] != "dumb"@[0]);
    assert("wezterm"@[0] != "konsole"@[0]);

    match name {
        TerminalName::Ghostty => {
            reveal_strlit("Ghostty");
            reveal_strlit("ghostty");
            unspaced_texts_stay("Ghostty"@);
            assert(text::lowered("Ghostty"@) =~= "ghostty"@);
            names_without_joints("Ghostty"@);
        },
        TerminalName::WarpTerminal => {
            reveal_strlit("WarpTerminal");
            reveal_strlit("warpterminal");
            unspaced_texts_stay("WarpTerminal"@);
            assert(text::lowered("WarpTerminal"@) =~= "warpterminal"@);
            names_without_joints("WarpTerminal"@);
        },
        TerminalName::VsCode => {
            reveal_strlit("vscode");
            unspaced_texts_stay("vscode"@);
            assert(text::lowered("vscode"@) =~= "vscode"@);
            names_without_joints("vscode"@);
        },
        TerminalName::WezTerm => {
            reveal_strlit("WezTerm");
            reveal_strlit("wezterm");
            unspaced_texts_stay("WezTerm"@);
            assert(text::lowered("WezTerm"@) =~= "wezterm"@);
            names_without_joints("WezTerm"@);
        },
        TerminalName::Kitty => {
            reveal_strlit("kitty");
            unspaced_texts_stay("kitty"@);
            assert(text::lowered("kitty"@) =~= "kitty"@);
            names_without_joints("kitty"@);
        },
        TerminalName::Alacritty => {
            reveal_strlit("Alacritty");
            reveal_strlit("alacritty");
            unspaced_texts_stay("Alacritty"@);
            assert(text::lowered("Alacritty"@) =~= "alacritty"@);
            names_without_joints("Alacritty"@);
        },
        TerminalName::Konsole => {
            reveal_strlit("Konsole");
            reveal_strlit("konsole");
            unspaced_texts_stay("Konsole"@);
            assert(text::lowered("Konsole"@) =~= "konsole"@);
            names_without_joints("Konsole"@);
        },
        TerminalName::Vte => {
            reveal_strlit("VTE");
            reveal_strlit("vte");
            unspaced_texts_stay("VTE"@);
            assert(text::lowered("VTE"@) =~= "vte"@);
            names_without_joints("VTE"@);
        },
        TerminalName::WindowsTerminal => {
            reveal_strlit("WindowsTerminal");
            reveal_strlit("windowsterminal");
            unspaced_texts_stay("WindowsTerminal"@);
            assert(text::lowered("WindowsTerminal"@) =~= "windowsterminal"@);
            names_without_joints("WindowsTerminal"@);
        },
        TerminalName::Dumb => {
            reveal_strlit("dumb");
            unspaced_texts_stay("dumb"@);
            assert(text::lowered("dumb"@) =~= "dumb"@);
            names_without_joints("dumb"@);
        },
        TerminalName::AppleTerminal => {
            reveal_strlit("Apple");
            reveal_strlit("Terminal");
            reveal_strlit("Apple_Terminal");
            reveal_strlit("apple");
            reveal_strlit("terminal");
            reveal_strlit("appleterminal");
            assert("Apple_Terminal"@ =~= "Apple"@ + seq!['_'] + "Terminal"@);
            unspaced_texts_stay("Apple_Terminal"@);
            joints_do_not_matter("Apple"@, '_', "Terminal"@);
            names_without_joints("Apple"@);
            names_without_joints("Terminal"@);
            assert(text::lowered("Apple"@) =~= "apple"@);
            assert(text::lowered("Terminal"@) =~= "terminal"@);
            assert("apple"@ + "terminal"@ =~= "appleterminal"@);
        },
        TerminalName::Iterm2 => {
            reveal_strlit("iTerm");
            reveal_strlit("app");
            reveal_strlit("iTerm.app");
            reveal_strlit("iterm");
            reveal_strlit("itermapp");
            assert("iTerm.app"@ =~= "iTerm"@ + seq!['.'] + "app"@);
            unspaced_texts_stay("iTerm.app"@);
            joints_do_not_matter("iTerm"@, '.', "app"@);
            names_without_joints("iTerm"@);
            names_without_joints("app"@);
            assert(text::lowered("iTerm"@) =~= "iterm"@);
            assert(text::lowered("app"@) =~= "app"@);
            assert("iterm"@ + "app"@ =~= "itermapp"@);
        },
        TerminalName::GnomeTerminal => {
            reveal_strlit("gnome");
            reveal_strlit("terminal");
            reveal_strlit("gnome-terminal");
            reveal_strlit("gnometerminal");
            assert("gnome-terminal"@ =~= "gnome"@ + seq!['-'] + "terminal"@);
            unspaced_texts_stay("gnome-terminal"@);
            joints_do_not_matter("gnome"@, '-', "terminal"@);
            names_without_joints("gnome"@);
            names_without_joints("terminal"@);
            assert(text::lowered("gnome"@) =~= "gnome"@);
            assert(text::lowered("terminal"@) =~= "terminal"@);
            assert("gnome"@ + "terminal"@ =~= "gnometerminal"@);
        },
        TerminalName::Unknown => {},
    }
}

/// A terminal is recognised by its name, however it is written, and some by more than
/// one; other names are of no terminal that is known.
pub proof fn terminals_are_known_by_name(program: Seq<char>)
    ensures
        plain_name(text::trimmed(program)) == "appleterminal"@ ==> name_of_program(program) == Some(
            TerminalName::AppleTerminal,
        ),
        plain_name(text::trimmed(program)) == "ghostty"@ ==> name_of_program(program) == Some(
            TerminalName::Ghostty,
        ),
        plain_name(text::trimmed(program)) == "iterm"@ ==> name_of_program(program) == Some(
            TerminalName::Iterm2,
        ),
        plain_name(text::trimmed(program)) == "iterm2"@ ==> name_of_program(program) == Some(
            TerminalName::Iterm2,
        ),
        plain_name(text::trimmed(program)) == "itermapp"@ ==> name_of_program(program) == Some(
            TerminalName::Iterm2,
        ),
        plain_name(text::trimmed(program)) == "warp"@ ==> name_of_program(program) == Some(
            TerminalName::WarpTerminal,
        ),
        plain_name(text::trimmed(program)) == "warpterminal"@ ==> name_of_program(program) == Some(
            TerminalName::WarpTerminal,
        ),
        plain_name(text::trimmed(program)) == "vscode"@ ==> name_of_program(program) == Some(
            TerminalName::VsCode,
        ),
        plain_name(text::trimmed(program)) == "wezterm"@ ==> name_of_program(program) == Some(
            TerminalName::WezTerm,
        ),
        plain_name(text::trimmed(program)) == "kitty"@ ==> name_of_program(program) == Some(
            TerminalName::Kitty,
        ),
        plain_name(text::trimmed(program)) == "alacritty"@ ==> name_of_program(program) == Some(
            TerminalName::Alacritty,
        ),
        plain_name(text::trimmed(program)) == "konsole"@ ==> name_of_program(program) == Some(
            TerminalName::Konsole,
        ),
        plain_name(text::trimmed(program)) == "gnometerminal"@ ==> name_of_program(program) == Some(
            TerminalName::GnomeTerminal,
        ),
        plain_name(text::trimmed(program)) == "vte"@ ==> name_of_program(program) == Some(
            TerminalName::Vte,
        ),
        plain_name(text::trimmed(program)) == "windowsterminal"@ ==> name_of_program(program) == Some(
            TerminalName::WindowsTerminal,
        ),
        plain_name(text::trimmed(program)) == "dumb"@ ==> name_of_program(program) == Some(
            TerminalName::Dumb,
        ),
        plain_name(text::trimmed(program)).len() < 3 ==> name_or_unknown(program)
            == TerminalName::Unknown,
        name_of_program(program) is None ==> name_or_unknown(program) == TerminalName::Unknown,
        name_of_program(program) is Some ==> name_or_unknown(program) == name_of_program(
            program,
        )->Some_0,
{
    reveal_strlit("appleterminal");
    reveal_strlit("ghostty");
    reveal_strlit("iterm");
    reveal_strlit("iterm2");
    reveal_strlit("itermapp");
    reveal_strlit("warp");
    reveal_strlit("warpterminal");
    reveal_strlit("vscode");
    reveal_strlit("wezterm");
    reveal_strlit("kitty");
    reveal_strlit("alacritty");
    reveal_strlit("konsole");
    reveal_strlit("gnometerminal");
    reveal_strlit("vte");
    reveal_strlit("windowsterminal");
    reveal_strlit("dumb");
    assert("appleterminal"@.len() == 13);
    assert("ghostty"@.len() == 7);
    assert("iterm"@.len() == 5);
    assert("iterm2"@.len() == 6);
    assert("itermapp"@.len() == 8);
    assert("warp"@.len() == 4);
    assert("warpterminal"@.len() == 12);
    assert("vscode"@.len() == 6);
    assert("wezterm"@.len() == 7);
    assert("kitty"@.len() == 5);
    assert("alacritty"@.len() == 9);
    assert("konsole"@.len() == 7);
    assert("gnometerminal"@.len() == 13);
    assert("vte"@.len() == 3);
    assert("windowsterminal"@.len() == 15);
    assert("dumb"@.len() == 4);
    assert("appleterminal"@[0] != "gnometerminal"@[0]);
    assert("ghostty"@[0] != "wezterm"@[0]);
    assert("ghostty"@[0] != "konsole"@[0]);
    assert("iterm"@[0] != "kitty"@[0]);
    assert("iterm2"@[0] != "vscode"@[0]);
    assert("warp"@[0] != "dumb"@[0]);
    assert("wezterm"@[0] != "konsole"@[0]);

}

/// A session in tmux is known by its socket or its pane, one in Zellij by its own
/// variables; tmux goes first.
pub proof fn multiplexers_are_known_by_their_variables(env: Environment)
    ensures
        filled_var(env, "TMUX"@) is Some || filled_var(env, "TMUX_PANE"@) is Some
            <==> multiplexer_of(env) matches Some(MultiplexerView::Tmux { .. }),
        filled_var(env, "TMUX"@) is None && filled_var(env, "TMUX_PANE"@) is None && filled_var(
            env,
            "ZELLIJ"@,
        ) is Some ==> multiplexer_of(env) == Some(MultiplexerView::Zellij),
        filled_var(env, "TMUX"@) is None && filled_var(env, "TMUX_PANE"@) is None && filled_var(
            env,
            "ZELLIJ_SESSION_NAME"@,
        ) is Some ==> multiplexer_of(env) == Some(MultiplexerView::Zellij),
        filled_var(env, "TMUX"@) is None && filled_var(env, "TMUX_PANE"@) is None && filled_var(
            env,
            "ZELLIJ_VERSION"@,
        ) is Some ==> multiplexer_of(env) == Some(MultiplexerView::Zellij),
        filled_var(env, "TMUX"@) is None && filled_var(env, "TMUX_PANE"@) is None && filled_var(
            env,
            "ZELLIJ"@,
        ) is None && filled_var(env, "ZELLIJ_SESSION_NAME"@) is None && filled_var(
            env,
            "ZELLIJ_VERSION"@,
        ) is None ==> multiplexer_of(env) is None,
        multiplexer_of(env) matches Some(MultiplexerView::Tmux { version }) && version is Some
            ==> var_of(env, "TERM_PROGRAM"@) is Some && text::lowered(
            var_of(env, "TERM_PROGRAM"@)->Some_0,
        ) == "tmux"@,
{
}

/// Behind tmux the terminal is what tmux says of its client: the first word of the
/// type is the program and the second its version.
pub proof fn tmux_is_looked_through(
    termtype: Seq<char>,
    termname: Option<Seq<char>>,
    m: Option<MultiplexerView>,
)
    requires
        !text::is_blank(termtype),
    ensures
        ({
            let t = tmux_terminal(Some(termtype), termname, m)->Some_0;
            &&& tmux_terminal(Some(termtype), termname, m) is Some
            &&& (text::words_of(termtype).len() > 0 ==> t.program == Some(
                text::words_of(termtype)[0],
            ) && t.name == name_or_unknown(text::words_of(termtype)[0]))
            &&& (text::words_of(termtype).len() > 1 ==> t.version == Some(
                text::words_of(termtype)[1],
            ))
            &&& (text::words_of(termtype).len() == 1 ==> t.version is None)
            &&& t.multiplexer == m
        }),
        tmux_terminal(None, None, m) is None,
        termname is Some && !text::is_blank(termname->Some_0) ==> tmux_terminal(None, termname, m)
            == Some(by_term(termname->Some_0, m)) && tmux_terminal(
            Some(termtype),
            termname,
            m,
        )->Some_0.term == termname,
{
}

/// Without a program each terminal is known by a variable of its own, in a fixed order,
/// and those that tell a version there have it.
pub proof fn terminals_are_known_by_their_variables(env: Environment)
    requires
        filled_var(env, "TERM_PROGRAM"@) is None,
    ensures
        has_var(env, "WEZTERM_VERSION"@) ==> detected(env).name
            == TerminalName::WezTerm && detected(env).version == filled_var(env, "WEZTERM_VERSION"@),
        has_var(env, "ITERM_SESSION_ID"@) && !has_var(env, "WEZTERM_VERSION"@) ==> detected(env).name
            == TerminalName::Iterm2,
        has_var(env, "ITERM_PROFILE"@) && !has_var(env, "WEZTERM_VERSION"@) ==> detected(env).name
            == TerminalName::Iterm2,
        has_var(env, "ITERM_PROFILE_NAME"@) && !has_var(env, "WEZTERM_VERSION"@) ==> detected(env).name
            == TerminalName::Iterm2,
        has_var(env, "TERM_SESSION_ID"@) && !has_var(env, "WEZTERM_VERSION"@) && !has_var(env, "ITERM_SESSION_ID"@) && !has_var(env, "ITERM_PROFILE"@) && !has_var(env, "ITERM_PROFILE_NAME"@) ==> detected(env).name
            == TerminalName::AppleTerminal,
        has_var(env, "KITTY_WINDOW_ID"@) && !has_var(env, "WEZTERM_VERSION"@) && !has_var(env, "ITERM_SESSION_ID"@) && !has_var(env, "ITERM_PROFILE"@) && !has_var(env, "ITERM_PROFILE_NAME"@) && !has_var(env, "TERM_SESSION_ID"@) ==> detected(env).name
            == TerminalName::Kitty,
        has_var(env, "ALACRITTY_SOCKET"@) && !has_var(env, "WEZTERM_VERSION"@) && !has_var(env, "ITERM_SESSION_ID"@) && !has_var(env, "ITERM_PROFILE"@) && !has_var(env, "ITERM_PROFILE_NAME"@) && !has_var(env, "TERM_SESSION_ID"@) && !has_var(env, "KITTY_WINDOW_ID"@) && !term_has_kitty(env) ==> detected(env).name
            == TerminalName::Alacritty,
        has_var(env, "KONSOLE_VERSION"@) && !has_var(env, "WEZTERM_VERSION"@) && !has_var(env, "ITERM_SESSION_ID"@) && !has_var(env, "ITERM_PROFILE"@) && !has_var(env, "ITERM_PROFILE_NAME"@) && !has_var(env, "TERM_SESSION_ID"@) && !has_var(env, "KITTY_WINDOW_ID"@) && !has_var(env, "ALACRITTY_SOCKET"@) && !term_has_kitty(env) && var_of(env, "TERM"@) != Some("alacritty"@) ==> detected(env).name
            == TerminalName::Konsole && detected(env).version == filled_var(env, "KONSOLE_VERSION"@),
        has_var(env, "GNOME_TERMINAL_SCREEN"@) && !has_var(env, "WEZTERM_VERSION"@) && !has_var(env, "ITERM_SESSION_ID"@) && !has_var(env, "ITERM_PROFILE"@) && !has_var(env, "ITERM_PROFILE_NAME"@) && !has_var(env, "TERM_SESSION_ID"@) && !has_var(env, "KITTY_WINDOW_ID"@) && !has_var(env, "ALACRITTY_SOCKET"@) && !has_var(env, "KONSOLE_VERSION"@) && !term_has_kitty(env) && var_of(env, "TERM"@) != Some("alacritty"@) ==> detected(env).name
            == TerminalName::GnomeTerminal,
        has_var(env, "VTE_VERSION"@) && !has_var(env, "WEZTERM_VERSION"@) && !has_var(env, "ITERM_SESSION_ID"@) && !has_var(env, "ITERM_PROFILE"@) && !has_var(env, "ITERM_PROFILE_NAME"@) && !has_var(env, "TERM_SESSION_ID"@) && !has_var(env, "KITTY_WINDOW_ID"@) && !has_var(env, "ALACRITTY_SOCKET"@) && !has_var(env, "KONSOLE_VERSION"@) && !has_var(env, "GNOME_TERMINAL_SCREEN"@) && !term_has_kitty(env) && var_of(env, "TERM"@) != Some("alacritty"@) ==> detected(env).name
            == TerminalName::Vte && detected(env).version == filled_var(env, "VTE_VERSION"@),
        has_var(env, "WT_SESSION"@) && !has_var(env, "WEZTERM_VERSION"@) && !has_var(env, "ITERM_SESSION_ID"@) && !has_var(env, "ITERM_PROFILE"@) && !has_var(env, "ITERM_PROFILE_NAME"@) && !has_var(env, "TERM_SESSION_ID"@) && !has_var(env, "KITTY_WINDOW_ID"@) && !has_var(env, "ALACRITTY_SOCKET"@) && !has_var(env, "KONSOLE_VERSION"@) && !has_var(env, "GNOME_TERMINAL_SCREEN"@) && !has_var(env, "VTE_VERSION"@) && !term_has_kitty(env) && var_of(env, "TERM"@) != Some("alacritty"@) ==> detected(env).name
            == TerminalName::WindowsTerminal,
        detected(env).multiplexer == multiplexer_of(env),
        detected(env).program is None,
{
}

/// Where no variable tells the terminal, `TERM` does.
pub proof fn the_term_tells_the_terminal(term: Seq<char>, m: Option<MultiplexerView>)
    ensures
        by_term(term, m).term == Some(term),
        by_term(term, m).multiplexer == m,
        term == "dumb"@ ==> by_term(term, m).name == TerminalName::Dumb,
        term == "wezterm"@ || term == "wezterm-mux"@ ==> by_term(term, m).name
            == TerminalName::WezTerm,
        term != "dumb"@ && term != "wezterm"@ && term != "wezterm-mux"@ ==> by_term(term, m).name
            == TerminalName::Unknown,
{
    reveal_strlit("dumb");
    reveal_strlit("wezterm");
    reveal_strlit("wezterm-mux");
    assert("dumb"@.len() == 4);
    assert("wezterm"@.len() == 7);
    assert("wezterm-mux"@.len() == 11);

}

/// In the user agent stands the program with its version, or else the terminal's own
/// name; plain characters stay, any other becomes `_`.
pub proof fn tokens_tell_the_terminal(t: TerminalView, c: char)
    ensures
        t.program is Some && t.version is Some && t.version->Some_0.len() > 0 ==> agent_token(t)
            == token_text(t.program->Some_0 + "/"@ + t.version->Some_0),
        t.program is Some && t.version is None ==> agent_token(t) == token_text(t.program->Some_0),
        t.program is None && t.term is Some && t.term->Some_0.len() > 0 ==> agent_token(t)
            == token_text(t.term->Some_0),
        t.program is None && t.term is None && t.version is None ==> agent_token(t) == token_text(
            title_of(t.name).0,
        ),
        t.program is None && t.term is Some && t.term->Some_0.len() == 0 ==> agent_token(t)
            == agent_token(TerminalView { term: None, ..t }),
        t.version is Some && t.version->Some_0.len() == 0 ==> agent_token(t) == agent_token(
            TerminalView { version: None, ..t },
        ),
        t.program is None && t.term is None && (t.name == TerminalName::Kitty || t.name
            == TerminalName::Alacritty || t.name == TerminalName::GnomeTerminal || t.name
            == TerminalName::WindowsTerminal || t.name == TerminalName::Dumb || t.name
            == TerminalName::Unknown) ==> agent_token(t) == token_text(title_of(t.name).0),
        t.program is None && t.term is None && t.version is Some && t.version->Some_0.len() > 0 && (
        t.name == TerminalName::WezTerm || t.name == TerminalName::Konsole || t.name
            == TerminalName::Vte) ==> agent_token(t) == token_text(
            title_of(t.name).0 + "/"@ + t.version->Some_0,
        ),
        text::is_alphanumeric(c) || c == '-' || c == '_' || c == '.' || c == '/' ==> token_char(c)
            == c,
        !(text::is_alphanumeric(c) || c == '-' || c == '_' || c == '.' || c == '/') ==> token_char(c)
            == '_',
{
}

} // verus!
