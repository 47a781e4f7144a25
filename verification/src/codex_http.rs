//! How Codex presents itself to the service: its version, its originator and its
//! user agent.
use crate::accounts;
use crate::encoding;
use crate::search;
use crate::text;
use vstd::prelude::*;

verus! {

pub const CODEX_OAUTH_ORIGINATOR: &'static str = "codex_cli_rs";

pub const CODEX_APP_SERVER_DAEMON_CLIENT_NAME: &'static str = "codex_app_server_daemon";

pub const CODEX_INTERNAL_ORIGINATOR_OVERRIDE_ENV_VAR: &'static str = "CODEX_INTERNAL_ORIGINATOR_OVERRIDE";

pub const DEFAULT_CODEX_BIN: &'static str = "codex";

// ---------------------------------------------------------------------------
// Header values
// ---------------------------------------------------------------------------

/// A character that may stand in a header: anything but control characters,
/// where a tab is let through.
pub open spec fn is_header_char(c: char) -> bool {
    c == '\t' || (c as u32 >= 0x20 && c as u32 != 0x7f)
}

pub open spec fn is_header_text(s: Seq<char>) -> bool {
    forall|i: int| 0 <= i < s.len() ==> is_header_char(#[trigger] s[i])
}

/// `reqwest::header::HeaderValue::from_str`: it accepts a text whose bytes are
/// tabs, or at least 32 and not 127. In UTF-8 the bytes of a character beyond
/// ASCII are all at least 128, so what counts is each character.
#[verifier::external_body]
fn fits_header(s: &str) -> (r: bool)
    ensures
        r == is_header_text(s@),
{
    reqwest::header::HeaderValue::from_str(s).is_ok()
}

/// The originator: what the environment says, unless that fits no header.
pub open spec fn originator(configured: Option<Seq<char>>) -> Seq<char> {
    match configured {
        Some(v) => if is_header_text(v) {
            v
        } else {
            CODEX_OAUTH_ORIGINATOR@
        },
        None => CODEX_OAUTH_ORIGINATOR@,
    }
}

pub fn originator_value(configured: Option<&str>) -> (r: String)
    ensures
        r@ == originator(accounts::str_view(configured)),
{
    match configured {
        Some(v) => if fits_header(v) {
            v.to_owned()
        } else {
            CODEX_OAUTH_ORIGINATOR.to_owned()
        },
        None => CODEX_OAUTH_ORIGINATOR.to_owned(),
    }
}

/// Whatever the environment says, the originator fits a header.
pub proof fn originator_fits_header(configured: Option<Seq<char>>)
    ensures
        is_header_text(originator(configured)),
{
    reveal_strlit("codex_cli_rs");
}

pub open spec fn visible(c: char) -> char {
    if ' ' <= c <= '~' {
        c
    } else {
        '_'
    }
}

/// A text with every character beyond printable ASCII exchanged.
pub open spec fn made_visible(s: Seq<char>) -> Seq<char> {
    s.map_values(|c: char| visible(c))
}

/// A user agent that fits a header: as it is, or made to.
pub open spec fn safe_agent(candidate: Seq<char>) -> Seq<char> {
    if is_header_text(candidate) {
        candidate
    } else {
        made_visible(candidate)
    }
}

fn make_visible(s: &str) -> (r: String)
    ensures
        r@ == made_visible(s@),
{
    let v = text::to_chars(s);
    let mut r = String::new();
    let mut i: usize = 0;
    while i < v.len()
        invariant
            i <= v@.len(),
            r@ == made_visible(v@.take(i as int)),
        decreases v@.len() - i,
    {
        let ghost before = r@;
        let c: char = if ' ' <= v[i] && v[i] <= '~' {
            v[i]
        } else {
            '_'
        };
        r.push(c);
        assert(made_visible(v@.take(i as int + 1)) =~= before.push(visible(v@[i as int])));
        i = i + 1;
    }
    assert(v@.take(i as int) =~= v@);
    r
}

/// Makes a user agent fit a header. The fallback is for a text of which nothing
/// is left, which none that does not fit is.
pub fn sanitize_user_agent(candidate: String, fallback: &str) -> (r: String)
    ensures
        r@ == safe_agent(candidate@),
{
    if fits_header(candidate.as_str()) {
        return candidate;
    }
    let sanitized = make_visible(candidate.as_str());
    if sanitized.as_str().is_empty() {
        fallback.to_owned()
    } else {
        sanitized
    }
}

/// A user agent that was made to fit does fit, and is not empty.
pub proof fn safe_agents_fit_headers(candidate: Seq<char>)
    ensures
        is_header_text(safe_agent(candidate)),
        candidate.len() > 0 ==> safe_agent(candidate).len() > 0,
        safe_agent(safe_agent(candidate)) == safe_agent(candidate),
{
    let m = made_visible(candidate);
    assert forall|i: int| 0 <= i < m.len() implies is_header_char(#[trigger] m[i]) by {
        assert(m[i] == visible(candidate[i]));
    }
}

/// What the user agent is made of.
pub struct UserAgentParts {
    pub originator: String,
    pub version: String,
    pub os_type: String,
    pub os_version: String,
    pub architecture: Option<String>,
    pub terminal: String,
}

pub open spec fn agent_text(p: UserAgentParts) -> Seq<char> {
    p.originator@ + "/"@ + p.version@ + " ("@ + p.os_type@ + " "@ + p.os_version@ + "; "@
        + match p.architecture {
        Some(a) => a@,
        None => "unknown"@,
    } + ") "@ + p.terminal@
}

pub fn get_codex_user_agent(parts: &UserAgentParts) -> (r: String)
    ensures
        r@ == safe_agent(agent_text(*parts)),
{
    let arch: &str = match &parts.architecture {
        Some(a) => a.as_str(),
        None => "unknown",
    };
    let head = text::cat6(
        parts.originator.as_str(),
        "/",
        parts.version.as_str(),
        " (",
        parts.os_type.as_str(),
        " ",
    );
    let full = text::cat6(
        head.as_str(),
        parts.os_version.as_str(),
        "; ",
        arch,
        ") ",
        parts.terminal.as_str(),
    );
    let fallback = full.clone();
    sanitize_user_agent(full, fallback.as_str())
}

/// The headers that every request carries, by name and value.
pub fn codex_default_headers(originator: String, user_agent: String) -> (r: Vec<
    (&'static str, String),
>)
    ensures
        r@.len() >= 1,
        r@[0].0@ == "originator"@ && r@[0].1 == originator,
        is_header_text(user_agent@) ==> r@.len() == 2 && r@[1].0@ == "user-agent"@ && r@[1].1
            == user_agent,
        !is_header_text(user_agent@) ==> r@.len() == 1,
{
    let mut r: Vec<(&'static str, String)> = Vec::new();
    r.push(("originator", originator));
    if fits_header(user_agent.as_str()) {
        r.push(("user-agent", user_agent));
    }
    r
}

// ---------------------------------------------------------------------------
// Versions
// ---------------------------------------------------------------------------

/// What goes before the first of some character, or all of it.
pub open spec fn before(s: Seq<char>, c: char) -> Seq<char> {
    match text::cut_at(s, c) {
        Some((head, _)) => head,
        None => s,
    }
}

fn part_before(s: &str, c: char) -> (r: String)
    ensures
        r@ == before(s@, c),
{
    match text::split_once(s, c) {
        Some((head, _)) => head,
        None => s.to_owned(),
    }
}

/// Three numbers with dots between them, before any `-` or `+`.
pub open spec fn is_version(s: Seq<char>) -> bool {
    let parts = text::pieces_at(before(before(s, '-'), '+'), '.');
    &&& parts.len() == 3
    &&& forall|i: int|
        0 <= i < 3 ==> (#[trigger] parts[i]).len() > 0 && text::all_digits(parts[i])
}

fn is_number(s: &str) -> (r: bool)
    ensures
        r == (s@.len() > 0 && text::all_digits(s@)),
{
    let v = text::to_chars(s);
    let mut i: usize = 0;
    while i < v.len()
        invariant
            i <= v@.len(),
            v@ == s@,
            forall|k: int| 0 <= k < i ==> text::is_digit(#[trigger] v@[k]),
        decreases v@.len() - i,
    {
        if !text::digit(v[i]) {
            return false;
        }
        i = i + 1;
    }
    v.len() > 0
}

pub fn is_semver_like(value: &str) -> (r: bool)
    ensures
        r == is_version(value@),
{
    let numbers = part_before(part_before(value, '-').as_str(), '+');
    let parts = text::split_at(numbers.as_str(), '.');
    let ghost all = text::pieces_at(numbers@, '.');
    if parts.len() != 3 {
        return false;
    }
    proof {
        assert(text::views(parts@)[0] == parts@[0]@);
        assert(text::views(parts@)[1] == parts@[1]@);
        assert(text::views(parts@)[2] == parts@[2]@);
    }
    let r: bool = is_number(parts[0].as_str()) && is_number(parts[1].as_str()) && is_number(
        parts[2].as_str(),
    );
    assert(r == (all[0].len() > 0 && text::all_digits(all[0]) && all[1].len() > 0
        && text::all_digits(all[1]) && all[2].len() > 0 && text::all_digits(all[2])));
    r
}

pub open spec fn is_version_char(c: char) -> bool {
    text::is_alphanumeric(c) || c == '.' || c == '-' || c == '+'
}

pub open spec fn skip_foreign(s: Seq<char>) -> Seq<char>
    decreases s.len(),
{
    if s.len() > 0 && !is_version_char(s[0]) {
        skip_foreign(s.skip(1))
    } else {
        s
    }
}

pub open spec fn drop_foreign(s: Seq<char>) -> Seq<char>
    decreases s.len(),
{
    if s.len() > 0 && !is_version_char(s.last()) {
        drop_foreign(s.drop_last())
    } else {
        s
    }
}

/// A word without what cannot be part of a version at its ends.
pub open spec fn core_of(s: Seq<char>) -> Seq<char> {
    drop_foreign(skip_foreign(s))
}

fn version_char(c: char) -> (r: bool)
    ensures
        r == is_version_char(c),
{
    text::alphanumeric(c) || c == '.' || c == '-' || c == '+'
}

fn bare_word(s: &str) -> (r: String)
    ensures
        r@ == core_of(s@),
{
    let v = text::to_chars(s);
    let mut from: usize = 0;
    assert(s@.skip(0) =~= s@);
    while from < v.len() && !version_char(v[from])
        invariant
            from <= v@.len(),
            v@ == s@,
            skip_foreign(s@) == skip_foreign(s@.skip(from as int)),
        decreases v@.len() - from,
    {
        assert(s@.skip(from as int).skip(1) =~= s@.skip(from as int + 1));
        from = from + 1;
    }
    let ghost rest = s@.skip(from as int);
    assert(skip_foreign(s@) == rest);
    let mut to: usize = v.len();
    assert(rest.take(rest.len() as int) =~= rest);
    while to > from && !version_char(v[to - 1])
        invariant
            from <= to <= v@.len(),
            v@ == s@,
            rest == s@.skip(from as int),
            drop_foreign(rest) == drop_foreign(rest.take(to - from)),
        decreases to,
    {
        assert(rest.take(to - from).drop_last() =~= rest.take(to - from - 1));
        assert(rest.take(to - from).last() == v@[to - 1]);
        to = to - 1;
    }
    let r = text::from_chars(&v, from, to);
    assert(r@ =~= rest.take(to - from));
    if to > from {
        assert(rest.take(to - from).last() == v@[to - 1]);
    }
    r
}

/// A version that a word holds, without a `v` in front.
pub open spec fn version_in_word(word: Seq<char>) -> Option<Seq<char>> {
    let trimmed = core_of(word);
    let bare = match text::without_prefix(trimmed, "v"@) {
        Some(rest) => rest,
        None => trimmed,
    };
    if is_version(bare) {
        Some(bare)
    } else {
        None
    }
}

pub open spec fn word_version() -> spec_fn(Seq<char>) -> Option<Seq<char>> {
    |w: Seq<char>| version_in_word(w)
}

/// The first version in a line.
pub open spec fn version_in_line(line: Seq<char>) -> Option<Seq<char>> {
    search::find_map(text::words_of(line), word_version())
}

pub open spec fn line_version() -> spec_fn(Seq<char>) -> Option<Seq<char>> {
    |l: Seq<char>| version_in_line(l)
}

pub open spec fn codex_line_version() -> spec_fn(Seq<char>) -> Option<Seq<char>> {
    |l: Seq<char>|
        if text::has_text(text::lowered(l), "codex"@) {
            version_in_line(l)
        } else {
            None
        }
}

/// The first version in a line that speaks of Codex, else the first in any line.
pub open spec fn version_in_output(output: Seq<char>) -> Option<Seq<char>> {
    let lines = text::lines_of(output);
    match search::find_map(lines, codex_line_version()) {
        Some(v) => Some(v),
        None => search::find_map(lines, line_version()),
    }
}

fn version_of_word(word: &str) -> (r: Option<String>)
    ensures
        text::opt_view(r) == version_in_word(word@),
{
    let word = bare_word(word);
    let bare = match text::strip_prefix(word.as_str(), "v") {
        Some(rest) => rest,
        None => word,
    };
    if is_semver_like(bare.as_str()) {
        Some(bare)
    } else {
        None
    }
}

pub fn parse_version_from_line(line: &str) -> (r: Option<String>)
    ensures
        text::opt_view(r) == version_in_line(line@),
{
    let words = text::words(line);
    let ghost all = text::words_of(line@);
    let mut i: usize = 0;
    while i < words.len()
        invariant
            i <= words@.len(),
            text::views(words@) == all,
            all == text::words_of(line@),
            forall|k: int| 0 <= k < i ==> word_version()(#[trigger] all[k]) is None,
        decreases words@.len() - i,
    {
        assert(text::views(words@)[i as int] == words@[i as int]@);
        let found = version_of_word(words[i].as_str());
        if found.is_some() {
            proof {
                search::find_map_at(all, word_version(), i as int);
            }
            return found;
        }
        i = i + 1;
    }
    proof {
        search::find_map_absent(all, word_version());
    }
    None
}

fn first_version(lines: &Vec<String>, of_codex: bool) -> (r: Option<String>)
    ensures
        text::opt_view(r) == search::find_map(
            text::views(lines@),
            if of_codex {
                codex_line_version()
            } else {
                line_version()
            },
        ),
{
    let ghost all = text::views(lines@);
    let ghost f = if of_codex {
        codex_line_version()
    } else {
        line_version()
    };
    let mut i: usize = 0;
    while i < lines.len()
        invariant
            i <= lines@.len(),
            all == text::views(lines@),
            f == if of_codex {
                codex_line_version()
            } else {
                line_version()
            },
            forall|k: int| 0 <= k < i ==> f(#[trigger] all[k]) is None,
        decreases lines@.len() - i,
    {
        assert(all[i as int] == lines@[i as int]@);
        let lowered = text::to_lower(lines[i].as_str());
        if !of_codex || text::contains(lowered.as_str(), "codex") {
            let found = parse_version_from_line(lines[i].as_str());
            if found.is_some() {
                proof {
                    search::find_map_at(all, f, i as int);
                }
                return found;
            }
        }
        i = i + 1;
    }
    proof {
        search::find_map_absent(all, f);
    }
    None
}

pub fn parse_codex_version_output(output: &str) -> (r: Option<String>)
    ensures
        text::opt_view(r) == version_in_output(output@),
{
    let lines = text::lines(output);
    let found = first_version(&lines, true);
    if found.is_some() {
        found
    } else {
        first_version(&lines, false)
    }
}

/// What `codex --version` answered: both its outputs, where it ended well.
pub struct VersionProbe {
    pub success: bool,
    pub stdout: Vec<u8>,
    pub stderr: Vec<u8>,
}

pub open spec fn probed_version(probe: Option<VersionProbe>) -> Option<Seq<char>> {
    match probe {
        Some(p) => if p.success {
            version_in_output(
                encoding::text_of(p.stdout@) + "\n"@ + encoding::text_of(p.stderr@),
            )
        } else {
            None
        },
        None => None,
    }
}

pub fn detect_codex_version_from_probe(probe: &Option<VersionProbe>) -> (r: Option<String>)
    ensures
        text::opt_view(r) == probed_version(*probe),
{
    match probe {
        Some(p) => if p.success {
            let stdout = encoding::decode_lossy(&p.stdout);
            let stderr = encoding::decode_lossy(&p.stderr);
            let both = text::cat3(stdout.as_str(), "\n", stderr.as_str());
            parse_codex_version_output(both.as_str())
        } else {
            None
        },
        None => None,
    }
}

/// What is known of Codex in this process: each is found out once and kept.
pub struct CodexIdentity {
    pub codex_bin: Option<String>,
    pub detected: Option<Option<String>>,
    pub version: Option<String>,
}

impl CodexIdentity {
    pub fn new() -> (r: Self)
        ensures
            r.codex_bin is None,
            r.detected is None,
            r.version is None,
    {
        CodexIdentity { codex_bin: None, detected: None, version: None }
    }

    /// The program that is asked for its version.
    pub fn configured_bin(&self) -> (r: &str)
        ensures
            r@ == match self.codex_bin {
                Some(b) => b@,
                None => DEFAULT_CODEX_BIN@,
            },
    {
        match &self.codex_bin {
            Some(b) => b.as_str(),
            None => DEFAULT_CODEX_BIN,
        }
    }

    /// Whether the version still has to be asked for.
    pub fn needs_probe(&self) -> (r: bool)
        ensures
            r == self.detected is None,
    {
        self.detected.is_none()
    }
}

/// The identity with a binary, which only the first that is not blank sets.
pub open spec fn with_bin(identity: CodexIdentity, codex_bin: String) -> CodexIdentity {
    if identity.codex_bin is None && !text::is_blank(codex_bin@) {
        CodexIdentity { codex_bin: Some(codex_bin), ..identity }
    } else {
        identity
    }
}

/// The version that was detected, by the first probe.
pub open spec fn is_detected(
    before: CodexIdentity,
    after: CodexIdentity,
    probe: Option<VersionProbe>,
    r: Option<String>,
) -> bool {
    &&& after.codex_bin == before.codex_bin
    &&& after.version == before.version
    &&& after.detected is Some
    &&& r == after.detected->Some_0
    &&& match before.detected {
        Some(d) => after == before,
        None => text::opt_view(r) == probed_version(probe),
    }
}

/// The version that is told, which is settled once.
pub open spec fn is_settled(
    before: CodexIdentity,
    after: CodexIdentity,
    probe: Option<VersionProbe>,
    package_version: Seq<char>,
    r: String,
) -> bool {
    &&& after.codex_bin == before.codex_bin
    &&& after.version == Some(r)
    &&& match before.version {
        Some(v) => r == v && after == before,
        None => {
            let detected = match before.detected {
                Some(d) => text::opt_view(d),
                None => probed_version(probe),
            };
            &&& r@ == match detected {
                Some(v) => v,
                None => package_version,
            }
            &&& after.detected is Some
            &&& text::opt_view(after.detected->Some_0) == detected
        },
    }
}

/// Names the program, once: a blank name, and any after the first, is ignored.
pub fn set_codex_bin_for_user_agent(identity: &mut CodexIdentity, codex_bin: String)
    ensures
        *final(identity) == with_bin(*old(identity), codex_bin),
{
    if identity.codex_bin.is_none() && !text::blank(codex_bin.as_str()) {
        identity.codex_bin = Some(codex_bin);
    }
}

/// The version that Codex has, where it could be told. It is found out once.
pub fn detected_codex_version(identity: &mut CodexIdentity, probe: &Option<VersionProbe>) -> (r:
    Option<String>)
    ensures
        is_detected(*old(identity), *final(identity), *probe, r),
{
    match &identity.detected {
        Some(d) => text::clone_option(d),
        None => {
            let found = detect_codex_version_from_probe(probe);
            identity.detected = Some(text::clone_option(&found));
            found
        },
    }
}

/// The version to present: Codex's, else this program's. It is found out once.
pub fn codex_version(
    identity: &mut CodexIdentity,
    probe: &Option<VersionProbe>,
    package_version: &str,
) -> (r: String)
    ensures
        is_settled(*old(identity), *final(identity), *probe, package_version@, r),
{
    if let Some(v) = &identity.version {
        return v.clone();
    }
    let version = match detected_codex_version(identity, probe) {
        Some(v) => v,
        None => package_version.to_owned(),
    };
    identity.version = Some(version.clone());
    version
}

// ---------------------------------------------------------------------------
// Laws
// ---------------------------------------------------------------------------

/// The originator is what is configured, where a header can hold it.
pub proof fn originators_are_configured(v: Seq<char>)
    ensures
        is_header_text(v) ==> originator(Some(v)) == v,
        !is_header_text(v) ==> originator(Some(v)) == "codex_cli_rs"@,
        originator(None) == "codex_cli_rs"@,
{
}

/// A user agent that a header can hold stays; in any other each character that is not
/// plain becomes `_`, and the rest stays where it is.
pub proof fn agents_keep_plain_characters(candidate: Seq<char>, i: int)
    requires
        0 <= i < candidate.len(),
    ensures
        is_header_text(candidate) ==> safe_agent(candidate) == candidate,
        safe_agent(candidate).len() == candidate.len(),
        ' ' <= candidate[i] <= '~' ==> safe_agent(candidate)[i] == candidate[i],
        !is_header_text(candidate) && !(' ' <= candidate[i] <= '~') ==> safe_agent(candidate)[i]
            == '_',
{
}

/// A user agent tells the originator with the version first, then the system, and the
/// terminal last.
pub proof fn agents_tell_the_version_and_the_terminal(p: UserAgentParts)
    ensures
        text::begins_with(agent_text(p), p.originator@ + "/"@ + p.version@ + " ("@ + p.os_type@),
        text::finishes_with(agent_text(p), ") "@ + p.terminal@),
        p.architecture is Some ==> text::finishes_with(
            agent_text(p),
            p.os_version@ + "; "@ + p.architecture->Some_0@ + ") "@ + p.terminal@,
        ),
        p.architecture is None ==> text::finishes_with(
            agent_text(p),
            p.os_version@ + "; unknown) "@ + p.terminal@,
        ),
{
    let s = agent_text(p);
    let h = p.originator@ + "/"@ + p.version@ + " ("@ + p.os_type@;
    assert(s.subrange(0, h.len() as int) =~= h);
    let e = ") "@ + p.terminal@;
    assert(s.subrange(s.len() - e.len(), s.len() as int) =~= e);
    reveal_strlit("; unknown) ");
    reveal_strlit("; ");
    reveal_strlit("unknown");
    reveal_strlit(") ");
    let x = match p.architecture {
        Some(a) => p.os_version@ + "; "@ + a@ + ") "@ + p.terminal@,
        None => p.os_version@ + "; unknown) "@ + p.terminal@,
    };
    assert(s.subrange(s.len() - x.len(), s.len() as int) =~= x);
}

/// Requests carry the originator, and the user agent where a header can hold it.
pub proof fn requests_carry_both_headers(
    originator: String,
    user_agent: String,
    r: Vec<(&'static str, String)>,
)
    requires
        call_ensures(codex_default_headers, (originator, user_agent), r),
    ensures
        r@[0].0@ == "originator"@ && r@[0].1@ == originator@,
        is_header_text(user_agent@) ==> r@.len() == 2 && r@[1].0@ == "user-agent"@ && r@[1].1@
            == user_agent@,
        !is_header_text(user_agent@) ==> r@.len() == 1,
{
}

proof fn one_piece(s: Seq<char>, sep: char)
    requires
        !s.contains(sep),
    ensures
        text::pieces_at(s, sep) == seq![s],
    decreases s.len(),
{
    let f = text::is_char(sep);
    if s.len() > 0 {
        let t = s.drop_last();
        assert forall|i: int| 0 <= i < t.len() implies t[i] != sep by {
            assert(s.contains(s[i]));
        }
        one_piece(t, sep);
        assert(s.contains(s.last()));
        assert(!f(s.last()));
        assert(text::pieces(t, f).last() == t);
        assert(t.push(s.last()) =~= s);
        assert(text::pieces(s, f) =~= seq![s]);
    } else {
        assert(s =~= Seq::<char>::empty());
        assert(text::pieces(s, f) =~= seq![s]);
    }
}

proof fn one_piece_more(s: Seq<char>, sep: char, piece: Seq<char>)
    requires
        !piece.contains(sep),
    ensures
        text::pieces_at(s + seq![sep] + piece, sep) == text::pieces_at(s, sep).push(piece),
    decreases piece.len(),
{
    let f = text::is_char(sep);
    let all = s + seq![sep] + piece;
    text::pieces_not_empty(s, f);
    if piece.len() == 0 {
        assert(all.drop_last() =~= s);
        assert(f(all.last()));
        assert(piece =~= Seq::<char>::empty());
    } else {
        let t = piece.drop_last();
        assert forall|i: int| 0 <= i < t.len() implies t[i] != sep by {
            assert(piece.contains(piece[i]));
        }
        one_piece_more(s, sep, t);
        assert(all.drop_last() =~= s + seq![sep] + t);
        assert(piece.contains(piece.last()));
        assert(!f(all.last()));
        assert(t.push(piece.last()) =~= piece);
        assert(text::pieces(all, f) =~= text::pieces(s, f).push(piece));
    }
}

proof fn cut_before(s: Seq<char>, c: char, rest: Seq<char>)
    requires
        !s.contains(c),
    ensures
        before(s, c) == s,
        before(s + seq![c] + rest, c) == s,
{
    text::cuts_are_at_the_first(s, c);
    let all = s + seq![c] + rest;
    text::cuts_are_at_the_first(all, c);
    assert(all[s.len() as int] == c);
    assert(all.contains(c));
    let p = text::cut_at(all, c)->Some_0;
    if p.0.len() < s.len() {
        assert(all[p.0.len() as int] == c);
        assert(s[p.0.len() as int] == c);
    } else if p.0.len() > s.len() {
        assert(p.0[s.len() as int] == all[s.len() as int]);
        assert(p.0.contains(c));
    } else {
        let n = s.len() as int;
        assert(all.take(n) =~= s);
        assert((p.0 + seq![c] + p.1).take(n) =~= p.0);
    }
}

proof fn digits_hold_no_joint(s: Seq<char>, c: char)
    requires
        text::all_digits(s),
        c == '.' || c == '-' || c == '+',
    ensures
        !s.contains(c),
{
    if s.contains(c) {
        let i = choose|i: int| 0 <= i < s.len() && s[i] == c;
        assert(text::is_digit(s[i]));
    }
}

/// A version is three numbers with dots between them; what is behind a hyphen or a
/// plus does not matter, and two numbers or four are none.
pub proof fn versions_are_three_numbers(
    a: Seq<char>,
    b: Seq<char>,
    c: Seq<char>,
    d: Seq<char>,
    rest: Seq<char>,
)
    requires
        a.len() > 0 && b.len() > 0 && c.len() > 0 && d.len() > 0,
        text::all_digits(a) && text::all_digits(b) && text::all_digits(c) && text::all_digits(d),
    ensures
        is_version(a + seq!['.'] + b + seq!['.'] + c),
        is_version(a + seq!['.'] + b + seq!['.'] + c + seq!['-'] + rest),
        !rest.contains('-') ==> is_version(
            a + seq!['.'] + b + seq!['.'] + c + seq!['+'] + rest,
        ),
        !is_version(a),
        !is_version(a + seq!['.'] + b),
        !is_version(a + seq!['.'] + b + seq!['.'] + c + seq!['.'] + d),
{
    digits_hold_no_joint(a, '.');
    digits_hold_no_joint(b, '.');
    digits_hold_no_joint(c, '.');
    digits_hold_no_joint(d, '.');
    digits_hold_no_joint(a, '-');
    digits_hold_no_joint(b, '-');
    digits_hold_no_joint(c, '-');
    digits_hold_no_joint(d, '-');
    digits_hold_no_joint(a, '+');
    digits_hold_no_joint(b, '+');
    digits_hold_no_joint(c, '+');
    digits_hold_no_joint(d, '+');
    let two = a + seq!['.'] + b;
    let three = two + seq!['.'] + c;
    let four = three + seq!['.'] + d;
    one_piece(a, '.');
    one_piece_more(a, '.', b);
    one_piece_more(two, '.', c);
    one_piece_more(three, '.', d);
    assert(!two.contains('-') && !two.contains('+'));
    assert(!three.contains('-') && !three.contains('+'));
    assert(!four.contains('-') && !four.contains('+'));
    cut_before(a, '-', rest);
    cut_before(a, '+', rest);
    cut_before(two, '-', rest);
    cut_before(two, '+', rest);
    cut_before(three, '-', rest);
    cut_before(three, '+', rest);
    cut_before(four, '-', rest);
    cut_before(four, '+', rest);
    let parts = text::pieces_at(three, '.');
    assert(parts =~= seq![a, b, c]);
    assert(is_version(three));
    if !rest.contains('-') {
        let plus = three + seq!['+'] + rest;
        assert(!plus.contains('-')) by {
            if plus.contains('-') {
                let i = choose|i: int| 0 <= i < plus.len() && plus[i] == '-';
                if i < three.len() {
                    assert(three.contains(three[i]));
                } else if i > three.len() {
                    assert(rest.contains(rest[i - three.len() - 1]));
                }
            }
        }
        cut_before(plus, '-', rest);
    }
}

proof fn cores_lie_between(before: Seq<char>, core: Seq<char>, behind: Seq<char>)
    requires
        core.len() > 0,
        is_version_char(core[0]),
        is_version_char(core.last()),
        forall|i: int| 0 <= i < before.len() ==> !is_version_char(#[trigger] before[i]),
        forall|i: int| 0 <= i < behind.len() ==> !is_version_char(#[trigger] behind[i]),
    ensures
        core_of(before + core + behind) == core,
    decreases before.len() + behind.len(),
{
    let s = before + core + behind;
    if before.len() > 0 {
        assert(!is_version_char(before[0]));
        assert(s[0] == before[0]);
        assert(s.skip(1) =~= before.skip(1) + core + behind);
        cores_lie_between(before.skip(1), core, behind);
    } else {
        assert(s =~= core + behind);
        assert(s[0] == core[0]);
        if behind.len() > 0 {
            assert(!is_version_char(behind[behind.len() - 1]));
            let less = core + behind.drop_last();
            assert(s.drop_last() =~= less);
            assert(before + core + behind.drop_last() =~= less);
            cores_lie_between(before, core, behind.drop_last());
            assert(less[0] == core[0]);
            assert(skip_foreign(less) == less);
        } else {
            assert(s =~= core);
        }
    }
}

/// A version is found in a word with brackets or commas around it, and with a `v`
/// before it.
pub proof fn versions_are_found_in_words(before: Seq<char>, version: Seq<char>, behind: Seq<char>)
    requires
        is_version(version),
        version.len() > 0,
        text::is_digit(version[0]),
        is_version_char(version.last()),
        forall|i: int| 0 <= i < before.len() ==> !is_version_char(#[trigger] before[i]),
        forall|i: int| 0 <= i < behind.len() ==> !is_version_char(#[trigger] behind[i]),
    ensures
        version_in_word(before + version + behind) == Some(version),
        version_in_word(before + (seq!['v'] + version) + behind) == Some(version),
{
    reveal_strlit("v");
    assert("v"@ =~= seq!['v']);
    cores_lie_between(before, version, behind);
    let with = seq!['v'] + version;
    assert(with[0] == 'v');
    assert(with.last() == version.last());
    cores_lie_between(before, with, behind);
    assert(with.subrange(0, 1) =~= "v"@);
    assert(with.skip(1) =~= version);
    text::stripping_undoes_joining(version, "v"@);
    assert(!text::begins_with(version, "v"@)) by {
        if text::begins_with(version, "v"@) {
            assert(version.subrange(0, 1)[0] == 'v');
        }
    }
}

/// The first line that speaks of Codex and tells a version counts; where none does,
/// the first line that tells one.
pub proof fn codex_lines_count_first(output: Seq<char>, i: int)
    requires
        0 <= i < text::lines_of(output).len(),
        version_in_line(text::lines_of(output)[i]) is Some,
    ensures
        text::has_text(text::lowered(text::lines_of(output)[i]), "codex"@) && (forall|k: int|
            0 <= k < i ==> !text::has_text(
                text::lowered(#[trigger] text::lines_of(output)[k]),
                "codex"@,
            )) ==> version_in_output(output) == version_in_line(text::lines_of(output)[i]),
        (forall|k: int|
            0 <= k < text::lines_of(output).len() ==> !text::has_text(
                text::lowered(#[trigger] text::lines_of(output)[k]),
                "codex"@,
            )) && (forall|k: int|
            0 <= k < i ==> version_in_line(#[trigger] text::lines_of(output)[k]) is None)
            ==> version_in_output(output) == version_in_line(text::lines_of(output)[i]),
{
    let lines = text::lines_of(output);
    let f = codex_line_version();
    let g = line_version();
    if text::has_text(text::lowered(lines[i]), "codex"@) && (forall|k: int|
        0 <= k < i ==> !text::has_text(text::lowered(#[trigger] lines[k]), "codex"@)) {
        assert forall|k: int| 0 <= k < i implies f(#[trigger] lines[k]) is None by {}
        assert(f(lines[i]) is Some);
        search::find_map_at(lines, f, i);
    }
    if (forall|k: int|
        0 <= k < lines.len() ==> !text::has_text(text::lowered(#[trigger] lines[k]), "codex"@))
        && (forall|k: int| 0 <= k < i ==> version_in_line(#[trigger] lines[k]) is None) {
        assert forall|k: int| 0 <= k < lines.len() implies f(#[trigger] lines[k]) is None by {}
        search::find_map_absent(lines, f);
        assert forall|k: int| 0 <= k < i implies g(#[trigger] lines[k]) is None by {}
        assert(g(lines[i]) is Some);
        search::find_map_at(lines, g, i);
    }
}

/// A probe that failed tells no version; one that succeeded tells that of all that it
/// printed.
pub proof fn only_good_probes_tell(p: VersionProbe)
    ensures
        probed_version(None) is None,
        !p.success ==> probed_version(Some(p)) is None,
        p.success ==> probed_version(Some(p)) == version_in_output(
            encoding::text_of(p.stdout@) + "\n"@ + encoding::text_of(p.stderr@),
        ),
{
}

/// The binary is set once, by the first name that is not blank.
pub proof fn the_first_binary_counts(identity: CodexIdentity, first: String, second: String)
    requires
        identity.codex_bin is None,
        !text::is_blank(first@),
    ensures
        with_bin(identity, first).codex_bin == Some(first),
        with_bin(with_bin(identity, first), second) == with_bin(identity, first),
        with_bin(identity, first).version == identity.version,
        text::is_blank(second@) ==> with_bin(identity, second) == identity,
{
}

/// The version is settled once: whatever is probed later, the same is told. What was
/// detected goes before the version of the package.
pub proof fn versions_are_settled_once(
    identity: CodexIdentity,
    then: CodexIdentity,
    last: CodexIdentity,
    probe: Option<VersionProbe>,
    later: Option<VersionProbe>,
    package_version: Seq<char>,
    other_version: Seq<char>,
    r: String,
    again: String,
)
    requires
        identity.version is None,
        identity.detected is None,
        is_settled(identity, then, probe, package_version, r),
        is_settled(then, last, later, other_version, again),
    ensures
        again == r && last == then,
        probed_version(probe) is Some ==> r@ == probed_version(probe)->Some_0,
        probed_version(probe) is None ==> r@ == package_version,
        then.codex_bin == identity.codex_bin,
        then.detected is Some && text::opt_view(then.detected->Some_0) == probed_version(probe),
{
}

/// What was detected once is told again without another probe.
pub proof fn versions_are_detected_once(
    identity: CodexIdentity,
    then: CodexIdentity,
    last: CodexIdentity,
    probe: Option<VersionProbe>,
    later: Option<VersionProbe>,
    r: Option<String>,
    again: Option<String>,
)
    requires
        identity.detected is None,
        is_detected(identity, then, probe, r),
        is_detected(then, last, later, again),
    ensures
        text::opt_view(r) == probed_version(probe),
        again == r && last == then,
        then.codex_bin == identity.codex_bin && then.version == identity.version,
{
}

} // verus!
