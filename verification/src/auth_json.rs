//! Codex's `auth.json`: what is written to it for an account, and which account
//! is read from it.
use crate::accounts;
use crate::accounts::{AccountsStore, AuthData, AuthMode, NewChatGptAccount, StoredAccount, Timestamp};
use crate::calendar;
use crate::encoding;
use crate::json;
use crate::json::{Json, JsonModel};
use crate::record;
use crate::record::{Record, RecordView, Slot, SlotView};
use crate::runtime::login;
use crate::runtime::shown::Failure;
use crate::search;
use crate::text;
use crate::time;
use vstd::prelude::*;

verus! {

// ---------------------------------------------------------------------------
// Where it is
// ---------------------------------------------------------------------------

/// A path with a name behind it.
pub open spec fn path_in(base: Seq<char>, name: Seq<char>) -> Seq<char> {
    if base.len() == 0 {
        name
    } else if base.last() == '/' {
        base + name
    } else {
        base + "/"@ + name
    }
}

pub fn join_path(base: &str, name: &str) -> (r: String)
    ensures
        r@ == path_in(base@, name@),
{
    if base.is_empty() {
        return name.to_owned();
    }
    let v = text::to_chars(base);
    if v[v.len() - 1] == '/' {
        text::cat2(base, name)
    } else {
        text::cat3(base, "/", name)
    }
}

pub const NO_HOME: &'static str = "Could not find home directory";

/// Codex's directory: what the environment says, else one in the home directory.
pub open spec fn home_of(configured: Option<Seq<char>>, home: Option<Seq<char>>) -> Result<
    Seq<char>,
    Seq<char>,
> {
    if configured is Some && !text::is_blank(configured->Some_0) {
        Ok(configured->Some_0)
    } else {
        match home {
            Some(h) => Ok(path_in(h, ".codex"@)),
            None => Err(NO_HOME@),
        }
    }
}

pub open spec fn path_result(r: Result<String, String>) -> Result<Seq<char>, Seq<char>> {
    match r {
        Ok(p) => Ok(p@),
        Err(m) => Err(m@),
    }
}

pub fn codex_home(configured: Option<&str>, home: Option<&str>) -> (r: Result<String, String>)
    ensures
        path_result(r) == home_of(accounts::str_view(configured), accounts::str_view(home)),
{
    if let Some(c) = configured {
        if !text::blank(c) {
            return Ok(c.to_owned());
        }
    }
    match home {
        Some(h) => Ok(join_path(h, ".codex")),
        None => Err(NO_HOME.to_owned()),
    }
}

pub open spec fn auth_file_of(configured: Option<Seq<char>>, home: Option<Seq<char>>) -> Result<
    Seq<char>,
    Seq<char>,
> {
    match home_of(configured, home) {
        Ok(dir) => Ok(path_in(dir, "auth.json"@)),
        Err(m) => Err(m),
    }
}

pub fn codex_auth_file(configured: Option<&str>, home: Option<&str>) -> (r: Result<String, String>)
    ensures
        path_result(r) == auth_file_of(accounts::str_view(configured), accounts::str_view(home)),
{
    match codex_home(configured, home) {
        Ok(dir) => Ok(join_path(dir.as_str(), "auth.json")),
        Err(m) => Err(m),
    }
}

// ---------------------------------------------------------------------------
// What it holds
// ---------------------------------------------------------------------------

#[derive(Debug, Clone, Copy, PartialEq, Eq, Structural)]
pub enum AuthJsonAuthMode {
    ApiKey,
    Chatgpt,
    ChatgptAuthTokens,
    AgentIdentity,
}

impl AuthJsonAuthMode {
    pub open spec fn name(self) -> Seq<char> {
        match self {
            AuthJsonAuthMode::ApiKey => "apikey"@,
            AuthJsonAuthMode::Chatgpt => "chatgpt"@,
            AuthJsonAuthMode::ChatgptAuthTokens => "chatgptAuthTokens"@,
            AuthJsonAuthMode::AgentIdentity => "agentIdentity"@,
        }
    }

    pub fn as_str(self) -> (r: &'static str)
        ensures
            r@ == self.name(),
    {
        match self {
            AuthJsonAuthMode::ApiKey => "apikey",
            AuthJsonAuthMode::Chatgpt => "chatgpt",
            AuthJsonAuthMode::ChatgptAuthTokens => "chatgptAuthTokens",
            AuthJsonAuthMode::AgentIdentity => "agentIdentity",
        }
    }
}

pub struct TokenData {
    pub id_token: String,
    pub access_token: String,
    pub refresh_token: String,
    pub account_id: Option<String>,
}

pub struct AuthDotJson {
    pub auth_mode: Option<AuthJsonAuthMode>,
    pub openai_api_key: Option<String>,
    pub tokens: Option<TokenData>,
    pub last_refresh: Option<Timestamp>,
}

pub struct TokensView {
    pub id_token: Seq<char>,
    pub access_token: Seq<char>,
    pub refresh_token: Seq<char>,
    pub account_id: Option<Seq<char>>,
}

pub struct AuthView {
    pub mode: Option<AuthJsonAuthMode>,
    pub api_key: Option<Seq<char>>,
    pub tokens: Option<TokensView>,
    pub last_refresh: Option<Timestamp>,
}

impl View for TokenData {
    type V = TokensView;

    open spec fn view(&self) -> TokensView {
        TokensView {
            id_token: self.id_token@,
            access_token: self.access_token@,
            refresh_token: self.refresh_token@,
            account_id: text::opt_view(self.account_id),
        }
    }
}

pub open spec fn tokens_view(t: Option<TokenData>) -> Option<TokensView> {
    match t {
        Some(x) => Some(x@),
        None => None,
    }
}

impl View for AuthDotJson {
    type V = AuthView;

    open spec fn view(&self) -> AuthView {
        AuthView {
            mode: self.auth_mode,
            api_key: text::opt_view(self.openai_api_key),
            tokens: tokens_view(self.tokens),
            last_refresh: self.last_refresh,
        }
    }
}

// ---------------------------------------------------------------------------
// Reading
// ---------------------------------------------------------------------------

/// A text that may be left out or null; the outer `None` is for anything else.
pub open spec fn text_if_any(m: Option<JsonModel>) -> Option<Option<Seq<char>>> {
    match m {
        None => Some(None),
        Some(JsonModel::Null) => Some(None),
        Some(JsonModel::Text(s)) => Some(Some(s)),
        Some(_) => None,
    }
}

/// The mode that a name stands for.
pub open spec fn mode_of(name: Seq<char>) -> Option<AuthJsonAuthMode> {
    if name == "apikey"@ {
        Some(AuthJsonAuthMode::ApiKey)
    } else if name == "chatgpt"@ {
        Some(AuthJsonAuthMode::Chatgpt)
    } else if name == "chatgptAuthTokens"@ {
        Some(AuthJsonAuthMode::ChatgptAuthTokens)
    } else if name == "agentIdentity"@ {
        Some(AuthJsonAuthMode::AgentIdentity)
    } else {
        None
    }
}

fn read_mode(name: &str) -> (r: Option<AuthJsonAuthMode>)
    ensures
        r == mode_of(name@),
{
    if text::same(name, "apikey") {
        Some(AuthJsonAuthMode::ApiKey)
    } else if text::same(name, "chatgpt") {
        Some(AuthJsonAuthMode::Chatgpt)
    } else if text::same(name, "chatgptAuthTokens") {
        Some(AuthJsonAuthMode::ChatgptAuthTokens)
    } else if text::same(name, "agentIdentity") {
        Some(AuthJsonAuthMode::AgentIdentity)
    } else {
        None
    }
}

/// What a record has under a name, as a text that may be left out or null.
pub open spec fn optional_at(r: RecordView, name: Seq<char>) -> Option<Option<Seq<char>>> {
    match record::value_of(record::slot_of(r, name, name, 0)) {
        Some(m) => text_if_any(m),
        None => None,
    }
}

pub open spec fn required_at(r: RecordView, name: Seq<char>) -> Option<Seq<char>> {
    record::text_at(record::slot_of(r, name, name, 0))
}

pub open spec fn mode_in(r: RecordView) -> Option<Option<AuthJsonAuthMode>> {
    match optional_at(r, "auth_mode"@) {
        None => None,
        Some(None) => Some(None),
        Some(Some(name)) => match mode_of(name) {
            Some(mode) => Some(Some(mode)),
            None => None,
        },
    }
}

/// What a text says as tokens.
pub open spec fn tokens_of(t: Seq<char>) -> Option<TokensView> {
    match record::record_in(t) {
        Some(r) => match (
            required_at(r, "id_token"@),
            required_at(r, "access_token"@),
            required_at(r, "refresh_token"@),
            optional_at(r, "account_id"@),
        ) {
            (Some(id_token), Some(access_token), Some(refresh_token), Some(account_id)) => if r.is_list {
                None
            } else {
                Some(TokensView { id_token, access_token, refresh_token, account_id })
            },
            _ => None,
        },
        None => None,
    }
}

pub open spec fn tokens_in(r: RecordView) -> Option<Option<TokensView>> {
    match record::slot_of(r, "tokens"@, "tokens"@, 0) {
        SlotView::Missing => Some(None),
        SlotView::Repeated => None,
        SlotView::Found(t) => if t == "null"@ {
            Some(None)
        } else {
            match tokens_of(t) {
                Some(x) => Some(Some(x)),
                None => None,
            }
        },
    }
}

pub open spec fn last_refresh_in(r: RecordView) -> Option<Option<Timestamp>> {
    match optional_at(r, "last_refresh"@) {
        None => None,
        Some(None) => Some(None),
        Some(Some(s)) => match time::read_moment_of(s) {
            Some(t) => Some(Some(t)),
            None => None,
        },
    }
}

/// What a record says as an `auth.json`.
pub open spec fn auth_of(r: RecordView) -> Option<AuthView> {
    match (
        mode_in(r),
        optional_at(r, "OPENAI_API_KEY"@),
        tokens_in(r),
        last_refresh_in(r),
    ) {
        (Some(mode), Some(api_key), Some(tokens), Some(last_refresh)) => if r.is_list
            || record::slot_of(r, "agent_identity"@, "agent_identity"@, 0) is Repeated {
            None
        } else {
            Some(AuthView { mode, api_key, tokens, last_refresh })
        },
        _ => None,
    }
}

/// What a text says as an `auth.json`: a record, in which none of the keys stands
/// twice.
pub open spec fn auth_in(content: Seq<char>) -> Option<AuthView> {
    match record::read_as(content, 0) {
        Some(r) => auth_of(r),
        None => None,
    }
}

fn read_optional(r: &Record, name: &str) -> (found: Option<Option<String>>)
    requires
        r.wf(),
    ensures
        match found {
            Some(s) => optional_at(r@, name@) == Some(text::opt_view(s)),
            None => optional_at(r@, name@) is None,
        },
        slot_reads_back(r@, name@),
{
    let value = r.value(name, name, 0);
    match value {
        Some(None) => Some(None),
        Some(Some(Json::Null)) => Some(None),
        Some(Some(Json::Text(s))) => Some(Some(s)),
        _ => None,
    }
}

/// What was written under a name is read.
pub open spec fn slot_reads_back(r: RecordView, name: Seq<char>) -> bool {
    record::slot_of(r, name, name, 0) matches SlotView::Found(t) ==> json::reads_back(
        json::parsed(t),
        t,
    )
}

fn read_tokens(t: &str) -> (r: Option<TokenData>)
    ensures
        tokens_view(r) == tokens_of(t@),
        forall|x: TokensView| t@ == #[trigger] json::rendered(tokens_model(x)) ==> tokens_of(t@)
            == Some(x),
{
    let found = record::members(t);
    proof {
        assert forall|x: TokensView| t@ == #[trigger] json::rendered(
            tokens_model(x),
        ) implies record::is_written(t@, tokens_model(x)->Object_0) by {
            let e = tokens_model(x)->Object_0;
            assert(record::is_light(e[0].1) && record::is_light(e[1].1) && record::is_light(e[2].1)
                && record::is_light(e[3].1));
        }
    }
    match found {
        Some(r) => {
            let id = r.text("id_token", "id_token", 0);
            let access = r.text("access_token", "access_token", 0);
            let refresh = r.text("refresh_token", "refresh_token", 0);
            let account = read_optional(&r, "account_id");
            proof {
                assert forall|x: TokensView| t@ == #[trigger] json::rendered(
                    tokens_model(x),
                ) implies tokens_of(t@) == Some(x) by {
                    assert(record::is_written(t@, tokens_model(x)->Object_0));
                    tokens_read_back(r@, x);
                }
            }
            if r.is_list {
                return None;
            }
            match (id, access, refresh, account) {
                (Some(id_token), Some(access_token), Some(refresh_token), Some(account_id)) => Some(
                    TokenData { id_token, access_token, refresh_token, account_id },
                ),
                _ => None,
            }
        },
        None => {
            proof {
                assert forall|x: TokensView| t@ == #[trigger] json::rendered(
                    tokens_model(x),
                ) implies tokens_of(t@) == Some(x) by {
                    assert(record::is_written(t@, tokens_model(x)->Object_0));
                }
            }
            None
        },
    }
}

pub open spec fn auth_view(a: Option<AuthDotJson>) -> Option<AuthView> {
    match a {
        Some(x) => Some(x@),
        None => None,
    }
}

pub open spec fn are_tokens(r: Option<Option<TokenData>>, expected: Option<Option<TokensView>>) -> bool {
    match (r, expected) {
        (Some(t), Some(x)) => tokens_view(t) == x,
        (None, None) => true,
        _ => false,
    }
}

fn read_tokens_in(r: &Record) -> (found: Option<Option<TokenData>>)
    requires
        r.wf(),
    ensures
        are_tokens(found, tokens_in(r@)),
        forall|x: TokensView|
            record::slot_of(r@, "tokens"@, "tokens"@, 0) == SlotView::Found(
                #[trigger] json::rendered(tokens_model(x)),
            ) ==> tokens_in(r@) == Some(Some(x)),
{
    match r.slot("tokens", "tokens", 0) {
        Slot::Missing => Some(None),
        Slot::Repeated => None,
        Slot::Found(t) => {
            let found = read_tokens(t);
            proof {
                reveal_strlit("null");
                reveal_strlit("{");
                assert forall|x: TokensView| t@ == #[trigger] json::rendered(
                    tokens_model(x),
                ) implies t@ != "null"@ by {
                    assert(json::rendered(tokens_model(x))[0] == '{');
                    assert("null"@[0] == 'n');
                }
            }
            if text::same(t, "null") {
                return Some(None);
            }
            match found {
                Some(x) => Some(Some(x)),
                None => None,
            }
        },
    }
}

/// Reads a text as an `auth.json`.
pub fn read_auth(content: &str) -> (r: Option<AuthDotJson>)
    ensures
        auth_view(r) == auth_in(content@),
        forall|v: AuthView|
            content@ == json::pretty_text(#[trigger] auth_model(v)) && is_writable(v)
                ==> auth_view(r) == Some(v),
{
    let found = record::read_record(content, 0);
    proof {
        assert forall|v: AuthView|
            content@ == json::pretty_text(#[trigger] auth_model(v)) implies found is Some
            && found->Some_0@ == record::record_of(auth_model(v)->Object_0) by {
            auth_is_plain(v);
            auth_is_flat(v);
        }
    }
    let found = match found {
        Some(found) => found,
        None => {
            return None;
        },
    };
    let mode_name = read_optional(&found, "auth_mode");
    let api_key = read_optional(&found, "OPENAI_API_KEY");
    let refresh = read_optional(&found, "last_refresh");
    let tokens = read_tokens_in(&found);
    let agent = found.slot("agent_identity", "agent_identity", 0);
    let auth_mode: Option<Option<AuthJsonAuthMode>> = match mode_name {
        Some(Some(name)) => match read_mode(name.as_str()) {
            Some(mode) => Some(Some(mode)),
            None => None,
        },
        Some(None) => Some(None),
        None => None,
    };
    let last_refresh: Option<Option<Timestamp>> = match &refresh {
        Some(Some(s)) => match time::read_moment(s.as_str()) {
            Some(t) => Some(Some(t)),
            None => None,
        },
        Some(None) => Some(None),
        None => None,
    };
    proof {
        assert forall|v: AuthView|
            content@ == json::pretty_text(#[trigger] auth_model(v)) && is_writable(v) implies auth_of(
            found@,
        ) == Some(v) by {
            auth_reads_back(found@, v);
            if v.last_refresh is Some {
                let t = v.last_refresh->Some_0;
                assert(time::written_moment(t) == Some(refresh->Some_0->Some_0@));
                assert(time::read_moment_of(refresh->Some_0->Some_0@) == Some(t));
            }
        }
    }
    let repeated: bool = match agent {
        Slot::Repeated => true,
        _ => false,
    };
    if found.is_list || repeated {
        return None;
    }
    match (auth_mode, api_key, tokens, last_refresh) {
        (Some(auth_mode), Some(openai_api_key), Some(tokens), Some(last_refresh)) => Some(
            AuthDotJson { auth_mode, openai_api_key, tokens, last_refresh },
        ),
        _ => None,
    }
}

// ---------------------------------------------------------------------------
// Writing
// ---------------------------------------------------------------------------

pub open spec fn tokens_model(t: TokensView) -> JsonModel {
    JsonModel::Object(
        seq![
            ("access_token"@, JsonModel::Text(t.access_token)),
            ("account_id"@, json::optional_text(t.account_id)),
            ("id_token"@, JsonModel::Text(t.id_token)),
            ("refresh_token"@, JsonModel::Text(t.refresh_token)),
        ],
    )
}

pub open spec fn mode_model(mode: Option<AuthJsonAuthMode>) -> Option<JsonModel> {
    match mode {
        Some(x) => Some(JsonModel::Text(x.name())),
        None => None,
    }
}

pub open spec fn refresh_model(t: Option<Timestamp>) -> Option<JsonModel> {
    match t {
        Some(x) => match time::written_moment(x) {
            Some(s) => Some(JsonModel::Text(s)),
            None => None,
        },
        None => None,
    }
}

pub open spec fn tokens_entry(t: Option<TokensView>) -> Option<JsonModel> {
    match t {
        Some(x) => Some(tokens_model(x)),
        None => None,
    }
}

/// What is written for an `auth.json`: what is absent is left out, but for the
/// API key, which is null then.
pub open spec fn auth_model(v: AuthView) -> JsonModel {
    JsonModel::Object(
        seq![("OPENAI_API_KEY"@, json::optional_text(v.api_key))] + json::entry_if(
            "auth_mode"@,
            mode_model(v.mode),
        ) + json::entry_if("last_refresh"@, refresh_model(v.last_refresh)) + json::entry_if(
            "tokens"@,
            tokens_entry(v.tokens),
        ),
    )
}

/// The time of the last refresh can be written and read back.
pub open spec fn is_writable(v: AuthView) -> bool {
    v.last_refresh matches Some(t) ==> time::is_sound(t) && time::written_moment(t) is Some
}

proof fn keys_differ()
    ensures
        "OPENAI_API_KEY"@.len() == 14,
        "auth_mode"@.len() == 9,
        "last_refresh"@.len() == 12,
        "tokens"@.len() == 6,
        "access_token"@.len() == 12,
        "account_id"@.len() == 10,
        "id_token"@.len() == 8,
        "refresh_token"@.len() == 13,
{
    reveal_strlit("OPENAI_API_KEY");
    reveal_strlit("auth_mode");
    reveal_strlit("last_refresh");
    reveal_strlit("tokens");
    reveal_strlit("access_token");
    reveal_strlit("account_id");
    reveal_strlit("id_token");
    reveal_strlit("refresh_token");
}

proof fn slot_at(e: Seq<(Seq<char>, JsonModel)>, key: Seq<char>, i: int)
    requires
        0 <= i < e.len(),
        e[i].0 == key,
        forall|k: int| 0 <= k < e.len() && k != i ==> (#[trigger] e[k]).0 != key,
    ensures
        record::slot_of(record::record_of(e), key, key, 0) == SlotView::Found(
            json::rendered(e[i].1),
        ),
{
    let keys = record::record_of(e).keys;
    let p = record::is_named(key, key);
    assert forall|k: int| 0 <= k < i implies !p(#[trigger] keys[k]) by {
        assert(e[k].0 != key);
    }
    search::first_index_unique(keys, p, i);
    let rest = keys.skip(i + 1);
    assert forall|k: int| 0 <= k < rest.len() implies !p(#[trigger] rest[k]) by {
        assert(e[i + 1 + k].0 != key);
    }
    search::first_index_absent(rest, p);
}

proof fn slot_absent(e: Seq<(Seq<char>, JsonModel)>, key: Seq<char>)
    requires
        forall|k: int| 0 <= k < e.len() ==> (#[trigger] e[k]).0 != key,
    ensures
        record::slot_of(record::record_of(e), key, key, 0) == SlotView::Missing,
{
    let keys = record::record_of(e).keys;
    assert forall|k: int| 0 <= k < keys.len() implies !record::is_named(key, key)(
        #[trigger] keys[k],
    ) by {
        assert(e[k].0 != key);
    }
    search::first_index_absent(keys, record::is_named(key, key));
}

proof fn slot_if(e: Seq<(Seq<char>, JsonModel)>, key: Seq<char>, i: int, there: bool)
    requires
        there ==> 0 <= i < e.len() && e[i].0 == key,
        forall|k: int| 0 <= k < e.len() && !(there && k == i) ==> (#[trigger] e[k]).0 != key,
    ensures
        record::slot_of(record::record_of(e), key, key, 0) == if there {
            SlotView::Found(json::rendered(e[i].1))
        } else {
            SlotView::Missing
        },
{
    if there {
        slot_at(e, key, i);
    } else {
        slot_absent(e, key);
    }
}

pub open spec fn written_slot(m: Option<JsonModel>) -> SlotView {
    match m {
        Some(x) => SlotView::Found(json::rendered(x)),
        None => SlotView::Missing,
    }
}

/// Where the parts of what was written stand.
proof fn slots_of_auth(v: AuthView)
    ensures
        ({
            let r = record::record_of(auth_model(v)->Object_0);
            &&& record::slot_of(r, "OPENAI_API_KEY"@, "OPENAI_API_KEY"@, 0) == written_slot(
                Some(json::optional_text(v.api_key)),
            )
            &&& record::slot_of(r, "auth_mode"@, "auth_mode"@, 0) == written_slot(
                mode_model(v.mode),
            )
            &&& record::slot_of(r, "last_refresh"@, "last_refresh"@, 0) == written_slot(
                refresh_model(v.last_refresh),
            )
            &&& record::slot_of(r, "tokens"@, "tokens"@, 0) == written_slot(tokens_entry(v.tokens))
            &&& record::slot_of(r, "agent_identity"@, "agent_identity"@, 0) == SlotView::Missing
        }),
{
    keys_differ();
    reveal_strlit("OPENAI_API_KEY");
    reveal_strlit("agent_identity");
    assert("OPENAI_API_KEY"@[0] == 'O' && "agent_identity"@[0] == 'a');
    let e = auth_model(v)->Object_0;
    let a = if v.mode is Some {
        1int
    } else {
        0int
    };
    let b = if refresh_model(v.last_refresh) is Some {
        1int
    } else {
        0int
    };
    assert(e[0].0 == "OPENAI_API_KEY"@);
    assert(a == 1 ==> e[1].0 == "auth_mode"@);
    assert(b == 1 ==> e[1 + a].0 == "last_refresh"@);
    assert(v.tokens is Some ==> e[1 + a + b].0 == "tokens"@);
    slot_if(e, "OPENAI_API_KEY"@, 0, true);
    slot_if(e, "auth_mode"@, 1, v.mode is Some);
    slot_if(e, "last_refresh"@, 1 + a, b == 1);
    slot_if(e, "tokens"@, 1 + a + b, v.tokens is Some);
    slot_if(e, "agent_identity"@, 0, false);
}

proof fn tokens_read_back(r: RecordView, t: TokensView)
    requires
        r == record::record_of(tokens_model(t)->Object_0),
        slot_reads_back(r, "id_token"@),
        slot_reads_back(r, "access_token"@),
        slot_reads_back(r, "refresh_token"@),
        slot_reads_back(r, "account_id"@),
    ensures
        required_at(r, "id_token"@) == Some(t.id_token),
        required_at(r, "access_token"@) == Some(t.access_token),
        required_at(r, "refresh_token"@) == Some(t.refresh_token),
        optional_at(r, "account_id"@) == Some(t.account_id),
{
    keys_differ();
    let e = tokens_model(t)->Object_0;
    slot_at(e, "access_token"@, 0);
    slot_at(e, "account_id"@, 1);
    slot_at(e, "id_token"@, 2);
    slot_at(e, "refresh_token"@, 3);
    plain_text(t.id_token);
    plain_text(t.access_token);
    plain_text(t.refresh_token);
    assert(json::is_plain(json::optional_text(t.account_id), 100));
}

proof fn plain_text(s: Seq<char>)
    ensures
        json::is_plain(JsonModel::Text(s), 100),
{
}

proof fn mode_reads_back(mode: AuthJsonAuthMode)
    ensures
        mode_of(mode.name()) == Some(mode),
{
    reveal_strlit("apikey");
    reveal_strlit("chatgpt");
    reveal_strlit("chatgptAuthTokens");
    reveal_strlit("agentIdentity");
    assert("apikey"@.len() == 6 && "chatgpt"@.len() == 7 && "chatgptAuthTokens"@.len() == 17
        && "agentIdentity"@.len() == 13);
}

proof fn auth_reads_back(r: RecordView, v: AuthView)
    requires
        r == record::record_of(auth_model(v)->Object_0),
        is_writable(v),
        slot_reads_back(r, "auth_mode"@),
        slot_reads_back(r, "OPENAI_API_KEY"@),
        slot_reads_back(r, "last_refresh"@),
        v.tokens matches Some(x) ==> (record::slot_of(r, "tokens"@, "tokens"@, 0)
            == SlotView::Found(json::rendered(tokens_model(x))) ==> tokens_in(r) == Some(Some(x))),
    ensures
        mode_in(r) == Some(v.mode),
        optional_at(r, "OPENAI_API_KEY"@) == Some(v.api_key),
        tokens_in(r) == Some(v.tokens),
        optional_at(r, "last_refresh"@) == Some(
            match v.last_refresh {
                Some(t) => time::written_moment(t),
                None => None,
            },
        ),
        record::slot_of(r, "agent_identity"@, "agent_identity"@, 0) == SlotView::Missing,
{
    slots_of_auth(v);
    assert(json::is_plain(json::optional_text(v.api_key), 100));
    if v.mode is Some {
        mode_reads_back(v.mode->Some_0);
        plain_text(v.mode->Some_0.name());
    }
    if v.last_refresh is Some {
        plain_text(time::written_moment(v.last_refresh->Some_0)->Some_0);
    }
}

fn tokens_to_json(t: &TokenData) -> (r: Json)
    ensures
        r@ == tokens_model(t@),
{
    json::object4(
        "access_token",
        json::text_value(t.access_token.as_str()),
        "account_id",
        json::optional_text_value(&t.account_id),
        "id_token",
        json::text_value(t.id_token.as_str()),
        "refresh_token",
        json::text_value(t.refresh_token.as_str()),
    )
}

pub fn auth_to_json(auth: &AuthDotJson) -> (r: Json)
    ensures
        r@ == auth_model(auth@),
{
    let mut entries: Vec<(String, Json)> = Vec::new();
    assert(json::entries_view(entries@) =~= Seq::empty());
    json::add_entry(&mut entries, "OPENAI_API_KEY", json::optional_text_value(&auth.openai_api_key));
    let ghost e1 = json::entries_view(entries@);
    if let Some(mode) = auth.auth_mode {
        json::add_entry(&mut entries, "auth_mode", json::text_value(mode.as_str()));
    }
    assert(json::entries_view(entries@) =~= e1 + json::entry_if(
        "auth_mode"@,
        mode_model(auth@.mode),
    ));
    let ghost e2 = json::entries_view(entries@);
    if let Some(t) = auth.last_refresh {
        if let Some(s) = time::write_moment(t) {
            json::add_entry(&mut entries, "last_refresh", json::text_value(s.as_str()));
        }
    }
    assert(json::entries_view(entries@) =~= e2 + json::entry_if(
        "last_refresh"@,
        refresh_model(auth@.last_refresh),
    ));
    let ghost e3 = json::entries_view(entries@);
    if let Some(t) = &auth.tokens {
        json::add_entry(&mut entries, "tokens", tokens_to_json(t));
    }
    assert(json::entries_view(entries@) =~= e3 + json::entry_if("tokens"@, tokens_entry(auth@.tokens)));
    let r = json::object(entries);
    assert(r@->Object_0 =~= auth_model(auth@)->Object_0);
    r
}

// ---------------------------------------------------------------------------
// Identity tokens
// ---------------------------------------------------------------------------

/// What an identity token says of its owner.
pub struct IdTokenClaims {
    pub email: Option<String>,
    pub plan_type: Option<String>,
    pub user_id: Option<String>,
    pub account_id: Option<String>,
    pub account_is_fedramp: bool,
    pub subscription_expires_at: Option<Timestamp>,
}

pub struct ClaimsView {
    pub email: Option<Seq<char>>,
    pub plan_type: Option<Seq<char>>,
    pub user_id: Option<Seq<char>>,
    pub account_id: Option<Seq<char>>,
    pub account_is_fedramp: bool,
    pub subscription_expires_at: Option<Timestamp>,
}

impl View for IdTokenClaims {
    type V = ClaimsView;

    open spec fn view(&self) -> ClaimsView {
        ClaimsView {
            email: text::opt_view(self.email),
            plan_type: text::opt_view(self.plan_type),
            user_id: text::opt_view(self.user_id),
            account_id: text::opt_view(self.account_id),
            account_is_fedramp: self.account_is_fedramp,
            subscription_expires_at: self.subscription_expires_at,
        }
    }
}

pub const CLAIMS_KEY: &'static str = "https://api.openai.com/auth";

pub const INVALID_ID_TOKEN: &'static str = "invalid ID token";

pub open spec fn claim(m: JsonModel, key: Seq<char>) -> Option<Seq<char>> {
    json::text_at(json::field2(m, CLAIMS_KEY@, key))
}

pub open spec fn claims_in(m: JsonModel) -> ClaimsView {
    ClaimsView {
        email: json::text_at(json::field(m, "email"@)),
        plan_type: claim(m, "chatgpt_plan_type"@),
        user_id: claim(m, "chatgpt_user_id"@),
        account_id: claim(m, "chatgpt_account_id"@),
        account_is_fedramp: json::field2(m, CLAIMS_KEY@, "chatgpt_account_is_fedramp"@) == Some(
            JsonModel::Bool(true),
        ),
        subscription_expires_at: match claim(m, "chatgpt_subscription_active_until"@) {
            Some(s) => time::read_moment_of(s),
            None => None,
        },
    }
}

/// The object in a token: it has three parts with dots between them, the second
/// of which is the object in Base64.
pub open spec fn payload_of(token: Seq<char>) -> Option<JsonModel> {
    let parts = text::pieces_at(token, '.');
    if parts.len() != 3 {
        None
    } else {
        match encoding::base64url_text(parts[1]) {
            Some(s) => match json::parsed(s) {
                Some(m) => if m is Object {
                    Some(m)
                } else {
                    None
                },
                None => None,
            },
            None => None,
        }
    }
}

fn read_payload(token: &str) -> (r: Option<Json>)
    ensures
        match r {
            Some(j) => payload_of(token@) == Some(j@),
            None => payload_of(token@) is None,
        },
{
    let parts = text::split_at(token, '.');
    if parts.len() != 3 {
        assert(text::views(parts@).len() == parts@.len());
        return None;
    }
    assert(text::views(parts@)[1] == parts@[1]@);
    match encoding::decode_base64url_text(parts[1].as_str()) {
        Some(payload) => match json::parse_json(payload.as_str()) {
            Some(Json::Object(entries)) => Some(Json::Object(entries)),
            _ => None,
        },
        None => None,
    }
}

/// What a token says.
pub open spec fn claims_of(token: Seq<char>) -> Option<ClaimsView> {
    match payload_of(token) {
        Some(m) => Some(claims_in(m)),
        None => None,
    }
}

/// When a token ends, where it says so: whole seconds since the Unix epoch.
pub open spec fn token_end(token: Seq<char>) -> Option<Timestamp> {
    match payload_of(token) {
        Some(m) => match json::field(m, "exp"@) {
            Some(JsonModel::Number(s)) => match text::unsigned_value(s) {
                Some(n) => time::moment_of(n, 0),
                None => None,
            },
            _ => None,
        },
        None => None,
    }
}

pub fn access_token_expires_at(token: &str) -> (r: Option<Timestamp>)
    ensures
        r == token_end(token@),
{
    match read_payload(token) {
        Some(value) => match value.get("exp") {
            Some(Json::Number(s)) => match text::parse_u64(s.as_str()) {
                Some(n) => {
                    if n > 9_223_372_036_854_775 {
                        return None;
                    }
                    time::from_parts(n as i64, 0)
                },
                None => None,
            },
            _ => None,
        },
        None => None,
    }
}

/// When the access token of an account ends, where it has one and that says so.
pub open spec fn account_token_end(account: StoredAccount) -> Option<Timestamp> {
    match account.auth_data {
        AuthData::ChatGPT { access_token, .. } => token_end(access_token@),
        AuthData::ApiKey { .. } => None,
    }
}

pub fn account_token_expires_at(account: &StoredAccount) -> (r: Option<Timestamp>)
    ensures
        r == account_token_end(*account),
{
    match &account.auth_data {
        AuthData::ChatGPT { access_token, .. } => access_token_expires_at(access_token.as_str()),
        AuthData::ApiKey { .. } => None,
    }
}

fn read_claim(value: &Json, key: &str) -> (r: Option<String>)
    ensures
        text::opt_view(r) == claim(value@, key@),
{
    match json::text_in(value.get2(CLAIMS_KEY, key)) {
        Some(s) => Some(s.to_owned()),
        None => None,
    }
}

fn read_claims(value: &Json) -> (r: IdTokenClaims)
    ensures
        r@ == claims_in(value@),
{
    let email = match json::text_in(value.get("email")) {
        Some(s) => Some(s.to_owned()),
        None => None,
    };
    let account_is_fedramp: bool = match value.get2(CLAIMS_KEY, "chatgpt_account_is_fedramp") {
        Some(Json::Bool(b)) => *b,
        _ => false,
    };
    let subscription_expires_at = match read_claim(value, "chatgpt_subscription_active_until") {
        Some(s) => time::read_moment(s.as_str()),
        None => None,
    };
    IdTokenClaims {
        email,
        plan_type: read_claim(value, "chatgpt_plan_type"),
        user_id: read_claim(value, "chatgpt_user_id"),
        account_id: read_claim(value, "chatgpt_account_id"),
        account_is_fedramp,
        subscription_expires_at,
    }
}

pub fn try_parse_chatgpt_id_token_claims(id_token: &str) -> (r: Result<IdTokenClaims, String>)
    ensures
        match r {
            Ok(c) => claims_of(id_token@) == Some(c@),
            Err(m) => claims_of(id_token@) is None && m@ == INVALID_ID_TOKEN@,
        },
{
    match read_payload(id_token) {
        Some(value) => Ok(read_claims(&value)),
        None => Err(INVALID_ID_TOKEN.to_owned()),
    }
}

/// What a token says, or nothing where it is invalid.
pub open spec fn claims_or_none(token: Seq<char>) -> ClaimsView {
    match claims_of(token) {
        Some(c) => c,
        None => ClaimsView {
            email: None,
            plan_type: None,
            user_id: None,
            account_id: None,
            account_is_fedramp: false,
            subscription_expires_at: None,
        },
    }
}

pub fn parse_chatgpt_id_token_claims(id_token: &str) -> (r: IdTokenClaims)
    ensures
        r@ == claims_or_none(id_token@),
{
    match try_parse_chatgpt_id_token_claims(id_token) {
        Ok(c) => c,
        Err(_) => IdTokenClaims {
            email: None,
            plan_type: None,
            user_id: None,
            account_id: None,
            account_is_fedramp: false,
            subscription_expires_at: None,
        },
    }
}

// ---------------------------------------------------------------------------
// Import
// ---------------------------------------------------------------------------

pub const UNREADABLE: &'static str = "Failed to parse auth.json contents";

pub const NO_API_KEY: &'static str = "API key auth.json is missing OPENAI_API_KEY";

pub const NO_TOKENS: &'static str = "ChatGPT auth.json is missing tokens";

pub const BAD_ID_TOKEN: &'static str = "ChatGPT auth.json contains an invalid id_token";

pub const EXTERNAL_TOKENS: &'static str = "externally managed ChatGPT auth token auth.json files are not supported by codex-switch";

pub const AGENT_IDENTITY: &'static str = "agent identity auth.json files are not supported by codex-switch";

/// The mode that counts: the one that is named, else the one that fits.
pub open spec fn resolved_mode(v: AuthView) -> AuthJsonAuthMode {
    match v.mode {
        Some(m) => m,
        None => if v.api_key is Some {
            AuthJsonAuthMode::ApiKey
        } else {
            AuthJsonAuthMode::Chatgpt
        },
    }
}

/// Why no account can be read.
pub open spec fn import_error(v: Option<AuthView>) -> Option<Seq<char>> {
    match v {
        None => Some(UNREADABLE@),
        Some(a) => match resolved_mode(a) {
            AuthJsonAuthMode::ApiKey => if a.api_key is None {
                Some(NO_API_KEY@)
            } else {
                None
            },
            AuthJsonAuthMode::Chatgpt => match a.tokens {
                None => Some(NO_TOKENS@),
                Some(t) => if claims_of(t.id_token) is None {
                    Some(BAD_ID_TOKEN@)
                } else {
                    None
                },
            },
            AuthJsonAuthMode::ChatgptAuthTokens => Some(EXTERNAL_TOKENS@),
            AuthJsonAuthMode::AgentIdentity => Some(AGENT_IDENTITY@),
        },
    }
}

/// The same, with what lies behind it.
pub open spec fn import_detail(v: Option<AuthView>) -> Option<Seq<char>> {
    match (v, import_error(v)) {
        (Some(a), Some(m)) => if resolved_mode(a) == AuthJsonAuthMode::Chatgpt && a.tokens is Some {
            Some(m + ": "@ + INVALID_ID_TOKEN@)
        } else {
            Some(m)
        },
        (_, m) => m,
    }
}

/// `first`, or `second` where there is no first.
pub open spec fn or(first: Option<Seq<char>>, second: Option<Seq<char>>) -> Option<Seq<char>> {
    match first {
        Some(s) => Some(s),
        None => second,
    }
}

/// The account is the one that the file describes.
pub open spec fn is_imported(
    account: StoredAccount,
    a: AuthView,
    name: Seq<char>,
    id: Seq<char>,
    now: Timestamp,
) -> bool {
    &&& account.id@ == id
    &&& account.name@ == name
    &&& account.created_at == now
    &&& account.last_used_at is None
    &&& !account.auto_switch_disabled
    &&& match resolved_mode(a) {
        AuthJsonAuthMode::ApiKey => {
            &&& account.auth_mode == AuthMode::ApiKey
            &&& account.auth_data matches AuthData::ApiKey { key } && Some(key@) == a.api_key
            &&& account.email is None && account.plan_type is None
            &&& account.chatgpt_user_id is None && account.token_last_refresh_at is None
            &&& !account.chatgpt_account_is_fedramp && account.subscription_expires_at is None
        },
        _ => {
            let t = a.tokens->Some_0;
            let c = claims_of(t.id_token)->Some_0;
            &&& account.auth_mode == AuthMode::ChatGPT
            &&& account.auth_data matches AuthData::ChatGPT {
                id_token,
                access_token,
                refresh_token,
                account_id,
            } && id_token@ == t.id_token && access_token@ == t.access_token && refresh_token@
                == t.refresh_token && text::opt_view(account_id) == or(t.account_id, c.account_id)
            &&& account.token_last_refresh_at == Some(
                match a.last_refresh {
                    Some(x) => x,
                    None => now,
                },
            )
            &&& text::opt_view(account.email) == c.email
            &&& text::opt_view(account.plan_type) == c.plan_type
            &&& text::opt_view(account.chatgpt_user_id) == c.user_id
            &&& account.chatgpt_account_is_fedramp == c.account_is_fedramp
            &&& account.subscription_expires_at == c.subscription_expires_at
        },
    }
}

fn plain_failure(message: &str) -> (r: Failure)
    ensures
        r.message@ == message@,
        r.detail@ == message@,
{
    Failure { message: message.to_owned(), detail: message.to_owned() }
}

fn import_tokens(
    tokens: TokenData,
    last_refresh: Option<Timestamp>,
    account_name: String,
    id: String,
    now: Timestamp,
) -> (r: Result<StoredAccount, Failure>)
    ensures
        match r {
            Ok(account) => claims_of(tokens.id_token@) is Some && is_imported(
                account,
                AuthView {
                    mode: Some(AuthJsonAuthMode::Chatgpt),
                    api_key: None,
                    tokens: Some(tokens@),
                    last_refresh,
                },
                account_name@,
                id@,
                now,
            ),
            Err(e) => claims_of(tokens.id_token@) is None && e.message@ == BAD_ID_TOKEN@
                && e.detail@ == BAD_ID_TOKEN@ + ": "@ + INVALID_ID_TOKEN@,
        },
{
    let claims = match try_parse_chatgpt_id_token_claims(tokens.id_token.as_str()) {
        Ok(c) => c,
        Err(m) => {
            return Err(
                Failure {
                    message: BAD_ID_TOKEN.to_owned(),
                    detail: text::cat3(BAD_ID_TOKEN, ": ", m.as_str()),
                },
            );
        },
    };
    let account_id = match tokens.account_id {
        Some(a) => Some(a),
        None => claims.account_id,
    };
    let token_last_refresh_at = match last_refresh {
        Some(t) => t,
        None => now,
    };
    Ok(
        StoredAccount::new_chatgpt(
            id,
            NewChatGptAccount {
                name: account_name,
                email: claims.email,
                plan_type: claims.plan_type,
                chatgpt_user_id: claims.user_id,
                chatgpt_account_is_fedramp: claims.account_is_fedramp,
                token_last_refresh_at,
                subscription_expires_at: claims.subscription_expires_at,
                id_token: tokens.id_token,
                access_token: tokens.access_token,
                refresh_token: tokens.refresh_token,
                account_id,
            },
            now,
        ),
    )
}

/// The account that an `auth.json` describes.
pub fn account_from_auth(
    auth: AuthDotJson,
    account_name: String,
    id: String,
    now: Timestamp,
) -> (r: Result<StoredAccount, Failure>)
    ensures
        match r {
            Ok(account) => import_error(Some(auth@)) is None && is_imported(
                account,
                auth@,
                account_name@,
                id@,
                now,
            ),
            Err(e) => import_error(Some(auth@)) == Some(e.message@) && import_detail(Some(auth@))
                == Some(e.detail@),
        },
{
    let mode: AuthJsonAuthMode = match auth.auth_mode {
        Some(m) => m,
        None => if auth.openai_api_key.is_some() {
            AuthJsonAuthMode::ApiKey
        } else {
            AuthJsonAuthMode::Chatgpt
        },
    };
    match mode {
        AuthJsonAuthMode::ApiKey => match auth.openai_api_key {
            Some(key) => Ok(StoredAccount::new_api_key(id, account_name, key, now)),
            None => Err(plain_failure(NO_API_KEY)),
        },
        AuthJsonAuthMode::Chatgpt => match auth.tokens {
            Some(tokens) => import_tokens(tokens, auth.last_refresh, account_name, id, now),
            None => Err(plain_failure(NO_TOKENS)),
        },
        AuthJsonAuthMode::ChatgptAuthTokens => Err(plain_failure(EXTERNAL_TOKENS)),
        AuthJsonAuthMode::AgentIdentity => Err(plain_failure(AGENT_IDENTITY)),
    }
}

/// The account that an `auth.json` holds. What was exported for an account is
/// imported as the same login again.
pub fn import_from_auth_json_contents(
    content: &str,
    account_name: String,
    id: String,
    now: Timestamp,
) -> (r: Result<StoredAccount, Failure>)
    ensures
        match r {
            Ok(account) => import_error(auth_in(content@)) is None && is_imported(
                account,
                auth_in(content@)->Some_0,
                account_name@,
                id@,
                now,
            ),
            Err(e) => import_error(auth_in(content@)) == Some(e.message@) && import_detail(
                auth_in(content@),
            ) == Some(e.detail@),
        },
        forall|a: StoredAccount|
            #![trigger exported_text(a)]
            exported_text(a) == Some(content@) && can_return(a) ==> (r matches Ok(b)
                && same_login(a, b) && b.auth_mode == mode_of_data(a.auth_data) && b.name@
                == account_name@),
{
    let auth: Option<AuthDotJson> = read_auth(content);
    proof {
        assert forall|a: StoredAccount|
            #![trigger exported_text(a)]
            exported_text(a) == Some(content@) && can_return(a) implies auth_view(auth) == exported(
            a,
        ) by {
            let v = exported(a)->Some_0;
            assert(content@ == json::pretty_text(auth_model(v)));
            assert(is_writable(v));
        }
    }
    match auth {
        Some(a) => account_from_auth(a, account_name, id, now),
        None => Err(plain_failure(UNREADABLE)),
    }
}

// ---------------------------------------------------------------------------
// Export
// ---------------------------------------------------------------------------

pub const BAD_STORED_ID_TOKEN: &'static str = "Stored ChatGPT account contains an invalid id_token";

pub open spec fn mode_of_data(data: AuthData) -> AuthMode {
    match data {
        AuthData::ApiKey { .. } => AuthMode::ApiKey,
        AuthData::ChatGPT { .. } => AuthMode::ChatGPT,
    }
}

/// What is written for an account; nothing, where its identity token is invalid.
pub open spec fn exported(a: StoredAccount) -> Option<AuthView> {
    match a.auth_data {
        AuthData::ApiKey { key } => Some(
            AuthView {
                mode: Some(AuthJsonAuthMode::ApiKey),
                api_key: Some(key@),
                tokens: None,
                last_refresh: None,
            },
        ),
        AuthData::ChatGPT { id_token, access_token, refresh_token, account_id } => if claims_of(
            id_token@,
        ) is None {
            None
        } else {
            Some(
                AuthView {
                    mode: Some(AuthJsonAuthMode::Chatgpt),
                    api_key: None,
                    tokens: Some(
                        TokensView {
                            id_token: id_token@,
                            access_token: access_token@,
                            refresh_token: refresh_token@,
                            account_id: text::opt_view(account_id),
                        },
                    ),
                    last_refresh: a.token_last_refresh_at,
                },
            )
        },
    }
}

/// The text that is written for an account.
pub open spec fn exported_text(a: StoredAccount) -> Option<Seq<char>> {
    match exported(a) {
        Some(v) => Some(json::pretty_text(auth_model(v))),
        None => None,
    }
}

/// An account of which the file says everything: an API key, or a ChatGPT login with
/// its account and the time of its refresh, in the calendar.
pub open spec fn can_return(a: StoredAccount) -> bool {
    match a.auth_data {
        AuthData::ApiKey { .. } => true,
        AuthData::ChatGPT { account_id, .. } => {
            &&& account_id is Some
            &&& a.token_last_refresh_at matches Some(t) && time::is_sound(t)
                && calendar::in_calendar(time::seconds_of(t))
        },
    }
}

/// The login is the same, apart from the times of an API key, which are not written.
pub open spec fn same_login(a: StoredAccount, b: StoredAccount) -> bool {
    match a.auth_data {
        AuthData::ApiKey { key } => b.auth_data matches AuthData::ApiKey { key: other } && key@
            == other@,
        AuthData::ChatGPT { .. } => login::same_credentials(a, b),
    }
}

proof fn keys_ascend()
    ensures
        json::is_less("OPENAI_API_KEY"@, "auth_mode"@),
        json::is_less("auth_mode"@, "last_refresh"@),
        json::is_less("auth_mode"@, "tokens"@),
        json::is_less("OPENAI_API_KEY"@, "last_refresh"@),
        json::is_less("OPENAI_API_KEY"@, "tokens"@),
        json::is_less("last_refresh"@, "tokens"@),
        json::is_less("access_token"@, "account_id"@),
        json::is_less("account_id"@, "id_token"@),
        json::is_less("id_token"@, "refresh_token"@),
{
    reveal_strlit("OPENAI_API_KEY");
    reveal_strlit("auth_mode");
    reveal_strlit("last_refresh");
    reveal_strlit("tokens");
    reveal_strlit("access_token");
    reveal_strlit("account_id");
    reveal_strlit("id_token");
    reveal_strlit("refresh_token");
    reveal_with_fuel(json::is_less, 4);
    let a = "access_token"@;
    let b = "account_id"@;
    assert(a.drop_first()[0] == 'c' && b.drop_first()[0] == 'c');
    assert(a.drop_first().drop_first()[0] == 'c' && b.drop_first().drop_first()[0] == 'c');
    assert(a.drop_first().drop_first().drop_first()[0] == 'e');
    assert(b.drop_first().drop_first().drop_first()[0] == 'o');
}

/// One more entry, with a later key.
proof fn entry_is_plain(entries: Seq<(Seq<char>, JsonModel)>, n: int, depth: int)
    requires
        0 < n <= entries.len(),
        json::entries_are_plain(entries.take(n - 1), depth),
        json::is_plain(entries[n - 1].1, depth),
        n > 1 ==> json::is_less(entries[n - 2].0, entries[n - 1].0),
    ensures
        json::entries_are_plain(entries.take(n), depth),
{
    assert(entries.take(n).drop_last() =~= entries.take(n - 1));
}

proof fn tokens_are_plain(t: TokensView)
    ensures
        json::is_plain(tokens_model(t), 99),
{
    keys_ascend();
    let e = tokens_model(t)->Object_0;
    assert(json::is_plain(e[0].1, 98));
    assert(json::is_plain(e[1].1, 98));
    assert(json::is_plain(e[2].1, 98));
    assert(json::is_plain(e[3].1, 98));
    assert(json::entries_are_plain(e.take(0), 98));
    entry_is_plain(e, 1, 98);
    entry_is_plain(e, 2, 98);
    entry_is_plain(e, 3, 98);
    entry_is_plain(e, 4, 98);
    assert(e.take(4) =~= e);
}

proof fn auth_is_flat(v: AuthView)
    ensures
        auth_model(v) is Object,
        auth_model(v)->Object_0.len() > 0,
        record::are_flat(auth_model(v)->Object_0),
{
    let e = auth_model(v)->Object_0;
    if v.tokens is Some {
        let inner = tokens_model(v.tokens->Some_0)->Object_0;
        assert(record::is_light(inner[0].1) && record::is_light(inner[1].1) && record::is_light(
            inner[2].1,
        ) && record::is_light(inner[3].1));
        assert(record::are_light(inner));
    }
}

proof fn auth_is_plain(v: AuthView)
    ensures
        json::is_plain(auth_model(v), 100),
{
    keys_ascend();
    let e = auth_model(v)->Object_0;
    let a = if v.mode is Some {
        1int
    } else {
        0int
    };
    let b = if refresh_model(v.last_refresh) is Some {
        1int
    } else {
        0int
    };
    assert(json::is_plain(e[0].1, 99));
    assert(json::entries_are_plain(e.take(0), 99));
    entry_is_plain(e, 1, 99);
    if a == 1 {
        assert(e[1].0 == "auth_mode"@ && json::is_plain(e[1].1, 99));
        entry_is_plain(e, 2, 99);
    }
    if b == 1 {
        assert(e[1 + a].0 == "last_refresh"@ && json::is_plain(e[1 + a].1, 99));
        entry_is_plain(e, 2 + a, 99);
    }
    if v.tokens is Some {
        tokens_are_plain(v.tokens->Some_0);
        assert(e[1 + a + b].0 == "tokens"@ && json::is_plain(e[1 + a + b].1, 99));
        entry_is_plain(e, 2 + a + b, 99);
    }
    assert(e.take(e.len() as int) =~= e);
}

/// What is said of an account whose id token cannot be read.
pub open spec fn is_export_failure(e: Failure) -> bool {
    e.message@ == BAD_STORED_ID_TOKEN@ && e.detail@ == BAD_STORED_ID_TOKEN@ + ": "@
        + INVALID_ID_TOKEN@
}

pub fn create_auth_json(account: &StoredAccount) -> (r: Result<AuthDotJson, Failure>)
    ensures
        match r {
            Ok(a) => exported(*account) == Some(a@),
            Err(e) => exported(*account) is None && is_export_failure(e),
        },
{
    match &account.auth_data {
        AuthData::ApiKey { key } => Ok(
            AuthDotJson {
                auth_mode: Some(AuthJsonAuthMode::ApiKey),
                openai_api_key: Some(key.clone()),
                tokens: None,
                last_refresh: None,
            },
        ),
        AuthData::ChatGPT { id_token, access_token, refresh_token, account_id } => {
            match try_parse_chatgpt_id_token_claims(id_token.as_str()) {
                Ok(_) => {},
                Err(m) => {
                    return Err(
                        Failure {
                            message: BAD_STORED_ID_TOKEN.to_owned(),
                            detail: text::cat3(BAD_STORED_ID_TOKEN, ": ", m.as_str()),
                        },
                    );
                },
            }
            Ok(
                AuthDotJson {
                    auth_mode: Some(AuthJsonAuthMode::Chatgpt),
                    openai_api_key: None,
                    tokens: Some(
                        TokenData {
                            id_token: id_token.clone(),
                            access_token: access_token.clone(),
                            refresh_token: refresh_token.clone(),
                            account_id: text::clone_option(account_id),
                        },
                    ),
                    last_refresh: account.token_last_refresh_at,
                },
            )
        },
    }
}

pub fn account_auth_json_content(account: &StoredAccount) -> (r: Result<String, Failure>)
    ensures
        match r {
            Ok(s) => exported_text(*account) == Some(s@),
            Err(e) => exported_text(*account) is None && is_export_failure(e),
        },
{
    match create_auth_json(account) {
        Ok(auth) => {
            let value = auth_to_json(&auth);
            Ok(value.render_file())
        },
        Err(e) => Err(e),
    }
}

/// A file that has to be written.
pub struct AuthWrite {
    pub path: String,
    pub content: String,
    /// A file that is there already is replaced; else the write is refused.
    pub replace: bool,
}

/// What has to be written so that Codex is logged in with an account.
pub fn write_account_auth(
    account: &StoredAccount,
    configured: Option<&str>,
    home: Option<&str>,
) -> (r: Result<AuthWrite, Failure>)
    ensures
        ({
            let path = auth_file_of(accounts::str_view(configured), accounts::str_view(home));
            match r {
                Ok(w) => path == Ok::<_, Seq<char>>(w.path@) && exported_text(*account) == Some(
                    w.content@,
                ) && w.replace,
                Err(e) => match path {
                    Err(m) => e.message@ == m && e.detail@ == m,
                    Ok(_) => exported_text(*account) is None && is_export_failure(e),
                },
            }
        }),
{
    let path = match codex_auth_file(configured, home) {
        Ok(p) => p,
        Err(m) => {
            return Err(plain_failure(m.as_str()));
        },
    };
    match account_auth_json_content(account) {
        Ok(content) => Ok(AuthWrite { path, content, replace: true }),
        Err(e) => Err(e),
    }
}

/// What has to be written to hand an account out as a file.
pub fn export_account_auth(account: &StoredAccount, path: &str, force: bool) -> (r: Result<
    AuthWrite,
    Failure,
>)
    ensures
        match r {
            Ok(w) => exported_text(*account) == Some(w.content@) && w.path@ == path@ && w.replace
                == force,
            Err(e) => exported_text(*account) is None && is_export_failure(e),
        },
{
    match account_auth_json_content(account) {
        Ok(content) => Ok(AuthWrite { path: path.to_owned(), content, replace: force }),
        Err(e) => Err(e),
    }
}

// ---------------------------------------------------------------------------
// The current account
// ---------------------------------------------------------------------------

pub const CURRENT_AUTH_NAME: &'static str = "current-auth";

/// What is said of a file that holds no account.
pub open spec fn unparsed(path: Seq<char>) -> Seq<char> {
    "Failed to parse auth.json: "@ + path
}

/// The account that a file holds; `content` is what was read from `path`.
pub fn import_from_auth_json(
    path: &str,
    content: &str,
    account_name: String,
    id: String,
    now: Timestamp,
) -> (r: Result<StoredAccount, Failure>)
    ensures
        match r {
            Ok(account) => import_error(auth_in(content@)) is None && is_imported(
                account,
                auth_in(content@)->Some_0,
                account_name@,
                id@,
                now,
            ),
            Err(e) => import_error(auth_in(content@)) is Some && e.message@ == unparsed(path@)
                && e.detail@ == unparsed(path@) + ": "@ + import_detail(auth_in(content@))->Some_0,
        },
{
    match import_from_auth_json_contents(content, account_name, id, now) {
        Ok(a) => Ok(a),
        Err(inner) => {
            let message = text::cat2("Failed to parse auth.json: ", path);
            let detail = text::cat3(message.as_str(), ": ", inner.detail.as_str());
            Err(Failure { message, detail })
        },
    }
}

/// The account that Codex is logged in with: `content` is what its file at
/// `path` holds, where there is one.
pub fn current_auth_account(path: &str, content: Option<&str>, id: String, now: Timestamp) -> (r:
    Result<Option<StoredAccount>, Failure>)
    ensures
        match (content, r) {
            (None, _) => r == Ok::<_, Failure>(None::<StoredAccount>),
            (Some(c), Ok(account)) => account is Some && import_error(auth_in(c@)) is None
                && is_imported(
                account->Some_0,
                auth_in(c@)->Some_0,
                CURRENT_AUTH_NAME@,
                id@,
                now,
            ),
            (Some(c), Err(e)) => import_error(auth_in(c@)) is Some && e.message@ == unparsed(path@)
                && e.detail@ == unparsed(path@) + ": "@ + import_detail(auth_in(c@))->Some_0,
        },
{
    match content {
        Some(c) => match import_from_auth_json(path, c, CURRENT_AUTH_NAME.to_owned(), id, now) {
            Ok(a) => Ok(Some(a)),
            Err(e) => Err(e),
        },
        None => Ok(None),
    }
}

/// The stored account that Codex is logged in with: `auth` is what its file
/// holds, where there is one.
pub open spec fn stored_for(accounts: Seq<StoredAccount>, auth: Option<StoredAccount>) -> Option<
    StoredAccount,
> {
    match auth {
        Some(a) => search::first_of(accounts, accounts::matches_identity(a)),
        None => None,
    }
}

pub fn current_stored_account(
    store: &AccountsStore,
    current_auth: &Result<Option<StoredAccount>, String>,
) -> (r: Result<Option<StoredAccount>, String>)
    ensures
        match *current_auth {
            Ok(auth) => r == Ok::<_, String>(stored_for(store.accounts@, auth)),
            Err(m) => r matches Err(e) && e@ == m@,
        },
{
    match current_auth {
        Ok(Some(auth)) => match accounts::find_matching_account(store, auth) {
            Some(a) => Ok(Some(a.clone())),
            None => Ok(None),
        },
        Ok(None) => Ok(None),
        Err(m) => Err(m.clone()),
    }
}

/// The stored account, or none where Codex's file cannot be read.
pub open spec fn best_effort(
    accounts: Seq<StoredAccount>,
    auth: Result<Option<StoredAccount>, String>,
) -> Option<StoredAccount> {
    match auth {
        Ok(a) => stored_for(accounts, a),
        Err(_) => None,
    }
}

pub fn current_stored_account_best_effort(
    store: &AccountsStore,
    current_auth: &Result<Option<StoredAccount>, String>,
) -> (r: Option<StoredAccount>)
    ensures
        r == best_effort(store.accounts@, *current_auth),
{
    match current_stored_account(store, current_auth) {
        Ok(a) => a,
        Err(_) => None,
    }
}

pub fn current_stored_account_id(
    store: &AccountsStore,
    current_auth: &Result<Option<StoredAccount>, String>,
) -> (r: Result<Option<String>, String>)
    ensures
        match *current_auth {
            Ok(auth) => r is Ok && text::opt_view(r->Ok_0) == login::id_of(
                stored_for(store.accounts@, auth),
            ),
            Err(m) => r matches Err(e) && e@ == m@,
        },
{
    match current_stored_account(store, current_auth) {
        Ok(Some(a)) => Ok(Some(a.id)),
        Ok(None) => Ok(None),
        Err(m) => Err(m),
    }
}

pub fn current_stored_account_id_best_effort(
    store: &AccountsStore,
    current_auth: &Result<Option<StoredAccount>, String>,
) -> (r: Option<String>)
    ensures
        text::opt_view(r) == login::id_of(best_effort(store.accounts@, *current_auth)),
{
    match current_stored_account_best_effort(store, current_auth) {
        Some(a) => Some(a.id),
        None => None,
    }
}

// ---------------------------------------------------------------------------
// Laws
// ---------------------------------------------------------------------------

/// Read by key, an `auth.json` holds each of its parts under its own name; a part
/// that is absent is left out, but for the key, which is null then.
pub proof fn files_hold_each_part_under_its_name(v: AuthView)
    requires
        is_writable(v),
    ensures
        ({
            let m = auth_model(v);
            &&& json::field(m, "OPENAI_API_KEY"@) == Some(
                match v.api_key {
                    Some(key) => JsonModel::Text(key),
                    None => JsonModel::Null,
                },
            )
            &&& json::field(m, "auth_mode"@) == match v.mode {
                Some(mode) => Some(JsonModel::Text(mode.name())),
                None => None,
            }
            &&& json::field(m, "last_refresh"@) == match v.last_refresh {
                Some(t) => Some(JsonModel::Text(time::written_moment(t)->Some_0)),
                None => None,
            }
            &&& v.tokens is None ==> json::field(m, "tokens"@) is None
            &&& v.tokens matches Some(t) ==> {
                &&& json::field2(m, "tokens"@, "access_token"@) == Some(
                    JsonModel::Text(t.access_token),
                )
                &&& json::field2(m, "tokens"@, "id_token"@) == Some(JsonModel::Text(t.id_token))
                &&& json::field2(m, "tokens"@, "refresh_token"@) == Some(
                    JsonModel::Text(t.refresh_token),
                )
                &&& json::field2(m, "tokens"@, "account_id"@) == Some(
                    match t.account_id {
                        Some(id) => JsonModel::Text(id),
                        None => JsonModel::Null,
                    },
                )
            }
        }),
{
    reveal_strlit("OPENAI_API_KEY");
    reveal_strlit("auth_mode");
    reveal_strlit("last_refresh");
    reveal_strlit("tokens");
    reveal_strlit("access_token");
    reveal_strlit("account_id");
    reveal_strlit("id_token");
    reveal_strlit("refresh_token");
    assert("OPENAI_API_KEY"@.len() == 14);
    assert("auth_mode"@.len() == 9);
    assert("last_refresh"@.len() == 12);
    assert("tokens"@.len() == 6);
    assert("access_token"@.len() == 12);
    assert("account_id"@.len() == 10);
    assert("id_token"@.len() == 8);
    assert("refresh_token"@.len() == 13);
    assert("last_refresh"@[0] != "access_token"@[0]);

    let e = auth_model(v)->Object_0;
    let a = if v.mode is Some {
        1int
    } else {
        0int
    };
    let b = if v.last_refresh is Some {
        1int
    } else {
        0int
    };
    let c = if v.tokens is Some {
        1int
    } else {
        0int
    };
    assert(e.len() == 1 + a + b + c);
    assert(e[0].0 == "OPENAI_API_KEY"@);
    assert(a == 1 ==> e[1].0 == "auth_mode"@);
    assert(b == 1 ==> e[1 + a].0 == "last_refresh"@);
    assert(c == 1 ==> e[1 + a + b].0 == "tokens"@);
    json::the_first_entry_is_read(e, "OPENAI_API_KEY"@, 0);
    if a == 1 {
        json::the_first_entry_is_read(e, "auth_mode"@, 1);
    } else {
        json::a_missing_key_is_not_read(e, "auth_mode"@);
    }
    if b == 1 {
        json::the_first_entry_is_read(e, "last_refresh"@, 1 + a);
    } else {
        json::a_missing_key_is_not_read(e, "last_refresh"@);
    }
    if c == 1 {
        json::the_first_entry_is_read(e, "tokens"@, 1 + a + b);
        let t = tokens_model(v.tokens->Some_0)->Object_0;
        json::the_first_entry_is_read(t, "access_token"@, 0);
        json::the_first_entry_is_read(t, "account_id"@, 1);
        json::the_first_entry_is_read(t, "id_token"@, 2);
        json::the_first_entry_is_read(t, "refresh_token"@, 3);
    } else {
        json::a_missing_key_is_not_read(e, "tokens"@);
    }
}

/// What is written for an account is its own login: the key in the mode for keys,
/// or each token of the ChatGPT login, its account and the time of its refresh. A
/// login whose identity token cannot be read is not written.
pub proof fn exports_are_of_the_account(a: StoredAccount)
    ensures
        match a.auth_data {
            AuthData::ApiKey { key } => exported(a) matches Some(v) && v.mode == Some(
                AuthJsonAuthMode::ApiKey,
            ) && v.api_key == Some(key@) && v.tokens is None && v.last_refresh is None,
            AuthData::ChatGPT { id_token, access_token, refresh_token, account_id } => {
                &&& exported(a) is None <==> claims_of(id_token@) is None
                &&& exported(a) matches Some(v) ==> {
                    &&& v.mode == Some(AuthJsonAuthMode::Chatgpt)
                    &&& v.api_key is None
                    &&& v.last_refresh == a.token_last_refresh_at
                    &&& v.tokens is Some
                    &&& v.tokens->Some_0.id_token == id_token@
                    &&& v.tokens->Some_0.access_token == access_token@
                    &&& v.tokens->Some_0.refresh_token == refresh_token@
                    &&& v.tokens->Some_0.account_id == text::opt_view(account_id)
                }
            },
        },
{
}

/// Modes go by the names that Codex writes for them, and read back as themselves.
pub proof fn modes_go_by_their_names(mode: AuthJsonAuthMode)
    ensures
        mode_of(mode.name()) == Some(mode),
        mode_of("apikey"@) == Some(AuthJsonAuthMode::ApiKey),
        mode_of("chatgpt"@) == Some(AuthJsonAuthMode::Chatgpt),
        mode_of("chatgptAuthTokens"@) == Some(AuthJsonAuthMode::ChatgptAuthTokens),
        mode_of("agentIdentity"@) == Some(AuthJsonAuthMode::AgentIdentity),
{
    reveal_strlit("apikey");
    reveal_strlit("chatgpt");
    reveal_strlit("chatgptAuthTokens");
    reveal_strlit("agentIdentity");
    assert("apikey"@.len() == 6);
    assert("chatgpt"@.len() == 7);
    assert("chatgptAuthTokens"@.len() == 17);
    assert("agentIdentity"@.len() == 13);

    mode_reads_back(mode);
}

/// A file is read key by key: what it says of a part stands under the name of that
/// part, once, and tokens are read in the same way.
pub proof fn files_are_read_by_key(content: Seq<char>)
    ensures
        auth_in(content) matches Some(v) ==> {
            &&& record::read_as(content, 0) is Some
            &&& optional_at(record::read_as(content, 0)->Some_0, "OPENAI_API_KEY"@) == Some(
                v.api_key,
            )
            &&& optional_at(record::read_as(content, 0)->Some_0, "auth_mode"@) is Some
            &&& v.mode is None <==> optional_at(
                record::read_as(content, 0)->Some_0,
                "auth_mode"@,
            ) == Some(None::<Seq<char>>)
            &&& tokens_in(record::read_as(content, 0)->Some_0) == Some(v.tokens)
        },
{
}

/// Tokens are read key by key, the three tokens each under its own name.
pub proof fn tokens_are_read_by_key(t: Seq<char>)
    ensures
        tokens_of(t) matches Some(x) ==> {
            &&& record::record_in(t) is Some
            &&& required_at(record::record_in(t)->Some_0, "id_token"@) == Some(x.id_token)
            &&& required_at(record::record_in(t)->Some_0, "access_token"@) == Some(x.access_token)
            &&& required_at(record::record_in(t)->Some_0, "refresh_token"@) == Some(x.refresh_token)
            &&& optional_at(record::record_in(t)->Some_0, "account_id"@) == Some(x.account_id)
        },
{
}

/// The mode that is named counts; where none is, a key makes it a key's file.
pub proof fn the_named_mode_counts(v: AuthView)
    ensures
        v.mode matches Some(m) ==> resolved_mode(v) == m,
        v.mode is None && v.api_key is Some ==> resolved_mode(v) == AuthJsonAuthMode::ApiKey,
        v.mode is None && v.api_key is None ==> resolved_mode(v) == AuthJsonAuthMode::Chatgpt,
{
}

/// An account can be read exactly from a file for a key that holds one, and from a
/// file for ChatGPT that holds tokens whose identity token can be read.
pub proof fn what_can_be_imported(v: AuthView)
    ensures
        import_error(Some(v)) is None <==> {
            ||| resolved_mode(v) == AuthJsonAuthMode::ApiKey && v.api_key is Some
            ||| resolved_mode(v) == AuthJsonAuthMode::Chatgpt && v.tokens is Some && claims_of(
                v.tokens->Some_0.id_token,
            ) is Some
        },
        import_error(None) is Some,
        v.mode == Some(AuthJsonAuthMode::ChatgptAuthTokens) || v.mode == Some(
            AuthJsonAuthMode::AgentIdentity,
        ) ==> import_error(Some(v)) is Some,
{
}

/// An imported account is the login of the file: each token in its own place, the
/// ChatGPT account that the file names before the one that the identity token
/// names, and everything else as the identity token says it.
pub proof fn imports_keep_the_login(
    account: StoredAccount,
    v: AuthView,
    name: Seq<char>,
    id: Seq<char>,
    now: Timestamp,
)
    requires
        is_imported(account, v, name, id, now),
        import_error(Some(v)) is None,
    ensures
        account.id@ == id && account.name@ == name && account.created_at == now,
        account.auth_mode == AuthMode::ApiKey <==> resolved_mode(v) == AuthJsonAuthMode::ApiKey,
        account.auth_mode == AuthMode::ApiKey <==> account.auth_data is ApiKey,
        account.last_used_at is None && !account.auto_switch_disabled,
        resolved_mode(v) == AuthJsonAuthMode::ApiKey ==> account.token_last_refresh_at is None
            && account.email is None,
        resolved_mode(v) == AuthJsonAuthMode::ApiKey ==> (account.auth_data matches AuthData::ApiKey {
            key,
        } && v.api_key == Some(key@)),
        resolved_mode(v) == AuthJsonAuthMode::Chatgpt ==> {
            let t = v.tokens->Some_0;
            let c = claims_of(t.id_token)->Some_0;
            &&& account.is_chatgpt()
            &&& account.auth_data->id_token@ == t.id_token
            &&& account.auth_data->access_token@ == t.access_token
            &&& account.auth_data->refresh_token@ == t.refresh_token
            &&& t.account_id is Some ==> text::opt_view(accounts::chatgpt_id(account))
                == t.account_id
            &&& t.account_id is None ==> text::opt_view(accounts::chatgpt_id(account))
                == c.account_id
            &&& text::opt_view(account.email) == c.email
            &&& text::opt_view(account.plan_type) == c.plan_type
            &&& text::opt_view(account.chatgpt_user_id) == c.user_id
            &&& v.last_refresh is Some ==> account.token_last_refresh_at == v.last_refresh
            &&& v.last_refresh is None ==> account.token_last_refresh_at == Some(now)
        },
{
}

/// An identity token says each thing under its own key: the email by itself, the
/// rest among the claims of the service.
pub proof fn claims_are_read_by_key(m: JsonModel)
    ensures
        ({
            let c = claims_in(m);
            let there = "https://api.openai.com/auth"@;
            &&& c.email == json::text_at(json::field(m, "email"@))
            &&& c.plan_type == json::text_at(json::field2(m, there, "chatgpt_plan_type"@))
            &&& c.user_id == json::text_at(json::field2(m, there, "chatgpt_user_id"@))
            &&& c.account_id == json::text_at(json::field2(m, there, "chatgpt_account_id"@))
            &&& c.account_is_fedramp <==> json::field2(m, there, "chatgpt_account_is_fedramp"@)
                == Some(JsonModel::Bool(true))
            &&& c.subscription_expires_at is Some ==> json::text_at(
                json::field2(m, there, "chatgpt_subscription_active_until"@),
            ) is Some
        }),
{
}

/// A token is read from its second part, of three with dots between them; what is
/// no object in Base64 says nothing.
pub proof fn tokens_are_read_from_their_second_part(token: Seq<char>)
    ensures
        text::pieces_at(token, '.').len() != 3 ==> payload_of(token) is None && claims_of(token) is None
            && token_end(token) is None,
        payload_of(token) matches Some(m) ==> {
            &&& m is Object
            &&& text::pieces_at(token, '.').len() == 3
            &&& encoding::base64url_text(text::pieces_at(token, '.')[1]) is Some
            &&& json::parsed(encoding::base64url_text(text::pieces_at(token, '.')[1])->Some_0)
                == Some(m)
        },
        claims_of(token) is Some <==> payload_of(token) is Some,
{
}

/// A token ends at the second that it names under `exp`, to the second; one that
/// names none has no known end.
pub proof fn tokens_end_when_they_say(token: Seq<char>)
    ensures
        token_end(token) matches Some(t) ==> {
            &&& payload_of(token) is Some
            &&& json::field(payload_of(token)->Some_0, "exp"@) matches Some(JsonModel::Number(s))
            &&& text::unsigned_value(s) == Some(t.millis / 1000)
            &&& t.millis % 1000 == 0
            &&& t.nanos == 0
        },
        payload_of(token) is Some && json::field(payload_of(token)->Some_0, "exp"@) is None
            ==> token_end(token) is None,
{
}

/// Only an account that logs in with ChatGPT has a token that ends, and it is the
/// access token that counts.
pub proof fn accounts_end_with_their_access_token(account: StoredAccount)
    ensures
        match account.auth_data {
            AuthData::ChatGPT { access_token, .. } => account_token_end(account) == token_end(
                access_token@,
            ),
            AuthData::ApiKey { .. } => account_token_end(account) is None,
        },
{
}

/// Codex's file is `auth.json` in the directory that the environment names, and in
/// `.codex` in the home directory where it names none or only white space.
pub proof fn the_file_is_in_codex_home(configured: Option<Seq<char>>, home: Option<Seq<char>>)
    ensures
        configured is Some && !text::is_blank(configured->Some_0) ==> auth_file_of(configured, home)
            == Ok::<_, Seq<char>>(path_in(configured->Some_0, "auth.json"@)),
        (configured is None || text::is_blank(configured->Some_0)) && home is Some ==> auth_file_of(
            configured,
            home,
        ) == Ok::<_, Seq<char>>(path_in(path_in(home->Some_0, ".codex"@), "auth.json"@)),
        (configured is None || text::is_blank(configured->Some_0)) && home is None ==> auth_file_of(
            configured,
            home,
        ) is Err,
{
}

/// A name is put behind a directory with one slash between them.
pub proof fn paths_have_one_slash(base: Seq<char>, name: Seq<char>)
    requires
        base.len() > 0,
    ensures
        text::begins_with(path_in(base, name), base),
        text::finishes_with(path_in(base, name), name),
        base.last() == '/' ==> path_in(base, name) == base + name,
        base.last() != '/' ==> path_in(base, name) == base.push('/') + name,
{
    reveal_strlit("/");
    let p = path_in(base, name);
    assert(base.push('/') + name =~= base + "/"@ + name);
    assert(p.subrange(0, base.len() as int) =~= base);
    assert(p.subrange(p.len() - name.len(), p.len() as int) =~= name);
}

/// The stored account that counts as current holds the login that Codex's file
/// holds; where no stored account does, none is current.
pub proof fn the_current_account_has_the_login(
    accounts: Seq<StoredAccount>,
    auth: Option<StoredAccount>,
)
    ensures
        match stored_for(accounts, auth) {
            Some(a) => accounts.contains(a) && auth is Some && accounts::same_auth_identity(
                a,
                auth->Some_0,
            ),
            None => auth is None || forall|i: int|
                0 <= i < accounts.len() ==> !accounts::same_auth_identity(
                    #[trigger] accounts[i],
                    auth->Some_0,
                ),
        },
{
    if auth is Some {
        let p = accounts::matches_identity(auth->Some_0);
        search::first_index_is_first(accounts, p);
        if stored_for(accounts, auth) is None {
            assert forall|i: int| 0 <= i < accounts.len() implies !accounts::same_auth_identity(
                #[trigger] accounts[i],
                auth->Some_0,
            ) by {
                assert(!p(accounts[i]));
            }
        }
    }
}

/// What makes Codex log in with an account goes to Codex's own file, in place of
/// what is there; what is handed out as a file replaces another only where that is
/// asked for.
pub proof fn writes_go_where_they_belong(
    account: StoredAccount,
    path: &str,
    force: bool,
    configured: Option<&str>,
    home: Option<&str>,
    login: AuthWrite,
    file: AuthWrite,
)
    requires
        call_ensures(
            write_account_auth,
            (&account, configured, home),
            Ok::<AuthWrite, Failure>(login),
        ),
        call_ensures(export_account_auth, (&account, path, force), Ok::<AuthWrite, Failure>(file)),
    ensures
        login.replace,
        auth_file_of(accounts::str_view(configured), accounts::str_view(home)) == Ok::<
            _,
            Seq<char>,
        >(login.path@),
        file.path@ == path@,
        file.replace == force,
        login.content@ == file.content@,
{
}

} // verus!
