//! Stored accounts and how they are told apart.
use crate::search;
use crate::text;
use vstd::prelude::*;

verus! {

/// A moment in time: whole milliseconds since the Unix epoch, and the
/// nanoseconds beyond them. A leap second lies beyond the last millisecond of the
/// second before it, by a million nanoseconds or more.
#[derive(Debug, Clone, Copy, PartialEq, Eq, Structural)]
pub struct Timestamp {
    pub millis: i64,
    pub nanos: u32,
}

impl Timestamp {
    pub open spec fn is_before(self, other: Timestamp) -> bool {
        self.millis < other.millis || (self.millis == other.millis && self.nanos < other.nanos)
    }

    pub fn before(self, other: Timestamp) -> (r: bool)
        ensures
            r == self.is_before(other),
    {
        self.millis < other.millis || (self.millis == other.millis && self.nanos < other.nanos)
    }
}

#[derive(Debug, Clone, Copy, PartialEq, Eq, Structural)]
pub enum AuthMode {
    ApiKey,
    ChatGPT,
}

impl AuthMode {
    pub open spec fn name(self) -> Seq<char> {
        match self {
            AuthMode::ApiKey => "api_key"@,
            AuthMode::ChatGPT => "chatgpt"@,
        }
    }

    pub fn as_str(self) -> (r: &'static str)
        ensures
            r@ == self.name(),
    {
        match self {
            AuthMode::ApiKey => "api_key",
            AuthMode::ChatGPT => "chatgpt",
        }
    }
}

/// The credentials of an account. No `Debug` here: the values are secrets.
pub enum AuthData {
    ApiKey { key: String },
    ChatGPT {
        id_token: String,
        access_token: String,
        refresh_token: String,
        account_id: Option<String>,
    },
}

impl Clone for AuthData {
    fn clone(&self) -> (r: Self)
        ensures
            r == *self,
    {
        match self {
            AuthData::ApiKey { key } => AuthData::ApiKey { key: key.clone() },
            AuthData::ChatGPT { id_token, access_token, refresh_token, account_id } => {
                AuthData::ChatGPT {
                    id_token: id_token.clone(),
                    access_token: access_token.clone(),
                    refresh_token: refresh_token.clone(),
                    account_id: text::clone_option(account_id),
                }
            },
        }
    }
}

pub struct StoredAccount {
    pub id: String,
    pub name: String,
    pub email: Option<String>,
    pub plan_type: Option<String>,
    pub chatgpt_user_id: Option<String>,
    pub chatgpt_account_is_fedramp: bool,
    pub token_last_refresh_at: Option<Timestamp>,
    pub subscription_expires_at: Option<Timestamp>,
    pub auth_mode: AuthMode,
    pub auth_data: AuthData,
    pub auto_switch_disabled: bool,
    pub created_at: Timestamp,
    pub last_used_at: Option<Timestamp>,
}

impl Clone for StoredAccount {
    fn clone(&self) -> (r: Self)
        ensures
            r == *self,
    {
        StoredAccount {
            id: self.id.clone(),
            name: self.name.clone(),
            email: text::clone_option(&self.email),
            plan_type: text::clone_option(&self.plan_type),
            chatgpt_user_id: text::clone_option(&self.chatgpt_user_id),
            chatgpt_account_is_fedramp: self.chatgpt_account_is_fedramp,
            token_last_refresh_at: self.token_last_refresh_at,
            subscription_expires_at: self.subscription_expires_at,
            auth_mode: self.auth_mode,
            auth_data: self.auth_data.clone(),
            auto_switch_disabled: self.auto_switch_disabled,
            created_at: self.created_at,
            last_used_at: self.last_used_at,
        }
    }
}

/// What a ChatGPT login or import yields, before it becomes a stored account.
pub struct NewChatGptAccount {
    pub name: String,
    pub email: Option<String>,
    pub plan_type: Option<String>,
    pub chatgpt_user_id: Option<String>,
    pub chatgpt_account_is_fedramp: bool,
    pub token_last_refresh_at: Timestamp,
    pub subscription_expires_at: Option<Timestamp>,
    pub id_token: String,
    pub access_token: String,
    pub refresh_token: String,
    pub account_id: Option<String>,
}

impl StoredAccount {
    pub open spec fn is_chatgpt(self) -> bool {
        self.auth_data is ChatGPT
    }

    pub fn uses_chatgpt(&self) -> (r: bool)
        ensures
            r == self.is_chatgpt(),
    {
        match &self.auth_data {
            AuthData::ChatGPT { .. } => true,
            AuthData::ApiKey { .. } => false,
        }
    }

    pub fn auto_switch_enabled(&self) -> (r: bool)
        ensures
            r == !self.auto_switch_disabled,
    {
        !self.auto_switch_disabled
    }

    /// A fresh API-key account under the given id.
    pub fn new_api_key(id: String, name: String, key: String, created_at: Timestamp) -> (r: Self)
        ensures
            r.id == id,
            r.name == name,
            r.auth_data == (AuthData::ApiKey { key }),
            r.auth_mode == AuthMode::ApiKey,
            r.created_at == created_at,
            r.email is None,
            r.plan_type is None,
            r.chatgpt_user_id is None,
            !r.chatgpt_account_is_fedramp,
            r.token_last_refresh_at is None,
            r.subscription_expires_at is None,
            r.last_used_at is None,
            !r.auto_switch_disabled,
    {
        StoredAccount {
            id,
            name,
            email: None,
            plan_type: None,
            chatgpt_user_id: None,
            chatgpt_account_is_fedramp: false,
            token_last_refresh_at: None,
            subscription_expires_at: None,
            auth_mode: AuthMode::ApiKey,
            auth_data: AuthData::ApiKey { key },
            auto_switch_disabled: false,
            created_at,
            last_used_at: None,
        }
    }

    /// A fresh ChatGPT account under the given id.
    pub fn new_chatgpt(id: String, new: NewChatGptAccount, created_at: Timestamp) -> (r: Self)
        ensures
            r.id == id,
            r.name == new.name,
            r.email == new.email,
            r.plan_type == new.plan_type,
            r.chatgpt_user_id == new.chatgpt_user_id,
            r.chatgpt_account_is_fedramp == new.chatgpt_account_is_fedramp,
            r.token_last_refresh_at == Some(new.token_last_refresh_at),
            r.subscription_expires_at == new.subscription_expires_at,
            r.auth_mode == AuthMode::ChatGPT,
            r.auth_data == (AuthData::ChatGPT {
                id_token: new.id_token,
                access_token: new.access_token,
                refresh_token: new.refresh_token,
                account_id: new.account_id,
            }),
            !r.auto_switch_disabled,
            r.created_at == created_at,
            r.last_used_at is None,
    {
        StoredAccount {
            id,
            name: new.name,
            email: new.email,
            plan_type: new.plan_type,
            chatgpt_user_id: new.chatgpt_user_id,
            chatgpt_account_is_fedramp: new.chatgpt_account_is_fedramp,
            token_last_refresh_at: Some(new.token_last_refresh_at),
            subscription_expires_at: new.subscription_expires_at,
            auth_mode: AuthMode::ChatGPT,
            auth_data: AuthData::ChatGPT {
                id_token: new.id_token,
                access_token: new.access_token,
                refresh_token: new.refresh_token,
                account_id: new.account_id,
            },
            auto_switch_disabled: false,
            created_at,
            last_used_at: None,
        }
    }
}

pub struct AccountsStore {
    pub version: u32,
    pub accounts: Vec<StoredAccount>,
    pub masked_account_ids: Vec<String>,
}

// ---------------------------------------------------------------------------
// Labels
// ---------------------------------------------------------------------------

/// The first eight characters of an account id, or all of a shorter one.
pub open spec fn short(id: Seq<char>) -> Seq<char> {
    if id.len() <= 8 {
        id
    } else {
        id.take(8)
    }
}

pub fn short_id(id: &str) -> (r: String)
    ensures
        r@ == short(id@),
{
    let v = text::to_chars(id);
    let n: usize = if v.len() <= 8 {
        v.len()
    } else {
        8
    };
    let r = text::from_chars(&v, 0, n);
    assert(r@ =~= short(id@));
    r
}

/// `name (short id)`.
pub open spec fn label(account: StoredAccount) -> Seq<char> {
    account.name@ + " ("@ + short(account.id@) + ")"@
}

pub fn account_label(account: &StoredAccount) -> (r: String)
    ensures
        r@ == label(*account),
{
    text::cat4(account.name.as_str(), " (", short_id(account.id.as_str()).as_str(), ")")
}

// ---------------------------------------------------------------------------
// Identity
// ---------------------------------------------------------------------------

/// Two accounts hold the same login: the same API key, or the same ChatGPT
/// account of the same user.
pub open spec fn same_auth_identity(a: StoredAccount, b: StoredAccount) -> bool {
    match (a.auth_data, b.auth_data) {
        (AuthData::ApiKey { key: x }, AuthData::ApiKey { key: y }) => x@ == y@,
        (
            AuthData::ChatGPT { account_id: Some(x), .. },
            AuthData::ChatGPT { account_id: Some(y), .. },
        ) => x@ == y@ && text::opt_view(a.chatgpt_user_id) == text::opt_view(b.chatgpt_user_id),
        _ => false,
    }
}

pub fn accounts_have_same_auth_identity(a: &StoredAccount, b: &StoredAccount) -> (r: bool)
    ensures
        r == same_auth_identity(*a, *b),
{
    match (&a.auth_data, &b.auth_data) {
        (AuthData::ApiKey { key: x }, AuthData::ApiKey { key: y }) => text::same(
            x.as_str(),
            y.as_str(),
        ),
        (
            AuthData::ChatGPT { account_id: Some(x), .. },
            AuthData::ChatGPT { account_id: Some(y), .. },
        ) => text::same(x.as_str(), y.as_str()) && text::same_option(
            &a.chatgpt_user_id,
            &b.chatgpt_user_id,
        ),
        _ => false,
    }
}

/// Matching is symmetric: it does not matter which of two accounts is stored
/// and which was read from Codex.
pub proof fn auth_identity_is_symmetric(a: StoredAccount, b: StoredAccount)
    ensures
        same_auth_identity(a, b) == same_auth_identity(b, a),
{
}

pub open spec fn matches_identity(account: StoredAccount) -> spec_fn(StoredAccount) -> bool {
    |stored: StoredAccount| same_auth_identity(stored, account)
}

/// The first stored account with the same login.
pub fn find_matching_account<'a>(
    store: &'a AccountsStore,
    account: &StoredAccount,
) -> (r: Option<&'a StoredAccount>)
    ensures
        match r {
            Some(found) => search::first_of(store.accounts@, matches_identity(*account)) == Some(*found),
            None => search::first_of(store.accounts@, matches_identity(*account)) is None,
        },
{
    let ghost p = matches_identity(*account);
    let mut i: usize = 0;
    while i < store.accounts.len()
        invariant
            i <= store.accounts@.len(),
            p == matches_identity(*account),
            forall|j: int| 0 <= j < i ==> !p(#[trigger] store.accounts@[j]),
        decreases store.accounts@.len() - i,
    {
        if accounts_have_same_auth_identity(&store.accounts[i], account) {
            proof {
                search::first_index_unique(store.accounts@, p, i as int);
            }
            return Some(&store.accounts[i]);
        }
        i = i + 1;
    }
    proof {
        search::first_index_absent(store.accounts@, p);
    }
    None
}

pub open spec fn has_id(id: Seq<char>) -> spec_fn(StoredAccount) -> bool {
    |account: StoredAccount| account.id@ == id
}

/// Where the account with the given id stands.
pub fn position_of_id(accounts: &Vec<StoredAccount>, id: &str) -> (r: Option<usize>)
    ensures
        match r {
            Some(i) => search::first_index(accounts@, has_id(id@)) == Some(i as int) && i < accounts@.len(),
            None => search::first_index(accounts@, has_id(id@)) is None,
        },
{
    let ghost p = has_id(id@);
    let mut i: usize = 0;
    while i < accounts.len()
        invariant
            i <= accounts@.len(),
            p == has_id(id@),
            forall|j: int| 0 <= j < i ==> !p(#[trigger] accounts@[j]),
        decreases accounts@.len() - i,
    {
        if text::same(accounts[i].id.as_str(), id) {
            proof {
                search::first_index_unique(accounts@, p, i as int);
            }
            return Some(i);
        }
        i = i + 1;
    }
    proof {
        search::first_index_absent(accounts@, p);
    }
    None
}

pub fn find_by_id<'a>(accounts: &'a Vec<StoredAccount>, id: &str) -> (r: Option<&'a StoredAccount>)
    ensures
        match r {
            Some(found) => search::first_of(accounts@, has_id(id@)) == Some(*found),
            None => search::first_of(accounts@, has_id(id@)) is None,
        },
{
    match position_of_id(accounts, id) {
        Some(i) => Some(&accounts[i]),
        None => None,
    }
}

// ---------------------------------------------------------------------------
// Selecting by name, id or id prefix
// ---------------------------------------------------------------------------

#[derive(Debug, Clone, Copy, PartialEq, Eq, Structural)]
pub enum SelectorError {
    NotFound,
    Ambiguous,
}

pub open spec fn has_name(name: Seq<char>) -> spec_fn(StoredAccount) -> bool {
    |account: StoredAccount| account.name@ == name
}

pub open spec fn id_begins(prefix: Seq<char>) -> spec_fn(StoredAccount) -> bool {
    |account: StoredAccount| text::begins_with(account.id@, prefix)
}

/// The account that a selector names: by full id, else by name, else by an id
/// prefix that fits one account alone.
pub open spec fn selected(accounts: Seq<StoredAccount>, selector: Seq<char>) -> Result<
    int,
    SelectorError,
> {
    match search::first_index(accounts, has_id(selector)) {
        Some(i) => Ok(i),
        None => match search::first_index(accounts, has_name(selector)) {
            Some(i) => Ok(i),
            None => match search::first_index(accounts, id_begins(selector)) {
                None => Err(SelectorError::NotFound),
                Some(i) => if selector.len() == 0 {
                    Err(SelectorError::NotFound)
                } else if exists|j: int|
                    i < j < accounts.len() && text::begins_with(
                        (#[trigger] accounts[j]).id@,
                        selector,
                    ) {
                    Err(SelectorError::Ambiguous)
                } else {
                    Ok(i)
                },
            },
        },
    }
}

pub fn resolve_account_id(store: &AccountsStore, selector: &str) -> (r: Result<
    String,
    SelectorError,
>)
    ensures
        match r {
            Ok(id) => selected(store.accounts@, selector@) is Ok && id
                == store.accounts@[selected(store.accounts@, selector@)->Ok_0].id,
            Err(e) => selected(store.accounts@, selector@) == Err::<int, SelectorError>(e),
        },
{
    let accounts = &store.accounts;
    if let Some(i) = position_of_id(accounts, selector) {
        proof {
            search::first_index_is_first(accounts@, has_id(selector@));
        }
        return Ok(accounts[i].id.clone());
    }
    let ghost named = has_name(selector@);
    let mut i: usize = 0;
    while i < accounts.len()
        invariant
            i <= accounts@.len(),
            named == has_name(selector@),
            accounts == &store.accounts,
            search::first_index(accounts@, has_id(selector@)) is None,
            forall|j: int| 0 <= j < i ==> !named(#[trigger] accounts@[j]),
        decreases accounts@.len() - i,
    {
        if text::same(accounts[i].name.as_str(), selector) {
            proof {
                search::first_index_unique(accounts@, named, i as int);
            }
            return Ok(accounts[i].id.clone());
        }
        i = i + 1;
    }
    proof {
        search::first_index_absent(accounts@, named);
    }
    let ghost prefixed = id_begins(selector@);
    let mut found: Option<usize> = None;
    let mut k: usize = 0;
    while k < accounts.len()
        invariant
            k <= accounts@.len(),
            prefixed == id_begins(selector@),
            accounts == &store.accounts,
            search::first_index(accounts@, has_id(selector@)) is None,
            search::first_index(accounts@, has_name(selector@)) is None,
            match found {
                None => forall|j: int| 0 <= j < k ==> !prefixed(#[trigger] accounts@[j]),
                Some(f) => {
                    &&& f < k
                    &&& search::first_index(accounts@, prefixed) == Some(f as int)
                    &&& forall|j: int|
                        f < j < k ==> !text::begins_with((#[trigger] accounts@[j]).id@, selector@)
                },
            },
        decreases accounts@.len() - k,
    {
        if text::starts_with(accounts[k].id.as_str(), selector) {
            if found.is_some() {
                assert(text::begins_with(accounts@[k as int].id@, selector@));
                if selector.is_empty() {
                    return Err(SelectorError::NotFound);
                }
                return Err(SelectorError::Ambiguous);
            }
            proof {
                search::first_index_unique(accounts@, prefixed, k as int);
            }
            found = Some(k);
        }
        k = k + 1;
    }
    match found {
        Some(f) => {
            if selector.is_empty() {
                return Err(SelectorError::NotFound);
            }
            Ok(accounts[f].id.clone())
        },
        None => {
            proof {
                search::first_index_absent(accounts@, prefixed);
            }
            Err(SelectorError::NotFound)
        },
    }
}

// ---------------------------------------------------------------------------
// Secrets
// ---------------------------------------------------------------------------

/// The ChatGPT account id of an account, where it has one.
pub open spec fn chatgpt_id(account: StoredAccount) -> Option<String> {
    match account.auth_data {
        AuthData::ChatGPT { account_id, .. } => account_id,
        AuthData::ApiKey { .. } => None,
    }
}

pub fn chatgpt_account_id(account: &StoredAccount) -> (r: Option<String>)
    ensures
        r == chatgpt_id(*account),
{
    match &account.auth_data {
        AuthData::ChatGPT { account_id, .. } => text::clone_option(account_id),
        AuthData::ApiKey { .. } => None,
    }
}

/// Every secret that an account holds.
pub open spec fn secrets_of(account: StoredAccount) -> Seq<String> {
    match account.auth_data {
        AuthData::ChatGPT { id_token, access_token, refresh_token, .. } => seq![
            id_token,
            access_token,
            refresh_token,
        ],
        AuthData::ApiKey { key } => seq![key],
    }
}

pub fn account_secret_values(account: &StoredAccount) -> (r: Vec<String>)
    ensures
        r@ == secrets_of(*account),
{
    let mut r: Vec<String> = Vec::new();
    match &account.auth_data {
        AuthData::ChatGPT { id_token, access_token, refresh_token, .. } => {
            r.push(id_token.clone());
            r.push(access_token.clone());
            r.push(refresh_token.clone());
        },
        AuthData::ApiKey { key } => {
            r.push(key.clone());
        },
    }
    assert(r@ =~= secrets_of(*account));
    r
}

/// Some account of the store can be asked for its usage over time.
pub fn has_forecastable_usage_account(store: &AccountsStore) -> (r: bool)
    ensures
        r == exists|i: int|
            0 <= i < store.accounts@.len() && (#[trigger] store.accounts@[i]).is_chatgpt(),
{
    let mut i: usize = 0;
    while i < store.accounts.len()
        invariant
            i <= store.accounts@.len(),
            forall|j: int| 0 <= j < i ==> !(#[trigger] store.accounts@[j]).is_chatgpt(),
        decreases store.accounts@.len() - i,
    {
        if store.accounts[i].uses_chatgpt() {
            return true;
        }
        i = i + 1;
    }
    false
}

#[derive(Debug, Clone, Copy, PartialEq, Eq, Structural)]
pub enum UsageAccountError {
    Selector(SelectorError),
    /// No selector was given and Codex's current account is not stored.
    NoCurrent,
}

pub const NO_CURRENT_ACCOUNT: &'static str = "No stored account matches current Codex auth.json. Pass a name-or-id, or run codex-switch import <name>.";

impl UsageAccountError {
    pub open spec fn text(self) -> Seq<char> {
        match self {
            UsageAccountError::Selector(SelectorError::NotFound) => "Account not found"@,
            UsageAccountError::Selector(SelectorError::Ambiguous) =>
                "Account selector matches more than one account"@,
            UsageAccountError::NoCurrent => NO_CURRENT_ACCOUNT@,
        }
    }

    pub fn message(&self) -> (r: &'static str)
        ensures
            r@ == self.text(),
    {
        match self {
            UsageAccountError::Selector(SelectorError::NotFound) => "Account not found",
            UsageAccountError::Selector(SelectorError::Ambiguous) =>
                "Account selector matches more than one account",
            UsageAccountError::NoCurrent => NO_CURRENT_ACCOUNT,
        }
    }
}

/// The account whose usage is asked for: the selected one, or, without a
/// selector, the one that Codex is logged in with.
pub open spec fn usage_account(
    accounts: Seq<StoredAccount>,
    selector: Option<Seq<char>>,
    current_id: Option<Seq<char>>,
) -> Result<StoredAccount, UsageAccountError> {
    match selector {
        Some(selector) => match selected(accounts, selector) {
            Ok(i) => Ok(search::first_of(accounts, has_id(accounts[i].id@)).unwrap()),
            Err(e) => Err(UsageAccountError::Selector(e)),
        },
        None => match current_id {
            Some(id) => match search::first_of(accounts, has_id(id)) {
                Some(account) => Ok(account),
                None => Err(UsageAccountError::NoCurrent),
            },
            None => Err(UsageAccountError::NoCurrent),
        },
    }
}

pub open spec fn str_view(o: Option<&str>) -> Option<Seq<char>> {
    match o {
        Some(s) => Some(s@),
        None => None,
    }
}

pub fn usage_account_from_store(
    store: &AccountsStore,
    selector: Option<&str>,
    current_account_id: Option<&str>,
) -> (r: Result<StoredAccount, UsageAccountError>)
    ensures
        r == usage_account(store.accounts@, str_view(selector), str_view(current_account_id)),
{
    match selector {
        Some(selector) => match resolve_account_id(store, selector) {
            Ok(id) => {
                let ghost i = selected(store.accounts@, selector@)->Ok_0;
                proof {
                    search::first_index_is_first(store.accounts@, has_id(selector@));
                    search::first_index_is_first(store.accounts@, has_name(selector@));
                    search::first_index_is_first(store.accounts@, id_begins(selector@));
                    search::first_index_is_first(store.accounts@, has_id(id@));
                    let p = has_id(id@);
                    assert(p(store.accounts@[i]));
                }
                match find_by_id(&store.accounts, id.as_str()) {
                    Some(account) => Ok(account.clone()),
                    None => Err(UsageAccountError::NoCurrent),
                }
            },
            Err(e) => Err(UsageAccountError::Selector(e)),
        },
        None => match current_account_id {
            Some(id) => match find_by_id(&store.accounts, id) {
                Some(account) => Ok(account.clone()),
                None => Err(UsageAccountError::NoCurrent),
            },
            None => Err(UsageAccountError::NoCurrent),
        },
    }
}

// ---------------------------------------------------------------------------
// Laws
// ---------------------------------------------------------------------------

/// Two ChatGPT logins are the same exactly where both the ChatGPT account and the
/// user are; tokens, names and ids do not matter. Two keys are the same login where
/// they are equal, and a key is never the same as a ChatGPT login.
pub proof fn logins_are_the_same_by_account_and_user(a: StoredAccount, b: StoredAccount)
    ensures
        a.is_chatgpt() && b.is_chatgpt() && chatgpt_id(a) is Some && chatgpt_id(b) is Some ==> (
        same_auth_identity(a, b) <==> chatgpt_id(a)->Some_0@ == chatgpt_id(b)->Some_0@
            && text::opt_view(a.chatgpt_user_id) == text::opt_view(b.chatgpt_user_id)),
        a.is_chatgpt() != b.is_chatgpt() ==> !same_auth_identity(a, b),
        a.is_chatgpt() && (chatgpt_id(a) is None || chatgpt_id(b) is None) ==> !same_auth_identity(
            a,
            b,
        ),
        !a.is_chatgpt() && !b.is_chatgpt() ==> (same_auth_identity(a, b) <==> secrets_of(a)[0]@
            == secrets_of(b)[0]@),
{
}

/// Logins that are the same as a third are the same as each other, and a login that
/// can be told apart at all is the same as itself.
pub proof fn auth_identity_chains(a: StoredAccount, b: StoredAccount, c: StoredAccount)
    ensures
        same_auth_identity(a, b) && same_auth_identity(b, c) ==> same_auth_identity(a, c),
        !a.is_chatgpt() || chatgpt_id(a) is Some ==> same_auth_identity(a, a),
{
}

/// The ChatGPT account id and the secrets are those of the credentials: the tokens
/// of a ChatGPT login, each of them, or the key.
pub proof fn credentials_are_kept_apart(account: StoredAccount)
    ensures
        match account.auth_data {
            AuthData::ChatGPT { id_token, access_token, refresh_token, account_id } => {
                &&& account.is_chatgpt()
                &&& chatgpt_id(account) == account_id
                &&& secrets_of(account).contains(id_token)
                &&& secrets_of(account).contains(access_token)
                &&& secrets_of(account).contains(refresh_token)
            },
            AuthData::ApiKey { key } => {
                &&& !account.is_chatgpt()
                &&& chatgpt_id(account) is None
                &&& secrets_of(account).contains(key)
            },
        },
{
    match account.auth_data {
        AuthData::ChatGPT { id_token, access_token, refresh_token, account_id } => {
            assert(secrets_of(account)[0] == id_token);
            assert(secrets_of(account)[1] == access_token);
            assert(secrets_of(account)[2] == refresh_token);
        },
        AuthData::ApiKey { key } => {
            assert(secrets_of(account)[0] == key);
        },
    }
}

/// A label tells the name and how the id begins, by eight characters at most.
pub proof fn labels_tell_name_and_id(account: StoredAccount)
    ensures
        text::begins_with(label(account), account.name@),
        text::begins_with(account.id@, short(account.id@)),
        short(account.id@).len() <= 8,
        account.id@.len() >= 8 ==> short(account.id@).len() == 8,
        account.id@.len() <= 8 ==> short(account.id@) == account.id@,
        label(account).len() == account.name@.len() + short(account.id@).len() + 3,
{
    reveal_strlit(" (");
    reveal_strlit(")");
    let name = account.name@;
    assert(label(account).subrange(0, name.len() as int) =~= name);
    let s = short(account.id@);
    assert(account.id@.subrange(0, s.len() as int) =~= s);
}

/// A full id names the account that has it, whatever the names of others are.
pub proof fn an_id_names_its_account(accounts: Seq<StoredAccount>, i: int)
    requires
        0 <= i < accounts.len(),
    ensures
        ({
            let found = selected(accounts, accounts[i].id@);
            found is Ok && 0 <= found->Ok_0 < accounts.len() && accounts[found->Ok_0].id@
                == accounts[i].id@
        }),
{
    search::first_index_is_first(accounts, has_id(accounts[i].id@));
    assert(has_id(accounts[i].id@)(accounts[i]));
}

/// A name that is no id names the first account that has it, even where ids begin
/// with it.
pub proof fn a_name_names_its_account(accounts: Seq<StoredAccount>, name: Seq<char>, i: int)
    requires
        0 <= i < accounts.len(),
        accounts[i].name@ == name,
        forall|j: int| 0 <= j < i ==> (#[trigger] accounts[j]).name@ != name,
        forall|j: int| 0 <= j < accounts.len() ==> (#[trigger] accounts[j]).id@ != name,
    ensures
        selected(accounts, name) == Ok::<int, SelectorError>(i),
{
    search::first_index_absent(accounts, has_id(name));
    search::first_index_unique(accounts, has_name(name), i);
}

/// The beginning of an id names the account where it is no id or name and fits no
/// other account; where it fits another, nothing is named.
pub proof fn a_prefix_names_one_account(accounts: Seq<StoredAccount>, prefix: Seq<char>, i: int)
    requires
        prefix.len() > 0,
        0 <= i < accounts.len(),
        text::begins_with(accounts[i].id@, prefix),
        forall|j: int|
            0 <= j < accounts.len() ==> (#[trigger] accounts[j]).id@ != prefix && accounts[j].name@
                != prefix,
    ensures
        (forall|j: int|
            0 <= j < accounts.len() && j != i ==> !text::begins_with(
                (#[trigger] accounts[j]).id@,
                prefix,
            )) ==> selected(accounts, prefix) == Ok::<int, SelectorError>(i),
        (exists|j: int|
            0 <= j < accounts.len() && j != i && text::begins_with(
                (#[trigger] accounts[j]).id@,
                prefix,
            )) ==> selected(accounts, prefix) == Err::<int, _>(SelectorError::Ambiguous),
{
    search::first_index_absent(accounts, has_id(prefix));
    search::first_index_absent(accounts, has_name(prefix));
    search::first_index_is_first(accounts, id_begins(prefix));
    assert(id_begins(prefix)(accounts[i]));
    let f = search::first_index(accounts, id_begins(prefix))->Some_0;
    if exists|j: int|
        0 <= j < accounts.len() && j != i && text::begins_with(
            (#[trigger] accounts[j]).id@,
            prefix,
        ) {
        let j = choose|j: int|
            0 <= j < accounts.len() && j != i && text::begins_with(
                (#[trigger] accounts[j]).id@,
                prefix,
            );
        assert(id_begins(prefix)(accounts[j]));
        let later = if i < j {
            j
        } else {
            i
        };
        assert(text::begins_with(accounts[later].id@, prefix));
        assert(f < later);
    } else {
        assert(id_begins(prefix)(accounts[f]));
    }
}

/// What fits no account names none, and neither does an empty text unless it is an
/// id or a name.
pub proof fn nothing_else_is_named(accounts: Seq<StoredAccount>, selector: Seq<char>)
    requires
        forall|j: int|
            0 <= j < accounts.len() ==> (#[trigger] accounts[j]).id@ != selector && accounts[j].name@
                != selector && (selector.len() == 0 || !text::begins_with(accounts[j].id@, selector)),
    ensures
        selected(accounts, selector) == Err::<int, _>(SelectorError::NotFound),
{
    search::first_index_absent(accounts, has_id(selector));
    search::first_index_absent(accounts, has_name(selector));
    search::first_index_is_first(accounts, id_begins(selector));
}

/// Usage is asked for the account that is selected; without a selector, for the one
/// that Codex is logged in with, and for none where that is not stored.
pub proof fn usage_is_of_the_account_asked_for(
    accounts: Seq<StoredAccount>,
    selector: Option<Seq<char>>,
    current_id: Option<Seq<char>>,
)
    ensures
        match usage_account(accounts, selector, current_id) {
            Ok(a) => {
                &&& accounts.contains(a)
                &&& selector matches Some(s) ==> selected(accounts, s) is Ok && a.id@
                    == accounts[selected(accounts, s)->Ok_0].id@
                &&& selector is None ==> current_id == Some(a.id@)
            },
            Err(e) => {
                &&& selector matches Some(s) ==> selected(accounts, s) is Err
                &&& selector is None ==> e == UsageAccountError::NoCurrent && forall|j: int|
                    0 <= j < accounts.len() ==> Some((#[trigger] accounts[j]).id@) != current_id
            },
        },
{
    if selector is Some {
        let s = selector->Some_0;
        search::first_index_is_first(accounts, has_id(s));
        search::first_index_is_first(accounts, has_name(s));
        search::first_index_is_first(accounts, id_begins(s));
        if selected(accounts, s) is Ok {
            let i = selected(accounts, s)->Ok_0;
            let p = has_id(accounts[i].id@);
            search::first_index_is_first(accounts, p);
            assert(p(accounts[i]));
        }
    } else if current_id is Some {
        let p = has_id(current_id->Some_0);
        search::first_index_is_first(accounts, p);
        if usage_account(accounts, selector, current_id) is Err {
            assert forall|j: int| 0 <= j < accounts.len() implies Some(
                (#[trigger] accounts[j]).id@,
            ) != current_id by {
                assert(!p(accounts[j]));
            }
        }
    }
}

/// A fresh ChatGPT account holds each token in its own place and keeps what the
/// login told of it.
pub proof fn fresh_chatgpt_accounts_keep_their_tokens(
    id: String,
    new: NewChatGptAccount,
    created_at: Timestamp,
    r: StoredAccount,
)
    requires
        call_ensures(StoredAccount::new_chatgpt, (id, new, created_at), r),
    ensures
        r.auth_data matches AuthData::ChatGPT { id_token, access_token, refresh_token, account_id } && {
            &&& id_token == new.id_token
            &&& access_token == new.access_token
            &&& refresh_token == new.refresh_token
            &&& account_id == new.account_id
        },
        r.id == id && r.name == new.name && r.email == new.email && r.plan_type == new.plan_type,
        r.chatgpt_user_id == new.chatgpt_user_id,
        r.chatgpt_account_is_fedramp == new.chatgpt_account_is_fedramp,
        r.subscription_expires_at == new.subscription_expires_at,
        r.token_last_refresh_at == Some(new.token_last_refresh_at),
        r.created_at == created_at && r.last_used_at is None,
        !r.auto_switch_disabled,
{
}

/// A fresh account with a key holds that key, under its id and name, and is enabled.
pub proof fn fresh_key_accounts_keep_their_key(
    id: String,
    name: String,
    key: String,
    created_at: Timestamp,
    r: StoredAccount,
)
    requires
        call_ensures(StoredAccount::new_api_key, (id, name, key, created_at), r),
    ensures
        r.auth_data matches AuthData::ApiKey { key: k } && k == key,
        r.id == id && r.name == name && r.created_at == created_at,
        !r.is_chatgpt() && r.last_used_at is None && !r.auto_switch_disabled,
{
}

/// Moments are in one order: of two different ones exactly one comes first.
pub proof fn moments_are_in_order(a: Timestamp, b: Timestamp, c: Timestamp)
    ensures
        a.is_before(b) ==> !b.is_before(a),
        a.is_before(b) && b.is_before(c) ==> a.is_before(c),
        a != b ==> a.is_before(b) || b.is_before(a),
        a.millis < b.millis ==> a.is_before(b),
{
}

/// The two kinds of login have their own names.
pub proof fn modes_have_names(a: AuthMode, b: AuthMode)
    ensures
        AuthMode::ChatGPT.name() == "chatgpt"@,
        AuthMode::ApiKey.name() == "api_key"@,
        a.name() == b.name() ==> a == b,
{
    reveal_strlit("chatgpt");
    reveal_strlit("api_key");
    assert("chatgpt"@.len() == 7);
    assert("api_key"@.len() == 7);
    assert("chatgpt"@[0] != "api_key"@[0]);

}

} // verus!
