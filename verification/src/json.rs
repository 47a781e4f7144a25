//! JSON values: a model, reading, editing and writing.
use crate::accounts;
use crate::search;
use crate::text;
use serde_json::Value;
use vstd::prelude::*;

verus! {

/// A JSON value. Numbers are kept as they are written.
#[derive(Debug)]
pub enum Json {
    Null,
    Bool(bool),
    Number(String),
    Text(String),
    List(Vec<Json>),
    Object(Vec<(String, Json)>),
}

/// What a JSON value is, free of how it is stored.
#[verifier::ext_equal]
pub enum JsonModel {
    Null,
    Bool(bool),
    Number(Seq<char>),
    Text(Seq<char>),
    List(Seq<JsonModel>),
    Object(Seq<(Seq<char>, JsonModel)>),
}

impl View for Json {
    type V = JsonModel;

    open spec fn view(&self) -> JsonModel {
        model(*self)
    }
}

pub open spec fn model(j: Json) -> JsonModel
    decreases j,
{
    match j {
        Json::Null => JsonModel::Null,
        Json::Bool(b) => JsonModel::Bool(b),
        Json::Number(n) => JsonModel::Number(n@),
        Json::Text(s) => JsonModel::Text(s@),
        Json::List(v) => JsonModel::List(
            Seq::new(
                v@.len(),
                |i: int|
                    if 0 <= i < v@.len() {
                        model(v@[i])
                    } else {
                        JsonModel::Null
                    },
            ),
        ),
        Json::Object(v) => JsonModel::Object(
            Seq::new(
                v@.len(),
                |i: int|
                    if 0 <= i < v@.len() {
                        (v@[i].0@, model(v@[i].1))
                    } else {
                        (Seq::empty(), JsonModel::Null)
                    },
            ),
        ),
    }
}

pub open spec fn entry_view(e: (String, Json)) -> (Seq<char>, JsonModel) {
    (e.0@, e.1@)
}

pub open spec fn entries_view(entries: Seq<(String, Json)>) -> Seq<(Seq<char>, JsonModel)> {
    entries.map_values(|e: (String, Json)| entry_view(e))
}

pub open spec fn list_view(items: Seq<Json>) -> Seq<JsonModel> {
    items.map_values(|e: Json| e@)
}

pub proof fn object_view(v: Vec<(String, Json)>)
    ensures
        Json::Object(v)@ == JsonModel::Object(entries_view(v@)),
{
    let shown = Json::Object(v)@->Object_0;
    assert(shown.len() == v@.len());
    assert forall|i: int| 0 <= i < v@.len() implies #[trigger] shown[i] == entries_view(v@)[i] by {
        assert(shown[i] == (v@[i].0@, v@[i].1.view()));
    }
    assert(shown =~= entries_view(v@));
}

pub proof fn items_view(v: Vec<Json>)
    ensures
        Json::List(v)@ == JsonModel::List(list_view(v@)),
{
    let m = Json::List(v)@;
    assert(m->List_0 =~= list_view(v@));
}

// ---------------------------------------------------------------------------
// Reading
// ---------------------------------------------------------------------------

pub open spec fn has_key(key: Seq<char>) -> spec_fn((Seq<char>, JsonModel)) -> bool {
    |e: (Seq<char>, JsonModel)| e.0 == key
}

/// The value that an object has under a key.
pub open spec fn field(m: JsonModel, key: Seq<char>) -> Option<JsonModel> {
    match m {
        JsonModel::Object(entries) => match search::first_index(entries, has_key(key)) {
            Some(i) => Some(entries[i].1),
            None => None,
        },
        _ => None,
    }
}

/// An object has under a key what its first entry with that key holds.
pub proof fn the_first_entry_is_read(entries: Seq<(Seq<char>, JsonModel)>, key: Seq<char>, i: int)
    requires
        0 <= i < entries.len(),
        entries[i].0 == key,
        forall|j: int| 0 <= j < i ==> (#[trigger] entries[j]).0 != key,
    ensures
        field(JsonModel::Object(entries), key) == Some(entries[i].1),
{
    search::first_index_unique(entries, has_key(key), i);
}

/// An object has nothing under a key that none of its entries has.
pub proof fn a_missing_key_is_not_read(entries: Seq<(Seq<char>, JsonModel)>, key: Seq<char>)
    requires
        forall|j: int| 0 <= j < entries.len() ==> (#[trigger] entries[j]).0 != key,
    ensures
        field(JsonModel::Object(entries), key) is None,
{
    search::first_index_absent(entries, has_key(key));
}

/// The value of a record that is written as an object, with its keys, or as a list,
/// with its values in order.
pub open spec fn part(m: JsonModel, key: Seq<char>, place: int) -> Option<JsonModel> {
    match m {
        JsonModel::List(items) => if 0 <= place < items.len() {
            Some(items[place])
        } else {
            None
        },
        _ => field(m, key),
    }
}

/// The value that is reached from `m` over two keys.
pub open spec fn field2(m: JsonModel, a: Seq<char>, b: Seq<char>) -> Option<JsonModel> {
    match field(m, a) {
        Some(inner) => field(inner, b),
        None => None,
    }
}

/// The value that is reached from `m` over three keys.
pub open spec fn field3(m: JsonModel, a: Seq<char>, b: Seq<char>, c: Seq<char>) -> Option<
    JsonModel,
> {
    match field2(m, a, b) {
        Some(inner) => field(inner, c),
        None => None,
    }
}

pub open spec fn text_of(m: JsonModel) -> Option<Seq<char>> {
    match m {
        JsonModel::Text(s) => Some(s),
        _ => None,
    }
}

/// The text that stands at an optional value.
pub open spec fn text_at(m: Option<JsonModel>) -> Option<Seq<char>> {
    match m {
        Some(v) => text_of(v),
        None => None,
    }
}

pub open spec fn is_value(found: Option<&Json>, expected: Option<JsonModel>) -> bool {
    match (found, expected) {
        (Some(j), Some(m)) => j@ == m,
        (None, None) => true,
        _ => false,
    }
}

fn position(entries: &Vec<(String, Json)>, key: &str) -> (r: Option<usize>)
    ensures
        match r {
            Some(i) => i < entries@.len() && search::first_index(
                entries_view(entries@),
                has_key(key@),
            ) == Some(i as int),
            None => search::first_index(entries_view(entries@), has_key(key@)) is None,
        },
{
    let mut i: usize = 0;
    while i < entries.len()
        invariant
            i <= entries@.len(),
            forall|k: int| 0 <= k < i ==> (#[trigger] entries@[k]).0@ != key@,
        decreases entries@.len() - i,
    {
        if text::same(entries[i].0.as_str(), key) {
            proof {
                let all = entries_view(entries@);
                assert forall|k: int| 0 <= k < i implies !has_key(key@)(#[trigger] all[k]) by {
                    assert(entries@[k].0@ != key@);
                }
                assert(has_key(key@)(all[i as int]));
                search::first_index_unique(all, has_key(key@), i as int);
            }
            return Some(i);
        }
        i = i + 1;
    }
    proof {
        let all = entries_view(entries@);
        assert forall|k: int| 0 <= k < all.len() implies !has_key(key@)(#[trigger] all[k]) by {
            assert(entries@[k].0@ != key@);
        }
        search::first_index_absent(all, has_key(key@));
    }
    None
}

impl Json {
    pub fn get(&self, key: &str) -> (r: Option<&Json>)
        ensures
            is_value(r, field(self@, key@)),
    {
        match self {
            Json::Object(entries) => {
                proof {
                    object_view(*entries);
                }
                match position(entries, key) {
                    Some(i) => {
                        assert(entries_view(entries@)[i as int] == entry_view(entries@[i as int]));
                        Some(&entries[i].1)
                    },
                    None => None,
                }
            },
            _ => None,
        }
    }

    pub fn part(&self, key: &str, place: usize) -> (r: Option<&Json>)
        ensures
            is_value(r, part(self@, key@, place as int)),
    {
        match self {
            Json::List(items) => {
                proof {
                    items_view(*items);
                }
                if place < items.len() {
                    assert(list_view(items@)[place as int] == items@[place as int]@);
                    Some(&items[place])
                } else {
                    None
                }
            },
            _ => self.get(key),
        }
    }

    pub fn get2(&self, a: &str, b: &str) -> (r: Option<&Json>)
        ensures
            is_value(r, field2(self@, a@, b@)),
    {
        match self.get(a) {
            Some(inner) => inner.get(b),
            None => None,
        }
    }

    pub fn get3(&self, a: &str, b: &str, c: &str) -> (r: Option<&Json>)
        ensures
            is_value(r, field3(self@, a@, b@, c@)),
    {
        match self.get2(a, b) {
            Some(inner) => inner.get(c),
            None => None,
        }
    }

    pub fn as_str(&self) -> (r: Option<&str>)
        ensures
            accounts::str_view(r) == text_of(self@),
    {
        match self {
            Json::Text(s) => Some(s.as_str()),
            _ => None,
        }
    }

    /// Another value with the same content.
    pub fn duplicate(&self) -> (r: Json)
        ensures
            r@ == self@,
        decreases self,
    {
        match self {
            Json::Null => Json::Null,
            Json::Bool(b) => Json::Bool(*b),
            Json::Number(n) => Json::Number(n.clone()),
            Json::Text(s) => Json::Text(s.clone()),
            Json::List(items) => {
                proof {
                    items_view(*items);
                }
                Json::duplicate_items(items)
            },
            Json::Object(entries) => {
                proof {
                    object_view(*entries);
                }
                Json::duplicate_entries(entries)
            },
        }
    }

    fn duplicate_items(items: &Vec<Json>) -> (r: Json)
        ensures
            r@ == JsonModel::List(list_view(items@)),
        decreases items,
    {
        let mut copy: Vec<Json> = Vec::new();
        let mut i: usize = 0;
        while i < items.len()
            invariant
                i <= items@.len(),
                copy@.len() == i,
                forall|k: int| 0 <= k < i ==> (#[trigger] copy@[k])@ == items@[k]@,
            decreases items@.len() - i,
        {
            copy.push(items[i].duplicate());
            i = i + 1;
        }
        proof {
            items_view(copy);
            assert(list_view(copy@) =~= list_view(items@));
        }
        Json::List(copy)
    }

    fn duplicate_entries(entries: &Vec<(String, Json)>) -> (r: Json)
        ensures
            r@ == JsonModel::Object(entries_view(entries@)),
        decreases entries,
    {
        let mut copy: Vec<(String, Json)> = Vec::new();
        let mut i: usize = 0;
        while i < entries.len()
            invariant
                i <= entries@.len(),
                copy@.len() == i,
                forall|k: int|
                    0 <= k < i ==> entry_view(#[trigger] copy@[k]) == entry_view(entries@[k]),
            decreases entries@.len() - i,
        {
            copy.push((entries[i].0.clone(), entries[i].1.duplicate()));
            i = i + 1;
        }
        proof {
            object_view(copy);
            assert(entries_view(copy@) =~= entries_view(entries@));
        }
        Json::Object(copy)
    }
}

/// The text that stands at an optional value.
pub fn text_in(value: Option<&Json>) -> (r: Option<&str>)
    ensures
        forall|m: Option<JsonModel>| is_value(value, m) ==> accounts::str_view(r) == #[trigger] text_at(
            m,
        ),
{
    match value {
        Some(j) => j.as_str(),
        None => None,
    }
}

/// Whether an optional text is the given one.
pub fn is_text(found: Option<&str>, expected: &str) -> (r: bool)
    ensures
        r == (accounts::str_view(found) == Some(expected@)),
{
    match found {
        Some(s) => text::same(s, expected),
        None => false,
    }
}

// ---------------------------------------------------------------------------
// Building and editing
// ---------------------------------------------------------------------------

pub fn text_value(s: &str) -> (r: Json)
    ensures
        r@ == JsonModel::Text(s@),
{
    Json::Text(s.to_owned())
}

pub open spec fn optional_text(s: Option<Seq<char>>) -> JsonModel {
    match s {
        Some(t) => JsonModel::Text(t),
        None => JsonModel::Null,
    }
}

pub fn optional_text_value(s: &Option<String>) -> (r: Json)
    ensures
        r@ == optional_text(text::opt_view(*s)),
{
    match s {
        Some(t) => Json::Text(t.clone()),
        None => Json::Null,
    }
}

pub fn object1(k: &str, v: Json) -> (r: Json)
    ensures
        r@ == JsonModel::Object(seq![(k@, v@)]),
{
    let mut entries: Vec<(String, Json)> = Vec::new();
    let ghost m = v@;
    entries.push((k.to_owned(), v));
    proof {
        object_view(entries);
        assert(entries_view(entries@) =~= seq![(k@, m)]);
    }
    Json::Object(entries)
}

pub fn object2(k1: &str, v1: Json, k2: &str, v2: Json) -> (r: Json)
    ensures
        r@ == JsonModel::Object(seq![(k1@, v1@), (k2@, v2@)]),
{
    let mut entries: Vec<(String, Json)> = Vec::new();
    let ghost m = (v1@, v2@);
    entries.push((k1.to_owned(), v1));
    entries.push((k2.to_owned(), v2));
    proof {
        object_view(entries);
        assert(entries_view(entries@) =~= seq![(k1@, m.0), (k2@, m.1)]);
    }
    Json::Object(entries)
}

pub fn object3(k1: &str, v1: Json, k2: &str, v2: Json, k3: &str, v3: Json) -> (r: Json)
    ensures
        r@ == JsonModel::Object(seq![(k1@, v1@), (k2@, v2@), (k3@, v3@)]),
{
    let mut entries: Vec<(String, Json)> = Vec::new();
    let ghost m = (v1@, v2@, v3@);
    entries.push((k1.to_owned(), v1));
    entries.push((k2.to_owned(), v2));
    entries.push((k3.to_owned(), v3));
    proof {
        object_view(entries);
        assert(entries_view(entries@) =~= seq![(k1@, m.0), (k2@, m.1), (k3@, m.2)]);
    }
    Json::Object(entries)
}

pub fn object4(
    k1: &str,
    v1: Json,
    k2: &str,
    v2: Json,
    k3: &str,
    v3: Json,
    k4: &str,
    v4: Json,
) -> (r: Json)
    ensures
        r@ == JsonModel::Object(seq![(k1@, v1@), (k2@, v2@), (k3@, v3@), (k4@, v4@)]),
{
    let mut entries: Vec<(String, Json)> = Vec::new();
    let ghost m = (v1@, v2@, v3@, v4@);
    entries.push((k1.to_owned(), v1));
    entries.push((k2.to_owned(), v2));
    entries.push((k3.to_owned(), v3));
    entries.push((k4.to_owned(), v4));
    proof {
        object_view(entries);
        assert(entries_view(entries@) =~= seq![(k1@, m.0), (k2@, m.1), (k3@, m.2), (k4@, m.3)]);
    }
    Json::Object(entries)
}

/// An entry, where there is a value for it.
pub open spec fn entry_if(key: Seq<char>, value: Option<JsonModel>) -> Seq<(Seq<char>, JsonModel)> {
    match value {
        Some(v) => seq![(key, v)],
        None => Seq::empty(),
    }
}

pub fn add_entry(entries: &mut Vec<(String, Json)>, key: &str, value: Json)
    ensures
        entries_view(final(entries)@) == entries_view(old(entries)@) + seq![(key@, value@)],
{
    let ghost before = entries@;
    let ghost shown = value@;
    entries.push((key.to_owned(), value));
    assert(entries_view(entries@) =~= entries_view(before) + seq![(key@, shown)]);
}

pub open spec fn option_view(value: Option<Json>) -> Option<JsonModel> {
    match value {
        Some(v) => Some(v@),
        None => None,
    }
}

pub fn add_if(entries: &mut Vec<(String, Json)>, key: &str, value: Option<Json>)
    ensures
        entries_view(final(entries)@) == entries_view(old(entries)@) + entry_if(
            key@,
            option_view(value),
        ),
{
    match value {
        Some(v) => add_entry(entries, key, v),
        None => {
            assert(entries_view(entries@) =~= entries_view(entries@) + Seq::empty());
        },
    }
}

pub fn list(items: Vec<Json>) -> (r: Json)
    ensures
        r@ == JsonModel::List(list_view(items@)),
{
    proof {
        items_view(items);
    }
    Json::List(items)
}

pub open spec fn integer(n: int) -> JsonModel {
    JsonModel::Number(text::decimal_int(n))
}

pub fn integer_value(n: i64) -> (r: Json)
    ensures
        r@ == integer(n as int),
{
    Json::Number(text::signed_number(n))
}

pub open spec fn optional_integer(n: Option<i64>) -> JsonModel {
    match n {
        Some(x) => integer(x as int),
        None => JsonModel::Null,
    }
}

pub fn optional_integer_value(n: Option<i64>) -> (r: Json)
    ensures
        r@ == optional_integer(n),
{
    match n {
        Some(x) => integer_value(x),
        None => Json::Null,
    }
}

pub open spec fn optional_bool(b: Option<bool>) -> JsonModel {
    match b {
        Some(x) => JsonModel::Bool(x),
        None => JsonModel::Null,
    }
}

pub fn optional_bool_value(b: Option<bool>) -> (r: Json)
    ensures
        r@ == optional_bool(b),
{
    match b {
        Some(x) => Json::Bool(x),
        None => Json::Null,
    }
}

pub open spec fn text_option(s: Option<Seq<char>>) -> Option<JsonModel> {
    match s {
        Some(t) => Some(JsonModel::Text(t)),
        None => None,
    }
}

pub fn text_if(s: &Option<String>) -> (r: Option<Json>)
    ensures
        option_view(r) == text_option(text::opt_view(*s)),
{
    match s {
        Some(t) => Some(Json::Text(t.clone())),
        None => None,
    }
}

/// The entries with `key` set to `value`: in its place where it is there, at
/// the end where it is not.
pub open spec fn put(
    entries: Seq<(Seq<char>, JsonModel)>,
    key: Seq<char>,
    value: JsonModel,
) -> Seq<(Seq<char>, JsonModel)> {
    match search::first_index(entries, has_key(key)) {
        Some(i) => entries.update(i, (key, value)),
        None => entries.push((key, value)),
    }
}

pub fn set_entry(entries: &mut Vec<(String, Json)>, key: &str, value: Json)
    ensures
        entries_view(final(entries)@) == put(entries_view(old(entries)@), key@, value@),
{
    let ghost before = entries@;
    let ghost given = value@;
    match position(entries, key) {
        Some(i) => {
            entries.set(i, (key.to_owned(), value));
            assert(entries_view(entries@) =~= entries_view(before).update(
                i as int,
                (key@, given),
            ));
        },
        None => {
            entries.push((key.to_owned(), value));
            assert(entries_view(entries@) =~= entries_view(before).push((key@, given)));
        },
    }
}

/// The value that stands under a key in an object's entries.
pub open spec fn entry_at(entries: Seq<(Seq<char>, JsonModel)>, key: Seq<char>) -> Option<
    JsonModel,
> {
    match search::first_index(entries, has_key(key)) {
        Some(i) => Some(entries[i].1),
        None => None,
    }
}

pub fn entry_of<'a>(entries: &'a Vec<(String, Json)>, key: &str) -> (r: Option<&'a Json>)
    ensures
        is_value(r, entry_at(entries_view(entries@), key@)),
{
    match position(entries, key) {
        Some(i) => {
            assert(entries_view(entries@)[i as int] == entry_view(entries@[i as int]));
            Some(&entries[i].1)
        },
        None => None,
    }
}

/// Takes the value out from under a key. What is set there next takes its place.
pub fn take_entry(entries: &mut Vec<(String, Json)>, key: &str) -> (r: Option<Json>)
    ensures
        match r {
            Some(j) => entry_at(entries_view(old(entries)@), key@) == Some(j@),
            None => entry_at(entries_view(old(entries)@), key@) is None,
        },
        forall|value: JsonModel| #[trigger]
            put(entries_view(final(entries)@), key@, value) == put(
                entries_view(old(entries)@),
                key@,
                value,
            ),
{
    let ghost before = entries@;
    match position(entries, key) {
        Some(i) => {
            let (name, value) = entries.remove(i);
            entries.insert(i, (name, Json::Null));
            proof {
                let a = entries_view(before);
                let b = entries_view(entries@);
                assert(a[i as int] == entry_view(before[i as int]));
                search::first_index_is_first(a, has_key(key@));
                assert(has_key(key@)(a[i as int]));
                assert(b =~= put(a, key@, JsonModel::Null));
                setting_again_anything(a, key@, JsonModel::Null);
            }
            Some(value)
        },
        None => None,
    }
}

pub fn object(entries: Vec<(String, Json)>) -> (r: Json)
    ensures
        r@ == JsonModel::Object(entries_view(entries@)),
{
    proof {
        object_view(entries);
    }
    Json::Object(entries)
}

proof fn setting_again_anything(
    entries: Seq<(Seq<char>, JsonModel)>,
    key: Seq<char>,
    value: JsonModel,
)
    ensures
        forall|next: JsonModel| #[trigger]
            put(put(entries, key, value), key, next) == put(entries, key, next),
{
    let after = put(entries, key, value);
    search::first_index_is_first(entries, has_key(key));
    let at = match search::first_index(entries, has_key(key)) {
        Some(i) => i,
        None => entries.len() as int,
    };
    assert(after[at].0 == key);
    assert forall|k: int| 0 <= k < at implies !has_key(key)(#[trigger] after[k]) by {
        assert(after[k] == entries[k]);
        assert(!has_key(key)(entries[k]));
    }
    search::first_index_unique(after, has_key(key), at);
    assert forall|next: JsonModel| #[trigger]
        put(put(entries, key, value), key, next) == put(entries, key, next) by {
        assert(put(after, key, next) =~= put(entries, key, next));
    }
}

/// Setting the same value again changes nothing.
pub proof fn setting_again(entries: Seq<(Seq<char>, JsonModel)>, key: Seq<char>, value: JsonModel)
    ensures
        put(put(entries, key, value), key, value) == put(entries, key, value),
{
    setting_again_anything(entries, key, value);
}

/// Setting a key makes it readable, and leaves what stands under any other key.
pub proof fn setting_is_reading(
    entries: Seq<(Seq<char>, JsonModel)>,
    key: Seq<char>,
    value: JsonModel,
    other: Seq<char>,
)
    ensures
        field(JsonModel::Object(put(entries, key, value)), key) == Some(value),
        other != key ==> field(JsonModel::Object(put(entries, key, value)), other) == field(
            JsonModel::Object(entries),
            other,
        ),
{
    let after = put(entries, key, value);
    search::first_index_is_first(entries, has_key(key));
    search::first_index_is_first(entries, has_key(other));
    match search::first_index(entries, has_key(key)) {
        Some(i) => {
            assert forall|k: int| 0 <= k < i implies !has_key(key)(#[trigger] after[k]) by {
                assert(after[k] == entries[k]);
                assert(!has_key(key)(entries[k]));
            }
            search::first_index_unique(after, has_key(key), i);
        },
        None => {
            let n = entries.len() as int;
            assert forall|k: int| 0 <= k < n implies !has_key(key)(#[trigger] after[k]) by {
                assert(after[k] == entries[k]);
                assert(!has_key(key)(entries[k]));
            }
            search::first_index_unique(after, has_key(key), n);
        },
    }
    if other != key {
        match search::first_index(entries, has_key(other)) {
            Some(j) => {
                assert(after[j] == entries[j]);
                assert forall|k: int| 0 <= k < j implies !has_key(other)(#[trigger] after[k]) by {
                    if k < entries.len() && after[k] == entries[k] {
                        assert(!has_key(other)(entries[k]));
                    }
                }
                search::first_index_unique(after, has_key(other), j);
            },
            None => {
                assert forall|k: int| 0 <= k < after.len() implies !has_key(other)(
                    #[trigger] after[k],
                ) by {
                    if k < entries.len() && after[k] == entries[k] {
                        assert(!has_key(other)(entries[k]));
                    }
                }
                search::first_index_absent(after, has_key(other));
            },
        }
    }
}

// ---------------------------------------------------------------------------
// Text
// ---------------------------------------------------------------------------

/// What `serde_json` reads a text as, or `None` where the text is no JSON.
pub uninterp spec fn parsed(text: Seq<char>) -> Option<JsonModel>;

/// A value as `serde_json` keeps it.
#[verifier::external_type_specification]
#[verifier::external_body]
pub struct ExValue(Value);

/// What such a value holds.
pub uninterp spec fn held(value: Value) -> JsonModel;

/// Where the text is that of a plain value, with line breaks or without, the value
/// itself was read.
pub open spec fn reads_back(read: Option<JsonModel>, text: Seq<char>) -> bool {
    &&& forall|m: JsonModel|
        is_plain(m, 100) && text == #[trigger] pretty_text(m) ==> read == Some(m)
    &&& forall|m: JsonModel| is_plain(m, 100) && text == #[trigger] rendered(m) ==> read == Some(m)
}

pub open spec fn held_if(value: Option<Value>) -> Option<JsonModel> {
    match value {
        Some(v) => Some(held(v)),
        None => None,
    }
}

/// `serde_json::from_str` into `serde_json::Value`. Claimed: what is read is that
/// of the text alone, and a plain value that was written reads back as itself. Not
/// stated: what the grammar is.
#[verifier::external_body]
fn read_value(text: &str) -> (r: Option<Value>)
    ensures
        held_if(r) == parsed(text@),
        reads_back(held_if(r), text@),
{
    serde_json::from_str(text).ok()
}

/// The outermost part of a value.
pub enum Apart<'a> {
    Null,
    Bool(bool),
    Number(String),
    Text(&'a String),
    List(&'a Vec<Value>),
    Object(Vec<(&'a String, &'a Value)>),
}

pub open spec fn held_items(items: Seq<Value>) -> Seq<JsonModel> {
    items.map_values(|v: Value| held(v))
}

pub open spec fn held_entry(e: (&String, &Value)) -> (Seq<char>, JsonModel) {
    (e.0@, held(*e.1))
}

pub open spec fn held_entries(entries: Seq<(&String, &Value)>) -> Seq<(Seq<char>, JsonModel)> {
    entries.map_values(|e: (&String, &Value)| held_entry(e))
}

pub open spec fn put_together(parts: Apart) -> JsonModel {
    match parts {
        Apart::Null => JsonModel::Null,
        Apart::Bool(b) => JsonModel::Bool(b),
        Apart::Number(n) => JsonModel::Number(n@),
        Apart::Text(s) => JsonModel::Text(s@),
        Apart::List(items) => JsonModel::List(held_items(items@)),
        Apart::Object(entries) => JsonModel::Object(held_entries(entries@)),
    }
}

/// The variants of `serde_json::Value`, with the entries of an object as
/// `serde_json::Map::iter` gives them and a number as its `Display` writes it.
/// Claimed: the parts are those of what the value holds.
#[verifier::external_body]
fn take_apart(value: &Value) -> (r: Apart<'_>)
    ensures
        put_together(r) == held(*value),
{
    match value {
        Value::Null => Apart::Null,
        Value::Bool(b) => Apart::Bool(*b),
        Value::Number(n) => Apart::Number(n.to_string()),
        Value::String(s) => Apart::Text(s),
        Value::Array(items) => Apart::List(items),
        Value::Object(entries) => Apart::Object(entries.iter().collect()),
    }
}

/// A value of `serde_json` as one of this library.
fn from_value(value: &Value) -> (r: Json)
    ensures
        r@ == held(*value),
    decreases held(*value),
{
    match take_apart(value) {
        Apart::Null => Json::Null,
        Apart::Bool(b) => Json::Bool(b),
        Apart::Number(n) => Json::Number(n),
        Apart::Text(s) => Json::Text(s.clone()),
        Apart::List(items) => {
            let mut list: Vec<Json> = Vec::new();
            let mut i: usize = 0;
            while i < items.len()
                invariant
                    i <= items@.len(),
                    held(*value) == JsonModel::List(held_items(items@)),
                    list_view(list@) == held_items(items@).take(i as int),
                decreases items@.len() - i,
            {
                let ghost all = held_items(items@);
                let ghost before = list@;
                proof {
                    let m = held(*value);
                    assert(decreases_to!(m => m->List_0));
                    assert(decreases_to!(all => all[i as int]));
                    assert(all[i as int] == held(items@[i as int]));
                }
                let inner = from_value(&items[i]);
                list.push(inner);
                assert(list_view(list@) =~= list_view(before).push(inner@));
                i = i + 1;
                assert(all.take(i as int) =~= all.take(i - 1).push(all[i - 1]));
            }
            assert(held_items(items@).take(i as int) =~= held_items(items@));
            proof {
                items_view(list);
            }
            Json::List(list)
        },
        Apart::Object(entries) => {
            let mut list: Vec<(String, Json)> = Vec::new();
            let mut i: usize = 0;
            while i < entries.len()
                invariant
                    i <= entries@.len(),
                    held(*value) == JsonModel::Object(held_entries(entries@)),
                    entries_view(list@) == held_entries(entries@).take(i as int),
                decreases entries@.len() - i,
            {
                let (key, inner) = entries[i];
                let ghost all = held_entries(entries@);
                let ghost before = list@;
                proof {
                    let m = held(*value);
                    assert(decreases_to!(m => m->Object_0));
                    assert(decreases_to!(all => all[i as int]));
                    assert(decreases_to!(all[i as int] => all[i as int].1));
                    assert(all[i as int] == held_entry(entries@[i as int]));
                }
                let entry = (key.clone(), from_value(inner));
                list.push(entry);
                assert(entries_view(list@) =~= entries_view(before).push(entry_view(entry)));
                i = i + 1;
                assert(all.take(i as int) =~= all.take(i - 1).push(all[i - 1]));
            }
            assert(held_entries(entries@).take(i as int) =~= held_entries(entries@));
            proof {
                object_view(list);
            }
            Json::Object(list)
        },
    }
}

/// Reads a text as JSON.
pub fn parse_json(text: &str) -> (r: Option<Json>)
    ensures
        match r {
            Some(j) => parsed(text@) == Some(j@),
            None => parsed(text@) is None,
        },
        reads_back(parsed(text@), text@),
{
    match read_value(text) {
        Some(value) => Some(from_value(&value)),
        None => None,
    }
}

/// Whether `serde_json` takes a text as JSON where nothing in it matters.
pub uninterp spec fn well_formed(text: Seq<char>) -> bool;

/// The text of a plain value is JSON.
pub open spec fn is_fine(fine: bool, text: Seq<char>) -> bool {
    forall|m: JsonModel| is_plain(m, 100) && text == #[trigger] pretty_text(m) ==> fine
}

/// `serde_json::from_str` into `serde::de::IgnoredAny`. Claimed: the outcome is that
/// of the text alone, and a plain value that was written with line breaks is taken.
/// Not stated: what the grammar is.
#[verifier::external_body]
pub(crate) fn is_json(text: &str) -> (r: bool)
    ensures
        r == well_formed(text@),
        is_fine(r, text@),
{
    serde_json::from_str::<serde::de::IgnoredAny>(text).is_ok()
}

/// The lower-case hexadecimal digit of a value below sixteen.
pub open spec fn hex_char(v: int) -> char {
    if v < 10 {
        ('0' as int + v) as char
    } else {
        ('a' as int + (v - 10)) as char
    }
}

/// What stands for a character inside of a JSON string.
pub open spec fn escaped(c: char) -> Seq<char> {
    if c == '"' || c == '\\' {
        seq!['\\', c]
    } else if c == '\u{8}' {
        seq!['\\', 'b']
    } else if c == '\t' {
        seq!['\\', 't']
    } else if c == '\n' {
        seq!['\\', 'n']
    } else if c == '\u{c}' {
        seq!['\\', 'f']
    } else if c == '\r' {
        seq!['\\', 'r']
    } else if (c as u32) < 0x20 {
        seq!['\\', 'u', '0', '0', hex_char(c as int / 16), hex_char(c as int % 16)]
    } else {
        seq![c]
    }
}

pub open spec fn escaped_text(s: Seq<char>) -> Seq<char>
    decreases s.len(),
{
    if s.len() == 0 {
        Seq::empty()
    } else {
        escaped_text(s.drop_last()) + escaped(s.last())
    }
}

/// A text as a JSON string.
pub open spec fn quoted(s: Seq<char>) -> Seq<char> {
    seq!['"'] + escaped_text(s) + seq!['"']
}

/// The `Display` of a `serde_json::Value` that holds a text: the text between
/// quotes, with quotes, backslashes and control characters escaped.
#[verifier::external_body]
fn quote(s: &str) -> (r: String)
    ensures
        r@ == quoted(s@),
{
    serde_json::Value::from(s).to_string()
}

/// The compact text of a JSON value.
pub open spec fn rendered(m: JsonModel) -> Seq<char>
    decreases m,
{
    match m {
        JsonModel::Null => "null"@,
        JsonModel::Bool(b) => if b {
            "true"@
        } else {
            "false"@
        },
        JsonModel::Number(n) => n,
        JsonModel::Text(s) => quoted(s),
        JsonModel::List(items) => "["@ + rendered_items(items) + "]"@,
        JsonModel::Object(entries) => "{"@ + rendered_entries(entries) + "}"@,
    }
}

pub open spec fn rendered_items(items: Seq<JsonModel>) -> Seq<char>
    decreases items,
{
    if items.len() == 0 {
        Seq::empty()
    } else if items.len() == 1 {
        rendered(items[0])
    } else {
        rendered_items(items.drop_last()) + ","@ + rendered(items.last())
    }
}

pub open spec fn rendered_entries(entries: Seq<(Seq<char>, JsonModel)>) -> Seq<char>
    decreases entries,
{
    if entries.len() == 0 {
        Seq::empty()
    } else if entries.len() == 1 {
        quoted(entries[0].0) + ":"@ + rendered(entries[0].1)
    } else {
        rendered_entries(entries.drop_last()) + ","@ + quoted(entries.last().0) + ":"@ + rendered(
            entries.last().1,
        )
    }
}

impl Json {
    pub fn render(&self) -> (r: String)
        ensures
            r@ == rendered(self@),
        decreases self,
    {
        match self {
            Json::Null => "null".to_owned(),
            Json::Bool(b) => if *b {
                "true".to_owned()
            } else {
                "false".to_owned()
            },
            Json::Number(n) => n.clone(),
            Json::Text(s) => quote(s.as_str()),
            Json::List(items) => {
                proof {
                    items_view(*items);
                }
                let inner = Json::render_items(items);
                text::cat3("[", inner.as_str(), "]")
            },
            Json::Object(entries) => {
                proof {
                    object_view(*entries);
                }
                let inner = Json::render_entries(entries);
                text::cat3("{", inner.as_str(), "}")
            },
        }
    }

    fn render_items(items: &Vec<Json>) -> (r: String)
        ensures
            r@ == rendered_items(list_view(items@)),
        decreases items,
    {
        let mut r = String::new();
        let ghost all = list_view(items@);
        let mut i: usize = 0;
        assert(all.take(0) =~= Seq::empty());
        while i < items.len()
            invariant
                i <= items@.len(),
                all == list_view(items@),
                r@ == rendered_items(all.take(i as int)),
            decreases items@.len() - i,
        {
            let shown = items[i].render();
            let ghost next = all.take(i as int + 1);
            assert(next.drop_last() =~= all.take(i as int));
            assert(all[i as int] == items@[i as int]@);
            if i == 0 {
                r = shown;
            } else {
                r = text::cat3(r.as_str(), ",", shown.as_str());
            }
            i = i + 1;
        }
        assert(all.take(i as int) =~= all);
        r
    }

    fn render_entries(entries: &Vec<(String, Json)>) -> (r: String)
        ensures
            r@ == rendered_entries(entries_view(entries@)),
        decreases entries,
    {
        let mut r = String::new();
        let ghost all = entries_view(entries@);
        let mut i: usize = 0;
        assert(all.take(0) =~= Seq::empty());
        while i < entries.len()
            invariant
                i <= entries@.len(),
                all == entries_view(entries@),
                r@ == rendered_entries(all.take(i as int)),
            decreases entries@.len() - i,
        {
            let key = quote(entries[i].0.as_str());
            let shown = entries[i].1.render();
            let ghost next = all.take(i as int + 1);
            assert(next.drop_last() =~= all.take(i as int));
            assert(all[i as int] == entry_view(entries@[i as int]));
            if i == 0 {
                r = text::cat3(key.as_str(), ":", shown.as_str());
            } else {
                r = text::cat5(r.as_str(), ",", key.as_str(), ":", shown.as_str());
            }
            i = i + 1;
        }
        assert(all.take(i as int) =~= all);
        r
    }
}

// ---------------------------------------------------------------------------
// Text with line breaks
// ---------------------------------------------------------------------------

/// The text of a JSON value with one line for each entry, behind a margin.
pub open spec fn pretty(m: JsonModel, margin: Seq<char>) -> Seq<char>
    decreases m,
{
    match m {
        JsonModel::List(items) => if items.len() == 0 {
            "[]"@
        } else {
            "[\n"@ + pretty_items(items, margin + "  "@) + "\n"@ + margin + "]"@
        },
        JsonModel::Object(entries) => if entries.len() == 0 {
            "{}"@
        } else {
            "{\n"@ + pretty_entries(entries, margin + "  "@) + "\n"@ + margin + "}"@
        },
        _ => rendered(m),
    }
}

pub open spec fn pretty_items(items: Seq<JsonModel>, margin: Seq<char>) -> Seq<char>
    decreases items,
{
    if items.len() == 0 {
        Seq::empty()
    } else if items.len() == 1 {
        margin + pretty(items[0], margin)
    } else {
        pretty_items(items.drop_last(), margin) + ",\n"@ + margin + pretty(items.last(), margin)
    }
}

pub open spec fn pretty_entries(
    entries: Seq<(Seq<char>, JsonModel)>,
    margin: Seq<char>,
) -> Seq<char>
    decreases entries,
{
    if entries.len() == 0 {
        Seq::empty()
    } else if entries.len() == 1 {
        margin + quoted(entries[0].0) + ": "@ + pretty(entries[0].1, margin)
    } else {
        pretty_entries(entries.drop_last(), margin) + ",\n"@ + margin + quoted(entries.last().0)
            + ": "@ + pretty(entries.last().1, margin)
    }
}

/// What is written to a file or shown: the text, and a line break behind it.
pub open spec fn pretty_text(m: JsonModel) -> Seq<char> {
    pretty(m, Seq::empty()) + "\n"@
}

/// `a` goes before `b` where texts are put in order.
pub open spec fn is_less(a: Seq<char>, b: Seq<char>) -> bool
    decreases a.len(),
{
    if b.len() == 0 {
        false
    } else if a.len() == 0 {
        true
    } else if a[0] == b[0] {
        is_less(a.drop_first(), b.drop_first())
    } else {
        (a[0] as u32) < (b[0] as u32)
    }
}

/// A value that any reader takes as it is: whole numbers without a sign that fit
/// in 64 bits, the keys of an object in order and no key twice, and not too deep.
pub open spec fn is_plain(m: JsonModel, depth: int) -> bool
    decreases m,
{
    match m {
        JsonModel::Null | JsonModel::Bool(_) | JsonModel::Text(_) => true,
        JsonModel::Number(n) => exists|k: nat| k <= u64::MAX && n == #[trigger] text::decimal(k),
        JsonModel::List(items) => depth > 0 && are_plain(items, depth - 1),
        JsonModel::Object(entries) => depth > 0 && entries_are_plain(entries, depth - 1),
    }
}

pub open spec fn are_plain(items: Seq<JsonModel>, depth: int) -> bool
    decreases items,
{
    items.len() == 0 || (are_plain(items.drop_last(), depth) && is_plain(items.last(), depth))
}

pub open spec fn entries_are_plain(entries: Seq<(Seq<char>, JsonModel)>, depth: int) -> bool
    decreases entries,
{
    entries.len() == 0 || {
        &&& entries_are_plain(entries.drop_last(), depth)
        &&& is_plain(entries.last().1, depth)
        &&& entries.len() > 1 ==> is_less(entries[entries.len() - 2].0, entries.last().0)
    }
}

impl Json {
    /// Writes a value with line breaks, behind a margin.
    pub fn render_pretty(&self, margin: &str) -> (r: String)
        ensures
            r@ == pretty(self@, margin@),
        decreases self,
    {
        match self {
            Json::List(items) => {
                proof {
                    items_view(*items);
                }
                if items.len() == 0 {
                    return "[]".to_owned();
                }
                let deeper = text::cat2(margin, "  ");
                let inner = Json::render_pretty_items(items, deeper.as_str());
                text::cat5("[\n", inner.as_str(), "\n", margin, "]")
            },
            Json::Object(entries) => {
                proof {
                    object_view(*entries);
                }
                if entries.len() == 0 {
                    return "{}".to_owned();
                }
                let deeper = text::cat2(margin, "  ");
                let inner = Json::render_pretty_entries(entries, deeper.as_str());
                text::cat5("{\n", inner.as_str(), "\n", margin, "}")
            },
            _ => self.render(),
        }
    }

    fn render_pretty_items(items: &Vec<Json>, margin: &str) -> (r: String)
        ensures
            r@ == pretty_items(list_view(items@), margin@),
        decreases items,
    {
        let ghost all = list_view(items@);
        let mut r = String::new();
        let mut i: usize = 0;
        assert(all.take(0) =~= Seq::empty());
        while i < items.len()
            invariant
                i <= items@.len(),
                all == list_view(items@),
                r@ == pretty_items(all.take(i as int), margin@),
            decreases items@.len() - i,
        {
            assert(all[i as int] == items@[i as int]@);
            let shown = items[i].render_pretty(margin);
            let ghost next = all.take(i as int + 1);
            assert(next.drop_last() =~= all.take(i as int));
            if i == 0 {
                r = text::cat2(margin, shown.as_str());
            } else {
                r = text::cat4(r.as_str(), ",\n", margin, shown.as_str());
            }
            i = i + 1;
        }
        assert(all.take(i as int) =~= all);
        r
    }

    fn render_pretty_entries(entries: &Vec<(String, Json)>, margin: &str) -> (r: String)
        ensures
            r@ == pretty_entries(entries_view(entries@), margin@),
        decreases entries,
    {
        let ghost all = entries_view(entries@);
        let mut r = String::new();
        let mut i: usize = 0;
        assert(all.take(0) =~= Seq::empty());
        while i < entries.len()
            invariant
                i <= entries@.len(),
                all == entries_view(entries@),
                r@ == pretty_entries(all.take(i as int), margin@),
            decreases entries@.len() - i,
        {
            assert(all[i as int] == entry_view(entries@[i as int]));
            let key = quote(entries[i].0.as_str());
            let shown = entries[i].1.render_pretty(margin);
            let ghost next = all.take(i as int + 1);
            assert(next.drop_last() =~= all.take(i as int));
            if i == 0 {
                r = text::cat4(margin, key.as_str(), ": ", shown.as_str());
            } else {
                r = text::cat6(r.as_str(), ",\n", margin, key.as_str(), ": ", shown.as_str());
            }
            i = i + 1;
        }
        assert(all.take(i as int) =~= all);
        r
    }

    /// Writes a value with line breaks, and one behind it.
    pub fn render_file(&self) -> (r: String)
        ensures
            r@ == pretty_text(self@),
    {
        proof {
            reveal_strlit("");
            assert(""@ =~= Seq::<char>::empty());
        }
        let body = self.render_pretty("");
        text::cat2(body.as_str(), "\n")
    }
}

// ---------------------------------------------------------------------------
// Laws
// ---------------------------------------------------------------------------

/// A value that is no list and no object is written as itself; a text between quotes.
pub proof fn values_are_written_as_themselves(n: Seq<char>, s: Seq<char>)
    ensures
        rendered(JsonModel::Null) == "null"@,
        rendered(JsonModel::Bool(true)) == "true"@,
        rendered(JsonModel::Bool(false)) == "false"@,
        rendered(JsonModel::Number(n)) == n,
        rendered(JsonModel::Text(s))[0] == '"',
        rendered(JsonModel::Text(s)).last() == '"',
        rendered(JsonModel::Text(s)).len() >= s.len() + 2,
        rendered(JsonModel::List(Seq::empty())) == "[]"@,
        rendered(JsonModel::Object(Seq::empty())) == "{}"@,
{
    escaping_never_shortens(s);
    reveal_strlit("[]");
    reveal_strlit("[");
    reveal_strlit("]");
    reveal_strlit("{}");
    reveal_strlit("{");
    reveal_strlit("}");
    assert(rendered(JsonModel::List(Seq::empty())) =~= "[]"@);
    assert(rendered(JsonModel::Object(Seq::empty())) =~= "{}"@);
}

proof fn escaping_never_shortens(s: Seq<char>)
    ensures
        escaped_text(s).len() >= s.len(),
    decreases s.len(),
{
    if s.len() > 0 {
        escaping_never_shortens(s.drop_last());
    }
}

/// The items of a list and the entries of an object follow each other with a comma
/// between them, each key with a colon before its value.
pub proof fn items_follow_each_other(
    items: Seq<JsonModel>,
    entries: Seq<(Seq<char>, JsonModel)>,
    key: Seq<char>,
    m: JsonModel,
)
    ensures
        items.len() > 0 ==> rendered_items(items.push(m)) == rendered_items(items) + ","@
            + rendered(m),
        items.len() == 0 ==> rendered_items(items.push(m)) == rendered(m),
        entries.len() > 0 ==> rendered_entries(entries.push((key, m))) == rendered_entries(entries)
            + ","@ + rendered_entries(seq![(key, m)]),
        rendered_entries(seq![(key, m)]) == rendered(JsonModel::Text(key)) + ":"@ + rendered(m),
{
    assert(items.push(m).drop_last() =~= items);
    let e = entries.push((key, m));
    assert(e.drop_last() =~= entries);
    if entries.len() > 0 {
        let one = quoted(key) + ":"@ + rendered(m);
        assert(rendered_entries(e) =~= rendered_entries(entries) + ","@ + one);
    }
}

/// With line breaks each item and each entry has a line of its own, two spaces deeper
/// than what it is in.
pub proof fn items_have_their_own_lines(
    items: Seq<JsonModel>,
    entries: Seq<(Seq<char>, JsonModel)>,
    key: Seq<char>,
    m: JsonModel,
    margin: Seq<char>,
)
    ensures
        items.len() > 0 ==> pretty(JsonModel::List(items), margin) == "[\n"@ + pretty_items(
            items,
            margin + "  "@,
        ) + "\n"@ + margin + "]"@,
        entries.len() > 0 ==> pretty(JsonModel::Object(entries), margin) == "{\n"@
            + pretty_entries(entries, margin + "  "@) + "\n"@ + margin + "}"@,
        pretty_items(seq![m], margin) == margin + pretty(m, margin),
        pretty_entries(seq![(key, m)], margin) == margin + rendered(JsonModel::Text(key)) + ": "@
            + pretty(m, margin),
        entries.len() > 0 ==> pretty_entries(entries.push((key, m)), margin) == pretty_entries(
            entries,
            margin,
        ) + ",\n"@ + pretty_entries(seq![(key, m)], margin),
        items.len() > 0 ==> pretty_items(items.push(m), margin) == pretty_items(items, margin)
            + ",\n"@ + pretty_items(seq![m], margin),
        !(m is List) && !(m is Object) ==> pretty(m, margin) == rendered(m),
        pretty_text(m) == pretty(m, Seq::empty()) + "\n"@,
{
    assert(items.push(m).drop_last() =~= items);
    let e = entries.push((key, m));
    assert(e.drop_last() =~= entries);
    let one = margin + quoted(key) + ": "@ + pretty(m, margin);
    if entries.len() > 0 {
        assert(pretty_entries(e, margin) =~= pretty_entries(entries, margin) + ",\n"@ + one);
    }
    if items.len() > 0 {
        assert(pretty_items(items.push(m), margin) =~= pretty_items(items, margin) + ",\n"@ + (
        margin + pretty(m, margin)));
    }
}

/// A plain character stands for itself, a quote and a backslash have a backslash before
/// them, and no control character is left.
pub proof fn control_characters_are_escaped(c: char, i: int)
    requires
        0 <= i < escaped(c).len(),
    ensures
        escaped(c)[i] as u32 >= 0x20,
        c as u32 >= 0x20 && c != '"' && c != '\\' ==> escaped(c) == seq![c],
        c == '"' || c == '\\' ==> escaped(c) == seq!['\\', c],
        (c as u32) < 0x20 ==> escaped(c)[0] == '\\',
        c == '\n' ==> escaped(c) == seq!['\\', 'n'],
        c == '\t' ==> escaped(c) == seq!['\\', 't'],
        c == '\r' ==> escaped(c) == seq!['\\', 'r'],
{
}

/// Two texts are in order by the first character in which they differ; the beginning
/// of a text comes before it.
pub proof fn texts_are_in_order(front: Seq<char>, a: Seq<char>, b: Seq<char>)
    ensures
        b.len() > 0 ==> is_less(front, front + b),
        !is_less(front + b, front),
        a.len() > 0 && b.len() > 0 && a[0] != b[0] ==> (is_less(front + a, front + b)
            <==> (a[0] as u32) < (b[0] as u32)),
    decreases front.len(),
{
    if front.len() > 0 {
        let rest = front.drop_first();
        texts_are_in_order(rest, a, b);
        assert((front + b).drop_first() =~= rest + b);
        assert((front + a).drop_first() =~= rest + a);
        assert((front + b)[0] == front[0] && (front + a)[0] == front[0]);
    } else {
        assert(front + b =~= b);
        assert(front + a =~= a);
    }
}

proof fn chars_keep_apart(a: char, b: char)
    ensures
        a as u32 == b as u32 ==> a == b,
{
}

/// Of two different texts one comes before the other.
pub proof fn different_texts_are_ordered(a: Seq<char>, b: Seq<char>)
    ensures
        is_less(a, b) || is_less(b, a) || a == b,
        !(is_less(a, b) && is_less(b, a)),
    decreases a.len(),
{
    if a.len() > 0 && b.len() > 0 && a[0] == b[0] {
        different_texts_are_ordered(a.drop_first(), b.drop_first());
        if a.drop_first() == b.drop_first() {
            assert(a =~= seq![a[0]] + a.drop_first());
            assert(b =~= seq![b[0]] + b.drop_first());
        }
    } else if a.len() == 0 && b.len() == 0 {
        assert(a =~= b);
    } else if a.len() > 0 && b.len() > 0 {
        chars_keep_apart(a[0], b[0]);
    }
}

/// A value below others is reached key by key.
pub proof fn values_are_reached_key_by_key(
    inner: JsonModel,
    a: Seq<char>,
    b: Seq<char>,
    c: Seq<char>,
)
    ensures
        field(JsonModel::Object(seq![(a, inner)]), a) == Some(inner),
        field2(JsonModel::Object(seq![(a, inner)]), a, b) == field(inner, b),
        field3(JsonModel::Object(seq![(a, inner)]), a, b, c) == field2(inner, b, c),
        field2(inner, a, b) is None ==> field3(inner, a, b, c) is None,
        field(inner, a) is None ==> field2(inner, a, b) is None,
{
    the_first_entry_is_read(seq![(a, inner)], a, 0);
}

/// A part of a record is read by its key from an object and by its place from a list.
pub proof fn parts_are_read_by_key_or_place(m: JsonModel, key: Seq<char>, place: int)
    ensures
        m is Object ==> part(m, key, place) == field(m, key),
        m is List && 0 <= place < m->List_0.len() ==> part(m, key, place) == Some(m->List_0[place]),
        m is List && place >= m->List_0.len() ==> part(m, key, place) is None,
        !(m is Object) && !(m is List) ==> part(m, key, place) is None,
{
}

/// What is optional is written as null where it is missing, and a text only where it is
/// one.
pub proof fn missing_values_are_null(s: Seq<char>, n: i64, b: bool, m: JsonModel)
    ensures
        optional_text(Some(s)) == JsonModel::Text(s) && optional_text(None) == JsonModel::Null,
        optional_integer(Some(n)) == JsonModel::Number(text::decimal_int(n as int))
            && optional_integer(None) == JsonModel::Null,
        optional_bool(Some(b)) == JsonModel::Bool(b) && optional_bool(None) == JsonModel::Null,
        text_option(Some(s)) == Some(JsonModel::Text(s)) && text_option(None) is None,
        m is Text ==> text_of(m) == Some(m->Text_0),
        !(m is Text) ==> text_of(m) is None,
        entry_if(s, Some(m)) == seq![(s, m)] && entry_if(s, None).len() == 0,
{
}

} // verus!
