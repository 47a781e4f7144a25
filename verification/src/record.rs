//! Records: objects of JSON whose keys are known, read from the text itself.
//!
//! A record may also be written as a list, with its values in order. No key of it
//! may stand there twice, and what stands under other keys does not matter. So the
//! text is split into the members of its outermost object or list, and only the
//! values that are asked for are read.
use crate::json;
use crate::json::{Json, JsonModel};
use crate::search;
use crate::text;
use vstd::prelude::*;

verus! {

// ---------------------------------------------------------------------------
// Splitting
// ---------------------------------------------------------------------------

/// How far a text has been split.
#[verifier::ext_equal]
pub struct Split {
    /// The outermost bracket, or a blank before it.
    pub open: char,
    /// How many brackets are open.
    pub depth: nat,
    /// Inside of a string.
    pub quoted: bool,
    /// Behind a backslash in a string.
    pub escaped: bool,
    pub done: Seq<Seq<char>>,
    pub piece: Seq<char>,
}

pub open spec fn unsplit() -> Split {
    Split {
        open: ' ',
        depth: 0,
        quoted: false,
        escaped: false,
        done: Seq::empty(),
        piece: Seq::empty(),
    }
}

pub open spec fn is_blank(c: char) -> bool {
    c == ' ' || c == '\n' || c == '\r' || c == '\t'
}

/// One character more. At the outermost level a comma, a colon and the closing
/// bracket end a piece; blanks between the parts of the text are left out.
pub open spec fn split_on(s: Split, c: char) -> Split {
    if s.quoted {
        Split {
            quoted: s.escaped || c != '"',
            escaped: !s.escaped && c == '\\',
            piece: s.piece.push(c),
            ..s
        }
    } else if is_blank(c) {
        s
    } else if s.depth == 0 {
        if c == '{' || c == '[' {
            Split { open: c, depth: 1, ..s }
        } else {
            Split { quoted: c == '"', ..s }
        }
    } else if s.depth == 1 && (c == ',' || c == ':' || c == '}' || c == ']') {
        Split {
            depth: if c == ',' || c == ':' {
                1
            } else {
                0
            },
            done: s.done.push(s.piece),
            piece: Seq::empty(),
            ..s
        }
    } else {
        Split {
            depth: if c == '{' || c == '[' {
                s.depth + 1
            } else if c == '}' || c == ']' {
                (s.depth - 1) as nat
            } else {
                s.depth
            },
            quoted: c == '"',
            piece: s.piece.push(c),
            ..s
        }
    }
}

pub open spec fn split_from(s: Split, t: Seq<char>) -> Split
    decreases t.len(),
{
    if t.len() == 0 {
        s
    } else {
        split_on(split_from(s, t.drop_last()), t.last())
    }
}

/// What stands between the outermost brackets, piece by piece.
pub open spec fn pieces_in(t: Seq<char>) -> Seq<Seq<char>> {
    let done = split_from(unsplit(), t).done;
    if done.len() == 1 && done[0].len() == 0 {
        Seq::empty()
    } else {
        done
    }
}

pub open spec fn bracket_of(t: Seq<char>) -> char {
    split_from(unsplit(), t).open
}

fn split(t: &str) -> (r: (char, Vec<String>))
    ensures
        r.0 == bracket_of(t@),
        text::views(r.1@) == pieces_in(t@),
{
    let v = text::to_chars(t);
    let mut open: char = ' ';
    let mut depth: usize = 0;
    let mut quoted: bool = false;
    let mut escaped: bool = false;
    let mut done: Vec<String> = Vec::new();
    let mut piece = String::new();
    let mut i: usize = 0;
    assert(text::views(done@) =~= Seq::empty());
    assert(piece@ =~= Seq::empty());
    assert(v@.take(0) =~= Seq::empty());
    while i < v.len()
        invariant
            i <= v@.len(),
            depth <= i,
            split_from(unsplit(), v@.take(i as int)) == (Split {
                open,
                depth: depth as nat,
                quoted,
                escaped,
                done: text::views(done@),
                piece: piece@,
            }),
        decreases v@.len() - i,
    {
        let c: char = v[i];
        let ghost before = done@;
        assert(v@.take(i as int + 1).drop_last() =~= v@.take(i as int));
        if quoted {
            quoted = escaped || c != '"';
            escaped = !escaped && c == '\\';
            piece.push(c);
        } else if c == ' ' || c == '\n' || c == '\r' || c == '\t' {
        } else if depth == 0 {
            if c == '{' || c == '[' {
                open = c;
                depth = 1;
            } else {
                quoted = c == '"';
            }
        } else if depth == 1 && (c == ',' || c == ':' || c == '}' || c == ']') {
            if c == '}' || c == ']' {
                depth = 0;
            }
            let ghost shown = piece@;
            done.push(piece);
            piece = String::new();
            assert(piece@ =~= Seq::empty());
            assert(text::views(done@) =~= text::views(before).push(shown));
        } else {
            if c == '{' || c == '[' {
                depth = depth + 1;
            } else if c == '}' || c == ']' {
                depth = depth - 1;
            }
            quoted = c == '"';
            piece.push(c);
        }
        i = i + 1;
    }
    assert(v@.take(i as int) =~= t@);
    if done.len() == 1 {
        assert(text::views(done@)[0] == done@[0]@);
        if done[0].as_str().is_empty() {
            let none: Vec<String> = Vec::new();
            assert(text::views(none@) =~= Seq::empty());
            return (open, none);
        }
    }
    (open, done)
}

// ---------------------------------------------------------------------------
// Records
// ---------------------------------------------------------------------------

/// The members of a text: the keys of an object, and the texts of the values.
pub struct Record {
    pub is_list: bool,
    pub keys: Vec<String>,
    pub values: Vec<String>,
}

#[verifier::ext_equal]
pub struct RecordView {
    pub is_list: bool,
    pub keys: Seq<Seq<char>>,
    pub values: Seq<Seq<char>>,
}

impl View for Record {
    type V = RecordView;

    open spec fn view(&self) -> RecordView {
        RecordView {
            is_list: self.is_list,
            keys: text::views(self.keys@),
            values: text::views(self.values@),
        }
    }
}

/// The keys of the first `n` members, where all of them can be read.
pub open spec fn keys_in(pieces: Seq<Seq<char>>, n: int) -> Option<Seq<Seq<char>>>
    decreases n,
{
    if n <= 0 {
        Some(Seq::empty())
    } else {
        match (keys_in(pieces, n - 1), json::parsed(pieces[2 * n - 2])) {
            (Some(init), Some(JsonModel::Text(k))) => Some(init.push(k)),
            _ => None,
        }
    }
}

pub open spec fn values_in(pieces: Seq<Seq<char>>, n: int) -> Seq<Seq<char>> {
    Seq::new(n as nat, |i: int| pieces[2 * i + 1])
}

/// The members of the outermost object or list of a text.
pub open spec fn record_in(t: Seq<char>) -> Option<RecordView> {
    let pieces = pieces_in(t);
    let n = pieces.len() as int / 2;
    if bracket_of(t) == '[' {
        Some(RecordView { is_list: true, keys: Seq::empty(), values: pieces })
    } else if bracket_of(t) == '{' && pieces.len() % 2 == 0 {
        match keys_in(pieces, n) {
            Some(keys) => Some(RecordView { is_list: false, keys, values: values_in(pieces, n) }),
            None => None,
        }
    } else {
        None
    }
}

pub open spec fn record_view(r: Option<Record>) -> Option<RecordView> {
    match r {
        Some(x) => Some(x@),
        None => None,
    }
}

proof fn one_bad_key_is_enough(pieces: Seq<Seq<char>>, n: int, m: int)
    requires
        0 <= n <= m,
        keys_in(pieces, n) is None,
    ensures
        keys_in(pieces, m) is None,
    decreases m - n,
{
    if n < m {
        one_bad_key_is_enough(pieces, n, m - 1);
    }
}

/// Keys that were written were read.
pub open spec fn keys_read_back(pieces: Seq<Seq<char>>, n: int) -> bool {
    forall|i: int|
        #![trigger pieces[2 * i]]
        0 <= i < n ==> json::reads_back(json::parsed(pieces[2 * i]), pieces[2 * i])
}

/// Splits a text that is JSON into the members of its outermost object or list.
pub fn members(t: &str) -> (r: Option<Record>)
    ensures
        record_view(r) == record_in(t@),
        r matches Some(x) ==> x.wf(),
        forall|e: Seq<(Seq<char>, JsonModel)>| #[trigger]
            is_written(t@, e) ==> record_in(t@) == Some(record_of(e)),
{
    let (open, pieces) = split(t);
    let ghost all = pieces_in(t@);
    assert(text::views(pieces@).len() == pieces@.len());
    if open == '[' {
        let keys: Vec<String> = Vec::new();
        assert(text::views(keys@) =~= Seq::empty());
        proof {
            written_records_split(t@, 0);
        }
        return Some(Record { is_list: true, keys, values: pieces });
    }
    if open != '{' || pieces.len() % 2 != 0 {
        proof {
            written_records_split(t@, 0);
        }
        return None;
    }
    let count: usize = pieces.len() / 2;
    let mut keys: Vec<String> = Vec::new();
    let mut values: Vec<String> = Vec::new();
    let mut i: usize = 0;
    assert(text::views(keys@) =~= Seq::empty());
    assert(text::views(values@) =~= values_in(all, 0));
    while i < count
        invariant
            i <= count,
            keys@.len() == i,
            values@.len() == i,
            pieces@.len() == 2 * count,
            2 * count <= usize::MAX,
            all == text::views(pieces@),
            all == pieces_in(t@),
            bracket_of(t@) == '{',
            keys_in(all, i as int) == Some(text::views(keys@)),
            text::views(values@) == values_in(all, i as int),
            keys_read_back(all, i as int),
        decreases count - i,
    {
        let ghost keys0 = keys@;
        let ghost values0 = values@;
        assert(all[2 * i as int] == pieces@[2 * i as int]@);
        assert(all[2 * i as int + 1] == pieces@[2 * i as int + 1]@);
        let read = json::parse_json(pieces[2 * i].as_str());
        let key = match read {
            Some(Json::Text(key)) => key,
            _ => {
                proof {
                    assert(keys_in(all, i as int + 1) is None);
                    one_bad_key_is_enough(all, i as int + 1, count as int);
                    written_records_split(t@, i as int + 1);
                }
                return None;
            },
        };
        let ghost shown = key@;
        keys.push(key);
        let value = pieces[2 * i + 1].clone();
        let ghost written = value@;
        values.push(value);
        assert(text::views(keys@) =~= text::views(keys0).push(shown));
        assert(text::views(values@) =~= text::views(values0).push(written));
        i = i + 1;
        assert(values_in(all, i as int) =~= values_in(all, i - 1).push(all[2 * i - 1]));
    }
    proof {
        written_records_split(t@, count as int);
    }
    Some(Record { is_list: false, keys, values })
}

/// The members of a text that is JSON; a list may have so many values at most.
pub open spec fn read_as(t: Seq<char>, count: int) -> Option<RecordView> {
    match record_in(t) {
        Some(r) => if json::well_formed(t) && (r.is_list ==> r.values.len() <= count) {
            Some(r)
        } else {
            None
        },
        None => None,
    }
}

/// Reads a text as a record with so many values.
pub fn read_record(t: &str, count: usize) -> (r: Option<Record>)
    ensures
        record_view(r) == read_as(t@, count as int),
        r matches Some(x) ==> x.wf(),
        forall|e: Seq<(Seq<char>, JsonModel)>|
            e.len() > 0 && are_flat(e) && json::is_plain(JsonModel::Object(e), 100) && t@
                == #[trigger] json::pretty_text(JsonModel::Object(e)) ==> record_view(r) == Some(
                record_of(e),
            ),
{
    if !json::is_json(t) {
        return None;
    }
    proof {
        assert forall|e: Seq<(Seq<char>, JsonModel)>|
            e.len() > 0 && are_flat(e) && t@ == #[trigger] json::pretty_text(
                JsonModel::Object(e),
            ) implies is_written(t@, e) by {}
    }
    match members(t) {
        Some(r) => {
            assert(text::views(r.values@).len() == r.values@.len());
            if r.is_list && r.values.len() > count {
                None
            } else {
                Some(r)
            }
        },
        None => None,
    }
}

/// A key under either of two names.
pub open spec fn is_named(name: Seq<char>, other: Seq<char>) -> spec_fn(Seq<char>) -> bool {
    |k: Seq<char>| k == name || k == other
}

/// Where a value stands in a record.
pub enum SlotView {
    Missing,
    Repeated,
    Found(Seq<char>),
}

/// What a record has under a name, or under another one; in a list, what it has at
/// a place.
pub open spec fn slot_of(r: RecordView, name: Seq<char>, other: Seq<char>, place: int) -> SlotView {
    if r.is_list {
        if place < r.values.len() {
            SlotView::Found(r.values[place])
        } else {
            SlotView::Missing
        }
    } else {
        match search::first_index(r.keys, is_named(name, other)) {
            Some(i) => if search::first_index(r.keys.skip(i + 1), is_named(name, other)) is Some {
                SlotView::Repeated
            } else {
                SlotView::Found(r.values[i])
            },
            None => SlotView::Missing,
        }
    }
}

/// The value that a slot holds: the outer `None` is for one that cannot be read.
pub open spec fn value_of(slot: SlotView) -> Option<Option<JsonModel>> {
    match slot {
        SlotView::Missing => Some(None),
        SlotView::Repeated => None,
        SlotView::Found(t) => match json::parsed(t) {
            Some(m) => Some(Some(m)),
            None => None,
        },
    }
}

/// The text that a slot holds, where it holds one.
pub open spec fn text_at(slot: SlotView) -> Option<Seq<char>> {
    match value_of(slot) {
        Some(m) => json::text_at(m),
        None => None,
    }
}

pub enum Slot<'a> {
    Missing,
    Repeated,
    Found(&'a str),
}

pub open spec fn slot_view(s: Slot) -> SlotView {
    match s {
        Slot::Missing => SlotView::Missing,
        Slot::Repeated => SlotView::Repeated,
        Slot::Found(t) => SlotView::Found(t@),
    }
}

fn find(keys: &Vec<String>, start: usize, name: &str, other: &str) -> (r: Option<usize>)
    requires
        start <= keys@.len(),
    ensures
        match r {
            Some(i) => start <= i < keys@.len() && search::first_index(
                text::views(keys@).skip(start as int),
                is_named(name@, other@),
            ) == Some(i - start),
            None => search::first_index(
                text::views(keys@).skip(start as int),
                is_named(name@, other@),
            ) is None,
        },
{
    let ghost rest = text::views(keys@).skip(start as int);
    let ghost p = is_named(name@, other@);
    let mut i: usize = start;
    while i < keys.len()
        invariant
            start <= i <= keys@.len(),
            rest == text::views(keys@).skip(start as int),
            p == is_named(name@, other@),
            forall|k: int| 0 <= k < i - start ==> !p(#[trigger] rest[k]),
        decreases keys@.len() - i,
    {
        assert(rest[i - start] == keys@[i as int]@);
        if text::same(keys[i].as_str(), name) || text::same(keys[i].as_str(), other) {
            proof {
                search::first_index_unique(rest, p, i - start);
            }
            return Some(i);
        }
        i = i + 1;
    }
    proof {
        search::first_index_absent(rest, p);
    }
    None
}

pub open spec fn is_read(r: Option<Option<Json>>, expected: Option<Option<JsonModel>>) -> bool {
    match (r, expected) {
        (None, None) => true,
        (Some(j), Some(m)) => match (j, m) {
            (Some(x), Some(y)) => x@ == y,
            (None, None) => true,
            _ => false,
        },
        _ => false,
    }
}

impl Record {
    pub open spec fn wf(self) -> bool {
        !self.is_list ==> self.values@.len() == self.keys@.len()
    }

    /// What the record has under a name, or under another one; in a list, what it
    /// has at a place.
    pub fn slot(&self, name: &str, other: &str, place: usize) -> (r: Slot<'_>)
        requires
            self.wf(),
        ensures
            slot_view(r) == slot_of(self@, name@, other@, place as int),
    {
        if self.is_list {
            if place < self.values.len() {
                assert(text::views(self.values@)[place as int] == self.values@[place as int]@);
                return Slot::Found(self.values[place].as_str());
            }
            return Slot::Missing;
        }
        let ghost keys = text::views(self.keys@);
        assert(keys.skip(0) =~= keys);
        let count: usize = self.keys.len();
        assert(count == self.keys@.len());
        match find(&self.keys, 0, name, other) {
            Some(i) => match find(&self.keys, i + 1, name, other) {
                Some(_) => Slot::Repeated,
                None => {
                    assert(text::views(self.values@)[i as int] == self.values@[i as int]@);
                    Slot::Found(self.values[i].as_str())
                },
            },
            None => Slot::Missing,
        }
    }

    /// The value under a name, or under another one; in a list, at a place.
    pub fn value(&self, name: &str, other: &str, place: usize) -> (r: Option<Option<Json>>)
        requires
            self.wf(),
        ensures
            is_read(r, value_of(slot_of(self@, name@, other@, place as int))),
            slot_of(self@, name@, other@, place as int) matches SlotView::Found(t)
                ==> json::reads_back(json::parsed(t), t),
    {
        match self.slot(name, other, place) {
            Slot::Missing => Some(None),
            Slot::Repeated => None,
            Slot::Found(t) => match json::parse_json(t) {
                Some(j) => Some(Some(j)),
                None => None,
            },
        }
    }

    /// The text under a name, or under another one; in a list, at a place.
    pub fn text(&self, name: &str, other: &str, place: usize) -> (r: Option<String>)
        requires
            self.wf(),
        ensures
            text::opt_view(r) == text_at(slot_of(self@, name@, other@, place as int)),
            slot_of(self@, name@, other@, place as int) matches SlotView::Found(t)
                ==> json::reads_back(json::parsed(t), t),
    {
        match self.value(name, other, place) {
            Some(Some(Json::Text(s))) => Some(s),
            _ => None,
        }
    }
}

// ---------------------------------------------------------------------------
// What was written
// ---------------------------------------------------------------------------

/// A value without parts of its own.
pub open spec fn is_light(m: JsonModel) -> bool {
    m is Null || m is Text
}

pub open spec fn are_light(e: Seq<(Seq<char>, JsonModel)>) -> bool {
    forall|i: int| 0 <= i < e.len() ==> is_light((#[trigger] e[i]).1)
}

/// Values without parts, or objects of such values.
pub open spec fn are_flat(e: Seq<(Seq<char>, JsonModel)>) -> bool {
    forall|i: int|
        0 <= i < e.len() ==> (is_light((#[trigger] e[i]).1) || (e[i].1 matches JsonModel::Object(
            inner,
        ) && are_light(inner)))
}

/// The record of an object.
pub open spec fn record_of(e: Seq<(Seq<char>, JsonModel)>) -> RecordView {
    RecordView {
        is_list: false,
        keys: e.map_values(|x: (Seq<char>, JsonModel)| x.0),
        values: e.map_values(|x: (Seq<char>, JsonModel)| json::rendered(x.1)),
    }
}

/// The text is that of an object with these entries, with line breaks or, where it
/// has no objects in it, without.
pub open spec fn is_written(t: Seq<char>, e: Seq<(Seq<char>, JsonModel)>) -> bool {
    &&& e.len() > 0
    &&& ((are_flat(e) && t == json::pretty_text(JsonModel::Object(e))) || (are_light(e) && t
        == json::rendered(JsonModel::Object(e))))
}

/// The keys and values of an object, one by one, as they are written.
pub open spec fn pieces_of(e: Seq<(Seq<char>, JsonModel)>) -> Seq<Seq<char>>
    decreases e.len(),
{
    if e.len() == 0 {
        Seq::empty()
    } else {
        pieces_of(e.drop_last()).push(json::quoted(e.last().0)).push(json::rendered(e.last().1))
    }
}

proof fn splitting_goes_on(s: Split, a: Seq<char>, b: Seq<char>)
    ensures
        split_from(s, a + b) == split_from(split_from(s, a), b),
    decreases b.len(),
{
    if b.len() == 0 {
        assert(a + b =~= a);
    } else {
        assert((a + b).drop_last() =~= a + b.drop_last());
        splitting_goes_on(s, a, b.drop_last());
    }
}

/// Over two, three, ... parts.
proof fn splitting_goes_on3(s: Split, a: Seq<char>, b: Seq<char>, c: Seq<char>)
    ensures
        split_from(s, a + b + c) == split_from(split_from(split_from(s, a), b), c),
{
    splitting_goes_on(s, a + b, c);
    splitting_goes_on(s, a, b);
}

proof fn splitting_goes_on4(s: Split, a: Seq<char>, b: Seq<char>, c: Seq<char>, d: Seq<char>)
    ensures
        split_from(s, a + b + c + d) == split_from(
            split_from(split_from(split_from(s, a), b), c),
            d,
        ),
{
    splitting_goes_on(s, a + b + c, d);
    splitting_goes_on3(s, a, b, c);
}

proof fn one_step(s: Split, c: char)
    ensures
        split_from(s, seq![c]) == split_on(s, c),
{
    let t = seq![c];
    assert(t.drop_last() =~= Seq::<char>::empty());
    reveal_with_fuel(split_from, 2);
}

pub open spec fn all_blank(w: Seq<char>) -> bool {
    forall|i: int| 0 <= i < w.len() ==> is_blank(#[trigger] w[i])
}

proof fn blanks_are_left_out(s: Split, w: Seq<char>)
    requires
        !s.quoted,
        all_blank(w),
    ensures
        split_from(s, w) == s,
    decreases w.len(),
{
    if w.len() > 0 {
        assert forall|i: int| 0 <= i < w.drop_last().len() implies is_blank(
            #[trigger] w.drop_last()[i],
        ) by {
            assert(w.drop_last()[i] == w[i]);
        }
        blanks_are_left_out(s, w.drop_last());
        assert(is_blank(w[w.len() - 1]));
    }
}

proof fn escapes_stay(s: Split, c: char)
    requires
        s.quoted,
        !s.escaped,
    ensures
        split_from(s, json::escaped(c)) == (Split { piece: s.piece + json::escaped(c), ..s }),
{
    let e = json::escaped(c);
    if e.len() == 1 {
        one_step(s, c);
        assert(e =~= seq![c]);
        assert(s.piece + e =~= s.piece.push(c));
    } else if e.len() == 2 {
        let a = split_on(s, e[0]);
        assert(e =~= seq![e[0]] + seq![e[1]]);
        splitting_goes_on(s, seq![e[0]], seq![e[1]]);
        one_step(s, e[0]);
        one_step(a, e[1]);
        assert(s.piece + e =~= s.piece.push(e[0]).push(e[1]));
    } else {
        let v = c as int;
        assert(v < 0x20);
        let x = e[4];
        let y = e[5];
        assert(x != '"' && x != '\\' && y != '"' && y != '\\');
        let s1 = split_on(s, '\\');
        let s2 = split_on(s1, 'u');
        let s3 = split_on(s2, '0');
        let s4 = split_on(s3, '0');
        let s5 = split_on(s4, x);
        let s6 = split_on(s5, y);
        one_step(s, '\\');
        one_step(s1, 'u');
        one_step(s2, '0');
        one_step(s3, '0');
        one_step(s4, x);
        one_step(s5, y);
        let first = seq!['\\'] + seq!['u'] + seq!['0'];
        splitting_goes_on3(s, seq!['\\'], seq!['u'], seq!['0']);
        splitting_goes_on4(s, first, seq!['0'], seq![x], seq![y]);
        assert(e =~= first + seq!['0'] + seq![x] + seq![y]);
        assert(s6.piece =~= s.piece + e);
        assert(s6 =~= (Split { piece: s.piece + e, ..s }));
    }
}

proof fn escaped_texts_stay(s: Split, t: Seq<char>)
    requires
        s.quoted,
        !s.escaped,
    ensures
        split_from(s, json::escaped_text(t)) == (Split {
            piece: s.piece + json::escaped_text(t),
            ..s
        }),
    decreases t.len(),
{
    if t.len() == 0 {
        assert(s.piece + json::escaped_text(t) =~= s.piece);
    } else {
        let init = json::escaped_text(t.drop_last());
        let last = json::escaped(t.last());
        escaped_texts_stay(s, t.drop_last());
        splitting_goes_on(s, init, last);
        escapes_stay(Split { piece: s.piece + init, ..s }, t.last());
        assert(s.piece + init + last =~= s.piece + (init + last));
    }
}

/// A string stays whole, wherever it stands behind the first bracket.
proof fn strings_stay(s: Split, t: Seq<char>)
    requires
        !s.quoted,
        !s.escaped,
        s.depth >= 1,
    ensures
        split_from(s, json::quoted(t)) == (Split { piece: s.piece + json::quoted(t), ..s }),
{
    let inside = Split { quoted: true, piece: s.piece.push('"'), ..s };
    let body = json::escaped_text(t);
    splitting_goes_on3(s, seq!['"'], body, seq!['"']);
    one_step(s, '"');
    assert(split_on(s, '"') =~= inside);
    escaped_texts_stay(inside, t);
    let before = Split { piece: inside.piece + body, ..inside };
    one_step(before, '"');
    assert(before.piece.push('"') =~= s.piece + json::quoted(t));
}

proof fn light_values_stay(s: Split, m: JsonModel)
    requires
        !s.quoted,
        !s.escaped,
        s.depth >= 1,
        is_light(m),
    ensures
        split_from(s, json::rendered(m)) == (Split { piece: s.piece + json::rendered(m), ..s }),
{
    if m is Text {
        strings_stay(s, m->Text_0);
    } else {
        reveal_strlit("null");
        let s1 = split_on(s, 'n');
        let s2 = split_on(s1, 'u');
        let s3 = split_on(s2, 'l');
        let s4 = split_on(s3, 'l');
        one_step(s, 'n');
        one_step(s1, 'u');
        one_step(s2, 'l');
        one_step(s3, 'l');
        splitting_goes_on4(s, seq!['n'], seq!['u'], seq!['l'], seq!['l']);
        assert("null"@ =~= seq!['n'] + seq!['u'] + seq!['l'] + seq!['l']);
        assert(s4.piece =~= s.piece + "null"@);
    }
}

/// What lies deeper than the outermost level stays whole, without its blanks.
proof fn inner_entries_stay(s: Split, e: Seq<(Seq<char>, JsonModel)>, margin: Seq<char>)
    requires
        !s.quoted,
        !s.escaped,
        s.depth >= 2,
        are_light(e),
        all_blank(margin),
    ensures
        split_from(s, json::pretty_entries(e, margin)) == (Split {
            piece: s.piece + json::rendered_entries(e),
            ..s
        }),
    decreases e.len(),
{
    if e.len() == 0 {
        assert(s.piece + json::rendered_entries(e) =~= s.piece);
    } else {
        let init = e.drop_last();
        let k = json::quoted(e.last().0);
        let v = json::rendered(e.last().1);
        assert(is_light(e[e.len() - 1].1));
        assert(json::pretty(e.last().1, margin) == v);
        reveal_strlit(": ");
        reveal_strlit(":");
        reveal_strlit(",\n");
        reveal_strlit(",");
        assert(": "@ =~= seq![':'] + seq![' ']);
        assert(":"@ =~= seq![':']);
        assert(",\n"@ =~= seq![','] + seq!['\n']);
        assert(","@ =~= seq![',']);
        if e.len() == 1 {
            member_stays(s, e.last(), margin);
            assert(json::pretty_entries(e, margin) =~= margin + k + ": "@ + v);
            assert(s.piece + json::rendered_entries(e) =~= s.piece + k + ":"@ + v);
        } else {
            assert forall|i: int| 0 <= i < init.len() implies is_light((#[trigger] init[i]).1) by {
                assert(init[i] == e[i]);
            }
            inner_entries_stay(s, init, margin);
            let done = Split { piece: s.piece + json::rendered_entries(init), ..s };
            let next = Split { piece: done.piece.push(','), ..s };
            let text = json::pretty_entries(init, margin);
            splitting_goes_on3(s, text, ",\n"@, margin + k + ": "@ + v);
            splitting_goes_on(done, seq![','], seq!['\n']);
            one_step(done, ',');
            assert(split_on(done, ',') =~= next);
            one_step(next, '\n');
            member_stays(next, e.last(), margin);
            seqs_regroup(text, ",\n"@, margin, k, ": "@, v);
            let shown = json::rendered_entries(init);
            assert(json::rendered_entries(e) == shown + ","@ + k + ":"@ + v);
            assert(s.piece + (shown + ","@ + k + ":"@ + v) =~= next.piece + k + ":"@ + v);
        }
    }
}

proof fn seqs_regroup(
    a: Seq<char>,
    b: Seq<char>,
    c: Seq<char>,
    d: Seq<char>,
    e: Seq<char>,
    f: Seq<char>,
)
    ensures
        a + b + c + d + e + f == a + b + (c + d + e + f),
{
    assert(a + b + c + d + e + f =~= a + b + (c + d + e + f));
}

/// One member of an inner object.
proof fn member_stays(s: Split, e: (Seq<char>, JsonModel), margin: Seq<char>)
    requires
        !s.quoted,
        !s.escaped,
        s.depth >= 2,
        is_light(e.1),
        all_blank(margin),
    ensures
        split_from(s, margin + json::quoted(e.0) + ": "@ + json::rendered(e.1)) == (Split {
            piece: s.piece + json::quoted(e.0) + ":"@ + json::rendered(e.1),
            ..s
        }),
{
    let k = json::quoted(e.0);
    let v = json::rendered(e.1);
    reveal_strlit(": ");
    reveal_strlit(":");
    assert(": "@ =~= seq![':'] + seq![' ']);
    assert(":"@ =~= seq![':']);
    splitting_goes_on4(s, margin, k, ": "@, v);
    blanks_are_left_out(s, margin);
    strings_stay(s, e.0);
    let a = Split { piece: s.piece + k, ..s };
    let b = Split { piece: a.piece.push(':'), ..s };
    splitting_goes_on(a, seq![':'], seq![' ']);
    one_step(a, ':');
    assert(split_on(a, ':') =~= b);
    one_step(b, ' ');
    light_values_stay(b, e.1);
    assert(b.piece + v =~= s.piece + k + ":"@ + v);
}

/// A value of an entry stays whole, without its blanks.
proof fn flat_values_stay(s: Split, m: JsonModel, margin: Seq<char>)
    requires
        !s.quoted,
        !s.escaped,
        s.depth >= 1,
        is_light(m) || (m matches JsonModel::Object(inner) && are_light(inner)),
        all_blank(margin),
    ensures
        split_from(s, json::pretty(m, margin)) == (Split { piece: s.piece + json::rendered(m), ..s }),
{
    if is_light(m) {
        light_values_stay(s, m);
    } else {
        let e = m->Object_0;
        let opened = Split { depth: s.depth + 1, piece: s.piece.push('{'), ..s };
        one_step(s, '{');
        assert(split_on(s, '{') =~= opened);
        reveal_strlit("{}");
        reveal_strlit("{\n");
        reveal_strlit("{");
        reveal_strlit("}");
        reveal_strlit("\n");
        reveal_strlit("  ");
        assert("{"@ =~= seq!['{']);
        assert("}"@ =~= seq!['}']);
        assert("\n"@ =~= seq!['\n']);
        assert("{\n"@ =~= seq!['{'] + seq!['\n']);
        let inner = json::rendered_entries(e);
        let full = Split { piece: opened.piece + inner, ..opened };
        one_step(full, '}');
        if e.len() == 0 {
            assert("{}"@ =~= seq!['{'] + seq!['}']);
            splitting_goes_on(s, seq!['{'], seq!['}']);
            assert(full =~= opened);
        } else {
            let deeper = margin + "  "@;
            assert forall|i: int| 0 <= i < deeper.len() implies is_blank(#[trigger] deeper[i]) by {
                if i < margin.len() {
                    assert(deeper[i] == margin[i]);
                }
            }
            splitting_goes_on(s, seq!['{'], seq!['\n']);
            one_step(opened, '\n');
            inner_entries_stay(opened, e, deeper);
            let body = json::pretty_entries(e, deeper);
            splitting_goes_on4(s, "{\n"@ + body, "\n"@, margin, "}"@);
            splitting_goes_on(s, "{\n"@, body);
            one_step(full, '\n');
            blanks_are_left_out(full, margin);
        }
        assert(full.piece.push('}') =~= s.piece + json::rendered(m));
        assert(split_on(full, '}') =~= (Split { piece: s.piece + json::rendered(m), ..s }));
    }
}

/// The state behind the bracket of an object and some of its entries.
pub open spec fn split_so_far(e: Seq<(Seq<char>, JsonModel)>) -> Split {
    Split {
        open: '{',
        depth: 1,
        quoted: false,
        escaped: false,
        done: pieces_of(e.drop_last()).push(json::quoted(e.last().0)),
        piece: json::rendered(e.last().1),
    }
}

pub open spec fn opened() -> Split {
    Split { open: '{', depth: 1, ..unsplit() }
}

/// One member of the outermost object, behind `done`: `blank` is what stands between
/// the colon and the value.
proof fn member_splits(
    done: Seq<Seq<char>>,
    e: (Seq<char>, JsonModel),
    margin: Seq<char>,
    blank: Seq<char>,
    value: Seq<char>,
)
    requires
        all_blank(margin),
        all_blank(blank),
        forall|s: Split|
            !s.quoted && !s.escaped && s.depth >= 1 ==> #[trigger] split_from(s, value) == (Split {
                piece: s.piece + json::rendered(e.1),
                ..s
            }),
    ensures
        split_from(
            Split { done, ..opened() },
            margin + json::quoted(e.0) + (seq![':'] + blank) + value,
        ) == (Split {
            done: done.push(json::quoted(e.0)),
            piece: json::rendered(e.1),
            ..opened()
        }),
{
    let s = Split { done, ..opened() };
    let k = json::quoted(e.0);
    splitting_goes_on4(s, margin, k, seq![':'] + blank, value);
    blanks_are_left_out(s, margin);
    strings_stay(s, e.0);
    let a = Split { piece: k, ..s };
    assert(s.piece + k =~= k);
    splitting_goes_on(a, seq![':'], blank);
    one_step(a, ':');
    let b = Split { done: done.push(k), ..opened() };
    assert(split_on(a, ':') =~= b);
    blanks_are_left_out(b, blank);
    assert(split_from(b, value) == (Split { piece: b.piece + json::rendered(e.1), ..b }));
    assert(b.piece + json::rendered(e.1) =~= json::rendered(e.1));
}

proof fn outer_entries_split(e: Seq<(Seq<char>, JsonModel)>, margin: Seq<char>)
    requires
        e.len() > 0,
        are_flat(e),
        all_blank(margin),
    ensures
        split_from(opened(), json::pretty_entries(e, margin)) == split_so_far(e),
    decreases e.len(),
{
    let init = e.drop_last();
    let last = e.last();
    let k = json::quoted(last.0);
    let v = json::pretty(last.1, margin);
    assert(is_light(e[e.len() - 1].1) || e[e.len() - 1].1 is Object);
    assert forall|s: Split| !s.quoted && !s.escaped && s.depth >= 1 implies #[trigger] split_from(
        s,
        v,
    ) == (Split { piece: s.piece + json::rendered(last.1), ..s }) by {
        flat_values_stay(s, last.1, margin);
    }
    reveal_strlit(": ");
    reveal_strlit(",\n");
    assert(": "@ =~= seq![':'] + seq![' ']);
    assert(all_blank(seq![' ']));
    if e.len() == 1 {
        assert(pieces_of(init) =~= Seq::empty());
        member_splits(Seq::empty(), last, margin, seq![' '], v);
        assert(opened() =~= (Split { done: Seq::empty(), ..opened() }));
        assert(json::pretty_entries(e, margin) =~= margin + k + (seq![':'] + seq![' ']) + v);
    } else {
        assert forall|i: int| 0 <= i < init.len() implies is_light((#[trigger] init[i]).1) || (
        init[i].1 matches JsonModel::Object(inner) && are_light(inner)) by {
            assert(init[i] == e[i]);
        }
        outer_entries_split(init, margin);
        let text = json::pretty_entries(init, margin);
        let rest = margin + k + (seq![':'] + seq![' ']) + v;
        assert(",\n"@ =~= seq![','] + seq!['\n']);
        splitting_goes_on3(opened(), text, ",\n"@, rest);
        splitting_goes_on(split_so_far(init), seq![','], seq!['\n']);
        one_step(split_so_far(init), ',');
        let next = Split { done: pieces_of(init), ..opened() };
        assert(split_on(split_so_far(init), ',') =~= next);
        one_step(next, '\n');
        member_splits(pieces_of(init), last, margin, seq![' '], v);
        assert(json::pretty_entries(e, margin) =~= text + ",\n"@ + rest);
    }
}

proof fn compact_entries_split(e: Seq<(Seq<char>, JsonModel)>)
    requires
        e.len() > 0,
        are_light(e),
    ensures
        split_from(opened(), json::rendered_entries(e)) == split_so_far(e),
    decreases e.len(),
{
    let init = e.drop_last();
    let last = e.last();
    let k = json::quoted(last.0);
    let v = json::rendered(last.1);
    let none = Seq::<char>::empty();
    assert(is_light(e[e.len() - 1].1));
    assert forall|s: Split| !s.quoted && !s.escaped && s.depth >= 1 implies #[trigger] split_from(
        s,
        v,
    ) == (Split { piece: s.piece + json::rendered(last.1), ..s }) by {
        light_values_stay(s, last.1);
    }
    reveal_strlit(":");
    reveal_strlit(",");
    assert(":"@ =~= seq![':'] + none);
    assert(","@ =~= seq![',']);
    if e.len() == 1 {
        assert(pieces_of(init) =~= Seq::empty());
        member_splits(Seq::empty(), last, none, none, v);
        assert(opened() =~= (Split { done: Seq::empty(), ..opened() }));
        assert(json::rendered_entries(e) =~= none + k + (seq![':'] + none) + v);
    } else {
        assert forall|i: int| 0 <= i < init.len() implies is_light((#[trigger] init[i]).1) by {
            assert(init[i] == e[i]);
        }
        compact_entries_split(init);
        let text = json::rendered_entries(init);
        let rest = none + k + (seq![':'] + none) + v;
        splitting_goes_on3(opened(), text, seq![','], rest);
        one_step(split_so_far(init), ',');
        let next = Split { done: pieces_of(init), ..opened() };
        assert(split_on(split_so_far(init), ',') =~= next);
        member_splits(pieces_of(init), last, none, none, v);
        assert(json::rendered_entries(e) =~= text + seq![','] + rest);
    }
}

proof fn pieces_are_pairs(e: Seq<(Seq<char>, JsonModel)>)
    ensures
        pieces_of(e).len() == 2 * e.len(),
        forall|i: int|
            #![trigger e[i]]
            0 <= i < e.len() ==> pieces_of(e)[2 * i] == json::quoted(e[i].0) && pieces_of(e)[2 * i
                + 1] == json::rendered(e[i].1),
    decreases e.len(),
{
    if e.len() > 0 {
        let init = e.drop_last();
        pieces_are_pairs(init);
        assert forall|i: int| #![trigger e[i]] 0 <= i < e.len() implies pieces_of(e)[2 * i]
            == json::quoted(e[i].0) && pieces_of(e)[2 * i + 1] == json::rendered(e[i].1) by {
            if i < init.len() {
                assert(init[i] == e[i]);
            }
        }
    }
}

proof fn written_text_splits(t: Seq<char>, e: Seq<(Seq<char>, JsonModel)>)
    requires
        is_written(t, e),
    ensures
        bracket_of(t) == '{',
        pieces_in(t) == pieces_of(e),
{
    let end = Split { depth: 0, done: pieces_of(e), piece: Seq::empty(), ..split_so_far(e) };
    pieces_are_pairs(e);
    one_step(unsplit(), '{');
    assert(split_on(unsplit(), '{') =~= opened());
    one_step(split_so_far(e), '}');
    assert(split_on(split_so_far(e), '}') =~= end);
    reveal_strlit("{");
    reveal_strlit("}");
    reveal_strlit("{\n");
    reveal_strlit("\n");
    reveal_strlit("  ");
    assert("{"@ =~= seq!['{']);
    assert("}"@ =~= seq!['}']);
    assert("\n"@ =~= seq!['\n']);
    assert("{\n"@ =~= seq!['{'] + seq!['\n']);
    let none = Seq::<char>::empty();
    if are_light(e) && t == json::rendered(JsonModel::Object(e)) {
        compact_entries_split(e);
        splitting_goes_on3(unsplit(), seq!['{'], json::rendered_entries(e), seq!['}']);
    } else {
        let margin = none + "  "@;
        assert(all_blank(margin));
        outer_entries_split(e, margin);
        let body = json::pretty_entries(e, margin);
        splitting_goes_on(unsplit(), seq!['{'], seq!['\n']);
        one_step(opened(), '\n');
        splitting_goes_on(unsplit(), "{\n"@, body);
        splitting_goes_on4(unsplit(), "{\n"@ + body, "\n"@, none, "}"@);
        one_step(split_so_far(e), '\n');
        splitting_goes_on(unsplit(), json::pretty(JsonModel::Object(e), none), "\n"@);
        one_step(end, '\n');
    }
}

/// Where the text is one that was written, its first keys are read as they were
/// written, once the first `n` pieces for keys were.
proof fn written_records_split(t: Seq<char>, n: int)
    requires
        0 <= n,
        keys_read_back(pieces_in(t), n),
    ensures
        forall|e: Seq<(Seq<char>, JsonModel)>| #[trigger]
            is_written(t, e) ==> {
                &&& bracket_of(t) == '{'
                &&& pieces_in(t).len() == 2 * e.len()
                &&& n <= e.len() ==> keys_in(pieces_in(t), n) == Some(record_of(e).keys.take(n))
                &&& n == e.len() ==> record_in(t) == Some(record_of(e))
            },
{
    assert forall|e: Seq<(Seq<char>, JsonModel)>| #[trigger] is_written(t, e) implies {
        &&& bracket_of(t) == '{'
        &&& pieces_in(t).len() == 2 * e.len()
        &&& n <= e.len() ==> keys_in(pieces_in(t), n) == Some(record_of(e).keys.take(n))
        &&& n == e.len() ==> record_in(t) == Some(record_of(e))
    } by {
        written_text_splits(t, e);
        pieces_are_pairs(e);
        if n <= e.len() {
            written_keys_are_read(e, n);
        }
        if n == e.len() {
            assert(record_of(e).keys.take(n) =~= record_of(e).keys);
            assert forall|i: int| 0 <= i < n implies values_in(pieces_in(t), n)[i] == record_of(
                e,
            ).values[i] by {
                assert(e[i] == e[i]);
            }
            assert(values_in(pieces_in(t), n) =~= record_of(e).values);
        }
    }
}

proof fn written_keys_are_read(e: Seq<(Seq<char>, JsonModel)>, n: int)
    requires
        0 <= n <= e.len(),
        keys_read_back(pieces_of(e), n),
    ensures
        keys_in(pieces_of(e), n) == Some(record_of(e).keys.take(n)),
    decreases n,
{
    let keys = record_of(e).keys;
    if n == 0 {
        assert(keys.take(0) =~= Seq::empty());
    } else {
        let pieces = pieces_of(e);
        written_keys_are_read(e, n - 1);
        pieces_are_pairs(e);
        let k = e[n - 1].0;
        assert(pieces[2 * (n - 1)] == json::quoted(k));
        assert(json::rendered(JsonModel::Text(k)) == json::quoted(k));
        assert(json::reads_back(json::parsed(pieces[2 * (n - 1)]), pieces[2 * (n - 1)]));
        assert(json::is_plain(JsonModel::Text(k), 100));
        assert(json::parsed(pieces[2 * n - 2]) == Some(JsonModel::Text(k)));
        assert(keys.take(n) =~= keys.take(n - 1).push(k));
    }
}

// ---------------------------------------------------------------------------
// Laws
// ---------------------------------------------------------------------------

/// A value is found under its key, or under the other name that it goes by, where only
/// one entry has either.
pub proof fn values_are_found_by_name(r: RecordView, name: Seq<char>, other: Seq<char>, i: int)
    requires
        !r.is_list,
        0 <= i < r.keys.len(),
        r.keys[i] == name || r.keys[i] == other,
        forall|k: int| 0 <= k < r.keys.len() && k != i ==> #[trigger] r.keys[k] != name && r.keys[k]
            != other,
    ensures
        forall|place: int| #[trigger]
            slot_of(r, name, other, place) == SlotView::Found(r.values[i]),
{
    let p = is_named(name, other);
    assert(p(r.keys[i]));
    assert forall|k: int| 0 <= k < i implies !p(#[trigger] r.keys[k]) by {}
    search::first_index_unique(r.keys, p, i);
    let rest = r.keys.skip(i + 1);
    assert forall|k: int| 0 <= k < rest.len() implies !p(#[trigger] rest[k]) by {
        assert(rest[k] == r.keys[k + i + 1]);
    }
    search::first_index_absent(rest, p);
}

/// A value whose key stands there twice, under one name or both, is not read.
pub proof fn repeated_keys_are_not_read(
    r: RecordView,
    name: Seq<char>,
    other: Seq<char>,
    place: int,
    i: int,
    j: int,
)
    requires
        !r.is_list,
        0 <= i < j < r.keys.len(),
        r.keys[i] == name || r.keys[i] == other,
        r.keys[j] == name || r.keys[j] == other,
    ensures
        slot_of(r, name, other, place) is Repeated,
        value_of(slot_of(r, name, other, place)) is None,
{
    let p = is_named(name, other);
    search::first_index_is_first(r.keys, p);
    assert(p(r.keys[i]) && p(r.keys[j]));
    let first = search::first_index(r.keys, p)->Some_0;
    let rest = r.keys.skip(first + 1);
    assert(rest[j - first - 1] == r.keys[j]);
    search::first_index_is_first(rest, p);
    assert(p(rest[j - first - 1]));
}

/// A value is missing where no entry has its key, or the list is too short; a list is
/// read by place.
pub proof fn missing_values_are_told(r: RecordView, name: Seq<char>, other: Seq<char>, place: int)
    requires
        0 <= place,
    ensures
        !r.is_list && (forall|k: int|
            0 <= k < r.keys.len() ==> #[trigger] r.keys[k] != name && r.keys[k] != other)
            ==> slot_of(r, name, other, place) is Missing,
        r.is_list && place < r.values.len() ==> slot_of(r, name, other, place) == SlotView::Found(
            r.values[place],
        ),
        r.is_list && place >= r.values.len() ==> slot_of(r, name, other, place) is Missing,
        value_of(SlotView::Missing) == Some(None::<JsonModel>),
{
    let p = is_named(name, other);
    if !r.is_list && (forall|k: int|
        0 <= k < r.keys.len() ==> #[trigger] r.keys[k] != name && r.keys[k] != other) {
        assert forall|k: int| 0 <= k < r.keys.len() implies !p(#[trigger] r.keys[k]) by {}
        search::first_index_absent(r.keys, p);
    }
}

/// A text is read where a text stands, and nowhere else.
pub proof fn texts_are_read(t: Seq<char>)
    ensures
        json::parsed(t) is Some && json::parsed(t)->Some_0 is Text ==> text_at(SlotView::Found(t))
            == Some(json::parsed(t)->Some_0->Text_0),
        json::parsed(t) is None ==> text_at(SlotView::Found(t)) is None,
        json::parsed(t) is Some && !(json::parsed(t)->Some_0 is Text) ==> text_at(
            SlotView::Found(t),
        ) is None,
        text_at(SlotView::Missing) is None,
        text_at(SlotView::Repeated) is None,
{
}

/// A record is read only from a text that is JSON, and a list only where it has no more
/// values than the record.
pub proof fn only_good_records_are_read(t: Seq<char>, count: int)
    ensures
        !json::well_formed(t) ==> read_as(t, count) is None,
        read_as(t, count) is Some ==> read_as(t, count) == record_in(t),
        read_as(t, count) is Some && read_as(t, count)->Some_0.is_list ==> read_as(
            t,
            count,
        )->Some_0.values.len() <= count,
        json::well_formed(t) && record_in(t) is Some && !record_in(t)->Some_0.is_list ==> read_as(
            t,
            count,
        ) == record_in(t),
{
}

/// White space between the parts of a text does not matter.
pub proof fn white_space_does_not_matter(s: Split, c: char)
    requires
        !s.quoted,
        c == ' ' || c == '\n' || c == '\r' || c == '\t',
    ensures
        split_on(s, c) == s,
{
}

/// Within quotes every character belongs to the text, up to a quote that no backslash
/// is before.
pub proof fn quoted_texts_stay_whole(s: Split, c: char)
    requires
        s.quoted,
    ensures
        split_on(s, c).piece == s.piece.push(c),
        split_on(s, c).done == s.done,
        split_on(s, c).depth == s.depth,
        !split_on(s, c).quoted <==> c == '"' && !s.escaped,
        split_on(s, c).escaped <==> c == '\\' && !s.escaped,
{
}

/// Members are split at the outermost level only: what is deeper stays whole.
pub proof fn deeper_values_stay_whole(s: Split, c: char)
    requires
        !s.quoted,
        s.depth > 1,
        !is_blank(c),
    ensures
        split_on(s, c).done == s.done,
        split_on(s, c).piece == s.piece.push(c),
        c == '{' || c == '[' ==> split_on(s, c).depth == s.depth + 1,
        c == '}' || c == ']' ==> split_on(s, c).depth == s.depth - 1,
{
}

} // verus!
