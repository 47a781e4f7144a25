//! The query of a URL: names and values, percent-encoded.
use crate::text;
use crate::url;
use vstd::prelude::*;

verus! {

// ---------------------------------------------------------------------------
// Writing
// ---------------------------------------------------------------------------

/// A name with its value, encoded.
pub open spec fn pair_text(p: (Seq<char>, Seq<char>)) -> Seq<char> {
    p.0 + "="@ + url::encoded(p.1)
}

pub open spec fn pair_texts(pairs: Seq<(Seq<char>, Seq<char>)>) -> Seq<Seq<char>> {
    pairs.map_values(|p: (Seq<char>, Seq<char>)| pair_text(p))
}

pub open spec fn query_of(pairs: Seq<(Seq<char>, Seq<char>)>) -> Seq<char> {
    text::joined(pair_texts(pairs), "&"@)
}

pub open spec fn pair_view(p: (&str, &str)) -> (Seq<char>, Seq<char>) {
    (p.0@, p.1@)
}

pub open spec fn pairs_view(pairs: Seq<(&str, &str)>) -> Seq<(Seq<char>, Seq<char>)> {
    pairs.map_values(|p: (&str, &str)| pair_view(p))
}

pub fn write_query(pairs: &Vec<(&str, &str)>) -> (r: String)
    ensures
        r@ == query_of(pairs_view(pairs@)),
{
    let ghost all = pairs_view(pairs@);
    let mut parts: Vec<String> = Vec::new();
    let mut i: usize = 0;
    assert(text::views(parts@) =~= pair_texts(all.take(0)));
    while i < pairs.len()
        invariant
            i <= pairs@.len(),
            all == pairs_view(pairs@),
            text::views(parts@) == pair_texts(all.take(i as int)),
        decreases pairs@.len() - i,
    {
        let (name, value) = pairs[i];
        let encoded = url::encode(value);
        let part = text::cat3(name, "=", encoded.as_str());
        let ghost before = parts@;
        let ghost shown = part@;
        parts.push(part);
        assert(all.take(i as int + 1) =~= all.take(i as int).push(all[i as int]));
        assert(shown == pair_text(all[i as int]));
        assert(text::views(parts@) =~= text::views(before).push(shown));
        assert(pair_texts(all.take(i as int + 1)) =~= pair_texts(all.take(i as int)).push(shown));
        i = i + 1;
    }
    assert(all.take(i as int) =~= all);
    text::join(&parts, "&")
}

// ---------------------------------------------------------------------------
// Reading
// ---------------------------------------------------------------------------

/// A part of a query, decoded where that is possible.
pub open spec fn component_of(s: Seq<char>) -> Seq<char> {
    match url::decoded(s) {
        Some(d) => d,
        None => s,
    }
}

pub fn decode_query_component(value: &str) -> (r: String)
    ensures
        r@ == component_of(value@),
{
    match url::decode(value) {
        Some(d) => d,
        None => value.to_owned(),
    }
}

/// The name and the value in a piece of a query. A piece without a name says
/// nothing.
pub open spec fn pair_of(piece: Seq<char>) -> Option<(Seq<char>, Seq<char>)> {
    let (key, value) = match text::cut_at(piece, '=') {
        Some((k, v)) => (k, v),
        None => (piece, Seq::empty()),
    };
    if key.len() == 0 {
        None
    } else {
        Some((component_of(key), component_of(value)))
    }
}

pub open spec fn pairs_of(pieces: Seq<Seq<char>>) -> Seq<(Seq<char>, Seq<char>)>
    decreases pieces.len(),
{
    if pieces.len() == 0 {
        Seq::empty()
    } else {
        let before = pairs_of(pieces.drop_last());
        match pair_of(pieces.last()) {
            Some(p) => before.push(p),
            None => before,
        }
    }
}

/// The names and values of a query, in order.
pub open spec fn query_pairs(query: Seq<char>) -> Seq<(Seq<char>, Seq<char>)> {
    pairs_of(text::pieces_at(query, '&'))
}

/// What each name stands for: the last value that it was given.
pub open spec fn map_of(pairs: Seq<(Seq<char>, Seq<char>)>) -> Map<Seq<char>, Seq<char>>
    decreases pairs.len(),
{
    if pairs.len() == 0 {
        Map::empty()
    } else {
        map_of(pairs.drop_last()).insert(pairs.last().0, pairs.last().1)
    }
}

/// The names and values of a query.
pub struct QueryParams {
    pairs: Vec<(String, String)>,
}

pub closed spec fn owned_views(pairs: Seq<(String, String)>) -> Seq<(Seq<char>, Seq<char>)> {
    pairs.map_values(|p: (String, String)| (p.0@, p.1@))
}

impl View for QueryParams {
    type V = Map<Seq<char>, Seq<char>>;

    closed spec fn view(&self) -> Map<Seq<char>, Seq<char>> {
        map_of(owned_views(self.pairs@))
    }
}

pub open spec fn lookup(m: Map<Seq<char>, Seq<char>>, key: Seq<char>) -> Option<Seq<char>> {
    if m.contains_key(key) {
        Some(m[key])
    } else {
        None
    }
}

impl QueryParams {
    pub fn get(&self, key: &str) -> (r: Option<&str>)
        ensures
            match r {
                Some(v) => lookup(self@, key@) == Some(v@),
                None => lookup(self@, key@) is None,
            },
    {
        let mut i: usize = self.pairs.len();
        let ghost all = owned_views(self.pairs@);
        assert(all.take(all.len() as int) =~= all);
        while i > 0
            invariant
                i <= self.pairs@.len(),
                all == owned_views(self.pairs@),
                self@ == map_of(all),
                lookup(map_of(all), key@) == lookup(map_of(all.take(i as int)), key@),
            decreases i,
        {
            assert(all.take(i as int).drop_last() =~= all.take(i - 1));
            assert(all.take(i as int).last() == all[i - 1]);
            if text::same(self.pairs[i - 1].0.as_str(), key) {
                return Some(self.pairs[i - 1].1.as_str());
            }
            i = i - 1;
        }
        None
    }
}

pub fn parse_query(query: &str) -> (r: QueryParams)
    ensures
        r@ == map_of(query_pairs(query@)),
{
    let pieces = text::split_at(query, '&');
    let ghost all = text::views(pieces@);
    let mut pairs: Vec<(String, String)> = Vec::new();
    let mut i: usize = 0;
    assert(all.take(0) =~= Seq::empty());
    assert(owned_views(pairs@) =~= Seq::empty());
    while i < pieces.len()
        invariant
            i <= pieces@.len(),
            all == text::views(pieces@),
            owned_views(pairs@) == pairs_of(all.take(i as int)),
        decreases pieces@.len() - i,
    {
        assert(all.take(i as int + 1).drop_last() =~= all.take(i as int));
        assert(all.take(i as int + 1).last() == pieces@[i as int]@);
        let piece = pieces[i].as_str();
        let (key, value) = match text::split_once(piece, '=') {
            Some((k, v)) => (k, v),
            None => (piece.to_owned(), String::new()),
        };
        assert(text::cut_at(piece@, '=') is None ==> value@ =~= Seq::empty());
        if !key.as_str().is_empty() {
            let name = decode_query_component(key.as_str());
            let value = decode_query_component(value.as_str());
            let ghost before = pairs@;
            let ghost shown = (name@, value@);
            pairs.push((name, value));
            assert(owned_views(pairs@) =~= owned_views(before).push(shown));
        }
        i = i + 1;
    }
    assert(all.take(i as int) =~= all);
    QueryParams { pairs }
}

// ---------------------------------------------------------------------------
// Laws
// ---------------------------------------------------------------------------

/// A name that stands for itself: letters, digits, `-`, `.`, `_` and `~`.
pub open spec fn is_plain_name(s: Seq<char>) -> bool {
    &&& s.len() > 0
    &&& forall|i: int| 0 <= i < s.len() ==> is_plain_char(#[trigger] s[i])
}

pub open spec fn is_plain_char(c: char) -> bool {
    '\0' <= c <= '\u{7f}' && url::is_plain(c as u8)
}

proof fn plain_bytes_escape_to_themselves(s: Seq<char>)
    requires
        forall|i: int| 0 <= i < s.len() ==> is_plain_char(#[trigger] s[i]),
    ensures
        url::escape(url::as_bytes(s)) == s,
    decreases s.len(),
{
    let bytes = url::as_bytes(s);
    if s.len() == 0 {
        assert(url::escape(bytes) =~= s);
    } else {
        let rest = s.drop_first();
        assert forall|i: int| 0 <= i < rest.len() implies is_plain_char(#[trigger] rest[i]) by {
            assert(rest[i] == s[i + 1]);
        }
        plain_bytes_escape_to_themselves(rest);
        assert(bytes.drop_first() =~= url::as_bytes(rest));
        assert(is_plain_char(s[0]));
        assert(bytes[0] == s[0] as u8);
        assert(bytes[0] as char == s[0]);
        assert(url::escape_byte(bytes[0]) =~= seq![s[0]]);
        assert(seq![s[0]] + rest =~= s);
    }
}

proof fn plain_names_stand_for_themselves(s: Seq<char>)
    requires
        is_plain_name(s),
    ensures
        component_of(s) == s,
{
    assert forall|i: int| 0 <= i < s.len() implies '\0' <= #[trigger] s[i] <= '\u{7f}' by {
        assert(is_plain_char(s[i]));
    }
    assert(vstd::utf8::is_ascii_chars(s));
    url::ascii_encodes_to_itself(s);
    plain_bytes_escape_to_themselves(s);
    url::decoding_undoes_encoding(s);
}

proof fn no_pieces(s: Seq<char>, sep: char)
    requires
        !s.contains(sep),
    ensures
        text::pieces_at(s, sep) == seq![s],
    decreases s.len(),
{
    if s.len() > 0 {
        let t = s.drop_last();
        assert forall|i: int| 0 <= i < t.len() implies t[i] != sep by {
            assert(s[i] != sep);
        }
        assert(!t.contains(sep));
        no_pieces(t, sep);
        assert(s[s.len() - 1] != sep);
        assert(t.push(s.last()) =~= s);
        assert(text::pieces_at(s, sep) =~= seq![s]);
    } else {
        assert(s =~= Seq::empty());
        assert(text::pieces_at(s, sep) =~= seq![s]);
    }
}

proof fn one_more_piece(s: Seq<char>, t: Seq<char>, sep: char)
    requires
        !t.contains(sep),
    ensures
        text::pieces_at(s.push(sep) + t, sep) == text::pieces_at(s, sep).push(t),
    decreases t.len(),
{
    let all = s.push(sep) + t;
    if t.len() == 0 {
        assert(all.drop_last() =~= s);
        assert(all.last() == sep);
        assert(t =~= Seq::empty());
    } else {
        let u = t.drop_last();
        assert forall|i: int| 0 <= i < u.len() implies u[i] != sep by {
            assert(t[i] != sep);
        }
        assert(!u.contains(sep));
        one_more_piece(s, u, sep);
        assert(t[t.len() - 1] != sep);
        assert(all.drop_last() =~= s.push(sep) + u);
        assert(all.last() == t.last());
        let before = text::pieces_at(s, sep).push(u);
        assert(before.drop_last() =~= text::pieces_at(s, sep));
        assert(u.push(t.last()) =~= t);
    }
}

proof fn joined_parts_come_apart(parts: Seq<Seq<char>>)
    requires
        parts.len() > 0,
        forall|i: int| 0 <= i < parts.len() ==> !(#[trigger] parts[i]).contains('&'),
    ensures
        text::pieces_at(text::joined(parts, "&"@), '&') == parts,
    decreases parts.len(),
{
    reveal_strlit("&");
    if parts.len() == 1 {
        no_pieces(parts[0], '&');
        assert(parts =~= seq![parts[0]]);
    } else {
        let front = parts.drop_last();
        assert forall|i: int| 0 <= i < front.len() implies !(#[trigger] front[i]).contains('&') by {
            assert(!parts[i].contains('&'));
        }
        joined_parts_come_apart(front);
        let s = text::joined(front, "&"@);
        assert(!parts[parts.len() - 1].contains('&'));
        one_more_piece(s, parts.last(), '&');
        assert(s + "&"@ + parts.last() =~= s.push('&') + parts.last());
        assert(front.push(parts.last()) =~= parts);
    }
}

proof fn a_pair_comes_apart(p: (Seq<char>, Seq<char>))
    requires
        is_plain_name(p.0),
    ensures
        pair_of(pair_text(p)) == Some(p),
        !pair_text(p).contains('&'),
{
    reveal_strlit("=");
    let value = url::encoded(p.1);
    let s = pair_text(p);
    let n = p.0.len() as int;
    url::encoded_text_is_plain(vstd::utf8::encode_utf8(p.1));
    assert(s[n] == '=');
    assert forall|i: int| 0 <= i < s.len() implies s[i] != '&' && (i < n ==> s[i] != '=') by {
        if i < n {
            assert(s[i] == p.0[i]);
            assert(is_plain_char(p.0[i]));
        } else if i > n {
            assert(s[i] == value[i - n - 1]);
        }
    }
    assert(s.contains('='));
    s.index_of_first_ensures('=');
    assert(s.index_of_first('=') == Some(n));
    assert(s.take(n) =~= p.0);
    assert(s.skip(n + 1) =~= value);
    plain_names_stand_for_themselves(p.0);
    url::decoding_undoes_encoding(p.1);
}

proof fn pairs_come_apart(pairs: Seq<(Seq<char>, Seq<char>)>)
    requires
        forall|i: int| 0 <= i < pairs.len() ==> is_plain_name((#[trigger] pairs[i]).0),
    ensures
        pairs_of(pair_texts(pairs)) == pairs,
    decreases pairs.len(),
{
    if pairs.len() == 0 {
        assert(pairs_of(pair_texts(pairs)) =~= pairs);
    } else {
        let front = pairs.drop_last();
        assert forall|i: int| 0 <= i < front.len() implies is_plain_name((#[trigger] front[i]).0) by {
            assert(is_plain_name(pairs[i].0));
        }
        pairs_come_apart(front);
        assert(pair_texts(pairs).drop_last() =~= pair_texts(front));
        assert(is_plain_name(pairs[pairs.len() - 1].0));
        a_pair_comes_apart(pairs.last());
        assert(pair_texts(pairs).last() == pair_text(pairs.last()));
        assert(front.push(pairs.last()) =~= pairs);
    }
}

/// A query that was written is read as the names and values it was made of.
pub proof fn queries_read_back(pairs: Seq<(Seq<char>, Seq<char>)>)
    requires
        forall|i: int| 0 <= i < pairs.len() ==> is_plain_name((#[trigger] pairs[i]).0),
    ensures
        query_pairs(query_of(pairs)) == pairs,
{
    let parts = pair_texts(pairs);
    if pairs.len() == 0 {
        assert(query_of(pairs) =~= Seq::<char>::empty());
        let pieces = text::pieces_at(Seq::<char>::empty(), '&');
        assert(pieces.len() == 1 && pieces.last() =~= Seq::<char>::empty());
        assert(pieces.drop_last() =~= Seq::empty());
        assert(!pieces.last().contains('='));
        assert(pairs_of(pieces.drop_last()) =~= Seq::empty());
        assert(pair_of(pieces.last()) is None);
        assert(pairs =~= Seq::empty());
    } else {
        assert forall|i: int| 0 <= i < parts.len() implies !(#[trigger] parts[i]).contains('&') by {
            assert(is_plain_name(pairs[i].0));
            a_pair_comes_apart(pairs[i]);
        }
        joined_parts_come_apart(parts);
        pairs_come_apart(pairs);
    }
}

/// A name stands for the value that it was given last, and for nothing where it was
/// given none.
pub proof fn the_last_value_counts(pairs: Seq<(Seq<char>, Seq<char>)>, key: Seq<char>, i: int)
    requires
        forall|j: int| 0 <= j && i < j < pairs.len() ==> (#[trigger] pairs[j]).0 != key,
    ensures
        0 <= i < pairs.len() && pairs[i].0 == key ==> lookup(map_of(pairs), key) == Some(pairs[i].1),
        i < 0 ==> lookup(map_of(pairs), key) is None,
    decreases pairs.len(),
{
    if pairs.len() > 0 && i < pairs.len() - 1 {
        let front = pairs.drop_last();
        assert forall|j: int| 0 <= j && i < j < front.len() implies (#[trigger] front[j]).0 != key by {
            assert(front[j] == pairs[j]);
        }
        the_last_value_counts(front, key, i);
        assert(pairs[pairs.len() - 1].0 != key);
    }
}

/// A piece of a query is a name and a value with `=` between them, both decoded; a
/// piece without `=` is a name with an empty value.
pub proof fn pieces_are_names_and_values(name: Seq<char>, value: Seq<char>)
    requires
        name.len() > 0,
        !name.contains('='),
    ensures
        pair_of(name + seq!['='] + value) == Some((component_of(name), component_of(value))),
        pair_of(name) == Some((component_of(name), component_of(Seq::empty()))),
        pair_of(seq!['='] + value) is None,
        pair_of(Seq::empty()) is None,
{
    let piece = name + seq!['='] + value;
    text::cuts_are_at_the_first(piece, '=');
    assert(piece[name.len() as int] == '=');
    assert(piece.contains('='));
    let cut = text::cut_at(piece, '=')->Some_0;
    let n = cut.0.len() as int;
    assert(piece[n] == '=') by {
        assert((cut.0 + seq!['='] + cut.1)[n] == '=');
    }
    if n < name.len() {
        assert(name[n] == '=');
        assert(name.contains(name[n]));
    } else if n > name.len() {
        assert(cut.0[name.len() as int] == piece[name.len() as int]);
        assert(cut.0.contains(cut.0[name.len() as int]));
    }
    assert(cut.0 =~= name) by {
        assert(piece.take(n) =~= name);
        assert((cut.0 + seq!['='] + cut.1).take(n) =~= cut.0);
    }
    assert(cut.1 =~= value) by {
        assert(piece.skip(n + 1) =~= value);
        assert((cut.0 + seq!['='] + cut.1).skip(n + 1) =~= cut.1);
    }
    text::cuts_are_at_the_first(name, '=');
    let bare = seq!['='] + value;
    text::cuts_are_at_the_first(bare, '=');
    assert(bare[0] == '=');
    assert(bare.contains('='));
    let other = text::cut_at(bare, '=')->Some_0;
    if other.0.len() > 0 {
        assert(other.0[0] == bare[0]);
        assert(other.0.contains(other.0[0]));
    }
    text::cuts_are_at_the_first(Seq::empty(), '=');
}

/// A plain name is encoded as it is.
pub proof fn plain_texts_stay(s: Seq<char>)
    requires
        is_plain_name(s),
    ensures
        url::encoded(s) == s,
{
    assert forall|i: int| 0 <= i < s.len() implies '\0' <= #[trigger] s[i] <= '\u{7f}' by {
        assert(is_plain_char(s[i]));
    }
    url::ascii_encodes_to_itself(s);
    plain_bytes_escape_to_themselves(s);
}

} // verus!
