//! Text primitives over characters.
//!
//! Specifications speak of `Seq<char>`, the view of `String` and `str`. The
//! splitting functions are written as left folds, so that a scan over the
//! characters follows the definition step by step.
use vstd::prelude::*;

verus! {

/// `String::push` appends the given character to the end of the string.
pub assume_specification[ String::push ](s: &mut String, c: char)
    ensures
        final(s)@ == old(s)@.push(c),
;

// ---------------------------------------------------------------------------
// Character classes
// ---------------------------------------------------------------------------

/// Characters with the Unicode `White_Space` property.
pub open spec fn is_white(c: char) -> bool {
    let n = c as u32;
    ||| 9 <= n <= 13
    ||| n == 32
    ||| n == 0x85
    ||| n == 0xA0
    ||| n == 0x1680
    ||| 0x2000 <= n <= 0x200A
    ||| n == 0x2028
    ||| n == 0x2029
    ||| n == 0x202F
    ||| n == 0x205F
    ||| n == 0x3000
}

pub fn white(c: char) -> (r: bool)
    ensures
        r == is_white(c),
{
    let n: u32 = c as u32;
    (9 <= n && n <= 13) || n == 32 || n == 0x85 || n == 0xA0 || n == 0x1680 || (0x2000 <= n && n
        <= 0x200A) || n == 0x2028 || n == 0x2029 || n == 0x202F || n == 0x205F || n == 0x3000
}

/// Characters of the Unicode general category `Cc`.
pub open spec fn is_control_char(c: char) -> bool {
    let n = c as u32;
    n <= 0x1F || 0x7F <= n <= 0x9F
}

pub fn control_char(c: char) -> (r: bool)
    ensures
        r == is_control_char(c),
{
    let n: u32 = c as u32;
    n <= 0x1F || (0x7F <= n && n <= 0x9F)
}

pub open spec fn is_digit(c: char) -> bool {
    '0' <= c <= '9'
}

pub fn digit(c: char) -> (r: bool)
    ensures
        r == is_digit(c),
{
    '0' <= c && c <= '9'
}

pub open spec fn is_alphanumeric(c: char) -> bool {
    is_digit(c) || 'a' <= c <= 'z' || 'A' <= c <= 'Z'
}

/// ASCII letters and digits.
pub fn alphanumeric(c: char) -> (r: bool)
    ensures
        r == is_alphanumeric(c),
{
    digit(c) || ('a' <= c && c <= 'z') || ('A' <= c && c <= 'Z')
}

pub open spec fn is_hex_digit(c: char) -> bool {
    is_digit(c) || 'a' <= c <= 'f' || 'A' <= c <= 'F'
}

pub fn hex_digit(c: char) -> (r: bool)
    ensures
        r == is_hex_digit(c),
{
    digit(c) || ('a' <= c && c <= 'f') || ('A' <= c && c <= 'F')
}

/// ASCII upper case to lower case; every other character stays.
pub open spec fn lower_char(c: char) -> char {
    if 'A' <= c <= 'Z' {
        ((c as u8) + 32) as char
    } else {
        c
    }
}

pub open spec fn lowered(s: Seq<char>) -> Seq<char> {
    s.map_values(|c: char| lower_char(c))
}

pub fn ascii_lower(c: char) -> (r: char)
    ensures
        r == lower_char(c),
{
    if 'A' <= c && c <= 'Z' {
        ((c as u8) + 32) as char
    } else {
        c
    }
}

// ---------------------------------------------------------------------------
// Strings as vectors of characters
// ---------------------------------------------------------------------------

pub fn to_chars(s: &str) -> (r: Vec<char>)
    ensures
        r@ == s@,
{
    let mut r: Vec<char> = Vec::new();
    for c in it: s.chars()
        invariant
            it.seq() == s@,
            r@ == s@.take(it.index() as int),
    {
        r.push(c);
    }
    r
}

pub fn from_chars(v: &Vec<char>, from: usize, to: usize) -> (r: String)
    requires
        from <= to <= v@.len(),
    ensures
        r@ == v@.subrange(from as int, to as int),
{
    let mut r = String::new();
    let mut i: usize = from;
    while i < to
        invariant
            from <= i <= to <= v@.len(),
            r@ == v@.subrange(from as int, i as int),
        decreases to - i,
    {
        r.push(v[i]);
        i = i + 1;
    }
    r
}

/// The views of a sequence of strings.
pub open spec fn views(v: Seq<String>) -> Seq<Seq<char>> {
    v.map_values(|s: String| s@)
}

/// The view of an optional string.
pub open spec fn opt_view(o: Option<String>) -> Option<Seq<char>> {
    match o {
        Some(s) => Some(s@),
        None => None,
    }
}

pub fn same(a: &str, b: &str) -> (r: bool)
    ensures
        r == (a@ == b@),
{
    a.to_owned() == b.to_owned()
}

pub fn same_option(a: &Option<String>, b: &Option<String>) -> (r: bool)
    ensures
        r == (opt_view(*a) == opt_view(*b)),
{
    match (a, b) {
        (Some(x), Some(y)) => same(x.as_str(), y.as_str()),
        (None, None) => true,
        _ => false,
    }
}

pub fn clone_option(o: &Option<String>) -> (r: Option<String>)
    ensures
        r == *o,
{
    match o {
        Some(s) => Some(s.clone()),
        None => None,
    }
}

// ---------------------------------------------------------------------------
// Concatenation
// ---------------------------------------------------------------------------

pub fn cat2(a: &str, b: &str) -> (r: String)
    ensures
        r@ == a@ + b@,
{
    let mut r = a.to_owned();
    r.append(b);
    r
}

pub fn cat3(a: &str, b: &str, c: &str) -> (r: String)
    ensures
        r@ == a@ + b@ + c@,
{
    let mut r = cat2(a, b);
    r.append(c);
    r
}

pub fn cat4(a: &str, b: &str, c: &str, d: &str) -> (r: String)
    ensures
        r@ == a@ + b@ + c@ + d@,
{
    let mut r = cat3(a, b, c);
    r.append(d);
    r
}

pub fn cat5(a: &str, b: &str, c: &str, d: &str, e: &str) -> (r: String)
    ensures
        r@ == a@ + b@ + c@ + d@ + e@,
{
    let mut r = cat4(a, b, c, d);
    r.append(e);
    r
}

pub fn cat6(a: &str, b: &str, c: &str, d: &str, e: &str, f: &str) -> (r: String)
    ensures
        r@ == a@ + b@ + c@ + d@ + e@ + f@,
{
    let mut r = cat5(a, b, c, d, e);
    r.append(f);
    r
}

// ---------------------------------------------------------------------------
// Trimming
// ---------------------------------------------------------------------------

pub open spec fn trim_left(s: Seq<char>) -> Seq<char>
    decreases s.len(),
{
    if s.len() > 0 && is_white(s[0]) {
        trim_left(s.drop_first())
    } else {
        s
    }
}

pub open spec fn trim_right(s: Seq<char>) -> Seq<char>
    decreases s.len(),
{
    if s.len() > 0 && is_white(s.last()) {
        trim_right(s.drop_last())
    } else {
        s
    }
}

/// The text without leading and trailing white space.
pub open spec fn trimmed(s: Seq<char>) -> Seq<char> {
    trim_right(trim_left(s))
}

/// Nothing but white space.
pub open spec fn is_blank(s: Seq<char>) -> bool {
    trimmed(s).len() == 0
}

pub fn trim(s: &str) -> (r: String)
    ensures
        r@ == trimmed(s@),
{
    let v = to_chars(s);
    let n: usize = v.len();
    let mut lo: usize = 0;
    assert(v@.skip(0) =~= v@);
    while lo < n && white(v[lo])
        invariant
            lo <= n,
            n == v@.len(),
            trim_left(v@) == trim_left(v@.skip(lo as int)),
        decreases n - lo,
    {
        assert(v@.skip(lo as int).drop_first() =~= v@.skip(lo as int + 1));
        lo = lo + 1;
    }
    let mut hi: usize = n;
    assert(v@.subrange(lo as int, hi as int) =~= v@.skip(lo as int));
    while lo < hi && white(v[hi - 1])
        invariant
            lo <= hi <= n,
            n == v@.len(),
            trim_right(trim_left(v@)) == trim_right(v@.subrange(lo as int, hi as int)),
        decreases hi - lo,
    {
        assert(v@.subrange(lo as int, hi as int).drop_last() =~= v@.subrange(
            lo as int,
            hi as int - 1,
        ));
        hi = hi - 1;
    }
    from_chars(&v, lo, hi)
}

pub fn blank(s: &str) -> (r: bool)
    ensures
        r == is_blank(s@),
{
    trim(s).as_str().is_empty()
}

/// Trimming an already trimmed text changes nothing.
pub proof fn trimming_is_idempotent(s: Seq<char>)
    ensures
        trimmed(trimmed(s)) == trimmed(s),
{
    trim_left_result(s);
    trim_right_result(trim_left(s));
    let t = trimmed(s);
    let u = trim_left(s);
    if t.len() > 0 {
        assert(t[0] == u[0]);
        assert(trim_left(t) == t);
    }
}

proof fn trim_left_result(s: Seq<char>)
    ensures
        trim_left(s).len() > 0 ==> !is_white(trim_left(s)[0]),
    decreases s.len(),
{
    if s.len() > 0 && is_white(s[0]) {
        trim_left_result(s.drop_first());
    }
}

proof fn trim_right_result(s: Seq<char>)
    ensures
        trim_right(s).len() <= s.len(),
        trim_right(s) == s.take(trim_right(s).len() as int),
        trim_right(s).len() > 0 ==> !is_white(trim_right(s).last()),
    decreases s.len(),
{
    if s.len() > 0 && is_white(s.last()) {
        trim_right_result(s.drop_last());
        let k = trim_right(s).len() as int;
        assert(s.drop_last().take(k) =~= s.take(k));
    } else {
        assert(s.take(s.len() as int) =~= s);
    }
}

// ---------------------------------------------------------------------------
// Lower case
// ---------------------------------------------------------------------------

pub fn to_lower(s: &str) -> (r: String)
    ensures
        r@ == lowered(s@),
{
    let v = to_chars(s);
    let mut r = String::new();
    let mut i: usize = 0;
    while i < v.len()
        invariant
            i <= v@.len(),
            v@ == s@,
            r@ == lowered(s@.take(i as int)),
        decreases v@.len() - i,
    {
        r.push(ascii_lower(v[i]));
        assert(lowered(s@.take(i as int + 1)) =~= lowered(s@.take(i as int)).push(
            lower_char(v@[i as int]),
        ));
        i = i + 1;
    }
    assert(s@.take(i as int) =~= s@);
    r
}

// ---------------------------------------------------------------------------
// Searching
// ---------------------------------------------------------------------------

/// `needle` stands in `s` at position `i`.
pub open spec fn occurs_at(s: Seq<char>, needle: Seq<char>, i: int) -> bool {
    &&& 0 <= i
    &&& i + needle.len() <= s.len()
    &&& s.subrange(i, i + needle.len()) == needle
}

pub open spec fn has_text(s: Seq<char>, needle: Seq<char>) -> bool {
    exists|i: int| occurs_at(s, needle, i)
}

pub open spec fn begins_with(s: Seq<char>, prefix: Seq<char>) -> bool {
    occurs_at(s, prefix, 0)
}

pub open spec fn finishes_with(s: Seq<char>, suffix: Seq<char>) -> bool {
    occurs_at(s, suffix, s.len() - suffix.len())
}

pub fn match_at(v: &Vec<char>, needle: &Vec<char>, at: usize) -> (r: bool)
    requires
        at <= v@.len(),
    ensures
        r == occurs_at(v@, needle@, at as int),
{
    if needle.len() > v.len() - at {
        return false;
    }
    let n: usize = v.len();
    let mut j: usize = 0;
    while j < needle.len()
        invariant
            n == v@.len(),
            at + needle@.len() <= n,
            j <= needle@.len(),
            forall|k: int| 0 <= k < j ==> v@[at + k] == needle@[k],
        decreases needle@.len() - j,
    {
        if v[at + j] != needle[j] {
            assert(v@.subrange(at as int, at + needle@.len())[j as int] != needle@[j as int]);
            return false;
        }
        j = j + 1;
    }
    assert(v@.subrange(at as int, at + needle@.len()) =~= needle@);
    true
}

pub fn contains(s: &str, needle: &str) -> (r: bool)
    ensures
        r == has_text(s@, needle@),
{
    let v = to_chars(s);
    let w = to_chars(needle);
    let mut i: usize = 0;
    while i <= v.len()
        invariant
            i <= v@.len() + 1,
            v@ == s@,
            w@ == needle@,
            forall|k: int| 0 <= k < i ==> !occurs_at(s@, needle@, k),
        decreases v@.len() + 1 - i,
    {
        if match_at(&v, &w, i) {
            assert(occurs_at(s@, needle@, i as int));
            return true;
        }
        if i == v.len() {
            assert forall|k: int| !occurs_at(s@, needle@, k) by {
                if k > v@.len() {
                    assert(k + needle@.len() > s@.len());
                }
            }
            return false;
        }
        i = i + 1;
    }
    false
}

pub fn starts_with(s: &str, prefix: &str) -> (r: bool)
    ensures
        r == begins_with(s@, prefix@),
{
    let v = to_chars(s);
    let w = to_chars(prefix);
    match_at(&v, &w, 0)
}

pub fn ends_with(s: &str, suffix: &str) -> (r: bool)
    ensures
        r == finishes_with(s@, suffix@),
{
    let v = to_chars(s);
    let w = to_chars(suffix);
    if w.len() > v.len() {
        return false;
    }
    match_at(&v, &w, v.len() - w.len())
}

/// The text behind `prefix`, where the text begins with it.
pub open spec fn without_prefix(s: Seq<char>, prefix: Seq<char>) -> Option<Seq<char>> {
    if begins_with(s, prefix) {
        Some(s.skip(prefix.len() as int))
    } else {
        None
    }
}

pub fn strip_prefix(s: &str, prefix: &str) -> (r: Option<String>)
    ensures
        opt_view(r) == without_prefix(s@, prefix@),
{
    let v = to_chars(s);
    let w = to_chars(prefix);
    if match_at(&v, &w, 0) {
        let rest = from_chars(&v, w.len(), v.len());
        assert(rest@ =~= s@.skip(prefix@.len() as int));
        Some(rest)
    } else {
        None
    }
}

/// The text before `suffix`, where the text ends with it.
pub open spec fn without_suffix(s: Seq<char>, suffix: Seq<char>) -> Option<Seq<char>> {
    if finishes_with(s, suffix) {
        Some(s.take(s.len() - suffix.len()))
    } else {
        None
    }
}

pub fn strip_suffix(s: &str, suffix: &str) -> (r: Option<String>)
    ensures
        opt_view(r) == without_suffix(s@, suffix@),
{
    if ends_with(s, suffix) {
        let v = to_chars(s);
        let w = to_chars(suffix);
        let rest = from_chars(&v, 0, v.len() - w.len());
        assert(rest@ =~= s@.take(s@.len() - suffix@.len()));
        Some(rest)
    } else {
        None
    }
}

// ---------------------------------------------------------------------------
// Splitting
// ---------------------------------------------------------------------------

/// The pieces of `s` between the characters that `sep` marks: one more than
/// there are marked characters.
pub open spec fn pieces(s: Seq<char>, sep: spec_fn(char) -> bool) -> Seq<Seq<char>>
    decreases s.len(),
{
    if s.len() == 0 {
        seq![Seq::<char>::empty()]
    } else {
        let init = pieces(s.drop_last(), sep);
        if sep(s.last()) {
            init.push(Seq::<char>::empty())
        } else {
            init.drop_last().push(init.last().push(s.last()))
        }
    }
}

pub open spec fn is_char(sep: char) -> spec_fn(char) -> bool {
    |c: char| c == sep
}

pub open spec fn pieces_at(s: Seq<char>, sep: char) -> Seq<Seq<char>> {
    pieces(s, is_char(sep))
}

/// The pieces that are not empty between runs of white space.
pub open spec fn words_of(s: Seq<char>) -> Seq<Seq<char>> {
    pieces(s, |c: char| is_white(c)).filter(|p: Seq<char>| p.len() > 0)
}

pub open spec fn without_return(s: Seq<char>) -> Seq<char> {
    if s.len() > 0 && s.last() == '\r' {
        s.drop_last()
    } else {
        s
    }
}

/// The lines of a text: each ends at `'\n'` or `"\r\n"`, and a last one without
/// an ending counts where it is not empty.
pub open spec fn lines_of(s: Seq<char>) -> Seq<Seq<char>> {
    let p = pieces_at(s, '\n');
    let ended = p.drop_last().map_values(|l: Seq<char>| without_return(l));
    if p.last().len() == 0 {
        ended
    } else {
        ended.push(p.last())
    }
}

pub proof fn pieces_not_empty(s: Seq<char>, sep: spec_fn(char) -> bool)
    ensures
        pieces(s, sep).len() > 0,
    decreases s.len(),
{
    if s.len() > 0 {
        pieces_not_empty(s.drop_last(), sep);
    }
}

pub fn split_at(s: &str, sep: char) -> (r: Vec<String>)
    ensures
        views(r@) == pieces_at(s@, sep),
        r@.len() > 0,
{
    let v = to_chars(s);
    let ghost f = is_char(sep);
    let mut done: Vec<String> = Vec::new();
    let mut cur = String::new();
    let mut i: usize = 0;
    assert(views(done@) =~= Seq::<Seq<char>>::empty());
    while i < v.len()
        invariant
            i <= v@.len(),
            v@ == s@,
            f == is_char(sep),
            pieces(s@.take(i as int), f) == views(done@).push(cur@),
        decreases v@.len() - i,
    {
        assert(s@.take(i as int + 1).drop_last() =~= s@.take(i as int));
        let ghost before = views(done@).push(cur@);
        assert(before.drop_last() =~= views(done@));
        if v[i] == sep {
            let ghost was = done@;
            done.push(cur);
            assert(views(done@) =~= before);
            cur = String::new();
        } else {
            cur.push(v[i]);
        }
        i = i + 1;
    }
    assert(s@.take(i as int) =~= s@);
    let ghost was = done@;
    let ghost last = cur@;
    done.push(cur);
    assert(views(done@) =~= views(was).push(last));
    done
}

pub fn words(s: &str) -> (r: Vec<String>)
    ensures
        views(r@) == words_of(s@),
{
    let v = to_chars(s);
    let ghost f = |c: char| is_white(c);
    let ghost g = |p: Seq<char>| p.len() > 0;
    let ghost mut all: Seq<Seq<char>> = Seq::empty();
    let mut done: Vec<String> = Vec::new();
    let mut cur = String::new();
    let mut i: usize = 0;
    proof {
        reveal(Seq::filter);
        assert(views(done@) =~= Seq::<Seq<char>>::empty());
        assert(all.filter(g) =~= Seq::<Seq<char>>::empty());
    }
    while i < v.len()
        invariant
            i <= v@.len(),
            v@ == s@,
            f == (|c: char| is_white(c)),
            g == (|p: Seq<char>| p.len() > 0),
            pieces(s@.take(i as int), f) == all.push(cur@),
            views(done@) == all.filter(g),
        decreases v@.len() - i,
    {
        proof {
            reveal(Seq::filter);
            assert(s@.take(i as int + 1).drop_last() =~= s@.take(i as int));
            assert(all.push(cur@).drop_last() =~= all);
        }
        if white(v[i]) {
            let ghost grown = all.push(cur@);
            proof {
                assert(grown.filter(g) == if cur@.len() > 0 {
                    all.filter(g).push(cur@)
                } else {
                    all.filter(g)
                });
                all = grown;
            }
            if cur.as_str().is_empty() {
                cur = String::new();
            } else {
                let ghost was = done@;
                done.push(cur);
                assert(views(done@) =~= views(was).push(done@.last()@));
                cur = String::new();
            }
        } else {
            cur.push(v[i]);
        }
        i = i + 1;
    }
    proof {
        reveal(Seq::filter);
        assert(s@.take(i as int) =~= s@);
        assert(all.push(cur@).drop_last() =~= all);
    }
    if !cur.as_str().is_empty() {
        let ghost was = done@;
        done.push(cur);
        assert(views(done@) =~= views(was).push(done@.last()@));
    }
    done
}

pub fn lines(s: &str) -> (r: Vec<String>)
    ensures
        views(r@) == lines_of(s@),
{
    let parts = split_at(s, '\n');
    let ghost p = pieces_at(s@, '\n');
    let ghost h = |l: Seq<char>| without_return(l);
    let mut r: Vec<String> = Vec::new();
    let mut i: usize = 0;
    while i < parts.len() - 1
        invariant
            parts@.len() > 0,
            i <= parts@.len() - 1,
            p == views(parts@),
            h == (|l: Seq<char>| without_return(l)),
            views(r@) == p.take(i as int).map_values(h),
        decreases parts@.len() - i,
    {
        let v = to_chars(parts[i].as_str());
        let line = if v.len() > 0 && v[v.len() - 1] == '\r' {
            from_chars(&v, 0, v.len() - 1)
        } else {
            from_chars(&v, 0, v.len())
        };
        assert(line@ =~= without_return(p[i as int]));
        let ghost was = r@;
        let ghost kept = line@;
        r.push(line);
        assert(views(r@) =~= views(was).push(kept));
        assert(p.take(i as int + 1).map_values(h) =~= p.take(i as int).map_values(h).push(
            without_return(p[i as int]),
        ));
        i = i + 1;
    }
    assert(p.take(i as int) =~= p.drop_last());
    let last = &parts[parts.len() - 1];
    if !last.as_str().is_empty() {
        let ghost was = r@;
        r.push(last.clone());
        assert(views(r@) =~= views(was).push(p.last()));
    }
    r
}

/// The text before and behind the first `sep`.
pub open spec fn cut_at(s: Seq<char>, sep: char) -> Option<(Seq<char>, Seq<char>)> {
    if s.contains(sep) {
        let i = s.index_of_first(sep).unwrap();
        Some((s.take(i), s.skip(i + 1)))
    } else {
        None
    }
}

pub fn split_once(s: &str, sep: char) -> (r: Option<(String, String)>)
    ensures
        match r {
            Some(p) => cut_at(s@, sep) == Some((p.0@, p.1@)),
            None => cut_at(s@, sep) is None,
        },
{
    let v = to_chars(s);
    let mut i: usize = 0;
    while i < v.len()
        invariant
            i <= v@.len(),
            v@ == s@,
            forall|k: int| 0 <= k < i ==> s@[k] != sep,
        decreases v@.len() - i,
    {
        if v[i] == sep {
            proof {
                s@.index_of_first_ensures(sep);
                let j = s@.index_of_first(sep).unwrap();
                assert(s@.contains(sep));
                assert(j == i);
            }
            let before = from_chars(&v, 0, i);
            let behind = from_chars(&v, i + 1, v.len());
            assert(before@ =~= s@.take(i as int));
            assert(behind@ =~= s@.skip(i as int + 1));
            return Some((before, behind));
        }
        i = i + 1;
    }
    assert(!s@.contains(sep));
    None
}

// ---------------------------------------------------------------------------
// Joining and replacing
// ---------------------------------------------------------------------------

/// The parts in order, with `sep` between each two.
pub open spec fn joined(parts: Seq<Seq<char>>, sep: Seq<char>) -> Seq<char>
    decreases parts.len(),
{
    if parts.len() == 0 {
        Seq::empty()
    } else if parts.len() == 1 {
        parts[0]
    } else {
        joined(parts.drop_last(), sep) + sep + parts.last()
    }
}

pub fn join(parts: &Vec<String>, sep: &str) -> (r: String)
    ensures
        r@ == joined(views(parts@), sep@),
{
    let ghost p = views(parts@);
    if parts.len() == 0 {
        return String::new();
    }
    let mut r = parts[0].clone();
    let mut i: usize = 1;
    assert(p.take(1) =~= seq![p[0]]);
    while i < parts.len()
        invariant
            1 <= i <= parts@.len(),
            p == views(parts@),
            r@ == joined(p.take(i as int), sep@),
        decreases parts@.len() - i,
    {
        assert(p.take(i as int + 1).drop_last() =~= p.take(i as int));
        r.append(sep);
        r.append(parts[i].as_str());
        i = i + 1;
    }
    assert(p.take(i as int) =~= p);
    r
}

/// A text so many times.
pub open spec fn repeated(s: Seq<char>, n: nat) -> Seq<char>
    decreases n,
{
    if n == 0 {
        Seq::empty()
    } else {
        repeated(s, (n - 1) as nat) + s
    }
}

pub fn repeat(s: &str, n: usize) -> (r: String)
    ensures
        r@ == repeated(s@, n as nat),
{
    let mut r = String::new();
    let mut i: usize = 0;
    while i < n
        invariant
            i <= n,
            r@ == repeated(s@, i as nat),
        decreases n - i,
    {
        r.append(s);
        i = i + 1;
    }
    r
}

/// A text with spaces behind it, up to a width.
pub open spec fn padded(s: Seq<char>, width: nat) -> Seq<char> {
    if s.len() >= width {
        s
    } else {
        s + repeated(" "@, (width - s.len()) as nat)
    }
}

pub fn pad(s: &str, width: usize) -> (r: String)
    ensures
        r@ == padded(s@, width as nat),
{
    let v = to_chars(s);
    if v.len() >= width {
        s.to_owned()
    } else {
        let spaces = repeat(" ", width - v.len());
        cat2(s, spaces.as_str())
    }
}

/// `s` with every occurrence of `needle`, found from the left and not
/// overlapping, exchanged for `with`.
pub open spec fn replaced(s: Seq<char>, needle: Seq<char>, with: Seq<char>) -> Seq<char>
    decreases s.len(),
{
    if needle.len() == 0 || s.len() < needle.len() {
        s
    } else if begins_with(s, needle) {
        with + replaced(s.skip(needle.len() as int), needle, with)
    } else {
        seq![s[0]] + replaced(s.drop_first(), needle, with)
    }
}

pub fn replace(s: &str, needle: &str, with: &str) -> (r: String)
    requires
        needle@.len() > 0,
    ensures
        r@ == replaced(s@, needle@, with@),
{
    let v = to_chars(s);
    let w = to_chars(needle);
    let mut out = String::new();
    let mut i: usize = 0;
    assert(s@.skip(0) =~= s@);
    assert(out@ + replaced(s@, needle@, with@) =~= replaced(s@, needle@, with@));
    while i < v.len() && w.len() <= v.len() - i
        invariant
            i <= v@.len(),
            v@ == s@,
            w@ == needle@,
            needle@.len() > 0,
            out@ + replaced(s@.skip(i as int), needle@, with@) == replaced(s@, needle@, with@),
        decreases v@.len() - i,
    {
        let ghost rest = s@.skip(i as int);
        let ghost before = out@;
        assert(rest.subrange(0, needle@.len() as int) =~= s@.subrange(
            i as int,
            i + needle@.len(),
        ));
        if match_at(&v, &w, i) {
            out.append(with);
            assert(rest.skip(needle@.len() as int) =~= s@.skip(i + needle@.len()));
            assert(out@ + replaced(s@.skip(i + needle@.len()), needle@, with@) =~= before
                + replaced(rest, needle@, with@));
            i = i + w.len();
        } else {
            out.push(v[i]);
            assert(rest.drop_first() =~= s@.skip(i + 1));
            assert(out@ + replaced(s@.skip(i + 1), needle@, with@) =~= before + replaced(
                rest,
                needle@,
                with@,
            ));
            i = i + 1;
        }
    }
    let tail = from_chars(&v, i, v.len());
    assert(tail@ =~= s@.skip(i as int));
    out.append(tail.as_str());
    out
}

// ---------------------------------------------------------------------------
// Decimal numbers
// ---------------------------------------------------------------------------

pub open spec fn digit_char(d: nat) -> char {
    (48 + d) as char
}

/// A natural number in decimal digits, without leading zeros.
pub open spec fn decimal(n: nat) -> Seq<char>
    decreases n,
{
    if n < 10 {
        seq![digit_char(n)]
    } else {
        decimal(n / 10).push(digit_char(n % 10))
    }
}

/// An integer in decimal digits, with a leading minus sign where it is negative.
pub open spec fn decimal_int(n: int) -> Seq<char> {
    if n < 0 {
        seq!['-'] + decimal((-n) as nat)
    } else {
        decimal(n as nat)
    }
}

pub fn number(n: u64) -> (r: String)
    ensures
        r@ == decimal(n as nat),
    decreases n,
{
    let d: u8 = (n % 10) as u8;
    let c: char = (48 + d) as char;
    assert(c == digit_char((n % 10) as nat));
    if n < 10 {
        let mut r = String::new();
        r.push(c);
        assert(r@ =~= decimal(n as nat));
        r
    } else {
        let mut r = number(n / 10);
        r.push(c);
        r
    }
}

pub fn signed_number(n: i64) -> (r: String)
    ensures
        r@ == decimal_int(n as int),
{
    if n < 0 {
        let m: u64 = if n == i64::MIN {
            0x8000_0000_0000_0000
        } else {
            (-n) as u64
        };
        proof {
            reveal_strlit("-");
            assert("-"@ =~= seq!['-']);
        }
        cat2("-", number(m).as_str())
    } else {
        number(n as u64)
    }
}

/// The sum of two numbers in decimal digits.
pub fn signed_sum(n: i64, more: u32) -> (r: String)
    ensures
        r@ == decimal_int(n + more),
{
    if n > i64::MAX - more as i64 {
        number(n as u64 + more as u64)
    } else {
        signed_number(n + more as i64)
    }
}

/// A text of digits and nothing else.
pub open spec fn all_digits(s: Seq<char>) -> bool {
    forall|i: int| 0 <= i < s.len() ==> is_digit(#[trigger] s[i])
}

/// The number that a text of digits stands for.
pub open spec fn digits_value(s: Seq<char>) -> int
    decreases s.len(),
{
    if s.len() == 0 {
        0
    } else {
        digits_value(s.drop_last()) * 10 + (s.last() as int - '0' as int)
    }
}

pub open spec fn without_plus(s: Seq<char>) -> Seq<char> {
    if s.len() > 0 && s[0] == '+' {
        s.skip(1)
    } else {
        s
    }
}

/// The number that a text stands for: digits, with or without a `+` in front.
pub open spec fn unsigned_value(s: Seq<char>) -> Option<int> {
    let digits = without_plus(s);
    if digits.len() > 0 && all_digits(digits) {
        Some(digits_value(digits))
    } else {
        None
    }
}

proof fn digits_value_grows(s: Seq<char>, k: int)
    requires
        all_digits(s),
        0 <= k <= s.len(),
    ensures
        0 <= digits_value(s.take(k)) <= digits_value(s),
    decreases s.len() - k,
{
    if k == s.len() {
        assert(s.take(k) =~= s);
        digits_value_is_not_negative(s);
    } else {
        digits_value_grows(s, k + 1);
        assert(s.take(k + 1).drop_last() =~= s.take(k));
        assert(is_digit(s[k]));
        assert forall|i: int| 0 <= i < k implies is_digit(#[trigger] s.take(k)[i]) by {
            assert(is_digit(s[i]));
        }
        digits_value_is_not_negative(s.take(k));
    }
}

proof fn digits_value_is_not_negative(s: Seq<char>)
    requires
        all_digits(s),
    ensures
        digits_value(s) >= 0,
    decreases s.len(),
{
    if s.len() > 0 {
        assert forall|i: int| 0 <= i < s.drop_last().len() implies is_digit(
            #[trigger] s.drop_last()[i],
        ) by {
            assert(is_digit(s[i]));
        }
        digits_value_is_not_negative(s.drop_last());
        assert(is_digit(s[s.len() - 1]));
    }
}

pub proof fn unsigned_value_is_not_negative(s: Seq<char>)
    ensures
        unsigned_value(s) is Some ==> unsigned_value(s)->Some_0 >= 0,
{
    if unsigned_value(s) is Some {
        digits_value_is_not_negative(without_plus(s));
    }
}

pub fn parse_u64(s: &str) -> (r: Option<u64>)
    ensures
        match r {
            Some(n) => unsigned_value(s@) == Some(n as int),
            None => unsigned_value(s@) is None || unsigned_value(s@)->Some_0 > u64::MAX,
        },
{
    let v = to_chars(s);
    let from: usize = if v.len() > 0 && v[0] == '+' {
        1
    } else {
        0
    };
    let ghost digits = without_plus(s@);
    assert(digits =~= v@.skip(from as int));
    if from >= v.len() {
        return None;
    }
    let mut i: usize = from;
    while i < v.len()
        invariant
            from <= i <= v@.len(),
            digits == v@.skip(from as int),
            forall|k: int| from <= k < i ==> is_digit(#[trigger] v@[k]),
            digits == without_plus(s@),
        decreases v@.len() - i,
    {
        if !digit(v[i]) {
            assert(!is_digit(digits[i - from]));
            return None;
        }
        i = i + 1;
    }
    assert forall|k: int| 0 <= k < digits.len() implies is_digit(#[trigger] digits[k]) by {
        assert(is_digit(v@[k + from]));
    }
    let mut n: u64 = 0;
    i = from;
    while i < v.len()
        invariant
            from <= i <= v@.len(),
            digits == v@.skip(from as int),
            digits == without_plus(s@),
            digits.len() > 0,
            all_digits(digits),
            n as int == digits_value(digits.take(i - from)),
        decreases v@.len() - i,
    {
        let ghost k = i - from;
        assert(digits[k] == v@[i as int]);
        assert(is_digit(digits[k]));
        assert(digits.take(k + 1).drop_last() =~= digits.take(k));
        proof {
            digits_value_grows(digits, k + 1);
        }
        let d: u64 = v[i] as u64 - '0' as u64;
        if n > (u64::MAX - d) / 10 {
            assert(n * 10 + d > u64::MAX);
            return None;
        }
        n = n * 10 + d;
        i = i + 1;
    }
    assert(digits.take(i - from) =~= digits);
    Some(n)
}

pub fn parse_u32(s: &str) -> (r: Option<u32>)
    ensures
        match r {
            Some(n) => unsigned_value(s@) == Some(n as int),
            None => unsigned_value(s@) is None || unsigned_value(s@)->Some_0 > u32::MAX,
        },
{
    match parse_u64(s) {
        Some(n) => if n <= u32::MAX as u64 {
            Some(n as u32)
        } else {
            None
        },
        None => None,
    }
}

/// A number that was written out reads back as itself.
pub proof fn numbers_read_back(n: nat)
    ensures
        all_digits(decimal(n)),
        decimal(n).len() > 0,
        digits_value(decimal(n)) == n,
        unsigned_value(decimal(n)) == Some(n as int),
    decreases n,
{
    let s = decimal(n);
    if n >= 10 {
        numbers_read_back(n / 10);
        assert(s.drop_last() =~= decimal(n / 10));
        assert forall|i: int| 0 <= i < s.len() implies is_digit(#[trigger] s[i]) by {
            if i < s.len() - 1 {
                assert(s[i] == decimal(n / 10)[i]);
            }
        }
    } else {
        assert(s.drop_last() =~= Seq::empty());
        assert(digits_value(s.drop_last()) == 0);
    }
    assert(is_digit(s[0]));
}

// ---------------------------------------------------------------------------
// Laws
// ---------------------------------------------------------------------------

/// Trimming takes white space away at both ends and nothing else: what is left
/// stands in the text, neither begins nor ends with white space, and all around it
/// is white space.
pub proof fn trimming_leaves_the_core(s: Seq<char>) -> (from: int)
    ensures
        0 <= from <= from + trimmed(s).len() <= s.len(),
        trimmed(s) == s.subrange(from, from + trimmed(s).len()),
        trimmed(s).len() > 0 ==> !is_white(trimmed(s)[0]) && !is_white(trimmed(s).last()),
        forall|i: int| 0 <= i < from ==> is_white(#[trigger] s[i]),
        forall|i: int| from + trimmed(s).len() <= i < s.len() ==> is_white(#[trigger] s[i]),
{
    let from = trim_left_from(s);
    let u = trim_left(s);
    trim_left_result(s);
    trim_right_result(u);
    trim_right_rest(u);
    let t = trimmed(s);
    assert(t =~= s.subrange(from, from + t.len()));
    if t.len() > 0 {
        assert(t[0] == u[0]);
    }
    assert forall|i: int| from + t.len() <= i < s.len() implies is_white(#[trigger] s[i]) by {
        assert(s[i] == u[i - from]);
    }
    from
}

proof fn trim_left_from(s: Seq<char>) -> (from: int)
    ensures
        0 <= from <= s.len(),
        trim_left(s) == s.skip(from),
        forall|i: int| 0 <= i < from ==> is_white(#[trigger] s[i]),
    decreases s.len(),
{
    if s.len() > 0 && is_white(s[0]) {
        let rest = s.drop_first();
        let k = trim_left_from(rest);
        assert(rest.skip(k) =~= s.skip(k + 1));
        assert forall|i: int| 0 <= i < k + 1 implies is_white(#[trigger] s[i]) by {
            if i > 0 {
                assert(rest[i - 1] == s[i]);
            }
        }
        k + 1
    } else {
        assert(s.skip(0) =~= s);
        0
    }
}

proof fn trim_right_rest(s: Seq<char>)
    ensures
        trim_right(s).len() <= s.len(),
        forall|i: int| trim_right(s).len() <= i < s.len() ==> is_white(#[trigger] s[i]),
    decreases s.len(),
{
    if s.len() > 0 && is_white(s.last()) {
        let init = s.drop_last();
        trim_right_rest(init);
        assert forall|i: int| trim_right(s).len() <= i < s.len() implies is_white(#[trigger] s[i]) by {
            if i < s.len() - 1 {
                assert(init[i] == s[i]);
            }
        }
    }
}

/// A text is blank exactly where every character of it is white space.
pub proof fn blank_texts_are_white(s: Seq<char>)
    ensures
        is_blank(s) <==> forall|i: int| 0 <= i < s.len() ==> is_white(#[trigger] s[i]),
{
    let from = trimming_leaves_the_core(s);
    if !is_blank(s) {
        assert(!is_white(s[from])) by {
            assert(trimmed(s)[0] == s[from]);
        }
    }
}

/// Spaces, tabs and line ends are white space; letters, digits and the printable
/// characters of ASCII are not.
pub proof fn white_space_is_not_printed(c: char)
    ensures
        is_white(' ') && is_white('\t') && is_white('\n') && is_white('\r'),
        '!' <= c <= '~' ==> !is_white(c),
        is_white(c) && c < '\u{80}' ==> c == ' ' || '\t' <= c <= '\r',
        is_control_char(c) ==> c < ' ' || '\u{7F}' <= c <= '\u{9F}',
        c < ' ' || c == '\u{7F}' ==> is_control_char(c),
        ' ' <= c <= '~' ==> !is_control_char(c),
{
}

/// Lower case keeps the length and every character but the capitals of ASCII, which
/// become their small letters; nothing is left to lower then.
pub proof fn lower_case_has_no_capitals(s: Seq<char>)
    ensures
        lowered(s).len() == s.len(),
        forall|i: int|
            0 <= i < s.len() ==> {
                &&& !('A' <= (#[trigger] lowered(s)[i]) <= 'Z')
                &&& !('A' <= s[i] <= 'Z') ==> lowered(s)[i] == s[i]
                &&& 'A' <= s[i] <= 'Z' ==> lowered(s)[i] as int == s[i] as int + 32
            },
        lowered(lowered(s)) == lowered(s),
{
    assert forall|i: int| 0 <= i < s.len() implies {
        &&& !('A' <= (#[trigger] lowered(s)[i]) <= 'Z')
        &&& !('A' <= s[i] <= 'Z') ==> lowered(s)[i] == s[i]
        &&& 'A' <= s[i] <= 'Z' ==> lowered(s)[i] as int == s[i] as int + 32
    } by {
        lower_char_is_small(s[i]);
    }
    assert(lowered(lowered(s)) =~= lowered(s)) by {
        assert forall|i: int| 0 <= i < s.len() implies lower_char(#[trigger] lowered(s)[i])
            == lowered(s)[i] by {}
    }
}

proof fn lower_char_is_small(c: char)
    ensures
        'A' <= c <= 'Z' ==> lower_char(c) as int == c as int + 32,
{
    if 'A' <= c <= 'Z' {
        let b = c as u8;
        assert(b as int == c as int);
        let l = (b + 32) as u8;
        assert(l as char as int == l as int);
    }
}

/// The pieces between separators make up the text again with the separators
/// between them, and none of them holds a separator.
pub proof fn pieces_make_the_text(s: Seq<char>, sep: char)
    ensures
        joined(pieces_at(s, sep), seq![sep]) == s,
        pieces_at(s, sep).len() > 0,
        forall|i: int|
            0 <= i < pieces_at(s, sep).len() ==> !(#[trigger] pieces_at(s, sep)[i]).contains(sep),
    decreases s.len(),
{
    let f = is_char(sep);
    pieces_not_empty(s, f);
    let p = pieces_at(s, sep);
    if s.len() == 0 {
        assert(p =~= seq![Seq::<char>::empty()]);
        assert(joined(p, seq![sep]) =~= s);
    } else {
        let init = pieces_at(s.drop_last(), sep);
        pieces_make_the_text(s.drop_last(), sep);
        if s.last() == sep {
            assert(p.drop_last() =~= init);
            assert(joined(p, seq![sep]) =~= s.drop_last().push(sep));
            assert(s =~= s.drop_last().push(s.last()));
            assert forall|i: int| 0 <= i < p.len() implies !(#[trigger] p[i]).contains(sep) by {
                if i < init.len() {
                    assert(p[i] == init[i]);
                }
            }
        } else {
            let last = init.last().push(s.last());
            assert(p.drop_last() =~= init.drop_last());
            assert(p.last() == last);
            joined_ends_with(p, seq![sep]);
            joined_ends_with(init, seq![sep]);
            assert(joined(p, seq![sep]) =~= joined(init, seq![sep]).push(s.last()));
            assert(s =~= s.drop_last().push(s.last()));
            assert forall|i: int| 0 <= i < p.len() implies !(#[trigger] p[i]).contains(sep) by {
                if i < p.len() - 1 {
                    assert(p[i] == init[i]);
                } else {
                    assert forall|k: int| 0 <= k < last.len() implies last[k] != sep by {
                        if k < last.len() - 1 {
                            assert(init.last()[k] == last[k]);
                            assert(init[init.len() - 1] == init.last());
                            assert(!init[init.len() - 1].contains(sep));
                        }
                    }
                }
            }
        }
    }
}

proof fn joined_ends_with(p: Seq<Seq<char>>, sep: Seq<char>)
    requires
        p.len() > 0,
    ensures
        p.len() == 1 ==> joined(p, sep) == p.last(),
        p.len() > 1 ==> joined(p, sep) == joined(p.drop_last(), sep) + sep + p.last(),
{
}

/// Every word is a run of characters without white space, and not empty.
pub proof fn words_hold_no_white_space(s: Seq<char>)
    ensures
        forall|i: int|
            0 <= i < words_of(s).len() ==> {
                &&& (#[trigger] words_of(s)[i]).len() > 0
                &&& forall|k: int| 0 <= k < words_of(s)[i].len() ==> !is_white(words_of(s)[i][k])
            },
{
    let f = |c: char| is_white(c);
    let g = |p: Seq<char>| p.len() > 0;
    let all = pieces(s, f);
    pieces_are_clean(s, f);
    assert forall|i: int| 0 <= i < words_of(s).len() implies {
        &&& (#[trigger] words_of(s)[i]).len() > 0
        &&& forall|k: int| 0 <= k < words_of(s)[i].len() ==> !is_white(words_of(s)[i][k])
    } by {
        let w = words_of(s)[i];
        all.lemma_filter_pred(g, i);
        assert(all.filter(g).contains(w));
        all.lemma_filter_contains_rev(g, w);
        let j = choose|j: int| 0 <= j < all.len() && all[j] == w;
        assert forall|k: int| 0 <= k < w.len() implies !is_white(w[k]) by {
            assert(!f(all[j][k]));
        }
    }
}

proof fn pieces_are_clean(s: Seq<char>, sep: spec_fn(char) -> bool)
    ensures
        pieces(s, sep).len() > 0,
        forall|i: int, k: int|
            0 <= i < pieces(s, sep).len() && 0 <= k < pieces(s, sep)[i].len() ==> !sep(
                #[trigger] pieces(s, sep)[i][k],
            ),
    decreases s.len(),
{
    if s.len() > 0 {
        let init = pieces(s.drop_last(), sep);
        let p = pieces(s, sep);
        pieces_are_clean(s.drop_last(), sep);
        assert forall|i: int, k: int| 0 <= i < p.len() && 0 <= k < p[i].len() implies !sep(
            #[trigger] p[i][k],
        ) by {
            if sep(s.last()) {
                if i < init.len() {
                    assert(p[i] == init[i]);
                    assert(!sep(init[i][k]));
                }
            } else if i < init.len() - 1 {
                assert(p[i] == init[i]);
                assert(!sep(init[i][k]));
            } else {
                let last = init[init.len() - 1];
                if k < last.len() {
                    assert(p[i][k] == last[k]);
                    assert(!sep(init[init.len() - 1][k]));
                }
            }
        }
    }
}

/// One character more goes on with the last word, begins a new one behind white
/// space, or is white space and changes no word.
pub proof fn words_grow_by_characters(s: Seq<char>, c: char)
    ensures
        is_white(c) ==> words_of(s.push(c)) == words_of(s),
        !is_white(c) && (s.len() == 0 || is_white(s.last())) ==> words_of(s.push(c)) == words_of(
            s,
        ).push(seq![c]),
        !is_white(c) && s.len() > 0 && !is_white(s.last()) ==> words_of(s).len() > 0 && words_of(
            s.push(c),
        ) == words_of(s).drop_last().push(words_of(s).last().push(c)),
{
    let f = |c: char| is_white(c);
    let g = |p: Seq<char>| p.len() > 0;
    let p = pieces(s, f);
    pieces_not_empty(s, f);
    assert(s.push(c).drop_last() =~= s);
    let before = p.drop_last();
    assert(p =~= before.push(p.last()));
    before.lemma_filter_push(p.last(), g);
    if s.len() > 0 && f(s.last()) {
        assert(p.last() =~= Seq::<char>::empty());
    } else if s.len() > 0 {
        assert(p.last().len() > 0);
    }
    if is_white(c) {
        p.lemma_filter_push(Seq::<char>::empty(), g);
    } else {
        before.lemma_filter_push(p.last().push(c), g);
        if p.last().len() == 0 {
            assert(p.last().push(c) =~= seq![c]);
        } else {
            assert(p.filter(g) == before.filter(g).push(p.last()));
            assert(p.filter(g).drop_last() =~= before.filter(g));
        }
    }
}

/// A text that is cut at a separator is what comes before it, the separator, and
/// what follows; the separator does not stand in the first part. Only a text
/// without the separator is not cut.
pub proof fn cuts_are_at_the_first(s: Seq<char>, sep: char)
    ensures
        match cut_at(s, sep) {
            Some(p) => s == p.0 + seq![sep] + p.1 && !p.0.contains(sep),
            None => !s.contains(sep),
        },
{
    if s.contains(sep) {
        s.index_of_first_ensures(sep);
        let i = s.index_of_first(sep).unwrap();
        assert(s =~= s.take(i) + seq![sep] + s.skip(i + 1));
    }
}

/// What is behind a prefix, and what is before a suffix, make up the text again.
pub proof fn stripping_undoes_joining(s: Seq<char>, part: Seq<char>)
    ensures
        without_prefix(part + s, part) == Some(s),
        without_suffix(s + part, part) == Some(s),
        without_prefix(s, part) matches Some(rest) ==> s == part + rest,
        without_suffix(s, part) matches Some(rest) ==> s == rest + part,
{
    let a = part + s;
    assert(a.subrange(0, part.len() as int) =~= part);
    assert(a.skip(part.len() as int) =~= s);
    let b = s + part;
    assert(b.subrange(s.len() as int, s.len() + part.len() as int) =~= part);
    assert(b.take(s.len() as int) =~= s);
    if begins_with(s, part) {
        assert(s =~= part + s.skip(part.len() as int));
    }
    if finishes_with(s, part) {
        assert(s =~= s.take(s.len() - part.len()) + part);
    }
}

/// A padded text begins with the text and is as long as the width, or longer where
/// the text is; spaces fill it up.
pub proof fn padding_fills_up(s: Seq<char>, width: nat)
    ensures
        begins_with(padded(s, width), s),
        padded(s, width).len() == if s.len() >= width {
            s.len()
        } else {
            width
        },
        forall|i: int| s.len() <= i < padded(s, width).len() ==> (#[trigger] padded(s, width)[i]) == ' ',
{
    if s.len() < width {
        spaces_are_spaces((width - s.len()) as nat);
    }
    assert(padded(s, width).subrange(0, s.len() as int) =~= s);
}

proof fn spaces_are_spaces(n: nat)
    ensures
        repeated(" "@, n).len() == n,
        forall|i: int| 0 <= i < n ==> (#[trigger] repeated(" "@, n)[i]) == ' ',
    decreases n,
{
    reveal_strlit(" ");
    if n > 0 {
        spaces_are_spaces((n - 1) as nat);
    }
}

/// A text so many times is that many times as long.
pub proof fn repeating_adds_up(s: Seq<char>, n: nat)
    ensures
        repeated(s, n).len() == s.len() * n,
        repeated(s, 0) == Seq::<char>::empty(),
        repeated(s, n + 1) == repeated(s, n) + s,
    decreases n,
{
    if n > 0 {
        repeating_adds_up(s, (n - 1) as nat);
        assert(s.len() * n == s.len() * (n - 1) + s.len()) by (nonlinear_arith)
            requires
                n > 0,
        ;
    }
}

/// Different numbers are written differently.
pub proof fn numbers_keep_apart(a: nat, b: nat)
    requires
        decimal(a) == decimal(b),
    ensures
        a == b,
{
    numbers_read_back(a);
    numbers_read_back(b);
}

} // verus!
