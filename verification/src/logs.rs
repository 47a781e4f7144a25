//! Showing the end of a log, and what is added to it.
use crate::runtime_log;
use crate::runtime_log::LogEntry;
use crate::text;
use std::collections::VecDeque;
use vstd::prelude::*;

verus! {

/// How long to wait before looking at a followed log again, in milliseconds.
pub const FOLLOW_POLL_INTERVAL_MILLIS: u64 = 500;

/// The newest log of a directory; `entries` is what it holds, where it is there.
pub fn latest_log_path_in_dir(dir: &str, entries: Option<&Vec<LogEntry>>) -> (r: Result<
    String,
    String,
>)
    ensures
        match runtime_log::latest_path(dir@, entries) {
            Some(p) => r matches Ok(s) && s@ == p,
            None => r matches Err(m) && m@ == "No runtime logs found in "@ + dir@,
        },
{
    match runtime_log::latest_runtime_log_path_in_dir(dir, entries) {
        Some(p) => Ok(p),
        None => Err(text::cat2("No runtime logs found in ", dir)),
    }
}

// ---------------------------------------------------------------------------
// Lines with their ends
// ---------------------------------------------------------------------------

/// The lines of a text, each with the line feed that ends it.
pub open spec fn full_lines(s: Seq<char>) -> Seq<Seq<char>>
    decreases s.len(),
{
    if s.len() == 0 {
        Seq::empty()
    } else {
        let before = full_lines(s.drop_last());
        if before.len() > 0 && before.last().last() != '\n' {
            before.drop_last().push(before.last().push(s.last()))
        } else {
            before.push(seq![s.last()])
        }
    }
}

/// Texts one behind the other.
pub open spec fn together(lines: Seq<Seq<char>>) -> Seq<char>
    decreases lines.len(),
{
    if lines.len() == 0 {
        Seq::empty()
    } else {
        together(lines.drop_last()) + lines.last()
    }
}

/// The last lines of some.
pub open spec fn last_lines(lines: Seq<Seq<char>>, limit: int) -> Seq<Seq<char>> {
    if lines.len() <= limit {
        lines
    } else {
        lines.skip(lines.len() - limit)
    }
}

/// The end of a text, so many lines.
pub open spec fn tail_of(s: Seq<char>, limit: int) -> Seq<char> {
    together(last_lines(full_lines(s), limit))
}

/// All lines together are the text.
pub proof fn lines_make_the_text(s: Seq<char>)
    ensures
        together(full_lines(s)) == s,
        forall|i: int| 0 <= i < full_lines(s).len() ==> (#[trigger] full_lines(s)[i]).len() > 0,
    decreases s.len(),
{
    if s.len() > 0 {
        lines_make_the_text(s.drop_last());
        let before = full_lines(s.drop_last());
        let now = full_lines(s);
        if before.len() > 0 && before.last().last() != '\n' {
            assert(now.drop_last() =~= before.drop_last());
            assert(together(now) =~= together(before).push(s.last()));
        } else {
            assert(now.drop_last() =~= before);
            assert(together(now) =~= together(before).push(s.last()));
        }
        assert(together(now) =~= s);
    }
}

proof fn together_splits(lines: Seq<Seq<char>>, k: int)
    requires
        0 <= k <= lines.len(),
    ensures
        together(lines) == together(lines.take(k)) + together(lines.skip(k)),
    decreases lines.len(),
{
    if k == lines.len() {
        assert(lines.take(k) =~= lines);
        assert(lines.skip(k) =~= Seq::empty());
    } else {
        let front = lines.drop_last();
        together_splits(front, k);
        assert(front.take(k) =~= lines.take(k));
        assert(lines.skip(k).drop_last() =~= front.skip(k));
        assert(lines.skip(k).last() == lines.last());
        assert(together(lines) =~= together(lines.take(k)) + together(lines.skip(k)));
    }
}

/// What is shown of a text is its end, and all of it where it has no more lines
/// than were asked for.
pub proof fn the_tail_is_an_end(s: Seq<char>, limit: int)
    requires
        limit >= 0,
    ensures
        text::finishes_with(s, tail_of(s, limit)),
        full_lines(s).len() <= limit ==> tail_of(s, limit) == s,
{
    lines_make_the_text(s);
    let lines = full_lines(s);
    if lines.len() > limit {
        together_splits(lines, lines.len() - limit);
    }
    let t = tail_of(s, limit);
    assert(s.subrange(s.len() - t.len(), s.len() as int) =~= t);
}

// ---------------------------------------------------------------------------
// The last lines
// ---------------------------------------------------------------------------

/// Keeps the last lines of those that it is given.
pub struct TailRing {
    limit: usize,
    lines: VecDeque<String>,
}

impl View for TailRing {
    type V = Seq<Seq<char>>;

    closed spec fn view(&self) -> Seq<Seq<char>> {
        text::views(self.lines@)
    }
}

impl TailRing {
    pub closed spec fn limit(&self) -> int {
        self.limit as int
    }

    /// There is room for a line, and there are no more lines than there is room for.
    pub closed spec fn wf(&self) -> bool {
        0 < self.limit && self.lines@.len() <= self.limit
    }

    pub fn new(limit: usize) -> (r: TailRing)
        requires
            limit > 0,
        ensures
            r.wf(),
            r.limit() == limit,
            r@ == Seq::<Seq<char>>::empty(),
    {
        let r = TailRing { limit, lines: VecDeque::new() };
        assert(r@ =~= Seq::empty());
        r
    }

    pub fn push(&mut self, line: String)
        requires
            old(self).wf(),
        ensures
            final(self).wf(),
            final(self).limit() == old(self).limit(),
            final(self)@ == last_lines(old(self)@.push(line@), old(self).limit()),
    {
        let ghost before = self.lines@;
        if self.lines.len() == self.limit {
            let _ = self.lines.pop_front();
        }
        let ghost kept = self.lines@;
        let ghost shown = line@;
        self.lines.push_back(line);
        assert(self@ =~= text::views(kept).push(shown));
        assert(self@ =~= last_lines(text::views(before).push(shown), self.limit as int));
    }

    pub fn finish(&self) -> (r: String)
        ensures
            r@ == together(self@),
    {
        let mut r = String::new();
        let mut i: usize = 0;
        assert(self@.take(0) =~= Seq::empty());
        while i < self.lines.len()
            invariant
                i <= self.lines@.len(),
                r@ == together(self@.take(i as int)),
            decreases self.lines@.len() - i,
        {
            assert(self@.take(i as int + 1).drop_last() =~= self@.take(i as int));
            assert(self@.take(i as int + 1).last() == self.lines@[i as int]@);
            r.append(self.lines[i].as_str());
            i = i + 1;
        }
        assert(self@.take(i as int) =~= self@);
        r
    }
}

pub fn split_full_lines(content: &str) -> (r: Vec<String>)
    ensures
        text::views(r@) == full_lines(content@),
{
    let v = text::to_chars(content);
    let mut lines: Vec<String> = Vec::new();
    let mut open = String::new();
    let mut is_open: bool = false;
    let mut i: usize = 0;
    assert(v@.take(0) =~= Seq::empty());
    assert(text::views(lines@) =~= Seq::empty());
    while i < v.len()
        invariant
            i <= v@.len(),
            v@ == content@,
            full_lines(v@.take(i as int)) == if is_open {
                text::views(lines@).push(open@)
            } else {
                text::views(lines@)
            },
            is_open ==> open@.len() > 0 && open@.last() != '\n',
            !is_open ==> open@.len() == 0,
            !is_open && lines@.len() > 0 ==> lines@.last()@.last() == '\n',
        decreases v@.len() - i,
    {
        let ghost before = full_lines(v@.take(i as int));
        let ghost closed_lines = text::views(lines@);
        let ghost started = open@;
        assert(v@.take(i as int + 1).drop_last() =~= v@.take(i as int));
        proof {
            if is_open {
                assert(before.last() == started);
                assert(before.drop_last() =~= closed_lines);
            } else if lines@.len() > 0 {
                assert(before.last() == lines@.last()@);
            }
        }
        open.push(v[i]);
        assert(!is_open ==> open@ =~= seq![v@[i as int]]);
        assert(full_lines(v@.take(i as int + 1)) =~= closed_lines.push(open@));
        if v[i] == '\n' {
            let ghost shown = open@;
            lines.push(open);
            assert(text::views(lines@) =~= closed_lines.push(shown));
            open = String::new();
            is_open = false;
        } else {
            is_open = true;
        }
        i = i + 1;
    }
    assert(v@.take(i as int) =~= v@);
    if is_open {
        let ghost closed_lines = text::views(lines@);
        let ghost shown = open@;
        lines.push(open);
        assert(text::views(lines@) =~= closed_lines.push(shown));
    }
    lines
}

proof fn keeping_as_we_go(lines: Seq<Seq<char>>, line: Seq<char>, limit: int)
    requires
        limit > 0,
    ensures
        last_lines(last_lines(lines, limit).push(line), limit) == last_lines(
            lines.push(line),
            limit,
        ),
{
    assert(last_lines(last_lines(lines, limit).push(line), limit) =~= last_lines(
        lines.push(line),
        limit,
    ));
}

/// The end of what a log holds, so many lines.
pub fn tail_lines(content: &str, limit: usize) -> (r: String)
    ensures
        r@ == tail_of(content@, limit as int),
{
    let lines = split_full_lines(content);
    let ghost all = text::views(lines@);
    if limit == 0 {
        assert(last_lines(all, 0) =~= Seq::empty());
        return String::new();
    }
    let mut ring = TailRing::new(limit);
    assert(last_lines(all.take(0), limit as int) =~= Seq::empty());
    for line in it: lines
        invariant
            limit > 0,
            ring.wf(),
            ring.limit() == limit,
            all == text::views(it.seq()),
            ring@ == last_lines(all.take(it.index() as int), limit as int),
    {
        proof {
            let k = it.index() as int;
            assert(all.take(k + 1) =~= all.take(k).push(all[k]));
            keeping_as_we_go(all.take(k), all[k], limit as int);
        }
        ring.push(line);
    }
    assert(all.take(all.len() as int) =~= all);
    ring.finish()
}

// ---------------------------------------------------------------------------
// Following a log
// ---------------------------------------------------------------------------

/// What has to be done with a followed log.
#[derive(Debug, Clone, Copy, PartialEq, Eq, Structural)]
pub struct FollowStep {
    /// The file has been replaced by a shorter one and has to be opened again.
    pub reopen: bool,
    /// From where there is something new to read, if there is.
    pub read_from: Option<u64>,
}

/// What follows from the length of a log, of which `position` bytes were shown.
pub open spec fn follow(position: u64, length: u64) -> FollowStep {
    if length < position {
        FollowStep {
            reopen: true,
            read_from: if length > 0 {
                Some(0)
            } else {
                None
            },
        }
    } else if length > position {
        FollowStep { reopen: false, read_from: Some(position) }
    } else {
        FollowStep { reopen: false, read_from: None }
    }
}

/// Decides what to read, and starts over where the file got shorter.
pub fn follow_step(position: &mut u64, length: u64) -> (r: FollowStep)
    ensures
        r == follow(*old(position), length),
        *final(position) == if length < *old(position) {
            0u64
        } else {
            *old(position)
        },
{
    let mut reopen: bool = false;
    if length < *position {
        reopen = true;
        *position = 0;
    }
    if length <= *position {
        return FollowStep { reopen, read_from: None };
    }
    FollowStep { reopen, read_from: Some(*position) }
}

/// Nothing is shown twice, and nothing is left out: what is read starts where
/// what was shown of the file ends.
pub proof fn following_goes_on(position: u64, length: u64)
    ensures
        follow(position, length).read_from matches Some(from) ==> from < length && (follow(
            position,
            length,
        ).reopen ==> from == 0) && (!follow(position, length).reopen ==> from == position),
        follow(position, length).read_from is None ==> length == position || length == 0,
{
}

proof fn text_ends_with_its_last_line(s: Seq<char>)
    requires
        s.len() > 0,
    ensures
        full_lines(s).len() > 0,
        full_lines(s).last().len() > 0,
        full_lines(s).last().last() == s.last(),
    decreases s.len(),
{
    if s.len() > 1 {
        text_ends_with_its_last_line(s.drop_last());
    }
}

/// A line holds its line end only as its last character, and every line but the last
/// has one.
pub proof fn lines_end_with_line_ends(s: Seq<char>, i: int)
    requires
        0 <= i < full_lines(s).len(),
    ensures
        full_lines(s)[i].len() > 0,
        forall|k: int|
            0 <= k < full_lines(s)[i].len() - 1 ==> #[trigger] full_lines(s)[i][k] != '\n',
        i < full_lines(s).len() - 1 ==> full_lines(s)[i].last() == '\n',
    decreases s.len(),
{
    let before = full_lines(s.drop_last());
    let now = full_lines(s);
    if before.len() > 0 && before.last().last() != '\n' {
        if i < before.len() - 1 {
            lines_end_with_line_ends(s.drop_last(), i);
            assert(now[i] == before[i]);
        } else {
            lines_end_with_line_ends(s.drop_last(), before.len() - 1);
            assert(now[i] == before.last().push(s.last()));
        }
    } else {
        if i < before.len() {
            lines_end_with_line_ends(s.drop_last(), i);
            assert(now[i] == before[i]);
            if i == before.len() - 1 {
                assert(before[i] == before.last());
            }
        }
    }
}

proof fn lines_of_joined(a: Seq<char>, b: Seq<char>)
    requires
        a.len() == 0 || a.last() == '\n',
    ensures
        full_lines(a + b) == full_lines(a) + full_lines(b),
    decreases b.len(),
{
    let s = a + b;
    if b.len() == 0 {
        assert(s =~= a);
        assert(full_lines(a) + full_lines(b) =~= full_lines(a));
    } else {
        let t = b.drop_last();
        lines_of_joined(a, t);
        assert(s.drop_last() =~= a + t);
        assert(s.last() == b.last());
        let before = full_lines(a + t);
        if a.len() > 0 {
            text_ends_with_its_last_line(a);
        }
        if t.len() == 0 {
            assert(before =~= full_lines(a));
            assert(full_lines(b) =~= seq![seq![b.last()]]);
            assert(full_lines(s) =~= full_lines(a) + full_lines(b));
        } else {
            text_ends_with_its_last_line(t);
            assert(before.last() == full_lines(t).last());
            assert(full_lines(s) =~= full_lines(a) + full_lines(b));
        }
    }
}

proof fn a_line_is_one_line(l: Seq<char>)
    requires
        l.len() > 0,
        forall|k: int| 0 <= k < l.len() - 1 ==> #[trigger] l[k] != '\n',
    ensures
        full_lines(l) == seq![l],
    decreases l.len(),
{
    if l.len() == 1 {
        assert(full_lines(l.drop_last()) =~= Seq::<Seq<char>>::empty());
        assert(l =~= seq![l.last()]);
        assert(full_lines(l) =~= seq![l]);
    } else {
        let t = l.drop_last();
        a_line_is_one_line(t);
        assert(t.last() == l[l.len() - 2]);
        assert(full_lines(t).last() == t);
        assert(t.push(l.last()) =~= l);
        assert(full_lines(l) =~= seq![l]);
    }
}

proof fn first_lines_are_lines(s: Seq<char>, k: int)
    requires
        0 <= k <= full_lines(s).len(),
    ensures
        full_lines(together(full_lines(s).take(k))) == full_lines(s).take(k),
        0 < k < full_lines(s).len() ==> together(full_lines(s).take(k)).len() > 0 && together(
            full_lines(s).take(k),
        ).last() == '\n',
    decreases k,
{
    let lines = full_lines(s);
    let now = lines.take(k);
    if k == 0 {
        assert(together(now) =~= Seq::<char>::empty());
        assert(now =~= Seq::<Seq<char>>::empty());
    } else {
        first_lines_are_lines(s, k - 1);
        lines_end_with_line_ends(s, k - 1);
        let line = lines[k - 1];
        assert(now.drop_last() =~= lines.take(k - 1));
        assert(now.last() == line);
        let before = together(lines.take(k - 1));
        if k == 1 {
            assert(lines.take(0) =~= Seq::<Seq<char>>::empty());
            assert(before.len() == 0);
        }
        assert(together(now) == before + line);
        lines_of_joined(before, line);
        a_line_is_one_line(line);
        assert(now =~= lines.take(k - 1) + seq![line]);
        assert((before + line).last() == line.last());
    }
}

/// The lines of the tail are the last lines of the text, as many as were asked for.
pub proof fn the_tail_has_the_last_lines(s: Seq<char>, limit: int)
    requires
        limit >= 0,
    ensures
        full_lines(s).len() >= limit ==> full_lines(tail_of(s, limit)).len() == limit,
        full_lines(s).len() <= limit ==> tail_of(s, limit) == s,
{
    lines_make_the_text(s);
    let lines = full_lines(s);
    if lines.len() > limit {
        let k = lines.len() - limit;
        together_splits(lines, k);
        first_lines_are_lines(s, k);
        let head = together(lines.take(k));
        let t = together(lines.skip(k));
        assert(head + t =~= s);
        if limit == 0 {
            assert(lines.skip(k) =~= Seq::<Seq<char>>::empty());
            assert(t =~= Seq::<char>::empty());
        } else {
            lines_of_joined(head, t);
            assert(full_lines(s).len() == k + full_lines(t).len());
        }
    }
}

/// A file that has become shorter is read again from its beginning, one that has grown
/// is read on, and what is read next begins where reading stopped.
pub proof fn shorter_files_are_read_again(position: u64, length: u64)
    ensures
        length < position ==> follow(position, length).reopen && (length > 0 ==> follow(
            position,
            length,
        ).read_from == Some(0u64)),
        length > position ==> !follow(position, length).reopen && follow(position, length).read_from
            == Some(position),
        length == position ==> follow(position, length) == (FollowStep {
            reopen: false,
            read_from: None,
        }),
{
}

/// Where there is no log it is told where one was looked for.
pub proof fn missing_logs_are_told(
    dir: &str,
    entries: Option<&Vec<LogEntry>>,
    r: Result<String, String>,
)
    requires
        call_ensures(latest_log_path_in_dir, (dir, entries), r),
    ensures
        r is Ok <==> runtime_log::latest_path(dir@, entries) is Some,
        r is Ok ==> runtime_log::latest_path(dir@, entries) == Some(r->Ok_0@),
        entries is None ==> r is Err,
        r is Err ==> text::finishes_with(r->Err_0@, dir@),
{
    if r is Err {
        let m = r->Err_0@;
        assert(m.subrange(m.len() - dir@.len(), m.len() as int) =~= dir@);
    }
}

} // verus!
