//! Searching sequences by a predicate.
use vstd::prelude::*;

verus! {

/// The position of the first element of `s` that satisfies `p`.
pub open spec fn first_index<A>(s: Seq<A>, p: spec_fn(A) -> bool) -> Option<int>
    decreases s.len(),
{
    if s.len() == 0 {
        None
    } else {
        match first_index(s.drop_last(), p) {
            Some(i) => Some(i),
            None => if p(s.last()) {
                Some(s.len() - 1)
            } else {
                None
            },
        }
    }
}

/// The first element of `s` that satisfies `p`.
pub open spec fn first_of<A>(s: Seq<A>, p: spec_fn(A) -> bool) -> Option<A> {
    match first_index(s, p) {
        Some(i) => Some(s[i]),
        None => None,
    }
}

/// What `first_index` finds is the one position that satisfies `p` with none
/// before it, and it finds nothing only where nothing satisfies `p`.
pub proof fn first_index_is_first<A>(s: Seq<A>, p: spec_fn(A) -> bool)
    ensures
        match first_index(s, p) {
            Some(i) => {
                &&& 0 <= i < s.len()
                &&& p(s[i])
                &&& forall|j: int| 0 <= j < i ==> !p(#[trigger] s[j])
            },
            None => forall|j: int| 0 <= j < s.len() ==> !p(#[trigger] s[j]),
        },
    decreases s.len(),
{
    if s.len() > 0 {
        let t = s.drop_last();
        first_index_is_first(t, p);
        assert(forall|j: int| 0 <= j < t.len() ==> t[j] == s[j]);
        if first_index(t, p) is None {
            assert forall|j: int| 0 <= j < s.len() && j != s.len() - 1 implies !p(#[trigger] s[j]) by {
                assert(!p(t[j]));
            }
        } else {
            let i = first_index(t, p).unwrap();
            assert forall|j: int| 0 <= j < i implies !p(#[trigger] s[j]) by {
                assert(!p(t[j]));
            }
        }
    }
}

/// A position that satisfies `p` with none before it is the first.
pub proof fn first_index_unique<A>(s: Seq<A>, p: spec_fn(A) -> bool, i: int)
    requires
        0 <= i < s.len(),
        p(s[i]),
        forall|j: int| 0 <= j < i ==> !p(#[trigger] s[j]),
    ensures
        first_index(s, p) == Some(i),
{
    first_index_is_first(s, p);
    let found = first_index(s, p);
    if found is None {
        assert(!p(s[i]));
    } else if found.unwrap() < i {
        assert(!p(s[found.unwrap()]));
    } else if found.unwrap() > i {
        assert(!p(s[i]));
    }
}

/// Where no element satisfies `p` there is no first.
pub proof fn first_index_absent<A>(s: Seq<A>, p: spec_fn(A) -> bool)
    requires
        forall|j: int| 0 <= j < s.len() ==> !p(#[trigger] s[j]),
    ensures
        first_index(s, p) is None,
{
    first_index_is_first(s, p);
    if first_index(s, p) is Some {
        assert(!p(s[first_index(s, p).unwrap()]));
    }
}

/// The first result that `f` gives.
pub open spec fn find_map<A, B>(s: Seq<A>, f: spec_fn(A) -> Option<B>) -> Option<B>
    decreases s.len(),
{
    if s.len() == 0 {
        None
    } else {
        match f(s[0]) {
            Some(b) => Some(b),
            None => find_map(s.drop_first(), f),
        }
    }
}

pub proof fn find_map_at<A, B>(s: Seq<A>, f: spec_fn(A) -> Option<B>, i: int)
    requires
        0 <= i < s.len(),
        f(s[i]) is Some,
        forall|k: int| 0 <= k < i ==> f(#[trigger] s[k]) is None,
    ensures
        find_map(s, f) == f(s[i]),
    decreases s.len(),
{
    if i > 0 {
        assert(f(s[0]) is None);
        let rest = s.drop_first();
        assert forall|k: int| 0 <= k < i - 1 implies f(#[trigger] rest[k]) is None by {
            assert(rest[k] == s[k + 1]);
        }
        find_map_at(rest, f, i - 1);
    }
}

pub proof fn find_map_absent<A, B>(s: Seq<A>, f: spec_fn(A) -> Option<B>)
    requires
        forall|k: int| 0 <= k < s.len() ==> f(#[trigger] s[k]) is None,
    ensures
        find_map(s, f) is None,
    decreases s.len(),
{
    if s.len() > 0 {
        assert(f(s[0]) is None);
        let rest = s.drop_first();
        assert forall|k: int| 0 <= k < rest.len() implies f(#[trigger] rest[k]) is None by {
            assert(rest[k] == s[k + 1]);
        }
        find_map_absent(rest, f);
    }
}

} // verus!
