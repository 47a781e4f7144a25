//! Ranks: integer sequences in lexicographic order, and the choice of the least.
use vstd::prelude::*;

verus! {

/// `a` comes before `b`: at the first difference it has the smaller entry, or
/// it is a proper prefix of `b`.
pub open spec fn precedes(a: Seq<int>, b: Seq<int>) -> bool
    decreases a.len(),
{
    if b.len() == 0 {
        false
    } else if a.len() == 0 {
        true
    } else if a[0] != b[0] {
        a[0] < b[0]
    } else {
        precedes(a.drop_first(), b.drop_first())
    }
}

/// A rank never precedes itself.
pub proof fn precedes_is_irreflexive(a: Seq<int>)
    ensures
        !precedes(a, a),
    decreases a.len(),
{
    if a.len() > 0 {
        precedes_is_irreflexive(a.drop_first());
    }
}

/// The order chains.
pub proof fn precedes_is_transitive(a: Seq<int>, b: Seq<int>, c: Seq<int>)
    requires
        precedes(a, b),
        precedes(b, c),
    ensures
        precedes(a, c),
    decreases a.len(),
{
    if a.len() > 0 && b.len() > 0 && c.len() > 0 && a[0] == b[0] && b[0] == c[0] {
        precedes_is_transitive(a.drop_first(), b.drop_first(), c.drop_first());
    }
}

/// Of two different ranks one precedes the other.
pub proof fn precedes_is_total(a: Seq<int>, b: Seq<int>)
    ensures
        a == b || precedes(a, b) || precedes(b, a),
    decreases a.len(),
{
    if a.len() == 0 {
        if b.len() == 0 {
            assert(a =~= b);
        }
    } else if b.len() > 0 && a[0] == b[0] {
        precedes_is_total(a.drop_first(), b.drop_first());
        if a.drop_first() == b.drop_first() {
            assert(a =~= seq![a[0]] + a.drop_first());
            assert(b =~= seq![b[0]] + b.drop_first());
        }
    }
}

/// The integers of a vector.
pub open spec fn ints(v: Seq<i128>) -> Seq<int> {
    v.map_values(|x: i128| x as int)
}

pub fn comes_before(a: &Vec<i128>, b: &Vec<i128>) -> (r: bool)
    ensures
        r == precedes(ints(a@), ints(b@)),
{
    let ghost x = ints(a@);
    let ghost y = ints(b@);
    let mut i: usize = 0;
    assert(x.skip(0) =~= x);
    assert(y.skip(0) =~= y);
    while i < a.len() && i < b.len()
        invariant
            i <= a@.len(),
            i <= b@.len(),
            x == ints(a@),
            y == ints(b@),
            precedes(x, y) == precedes(x.skip(i as int), y.skip(i as int)),
        decreases a@.len() - i,
    {
        assert(x.skip(i as int)[0] == a@[i as int] as int);
        assert(y.skip(i as int)[0] == b@[i as int] as int);
        if a[i] != b[i] {
            return a[i] < b[i];
        }
        assert(x.skip(i as int).drop_first() =~= x.skip(i as int + 1));
        assert(y.skip(i as int).drop_first() =~= y.skip(i as int + 1));
        i = i + 1;
    }
    i < b.len()
}

/// Position `i` holds the least rank, and the first of equal ones.
pub open spec fn is_first_least(ranks: Seq<Seq<int>>, i: int) -> bool {
    &&& 0 <= i < ranks.len()
    &&& forall|j: int| 0 <= j < i ==> precedes(ranks[i], #[trigger] ranks[j])
    &&& forall|j: int| i < j < ranks.len() ==> !precedes(#[trigger] ranks[j], ranks[i])
}

/// At most one position holds the first least rank.
pub proof fn first_least_is_unique(ranks: Seq<Seq<int>>, i: int, j: int)
    requires
        is_first_least(ranks, i),
        is_first_least(ranks, j),
    ensures
        i == j,
{
    if i < j {
        assert(precedes(ranks[j], ranks[i]));
        assert(!precedes(ranks[j], ranks[i]));
    } else if j < i {
        assert(precedes(ranks[i], ranks[j]));
        assert(!precedes(ranks[i], ranks[j]));
    }
}

pub open spec fn all_ints(ranks: Seq<Vec<i128>>) -> Seq<Seq<int>> {
    ranks.map_values(|v: Vec<i128>| ints(v@))
}

pub fn first_least(ranks: &Vec<Vec<i128>>) -> (r: Option<usize>)
    ensures
        match r {
            Some(i) => is_first_least(all_ints(ranks@), i as int),
            None => ranks@.len() == 0,
        },
{
    if ranks.len() == 0 {
        return None;
    }
    let ghost all = all_ints(ranks@);
    let mut best: usize = 0;
    let mut i: usize = 1;
    while i < ranks.len()
        invariant
            best < i <= ranks@.len(),
            all == all_ints(ranks@),
            forall|j: int| 0 <= j < best ==> precedes(all[best as int], #[trigger] all[j]),
            forall|j: int| best < j < i ==> !precedes(#[trigger] all[j], all[best as int]),
        decreases ranks@.len() - i,
    {
        assert(all[i as int] == ints(ranks@[i as int]@));
        assert(all[best as int] == ints(ranks@[best as int]@));
        if comes_before(&ranks[i], &ranks[best]) {
            proof {
                assert forall|j: int| 0 <= j < i implies precedes(
                    all[i as int],
                    #[trigger] all[j],
                ) by {
                    if j < best {
                        precedes_is_transitive(all[i as int], all[best as int], all[j]);
                    } else if j > best {
                        precedes_is_total(all[best as int], all[j]);
                        if all[best as int] != all[j] {
                            precedes_is_transitive(all[i as int], all[best as int], all[j]);
                        }
                    }
                }
            }
            best = i;
        }
        i = i + 1;
    }
    Some(best)
}

/// The first place at which two ranks differ decides between them.
pub proof fn the_first_difference_decides(a: Seq<int>, b: Seq<int>, k: int)
    requires
        0 <= k < a.len(),
        k < b.len(),
        forall|t: int| 0 <= t < k ==> a[t] == b[t],
        a[k] != b[k],
    ensures
        precedes(a, b) <==> a[k] < b[k],
    decreases k,
{
    if k > 0 {
        assert(a[0] == b[0]);
        let x = a.drop_first();
        let y = b.drop_first();
        assert forall|t: int| 0 <= t < k - 1 implies x[t] == y[t] by {
            assert(a[t + 1] == b[t + 1]);
        }
        the_first_difference_decides(x, y, k - 1);
    }
}

/// No rank comes before the one that is chosen.
pub proof fn nothing_precedes_the_least(ranks: Seq<Seq<int>>, i: int, j: int)
    requires
        is_first_least(ranks, i),
        0 <= j < ranks.len(),
    ensures
        !precedes(ranks[j], ranks[i]),
{
    if precedes(ranks[j], ranks[i]) {
        if j < i {
            precedes_is_transitive(ranks[i], ranks[j], ranks[i]);
        }
        precedes_is_irreflexive(ranks[i]);
    }
}

/// The first of the least is a position, of which every one before it is behind it.
pub proof fn the_least_comes_first(ranks: Seq<Seq<int>>, i: int)
    ensures
        is_first_least(ranks, i) ==> 0 <= i < ranks.len(),
        ranks.len() == 1 ==> is_first_least(ranks, 0),
        ranks.len() == 2 && !precedes(ranks[1], ranks[0]) ==> is_first_least(ranks, 0),
        ranks.len() == 2 && precedes(ranks[1], ranks[0]) ==> is_first_least(ranks, 1),
{
}

} // verus!
