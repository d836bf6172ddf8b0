//! Reading tables: the first row that matches, the rows that match, and rows put in order.

use vstd::prelude::*;

verus! {

/// `i` is the first place in `s` that `p` holds of.
pub open spec fn is_first<T>(s: Seq<T>, p: spec_fn(T) -> bool, i: int) -> bool {
    &&& 0 <= i < s.len()
    &&& p(s[i])
    &&& forall|j: int| 0 <= j < i ==> !p(#[trigger] s[j])
}

/// The first place in `s` that `p` holds of, if there is one.
pub open spec fn first_at<T>(s: Seq<T>, p: spec_fn(T) -> bool) -> Option<int> {
    if exists|i: int| is_first(s, p, i) {
        Some(choose|i: int| is_first(s, p, i))
    } else {
        None
    }
}

/// Whether `p` holds of any of `s`.
pub open spec fn any<T>(s: Seq<T>, p: spec_fn(T) -> bool) -> bool {
    exists|i: int| 0 <= i < s.len() && p(#[trigger] s[i])
}

/// The first match is the one found.
pub proof fn found_first<T>(s: Seq<T>, p: spec_fn(T) -> bool, i: int)
    requires
        is_first(s, p, i),
    ensures
        first_at(s, p) == Some(i),
        any(s, p),
{
    let c = choose|c: int| is_first(s, p, c);
    assert(is_first(s, p, c));
    if c < i {
        assert(!p(s[c]));
    } else if i < c {
        assert(!p(s[i]));
    }
}

/// Where nothing matches, nothing is found.
pub proof fn found_none<T>(s: Seq<T>, p: spec_fn(T) -> bool)
    requires
        forall|i: int| 0 <= i < s.len() ==> !p(#[trigger] s[i]),
    ensures
        first_at(s, p) is None,
        !any(s, p),
{
}

/// What is found matches, and something is found wherever something matches.
pub proof fn first_at_matches<T>(s: Seq<T>, p: spec_fn(T) -> bool)
    ensures
        match first_at(s, p) {
            Some(i) => is_first(s, p, i),
            None => forall|i: int| 0 <= i < s.len() ==> !p(#[trigger] s[i]),
        },
        first_at(s, p) is Some <==> any(s, p),
    decreases s.len(),
{
    if s.len() > 0 {
        let t = s.drop_last();
        first_at_matches(t, p);
        match first_at(t, p) {
            Some(i) => {
                assert(t[i] == s[i]);
                assert forall|j: int| 0 <= j < i implies !p(#[trigger] s[j]) by {
                    assert(!p(t[j]));
                }
                found_first(s, p, i);
            },
            None => {
                assert forall|j: int| 0 <= j < t.len() implies !p(#[trigger] s[j]) by {
                    assert(!p(t[j]));
                }
                if p(s.last()) {
                    found_first(s, p, s.len() - 1);
                } else {
                    found_none(s, p);
                }
            },
        }
    }
}

/// A row added at the end is found only where nothing before it matches.
pub proof fn first_at_push<T>(s: Seq<T>, x: T, p: spec_fn(T) -> bool)
    ensures
        first_at(s.push(x), p) == match first_at(s, p) {
            Some(i) => Some(i),
            None => if p(x) {
                Some(s.len() as int)
            } else {
                None
            },
        },
{
    let t = s.push(x);
    first_at_matches(s, p);
    match first_at(s, p) {
        Some(i) => {
            assert(t[i] == s[i]);
            assert forall|j: int| 0 <= j < i implies !p(#[trigger] t[j]) by {
                assert(!p(s[j]));
            }
            found_first(t, p, i);
        },
        None => {
            assert forall|j: int| 0 <= j < s.len() implies !p(#[trigger] t[j]) by {
                assert(!p(s[j]));
            }
            if p(x) {
                found_first(t, p, s.len() as int);
            } else {
                found_none(t, p);
            }
        },
    }
}

/// Replacing a row by one that is looked up alike leaves every row to be found where it was.
pub proof fn an_update_is_found_where_it_was<T>(s: Seq<T>, at: int, row: T, p: spec_fn(T) -> bool)
    requires
        0 <= at < s.len(),
        p(row) == p(s[at]),
    ensures
        first_at(s.update(at, row), p) == first_at(s, p),
{
    let t = s.update(at, row);
    first_at_matches(s, p);
    first_at_matches(t, p);
    match first_at(s, p) {
        Some(i) => {
            assert forall|j: int| 0 <= j < i implies !p(#[trigger] t[j]) by {
                assert(!p(s[j]));
            }
            assert(p(t[i]));
            found_first(t, p, i);
        },
        None => {
            assert forall|j: int| 0 <= j < t.len() implies !p(#[trigger] t[j]) by {
                assert(!p(s[j]));
            }
        },
    }
}

/// The places in the first `n` rows of `s` that `p` holds of, in order.
pub open spec fn places<T>(s: Seq<T>, p: spec_fn(T) -> bool, n: int) -> Seq<int>
    decreases n,
{
    if n <= 0 {
        Seq::empty()
    } else if p(s[n - 1]) {
        places(s, p, n - 1).push(n - 1)
    } else {
        places(s, p, n - 1)
    }
}

/// Every place listed is a matching one, in increasing order, and every matching one is listed.
pub proof fn places_are_the_matches<T>(s: Seq<T>, p: spec_fn(T) -> bool, n: int)
    requires
        0 <= n <= s.len(),
    ensures
        forall|k: int|
            0 <= k < places(s, p, n).len() ==> 0 <= #[trigger] places(s, p, n)[k] < n && p(
                s[places(s, p, n)[k]],
            ),
        forall|k: int, l: int|
            0 <= k < l < places(s, p, n).len() ==> #[trigger] places(s, p, n)[k]
                < #[trigger] places(s, p, n)[l],
        forall|i: int| 0 <= i < n && p(#[trigger] s[i]) ==> places(s, p, n).contains(i),
    decreases n,
{
    if n > 0 {
        places_are_the_matches(s, p, n - 1);
        let before = places(s, p, n - 1);
        let after = places(s, p, n);
        assert forall|i: int| 0 <= i < n && p(#[trigger] s[i]) implies after.contains(i) by {
            if i < n - 1 {
                let k = choose|k: int| 0 <= k < before.len() && before[k] == i;
                assert(after[k] == i);
            } else {
                assert(after[after.len() - 1] == i);
            }
        }
    }
}

/// The rows of `s` that `p` does not hold of, in order.
pub open spec fn without<T>(s: Seq<T>, p: spec_fn(T) -> bool) -> Seq<T>
    decreases s.len(),
{
    if s.len() == 0 {
        Seq::empty()
    } else if p(s.last()) {
        without(s.drop_last(), p)
    } else {
        without(s.drop_last(), p).push(s.last())
    }
}

/// What is left are rows that were there and that `p` does not hold of, and every such row is
/// left.
pub proof fn without_keeps_the_rest<T>(s: Seq<T>, p: spec_fn(T) -> bool)
    ensures
        without(s, p).len() <= s.len(),
        forall|i: int|
            0 <= i < without(s, p).len() ==> !p(#[trigger] without(s, p)[i]) && s.contains(
                without(s, p)[i],
            ),
        forall|i: int| 0 <= i < s.len() && !p(#[trigger] s[i]) ==> without(s, p).contains(s[i]),
    decreases s.len(),
{
    if s.len() > 0 {
        let t = s.drop_last();
        without_keeps_the_rest(t, p);
        let out = without(s, p);
        assert forall|i: int| 0 <= i < out.len() implies !p(#[trigger] out[i]) && s.contains(
            out[i],
        ) by {
            if i < without(t, p).len() {
                let w = without(t, p)[i];
                assert(t.contains(w));
                let k = choose|k: int| 0 <= k < t.len() && t[k] == w;
                assert(s[k] == w);
            } else {
                assert(s[s.len() - 1] == out[i]);
            }
        }
        assert forall|i: int| 0 <= i < s.len() && !p(#[trigger] s[i]) implies out.contains(
            s[i],
        ) by {
            if i < t.len() {
                assert(t[i] == s[i]);
                let k = choose|k: int| 0 <= k < without(t, p).len() && without(t, p)[k] == t[i];
                assert(out[k] == s[i]);
            } else {
                assert(out[out.len() - 1] == s[i]);
            }
        }
    }
}

/// Rows that were pairwise unlike stay pairwise unlike when some are left out.
pub proof fn without_keeps_pairs_apart<T>(
    s: Seq<T>,
    p: spec_fn(T) -> bool,
    apart: spec_fn(T, T) -> bool,
)
    requires
        forall|i: int, j: int| 0 <= i < j < s.len() ==> apart(#[trigger] s[i], #[trigger] s[j]),
    ensures
        forall|i: int, j: int|
            0 <= i < j < without(s, p).len() ==> apart(
                #[trigger] without(s, p)[i],
                #[trigger] without(s, p)[j],
            ),
    decreases s.len(),
{
    if s.len() > 0 {
        let t = s.drop_last();
        without_keeps_pairs_apart(t, p, apart);
        without_keeps_the_rest(t, p);
        let out = without(s, p);
        assert forall|i: int, j: int| 0 <= i < j < out.len() implies apart(
            #[trigger] out[i],
            #[trigger] out[j],
        ) by {
            if j == without(t, p).len() {
                assert(t.contains(without(t, p)[i]));
                let k = choose|k: int| 0 <= k < t.len() && t[k] == without(t, p)[i];
                assert(apart(s[k], s[s.len() - 1]));
            } else {
                assert(apart(without(t, p)[i], without(t, p)[j]));
            }
        }
    }
}

/// The rows of `s` that `p` holds of, in order.
pub open spec fn keeping<T>(s: Seq<T>, p: spec_fn(T) -> bool) -> Seq<T>
    decreases s.len(),
{
    if s.len() == 0 {
        Seq::empty()
    } else if p(s.last()) {
        keeping(s.drop_last(), p).push(s.last())
    } else {
        keeping(s.drop_last(), p)
    }
}

/// What is kept are rows that were there and that `p` holds of, and every such row is kept.
pub proof fn keeping_keeps_the_matches<T>(s: Seq<T>, p: spec_fn(T) -> bool)
    ensures
        forall|i: int|
            0 <= i < keeping(s, p).len() ==> p(#[trigger] keeping(s, p)[i]) && s.contains(
                keeping(s, p)[i],
            ),
        forall|i: int| 0 <= i < s.len() && p(#[trigger] s[i]) ==> keeping(s, p).contains(s[i]),
    decreases s.len(),
{
    if s.len() > 0 {
        let t = s.drop_last();
        keeping_keeps_the_matches(t, p);
        let out = keeping(s, p);
        assert forall|i: int| 0 <= i < out.len() implies p(#[trigger] out[i]) && s.contains(
            out[i],
        ) by {
            if i < keeping(t, p).len() {
                let w = keeping(t, p)[i];
                assert(t.contains(w));
                let k = choose|k: int| 0 <= k < t.len() && t[k] == w;
                assert(s[k] == w);
            } else {
                assert(s[s.len() - 1] == out[i]);
            }
        }
        assert forall|i: int| 0 <= i < s.len() && p(#[trigger] s[i]) implies out.contains(
            s[i],
        ) by {
            if i < t.len() {
                assert(t[i] == s[i]);
                let k = choose|k: int| 0 <= k < keeping(t, p).len() && keeping(t, p)[k] == t[i];
                assert(out[k] == s[i]);
            } else {
                assert(out[out.len() - 1] == s[i]);
            }
        }
    }
}

/// A row's place in a sorted list: three keys, the smaller first, and the row itself, so that no
/// two rows are ever level.
#[derive(Debug, Clone, Copy, PartialEq, Eq, Structural)]
pub struct Rank {
    pub first: i128,
    pub second: i128,
    pub third: i128,
    pub row: usize,
}

impl Rank {
    /// Whether `self` comes before `other`.
    pub open spec fn before(self, other: Rank) -> bool {
        if self.first != other.first {
            self.first < other.first
        } else if self.second != other.second {
            self.second < other.second
        } else if self.third != other.third {
            self.third < other.third
        } else {
            self.row < other.row
        }
    }

    fn is_before(self, other: Rank) -> (r: bool)
        ensures
            r == self.before(other),
    {
        if self.first != other.first {
            self.first < other.first
        } else if self.second != other.second {
            self.second < other.second
        } else if self.third != other.third {
            self.third < other.third
        } else {
            self.row < other.row
        }
    }
}

/// How many of `sorted` come before `x` counting from the front, stopping at the first that does
/// not.
pub open spec fn slot_for(sorted: Seq<Rank>, x: Rank) -> int
    decreases sorted.len(),
{
    if sorted.len() == 0 {
        0
    } else if x.before(sorted.last()) {
        slot_for(sorted.drop_last(), x)
    } else {
        sorted.len() as int
    }
}

/// `s` in order.
pub open spec fn in_order(s: Seq<Rank>) -> Seq<Rank>
    decreases s.len(),
{
    if s.len() == 0 {
        Seq::empty()
    } else {
        let sorted = in_order(s.drop_last());
        sorted.insert(slot_for(sorted, s.last()), s.last())
    }
}

/// Where a row goes is a place in the list.
proof fn slot_is_a_place(sorted: Seq<Rank>, x: Rank)
    ensures
        0 <= slot_for(sorted, x) <= sorted.len(),
        forall|i: int| slot_for(sorted, x) <= i < sorted.len() ==> x.before(#[trigger] sorted[i]),
        slot_for(sorted, x) > 0 ==> !x.before(sorted[slot_for(sorted, x) - 1]),
    decreases sorted.len(),
{
    if sorted.len() > 0 && x.before(sorted.last()) {
        let t = sorted.drop_last();
        slot_is_a_place(t, x);
        assert forall|i: int| slot_for(sorted, x) <= i < sorted.len() implies x.before(
            #[trigger] sorted[i],
        ) by {
            if i < t.len() {
                assert(x.before(t[i]));
            }
        }
    }
}

/// Putting rows in order loses none, adds none, and leaves no row before one that should come
/// first.
pub proof fn in_order_is_sorted(s: Seq<Rank>)
    ensures
        in_order(s).len() == s.len(),
        in_order(s).to_multiset() == s.to_multiset(),
        forall|i: int, j: int|
            0 <= i < j < in_order(s).len() ==> !(#[trigger] in_order(s)[j]).before(
                #[trigger] in_order(s)[i],
            ),
    decreases s.len(),
{
    broadcast use vstd::seq_lib::group_to_multiset_ensures;

    if s.len() > 0 {
        let t = s.drop_last();
        let x = s.last();
        in_order_is_sorted(t);
        let sorted = in_order(t);
        slot_is_a_place(sorted, x);
        let k = slot_for(sorted, x);
        let out = sorted.insert(k, x);
        assert forall|i: int, j: int| 0 <= i < j < out.len() implies !(#[trigger] out[j]).before(
            #[trigger] out[i],
        ) by {
            if i == k {
                assert(out[j] == sorted[j - 1]);
                assert(x.before(sorted[j - 1]));
            } else if j == k {
                assert(out[i] == sorted[i]);
                if i < k - 1 {
                    assert(!sorted[k - 1].before(sorted[i]));
                }
            } else {
                let a = if i < k {
                    i
                } else {
                    i - 1
                };
                let b = if j < k {
                    j
                } else {
                    j - 1
                };
                assert(out[i] == sorted[a] && out[j] == sorted[b]);
                assert(!sorted[b].before(sorted[a]));
            }
        }
        assert(s =~= t.push(x));
        assert(out.to_multiset() =~= sorted.to_multiset().insert(x));
    } else {
        assert(in_order(s) =~= s);
    }
}

/// `rows` in order.
pub fn put_in_order(rows: &Vec<Rank>) -> (out: Vec<Rank>)
    ensures
        out@ == in_order(rows@),
{
    let mut out: Vec<Rank> = Vec::new();
    let mut i: usize = 0;
    while i < rows.len()
        invariant
            i <= rows.len(),
            out@ == in_order(rows@.take(i as int)),
        decreases rows.len() - i,
    {
        let x = rows[i];
        let ghost sorted = out@;
        let mut k: usize = out.len();
        proof {
            assert(sorted.take(k as int) =~= sorted);
        }
        while k > 0 && x.is_before(out[k - 1])
            invariant
                k <= out.len(),
                out@ == sorted,
                slot_for(sorted, x) == slot_for(sorted.take(k as int), x),
            decreases k,
        {
            assert(sorted.take(k as int).drop_last() =~= sorted.take(k - 1));
            k = k - 1;
        }
        assert(slot_for(sorted.take(k as int), x) == k) by {
            if k > 0 {
                assert(sorted.take(k as int).last() == sorted[k - 1]);
            }
        }
        out.insert(k, x);
        assert(rows@.take(i + 1).drop_last() =~= rows@.take(i as int));
        i = i + 1;
    }
    assert(rows@.take(i as int) =~= rows@);
    out
}

proof fn a_slot_is_in_bounds(sorted: Seq<Rank>, x: Rank)
    ensures
        0 <= slot_for(sorted, x) <= sorted.len(),
    decreases sorted.len(),
{
    if sorted.len() > 0 {
        a_slot_is_in_bounds(sorted.drop_last(), x);
    }
}

/// Putting ranks in order keeps every one of them and adds none; ranks of different rows stay so.
pub proof fn in_order_holds_the_same(s: Seq<Rank>)
    ensures
        in_order(s).len() == s.len(),
        forall|x: Rank| #[trigger] in_order(s).contains(x) <==> s.contains(x),
        (forall|i: int, j: int|
            0 <= i < j < s.len() ==> (#[trigger] s[i]).row != (#[trigger] s[j]).row) ==> (forall|
            i: int,
            j: int,
        |
            0 <= i < j < in_order(s).len() ==> (#[trigger] in_order(s)[i]).row != (
            #[trigger] in_order(s)[j]).row),
    decreases s.len(),
{
    if s.len() > 0 {
        let less = s.drop_last();
        let x = s.last();
        in_order_holds_the_same(less);
        let sorted = in_order(less);
        let at = slot_for(sorted, x);
        a_slot_is_in_bounds(sorted, x);
        let all = in_order(s);
        assert(all == sorted.insert(at, x));
        assert forall|y: Rank| #[trigger] all.contains(y) <==> s.contains(y) by {
            if all.contains(y) {
                let i = choose|i: int| 0 <= i < all.len() && all[i] == y;
                if i < at {
                    assert(sorted[i] == y);
                    assert(sorted.contains(y));
                    assert(less.contains(y));
                    let k = choose|k: int| 0 <= k < less.len() && less[k] == y;
                    assert(s[k] == y);
                } else if i == at {
                    assert(s[s.len() - 1] == y);
                } else {
                    assert(sorted[i - 1] == y);
                    assert(sorted.contains(y));
                    assert(less.contains(y));
                    let k = choose|k: int| 0 <= k < less.len() && less[k] == y;
                    assert(s[k] == y);
                }
            }
            if s.contains(y) {
                let k = choose|k: int| 0 <= k < s.len() && s[k] == y;
                if k == s.len() - 1 {
                    assert(all[at] == y);
                } else {
                    assert(less[k] == y);
                    assert(less.contains(y));
                    assert(sorted.contains(y));
                    let i = choose|i: int| 0 <= i < sorted.len() && sorted[i] == y;
                    if i < at {
                        assert(all[i] == y);
                    } else {
                        assert(all[i + 1] == y);
                    }
                }
            }
        }
        if forall|i: int, j: int|
            0 <= i < j < s.len() ==> (#[trigger] s[i]).row != (#[trigger] s[j]).row {
            assert forall|i: int, j: int| 0 <= i < j < less.len() implies (#[trigger] less[i]).row
                != (#[trigger] less[j]).row by {
                assert(s[i].row != s[j].row);
            }
            assert forall|i: int| 0 <= i < sorted.len() implies (#[trigger] sorted[i]).row
                != x.row by {
                assert(sorted.contains(sorted[i]));
                assert(less.contains(sorted[i]));
                let k = choose|k: int| 0 <= k < less.len() && less[k] == sorted[i];
                assert(s[k].row != s[s.len() - 1].row);
            }
            assert forall|i: int, j: int| 0 <= i < j < all.len() implies (#[trigger] all[i]).row
                != (#[trigger] all[j]).row by {
                if i == at {
                    assert(all[j] == sorted[j - 1]);
                } else if j == at {
                    assert(all[i] == sorted[i]);
                } else {
                    let a = if i < at {
                        i
                    } else {
                        i - 1
                    };
                    let b = if j < at {
                        j
                    } else {
                        j - 1
                    };
                    assert(all[i] == sorted[a] && all[j] == sorted[b]);
                }
            }
        }
    }
}

/// What is kept stands in the order it stood in: of two kept, each was at a place of its own, the
/// earlier one earlier.
pub proof fn keeping_keeps_the_order<T>(s: Seq<T>, p: spec_fn(T) -> bool, i: int, j: int) -> (was: (
    int,
    int,
))
    requires
        0 <= i < j < keeping(s, p).len(),
    ensures
        0 <= was.0 < was.1 < s.len(),
        s[was.0] == keeping(s, p)[i],
        s[was.1] == keeping(s, p)[j],
    decreases s.len(),
{
    let t = s.drop_last();
    let kept = keeping(t, p);
    if j < kept.len() {
        keeping_keeps_the_order(t, p, i, j)
    } else {
        keeping_keeps_the_matches(t, p);
        assert(t.contains(kept[i]));
        let a = choose|a: int| 0 <= a < t.len() && t[a] == kept[i];
        (a, s.len() - 1)
    }
}

} // verus!
