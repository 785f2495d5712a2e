//! Ranking of one side of a book.
//!
//! `ranked` is the order that a summary keeps the head of. The lemmas below
//! say what that order is: the same levels, none ranking strictly before one
//! that stands ahead of it, ties in the order of arrival.

use vstd::prelude::*;
use vstd::seq_lib::to_multiset_build;
use crate::level::{
    lemma_precedes_asymmetric, lemma_precedes_splits, precedes, ranks_before, same_ratio, Level,
    Side,
};

verus! {

/// `r` with `x` put in: `x` moves in front of the levels at the end of `r`
/// that it ranks strictly before, and stays behind every level it ties with.
pub open spec fn placed(side: Side, r: Seq<Level>, x: Level) -> Seq<Level>
    decreases r.len(),
{
    if r.len() > 0 && precedes(side, x, r.last()) {
        placed(side, r.drop_last(), x).push(r.last())
    } else {
        r.push(x)
    }
}

/// The levels of `s` in rank order for `side`. Levels that tie keep the order
/// in which they stand in `s`.
pub open spec fn ranked(side: Side, s: Seq<Level>) -> Seq<Level>
    decreases s.len(),
{
    if s.len() == 0 {
        Seq::empty()
    } else {
        placed(side, ranked(side, s.drop_last()), s.last())
    }
}

/// No level of `s` ranks strictly before a level that stands ahead of it.
pub open spec fn in_rank_order(side: Side, s: Seq<Level>) -> bool {
    forall|i: int, j: int| 0 <= i < j < s.len() ==> !precedes(side, s[j], s[i])
}

/// The levels of `s` that have the ratio of `e`, in the order in which they
/// stand in `s`.
pub open spec fn ties_of(s: Seq<Level>, e: Level) -> Seq<Level> {
    s.filter(|y: Level| same_ratio(y, e))
}

/// The first `n` levels of `s`, or all of them where there are fewer.
pub open spec fn head(s: Seq<Level>, n: nat) -> Seq<Level> {
    if n <= s.len() {
        s.take(n as int)
    } else {
        s
    }
}

/// Where `x` ranks strictly before every level of `r` from `j` on, and not
/// before the level in front of `j`, putting `x` in inserts it at `j`.
pub proof fn lemma_placed_at(side: Side, r: Seq<Level>, x: Level, j: int)
    requires
        0 <= j <= r.len(),
        forall|k: int| j <= k < r.len() ==> precedes(side, x, r[k]),
        j > 0 ==> !precedes(side, x, r[j - 1]),
    ensures
        placed(side, r, x) == r.insert(j, x),
    decreases r.len(),
{
    if j == r.len() {
        assert(r.push(x) =~= r.insert(j, x));
    } else {
        let front = r.drop_last();
        assert forall|k: int| j <= k < front.len() implies precedes(side, x, front[k]) by {
            assert(front[k] == r[k]);
        }
        lemma_placed_at(side, front, x, j);
        assert(front.insert(j, x).push(r.last()) =~= r.insert(j, x));
    }
}

/// Putting a level in adds one level.
pub proof fn lemma_placed_len(side: Side, r: Seq<Level>, x: Level)
    ensures
        placed(side, r, x).len() == r.len() + 1,
    decreases r.len(),
{
    if r.len() > 0 && precedes(side, x, r.last()) {
        lemma_placed_len(side, r.drop_last(), x);
    }
}

/// Putting a level in adds that level and changes no other.
pub proof fn lemma_placed_levels(side: Side, r: Seq<Level>, x: Level)
    ensures
        placed(side, r, x).to_multiset() == r.to_multiset().insert(x),
    decreases r.len(),
{
    if r.len() > 0 && precedes(side, x, r.last()) {
        let front = r.drop_last();
        lemma_placed_levels(side, front, x);
        to_multiset_build(placed(side, front, x), r.last());
        to_multiset_build(front, r.last());
        assert(front.push(r.last()) =~= r);
        assert(front.to_multiset().insert(x).insert(r.last()) =~= front.to_multiset().insert(
            r.last(),
        ).insert(x));
    } else {
        to_multiset_build(r, x);
    }
}

/// Putting a level into levels in rank order leaves them in rank order.
pub proof fn lemma_placed_in_rank_order(side: Side, r: Seq<Level>, x: Level)
    requires
        in_rank_order(side, r),
    ensures
        in_rank_order(side, placed(side, r, x)),
    decreases r.len(),
{
    let p = placed(side, r, x);
    if r.len() > 0 && precedes(side, x, r.last()) {
        let front = r.drop_last();
        let q = placed(side, front, x);
        assert forall|i: int, j: int| 0 <= i < j < front.len() implies !precedes(
            side,
            front[j],
            front[i],
        ) by {
            assert(front[i] == r[i] && front[j] == r[j]);
        }
        lemma_placed_in_rank_order(side, front, x);
        lemma_placed_len(side, front, x);
        lemma_placed_levels(side, front, x);
        assert forall|i: int, j: int| 0 <= i < j < p.len() implies !precedes(side, p[j], p[i]) by {
            if j < q.len() {
                assert(p[i] == q[i] && p[j] == q[j]);
            } else {
                assert(p[j] == r.last());
                assert(p[i] == q[i]);
                assert(q.to_multiset().count(q[i]) > 0) by {
                    q.to_multiset_ensures();
                    assert(q.contains(q[i]));
                }
                if q[i] == x {
                    if precedes(side, r.last(), x) {
                        lemma_precedes_asymmetric(side, x, r.last());
                    }
                } else {
                    front.to_multiset_ensures();
                    assert(front.to_multiset().count(q[i]) > 0);
                    assert(front.contains(q[i]));
                    let k = choose|k: int| 0 <= k < front.len() && front[k] == q[i];
                    assert(r[k] == q[i]);
                    assert(!precedes(side, r[r.len() - 1], r[k]));
                }
            }
        }
    } else {
        assert forall|i: int, j: int| 0 <= i < j < p.len() implies !precedes(side, p[j], p[i]) by {
            if j < r.len() {
                assert(p[i] == r[i] && p[j] == r[j]);
            } else {
                assert(p[j] == x);
                assert(p[i] == r[i]);
                if r.len() > 0 && i < r.len() - 1 && precedes(side, x, r[i]) {
                    lemma_precedes_splits(side, x, r.last(), r[i]);
                    assert(!precedes(side, r[r.len() - 1], r[i]));
                }
            }
        }
    }
}

/// Putting a level in moves it past no level that it ties with: among the
/// levels of any one ratio the order is that of `r` with `x` at the end.
pub proof fn lemma_placed_keeps_ties(side: Side, r: Seq<Level>, x: Level, e: Level)
    ensures
        ties_of(placed(side, r, x), e) == ties_of(r.push(x), e),
    decreases r.len(),
{
    let tie = |y: Level| same_ratio(y, e);
    if r.len() > 0 && precedes(side, x, r.last()) {
        let front = r.drop_last();
        let z = r.last();
        lemma_placed_keeps_ties(side, front, x, e);
        placed(side, front, x).lemma_filter_push(z, tie);
        front.lemma_filter_push(x, tie);
        front.lemma_filter_push(z, tie);
        r.lemma_filter_push(x, tie);
        assert(front.push(z) =~= r);
        if tie(x) && tie(z) {
            lemma_precedes_splits(side, x, e, z);
        }
    }
}

/// Ranking keeps the number of levels.
pub proof fn lemma_ranked_len(side: Side, s: Seq<Level>)
    ensures
        ranked(side, s).len() == s.len(),
    decreases s.len(),
{
    if s.len() > 0 {
        lemma_ranked_len(side, s.drop_last());
        lemma_placed_len(side, ranked(side, s.drop_last()), s.last());
    }
}

/// Ranking neither adds, drops nor changes a level.
pub proof fn lemma_ranked_levels(side: Side, s: Seq<Level>)
    ensures
        ranked(side, s).to_multiset() == s.to_multiset(),
    decreases s.len(),
{
    if s.len() > 0 {
        lemma_ranked_levels(side, s.drop_last());
        lemma_placed_levels(side, ranked(side, s.drop_last()), s.last());
        to_multiset_build(s.drop_last(), s.last());
        assert(s.drop_last().push(s.last()) =~= s);
    } else {
        assert(ranked(side, s) =~= s);
    }
}

/// Ranked levels are in rank order: bids by ascending ratio, asks by
/// descending ratio.
pub proof fn lemma_ranked_in_rank_order(side: Side, s: Seq<Level>)
    ensures
        in_rank_order(side, ranked(side, s)),
    decreases s.len(),
{
    if s.len() > 0 {
        lemma_ranked_in_rank_order(side, s.drop_last());
        lemma_placed_in_rank_order(side, ranked(side, s.drop_last()), s.last());
    }
}

/// Ranking is stable: the levels of any one ratio stand in the ranking in the
/// order in which they stand in `s`.
pub proof fn lemma_ranked_keeps_ties(side: Side, s: Seq<Level>, e: Level)
    ensures
        ties_of(ranked(side, s), e) == ties_of(s, e),
    decreases s.len(),
{
    let tie = |y: Level| same_ratio(y, e);
    if s.len() > 0 {
        let front = s.drop_last();
        lemma_ranked_keeps_ties(side, front, e);
        lemma_placed_keeps_ties(side, ranked(side, front), s.last(), e);
        ranked(side, front).lemma_filter_push(s.last(), tie);
        front.lemma_filter_push(s.last(), tie);
        assert(front.push(s.last()) =~= s);
    } else {
        assert(ranked(side, s) =~= s);
    }
}

/// The head of a ranking holds the best: no level behind the head ranks
/// strictly before a level in it.
pub proof fn lemma_head_holds_the_best(side: Side, s: Seq<Level>, n: nat, i: int, j: int)
    requires
        0 <= i < head(ranked(side, s), n).len() <= j < s.len(),
    ensures
        !precedes(side, ranked(side, s)[j], head(ranked(side, s), n)[i]),
{
    lemma_ranked_len(side, s);
    lemma_ranked_in_rank_order(side, s);
}

/// A level of the ties of `e` is a level of `s`.
proof fn lemma_tie_is_level(s: Seq<Level>, e: Level, x: Level)
    requires
        ties_of(s, e).contains(x),
    ensures
        s.contains(x),
{
    s.lemma_filter_contains_rev(|y: Level| same_ratio(y, e), x);
}

/// The ties of `e` at the end of `s`: with the last level where it has the
/// ratio of `e`, without it where not.
proof fn lemma_ties_of_last(s: Seq<Level>, e: Level)
    requires
        s.len() > 0,
    ensures
        ties_of(s, e) == if same_ratio(s.last(), e) {
            ties_of(s.drop_last(), e).push(s.last())
        } else {
            ties_of(s.drop_last(), e)
        },
{
    s.drop_last().lemma_filter_push(s.last(), |y: Level| same_ratio(y, e));
    assert(s.drop_last().push(s.last()) =~= s);
}

/// Two sequences in rank order that have the same ties, in the same order,
/// end with the same level.
proof fn lemma_same_last_level(side: Side, a: Seq<Level>, b: Seq<Level>)
    requires
        a.len() > 0,
        b.len() > 0,
        in_rank_order(side, a),
        in_rank_order(side, b),
        forall|e: Level| #[trigger] ties_of(a, e) == ties_of(b, e),
    ensures
        a.last() == b.last(),
{
    let x = a.last();
    let z = b.last();
    lemma_ties_of_last(a, x);
    lemma_ties_of_last(b, z);
    if !same_ratio(z, x) {
        assert(ties_of(b, z).last() == z);
        assert(ties_of(a, z).contains(z)) by {
            assert(ties_of(a, z) == ties_of(b, z));
            assert(ties_of(b, z)[ties_of(b, z).len() - 1] == z);
        }
        lemma_tie_is_level(a, z, z);
        let j = choose|j: int| 0 <= j < a.len() && a[j] == z;
        assert(ties_of(a, x).last() == x);
        assert(ties_of(b, x).contains(x)) by {
            assert(ties_of(a, x) == ties_of(b, x));
            assert(ties_of(a, x)[ties_of(a, x).len() - 1] == x);
        }
        lemma_tie_is_level(b, x, x);
        let k = choose|k: int| 0 <= k < b.len() && b[k] == x;
        assert(j < a.len() - 1);
        assert(k < b.len() - 1);
        assert(!precedes(side, a[a.len() - 1], a[j]));
        assert(!precedes(side, b[b.len() - 1], b[k]));
        assert(false);
    }
    lemma_ties_of_last(b, x);
    assert(ties_of(a, x) == ties_of(b, x));
    assert(ties_of(a, x).last() == x);
    assert(ties_of(b, x).last() == z);
}

/// Rank order and the order of ties fix a sequence: two sequences in rank
/// order that have the same ties, in the same order, are the same.
pub proof fn lemma_rank_order_and_ties_fix_the_order(side: Side, a: Seq<Level>, b: Seq<Level>)
    requires
        in_rank_order(side, a),
        in_rank_order(side, b),
        forall|e: Level| #[trigger] ties_of(a, e) == ties_of(b, e),
    ensures
        a == b,
    decreases a.len(),
{
    if a.len() == 0 {
        if b.len() > 0 {
            lemma_ties_of_last(b, b.last());
            assert(ties_of(a, b.last()) == ties_of(b, b.last()));
            assert(ties_of(a, b.last()) =~= Seq::<Level>::empty());
            assert(ties_of(b, b.last()).len() > 0);
        }
        assert(a =~= b);
    } else {
        if b.len() == 0 {
            lemma_ties_of_last(a, a.last());
            assert(ties_of(a, a.last()) == ties_of(b, a.last()));
            assert(ties_of(b, a.last()) =~= Seq::<Level>::empty());
            assert(ties_of(a, a.last()).len() > 0);
        }
        lemma_same_last_level(side, a, b);
        let x = a.last();
        let front_a = a.drop_last();
        let front_b = b.drop_last();
        assert forall|e: Level| #[trigger] ties_of(front_a, e) == ties_of(front_b, e) by {
            lemma_ties_of_last(a, e);
            lemma_ties_of_last(b, e);
            assert(ties_of(a, e) == ties_of(b, e));
            if same_ratio(x, e) {
                assert(ties_of(front_a, e) =~= ties_of(front_a, e).push(x).drop_last());
                assert(ties_of(front_b, e) =~= ties_of(front_b, e).push(x).drop_last());
            }
        }
        assert forall|i: int, j: int| 0 <= i < j < front_a.len() implies !precedes(
            side,
            front_a[j],
            front_a[i],
        ) by {
            assert(front_a[i] == a[i] && front_a[j] == a[j]);
        }
        assert forall|i: int, j: int| 0 <= i < j < front_b.len() implies !precedes(
            side,
            front_b[j],
            front_b[i],
        ) by {
            assert(front_b[i] == b[i] && front_b[j] == b[j]);
        }
        lemma_rank_order_and_ties_fix_the_order(side, front_a, front_b);
        assert(a =~= front_a.push(x));
        assert(b =~= front_b.push(x));
    }
}

/// `ranked(side, s)` is the one way to put the levels of `s` in rank order
/// that keeps ties in the order in which they stand in `s`.
pub proof fn lemma_ranked_is_the_stable_order(side: Side, s: Seq<Level>, r: Seq<Level>)
    requires
        in_rank_order(side, r),
        forall|e: Level| #[trigger] ties_of(r, e) == ties_of(s, e),
    ensures
        r == ranked(side, s),
{
    lemma_ranked_in_rank_order(side, s);
    assert forall|e: Level| #[trigger] ties_of(r, e) == ties_of(ranked(side, s), e) by {
        lemma_ranked_keeps_ties(side, s, e);
    }
    lemma_rank_order_and_ties_fix_the_order(side, r, ranked(side, s));
}

/// Puts `levels` in rank order for `side`, ties in the order of arrival.
pub fn rank(side: Side, levels: Vec<Level>) -> (r: Vec<Level>)
    ensures
        r@ == ranked(side, levels@),
{
    let ghost given = levels@;
    let mut v = levels;
    let mut i: usize = 0;
    while i < v.len()
        invariant
            i <= v.len(),
            v.len() == given.len(),
            v@.take(i as int) == ranked(side, given.take(i as int)),
            v@.skip(i as int) == given.skip(i as int),
        decreases v.len() - i,
    {
        let mut j: usize = i;
        while j > 0 && ranks_before(side, &v[i], &v[j - 1])
            invariant
                j <= i < v.len(),
                forall|k: int| j <= k < i ==> precedes(side, v@[i as int], v@[k]),
            decreases j,
        {
            j -= 1;
        }
        let ghost before = v@;
        let x = v.remove(i);
        v.insert(j, x);
        proof {
            let head = before.take(i as int);
            assert(x == given[i as int]) by {
                assert(before.skip(i as int)[0] == given.skip(i as int)[0]);
            }
            assert forall|k: int| j <= k < head.len() implies precedes(side, x, head[k]) by {
                assert(head[k] == before[k]);
            }
            assert(j > 0 ==> head[j - 1] == before[j - 1]);
            lemma_placed_at(side, head, x, j as int);
            assert(v@.take(i + 1) =~= head.insert(j as int, x));
            assert(given.take(i + 1).drop_last() =~= given.take(i as int));
            assert(given.take(i + 1).last() == x);
            let tail = v@.skip(i + 1);
            assert(tail =~= given.skip(i + 1)) by {
                assert forall|k: int| 0 <= k < tail.len() implies #[trigger] tail[k]
                    == given.skip(i + 1)[k] by {
                    assert(before.skip(i as int)[k + 1] == given.skip(i as int)[k + 1]);
                }
            }
        }
        i += 1;
    }
    proof {
        assert(v@.take(i as int) =~= v@);
        assert(given.take(i as int) =~= given);
    }
    v
}

} // verus!
