//! A stable ranking: candidates by one key descending, then by a second key
//! ascending; candidates that tie on both keep their order.
use vstd::prelude::*;

verus! {

/// A candidate: where it stands in its list, and the two keys it is ranked by.
#[derive(Debug, Clone, Copy, PartialEq, Eq, Structural)]
pub struct Candidate {
    pub index: usize,
    /// Larger comes first.
    pub first: i128,
    /// Among equals of `first`, smaller comes first.
    pub second: i128,
}

/// `a` ranks strictly ahead of `b`.
pub open spec fn ahead(a: Candidate, b: Candidate) -> bool {
    a.first > b.first || (a.first == b.first && a.second < b.second)
}

/// `x` put into `s` behind everything that it does not rank ahead of.
pub open spec fn placed(s: Seq<Candidate>, x: Candidate) -> Seq<Candidate>
    decreases s.len(),
{
    if s.len() > 0 && ahead(x, s.last()) {
        placed(s.drop_last(), x).push(s.last())
    } else {
        s.push(x)
    }
}

/// `s` in rank order.
pub open spec fn ranked(s: Seq<Candidate>) -> Seq<Candidate>
    decreases s.len(),
{
    if s.len() == 0 {
        s
    } else {
        placed(ranked(s.drop_last()), s.last())
    }
}

/// Nothing ranks ahead of what stands in front of it.
pub open spec fn in_order(s: Seq<Candidate>) -> bool {
    forall|i: int, j: int| 0 <= i < j < s.len() ==> !ahead(#[trigger] s[j], #[trigger] s[i])
}

proof fn placed_facts(s: Seq<Candidate>, x: Candidate)
    ensures
        placed(s, x).len() == s.len() + 1,
        placed(s, x).to_multiset() =~= s.to_multiset().insert(x),
        in_order(s) ==> in_order(placed(s, x)),
        forall|i: int|
            0 <= i < placed(s, x).len() ==> #[trigger] placed(s, x)[i] == x || exists|j: int|
                0 <= j < s.len() && s[j] == placed(s, x)[i],
    decreases s.len(),
{
    broadcast use vstd::seq_lib::group_to_multiset_ensures;

    let t = placed(s, x);
    if s.len() > 0 && ahead(x, s.last()) {
        let front = s.drop_last();
        placed_facts(front, x);
        let u = placed(front, x);
        assert(s =~= front.push(s.last()));
        assert forall|i: int| 0 <= i < t.len() implies #[trigger] t[i] == x || exists|j: int|
            0 <= j < s.len() && s[j] == t[i] by {
            if i < u.len() {
                assert(t[i] == u[i]);
                if u[i] != x {
                    let j = choose|j: int| 0 <= j < front.len() && front[j] == u[i];
                    assert(s[j] == t[i]);
                }
            } else {
                assert(s[s.len() - 1] == t[i]);
            }
        }
        if in_order(s) {
            assert forall|i: int, j: int| 0 <= i < j < front.len() implies !ahead(
                #[trigger] front[j],
                #[trigger] front[i],
            ) by {
                assert(!ahead(s[j], s[i]));
            }
            assert forall|i: int, j: int| 0 <= i < j < t.len() implies !ahead(
                #[trigger] t[j],
                #[trigger] t[i],
            ) by {
                if j < u.len() {
                    assert(!ahead(u[j], u[i]));
                } else if u[i] != x {
                    let m = choose|m: int| 0 <= m < front.len() && front[m] == u[i];
                    assert(!ahead(s[s.len() - 1], s[m]));
                }
            }
        }
    } else {
        assert forall|i: int| 0 <= i < t.len() implies #[trigger] t[i] == x || exists|j: int|
            0 <= j < s.len() && s[j] == t[i] by {
            if i < s.len() {
                assert(s[i] == t[i]);
            }
        }
        if in_order(s) {
            assert forall|i: int, j: int| 0 <= i < j < t.len() implies !ahead(
                #[trigger] t[j],
                #[trigger] t[i],
            ) by {
                if j < s.len() {
                    assert(!ahead(s[j], s[i]));
                } else if i < s.len() - 1 {
                    assert(!ahead(s[s.len() - 1], s[i]));
                }
            }
        }
    }
}

/// Ranking keeps exactly the candidates there were, and puts them in order.
pub proof fn ranking_is_an_ordered_permutation(s: Seq<Candidate>)
    ensures
        ranked(s).len() == s.len(),
        ranked(s).to_multiset() == s.to_multiset(),
        in_order(ranked(s)),
    decreases s.len(),
{
    broadcast use vstd::seq_lib::group_to_multiset_ensures;

    if s.len() > 0 {
        let front = s.drop_last();
        ranking_is_an_ordered_permutation(front);
        placed_facts(ranked(front), s.last());
        assert(s =~= front.push(s.last()));
    }
}

/// Every ranked candidate is one of the candidates there were.
pub proof fn ranked_member(s: Seq<Candidate>, i: int) -> (j: int)
    requires
        0 <= i < ranked(s).len(),
    ensures
        0 <= j < s.len(),
        s[j] == ranked(s)[i],
    decreases s.len(),
{
    if s.len() == 0 {
        0
    } else {
        let front = s.drop_last();
        placed_facts(ranked(front), s.last());
        if ranked(s)[i] == s.last() {
            s.len() - 1
        } else {
            let m = choose|m: int|
                0 <= m < ranked(front).len() && ranked(front)[m] == placed(ranked(front), s.last())[i];
            let j = ranked_member(front, m);
            j
        }
    }
}

/// The candidates in rank order.
pub fn rank(v: &Vec<Candidate>) -> (r: Vec<Candidate>)
    ensures
        r@ == ranked(v@),
        r@.len() == v@.len(),
{
    let mut r: Vec<Candidate> = Vec::new();
    let mut i: usize = 0;
    while i < v.len()
        invariant
            i <= v@.len(),
            r@.len() == i,
            r@ == ranked(v@.take(i as int)),
        decreases v@.len() - i,
    {
        let x: Candidate = v[i];
        let mut j: usize = r.len();
        assert(r@.take(j as int) == r@);
        assert(r@.skip(j as int) =~= Seq::empty());
        while 0 < j && (x.first > r[j - 1].first || (x.first == r[j - 1].first && x.second
            < r[j - 1].second))
            invariant
                j <= r@.len(),
                placed(r@, x) =~= placed(r@.take(j as int), x) + r@.skip(j as int),
            decreases j,
        {
            proof {
                let s = r@.take(j as int);
                assert(s.last() == r@[j - 1]);
                assert(s.drop_last() == r@.take(j - 1));
                assert(placed(s.drop_last(), x).push(s.last()) + r@.skip(j as int) =~= placed(
                    s.drop_last(),
                    x,
                ) + r@.skip(j - 1));
            }
            j -= 1;
        }
        proof {
            let s = r@.take(j as int);
            if j > 0 {
                assert(s.last() == r@[j - 1]);
            }
            assert(placed(s, x) == s.push(x));
        }
        let ghost before = r@;
        r.insert(j, x);
        assert(r@ =~= before.take(j as int).push(x) + before.skip(j as int));
        let ghost next = v@.take(i + 1);
        assert(next.drop_last() == v@.take(i as int));
        assert(next.last() == x);
        i += 1;
    }
    assert(v@.take(v@.len() as int) == v@);
    r
}

/// Every candidate stands for another entry of the list.
pub open spec fn distinct(s: Seq<Candidate>) -> bool {
    forall|i: int, j: int|
        0 <= i < j < s.len() ==> (#[trigger] s[i]).index != (#[trigger] s[j]).index
}

proof fn placed_distinct(s: Seq<Candidate>, x: Candidate)
    requires
        distinct(s),
        forall|i: int| 0 <= i < s.len() ==> (#[trigger] s[i]).index != x.index,
    ensures
        distinct(placed(s, x)),
    decreases s.len(),
{
    let t = placed(s, x);
    if s.len() > 0 && ahead(x, s.last()) {
        let front = s.drop_last();
        assert forall|i: int| 0 <= i < front.len() implies (#[trigger] front[i]).index != x.index by {
            assert(front[i] == s[i]);
        }
        assert forall|i: int, j: int| 0 <= i < j < front.len() implies (#[trigger] front[i]).index != (
        #[trigger] front[j]).index by {
            assert(s[i].index != s[j].index);
        }
        placed_distinct(front, x);
        placed_facts(front, x);
        let u = placed(front, x);
        assert forall|i: int, j: int| 0 <= i < j < t.len() implies (#[trigger] t[i]).index != (
        #[trigger] t[j]).index by {
            if j < u.len() {
                assert(u[i].index != u[j].index);
            } else if u[i] != x {
                let m = choose|m: int| 0 <= m < front.len() && front[m] == u[i];
                assert(s[m].index != s[s.len() - 1].index);
            } else {
                assert(s[s.len() - 1].index != x.index);
            }
        }
    } else {
        assert forall|i: int, j: int| 0 <= i < j < t.len() implies (#[trigger] t[i]).index != (
        #[trigger] t[j]).index by {
            if j < s.len() {
                assert(s[i].index != s[j].index);
            } else {
                assert(s[i].index != x.index);
            }
        }
    }
}

/// Ranking keeps distinct candidates distinct.
pub proof fn ranked_distinct(s: Seq<Candidate>)
    requires
        distinct(s),
    ensures
        distinct(ranked(s)),
    decreases s.len(),
{
    if s.len() > 0 {
        let front = s.drop_last();
        assert forall|i: int, j: int| 0 <= i < j < front.len() implies (#[trigger] front[i]).index != (
        #[trigger] front[j]).index by {
            assert(s[i].index != s[j].index);
        }
        ranked_distinct(front);
        let r = ranked(front);
        assert forall|i: int| 0 <= i < r.len() implies (#[trigger] r[i]).index != s.last().index by {
            let m = ranked_member(front, i);
            assert(s[m].index != s[s.len() - 1].index);
        }
        placed_distinct(r, s.last());
    }
}

proof fn placed_where(r: Seq<Candidate>, x: Candidate) -> (p: int)
    ensures
        0 <= p <= r.len(),
        placed(r, x) == r.take(p).push(x) + r.skip(p),
        forall|q: int| p <= q < r.len() ==> ahead(x, #[trigger] r[q]),
    decreases r.len(),
{
    if r.len() > 0 && ahead(x, r.last()) {
        let front = r.drop_last();
        let p = placed_where(front, x);
        assert(placed(r, x) =~= r.take(p).push(x) + r.skip(p)) by {
            assert(front.take(p) =~= r.take(p));
            assert(front.skip(p).push(r.last()) =~= r.skip(p));
        }
        assert forall|q: int| p <= q < r.len() implies ahead(x, #[trigger] r[q]) by {
            if q < front.len() {
                assert(front[q] == r[q]);
            }
        }
        p
    } else {
        assert(r.take(r.len() as int) =~= r);
        assert(r.skip(r.len() as int) =~= seq![]);
        assert(placed(r, x) =~= r.take(r.len() as int).push(x) + r.skip(r.len() as int));
        r.len() as int
    }
}

/// Two candidates keep their order unless the later one ranks ahead: what ties stays as it
/// came.
pub proof fn what_ties_keeps_its_order(s: Seq<Candidate>, a: int, b: int) -> (at: (int, int))
    requires
        0 <= a < b < s.len(),
        !ahead(s[b], s[a]),
    ensures
        0 <= at.0 < at.1 < ranked(s).len(),
        ranked(s)[at.0] == s[a],
        ranked(s)[at.1] == s[b],
    decreases s.len(),
{
    let front = s.drop_last();
    let x = s.last();
    let r = ranked(front);
    let p = placed_where(r, x);
    let t = ranked(s);
    assert(t == r.take(p).push(x) + r.skip(p));
    if b < s.len() - 1 {
        assert(front[a] == s[a] && front[b] == s[b]);
        let (i, j) = what_ties_keeps_its_order(front, a, b);
        let (m, n) = (if i < p {
            i
        } else {
            i + 1
        }, if j < p {
            j
        } else {
            j + 1
        });
        assert(t[m] == r[i] && t[n] == r[j]);
        (m, n)
    } else {
        let i = somewhere(front, a);
        assert(front[a] == s[a]);
        if p <= i {
            assert(ahead(x, r[i]));
        }
        assert(t[i] == r[i] && t[p] == x);
        (i, p)
    }
}

proof fn somewhere(s: Seq<Candidate>, a: int) -> (i: int)
    requires
        0 <= a < s.len(),
    ensures
        0 <= i < ranked(s).len(),
        ranked(s)[i] == s[a],
    decreases s.len(),
{
    let front = s.drop_last();
    let x = s.last();
    let r = ranked(front);
    let p = placed_where(r, x);
    let t = ranked(s);
    assert(t == r.take(p).push(x) + r.skip(p));
    if a < s.len() - 1 {
        assert(front[a] == s[a]);
        let i = somewhere(front, a);
        let m = if i < p {
            i
        } else {
            i + 1
        };
        assert(t[m] == r[i]);
        m
    } else {
        assert(t[p] == x);
        p
    }
}

} // verus!
