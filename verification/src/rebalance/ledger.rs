//! The working ledger of a plan: what each equity line is worth as trims are
//! booked, the cash that they free, and the trims of each ticker with their reasons.
use vstd::math::min;
use vstd::prelude::*;
use vstd::string::*;

use crate::fixed::{smaller, within, Fixed, WIDE};
use crate::portfolio::targets::{table, targets, COUNT, EQUITY};
use crate::ranking::Candidate;
use crate::str_map::{inserted, inserted_entry, lookup, lookup_found, StrMap};

verus! {

/// What is to be sold of one ticker, and why.
#[derive(Debug, Clone)]
pub struct Trim {
    pub dollars: Fixed,
    pub reason: String,
}

/// A trim as plain values.
#[verifier::ext_equal]
pub struct TrimView {
    pub dollars: int,
    pub reason: Seq<char>,
}

impl View for Trim {
    type V = TrimView;

    open spec fn view(&self) -> TrimView {
        TrimView { dollars: self.dollars as int, reason: self.reason@ }
    }
}

/// The working ledger: the value of each equity line, the cash, the trims.
#[verifier::ext_equal]
pub struct Ledger {
    pub mv: Seq<int>,
    pub cash: int,
    pub trims: Seq<(Seq<char>, TrimView)>,
}

/// A trim joined to the one that its ticker already has.
pub open spec fn merged(before: Option<TrimView>, dollars: int, reason: Seq<char>) -> TrimView {
    match before {
        Some(t) => TrimView {
            dollars: t.dollars + dollars,
            reason: t.reason + "; "@ + reason,
        },
        None => TrimView { dollars, reason },
    }
}

/// The ledger after a sale: the line is worth less, the cash is more, and the
/// ticker's trim has grown.
pub open spec fn booked(l: Ledger, ticker: Seq<char>, line: int, dollars: int, reason: Seq<char>) -> Ledger {
    Ledger {
        mv: l.mv.update(line, l.mv[line] - dollars),
        cash: l.cash + dollars,
        trims: inserted(l.trims, ticker, merged(lookup(l.trims, ticker), dollars, reason)),
    }
}

/// Every trim lies within a bound.
pub open spec fn trims_within(trims: Seq<(Seq<char>, TrimView)>, c: int) -> bool {
    forall|i: int| 0 <= i < trims.len() ==> within((#[trigger] trims[i]).1.dollars, c)
}

/// The lines lie within `m`, the cash and the trims within `c`.
pub open spec fn sized(l: Ledger, m: int, c: int) -> bool {
    &&& l.mv.len() == EQUITY
    &&& forall|i: int| 0 <= i < EQUITY ==> within(#[trigger] l.mv[i], m)
    &&& within(l.cash, c)
    &&& trims_within(l.trims, c)
}

/// Larger bounds hold as well.
pub proof fn sized_weaker(l: Ledger, m: int, c: int, m2: int, c2: int)
    requires
        sized(l, m, c),
        m <= m2,
        c <= c2,
    ensures
        sized(l, m2, c2),
{
    assert forall|i: int| 0 <= i < EQUITY implies within(#[trigger] l.mv[i], m2) by {}
    assert forall|i: int| 0 <= i < l.trims.len() implies within((#[trigger] l.trims[i]).1.dollars, c2) by {}
}

proof fn inserted_trims_within(
    s: Seq<(Seq<char>, TrimView)>,
    k: Seq<char>,
    t: TrimView,
    c: int,
)
    requires
        trims_within(s, c),
        within(t.dollars, c),
    ensures
        trims_within(inserted(s, k, t), c),
{
    let u = inserted(s, k, t);
    assert forall|i: int| 0 <= i < u.len() implies within((#[trigger] u[i]).1.dollars, c) by {
        inserted_entry(s, k, t, i);
    }
}

/// Booking a sale of at most `x` keeps the bounds, which grow by `x`.
pub proof fn booked_sized(
    l: Ledger,
    ticker: Seq<char>,
    line: int,
    dollars: int,
    reason: Seq<char>,
    m: int,
    c: int,
    x: int,
)
    requires
        sized(l, m, c),
        0 <= line < EQUITY,
        within(dollars, x),
        within(l.mv[line] - dollars, m),
        0 <= c,
    ensures
        sized(booked(l, ticker, line, dollars, reason), m, c + x),
{
    let t = merged(lookup(l.trims, ticker), dollars, reason);
    lookup_found(l.trims, ticker);
    if let Some(b) = lookup(l.trims, ticker) {
        let i = choose|i: int| 0 <= i < l.trims.len() && #[trigger] l.trims[i] == (ticker, b);
        assert(within(l.trims[i].1.dollars, c));
    }
    sized_weaker(l, m, c, m, c + x);
    inserted_trims_within(l.trims, ticker, t, c + x);
}

/// A ledger that is worked on.
pub struct Book {
    pub mv: Vec<Fixed>,
    pub cash: Fixed,
    pub trims: StrMap<Trim>,
}

impl View for Book {
    type V = Ledger;

    open spec fn view(&self) -> Ledger {
        Ledger {
            mv: self.mv@.map_values(|x: Fixed| x as int),
            cash: self.cash as int,
            trims: self.trims@,
        }
    }
}

impl Book {
    /// Books a sale.
    pub fn book(&mut self, ticker: &str, line: usize, dollars: Fixed, reason: &str)
        requires
            sized(old(self)@, WIDE as int, WIDE as int),
            line < EQUITY,
            within(dollars as int, WIDE as int),
        ensures
            final(self)@ == booked(
                old(self)@,
                ticker@,
                line as int,
                dollars as int,
                reason@,
            ),
    {
        let ghost before = self@;
        assert(within(before.mv[line as int], WIDE as int));
        let value: i128 = self.mv[line];
        self.mv.set(line, value - dollars);
        self.cash = self.cash + dollars;
        proof {
            lookup_found(before.trims, ticker@);
            if let Some(b) = lookup(before.trims, ticker@) {
                let i = choose|i: int|
                    0 <= i < before.trims.len() && #[trigger] before.trims[i] == (ticker@, b);
                assert(within(before.trims[i].1.dollars, WIDE as int));
            }
        }
        let joined = match self.trims.get(ticker) {
            Some(t) => {
                let mut r = t.reason.clone();
                r.append("; ");
                r.append(reason);
                Trim { dollars: t.dollars + dollars, reason: r }
            },
            None => Trim { dollars, reason: reason.to_owned() },
        };
        self.trims.insert(ticker.to_owned(), joined);
        assert(self@.mv =~= before.mv.update(line as int, before.mv[line as int] - dollars));
    }
}

// ── relieving a group ──────────────────────────────────────────────────────

/// The value of some lines together.
pub open spec fn value_of_lines(mv: Seq<int>, lines: Seq<int>) -> int
    decreases lines.len(),
{
    if lines.len() == 0 {
        0
    } else {
        value_of_lines(mv, lines.drop_last()) + mv[lines.last()]
    }
}

/// Sells from the candidates in order, each at most what it stands above its
/// goal, until the excess is gone.
pub open spec fn relieved(l: Ledger, candidates: Seq<Candidate>, excess: int, reason: Seq<char>) -> Ledger
    decreases candidates.len(),
{
    if candidates.len() == 0 || excess <= 0 {
        l
    } else {
        let c = candidates[0];
        let take = min(c.first as int, excess);
        relieved(
            booked(l, table()[c.index as int].ticker@, c.index as int, take, reason),
            candidates.drop_first(),
            excess - take,
            reason,
        )
    }
}

/// The candidates are equity lines, each once, and each has room to sell: from
/// above zero down to no less than zero.
pub open spec fn sellable(l: Ledger, candidates: Seq<Candidate>) -> bool {
    &&& forall|k: int|
        0 <= k < candidates.len() ==> (#[trigger] candidates[k]).index < EQUITY && 0
            < candidates[k].first <= l.mv[candidates[k].index as int]
    &&& forall|j: int, k: int|
        0 <= j < k < candidates.len() ==> (#[trigger] candidates[j]).index != (
        #[trigger] candidates[k]).index
}

/// One step of the relief keeps the candidates behind it sellable, and the bounds.
pub proof fn relief_step(
    l: Ledger,
    candidates: Seq<Candidate>,
    take: int,
    reason: Seq<char>,
    m: int,
    c: int,
)
    requires
        sized(l, m, c),
        0 <= c,
        candidates.len() > 0,
        sellable(l, candidates),
        0 < take <= candidates[0].first,
    ensures
        ({
            let i = candidates[0].index as int;
            let next = booked(l, table()[i].ticker@, i, take, reason);
            &&& sized(next, m, c + m)
            &&& sellable(next, candidates.drop_first())
        }),
{
    let i = candidates[0].index as int;
    let next = booked(l, table()[i].ticker@, i, take, reason);
    assert(within(l.mv[i], m));
    booked_sized(l, table()[i].ticker@, i, take, reason, m, c, m);
    let rest = candidates.drop_first();
    assert forall|k: int| 0 <= k < rest.len() implies (#[trigger] rest[k]).index < EQUITY && 0
        < rest[k].first <= next.mv[rest[k].index as int] by {
        assert(rest[k] == candidates[k + 1]);
        assert(candidates[0].index != candidates[k + 1].index);
    }
    assert forall|j: int, k: int| 0 <= j < k < rest.len() implies (#[trigger] rest[j]).index != (
    #[trigger] rest[k]).index by {
        assert(rest[j] == candidates[j + 1] && rest[k] == candidates[k + 1]);
    }
}

impl Book {
    /// Sells from the candidates in order until the excess is gone. `m` and `c`
    /// bound the ledger's sizes.
    pub(crate) fn relieve(
        &mut self,
        candidates: &Vec<Candidate>,
        excess: Fixed,
        reason: &str,
        Ghost(m): Ghost<int>,
        Ghost(c): Ghost<int>,
    )
        requires
            sized(old(self)@, m, c),
            0 <= m,
            0 <= c,
            m <= WIDE,
            c + EQUITY * m <= WIDE,
            sellable(old(self)@, candidates@),
            candidates@.len() <= EQUITY,
            within(excess as int, WIDE as int),
        ensures
            final(self)@ == relieved(old(self)@, candidates@, excess as int, reason@),
            sized(final(self)@, m, c + EQUITY * m),
    {
        let all = targets();
        let ghost start = self@;
        let mut left: i128 = excess;
        let mut k: usize = 0;
        assert(candidates@.skip(0) == candidates@);
        while k < candidates.len() && left > 0
            invariant
                k <= candidates@.len() <= EQUITY,
                all@ == table(),
                all@.len() == COUNT,
                0 <= m <= WIDE,
                0 <= c,
                c + EQUITY * m <= WIDE,
                sized(self@, m, c + k * m),
                sellable(self@, candidates@.skip(k as int)),
                within(left as int, WIDE as int),
                relieved(start, candidates@, excess as int, reason@) == relieved(
                    self@,
                    candidates@.skip(k as int),
                    left as int,
                    reason@,
                ),
            decreases candidates@.len() - k,
        {
            let ghost rest = candidates@.skip(k as int);
            let x: Candidate = candidates[k];
            assert(rest[0] == x);
            assert(rest.drop_first() == candidates@.skip(k + 1));
            let take: i128 = smaller(x.first, left);
            proof {
                assert(0 <= k * m && (k + 1) * m == k * m + m && (k + 1) * m <= EQUITY * m) by (nonlinear_arith)
                    requires
                        0 <= m,
                        k + 1 <= EQUITY,
                        0 <= k,
                ;
                relief_step(self@, rest, take as int, reason@, m, c + k * m);
                sized_weaker(self@, m, c + k * m, WIDE as int, WIDE as int);
                assert(within(self@.mv[x.index as int], m));
            }
            self.book(all[x.index].ticker, x.index, take, reason);
            left = left - take;
            k += 1;
        }
        proof {
            assert(k * m <= EQUITY * m) by (nonlinear_arith)
                requires
                    0 <= m,
                    k <= EQUITY,
            ;
            sized_weaker(self@, m, c + k * m, m, c + EQUITY * m);
        }
    }
}

} // verus!
