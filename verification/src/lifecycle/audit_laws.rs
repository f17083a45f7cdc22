//! What an audit owes: every position and every target is answered for.
use vstd::prelude::*;

use crate::alpaca::PositionView;
use crate::alpaca_data::occ_fields;
use crate::config::Settings;
use crate::lifecycle::audit::{
    alarming, audited, diff, explanations, finding_for, is_alarmed, is_held, missing_findings, position_findings,
    universe, FindingKind, FindingView, PosView, Universe,
};
use crate::portfolio::targets::{symbol_of, table, INVESTED};
use crate::str_map::{ascending, inserted_ascending, lookup, lookup_inserted};
use crate::text::{ascii_lower, upper};

verus! {

/// A finding of a kind is about a symbol.
pub open spec fn reported(f: Seq<FindingView>, kind: FindingKind, symbol: Seq<char>) -> bool {
    exists|k: int| 0 <= k < f.len() && (#[trigger] f[k]).kind == kind && f[k].symbol == symbol
}

proof fn position_is_reported(u: Universe, ps: Seq<PosView>, n: int, k: int)
    requires
        0 <= k < n <= ps.len(),
    ensures
        finding_for(u, ps[k]) matches Some(f) ==> position_findings(u, ps, n).contains(f),
    decreases n,
{
    let (before, all) = (position_findings(u, ps, n - 1), position_findings(u, ps, n));
    if let Some(f) = finding_for(u, ps[k]) {
        if k < n - 1 {
            position_is_reported(u, ps, n - 1, k);
            let m = choose|m: int| 0 <= m < before.len() && before[m] == f;
            assert(all[m] == f);
        } else {
            assert(all[all.len() - 1] == f);
        }
    }
}

proof fn reports_are_positions(u: Universe, ps: Seq<PosView>, n: int)
    requires
        0 <= n <= ps.len(),
    ensures
        forall|m: int|
            0 <= m < position_findings(u, ps, n).len() ==> exists|k: int|
                0 <= k < n && finding_for(u, #[trigger] ps[k]) == Some(#[trigger] position_findings(u, ps, n)[m]),
    decreases n,
{
    if n > 0 {
        reports_are_positions(u, ps, n - 1);
        let (before, all) = (position_findings(u, ps, n - 1), position_findings(u, ps, n));
        assert forall|m: int| 0 <= m < all.len() implies exists|k: int|
            0 <= k < n && finding_for(u, #[trigger] ps[k]) == Some(#[trigger] all[m]) by {
            if m < before.len() {
                assert(all[m] == before[m]);
                let k = choose|k: int| 0 <= k < n - 1 && finding_for(u, #[trigger] ps[k]) == Some(before[m]);
                assert(finding_for(u, ps[k]) == Some(all[m]));
            } else {
                assert(finding_for(u, ps[n - 1]) == Some(all[m]));
            }
        }
    }
}

proof fn missing_is_reported(u: Universe, ps: Seq<PosView>, n: int, symbol: Seq<char>)
    requires
        0 <= n <= u.symbols.len(),
    ensures
        reported(missing_findings(u, ps, n), FindingKind::MissingTarget, symbol) <==> !is_held(ps, symbol) && exists|k: int|
            0 <= k < n && (#[trigger] u.symbols[k]).0 == symbol,
        forall|m: int|
            0 <= m < missing_findings(u, ps, n).len() ==> (#[trigger] missing_findings(u, ps, n)[m]).kind
                == FindingKind::MissingTarget,
    decreases n,
{
    if n > 0 {
        missing_is_reported(u, ps, n - 1, symbol);
        let (before, all) = (missing_findings(u, ps, n - 1), missing_findings(u, ps, n));
        let kind = FindingKind::MissingTarget;
        if reported(before, kind, symbol) {
            let m = choose|m: int| 0 <= m < before.len() && (#[trigger] before[m]).kind == kind && before[m].symbol == symbol;
            assert(all[m] == before[m]);
        }
        if reported(all, kind, symbol) {
            let m = choose|m: int| 0 <= m < all.len() && (#[trigger] all[m]).kind == kind && all[m].symbol == symbol;
            if m < before.len() {
                assert(before[m] == all[m]);
            } else {
                assert(u.symbols[n - 1].0 == symbol);
            }
        }
        if u.symbols[n - 1].0 == symbol && !is_held(ps, symbol) {
            assert(all[all.len() - 1].symbol == symbol);
        }
        assert forall|m: int| 0 <= m < all.len() implies (#[trigger] all[m]).kind == kind by {
            if m < before.len() {
                assert(all[m] == before[m]);
            }
        }
    }
}

/// Every position is answered for, whatever its size. A put is reported as no long call,
/// and so is a call that is short; a short stock as a short position; and a long position
/// whose symbol no target trades as, call or stock, as untracked.
pub proof fn every_stray_position_is_reported(u: Universe, ps: Seq<PosView>, k: int)
    requires
        0 <= k < ps.len(),
    ensures
        ({
            let p = ps[k];
            let f = diff(u, ps);
            match occ_fields(p.symbol) {
                Some(o) => {
                    &&& !o.2 || p.qty < 0 ==> reported(f, FindingKind::NonLongCallOption, p.symbol)
                    &&& o.2 && p.qty >= 0 && lookup(u.symbols, p.symbol) is None ==> reported(
                        f,
                        FindingKind::Untracked,
                        p.symbol,
                    )
                },
                None => {
                    &&& p.qty < 0 ==> reported(f, FindingKind::ShortPosition, p.symbol)
                    &&& p.qty >= 0 && lookup(u.symbols, p.symbol) is None ==> reported(f, FindingKind::Untracked, p.symbol)
                },
            }
        }),
{
    position_is_reported(u, ps, ps.len() as int, k);
    if let Some(f) = finding_for(u, ps[k]) {
        let found = position_findings(u, ps, ps.len() as int);
        let m = choose|m: int| 0 <= m < found.len() && found[m] == f;
        assert(diff(u, ps)[m] == f);
    }
}

/// No alarm is raised about a symbol that is traded by a target, unless it is held
/// short or is a put; and none about a symbol that is not held.
pub proof fn a_sound_position_is_not_reported(u: Universe, ps: Seq<PosView>, symbol: Seq<char>)
    requires
        lookup(u.symbols, symbol) is Some,
        occ_fields(symbol) matches Some(o) ==> o.2,
        forall|k: int| 0 <= k < ps.len() && (#[trigger] ps[k]).symbol == symbol ==> ps[k].qty >= 0,
    ensures
        !is_alarmed(diff(u, ps), symbol),
{
    let f = diff(u, ps);
    if is_alarmed(f, symbol) {
        let m = choose|m: int|
            0 <= m < f.len() && alarming((#[trigger] f[m]).kind) && f[m].symbol == symbol;
        let found = position_findings(u, ps, ps.len() as int);
        let notes = missing_findings(u, ps, u.symbols.len() as int);
        missing_is_reported(u, ps, u.symbols.len() as int, symbol);
        if m < found.len() {
            reports_are_positions(u, ps, ps.len() as int);
            assert(f[m] == found[m]);
            let k = choose|k: int| 0 <= k < ps.len() && finding_for(u, #[trigger] ps[k]) == Some(found[m]);
            assert(ps[k].symbol == symbol);
        } else if m < found.len() + notes.len() {
            assert(f[m] == notes[m - found.len()]);
        }
    }
}

/// A target is reported as missing exactly where nothing is held under its symbol.
pub proof fn a_missing_target_is_noted(u: Universe, ps: Seq<PosView>, k: int)
    requires
        0 <= k < u.symbols.len(),
    ensures
        reported(diff(u, ps), FindingKind::MissingTarget, u.symbols[k].0) <==> forall|m: int|
            0 <= m < ps.len() ==> (#[trigger] ps[m]).symbol != u.symbols[k].0,
{
    let symbol = u.symbols[k].0;
    let kind = FindingKind::MissingTarget;
    let f = diff(u, ps);
    let found = position_findings(u, ps, ps.len() as int);
    let notes = missing_findings(u, ps, u.symbols.len() as int);
    missing_is_reported(u, ps, u.symbols.len() as int, symbol);
    reports_are_positions(u, ps, ps.len() as int);
    if reported(notes, kind, symbol) {
        let m = choose|m: int| 0 <= m < notes.len() && (#[trigger] notes[m]).kind == kind && notes[m].symbol == symbol;
        assert(f[found.len() + m] == notes[m]);
    }
    if reported(f, kind, symbol) {
        let m = choose|m: int| 0 <= m < f.len() && (#[trigger] f[m]).kind == kind && f[m].symbol == symbol;
        if m < found.len() {
            assert(f[m] == found[m]);
            let j = choose|j: int| 0 <= j < ps.len() && finding_for(u, #[trigger] ps[j]) == Some(found[m]);
            assert(finding_for(u, ps[j]) == Some(f[m]));
        } else if m < found.len() + notes.len() {
            assert(f[m] == notes[m - found.len()]);
        }
    }
    if !is_held(ps, symbol) {
        assert forall|m: int| 0 <= m < ps.len() implies (#[trigger] ps[m]).symbol != symbol by {}
    }
}

/// The label is that of a line among the first `n` that has no symbol.
pub open spec fn lacks_a_symbol(s: Settings, n: int, label: Seq<char>) -> bool {
    exists|i: int| 0 <= i < n && symbol_of(#[trigger] table()[i], s) is None && table()[i].ticker@ == label
}

/// The universe holds the symbol of every line among the first `n`, and nothing else; a
/// line without a symbol is listed as unresolved, and no other is.
pub proof fn the_universe_is_the_book(s: Settings, n: int)
    requires
        0 <= n <= INVESTED,
    ensures
        ascending(universe(s, n).symbols),
        forall|symbol: Seq<char>|
            #[trigger] lookup(universe(s, n).symbols, symbol) is Some <==> exists|i: int|
                0 <= i < n && symbol_of(#[trigger] table()[i], s) == Some(symbol),
        forall|i: int|
            0 <= i < n && symbol_of(#[trigger] table()[i], s) is None ==> universe(s, n).unresolved.contains(
                table()[i].ticker@,
            ),
        forall|k: int|
            0 <= k < universe(s, n).unresolved.len() ==> lacks_a_symbol(s, n, #[trigger] universe(s, n).unresolved[k]),
    decreases n,
{
    if n > 0 {
        the_universe_is_the_book(s, n - 1);
        let (before, all) = (universe(s, n - 1), universe(s, n));
        let t = table()[n - 1];
        if let Some(own) = symbol_of(t, s) {
            inserted_ascending(before.symbols, own, t.ticker@);
            assert forall|symbol: Seq<char>|
                #[trigger] lookup(all.symbols, symbol) is Some <==> exists|i: int|
                    0 <= i < n && symbol_of(#[trigger] table()[i], s) == Some(symbol) by {
                lookup_inserted(before.symbols, own, t.ticker@, symbol);
                assert(lookup(before.symbols, symbol) is Some <==> exists|i: int|
                    0 <= i < n - 1 && symbol_of(#[trigger] table()[i], s) == Some(symbol));
                assert(symbol_of(table()[n - 1], s) == Some(own));
            }
        } else {
            assert forall|symbol: Seq<char>|
                #[trigger] lookup(all.symbols, symbol) is Some <==> exists|i: int|
                    0 <= i < n && symbol_of(#[trigger] table()[i], s) == Some(symbol) by {
                assert(lookup(before.symbols, symbol) is Some <==> exists|i: int|
                    0 <= i < n - 1 && symbol_of(#[trigger] table()[i], s) == Some(symbol));
            }
            assert(all.unresolved[all.unresolved.len() - 1] == t.ticker@);
        }
        assert forall|i: int| 0 <= i < n && symbol_of(#[trigger] table()[i], s) is None implies all.unresolved.contains(
            table()[i].ticker@,
        ) by {
            if i < n - 1 {
                let m = choose|m: int| 0 <= m < before.unresolved.len() && before.unresolved[m] == table()[i].ticker@;
                assert(all.unresolved[m] == table()[i].ticker@);
            }
        }
        assert forall|k: int| 0 <= k < all.unresolved.len() implies lacks_a_symbol(s, n, #[trigger] all.unresolved[k]) by {
            if k < before.unresolved.len() {
                assert(all.unresolved[k] == before.unresolved[k]);
                assert(lacks_a_symbol(s, n - 1, before.unresolved[k]));
                let i = choose|i: int|
                    0 <= i < n - 1 && symbol_of(#[trigger] table()[i], s) is None && table()[i].ticker@ == before.unresolved[k];
                assert(table()[i].ticker@ == all.unresolved[k]);
            } else {
                assert(table()[n - 1].ticker@ == all.unresolved[k]);
            }
        }
    } else {
        assert(universe(s, 0).symbols =~= seq![]);
    }
}

/// A position that the broker calls short, in any case of letters, counts with a negative
/// quantity whatever its sign was; any other counts as it stands.
pub proof fn a_short_side_is_negative(p: PositionView)
    ensures
        audited(p).symbol == upper(p.symbol),
        audited(p).market_value == p.market_value,
        ascii_lower(p.side) == ascii_lower("short"@) ==> audited(p).qty <= 0 && (audited(p).qty == p.qty || audited(p).qty
            == -p.qty),
        ascii_lower(p.side) != ascii_lower("short"@) ==> audited(p).qty == p.qty,
{
}

/// A position is explained exactly where its symbol is in the universe and no alarm is
/// about it.
pub proof fn every_other_position_is_explained(u: Universe, ps: Seq<PosView>, f: Seq<FindingView>, n: int, k: int)
    requires
        0 <= k < n <= ps.len(),
    ensures
        lookup(u.symbols, ps[k].symbol) matches Some(label) ==> (!is_alarmed(f, ps[k].symbol) ==> explanations(u, ps, f, n).contains(
            ps[k].symbol + " ("@ + label + ")"@,
        )),
        explanations(u, ps, f, n).len() <= n,
    decreases n,
{
    let (before, all) = (explanations(u, ps, f, n - 1), explanations(u, ps, f, n));
    if n > 1 {
        every_other_position_is_explained(u, ps, f, n - 1, if k < n - 1 {
            k
        } else {
            0
        });
    }
    if let Some(label) = lookup(u.symbols, ps[k].symbol) {
        if !is_alarmed(f, ps[k].symbol) {
            let text = ps[k].symbol + " ("@ + label + ")"@;
            if k < n - 1 {
                let m = choose|m: int| 0 <= m < before.len() && before[m] == text;
                assert(all[m] == text);
            } else {
                assert(all[all.len() - 1] == text);
            }
        }
    }
}

} // verus!
