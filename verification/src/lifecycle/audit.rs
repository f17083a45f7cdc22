//! The reconcile audit: the broker's positions against the designed universe.
//!
//! Quantities are the broker's alone; what the audit knows is which symbols the
//! target book stands for. A short stock, an option that is not a long call, and
//! a symbol outside the universe are alarms. A target that is not held yet, or
//! that has no symbol, is only noted.
use vstd::prelude::*;
use vstd::string::*;

use crate::alpaca::{Position, PositionView};
use crate::alpaca_data::{occ_fields, parse_occ};
use crate::calendar::{iso_text, Ymd};
use crate::config::{AppConfig, Settings};
use crate::fixed::{decimal, decimal_text, render, rendered, Fixed};
use crate::portfolio::targets::{instrument_symbol, sound_instrument, symbol_of, table, table_shape, targets, COUNT, INVESTED};
use crate::str_map::{ascending, inserted, lookup, StrMap};
use crate::text::{ascii_lower, same_ignoring_ascii_case, texts, to_upper, upper};

verus! {

/// What the audit finds.
#[derive(Debug, Clone, Copy, PartialEq, Eq, Structural)]
pub enum FindingKind {
    /// A short stock in a long-only book.
    ShortPosition,
    /// An option that is not a long call: a put, or a short leg.
    NonLongCallOption,
    /// A symbol outside the designed universe.
    Untracked,
    /// A target that is not held; normal while the book is being built.
    MissingTarget,
    /// A target without a symbol.
    UnresolvedTarget,
}

/// A short stock, an option that is no long call, or a symbol outside the universe.
pub open spec fn alarming(k: FindingKind) -> bool {
    k == FindingKind::ShortPosition || k == FindingKind::NonLongCallOption || k
        == FindingKind::Untracked
}

impl FindingKind {
    /// Whether the finding is an alarm.
    pub fn is_alarm(self) -> (r: bool)
        ensures
            r == alarming(self),
    {
        match self {
            FindingKind::ShortPosition => true,
            FindingKind::NonLongCallOption => true,
            FindingKind::Untracked => true,
            FindingKind::MissingTarget => false,
            FindingKind::UnresolvedTarget => false,
        }
    }
}

/// One finding.
#[derive(Debug, Clone)]
pub struct Finding {
    pub kind: FindingKind,
    pub symbol: String,
    /// The signed quantity; zero where nothing is held.
    pub qty: Fixed,
    pub market_value: Fixed,
    pub detail: String,
}

/// A finding as plain values.
#[verifier::ext_equal]
pub struct FindingView {
    pub kind: FindingKind,
    pub symbol: Seq<char>,
    pub qty: int,
    pub market_value: int,
    pub detail: Seq<char>,
}

impl View for Finding {
    type V = FindingView;

    open spec fn view(&self) -> FindingView {
        FindingView {
            kind: self.kind,
            symbol: self.symbol@,
            qty: self.qty as int,
            market_value: self.market_value as int,
            detail: self.detail@,
        }
    }
}

/// The views of some findings.
pub open spec fn finding_views(v: Seq<Finding>) -> Seq<FindingView> {
    v.map_values(|f: Finding| f@)
}

// ── the designed universe ──────────────────────────────────────────────────

/// The designed universe: the symbol that each invested line trades as.
pub struct ExpectedBook {
    /// The label of each symbol.
    pub symbols: StrMap<String>,
    /// The labels without a symbol.
    pub unresolved: Vec<String>,
}

/// The universe as plain values.
#[verifier::ext_equal]
pub struct Universe {
    pub symbols: Seq<(Seq<char>, Seq<char>)>,
    pub unresolved: Seq<Seq<char>>,
}

impl View for ExpectedBook {
    type V = Universe;

    open spec fn view(&self) -> Universe {
        Universe { symbols: self.symbols@, unresolved: texts(self.unresolved@) }
    }
}

/// The universe of the first `n` lines.
pub open spec fn universe(s: Settings, n: int) -> Universe
    decreases n,
{
    if n <= 0 {
        Universe { symbols: seq![], unresolved: seq![] }
    } else {
        let before = universe(s, n - 1);
        let t = table()[n - 1];
        match symbol_of(t, s) {
            Some(symbol) => Universe {
                symbols: inserted(before.symbols, symbol, t.ticker@),
                unresolved: before.unresolved,
            },
            None => Universe {
                symbols: before.symbols,
                unresolved: before.unresolved.push(t.ticker@),
            },
        }
    }
}

/// The designed universe under the settings.
pub fn expected_book(cfg: &AppConfig) -> (r: ExpectedBook)
    ensures
        r@ == universe(cfg@, INVESTED as int),
        ascending(r@.symbols),
{
    let all = targets();
    let mut symbols: StrMap<String> = StrMap::new();
    let mut unresolved: Vec<String> = Vec::new();
    let mut n: usize = 0;
    assert(texts(unresolved@) =~= universe(cfg@, 0).unresolved);
    while n < INVESTED
        invariant
            n <= INVESTED,
            all@ == table(),
            all@.len() == COUNT,
            symbols@ == universe(cfg@, n as int).symbols,
            ascending(symbols@),
            texts(unresolved@) == universe(cfg@, n as int).unresolved,
        decreases INVESTED - n,
    {
        proof {
            table_shape();
            assert(sound_instrument(table()[n as int].instrument));
        }
        match instrument_symbol(&all[n], cfg) {
            Some(symbol) => {
                symbols.insert(symbol, all[n].ticker.to_owned());
            },
            None => {
                let ghost before = texts(unresolved@);
                unresolved.push(all[n].ticker.to_owned());
                assert(texts(unresolved@) =~= before.push(table()[n as int].ticker@));
            },
        }
        n += 1;
    }
    ExpectedBook { symbols, unresolved }
}

// ── positions ──────────────────────────────────────────────────────────────

/// A broker position as the audit needs it; the quantity of a short is negative.
#[derive(Debug, Clone)]
pub struct BrokerPos {
    pub symbol: String,
    pub qty: Fixed,
    pub market_value: Fixed,
}

/// A broker position as plain values.
#[verifier::ext_equal]
pub struct PosView {
    pub symbol: Seq<char>,
    pub qty: int,
    pub market_value: int,
}

impl View for BrokerPos {
    type V = PosView;

    open spec fn view(&self) -> PosView {
        PosView {
            symbol: self.symbol@,
            qty: self.qty as int,
            market_value: self.market_value as int,
        }
    }
}

/// The views of some positions.
pub open spec fn pos_views(v: Seq<BrokerPos>) -> Seq<PosView> {
    v.map_values(|p: BrokerPos| p@)
}

/// What the audit sees of a position.
pub open spec fn audited(p: PositionView) -> PosView {
    PosView {
        symbol: upper(p.symbol),
        qty: if ascii_lower(p.side) == ascii_lower("short"@) {
            -crate::fixed::magnitude(p.qty)
        } else {
            p.qty
        },
        market_value: p.market_value,
    }
}

impl BrokerPos {
    /// What the audit sees of a position.
    pub fn from_position(p: &Position) -> (r: Self)
        requires
            i128::MIN < p.qty,
        ensures
            r@ == audited(p@),
    {
        let qty: i128 = if same_ignoring_ascii_case(p.side.as_str(), "short") {
            if p.qty < 0 {
                p.qty
            } else {
                -p.qty
            }
        } else {
            p.qty
        };
        BrokerPos { symbol: to_upper(p.symbol.as_str()), qty, market_value: p.market_value }
    }
}

// ── the diff ───────────────────────────────────────────────────────────────

/// An option in words: root, expiry and strike.
pub open spec fn option_text(root: Seq<char>, expiry: Ymd, strike: int) -> Seq<char> {
    root + " "@ + iso_text(expiry) + " $"@ + rendered(strike, 0, false)
}

/// What is wrong with an option that is not a long call.
pub open spec fn wrong_leg(root: Seq<char>, expiry: Ymd, is_call: bool, strike: int) -> Seq<char> {
    (if is_call {
        "SHORT call leg"@
    } else {
        "PUT"@
    }) + " ("@ + option_text(root, expiry, strike)
        + ") — sleeve invariant is single-leg LONG calls only"@
}

/// A finding about a position.
pub open spec fn found(kind: FindingKind, p: PosView, detail: Seq<char>) -> FindingView {
    FindingView { kind, symbol: p.symbol, qty: p.qty, market_value: p.market_value, detail }
}

/// What the audit finds about one position. The invariants come before the
/// tracking: a short call on a tracked symbol is an alarm all the same.
pub open spec fn finding_for(u: Universe, p: PosView) -> Option<FindingView> {
    let known = lookup(u.symbols, p.symbol) is Some;
    match occ_fields(p.symbol) {
        Some(f) => if !f.2 || p.qty < 0 {
            Some(found(FindingKind::NonLongCallOption, p, wrong_leg(f.0, f.1, f.2, f.3)))
        } else if !known {
            Some(
                found(
                    FindingKind::Untracked,
                    p,
                    "long call "@ + option_text(f.0, f.1, f.3)
                        + " matches no resolved LEAPS target (wrong underlying/expiry/strike, or foreign order)"@,
                ),
            )
        } else {
            None
        },
        None => if p.qty < 0 {
            Some(
                found(
                    FindingKind::ShortPosition,
                    p,
                    "short stock in a long-only sleeve (assignment/manual/foreign order)"@,
                ),
            )
        } else if !known {
            Some(
                found(
                    FindingKind::Untracked,
                    p,
                    "stock outside the designed universe (no TARGETS ticker / micro-cap pin)"@,
                ),
            )
        } else {
            None
        },
    }
}

/// The findings about the first `n` positions.
pub open spec fn position_findings(u: Universe, ps: Seq<PosView>, n: int) -> Seq<FindingView>
    decreases n,
{
    if n <= 0 {
        seq![]
    } else {
        let before = position_findings(u, ps, n - 1);
        match finding_for(u, ps[n - 1]) {
            Some(f) => before.push(f),
            None => before,
        }
    }
}

/// The symbol is held.
pub open spec fn is_held(ps: Seq<PosView>, symbol: Seq<char>) -> bool {
    exists|k: int| 0 <= k < ps.len() && (#[trigger] ps[k]).symbol == symbol
}

/// The note about a target that is not held.
pub open spec fn missing(symbol: Seq<char>, label: Seq<char>) -> FindingView {
    FindingView {
        kind: FindingKind::MissingTarget,
        symbol,
        qty: 0,
        market_value: 0,
        detail: "target "@ + label + " not held (expected during phased build)"@,
    }
}

/// The notes about the first `n` symbols of the universe that are not held.
pub open spec fn missing_findings(u: Universe, ps: Seq<PosView>, n: int) -> Seq<FindingView>
    decreases n,
{
    if n <= 0 {
        seq![]
    } else {
        let before = missing_findings(u, ps, n - 1);
        if is_held(ps, u.symbols[n - 1].0) {
            before
        } else {
            before.push(missing(u.symbols[n - 1].0, u.symbols[n - 1].1))
        }
    }
}

/// The note about a target without a symbol.
pub open spec fn unresolved(label: Seq<char>) -> FindingView {
    FindingView {
        kind: FindingKind::UnresolvedTarget,
        symbol: label,
        qty: 0,
        market_value: 0,
        detail: "no broker symbol resolvable (micro-cap slot unset in config)"@,
    }
}

/// Everything that the audit finds: about the positions, then the targets that
/// are not held, then those without a symbol.
pub open spec fn diff(u: Universe, ps: Seq<PosView>) -> Seq<FindingView> {
    position_findings(u, ps, ps.len() as int) + missing_findings(u, ps, u.symbols.len() as int)
        + u.unresolved.map_values(|label: Seq<char>| unresolved(label))
}

fn option_words(root: &str, expiry: &crate::calendar::Date, strike: Fixed) -> (r: String)
    requires
        i128::MIN < strike,
    ensures
        r@ == option_text(root@, expiry@, strike as int),
{
    let mut s = root.to_owned();
    s.append(" ");
    s.append(expiry.iso().as_str());
    s.append(" $");
    s.append(render(strike, 0, false).as_str());
    s
}

fn finding_about(kind: FindingKind, p: &BrokerPos, detail: String) -> (r: Finding)
    ensures
        r@ == found(kind, p@, detail@),
{
    Finding { kind, symbol: p.symbol.clone(), qty: p.qty, market_value: p.market_value, detail }
}

fn examine(expected: &ExpectedBook, p: &BrokerPos) -> (r: Option<Finding>)
    ensures
        match r {
            Some(f) => finding_for(expected@, p@) == Some(f@),
            None => finding_for(expected@, p@) is None,
        },
{
    let known = expected.symbols.contains_key(p.symbol.as_str());
    match parse_occ(p.symbol.as_str()) {
        Some((root, expiry, is_call, strike)) => {
            proof {
                crate::alpaca_data::occ_strike_bound(p.symbol@);
            }
            let words = option_words(root.as_str(), &expiry, strike);
            if !is_call || p.qty < 0 {
                let mut detail = if is_call {
                    "SHORT call leg".to_owned()
                } else {
                    "PUT".to_owned()
                };
                detail.append(" (");
                detail.append(words.as_str());
                detail.append(") — sleeve invariant is single-leg LONG calls only");
                Some(finding_about(FindingKind::NonLongCallOption, p, detail))
            } else if !known {
                let mut detail = "long call ".to_owned();
                detail.append(words.as_str());
                detail.append(
                    " matches no resolved LEAPS target (wrong underlying/expiry/strike, or foreign order)",
                );
                Some(finding_about(FindingKind::Untracked, p, detail))
            } else {
                None
            }
        },
        None => {
            if p.qty < 0 {
                Some(
                    finding_about(
                        FindingKind::ShortPosition,
                        p,
                        "short stock in a long-only sleeve (assignment/manual/foreign order)".to_owned(),
                    ),
                )
            } else if !known {
                Some(
                    finding_about(
                        FindingKind::Untracked,
                        p,
                        "stock outside the designed universe (no TARGETS ticker / micro-cap pin)".to_owned(),
                    ),
                )
            } else {
                None
            }
        },
    }
}

fn holds(actual: &Vec<BrokerPos>, symbol: &str) -> (r: bool)
    ensures
        r == is_held(pos_views(actual@), symbol@),
{
    let ghost ps = pos_views(actual@);
    let mut k: usize = 0;
    while k < actual.len()
        invariant
            k <= actual@.len(),
            ps == pos_views(actual@),
            forall|j: int| 0 <= j < k ==> (#[trigger] ps[j]).symbol != symbol@,
        decreases actual@.len() - k,
    {
        assert(ps[k as int] == actual@[k as int]@);
        if crate::text::same(actual[k].symbol.as_str(), symbol) {
            return true;
        }
        k += 1;
    }
    false
}

/// The broker's positions against the designed universe.
pub fn diff_positions(expected: &ExpectedBook, actual: &Vec<BrokerPos>) -> (r: Vec<Finding>)
    ensures
        finding_views(r@) == diff(expected@, pos_views(actual@)),
{
    let ghost u = expected@;
    let ghost ps = pos_views(actual@);
    let mut out: Vec<Finding> = Vec::new();
    let mut k: usize = 0;
    assert(finding_views(out@) =~= position_findings(u, ps, 0));
    while k < actual.len()
        invariant
            k <= actual@.len(),
            u == expected@,
            ps == pos_views(actual@),
            finding_views(out@) == position_findings(u, ps, k as int),
        decreases actual@.len() - k,
    {
        assert(ps[k as int] == actual@[k as int]@);
        if let Some(f) = examine(expected, &actual[k]) {
            let ghost before = finding_views(out@);
            let ghost v = f@;
            out.push(f);
            assert(finding_views(out@) =~= before.push(v));
        }
        k += 1;
    }
    let ghost first = finding_views(out@);
    let mut n: usize = 0;
    assert(first =~= first + missing_findings(u, ps, 0));
    while n < expected.symbols.len()
        invariant
            n <= expected.symbols@.len(),
            u == expected@,
            ps == pos_views(actual@),
            finding_views(out@) == first + missing_findings(u, ps, n as int),
        decreases expected.symbols@.len() - n,
    {
        let symbol = expected.symbols.key_at(n);
        if !holds(actual, symbol.as_str()) {
            let mut detail = "target ".to_owned();
            detail.append(expected.symbols.value_at(n).as_str());
            detail.append(" not held (expected during phased build)");
            let f = Finding {
                kind: FindingKind::MissingTarget,
                symbol: symbol.clone(),
                qty: 0,
                market_value: 0,
                detail,
            };
            let ghost before = finding_views(out@);
            let ghost v = f@;
            assert(v == missing(u.symbols[n as int].0, u.symbols[n as int].1));
            out.push(f);
            assert(finding_views(out@) =~= before.push(v));
            assert(before.push(v) =~= first + missing_findings(u, ps, n as int).push(v));
        }
        n += 1;
    }
    let ghost second = finding_views(out@);
    let ghost notes = u.unresolved.map_values(|label: Seq<char>| unresolved(label));
    let mut m: usize = 0;
    assert(second =~= second + notes.take(0));
    while m < expected.unresolved.len()
        invariant
            m <= expected.unresolved@.len(),
            u == expected@,
            notes == u.unresolved.map_values(|label: Seq<char>| unresolved(label)),
            finding_views(out@) == second + notes.take(m as int),
        decreases expected.unresolved@.len() - m,
    {
        let f = Finding {
            kind: FindingKind::UnresolvedTarget,
            symbol: expected.unresolved[m].clone(),
            qty: 0,
            market_value: 0,
            detail: "no broker symbol resolvable (micro-cap slot unset in config)".to_owned(),
        };
        let ghost before = finding_views(out@);
        let ghost v = f@;
        assert(v == notes[m as int]);
        out.push(f);
        assert(finding_views(out@) =~= before.push(v));
        assert(before.push(v) =~= second + notes.take(m + 1));
        m += 1;
    }
    assert(notes.take(notes.len() as int) == notes);
    out
}

// ── the report ─────────────────────────────────────────────────────────────

/// The audit's report.
#[derive(Debug, Clone)]
pub struct AuditReport {
    pub date: String,
    pub broker_positions: usize,
    /// The number of symbols in the designed universe.
    pub expected_targets: usize,
    /// The held symbols that a target explains, each with its label.
    pub explained: Vec<String>,
    pub alarms: usize,
    pub notes: usize,
    pub findings: Vec<Finding>,
}

/// The number of alarms among some findings.
pub open spec fn alarm_count(f: Seq<FindingView>) -> nat
    decreases f.len(),
{
    if f.len() == 0 {
        0
    } else {
        alarm_count(f.drop_last()) + if alarming(f.last().kind) {
            1nat
        } else {
            0
        }
    }
}

/// An alarm is about the symbol.
pub open spec fn is_alarmed(f: Seq<FindingView>, symbol: Seq<char>) -> bool {
    exists|k: int| 0 <= k < f.len() && alarming((#[trigger] f[k]).kind) && f[k].symbol == symbol
}

/// The symbols among the first `n` positions that a target explains and no alarm
/// is about.
pub open spec fn explanations(u: Universe, ps: Seq<PosView>, f: Seq<FindingView>, n: int) -> Seq<
    Seq<char>,
>
    decreases n,
{
    if n <= 0 {
        seq![]
    } else {
        let before = explanations(u, ps, f, n - 1);
        let symbol = ps[n - 1].symbol;
        match lookup(u.symbols, symbol) {
            Some(label) => if is_alarmed(f, symbol) {
                before
            } else {
                before.push(symbol + " ("@ + label + ")"@)
            },
            None => before,
        }
    }
}

fn alarmed(findings: &Vec<Finding>, symbol: &str) -> (r: bool)
    ensures
        r == is_alarmed(finding_views(findings@), symbol@),
{
    let ghost f = finding_views(findings@);
    let mut k: usize = 0;
    while k < findings.len()
        invariant
            k <= findings@.len(),
            f == finding_views(findings@),
            forall|j: int|
                0 <= j < k ==> !(alarming((#[trigger] f[j]).kind) && f[j].symbol == symbol@),
        decreases findings@.len() - k,
    {
        assert(f[k as int] == findings@[k as int]@);
        if findings[k].kind.is_alarm() && crate::text::same(findings[k].symbol.as_str(), symbol) {
            return true;
        }
        k += 1;
    }
    false
}

fn count_alarms(findings: &Vec<Finding>) -> (r: usize)
    ensures
        r == alarm_count(finding_views(findings@)),
        r <= findings@.len(),
{
    let ghost all = finding_views(findings@);
    let mut n: usize = 0;
    let mut k: usize = 0;
    while k < findings.len()
        invariant
            k <= findings@.len(),
            all == finding_views(findings@),
            n == alarm_count(all.take(k as int)),
            n <= k,
        decreases findings@.len() - k,
    {
        assert(all.take(k + 1).drop_last() == all.take(k as int));
        assert(all.take(k + 1).last() == findings@[k as int]@);
        if findings[k].kind.is_alarm() {
            n += 1;
        }
        k += 1;
    }
    assert(all.take(all.len() as int) == all);
    n
}

/// Puts the report together. Every finding is an alarm or a note.
pub fn build_report(
    date: &str,
    expected: &ExpectedBook,
    actual: &Vec<BrokerPos>,
    findings: Vec<Finding>,
) -> (r: AuditReport)
    ensures
        r.date@ == date@,
        r.broker_positions == actual@.len(),
        r.expected_targets == expected@.symbols.len(),
        texts(r.explained@) == explanations(
            expected@,
            pos_views(actual@),
            finding_views(findings@),
            actual@.len() as int,
        ),
        r.alarms == alarm_count(finding_views(findings@)),
        r.alarms + r.notes == findings@.len(),
        r.findings@ == findings@,
{
    let ghost u = expected@;
    let ghost ps = pos_views(actual@);
    let ghost f = finding_views(findings@);
    let mut explained: Vec<String> = Vec::new();
    let mut n: usize = 0;
    assert(texts(explained@) =~= explanations(u, ps, f, 0));
    while n < actual.len()
        invariant
            n <= actual@.len(),
            u == expected@,
            ps == pos_views(actual@),
            f == finding_views(findings@),
            texts(explained@) == explanations(u, ps, f, n as int),
        decreases actual@.len() - n,
    {
        let p = &actual[n];
        assert(ps[n as int] == p@);
        if let Some(label) = expected.symbols.get(p.symbol.as_str()) {
            if !alarmed(&findings, p.symbol.as_str()) {
                let mut s = p.symbol.clone();
                s.append(" (");
                s.append(label.as_str());
                s.append(")");
                let ghost before = texts(explained@);
                let ghost v = s@;
                explained.push(s);
                assert(texts(explained@) =~= before.push(v));
            }
        }
        n += 1;
    }
    let alarms: usize = count_alarms(&findings);
    let notes: usize = findings.len() - alarms;
    AuditReport {
        date: date.to_owned(),
        broker_positions: actual.len(),
        expected_targets: expected.symbols.len(),
        explained,
        alarms,
        notes,
        findings,
    }
}

/// The name of a kind of finding.
pub open spec fn tag(k: FindingKind) -> Seq<char> {
    match k {
        FindingKind::ShortPosition => "SHORT position"@,
        FindingKind::NonLongCallOption => "NON-LONG-CALL option"@,
        FindingKind::Untracked => "UNTRACKED at broker"@,
        FindingKind::MissingTarget => "missing target"@,
        FindingKind::UnresolvedTarget => "unresolved target"@,
    }
}

/// The name of a kind of finding.
pub fn kind_tag(k: FindingKind) -> (r: &'static str)
    ensures
        r@ == tag(k),
{
    match k {
        FindingKind::ShortPosition => "SHORT position",
        FindingKind::NonLongCallOption => "NON-LONG-CALL option",
        FindingKind::Untracked => "UNTRACKED at broker",
        FindingKind::MissingTarget => "missing target",
        FindingKind::UnresolvedTarget => "unresolved target",
    }
}

/// The line of an alarm.
pub open spec fn alarm_line(f: FindingView) -> Seq<char> {
    "• "@ + tag(f.kind) + " — "@ + f.symbol + ": qty "@ + rendered(f.qty, 0, true) + ", mv $"@
        + rendered(f.market_value, 0, true) + " — "@ + f.detail + "\n"@
}

/// The lines of the alarms among the first `n` findings.
pub open spec fn alarm_lines(f: Seq<FindingView>, n: int) -> Seq<char>
    decreases n,
{
    if n <= 0 {
        ""@
    } else if alarming(f[n - 1].kind) {
        alarm_lines(f, n - 1) + alarm_line(f[n - 1])
    } else {
        alarm_lines(f, n - 1)
    }
}

/// The head of the message.
pub open spec fn alarm_head(r: AuditReport) -> Seq<char> {
    "🚨 aschenbrenner-unlimited reconcile "@ + r.date@ + ": "@ + decimal(r.alarms as nat)
        + " alarm(s) between broker and the target book\n(broker positions: "@ + decimal(
        r.broker_positions as nat,
    ) + ", designed targets: "@ + decimal(r.expected_targets as nat) + ", notes: "@ + decimal(
        r.notes as nat,
    ) + ")\n"@
}

/// The message about the alarms of a report; notes are not in it.
pub open spec fn alarm_text(r: AuditReport) -> Seq<char> {
    alarm_head(r) + alarm_lines(finding_views(r.findings@), r.findings@.len() as int)
        + "Short / non-long-call findings violate the sleeve's core invariant; Untracked = foreign risk the book can't see. Check meta/reconcile-<date>.json."@
}

/// The message about the alarms of a report; notes are not in it.
pub fn compose_alarm(r: &AuditReport) -> (s: String)
    requires
        forall|i: int|
            0 <= i < r.findings@.len() ==> i128::MIN < (#[trigger] r.findings@[i]).qty && i128::MIN
                < r.findings@[i].market_value,
    ensures
        s@ == alarm_text(*r),
{
    let mut s = "🚨 aschenbrenner-unlimited reconcile ".to_owned();
    s.append(r.date.as_str());
    s.append(": ");
    s.append(decimal_text(r.alarms as u128).as_str());
    s.append(" alarm(s) between broker and the target book\n(broker positions: ");
    s.append(decimal_text(r.broker_positions as u128).as_str());
    s.append(", designed targets: ");
    s.append(decimal_text(r.expected_targets as u128).as_str());
    s.append(", notes: ");
    s.append(decimal_text(r.notes as u128).as_str());
    s.append(")\n");
    let ghost head = s@;
    let ghost f = finding_views(r.findings@);
    let mut n: usize = 0;
    assert(head + ""@ =~= head) by {
        reveal_strlit("");
    }
    while n < r.findings.len()
        invariant
            n <= r.findings@.len(),
            f == finding_views(r.findings@),
            forall|i: int|
                0 <= i < r.findings@.len() ==> i128::MIN < (#[trigger] r.findings@[i]).qty && i128::MIN
                    < r.findings@[i].market_value,
            s@ == head + alarm_lines(f, n as int),
        decreases r.findings@.len() - n,
    {
        let x = &r.findings[n];
        assert(f[n as int] == x@);
        if x.kind.is_alarm() {
            let mut l = "• ".to_owned();
            l.append(kind_tag(x.kind));
            l.append(" — ");
            l.append(x.symbol.as_str());
            l.append(": qty ");
            l.append(render(x.qty, 0, true).as_str());
            l.append(", mv $");
            l.append(render(x.market_value, 0, true).as_str());
            l.append(" — ");
            l.append(x.detail.as_str());
            l.append("\n");
            assert(head + alarm_lines(f, n as int) + l@ =~= head + alarm_lines(f, n + 1));
            s.append(l.as_str());
        }
        n += 1;
    }
    s.append(
        "Short / non-long-call findings violate the sleeve's core invariant; Untracked = foreign risk the book can't see. Check meta/reconcile-<date>.json.",
    );
    s
}

/// The message that an audit sends: one about its alarms, where sending is asked for.
/// A report with notes only is silent.
pub fn alarm_to_send(r: &AuditReport, send: bool) -> (s: Option<String>)
    requires
        forall|i: int|
            0 <= i < r.findings@.len() ==> i128::MIN < (#[trigger] r.findings@[i]).qty && i128::MIN
                < r.findings@[i].market_value,
    ensures
        match s {
            Some(t) => send && r.alarms > 0 && t@ == alarm_text(*r),
            None => !send || r.alarms == 0,
        },
{
    if send && r.alarms > 0 {
        Some(compose_alarm(r))
    } else {
        None
    }
}

// ── laws ───────────────────────────────────────────────────────────────────

/// The invariants beat the tracking: a short stock, a put and a short call are
/// alarms whatever the universe holds.
pub proof fn invariants_beat_tracking(u: Universe, p: PosView)
    ensures
        occ_fields(p.symbol) is None && p.qty < 0 ==> (finding_for(u, p) matches Some(f) && f.kind
            == FindingKind::ShortPosition),
        occ_fields(p.symbol) matches Some(o) ==> ((!o.2 || p.qty < 0) ==> (finding_for(
            u,
            p,
        ) matches Some(f) && f.kind == FindingKind::NonLongCallOption)),
{
}

/// A long position is silent exactly where its symbol is in the universe and it is
/// no put.
pub proof fn long_positions_of_the_universe_are_silent(u: Universe, p: PosView)
    requires
        p.qty >= 0,
    ensures
        finding_for(u, p) is None <==> (lookup(u.symbols, p.symbol) is Some && (occ_fields(
            p.symbol,
        ) matches Some(o) ==> o.2)),
{
}

/// Every finding is an alarm.
pub open spec fn all_alarms(f: Seq<FindingView>) -> bool {
    forall|k: int| 0 <= k < f.len() ==> alarming((#[trigger] f[k]).kind)
}

/// No finding is an alarm.
pub open spec fn all_notes(f: Seq<FindingView>) -> bool {
    forall|k: int| 0 <= k < f.len() ==> !alarming((#[trigger] f[k]).kind)
}

/// What is found about a position is an alarm.
pub proof fn position_findings_are_alarms(u: Universe, ps: Seq<PosView>, n: int)
    ensures
        all_alarms(position_findings(u, ps, n)),
    decreases n,
{
    if n > 0 {
        position_findings_are_alarms(u, ps, n - 1);
    }
}

/// A target that is not held is a note and never an alarm: the book is partial
/// for months while it is being built.
pub proof fn missing_targets_are_notes(u: Universe, ps: Seq<PosView>, n: int)
    ensures
        all_notes(missing_findings(u, ps, n)),
    decreases n,
{
    if n > 0 {
        missing_targets_are_notes(u, ps, n - 1);
    }
}

proof fn alarm_count_of_sum(a: Seq<FindingView>, b: Seq<FindingView>)
    ensures
        alarm_count(a + b) == alarm_count(a) + alarm_count(b),
    decreases b.len(),
{
    if b.len() == 0 {
        assert(a + b =~= a);
    } else {
        assert((a + b).drop_last() =~= a + b.drop_last());
        alarm_count_of_sum(a, b.drop_last());
    }
}

proof fn alarm_count_of_alarms(f: Seq<FindingView>)
    requires
        all_alarms(f),
    ensures
        alarm_count(f) == f.len(),
    decreases f.len(),
{
    if f.len() > 0 {
        let front = f.drop_last();
        assert forall|k: int| 0 <= k < front.len() implies alarming((#[trigger] front[k]).kind) by {
            assert(front[k] == f[k]);
        }
        alarm_count_of_alarms(front);
        assert(alarming(f[f.len() - 1].kind));
    }
}

proof fn alarm_count_of_notes(f: Seq<FindingView>)
    requires
        all_notes(f),
    ensures
        alarm_count(f) == 0,
    decreases f.len(),
{
    if f.len() > 0 {
        let front = f.drop_last();
        assert forall|k: int| 0 <= k < front.len() implies !alarming((#[trigger] front[k]).kind) by {
            assert(front[k] == f[k]);
        }
        alarm_count_of_notes(front);
        assert(!alarming(f[f.len() - 1].kind));
    }
}

/// The alarms of a diff are exactly what was found about positions: as many as
/// there are positions that break an invariant or stand outside the universe.
pub proof fn alarms_are_about_positions(u: Universe, ps: Seq<PosView>)
    ensures
        alarm_count(diff(u, ps)) == position_findings(u, ps, ps.len() as int).len(),
{
    let a = position_findings(u, ps, ps.len() as int);
    let b = missing_findings(u, ps, u.symbols.len() as int);
    let c = u.unresolved.map_values(|label: Seq<char>| unresolved(label));
    position_findings_are_alarms(u, ps, ps.len() as int);
    missing_targets_are_notes(u, ps, u.symbols.len() as int);
    alarm_count_of_alarms(a);
    alarm_count_of_notes(b);
    alarm_count_of_notes(c);
    alarm_count_of_sum(a, b);
    alarm_count_of_sum(a + b, c);
}

proof fn no_position_findings(u: Universe, ps: Seq<PosView>, n: int)
    requires
        n <= ps.len(),
        forall|k: int| 0 <= k < ps.len() ==> finding_for(u, #[trigger] ps[k]) is None,
    ensures
        position_findings(u, ps, n).len() == 0,
    decreases n,
{
    if n > 0 {
        no_position_findings(u, ps, n - 1);
        assert(finding_for(u, ps[n - 1]) is None);
    }
}

proof fn nothing_missing(u: Universe, ps: Seq<PosView>, n: int)
    requires
        n <= u.symbols.len(),
        forall|k: int| 0 <= k < u.symbols.len() ==> is_held(ps, (#[trigger] u.symbols[k]).0),
    ensures
        missing_findings(u, ps, n).len() == 0,
    decreases n,
{
    if n > 0 {
        nothing_missing(u, ps, n - 1);
        assert(is_held(ps, u.symbols[n - 1].0));
    }
}

/// A fully built book is clean: where every position is silent, every symbol of
/// the universe is held and every target has a symbol, the audit finds nothing.
pub proof fn a_fully_built_book_is_clean(u: Universe, ps: Seq<PosView>)
    requires
        forall|k: int| 0 <= k < ps.len() ==> finding_for(u, #[trigger] ps[k]) is None,
        forall|k: int| 0 <= k < u.symbols.len() ==> is_held(ps, (#[trigger] u.symbols[k]).0),
        u.unresolved.len() == 0,
    ensures
        diff(u, ps).len() == 0,
{
    no_position_findings(u, ps, ps.len() as int);
    nothing_missing(u, ps, u.symbols.len() as int);
}

proof fn no_alarm_counted(f: Seq<FindingView>)
    requires
        alarm_count(f) == 0,
    ensures
        all_notes(f),
    decreases f.len(),
{
    if f.len() > 0 {
        let front = f.drop_last();
        no_alarm_counted(front);
        assert forall|k: int| 0 <= k < f.len() implies !alarming((#[trigger] f[k]).kind) by {
            if k < front.len() {
                assert(f[k] == front[k]);
            }
        }
    }
}

proof fn silent_positions(u: Universe, ps: Seq<PosView>, n: int)
    requires
        position_findings(u, ps, n).len() == 0,
    ensures
        forall|k: int| 0 <= k < n ==> finding_for(u, #[trigger] ps[k]) is None,
    decreases n,
{
    if n > 0 {
        silent_positions(u, ps, n - 1);
    }
}

proof fn explained_so_far(u: Universe, ps: Seq<PosView>, f: Seq<FindingView>, n: int)
    requires
        0 <= n <= ps.len(),
        all_notes(f),
        forall|k: int| 0 <= k < ps.len() ==> lookup(u.symbols, (#[trigger] ps[k]).symbol) is Some,
    ensures
        explanations(u, ps, f, n).len() == n,
        forall|k: int|
            0 <= k < n ==> #[trigger] explanations(u, ps, f, n)[k] == ps[k].symbol + " ("@ + lookup(
                u.symbols,
                ps[k].symbol,
            )->0 + ")"@,
    decreases n,
{
    if n > 0 {
        explained_so_far(u, ps, f, n - 1);
        assert(lookup(u.symbols, ps[n - 1].symbol) is Some);
        assert(!is_alarmed(f, ps[n - 1].symbol));
        let (before, all) = (explanations(u, ps, f, n - 1), explanations(u, ps, f, n));
        assert forall|k: int| 0 <= k < n implies #[trigger] all[k] == ps[k].symbol + " ("@ + lookup(
            u.symbols,
            ps[k].symbol,
        )->0 + ")"@ by {
            if k < n - 1 {
                assert(all[k] == before[k]);
            }
        }
    }
}

/// Without an alarm every held position is explained: the report lists each one in
/// order, with the target that it stands for.
pub proof fn without_an_alarm_everything_is_explained(u: Universe, ps: Seq<PosView>)
    requires
        alarm_count(diff(u, ps)) == 0,
    ensures
        explanations(u, ps, diff(u, ps), ps.len() as int).len() == ps.len(),
        forall|k: int|
            0 <= k < ps.len() ==> lookup(u.symbols, ps[k].symbol) is Some && #[trigger] explanations(
                u,
                ps,
                diff(u, ps),
                ps.len() as int,
            )[k] == ps[k].symbol + " ("@ + lookup(u.symbols, ps[k].symbol)->0 + ")"@,
{
    let n = ps.len() as int;
    alarms_are_about_positions(u, ps);
    silent_positions(u, ps, n);
    no_alarm_counted(diff(u, ps));
    assert forall|k: int| 0 <= k < n implies lookup(u.symbols, (#[trigger] ps[k]).symbol) is Some by {
        assert(finding_for(u, ps[k]) is None);
    }
    explained_so_far(u, ps, diff(u, ps), n);
}

} // verus!
