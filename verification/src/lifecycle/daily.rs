//! The daily cycle: which plan a run follows, when the build started, how the
//! high-water marks rise, and the digest.
use vstd::math::max;
use vstd::prelude::*;
use vstd::string::*;

use crate::calendar::{iso_text, on_calendar, parsed_date, Date, Ymd, CLOCK_RANGE};
use crate::config::{settings_within_limits, AppConfig, Settings};
use crate::execute::{
    action_within_limits, actions_within_limits, advisories, advisory_count, result_line, result_views, ExecResult, ResultView,
};
use crate::fixed::{
    decimal, decimal_text, integer_text, magnitude, percent, percent_text, render, rendered, signed_decimal, within, Fixed,
    LIMIT,
};
use crate::json::{
    array, entry_at, flag_in, list_in, member, members, number_document, number_written, object, text_in,
    whole_document, whole_written, Document, Json,
};
use crate::portfolio::metrics::{
    cluster_shares, cluster_weights, glide_delta, glide_path_status, marks_within_limits, metric_bounded, metric_views,
    metrics, position_metrics, share_views, MetricView, PositionMetric,
};
use crate::portfolio::state::{
    held, held_is_a_holding, holding_within_limits, portfolio_within_limits, HoldingView, Portfolio, PortfolioState,
};
use crate::portfolio::targets::{
    display_name, display_text, instrument_symbol, sound_instrument, symbol_of, table, table_shape, targets, Target, COUNT,
    EQUITY, INVESTED,
};
use crate::ranking::{rank, ranked, ranked_member, Candidate};
use crate::rebalance::laws::a_plan_is_sized;
use crate::rebalance::phased_build::{a_tranche_is_sized, build_complete, line_filled, plan_build, tranche};
use crate::rebalance::rules::{plan, plan_protective, plan_rebalance, scene, scene_within_limits, Scene};
use crate::rebalance::signal_bias::{multiplier, Bias, SignalBias};
use crate::rebalance::{action_views, Action, ActionKind, ActionView};
use crate::scheduler::{local_clock, moment_in};
use crate::str_map::{inserted, lookup, lookup_inserted, StrMap};
use crate::text::{join, joined, texts};

verus! {

/// What a run is for.
#[derive(Clone, Copy, Debug, PartialEq, Eq, Structural)]
pub enum RunMode {
    Build,
    Maintenance,
}

// ── the plan of a run ──────────────────────────────────────────────────────

/// Every invested line is filled.
pub open spec fn book_complete(p: Portfolio, s: Settings) -> bool {
    forall|i: int| 0 <= i < INVESTED ==> #[trigger] line_filled(p, s, i)
}

/// The plan of a run. A book in maintenance, or a build whose book is complete,
/// follows every rule; while the book is being built, the protective rules come
/// first and the day's tranche behind them.
pub open spec fn cycle_plan(mode: RunMode, w: Scene, start: Ymd) -> Seq<ActionView> {
    if mode == RunMode::Maintenance || book_complete(w.portfolio, w.settings) {
        plan(w, true)
    } else {
        plan(w, false) + tranche(w.portfolio, w.settings, w.asof, start)
    }
}

/// What the run is called in the digest.
pub open spec fn cycle_label(mode: RunMode, p: Portfolio, s: Settings) -> Seq<char> {
    if mode == RunMode::Maintenance {
        "maintenance"@
    } else if book_complete(p, s) {
        "build→maintenance (book complete)"@
    } else {
        "build"@
    }
}

/// The plan of a run, and what the run is called.
pub fn plan_cycle(
    mode: RunMode,
    state: &PortfolioState,
    cfg: &AppConfig,
    high_water: &StrMap<Fixed>,
    bias: &SignalBias,
    today: Date,
    start: Date,
) -> (r: (Vec<Action>, &'static str))
    requires
        scene_within_limits(scene(*state, *cfg, *high_water, *bias, today)),
    ensures
        action_views(r.0@) == cycle_plan(
            mode,
            scene(*state, *cfg, *high_water, *bias, today),
            start@,
        ),
        r.1@ == cycle_label(mode, state@, cfg@),
        forall|i: int| 0 <= i < r.0@.len() ==> action_within_limits(#[trigger] r.0@[i]@),
{
    let r = if deploys(mode, state, cfg) {
        let label = if mode == RunMode::Maintenance {
            "maintenance"
        } else {
            "build→maintenance (book complete)"
        };
        (plan_rebalance(state, cfg, high_water, bias, today), label)
    } else {
        let mut actions = plan_protective(state, cfg, high_water, bias, today);
        let mut tail = plan_build(state, cfg, today, start);
        let ghost first = action_views(actions@);
        let ghost second = action_views(tail@);
        actions.append(&mut tail);
        assert(action_views(actions@) =~= first + second);
        (actions, "build")
    };
    proof {
        a_cycle_is_sized(mode, scene(*state, *cfg, *high_water, *bias, today), start@);
        assert forall|i: int| 0 <= i < r.0@.len() implies action_within_limits(#[trigger] r.0@[i]@) by {
            assert(action_views(r.0@)[i] == r.0@[i]@);
        }
    }
    r
}

/// Every proposal of a run is of a size that can be reckoned with.
pub proof fn a_cycle_is_sized(mode: RunMode, w: Scene, start: Ymd)
    requires
        scene_within_limits(w),
    ensures
        actions_within_limits(cycle_plan(mode, w, start)),
{
    a_plan_is_sized(w, true);
    a_plan_is_sized(w, false);
    a_tranche_is_sized(w.portfolio, w.settings, w.asof, start);
    let (first, second) = (plan(w, false), tranche(w.portfolio, w.settings, w.asof, start));
    let all = first + second;
    assert forall|k: int| 0 <= k < all.len() implies action_within_limits(#[trigger] all[k]) by {
        if k < first.len() {
            assert(all[k] == first[k]);
        } else {
            assert(all[k] == second[k - first.len()]);
        }
    }
}

/// Whether a run deploys cash by the rules: in maintenance, or once the book is complete.
pub fn deploys(mode: RunMode, state: &PortfolioState, cfg: &AppConfig) -> (r: bool)
    requires
        portfolio_within_limits(state@),
        settings_within_limits(cfg@),
    ensures
        r == (mode == RunMode::Maintenance || book_complete(state@, cfg@)),
{
    mode == RunMode::Maintenance || build_complete(state, cfg)
}

/// Today's date in the configured time zone, so many seconds after the beginning of 1970.
pub fn today_in_tz(cfg: &AppConfig, seconds: i64) -> (r: Date)
    requires
        -CLOCK_RANGE <= seconds <= CLOCK_RANGE,
    ensures
        local_clock(seconds as int, cfg@.timezone_str) matches Some(t) && r@ == (Ymd { year: t.0, month: t.1, day: t.2 }),
{
    moment_in(seconds, cfg.timezone_str.as_str()).date
}

/// The day the build started on, and whether it still has to be written down.
pub struct BuildStart {
    pub date: Date,
    pub is_new: bool,
}

/// The start that a document records, where it can be read.
pub open spec fn recorded_start(doc: Document) -> Option<(int, int, int)> {
    match text_in(doc, "start_date"@) {
        Some(s) => parsed_date(s, "%Y-%m-%d"@),
        None => None,
    }
}

/// The day the build started on: the recorded one, or today on the first run. A start
/// that was written down is kept on every later day.
pub fn build_start(doc: &Json, today: Date) -> (r: BuildStart)
    ensures
        forall|e: Ymd|
            on_calendar(e) && text_in(doc@, "start_date"@) == Some(#[trigger] iso_text(e)) ==> !r.is_new && r.date@ == e,
        match recorded_start(doc@) {
            Some(d) => !r.is_new && r.date@ == (Ymd { year: d.0, month: d.1, day: d.2 }),
            None => r.is_new && r.date == today,
        },
{
    if let Some(s) = doc.text_at("start_date") {
        if let Some(d) = Date::parse_iso(s.as_str()) {
            return BuildStart { date: d, is_new: false };
        }
    }
    BuildStart { date: today, is_new: true }
}

/// The document that records the start of the build.
pub fn start_document(start: Date) -> (r: Json)
    ensures
        text_in(r@, "start_date"@) == Some(iso_text(start@)),
{
    let fields = vec![("start_date".to_owned(), Json::Text(start.iso()))];
    proof {
        entry_at(members(fields@), 0);
    }
    object(fields)
}

// ── high-water marks ───────────────────────────────────────────────────────

/// A mark that a price is held against: it rises to the price and never falls.
pub open spec fn raised(mark: Option<i128>, price: int) -> i128 {
    match mark {
        Some(m) => max(m as int, price) as i128,
        None => price as i128,
    }
}

/// The marks after the first `n` holdings; a price that is not positive is no price.
pub open spec fn ratcheted(marks: Seq<(Seq<char>, i128)>, holdings: Seq<HoldingView>, n: int) -> Seq<
    (Seq<char>, i128),
>
    decreases n,
{
    if n <= 0 {
        marks
    } else {
        let before = ratcheted(marks, holdings, n - 1);
        let h = holdings[n - 1];
        if h.price > 0 {
            inserted(before, h.ticker, raised(lookup(before, h.ticker), h.price))
        } else {
            before
        }
    }
}

/// Raises the marks to the prices of a snapshot.
pub fn update_high_water(marks: &mut StrMap<Fixed>, state: &PortfolioState)
    ensures
        final(marks)@ == ratcheted(old(marks)@, state@.holdings, state@.holdings.len() as int),
{
    let ghost start = marks@;
    let mut n: usize = 0;
    while n < state.holdings.len()
        invariant
            n <= state.holdings@.len(),
            state@.holdings.len() == state.holdings@.len(),
            marks@ == ratcheted(start, state@.holdings, n as int),
        decreases state.holdings@.len() - n,
    {
        let h = &state.holdings[n];
        assert(state@.holdings[n as int] == h@);
        if h.price > 0 {
            let mark: i128 = match marks.get(h.ticker.as_str()) {
                Some(m) => if h.price > *m {
                    h.price
                } else {
                    *m
                },
                None => h.price,
            };
            marks.insert(h.ticker.clone(), mark);
        }
        n += 1;
    }
}

/// A mark never falls, whatever prices come.
pub proof fn marks_never_fall(
    marks: Seq<(Seq<char>, i128)>,
    holdings: Seq<HoldingView>,
    n: int,
    ticker: Seq<char>,
)
    requires
        n <= holdings.len(),
        forall|i: int| 0 <= i < holdings.len() ==> within((#[trigger] holdings[i]).price, 100_000 * LIMIT),
    ensures
        lookup(marks, ticker) matches Some(m) ==> (lookup(
            ratcheted(marks, holdings, n),
            ticker,
        ) matches Some(r) && r >= m),
    decreases n,
{
    if n > 0 {
        marks_never_fall(marks, holdings, n - 1, ticker);
        let before = ratcheted(marks, holdings, n - 1);
        let h = holdings[n - 1];
        assert(within(holdings[n - 1].price, 100_000 * LIMIT));
        lookup_inserted(before, h.ticker, raised(lookup(before, h.ticker), h.price), ticker);
    }
}

/// After the marks were raised, every held ticker has a mark at or above its price.
pub proof fn marks_reach_the_prices(
    marks: Seq<(Seq<char>, i128)>,
    holdings: Seq<HoldingView>,
    n: int,
    k: int,
)
    requires
        0 <= k < n <= holdings.len(),
        holdings[k].price > 0,
        forall|i: int| 0 <= i < holdings.len() ==> within((#[trigger] holdings[i]).price, 100_000 * LIMIT),
    ensures
        lookup(ratcheted(marks, holdings, n), holdings[k].ticker) matches Some(r) && r
            >= holdings[k].price,
    decreases n,
{
    let before = ratcheted(marks, holdings, n - 1);
    let h = holdings[n - 1];
    assert(within(holdings[n - 1].price, 100_000 * LIMIT));
    lookup_inserted(
        before,
        h.ticker,
        raised(lookup(before, h.ticker), h.price),
        holdings[k].ticker,
    );
    if k < n - 1 {
        marks_reach_the_prices(marks, holdings, n - 1, k);
    }
}

// ── the digest ─────────────────────────────────────────────────────────────

/// The first line of the digest.
pub open spec fn digest_head(today: Ymd, mode_label: Seq<char>, armed: bool) -> Seq<char> {
    "🚀 aschenbrenner-unlimited · "@ + iso_text(today) + " · "@ + mode_label + " ("@ + (if armed {
        "ARMED"@
    } else {
        "dry-run"@
    }) + ")\n"@
}

/// A signed percentage with one decimal, as the glide path is reported.
pub open spec fn pace_text(delta: int) -> Seq<char> {
    (if delta >= 0 {
        "+"@
    } else {
        ""@
    }) + percent(delta, 1, false)
}

/// The line with the account value and the glide path.
pub open spec fn nav_line(p: Portfolio, target: int) -> Seq<char> {
    "NAV $"@ + rendered(p.nav, 0, false) + " · cash $"@ + rendered(p.cash, 0, false)
        + " · glide-path $"@ + rendered(target, 0, false) + " ("@ + pace_text(
        glide_delta(p.nav, target),
    ) + "% vs 26% CAGR pace)\n"@
}

/// The line with the market regime, where there is a score.
pub open spec fn regime_line(score: Option<i64>) -> Seq<char> {
    match score {
        Some(s) => "macro regime "@ + signed_decimal(s as int) + "/100 · deploy mult "@ + rendered(
            multiplier(Some(s)),
            2,
            false,
        ) + "\n"@,
        None => ""@,
    }
}

/// The parts of the cluster line: each share, with a mark where it is over the cap.
pub open spec fn cluster_parts(shares: Seq<(Seq<char>, int, int)>, cap: int) -> Seq<Seq<char>> {
    shares.map_values(
        |x: (Seq<char>, int, int)|
            x.0 + " "@ + percent(x.1, 0, false) + "%"@ + if x.1 > cap {
                "⚠"@
            } else {
                ""@
            },
    )
}

/// The rows as candidates for the largest drift.
pub open spec fn drift_candidates(rows: Seq<MetricView>) -> Seq<Candidate> {
    Seq::new(
        rows.len(),
        |i: int|
            Candidate {
                index: i as usize,
                first: magnitude(rows[i].drift) as i128,
                second: 0,
            },
    )
}

/// The first `n` rows by the size of their drift, the largest first.
pub open spec fn top_drifts(rows: Seq<MetricView>, n: nat) -> Seq<MetricView> {
    let order = ranked(drift_candidates(rows));
    Seq::new(
        if order.len() < n {
            order.len()
        } else {
            n
        },
        |i: int| rows[order[i].index as int],
    )
}

/// The parts of the drift line.
pub open spec fn drift_parts(rows: Seq<MetricView>) -> Seq<Seq<char>> {
    rows.map_values(|m: MetricView| m.ticker + " "@ + percent(m.drift, 1, true) + "%"@)
}

/// The parts of the moonshot line: the lines below `n` that are held.
pub open spec fn moon_parts(p: Portfolio, s: Settings, n: int) -> Seq<Seq<char>>
    decreases n,
{
    if n <= EQUITY {
        seq![]
    } else {
        let before = moon_parts(p, s, n - 1);
        let t = table()[n - 1];
        match symbol_of(t, s) {
            Some(symbol) => match held(p, symbol) {
                Some(h) => before.push(
                    display_text(t, s) + " $"@ + rendered(h.market_value, 0, false) + " ("@ + percent(
                        h.unrealized_plpc,
                        0,
                        true,
                    ) + "%)"@,
                ),
                None => before,
            },
            None => before,
        }
    }
}

/// The moonshot line, where anything of it is held.
pub open spec fn moon_line_text(parts: Seq<Seq<char>>) -> Seq<char> {
    if parts.len() == 0 {
        ""@
    } else {
        "moonshot: "@ + joined(parts, " · "@) + "\n"@
    }
}

/// How many of the results are orders.
pub open spec fn order_count(v: Seq<ResultView>) -> nat
    decreases v.len(),
{
    if v.len() == 0 {
        0
    } else {
        order_count(v.drop_last()) + if v.last().qty > 0 {
            1nat
        } else {
            0
        }
    }
}

/// The lines of the first `n` results.
pub open spec fn result_lines(v: Seq<ResultView>, n: int) -> Seq<char>
    decreases n,
{
    if n <= 0 {
        ""@
    } else {
        result_lines(v, n - 1) + ("  "@ + result_line(v[n - 1]) + "\n"@)
    }
}

/// The part of the digest about the results.
pub open spec fn results_text(v: Seq<ResultView>) -> Seq<char> {
    if v.len() == 0 {
        "actions: none — portfolio within rebalance band\n"@
    } else {
        "actions: "@ + decimal(order_count(v)) + " order(s), "@ + decimal(advisories(v))
            + " advisory\n"@ + result_lines(v, v.len() as int)
    }
}

/// The digest of a run.
pub open spec fn digest(
    s: Settings,
    today: Ymd,
    mode_label: Seq<char>,
    armed: bool,
    p: Portfolio,
    marks: Seq<(Seq<char>, i128)>,
    b: Bias,
    results: Seq<ResultView>,
    glide_target: int,
) -> Seq<char> {
    digest_head(today, mode_label, armed) + nav_line(p, glide_target) + regime_line(b.macro_score)
        + "clusters: "@ + joined(
        cluster_parts(cluster_shares(p, s.cash_buffer_pct), s.cluster_cap_pct),
        " · "@,
    ) + "\n"@ + "top drift: "@ + joined(
        drift_parts(top_drifts(metrics(p, s.cash_buffer_pct, marks, EQUITY as nat), 4)),
        " · "@,
    ) + "\n"@ + moon_line_text(moon_parts(p, s, INVESTED as int)) + results_text(results)
}

/// A signed percentage with one decimal.
pub fn pace(delta: Fixed) -> (r: String)
    requires
        within(delta as int, 1_500_000_000_000_000_000_000_000_000_000_000_000),
    ensures
        r@ == pace_text(delta as int),
{
    let mut s = if delta >= 0 {
        "+".to_owned()
    } else {
        "".to_owned()
    };
    s.append(percent_text(delta, 1, false).as_str());
    s
}

fn head_and_nav(
    today: Date,
    mode_label: &str,
    armed: bool,
    state: &PortfolioState,
    glide_target: Fixed,
) -> (r: String)
    requires
        portfolio_within_limits(state@),
        within(glide_target as int, 10_000 * LIMIT),
    ensures
        r@ == digest_head(today@, mode_label@, armed) + nav_line(state@, glide_target as int),
{
    let mut s = "🚀 aschenbrenner-unlimited · ".to_owned();
    s.append(today.iso().as_str());
    s.append(" · ");
    s.append(mode_label);
    s.append(" (");
    if armed {
        s.append("ARMED");
    } else {
        s.append("dry-run");
    }
    s.append(")\n");
    let (target, delta) = glide_path_status(state.nav, glide_target);
    let mut l = "NAV $".to_owned();
    l.append(render(state.nav, 0, false).as_str());
    l.append(" · cash $");
    l.append(render(state.cash, 0, false).as_str());
    l.append(" · glide-path $");
    l.append(render(target, 0, false).as_str());
    l.append(" (");
    l.append(pace(delta).as_str());
    l.append("% vs 26% CAGR pace)\n");
    s.append(l.as_str());
    s
}

fn regime(bias: &SignalBias) -> (r: String)
    ensures
        r@ == regime_line(bias@.macro_score),
{
    match bias.macro_score {
        Some(score) => {
            let mut s = "macro regime ".to_owned();
            s.append(integer_text(score as i128).as_str());
            s.append("/100 · deploy mult ");
            s.append(render(bias.deploy_multiplier(), 2, false).as_str());
            s.append("\n");
            s
        },
        None => "".to_owned(),
    }
}

fn cluster_text(state: &PortfolioState, cfg: &AppConfig) -> (r: String)
    requires
        portfolio_within_limits(state@),
        settings_within_limits(cfg@),
    ensures
        r@ == joined(
            cluster_parts(cluster_shares(state@, cfg@.cash_buffer_pct), cfg@.cluster_cap_pct),
            " · "@,
        ),
{
    let shares = cluster_weights(state, cfg.cash_buffer_pct);
    let ghost views = share_views(shares@);
    let ghost want = cluster_parts(views, cfg@.cluster_cap_pct);
    let mut parts: Vec<String> = Vec::new();
    let mut i: usize = 0;
    while i < shares.len()
        invariant
            i <= shares@.len(),
            views == share_views(shares@),
            want == cluster_parts(views, cfg@.cluster_cap_pct),
            forall|k: int|
                0 <= k < shares@.len() ==> within(
                    (#[trigger] shares@[k]).1 as int,
                    1_000_000_000_000_000_000_000_000_000_000_000_000,
                ),
            parts@.len() == i,
            forall|k: int| 0 <= k < i ==> #[trigger] parts@[k]@ == want[k],
        decreases shares@.len() - i,
    {
        let x = &shares[i];
        assert(views[i as int] == (x.0@, x.1 as int, x.2 as int));
        assert(within(shares@[i as int].1 as int, 1_000_000_000_000_000_000_000_000_000_000_000_000));
        let mut s = x.0.clone();
        s.append(" ");
        s.append(percent_text(x.1, 0, false).as_str());
        s.append("%");
        if x.1 > cfg.cluster_cap_pct {
            s.append("⚠");
        } else {
            s.append("");
        }
        assert(s@ == want[i as int]);
        parts.push(s);
        i += 1;
    }
    assert(texts(parts@) =~= want);
    join(&parts, " · ")
}

/// The first `n` rows by the size of their drift, the largest first.
pub fn largest_drifts(rows: &Vec<PositionMetric>, n: usize) -> (r: Vec<usize>)
    requires
        forall|i: int| 0 <= i < rows@.len() ==> metric_bounded(#[trigger] rows@[i]@),
    ensures
        r@.len() == top_drifts(metric_views(rows@), n as nat).len(),
        forall|i: int|
            0 <= i < r@.len() ==> (#[trigger] r@[i]) < rows@.len() && rows@[r@[i] as int]@
                == top_drifts(metric_views(rows@), n as nat)[i],
{
    let ghost views = metric_views(rows@);
    let mut c: Vec<Candidate> = Vec::new();
    let mut i: usize = 0;
    while i < rows.len()
        invariant
            i <= rows@.len(),
            views == metric_views(rows@),
            forall|i: int| 0 <= i < rows@.len() ==> metric_bounded(#[trigger] rows@[i]@),
            c@.len() == i,
            forall|k: int| 0 <= k < i ==> #[trigger] c@[k] == drift_candidates(views)[k],
        decreases rows@.len() - i,
    {
        assert(metric_bounded(rows@[i as int]@));
        assert(views[i as int] == rows@[i as int]@);
        let d: i128 = rows[i].drift;
        let size: i128 = if d < 0 {
            -d
        } else {
            d
        };
        c.push(Candidate { index: i, first: size, second: 0 });
        i += 1;
    }
    assert(c@ =~= drift_candidates(views));
    let order = rank(&c);
    let mut out: Vec<usize> = Vec::new();
    let mut k: usize = 0;
    while k < order.len() && k < n
        invariant
            k <= order@.len(),
            k <= n,
            views == metric_views(rows@),
            c@ == drift_candidates(views),
            order@ == ranked(c@),
            out@.len() == k,
            forall|j: int|
                0 <= j < k ==> (#[trigger] out@[j]) < rows@.len() && out@[j] == order@[j].index,
        decreases order@.len() - k,
    {
        proof {
            let m = ranked_member(c@, k as int);
            assert(c@[m] == order@[k as int]);
        }
        out.push(order[k].index);
        k += 1;
    }
    out
}

fn drift_text(state: &PortfolioState, cfg: &AppConfig, high_water: &StrMap<Fixed>) -> (r: String)
    requires
        portfolio_within_limits(state@),
        settings_within_limits(cfg@),
        marks_within_limits(high_water@),
    ensures
        r@ == joined(
            drift_parts(
                top_drifts(
                    metrics(state@, cfg@.cash_buffer_pct, high_water@, EQUITY as nat),
                    4,
                ),
            ),
            " · "@,
        ),
{
    let rows = position_metrics(state, cfg.cash_buffer_pct, high_water);
    let ghost top = top_drifts(metric_views(rows@), 4);
    let order = largest_drifts(&rows, 4);
    let mut parts: Vec<String> = Vec::new();
    let mut i: usize = 0;
    while i < order.len()
        invariant
            i <= order@.len(),
            top == top_drifts(metric_views(rows@), 4),
            order@.len() == top.len(),
            forall|i: int| 0 <= i < rows@.len() ==> metric_bounded(#[trigger] rows@[i]@),
            forall|i: int|
                0 <= i < order@.len() ==> (#[trigger] order@[i]) < rows@.len() && rows@[order@[i] as int]@
                    == top[i],
            parts@.len() == i,
            forall|k: int| 0 <= k < i ==> #[trigger] parts@[k]@ == drift_parts(top)[k],
        decreases order@.len() - i,
    {
        let at: usize = order[i];
        let m = &rows[at];
        assert(metric_bounded(rows@[at as int]@));
        let mut s = m.ticker.clone();
        s.append(" ");
        s.append(percent_text(m.drift, 1, true).as_str());
        s.append("%");
        assert(s@ == drift_parts(top)[i as int]);
        parts.push(s);
        i += 1;
    }
    assert(texts(parts@) =~= drift_parts(top));
    join(&parts, " · ")
}

fn moon_text(state: &PortfolioState, cfg: &AppConfig) -> (r: String)
    requires
        portfolio_within_limits(state@),
    ensures
        r@ == moon_line_text(moon_parts(state@, cfg@, INVESTED as int)),
{
    let all = targets();
    let mut parts: Vec<String> = Vec::new();
    let mut n: usize = EQUITY;
    assert(texts(parts@) =~= moon_parts(state@, cfg@, EQUITY as int));
    while n < INVESTED
        invariant
            EQUITY <= n <= INVESTED,
            all@ == table(),
            all@.len() == COUNT,
            portfolio_within_limits(state@),
            texts(parts@) == moon_parts(state@, cfg@, n as int),
        decreases INVESTED - n,
    {
        let t: Target = all[n];
        proof {
            table_shape();
            assert(sound_instrument(table()[n as int].instrument));
        }
        if let Some(symbol) = instrument_symbol(&t, cfg) {
            proof {
                held_is_a_holding(state@, symbol@);
            }
            if let Some(h) = state.holding(symbol.as_str()) {
                assert(holding_within_limits(h@));
                let mut s = display_name(&t, cfg);
                s.append(" $");
                s.append(render(h.market_value, 0, false).as_str());
                s.append(" (");
                s.append(percent_text(h.unrealized_plpc, 0, true).as_str());
                s.append("%)");
                let ghost before = texts(parts@);
                let ghost v = s@;
                parts.push(s);
                assert(texts(parts@) =~= before.push(v));
            }
        }
        n += 1;
    }
    assert(texts(parts@).len() == parts@.len());
    if parts.len() == 0 {
        "".to_owned()
    } else {
        let mut s = "moonshot: ".to_owned();
        s.append(join(&parts, " · ").as_str());
        s.append("\n");
        s
    }
}

fn count_orders(results: &Vec<ExecResult>) -> (r: usize)
    ensures
        r == order_count(result_views(results@)),
        r <= results@.len(),
{
    let ghost all = result_views(results@);
    let mut n: usize = 0;
    let mut i: usize = 0;
    while i < results.len()
        invariant
            i <= results@.len(),
            all == result_views(results@),
            n == order_count(all.take(i as int)),
            n <= i,
        decreases results@.len() - i,
    {
        assert(all.take(i + 1).drop_last() == all.take(i as int));
        assert(all.take(i + 1).last() == results@[i as int]@);
        if results[i].qty > 0 {
            n += 1;
        }
        i += 1;
    }
    assert(all.take(all.len() as int) == all);
    n
}

/// The results can be written out.
pub open spec fn results_printable(v: Seq<ExecResult>) -> bool {
    forall|i: int|
        0 <= i < v.len() ==> i128::MIN < (#[trigger] v[i]).limit && i128::MIN < v[i].dollars
}

fn report_results(results: &Vec<ExecResult>) -> (r: String)
    requires
        results_printable(results@),
    ensures
        r@ == results_text(result_views(results@)),
{
    let ghost v = result_views(results@);
    if results.len() == 0 {
        return "actions: none — portfolio within rebalance band\n".to_owned();
    }
    let mut s = "actions: ".to_owned();
    s.append(decimal_text(count_orders(results) as u128).as_str());
    s.append(" order(s), ");
    s.append(decimal_text(advisory_count(results) as u128).as_str());
    s.append(" advisory\n");
    let ghost head = s@;
    let mut i: usize = 0;
    assert(head + ""@ =~= head) by {
        reveal_strlit("");
    }
    while i < results.len()
        invariant
            i <= results@.len(),
            v == result_views(results@),
            results_printable(results@),
            s@ == head + result_lines(v, i as int),
        decreases results@.len() - i,
    {
        let x = &results[i];
        assert(v[i as int] == x@);
        assert(i128::MIN < results@[i as int].limit);
        let mut l = "  ".to_owned();
        l.append(x.line().as_str());
        l.append("\n");
        assert(head + result_lines(v, i as int) + l@ =~= head + result_lines(v, i + 1));
        s.append(l.as_str());
        i += 1;
    }
    s
}

/// The digest of a run. `glide_target` is the value that the glide path has today.
pub fn build_digest(
    cfg: &AppConfig,
    today: Date,
    mode_label: &str,
    armed: bool,
    state: &PortfolioState,
    high_water: &StrMap<Fixed>,
    bias: &SignalBias,
    results: &Vec<ExecResult>,
    glide_target: Fixed,
) -> (r: String)
    requires
        portfolio_within_limits(state@),
        settings_within_limits(cfg@),
        marks_within_limits(high_water@),
        within(glide_target as int, 10_000 * LIMIT),
        results_printable(results@),
    ensures
        r@ == digest(
            cfg@,
            today@,
            mode_label@,
            armed,
            state@,
            high_water@,
            bias@,
            result_views(results@),
            glide_target as int,
        ),
{
    let mut s = head_and_nav(today, mode_label, armed, state, glide_target);
    s.append(regime(bias).as_str());
    s.append("clusters: ");
    s.append(cluster_text(state, cfg).as_str());
    s.append("\n");
    s.append("top drift: ");
    s.append(drift_text(state, cfg, high_water).as_str());
    s.append("\n");
    s.append(moon_text(state, cfg).as_str());
    s.append(report_results(results).as_str());
    s
}

/// While the book is being built it is never deployed twice: the protective part
/// of the plan buys nothing, and the tranche behind it stays within the cash
/// beyond the protected buffer.
pub proof fn a_building_book_never_double_deploys(w: Scene, start: Ymd)
    requires
        scene_within_limits(w),
        !book_complete(w.portfolio, w.settings),
    ensures
        cycle_plan(RunMode::Build, w, start) == plan(w, false) + tranche(
            w.portfolio,
            w.settings,
            w.asof,
            start,
        ),
        crate::rebalance::laws::no_buys(plan(w, false)),
        crate::rebalance::phased_build::spent(tranche(w.portfolio, w.settings, w.asof, start))
            <= crate::safety::deployable_cash(
            w.portfolio.cash,
            crate::rebalance::sizes::nav_of(w.portfolio),
            w.settings.cash_buffer_pct,
        ),
{
    crate::rebalance::laws::protective_never_buys(w);
    crate::rebalance::phased_build::a_tranche_keeps_the_buffer(
        w.portfolio,
        w.settings,
        w.asof,
        start,
    );
}

// ── cards ──────────────────────────────────────────────────────────────────

/// The name of a kind of action.
pub open spec fn action_name(k: ActionKind) -> Seq<char> {
    match k {
        ActionKind::Buy => "Buy"@,
        ActionKind::Trim => "Trim"@,
        ActionKind::ThesisRevalidate => "ThesisRevalidate"@,
    }
}

fn action_text(k: ActionKind) -> (r: &'static str)
    ensures
        r@ == action_name(k),
{
    match k {
        ActionKind::Buy => "Buy",
        ActionKind::Trim => "Trim",
        ActionKind::ThesisRevalidate => "ThesisRevalidate",
    }
}

/// The card of an action.
pub open spec fn is_card(j: Document, a: ActionView) -> bool {
    &&& text_in(j, "ticker"@) == Some(a.ticker)
    &&& text_in(j, "kind"@) == Some(action_name(a.kind))
    &&& member(j, "dollars"@) == Some(number_written(a.dollars))
    &&& text_in(j, "reason"@) == Some(a.reason)
}

/// The record of a result.
pub open spec fn is_record(j: Document, r: ResultView) -> bool {
    &&& text_in(j, "ticker"@) == Some(r.ticker)
    &&& text_in(j, "side"@) == Some(r.side)
    &&& member(j, "qty"@) == Some(whole_written(r.qty))
    &&& member(j, "limit"@) == Some(number_written(r.limit))
    &&& member(j, "dollars"@) == Some(number_written(r.dollars))
    &&& text_in(j, "status"@) == Some(r.status)
}

fn card(a: &Action) -> (r: Json)
    ensures
        is_card(r@, a@),
{
    let fields = vec![
        ("ticker".to_owned(), Json::Text(a.ticker.clone())),
        ("kind".to_owned(), Json::Text(action_text(a.kind).to_owned())),
        ("dollars".to_owned(), number_document(a.dollars)),
        ("reason".to_owned(), Json::Text(a.reason.clone())),
    ];
    let ghost all = members(fields@);
    proof {
        reveal_strlit("ticker");
        reveal_strlit("kind");
        reveal_strlit("dollars");
        reveal_strlit("reason");
        entry_at(all, 0);
        assert("ticker"@.len() != "kind"@.len());
        entry_at(all, 1);
        assert("ticker"@.len() != "dollars"@.len());
        assert("kind"@.len() != "dollars"@.len());
        entry_at(all, 2);
        assert("ticker"@[0] != "reason"@[0]);
        assert("kind"@.len() != "reason"@.len());
        assert("dollars"@.len() != "reason"@.len());
        entry_at(all, 3);
    }
    object(fields)
}

fn record(x: &ExecResult) -> (r: Json)
    ensures
        is_record(r@, x@),
{
    let qty = whole_document(x.qty);
    let fields = vec![
        ("ticker".to_owned(), Json::Text(x.ticker.clone())),
        ("side".to_owned(), Json::Text(x.side.clone())),
        ("qty".to_owned(), qty),
        ("limit".to_owned(), number_document(x.limit)),
        ("dollars".to_owned(), number_document(x.dollars)),
        ("status".to_owned(), Json::Text(x.status.clone())),
    ];
    let ghost all = members(fields@);
    proof {
        reveal_strlit("ticker");
        reveal_strlit("side");
        reveal_strlit("qty");
        reveal_strlit("limit");
        reveal_strlit("dollars");
        reveal_strlit("status");
        entry_at(all, 0);
        assert("ticker"@.len() != "side"@.len());
        entry_at(all, 1);
        assert("ticker"@.len() != "qty"@.len());
        assert("side"@.len() != "qty"@.len());
        entry_at(all, 2);
        assert("ticker"@.len() != "limit"@.len());
        assert("side"@.len() != "limit"@.len());
        assert("qty"@.len() != "limit"@.len());
        entry_at(all, 3);
        assert("ticker"@.len() != "dollars"@.len());
        assert("side"@.len() != "dollars"@.len());
        assert("qty"@.len() != "dollars"@.len());
        assert("limit"@.len() != "dollars"@.len());
        entry_at(all, 4);
        assert("ticker"@[0] != "status"@[0]);
        assert("side"@.len() != "status"@.len());
        assert("qty"@.len() != "status"@.len());
        assert("limit"@.len() != "status"@.len());
        assert("dollars"@.len() != "status"@.len());
        entry_at(all, 5);
    }
    object(fields)
}

/// The document of a cycle: its day and mode, the card of every action and the record
/// of every result, in their order.
pub fn cards_document(
    today: Date,
    mode_label: &str,
    armed: bool,
    actions: &Vec<Action>,
    results: &Vec<ExecResult>,
) -> (r: Json)
    ensures
        text_in(r@, "date"@) == Some(iso_text(today@)),
        text_in(r@, "mode"@) == Some(mode_label@),
        flag_in(r@, "armed"@) == Some(armed),
        list_in(r@, "actions"@) matches Some(cards) && cards.len() == actions@.len() && forall|i: int|
            0 <= i < cards.len() ==> is_card(#[trigger] cards[i], actions@[i]@),
        list_in(r@, "results"@) matches Some(records) && records.len() == results@.len() && forall|i: int|
            0 <= i < records.len() ==> is_record(#[trigger] records[i], results@[i]@),
{
    let mut cards: Vec<Json> = Vec::new();
    let mut i: usize = 0;
    while i < actions.len()
        invariant
            i <= actions@.len(),
            cards@.len() == i,
            forall|k: int| 0 <= k < i ==> is_card((#[trigger] cards@[k])@, actions@[k]@),
        decreases actions@.len() - i,
    {
        cards.push(card(&actions[i]));
        i += 1;
    }
    let mut records: Vec<Json> = Vec::new();
    let mut k: usize = 0;
    while k < results.len()
        invariant
            k <= results@.len(),
            records@.len() == k,
            forall|j: int| 0 <= j < k ==> is_record((#[trigger] records@[j])@, results@[j]@),
        decreases results@.len() - k,
    {
        records.push(record(&results[k]));
        k += 1;
    }
    let fields = vec![
        ("date".to_owned(), Json::Text(today.iso())),
        ("mode".to_owned(), Json::Text(mode_label.to_owned())),
        ("armed".to_owned(), Json::Bool(armed)),
        ("actions".to_owned(), array(cards)),
        ("results".to_owned(), array(records)),
    ];
    let ghost all = members(fields@);
    proof {
        reveal_strlit("date");
        reveal_strlit("mode");
        reveal_strlit("armed");
        reveal_strlit("actions");
        reveal_strlit("results");
        entry_at(all, 0);
        assert("date"@[0] != "mode"@[0]);
        entry_at(all, 1);
        assert("date"@.len() != "armed"@.len());
        assert("mode"@.len() != "armed"@.len());
        entry_at(all, 2);
        assert("date"@.len() != "actions"@.len());
        assert("mode"@.len() != "actions"@.len());
        assert("armed"@.len() != "actions"@.len());
        entry_at(all, 3);
        assert("date"@.len() != "results"@.len());
        assert("mode"@.len() != "results"@.len());
        assert("armed"@.len() != "results"@.len());
        assert("actions"@[0] != "results"@[0]);
        entry_at(all, 4);
    }
    object(fields)
}

/// The name of the document of a cycle.
pub fn cards_name(today: Date) -> (r: String)
    ensures
        r@ == "cards-"@ + iso_text(today@) + ".json"@,
{
    let mut r = "cards-".to_owned();
    r.append(today.iso().as_str());
    r.append(".json");
    r
}

} // verus!
