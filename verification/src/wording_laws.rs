//! What a message says, and when it says it.
use vstd::prelude::*;

use crate::alpaca::OrderRequest;
use crate::alpaca_data::byte_prefix;
use crate::broker_laws::a_sale_of_an_option_closes;
use crate::calendar::Ymd;
use crate::config::{applied, default_settings, overridden, Settings};
use crate::execute::{blocker, requests, under_one, DraftView, ResolvedView};
use crate::fixed::{magnitude, percent, ratio, rendered, signed_decimal, FAR, ONE};
use crate::json::{tree_document, Document, Tree};
use crate::lifecycle::audit::{alarming, wrong_leg, FindingKind, FindingView};
use crate::lifecycle::daily::{book_complete, cycle_label, moon_line_text, pace_text, regime_line, RunMode};
use crate::lifecycle::review_laws::newly_said;
use crate::numerals::{decimal_value, whole_value};
use crate::numr::rounded;
use crate::portfolio::metrics::inception;
use crate::portfolio::state::Portfolio;
use crate::portfolio::targets::{tier_label, Tier};
use crate::rebalance::ledger::{merged, TrimView};
use crate::rebalance::phased_build::build_reason;
use crate::rebalance::rules::{
    cluster_reason, deploy_reason, position_reason, review_reason, theme_reason, time_stop_reason, Scene,
};
use crate::rebalance::signal_bias::multiplier;
use crate::rebalance::sizes::nav_of;
use crate::run::{cluster_text, finding_text, kind_name};
use crate::text::{joined, occurs, stands_at, upper};
use crate::writing_laws::{a_written_price_reads_as_its_cents, a_written_whole_number_reads_as_itself};

verus! {

// ── orders ─────────────────────────────────────────────────────────────────

/// A request asks for what the order says: its symbol, its units and its limit as they
/// read, the side, a limit order for the day; an option order also says whether it opens or
/// closes, and only an option order does.
pub proof fn a_request_asks_for_its_order(q: OrderRequest, d: DraftView)
    requires
        requests(q, d),
        magnitude(rounded(d.limit, 2)) <= FAR,
    ensures
        q.symbol@ == d.symbol,
        whole_value(q.qty@, true) == Some(d.qty),
        decimal_value(q.limit_price@) == Some(rounded(d.limit, 2)),
        d.buy ==> q.side@ == "buy"@,
        !d.buy ==> q.side@ == "sell"@,
        q.kind@ == "limit"@,
        q.time_in_force@ == "day"@,
        d.is_option && d.buy ==> (q.position_intent matches Some(i) && i@ == "buy_to_open"@),
        d.is_option && !d.buy ==> (q.position_intent matches Some(i) && i@ == "sell_to_close"@),
        !d.is_option ==> q.position_intent is None,
{
    a_written_whole_number_reads_as_itself(d.qty);
    a_written_price_reads_as_its_cents(d.limit);
    a_sale_of_an_option_closes();
}

/// A buy below one unit is said to block the build exactly where it is short by more than
/// its band and yet by less than the unit.
pub proof fn a_blocker_is_named(planned: int, band: int, unit: int)
    ensures
        planned > band && planned < unit ==> occurs(blocker(planned, band, unit), "BLOCKS build_complete"@),
        planned <= band || planned >= unit ==> blocker(planned, band, unit).len() == 0,
{
    if planned > band && planned < unit {
        reveal_strlit(" — BLOCKS build_complete: shortfall $");
        reveal_strlit("BLOCKS build_complete");
        let text = blocker(planned, band, unit);
        assert(text.subrange(3, 24) =~= "BLOCKS build_complete"@);
        assert("BLOCKS build_complete"@.len() == 21);
        assert(stands_at(text, "BLOCKS build_complete"@, 3));
    } else {
        reveal_strlit("");
    }
}

/// A call that costs more than its dollars is told apart from a share that does.
pub proof fn a_call_too_dear_is_named(r: ResolvedView, dollars: int)
    ensures
        !r.is_option ==> under_one(r, dollars) == "rounds to < 1 share"@,
        r.is_option ==> occurs(under_one(r, dollars), rendered(r.unit_price, 0, false)),
{
    if r.is_option {
        let end = "/contract > slot cap $"@ + rendered(dollars, 0, false)
            + " — skipped (raise the slot alloc or pick a cheaper strike/expiry)"@;
        newly_said("LEAPS premium ~$"@, rendered(r.unit_price, 0, false), end);
        assert(under_one(r, dollars) =~= "LEAPS premium ~$"@ + (rendered(r.unit_price, 0, false) + end));
    }
}

// ── reviews and flags ──────────────────────────────────────────────────────

/// A floor name is said to stand in the zone where it is cut exactly where it has lost at
/// least as much as the stop.
pub proof fn the_cut_zone_is_named(plpc: int, stop: int)
    ensures
        plpc <= -stop <==> review_reason(plpc, stop).last() == ')',
        occurs(review_reason(plpc, stop), percent(plpc, 0, false)),
{
    reveal_strlit("% — re-validate thesis");
    reveal_strlit(" (≤ -35% cut zone — exit if a pillar is broken)");
    reveal_strlit("");
    let end = if plpc <= -stop {
        " (≤ -35% cut zone — exit if a pillar is broken)"@
    } else {
        ""@
    };
    let rest = "% — re-validate thesis"@ + end;
    newly_said("Floor down "@, percent(plpc, 0, false), rest);
    assert(review_reason(plpc, stop) =~= "Floor down "@ + (percent(plpc, 0, false) + rest));
}

/// The flag of a call tells how many days are left.
pub proof fn the_days_left_are_named(days: int)
    ensures
        occurs(time_stop_reason(days), signed_decimal(days)),
{
    let end = " DTE ≤ 60 — time-stop window; if deeply OTM accept zero, else roll to a NEW thesis"@;
    newly_said("LEAPS "@, signed_decimal(days), end);
    assert(time_stop_reason(days) =~= "LEAPS "@ + (signed_decimal(days) + end));
}

// ── the audit ──────────────────────────────────────────────────────────────

/// A put is called a put, and a call that is short a short call.
pub proof fn a_put_is_called_a_put(root: Seq<char>, expiry: Ymd, strike: int)
    ensures
        stands_at(wrong_leg(root, expiry, false, strike), "PUT"@, 0),
        stands_at(wrong_leg(root, expiry, true, strike), "SHORT call leg"@, 0),
{
    let (a, b) = (wrong_leg(root, expiry, false, strike), wrong_leg(root, expiry, true, strike));
    assert(a.subrange(0, "PUT"@.len() as int) =~= "PUT"@);
    assert(b.subrange(0, "SHORT call leg"@.len() as int) =~= "SHORT call leg"@);
}

/// The line of a finding says whether it is an alarm, and what it is about.
pub proof fn a_finding_says_what_it_is(f: FindingView)
    ensures
        stands_at(finding_text(f), if alarming(f.kind) {
            "ALARM"@
        } else {
            "note "@
        }, 2),
        occurs(finding_text(f), f.symbol),
        f.kind == FindingKind::ShortPosition || f.kind == FindingKind::NonLongCallOption || f.kind == FindingKind::Untracked
            <==> alarming(f.kind),
{
    reveal_strlit("  ");
    let word = if alarming(f.kind) {
        "ALARM"@
    } else {
        "note "@
    };
    let text = finding_text(f);
    let n = word.len() as int;
    assert("  "@.len() == 2);
    assert(text.subrange(2, 2 + n) =~= word);
    let head = "  "@ + word + "     : "@ + kind_name(f.kind) + " "@;
    let end = " qty "@ + rendered(f.qty, 0, true) + " mv $"@ + rendered(f.market_value, 0, true) + " — "@ + f.detail;
    newly_said(head, f.symbol, end);
    assert(text =~= head + (f.symbol + end));
}

/// A cluster over its cap is marked in its row, and no other is.
pub proof fn a_row_marks_what_is_over(name: Seq<char>, current: int, target: int, cap: int)
    ensures
        current > cap <==> cluster_text(name, current, target, cap).last() == 'R',
{
    reveal_strlit(" ⚠ OVER");
    reveal_strlit("%)");
    reveal_strlit("");
    assert(" ⚠ OVER"@.last() == 'R' && "%)"@.last() == ')');
    let text = cluster_text(name, current, target, cap);
    if current > cap {
        assert(text.last() == " ⚠ OVER"@.last());
    } else {
        assert(text.last() == "%)"@.last());
    }
}

// ── the digest ─────────────────────────────────────────────────────────────

/// A run is called by what it follows: maintenance, the build, or the build of a book that
/// is complete.
pub proof fn a_run_is_called_by_its_plan(mode: RunMode, p: Portfolio, s: Settings)
    ensures
        mode == RunMode::Maintenance ==> cycle_label(mode, p, s) == "maintenance"@,
        mode == RunMode::Build && !book_complete(p, s) ==> cycle_label(mode, p, s) == "build"@,
        mode == RunMode::Build && book_complete(p, s) ==> cycle_label(mode, p, s) == "build→maintenance (book complete)"@,
{
}

/// The pace has a plus sign where the account is not behind; the regime is told exactly
/// where there is a score, and the moonshots where one is held.
pub proof fn the_digest_tells_what_there_is(delta: int, score: i64, parts: Seq<Seq<char>>)
    ensures
        delta >= 0 ==> pace_text(delta) == "+"@ + percent(delta, 1, false),
        delta < 0 ==> pace_text(delta) == percent(delta, 1, false),
        regime_line(None).len() == 0,
        occurs(regime_line(Some(score)), signed_decimal(score as int)),
        parts.len() == 0 ==> moon_line_text(parts).len() == 0,
        parts.len() > 0 ==> occurs(moon_line_text(parts), joined(parts, " · "@)),
{
    reveal_strlit("");
    assert(""@ + percent(delta, 1, false) =~= percent(delta, 1, false));
    let end = "/100 · deploy mult "@ + rendered(multiplier(Some(score)), 2, false) + "\n"@;
    newly_said("macro regime "@, signed_decimal(score as int), end);
    assert(regime_line(Some(score)) =~= "macro regime "@ + (signed_decimal(score as int) + end));
    if parts.len() > 0 {
        let text = joined(parts, " · "@);
        newly_said("moonshot: "@, text, "\n"@);
        assert(moon_line_text(parts) =~= "moonshot: "@ + (text + "\n"@));
    }
}

// ── settings and documents ─────────────────────────────────────────────────

/// The numbers that hold where nothing else is said.
pub proof fn the_numbers_that_hold_by_default()
    ensures
        ({
            let s = default_settings();
            &&& s.cash_buffer_pct == 5 * ONE / 100
            &&& s.position_trim_trigger_pct == 15 * ONE / 100
            &&& s.position_trim_target_pct == 10 * ONE / 100
            &&& s.cluster_cap_pct == 30 * ONE / 100
            &&& s.theme_drift_band_pct == 12 * ONE / 100
            &&& s.position_stop_pct == 35 * ONE / 100
            &&& s.drawdown_deploy_pct == 15 * ONE / 100
            &&& s.drawdown_deploy_single_pct == 25 * ONE / 100
            &&& s.rebalance_band_pct == 3 * ONE / 100
            &&& s.max_orders_per_day == 10
            &&& s.build_daily_budget == 2_000 * ONE
            &&& s.target_nav_start == 40_000 * ONE
            &&& s.target_cagr == 26 * ONE / 100
            &&& s.target_horizon_years == 3 * ONE
            &&& s.paper_mode && s.signal_bias_enabled && s.catchup_on_start && !s.live_trading_enabled
        }),
        inception() == (Ymd { year: 2026, month: 6, day: 22 }),
{
}

/// The variables of the process count under their names in upper case, each on top of those
/// before it.
pub proof fn later_variables_count_more(s: Settings, vars: Seq<(String, String)>, v: (String, String))
    ensures
        overridden(s, seq![]) == s,
        overridden(s, vars.push(v)) == applied(overridden(s, vars), upper(v.0@), v.1@),
{
    assert(vars.push(v).drop_last() =~= vars);
}

/// The first bytes of a text whose front is ASCII are its first characters; a text that is
/// shorter has none.
pub proof fn ascii_bytes_are_characters(s: Seq<char>, n: nat)
    requires
        forall|k: int| 0 <= k < s.len() && k < n ==> 0 <= #[trigger] s[k] < 128,
    ensures
        s.len() >= n ==> byte_prefix(s, n as int) == Some(s.take(n as int)),
        s.len() < n ==> byte_prefix(s, n as int) is None,
    decreases n,
{
    if n > 0 && s.len() > 0 {
        let rest = s.drop_first();
        let m = (n - 1) as nat;
        assert forall|k: int| 0 <= k < rest.len() && k < m implies 0 <= #[trigger] rest[k] < 128 by {
            assert(rest[k] == s[k + 1]);
        }
        ascii_bytes_are_characters(rest, m);
        assert(0 <= s[0] < 128);
        if s.len() >= n {
            assert(seq![s[0]] + rest.take(m as int) =~= s.take(n as int));
        }
    } else if n == 0 {
        assert(s.take(0) =~= seq![]);
    }
}

/// A document keeps the shape of what was parsed: texts and truth values as they are, the
/// items of an array in their order, and a number by its value, whole where it is written
/// as a whole number of 64 bits.
pub proof fn a_document_keeps_its_shape(s: Seq<char>, b: bool, items: Seq<Tree>, k: int)
    ensures
        tree_document(Tree::Null) == Document::Null,
        tree_document(Tree::Bool(b)) == Document::Bool(b),
        tree_document(Tree::Text(s)) == Document::Text(s),
        tree_document(Tree::Array(items)) matches Document::Array(v) && v.len() == items.len() && (0 <= k < items.len()
            ==> v[k] == tree_document(items[k])),
        decimal_value(s) matches Some(x) ==> (tree_document(Tree::Number(s)) matches Document::Number { value, whole } && value
            == x && (whole is Some <==> (whole_value(s, true) matches Some(n) && i64::MIN <= n <= i64::MAX)) && (
        whole matches Some(m) ==> whole_value(s, true) == Some(m as int))),
{
}

// ── reasons ────────────────────────────────────────────────────────────────

/// A second sale of a name is joined to the first: the dollars add up, and both reasons
/// are kept.
pub proof fn a_joined_trim_keeps_both_reasons(t: TrimView, dollars: int, reason: Seq<char>)
    ensures
        merged(Some(t), dollars, reason).dollars == t.dollars + dollars,
        occurs(merged(Some(t), dollars, reason).reason, t.reason),
        occurs(merged(Some(t), dollars, reason).reason, reason),
        merged(None, dollars, reason) == (TrimView { dollars, reason }),
{
    let text = merged(Some(t), dollars, reason).reason;
    newly_said(seq![], t.reason, "; "@ + reason);
    assert(text =~= Seq::<char>::empty() + (t.reason + ("; "@ + reason)));
    newly_said(t.reason + "; "@, reason, seq![]);
    assert(text =~= (t.reason + "; "@) + (reason + Seq::<char>::empty()));
}

/// The reason of a cap names the share that was found, and the cap: of the position, of the
/// cluster by its name, of the theme by its name.
pub proof fn a_cap_names_the_share_it_found(w: Scene, name: Seq<char>, value: int, target: int)
    ensures
        ({
            let share = percent(ratio(value, nav_of(w.portfolio)), 1, false);
            &&& occurs(position_reason(w, value), share + "% > "@ + percent(w.settings.position_trim_trigger_pct, 0, false))
            &&& occurs(cluster_reason(w, name, value), name + "' "@ + share + "% > "@ + percent(w.settings.cluster_cap_pct, 0, false))
            &&& occurs(theme_reason(w, name, value, target), name + "' "@ + share + "% > target "@ + percent(target, 1, false))
        }),
{
    let share = percent(ratio(value, nav_of(w.portfolio)), 1, false);
    let (a, b, c) = (
        share + "% > "@ + percent(w.settings.position_trim_trigger_pct, 0, false),
        name + "' "@ + share + "% > "@ + percent(w.settings.cluster_cap_pct, 0, false),
        name + "' "@ + share + "% > target "@ + percent(target, 1, false),
    );
    let end = "% cap → trim to "@ + percent(w.settings.position_trim_target_pct, 0, false) + "%"@;
    newly_said("position "@, a, end);
    assert(position_reason(w, value) =~= "position "@ + (a + end));
    newly_said("cluster '"@, b, "% cap → trim"@);
    assert(cluster_reason(w, name, value) =~= "cluster '"@ + (b + "% cap → trim"@));
    let rest = "% + "@ + percent(w.settings.theme_drift_band_pct, 0, false) + "pp drift band → trim"@;
    newly_said("theme '"@, c, rest);
    assert(theme_reason(w, name, value, target) =~= "theme '"@ + (c + rest));
}

/// The reason of a buy names the fall that called for it, or the tier and the day of the
/// build.
pub proof fn a_buy_names_what_called_for_it(fall: int, tier: Tier, elapsed: int)
    ensures
        occurs(deploy_reason(fall), "down "@ + percent(fall, 0, false) + "% from high"@),
        occurs(build_reason(tier, elapsed), "day "@ + signed_decimal(elapsed)),
        stands_at(build_reason(tier, elapsed), "build "@ + tier_label(tier), 0),
{
    reveal_strlit("drawdown deploy: down ");
    reveal_strlit("drawdown deploy: ");
    reveal_strlit("down ");
    reveal_strlit("% from high, below target → add");
    reveal_strlit("% from high");
    reveal_strlit(", below target → add");
    let a = "down "@ + percent(fall, 0, false) + "% from high"@;
    newly_said("drawdown deploy: "@, a, ", below target → add"@);
    assert("drawdown deploy: down "@ =~= "drawdown deploy: "@ + "down "@);
    assert("% from high, below target → add"@ =~= "% from high"@ + ", below target → add"@);
    assert(deploy_reason(fall) =~= "drawdown deploy: "@ + (a + ", below target → add"@));
    reveal_strlit(" — day ");
    reveal_strlit(" — ");
    reveal_strlit("day ");
    let b = "day "@ + signed_decimal(elapsed);
    assert(" — day "@ =~= " — "@ + "day "@);
    newly_said("build "@ + tier_label(tier) + " — "@, b, " of phased accumulation"@);
    let text = build_reason(tier, elapsed);
    assert(text =~= ("build "@ + tier_label(tier) + " — "@) + (b + " of phased accumulation"@));
    let head = "build "@ + tier_label(tier);
    assert(text.subrange(0, head.len() as int) =~= head);
}

/// The tiers by their names.
pub proof fn the_tiers_have_names()
    ensures
        tier_label(Tier::Floor) == "Floor"@,
        tier_label(Tier::Asymmetric) == "Asym"@,
        tier_label(Tier::Moonshot) == "Moon"@,
        tier_label(Tier::Cash) == "Cash"@,
{
}

} // verus!
