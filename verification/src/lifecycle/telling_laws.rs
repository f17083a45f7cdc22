//! What a run tells: every result, every moonshot, every alarm and every name that calls
//! for cash is in what is written.
use vstd::prelude::*;

use crate::config::Settings;
use crate::delivery::is_deliverable;
use crate::execute::{advisories, result_line, ResultView};
use crate::fixed::{decimal, percent, rendered};
use crate::json::{flag_in, text_in, Document};
use crate::lifecycle::audit::{alarm_line, alarm_lines, alarming, FindingView};
use crate::lifecycle::daily::{moon_parts, order_count, result_lines, results_text};
use crate::lifecycle::review_laws::{newly_said, still_said};
use crate::order_laws::{first_held, held_from_first};
use crate::portfolio::state::Portfolio;
use crate::portfolio::targets::{display_text, symbol_of, table, EQUITY, INVESTED};
use crate::rebalance::ledger::Ledger;
use crate::rebalance::outcome::orderly;
use crate::rebalance::promises::{a_fall_triggers, fallen_by_more, holds};
use crate::rebalance::rules::{
    aim, deployable, least_band, objections, scene_within_limits, slack, stressed, trace_line, trace_lines, triggered, verdict,
    veto_lines, Scene,
};
use crate::rebalance::signal_bias::Bias;
use crate::scheduler::recorded_day;
use crate::signals::daily_analysis::{dilution_parts, short_parts, DilutionView, ShortDataView};
use crate::str_map::lookup;
use crate::text::{occurs, stands_at, upper};

verus! {

// ── the digest ─────────────────────────────────────────────────────────────

proof fn a_line_is_said(v: Seq<ResultView>, n: int, k: int)
    requires
        0 <= k < n <= v.len(),
    ensures
        occurs(result_lines(v, n), result_line(v[k])),
    decreases n,
{
    let before = result_lines(v, n - 1);
    let line = "  "@ + result_line(v[n - 1]) + "\n"@;
    if k < n - 1 {
        a_line_is_said(v, n - 1, k);
        still_said(before, line, result_line(v[k]));
    } else {
        newly_said(before + "  "@, result_line(v[k]), "\n"@);
        assert(before + line =~= (before + "  "@) + (result_line(v[k]) + "\n"@));
    }
}

/// Every result is in the digest with its line; where there is none, it says that the
/// portfolio stands within its bands.
pub proof fn every_result_is_told(v: Seq<ResultView>)
    ensures
        forall|k: int| 0 <= k < v.len() ==> occurs(results_text(v), #[trigger] result_line(v[k])),
        v.len() == 0 ==> results_text(v) == "actions: none — portfolio within rebalance band\n"@,
{
    assert forall|k: int| 0 <= k < v.len() implies occurs(results_text(v), #[trigger] result_line(v[k])) by {
        a_line_is_said(v, v.len() as int, k);
        let lines = result_lines(v, v.len() as int);
        let head = "actions: "@ + decimal(order_count(v)) + " order(s), "@ + decimal(
            advisories(v),
        ) + " advisory\n"@;
        let i = choose|i: int| stands_at(lines, result_line(v[k]), i);
        let m = head.len() as int;
        assert((head + lines).subrange(m + i, m + i + result_line(v[k]).len()) =~= lines.subrange(
            i,
            i + result_line(v[k]).len(),
        ));
        assert(stands_at(head + lines, result_line(v[k]), m + i));
    }
}

/// A result counts as an order where it is for a unit or more, and as advice where that is
/// its status.
pub proof fn results_are_counted(v: Seq<ResultView>, r: ResultView)
    ensures
        order_count(seq![]) == 0 && advisories(seq![]) == 0,
        order_count(v.push(r)) == order_count(v) + if r.qty >= 1 {
            1int
        } else {
            0
        },
        advisories(v.push(r)) == advisories(v) + if r.status == "advisory"@ {
            1int
        } else {
            0
        },
{
    assert(v.push(r).drop_last() =~= v);
}

/// Every line of the moonshot sleeve that is held is in the digest with its name, its
/// value and its gain.
pub proof fn every_held_moonshot_is_told(p: Portfolio, s: Settings, n: int, i: int, symbol: Seq<char>, k: int)
    requires
        EQUITY <= i < n <= INVESTED,
        symbol_of(table()[i], s) == Some(symbol),
        first_held(p, symbol, k),
    ensures
        moon_parts(p, s, n).contains(
            display_text(table()[i], s) + " $"@ + rendered(p.holdings[k].market_value, 0, false) + " ("@ + percent(
                p.holdings[k].unrealized_plpc,
                0,
                true,
            ) + "%)"@,
        ),
    decreases n,
{
    let part = display_text(table()[i], s) + " $"@ + rendered(p.holdings[k].market_value, 0, false) + " ("@ + percent(
        p.holdings[k].unrealized_plpc,
        0,
        true,
    ) + "%)"@;
    let (before, all) = (moon_parts(p, s, n - 1), moon_parts(p, s, n));
    if i < n - 1 {
        every_held_moonshot_is_told(p, s, n - 1, i, symbol, k);
        let m = choose|m: int| 0 <= m < before.len() && before[m] == part;
        assert(all[m] == part);
    } else {
        held_from_first(p.holdings, upper(symbol), 0, k);
        assert(all[all.len() - 1] == part);
    }
}

// ── the alarm ──────────────────────────────────────────────────────────────

/// Every alarm is in the message with its line.
pub proof fn every_alarm_is_told(f: Seq<FindingView>, n: int, k: int)
    requires
        0 <= k < n <= f.len(),
        alarming(f[k].kind),
    ensures
        occurs(alarm_lines(f, n), alarm_line(f[k])),
    decreases n,
{
    let before = alarm_lines(f, n - 1);
    if k < n - 1 {
        every_alarm_is_told(f, n - 1, k);
        still_said(before, alarm_line(f[n - 1]), alarm_line(f[k]));
    } else {
        newly_said(before, alarm_line(f[k]), seq![]);
        assert(alarm_line(f[k]) + Seq::<char>::empty() =~= alarm_line(f[k]));
    }
}

/// A message is sent exactly where there is a text and a bot with its chat is set.
pub proof fn a_text_needs_a_bot_and_a_chat(cfg: Settings, text: Seq<char>)
    ensures
        is_deliverable(cfg, text) <==> text.len() != 0 && cfg.telegram_bot_token.len() != 0 && cfg.telegram_chat_id.len() != 0,
{
}

// ── the trace ──────────────────────────────────────────────────────────────

/// Every name that calls for cash is in the trace, however far it fell.
pub proof fn every_call_for_cash_is_traced(w: Scene, l: Ledger, deploy: bool, n: int, k: int, i: int)
    requires
        scene_within_limits(w),
        orderly(w),
        0 <= i < n <= EQUITY,
        (holds(w, k, i) && fallen_by_more(w, k, w.settings.drawdown_deploy_single_pct)) || stressed(w, table()[i].cluster@),
    ensures
        trace_lines(w, l, deploy, n).contains(trace_line(w, l, deploy, i)),
    decreases n,
{
    let (before, all) = (trace_lines(w, l, deploy, n - 1), trace_lines(w, l, deploy, n));
    if i < n - 1 {
        every_call_for_cash_is_traced(w, l, deploy, n - 1, k, i);
        let m = choose|m: int| 0 <= m < before.len() && before[m] == trace_line(w, l, deploy, i);
        assert(all[m] == before[m]);
    } else {
        if holds(w, k, i) && fallen_by_more(w, k, w.settings.drawdown_deploy_single_pct) {
            a_fall_triggers(w, k, i);
        }
        assert(triggered(w, i));
        assert(all[all.len() - 1] == trace_line(w, l, deploy, i));
    }
}

/// The trace calls a name eligible exactly where the plan deploys, the cash is worth
/// deploying and the name stands below its goal by more than its band; and its line names
/// it and ends with that.
pub proof fn the_trace_says_why(w: Scene, l: Ledger, deploy: bool, i: int)
    ensures
        verdict(w, l, deploy, i) == "eligible"@ <==> deploy && deployable(w, l) > least_band(w, EQUITY as int) && aim(w, i)
            - l.mv[i] > slack(w, i),
        !deploy ==> verdict(w, l, deploy, i) == "skipped: protective mode — the build stages own buying"@,
        ({
            let line = trace_line(w, l, deploy, i);
            let v = verdict(w, l, deploy, i);
            &&& occurs(line, "rule4: "@ + table()[i].ticker@ + " dd "@)
            &&& line.skip(line.len() - v.len()) == v
        }),
{
    reveal_strlit("eligible");
    reveal_strlit("blocked: deployable ≤ band");
    reveal_strlit("blocked: room ≤ band");
    reveal_strlit("skipped: protective mode — the build stages own buying");
    assert("eligible"@.len() == 8);
    assert("blocked: deployable ≤ band"@[0] == 'b' && "blocked: room ≤ band"@[0] == 'b' && "eligible"@[0] == 'e');
    assert("skipped: protective mode — the build stages own buying"@[0] == 's');
    let line = trace_line(w, l, deploy, i);
    let v = verdict(w, l, deploy, i);
    let head = "rule4: "@ + table()[i].ticker@ + " dd "@;
    assert(line.skip(line.len() - v.len()) =~= v);
    assert(line.subrange(0, head.len() as int) =~= head);
    assert(stands_at(line, head, 0));
}

/// Every name that the signal vetoes is in the trace with the reason, where the plan
/// deploys and the cash is worth deploying; a signal that is off vetoes nothing.
pub proof fn every_veto_is_traced(w: Scene, l: Ledger, deploy: bool, k: int)
    requires
        0 <= k < w.bias.buy_veto.len(),
    ensures
        deploy && w.bias.enabled && deployable(w, l) > least_band(w, EQUITY as int) ==> veto_lines(w, l, deploy).len()
            == w.bias.buy_veto.len() && occurs(veto_lines(w, l, deploy)[k], w.bias.buy_veto[k].0) && occurs(
            veto_lines(w, l, deploy)[k],
            w.bias.buy_veto[k].1,
        ),
        !deploy || !w.bias.enabled || deployable(w, l) <= least_band(w, EQUITY as int) ==> veto_lines(w, l, deploy).len() == 0,
{
    let (name, why) = w.bias.buy_veto[k];
    let middle = " buy VETOED this session by the contract — "@;
    if deploy && w.bias.enabled && deployable(w, l) > least_band(w, EQUITY as int) {
        let line = veto_lines(w, l, deploy)[k];
        newly_said("rule4: "@, name, middle + why);
        assert(line =~= "rule4: "@ + (name + (middle + why)));
        newly_said("rule4: "@ + name + middle, why, seq![]);
        assert(line =~= ("rule4: "@ + name + middle) + (why + Seq::<char>::empty()));
    }
}

/// What the signal holds against a name is named: the reason not to buy it, and a strongly
/// bearish record; nothing else.
pub proof fn every_objection_is_named(b: Bias, label: Seq<char>)
    ensures
        b.enabled && lookup(b.buy_veto, label) is Some ==> objections(b, label).contains(
            "contract: "@ + lookup(b.buy_veto, label)->0,
        ),
        b.enabled && b.strong_bearish.contains(label) ==> objections(b, label).contains(
            "daily-analysis: strong-bearish consensus"@,
        ),
        objections(b, label).len() == (if b.enabled && lookup(b.buy_veto, label) is Some {
            1int
        } else {
            0
        }) + if b.enabled && b.strong_bearish.contains(label) {
            1int
        } else {
            0
        },
{
    let o = objections(b, label);
    if b.enabled && lookup(b.buy_veto, label) is Some {
        assert(o[0] == "contract: "@ + lookup(b.buy_veto, label)->0);
    }
    if b.enabled && b.strong_bearish.contains(label) {
        assert(o[o.len() - 1] == "daily-analysis: strong-bearish consensus"@);
    }
}

// ── records ────────────────────────────────────────────────────────────────

/// A cycle that ran dry does not count as the day's run where orders are to be made; any
/// other cycle counts under the date of its record.
pub proof fn a_dry_run_does_not_count_when_armed(record: Document)
    ensures
        flag_in(record, "armed"@) != Some(true) ==> recorded_day(record, true) is None,
        flag_in(record, "armed"@) == Some(true) ==> recorded_day(record, true) == recorded_day(record, false),
        text_in(record, "date"@) is None ==> recorded_day(record, false) is None,
{
}

/// The finding on new shares names what there is: a sale that is going on, otherwise a
/// recent one, a shelf on file, and the growth of the share count.
pub proof fn the_dilution_is_named(d: DilutionView)
    ensures
        d.active_takedown ==> dilution_parts(d).contains("active 424B takedown"@),
        !d.active_takedown && d.recent_takedown ==> dilution_parts(d).contains("424B takedown ≤90d"@),
        d.shelf ==> dilution_parts(d).contains("shelf on file"@),
        d.share_growth_pct_yr matches Some(g) ==> dilution_parts(d).contains("shares "@ + rendered(g, 1, true) + "%/yr"@),
        dilution_parts(d).len() == (if d.active_takedown || d.recent_takedown {
            1int
        } else {
            0
        }) + (if d.shelf {
            1int
        } else {
            0
        }) + if d.share_growth_pct_yr is Some {
            1int
        } else {
            0
        },
{
    let parts = dilution_parts(d);
    let taken: int = if d.active_takedown || d.recent_takedown {
        1
    } else {
        0
    };
    if taken == 1 {
        assert(parts[0] == if d.active_takedown {
            "active 424B takedown"@
        } else {
            "424B takedown ≤90d"@
        });
    }
    if d.shelf {
        assert(parts[taken] == "shelf on file"@);
    }
    if let Some(g) = d.share_growth_pct_yr {
        assert(parts[parts.len() - 1] == "shares "@ + rendered(g, 1, true) + "%/yr"@);
    }
}

/// The summary of short interest names what is known of it, and nothing else.
pub proof fn the_short_interest_is_named(s: ShortDataView)
    ensures
        s.short_pct_float matches Some(x) ==> short_parts(s).contains(rendered(x, 1, false) + "% of float"@),
        s.days_to_cover matches Some(x) ==> short_parts(s).contains("DTC "@ + rendered(x, 1, false)),
        s.settlement_date matches Some(x) ==> short_parts(s).contains("settled "@ + x),
        short_parts(s).len() == (if s.short_pct_float is Some {
            1int
        } else {
            0
        }) + (if s.days_to_cover is Some {
            1int
        } else {
            0
        }) + if s.settlement_date is Some {
            1int
        } else {
            0
        },
{
    let parts = short_parts(s);
    let first: int = if s.short_pct_float is Some {
        1
    } else {
        0
    };
    if let Some(x) = s.short_pct_float {
        assert(parts[0] == rendered(x, 1, false) + "% of float"@);
    }
    if let Some(x) = s.days_to_cover {
        assert(parts[first] == "DTC "@ + rendered(x, 1, false));
    }
    if let Some(x) = s.settlement_date {
        assert(parts[parts.len() - 1] == "settled "@ + x);
    }
}

} // verus!
