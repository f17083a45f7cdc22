//! The phased build: the floor first, then the asymmetric names in daily
//! tranches, then the calls, then the micro-caps, always holding the cash buffer
//! back. Each run tops the active stages up towards their goals.
use vstd::math::{max, min};
use vstd::prelude::*;
use vstd::string::*;

use crate::calendar::{
    calendar_has_no_gaps, day_number, day_number_range, first_day, first_day_comes_first, on_calendar, Date,
    Ymd,
};
use crate::config::{settings_within_limits, AppConfig, Settings};
use crate::execute::{action_within_limits, actions_within_limits};
use crate::fixed::{integer_text, larger, signed_decimal, smaller, within, Fixed, LIMIT, ONE};
use crate::portfolio::state::{held_is_a_holding, portfolio_within_limits, value_held, Portfolio, PortfolioState};
use crate::portfolio::targets::{
    instrument_symbol, sound_instrument, symbol_of, table, table_shape, targets, tier_label, Instrument, Target, Tier, COUNT,
    INVESTED,
};
use crate::ranking::{rank, ranked, ranked_member, ranking_is_an_ordered_permutation, Candidate};
use crate::rebalance::sizes::{band, goal, goal_range, nav_of, Sizes};
use crate::rebalance::{action_views, buying, Action, ActionKind, ActionView};
use crate::safety::{cash_available_for_buys, deployable_cash};

verus! {

// ── trading days ───────────────────────────────────────────────────────────

/// The day with this number is no Saturday and no Sunday.
pub open spec fn is_weekday_number(n: int) -> bool {
    (n - 1) % 7 < 5
}

/// How many of the days numbered from `a` to `b` are weekdays.
pub open spec fn weekday_count(a: int, b: int) -> int
    decreases b - a + 1,
{
    if b < a {
        0
    } else {
        weekday_count(a, b - 1) + if is_weekday_number(b) {
            1int
        } else {
            0
        }
    }
}

/// The weekdays from `start` to `asof`, both of them counted; none where `asof`
/// comes first.
pub fn weekdays_between(start: Date, asof: Date) -> (r: i64)
    ensures
        r == weekday_count(day_number(start@), day_number(asof@)),
        0 <= r < 400_000_000,
{
    proof {
        use_type_invariant(start);
        use_type_invariant(asof);
        first_day_comes_first(start@);
        day_number_range(start@);
        day_number_range(asof@);
    }
    let span: i64 = asof.days_since(&start);
    let ghost a = day_number(start@);
    let mut n: i64 = 0;
    let mut d: i64 = 0;
    while d <= span
        invariant
            0 <= d,
            d <= span + 1 || span < 0,
            span < 200_000_000,
            on_calendar(start@),
            on_calendar(asof@),
            a == day_number(start@),
            span == day_number(asof@) - a,
            day_number(first_day()) <= a,
            span < 0 ==> d == 0,
            n == weekday_count(a, a + d - 1),
            0 <= n <= d,
        decreases span + 1 - d,
    {
        proof {
            let e = calendar_has_no_gaps(asof@, span - d);
            assert(on_calendar(e) && day_number(e) == day_number(start@) + d);
        }
        let day = start.plus_days(d);
        if day.weekday_from_monday() < 5 {
            n += 1;
        }
        d += 1;
    }
    n
}

/// No days are counted backwards, one day more counts at most one more, and any
/// seven days in a row hold five weekdays.
pub proof fn weekday_count_laws(a: int, b: int)
    ensures
        b < a ==> weekday_count(a, b) == 0,
        a <= b ==> weekday_count(a, b - 1) <= weekday_count(a, b) <= weekday_count(a, b - 1) + 1,
        a <= b + 1 ==> weekday_count(a, b + 7) == weekday_count(a, b) + 5,
{
    if a <= b + 1 {
        let m = b % 7;
        let d = |j: int| {
            if (m + j - 1) % 7 < 5 {
                1int
            } else {
                0
            }
        };
        assert forall|j: int| 1 <= j <= 7 implies #[trigger] weekday_count(a, b + j) == weekday_count(
            a,
            b + j - 1,
        ) + d(j) by {
            assert((b + j - 1) % 7 == (m + j - 1) % 7) by (nonlinear_arith)
                requires
                    m == b % 7,
            ;
        }
        assert(weekday_count(a, b + 1) == weekday_count(a, b) + d(1));
        assert(weekday_count(a, b + 2) == weekday_count(a, b + 1) + d(2));
        assert(weekday_count(a, b + 3) == weekday_count(a, b + 2) + d(3));
        assert(weekday_count(a, b + 4) == weekday_count(a, b + 3) + d(4));
        assert(weekday_count(a, b + 5) == weekday_count(a, b + 4) + d(5));
        assert(weekday_count(a, b + 6) == weekday_count(a, b + 5) + d(6));
        assert(weekday_count(a, b + 7) == weekday_count(a, b + 6) + d(7));
        assert(0 <= m < 7);
        assert(d(1) + d(2) + d(3) + d(4) + d(5) + d(6) + d(7) == 5);
    }
}

// ── stages ─────────────────────────────────────────────────────────────────

/// The stages of the build, in the order in which they are filled.
#[derive(Clone, Copy, Debug, PartialEq, Eq, Structural)]
pub enum Stage {
    Floor,
    Asymmetric,
    MoonLeaps,
    MoonMicro,
}

/// The stage that a line belongs to.
pub open spec fn stage_for(t: Target) -> Stage {
    match t.tier {
        Tier::Floor => Stage::Floor,
        Tier::Asymmetric => Stage::Asymmetric,
        Tier::Moonshot => if t.instrument is MicroCap {
            Stage::MoonMicro
        } else {
            Stage::MoonLeaps
        },
        Tier::Cash => Stage::MoonMicro,
    }
}

/// The stage that a line belongs to.
pub fn stage_of(t: &Target) -> (r: Stage)
    ensures
        r == stage_for(*t),
{
    match t.tier {
        Tier::Floor => Stage::Floor,
        Tier::Asymmetric => Stage::Asymmetric,
        Tier::Moonshot => match t.instrument {
            Instrument::MicroCap { slot } => Stage::MoonMicro,
            _ => Stage::MoonLeaps,
        },
        Tier::Cash => Stage::MoonMicro,
    }
}

/// The trading days after which a stage is active.
pub open spec fn stage_start(stage: Stage) -> int {
    match stage {
        Stage::Floor => i64::MIN as int,
        Stage::Asymmetric => 7,
        Stage::MoonLeaps => 14,
        Stage::MoonMicro => 21,
    }
}

/// Whether a stage is active after so many trading days.
pub fn active(stage: Stage, elapsed: i64) -> (r: bool)
    ensures
        r == (elapsed >= stage_start(stage)),
{
    match stage {
        Stage::Floor => true,
        Stage::Asymmetric => elapsed >= 7,
        Stage::MoonLeaps => elapsed >= 14,
        Stage::MoonMicro => elapsed >= 21,
    }
}

/// The stage at a place in the order of filling.
pub open spec fn stage_at(n: int) -> Stage {
    if n == 0 {
        Stage::Floor
    } else if n == 1 {
        Stage::Asymmetric
    } else if n == 2 {
        Stage::MoonLeaps
    } else {
        Stage::MoonMicro
    }
}

fn nth_stage(n: usize) -> (r: Stage)
    ensures
        r == stage_at(n as int),
{
    if n == 0 {
        Stage::Floor
    } else if n == 1 {
        Stage::Asymmetric
    } else if n == 2 {
        Stage::MoonLeaps
    } else {
        Stage::MoonMicro
    }
}

// ── completeness ───────────────────────────────────────────────────────────

/// What is held of a line, under the broker's symbol for it.
pub open spec fn current_value(p: Portfolio, s: Settings, t: Target) -> int {
    match symbol_of(t, s) {
        Some(symbol) => value_held(p, symbol),
        None => 0,
    }
}

/// A line is filled: there is nothing to buy for it, or it stands at or above its
/// goal, or within its band of it.
pub open spec fn line_filled(p: Portfolio, s: Settings, i: int) -> bool {
    let value = current_value(p, s, table()[i]);
    symbol_of(table()[i], s) is None || value >= goal(p, s, i) || goal(p, s, i) - value <= band(
        p,
        s,
        i,
    )
}

fn current_mv(t: &Target, state: &PortfolioState, cfg: &AppConfig) -> (r: Option<Fixed>)
    requires
        sound_instrument(t.instrument),
        portfolio_within_limits(state@),
    ensures
        r is None == (symbol_of(*t, cfg@) is None),
        r matches Some(v) ==> v == current_value(state@, cfg@, *t) && within(v as int, LIMIT as int),
{
    match instrument_symbol(t, cfg) {
        Some(symbol) => Some(state.market_value(symbol.as_str())),
        None => None,
    }
}

/// Whether every invested line is filled; a micro-cap slot that is not set counts
/// as filled, so the build can complete without it.
pub fn build_complete(state: &PortfolioState, cfg: &AppConfig) -> (r: bool)
    requires
        portfolio_within_limits(state@),
        settings_within_limits(cfg@),
    ensures
        r == (forall|i: int| 0 <= i < INVESTED ==> #[trigger] line_filled(state@, cfg@, i)),
{
    let all = targets();
    let sizes = Sizes::new(state, cfg);
    let mut i: usize = 0;
    while i < INVESTED
        invariant
            i <= INVESTED,
            all@ == table(),
            all@.len() == COUNT,
            portfolio_within_limits(state@),
            settings_within_limits(cfg@),
            sizes.measure(state@, cfg@),
            forall|k: int| 0 <= k < i ==> #[trigger] line_filled(state@, cfg@, k),
        decreases INVESTED - i,
    {
        proof {
            table_shape();
            assert(sound_instrument(table()[i as int].instrument));
        }
        if let Some(value) = current_mv(&all[i], state, cfg) {
            if value < sizes.goals[i] && sizes.goals[i] - value > sizes.bands[i] {
                assert(!line_filled(state@, cfg@, i as int));
                return false;
            }
        }
        assert(line_filled(state@, cfg@, i as int));
        i += 1;
    }
    true
}

// ── the tranche ────────────────────────────────────────────────────────────

/// What a line is short of its goal.
pub open spec fn shortfall(p: Portfolio, s: Settings, i: int) -> int {
    max(goal(p, s, i) - current_value(p, s, table()[i]), 0)
}

/// The lines among the first `n` that belong to a stage and are short by more
/// than a dollar.
pub open spec fn short_lines(p: Portfolio, s: Settings, stage: Stage, n: int) -> Seq<Candidate>
    decreases n,
{
    if n <= 0 {
        seq![]
    } else {
        let before = short_lines(p, s, stage, n - 1);
        let i = n - 1;
        if stage_for(table()[i]) == stage && symbol_of(table()[i], s) is Some && shortfall(p, s, i)
            > ONE {
            before.push(Candidate { index: i as usize, first: shortfall(p, s, i) as i128, second: 0 })
        } else {
            before
        }
    }
}

/// Why a line is bought.
pub open spec fn build_reason(tier: Tier, elapsed: int) -> Seq<char> {
    "build "@ + tier_label(tier) + " — day "@ + signed_decimal(elapsed)
        + " of phased accumulation"@
}

/// Buys, and the cash that is left behind them.
#[verifier::ext_equal]
pub struct Fill {
    pub actions: Seq<ActionView>,
    pub cash: int,
}

/// Fills the candidates in order, each as far as its shortfall, the cash and the
/// stage's budget reach; a buy of a dollar or less is not made.
pub open spec fn filled(c: Seq<Candidate>, cash: int, budget: int, elapsed: int) -> Fill
    decreases c.len(),
{
    if c.len() == 0 || cash <= 0 || budget <= 0 {
        Fill { actions: seq![], cash }
    } else {
        let t = table()[c[0].index as int];
        let take = min(min(c[0].first as int, cash), budget);
        if take > ONE {
            let rest = filled(c.drop_first(), cash - take, budget - take, elapsed);
            Fill {
                actions: seq![buying(t.ticker@, take, build_reason(t.tier, elapsed))] + rest.actions,
                cash: rest.cash,
            }
        } else {
            filled(c.drop_first(), cash, budget, elapsed)
        }
    }
}

/// What a stage may spend: the asymmetric stage a daily budget, the others all.
pub open spec fn stage_budget(s: Settings, stage: Stage, cash: int) -> int {
    if stage == Stage::Asymmetric {
        min(s.build_daily_budget, cash)
    } else {
        cash
    }
}

/// One stage of the tranche.
pub open spec fn stage_filled(p: Portfolio, s: Settings, stage: Stage, elapsed: int, cash: int) -> Fill {
    if elapsed >= stage_start(stage) && cash > 0 {
        filled(
            ranked(short_lines(p, s, stage, INVESTED as int)),
            cash,
            stage_budget(s, stage, cash),
            elapsed,
        )
    } else {
        Fill { actions: seq![], cash }
    }
}

/// The first `n` stages of the tranche.
pub open spec fn stages_filled(p: Portfolio, s: Settings, elapsed: int, n: int) -> Fill
    decreases n,
{
    if n <= 0 {
        Fill { actions: seq![], cash: deployable_cash(p.cash, nav_of(p), s.cash_buffer_pct) }
    } else {
        let before = stages_filled(p, s, elapsed, n - 1);
        let next = stage_filled(p, s, stage_at(n - 1), elapsed, before.cash);
        Fill { actions: before.actions + next.actions, cash: next.cash }
    }
}

/// The tranche of a day.
pub open spec fn tranche(p: Portfolio, s: Settings, asof: Ymd, start: Ymd) -> Seq<ActionView> {
    stages_filled(p, s, weekday_count(day_number(start), day_number(asof)), 4).actions
}

/// The candidates are invested lines, each short by more than a dollar.
pub open spec fn fillable(p: Portfolio, s: Settings, stage: Stage, c: Seq<Candidate>) -> bool {
    forall|k: int|
        0 <= k < c.len() ==> (#[trigger] c[k]).index < INVESTED && c[k].first == shortfall(
            p,
            s,
            c[k].index as int,
        ) && ONE < c[k].first <= 3_000 * LIMIT && stage_for(table()[c[k].index as int]) == stage
}

fn find_short(
    state: &PortfolioState,
    cfg: &AppConfig,
    sizes: &Sizes,
    stage: Stage,
) -> (r: Vec<Candidate>)
    requires
        portfolio_within_limits(state@),
        settings_within_limits(cfg@),
        sizes.measure(state@, cfg@),
    ensures
        r@ == short_lines(state@, cfg@, stage, INVESTED as int),
        fillable(state@, cfg@, stage, r@),
{
    let all = targets();
    let mut out: Vec<Candidate> = Vec::new();
    let mut i: usize = 0;
    while i < INVESTED
        invariant
            i <= INVESTED,
            all@ == table(),
            all@.len() == COUNT,
            portfolio_within_limits(state@),
            settings_within_limits(cfg@),
            sizes.measure(state@, cfg@),
            out@ == short_lines(state@, cfg@, stage, i as int),
            fillable(state@, cfg@, stage, out@),
        decreases INVESTED - i,
    {
        proof {
            table_shape();
            assert(sound_instrument(table()[i as int].instrument));
        }
        if stage_of(&all[i]) == stage {
            if let Some(value) = current_mv(&all[i], state, cfg) {
                let short: i128 = larger(sizes.goals[i] - value, 0);
                if short > ONE {
                    out.push(Candidate { index: i, first: short, second: 0 });
                }
            }
        }
        i += 1;
    }
    out
}

fn fill_stage(
    ordered: &Vec<Candidate>,
    cash: Fixed,
    budget: Fixed,
    elapsed: i64,
    actions: &mut Vec<Action>,
) -> (left: Fixed)
    requires
        forall|k: int|
            0 <= k < ordered@.len() ==> (#[trigger] ordered@[k]).index < INVESTED && ONE
                < ordered@[k].first <= 3_000 * LIMIT,
        0 <= cash <= LIMIT,
        within(budget as int, LIMIT as int),
    ensures
        left == filled(ordered@, cash as int, budget as int, elapsed as int).cash,
        0 <= left <= cash,
        action_views(final(actions)@) == action_views(old(actions)@) + filled(
            ordered@,
            cash as int,
            budget as int,
            elapsed as int,
        ).actions,
{
    let all = targets();
    let ghost start = action_views(actions@);
    let ghost whole = filled(ordered@, cash as int, budget as int, elapsed as int);
    let ghost mut done: Seq<ActionView> = seq![];
    let mut left: i128 = cash;
    let mut free: i128 = budget;
    let mut k: usize = 0;
    assert(ordered@.skip(0) == ordered@);
    assert(start =~= start + done);
    assert(done + whole.actions =~= whole.actions);
    while k < ordered.len() && left > 0 && free > 0
        invariant
            k <= ordered@.len(),
            all@ == table(),
            all@.len() == COUNT,
            forall|k: int|
                0 <= k < ordered@.len() ==> (#[trigger] ordered@[k]).index < INVESTED && ONE
                    < ordered@[k].first <= 3_000 * LIMIT,
            0 <= left <= cash <= LIMIT,
            within(free as int, LIMIT as int),
            whole.cash == filled(
                ordered@.skip(k as int),
                left as int,
                free as int,
                elapsed as int,
            ).cash,
            whole.actions == done + filled(
                ordered@.skip(k as int),
                left as int,
                free as int,
                elapsed as int,
            ).actions,
            action_views(actions@) == start + done,
        decreases ordered@.len() - k,
    {
        let ghost rest = ordered@.skip(k as int);
        let c: Candidate = ordered[k];
        assert(rest[0] == c);
        assert(rest.drop_first() == ordered@.skip(k + 1));
        let take: i128 = smaller(smaller(c.first, left), free);
        if take > ONE {
            let t: Target = all[c.index];
            let mut reason = "build ".to_owned();
            reason.append(t.tier.label());
            reason.append(" — day ");
            reason.append(integer_text(elapsed as i128).as_str());
            reason.append(" of phased accumulation");
            let ghost before = action_views(actions@);
            let a = Action::buy(t.ticker, take, reason.as_str());
            let ghost v = a@;
            actions.push(a);
            assert(action_views(actions@) =~= before.push(v));
            proof {
                let tail = filled(
                    ordered@.skip(k + 1),
                    left - take,
                    free - take,
                    elapsed as int,
                ).actions;
                assert(done + (seq![v] + tail) =~= done.push(v) + tail);
                assert(before.push(v) =~= start + done.push(v));
                done = done.push(v);
            }
            left = left - take;
            free = free - take;
        }
        k += 1;
    }
    assert(done + Seq::<ActionView>::empty() =~= done);
    left
}

/// Plans the tranche of a day.
pub fn plan_build(state: &PortfolioState, cfg: &AppConfig, asof: Date, start: Date) -> (r: Vec<Action>)
    requires
        portfolio_within_limits(state@),
        settings_within_limits(cfg@),
    ensures
        action_views(r@) == tranche(state@, cfg@, asof@, start@),
{
    let sizes = Sizes::new(state, cfg);
    let elapsed: i64 = weekdays_between(start, asof);
    let mut cash: i128 = cash_available_for_buys(state.cash, sizes.nav, cfg.cash_buffer_pct);
    let mut actions: Vec<Action> = Vec::new();
    let mut n: usize = 0;
    assert(action_views(actions@) =~= stages_filled(state@, cfg@, elapsed as int, 0).actions);
    while n < 4
        invariant
            n <= 4,
            portfolio_within_limits(state@),
            settings_within_limits(cfg@),
            sizes.measure(state@, cfg@),
            0 <= cash <= LIMIT,
            cash == stages_filled(state@, cfg@, elapsed as int, n as int).cash,
            action_views(actions@) == stages_filled(state@, cfg@, elapsed as int, n as int).actions,
        decreases 4 - n,
    {
        let stage: Stage = nth_stage(n);
        let ghost before = stages_filled(state@, cfg@, elapsed as int, n as int);
        if active(stage, elapsed) && cash > 0 {
            let found = find_short(state, cfg, &sizes, stage);
            let ordered = rank(&found);
            proof {
                ranking_is_an_ordered_permutation(found@);
                assert forall|k: int| 0 <= k < ordered@.len() implies (#[trigger] ordered@[k]).index
                    < INVESTED && ONE < ordered@[k].first <= 3_000 * LIMIT by {
                    let j = ranked_member(found@, k);
                    assert(found@[j] == ordered@[k]);
                }
            }
            let budget: i128 = if stage == Stage::Asymmetric {
                smaller(cfg.build_daily_budget, cash)
            } else {
                cash
            };
            cash = fill_stage(&ordered, cash, budget, elapsed, &mut actions);
        } else {
            assert(before.actions + Seq::<ActionView>::empty() =~= before.actions);
        }
        n += 1;
    }
    actions
}

// ── laws of the tranche ────────────────────────────────────────────────────

/// The dollars of some buys together.
pub open spec fn spent(s: Seq<ActionView>) -> int
    decreases s.len(),
{
    if s.len() == 0 {
        0
    } else {
        spent(s.drop_last()) + s.last().dollars
    }
}

proof fn spent_of_sum(a: Seq<ActionView>, b: Seq<ActionView>)
    ensures
        spent(a + b) == spent(a) + spent(b),
    decreases b.len(),
{
    if b.len() == 0 {
        assert(a + b =~= a);
    } else {
        assert((a + b).drop_last() =~= a + b.drop_last());
        spent_of_sum(a, b.drop_last());
    }
}

/// A buy of more than a dollar of a line of the stage, up to its goal at most.
pub open spec fn sound_buy(p: Portfolio, s: Settings, stage: Stage, a: ActionView, i: int) -> bool {
    &&& 0 <= i < INVESTED
    &&& a.kind == ActionKind::Buy
    &&& a.ticker == table()[i].ticker@
    &&& stage_for(table()[i]) == stage
    &&& ONE < a.dollars <= shortfall(p, s, i)
}

/// Such a buy of some line.
pub open spec fn buys_a_line(p: Portfolio, s: Settings, stage: Stage, a: ActionView) -> bool {
    exists|i: int| sound_buy(p, s, stage, a, i)
}

/// Every proposal is such a buy.
pub open spec fn sound_buys(p: Portfolio, s: Settings, stage: Stage, v: Seq<ActionView>) -> bool {
    forall|k: int| 0 <= k < v.len() ==> buys_a_line(p, s, stage, #[trigger] v[k])
}

proof fn filled_facts(
    p: Portfolio,
    s: Settings,
    stage: Stage,
    c: Seq<Candidate>,
    cash: int,
    budget: int,
    elapsed: int,
)
    requires
        fillable(p, s, stage, c),
        0 <= cash,
    ensures
        ({
            let f = filled(c, cash, budget, elapsed);
            &&& 0 <= f.cash <= cash
            &&& spent(f.actions) == cash - f.cash
            &&& spent(f.actions) <= max(budget, 0)
            &&& sound_buys(p, s, stage, f.actions)
        }),
    decreases c.len(),
{
    let f = filled(c, cash, budget, elapsed);
    if c.len() == 0 || cash <= 0 || budget <= 0 {
    } else {
        let rest = c.drop_first();
        assert forall|k: int| 0 <= k < rest.len() implies (#[trigger] rest[k]).index < INVESTED
            && rest[k].first == shortfall(p, s, rest[k].index as int) && ONE < rest[k].first <= 3_000
            * LIMIT && stage_for(table()[rest[k].index as int]) == stage by {
            assert(rest[k] == c[k + 1]);
        }
        let i = c[0].index as int;
        let t = table()[i];
        let take = min(min(c[0].first as int, cash), budget);
        if take > ONE {
            let tail = filled(rest, cash - take, budget - take, elapsed);
            filled_facts(p, s, stage, rest, cash - take, budget - take, elapsed);
            let a = buying(t.ticker@, take, build_reason(t.tier, elapsed));
            spent_of_sum(seq![a], tail.actions);
            assert(seq![a].drop_last() =~= Seq::<ActionView>::empty());
            assert(spent(Seq::<ActionView>::empty()) == 0);
            assert(seq![a].last().dollars == take);
            assert(spent(seq![a]) == take);
            assert forall|k: int| 0 <= k < f.actions.len() implies buys_a_line(
                p,
                s,
                stage,
                #[trigger] f.actions[k],
            ) by {
                if k == 0 {
                    assert(c[0].first == shortfall(p, s, i));
                    assert(sound_buy(p, s, stage, f.actions[0], i));
                } else {
                    assert(f.actions[k] == tail.actions[k - 1]);
                }
            }
        } else {
            filled_facts(p, s, stage, rest, cash, budget, elapsed);
        }
    }
}

proof fn short_lines_fillable(p: Portfolio, s: Settings, stage: Stage, n: int)
    requires
        portfolio_within_limits(p),
        settings_within_limits(s),
        n <= INVESTED,
    ensures
        fillable(p, s, stage, short_lines(p, s, stage, n)),
    decreases n,
{
    if n > 0 {
        short_lines_fillable(p, s, stage, n - 1);
        let i = n - 1;
        goal_range(p, s, i);
        if let Some(symbol) = symbol_of(table()[i], s) {
            held_is_a_holding(p, symbol);
        }
        let (before, all) = (short_lines(p, s, stage, n - 1), short_lines(p, s, stage, n));
        assert forall|k: int| 0 <= k < all.len() implies (#[trigger] all[k]).index < INVESTED
            && all[k].first == shortfall(p, s, all[k].index as int) && ONE < all[k].first <= 3_000
            * LIMIT && stage_for(table()[all[k].index as int]) == stage by {
            if k < before.len() {
                assert(all[k] == before[k]);
            }
        }
    }
}

/// One stage of a tranche buys lines of its own only, each for more than a dollar
/// and up to its goal at most; what it spends comes out of the cash, and the
/// asymmetric stage spends no more than the daily budget.
pub proof fn a_stage_stays_within_its_budget(
    p: Portfolio,
    s: Settings,
    stage: Stage,
    elapsed: int,
    cash: int,
)
    requires
        portfolio_within_limits(p),
        settings_within_limits(s),
        0 <= cash,
    ensures
        ({
            let f = stage_filled(p, s, stage, elapsed, cash);
            &&& 0 <= f.cash <= cash
            &&& spent(f.actions) == cash - f.cash
            &&& stage == Stage::Asymmetric ==> spent(f.actions) <= max(s.build_daily_budget, 0)
            &&& sound_buys(p, s, stage, f.actions)
            &&& elapsed < stage_start(stage) ==> f.actions.len() == 0
        }),
{
    let found = short_lines(p, s, stage, INVESTED as int);
    let c = ranked(found);
    short_lines_fillable(p, s, stage, INVESTED as int);
    ranking_is_an_ordered_permutation(found);
    assert forall|k: int| 0 <= k < c.len() implies (#[trigger] c[k]).index < INVESTED && c[k].first
        == shortfall(p, s, c[k].index as int) && ONE < c[k].first <= 3_000 * LIMIT && stage_for(
        table()[c[k].index as int],
    ) == stage by {
        let j = ranked_member(found, k);
        assert(found[j] == c[k]);
    }
    filled_facts(p, s, stage, c, cash, stage_budget(s, stage, cash), elapsed);
}

proof fn stages_stay_within_cash(p: Portfolio, s: Settings, elapsed: int, n: int)
    requires
        portfolio_within_limits(p),
        settings_within_limits(s),
        0 <= n,
    ensures
        ({
            let f = stages_filled(p, s, elapsed, n);
            &&& 0 <= f.cash
            &&& spent(f.actions) == deployable_cash(p.cash, nav_of(p), s.cash_buffer_pct) - f.cash
        }),
    decreases n,
{
    if n > 0 {
        stages_stay_within_cash(p, s, elapsed, n - 1);
        let before = stages_filled(p, s, elapsed, n - 1);
        a_stage_stays_within_its_budget(p, s, stage_at(n - 1), elapsed, before.cash);
        spent_of_sum(
            before.actions,
            stage_filled(p, s, stage_at(n - 1), elapsed, before.cash).actions,
        );
    }
}

/// A tranche never deploys the cash buffer: its buys together cost no more than
/// the cash beyond it.
pub proof fn a_tranche_keeps_the_buffer(p: Portfolio, s: Settings, asof: Ymd, start: Ymd)
    requires
        portfolio_within_limits(p),
        settings_within_limits(s),
    ensures
        spent(tranche(p, s, asof, start)) <= deployable_cash(p.cash, nav_of(p), s.cash_buffer_pct),
{
    stages_stay_within_cash(p, s, weekday_count(day_number(start), day_number(asof)), 4);
}

/// The buy is of a line of an active stage.
pub open spec fn buys_an_active_line(p: Portfolio, s: Settings, elapsed: int, a: ActionView) -> bool {
    exists|stage: Stage| elapsed >= stage_start(stage) && #[trigger] buys_a_line(p, s, stage, a)
}

/// Every buy of a tranche belongs to an active stage.
pub open spec fn of_active_stages(p: Portfolio, s: Settings, elapsed: int, v: Seq<ActionView>) -> bool {
    forall|k: int| 0 <= k < v.len() ==> buys_an_active_line(p, s, elapsed, #[trigger] v[k])
}

proof fn stages_are_active(p: Portfolio, s: Settings, elapsed: int, n: int)
    requires
        portfolio_within_limits(p),
        settings_within_limits(s),
        0 <= n,
    ensures
        of_active_stages(p, s, elapsed, stages_filled(p, s, elapsed, n).actions),
    decreases n,
{
    if n > 0 {
        stages_are_active(p, s, elapsed, n - 1);
        stages_stay_within_cash(p, s, elapsed, n - 1);
        let before = stages_filled(p, s, elapsed, n - 1);
        let stage = stage_at(n - 1);
        let next = stage_filled(p, s, stage, elapsed, before.cash);
        a_stage_stays_within_its_budget(p, s, stage, elapsed, before.cash);
        let all = before.actions + next.actions;
        assert forall|k: int| 0 <= k < all.len() implies buys_an_active_line(
            p,
            s,
            elapsed,
            #[trigger] all[k],
        ) by {
            if k < before.actions.len() {
                assert(all[k] == before.actions[k]);
            } else {
                assert(all[k] == next.actions[k - before.actions.len()]);
                assert(buys_a_line(p, s, stage, all[k]));
            }
        }
        assert(stages_filled(p, s, elapsed, n).actions == all);
    }
}

/// A tranche buys lines of active stages only: before the seventh trading day
/// nothing but the floor, no call before the fourteenth, no micro-cap before the
/// twenty-first.
pub proof fn a_tranche_buys_active_stages_only(p: Portfolio, s: Settings, asof: Ymd, start: Ymd)
    requires
        portfolio_within_limits(p),
        settings_within_limits(s),
    ensures
        of_active_stages(
            p,
            s,
            weekday_count(day_number(start), day_number(asof)),
            tranche(p, s, asof, start),
        ),
{
    stages_are_active(p, s, weekday_count(day_number(start), day_number(asof)), 4);
}

/// Every buy of a tranche is of a size that can be reckoned with.
pub proof fn a_tranche_is_sized(p: Portfolio, s: Settings, asof: Ymd, start: Ymd)
    requires
        portfolio_within_limits(p),
        settings_within_limits(s),
    ensures
        actions_within_limits(tranche(p, s, asof, start)),
{
    let elapsed = weekday_count(day_number(start), day_number(asof));
    let v = tranche(p, s, asof, start);
    a_tranche_buys_active_stages_only(p, s, asof, start);
    assert forall|k: int| 0 <= k < v.len() implies action_within_limits(#[trigger] v[k]) by {
        assert(buys_an_active_line(p, s, elapsed, v[k]));
        let stage = choose|stage: Stage| elapsed >= stage_start(stage) && #[trigger] buys_a_line(p, s, stage, v[k]);
        let i = choose|i: int| sound_buy(p, s, stage, v[k], i);
        goal_range(p, s, i);
        if let Some(symbol) = symbol_of(table()[i], s) {
            held_is_a_holding(p, symbol);
        }
    }
}

/// A filled line is not short by more than its band, so a book that is complete
/// has nothing left to build beyond the bands.
pub proof fn a_filled_line_is_near_its_goal(p: Portfolio, s: Settings, i: int)
    requires
        line_filled(p, s, i),
        symbol_of(table()[i], s) is Some,
    ensures
        shortfall(p, s, i) <= max(band(p, s, i), 0),
{
}

} // verus!
