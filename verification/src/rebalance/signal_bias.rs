//! The nightly signal as a bias. The rules decide what is permitted; this layer
//! only orders the permitted choices, holds a name back from buying on a severe
//! finding, and slows the deployment of cash in a stressed market.
use vstd::math::{max, min};
use vstd::prelude::*;
use vstd::string::*;

use crate::config::{AppConfig, Settings};
use crate::fixed::{floor_div, larger, portion, smaller, times, within, Fixed, LIMIT, ONE};
use crate::rebalance::rules::objections;
use crate::signals::daily_analysis::{
    conviction, dilution_detail, strong_bearish, strong_bullish, AnalysisView, DailyAnalysis, Fundamentals,
    FundamentalsView, QuantView,
};
use crate::str_map::{included, inserted, inserted_entry, lookup, lookup_found, StrMap, StrSet};
use crate::text::same;

verus! {

/// The weight of the fundamentals beside the conviction: a quarter.
pub const FUND_TILT_WEIGHT: i128 = 250_000_000_000;

/// The nightly signal of all names.
#[derive(Debug, Clone)]
pub struct SignalBias {
    pub enabled: bool,
    /// The conviction of a name, between -1 and 1 where it was read from a record.
    pub conviction: StrMap<Fixed>,
    pub strong_bearish: StrSet,
    pub strong_bullish: StrSet,
    /// The market regime, from 0 for stress to 100 for calm.
    pub macro_score: Option<i64>,
    /// The fundamentals of a name as one number from -1 to 1.
    pub fund_tilt: StrMap<Fixed>,
    /// The names that must not be bought now, each with the reason.
    pub buy_veto: StrMap<String>,
}

/// The signal as plain values.
#[verifier::ext_equal]
pub struct Bias {
    pub enabled: bool,
    pub conviction: Seq<(Seq<char>, i128)>,
    pub strong_bearish: Seq<Seq<char>>,
    pub strong_bullish: Seq<Seq<char>>,
    pub macro_score: Option<i64>,
    pub fund_tilt: Seq<(Seq<char>, i128)>,
    pub buy_veto: Seq<(Seq<char>, Seq<char>)>,
}

impl View for SignalBias {
    type V = Bias;

    open spec fn view(&self) -> Bias {
        Bias {
            enabled: self.enabled,
            conviction: self.conviction@,
            strong_bearish: self.strong_bearish@,
            strong_bullish: self.strong_bullish@,
            macro_score: self.macro_score,
            fund_tilt: self.fund_tilt@,
            buy_veto: self.buy_veto@,
        }
    }
}

/// The signal that says nothing.
pub open spec fn silent(enabled: bool) -> Bias {
    Bias {
        enabled,
        conviction: seq![],
        strong_bearish: seq![],
        strong_bullish: seq![],
        macro_score: None,
        fund_tilt: seq![],
        buy_veto: seq![],
    }
}

impl Default for SignalBias {
    fn default() -> (r: Self)
        ensures
            r@ == silent(false),
    {
        SignalBias {
            enabled: false,
            conviction: StrMap::new(),
            strong_bearish: StrSet::new(),
            strong_bullish: StrSet::new(),
            macro_score: None,
            fund_tilt: StrMap::new(),
            buy_veto: StrMap::new(),
        }
    }
}

/// The numbers of a signal are of a size that the rules can reckon with.
pub open spec fn bias_within_limits(b: Bias) -> bool {
    &&& values_within(b.conviction, LIMIT as int)
    &&& values_within(b.fund_tilt, LIMIT as int)
}

/// The convictions and the tilts lie between -1 and 1.
pub open spec fn bias_in_range(b: Bias) -> bool {
    &&& values_within(b.conviction, ONE as int)
    &&& values_within(b.fund_tilt, ONE as int)
}

/// Every value of a map lies within `[-bound, bound]`.
pub open spec fn values_within(m: Seq<(Seq<char>, i128)>, bound: int) -> bool {
    forall|i: int| 0 <= i < m.len() ==> within(#[trigger] m[i].1 as int, bound)
}

// ── fundamentals ───────────────────────────────────────────────────────────

/// `x` brought into the range from -1 to 1.
pub open spec fn clamped(x: int) -> int {
    max(-ONE, min(ONE as int, x))
}

/// How cheap the name is against its own history: 50 % off the median is all the way.
pub open spec fn valuation_term(f: FundamentalsView) -> Option<int> {
    match f.p_ocf_vs_median_pct {
        Some(v) => Some(clamped(-v / 50)),
        None => None,
    }
}

/// How the operating margin moves: five points are all the way.
pub open spec fn margin_term(f: FundamentalsView) -> Option<int> {
    match f.op_margin_trend_pp {
        Some(t) => Some(clamped(t / 5)),
        None => None,
    }
}

/// Whether a spending cycle is paid for by a growing cash-flow margin.
pub open spec fn spending_term(f: FundamentalsView) -> Option<int> {
    match (f.capex_cycle, f.ocf_margin_trend_pp) {
        (Some(true), Some(o)) => Some(
            if o > 0 {
                ONE as int
            } else {
                -ONE
            },
        ),
        _ => None,
    }
}

/// A term that may be missing, times its weight in hundredths.
pub open spec fn weighed(term: Option<int>, hundredths: int) -> int {
    match term {
        Some(x) => hundredths * x,
        None => 0,
    }
}

/// The weight in hundredths of a term, nothing where it is missing.
pub open spec fn counted(term: Option<int>, hundredths: int) -> int {
    match term {
        Some(x) => hundredths,
        None => 0,
    }
}

/// The fundamentals as one number from -1 to 1: the mean of the known terms,
/// valuation at 55, margin at 30 and spending at 15 hundredths; 0 where none is known.
pub open spec fn tilt(f: FundamentalsView) -> int {
    let weight = counted(valuation_term(f), 55) + counted(margin_term(f), 30) + counted(
        spending_term(f),
        15,
    );
    if weight == 0 {
        0
    } else {
        (weighed(valuation_term(f), 55) + weighed(margin_term(f), 30) + weighed(
            spending_term(f),
            15,
        )) / weight
    }
}

/// The tilt lies between -1 and 1.
pub proof fn tilt_stays_in_range(f: FundamentalsView)
    ensures
        -ONE <= tilt(f) <= ONE,
{
    let w = counted(valuation_term(f), 55) + counted(margin_term(f), 30) + counted(
        spending_term(f),
        15,
    );
    let n = weighed(valuation_term(f), 55) + weighed(margin_term(f), 30) + weighed(
        spending_term(f),
        15,
    );
    if w != 0 {
        assert(-ONE * w <= n <= ONE * w);
        vstd::arithmetic::div_mod::lemma_fundamental_div_mod(n, w);
        let q = n / w;
        assert(-1_000_000_000_000 <= q <= 1_000_000_000_000) by (nonlinear_arith)
            requires
                n == w * q + n % w,
                0 <= n % w < w,
                0 < w,
                -1_000_000_000_000 * w <= n <= 1_000_000_000_000 * w,
        ;
    }
}

/// The numbers of the fundamentals can be negated.
pub open spec fn fundamentals_within_limits(f: FundamentalsView) -> bool {
    f.p_ocf_vs_median_pct matches Some(v) ==> i128::MIN < v
}

fn clamp_unit(x: Fixed) -> (r: Fixed)
    ensures
        r == clamped(x as int),
{
    larger(-ONE, smaller(ONE, x))
}

/// The fundamentals as one number from -1 to 1.
pub fn fundamentals_tilt(f: &Fundamentals) -> (r: Fixed)
    requires
        fundamentals_within_limits(f@),
    ensures
        r == tilt(f@),
        -ONE <= r <= ONE,
{
    let mut sum: i128 = 0;
    let mut weight: i128 = 0;
    if let Some(v) = f.p_ocf_vs_median_pct {
        sum = 55 * clamp_unit(floor_div(-v, 50));
        weight = 55;
    }
    if let Some(t) = f.op_margin_trend_pp {
        sum = sum + 30 * clamp_unit(floor_div(t, 5));
        weight = weight + 30;
    }
    if let Some(true) = f.capex_cycle {
        if let Some(o) = f.ocf_margin_trend_pp {
            sum = if o > 0 {
                sum + 15 * ONE
            } else {
                sum - 15 * ONE
            };
            weight = weight + 15;
        }
    }
    proof {
        tilt_stays_in_range(f@);
    }
    if weight == 0 {
        0
    } else {
        floor_div(sum, weight)
    }
}

// ── what the signal says of a name ─────────────────────────────────────────

/// A value of a map where the signal is on, otherwise 0.
pub open spec fn value_of(enabled: bool, m: Seq<(Seq<char>, i128)>, ticker: Seq<char>) -> int {
    if enabled {
        match lookup(m, ticker) {
            Some(x) => x as int,
            None => 0,
        }
    } else {
        0
    }
}

/// The conviction of a name.
pub open spec fn conviction_of(b: Bias, ticker: Seq<char>) -> int {
    value_of(b.enabled, b.conviction, ticker)
}

/// The tilt of a name.
pub open spec fn tilt_of(b: Bias, ticker: Seq<char>) -> int {
    value_of(b.enabled, b.fund_tilt, ticker)
}

/// The key that names are ordered by: the conviction and a quarter of the tilt.
pub open spec fn priority(b: Bias, ticker: Seq<char>) -> int {
    conviction_of(b, ticker) + times(tilt_of(b, ticker), FUND_TILT_WEIGHT as int)
}

/// The reason not to buy a name now.
pub open spec fn veto_of(b: Bias, ticker: Seq<char>) -> Option<Seq<char>> {
    if b.enabled {
        lookup(b.buy_veto, ticker)
    } else {
        None
    }
}

/// The share of the deployable cash that the market regime releases: half of it
/// under 30, all of it from 70 on, linear between; all of it without a score.
pub open spec fn multiplier(score: Option<i64>) -> int {
    match score {
        Some(s) => if s < 30 {
            500_000_000_000
        } else if s >= 70 {
            ONE as int
        } else {
            12_500_000_000 * (s + 10)
        },
        None => ONE as int,
    }
}

proof fn value_bound(enabled: bool, m: Seq<(Seq<char>, i128)>, ticker: Seq<char>)
    requires
        values_within(m, LIMIT as int),
    ensures
        within(value_of(enabled, m, ticker), LIMIT as int),
{
    lookup_found(m, ticker);
    if let Some(x) = lookup(m, ticker) {
        let i = choose|i: int| 0 <= i < m.len() && #[trigger] m[i] == (ticker, x);
        assert(within(m[i].1 as int, LIMIT as int));
    }
}

/// The key of a name is of bounded size.
pub proof fn priority_bound(b: Bias, ticker: Seq<char>)
    requires
        bias_within_limits(b),
    ensures
        within(priority(b, ticker), 2 * LIMIT),
        within(conviction_of(b, ticker), LIMIT as int),
        within(tilt_of(b, ticker), LIMIT as int),
{
    value_bound(b.enabled, b.conviction, ticker);
    value_bound(b.enabled, b.fund_tilt, ticker);
}

// ── building the signal ────────────────────────────────────────────────────

/// The fundamentals of an analysis.
pub open spec fn fundamentals_in(q: Option<QuantView>) -> Option<FundamentalsView> {
    match q {
        Some(q) => q.fundamentals,
        None => None,
    }
}

/// The reason not to buy that an analysis gives: a severe finding on new shares.
pub open spec fn veto_in(q: Option<QuantView>) -> Option<Seq<char>> {
    match q {
        Some(q) => match q.dilution {
            Some(d) => if d.severity == "severe"@ {
                Some("dilution severe: "@ + dilution_detail(d))
            } else {
                None
            },
            None => None,
        },
        None => None,
    }
}

/// The signal after one more analysis; one that was not found changes nothing.
pub open spec fn with_analysis(b: Bias, a: AnalysisView) -> Bias {
    if !a.found {
        b
    } else {
        Bias {
            enabled: b.enabled,
            conviction: inserted(b.conviction, a.ticker, conviction(a) as i128),
            strong_bearish: if strong_bearish(a) {
                included(b.strong_bearish, a.ticker)
            } else {
                b.strong_bearish
            },
            strong_bullish: if strong_bullish(a) {
                included(b.strong_bullish, a.ticker)
            } else {
                b.strong_bullish
            },
            macro_score: b.macro_score,
            fund_tilt: match fundamentals_in(a.quant) {
                Some(f) => inserted(b.fund_tilt, a.ticker, tilt(f) as i128),
                None => b.fund_tilt,
            },
            buy_veto: match veto_in(a.quant) {
                Some(why) => inserted(b.buy_veto, a.ticker, why),
                None => b.buy_veto,
            },
        }
    }
}

/// The signal after the first `n` analyses.
pub open spec fn with_analyses(analyses: Seq<AnalysisView>, n: int) -> Bias
    decreases n,
{
    if n <= 0 {
        silent(true)
    } else {
        with_analysis(with_analyses(analyses, n - 1), analyses[n - 1])
    }
}

/// The signal that the settings, the analyses and the regime score give; it says
/// nothing where the settings switch it off.
pub open spec fn loaded(s: Settings, analyses: Seq<AnalysisView>, macro_score: Option<i64>) -> Bias {
    if s.signal_bias_enabled {
        Bias { macro_score, ..with_analyses(analyses, analyses.len() as int) }
    } else {
        silent(false)
    }
}

/// The numbers of an analysis are of a size that the rules can reckon with.
pub open spec fn analysis_within_limits(a: AnalysisView) -> bool {
    &&& fundamentals_in(a.quant) matches Some(f) ==> fundamentals_within_limits(f)
    &&& a.quant matches Some(q) ==> (q.dilution matches Some(d) ==> (
    d.share_growth_pct_yr matches Some(g) ==> i128::MIN < g))
}

/// Whether the numbers of an analysis are of a size that the rules can reckon with.
pub fn analysis_fits(a: &DailyAnalysis) -> (r: bool)
    ensures
        r == analysis_within_limits(a@),
{
    match &a.quant {
        Some(q) => {
            let valuation = match &q.fundamentals {
                Some(f) => match f.p_ocf_vs_median_pct {
                    Some(v) => v != i128::MIN,
                    None => true,
                },
                None => true,
            };
            let growth = match &q.dilution {
                Some(d) => match d.share_growth_pct_yr {
                    Some(g) => g != i128::MIN,
                    None => true,
                },
                None => true,
            };
            valuation && growth
        },
        None => true,
    }
}

proof fn inserted_values(m: Seq<(Seq<char>, i128)>, k: Seq<char>, v: i128, bound: int)
    requires
        values_within(m, bound),
        within(v as int, bound),
    ensures
        values_within(inserted(m, k, v), bound),
{
    let t = inserted(m, k, v);
    assert forall|i: int| 0 <= i < t.len() implies within(#[trigger] t[i].1 as int, bound) by {
        inserted_entry(m, k, v, i);
    }
}

impl SignalBias {
    fn take(&mut self, a: &DailyAnalysis)
        requires
            analysis_within_limits(a@),
            bias_in_range(old(self)@),
        ensures
            final(self)@ == with_analysis(old(self)@, a@),
            bias_in_range(final(self)@),
    {
        if !a.found {
            return;
        }
        let c: i128 = a.signed_conviction();
        proof {
            inserted_values(self.conviction@, a.ticker@, c, ONE as int);
        }
        self.conviction.insert(a.ticker.clone(), c);
        if let Some(q) = &a.quant {
            if let Some(f) = &q.fundamentals {
                let t: i128 = fundamentals_tilt(f);
                proof {
                    inserted_values(self.fund_tilt@, a.ticker@, t, ONE as int);
                }
                self.fund_tilt.insert(a.ticker.clone(), t);
            }
            if let Some(d) = &q.dilution {
                if same(d.severity.as_str(), "severe") {
                    let mut why = "dilution severe: ".to_owned();
                    why.append(d.detail().as_str());
                    self.buy_veto.insert(a.ticker.clone(), why);
                }
            }
        }
        if a.is_strong_bearish() {
            let _new = self.strong_bearish.insert(a.ticker.clone());
        }
        if a.is_strong_bullish() {
            let _new = self.strong_bullish.insert(a.ticker.clone());
        }
    }

    /// The signal that the settings, the analyses and the regime score give.
    pub fn load(cfg: &AppConfig, analyses: &Vec<DailyAnalysis>, macro_score: Option<i64>) -> (r: Self)
        requires
            forall|i: int| 0 <= i < analyses@.len() ==> analysis_within_limits(#[trigger] analyses@[i]@),
        ensures
            r@ == loaded(cfg@, analyses@.map_values(|a: DailyAnalysis| a@), macro_score),
            bias_in_range(r@),
            bias_within_limits(r@),
    {
        let mut b = SignalBias::default();
        b.enabled = cfg.signal_bias_enabled;
        if !b.enabled {
            return b;
        }
        let ghost all = analyses@.map_values(|a: DailyAnalysis| a@);
        let mut i: usize = 0;
        while i < analyses.len()
            invariant
                i <= analyses@.len(),
                all == analyses@.map_values(|a: DailyAnalysis| a@),
                forall|i: int|
                    0 <= i < analyses@.len() ==> analysis_within_limits(#[trigger] analyses@[i]@),
                bias_in_range(b@),
                b@ == with_analyses(all, i as int),
            decreases analyses@.len() - i,
        {
            assert(all[i as int] == analyses@[i as int]@);
            b.take(&analyses[i]);
            i += 1;
        }
        b.macro_score = macro_score;
        b
    }

    fn value(&self, m: &StrMap<Fixed>, ticker: &str) -> (r: Fixed)
        ensures
            r == value_of(self.enabled, m@, ticker@),
    {
        if !self.enabled {
            return 0;
        }
        match m.get(ticker) {
            Some(x) => *x,
            None => 0,
        }
    }

    /// The conviction of a name; 0 where the signal is off or silent on it.
    pub fn conviction_of(&self, ticker: &str) -> (r: Fixed)
        ensures
            r == conviction_of(self@, ticker@),
    {
        self.value(&self.conviction, ticker)
    }

    /// The tilt of a name; 0 where the signal is off or silent on it.
    pub fn fund_tilt_of(&self, ticker: &str) -> (r: Fixed)
        ensures
            r == tilt_of(self@, ticker@),
    {
        self.value(&self.fund_tilt, ticker)
    }

    /// The key among trims: the smaller one is trimmed earlier.
    pub fn trim_priority(&self, ticker: &str) -> (r: Fixed)
        requires
            bias_within_limits(self@),
        ensures
            r == priority(self@, ticker@),
            within(r as int, 2 * LIMIT),
    {
        proof {
            priority_bound(self@, ticker@);
        }
        self.conviction_of(ticker) + portion(self.fund_tilt_of(ticker), FUND_TILT_WEIGHT)
    }

    /// The key among buys: the larger one is funded earlier.
    pub fn buy_priority(&self, ticker: &str) -> (r: Fixed)
        requires
            bias_within_limits(self@),
        ensures
            r == priority(self@, ticker@),
            within(r as int, 2 * LIMIT),
    {
        proof {
            priority_bound(self@, ticker@);
        }
        self.conviction_of(ticker) + portion(self.fund_tilt_of(ticker), FUND_TILT_WEIGHT)
    }

    /// The reason not to buy a name now.
    pub fn buy_vetoed(&self, ticker: &str) -> (r: Option<&String>)
        ensures
            match r {
                Some(why) => veto_of(self@, ticker@) == Some(why@),
                None => veto_of(self@, ticker@) is None,
            },
    {
        if self.enabled {
            self.buy_veto.get(ticker)
        } else {
            None
        }
    }

    /// The share of the deployable cash that the market regime releases.
    pub fn deploy_multiplier(&self) -> (r: Fixed)
        ensures
            r == multiplier(self@.macro_score),
            500_000_000_000 <= r <= ONE,
    {
        match self.macro_score {
            Some(s) => if s < 30 {
                500_000_000_000
            } else if s >= 70 {
                ONE
            } else {
                12_500_000_000 * (s as i128 + 10)
            },
            None => ONE,
        }
    }
}

// ── laws ───────────────────────────────────────────────────────────────────

/// A signal that is off says nothing of any name: no conviction, no tilt, no
/// veto, and so no order among names and no objection to any.
pub proof fn a_disabled_signal_is_neutral(b: Bias, ticker: Seq<char>)
    requires
        !b.enabled,
    ensures
        conviction_of(b, ticker) == 0,
        tilt_of(b, ticker) == 0,
        priority(b, ticker) == 0,
        veto_of(b, ticker) is None,
        objections(b, ticker).len() == 0,
{
}

/// A calmer market never releases less cash; between half and all of it is released.
pub proof fn a_calmer_market_releases_more(s: i64, t: i64)
    requires
        s <= t,
    ensures
        multiplier(Some(s)) <= multiplier(Some(t)),
        500_000_000_000 <= multiplier(Some(s)) <= ONE,
{
}

/// A gap of more than a half in conviction outweighs any tilt; at equal
/// conviction the larger tilt never comes behind.
pub proof fn conviction_outweighs_tilt(b: Bias, x: Seq<char>, y: Seq<char>)
    requires
        within(tilt_of(b, x), ONE as int),
        within(tilt_of(b, y), ONE as int),
    ensures
        2 * (conviction_of(b, x) - conviction_of(b, y)) > ONE ==> priority(b, x) > priority(b, y),
        conviction_of(b, x) == conviction_of(b, y) && tilt_of(b, x) >= tilt_of(b, y) ==> priority(b, x)
            >= priority(b, y),
{
}

/// Two numbers, both known and in ascending order, or both unknown.
pub open spec fn no_less(a: Option<int>, b: Option<int>) -> bool {
    match (a, b) {
        (Some(x), Some(y)) => x <= y,
        (None, None) => true,
        _ => false,
    }
}

/// The tilt never falls where the same facts are known and none is worse: the name is
/// as cheap or cheaper against its own history, the operating margin moves up as much
/// or more, and a spending cycle is paid for as well or better.
pub proof fn better_fundamentals_never_tilt_down(f: FundamentalsView, g: FundamentalsView)
    requires
        no_less(g.p_ocf_vs_median_pct, f.p_ocf_vs_median_pct),
        no_less(f.op_margin_trend_pp, g.op_margin_trend_pp),
        no_less(f.ocf_margin_trend_pp, g.ocf_margin_trend_pp),
        f.capex_cycle == g.capex_cycle,
    ensures
        tilt(f) <= tilt(g),
{
    let w = counted(valuation_term(f), 55) + counted(margin_term(f), 30) + counted(
        spending_term(f),
        15,
    );
    let a = weighed(valuation_term(f), 55) + weighed(margin_term(f), 30) + weighed(
        spending_term(f),
        15,
    );
    let b = weighed(valuation_term(g), 55) + weighed(margin_term(g), 30) + weighed(
        spending_term(g),
        15,
    );
    assert(a <= b);
    if w != 0 {
        vstd::arithmetic::div_mod::lemma_div_is_ordered(a, b, w);
    }
}

} // verus!
