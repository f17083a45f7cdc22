//! The nightly analysis: one JSON record for a ticker and a date, folded into a
//! direction with a confidence. A missing record, or one whose status is not
//! `ok`, is neutral. The signal only orders what the rules already allow.
use vstd::math::max;
use vstd::prelude::*;
use vstd::string::*;

use crate::calendar::{calendar_has_no_gaps, day_number, day_number_range, first_day, on_calendar, Date};
use crate::fixed::{larger, render, rendered, smaller, Fixed, ONE};
use crate::json::{
    flag_in, number_in, number_view, object_in, read_document, text_in, text_or, text_view, whole_in, Document, Json,
};
use crate::text::{join, joined, lower, same, texts, to_lower, trim, trimmed};

verus! {

/// Where the analysis points.
#[derive(Debug, Clone, Copy, PartialEq, Eq, Structural)]
pub enum Direction {
    Bullish,
    Bearish,
    Neutral,
}

/// What the filings say about new shares.
#[derive(Debug, Clone, PartialEq)]
pub struct Dilution {
    /// severe, moderate, watch or clear.
    pub severity: String,
    /// Shares are being sold into the market right now.
    pub active_takedown: bool,
    /// Shares were sold recently.
    pub recent_takedown: bool,
    /// A shelf registration is on file.
    pub shelf: bool,
    /// The yearly growth of the share count in percent.
    pub share_growth_pct_yr: Option<Fixed>,
    pub quality: String,
}

/// New shares as plain values.
#[verifier::ext_equal]
pub struct DilutionView {
    pub severity: Seq<char>,
    pub active_takedown: bool,
    pub recent_takedown: bool,
    pub shelf: bool,
    pub share_growth_pct_yr: Option<int>,
    pub quality: Seq<char>,
}

impl View for Dilution {
    type V = DilutionView;

    open spec fn view(&self) -> DilutionView {
        DilutionView {
            severity: self.severity@,
            active_takedown: self.active_takedown,
            recent_takedown: self.recent_takedown,
            shelf: self.shelf,
            share_growth_pct_yr: number_view(self.share_growth_pct_yr),
            quality: self.quality@,
        }
    }
}

/// Short-sale flow and short interest; either half may be missing.
#[derive(Debug, Clone, PartialEq)]
pub struct ShortData {
    pub daily_read: Option<String>,
    pub daily_z: Option<Fixed>,
    pub daily_date: Option<String>,
    pub si_read: Option<String>,
    pub short_pct_float: Option<Fixed>,
    pub days_to_cover: Option<Fixed>,
    pub settlement_date: Option<String>,
    pub quality: String,
}

/// Short data as plain values.
#[verifier::ext_equal]
pub struct ShortDataView {
    pub daily_read: Option<Seq<char>>,
    pub daily_z: Option<int>,
    pub daily_date: Option<Seq<char>>,
    pub si_read: Option<Seq<char>>,
    pub short_pct_float: Option<int>,
    pub days_to_cover: Option<int>,
    pub settlement_date: Option<Seq<char>>,
    pub quality: Seq<char>,
}

impl View for ShortData {
    type V = ShortDataView;

    open spec fn view(&self) -> ShortDataView {
        ShortDataView {
            daily_read: text_view(self.daily_read),
            daily_z: number_view(self.daily_z),
            daily_date: text_view(self.daily_date),
            si_read: text_view(self.si_read),
            short_pct_float: number_view(self.short_pct_float),
            days_to_cover: number_view(self.days_to_cover),
            settlement_date: text_view(self.settlement_date),
            quality: self.quality@,
        }
    }
}

/// Margins, spending and valuation against the name's own history.
#[derive(Debug, Clone, PartialEq)]
pub struct Fundamentals {
    pub revenue_yoy_pct: Option<Fixed>,
    /// The change of the operating cash-flow margin, in points.
    pub ocf_margin_trend_pp: Option<Fixed>,
    /// The change of the operating margin, in points.
    pub op_margin_trend_pp: Option<Fixed>,
    /// Whether a spending cycle is on.
    pub capex_cycle: Option<bool>,
    /// The price to cash flow against its own five-year median, in percent.
    pub p_ocf_vs_median_pct: Option<Fixed>,
}

/// Fundamentals as plain values.
#[verifier::ext_equal]
pub struct FundamentalsView {
    pub revenue_yoy_pct: Option<int>,
    pub ocf_margin_trend_pp: Option<int>,
    pub op_margin_trend_pp: Option<int>,
    pub capex_cycle: Option<bool>,
    pub p_ocf_vs_median_pct: Option<int>,
}

impl View for Fundamentals {
    type V = FundamentalsView;

    open spec fn view(&self) -> FundamentalsView {
        FundamentalsView {
            revenue_yoy_pct: number_view(self.revenue_yoy_pct),
            ocf_margin_trend_pp: number_view(self.ocf_margin_trend_pp),
            op_margin_trend_pp: number_view(self.op_margin_trend_pp),
            capex_cycle: self.capex_cycle,
            p_ocf_vs_median_pct: number_view(self.p_ocf_vs_median_pct),
        }
    }
}

/// The structured market context of a record.
#[derive(Debug, Clone, PartialEq)]
pub struct Quant {
    pub source: Option<String>,
    pub price: Option<Fixed>,
    pub as_of: Option<String>,
    pub realized_vol_20d: Option<Fixed>,
    pub atr_pct_14d: Option<Fixed>,
    pub range_position_52w: Option<Fixed>,
    pub avg_dollar_volume_20d: Option<Fixed>,
    pub iv: Option<Fixed>,
    pub iv_vs_realized: Option<Fixed>,
    pub expected_move_30d_pct: Option<Fixed>,
    pub iv_rank: Option<Fixed>,
    pub next_earnings_date: Option<String>,
    pub days_to_earnings: Option<i64>,
    pub analyst_target: Option<Fixed>,
    pub analyst_target_upside_pct: Option<Fixed>,
    pub free_float_pct: Option<Fixed>,
    pub float_shares: Option<i64>,
    pub macro_score: Option<i64>,
    /// Absent means unknown.
    pub fundamentals: Option<Fundamentals>,
    /// Absent means unknown, never clean.
    pub dilution: Option<Dilution>,
    /// Absent means unknown, never no shorts.
    pub short: Option<ShortData>,
}

/// Market context as plain values.
#[verifier::ext_equal]
pub struct QuantView {
    pub source: Option<Seq<char>>,
    pub price: Option<int>,
    pub as_of: Option<Seq<char>>,
    pub realized_vol_20d: Option<int>,
    pub atr_pct_14d: Option<int>,
    pub range_position_52w: Option<int>,
    pub avg_dollar_volume_20d: Option<int>,
    pub iv: Option<int>,
    pub iv_vs_realized: Option<int>,
    pub expected_move_30d_pct: Option<int>,
    pub iv_rank: Option<int>,
    pub next_earnings_date: Option<Seq<char>>,
    pub days_to_earnings: Option<i64>,
    pub analyst_target: Option<int>,
    pub analyst_target_upside_pct: Option<int>,
    pub free_float_pct: Option<int>,
    pub float_shares: Option<i64>,
    pub macro_score: Option<i64>,
    pub fundamentals: Option<FundamentalsView>,
    pub dilution: Option<DilutionView>,
    pub short: Option<ShortDataView>,
}

impl View for Quant {
    type V = QuantView;

    open spec fn view(&self) -> QuantView {
        QuantView {
            source: text_view(self.source),
            price: number_view(self.price),
            as_of: text_view(self.as_of),
            realized_vol_20d: number_view(self.realized_vol_20d),
            atr_pct_14d: number_view(self.atr_pct_14d),
            range_position_52w: number_view(self.range_position_52w),
            avg_dollar_volume_20d: number_view(self.avg_dollar_volume_20d),
            iv: number_view(self.iv),
            iv_vs_realized: number_view(self.iv_vs_realized),
            expected_move_30d_pct: number_view(self.expected_move_30d_pct),
            iv_rank: number_view(self.iv_rank),
            next_earnings_date: text_view(self.next_earnings_date),
            days_to_earnings: self.days_to_earnings,
            analyst_target: number_view(self.analyst_target),
            analyst_target_upside_pct: number_view(self.analyst_target_upside_pct),
            free_float_pct: number_view(self.free_float_pct),
            float_shares: self.float_shares,
            macro_score: self.macro_score,
            fundamentals: match self.fundamentals {
                Some(x) => Some(x@),
                None => None,
            },
            dilution: match self.dilution {
                Some(x) => Some(x@),
                None => None,
            },
            short: match self.short {
                Some(x) => Some(x@),
                None => None,
            },
        }
    }
}

/// The analysis of one ticker.
#[derive(Debug, Clone)]
pub struct DailyAnalysis {
    pub ticker: String,
    pub direction: Direction,
    pub confidence: Fixed,
    pub decision: String,
    pub trade_date: String,
    /// Whether a record was found; without one the analysis is neutral.
    pub found: bool,
    pub source_path: Option<String>,
    pub quant: Option<Quant>,
}

/// An analysis as plain values.
#[verifier::ext_equal]
pub struct AnalysisView {
    pub ticker: Seq<char>,
    pub direction: Direction,
    pub confidence: int,
    pub decision: Seq<char>,
    pub trade_date: Seq<char>,
    pub found: bool,
    pub source_path: Option<Seq<char>>,
    pub quant: Option<QuantView>,
}

impl View for DailyAnalysis {
    type V = AnalysisView;

    open spec fn view(&self) -> AnalysisView {
        AnalysisView {
            ticker: self.ticker@,
            direction: self.direction,
            confidence: self.confidence as int,
            decision: self.decision@,
            trade_date: self.trade_date@,
            found: self.found,
            source_path: text_view(self.source_path),
            quant: match self.quant {
                Some(x) => Some(x@),
                None => None,
            },
        }
    }
}

impl Default for Dilution {
    fn default() -> (r: Self)
        ensures
            r@ == (DilutionView {
                severity: ""@,
                active_takedown: false,
                recent_takedown: false,
                shelf: false,
                share_growth_pct_yr: None,
                quality: ""@,
            }),
    {
        Dilution {
            severity: "".to_owned(),
            active_takedown: false,
            recent_takedown: false,
            shelf: false,
            share_growth_pct_yr: None,
            quality: "".to_owned(),
        }
    }
}

impl Default for ShortData {
    fn default() -> (r: Self)
        ensures
            r@ == (ShortDataView {
                daily_read: None,
                daily_z: None,
                daily_date: None,
                si_read: None,
                short_pct_float: None,
                days_to_cover: None,
                settlement_date: None,
                quality: ""@,
            }),
    {
        ShortData {
            daily_read: None,
            daily_z: None,
            daily_date: None,
            si_read: None,
            short_pct_float: None,
            days_to_cover: None,
            settlement_date: None,
            quality: "".to_owned(),
        }
    }
}

impl Default for Fundamentals {
    fn default() -> (r: Self)
        ensures
            r@ == (FundamentalsView {
                revenue_yoy_pct: None,
                ocf_margin_trend_pp: None,
                op_margin_trend_pp: None,
                capex_cycle: None,
                p_ocf_vs_median_pct: None,
            }),
    {
        Fundamentals {
            revenue_yoy_pct: None,
            ocf_margin_trend_pp: None,
            op_margin_trend_pp: None,
            capex_cycle: None,
            p_ocf_vs_median_pct: None,
        }
    }
}

impl Default for Quant {
    fn default() -> (r: Self)
        ensures
            r@ == (QuantView {
                source: None,
                price: None,
                as_of: None,
                realized_vol_20d: None,
                atr_pct_14d: None,
                range_position_52w: None,
                avg_dollar_volume_20d: None,
                iv: None,
                iv_vs_realized: None,
                expected_move_30d_pct: None,
                iv_rank: None,
                next_earnings_date: None,
                days_to_earnings: None,
                analyst_target: None,
                analyst_target_upside_pct: None,
                free_float_pct: None,
                float_shares: None,
                macro_score: None,
                fundamentals: None,
                dilution: None,
                short: None,
            }),
    {
        Quant {
            source: None,
            price: None,
            as_of: None,
            realized_vol_20d: None,
            atr_pct_14d: None,
            range_position_52w: None,
            avg_dollar_volume_20d: None,
            iv: None,
            iv_vs_realized: None,
            expected_move_30d_pct: None,
            iv_rank: None,
            next_earnings_date: None,
            days_to_earnings: None,
            analyst_target: None,
            analyst_target_upside_pct: None,
            free_float_pct: None,
            float_shares: None,
            macro_score: None,
            fundamentals: None,
            dilution: None,
            short: None,
        }
    }
}

// ── summaries ──────────────────────────────────────────────────────────────

/// A part that is there only sometimes.
pub open spec fn part_if(there: bool, part: Seq<char>) -> Seq<Seq<char>> {
    if there {
        seq![part]
    } else {
        seq![]
    }
}

/// The parts of the one-line reason about new shares.
pub open spec fn dilution_parts(d: DilutionView) -> Seq<Seq<char>> {
    part_if(d.active_takedown, "active 424B takedown"@) + part_if(
        !d.active_takedown && d.recent_takedown,
        "424B takedown ≤90d"@,
    ) + part_if(d.shelf, "shelf on file"@) + match d.share_growth_pct_yr {
        Some(g) => seq!["shares "@ + rendered(g, 1, true) + "%/yr"@],
        None => seq![],
    }
}

/// The one-line reason about new shares; the severity where there is no other part.
pub open spec fn dilution_detail(d: DilutionView) -> Seq<char> {
    if dilution_parts(d).len() == 0 {
        d.severity
    } else {
        joined(dilution_parts(d), ", "@)
    }
}

impl Dilution {
    /// The one-line reason for a card or a journal line.
    pub fn detail(&self) -> (r: String)
        requires
            self.share_growth_pct_yr matches Some(g) ==> i128::MIN < g,
        ensures
            r@ == dilution_detail(self@),
    {
        let mut parts: Vec<String> = Vec::new();
        if self.active_takedown {
            parts.push("active 424B takedown".to_owned());
        } else if self.recent_takedown {
            parts.push("424B takedown ≤90d".to_owned());
        }
        if self.shelf {
            parts.push("shelf on file".to_owned());
        }
        if let Some(g) = self.share_growth_pct_yr {
            let mut s = "shares ".to_owned();
            s.append(render(g, 1, true).as_str());
            s.append("%/yr");
            parts.push(s);
        }
        assert(texts(parts@) =~= dilution_parts(self@));
        if parts.len() == 0 {
            self.severity.clone()
        } else {
            join(&parts, ", ")
        }
    }
}

/// The parts of the one-line summary of short interest.
pub open spec fn short_parts(s: ShortDataView) -> Seq<Seq<char>> {
    (match s.short_pct_float {
        Some(p) => seq![rendered(p, 1, false) + "% of float"@],
        None => seq![],
    }) + (match s.days_to_cover {
        Some(d) => seq!["DTC "@ + rendered(d, 1, false)],
        None => seq![],
    }) + (match s.settlement_date {
        Some(d) => seq!["settled "@ + d],
        None => seq![],
    })
}

impl ShortData {
    /// The one-line summary of short interest, with the day it was settled.
    pub fn detail(&self) -> (r: String)
        requires
            self.short_pct_float matches Some(x) ==> i128::MIN < x,
            self.days_to_cover matches Some(x) ==> i128::MIN < x,
        ensures
            r@ == joined(short_parts(self@), ", "@),
    {
        let mut parts: Vec<String> = Vec::new();
        if let Some(p) = self.short_pct_float {
            let mut s = render(p, 1, false);
            s.append("% of float");
            parts.push(s);
        }
        if let Some(d) = self.days_to_cover {
            let mut s = "DTC ".to_owned();
            s.append(render(d, 1, false).as_str());
            parts.push(s);
        }
        if let Some(d) = &self.settlement_date {
            let mut s = "settled ".to_owned();
            s.append(d.as_str());
            parts.push(s);
        }
        assert(texts(parts@) =~= short_parts(self@));
        join(&parts, ", ")
    }
}

/// The confidence from which on an analysis is strong: 0.8.
pub const STRONG: i128 = 800_000_000_000;

/// The analysis that holds where no record was found.
pub open spec fn neutral_analysis(ticker: Seq<char>) -> AnalysisView {
    AnalysisView {
        ticker,
        direction: Direction::Neutral,
        confidence: 0,
        decision: ""@,
        trade_date: ""@,
        found: false,
        source_path: None,
        quant: None,
    }
}

/// A record was found, and it is bearish with a confidence of 0.8 or more.
pub open spec fn strong_bearish(a: AnalysisView) -> bool {
    a.found && a.direction == Direction::Bearish && a.confidence >= STRONG
}

/// A record was found, and it is bullish with a confidence of 0.8 or more.
pub open spec fn strong_bullish(a: AnalysisView) -> bool {
    a.found && a.direction == Direction::Bullish && a.confidence >= STRONG
}

/// The confidence as a fraction: below 0 it counts as none, above 1 as full.
pub open spec fn assurance(a: AnalysisView) -> int {
    if a.confidence < 0 {
        0
    } else if a.confidence > ONE {
        ONE as int
    } else {
        a.confidence
    }
}

/// The conviction between -1 and 1: positive for a bullish record, negative for a
/// bearish one, 0 for a neutral one.
pub open spec fn conviction(a: AnalysisView) -> int {
    match a.direction {
        Direction::Bullish => assurance(a),
        Direction::Bearish => -assurance(a),
        Direction::Neutral => 0,
    }
}

impl DailyAnalysis {
    /// The analysis that holds where no record was found.
    pub fn neutral(ticker: &str) -> (r: Self)
        ensures
            r@ == neutral_analysis(ticker@),
    {
        DailyAnalysis {
            ticker: ticker.to_owned(),
            direction: Direction::Neutral,
            confidence: 0,
            decision: "".to_owned(),
            trade_date: "".to_owned(),
            found: false,
            source_path: None,
            quant: None,
        }
    }

    /// Whether a strongly bearish record was found.
    pub fn is_strong_bearish(&self) -> (r: bool)
        ensures
            r == strong_bearish(self@),
    {
        self.found && self.direction == Direction::Bearish && self.confidence >= STRONG
    }

    /// Whether a strongly bullish record was found.
    pub fn is_strong_bullish(&self) -> (r: bool)
        ensures
            r == strong_bullish(self@),
    {
        self.found && self.direction == Direction::Bullish && self.confidence >= STRONG
    }

    /// The conviction between -1 and 1: positive for a bullish record, negative for a
    /// bearish one, 0 for a neutral one.
    pub fn signed_conviction(&self) -> (r: Fixed)
        ensures
            r == conviction(self@),
            -ONE <= r <= ONE,
    {
        let c: i128 = smaller(larger(self.confidence, 0), ONE);
        match self.direction {
            Direction::Bullish => c,
            Direction::Bearish => -c,
            Direction::Neutral => 0,
        }
    }
}

// ── records ────────────────────────────────────────────────────────────────

/// The direction that a word stands for, in any case and between any white space.
pub open spec fn direction_of(s: Seq<char>) -> Direction {
    let w = lower(trimmed(s));
    if w == "bullish"@ || w == "buy"@ || w == "overweight"@ {
        Direction::Bullish
    } else if w == "bearish"@ || w == "sell"@ || w == "underweight"@ {
        Direction::Bearish
    } else {
        Direction::Neutral
    }
}

/// The direction that a word stands for.
pub fn parse_dir(s: &str) -> (r: Direction)
    ensures
        r == direction_of(s@),
{
    let t = to_lower(trim(s).as_str());
    let w = t.as_str();
    if same(w, "bullish") || same(w, "buy") || same(w, "overweight") {
        Direction::Bullish
    } else if same(w, "bearish") || same(w, "sell") || same(w, "underweight") {
        Direction::Bearish
    } else {
        Direction::Neutral
    }
}

/// What a record says about new shares.
pub open spec fn dilution_of(q: Document) -> Option<DilutionView> {
    match object_in(q, "dilution"@) {
        Some(d) => Some(
            DilutionView {
                severity: text_or(text_in(d, "severity"@), ""@),
                active_takedown: object_in(d, "active_takedown"@) is Some,
                recent_takedown: object_in(d, "recent_takedown"@) is Some,
                shelf: object_in(d, "shelf"@) is Some,
                share_growth_pct_yr: number_in(d, "share_growth_pct_yr"@),
                quality: text_or(text_in(d, "quality"@), ""@),
            },
        ),
        None => None,
    }
}

/// Reads what a record says about new shares.
pub fn parse_dilution(q: &Json) -> (r: Option<Dilution>)
    ensures
        match r {
            Some(d) => dilution_of(q@) == Some(d@),
            None => dilution_of(q@) is None,
        },
{
    match q.object_at("dilution") {
        Some(d) => Some(
            Dilution {
                severity: d.text_or_empty("severity"),
                active_takedown: d.object_at("active_takedown").is_some(),
                recent_takedown: d.object_at("recent_takedown").is_some(),
                shelf: d.object_at("shelf").is_some(),
                share_growth_pct_yr: d.number_at("share_growth_pct_yr"),
                quality: d.text_or_empty("quality"),
            },
        ),
        None => None,
    }
}

/// A text of a part that may be missing.
pub open spec fn text_of_part(part: Option<Document>, key: Seq<char>) -> Option<Seq<char>> {
    match part {
        Some(o) => text_in(o, key),
        None => None,
    }
}

/// A number of a part that may be missing.
pub open spec fn number_of_part(part: Option<Document>, key: Seq<char>) -> Option<int> {
    match part {
        Some(o) => number_in(o, key),
        None => None,
    }
}

/// What a record says about shorts.
pub open spec fn short_of(q: Document) -> Option<ShortDataView> {
    match object_in(q, "short"@) {
        Some(s) => {
            let flow = object_in(s, "daily_short_volume"@);
            let interest = object_in(s, "short_interest"@);
            Some(
                ShortDataView {
                    daily_read: text_of_part(flow, "read"@),
                    daily_z: number_of_part(flow, "z"@),
                    daily_date: text_of_part(flow, "date"@),
                    si_read: text_of_part(interest, "read"@),
                    short_pct_float: number_of_part(interest, "short_pct_float"@),
                    days_to_cover: number_of_part(interest, "days_to_cover"@),
                    settlement_date: text_of_part(interest, "settlement_date"@),
                    quality: text_or(text_in(s, "quality"@), ""@),
                },
            )
        },
        None => None,
    }
}

fn part_text(part: Option<&Json>, key: &str) -> (r: Option<String>)
    ensures
        text_view(r) == match part {
            Some(o) => text_in(o@, key@),
            None => None,
        },
{
    match part {
        Some(o) => o.text_at(key),
        None => None,
    }
}

fn part_number(part: Option<&Json>, key: &str) -> (r: Option<Fixed>)
    ensures
        number_view(r) == match part {
            Some(o) => number_in(o@, key@),
            None => None,
        },
{
    match part {
        Some(o) => o.number_at(key),
        None => None,
    }
}

/// Reads what a record says about shorts.
pub fn parse_short(q: &Json) -> (r: Option<ShortData>)
    ensures
        match r {
            Some(d) => short_of(q@) == Some(d@),
            None => short_of(q@) is None,
        },
{
    match q.object_at("short") {
        Some(s) => {
            let flow = s.object_at("daily_short_volume");
            let interest = s.object_at("short_interest");
            Some(
                ShortData {
                    daily_read: part_text(flow, "read"),
                    daily_z: part_number(flow, "z"),
                    daily_date: part_text(flow, "date"),
                    si_read: part_text(interest, "read"),
                    short_pct_float: part_number(interest, "short_pct_float"),
                    days_to_cover: part_number(interest, "days_to_cover"),
                    settlement_date: part_text(interest, "settlement_date"),
                    quality: s.text_or_empty("quality"),
                },
            )
        },
        None => None,
    }
}

/// What a record says about fundamentals.
pub open spec fn fundamentals_of(q: Document) -> Option<FundamentalsView> {
    match object_in(q, "fundamentals"@) {
        Some(f) => Some(
            FundamentalsView {
                revenue_yoy_pct: number_in(f, "revenue_yoy_pct"@),
                ocf_margin_trend_pp: number_in(f, "ocf_margin_trend_pp"@),
                op_margin_trend_pp: number_in(f, "op_margin_trend_pp"@),
                capex_cycle: flag_in(f, "capex_cycle"@),
                p_ocf_vs_median_pct: number_in(f, "p_ocf_vs_median_pct"@),
            },
        ),
        None => None,
    }
}

fn parse_fundamentals(q: &Json) -> (r: Option<Fundamentals>)
    ensures
        match r {
            Some(f) => fundamentals_of(q@) == Some(f@),
            None => fundamentals_of(q@) is None,
        },
{
    match q.object_at("fundamentals") {
        Some(f) => Some(
            Fundamentals {
                revenue_yoy_pct: f.number_at("revenue_yoy_pct"),
                ocf_margin_trend_pp: f.number_at("ocf_margin_trend_pp"),
                op_margin_trend_pp: f.number_at("op_margin_trend_pp"),
                capex_cycle: f.flag_at("capex_cycle"),
                p_ocf_vs_median_pct: f.number_at("p_ocf_vs_median_pct"),
            },
        ),
        None => None,
    }
}

/// What a record says about the market; nothing where it has no object for it.
pub open spec fn quant_of(j: Document) -> Option<QuantView> {
    match object_in(j, "quant"@) {
        Some(q) => Some(
            QuantView {
                source: text_in(q, "source"@),
                price: number_in(q, "price"@),
                as_of: text_in(q, "as_of"@),
                realized_vol_20d: number_in(q, "realized_vol_20d"@),
                atr_pct_14d: number_in(q, "atr_pct_14d"@),
                range_position_52w: number_in(q, "range_position_52w"@),
                avg_dollar_volume_20d: number_in(q, "avg_dollar_volume_20d"@),
                iv: number_in(q, "iv"@),
                iv_vs_realized: number_in(q, "iv_vs_realized"@),
                expected_move_30d_pct: number_in(q, "expected_move_30d_pct"@),
                iv_rank: number_in(q, "iv_rank"@),
                next_earnings_date: text_in(q, "next_earnings_date"@),
                days_to_earnings: whole_in(q, "days_to_earnings"@),
                analyst_target: number_in(q, "analyst_target"@),
                analyst_target_upside_pct: number_in(q, "analyst_target_upside_pct"@),
                free_float_pct: number_in(q, "free_float_pct"@),
                float_shares: whole_in(q, "float_shares"@),
                macro_score: whole_in(q, "macro_score"@),
                fundamentals: fundamentals_of(q),
                dilution: dilution_of(q),
                short: short_of(q),
            },
        ),
        None => None,
    }
}

/// Reads what a record says about the market.
pub fn parse_quant(j: &Json) -> (r: Option<Quant>)
    ensures
        match r {
            Some(q) => quant_of(j@) == Some(q@),
            None => quant_of(j@) is None,
        },
{
    match j.object_at("quant") {
        Some(q) => Some(
            Quant {
                source: q.text_at("source"),
                price: q.number_at("price"),
                as_of: q.text_at("as_of"),
                realized_vol_20d: q.number_at("realized_vol_20d"),
                atr_pct_14d: q.number_at("atr_pct_14d"),
                range_position_52w: q.number_at("range_position_52w"),
                avg_dollar_volume_20d: q.number_at("avg_dollar_volume_20d"),
                iv: q.number_at("iv"),
                iv_vs_realized: q.number_at("iv_vs_realized"),
                expected_move_30d_pct: q.number_at("expected_move_30d_pct"),
                iv_rank: q.number_at("iv_rank"),
                next_earnings_date: q.text_at("next_earnings_date"),
                days_to_earnings: q.whole_at("days_to_earnings"),
                analyst_target: q.number_at("analyst_target"),
                analyst_target_upside_pct: q.number_at("analyst_target_upside_pct"),
                free_float_pct: q.number_at("free_float_pct"),
                float_shares: q.whole_at("float_shares"),
                macro_score: q.whole_at("macro_score"),
                fundamentals: parse_fundamentals(q),
                dilution: parse_dilution(q),
                short: parse_short(q),
            },
        ),
        None => None,
    }
}

/// The analysis that a record gives; a record whose status is not `ok` gives none.
pub open spec fn analysis_of(ticker: Seq<char>, path: Seq<char>, j: Document) -> Option<AnalysisView> {
    if text_in(j, "status"@) == Some("ok"@) {
        Some(
            AnalysisView {
                ticker,
                direction: match text_in(j, "direction"@) {
                    Some(s) => direction_of(s),
                    None => Direction::Neutral,
                },
                confidence: match number_in(j, "confidence"@) {
                    Some(x) => x,
                    None => 0,
                },
                decision: text_or(text_in(j, "decision"@), ""@),
                trade_date: text_or(text_in(j, "trade_date"@), ""@),
                found: true,
                source_path: Some(path),
                quant: quant_of(j),
            },
        )
    } else {
        None
    }
}

/// Reads the analysis that a record gives.
pub fn analysis_from_json(ticker: &str, path: &str, j: &Json) -> (r: Option<DailyAnalysis>)
    ensures
        match r {
            Some(a) => analysis_of(ticker@, path@, j@) == Some(a@),
            None => analysis_of(ticker@, path@, j@) is None,
        },
{
    let ok = match j.text_at("status") {
        Some(s) => same(s.as_str(), "ok"),
        None => false,
    };
    if !ok {
        return None;
    }
    Some(
        DailyAnalysis {
            ticker: ticker.to_owned(),
            direction: match j.text_at("direction") {
                Some(s) => parse_dir(s.as_str()),
                None => Direction::Neutral,
            },
            confidence: match j.number_at("confidence") {
                Some(x) => x,
                None => 0,
            },
            decision: j.text_or_empty("decision"),
            trade_date: j.text_or_empty("trade_date"),
            found: true,
            source_path: Some(path.to_owned()),
            quant: parse_quant(j),
        },
    )
}

/// A report file: its path, and the text in it where it could be read.
#[derive(Debug, Clone)]
pub struct ReportFile {
    pub path: String,
    pub text: Option<String>,
}

/// A report file as plain values.
#[verifier::ext_equal]
pub struct ReportView {
    pub path: Seq<char>,
    pub text: Option<Seq<char>>,
}

impl View for ReportFile {
    type V = ReportView;

    open spec fn view(&self) -> ReportView {
        ReportView { path: self.path@, text: text_view(self.text) }
    }
}

/// The views of a list of report files.
pub open spec fn report_views(v: Seq<ReportFile>) -> Seq<ReportView> {
    v.map_values(|f: ReportFile| f@)
}

/// The document in a text that may be missing.
pub open spec fn document_in(text: Option<Seq<char>>) -> Option<Document> {
    match text {
        Some(t) => read_document(t),
        None => None,
    }
}

/// The analysis in one file: none where it is absent, holds no JSON, or its record
/// gives none.
pub open spec fn analysis_in(ticker: Seq<char>, file: ReportView) -> Option<AnalysisView> {
    match document_in(file.text) {
        Some(d) => analysis_of(ticker, file.path, d),
        None => None,
    }
}

fn document_from(text: &Option<String>) -> (r: Option<Json>)
    ensures
        match r {
            Some(j) => document_in(text_view(*text)) == Some(j@),
            None => document_in(text_view(*text)) is None,
        },
{
    match text {
        Some(t) => Json::parse(t.as_str()),
        None => None,
    }
}

/// The analysis in the first file from `from` on that holds one, or the neutral one.
pub open spec fn first_analysis(ticker: Seq<char>, files: Seq<ReportView>, from: int) -> AnalysisView
    decreases files.len() - from,
{
    if from < 0 || from >= files.len() {
        neutral_analysis(ticker)
    } else {
        match analysis_in(ticker, files[from]) {
            Some(a) => a,
            None => first_analysis(ticker, files, from + 1),
        }
    }
}

/// The analysis of a ticker from its report files, the newest day first.
pub fn read(ticker: &str, files: &Vec<ReportFile>) -> (r: DailyAnalysis)
    ensures
        r@ == first_analysis(ticker@, report_views(files@), 0),
{
    let mut i: usize = 0;
    while i < files.len()
        invariant
            i <= files@.len(),
            first_analysis(ticker@, report_views(files@), 0) == first_analysis(ticker@, report_views(files@), i as int),
        decreases files@.len() - i,
    {
        assert(report_views(files@)[i as int] == files@[i as int]@);
        if let Some(j) = document_from(&files[i].text) {
            if let Some(a) = analysis_from_json(ticker, files[i].path.as_str(), &j) {
                return a;
            }
        }
        i += 1;
    }
    DailyAnalysis::neutral(ticker)
}

/// The score in the first text from `from` on that has one.
pub open spec fn first_score(texts: Seq<Option<Seq<char>>>, from: int) -> Option<i64>
    decreases texts.len() - from,
{
    if from < 0 || from >= texts.len() {
        None
    } else {
        match document_in(texts[from]) {
            Some(d) => match whole_in(d, "score"@) {
                Some(s) => Some(s),
                None => first_score(texts, from + 1),
            },
            None => first_score(texts, from + 1),
        }
    }
}

/// The views of texts that may be missing.
pub open spec fn text_views(v: Seq<Option<String>>) -> Seq<Option<Seq<char>>> {
    v.map_values(|t: Option<String>| text_view(t))
}

/// The score that a document of the market regime gives.
pub fn score_from_json(j: &Json) -> (r: Option<i64>)
    ensures
        r == whole_in(j@, "score"@),
{
    j.whole_at("score")
}

/// The market-regime score from the files of some days, the newest first.
pub fn macro_score(files: &Vec<Option<String>>) -> (r: Option<i64>)
    ensures
        r == first_score(text_views(files@), 0),
{
    let mut i: usize = 0;
    while i < files.len()
        invariant
            i <= files@.len(),
            first_score(text_views(files@), 0) == first_score(text_views(files@), i as int),
        decreases files@.len() - i,
    {
        assert(text_views(files@)[i as int] == text_view(files@[i as int]));
        if let Some(j) = document_from(&files[i]) {
            if let Some(s) = score_from_json(&j) {
                return Some(s);
            }
        }
        i += 1;
    }
    None
}

/// The day `asof` and the days before it that a reader looks back over.
pub fn lookback_dates(asof: Date, lookback_days: i64) -> (r: Vec<Date>)
    requires
        lookback_days <= day_number(asof@) - day_number(first_day()),
    ensures
        r@.len() == max(lookback_days as int, 0) + 1,
        forall|i: int|
            0 <= i < r@.len() ==> on_calendar(#[trigger] r@[i]@) && day_number(r@[i]@) == day_number(
                asof@,
            ) - i,
{
    let mut out: Vec<Date> = Vec::new();
    let last: i64 = if lookback_days > 0 {
        lookback_days
    } else {
        0
    };
    proof {
        use_type_invariant(asof);
        crate::calendar::first_day_comes_first(asof@);
        day_number_range(asof@);
        day_number_range(first_day());
    }
    let mut back: i64 = 0;
    while back <= last
        invariant
            0 <= back <= last + 1,
            last < 200_000_000,
            on_calendar(asof@),
            last <= day_number(asof@) - day_number(first_day()),
            out@.len() == back,
            forall|i: int|
                0 <= i < out@.len() ==> on_calendar(#[trigger] out@[i]@) && day_number(out@[i]@)
                    == day_number(asof@) - i,
        decreases last + 1 - back,
    {
        proof {
            let e = calendar_has_no_gaps(asof@, back as int);
            assert(on_calendar(e) && day_number(e) == day_number(asof@) + (-back));
        }
        out.push(asof.plus_days(-back));
        back += 1;
    }
    out
}

} // verus!
