//! What a record of the nightly analysis means: the words for a direction, which
//! record counts, and what is read from it.
use vstd::prelude::*;

use crate::json::{flag_in, number_in, object_in, text_in, whole_in, Document};
use crate::signals::daily_analysis::{
    analysis_in, analysis_of, conviction, dilution_of, direction_of, document_in, first_analysis, first_score,
    fundamentals_of, quant_of, short_of, strong_bearish, strong_bullish, AnalysisView, Direction, ReportView,
};
use crate::text::{is_white, lower, trimmed};

verus! {

// ── the words ──────────────────────────────────────────────────────────────

/// Six words have a direction, in any case and between any white space: bullish, buy
/// and overweight point up, bearish, sell and underweight point down. Every other word
/// is neutral.
pub proof fn the_words_for_a_direction(s: Seq<char>)
    ensures
        lower(trimmed(s)) == "bullish"@ ==> direction_of(s) == Direction::Bullish,
        lower(trimmed(s)) == "buy"@ ==> direction_of(s) == Direction::Bullish,
        lower(trimmed(s)) == "overweight"@ ==> direction_of(s) == Direction::Bullish,
        lower(trimmed(s)) == "bearish"@ ==> direction_of(s) == Direction::Bearish,
        lower(trimmed(s)) == "sell"@ ==> direction_of(s) == Direction::Bearish,
        lower(trimmed(s)) == "underweight"@ ==> direction_of(s) == Direction::Bearish,
        direction_of(s) == Direction::Bullish ==> (lower(trimmed(s)) == "bullish"@ || lower(trimmed(s)) == "buy"@ || lower(
            trimmed(s),
        ) == "overweight"@),
        direction_of(s) == Direction::Bearish ==> (lower(trimmed(s)) == "bearish"@ || lower(trimmed(s)) == "sell"@ || lower(
            trimmed(s),
        ) == "underweight"@),
{
    reveal_strlit("bullish");
    reveal_strlit("buy");
    reveal_strlit("overweight");
    reveal_strlit("bearish");
    reveal_strlit("sell");
    reveal_strlit("underweight");
    assert("bullish"@[1] != "bearish"@[1]);
    assert("bullish"@.len() == 7 && "buy"@.len() == 3 && "overweight"@.len() == 10);
    assert("sell"@.len() == 4 && "underweight"@.len() == 11);
}

/// The letters of a word that is all small letters.
pub open spec fn small_letters(s: Seq<char>) -> bool {
    s.len() > 0 && forall|k: int| 0 <= k < s.len() ==> 'a' <= #[trigger] s[k] <= 'z'
}

proof fn a_small_word_stands_for_itself(s: Seq<char>)
    requires
        small_letters(s),
    ensures
        lower(trimmed(s)) == s,
{
    assert('a' <= s[0] <= 'z');
    assert('a' <= s[s.len() - 1] <= 'z');
    assert(trimmed(s) == s);
    assert forall|k: int| 0 <= k < s.len() implies 0 <= #[trigger] s[k] < 128 by {}
    assert(lower(s) =~= s);
}

/// The six words as they are written in a record.
pub proof fn the_six_words()
    ensures
        direction_of("bullish"@) == Direction::Bullish,
        direction_of("buy"@) == Direction::Bullish,
        direction_of("overweight"@) == Direction::Bullish,
        direction_of("bearish"@) == Direction::Bearish,
        direction_of("sell"@) == Direction::Bearish,
        direction_of("underweight"@) == Direction::Bearish,
        direction_of("hold"@) == Direction::Neutral,
        direction_of("neutral"@) == Direction::Neutral,
        direction_of(""@) == Direction::Neutral,
{
    reveal_strlit("bullish");
    reveal_strlit("buy");
    reveal_strlit("overweight");
    reveal_strlit("bearish");
    reveal_strlit("sell");
    reveal_strlit("underweight");
    reveal_strlit("hold");
    reveal_strlit("neutral");
    reveal_strlit("");
    a_small_word_stands_for_itself("bullish"@);
    a_small_word_stands_for_itself("buy"@);
    a_small_word_stands_for_itself("overweight"@);
    a_small_word_stands_for_itself("bearish"@);
    a_small_word_stands_for_itself("sell"@);
    a_small_word_stands_for_itself("underweight"@);
    a_small_word_stands_for_itself("hold"@);
    a_small_word_stands_for_itself("neutral"@);
    the_words_for_a_direction("bullish"@);
    the_words_for_a_direction("buy"@);
    the_words_for_a_direction("overweight"@);
    the_words_for_a_direction("bearish"@);
    the_words_for_a_direction("sell"@);
    the_words_for_a_direction("underweight"@);
    the_words_for_a_direction("hold"@);
    the_words_for_a_direction("neutral"@);
    the_words_for_a_direction(""@);
    assert(trimmed(""@) =~= ""@);
    assert(lower(""@) =~= ""@);
    assert("hold"@[0] != "sell"@[0]);
    assert("neutral"@[0] != "bullish"@[0] && "neutral"@[0] != "bearish"@[0]);
}

/// White space before or behind a word changes nothing.
pub proof fn white_space_changes_no_word(c: char, s: Seq<char>)
    requires
        is_white(c),
    ensures
        direction_of(seq![c] + s) == direction_of(s),
        direction_of(s.push(c)) == direction_of(s),
{
    assert((seq![c] + s).drop_first() =~= s);
    assert((seq![c] + s)[0] == c);
    white_behind(s, c);
}

proof fn white_behind(s: Seq<char>, c: char)
    requires
        is_white(c),
    ensures
        trimmed(s.push(c)) == trimmed(s),
    decreases s.len(),
{
    let t = s.push(c);
    if s.len() == 0 {
        assert(t.drop_first() =~= s);
        assert(t[0] == c);
    } else if is_white(s[0]) {
        assert(t[0] == s[0]);
        assert(t.drop_first() =~= s.drop_first().push(c));
        white_behind(s.drop_first(), c);
    } else {
        assert(t[0] == s[0]);
        assert(t.drop_last() =~= s);
        assert(t.last() == c);
    }
}

// ── which record counts ────────────────────────────────────────────────────

/// A record counts exactly where its status is `ok`. Its direction is the word under
/// `direction`, neutral without one; its confidence the number under `confidence`,
/// none without one.
pub proof fn only_an_ok_record_counts(ticker: Seq<char>, path: Seq<char>, j: Document)
    ensures
        analysis_of(ticker, path, j) is Some <==> text_in(j, "status"@) == Some("ok"@),
        analysis_of(ticker, path, j) matches Some(a) ==> {
            &&& a.found
            &&& a.ticker == ticker
            &&& a.source_path == Some(path)
            &&& text_in(j, "direction"@) is None ==> a.direction == Direction::Neutral
            &&& text_in(j, "direction"@) matches Some(w) ==> a.direction == direction_of(w)
            &&& number_in(j, "confidence"@) matches Some(x) ==> a.confidence == x
            &&& number_in(j, "confidence"@) is None ==> a.confidence == 0
            &&& text_in(j, "decision"@) matches Some(d) ==> a.decision == d
            &&& text_in(j, "trade_date"@) matches Some(d) ==> a.trade_date == d
            &&& a.quant is Some <==> object_in(j, "quant"@) is Some
        },
{
}

/// The first file that holds an analysis counts, whatever comes behind it; where no
/// file holds one, nothing was found and the name is neutral.
pub proof fn the_newest_record_counts(ticker: Seq<char>, files: Seq<ReportView>, k: int, from: int)
    requires
        0 <= from <= k <= files.len(),
        forall|i: int| from <= i < k ==> analysis_in(ticker, #[trigger] files[i]) is None,
        k < files.len() ==> analysis_in(ticker, files[k]) is Some,
    ensures
        k < files.len() ==> Some(first_analysis(ticker, files, from)) == analysis_in(ticker, files[k]),
        k == files.len() ==> ({
            let a = first_analysis(ticker, files, from);
            !a.found && a.ticker == ticker && a.direction == Direction::Neutral && a.confidence == 0 && a.quant is None
        }),
    decreases k - from,
{
    if from < k {
        assert(analysis_in(ticker, files[from]) is None);
        the_newest_record_counts(ticker, files, k, from + 1);
    }
}

/// A text of the market regime that has no whole score.
pub open spec fn scoreless(text: Option<Seq<char>>) -> bool {
    document_in(text) matches Some(d) ==> whole_in(d, "score"@) is None
}

/// The first text with a score counts; none where no text has one.
pub proof fn the_newest_score_counts(texts: Seq<Option<Seq<char>>>, k: int, from: int)
    requires
        0 <= from <= k <= texts.len(),
        forall|i: int| from <= i < k ==> scoreless(#[trigger] texts[i]),
        k < texts.len() ==> !scoreless(texts[k]),
    ensures
        k == texts.len() ==> first_score(texts, from) is None,
        k < texts.len() ==> (document_in(texts[k]) matches Some(d) && first_score(texts, from) == whole_in(d, "score"@)),
    decreases k - from,
{
    if from < k {
        assert(scoreless(texts[from]));
        the_newest_score_counts(texts, k, from + 1);
    }
}

// ── what is read from a record ─────────────────────────────────────────────

/// Every number of the market context is the one under its own name.
pub proof fn market_fields_have_their_names(j: Document)
    ensures
        match (object_in(j, "quant"@), quant_of(j)) {
            (Some(o), Some(q)) => {
                &&& q.source == text_in(o, "source"@)
                &&& q.price == number_in(o, "price"@)
                &&& q.as_of == text_in(o, "as_of"@)
                &&& q.realized_vol_20d == number_in(o, "realized_vol_20d"@)
                &&& q.atr_pct_14d == number_in(o, "atr_pct_14d"@)
                &&& q.range_position_52w == number_in(o, "range_position_52w"@)
                &&& q.avg_dollar_volume_20d == number_in(o, "avg_dollar_volume_20d"@)
                &&& q.iv == number_in(o, "iv"@)
                &&& q.iv_vs_realized == number_in(o, "iv_vs_realized"@)
                &&& q.expected_move_30d_pct == number_in(o, "expected_move_30d_pct"@)
                &&& q.iv_rank == number_in(o, "iv_rank"@)
                &&& q.next_earnings_date == text_in(o, "next_earnings_date"@)
                &&& q.days_to_earnings == whole_in(o, "days_to_earnings"@)
                &&& q.analyst_target == number_in(o, "analyst_target"@)
                &&& q.analyst_target_upside_pct == number_in(o, "analyst_target_upside_pct"@)
                &&& q.free_float_pct == number_in(o, "free_float_pct"@)
                &&& q.float_shares == whole_in(o, "float_shares"@)
                &&& q.macro_score == whole_in(o, "macro_score"@)
                &&& q.fundamentals is Some <==> object_in(o, "fundamentals"@) is Some
                &&& q.dilution is Some <==> object_in(o, "dilution"@) is Some
                &&& q.short is Some <==> object_in(o, "short"@) is Some
            },
            (None, None) => true,
            _ => false,
        },
{
}

/// The same of the fundamentals and of the finding on new shares.
pub proof fn parts_have_their_names(q: Document)
    ensures
        match (object_in(q, "fundamentals"@), fundamentals_of(q)) {
            (Some(o), Some(f)) => {
                &&& f.revenue_yoy_pct == number_in(o, "revenue_yoy_pct"@)
                &&& f.ocf_margin_trend_pp == number_in(o, "ocf_margin_trend_pp"@)
                &&& f.op_margin_trend_pp == number_in(o, "op_margin_trend_pp"@)
                &&& f.capex_cycle == flag_in(o, "capex_cycle"@)
                &&& f.p_ocf_vs_median_pct == number_in(o, "p_ocf_vs_median_pct"@)
            },
            (None, None) => true,
            _ => false,
        },
        match (object_in(q, "dilution"@), dilution_of(q)) {
            (Some(o), Some(d)) => {
                &&& text_in(o, "severity"@) matches Some(t) ==> d.severity == t
                &&& text_in(o, "severity"@) is None ==> d.severity == ""@
                &&& d.active_takedown <==> object_in(o, "active_takedown"@) is Some
                &&& d.recent_takedown <==> object_in(o, "recent_takedown"@) is Some
                &&& d.shelf <==> object_in(o, "shelf"@) is Some
                &&& d.share_growth_pct_yr == number_in(o, "share_growth_pct_yr"@)
                &&& text_in(o, "quality"@) matches Some(t) ==> d.quality == t
            },
            (None, None) => true,
            _ => false,
        },
{
}

/// The same of the two halves on shorts: the flow of a day and the interest that was
/// settled; a half that is missing leaves its fields open.
pub proof fn halves_have_their_names(q: Document)
    ensures
        match (object_in(q, "short"@), short_of(q)) {
            (Some(o), Some(d)) => {
                &&& object_in(o, "daily_short_volume"@) matches Some(v) ==> d.daily_read == text_in(v, "read"@) && d.daily_z
                    == number_in(v, "z"@) && d.daily_date == text_in(v, "date"@)
                &&& object_in(o, "daily_short_volume"@) is None ==> d.daily_read is None && d.daily_z is None && d.daily_date is None
                &&& object_in(o, "short_interest"@) matches Some(i) ==> d.si_read == text_in(i, "read"@) && d.short_pct_float
                    == number_in(i, "short_pct_float"@) && d.days_to_cover == number_in(i, "days_to_cover"@) && d.settlement_date
                    == text_in(i, "settlement_date"@)
                &&& object_in(o, "short_interest"@) is None ==> d.si_read is None && d.short_pct_float is None
                    && d.days_to_cover is None && d.settlement_date is None
                &&& text_in(o, "quality"@) matches Some(t) ==> d.quality == t
            },
            (None, None) => true,
            _ => false,
        },
{
}

// ── how strong a record is ─────────────────────────────────────────────────

/// The conviction has the sign of the direction and the size of the confidence, from
/// none up to one; a bullish and a bearish record of the same confidence cancel.
pub proof fn conviction_is_the_signed_confidence(a: AnalysisView, b: AnalysisView)
    requires
        a.direction == Direction::Bullish,
        b.direction == Direction::Bearish,
        a.confidence == b.confidence,
    ensures
        conviction(a) + conviction(b) == 0,
        0 <= a.confidence <= 1_000_000_000_000 ==> conviction(a) == a.confidence,
        a.confidence > 1_000_000_000_000 ==> conviction(a) == 1_000_000_000_000,
        a.confidence < 0 ==> conviction(a) == 0,
        forall|c: AnalysisView| c.direction == Direction::Neutral ==> #[trigger] conviction(c) == 0,
{
}

/// A record is strong from a confidence of eight tenths on, however much more; one
/// that was not found never is, nor is a neutral one, and none is strong both ways.
pub proof fn a_strong_record_is_confident(a: AnalysisView)
    ensures
        a.found && a.direction == Direction::Bearish && a.confidence >= 800_000_000_000 ==> strong_bearish(a),
        a.found && a.direction == Direction::Bullish && a.confidence >= 800_000_000_000 ==> strong_bullish(a),
        a.confidence < 800_000_000_000 || !a.found ==> !strong_bearish(a) && !strong_bullish(a),
        a.direction != Direction::Bearish ==> !strong_bearish(a),
        a.direction != Direction::Bullish ==> !strong_bullish(a),
{
}

} // verus!
