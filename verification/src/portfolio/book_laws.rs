//! The book itself: what it is invested in, and how much of it.
use vstd::prelude::*;

use crate::alpaca_data::{occ_fields, occ_round_trip, third_friday_is_the_third_friday, third_friday_of};
use crate::config::Settings;
use crate::portfolio::targets::{
    label_is_upper, labels_are_distinct, line_of, line_of_facts, symbol_of, table, theme_name, Instrument, Tier, COUNT, EQUITY, INVESTED,
};
use crate::text::{trimmed, upper};

verus! {

/// A line of the book has a label, a tier, a cluster, a share in percent and a reference
/// price.
pub open spec fn line_is(i: int, label: Seq<char>, tier: Tier, cluster: Seq<char>, pct: int, anchor: int) -> bool {
    let t = table()[i];
    t.ticker@ == label && t.tier == tier && t.cluster@ == cluster && t.target_pct == pct && t.spot_anchor == anchor
}

/// The equity sleeve: sixteen stocks, floor and asymmetric.
pub proof fn the_equity_sleeve()
    ensures
        line_is(0, "GEV"@, Tier::Floor, "Grid hardware"@, 10_000_000_000_000, 1_049_000_000_000_000),
        line_is(1, "CEG"@, Tier::Floor, "Nuclear baseload"@, 10_000_000_000_000, 267_000_000_000_000),
        line_is(2, "ETN"@, Tier::Floor, "Grid hardware"@, 7_500_000_000_000, 410_000_000_000_000),
        line_is(3, "VST"@, Tier::Floor, "Nuclear baseload"@, 7_500_000_000_000, 160_000_000_000_000),
        line_is(4, "KLAC"@, Tier::Floor, "Fab"@, 7_500_000_000_000, 255_000_000_000_000),
        line_is(5, "NOC"@, Tier::Floor, "Defense AGI"@, 7_500_000_000_000, 550_000_000_000_000),
        line_is(6, "IREN"@, Tier::Asymmetric, "AI compute/hosting"@, 5_000_000_000_000, 22_000_000_000_000),
        line_is(7, "APLD"@, Tier::Asymmetric, "AI compute/hosting"@, 3_800_000_000_000, 11_000_000_000_000),
        line_is(8, "CRWV"@, Tier::Asymmetric, "AI compute/hosting"@, 3_800_000_000_000, 70_000_000_000_000),
        line_is(9, "PLTR"@, Tier::Asymmetric, "Defense AGI"@, 3_800_000_000_000, 133_000_000_000_000),
        line_is(10, "STRL"@, Tier::Asymmetric, "DC build-out"@, 3_800_000_000_000, 867_000_000_000_000),
        line_is(11, "MTZ"@, Tier::Asymmetric, "DC build-out"@, 2_500_000_000_000, 373_000_000_000_000),
        line_is(12, "BWXT"@, Tier::Asymmetric, "Defense AGI"@, 2_500_000_000_000, 203_000_000_000_000),
        line_is(13, "VRT"@, Tier::Asymmetric, "Grid hardware"@, 2_500_000_000_000, 318_000_000_000_000),
        line_is(14, "AVAV"@, Tier::Asymmetric, "Defense AGI"@, 2_500_000_000_000, 168_000_000_000_000),
        line_is(15, "OKLO"@, Tier::Asymmetric, "Nuclear baseload"@, 2_500_000_000_000, 68_000_000_000_000),
        forall|i: int| 0 <= i < EQUITY ==> (#[trigger] table()[i]).instrument is Stock,
{
    reveal(table);
}

/// The moonshot sleeve: four calls that expire in January and two micro-cap slots; then
/// the cash.
pub proof fn the_moonshot_sleeve()
    ensures
        line_is(16, "NVDA_LEAPS"@, Tier::Moonshot, ""@, 3_750_000_000_000, 30_000_000_000_000),
        line_is(17, "CRWV_LEAPS"@, Tier::Moonshot, ""@, 2_500_000_000_000, 15_000_000_000_000),
        line_is(18, "IREN_LEAPS"@, Tier::Moonshot, ""@, 2_500_000_000_000, 3_000_000_000_000),
        line_is(19, "OKLO_LEAPS"@, Tier::Moonshot, ""@, 1_250_000_000_000, 8_000_000_000_000),
        line_is(20, "MICROCAP1"@, Tier::Moonshot, ""@, 1_250_000_000_000, 0),
        line_is(21, "MICROCAP2"@, Tier::Moonshot, ""@, 1_250_000_000_000, 0),
        line_is(22, "CASH"@, Tier::Cash, ""@, 5_000_000_000_000, 0),
        table()[16].instrument matches Instrument::Leaps { underlying, expiry_year, strike } && underlying@ == "NVDA"@
            && expiry_year == 2028 && strike == 300_000_000_000_000,
        table()[17].instrument matches Instrument::Leaps { underlying, expiry_year, strike } && underlying@ == "CRWV"@
            && expiry_year == 2027 && strike == 200_000_000_000_000,
        table()[18].instrument matches Instrument::Leaps { underlying, expiry_year, strike } && underlying@ == "IREN"@
            && expiry_year == 2027 && strike == 30_000_000_000_000,
        table()[19].instrument matches Instrument::Leaps { underlying, expiry_year, strike } && underlying@ == "OKLO"@
            && expiry_year == 2027 && strike == 150_000_000_000_000,
        table()[20].instrument matches Instrument::MicroCap { slot } && slot == 1,
        table()[21].instrument matches Instrument::MicroCap { slot } && slot == 2,
        table().len() == COUNT,
        COUNT == 23 && INVESTED == 22 && EQUITY == 16,
{
    reveal(table);
}

/// Defense is a theme of its own; the five clusters of the build-out are one theme.
pub proof fn the_two_themes()
    ensures
        theme_name("Defense AGI"@) == "defense"@,
        theme_name("Grid hardware"@) == "ai-infrastructure"@,
        theme_name("Nuclear baseload"@) == "ai-infrastructure"@,
        theme_name("Fab"@) == "ai-infrastructure"@,
        theme_name("AI compute/hosting"@) == "ai-infrastructure"@,
        theme_name("DC build-out"@) == "ai-infrastructure"@,
{
    reveal_strlit("Defense AGI");
    reveal_strlit("Grid hardware");
    reveal_strlit("Nuclear baseload");
    reveal_strlit("Fab");
    reveal_strlit("AI compute/hosting");
    reveal_strlit("DC build-out");
    assert("Defense AGI"@.len() == 11 && "Grid hardware"@.len() == 13 && "Nuclear baseload"@.len() == 16);
    assert("Fab"@.len() == 3 && "AI compute/hosting"@.len() == 18 && "DC build-out"@.len() == 12);
}

/// The expiry and the strike of a call of the book can be read back from its symbol.
pub proof fn the_terms_of_a_call(i: int)
    requires
        0 <= i < COUNT,
    ensures
        table()[i].instrument matches Instrument::Leaps { underlying, expiry_year, strike } ==> 2000 <= expiry_year <= 2099
            && strike % 1_000_000_000 == 0 && 0 <= strike / 1_000_000_000 < 100_000_000,
{
    reveal(table);
}

/// What a line trades as: a stock under its own label, a call under the symbol from which
/// its underlying, its expiry on the third Friday of January and its strike can be read
/// back, and a micro-cap under the ticker that the settings name for its slot, in upper
/// case; an empty slot trades as nothing.
pub proof fn what_a_line_trades_as(i: int, s: Settings)
    requires
        0 <= i < COUNT,
    ensures
        match table()[i].instrument {
            Instrument::Stock => symbol_of(table()[i], s) == Some(table()[i].ticker@),
            Instrument::Leaps { underlying, expiry_year, strike } => symbol_of(table()[i], s) matches Some(symbol) && occ_fields(
                symbol,
            ) == Some((upper(underlying@), third_friday_of(expiry_year as int, 1), true, strike as int)),
            Instrument::MicroCap { slot } => {
                let pick = trimmed(if slot == 1 {
                    s.microcap_1
                } else {
                    s.microcap_2
                });
                symbol_of(table()[i], s) == if pick.len() > 0 {
                    Some(upper(pick))
                } else {
                    None
                }
            },
        },
{
    if let Instrument::Leaps { underlying, expiry_year, strike } = table()[i].instrument {
        the_terms_of_a_call(i);
        third_friday_is_the_third_friday(expiry_year as int, 1);
        occ_round_trip(underlying@, third_friday_of(expiry_year as int, 1), true, strike as int / 1_000_000_000);
    }
}

/// A line is found under its label in any case, and nothing else is found.
pub proof fn a_line_is_found_in_any_case(label: Seq<char>, i: int)
    requires
        0 <= i < COUNT,
    ensures
        line_of(label) == Some(i) <==> upper(label) == table()[i].ticker@,
{
    line_of_facts(label);
    label_is_upper(i);
    labels_are_distinct();
    if upper(label) == table()[i].ticker@ {
        assert(line_of(table()[i].ticker@) == Some(i));
    }
    if let Some(j) = line_of(label) {
        if j != i {
            assert(table()[j].ticker@ != table()[i].ticker@);
        }
    }
}

} // verus!
