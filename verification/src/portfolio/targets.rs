//! The target book: what the portfolio means to hold, and how much of each.
//!
//! Four tiers: a floor of large caps, an asymmetric sleeve, a moonshot sleeve of
//! long-dated calls and micro-caps, and a cash buffer. The moonshot sleeve is
//! exempt from the position, cluster and theme caps; it has rules of its own.
use vstd::math::max;
use vstd::prelude::*;
use vstd::string::*;
use vstd::utf8::is_ascii_chars;

use crate::alpaca_data::{build_occ, occ_symbol, third_friday, third_friday_of};
use crate::calendar::{on_calendar, Ymd};
use crate::config::{AppConfig, Settings};
use crate::fixed::{integer_text, floor_div, larger, render, rendered, signed_decimal, within, Fixed, FRACTION_LIMIT, LIMIT, ONE};
use crate::text::{ascii_upper, same, to_upper, trim, trimmed, upper};

verus! {

/// The tier of a target.
#[derive(Clone, Copy, PartialEq, Eq, Debug, Structural)]
pub enum Tier {
    /// Large-cap builders of the floor.
    Floor,
    /// Mid and small caps with room to multiply; no stop.
    Asymmetric,
    /// Long-dated calls and micro-caps; may go to zero.
    Moonshot,
    /// The cash buffer.
    Cash,
}

impl Tier {
    /// The short name of the tier.
    pub fn label(self) -> (r: &'static str)
        ensures
            r@ == tier_label(self),
    {
        match self {
            Tier::Floor => "Floor",
            Tier::Asymmetric => "Asym",
            Tier::Moonshot => "Moon",
            Tier::Cash => "Cash",
        }
    }
}

/// The short name of a tier.
pub open spec fn tier_label(tier: Tier) -> Seq<char> {
    match tier {
        Tier::Floor => "Floor"@,
        Tier::Asymmetric => "Asym"@,
        Tier::Moonshot => "Moon"@,
        Tier::Cash => "Cash"@,
    }
}

/// What a target trades as.
#[derive(Clone, Copy, Debug)]
pub enum Instrument {
    Stock,
    /// A long-dated call that expires on the third Friday of January.
    Leaps { underlying: &'static str, expiry_year: i32, strike: Fixed },
    /// A micro-cap whose ticker the settings name.
    MicroCap { slot: u8 },
}

/// One line of the target book.
#[derive(Clone, Copy, Debug)]
pub struct Target {
    /// The unique label: the ticker of a stock, or a name of its own.
    pub ticker: &'static str,
    pub tier: Tier,
    /// The correlated cluster; empty outside the equity sleeve.
    pub cluster: &'static str,
    /// The share in percent before it is scaled.
    pub target_pct: Fixed,
    /// A reference price: the stock's, or guidance for a call's premium.
    pub spot_anchor: Fixed,
    pub instrument: Instrument,
    pub thesis: &'static str,
}

/// The label of the cash line.
pub const CASH_TICKER: &'static str = "CASH";

/// The number of lines in the book.
pub const COUNT: usize = 23;

/// The first lines of the book are the invested ones.
pub const INVESTED: usize = 22;

/// The first of those are the equity sleeve.
pub const EQUITY: usize = 16;

/// The target book.
#[verifier::opaque]
pub open spec fn table() -> Seq<Target> {
    seq![
        Target {
            ticker: "GEV",
            tier: Tier::Floor,
            cluster: "Grid hardware",
            target_pct: 10_000_000_000_000,
            spot_anchor: 1_049_000_000_000_000,
            instrument: Instrument::Stock,
            thesis: "Gas-turbine OEM + grid solutions; $163B backlog; closest public analog to Aschenbrenner's BE long.",
        },
        Target {
            ticker: "CEG",
            tier: Tier::Floor,
            cluster: "Nuclear baseload",
            target_pct: 10_000_000_000_000,
            spot_anchor: 267_000_000_000_000,
            instrument: Instrument::Stock,
            thesis: "~25% of US nuclear; Microsoft/Meta PPAs; deepest options chain in the nuclear cohort.",
        },
        Target {
            ticker: "ETN",
            tier: Tier::Floor,
            cluster: "Grid hardware",
            target_pct: 7_500_000_000_000,
            spot_anchor: 410_000_000_000_000,
            instrument: Instrument::Stock,
            thesis: "Switchgear + power distribution; DC orders +240% YoY; sell-side PT $654.",
        },
        Target {
            ticker: "VST",
            tier: Tier::Floor,
            cluster: "Nuclear baseload",
            target_pct: 7_500_000_000_000,
            spot_anchor: 160_000_000_000_000,
            instrument: Instrument::Stock,
            thesis: "Comanche Peak nuclear + 3,800 MW Meta/AWS PPAs + KKR Helix $10B JV anchor.",
        },
        Target {
            ticker: "KLAC",
            tier: Tier::Floor,
            cluster: "Fab",
            target_pct: 7_500_000_000_000,
            spot_anchor: 255_000_000_000_000,
            instrument: Instrument::Stock,
            thesis: "Process control = silent CoWoS winner; highest margins in WFE; HBM-fab capex tailwind.",
        },
        Target {
            ticker: "NOC",
            tier: Tier::Floor,
            cluster: "Defense AGI",
            target_pct: 7_500_000_000_000,
            spot_anchor: 550_000_000_000_000,
            instrument: Instrument::Stock,
            thesis: "Replicator Phase-2 + B-21 + space-based interceptor; cheapest fwd P/E of primes; defense-AGI ballast.",
        },
        Target {
            ticker: "IREN",
            tier: Tier::Asymmetric,
            cluster: "AI compute/hosting",
            target_pct: 5_000_000_000_000,
            spot_anchor: 22_000_000_000_000,
            instrument: Instrument::Stock,
            thesis: "Aschenbrenner long #2 ($401M). BTC miner → B200 AI-compute pivot. Also held as LEAPS in Tier D.",
        },
        Target {
            ticker: "APLD",
            tier: Tier::Asymmetric,
            cluster: "AI compute/hosting",
            target_pct: 3_800_000_000_000,
            spot_anchor: 11_000_000_000_000,
            instrument: Instrument::Stock,
            thesis: "Aschenbrenner long ($320M). AI-data-center hosting; CRWV-type customer leverage at lower base.",
        },
        Target {
            ticker: "CRWV",
            tier: Tier::Asymmetric,
            cluster: "AI compute/hosting",
            target_pct: 3_800_000_000_000,
            spot_anchor: 70_000_000_000_000,
            instrument: Instrument::Stock,
            thesis: "Aschenbrenner long #1 ($697M combined). Also held as LEAPS in Tier D.",
        },
        Target {
            ticker: "PLTR",
            tier: Tier::Asymmetric,
            cluster: "Defense AGI",
            target_pct: 3_800_000_000_000,
            spot_anchor: 133_000_000_000_000,
            instrument: Instrument::Stock,
            thesis: "AI + state pure-play; Maven program of record (Sept 2026); -26% YTD pullback is the entry.",
        },
        Target {
            ticker: "STRL",
            tier: Tier::Asymmetric,
            cluster: "DC build-out",
            target_pct: 3_800_000_000_000,
            spot_anchor: 867_000_000_000_000,
            instrument: Instrument::Stock,
            thesis: "E-Infrastructure +174% YoY; >90% of $3.8B backlog is AI DC + semi site work.",
        },
        Target {
            ticker: "MTZ",
            tier: Tier::Asymmetric,
            cluster: "DC build-out",
            target_pct: 2_500_000_000_000,
            spot_anchor: 373_000_000_000_000,
            instrument: Instrument::Stock,
            thesis: "Fiber backbone + utility power delivery; +106% TTM; long runway.",
        },
        Target {
            ticker: "BWXT",
            tier: Tier::Asymmetric,
            cluster: "Defense AGI",
            target_pct: 2_500_000_000_000,
            spot_anchor: 203_000_000_000_000,
            instrument: Instrument::Stock,
            thesis: "$1.4B+ naval reactor backlog + mPower SMR licensing for hyperscaler compute.",
        },
        Target {
            ticker: "VRT",
            tier: Tier::Asymmetric,
            cluster: "Grid hardware",
            target_pct: 2_500_000_000_000,
            spot_anchor: 318_000_000_000_000,
            instrument: Instrument::Stock,
            thesis: "~75% revenue from DCs; $15B+ backlog doubled YoY; cooling + power distribution.",
        },
        Target {
            ticker: "AVAV",
            tier: Tier::Asymmetric,
            cluster: "Defense AGI",
            target_pct: 2_500_000_000_000,
            spot_anchor: 168_000_000_000_000,
            instrument: Instrument::Stock,
            thesis: "Pure-play autonomy / loitering munitions; depressed entry on lawsuits; 10x candidate on M&A.",
        },
        Target {
            ticker: "OKLO",
            tier: Tier::Asymmetric,
            cluster: "Nuclear baseload",
            target_pct: 2_500_000_000_000,
            spot_anchor: 68_000_000_000_000,
            instrument: Instrument::Stock,
            thesis: "Aurora-INL criticality target ~July 4; binary but 10x+ on commercial deployment. Also held as LEAPS in Tier D.",
        },
        Target {
            ticker: "NVDA_LEAPS",
            tier: Tier::Moonshot,
            cluster: "",
            target_pct: 3_750_000_000_000,
            spot_anchor: 30_000_000_000_000,
            instrument: Instrument::Leaps { underlying: "NVDA", expiry_year: 2028, strike: 300_000_000_000_000 },
            thesis: "Anchor leg (replaces v3's BTC). NVDA $900+ by Jan-2028 → calls 10x; $1,300 mega-bull → 20x.",
        },
        Target {
            ticker: "CRWV_LEAPS",
            tier: Tier::Moonshot,
            cluster: "",
            target_pct: 2_500_000_000_000,
            spot_anchor: 15_000_000_000_000,
            instrument: Instrument::Leaps { underlying: "CRWV", expiry_year: 2027, strike: 200_000_000_000_000 },
            thesis: "Aschenbrenner's #1 long with leverage. CRWV $400 → 13x; $700 → 33x; $1,500 mega-bull → 87x.",
        },
        Target {
            ticker: "IREN_LEAPS",
            tier: Tier::Moonshot,
            cluster: "",
            target_pct: 2_500_000_000_000,
            spot_anchor: 3_000_000_000_000,
            instrument: Instrument::Leaps { underlying: "IREN", expiry_year: 2027, strike: 30_000_000_000_000 },
            thesis: "Replaces v3's SOL/alt slot. IREN $66 → ~12x; $150 (7x target) → 40x; $300 → 90x.",
        },
        Target {
            ticker: "OKLO_LEAPS",
            tier: Tier::Moonshot,
            cluster: "",
            target_pct: 1_250_000_000_000,
            spot_anchor: 8_000_000_000_000,
            instrument: Instrument::Leaps { underlying: "OKLO", expiry_year: 2027, strike: 150_000_000_000_000 },
            thesis: "Highest-beta single leg. Aurora-INL criticality + rerate to $300-500 → calls 19-44x.",
        },
        Target {
            ticker: "MICROCAP1",
            tier: Tier::Moonshot,
            cluster: "",
            target_pct: 1_250_000_000_000,
            spot_anchor: 0,
            instrument: Instrument::MicroCap { slot: 1 },
            thesis: "Quantum slot (IONQ/RGTI/QBTS). 10-30x on quantum-supremacy breakthrough or DoE/DARPA contract; else ~zero.",
        },
        Target {
            ticker: "MICROCAP2",
            tier: Tier::Moonshot,
            cluster: "",
            target_pct: 1_250_000_000_000,
            spot_anchor: 0,
            instrument: Instrument::MicroCap { slot: 2 },
            thesis: "Defense/space slot (ASTS/RKLB/KTOS/MRCY). 5-30x on a commercial-deployment milestone or DoD win.",
        },
        Target {
            ticker: "CASH",
            tier: Tier::Cash,
            cluster: "",
            target_pct: 5_000_000_000_000,
            spot_anchor: 0,
            instrument: Instrument::Stock,
            thesis: "Drawdown deployment + $500 IPO reserve. Deploy on single-name >25% OR cohort >15%.",
        },
    ]
}

/// The target book.
pub fn targets() -> (r: Vec<Target>)
    ensures
        r@ == table(),
        r@.len() == COUNT,
{
    proof {
        reveal(table);
    }
    vec![
        Target {
            ticker: "GEV",
            tier: Tier::Floor,
            cluster: "Grid hardware",
            target_pct: 10_000_000_000_000,
            spot_anchor: 1_049_000_000_000_000,
            instrument: Instrument::Stock,
            thesis: "Gas-turbine OEM + grid solutions; $163B backlog; closest public analog to Aschenbrenner's BE long.",
        },
        Target {
            ticker: "CEG",
            tier: Tier::Floor,
            cluster: "Nuclear baseload",
            target_pct: 10_000_000_000_000,
            spot_anchor: 267_000_000_000_000,
            instrument: Instrument::Stock,
            thesis: "~25% of US nuclear; Microsoft/Meta PPAs; deepest options chain in the nuclear cohort.",
        },
        Target {
            ticker: "ETN",
            tier: Tier::Floor,
            cluster: "Grid hardware",
            target_pct: 7_500_000_000_000,
            spot_anchor: 410_000_000_000_000,
            instrument: Instrument::Stock,
            thesis: "Switchgear + power distribution; DC orders +240% YoY; sell-side PT $654.",
        },
        Target {
            ticker: "VST",
            tier: Tier::Floor,
            cluster: "Nuclear baseload",
            target_pct: 7_500_000_000_000,
            spot_anchor: 160_000_000_000_000,
            instrument: Instrument::Stock,
            thesis: "Comanche Peak nuclear + 3,800 MW Meta/AWS PPAs + KKR Helix $10B JV anchor.",
        },
        Target {
            ticker: "KLAC",
            tier: Tier::Floor,
            cluster: "Fab",
            target_pct: 7_500_000_000_000,
            spot_anchor: 255_000_000_000_000,
            instrument: Instrument::Stock,
            thesis: "Process control = silent CoWoS winner; highest margins in WFE; HBM-fab capex tailwind.",
        },
        Target {
            ticker: "NOC",
            tier: Tier::Floor,
            cluster: "Defense AGI",
            target_pct: 7_500_000_000_000,
            spot_anchor: 550_000_000_000_000,
            instrument: Instrument::Stock,
            thesis: "Replicator Phase-2 + B-21 + space-based interceptor; cheapest fwd P/E of primes; defense-AGI ballast.",
        },
        Target {
            ticker: "IREN",
            tier: Tier::Asymmetric,
            cluster: "AI compute/hosting",
            target_pct: 5_000_000_000_000,
            spot_anchor: 22_000_000_000_000,
            instrument: Instrument::Stock,
            thesis: "Aschenbrenner long #2 ($401M). BTC miner → B200 AI-compute pivot. Also held as LEAPS in Tier D.",
        },
        Target {
            ticker: "APLD",
            tier: Tier::Asymmetric,
            cluster: "AI compute/hosting",
            target_pct: 3_800_000_000_000,
            spot_anchor: 11_000_000_000_000,
            instrument: Instrument::Stock,
            thesis: "Aschenbrenner long ($320M). AI-data-center hosting; CRWV-type customer leverage at lower base.",
        },
        Target {
            ticker: "CRWV",
            tier: Tier::Asymmetric,
            cluster: "AI compute/hosting",
            target_pct: 3_800_000_000_000,
            spot_anchor: 70_000_000_000_000,
            instrument: Instrument::Stock,
            thesis: "Aschenbrenner long #1 ($697M combined). Also held as LEAPS in Tier D.",
        },
        Target {
            ticker: "PLTR",
            tier: Tier::Asymmetric,
            cluster: "Defense AGI",
            target_pct: 3_800_000_000_000,
            spot_anchor: 133_000_000_000_000,
            instrument: Instrument::Stock,
            thesis: "AI + state pure-play; Maven program of record (Sept 2026); -26% YTD pullback is the entry.",
        },
        Target {
            ticker: "STRL",
            tier: Tier::Asymmetric,
            cluster: "DC build-out",
            target_pct: 3_800_000_000_000,
            spot_anchor: 867_000_000_000_000,
            instrument: Instrument::Stock,
            thesis: "E-Infrastructure +174% YoY; >90% of $3.8B backlog is AI DC + semi site work.",
        },
        Target {
            ticker: "MTZ",
            tier: Tier::Asymmetric,
            cluster: "DC build-out",
            target_pct: 2_500_000_000_000,
            spot_anchor: 373_000_000_000_000,
            instrument: Instrument::Stock,
            thesis: "Fiber backbone + utility power delivery; +106% TTM; long runway.",
        },
        Target {
            ticker: "BWXT",
            tier: Tier::Asymmetric,
            cluster: "Defense AGI",
            target_pct: 2_500_000_000_000,
            spot_anchor: 203_000_000_000_000,
            instrument: Instrument::Stock,
            thesis: "$1.4B+ naval reactor backlog + mPower SMR licensing for hyperscaler compute.",
        },
        Target {
            ticker: "VRT",
            tier: Tier::Asymmetric,
            cluster: "Grid hardware",
            target_pct: 2_500_000_000_000,
            spot_anchor: 318_000_000_000_000,
            instrument: Instrument::Stock,
            thesis: "~75% revenue from DCs; $15B+ backlog doubled YoY; cooling + power distribution.",
        },
        Target {
            ticker: "AVAV",
            tier: Tier::Asymmetric,
            cluster: "Defense AGI",
            target_pct: 2_500_000_000_000,
            spot_anchor: 168_000_000_000_000,
            instrument: Instrument::Stock,
            thesis: "Pure-play autonomy / loitering munitions; depressed entry on lawsuits; 10x candidate on M&A.",
        },
        Target {
            ticker: "OKLO",
            tier: Tier::Asymmetric,
            cluster: "Nuclear baseload",
            target_pct: 2_500_000_000_000,
            spot_anchor: 68_000_000_000_000,
            instrument: Instrument::Stock,
            thesis: "Aurora-INL criticality target ~July 4; binary but 10x+ on commercial deployment. Also held as LEAPS in Tier D.",
        },
        Target {
            ticker: "NVDA_LEAPS",
            tier: Tier::Moonshot,
            cluster: "",
            target_pct: 3_750_000_000_000,
            spot_anchor: 30_000_000_000_000,
            instrument: Instrument::Leaps { underlying: "NVDA", expiry_year: 2028, strike: 300_000_000_000_000 },
            thesis: "Anchor leg (replaces v3's BTC). NVDA $900+ by Jan-2028 → calls 10x; $1,300 mega-bull → 20x.",
        },
        Target {
            ticker: "CRWV_LEAPS",
            tier: Tier::Moonshot,
            cluster: "",
            target_pct: 2_500_000_000_000,
            spot_anchor: 15_000_000_000_000,
            instrument: Instrument::Leaps { underlying: "CRWV", expiry_year: 2027, strike: 200_000_000_000_000 },
            thesis: "Aschenbrenner's #1 long with leverage. CRWV $400 → 13x; $700 → 33x; $1,500 mega-bull → 87x.",
        },
        Target {
            ticker: "IREN_LEAPS",
            tier: Tier::Moonshot,
            cluster: "",
            target_pct: 2_500_000_000_000,
            spot_anchor: 3_000_000_000_000,
            instrument: Instrument::Leaps { underlying: "IREN", expiry_year: 2027, strike: 30_000_000_000_000 },
            thesis: "Replaces v3's SOL/alt slot. IREN $66 → ~12x; $150 (7x target) → 40x; $300 → 90x.",
        },
        Target {
            ticker: "OKLO_LEAPS",
            tier: Tier::Moonshot,
            cluster: "",
            target_pct: 1_250_000_000_000,
            spot_anchor: 8_000_000_000_000,
            instrument: Instrument::Leaps { underlying: "OKLO", expiry_year: 2027, strike: 150_000_000_000_000 },
            thesis: "Highest-beta single leg. Aurora-INL criticality + rerate to $300-500 → calls 19-44x.",
        },
        Target {
            ticker: "MICROCAP1",
            tier: Tier::Moonshot,
            cluster: "",
            target_pct: 1_250_000_000_000,
            spot_anchor: 0,
            instrument: Instrument::MicroCap { slot: 1 },
            thesis: "Quantum slot (IONQ/RGTI/QBTS). 10-30x on quantum-supremacy breakthrough or DoE/DARPA contract; else ~zero.",
        },
        Target {
            ticker: "MICROCAP2",
            tier: Tier::Moonshot,
            cluster: "",
            target_pct: 1_250_000_000_000,
            spot_anchor: 0,
            instrument: Instrument::MicroCap { slot: 2 },
            thesis: "Defense/space slot (ASTS/RKLB/KTOS/MRCY). 5-30x on a commercial-deployment milestone or DoD win.",
        },
        Target {
            ticker: "CASH",
            tier: Tier::Cash,
            cluster: "",
            target_pct: 5_000_000_000_000,
            spot_anchor: 0,
            instrument: Instrument::Stock,
            thesis: "Drawdown deployment + $500 IPO reserve. Deploy on single-name >25% OR cohort >15%.",
        },
    ]
}

/// The names that the equity caps apply to.
pub open spec fn in_equity(tier: Tier) -> bool {
    tier == Tier::Floor || tier == Tier::Asymmetric
}

/// The order of the book: the equity sleeve, the moonshot sleeve, cash.
pub proof fn table_shape()
    ensures
        table().len() == COUNT,
        forall|i: int| 0 <= i < COUNT ==> (in_equity(#[trigger] table()[i].tier) <==> i < EQUITY),
        forall|i: int|
            0 <= i < COUNT ==> (#[trigger] table()[i].tier == Tier::Moonshot <==> EQUITY <= i < INVESTED),
        forall|i: int| 0 <= i < COUNT ==> (#[trigger] table()[i].tier == Tier::Cash <==> i == INVESTED),
        forall|i: int| 0 <= i < COUNT ==> 0 < #[trigger] table()[i].target_pct <= 10 * ONE,
        forall|i: int| 0 <= i < COUNT ==> 0 <= #[trigger] table()[i].spot_anchor <= 2000 * ONE,
        forall|i: int| 0 <= i < COUNT ==> sound_instrument(#[trigger] table()[i].instrument),
        forall|i: int|
            0 <= i < EQUITY ==> #[trigger] table()[i].instrument is Stock,
{
    reveal(table);
}

/// A call's strike is of a size that its symbol can be built from.
pub open spec fn sound_instrument(i: Instrument) -> bool {
    i matches Instrument::Leaps { underlying, expiry_year, strike } ==> within(
        strike as int,
        LIMIT as int,
    )
}

/// Letters, digits and underscores, all in upper case.
pub open spec fn plain_label(s: Seq<char>) -> bool {
    forall|i: int|
        0 <= i < s.len() ==> ('A' <= #[trigger] s[i] <= 'Z' || '0' <= s[i] <= '9' || s[i] == '_')
}

proof fn plain_label_is_upper(s: Seq<char>)
    requires
        plain_label(s),
    ensures
        upper(s) == s,
{
    assert forall|i: int| 0 <= i < s.len() implies 0 <= #[trigger] s[i] < 128 by {}
    assert(is_ascii_chars(s));
    assert(ascii_upper(s) =~= s);
}

/// Every label stands in the book once, and is written in upper case.
#[verifier::spinoff_prover]
#[verifier::rlimit(60)]
pub proof fn labels_are_distinct()
    ensures
        forall|i: int| 0 <= i < COUNT ==> plain_label(#[trigger] table()[i].ticker@),
        forall|i: int, j: int|
            0 <= i < j < COUNT ==> #[trigger] table()[i].ticker@ != #[trigger] table()[j].ticker@,
{
    reveal(table);
    reveal_strlit("GEV");
    reveal_strlit("CEG");
    reveal_strlit("ETN");
    reveal_strlit("VST");
    reveal_strlit("KLAC");
    reveal_strlit("NOC");
    reveal_strlit("IREN");
    reveal_strlit("APLD");
    reveal_strlit("CRWV");
    reveal_strlit("PLTR");
    reveal_strlit("STRL");
    reveal_strlit("MTZ");
    reveal_strlit("BWXT");
    reveal_strlit("VRT");
    reveal_strlit("AVAV");
    reveal_strlit("OKLO");
    reveal_strlit("NVDA_LEAPS");
    reveal_strlit("CRWV_LEAPS");
    reveal_strlit("IREN_LEAPS");
    reveal_strlit("OKLO_LEAPS");
    reveal_strlit("MICROCAP1");
    reveal_strlit("MICROCAP2");
    reveal_strlit("CASH");
    assert(plain_label(table()[0].ticker@));
    assert(plain_label(table()[1].ticker@));
    assert(plain_label(table()[2].ticker@));
    assert(plain_label(table()[3].ticker@));
    assert(plain_label(table()[4].ticker@));
    assert(plain_label(table()[5].ticker@));
    assert(plain_label(table()[6].ticker@));
    assert(plain_label(table()[7].ticker@));
    assert(plain_label(table()[8].ticker@));
    assert(plain_label(table()[9].ticker@));
    assert(plain_label(table()[10].ticker@));
    assert(plain_label(table()[11].ticker@));
    assert(plain_label(table()[12].ticker@));
    assert(plain_label(table()[13].ticker@));
    assert(plain_label(table()[14].ticker@));
    assert(plain_label(table()[15].ticker@));
    assert(plain_label(table()[16].ticker@));
    assert(plain_label(table()[17].ticker@));
    assert(plain_label(table()[18].ticker@));
    assert(plain_label(table()[19].ticker@));
    assert(plain_label(table()[20].ticker@));
    assert(plain_label(table()[21].ticker@));
    assert(plain_label(table()[22].ticker@));
    assert forall|i: int, j: int| 0 <= i < j < COUNT implies #[trigger] table()[i].ticker@
        != #[trigger] table()[j].ticker@ by {
        let (a, b) = (table()[i].ticker@, table()[j].ticker@);
        if a.len() == b.len() {
            assert(a[0] != b[0] || a[1] != b[1] || a[2] != b[2] || a[3] != b[3] || a[8] != b[8]);
        }
    }
}

// ── selections ─────────────────────────────────────────────────────────────

fn lines(from: usize, to: usize) -> (r: Vec<Target>)
    requires
        from <= to <= COUNT,
    ensures
        table().len() == COUNT,
        r@ == table().subrange(from as int, to as int),
{
    let all = targets();
    let mut out: Vec<Target> = Vec::new();
    let mut i: usize = from;
    while i < to
        invariant
            from <= i <= to <= COUNT,
            all@ == table(),
            all@.len() == COUNT,
            table().len() == COUNT,
            out@ == table().subrange(from as int, i as int),
        decreases to - i,
    {
        out.push(all[i]);
        assert(table().subrange(from as int, i as int).push(table()[i as int]) =~= table().subrange(
            from as int,
            i + 1,
        ));
        i += 1;
    }
    out
}

/// Every line but cash.
pub fn invested() -> (r: Vec<Target>)
    ensures
        r@ == table().subrange(0, INVESTED as int),
        r@.len() == INVESTED,
        table().len() == COUNT,
        forall|i: int| 0 <= i < COUNT ==> (#[trigger] table()[i].tier != Tier::Cash <==> i < INVESTED),
{
    proof {
        table_shape();
    }
    lines(0, INVESTED)
}

/// The equity sleeve.
pub fn equity_invested() -> (r: Vec<Target>)
    ensures
        r@ == table().subrange(0, EQUITY as int),
        r@.len() == EQUITY,
        table().len() == COUNT,
        forall|i: int| 0 <= i < COUNT ==> (in_equity(#[trigger] table()[i].tier) <==> i < EQUITY),
{
    proof {
        table_shape();
    }
    lines(0, EQUITY)
}

/// The moonshot sleeve.
pub fn moonshot() -> (r: Vec<Target>)
    ensures
        r@ == table().subrange(EQUITY as int, INVESTED as int),
        r@.len() == INVESTED - EQUITY,
        table().len() == COUNT,
        forall|i: int|
            0 <= i < COUNT ==> (#[trigger] table()[i].tier == Tier::Moonshot <==> EQUITY <= i
                < INVESTED),
{
    proof {
        table_shape();
    }
    lines(EQUITY, INVESTED)
}

/// The first line from `from` on whose label is `label`, or the number of lines.
pub open spec fn line_from(label: Seq<char>, from: int) -> int
    decreases COUNT - from,
{
    if from >= COUNT || table()[from].ticker@ == label {
        from
    } else {
        line_from(label, from + 1)
    }
}

/// Where the book has a label, taken in upper case.
pub open spec fn line_of(label: Seq<char>) -> Option<int> {
    let i = line_from(upper(label), 0);
    if i < COUNT {
        Some(i)
    } else {
        None
    }
}

proof fn line_from_facts(label: Seq<char>, from: int)
    requires
        0 <= from <= COUNT,
    ensures
        from <= line_from(label, from) <= COUNT,
        line_from(label, from) < COUNT ==> table()[line_from(label, from)].ticker@ == label,
        forall|i: int| from <= i < line_from(label, from) ==> #[trigger] table()[i].ticker@ != label,
    decreases COUNT - from,
{
    if from < COUNT && table()[from].ticker@ != label {
        line_from_facts(label, from + 1);
    }
}

/// Every label is its own upper-case form.
pub proof fn label_is_upper(i: int)
    requires
        0 <= i < COUNT,
    ensures
        upper(table()[i].ticker@) == table()[i].ticker@,
{
    labels_are_distinct();
    plain_label_is_upper(table()[i].ticker@);
}

/// What is found has the label that was asked for, and every line is found under
/// its own label.
pub proof fn line_of_facts(label: Seq<char>)
    ensures
        line_of(label) matches Some(i) ==> 0 <= i < COUNT && table()[i].ticker@ == upper(label),
        forall|i: int| 0 <= i < COUNT ==> line_of(#[trigger] table()[i].ticker@) == Some(i),
{
    line_from_facts(upper(label), 0);
    labels_are_distinct();
    assert forall|i: int| 0 <= i < COUNT implies line_of(#[trigger] table()[i].ticker@) == Some(
        i,
    ) by {
        let t = table()[i].ticker@;
        plain_label_is_upper(t);
        line_from_facts(t, 0);
        let j = line_from(t, 0);
        if j < i {
            assert(table()[j].ticker@ != table()[i].ticker@);
        }
    }
}

/// Where the book has a label, taken in upper case.
pub fn position(ticker: &str) -> (r: Option<usize>)
    ensures
        match r {
            Some(i) => line_of(ticker@) == Some(i as int) && i < COUNT,
            None => line_of(ticker@) is None,
        },
{
    let label = to_upper(ticker);
    let all = targets();
    let mut i: usize = 0;
    while i < COUNT
        invariant
            label@ == upper(ticker@),
            i <= COUNT,
            all@ == table(),
            all@.len() == COUNT,
            table().len() == COUNT,
            line_from(label@, 0) == line_from(label@, i as int),
        decreases COUNT - i,
    {
        if same(all[i].ticker, label.as_str()) {
            return Some(i);
        }
        i += 1;
    }
    None
}

/// The line with a label, taken in upper case.
pub fn find(ticker: &str) -> (r: Option<Target>)
    ensures
        match r {
            Some(t) => line_of(ticker@) matches Some(i) && t == table()[i],
            None => line_of(ticker@) is None,
        },
{
    match position(ticker) {
        Some(i) => Some(targets()[i]),
        None => None,
    }
}

// ── weights ────────────────────────────────────────────────────────────────

/// The raw shares of the first `n` lines.
pub open spec fn raw_sum(n: int) -> int
    decreases n,
{
    if n <= 0 {
        0
    } else {
        raw_sum(n - 1) + table()[n - 1].target_pct
    }
}

/// The raw shares of the invested lines add up to 95.2 %.
pub proof fn raw_sum_value()
    ensures
        raw_sum(INVESTED as int) == 95_200_000_000_000,
{
    reveal(table);
    reveal_with_fuel(raw_sum, 23);
}

fn invested_raw_sum() -> (r: Fixed)
    ensures
        r == raw_sum(INVESTED as int),
        r == 95_200_000_000_000,
{
    let all = invested();
    let mut sum: i128 = 0;
    let mut i: usize = 0;
    while i < INVESTED
        invariant
            i <= INVESTED,
            all@ == table().subrange(0, INVESTED as int),
            all@.len() == INVESTED,
            table().len() == COUNT,
            sum == raw_sum(i as int),
            0 <= sum <= i * 10 * ONE,
        decreases INVESTED - i,
    {
        proof {
            table_shape();
            assert(all@[i as int] == table()[i as int]);
        }
        sum = sum + all[i].target_pct;
        i += 1;
    }
    proof {
        raw_sum_value();
    }
    sum
}

/// The share of the account that line `i` aims at: its raw share, scaled so that
/// the invested lines together come to what the cash buffer leaves.
pub open spec fn line_weight(i: int, cash_buffer_pct: int) -> int {
    if 0 <= i < INVESTED {
        table()[i].target_pct * max(ONE - cash_buffer_pct, 0) / raw_sum(INVESTED as int)
    } else {
        0
    }
}

/// The share of the account that a label aims at; zero for cash and for a label
/// that the book does not have.
pub open spec fn label_weight(label: Seq<char>, cash_buffer_pct: int) -> int {
    match line_of(label) {
        Some(i) => line_weight(i, cash_buffer_pct),
        None => 0,
    }
}

/// A weight is never negative, and never more than the buffer leaves.
pub proof fn line_weight_range(i: int, cash_buffer_pct: int)
    requires
        within(cash_buffer_pct, FRACTION_LIMIT as int),
    ensures
        0 <= line_weight(i, cash_buffer_pct) <= max(ONE - cash_buffer_pct, 0),
        line_weight(i, cash_buffer_pct) <= 2 * FRACTION_LIMIT,
{
    if 0 <= i < INVESTED {
        table_shape();
        raw_sum_value();
        let p = table()[i].target_pct as int;
        let m = max(ONE - cash_buffer_pct, 0);
        assert(0 <= p * m <= 95_200_000_000_000 * m) by (nonlinear_arith)
            requires
                0 < p <= 95_200_000_000_000,
                0 <= m,
        ;
    }
}

/// The share of the account that line `i` aims at.
pub fn weight_at(i: usize, cash_buffer_pct: Fixed) -> (r: Fixed)
    requires
        i < COUNT,
        within(cash_buffer_pct as int, FRACTION_LIMIT as int),
    ensures
        r == line_weight(i as int, cash_buffer_pct as int),
        0 <= r <= 2 * FRACTION_LIMIT,
{
    proof {
        line_weight_range(i as int, cash_buffer_pct as int);
        table_shape();
    }
    if i >= INVESTED {
        return 0;
    }
    let t: Target = targets()[i];
    let left: i128 = larger(ONE - cash_buffer_pct, 0);
    proof {
        let (p, m) = (t.target_pct as int, left as int);
        assert(0 <= p * m <= 100_000_000_000_000_000_000_000_000_000) by (nonlinear_arith)
            requires
                0 < p <= 10_000_000_000_000,
                0 <= m <= 2_000_000_000_000_000,
        ;
    }
    floor_div(t.target_pct * left, invested_raw_sum())
}

/// The share of the account that a label aims at.
pub fn invested_target_weight(ticker: &str, cash_buffer_pct: Fixed) -> (r: Fixed)
    requires
        within(cash_buffer_pct as int, FRACTION_LIMIT as int),
    ensures
        r == label_weight(ticker@, cash_buffer_pct as int),
        0 <= r <= 2 * FRACTION_LIMIT,
{
    match position(ticker) {
        Some(i) => weight_at(i, cash_buffer_pct),
        None => 0,
    }
}

/// The weights of the first `n` lines.
pub open spec fn weight_sum(n: int, cash_buffer_pct: int) -> int
    decreases n,
{
    if n <= 0 {
        0
    } else {
        weight_sum(n - 1, cash_buffer_pct) + line_weight(n - 1, cash_buffer_pct)
    }
}

proof fn weight_sum_near(n: int, cash_buffer_pct: int)
    requires
        0 <= n <= INVESTED,
    ensures
        95_200_000_000_000 * weight_sum(n, cash_buffer_pct) <= raw_sum(n) * max(
            ONE - cash_buffer_pct,
            0,
        ) <= 95_200_000_000_000 * (weight_sum(n, cash_buffer_pct) + n),
    decreases n,
{
    let m = max(ONE - cash_buffer_pct, 0);
    if n > 0 {
        weight_sum_near(n - 1, cash_buffer_pct);
        raw_sum_value();
        let p = table()[n - 1].target_pct as int;
        let d = 95_200_000_000_000int;
        vstd::arithmetic::div_mod::lemma_fundamental_div_mod(p * m, d);
        assert((raw_sum(n - 1) + p) * m == raw_sum(n - 1) * m + p * m) by (nonlinear_arith);
    } else {
        assert(0 * m == 0) by (nonlinear_arith);
    }
}

/// The weights of the invested lines add up to what the cash buffer leaves, but
/// for what rounding each of the 22 down loses.
pub proof fn weights_add_up(cash_buffer_pct: int)
    ensures
        weight_sum(INVESTED as int, cash_buffer_pct) <= max(ONE - cash_buffer_pct, 0)
            <= weight_sum(INVESTED as int, cash_buffer_pct) + INVESTED,
{
    weight_sum_near(INVESTED as int, cash_buffer_pct);
    raw_sum_value();
    let (w, m) = (weight_sum(INVESTED as int, cash_buffer_pct), max(ONE - cash_buffer_pct, 0));
    assert(w <= m <= w + 22) by (nonlinear_arith)
        requires
            95_200_000_000_000 * w <= 95_200_000_000_000 * m <= 95_200_000_000_000 * (w + 22),
    ;
}

// ── clusters ───────────────────────────────────────────────────────────────

/// The numbers below `n`, in order, of the lines that belong to a cluster.
pub open spec fn cluster_lines(cluster: Seq<char>, n: int) -> Seq<int>
    decreases n,
{
    if n <= 0 {
        seq![]
    } else if table()[n - 1].cluster@ == cluster {
        cluster_lines(cluster, n - 1).push(n - 1)
    } else {
        cluster_lines(cluster, n - 1)
    }
}

/// The clusters of the first `n` lines, in the order in which they first occur.
pub open spec fn cluster_names(n: int) -> Seq<Seq<char>>
    decreases n,
{
    if n <= 0 {
        seq![]
    } else {
        let before = cluster_names(n - 1);
        let c = table()[n - 1].cluster@;
        if c.len() > 0 && !before.contains(c) {
            before.push(c)
        } else {
            before
        }
    }
}

/// The texts of a list of literals.
pub open spec fn names(v: Seq<&'static str>) -> Seq<Seq<char>> {
    v.map_values(|s: &'static str| s@)
}

fn listed(v: &Vec<&'static str>, name: &str) -> (r: bool)
    ensures
        r == names(v@).contains(name@),
{
    let mut i: usize = 0;
    while i < v.len()
        invariant
            i <= v@.len(),
            forall|k: int| 0 <= k < i ==> names(v@)[k] != name@,
        decreases v@.len() - i,
    {
        if same(v[i], name) {
            assert(names(v@)[i as int] == name@);
            return true;
        }
        i += 1;
    }
    false
}

/// The clusters of the equity sleeve, in the order in which they first occur.
pub fn clusters() -> (r: Vec<&'static str>)
    ensures
        names(r@) == cluster_names(EQUITY as int),
{
    let all = equity_invested();
    let mut out: Vec<&'static str> = Vec::new();
    let mut i: usize = 0;
    assert(names(out@) =~= cluster_names(0));
    while i < EQUITY
        invariant
            i <= EQUITY,
            all@ == table().subrange(0, EQUITY as int),
            all@.len() == EQUITY,
            table().len() == COUNT,
            names(out@) == cluster_names(i as int),
        decreases EQUITY - i,
    {
        assert(all@[i as int] == table()[i as int]);
        let c: &'static str = all[i].cluster;
        if c.unicode_len() > 0 && !listed(&out, c) {
            let ghost before = names(out@);
            out.push(c);
            assert(names(out@) =~= before.push(c@));
        }
        i += 1;
    }
    out
}

/// The numbers of the equity lines that belong to a cluster, in order.
pub fn cluster_positions(cluster: &str) -> (r: Vec<usize>)
    ensures
        r@.map_values(|i: usize| i as int) == cluster_lines(cluster@, EQUITY as int),
        forall|k: int| 0 <= k < r@.len() ==> #[trigger] r@[k] < EQUITY,
{
    let all = equity_invested();
    let mut out: Vec<usize> = Vec::new();
    let mut i: usize = 0;
    assert(out@.map_values(|i: usize| i as int) =~= cluster_lines(cluster@, 0));
    while i < EQUITY
        invariant
            i <= EQUITY,
            all@ == table().subrange(0, EQUITY as int),
            all@.len() == EQUITY,
            table().len() == COUNT,
            out@.map_values(|i: usize| i as int) == cluster_lines(cluster@, i as int),
            forall|k: int| 0 <= k < out@.len() ==> #[trigger] out@[k] < EQUITY,
        decreases EQUITY - i,
    {
        assert(all@[i as int] == table()[i as int]);
        if same(all[i].cluster, cluster) {
            let ghost before = out@.map_values(|i: usize| i as int);
            out.push(i);
            assert(out@.map_values(|i: usize| i as int) =~= before.push(i as int));
        }
        i += 1;
    }
    out
}

/// The labels of some lines.
pub open spec fn labels(lines: Seq<int>) -> Seq<Seq<char>> {
    lines.map_values(|i: int| table()[i].ticker@)
}

fn tickers(positions: &Vec<usize>) -> (r: Vec<&'static str>)
    requires
        forall|k: int| 0 <= k < positions@.len() ==> #[trigger] positions@[k] < EQUITY,
    ensures
        names(r@) == labels(positions@.map_values(|i: usize| i as int)),
{
    let all = targets();
    let mut out: Vec<&'static str> = Vec::new();
    let mut k: usize = 0;
    while k < positions.len()
        invariant
            k <= positions@.len(),
            all@ == table(),
            all@.len() == COUNT,
            table().len() == COUNT,
            forall|k: int| 0 <= k < positions@.len() ==> #[trigger] positions@[k] < EQUITY,
            out@.len() == k,
            forall|m: int|
                0 <= m < k ==> #[trigger] out@[m]@ == table()[positions@[m] as int].ticker@,
        decreases positions@.len() - k,
    {
        out.push(all[positions[k]].ticker);
        k += 1;
    }
    assert(names(out@) =~= labels(positions@.map_values(|i: usize| i as int)));
    out
}

/// The labels of a cluster's members, in the order of the book.
pub fn cluster_members(cluster: &str) -> (r: Vec<&'static str>)
    ensures
        names(r@) == labels(cluster_lines(cluster@, EQUITY as int)),
{
    tickers(&cluster_positions(cluster))
}

/// The weights of some lines together.
pub open spec fn weight_of_lines(lines: Seq<int>, cash_buffer_pct: int) -> int
    decreases lines.len(),
{
    if lines.len() == 0 {
        0
    } else {
        weight_of_lines(lines.drop_last(), cash_buffer_pct) + line_weight(
            lines.last(),
            cash_buffer_pct,
        )
    }
}

fn weight_of_positions(positions: &Vec<usize>, cash_buffer_pct: Fixed) -> (r: Fixed)
    requires
        forall|k: int| 0 <= k < positions@.len() ==> #[trigger] positions@[k] < EQUITY,
        positions@.len() <= EQUITY,
        within(cash_buffer_pct as int, FRACTION_LIMIT as int),
    ensures
        r == weight_of_lines(
            positions@.map_values(|i: usize| i as int),
            cash_buffer_pct as int,
        ),
        0 <= r <= EQUITY * (2 * FRACTION_LIMIT),
{
    let ghost all = positions@.map_values(|i: usize| i as int);
    let mut sum: i128 = 0;
    let mut k: usize = 0;
    while k < positions.len()
        invariant
            k <= positions@.len() <= EQUITY,
            all == positions@.map_values(|i: usize| i as int),
            forall|k: int| 0 <= k < positions@.len() ==> #[trigger] positions@[k] < EQUITY,
            within(cash_buffer_pct as int, FRACTION_LIMIT as int),
            sum == weight_of_lines(all.take(k as int), cash_buffer_pct as int),
            0 <= sum <= k * 2_000_000_000_000_000,
        decreases positions@.len() - k,
    {
        assert(all.take(k + 1).drop_last() == all.take(k as int));
        assert(all.take(k + 1).last() == positions@[k as int]);
        sum = sum + weight_at(positions[k], cash_buffer_pct);
        k += 1;
    }
    assert(all.take(all.len() as int) == all);
    sum
}

/// Lines of the book below `n`, each once and in order.
pub open spec fn in_book_order(lines: Seq<int>, n: int) -> bool {
    &&& lines.len() <= n
    &&& forall|k: int| 0 <= k < lines.len() ==> 0 <= #[trigger] lines[k] < n
    &&& forall|j: int, k: int| 0 <= j < k < lines.len() ==> #[trigger] lines[j] < #[trigger] lines[k]
}

/// A cluster's members are lines of the book, each once and in order.
pub proof fn cluster_lines_in_order(cluster: Seq<char>, n: int)
    requires
        0 <= n,
    ensures
        in_book_order(cluster_lines(cluster, n), n),
        forall|k: int|
            0 <= k < cluster_lines(cluster, n).len() ==> table()[#[trigger] cluster_lines(cluster, n)[k]].cluster@
                == cluster,
    decreases n,
{
    if n > 0 {
        cluster_lines_in_order(cluster, n - 1);
    }
}

/// The share of the account that a cluster aims at.
pub fn cluster_target_weight(cluster: &str, cash_buffer_pct: Fixed) -> (r: Fixed)
    requires
        within(cash_buffer_pct as int, FRACTION_LIMIT as int),
    ensures
        r == weight_of_lines(cluster_lines(cluster@, EQUITY as int), cash_buffer_pct as int),
        0 <= r <= EQUITY * (2 * FRACTION_LIMIT),
{
    let positions = cluster_positions(cluster);
    proof {
        cluster_lines_in_order(cluster@, EQUITY as int);
    }
    weight_of_positions(&positions, cash_buffer_pct)
}

// ── themes ─────────────────────────────────────────────────────────────────

/// The theme that drives a cluster.
pub open spec fn theme_name(cluster: Seq<char>) -> Seq<char> {
    if cluster == "Defense AGI"@ {
        "defense"@
    } else if cluster == "Grid hardware"@ || cluster == "Nuclear baseload"@ || cluster == "Fab"@
        || cluster == "AI compute/hosting"@ || cluster == "DC build-out"@ {
        "ai-infrastructure"@
    } else {
        "other"@
    }
}

/// The theme that drives a cluster; `other` for a cluster that none is known of.
pub fn theme_of(cluster: &str) -> (r: &'static str)
    ensures
        r@ == theme_name(cluster@),
{
    if same(cluster, "Defense AGI") {
        "defense"
    } else if same(cluster, "Grid hardware") || same(cluster, "Nuclear baseload") || same(
        cluster,
        "Fab",
    ) || same(cluster, "AI compute/hosting") || same(cluster, "DC build-out") {
        "ai-infrastructure"
    } else {
        "other"
    }
}

/// The themes of the first `n` lines, in the order in which they first occur.
pub open spec fn theme_names(n: int) -> Seq<Seq<char>>
    decreases n,
{
    if n <= 0 {
        seq![]
    } else {
        let before = theme_names(n - 1);
        let th = theme_name(table()[n - 1].cluster@);
        if before.contains(th) {
            before
        } else {
            before.push(th)
        }
    }
}

/// The themes of the equity sleeve, in the order in which they first occur.
pub fn themes() -> (r: Vec<&'static str>)
    ensures
        names(r@) == theme_names(EQUITY as int),
{
    let all = equity_invested();
    let mut out: Vec<&'static str> = Vec::new();
    let mut i: usize = 0;
    assert(names(out@) =~= theme_names(0));
    while i < EQUITY
        invariant
            i <= EQUITY,
            all@ == table().subrange(0, EQUITY as int),
            all@.len() == EQUITY,
            table().len() == COUNT,
            names(out@) == theme_names(i as int),
        decreases EQUITY - i,
    {
        assert(all@[i as int] == table()[i as int]);
        let th: &'static str = theme_of(all[i].cluster);
        if !listed(&out, th) {
            let ghost before = names(out@);
            out.push(th);
            assert(names(out@) =~= before.push(th@));
        }
        i += 1;
    }
    out
}

/// The numbers below `n`, in order, of the lines that belong to a theme.
pub open spec fn theme_lines(theme: Seq<char>, n: int) -> Seq<int>
    decreases n,
{
    if n <= 0 {
        seq![]
    } else if theme_name(table()[n - 1].cluster@) == theme {
        theme_lines(theme, n - 1).push(n - 1)
    } else {
        theme_lines(theme, n - 1)
    }
}

/// A theme's members are lines of the book, each once and in order.
pub proof fn theme_lines_in_order(theme: Seq<char>, n: int)
    requires
        0 <= n,
    ensures
        in_book_order(theme_lines(theme, n), n),
        forall|k: int|
            0 <= k < theme_lines(theme, n).len() ==> theme_name(
                table()[#[trigger] theme_lines(theme, n)[k]].cluster@,
            ) == theme,
    decreases n,
{
    if n > 0 {
        theme_lines_in_order(theme, n - 1);
    }
}

/// The numbers of the equity lines that belong to a theme, in order.
pub fn theme_positions(theme: &str) -> (r: Vec<usize>)
    ensures
        r@.map_values(|i: usize| i as int) == theme_lines(theme@, EQUITY as int),
        forall|k: int| 0 <= k < r@.len() ==> #[trigger] r@[k] < EQUITY,
{
    let all = equity_invested();
    let mut out: Vec<usize> = Vec::new();
    let mut i: usize = 0;
    assert(out@.map_values(|i: usize| i as int) =~= theme_lines(theme@, 0));
    while i < EQUITY
        invariant
            i <= EQUITY,
            all@ == table().subrange(0, EQUITY as int),
            all@.len() == EQUITY,
            table().len() == COUNT,
            out@.map_values(|i: usize| i as int) == theme_lines(theme@, i as int),
            forall|k: int| 0 <= k < out@.len() ==> #[trigger] out@[k] < EQUITY,
        decreases EQUITY - i,
    {
        assert(all@[i as int] == table()[i as int]);
        if same(theme_of(all[i].cluster), theme) {
            let ghost before = out@.map_values(|i: usize| i as int);
            out.push(i);
            assert(out@.map_values(|i: usize| i as int) =~= before.push(i as int));
        }
        i += 1;
    }
    out
}

/// The labels of a theme's members, in the order of the book.
pub fn theme_members(theme: &str) -> (r: Vec<&'static str>)
    ensures
        names(r@) == labels(theme_lines(theme@, EQUITY as int)),
{
    tickers(&theme_positions(theme))
}

/// The share of the account that a theme aims at.
pub fn theme_target_weight(theme: &str, cash_buffer_pct: Fixed) -> (r: Fixed)
    requires
        within(cash_buffer_pct as int, FRACTION_LIMIT as int),
    ensures
        r == weight_of_lines(theme_lines(theme@, EQUITY as int), cash_buffer_pct as int),
        0 <= r <= EQUITY * (2 * FRACTION_LIMIT),
{
    let positions = theme_positions(theme);
    proof {
        theme_lines_in_order(theme@, EQUITY as int);
    }
    weight_of_positions(&positions, cash_buffer_pct)
}

// ── instruments ────────────────────────────────────────────────────────────

/// The ticker that the settings name for a micro-cap slot.
pub open spec fn micro_cap_pick(slot: u8, s: Settings) -> Seq<char> {
    if slot == 1 {
        s.microcap_1
    } else {
        s.microcap_2
    }
}

/// The broker's symbol for a line: the ticker of a stock, the option symbol of a
/// call, the ticker that the settings name for a micro-cap; none for a slot that
/// is not set.
pub open spec fn symbol_of(t: Target, s: Settings) -> Option<Seq<char>> {
    match t.instrument {
        Instrument::Stock => Some(t.ticker@),
        Instrument::Leaps { underlying, expiry_year, strike } => if on_calendar(
            Ymd { year: expiry_year as int, month: 1, day: 1 },
        ) {
            Some(
                occ_symbol(
                    underlying@,
                    third_friday_of(expiry_year as int, 1),
                    true,
                    strike as int,
                ),
            )
        } else {
            None
        },
        Instrument::MicroCap { slot } => {
            let pick = trimmed(micro_cap_pick(slot, s));
            if pick.len() == 0 {
                None
            } else {
                Some(upper(pick))
            }
        },
    }
}

fn pick_of(slot: u8, cfg: &AppConfig) -> (r: String)
    ensures
        r@ == trimmed(micro_cap_pick(slot, cfg@)),
{
    if slot == 1 {
        trim(cfg.microcap_1.as_str())
    } else {
        trim(cfg.microcap_2.as_str())
    }
}

/// The broker's symbol for a line.
pub fn instrument_symbol(t: &Target, cfg: &AppConfig) -> (r: Option<String>)
    requires
        sound_instrument(t.instrument),
    ensures
        match r {
            Some(s) => symbol_of(*t, cfg@) == Some(s@),
            None => symbol_of(*t, cfg@) is None,
        },
{
    match t.instrument {
        Instrument::Stock => Some(t.ticker.to_owned()),
        Instrument::Leaps { underlying, expiry_year, strike } => {
            match third_friday(expiry_year, 1) {
                Some(expiry) => Some(build_occ(underlying, expiry, true, strike)),
                None => None,
            }
        },
        Instrument::MicroCap { slot } => {
            let pick = pick_of(slot, cfg);
            if pick.as_str().unicode_len() == 0 {
                None
            } else {
                Some(to_upper(pick.as_str()))
            }
        },
    }
}

/// The remainder of a year by a hundred, with the sign of the year.
pub open spec fn short_year(year: int) -> int {
    if year >= 0 {
        year % 100
    } else {
        -((-year) % 100)
    }
}

/// The name of a line for people.
pub open spec fn display_text(t: Target, s: Settings) -> Seq<char> {
    match t.instrument {
        Instrument::Stock => t.ticker@,
        Instrument::Leaps { underlying, expiry_year, strike } => underlying@ + " $"@ + rendered(
            strike as int,
            0,
            false,
        ) + "C Jan-"@ + signed_decimal(short_year(expiry_year as int)),
        Instrument::MicroCap { slot } => {
            let pick = trimmed(micro_cap_pick(slot, s));
            if pick.len() == 0 {
                t.ticker@ + " (unset)"@
            } else {
                upper(pick) + " ["@ + t.ticker@ + "]"@
            }
        },
    }
}

/// The name of a line for people.
pub fn display_name(t: &Target, cfg: &AppConfig) -> (r: String)
    requires
        sound_instrument(t.instrument),
    ensures
        r@ == display_text(*t, cfg@),
{
    match t.instrument {
        Instrument::Stock => t.ticker.to_owned(),
        Instrument::Leaps { underlying, expiry_year, strike } => {
            let mut s = underlying.to_owned();
            s.append(" $");
            s.append(render(strike, 0, false).as_str());
            s.append("C Jan-");
            let year: i128 = expiry_year as i128;
            let short: i128 = if year >= 0 {
                year % 100
            } else {
                -((-year) % 100)
            };
            s.append(integer_text(short).as_str());
            s
        },
        Instrument::MicroCap { slot } => {
            let pick = pick_of(slot, cfg);
            if pick.as_str().unicode_len() == 0 {
                let mut s = t.ticker.to_owned();
                s.append(" (unset)");
                s
            } else {
                let mut s = to_upper(pick.as_str());
                s.append(" [");
                s.append(t.ticker);
                s.append("]");
                s
            }
        },
    }
}

/// Whether a line trades as a long-dated call.
pub fn is_leaps(t: &Target) -> (r: bool)
    ensures
        r == (t.instrument is Leaps),
{
    match t.instrument {
        Instrument::Leaps { underlying, expiry_year, strike } => true,
        _ => false,
    }
}

// ── laws of the book ───────────────────────────────────────────────────────

/// Every cluster of the equity sleeve belongs to a theme, so none escapes the
/// theme cap.
pub proof fn every_equity_cluster_has_a_theme(i: int)
    requires
        0 <= i < EQUITY,
    ensures
        theme_name(table()[i].cluster@) != "other"@,
        table()[i].cluster@.len() > 0,
{
    reveal(table);
    reveal_strlit("other");
    reveal_strlit("defense");
    reveal_strlit("ai-infrastructure");
    reveal_strlit("Grid hardware");
    reveal_strlit("Nuclear baseload");
    reveal_strlit("Fab");
    reveal_strlit("Defense AGI");
    reveal_strlit("AI compute/hosting");
    reveal_strlit("DC build-out");
    assert("other"@.len() == 5 && "defense"@.len() == 7 && "ai-infrastructure"@.len() == 17);
}

proof fn cluster_lengths()
    ensures
        "Grid hardware"@.len() == 13,
        "Nuclear baseload"@.len() == 16,
        "Fab"@.len() == 3,
        "Defense AGI"@.len() == 11,
        "AI compute/hosting"@.len() == 18,
        "DC build-out"@.len() == 12,
{
    reveal_strlit("Grid hardware");
    reveal_strlit("Nuclear baseload");
    reveal_strlit("Fab");
    reveal_strlit("Defense AGI");
    reveal_strlit("AI compute/hosting");
    reveal_strlit("DC build-out");
}

/// The six clusters of the equity sleeve.
#[verifier::rlimit(40)]
pub proof fn the_six_clusters()
    ensures
        cluster_names(EQUITY as int) == seq![
            "Grid hardware"@,
            "Nuclear baseload"@,
            "Fab"@,
            "Defense AGI"@,
            "AI compute/hosting"@,
            "DC build-out"@,
        ],
{
    reveal(table);
    cluster_lengths();
    let a = "Grid hardware"@;
    let b = "Nuclear baseload"@;
    let c = "Fab"@;
    let d = "Defense AGI"@;
    let e = "AI compute/hosting"@;
    let f = "DC build-out"@;
    assert(cluster_names(0) =~= seq![]);
    assert(cluster_names(1) =~= seq![a]);
    assert(cluster_names(2) =~= seq![a, b]);
    assert(seq![a, b][0] == a && seq![a, b][1] == b);
    assert(cluster_names(3) =~= seq![a, b]);
    assert(cluster_names(4) =~= seq![a, b]);
    assert(cluster_names(5) =~= seq![a, b, c]);
    assert(cluster_names(6) =~= seq![a, b, c, d]);
    let s = seq![a, b, c, d, e];
    assert(cluster_names(7) =~= s);
    assert(s[0] == a && s[1] == b && s[3] == d && s[4] == e);
    assert(cluster_names(8) =~= s);
    assert(cluster_names(9) =~= s);
    assert(cluster_names(10) =~= s);
    let t = seq![a, b, c, d, e, f];
    assert(cluster_names(11) =~= t);
    assert(t[0] == a && t[1] == b && t[3] == d && t[5] == f);
    assert(cluster_names(12) =~= t);
    assert(cluster_names(13) =~= t);
    assert(cluster_names(14) =~= t);
    assert(cluster_names(15) =~= t);
    assert(cluster_names(16) =~= t);
}

/// The raw shares of some lines together.
pub open spec fn raw_of_lines(lines: Seq<int>) -> int
    decreases lines.len(),
{
    if lines.len() == 0 {
        0
    } else {
        raw_of_lines(lines.drop_last()) + table()[lines.last()].target_pct
    }
}

proof fn weight_below_raw(lines: Seq<int>, cash_buffer_pct: int)
    requires
        forall|k: int| 0 <= k < lines.len() ==> 0 <= #[trigger] lines[k] < INVESTED,
    ensures
        95_200_000_000_000 * weight_of_lines(lines, cash_buffer_pct) <= raw_of_lines(lines) * max(
            ONE - cash_buffer_pct,
            0,
        ),
    decreases lines.len(),
{
    let m = max(ONE - cash_buffer_pct, 0);
    if lines.len() > 0 {
        let front = lines.drop_last();
        assert forall|k: int| 0 <= k < front.len() implies 0 <= #[trigger] front[k] < INVESTED by {
            assert(front[k] == lines[k]);
        }
        weight_below_raw(front, cash_buffer_pct);
        raw_sum_value();
        assert(0 <= lines[lines.len() - 1] < INVESTED);
        let p = table()[lines.last()].target_pct as int;
        vstd::arithmetic::div_mod::lemma_fundamental_div_mod(p * m, 95_200_000_000_000);
        assert((raw_of_lines(front) + p) * m == raw_of_lines(front) * m + p * m) by (nonlinear_arith);
    } else {
        assert(0 * m == 0) by (nonlinear_arith);
    }
}

#[verifier::rlimit(60)]
#[verifier::spinoff_prover]
proof fn cluster_raw_shares(c: Seq<char>)
    requires
        cluster_names(EQUITY as int).contains(c),
    ensures
        raw_of_lines(cluster_lines(c, EQUITY as int)) <= 20_000_000_000_000,
{
    the_six_clusters();
    cluster_lengths();
    cluster_share(c, 16);
    let k = choose|k: int| 0 <= k < 6 && cluster_names(EQUITY as int)[k] == c;
    reveal(table);
    reveal_with_fuel(cluster_share_of, 17);
    assert(cluster_share_of(c, 16) <= 20_000_000_000_000);
}

/// The raw shares of the lines below `n` that belong to a cluster.
pub open spec fn cluster_share_of(c: Seq<char>, n: int) -> int
    decreases n,
{
    if n <= 0 {
        0
    } else if table()[n - 1].cluster@ == c {
        cluster_share_of(c, n - 1) + table()[n - 1].target_pct
    } else {
        cluster_share_of(c, n - 1)
    }
}

proof fn cluster_share(c: Seq<char>, n: int)
    requires
        0 <= n,
    ensures
        raw_of_lines(cluster_lines(c, n)) == cluster_share_of(c, n),
    decreases n,
{
    if n > 0 {
        cluster_share(c, n - 1);
        let before = cluster_lines(c, n - 1);
        assert(before.push(n - 1).drop_last() =~= before);
    }
}

/// At target no cluster is more than three tenths of the account, whatever share
/// of it stays in cash.
pub proof fn no_cluster_exceeds_the_cap_at_target(c: Seq<char>, cash_buffer_pct: int)
    requires
        cluster_names(EQUITY as int).contains(c),
        0 <= cash_buffer_pct,
    ensures
        weight_of_lines(cluster_lines(c, EQUITY as int), cash_buffer_pct) <= 300_000_000_000,
{
    let lines = cluster_lines(c, EQUITY as int);
    cluster_lines_in_order(c, EQUITY as int);
    assert forall|k: int| 0 <= k < lines.len() implies 0 <= #[trigger] lines[k] < INVESTED by {}
    weight_below_raw(lines, cash_buffer_pct);
    cluster_raw_shares(c);
    let (r, m) = (raw_of_lines(lines), max(ONE - cash_buffer_pct, 0));
    assert(r * m <= 20_000_000_000_000 * 1_000_000_000_000) by (nonlinear_arith)
        requires
            r <= 20_000_000_000_000,
            0 <= m <= 1_000_000_000_000,
    ;
}

proof fn cluster_names_once(n: int)
    ensures
        forall|c: int, d: int|
            0 <= c < d < cluster_names(n).len() ==> #[trigger] cluster_names(n)[c] != #[trigger] cluster_names(n)[d],
        forall|i: int|
            0 <= i < n && table()[i].cluster@.len() > 0 ==> cluster_names(n).contains(#[trigger] table()[i].cluster@),
    decreases n,
{
    if n > 0 {
        cluster_names_once(n - 1);
        let (before, all) = (cluster_names(n - 1), cluster_names(n));
        let new = table()[n - 1].cluster@;
        assert forall|i: int| 0 <= i < n && table()[i].cluster@.len() > 0 implies all.contains(
            #[trigger] table()[i].cluster@,
        ) by {
            if before.contains(table()[i].cluster@) {
                let k = choose|k: int| 0 <= k < before.len() && before[k] == table()[i].cluster@;
                assert(all[k] == before[k]);
            } else {
                assert(i == n - 1);
                assert(all.last() == new);
            }
        }
        assert forall|c: int, d: int| 0 <= c < d < all.len() implies #[trigger] all[c] != #[trigger] all[d] by {
            if d < before.len() {
                assert(before[c] != before[d]);
            } else {
                assert(all[c] == before[c]);
                assert(before.contains(before[c]));
            }
        }
    }
}

proof fn cluster_lines_are_all(cluster: Seq<char>, i: int, n: int)
    requires
        0 <= i < n,
        table()[i].cluster@ == cluster,
    ensures
        cluster_lines(cluster, n).contains(i),
    decreases n,
{
    let all = cluster_lines(cluster, n);
    if i < n - 1 {
        cluster_lines_are_all(cluster, i, n - 1);
        let before = cluster_lines(cluster, n - 1);
        let k = choose|k: int| 0 <= k < before.len() && before[k] == i;
        assert(all[k] == i);
    } else {
        assert(all.last() == i);
    }
}

/// The clusters partition the equity sleeve: each line stands in one of them and in
/// no other, and none is listed twice.
pub proof fn the_clusters_partition_the_sleeve(i: int)
    requires
        0 <= i < EQUITY,
    ensures
        exists|c: int|
            0 <= c < cluster_names(EQUITY as int).len() && cluster_lines(
                #[trigger] cluster_names(EQUITY as int)[c],
                EQUITY as int,
            ).contains(i),
        forall|c: int, d: int|
            0 <= c < cluster_names(EQUITY as int).len() && 0 <= d < cluster_names(EQUITY as int).len()
                && cluster_lines(#[trigger] cluster_names(EQUITY as int)[c], EQUITY as int).contains(i)
                && cluster_lines(#[trigger] cluster_names(EQUITY as int)[d], EQUITY as int).contains(i) ==> c == d,
{
    let n = EQUITY as int;
    let all = cluster_names(n);
    let own = table()[i].cluster@;
    every_equity_cluster_has_a_theme(i);
    cluster_names_once(n);
    cluster_lines_are_all(own, i, n);
    assert(all.contains(own));
    let c = choose|c: int| 0 <= c < all.len() && all[c] == own;
    assert(cluster_lines(all[c], n).contains(i));
    assert forall|c: int, d: int|
        0 <= c < all.len() && 0 <= d < all.len() && cluster_lines(#[trigger] all[c], n).contains(i) && cluster_lines(
            #[trigger] all[d],
            n,
        ).contains(i) implies c == d by {
        cluster_lines_in_order(all[c], n);
        cluster_lines_in_order(all[d], n);
        let j = choose|j: int| 0 <= j < cluster_lines(all[c], n).len() && cluster_lines(all[c], n)[j] == i;
        let k = choose|k: int| 0 <= k < cluster_lines(all[d], n).len() && cluster_lines(all[d], n)[k] == i;
        assert(table()[cluster_lines(all[c], n)[j]].cluster@ == all[c]);
        assert(table()[cluster_lines(all[d], n)[k]].cluster@ == all[d]);
        if c < d {
            assert(all[c] != all[d]);
        } else if d < c {
            assert(all[d] != all[c]);
        }
    }
}

} // verus!
