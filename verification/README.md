# aschenbrenner-unlimited

A daily portfolio tracker and rebalancer for a paper account: a stock floor in two tiers,
a moonshot sleeve of long-dated calls and micro-caps, and a protected cash buffer.

- `src/` is the library, verified with Verus. What it takes from `chrono`, `chrono_tz`,
  `regex`, `serde_json` and the standard library is believed as the contracts of the items
  marked `external_body` and `assume_specification` state it; all else is proved.
  - `portfolio/` — the target book, the snapshot of the account, the metrics.
  - `rebalance/` — the rules, the phased build, the signal that orders what the rules
    allow; `laws.rs` and `outcome.rs` hold what is proved of every plan.
  - `execute.rs` — from a plan to limit orders that never borrow.
  - `lifecycle/` — the daily cycle, the quarterly review, the audit.
  - `scheduler.rs`, `safety.rs`, `vault.rs`, `delivery.rs`, `run.rs` — when a cycle runs,
    when it may not, what is stored, what is sent, what the command line asks for.
  - `alpaca.rs`, `alpaca_data.rs`, `signals/` — the replies of the broker and the nightly
    reports as values.
  - `fixed.rs`, `numr.rs`, `numerals.rs`, `calendar.rs`, `text.rs`, `json.rs`,
    `str_map.rs`, `ranking.rs` — numbers, dates, texts and containers.
- `app/` is the program around it: settings, HTTP, files, the clock, the terminal.
- `tests/` run the library.

Trading commands are armed unless `dry-run` is given, and only a paper account (one whose
number starts with `PA`) ever gets an order.
