//! The logic of a long-horizon equity sleeve: the target book, the rebalance rules,
//! the phased build, the sizing of orders, the audit of the broker's positions and the
//! schedule, each with its contract.
//!
//! Amounts, prices and fractions are fixed-point numbers ([`fixed`]). Everything that is
//! fetched or stored reaches the library as plain values; nothing here does input or
//! output.
pub mod alpaca;
pub mod alpaca_data;
pub mod broker_laws;
pub mod calendar;
pub mod command_laws;
pub mod config;
pub mod delivery;
pub mod execute;
pub mod fixed;
pub mod json;
pub mod lifecycle;
pub mod numerals;
pub mod numr;
pub mod order_laws;
pub mod portfolio;
pub mod ranking;
pub mod reading_laws;
pub mod rebalance;
pub mod run;
pub mod safety;
pub mod schedule_laws;
pub mod scheduler;
pub mod setting_laws;
pub mod signals;
pub mod str_map;
pub mod text;
pub mod vault;
pub mod wording_laws;
pub mod writing_laws;
