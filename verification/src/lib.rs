//! Decision logic of an options-trading daemon: configuration, risk
//! guard, pattern-day-trader bookkeeping, confluence scoring, exit rules,
//! order bookkeeping and the control protocol, all verified with Verus.
//!
//! Fractional quantities (prices, percentages, indicator readings) are
//! fixed-point integers with four decimal places; see [`fixed`].

pub mod fixed;
pub mod text;
pub mod config;
pub mod clock;
pub mod report;
pub mod error;
pub mod types;
pub mod indicators;
pub mod risk;
pub mod pdt;
pub mod exit_monitor;
pub mod iv_rank;
pub mod orders;
pub mod ipc;
pub mod strategy;
pub mod tui;
pub mod web;
pub mod db;
