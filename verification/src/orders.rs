//! Orders: the limit-order request sent to the broker, and what a
//! reported order status means for a tracked position.

use vstd::prelude::*;
use crate::fixed::fx_ok;
use crate::text::{fixed_text, nat_text, push_fixed, u64_text};

verus! {

/// An order request in the broker's wire form (numbers as decimal text).
#[derive(Debug, Clone)]
pub struct AlpacaOrderRequest {
    pub symbol: String,
    pub qty: String,
    pub side: String,
    pub order_type: String,
    pub time_in_force: String,
    pub limit_price: String,
}

/// An order as the broker reports it.
#[derive(Debug, Clone)]
pub struct AlpacaOrder {
    pub id: String,
    pub status: String,
    pub filled_qty: String,
    pub filled_avg_price: Option<String>,
}

/// A day limit order for `qty` contracts at `limit_price` (fixed-point,
/// written with two decimals).
pub fn limit_order_request(contract: &str, side: &str, qty: u32, limit_price: i64) -> (r:
    AlpacaOrderRequest)
    ensures
        r.symbol@ == contract@,
        r.qty@ == nat_text(qty as nat),
        r.side@ == side@,
        r.order_type@ == "limit"@,
        r.time_in_force@ == "day"@,
        r.limit_price@ == fixed_text(limit_price as int, 2),
{
    let mut price = String::new();
    push_fixed(&mut price, limit_price as i128, 2);
    proof {
        assert(price@ =~= fixed_text(limit_price as int, 2));
    }
    AlpacaOrderRequest {
        symbol: String::from_str(contract),
        qty: u64_text(qty as u64),
        side: String::from_str(side),
        order_type: String::from_str("limit"),
        time_in_force: String::from_str("day"),
        limit_price: price,
    }
}

/// What a finished entry order means for its position.
#[derive(Debug, Clone, Copy, PartialEq, Eq, Structural)]
pub enum EntryOutcome {
    /// Filled (fully or partly): the position is live.
    Filled,
    /// Canceled, expired or replaced: the position is dropped.
    Dropped,
    /// Any other status: reported and left alone.
    Unexpected,
}

/// What a finished close order means for its position.
#[derive(Debug, Clone, Copy, PartialEq, Eq, Structural)]
pub enum CloseOutcome {
    /// Filled (fully or partly): the position is closed.
    Closed,
    /// Canceled or expired: the close is retried at the next exit check.
    Retry,
    /// Any other status: reported and left alone.
    Unexpected,
}

pub open spec fn is_fill_status(s: Seq<char>) -> bool {
    s == "filled"@ || s == "partially_filled"@
}

pub open spec fn spec_entry_outcome(s: Seq<char>) -> EntryOutcome {
    if is_fill_status(s) {
        EntryOutcome::Filled
    } else if s == "canceled"@ || s == "expired"@ || s == "replaced"@ {
        EntryOutcome::Dropped
    } else {
        EntryOutcome::Unexpected
    }
}

pub open spec fn spec_close_outcome(s: Seq<char>) -> CloseOutcome {
    if is_fill_status(s) {
        CloseOutcome::Closed
    } else if s == "canceled"@ || s == "expired"@ {
        CloseOutcome::Retry
    } else {
        CloseOutcome::Unexpected
    }
}

/// Classifies the final status of an entry order.
pub fn entry_outcome(status: &str) -> (r: EntryOutcome)
    ensures
        r == spec_entry_outcome(status@),
{
    let s = String::from_str(status);
    if s == String::from_str("filled") || s == String::from_str("partially_filled") {
        EntryOutcome::Filled
    } else if s == String::from_str("canceled") || s == String::from_str("expired") || s
        == String::from_str("replaced") {
        EntryOutcome::Dropped
    } else {
        EntryOutcome::Unexpected
    }
}

/// Classifies the final status of a close order.
pub fn close_outcome(status: &str) -> (r: CloseOutcome)
    ensures
        r == spec_close_outcome(status@),
{
    let s = String::from_str(status);
    if s == String::from_str("filled") || s == String::from_str("partially_filled") {
        CloseOutcome::Closed
    } else if s == String::from_str("canceled") || s == String::from_str("expired") {
        CloseOutcome::Retry
    } else {
        CloseOutcome::Unexpected
    }
}

/// Fixed-point dollar P&L of closing `qty` contracts bought at `entry`
/// and sold at `close`: (close − entry) × qty × 100.
pub fn round_trip_pnl(entry: i64, close: i64, qty: u32) -> (r: i128)
    requires
        fx_ok(entry),
        fx_ok(close),
    ensures
        r == (close - entry) * qty * 100,
{
    proof {
        assert(-2_000_000_000_000 <= close - entry <= 2_000_000_000_000);
        assert(-858_993_459_000_000_000_000_000 <= (close - entry) * qty * 100
            <= 858_993_459_000_000_000_000_000) by (nonlinear_arith)
            requires
                -2_000_000_000_000 <= close - entry <= 2_000_000_000_000,
                0 <= qty <= 4_294_967_295,
        ;
        assert(-8_589_934_590_000_000_000_000 <= (close - entry) * qty
            <= 8_589_934_590_000_000_000_000) by (nonlinear_arith)
            requires
                -2_000_000_000_000 <= close - entry <= 2_000_000_000_000,
                0 <= qty <= 4_294_967_295,
        ;
    }
    ((close as i128) - (entry as i128)) * (qty as i128) * 100
}

/// Whether a closed day trade counts as an emergency exit: its loss,
/// (close − entry) / entry in percent, reached the emergency threshold.
/// Without a positive entry price the loss is taken as 0%.
pub open spec fn spec_was_emergency(entry: int, close: int, emergency_pct: int) -> bool {
    if entry > 0 {
        (close - entry) * 1_000_000 <= -emergency_pct * entry
    } else {
        0 <= -emergency_pct
    }
}

/// Whether a closed day trade was an emergency exit.
pub fn was_emergency(entry: i64, close: i64, emergency_pct: i64) -> (r: bool)
    requires
        fx_ok(entry),
        fx_ok(close),
        fx_ok(emergency_pct),
    ensures
        r == spec_was_emergency(entry as int, close as int, emergency_pct as int),
{
    if entry > 0 {
        proof {
            assert(-2_000_000_000_000_000_000 <= (close - entry) * 1_000_000 <= 2_000_000_000_000_000_000);
            assert(-1_000_000_000_000_000_000_000_000 <= -emergency_pct * entry
                <= 1_000_000_000_000_000_000_000_000) by (nonlinear_arith)
                requires
                    -1_000_000_000_000 <= emergency_pct <= 1_000_000_000_000,
                    0 < entry <= 1_000_000_000_000,
            ;
        }
        ((close as i128) - (entry as i128)) * 1_000_000 <= -(emergency_pct as i128) * (entry as i128)
    } else {
        0 <= -emergency_pct
    }
}

} // verus!
