//! Exit rules for open positions: which exit fires, in which priority,
//! and the days-to-expiry read from an OCC option symbol.

use vstd::prelude::*;
use crate::clock::{epoch_day, epoch_day_of, utc_now, ymd_epoch_day, ymd_epoch_days};
use crate::config::ExitConfig;
use crate::fixed::{fx_ok, SCALE};
use crate::text::{parse_i32, parse_u32, spec_parse_i32, spec_parse_u32};

verus! {

/// A position as the broker reports it; numbers are decimal text.
#[derive(Debug, Clone)]
pub struct AlpacaPosition {
    pub symbol: String,
    pub qty: String,
    pub unrealized_pl: String,
    pub unrealized_plpc: String,
    pub current_price: String,
    pub cost_basis: String,
}

/// Why a position is closed.
#[derive(Debug, Clone, Copy, PartialEq, Eq, Structural)]
pub enum ExitReason {
    EmergencyStop,
    StopLoss,
    ThetaExit,
    TrailingProfit,
    Ema50Break,
    TimeExit,
    DeadMoney,
}

impl ExitReason {
    /// The label written to the trade log, e.g. `stop_loss`.
    pub fn label(&self) -> (r: &'static str)
        ensures
            r@ == (match *self {
                ExitReason::EmergencyStop => "emergency_stop"@,
                ExitReason::StopLoss => "stop_loss"@,
                ExitReason::ThetaExit => "theta_exit"@,
                ExitReason::TrailingProfit => "trailing_profit"@,
                ExitReason::Ema50Break => "ema50_break"@,
                ExitReason::TimeExit => "time_exit"@,
                ExitReason::DeadMoney => "dead_money"@,
            }),
    {
        match self {
            ExitReason::EmergencyStop => "emergency_stop",
            ExitReason::StopLoss => "stop_loss",
            ExitReason::ThetaExit => "theta_exit",
            ExitReason::TrailingProfit => "trailing_profit",
            ExitReason::Ema50Break => "ema50_break",
            ExitReason::TimeExit => "time_exit",
            ExitReason::DeadMoney => "dead_money",
        }
    }
}

impl ExitConfig {
    pub open spec fn well_formed(&self) -> bool {
        &&& fx_ok(self.trailing_activation_pct)
        &&& fx_ok(self.trailing_trail_gap_pct)
        &&& fx_ok(self.stop_loss_pct)
        &&& fx_ok(self.emergency_stop_pct)
        &&& fx_ok(self.theta_exit_min_pnl_pct)
        &&& fx_ok(self.dead_money_min_pct)
        &&& fx_ok(self.min_hold_hours)
    }
}

/// The highest P&L seen so far, given the previous peak (`None` before the
/// first observation) and the current P&L.
pub open spec fn spec_updated_peak(peak: Option<i64>, pnl_pct: i64) -> i64 {
    match peak {
        Some(p) => if pnl_pct > p { pnl_pct } else { p },
        None => pnl_pct,
    }
}

/// The highest P&L seen so far, including the current one.
pub fn updated_peak(peak: Option<i64>, pnl_pct: i64) -> (r: i64)
    ensures
        r == spec_updated_peak(peak, pnl_pct),
        r >= pnl_pct,
        peak matches Some(p) ==> r >= p,
{
    match peak {
        Some(p) => if pnl_pct > p { pnl_pct } else { p },
        None => pnl_pct,
    }
}

/// The trailing target fires once the peak reached the activation level
/// and P&L has fallen at least the trail gap below the peak.
pub open spec fn spec_trailing_triggered(cfg: ExitConfig, pnl_pct: int, peak: int) -> bool {
    peak >= cfg.trailing_activation_pct && pnl_pct <= peak - cfg.trailing_trail_gap_pct
}

/// The exit that fires for a position, in priority order: emergency stop
/// (always), stop-loss (after the minimum hold, or on an emergency), theta
/// exit near expiry without enough profit, trailing profit, EMA50 break
/// (only while the market is open and after the minimum hold), time exit,
/// dead money. `None` holds.
/// `minutes_held` is the holding time in whole minutes; `peak` already
/// includes the current P&L.
pub open spec fn spec_exit_reason(
    cfg: ExitConfig,
    pnl_pct: i64,
    peak: i64,
    dte: u32,
    minutes_held: i64,
    days_held: i64,
    ema50_broken: bool,
    market_open: bool,
) -> Option<ExitReason> {
    let is_emergency = pnl_pct <= -cfg.emergency_stop_pct;
    let hold_gate_open = minutes_held * SCALE >= cfg.min_hold_hours * 60 || is_emergency;
    if is_emergency {
        Some(ExitReason::EmergencyStop)
    } else if pnl_pct <= -cfg.stop_loss_pct && hold_gate_open {
        Some(ExitReason::StopLoss)
    } else if dte <= cfg.theta_exit_dte && pnl_pct < cfg.theta_exit_min_pnl_pct {
        Some(ExitReason::ThetaExit)
    } else if spec_trailing_triggered(cfg, pnl_pct as int, peak as int) {
        Some(ExitReason::TrailingProfit)
    } else if ema50_broken && market_open && hold_gate_open {
        Some(ExitReason::Ema50Break)
    } else if dte <= cfg.time_exit_dte {
        Some(ExitReason::TimeExit)
    } else if days_held >= cfg.dead_money_days && pnl_pct < cfg.dead_money_min_pct {
        Some(ExitReason::DeadMoney)
    } else {
        None
    }
}

/// Decides which exit, if any, fires for a position.
pub fn exit_reason(
    cfg: &ExitConfig,
    pnl_pct: i64,
    peak: i64,
    dte: u32,
    minutes_held: i64,
    days_held: i64,
    ema50_broken: bool,
    market_open: bool,
) -> (r: Option<ExitReason>)
    requires
        cfg.well_formed(),
        fx_ok(pnl_pct),
        fx_ok(peak),
    ensures
        r == spec_exit_reason(*cfg, pnl_pct, peak, dte, minutes_held, days_held, ema50_broken, market_open),
{
    let is_emergency = pnl_pct <= -cfg.emergency_stop_pct;
    let hold_gate_open = (minutes_held as i128) * (SCALE as i128) >= (cfg.min_hold_hours as i128) * 60
        || is_emergency;
    let trailing = peak >= cfg.trailing_activation_pct && pnl_pct <= peak - cfg.trailing_trail_gap_pct;
    if is_emergency {
        Some(ExitReason::EmergencyStop)
    } else if pnl_pct <= -cfg.stop_loss_pct && hold_gate_open {
        Some(ExitReason::StopLoss)
    } else if dte <= cfg.theta_exit_dte && pnl_pct < cfg.theta_exit_min_pnl_pct {
        Some(ExitReason::ThetaExit)
    } else if trailing {
        Some(ExitReason::TrailingProfit)
    } else if ema50_broken && market_open && hold_gate_open {
        Some(ExitReason::Ema50Break)
    } else if dte <= cfg.time_exit_dte {
        Some(ExitReason::TimeExit)
    } else if days_held >= cfg.dead_money_days as i64 && pnl_pct < cfg.dead_money_min_pct {
        Some(ExitReason::DeadMoney)
    } else {
        None
    }
}

/// An emergency loss is always exited, whatever the holding time, expiry,
/// trend or market hours.
pub proof fn emergency_stop_always_exits(
    cfg: ExitConfig,
    pnl_pct: i64,
    peak: i64,
    dte: u32,
    minutes_held: i64,
    days_held: i64,
    ema50_broken: bool,
    market_open: bool,
)
    requires
        pnl_pct <= -cfg.emergency_stop_pct,
    ensures
        spec_exit_reason(cfg, pnl_pct, peak, dte, minutes_held, days_held, ema50_broken, market_open)
            == Some(ExitReason::EmergencyStop),
{
}

/// Each exit fires only on its own rule, and only when no rule above it
/// in the priority order holds; a position is held (`None`) exactly when
/// no rule holds. The rules, highest first:
/// - emergency stop: P&L at or below minus the emergency percentage;
/// - stop loss: P&L at or below minus the stop-loss percentage, once the
///   position has been held the minimum time;
/// - theta exit: at most `theta_exit_dte` days to expiry and P&L under
///   the theta minimum;
/// - trailing profit: the peak reached the activation level and P&L has
///   fallen at least the trail gap below the peak;
/// - EMA50 break: the trend line broke against the position while the
///   market is open, once held the minimum time;
/// - time exit: at most `time_exit_dte` days to expiry;
/// - dead money: held at least `dead_money_days` days with P&L under the
///   dead-money minimum.
pub proof fn exits_follow_their_rules(
    cfg: ExitConfig,
    pnl_pct: i64,
    peak: i64,
    dte: u32,
    minutes_held: i64,
    days_held: i64,
    ema50_broken: bool,
    market_open: bool,
)
    ensures
        ({
            let r = spec_exit_reason(cfg, pnl_pct, peak, dte, minutes_held, days_held, ema50_broken, market_open);
            let held_long_enough = minutes_held * 10_000 >= cfg.min_hold_hours * 60;
            let emergency = pnl_pct <= -cfg.emergency_stop_pct;
            let stop = pnl_pct <= -cfg.stop_loss_pct && held_long_enough;
            let theta = dte <= cfg.theta_exit_dte && pnl_pct < cfg.theta_exit_min_pnl_pct;
            let trailing = peak >= cfg.trailing_activation_pct && pnl_pct <= peak
                - cfg.trailing_trail_gap_pct;
            let ema = ema50_broken && market_open && held_long_enough;
            let time = dte <= cfg.time_exit_dte;
            let dead = days_held >= cfg.dead_money_days && pnl_pct < cfg.dead_money_min_pct;
            &&& (r == Some(ExitReason::EmergencyStop) <==> emergency)
            &&& (r == Some(ExitReason::StopLoss) <==> !emergency && stop)
            &&& (r == Some(ExitReason::ThetaExit) <==> !emergency && !stop && theta)
            &&& (r == Some(ExitReason::TrailingProfit) <==> !emergency && !stop && !theta && trailing)
            &&& (r == Some(ExitReason::Ema50Break) <==> !emergency && !stop && !theta && !trailing && ema)
            &&& (r == Some(ExitReason::TimeExit) <==> !emergency && !stop && !theta && !trailing && !ema
                && time)
            &&& (r == Some(ExitReason::DeadMoney) <==> !emergency && !stop && !theta && !trailing && !ema
                && !time && dead)
            &&& (r is None <==> !emergency && !stop && !theta && !trailing && !ema && !time && !dead)
        }),
{
}

/// A trailing-profit exit needs the peak to have reached the activation
/// level: below it the trailing target is not armed.
pub proof fn trailing_needs_activation(
    cfg: ExitConfig,
    pnl_pct: i64,
    peak: i64,
    dte: u32,
    minutes_held: i64,
    days_held: i64,
    ema50_broken: bool,
    market_open: bool,
)
    requires
        peak < cfg.trailing_activation_pct,
    ensures
        spec_exit_reason(cfg, pnl_pct, peak, dte, minutes_held, days_held, ema50_broken, market_open)
            != Some(ExitReason::TrailingProfit),
{
}

/// What the exit monitor does with one position this cycle.
#[derive(Debug, Clone, Copy, PartialEq, Eq, Structural)]
pub enum ExitPlan {
    /// A close order is already pending.
    Skip,
    /// No exit fires.
    Hold,
    /// An exit fires but the market is closed; retry at the open.
    WaitForOpen(ExitReason),
    /// Submit a close for this reason (subject to the PDT gate).
    Close(ExitReason),
}

/// The exit monitor's plan for one position: skip it while a close order
/// is pending; otherwise close for the exit that fires, or wait for the
/// open when the market is closed.
pub open spec fn spec_plan_exit(
    cfg: ExitConfig,
    pending_close: bool,
    pnl_pct: i64,
    peak: i64,
    dte: u32,
    minutes_held: i64,
    days_held: i64,
    ema50_broken: bool,
    market_open: bool,
) -> ExitPlan {
    if pending_close {
        ExitPlan::Skip
    } else {
        match spec_exit_reason(cfg, pnl_pct, peak, dte, minutes_held, days_held, ema50_broken, market_open) {
            None => ExitPlan::Hold,
            Some(reason) => if market_open {
                ExitPlan::Close(reason)
            } else {
                ExitPlan::WaitForOpen(reason)
            },
        }
    }
}

/// The exit monitor's plan for one position.
pub fn plan_exit(
    cfg: &ExitConfig,
    pending_close: bool,
    pnl_pct: i64,
    peak: i64,
    dte: u32,
    minutes_held: i64,
    days_held: i64,
    ema50_broken: bool,
    market_open: bool,
) -> (r: ExitPlan)
    requires
        cfg.well_formed(),
        fx_ok(pnl_pct),
        fx_ok(peak),
    ensures
        r == spec_plan_exit(
            *cfg,
            pending_close,
            pnl_pct,
            peak,
            dte,
            minutes_held,
            days_held,
            ema50_broken,
            market_open,
        ),
{
    if pending_close {
        return ExitPlan::Skip;
    }
    match exit_reason(cfg, pnl_pct, peak, dte, minutes_held, days_held, ema50_broken, market_open) {
        None => ExitPlan::Hold,
        Some(reason) => if market_open {
            ExitPlan::Close(reason)
        } else {
            ExitPlan::WaitForOpen(reason)
        },
    }
}

/// No close order is submitted while the market is closed: an exit that
/// fires then waits for the open, and an EMA50 break does not fire at all.
pub proof fn market_closed_exits_wait(
    cfg: ExitConfig,
    pending_close: bool,
    pnl_pct: i64,
    peak: i64,
    dte: u32,
    minutes_held: i64,
    days_held: i64,
    ema50_broken: bool,
)
    ensures
        !(spec_plan_exit(cfg, pending_close, pnl_pct, peak, dte, minutes_held, days_held, ema50_broken, false) is Close),
        spec_exit_reason(cfg, pnl_pct, peak, dte, minutes_held, days_held, ema50_broken, false)
            != Some(ExitReason::Ema50Break),
{
}

/// The plan for a position: nothing while a close order is pending;
/// otherwise hold exactly when no exit fires, and for the exit that
/// fires, close now when the market is open or wait for the open.
pub proof fn plan_follows_exit(
    cfg: ExitConfig,
    pending_close: bool,
    pnl_pct: i64,
    peak: i64,
    dte: u32,
    minutes_held: i64,
    days_held: i64,
    ema50_broken: bool,
    market_open: bool,
)
    ensures
        ({
            let p = spec_plan_exit(cfg, pending_close, pnl_pct, peak, dte, minutes_held, days_held, ema50_broken, market_open);
            let e = spec_exit_reason(cfg, pnl_pct, peak, dte, minutes_held, days_held, ema50_broken, market_open);
            &&& pending_close ==> p == ExitPlan::Skip
            &&& !pending_close && e is None ==> p == ExitPlan::Hold
            &&& !pending_close && market_open ==> (e matches Some(x) ==> p == ExitPlan::Close(x))
            &&& !pending_close && !market_open ==> (e matches Some(x) ==> p == ExitPlan::WaitForOpen(x))
        }),
{
}

/// A close sells a long position and buys back a short one, for the
/// whole contracts the position holds (the fixed-point quantity divided by
/// 10 000, rounded down; at most `u32::MAX`).
pub proof fn close_order_rule(qty: i64)
    ensures
        spec_close_order(qty).1 <==> qty > 0,
        ({
            let n = spec_close_order(qty).0 as int;
            let a: int = if qty < 0 { -qty } else { qty as int };
            &&& a < 10_000 * (u32::MAX + 1) ==> n * 10_000 <= a && a < (n + 1) * 10_000
            &&& a >= 10_000 * (u32::MAX + 1) ==> n == u32::MAX
        }),
{
}

/// A call's thesis breaks when the underlying closes below its EMA50, a
/// put's when it closes above; without an EMA50 nothing breaks.
pub open spec fn spec_ema50_broken(ema50: Option<i64>, direction: Seq<char>, price: i64) -> bool {
    match ema50 {
        Some(e) => if direction == "call"@ {
            price < e
        } else if direction == "put"@ {
            price > e
        } else {
            false
        },
        None => false,
    }
}

/// Whether the position's direction thesis is broken by the EMA50.
pub fn ema50_broken(ema50: Option<i64>, direction: &str, price: i64) -> (r: bool)
    ensures
        r == spec_ema50_broken(ema50, direction@, price),
{
    match ema50 {
        Some(e) => {
            let d = String::from_str(direction);
            if d == String::from_str("call") {
                price < e
            } else if d == String::from_str("put") {
                price > e
            } else {
                false
            }
        },
        None => false,
    }
}

/// The EMA50 thesis test: a call is broken exactly when the price is
/// under a known EMA50, a put exactly when it is over; a position of any
/// other direction, or without an EMA50, never is.
pub proof fn ema50_break_rule(ema50: Option<i64>, direction: Seq<char>, price: i64)
    ensures
        direction == "call"@ ==> (spec_ema50_broken(ema50, direction, price) <==> (ema50 matches Some(e)
            && price < e)),
        direction == "put"@ ==> (spec_ema50_broken(ema50, direction, price) <==> (ema50 matches Some(e)
            && price > e)),
        (direction != "call"@ && direction != "put"@) ==> !spec_ema50_broken(ema50, direction, price),
{
    reveal_strlit("call");
    reveal_strlit("put");
    assert("call"@[0] != "put"@[0]);
}

/// Contracts to close and the closing side for a signed fixed-point
/// position quantity: `|qty|` whole contracts (saturating at `u32::MAX`),
/// selling a long and buying back a short.
pub open spec fn spec_close_order(qty: i64) -> (u32, bool) {
    let a = if qty < 0 { -qty } else { qty as int };
    let n = a / SCALE as int;
    (if n > u32::MAX { u32::MAX } else { n as u32 }, qty > 0)
}

/// Contracts to close and whether the close is a sale (`true`) or a
/// buy-to-close (`false`).
pub fn close_order(qty: i64) -> (r: (u32, bool))
    ensures
        r == spec_close_order(qty),
{
    let a: u64 = if qty == i64::MIN {
        0x8000_0000_0000_0000u64
    } else if qty < 0 {
        (-qty) as u64
    } else {
        qty as u64
    };
    let n = a / (SCALE as u64);
    let contracts: u32 = if n > 0xFFFF_FFFFu64 { 0xFFFF_FFFFu32 } else { n as u32 };
    (contracts, qty > 0)
}

/// The entry price a close is measured against: the broker's cost basis
/// per contract (cost ÷ (qty × 100), rounded down) for a long position with
/// a positive cost basis, otherwise the price the daemon recorded.
pub open spec fn spec_close_entry_price(cost_basis: int, qty: int, recorded_entry: int) -> int {
    if cost_basis > 0 && qty > 0 {
        (cost_basis * SCALE) / (qty * 100)
    } else {
        recorded_entry
    }
}

/// The estimated P&L of closing `close_qty` contracts at `current_price`:
/// (price − entry) × contracts × 100, fixed-point.
pub fn estimated_close_pnl(
    cost_basis: i64,
    qty: i64,
    recorded_entry: i64,
    current_price: i64,
    close_qty: u32,
) -> (r: i128)
    requires
        fx_ok(cost_basis),
        fx_ok(qty),
        fx_ok(recorded_entry),
        fx_ok(current_price),
    ensures
        r == (current_price - spec_close_entry_price(cost_basis as int, qty as int, recorded_entry as int))
            * close_qty * 100,
{
    let entry: i128 = if cost_basis > 0 && qty > 0 {
        let num = (cost_basis as i128) * 10_000;
        let den = (qty as i128) * 100;
        proof {
            assert(num / den <= num) by (nonlinear_arith)
                requires
                    num >= 0,
                    den >= 1,
            ;
            assert(num / den >= 0) by (nonlinear_arith)
                requires
                    num >= 0,
                    den >= 1,
            ;
        }
        num / den
    } else {
        recorded_entry as i128
    };
    let diff: i128 = (current_price as i128) - entry;
    proof {
        assert(-100_000_000_000_000_000 <= diff <= 100_000_000_000_000_000);
        assert(-42_949_672_950_000_000_000_000_000_000 <= (diff as int) * (close_qty as int) * 100
            <= 42_949_672_950_000_000_000_000_000_000) by (nonlinear_arith)
            requires
                -100_000_000_000_000_000 <= diff <= 100_000_000_000_000_000,
                0 <= close_qty <= 4_294_967_295,
        ;
    }
    diff * (close_qty as i128) * 100
}

// ── OCC symbol expiry ─────────────────────────────────────────────────────────

/// Position of the type letter of an OCC symbol
/// (`<root><YYMMDD><C|P><8-digit strike>`): nine characters from the end.
pub open spec fn occ_type_pos(s: Seq<char>) -> int {
    s.len() - 9
}

/// Whether `s` has a `C` or `P` at its type-letter position with six
/// characters of date before it.
pub open spec fn occ_type_ok(s: Seq<char>) -> bool {
    let p = occ_type_pos(s);
    p >= 6 && (s[p] == 'C' || s[p] == 'P')
}

/// Days from `today` to the expiry written as `YYMMDD` just before the
/// type letter of an OCC symbol (`<root><YYMMDD><C/P><strike>`), floored at
/// zero; `None` when there is no such letter or date.
pub open spec fn spec_dte(s: Seq<char>, today: int) -> Option<u32> {
    if occ_type_ok(s) {
        let p = occ_type_pos(s);
        match (
            spec_parse_i32(s.subrange(p - 6, p - 4)),
            spec_parse_u32(s.subrange(p - 4, p - 2)),
            spec_parse_u32(s.subrange(p - 2, p)),
        ) {
            (Some(yy), Some(mm), Some(dd)) => if 1 <= 2000 + yy <= 9999 && crate::clock::valid_month_day(
                2000 + yy,
                mm as int,
                dd as int,
            ) {
                let days = ymd_epoch_day(2000 + yy, mm as int, dd as int) - today;
                Some((if days < 0 { 0 } else { days }) as u32)
            } else {
                None
            },
            _ => None,
        }
    } else {
        None
    }
}

/// Position of the type letter when it is a `C` or `P` with a date before it.
fn occ_type_letter(symbol: &str) -> (r: Option<usize>)
    ensures
        r matches Some(p) ==> occ_type_ok(symbol@) && p == occ_type_pos(symbol@),
        r is None ==> !occ_type_ok(symbol@),
{
    let n = symbol.unicode_len();
    if n < 15 {
        return None;
    }
    let p = n - 9;
    let c = symbol.get_char(p);
    if c == 'C' || c == 'P' { Some(p) } else { None }
}

/// Days to expiry of an OCC option symbol, counted from the UTC day
/// `today` (days since 1970-01-01).
pub fn dte_from_occ_symbol_at(symbol: &str, today: i64) -> (r: Option<u32>)
    requires
        0 <= today <= i32::MAX,
    ensures
        r == spec_dte(symbol@, today as int),
{
    let p = match occ_type_letter(symbol) {
        Some(p) => p,
        None => return None,
    };
    let yy = parse_i32(symbol.substring_char(p - 6, p - 4));
    let mm = parse_u32(symbol.substring_char(p - 4, p - 2));
    let dd = parse_u32(symbol.substring_char(p - 2, p));
    match (yy, mm, dd) {
        (Some(yy), Some(mm), Some(dd)) => {
            proof {
                lemma_two_char_i32(symbol@.subrange(p - 6, p - 4));
            }
            let year = 2000 + yy;
            match ymd_epoch_days(year, mm, dd) {
                Some(expiry) => {
                    let days = expiry - today;
                    let d = if days < 0 { 0 } else { days };
                    proof {
                        assert(1 <= year <= 9999);
                    }
                    Some(d as u32)
                },
                None => None,
            }
        },
        _ => None,
    }
}

/// Two characters parse to an `i32` between -9 and 99.
proof fn lemma_two_char_i32(s: Seq<char>)
    requires
        s.len() == 2,
    ensures
        spec_parse_i32(s) matches Some(v) ==> -9 <= v <= 99,
{
    reveal_with_fuel(crate::text::digits_value, 3);
    if s[0] == '-' {
        let b = s.drop_first();
        if b.len() > 0 && crate::text::all_digits(b) {
            assert(b.drop_last().len() == 0);
            assert(crate::text::is_digit(b[0]));
        }
    } else {
        let b = if s.len() > 0 && s[0] == '+' { s.drop_first() } else { s };
        if b.len() > 0 && crate::text::all_digits(b) {
            if b.len() == 2 {
                assert(b.drop_last().drop_last().len() == 0);
                assert(b.drop_last().last() == b[0]);
                assert(crate::text::is_digit(b[0]));
                assert(crate::text::is_digit(b[1]));
            } else {
                assert(b.drop_last().len() == 0);
                assert(crate::text::is_digit(b[0]));
            }
        }
    }
}

/// Days to expiry of an OCC option symbol, counted from today (UTC);
/// `None` as well when the clock cannot be read.
pub fn dte_from_occ_symbol(symbol: &str) -> (r: Option<u32>)
    ensures
        (exists|today: int| today >= 0 && r == spec_dte(symbol@, today)) || r is None,
{
    let clock = match utc_now() {
        Some(c) => c,
        None => return None,
    };
    let today = epoch_day(clock.micros);
    proof {
        assert(today <= i32::MAX) by {
            assert(clock.micros <= i64::MAX);
        }
    }
    dte_from_occ_symbol_at(symbol, today)
}

} // verus!
