use ferrum::clock::DAY_MICROS;
use ferrum::config::ExitConfig;
use ferrum::exit_monitor::{
    close_order, dte_from_occ_symbol, dte_from_occ_symbol_at, ema50_broken, estimated_close_pnl, exit_reason,
    plan_exit, updated_peak, ExitPlan, ExitReason,
};
use ferrum::iv_rank::{rank_from_history, rank_from_snapshots, rank_in_range, IvMethod, IvRankEngine};
use ferrum::orders::{
    close_outcome, entry_outcome, limit_order_request, round_trip_pnl, was_emergency,
    CloseOutcome, EntryOutcome,
};
use ferrum::pdt::{DayTradeRecord, PdtTracker};

const HOUR: i64 = 3_600_000_000;

fn exit_cfg() -> ExitConfig {
    ExitConfig {
        trailing_activation_pct: 300_000,
        trailing_trail_gap_pct: 100_000,
        profit_target_partial_pct: 500_000,
        profit_target_full_pct: 1_000_000,
        stop_loss_pct: 250_000,
        emergency_stop_pct: 400_000,
        time_exit_dte: 2,
        theta_exit_dte: 5,
        theta_exit_min_pnl_pct: 100_000,
        dead_money_days: 5,
        dead_money_min_pct: 50_000,
        min_hold_hours: 10_000,
    }
}

fn trade(close_time: i64) -> DayTradeRecord {
    DayTradeRecord {
        contract_symbol: "SPY260619C00500000".to_string(),
        underlying: "SPY".to_string(),
        open_time: close_time - HOUR,
        close_time,
        open_price: 20_000,
        close_price: 22_000,
        pnl: 200_000,
        was_emergency: false,
    }
}

// Monday 2026-04-20, 15:00 UTC.
const NOW: i64 = 20_563 * DAY_MICROS + 15 * HOUR;

#[test]
fn pdt_counts_trades_in_window() {
    let mut t = PdtTracker::new(2, 5, 400_000, 1_000_000);
    assert_eq!(t.count_in_window_at(NOW), 0);
    assert!(t.can_day_trade_at(NOW));
    // Five business days back from Monday is the Monday before.
    t.record(trade(NOW - DAY_MICROS));
    t.record(trade(NOW - 8 * DAY_MICROS));
    assert_eq!(t.count_in_window_at(NOW), 1);
    // Exactly at the cutoff still counts.
    t.record(trade(NOW - 7 * DAY_MICROS));
    assert_eq!(t.count_in_window_at(NOW), 2);
    assert!(!t.can_day_trade_at(NOW));
    assert_eq!(t.day_trades.len(), 3);
}

#[test]
fn pdt_window_counts_business_days() {
    // A one-day window on Monday reaches back to Friday at the same time.
    let mut t = PdtTracker::new(3, 1, 400_000, 1_000_000);
    t.record(trade(NOW - 2 * DAY_MICROS));
    t.record(trade(NOW - 3 * DAY_MICROS));
    t.record(trade(NOW - 3 * DAY_MICROS - 1));
    assert_eq!(t.count_in_window_at(NOW), 2);
    // On a Wednesday, one business day back is Tuesday.
    let wed = NOW + 2 * DAY_MICROS;
    assert_eq!(t.count_in_window_at(wed), 0);
    t.record(trade(wed - DAY_MICROS));
    assert_eq!(t.count_in_window_at(wed), 1);
    // From a Saturday, five business days back is the Monday of that week.
    let sat = NOW + 5 * DAY_MICROS;
    let mut w = PdtTracker::new(3, 5, 400_000, 1_000_000);
    w.record(trade(NOW));
    w.record(trade(NOW - 1));
    assert_eq!(w.count_in_window_at(sat), 1);
    // A zero-day window starts now.
    let z = PdtTracker::new(3, 0, 400_000, 1_000_000);
    assert_eq!(z.count_in_window_at(NOW), 0);
}

#[test]
fn pdt_day_trade_means_same_utc_day() {
    let t = PdtTracker::new(2, 5, 400_000, 1_000_000);
    assert!(t.would_be_day_trade_at(NOW - 2 * HOUR, NOW));
    assert!(!t.would_be_day_trade_at(NOW - 16 * HOUR, NOW));
}

#[test]
fn pdt_exit_rules() {
    let mut t = PdtTracker::new(2, 5, 400_000, 1_000_000);
    t.record(trade(NOW - DAY_MICROS));
    // Budget left: a same-day exit is allowed.
    assert!(t.check_exit_allowed_at(NOW - HOUR, -50_000, NOW).is_ok());
    t.record(trade(NOW - 2 * DAY_MICROS));
    // Budget spent: an ordinary loss is held overnight.
    assert_eq!(
        t.check_exit_allowed_at(NOW - HOUR, -50_000, NOW),
        Err("PDT limit (2/2) reached — holding overnight (pnl -5.0% not emergency loss ≥40% or exceptional win ≥100%)".to_string())
    );
    // Emergency loss and exceptional win are always allowed.
    assert!(t.check_exit_allowed_at(NOW - HOUR, -400_000, NOW).is_ok());
    assert!(t.check_exit_allowed_at(NOW - HOUR, 1_000_000, NOW).is_ok());
    // Positions opened on an earlier day are never day trades.
    assert!(t.check_exit_allowed_at(NOW - DAY_MICROS, -50_000, NOW).is_ok());
    // Against the real clock, an old position may always be closed.
    assert!(t.check_exit_allowed(0, -50_000).is_ok());
    assert!(!t.would_be_day_trade(0));
    let _ = t.count_in_window();
    let _ = t.can_day_trade();
}

#[test]
fn updated_peak_keeps_maximum() {
    assert_eq!(updated_peak(None, -30_000), -30_000);
    assert_eq!(updated_peak(Some(100_000), 50_000), 100_000);
    assert_eq!(updated_peak(Some(100_000), 150_000), 150_000);
}

#[test]
fn exit_reason_priorities() {
    let c = exit_cfg();
    // Emergency stop beats everything, even outside market hours.
    assert_eq!(exit_reason(&c, -450_000, -450_000, 1, 1, 0, true, false), Some(ExitReason::EmergencyStop));
    // Stop loss waits for the minimum hold.
    assert_eq!(exit_reason(&c, -300_000, -300_000, 20, 30, 0, false, true), None);
    assert_eq!(exit_reason(&c, -300_000, -300_000, 20, 60, 0, false, true), Some(ExitReason::StopLoss));
    // Theta exit near expiry without enough profit.
    assert_eq!(exit_reason(&c, 50_000, 50_000, 4, 600, 1, false, true), Some(ExitReason::ThetaExit));
    // Trailing profit: peak 35%, now 24%.
    assert_eq!(exit_reason(&c, 240_000, 350_000, 20, 600, 1, false, true), Some(ExitReason::TrailingProfit));
    assert_eq!(exit_reason(&c, 260_000, 350_000, 20, 600, 1, false, true), None);
    // EMA50 break only while the market is open.
    assert_eq!(exit_reason(&c, 0, 0, 20, 600, 1, true, true), Some(ExitReason::Ema50Break));
    assert_eq!(exit_reason(&c, 0, 0, 20, 600, 1, true, false), None);
    // ... and only after the minimum hold.
    assert_eq!(exit_reason(&c, 0, 0, 20, 59, 0, true, true), None);
    assert_eq!(exit_reason(&c, 0, 0, 20, 60, 0, true, true), Some(ExitReason::Ema50Break));
    // Time exit.
    assert_eq!(exit_reason(&c, 200_000, 200_000, 2, 600, 1, false, true), Some(ExitReason::TimeExit));
    // Dead money.
    assert_eq!(exit_reason(&c, 20_000, 20_000, 20, 600, 6, false, true), Some(ExitReason::DeadMoney));
    assert_eq!(exit_reason(&c, 60_000, 60_000, 20, 600, 6, false, true), None);
}

#[test]
fn exit_plan_cases() {
    let c = exit_cfg();
    assert_eq!(plan_exit(&c, true, -450_000, -450_000, 1, 1, 0, false, true), ExitPlan::Skip);
    assert_eq!(plan_exit(&c, false, 0, 0, 20, 600, 1, false, true), ExitPlan::Hold);
    assert_eq!(
        plan_exit(&c, false, -450_000, -450_000, 20, 1, 0, false, false),
        ExitPlan::WaitForOpen(ExitReason::EmergencyStop)
    );
    assert_eq!(
        plan_exit(&c, false, 200_000, 200_000, 1, 600, 1, false, true),
        ExitPlan::Close(ExitReason::TimeExit)
    );
}

#[test]
fn exit_reason_labels() {
    assert_eq!(ExitReason::EmergencyStop.label(), "emergency_stop");
    assert_eq!(ExitReason::TrailingProfit.label(), "trailing_profit");
    assert_eq!(ExitReason::DeadMoney.label(), "dead_money");
}

#[test]
fn ema50_break_by_direction() {
    assert!(ema50_broken(Some(1_000_000), "call", 999_999));
    assert!(!ema50_broken(Some(1_000_000), "call", 1_000_000));
    assert!(ema50_broken(Some(1_000_000), "put", 1_000_001));
    assert!(!ema50_broken(Some(1_000_000), "spread", 0));
    assert!(!ema50_broken(None, "call", 0));
}

#[test]
fn close_order_side_and_size() {
    assert_eq!(close_order(30_000), (3, true));
    assert_eq!(close_order(-20_000), (2, false));
    assert_eq!(close_order(0), (0, false));
    assert_eq!(close_order(i64::MIN), (u32::MAX, false));
}

#[test]
fn dte_from_occ_symbols() {
    let today = 20_563; // 2026-04-20
    assert_eq!(dte_from_occ_symbol_at("MSFT260619C00200000", today), Some(60));
    assert_eq!(dte_from_occ_symbol_at("QQQ260420P00500000", today), Some(0));
    // Expired contracts floor at zero.
    assert_eq!(dte_from_occ_symbol_at("QQQ260101P00500000", today), Some(0));
    // No such date.
    assert_eq!(dte_from_occ_symbol_at("QQQ260231C00500000", today), None);
    // Too short, or no C/P nine characters from the end.
    assert_eq!(dte_from_occ_symbol_at("SPY", today), None);
    assert_eq!(dte_from_occ_symbol_at("X1C", today), None);
    assert_eq!(dte_from_occ_symbol_at("SPY260619X00500000", today), None);
    // The type letter is read at its fixed place, whatever the root holds.
    assert_eq!(dte_from_occ_symbol_at("SPY260515C00500000", today), Some(25));
    assert_eq!(dte_from_occ_symbol_at("F260515P00012000", today), Some(25));
    assert_eq!(dte_from_occ_symbol_at("SPY260410C00500000", today), Some(0));
    assert_eq!(dte_from_occ_symbol_at("CAT260619C00200000", today), Some(60));
    assert_eq!(dte_from_occ_symbol_at("AAPL260619P00200000", today), Some(60));
    // Characters outside ASCII are counted as characters.
    assert_eq!(dte_from_occ_symbol_at("\u{e9}260619C00200000", today), Some(60));
    assert!(dte_from_occ_symbol("MSFT260619C00200000").is_some());
}

#[test]
fn iv_rank_in_range() {
    assert_eq!(rank_in_range(250_000, 100_000, 400_000), 500_000);
    assert_eq!(rank_in_range(50_000, 100_000, 400_000), 0);
    assert_eq!(rank_in_range(500_000, 100_000, 400_000), 1_000_000);
    // Rounded down: 1/3 of the range.
    assert_eq!(rank_in_range(200_000, 100_000, 400_000), 333_333);
}

#[test]
fn iv_rank_sources() {
    let r = rank_from_snapshots(30, 100_000, 400_000, 250_000).unwrap();
    assert_eq!(r.iv_rank, 500_000);
    assert_eq!(r.method, IvMethod::ActualIv);
    assert!(rank_from_snapshots(29, 100_000, 400_000, 250_000).is_none());
    assert!(rank_from_snapshots(30, 100_000, 100_000, 250_000).is_none());
    let vals = vec![100_000, 300_000, 200_000];
    let h = rank_from_history(Some(250_000), 60, &vals, 7);
    assert_eq!(h.iv_rank, 750_000);
    assert_eq!(h.current_iv, 7);
    assert_eq!(h.method, IvMethod::HvProxy);
    assert_eq!(rank_from_history(Some(250_000), 59, &vals, 7).iv_rank, 500_000);
    assert_eq!(rank_from_history(None, 90, &vals, 7).iv_rank, 500_000);
    assert_eq!(rank_from_history(Some(250_000), 90, &vec![200_000, 200_000], 7).iv_rank, 500_000);
}

#[test]
fn iv_engine_sizing() {
    let e = IvRankEngine::new(600_000, 400_000, 5_000, 252);
    assert_eq!(e.size_factor(300_000), 10_000);
    assert_eq!(e.size_factor(400_000), 5_000);
    assert_eq!(e.size_factor(600_000), 5_000);
    assert_eq!(e.size_factor(600_001), 0);
    assert!(e.is_buyable(600_000));
    assert!(!e.is_buyable(600_001));
}

#[test]
fn limit_order_wire_form() {
    let r = limit_order_request("SPY260619C00500000", "buy", 3, 20_500);
    assert_eq!(r.symbol, "SPY260619C00500000");
    assert_eq!(r.qty, "3");
    assert_eq!(r.side, "buy");
    assert_eq!(r.order_type, "limit");
    assert_eq!(r.time_in_force, "day");
    assert_eq!(r.limit_price, "2.05");
}

#[test]
fn order_status_outcomes() {
    assert_eq!(entry_outcome("filled"), EntryOutcome::Filled);
    assert_eq!(entry_outcome("partially_filled"), EntryOutcome::Filled);
    assert_eq!(entry_outcome("replaced"), EntryOutcome::Dropped);
    assert_eq!(entry_outcome("rejected"), EntryOutcome::Unexpected);
    assert_eq!(close_outcome("filled"), CloseOutcome::Closed);
    assert_eq!(close_outcome("expired"), CloseOutcome::Retry);
    assert_eq!(close_outcome("replaced"), CloseOutcome::Unexpected);
}

#[test]
fn round_trip_and_emergency() {
    // (2.50 − 2.00) × 3 × 100 = 150.00
    assert_eq!(round_trip_pnl(20_000, 25_000, 3), 1_500_000);
    assert_eq!(round_trip_pnl(20_000, 15_000, 1), -500_000);
    // −45% against a 40% threshold.
    assert!(was_emergency(20_000, 11_000, 400_000));
    assert!(!was_emergency(20_000, 15_000, 400_000));
    assert!(was_emergency(0, 5_000, 0));
    assert!(!was_emergency(0, 5_000, 400_000));
}

#[test]
fn close_pnl_uses_broker_cost_basis() {
    // $410.00 paid for 2 contracts: entry $2.05, closing at $2.30 earns $50.00.
    assert_eq!(estimated_close_pnl(4_100_000, 20_000, 19_000, 23_000, 2), 500_000);
    // Cost 333.33 for 1 contract: entry 3.3333 (rounded down), close at 3.00.
    assert_eq!(estimated_close_pnl(3_333_300, 10_000, 0, 30_000, 1), -333_300);
}

#[test]
fn close_pnl_falls_back_to_recorded_entry() {
    // A short or flat position, or no cost basis, uses the recorded entry price.
    assert_eq!(estimated_close_pnl(4_100_000, -20_000, 19_000, 23_000, 2), 800_000);
    assert_eq!(estimated_close_pnl(0, 20_000, 19_000, 23_000, 2), 800_000);
}
