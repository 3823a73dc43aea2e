use ferrum::config::{EntryConfig, LiquidityConfig};
use ferrum::indicators::{
    confluence_score, detect_regime, AdxResult, BBands, BarContext, IndicatorSnapshot, MacdResult,
    Regime, TradeDirection,
};
use ferrum::iv_rank::IvRankEngine;
use ferrum::strategy::{
    best_candidate, candidate_of, contract_direction, contract_ok, cycle_signals, delta_distance, expiration_dte,
    entry_signal, in_cooldown, iv_admits, leg_limit_order, leg_side, make_bar_context, min_score_for,
    order_qty, proximity_veto, quote_mid, regime_size_factor, screen_setup, Candidate, ForgeStrategy,
    OpenPositionMeta, Pick, ScanOutcome, Screen,
};
use ferrum::types::{LegAction, OptionLeg, OrderType, Signal};

const S: i64 = 10_000;

fn entry() -> EntryConfig {
    EntryConfig {
        min_confluence_score: 6,
        preferred_delta: 4_500,
        delta_min: 3_500,
        delta_max: 6_000,
        dte_min: 14,
        dte_max: 45,
        order_type: "limit".to_string(),
        limit_price_method: "mid".to_string(),
        trend_min_score: 6,
        range_min_score: 6,
        choppy_min_score: 8,
        allow_choppy: false,
        extreme_proximity_atr: 5_000,
        bb_width_min_pct: 20_000,
        ema_slope_lookback_bars: 5,
        cooldown_after_close_hours: 20_000,
    }
}

fn liquidity() -> LiquidityConfig {
    LiquidityConfig { min_open_interest: 500, min_daily_volume: 100, max_bid_ask_spread: 1_500 }
}

/// A trending-up snapshot that scores 11 of 12 for a call against `ctx()`.
fn trend_snapshot() -> IndicatorSnapshot {
    IndicatorSnapshot {
        close: Some(110 * S),
        ema9: Some(108 * S),
        ema20: Some(105 * S),
        ema50: Some(100 * S),
        ema20_prev: Some(104 * S),
        rsi: Some(45 * S),
        macd: MacdResult { macd: Some(S), signal: Some(S / 2), histogram: Some(S / 2) },
        adx: AdxResult { adx: Some(30 * S), plus_di: Some(25 * S), minus_di: Some(15 * S) },
        bbands: BBands {
            upper: Some(115 * S),
            middle: Some(105 * S),
            lower: Some(95 * S),
            width: Some(1_905),
        },
        atr: Some(2 * S),
        vol_ratio: Some(8_000),
        hv20: Some(2_500),
        regime: Regime::TrendingUp,
    }
}

fn ctx() -> BarContext {
    BarContext {
        high: Some(111 * S),
        low: Some(107 * S),
        open: Some(108 * S),
        low_5b_ago: Some(104 * S),
        high_5b_ago: Some(109 * S),
        high_20d: Some(120 * S),
        low_20d: Some(95 * S),
        macd_hist_prev: Some(S / 4),
    }
}

#[test]
fn regime_detection() {
    let f = |x: i64| Some(x * S);
    // Trend up: price > EMA20 > EMA50, ADX ≥ 25, +DI > −DI, rising EMA20.
    assert_eq!(
        detect_regime(f(110), f(105), f(100), f(30), f(25), f(15), f(25), f(20), f(1), f(5), f(2)),
        Regime::TrendingUp
    );
    // Trend down: the mirror image.
    assert_eq!(
        detect_regime(f(90), f(95), f(100), f(30), f(15), f(25), f(25), f(20), f(-1), f(5), f(2)),
        Regime::TrendingDown
    );
    // Range: weak ADX, wide bands, price within 5% of EMA50.
    assert_eq!(
        detect_regime(f(102), f(101), f(100), f(15), f(20), f(18), f(25), f(20), f(1), f(5), f(2)),
        Regime::RangeBound
    );
    // 6% from the mean is no range.
    assert_eq!(
        detect_regime(f(106), f(101), f(100), f(15), f(20), f(18), f(25), f(20), f(1), f(5), f(2)),
        Regime::Choppy
    );
    // Undefined readings compare false, as NaN does.
    assert_eq!(
        detect_regime(None, f(105), f(100), f(30), f(25), f(15), f(25), f(20), f(1), f(5), f(2)),
        Regime::Choppy
    );
}

#[test]
fn regime_labels() {
    assert_eq!(Regime::TrendingUp.label(), "trending_up");
    assert_eq!(Regime::TrendingDown.label(), "trending_down");
    assert_eq!(Regime::RangeBound.label(), "range_bound");
    assert_eq!(Regime::Choppy.label(), "choppy");
}

#[test]
fn trend_call_scores_eleven() {
    assert_eq!(confluence_score(&trend_snapshot(), &ctx(), false), Some((11, 12, TradeDirection::Call)));
}

#[test]
fn trend_put_scoring() {
    let mut snap = trend_snapshot();
    snap.regime = Regime::TrendingDown;
    snap.rsi = Some(50 * S);
    snap.macd.histogram = Some(0);
    let mut c = ctx();
    c.high_5b_ago = Some(112 * S);
    // EMA9 in range 3, RSI 2, falling histogram 2, lower high 2, volume 1, ADX 1.
    assert_eq!(confluence_score(&snap, &c, false), Some((11, 12, TradeDirection::Put)));
}

#[test]
fn range_scoring_and_choppy() {
    let mut snap = trend_snapshot();
    snap.regime = Regime::RangeBound;
    snap.close = Some(96 * S);
    snap.rsi = Some(25 * S);
    snap.ema20 = Some(100 * S);
    snap.vol_ratio = Some(13_000);
    let mut c = ctx();
    c.low = Some(94 * S);
    c.open = Some(95 * S);
    // Near the lower band: call. Touch 3, oversold 3, reversal 2 (wick 1 > body/2),
    // stretched 1 (2×4 ≥ 3×2), volume spike 1.
    assert_eq!(confluence_score(&snap, &c, false), Some((10, 10, TradeDirection::Call)));
    snap.regime = Regime::Choppy;
    assert_eq!(confluence_score(&snap, &c, false), None);
    assert_eq!(confluence_score(&snap, &c, true), Some((10, 10, TradeDirection::Call)));
}

#[test]
fn cooldown_in_hours() {
    // Two-hour cooldown.
    assert!(in_cooldown(60, 20_000));
    assert!(in_cooldown(119, 20_000));
    assert!(!in_cooldown(120, 20_000));
}

#[test]
fn min_scores_by_regime() {
    let e = entry();
    assert_eq!(min_score_for(Regime::TrendingUp, &e), 6);
    assert_eq!(min_score_for(Regime::RangeBound, &e), 6);
    assert_eq!(min_score_for(Regime::Choppy, &e), 8);
}

#[test]
fn proximity_veto_near_extremes() {
    let c = ctx();
    // 20d high 120 is 9 above today's high; 0.5 × ATR 2 = 1: no veto.
    assert!(!proximity_veto(TradeDirection::Call, &c, Some(2 * S), 5_000));
    // With ATR 20 the threshold is 10 > 9: veto.
    assert!(proximity_veto(TradeDirection::Call, &c, Some(20 * S), 5_000));
    // Put: low 107 is 12 above the 20d low 95.
    assert!(!proximity_veto(TradeDirection::Put, &c, Some(20 * S), 5_000));
    assert!(!proximity_veto(TradeDirection::Call, &c, None, 5_000));
    assert!(!proximity_veto(TradeDirection::Call, &c, Some(0), 5_000));
}

#[test]
fn screening_outcomes() {
    let e = entry();
    let snap = trend_snapshot();
    assert_eq!(
        screen_setup(&snap, &ctx(), &e),
        Screen::Proceed { score: 11, max_score: 12, dir: TradeDirection::Call }
    );
    let mut near = ctx();
    near.high_20d = Some(1_115_000);
    assert_eq!(
        screen_setup(&snap, &near, &e),
        Screen::ExtremeProximity { score: 11, max_score: 12, dir: TradeDirection::Call }
    );
    let mut weak = snap;
    weak.rsi = Some(70 * S);
    weak.vol_ratio = Some(20_000);
    weak.adx.adx = Some(20 * S);
    weak.macd.histogram = Some(0);
    // 3 (EMA9) + 2 (higher low) = 5 < 6.
    assert_eq!(
        screen_setup(&weak, &ctx(), &e),
        Screen::BelowThreshold { score: 5, max_score: 12, dir: TradeDirection::Call }
    );
    let mut chop = snap;
    chop.regime = Regime::Choppy;
    assert_eq!(screen_setup(&chop, &ctx(), &e), Screen::Choppy);
}

#[test]
fn scan_outcome_labels() {
    assert_eq!(ScanOutcome::Choppy.label(), "choppy");
    assert_eq!(ScanOutcome::BelowThreshold.label(), "below_threshold");
    assert_eq!(ScanOutcome::ExtremeProximity.label(), "extreme_proximity");
    assert_eq!(ScanOutcome::NoContracts.label(), "no_contracts");
    assert_eq!(ScanOutcome::Entered.label(), "entered");
}

#[test]
fn bar_context_from_bars() {
    let n = 25usize;
    let highs: Vec<i64> = (0..25).map(|i| (100 + i) * S).collect();
    let lows: Vec<i64> = (0..25).map(|i| (90 + i) * S).collect();
    let opens: Vec<i64> = (0..25).map(|i| (95 + i) * S).collect();
    let c = make_bar_context(n, &highs, &lows, &opens, Some(7)).unwrap();
    assert_eq!(c.high, Some(124 * S));
    assert_eq!(c.low, Some(114 * S));
    assert_eq!(c.open, Some(119 * S));
    assert_eq!(c.low_5b_ago, Some(109 * S));
    assert_eq!(c.high_5b_ago, Some(119 * S));
    // Bars 4..=23, excluding today.
    assert_eq!(c.high_20d, Some(123 * S));
    assert_eq!(c.low_20d, Some(94 * S));
    assert_eq!(c.macd_hist_prev, Some(7));
    assert!(make_bar_context(20, &highs, &lows, &opens, None).is_none());
    assert!(make_bar_context(n, &highs, &lows, &Vec::new(), None).is_none());
}

#[test]
fn contract_prefilter() {
    let e = entry();
    let l = liquidity();
    assert!(contract_ok(true, Some(600 * S), Some(30), &e, &l));
    assert!(contract_ok(true, None, Some(14), &e, &l));
    assert!(!contract_ok(false, Some(600 * S), Some(30), &e, &l));
    assert!(!contract_ok(true, Some(499 * S), Some(30), &e, &l));
    assert!(!contract_ok(true, Some(600 * S), Some(46), &e, &l));
    assert!(!contract_ok(true, Some(600 * S), None, &e, &l));
}

#[test]
fn expiration_days() {
    let today = 20_563; // 2026-04-20
    assert_eq!(expiration_dte("2026-05-15", today), Some(25));
    assert_eq!(expiration_dte("2026-04-20", today), Some(0));
    assert_eq!(expiration_dte("2026-04-10", today), Some(-10));
    assert_eq!(expiration_dte("2026-02-30", today), None);
    assert_eq!(expiration_dte("soon", today), None);
}

#[test]
fn quote_filter_and_mid() {
    let e = entry();
    let l = liquidity();
    assert_eq!(quote_mid(Some(-4_500), Some(20_000), Some(21_000), 100, &e, &l, 5_000_000), Some(20_500));
    // Delta out of band (missing delta counts as 0).
    assert_eq!(quote_mid(Some(7_000), Some(20_000), Some(21_000), 100, &e, &l, 5_000_000), None);
    assert_eq!(quote_mid(None, Some(20_000), Some(21_000), 100, &e, &l, 5_000_000), None);
    // Spread too wide, one-sided quote, non-positive ask.
    assert_eq!(quote_mid(Some(4_500), Some(20_000), Some(22_000), 100, &e, &l, 5_000_000), None);
    assert_eq!(quote_mid(Some(4_500), None, Some(21_000), 100, &e, &l, 5_000_000), None);
    assert_eq!(quote_mid(Some(4_500), Some(-500), Some(0), 100, &e, &l, 5_000_000), None);
    // One contract over budget.
    assert_eq!(quote_mid(Some(4_500), Some(60_000), Some(61_000), 100, &e, &l, 5_000_000), None);
    // The budget is held against the exact mid: $0.99995 × 100 = $99.995.
    assert_eq!(quote_mid(Some(4_500), Some(9_999), Some(10_000), 100, &e, &l, 999_950), Some(9_999));
    assert_eq!(quote_mid(Some(4_500), Some(9_999), Some(10_000), 100, &e, &l, 999_949), None);
    // Daily volume under the minimum.
    assert_eq!(quote_mid(Some(4_500), Some(20_000), Some(21_000), 99, &e, &l, 5_000_000), None);
    assert_eq!(quote_mid(Some(4_500), Some(20_000), Some(21_000), 0, &e, &l, 5_000_000), None);
}

#[test]
fn candidate_from_quote() {
    let e = entry();
    let l = liquidity();
    let c = candidate_of("X".to_string(), Some(-4_000), Some(20_000), Some(21_000), 150, 700 * S, 250_000, &e, &l, 5_000_000)
        .unwrap();
    assert_eq!(c.contract, "X");
    assert_eq!(c.mid, 20_500);
    assert_eq!(c.delta_score, delta_distance(Some(-4_000), e.preferred_delta));
    assert_eq!(c.spread, 1_000);
    assert_eq!(c.open_interest, 700 * S);
    assert_eq!(c.iv_rank, 250_000);
    assert!(candidate_of("X".to_string(), Some(-4_000), Some(20_000), Some(21_000), 10, 0, 0, &e, &l, 5_000_000).is_none());
}

#[test]
fn iv_admission() {
    assert!(iv_admits(Some(1), 100_000, 300_000, 600_000));
    assert!(!iv_admits(Some(3), 200_000, 300_000, 600_000));
    assert!(iv_admits(Some(3), 300_000, 300_000, 600_000));
    assert!(!iv_admits(None, 700_000, 300_000, 600_000));
}

fn cand(name: &str, delta_score: i64, spread: i64, oi: i64) -> Candidate {
    Candidate { contract: name.to_string(), mid: 20_000, delta_score, spread, open_interest: oi, iv_rank: 0 }
}

#[test]
fn candidate_ranking() {
    assert_eq!(delta_distance(Some(-4_000), 4_500), 500);
    assert_eq!(delta_distance(None, 4_500), 4_500);
    assert_eq!(best_candidate(&Vec::new()), None);
    let cs = vec![
        cand("a", 500, 500, 100),
        cand("b", 200, 1_000, 50),
        cand("c", 200, 1_000, 80),
        cand("d", 200, 1_000, 80),
    ];
    // Closest delta, then highest open interest, first among equals.
    assert_eq!(best_candidate(&cs), Some(2));
    // Equally close in delta: the tighter spread wins over the higher open interest.
    let cs = vec![cand("a", 200, 1_000, 900), cand("b", 200, 500, 10), cand("c", 100, 1_500, 0)];
    assert_eq!(best_candidate(&cs), Some(2));
    let cs = vec![cand("a", 200, 1_000, 900), cand("b", 200, 500, 10)];
    assert_eq!(best_candidate(&cs), Some(1));
}

#[test]
fn sizing_by_regime_and_budget() {
    assert_eq!(regime_size_factor(Regime::Choppy, 12), 5_000);
    assert_eq!(regime_size_factor(Regime::RangeBound, 9), 10_000);
    assert_eq!(regime_size_factor(Regime::RangeBound, 7), 7_500);
    assert_eq!(regime_size_factor(Regime::TrendingUp, 11), 10_000);
    assert_eq!(regime_size_factor(Regime::TrendingDown, 9), 7_500);
    assert_eq!(regime_size_factor(Regime::TrendingUp, 8), 5_000);
    // $500 × 1 × 1 / $205 per contract = 2.4 → 2.
    assert_eq!(order_qty(5_000_000, 10_000, 10_000, 20_500), 2);
    // At least one contract.
    assert_eq!(order_qty(5_000_000, 5_000, 5_000, 60_000), 1);
    assert_eq!(order_qty(5_000_000, 0, 10_000, 20_500), 1);
}

#[test]
fn leg_orders() {
    assert_eq!(contract_direction("AAPL260619C00200000"), "call");
    assert_eq!(contract_direction("QQQ260619P00400000"), "put");
    // The type letter decides, whatever the root holds.
    assert_eq!(contract_direction("CAT260619P00200000"), "put");
    assert_eq!(contract_direction("COIN260515P00200000"), "put");
    assert_eq!(contract_direction("SPY260515C00500000"), "call");
    assert_eq!(contract_direction("C"), "put");
    assert_eq!(leg_side(LegAction::Buy), "buy");
    assert_eq!(leg_side(LegAction::Sell), "sell");
    let mut leg = OptionLeg {
        contract: "QQQ260619C00400000".to_string(),
        action: LegAction::Sell,
        qty: 1,
        order_type: OrderType::Limit,
        limit_price: Some(31_000),
    };
    assert_eq!(leg_limit_order(&leg), Some(("sell", 31_000)));
    leg.limit_price = None;
    assert_eq!(leg_limit_order(&leg), None);
}

#[test]
fn forge_strategy_id() {
    assert_eq!(ForgeStrategy::new().id(), "forge");
}

#[test]
fn open_position_lifecycle() {
    let mut m = OpenPositionMeta::submitted("QQQ260619C00400000", "QQQ", "call", 42, 31_000, 2, "ord-1".to_string());
    assert_eq!(m.pending_order_id.as_deref(), Some("ord-1"));
    assert_eq!(m.peak_pnl_pct, None);
    m.entry_filled(30_500);
    assert_eq!(m.entry_price, 30_500);
    assert_eq!(m.pending_order_id, None);
    m.observe_pnl(50_000);
    m.observe_pnl(20_000);
    assert_eq!(m.peak_pnl_pct, Some(50_000));
    m.observe_pnl(80_000);
    assert_eq!(m.peak_pnl_pct, Some(80_000));
    assert!(!m.force_exit_next_open);
    m.hold_for_next_open();
    assert!(m.force_exit_next_open);
    m.close_submitted("ord-2".to_string());
    assert_eq!(m.pending_close_order_id.as_deref(), Some("ord-2"));
    m.close_cleared();
    assert_eq!(m.pending_close_order_id, None);
    // The other fields are untouched by all of this.
    assert_eq!(m.entry_price, 30_500);
    assert_eq!(m.qty, 2);
    assert_eq!(m.opened_at, 42);
    assert_eq!(m.peak_pnl_pct, Some(80_000));
    assert!(m.force_exit_next_open);
}

fn engine() -> IvRankEngine {
    IvRankEngine::new(600_000, 500_000, 7_500, 252)
}

#[test]
fn entry_signal_for_best_contract() {
    let c = Candidate {
        contract: "QQQ260619C00400000".to_string(),
        mid: 20_500,
        delta_score: 0,
        spread: 500,
        open_interest: 0,
        iv_rank: 300_000,
    };
    // Range regime, score 9: full size; $500 / $205 → 2 contracts.
    match entry_signal("QQQ", &c, Regime::RangeBound, 9, 5_000_000, &engine()) {
        Signal::EnterLong { symbol, legs } => {
            assert_eq!(symbol, "QQQ");
            assert_eq!(legs.len(), 1);
            assert_eq!(legs[0].contract, "QQQ260619C00400000");
            assert_eq!(legs[0].action, LegAction::Buy);
            assert_eq!(legs[0].order_type, OrderType::Limit);
            assert_eq!(legs[0].limit_price, Some(20_500));
            assert_eq!(legs[0].qty, 2);
        }
        other => panic!("unexpected signal {other:?}"),
    }
    // Trend regime, score 8: half size → 1 contract.
    match entry_signal("QQQ", &c, Regime::TrendingUp, 8, 5_000_000, &engine()) {
        Signal::EnterLong { legs, .. } => assert_eq!(legs[0].qty, 1),
        other => panic!("unexpected signal {other:?}"),
    }
    // IV rank in the caution zone: three quarters of the size, $375 / $105 → 3.
    let mut cheap = c.clone();
    cheap.mid = 10_500;
    cheap.iv_rank = 550_000;
    match entry_signal("QQQ", &cheap, Regime::RangeBound, 9, 5_000_000, &engine()) {
        Signal::EnterLong { legs, .. } => assert_eq!(legs[0].qty, 3),
        other => panic!("unexpected signal {other:?}"),
    }
    cheap.iv_rank = 300_000;
    match entry_signal("QQQ", &cheap, Regime::RangeBound, 9, 5_000_000, &engine()) {
        Signal::EnterLong { legs, .. } => assert_eq!(legs[0].qty, 4),
        other => panic!("unexpected signal {other:?}"),
    }
}

#[test]
fn cycle_keeps_symbol_order() {
    let symbols = vec!["SPY".to_string(), "QQQ".to_string(), "IWM".to_string(), "AAPL".to_string()];
    let pick = |name: &str| Pick { candidate: cand(name, 0, 500, 0), regime: Regime::RangeBound, score: 9 };
    let picks = vec![Some(pick("SPY260619C00500000")), None, Some(pick("IWM260619P00200000")), Some(pick("AAPL260619C00200000"))];
    let sigs = cycle_signals(&symbols, &picks, 5_000_000, &engine());
    let names: Vec<String> = sigs
        .iter()
        .map(|s| match s {
            Signal::EnterLong { symbol, legs } => {
                assert_eq!(legs.len(), 1);
                symbol.clone()
            }
            other => panic!("unexpected signal {other:?}"),
        })
        .collect();
    assert_eq!(names, vec!["SPY".to_string(), "IWM".to_string(), "AAPL".to_string()]);
    assert!(cycle_signals(&symbols, &vec![None, None, None, None], 5_000_000, &engine()).is_empty());
}
