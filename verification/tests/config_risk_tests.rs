use ferrum::config::{
    AlpacaConfig, AlpacaCredentials, AlpacaLiveCredentials, AppConfig, EntryConfig, ExitConfig,
    IvEngineConfig, LiquidityConfig, Mode, PdtConfig, RegimeConfig, RiskConfig, SectorGroup,
    SizingConfig, SizingTier, StrategyConfig, SymbolsConfig,
};
use ferrum::error::FerrumError;
use ferrum::risk::{estimate_position_usd, signal_underlying, RiskGuard};
use ferrum::types::{LegAction, OptionLeg, OrderType, Signal};

fn strings(v: &[&str]) -> Vec<String> {
    v.iter().map(|s| s.to_string()).collect()
}

fn config() -> AppConfig {
    AppConfig {
        alpaca: AlpacaConfig {
            mode: Mode::Paper,
            paper: AlpacaCredentials {
                key: "paper-key".to_string(),
                secret: "paper-secret".to_string(),
                base_url: "https://paper-api.alpaca.markets".to_string(),
            },
            live: AlpacaLiveCredentials {
                key: "live-key".to_string(),
                secret: "live-secret".to_string(),
                base_url: "https://api.alpaca.markets".to_string(),
                enabled: false,
            },
        },
        symbols: SymbolsConfig {
            tier1: strings(&["SPY", "QQQ"]),
            tier2: strings(&["AAPL", "MSFT"]),
            tier3: strings(&["TSLA"]),
            tier3_iv_rank_min: 300_000,
            sectors: vec![
                SectorGroup { name: "tech".to_string(), symbols: strings(&["AAPL", "MSFT"]) },
                SectorGroup { name: "index".to_string(), symbols: strings(&["SPY", "QQQ"]) },
            ],
        },
        liquidity: LiquidityConfig {
            min_open_interest: 500,
            min_daily_volume: 100,
            max_bid_ask_spread: 1_500,
        },
        strategy: StrategyConfig {
            name: "forge".to_string(),
            scan_interval_secs: 300,
            chain_scan_interval: 900,
            exit_check_interval: 60,
            scan_start_time: "09:30".to_string(),
            scan_end_time: "15:30".to_string(),
            market_data_cooldown: 1,
            entry: EntryConfig {
                min_confluence_score: 6,
                preferred_delta: 4_500,
                delta_min: 3_500,
                delta_max: 6_000,
                dte_min: 14,
                dte_max: 45,
                order_type: "limit".to_string(),
                limit_price_method: "mid".to_string(),
                trend_min_score: 6,
                range_min_score: 6,
                choppy_min_score: 8,
                allow_choppy: false,
                extreme_proximity_atr: 5_000,
                bb_width_min_pct: 20_000,
                ema_slope_lookback_bars: 5,
                cooldown_after_close_hours: 20_000,
            },
            exit: ExitConfig {
                trailing_activation_pct: 300_000,
                trailing_trail_gap_pct: 100_000,
                profit_target_partial_pct: 500_000,
                profit_target_full_pct: 1_000_000,
                stop_loss_pct: 250_000,
                emergency_stop_pct: 400_000,
                time_exit_dte: 2,
                theta_exit_dte: 5,
                theta_exit_min_pnl_pct: 100_000,
                dead_money_days: 5,
                dead_money_min_pct: 50_000,
                min_hold_hours: 10_000,
            },
            regime: RegimeConfig {
                ema_fast: 9,
                ema_mid: 20,
                ema_slow: 50,
                adx_period: 14,
                adx_trend_threshold: 250_000,
                adx_no_trend_threshold: 200_000,
                rsi_period: 14,
                rsi_overbought: 700_000,
                rsi_oversold: 300_000,
                macd_fast: 12,
                macd_slow: 26,
                macd_signal: 9,
                bbands_period: 20,
                bbands_std_dev: 20_000,
                atr_period: 14,
                volume_ma_period: 20,
            },
        },
        iv_engine: IvEngineConfig {
            iv_rank_buy_max: 600_000,
            iv_rank_sweet_min: 200_000,
            iv_rank_sweet_max: 400_000,
            iv_rank_caution_min: 400_000,
            iv_rank_caution_factor: 5_000,
            hv_lookback_days: 252,
        },
        sizing: SizingConfig {
            max_risk_per_trade_pct: 20_000,
            max_position_usd: 5_000_000,
            max_portfolio_risk_pct: 200_000,
            max_open_positions: 4,
            min_cash_reserve_pct: 200_000,
            max_sector_positions: 2,
            tiers: vec![
                SizingTier { score_min: 6, score_max: 7, size_factor: 5_000 },
                SizingTier { score_min: 8, score_max: 9, size_factor: 7_500 },
                SizingTier { score_min: 10, score_max: 12, size_factor: 10_000 },
            ],
        },
        risk: RiskConfig {
            daily_drawdown_pct: 30_000,
            halt_equity_floor: 10_000_000,
            price_sanity_pct: 50_000,
        },
        pdt: PdtConfig {
            max_day_trades_per_5d: 2,
            rolling_window_days: 5,
            emergency_stop_pct: 400_000,
            exceptional_win_pct: 1_000_000,
            block_on_limit: true,
        },
    }
}

fn long_signal(symbol: &str, price: Option<i64>, qty: u32) -> Signal {
    Signal::EnterLong {
        symbol: symbol.to_string(),
        legs: vec![OptionLeg {
            contract: format!("{symbol}260619C00200000"),
            action: LegAction::Buy,
            qty,
            order_type: OrderType::Limit,
            limit_price: price,
        }],
    }
}

fn violation(r: Result<(), FerrumError>) -> String {
    match r {
        Err(FerrumError::RiskViolation(m)) => m,
        Err(e) => panic!("unexpected error {}", e.message()),
        Ok(()) => panic!("expected a violation"),
    }
}

#[test]
fn mode_labels() {
    assert_eq!(Mode::Paper.label(), "PAPER");
    assert_eq!(Mode::Live.label(), "LIVE");
}

#[test]
fn symbols_all_keeps_tier_order() {
    let cfg = config();
    assert_eq!(cfg.symbols.all(), strings(&["SPY", "QQQ", "AAPL", "MSFT", "TSLA"]));
}

#[test]
fn tier_of_finds_first_tier() {
    let cfg = config();
    assert_eq!(cfg.symbols.tier_of("QQQ"), Some(1));
    assert_eq!(cfg.symbols.tier_of("MSFT"), Some(2));
    assert_eq!(cfg.symbols.tier_of("TSLA"), Some(3));
    assert_eq!(cfg.symbols.tier_of("IWM"), None);
}

#[test]
fn sector_of_maps_or_falls_back_to_symbol() {
    let cfg = config();
    assert_eq!(cfg.symbols.sector_of("AAPL"), "tech");
    assert_eq!(cfg.symbols.sector_of("SPY"), "index");
    assert_eq!(cfg.symbols.sector_of("TSLA"), "TSLA");
}

#[test]
fn size_factor_for_scores() {
    let cfg = config();
    assert_eq!(cfg.sizing.size_factor_for(6), 5_000);
    assert_eq!(cfg.sizing.size_factor_for(9), 7_500);
    assert_eq!(cfg.sizing.size_factor_for(12), 10_000);
    // No tier covers 3 or 20: the minimum factor among the tiers.
    assert_eq!(cfg.sizing.size_factor_for(3), 5_000);
    assert_eq!(cfg.sizing.size_factor_for(20), 5_000);
    assert_eq!(cfg.sizing.size_factor_for(13), 5_000);
    let mut shuffled = cfg.sizing.clone();
    shuffled.tiers.reverse();
    assert_eq!(shuffled.size_factor_for(13), 5_000);
    let mut empty = cfg.sizing.clone();
    empty.tiers.clear();
    assert_eq!(empty.size_factor_for(9), 5_000);
}

#[test]
fn active_credentials_follow_mode() {
    let mut cfg = config();
    assert_eq!(cfg.active_base_url(), "https://paper-api.alpaca.markets");
    assert_eq!(cfg.active_key(), "paper-key");
    assert_eq!(cfg.active_secret(), "paper-secret");
    cfg.alpaca.mode = Mode::Live;
    assert_eq!(cfg.active_base_url(), "https://api.alpaca.markets");
    assert_eq!(cfg.active_key(), "live-key");
    assert_eq!(cfg.active_secret(), "live-secret");
}

#[test]
fn estimate_position_usd_sums_priced_legs() {
    // 2.05 × 3 × 100 = 615.00
    assert_eq!(estimate_position_usd(&long_signal("SPY", Some(20_500), 3)), Some(6_150_000));
    assert_eq!(estimate_position_usd(&long_signal("SPY", None, 3)), None);
    assert_eq!(estimate_position_usd(&long_signal("SPY", Some(0), 3)), None);
    let exit = Signal::Exit { symbol: "SPY".to_string() };
    assert_eq!(estimate_position_usd(&exit), None);
    assert_eq!(signal_underlying(&exit), "SPY");
}

#[test]
fn risk_blocks_below_equity_floor() {
    let cfg = config();
    let g = RiskGuard::new(&cfg, 0, 0, 5_000_000, 0);
    let m = violation(g.check_entry(&long_signal("SPY", Some(10_000), 1)));
    assert_eq!(m, "account equity $500.00 below halt floor $1000.00");
}

#[test]
fn risk_blocks_daily_drawdown() {
    let cfg = config();
    let g = RiskGuard::new(&cfg, 0, -35_000, 100_000_000, 0);
    let m = violation(g.check_entry(&long_signal("SPY", Some(10_000), 1)));
    assert_eq!(m, "daily drawdown 3.50% exceeds limit 3.00%");
}

#[test]
fn risk_blocks_at_drawdown_limit_exactly() {
    let cfg = config();
    let g = RiskGuard::new(&cfg, 0, -30_000, 100_000_000, 0);
    let m = violation(g.check_entry(&long_signal("SPY", Some(10_000), 1)));
    assert_eq!(m, "daily drawdown 3.00% exceeds limit 3.00%");
}

#[test]
fn risk_blocks_max_open_positions() {
    let cfg = config();
    let g = RiskGuard::new(&cfg, 4, 0, 100_000_000, 0);
    let m = violation(g.check_entry(&long_signal("SPY", Some(10_000), 1)));
    assert_eq!(m, "max open positions 4 reached");
}

#[test]
fn risk_blocks_full_sector() {
    let cfg = config();
    let g = RiskGuard::new(&cfg, 2, 0, 100_000_000, 0)
        .with_open_underlyings(&strings(&["AAPL", "MSFT"]));
    let m = violation(g.check_entry(&long_signal("AAPL", Some(10_000), 1)));
    assert_eq!(m, "sector 'tech' already has 2 open positions (limit 2)");
    // Another sector still has room.
    assert!(g.check_entry(&long_signal("SPY", Some(10_000), 1)).is_ok());
}

#[test]
fn risk_counts_unmapped_symbols_as_own_sector() {
    let cfg = config();
    let g = RiskGuard::new(&cfg, 2, 0, 100_000_000, 0)
        .with_open_underlyings(&strings(&["TSLA", "TSLA"]));
    let m = violation(g.check_entry(&long_signal("TSLA", Some(10_000), 1)));
    assert_eq!(m, "sector 'TSLA' already has 2 open positions (limit 2)");
}

#[test]
fn risk_blocks_portfolio_risk_limit() {
    let cfg = config();
    // 10000 × (1 − 20%) × 20% = 1600
    let g = RiskGuard::new(&cfg, 0, 0, 100_000_000, 16_000_000);
    let m = violation(g.check_entry(&long_signal("SPY", Some(10_000), 1)));
    assert_eq!(m, "portfolio risk $1600.00 at limit $1600.00");
}

#[test]
fn risk_blocks_position_over_max() {
    let cfg = config();
    let g = RiskGuard::new(&cfg, 0, 0, 100_000_000, 0);
    let m = violation(g.check_entry(&long_signal("SPY", Some(60_000), 1)));
    assert_eq!(m, "position cost $600.00 exceeds max $500.00");
}

#[test]
fn risk_blocks_cash_reserve_breach() {
    let mut cfg = config();
    cfg.sizing.min_cash_reserve_pct = 900_000;
    cfg.sizing.max_portfolio_risk_pct = 1_000_000;
    let g = RiskGuard::new(&cfg, 0, 0, 100_000_000, 9_000_000);
    let m = violation(g.check_entry(&long_signal("SPY", Some(50_000), 1)));
    assert_eq!(m, "order would breach cash reserve (remaining $8600.00 < min $9000.00)");
}

#[test]
fn risk_passes_healthy_entry() {
    let cfg = config();
    let g = RiskGuard::new(&cfg, 1, -10_000, 100_000_000, 1_000_000)
        .with_open_underlyings(&strings(&["AAPL"]));
    assert!(g.check_entry(&long_signal("MSFT", Some(20_500), 2)).is_ok());
    // Exits carry no cost and pass the money checks.
    assert!(g.check_entry(&Signal::Exit { symbol: "SPY".to_string() }).is_ok());
}

#[test]
fn error_messages() {
    assert_eq!(
        FerrumError::RiskViolation("max open positions 4 reached".to_string()).message(),
        "risk violation: max open positions 4 reached"
    );
    assert_eq!(FerrumError::LiveTradingDisabled.message(), "live trading disabled in v1");
    assert_eq!(FerrumError::Config("bad".to_string()).message(), "config error: bad");
    assert_eq!(FerrumError::Http("timeout".to_string()).message(), "HTTP error: timeout");
    assert_eq!(FerrumError::Alpaca("403".to_string()).message(), "alpaca API error: 403");
    assert_eq!(FerrumError::Polygon("x".to_string()).message(), "polygon API error: x");
    assert_eq!(FerrumError::Database("locked".to_string()).message(), "database error: locked");
    assert_eq!(FerrumError::Ipc("closed".to_string()).message(), "IPC error: closed");
    assert_eq!(FerrumError::Io("denied".to_string()).message(), "IO error: denied");
    assert_eq!(FerrumError::Json("eof".to_string()).message(), "JSON error: eof");
}
