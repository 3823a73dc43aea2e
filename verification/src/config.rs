//! Daemon configuration: credentials, symbol universe, strategy, sizing,
//! risk and PDT parameters. Fractional settings are fixed-point values
//! (see [`crate::fixed`]).

use vstd::prelude::*;
use crate::error::FerrumError;
use crate::fixed::fx_ok;
use crate::text::{contains_str, views};

verus! {

// ── Alpaca ────────────────────────────────────────────────────────────────────

/// Paper or live trading.
#[derive(Debug, Clone, Copy, PartialEq, Eq, Structural)]
pub enum Mode {
    Paper,
    Live,
}

impl Mode {
    /// The display label: `PAPER` or `LIVE`.
    pub fn label(&self) -> (r: &'static str)
        ensures
            r@ == (match *self {
                Mode::Paper => "PAPER"@,
                Mode::Live => "LIVE"@,
            }),
    {
        match self {
            Mode::Paper => "PAPER",
            Mode::Live => "LIVE",
        }
    }
}

#[derive(Debug, Clone)]
pub struct AlpacaConfig {
    pub mode: Mode,
    pub paper: AlpacaCredentials,
    pub live: AlpacaLiveCredentials,
}

impl AlpacaConfig {
    /// The start-up gate: live mode is refused whatever `live.enabled`
    /// says; paper mode may start.
    pub fn check_live_gate(&self) -> (r: Result<(), FerrumError>)
        ensures
            r is Ok <==> self.mode == Mode::Paper,
            r is Err ==> r == Err::<(), FerrumError>(FerrumError::LiveTradingDisabled),
    {
        match self.mode {
            Mode::Paper => Ok(()),
            Mode::Live => Err(FerrumError::LiveTradingDisabled),
        }
    }
}

#[derive(Debug, Clone)]
pub struct AlpacaCredentials {
    pub key: String,
    pub secret: String,
    pub base_url: String,
}

#[derive(Debug, Clone)]
pub struct AlpacaLiveCredentials {
    pub key: String,
    pub secret: String,
    pub base_url: String,
    pub enabled: bool,
}

// ── Symbol universe ───────────────────────────────────────────────────────────

/// A named group of underlyings that count against one sector cap.
#[derive(Debug, Clone)]
pub struct SectorGroup {
    pub name: String,
    pub symbols: Vec<String>,
}

#[derive(Debug, Clone)]
pub struct SymbolsConfig {
    pub tier1: Vec<String>,
    pub tier2: Vec<String>,
    pub tier3: Vec<String>,
    /// Fixed-point IV rank that tier-3 symbols need before they are traded.
    pub tier3_iv_rank_min: i64,
    /// Sector groups; an underlying listed in none is a sector of its own.
    pub sectors: Vec<SectorGroup>,
}

/// The sector an underlying belongs to: the first group that lists it, or
/// the underlying itself when no group does.
pub open spec fn spec_sector_of(sectors: Seq<SectorGroup>, symbol: Seq<char>) -> Seq<char>
    decreases sectors.len(),
{
    if sectors.len() == 0 {
        symbol
    } else if views(sectors[0].symbols@).contains(symbol) {
        sectors[0].name@
    } else {
        spec_sector_of(sectors.drop_first(), symbol)
    }
}

impl SymbolsConfig {
    /// All symbols across all tiers, tier 1 first.
    pub fn all(&self) -> (r: Vec<String>)
        ensures
            views(r@) == views(self.tier1@) + views(self.tier2@) + views(self.tier3@),
    {
        let mut out: Vec<String> = Vec::new();
        let mut i: usize = 0;
        while i < self.tier1.len()
            invariant
                i <= self.tier1.len(),
                views(out@) == views(self.tier1@.subrange(0, i as int)),
            decreases self.tier1.len() - i,
        {
            let ghost old_out = out;
            out.push(self.tier1[i].clone());
            proof {
                assert(self.tier1@.subrange(0, i + 1) =~= self.tier1@.subrange(0, i as int).push(
                    self.tier1@[i as int],
                ));
                let ghost prev = views(old_out@);
                assert(out@ == old_out@.push(self.tier1@[i as int]));
                assert(views(out@) =~= prev.push(self.tier1@[i as int]@));
                assert(views(out@) =~= views(self.tier1@.subrange(0, i + 1)));
            }
            i = i + 1;
        }
        proof {
            assert(self.tier1@.subrange(0, i as int) =~= self.tier1@);
        }
        let ghost base1 = views(out@);
        let mut i: usize = 0;
        while i < self.tier2.len()
            invariant
                i <= self.tier2.len(),
                views(out@) == base1 + views(self.tier2@.subrange(0, i as int)),
            decreases self.tier2.len() - i,
        {
            let ghost old_out = out;
            out.push(self.tier2[i].clone());
            proof {
                assert(self.tier2@.subrange(0, i + 1) =~= self.tier2@.subrange(0, i as int).push(
                    self.tier2@[i as int],
                ));
                let ghost prev = views(old_out@);
                assert(out@ == old_out@.push(self.tier2@[i as int]));
                assert(views(out@) =~= prev.push(self.tier2@[i as int]@));
                assert(views(out@) =~= base1 + views(self.tier2@.subrange(0, i + 1)));
            }
            i = i + 1;
        }
        proof {
            assert(self.tier2@.subrange(0, i as int) =~= self.tier2@);
        }
        let ghost base2 = views(out@);
        let mut i: usize = 0;
        while i < self.tier3.len()
            invariant
                i <= self.tier3.len(),
                views(out@) == base2 + views(self.tier3@.subrange(0, i as int)),
            decreases self.tier3.len() - i,
        {
            let ghost old_out = out;
            out.push(self.tier3[i].clone());
            proof {
                assert(self.tier3@.subrange(0, i + 1) =~= self.tier3@.subrange(0, i as int).push(
                    self.tier3@[i as int],
                ));
                let ghost prev = views(old_out@);
                assert(out@ == old_out@.push(self.tier3@[i as int]));
                assert(views(out@) =~= prev.push(self.tier3@[i as int]@));
                assert(views(out@) =~= base2 + views(self.tier3@.subrange(0, i + 1)));
            }
            i = i + 1;
        }
        proof {
            assert(self.tier3@.subrange(0, i as int) =~= self.tier3@);
        }
        out
    }

    /// The tier (1/2/3) of a symbol, or `None` if no tier lists it.
    pub fn tier_of(&self, symbol: &str) -> (r: Option<u8>)
        ensures
            r == (if views(self.tier1@).contains(symbol@) {
                Some(1u8)
            } else if views(self.tier2@).contains(symbol@) {
                Some(2u8)
            } else if views(self.tier3@).contains(symbol@) {
                Some(3u8)
            } else {
                None
            }),
    {
        if contains_str(&self.tier1, symbol) {
            return Some(1);
        }
        if contains_str(&self.tier2, symbol) {
            return Some(2);
        }
        if contains_str(&self.tier3, symbol) {
            return Some(3);
        }
        None
    }

    /// The sector an underlying counts against.
    pub fn sector_of(&self, symbol: &str) -> (r: String)
        ensures
            r@ == spec_sector_of(self.sectors@, symbol@),
    {
        let mut i: usize = 0;
        proof {
            assert(self.sectors@.subrange(0, self.sectors@.len() as int) =~= self.sectors@);
        }
        while i < self.sectors.len()
            invariant
                i <= self.sectors.len(),
                spec_sector_of(self.sectors@, symbol@) == spec_sector_of(
                    self.sectors@.subrange(i as int, self.sectors@.len() as int),
                    symbol@,
                ),
            decreases self.sectors.len() - i,
        {
            let ghost rest = self.sectors@.subrange(i as int, self.sectors@.len() as int);
            proof {
                assert(rest[0] == self.sectors@[i as int]);
                assert(rest.drop_first() =~= self.sectors@.subrange(
                    i + 1,
                    self.sectors@.len() as int,
                ));
            }
            if contains_str(&self.sectors[i].symbols, symbol) {
                return self.sectors[i].name.clone();
            }
            i = i + 1;
        }
        proof {
            assert(self.sectors@.subrange(i as int, self.sectors@.len() as int).len() == 0);
        }
        String::from_str(symbol)
    }
}

// ── Liquidity filters ─────────────────────────────────────────────────────────

#[derive(Debug, Clone)]
pub struct LiquidityConfig {
    pub min_open_interest: u32,
    pub min_daily_volume: u32,
    /// Fixed-point dollars.
    pub max_bid_ask_spread: i64,
}

// ── Strategy ──────────────────────────────────────────────────────────────────

#[derive(Debug, Clone)]
pub struct StrategyConfig {
    pub name: String,
    pub scan_interval_secs: u64,
    pub chain_scan_interval: u64,
    pub exit_check_interval: u64,
    /// "HH:MM" Eastern time.
    pub scan_start_time: String,
    /// "HH:MM" Eastern time.
    pub scan_end_time: String,
    /// Seconds between market-data calls.
    pub market_data_cooldown: u64,
    pub entry: EntryConfig,
    pub exit: ExitConfig,
    pub regime: RegimeConfig,
}

/// Entry rules. Fractional fields are fixed-point.
#[derive(Debug, Clone)]
pub struct EntryConfig {
    pub min_confluence_score: u32,
    pub preferred_delta: i64,
    pub delta_min: i64,
    pub delta_max: i64,
    pub dte_min: u32,
    pub dte_max: u32,
    pub order_type: String,
    pub limit_price_method: String,
    pub trend_min_score: u32,
    pub range_min_score: u32,
    pub choppy_min_score: u32,
    pub allow_choppy: bool,
    /// ATR multiple within which a 20-day extreme vetoes an entry.
    pub extreme_proximity_atr: i64,
    /// Minimum Bollinger band width, in percent, for a range regime.
    pub bb_width_min_pct: i64,
    pub ema_slope_lookback_bars: u64,
    /// Hours after a close during which the same underlying is not re-entered.
    pub cooldown_after_close_hours: i64,
}

/// Exit rules. Percentages are fixed-point percent of premium.
#[derive(Debug, Clone)]
pub struct ExitConfig {
    pub trailing_activation_pct: i64,
    pub trailing_trail_gap_pct: i64,
    pub profit_target_partial_pct: i64,
    pub profit_target_full_pct: i64,
    pub stop_loss_pct: i64,
    pub emergency_stop_pct: i64,
    pub time_exit_dte: u32,
    pub theta_exit_dte: u32,
    pub theta_exit_min_pnl_pct: i64,
    pub dead_money_days: u32,
    pub dead_money_min_pct: i64,
    /// Fixed-point hours a position is held before an ordinary stop-loss.
    pub min_hold_hours: i64,
}

#[derive(Debug, Clone)]
pub struct RegimeConfig {
    pub ema_fast: u32,
    pub ema_mid: u32,
    pub ema_slow: u32,
    pub adx_period: u32,
    pub adx_trend_threshold: i64,
    pub adx_no_trend_threshold: i64,
    pub rsi_period: u32,
    pub rsi_overbought: i64,
    pub rsi_oversold: i64,
    pub macd_fast: u32,
    pub macd_slow: u32,
    pub macd_signal: u32,
    pub bbands_period: u32,
    pub bbands_std_dev: i64,
    pub atr_period: u32,
    pub volume_ma_period: u32,
}

// ── IV rank engine ────────────────────────────────────────────────────────────

#[derive(Debug, Clone)]
pub struct IvEngineConfig {
    pub iv_rank_buy_max: i64,
    pub iv_rank_sweet_min: i64,
    pub iv_rank_sweet_max: i64,
    pub iv_rank_caution_min: i64,
    pub iv_rank_caution_factor: i64,
    pub hv_lookback_days: u32,
}

// ── Position sizing ───────────────────────────────────────────────────────────

#[derive(Debug, Clone)]
pub struct SizingConfig {
    pub max_risk_per_trade_pct: i64,
    /// Fixed-point dollars.
    pub max_position_usd: i64,
    pub max_portfolio_risk_pct: i64,
    pub max_open_positions: u32,
    pub min_cash_reserve_pct: i64,
    pub max_sector_positions: u32,
    pub tiers: Vec<SizingTier>,
}

#[derive(Debug, Clone)]
pub struct SizingTier {
    pub score_min: u32,
    pub score_max: u32,
    /// Fixed-point fraction of the maximum position.
    pub size_factor: i64,
}

/// Whether a sizing tier covers a confluence score.
pub open spec fn tier_covers(t: SizingTier, score: u32) -> bool {
    t.score_min <= score && score <= t.score_max
}

/// Half a position, the factor used when no tier is configured.
pub const DEFAULT_SIZE_FACTOR: i64 = 5_000;

impl SizingConfig {
    /// The size factor of the first tier covering `score`; when none does,
    /// the minimum: the smallest factor among the tiers, or one half when
    /// there are no tiers.
    pub fn size_factor_for(&self, score: u32) -> (r: i64)
        ensures
            (exists|i: int| 0 <= i < self.tiers@.len() && tier_covers(self.tiers@[i], score))
                ==> (exists|i: int|
                0 <= i < self.tiers@.len() && tier_covers(#[trigger] self.tiers@[i], score)
                    && r == self.tiers@[i].size_factor && forall|j: int|
                    0 <= j < i ==> !tier_covers(#[trigger] self.tiers@[j], score)),
            !(exists|i: int| 0 <= i < self.tiers@.len() && tier_covers(self.tiers@[i], score))
                && self.tiers@.len() > 0 ==> is_min_factor(self.tiers@, r),
            !(exists|i: int| 0 <= i < self.tiers@.len() && tier_covers(self.tiers@[i], score))
                && self.tiers@.len() == 0 ==> r == DEFAULT_SIZE_FACTOR,
    {
        let mut i: usize = 0;
        while i < self.tiers.len()
            invariant
                i <= self.tiers.len(),
                forall|j: int| 0 <= j < i ==> !tier_covers(#[trigger] self.tiers@[j], score),
            decreases self.tiers.len() - i,
        {
            let t = &self.tiers[i];
            if score >= t.score_min && score <= t.score_max {
                proof {
                    assert(tier_covers(self.tiers@[i as int], score));
                }
                return t.size_factor;
            }
            i = i + 1;
        }
        if self.tiers.len() == 0 {
            return DEFAULT_SIZE_FACTOR;
        }
        let mut m = self.tiers[0].size_factor;
        let mut k: usize = 1;
        while k < self.tiers.len()
            invariant
                1 <= k <= self.tiers.len(),
                exists|j: int| 0 <= j < k && m == #[trigger] self.tiers@[j].size_factor,
                forall|j: int| 0 <= j < k ==> m <= #[trigger] self.tiers@[j].size_factor,
            decreases self.tiers.len() - k,
        {
            if self.tiers[k].size_factor < m {
                m = self.tiers[k].size_factor;
            }
            k = k + 1;
        }
        m
    }
}

/// `f` is the smallest size factor among `tiers`.
pub open spec fn is_min_factor(tiers: Seq<SizingTier>, f: i64) -> bool {
    &&& exists|j: int| 0 <= j < tiers.len() && f == #[trigger] tiers[j].size_factor
    &&& forall|j: int| 0 <= j < tiers.len() ==> f <= #[trigger] tiers[j].size_factor
}

// ── Risk guard ────────────────────────────────────────────────────────────────

#[derive(Debug, Clone)]
pub struct RiskConfig {
    pub daily_drawdown_pct: i64,
    /// Fixed-point dollars.
    pub halt_equity_floor: i64,
    pub price_sanity_pct: i64,
}

// ── PDT protection ────────────────────────────────────────────────────────────

#[derive(Debug, Clone)]
pub struct PdtConfig {
    pub max_day_trades_per_5d: u32,
    pub rolling_window_days: u32,
    pub emergency_stop_pct: i64,
    pub exceptional_win_pct: i64,
    pub block_on_limit: bool,
}

// ── Top level ─────────────────────────────────────────────────────────────────

#[derive(Debug, Clone)]
pub struct AppConfig {
    pub alpaca: AlpacaConfig,
    pub symbols: SymbolsConfig,
    pub liquidity: LiquidityConfig,
    pub strategy: StrategyConfig,
    pub iv_engine: IvEngineConfig,
    pub sizing: SizingConfig,
    pub risk: RiskConfig,
    pub pdt: PdtConfig,
}

impl AppConfig {
    /// Every fixed-point setting lies in the library's working range.
    pub open spec fn well_formed(&self) -> bool {
        &&& fx_ok(self.symbols.tier3_iv_rank_min)
        &&& fx_ok(self.liquidity.max_bid_ask_spread)
        &&& fx_ok(self.strategy.entry.preferred_delta)
        &&& fx_ok(self.strategy.entry.delta_min)
        &&& fx_ok(self.strategy.entry.delta_max)
        &&& fx_ok(self.strategy.entry.extreme_proximity_atr)
        &&& fx_ok(self.strategy.entry.bb_width_min_pct)
        &&& fx_ok(self.strategy.entry.cooldown_after_close_hours)
        &&& fx_ok(self.strategy.exit.trailing_activation_pct)
        &&& fx_ok(self.strategy.exit.trailing_trail_gap_pct)
        &&& fx_ok(self.strategy.exit.stop_loss_pct)
        &&& fx_ok(self.strategy.exit.emergency_stop_pct)
        &&& fx_ok(self.strategy.exit.theta_exit_min_pnl_pct)
        &&& fx_ok(self.strategy.exit.dead_money_min_pct)
        &&& fx_ok(self.strategy.exit.min_hold_hours)
        &&& fx_ok(self.iv_engine.iv_rank_buy_max)
        &&& fx_ok(self.iv_engine.iv_rank_caution_min)
        &&& fx_ok(self.iv_engine.iv_rank_caution_factor)
        &&& fx_ok(self.sizing.max_position_usd)
        &&& fx_ok(self.sizing.max_portfolio_risk_pct)
        &&& fx_ok(self.sizing.min_cash_reserve_pct)
        &&& fx_ok(self.risk.daily_drawdown_pct)
        &&& fx_ok(self.risk.halt_equity_floor)
        &&& fx_ok(self.pdt.emergency_stop_pct)
        &&& fx_ok(self.pdt.exceptional_win_pct)
    }

    /// Base URL of the account the mode selects.
    pub fn active_base_url(&self) -> (r: &str)
        ensures
            r@ == (match self.alpaca.mode {
                Mode::Paper => self.alpaca.paper.base_url@,
                Mode::Live => self.alpaca.live.base_url@,
            }),
    {
        match self.alpaca.mode {
            Mode::Paper => self.alpaca.paper.base_url.as_str(),
            Mode::Live => self.alpaca.live.base_url.as_str(),
        }
    }

    /// API key of the account the mode selects.
    pub fn active_key(&self) -> (r: &str)
        ensures
            r@ == (match self.alpaca.mode {
                Mode::Paper => self.alpaca.paper.key@,
                Mode::Live => self.alpaca.live.key@,
            }),
    {
        match self.alpaca.mode {
            Mode::Paper => self.alpaca.paper.key.as_str(),
            Mode::Live => self.alpaca.live.key.as_str(),
        }
    }

    /// API secret of the account the mode selects.
    pub fn active_secret(&self) -> (r: &str)
        ensures
            r@ == (match self.alpaca.mode {
                Mode::Paper => self.alpaca.paper.secret@,
                Mode::Live => self.alpaca.live.secret@,
            }),
    {
        match self.alpaca.mode {
            Mode::Paper => self.alpaca.paper.secret.as_str(),
            Mode::Live => self.alpaca.live.secret.as_str(),
        }
    }
}

} // verus!
