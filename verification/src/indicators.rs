//! Regime classification and regime-specific confluence scoring on
//! indicator readings.
//!
//! Readings are fixed-point (see [`crate::fixed`]); `None` stands for an
//! undefined (NaN) reading, and every comparison involving one is false.

use vstd::prelude::*;
use crate::fixed::{le, lt, reading_ok, spec_le, spec_lt};

verus! {

// ── Regime ────────────────────────────────────────────────────────────────────

#[derive(Debug, Clone, Copy, PartialEq, Eq, Structural)]
pub enum Regime {
    TrendingUp,
    TrendingDown,
    RangeBound,
    Choppy,
}

impl Regime {
    /// The label stored with scan results, e.g. `trending_up`.
    pub fn label(&self) -> (r: &'static str)
        ensures
            r@ == (match *self {
                Regime::TrendingUp => "trending_up"@,
                Regime::TrendingDown => "trending_down"@,
                Regime::RangeBound => "range_bound"@,
                Regime::Choppy => "choppy"@,
            }),
    {
        match self {
            Regime::TrendingUp => "trending_up",
            Regime::TrendingDown => "trending_down",
            Regime::RangeBound => "range_bound",
            Regime::Choppy => "choppy",
        }
    }
}

#[derive(Debug, Clone, Copy, PartialEq, Eq, Structural)]
pub enum TradeDirection {
    Call,
    Put,
}

// ── Indicator results ─────────────────────────────────────────────────────────

#[derive(Debug, Clone, Copy)]
pub struct MacdResult {
    pub macd: Option<i64>,
    pub signal: Option<i64>,
    pub histogram: Option<i64>,
}

#[derive(Debug, Clone, Copy)]
pub struct AdxResult {
    pub adx: Option<i64>,
    pub plus_di: Option<i64>,
    pub minus_di: Option<i64>,
}

#[derive(Debug, Clone, Copy)]
pub struct BBands {
    pub upper: Option<i64>,
    pub middle: Option<i64>,
    pub lower: Option<i64>,
    /// (upper - lower) / middle, as a fraction.
    pub width: Option<i64>,
}

/// Bar-level data for regime-specific scoring.
#[derive(Debug, Clone, Copy)]
pub struct BarContext {
    /// Today's high.
    pub high: Option<i64>,
    /// Today's low.
    pub low: Option<i64>,
    /// Today's open.
    pub open: Option<i64>,
    /// Low of the bar five bars before today.
    pub low_5b_ago: Option<i64>,
    /// High of the bar five bars before today.
    pub high_5b_ago: Option<i64>,
    /// Highest high of the twenty bars before today.
    pub high_20d: Option<i64>,
    /// Lowest low of the twenty bars before today.
    pub low_20d: Option<i64>,
    /// MACD histogram of the previous bar.
    pub macd_hist_prev: Option<i64>,
}

impl BarContext {
    pub open spec fn well_formed(&self) -> bool {
        &&& reading_ok(self.high)
        &&& reading_ok(self.low)
        &&& reading_ok(self.open)
        &&& reading_ok(self.low_5b_ago)
        &&& reading_ok(self.high_5b_ago)
        &&& reading_ok(self.high_20d)
        &&& reading_ok(self.low_20d)
        &&& reading_ok(self.macd_hist_prev)
    }
}

#[derive(Debug, Clone, Copy)]
pub struct IndicatorSnapshot {
    pub close: Option<i64>,
    pub ema9: Option<i64>,
    pub ema20: Option<i64>,
    pub ema50: Option<i64>,
    /// EMA20 some bars ago; compared to `ema20` for the slope.
    pub ema20_prev: Option<i64>,
    pub rsi: Option<i64>,
    pub macd: MacdResult,
    pub adx: AdxResult,
    pub bbands: BBands,
    pub atr: Option<i64>,
    pub vol_ratio: Option<i64>,
    pub hv20: Option<i64>,
    pub regime: Regime,
}

impl IndicatorSnapshot {
    pub open spec fn well_formed(&self) -> bool {
        &&& reading_ok(self.close)
        &&& reading_ok(self.ema9)
        &&& reading_ok(self.ema20)
        &&& reading_ok(self.ema50)
        &&& reading_ok(self.rsi)
        &&& reading_ok(self.macd.histogram)
        &&& reading_ok(self.adx.adx)
        &&& reading_ok(self.bbands.upper)
        &&& reading_ok(self.bbands.lower)
        &&& reading_ok(self.atr)
        &&& reading_ok(self.vol_ratio)
    }
}

// ── Regime classification ─────────────────────────────────────────────────────

/// `|close - mean| / mean < 0.05` on exact values, with float semantics for
/// a zero mean (never true) and a negative mean (always true).
pub open spec fn spec_near_mean(close: Option<i64>, mean: Option<i64>) -> bool {
    match (close, mean) {
        (Some(c), Some(e)) => {
            let d = if c >= e { c - e } else { e - c };
            (e > 0 && 20 * d < e) || e < 0
        },
        _ => false,
    }
}

pub open spec fn spec_trend_up(
    close: Option<i64>,
    ema20: Option<i64>,
    ema50: Option<i64>,
    adx: Option<i64>,
    plus_di: Option<i64>,
    minus_di: Option<i64>,
    adx_trend: Option<i64>,
    ema20_slope: Option<i64>,
) -> bool {
    &&& spec_lt(ema20, close)
    &&& spec_lt(ema50, ema20)
    &&& spec_le(adx_trend, adx)
    &&& spec_lt(minus_di, plus_di)
    &&& spec_lt(Some(0), ema20_slope)
}

pub open spec fn spec_trend_down(
    close: Option<i64>,
    ema20: Option<i64>,
    ema50: Option<i64>,
    adx: Option<i64>,
    plus_di: Option<i64>,
    minus_di: Option<i64>,
    adx_trend: Option<i64>,
    ema20_slope: Option<i64>,
) -> bool {
    &&& spec_lt(close, ema20)
    &&& spec_lt(ema20, ema50)
    &&& spec_le(adx_trend, adx)
    &&& spec_lt(plus_di, minus_di)
    &&& spec_lt(ema20_slope, Some(0))
}

pub open spec fn spec_range(
    close: Option<i64>,
    ema50: Option<i64>,
    adx: Option<i64>,
    adx_no_trend: Option<i64>,
    bb_width_pct: Option<i64>,
    bb_width_min_pct: Option<i64>,
) -> bool {
    &&& spec_lt(adx, adx_no_trend)
    &&& spec_le(bb_width_min_pct, bb_width_pct)
    &&& spec_near_mean(close, ema50)
}

/// Trend when price, EMA stack, ADX strength, DI direction and EMA20 slope
/// all agree; range when ADX is weak, the bands are wide enough and price
/// is within 5% of EMA50; choppy otherwise. Trend-up is tried first.
pub open spec fn spec_detect_regime(
    close: Option<i64>,
    ema20: Option<i64>,
    ema50: Option<i64>,
    adx: Option<i64>,
    plus_di: Option<i64>,
    minus_di: Option<i64>,
    adx_trend: Option<i64>,
    adx_no_trend: Option<i64>,
    ema20_slope: Option<i64>,
    bb_width_pct: Option<i64>,
    bb_width_min_pct: Option<i64>,
) -> Regime {
    if spec_trend_up(close, ema20, ema50, adx, plus_di, minus_di, adx_trend, ema20_slope) {
        Regime::TrendingUp
    } else if spec_trend_down(close, ema20, ema50, adx, plus_di, minus_di, adx_trend, ema20_slope) {
        Regime::TrendingDown
    } else if spec_range(close, ema50, adx, adx_no_trend, bb_width_pct, bb_width_min_pct) {
        Regime::RangeBound
    } else {
        Regime::Choppy
    }
}

fn near_mean(close: Option<i64>, mean: Option<i64>) -> (r: bool)
    requires
        reading_ok(close),
        reading_ok(mean),
    ensures
        r == spec_near_mean(close, mean),
{
    match (close, mean) {
        (Some(c), Some(e)) => {
            let d = if c >= e { c - e } else { e - c };
            (e > 0 && 20 * d < e) || e < 0
        },
        _ => false,
    }
}

/// Classifies the market regime of a symbol.
pub fn detect_regime(
    close: Option<i64>,
    ema20: Option<i64>,
    ema50: Option<i64>,
    adx: Option<i64>,
    plus_di: Option<i64>,
    minus_di: Option<i64>,
    adx_trend: Option<i64>,
    adx_no_trend: Option<i64>,
    ema20_slope: Option<i64>,
    bb_width_pct: Option<i64>,
    bb_width_min_pct: Option<i64>,
) -> (r: Regime)
    requires
        reading_ok(close),
        reading_ok(ema50),
    ensures
        r == spec_detect_regime(
            close,
            ema20,
            ema50,
            adx,
            plus_di,
            minus_di,
            adx_trend,
            adx_no_trend,
            ema20_slope,
            bb_width_pct,
            bb_width_min_pct,
        ),
{
    let is_trend_up = lt(ema20, close) && lt(ema50, ema20) && le(adx_trend, adx) && lt(
        minus_di,
        plus_di,
    ) && lt(Some(0), ema20_slope);
    let is_trend_down = lt(close, ema20) && lt(ema20, ema50) && le(adx_trend, adx) && lt(
        plus_di,
        minus_di,
    ) && lt(ema20_slope, Some(0));
    let is_range = lt(adx, adx_no_trend) && le(bb_width_min_pct, bb_width_pct) && near_mean(
        close,
        ema50,
    );
    if is_trend_up {
        Regime::TrendingUp
    } else if is_trend_down {
        Regime::TrendingDown
    } else if is_range {
        Regime::RangeBound
    } else {
        Regime::Choppy
    }
}

/// A regime cannot be both trending up and trending down.
pub proof fn trend_directions_exclusive(
    close: Option<i64>,
    ema20: Option<i64>,
    ema50: Option<i64>,
    adx: Option<i64>,
    plus_di: Option<i64>,
    minus_di: Option<i64>,
    adx_trend: Option<i64>,
    ema20_slope: Option<i64>,
)
    ensures
        !(spec_trend_up(close, ema20, ema50, adx, plus_di, minus_di, adx_trend, ema20_slope)
            && spec_trend_down(close, ema20, ema50, adx, plus_di, minus_di, adx_trend, ema20_slope)),
{
}

/// Each regime holds only on its own evidence, in the order trend up,
/// trend down, range, choppy, with every reading involved defined:
/// - trending up: close above EMA20 above EMA50, ADX at least the trend
///   level, +DI above −DI and EMA20 rising;
/// - trending down: close below EMA20 below EMA50, ADX at least the trend
///   level, −DI above +DI and EMA20 falling;
/// - range-bound: ADX under the no-trend level, the band width at least
///   its minimum, and close within 5% of EMA50 (|close − EMA50| / EMA50 <
///   0.05, always so for a negative EMA50, never for a zero one);
/// - choppy: none of these.
pub proof fn regime_follows_its_evidence(
    close: Option<i64>,
    ema20: Option<i64>,
    ema50: Option<i64>,
    adx: Option<i64>,
    plus_di: Option<i64>,
    minus_di: Option<i64>,
    adx_trend: Option<i64>,
    adx_no_trend: Option<i64>,
    ema20_slope: Option<i64>,
    bb_width_pct: Option<i64>,
    bb_width_min_pct: Option<i64>,
)
    ensures
        ({
            let r = spec_detect_regime(
                close,
                ema20,
                ema50,
                adx,
                plus_di,
                minus_di,
                adx_trend,
                adx_no_trend,
                ema20_slope,
                bb_width_pct,
                bb_width_min_pct,
            );
            let up = close matches Some(c) && ema20 matches Some(e20) && ema50 matches Some(e50)
                && adx matches Some(a) && adx_trend matches Some(at) && plus_di matches Some(p)
                && minus_di matches Some(m) && ema20_slope matches Some(sl) && e20 < c && e50 < e20 && at
                <= a && m < p && 0 < sl;
            let down = close matches Some(c) && ema20 matches Some(e20) && ema50 matches Some(e50)
                && adx matches Some(a) && adx_trend matches Some(at) && plus_di matches Some(p)
                && minus_di matches Some(m) && ema20_slope matches Some(sl) && c < e20 && e20 < e50 && at
                <= a && p < m && sl < 0;
            let range = adx matches Some(a) && adx_no_trend matches Some(nt) && bb_width_pct matches Some(
                w,
            ) && bb_width_min_pct matches Some(wm) && close matches Some(c) && ema50 matches Some(e50)
                && a < nt && wm <= w && ((e50 > 0 && 20 * (if c >= e50 { c - e50 } else { e50 - c })
                < e50) || e50 < 0);
            &&& (r == Regime::TrendingUp <==> up)
            &&& (r == Regime::TrendingDown <==> !up && down)
            &&& (r == Regime::RangeBound <==> !up && !down && range)
            &&& (r == Regime::Choppy <==> !up && !down && !range)
        }),
{
}

// ── Confluence scoring ────────────────────────────────────────────────────────

/// 22.0: the ADX level that earns the trend-strength point.
pub const ADX_STRONG: i64 = 220_000;
/// 0.9: volume ratio below which a pullback counts as clean.
pub const VOL_CONTRACTION: i64 = 9_000;
/// 1.2: volume ratio above which volume counts as a spike.
pub const VOL_SPIKE: i64 = 12_000;
/// 40–55: RSI buy zone for calls in a trend.
pub const RSI_CALL_LO: i64 = 400_000;
pub const RSI_CALL_HI: i64 = 550_000;
/// 45–60: RSI sell zone for puts in a trend.
pub const RSI_PUT_LO: i64 = 450_000;
pub const RSI_PUT_HI: i64 = 600_000;
/// 30: oversold RSI for range calls.
pub const RSI_OVERSOLD: i64 = 300_000;
/// 70: overbought RSI for range puts.
pub const RSI_OVERBOUGHT: i64 = 700_000;

pub open spec fn pts(cond: bool, p: int) -> int {
    if cond { p } else { 0 }
}

/// `lo <= x <= hi` with the three readings defined.
pub open spec fn spec_between(lo: Option<i64>, x: Option<i64>, hi: Option<i64>) -> bool {
    spec_le(lo, x) && spec_le(x, hi)
}

/// `c_lo <= x <= c_hi` for a defined reading and constants.
pub open spec fn spec_in_band(x: Option<i64>, c_lo: i64, c_hi: i64) -> bool {
    spec_le(Some(c_lo), x) && spec_le(x, Some(c_hi))
}

/// Points for a trend setup (at most 11 of a possible 12):
/// EMA9 pullback 3, else EMA20 pullback 2; RSI in the zone (40–55 for
/// calls, 45–60 for puts) 2; MACD histogram turning 2; higher low (calls)
/// or lower high (puts) 2; volume ratio below 0.9 1; ADX at least 22 1.
pub open spec fn spec_score_trend(snap: IndicatorSnapshot, ctx: BarContext, dir: TradeDirection) -> int {
    match dir {
        TradeDirection::Call => {
            (if spec_between(ctx.low, snap.ema9, ctx.high) {
                3
            } else {
                pts(spec_between(ctx.low, snap.ema20, ctx.high), 2)
            }) + pts(spec_in_band(snap.rsi, RSI_CALL_LO, RSI_CALL_HI), 2) + pts(
                spec_lt(ctx.macd_hist_prev, snap.macd.histogram),
                2,
            ) + pts(spec_lt(ctx.low_5b_ago, ctx.low), 2) + pts(
                spec_lt(snap.vol_ratio, Some(VOL_CONTRACTION)),
                1,
            ) + pts(spec_le(Some(ADX_STRONG), snap.adx.adx), 1)
        },
        TradeDirection::Put => {
            (if spec_between(ctx.low, snap.ema9, ctx.high) {
                3
            } else {
                pts(spec_between(ctx.low, snap.ema20, ctx.high), 2)
            }) + pts(spec_in_band(snap.rsi, RSI_PUT_LO, RSI_PUT_HI), 2) + pts(
                spec_lt(snap.macd.histogram, ctx.macd_hist_prev),
                2,
            ) + pts(spec_lt(ctx.high, ctx.high_5b_ago), 2) + pts(
                spec_lt(snap.vol_ratio, Some(VOL_CONTRACTION)),
                1,
            ) + pts(spec_le(Some(ADX_STRONG), snap.adx.adx), 1)
        },
    }
}

/// Difference of two readings, undefined when either is.
pub open spec fn spec_diff(a: Option<i64>, b: Option<i64>) -> Option<int> {
    match (a, b) {
        (Some(x), Some(y)) => Some(x - y),
        _ => None,
    }
}

/// The range direction: a call when price sits closer to the lower band
/// than to the upper band, a put otherwise (also when a band is undefined).
pub open spec fn spec_range_direction(snap: IndicatorSnapshot) -> TradeDirection {
    match (spec_diff(snap.close, snap.bbands.lower), spec_diff(snap.bbands.upper, snap.close)) {
        (Some(dl), Some(du)) => if dl < du { TradeDirection::Call } else { TradeDirection::Put },
        _ => TradeDirection::Put,
    }
}

/// Bullish reversal candle: close above open with a lower wick longer than
/// half the body.
pub open spec fn spec_bullish_reversal(snap: IndicatorSnapshot, ctx: BarContext) -> bool {
    match (snap.close, ctx.open, ctx.low) {
        (Some(c), Some(o), Some(l)) => c > o && 2 * (o - l) > c - o,
        _ => false,
    }
}

/// Bearish reversal candle: close below open with an upper wick longer than
/// half the body.
pub open spec fn spec_bearish_reversal(snap: IndicatorSnapshot, ctx: BarContext) -> bool {
    match (snap.close, ctx.open, ctx.high) {
        (Some(c), Some(o), Some(h)) => c < o && 2 * (h - o) > o - c,
        _ => false,
    }
}

/// `a - b >= 1.5 * atr` with a positive ATR.
pub open spec fn spec_stretched(a: Option<i64>, b: Option<i64>, atr: Option<i64>) -> bool {
    match (a, b, atr) {
        (Some(x), Some(y), Some(t)) => t > 0 && 2 * (x - y) >= 3 * t,
        _ => false,
    }
}

/// Points for a range setup (at most 10): band touch 3; RSI extreme (≤ 30
/// for calls, ≥ 70 for puts) 3; reversal candle 2; at least 1.5 ATR from
/// EMA20 1; volume ratio above 1.2 1.
pub open spec fn spec_score_range(snap: IndicatorSnapshot, ctx: BarContext) -> int {
    match spec_range_direction(snap) {
        TradeDirection::Call => pts(spec_le(ctx.low, snap.bbands.lower), 3) + pts(
            spec_le(snap.rsi, Some(RSI_OVERSOLD)),
            3,
        ) + pts(spec_bullish_reversal(snap, ctx), 2) + pts(
            spec_stretched(snap.ema20, snap.close, snap.atr),
            1,
        ) + pts(spec_lt(Some(VOL_SPIKE), snap.vol_ratio), 1),
        TradeDirection::Put => pts(spec_le(snap.bbands.upper, ctx.high), 3) + pts(
            spec_le(Some(RSI_OVERBOUGHT), snap.rsi),
            3,
        ) + pts(spec_bearish_reversal(snap, ctx), 2) + pts(
            spec_stretched(snap.close, snap.ema20, snap.atr),
            1,
        ) + pts(spec_lt(Some(VOL_SPIKE), snap.vol_ratio), 1),
    }
}

/// `(score, max_score, direction)` for the snapshot's regime; `None` for a
/// choppy regime unless choppy setups are allowed, in which case they are
/// scored like a range.
pub open spec fn spec_confluence(
    snap: IndicatorSnapshot,
    ctx: BarContext,
    allow_choppy: bool,
) -> Option<(u32, u32, TradeDirection)> {
    match snap.regime {
        Regime::TrendingUp => Some(
            (spec_score_trend(snap, ctx, TradeDirection::Call) as u32, 12, TradeDirection::Call),
        ),
        Regime::TrendingDown => Some(
            (spec_score_trend(snap, ctx, TradeDirection::Put) as u32, 12, TradeDirection::Put),
        ),
        Regime::RangeBound => Some((spec_score_range(snap, ctx) as u32, 10, spec_range_direction(snap))),
        Regime::Choppy => if allow_choppy {
            Some((spec_score_range(snap, ctx) as u32, 10, spec_range_direction(snap)))
        } else {
            None
        },
    }
}

fn between(lo: Option<i64>, x: Option<i64>, hi: Option<i64>) -> (r: bool)
    ensures
        r == spec_between(lo, x, hi),
{
    le(lo, x) && le(x, hi)
}

fn score_trend(snap: &IndicatorSnapshot, ctx: &BarContext, dir: TradeDirection) -> (r: (
    u32,
    u32,
    TradeDirection,
))
    ensures
        r == (spec_score_trend(*snap, *ctx, dir) as u32, 12u32, dir),
{
    let mut score: u32 = 0;
    let max: u32 = 12;
    let pullback: u32 = if between(ctx.low, snap.ema9, ctx.high) {
        3
    } else if between(ctx.low, snap.ema20, ctx.high) {
        2
    } else {
        0
    };
    score = score + pullback;
    match dir {
        TradeDirection::Call => {
            if le(Some(RSI_CALL_LO), snap.rsi) && le(snap.rsi, Some(RSI_CALL_HI)) {
                score = score + 2;
            }
            if lt(ctx.macd_hist_prev, snap.macd.histogram) {
                score = score + 2;
            }
            if lt(ctx.low_5b_ago, ctx.low) {
                score = score + 2;
            }
        },
        TradeDirection::Put => {
            if le(Some(RSI_PUT_LO), snap.rsi) && le(snap.rsi, Some(RSI_PUT_HI)) {
                score = score + 2;
            }
            if lt(snap.macd.histogram, ctx.macd_hist_prev) {
                score = score + 2;
            }
            if lt(ctx.high, ctx.high_5b_ago) {
                score = score + 2;
            }
        },
    }
    if lt(snap.vol_ratio, Some(VOL_CONTRACTION)) {
        score = score + 1;
    }
    if le(Some(ADX_STRONG), snap.adx.adx) {
        score = score + 1;
    }
    (score, max, dir)
}

fn score_range(snap: &IndicatorSnapshot, ctx: &BarContext) -> (r: (u32, u32, TradeDirection))
    requires
        snap.well_formed(),
        ctx.well_formed(),
    ensures
        r == (spec_score_range(*snap, *ctx) as u32, 10u32, spec_range_direction(*snap)),
{
    let dir = match (snap.close, snap.bbands.lower, snap.bbands.upper) {
        (Some(c), Some(lo), Some(up)) => if c - lo < up - c {
            TradeDirection::Call
        } else {
            TradeDirection::Put
        },
        _ => TradeDirection::Put,
    };
    let mut score: u32 = 0;
    match dir {
        TradeDirection::Call => {
            if le(ctx.low, snap.bbands.lower) {
                score = score + 3;
            }
            if le(snap.rsi, Some(RSI_OVERSOLD)) {
                score = score + 3;
            }
            let reversal = match (snap.close, ctx.open, ctx.low) {
                (Some(c), Some(o), Some(l)) => c > o && 2 * (o - l) > c - o,
                _ => false,
            };
            if reversal {
                score = score + 2;
            }
            let stretched = match (snap.ema20, snap.close, snap.atr) {
                (Some(e), Some(c), Some(t)) => t > 0 && 2 * (e - c) >= 3 * t,
                _ => false,
            };
            if stretched {
                score = score + 1;
            }
        },
        TradeDirection::Put => {
            if le(snap.bbands.upper, ctx.high) {
                score = score + 3;
            }
            if le(Some(RSI_OVERBOUGHT), snap.rsi) {
                score = score + 3;
            }
            let reversal = match (snap.close, ctx.open, ctx.high) {
                (Some(c), Some(o), Some(h)) => c < o && 2 * (h - o) > o - c,
                _ => false,
            };
            if reversal {
                score = score + 2;
            }
            let stretched = match (snap.close, snap.ema20, snap.atr) {
                (Some(c), Some(e), Some(t)) => t > 0 && 2 * (c - e) >= 3 * t,
                _ => false,
            };
            if stretched {
                score = score + 1;
            }
        },
    }
    if lt(Some(VOL_SPIKE), snap.vol_ratio) {
        score = score + 1;
    }
    (score, 10, dir)
}

/// Scores a setup in the snapshot's regime.
pub fn confluence_score(snap: &IndicatorSnapshot, ctx: &BarContext, allow_choppy: bool) -> (r:
    Option<(u32, u32, TradeDirection)>)
    requires
        snap.well_formed(),
        ctx.well_formed(),
    ensures
        r == spec_confluence(*snap, *ctx, allow_choppy),
{
    match snap.regime {
        Regime::TrendingUp => Some(score_trend(snap, ctx, TradeDirection::Call)),
        Regime::TrendingDown => Some(score_trend(snap, ctx, TradeDirection::Put)),
        Regime::RangeBound => Some(score_range(snap, ctx)),
        Regime::Choppy => {
            if allow_choppy {
                Some(score_range(snap, ctx))
            } else {
                None
            }
        },
    }
}

/// A range setup (a range-bound regime, or a choppy one when allowed) is
/// scored out of 10 in the direction of the nearer band: a call when
/// close − lower band < upper band − close, a put otherwise. A call earns
/// 3 when the low touched the lower band, 3 for RSI at most 30, 2 for a
/// bullish reversal candle (close above open, lower wick over half the
/// body), 1 when close is at least 1.5 ATR under EMA20 and 1 for volume
/// above 1.2× average; a put earns 3 when the high touched the upper band,
/// 3 for RSI at least 70, 2 for a bearish reversal candle (close under
/// open, upper wick over half the body), 1 when close is at least 1.5 ATR
/// over EMA20 and 1 for the volume spike.
pub proof fn range_setup_points(snap: IndicatorSnapshot, ctx: BarContext, allow_choppy: bool)
    requires
        snap.regime == Regime::RangeBound || (snap.regime == Regime::Choppy && allow_choppy),
    ensures
        ({
            let call = snap.close matches Some(c) && snap.bbands.lower matches Some(lo)
                && snap.bbands.upper matches Some(up) && c - lo < up - c;
            let vol_spike: int = if spec_lt(Some(12_000), snap.vol_ratio) { 1 } else { 0 };
            let call_score: int = (if spec_le(ctx.low, snap.bbands.lower) { 3int } else { 0 })
                + (if spec_le(snap.rsi, Some(300_000)) { 3int } else { 0 })
                + (if snap.close matches Some(c) && ctx.open matches Some(o) && ctx.low matches Some(l)
                && c > o && 2 * (o - l) > c - o { 2int } else { 0 })
                + (if snap.ema20 matches Some(e) && snap.close matches Some(c) && snap.atr matches Some(t)
                && t > 0 && 2 * (e - c) >= 3 * t { 1int } else { 0 }) + vol_spike;
            let put_score: int = (if spec_le(snap.bbands.upper, ctx.high) { 3int } else { 0 })
                + (if spec_le(Some(700_000), snap.rsi) { 3int } else { 0 })
                + (if snap.close matches Some(c) && ctx.open matches Some(o) && ctx.high matches Some(h)
                && c < o && 2 * (h - o) > o - c { 2int } else { 0 })
                + (if snap.ema20 matches Some(e) && snap.close matches Some(c) && snap.atr matches Some(t)
                && t > 0 && 2 * (c - e) >= 3 * t { 1int } else { 0 }) + vol_spike;
            spec_confluence(snap, ctx, allow_choppy) == Some(
                if call {
                    (call_score as u32, 10u32, TradeDirection::Call)
                } else {
                    (put_score as u32, 10u32, TradeDirection::Put)
                },
            )
        }),
{
}

/// A trend setup is scored out of 12 in the trend's direction (calls in an
/// uptrend, puts in a downtrend): 3 when the day's bar touched EMA9, else
/// 2 when it touched EMA20; 2 for RSI in the zone (40–55 for calls, 45–60
/// for puts); 2 when the MACD histogram turned the trend's way since the
/// previous bar; 2 for a higher low (calls) or lower high (puts) than five
/// bars before; 1 for volume under 0.9× average and 1 for ADX at least 22.
pub proof fn trend_setup_points(snap: IndicatorSnapshot, ctx: BarContext, allow_choppy: bool)
    requires
        snap.regime == Regime::TrendingUp || snap.regime == Regime::TrendingDown,
    ensures
        ({
            let pullback: int = if spec_le(ctx.low, snap.ema9) && spec_le(snap.ema9, ctx.high) {
                3
            } else if spec_le(ctx.low, snap.ema20) && spec_le(snap.ema20, ctx.high) {
                2
            } else {
                0
            };
            let quiet: int = (if spec_lt(snap.vol_ratio, Some(9_000)) { 1int } else { 0 }) + (if spec_le(
                Some(220_000),
                snap.adx.adx,
            ) { 1int } else { 0 });
            let call_score: int = pullback + (if spec_le(Some(400_000), snap.rsi) && spec_le(
                snap.rsi,
                Some(550_000),
            ) { 2int } else { 0 }) + (if spec_lt(ctx.macd_hist_prev, snap.macd.histogram) {
                2int
            } else {
                0
            }) + (if spec_lt(ctx.low_5b_ago, ctx.low) { 2int } else { 0 }) + quiet;
            let put_score: int = pullback + (if spec_le(Some(450_000), snap.rsi) && spec_le(
                snap.rsi,
                Some(600_000),
            ) { 2int } else { 0 }) + (if spec_lt(snap.macd.histogram, ctx.macd_hist_prev) {
                2int
            } else {
                0
            }) + (if spec_lt(ctx.high, ctx.high_5b_ago) { 2int } else { 0 }) + quiet;
            &&& snap.regime == Regime::TrendingUp ==> spec_confluence(snap, ctx, allow_choppy) == Some(
                (call_score as u32, 12u32, TradeDirection::Call),
            )
            &&& snap.regime == Regime::TrendingDown ==> spec_confluence(snap, ctx, allow_choppy) == Some(
                (put_score as u32, 12u32, TradeDirection::Put),
            )
        }),
{
}

/// A score never exceeds the regime's maximum, and choppy regimes are not
/// traded unless allowed.
pub proof fn confluence_within_max(snap: IndicatorSnapshot, ctx: BarContext, allow_choppy: bool)
    ensures
        spec_confluence(snap, ctx, allow_choppy) matches Some((score, max, _)) ==> score <= max,
        (snap.regime == Regime::Choppy && !allow_choppy) ==> spec_confluence(
            snap,
            ctx,
            allow_choppy,
        ) is None,
        snap.regime != Regime::Choppy ==> spec_confluence(snap, ctx, allow_choppy) is Some,
{
}

} // verus!
