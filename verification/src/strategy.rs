//! The Forge strategy's decisions: screening a symbol's setup, filtering
//! and ranking option contracts, sizing the order, and tracking the
//! position it opens.

use vstd::prelude::*;
use crate::config::{EntryConfig, LiquidityConfig};
use crate::clock::{parse_ymd_epoch_days, ymd_text_epoch_day};
use crate::fixed::{fx_ok, reading_ok, SCALE};
use crate::iv_rank::{spec_iv_size_factor, IvRankEngine};
use crate::indicators::{
    confluence_score, spec_confluence, BarContext, IndicatorSnapshot, Regime, TradeDirection,
};
use crate::types::{LegAction, OptionLeg, OrderType, Signal};

verus! {

/// Long single-leg calls and puts on confluence and regime.
#[derive(Debug, Clone, Copy)]
pub struct ForgeStrategy;

impl ForgeStrategy {
    pub fn new() -> (r: ForgeStrategy) {
        ForgeStrategy
    }

    /// The strategy's stable identifier.
    pub fn id(&self) -> (r: &'static str)
        ensures
            r@ == "forge"@,
    {
        "forge"
    }
}

/// Daily bars needed before a symbol is scored.
pub const MIN_BARS: usize = 60;

/// How a symbol's scan ended, as recorded with the scan result.
#[derive(Debug, Clone, Copy, PartialEq, Eq, Structural)]
pub enum ScanOutcome {
    Choppy,
    BelowThreshold,
    ExtremeProximity,
    NoContracts,
    Entered,
}

impl ScanOutcome {
    /// The label stored with scan results.
    pub fn label(&self) -> (r: &'static str)
        ensures
            r@ == (match *self {
                ScanOutcome::Choppy => "choppy"@,
                ScanOutcome::BelowThreshold => "below_threshold"@,
                ScanOutcome::ExtremeProximity => "extreme_proximity"@,
                ScanOutcome::NoContracts => "no_contracts"@,
                ScanOutcome::Entered => "entered"@,
            }),
    {
        match self {
            ScanOutcome::Choppy => "choppy",
            ScanOutcome::BelowThreshold => "below_threshold",
            ScanOutcome::ExtremeProximity => "extreme_proximity",
            ScanOutcome::NoContracts => "no_contracts",
            ScanOutcome::Entered => "entered",
        }
    }
}

impl EntryConfig {
    pub open spec fn well_formed(&self) -> bool {
        &&& fx_ok(self.preferred_delta)
        &&& fx_ok(self.delta_min)
        &&& fx_ok(self.delta_max)
        &&& fx_ok(self.extreme_proximity_atr)
        &&& fx_ok(self.bb_width_min_pct)
        &&& fx_ok(self.cooldown_after_close_hours)
    }
}

// ── Re-entry cooldown ─────────────────────────────────────────────────────────

/// Whether an underlying closed `minutes_since_close` whole minutes ago is
/// still cooling down: fewer hours have passed than the cooldown.
pub fn in_cooldown(minutes_since_close: i64, cooldown_hours: i64) -> (r: bool)
    requires
        fx_ok(cooldown_hours),
    ensures
        r == (minutes_since_close * SCALE < cooldown_hours * 60),
{
    (minutes_since_close as i128) * (SCALE as i128) < (cooldown_hours as i128) * 60
}

// ── Setup screening ───────────────────────────────────────────────────────────

/// The minimum confluence score for a regime.
pub open spec fn spec_min_score(regime: Regime, entry: EntryConfig) -> u32 {
    match regime {
        Regime::TrendingUp | Regime::TrendingDown => entry.trend_min_score,
        Regime::RangeBound => entry.range_min_score,
        Regime::Choppy => entry.choppy_min_score,
    }
}

/// The minimum confluence score for a regime.
pub fn min_score_for(regime: Regime, entry: &EntryConfig) -> (r: u32)
    ensures
        r == spec_min_score(regime, *entry),
{
    match regime {
        Regime::TrendingUp | Regime::TrendingDown => entry.trend_min_score,
        Regime::RangeBound => entry.range_min_score,
        Regime::Choppy => entry.choppy_min_score,
    }
}

/// Buying at a local extreme is vetoed: for a call, today's high within
/// `k` ATRs of the 20-day high; for a put, today's low within `k` ATRs of
/// the 20-day low. Only with a positive ATR.
pub open spec fn spec_proximity_veto(
    dir: TradeDirection,
    ctx: BarContext,
    atr: Option<i64>,
    k: i64,
) -> bool {
    match atr {
        Some(t) => t > 0 && match dir {
            TradeDirection::Call => match (ctx.high_20d, ctx.high) {
                (Some(h20), Some(h)) => (h20 - h) * SCALE < k * t,
                _ => false,
            },
            TradeDirection::Put => match (ctx.low, ctx.low_20d) {
                (Some(l), Some(l20)) => (l - l20) * SCALE < k * t,
                _ => false,
            },
        },
        None => false,
    }
}

/// Whether the extreme-proximity veto applies.
pub fn proximity_veto(dir: TradeDirection, ctx: &BarContext, atr: Option<i64>, k: i64) -> (r: bool)
    requires
        ctx.well_formed(),
        reading_ok(atr),
        fx_ok(k),
    ensures
        r == spec_proximity_veto(dir, *ctx, atr, k),
{
    match atr {
        Some(t) => {
            if t <= 0 {
                return false;
            }
            proof {
                assert(-1_000_000_000_000_000_000_000_000 <= (k as int) * (t as int)
                    <= 1_000_000_000_000_000_000_000_000) by (nonlinear_arith)
                    requires
                        -1_000_000_000_000 <= k <= 1_000_000_000_000,
                        0 < t <= 1_000_000_000_000,
                ;
            }
            match dir {
                TradeDirection::Call => match (ctx.high_20d, ctx.high) {
                    (Some(h20), Some(h)) => ((h20 as i128) - (h as i128)) * 10_000i128 < (k as i128)
                        * (t as i128),
                    _ => false,
                },
                TradeDirection::Put => match (ctx.low, ctx.low_20d) {
                    (Some(l), Some(l20)) => ((l as i128) - (l20 as i128)) * 10_000i128 < (k as i128)
                        * (t as i128),
                    _ => false,
                },
            }
        },
        None => false,
    }
}

/// Where screening a symbol's setup ends.
#[derive(Debug, Clone, Copy, PartialEq, Eq, Structural)]
pub enum Screen {
    /// Choppy regime and choppy setups are not allowed.
    Choppy,
    /// Scored below the regime's minimum.
    BelowThreshold { score: u32, max_score: u32, dir: TradeDirection },
    /// Too close to the 20-day extreme.
    ExtremeProximity { score: u32, max_score: u32, dir: TradeDirection },
    /// Passed: look for a contract.
    Proceed { score: u32, max_score: u32, dir: TradeDirection },
}

/// Screening: confluence gate, regime minimum score, extreme-proximity
/// veto, in that order.
pub open spec fn spec_screen(snap: IndicatorSnapshot, ctx: BarContext, entry: EntryConfig) -> Screen {
    match spec_confluence(snap, ctx, entry.allow_choppy) {
        None => Screen::Choppy,
        Some((score, max_score, dir)) => if score < spec_min_score(snap.regime, entry) {
            Screen::BelowThreshold { score, max_score, dir }
        } else if spec_proximity_veto(dir, ctx, snap.atr, entry.extreme_proximity_atr) {
            Screen::ExtremeProximity { score, max_score, dir }
        } else {
            Screen::Proceed { score, max_score, dir }
        },
    }
}

/// Screens a symbol's setup before contracts are looked up.
pub fn screen_setup(snap: &IndicatorSnapshot, ctx: &BarContext, entry: &EntryConfig) -> (r: Screen)
    requires
        snap.well_formed(),
        ctx.well_formed(),
        entry.well_formed(),
    ensures
        r == spec_screen(*snap, *ctx, *entry),
{
    match confluence_score(snap, ctx, entry.allow_choppy) {
        None => Screen::Choppy,
        Some((score, max_score, dir)) => {
            if score < min_score_for(snap.regime, entry) {
                Screen::BelowThreshold { score, max_score, dir }
            } else if proximity_veto(dir, ctx, snap.atr, entry.extreme_proximity_atr) {
                Screen::ExtremeProximity { score, max_score, dir }
            } else {
                Screen::Proceed { score, max_score, dir }
            }
        },
    }
}

/// No setup proceeds below its regime's minimum score.
pub proof fn proceed_meets_min_score(snap: IndicatorSnapshot, ctx: BarContext, entry: EntryConfig)
    ensures
        spec_screen(snap, ctx, entry) matches Screen::Proceed { score, .. } ==> score
            >= spec_min_score(snap.regime, entry),
        (snap.regime == Regime::Choppy && !entry.allow_choppy) ==> spec_screen(snap, ctx, entry)
            == Screen::Choppy,
{
}

// ── Bar context ───────────────────────────────────────────────────────────────

pub open spec fn seq_max_of(s: Seq<i64>) -> int
    decreases s.len(),
{
    if s.len() == 0 {
        i64::MIN as int
    } else {
        let m = seq_max_of(s.drop_last());
        if s.last() > m { s.last() as int } else { m }
    }
}

pub open spec fn seq_min_of(s: Seq<i64>) -> int
    decreases s.len(),
{
    if s.len() == 0 {
        i64::MAX as int
    } else {
        let m = seq_min_of(s.drop_last());
        if s.last() < m { s.last() as int } else { m }
    }
}

/// The bar context of the latest bar: its high, low and open, the high
/// and low five bars earlier (today's when there are fewer bars), and the
/// extremes of the twenty bars before today. `None` with fewer than 21
/// bars or no opens.
pub open spec fn spec_bar_context(
    n: int,
    highs: Seq<i64>,
    lows: Seq<i64>,
    opens: Seq<i64>,
    macd_hist_prev: Option<i64>,
) -> Option<BarContext> {
    if n < 21 || opens.len() == 0 {
        None
    } else {
        let high = highs.last();
        let low = lows.last();
        let start = n - 21;
        Some(
            BarContext {
                high: Some(high),
                low: Some(low),
                open: Some(opens.last()),
                low_5b_ago: Some(if n - 6 < lows.len() { lows[n - 6] } else { low }),
                high_5b_ago: Some(if n - 6 < highs.len() { highs[n - 6] } else { high }),
                high_20d: Some(seq_max_of(highs.subrange(start, n - 1)) as i64),
                low_20d: Some(seq_min_of(lows.subrange(start, n - 1)) as i64),
                macd_hist_prev,
            },
        )
    }
}

/// Builds the bar context for scoring from the bars' highs, lows and
/// opens (`n` bars of closes) and the previous bar's MACD histogram.
pub fn make_bar_context(
    n: usize,
    highs: &Vec<i64>,
    lows: &Vec<i64>,
    opens: &Vec<i64>,
    macd_hist_prev: Option<i64>,
) -> (r: Option<BarContext>)
    requires
        n >= 21 ==> highs.len() >= n - 1 && lows.len() >= n - 1 && highs.len() > 0 && lows.len() > 0,
    ensures
        r == spec_bar_context(n as int, highs@, lows@, opens@, macd_hist_prev),
{
    if n < 21 || opens.len() == 0 {
        return None;
    }
    let high = highs[highs.len() - 1];
    let low = lows[lows.len() - 1];
    let open = opens[opens.len() - 1];
    let low_5b_ago = if n - 6 < lows.len() { lows[n - 6] } else { low };
    let high_5b_ago = if n - 6 < highs.len() { highs[n - 6] } else { high };
    let start = n - 21;
    let mut h20: i64 = i64::MIN;
    let mut l20: i64 = i64::MAX;
    let mut i = start;
    proof {
        assert(highs@.subrange(start as int, start as int).len() == 0);
        assert(lows@.subrange(start as int, start as int).len() == 0);
    }
    while i < n - 1
        invariant
            start <= i <= n - 1,
            n - 1 <= highs.len(),
            n - 1 <= lows.len(),
            h20 == seq_max_of(highs@.subrange(start as int, i as int)),
            l20 == seq_min_of(lows@.subrange(start as int, i as int)),
        decreases n - 1 - i,
    {
        proof {
            let hs = highs@.subrange(start as int, i + 1);
            assert(hs.drop_last() =~= highs@.subrange(start as int, i as int));
            let ls = lows@.subrange(start as int, i + 1);
            assert(ls.drop_last() =~= lows@.subrange(start as int, i as int));
        }
        if highs[i] > h20 {
            h20 = highs[i];
        }
        if lows[i] < l20 {
            l20 = lows[i];
        }
        i = i + 1;
    }
    Some(
        BarContext {
            high: Some(high),
            low: Some(low),
            open: Some(open),
            low_5b_ago: Some(low_5b_ago),
            high_5b_ago: Some(high_5b_ago),
            high_20d: Some(h20),
            low_20d: Some(l20),
            macd_hist_prev,
        },
    )
}

// ── Contract filters ──────────────────────────────────────────────────────────

/// A listed contract passes the pre-filter when it is tradable, its open
/// interest (when reported) meets the minimum, and its days to expiry (when
/// its date parses) lie in the configured range.
pub open spec fn spec_contract_ok(
    tradable: bool,
    open_interest: Option<i64>,
    dte: Option<i64>,
    entry: EntryConfig,
    liq: LiquidityConfig,
) -> bool {
    &&& tradable
    &&& match open_interest {
        Some(oi) => oi >= liq.min_open_interest * SCALE,
        None => true,
    }
    &&& match dte {
        Some(d) => entry.dte_min <= d && d <= entry.dte_max,
        None => false,
    }
}

/// Days from the UTC day `today` to a contract's expiration date, written
/// `YYYY-MM-DD`; `None` when chrono does not read the date.
pub fn expiration_dte(date: &str, today: i64) -> (r: Option<i64>)
    requires
        i32::MIN <= today <= i32::MAX,
    ensures
        ymd_text_epoch_day(date@) is None ==> r is None,
        ymd_text_epoch_day(date@) matches Some(n) ==> r matches Some(d) && d == n - today,
{
    match parse_ymd_epoch_days(date) {
        Some(n) => Some(n - today),
        None => None,
    }
}

/// Pre-filters a listed contract (open interest fixed-point, days to
/// expiry `None` when the date does not parse).
pub fn contract_ok(
    tradable: bool,
    open_interest: Option<i64>,
    dte: Option<i64>,
    entry: &EntryConfig,
    liq: &LiquidityConfig,
) -> (r: bool)
    ensures
        r == spec_contract_ok(tradable, open_interest, dte, *entry, *liq),
{
    if !tradable {
        return false;
    }
    match open_interest {
        Some(oi) => {
            if (oi as i128) < (liq.min_open_interest as i128) * (SCALE as i128) {
                return false;
            }
        },
        None => {},
    }
    match dte {
        Some(d) => d >= entry.dte_min as i64 && d <= entry.dte_max as i64,
        None => false,
    }
}

pub open spec fn abs(x: int) -> int {
    if x < 0 { -x } else { x }
}

/// The quote filter of a contract: absolute delta (0 when the broker gives
/// none) inside the configured band, a daily volume of at least the
/// configured minimum, a two-sided quote with a spread no wider than
/// allowed and a positive ask, and one contract (the exact mid, (bid +
/// ask) ÷ 2, times 100) within the position budget. Gives the mid price,
/// rounded down to the fixed-point grid.
pub open spec fn spec_quote_mid(
    delta: Option<i64>,
    bid: Option<i64>,
    ask: Option<i64>,
    volume: u64,
    entry: EntryConfig,
    liq: LiquidityConfig,
    max_position_usd: i64,
) -> Option<i64> {
    let d = match delta {
        Some(x) => abs(x as int),
        None => 0,
    };
    if d < entry.delta_min || d > entry.delta_max {
        None
    } else if volume < liq.min_daily_volume {
        None
    } else {
        match (bid, ask) {
            (Some(b), Some(a)) => if a - b > liq.max_bid_ask_spread || a <= 0 {
                None
            } else {
                let mid = (b + a) / 2;
                if (b + a) * 50 > max_position_usd {
                    None
                } else {
                    Some(mid as i64)
                }
            },
            _ => None,
        }
    }
}

/// Applies the quote filter and gives the mid price of a passing contract.
pub fn quote_mid(
    delta: Option<i64>,
    bid: Option<i64>,
    ask: Option<i64>,
    volume: u64,
    entry: &EntryConfig,
    liq: &LiquidityConfig,
    max_position_usd: i64,
) -> (r: Option<i64>)
    requires
        reading_ok(delta),
        reading_ok(bid),
        reading_ok(ask),
        entry.well_formed(),
        fx_ok(liq.max_bid_ask_spread),
        fx_ok(max_position_usd),
    ensures
        r == spec_quote_mid(delta, bid, ask, volume, *entry, *liq, max_position_usd),
{
    let d: i64 = match delta {
        Some(x) => if x < 0 { -x } else { x },
        None => 0,
    };
    if d < entry.delta_min || d > entry.delta_max {
        return None;
    }
    if volume < liq.min_daily_volume as u64 {
        return None;
    }
    match (bid, ask) {
        (Some(b), Some(a)) => {
            if a - b > liq.max_bid_ask_spread || a <= 0 {
                return None;
            }
            let sum = b + a;
            let mid = if sum >= 0 { sum / 2 } else { -((-sum + 1) / 2) };
            proof {
                assert(mid == (b + a) / 2);
            }
            if (sum as i128) * 50 > max_position_usd as i128 {
                None
            } else {
                Some(mid)
            }
        },
        _ => None,
    }
}

/// Whether a contract's IV rank admits it: tier-3 symbols need the tier's
/// minimum rank, and every symbol needs a buyable rank.
pub fn iv_admits(tier: Option<u8>, iv_rank: i64, tier3_min: i64, buy_max: i64) -> (r: bool)
    ensures
        r == (!(tier == Some(3u8) && iv_rank < tier3_min) && iv_rank <= buy_max),
{
    if tier == Some(3u8) && iv_rank < tier3_min {
        return false;
    }
    iv_rank <= buy_max
}

/// A contract that passed every filter.
#[derive(Debug, Clone)]
pub struct Candidate {
    pub contract: String,
    /// Fixed-point mid price.
    pub mid: i64,
    /// Distance of |delta| from the preferred delta.
    pub delta_score: i64,
    /// Fixed-point bid/ask spread.
    pub spread: i64,
    /// Fixed-point open interest (0 when unknown).
    pub open_interest: i64,
    /// Fixed-point IV rank of the contract, 0 to 100.
    pub iv_rank: i64,
}

/// Distance of a contract's absolute delta from the preferred delta.
pub fn delta_distance(delta: Option<i64>, preferred: i64) -> (r: i64)
    requires
        reading_ok(delta),
        fx_ok(preferred),
    ensures
        r == abs(
            match delta {
                Some(x) => abs(x as int),
                None => 0,
            } - preferred,
        ),
{
    let d: i64 = match delta {
        Some(x) => if x < 0 { -x } else { x },
        None => 0,
    };
    let e = d - preferred;
    if e < 0 { -e } else { e }
}

/// `a` ranks strictly before `b`: closer delta, then tighter spread, then
/// higher open interest.
pub open spec fn ranks_before(a: Candidate, b: Candidate) -> bool {
    ||| a.delta_score < b.delta_score
    ||| a.delta_score == b.delta_score && a.spread < b.spread
    ||| a.delta_score == b.delta_score && a.spread == b.spread && a.open_interest > b.open_interest
}

/// A contract that passes the quote filter as a ranking candidate: its
/// mid price, delta distance, spread, open interest and IV rank; `None` when the
/// quote filter rejects it.
pub fn candidate_of(
    contract: String,
    delta: Option<i64>,
    bid: Option<i64>,
    ask: Option<i64>,
    volume: u64,
    open_interest: i64,
    iv_rank: i64,
    entry: &EntryConfig,
    liq: &LiquidityConfig,
    max_position_usd: i64,
) -> (r: Option<Candidate>)
    requires
        reading_ok(delta),
        reading_ok(bid),
        reading_ok(ask),
        entry.well_formed(),
        fx_ok(liq.max_bid_ask_spread),
        fx_ok(max_position_usd),
    ensures
        spec_quote_mid(delta, bid, ask, volume, *entry, *liq, max_position_usd) is None <==> r is None,
        r matches Some(c) ==> {
            &&& c.contract@ == contract@
            &&& Some(c.mid) == spec_quote_mid(delta, bid, ask, volume, *entry, *liq, max_position_usd)
            &&& c.delta_score == abs(
                match delta {
                    Some(x) => abs(x as int),
                    None => 0,
                } - entry.preferred_delta,
            )
            &&& c.spread == ask.unwrap() - bid.unwrap()
            &&& c.open_interest == open_interest
            &&& c.iv_rank == iv_rank
        },
{
    match quote_mid(delta, bid, ask, volume, entry, liq, max_position_usd) {
        Some(mid) => {
            let (b, a) = match (bid, ask) {
                (Some(b), Some(a)) => (b, a),
                _ => return None,
            };
            Some(Candidate {
                contract,
                mid,
                delta_score: delta_distance(delta, entry.preferred_delta),
                spread: a - b,
                open_interest,
                iv_rank,
            })
        },
        None => None,
    }
}

/// The best-ranked candidate (closest delta to the preferred one, then
/// tightest spread, then highest open interest; the earliest among equals),
/// as a stable sort followed by taking the first would pick.
pub fn best_candidate(cands: &Vec<Candidate>) -> (r: Option<usize>)
    ensures
        cands@.len() == 0 <==> r is None,
        r matches Some(i) ==> i < cands@.len() && (forall|j: int|
            0 <= j < cands@.len() ==> !ranks_before(#[trigger] cands@[j], cands@[i as int]))
            && (forall|j: int|
            0 <= j < i ==> ranks_before(cands@[i as int], #[trigger] cands@[j])),
{
    if cands.len() == 0 {
        return None;
    }
    let mut best: usize = 0;
    let mut j: usize = 1;
    while j < cands.len()
        invariant
            0 <= best < j <= cands.len(),
            forall|k: int| 0 <= k < j ==> !ranks_before(#[trigger] cands@[k], cands@[best as int]),
            forall|k: int| 0 <= k < best ==> ranks_before(cands@[best as int], #[trigger] cands@[k]),
        decreases cands.len() - j,
    {
        let c = &cands[j];
        let b = &cands[best];
        if c.delta_score < b.delta_score || (c.delta_score == b.delta_score && c.spread < b.spread)
            || (c.delta_score == b.delta_score && c.spread == b.spread && c.open_interest
            > b.open_interest) {
            best = j;
        }
        j = j + 1;
    }
    Some(best)
}

// ── What contract selection guarantees ────────────────────────────────────────

/// The pre-filter passes a contract exactly when it is tradable, its days
/// to expiry are known and lie between the configured minimum and maximum,
/// and its open interest, when reported, is at least the minimum.
pub proof fn prefilter_rule(
    tradable: bool,
    open_interest: Option<i64>,
    dte: Option<i64>,
    entry: EntryConfig,
    liq: LiquidityConfig,
)
    ensures
        spec_contract_ok(tradable, open_interest, dte, entry, liq) ==> tradable,
        spec_contract_ok(tradable, open_interest, dte, entry, liq) ==> (dte matches Some(d) && entry.dte_min
            <= d && d <= entry.dte_max),
        spec_contract_ok(tradable, open_interest, dte, entry, liq) ==> (open_interest matches Some(o)
            ==> o >= liq.min_open_interest * 10_000),
        (match dte {
            Some(d) => tradable && entry.dte_min <= d && d <= entry.dte_max && match open_interest {
                Some(o) => o >= liq.min_open_interest * 10_000,
                None => true,
            },
            None => false,
        }) ==> spec_contract_ok(
            tradable,
            open_interest,
            dte,
            entry,
            liq,
        ),
{
}

/// The quote filter gives a price exactly for a contract whose absolute
/// delta (0 when none is given) lies in the configured band, whose daily
/// volume reaches the minimum, with both bid and ask quoted, a spread no
/// wider than allowed, a positive ask and one contract ((bid + ask) ÷ 2 ×
/// 100) within the position budget; the price is the mid rounded down.
pub proof fn quote_filter_rule(
    delta: Option<i64>,
    bid: Option<i64>,
    ask: Option<i64>,
    volume: u64,
    entry: EntryConfig,
    liq: LiquidityConfig,
    max_position_usd: i64,
)
    ensures
        ({
            let d: int = match delta {
                Some(x) => if x < 0 { -x } else { x as int },
                None => 0,
            };
            let passes = entry.delta_min <= d && d <= entry.delta_max && volume >= liq.min_daily_volume
                && match (bid, ask) {
                (Some(b), Some(a)) => a - b <= liq.max_bid_ask_spread && a > 0 && (b + a) * 50
                    <= max_position_usd,
                _ => false,
            };
            &&& spec_quote_mid(delta, bid, ask, volume, entry, liq, max_position_usd) is Some <==> passes
            &&& spec_quote_mid(delta, bid, ask, volume, entry, liq, max_position_usd) matches Some(m) ==> (
            bid matches Some(b) && ask matches Some(a) && 2 * m <= b + a < 2 * m + 2)
        }),
{
}

/// The chosen candidate is the closest in delta to the preferred delta;
/// among those equally close, the one with the tightest spread; among
/// those, the one with the most open interest; and every candidate before
/// it in the list is strictly worse.
pub proof fn best_candidate_rule(cands: Seq<Candidate>, i: int)
    requires
        0 <= i < cands.len(),
        forall|j: int| 0 <= j < cands.len() ==> !ranks_before(#[trigger] cands[j], cands[i]),
        forall|j: int| 0 <= j < i ==> ranks_before(cands[i], #[trigger] cands[j]),
    ensures
        forall|j: int| 0 <= j < cands.len() ==> cands[i].delta_score <= #[trigger] cands[j].delta_score,
        forall|j: int|
            0 <= j < cands.len() && #[trigger] cands[j].delta_score == cands[i].delta_score
                ==> cands[i].spread <= cands[j].spread,
        forall|j: int|
            0 <= j < cands.len() && #[trigger] cands[j].delta_score == cands[i].delta_score
                && cands[j].spread == cands[i].spread ==> cands[i].open_interest
                >= cands[j].open_interest,
        forall|j: int|
            0 <= j < i ==> (cands[i].delta_score < #[trigger] cands[j].delta_score || (
            cands[i].delta_score == cands[j].delta_score && cands[i].spread < cands[j].spread) || (
            cands[i].delta_score == cands[j].delta_score && cands[i].spread == cands[j].spread
                && cands[i].open_interest > cands[j].open_interest)),
{
    assert forall|j: int| 0 <= j < cands.len() implies cands[i].delta_score <= #[trigger] cands[j].delta_score by {
        assert(!ranks_before(cands[j], cands[i]));
    }
    assert forall|j: int|
        0 <= j < cands.len() && #[trigger] cands[j].delta_score == cands[i].delta_score implies cands[i].spread
            <= cands[j].spread by {
        assert(!ranks_before(cands[j], cands[i]));
    }
    assert forall|j: int|
        0 <= j < cands.len() && #[trigger] cands[j].delta_score == cands[i].delta_score
            && cands[j].spread == cands[i].spread implies cands[i].open_interest >= cands[j].open_interest by {
        assert(!ranks_before(cands[j], cands[i]));
    }
    assert forall|j: int| 0 <= j < i implies (cands[i].delta_score < #[trigger] cands[j].delta_score || (
    cands[i].delta_score == cands[j].delta_score && cands[i].spread < cands[j].spread) || (
    cands[i].delta_score == cands[j].delta_score && cands[i].spread == cands[j].spread
        && cands[i].open_interest > cands[j].open_interest)) by {
        assert(ranks_before(cands[i], cands[j]));
    }
}

/// Screening stops at the first gate that fails: an unscored (choppy,
/// not allowed) setup; a score under the regime's minimum (the trend
/// minimum for either trend, the range minimum, or the choppy minimum); a
/// buy within `extreme_proximity_atr` ATRs of the 20-day extreme (today's
/// high under the 20-day high for calls, today's low over the 20-day low
/// for puts, with a positive ATR); otherwise it proceeds, carrying the
/// score, maximum and direction.
pub proof fn screening_gates(snap: IndicatorSnapshot, ctx: BarContext, entry: EntryConfig)
    ensures
        ({
            let r = spec_screen(snap, ctx, entry);
            let min: u32 = match snap.regime {
                Regime::TrendingUp | Regime::TrendingDown => entry.trend_min_score,
                Regime::RangeBound => entry.range_min_score,
                Regime::Choppy => entry.choppy_min_score,
            };
            let k = entry.extreme_proximity_atr;
            match spec_confluence(snap, ctx, entry.allow_choppy) {
                None => r == Screen::Choppy,
                Some((score, max_score, dir)) => {
                    let near_extreme = snap.atr matches Some(t) && t > 0 && match dir {
                        TradeDirection::Call => ctx.high_20d matches Some(h20) && ctx.high matches Some(h)
                            && (h20 - h) * 10_000 < k * t,
                        TradeDirection::Put => ctx.low matches Some(l) && ctx.low_20d matches Some(l20)
                            && (l - l20) * 10_000 < k * t,
                    };
                    &&& score < min ==> r == Screen::BelowThreshold { score, max_score, dir }
                    &&& score >= min && near_extreme ==> r == Screen::ExtremeProximity {
                        score,
                        max_score,
                        dir,
                    }
                    &&& score >= min && !near_extreme ==> r == Screen::Proceed { score, max_score, dir }
                },
            }
        }),
{
}

// ── Sizing ────────────────────────────────────────────────────────────────────

/// The size factor for a regime and score: half in choppy regimes; in a
/// range full from 9, three quarters from 7; in a trend full from 11,
/// three quarters from 9; half otherwise.
pub open spec fn spec_regime_size_factor(regime: Regime, score: u32) -> i64 {
    match regime {
        Regime::Choppy => 5_000,
        Regime::RangeBound => if score >= 9 {
            10_000
        } else if score >= 7 {
            7_500
        } else {
            5_000
        },
        Regime::TrendingUp | Regime::TrendingDown => if score >= 11 {
            10_000
        } else if score >= 9 {
            7_500
        } else {
            5_000
        },
    }
}

/// The fixed-point size factor for a regime and confluence score.
pub fn regime_size_factor(regime: Regime, score: u32) -> (r: i64)
    ensures
        r == spec_regime_size_factor(regime, score),
{
    match regime {
        Regime::Choppy => 5_000,
        Regime::RangeBound => if score >= 9 {
            10_000
        } else if score >= 7 {
            7_500
        } else {
            5_000
        },
        Regime::TrendingUp | Regime::TrendingDown => if score >= 11 {
            10_000
        } else if score >= 9 {
            7_500
        } else {
            5_000
        },
    }
}

/// Contracts to buy: budget × size factor × IV adjustment ÷ cost of one
/// contract (mid × 100), rounded down and saturated into `u32` as a float
/// cast does (negative or undefined quotients give 0), and at least 1.
pub open spec fn spec_order_qty(budget: int, factor: int, iv_adj: int, mid: int) -> u32 {
    let num = budget * factor * iv_adj;
    let den = SCALE * SCALE * mid * 100;
    let raw: int = if den == 0 {
        if num > 0 { u32::MAX as int } else { 0 }
    } else if (num > 0 && den > 0) || (num < 0 && den < 0) {
        let q = abs(num) / abs(den);
        if q > u32::MAX { u32::MAX as int } else { q }
    } else {
        0
    };
    if raw < 1 { 1 } else { raw as u32 }
}

/// The order quantity for a candidate.
pub fn order_qty(budget: i64, factor: i64, iv_adj: i64, mid: i64) -> (r: u32)
    requires
        fx_ok(budget),
        fx_ok(factor),
        fx_ok(iv_adj),
        fx_ok(mid),
    ensures
        r == spec_order_qty(budget as int, factor as int, iv_adj as int, mid as int),
        r >= 1,
{
    proof {
        assert(-1_000_000_000_000_000_000_000_000 <= (budget as int) * (factor as int)
            <= 1_000_000_000_000_000_000_000_000) by (nonlinear_arith)
            requires
                -1_000_000_000_000 <= budget <= 1_000_000_000_000,
                -1_000_000_000_000 <= factor <= 1_000_000_000_000,
        ;
        assert(-1_000_000_000_000_000_000_000_000_000_000_000_000 <= (budget as int) * (factor as int)
            * (iv_adj as int) <= 1_000_000_000_000_000_000_000_000_000_000_000_000) by (nonlinear_arith)
            requires
                -1_000_000_000_000_000_000_000_000 <= (budget as int) * (factor as int)
                    <= 1_000_000_000_000_000_000_000_000,
                -1_000_000_000_000 <= iv_adj <= 1_000_000_000_000,
        ;
    }
    let num: i128 = (budget as i128) * (factor as i128) * (iv_adj as i128);
    let den: i128 = (mid as i128) * 10_000_000_000i128;
    let raw: u128 = if den == 0 {
        if num > 0 { 0xFFFF_FFFF } else { 0 }
    } else if (num > 0 && den > 0) || (num < 0 && den < 0) {
        let an: u128 = if num < 0 { (-num) as u128 } else { num as u128 };
        let ad: u128 = if den < 0 { (-den) as u128 } else { den as u128 };
        let q = an / ad;
        if q > 0xFFFF_FFFF { 0xFFFF_FFFF } else { q }
    } else {
        0
    };
    if raw < 1 { 1 } else { raw as u32 }
}

/// `sig` is the entry for `symbol` on candidate `c`: a long entry with one
/// buy limit leg on the contract at its mid price, sized by the regime's
/// factor and the IV engine's adjustment for the contract's IV rank.
pub open spec fn is_entry_for(
    sig: Signal,
    symbol: Seq<char>,
    c: Candidate,
    regime: Regime,
    score: u32,
    max_position_usd: i64,
    iv_engine: IvRankEngine,
) -> bool {
    sig matches Signal::EnterLong { symbol: s, legs } && s@ == symbol && legs@.len() == 1
        && legs@[0].contract@ == c.contract@ && legs@[0].action == LegAction::Buy
        && legs@[0].order_type == OrderType::Limit && legs@[0].limit_price == Some(c.mid)
        && legs@[0].qty == spec_order_qty(
        max_position_usd as int,
        spec_regime_size_factor(regime, score) as int,
        spec_iv_size_factor(iv_engine, c.iv_rank as int),
        c.mid as int,
    )
}

/// The entry signal for the chosen contract: buy it long, one limit leg at
/// its mid price, sized by the regime's factor and the IV engine's size
/// adjustment for the contract's IV rank.
pub fn entry_signal(
    symbol: &str,
    c: &Candidate,
    regime: Regime,
    score: u32,
    max_position_usd: i64,
    iv_engine: &IvRankEngine,
) -> (r: Signal)
    requires
        fx_ok(max_position_usd),
        fx_ok(iv_engine.iv_rank_caution_factor),
        fx_ok(c.mid),
    ensures
        is_entry_for(r, symbol@, *c, regime, score, max_position_usd, *iv_engine),
{
    let iv_adj = iv_engine.size_factor(c.iv_rank);
    let factor = regime_size_factor(regime, score);
    let qty = order_qty(max_position_usd, factor, iv_adj, c.mid);
    let leg = OptionLeg {
        contract: c.contract.clone(),
        action: LegAction::Buy,
        qty,
        order_type: OrderType::Limit,
        limit_price: Some(c.mid),
    };
    let mut legs: Vec<OptionLeg> = Vec::new();
    legs.push(leg);
    Signal::EnterLong { symbol: String::from_str(symbol), legs }
}

// ── One scan cycle ────────────────────────────────────────────────────────────

/// The scan's choice for one symbol: the best candidate, with the regime
/// and confluence score the symbol was scored at.
#[derive(Debug, Clone)]
pub struct Pick {
    pub candidate: Candidate,
    pub regime: Regime,
    pub score: u32,
}

/// Positions, in increasing order, of the symbols that have a pick.
pub open spec fn picked_positions(picks: Seq<Option<Pick>>) -> Seq<int>
    decreases picks.len(),
{
    if picks.len() == 0 {
        Seq::empty()
    } else {
        let rest = picked_positions(picks.drop_last());
        if picks.last() is Some {
            rest.push(picks.len() - 1)
        } else {
            rest
        }
    }
}

/// The symbol a signal is for.
pub open spec fn signal_symbol(sig: Signal) -> Seq<char> {
    match sig {
        Signal::EnterLong { symbol, .. } => symbol@,
        Signal::EnterShort { symbol, .. } => symbol@,
        Signal::Exit { symbol } => symbol@,
    }
}

proof fn lemma_picked_positions(picks: Seq<Option<Pick>>)
    ensures
        forall|k: int|
            0 <= k < picked_positions(picks).len() ==> 0 <= #[trigger] picked_positions(picks)[k]
                < picks.len() && picks[picked_positions(picks)[k]] is Some,
        forall|k1: int, k2: int|
            0 <= k1 < k2 < picked_positions(picks).len() ==> #[trigger] picked_positions(picks)[k1]
                < #[trigger] picked_positions(picks)[k2],
    decreases picks.len(),
{
    if picks.len() > 0 {
        lemma_picked_positions(picks.drop_last());
        let rest = picked_positions(picks.drop_last());
        assert forall|k: int| 0 <= k < rest.len() implies picks[rest[k]] == picks.drop_last()[rest[k]] by {}
    }
}

/// The signals of one scan cycle: one entry for each symbol that has a
/// pick, in the order of `symbols`. When the configured symbols are
/// distinct, so are the signals' symbols.
pub fn cycle_signals(
    symbols: &Vec<String>,
    picks: &Vec<Option<Pick>>,
    max_position_usd: i64,
    iv_engine: &IvRankEngine,
) -> (r: Vec<Signal>)
    requires
        symbols@.len() == picks@.len(),
        fx_ok(max_position_usd),
        fx_ok(iv_engine.iv_rank_caution_factor),
        forall|i: int| 0 <= i < picks@.len() && #[trigger] picks@[i] is Some ==> fx_ok(picks@[i]->0.candidate.mid),
    ensures
        r@.len() == picked_positions(picks@).len(),
        forall|k: int|
            0 <= k < r@.len() ==> {
                let i = picked_positions(picks@)[k];
                let p = picks@[i]->0;
                &&& 0 <= i < symbols@.len()
                &&& is_entry_for(#[trigger] r@[k], symbols@[i]@, p.candidate, p.regime, p.score, max_position_usd, *iv_engine)
            },
        forall|k1: int, k2: int|
            0 <= k1 < k2 < r@.len() ==> #[trigger] picked_positions(picks@)[k1]
                < #[trigger] picked_positions(picks@)[k2],
        (forall|i: int, j: int| 0 <= i < j < symbols@.len() ==> #[trigger] symbols@[i]@ != #[trigger] symbols@[j]@)
            ==> forall|k1: int, k2: int|
            0 <= k1 < k2 < r@.len() ==> signal_symbol(#[trigger] r@[k1]) != signal_symbol(#[trigger] r@[k2]),
{
    let mut out: Vec<Signal> = Vec::new();
    let mut i: usize = 0;
    while i < picks.len()
        invariant
            i <= picks@.len(),
            symbols@.len() == picks@.len(),
            fx_ok(max_position_usd),
            fx_ok(iv_engine.iv_rank_caution_factor),
            forall|j: int| 0 <= j < picks@.len() && #[trigger] picks@[j] is Some ==> fx_ok(picks@[j]->0.candidate.mid),
            out@.len() == picked_positions(picks@.subrange(0, i as int)).len(),
            forall|k: int|
                0 <= k < out@.len() ==> {
                    let j = picked_positions(picks@.subrange(0, i as int))[k];
                    let p = picks@[j]->0;
                    &&& 0 <= j < i
                    &&& is_entry_for(#[trigger] out@[k], symbols@[j]@, p.candidate, p.regime, p.score, max_position_usd, *iv_engine)
                },
        decreases picks@.len() - i,
    {
        let ghost pre = picks@.subrange(0, i as int);
        let ghost post = picks@.subrange(0, i + 1);
        proof {
            assert(post.drop_last() =~= pre);
            lemma_picked_positions(pre);
        }
        match &picks[i] {
            Some(p) => {
                let sig = entry_signal(symbols[i].as_str(), &p.candidate, p.regime, p.score, max_position_usd, iv_engine);
                out.push(sig);
                proof {
                    assert(picked_positions(post) == picked_positions(pre).push(i as int));
                    assert forall|k: int| 0 <= k < out@.len() implies {
                        let j = picked_positions(post)[k];
                        let p = picks@[j]->0;
                        &&& 0 <= j < i + 1
                        &&& is_entry_for(#[trigger] out@[k], symbols@[j]@, p.candidate, p.regime, p.score, max_position_usd, *iv_engine)
                    } by {
                        if k < out@.len() - 1 {
                            assert(picked_positions(post)[k] == picked_positions(pre)[k]);
                        }
                    }
                }
            },
            None => {
                proof {
                    assert(picked_positions(post) == picked_positions(pre));
                }
            },
        }
        i = i + 1;
    }
    proof {
        assert(picks@.subrange(0, i as int) =~= picks@);
        lemma_picked_positions(picks@);
        let pp = picked_positions(picks@);
        if forall|a: int, b: int| 0 <= a < b < symbols@.len() ==> #[trigger] symbols@[a]@ != #[trigger] symbols@[b]@ {
            assert forall|k1: int, k2: int| 0 <= k1 < k2 < out@.len() implies signal_symbol(#[trigger] out@[k1])
                != signal_symbol(#[trigger] out@[k2]) by {
                assert(pp[k1] < pp[k2]);
                assert(signal_symbol(out@[k1]) == symbols@[pp[k1]]@);
                assert(signal_symbol(out@[k2]) == symbols@[pp[k2]]@);
            }
        }
    }
    out
}

// ── Orders for a signal ───────────────────────────────────────────────────────

/// "call" when the type letter of the OCC contract symbol, nine characters
/// from the end, is a `C`; "put" otherwise.
pub open spec fn spec_contract_direction(contract: Seq<char>) -> Seq<char> {
    if contract.len() >= 9 && contract[contract.len() - 9] == 'C' { "call"@ } else { "put"@ }
}

/// The direction recorded for a contract.
pub fn contract_direction(contract: &str) -> (r: &'static str)
    ensures
        r@ == spec_contract_direction(contract@),
{
    let n = contract.unicode_len();
    if n >= 9 && contract.get_char(n - 9) == 'C' { "call" } else { "put" }
}

/// The order side of a leg.
pub fn leg_side(action: LegAction) -> (r: &'static str)
    ensures
        r@ == (match action {
            LegAction::Buy => "buy"@,
            LegAction::Sell => "sell"@,
        }),
{
    match action {
        LegAction::Buy => "buy",
        LegAction::Sell => "sell",
    }
}

/// A leg is submitted as a limit order only when it has a limit price.
pub fn leg_limit_order(leg: &OptionLeg) -> (r: Option<(&'static str, i64)>)
    ensures
        match leg.limit_price {
            Some(p) => r matches Some((side, price)) && price == p && side@ == (match leg.action {
                LegAction::Buy => "buy"@,
                LegAction::Sell => "sell"@,
            }),
            None => r is None,
        },
{
    match leg.limit_price {
        Some(p) => Some((leg_side(leg.action), p)),
        None => None,
    }
}

// ── Open positions ────────────────────────────────────────────────────────────

/// What the daemon tracks about a position it opened. Prices, IV rank and
/// delta are fixed-point; `opened_at` is microseconds since the epoch.
#[derive(Debug, Clone)]
pub struct OpenPositionMeta {
    pub contract: String,
    pub underlying: String,
    pub direction: String,
    pub opened_at: i64,
    pub entry_price: i64,
    pub qty: u32,
    pub confluence_score: u32,
    pub regime: String,
    pub iv_rank: i64,
    pub delta: i64,
    pub dte_at_entry: u32,
    /// Order ID of the pending entry order (cleared once filled).
    pub pending_order_id: Option<String>,
    /// Order ID of a pending close order.
    pub pending_close_order_id: Option<String>,
    pub force_exit_next_open: bool,
    /// Highest unrealized P&L % seen since entry; `None` before the first.
    pub peak_pnl_pct: Option<i64>,
}

impl OpenPositionMeta {
    /// The record of a freshly submitted entry order.
    pub fn submitted(
        contract: &str,
        underlying: &str,
        direction: &str,
        opened_at: i64,
        entry_price: i64,
        qty: u32,
        order_id: String,
    ) -> (r: OpenPositionMeta)
        ensures
            r.contract@ == contract@,
            r.underlying@ == underlying@,
            r.direction@ == direction@,
            r.opened_at == opened_at,
            r.entry_price == entry_price,
            r.qty == qty,
            r.confluence_score == 0,
            r.regime@.len() == 0,
            r.iv_rank == 0,
            r.delta == 0,
            r.dte_at_entry == 0,
            r.pending_order_id == Some(order_id),
            r.pending_close_order_id is None,
            !r.force_exit_next_open,
            r.peak_pnl_pct is None,
    {
        OpenPositionMeta {
            contract: String::from_str(contract),
            underlying: String::from_str(underlying),
            direction: String::from_str(direction),
            opened_at,
            entry_price,
            qty,
            confluence_score: 0,
            regime: String::new(),
            iv_rank: 0,
            delta: 0,
            dte_at_entry: 0,
            pending_order_id: Some(order_id),
            pending_close_order_id: None,
            force_exit_next_open: false,
            peak_pnl_pct: None,
        }
    }

    /// The entry order filled at `price`: the position is live. Nothing
    /// else changes.
    pub fn entry_filled(&mut self, price: i64)
        ensures
            *final(self) == (OpenPositionMeta { entry_price: price, pending_order_id: None, ..*old(self) }),
    {
        self.entry_price = price;
        self.pending_order_id = None;
    }

    /// Records the current P&L for the trailing target. Nothing else
    /// changes.
    pub fn observe_pnl(&mut self, pnl_pct: i64)
        ensures
            *final(self) == (OpenPositionMeta {
                peak_pnl_pct: Some(crate::exit_monitor::spec_updated_peak(old(self).peak_pnl_pct, pnl_pct)),
                ..*old(self)
            }),
    {
        self.peak_pnl_pct = Some(crate::exit_monitor::updated_peak(self.peak_pnl_pct, pnl_pct));
    }

    /// An exit was held back by the PDT limit: close at the next open.
    /// Nothing else changes.
    pub fn hold_for_next_open(&mut self)
        ensures
            *final(self) == (OpenPositionMeta { force_exit_next_open: true, ..*old(self) }),
    {
        self.force_exit_next_open = true;
    }

    /// A close order was submitted under `order_id`. Nothing else changes.
    pub fn close_submitted(&mut self, order_id: String)
        ensures
            *final(self) == (OpenPositionMeta { pending_close_order_id: Some(order_id), ..*old(self) }),
    {
        self.pending_close_order_id = Some(order_id);
    }

    /// The close order is no longer pending (it was canceled or expired),
    /// so the next cycle may try again. Nothing else changes.
    pub fn close_cleared(&mut self)
        ensures
            *final(self) == (OpenPositionMeta { pending_close_order_id: None, ..*old(self) }),
    {
        self.pending_close_order_id = None;
    }
}

} // verus!
