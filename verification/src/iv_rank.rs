//! IV rank: where current implied volatility sits in its historical
//! range, and how it gates and scales entries.
//!
//! Ranks are fixed-point values from 0 to 100.

use vstd::prelude::*;
use crate::fixed::{fx_ok, SCALE};

verus! {

/// 100 in fixed-point: the top of the rank scale.
pub const RANK_MAX: i64 = 1_000_000;

/// 50 in fixed-point: the neutral rank used without enough history.
pub const RANK_NEUTRAL: i64 = 500_000;

/// Snapshots of stored implied volatility needed before they are used.
pub const MIN_IV_SNAPSHOTS: i64 = 30;

/// Daily closes needed before historical volatility stands in for IV.
pub const MIN_HV_CLOSES: usize = 60;

#[derive(Debug, Clone)]
pub struct IvRankEngine {
    pub iv_rank_buy_max: i64,
    pub iv_rank_caution_min: i64,
    /// Fixed-point size factor applied in the caution zone.
    pub iv_rank_caution_factor: i64,
    pub hv_lookback_days: u32,
}

#[derive(Debug, Clone, Copy)]
pub struct IvRankResult {
    /// Fixed-point rank, 0 to 100.
    pub iv_rank: i64,
    /// Implied volatility the rank was computed for.
    pub current_iv: i64,
    pub method: IvMethod,
}

#[derive(Debug, Clone, Copy, PartialEq, Eq, Structural)]
pub enum IvMethod {
    /// Historical volatility standing in for IV (too few IV snapshots).
    HvProxy,
    /// Stored IV snapshots.
    ActualIv,
}

pub open spec fn clamp_rank(r: int) -> int {
    if r < 0 {
        0
    } else if r > RANK_MAX {
        RANK_MAX as int
    } else {
        r
    }
}

/// `(x - low) / (high - low) × 100`, rounded down and clamped to 0..100,
/// for `high > low`.
pub open spec fn spec_rank_in_range(x: int, low: int, high: int) -> int {
    clamp_rank(((x - low) * RANK_MAX) / (high - low))
}

/// Where `x` sits between `low` and `high`, on the 0–100 rank scale.
pub fn rank_in_range(x: i64, low: i64, high: i64) -> (r: i64)
    requires
        fx_ok(x),
        fx_ok(low),
        fx_ok(high),
        high > low,
    ensures
        r == spec_rank_in_range(x as int, low as int, high as int),
        0 <= r <= RANK_MAX,
{
    let num: i128 = (x as i128 - low as i128) * (RANK_MAX as i128);
    let den: i128 = high as i128 - low as i128;
    let q: i128 = if num >= 0 {
        num / den
    } else {
        let c = (-num + den - 1) / den;
        proof {
            assert(-c == num / den) by (nonlinear_arith)
                requires
                    den > 0,
                    num < 0,
                    c == (-num + den - 1) / (den as int),
            ;
        }
        -c
    };
    if q < 0 {
        0
    } else if q > RANK_MAX as i128 {
        RANK_MAX
    } else {
        q as i64
    }
}

/// With at least 30 stored IV snapshots and a non-empty 52-week range,
/// the rank of the current IV in that range; otherwise `None` (fall back to
/// the historical-volatility proxy).
pub fn rank_from_snapshots(snapshot_count: i64, iv_low: i64, iv_high: i64, current_iv: i64) -> (r:
    Option<IvRankResult>)
    requires
        fx_ok(iv_low),
        fx_ok(iv_high),
        fx_ok(current_iv),
    ensures
        r is Some <==> (snapshot_count >= MIN_IV_SNAPSHOTS && iv_high > iv_low),
        r matches Some(res) ==> res.iv_rank == spec_rank_in_range(
            current_iv as int,
            iv_low as int,
            iv_high as int,
        ) && res.current_iv == current_iv && res.method == IvMethod::ActualIv,
{
    if snapshot_count >= MIN_IV_SNAPSHOTS && iv_high > iv_low {
        Some(
            IvRankResult {
                iv_rank: rank_in_range(current_iv, iv_low, iv_high),
                current_iv,
                method: IvMethod::ActualIv,
            },
        )
    } else {
        None
    }
}

pub open spec fn seq_min(s: Seq<i64>) -> int
    recommends
        s.len() > 0,
    decreases s.len(),
{
    if s.len() <= 1 {
        s[0] as int
    } else {
        let m = seq_min(s.drop_last());
        if s.last() < m { s.last() as int } else { m }
    }
}

pub open spec fn seq_max(s: Seq<i64>) -> int
    recommends
        s.len() > 0,
    decreases s.len(),
{
    if s.len() <= 1 {
        s[0] as int
    } else {
        let m = seq_max(s.drop_last());
        if s.last() > m { s.last() as int } else { m }
    }
}

/// The proxy rank: the current historical volatility's place between the
/// lowest and highest rolling historical volatilities; neutral (50) when
/// the current value is undefined, history is short, no rolling values
/// exist, or they are all equal.
pub open spec fn spec_proxy_rank(hv: Option<i64>, closes: nat, hv_vals: Seq<i64>) -> int {
    match hv {
        Some(h) => if closes < MIN_HV_CLOSES || hv_vals.len() == 0 {
            RANK_NEUTRAL as int
        } else if seq_max(hv_vals) > seq_min(hv_vals) {
            spec_rank_in_range(h as int, seq_min(hv_vals), seq_max(hv_vals))
        } else {
            RANK_NEUTRAL as int
        },
        None => RANK_NEUTRAL as int,
    }
}

proof fn lemma_min_max_in(s: Seq<i64>)
    requires
        s.len() > 0,
    ensures
        exists|i: int| 0 <= i < s.len() && s[i] == seq_min(s),
        exists|i: int| 0 <= i < s.len() && s[i] == seq_max(s),
    decreases s.len(),
{
    if s.len() > 1 {
        lemma_min_max_in(s.drop_last());
        let i = choose|i: int| 0 <= i < s.len() - 1 && s.drop_last()[i] == seq_min(s.drop_last());
        let j = choose|j: int| 0 <= j < s.len() - 1 && s.drop_last()[j] == seq_max(s.drop_last());
        assert(s[i] == s.drop_last()[i]);
        assert(s[j] == s.drop_last()[j]);
        assert(s[s.len() - 1] == s.last());
    } else {
        assert(s[0] == seq_min(s));
    }
}

/// The historical-volatility proxy rank from the current HV, the number of
/// daily closes, and the rolling HV values.
pub fn rank_from_history(hv: Option<i64>, closes: usize, hv_vals: &Vec<i64>, current_iv: i64) -> (r:
    IvRankResult)
    requires
        match hv {
            Some(h) => fx_ok(h),
            None => true,
        },
        forall|i: int| 0 <= i < hv_vals@.len() ==> fx_ok(#[trigger] hv_vals@[i]),
    ensures
        r.iv_rank == spec_proxy_rank(hv, closes as nat, hv_vals@),
        r.current_iv == current_iv,
        r.method == IvMethod::HvProxy,
{
    let h = match hv {
        Some(h) => h,
        None => return IvRankResult { iv_rank: RANK_NEUTRAL, current_iv, method: IvMethod::HvProxy },
    };
    if closes < MIN_HV_CLOSES || hv_vals.len() == 0 {
        return IvRankResult { iv_rank: RANK_NEUTRAL, current_iv, method: IvMethod::HvProxy };
    }
    let mut low = hv_vals[0];
    let mut high = hv_vals[0];
    let mut i: usize = 1;
    proof {
        assert(hv_vals@.subrange(0, 1).len() == 1);
        assert(hv_vals@.subrange(0, 1)[0] == hv_vals@[0]);
    }
    while i < hv_vals.len()
        invariant
            1 <= i <= hv_vals.len(),
            low == seq_min(hv_vals@.subrange(0, i as int)),
            high == seq_max(hv_vals@.subrange(0, i as int)),
        decreases hv_vals.len() - i,
    {
        proof {
            let pre = hv_vals@.subrange(0, i + 1);
            assert(pre.drop_last() =~= hv_vals@.subrange(0, i as int));
            assert(pre.last() == hv_vals@[i as int]);
        }
        if hv_vals[i] < low {
            low = hv_vals[i];
        }
        if hv_vals[i] > high {
            high = hv_vals[i];
        }
        i = i + 1;
    }
    proof {
        assert(hv_vals@.subrange(0, i as int) =~= hv_vals@);
        lemma_min_max_in(hv_vals@);
    }
    let rank = if high > low {
        rank_in_range(h, low, high)
    } else {
        RANK_NEUTRAL
    };
    IvRankResult { iv_rank: rank, current_iv, method: IvMethod::HvProxy }
}

/// The size factor an IV rank implies: 0 above the buy limit (block), the
/// caution factor from the caution threshold up, otherwise 1.
pub open spec fn spec_iv_size_factor(e: IvRankEngine, iv_rank: int) -> int {
    if iv_rank > e.iv_rank_buy_max {
        0
    } else if iv_rank >= e.iv_rank_caution_min {
        e.iv_rank_caution_factor as int
    } else {
        SCALE as int
    }
}

impl IvRankEngine {
    pub fn new(
        iv_rank_buy_max: i64,
        iv_rank_caution_min: i64,
        iv_rank_caution_factor: i64,
        hv_lookback_days: u32,
    ) -> (r: IvRankEngine)
        ensures
            r.iv_rank_buy_max == iv_rank_buy_max,
            r.iv_rank_caution_min == iv_rank_caution_min,
            r.iv_rank_caution_factor == iv_rank_caution_factor,
            r.hv_lookback_days == hv_lookback_days,
    {
        IvRankEngine { iv_rank_buy_max, iv_rank_caution_min, iv_rank_caution_factor, hv_lookback_days }
    }

    /// The fixed-point size adjustment for an IV rank.
    pub fn size_factor(&self, iv_rank: i64) -> (r: i64)
        ensures
            r == spec_iv_size_factor(*self, iv_rank as int),
    {
        if iv_rank > self.iv_rank_buy_max {
            return 0;
        }
        if iv_rank >= self.iv_rank_caution_min {
            return self.iv_rank_caution_factor;
        }
        SCALE
    }

    /// Whether an IV rank is in the buy zone.
    pub fn is_buyable(&self, iv_rank: i64) -> (r: bool)
        ensures
            r == (iv_rank <= self.iv_rank_buy_max),
    {
        iv_rank <= self.iv_rank_buy_max
    }
}

/// A rank outside the buy zone sizes a position to nothing.
pub proof fn unbuyable_rank_sizes_to_zero(e: IvRankEngine, iv_rank: int)
    requires
        !(iv_rank <= e.iv_rank_buy_max),
    ensures
        spec_iv_size_factor(e, iv_rank) == 0,
{
}

} // verus!
