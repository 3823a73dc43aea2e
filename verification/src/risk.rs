//! The risk guard: account-level checks every entry signal must pass.

use vstd::prelude::*;
use crate::config::{spec_sector_of, AppConfig};
use crate::error::FerrumError;
use crate::fixed::{fx_ok, SCALE};
use crate::text::{fixed_text, nat_text, push_fixed, push_u64, str_eq};
use crate::types::{OptionLeg, Signal};

verus! {

/// More legs than a signal can hold in memory: a `Vec` of this many legs
/// would outgrow any address space. It keeps the exact cost sum in `i128`.
pub const MAX_LEGS: u64 = 100_000_000_000_000;

/// 100 percent in fixed-point.
pub const HUNDRED_PCT: i64 = 1_000_000;

/// Option contracts cover 100 shares.
pub const CONTRACT_MULTIPLIER: i64 = 100;

impl Signal {
    /// At most `MAX_LEGS` legs, each limit price in the working range.
    pub open spec fn well_formed(&self) -> bool {
        match *self {
            Signal::EnterLong { legs, .. } | Signal::EnterShort { legs, .. } => legs_ok(legs@),
            Signal::Exit { .. } => true,
        }
    }
}

pub open spec fn legs_ok(legs: Seq<OptionLeg>) -> bool {
    &&& legs.len() <= MAX_LEGS
    &&& forall|i: int| 0 <= i < legs.len() ==> match #[trigger] legs[i].limit_price {
        Some(p) => fx_ok(p),
        None => true,
    }
}

/// The underlying a signal is about.
pub open spec fn spec_signal_underlying(s: Signal) -> Seq<char> {
    match s {
        Signal::EnterLong { symbol, .. } => symbol@,
        Signal::EnterShort { symbol, .. } => symbol@,
        Signal::Exit { symbol } => symbol@,
    }
}

/// The underlying a signal is about.
pub fn signal_underlying(signal: &Signal) -> (r: &String)
    ensures
        r@ == spec_signal_underlying(*signal),
{
    match signal {
        Signal::EnterLong { symbol, .. } => symbol,
        Signal::EnterShort { symbol, .. } => symbol,
        Signal::Exit { symbol } => symbol,
    }
}

/// Fixed-point dollars the priced legs cost: price × quantity × 100.
pub open spec fn legs_cost(legs: Seq<OptionLeg>) -> int
    decreases legs.len(),
{
    if legs.len() == 0 {
        0
    } else {
        legs_cost(legs.drop_last()) + match legs.last().limit_price {
            Some(p) => p * legs.last().qty * CONTRACT_MULTIPLIER,
            None => 0,
        }
    }
}

/// The cost of an entry: its legs' cost when positive; exits and
/// unpriced entries have none.
pub open spec fn spec_position_cost(s: Signal) -> Option<int> {
    match s {
        Signal::EnterLong { legs, .. } | Signal::EnterShort { legs, .. } => if legs_cost(legs@)
            > 0 {
            Some(legs_cost(legs@))
        } else {
            None
        },
        Signal::Exit { .. } => None,
    }
}

proof fn lemma_legs_cost_bound(legs: Seq<OptionLeg>)
    requires
        legs_ok(legs),
    ensures
        -legs.len() * 429_496_729_500_000_000_000_000 <= legs_cost(legs) <= legs.len()
            * 429_496_729_500_000_000_000_000,
    decreases legs.len(),
{
    if legs.len() > 0 {
        let prefix = legs.drop_last();
        assert forall|i: int| 0 <= i < prefix.len() implies match #[trigger] prefix[i].limit_price {
            Some(p) => fx_ok(p),
            None => true,
        } by {
            assert(prefix[i] == legs[i]);
        }
        lemma_legs_cost_bound(prefix);
        let l = legs.last();
        assert(legs[legs.len() - 1] == l);
        match l.limit_price {
            Some(p) => {
                let q = l.qty as int;
                assert(-1_000_000_000_000 <= p <= 1_000_000_000_000);
                assert(0 <= q <= 4_294_967_295);
                assert(-429_496_729_500_000_000_000_000 <= p * q * 100 <= 429_496_729_500_000_000_000_000)
                    by (nonlinear_arith)
                    requires
                        -1_000_000_000_000 <= p <= 1_000_000_000_000,
                        0 <= q <= 4_294_967_295,
                ;
            },
            None => {},
        }
        assert(legs.len() * 429_496_729_500_000_000_000_000 == prefix.len()
            * 429_496_729_500_000_000_000_000 + 429_496_729_500_000_000_000_000) by (nonlinear_arith)
            requires
                legs.len() == prefix.len() + 1,
        ;
    }
}

/// The estimated cost of an entry signal in fixed-point dollars.
pub fn estimate_position_usd(signal: &Signal) -> (r: Option<i128>)
    requires
        signal.well_formed(),
    ensures
        r matches Some(c) ==> spec_position_cost(*signal) == Some(c as int) && 0 < c
            <= 42_949_672_950_000_000_000_000_000_000_000_000_000,
        r is None ==> spec_position_cost(*signal) is None,
{
    let legs = match signal {
        Signal::EnterLong { legs, .. } => legs,
        Signal::EnterShort { legs, .. } => legs,
        Signal::Exit { .. } => return None,
    };
    let mut total: i128 = 0;
    let mut i: usize = 0;
    while i < legs.len()
        invariant
            i <= legs.len(),
            legs_ok(legs@),
            total as int == legs_cost(legs@.subrange(0, i as int)),
        decreases legs.len() - i,
    {
        proof {
            let pre = legs@.subrange(0, i + 1);
            assert(pre.drop_last() =~= legs@.subrange(0, i as int));
            assert(legs_ok(pre)) by {
                assert forall|j: int| 0 <= j < pre.len() implies match #[trigger] pre[j].limit_price {
                    Some(p) => fx_ok(p),
                    None => true,
                } by {
                    assert(pre[j] == legs@[j]);
                }
            }
            lemma_legs_cost_bound(pre);
            assert(pre.len() * 429_496_729_500_000_000_000_000 <= 100_000_000_000_000
                * 429_496_729_500_000_000_000_000) by (nonlinear_arith)
                requires
                    pre.len() <= 100_000_000_000_000,
            ;
            assert(pre.last() == legs@[i as int]);
        }
        match legs[i].limit_price {
            Some(p) => {
                let q = legs[i].qty;
                proof {
                    assert(fx_ok(p)) by {
                        assert(legs@[i as int].limit_price == Some(p));
                    }
                    assert(-429_496_729_500_000_000_000_000 <= (p as int) * (q as int) * 100
                        <= 429_496_729_500_000_000_000_000) by (nonlinear_arith)
                        requires
                            -1_000_000_000_000 <= p <= 1_000_000_000_000,
                            0 <= q <= 4_294_967_295,
                    ;
                    assert(-4_294_967_295_000_000_000_000 <= (p as int) * (q as int)
                        <= 4_294_967_295_000_000_000_000) by (nonlinear_arith)
                        requires
                            -1_000_000_000_000 <= p <= 1_000_000_000_000,
                            0 <= q <= 4_294_967_295,
                    ;
                }
                total = total + (p as i128) * (q as i128) * (CONTRACT_MULTIPLIER as i128);
            },
            None => {},
        }
        i = i + 1;
    }
    proof {
        assert(legs@.subrange(0, i as int) =~= legs@);
        lemma_legs_cost_bound(legs@);
        assert(legs@.len() * 429_496_729_500_000_000_000_000 <= 100_000_000_000_000
            * 429_496_729_500_000_000_000_000) by (nonlinear_arith)
            requires
                legs@.len() <= 100_000_000_000_000,
        ;
    }
    if total > 0 {
        Some(total)
    } else {
        None
    }
}

// ── Sector counts ─────────────────────────────────────────────────────────────

/// The count recorded for `sector`, 0 when none is.
pub open spec fn count_for(counts: Seq<(String, u32)>, sector: Seq<char>) -> nat
    decreases counts.len(),
{
    if counts.len() == 0 {
        0
    } else if counts.last().0@ == sector {
        counts.last().1 as nat
    } else {
        count_for(counts.drop_last(), sector)
    }
}

/// How many of `underlyings` fall in `sector`.
pub open spec fn underlyings_in_sector(
    sectors: Seq<crate::config::SectorGroup>,
    underlyings: Seq<String>,
    sector: Seq<char>,
) -> nat
    decreases underlyings.len(),
{
    if underlyings.len() == 0 {
        0
    } else {
        underlyings_in_sector(sectors, underlyings.drop_last(), sector) + if spec_sector_of(
            sectors,
            underlyings.last()@,
        ) == sector {
            1nat
        } else {
            0nat
        }
    }
}

/// No sector is recorded twice.
pub open spec fn distinct_sectors(counts: Seq<(String, u32)>) -> bool {
    forall|i: int, j: int|
        0 <= i < j < counts.len() ==> #[trigger] counts[i].0@ != #[trigger] counts[j].0@
}

proof fn lemma_count_for_update(counts: Seq<(String, u32)>, k: int, v: u32, sector: Seq<char>)
    requires
        distinct_sectors(counts),
        0 <= k < counts.len(),
    ensures
        count_for(counts.update(k, (counts[k].0, v)), sector) == if counts[k].0@ == sector {
            v as nat
        } else {
            count_for(counts, sector)
        },
        counts[k].0@ == sector ==> count_for(counts, sector) == counts[k].1,
    decreases counts.len(),
{
    let n = counts.len();
    let up = counts.update(k, (counts[k].0, v));
    if k == n - 1 {
        assert(up.drop_last() =~= counts.drop_last());
        if counts[k].0@ != sector {
        }
    } else {
        assert(up.drop_last() =~= counts.drop_last().update(k, (counts[k].0, v)));
        assert(distinct_sectors(counts.drop_last()));
        assert(counts.drop_last()[k] == counts[k]);
        lemma_count_for_update(counts.drop_last(), k, v, sector);
        assert(up.last() == counts.last());
        if counts[k].0@ == sector {
            assert(counts.last().0@ != sector);
        }
    }
}

proof fn lemma_count_for_absent(counts: Seq<(String, u32)>, sector: Seq<char>)
    requires
        forall|i: int| 0 <= i < counts.len() ==> #[trigger] counts[i].0@ != sector,
    ensures
        count_for(counts, sector) == 0,
    decreases counts.len(),
{
    if counts.len() > 0 {
        assert(counts[counts.len() - 1].0@ != sector);
        lemma_count_for_absent(counts.drop_last(), sector);
    }
}

/// Index of the entry recording `sector`, if any.
fn find_sector(counts: &Vec<(String, u32)>, sector: &str) -> (r: Option<usize>)
    ensures
        r matches Some(k) ==> k < counts@.len() && counts@[k as int].0@ == sector@,
        r is None ==> forall|j: int| 0 <= j < counts@.len() ==> #[trigger] counts@[j].0@ != sector@,
{
    let mut k: usize = 0;
    while k < counts.len()
        invariant
            k <= counts.len(),
            forall|j: int| 0 <= j < k ==> #[trigger] counts@[j].0@ != sector@,
        decreases counts.len() - k,
    {
        if str_eq(counts[k].0.as_str(), sector) {
            return Some(k);
        }
        k = k + 1;
    }
    None
}

// ── The guard ─────────────────────────────────────────────────────────────────

/// The account state an entry is checked against. Money is fixed-point
/// dollars, `daily_pnl_pct` fixed-point percent.
pub struct RiskGuard<'a> {
    pub config: &'a AppConfig,
    pub open_positions: u32,
    pub daily_pnl_pct: i64,
    pub account_equity: i64,
    pub total_at_risk: i64,
    /// Open positions per sector.
    pub sector_counts: Vec<(String, u32)>,
}

impl<'a> RiskGuard<'a> {
    pub open spec fn well_formed(&self) -> bool {
        &&& self.config.well_formed()
        &&& fx_ok(self.daily_pnl_pct)
        &&& fx_ok(self.account_equity)
        &&& fx_ok(self.total_at_risk)
    }

    /// Open positions the guard counts in `sector`.
    pub open spec fn sector_count(&self, sector: Seq<char>) -> nat {
        count_for(self.sector_counts@, sector)
    }

    pub fn new(
        config: &'a AppConfig,
        open_positions: u32,
        daily_pnl_pct: i64,
        account_equity: i64,
        total_at_risk: i64,
    ) -> (r: RiskGuard<'a>)
        ensures
            r.config == config,
            r.open_positions == open_positions,
            r.daily_pnl_pct == daily_pnl_pct,
            r.account_equity == account_equity,
            r.total_at_risk == total_at_risk,
            r.sector_counts@.len() == 0,
    {
        RiskGuard {
            config,
            open_positions,
            daily_pnl_pct,
            account_equity,
            total_at_risk,
            sector_counts: Vec::new(),
        }
    }

    /// Counts the open underlyings per sector.
    pub fn with_open_underlyings(self, underlyings: &Vec<String>) -> (r: RiskGuard<'a>)
        requires
            underlyings.len() <= u32::MAX,
        ensures
            r.config == self.config,
            r.open_positions == self.open_positions,
            r.daily_pnl_pct == self.daily_pnl_pct,
            r.account_equity == self.account_equity,
            r.total_at_risk == self.total_at_risk,
            forall|sector: Seq<char>|
                #[trigger] r.sector_count(sector) == underlyings_in_sector(
                    self.config.symbols.sectors@,
                    underlyings@,
                    sector,
                ),
    {
        let mut counts: Vec<(String, u32)> = Vec::new();
        let ghost sectors = self.config.symbols.sectors@;
        let mut i: usize = 0;
        while i < underlyings.len()
            invariant
                i <= underlyings.len(),
                underlyings.len() <= u32::MAX,
                sectors == self.config.symbols.sectors@,
                distinct_sectors(counts@),
                forall|j: int| 0 <= j < counts@.len() ==> #[trigger] counts@[j].1 <= i,
                forall|sector: Seq<char>|
                    #[trigger] count_for(counts@, sector) == underlyings_in_sector(
                        sectors,
                        underlyings@.subrange(0, i as int),
                        sector,
                    ),
            decreases underlyings.len() - i,
        {
            let sector = self.config.symbols.sector_of(underlyings[i].as_str());
            let ghost pre = underlyings@.subrange(0, i + 1);
            proof {
                assert(pre.drop_last() =~= underlyings@.subrange(0, i as int));
                assert(pre.last() == underlyings@[i as int]);
            }
            let found = find_sector(&counts, sector.as_str());
            let ghost old_counts = counts@;
            if let Some(k) = found {
                let c = counts[k].1;
                let name = counts[k].0.clone();
                proof {
                    assert(counts@[k as int].0@ == sector@);
                }
                counts.set(k, (name, c + 1));
                proof {
                    assert(counts@ == old_counts.update(k as int, (old_counts[k as int].0, (c + 1) as u32)));
                    assert forall|s: Seq<char>| #[trigger] count_for(counts@, s) == underlyings_in_sector(
                        sectors,
                        pre,
                        s,
                    ) by {
                        lemma_count_for_update(old_counts, k as int, (c + 1) as u32, s);
                        assert(count_for(old_counts, s) == underlyings_in_sector(
                            sectors,
                            underlyings@.subrange(0, i as int),
                            s,
                        ));
                    }
                    assert forall|a: int, b: int| 0 <= a < b < counts@.len() implies #[trigger] counts@[a].0@
                        != #[trigger] counts@[b].0@ by {
                        assert(old_counts[a].0@ != old_counts[b].0@);
                    }
                }
            } else {
                let ghost sector_view = sector@;
                counts.push((sector, 1));
                proof {
                    assert(counts@.last().0@ == sector_view);
                    assert(counts@.last().1 == 1);
                    assert(spec_sector_of(sectors, pre.last()@) == sector_view);
                    assert forall|s: Seq<char>| #[trigger] count_for(counts@, s) == underlyings_in_sector(
                        sectors,
                        pre,
                        s,
                    ) by {
                        assert(counts@.drop_last() =~= old_counts);
                        assert(count_for(old_counts, s) == underlyings_in_sector(
                            sectors,
                            underlyings@.subrange(0, i as int),
                            s,
                        ));
                        if s != sector_view {
                        } else {
                            lemma_count_for_absent(old_counts, s);
                        }
                    }
                    assert forall|a: int, b: int| 0 <= a < b < counts@.len() implies #[trigger] counts@[a].0@
                        != #[trigger] counts@[b].0@ by {
                        if b == counts@.len() - 1 {
                            assert(old_counts[a].0@ != sector_view) by {
                                assert(found is None);
                            }
                        } else {
                            assert(old_counts[a].0@ != old_counts[b].0@);
                        }
                    }
                }
            }
            i = i + 1;
        }
        proof {
            assert(underlyings@.subrange(0, i as int) =~= underlyings@);
        }
        RiskGuard {
            config: self.config,
            open_positions: self.open_positions,
            daily_pnl_pct: self.daily_pnl_pct,
            account_equity: self.account_equity,
            total_at_risk: self.total_at_risk,
            sector_counts: counts,
        }
    }
}

/// Largest fixed-point dollars at risk the portfolio allows:
/// equity × (1 − reserve%) × risk%, rounded down.
pub open spec fn spec_max_risk(equity: int, reserve_pct: int, risk_pct: int) -> int {
    (equity * (HUNDRED_PCT - reserve_pct) * risk_pct) / (HUNDRED_PCT * HUNDRED_PCT) as int
}

/// Fixed-point dollars the cash reserve keeps back: equity × reserve%,
/// rounded down.
pub open spec fn spec_min_cash(equity: int, reserve_pct: int) -> int {
    (equity * reserve_pct) / (HUNDRED_PCT as int)
}

/// The first rule an entry breaks, as the violation's message; `None` when
/// the entry passes. Money compares exactly on fixed-point values.
pub open spec fn spec_risk_verdict(g: RiskGuard, s: Signal) -> Option<Seq<char>> {
    let cfg = g.config;
    let e = g.account_equity as int;
    let t = g.total_at_risk as int;
    let reserve = cfg.sizing.min_cash_reserve_pct as int;
    let risk = cfg.sizing.max_portfolio_risk_pct as int;
    let sector = spec_sector_of(cfg.symbols.sectors@, spec_signal_underlying(s));
    let current = g.sector_count(sector);
    if g.account_equity < cfg.risk.halt_equity_floor {
        Some(
            "account equity $"@ + fixed_text(e, 2) + " below halt floor $"@ + fixed_text(
                cfg.risk.halt_equity_floor as int,
                2,
            ),
        )
    } else if g.daily_pnl_pct <= -cfg.risk.daily_drawdown_pct {
        Some(
            "daily drawdown "@ + fixed_text(
                if g.daily_pnl_pct < 0 { -g.daily_pnl_pct } else { g.daily_pnl_pct as int },
                2,
            ) + "% exceeds limit "@ + fixed_text(cfg.risk.daily_drawdown_pct as int, 2) + "%"@,
        )
    } else if g.open_positions >= cfg.sizing.max_open_positions {
        Some(
            "max open positions "@ + nat_text(cfg.sizing.max_open_positions as nat) + " reached"@,
        )
    } else if current >= cfg.sizing.max_sector_positions {
        Some(
            "sector '"@ + sector + "' already has "@ + nat_text(current) + " open positions (limit "@
                + nat_text(cfg.sizing.max_sector_positions as nat) + ")"@,
        )
    } else if t * HUNDRED_PCT * HUNDRED_PCT >= e * (HUNDRED_PCT - reserve) * risk {
        Some(
            "portfolio risk $"@ + fixed_text(t, 2) + " at limit $"@ + fixed_text(
                spec_max_risk(e, reserve, risk),
                2,
            ),
        )
    } else {
        match spec_position_cost(s) {
            Some(c) => if c > cfg.sizing.max_position_usd {
                Some(
                    "position cost $"@ + fixed_text(c, 2) + " exceeds max $"@ + fixed_text(
                        cfg.sizing.max_position_usd as int,
                        2,
                    ),
                )
            } else if (e - t - c) * HUNDRED_PCT < e * reserve {
                Some(
                    "order would breach cash reserve (remaining $"@ + fixed_text(e - t - c, 2)
                        + " < min $"@ + fixed_text(spec_min_cash(e, reserve), 2) + ")"@,
                )
            } else {
                None
            },
            None => None,
        }
    }
}

/// `a / b` rounded down, for a positive `b`.
fn floor_div(a: i128, b: i128) -> (r: i128)
    requires
        b > 0,
        -0x1000_0000_0000_0000_0000_0000_0000_0000 <= a <= 0x1000_0000_0000_0000_0000_0000_0000_0000,
        b <= 0x1000_0000_0000_0000_0000_0000_0000_0000,
    ensures
        r == a / b,
{
    if a >= 0 {
        a / b
    } else {
        let x = -a;
        let c = (x + b - 1) / b;
        proof {
            assert(-c == a / b) by (nonlinear_arith)
                requires
                    b > 0,
                    x > 0,
                    a == -x,
                    c == (x + b - 1) / (b as int),
            ;
        }
        -c
    }
}

impl<'a> RiskGuard<'a> {
    /// Checks an entry signal against the equity floor, the daily drawdown
    /// limit, the open-position and sector caps, the portfolio risk limit,
    /// the per-position cost cap and the cash reserve, in that order.
    pub fn check_entry(&self, signal: &Signal) -> (r: Result<(), FerrumError>)
        requires
            self.well_formed(),
            signal.well_formed(),
        ensures
            match spec_risk_verdict(*self, *signal) {
                None => r is Ok,
                Some(msg) => r matches Err(FerrumError::RiskViolation(m)) && m@ == msg,
            },
    {
        let cfg = self.config;
        proof {
            reveal_strlit("account equity $");
            reveal_strlit(" below halt floor $");
        }
        if self.account_equity < cfg.risk.halt_equity_floor {
            let mut m = String::from_str("account equity $");
            push_fixed(&mut m, self.account_equity as i128, 2);
            m.append(" below halt floor $");
            push_fixed(&mut m, cfg.risk.halt_equity_floor as i128, 2);
            proof {
                assert(spec_risk_verdict(*self, *signal) == Some(m@));
            }
            return Err(FerrumError::RiskViolation(m));
        }
        if self.daily_pnl_pct <= -cfg.risk.daily_drawdown_pct {
            let mut m = String::from_str("daily drawdown ");
            let a: i64 = if self.daily_pnl_pct < 0 { -self.daily_pnl_pct } else { self.daily_pnl_pct };
            push_fixed(&mut m, a as i128, 2);
            m.append("% exceeds limit ");
            push_fixed(&mut m, cfg.risk.daily_drawdown_pct as i128, 2);
            m.append("%");
            proof {
                assert(spec_risk_verdict(*self, *signal) == Some(m@));
            }
            return Err(FerrumError::RiskViolation(m));
        }
        if self.open_positions >= cfg.sizing.max_open_positions {
            let mut m = String::from_str("max open positions ");
            push_u64(&mut m, cfg.sizing.max_open_positions as u64);
            m.append(" reached");
            proof {
                assert(spec_risk_verdict(*self, *signal) == Some(m@));
            }
            return Err(FerrumError::RiskViolation(m));
        }
        let underlying = signal_underlying(signal);
        let sector = cfg.symbols.sector_of(underlying.as_str());
        let mut current: u32 = 0;
        let mut k: usize = 0;
        while k < self.sector_counts.len()
            invariant
                k <= self.sector_counts.len(),
                current as nat == count_for(self.sector_counts@.subrange(0, k as int), sector@),
            decreases self.sector_counts.len() - k,
        {
            proof {
                let pre = self.sector_counts@.subrange(0, k + 1);
                assert(pre.drop_last() =~= self.sector_counts@.subrange(0, k as int));
                assert(pre.last() == self.sector_counts@[k as int]);
            }
            if str_eq(self.sector_counts[k].0.as_str(), sector.as_str()) {
                current = self.sector_counts[k].1;
            }
            k = k + 1;
        }
        proof {
            assert(self.sector_counts@.subrange(0, k as int) =~= self.sector_counts@);
        }
        if current >= cfg.sizing.max_sector_positions {
            let mut m = String::from_str("sector '");
            m.append(sector.as_str());
            m.append("' already has ");
            push_u64(&mut m, current as u64);
            m.append(" open positions (limit ");
            push_u64(&mut m, cfg.sizing.max_sector_positions as u64);
            m.append(")");
            proof {
                assert(spec_risk_verdict(*self, *signal) == Some(m@));
            }
            return Err(FerrumError::RiskViolation(m));
        }
        let e = self.account_equity as i128;
        let t = self.total_at_risk as i128;
        let reserve = cfg.sizing.min_cash_reserve_pct as i128;
        let risk = cfg.sizing.max_portfolio_risk_pct as i128;
        let hp = HUNDRED_PCT as i128;
        proof {
            assert(-1_000_000_000_000 <= e <= 1_000_000_000_000);
            assert(-1_000_000_000_001_000_000 <= hp - reserve <= 1_000_000_001_000_000);
            assert(-2_000_000_000_000_000_000_000_000 <= e * (hp - reserve) <= 2_000_000_000_000_000_000_000_000)
                by (nonlinear_arith)
                requires
                    -1_000_000_000_000 <= e <= 1_000_000_000_000,
                    -1_000_001_000_000 <= hp - reserve <= 1_000_001_000_000,
            ;
            assert(-2_000_000_000_000_000_000_000_000_000_000_000_000 <= e * (hp - reserve) * risk
                <= 2_000_000_000_000_000_000_000_000_000_000_000_000) by (nonlinear_arith)
                requires
                    -2_000_000_000_000_000_000_000_000 <= e * (hp - reserve)
                        <= 2_000_000_000_000_000_000_000_000,
                    -1_000_000_000_000 <= risk <= 1_000_000_000_000,
            ;
            assert(-1_000_000_000_000_000_000_000_000 <= t * hp * hp <= 1_000_000_000_000_000_000_000_000)
                by (nonlinear_arith)
                requires
                    -1_000_000_000_000 <= t <= 1_000_000_000_000,
                    hp == 1_000_000,
            ;
        }
        let lhs = t * hp * hp;
        let rhs = e * (hp - reserve) * risk;
        if lhs >= rhs {
            let max_risk = floor_div(rhs, hp * hp);
            let mut m = String::from_str("portfolio risk $");
            push_fixed(&mut m, t, 2);
            m.append(" at limit $");
            push_fixed(&mut m, max_risk, 2);
            proof {
                assert(spec_risk_verdict(*self, *signal) == Some(m@));
            }
            return Err(FerrumError::RiskViolation(m));
        }
        match estimate_position_usd(signal) {
            Some(cost) => {
                let max_usd = cfg.sizing.max_position_usd as i128;
                if cost > max_usd {
                    let mut m = String::from_str("position cost $");
                    push_fixed(&mut m, cost, 2);
                    m.append(" exceeds max $");
                    push_fixed(&mut m, max_usd, 2);
                    proof {
                        assert(spec_risk_verdict(*self, *signal) == Some(m@));
                    }
                    return Err(FerrumError::RiskViolation(m));
                }
                proof {
                    assert(cost > 0);
                    assert(e * reserve <= 1_000_000_000_000_000_000_000_000 && e * reserve
                        >= -1_000_000_000_000_000_000_000_000) by (nonlinear_arith)
                        requires
                            -1_000_000_000_000 <= e <= 1_000_000_000_000,
                            -1_000_000_000_000 <= reserve <= 1_000_000_000_000,
                    ;
                }
                let cash_after = e - t - cost;
                let min_cash = floor_div(e * reserve, hp);
                if cash_after * hp < e * reserve {
                    let mut m = String::from_str("order would breach cash reserve (remaining $");
                    push_fixed(&mut m, cash_after, 2);
                    m.append(" < min $");
                    push_fixed(&mut m, min_cash, 2);
                    m.append(")");
                    proof {
                        assert(spec_risk_verdict(*self, *signal) == Some(m@));
                    }
                    return Err(FerrumError::RiskViolation(m));
                }
                proof {
                    assert(spec_risk_verdict(*self, *signal) is None);
                }
                Ok(())
            },
            None => {
                proof {
                    assert(spec_risk_verdict(*self, *signal) is None);
                }
                Ok(())
            },
        }
    }
}

/// An entry the guard lets through respects every limit: equity at or
/// above the halt floor, the day's loss short of the drawdown limit, room
/// under the open-position and sector caps, risk below the portfolio limit,
/// and, when the entry has a cost, a cost within the per-position maximum
/// that leaves the cash reserve intact.
pub proof fn passing_entry_respects_limits<'a>(g: RiskGuard<'a>, s: Signal)
    requires
        spec_risk_verdict(g, s) is None,
    ensures
        g.account_equity >= g.config.risk.halt_equity_floor,
        g.daily_pnl_pct > -g.config.risk.daily_drawdown_pct,
        g.open_positions < g.config.sizing.max_open_positions,
        g.sector_count(spec_sector_of(g.config.symbols.sectors@, spec_signal_underlying(s)))
            < g.config.sizing.max_sector_positions,
        g.total_at_risk * HUNDRED_PCT * HUNDRED_PCT < g.account_equity * (HUNDRED_PCT
            - g.config.sizing.min_cash_reserve_pct) * g.config.sizing.max_portfolio_risk_pct,
        spec_position_cost(s) matches Some(c) ==> c <= g.config.sizing.max_position_usd && (
        g.account_equity - g.total_at_risk - c) * HUNDRED_PCT >= g.account_equity
            * g.config.sizing.min_cash_reserve_pct,
{
}

} // verus!
