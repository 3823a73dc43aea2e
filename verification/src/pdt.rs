//! Pattern-day-trader bookkeeping: same-day round trips inside a rolling
//! window, and whether a same-day exit may spend one.

use vstd::prelude::*;
use crate::clock::{epoch_day, epoch_day_of, utc_now, DAY_MICROS};
use crate::fixed::fx_ok;
use crate::text::{fixed_text, nat_text, push_fixed, push_u64};

verus! {

/// A completed same-day open and close. Times are microseconds since the
/// epoch; prices and P&L are fixed-point.
#[derive(Debug, Clone)]
pub struct DayTradeRecord {
    pub contract_symbol: String,
    pub underlying: String,
    pub open_time: i64,
    pub close_time: i64,
    pub open_price: i64,
    pub close_price: i64,
    pub pnl: i64,
    pub was_emergency: bool,
}

/// Counts same-day open+close trades within a rolling window of business
/// days (Monday to Friday).
#[derive(Debug, Clone)]
pub struct PdtTracker {
    pub day_trades: Vec<DayTradeRecord>,
    pub max_per_window: u32,
    pub rolling_window_days: u32,
    /// Fixed-point percent loss at which a same-day exit is always allowed.
    pub emergency_stop_pct: i64,
    /// Fixed-point percent gain at which a same-day exit is always allowed.
    pub exceptional_win_pct: i64,
}

/// Whether a UTC day (days since Thursday 1970-01-01) is a business day,
/// Monday to Friday.
pub open spec fn is_weekday(day: int) -> bool {
    (day + 3) % 7 < 5
}

/// The nearest business day before `day`.
pub open spec fn prev_weekday(day: int) -> int {
    if is_weekday(day - 1) {
        day - 1
    } else if is_weekday(day - 2) {
        day - 2
    } else {
        day - 3
    }
}

/// The day `n` business days before `day`, stepping back over weekends.
pub open spec fn weekdays_back(day: int, n: nat) -> int
    decreases n,
{
    if n == 0 {
        day
    } else {
        weekdays_back(prev_weekday(day), (n - 1) as nat)
    }
}

/// Start of the rolling window of `days` business days ending at `now`:
/// `now` moved back by whole days to the same time of day on the `days`-th
/// business day before its own UTC day.
pub open spec fn window_cutoff(now: int, days: nat) -> int {
    let today = epoch_day_of(now);
    now - (today - weekdays_back(today, days)) * DAY_MICROS
}

proof fn lemma_weekday_period(d: int)
    ensures
        is_weekday(d - 7) == is_weekday(d),
{
    assert((d - 7 + 3) % 7 == (d + 3) % 7) by (nonlinear_arith);
}

/// Going back from a day a week earlier lands a week earlier.
proof fn lemma_back_shift(d: int, n: nat)
    ensures
        weekdays_back(d - 7, n) == weekdays_back(d, n) - 7,
    decreases n,
{
    if n > 0 {
        lemma_weekday_period(d - 1);
        lemma_weekday_period(d - 2);
        assert(prev_weekday(d - 7) == prev_weekday(d) - 7);
        lemma_back_shift(prev_weekday(d), (n - 1) as nat);
    }
}

/// Going back `a + b` business days is going back `a`, then `b`.
proof fn lemma_back_split(d: int, a: nat, b: nat)
    ensures
        weekdays_back(d, a + b) == weekdays_back(weekdays_back(d, a), b),
    decreases a,
{
    if a > 0 {
        lemma_back_split(prev_weekday(d), (a - 1) as nat, b);
        assert((a + b - 1) as nat == ((a - 1) as nat + b) as nat);
    }
}

/// The business day before `x`, by the weekday of `x`
/// (0 for Monday through 6 for Sunday).
proof fn lemma_prev(x: int)
    ensures
        ({
            let w = (x + 3) % 7;
            let p = prev_weekday(x);
            &&& 1 <= w <= 5 ==> p == x - 1 && (p + 3) % 7 == w - 1
            &&& w == 6 ==> p == x - 2 && (p + 3) % 7 == 4
            &&& w == 0 ==> p == x - 3 && (p + 3) % 7 == 4
        }),
{
    let w = (x + 3) % 7;
    assert(0 <= w < 7);
    assert((x - 1 + 3) % 7 == (if w == 0 { 6 } else { w - 1 })) by (nonlinear_arith)
        requires
            w == (x + 3) % 7,
            0 <= w < 7,
    ;
    assert((x - 2 + 3) % 7 == (if w >= 2 { w - 2 } else { w + 5 })) by (nonlinear_arith)
        requires
            w == (x + 3) % 7,
            0 <= w < 7,
    ;
    assert((x - 3 + 3) % 7 == (if w >= 3 { w - 3 } else { w + 4 })) by (nonlinear_arith)
        requires
            w == (x + 3) % 7,
            0 <= w < 7,
    ;
}

/// From a business day, five business days back is one week back.
proof fn lemma_back_week(d: int)
    requires
        is_weekday(d),
    ensures
        weekdays_back(d, 5) == d - 7,
{
    let d1 = prev_weekday(d);
    let d2 = prev_weekday(d1);
    let d3 = prev_weekday(d2);
    let d4 = prev_weekday(d3);
    let d5 = prev_weekday(d4);
    assert(weekdays_back(d4, 1) == d5) by {
        reveal_with_fuel(weekdays_back, 2);
    }
    assert(weekdays_back(d, 5) == d5) by {
        reveal_with_fuel(weekdays_back, 6);
    }
    lemma_prev(d);
    lemma_prev(d1);
    lemma_prev(d2);
    lemma_prev(d3);
    lemma_prev(d4);
}

/// From a business day, going back `5q + r` business days is going back
/// `r`, then `q` weeks.
proof fn lemma_back_weeks(d: int, q: nat, r: nat)
    requires
        is_weekday(d),
    ensures
        weekdays_back(d, 5 * q + r) == weekdays_back(d, r) - 7 * q,
    decreases q,
{
    if q > 0 {
        let q1 = (q - 1) as nat;
        assert(5 * q + r == 5 + (5 * q1 + r));
        lemma_back_split(d, 5, 5 * q1 + r);
        lemma_back_week(d);
        lemma_weekday_period(d);
        lemma_back_weeks(d - 7, q1, r);
        lemma_back_shift(d, r);
    }
}

/// Whether a UTC day is a business day.
fn is_weekday_exec(day: i64) -> (r: bool)
    requires
        -300_000_000 <= day <= 300_000_000,
    ensures
        r == is_weekday(day as int),
{
    let x: i64 = day + 350_000_003;
    let m: u64 = (x as u64) % 7;
    proof {
        assert((x as u64) as int == x as int);
        assert(m == (day + 3) % 7) by (nonlinear_arith)
            requires
                x == day + 350_000_003,
                x >= 0,
                m == x % 7,
        ;
    }
    m < 5
}

/// The nearest business day before `day`.
fn prev_weekday_exec(day: i64) -> (r: i64)
    requires
        -200_000_000 <= day <= 200_000_000,
    ensures
        r == prev_weekday(day as int),
        day - 3 <= r < day,
{
    if is_weekday_exec(day - 1) {
        day - 1
    } else if is_weekday_exec(day - 2) {
        day - 2
    } else {
        day - 3
    }
}

/// Trades that closed at or after `cutoff`.
pub open spec fn trades_since(trades: Seq<DayTradeRecord>, cutoff: int) -> nat
    decreases trades.len(),
{
    if trades.len() == 0 {
        0
    } else {
        trades_since(trades.drop_last(), cutoff) + if trades.last().close_time >= cutoff {
            1nat
        } else {
            0nat
        }
    }
}

proof fn lemma_trades_since_le(trades: Seq<DayTradeRecord>, cutoff: int)
    ensures
        trades_since(trades, cutoff) <= trades.len(),
    decreases trades.len(),
{
    if trades.len() > 0 {
        lemma_trades_since_le(trades.drop_last(), cutoff);
    }
}

/// The message for an exit held back by the PDT limit.
pub open spec fn pdt_hold_message(used: u32, max: u32, pnl_pct: i64, emergency: i64, win: i64) -> Seq<
    char,
> {
    "PDT limit ("@ + nat_text(used as nat) + "/"@ + nat_text(max as nat)
        + ") reached — holding overnight (pnl "@ + fixed_text(pnl_pct as int, 1)
        + "% not emergency loss ≥"@ + fixed_text(emergency as int, 0) + "% or exceptional win ≥"@
        + fixed_text(win as int, 0) + "%)"@
}

impl PdtTracker {
    pub open spec fn well_formed(&self) -> bool {
        fx_ok(self.emergency_stop_pct) && fx_ok(self.exceptional_win_pct)
    }

    /// Day trades in the window ending at `now` (microseconds), as a `u32`.
    pub open spec fn spec_count_at(&self, now: int) -> u32 {
        trades_since(self.day_trades@, window_cutoff(now, self.rolling_window_days as nat)) as u32
    }

    pub fn new(
        max_per_window: u32,
        rolling_window_days: u32,
        emergency_stop_pct: i64,
        exceptional_win_pct: i64,
    ) -> (r: PdtTracker)
        ensures
            r.day_trades@.len() == 0,
            r.max_per_window == max_per_window,
            r.rolling_window_days == rolling_window_days,
            r.emergency_stop_pct == emergency_stop_pct,
            r.exceptional_win_pct == exceptional_win_pct,
    {
        PdtTracker {
            day_trades: Vec::new(),
            max_per_window,
            rolling_window_days,
            emergency_stop_pct,
            exceptional_win_pct,
        }
    }

    /// Day trades that closed within the window ending at `now`.
    pub fn count_in_window_at(&self, now: i64) -> (r: u32)
        ensures
            r == self.spec_count_at(now as int),
    {
        let today = epoch_day(now);
        proof {
            assert(-110_000_000 <= today <= 110_000_000) by (nonlinear_arith)
                requires
                    today == (now as int) / 86_400_000_000,
                    i64::MIN <= now <= i64::MAX,
            ;
        }
        let n = self.rolling_window_days;
        // The first step lands on a business day; from there whole weeks
        // of five business days are seven calendar days each.
        let (first, m): (i64, u32) = if n == 0 {
            (today, 0)
        } else {
            (prev_weekday_exec(today), n - 1)
        };
        let q: u32 = m / 5;
        let rem: u32 = m % 5;
        let mut day = first;
        let mut k: u32 = 0;
        while k < rem
            invariant
                k <= rem < 5,
                -110_000_003 <= first <= 110_000_000,
                first - 3 * k <= day <= first,
                day == weekdays_back(first as int, k as nat),
            decreases rem - k,
        {
            proof {
                lemma_back_split(first as int, k as nat, 1);
                reveal_with_fuel(weekdays_back, 2);
            }
            day = prev_weekday_exec(day);
            k = k + 1;
        }
        proof {
            assert(5 * q + rem == m);
            if n == 0 {
                assert(weekdays_back(today as int, 0) == today);
            } else {
                lemma_prev(today as int);
                lemma_back_weeks(first as int, q as nat, rem as nat);
                assert(weekdays_back(today as int, n as nat) == weekdays_back(first as int, m as nat));
            }
        }
        let landing: i128 = (day as i128) - 7 * (q as i128);
        proof {
            assert(0 <= (today as i128) - landing <= 15 + 7 * 858_993_459);
            assert(((today as i128) - landing) * 86_400_000_000 <= (15 + 7 * 858_993_459) * 86_400_000_000)
                by (nonlinear_arith)
                requires
                    0 <= (today as i128) - landing <= 15 + 7 * 858_993_459,
            ;
        }
        let cutoff: i128 = (now as i128) - ((today as i128) - landing) * (DAY_MICROS as i128);
        proof {
            assert(landing == weekdays_back(today as int, self.rolling_window_days as nat));
        }
        let mut n: usize = 0;
        let mut i: usize = 0;
        while i < self.day_trades.len()
            invariant
                i <= self.day_trades.len(),
                cutoff == window_cutoff(now as int, self.rolling_window_days as nat),
                n == trades_since(self.day_trades@.subrange(0, i as int), cutoff as int),
                n <= i,
            decreases self.day_trades.len() - i,
        {
            proof {
                let pre = self.day_trades@.subrange(0, i + 1);
                assert(pre.drop_last() =~= self.day_trades@.subrange(0, i as int));
                assert(pre.last() == self.day_trades@[i as int]);
            }
            if (self.day_trades[i].close_time as i128) >= cutoff {
                n = n + 1;
            }
            i = i + 1;
        }
        proof {
            assert(self.day_trades@.subrange(0, i as int) =~= self.day_trades@);
        }
        #[verifier::truncate]
        (n as u32)
    }

    /// Day trades in the window ending now. When the clock cannot be read
    /// the window reaches back past every trade, so all of them count.
    pub fn count_in_window(&self) -> (r: u32)
        ensures
            (exists|now: int| now >= 0 && r == self.spec_count_at(now)) || r == self.spec_count_at(
                i64::MIN as int,
            ),
    {
        match utc_now() {
            Some(clock) => self.count_in_window_at(clock.micros),
            None => self.count_in_window_at(i64::MIN),
        }
    }

    /// Whether another day trade fits in the window ending at `now`.
    pub fn can_day_trade_at(&self, now: i64) -> (r: bool)
        ensures
            r == (self.spec_count_at(now as int) < self.max_per_window),
    {
        self.count_in_window_at(now) < self.max_per_window
    }

    /// Whether another day trade fits in the window ending now; when the
    /// clock cannot be read, every recorded trade counts against it.
    pub fn can_day_trade(&self) -> (r: bool)
        ensures
            (exists|now: int| now >= 0 && r == (self.spec_count_at(now) < self.max_per_window)) || r
                == (self.spec_count_at(i64::MIN as int) < self.max_per_window),
    {
        match utc_now() {
            Some(clock) => self.can_day_trade_at(clock.micros),
            None => self.can_day_trade_at(i64::MIN),
        }
    }

    /// Whether closing a position opened at `opened_at` at time `now` is a
    /// day trade: both fall on the same UTC date.
    pub fn would_be_day_trade_at(&self, opened_at: i64, now: i64) -> (r: bool)
        ensures
            r == (epoch_day_of(opened_at as int) == epoch_day_of(now as int)),
    {
        epoch_day(opened_at) == epoch_day(now)
    }

    /// Whether closing a position opened at `opened_at` now is a day trade;
    /// when the clock cannot be read it is taken to be one.
    pub fn would_be_day_trade(&self, opened_at: i64) -> (r: bool)
        ensures
            (exists|now: int| now >= 0 && r == (epoch_day_of(opened_at as int) == epoch_day_of(now)))
                || r,
    {
        match utc_now() {
            Some(clock) => self.would_be_day_trade_at(opened_at, clock.micros),
            None => self.would_be_day_trade_at(opened_at, opened_at),
        }
    }

    /// When an exit at `now` of a position opened at `opened_at` with
    /// `pnl_pct` (fixed-point percent of premium) is allowed: an overnight
    /// hold always; a day trade while the budget lasts; past the budget
    /// only an emergency loss or an exceptional win.
    pub open spec fn spec_exit_allowed(&self, opened_at: i64, pnl_pct: i64, now: i64) -> bool {
        ||| epoch_day_of(opened_at as int) != epoch_day_of(now as int)
        ||| self.spec_count_at(now as int) < self.max_per_window
        ||| -pnl_pct >= self.emergency_stop_pct
        ||| pnl_pct >= self.exceptional_win_pct
    }

    /// Checks an exit at `now` against the PDT limit; the error explains
    /// why the position is held overnight.
    pub fn check_exit_allowed_at(&self, opened_at: i64, pnl_pct: i64, now: i64) -> (r: Result<
        (),
        String,
    >)
        requires
            self.well_formed(),
            fx_ok(pnl_pct),
        ensures
            r is Ok <==> self.spec_exit_allowed(opened_at, pnl_pct, now),
            r matches Err(m) ==> m@ == pdt_hold_message(
                self.spec_count_at(now as int),
                self.max_per_window,
                pnl_pct,
                self.emergency_stop_pct,
                self.exceptional_win_pct,
            ),
    {
        if !self.would_be_day_trade_at(opened_at, now) {
            return Ok(());
        }
        if self.can_day_trade_at(now) {
            return Ok(());
        }
        let loss_pct = -pnl_pct;
        if loss_pct >= self.emergency_stop_pct {
            return Ok(());
        }
        if pnl_pct >= self.exceptional_win_pct {
            return Ok(());
        }
        let mut m = String::from_str("PDT limit (");
        push_u64(&mut m, self.count_in_window_at(now) as u64);
        m.append("/");
        push_u64(&mut m, self.max_per_window as u64);
        m.append(") reached — holding overnight (pnl ");
        push_fixed(&mut m, pnl_pct as i128, 1);
        m.append("% not emergency loss ≥");
        push_fixed(&mut m, self.emergency_stop_pct as i128, 0);
        m.append("% or exceptional win ≥");
        push_fixed(&mut m, self.exceptional_win_pct as i128, 0);
        m.append("%)");
        proof {
            reveal_strlit("PDT limit (");
            reveal_strlit("/");
            reveal_strlit(") reached — holding overnight (pnl ");
            reveal_strlit("% not emergency loss ≥");
            reveal_strlit("% or exceptional win ≥");
            reveal_strlit("%)");
            assert(m@ =~= pdt_hold_message(
                self.spec_count_at(now as int),
                self.max_per_window,
                pnl_pct,
                self.emergency_stop_pct,
                self.exceptional_win_pct,
            ));
        }
        Err(m)
    }

    /// Checks an exit now against the PDT limit. When the clock cannot be
    /// read the exit is judged as a day trade closing at its opening time.
    pub fn check_exit_allowed(&self, opened_at: i64, pnl_pct: i64) -> (r: Result<(), String>)
        requires
            self.well_formed(),
            fx_ok(pnl_pct),
        ensures
            (exists|now: i64| now >= 0 && (r is Ok <==> self.spec_exit_allowed(opened_at, pnl_pct, now)))
                || (r is Ok <==> self.spec_exit_allowed(opened_at, pnl_pct, opened_at)),
            (-pnl_pct >= self.emergency_stop_pct || pnl_pct >= self.exceptional_win_pct) ==> r is Ok,
    {
        match utc_now() {
            Some(clock) => self.check_exit_allowed_at(opened_at, pnl_pct, clock.micros),
            None => self.check_exit_allowed_at(opened_at, pnl_pct, opened_at),
        }
    }

    /// Records a completed day trade.
    pub fn record(&mut self, trade: DayTradeRecord)
        ensures
            final(self).day_trades@ == old(self).day_trades@.push(trade),
            final(self).max_per_window == old(self).max_per_window,
            final(self).rolling_window_days == old(self).rolling_window_days,
            final(self).emergency_stop_pct == old(self).emergency_stop_pct,
            final(self).exceptional_win_pct == old(self).exceptional_win_pct,
    {
        self.day_trades.push(trade);
    }
}

/// Recording a day trade that closed inside the window raises the window's
/// count by one; one that closed before it leaves the count unchanged.
pub proof fn record_counts_in_window(t: PdtTracker, trade: DayTradeRecord, now: int)
    ensures
        ({
            let cutoff = window_cutoff(now, t.rolling_window_days as nat);
            let after = trades_since(t.day_trades@.push(trade), cutoff);
            let before = trades_since(t.day_trades@, cutoff);
            &&& trade.close_time >= cutoff ==> after == before + 1
            &&& trade.close_time < cutoff ==> after == before
        }),
{
    let cutoff = window_cutoff(now, t.rolling_window_days as nat);
    assert(t.day_trades@.push(trade).drop_last() =~= t.day_trades@);
}

/// Business days in `[from, to)`.
pub open spec fn weekdays_in(from: int, to: int) -> nat
    decreases to - from,
{
    if to <= from {
        0
    } else {
        weekdays_in(from, to - 1) + if is_weekday(to - 1) { 1nat } else { 0nat }
    }
}

/// Saturdays and Sundays are the days 2 and 3 after a Thursday: day 0,
/// 1970-01-01, was a Thursday.
pub proof fn business_days_are_monday_to_friday(d: int)
    ensures
        is_weekday(d) <==> (d % 7 != 2 && d % 7 != 3),
{
    assert((d + 3) % 7 == (d % 7 + 3) % 7) by (nonlinear_arith);
}

proof fn lemma_one_weekday_back(x: int)
    ensures
        is_weekday(prev_weekday(x)),
        weekdays_in(prev_weekday(x), x) == 1,
        prev_weekday(x) < x,
{
    lemma_prev(x);
    let w = (x + 3) % 7;
    assert((x - 1 + 3) % 7 == (if w == 0 { 6 } else { w - 1 })) by (nonlinear_arith)
        requires
            w == (x + 3) % 7,
    ;
    assert((x - 2 + 3) % 7 == (if w >= 2 { w - 2 } else { w + 5 })) by (nonlinear_arith)
        requires
            w == (x + 3) % 7,
    ;
    let p = prev_weekday(x);
    reveal_with_fuel(weekdays_in, 4);
    assert(weekdays_in(p, p) == 0);
}

proof fn lemma_weekdays_in_split(a: int, b: int, c: int)
    requires
        a <= b <= c,
    ensures
        weekdays_in(a, c) == weekdays_in(a, b) + weekdays_in(b, c),
    decreases c - b,
{
    if b < c {
        lemma_weekdays_in_split(a, b, c - 1);
    }
}

/// The window of `n` business days ending on day `d` starts on a business
/// day and covers exactly `n` business days: `n` of the days from its
/// start up to (not including) `d` are Monday to Friday.
pub proof fn window_spans_business_days(d: int, n: nat)
    ensures
        weekdays_in(weekdays_back(d, n), d) == n,
        weekdays_back(d, n) <= d,
        n >= 1 ==> is_weekday(weekdays_back(d, n)),
    decreases n,
{
    if n > 0 {
        let p = prev_weekday(d);
        lemma_one_weekday_back(d);
        window_spans_business_days(p, (n - 1) as nat);
        assert(weekdays_back(d, n) == weekdays_back(p, (n - 1) as nat));
        lemma_weekdays_in_split(weekdays_back(p, (n - 1) as nat), p, d);
        if n == 1 {
            assert(weekdays_back(p, 0) == p);
        }
    }
}

/// The window ending at `now` starts at the same time of day as `now`, on
/// the day `n` business days back from `now`'s UTC day.
pub proof fn cutoff_is_n_business_days_back(now: int, n: nat)
    ensures
        window_cutoff(now, n) / 86_400_000_000 == weekdays_back(now / 86_400_000_000, n),
        window_cutoff(now, n) % 86_400_000_000 == now % 86_400_000_000,
{
    let today = now / 86_400_000_000;
    let k = today - weekdays_back(today, n);
    let c = window_cutoff(now, n);
    assert(c == now - k * 86_400_000_000);
    assert(c / 86_400_000_000 == today - k && c % 86_400_000_000 == now % 86_400_000_000) by (nonlinear_arith)
        requires
            c == now - k * 86_400_000_000,
            today == now / 86_400_000_000,
    ;
}

/// The window's count is the number of recorded day trades that closed at
/// or after the window's start.
pub proof fn count_is_trades_closed_in_window(trades: Seq<DayTradeRecord>, cutoff: int)
    ensures
        trades_since(trades, cutoff) == trades.filter(|t: DayTradeRecord| t.close_time >= cutoff).len(),
    decreases trades.len(),
{
    reveal(Seq::filter);
    if trades.len() > 0 {
        count_is_trades_closed_in_window(trades.drop_last(), cutoff);
    }
}

/// The PDT gate on an exit at `now`: a position opened on another UTC
/// day is never held; a same-day exit goes ahead while fewer day trades
/// than the maximum closed in the window; once the window is full, only a
/// loss of at least the emergency percentage or a gain of at least the
/// exceptional-win percentage may close the same day.
pub proof fn pdt_gate_rule(t: PdtTracker, opened_at: i64, pnl_pct: i64, now: i64)
    ensures
        ({
            let same_day = opened_at as int / 86_400_000_000 == now as int / 86_400_000_000;
            let full = t.spec_count_at(now as int) >= t.max_per_window;
            let allowed = t.spec_exit_allowed(opened_at, pnl_pct, now);
            &&& !same_day ==> allowed
            &&& same_day && !full ==> allowed
            &&& same_day && full ==> (allowed <==> (-pnl_pct >= t.emergency_stop_pct || pnl_pct
                >= t.exceptional_win_pct))
        }),
{
}

/// An exit of a position opened on an earlier day is never held back, and
/// a day trade is allowed exactly while the window has budget left or the
/// loss or gain is extreme.
pub proof fn overnight_exit_always_allowed(t: PdtTracker, opened_at: i64, pnl_pct: i64, now: i64)
    requires
        epoch_day_of(opened_at as int) < epoch_day_of(now as int),
    ensures
        t.spec_exit_allowed(opened_at, pnl_pct, now),
{
}

} // verus!
