//! The weekly review digest: which ISO week it covers, the thresholds it
//! measures near misses against, and its headline tallies.

use vstd::prelude::*;
use crate::clock::{has_iso_week_53, iso_monday_epoch_day, iso_week_monday};
use crate::fixed::fx_ok;
use crate::text::{
    is_digit, lemma_int_text_parse, lemma_nat_text_value, lemma_padded_parse,
    lemma_nat_text_len_pos,
    int_text, nat_text, parse_i32, parse_u32, push_i64, push_u64, spec_parse_i32,
    spec_parse_u32, str_eq, zero_pad,
};

verus! {

/// Trend regimes fire at this confluence score.
pub const TREND_MIN_SCORE: i32 = 6;
/// Range regimes fire at this confluence score.
pub const RANGE_MIN_SCORE: i32 = 6;
/// Choppy regimes fire at this confluence score (when allowed at all).
pub const CHOPPY_MIN_SCORE: i32 = 8;
/// Whether choppy regimes are traded.
pub const ALLOW_CHOPPY: bool = false;
/// Day trades allowed per rolling window.
pub const PDT_LIMIT: u32 = 2;

/// `s` holds `-W` at position `k`.
pub open spec fn sep_at(s: Seq<char>, k: int) -> bool {
    0 <= k && k + 1 < s.len() && s[k] == '-' && s[k + 1] == 'W'
}

/// Position of the first `-W` in `s`, if any.
pub open spec fn first_week_sep(s: Seq<char>) -> Option<int> {
    if exists|k: int| sep_at(s, k) {
        Some(choose|k: int| sep_at(s, k) && forall|j: int| 0 <= j < k ==> !#[trigger] sep_at(s, j))
    } else {
        None
    }
}

/// `YYYY-Www`: the text before the first `-W` read as an `i32`, the text
/// after it as a `u32`.
pub open spec fn spec_parse_iso_week(s: Seq<char>) -> Option<(i32, u32)> {
    match first_week_sep(s) {
        Some(k) => match (
            spec_parse_i32(s.subrange(0, k)),
            spec_parse_u32(s.subrange(k + 2, s.len() as int)),
        ) {
            (Some(y), Some(w)) => Some((y, w)),
            _ => None,
        },
        None => None,
    }
}

/// Parses a `--week` argument such as `2026-W17` into (year, week).
pub fn parse_iso_week(s: &str) -> (r: Option<(i32, u32)>)
    ensures
        r == spec_parse_iso_week(s@),
{
    let n = s.unicode_len();
    let mut k: usize = 0;
    while n >= 2 && k <= n - 2
        invariant
            n == s@.len(),
            forall|j: int| 0 <= j < k ==> !#[trigger] sep_at(s@, j),
        decreases n - k,
    {
        if s.get_char(k) == '-' && s.get_char(k + 1) == 'W' {
            proof {
                let kk = k as int;
                assert(sep_at(s@, kk));
                let c = choose|j: int|
                    sep_at(s@, j) && forall|i: int| 0 <= i < j ==> !#[trigger] sep_at(s@, i);
                assert(sep_at(s@, kk) && forall|i: int| 0 <= i < kk ==> !#[trigger] sep_at(s@, i));
                if c < kk {
                    assert(!sep_at(s@, c));
                }
                if kk < c {
                    assert(!sep_at(s@, kk));
                }
                assert(first_week_sep(s@) == Some(kk));
            }
            let y = parse_i32(s.substring_char(0, k));
            let w = parse_u32(s.substring_char(k + 2, n));
            return match (y, w) {
                (Some(y), Some(w)) => Some((y, w)),
                _ => None,
            };
        }
        k = k + 1;
    }
    proof {
        if exists|j: int| sep_at(s@, j) {
            let j = choose|j: int| sep_at(s@, j);
            assert(j < k);
            assert(!sep_at(s@, j));
        }
    }
    None
}

/// An ISO week written `YYYY-Www`: the year, `-W`, and the week padded
/// to two digits.
pub open spec fn spec_week_label(year: i32, week: u32) -> Seq<char> {
    int_text(year as int) + "-W"@ + zero_pad(nat_text(week as nat), 2)
}

/// The message for a week that does not exist: `invalid ISO week Y-Www`.
pub open spec fn invalid_week_message(year: i32, week: u32) -> Seq<char> {
    "invalid ISO week "@ + spec_week_label(year, week)
}

/// Appends the label `YYYY-Www` of an ISO week.
fn push_week_label(m: &mut String, year: i32, week: u32)
    ensures
        final(m)@ == old(m)@ + spec_week_label(year, week),
{
    let ghost start = m@;
    push_i64(m, year as i64);
    m.append("-W");
    if week < 10 {
        m.append("0");
    }
    push_u64(m, week as u64);
    proof {
        reveal_strlit("0");
        reveal_strlit("-W");
        if week < 10 {
            assert(nat_text(week as nat) == seq![(('0' as int) + week) as char]);
            assert(seq!['0'] + nat_text(week as nat) =~= zero_pad(nat_text(week as nat), 2));
        } else {
            lemma_two_digits(week as nat);
            assert(nat_text(week as nat) =~= zero_pad(nat_text(week as nat), 2));
        }
        assert(m@ =~= start + spec_week_label(year, week));
    }
}

/// The label `YYYY-Www` of an ISO week, as the report heads its title.
pub fn week_label(year: i32, week: u32) -> (r: String)
    ensures
        r@ == spec_week_label(year, week),
{
    let mut m = String::new();
    push_week_label(&mut m, year, week);
    proof {
        assert(m@ =~= spec_week_label(year, week));
    }
    m
}

/// Every ISO week label reads back as its year and week: the `--week`
/// argument accepts exactly what the report writes in its title.
#[verifier::spinoff_prover]
#[verifier::rlimit(30)]
pub proof fn week_label_round_trip(year: i32, week: u32)
    ensures
        spec_parse_iso_week(spec_week_label(year, week)) == Some((year, week)),
{
    let a = int_text(year as int);
    let b = zero_pad(nat_text(week as nat), 2);
    let s = spec_week_label(year, week);
    reveal_strlit("-W");
    let k = a.len() as int;
    lemma_int_text_parse(year);
    lemma_padded_parse(week);
    if year < 0 {
        lemma_nat_text_value((-(year as int)) as nat);
    } else {
        lemma_nat_text_value(year as nat);
    }
    assert(s =~= a + seq!['-', 'W'] + b);
    // Every character of the year after the first is a digit.
    assert forall|j: int| 1 <= j < k implies is_digit(#[trigger] a[j]) by {
        if year < 0 {
            assert(a[j] == nat_text((-(year as int)) as nat)[j - 1]);
        }
    }
    assert(sep_at(s, k));
    assert forall|j: int| 0 <= j < k implies !#[trigger] sep_at(s, j) by {
        if j + 1 < k {
            assert(s[j + 1] == a[j + 1]);
        } else {
            assert(s[j + 1] == '-');
        }
    }
    let c = choose|j: int| sep_at(s, j) && forall|i: int| 0 <= i < j ==> !#[trigger] sep_at(s, i);
    assert(sep_at(s, k) && forall|i: int| 0 <= i < k ==> !#[trigger] sep_at(s, i));
    if c < k {
        assert(!sep_at(s, c));
    }
    if k < c {
        assert(!sep_at(s, k));
    }
    assert(first_week_sep(s) == Some(k));
    assert(s.subrange(0, k) =~= a);
    assert(s.subrange(k + 2, s.len() as int) =~= b);
}

/// Monday, Sunday and Friday (day counts from 1970-01-01) of ISO week
/// `week` of `year`, or the error message when that week does not exist
/// (chrono's calendar ends long before the extreme `i32` years, which are
/// refused without asking it).
pub fn week_bounds(year: i32, week: u32) -> (r: Result<(i64, i64, i64), String>)
    ensures
        match r {
            Ok((mon, sun, fri)) => mon == iso_monday_epoch_day(year as int, week as int)
                && sun == mon + 6 && fri == mon + 4,
            Err(m) => m@ == invalid_week_message(year, week),
        },
        (week == 0 || week > 53) ==> r is Err,
        (1 <= year <= 9999 && 1 <= week <= 52) ==> r is Ok,
        (1 <= year <= 9999 && week == 53) ==> (r is Ok <==> has_iso_week_53(year as int)),
{
    let monday = if year == i32::MIN || year == i32::MAX {
        None
    } else {
        iso_week_monday(year, week)
    };
    match monday {
        Some(mon) if mon <= i64::MAX - 6 => Ok((mon, mon + 6, mon + 4)),
        _ => {
            let mut m = String::from_str("invalid ISO week ");
            push_week_label(&mut m, year, week);
            proof {
                reveal_strlit("invalid ISO week ");
                assert(m@ =~= invalid_week_message(year, week));
            }
            Err(m)
        },
    }
}

// ── Near misses and risk blocks ───────────────────────────────────────────────

/// A regime whose scans scoring one point under its threshold count as
/// near misses.
#[derive(Debug, Clone)]
pub struct NearMissTarget {
    pub regime: String,
    pub threshold: i32,
    /// The near-miss score: one under the threshold.
    pub score: i32,
}

/// The near-miss rows the report looks up, in table order: trending up,
/// trending down and range-bound at the trend and range thresholds, choppy
/// at the choppy threshold, each with the score one under it.
pub fn near_miss_targets() -> (r: Vec<NearMissTarget>)
    ensures
        r@.len() == 4,
        r@[0].regime@ == "trending_up"@ && r@[0].threshold == TREND_MIN_SCORE,
        r@[1].regime@ == "trending_down"@ && r@[1].threshold == TREND_MIN_SCORE,
        r@[2].regime@ == "range_bound"@ && r@[2].threshold == RANGE_MIN_SCORE,
        r@[3].regime@ == "choppy"@ && r@[3].threshold == CHOPPY_MIN_SCORE,
        forall|i: int| 0 <= i < 4 ==> #[trigger] r@[i].score == r@[i].threshold - 1,
{
    let mut r: Vec<NearMissTarget> = Vec::new();
    r.push(NearMissTarget { regime: String::from_str("trending_up"), threshold: TREND_MIN_SCORE, score: TREND_MIN_SCORE - 1 });
    r.push(NearMissTarget { regime: String::from_str("trending_down"), threshold: TREND_MIN_SCORE, score: TREND_MIN_SCORE - 1 });
    r.push(NearMissTarget { regime: String::from_str("range_bound"), threshold: RANGE_MIN_SCORE, score: RANGE_MIN_SCORE - 1 });
    r.push(NearMissTarget { regime: String::from_str("choppy"), threshold: CHOPPY_MIN_SCORE, score: CHOPPY_MIN_SCORE - 1 });
    r
}

/// How many risk-guard blocks of one category the week recorded.
#[derive(Debug, Clone)]
pub struct RiskBlockCount {
    pub category: String,
    pub count: i64,
}

/// `x` inserted into `s` after every element, counted from the end, whose
/// count is at least `x`'s: into a list ordered by count, largest first,
/// after the equal counts already there.
pub open spec fn insert_by_count(s: Seq<RiskBlockCount>, x: RiskBlockCount) -> Seq<RiskBlockCount>
    decreases s.len(),
{
    if s.len() == 0 || s.last().count >= x.count {
        s.push(x)
    } else {
        insert_by_count(s.drop_last(), x).push(s.last())
    }
}

/// The blocks ordered by count, largest first, equal counts keeping their
/// order (a stable sort on the count, descending).
pub open spec fn order_by_count(s: Seq<RiskBlockCount>) -> Seq<RiskBlockCount>
    decreases s.len(),
{
    if s.len() == 0 {
        s
    } else {
        insert_by_count(order_by_count(s.drop_last()), s.last())
    }
}

/// Counts never increase along `s`.
pub open spec fn counts_descending(s: Seq<RiskBlockCount>) -> bool {
    forall|i: int, j: int| 0 <= i < j < s.len() ==> #[trigger] s[i].count >= #[trigger] s[j].count
}

proof fn lemma_insert_by_count(s: Seq<RiskBlockCount>, x: RiskBlockCount)
    requires
        counts_descending(s),
    ensures
        counts_descending(insert_by_count(s, x)),
        insert_by_count(s, x).to_multiset() == s.to_multiset().insert(x),
        insert_by_count(s, x).len() == s.len() + 1,
    decreases s.len(),
{
    broadcast use vstd::seq_lib::group_to_multiset_ensures;
    if s.len() == 0 || s.last().count >= x.count {
        let t = s.push(x);
        assert forall|i: int, j: int| 0 <= i < j < t.len() implies #[trigger] t[i].count >= #[trigger] t[j].count by {
            if j == t.len() - 1 {
                assert(t[i] == s[i]);
                if i < s.len() - 1 {
                    assert(s[i].count >= s[s.len() - 1].count);
                }
            } else {
                assert(t[i] == s[i] && t[j] == s[j]);
            }
        }
    } else {
        let p = s.drop_last();
        let l = s.last();
        assert(counts_descending(p)) by {
            assert forall|i: int, j: int| 0 <= i < j < p.len() implies #[trigger] p[i].count >= #[trigger] p[j].count by {
                assert(p[i] == s[i] && p[j] == s[j]);
            }
        }
        lemma_insert_by_count(p, x);
        let q = insert_by_count(p, x);
        let t = q.push(l);
        assert(s =~= p.push(l));
        // Every element of q is x or an element of p, each at least l's count.
        assert forall|i: int| 0 <= i < q.len() implies #[trigger] q[i].count >= l.count by {
            assert(q.to_multiset().count(q[i]) > 0);
            assert(q.to_multiset() == p.to_multiset().insert(x));
            if q[i] != x {
                assert(p.to_multiset().count(q[i]) > 0);
                assert(p.contains(q[i]));
                let k = choose|k: int| 0 <= k < p.len() && p[k] == q[i];
                assert(p[k] == s[k]);
                assert(s[k].count >= s[s.len() - 1].count);
            }
        }
        assert forall|i: int, j: int| 0 <= i < j < t.len() implies #[trigger] t[i].count >= #[trigger] t[j].count by {
            if j == t.len() - 1 {
                assert(t[i] == q[i]);
            } else {
                assert(t[i] == q[i] && t[j] == q[j]);
            }
        }
        assert(t.to_multiset() == q.to_multiset().insert(l));
        assert(s.to_multiset() == p.to_multiset().insert(l));
        assert(t.to_multiset() =~= s.to_multiset().insert(x));
    }
}

proof fn lemma_order_by_count(s: Seq<RiskBlockCount>)
    ensures
        counts_descending(order_by_count(s)),
        order_by_count(s).to_multiset() == s.to_multiset(),
        order_by_count(s).len() == s.len(),
    decreases s.len(),
{
    broadcast use vstd::seq_lib::group_to_multiset_ensures;
    if s.len() > 0 {
        lemma_order_by_count(s.drop_last());
        lemma_insert_by_count(order_by_count(s.drop_last()), s.last());
        assert(s =~= s.drop_last().push(s.last()));
    }
}

/// Where `x` goes in `s`: after the trailing run of smaller counts.
proof fn lemma_insert_position(s: Seq<RiskBlockCount>, x: RiskBlockCount, j: int)
    requires
        0 <= j <= s.len(),
        forall|k: int| j <= k < s.len() ==> #[trigger] s[k].count < x.count,
        j == 0 || s[j - 1].count >= x.count,
    ensures
        insert_by_count(s, x) == s.insert(j, x),
    decreases s.len(),
{
    if s.len() == 0 || s.last().count >= x.count {
        assert(s.insert(j, x) =~= s.push(x));
    } else {
        let p = s.drop_last();
        lemma_insert_position(p, x, j);
        assert(p.insert(j, x).push(s.last()) =~= s.insert(j, x));
    }
}

/// The risk-guard blocks for the report's table: ordered by count, largest
/// first, equal counts in the order given.
pub fn order_risk_blocks(blocks: Vec<RiskBlockCount>) -> (r: Vec<RiskBlockCount>)
    ensures
        r@ == order_by_count(blocks@),
        counts_descending(r@),
        r@.to_multiset() == blocks@.to_multiset(),
{
    let mut out: Vec<RiskBlockCount> = Vec::new();
    let mut i: usize = 0;
    while i < blocks.len()
        invariant
            i <= blocks.len(),
            out@ == order_by_count(blocks@.subrange(0, i as int)),
        decreases blocks.len() - i,
    {
        let x = RiskBlockCount { category: blocks[i].category.clone(), count: blocks[i].count };
        proof {
            assert(x == blocks@[i as int]);
        }
        let mut j: usize = out.len();
        while j > 0 && out[j - 1].count < x.count
            invariant
                j <= out.len(),
                forall|k: int| j <= k < out@.len() ==> #[trigger] out@[k].count < x.count,
            decreases j,
        {
            j = j - 1;
        }
        proof {
            lemma_insert_position(out@, x, j as int);
            let pre = blocks@.subrange(0, i as int);
            assert(blocks@.subrange(0, i + 1).drop_last() =~= pre);
        }
        out.insert(j, x);
        i = i + 1;
    }
    proof {
        assert(blocks@.subrange(0, i as int) =~= blocks@);
        lemma_order_by_count(blocks@);
    }
    out
}

// ── Fills by day ──────────────────────────────────────────────────────────────

/// A fill of the week: its day (the first ten characters of its timestamp,
/// `?` when there are fewer), its side, and fixed-point quantity and price.
#[derive(Debug, Clone)]
pub struct FillRow {
    pub day: String,
    pub side: String,
    pub qty: i64,
    pub price: i64,
}

/// One day's fills: how many buys and sells, and their notional value
/// (quantity × price × 100 contracts' worth), exact with eight decimals.
#[derive(Debug, Clone)]
pub struct DayFills {
    pub day: String,
    pub buys: u64,
    pub sells: u64,
    pub buy_notional: i128,
    pub sell_notional: i128,
}

pub open spec fn is_buy(side: Seq<char>) -> bool {
    side == "buy"@
}

/// `a` sorts before `b` as Rust orders strings: by the first character
/// that differs, a proper prefix first.
pub open spec fn text_lt(a: Seq<char>, b: Seq<char>) -> bool
    decreases a.len(),
{
    if a.len() == 0 {
        b.len() > 0
    } else if b.len() == 0 {
        false
    } else if a[0] != b[0] {
        (a[0] as int) < (b[0] as int)
    } else {
        text_lt(a.drop_first(), b.drop_first())
    }
}

/// Whether a row falls on `day` and on the buy side (`buy`) or the sell side.
pub open spec fn on_day(r: FillRow, day: Seq<char>, buy: bool) -> bool {
    r.day@ == day && is_buy(r.side@) == buy
}

/// Fills of `rows` on `day` and side.
pub open spec fn day_count(rows: Seq<FillRow>, day: Seq<char>, buy: bool) -> nat
    decreases rows.len(),
{
    if rows.len() == 0 {
        0
    } else {
        day_count(rows.drop_last(), day, buy) + if on_day(rows.last(), day, buy) {
            1nat
        } else {
            0nat
        }
    }
}

/// A row's notional value, eight decimals.
pub open spec fn notional(r: FillRow) -> int {
    r.qty * r.price * 100
}

/// Notional value of the fills of `rows` on `day` and side.
pub open spec fn day_notional(rows: Seq<FillRow>, day: Seq<char>, buy: bool) -> int
    decreases rows.len(),
{
    if rows.len() == 0 {
        0
    } else {
        day_notional(rows.drop_last(), day, buy) + if on_day(rows.last(), day, buy) {
            notional(rows.last())
        } else {
            0
        }
    }
}

/// Every row's quantity and price lie in the fixed-point working range.
pub open spec fn rows_in_range(rows: Seq<FillRow>) -> bool {
    forall|k: int| 0 <= k < rows.len() ==> fx_ok(#[trigger] rows[k].qty) && fx_ok(rows[k].price)
}

/// Days strictly increasing.
pub open spec fn days_sorted(out: Seq<DayFills>) -> bool {
    forall|i: int, j: int| 0 <= i < j < out.len() ==> text_lt(out[i].day@, out[j].day@)
}

/// Some row falls on `day`.
pub open spec fn has_row_on(rows: Seq<FillRow>, day: Seq<char>) -> bool {
    exists|k: int| 0 <= k < rows.len() && rows[k].day@ == day
}

/// Some entry is for `day`.
pub open spec fn has_entry_for(out: Seq<DayFills>, day: Seq<char>) -> bool {
    exists|i: int| 0 <= i < out.len() && out[i].day@ == day
}

/// Every entry's day is the day of some row.
pub open spec fn days_from(rows: Seq<FillRow>, out: Seq<DayFills>) -> bool {
    forall|i: int| 0 <= i < out.len() ==> has_row_on(rows, #[trigger] out[i].day@)
}

/// Every row's day has an entry.
pub open spec fn days_cover(rows: Seq<FillRow>, out: Seq<DayFills>) -> bool {
    forall|k: int| 0 <= k < rows.len() ==> has_entry_for(out, #[trigger] rows[k].day@)
}

/// Every entry holds its day's totals.
pub open spec fn days_counted(rows: Seq<FillRow>, out: Seq<DayFills>) -> bool {
    forall|i: int|
        0 <= i < out.len() ==> {
            &&& #[trigger] out[i].buys == day_count(rows, out[i].day@, true)
            &&& out[i].sells == day_count(rows, out[i].day@, false)
            &&& out[i].buy_notional == day_notional(rows, out[i].day@, true)
            &&& out[i].sell_notional == day_notional(rows, out[i].day@, false)
        }
}

/// `out` holds one entry per distinct day of `rows`, days in increasing
/// order, each with that day's totals.
pub open spec fn day_totals(rows: Seq<FillRow>, out: Seq<DayFills>) -> bool {
    &&& days_sorted(out)
    &&& days_from(rows, out)
    &&& days_cover(rows, out)
    &&& days_counted(rows, out)
}

/// Fills counted over all entries, buys and sells.
pub open spec fn fills_counted(out: Seq<DayFills>) -> int
    decreases out.len(),
{
    if out.len() == 0 {
        0
    } else {
        fills_counted(out.drop_last()) + out.last().buys + out.last().sells
    }
}

proof fn lemma_counted_update(out: Seq<DayFills>, j: int, x: DayFills)
    requires
        0 <= j < out.len(),
    ensures
        fills_counted(out.update(j, x)) == fills_counted(out) - (out[j].buys + out[j].sells) + (x.buys
            + x.sells),
    decreases out.len(),
{
    let u = out.update(j, x);
    if j == out.len() - 1 {
        assert(u.drop_last() =~= out.drop_last());
    } else {
        lemma_counted_update(out.drop_last(), j, x);
        assert(u.drop_last() =~= out.drop_last().update(j, x));
        assert(u.last() == out.last());
    }
}

proof fn lemma_counted_insert(out: Seq<DayFills>, j: int, x: DayFills)
    requires
        0 <= j <= out.len(),
    ensures
        fills_counted(out.insert(j, x)) == fills_counted(out) + x.buys + x.sells,
    decreases out.len(),
{
    let u = out.insert(j, x);
    if j == out.len() {
        assert(u.drop_last() =~= out);
        assert(u.last() == x);
    } else {
        lemma_counted_insert(out.drop_last(), j, x);
        assert(u.drop_last() =~= out.drop_last().insert(j, x));
        assert(u.last() == out.last());
    }
}

proof fn lemma_text_lt_irreflexive(a: Seq<char>)
    ensures
        !text_lt(a, a),
    decreases a.len(),
{
    if a.len() > 0 {
        lemma_text_lt_irreflexive(a.drop_first());
    }
}

proof fn lemma_text_lt_transitive(a: Seq<char>, b: Seq<char>, c: Seq<char>)
    requires
        text_lt(a, b),
        text_lt(b, c),
    ensures
        text_lt(a, c),
    decreases a.len(),
{
    if a.len() > 0 && b.len() > 0 && c.len() > 0 && a[0] == b[0] && b[0] == c[0] {
        lemma_text_lt_transitive(a.drop_first(), b.drop_first(), c.drop_first());
    }
}

proof fn lemma_text_lt_total(a: Seq<char>, b: Seq<char>)
    requires
        a != b,
    ensures
        text_lt(a, b) || text_lt(b, a),
    decreases a.len(),
{
    if a.len() > 0 && b.len() > 0 && a[0] == b[0] {
        if a.drop_first() == b.drop_first() {
            assert(a =~= seq![a[0]] + a.drop_first());
            assert(b =~= seq![b[0]] + b.drop_first());
        }
        lemma_text_lt_total(a.drop_first(), b.drop_first());
    } else if a.len() == 0 && b.len() == 0 {
        assert(a =~= b);
    }
}

proof fn lemma_day_absent(rows: Seq<FillRow>, day: Seq<char>, buy: bool)
    requires
        forall|k: int| 0 <= k < rows.len() ==> #[trigger] rows[k].day@ != day,
    ensures
        day_count(rows, day, buy) == 0,
        day_notional(rows, day, buy) == 0,
    decreases rows.len(),
{
    if rows.len() > 0 {
        let p = rows.drop_last();
        assert forall|k: int| 0 <= k < p.len() implies #[trigger] p[k].day@ != day by {
            assert(p[k] == rows[k]);
        }
        assert(rows.last() == rows[rows.len() - 1]);
        lemma_day_absent(p, day, buy);
    }
}

proof fn lemma_day_bounds(rows: Seq<FillRow>, day: Seq<char>, buy: bool)
    requires
        rows_in_range(rows),
    ensures
        day_count(rows, day, buy) <= rows.len(),
        -(rows.len() * 100_000_000_000_000_000_000_000_000) <= day_notional(rows, day, buy) <= rows.len()
            * 100_000_000_000_000_000_000_000_000,
    decreases rows.len(),
{
    if rows.len() > 0 {
        let p = rows.drop_last();
        assert(rows_in_range(p)) by {
            assert forall|k: int| 0 <= k < p.len() implies fx_ok(#[trigger] p[k].qty) && fx_ok(p[k].price) by {
                assert(p[k] == rows[k]);
            }
        }
        lemma_day_bounds(p, day, buy);
        let r = rows.last();
        assert(r == rows[rows.len() - 1]);
        let q = r.qty as int;
        let pr = r.price as int;
        assert(-100_000_000_000_000_000_000_000_000 <= q * pr * 100 <= 100_000_000_000_000_000_000_000_000)
            by (nonlinear_arith)
            requires
                -1_000_000_000_000 <= q <= 1_000_000_000_000,
                -1_000_000_000_000 <= pr <= 1_000_000_000_000,
        ;
        assert(rows.len() * 100_000_000_000_000_000_000_000_000 == p.len()
            * 100_000_000_000_000_000_000_000_000 + 100_000_000_000_000_000_000_000_000)
            by (nonlinear_arith)
            requires
                rows.len() == p.len() + 1,
        ;
    }
}

/// `a` sorts before `b` as strings.
fn text_less(a: &str, b: &str) -> (r: bool)
    ensures
        r == text_lt(a@, b@),
{
    let n = a.unicode_len();
    let m = b.unicode_len();
    let mut i: usize = 0;
    proof {
        assert(a@.skip(0) =~= a@);
        assert(b@.skip(0) =~= b@);
    }
    while i < n && i < m
        invariant
            n == a@.len(),
            m == b@.len(),
            i <= n,
            i <= m,
            text_lt(a@, b@) == text_lt(a@.skip(i as int), b@.skip(i as int)),
        decreases n - i,
    {
        let x = a.get_char(i);
        let y = b.get_char(i);
        let ghost sa = a@.skip(i as int);
        let ghost sb = b@.skip(i as int);
        proof {
            assert(sa[0] == x);
            assert(sb[0] == y);
        }
        if x != y {
            return (x as u32) < (y as u32);
        }
        proof {
            assert(sa.drop_first() =~= a@.skip(i + 1));
            assert(sb.drop_first() =~= b@.skip(i + 1));
        }
        i = i + 1;
    }
    i == n && i < m
}

proof fn lemma_push_totals(pre: Seq<FillRow>, r: FillRow, day: Seq<char>, buy: bool)
    ensures
        day_count(pre.push(r), day, buy) == day_count(pre, day, buy) + if on_day(r, day, buy) {
            1nat
        } else {
            0nat
        },
        day_notional(pre.push(r), day, buy) == day_notional(pre, day, buy) + if on_day(r, day, buy) {
            notional(r)
        } else {
            0
        },
{
    assert(pre.push(r).drop_last() =~= pre);
}

proof fn lemma_update_step(pre: Seq<FillRow>, r: FillRow, old_out: Seq<DayFills>, out: Seq<DayFills>, j: int)
    requires
        day_totals(pre, old_out),
        0 <= j < old_out.len(),
        old_out[j].day@ == r.day@,
        out.len() == old_out.len(),
        forall|i: int| 0 <= i < out.len() && i != j ==> out[i] == old_out[i],
        out[j].day@ == r.day@,
        out[j].buys == old_out[j].buys + if is_buy(r.side@) { 1int } else { 0int },
        out[j].sells == old_out[j].sells + if is_buy(r.side@) { 0int } else { 1int },
        out[j].buy_notional == old_out[j].buy_notional + if is_buy(r.side@) { notional(r) } else { 0 },
        out[j].sell_notional == old_out[j].sell_notional + if is_buy(r.side@) { 0 } else { notional(r) },
    ensures
        day_totals(pre.push(r), out),
{
    let post = pre.push(r);
    let d = r.day@;
    assert forall|i: int| 0 <= i < out.len() && i != j implies #[trigger] out[i].day@ != d by {
        lemma_text_lt_irreflexive(d);
        if i < j {
            assert(text_lt(old_out[i].day@, old_out[j].day@));
        } else {
            assert(text_lt(old_out[j].day@, old_out[i].day@));
        }
    }
    assert forall|i: int, i2: int| 0 <= i < i2 < out.len() implies text_lt(out[i].day@, out[i2].day@) by {
        assert(out[i].day@ == old_out[i].day@);
        assert(out[i2].day@ == old_out[i2].day@);
    }
    assert forall|i: int| 0 <= i < out.len() implies has_row_on(post, #[trigger] out[i].day@) by {
        assert(out[i].day@ == old_out[i].day@);
        assert(has_row_on(pre, old_out[i].day@));
        let kk = choose|kk: int| 0 <= kk < pre.len() && pre[kk].day@ == old_out[i].day@;
        assert(post[kk] == pre[kk]);
    }
    assert forall|kk: int| 0 <= kk < post.len() implies has_entry_for(out, #[trigger] post[kk].day@) by {
        if kk < pre.len() {
            assert(post[kk] == pre[kk]);
            assert(has_entry_for(old_out, pre[kk].day@));
            let i = choose|i: int| 0 <= i < old_out.len() && old_out[i].day@ == pre[kk].day@;
            assert(out[i].day@ == old_out[i].day@);
        } else {
            assert(out[j].day@ == post[kk].day@);
        }
    }
    assert forall|i: int| 0 <= i < out.len() implies {
        &&& #[trigger] out[i].buys == day_count(post, out[i].day@, true)
        &&& out[i].sells == day_count(post, out[i].day@, false)
        &&& out[i].buy_notional == day_notional(post, out[i].day@, true)
        &&& out[i].sell_notional == day_notional(post, out[i].day@, false)
    } by {
        let x = out[i].day@;
        lemma_push_totals(pre, r, x, true);
        lemma_push_totals(pre, r, x, false);
        assert(old_out[i].buys == day_count(pre, old_out[i].day@, true));
        assert(old_out[i].day@ == x);
    }
}

proof fn lemma_insert_sorted(old_out: Seq<DayFills>, e: DayFills, j: int)
    requires
        days_sorted(old_out),
        0 <= j <= old_out.len(),
        forall|i: int| 0 <= i < j ==> text_lt(#[trigger] old_out[i].day@, e.day@),
        j < old_out.len() ==> text_lt(e.day@, old_out[j].day@),
    ensures
        days_sorted(old_out.insert(j, e)),
{
    let out = old_out.insert(j, e);
    let d = e.day@;
    assert forall|i: int, i2: int| 0 <= i < i2 < out.len() implies text_lt(out[i].day@, out[i2].day@) by {
        if i2 == j {
        } else if i == j {
            if i2 - 1 > j {
                lemma_text_lt_transitive(d, old_out[j].day@, old_out[i2 - 1].day@);
            }
        } else if i2 < j {
        } else if i > j {
        } else {
            if i2 - 1 > j {
                lemma_text_lt_transitive(old_out[i].day@, d, old_out[j].day@);
                lemma_text_lt_transitive(old_out[i].day@, old_out[j].day@, old_out[i2 - 1].day@);
            } else {
                lemma_text_lt_transitive(old_out[i].day@, d, old_out[j].day@);
            }
        }
    }
}

proof fn lemma_insert_days(
    pre: Seq<FillRow>,
    r: FillRow,
    old_out: Seq<DayFills>,
    e: DayFills,
    j: int,
    post: Seq<FillRow>,
    out: Seq<DayFills>,
)
    requires
        days_from(pre, old_out),
        days_cover(pre, old_out),
        0 <= j <= old_out.len(),
        e.day@ == r.day@,
        post == pre.push(r),
        out == old_out.insert(j, e),
    ensures
        days_from(post, out),
        days_cover(post, out),
{
    assert(out[j] == e);
    assert forall|i: int| 0 <= i < out.len() implies has_row_on(post, #[trigger] out[i].day@) by {
        if i == j {
            assert(post[pre.len() as int].day@ == r.day@);
        } else {
            let oi = if i < j { i } else { i - 1 };
            assert(out[i] == old_out[oi]);
            assert(has_row_on(pre, old_out[oi].day@));
            let kk = choose|kk: int| 0 <= kk < pre.len() && pre[kk].day@ == old_out[oi].day@;
            assert(post[kk] == pre[kk]);
        }
    }
    assert forall|kk: int| 0 <= kk < post.len() implies has_entry_for(out, #[trigger] post[kk].day@) by {
        if kk < pre.len() {
            assert(post[kk] == pre[kk]);
            assert(has_entry_for(old_out, pre[kk].day@));
            let oi = choose|oi: int| 0 <= oi < old_out.len() && old_out[oi].day@ == pre[kk].day@;
            if oi < j {
                assert(out[oi] == old_out[oi]);
            } else {
                assert(out[oi + 1] == old_out[oi]);
            }
        } else {
            assert(out[j].day@ == post[kk].day@);
        }
    }
}

proof fn lemma_insert_counted(pre: Seq<FillRow>, r: FillRow, old_out: Seq<DayFills>, e: DayFills, j: int)
    requires
        days_counted(pre, old_out),
        0 <= j <= old_out.len(),
        forall|i: int| 0 <= i < old_out.len() ==> #[trigger] old_out[i].day@ != r.day@,
        day_count(pre, r.day@, true) == 0,
        day_count(pre, r.day@, false) == 0,
        day_notional(pre, r.day@, true) == 0,
        day_notional(pre, r.day@, false) == 0,
        e.day@ == r.day@,
        e.buys == if is_buy(r.side@) { 1int } else { 0int },
        e.sells == if is_buy(r.side@) { 0int } else { 1int },
        e.buy_notional == if is_buy(r.side@) { notional(r) } else { 0 },
        e.sell_notional == if is_buy(r.side@) { 0 } else { notional(r) },
    ensures
        days_counted(pre.push(r), old_out.insert(j, e)),
{
    let post = pre.push(r);
    let out = old_out.insert(j, e);
    assert forall|i: int| 0 <= i < out.len() implies {
        &&& #[trigger] out[i].buys == day_count(post, out[i].day@, true)
        &&& out[i].sells == day_count(post, out[i].day@, false)
        &&& out[i].buy_notional == day_notional(post, out[i].day@, true)
        &&& out[i].sell_notional == day_notional(post, out[i].day@, false)
    } by {
        let x = out[i].day@;
        lemma_push_totals(pre, r, x, true);
        lemma_push_totals(pre, r, x, false);
        if i != j {
            let oi = if i < j { i } else { i - 1 };
            assert(out[i] == old_out[oi]);
            assert(old_out[oi].buys == day_count(pre, old_out[oi].day@, true));
            assert(old_out[oi].day@ != r.day@);
        }
    }
}

proof fn lemma_insert_step(pre: Seq<FillRow>, r: FillRow, old_out: Seq<DayFills>, e: DayFills, j: int)
    requires
        day_totals(pre, old_out),
        0 <= j <= old_out.len(),
        forall|i: int| 0 <= i < j ==> text_lt(#[trigger] old_out[i].day@, r.day@),
        j < old_out.len() ==> old_out[j].day@ != r.day@ && !text_lt(old_out[j].day@, r.day@),
        e.day@ == r.day@,
        e.buys == if is_buy(r.side@) { 1int } else { 0int },
        e.sells == if is_buy(r.side@) { 0int } else { 1int },
        e.buy_notional == if is_buy(r.side@) { notional(r) } else { 0 },
        e.sell_notional == if is_buy(r.side@) { 0 } else { notional(r) },
    ensures
        day_totals(pre.push(r), old_out.insert(j, e)),
{
    let d = r.day@;
    if j < old_out.len() {
        lemma_text_lt_total(d, old_out[j].day@);
    }
    assert forall|i: int| 0 <= i < old_out.len() implies #[trigger] old_out[i].day@ != d by {
        lemma_text_lt_irreflexive(d);
        if i > j && old_out[i].day@ == d {
            assert(text_lt(old_out[j].day@, old_out[i].day@));
            lemma_text_lt_transitive(d, old_out[j].day@, d);
        }
    }
    assert forall|kk: int| 0 <= kk < pre.len() implies #[trigger] pre[kk].day@ != d by {
        assert(has_entry_for(old_out, pre[kk].day@));
        let i = choose|i: int| 0 <= i < old_out.len() && old_out[i].day@ == pre[kk].day@;
        assert(old_out[i].day@ != d);
    }
    lemma_day_absent(pre, d, true);
    lemma_day_absent(pre, d, false);
    lemma_insert_sorted(old_out, e, j);
    lemma_insert_days(pre, r, old_out, e, j, pre.push(r), old_out.insert(j, e));
    lemma_insert_counted(pre, r, old_out, e, j);
}

/// Fills grouped by day, days in increasing order, with each day's buy
/// and sell counts and notionals; every fill is counted exactly once.
pub fn fills_by_day(rows: &Vec<FillRow>) -> (out: Vec<DayFills>)
    requires
        rows@.len() <= 1_000_000_000_000,
        rows_in_range(rows@),
    ensures
        day_totals(rows@, out@),
        fills_counted(out@) == rows@.len(),
{
    let mut out: Vec<DayFills> = Vec::new();
    let mut k: usize = 0;
    while k < rows.len()
        invariant
            k <= rows.len(),
            rows@.len() <= 1_000_000_000_000,
            rows_in_range(rows@),
            day_totals(rows@.subrange(0, k as int), out@),
            fills_counted(out@) == k,
        decreases rows.len() - k,
    {
        let ghost pre = rows@.subrange(0, k as int);
        let row = &rows[k];
        proof {
            assert(rows@.subrange(0, k + 1) =~= pre.push(rows@[k as int]));
            assert(rows_in_range(pre)) by {
                assert forall|kk: int| 0 <= kk < pre.len() implies fx_ok(#[trigger] pre[kk].qty) && fx_ok(pre[kk].price) by {
                    assert(pre[kk] == rows@[kk]);
                }
            }
            assert(fx_ok(rows@[k as int].qty) && fx_ok(rows@[k as int].price));
        }
        let mut j: usize = 0;
        while j < out.len() && text_less(out[j].day.as_str(), row.day.as_str())
            invariant
                j <= out.len(),
                forall|i: int| 0 <= i < j ==> text_lt(#[trigger] out@[i].day@, row.day@),
            decreases out.len() - j,
        {
            j = j + 1;
        }
        let ghost old_out = out@;
        let buy = str_eq(row.side.as_str(), "buy");
        proof {
            reveal_strlit("buy");
        }
        let q = row.qty as i128;
        let p = row.price as i128;
        proof {
            assert(-100_000_000_000_000_000_000_000_000 <= (q as int) * (p as int) * 100
                <= 100_000_000_000_000_000_000_000_000) by (nonlinear_arith)
                requires
                    -1_000_000_000_000 <= q <= 1_000_000_000_000,
                    -1_000_000_000_000 <= p <= 1_000_000_000_000,
            ;
        }
        let value: i128 = q * p * 100;
        if j < out.len() && str_eq(out[j].day.as_str(), row.day.as_str()) {
            let e = &out[j];
            proof {
                lemma_day_bounds(pre, e.day@, true);
                lemma_day_bounds(pre, e.day@, false);
            }
            let updated = if buy {
                DayFills {
                    day: e.day.clone(),
                    buys: e.buys + 1,
                    sells: e.sells,
                    buy_notional: e.buy_notional + value,
                    sell_notional: e.sell_notional,
                }
            } else {
                DayFills {
                    day: e.day.clone(),
                    buys: e.buys,
                    sells: e.sells + 1,
                    buy_notional: e.buy_notional,
                    sell_notional: e.sell_notional + value,
                }
            };
            out.set(j, updated);
            proof {
                lemma_counted_update(old_out, j as int, out@[j as int]);
                assert(out@ == old_out.update(j as int, out@[j as int]));
                let r = rows@[k as int];
                assert(day_totals(pre, old_out));
                assert(old_out[j as int].day@ == r.day@);
                assert(out@.len() == old_out.len());
                assert(forall|i: int| 0 <= i < out@.len() && i != j ==> out@[i] == old_out[i]);
                assert(out@[j as int].day@ == r.day@);
                assert(buy == is_buy(r.side@));
                assert(out@[j as int].buys == old_out[j as int].buys + if is_buy(r.side@) { 1int } else { 0int });
                assert(out@[j as int].sells == old_out[j as int].sells + if is_buy(r.side@) { 0int } else { 1int });
                assert(out@[j as int].buy_notional == old_out[j as int].buy_notional + if is_buy(r.side@) { notional(r) } else { 0 });
                assert(out@[j as int].sell_notional == old_out[j as int].sell_notional + if is_buy(r.side@) { 0 } else { notional(r) });
                lemma_update_step(pre, r, old_out, out@, j as int);
            }
        } else {
            let entry = if buy {
                DayFills { day: row.day.clone(), buys: 1, sells: 0, buy_notional: value, sell_notional: 0 }
            } else {
                DayFills { day: row.day.clone(), buys: 0, sells: 1, buy_notional: 0, sell_notional: value }
            };
            proof {
                lemma_insert_step(pre, rows@[k as int], old_out, entry, j as int);
                lemma_counted_insert(old_out, j as int, entry);
            }
            out.insert(j, entry);
        }
        k = k + 1;
    }
    proof {
        assert(rows@.subrange(0, k as int) =~= rows@);
    }
    out
}

proof fn lemma_two_digits(n: nat)
    requires
        n >= 10,
    ensures
        nat_text(n).len() >= 2,
    decreases n,
{
    let q = n / 10;
    lemma_nat_text_len_pos(q);
}

} // verus!
