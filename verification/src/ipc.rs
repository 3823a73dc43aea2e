//! The daemon's control protocol: starting and stopping the strategy
//! loops, switching the configured mode, and the figures it reports.

use vstd::prelude::*;
use crate::error::FerrumError;
use crate::clock::utc_now;
use crate::fixed::{fx_ok, SCALE};
use crate::strategy::{contract_direction, spec_contract_direction, OpenPositionMeta};
use crate::types::{BotStatus, Position};

verus! {

// ── Start / stop ──────────────────────────────────────────────────────────────

/// The supervisor state the control commands act on.
#[derive(Debug, Clone, Copy, PartialEq, Eq, Structural)]
pub struct ControlState {
    pub status: BotStatus,
    /// Strategy loops currently running.
    pub active_loops: u32,
}

/// How a control command is answered.
#[derive(Debug, Clone, PartialEq, Eq)]
pub enum ControlReply {
    /// Accepted; for a start, spawn the strategy loops; for a stop, wake them.
    Accepted,
    /// Refused with this message.
    Refused(String),
}

/// The state after `Start`, and whether it was accepted.
pub open spec fn spec_start(s: ControlState) -> (ControlState, bool) {
    if s.status == BotStatus::Running {
        (s, false)
    } else {
        (ControlState { status: BotStatus::Running, ..s }, true)
    }
}

/// The state after `Stop`, and whether it was accepted.
pub open spec fn spec_stop(s: ControlState) -> (ControlState, bool) {
    if s.status != BotStatus::Running {
        (s, false)
    } else {
        (ControlState { status: BotStatus::Stopping, ..s }, true)
    }
}

/// The state after a strategy loop exits.
pub open spec fn spec_loop_exit(s: ControlState) -> ControlState {
    let remaining = (s.active_loops - 1) as u32;
    if remaining == 0 {
        ControlState { status: BotStatus::Idle, active_loops: remaining }
    } else {
        ControlState { status: s.status, active_loops: remaining }
    }
}

impl ControlState {
    pub fn new() -> (r: ControlState)
        ensures
            r.status == BotStatus::Idle,
            r.active_loops == 0,
    {
        ControlState { status: BotStatus::Idle, active_loops: 0 }
    }

    /// `Start`: refused while running; otherwise the bot becomes running.
    pub fn start(&mut self) -> (r: ControlReply)
        ensures
            *final(self) == spec_start(*old(self)).0,
            spec_start(*old(self)).1 ==> r == ControlReply::Accepted,
            !spec_start(*old(self)).1 ==> (r matches ControlReply::Refused(m) && m@ == "already running"@),
    {
        if self.status == BotStatus::Running {
            return ControlReply::Refused(String::from_str("already running"));
        }
        self.status = BotStatus::Running;
        ControlReply::Accepted
    }

    /// `Stop`: refused unless running; otherwise the bot starts stopping.
    pub fn stop(&mut self) -> (r: ControlReply)
        ensures
            *final(self) == spec_stop(*old(self)).0,
            spec_stop(*old(self)).1 ==> r == ControlReply::Accepted,
            !spec_stop(*old(self)).1 ==> (r matches ControlReply::Refused(m) && m@ == "not running"@),
    {
        if self.status != BotStatus::Running {
            return ControlReply::Refused(String::from_str("not running"));
        }
        self.status = BotStatus::Stopping;
        ControlReply::Accepted
    }

    /// A strategy loop begins.
    pub fn loop_entered(&mut self)
        requires
            old(self).active_loops < u32::MAX,
        ensures
            final(self).active_loops == old(self).active_loops + 1,
            final(self).status == old(self).status,
    {
        self.active_loops = self.active_loops + 1;
    }

    /// A strategy loop ends; the last one out sets the bot idle. Returns the
    /// number of loops still running.
    pub fn loop_exited(&mut self) -> (remaining: u32)
        requires
            old(self).active_loops > 0,
        ensures
            *final(self) == spec_loop_exit(*old(self)),
            remaining == final(self).active_loops,
    {
        self.active_loops = self.active_loops - 1;
        if self.active_loops == 0 {
            self.status = BotStatus::Idle;
        }
        self.active_loops
    }
}

/// From idle, `Stop` is refused; `Start` is accepted and a second `Start`
/// refused; a `Stop` after the start is accepted and leaves the bot
/// stopping, and once its last loop exits the bot is idle again.
pub proof fn start_stop_cycle(s0: ControlState)
    requires
        s0.status == BotStatus::Idle,
        s0.active_loops == 1,
    ensures
        !spec_stop(s0).1,
        spec_start(s0).1,
        !spec_start(spec_start(s0).0).1,
        spec_stop(spec_start(s0).0).1,
        spec_stop(spec_start(s0).0).0.status == BotStatus::Stopping,
        spec_loop_exit(spec_stop(spec_start(s0).0).0).status == BotStatus::Idle,
{
}

/// Whatever the state, a start followed by a stop leaves the bot
/// stopping: a stop always takes effect after a start.
pub proof fn stop_after_start(s: ControlState)
    ensures
        spec_stop(spec_start(s).0).1,
        spec_stop(spec_start(s).0).0.status == BotStatus::Stopping,
{
}

// ── Strategy loop ─────────────────────────────────────────────────────────────

/// What a strategy loop does at the top of a cycle.
#[derive(Debug, Clone, Copy, PartialEq, Eq, Structural)]
pub enum LoopStep {
    /// The bot is stopping: leave the loop.
    Exit,
    /// Disabled or outside market hours: sleep until the next cycle.
    Sleep,
    /// Scan for signals.
    Scan,
}

/// The next step of a strategy loop.
pub fn loop_step(status: BotStatus, enabled: bool, market_open: bool) -> (r: LoopStep)
    ensures
        r == (if status == BotStatus::Stopping {
            LoopStep::Exit
        } else if !enabled || !market_open {
            LoopStep::Sleep
        } else {
            LoopStep::Scan
        }),
{
    if status == BotStatus::Stopping {
        LoopStep::Exit
    } else if !enabled || !market_open {
        LoopStep::Sleep
    } else {
        LoopStep::Scan
    }
}

/// What a strategy loop does with one signal of a scan.
#[derive(Debug, Clone, Copy, PartialEq, Eq, Structural)]
pub enum SignalStep {
    /// The risk guard refused the entry: log the block.
    Blocked,
    /// The entry passed, but the bot is no longer running: skip the order.
    NotRunning,
    /// Submit the signal's orders.
    Submit,
}

/// Decides a signal from the risk guard's verdict and the bot's status
/// after it: an order goes out only when the guard passed the entry and
/// the bot is running.
pub fn signal_step(verdict: &Result<(), FerrumError>, status: BotStatus) -> (r: SignalStep)
    ensures
        r == (if verdict is Err {
            SignalStep::Blocked
        } else if status != BotStatus::Running {
            SignalStep::NotRunning
        } else {
            SignalStep::Submit
        }),
        r == SignalStep::Submit <==> verdict is Ok && status == BotStatus::Running,
{
    match verdict {
        Err(_) => SignalStep::Blocked,
        Ok(()) => if status != BotStatus::Running {
            SignalStep::NotRunning
        } else {
            SignalStep::Submit
        },
    }
}

// ── Reported figures ──────────────────────────────────────────────────────────

/// Today's P&L from a daily equity series: the last value minus the one
/// before, or 0 with fewer than two values or an undefined one.
pub open spec fn spec_pnl_today(equity: Seq<Option<i64>>) -> int {
    if equity.len() >= 2 {
        match (equity[equity.len() - 1], equity[equity.len() - 2]) {
            (Some(last), Some(prev)) => last - prev,
            _ => 0,
        }
    } else {
        0
    }
}

/// Today's P&L in fixed-point dollars.
pub fn pnl_today(equity: &Vec<Option<i64>>) -> (r: i64)
    requires
        forall|i: int| 0 <= i < equity@.len() ==> match #[trigger] equity@[i] {
            Some(v) => fx_ok(v),
            None => true,
        },
    ensures
        r == spec_pnl_today(equity@),
{
    let n = equity.len();
    if n >= 2 {
        match (equity[n - 1], equity[n - 2]) {
            (Some(last), Some(prev)) => last - prev,
            _ => 0,
        }
    } else {
        0
    }
}

/// The last value of a series, or 0 when it is empty or undefined (the
/// month's and year's cumulative P&L).
pub fn last_or_zero(series: &Vec<Option<i64>>) -> (r: i64)
    ensures
        r == (if series@.len() > 0 {
            match series@.last() {
                Some(v) => v,
                None => 0,
            }
        } else {
            0
        }),
{
    let n = series.len();
    if n > 0 {
        match series[n - 1] {
            Some(v) => v,
            None => 0,
        }
    } else {
        0
    }
}

// ── Positions as shown to clients ─────────────────────────────────────────────

/// `a / b` rounded toward zero, as integer division in Rust does.
pub open spec fn trunc_div(a: int, b: int) -> int {
    if (a >= 0) == (b > 0) {
        (if a >= 0 { a } else { -a }) / (if b > 0 { b } else { -b })
    } else {
        -((if a >= 0 { a } else { -a }) / (if b > 0 { b } else { -b }))
    }
}

fn trunc_div_exec(a: i128, b: i128) -> (r: i128)
    requires
        b != 0,
        -0x1000_0000_0000_0000_0000_0000_0000_0000 <= a <= 0x1000_0000_0000_0000_0000_0000_0000_0000,
        -0x1000_0000_0000_0000_0000_0000_0000_0000 <= b <= 0x1000_0000_0000_0000_0000_0000_0000_0000,
    ensures
        r == trunc_div(a as int, b as int),
{
    let aa: i128 = if a >= 0 { a } else { -a };
    let bb: i128 = if b > 0 { b } else { -b };
    let q = aa / bb;
    if (a >= 0) == (b > 0) { q } else { -q }
}

/// Entry price per contract from the broker's cost basis: cost ÷ (qty ×
/// 100), or 0 for a zero quantity. Fixed-point, rounded toward zero.
pub open spec fn spec_entry_price(cost_basis: int, qty: int) -> int {
    if qty != 0 { trunc_div(cost_basis * SCALE, qty * 100) } else { 0 }
}

/// Market value: price × qty × 100, fixed-point, rounded toward zero.
pub open spec fn spec_market_value(current_price: int, qty: int) -> int {
    trunc_div(current_price * qty * 100, SCALE as int)
}

/// `r` shows the broker position with these figures: a position the
/// daemon tracks keeps its underlying, direction and opening time; an
/// untracked one is shown under its own symbol, as a call when the symbol
/// holds a `C`, and as opened at `now`.
pub open spec fn shows_position(
    r: Position,
    contract: Seq<char>,
    qty: i64,
    unrealized_pl: i64,
    unrealized_plpc: i64,
    current_price: i64,
    cost_basis: i64,
    known: Option<&OpenPositionMeta>,
    now: i64,
) -> bool {
    &&& r.contract@ == contract
    &&& r.qty == qty
    &&& r.unrealized_pl == unrealized_pl
    &&& r.unrealized_plpc == unrealized_plpc
    &&& r.current_price == current_price
    &&& r.entry_price == spec_entry_price(cost_basis as int, qty as int)
    &&& r.market_value == spec_market_value(current_price as int, qty as int)
    &&& match known {
        Some(m) => r.underlying@ == m.underlying@ && r.direction@ == m.direction@ && r.opened_at
            == m.opened_at,
        None => r.underlying@ == contract && r.direction@ == spec_contract_direction(contract)
            && r.opened_at == now,
    }
}

/// A broker position as shown to clients. A position the daemon tracks
/// keeps its underlying, direction and opening time; an untracked one is
/// stamped `now`. Numbers are fixed-point.
pub fn broker_position_at(
    contract: &str,
    qty: i64,
    unrealized_pl: i64,
    unrealized_plpc: i64,
    current_price: i64,
    cost_basis: i64,
    known: Option<&OpenPositionMeta>,
    now: i64,
) -> (r: Position)
    requires
        fx_ok(qty),
        fx_ok(current_price),
        fx_ok(cost_basis),
        i64::MIN <= spec_market_value(current_price as int, qty as int) <= i64::MAX,
    ensures
        shows_position(
            r,
            contract@,
            qty,
            unrealized_pl,
            unrealized_plpc,
            current_price,
            cost_basis,
            known,
            now,
        ),
{
    let entry_price: i64 = if qty != 0 {
        let e = trunc_div_exec((cost_basis as i128) * 10_000i128, (qty as i128) * 100);
        proof {
            let a = (cost_basis as int) * SCALE;
            let b = (qty as int) * 100;
            let aa = if a >= 0 { a } else { -a };
            let bb = if b > 0 { b } else { -b };
            assert(bb >= 100);
            assert(aa / bb <= aa) by (nonlinear_arith)
                requires
                    aa >= 0,
                    bb >= 1,
            ;
            assert(aa <= 10_000_000_000_000_000);
        }
        e as i64
    } else {
        0
    };
    proof {
        assert(-1_000_000_000_000_000_000_000_000 <= (current_price as int) * (qty as int)
            <= 1_000_000_000_000_000_000_000_000) by (nonlinear_arith)
            requires
                -1_000_000_000_000 <= current_price <= 1_000_000_000_000,
                -1_000_000_000_000 <= qty <= 1_000_000_000_000,
        ;
    }
    let market_value = trunc_div_exec((current_price as i128) * (qty as i128) * 100, 10_000) as i64;
    let (underlying, direction, opened_at) = match known {
        Some(m) => (m.underlying.clone(), m.direction.clone(), m.opened_at),
        None => (String::from_str(contract), String::from_str(contract_direction(contract)), now),
    };
    Position {
        contract: String::from_str(contract),
        underlying,
        direction,
        qty,
        entry_price,
        current_price,
        market_value,
        unrealized_pl,
        unrealized_plpc,
        opened_at,
    }
}

/// A broker position as shown to clients, untracked positions stamped
/// with the current time (the epoch, 0, when the clock cannot be read).
pub fn broker_position(
    contract: &str,
    qty: i64,
    unrealized_pl: i64,
    unrealized_plpc: i64,
    current_price: i64,
    cost_basis: i64,
    known: Option<&OpenPositionMeta>,
) -> (r: Position)
    requires
        fx_ok(qty),
        fx_ok(current_price),
        fx_ok(cost_basis),
        i64::MIN <= spec_market_value(current_price as int, qty as int) <= i64::MAX,
    ensures
        exists|now: i64|
            now >= 0 && shows_position(
                r,
                contract@,
                qty,
                unrealized_pl,
                unrealized_plpc,
                current_price,
                cost_basis,
                known,
                now,
            ),
{
    let now = match utc_now() {
        Some(clock) => clock.micros,
        None => 0,
    };
    broker_position_at(contract, qty, unrealized_pl, unrealized_plpc, current_price, cost_basis, known, now)
}

// ── Mode switch in the config file ────────────────────────────────────────────

/// Characters with the Unicode `White_Space` property (what
/// `char::is_whitespace` accepts).
pub open spec fn is_ws(c: char) -> bool {
    ||| ('\t' <= c && c <= '\r')
    ||| c == ' '
    ||| c == '\u{85}'
    ||| c == '\u{A0}'
    ||| c == '\u{1680}'
    ||| ('\u{2000}' <= c && c <= '\u{200A}')
    ||| c == '\u{2028}'
    ||| c == '\u{2029}'
    ||| c == '\u{202F}'
    ||| c == '\u{205F}'
    ||| c == '\u{3000}'
}

fn is_ws_exec(c: char) -> (r: bool)
    ensures
        r == is_ws(c),
{
    ('\t' <= c && c <= '\r') || c == ' ' || c == '\u{85}' || c == '\u{A0}' || c == '\u{1680}' || (
    '\u{2000}' <= c && c <= '\u{200A}') || c == '\u{2028}' || c == '\u{2029}' || c == '\u{202F}'
        || c == '\u{205F}' || c == '\u{3000}'
}

/// `k` is the position of the first `c` in `s`.
pub open spec fn is_first_index(s: Seq<char>, c: char, k: int) -> bool {
    0 <= k < s.len() && s[k] == c && !s.subrange(0, k).contains(c)
}

/// Position of the first `c` in `s`, if any.
pub open spec fn first_index_of(s: Seq<char>, c: char) -> Option<int> {
    if exists|k: int| is_first_index(s, c, k) {
        Some(choose|k: int| is_first_index(s, c, k))
    } else {
        None
    }
}

/// Position of the first `c` in `s`.
fn find_char(s: &str, c: char) -> (r: Option<usize>)
    ensures
        r matches Some(k) ==> k < s@.len() && first_index_of(s@, c) == Some(k as int),
        r is None ==> first_index_of(s@, c) is None,
{
    let n = s.unicode_len();
    let mut k: usize = 0;
    while k < n
        invariant
            n == s@.len(),
            k <= n,
            !s@.subrange(0, k as int).contains(c),
        decreases n - k,
    {
        if s.get_char(k) == c {
            proof {
                let kk = k as int;
                assert(s@.contains(c)) by {
                    assert(s@[kk] == c);
                }
                assert(is_first_index(s@, c, kk));
                let j = choose|j: int| is_first_index(s@, c, j);
                assert(j == kk) by {
                    if j < kk {
                        assert(s@.subrange(0, kk)[j] == c);
                        assert(s@.subrange(0, kk).contains(c));
                    }
                    if kk < j {
                        assert(s@.subrange(0, j)[kk] == c);
                        assert(s@.subrange(0, j).contains(c));
                    }
                }
                assert(first_index_of(s@, c) == Some(kk));
            }
            return Some(k);
        }
        proof {
            let next = s@.subrange(0, k + 1);
            assert forall|i: int| 0 <= i < k + 1 implies #[trigger] next[i] != c by {
                if i < k {
                    assert(next[i] == s@.subrange(0, k as int)[i]);
                }
            }
        }
        k = k + 1;
    }
    proof {
        assert(s@.subrange(0, k as int) =~= s@);
        if exists|j: int| is_first_index(s@, c, j) {
            let j = choose|j: int| is_first_index(s@, c, j);
            assert(s@.contains(c)) by {
                assert(s@[j] == c);
            }
        }
    }
    None
}

/// A line with one trailing `\r` removed.
pub open spec fn strip_cr(l: Seq<char>) -> Seq<char> {
    if l.len() > 0 && l.last() == '\r' { l.drop_last() } else { l }
}

/// The lines of a text as `str::lines` yields them: split after each
/// `\n`, with the `\n` and a `\r` just before it removed; a final line
/// without `\n` is kept as it is; no line follows a final `\n`.
pub open spec fn spec_lines(s: Seq<char>) -> Seq<Seq<char>>
    decreases s.len(),
{
    if s.len() == 0 {
        seq![]
    } else {
        match first_index_of(s, '\n') {
            Some(i) => if 0 <= i < s.len() {
                seq![strip_cr(s.subrange(0, i))] + spec_lines(s.subrange(i + 1, s.len() as int))
            } else {
                seq![]
            },
            None => seq![s],
        }
    }
}

/// Number of leading whitespace characters.
pub open spec fn leading_ws(l: Seq<char>) -> nat
    decreases l.len(),
{
    if l.len() > 0 && is_ws(l[0]) {
        1 + leading_ws(l.drop_first())
    } else {
        0
    }
}

/// A line that sets the mode: after leading whitespace it starts with
/// `mode`, and it holds an `=`.
pub open spec fn is_mode_line(l: Seq<char>) -> bool {
    let t = l.subrange(leading_ws(l) as int, l.len() as int);
    t.len() >= 4 && t.subrange(0, 4) == "mode"@ && l.contains('=')
}

/// A mode line becomes `mode = "<mode>"`; other lines stay.
pub open spec fn rewrite_line(l: Seq<char>, mode: Seq<char>) -> Seq<char> {
    if is_mode_line(l) {
        "mode = \""@ + mode + "\""@
    } else {
        l
    }
}

/// Lines joined with `\n` between them.
pub open spec fn join_lines(ls: Seq<Seq<char>>) -> Seq<char>
    decreases ls.len(),
{
    if ls.len() == 0 {
        Seq::<char>::empty()
    } else if ls.len() == 1 {
        ls[0]
    } else {
        join_lines(ls.drop_last()) + seq!['\n'] + ls.last()
    }
}

/// The config text with every mode line set to `mode`, joined with `\n`
/// and ending in `\n`.
pub open spec fn spec_toggle_mode(content: Seq<char>, mode: Seq<char>) -> Seq<char> {
    join_lines(spec_lines(content).map_values(|l: Seq<char>| rewrite_line(l, mode))) + seq!['\n']
}

proof fn lemma_leading_ws_bound(l: Seq<char>)
    ensures
        leading_ws(l) <= l.len(),
    decreases l.len(),
{
    if l.len() > 0 && is_ws(l[0]) {
        lemma_leading_ws_bound(l.drop_first());
    }
}

/// Rewrites one line.
fn rewrite_config_line(l: &str, mode: &str) -> (r: String)
    ensures
        r@ == rewrite_line(l@, mode@),
{
    let n = l.unicode_len();
    let mut k: usize = 0;
    proof {
        lemma_leading_ws_bound(l@);
        assert(l@.subrange(0, n as int) =~= l@);
    }
    while k < n && is_ws_exec(l.get_char(k))
        invariant
            n == l@.len(),
            k <= n,
            leading_ws(l@) == k + leading_ws(l@.subrange(k as int, n as int)),
        decreases n - k,
    {
        proof {
            let rest = l@.subrange(k as int, n as int);
            assert(rest[0] == l@[k as int]);
            assert(rest.drop_first() =~= l@.subrange(k + 1, n as int));
        }
        k = k + 1;
    }
    proof {
        let rest = l@.subrange(k as int, n as int);
        if k < n {
            assert(rest[0] == l@[k as int]);
        }
        assert(leading_ws(rest) == 0);
    }
    let starts = n - k >= 4 && l.get_char(k) == 'm' && l.get_char(k + 1) == 'o' && l.get_char(k + 2)
        == 'd' && l.get_char(k + 3) == 'e';
    let is_mode = starts && crate::text::has_char(l, '=');
    proof {
        reveal_strlit("mode");
        let t = l@.subrange(k as int, n as int);
        if n - k >= 4 {
            let t4 = t.subrange(0, 4);
            assert(t4[0] == l@[k as int]);
            assert(t4[1] == l@[k + 1]);
            assert(t4[2] == l@[k + 2]);
            assert(t4[3] == l@[k + 3]);
            if starts {
                assert(t4 =~= "mode"@);
            } else {
                assert(t4 != "mode"@) by {
                    if t4 == "mode"@ {
                        assert(t4[0] == 'm' && t4[1] == 'o' && t4[2] == 'd' && t4[3] == 'e');
                    }
                }
            }
        }
    }
    if is_mode {
        let mut out = String::from_str("mode = \"");
        out.append(mode);
        out.append("\"");
        out
    } else {
        String::from_str(l)
    }
}

/// The lines of `s` (as `str::lines` splits them), each rewritten.
fn rewritten_lines(s: &str, mode: &str) -> (r: Vec<String>)
    ensures
        crate::text::views(r@) == spec_lines(s@).map_values(|l: Seq<char>| rewrite_line(l, mode@)),
    decreases s@.len(),
{
    let n = s.unicode_len();
    if n == 0 {
        proof {
            assert(crate::text::views(Seq::<String>::empty()) =~= spec_lines(s@).map_values(
                |l: Seq<char>| rewrite_line(l, mode@),
            ));
        }
        return Vec::new();
    }
    match find_char(s, '\n') {
        Some(i) => {
            let line = s.substring_char(0, i);
            let m = line.unicode_len();
            let stripped = if m > 0 && line.get_char(m - 1) == '\r' {
                line.substring_char(0, m - 1)
            } else {
                line
            };
            proof {
                if m > 0 && line@[m - 1] == '\r' {
                    assert(stripped@ =~= strip_cr(line@));
                }
            }
            let first = rewrite_config_line(stripped, mode);
            let rest = s.substring_char(i + 1, n);
            let mut tail = rewritten_lines(rest, mode);
            let ghost tail_views = crate::text::views(tail@);
            let ghost first_view = first@;
            let mut v: Vec<String> = Vec::new();
            v.push(first);
            let ghost head = v@;
            v.append(&mut tail);
            proof {
                let f = |l: Seq<char>| rewrite_line(l, mode@);
                assert(spec_lines(s@) == seq![strip_cr(s@.subrange(0, i as int))] + spec_lines(
                    s@.subrange(i + 1, s@.len() as int),
                ));
                assert(line@ == s@.subrange(0, i as int));
                assert(rest@ == s@.subrange(i + 1, s@.len() as int));
                assert(first_view == f(strip_cr(s@.subrange(0, i as int))));
                assert(spec_lines(s@).map_values(f) =~= seq![f(strip_cr(s@.subrange(0, i as int)))]
                    + spec_lines(rest@).map_values(f));
                assert(crate::text::views(v@) =~= seq![first_view] + tail_views);
                assert(crate::text::views(v@) =~= spec_lines(s@).map_values(f));
            }
            v
        },
        None => {
            let mut v: Vec<String> = Vec::new();
            v.push(rewrite_config_line(s, mode));
            proof {
                assert(crate::text::views(v@) =~= spec_lines(s@).map_values(
                    |l: Seq<char>| rewrite_line(l, mode@),
                ));
            }
            v
        },
    }
}

/// Sets the `mode` line(s) of a TOML config text to `mode`.
pub fn toggle_mode_in_config(content: &str, mode: &str) -> (r: String)
    ensures
        r@ == spec_toggle_mode(content@, mode@),
{
    let lines = rewritten_lines(content, mode);
    let ghost ls = crate::text::views(lines@);
    let mut out = String::new();
    let mut i: usize = 0;
    while i < lines.len()
        invariant
            i <= lines.len(),
            ls == crate::text::views(lines@),
            out@ == join_lines(ls.subrange(0, i as int)),
        decreases lines.len() - i,
    {
        proof {
            let pre = ls.subrange(0, i + 1);
            assert(pre.drop_last() =~= ls.subrange(0, i as int));
            assert(pre.last() == lines@[i as int]@);
            if i == 0 {
                assert(pre.len() == 1);
            }
        }
        if i > 0 {
            out.append("\n");
            proof {
                reveal_strlit("\n");
            }
        }
        out.append(lines[i].as_str());
        proof {
            let pre = ls.subrange(0, i + 1);
            if i == 0 {
                assert(out@ =~= pre[0]);
            } else {
                assert(out@ =~= join_lines(pre.drop_last()) + seq!['\n'] + pre.last());
            }
        }
        i = i + 1;
    }
    out.append("\n");
    proof {
        reveal_strlit("\n");
        assert(ls.subrange(0, i as int) =~= ls);
        assert(out@ =~= spec_toggle_mode(content@, mode@));
    }
    out
}

// ── Toggling the mode twice ───────────────────────────────────────────────────

proof fn lemma_first_index_after(a: Seq<char>, rest: Seq<char>)
    requires
        !a.contains('\n'),
    ensures
        first_index_of(a + seq!['\n'] + rest, '\n') == Some(a.len() as int),
{
    let s = a + seq!['\n'] + rest;
    let k = a.len() as int;
    assert(s.subrange(0, k) =~= a);
    assert(is_first_index(s, '\n', k));
    let c = choose|c: int| is_first_index(s, '\n', c);
    if c < k {
        assert(s[c] == a[c]);
    } else if c > k {
        assert(s.subrange(0, c)[k] == '\n');
    }
}

proof fn lemma_first_index_exists(s: Seq<char>, c: char)
    requires
        s.contains(c),
    ensures
        first_index_of(s, c) is Some,
    decreases s.len(),
{
    let p = s.drop_last();
    if p.contains(c) {
        lemma_first_index_exists(p, c);
        let k = choose|k: int| is_first_index(p, c, k);
        assert(s.subrange(0, k) =~= p.subrange(0, k));
        assert(is_first_index(s, c, k));
    } else {
        let k = s.len() - 1;
        assert(s.subrange(0, k) =~= p);
        let j = choose|j: int| 0 <= j < s.len() && s[j] == c;
        if j < k {
            assert(p[j] == c);
        }
        assert(is_first_index(s, c, k));
    }
}

proof fn lemma_join_cons(ls: Seq<Seq<char>>)
    requires
        ls.len() >= 2,
    ensures
        join_lines(ls) == ls[0] + seq!['\n'] + join_lines(ls.drop_first()),
    decreases ls.len(),
{
    if ls.len() == 2 {
        assert(join_lines(ls.drop_last()) == ls.drop_last()[0]);
        assert(ls.drop_last()[0] == ls[0]);
        assert(join_lines(ls.drop_first()) == ls.drop_first()[0]);
        assert(ls.drop_first()[0] == ls.last());
        assert(join_lines(ls) =~= ls[0] + seq!['\n'] + join_lines(ls.drop_first()));
    } else {
        lemma_join_cons(ls.drop_last());
        assert(ls.drop_last().drop_first() =~= ls.drop_first().drop_last());
        assert(ls.drop_first().last() == ls.last());
        assert(ls.drop_last()[0] == ls[0]);
        assert(join_lines(ls.drop_first()) == join_lines(ls.drop_first().drop_last()) + seq!['\n']
            + ls.drop_first().last());
        assert(join_lines(ls) =~= ls[0] + seq!['\n'] + join_lines(ls.drop_first()));
    }
}

/// A line that can be split off again unchanged: no `\n`, no final `\r`.
pub open spec fn plain_line(l: Seq<char>) -> bool {
    !l.contains('\n') && !(l.len() > 0 && l.last() == '\r')
}

proof fn lemma_lines_of_join(ls: Seq<Seq<char>>)
    requires
        ls.len() >= 1,
        forall|i: int| 0 <= i < ls.len() ==> plain_line(#[trigger] ls[i]),
    ensures
        spec_lines(join_lines(ls) + seq!['\n']) == ls,
    decreases ls.len(),
{
    let head = ls[0];
    if ls.len() == 1 {
        let s = join_lines(ls) + seq!['\n'];
        assert(s =~= head + seq!['\n'] + Seq::<char>::empty());
        lemma_first_index_after(head, Seq::<char>::empty());
        assert(plain_line(ls[0]));
        assert(strip_cr(head) == head);
        assert(s.subrange(0, head.len() as int) =~= head);
        let tail = s.subrange(head.len() as int + 1, s.len() as int);
        assert(tail.len() == 0);
        assert(spec_lines(tail) == Seq::<Seq<char>>::empty());
        assert(spec_lines(s) == seq![strip_cr(head)] + spec_lines(tail));
        assert(spec_lines(s) =~= ls);
    } else {
        let rest = ls.drop_first();
        assert forall|i: int| 0 <= i < rest.len() implies plain_line(#[trigger] rest[i]) by {
            assert(rest[i] == ls[i + 1]);
        }
        lemma_lines_of_join(rest);
        lemma_join_cons(ls);
        let tail = join_lines(rest) + seq!['\n'];
        let s = join_lines(ls) + seq!['\n'];
        assert(s =~= head + seq!['\n'] + tail);
        lemma_first_index_after(head, tail);
        assert(plain_line(ls[0]));
        assert(strip_cr(head) == head);
        assert(s.subrange(0, head.len() as int) =~= head);
        assert(s.subrange(head.len() as int + 1, s.len() as int) =~= tail);
        assert(spec_lines(s) == seq![strip_cr(head)] + spec_lines(tail));
        assert(spec_lines(s) =~= seq![head] + rest);
        assert(ls =~= seq![head] + rest);
    }
}

proof fn lemma_lines_plain(s: Seq<char>)
    requires
        !s.contains('\r'),
    ensures
        forall|i: int| 0 <= i < spec_lines(s).len() ==> plain_line(#[trigger] spec_lines(s)[i])
            && !spec_lines(s)[i].contains('\r'),
    decreases s.len(),
{
    if s.len() > 0 {
        match first_index_of(s, '\n') {
            Some(i) => {
                if 0 <= i < s.len() {
                    let head = s.subrange(0, i);
                    let tail = s.subrange(i + 1, s.len() as int);
                    assert(is_first_index(s, '\n', i));
                    assert(!tail.contains('\r')) by {
                        if tail.contains('\r') {
                            let j = choose|j: int| 0 <= j < tail.len() && tail[j] == '\r';
                            assert(s[i + 1 + j] == '\r');
                        }
                    }
                    assert(!head.contains('\r')) by {
                        if head.contains('\r') {
                            let j = choose|j: int| 0 <= j < head.len() && head[j] == '\r';
                            assert(s[j] == '\r');
                        }
                    }
                    lemma_lines_plain(tail);
                    assert(strip_cr(head) == head) by {
                        if head.len() > 0 {
                            assert(head[head.len() - 1] != '\r');
                        }
                    }
                    let ls = spec_lines(s);
                    assert(ls == seq![head] + spec_lines(tail));
                    assert forall|k: int| 0 <= k < ls.len() implies plain_line(#[trigger] ls[k])
                        && !ls[k].contains('\r') by {
                        if k > 0 {
                            assert(ls[k] == spec_lines(tail)[k - 1]);
                        } else {
                            if head.len() > 0 {
                                assert(head[head.len() - 1] != '\r');
                            }
                        }
                    }
                }
            },
            None => {
                if s.contains('\n') {
                    lemma_first_index_exists(s, '\n');
                }
                if s.len() > 0 {
                    assert(s[s.len() - 1] != '\r');
                }
                assert(spec_lines(s) == seq![s]);
            },
        }
    }
}

proof fn lemma_rewrite_idempotent(l: Seq<char>, mode: Seq<char>)
    requires
        !mode.contains('\n'),
        !mode.contains('\r'),
        !l.contains('\r'),
        !l.contains('\n'),
    ensures
        rewrite_line(rewrite_line(l, mode), mode) == rewrite_line(l, mode),
        plain_line(rewrite_line(l, mode)),
{
    reveal_strlit("mode = \"");
    reveal_strlit("\"");
    reveal_strlit("mode");
    if is_mode_line(l) {
        let r = "mode = \""@ + mode + "\""@;
        assert(r[0] == 'm');
        assert(!is_ws(r[0]));
        assert(leading_ws(r) == 0);
        assert(r.subrange(0, r.len() as int) =~= r);
        assert(r.subrange(0, 4) =~= "mode"@);
        assert(r[5] == '=');
        assert(is_mode_line(r));
        assert(!r.contains('\n')) by {
            if r.contains('\n') {
                let j = choose|j: int| 0 <= j < r.len() && r[j] == '\n';
                if 8 <= j < 8 + mode.len() {
                    assert(mode[j - 8] == '\n');
                }
            }
        }
        assert(r.last() == '"');
    }
}

/// Setting the mode twice leaves the file as setting it once did: the
/// rewritten lines read back unchanged and a mode line rewrites to itself.
/// Stated for config text without carriage returns and a mode name without
/// line breaks.
pub proof fn toggle_mode_is_stable(content: Seq<char>, mode: Seq<char>)
    requires
        !content.contains('\r'),
        !mode.contains('\n'),
        !mode.contains('\r'),
    ensures
        spec_toggle_mode(spec_toggle_mode(content, mode), mode) == spec_toggle_mode(content, mode),
{
    let lines = spec_lines(content);
    lemma_lines_plain(content);
    let rw = lines.map_values(|l: Seq<char>| rewrite_line(l, mode));
    let t = spec_toggle_mode(content, mode);
    assert(t == join_lines(rw) + seq!['\n']);
    assert forall|i: int| 0 <= i < rw.len() implies plain_line(#[trigger] rw[i]) && rewrite_line(
        rw[i],
        mode,
    ) == rw[i] by {
        assert(plain_line(lines[i]) && !lines[i].contains('\r'));
        lemma_rewrite_idempotent(lines[i], mode);
    }
    if rw.len() == 0 {
        assert(join_lines(rw) == Seq::<char>::empty());
        assert(t =~= Seq::<char>::empty() + seq!['\n'] + Seq::<char>::empty());
        lemma_first_index_after(Seq::<char>::empty(), Seq::<char>::empty());
        assert(t.subrange(0, 0) =~= Seq::<char>::empty());
        assert(t.subrange(1, 1) =~= Seq::<char>::empty());
        let again = spec_lines(t);
        assert(strip_cr(t.subrange(0, 0)) == Seq::<char>::empty());
        assert(spec_lines(t.subrange(1, 1)) == Seq::<Seq<char>>::empty());
        assert(again == seq![strip_cr(t.subrange(0, 0))] + spec_lines(t.subrange(1, 1)));
        assert(again =~= seq![Seq::<char>::empty()]);
        reveal_strlit("mode");
        assert(!is_mode_line(Seq::<char>::empty()));
        let rw2 = again.map_values(|l: Seq<char>| rewrite_line(l, mode));
        assert(rw2 =~= seq![Seq::<char>::empty()]);
        assert(join_lines(rw2) =~= Seq::<char>::empty());
    } else {
        lemma_lines_of_join(rw);
        let rw2 = spec_lines(t).map_values(|l: Seq<char>| rewrite_line(l, mode));
        assert(rw2 =~= rw);
    }
}

} // verus!
