//! The terminal dashboard's state: the bounded log ring, key handling,
//! and the colour levels of the figures it shows.

use vstd::prelude::*;
use std::collections::VecDeque;
use crate::types::{BotStatus, FillRecord, LogEvent, Position};

verus! {

broadcast use vstd::std_specs::vecdeque::group_vec_dequeue_axioms;

/// Most log events the dashboard keeps.
pub const LOG_RING_SIZE: usize = 500;

/// The dashboard state. P&L figures are fixed-point dollars; `last_log_ts`
/// is the timestamp (microseconds) of the newest event shown.
pub struct App {
    pub daemon_online: bool,
    pub daemon_managed: bool,
    pub bot_status: BotStatus,
    pub mode: String,
    pub pnl_today: i64,
    pub pnl_month: i64,
    pub pnl_year: i64,
    pub fills: Vec<FillRecord>,
    pub positions: Vec<Position>,
    pub pdt_used: u32,
    pub pdt_max: u32,
    pub market_open: Option<bool>,
    pub market_next_change: String,
    pub last_log_ts: Option<i64>,
    pub log_events: VecDeque<LogEvent>,
    pub log_scroll: usize,
    pub tail_follow: bool,
    pub show_help: bool,
}

/// The log ring after one more event: the oldest is dropped when full.
pub open spec fn ring_push(ring: Seq<LogEvent>, ev: LogEvent) -> Seq<LogEvent> {
    if ring.len() >= LOG_RING_SIZE {
        ring.drop_first().push(ev)
    } else {
        ring.push(ev)
    }
}

/// The log ring after a sequence of events, in order.
pub open spec fn ring_push_all(ring: Seq<LogEvent>, evs: Seq<LogEvent>) -> Seq<LogEvent>
    decreases evs.len(),
{
    if evs.len() == 0 {
        ring
    } else {
        ring_push(ring_push_all(ring, evs.drop_last()), evs.last())
    }
}

/// The last `n` items of `s` (all of it when shorter).
pub open spec fn last_n(s: Seq<LogEvent>, n: nat) -> Seq<LogEvent> {
    if s.len() <= n { s } else { s.subrange(s.len() - n, s.len() as int) }
}

impl App {
    pub fn new() -> (r: App)
        ensures
            r.daemon_online,
            !r.daemon_managed,
            r.bot_status == BotStatus::Idle,
            r.mode@ == "PAPER"@,
            r.pnl_today == 0 && r.pnl_month == 0 && r.pnl_year == 0,
            r.fills@.len() == 0,
            r.positions@.len() == 0,
            r.pdt_used == 0 && r.pdt_max == 0,
            r.market_open is None,
            r.market_next_change@.len() == 0,
            r.last_log_ts is None,
            r.log_events@.len() == 0,
            r.log_scroll == 0,
            r.tail_follow,
            !r.show_help,
    {
        App {
            daemon_online: true,
            daemon_managed: false,
            bot_status: BotStatus::Idle,
            mode: String::from_str("PAPER"),
            pnl_today: 0,
            pnl_month: 0,
            pnl_year: 0,
            fills: Vec::new(),
            positions: Vec::new(),
            pdt_used: 0,
            pdt_max: 0,
            market_open: None,
            market_next_change: String::new(),
            last_log_ts: None,
            log_events: VecDeque::new(),
            log_scroll: 0,
            tail_follow: true,
            show_help: false,
        }
    }

    /// Appends a log event, dropping the oldest once the ring is full; in
    /// tail-follow mode the view scrolls to the newest event.
    pub fn push_log(&mut self, event: LogEvent)
        ensures
            final(self).log_events@ == ring_push(old(self).log_events@, event),
            old(self).tail_follow ==> final(self).log_scroll == final(self).log_events@.len() - 1,
            !old(self).tail_follow ==> final(self).log_scroll == old(self).log_scroll,
            final(self).tail_follow == old(self).tail_follow,
            final(self).last_log_ts == old(self).last_log_ts,
    {
        if self.log_events.len() >= LOG_RING_SIZE {
            self.log_events.pop_front();
        }
        self.log_events.push_back(event);
        proof {
            if old(self).log_events@.len() >= LOG_RING_SIZE {
                assert(old(self).log_events@.subrange(1, old(self).log_events@.len() as int)
                    =~= old(self).log_events@.drop_first());
            }
        }
        if self.tail_follow {
            self.log_scroll = self.log_events.len() - 1;
        }
    }

    /// Takes the events of a log poll (oldest first), appending only those
    /// newer than the newest shown.
    pub fn ingest_logs(&mut self, events: &Vec<LogEvent>)
        ensures
            final(self).log_events@ == ring_push_all(
                old(self).log_events@,
                new_events(old(self).last_log_ts, events@),
            ),
            final(self).last_log_ts == newest_after(old(self).last_log_ts, events@),
            final(self).tail_follow == old(self).tail_follow,
    {
        let mut i: usize = 0;
        let ghost start = self.log_events@;
        let ghost last0 = self.last_log_ts;
        while i < events.len()
            invariant
                i <= events.len(),
                self.log_events@ == ring_push_all(start, new_events(last0, events@.subrange(0, i as int))),
                self.last_log_ts == newest_after(last0, events@.subrange(0, i as int)),
                self.tail_follow == old(self).tail_follow,
            decreases events.len() - i,
        {
            let ev = &events[i];
            let is_new = match self.last_log_ts {
                Some(last) => ev.timestamp > last,
                None => true,
            };
            let ghost pre = events@.subrange(0, i + 1);
            proof {
                assert(pre.drop_last() =~= events@.subrange(0, i as int));
                assert(pre.last() == events@[i as int]);
            }
            let ghost x = new_events(last0, events@.subrange(0, i as int));
            proof {
                assert(is_new == is_newer(self.last_log_ts, events@[i as int]));
            }
            if is_new {
                self.last_log_ts = Some(ev.timestamp);
                self.push_log(ev.duplicate());
                proof {
                    assert(new_events(last0, pre) == x.push(events@[i as int]));
                    assert(x.push(events@[i as int]).drop_last() =~= x);
                }
            } else {
                proof {
                    assert(new_events(last0, pre) == x);
                }
            }
            i = i + 1;
        }
        proof {
            assert(events@.subrange(0, i as int) =~= events@);
        }
    }
}

/// The newest timestamp after considering `evs` in order.
pub open spec fn newest_after(last: Option<i64>, evs: Seq<LogEvent>) -> Option<i64>
    decreases evs.len(),
{
    if evs.len() == 0 {
        last
    } else {
        let prev = newest_after(last, evs.drop_last());
        let ev = evs.last();
        if is_newer(prev, ev) { Some(ev.timestamp) } else { prev }
    }
}

/// An event is newer than the newest shown.
pub open spec fn is_newer(last: Option<i64>, ev: LogEvent) -> bool {
    match last {
        Some(t) => ev.timestamp > t,
        None => true,
    }
}

/// The events of a poll that get appended: each strictly newer than every
/// event appended or shown before it.
pub open spec fn new_events(last: Option<i64>, evs: Seq<LogEvent>) -> Seq<LogEvent>
    decreases evs.len(),
{
    if evs.len() == 0 {
        seq![]
    } else {
        let prev = newest_after(last, evs.drop_last());
        let ev = evs.last();
        if is_newer(prev, ev) {
            new_events(last, evs.drop_last()).push(ev)
        } else {
            new_events(last, evs.drop_last())
        }
    }
}

/// The ring never holds more than `LOG_RING_SIZE` events, and after any
/// sequence of pushes it holds exactly the last `LOG_RING_SIZE` of
/// everything pushed (the earlier contents followed by the new events).
pub proof fn ring_keeps_last_events(ring: Seq<LogEvent>, evs: Seq<LogEvent>)
    requires
        ring.len() <= LOG_RING_SIZE,
    ensures
        ring_push_all(ring, evs).len() <= LOG_RING_SIZE,
        ring_push_all(ring, evs) == last_n(ring + evs, LOG_RING_SIZE as nat),
    decreases evs.len(),
{
    if evs.len() > 0 {
        ring_keeps_last_events(ring, evs.drop_last());
        let prev = ring_push_all(ring, evs.drop_last());
        let all_prev = ring + evs.drop_last();
        let all = ring + evs;
        assert(all =~= all_prev.push(evs.last()));
        assert(prev == last_n(all_prev, LOG_RING_SIZE as nat));
        if all_prev.len() < LOG_RING_SIZE {
            assert(prev == all_prev);
            assert(ring_push(prev, evs.last()) =~= last_n(all, LOG_RING_SIZE as nat));
        } else {
            assert(prev.len() == LOG_RING_SIZE);
            assert(ring_push(prev, evs.last()) =~= last_n(all, LOG_RING_SIZE as nat));
        }
    } else {
        assert(ring + evs =~= ring);
    }
}

// ── Keys ──────────────────────────────────────────────────────────────────────

/// A key the dashboard reacts to.
#[derive(Debug, Clone, Copy, PartialEq, Eq, Structural)]
pub enum KeyCode {
    Char(char),
    Up,
    Down,
    End,
    Other,
}

/// What a key press asks of the surrounding program.
#[derive(Debug, Clone, Copy, PartialEq, Eq, Structural)]
pub enum KeyAction {
    Quit,
    StartStrategy,
    StopStrategy,
    /// Launch the daemon, or kill the one this dashboard launched.
    ToggleDaemon,
    Nothing,
}

/// The action a key press asks for: `q`/`Q` or Ctrl-C quit, `s`/`S` start,
/// `x`/`X` stop, `d`/`D` launch or kill the daemon; other keys act on the
/// dashboard itself.
pub open spec fn spec_key_action(code: KeyCode, ctrl: bool) -> KeyAction {
    match code {
        KeyCode::Char(c) => if c == 'q' || c == 'Q' || (c == 'c' && ctrl) {
            KeyAction::Quit
        } else if c == 's' || c == 'S' {
            KeyAction::StartStrategy
        } else if c == 'x' || c == 'X' {
            KeyAction::StopStrategy
        } else if c == 'd' || c == 'D' {
            KeyAction::ToggleDaemon
        } else {
            KeyAction::Nothing
        },
        _ => KeyAction::Nothing,
    }
}

impl App {
    /// Handles a key press: `?` toggles help, Up/Down scroll the log (and
    /// leave tail-follow), End or `f` resume tail-follow.
    pub fn handle_key(&mut self, code: KeyCode, ctrl: bool) -> (r: KeyAction)
        requires
            code == KeyCode::Down ==> old(self).log_scroll < usize::MAX,
        ensures
            r == spec_key_action(code, ctrl),
            final(self).show_help == (if code == KeyCode::Char('?') {
                !old(self).show_help
            } else {
                old(self).show_help
            }),
            final(self).log_scroll == (match code {
                KeyCode::Up => if old(self).log_scroll > 0 {
                    (old(self).log_scroll - 1) as usize
                } else {
                    0
                },
                KeyCode::Down => (old(self).log_scroll + 1) as usize,
                _ => old(self).log_scroll,
            }),
            final(self).tail_follow == (match code {
                KeyCode::Up | KeyCode::Down => false,
                KeyCode::End | KeyCode::Char('f') => true,
                _ => old(self).tail_follow,
            }),
            final(self).log_events@ == old(self).log_events@,
    {
        match code {
            KeyCode::Char(c) => {
                if c == 'q' || c == 'Q' || (c == 'c' && ctrl) {
                    return KeyAction::Quit;
                }
                if c == 's' || c == 'S' {
                    return KeyAction::StartStrategy;
                }
                if c == 'x' || c == 'X' {
                    return KeyAction::StopStrategy;
                }
                if c == 'd' || c == 'D' {
                    return KeyAction::ToggleDaemon;
                }
                if c == '?' {
                    self.show_help = !self.show_help;
                }
                if c == 'f' {
                    self.tail_follow = true;
                }
                KeyAction::Nothing
            },
            KeyCode::Up => {
                self.log_scroll = if self.log_scroll > 0 { self.log_scroll - 1 } else { 0 };
                self.tail_follow = false;
                KeyAction::Nothing
            },
            KeyCode::Down => {
                self.log_scroll = self.log_scroll + 1;
                self.tail_follow = false;
                KeyAction::Nothing
            },
            KeyCode::End => {
                self.tail_follow = true;
                KeyAction::Nothing
            },
            KeyCode::Other => KeyAction::Nothing,
        }
    }
}

// ── Colour levels ─────────────────────────────────────────────────────────────

/// How full the day-trade budget is.
#[derive(Debug, Clone, Copy, PartialEq, Eq, Structural)]
pub enum PdtLevel {
    /// No budget configured.
    Unset,
    /// Budget spent.
    Spent,
    /// At least 67% used.
    Warning,
    /// Room left.
    Open,
}

/// The budget level of `used` of `max` day trades.
pub fn pdt_level(used: u32, max: u32) -> (r: PdtLevel)
    ensures
        r == (if max == 0 {
            PdtLevel::Unset
        } else if used >= max {
            PdtLevel::Spent
        } else if 100 * used >= 67 * max {
            PdtLevel::Warning
        } else {
            PdtLevel::Open
        }),
{
    if max == 0 {
        PdtLevel::Unset
    } else if used >= max {
        PdtLevel::Spent
    } else if 100 * (used as u64) >= 67 * (max as u64) {
        PdtLevel::Warning
    } else {
        PdtLevel::Open
    }
}

/// Profit (zero included) shows as a gain, anything below as a loss.
pub fn is_gain(v: i64) -> (r: bool)
    ensures
        r == (v >= 0),
{
    v >= 0
}

} // verus!
