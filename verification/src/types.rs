//! Shared types: bot status, log events, the control protocol's commands,
//! positions, fills and trading signals.

use vstd::prelude::*;
use crate::clock::utc_now;

verus! {

// ── Bot status ────────────────────────────────────────────────────────────────

#[derive(Debug, Clone, Copy, PartialEq, Eq, Structural)]
pub enum BotStatus {
    Idle,
    Running,
    Stopping,
}

impl BotStatus {
    /// The display label: `IDLE`, `RUNNING` or `STOPPING`.
    pub fn label(&self) -> (r: &'static str)
        ensures
            r@ == (match *self {
                BotStatus::Idle => "IDLE"@,
                BotStatus::Running => "RUNNING"@,
                BotStatus::Stopping => "STOPPING"@,
            }),
    {
        match self {
            BotStatus::Idle => "IDLE",
            BotStatus::Running => "RUNNING",
            BotStatus::Stopping => "STOPPING",
        }
    }
}

// ── Log events ────────────────────────────────────────────────────────────────

#[derive(Debug, Clone, Copy, PartialEq, Eq, Structural)]
pub enum LogLevel {
    Info,
    Signal,
    Order,
    Risk,
    Error,
    Warn,
}

/// The label a level is displayed and stored under.
pub open spec fn level_label(l: LogLevel) -> Seq<char> {
    match l {
        LogLevel::Info => "INFO"@,
        LogLevel::Signal => "SIGNAL"@,
        LogLevel::Order => "ORDER"@,
        LogLevel::Risk => "RISK"@,
        LogLevel::Error => "ERROR"@,
        LogLevel::Warn => "WARN"@,
    }
}

/// The level a stored label reads back as; unknown labels read as `Info`.
pub open spec fn level_from_label(s: Seq<char>) -> LogLevel {
    if s == "SIGNAL"@ {
        LogLevel::Signal
    } else if s == "ORDER"@ {
        LogLevel::Order
    } else if s == "RISK"@ {
        LogLevel::Risk
    } else if s == "ERROR"@ {
        LogLevel::Error
    } else if s == "WARN"@ {
        LogLevel::Warn
    } else {
        LogLevel::Info
    }
}

impl LogLevel {
    /// The display label, e.g. `SIGNAL`.
    pub fn label(&self) -> (r: &'static str)
        ensures
            r@ == level_label(*self),
    {
        match self {
            LogLevel::Info => "INFO",
            LogLevel::Signal => "SIGNAL",
            LogLevel::Order => "ORDER",
            LogLevel::Risk => "RISK",
            LogLevel::Error => "ERROR",
            LogLevel::Warn => "WARN",
        }
    }

    /// Reads a stored level label back; anything unknown is `Info`.
    pub fn from_label(s: &str) -> (r: LogLevel)
        ensures
            r == level_from_label(s@),
    {
        let t = String::from_str(s);
        if t == String::from_str("SIGNAL") {
            LogLevel::Signal
        } else if t == String::from_str("ORDER") {
            LogLevel::Order
        } else if t == String::from_str("RISK") {
            LogLevel::Risk
        } else if t == String::from_str("ERROR") {
            LogLevel::Error
        } else if t == String::from_str("WARN") {
            LogLevel::Warn
        } else {
            LogLevel::Info
        }
    }
}

/// A level survives being stored under its label and read back.
pub proof fn level_label_round_trip(l: LogLevel)
    ensures
        level_from_label(level_label(l)) == l,
{
    reveal_strlit("INFO");
    reveal_strlit("SIGNAL");
    reveal_strlit("ORDER");
    reveal_strlit("RISK");
    reveal_strlit("ERROR");
    reveal_strlit("WARN");
    assert("INFO"@[0] != "SIGNAL"@[0]);
    assert("INFO"@[0] != "ORDER"@[0]);
    assert("INFO"@[0] != "RISK"@[0]);
    assert("INFO"@[0] != "ERROR"@[0]);
    assert("INFO"@[0] != "WARN"@[0]);
    assert("SIGNAL"@[0] != "ORDER"@[0]);
    assert("SIGNAL"@[0] != "RISK"@[0]);
    assert("SIGNAL"@[0] != "ERROR"@[0]);
    assert("SIGNAL"@[0] != "WARN"@[0]);
    assert("ORDER"@[0] != "RISK"@[0]);
    assert("ORDER"@[0] != "ERROR"@[0]);
    assert("ORDER"@[0] != "WARN"@[0]);
    assert("RISK"@[0] != "ERROR"@[0]);
    assert("RISK"@[0] != "WARN"@[0]);
    assert("ERROR"@[0] != "WARN"@[0]);
}

/// One line of the bot log.
#[derive(Debug, Clone)]
pub struct LogEvent {
    /// Microseconds since the Unix epoch.
    pub timestamp: i64,
    pub level: LogLevel,
    pub message: String,
}

impl LogEvent {
    /// A copy of the event.
    pub fn duplicate(&self) -> (r: LogEvent)
        ensures
            r == *self,
    {
        LogEvent { timestamp: self.timestamp, level: self.level, message: self.message.clone() }
    }

    /// An event of the given level stamped with the current time (the
    /// epoch, 0, when the clock cannot be read).
    pub fn now(level: LogLevel, msg: &str) -> (r: LogEvent)
        ensures
            r.level == level,
            r.message@ == msg@,
            r.timestamp >= 0,
    {
        let timestamp = match utc_now() {
            Some(clock) => clock.micros,
            None => 0,
        };
        LogEvent { timestamp, level, message: String::from_str(msg) }
    }

    pub fn info(msg: &str) -> (r: LogEvent)
        ensures
            r.level == LogLevel::Info,
            r.message@ == msg@,
            r.timestamp >= 0,
    {
        Self::now(LogLevel::Info, msg)
    }

    pub fn signal(msg: &str) -> (r: LogEvent)
        ensures
            r.level == LogLevel::Signal,
            r.message@ == msg@,
            r.timestamp >= 0,
    {
        Self::now(LogLevel::Signal, msg)
    }

    pub fn order(msg: &str) -> (r: LogEvent)
        ensures
            r.level == LogLevel::Order,
            r.message@ == msg@,
            r.timestamp >= 0,
    {
        Self::now(LogLevel::Order, msg)
    }

    pub fn risk(msg: &str) -> (r: LogEvent)
        ensures
            r.level == LogLevel::Risk,
            r.message@ == msg@,
            r.timestamp >= 0,
    {
        Self::now(LogLevel::Risk, msg)
    }

    pub fn error(msg: &str) -> (r: LogEvent)
        ensures
            r.level == LogLevel::Error,
            r.message@ == msg@,
            r.timestamp >= 0,
    {
        Self::now(LogLevel::Error, msg)
    }

    pub fn warn(msg: &str) -> (r: LogEvent)
        ensures
            r.level == LogLevel::Warn,
            r.message@ == msg@,
            r.timestamp >= 0,
    {
        Self::now(LogLevel::Warn, msg)
    }
}

// ── Control protocol ──────────────────────────────────────────────────────────

/// Commands a client sends the daemon.
#[derive(Debug, Clone)]
pub enum IpcCommand {
    Status,
    Start,
    Stop,
    ToggleMode { mode: String },
    GetPnl { period: String },
    GetFills,
    GetPositions,
    GetPdt,
    GetMarketClock,
    GetLogs { limit: u32 },
    GetEquityHistory { period: String },
    GetStrategies,
    GetTickerSnapshot,
    SetStrategyEnabled { id: String, enabled: bool },
}

// ── Positions and fills ───────────────────────────────────────────────────────

/// An open option position as shown to clients. Quantities and money are
/// fixed-point; `opened_at` is in microseconds since the epoch.
#[derive(Debug, Clone)]
pub struct Position {
    pub contract: String,
    pub underlying: String,
    /// "call" or "put".
    pub direction: String,
    pub qty: i64,
    pub entry_price: i64,
    pub current_price: i64,
    pub market_value: i64,
    pub unrealized_pl: i64,
    /// Fraction, e.g. 0.15 for 15%.
    pub unrealized_plpc: i64,
    pub opened_at: i64,
}

/// A broker fill. Quantity and price are fixed-point.
#[derive(Debug, Clone)]
pub struct FillRecord {
    pub id: Option<i64>,
    pub symbol: String,
    pub side: String,
    pub qty: i64,
    pub price: i64,
    /// Microseconds since the epoch.
    pub timestamp: i64,
    pub order_id: String,
}

// ── Strategy types ────────────────────────────────────────────────────────────

#[derive(Debug, Clone)]
pub enum Signal {
    EnterLong { symbol: String, legs: Vec<OptionLeg> },
    EnterShort { symbol: String, legs: Vec<OptionLeg> },
    Exit { symbol: String },
}

#[derive(Debug, Clone)]
pub struct OptionLeg {
    pub contract: String,
    pub action: LegAction,
    pub qty: u32,
    pub order_type: OrderType,
    /// Fixed-point limit price.
    pub limit_price: Option<i64>,
}

#[derive(Debug, Clone, Copy, PartialEq, Eq, Structural)]
pub enum LegAction {
    Buy,
    Sell,
}

#[derive(Debug, Clone, Copy, PartialEq, Eq, Structural)]
pub enum OrderType {
    Limit,
    Market,
}

} // verus!
