//! Requests of the web dashboard's HTTP API and the checks made on them
//! before they are relayed to the daemon.

use vstd::prelude::*;

verus! {

/// Query of `GET /api/logs`.
#[derive(Debug, Clone)]
pub struct LogsQuery {
    pub limit: Option<u32>,
}

/// Query of `GET /api/equity`.
#[derive(Debug, Clone)]
pub struct EquityQuery {
    pub period: Option<String>,
}

/// Body of `POST /api/strategies/:id/enabled`.
#[derive(Debug, Clone)]
pub struct StrategyEnabledBody {
    pub enabled: bool,
}

/// Body of `POST /api/mode`.
#[derive(Debug, Clone)]
pub struct ModeBody {
    pub mode: String,
}

/// Log events returned when no limit is asked for.
pub const DEFAULT_LOG_LIMIT: u32 = 200;

/// Most log events one request returns.
pub const MAX_LOG_LIMIT: u32 = 500;

impl LogsQuery {
    /// The number of events to fetch: the requested limit (200 when
    /// absent), capped at 500.
    pub fn effective_limit(&self) -> (r: u32)
        ensures
            r == (match self.limit {
                Some(l) => if l < MAX_LOG_LIMIT { l } else { MAX_LOG_LIMIT },
                None => DEFAULT_LOG_LIMIT,
            }),
            r <= MAX_LOG_LIMIT,
    {
        match self.limit {
            Some(l) => if l < MAX_LOG_LIMIT { l } else { MAX_LOG_LIMIT },
            None => DEFAULT_LOG_LIMIT,
        }
    }
}

impl EquityQuery {
    /// The history period to fetch: the requested one, `1M` when absent.
    pub fn effective_period(&self) -> (r: String)
        ensures
            r@ == (match self.period {
                Some(p) => p@,
                None => "1M"@,
            }),
    {
        match &self.period {
            Some(p) => p.clone(),
            None => String::from_str("1M"),
        }
    }
}

impl ModeBody {
    /// Only `paper` and `live` are accepted modes.
    pub fn validate(&self) -> (r: Result<(), String>)
        ensures
            r is Ok <==> (self.mode@ == "paper"@ || self.mode@ == "live"@),
            r matches Err(m) ==> m@ == "mode must be 'paper' or 'live'"@,
    {
        if self.mode != String::from_str("paper") && self.mode != String::from_str("live") {
            return Err(String::from_str("mode must be 'paper' or 'live'"));
        }
        Ok(())
    }
}

} // verus!
