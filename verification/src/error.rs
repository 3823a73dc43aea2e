//! The daemon's error type.

use vstd::prelude::*;

verus! {

/// Errors of the daemon. Errors raised by the database, the file system,
/// JSON and HTTP layers are carried as their message text.
#[derive(Debug, Clone)]
pub enum FerrumError {
    Config(String),
    Alpaca(String),
    Polygon(String),
    Database(String),
    Ipc(String),
    RiskViolation(String),
    LiveTradingDisabled,
    Io(String),
    Json(String),
    Http(String),
}

/// The display text of an error.
pub open spec fn error_text(e: FerrumError) -> Seq<char> {
    match e {
        FerrumError::Config(m) => "config error: "@ + m@,
        FerrumError::Alpaca(m) => "alpaca API error: "@ + m@,
        FerrumError::Polygon(m) => "polygon API error: "@ + m@,
        FerrumError::Database(m) => "database error: "@ + m@,
        FerrumError::Ipc(m) => "IPC error: "@ + m@,
        FerrumError::RiskViolation(m) => "risk violation: "@ + m@,
        FerrumError::LiveTradingDisabled => "live trading disabled in v1"@,
        FerrumError::Io(m) => "IO error: "@ + m@,
        FerrumError::Json(m) => "JSON error: "@ + m@,
        FerrumError::Http(m) => "HTTP error: "@ + m@,
    }
}

impl FerrumError {
    /// The error's display text, e.g. `risk violation: max open positions 4 reached`.
    pub fn message(&self) -> (r: String)
        ensures
            r@ == error_text(*self),
    {
        let (prefix, detail): (&str, Option<&String>) = match self {
            FerrumError::Config(m) => ("config error: ", Some(m)),
            FerrumError::Alpaca(m) => ("alpaca API error: ", Some(m)),
            FerrumError::Polygon(m) => ("polygon API error: ", Some(m)),
            FerrumError::Database(m) => ("database error: ", Some(m)),
            FerrumError::Ipc(m) => ("IPC error: ", Some(m)),
            FerrumError::RiskViolation(m) => ("risk violation: ", Some(m)),
            FerrumError::LiveTradingDisabled => ("live trading disabled in v1", None),
            FerrumError::Io(m) => ("IO error: ", Some(m)),
            FerrumError::Json(m) => ("JSON error: ", Some(m)),
            FerrumError::Http(m) => ("HTTP error: ", Some(m)),
        };
        let mut out = String::from_str(prefix);
        match detail {
            Some(m) => out.append(m.as_str()),
            None => {},
        }
        proof {
            assert(out@ =~= error_text(*self));
        }
        out
    }
}

} // verus!
