//! Rows the daemon keeps in its database.

use vstd::prelude::*;

verus! {

/// One symbol's scan: when, which regime, the confluence score, the
/// direction scored (if any) and how the scan ended.
#[derive(Debug, Clone)]
pub struct ScanResult {
    pub timestamp: String,
    pub symbol: String,
    pub regime: String,
    pub score: i32,
    pub direction: Option<String>,
    pub outcome: String,
}

} // verus!
