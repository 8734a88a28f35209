//! Protocol-wide error type and oracle sanity configuration.

use vstd::prelude::*;

verus! {

/// Errors raised by the protocol's simulated oracle.
#[derive(Debug, Clone, PartialEq, Eq)]
pub enum ProtocolError {
    /// Caller is not the oracle admin.
    Unauthorized,
    /// No price has been recorded for the asset.
    MissingPrice(String),
    /// The recorded price is older than the configured maximum age.
    OraclePriceStale(String),
    /// A price update failed a sanity check: (asset, explanation).
    OracleSanityCheckFailed(String, String),
}

/// Sanity limits applied to oracle price updates and reads.
#[derive(Debug, Clone, Copy, PartialEq, Eq)]
pub struct OracleSanityConfig {
    /// Smallest accepted price.
    pub min_price: i128,
    /// Largest accepted price; 0 disables the upper bound.
    pub max_price: i128,
    /// Largest accepted move from the last price, in basis points; 0 disables the circuit breaker.
    pub max_price_deviation_bps: u32,
    /// Largest accepted age of a price on read, in seconds; 0 disables staleness checks.
    pub max_price_age_secs: u64,
}

/// The default sanity limits.
pub open spec fn default_sanity() -> OracleSanityConfig {
    OracleSanityConfig {
        min_price: 1,
        max_price: 0,
        max_price_deviation_bps: 5_000,
        max_price_age_secs: 3_600,
    }
}

impl OracleSanityConfig {
    /// The default limits: prices of at least 1, no upper bound, a 50 % circuit breaker
    /// and a one hour staleness window.
    pub fn standard() -> (r: Self)
        ensures
            r == default_sanity(),
    {
        OracleSanityConfig {
            min_price: 1,
            max_price: 0,
            max_price_deviation_bps: 5_000,
            max_price_age_secs: 3_600,
        }
    }
}

impl Default for OracleSanityConfig {
    fn default() -> (r: Self)
        ensures
            r == default_sanity(),
    {
        Self::standard()
    }
}

} // verus!
