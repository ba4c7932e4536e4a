use vstd::prelude::*;

verus! {

/// Configuration knobs for the tick-processing pipeline.
///
/// Prices and returns are fixed-point integers throughout: a price is the
/// decimal value scaled by 1e8, and a return is expressed in basis points
/// (hundredths of a percent), so a 5% trigger threshold is 500 basis points.
#[derive(Debug, Clone)]
pub struct Config {
    /// Target p95 latency in milliseconds (soft gate for reporting).
    pub target_p95_ms: u64,
    /// Shadow mode enabled (no real orders).
    pub shadow_mode: bool,
    /// Return threshold for triggering, in basis points (500 = 5%).
    pub return_threshold_bps: u64,
    /// Maximum number of symbols to track.
    pub max_symbols: usize,
    /// Price ring buffer window duration in seconds.
    pub price_window_secs: u64,
}

impl Default for Config {
    fn default() -> (c: Config)
        ensures
            c.target_p95_ms == 15,
            c.shadow_mode == true,
            c.return_threshold_bps == 500,
            c.max_symbols == 300,
            c.price_window_secs == 60,
    {
        Config {
            target_p95_ms: 15,
            shadow_mode: true,
            return_threshold_bps: 500,
            max_symbols: 300,
            price_window_secs: 60,
        }
    }
}

} // verus!
