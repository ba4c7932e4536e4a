use vstd::prelude::*;

verus! {

/// A single trade observation for one instrument.
///
/// The price is a fixed-point integer (decimal value scaled by 1e8) and the
/// timestamp is in unsigned milliseconds; neither is assumed monotonic here.
#[derive(Debug, Clone, Copy)]
pub struct TradeTick {
    /// Symbol ID (dense integer representation).
    pub symbol_id: u32,
    /// Price in fixed-point (scaled by 1e8).
    pub px_e8: u64,
    /// Timestamp in milliseconds.
    pub ts_unix_ms: u64,
}

impl TradeTick {
    /// Create a new trade tick.
    pub fn new(symbol_id: u32, px_e8: u64, ts_unix_ms: u64) -> (t: TradeTick)
        ensures
            t.symbol_id == symbol_id,
            t.px_e8 == px_e8,
            t.ts_unix_ms == ts_unix_ms,
    {
        TradeTick { symbol_id, px_e8, ts_unix_ms }
    }
}

/// Synthetic tick generator for benchmarking.
///
/// Prices drift with a mean-reverting bias expressed in basis points, tick
/// rates vary per symbol, and short bursts raise the rate; everything is
/// integer arithmetic seeded by a fixed linear congruential generator, so a
/// given configuration always yields the same ticks.
pub struct TickGenerator {
    num_symbols: u32,
    num_ticks: usize,
    base_ts: u64,
    base_prices: Vec<u64>,
}

/// One step of the linear congruential generator used for reproducible noise.
fn lcg_next(state: u64) -> u64 {
    state.wrapping_mul(1103515245).wrapping_add(12345)
}

impl TickGenerator {
    /// The generator is well formed: at least one symbol, and one positive
    /// base price per symbol.
    pub closed spec fn wf(&self) -> bool {
        &&& self.num_symbols >= 1
        &&& self.base_ts == 1700000000000
        &&& self.base_prices@.len() == self.num_symbols as int
        &&& forall|k: int| 0 <= k < self.base_prices@.len() ==> self.base_prices@[k] >= 1
    }

    /// Number of symbols the generator draws from.
    pub closed spec fn symbol_count(&self) -> u32 {
        self.num_symbols
    }

    /// Number of ticks a call to `generate` yields.
    pub closed spec fn tick_count(&self) -> usize {
        self.num_ticks
    }

    /// Create a new tick generator.
    ///
    /// A generator over zero symbols has nothing to draw ticks from, so at
    /// least one symbol is required.
    pub fn new(num_symbols: u32, num_ticks: usize) -> (g: TickGenerator)
        requires
            num_symbols >= 1,
        ensures
            g.wf(),
            g.symbol_count() == num_symbols,
            g.tick_count() == num_ticks,
    {
        let base_ts: u64 = 1700000000000;
        let mut base_prices: Vec<u64> = Vec::new();
        let mut i: u32 = 0;
        while i < num_symbols
            invariant
                i <= num_symbols,
                base_prices@.len() == i as int,
                forall|k: int| 0 <= k < base_prices@.len() ==> base_prices@[k] >= 1,
            decreases num_symbols - i,
        {
            // Base prices spread over roughly 10 to 999 units, in 1e8 fixed point.
            let base: u64 = 10 + ((i as u64) * 13) % 990;
            base_prices.push(base * 100_000_000);
            i = i + 1;
        }
        TickGenerator { num_symbols, num_ticks, base_ts, base_prices }
    }

    /// Generate the configured number of synthetic ticks.
    ///
    /// Every tick names a symbol below the configured count, carries a
    /// positive price, and timestamps start at the base epoch and strictly
    /// increase along the sequence (except at the counter's saturation
    /// point).
    pub fn generate(&self) -> (ticks: Vec<TradeTick>)
        requires
            self.wf(),
        ensures
            ticks@.len() == self.tick_count() as int,
            forall|k: int| 0 <= k < ticks@.len() ==> ticks@[k].symbol_id < self.symbol_count(),
            forall|k: int| 0 <= k < ticks@.len() ==> ticks@[k].px_e8 >= 1,
            forall|k: int| 0 <= k < ticks@.len() ==> ticks@[k].ts_unix_ms >= 1700000000000,
            forall|k: int|
                0 < k < ticks@.len() ==> #[trigger] ticks@[k - 1].ts_unix_ms <= ticks@[k].ts_unix_ms,
            forall|k: int|
                0 < k < ticks@.len() ==> #[trigger] ticks@[k - 1].ts_unix_ms < ticks@[k].ts_unix_ms
                    || ticks@[k].ts_unix_ms == u64::MAX,
    {
        let num_symbols_u64: u64 = self.num_symbols as u64;
        let mut ticks: Vec<TradeTick> = Vec::new();
        let mut rng_state: u64 = 12345;

        // Current price per symbol, for the mean-reverting drift.
        let mut current_prices: Vec<u64> = Vec::new();
        let mut s: usize = 0;
        while s < self.base_prices.len()
            invariant
                self.wf(),
                s <= self.base_prices@.len(),
                current_prices@.len() == s as int,
                forall|k: int| 0 <= k < current_prices@.len() ==> current_prices@[k] >= 1,
            decreases self.base_prices@.len() - s,
        {
            current_prices.push(self.base_prices[s]);
            s = s + 1;
        }

        // Per-symbol base tick rates between 50 and 149 ticks per second.
        let mut symbol_rates: Vec<u64> = Vec::new();
        let mut r: u32 = 0;
        while r < self.num_symbols
            invariant
                r <= self.num_symbols,
                symbol_rates@.len() == r as int,
                forall|k: int| 0 <= k < symbol_rates@.len()
                    ==> 50 <= symbol_rates@[k] && symbol_rates@[k] < 150,
            decreases self.num_symbols - r,
        {
            let seed: u64 = 54321u64.wrapping_add((r as u64).wrapping_mul(9973));
            symbol_rates.push(50 + seed % 100);
            r = r + 1;
        }

        let mut current_ts: u64 = self.base_ts;
        let mut burst_until: u64 = 0;
        let mut i: usize = 0;
        while i < self.num_ticks
            invariant
                self.wf(),
                num_symbols_u64 == self.num_symbols as u64,
                current_prices@.len() == self.num_symbols as int,
                forall|k: int| 0 <= k < current_prices@.len() ==> current_prices@[k] >= 1,
                symbol_rates@.len() == self.num_symbols as int,
                forall|k: int| 0 <= k < symbol_rates@.len()
                    ==> 50 <= symbol_rates@[k] && symbol_rates@[k] < 150,
                i <= self.num_ticks,
                ticks@.len() == i as int,
                forall|k: int| 0 <= k < ticks@.len() ==> ticks@[k].symbol_id < self.symbol_count(),
                forall|k: int| 0 <= k < ticks@.len() ==> ticks@[k].px_e8 >= 1,
                current_ts >= 1700000000000,
                forall|k: int| 0 <= k < ticks@.len() ==> ticks@[k].ts_unix_ms <= current_ts,
                forall|k: int| 0 <= k < ticks@.len() ==> ticks@[k].ts_unix_ms >= 1700000000000,
                forall|k: int|
                    0 < k < ticks@.len()
                        ==> #[trigger] ticks@[k - 1].ts_unix_ms <= ticks@[k].ts_unix_ms,
                forall|k: int|
                    0 < k < ticks@.len()
                        ==> #[trigger] ticks@[k - 1].ts_unix_ms < ticks@[k].ts_unix_ms
                            || ticks@[k].ts_unix_ms == u64::MAX,
            decreases self.num_ticks - i,
        {
            rng_state = lcg_next(rng_state);
            let symbol_id: u32 = (rng_state % num_symbols_u64) as u32;
            let symbol_idx: usize = symbol_id as usize;

            // Occasionally enter a short burst with a 5x tick rate.
            if i % 1000 == 0 {
                rng_state = lcg_next(rng_state);
                if rng_state % 100 < 5 {
                    burst_until = current_ts.saturating_add(50);
                }
            }

            let base_rate: u64 = symbol_rates[symbol_idx];
            let effective_rate: u64 = if current_ts < burst_until {
                base_rate * 5
            } else {
                base_rate
            };
            proof {
                assert(1000u64 / effective_rate <= 20) by (nonlinear_arith)
                    requires
                        effective_rate >= 50,
                ;
            }
            let avg_delay_ms: u64 = 1000 / effective_rate;

            // Jitter the delay by 50% to 149% of the average, at least 1 ms.
            rng_state = lcg_next(rng_state);
            let jitter: u64 = 50 + rng_state % 100;
            proof {
                assert(avg_delay_ms * jitter <= 20 * 150) by (nonlinear_arith)
                    requires
                        avg_delay_ms <= 20,
                        jitter <= 150,
                ;
            }
            let mut delay_ms: u64 = avg_delay_ms * jitter / 100;
            if delay_ms == 0 {
                delay_ms = 1;
            }
            current_ts = current_ts.saturating_add(delay_ms);

            // Mean-reverting drift: bias the variation against the current
            // deviation from the base price, all in basis points.
            let base_price: u64 = self.base_prices[symbol_idx];
            let current_price: u64 = current_prices[symbol_idx];
            let deviation_bps: i128 =
                ((current_price as i128 - base_price as i128) * 10000) / (base_price as i128);

            rng_state = lcg_next(rng_state);
            let raw_var_bps: i128 = (rng_state % 2000) as i128 - 1000;
            let mean_revert_bias: i128 = -(deviation_bps / 5);
            let mut var_bps: i128 = raw_var_bps + mean_revert_bias;

            // Occasionally inject a strong upward move to force triggers;
            // otherwise clamp the variation to a mild range.
            let inject_trigger: bool = i % 500 == 0 && rng_state % 10 < 2;
            if inject_trigger {
                var_bps = 500 + (rng_state % 300) as i128;
            } else {
                if var_bps < -500 {
                    var_bps = -500;
                }
                if var_bps > 800 {
                    var_bps = 800;
                }
            }

            let factor: u128 = (10000 + var_bps) as u128;
            proof {
                assert((current_price as u128) * factor <= (u64::MAX as u128) * 10800)
                    by (nonlinear_arith)
                    requires
                        factor <= 10800,
                        current_price <= u64::MAX,
                ;
            }
            let scaled: u128 = (current_price as u128) * factor / 10000;
            let mut new_price: u64 = if scaled > u64::MAX as u128 {
                u64::MAX
            } else {
                scaled as u64
            };
            if new_price == 0 {
                new_price = 1;
            }
            current_prices.set(symbol_idx, new_price);

            ticks.push(TradeTick::new(symbol_id, new_price, current_ts));
            i = i + 1;
        }
        ticks
    }
}

} // verus!
