use vstd::prelude::*;

use crate::data_feed::TradeTick;

verus! {

// The production tick source hands over fixed-layout raw records decoded by
// native code. The decode call itself cannot live here; what can is the
// record layout and the handling of a decode status: copying a successful
// record into a tick and rejecting everything else.

/// Raw tick record as the native decoder fills it.
#[derive(Debug, Clone, Copy)]
pub struct RawTick {
    pub symbol_id: u32,
    pub px_e8: u64,
    pub ts_unix_ms: u64,
}

impl RawTick {
    /// Create a new raw tick record.
    pub fn new(symbol_id: u32, px_e8: u64, ts_unix_ms: u64) -> (r: RawTick)
        ensures
            r.symbol_id == symbol_id,
            r.px_e8 == px_e8,
            r.ts_unix_ms == ts_unix_ms,
    {
        RawTick { symbol_id, px_e8, ts_unix_ms }
    }
}

/// Interpreter for the native decoder's results.
pub struct SbeDecoderFfi;

impl SbeDecoderFfi {
    /// Create a new decoder-result interpreter.
    pub fn new() -> (r: SbeDecoderFfi) {
        SbeDecoderFfi
    }

    /// Apply one decode result. A status of one means a record was decoded:
    /// its fields are copied into the tick. A status of zero means no more
    /// data, anything else an error; in both the tick is left untouched.
    pub fn decode_into(&mut self, tick: &mut TradeTick, raw: &RawTick, status: i32) -> (ok: bool)
        ensures
            ok == (status == 1),
            status == 1 ==> {
                &&& final(tick).symbol_id == raw.symbol_id
                &&& final(tick).px_e8 == raw.px_e8
                &&& final(tick).ts_unix_ms == raw.ts_unix_ms
            },
            status != 1 ==> *final(tick) == *old(tick),
    {
        match status {
            1 => {
                tick.symbol_id = raw.symbol_id;
                tick.px_e8 = raw.px_e8;
                tick.ts_unix_ms = raw.ts_unix_ms;
                true
            },
            _ => false,
        }
    }
}

impl Default for SbeDecoderFfi {
    fn default() -> (r: SbeDecoderFfi) {
        SbeDecoderFfi::new()
    }
}

} // verus!
