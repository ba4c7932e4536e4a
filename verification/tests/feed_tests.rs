use ultra_fast_altbot::config::Config;
use ultra_fast_altbot::data_feed::TickGenerator;
use ultra_fast_altbot::data_feed::TradeTick;
use ultra_fast_altbot::sbe_decoder_ffi::RawTick;
use ultra_fast_altbot::sbe_decoder_ffi::SbeDecoderFfi;

#[test]
fn test_config_default() {
    let config = Config::default();
    assert_eq!(config.target_p95_ms, 15);
    assert!(config.shadow_mode);
    assert_eq!(config.return_threshold_bps, 500);
}

#[test]
fn test_tick_generation() {
    let generator = TickGenerator::new(10, 100);
    let ticks = generator.generate();
    assert_eq!(ticks.len(), 100);
}

#[test]
fn test_tick_generation_properties() {
    let generator = TickGenerator::new(7, 5000);
    let ticks = generator.generate();
    assert_eq!(ticks.len(), 5000);
    let mut last_ts = 0u64;
    for t in &ticks {
        assert!(t.symbol_id < 7);
        assert!(t.px_e8 >= 1);
        assert!(t.ts_unix_ms >= last_ts);
        last_ts = t.ts_unix_ms;
    }
}

#[test]
fn test_raw_tick_layout() {
    // Verify RawTick has C-compatible layout
    // Size: u32 (4 bytes) + padding (4 bytes) + u64 (8 bytes) + u64 (8 bytes) = 24 bytes
    assert_eq!(std::mem::size_of::<RawTick>(), 24);
    assert_eq!(std::mem::align_of::<RawTick>(), 8);
}

#[test]
fn test_decode_into_success() {
    let mut decoder = SbeDecoderFfi::new();
    let mut tick = TradeTick::new(0, 0, 0);
    let raw = RawTick::new(9, 250_000_000, 1700000000123);
    assert!(decoder.decode_into(&mut tick, &raw, 1));
    assert_eq!(tick.symbol_id, 9);
    assert_eq!(tick.px_e8, 250_000_000);
    assert_eq!(tick.ts_unix_ms, 1700000000123);
}

#[test]
fn test_decode_into_no_data_and_error() {
    let mut decoder = SbeDecoderFfi::new();
    let mut tick = TradeTick::new(5, 6, 7);
    let raw = RawTick::new(9, 250_000_000, 1700000000123);
    // Status zero: no more data; the tick is untouched.
    assert!(!decoder.decode_into(&mut tick, &raw, 0));
    assert_eq!(tick.symbol_id, 5);
    assert_eq!(tick.px_e8, 6);
    assert_eq!(tick.ts_unix_ms, 7);
    // Any other status: an error; the tick is untouched.
    assert!(!decoder.decode_into(&mut tick, &raw, -1));
    assert_eq!(tick.symbol_id, 5);
}
