use ultra_fast_altbot::data_feed::TradeTick;
use ultra_fast_altbot::execution::ExecutionMock;
use ultra_fast_altbot::hotpath::drain_fill_events;
use ultra_fast_altbot::hotpath::HotPath;
use ultra_fast_altbot::hotpath::LatencyMeasurement;
use ultra_fast_altbot::hotpath::PriceSnapshot;

const E8: u64 = 100_000_000;

/// Feed one tick through snapshot update and hot-path processing, returning
/// whether it triggered.
fn feed(hp: &mut HotPath, symbol_id: u32, px_e8: u64, ts_ms: u64) -> bool {
    hp.update_snapshot(symbol_id, px_e8, ts_ms);
    let tick = TradeTick::new(symbol_id, px_e8, ts_ms);
    hp.process_tick(&tick).is_some()
}

#[test]
fn test_phase2_aggregate_rings() {
    let mut hotpath = HotPath::new(100, 500, 60);

    // Add some ticks to a symbol
    let symbol_id = 10;
    for i in 0..100 {
        hotpath.update_snapshot(symbol_id, 100_000_000 + i * 1000, 1700000000000 + i);
    }

    // Maintain aggregate rings (off hot-path operation)
    hotpath.update_aggregates(symbol_id, 1700000000000 + 100);

    // This tests that aggregate maintenance completes without panicking.
}

#[test]
fn test_singleton_point_yields_absent() {
    // A ring holding a single point cannot produce a return.
    let mut ring = PriceSnapshot::new(60);
    ring.add(100 * E8, 1000);
    assert_eq!(ring.compute_return_60s(1000), None);
    // A second point within the window makes it present.
    ring.add(106 * E8, 2000);
    assert_eq!(ring.compute_return_60s(2000), Some(600));
}

#[test]
fn test_return_exact_and_monotone_in_newest() {
    let mut ring_low = PriceSnapshot::new(60);
    ring_low.add(100 * E8, 0);
    ring_low.add(104 * E8, 1000);
    let mut ring_high = PriceSnapshot::new(60);
    ring_high.add(100 * E8, 0);
    ring_high.add(106 * E8, 1000);
    let low = ring_low.compute_return_60s(1000).unwrap();
    let high = ring_high.compute_return_60s(1000).unwrap();
    assert_eq!(low, 400);
    assert_eq!(high, 600);
    assert!(low <= high);
    // A drop below the oldest price comes out negative.
    let mut ring_down = PriceSnapshot::new(60);
    ring_down.add(100 * E8, 0);
    ring_down.add(97 * E8, 1000);
    assert_eq!(ring_down.compute_return_60s(1000), Some(-300));
}

#[test]
fn test_out_of_window_points_are_ignored() {
    // The oldest/newest selection goes by timestamp within the window, not
    // by slot position.
    let mut ring = PriceSnapshot::new(60);
    ring.add(50 * E8, 0); // far outside the window at query time
    ring.add(106 * E8, 120_000); // newest by timestamp, written second
    ring.add(100 * E8, 70_000); // oldest in window, written last
    let ret = ring.compute_return_60s(120_000).unwrap();
    assert_eq!(ret, 600);
}

#[test]
fn test_single_instrument_threshold_crossing() {
    // Threshold 5%, no cooldown, effectively infinite budget and cap.
    let mut hp = HotPath::with_config(1, 500, 60, u32::MAX, 0, u64::MAX);
    let (_mock, intent_tx, _event_rx) = ExecutionMock::new(16, 50, 100);
    hp.set_intent_sender(intent_tx);

    assert!(!feed(&mut hp, 0, 100 * E8, 1000));
    assert!(!feed(&mut hp, 0, 104 * E8, 59_000)); // 4% is below the threshold
    assert!(feed(&mut hp, 0, 106 * E8, 60_000)); // 6% triggers
    let m = hp.get_gate_metrics();
    assert_eq!(m.emitted_intents, 1);
    assert_eq!(m.dropped_intents, 0);
    assert_eq!(m.gate_block_count, 0);
    assert_eq!(m.cooldown_block_count, 0);
}

#[test]
fn test_trigger_event_fields() {
    let mut hp = HotPath::with_config(1, 500, 60, u32::MAX, 0, u64::MAX);
    hp.update_snapshot(0, 100 * E8, 1000);
    hp.update_snapshot(0, 106 * E8, 2000);
    let tick = TradeTick::new(0, 106 * E8, 2000);
    let ev = hp.process_tick(&tick).expect("expected a trigger");
    assert_eq!(ev.symbol_id, 0);
    assert_eq!(ev.ts_unix_ms, 2000);
    assert_eq!(ev.price_e8, 106 * E8);
    assert_eq!(ev.return_bps, 600);
    // No sender installed: the trigger is returned but nothing is gated.
    let m = hp.get_gate_metrics();
    assert_eq!(m.emitted_intents, 0);
}

#[test]
fn test_cooldown_suppression() {
    // Threshold 5%, cooldown 500 ms: the second trigger inside the window
    // is suppressed.
    let mut hp = HotPath::with_config(1, 500, 60, u32::MAX, 500, u64::MAX);
    let (_mock, intent_tx, _event_rx) = ExecutionMock::new(16, 50, 100);
    hp.set_intent_sender(intent_tx);

    hp.update_snapshot(0, 100 * E8, 500);
    assert!(feed(&mut hp, 0, 110 * E8, 1000)); // 10%, admitted
    assert!(feed(&mut hp, 0, 121 * E8, 1200)); // triggers, but still cooling down
    let m = hp.get_gate_metrics();
    assert_eq!(m.emitted_intents, 1);
    assert_eq!(m.cooldown_block_count, 1);
    assert_eq!(m.gate_block_count, 0);
}

#[test]
fn test_budget_exhaustion() {
    // A budget of two admits two of three distinct-instrument triggers.
    let mut hp = HotPath::with_config(3, 500, 60, u32::MAX, 0, 2);
    let (_mock, intent_tx, _event_rx) = ExecutionMock::new(16, 50, 100);
    hp.set_intent_sender(intent_tx);

    for sym in 0..3u32 {
        hp.update_snapshot(sym, 100 * E8, 1000);
        assert!(feed(&mut hp, sym, 110 * E8, 2000));
    }
    let m = hp.get_gate_metrics();
    assert_eq!(m.emitted_intents, 2);
    assert_eq!(m.gate_block_count, 1);
    assert_eq!(m.cooldown_block_count, 0);
}

#[test]
fn test_queue_backpressure() {
    // Intents channel of capacity one and a paused consumer: the trigger gate
    // admits all three triggers, the queue refuses two.
    let mut hp = HotPath::with_config(3, 500, 60, u32::MAX, 0, u64::MAX);
    let (_mock, intent_tx, _event_rx) = ExecutionMock::new(1, 50, 100);
    hp.set_intent_sender(intent_tx);

    for sym in 0..3u32 {
        hp.update_snapshot(sym, 100 * E8, 1000);
        assert!(feed(&mut hp, sym, 110 * E8, 2000));
    }
    let m = hp.get_gate_metrics();
    assert_eq!(m.emitted_intents, 3);
    assert_eq!(m.dropped_intents, 2);
    assert_eq!(m.gate_block_count, 0);
    assert_eq!(m.cooldown_block_count, 0);
}

#[test]
fn test_kill_switch() {
    // After the kill switch goes off, triggers are missed entirely: not
    // emitted and not counted as blocked.
    let mut hp = HotPath::with_config(2, 500, 60, u32::MAX, 0, u64::MAX);
    let (_mock, intent_tx, _event_rx) = ExecutionMock::new(16, 50, 100);
    hp.set_intent_sender(intent_tx);

    hp.update_snapshot(0, 100 * E8, 1000);
    assert!(feed(&mut hp, 0, 110 * E8, 2000));
    assert!(hp.get_can_buy());

    hp.set_can_buy(false);
    assert!(!hp.get_can_buy());
    assert!(!feed(&mut hp, 0, 125 * E8, 3000));
    assert!(!feed(&mut hp, 0, 140 * E8, 4000));
    let m = hp.get_gate_metrics();
    assert_eq!(m.emitted_intents, 1);
    assert_eq!(m.gate_block_count, 0);
    assert_eq!(m.cooldown_block_count, 0);

    hp.set_can_buy(true);
    assert!(feed(&mut hp, 0, 160 * E8, 5000));
    assert_eq!(hp.get_gate_metrics().emitted_intents, 2);
}

#[test]
fn test_zero_budget_blocks_all() {
    let mut hp = HotPath::with_config(1, 500, 60, u32::MAX, 0, 0);
    let (_mock, intent_tx, _event_rx) = ExecutionMock::new(16, 50, 100);
    hp.set_intent_sender(intent_tx);

    hp.update_snapshot(0, 100 * E8, 1000);
    assert!(feed(&mut hp, 0, 110 * E8, 2000));
    assert!(feed(&mut hp, 0, 121 * E8, 3000));
    let m = hp.get_gate_metrics();
    assert_eq!(m.emitted_intents, 0);
    assert_eq!(m.gate_block_count, 2);
}

#[test]
fn test_zero_open_cap_blocks_all() {
    let mut hp = HotPath::with_config(1, 500, 60, 0, 0, u64::MAX);
    let (_mock, intent_tx, _event_rx) = ExecutionMock::new(16, 50, 100);
    hp.set_intent_sender(intent_tx);

    hp.update_snapshot(0, 100 * E8, 1000);
    assert!(feed(&mut hp, 0, 110 * E8, 2000));
    let m = hp.get_gate_metrics();
    assert_eq!(m.emitted_intents, 0);
    assert_eq!(m.gate_block_count, 1);
}

#[test]
fn test_fill_releases_open_intent_slot() {
    // With a cap of one, a second trigger is blocked until the first
    // intent's Fill has been fed back.
    let mut hp = HotPath::with_config(2, 500, 60, 1, 0, u64::MAX);
    let (mut mock, intent_tx, event_rx) = ExecutionMock::new(16, 50, 100);
    hp.set_intent_sender(intent_tx);

    hp.update_snapshot(0, 100 * E8, 1000);
    hp.update_snapshot(1, 100 * E8, 1000);
    assert!(feed(&mut hp, 0, 110 * E8, 2000));
    assert!(feed(&mut hp, 1, 110 * E8, 2000));
    let m = hp.get_gate_metrics();
    assert_eq!(m.emitted_intents, 1);
    assert_eq!(m.gate_block_count, 1);

    // Let the simulator answer and feed the Fill back.
    mock.run();
    let consumed = drain_fill_events(&mut hp, &event_rx, 100);
    assert_eq!(consumed, 3);

    // The slot is free again.
    assert!(feed(&mut hp, 1, 121 * E8, 3000));
    assert_eq!(hp.get_gate_metrics().emitted_intents, 2);
}

#[test]
fn test_out_of_range_symbol_is_skipped() {
    let mut hp = HotPath::with_config(1, 500, 60, u32::MAX, 0, u64::MAX);
    let (_mock, intent_tx, _event_rx) = ExecutionMock::new(16, 50, 100);
    hp.set_intent_sender(intent_tx);

    assert!(!feed(&mut hp, 5, 110 * E8, 2000));
    let m = hp.get_gate_metrics();
    assert_eq!(m.emitted_intents, 0);
    assert_eq!(m.gate_block_count, 0);
    assert_eq!(m.cooldown_block_count, 0);
}

#[test]
fn test_latency_measurement_smoke() {
    let mut m = LatencyMeasurement::new();
    m.start();
    m.end();
    let _micros = m.duration_micros();
}

#[test]
fn test_phase2_hotpath_atomic_can_buy() {
    let mut hotpath = HotPath::new(100, 500, 60);

    // Test the global buy flag toggling
    assert!(hotpath.get_can_buy());

    hotpath.set_can_buy(false);
    assert!(!hotpath.get_can_buy());

    hotpath.set_can_buy(true);
    assert!(hotpath.get_can_buy());
}
