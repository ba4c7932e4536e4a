use ultra_fast_altbot::config::Config;
use ultra_fast_altbot::data_feed::TickGenerator;
use ultra_fast_altbot::execution::ExecutionMock;
use ultra_fast_altbot::hotpath::drain_fill_events;
use ultra_fast_altbot::hotpath::HotPath;
use ultra_fast_altbot::hotpath::LatencyMeasurement;
use ultra_fast_altbot::metrics::MetricsCollector;

#[test]
fn test_full_pipeline() {
    // 100k ticks over 300 instruments with the default configuration.
    let config = Config::default();
    let num_ticks: usize = 100_000;
    let num_symbols: u32 = 300;

    let generator = TickGenerator::new(num_symbols, num_ticks);
    let ticks = generator.generate();
    assert_eq!(ticks.len(), num_ticks);

    let mut metrics = MetricsCollector::new(100_000, 3).unwrap();
    let (mut mock, intent_tx, event_rx) = ExecutionMock::new(1000, 50, 100);
    let mut hotpath = HotPath::with_config(
        config.max_symbols,
        config.return_threshold_bps,
        config.price_window_secs,
        10,
        500,
        1000,
    );
    hotpath.set_intent_sender(intent_tx);

    // Pre-populate price snapshots so returns have history.
    for tick in ticks.iter().take(1000) {
        hotpath.update_snapshot(tick.symbol_id, tick.px_e8, tick.ts_unix_ms);
    }

    let mut trigger_count: usize = 0;
    for (idx, tick) in ticks.iter().enumerate() {
        let mut measurement = LatencyMeasurement::new();
        measurement.start();
        hotpath.update_snapshot(tick.symbol_id, tick.px_e8, tick.ts_unix_ms);
        if hotpath.process_tick(tick).is_some() {
            trigger_count += 1;
        }
        measurement.end();
        metrics.record(measurement.duration_micros()).unwrap();

        // Let the simulator and the feedback side keep up.
        if idx % 256 == 0 {
            mock.run();
            drain_fill_events(&mut hotpath, &event_rx, usize::MAX);
        }
    }

    // Drain everything that is still in flight.
    mock.run();
    drain_fill_events(&mut hotpath, &event_rx, usize::MAX);

    let gate = hotpath.get_gate_metrics();
    let (submitted, acks, fills) = mock.get_counters();

    // Every trigger is accounted exactly once.
    assert_eq!(
        gate.emitted_intents + gate.gate_block_count + gate.cooldown_block_count,
        trigger_count as u64
    );
    // The simulator consumed every intent that reached its queue, and
    // answered each with the full event chain.
    assert_eq!(submitted, gate.emitted_intents - gate.dropped_intents);
    assert_eq!(acks, submitted);
    assert_eq!(fills, acks);
    // Latency was recorded for every tick and the percentiles are ordered.
    assert_eq!(metrics.count(), num_ticks as u64);
    assert!(metrics.percentile(5000) <= metrics.percentile(9500));
    assert!(metrics.percentile(9500) <= metrics.percentile(9900));

    // The summary and the serialized histogram are produced.
    let exec = ultra_fast_altbot::metrics::ExecutionMetrics {
        emitted_intents: gate.emitted_intents,
        dropped_intents: gate.dropped_intents,
        ack_count: acks,
        fill_count: fills,
        gate_block_count: gate.gate_block_count,
        cooldown_block_count: gate.cooldown_block_count,
    };
    let summary = metrics.generate_summary(1000, &exec);
    assert_eq!(summary.count, num_ticks as u64);
    assert_eq!(summary.fill_count, fills);
    let blob = metrics.serialize();
    let reread = MetricsCollector::deserialize(&blob).expect("the blob should parse back");
    assert_eq!(reread.percentile(9500), metrics.percentile(9500));
}
