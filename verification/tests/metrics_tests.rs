use ultra_fast_altbot::metrics::ExecutionMetrics;
use ultra_fast_altbot::metrics::MetricsCollector;

#[test]
fn test_metrics_collector() {
    let mut collector = MetricsCollector::new(100_000, 3).unwrap();

    // Record some sample latencies
    collector.record(100).unwrap();
    collector.record(200).unwrap();
    collector.record(500).unwrap();
    collector.record(1000).unwrap();

    assert_eq!(collector.count(), 4);
    assert!(collector.percentile(5000) >= 100);
}

#[test]
fn test_percentiles_exact_on_small_values() {
    // With three significant figures every value below 2000 keeps its own
    // bucket, so percentiles over 1..=100 are exact.
    let mut c = MetricsCollector::new(100_000, 3).unwrap();
    for v in 1..=100u64 {
        c.record(v).unwrap();
    }
    assert_eq!(c.count(), 100);
    assert_eq!(c.min(), 1);
    assert_eq!(c.max(), 100);
    assert_eq!(c.percentile(5000), 50);
    assert_eq!(c.percentile(9500), 95);
    assert_eq!(c.percentile(9900), 99);
    assert_eq!(c.percentile(10000), 100);
}

#[test]
fn test_quantization_keeps_relative_precision() {
    // A large value is reported from its bucket ceiling, within one part in
    // a thousand at three significant figures.
    let mut c = MetricsCollector::new(1_000_000, 3).unwrap();
    c.record(123_456).unwrap();
    let p = c.percentile(5000);
    assert!(p >= 123_456);
    assert!(p <= 123_456 + 123_456 / 1000 + 1);
}

#[test]
fn test_record_clamps_to_max() {
    let mut c = MetricsCollector::new(1000, 3).unwrap();
    c.record(5000).unwrap();
    assert_eq!(c.count(), 1);
    assert_eq!(c.max(), 1000);
    assert_eq!(c.min(), 1000);
}

#[test]
fn test_new_rejects_bad_configuration() {
    assert!(MetricsCollector::new(100_000, 0).is_err());
    assert!(MetricsCollector::new(100_000, 6).is_err());
    assert!(MetricsCollector::new(1, 3).is_err());
    assert!(MetricsCollector::new(u64::MAX, 3).is_err());
    assert!(MetricsCollector::new(2, 1).is_ok());
}

#[test]
fn test_histogram_serialization_round_trip() {
    let mut c = MetricsCollector::new(100_000, 3).unwrap();
    for i in 0..1000u64 {
        c.record((i * 7919) % 90_000 + 1).unwrap();
    }
    let bytes = c.serialize();
    let d = MetricsCollector::deserialize(&bytes).expect("the blob should parse back");
    assert_eq!(d.count(), c.count());
    assert_eq!(d.min(), c.min());
    assert_eq!(d.max(), c.max());
    for q in [0u64, 2500, 5000, 9000, 9500, 9900, 9990, 10000] {
        assert_eq!(d.percentile(q), c.percentile(q));
    }
}

#[test]
fn test_empty_histogram_round_trip() {
    let c = MetricsCollector::new(100_000, 3).unwrap();
    assert_eq!(c.count(), 0);
    assert_eq!(c.min(), 0);
    assert_eq!(c.max(), 0);
    assert_eq!(c.percentile(9500), 0);
    let bytes = c.serialize();
    let d = MetricsCollector::deserialize(&bytes).expect("the blob should parse back");
    assert_eq!(d.count(), 0);
    assert_eq!(d.percentile(9500), 0);
}

#[test]
fn test_deserialize_rejects_garbage() {
    assert!(MetricsCollector::deserialize(&vec![]).is_none());
    assert!(MetricsCollector::deserialize(&vec![1, 2, 3]).is_none());
    assert!(MetricsCollector::deserialize(&vec![0u8; 30]).is_none());
    // A valid blob with one trailing byte no longer parses.
    let c = MetricsCollector::new(1000, 2).unwrap();
    let mut bytes = c.serialize();
    bytes.push(0);
    assert!(MetricsCollector::deserialize(&bytes).is_none());
}

#[test]
fn test_generate_summary_fields() {
    let mut c = MetricsCollector::new(100_000, 3).unwrap();
    for v in 1..=100u64 {
        c.record(v).unwrap();
    }
    let exec = ExecutionMetrics {
        emitted_intents: 10,
        dropped_intents: 2,
        ack_count: 8,
        fill_count: 8,
        gate_block_count: 3,
        cooldown_block_count: 4,
    };
    let s = c.generate_summary(2000, &exec);
    assert_eq!(s.count, 100);
    assert_eq!(s.min, 1);
    assert_eq!(s.max, 100);
    assert_eq!(s.p50, 50);
    assert_eq!(s.p95, 95);
    // 100 samples over 2 seconds: 50 samples per second, in thousandths.
    assert_eq!(s.throughput_milli, 50_000);
    assert_eq!(s.emitted_intents, 10);
    assert_eq!(s.dropped_intents, 2);
    assert_eq!(s.ack_count, 8);
    assert_eq!(s.fill_count, 8);
    assert_eq!(s.gate_block_count, 3);
    assert_eq!(s.cooldown_block_count, 4);
}
