use ultra_fast_altbot::execution::ExecutionMetrics;
use ultra_fast_altbot::execution::ExecutionMock;
use ultra_fast_altbot::execution::OrderEvent;
use ultra_fast_altbot::execution::OrderEventKind;
use ultra_fast_altbot::execution::OrderIntent;
use ultra_fast_altbot::execution::OrderSide;

#[test]
fn test_order_intent_creation() {
    let intent = OrderIntent::new(123, OrderSide::Buy, 5000_0000_0000, 1700000000000);
    assert_eq!(intent.symbol_id, 123);
    assert_eq!(intent.side, OrderSide::Buy);
    assert_eq!(intent.px_e8, 5000_0000_0000);
}

#[test]
fn test_order_event_creation() {
    let event = OrderEvent::new(OrderEventKind::Ack, 123, 5000_0000_0000, 1700000000000);
    assert_eq!(event.kind, OrderEventKind::Ack);
    assert_eq!(event.symbol_id, 123);
}

#[test]
fn test_execution_mock_creation() {
    let (_mock, _intent_tx, _event_rx) = ExecutionMock::new(100, 50, 100);
    // Successfully created
}

#[test]
fn test_execution_mock_process_intent() {
    let (mut mock, intent_tx, event_rx) = ExecutionMock::new(100, 50, 100);

    // Send an intent
    let intent = OrderIntent::new(42, OrderSide::Buy, 1000_0000_0000, 1700000000000);
    intent_tx.send(intent).unwrap();

    // Process intents
    mock.run_with_limit(1);

    // Should receive 3 events: Submitted, Ack, Fill
    let mut events = Vec::new();
    while let Ok(event) = event_rx.try_recv() {
        events.push(event);
    }

    assert_eq!(events.len(), 3);
    assert_eq!(events[0].kind, OrderEventKind::Submitted);
    assert_eq!(events[1].kind, OrderEventKind::Ack);
    assert_eq!(events[2].kind, OrderEventKind::Fill);

    // Verify counters
    let (submitted, acks, fills) = mock.get_counters();
    assert_eq!(submitted, 1);
    assert_eq!(acks, 1);
    assert_eq!(fills, 1);
}

#[test]
fn test_execution_mock_multiple_intents() {
    let (mut mock, intent_tx, event_rx) = ExecutionMock::new(100, 50, 100);

    // Send multiple intents
    for i in 0..5 {
        let intent = OrderIntent::new(i, OrderSide::Buy, 1000_0000_0000, 1700000000000 + i as u64);
        intent_tx.send(intent).unwrap();
    }

    // Process all intents
    mock.run_with_limit(5);

    // Should receive 15 events: 5 * (Submitted, Ack, Fill)
    let mut event_count = 0;
    while event_rx.try_recv().is_ok() {
        event_count += 1;
    }

    assert_eq!(event_count, 15);

    // Verify counters
    let (submitted, acks, fills) = mock.get_counters();
    assert_eq!(submitted, 5);
    assert_eq!(acks, 5);
    assert_eq!(fills, 5);
}

#[test]
fn test_event_timestamps_follow_delays() {
    // Delays are given in microseconds and land on the event timestamps in
    // whole milliseconds.
    let (mut mock, intent_tx, event_rx) = ExecutionMock::new(10, 2000, 3000);
    let intent = OrderIntent::new(7, OrderSide::Buy, 42, 1_000_000);
    intent_tx.send(intent).unwrap();
    mock.run_with_limit(1);

    let submitted = event_rx.try_recv().unwrap();
    let ack = event_rx.try_recv().unwrap();
    let fill = event_rx.try_recv().unwrap();
    assert_eq!(submitted.ts_unix_ms, 1_000_000);
    assert_eq!(ack.ts_unix_ms, 1_000_002);
    assert_eq!(fill.ts_unix_ms, 1_000_005);
}

#[test]
fn test_execution_metrics_getters() {
    let m = ExecutionMetrics::new(5, 4, 3);
    assert_eq!(m.get_submitted(), 5);
    assert_eq!(m.get_acks(), 4);
    assert_eq!(m.get_fills(), 3);
}

#[test]
fn test_event_queue_drops_are_counted() {
    // Intent capacity 1 gives an event queue of capacity 2: one intent
    // produces three events, so exactly one is refused and counted.
    let (mut mock, intent_tx, _event_rx) = ExecutionMock::new(1, 50, 100);
    let intent = OrderIntent::new(3, OrderSide::Buy, 42, 1000);
    intent_tx.send(intent).unwrap();
    mock.run_with_limit(1);
    let (submitted, acks, fills) = mock.get_counters();
    assert_eq!((submitted, acks, fills), (1, 1, 1));
    assert_eq!(mock.get_event_drops(), 1);
}
