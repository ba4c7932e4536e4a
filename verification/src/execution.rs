use vstd::prelude::*;

use crate::channels;
use crate::channels::TryRecvOutcome;

verus! {

/// Order side (only Buy is produced by the pipeline).
#[derive(Debug, Clone, Copy, PartialEq, Eq, Structural)]
pub enum OrderSide {
    Buy,
    Sell,
}

/// Order intent emitted from the hot path.
#[derive(Debug, Clone, Copy)]
pub struct OrderIntent {
    pub symbol_id: u32,
    pub side: OrderSide,
    pub px_e8: u64,
    pub ts_unix_ms: u64,
}

impl OrderIntent {
    pub fn new(symbol_id: u32, side: OrderSide, px_e8: u64, ts_unix_ms: u64) -> (r: OrderIntent)
        ensures
            r.symbol_id == symbol_id,
            r.side == side,
            r.px_e8 == px_e8,
            r.ts_unix_ms == ts_unix_ms,
    {
        OrderIntent { symbol_id, side, px_e8, ts_unix_ms }
    }
}

/// Lifecycle stage of a simulated order event.
#[derive(Debug, Clone, Copy, PartialEq, Eq, Structural)]
pub enum OrderEventKind {
    Submitted,
    Ack,
    Fill,
}

/// Order event produced by the execution simulator.
#[derive(Debug, Clone, Copy)]
pub struct OrderEvent {
    pub kind: OrderEventKind,
    pub symbol_id: u32,
    pub px_e8: u64,
    pub ts_unix_ms: u64,
}

impl OrderEvent {
    pub fn new(kind: OrderEventKind, symbol_id: u32, px_e8: u64, ts_unix_ms: u64) -> (r: OrderEvent)
        ensures
            r.kind == kind,
            r.symbol_id == symbol_id,
            r.px_e8 == px_e8,
            r.ts_unix_ms == ts_unix_ms,
    {
        OrderEvent { kind, symbol_id, px_e8, ts_unix_ms }
    }
}

/// A saturating step of a monotonic counter.
pub open spec fn inc_sat(x: u64) -> u64 {
    if x == u64::MAX {
        u64::MAX
    } else {
        (x + 1) as u64
    }
}

/// Saturating addition on 64-bit timestamps.
pub open spec fn sat_add_u64(a: u64, b: u64) -> u64 {
    if a + b > u64::MAX {
        u64::MAX
    } else {
        (a + b) as u64
    }
}

/// The three events answering one intent, in lifecycle order: Submitted at
/// the intent's timestamp, Ack after the ack delay, Fill after the further
/// fill delay. Delays are in microseconds and land on the timestamps in
/// whole milliseconds, saturating at the top of the range; nothing else
/// enters the timestamps — the simulator never consults a clock.
pub open spec fn answer_events(
    intent: OrderIntent,
    ack_delay_us: u64,
    fill_delay_us: u64,
) -> Seq<OrderEvent> {
    let ack_ts = sat_add_u64(intent.ts_unix_ms, ack_delay_us / 1000);
    let fill_ts = sat_add_u64(ack_ts, fill_delay_us / 1000);
    seq![
        (OrderEvent {
            kind: OrderEventKind::Submitted,
            symbol_id: intent.symbol_id,
            px_e8: intent.px_e8,
            ts_unix_ms: intent.ts_unix_ms,
        }),
        (OrderEvent {
            kind: OrderEventKind::Ack,
            symbol_id: intent.symbol_id,
            px_e8: intent.px_e8,
            ts_unix_ms: ack_ts,
        }),
        (OrderEvent {
            kind: OrderEventKind::Fill,
            symbol_id: intent.symbol_id,
            px_e8: intent.px_e8,
            ts_unix_ms: fill_ts,
        }),
    ]
}

/// Execution simulator: consumes order intents and answers each with a
/// Submitted, an Ack and a Fill event whose timestamps are derived from the
/// intent timestamp plus the configured delays. It never consults a clock.
pub struct ExecutionMock {
    /// Receiver for order intents from the hot path.
    intent_rx: crossbeam_channel::Receiver<OrderIntent>,
    /// Sender for order events back to the feedback side.
    event_tx: Option<crossbeam_channel::Sender<OrderEvent>>,
    /// Counter for acknowledged orders.
    ack_count: u64,
    /// Counter for filled orders.
    fill_count: u64,
    /// Counter for submitted orders.
    submitted_count: u64,
    /// Delay in microseconds before the Ack event.
    ack_delay_us: u64,
    /// Delay in microseconds between Ack and Fill.
    fill_delay_us: u64,
    /// Events refused by a full event queue; the counters still advance.
    event_drop_count: u64,
    /// Ghost log of every event produced, in order.
    events: Ghost<Seq<OrderEvent>>,
}

impl ExecutionMock {
    /// Every intent yields its three events in one step, so the three
    /// counters always agree.
    pub closed spec fn wf(&self) -> bool {
        &&& self.ack_count == self.submitted_count
        &&& self.fill_count == self.submitted_count
    }

    /// Number of intents answered with a Submitted event.
    pub closed spec fn submitted_spec(&self) -> u64 {
        self.submitted_count
    }

    /// Number of intents answered with an Ack event.
    pub closed spec fn acks_spec(&self) -> u64 {
        self.ack_count
    }

    /// Number of intents answered with a Fill event.
    pub closed spec fn fills_spec(&self) -> u64 {
        self.fill_count
    }

    /// Whether the event sender is still installed.
    pub closed spec fn has_event_sender(&self) -> bool {
        self.event_tx is Some
    }

    /// Every event produced so far, in order.
    pub closed spec fn events_spec(&self) -> Seq<OrderEvent> {
        self.events@
    }

    /// Number of produced events the full event queue refused.
    pub closed spec fn event_drops_spec(&self) -> u64 {
        self.event_drop_count
    }

    /// Configured delay before the Ack event, in microseconds.
    pub closed spec fn ack_delay_spec(&self) -> u64 {
        self.ack_delay_us
    }

    /// Configured delay between Ack and Fill, in microseconds.
    pub closed spec fn fill_delay_spec(&self) -> u64 {
        self.fill_delay_us
    }

    /// Create a new execution simulator with its intent and event channels.
    /// The event channel is sized at twice the intent capacity, so the bound
    /// must leave room for the doubling.
    pub fn new(queue_capacity: usize, ack_delay_us: u64, fill_delay_us: u64) -> (r: (
        ExecutionMock,
        crossbeam_channel::Sender<OrderIntent>,
        crossbeam_channel::Receiver<OrderEvent>,
    ))
        requires
            queue_capacity <= usize::MAX / 2,
        ensures
            r.0.wf(),
            r.0.submitted_spec() == 0,
            r.0.acks_spec() == 0,
            r.0.fills_spec() == 0,
            r.0.has_event_sender(),
            r.0.events_spec() == Seq::<OrderEvent>::empty(),
            r.0.event_drops_spec() == 0,
            r.0.ack_delay_spec() == ack_delay_us,
            r.0.fill_delay_spec() == fill_delay_us,
    {
        let (intent_tx, intent_rx) = channels::new_bounded::<OrderIntent>(queue_capacity);
        let (event_tx, event_rx) = channels::new_bounded::<OrderEvent>(queue_capacity * 2);
        let mock = ExecutionMock {
            intent_rx,
            event_tx: Some(event_tx),
            ack_count: 0,
            fill_count: 0,
            submitted_count: 0,
            ack_delay_us,
            fill_delay_us,
            event_drop_count: 0,
            events: Ghost(Seq::empty()),
        };
        (mock, intent_tx, event_rx)
    }

    /// Read the submitted, ack and fill counters.
    pub fn get_counters(&self) -> (r: (u64, u64, u64))
        ensures
            r.0 == self.submitted_spec(),
            r.1 == self.acks_spec(),
            r.2 == self.fills_spec(),
    {
        (self.submitted_count, self.ack_count, self.fill_count)
    }

    /// Answer one intent with its Submitted, Ack and Fill events, in order
    /// (see `answer_events` for the three events' exact shape). A full event
    /// queue drops events — counted, and the counters still advance; without
    /// an event sender nothing happens and the simulator reports that it
    /// should stop.
    fn process_intent(&mut self, intent: OrderIntent) -> (ok: bool)
        requires
            old(self).wf(),
        ensures
            final(self).wf(),
            ok == old(self).has_event_sender(),
            final(self).has_event_sender() == old(self).has_event_sender(),
            final(self).ack_delay_spec() == old(self).ack_delay_spec(),
            final(self).fill_delay_spec() == old(self).fill_delay_spec(),
            ok ==> final(self).submitted_spec() == inc_sat(old(self).submitted_spec()),
            ok ==> final(self).events_spec() == old(self).events_spec() + answer_events(
                intent,
                old(self).ack_delay_spec(),
                old(self).fill_delay_spec(),
            ),
            ok ==> old(self).event_drops_spec() <= final(self).event_drops_spec()
                && final(self).event_drops_spec() as int <= old(self).event_drops_spec() + 3,
            !ok ==> {
                &&& final(self).submitted_spec() == old(self).submitted_spec()
                &&& final(self).events_spec() == old(self).events_spec()
                &&& final(self).event_drops_spec() == old(self).event_drops_spec()
            },
    {
        if self.event_tx.is_none() {
            return false;
        }

        let ack_ts: u64 = intent.ts_unix_ms.saturating_add(self.ack_delay_us / 1000);
        let fill_ts: u64 = ack_ts.saturating_add(self.fill_delay_us / 1000);

        self.submitted_count = self.submitted_count.saturating_add(1);
        let submit_event = OrderEvent::new(
            OrderEventKind::Submitted,
            intent.symbol_id,
            intent.px_e8,
            intent.ts_unix_ms,
        );
        let sent_submit: bool = match &self.event_tx {
            Some(tx) => channels::try_send(tx, submit_event),
            None => false,
        };
        if !sent_submit {
            self.event_drop_count = self.event_drop_count.saturating_add(1);
        }

        self.ack_count = self.ack_count.saturating_add(1);
        let ack_event = OrderEvent::new(OrderEventKind::Ack, intent.symbol_id, intent.px_e8, ack_ts);
        let sent_ack: bool = match &self.event_tx {
            Some(tx) => channels::try_send(tx, ack_event),
            None => false,
        };
        if !sent_ack {
            self.event_drop_count = self.event_drop_count.saturating_add(1);
        }

        self.fill_count = self.fill_count.saturating_add(1);
        let fill_event = OrderEvent::new(
            OrderEventKind::Fill,
            intent.symbol_id,
            intent.px_e8,
            fill_ts,
        );
        let sent_fill: bool = match &self.event_tx {
            Some(tx) => channels::try_send(tx, fill_event),
            None => false,
        };
        if !sent_fill {
            self.event_drop_count = self.event_drop_count.saturating_add(1);
        }

        proof {
            self.events@ = self.events@ + answer_events(
                intent,
                self.ack_delay_us,
                self.fill_delay_us,
            );
        }
        true
    }

    /// Drain and answer up to `max_intents` intents that are already waiting,
    /// stopping at an empty or closed channel. Returns how many were
    /// answered; a caller that wants to wait for more calls again. With a
    /// sender installed, every answered intent appends its three events to
    /// the log and advances the submitted counter by exactly one (until the
    /// counter's top).
    pub fn run_with_limit(&mut self, max_intents: usize) -> (processed: usize)
        requires
            old(self).wf(),
        ensures
            final(self).wf(),
            processed <= max_intents,
            final(self).submitted_spec() >= old(self).submitted_spec(),
            final(self).has_event_sender() == old(self).has_event_sender(),
            final(self).ack_delay_spec() == old(self).ack_delay_spec(),
            final(self).fill_delay_spec() == old(self).fill_delay_spec(),
            old(self).events_spec().is_prefix_of(final(self).events_spec()),
            old(self).has_event_sender() ==> final(self).events_spec().len() == old(
                self,
            ).events_spec().len() + 3 * processed,
            old(self).has_event_sender() && old(self).submitted_spec() + processed <= u64::MAX
                ==> final(self).submitted_spec() as int == old(self).submitted_spec() + processed,
    {
        let ghost entry = *self;
        let mut processed: usize = 0;
        loop
            invariant
                self.wf(),
                processed <= max_intents,
                self.submitted_spec() >= entry.submitted_spec(),
                self.has_event_sender() == entry.has_event_sender(),
                self.ack_delay_spec() == entry.ack_delay_spec(),
                self.fill_delay_spec() == entry.fill_delay_spec(),
                entry.events_spec().is_prefix_of(self.events_spec()),
                entry.has_event_sender() ==> self.events_spec().len() == entry.events_spec().len()
                    + 3 * processed,
                entry.has_event_sender() ==> self.submitted_spec() as int == (
                if entry.submitted_spec() + processed <= u64::MAX {
                    entry.submitted_spec() + processed
                } else {
                    u64::MAX as int
                }),
            decreases max_intents - processed,
        {
            if processed >= max_intents {
                break;
            }
            match channels::try_recv(&self.intent_rx) {
                TryRecvOutcome::Received(intent) => {
                    let ok = self.process_intent(intent);
                    processed = processed + 1;
                    if !ok {
                        break;
                    }
                },
                TryRecvOutcome::Empty => {
                    break;
                },
                TryRecvOutcome::Disconnected => {
                    break;
                },
            }
        }
        processed
    }

    /// Drain and answer every intent that is already waiting (see
    /// `run_with_limit`).
    pub fn run(&mut self)
        requires
            old(self).wf(),
        ensures
            final(self).wf(),
            final(self).submitted_spec() >= old(self).submitted_spec(),
            final(self).has_event_sender() == old(self).has_event_sender(),
            final(self).ack_delay_spec() == old(self).ack_delay_spec(),
            final(self).fill_delay_spec() == old(self).fill_delay_spec(),
            old(self).events_spec().is_prefix_of(final(self).events_spec()),
    {
        let _processed: usize = self.run_with_limit(usize::MAX);
    }

    /// Read the count of produced events that the full event queue refused.
    pub fn get_event_drops(&self) -> (r: u64)
        ensures
            r == self.event_drops_spec(),
    {
        self.event_drop_count
    }
}

/// The simulator's counters form a chain: fills never exceed acks, and acks
/// never exceed submissions.
pub proof fn lemma_counter_chain(m: &ExecutionMock)
    requires
        m.wf(),
    ensures
        m.fills_spec() <= m.acks_spec(),
        m.acks_spec() <= m.submitted_spec(),
{
}

/// Snapshot of the execution counters, for reporting.
pub struct ExecutionMetrics {
    pub submitted: u64,
    pub acks: u64,
    pub fills: u64,
}

impl ExecutionMetrics {
    pub fn new(submitted: u64, acks: u64, fills: u64) -> (r: ExecutionMetrics)
        ensures
            r.submitted == submitted,
            r.acks == acks,
            r.fills == fills,
    {
        ExecutionMetrics { submitted, acks, fills }
    }

    pub fn get_submitted(&self) -> (r: u64)
        ensures
            r == self.submitted,
    {
        self.submitted
    }

    pub fn get_acks(&self) -> (r: u64)
        ensures
            r == self.acks,
    {
        self.acks
    }

    pub fn get_fills(&self) -> (r: u64)
        ensures
            r == self.fills,
    {
        self.fills
    }
}

} // verus!
