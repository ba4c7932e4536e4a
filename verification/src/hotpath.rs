use vstd::prelude::*;

use crate::channels;
use crate::channels::TryRecvOutcome;
use crate::data_feed::TradeTick;
use crate::execution::ExecutionMock;
use crate::execution::OrderEvent;
use crate::execution::OrderEventKind;
use crate::execution::OrderIntent;
use crate::execution::OrderSide;

verus! {

// ---------------------------------------------------------------------------
// Price points and the per-symbol ring
// ---------------------------------------------------------------------------

/// One recorded price observation: fixed-point price (scaled by 1e8) and its
/// millisecond timestamp.
#[derive(Debug, Clone, Copy)]
pub struct PricePoint {
    pub px_e8: u64,
    pub ts_unix_ms: u64,
}

/// A point is eligible for a windowed query when its timestamp lies in the
/// closed interval from the cutoff up to the query time.
pub open spec fn eligible(p: PricePoint, cutoff: u64, now: u64) -> bool {
    cutoff <= p.ts_unix_ms && p.ts_unix_ms <= now
}

/// Number of eligible points in a sequence.
pub open spec fn eligible_count(pts: Seq<PricePoint>, cutoff: u64, now: u64) -> int
    decreases pts.len(),
{
    if pts.len() == 0 {
        0
    } else {
        eligible_count(pts.drop_last(), cutoff, now)
            + if eligible(pts.last(), cutoff, now) { 1int } else { 0int }
    }
}

/// The eligible point with the smallest timestamp, scanning left to right and
/// keeping the earliest-indexed point on timestamp ties.
pub open spec fn oldest_eligible(pts: Seq<PricePoint>, cutoff: u64, now: u64) -> Option<PricePoint>
    decreases pts.len(),
{
    if pts.len() == 0 {
        None
    } else {
        let prev = oldest_eligible(pts.drop_last(), cutoff, now);
        let p = pts.last();
        match prev {
            None => if eligible(p, cutoff, now) { Some(p) } else { None },
            Some(q) => if eligible(p, cutoff, now) && p.ts_unix_ms < q.ts_unix_ms {
                Some(p)
            } else {
                Some(q)
            },
        }
    }
}

/// The eligible point with the largest timestamp, scanning left to right and
/// keeping the earliest-indexed point on timestamp ties.
pub open spec fn newest_eligible(pts: Seq<PricePoint>, cutoff: u64, now: u64) -> Option<PricePoint>
    decreases pts.len(),
{
    if pts.len() == 0 {
        None
    } else {
        let prev = newest_eligible(pts.drop_last(), cutoff, now);
        let p = pts.last();
        match prev {
            None => if eligible(p, cutoff, now) { Some(p) } else { None },
            Some(q) => if eligible(p, cutoff, now) && p.ts_unix_ms > q.ts_unix_ms {
                Some(p)
            } else {
                Some(q)
            },
        }
    }
}

/// Percent change from `old_px` to `new_px`, in basis points (hundredths of a
/// percent), truncated toward zero.
pub open spec fn return_bps(old_px: u64, new_px: u64) -> i128
    recommends
        old_px > 0,
{
    if new_px >= old_px {
        (((new_px - old_px) * 10000) / (old_px as int)) as i128
    } else {
        (-(((old_px - new_px) * 10000) / (old_px as int))) as i128
    }
}

/// The windowed return over a sequence of points: the percent change in basis
/// points from the oldest to the newest eligible point, absent when fewer
/// than two points are eligible or the oldest price is zero.
pub open spec fn window_return(pts: Seq<PricePoint>, window_ms: u64, now: u64) -> Option<i128> {
    let cutoff = window_cutoff(window_ms, now);
    if eligible_count(pts, cutoff, now) >= 2 {
        match (oldest_eligible(pts, cutoff, now), newest_eligible(pts, cutoff, now)) {
            (Some(o), Some(n)) => if o.px_e8 > 0 {
                Some(return_bps(o.px_e8, n.px_e8))
            } else {
                None
            },
            _ => None,
        }
    } else {
        None
    }
}

/// The lower timestamp bound of a window ending at `now`, saturating at zero.
pub open spec fn window_cutoff(window_ms: u64, now: u64) -> u64 {
    if now >= window_ms {
        (now - window_ms) as u64
    } else {
        0
    }
}

/// What the oldest-point selection means: when some point is eligible, the
/// scan yields an eligible point of the sequence whose timestamp is minimal
/// among all eligible points; when none is, it yields nothing.
pub proof fn lemma_oldest_eligible_is_min(pts: Seq<PricePoint>, cutoff: u64, now: u64)
    ensures
        match oldest_eligible(pts, cutoff, now) {
            Some(o) => {
                &&& eligible(o, cutoff, now)
                &&& exists|k: int| 0 <= k < pts.len() && pts[k] == o
                &&& forall|j: int|
                    0 <= j < pts.len() && eligible(#[trigger] pts[j], cutoff, now)
                        ==> o.ts_unix_ms <= pts[j].ts_unix_ms
            },
            None => forall|j: int|
                0 <= j < pts.len() ==> !eligible(#[trigger] pts[j], cutoff, now),
        },
    decreases pts.len(),
{
    if pts.len() > 0 {
        lemma_oldest_eligible_is_min(pts.drop_last(), cutoff, now);
        match oldest_eligible(pts, cutoff, now) {
            Some(o) => {
                if o == pts.last() {
                    assert(pts[pts.len() - 1] == o);
                } else {
                    let prev = oldest_eligible(pts.drop_last(), cutoff, now);
                    let k = choose|k: int|
                        0 <= k < pts.drop_last().len() && pts.drop_last()[k] == prev->Some_0;
                    assert(pts[k] == o);
                }
                assert forall|j: int|
                    0 <= j < pts.len() && eligible(#[trigger] pts[j], cutoff, now) implies
                    o.ts_unix_ms <= pts[j].ts_unix_ms by {
                    if j < pts.len() - 1 {
                        assert(pts.drop_last()[j] == pts[j]);
                    }
                };
            },
            None => {
                assert forall|j: int| 0 <= j < pts.len() implies !eligible(
                    #[trigger] pts[j],
                    cutoff,
                    now,
                ) by {
                    if j < pts.len() - 1 {
                        assert(pts.drop_last()[j] == pts[j]);
                    }
                };
            },
        }
    }
}

/// What the newest-point selection means: when some point is eligible, the
/// scan yields an eligible point of the sequence whose timestamp is maximal
/// among all eligible points; when none is, it yields nothing.
pub proof fn lemma_newest_eligible_is_max(pts: Seq<PricePoint>, cutoff: u64, now: u64)
    ensures
        match newest_eligible(pts, cutoff, now) {
            Some(n) => {
                &&& eligible(n, cutoff, now)
                &&& exists|k: int| 0 <= k < pts.len() && pts[k] == n
                &&& forall|j: int|
                    0 <= j < pts.len() && eligible(#[trigger] pts[j], cutoff, now)
                        ==> pts[j].ts_unix_ms <= n.ts_unix_ms
            },
            None => forall|j: int|
                0 <= j < pts.len() ==> !eligible(#[trigger] pts[j], cutoff, now),
        },
    decreases pts.len(),
{
    if pts.len() > 0 {
        lemma_newest_eligible_is_max(pts.drop_last(), cutoff, now);
        match newest_eligible(pts, cutoff, now) {
            Some(n) => {
                if n == pts.last() {
                    assert(pts[pts.len() - 1] == n);
                } else {
                    let prev = newest_eligible(pts.drop_last(), cutoff, now);
                    let k = choose|k: int|
                        0 <= k < pts.drop_last().len() && pts.drop_last()[k] == prev->Some_0;
                    assert(pts[k] == n);
                }
                assert forall|j: int|
                    0 <= j < pts.len() && eligible(#[trigger] pts[j], cutoff, now) implies
                    pts[j].ts_unix_ms <= n.ts_unix_ms by {
                    if j < pts.len() - 1 {
                        assert(pts.drop_last()[j] == pts[j]);
                    }
                };
            },
            None => {
                assert forall|j: int| 0 <= j < pts.len() implies !eligible(
                    #[trigger] pts[j],
                    cutoff,
                    now,
                ) by {
                    if j < pts.len() - 1 {
                        assert(pts.drop_last()[j] == pts[j]);
                    }
                };
            },
        }
    }
}

/// There are never more eligible points than points.
pub proof fn lemma_eligible_count_le_len(pts: Seq<PricePoint>, cutoff: u64, now: u64)
    ensures
        0 <= eligible_count(pts, cutoff, now) <= pts.len(),
    decreases pts.len(),
{
    if pts.len() > 0 {
        lemma_eligible_count_le_len(pts.drop_last(), cutoff, now);
    }
}

/// A windowed query over at most one point is always absent: at least two
/// eligible points are needed for a return.
pub proof fn lemma_single_point_absent(pts: Seq<PricePoint>, window_ms: u64, now: u64)
    requires
        pts.len() < 2,
    ensures
        window_return(pts, window_ms, now) is None,
{
    lemma_eligible_count_le_len(pts, window_cutoff(window_ms, now), now);
}

/// The return is monotone in the newest price while the oldest price is held
/// fixed: a higher newest price never lowers the computed return.
pub proof fn lemma_return_monotone_in_newest(old_px: u64, new_lo: u64, new_hi: u64)
    requires
        old_px > 0,
        new_lo <= new_hi,
    ensures
        return_bps(old_px, new_lo) <= return_bps(old_px, new_hi),
{
    if new_lo >= old_px {
        // Both differences are non-negative; division by a fixed positive
        // denominator preserves their order.
        assert(((new_lo - old_px) * 10000) / (old_px as int)
            <= ((new_hi - old_px) * 10000) / (old_px as int)) by (nonlinear_arith)
            requires
                old_px > 0,
                old_px <= new_lo <= new_hi,
        ;
    } else if new_hi >= old_px {
        // A non-positive return never exceeds a non-negative one.
        assert(((new_hi - old_px) * 10000) / (old_px as int) >= 0) by (nonlinear_arith)
            requires
                old_px > 0,
                new_hi >= old_px,
        ;
        assert(((old_px - new_lo) * 10000) / (old_px as int) >= 0) by (nonlinear_arith)
            requires
                old_px > 0,
                new_lo < old_px,
        ;
    } else {
        // Both below the old price: the smaller drop divides to the smaller
        // magnitude, and negation reverses the order.
        assert(((old_px - new_hi) * 10000) / (old_px as int)
            <= ((old_px - new_lo) * 10000) / (old_px as int)) by (nonlinear_arith)
            requires
                old_px > 0,
                new_lo <= new_hi < old_px,
        ;
    }
}

/// Fixed-capacity ring of recent prices for one symbol, with precomputed
/// longer-window aggregate returns.
///
/// The first `count` slots hold the valid points. Until the ring fills, the
/// write index equals the count; once full, the write index wraps and the
/// oldest slot is overwritten.
#[derive(Debug, Clone)]
pub struct PriceSnapshot {
    /// Ring buffer of prices (fixed size, pre-allocated).
    prices: Vec<PricePoint>,
    /// Current write index in the ring.
    write_idx: usize,
    /// Number of valid entries.
    count: usize,
    /// Window duration in milliseconds for the short-horizon return.
    window_ms: u64,
    /// 15-minute aggregate return in basis points (computed off hot-path).
    ret_15m: Option<i128>,
    /// 1-hour aggregate return in basis points (computed off hot-path).
    ret_1h: Option<i128>,
}

impl PriceSnapshot {
    /// Ring shape invariant.
    pub closed spec fn wf(&self) -> bool {
        &&& self.prices@.len() >= 1
        &&& self.count <= self.prices@.len()
        &&& self.write_idx < self.prices@.len()
        &&& (self.count < self.prices@.len() ==> self.write_idx == self.count)
    }

    /// The valid points, in slot order.
    pub closed spec fn points(&self) -> Seq<PricePoint> {
        self.prices@.take(self.count as int)
    }

    /// Total slot capacity.
    pub closed spec fn capacity(&self) -> int {
        self.prices@.len() as int
    }

    /// Number of valid points.
    pub open spec fn len(&self) -> int {
        self.points().len() as int
    }

    /// Short-horizon window duration in milliseconds.
    pub closed spec fn window_ms_spec(&self) -> u64 {
        self.window_ms
    }

    /// The stored 15-minute aggregate return.
    pub closed spec fn ret_15m_spec(&self) -> Option<i128> {
        self.ret_15m
    }

    /// The stored 1-hour aggregate return.
    pub closed spec fn ret_1h_spec(&self) -> Option<i128> {
        self.ret_1h
    }

    /// Create a new snapshot sized for the given window, assuming a peak rate
    /// of 100 ticks per second.
    ///
    /// The bound on `window_secs` keeps the slot count addressable and the
    /// window expressible in milliseconds.
    pub fn new(window_secs: u64) -> (s: PriceSnapshot)
        requires
            1 <= window_secs <= 1_000_000,
        ensures
            s.wf(),
            s.len() == 0,
            s.points() =~= Seq::<PricePoint>::empty(),
            s.capacity() == window_secs * 100,
            s.window_ms_spec() == window_secs * 1000,
            s.ret_15m_spec() is None,
            s.ret_1h_spec() is None,
    {
        let capacity: usize = (window_secs * 100) as usize;
        let mut prices: Vec<PricePoint> = Vec::new();
        let mut i: usize = 0;
        while i < capacity
            invariant
                i <= capacity,
                prices@.len() == i as int,
            decreases capacity - i,
        {
            prices.push(PricePoint { px_e8: 0, ts_unix_ms: 0 });
            i = i + 1;
        }
        PriceSnapshot {
            prices,
            write_idx: 0,
            count: 0,
            window_ms: window_secs * 1000,
            ret_15m: None,
            ret_1h: None,
        }
    }

    /// Add a new price point, overwriting the oldest slot once the ring is
    /// full.
    pub fn add(&mut self, px_e8: u64, ts_unix_ms: u64)
        requires
            old(self).wf(),
        ensures
            final(self).wf(),
            final(self).capacity() == old(self).capacity(),
            final(self).window_ms_spec() == old(self).window_ms_spec(),
            final(self).ret_15m_spec() == old(self).ret_15m_spec(),
            final(self).ret_1h_spec() == old(self).ret_1h_spec(),
            final(self).write_idx_spec() == (old(self).write_idx_spec() + 1) % old(
                self,
            ).capacity(),
            old(self).len() < old(self).capacity() ==> {
                &&& final(self).len() == old(self).len() + 1
                &&& final(self).points() =~= old(self).points().push(
                    PricePoint { px_e8, ts_unix_ms },
                )
            },
            old(self).len() == old(self).capacity() ==> {
                &&& final(self).len() == old(self).len()
                &&& final(self).points() =~= old(self).points().update(
                    old(self).write_idx_spec(),
                    PricePoint { px_e8, ts_unix_ms },
                )
            },
    {
        let len: usize = self.prices.len();
        self.prices.set(self.write_idx, PricePoint { px_e8, ts_unix_ms });
        let ghost wi = self.write_idx as int;
        self.write_idx = (self.write_idx + 1) % len;
        proof {
            if wi + 1 == len as int {
                assert((wi + 1) % (len as int) == 0) by (nonlinear_arith)
                    requires
                        wi + 1 == len as int,
                        len > 0,
                ;
            } else {
                assert((wi + 1) % (len as int) == wi + 1) by (nonlinear_arith)
                    requires
                        0 <= wi + 1 < len as int,
                ;
            }
        }
        if self.count < len {
            self.count = self.count + 1;
        }
    }

    /// The current write index (meaningful to callers only through `add`'s
    /// overwrite case).
    pub closed spec fn write_idx_spec(&self) -> int {
        self.write_idx as int
    }

    /// Scan the valid points and compute the windowed return ending at `now`:
    /// the change from the oldest to the newest eligible point, in basis
    /// points, absent when fewer than two points are eligible or the oldest
    /// price is zero.
    fn return_over(&self, window_ms: u64, now: u64) -> (r: Option<i128>)
        requires
            self.wf(),
        ensures
            r == window_return(self.points(), window_ms, now),
    {
        let cutoff: u64 = now.saturating_sub(window_ms);
        let ghost pts = self.points();

        let mut oldest: Option<PricePoint> = None;
        let mut newest: Option<PricePoint> = None;
        let mut n_eligible: usize = 0;
        let mut i: usize = 0;
        while i < self.count
            invariant
                self.wf(),
                i <= self.count,
                pts == self.points(),
                cutoff == window_cutoff(window_ms, now),
                oldest == oldest_eligible(pts.take(i as int), cutoff, now),
                newest == newest_eligible(pts.take(i as int), cutoff, now),
                n_eligible as int == eligible_count(pts.take(i as int), cutoff, now),
                n_eligible <= i,
            decreases self.count - i,
        {
            let p = self.prices[i];
            proof {
                assert(pts.take(i + 1).drop_last() =~= pts.take(i as int));
                assert(pts.take(i + 1).last() == p);
            }
            if cutoff <= p.ts_unix_ms && p.ts_unix_ms <= now {
                n_eligible = n_eligible + 1;
                oldest = match oldest {
                    None => Some(p),
                    Some(q) => if p.ts_unix_ms < q.ts_unix_ms { Some(p) } else { Some(q) },
                };
                newest = match newest {
                    None => Some(p),
                    Some(q) => if p.ts_unix_ms > q.ts_unix_ms { Some(p) } else { Some(q) },
                };
            }
            i = i + 1;
        }
        proof {
            assert(pts.take(self.count as int) =~= pts);
        }

        if n_eligible >= 2 {
            match (oldest, newest) {
                (Some(o), Some(n)) => {
                    if o.px_e8 > 0 {
                        Some(compute_return_bps(o.px_e8, n.px_e8))
                    } else {
                        None
                    }
                },
                _ => None,
            }
        } else {
            None
        }
    }

    /// Compute the short-horizon (60 s by default) return ending at
    /// `current_ts_ms`, in basis points.
    pub fn compute_return_60s(&self, current_ts_ms: u64) -> (r: Option<i128>)
        requires
            self.wf(),
        ensures
            r == window_return(self.points(), self.window_ms_spec(), current_ts_ms),
            self.len() < 2 ==> r is None,
    {
        proof {
            if self.len() < 2 {
                lemma_single_point_absent(self.points(), self.window_ms, current_ts_ms);
            }
        }
        if self.count < 2 {
            return None;
        }
        self.return_over(self.window_ms, current_ts_ms)
    }

    /// Compute the return over a longer window given in seconds (off
    /// hot-path).
    fn compute_return_window(&self, window_secs: u64, current_ts_ms: u64) -> (r: Option<i128>)
        requires
            self.wf(),
            window_secs <= 1_000_000,
        ensures
            r == window_return(self.points(), (window_secs * 1000) as u64, current_ts_ms),
    {
        if self.count < 2 {
            proof {
                lemma_single_point_absent(self.points(), (window_secs * 1000) as u64, current_ts_ms);
            }
            return None;
        }
        self.return_over(window_secs * 1000, current_ts_ms)
    }

    /// Refresh the 15-minute and 1-hour aggregate returns (off hot-path).
    pub fn update_aggregates(&mut self, current_ts_ms: u64)
        requires
            old(self).wf(),
        ensures
            final(self).wf(),
            final(self).points() == old(self).points(),
            final(self).len() == old(self).len(),
            final(self).capacity() == old(self).capacity(),
            final(self).window_ms_spec() == old(self).window_ms_spec(),
            final(self).ret_15m_spec() == window_return(
                old(self).points(),
                900_000,
                current_ts_ms,
            ),
            final(self).ret_1h_spec() == window_return(
                old(self).points(),
                3_600_000,
                current_ts_ms,
            ),
    {
        self.ret_15m = self.compute_return_window(900, current_ts_ms);
        self.ret_1h = self.compute_return_window(3600, current_ts_ms);
    }

    /// Get the precomputed 15-minute return (hot-path safe).
    pub fn get_return_15m(&self) -> (r: Option<i128>)
        ensures
            r == self.ret_15m_spec(),
    {
        self.ret_15m
    }

    /// Get the precomputed 1-hour return (hot-path safe).
    pub fn get_return_1h(&self) -> (r: Option<i128>)
        ensures
            r == self.ret_1h_spec(),
    {
        self.ret_1h
    }
}

/// Divide the scaled price difference by the old price, split by sign so that
/// the machine arithmetic matches the truncation in `return_bps`.
fn compute_return_bps(old_px: u64, new_px: u64) -> (r: i128)
    requires
        old_px > 0,
    ensures
        r == return_bps(old_px, new_px),
{
    if new_px >= old_px {
        let diff: u128 = (new_px - old_px) as u128;
        proof {
            assert(diff * 10000 <= (u64::MAX as u128) * 10000) by (nonlinear_arith)
                requires
                    diff <= u64::MAX as u128,
            ;
            assert(diff * 10000 / (old_px as int) <= diff * 10000) by (nonlinear_arith)
                requires
                    old_px >= 1,
            ;
        }
        let v: u128 = diff * 10000 / (old_px as u128);
        v as i128
    } else {
        let diff: u128 = (old_px - new_px) as u128;
        proof {
            assert(diff * 10000 <= (u64::MAX as u128) * 10000) by (nonlinear_arith)
                requires
                    diff <= u64::MAX as u128,
            ;
            assert(diff * 10000 / (old_px as int) <= diff * 10000) by (nonlinear_arith)
                requires
                    old_px >= 1,
            ;
        }
        let v: u128 = diff * 10000 / (old_px as u128);
        -(v as i128)
    }
}

// ---------------------------------------------------------------------------
// Trigger gate and hot path
// ---------------------------------------------------------------------------

/// Trigger event recorded when a windowed return crosses the threshold.
#[derive(Debug, Clone, Copy)]
pub struct TriggerEvent {
    pub symbol_id: u32,
    pub ts_unix_ms: u64,
    /// The triggering return, in basis points.
    pub return_bps: i128,
    pub price_e8: u64,
}

/// The trigger gate's decision for one gated trigger, checked cheapest first.
pub enum GateVerdict {
    /// The symbol is still cooling down from its last accepted trigger.
    Cooldown,
    /// The token budget is exhausted.
    NoBudget,
    /// As many intents are open as the cap allows.
    TooManyOpen,
    /// The trigger passes every check and is charged to the trigger gate.
    Accepted,
}

/// Gate metrics for reporting.
#[derive(Debug, Clone, Copy)]
pub struct GateMetrics {
    pub emitted_intents: u64,
    pub dropped_intents: u64,
    pub gate_block_count: u64,
    pub cooldown_block_count: u64,
}

/// Hot-path processor: per-symbol price rings, the trigger gate, and intent
/// emission.
///
/// The trigger gate keeps an exact ledger. Ghost state records the full admission
/// log, the number of released open-intent slots, and the number of gated
/// trigger attempts; the well-formedness invariant ties every counter to
/// that ledger.
pub struct HotPath {
    /// Global kill switch; initially true.
    can_buy: bool,
    /// Return threshold for triggering, in basis points.
    threshold_bps: u64,
    /// Price ring per symbol.
    snapshots: Vec<PriceSnapshot>,
    /// Number of symbols tracked.
    max_symbols: usize,
    /// Cap on simultaneously open intents.
    max_open_intents: u32,
    /// Currently open intents.
    open_intents: u32,
    /// Token budget: one token per accepted trigger.
    budget: u64,
    /// Per-symbol timestamp of the last accepted trigger.
    cooldowns: Vec<u64>,
    /// Cooldown duration in milliseconds.
    cooldown_ms: u64,
    /// Sender for order intents, once wired.
    intent_tx: Option<crossbeam_channel::Sender<OrderIntent>>,
    /// Intents accepted by the trigger gate but refused by a full queue.
    dropped_intents: u64,
    /// Intents accepted by the trigger gate.
    emitted_intents: u64,
    /// Triggers refused for budget or open-intent reasons.
    gate_block_count: u64,
    /// Triggers refused during a cooldown.
    cooldown_block_count: u64,
    /// Ghost log of accepted triggers: (symbol, timestamp), in order.
    admissions: Ghost<Seq<(u32, u64)>>,
    /// Ghost log of the intents the queue actually accepted, in order.
    published: Ghost<Seq<OrderIntent>>,
    /// Ghost count of open-intent slots released so far.
    released: Ghost<int>,
    /// Ghost count of gated trigger attempts.
    triggers: Ghost<int>,
}

impl HotPath {
    // -- views ---------------------------------------------------------

    /// The kill switch.
    pub closed spec fn can_buy_spec(&self) -> bool {
        self.can_buy
    }

    /// The trigger threshold in basis points.
    pub closed spec fn threshold_bps_spec(&self) -> u64 {
        self.threshold_bps
    }

    /// Number of symbols tracked.
    pub closed spec fn max_symbols_spec(&self) -> int {
        self.max_symbols as int
    }

    /// The per-symbol price rings.
    pub closed spec fn rings(&self) -> Seq<PriceSnapshot> {
        self.snapshots@
    }

    /// Cap on simultaneously open intents.
    pub closed spec fn max_open_spec(&self) -> u32 {
        self.max_open_intents
    }

    /// Currently open intents.
    pub closed spec fn open_intents_spec(&self) -> u32 {
        self.open_intents
    }

    /// Remaining token budget.
    pub closed spec fn budget_spec(&self) -> u64 {
        self.budget
    }

    /// Per-symbol timestamps of the last accepted trigger.
    pub closed spec fn cooldowns_spec(&self) -> Seq<u64> {
        self.cooldowns@
    }

    /// Cooldown duration in milliseconds.
    pub closed spec fn cooldown_ms_spec(&self) -> u64 {
        self.cooldown_ms
    }

    /// Whether an intent sender has been installed.
    pub closed spec fn has_intent_sender(&self) -> bool {
        self.intent_tx is Some
    }

    /// Count of gate-accepted triggers.
    pub closed spec fn emitted_spec(&self) -> u64 {
        self.emitted_intents
    }

    /// Count of accepted intents refused by a full queue.
    pub closed spec fn dropped_spec(&self) -> u64 {
        self.dropped_intents
    }

    /// Count of triggers refused for budget or open-intent reasons.
    pub closed spec fn gate_block_spec(&self) -> u64 {
        self.gate_block_count
    }

    /// Count of triggers refused during a cooldown.
    pub closed spec fn cooldown_block_spec(&self) -> u64 {
        self.cooldown_block_count
    }

    /// The ordered log of accepted triggers: (symbol, timestamp).
    pub closed spec fn admissions_spec(&self) -> Seq<(u32, u64)> {
        self.admissions@
    }

    /// The intents the queue actually accepted, in order: the accepted
    /// triggers less the drops.
    pub closed spec fn published_spec(&self) -> Seq<OrderIntent> {
        self.published@
    }

    /// Number of open-intent slots released so far.
    pub closed spec fn released_spec(&self) -> int {
        self.released@
    }

    /// Number of gated trigger attempts so far.
    pub closed spec fn triggers_spec(&self) -> int {
        self.triggers@
    }

    // -- invariant -----------------------------------------------------

    /// The trigger-gate ledger invariant.
    ///
    /// Every gated trigger is accounted exactly once among accepted,
    /// gate-blocked and cooldown-blocked; drops are a subset of the accepted
    /// ones; the open-intent count is the accepted count less the released
    /// count and never exceeds the cap; and the admission log explains the
    /// cooldown table: each symbol's entry bounds the timestamps of its
    /// accepted triggers, which are spaced at least a cooldown apart.
    pub closed spec fn wf(&self) -> bool {
        &&& self.snapshots@.len() == self.max_symbols as int
        &&& forall|k: int| 0 <= k < self.snapshots@.len() ==> (#[trigger] self.snapshots@[k]).wf()
        &&& self.cooldowns@.len() == self.max_symbols as int
        &&& self.open_intents <= self.max_open_intents
        &&& self.emitted_intents + self.gate_block_count + self.cooldown_block_count
            == self.triggers@
        &&& self.dropped_intents <= self.emitted_intents
        &&& self.published@.len() == self.emitted_intents as int - self.dropped_intents as int
        &&& 0 <= self.released@ <= self.emitted_intents
        &&& self.open_intents as int == self.emitted_intents as int - self.released@
        &&& self.admissions@.len() == self.emitted_intents as int
        &&& forall|k: int|
            0 <= k < self.admissions@.len()
                ==> (#[trigger] self.admissions@[k]).0 < self.max_symbols as int
                    && self.cooldowns@[self.admissions@[k].0 as int] >= self.admissions@[k].1
        &&& forall|i: int, j: int|
            #![trigger self.admissions@[i], self.admissions@[j]]
            0 <= i < j < self.admissions@.len() && self.admissions@[i].0 == self.admissions@[j].0
                ==> self.admissions@[j].1 >= self.admissions@[i].1 + self.cooldown_ms
    }

    /// Tunables that no operation changes.
    pub open spec fn statics_eq(a: HotPath, b: HotPath) -> bool {
        &&& b.threshold_bps_spec() == a.threshold_bps_spec()
        &&& b.max_symbols_spec() == a.max_symbols_spec()
        &&& b.max_open_spec() == a.max_open_spec()
        &&& b.cooldown_ms_spec() == a.cooldown_ms_spec()
    }

    /// The trigger-gate ledger, unchanged.
    pub open spec fn ledger_eq(a: HotPath, b: HotPath) -> bool {
        &&& b.emitted_spec() == a.emitted_spec()
        &&& b.dropped_spec() == a.dropped_spec()
        &&& b.gate_block_spec() == a.gate_block_spec()
        &&& b.cooldown_block_spec() == a.cooldown_block_spec()
        &&& b.cooldowns_spec() == a.cooldowns_spec()
        &&& b.admissions_spec() == a.admissions_spec()
        &&& b.published_spec() == a.published_spec()
        &&& b.triggers_spec() == a.triggers_spec()
    }

    // -- construction --------------------------------------------------

    /// Create a hot path with custom gate configuration.
    ///
    /// The window bound keeps each ring's capacity addressable (see
    /// `PriceSnapshot::new`).
    pub fn with_config(
        max_symbols: usize,
        threshold_bps: u64,
        window_secs: u64,
        max_open_intents: u32,
        cooldown_ms: u64,
        initial_budget: u64,
    ) -> (h: HotPath)
        requires
            1 <= window_secs <= 1_000_000,
        ensures
            h.wf(),
            h.can_buy_spec(),
            h.threshold_bps_spec() == threshold_bps,
            h.max_symbols_spec() == max_symbols as int,
            h.max_open_spec() == max_open_intents,
            h.open_intents_spec() == 0,
            h.budget_spec() == initial_budget,
            h.cooldown_ms_spec() == cooldown_ms,
            !h.has_intent_sender(),
            h.emitted_spec() == 0,
            h.dropped_spec() == 0,
            h.gate_block_spec() == 0,
            h.cooldown_block_spec() == 0,
            h.admissions_spec() == Seq::<(u32, u64)>::empty(),
            h.published_spec() == Seq::<OrderIntent>::empty(),
            h.released_spec() == 0,
            h.triggers_spec() == 0,
            h.rings().len() == max_symbols as int,
            forall|k: int| 0 <= k < max_symbols as int ==> (#[trigger] h.rings()[k]).len() == 0,
            forall|k: int|
                0 <= k < max_symbols as int ==> (#[trigger] h.rings()[k]).points()
                    == Seq::<PricePoint>::empty(),
            forall|k: int|
                0 <= k < max_symbols as int
                    ==> (#[trigger] h.rings()[k]).capacity() == window_secs * 100,
            forall|k: int|
                0 <= k < max_symbols as int
                    ==> (#[trigger] h.rings()[k]).window_ms_spec() == window_secs * 1000,
            h.cooldowns_spec().len() == max_symbols as int,
            forall|k: int| 0 <= k < max_symbols as int ==> #[trigger] h.cooldowns_spec()[k] == 0,
    {
        let mut snapshots: Vec<PriceSnapshot> = Vec::new();
        let mut i: usize = 0;
        while i < max_symbols
            invariant
                1 <= window_secs <= 1_000_000,
                i <= max_symbols,
                snapshots@.len() == i as int,
                forall|k: int| 0 <= k < i as int ==> (#[trigger] snapshots@[k]).wf(),
                forall|k: int| 0 <= k < i as int ==> (#[trigger] snapshots@[k]).len() == 0,
                forall|k: int|
                    0 <= k < i as int ==> (#[trigger] snapshots@[k]).points()
                        == Seq::<PricePoint>::empty(),
                forall|k: int|
                    0 <= k < i as int
                        ==> (#[trigger] snapshots@[k]).capacity() == window_secs * 100,
                forall|k: int|
                    0 <= k < i as int
                        ==> (#[trigger] snapshots@[k]).window_ms_spec() == window_secs * 1000,
            decreases max_symbols - i,
        {
            snapshots.push(PriceSnapshot::new(window_secs));
            i = i + 1;
        }

        let mut cooldowns: Vec<u64> = Vec::new();
        let mut j: usize = 0;
        while j < max_symbols
            invariant
                j <= max_symbols,
                cooldowns@.len() == j as int,
                forall|k: int| 0 <= k < j as int ==> #[trigger] cooldowns@[k] == 0,
            decreases max_symbols - j,
        {
            cooldowns.push(0);
            j = j + 1;
        }

        HotPath {
            can_buy: true,
            threshold_bps,
            snapshots,
            max_symbols,
            max_open_intents,
            open_intents: 0,
            budget: initial_budget,
            cooldowns,
            cooldown_ms,
            intent_tx: None,
            dropped_intents: 0,
            emitted_intents: 0,
            gate_block_count: 0,
            cooldown_block_count: 0,
            admissions: Ghost(Seq::empty()),
            published: Ghost(Seq::empty()),
            released: Ghost(0),
            triggers: Ghost(0),
        }
    }

    /// Create a hot path with the default gate configuration: ten open
    /// intents, a 500 ms cooldown, and a budget of one thousand.
    pub fn new(max_symbols: usize, threshold_bps: u64, window_secs: u64) -> (h: HotPath)
        requires
            1 <= window_secs <= 1_000_000,
        ensures
            h.wf(),
            h.can_buy_spec(),
            h.threshold_bps_spec() == threshold_bps,
            h.max_symbols_spec() == max_symbols as int,
            h.max_open_spec() == 10,
            h.open_intents_spec() == 0,
            h.budget_spec() == 1000,
            h.cooldown_ms_spec() == 500,
            !h.has_intent_sender(),
            h.emitted_spec() == 0,
            h.dropped_spec() == 0,
            h.gate_block_spec() == 0,
            h.cooldown_block_spec() == 0,
            h.released_spec() == 0,
            h.triggers_spec() == 0,
            h.rings().len() == max_symbols as int,
            forall|k: int| 0 <= k < max_symbols as int ==> (#[trigger] h.rings()[k]).len() == 0,
            forall|k: int|
                0 <= k < max_symbols as int ==> (#[trigger] h.rings()[k]).points()
                    == Seq::<PricePoint>::empty(),
            forall|k: int|
                0 <= k < max_symbols as int
                    ==> (#[trigger] h.rings()[k]).capacity() == window_secs * 100,
            forall|k: int|
                0 <= k < max_symbols as int
                    ==> (#[trigger] h.rings()[k]).window_ms_spec() == window_secs * 1000,
            h.cooldowns_spec().len() == max_symbols as int,
            forall|k: int| 0 <= k < max_symbols as int ==> #[trigger] h.cooldowns_spec()[k] == 0,
    {
        Self::with_config(max_symbols, threshold_bps, window_secs, 10, 500, 1000)
    }

    // -- maintenance ---------------------------------------------------

    /// Append a price point to a symbol's ring (off hot-path); a symbol at
    /// or beyond the configured bound is silently skipped.
    pub fn update_snapshot(&mut self, symbol_id: u32, px_e8: u64, ts_unix_ms: u64)
        requires
            old(self).wf(),
        ensures
            final(self).wf(),
            final(self).can_buy_spec() == old(self).can_buy_spec(),
            Self::statics_eq(*old(self), *final(self)),
            Self::ledger_eq(*old(self), *final(self)),
            final(self).has_intent_sender() == old(self).has_intent_sender(),
            final(self).open_intents_spec() == old(self).open_intents_spec(),
            final(self).budget_spec() == old(self).budget_spec(),
            final(self).released_spec() == old(self).released_spec(),
            (symbol_id as int) >= old(self).max_symbols_spec() ==> final(self).rings() == old(
                self,
            ).rings(),
            (symbol_id as int) < old(self).max_symbols_spec() ==> {
                let oldr = old(self).rings()[symbol_id as int];
                let newr = final(self).rings()[symbol_id as int];
                &&& final(self).rings() =~= old(self).rings().update(symbol_id as int, newr)
                &&& newr.window_ms_spec() == oldr.window_ms_spec()
                &&& newr.capacity() == oldr.capacity()
                &&& (oldr.len() < oldr.capacity() ==> newr.len() == oldr.len() + 1
                    && newr.points() =~= oldr.points().push(PricePoint { px_e8, ts_unix_ms }))
                &&& (oldr.len() == oldr.capacity() ==> newr.len() == oldr.len()
                    && newr.points() =~= oldr.points().update(
                    oldr.write_idx_spec(),
                    PricePoint { px_e8, ts_unix_ms },
                ))
            },
    {
        let idx = symbol_id as usize;
        if idx < self.max_symbols {
            proof {
                assert(self.snapshots@[idx as int].wf());
            }
            self.snapshots[idx].add(px_e8, ts_unix_ms);
        }
    }

    /// Refresh a symbol's 15-minute and 1-hour aggregate returns (off
    /// hot-path); a symbol at or beyond the configured bound is silently
    /// skipped.
    pub fn update_aggregates(&mut self, symbol_id: u32, current_ts_ms: u64)
        requires
            old(self).wf(),
        ensures
            final(self).wf(),
            final(self).can_buy_spec() == old(self).can_buy_spec(),
            Self::statics_eq(*old(self), *final(self)),
            Self::ledger_eq(*old(self), *final(self)),
            final(self).has_intent_sender() == old(self).has_intent_sender(),
            final(self).open_intents_spec() == old(self).open_intents_spec(),
            final(self).budget_spec() == old(self).budget_spec(),
            final(self).released_spec() == old(self).released_spec(),
            (symbol_id as int) >= old(self).max_symbols_spec() ==> final(self).rings() == old(
                self,
            ).rings(),
            (symbol_id as int) < old(self).max_symbols_spec() ==> {
                let oldr = old(self).rings()[symbol_id as int];
                let newr = final(self).rings()[symbol_id as int];
                &&& final(self).rings() =~= old(self).rings().update(symbol_id as int, newr)
                &&& newr.points() == oldr.points()
                &&& newr.len() == oldr.len()
                &&& newr.capacity() == oldr.capacity()
                &&& newr.window_ms_spec() == oldr.window_ms_spec()
                &&& newr.ret_15m_spec() == window_return(oldr.points(), 900_000, current_ts_ms)
                &&& newr.ret_1h_spec() == window_return(oldr.points(), 3_600_000, current_ts_ms)
            },
    {
        let idx = symbol_id as usize;
        if idx < self.max_symbols {
            proof {
                assert(self.snapshots@[idx as int].wf());
            }
            self.snapshots[idx].update_aggregates(current_ts_ms);
        }
    }

    // -- switches and feedback -----------------------------------------

    /// Set the global kill switch.
    pub fn set_can_buy(&mut self, can_buy: bool)
        requires
            old(self).wf(),
        ensures
            final(self).wf(),
            final(self).can_buy_spec() == can_buy,
            Self::statics_eq(*old(self), *final(self)),
            Self::ledger_eq(*old(self), *final(self)),
            final(self).has_intent_sender() == old(self).has_intent_sender(),
            final(self).rings() == old(self).rings(),
            final(self).open_intents_spec() == old(self).open_intents_spec(),
            final(self).budget_spec() == old(self).budget_spec(),
            final(self).released_spec() == old(self).released_spec(),
    {
        self.can_buy = can_buy;
    }

    /// Read the global kill switch.
    pub fn get_can_buy(&self) -> (r: bool)
        ensures
            r == self.can_buy_spec(),
    {
        self.can_buy
    }

    /// Install the order-intent sender; must be called before processed
    /// ticks can emit intents.
    pub fn set_intent_sender(&mut self, sender: crossbeam_channel::Sender<OrderIntent>)
        requires
            old(self).wf(),
        ensures
            final(self).wf(),
            final(self).has_intent_sender(),
            final(self).can_buy_spec() == old(self).can_buy_spec(),
            Self::statics_eq(*old(self), *final(self)),
            Self::ledger_eq(*old(self), *final(self)),
            final(self).rings() == old(self).rings(),
            final(self).open_intents_spec() == old(self).open_intents_spec(),
            final(self).budget_spec() == old(self).budget_spec(),
            final(self).released_spec() == old(self).released_spec(),
    {
        self.intent_tx = Some(sender);
    }

    /// Read the trigger-gate counters.
    pub fn get_gate_metrics(&self) -> (m: GateMetrics)
        ensures
            m.emitted_intents == self.emitted_spec(),
            m.dropped_intents == self.dropped_spec(),
            m.gate_block_count == self.gate_block_spec(),
            m.cooldown_block_count == self.cooldown_block_spec(),
    {
        GateMetrics {
            emitted_intents: self.emitted_intents,
            dropped_intents: self.dropped_intents,
            gate_block_count: self.gate_block_count,
            cooldown_block_count: self.cooldown_block_count,
        }
    }

    /// Release one open-intent slot (called when an order completes); never
    /// goes below zero.
    pub fn decrement_open_intents(&mut self)
        requires
            old(self).wf(),
        ensures
            final(self).wf(),
            final(self).can_buy_spec() == old(self).can_buy_spec(),
            Self::statics_eq(*old(self), *final(self)),
            Self::ledger_eq(*old(self), *final(self)),
            final(self).has_intent_sender() == old(self).has_intent_sender(),
            final(self).rings() == old(self).rings(),
            final(self).budget_spec() == old(self).budget_spec(),
            old(self).open_intents_spec() > 0 ==> {
                &&& final(self).open_intents_spec() == old(self).open_intents_spec() - 1
                &&& final(self).released_spec() == old(self).released_spec() + 1
            },
            old(self).open_intents_spec() == 0 ==> {
                &&& final(self).open_intents_spec() == 0
                &&& final(self).released_spec() == old(self).released_spec()
            },
    {
        if self.open_intents > 0 {
            self.open_intents = self.open_intents - 1;
            proof {
                self.released@ = self.released@ + 1;
            }
        }
    }

    /// Add tokens to the budget (called by a maintenance task). The caller
    /// keeps the budget within the counter's range.
    pub fn replenish_budget(&mut self, amount: u64)
        requires
            old(self).wf(),
            old(self).budget_spec() + amount <= u64::MAX,
        ensures
            final(self).wf(),
            final(self).can_buy_spec() == old(self).can_buy_spec(),
            Self::statics_eq(*old(self), *final(self)),
            Self::ledger_eq(*old(self), *final(self)),
            final(self).has_intent_sender() == old(self).has_intent_sender(),
            final(self).rings() == old(self).rings(),
            final(self).open_intents_spec() == old(self).open_intents_spec(),
            final(self).released_spec() == old(self).released_spec(),
            final(self).budget_spec() == old(self).budget_spec() + amount,
    {
        self.budget = self.budget + amount;
    }

    /// Read the remaining budget.
    pub fn get_budget(&self) -> (r: u64)
        ensures
            r == self.budget_spec(),
    {
        self.budget
    }

    // -- gating decisions and tick processing --------------------------

    /// The trigger gate's decision for `symbol_id` at `ts_ms`, checked
    /// cheapest first: cooldown, then budget, then the open-intent cap.
    pub open spec fn spec_verdict(self, symbol_id: u32, ts_ms: u64) -> GateVerdict
        recommends
            (symbol_id as int) < self.max_symbols_spec(),
    {
        if (ts_ms as int) < self.cooldowns_spec()[symbol_id as int] + self.cooldown_ms_spec() {
            GateVerdict::Cooldown
        } else if self.budget_spec() == 0 {
            GateVerdict::NoBudget
        } else if self.open_intents_spec() >= self.max_open_spec() {
            GateVerdict::TooManyOpen
        } else {
            GateVerdict::Accepted
        }
    }

    /// Whether a tick triggers: the kill switch is on, the symbol is in
    /// range, and its ring's windowed return reaches the threshold.
    pub open spec fn spec_triggers(self, tick: TradeTick) -> bool {
        &&& self.can_buy_spec()
        &&& (tick.symbol_id as int) < self.max_symbols_spec()
        &&& {
            let ring = self.rings()[tick.symbol_id as int];
            match window_return(ring.points(), ring.window_ms_spec(), tick.ts_unix_ms) {
                Some(ret) => ret >= self.threshold_bps_spec() as i128,
                None => false,
            }
        }
    }

    /// Whether a tick's trigger reaches the trigger gate: it triggers and an intent
    /// sender is installed.
    pub open spec fn gated(self, tick: TradeTick) -> bool {
        self.spec_triggers(tick) && self.has_intent_sender()
    }

    /// Consult the trigger gate for a triggered tick and, when accepted, try to
    /// publish an order intent.
    ///
    /// Acceptance is charged before the send: the budget token, the
    /// open-intent slot, the cooldown stamp and the emitted counter all move
    /// first, and a full queue then only adds a drop — back-pressure
    /// surfaces as dropped intents, never as an ungated retry.
    fn try_emit_intent(&mut self, tick: &TradeTick)
        requires
            old(self).wf(),
            (tick.symbol_id as int) < old(self).max_symbols_spec(),
            old(self).emitted_spec() + old(self).gate_block_spec() + old(
                self,
            ).cooldown_block_spec() < u64::MAX,
        ensures
            final(self).wf(),
            final(self).can_buy_spec() == old(self).can_buy_spec(),
            Self::statics_eq(*old(self), *final(self)),
            final(self).has_intent_sender() == old(self).has_intent_sender(),
            final(self).rings() == old(self).rings(),
            final(self).released_spec() == old(self).released_spec(),
            !old(self).has_intent_sender() ==> {
                &&& Self::ledger_eq(*old(self), *final(self))
                &&& final(self).open_intents_spec() == old(self).open_intents_spec()
                &&& final(self).budget_spec() == old(self).budget_spec()
                &&& final(self).triggers_spec() == old(self).triggers_spec()
            },
            old(self).has_intent_sender() ==> {
                &&& final(self).triggers_spec() == old(self).triggers_spec() + 1
                &&& match old(self).spec_verdict(tick.symbol_id, tick.ts_unix_ms) {
                    GateVerdict::Cooldown => {
                        &&& final(self).cooldown_block_spec() == old(self).cooldown_block_spec()
                            + 1
                        &&& final(self).emitted_spec() == old(self).emitted_spec()
                        &&& final(self).dropped_spec() == old(self).dropped_spec()
                        &&& final(self).gate_block_spec() == old(self).gate_block_spec()
                        &&& final(self).budget_spec() == old(self).budget_spec()
                        &&& final(self).open_intents_spec() == old(self).open_intents_spec()
                        &&& final(self).cooldowns_spec() == old(self).cooldowns_spec()
                        &&& final(self).admissions_spec() == old(self).admissions_spec()
                        &&& final(self).published_spec() == old(self).published_spec()
                    },
                    GateVerdict::NoBudget => {
                        &&& final(self).gate_block_spec() == old(self).gate_block_spec() + 1
                        &&& final(self).emitted_spec() == old(self).emitted_spec()
                        &&& final(self).dropped_spec() == old(self).dropped_spec()
                        &&& final(self).cooldown_block_spec() == old(self).cooldown_block_spec()
                        &&& final(self).budget_spec() == old(self).budget_spec()
                        &&& final(self).open_intents_spec() == old(self).open_intents_spec()
                        &&& final(self).cooldowns_spec() == old(self).cooldowns_spec()
                        &&& final(self).admissions_spec() == old(self).admissions_spec()
                        &&& final(self).published_spec() == old(self).published_spec()
                    },
                    GateVerdict::TooManyOpen => {
                        &&& final(self).gate_block_spec() == old(self).gate_block_spec() + 1
                        &&& final(self).emitted_spec() == old(self).emitted_spec()
                        &&& final(self).dropped_spec() == old(self).dropped_spec()
                        &&& final(self).cooldown_block_spec() == old(self).cooldown_block_spec()
                        &&& final(self).budget_spec() == old(self).budget_spec()
                        &&& final(self).open_intents_spec() == old(self).open_intents_spec()
                        &&& final(self).cooldowns_spec() == old(self).cooldowns_spec()
                        &&& final(self).admissions_spec() == old(self).admissions_spec()
                        &&& final(self).published_spec() == old(self).published_spec()
                    },
                    GateVerdict::Accepted => {
                        &&& final(self).emitted_spec() == old(self).emitted_spec() + 1
                        &&& final(self).open_intents_spec() == old(self).open_intents_spec() + 1
                        &&& final(self).budget_spec() == old(self).budget_spec() - 1
                        &&& final(self).cooldowns_spec() == old(self).cooldowns_spec().update(
                            tick.symbol_id as int,
                            tick.ts_unix_ms,
                        )
                        &&& final(self).admissions_spec() == old(self).admissions_spec().push(
                            (tick.symbol_id, tick.ts_unix_ms),
                        )
                        &&& final(self).gate_block_spec() == old(self).gate_block_spec()
                        &&& final(self).cooldown_block_spec() == old(self).cooldown_block_spec()
                        &&& ({
                            let intent = (OrderIntent {
                                symbol_id: tick.symbol_id,
                                side: OrderSide::Buy,
                                px_e8: tick.px_e8,
                                ts_unix_ms: tick.ts_unix_ms,
                            });
                            ||| {
                                &&& final(self).dropped_spec() == old(self).dropped_spec() + 1
                                &&& final(self).published_spec() == old(self).published_spec()
                            }
                            ||| {
                                &&& final(self).dropped_spec() == old(self).dropped_spec()
                                &&& final(self).published_spec() == old(
                                    self,
                                ).published_spec().push(intent)
                            }
                        })
                    },
                }
            },
    {
        if self.intent_tx.is_none() {
            return ;
        }
        let symbol_idx = tick.symbol_id as usize;

        // Cooldown check, in wide arithmetic so the sum cannot wrap.
        let last_trigger = self.cooldowns[symbol_idx];
        if (tick.ts_unix_ms as u128) < (last_trigger as u128) + (self.cooldown_ms as u128) {
            self.cooldown_block_count = self.cooldown_block_count + 1;
            proof {
                self.triggers@ = self.triggers@ + 1;
            }
            return ;
        }

        // Budget check.
        if self.budget == 0 {
            self.gate_block_count = self.gate_block_count + 1;
            proof {
                self.triggers@ = self.triggers@ + 1;
            }
            return ;
        }

        // Open-intent cap check.
        if self.open_intents >= self.max_open_intents {
            self.gate_block_count = self.gate_block_count + 1;
            proof {
                self.triggers@ = self.triggers@ + 1;
            }
            return ;
        }

        // Accepted: charge budget, slot and cooldown, then try to publish.
        let intent = OrderIntent::new(tick.symbol_id, OrderSide::Buy, tick.px_e8, tick.ts_unix_ms);
        self.emitted_intents = self.emitted_intents + 1;
        self.open_intents = self.open_intents + 1;
        self.budget = self.budget - 1;
        self.cooldowns.set(symbol_idx, tick.ts_unix_ms);
        proof {
            self.admissions@ = self.admissions@.push((tick.symbol_id, tick.ts_unix_ms));
            self.triggers@ = self.triggers@ + 1;
        }

        let sent = match &self.intent_tx {
            Some(tx) => channels::try_send(tx, intent),
            None => false,
        };
        if !sent {
            self.dropped_intents = self.dropped_intents + 1;
        } else {
            proof {
                self.published@ = self.published@.push(intent);
            }
        }

        proof {
            let a_old = old(self).admissions@;
            let a_new = self.admissions@;
            let sym = tick.symbol_id;
            let ts = tick.ts_unix_ms;
            assert forall|k: int|
                0 <= k < a_new.len() implies (#[trigger] a_new[k]).0 < self.max_symbols as int
                && self.cooldowns@[a_new[k].0 as int] >= a_new[k].1 by {
                if k < a_old.len() {
                    assert(a_new[k] == a_old[k]);
                    assert(a_old[k].0 < old(self).max_symbols as int);
                    if a_old[k].0 == sym {
                        assert(old(self).cooldowns@[sym as int] >= a_old[k].1);
                        assert(self.cooldowns@[sym as int] == ts);
                    } else {
                        assert(self.cooldowns@[a_old[k].0 as int]
                            == old(self).cooldowns@[a_old[k].0 as int]);
                    }
                } else {
                    assert(a_new[k] == (sym, ts));
                }
            };
            assert forall|i: int, j: int|
                0 <= i < j < a_new.len() && (#[trigger] a_new[i]).0 == (#[trigger] a_new[j]).0
                    implies a_new[j].1 >= a_new[i].1 + self.cooldown_ms by {
                if j < a_old.len() {
                    assert(a_new[i] == a_old[i] && a_new[j] == a_old[j]);
                } else {
                    assert(a_new[i] == a_old[i]);
                    if a_old[i].0 == sym {
                        assert(old(self).cooldowns@[sym as int] >= a_old[i].1);
                    }
                }
            };
        }
    }

    /// Process one tick on the hot path.
    ///
    /// With the kill switch off or the symbol out of range nothing happens.
    /// Otherwise the ring's windowed return is computed; if it reaches the
    /// threshold the trigger gate is consulted (when a sender is wired) and a
    /// trigger event is returned either way.
    ///
    /// The counter-sum bound is a machine limit: the three block counters
    /// (readable through `get_gate_metrics`) must leave room for one more
    /// gated trigger.
    pub fn process_tick(&mut self, tick: &TradeTick) -> (r: Option<TriggerEvent>)
        requires
            old(self).wf(),
            old(self).emitted_spec() + old(self).gate_block_spec() + old(
                self,
            ).cooldown_block_spec() < u64::MAX,
        ensures
            final(self).wf(),
            final(self).can_buy_spec() == old(self).can_buy_spec(),
            Self::statics_eq(*old(self), *final(self)),
            final(self).has_intent_sender() == old(self).has_intent_sender(),
            final(self).rings() == old(self).rings(),
            final(self).released_spec() == old(self).released_spec(),
            (r is Some) <==> old(self).spec_triggers(*tick),
            match r {
                Some(ev) => {
                    &&& ev.symbol_id == tick.symbol_id
                    &&& ev.ts_unix_ms == tick.ts_unix_ms
                    &&& ev.price_e8 == tick.px_e8
                    &&& {
                        let ring = old(self).rings()[tick.symbol_id as int];
                        window_return(ring.points(), ring.window_ms_spec(), tick.ts_unix_ms)
                            == Some(ev.return_bps)
                    }
                },
                None => true,
            },
            !old(self).gated(*tick) ==> {
                &&& Self::ledger_eq(*old(self), *final(self))
                &&& final(self).open_intents_spec() == old(self).open_intents_spec()
                &&& final(self).budget_spec() == old(self).budget_spec()
                &&& final(self).triggers_spec() == old(self).triggers_spec()
            },
            old(self).gated(*tick) ==> {
                &&& final(self).triggers_spec() == old(self).triggers_spec() + 1
                &&& match old(self).spec_verdict(tick.symbol_id, tick.ts_unix_ms) {
                    GateVerdict::Cooldown => {
                        &&& final(self).cooldown_block_spec() == old(self).cooldown_block_spec()
                            + 1
                        &&& final(self).emitted_spec() == old(self).emitted_spec()
                        &&& final(self).dropped_spec() == old(self).dropped_spec()
                        &&& final(self).gate_block_spec() == old(self).gate_block_spec()
                        &&& final(self).budget_spec() == old(self).budget_spec()
                        &&& final(self).open_intents_spec() == old(self).open_intents_spec()
                        &&& final(self).cooldowns_spec() == old(self).cooldowns_spec()
                        &&& final(self).admissions_spec() == old(self).admissions_spec()
                        &&& final(self).published_spec() == old(self).published_spec()
                    },
                    GateVerdict::NoBudget => {
                        &&& final(self).gate_block_spec() == old(self).gate_block_spec() + 1
                        &&& final(self).emitted_spec() == old(self).emitted_spec()
                        &&& final(self).dropped_spec() == old(self).dropped_spec()
                        &&& final(self).cooldown_block_spec() == old(self).cooldown_block_spec()
                        &&& final(self).budget_spec() == old(self).budget_spec()
                        &&& final(self).open_intents_spec() == old(self).open_intents_spec()
                        &&& final(self).cooldowns_spec() == old(self).cooldowns_spec()
                        &&& final(self).admissions_spec() == old(self).admissions_spec()
                        &&& final(self).published_spec() == old(self).published_spec()
                    },
                    GateVerdict::TooManyOpen => {
                        &&& final(self).gate_block_spec() == old(self).gate_block_spec() + 1
                        &&& final(self).emitted_spec() == old(self).emitted_spec()
                        &&& final(self).dropped_spec() == old(self).dropped_spec()
                        &&& final(self).cooldown_block_spec() == old(self).cooldown_block_spec()
                        &&& final(self).budget_spec() == old(self).budget_spec()
                        &&& final(self).open_intents_spec() == old(self).open_intents_spec()
                        &&& final(self).cooldowns_spec() == old(self).cooldowns_spec()
                        &&& final(self).admissions_spec() == old(self).admissions_spec()
                        &&& final(self).published_spec() == old(self).published_spec()
                    },
                    GateVerdict::Accepted => {
                        &&& final(self).emitted_spec() == old(self).emitted_spec() + 1
                        &&& final(self).open_intents_spec() == old(self).open_intents_spec() + 1
                        &&& final(self).budget_spec() == old(self).budget_spec() - 1
                        &&& final(self).cooldowns_spec() == old(self).cooldowns_spec().update(
                            tick.symbol_id as int,
                            tick.ts_unix_ms,
                        )
                        &&& final(self).admissions_spec() == old(self).admissions_spec().push(
                            (tick.symbol_id, tick.ts_unix_ms),
                        )
                        &&& final(self).gate_block_spec() == old(self).gate_block_spec()
                        &&& final(self).cooldown_block_spec() == old(self).cooldown_block_spec()
                        &&& ({
                            let intent = (OrderIntent {
                                symbol_id: tick.symbol_id,
                                side: OrderSide::Buy,
                                px_e8: tick.px_e8,
                                ts_unix_ms: tick.ts_unix_ms,
                            });
                            ||| {
                                &&& final(self).dropped_spec() == old(self).dropped_spec() + 1
                                &&& final(self).published_spec() == old(self).published_spec()
                            }
                            ||| {
                                &&& final(self).dropped_spec() == old(self).dropped_spec()
                                &&& final(self).published_spec() == old(
                                    self,
                                ).published_spec().push(intent)
                            }
                        })
                    },
                }
            },
    {
        if !self.can_buy {
            return None;
        }
        if (tick.symbol_id as usize) >= self.max_symbols {
            return None;
        }
        let idx = tick.symbol_id as usize;
        proof {
            assert(self.snapshots@[idx as int].wf());
        }
        let ret_opt = self.snapshots[idx].compute_return_60s(tick.ts_unix_ms);
        match ret_opt {
            Some(ret) => {
                if ret >= self.threshold_bps as i128 {
                    self.try_emit_intent(tick);
                    Some(
                        TriggerEvent {
                            symbol_id: tick.symbol_id,
                            ts_unix_ms: tick.ts_unix_ms,
                            return_bps: ret,
                            price_e8: tick.px_e8,
                        },
                    )
                } else {
                    None
                }
            },
            None => None,
        }
    }
}

/// Drain the order events that are already waiting, releasing one
/// open-intent slot for every Fill observed; other event kinds are observed
/// for metrics only. Stops at an empty or closed channel or after
/// `max_events`, returning the number of events consumed; a caller that
/// wants to wait for more calls again.
/// Apply one order event to the feedback side: a Fill releases one
/// open-intent slot (saturating at zero); any other event kind is observed
/// for metrics only and changes nothing.
pub fn apply_order_event(h: &mut HotPath, ev: &OrderEvent)
    requires
        old(h).wf(),
    ensures
        final(h).wf(),
        final(h).can_buy_spec() == old(h).can_buy_spec(),
        HotPath::statics_eq(*old(h), *final(h)),
        HotPath::ledger_eq(*old(h), *final(h)),
        final(h).has_intent_sender() == old(h).has_intent_sender(),
        final(h).rings() == old(h).rings(),
        final(h).budget_spec() == old(h).budget_spec(),
        ev.kind is Fill && old(h).open_intents_spec() > 0 ==> {
            &&& final(h).open_intents_spec() == old(h).open_intents_spec() - 1
            &&& final(h).released_spec() == old(h).released_spec() + 1
        },
        ev.kind is Fill && old(h).open_intents_spec() == 0 ==> {
            &&& final(h).open_intents_spec() == 0
            &&& final(h).released_spec() == old(h).released_spec()
        },
        !(ev.kind is Fill) ==> {
            &&& final(h).open_intents_spec() == old(h).open_intents_spec()
            &&& final(h).released_spec() == old(h).released_spec()
        },
{
    if matches!(ev.kind, OrderEventKind::Fill) {
        h.decrement_open_intents();
    }
}

/// Drain the order events that are already waiting, applying each through
/// `apply_order_event`. Stops at an empty or closed channel or after
/// `max_events`, returning the number of events consumed; a caller that
/// wants to wait for more calls again. At most one open-intent slot is
/// released per consumed event.
pub fn drain_fill_events(
    h: &mut HotPath,
    event_rx: &crossbeam_channel::Receiver<OrderEvent>,
    max_events: usize,
) -> (n: usize)
    requires
        old(h).wf(),
    ensures
        final(h).wf(),
        n <= max_events,
        final(h).can_buy_spec() == old(h).can_buy_spec(),
        HotPath::statics_eq(*old(h), *final(h)),
        HotPath::ledger_eq(*old(h), *final(h)),
        final(h).has_intent_sender() == old(h).has_intent_sender(),
        final(h).rings() == old(h).rings(),
        final(h).budget_spec() == old(h).budget_spec(),
        final(h).open_intents_spec() <= old(h).open_intents_spec(),
        final(h).open_intents_spec() >= old(h).open_intents_spec() - n,
{
    let ghost entry = *h;
    let mut n: usize = 0;
    loop
        invariant
            h.wf(),
            n <= max_events,
            h.can_buy_spec() == entry.can_buy_spec(),
            HotPath::statics_eq(entry, *h),
            HotPath::ledger_eq(entry, *h),
            h.has_intent_sender() == entry.has_intent_sender(),
            h.rings() == entry.rings(),
            h.budget_spec() == entry.budget_spec(),
            h.open_intents_spec() <= entry.open_intents_spec(),
            h.open_intents_spec() >= entry.open_intents_spec() - n,
        decreases max_events - n,
    {
        if n >= max_events {
            break ;
        }
        match channels::try_recv(event_rx) {
            TryRecvOutcome::Received(ev) => {
                apply_order_event(h, &ev);
                n = n + 1;
            },
            TryRecvOutcome::Empty => {
                break ;
            },
            TryRecvOutcome::Disconnected => {
                break ;
            },
        }
    }
    n
}

// ---------------------------------------------------------------------------
// Gate laws
// ---------------------------------------------------------------------------

/// Accepted, gate-blocked and cooldown-blocked triggers partition the gated
/// trigger attempts, and queue drops are a subset of the accepted ones; so
/// the four counters sum to the attempt count exactly when nothing was
/// dropped.
pub proof fn lemma_trigger_accounting(h: &HotPath)
    requires
        h.wf(),
    ensures
        h.emitted_spec() + h.gate_block_spec() + h.cooldown_block_spec() == h.triggers_spec(),
        h.dropped_spec() <= h.emitted_spec(),
        h.dropped_spec() == 0 ==> h.emitted_spec() + h.dropped_spec() + h.gate_block_spec()
            + h.cooldown_block_spec() == h.triggers_spec(),
        h.published_spec().len() == h.emitted_spec() - h.dropped_spec(),
{
}

/// The open-intent count never exceeds the cap, and once every accepted
/// trigger has been matched by a release the count has returned to zero.
pub proof fn lemma_open_intents_bounded(h: &HotPath)
    requires
        h.wf(),
    ensures
        h.open_intents_spec() <= h.max_open_spec(),
        h.released_spec() == h.emitted_spec() ==> h.open_intents_spec() == 0,
{
}

/// Any two accepted triggers on the same symbol are spaced at least a
/// cooldown apart.
pub proof fn lemma_cooldown_spacing(h: &HotPath, i: int, j: int)
    requires
        h.wf(),
        0 <= i < j < h.admissions_spec().len(),
        h.admissions_spec()[i].0 == h.admissions_spec()[j].0,
    ensures
        h.admissions_spec()[j].1 >= h.admissions_spec()[i].1 + h.cooldown_ms_spec(),
{
}

/// With the kill switch off no tick triggers, whatever its return: the hot
/// path is short-circuited before any counter moves (see `process_tick`).
pub proof fn lemma_kill_switch(h: &HotPath, tick: TradeTick)
    requires
        !h.can_buy_spec(),
    ensures
        !h.spec_triggers(tick),
        !h.gated(tick),
{
}

/// With an empty budget, every gated trigger that is not inside a cooldown
/// is refused for budget and counted as gate-blocked.
pub proof fn lemma_zero_budget(h: &HotPath, symbol_id: u32, ts_ms: u64)
    requires
        h.budget_spec() == 0,
        (symbol_id as int) < h.max_symbols_spec(),
        ts_ms as int >= h.cooldowns_spec()[symbol_id as int] + h.cooldown_ms_spec(),
    ensures
        h.spec_verdict(symbol_id, ts_ms) is NoBudget,
{
}

/// With a zero open-intent cap the trigger gate never accepts, whatever the budget
/// or cooldown state: no intent is ever emitted.
pub proof fn lemma_zero_open_cap(h: &HotPath, symbol_id: u32, ts_ms: u64)
    requires
        h.wf(),
        h.max_open_spec() == 0,
    ensures
        !(h.spec_verdict(symbol_id, ts_ms) is Accepted),
{
}

/// Fill, Ack and Submitted counts never exceed one another in that order;
/// and once the simulator has consumed every intent that reached its queue
/// (the accepted triggers less the drops), the Submitted count equals the
/// accepted count exactly when nothing was dropped.
pub proof fn lemma_pipeline_counts(h: &HotPath, m: &ExecutionMock)
    requires
        h.wf(),
        m.wf(),
        m.submitted_spec() as int == h.published_spec().len(),
    ensures
        m.fills_spec() <= m.acks_spec(),
        m.acks_spec() <= m.submitted_spec(),
        m.submitted_spec() <= h.emitted_spec(),
        h.dropped_spec() == 0 ==> m.submitted_spec() == h.emitted_spec(),
{
    crate::execution::lemma_counter_chain(m);
}

// ---------------------------------------------------------------------------
// Latency measurement
// ---------------------------------------------------------------------------

#[verifier::external_type_specification]
#[verifier::external_body]
pub struct ExInstant(std::time::Instant);

/// Relies on std::time::Instant::now: an opaque reading of the monotonic
/// clock; nothing is assumed about its value.
#[verifier::external_body]
fn instant_now() -> std::time::Instant {
    std::time::Instant::now()
}

/// Relies on std::time::Instant::duration_since: the time elapsed from
/// `earlier` to `later`, or zero if `earlier` is the later of the two.
#[verifier::external_body]
fn instant_duration_since(
    later: &std::time::Instant,
    earlier: &std::time::Instant,
) -> core::time::Duration {
    later.duration_since(*earlier)
}

/// Relies on core::time::Duration::as_micros: the whole number of
/// microseconds in the duration.
#[verifier::external_body]
fn duration_as_micros(d: &core::time::Duration) -> u128 {
    d.as_micros()
}

/// Start and end clock readings around one tick's processing.
#[derive(Debug, Clone, Copy)]
pub struct LatencyMeasurement {
    pub start: std::time::Instant,
    pub end: std::time::Instant,
}

impl LatencyMeasurement {
    /// A measurement with both readings taken now.
    pub fn new() -> LatencyMeasurement {
        LatencyMeasurement { start: instant_now(), end: instant_now() }
    }

    /// Take the start reading.
    pub fn start(&mut self) {
        self.start = instant_now();
    }

    /// Take the end reading.
    pub fn end(&mut self) {
        self.end = instant_now();
    }

    /// Microseconds between the start and end readings, truncated to the
    /// counter width.
    pub fn duration_micros(&self) -> u64 {
        let micros: u128 = duration_as_micros(&instant_duration_since(&self.end, &self.start));
        #[verifier::truncate] (micros as u64)
    }
}

} // verus!
