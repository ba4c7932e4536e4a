use vstd::prelude::*;

use vstd::arithmetic::power2::lemma2_to64;
use vstd::arithmetic::power2::pow2;

verus! {

// ---------------------------------------------------------------------------
// Logarithmic bucketing
// ---------------------------------------------------------------------------
//
// Values are grouped into buckets whose width doubles every octave: values
// below twice the sub-bucket count S are kept exactly (width 1), and each
// later range [S * 2^j, S * 2^(j+1)) is split into S slots of width 2^j.
// With S = 10^sig_figures the relative quantization error stays below
// 10^-sig_figures, which is the histogram's precision guarantee.

/// Highest value the histogram can be configured to track.
pub const MAX_TRACKABLE: u64 = 1_000_000_000_000_000_000;

/// Sub-bucket count for a precision of `sig` significant decimal figures.
pub open spec fn sub_bucket_count_of(sig: int) -> int {
    if sig == 1 {
        10
    } else if sig == 2 {
        100
    } else if sig == 3 {
        1000
    } else if sig == 4 {
        10000
    } else {
        100000
    }
}

/// Bucket index of value `v` with sub-bucket count `s`: exact below `2 * s`,
/// then one block of `s` slots per halving.
pub open spec fn bucket_index(s: int, v: int) -> int
    decreases v,
{
    if s < 1 || v < 2 * s {
        v
    } else {
        s + bucket_index(s, v / 2)
    }
}

/// The largest value that falls into bucket `i` (the bucket's quantization
/// ceiling).
pub open spec fn bucket_high(s: int, i: int) -> int
    decreases i,
{
    if s < 1 || i < 2 * s {
        i
    } else {
        2 * bucket_high(s, i - s) + 1
    }
}

/// Bucket indices are never negative for non-negative values.
pub proof fn lemma_index_nonneg(s: int, v: int)
    requires
        s >= 1,
        v >= 0,
    ensures
        bucket_index(s, v) >= 0,
    decreases v,
{
    if v >= 2 * s {
        lemma_index_nonneg(s, v / 2);
    }
}

/// A value below `2^k` lands in a bucket below `2 * s + k * s`.
pub proof fn lemma_index_le(s: int, v: int, k: nat)
    requires
        s >= 1,
        0 <= v,
        v < pow2(k),
    ensures
        bucket_index(s, v) < 2 * s + s * (k as int),
    decreases k,
{
    assert(s * (k as int) >= 0) by (nonlinear_arith)
        requires
            s >= 1,
            k >= 0,
    ;
    if v < 2 * s {
    } else {
        assert(k >= 1) by {
            if k == 0 {
                assert(pow2(0) == 1) by {
                    lemma2_to64();
                }
            }
        }
        assert(pow2(k) == 2 * pow2((k - 1) as nat)) by {
            vstd::arithmetic::power2::lemma_pow2_adds(1, (k - 1) as nat);
            lemma2_to64();
        }
        assert(v / 2 < pow2((k - 1) as nat)) by (nonlinear_arith)
            requires
                v < 2 * pow2((k - 1) as nat),
                v >= 0,
        ;
        lemma_index_le(s, v / 2, (k - 1) as nat);
        assert(s * (k as int) == s * ((k - 1) as int) + s) by (nonlinear_arith);
    }
}

/// Bucket indexing is monotone: a smaller value never lands in a later
/// bucket.
pub proof fn lemma_index_monotone(s: int, v1: int, v2: int)
    requires
        s >= 1,
        0 <= v1 <= v2,
    ensures
        bucket_index(s, v1) <= bucket_index(s, v2),
    decreases v2,
{
    if v2 < 2 * s {
    } else if v1 < 2 * s {
        lemma_index_nonneg(s, v2 / 2);
        assert(v2 / 2 >= s) by (nonlinear_arith)
            requires
                v2 >= 2 * s,
                s >= 1,
        ;
        if v2 / 2 >= 2 * s {
            lemma_index_nonneg(s, v2 / 4);
        }
    } else {
        assert(v1 / 2 <= v2 / 2) by (nonlinear_arith)
            requires
                0 <= v1 <= v2,
        ;
        lemma_index_monotone(s, v1 / 2, v2 / 2);
    }
}

/// A value at or above the sub-bucket count lands in a bucket at or above
/// it.
pub proof fn lemma_index_ge_s(s: int, v: int)
    requires
        s >= 1,
        v >= s,
    ensures
        bucket_index(s, v) >= s,
{
    if v >= 2 * s {
        lemma_index_nonneg(s, v / 2);
    }
}

/// The histogram's precision guarantee: a value's bucket ceiling never
/// undercuts the value, is exact below the sub-bucket count `s`, and above
/// it overshoots by less than one part in `s` — one quantization step at the
/// configured number of significant figures.
pub proof fn lemma_bucket_precision(s: int, v: int)
    requires
        s >= 1,
        0 <= v,
    ensures
        bucket_high(s, bucket_index(s, v)) >= v,
        v < s ==> bucket_high(s, bucket_index(s, v)) == v,
        v >= s ==> s * (bucket_high(s, bucket_index(s, v)) - v) <= v - s,
    decreases v,
{
    if v < 2 * s {
        assert(s * (v - v) == 0) by (nonlinear_arith);
    } else {
        lemma_bucket_precision(s, v / 2);
        assert(v / 2 >= s) by (nonlinear_arith)
            requires
                v >= 2 * s,
                s >= 1,
        ;
        lemma_index_ge_s(s, v / 2);
        let i2 = bucket_index(s, v / 2);
        let h2 = bucket_high(s, i2);
        assert(bucket_index(s, v) == s + i2);
        assert(bucket_high(s, s + i2) == 2 * h2 + 1);

        // Twice the halved value is the value less at most one.
        assert(v - 1 <= 2 * (v / 2) && 2 * (v / 2) <= v) by (nonlinear_arith)
            requires
                v >= 0,
        ;
        assert(2 * h2 + 1 >= v);

        // Scale the halved error bound back up.
        assert(s * (2 * h2 + 1 - v) == 2 * (s * (h2 - v / 2)) + s + s * (2 * (v / 2) - v)) by (
        nonlinear_arith);
        assert(s * (2 * (v / 2) - v) <= 0) by (nonlinear_arith)
            requires
                2 * (v / 2) <= v,
                s >= 1,
        ;
        assert(2 * (s * (h2 - v / 2)) <= 2 * (v / 2 - s)) by (nonlinear_arith)
            requires
                s * (h2 - v / 2) <= v / 2 - s,
        ;
        assert(s * (2 * h2 + 1 - v) <= 2 * (v / 2) - 2 * s + s);
        assert(s * (2 * h2 + 1 - v) <= v - s);
    }
}

/// A bucket below `2 * s + k * s` has its ceiling below `2 * s * 2^k`.
pub proof fn lemma_high_bound(s: int, i: int, k: nat)
    requires
        s >= 1,
        0 <= i,
        i < 2 * s + s * (k as int),
    ensures
        bucket_high(s, i) < 2 * s * pow2(k),
    decreases k,
{
    vstd::arithmetic::power2::lemma_pow2_pos(k);
    if i < 2 * s {
        assert(i < 2 * s * pow2(k)) by (nonlinear_arith)
            requires
                i < 2 * s,
                pow2(k) >= 1,
                s >= 1,
        ;
    } else {
        assert(k >= 1) by {
            if k == 0 {
                assert(s * 0int == 0) by (nonlinear_arith);
            }
        }
        assert(s * (k as int) == s * ((k - 1) as int) + s) by (nonlinear_arith);
        lemma_high_bound(s, i - s, (k - 1) as nat);
        assert(pow2(k) == 2 * pow2((k - 1) as nat)) by {
            vstd::arithmetic::power2::lemma_pow2_adds(1, (k - 1) as nat);
            lemma2_to64();
        }
        assert(2 * (2 * s * pow2((k - 1) as nat)) == 2 * s * pow2(k)) by (nonlinear_arith)
            requires
                pow2(k) == 2 * pow2((k - 1) as nat),
        ;
    }
}

/// Compute the bucket index of a value (see `bucket_index`).
fn compute_index(s: u64, v: u64) -> (i: u64)
    requires
        1 <= s <= 100_000,
    ensures
        i as int == bucket_index(s as int, v as int),
        (i as int) < 66 * (s as int),
    decreases v,
{
    proof {
        lemma2_to64();
        lemma_index_le(s as int, v as int, 64);
        lemma_index_nonneg(s as int, v as int);
    }
    if v < 2 * s {
        v
    } else {
        proof {
            lemma_index_nonneg(s as int, (v / 2) as int);
        }
        let sub = compute_index(s, v / 2);
        s + sub
    }
}

/// Compute a bucket's quantization ceiling (see `bucket_high`).
fn compute_bucket_high(s: u64, i: u64) -> (r: u128)
    requires
        1 <= s <= 100_000,
        (i as int) < 66 * (s as int),
    ensures
        r as int == bucket_high(s as int, i as int),
    decreases i,
{
    if i < 2 * s {
        i as u128
    } else {
        let sub = compute_bucket_high(s, i - s);
        proof {
            lemma2_to64();
            lemma_high_bound(s as int, (i - s) as int, 64);
            assert(2 * (s as int) * pow2(64) <= 200_000 * 0x10000000000000000int) by (
            nonlinear_arith)
                requires
                    s <= 100_000,
                    pow2(64) == 0x10000000000000000,
            ;
        }
        2 * sub + 1
    }
}

// ---------------------------------------------------------------------------
// Sums over bucket counts
// ---------------------------------------------------------------------------

/// Sum of a sequence of counters.
pub open spec fn sum_u64(s: Seq<u64>) -> int
    decreases s.len(),
{
    if s.len() == 0 {
        0
    } else {
        sum_u64(s.drop_last()) + s.last()
    }
}

/// A sum of counters is never negative.
pub proof fn lemma_sum_nonneg(s: Seq<u64>)
    ensures
        sum_u64(s) >= 0,
    decreases s.len(),
{
    if s.len() > 0 {
        lemma_sum_nonneg(s.drop_last());
    }
}

/// A prefix never sums to more than the whole.
pub proof fn lemma_sum_take_le(s: Seq<u64>, k: int)
    requires
        0 <= k <= s.len(),
    ensures
        sum_u64(s.take(k)) <= sum_u64(s),
    decreases s.len(),
{
    if k == s.len() {
        assert(s.take(k) =~= s);
    } else {
        assert(s.drop_last().take(k) =~= s.take(k));
        lemma_sum_take_le(s.drop_last(), k);
    }
}

/// Replacing one counter changes the sum by the difference.
pub proof fn lemma_sum_update(s: Seq<u64>, i: int, v: u64)
    requires
        0 <= i < s.len(),
    ensures
        sum_u64(s.update(i, v)) == sum_u64(s) - s[i] + v,
    decreases s.len(),
{
    if i == s.len() - 1 {
        assert(s.update(i, v).drop_last() =~= s.drop_last());
    } else {
        assert(s.update(i, v).drop_last() =~= s.drop_last().update(i, v));
        lemma_sum_update(s.drop_last(), i, v);
    }
}

/// No single counter exceeds the sum.
pub proof fn lemma_sum_element_le(s: Seq<u64>, i: int)
    requires
        0 <= i < s.len(),
    ensures
        s[i] <= sum_u64(s),
    decreases s.len(),
{
    if i == s.len() - 1 {
        lemma_sum_nonneg(s.drop_last());
    } else {
        lemma_sum_element_le(s.drop_last(), i);
    }
}

// ---------------------------------------------------------------------------
// Quantile lookup
// ---------------------------------------------------------------------------

/// The first bucket index at which the running total of counts reaches the
/// target, scanning from `i` with `acc` already accumulated; the sequence
/// length if never reached.
pub open spec fn find_idx(counts: Seq<u64>, target: int, i: int, acc: int) -> int
    decreases counts.len() - i,
{
    if i < 0 || i >= counts.len() {
        counts.len() as int
    } else if acc + counts[i] >= target {
        i
    } else {
        find_idx(counts, target, i + 1, acc + counts[i])
    }
}

/// The rank targeted by a quantile given in ten-thousandths: the count's
/// fraction rounded up, and at least one.
pub open spec fn spec_quantile_target(total: int, q_e4: int) -> int {
    let q = if q_e4 > 10000 {
        10000int
    } else {
        q_e4
    };
    let t = (total * q + 9999) / 10000;
    if t < 1 {
        1
    } else {
        t
    }
}

/// The value reported for a quantile: the quantization ceiling of the first
/// bucket whose cumulative count reaches the target rank, capped at the
/// configured maximum; zero when the histogram is empty.
pub open spec fn spec_value_at_quantile(
    counts: Seq<u64>,
    s: int,
    max_value: int,
    q_e4: u64,
) -> u64 {
    if sum_u64(counts) == 0 {
        0u64
    } else {
        let target = spec_quantile_target(sum_u64(counts), q_e4 as int);
        let idx = find_idx(counts, target, 0, 0);
        let hi = bucket_high(s, idx);
        if hi > max_value {
            max_value as u64
        } else {
            hi as u64
        }
    }
}

/// Clamp a recorded value to the configured maximum.
pub open spec fn clamp_value(v: u64, max_value: u64) -> u64 {
    if v > max_value {
        max_value
    } else {
        v
    }
}

// ---------------------------------------------------------------------------
// The collector
// ---------------------------------------------------------------------------

/// Latency collector: a logarithmically-bucketed histogram with a configured
/// maximum trackable value and decimal precision, plus exact minimum and
/// maximum tracking. Recording is allocation-free.
pub struct MetricsCollector {
    /// One counter per bucket.
    counts: Vec<u64>,
    /// Total number of recorded samples.
    total: u64,
    /// Smallest recorded (clamped) value; all-ones when empty.
    min_seen: u64,
    /// Largest recorded (clamped) value; zero when empty.
    max_seen: u64,
    /// Highest trackable value; larger samples are clamped to it.
    max_value: u64,
    /// Decimal precision, in significant figures.
    sig_figures: u8,
    /// Sub-bucket count: ten to the `sig_figures`.
    s_count: u64,
}

impl MetricsCollector {
    /// Histogram shape invariant: valid precision, a bucket array exactly
    /// covering the trackable range, and a total equal to the sum of the
    /// buckets.
    pub closed spec fn wf(&self) -> bool {
        &&& 1 <= self.sig_figures <= 5
        &&& self.s_count as int == sub_bucket_count_of(self.sig_figures as int)
        &&& 2 <= self.max_value <= MAX_TRACKABLE
        &&& self.counts@.len() == bucket_index(self.s_count as int, self.max_value as int) + 1
        &&& self.total as int == sum_u64(self.counts@)
        &&& (self.total == 0 ==> self.min_seen == u64::MAX && self.max_seen == 0)
        &&& (self.total > 0 ==> self.min_seen <= self.max_seen && self.max_seen <= self.max_value)
    }

    /// The bucket counters.
    pub closed spec fn counts_spec(&self) -> Seq<u64> {
        self.counts@
    }

    /// Number of recorded samples.
    pub closed spec fn total_spec(&self) -> u64 {
        self.total
    }

    /// Smallest recorded value, zero when empty.
    pub closed spec fn min_spec(&self) -> u64 {
        if self.total == 0 {
            0
        } else {
            self.min_seen
        }
    }

    /// Largest recorded value, zero when empty.
    pub closed spec fn max_spec(&self) -> u64 {
        self.max_seen
    }

    /// Highest trackable value.
    pub closed spec fn max_value_spec(&self) -> u64 {
        self.max_value
    }

    /// Configured precision in significant figures.
    pub closed spec fn sig_spec(&self) -> u8 {
        self.sig_figures
    }

    /// Sub-bucket count (ten to the precision).
    pub closed spec fn sub_bucket_spec(&self) -> u64 {
        self.s_count
    }

    /// Create a collector tracking values up to `max_value` microseconds at
    /// `significant_figures` decimal figures of precision.
    ///
    /// Fails exactly when the precision is outside one through five or the
    /// maximum is below two or beyond the trackable range.
    pub fn new(max_value: u64, significant_figures: u8) -> (r: Result<MetricsCollector, String>)
        ensures
            (r is Ok) <==> (1 <= significant_figures <= 5 && 2 <= max_value <= MAX_TRACKABLE),
            match r {
                Ok(c) => {
                    &&& c.wf()
                    &&& c.total_spec() == 0
                    &&& c.max_value_spec() == max_value
                    &&& c.sig_spec() == significant_figures
                    &&& c.min_spec() == 0
                    &&& c.max_spec() == 0
                    &&& forall|k: int|
                        0 <= k < c.counts_spec().len() ==> #[trigger] c.counts_spec()[k] == 0
                },
                Err(_) => true,
            },
    {
        if significant_figures < 1 || significant_figures > 5 {
            return Err("significant figures must be between 1 and 5".to_string());
        }
        if max_value < 2 || max_value > MAX_TRACKABLE {
            return Err("maximum trackable value out of range".to_string());
        }
        let s_count: u64 = if significant_figures == 1 {
            10
        } else if significant_figures == 2 {
            100
        } else if significant_figures == 3 {
            1000
        } else if significant_figures == 4 {
            10000
        } else {
            100000
        };
        let top_index: u64 = compute_index(s_count, max_value);
        let n_buckets: usize = (top_index + 1) as usize;
        let mut counts: Vec<u64> = Vec::new();
        let mut i: usize = 0;
        while i < n_buckets
            invariant
                i <= n_buckets,
                counts@.len() == i as int,
                forall|k: int| 0 <= k < counts@.len() ==> #[trigger] counts@[k] == 0,
            decreases n_buckets - i,
        {
            counts.push(0);
            i = i + 1;
        }
        proof {
            lemma_sum_zero(counts@);
        }
        Ok(
            MetricsCollector {
                counts,
                total: 0,
                min_seen: u64::MAX,
                max_seen: 0,
                max_value,
                sig_figures: significant_figures,
                s_count,
            },
        )
    }

    /// Record one latency sample in microseconds; a value beyond the
    /// trackable maximum is clamped to it, so recording itself never fails.
    /// The sample-count bound is a machine limit on the total counter.
    pub fn record(&mut self, latency_micros: u64) -> (r: Result<(), String>)
        requires
            old(self).wf(),
            old(self).total_spec() < u64::MAX,
        ensures
            final(self).wf(),
            r is Ok,
            final(self).max_value_spec() == old(self).max_value_spec(),
            final(self).sig_spec() == old(self).sig_spec(),
            final(self).sub_bucket_spec() == old(self).sub_bucket_spec(),
            final(self).total_spec() == old(self).total_spec() + 1,
            ({
                let clamped = clamp_value(latency_micros, old(self).max_value_spec());
                let idx = bucket_index(old(self).sub_bucket_spec() as int, clamped as int);
                &&& final(self).counts_spec() == old(self).counts_spec().update(
                    idx,
                    (old(self).counts_spec()[idx] + 1) as u64,
                )
                &&& final(self).min_spec() == (if old(self).total_spec() == 0 {
                    clamped
                } else if clamped < old(self).min_spec() {
                    clamped
                } else {
                    old(self).min_spec()
                })
                &&& final(self).max_spec() == (if clamped > old(self).max_spec() {
                    clamped
                } else {
                    old(self).max_spec()
                })
            }),
    {
        let clamped: u64 = if latency_micros > self.max_value {
            self.max_value
        } else {
            latency_micros
        };
        let idx_u64: u64 = compute_index(self.s_count, clamped);
        proof {
            lemma_index_monotone(self.s_count as int, clamped as int, self.max_value as int);
            lemma_index_nonneg(self.s_count as int, clamped as int);
        }
        let idx: usize = idx_u64 as usize;
        let c: u64 = self.counts[idx];
        proof {
            lemma_sum_element_le(self.counts@, idx as int);
        }
        self.counts.set(idx, c + 1);
        proof {
            lemma_sum_update(old(self).counts@, idx as int, (c + 1) as u64);
        }
        self.total = self.total + 1;
        if clamped < self.min_seen {
            self.min_seen = clamped;
        }
        if clamped > self.max_seen {
            self.max_seen = clamped;
        }
        Ok(())
    }

    /// Number of recorded samples.
    pub fn count(&self) -> (r: u64)
        ensures
            r == self.total_spec(),
    {
        self.total
    }

    /// Smallest recorded value in microseconds, zero when empty.
    pub fn min(&self) -> (r: u64)
        ensures
            r == self.min_spec(),
    {
        if self.total == 0 {
            0
        } else {
            self.min_seen
        }
    }

    /// Largest recorded value in microseconds, zero when empty.
    pub fn max(&self) -> (r: u64)
        ensures
            r == self.max_spec(),
    {
        self.max_seen
    }

    /// The value at a quantile given in ten-thousandths (9500 is the 95th
    /// percentile): the quantization ceiling of the first bucket whose
    /// cumulative count reaches the quantile's rank, capped at the
    /// configured maximum.
    pub fn percentile(&self, quantile_e4: u64) -> (r: u64)
        requires
            self.wf(),
        ensures
            r == spec_value_at_quantile(
                self.counts_spec(),
                self.sub_bucket_spec() as int,
                self.max_value_spec() as int,
                quantile_e4,
            ),
    {
        if self.total == 0 {
            return 0;
        }
        let total: u64 = self.total;
        let q: u64 = if quantile_e4 > 10000 {
            10000
        } else {
            quantile_e4
        };
        proof {
            assert((total as int) * (q as int) <= (u64::MAX as int) * 10000) by (nonlinear_arith)
                requires
                    total <= u64::MAX,
                    q <= 10000,
            ;
        }
        let t128: u128 = ((total as u128) * (q as u128) + 9999) / 10000;
        proof {
            assert((total as int) * (q as int) + 9999 < (total as int) * 10000 + 10000) by (
            nonlinear_arith)
                requires
                    q <= 10000,
                    total >= 1,
            ;
            assert(((total as int) * 10000 + 9999) / 10000 == total as int) by (nonlinear_arith)
                requires
                    total >= 1,
            ;
            assert(((total as int) * (q as int) + 9999) / 10000 <= ((total as int) * 10000 + 9999)
                / 10000) by (nonlinear_arith)
                requires
                    q <= 10000,
                    total >= 1,
            ;
        }
        let mut target: u64 = t128 as u64;
        if target == 0 {
            target = 1;
        }
        let ghost cs = self.counts@;
        let ghost tgt = spec_quantile_target(sum_u64(cs), quantile_e4 as int);
        proof {
            assert(tgt == target as int);
        }

        let len: usize = self.counts.len();
        let mut i: usize = 0;
        let mut acc: u64 = 0;
        while i < len
            invariant
                self.wf(),
                cs == self.counts@,
                len == cs.len(),
                i <= len,
                target as int == tgt,
                tgt == spec_quantile_target(sum_u64(cs), quantile_e4 as int),
                1 <= target <= self.total,
                acc as int == sum_u64(cs.take(i as int)),
                acc < target,
                find_idx(cs, tgt, 0, 0) == find_idx(cs, tgt, i as int, acc as int),
            decreases len - i,
        {
            let c: u64 = self.counts[i];
            proof {
                assert(cs.take(i + 1).drop_last() =~= cs.take(i as int));
                lemma_sum_take_le(cs, i + 1);
            }
            let acc2: u128 = acc as u128 + c as u128;
            if acc2 >= target as u128 {
                proof {
                    assert(find_idx(cs, tgt, i as int, acc as int) == i as int);
                    lemma2_to64();
                    lemma_index_le(self.s_count as int, self.max_value as int, 64);
                    lemma_index_nonneg(self.s_count as int, self.max_value as int);
                }
                let hi: u128 = compute_bucket_high(self.s_count, i as u64);
                let r: u64 = if hi > self.max_value as u128 {
                    self.max_value
                } else {
                    hi as u64
                };
                return r;
            }
            acc = acc2 as u64;
            i = i + 1;
        }
        // Unreachable: the running total would have reached the target at the
        // latest in the last bucket.
        proof {
            assert(cs.take(len as int) =~= cs);
            assert(false);
        }
        0
    }
}

/// An all-zero counter array sums to zero.
proof fn lemma_sum_zero(s: Seq<u64>)
    requires
        forall|k: int| 0 <= k < s.len() ==> #[trigger] s[k] == 0,
    ensures
        sum_u64(s) == 0,
    decreases s.len(),
{
    if s.len() > 0 {
        lemma_sum_zero(s.drop_last());
    }
}

// ---------------------------------------------------------------------------
// Serialization
// ---------------------------------------------------------------------------
//
// The histogram serializes to a self-describing byte blob: a fixed header
// (maximum trackable value, precision, minimum, maximum, all little-endian)
// followed by the bucket counters with run-length compression of zero runs —
// a zero tag byte and a run length for each zero run, a one tag byte and the
// counter value for each non-zero bucket.

/// The eight bytes of `v`, least significant first.
pub open spec fn le8(v: u64) -> Seq<u8> {
    seq![
        v as u8,
        (v >> 8) as u8,
        (v >> 16) as u8,
        (v >> 24) as u8,
        (v >> 32) as u8,
        (v >> 40) as u8,
        (v >> 48) as u8,
        (v >> 56) as u8,
    ]
}

/// The value read from eight little-endian bytes.
pub open spec fn from_le8(b: Seq<u8>) -> u64
    recommends
        b.len() == 8,
{
    (b[0] as u64) | ((b[1] as u64) << 8) | ((b[2] as u64) << 16) | ((b[3] as u64) << 24) | ((b[4]
        as u64) << 32) | ((b[5] as u64) << 40) | ((b[6] as u64) << 48) | ((b[7] as u64) << 56)
}

/// Eight little-endian bytes read back give the value they were made from.
pub proof fn lemma_le8_roundtrip(v: u64)
    ensures
        from_le8(le8(v)) == v,
{
    assert(((v as u8) as u64) | ((((v >> 8) as u8) as u64) << 8) | ((((v >> 16) as u8) as u64)
        << 16) | ((((v >> 24) as u8) as u64) << 24) | ((((v >> 32) as u8) as u64) << 32) | ((((v
        >> 40) as u8) as u64) << 40) | ((((v >> 48) as u8) as u64) << 48) | ((((v >> 56) as u8)
        as u64) << 56) == v) by (bit_vector);
}

/// Length of the zero run starting at `i`.
pub open spec fn zrun(s: Seq<u64>, i: int) -> nat
    decreases s.len() - i,
{
    if i < 0 || i >= s.len() || s[i] != 0 {
        0
    } else {
        1 + zrun(s, i + 1)
    }
}

/// A zero run stays within the sequence, covers only zeros, and is maximal.
pub proof fn lemma_zrun_bounds(s: Seq<u64>, i: int)
    requires
        0 <= i <= s.len(),
    ensures
        i + zrun(s, i) <= s.len(),
        forall|j: int| i <= j < i + zrun(s, i) ==> #[trigger] s[j] == 0,
        i + zrun(s, i) == s.len() || s[i + zrun(s, i)] != 0,
    decreases s.len() - i,
{
    if i < s.len() && s[i] == 0 {
        lemma_zrun_bounds(s, i + 1);
    }
}

/// Run-length encoding of the counters from position `i` on.
pub open spec fn rle_encode(s: Seq<u64>, i: int) -> Seq<u8>
    decreases s.len() - i,
    via rle_encode_dec
{
    if i < 0 || i >= s.len() {
        Seq::empty()
    } else if s[i] == 0 {
        let z = zrun(s, i);
        seq![0u8] + le8(z as u64) + rle_encode(s, i + z)
    } else {
        seq![1u8] + le8(s[i]) + rle_encode(s, i + 1)
    }
}

#[via_fn]
proof fn rle_encode_dec(s: Seq<u64>, i: int) {
    if 0 <= i < s.len() && s[i] == 0 {
        lemma_zrun_bounds(s, i);
    }
}

/// A sequence of `n` zero counters.
pub open spec fn zero_seq(n: int) -> Seq<u64> {
    Seq::new(n as nat, |k: int| 0u64)
}

/// Decode exactly `n` counters from a run-length stream; absent when the
/// stream is malformed, non-canonical, or does not end exactly at `n`.
pub open spec fn rle_decode(bytes: Seq<u8>, n: int) -> Option<Seq<u64>>
    decreases bytes.len(),
{
    if n <= 0 {
        if n == 0 && bytes.len() == 0 {
            Some(Seq::empty())
        } else {
            None
        }
    } else if bytes.len() < 9 {
        None
    } else if bytes[0] == 0 {
        let z = from_le8(bytes.subrange(1, 9)) as int;
        if 1 <= z <= n {
            match rle_decode(bytes.skip(9), n - z) {
                Some(rest) => Some(zero_seq(z) + rest),
                None => None,
            }
        } else {
            None
        }
    } else if bytes[0] == 1 {
        let c = from_le8(bytes.subrange(1, 9));
        if c == 0 {
            None
        } else {
            match rle_decode(bytes.skip(9), n - 1) {
                Some(rest) => Some(seq![c] + rest),
                None => None,
            }
        }
    } else {
        None
    }
}

/// Decoding inverts encoding: the run-length stream of the counters from
/// position `i` decodes back to exactly those counters.
pub proof fn lemma_rle_roundtrip(s: Seq<u64>, i: int)
    requires
        0 <= i <= s.len(),
        s.len() <= u64::MAX,
    ensures
        rle_decode(rle_encode(s, i), s.len() - i) == Some(s.skip(i)),
    decreases s.len() - i,
{
    let b = rle_encode(s, i);
    let n = s.len() - i;
    if i == s.len() {
        assert(b =~= Seq::<u8>::empty());
        assert(s.skip(i) =~= Seq::<u64>::empty());
    } else if s[i] == 0 {
        lemma_zrun_bounds(s, i);
        let z = zrun(s, i) as int;
        let tail = rle_encode(s, i + z);
        assert(b =~= seq![0u8] + le8(z as u64) + tail);
        assert(b[0] == 0);
        assert(b.subrange(1, 9) =~= le8(z as u64));
        lemma_le8_roundtrip(z as u64);
        assert(from_le8(b.subrange(1, 9)) as int == z);
        assert(b.skip(9) =~= tail);
        lemma_rle_roundtrip(s, i + z);
        assert(zero_seq(z) + s.skip(i + z) =~= s.skip(i));
    } else {
        let tail = rle_encode(s, i + 1);
        assert(b =~= seq![1u8] + le8(s[i]) + tail);
        assert(b[0] == 1);
        assert(b.subrange(1, 9) =~= le8(s[i]));
        lemma_le8_roundtrip(s[i]);
        assert(b.skip(9) =~= tail);
        lemma_rle_roundtrip(s, i + 1);
        assert(seq![s[i]] + s.skip(i + 1) =~= s.skip(i));
    }
}

/// The full serialized form: header (maximum trackable value, precision,
/// minimum, maximum) then the run-length-compressed counters.
pub open spec fn spec_serialize(
    max_value: u64,
    sig: u8,
    mn: u64,
    mx: u64,
    counts: Seq<u64>,
) -> Seq<u8> {
    le8(max_value) + seq![sig] + le8(mn) + le8(mx) + rle_encode(counts, 0)
}

/// Parse a serialized histogram: the header fields and the counters, absent
/// when the blob is malformed or internally inconsistent.
pub open spec fn spec_deserialize(bytes: Seq<u8>) -> Option<(u64, u8, u64, u64, Seq<u64>)> {
    if bytes.len() < 25 {
        None
    } else {
        let max_value = from_le8(bytes.subrange(0, 8));
        let sig = bytes[8];
        let mn = from_le8(bytes.subrange(9, 17));
        let mx = from_le8(bytes.subrange(17, 25));
        if 1 <= sig <= 5 && 2 <= max_value <= MAX_TRACKABLE {
            let s = sub_bucket_count_of(sig as int);
            let n = bucket_index(s, max_value as int) + 1;
            match rle_decode(bytes.skip(25), n) {
                Some(counts) => {
                    let total = sum_u64(counts);
                    if total <= u64::MAX && (total == 0 ==> mn == 0 && mx == 0) && (total > 0
                        ==> mn <= mx && mx <= max_value) {
                        Some((max_value, sig, mn, mx, counts))
                    } else {
                        None
                    }
                },
                None => None,
            }
        } else {
            None
        }
    }
}

/// Serializing a well-formed histogram and parsing the bytes back yields
/// exactly the original header fields and counters. Every percentile is a
/// function of the counters and the configuration alone, so percentiles of
/// the decoded histogram equal those of the original exactly — within zero
/// quantization steps.
pub proof fn lemma_serialization_roundtrip(
    max_value: u64,
    sig: u8,
    mn: u64,
    mx: u64,
    counts: Seq<u64>,
)
    requires
        1 <= sig <= 5,
        2 <= max_value <= MAX_TRACKABLE,
        counts.len() == bucket_index(sub_bucket_count_of(sig as int), max_value as int) + 1,
        counts.len() <= u64::MAX,
        sum_u64(counts) <= u64::MAX,
        sum_u64(counts) == 0 ==> mn == 0 && mx == 0,
        sum_u64(counts) > 0 ==> mn <= mx && mx <= max_value,
    ensures
        spec_deserialize(spec_serialize(max_value, sig, mn, mx, counts)) == Some(
            (max_value, sig, mn, mx, counts),
        ),
{
    let b = spec_serialize(max_value, sig, mn, mx, counts);
    assert(b.len() >= 25);
    assert(b.subrange(0, 8) =~= le8(max_value));
    assert(b[8] == sig);
    assert(b.subrange(9, 17) =~= le8(mn));
    assert(b.subrange(17, 25) =~= le8(mx));
    lemma_le8_roundtrip(max_value);
    lemma_le8_roundtrip(mn);
    lemma_le8_roundtrip(mx);
    assert(b.skip(25) =~= rle_encode(counts, 0));
    lemma_rle_roundtrip(counts, 0);
    assert(counts.skip(0) =~= counts);
}

/// Public face of the collector's shape: everything the serialization
/// round trip needs of a well-formed collector, stated over the public
/// views so that callers can apply `lemma_serialization_roundtrip`.
pub proof fn lemma_collector_shape(c: &MetricsCollector)
    requires
        c.wf(),
    ensures
        1 <= c.sig_spec() <= 5,
        2 <= c.max_value_spec() <= MAX_TRACKABLE,
        c.sub_bucket_spec() as int == sub_bucket_count_of(c.sig_spec() as int),
        c.counts_spec().len() == bucket_index(c.sub_bucket_spec() as int, c.max_value_spec() as int)
            + 1,
        c.counts_spec().len() <= u64::MAX,
        c.total_spec() as int == sum_u64(c.counts_spec()),
        c.total_spec() == 0 ==> c.min_spec() == 0 && c.max_spec() == 0,
        c.total_spec() > 0 ==> c.min_spec() <= c.max_spec() && c.max_spec() <= c.max_value_spec(),
{
    lemma2_to64();
    lemma_index_le(c.sub_bucket_spec() as int, c.max_value_spec() as int, 64);
    lemma_index_nonneg(c.sub_bucket_spec() as int, c.max_value_spec() as int);
}

/// Round trip at the collector level: the serialized bytes of any
/// well-formed collector parse back to exactly its maximum, precision,
/// minimum, maximum and counters. Every percentile is a function of the
/// counters and the configuration alone, so the decoded histogram's
/// percentiles equal the original's exactly.
pub proof fn lemma_collector_roundtrip(c: &MetricsCollector)
    requires
        c.wf(),
    ensures
        spec_deserialize(
            spec_serialize(
                c.max_value_spec(),
                c.sig_spec(),
                c.min_spec(),
                c.max_spec(),
                c.counts_spec(),
            ),
        ) == Some(
            (c.max_value_spec(), c.sig_spec(), c.min_spec(), c.max_spec(), c.counts_spec()),
        ),
{
    lemma_collector_shape(c);
    lemma_serialization_roundtrip(
        c.max_value_spec(),
        c.sig_spec(),
        c.min_spec(),
        c.max_spec(),
        c.counts_spec(),
    );
}

/// Append the eight little-endian bytes of `v`.
fn push_le8(out: &mut Vec<u8>, v: u64)
    ensures
        final(out)@ == old(out)@ + le8(v),
{
    out.push(#[verifier::truncate] (v as u8));
    out.push(#[verifier::truncate] ((v >> 8) as u8));
    out.push(#[verifier::truncate] ((v >> 16) as u8));
    out.push(#[verifier::truncate] ((v >> 24) as u8));
    out.push(#[verifier::truncate] ((v >> 32) as u8));
    out.push(#[verifier::truncate] ((v >> 40) as u8));
    out.push(#[verifier::truncate] ((v >> 48) as u8));
    out.push(#[verifier::truncate] ((v >> 56) as u8));
    proof {
        assert(out@ =~= old(out)@ + le8(v));
    }
}

/// Read a little-endian value from eight bytes at `pos`.
fn read_u64_le(bytes: &Vec<u8>, pos: usize) -> (r: u64)
    requires
        pos + 8 <= bytes@.len(),
        bytes@.len() <= usize::MAX,
    ensures
        r == from_le8(bytes@.subrange(pos as int, pos as int + 8)),
{
    let r = (bytes[pos] as u64) | ((bytes[pos + 1] as u64) << 8) | ((bytes[pos + 2] as u64) << 16)
        | ((bytes[pos + 3] as u64) << 24) | ((bytes[pos + 4] as u64) << 32) | ((bytes[pos + 5]
        as u64) << 40) | ((bytes[pos + 6] as u64) << 48) | ((bytes[pos + 7] as u64) << 56);
    proof {
        let sub = bytes@.subrange(pos as int, pos as int + 8);
        assert(sub[0] == bytes@[pos as int]);
        assert(sub[1] == bytes@[pos as int + 1]);
        assert(sub[2] == bytes@[pos as int + 2]);
        assert(sub[3] == bytes@[pos as int + 3]);
        assert(sub[4] == bytes@[pos as int + 4]);
        assert(sub[5] == bytes@[pos as int + 5]);
        assert(sub[6] == bytes@[pos as int + 6]);
        assert(sub[7] == bytes@[pos as int + 7]);
    }
    r
}

impl MetricsCollector {
    /// Serialize the histogram to its self-describing byte form (see
    /// `spec_serialize`).
    pub fn serialize(&self) -> (out: Vec<u8>)
        requires
            self.wf(),
        ensures
            out@ == spec_serialize(
                self.max_value_spec(),
                self.sig_spec(),
                self.min_spec(),
                self.max_spec(),
                self.counts_spec(),
            ),
    {
        let mut out: Vec<u8> = Vec::new();
        push_le8(&mut out, self.max_value);
        out.push(self.sig_figures);
        push_le8(&mut out, self.min());
        push_le8(&mut out, self.max_seen);
        let ghost header = out@;

        let ghost cs = self.counts@;
        let len: usize = self.counts.len();
        let mut i: usize = 0;
        while i < len
            invariant
                self.wf(),
                cs == self.counts@,
                len == cs.len(),
                i <= len,
                out@ + rle_encode(cs, i as int) == header + rle_encode(cs, 0),
            decreases len - i,
        {
            let c: u64 = self.counts[i];
            if c == 0 {
                // Measure the zero run.
                let mut z: usize = 0;
                while i + z < len && self.counts[i + z] == 0
                    invariant
                        cs == self.counts@,
                        len == cs.len(),
                        i < len,
                        i + z <= len,
                        zrun(cs, i as int) == z + zrun(cs, i as int + z as int),
                    decreases len - (i + z),
                {
                    z = z + 1;
                }
                proof {
                    assert(zrun(cs, i as int + z as int) == 0);
                    assert(zrun(cs, i as int) == z);
                    lemma_zrun_bounds(cs, i as int);
                }
                out.push(0);
                push_le8(&mut out, z as u64);
                proof {
                    assert(rle_encode(cs, i as int) == seq![0u8] + le8(z as u64) + rle_encode(
                        cs,
                        i as int + z as int,
                    ));
                    assert(out@ + rle_encode(cs, i as int + z as int) =~= header + rle_encode(
                        cs,
                        0,
                    ));
                }
                i = i + z;
            } else {
                out.push(1);
                push_le8(&mut out, c);
                proof {
                    assert(rle_encode(cs, i as int) == seq![1u8] + le8(c) + rle_encode(
                        cs,
                        i as int + 1,
                    ));
                    assert(out@ + rle_encode(cs, i as int + 1) =~= header + rle_encode(cs, 0));
                }
                i = i + 1;
            }
        }
        proof {
            assert(rle_encode(cs, len as int) =~= Seq::<u8>::empty());
            assert(out@ =~= header + rle_encode(cs, 0));
            assert(out@ =~= spec_serialize(
                self.max_value_spec(),
                self.sig_spec(),
                self.min_spec(),
                self.max_spec(),
                cs,
            ));
        }
        out
    }

    /// Parse a histogram back from its serialized form; absent exactly when
    /// the blob does not parse (see `spec_deserialize`).
    pub fn deserialize(bytes: &Vec<u8>) -> (r: Option<MetricsCollector>)
        ensures
            match r {
                Some(c) => {
                    &&& c.wf()
                    &&& spec_deserialize(bytes@) == Some(
                        (
                            c.max_value_spec(),
                            c.sig_spec(),
                            c.min_spec(),
                            c.max_spec(),
                            c.counts_spec(),
                        ),
                    )
                },
                None => spec_deserialize(bytes@) is None,
            },
    {
        if bytes.len() < 25 {
            return None;
        }
        let max_value: u64 = read_u64_le(bytes, 0);
        let sig: u8 = bytes[8];
        let mn: u64 = read_u64_le(bytes, 9);
        let mx: u64 = read_u64_le(bytes, 17);
        proof {
            assert(bytes@.subrange(0, 8) =~= bytes@.subrange(0int, 0int + 8));
            assert(bytes@.subrange(9, 17) =~= bytes@.subrange(9int, 9int + 8));
            assert(bytes@.subrange(17, 25) =~= bytes@.subrange(17int, 17int + 8));
        }
        if sig < 1 || sig > 5 {
            return None;
        }
        if max_value < 2 || max_value > MAX_TRACKABLE {
            return None;
        }
        let s_count: u64 = if sig == 1 {
            10
        } else if sig == 2 {
            100
        } else if sig == 3 {
            1000
        } else if sig == 4 {
            10000
        } else {
            100000
        };
        let top_index: u64 = compute_index(s_count, max_value);
        let n_buckets: usize = (top_index + 1) as usize;
        let ghost orig_tail = bytes@.skip(25);
        let ghost n = n_buckets as int;

        let mut counts: Vec<u64> = Vec::new();
        let mut pos: usize = 25;
        loop
            invariant
                bytes@.len() >= 25,
                orig_tail == bytes@.skip(25),
                n == n_buckets as int,
                n >= 1,
                counts@.len() <= n,
                25 <= pos <= bytes@.len(),
                max_value == from_le8(bytes@.subrange(0, 8)),
                sig == bytes@[8],
                mn == from_le8(bytes@.subrange(9, 17)),
                mx == from_le8(bytes@.subrange(17, 25)),
                1 <= sig <= 5,
                2 <= max_value <= MAX_TRACKABLE,
                s_count as int == sub_bucket_count_of(sig as int),
                n == bucket_index(s_count as int, max_value as int) + 1,
                rle_decode(orig_tail, n) == (match rle_decode(
                    bytes@.skip(pos as int),
                    n - counts@.len(),
                ) {
                    Some(rest) => Some(counts@ + rest),
                    None => None,
                }),
            ensures
                counts@.len() == n,
                pos as int == bytes@.len(),
            decreases bytes@.len() - pos + (n - counts@.len()),
        {
            if counts.len() == n_buckets {
                if pos != bytes.len() {
                    proof {
                        assert(bytes@.skip(pos as int).len() > 0);
                        assert(rle_decode(bytes@.skip(pos as int), 0) is None);
                    }
                    return None;
                }
                break ;
            }
            if bytes.len() - pos < 9 {
                proof {
                    assert(bytes@.skip(pos as int).len() < 9);
                    assert(rle_decode(bytes@.skip(pos as int), n - counts@.len()) is None);
                }
                return None;
            }
            let tag: u8 = bytes[pos];
            let val: u64 = read_u64_le(bytes, pos + 1);
            proof {
                assert(bytes@.skip(pos as int).subrange(1, 9) =~= bytes@.subrange(
                    pos as int + 1,
                    pos as int + 1 + 8,
                ));
                assert(bytes@.skip(pos as int)[0] == bytes@[pos as int]);
                assert(bytes@.skip(pos as int).skip(9) =~= bytes@.skip(pos as int + 9));
            }
            if tag == 0 {
                let room: usize = n_buckets - counts.len();
                if val < 1 || val > room as u64 {
                    return None;
                }
                let ghost counts_before = counts@;
                let z: usize = val as usize;
                let mut k: usize = 0;
                while k < z
                    invariant
                        k <= z,
                        counts@ == counts_before + zero_seq(k as int),
                    decreases z - k,
                {
                    counts.push(0);
                    proof {
                        assert(counts@ =~= counts_before + zero_seq(k as int + 1));
                    }
                    k = k + 1;
                }
                proof {
                    assert((counts_before + zero_seq(z as int)) + (match rle_decode(
                        bytes@.skip(pos as int + 9),
                        n - counts_before.len() - z,
                    ) {
                        Some(rest) => rest,
                        None => Seq::empty(),
                    }) =~= counts_before + (zero_seq(z as int) + (match rle_decode(
                        bytes@.skip(pos as int + 9),
                        n - counts_before.len() - z,
                    ) {
                        Some(rest) => rest,
                        None => Seq::empty(),
                    })));
                }
                pos = pos + 9;
            } else if tag == 1 {
                if val == 0 {
                    return None;
                }
                let ghost counts_before = counts@;
                counts.push(val);
                proof {
                    assert((counts_before + seq![val]) + (match rle_decode(
                        bytes@.skip(pos as int + 9),
                        n - counts_before.len() - 1,
                    ) {
                        Some(rest) => rest,
                        None => Seq::empty(),
                    }) =~= counts_before + (seq![val] + (match rle_decode(
                        bytes@.skip(pos as int + 9),
                        n - counts_before.len() - 1,
                    ) {
                        Some(rest) => rest,
                        None => Seq::empty(),
                    })));
                }
                pos = pos + 9;
            } else {
                return None;
            }
        }
        proof {
            assert(bytes@.skip(pos as int).len() == 0);
            assert(bytes@.skip(pos as int) =~= Seq::<u8>::empty());
            assert(counts@ + Seq::<u64>::empty() =~= counts@);
            assert(rle_decode(orig_tail, n) == Some(counts@));
        }

        // Recompute the total and check internal consistency.
        let ghost cs = counts@;
        let mut acc: u128 = 0;
        let mut i: usize = 0;
        let len: usize = counts.len();
        while i < len
            invariant
                cs == counts@,
                len == cs.len(),
                i <= len,
                acc as int == sum_u64(cs.take(i as int)),
                acc as int <= (i as int) * (u64::MAX as int),
            decreases len - i,
        {
            let c: u64 = counts[i];
            proof {
                assert(cs.take(i + 1).drop_last() =~= cs.take(i as int));
                assert((acc as int) + (c as int) <= (i as int + 1) * (u64::MAX as int)) by (
                nonlinear_arith)
                    requires
                        acc as int <= (i as int) * (u64::MAX as int),
                        c <= u64::MAX,
                ;
                assert((i as int + 1) * (u64::MAX as int) < u128::MAX) by (nonlinear_arith)
                    requires
                        i as int + 1 <= usize::MAX as int + 1,
                ;
            }
            acc = acc + c as u128;
            i = i + 1;
        }
        proof {
            assert(cs.take(len as int) =~= cs);
        }
        if acc > u64::MAX as u128 {
            return None;
        }
        let total: u64 = acc as u64;
        if total == 0 {
            if mn != 0 || mx != 0 {
                return None;
            }
        } else {
            if mn > mx || mx > max_value {
                return None;
            }
        }
        let min_seen: u64 = if total == 0 {
            u64::MAX
        } else {
            mn
        };
        Some(
            MetricsCollector {
                counts,
                total,
                min_seen,
                max_seen: mx,
                max_value,
                sig_figures: sig,
                s_count,
            },
        )
    }
}

// ---------------------------------------------------------------------------
// Reporting
// ---------------------------------------------------------------------------

/// Execution counters carried into the report.
#[derive(Debug, Clone, Copy)]
pub struct ExecutionMetrics {
    pub emitted_intents: u64,
    pub dropped_intents: u64,
    pub ack_count: u64,
    pub fill_count: u64,
    pub gate_block_count: u64,
    pub cooldown_block_count: u64,
}

/// Histogram summary: latency percentiles in microseconds, throughput in
/// thousandths of a tick per second, and the execution counters.
#[derive(Debug, Clone, Copy)]
pub struct HistogramSummary {
    pub count: u64,
    pub min: u64,
    pub max: u64,
    pub p50: u64,
    pub p95: u64,
    pub p99: u64,
    pub p99_9: u64,
    /// Average throughput in thousandths of a sample per second.
    pub throughput_milli: u64,
    pub emitted_intents: u64,
    pub dropped_intents: u64,
    pub ack_count: u64,
    pub fill_count: u64,
    pub gate_block_count: u64,
    pub cooldown_block_count: u64,
}

/// Average throughput over a duration, in thousandths of a sample per
/// second; zero for a zero duration, saturating at the counter's top.
pub open spec fn spec_throughput_milli(count: u64, duration_ms: u64) -> u64 {
    if duration_ms == 0 {
        0u64
    } else {
        let t = (count as int) * 1_000_000 / (duration_ms as int);
        if t > u64::MAX {
            u64::MAX
        } else {
            t as u64
        }
    }
}

impl MetricsCollector {
    /// Build the histogram summary over a run of `duration_ms` milliseconds,
    /// folding in the execution counters.
    pub fn generate_summary(&self, duration_ms: u64, exec_metrics: &ExecutionMetrics) -> (r:
        HistogramSummary)
        requires
            self.wf(),
        ensures
            r.count == self.total_spec(),
            r.min == self.min_spec(),
            r.max == self.max_spec(),
            r.p50 == spec_value_at_quantile(
                self.counts_spec(),
                self.sub_bucket_spec() as int,
                self.max_value_spec() as int,
                5000,
            ),
            r.p95 == spec_value_at_quantile(
                self.counts_spec(),
                self.sub_bucket_spec() as int,
                self.max_value_spec() as int,
                9500,
            ),
            r.p99 == spec_value_at_quantile(
                self.counts_spec(),
                self.sub_bucket_spec() as int,
                self.max_value_spec() as int,
                9900,
            ),
            r.p99_9 == spec_value_at_quantile(
                self.counts_spec(),
                self.sub_bucket_spec() as int,
                self.max_value_spec() as int,
                9990,
            ),
            r.throughput_milli == spec_throughput_milli(self.total_spec(), duration_ms),
            r.emitted_intents == exec_metrics.emitted_intents,
            r.dropped_intents == exec_metrics.dropped_intents,
            r.ack_count == exec_metrics.ack_count,
            r.fill_count == exec_metrics.fill_count,
            r.gate_block_count == exec_metrics.gate_block_count,
            r.cooldown_block_count == exec_metrics.cooldown_block_count,
    {
        let throughput_milli: u64 = if duration_ms == 0 {
            0
        } else {
            let t: u128 = (self.total as u128) * 1_000_000 / (duration_ms as u128);
            if t > u64::MAX as u128 {
                u64::MAX
            } else {
                t as u64
            }
        };
        HistogramSummary {
            count: self.count(),
            min: self.min(),
            max: self.max(),
            p50: self.percentile(5000),
            p95: self.percentile(9500),
            p99: self.percentile(9900),
            p99_9: self.percentile(9990),
            throughput_milli,
            emitted_intents: exec_metrics.emitted_intents,
            dropped_intents: exec_metrics.dropped_intents,
            ack_count: exec_metrics.ack_count,
            fill_count: exec_metrics.fill_count,
            gate_block_count: exec_metrics.gate_block_count,
            cooldown_block_count: exec_metrics.cooldown_block_count,
        }
    }
}

} // verus!
