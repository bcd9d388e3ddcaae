//! Hit/miss counters and latency accumulators, with derived ratios.
//!
//! Counters only ever grow (additions saturate at `u64::MAX` instead of
//! wrapping, so a counter never moves backwards); ratios are derived on read
//! and never stored. Latencies are caller-measured tick counts; the recorder
//! attaches no unit of its own. Rates are reported in basis points (one
//! hundredth of a percent), so a rate always lies in `0 ..= 10000`.

use vstd::prelude::*;

verus! {

/// Monotonic read-path counters: hits and misses of the cache, reads that
/// bypassed it, and the accumulated latency of each class.
pub struct MetricsRecorder {
    /// Reads served from the cache; doubles as the cached-hit latency count.
    pub hits: u64,
    /// Reads that fell through to the external fetch; doubles as the
    /// miss latency count.
    pub misses: u64,
    /// Reads that bypassed the cache entirely.
    pub uncached_count: u64,
    /// Accumulated latency of cached hits.
    pub hit_latency_total: u64,
    /// Accumulated latency of misses (fetch time included).
    pub miss_latency_total: u64,
    /// Accumulated latency of cache-bypassing reads.
    pub uncached_latency_total: u64,
}

/// Counters after one cached hit of the given latency.
pub open spec fn record_hit_model(m: MetricsRecorder, latency: u64) -> MetricsRecorder {
    MetricsRecorder {
        hits: m.hits.saturating_add(1),
        hit_latency_total: m.hit_latency_total.saturating_add(latency),
        ..m
    }
}

/// Counters after one miss of the given latency.
pub open spec fn record_miss_model(m: MetricsRecorder, latency: u64) -> MetricsRecorder {
    MetricsRecorder {
        misses: m.misses.saturating_add(1),
        miss_latency_total: m.miss_latency_total.saturating_add(latency),
        ..m
    }
}

/// Counters after one cache-bypassing read of the given latency.
pub open spec fn record_uncached_model(m: MetricsRecorder, latency: u64) -> MetricsRecorder {
    MetricsRecorder {
        uncached_count: m.uncached_count.saturating_add(1),
        uncached_latency_total: m.uncached_latency_total.saturating_add(latency),
        ..m
    }
}

/// Share of hits among all cache-answered reads, in basis points; zero when
/// nothing was sampled yet.
pub open spec fn spec_hit_rate_bp(hits: u64, misses: u64) -> int {
    if hits + misses == 0 {
        0
    } else {
        (hits * 10000) / (hits + misses)
    }
}

/// Truncating average; zero when the count is zero.
pub open spec fn spec_avg(total: u64, count: u64) -> int {
    if count == 0 {
        0
    } else {
        total as int / count as int
    }
}

/// How many times slower the uncached path is than a cached hit, as the
/// truncating ratio of the two average latencies; zero (the sentinel) while
/// either class still lacks a positive average.
pub open spec fn spec_improvement_factor(m: MetricsRecorder) -> int {
    let avg_uncached = spec_avg(m.uncached_latency_total, m.uncached_count);
    let avg_hit = spec_avg(m.hit_latency_total, m.hits);
    if avg_uncached > 0 && avg_hit > 0 {
        avg_uncached / avg_hit
    } else {
        0
    }
}

/// The hit rate is a proportion: always within `0 ..= 10000` basis points,
/// and exactly zero while no read was sampled.
pub proof fn lemma_hit_rate_bounded(hits: u64, misses: u64)
    ensures
        0 <= spec_hit_rate_bp(hits, misses) <= 10000,
        hits + misses == 0 ==> spec_hit_rate_bp(hits, misses) == 0,
{
    if hits + misses != 0 {
        assert((hits * 10000) / (hits + misses) <= 10000 && (hits * 10000) / (hits + misses)
            >= 0) by (nonlinear_arith)
            requires
                hits >= 0,
                misses >= 0,
                hits + misses > 0,
        ;
    }
}

impl MetricsRecorder {
    /// All counters at zero.
    pub fn new() -> (m: MetricsRecorder)
        ensures
            m.hits == 0,
            m.misses == 0,
            m.uncached_count == 0,
            m.hit_latency_total == 0,
            m.miss_latency_total == 0,
            m.uncached_latency_total == 0,
    {
        MetricsRecorder {
            hits: 0,
            misses: 0,
            uncached_count: 0,
            hit_latency_total: 0,
            miss_latency_total: 0,
            uncached_latency_total: 0,
        }
    }

    /// Count one cached hit. Never fails; at `u64::MAX` a counter pins there.
    pub fn record_hit(&mut self, latency: u64)
        ensures
            *final(self) == record_hit_model(*old(self), latency),
    {
        self.hits = self.hits.saturating_add(1);
        self.hit_latency_total = self.hit_latency_total.saturating_add(latency);
    }

    /// Count one miss. Never fails; at `u64::MAX` a counter pins there.
    pub fn record_miss(&mut self, latency: u64)
        ensures
            *final(self) == record_miss_model(*old(self), latency),
    {
        self.misses = self.misses.saturating_add(1);
        self.miss_latency_total = self.miss_latency_total.saturating_add(latency);
    }

    /// Count one cache-bypassing read. Never fails; at `u64::MAX` a counter
    /// pins there.
    pub fn record_uncached(&mut self, latency: u64)
        ensures
            *final(self) == record_uncached_model(*old(self), latency),
    {
        self.uncached_count = self.uncached_count.saturating_add(1);
        self.uncached_latency_total = self.uncached_latency_total.saturating_add(latency);
    }

    /// Hit rate in basis points: `hits / (hits + misses)`, zero with no
    /// samples. Always within `0 ..= 10000`.
    pub fn hit_rate_bp(&self) -> (r: u64)
        ensures
            r == spec_hit_rate_bp(self.hits, self.misses),
            r <= 10000,
    {
        proof {
            lemma_hit_rate_bounded(self.hits, self.misses);
        }
        let total: u128 = self.hits as u128 + self.misses as u128;
        if total == 0 {
            0
        } else {
            ((self.hits as u128 * 10000) / total) as u64
        }
    }

    /// Average cached-hit latency; zero while no hit was recorded.
    pub fn avg_cached_hit_latency(&self) -> (r: u64)
        ensures
            r == spec_avg(self.hit_latency_total, self.hits),
    {
        if self.hits == 0 {
            0
        } else {
            self.hit_latency_total / self.hits
        }
    }

    /// Average miss latency; zero while no miss was recorded.
    pub fn avg_cache_miss_latency(&self) -> (r: u64)
        ensures
            r == spec_avg(self.miss_latency_total, self.misses),
    {
        if self.misses == 0 {
            0
        } else {
            self.miss_latency_total / self.misses
        }
    }

    /// Average latency of cache-bypassing reads; zero while none was
    /// recorded.
    pub fn avg_uncached_latency(&self) -> (r: u64)
        ensures
            r == spec_avg(self.uncached_latency_total, self.uncached_count),
    {
        if self.uncached_count == 0 {
            0
        } else {
            self.uncached_latency_total / self.uncached_count
        }
    }

    /// Ratio of the average uncached latency to the average cached-hit
    /// latency; zero (the sentinel) while either average is still zero.
    pub fn improvement_factor(&self) -> (r: u64)
        ensures
            r == spec_improvement_factor(*self),
    {
        let avg_uncached = self.avg_uncached_latency();
        let avg_hit = self.avg_cached_hit_latency();
        if avg_uncached > 0 && avg_hit > 0 {
            avg_uncached / avg_hit
        } else {
            0
        }
    }
}

} // verus!
