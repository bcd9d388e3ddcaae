//! Orchestration of store, metrics and ledger: the object request handlers
//! drive.
//!
//! A read is two steps around the external fetch, which the driver performs
//! between them so that no fetch ever runs while the shared state is held:
//! `read_probe` answers from the cache or says which kind of fetch is owed,
//! and `read_finish_miss` / `read_finish_bypass` apply the fetch outcome.
//! A failed fetch creates no entry — and the fetched value is returned to
//! the caller even when caching it afterwards stores nothing (a store of
//! capacity zero), so a cache-layer shortfall never fails the read itself.
//!
//! A write never writes through the cache: it drops the cached entry for
//! its key and appends one cost sample for the contract; the state mutation
//! itself happens outside this core. Warm-up preloads the store from
//! already-fetched snapshot rows, one by one, each row independent of the
//! rest.

use vstd::prelude::*;

use crate::ledger::CostModel;
use crate::ledger::LedgerFault;
use crate::ledger::ResourceLedger;
use crate::ledger::SampleModel;
use crate::ledger::UsageAggregate;
use crate::ledger::fold_count;
use crate::ledger::fold_max;
use crate::ledger::fold_total;
use crate::ledger::sample_for_write;
use crate::ledger::spec_cost;
use crate::metrics::MetricsRecorder;
use crate::metrics::record_hit_model;
use crate::metrics::record_miss_model;
use crate::metrics::record_uncached_model;
use crate::metrics::spec_avg;
use crate::metrics::spec_hit_rate_bp;
use crate::metrics::spec_improvement_factor;
use crate::store::EntryModel;
use crate::store::ExpiringStore;
use crate::store::lookup;
use crate::store::put_model;
use crate::store::remove_key;

verus! {

/// Cache knobs, immutable after startup.
#[derive(Clone, Copy, Debug)]
pub struct CacheConfig {
    /// When off, every read bypasses the store entirely.
    pub enabled: bool,
    /// Expiry span given to entries stored on a miss or during warm-up.
    pub global_ttl: u64,
    /// Most entries the store may hold at once.
    pub max_capacity: usize,
}

/// One row of the persisted snapshot that warm-up preloads.
pub struct CacheSeed {
    pub contract_id: String,
    pub state_key: String,
    pub value: Vec<u8>,
}

/// Mathematical image of one snapshot row.
pub struct SeedModel {
    pub contract_id: Seq<char>,
    pub state_key: Seq<char>,
    pub value: Seq<u8>,
}

impl View for CacheSeed {
    type V = SeedModel;

    open spec fn view(&self) -> SeedModel {
        SeedModel {
            contract_id: self.contract_id@,
            state_key: self.state_key@,
            value: self.value@,
        }
    }
}

/// Image of a whole snapshot, row for row.
pub open spec fn seeds_model(s: Seq<CacheSeed>) -> Seq<SeedModel> {
    s.map(|i: int, seed: CacheSeed| seed@)
}

/// Store content after preloading the rows in order: each row is stored as
/// a put of its key and value, so a later row for the same key wins.
pub open spec fn warm_model(
    s: Seq<EntryModel>,
    seeds: Seq<SeedModel>,
    ttl: u64,
    cap: nat,
    now: u64,
) -> Seq<EntryModel>
    decreases seeds.len(),
{
    if seeds.len() == 0 {
        s
    } else {
        warm_model(
            put_model(
                s,
                seeds[0].contract_id,
                seeds[0].state_key,
                seeds[0].value,
                now,
                now.saturating_add(ttl),
                cap,
            ),
            seeds.drop_first(),
            ttl,
            cap,
            now,
        )
    }
}

/// What a probe of the cache found.
#[derive(Debug)]
pub enum ReadProbe {
    /// The live cached value; the read is done.
    Hit(Vec<u8>),
    /// No live entry: the driver owes the external fetch, then
    /// `read_finish_miss`.
    MissFetch,
    /// The cache is bypassed: the driver owes the external fetch, then
    /// `read_finish_bypass`.
    BypassFetch,
}

/// Point-in-time image of counters, derived ratios and configuration.
#[derive(Clone, Copy, Debug)]
pub struct StatsSnapshot {
    pub hits: u64,
    pub misses: u64,
    /// Hit share of cache-answered reads, in basis points (0 ..= 10000).
    pub hit_rate_bp: u64,
    pub avg_cached_hit_latency: u64,
    pub avg_cache_miss_latency: u64,
    pub avg_uncached_latency: u64,
    /// Average uncached latency over average hit latency; zero while either
    /// class lacks samples.
    pub improvement_factor: u64,
    pub enabled: bool,
    pub global_ttl: u64,
    pub max_capacity: usize,
}

/// An owned copy of a byte payload.
fn clone_bytes(v: &Vec<u8>) -> (r: Vec<u8>)
    ensures
        r@ == v@,
{
    let mut r: Vec<u8> = Vec::new();
    let n = v.len();
    let mut i: usize = 0;
    while i < n
        invariant
            i <= n,
            n == v@.len(),
            r@ == v@.subrange(0, i as int),
        decreases n - i,
    {
        r.push(v[i]);
        proof {
            assert(r@ =~= v@.subrange(0, i + 1));
        }
        i = i + 1;
    }
    proof {
        assert(v@.subrange(0, n as int) =~= v@);
    }
    r
}

/// Cache, metrics and ledger of one process, behind one object.
pub struct StateCacheFacade {
    store: ExpiringStore,
    metrics: MetricsRecorder,
    ledger: ResourceLedger,
    enabled: bool,
    cost_model: CostModel,
}

impl StateCacheFacade {
    /// Content of the cache store.
    pub closed spec fn spec_store(&self) -> Seq<EntryModel> {
        self.store@
    }

    /// The read-path counters.
    pub closed spec fn spec_metrics(&self) -> MetricsRecorder {
        self.metrics
    }

    /// All recorded cost samples, oldest first.
    pub closed spec fn spec_ledger(&self) -> Seq<SampleModel> {
        self.ledger@
    }

    pub closed spec fn spec_enabled(&self) -> bool {
        self.enabled
    }

    pub closed spec fn spec_global_ttl(&self) -> u64 {
        self.store.spec_default_ttl()
    }

    pub closed spec fn spec_max_capacity(&self) -> usize {
        self.store.spec_max_capacity()
    }

    pub closed spec fn spec_cost_model(&self) -> CostModel {
        self.cost_model
    }

    pub closed spec fn wf(&self) -> bool {
        self.store.wf()
    }

    /// True when a probe with this `use_cache` flag goes to the store at
    /// all; otherwise the read bypasses the cache.
    pub open spec fn uses_cache(&self, use_cache: bool) -> bool {
        self.spec_enabled() && use_cache
    }

    /// Everything a read or write leaves alone: the configuration.
    pub open spec fn same_config(&self, other: &StateCacheFacade) -> bool {
        self.spec_enabled() == other.spec_enabled() && self.spec_global_ttl()
            == other.spec_global_ttl() && self.spec_max_capacity() == other.spec_max_capacity()
            && self.spec_cost_model() == other.spec_cost_model()
    }

    /// A fresh facade: empty cache, zero counters, empty ledger.
    pub fn new(config: CacheConfig, cost_model: CostModel) -> (f: StateCacheFacade)
        ensures
            f.wf(),
            f.spec_store() == Seq::<EntryModel>::empty(),
            f.spec_metrics() == (MetricsRecorder {
                hits: 0,
                misses: 0,
                uncached_count: 0,
                hit_latency_total: 0,
                miss_latency_total: 0,
                uncached_latency_total: 0,
            }),
            f.spec_ledger() == Seq::<SampleModel>::empty(),
            f.spec_enabled() == config.enabled,
            f.spec_global_ttl() == config.global_ttl,
            f.spec_max_capacity() == config.max_capacity,
            f.spec_cost_model() == cost_model,
    {
        StateCacheFacade {
            store: ExpiringStore::new(config.max_capacity, config.global_ttl),
            metrics: MetricsRecorder::new(),
            ledger: ResourceLedger::new(),
            enabled: config.enabled,
            cost_model,
        }
    }

    /// First half of a read. With the cache in use: a live entry is a hit —
    /// the value comes back at once and one hit of `hit_latency` is
    /// counted; a dead or missing entry is a miss — nothing is recorded
    /// yet, the driver owes the fetch and then `read_finish_miss`. With the
    /// cache bypassed (disabled, or `use_cache` false) the store is not
    /// even consulted and the driver owes the fetch and
    /// `read_finish_bypass`. The store content never changes here.
    pub fn read_probe(
        &mut self,
        contract_id: &String,
        state_key: &String,
        use_cache: bool,
        now: u64,
        hit_latency: u64,
    ) -> (r: ReadProbe)
        requires
            old(self).wf(),
        ensures
            final(self).wf(),
            old(self).same_config(final(self)),
            final(self).spec_store() == old(self).spec_store(),
            final(self).spec_ledger() == old(self).spec_ledger(),
            !old(self).uses_cache(use_cache) ==> r is BypassFetch && final(self).spec_metrics()
                == old(self).spec_metrics(),
            old(self).uses_cache(use_cache) ==> match lookup(
                old(self).spec_store(),
                contract_id@,
                state_key@,
                now,
            ) {
                Some(v) => (r matches ReadProbe::Hit(w) && w@ == v) && final(self).spec_metrics()
                    == record_hit_model(old(self).spec_metrics(), hit_latency),
                None => r is MissFetch && final(self).spec_metrics() == old(self).spec_metrics(),
            },
    {
        if !self.enabled || !use_cache {
            return ReadProbe::BypassFetch;
        }
        match self.store.get(contract_id, state_key, now) {
            Some(v) => {
                let owned = clone_bytes(v);
                self.metrics.record_hit(hit_latency);
                ReadProbe::Hit(owned)
            },
            None => ReadProbe::MissFetch,
        }
    }

    /// Second half of a missed read, applied to the fetch outcome. One miss
    /// of `latency` is counted either way. A fetched value is stored under
    /// the key with the global time-to-live and handed back unchanged; a
    /// failed fetch (`None`) stores nothing — the miss is never cached as
    /// an error — and hands back `None`, which the driver surfaces as the
    /// fetch error.
    pub fn read_finish_miss(
        &mut self,
        contract_id: &String,
        state_key: &String,
        fetched: Option<Vec<u8>>,
        latency: u64,
        now: u64,
    ) -> (r: Option<Vec<u8>>)
        requires
            old(self).wf(),
        ensures
            final(self).wf(),
            old(self).same_config(final(self)),
            final(self).spec_ledger() == old(self).spec_ledger(),
            final(self).spec_metrics() == record_miss_model(old(self).spec_metrics(), latency),
            r == fetched,
            match fetched {
                Some(v) => final(self).spec_store() == put_model(
                    old(self).spec_store(),
                    contract_id@,
                    state_key@,
                    v@,
                    now,
                    now.saturating_add(old(self).spec_global_ttl()),
                    old(self).spec_max_capacity() as nat,
                ),
                None => final(self).spec_store() == old(self).spec_store(),
            },
    {
        self.metrics.record_miss(latency);
        match fetched {
            Some(v) => {
                let copy = clone_bytes(&v);
                self.store.put(contract_id, state_key, copy, None, now);
                Some(v)
            },
            None => None,
        }
    }

    /// Second half of a cache-bypassing read, applied to the fetch outcome.
    /// One uncached read of `latency` is counted either way; the store is
    /// left untouched and the outcome is handed back unchanged.
    pub fn read_finish_bypass(&mut self, fetched: Option<Vec<u8>>, latency: u64) -> (r: Option<
        Vec<u8>,
    >)
        requires
            old(self).wf(),
        ensures
            final(self).wf(),
            old(self).same_config(final(self)),
            final(self).spec_store() == old(self).spec_store(),
            final(self).spec_ledger() == old(self).spec_ledger(),
            final(self).spec_metrics() == record_uncached_model(old(self).spec_metrics(), latency),
            r == fetched,
    {
        self.metrics.record_uncached(latency);
        fetched
    }

    /// Account for a write of `payload` to the contract's key. The cached
    /// entry for the key is dropped, so the next read re-fetches and can
    /// never serve the pre-write value; one cost sample is appended for the
    /// contract — cpu and memory from the affine cost model over the
    /// payload size, storage the payload size itself. The write of the
    /// state itself happens outside this core and is not rolled back on any
    /// account; the append provably cannot fail.
    pub fn write(
        &mut self,
        contract_id: &String,
        state_key: &String,
        payload: &[u8],
        now: u64,
    ) -> (r: Result<(), LedgerFault>)
        requires
            old(self).wf(),
        ensures
            final(self).wf(),
            old(self).same_config(final(self)),
            r is Ok,
            final(self).spec_store() == remove_key(
                old(self).spec_store(),
                contract_id@,
                state_key@,
            ),
            final(self).spec_metrics() == old(self).spec_metrics(),
            final(self).spec_ledger() == old(self).spec_ledger().push(
                SampleModel {
                    contract_id: contract_id@,
                    cpu_instructions: spec_cost(
                        old(self).spec_cost_model().base_cpu,
                        old(self).spec_cost_model().cpu_per_byte,
                        payload@.len() as u64,
                    ),
                    mem_bytes: spec_cost(
                        old(self).spec_cost_model().base_mem,
                        old(self).spec_cost_model().mem_per_byte,
                        payload@.len() as u64,
                    ),
                    storage_bytes: payload@.len() as u64,
                    timestamp: now,
                },
            ),
    {
        self.store.invalidate(contract_id, state_key);
        let sample = sample_for_write(
            contract_id,
            payload.len() as u64,
            &self.cost_model,
            now,
        );
        self.ledger.record_usage(sample)
    }

    /// Preload the store from persisted snapshot rows, in order, as if each
    /// were a put. Rows are independent: no row can keep the others from
    /// being stored (a row a full store evicts for, or that a zero-capacity
    /// store drops, is that row's outcome alone). With the cache disabled
    /// nothing is stored. Counters and ledger stay untouched: warm-up is
    /// not traffic.
    pub fn warm_up(&mut self, seeds: &Vec<CacheSeed>, now: u64)
        requires
            old(self).wf(),
        ensures
            final(self).wf(),
            old(self).same_config(final(self)),
            final(self).spec_metrics() == old(self).spec_metrics(),
            final(self).spec_ledger() == old(self).spec_ledger(),
            old(self).spec_enabled() ==> final(self).spec_store() == warm_model(
                old(self).spec_store(),
                seeds_model(seeds@),
                old(self).spec_global_ttl(),
                old(self).spec_max_capacity() as nat,
                now,
            ),
            !old(self).spec_enabled() ==> final(self).spec_store() == old(self).spec_store(),
    {
        if !self.enabled {
            return ;
        }
        let ghost all = seeds_model(seeds@);
        let ghost ttl = self.spec_global_ttl();
        let ghost cap = self.spec_max_capacity() as nat;
        let ghost target = warm_model(self.spec_store(), all, ttl, cap, now);
        proof {
            assert(all.skip(0) =~= all);
        }
        let n = seeds.len();
        let mut i: usize = 0;
        while i < n
            invariant
                i <= n,
                n == seeds@.len(),
                self.wf(),
                all == seeds_model(seeds@),
                ttl == self.spec_global_ttl(),
                cap == self.spec_max_capacity() as nat,
                warm_model(self.spec_store(), all.skip(i as int), ttl, cap, now) == target,
                self.spec_metrics() == old(self).spec_metrics(),
                self.spec_ledger() == old(self).spec_ledger(),
                old(self).same_config(self),
                self.spec_enabled(),
            decreases n - i,
        {
            let seed = &seeds[i];
            let value = clone_bytes(&seed.value);
            proof {
                let rest = all.skip(i as int);
                assert(rest[0] == seeds@[i as int]@);
                assert(rest.drop_first() =~= all.skip(i + 1));
            }
            self.store.put(&seed.contract_id, &seed.state_key, value, None, now);
            i = i + 1;
        }
        proof {
            assert(all.skip(n as int) =~= Seq::<SeedModel>::empty());
        }
    }

    /// Side-effect-free image of the counters, the derived ratios and the
    /// configuration.
    pub fn stats_snapshot(&self) -> (s: StatsSnapshot)
        ensures
            s.hits == self.spec_metrics().hits,
            s.misses == self.spec_metrics().misses,
            s.hit_rate_bp == spec_hit_rate_bp(self.spec_metrics().hits, self.spec_metrics().misses),
            s.hit_rate_bp <= 10000,
            s.avg_cached_hit_latency == spec_avg(
                self.spec_metrics().hit_latency_total,
                self.spec_metrics().hits,
            ),
            s.avg_cache_miss_latency == spec_avg(
                self.spec_metrics().miss_latency_total,
                self.spec_metrics().misses,
            ),
            s.avg_uncached_latency == spec_avg(
                self.spec_metrics().uncached_latency_total,
                self.spec_metrics().uncached_count,
            ),
            s.improvement_factor == spec_improvement_factor(self.spec_metrics()),
            s.enabled == self.spec_enabled(),
            s.global_ttl == self.spec_global_ttl(),
            s.max_capacity == self.spec_max_capacity(),
    {
        StatsSnapshot {
            hits: self.metrics.hits,
            misses: self.metrics.misses,
            hit_rate_bp: self.metrics.hit_rate_bp(),
            avg_cached_hit_latency: self.metrics.avg_cached_hit_latency(),
            avg_cache_miss_latency: self.metrics.avg_cache_miss_latency(),
            avg_uncached_latency: self.metrics.avg_uncached_latency(),
            improvement_factor: self.metrics.improvement_factor(),
            enabled: self.enabled,
            global_ttl: self.store.default_ttl(),
            max_capacity: self.store.max_capacity(),
        }
    }

    /// Aggregate cost the contract's writes have accumulated; all zero for
    /// a contract never written.
    pub fn usage(&self, contract_id: &String) -> (a: UsageAggregate)
        ensures
            a.count == fold_count(self.spec_ledger(), contract_id@),
            a.cpu_total == fold_total(
                self.spec_ledger(),
                contract_id@,
                |x: SampleModel| x.cpu_instructions,
            ),
            a.mem_total == fold_total(
                self.spec_ledger(),
                contract_id@,
                |x: SampleModel| x.mem_bytes,
            ),
            a.storage_total == fold_total(
                self.spec_ledger(),
                contract_id@,
                |x: SampleModel| x.storage_bytes,
            ),
            a.cpu_max == fold_max(
                self.spec_ledger(),
                contract_id@,
                |x: SampleModel| x.cpu_instructions,
            ),
            a.mem_max == fold_max(self.spec_ledger(), contract_id@, |x: SampleModel| x.mem_bytes),
            a.storage_max == fold_max(
                self.spec_ledger(),
                contract_id@,
                |x: SampleModel| x.storage_bytes,
            ),
            a.cpu_avg == spec_avg(a.cpu_total, a.count),
            a.mem_avg == spec_avg(a.mem_total, a.count),
            a.storage_avg == spec_avg(a.storage_total, a.count),
    {
        self.ledger.query(contract_id)
    }

    /// Number of entries resident in the store, expired ones included.
    pub fn cache_len(&self) -> (n: usize)
        ensures
            n == self.spec_store().len(),
    {
        self.store.len()
    }
}

} // verus!
