//! State-access cache and resource-metering core.
//!
//! The crate fronts a slow external state fetch with a bounded, time-limited
//! cache, instruments every read with hit/miss/latency counters, records the
//! cost each write imposes per contract, and drives the accept/drain/stop
//! lifecycle of the surrounding process.
//!
//! Everything here is in-memory and deterministic: the current time, measured
//! latencies and the outcomes of external fetches enter as plain values, so
//! the whole state transition of every operation is stated in its contract.
//! The driver around the crate performs the actual I/O, measures durations,
//! and serializes access to the shared state; fetches run between the two
//! halves of a read, never while the state is held.
//!
//! Of the failure taxonomy, only the fetch failure reaches a caller: the
//! driver surfaces it, and the core guarantees the failed fetch cached
//! nothing. A lock fault cannot arise — the core holds no lock to poison —
//! and a full store that cannot make room (capacity zero) degrades to
//! serving without caching instead of failing the read; the ledger append
//! provably never fails.

pub mod facade;
pub mod ledger;
pub mod lifecycle;
pub mod metrics;
pub mod store;

pub use facade::CacheConfig;
pub use facade::StateCacheFacade;
pub use ledger::ResourceLedger;
pub use lifecycle::LifecycleController;
pub use metrics::MetricsRecorder;
pub use store::CacheKey;
pub use store::ExpiringStore;
