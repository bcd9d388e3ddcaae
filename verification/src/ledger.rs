//! Append-and-aggregate store of per-contract resource cost samples.
//!
//! A sample is immutable once appended and is never deleted here; queries
//! derive count, totals, averages and maxima for one contract on every call
//! and store nothing. Appending cannot fail: the fault arm of the result is
//! an uninhabited type, so "ledger write failed" is ruled out by
//! construction rather than handled.

use vstd::prelude::*;

use crate::metrics::spec_avg;

verus! {

/// One measurement of the cost a state-changing operation imposed on a
/// contract.
pub struct ResourceSample {
    pub contract_id: String,
    pub cpu_instructions: u64,
    pub mem_bytes: u64,
    pub storage_bytes: u64,
    pub timestamp: u64,
}

/// Mathematical image of one sample, used by every contract.
pub struct SampleModel {
    pub contract_id: Seq<char>,
    pub cpu_instructions: u64,
    pub mem_bytes: u64,
    pub storage_bytes: u64,
    pub timestamp: u64,
}

impl View for ResourceSample {
    type V = SampleModel;

    open spec fn view(&self) -> SampleModel {
        SampleModel {
            contract_id: self.contract_id@,
            cpu_instructions: self.cpu_instructions,
            mem_bytes: self.mem_bytes,
            storage_bytes: self.storage_bytes,
            timestamp: self.timestamp,
        }
    }
}

/// Per-byte cost coefficients for deriving a write's sample.
pub struct CostModel {
    pub base_cpu: u64,
    pub cpu_per_byte: u64,
    pub base_mem: u64,
    pub mem_per_byte: u64,
}

/// `base + per_byte * len`, saturating at `u64::MAX`.
pub open spec fn spec_cost(base: u64, per_byte: u64, len: u64) -> u64 {
    if base + per_byte * len > u64::MAX {
        u64::MAX
    } else {
        (base + per_byte * len) as u64
    }
}

/// Affine byte cost: `base + per_byte * len`, saturating at `u64::MAX`.
pub fn cost(base: u64, per_byte: u64, len: u64) -> (c: u64)
    ensures
        c == spec_cost(base, per_byte, len),
{
    proof {
        assert((per_byte as int) * (len as int) <= (u64::MAX as int) * (u64::MAX as int))
            by (nonlinear_arith)
            requires
                per_byte <= u64::MAX,
                len <= u64::MAX,
        ;
    }
    let wide: u128 = base as u128 + (per_byte as u128) * (len as u128);
    if wide > u64::MAX as u128 {
        u64::MAX
    } else {
        wide as u64
    }
}

/// The sample a write of `payload_len` bytes to the contract appends:
/// cpu and memory cost from the affine cost model, storage cost the byte
/// count itself.
pub fn sample_for_write(
    contract_id: &String,
    payload_len: u64,
    cost_model: &CostModel,
    now: u64,
) -> (s: ResourceSample)
    ensures
        s@ == (SampleModel {
            contract_id: contract_id@,
            cpu_instructions: spec_cost(cost_model.base_cpu, cost_model.cpu_per_byte, payload_len),
            mem_bytes: spec_cost(cost_model.base_mem, cost_model.mem_per_byte, payload_len),
            storage_bytes: payload_len,
            timestamp: now,
        }),
{
    ResourceSample {
        contract_id: contract_id.clone(),
        cpu_instructions: cost(cost_model.base_cpu, cost_model.cpu_per_byte, payload_len),
        mem_bytes: cost(cost_model.base_mem, cost_model.mem_per_byte, payload_len),
        storage_bytes: payload_len,
        timestamp: now,
    }
}

/// Number of samples the contract owns, saturating at `u64::MAX`.
pub open spec fn fold_count(s: Seq<SampleModel>, contract_id: Seq<char>) -> u64
    decreases s.len(),
{
    if s.len() == 0 {
        0u64
    } else {
        let rest = fold_count(s.drop_last(), contract_id);
        if s.last().contract_id == contract_id {
            rest.saturating_add(1)
        } else {
            rest
        }
    }
}

/// Sum of `f` over the contract's samples, saturating at `u64::MAX`.
pub open spec fn fold_total(
    s: Seq<SampleModel>,
    contract_id: Seq<char>,
    f: spec_fn(SampleModel) -> u64,
) -> u64
    decreases s.len(),
{
    if s.len() == 0 {
        0u64
    } else {
        let rest = fold_total(s.drop_last(), contract_id, f);
        if s.last().contract_id == contract_id {
            rest.saturating_add(f(s.last()))
        } else {
            rest
        }
    }
}

/// Maximum of `f` over the contract's samples; zero with none.
pub open spec fn fold_max(
    s: Seq<SampleModel>,
    contract_id: Seq<char>,
    f: spec_fn(SampleModel) -> u64,
) -> u64
    decreases s.len(),
{
    if s.len() == 0 {
        0u64
    } else {
        let rest = fold_max(s.drop_last(), contract_id, f);
        if s.last().contract_id == contract_id && f(s.last()) > rest {
            f(s.last())
        } else {
            rest
        }
    }
}

/// Derived per-contract aggregate; all fields zero for a contract with no
/// samples.
pub struct UsageAggregate {
    pub count: u64,
    pub cpu_total: u64,
    pub cpu_avg: u64,
    pub cpu_max: u64,
    pub mem_total: u64,
    pub mem_avg: u64,
    pub mem_max: u64,
    pub storage_total: u64,
    pub storage_avg: u64,
    pub storage_max: u64,
}

/// The fault arm of a ledger append. `record_usage` proves it never returns
/// it: an internal storage fault cannot occur in this design.
#[derive(Clone, Copy, Debug)]
pub struct LedgerFault;

/// Append-only sequence of resource samples.
pub struct ResourceLedger {
    samples: Vec<ResourceSample>,
}

impl ResourceLedger {
    /// All samples ever recorded, oldest first.
    pub closed spec fn view(&self) -> Seq<SampleModel> {
        self.samples@.map(|i: int, s: ResourceSample| s@)
    }

    /// An empty ledger.
    pub fn new() -> (l: ResourceLedger)
        ensures
            l@ == Seq::<SampleModel>::empty(),
    {
        let l = ResourceLedger { samples: Vec::new() };
        proof {
            assert(l@ =~= Seq::<SampleModel>::empty());
        }
        l
    }

    /// Number of samples recorded so far, over all contracts.
    pub fn len(&self) -> (n: usize)
        ensures
            n == self@.len(),
    {
        self.samples.len()
    }

    /// Append one sample. The sample is owned by the ledger from here on and
    /// never mutated or deleted; the append itself cannot fail.
    pub fn record_usage(&mut self, sample: ResourceSample) -> (r: Result<(), LedgerFault>)
        ensures
            r is Ok,
            final(self)@ == old(self)@.push(sample@),
    {
        let ghost m = sample@;
        self.samples.push(sample);
        proof {
            assert(self@ =~= old(self)@.push(m));
        }
        Ok(())
    }

    /// Count, totals, averages and maxima of the contract's samples. A
    /// contract with no samples gets the all-zero aggregate rather than an
    /// error.
    pub fn query(&self, contract_id: &String) -> (a: UsageAggregate)
        ensures
            a.count == fold_count(self@, contract_id@),
            a.cpu_total == fold_total(self@, contract_id@, |x: SampleModel| x.cpu_instructions),
            a.mem_total == fold_total(self@, contract_id@, |x: SampleModel| x.mem_bytes),
            a.storage_total == fold_total(self@, contract_id@, |x: SampleModel| x.storage_bytes),
            a.cpu_max == fold_max(self@, contract_id@, |x: SampleModel| x.cpu_instructions),
            a.mem_max == fold_max(self@, contract_id@, |x: SampleModel| x.mem_bytes),
            a.storage_max == fold_max(self@, contract_id@, |x: SampleModel| x.storage_bytes),
            a.cpu_avg == spec_avg(a.cpu_total, a.count),
            a.mem_avg == spec_avg(a.mem_total, a.count),
            a.storage_avg == spec_avg(a.storage_total, a.count),
    {
        let ghost cid = contract_id@;
        let ghost fcpu = |x: SampleModel| x.cpu_instructions;
        let ghost fmem = |x: SampleModel| x.mem_bytes;
        let ghost fsto = |x: SampleModel| x.storage_bytes;
        let n = self.samples.len();
        let mut count: u64 = 0;
        let mut cpu_total: u64 = 0;
        let mut mem_total: u64 = 0;
        let mut storage_total: u64 = 0;
        let mut cpu_max: u64 = 0;
        let mut mem_max: u64 = 0;
        let mut storage_max: u64 = 0;
        let mut i: usize = 0;
        while i < n
            invariant
                i <= n,
                n == self@.len(),
                cid == contract_id@,
                count == fold_count(self@.subrange(0, i as int), cid),
                cpu_total == fold_total(self@.subrange(0, i as int), cid, fcpu),
                mem_total == fold_total(self@.subrange(0, i as int), cid, fmem),
                storage_total == fold_total(self@.subrange(0, i as int), cid, fsto),
                cpu_max == fold_max(self@.subrange(0, i as int), cid, fcpu),
                mem_max == fold_max(self@.subrange(0, i as int), cid, fmem),
                storage_max == fold_max(self@.subrange(0, i as int), cid, fsto),
                fcpu == (|x: SampleModel| x.cpu_instructions),
                fmem == (|x: SampleModel| x.mem_bytes),
                fsto == (|x: SampleModel| x.storage_bytes),
            decreases n - i,
        {
            let s = &self.samples[i];
            let same = s.contract_id == *contract_id;
            proof {
                let pre = self@.subrange(0, i as int);
                let post = self@.subrange(0, i + 1);
                assert(post.drop_last() =~= pre);
                assert(*s == self.samples@[i as int]);
                assert(post.last() == self@[i as int]);
                assert(same == (post.last().contract_id == cid));
            }
            if same {
                count = count.saturating_add(1);
                cpu_total = cpu_total.saturating_add(s.cpu_instructions);
                mem_total = mem_total.saturating_add(s.mem_bytes);
                storage_total = storage_total.saturating_add(s.storage_bytes);
                if s.cpu_instructions > cpu_max {
                    cpu_max = s.cpu_instructions;
                }
                if s.mem_bytes > mem_max {
                    mem_max = s.mem_bytes;
                }
                if s.storage_bytes > storage_max {
                    storage_max = s.storage_bytes;
                }
            }
            i = i + 1;
        }
        proof {
            assert(self@.subrange(0, n as int) =~= self@);
        }
        let cpu_avg = if count == 0 {
            0
        } else {
            cpu_total / count
        };
        let mem_avg = if count == 0 {
            0
        } else {
            mem_total / count
        };
        let storage_avg = if count == 0 {
            0
        } else {
            storage_total / count
        };
        UsageAggregate {
            count,
            cpu_total,
            cpu_avg,
            cpu_max,
            mem_total,
            mem_avg,
            mem_max,
            storage_total,
            storage_avg,
            storage_max,
        }
    }
}

} // verus!
