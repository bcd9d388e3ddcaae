use state_cache::ledger::cost;
use state_cache::ledger::sample_for_write;
use state_cache::ledger::CostModel;
use state_cache::ledger::ResourceSample;
use state_cache::ResourceLedger;

fn sample(cid: &str, cpu: u64, mem: u64, storage: u64, at: u64) -> ResourceSample {
    ResourceSample {
        contract_id: String::from(cid),
        cpu_instructions: cpu,
        mem_bytes: mem,
        storage_bytes: storage,
        timestamp: at,
    }
}

#[test]
fn query_of_unknown_contract_is_all_zero() {
    let l = ResourceLedger::new();
    let a = l.query(&String::from("c1"));
    assert_eq!(a.count, 0);
    assert_eq!(a.cpu_total, 0);
    assert_eq!(a.cpu_avg, 0);
    assert_eq!(a.cpu_max, 0);
    assert_eq!(a.mem_total, 0);
    assert_eq!(a.mem_avg, 0);
    assert_eq!(a.mem_max, 0);
    assert_eq!(a.storage_total, 0);
    assert_eq!(a.storage_avg, 0);
    assert_eq!(a.storage_max, 0);
}

#[test]
fn record_then_query_aggregates_exactly() {
    let mut l = ResourceLedger::new();
    assert!(l.record_usage(sample("c1", 100, 10, 50, 1)).is_ok());
    assert!(l.record_usage(sample("c1", 300, 30, 150, 2)).is_ok());
    let a = l.query(&String::from("c1"));
    assert_eq!(a.count, 2);
    assert_eq!(a.cpu_total, 400);
    assert_eq!(a.cpu_avg, 200);
    assert_eq!(a.cpu_max, 300);
    assert_eq!(a.mem_total, 40);
    assert_eq!(a.mem_avg, 20);
    assert_eq!(a.mem_max, 30);
    assert_eq!(a.storage_total, 200);
    assert_eq!(a.storage_avg, 100);
    assert_eq!(a.storage_max, 150);
}

#[test]
fn contracts_aggregate_independently() {
    let mut l = ResourceLedger::new();
    l.record_usage(sample("c1", 100, 1, 1, 1)).unwrap();
    l.record_usage(sample("c2", 900, 9, 9, 1)).unwrap();
    l.record_usage(sample("c1", 200, 2, 2, 2)).unwrap();
    let a1 = l.query(&String::from("c1"));
    let a2 = l.query(&String::from("c2"));
    assert_eq!(a1.count, 2);
    assert_eq!(a1.cpu_total, 300);
    assert_eq!(a2.count, 1);
    assert_eq!(a2.cpu_total, 900);
    assert_eq!(l.len(), 3);
}

#[test]
fn cost_is_affine_in_the_byte_count() {
    assert_eq!(cost(10, 2, 0), 10);
    assert_eq!(cost(10, 2, 100), 210);
    assert_eq!(cost(0, 0, 12345), 0);
}

#[test]
fn cost_saturates_at_the_top() {
    assert_eq!(cost(u64::MAX, 1, 1), u64::MAX);
    assert_eq!(cost(1, u64::MAX, 2), u64::MAX);
}

#[test]
fn sample_for_write_applies_the_cost_model() {
    let cm = CostModel { base_cpu: 10, cpu_per_byte: 2, base_mem: 5, mem_per_byte: 1 };
    let s = sample_for_write(&String::from("c1"), 100, &cm, 77);
    assert_eq!(s.contract_id, String::from("c1"));
    assert_eq!(s.cpu_instructions, 210);
    assert_eq!(s.mem_bytes, 105);
    assert_eq!(s.storage_bytes, 100);
    assert_eq!(s.timestamp, 77);
}
