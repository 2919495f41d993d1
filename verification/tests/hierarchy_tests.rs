use rvsim::cache::CachePolicy;
use rvsim::exclusive::ExclusiveCache;
use rvsim::inclusive::InclusiveCache;
use rvsim::run_wrapper::fetch_operations;
use rvsim::run_wrapper::run_trace;
use rvsim::run_wrapper::run_trace_exclusive;
use rvsim::storage::WriteHitPolicy;
use rvsim::storage::WriteMissPolicy;

#[test]
fn test_exclusive_cache() {
    let address = 0x12345679;
    let value = 1234;

    let mut cache = ExclusiveCache::default();
    cache.mmu.allocate_page(address);

    let mut stall_count = Some(0);
    let _ = cache.set(address, 4, value, &mut stall_count, &mut None);
    // Cold miss
    assert!(stall_count == Some(100));
    let _ = cache.set(address, 4, value, &mut stall_count, &mut None);
    // Hit at L1
    assert!(stall_count == Some(1));
}

#[test]
fn inclusive_write_then_read_hits() {
    // First access goes all the way to memory; the second hits L1
    let mut cache = InclusiveCache::default();
    let address = 0x12345678;
    cache.mmu.allocate_page(address);

    let mut stall_count = Some(0);
    assert!(cache.set8(address, 0x7F, &mut stall_count).is_ok());
    assert_eq!(stall_count, Some(100));

    let r = cache.get8(address, &mut stall_count);
    assert_eq!(r.unwrap(), 0x7F);
    assert_eq!(stall_count, Some(1));
}

#[test]
fn inclusive_double_set_hits_l1() {
    let mut cache = InclusiveCache::default();
    let address = 0xCAFE00;
    cache.mmu.allocate_page(address);

    let mut stall_count = Some(0);
    assert!(cache.set8(address, 1, &mut stall_count).is_ok());
    assert_eq!(stall_count, Some(100));
    assert!(cache.set8(address, 2, &mut stall_count).is_ok());
    // The second access is serviced at the first level's hit latency
    assert_eq!(stall_count, Some(cache.caches[0].policy.hit_latency));
    assert_eq!(cache.get8(address, &mut None).unwrap(), 2);
}

#[test]
fn victim_cache_recovers_conflict_miss() {
    // A single direct-mapped level with a victim cache beside it
    let mut policies = Vec::new();
    policies.push(CachePolicy::make(16 * 1024, 64, 1, 1));
    let mut cache = InclusiveCache::make(
        policies,
        WriteHitPolicy::WriteBack,
        WriteMissPolicy::WriteAllocate,
        100,
        true,
    );
    // Two addresses mapping to the same set with different tags
    let a = 0x0000_0100;
    let b = a + 16 * 1024;
    cache.mmu.allocate_page(a);
    cache.mmu.allocate_page(b);

    let mut stall_count = Some(0);
    let _ = cache.get8(a, &mut stall_count).unwrap();
    assert_eq!(stall_count, Some(100));
    // The conflicting access evicts the first line into the victim cache
    let _ = cache.get8(b, &mut stall_count).unwrap();
    assert_eq!(stall_count, Some(100));
    // The alternating access is serviced from the victim cache
    let _ = cache.get8(a, &mut stall_count).unwrap();
    assert_eq!(stall_count, Some(cache.victim_cache.policy.hit_latency));
    assert_eq!(cache.victim_cache.policy.hit_latency, 0);
}

#[test]
fn inclusion_audit_after_trace() {
    let mut cache = InclusiveCache::default();
    let content =
        b"r 0x100\nw 0x20000\nr 0x100\nw 0x4100\nr 0x8100\nr 0x20000\nw 0x100\n".to_vec();
    let operations = fetch_operations(&content).unwrap();
    assert!(run_trace(&mut cache, &operations).is_ok());
    assert!(cache.verify_inclusiveness().is_ok());
}

#[test]
fn inclusion_audit_with_victim_cache() {
    let mut policies = Vec::new();
    policies.push(CachePolicy::make(16 * 1024, 64, 1, 1));
    policies.push(CachePolicy::make(128 * 1024, 64, 8, 8));
    policies.push(CachePolicy::make(2 * 1024 * 1024, 64, 16, 20));
    let mut cache = InclusiveCache::make(
        policies,
        WriteHitPolicy::WriteBack,
        WriteMissPolicy::WriteAllocate,
        100,
        true,
    );
    let content = b"r 0x100\nr 0x4100\nr 0x8100\nr 0x100\nw 0x4100\n".to_vec();
    let operations = fetch_operations(&content).unwrap();
    assert!(run_trace(&mut cache, &operations).is_ok());
    // With a victim cache the audit starts from level 1
    assert!(cache.verify_inclusiveness().is_ok());
}

#[test]
fn exclusion_audit_after_trace() {
    let mut cache = ExclusiveCache::default();
    let content = b"r 0x100\nw 0x20000\nr 0x100\nw 0x4100\nr 0x8100\nr 0x20000\n".to_vec();
    let operations = fetch_operations(&content).unwrap();
    assert!(run_trace_exclusive(&mut cache, &operations).is_ok());
    assert!(cache.verify_exclusiveness());
}

#[test]
fn hierarchy_histories_track_levels() {
    let mut cache = InclusiveCache::default();
    cache.mmu.allocate_page(0x100);
    // Hits and misses are recorded when a stall count is requested
    let _ = cache.get8(0x100, &mut Some(0)).unwrap();
    let _ = cache.get8(0x100, &mut Some(0)).unwrap();
    let histories = cache.get_history();
    assert_eq!(histories.len(), 3);
    assert_eq!(histories[0].num_miss, 1);
    assert_eq!(histories[0].num_hit, 1);
}

#[test]
fn hierarchy_invalid_size_rejected() {
    let mut cache = InclusiveCache::default();
    cache.mmu.allocate_page(0x100);
    let r = cache.get(0x100, 3, &mut None, &mut None);
    assert!(matches!(
        r,
        Err(rvsim::error::SimulatorError::MemoryError(
            rvsim::error::MemoryError::AccessError {
                kind: rvsim::error::MemoryErrorKind::InvalidSize(3),
                ..
            }
        ))
    ));
}

#[test]
fn hierarchy_word_access_little_endian() {
    let mut cache = InclusiveCache::default();
    cache.mmu.allocate_page(0x2000);
    let mut stall = Some(0);
    let mut worst = Some(0);
    assert!(cache.set(0x2000, 4, 0x11223344, &mut stall, &mut worst).is_ok());
    assert_eq!(worst, Some(100));
    assert_eq!(cache.get(0x2000, 4, &mut stall, &mut worst).unwrap(), 0x11223344);
    assert_eq!(cache.get(0x2000, 1, &mut None, &mut None).unwrap(), 0x44);
    assert_eq!(cache.get(0x2002, 2, &mut None, &mut None).unwrap(), 0x1122);
}

#[test]
fn inclusion_audit_reports_missing_line() {
    let mut cache = InclusiveCache::default();
    // Plant a valid line at level 0 with no copy in the deeper levels
    let block = cache.caches[0].make_block(0x1240);
    let slot = cache.caches[0].get_index(0x1240);
    cache.caches[0].blocks[slot] = block;
    let r = cache.verify_inclusiveness();
    assert_eq!(
        r,
        Err(rvsim::error::SimulatorError::MemoryError(
            rvsim::error::MemoryError::CacheInconsistency(1)
        ))
    );
}

#[test]
fn exclusion_audit_reports_duplicate_line() {
    let mut cache = ExclusiveCache::default();
    assert!(cache.verify_exclusiveness());
    // Plant the same line in two levels
    let b0 = cache.caches[0].make_block(0x1240);
    let s0 = cache.caches[0].get_index(0x1240);
    cache.caches[0].blocks[s0] = b0;
    let b1 = cache.caches[1].make_block(0x1240);
    let s1 = cache.caches[1].get_index(0x1240) * cache.caches[1].policy.associativity;
    cache.caches[1].blocks[s1] = b1;
    assert!(!cache.verify_exclusiveness());
}

#[test]
fn write_no_allocate_skips_the_cache() {
    let mut policies = Vec::new();
    policies.push(CachePolicy::make(16 * 1024, 64, 1, 1));
    let mut cache = InclusiveCache::make(
        policies,
        WriteHitPolicy::WriteThrough,
        WriteMissPolicy::WriteNoAllocate,
        100,
        false,
    );
    cache.mmu.allocate_page(0x100);
    let mut stall_count = Some(0);
    // A write miss under write-no-allocate leaves the line out of the cache
    assert!(cache.set8(0x100, 1, &mut stall_count).is_ok());
    assert_eq!(stall_count, Some(100));
    assert!(cache.set8(0x100, 2, &mut stall_count).is_ok());
    assert_eq!(stall_count, Some(100));
    // A read brings it in; a later write hits
    let _ = cache.get8(0x100, &mut stall_count).unwrap();
    assert_eq!(stall_count, Some(100));
    assert!(cache.set8(0x100, 3, &mut stall_count).is_ok());
    assert_eq!(stall_count, Some(1));
}
