use rvsim::cache::Cache;
use rvsim::cache::CachePolicy;
use rvsim::cache::get_log_2;
use rvsim::cache::get_mask;
use rvsim::cache::is_pow_2;

#[test]
fn test_get_log_2() {
    for n in 1..1234567 {
        let expected = {
            let mut count = 0;
            let mut t = n;
            while t > 1 {
                count += 1;
                t >>= 1;
            }
            count
        };
        assert_eq!(expected, get_log_2(n));
    }
}

#[test]
fn test_is_valid() {
    let policy = CachePolicy::default();
    assert_eq!(policy.is_valid(), true);
}

#[test]
fn policy_make_computes_block_num() {
    let policy = CachePolicy::make(16 * 1024, 64, 1, 1);
    assert_eq!(policy.block_num, 256);
    assert_eq!(policy.cache_size, policy.block_size * policy.block_num);
    assert!(policy.is_valid());
}

#[test]
fn policy_rejects_non_power_of_two() {
    let policy = CachePolicy::make(3 * 64, 64, 1, 1);
    assert!(!policy.is_valid());
    let policy2 = CachePolicy {
        cache_size: 1024,
        block_size: 64,
        block_num: 10,
        associativity: 1,
        hit_latency: 1,
    };
    assert!(!policy2.is_valid());
    let policy3 = CachePolicy {
        cache_size: 1024,
        block_size: 64,
        block_num: 16,
        associativity: 0,
        hit_latency: 1,
    };
    assert!(!policy3.is_valid());
}

#[test]
fn pow_2_test_matches() {
    assert!(is_pow_2(1));
    assert!(is_pow_2(2));
    assert!(is_pow_2(1 << 31));
    assert!(!is_pow_2(0));
    assert!(!is_pow_2(3));
    assert!(!is_pow_2(0xFFFFFFFF));
}

#[test]
fn masks_have_low_bits_set() {
    assert_eq!(get_mask(0), 0);
    assert_eq!(get_mask(6), 0x3F);
    assert_eq!(get_mask(12), 0xFFF);
    assert_eq!(get_mask(32), 0xFFFFFFFF);
}

#[test]
fn cache_tag_index_decomposition() {
    // 16 KiB direct mapped with 64-byte blocks: 6 offset bits, 8 index bits
    let cache = Cache::make(CachePolicy::default());
    let address = 0x12345678;
    assert_eq!(cache.get_index(address), ((address >> 6) & 0xFF) as usize);
    assert_eq!(cache.get_tag(address), address >> 14);
    let block = cache.make_block(address);
    assert!(block.valid);
    assert!(!block.dirty);
    // The reassembled address is the block base
    assert_eq!(cache.get_address(&block), address & !0x3F);
}

#[test]
fn cache_lookup_after_insert() {
    let mut cache = Cache::make(CachePolicy::default());
    let address = 0x4000;
    assert!(!cache.is_in_cache(address));
    assert!(cache.lookup(address).is_none());

    let block = cache.make_block(address);
    let slot = cache.get_index_to_replace(cache.get_index(address));
    cache.blocks[slot] = block;
    assert!(cache.is_in_cache(address));
    assert_eq!(cache.lookup(address), Some(slot));
    // A different tag in the same set misses
    assert!(!cache.is_in_cache(address + 0x4000));
}

#[test]
fn lru_prefers_invalid_then_oldest() {
    // Two-way associative cache
    let mut cache = Cache::make(CachePolicy::make(128, 64, 2, 1));
    // One set of two slots; fill slot 0 with an older stamp
    let b0 = cache.make_block(0x0);
    cache.blocks[0] = b0;
    // The first invalid slot wins
    assert_eq!(cache.get_index_to_replace(0), 1);
    let b1 = cache.make_block(0x80);
    cache.blocks[1] = b1;
    cache.access_index(0, rvsim::storage::AccessType::Read, 5);
    cache.access_index(1, rvsim::storage::AccessType::Read, 9);
    // Both valid: the least recently referenced wins
    assert_eq!(cache.get_index_to_replace(0), 0);
}

#[test]
fn access_index_marks_dirty_on_write() {
    let mut cache = Cache::make(CachePolicy::default());
    let block = cache.make_block(0x1000);
    cache.blocks[3] = block;
    cache.access_index(3, rvsim::storage::AccessType::Read, 7);
    assert!(!cache.blocks[3].dirty);
    assert_eq!(cache.blocks[3].prv_ref, 7);
    cache.access_index(3, rvsim::storage::AccessType::Write, 8);
    assert!(cache.blocks[3].dirty);
    assert_eq!(cache.blocks[3].prv_ref, 8);
}

#[test]
fn reset_block_clears_validity() {
    let mut cache = Cache::make(CachePolicy::default());
    let block = cache.make_block(0x1000);
    cache.blocks[64] = block;
    assert!(cache.blocks[64].valid);
    cache.reset_block(64);
    assert!(!cache.blocks[64].valid);
    assert_eq!(cache.blocks[64].index, 64);
    // The counters record hits and misses
    cache.record_hit();
    cache.record_hit();
    cache.record_miss();
    assert_eq!(cache.history.num_hit, 2);
    assert_eq!(cache.history.num_miss, 1);
}
