//! Inclusive cache hierarchy: an ordered sequence of caches over an MMU,
//! with write-hit and write-miss policies and an optional victim cache
//! beside the first level.
//!
//! The caches carry only tags and accounting — every byte lives in the MMU
//! — so data reads and writes are exactly MMU reads and writes, and the
//! cache layer determines the stall counts: an access is charged the hit
//! latency of the first level that holds the line (the victim cache sits
//! between levels 0 and 1), or the miss penalty when none does.

use vstd::prelude::*;

use crate::cache::Block;
use crate::cache::Cache;
use crate::cache::CacheHistory;
use crate::cache::CachePolicy;
use crate::cache::spec_is_pow_2;
use crate::cache::spec_policy_valid;
use crate::error::MemoryErrorKind;
use crate::error::MemoryError;
use crate::error::SimulatorError;
use crate::error::SimulatorResult;
use crate::mmu::MMU;
use crate::storage::AccessType;
use crate::storage::WriteHitPolicy;
use crate::storage::WriteMissPolicy;

verus! {

/// Inclusive cache hierarchy: `n` cache levels and one MMU.
pub struct InclusiveCache {
    pub n: usize,
    pub caches: Vec<Cache>,
    pub mmu: MMU,
    pub write_hit_policy: WriteHitPolicy,
    pub write_miss_policy: WriteMissPolicy,
    pub miss_penalty: i32,
    pub total_penalty: i64,
    pub total_worst_penalty: i64,
    pub use_victim_cache: bool,
    pub victim_cache: Cache,
    pub ref_counter: u64,
}

impl InclusiveCache {
    /// Every level is well formed, the level count matches, the victim
    /// cache is a well-formed direct-mapped cache, and the penalties are
    /// nonnegative.
    pub open spec fn wf(self) -> bool {
        &&& self.n == self.caches.len()
        &&& forall|k: int| 0 <= k < self.caches.len() ==> (#[trigger] self.caches[k]).wf()
        &&& self.mmu.wf()
        &&& self.miss_penalty >= 0
        &&& self.victim_cache.wf()
        &&& self.victim_cache.policy.associativity == 1
    }

    /// An access fetches the line into the missing level: always on a
    /// read, and on a write exactly under write-allocate.
    pub open spec fn spec_fetching(self, ty: AccessType) -> bool {
        ty == AccessType::Read || self.write_miss_policy == WriteMissPolicy::WriteAllocate
    }

    /// The stall an access starting at level `k` is charged: the hit
    /// latency of the first level holding the line — with the victim cache
    /// probed between levels 0 and 1 on a fetching miss — or the miss
    /// penalty when no level holds it.
    pub open spec fn service_stall(self, k: int, address: u32, ty: AccessType) -> i32
        decreases self.caches.len() - k,
    {
        if k < 0 || k >= self.caches.len() {
            self.miss_penalty
        } else if self.caches[k].contains_addr(address) {
            self.caches[k].policy.hit_latency
        } else if self.spec_fetching(ty) {
            if k == 0 && self.use_victim_cache && self.victim_cache.contains_addr(address) {
                self.victim_cache.policy.hit_latency
            } else {
                self.service_stall(k + 1, address, AccessType::Write)
            }
        } else {
            self.service_stall(k + 1, address, ty)
        }
    }

    /// The service stall of a well-formed hierarchy is a nonnegative
    /// latency, at most the largest of the hit latencies and the miss
    /// penalty.
    pub proof fn lemma_service_stall_bounds(self, k: int, address: u32, ty: AccessType)
        requires
            self.wf(),
        ensures
            0 <= self.service_stall(k, address, ty),
        decreases self.caches.len() - k,
    {
        if 0 <= k < self.caches.len() {
            self.lemma_service_stall_bounds(k + 1, address, AccessType::Write);
            self.lemma_service_stall_bounds(k + 1, address, ty);
        }
    }

    /// No level at or below `k` holds the line.
    pub open spec fn miss_everywhere_from(self, k: int, address: u32) -> bool {
        forall|j: int|
            k <= j < self.caches.len() ==> !(#[trigger] self.caches[j]).contains_addr(address)
    }

    /// A line absent from every level from `k` down — and from the victim
    /// cache, when one is active — is serviced by main memory at the miss
    /// penalty.
    pub proof fn lemma_service_stall_miss(self, k: int, address: u32, ty: AccessType)
        requires
            self.miss_everywhere_from(k, address),
            self.use_victim_cache ==> !self.victim_cache.contains_addr(address),
        ensures
            self.service_stall(k, address, ty) == self.miss_penalty,
        decreases self.caches.len() - k,
    {
        if 0 <= k < self.caches.len() {
            self.lemma_service_stall_miss(k + 1, address, AccessType::Write);
            self.lemma_service_stall_miss(k + 1, address, ty);
        }
    }

    /// Where an access is serviced, case by case: a line held by level 0
    /// costs that level's hit latency; a line held by the active victim
    /// cache but not by level 0 costs the victim cache's hit latency on a
    /// fetching access; a line held nowhere costs the full miss penalty.
    pub proof fn lemma_service_stall_cases(self, address: u32, ty: AccessType)
        requires
            self.wf(),
        ensures
            self.caches.len() > 0 && self.caches[0].contains_addr(address) ==> self.service_stall(
                0,
                address,
                ty,
            ) == self.caches[0].policy.hit_latency,
            self.miss_everywhere_from(0, address) && (self.use_victim_cache
                ==> !self.victim_cache.contains_addr(address)) ==> self.service_stall(0, address, ty)
                == self.miss_penalty,
            self.caches.len() > 0 && !self.caches[0].contains_addr(address)
                && self.use_victim_cache && self.victim_cache.contains_addr(address)
                && self.spec_fetching(ty) ==> self.service_stall(0, address, ty)
                == self.victim_cache.policy.hit_latency,
    {
        if self.miss_everywhere_from(0, address) && (self.use_victim_cache
            ==> !self.victim_cache.contains_addr(address)) {
            self.lemma_service_stall_miss(0, address, ty);
        }
    }

    /// The hierarchy parameters an access never changes.
    pub open spec fn same_shape(a: Self, b: Self) -> bool {
        &&& a.n == b.n
        &&& a.caches.len() == b.caches.len()
        &&& forall|k: int|
            0 <= k < a.caches.len() ==> Cache::same_geometry(
                #[trigger] a.caches[k],
                b.caches[k],
            )
        &&& a.write_hit_policy == b.write_hit_policy
        &&& a.write_miss_policy == b.write_miss_policy
        &&& a.miss_penalty == b.miss_penalty
        &&& a.use_victim_cache == b.use_victim_cache
        &&& Cache::same_geometry(a.victim_cache, b.victim_cache)
    }

    /// The service stall depends only on the lines of levels `k` and
    /// deeper, the victim cache lines, and the unchanging parameters.
    pub proof fn lemma_service_stall_frame(a: Self, b: Self, k: int, address: u32, ty: AccessType)
        requires
            Self::same_shape(a, b),
            forall|i: int|
                k <= i < a.caches.len() ==> Cache::same_lines(#[trigger] a.caches[i], b.caches[i]),
            Cache::same_lines(a.victim_cache, b.victim_cache),
        ensures
            a.service_stall(k, address, ty) == b.service_stall(k, address, ty),
        decreases a.caches.len() - k,
    {
        if 0 <= k < a.caches.len() {
            Cache::lemma_same_lines_contains(a.caches[k], b.caches[k], address);
            Cache::lemma_same_lines_contains(a.victim_cache, b.victim_cache, address);
            Self::lemma_service_stall_frame(a, b, k + 1, address, AccessType::Write);
            Self::lemma_service_stall_frame(a, b, k + 1, address, ty);
        }
    }

    /// The latency of a hit at level `k`, or the miss penalty at the
    /// memory level.
    fn penalty(&self, k: usize) -> (r: i32)
        requires
            self.wf(),
        ensures
            r == (if (k as int) < self.caches.len() {
                self.caches[k as int].policy.hit_latency
            } else {
                self.miss_penalty
            }),
            r >= 0,
    {
        if k < self.n {
            self.caches[k].policy.hit_latency
        } else {
            self.miss_penalty
        }
    }

    /// Charges the worst-case accounting one miss penalty, saturating.
    fn penalize_worst(&mut self)
        requires
            old(self).wf(),
        ensures
            final(self).wf(),
            *final(self) == (InclusiveCache {
                total_worst_penalty: final(self).total_worst_penalty,
                ..*old(self)
            }),
            final(self).total_worst_penalty == (if old(self).total_worst_penalty + old(self).miss_penalty <= i64::MAX {
                old(self).total_worst_penalty + old(self).miss_penalty
            } else {
                i64::MAX as int
            }),
    {
        let mp = self.miss_penalty as i64;
        if self.total_worst_penalty <= i64::MAX - mp {
            self.total_worst_penalty = self.total_worst_penalty + mp;
        } else {
            self.total_worst_penalty = i64::MAX;
        }
    }

    /// Looks the address up at level `k`; no level past the last.
    fn lookup(&self, k: usize, address: u32) -> (r: Option<usize>)
        requires
            self.wf(),
        ensures
            (k as int) < self.caches.len() ==> (r is Some <==> self.caches[k as int].contains_addr(
                address,
            )),
            (k as int) >= self.caches.len() ==> r is None,
            r is Some ==> (k as int) < self.caches.len() && r->Some_0
                < self.caches[k as int].blocks.len() && self.caches[k as int].blocks[
                r->Some_0 as int
            ].valid && self.caches[k as int].blocks[r->Some_0 as int].tag == self.caches[
                k as int
            ].spec_tag_of(address),
    {
        if k >= self.n {
            return None;
        }
        proof {
            self.caches[k as int].lemma_set_range(address);
        }
        let c = &self.caches[k];
        c.lookup(address)
    }

    /// Writes a block into the victim cache, at the direct-mapped slot of
    /// the block's own address in level-0 geometry.
    fn write_block_to_victim_cache(&mut self, block: &Block)
        requires
            old(self).wf(),
            old(self).caches.len() > 0,
        ensures
            final(self).wf(),
            Self::same_shape(*old(self), *final(self)),
            final(self).mmu == old(self).mmu,
            final(self).caches@ == old(self).caches@,
            final(self).ref_counter == old(self).ref_counter,
            final(self).total_penalty == old(self).total_penalty,
            final(self).total_worst_penalty == old(self).total_worst_penalty,
            final(self).victim_cache.history == old(self).victim_cache.history,
            block.valid ==> final(self).victim_cache.contains_addr(
                old(self).caches[0].spec_address_of(*block),
            ),
            // The direct-mapped slot of the block's line address holds a
            // copy of the block, with tag and index rewritten for the
            // victim cache's geometry; every other slot is untouched
            ({
                let a = old(self).caches[0].spec_address_of(*block);
                let vi = old(self).victim_cache.spec_index_of(a);
                &&& final(self).victim_cache.blocks.len() == old(self).victim_cache.blocks.len()
                &&& 0 <= vi < old(self).victim_cache.blocks.len()
                &&& final(self).victim_cache.blocks[vi] == (Block {
                    tag: old(self).victim_cache.spec_tag_of(a),
                    index: final(self).victim_cache.blocks[vi].index,
                    ..*block
                })
                &&& final(self).victim_cache.blocks[vi].index as int == vi
                &&& forall|j: int|
                    0 <= j < old(self).victim_cache.blocks.len() && j != vi ==> final(self).victim_cache.blocks[j] == old(self).victim_cache.blocks[j]
            }),
    {
        let address = self.caches[0].get_address(block);
        proof {
            self.victim_cache.lemma_set_range(address);
            vstd::arithmetic::div_mod::lemma_fundamental_div_mod(
                self.victim_cache.spec_index_of(address),
                1,
            );
        }
        let index_to_replace = self.victim_cache.get_index(address);
        let new_block = self.victim_cache.transformed_block(block, address);
        let vc = &mut self.victim_cache;
        vc.blocks[index_to_replace] = new_block;
        proof {
            assert forall|i: int|
                0 <= i < final(self).victim_cache.blocks.len() implies
                (#[trigger] final(self).victim_cache.blocks[i].index) as int == i
                / final(self).victim_cache.policy.associativity as int by {
                vstd::arithmetic::div_mod::lemma_fundamental_div_mod(
                    i,
                    final(self).victim_cache.policy.associativity as int,
                );
            }
        }
    }
    /// One probe-and-handle step at level `k` (the MMU when `k == n`).
    /// Returns the touched slot at level `k`, if one was determined.  The
    /// requested stall becomes the service stall from level `k`; the MMU,
    /// the shallower levels' lines, the counters and the configuration are
    /// untouched, and a hit or a fetching access leaves the line at level
    /// `k`.
    fn access_inner(
        &mut self,
        k: usize,
        address: u32,
        access_type: AccessType,
        stall_count: &mut Option<i32>,
    ) -> (r: Option<usize>)
        requires
            old(self).wf(),
            k as int <= old(self).caches.len(),
        ensures
            final(self).wf(),
            Self::same_shape(*old(self), *final(self)),
            final(self).mmu == old(self).mmu,
            final(self).ref_counter == old(self).ref_counter,
            final(self).total_penalty == old(self).total_penalty,
            final(self).total_worst_penalty == old(self).total_worst_penalty,
            forall|i: int|
                0 <= i < k ==> Cache::same_lines(
                    #[trigger] old(self).caches[i],
                    final(self).caches[i],
                ),
            k >= 1 ==> Cache::same_lines(old(self).victim_cache, final(self).victim_cache)
                && final(self).victim_cache.history == old(self).victim_cache.history,
            (*old(stall_count)) is Some ==> *final(stall_count) == Some(
                old(self).service_stall(k as int, address, access_type),
            ),
            (*old(stall_count)) is None ==> *final(stall_count) is None,
            (k as int) < old(self).caches.len() && (old(self).caches[k as int].contains_addr(
                address,
            ) || old(self).spec_fetching(access_type)) ==> final(self).caches[
                k as int
            ].contains_addr(address),
        decreases old(self).caches.len() - k, 0int,
    {
        if k == self.n {
            // The MMU level: the access is charged the full miss penalty
            if stall_count.is_some() {
                *stall_count = Some(self.miss_penalty);
            }
            return None;
        }
        let hit = self.lookup(k, address);
        let p = self.penalty(k);
        let target_index: Option<usize>;
        match hit {
            Some(hit_index) => {
                // A hit at this level
                target_index = Some(hit_index);
                if stall_count.is_some() {
                    *stall_count = Some(p);
                    // Record the hit
                    let c = &mut self.caches[k];
                    c.record_hit();
                }
                let ghost mid = *self;
                self.handle_hit(k, address, access_type, stall_count);
                proof {
                    assert forall|i: int|
                        0 <= i < self.caches.len() implies Cache::same_geometry(
                        #[trigger] old(self).caches[i],
                        self.caches[i],
                    ) by {
                        assert(Cache::same_geometry(mid.caches[i], self.caches[i]));
                    }
                    assert forall|i: int|
                        0 <= i < k implies Cache::same_lines(
                        #[trigger] old(self).caches[i],
                        self.caches[i],
                    ) by {
                        assert(Cache::same_lines(mid.caches[i], self.caches[i]));
                    }
                    Cache::lemma_same_lines_contains(
                        old(self).caches[k as int],
                        self.caches[k as int],
                        address,
                    );
                }
            },
            None => {
                // A miss at this level
                if stall_count.is_some() {
                    *stall_count = Some(p);
                    // Record the miss
                    let c = &mut self.caches[k];
                    c.record_miss();
                }
                let ghost mid = *self;
                proof {
                    Cache::lemma_same_lines_contains(
                        old(self).caches[k as int],
                        mid.caches[k as int],
                        address,
                    );
                }
                target_index = self.handle_miss(k, address, access_type, stall_count);
                proof {
                    Self::lemma_service_stall_frame(
                        *old(self),
                        mid,
                        k as int,
                        address,
                        access_type,
                    );
                    assert forall|i: int|
                        0 <= i < self.caches.len() implies Cache::same_geometry(
                        #[trigger] old(self).caches[i],
                        self.caches[i],
                    ) by {
                        assert(Cache::same_geometry(mid.caches[i], self.caches[i]));
                    }
                    assert forall|i: int|
                        0 <= i < k implies Cache::same_lines(
                        #[trigger] old(self).caches[i],
                        self.caches[i],
                    ) by {
                        assert(Cache::same_lines(mid.caches[i], self.caches[i]));
                    }
                }
            },
        }

        // Touch the determined slot: stamp it and set dirty on a write
        match target_index {
            Some(ti) => {
                let rc = self.ref_counter;
                let ghost pre_touch = *self;
                let c = &mut self.caches[k];
                c.access_index(ti, access_type, rc);
                proof {
                    // Touching keeps validity and tags, so the line stays
                    pre_touch.caches[k as int].lemma_set_range(address);
                    if pre_touch.caches[k as int].contains_addr(address) {
                        let cpre = pre_touch.caches[k as int];
                        let cpost = self.caches[k as int];
                        let i = choose|i: int|
                            cpre.set_start(address) <= i < cpre.set_end(address) && (
                            #[trigger] cpre.blocks[i]).valid && cpre.blocks[i].tag
                                == cpre.spec_tag_of(address);
                        assert(cpost.blocks[i].valid && cpost.blocks[i].tag == cpost.spec_tag_of(
                            address,
                        ));
                        assert(cpost.contains_addr(address));
                    }
                }
            },
            None => {},
        }

        target_index
    }

    /// On a write hit under write-through, the write is propagated to the
    /// next level immediately, with no extra stall charged.
    fn handle_hit(
        &mut self,
        k: usize,
        address: u32,
        access_type: AccessType,
        stall_count: &mut Option<i32>,
    )
        requires
            old(self).wf(),
            (k as int) < old(self).caches.len(),
        ensures
            final(self).wf(),
            Self::same_shape(*old(self), *final(self)),
            final(self).mmu == old(self).mmu,
            final(self).ref_counter == old(self).ref_counter,
            final(self).total_penalty == old(self).total_penalty,
            final(self).total_worst_penalty == old(self).total_worst_penalty,
            forall|i: int|
                0 <= i <= k ==> Cache::same_lines(
                    #[trigger] old(self).caches[i],
                    final(self).caches[i],
                ),
            Cache::same_lines(old(self).victim_cache, final(self).victim_cache),
            final(self).victim_cache.history == old(self).victim_cache.history,
            *final(stall_count) == *old(stall_count),
        decreases old(self).caches.len() - k - 1, 2int,
    {
        if access_type == AccessType::Write && self.write_hit_policy == WriteHitPolicy::WriteThrough
             {
            // The address is present in the next level of an inclusive
            // hierarchy, and the stall is already accounted for
            let _ = self.access_inner(k + 1, address, AccessType::Write, &mut None);
        }
    }

    /// On a miss, fetch from the next level — on a read or a
    /// write-allocate write — or propagate the write downward.
    fn handle_miss(
        &mut self,
        k: usize,
        address: u32,
        access_type: AccessType,
        stall_count: &mut Option<i32>,
    ) -> (r: Option<usize>)
        requires
            old(self).wf(),
            (k as int) < old(self).caches.len(),
            !old(self).caches[k as int].contains_addr(address),
        ensures
            final(self).wf(),
            Self::same_shape(*old(self), *final(self)),
            final(self).mmu == old(self).mmu,
            final(self).ref_counter == old(self).ref_counter,
            final(self).total_penalty == old(self).total_penalty,
            final(self).total_worst_penalty == old(self).total_worst_penalty,
            forall|i: int|
                0 <= i < k ==> Cache::same_lines(
                    #[trigger] old(self).caches[i],
                    final(self).caches[i],
                ),
            k >= 1 ==> Cache::same_lines(old(self).victim_cache, final(self).victim_cache)
                && final(self).victim_cache.history == old(self).victim_cache.history,
            (*old(stall_count)) is Some ==> *final(stall_count) == Some(
                old(self).service_stall(k as int, address, access_type),
            ),
            (*old(stall_count)) is None ==> *final(stall_count) is None,
            old(self).spec_fetching(access_type) ==> r is Some && (r->Some_0 as int) < final(self).caches[k as int].blocks.len() && final(self).caches[k as int].contains_addr(address),
            !old(self).spec_fetching(access_type) ==> r is None,
        decreases old(self).caches.len() - k - 1, 3int,
    {
        // Fetch from the next level iff it is a read, or a write under
        // write-allocate
        if matches!(access_type, AccessType::Read) || self.write_miss_policy
            == WriteMissPolicy::WriteAllocate {
            Some(self.fetch_from_next_level(k, address, stall_count))
        } else {
            let _ = self.access_inner(k + 1, address, access_type, stall_count);
            None
        }
    }

    /// Brings the line of `address` into level `k`: from the victim cache
    /// when it holds the line beside level 0, otherwise from the next
    /// level, evicting the set's LRU slot (the eviction goes to the victim
    /// cache beside level 0, and a dirty eviction is written back down).
    /// Returns the slot now holding the line.
    fn fetch_from_next_level(
        &mut self,
        k: usize,
        address: u32,
        stall_count: &mut Option<i32>,
    ) -> (r: usize)
        requires
            old(self).wf(),
            (k as int) < old(self).caches.len(),
            !old(self).caches[k as int].contains_addr(address),
        ensures
            final(self).wf(),
            Self::same_shape(*old(self), *final(self)),
            final(self).mmu == old(self).mmu,
            final(self).ref_counter == old(self).ref_counter,
            final(self).total_penalty == old(self).total_penalty,
            final(self).total_worst_penalty == old(self).total_worst_penalty,
            forall|i: int|
                0 <= i < k ==> Cache::same_lines(
                    #[trigger] old(self).caches[i],
                    final(self).caches[i],
                ),
            k >= 1 ==> Cache::same_lines(old(self).victim_cache, final(self).victim_cache)
                && final(self).victim_cache.history == old(self).victim_cache.history,
            (r as int) < final(self).caches[k as int].blocks.len(),
            final(self).caches[k as int].contains_addr(address),
            k == 0 && old(self).use_victim_cache && old(self).victim_cache.contains_addr(address)
                ==> forall|i: int|
                0 < i < old(self).caches.len() ==> Cache::same_lines(
                    #[trigger] old(self).caches[i],
                    final(self).caches[i],
                ),
            (*old(stall_count)) is Some ==> *final(stall_count) == Some(
                (if k == 0 && old(self).use_victim_cache && old(self).victim_cache.contains_addr(
                    address,
                ) {
                    old(self).victim_cache.policy.hit_latency
                } else {
                    old(self).service_stall(k as int + 1, address, AccessType::Write)
                }),
            ),
            (*old(stall_count)) is None ==> *final(stall_count) is None,
            // A victim hit on a charged access is recorded in the victim
            // cache's history; a victim probe that misses records a miss
            k == 0 && old(self).use_victim_cache && old(self).victim_cache.contains_addr(address)
                && (*old(stall_count)) is Some ==> final(self).victim_cache.history.num_hit == (
            if old(self).victim_cache.history.num_hit < u64::MAX {
                old(self).victim_cache.history.num_hit + 1
            } else {
                old(self).victim_cache.history.num_hit as int
            }) && final(self).victim_cache.history.num_miss
                == old(self).victim_cache.history.num_miss,
            k == 0 && old(self).use_victim_cache && !old(self).victim_cache.contains_addr(address)
                ==> final(self).victim_cache.history.num_miss == (
            if old(self).victim_cache.history.num_miss < u64::MAX {
                old(self).victim_cache.history.num_miss + 1
            } else {
                old(self).victim_cache.history.num_miss as int
            }) && final(self).victim_cache.history.num_hit
                == old(self).victim_cache.history.num_hit,
        decreases old(self).caches.len() - k - 1, 2int,
    {
        // With a victim cache beside level 0, probe it first
        if self.use_victim_cache && k == 0 {
            let vc_lookup = self.victim_cache.lookup(address);
            match vc_lookup {
                Some(hit_index) => {
                    // A hit at the victim cache
                    if stall_count.is_some() {
                        *stall_count = Some(self.victim_cache.policy.hit_latency);
                        // Record the hit
                        let vc = &mut self.victim_cache;
                        vc.record_hit();
                    }
                    proof {
                        self.victim_cache.lemma_set_range(address);
                        self.caches[k as int].lemma_set_range(address);
                    }
                    // The victim line moves up into this level's set for
                    // the address; the displaced block leaves for the
                    // victim cache
                    let vc_block = self.victim_cache.blocks[hit_index];
                    let c = &self.caches[k];
                    let l1_index = c.get_index(address);
                    let index_to_replace = c.get_index_to_replace(l1_index);
                    let replaced_block = c.blocks[index_to_replace];
                    let new_block = c.transformed_block(&vc_block, address);
                    let ghost pre_place = *self;
                    let cm = &mut self.caches[k];
                    cm.blocks[index_to_replace] = new_block;
                    proof {
                        Self::lemma_block_placed(
                            pre_place,
                            *self,
                            k as int,
                            index_to_replace as int,
                            address,
                            new_block,
                        );
                    }
                    let vcm = &mut self.victim_cache;
                    vcm.reset_block(hit_index);
                    if replaced_block.valid {
                        self.write_block_to_victim_cache(&replaced_block);
                    }
                    proof {
                        assert forall|i: int|
                            0 < i < old(self).caches.len() implies Cache::same_lines(
                            #[trigger] old(self).caches[i],
                            self.caches[i],
                        ) by {
                            assert(Cache::same_lines(pre_place.caches[i], self.caches[i]));
                        }
                    }
                    return index_to_replace;
                },
                None => {
                    // Record the miss
                    let vc = &mut self.victim_cache;
                    vc.record_miss();
                },
            }
        }

        // Make a new block for the address
        let c0 = &self.caches[k];
        let block = c0.make_block(address);

        // Access the next level (as a write, standing for the fetch)
        let ghost mid = *self;
        let _ = self.access_inner(k + 1, address, AccessType::Write, stall_count);
        proof {
            Self::lemma_service_stall_frame(
                *old(self),
                mid,
                k as int + 1,
                address,
                AccessType::Write,
            );
        }

        // Replace the set's least recently used slot
        proof {
            self.caches[k as int].lemma_set_range(address);
        }
        let c1 = &self.caches[k];
        let index_to_replace = c1.get_index_to_replace(block.index);
        let replaced_block = c1.blocks[index_to_replace];
        let ghost pre_place = *self;
        let cm = &mut self.caches[k];
        cm.blocks[index_to_replace] = block;
        proof {
            Self::lemma_block_placed(
                pre_place,
                *self,
                k as int,
                index_to_replace as int,
                address,
                block,
            );
        }

        // The eviction goes to the victim cache beside level 0
        if self.use_victim_cache && k == 0 && replaced_block.valid {
            self.write_block_to_victim_cache(&replaced_block);
        }

        // A dirty eviction under write-back is written to the next level
        if self.write_hit_policy == WriteHitPolicy::WriteBack && replaced_block.dirty {
            self.write_to_next_level(k, &replaced_block);
        }

        index_to_replace
    }

    /// Placing a block with the address's tag into a slot of the
    /// address's set makes the level contain the address and keeps the
    /// level well formed.
    proof fn lemma_block_placed(
        pre: Self,
        post: Self,
        k: int,
        slot: int,
        address: u32,
        placed: Block,
    )
        requires
            pre.wf(),
            0 <= k < pre.caches.len(),
            pre.caches[k].set_start(address) <= slot < pre.caches[k].set_end(address),
            pre.caches[k].set_end(address) <= pre.caches[k].blocks.len(),
            placed.valid,
            placed.tag == pre.caches[k].spec_tag_of(address),
            placed.index as int == pre.caches[k].spec_index_of(address),
            post == (InclusiveCache { caches: post.caches, ..pre }),
            post.caches@ == pre.caches@.update(
                k,
                (Cache { blocks: post.caches[k].blocks, ..pre.caches[k] }),
            ),
            post.caches[k].blocks@ == pre.caches[k].blocks@.update(slot, placed),
        ensures
            post.wf(),
            post.caches[k].contains_addr(address),
            Self::same_shape(pre, post),
            forall|i: int|
                0 <= i < pre.caches.len() && i != k ==> Cache::same_lines(
                    #[trigger] pre.caches[i],
                    post.caches[i],
                ),
    {
        pre.caches[k].lemma_set_range(address);
        let cpre = pre.caches[k];
        let cpost = post.caches[k];
        assert(cpost.blocks[slot] == placed);
        assert(cpost.contains_addr(address));
        // The placed block records its own set, so the level stays wf
        let assoc = cpre.policy.associativity as int;
        vstd::arithmetic::div_mod::lemma_fundamental_div_mod_converse_div(
            slot,
            assoc,
            cpre.spec_index_of(address),
            slot - cpre.spec_index_of(address) * assoc,
        );
        assert forall|i: int|
            0 <= i < cpost.blocks.len() implies (#[trigger] cpost.blocks[i].index) as int == i
            / assoc by {
            if i != slot {
                assert(cpost.blocks[i] == cpre.blocks[i]);
            }
        }
    }

    /// Writes the bytes of an evicted block through to the next level,
    /// one byte access per byte of the block, with no stall charged.
    #[verifier::loop_isolation(false)]
    fn write_to_next_level(&mut self, k: usize, block: &Block)
        requires
            old(self).wf(),
            (k as int) < old(self).caches.len(),
        ensures
            final(self).wf(),
            Self::same_shape(*old(self), *final(self)),
            final(self).mmu == old(self).mmu,
            final(self).ref_counter == old(self).ref_counter,
            final(self).total_penalty == old(self).total_penalty,
            final(self).total_worst_penalty == old(self).total_worst_penalty,
            forall|i: int|
                0 <= i <= k ==> Cache::same_lines(
                    #[trigger] old(self).caches[i],
                    final(self).caches[i],
                ),
            Cache::same_lines(old(self).victim_cache, final(self).victim_cache),
            final(self).victim_cache.history == old(self).victim_cache.history,
        decreases old(self).caches.len() - k - 1, 1int,
    {
        let block_size;
        let address;
        {
            let cache = &self.caches[k];
            block_size = cache.policy.block_size;
            address = cache.get_address(block);
        }
        let ghost pre = *self;
        let mut i: usize = 0;
        while i < block_size
            invariant
                self.wf(),
                (k as int) < self.caches.len(),
                i <= block_size,
                Self::same_shape(pre, *self),
                self.mmu == pre.mmu,
                self.ref_counter == pre.ref_counter,
                self.total_penalty == pre.total_penalty,
                self.total_worst_penalty == pre.total_worst_penalty,
                forall|x: int|
                    0 <= x <= k ==> Cache::same_lines(#[trigger] pre.caches[x], self.caches[x]),
                Cache::same_lines(pre.victim_cache, self.victim_cache),
                self.victim_cache.history == pre.victim_cache.history,
            decreases block_size - i,
        {
            let _ = self.access_inner(
                k + 1,
                address.wrapping_add(i as u32),
                AccessType::Write,
                &mut None,
            );
            i = i + 1;
        }
    }

    /// Creates an inclusive hierarchy from one cache policy per level, the
    /// write policies, the main-memory miss penalty, and whether a victim
    /// cache sits beside level 0.  Everything starts empty.
    pub fn make(
        policies: Vec<CachePolicy>,
        write_hit_policy: WriteHitPolicy,
        write_miss_policy: WriteMissPolicy,
        miss_penalty: i32,
        use_victim_cache: bool,
    ) -> (r: Self)
        requires
            forall|i: int|
                0 <= i < policies.len() ==> spec_policy_valid(#[trigger] policies[i])
                    && policies[i].hit_latency >= 0,
            miss_penalty >= 0,
            policies.len() > 0 ==> policies[0].block_size <= 0x10000000,
        ensures
            r.wf(),
            r.n == policies.len(),
            r.caches.len() == policies.len(),
            forall|i: int| 0 <= i < policies.len() ==> (#[trigger] r.caches[i]).policy == policies[i],
            forall|i: int|
                0 <= i < policies.len() ==> (#[trigger] r.caches[i]).history == (CacheHistory {
                    num_hit: 0,
                    num_miss: 0,
                }),
            forall|i: int, b: int|
                0 <= i < policies.len() && 0 <= b < r.caches[i].blocks.len() ==> !(
                #[trigger] r.caches[i].blocks[b]).valid && !r.caches[i].blocks[b].dirty
                    && r.caches[i].blocks[b].tag == 0 && r.caches[i].blocks[b].prv_ref == 0,
            forall|i: int, a: u32| 0 <= i < policies.len() ==> !(#[trigger] r.caches[i].contains_addr(a)),
            forall|a: u32| !r.victim_cache.contains_addr(a),
            r.mmu.pages() == Map::<int, Seq<u8>>::empty(),
            r.write_hit_policy == write_hit_policy,
            r.write_miss_policy == write_miss_policy,
            r.miss_penalty == miss_penalty,
            r.use_victim_cache == use_victim_cache,
            r.total_penalty == 0,
            r.total_worst_penalty == 0,
            r.ref_counter == 0,
            policies.len() > 0 ==> r.victim_cache.policy == (CachePolicy {
                cache_size: (8 * policies[0].block_size) as usize,
                block_size: policies[0].block_size,
                block_num: 8,
                associativity: 1,
                hit_latency: 0,
            }),
    {
        let mut caches: Vec<Cache> = Vec::new();
        let mut i: usize = 0;
        while i < policies.len()
            invariant
                i <= policies.len(),
                caches.len() == i,
                forall|x: int|
                    0 <= x < policies.len() ==> spec_policy_valid(#[trigger] policies[x])
                        && policies[x].hit_latency >= 0,
                forall|x: int| 0 <= x < i ==> (#[trigger] caches[x]).wf(),
                forall|x: int| 0 <= x < i ==> (#[trigger] caches[x]).policy == policies[x],
                forall|x: int|
                    0 <= x < i ==> (#[trigger] caches[x]).history == (CacheHistory {
                        num_hit: 0,
                        num_miss: 0,
                    }),
                forall|x: int, b: int|
                    0 <= x < i && 0 <= b < caches[x].blocks.len() ==> !(
                    #[trigger] caches[x].blocks[b]).valid && !caches[x].blocks[b].dirty
                        && caches[x].blocks[b].tag == 0 && caches[x].blocks[b].prv_ref == 0,
                forall|x: int, a: u32| 0 <= x < i ==> !(#[trigger] caches[x].contains_addr(a)),
            decreases policies.len() - i,
        {
            caches.push(Cache::make(policies[i]));
            i = i + 1;
        }
        let victim_cache = if caches.len() > 0 {
            let block_size = policies[0].block_size;
            proof {
                Self::lemma_victim_policy_valid(block_size);
            }
            Cache::make(CachePolicy::make(8 * block_size, block_size, 1, 0))
        } else {
            // Whatever it is, it is not going to be used
            proof {
                crate::cache::lemma_standard_policies_valid();
            }
            Cache::make(CachePolicy::default())
        };
        Self {
            n: caches.len(),
            caches,
            mmu: MMU::make(),
            write_hit_policy,
            write_miss_policy,
            miss_penalty,
            total_penalty: 0,
            total_worst_penalty: 0,
            use_victim_cache,
            victim_cache,
            ref_counter: 0,
        }
    }

    /// The victim-cache policy — eight blocks of the level-0 block size,
    /// direct mapped, free hits — is valid whenever the block size is a
    /// reasonably sized power of two.
    proof fn lemma_victim_policy_valid(block_size: usize)
        requires
            spec_is_pow_2(block_size as u32),
            block_size <= 0x10000000,
        ensures
            spec_policy_valid(
                CachePolicy {
                    cache_size: (8 * block_size) as usize,
                    block_size,
                    block_num: ((8 * block_size) as usize / block_size) as usize,
                    associativity: 1,
                    hit_latency: 0,
                },
            ),
            (8 * block_size) as usize / block_size == 8,
            (8 * block_size) as usize % block_size == 0,
    {
        let bs = block_size as int;
        assert(block_size >= 1);
        vstd::arithmetic::div_mod::lemma_fundamental_div_mod_converse_div(8 * bs, bs, 8, 0);
        vstd::arithmetic::div_mod::lemma_fundamental_div_mod_converse_mod(8 * bs, bs, 8, 0);
        // 8 * block_size is a power of two: shift the block size's exponent
        let b32 = block_size as u32;
        let mb = b32.wrapping_sub(1);
        let v: u32 = (8 * block_size) as u32;
        let m = v.wrapping_sub(1);
        assert(v == 8 * bs);
        assert(v >= 8);
        assert(m == v - 1);
        assert(mb == b32 - 1);
        assert(b32 != 0 && (b32 & mb) == 0 && b32 == mb + 1 && b32 <= 0x10000000 && v == 8 * b32
            && v == m + 1 ==> (v != 0 && (v & m) == 0)) by (bit_vector);
        assert(spec_is_pow_2(v));
        assert((8 * block_size) as usize % block_size == 0);
        assert((8 * block_size) as usize / block_size == 8);
        assert((8 * block_size) as usize == block_size * 8);
    }


    /// Performs one hierarchy access: bumps the LRU reference counter and
    /// walks the levels from the top.
    fn access(&mut self, address: u32, access_type: AccessType, stall_count: &mut Option<i32>)
        requires
            old(self).wf(),
        ensures
            final(self).wf(),
            Self::same_shape(*old(self), *final(self)),
            final(self).mmu == old(self).mmu,
            final(self).total_penalty == old(self).total_penalty,
            final(self).total_worst_penalty == old(self).total_worst_penalty,
            final(self).ref_counter == (if old(self).ref_counter < u64::MAX {
                old(self).ref_counter + 1
            } else {
                old(self).ref_counter as int
            }),
            (*old(stall_count)) is Some ==> *final(stall_count) == Some(
                old(self).service_stall(0, address, access_type),
            ),
            (*old(stall_count)) is None ==> *final(stall_count) is None,
            old(self).caches.len() > 0 && (old(self).caches[0].contains_addr(address) || old(self).spec_fetching(access_type)) ==> final(self).caches[0].contains_addr(address),
    {
        if self.ref_counter < u64::MAX {
            self.ref_counter = self.ref_counter + 1;
        }
        let ghost mid = *self;
        let _ = self.access_inner(0, address, access_type, stall_count);
        proof {
            Self::lemma_service_stall_frame(*old(self), mid, 0, address, access_type);
        }
    }

    /// Reads the byte at `address` through the hierarchy.  The requested
    /// stall is the hit latency of the first level holding the line, or the
    /// miss penalty; afterwards level 0 holds the line.
    pub fn get8(&mut self, address: u32, stall_count: &mut Option<i32>) -> (r: SimulatorResult<u8>)
        requires
            old(self).wf(),
        ensures
            final(self).wf(),
            Self::same_shape(*old(self), *final(self)),
            final(self).mmu == old(self).mmu,
            old(self).mmu.spec_allocated(address) ==> r == Ok::<u8, SimulatorError>(
                old(self).mmu.spec_byte(address),
            ),
            !old(self).mmu.spec_allocated(address) ==> r == Err::<u8, SimulatorError>(
                SimulatorError::MemoryError(
                    MemoryError::AccessError { address, kind: MemoryErrorKind::ReadUnallocated },
                ),
            ),
            (*old(stall_count)) is Some ==> *final(stall_count) == Some(
                old(self).service_stall(0, address, AccessType::Read),
            ),
            (*old(stall_count)) is None ==> *final(stall_count) is None,
            old(self).caches.len() > 0 ==> final(self).caches[0].contains_addr(address),
            final(self).ref_counter == (if old(self).ref_counter < u64::MAX {
                old(self).ref_counter + 1
            } else {
                old(self).ref_counter as int
            }),
    {
        self.penalize_worst();
        let ghost mid = *self;
        self.access(address, AccessType::Read, stall_count);
        proof {
            Self::lemma_service_stall_frame(*old(self), mid, 0, address, AccessType::Read);
        }
        self.mmu.get8(address)
    }

    /// Writes the byte at `address` through the hierarchy: the MMU byte is
    /// updated and every other allocated byte is untouched.
    pub fn set8(&mut self, address: u32, value: u8, stall_count: &mut Option<i32>) -> (r:
        SimulatorResult<()>)
        requires
            old(self).wf(),
        ensures
            final(self).wf(),
            Self::same_shape(*old(self), *final(self)),
            forall|a2: u32|
                final(self).mmu.spec_allocated(a2) == old(self).mmu.spec_allocated(a2),
            old(self).mmu.spec_allocated(address) ==> r == Ok::<(), SimulatorError>(()) && final(self).mmu.spec_byte(address) == value && (forall|a2: u32|
                a2 != address && old(self).mmu.spec_allocated(a2) ==> final(self).mmu.spec_byte(a2)
                    == old(self).mmu.spec_byte(a2)) && final(self).mmu.pages()
                == crate::storage::pg_store_byte(old(self).mmu.pages(), address, value),
            !old(self).mmu.spec_allocated(address) ==> r == Err::<(), SimulatorError>(
                SimulatorError::MemoryError(
                    MemoryError::AccessError { address, kind: MemoryErrorKind::WriteUnallocated },
                ),
            ) && final(self).mmu == old(self).mmu,
            (*old(stall_count)) is Some ==> *final(stall_count) == Some(
                old(self).service_stall(0, address, AccessType::Write),
            ),
            (*old(stall_count)) is None ==> *final(stall_count) is None,
            old(self).caches.len() > 0 && old(self).spec_fetching(AccessType::Write) ==> final(self).caches[0].contains_addr(address),
            final(self).ref_counter == (if old(self).ref_counter < u64::MAX {
                old(self).ref_counter + 1
            } else {
                old(self).ref_counter as int
            }),
    {
        self.penalize_worst();
        let ghost mid = *self;
        self.access(address, AccessType::Write, stall_count);
        proof {
            Self::lemma_service_stall_frame(*old(self), mid, 0, address, AccessType::Write);
        }
        let ghost pre_write = self.mmu;
        match self.mmu.set8(address, value) {
            Ok(()) => {
                proof {
                    crate::mmu::lemma_set8_pointwise(pre_write, self.mmu, address, value);
                }
                Ok(())
            },
            Err(e) => Err(e),
        }
    }

    /// Reads a 16-bit little-endian value; only the first byte's access
    /// charges the requested stall.
    pub fn get16(&mut self, address: u32, stall_count: &mut Option<i32>) -> (r: SimulatorResult<
        u16,
    >)
        requires
            old(self).wf(),
        ensures
            final(self).wf(),
            Self::same_shape(*old(self), *final(self)),
            final(self).mmu == old(self).mmu,
            old(self).mmu.spec_allocated(address) && old(self).mmu.spec_allocated(
                address.wrapping_add(1),
            ) ==> r == Ok::<u16, SimulatorError>(
                (old(self).mmu.spec_byte(address) as u16) | ((old(self).mmu.spec_byte(
                    address.wrapping_add(1),
                ) as u16) << 8),
            ),
            !old(self).mmu.spec_allocated(address) ==> r == Err::<u16, SimulatorError>(
                SimulatorError::MemoryError(
                    MemoryError::AccessError { address, kind: MemoryErrorKind::ReadUnallocated },
                ),
            ),
            old(self).mmu.spec_allocated(address) && !old(self).mmu.spec_allocated(
                address.wrapping_add(1),
            ) ==> r == Err::<u16, SimulatorError>(
                SimulatorError::MemoryError(
                    MemoryError::AccessError {
                        address: address.wrapping_add(1),
                        kind: MemoryErrorKind::ReadUnallocated,
                    },
                ),
            ),
            (*old(stall_count)) is Some ==> *final(stall_count) == Some(
                old(self).service_stall(0, address, AccessType::Read),
            ),
            (*old(stall_count)) is None ==> *final(stall_count) is None,
            old(self).caches.len() > 0 && final(self).caches[0].same_line(
                address,
                address.wrapping_add(1),
            ) ==> final(self).caches[0].contains_addr(address),
    {
        let low = match self.get8(address, stall_count) {
            Ok(b) => b as u16,
            Err(e) => {
                return Err(e);
            },
        };
        let high = match self.get8(address.wrapping_add(1), &mut None) {
            Ok(b) => b as u16,
            Err(e) => {
                proof {
                    if self.caches.len() > 0 && self.caches[0].same_line(
                        address,
                        address.wrapping_add(1),
                    ) {
                        self.caches[0].lemma_same_line_contains(address, address.wrapping_add(1));
                    }
                }
                return Err(e);
            },
        };
        proof {
            if self.caches.len() > 0 && self.caches[0].same_line(
                address,
                address.wrapping_add(1),
            ) {
                self.caches[0].lemma_same_line_contains(address, address.wrapping_add(1));
            }
        }

        Ok(low | (high << 8))
    }

    /// Reads a 32-bit little-endian value; only the first byte's access
    /// charges the requested stall.
    pub fn get32(&mut self, address: u32, stall_count: &mut Option<i32>) -> (r: SimulatorResult<
        u32,
    >)
        requires
            old(self).wf(),
        ensures
            final(self).wf(),
            Self::same_shape(*old(self), *final(self)),
            final(self).mmu == old(self).mmu,
            crate::storage::load_ok(old(self).mmu, address, 4) ==> r == Ok::<u32, SimulatorError>(
                crate::storage::loaded_value(old(self).mmu, address, 4),
            ),
            !crate::storage::load_ok(old(self).mmu, address, 4) ==> r == Err::<
                u32,
                SimulatorError,
            >(
                SimulatorError::MemoryError(
                    MemoryError::AccessError {
                        address: crate::storage::access_error_addr(old(self).mmu, address, 4),
                        kind: MemoryErrorKind::ReadUnallocated,
                    },
                ),
            ),
            (*old(stall_count)) is Some ==> *final(stall_count) == Some(
                old(self).service_stall(0, address, AccessType::Read),
            ),
            (*old(stall_count)) is None ==> *final(stall_count) is None,
            old(self).caches.len() > 0 && final(self).caches[0].same_line(
                address,
                address.wrapping_add(1),
            ) && final(self).caches[0].same_line(address, address.wrapping_add(2)) && final(self).caches[0].same_line(address, address.wrapping_add(2).wrapping_add(1)) ==> final(self).caches[0].contains_addr(address),
    {
        let low = match self.get16(address, stall_count) {
            Ok(v) => v as u32,
            Err(e) => {
                return Err(e);
            },
        };
        let high = match self.get16(address.wrapping_add(2), &mut None) {
            Ok(v) => v as u32,
            Err(e) => {
                proof {
                    if self.caches.len() > 0 && self.caches[0].same_line(
                        address,
                        address.wrapping_add(2),
                    ) {
                        self.caches[0].lemma_same_line_contains(address, address.wrapping_add(2));
                    }
                }
                return Err(e);
            },
        };
        proof {
            if self.caches.len() > 0 && self.caches[0].same_line(
                address,
                address.wrapping_add(2),
            ) {
                self.caches[0].lemma_same_line_contains(address, address.wrapping_add(2));
            }
            crate::mmu::lemma_word_from_halves(
                old(self).mmu.spec_byte(address),
                old(self).mmu.spec_byte(address.wrapping_add(1)),
                old(self).mmu.spec_byte(address.wrapping_add(2)),
                old(self).mmu.spec_byte(address.wrapping_add(2).wrapping_add(1)),
            );
        }
        Ok(low | (high << 16))
    }

    /// Writes a 16-bit little-endian value; only the first byte's access
    /// charges the requested stall.
    pub fn set16(&mut self, address: u32, value: u16, stall_count: &mut Option<i32>) -> (r:
        SimulatorResult<()>)
        requires
            old(self).wf(),
        ensures
            final(self).wf(),
            Self::same_shape(*old(self), *final(self)),
            forall|a2: u32| final(self).mmu.spec_allocated(a2) == old(self).mmu.spec_allocated(a2),
            old(self).mmu.spec_allocated(address) && old(self).mmu.spec_allocated(
                address.wrapping_add(1),
            ) ==> r == Ok::<(), SimulatorError>(()) && final(self).mmu.spec_byte(address)
                == value as u8 && final(self).mmu.spec_byte(address.wrapping_add(1)) == (value
                >> 8) as u8 && (forall|a2: u32|
                a2 != address && a2 != address.wrapping_add(1) && old(self).mmu.spec_allocated(a2)
                    ==> final(self).mmu.spec_byte(a2) == old(self).mmu.spec_byte(a2)) && final(self).mmu.pages() == crate::storage::pg_store_byte(
                crate::storage::pg_store_byte(old(self).mmu.pages(), address, value as u8),
                address.wrapping_add(1),
                (value >> 8) as u8,
            ),
            !old(self).mmu.spec_allocated(address) ==> r == Err::<(), SimulatorError>(
                SimulatorError::MemoryError(
                    MemoryError::AccessError { address, kind: MemoryErrorKind::WriteUnallocated },
                ),
            ) && final(self).mmu == old(self).mmu,
            old(self).mmu.spec_allocated(address) && !old(self).mmu.spec_allocated(
                address.wrapping_add(1),
            ) ==> r == Err::<(), SimulatorError>(
                SimulatorError::MemoryError(
                    MemoryError::AccessError {
                        address: address.wrapping_add(1),
                        kind: MemoryErrorKind::WriteUnallocated,
                    },
                ),
            ) && final(self).mmu.spec_byte(address) == value as u8 && (forall|a2: u32|
                a2 != address && old(self).mmu.spec_allocated(a2) ==> final(self).mmu.spec_byte(a2)
                    == old(self).mmu.spec_byte(a2)),
            (*old(stall_count)) is Some ==> *final(stall_count) == Some(
                old(self).service_stall(0, address, AccessType::Write),
            ),
            (*old(stall_count)) is None ==> *final(stall_count) is None,
            old(self).caches.len() > 0 && old(self).spec_fetching(AccessType::Write) && final(self).caches[0].same_line(address, address.wrapping_add(1)) ==> final(self).caches[0].contains_addr(address),
    {
        match self.set8(address, value as u8, stall_count) {
            Ok(()) => {},
            Err(e) => {
                return Err(e);
            },
        }
        match self.set8(address.wrapping_add(1), (value >> 8) as u8, &mut None) {
            Ok(()) => {},
            Err(e) => {
                proof {
                    if self.caches.len() > 0 && self.caches[0].same_line(
                        address,
                        address.wrapping_add(1),
                    ) {
                        self.caches[0].lemma_same_line_contains(address, address.wrapping_add(1));
                    }
                }
                return Err(e);
            },
        }
        proof {
            if self.caches.len() > 0 && self.caches[0].same_line(
                address,
                address.wrapping_add(1),
            ) {
                self.caches[0].lemma_same_line_contains(address, address.wrapping_add(1));
            }
        }
        Ok(())
    }

    /// Writes a 32-bit little-endian value; only the first byte's access
    /// charges the requested stall.
    pub fn set32(&mut self, address: u32, value: u32, stall_count: &mut Option<i32>) -> (r:
        SimulatorResult<()>)
        requires
            old(self).wf(),
        ensures
            final(self).wf(),
            Self::same_shape(*old(self), *final(self)),
            forall|a2: u32| final(self).mmu.spec_allocated(a2) == old(self).mmu.spec_allocated(a2),
            crate::storage::load_ok(old(self).mmu, address, 4) ==> r == Ok::<(), SimulatorError>(())
                && final(self).mmu.spec_byte(address) == value as u8 && final(self).mmu.spec_byte(
                address.wrapping_add(1),
            ) == (value >> 8) as u8 && final(self).mmu.spec_byte(address.wrapping_add(2)) == (value
                >> 16) as u8 && final(self).mmu.spec_byte(address.wrapping_add(2).wrapping_add(1))
                == (value >> 24) as u8 && (forall|a2: u32|
                a2 != address && a2 != address.wrapping_add(1) && a2 != address.wrapping_add(2)
                    && a2 != address.wrapping_add(2).wrapping_add(1) && old(self).mmu.spec_allocated(a2) ==> final(self).mmu.spec_byte(a2) == old(self).mmu.spec_byte(a2))
                && final(self).mmu.pages() == crate::storage::pg_store(
                old(self).mmu.pages(),
                address,
                4,
                value,
            ),
            !crate::storage::load_ok(old(self).mmu, address, 4) ==> r == Err::<(), SimulatorError>(
                SimulatorError::MemoryError(
                    MemoryError::AccessError {
                        address: crate::storage::access_error_addr(old(self).mmu, address, 4),
                        kind: MemoryErrorKind::WriteUnallocated,
                    },
                ),
            ),
            (*old(stall_count)) is Some ==> *final(stall_count) == Some(
                old(self).service_stall(0, address, AccessType::Write),
            ),
            (*old(stall_count)) is None ==> *final(stall_count) is None,
            old(self).caches.len() > 0 && old(self).spec_fetching(AccessType::Write) && final(self).caches[0].same_line(address, address.wrapping_add(1)) && final(self).caches[0].same_line(address, address.wrapping_add(2)) && final(self).caches[0].same_line(address, address.wrapping_add(2).wrapping_add(1)) ==> final(self).caches[0].contains_addr(address),
    {
        proof {
            crate::mmu::lemma_word_bytes(value);
        }
        match self.set16(address, value as u16, stall_count) {
            Ok(()) => {},
            Err(e) => {
                return Err(e);
            },
        }
        match self.set16(address.wrapping_add(2), (value >> 16) as u16, &mut None) {
            Ok(()) => {},
            Err(e) => {
                proof {
                    if self.caches.len() > 0 && self.caches[0].same_line(
                        address,
                        address.wrapping_add(2),
                    ) {
                        self.caches[0].lemma_same_line_contains(address, address.wrapping_add(2));
                    }
                }
                return Err(e);
            },
        }
        proof {
            if self.caches.len() > 0 && self.caches[0].same_line(
                address,
                address.wrapping_add(2),
            ) {
                self.caches[0].lemma_same_line_contains(address, address.wrapping_add(2));
            }
        }
        Ok(())
    }

    /// Reads a value of `step` bytes (1, 2 or 4).  The realistic stall is
    /// the service stall of the first byte; the worst-case stall is always
    /// the miss penalty.
    pub fn get(
        &mut self,
        address: u32,
        step: u32,
        stall_count: &mut Option<i32>,
        stall_count_worst: &mut Option<i32>,
    ) -> (r: SimulatorResult<u32>)
        requires
            old(self).wf(),
        ensures
            final(self).wf(),
            Self::same_shape(*old(self), *final(self)),
            final(self).mmu == old(self).mmu,
            (*old(stall_count_worst)) is Some ==> *final(stall_count_worst) == Some(
                old(self).miss_penalty,
            ),
            (*old(stall_count_worst)) is None ==> *final(stall_count_worst) is None,
            step == 1 || step == 2 || step == 4 ==> {
                &&& crate::storage::load_ok(old(self).mmu, address, step) ==> r == Ok::<
                    u32,
                    SimulatorError,
                >(crate::storage::loaded_value(old(self).mmu, address, step))
                &&& !crate::storage::load_ok(old(self).mmu, address, step) ==> r == Err::<
                    u32,
                    SimulatorError,
                >(
                    SimulatorError::MemoryError(
                        MemoryError::AccessError {
                            address: crate::storage::access_error_addr(
                                old(self).mmu,
                                address,
                                step,
                            ),
                            kind: MemoryErrorKind::ReadUnallocated,
                        },
                    ),
                )
                &&& (*old(stall_count)) is Some ==> *final(stall_count) == Some(
                    old(self).service_stall(0, address, AccessType::Read),
                )
                &&& (*old(stall_count)) is None ==> *final(stall_count) is None
                &&& old(self).caches.len() > 0 && (step == 1 || (step == 2 && final(self).caches[0].same_line(address, address.wrapping_add(1))) || (step == 4 && final(self).caches[0].same_line(address, address.wrapping_add(1)) && final(self).caches[0].same_line(address, address.wrapping_add(2)) && final(self).caches[0].same_line(address, address.wrapping_add(2).wrapping_add(1)))) ==> final(self).caches[0].contains_addr(address)
            },
            !(step == 1 || step == 2 || step == 4) ==> r == Err::<u32, SimulatorError>(
                SimulatorError::MemoryError(
                    MemoryError::AccessError {
                        address,
                        kind: MemoryErrorKind::InvalidSize(step),
                    },
                ),
            ) && *final(stall_count) == *old(stall_count) && *final(self) == *old(self),
    {
        if stall_count_worst.is_some() {
            *stall_count_worst = Some(self.miss_penalty);
        }

        proof {
            assert(address.wrapping_add(0u32) == address) by (bit_vector);
            assert(address.wrapping_add(2).wrapping_add(1) == address.wrapping_add(3))
                by (bit_vector);
        }
        match step {
            1 => {
                match self.get8(address, stall_count) {
                    Ok(b) => Ok(b as u32),
                    Err(e) => Err(e),
                }
            },
            2 => {
                let r = match self.get16(address, stall_count) {
                    Ok(v) => Ok(v as u32),
                    Err(e) => Err(e),
                };
                proof {
                    crate::mmu::lemma_half_flat(
                        old(self).mmu.spec_byte(address),
                        old(self).mmu.spec_byte(address.wrapping_add(1)),
                    );
                }
                r
            },
            4 => self.get32(address, stall_count),
            _ => Err(
                SimulatorError::MemoryError(
                    MemoryError::AccessError {
                        address,
                        kind: MemoryErrorKind::InvalidSize(step),
                    },
                ),
            ),
        }
    }

    /// Writes a value of `step` bytes (1, 2 or 4).  The realistic stall is
    /// the service stall of the first byte; the worst-case stall is
    /// increased by the miss penalty, saturating.
    pub fn set(
        &mut self,
        address: u32,
        step: u32,
        value: u32,
        stall_count: &mut Option<i32>,
        stall_count_worst: &mut Option<i32>,
    ) -> (r: SimulatorResult<()>)
        requires
            old(self).wf(),
        ensures
            final(self).wf(),
            Self::same_shape(*old(self), *final(self)),
            forall|a2: u32| final(self).mmu.spec_allocated(a2) == old(self).mmu.spec_allocated(a2),
            (*old(stall_count_worst)) is Some ==> *final(stall_count_worst) == Some(
                old(self).miss_penalty,
            ),
            (*old(stall_count_worst)) is None ==> *final(stall_count_worst) is None,
            step == 1 || step == 2 || step == 4 ==> {
                &&& crate::storage::load_ok(old(self).mmu, address, step) ==> r == Ok::<
                    (),
                    SimulatorError,
                >(()) && (forall|i: int|
                    0 <= i < step ==> final(self).mmu.spec_byte(
                        address.wrapping_add(i as u32),
                    ) == crate::storage::stored_byte(value, i)) && final(self).mmu.pages()
                    == crate::storage::pg_store(old(self).mmu.pages(), address, step, value)
                &&& !crate::storage::load_ok(old(self).mmu, address, step) ==> r is Err && (
                r->Err_0 matches SimulatorError::MemoryError(_))
                &&& (*old(stall_count)) is Some ==> *final(stall_count) == Some(
                    old(self).service_stall(0, address, AccessType::Write),
                )
                &&& (*old(stall_count)) is None ==> *final(stall_count) is None
                &&& old(self).caches.len() > 0 && old(self).spec_fetching(AccessType::Write) && (
                step == 1 || (step == 2 && final(self).caches[0].same_line(
                    address,
                    address.wrapping_add(1),
                )) || (step == 4 && final(self).caches[0].same_line(
                    address,
                    address.wrapping_add(1),
                ) && final(self).caches[0].same_line(address, address.wrapping_add(2)) && final(self).caches[0].same_line(address, address.wrapping_add(2).wrapping_add(1)))) ==> final(self).caches[0].contains_addr(address)
            },
            !(step == 1 || step == 2 || step == 4) ==> r == Err::<(), SimulatorError>(
                SimulatorError::MemoryError(
                    MemoryError::AccessError {
                        address,
                        kind: MemoryErrorKind::InvalidSize(step),
                    },
                ),
            ) && *final(stall_count) == *old(stall_count) && *final(self) == *old(self),
    {
        if stall_count_worst.is_some() {
            *stall_count_worst = Some(self.miss_penalty);
        }

        let r = match step {
            1 => self.set8(address, value as u8, stall_count),
            2 => self.set16(address, value as u16, stall_count),
            4 => self.set32(address, value, stall_count),
            _ => Err(
                SimulatorError::MemoryError(
                    MemoryError::AccessError {
                        address,
                        kind: MemoryErrorKind::InvalidSize(step),
                    },
                ),
            ),
        };
        proof {
            crate::mmu::lemma_word_bytes(value);
            if step == 2 || step == 4 {
                assert(address.wrapping_add(0u32) == address) by (bit_vector);
                assert(address.wrapping_add(2).wrapping_add(1) == address.wrapping_add(3))
                    by (bit_vector);
            }
            if step == 1 {
                assert(address.wrapping_add(0u32) == address) by (bit_vector);
            }
        }
        r
    }

    /// The hit/miss history of every level, top down.
    pub fn get_history(&self) -> (r: Vec<CacheHistory>)
        requires
            self.wf(),
        ensures
            r.len() == self.caches.len(),
            forall|i: int| 0 <= i < r.len() ==> r[i] == (#[trigger] self.caches[i]).history,
    {
        let mut histories: Vec<CacheHistory> = Vec::new();
        let mut k: usize = 0;
        while k < self.n
            invariant
                self.wf(),
                k <= self.n,
                histories.len() == k,
                forall|i: int| 0 <= i < k ==> histories[i] == (#[trigger] self.caches[i]).history,
            decreases self.n - k,
        {
            histories.push(self.caches[k].history);
            k = k + 1;
        }
        histories
    }

    /// Every level-`k2` cache also holds the line of block `i` of level
    /// `k`, for every deeper `k2`.
    pub open spec fn block_included(self, k: int, i: int) -> bool {
        forall|k2: int|
            k < k2 < self.caches.len() ==> (#[trigger] self.caches[k2]).contains_addr(
                self.caches[k].spec_address_of(self.caches[k].blocks[i]),
            )
    }

    /// Every valid block among the first `i_bound` of level `k` is
    /// included in all deeper levels.
    pub open spec fn level_included_upto(self, k: int, i_bound: int) -> bool {
        forall|i: int|
            0 <= i < i_bound && (#[trigger] self.caches[k].blocks[i]).valid
                ==> self.block_included(k, i)
    }

    /// The inclusion property from level `k0` on: every valid line of
    /// every level at or below `k0` is present in all deeper levels.
    pub open spec fn inclusion_holds_from(self, k0: int) -> bool {
        forall|k: int|
            k0 <= k < self.caches.len() ==> self.level_included_upto(
                k,
                (#[trigger] self.caches[k]).blocks.len() as int,
            )
    }

    /// Post-run inclusion audit: succeeds exactly when every valid line is
    /// present in all deeper levels — starting from level 1 when a victim
    /// cache is in use, from level 0 otherwise.  On failure it reports the
    /// first level found missing a line.
    pub fn verify_inclusiveness(&self) -> (r: SimulatorResult<()>)
        requires
            self.wf(),
        ensures
            r is Ok <==> self.inclusion_holds_from(
                if self.use_victim_cache {
                    1int
                } else {
                    0int
                },
            ),
            r is Err ==> r->Err_0 matches SimulatorError::MemoryError(
                MemoryError::CacheInconsistency(_),
            ),
    {
        let start: usize = if self.use_victim_cache {
            1
        } else {
            0
        };
        if start >= self.n {
            return Ok(());
        }
        let mut k: usize = start;
        while k < self.n
            invariant
                self.wf(),
                start <= k <= self.n,
                start == (if self.use_victim_cache { 1int } else { 0int }),
                forall|kp: int|
                    start <= kp < k ==> self.level_included_upto(
                        kp,
                        (#[trigger] self.caches[kp]).blocks.len() as int,
                    ),
            decreases self.n - k,
        {
            let blocks_len = self.caches[k].blocks.len();
            let mut i: usize = 0;
            while i < blocks_len
                invariant
                    self.wf(),
                    (k as int) < self.caches.len(),
                    start <= k,
                    start == (if self.use_victim_cache { 1int } else { 0int }),
                    blocks_len == self.caches[k as int].blocks.len(),
                    i <= blocks_len,
                    self.level_included_upto(k as int, i as int),
                decreases blocks_len - i,
            {
                if self.caches[k].blocks[i].valid {
                    let c = &self.caches[k];
                    let block = c.blocks[i];
                    let address = c.get_address(&block);

                    let mut k2: usize = k + 1;
                    while k2 < self.n
                        invariant
                            self.wf(),
                            (k as int) < self.caches.len(),
                            (i as int) < self.caches[k as int].blocks.len(),
                            start <= k,
                            start == (if self.use_victim_cache { 1int } else { 0int }),
                            self.caches[k as int].blocks[i as int].valid,
                            k < k2 <= self.n,
                            address == self.caches[k as int].spec_address_of(
                                self.caches[k as int].blocks[i as int],
                            ),
                            forall|kq: int|
                                k < kq < k2 ==> (#[trigger] self.caches[kq]).contains_addr(
                                    address,
                                ),
                        decreases self.n - k2,
                    {
                        let c2 = &self.caches[k2];
                        if c2.lookup(address).is_none() {
                            proof {
                                assert(!self.block_included(k as int, i as int));
                                let bound = self.caches[k as int].blocks.len() as int;
                                assert(!self.level_included_upto(k as int, bound)) by {
                                    if self.level_included_upto(k as int, bound) {
                                        assert(self.caches[k as int].blocks[i as int].valid);
                                        assert(self.block_included(k as int, i as int));
                                    }
                                }
                                assert(!self.inclusion_holds_from(start as int)) by {
                                    if self.inclusion_holds_from(start as int) {
                                        assert(self.level_included_upto(k as int, bound));
                                    }
                                }
                            }
                            return Err(
                                SimulatorError::MemoryError(MemoryError::CacheInconsistency(k2)),
                            );
                        }
                        k2 = k2 + 1;
                    }
                    proof {
                        assert(self.block_included(k as int, i as int));
                    }
                }
                i = i + 1;
            }
            k = k + 1;
        }

        Ok(())
    }

}

impl Default for InclusiveCache {
    /// The stock three-level inclusive hierarchy: 16 KiB, 128 KiB and
    /// 2 MiB of 64-byte blocks, write-back, write-allocate, a 100-cycle
    /// miss penalty and no victim cache.
    fn default() -> (r: Self)
        ensures
            r.wf(),
            r.n == 3,
            forall|i: int, a: u32| 0 <= i < 3 ==> !(#[trigger] r.caches[i].contains_addr(a)),
            forall|a: u32| !r.victim_cache.contains_addr(a),
            r.mmu.pages() == Map::<int, Seq<u8>>::empty(),
            r.write_hit_policy == WriteHitPolicy::WriteBack,
            r.write_miss_policy == WriteMissPolicy::WriteAllocate,
            r.miss_penalty == 100,
            !r.use_victim_cache,
            r.caches[0].policy == (CachePolicy {
                cache_size: (16 * 1024) as usize,
                block_size: 64 as usize,
                block_num: 256 as usize,
                associativity: 1 as usize,
                hit_latency: 1,
            }),
            r.caches[1].policy == (CachePolicy {
                cache_size: (128 * 1024) as usize,
                block_size: 64 as usize,
                block_num: 2048 as usize,
                associativity: 8 as usize,
                hit_latency: 8,
            }),
            r.caches[2].policy == (CachePolicy {
                cache_size: (2 * 1024 * 1024) as usize,
                block_size: 64 as usize,
                block_num: 32768 as usize,
                associativity: 16 as usize,
                hit_latency: 20,
            }),
            r.victim_cache.policy.hit_latency == 0,
    {
        proof {
            crate::cache::lemma_standard_policies_valid();
        }
        let mut policies: Vec<CachePolicy> = Vec::new();
        policies.push(CachePolicy::make(16 * 1024, 64, 1, 1));
        policies.push(CachePolicy::make(128 * 1024, 64, 8, 8));
        policies.push(CachePolicy::make(2 * 1024 * 1024, 64, 16, 20));
        InclusiveCache::make(
            policies,
            WriteHitPolicy::WriteBack,
            WriteMissPolicy::WriteAllocate,
            100,
            false,
        )
    }
}

} // verus!
