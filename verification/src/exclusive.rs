//! Exclusive cache hierarchy: an ordered sequence of caches over an MMU
//! where a line lives in at most one level.
//!
//! On a miss at a level, a fresh block for the line is placed there and
//! the lookup continues below; if a deeper level held the line, its copy
//! is cleared — the line just moved up — and the evicted block is written
//! down a level.  As in the inclusive hierarchy, the caches carry only
//! tags and accounting; every byte lives in the MMU.

use vstd::prelude::*;

use crate::cache::Block;
use crate::cache::Cache;
use crate::cache::CacheHistory;
use crate::cache::CachePolicy;
use crate::cache::spec_policy_valid;
use crate::error::MemoryError;
use crate::error::MemoryErrorKind;
use crate::error::SimulatorError;
use crate::error::SimulatorResult;
use crate::mmu::MMU;
use crate::storage::AccessType;

verus! {

/// Exclusive cache hierarchy: `n` cache levels and one MMU.
pub struct ExclusiveCache {
    pub n: usize,
    pub caches: Vec<Cache>,
    pub mmu: MMU,
    pub miss_penalty: i32,
    pub total_penalty: i64,
    pub total_worst_penalty: i64,
    pub ref_counter: u64,
}

impl ExclusiveCache {
    /// Every level is well formed, the level count matches, and the miss
    /// penalty is nonnegative.
    pub open spec fn wf(self) -> bool {
        &&& self.n == self.caches.len()
        &&& forall|k: int| 0 <= k < self.caches.len() ==> (#[trigger] self.caches[k]).wf()
        &&& self.mmu.wf()
        &&& self.miss_penalty >= 0
    }

    /// The stall an access starting at level `k` is charged: the hit
    /// latency of the first level holding the line, or the miss penalty
    /// when no level holds it.
    pub open spec fn service_stall(self, k: int, address: u32) -> i32
        decreases self.caches.len() - k,
    {
        if k < 0 || k >= self.caches.len() {
            self.miss_penalty
        } else if self.caches[k].contains_addr(address) {
            self.caches[k].policy.hit_latency
        } else {
            self.service_stall(k + 1, address)
        }
    }

    /// The service stall of a well-formed hierarchy is nonnegative.
    pub proof fn lemma_service_stall_bounds(self, k: int, address: u32)
        requires
            self.wf(),
        ensures
            0 <= self.service_stall(k, address),
        decreases self.caches.len() - k,
    {
        if 0 <= k < self.caches.len() {
            self.lemma_service_stall_bounds(k + 1, address);
        }
    }

    /// The hierarchy parameters an access never changes.
    pub open spec fn same_shape(a: Self, b: Self) -> bool {
        &&& a.n == b.n
        &&& a.caches.len() == b.caches.len()
        &&& forall|k: int|
            0 <= k < a.caches.len() ==> Cache::same_geometry(#[trigger] a.caches[k], b.caches[k])
        &&& a.miss_penalty == b.miss_penalty
    }

    /// The service stall depends only on the lines of levels `k` and
    /// deeper and the unchanging parameters.
    pub proof fn lemma_service_stall_frame(a: Self, b: Self, k: int, address: u32)
        requires
            Self::same_shape(a, b),
            forall|i: int|
                k <= i < a.caches.len() ==> Cache::same_lines(#[trigger] a.caches[i], b.caches[i]),
        ensures
            a.service_stall(k, address) == b.service_stall(k, address),
        decreases a.caches.len() - k,
    {
        if 0 <= k < a.caches.len() {
            Cache::lemma_same_lines_contains(a.caches[k], b.caches[k], address);
            Self::lemma_service_stall_frame(a, b, k + 1, address);
        }
    }

    /// The latency of a hit at level `k`, or the miss penalty at the
    /// memory level.
    fn penalty(&self, k: usize) -> (r: i32)
        requires
            self.wf(),
        ensures
            r == (if (k as int) < self.caches.len() {
                self.caches[k as int].policy.hit_latency
            } else {
                self.miss_penalty
            }),
            r >= 0,
    {
        if k < self.n {
            self.caches[k].policy.hit_latency
        } else {
            self.miss_penalty
        }
    }

    /// Charges the worst-case accounting one miss penalty, saturating.
    fn penalize_worst(&mut self)
        requires
            old(self).wf(),
        ensures
            final(self).wf(),
            *final(self) == (ExclusiveCache {
                total_worst_penalty: final(self).total_worst_penalty,
                ..*old(self)
            }),
    {
        let mp = self.miss_penalty as i64;
        if self.total_worst_penalty <= i64::MAX - mp {
            self.total_worst_penalty = self.total_worst_penalty + mp;
        } else {
            self.total_worst_penalty = i64::MAX;
        }
    }

    /// Looks the address up at level `k`; no level past the last.
    fn lookup(&self, k: usize, address: u32) -> (r: Option<usize>)
        requires
            self.wf(),
        ensures
            (k as int) < self.caches.len() ==> (r is Some <==> self.caches[k as int].contains_addr(
                address,
            )),
            (k as int) >= self.caches.len() ==> r is None,
            r is Some ==> (k as int) < self.caches.len() && r->Some_0
                < self.caches[k as int].blocks.len() && self.caches[k as int].blocks[
                r->Some_0 as int
            ].valid && self.caches[k as int].blocks[r->Some_0 as int].tag == self.caches[
                k as int
            ].spec_tag_of(address),
    {
        if k >= self.n {
            return None;
        }
        proof {
            self.caches[k as int].lemma_set_range(address);
        }
        let c = &self.caches[k];
        c.lookup(address)
    }

    /// One probe-and-handle step at level `k` (the MMU when `k == n`).
    /// The requested stall becomes the service stall from level `k`, and
    /// the accessed line always ends up at level `k`.
    fn access_inner(
        &mut self,
        k: usize,
        address: u32,
        access_type: AccessType,
        stall_count: &mut Option<i32>,
    ) -> (r: Option<usize>)
        requires
            old(self).wf(),
            k as int <= old(self).caches.len(),
        ensures
            final(self).wf(),
            Self::same_shape(*old(self), *final(self)),
            final(self).mmu == old(self).mmu,
            final(self).ref_counter == old(self).ref_counter,
            final(self).total_penalty == old(self).total_penalty,
            final(self).total_worst_penalty == old(self).total_worst_penalty,
            forall|i: int|
                0 <= i < k ==> Cache::same_lines(
                    #[trigger] old(self).caches[i],
                    final(self).caches[i],
                ),
            (*old(stall_count)) is Some ==> *final(stall_count) == Some(
                old(self).service_stall(k as int, address),
            ),
            (*old(stall_count)) is None ==> *final(stall_count) is None,
            (k as int) < old(self).caches.len() ==> final(self).caches[k as int].contains_addr(
                address,
            ),
            r is Some ==> (k as int) < old(self).caches.len() && (r->Some_0 as int) < final(self).caches[k as int].blocks.len() && final(self).caches[k as int].blocks[
                r->Some_0 as int
            ].valid && final(self).caches[k as int].blocks[r->Some_0 as int].tag == final(self).caches[k as int].spec_tag_of(address),
            (k as int) < old(self).caches.len() ==> r is Some,
        decreases old(self).caches.len() - k, 0int,
    {
        if k == self.n {
            // The MMU level: the access is charged the full miss penalty
            if stall_count.is_some() {
                *stall_count = Some(self.miss_penalty);
            }
            return None;
        }
        let hit = self.lookup(k, address);
        let p = self.penalty(k);
        let target_index: Option<usize>;
        match hit {
            Some(hit_index) => {
                // A hit at this level
                target_index = Some(hit_index);
                if stall_count.is_some() {
                    *stall_count = Some(p);
                    // Record the hit
                    let c = &mut self.caches[k];
                    c.record_hit();
                }
                proof {
                    Cache::lemma_same_lines_contains(
                        old(self).caches[k as int],
                        self.caches[k as int],
                        address,
                    );
                }
            },
            None => {
                // A miss at this level
                if stall_count.is_some() {
                    *stall_count = Some(p);
                    // Record the miss
                    let c = &mut self.caches[k];
                    c.record_miss();
                }
                let ghost mid = *self;
                proof {
                    Cache::lemma_same_lines_contains(
                        old(self).caches[k as int],
                        mid.caches[k as int],
                        address,
                    );
                }
                target_index = self.handle_miss(k, address, access_type, stall_count);
                proof {
                    Self::lemma_service_stall_frame(*old(self), mid, k as int, address);
                    assert forall|i: int|
                        0 <= i < self.caches.len() implies Cache::same_geometry(
                        #[trigger] old(self).caches[i],
                        self.caches[i],
                    ) by {
                        assert(Cache::same_geometry(mid.caches[i], self.caches[i]));
                    }
                    assert forall|i: int|
                        0 <= i < k implies Cache::same_lines(
                        #[trigger] old(self).caches[i],
                        self.caches[i],
                    ) by {
                        assert(Cache::same_lines(mid.caches[i], self.caches[i]));
                    }
                }
            },
        }

        // Touch the determined slot: stamp it and set dirty on a write
        match target_index {
            Some(ti) => {
                let rc = self.ref_counter;
                let ghost pre_touch = *self;
                let c = &mut self.caches[k];
                c.access_index(ti, access_type, rc);
                proof {
                    assert forall|i: int|
                        0 <= i < self.caches.len() implies Cache::same_geometry(
                        #[trigger] old(self).caches[i],
                        self.caches[i],
                    ) by {
                        assert(Cache::same_geometry(pre_touch.caches[i], self.caches[i]));
                    }
                    assert forall|i: int|
                        0 <= i < k implies Cache::same_lines(
                        #[trigger] old(self).caches[i],
                        self.caches[i],
                    ) by {
                        assert(Cache::same_lines(pre_touch.caches[i], self.caches[i]));
                    }
                    pre_touch.caches[k as int].lemma_set_range(address);
                    if pre_touch.caches[k as int].contains_addr(address) {
                        let cpre = pre_touch.caches[k as int];
                        let cpost = self.caches[k as int];
                        let i = choose|i: int|
                            cpre.set_start(address) <= i < cpre.set_end(address) && (
                            #[trigger] cpre.blocks[i]).valid && cpre.blocks[i].tag
                                == cpre.spec_tag_of(address);
                        assert(cpost.blocks[i].valid && cpost.blocks[i].tag == cpost.spec_tag_of(
                            address,
                        ));
                        assert(cpost.contains_addr(address));
                    }
                }
            },
            None => {},
        }

        target_index
    }

    /// On a miss, a fresh block for the line replaces the set's LRU slot
    /// at this level, the lookup continues below, a deeper copy of the
    /// line is cleared, and a valid eviction is written down a level.
    fn handle_miss(
        &mut self,
        k: usize,
        address: u32,
        access_type: AccessType,
        stall_count: &mut Option<i32>,
    ) -> (r: Option<usize>)
        requires
            old(self).wf(),
            (k as int) < old(self).caches.len(),
            !old(self).caches[k as int].contains_addr(address),
        ensures
            final(self).wf(),
            Self::same_shape(*old(self), *final(self)),
            final(self).mmu == old(self).mmu,
            final(self).ref_counter == old(self).ref_counter,
            final(self).total_penalty == old(self).total_penalty,
            final(self).total_worst_penalty == old(self).total_worst_penalty,
            forall|i: int|
                0 <= i < k ==> Cache::same_lines(
                    #[trigger] old(self).caches[i],
                    final(self).caches[i],
                ),
            (*old(stall_count)) is Some ==> *final(stall_count) == Some(
                old(self).service_stall(k as int, address),
            ),
            (*old(stall_count)) is None ==> *final(stall_count) is None,
            r is Some && (r->Some_0 as int) < final(self).caches[k as int].blocks.len(),
            final(self).caches[k as int].blocks[r->Some_0 as int].valid && final(self).caches[
                k as int
            ].blocks[r->Some_0 as int].tag == final(self).caches[k as int].spec_tag_of(address),
            final(self).caches[k as int].contains_addr(address),
        decreases old(self).caches.len() - k - 1, 3int,
    {
        // Make a new block and replace the set's LRU slot
        proof {
            self.caches[k as int].lemma_set_range(address);
        }
        let c0 = &self.caches[k];
        let block = c0.make_block(address);
        let index_to_replace = c0.get_index_to_replace(block.index);
        let replaced_block = c0.blocks[index_to_replace];
        let ghost pre_place = *self;
        let cm = &mut self.caches[k];
        cm.blocks[index_to_replace] = block;
        proof {
            Self::lemma_block_placed(
                pre_place,
                *self,
                k as int,
                index_to_replace as int,
                address,
                block,
            );
        }

        // Continue the lookup below; the stall reflects where the line was
        let ghost mid = *self;
        let next = self.access_inner(k + 1, address, access_type, stall_count);
        proof {
            Self::lemma_service_stall_frame(*old(self), mid, k as int + 1, address);
            assert(old(self).service_stall(k as int, address) == old(self).service_stall(
                k as int + 1,
                address,
            ));
        }

        match next {
            Some(next_index) => {
                // The line moved up: clear the deeper copy
                let ghost pre_reset = *self;
                let cn = &mut self.caches[k + 1];
                cn.reset_block(next_index);
                proof {
                    Self::lemma_level_rewritten(pre_reset, *self, k as int + 1);
                    Cache::lemma_same_lines_contains(
                        pre_reset.caches[k as int],
                        self.caches[k as int],
                        address,
                    );
                }
                // Write a valid eviction down to the next level
                if replaced_block.valid {
                    self.write_to_next_level(k, &replaced_block);
                }
            },
            None => {},
        }

        Some(index_to_replace)
    }

    /// Rewriting blocks of one level in place preserves well-formedness
    /// framing for all the other levels.
    proof fn lemma_level_rewritten(pre: Self, post: Self, k: int)
        requires
            0 <= k < pre.caches.len(),
            post == (ExclusiveCache { caches: post.caches, ..pre }),
            post.caches@ == pre.caches@.update(
                k,
                (Cache { blocks: post.caches[k].blocks, ..pre.caches[k] }),
            ),
        ensures
            Self::same_shape(pre, post) == (pre.caches[k].blocks.len() == post.caches[k].blocks.len()),
            forall|i: int|
                0 <= i < pre.caches.len() && i != k ==> Cache::same_lines(
                    #[trigger] pre.caches[i],
                    post.caches[i],
                ),
    {
    }

    /// Placing a block with the address's tag into a slot of the
    /// address's set makes the level contain the address and keeps the
    /// level well formed.
    proof fn lemma_block_placed(
        pre: Self,
        post: Self,
        k: int,
        slot: int,
        address: u32,
        placed: Block,
    )
        requires
            pre.wf(),
            0 <= k < pre.caches.len(),
            pre.caches[k].set_start(address) <= slot < pre.caches[k].set_end(address),
            pre.caches[k].set_end(address) <= pre.caches[k].blocks.len(),
            placed.valid,
            placed.tag == pre.caches[k].spec_tag_of(address),
            placed.index as int == pre.caches[k].spec_index_of(address),
            post == (ExclusiveCache { caches: post.caches, ..pre }),
            post.caches@ == pre.caches@.update(
                k,
                (Cache { blocks: post.caches[k].blocks, ..pre.caches[k] }),
            ),
            post.caches[k].blocks@ == pre.caches[k].blocks@.update(slot, placed),
        ensures
            post.wf(),
            post.caches[k].contains_addr(address),
            Self::same_shape(pre, post),
            forall|i: int|
                0 <= i < pre.caches.len() && i != k ==> Cache::same_lines(
                    #[trigger] pre.caches[i],
                    post.caches[i],
                ),
    {
        pre.caches[k].lemma_set_range(address);
        let cpre = pre.caches[k];
        let cpost = post.caches[k];
        assert(cpost.blocks[slot] == placed);
        assert(cpost.contains_addr(address));
        let assoc = cpre.policy.associativity as int;
        vstd::arithmetic::div_mod::lemma_fundamental_div_mod_converse_div(
            slot,
            assoc,
            cpre.spec_index_of(address),
            slot - cpre.spec_index_of(address) * assoc,
        );
        assert forall|i: int|
            0 <= i < cpost.blocks.len() implies (#[trigger] cpost.blocks[i].index) as int == i
            / assoc by {
            if i != slot {
                assert(cpost.blocks[i] == cpre.blocks[i]);
            }
        }
    }

    /// Writes the bytes of an evicted block through to the next level,
    /// one byte access per byte of the block, with no stall charged.
    #[verifier::loop_isolation(false)]
    fn write_to_next_level(&mut self, k: usize, block: &Block)
        requires
            old(self).wf(),
            (k as int) < old(self).caches.len(),
        ensures
            final(self).wf(),
            Self::same_shape(*old(self), *final(self)),
            final(self).mmu == old(self).mmu,
            final(self).ref_counter == old(self).ref_counter,
            final(self).total_penalty == old(self).total_penalty,
            final(self).total_worst_penalty == old(self).total_worst_penalty,
            forall|i: int|
                0 <= i <= k ==> Cache::same_lines(
                    #[trigger] old(self).caches[i],
                    final(self).caches[i],
                ),
        decreases old(self).caches.len() - k - 1, 1int,
    {
        let block_size;
        let address;
        {
            let cache = &self.caches[k];
            block_size = cache.policy.block_size;
            address = cache.get_address(block);
        }
        let ghost pre = *self;
        let mut i: usize = 0;
        while i < block_size
            invariant
                self.wf(),
                (k as int) < self.caches.len(),
                i <= block_size,
                Self::same_shape(pre, *self),
                self.mmu == pre.mmu,
                self.ref_counter == pre.ref_counter,
                self.total_penalty == pre.total_penalty,
                self.total_worst_penalty == pre.total_worst_penalty,
                forall|x: int|
                    0 <= x <= k ==> Cache::same_lines(#[trigger] pre.caches[x], self.caches[x]),
            decreases block_size - i,
        {
            let _ = self.access_inner(
                k + 1,
                address.wrapping_add(i as u32),
                AccessType::Write,
                &mut None,
            );
            i = i + 1;
        }
    }

    /// Creates an exclusive hierarchy from one cache policy per level and
    /// the main-memory miss penalty.  Everything starts empty.
    pub fn make(policies: Vec<CachePolicy>, miss_penalty: i32) -> (r: Self)
        requires
            forall|i: int|
                0 <= i < policies.len() ==> spec_policy_valid(#[trigger] policies[i])
                    && policies[i].hit_latency >= 0,
            miss_penalty >= 0,
        ensures
            r.wf(),
            r.n == policies.len(),
            r.caches.len() == policies.len(),
            forall|i: int| 0 <= i < policies.len() ==> (#[trigger] r.caches[i]).policy == policies[i],
            forall|i: int|
                0 <= i < policies.len() ==> (#[trigger] r.caches[i]).history == (CacheHistory {
                    num_hit: 0,
                    num_miss: 0,
                }),
            forall|i: int, b: int|
                0 <= i < policies.len() && 0 <= b < r.caches[i].blocks.len() ==> !(
                #[trigger] r.caches[i].blocks[b]).valid && !r.caches[i].blocks[b].dirty
                    && r.caches[i].blocks[b].tag == 0 && r.caches[i].blocks[b].prv_ref == 0,
            forall|i: int, a: u32| 0 <= i < policies.len() ==> !(#[trigger] r.caches[i].contains_addr(a)),
            r.mmu.pages() == Map::<int, Seq<u8>>::empty(),
            r.miss_penalty == miss_penalty,
            r.total_penalty == 0,
            r.total_worst_penalty == 0,
            r.ref_counter == 0,
    {
        let mut caches: Vec<Cache> = Vec::new();
        let mut i: usize = 0;
        while i < policies.len()
            invariant
                i <= policies.len(),
                caches.len() == i,
                forall|x: int|
                    0 <= x < policies.len() ==> spec_policy_valid(#[trigger] policies[x])
                        && policies[x].hit_latency >= 0,
                forall|x: int| 0 <= x < i ==> (#[trigger] caches[x]).wf(),
                forall|x: int| 0 <= x < i ==> (#[trigger] caches[x]).policy == policies[x],
                forall|x: int|
                    0 <= x < i ==> (#[trigger] caches[x]).history == (CacheHistory {
                        num_hit: 0,
                        num_miss: 0,
                    }),
                forall|x: int, b: int|
                    0 <= x < i && 0 <= b < caches[x].blocks.len() ==> !(
                    #[trigger] caches[x].blocks[b]).valid && !caches[x].blocks[b].dirty
                        && caches[x].blocks[b].tag == 0 && caches[x].blocks[b].prv_ref == 0,
                forall|x: int, a: u32| 0 <= x < i ==> !(#[trigger] caches[x].contains_addr(a)),
            decreases policies.len() - i,
        {
            caches.push(Cache::make(policies[i]));
            i = i + 1;
        }
        Self {
            n: caches.len(),
            caches,
            mmu: MMU::make(),
            miss_penalty,
            total_penalty: 0,
            total_worst_penalty: 0,
            ref_counter: 0,
        }
    }


    /// Performs one hierarchy access: bumps the LRU reference counter and
    /// walks the levels from the top.
    fn access(&mut self, address: u32, access_type: AccessType, stall_count: &mut Option<i32>)
        requires
            old(self).wf(),
        ensures
            final(self).wf(),
            Self::same_shape(*old(self), *final(self)),
            final(self).mmu == old(self).mmu,
            final(self).total_penalty == old(self).total_penalty,
            final(self).total_worst_penalty == old(self).total_worst_penalty,
            final(self).ref_counter == (if old(self).ref_counter < u64::MAX {
                old(self).ref_counter + 1
            } else {
                old(self).ref_counter as int
            }),
            (*old(stall_count)) is Some ==> *final(stall_count) == Some(
                old(self).service_stall(0, address),
            ),
            (*old(stall_count)) is None ==> *final(stall_count) is None,
            old(self).caches.len() > 0 ==> final(self).caches[0].contains_addr(address),
    {
        if self.ref_counter < u64::MAX {
            self.ref_counter = self.ref_counter + 1;
        }
        let ghost mid = *self;
        let _ = self.access_inner(0, address, access_type, stall_count);
        proof {
            Self::lemma_service_stall_frame(*old(self), mid, 0, address);
        }
    }

    /// Reads the byte at `address` through the hierarchy.
    pub fn get8(&mut self, address: u32, stall_count: &mut Option<i32>) -> (r: SimulatorResult<u8>)
        requires
            old(self).wf(),
        ensures
            final(self).wf(),
            Self::same_shape(*old(self), *final(self)),
            final(self).mmu == old(self).mmu,
            old(self).mmu.spec_allocated(address) ==> r == Ok::<u8, SimulatorError>(
                old(self).mmu.spec_byte(address),
            ),
            !old(self).mmu.spec_allocated(address) ==> r == Err::<u8, SimulatorError>(
                SimulatorError::MemoryError(
                    MemoryError::AccessError { address, kind: MemoryErrorKind::ReadUnallocated },
                ),
            ),
            (*old(stall_count)) is Some ==> *final(stall_count) == Some(
                old(self).service_stall(0, address),
            ),
            (*old(stall_count)) is None ==> *final(stall_count) is None,
            old(self).caches.len() > 0 ==> final(self).caches[0].contains_addr(address),
            final(self).ref_counter == (if old(self).ref_counter < u64::MAX {
                old(self).ref_counter + 1
            } else {
                old(self).ref_counter as int
            }),
    {
        self.penalize_worst();
        let ghost mid = *self;
        self.access(address, AccessType::Read, stall_count);
        proof {
            Self::lemma_service_stall_frame(*old(self), mid, 0, address);
        }
        self.mmu.get8(address)
    }

    /// Writes the byte at `address` through the hierarchy.
    pub fn set8(&mut self, address: u32, value: u8, stall_count: &mut Option<i32>) -> (r:
        SimulatorResult<()>)
        requires
            old(self).wf(),
        ensures
            final(self).wf(),
            Self::same_shape(*old(self), *final(self)),
            forall|a2: u32| final(self).mmu.spec_allocated(a2) == old(self).mmu.spec_allocated(a2),
            old(self).mmu.spec_allocated(address) ==> r == Ok::<(), SimulatorError>(()) && final(self).mmu.spec_byte(address) == value && (forall|a2: u32|
                a2 != address && old(self).mmu.spec_allocated(a2) ==> final(self).mmu.spec_byte(a2)
                    == old(self).mmu.spec_byte(a2)),
            !old(self).mmu.spec_allocated(address) ==> r == Err::<(), SimulatorError>(
                SimulatorError::MemoryError(
                    MemoryError::AccessError { address, kind: MemoryErrorKind::WriteUnallocated },
                ),
            ) && final(self).mmu == old(self).mmu,
            (*old(stall_count)) is Some ==> *final(stall_count) == Some(
                old(self).service_stall(0, address),
            ),
            (*old(stall_count)) is None ==> *final(stall_count) is None,
            old(self).caches.len() > 0 ==> final(self).caches[0].contains_addr(address),
            final(self).ref_counter == (if old(self).ref_counter < u64::MAX {
                old(self).ref_counter + 1
            } else {
                old(self).ref_counter as int
            }),
    {
        self.penalize_worst();
        let ghost mid = *self;
        self.access(address, AccessType::Write, stall_count);
        proof {
            Self::lemma_service_stall_frame(*old(self), mid, 0, address);
        }
        let ghost pre_write = self.mmu;
        match self.mmu.set8(address, value) {
            Ok(()) => {
                proof {
                    crate::mmu::lemma_set8_pointwise(pre_write, self.mmu, address, value);
                }
                Ok(())
            },
            Err(e) => Err(e),
        }
    }

    /// Reads a 16-bit little-endian value; only the first byte's access
    /// charges the requested stall.
    pub fn get16(&mut self, address: u32, stall_count: &mut Option<i32>) -> (r: SimulatorResult<
        u16,
    >)
        requires
            old(self).wf(),
        ensures
            final(self).wf(),
            Self::same_shape(*old(self), *final(self)),
            final(self).mmu == old(self).mmu,
            old(self).mmu.spec_allocated(address) && old(self).mmu.spec_allocated(
                address.wrapping_add(1),
            ) ==> r == Ok::<u16, SimulatorError>(
                (old(self).mmu.spec_byte(address) as u16) | ((old(self).mmu.spec_byte(
                    address.wrapping_add(1),
                ) as u16) << 8),
            ),
            !old(self).mmu.spec_allocated(address) ==> r == Err::<u16, SimulatorError>(
                SimulatorError::MemoryError(
                    MemoryError::AccessError { address, kind: MemoryErrorKind::ReadUnallocated },
                ),
            ),
            old(self).mmu.spec_allocated(address) && !old(self).mmu.spec_allocated(
                address.wrapping_add(1),
            ) ==> r == Err::<u16, SimulatorError>(
                SimulatorError::MemoryError(
                    MemoryError::AccessError {
                        address: address.wrapping_add(1),
                        kind: MemoryErrorKind::ReadUnallocated,
                    },
                ),
            ),
            (*old(stall_count)) is Some ==> *final(stall_count) == Some(
                old(self).service_stall(0, address),
            ),
            (*old(stall_count)) is None ==> *final(stall_count) is None,
            old(self).caches.len() > 0 && final(self).caches[0].same_line(
                address,
                address.wrapping_add(1),
            ) ==> final(self).caches[0].contains_addr(address),
    {
        let low = match self.get8(address, stall_count) {
            Ok(b) => b as u16,
            Err(e) => {
                return Err(e);
            },
        };
        let high = match self.get8(address.wrapping_add(1), &mut None) {
            Ok(b) => b as u16,
            Err(e) => {
                proof {
                    if self.caches.len() > 0 && self.caches[0].same_line(
                        address,
                        address.wrapping_add(1),
                    ) {
                        self.caches[0].lemma_same_line_contains(address, address.wrapping_add(1));
                    }
                }
                return Err(e);
            },
        };
        proof {
            if self.caches.len() > 0 && self.caches[0].same_line(
                address,
                address.wrapping_add(1),
            ) {
                self.caches[0].lemma_same_line_contains(address, address.wrapping_add(1));
            }
        }

        Ok(low | (high << 8))
    }

    /// Reads a 32-bit little-endian value; only the first byte's access
    /// charges the requested stall.
    pub fn get32(&mut self, address: u32, stall_count: &mut Option<i32>) -> (r: SimulatorResult<
        u32,
    >)
        requires
            old(self).wf(),
        ensures
            final(self).wf(),
            Self::same_shape(*old(self), *final(self)),
            final(self).mmu == old(self).mmu,
            crate::storage::load_ok(old(self).mmu, address, 4) ==> r == Ok::<u32, SimulatorError>(
                crate::storage::loaded_value(old(self).mmu, address, 4),
            ),
            !crate::storage::load_ok(old(self).mmu, address, 4) ==> r == Err::<
                u32,
                SimulatorError,
            >(
                SimulatorError::MemoryError(
                    MemoryError::AccessError {
                        address: crate::storage::access_error_addr(old(self).mmu, address, 4),
                        kind: MemoryErrorKind::ReadUnallocated,
                    },
                ),
            ),
            (*old(stall_count)) is Some ==> *final(stall_count) == Some(
                old(self).service_stall(0, address),
            ),
            (*old(stall_count)) is None ==> *final(stall_count) is None,
            old(self).caches.len() > 0 && final(self).caches[0].same_line(
                address,
                address.wrapping_add(1),
            ) && final(self).caches[0].same_line(address, address.wrapping_add(2)) && final(self).caches[0].same_line(address, address.wrapping_add(2).wrapping_add(1)) ==> final(self).caches[0].contains_addr(address),
    {
        let low = match self.get16(address, stall_count) {
            Ok(v) => v as u32,
            Err(e) => {
                return Err(e);
            },
        };
        let high = match self.get16(address.wrapping_add(2), &mut None) {
            Ok(v) => v as u32,
            Err(e) => {
                proof {
                    if self.caches.len() > 0 && self.caches[0].same_line(
                        address,
                        address.wrapping_add(2),
                    ) {
                        self.caches[0].lemma_same_line_contains(address, address.wrapping_add(2));
                    }
                }
                return Err(e);
            },
        };
        proof {
            if self.caches.len() > 0 && self.caches[0].same_line(
                address,
                address.wrapping_add(2),
            ) {
                self.caches[0].lemma_same_line_contains(address, address.wrapping_add(2));
            }
            crate::mmu::lemma_word_from_halves(
                old(self).mmu.spec_byte(address),
                old(self).mmu.spec_byte(address.wrapping_add(1)),
                old(self).mmu.spec_byte(address.wrapping_add(2)),
                old(self).mmu.spec_byte(address.wrapping_add(2).wrapping_add(1)),
            );
        }
        Ok(low | (high << 16))
    }

    /// Writes a 16-bit little-endian value; only the first byte's access
    /// charges the requested stall.
    pub fn set16(&mut self, address: u32, value: u16, stall_count: &mut Option<i32>) -> (r:
        SimulatorResult<()>)
        requires
            old(self).wf(),
        ensures
            final(self).wf(),
            Self::same_shape(*old(self), *final(self)),
            forall|a2: u32| final(self).mmu.spec_allocated(a2) == old(self).mmu.spec_allocated(a2),
            old(self).mmu.spec_allocated(address) && old(self).mmu.spec_allocated(
                address.wrapping_add(1),
            ) ==> r == Ok::<(), SimulatorError>(()) && final(self).mmu.spec_byte(address)
                == value as u8 && final(self).mmu.spec_byte(address.wrapping_add(1)) == (value
                >> 8) as u8 && (forall|a2: u32|
                a2 != address && a2 != address.wrapping_add(1) && old(self).mmu.spec_allocated(a2)
                    ==> final(self).mmu.spec_byte(a2) == old(self).mmu.spec_byte(a2)),
            !old(self).mmu.spec_allocated(address) ==> r == Err::<(), SimulatorError>(
                SimulatorError::MemoryError(
                    MemoryError::AccessError { address, kind: MemoryErrorKind::WriteUnallocated },
                ),
            ) && final(self).mmu == old(self).mmu,
            old(self).mmu.spec_allocated(address) && !old(self).mmu.spec_allocated(
                address.wrapping_add(1),
            ) ==> r == Err::<(), SimulatorError>(
                SimulatorError::MemoryError(
                    MemoryError::AccessError {
                        address: address.wrapping_add(1),
                        kind: MemoryErrorKind::WriteUnallocated,
                    },
                ),
            ) && final(self).mmu.spec_byte(address) == value as u8 && (forall|a2: u32|
                a2 != address && old(self).mmu.spec_allocated(a2) ==> final(self).mmu.spec_byte(a2)
                    == old(self).mmu.spec_byte(a2)),
            (*old(stall_count)) is Some ==> *final(stall_count) == Some(
                old(self).service_stall(0, address),
            ),
            (*old(stall_count)) is None ==> *final(stall_count) is None,
            old(self).caches.len() > 0 && final(self).caches[0].same_line(
                address,
                address.wrapping_add(1),
            ) ==> final(self).caches[0].contains_addr(address),
    {
        match self.set8(address, value as u8, stall_count) {
            Ok(()) => {},
            Err(e) => {
                return Err(e);
            },
        }
        match self.set8(address.wrapping_add(1), (value >> 8) as u8, &mut None) {
            Ok(()) => {},
            Err(e) => {
                proof {
                    if self.caches.len() > 0 && self.caches[0].same_line(
                        address,
                        address.wrapping_add(1),
                    ) {
                        self.caches[0].lemma_same_line_contains(address, address.wrapping_add(1));
                    }
                }
                return Err(e);
            },
        }
        proof {
            if self.caches.len() > 0 && self.caches[0].same_line(
                address,
                address.wrapping_add(1),
            ) {
                self.caches[0].lemma_same_line_contains(address, address.wrapping_add(1));
            }
        }
        Ok(())
    }

    /// Writes a 32-bit little-endian value; only the first byte's access
    /// charges the requested stall.
    pub fn set32(&mut self, address: u32, value: u32, stall_count: &mut Option<i32>) -> (r:
        SimulatorResult<()>)
        requires
            old(self).wf(),
        ensures
            final(self).wf(),
            Self::same_shape(*old(self), *final(self)),
            forall|a2: u32| final(self).mmu.spec_allocated(a2) == old(self).mmu.spec_allocated(a2),
            crate::storage::load_ok(old(self).mmu, address, 4) ==> r == Ok::<(), SimulatorError>(())
                && final(self).mmu.spec_byte(address) == value as u8 && final(self).mmu.spec_byte(
                address.wrapping_add(1),
            ) == (value >> 8) as u8 && final(self).mmu.spec_byte(address.wrapping_add(2)) == (value
                >> 16) as u8 && final(self).mmu.spec_byte(address.wrapping_add(2).wrapping_add(1))
                == (value >> 24) as u8 && (forall|a2: u32|
                a2 != address && a2 != address.wrapping_add(1) && a2 != address.wrapping_add(2)
                    && a2 != address.wrapping_add(2).wrapping_add(1) && old(self).mmu.spec_allocated(a2) ==> final(self).mmu.spec_byte(a2) == old(self).mmu.spec_byte(a2)),
            !crate::storage::load_ok(old(self).mmu, address, 4) ==> r is Err && r->Err_0 matches
                SimulatorError::MemoryError(_),
            (*old(stall_count)) is Some ==> *final(stall_count) == Some(
                old(self).service_stall(0, address),
            ),
            (*old(stall_count)) is None ==> *final(stall_count) is None,
            old(self).caches.len() > 0 && final(self).caches[0].same_line(
                address,
                address.wrapping_add(1),
            ) && final(self).caches[0].same_line(address, address.wrapping_add(2)) && final(self).caches[0].same_line(address, address.wrapping_add(2).wrapping_add(1)) ==> final(self).caches[0].contains_addr(address),
    {
        proof {
            crate::mmu::lemma_word_bytes(value);
        }
        match self.set16(address, value as u16, stall_count) {
            Ok(()) => {},
            Err(e) => {
                return Err(e);
            },
        }
        match self.set16(address.wrapping_add(2), (value >> 16) as u16, &mut None) {
            Ok(()) => {},
            Err(e) => {
                proof {
                    if self.caches.len() > 0 && self.caches[0].same_line(
                        address,
                        address.wrapping_add(2),
                    ) {
                        self.caches[0].lemma_same_line_contains(address, address.wrapping_add(2));
                    }
                }
                return Err(e);
            },
        }
        proof {
            if self.caches.len() > 0 && self.caches[0].same_line(
                address,
                address.wrapping_add(2),
            ) {
                self.caches[0].lemma_same_line_contains(address, address.wrapping_add(2));
            }
        }
        Ok(())
    }

    /// Reads a value of `step` bytes (1, 2 or 4).  The realistic stall is
    /// the service stall of the first byte; the worst-case stall is always
    /// the miss penalty.
    pub fn get(
        &mut self,
        address: u32,
        step: u32,
        stall_count: &mut Option<i32>,
        stall_count_worst: &mut Option<i32>,
    ) -> (r: SimulatorResult<u32>)
        requires
            old(self).wf(),
        ensures
            final(self).wf(),
            Self::same_shape(*old(self), *final(self)),
            final(self).mmu == old(self).mmu,
            (*old(stall_count_worst)) is Some ==> *final(stall_count_worst) == Some(
                old(self).miss_penalty,
            ),
            (*old(stall_count_worst)) is None ==> *final(stall_count_worst) is None,
            step == 1 || step == 2 || step == 4 ==> {
                &&& crate::storage::load_ok(old(self).mmu, address, step) ==> r == Ok::<
                    u32,
                    SimulatorError,
                >(crate::storage::loaded_value(old(self).mmu, address, step))
                &&& !crate::storage::load_ok(old(self).mmu, address, step) ==> r == Err::<
                    u32,
                    SimulatorError,
                >(
                    SimulatorError::MemoryError(
                        MemoryError::AccessError {
                            address: crate::storage::access_error_addr(
                                old(self).mmu,
                                address,
                                step,
                            ),
                            kind: MemoryErrorKind::ReadUnallocated,
                        },
                    ),
                )
                &&& (*old(stall_count)) is Some ==> *final(stall_count) == Some(
                    old(self).service_stall(0, address),
                )
                &&& (*old(stall_count)) is None ==> *final(stall_count) is None
                &&& old(self).caches.len() > 0 && (step == 1 || (step == 2 && final(self).caches[0].same_line(address, address.wrapping_add(1))) || (step == 4 && final(self).caches[0].same_line(address, address.wrapping_add(1)) && final(self).caches[0].same_line(address, address.wrapping_add(2)) && final(self).caches[0].same_line(address, address.wrapping_add(2).wrapping_add(1)))) ==> final(self).caches[0].contains_addr(address)
            },
            !(step == 1 || step == 2 || step == 4) ==> r == Err::<u32, SimulatorError>(
                SimulatorError::MemoryError(
                    MemoryError::AccessError { address, kind: MemoryErrorKind::InvalidSize(step) },
                ),
            ) && *final(stall_count) == *old(stall_count) && *final(self) == *old(self),
    {
        if stall_count_worst.is_some() {
            *stall_count_worst = Some(self.miss_penalty);
        }

        proof {
            assert(address.wrapping_add(0u32) == address) by (bit_vector);
            assert(address.wrapping_add(2).wrapping_add(1) == address.wrapping_add(3))
                by (bit_vector);
        }
        match step {
            1 => {
                match self.get8(address, stall_count) {
                    Ok(b) => Ok(b as u32),
                    Err(e) => Err(e),
                }
            },
            2 => {
                let r = match self.get16(address, stall_count) {
                    Ok(v) => Ok(v as u32),
                    Err(e) => Err(e),
                };
                proof {
                    crate::mmu::lemma_half_flat(
                        old(self).mmu.spec_byte(address),
                        old(self).mmu.spec_byte(address.wrapping_add(1)),
                    );
                }
                r
            },
            4 => self.get32(address, stall_count),
            _ => Err(
                SimulatorError::MemoryError(
                    MemoryError::AccessError { address, kind: MemoryErrorKind::InvalidSize(step) },
                ),
            ),
        }
    }

    /// Writes a value of `step` bytes (1, 2 or 4).  The realistic stall is
    /// the service stall of the first byte; the worst-case stall is
    /// increased by the miss penalty, saturating.
    pub fn set(
        &mut self,
        address: u32,
        step: u32,
        value: u32,
        stall_count: &mut Option<i32>,
        stall_count_worst: &mut Option<i32>,
    ) -> (r: SimulatorResult<()>)
        requires
            old(self).wf(),
        ensures
            final(self).wf(),
            Self::same_shape(*old(self), *final(self)),
            forall|a2: u32| final(self).mmu.spec_allocated(a2) == old(self).mmu.spec_allocated(a2),
            (*old(stall_count_worst)) is Some ==> *final(stall_count_worst) == Some(
                old(self).miss_penalty,
            ),
            (*old(stall_count_worst)) is None ==> *final(stall_count_worst) is None,
            step == 1 || step == 2 || step == 4 ==> {
                &&& crate::storage::load_ok(old(self).mmu, address, step) ==> r == Ok::<
                    (),
                    SimulatorError,
                >(()) && (forall|i: int|
                    0 <= i < step ==> final(self).mmu.spec_byte(address.wrapping_add(i as u32))
                        == crate::storage::stored_byte(value, i))
                &&& !crate::storage::load_ok(old(self).mmu, address, step) ==> r is Err && (
                r->Err_0 matches SimulatorError::MemoryError(_))
                &&& (*old(stall_count)) is Some ==> *final(stall_count) == Some(
                    old(self).service_stall(0, address),
                )
                &&& (*old(stall_count)) is None ==> *final(stall_count) is None
                &&& old(self).caches.len() > 0 && (step == 1 || (step == 2 && final(self).caches[0].same_line(address, address.wrapping_add(1))) || (step == 4 && final(self).caches[0].same_line(address, address.wrapping_add(1)) && final(self).caches[0].same_line(address, address.wrapping_add(2)) && final(self).caches[0].same_line(address, address.wrapping_add(2).wrapping_add(1)))) ==> final(self).caches[0].contains_addr(address)
            },
            !(step == 1 || step == 2 || step == 4) ==> r == Err::<(), SimulatorError>(
                SimulatorError::MemoryError(
                    MemoryError::AccessError { address, kind: MemoryErrorKind::InvalidSize(step) },
                ),
            ) && *final(stall_count) == *old(stall_count) && *final(self) == *old(self),
    {
        if stall_count_worst.is_some() {
            *stall_count_worst = Some(self.miss_penalty);
        }

        let r = match step {
            1 => self.set8(address, value as u8, stall_count),
            2 => self.set16(address, value as u16, stall_count),
            4 => self.set32(address, value, stall_count),
            _ => Err(
                SimulatorError::MemoryError(
                    MemoryError::AccessError { address, kind: MemoryErrorKind::InvalidSize(step) },
                ),
            ),
        };
        proof {
            crate::mmu::lemma_word_bytes(value);
            if step == 1 || step == 2 || step == 4 {
                assert(address.wrapping_add(0u32) == address) by (bit_vector);
                assert(address.wrapping_add(2).wrapping_add(1) == address.wrapping_add(3))
                    by (bit_vector);
            }
        }
        r
    }

    /// The hit/miss history of every level, top down.
    pub fn get_history(&self) -> (r: Vec<CacheHistory>)
        requires
            self.wf(),
        ensures
            r.len() == self.caches.len(),
            forall|i: int| 0 <= i < r.len() ==> r[i] == (#[trigger] self.caches[i]).history,
    {
        let mut histories: Vec<CacheHistory> = Vec::new();
        let mut k: usize = 0;
        while k < self.n
            invariant
                self.wf(),
                k <= self.n,
                histories.len() == k,
                forall|i: int| 0 <= i < k ==> histories[i] == (#[trigger] self.caches[i]).history,
            decreases self.n - k,
        {
            histories.push(self.caches[k].history);
            k = k + 1;
        }
        histories
    }

    /// No line is valid in more than one level: for every valid block, no
    /// deeper level holds its address.
    pub open spec fn exclusion_holds(self) -> bool {
        forall|k: int, i: int, k2: int|
            0 <= k < self.caches.len() && 0 <= i < self.caches[k].blocks.len() && (
            #[trigger] self.caches[k].blocks[i]).valid && k < k2 < self.caches.len() ==> !(
            #[trigger] self.caches[k2]).contains_addr(
                self.caches[k].spec_address_of(self.caches[k].blocks[i]),
            )
    }

    /// Post-run exclusion audit: reports whether no address is valid in
    /// more than one level.
    pub fn verify_exclusiveness(&self) -> (r: bool)
        requires
            self.wf(),
        ensures
            r == self.exclusion_holds(),
    {
        let mut k: usize = 0;
        while k < self.n
            invariant
                self.wf(),
                k <= self.n,
                forall|kp: int, i: int, k2: int|
                    0 <= kp < k && 0 <= i < self.caches[kp].blocks.len() && (
                    #[trigger] self.caches[kp].blocks[i]).valid && kp < k2 < self.caches.len()
                        ==> !(#[trigger] self.caches[k2]).contains_addr(
                        self.caches[kp].spec_address_of(self.caches[kp].blocks[i]),
                    ),
            decreases self.n - k,
        {
            let blocks_len = self.caches[k].blocks.len();
            let mut i: usize = 0;
            while i < blocks_len
                invariant
                    self.wf(),
                    (k as int) < self.caches.len(),
                    blocks_len == self.caches[k as int].blocks.len(),
                    i <= blocks_len,
                    forall|ip: int, k2: int|
                        0 <= ip < i && (#[trigger] self.caches[k as int].blocks[ip]).valid && (
                        k as int) < k2 < self.caches.len() ==> !(
                        #[trigger] self.caches[k2]).contains_addr(
                            self.caches[k as int].spec_address_of(
                                self.caches[k as int].blocks[ip],
                            ),
                        ),
                decreases blocks_len - i,
            {
                if self.caches[k].blocks[i].valid {
                    let c = &self.caches[k];
                    let block = c.blocks[i];
                    let address = c.get_address(&block);

                    let mut k2: usize = k + 1;
                    while k2 < self.n
                        invariant
                            self.wf(),
                            (k as int) < self.caches.len(),
                            (i as int) < self.caches[k as int].blocks.len(),
                            self.caches[k as int].blocks[i as int].valid,
                            k < k2 <= self.n,
                            address == self.caches[k as int].spec_address_of(
                                self.caches[k as int].blocks[i as int],
                            ),
                            forall|kq: int|
                                k < kq < k2 ==> !(#[trigger] self.caches[kq]).contains_addr(
                                    address,
                                ),
                        decreases self.n - k2,
                    {
                        let c2 = &self.caches[k2];
                        if c2.lookup(address).is_some() {
                            return false;
                        }
                        k2 = k2 + 1;
                    }
                }
                i = i + 1;
            }
            k = k + 1;
        }

        true
    }
}

impl Default for ExclusiveCache {
    /// The stock three-level exclusive hierarchy: 16 KiB, 128 KiB and
    /// 2 MiB of 64-byte blocks with a 100-cycle miss penalty.
    fn default() -> (r: Self)
        ensures
            r.wf(),
            r.n == 3,
            forall|i: int, a: u32| 0 <= i < 3 ==> !(#[trigger] r.caches[i].contains_addr(a)),
            r.mmu.pages() == Map::<int, Seq<u8>>::empty(),
            r.miss_penalty == 100,
            r.caches[0].policy == (CachePolicy {
                cache_size: (16 * 1024) as usize,
                block_size: 64 as usize,
                block_num: 256 as usize,
                associativity: 1 as usize,
                hit_latency: 1,
            }),
            r.caches[1].policy == (CachePolicy {
                cache_size: (128 * 1024) as usize,
                block_size: 64 as usize,
                block_num: 2048 as usize,
                associativity: 8 as usize,
                hit_latency: 8,
            }),
            r.caches[2].policy == (CachePolicy {
                cache_size: (2 * 1024 * 1024) as usize,
                block_size: 64 as usize,
                block_num: 32768 as usize,
                associativity: 16 as usize,
                hit_latency: 20,
            }),
    {
        proof {
            crate::cache::lemma_standard_policies_valid();
        }
        let mut policies: Vec<CachePolicy> = Vec::new();
        policies.push(CachePolicy::make(16 * 1024, 64, 1, 1));
        policies.push(CachePolicy::make(128 * 1024, 64, 8, 8));
        policies.push(CachePolicy::make(2 * 1024 * 1024, 64, 16, 20));
        ExclusiveCache::make(policies, 100)
    }
}

} // verus!
