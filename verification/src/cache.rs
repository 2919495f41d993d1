//! One level of a set-associative cache with LRU replacement and hit/miss
//! counters.
//!
//! A cache holds `block_num` tag/state blocks in set-major order: block `i`
//! belongs to set `i / associativity`.  A 32-bit address splits into
//! `| tag | index | offset |`, where the offset covers `block_size` bytes
//! and the index selects a set.

use vstd::arithmetic::div_mod::lemma_fundamental_div_mod;
use vstd::arithmetic::div_mod::lemma_fundamental_div_mod_converse_div;
use vstd::arithmetic::div_mod::lemma_fundamental_div_mod_converse_mod;
use vstd::arithmetic::div_mod::lemma_div_is_ordered_by_denominator;
use vstd::arithmetic::mul::lemma_mul_inequality;
use vstd::arithmetic::power2::lemma_pow2_adds;
use vstd::arithmetic::power2::lemma_pow2_pos;
use vstd::arithmetic::power2::lemma_pow2_strictly_increases;
use vstd::arithmetic::power2::lemma_pow2_unfold;
use vstd::arithmetic::power2::lemma2_to64;
use vstd::arithmetic::power2::pow2;
use vstd::bits::lemma_u32_pow2_no_overflow;
use vstd::bits::lemma_u32_shl_is_mul;
use vstd::bits::lemma_u32_shr_is_div;
use vstd::bits::lemma_u64_shl_is_mul;
use vstd::bits::lemma_u64_pow2_no_overflow;
use vstd::bits::low_bits_mask;
use vstd::prelude::*;

use crate::storage::AccessType;

verus! {

/// A 32-bit value is a power of two.
pub open spec fn spec_is_pow_2(value: u32) -> bool {
    value != 0 && value & value.wrapping_sub(1) == 0
}

/// The floor base-2 logarithm: the result satisfies `value >> r == 1`.
pub fn get_log_2(value: u32) -> (r: usize)
    requires
        value > 0,
    ensures
        r <= 31,
        value >> (r as u32) == 1,
{
    proof {
        assert(value >> 0u32 == value) by (bit_vector);
    }
    let mut count: usize = 0;
    let mut t: u32 = value;
    while t > 1
        invariant
            value > 0,
            count <= 31,
            t >= 1,
            value >> (count as u32) == t,
        decreases t,
    {
        proof {
            let c = count as u32;
            let v = value;
            assert((v >> c) > 1 && c < 32 ==> ((v >> c) >> 1u32 == v >> ((c + 1) as u32)) && (v >> (
            (c + 1) as u32)) < (v >> c) && (v >> ((c + 1) as u32)) >= 1 && (c == 31 ==> v >> c
                <= 1)) by (bit_vector);
        }
        t = t >> 1u32;
        count = count + 1;
    }
    count
}

/// Whether a value is a power of two, by the standard bit trick.
pub fn is_pow_2(value: u32) -> (r: bool)
    ensures
        r == spec_is_pow_2(value),
{
    value != 0 && value & (value - 1) == 0
}

/// The mask with the low `bits` bits set.
pub fn get_mask(bits: usize) -> (r: u32)
    requires
        bits <= 32,
    ensures
        r == low_bits_mask(bits as nat) as u32,
        r == low_bits_mask(bits as nat),
{
    proof {
        lemma_u64_pow2_no_overflow(bits as nat);
        lemma_u64_shl_is_mul(1u64, bits as u64);
        lemma_pow2_pos(bits as nat);
        assert(pow2(bits as nat) <= pow2(32)) by {
            if bits < 32 {
                lemma_pow2_strictly_increases(bits as nat, 32);
            }
        }
        lemma2_to64();
    }
    ((1u64 << (bits as u64)) - 1) as u32
}

/// A power of two whose floor log is `c` is exactly `pow2(c)`.
proof fn lemma_pow2_from_bits(v: u32, c: u32)
    requires
        spec_is_pow_2(v),
        v >> c == 1,
        c <= 31,
    ensures
        v == pow2(c as nat),
{
    let m = v.wrapping_sub(1);
    assert(v != 0 && (v & m) == 0 && v == m + 1 && v >> c == 1 && c <= 31 ==> v == (1u32 << c))
        by (bit_vector);
    lemma_u32_pow2_no_overflow(c as nat);
    lemma_u32_shl_is_mul(1u32, c);
}

/// A value whose floor log is `c` lies between `pow2(c)` and `2 * pow2(c)`.
proof fn lemma_log2_bounds(v: u32, c: u32)
    requires
        v >> c == 1,
        c <= 31,
    ensures
        pow2(c as nat) <= v < 2 * pow2(c as nat),
{
    lemma_u32_shr_is_div(v, c);
    lemma_pow2_pos(c as nat);
    lemma_fundamental_div_mod(v as int, pow2(c as nat) as int);
}

/// An odd divisor of a power of two is 1.
proof fn lemma_odd_divisor_of_pow2(d: int, m: nat)
    requires
        d >= 1,
        d % 2 == 1,
        pow2(m) as int % d == 0,
    ensures
        d == 1,
    decreases m,
{
    let q = pow2(m) as int / d;
    lemma_fundamental_div_mod(pow2(m) as int, d);
    lemma_pow2_pos(m);
    lemma2_to64();
    if m == 0 {
        // d divides 1, and a divisor of 1 of size 2 or more is impossible
        if d >= 2 {
            if q <= 0 {
                vstd::arithmetic::mul::lemma_mul_inequality(q, 0, d);
                vstd::arithmetic::mul::lemma_mul_is_commutative(q, d);
            } else {
                vstd::arithmetic::mul::lemma_mul_inequality(1, q, d);
                vstd::arithmetic::mul::lemma_mul_is_commutative(q, d);
            }
            assert(false);
        }
    } else {
        lemma_pow2_unfold(m);
        // The quotient must be even: an odd product of odd factors cannot
        // equal the even pow2(m)
        if q % 2 == 1 {
            lemma_fundamental_div_mod(d, 2);
            let a = d / 2;
            let b = q / 2;
            assert(d * q == 2 * (2 * a * b + a + b) + 1) by (nonlinear_arith)
                requires
                    d == 2 * a + 1,
                    q == 2 * b + 1,
            ;
            lemma_fundamental_div_mod_converse_mod(d * q, 2, 2 * a * b + a + b, 1);
            assert(false);
        }
        lemma_fundamental_div_mod(q, 2);
        // pow2(m - 1) == d * (q / 2), so d divides the next power down
        assert(pow2((m - 1) as nat) as int == (q / 2) * d) by (nonlinear_arith)
            requires
                2 * pow2((m - 1) as nat) as int == d * q,
                q == 2 * (q / 2),
        ;
        lemma_fundamental_div_mod_converse_mod(pow2((m - 1) as nat) as int, d, q / 2, 0);
        lemma_odd_divisor_of_pow2(d, (m - 1) as nat);
    }
}

/// A divisor of a power of two that lies between pow2(j) and 2 * pow2(j)
/// is exactly pow2(j).
proof fn lemma_pow2_divisor(d: int, m: nat, j: nat)
    requires
        d >= 1,
        pow2(m) as int % d == 0,
        pow2(j) <= d < 2 * pow2(j),
    ensures
        d == pow2(j),
    decreases j,
{
    lemma_pow2_pos(j);
    lemma_pow2_pos(m);
    lemma2_to64();
    if j == 0 {
        assert(d == 1);
    } else {
        lemma_pow2_unfold(j);
        // d >= pow2(j) >= 2, and an odd divisor of a power of two is 1
        if d % 2 == 1 {
            lemma_odd_divisor_of_pow2(d, m);
            assert(false);
        }
        if m == 0 {
            vstd::arithmetic::div_mod::lemma_small_mod(1, d as nat);
            assert(false);
        }
        // Halve everything and recurse
        let d2 = d / 2;
        lemma_fundamental_div_mod(d, 2);
        let q = pow2(m) as int / d;
        lemma_fundamental_div_mod(pow2(m) as int, d);
        lemma_pow2_unfold(m);
        assert(pow2((m - 1) as nat) as int == q * d2) by (nonlinear_arith)
            requires
                2 * pow2((m - 1) as nat) as int == d * q,
                d == 2 * d2,
        ;
        if q < 0 {
            vstd::arithmetic::mul::lemma_mul_inequality(q, 0, d);
            assert(false);
        }
        lemma_fundamental_div_mod_converse_mod(pow2((m - 1) as nat) as int, d2, q, 0);
        lemma_pow2_divisor(d2, (m - 1) as nat, (j - 1) as nat);
    }
}

/// Every valid policy splits the cache exactly: its size is the block
/// size times the block count.
pub proof fn lemma_valid_policy_sizes(p: CachePolicy)
    requires
        spec_policy_valid(p),
    ensures
        p.cache_size == p.block_size * p.block_num,
        p.cache_size % p.block_size == 0,
        p.block_num % p.associativity == 0,
{
}

/// The standard cache policies of the default hierarchies are valid.
pub proof fn lemma_standard_policies_valid()
    ensures
        spec_policy_valid(
            CachePolicy {
                cache_size: 16384,
                block_size: 64,
                block_num: 256,
                associativity: 1,
                hit_latency: 1,
            },
        ),
        spec_policy_valid(
            CachePolicy {
                cache_size: 131072,
                block_size: 64,
                block_num: 2048,
                associativity: 8,
                hit_latency: 8,
            },
        ),
        spec_policy_valid(
            CachePolicy {
                cache_size: 2097152,
                block_size: 64,
                block_num: 32768,
                associativity: 16,
                hit_latency: 20,
            },
        ),
        spec_policy_valid(
            CachePolicy {
                cache_size: 512,
                block_size: 64,
                block_num: 8,
                associativity: 1,
                hit_latency: 0,
            },
        ),
{
    assert(spec_is_pow_2(16384u32) && spec_is_pow_2(64u32) && spec_is_pow_2(131072u32)
        && spec_is_pow_2(2097152u32) && spec_is_pow_2(512u32)) by (bit_vector);
}

/// Cache implementation.
pub struct Cache {
    pub policy: CachePolicy,
    pub history: CacheHistory,
    // Geometry, fixed at construction
    pub offset_bits: usize,
    pub index_bits: usize,
    pub offset_mask: u32,
    pub index_mask: u32,
    pub tag_mask: u32,
    pub blocks: Vec<Block>,
}

impl Cache {
    /// The number of sets, i.e. groups of `associativity` adjacent blocks.
    pub open spec fn spec_sets(self) -> int {
        self.policy.block_num as int / self.policy.associativity as int
    }

    /// Geometry invariant: masks follow the bit counts, the block size is
    /// exactly 2^offset_bits, the set count is exactly 2^index_bits, and
    /// every block records the set it belongs to.
    pub open spec fn wf(self) -> bool {
        &&& spec_policy_valid(self.policy)
        &&& self.policy.hit_latency >= 0
        &&& self.offset_bits <= 31
        &&& self.index_bits <= 31
        &&& self.offset_bits + self.index_bits <= 31
        &&& pow2(self.offset_bits as nat) == self.policy.block_size
        &&& pow2(self.index_bits as nat) == self.spec_sets()
        &&& self.offset_mask == low_bits_mask(self.offset_bits as nat)
        &&& self.index_mask == low_bits_mask(self.index_bits as nat)
        &&& self.tag_mask == low_bits_mask((32 - self.offset_bits - self.index_bits) as nat)
        &&& self.blocks.len() == self.policy.block_num
        &&& forall|i: int|
            0 <= i < self.blocks.len() ==> (#[trigger] self.blocks[i].index) as int == i
                / self.policy.associativity as int
    }

    /// The set index an address maps to.
    pub open spec fn spec_index_of(self, address: u32) -> int {
        ((address >> (self.offset_bits as u32)) & self.index_mask) as int
    }

    /// The tag of an address.
    pub open spec fn spec_tag_of(self, address: u32) -> u32 {
        (address >> ((self.offset_bits + self.index_bits) as u32)) & self.tag_mask
    }

    /// The first block slot of the set an address maps to.
    pub open spec fn set_start(self, address: u32) -> int {
        self.spec_index_of(address) * self.policy.associativity as int
    }

    /// One past the last block slot of the set an address maps to.
    pub open spec fn set_end(self, address: u32) -> int {
        (self.spec_index_of(address) + 1) * self.policy.associativity as int
    }

    /// Two addresses lie on the same line: same tag and same set index.
    pub open spec fn same_line(self, a1: u32, a2: u32) -> bool {
        self.spec_tag_of(a1) == self.spec_tag_of(a2) && self.spec_index_of(a1)
            == self.spec_index_of(a2)
    }

    /// Addresses on the same line are contained together.
    pub proof fn lemma_same_line_contains(self, a1: u32, a2: u32)
        requires
            self.same_line(a1, a2),
        ensures
            self.contains_addr(a1) == self.contains_addr(a2),
    {
    }

    /// The cache holds the line of `address`: some valid block of the
    /// address's set carries the address's tag.
    pub open spec fn contains_addr(self, address: u32) -> bool {
        exists|i: int|
            self.set_start(address) <= i < self.set_end(address) && (#[trigger] self.blocks[i]).valid
                && self.blocks[i].tag == self.spec_tag_of(address)
    }

    /// The set of an address lies inside the block array.
    pub proof fn lemma_set_range(self, address: u32)
        requires
            self.wf(),
        ensures
            0 <= self.set_start(address),
            self.set_start(address) + self.policy.associativity as int == self.set_end(address),
            self.set_end(address) <= self.blocks.len(),
            0 <= self.spec_index_of(address) < self.spec_sets(),
            self.spec_tag_of(address) <= self.tag_mask,
    {
        let sh = (self.offset_bits + self.index_bits) as u32;
        let tmask = self.tag_mask;
        assert((address >> sh) & tmask <= tmask) by (bit_vector);
        let ib = self.index_bits as u32;
        let x = address >> (self.offset_bits as u32);
        assert((x & (low_bits_mask(ib as nat) as u32)) == x % (pow2(ib as nat) as u32)) by {
            vstd::bits::lemma_u32_low_bits_mask_is_mod(x, ib as nat);
        }
        lemma_u32_pow2_no_overflow(ib as nat);
        lemma_pow2_pos(ib as nat);
        let idx = self.spec_index_of(address);
        assert(0 <= idx < pow2(ib as nat));
        let assoc = self.policy.associativity as int;
        let sets = self.spec_sets();
        assert(idx + 1 <= sets);
        lemma_mul_inequality(idx + 1, sets, assoc);
        lemma_fundamental_div_mod(self.policy.block_num as int, assoc);
        vstd::arithmetic::mul::lemma_mul_is_distributive_add_other_way(assoc, idx, 1);
        vstd::arithmetic::mul::lemma_mul_inequality(0, idx, assoc);
    }

    /// Same fixed parameters: policy, bit counts, masks and capacity.
    pub open spec fn same_geometry(a: Cache, b: Cache) -> bool {
        &&& a.policy == b.policy
        &&& a.offset_bits == b.offset_bits
        &&& a.index_bits == b.index_bits
        &&& a.offset_mask == b.offset_mask
        &&& a.index_mask == b.index_mask
        &&& a.tag_mask == b.tag_mask
        &&& a.blocks.len() == b.blocks.len()
    }

    /// Same geometry and same block contents: everything `contains_addr`
    /// and the replacement choice depend on.
    pub open spec fn same_lines(a: Cache, b: Cache) -> bool {
        &&& Cache::same_geometry(a, b)
        &&& a.blocks@ == b.blocks@
    }

    /// Two caches with the same lines agree on which addresses they hold.
    pub proof fn lemma_same_lines_contains(a: Cache, b: Cache, address: u32)
        requires
            Cache::same_lines(a, b),
        ensures
            a.contains_addr(address) == b.contains_addr(address),
            a.spec_index_of(address) == b.spec_index_of(address),
            a.spec_tag_of(address) == b.spec_tag_of(address),
            a.wf() == b.wf(),
    {
        assert(a.blocks.len() == b.blocks.len());
        if a.contains_addr(address) {
            let i = choose|i: int|
                a.set_start(address) <= i < a.set_end(address) && (#[trigger] a.blocks[i]).valid
                    && a.blocks[i].tag == a.spec_tag_of(address);
            assert(b.blocks[i] == a.blocks[i]);
            assert(b.contains_addr(address));
        }
        if b.contains_addr(address) {
            let i = choose|i: int|
                b.set_start(address) <= i < b.set_end(address) && (#[trigger] b.blocks[i]).valid
                    && b.blocks[i].tag == b.spec_tag_of(address);
            assert(a.blocks[i] == b.blocks[i]);
            assert(a.contains_addr(address));
        }
    }

    /// Builds a cache from a valid policy, with empty history and all
    /// blocks invalid, so no address is contained yet.
    pub fn make(policy: CachePolicy) -> (r: Self)
        requires
            spec_policy_valid(policy),
            policy.hit_latency >= 0,
        ensures
            r.wf(),
            r.policy == policy,
            r.history == (CacheHistory { num_hit: 0, num_miss: 0 }),
            forall|i: int|
                0 <= i < r.blocks.len() ==> !(#[trigger] r.blocks[i]).valid
                    && !r.blocks[i].dirty && r.blocks[i].tag == 0 && r.blocks[i].prv_ref == 0,
            forall|a: u32| !r.contains_addr(a),
    {
        let cache_bits = get_log_2(policy.cache_size as u32);
        let offset_bits = get_log_2(policy.block_size as u32);
        let sets = policy.block_num / policy.associativity;
        proof {
            let bn = policy.block_num as int;
            let assoc = policy.associativity as int;
            // block_num >= 1 because cache_size = block_size * block_num > 0
            assert(policy.block_num >= 1) by {
                if policy.block_num == 0 {
                    assert(policy.block_size as int * 0 == 0)
                        by (nonlinear_arith);
                }
            }
            // associativity <= block_num, since it divides a positive count
            if bn < assoc {
                vstd::arithmetic::div_mod::lemma_small_mod(
                    policy.block_num as nat,
                    policy.associativity as nat,
                );
            }
            // so there is at least one set
            vstd::arithmetic::div_mod::lemma_div_by_self(assoc);
            vstd::arithmetic::div_mod::lemma_div_is_ordered(assoc, bn, assoc);
            // sets <= block_num <= cache_size <= u32::MAX
            lemma_div_is_ordered_by_denominator(bn, 1, assoc);
            lemma_mul_inequality(1, policy.block_size as int, policy.block_num as int);
            vstd::arithmetic::mul::lemma_mul_is_commutative(
                policy.block_size as int,
                policy.block_num as int,
            );
        }
        let index_bits = get_log_2(sets as u32);
        proof {
            let ob = offset_bits as u32;
            let ib = index_bits as u32;
            lemma_pow2_from_bits(policy.block_size as u32, ob);
            lemma_log2_bounds(sets as u32, ib);
            // The set count is itself a power of two: it divides the block
            // count, which is the quotient of two powers of two
            lemma_pow2_from_bits(policy.cache_size as u32, cache_bits as u32);
            if cache_bits < offset_bits {
                lemma_pow2_strictly_increases(cache_bits as nat, offset_bits as nat);
                lemma_mul_inequality(1, policy.block_num as int, policy.block_size as int);
                vstd::arithmetic::mul::lemma_mul_is_commutative(
                    policy.block_num as int,
                    policy.block_size as int,
                );
                assert(false);
            }
            let mb = (cache_bits - offset_bits) as nat;
            lemma_pow2_adds(ob as nat, mb);
            assert(policy.block_num == pow2(mb)) by {
                vstd::arithmetic::mul::lemma_mul_equality_converse(
                    pow2(ob as nat) as int,
                    policy.block_num as int,
                    pow2(mb) as int,
                );
            }
            // block_num == associativity * sets, so sets divides pow2(mb)
            lemma_fundamental_div_mod(policy.block_num as int, policy.associativity as int);
            vstd::arithmetic::mul::lemma_mul_is_commutative(
                policy.associativity as int,
                sets as int,
            );
            lemma_fundamental_div_mod_converse_mod(
                pow2(mb) as int,
                sets as int,
                policy.associativity as int,
                0,
            );
            lemma_pow2_divisor(sets as int, mb, ib as nat);
            // pow2(ob) * pow2(ib) <= block_size * sets <= cache_size < pow2(32)
            lemma_mul_inequality(
                pow2(ib as nat) as int,
                sets as int,
                policy.block_size as int,
            );
            vstd::arithmetic::mul::lemma_mul_is_commutative(
                pow2(ib as nat) as int,
                policy.block_size as int,
            );
            vstd::arithmetic::mul::lemma_mul_is_commutative(sets as int, policy.block_size as int);
            lemma_mul_inequality(sets as int, policy.block_num as int, policy.block_size as int);
            lemma_pow2_adds(ob as nat, ib as nat);
            lemma2_to64();
            if offset_bits + index_bits >= 32 {
                if offset_bits + index_bits > 32 {
                    lemma_pow2_strictly_increases(32, (offset_bits + index_bits) as nat);
                }
                assert(false);
            }
        }
        let offset_mask = get_mask(offset_bits);
        let index_mask = get_mask(index_bits);
        let tag_mask = get_mask(32 - offset_bits - index_bits);

        let mut blocks: Vec<Block> = Vec::new();
        let mut i: usize = 0;
        while i < policy.block_num
            invariant
                i <= policy.block_num,
                blocks.len() == i,
                policy.associativity > 0,
                forall|x: int|
                    0 <= x < i ==> (#[trigger] blocks[x]) == (Block {
                        valid: false,
                        dirty: false,
                        tag: 0,
                        index: (x as usize) / policy.associativity,
                        prv_ref: 0,
                    }),
            decreases policy.block_num - i,
        {
            blocks.push(
                Block { valid: false, dirty: false, tag: 0, index: i / policy.associativity, prv_ref: 0 },
            );
            i = i + 1;
        }

        let r = Self {
            policy,
            history: CacheHistory { num_hit: 0, num_miss: 0 },
            offset_bits,
            index_bits,
            offset_mask,
            index_mask,
            tag_mask,
            blocks,
        };
        proof {
            assert forall|x: int| 0 <= x < r.blocks.len() implies (#[trigger] r.blocks[x].index)
                as int == x / r.policy.associativity as int by {
                lemma_fundamental_div_mod(x, r.policy.associativity as int);
            }
            assert forall|a: u32| !r.contains_addr(a) by {
                r.lemma_set_range(a);
            }
        }
        r
    }
}

impl Cache {
    /// Makes a fresh valid block carrying the tag and set of `address`,
    /// usually used when loading a block with specified data.
    pub fn make_block(&self, address: u32) -> (r: Block)
        requires
            self.wf(),
        ensures
            r.valid,
            !r.dirty,
            r.tag == self.spec_tag_of(address),
            r.index as int == self.spec_index_of(address),
            r.prv_ref == 0,
    {
        Block {
            valid: true,
            dirty: false,
            tag: self.get_tag(address),
            index: self.get_index(address),
            prv_ref: 0,
        }
    }

    /// Clears the block in slot `i` back to an invalid block of its set.
    pub fn reset_block(&mut self, i: usize)
        requires
            old(self).wf(),
            i < old(self).blocks.len(),
        ensures
            final(self).wf(),
            final(self).blocks@ == old(self).blocks@.update(
                i as int,
                (Block {
                    valid: false,
                    dirty: false,
                    tag: 0,
                    index: (i / old(self).policy.associativity) as usize,
                    prv_ref: 0,
                }),
            ),
            *final(self) == (Cache { blocks: final(self).blocks, ..*old(self) }),
    {
        let index = i / self.policy.associativity;
        let block = &mut self.blocks[i];
        block.valid = false;
        block.dirty = false;
        block.tag = 0;
        block.index = index;
        block.prv_ref = 0;
        proof {
            assert(final(self).blocks@ =~= old(self).blocks@.update(
                i as int,
                (Block {
                    valid: false,
                    dirty: false,
                    tag: 0,
                    index: (i / old(self).policy.associativity) as usize,
                    prv_ref: 0,
                }),
            ));
        }
    }

    /// Rewrites a block — not necessarily from this cache — so that its tag
    /// and set index follow this cache's geometry for `address`.
    pub fn transformed_block(&self, block: &Block, address: u32) -> (r: Block)
        requires
            self.wf(),
        ensures
            r == (Block {
                tag: self.spec_tag_of(address),
                index: r.index,
                ..*block
            }),
            r.index as int == self.spec_index_of(address),
    {
        let mut transformed_block = block.clone();
        // Must update tag and index
        transformed_block.tag = self.get_tag(address);
        transformed_block.index = self.get_index(address);
        transformed_block
    }

    /// Fixes the tag and set index of the block in slot `i` to those of
    /// `address`, which must map to the slot's set.
    pub fn fix_block(&mut self, i: usize, address: u32)
        requires
            old(self).wf(),
            i < old(self).blocks.len(),
            old(self).spec_index_of(address) == i as int / old(self).policy.associativity as int,
        ensures
            final(self).wf(),
            final(self).blocks@ == old(self).blocks@.update(
                i as int,
                (Block {
                    tag: old(self).spec_tag_of(address),
                    index: final(self).blocks[i as int].index,
                    ..old(self).blocks[i as int]
                }),
            ),
            final(self).blocks[i as int].index as int == old(self).spec_index_of(address),
            *final(self) == (Cache { blocks: final(self).blocks, ..*old(self) }),
    {
        let tag = self.get_tag(address);
        let index = self.get_index(address);
        let block = &mut self.blocks[i];
        block.tag = tag;
        block.index = index;
        proof {
            assert(final(self).blocks@ =~= old(self).blocks@.update(
                i as int,
                (Block {
                    tag: old(self).spec_tag_of(address),
                    index: final(self).blocks[i as int].index,
                    ..old(self).blocks[i as int]
                }),
            ));
        }
    }

    /// Checks that the block in slot `i` records the set it sits in.
    pub fn validate_block(&self, i: usize) -> (r: bool)
        requires
            self.wf(),
            i < self.blocks.len(),
        ensures
            r == (self.blocks[i as int].index as int == i as int
                / self.policy.associativity as int),
    {
        self.blocks[i].index == i / self.policy.associativity
    }

    /// The set index of an address.
    pub fn get_index(&self, address: u32) -> (r: usize)
        requires
            self.wf(),
        ensures
            r as int == self.spec_index_of(address),
    {
        ((address >> (self.offset_bits as u32)) & self.index_mask) as usize
    }

    /// The tag of an address.
    pub fn get_tag(&self, address: u32) -> (r: u32)
        requires
            self.wf(),
        ensures
            r == self.spec_tag_of(address),
    {
        (address >> ((self.offset_bits + self.index_bits) as u32)) & self.tag_mask
    }

    /// The base address a block stands for.
    pub open spec fn spec_address_of(self, block: Block) -> u32 {
        (block.tag << ((self.offset_bits + self.index_bits) as u32)) | ((block.index as u32) << (
        self.offset_bits as u32))
    }

    /// The reassembled address of a block decomposes back into the
    /// block's tag and set index, with a zero offset, whenever the fields
    /// are in range.
    pub proof fn lemma_address_round_trip(self, block: Block)
        requires
            self.wf(),
            block.tag <= self.tag_mask,
            (block.index as int) < self.spec_sets(),
        ensures
            self.spec_tag_of(self.spec_address_of(block)) == block.tag,
            self.spec_index_of(self.spec_address_of(block)) == block.index as int,
            self.spec_address_of(block) & self.offset_mask == 0,
    {
        let ob = self.offset_bits as u32;
        let ib = self.index_bits as u32;
        let s = (self.offset_bits + self.index_bits) as u32;
        let om = self.offset_mask;
        let im = self.index_mask;
        let tm = self.tag_mask;
        let tag = block.tag;
        let idx = block.index as u32;
        // The masks, expressed as shifts of one and of all-ones
        lemma_u32_pow2_no_overflow(ob as nat);
        lemma_u32_shl_is_mul(1u32, ob);
        lemma_u32_pow2_no_overflow(ib as nat);
        lemma_u32_shl_is_mul(1u32, ib);
        assert(om + 1 == (1u32 << ob));
        assert(im + 1 == (1u32 << ib));
        lemma_u32_shr_is_div(0xffffffffu32, s);
        lemma_pow2_adds(s as nat, (32 - s) as nat);
        lemma2_to64();
        lemma_pow2_pos(s as nat);
        lemma_pow2_pos((32 - s) as nat);
        assert(0xffffffff as int == pow2(s as nat) as int * (pow2((32 - s) as nat) as int - 1) + (
        pow2(s as nat) as int - 1)) by (nonlinear_arith)
            requires
                pow2(s as nat) * pow2((32 - s) as nat) == pow2(32),
                pow2(32) == 0x1_0000_0000,
                pow2(s as nat) >= 1,
        ;
        lemma_fundamental_div_mod_converse_div(
            0xffffffff as int,
            pow2(s as nat) as int,
            pow2((32 - s) as nat) as int - 1,
            pow2(s as nat) as int - 1,
        );
        assert(tm == 0xffffffffu32 >> s);
        assert(idx < (1u32 << ib));
        // The bit-level round trip
        assert(s <= 31 && s == ob + ib && om + 1 == (1u32 << ob) && im + 1 == (1u32 << ib) && tm
            == 0xffffffffu32 >> s && tag <= tm && idx < (1u32 << ib) ==> ((((tag << s) | (idx
            << ob)) >> s) & tm == tag && (((tag << s) | (idx << ob)) >> ob) & im == idx && ((tag
            << s) | (idx << ob)) & om == 0)) by (bit_vector);
    }

    /// Reassembles the base address of a block from its tag and set index;
    /// for in-range fields the address decomposes back into them.
    pub fn get_address(&self, block: &Block) -> (r: u32)
        requires
            self.wf(),
        ensures
            r == self.spec_address_of(*block),
            block.tag <= self.tag_mask && (block.index as int) < self.spec_sets() ==> {
                &&& self.spec_tag_of(r) == block.tag
                &&& self.spec_index_of(r) == block.index as int
                &&& r & self.offset_mask == 0
            },
    {
        proof {
            if block.tag <= self.tag_mask && (block.index as int) < self.spec_sets() {
                self.lemma_address_round_trip(*block);
            }
        }
        (block.tag << ((self.offset_bits + self.index_bits) as u32)) | ((block.index as u32) << (
        self.offset_bits as u32))
    }

    /// Whether the cache holds the line of `address`.
    pub fn is_in_cache(&self, address: u32) -> (r: bool)
        requires
            self.wf(),
        ensures
            r == self.contains_addr(address),
    {
        self.lookup(address).is_some()
    }

    /// Finds the slot holding the line of `address`, scanning its set.
    pub fn lookup(&self, address: u32) -> (r: Option<usize>)
        requires
            self.wf(),
        ensures
            r is Some <==> self.contains_addr(address),
            r is Some ==> self.set_start(address) <= r->Some_0 < self.set_end(address) && self.blocks[
                r->Some_0 as int
            ].valid && self.blocks[r->Some_0 as int].tag == self.spec_tag_of(address),
            r is Some ==> forall|i: int|
                self.set_start(address) <= i < r->Some_0 ==> !((#[trigger] self.blocks[i]).valid
                    && self.blocks[i].tag == self.spec_tag_of(address)),
    {
        proof {
            self.lemma_set_range(address);
        }
        let tag = self.get_tag(address);
        let index = self.get_index(address);
        let begin = index * self.policy.associativity;
        let end = (index + 1) * self.policy.associativity;
        let mut i = begin;
        while i < end
            invariant
                self.wf(),
                tag == self.spec_tag_of(address),
                begin == self.set_start(address),
                end == self.set_end(address),
                end <= self.blocks.len(),
                begin <= i <= end,
                forall|x: int|
                    begin <= x < i ==> !((#[trigger] self.blocks[x]).valid && self.blocks[x].tag
                        == tag),
            decreases end - i,
        {
            let block = &self.blocks[i];
            // Return the slot if it is valid and carries the same tag
            if block.valid && block.tag == tag {
                return Some(i);
            }
            i = i + 1;
        }

        None
    }

    /// Records one hit, saturating at the counter's maximum.
    pub fn record_hit(&mut self)
        ensures
            final(self).history.num_hit == (if old(self).history.num_hit < u64::MAX {
                old(self).history.num_hit + 1
            } else {
                old(self).history.num_hit as int
            }),
            final(self).history.num_miss == old(self).history.num_miss,
            *final(self) == (Cache { history: final(self).history, ..*old(self) }),
    {
        if self.history.num_hit < u64::MAX {
            self.history.num_hit = self.history.num_hit + 1;
        }
    }

    /// Records one miss, saturating at the counter's maximum.
    pub fn record_miss(&mut self)
        ensures
            final(self).history.num_miss == (if old(self).history.num_miss < u64::MAX {
                old(self).history.num_miss + 1
            } else {
                old(self).history.num_miss as int
            }),
            final(self).history.num_hit == old(self).history.num_hit,
            *final(self) == (Cache { history: final(self).history, ..*old(self) }),
    {
        if self.history.num_miss < u64::MAX {
            self.history.num_miss = self.history.num_miss + 1;
        }
    }

    /// Chooses the victim slot of a set: the first invalid slot if any,
    /// otherwise the least recently referenced one.
    pub fn get_index_to_replace(&self, index: usize) -> (r: usize)
        requires
            self.wf(),
            (index as int) < self.spec_sets(),
        ensures
            index * self.policy.associativity <= r,
            (r as int) < (index + 1) * self.policy.associativity as int,
            (index + 1) * self.policy.associativity as int <= self.blocks.len(),
            (exists|i: int|
                index * self.policy.associativity <= i < (index + 1)
                    * self.policy.associativity as int && !(#[trigger] self.blocks[i]).valid)
                ==> !self.blocks[r as int].valid && (forall|i: int|
                index * self.policy.associativity <= i < r as int ==> (
                #[trigger] self.blocks[i]).valid),
            (forall|i: int|
                index * self.policy.associativity <= i < (index + 1)
                    * self.policy.associativity as int ==> (#[trigger] self.blocks[i]).valid)
                ==> (forall|i: int|
                index * self.policy.associativity <= i < (index + 1)
                    * self.policy.associativity as int ==> self.blocks[r as int].prv_ref <= (
                #[trigger] self.blocks[i]).prv_ref) && (forall|i: int|
                index * self.policy.associativity <= i < r as int ==> self.blocks[r as int].prv_ref
                    < (#[trigger] self.blocks[i]).prv_ref),
    {
        proof {
            lemma_mul_inequality(
                index as int + 1,
                self.spec_sets(),
                self.policy.associativity as int,
            );
            lemma_fundamental_div_mod(
                self.policy.block_num as int,
                self.policy.associativity as int,
            );
            vstd::arithmetic::mul::lemma_mul_is_distributive_add_other_way(
                self.policy.associativity as int,
                index as int,
                1,
            );
            vstd::arithmetic::mul::lemma_mul_inequality(0, index as int, self.policy.associativity as int);
        }
        let begin = index * self.policy.associativity;
        let end = (index + 1) * self.policy.associativity;
        let mut result = begin;
        let mut min_ref = self.blocks[begin].prv_ref;
        let mut found_invalid = false;
        let mut i = begin;
        while i < end
            invariant
                self.wf(),
                begin == index * self.policy.associativity,
                end == (index + 1) * self.policy.associativity as int,
                end <= self.blocks.len(),
                begin < end,
                begin <= i <= end,
                begin <= result < end,
                result <= i || (i == begin && result == begin),
                found_invalid ==> !self.blocks[result as int].valid,
                found_invalid ==> forall|x: int|
                    begin <= x < result ==> (#[trigger] self.blocks[x]).valid,
                !found_invalid ==> forall|x: int|
                    begin <= x < i ==> (#[trigger] self.blocks[x]).valid,
                !found_invalid ==> forall|x: int|
                    begin <= x < result ==> (#[trigger] self.blocks[x]).prv_ref > min_ref,
                !found_invalid ==> min_ref == self.blocks[result as int].prv_ref,
                !found_invalid ==> forall|x: int|
                    begin <= x < i ==> min_ref <= (#[trigger] self.blocks[x]).prv_ref,
            decreases end - i,
        {
            if !found_invalid {
                let block = &self.blocks[i];
                // If it is not valid, replace it immediately
                if !block.valid {
                    result = i;
                    found_invalid = true;
                } else if block.prv_ref < min_ref {
                    // Otherwise track the least recent reference
                    min_ref = block.prv_ref;
                    result = i;
                }
            }
            i = i + 1;
        }
        result
    }

    /// The block size of this cache.
    pub fn get_block_size(&self) -> (r: usize)
        ensures
            r == self.policy.block_size,
    {
        self.policy.block_size
    }

    /// The associativity of this cache.
    pub fn get_associativity(&self) -> (r: usize)
        ensures
            r == self.policy.associativity,
    {
        self.policy.associativity
    }

    /// Touches the block in the given slot: stamps it with the current
    /// reference counter and marks it dirty on a write.
    pub fn access_index(&mut self, target_index: usize, access_type: AccessType, ref_counter: u64)
        requires
            old(self).wf(),
            target_index < old(self).blocks.len(),
        ensures
            final(self).wf(),
            final(self).blocks@ == old(self).blocks@.update(
                target_index as int,
                (Block {
                    prv_ref: ref_counter,
                    dirty: old(self).blocks[target_index as int].dirty || access_type
                        == AccessType::Write,
                    ..old(self).blocks[target_index as int]
                }),
            ),
            *final(self) == (Cache { blocks: final(self).blocks, ..*old(self) }),
    {
        let target_block = &mut self.blocks[target_index];

        // Update the reference counter
        target_block.prv_ref = ref_counter;

        // If it is a write, mark the block as dirty
        if access_type == AccessType::Write {
            target_block.dirty = true;
        }
        proof {
            assert(final(self).blocks@ =~= old(self).blocks@.update(
                target_index as int,
                (Block {
                    prv_ref: ref_counter,
                    dirty: old(self).blocks[target_index as int].dirty || access_type
                        == AccessType::Write,
                    ..old(self).blocks[target_index as int]
                }),
            ));
        }
    }
}

/// Tag/state metadata of one cache block.
#[derive(Clone, Copy, Debug, PartialEq, Eq, Structural)]
pub struct Block {
    pub valid: bool,
    pub dirty: bool,
    pub tag: u32,
    pub index: usize,
    pub prv_ref: u64,
}

/// Hit and miss counters of one cache.
#[derive(Clone, Copy, Debug, PartialEq, Eq, Structural)]
pub struct CacheHistory {
    pub num_hit: u64,
    pub num_miss: u64,
}

impl Default for CacheHistory {
    /// No hits and no misses yet.
    fn default() -> (r: Self)
        ensures
            r == (CacheHistory { num_hit: 0, num_miss: 0 }),
    {
        CacheHistory { num_hit: 0, num_miss: 0 }
    }
}

/// The sizing and latency parameters of one cache level.
#[derive(Clone, Copy, Debug, PartialEq, Eq, Structural)]
pub struct CachePolicy {
    pub cache_size: usize,
    pub block_size: usize,
    pub block_num: usize,
    pub associativity: usize,
    pub hit_latency: i32,
}

/// A policy is valid when both sizes are powers of two that fit the 32-bit
/// address space, the cache divides evenly into blocks, `cache_size =
/// block_size * block_num`, and the blocks divide evenly into sets.
pub open spec fn spec_policy_valid(p: CachePolicy) -> bool {
    &&& p.cache_size <= u32::MAX
    &&& p.block_size <= u32::MAX
    &&& spec_is_pow_2(p.cache_size as u32)
    &&& spec_is_pow_2(p.block_size as u32)
    &&& p.cache_size % p.block_size == 0
    &&& p.cache_size == p.block_size * p.block_num
    &&& p.associativity > 0
    &&& p.block_num % p.associativity == 0
}

impl Default for CachePolicy {
    /// The default level-1 policy: 16 KiB directly mapped cache of 64-byte
    /// blocks with a 1-cycle hit latency.
    fn default() -> (r: Self)
        ensures
            r == (CachePolicy {
                cache_size: 16384usize,
                block_size: 64usize,
                block_num: 256usize,
                associativity: 1usize,
                hit_latency: 1,
            }),
    {
        CachePolicy::make(16 * 1024, 64, 1, 1)
    }
}

impl CachePolicy {
    /// Builds a policy; the block count is the quotient of the two sizes.
    pub fn make(cache_size: usize, block_size: usize, associativity: usize, hit_latency: i32) -> (r:
        Self)
        requires
            block_size > 0,
            cache_size % block_size == 0,
        ensures
            r == (CachePolicy {
                cache_size,
                block_size,
                block_num: cache_size / block_size,
                associativity,
                hit_latency,
            }),
    {
        Self { cache_size, block_size, block_num: cache_size / block_size, associativity, hit_latency }
    }

    /// Checks every validity condition of the policy.
    pub fn is_valid(&self) -> (r: bool)
        ensures
            r == spec_policy_valid(*self),
    {
        // Sizes must fit the 32-bit address space
        if self.cache_size > (u32::MAX as usize) || self.block_size > (u32::MAX as usize) {
            return false;
        }
        // Cache size must be a power of 2
        if !is_pow_2(self.cache_size as u32) {
            return false;
        }
        // Block size must be a power of 2
        if !is_pow_2(self.block_size as u32) {
            return false;
        }
        // Cache size must be a multiple of block size
        if self.cache_size % self.block_size != 0 {
            return false;
        }
        proof {
            let cs = self.cache_size as int;
            let bs = self.block_size as int;
            let bn = self.block_num as int;
            lemma_fundamental_div_mod(cs, bs);
            vstd::arithmetic::mul::lemma_mul_is_commutative(bs, bn);
            vstd::arithmetic::mul::lemma_mul_is_commutative(bs, cs / bs);
            if cs == bs * bn {
                vstd::arithmetic::mul::lemma_mul_equality_converse(bs, cs / bs, bn);
            }
        }
        // cache_size = block_size * block_num
        if self.cache_size / self.block_size != self.block_num {
            return false;
        }
        // Block number must be a multiple of associativity
        if self.associativity == 0 {
            return false;
        }
        if self.block_num % self.associativity != 0 {
            return false;
        }
        true
    }
}

} // verus!
