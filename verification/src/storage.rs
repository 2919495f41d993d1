//! Shared vocabulary of the storage hierarchy: write policies, access
//! types, and what sized loads and stores mean over the MMU bytes.

use vstd::prelude::*;

use crate::mmu::MMU;

verus! {

/// All `step` bytes starting at `address` (wrapping) are backed by
/// allocated pages, for `step` in {1, 2, 4}.
pub open spec fn load_ok(m: MMU, address: u32, step: u32) -> bool {
    if step == 1 {
        m.spec_allocated(address)
    } else if step == 2 {
        m.spec_allocated(address) && m.spec_allocated(address.wrapping_add(1))
    } else {
        m.spec_allocated(address) && m.spec_allocated(address.wrapping_add(1))
            && m.spec_allocated(address.wrapping_add(2)) && m.spec_allocated(
            address.wrapping_add(2).wrapping_add(1),
        )
    }
}

/// The first unallocated address of a sized access, in access order.
pub open spec fn access_error_addr(m: MMU, address: u32, step: u32) -> u32 {
    if !m.spec_allocated(address) {
        address
    } else if !m.spec_allocated(address.wrapping_add(1)) {
        address.wrapping_add(1)
    } else if !m.spec_allocated(address.wrapping_add(2)) {
        address.wrapping_add(2)
    } else {
        address.wrapping_add(2).wrapping_add(1)
    }
}

/// The little-endian value of `step` bytes starting at `address`.
pub open spec fn loaded_value(m: MMU, address: u32, step: u32) -> u32 {
    if step == 1 {
        m.spec_byte(address) as u32
    } else if step == 2 {
        (m.spec_byte(address) as u32) | ((m.spec_byte(address.wrapping_add(1)) as u32) << 8)
    } else {
        (m.spec_byte(address) as u32) | ((m.spec_byte(address.wrapping_add(1)) as u32) << 8) | ((
        m.spec_byte(address.wrapping_add(2)) as u32) << 16) | ((m.spec_byte(
            address.wrapping_add(2).wrapping_add(1),
        ) as u32) << 24)
    }
}

/// A page map holds an allocated page covering the given address.
pub open spec fn pg_allocated(p: Map<int, Seq<u8>>, address: u32) -> bool {
    p.contains_key(crate::mmu::page_id(address))
}

/// The byte a page map holds at the given address.
pub open spec fn pg_byte(p: Map<int, Seq<u8>>, address: u32) -> u8 {
    p[crate::mmu::page_id(address)][crate::mmu::page_offset_of(address)]
}

/// `load_ok`, stated over the page map alone.
pub open spec fn pg_load_ok(p: Map<int, Seq<u8>>, address: u32, step: u32) -> bool {
    if step == 1 {
        pg_allocated(p, address)
    } else if step == 2 {
        pg_allocated(p, address) && pg_allocated(p, address.wrapping_add(1))
    } else {
        pg_allocated(p, address) && pg_allocated(p, address.wrapping_add(1)) && pg_allocated(
            p,
            address.wrapping_add(2),
        ) && pg_allocated(p, address.wrapping_add(2).wrapping_add(1))
    }
}

/// `loaded_value`, stated over the page map alone.
pub open spec fn pg_loaded_value(p: Map<int, Seq<u8>>, address: u32, step: u32) -> u32 {
    if step == 1 {
        pg_byte(p, address) as u32
    } else if step == 2 {
        (pg_byte(p, address) as u32) | ((pg_byte(p, address.wrapping_add(1)) as u32) << 8)
    } else {
        (pg_byte(p, address) as u32) | ((pg_byte(p, address.wrapping_add(1)) as u32) << 8) | ((
        pg_byte(p, address.wrapping_add(2)) as u32) << 16) | ((pg_byte(
            p,
            address.wrapping_add(2).wrapping_add(1),
        ) as u32) << 24)
    }
}

/// The page map after one byte is stored at an allocated address.
pub open spec fn pg_store_byte(p: Map<int, Seq<u8>>, address: u32, b: u8) -> Map<int, Seq<u8>> {
    p.insert(
        crate::mmu::page_id(address),
        p[crate::mmu::page_id(address)].update(crate::mmu::page_offset_of(address), b),
    )
}

/// The page map after a little-endian store of `step` bytes (1, 2 or 4),
/// written in ascending address order.
pub open spec fn pg_store(p: Map<int, Seq<u8>>, address: u32, step: u32, value: u32) -> Map<
    int,
    Seq<u8>,
> {
    if step == 1 {
        pg_store_byte(p, address, stored_byte(value, 0))
    } else if step == 2 {
        pg_store_byte(
            pg_store_byte(p, address, stored_byte(value, 0)),
            address.wrapping_add(1),
            stored_byte(value, 1),
        )
    } else {
        pg_store_byte(
            pg_store_byte(
                pg_store_byte(
                    pg_store_byte(p, address, stored_byte(value, 0)),
                    address.wrapping_add(1),
                    stored_byte(value, 1),
                ),
                address.wrapping_add(2),
                stored_byte(value, 2),
            ),
            address.wrapping_add(2).wrapping_add(1),
            stored_byte(value, 3),
        )
    }
}

/// The `i`-th little-endian byte of a stored value, for `i` in {0,..,3}.
pub open spec fn stored_byte(value: u32, i: int) -> u8 {
    if i == 0 {
        value as u8
    } else if i == 1 {
        (value >> 8) as u8
    } else if i == 2 {
        (value >> 16) as u8
    } else {
        (value >> 24) as u8
    }
}

/// What a write does on a hit.
#[derive(Clone, Copy, Debug, PartialEq, Eq, Structural)]
pub enum WriteHitPolicy {
    /// Mark the block dirty and write it down only on eviction.
    WriteBack,
    /// Propagate every write to the next level immediately.
    WriteThrough,
}

impl Default for WriteHitPolicy {
    /// Write-back is the default.
    fn default() -> (r: Self)
        ensures
            r == WriteHitPolicy::WriteBack,
    {
        WriteHitPolicy::WriteBack
    }
}

/// What a write does on a miss.
#[derive(Clone, Copy, Debug, PartialEq, Eq, Structural)]
pub enum WriteMissPolicy {
    /// Fetch the block into this level, then write.
    WriteAllocate,
    /// Pass the write down without fetching.
    WriteNoAllocate,
}

impl Default for WriteMissPolicy {
    /// Write-allocate is the default.
    fn default() -> (r: Self)
        ensures
            r == WriteMissPolicy::WriteAllocate,
    {
        WriteMissPolicy::WriteAllocate
    }
}

/// Whether an access reads or writes.
#[derive(Clone, Copy, Debug, PartialEq, Eq, Structural)]
pub enum AccessType {
    Read,
    Write,
}

} // verus!
