//! Memory management unit: a lazy two-level page table backing the full
//! 32-bit byte-addressed space.
//!
//! The mathematical model is a map from page number (the high 20 address
//! bits) to the 4096 bytes of that page.  A page is either absent — reads
//! and writes fail — or a full zero-initialized region.

use vstd::arithmetic::div_mod::lemma_fundamental_div_mod_converse_div;
use vstd::arithmetic::div_mod::lemma_fundamental_div_mod_converse_mod;
use vstd::map::*;
use vstd::prelude::*;

use crate::error::MemoryError;
use crate::error::MemoryErrorKind;
use crate::error::SimulatorError;
use crate::error::SimulatorResult;

verus! {

const WORD_WIDTH: usize = 32;

const FIRST_LEVEL_WIDTH: usize = 10;

const SECOND_LEVEL_WIDTH: usize = 10;

const FIRST_LEVEL_SIZE: usize = 1024;

const SECOND_LEVEL_SIZE: usize = 1024;

const PAGE_SIZE: usize = 4096;

/// The page number of an address: its high 20 bits.
pub open spec fn page_id(address: u32) -> int {
    (address >> 12) as int
}

/// The offset of an address within its page: its low 12 bits.
pub open spec fn page_offset_of(address: u32) -> int {
    (address & 0xfff) as int
}

/// A page of 4096 zero bytes.
pub open spec fn zero_page() -> Seq<u8> {
    Seq::new(4096, |i: int| 0u8)
}

/// Two addresses agree on page number and offset exactly when they are
/// equal.
pub proof fn lemma_address_injective(a1: u32, a2: u32)
    requires
        page_id(a1) == page_id(a2),
        page_offset_of(a1) == page_offset_of(a2),
    ensures
        a1 == a2,
{
    assert((a1 >> 12) == (a2 >> 12) && (a1 & 0xfff) == (a2 & 0xfff) ==> a1 == a2) by (bit_vector);
}

/// How an address decomposes into table indices: the page number splits
/// into first-level and second-level index, and the offset is in range.
proof fn lemma_locate(a: u32)
    ensures
        ((a >> 22) as int) == page_id(a) / 1024,
        (((a >> 12) & 0x3ff) as int) == page_id(a) % 1024,
        0 <= page_id(a) < 0x100000,
        ((a >> 22) as int) < 1024,
        (((a >> 12) & 0x3ff) as int) < 1024,
        0 <= page_offset_of(a) < 4096,
{
    assert((a >> 12) == (a >> 22) * 1024 + ((a >> 12) & 0x3ff) && (a >> 22) < 1024 && ((a >> 12)
        & 0x3ff) < 1024 && (a & 0xfff) < 4096 && (a >> 12) < 0x100000) by (bit_vector);
    assert(page_id(a) == ((a >> 22) as int) * 1024 + (((a >> 12) & 0x3ff) as int));
    lemma_fundamental_div_mod_converse_div(
        page_id(a),
        1024,
        (a >> 22) as int,
        ((a >> 12) & 0x3ff) as int,
    );
    lemma_fundamental_div_mod_converse_mod(
        page_id(a),
        1024,
        (a >> 22) as int,
        ((a >> 12) & 0x3ff) as int,
    );
}

/// A page number splits uniquely into its two table indices.
proof fn lemma_key_injective(k1: int, k2: int)
    requires
        k1 / 1024 == k2 / 1024,
        k1 % 1024 == k2 % 1024,
    ensures
        k1 == k2,
{
    vstd::arithmetic::div_mod::lemma_fundamental_div_mod(k1, 1024);
    vstd::arithmetic::div_mod::lemma_fundamental_div_mod(k2, 1024);
}

/// Memory management unit.
pub struct MMU {
    // data[x][y][z] stores the byte at (x << 22) | (y << 12) | z;
    // both table levels are allocated lazily.
    data: Vec<Option<Vec<Option<Vec<u8>>>>>,
}

impl MMU {
    /// Both table levels have their fixed sizes and every allocated page
    /// holds exactly 4096 bytes.
    pub closed spec fn wf(self) -> bool {
        &&& self.data.len() == 1024
        &&& forall|i: int|
            0 <= i < 1024 && self.data[i] is Some ==> (#[trigger] self.data[i])->Some_0.len()
                == 1024
        &&& forall|i: int, j: int|
            0 <= i < 1024 && self.data[i] is Some && 0 <= j < 1024 && (#[trigger] (
            self.data[i]->Some_0[j])) is Some ==> self.data[i]->Some_0[j]->Some_0.len() == 4096
    }

    /// The page stored under page number `k`, if allocated.
    spec fn page_at(self, k: int) -> Option<Seq<u8>> {
        if 0 <= k < 0x100000 && self.data[k / 1024] is Some && self.data[k / 1024]->Some_0[k
            % 1024] is Some {
            Some(self.data[k / 1024]->Some_0[k % 1024]->Some_0@)
        } else {
            None
        }
    }

    /// The model: a map from allocated page number to page contents.
    pub closed spec fn pages(self) -> Map<int, Seq<u8>> {
        Map::new(|k: int| self.page_at(k) is Some, |k: int| self.page_at(k)->Some_0)
    }

    /// A page is allocated at the given address.
    pub open spec fn spec_allocated(self, address: u32) -> bool {
        self.pages().contains_key(page_id(address))
    }

    /// The byte stored at the given address.
    pub open spec fn spec_byte(self, address: u32) -> u8 {
        self.pages()[page_id(address)][page_offset_of(address)]
    }

    /// Makes a new MMU with no page allocated.
    pub fn make() -> (r: Self)
        ensures
            r.wf(),
            r.pages() == Map::<int, Seq<u8>>::empty(),
    {
        let mut data: Vec<Option<Vec<Option<Vec<u8>>>>> = Vec::new();
        let mut i: usize = 0;
        while i < FIRST_LEVEL_SIZE
            invariant
                i <= 1024,
                data.len() == i,
                forall|x: int| 0 <= x < i ==> data[x] is None,
            decreases 1024 - i,
        {
            data.push(None);
            i = i + 1;
        }
        let r = Self { data };
        proof {
            assert(r.pages() =~= Map::<int, Seq<u8>>::empty());
        }
        r
    }

    /// The first-level index of the address.
    pub fn get_first_level_index(address: u32) -> (r: usize)
        ensures
            r == (address >> 22) as usize,
    {
        (address >> ((WORD_WIDTH - FIRST_LEVEL_WIDTH) as u32)) as usize
    }

    /// The second-level index of the address.
    pub fn get_second_level_index(address: u32) -> (r: usize)
        ensures
            r == ((address >> 12) & 0x3ff) as usize,
    {
        ((address >> ((WORD_WIDTH - FIRST_LEVEL_WIDTH - SECOND_LEVEL_WIDTH) as u32)) & ((
        SECOND_LEVEL_SIZE - 1) as u32)) as usize
    }

    /// The page offset of the address.
    pub fn get_page_offset(address: u32) -> (r: usize)
        ensures
            r == (address & 0xfff) as usize,
    {
        (address & ((PAGE_SIZE - 1) as u32)) as usize
    }

    /// Checks whether a page is allocated at the given address.
    pub fn page_exists(&self, address: u32) -> (r: bool)
        requires
            self.wf(),
        ensures
            r == self.spec_allocated(address),
    {
        proof {
            lemma_locate(address);
        }
        let i = Self::get_first_level_index(address);
        let j = Self::get_second_level_index(address);

        match &self.data[i] {
            Some(second_level) => second_level[j].is_some(),
            None => false,
        }
    }

    /// Allocates the page containing the given address, zero-filled.
    /// Returns true when the page was newly allocated, false when it
    /// already existed (in which case nothing changes).
    pub fn allocate_page(&mut self, address: u32) -> (r: bool)
        requires
            old(self).wf(),
        ensures
            final(self).wf(),
            r == !old(self).spec_allocated(address),
            r ==> final(self).pages() == old(self).pages().insert(page_id(address), zero_page()),
            !r ==> *final(self) == *old(self),
    {
        proof {
            lemma_locate(address);
        }
        if self.page_exists(address) {
            return false;
        }
        let i = Self::get_first_level_index(address);
        let j = Self::get_second_level_index(address);

        // Allocate the second level if it doesn't exist
        if self.data[i].is_none() {
            let mut second_level: Vec<Option<Vec<u8>>> = Vec::new();
            let mut x: usize = 0;
            while x < SECOND_LEVEL_SIZE
                invariant
                    x <= 1024,
                    second_level.len() == x,
                    forall|y: int| 0 <= y < x ==> second_level[y] is None,
                decreases 1024 - x,
            {
                second_level.push(None);
                x = x + 1;
            }
            self.data[i] = Some(second_level);
            proof {
                assert forall|k: int| old(self).page_at(k) == self.page_at(k) by {
                    if 0 <= k < 0x100000 && k / 1024 == i as int {
                        assert(self.page_at(k) is None);
                        assert(old(self).page_at(k) is None);
                    }
                }
                assert(self.pages() =~= old(self).pages());
            }
        }

        // Now the second level must exist
        let ghost mid = *self;
        let mut page: Vec<u8> = Vec::new();
        let mut z: usize = 0;
        while z < PAGE_SIZE
            invariant
                z <= 4096,
                page.len() == z,
                forall|y: int| 0 <= y < z ==> page[y] == 0u8,
            decreases 4096 - z,
        {
            page.push(0);
            z = z + 1;
        }
        proof {
            assert(page@ =~= zero_page());
        }
        match &mut self.data[i] {
            Some(second_level) => {
                second_level[j] = Some(page);
                proof {
                    let key = page_id(address);
                    assert forall|k: int| k != key implies mid.page_at(k) == self.page_at(k) by {
                        if 0 <= k < 0x100000 {
                            if k / 1024 == i as int && k % 1024 == j as int {
                                lemma_key_injective(k, key);
                            }
                        }
                    }
                    assert(self.page_at(key) == Some(zero_page()));
                    assert(self.pages() =~= mid.pages().insert(key, zero_page()));
                }
                true
            },
            None => {
                // Unreachable: the second level was just allocated
                vstd::pervasive::unreached()
            },
        }
    }

    /// Sets the byte at the given address.  Fails with `WriteUnallocated`
    /// when no page is mapped there, leaving the MMU unchanged.
    pub fn set8(&mut self, address: u32, byte: u8) -> (r: SimulatorResult<()>)
        requires
            old(self).wf(),
        ensures
            final(self).wf(),
            old(self).spec_allocated(address) ==> r == Ok::<(), SimulatorError>(())
                && final(self).pages() == old(self).pages().insert(
                page_id(address),
                old(self).pages()[page_id(address)].update(page_offset_of(address), byte),
            ),
            !old(self).spec_allocated(address) ==> r == Err::<(), SimulatorError>(
                SimulatorError::MemoryError(
                    MemoryError::AccessError { address, kind: MemoryErrorKind::WriteUnallocated },
                ),
            ) && *final(self) == *old(self),
    {
        proof {
            lemma_locate(address);
        }
        if !self.page_exists(address) {
            return Err(
                SimulatorError::MemoryError(
                    MemoryError::AccessError { address, kind: MemoryErrorKind::WriteUnallocated },
                ),
            );
        }
        let i = Self::get_first_level_index(address);
        let j = Self::get_second_level_index(address);
        let k = Self::get_page_offset(address);

        match &mut self.data[i] {
            Some(second_level) => {
                match &mut second_level[j] {
                    Some(page) => {
                        page[k] = byte;
                        proof {
                            let key = page_id(address);
                            assert forall|k2: int|
                                k2 != key implies old(self).page_at(k2) == self.page_at(k2) by {
                                if 0 <= k2 < 0x100000 {
                                    if k2 / 1024 == i as int && k2 % 1024 == j as int {
                                        lemma_key_injective(k2, key);
                                    }
                                }
                            }
                            assert(self.pages() =~= old(self).pages().insert(
                                key,
                                old(self).pages()[key].update(page_offset_of(address), byte),
                            ));
                        }
                        Ok(())
                    },
                    None => vstd::pervasive::unreached(),
                }
            },
            None => vstd::pervasive::unreached(),
        }
    }

    /// Gets the byte at the given address.  Fails with `ReadUnallocated`
    /// when no page is mapped there.
    pub fn get8(&mut self, address: u32) -> (r: SimulatorResult<u8>)
        requires
            old(self).wf(),
        ensures
            *final(self) == *old(self),
            old(self).spec_allocated(address) ==> r == Ok::<u8, SimulatorError>(
                old(self).spec_byte(address),
            ),
            !old(self).spec_allocated(address) ==> r == Err::<u8, SimulatorError>(
                SimulatorError::MemoryError(
                    MemoryError::AccessError { address, kind: MemoryErrorKind::ReadUnallocated },
                ),
            ),
    {
        proof {
            lemma_locate(address);
        }
        let i = Self::get_first_level_index(address);
        let j = Self::get_second_level_index(address);
        let k = Self::get_page_offset(address);

        match &self.data[i] {
            Some(second_level) => {
                match &second_level[j] {
                    Some(page) => {
                        return Ok(page[k]);
                    },
                    None => {},
                }
            },
            None => {},
        }

        Err(
            SimulatorError::MemoryError(
                MemoryError::AccessError { address, kind: MemoryErrorKind::ReadUnallocated },
            ),
        )
    }

    /// Sets a 16-bit value, little-endian, at a 2-byte-aligned address.
    /// Fails with `Alignment` on a misaligned address and with
    /// `WriteUnallocated` on an unmapped page, leaving the MMU unchanged.
    pub fn set16(&mut self, address: u32, value: u16) -> (r: SimulatorResult<()>)
        requires
            old(self).wf(),
        ensures
            final(self).wf(),
            address % 2 != 0 ==> r == Err::<(), SimulatorError>(
                SimulatorError::MemoryError(MemoryError::AlignmentError(address, 2)),
            ) && *final(self) == *old(self),
            address % 2 == 0 && !old(self).spec_allocated(address) ==> r == Err::<
                (),
                SimulatorError,
            >(
                SimulatorError::MemoryError(
                    MemoryError::AccessError { address, kind: MemoryErrorKind::WriteUnallocated },
                ),
            ) && *final(self) == *old(self),
            address % 2 == 0 && old(self).spec_allocated(address) ==> r == Ok::<
                (),
                SimulatorError,
            >(()) && final(self).pages() == old(self).pages().insert(
                page_id(address),
                old(self).pages()[page_id(address)].update(
                    page_offset_of(address),
                    value as u8,
                ).update(page_offset_of(address) + 1, (value >> 8) as u8),
            ),
    {
        if address % 2 != 0 {
            return Err(SimulatorError::MemoryError(MemoryError::AlignmentError(address, 2)));
        }
        proof {
            lemma_halfword_span(address);
        }
        match self.set8(address, value as u8) {
            Ok(()) => {},
            Err(e) => {
                return Err(e);
            },
        }
        match self.set8(address + 1, (value >> 8) as u8) {
            Ok(()) => {},
            Err(e) => {
                return Err(e);
            },
        }
        proof {
            let key = page_id(address);
            assert(self.pages() =~= old(self).pages().insert(
                key,
                old(self).pages()[key].update(page_offset_of(address), value as u8).update(
                    page_offset_of(address) + 1,
                    (value >> 8) as u8,
                ),
            ));
        }
        Ok(())
    }

    /// Gets a 16-bit value, little-endian, from a 2-byte-aligned address.
    pub fn get16(&mut self, address: u32) -> (r: SimulatorResult<u16>)
        requires
            old(self).wf(),
        ensures
            *final(self) == *old(self),
            address % 2 != 0 ==> r == Err::<u16, SimulatorError>(
                SimulatorError::MemoryError(MemoryError::AlignmentError(address, 2)),
            ),
            address % 2 == 0 && !old(self).spec_allocated(address) ==> r == Err::<
                u16,
                SimulatorError,
            >(
                SimulatorError::MemoryError(
                    MemoryError::AccessError { address, kind: MemoryErrorKind::ReadUnallocated },
                ),
            ),
            address % 2 == 0 && old(self).spec_allocated(address) ==> r == Ok::<
                u16,
                SimulatorError,
            >(
                (old(self).spec_byte(address) as u16) | ((old(self).spec_byte(
                    (address + 1) as u32,
                ) as u16) << 8),
            ),
    {
        if address % 2 != 0 {
            return Err(SimulatorError::MemoryError(MemoryError::AlignmentError(address, 2)));
        }
        proof {
            lemma_halfword_span(address);
        }
        let low = match self.get8(address) {
            Ok(b) => b as u16,
            Err(e) => {
                return Err(e);
            },
        };
        let high = match self.get8(address + 1) {
            Ok(b) => b as u16,
            Err(e) => {
                return Err(e);
            },
        };

        Ok(low | (high << 8))
    }

    /// Sets a 32-bit value, little-endian, at a 4-byte-aligned address.
    pub fn set32(&mut self, address: u32, value: u32) -> (r: SimulatorResult<()>)
        requires
            old(self).wf(),
        ensures
            final(self).wf(),
            address % 4 != 0 ==> r == Err::<(), SimulatorError>(
                SimulatorError::MemoryError(MemoryError::AlignmentError(address, 4)),
            ) && *final(self) == *old(self),
            address % 4 == 0 && !old(self).spec_allocated(address) ==> r == Err::<
                (),
                SimulatorError,
            >(
                SimulatorError::MemoryError(
                    MemoryError::AccessError { address, kind: MemoryErrorKind::WriteUnallocated },
                ),
            ) && *final(self) == *old(self),
            address % 4 == 0 && old(self).spec_allocated(address) ==> r == Ok::<
                (),
                SimulatorError,
            >(()) && final(self).pages() == old(self).pages().insert(
                page_id(address),
                old(self).pages()[page_id(address)].update(
                    page_offset_of(address),
                    value as u8,
                ).update(page_offset_of(address) + 1, (value >> 8) as u8).update(
                    page_offset_of(address) + 2,
                    (value >> 16) as u8,
                ).update(page_offset_of(address) + 3, (value >> 24) as u8),
            ),
    {
        if address % 4 != 0 {
            return Err(SimulatorError::MemoryError(MemoryError::AlignmentError(address, 4)));
        }
        proof {
            lemma_word_span(address);
            let value = value;
            assert((value as u16) as u8 == value as u8 && ((value as u16) >> 8) as u8 == (value
                >> 8) as u8 && ((value >> 16) as u16) as u8 == (value >> 16) as u8 && (((value
                >> 16) as u16) >> 8) as u8 == (value >> 24) as u8) by (bit_vector);
        }
        match self.set16(address, value as u16) {
            Ok(()) => {},
            Err(e) => {
                return Err(e);
            },
        }
        match self.set16(address + 2, (value >> 16) as u16) {
            Ok(()) => {},
            Err(e) => {
                return Err(e);
            },
        }
        proof {
            let key = page_id(address);
            assert(self.pages() =~= old(self).pages().insert(
                key,
                old(self).pages()[key].update(page_offset_of(address), value as u8).update(
                    page_offset_of(address) + 1,
                    (value >> 8) as u8,
                ).update(page_offset_of(address) + 2, (value >> 16) as u8).update(
                    page_offset_of(address) + 3,
                    (value >> 24) as u8,
                ),
            ));
        }
        Ok(())
    }

    /// Gets a 32-bit value, little-endian, from a 4-byte-aligned address.
    pub fn get32(&mut self, address: u32) -> (r: SimulatorResult<u32>)
        requires
            old(self).wf(),
        ensures
            *final(self) == *old(self),
            address % 4 != 0 ==> r == Err::<u32, SimulatorError>(
                SimulatorError::MemoryError(MemoryError::AlignmentError(address, 4)),
            ),
            address % 4 == 0 && !old(self).spec_allocated(address) ==> r == Err::<
                u32,
                SimulatorError,
            >(
                SimulatorError::MemoryError(
                    MemoryError::AccessError { address, kind: MemoryErrorKind::ReadUnallocated },
                ),
            ),
            address % 4 == 0 && old(self).spec_allocated(address) ==> r == Ok::<
                u32,
                SimulatorError,
            >(
                (old(self).spec_byte(address) as u32) | ((old(self).spec_byte(
                    (address + 1) as u32,
                ) as u32) << 8) | ((old(self).spec_byte((address + 2) as u32) as u32) << 16) | ((
                old(self).spec_byte((address + 3) as u32) as u32) << 24),
            ),
    {
        if address % 4 != 0 {
            return Err(SimulatorError::MemoryError(MemoryError::AlignmentError(address, 4)));
        }
        proof {
            lemma_word_span(address);
        }
        let low = match self.get16(address) {
            Ok(v) => v as u32,
            Err(e) => {
                return Err(e);
            },
        };
        let high = match self.get16(address + 2) {
            Ok(v) => v as u32,
            Err(e) => {
                return Err(e);
            },
        };
        proof {
            let b0 = old(self).spec_byte(address);
            let b1 = old(self).spec_byte((address + 1) as u32);
            let b2 = old(self).spec_byte((address + 2) as u32);
            let b3 = old(self).spec_byte((address + 3) as u32);
            assert(((b0 as u16) | ((b1 as u16) << 8)) as u32 | ((((b2 as u16) | ((b3 as u16) << 8))
                as u32) << 16) == (b0 as u32) | ((b1 as u32) << 8) | ((b2 as u32) << 16) | ((
            b3 as u32) << 24)) by (bit_vector);
        }
        Ok(low | (high << 16))
    }

    /// Returns every allocated page as a pair of its base address and its
    /// 4096 bytes.
    pub fn dump(&self) -> (r: Vec<(u32, Vec<u8>)>)
        requires
            self.wf(),
        ensures
            forall|idx: int|
                0 <= idx < r.len() ==> {
                    &&& page_offset_of((#[trigger] r[idx]).0) == 0
                    &&& self.pages().contains_key(page_id(r[idx].0))
                    &&& r[idx].1@ == self.pages()[page_id(r[idx].0)]
                },
    {
        let mut result: Vec<(u32, Vec<u8>)> = Vec::new();

        let mut i: usize = 0;
        while i < FIRST_LEVEL_SIZE
            invariant
                self.wf(),
                i <= 1024,
                forall|idx: int|
                    0 <= idx < result.len() ==> {
                        &&& page_offset_of((#[trigger] result[idx]).0) == 0
                        &&& self.pages().contains_key(page_id(result[idx].0))
                        &&& result[idx].1@ == self.pages()[page_id(result[idx].0)]
                    },
            decreases 1024 - i,
        {
            match &self.data[i] {
                Some(second_level) => {
                    let mut j: usize = 0;
                    while j < SECOND_LEVEL_SIZE
                        invariant
                            self.wf(),
                            i < 1024,
                            j <= 1024,
                            self.data[i as int] is Some,
                            second_level == self.data[i as int]->Some_0,
                            forall|idx: int|
                                0 <= idx < result.len() ==> {
                                    &&& page_offset_of((#[trigger] result[idx]).0) == 0
                                    &&& self.pages().contains_key(page_id(result[idx].0))
                                    &&& result[idx].1@ == self.pages()[page_id(result[idx].0)]
                                },
                        decreases 1024 - j,
                    {
                        match &second_level[j] {
                            Some(page) => {
                                let base_address = ((i as u32) << 22) | ((j as u32) << 12);
                                proof {
                                    lemma_base_address(i as u32, j as u32);
                                    lemma_fundamental_div_mod_converse_div(
                                        (i as int) * 1024 + (j as int),
                                        1024,
                                        i as int,
                                        j as int,
                                    );
                                    lemma_fundamental_div_mod_converse_mod(
                                        (i as int) * 1024 + (j as int),
                                        1024,
                                        i as int,
                                        j as int,
                                    );
                                }
                                let mut bytes: Vec<u8> = Vec::new();
                                let mut k: usize = 0;
                                let page_len = page.len();
                                while k < page_len
                                    invariant
                                        k <= page_len,
                                        page_len == page.len(),
                                        bytes@ == page@.subrange(0, k as int),
                                    decreases page_len - k,
                                {
                                    bytes.push(page[k]);
                                    proof {
                                        assert(bytes@ =~= page@.subrange(0, k + 1));
                                    }
                                    k = k + 1;
                                }
                                proof {
                                    assert(bytes@ =~= page@);
                                }
                                result.push((base_address, bytes));
                            },
                            None => {},
                        }
                        j = j + 1;
                    }
                },
                None => {},
            }
            i = i + 1;
        }

        result
    }
}

/// An even address and its successor share a page, at adjacent offsets.
proof fn lemma_halfword_span(a: u32)
    requires
        a % 2 == 0,
    ensures
        a < 0xffffffffu32,
        page_id((a + 1) as u32) == page_id(a),
        page_offset_of((a + 1) as u32) == page_offset_of(a) + 1,
        (a + 1) as u32 % 2 != 0,
{
    assert(a % 2 == 0 ==> a != 0xffffffffu32 && ((a + 1) as u32) >> 12 == a >> 12 && (((a
        + 1) as u32) & 0xfff) == (a & 0xfff) + 1 && ((a + 1) as u32) % 2 != 0) by (bit_vector);
}

/// A 4-byte-aligned address and its three successors share a page, at
/// consecutive offsets, and the two halfword bases are aligned.
proof fn lemma_word_span(a: u32)
    requires
        a % 4 == 0,
    ensures
        a <= 0xfffffffcu32,
        a % 2 == 0,
        (a + 2) as u32 % 2 == 0,
        page_id((a + 1) as u32) == page_id(a),
        page_id((a + 2) as u32) == page_id(a),
        page_id((a + 3) as u32) == page_id(a),
        page_offset_of((a + 1) as u32) == page_offset_of(a) + 1,
        page_offset_of((a + 2) as u32) == page_offset_of(a) + 2,
        page_offset_of((a + 3) as u32) == page_offset_of(a) + 3,
        (a + 2) as u32 + 1 == a + 3,
{
    assert(a % 4 == 0 ==> a <= 0xfffffffcu32 && a % 2 == 0 && ((a + 2) as u32) % 2 == 0 && ((a
        + 1) as u32) >> 12 == a >> 12 && ((a + 2) as u32) >> 12 == a >> 12 && ((a + 3) as u32) >> 12
        == a >> 12 && (((a + 1) as u32) & 0xfff) == (a & 0xfff) + 1 && (((a + 2) as u32) & 0xfff)
        == (a & 0xfff) + 2 && (((a + 3) as u32) & 0xfff) == (a & 0xfff) + 3) by (bit_vector);
}

/// The base address assembled from two table indices decomposes back into
/// them, with page offset zero.
proof fn lemma_base_address(i: u32, j: u32)
    requires
        i < 1024,
        j < 1024,
    ensures
        page_id(((i << 22) | (j << 12)) as u32) == (i as int) * 1024 + (j as int),
        page_offset_of(((i << 22) | (j << 12)) as u32) == 0,
{
    assert(i < 1024 && j < 1024 ==> ((i << 22) | (j << 12)) >> 12 == i * 1024 + j && (((i << 22) | (
    j << 12)) & 0xfff) == 0) by (bit_vector);
}

/// In a well-formed MMU every allocated page holds exactly 4096 bytes.
pub proof fn lemma_pages_are_full(m: MMU)
    requires
        m.wf(),
    ensures
        forall|k: int| #[trigger]
            m.pages().contains_key(k) ==> m.pages()[k].len() == 4096,
{
}

/// Allocation followed by a read: a fresh page holds zero at every offset,
/// so a byte read at any address of the newly allocated page returns 0.
pub proof fn lemma_allocate_then_read(pages: Map<int, Seq<u8>>, a: u32)
    ensures
        pages.insert(page_id(a), zero_page())[page_id(a)][page_offset_of(a)] == 0,
{
    lemma_locate(a);
}

/// A write followed by a read at the same address yields the written byte.
pub proof fn lemma_write_then_read(pages: Map<int, Seq<u8>>, a: u32, v: u8)
    requires
        pages.contains_key(page_id(a)),
        pages[page_id(a)].len() == 4096,
    ensures
        pages.insert(page_id(a), pages[page_id(a)].update(page_offset_of(a), v))[page_id(
            a,
        )][page_offset_of(a)] == v,
{
    lemma_locate(a);
}

/// How a single-byte write reads back, address by address: the written
/// address holds the new byte, every other allocated address is unchanged,
/// and no allocation changes.
pub proof fn lemma_set8_pointwise(pre: MMU, post: MMU, address: u32, byte: u8)
    requires
        pre.wf(),
        pre.spec_allocated(address),
        post.pages() == pre.pages().insert(
            page_id(address),
            pre.pages()[page_id(address)].update(page_offset_of(address), byte),
        ),
    ensures
        forall|a2: u32| post.spec_allocated(a2) == pre.spec_allocated(a2),
        post.spec_byte(address) == byte,
        forall|a2: u32|
            a2 != address && pre.spec_allocated(a2) ==> post.spec_byte(a2) == pre.spec_byte(a2),
{
    lemma_locate(address);
    lemma_pages_are_full(pre);
    assert forall|a2: u32|
        a2 != address && pre.spec_allocated(a2) implies post.spec_byte(a2) == pre.spec_byte(
        a2,
    ) by {
        lemma_locate(a2);
        if page_id(a2) == page_id(address) {
            if page_offset_of(a2) == page_offset_of(address) {
                lemma_address_injective(a2, address);
            }
        }
    }
}

/// A 16-bit little-endian pair widens to the same 32-bit value whether
/// assembled in 16 or in 32 bits.
pub proof fn lemma_half_flat(b0: u8, b1: u8)
    ensures
        (((b0 as u16) | ((b1 as u16) << 8)) as u32) == (b0 as u32) | ((b1 as u32) << 8),
{
    assert((((b0 as u16) | ((b1 as u16) << 8)) as u32) == (b0 as u32) | ((b1 as u32) << 8))
        by (bit_vector);
}

/// The four little-endian bytes of a 32-bit value, as its 16-bit halves
/// produce them.
pub proof fn lemma_word_bytes(value: u32)
    ensures
        (value as u16) as u8 == value as u8,
        ((value as u16) >> 8) as u8 == (value >> 8) as u8,
        ((value >> 16) as u16) as u8 == (value >> 16) as u8,
        (((value >> 16) as u16) >> 8) as u8 == (value >> 24) as u8,
{
    assert((value as u16) as u8 == value as u8 && ((value as u16) >> 8) as u8 == (value >> 8) as u8
        && ((value >> 16) as u16) as u8 == (value >> 16) as u8 && (((value >> 16) as u16) >> 8)
        as u8 == (value >> 24) as u8) by (bit_vector);
}

/// Reassembling a 32-bit value from two little-endian halves equals
/// reassembling it from its four bytes.
pub proof fn lemma_word_from_halves(b0: u8, b1: u8, b2: u8, b3: u8)
    ensures
        (((b0 as u16) | ((b1 as u16) << 8)) as u32) | (((((b2 as u16) | ((b3 as u16) << 8))
            as u32)) << 16) == (b0 as u32) | ((b1 as u32) << 8) | ((b2 as u32) << 16) | ((
        b3 as u32) << 24),
{
    assert((((b0 as u16) | ((b1 as u16) << 8)) as u32) | (((((b2 as u16) | ((b3 as u16) << 8))
        as u32)) << 16) == (b0 as u32) | ((b1 as u32) << 8) | ((b2 as u32) << 16) | ((
    b3 as u32) << 24)) by (bit_vector);
}

/// Word round trip: reassembling the four little-endian bytes of a value
/// gives the value back, so an aligned 32-bit write followed by a 32-bit
/// read returns what was written.
pub proof fn lemma_word_round_trip(value: u32)
    ensures
        ((value as u8) as u32) | ((((value >> 8) as u8) as u32) << 8) | ((((value
            >> 16) as u8) as u32) << 16) | ((((value >> 24) as u8) as u32) << 24) == value,
{
    assert(((value as u8) as u32) | ((((value >> 8) as u8) as u32) << 8) | ((((value
        >> 16) as u8) as u32) << 16) | ((((value >> 24) as u8) as u32) << 24) == value)
        by (bit_vector);
}

} // verus!
