//! Preparing the CPU and memory for execution: stack initialization and
//! loading of program segments.
//!
//! The surrounding layer parses the image format and hands each loadable
//! segment over as plain values: a virtual address, a memory size, and
//! the file bytes (the remainder of the segment is zero-filled).

use vstd::prelude::*;

use crate::cpu::CPUState;
use crate::error::ElfError;
use crate::error::SimulatorError;
use crate::error::SimulatorResult;
use crate::mmu::MMU;

verus! {

/// One loadable program segment, as plain values.
pub struct Segment {
    /// Where the segment starts in the simulated address space.
    pub virtual_address: u32,
    /// How many bytes the segment occupies in memory.
    pub memory_size: u32,
    /// The leading bytes backed by the image file; the rest is zero.
    pub data: Vec<u8>,
}

impl Segment {
    /// The file bytes never exceed the memory size.
    pub open spec fn wf(self) -> bool {
        self.data.len() <= self.memory_size
    }

    /// The segment covers the address.
    pub open spec fn covers(self, a: u32) -> bool {
        self.virtual_address <= a < self.virtual_address + self.memory_size
    }

    /// The byte the segment stores at the address: a file byte in the
    /// leading part, zero in the rest.
    pub open spec fn byte_at(self, a: u32) -> u8 {
        if a - self.virtual_address < self.data.len() {
            self.data[a - self.virtual_address]
        } else {
            0
        }
    }

    /// The segment fits the 32-bit address space.
    pub open spec fn fits(self) -> bool {
        self.virtual_address + self.memory_size <= 0x1_0000_0000
    }
}

/// The address is covered by segment `i` and by no other segment.
pub open spec fn covered_only_by(segments: Seq<Segment>, i: int, a: u32) -> bool {
    &&& 0 <= i < segments.len()
    &&& segments[i].covers(a)
    &&& forall|j: int| 0 <= j < segments.len() && j != i ==> !(#[trigger] segments[j]).covers(a)
}


/// Allocates the page of `address` if none is mapped yet: afterwards the
/// address is backed, and every previously allocated byte is unchanged.
fn ensure_page(mem: &mut MMU, address: u32)
    requires
        old(mem).wf(),
    ensures
        final(mem).wf(),
        final(mem).spec_allocated(address),
        forall|a: u32| #![all_triggers]
            old(mem).spec_allocated(a) ==> final(mem).spec_allocated(a) && final(mem).spec_byte(a)
                == old(mem).spec_byte(a),
{
    if !mem.page_exists(address) {
        let _ = mem.allocate_page(address);
        proof {
            assert forall|a: u32|
                old(mem).spec_allocated(a) implies mem.spec_allocated(a) && mem.spec_byte(a) == old(
                mem,
            ).spec_byte(a) by {
                assert(crate::mmu::page_id(a) != crate::mmu::page_id(address));
                assert(mem.pages()[crate::mmu::page_id(a)] == old(mem).pages()[
                    crate::mmu::page_id(a)
                ]);
            }
        }
    }
}

/// Initializes the stack: allocates and zeroes the pages covering
/// `(stack_base - stack_size, stack_base]`, records the bounds, and sets
/// the stack pointer.
pub fn set_stack(cpu: &mut CPUState, mem: &mut MMU, stack_base: u32, stack_size: u32) -> (r:
    SimulatorResult<()>)
    requires
        old(cpu).wf(),
        old(mem).wf(),
        stack_size <= stack_base,
        stack_base < 0xffffffffu32,
    ensures
        final(cpu).wf(),
        final(mem).wf(),
        r is Ok,
        final(cpu).stack_base == stack_base,
        final(cpu).stack_size == stack_size,
        final(cpu).gpr.len() == 32,
        final(cpu).gpr[2].value() == stack_base,
        forall|i: int| 0 <= i < 32 && i != 2 ==> final(cpu).gpr[i] == old(cpu).gpr[i],
        final(cpu).pc == old(cpu).pc,
        final(cpu).policy == old(cpu).policy,
        final(cpu).history == old(cpu).history,
        forall|a: u32|
            stack_base - stack_size < a <= stack_base ==> final(mem).spec_allocated(a) && final(mem).spec_byte(a) == 0,
        forall|a: u32| old(mem).spec_allocated(a) ==> final(mem).spec_allocated(a),
{
    cpu.stack_base = stack_base;
    cpu.stack_size = stack_size;

    // Initialize the stack pointer
    let reg = &mut cpu.gpr[2];
    reg.write(stack_base);
    proof {
        assert(final(cpu).gpr@ =~= old(cpu).gpr@.update(
            2,
            (crate::cpu::Register { data: stack_base }),
        ));
    }

    // Allocate and zero the stack memory
    let low = stack_base - stack_size + 1;
    let mut address: u32 = low;
    while address <= stack_base
        invariant
            mem.wf(),
            low == stack_base - stack_size + 1,
            stack_base < 0xffffffffu32,
            low <= address <= stack_base + 1,
            forall|a: u32| low <= a < address ==> mem.spec_allocated(a) && mem.spec_byte(a) == 0,
            forall|a: u32| old(mem).spec_allocated(a) ==> mem.spec_allocated(a),
        decreases stack_base + 1 - address,
    {
        let ghost pre = *mem;
        let _ = mem.allocate_page(address);
        proof {
            assert forall|a: u32|
                low <= a < address implies mem.spec_allocated(a) && mem.spec_byte(a) == 0 by {
                assert(pre.spec_allocated(a));
            }
        }
        let ghost pre2 = *mem;
        match mem.set8(address, 0) {
            Ok(()) => {},
            Err(_) => {
                proof {
                    assert(false);
                }
            },
        }
        proof {
            crate::mmu::lemma_set8_pointwise(pre2, *mem, address, 0);
        }
        address = address + 1;
    }

    Ok(())
}

/// Loads program segments into memory and sets the entry point: every
/// covered page is allocated, file bytes are written and the remainder is
/// zeroed.  A segment that does not fit the 32-bit address space fails
/// with `AddressOutOfBounds`.
#[verifier::loop_isolation(false)]
pub fn load_elf(cpu: &mut CPUState, mem: &mut MMU, entry: u32, segments: &Vec<Segment>) -> (r:
    SimulatorResult<()>)
    requires
        old(cpu).wf(),
        old(mem).wf(),
        forall|i: int| 0 <= i < segments.len() ==> (#[trigger] segments[i]).wf(),
    ensures
        final(cpu).wf(),
        final(mem).wf(),
        final(cpu).pc.value() == entry,
        *final(cpu) == (CPUState { pc: final(cpu).pc, ..*old(cpu) }),
        (forall|i: int| 0 <= i < segments.len() ==> (#[trigger] segments[i]).fits()) <==> r is Ok,
        r is Err ==> r->Err_0 matches SimulatorError::ElfLoadError(ElfError::AddressOutOfBounds(_)),
        r is Ok ==> forall|i: int, a: u32|
            0 <= i < segments.len() && (#[trigger] segments[i].covers(a)) ==> final(mem).spec_allocated(a),
        r is Ok ==> forall|i: int, a: u32|
            covered_only_by(segments@, i, a) ==> final(mem).spec_byte(a) == (
            #[trigger] segments[i].byte_at(a)),
    {
        // Set the program entry
        cpu.pc.write(entry);

        let mut i: usize = 0;
        while i < segments.len()
            invariant
                cpu.wf(),
                cpu.pc.value() == entry,
                *cpu == (CPUState { pc: cpu.pc, ..*old(cpu) }),
                mem.wf(),
                i <= segments.len(),
                forall|x: int| 0 <= x < segments.len() ==> (#[trigger] segments[x]).wf(),
                forall|x: int| 0 <= x < i ==> (#[trigger] segments[x]).fits(),
                forall|x: int, a: u32| #![all_triggers]
                    0 <= x < i && segments[x].covers(a) ==> mem.spec_allocated(a),
                forall|x: int, a: u32| #![all_triggers]
                    0 <= x < i && covered_only_by(segments@, x, a) ==> mem.spec_byte(a)
                        == segments[x].byte_at(a),
            decreases segments.len() - i,
        {
            let segment = &segments[i];
            let memory_size = segment.memory_size;
            let virtual_address = segment.virtual_address;

            // The segment must fit the 32-bit address space
            if memory_size > 0 && virtual_address > u32::MAX - (memory_size - 1) {
                return Err(
                    SimulatorError::ElfLoadError(ElfError::AddressOutOfBounds(virtual_address)),
                );
            }
            let ghost pre_seg = *mem;

            let mut offset: u32 = 0;
            while offset < memory_size
                invariant
                    mem.wf(),
                    (i as int) < segments.len(),
                    segment == segments[i as int],
                    segment.wf(),
                    memory_size == segment.memory_size,
                    virtual_address == segment.virtual_address,
                    virtual_address + memory_size <= 0x1_0000_0000,
                    offset <= memory_size,
                    forall|a: u32| #![all_triggers]
                        virtual_address <= a < virtual_address + offset ==> mem.spec_allocated(a)
                            && mem.spec_byte(a) == segment.byte_at(a),
                    forall|a: u32| #![all_triggers]
                        pre_seg.spec_allocated(a) ==> mem.spec_allocated(a),
                    forall|a: u32| #![all_triggers]
                        !segment.covers(a) && pre_seg.spec_allocated(a) ==> mem.spec_byte(a)
                            == pre_seg.spec_byte(a),
                decreases memory_size - offset,
            {
                let address = virtual_address + offset;
                let ghost pre = *mem;

                // Allocate the page if it does not exist yet
                ensure_page(mem, address);

                // A file byte in the leading part, zero in the rest
                let byte = if (offset as usize) < segment.data.len() {
                    segment.data[offset as usize]
                } else {
                    0
                };

                let ghost pre2 = *mem;
                match mem.set8(address, byte) {
                    Ok(()) => {},
                    Err(_) => {
                        proof {
                            assert(false);
                        }
                    },
                }
                proof {
                    crate::mmu::lemma_set8_pointwise(pre2, *mem, address, byte);
                    assert forall|a: u32|
                        virtual_address <= a < virtual_address + offset + 1 implies
                        mem.spec_allocated(a) && mem.spec_byte(a) == segment.byte_at(a) by {
                        if a == address {
                            assert(mem.spec_byte(address) == byte);
                            assert(segment.byte_at(address) == byte);
                        } else {
                            assert(pre2.spec_allocated(a) && pre2.spec_byte(a) == segment.byte_at(
                                a,
                            ));
                        }
                    }
                }

                offset = offset + 1;
            }

            proof {
                assert forall|x: int, a: u32|
                    0 <= x < i + 1 && covered_only_by(segments@, x, a) implies mem.spec_byte(a)
                    == (#[trigger] segments[x].byte_at(a)) by {
                    if x < i {
                        // Untouched by this segment: uniquely covered by an
                        // earlier one, so outside this segment's range
                        assert(!segment.covers(a));
                        assert(pre_seg.spec_allocated(a));
                    } else {
                        assert(segment.covers(a));
                    }
                }
            }

            i = i + 1;
        }

        Ok(())
    }

} // verus!
