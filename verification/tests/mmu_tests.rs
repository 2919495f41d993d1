use rvsim::error::MemoryError;
use rvsim::error::MemoryErrorKind;
use rvsim::error::SimulatorError;
use rvsim::mmu::MMU;

#[test]
fn test_page_exists() {
    let mut memory = MMU::make();
    let address = 0x12345678;

    assert!(!memory.page_exists(address));

    memory.allocate_page(address);

    assert!(memory.page_exists(address));
}

#[test]
fn test_allocate_page() {
    let mut memory = MMU::make();
    let address = 0x12345678;

    assert!(memory.allocate_page(address));
    assert!(!memory.allocate_page(address));
}

#[test]
fn test_set8() {
    let mut memory = MMU::make();
    let address = 0x12345678;
    let byte = 0xAB;

    memory.allocate_page(address);
    let _ = memory.set8(address, byte);

    let res = memory.get8(address);
    assert!(res.is_ok());
    assert_eq!(res.unwrap(), byte);
}

#[test]
fn test_get8() {
    let mut memory = MMU::make();
    let address = 0x12345678;
    let byte = 0xAB;

    memory.allocate_page(address);
    let _ = memory.set8(address, byte);

    let res = memory.get8(address);
    assert!(res.is_ok());
    assert_eq!(res.unwrap(), byte);
}

#[test]
fn test_by_hand() {
    let mut memory = MMU::make();

    assert!(!memory.page_exists(0x1000));
    assert!(memory.allocate_page(0x1000));
    assert!(!memory.page_exists(0x2000));

    {
        // set_byte and get_byte

        // Make a string "Birds aren't real"
        let s: &[u8] = b"Birds aren't real";

        // Insert all bytes into memory,
        // starting with 0x1000
        for i in 0..s.len() {
            // Get the current address
            let current_address = 0x1000_u32 + (i as u32);
            let res = memory.set8(current_address, s[i]);
            assert!(res.is_ok());
        }

        // Ensure content
        for i in 0..s.len() {
            // Get the current address
            let current_address = 0x1000_u32 + (i as u32);
            let res = memory.get8(current_address);
            assert!(res.is_ok());
        }
    }
}

#[test]
fn mmu_allocate_then_read_zero() {
    let mut memory = MMU::make();
    let address = 0xDEADB000;
    assert!(memory.allocate_page(address));
    assert_eq!(memory.get8(address).unwrap(), 0);
    assert_eq!(memory.get8(address + 0xFFF).unwrap(), 0);
}

#[test]
fn mmu_write_then_read() {
    let mut memory = MMU::make();
    let address = 0x00001234;
    memory.allocate_page(address);
    assert!(memory.set8(address, 0x5A).is_ok());
    assert_eq!(memory.get8(address).unwrap(), 0x5A);
    // The neighbor is untouched
    assert_eq!(memory.get8(address + 1).unwrap(), 0);
}

#[test]
fn mmu_read_unallocated_fails() {
    let mut memory = MMU::make();
    let r = memory.get8(0x400);
    assert_eq!(
        r,
        Err(SimulatorError::MemoryError(MemoryError::AccessError {
            address: 0x400,
            kind: MemoryErrorKind::ReadUnallocated,
        }))
    );
    let w = memory.set8(0x400, 1);
    assert_eq!(
        w,
        Err(SimulatorError::MemoryError(MemoryError::AccessError {
            address: 0x400,
            kind: MemoryErrorKind::WriteUnallocated,
        }))
    );
}

#[test]
fn mmu_set16_misaligned_fails() {
    let mut memory = MMU::make();
    memory.allocate_page(0x1000);
    let r = memory.set16(0x1001, 0xBEEF);
    assert_eq!(
        r,
        Err(SimulatorError::MemoryError(MemoryError::AlignmentError(0x1001, 2)))
    );
    let g = memory.get16(0x1003);
    assert_eq!(
        g,
        Err(SimulatorError::MemoryError(MemoryError::AlignmentError(0x1003, 2)))
    );
}

#[test]
fn mmu_get32_misaligned_fails() {
    let mut memory = MMU::make();
    memory.allocate_page(0x1000);
    assert_eq!(
        memory.get32(0x1002),
        Err(SimulatorError::MemoryError(MemoryError::AlignmentError(0x1002, 4)))
    );
}

#[test]
fn mmu_halfword_little_endian() {
    let mut memory = MMU::make();
    memory.allocate_page(0x1000);
    assert!(memory.set16(0x1000, 0xA1B2).is_ok());
    assert_eq!(memory.get8(0x1000).unwrap(), 0xB2);
    assert_eq!(memory.get8(0x1001).unwrap(), 0xA1);
    assert_eq!(memory.get16(0x1000).unwrap(), 0xA1B2);
}

#[test]
fn mmu_word_round_trip_random() {
    let mut memory = MMU::make();
    memory.allocate_page(0x7000);
    // A linear congruential walk through assorted word values
    let mut value: u32 = 0x12345678;
    for i in 0..64u32 {
        value = value.wrapping_mul(1664525).wrapping_add(1013904223);
        let address = 0x7000 + (i % 256) * 4;
        assert!(memory.set32(address, value).is_ok());
        assert_eq!(memory.get32(address).unwrap(), value);
    }
}

#[test]
fn mmu_word_little_endian_bytes() {
    let mut memory = MMU::make();
    memory.allocate_page(0x3000);
    assert!(memory.set32(0x3000, 0xDDCCBBAA).is_ok());
    assert_eq!(memory.get8(0x3000).unwrap(), 0xAA);
    assert_eq!(memory.get8(0x3001).unwrap(), 0xBB);
    assert_eq!(memory.get8(0x3002).unwrap(), 0xCC);
    assert_eq!(memory.get8(0x3003).unwrap(), 0xDD);
}

#[test]
fn mmu_dump_lists_allocated_pages() {
    let mut memory = MMU::make();
    memory.allocate_page(0x1000);
    memory.allocate_page(0x5000);
    let _ = memory.set8(0x1002, 9);
    let dump = memory.dump();
    assert_eq!(dump.len(), 2);
    for (base, bytes) in &dump {
        assert_eq!(base % 4096, 0);
        assert_eq!(bytes.len(), 4096);
    }
    assert_eq!(dump[0].0, 0x1000);
    assert_eq!(dump[0].1[2], 9);
    assert_eq!(dump[1].0, 0x5000);
}

#[test]
fn mmu_halfword_round_trip() {
    let mut memory = MMU::make();
    memory.allocate_page(0x4000);
    let mut value: u16 = 0x8001;
    for i in 0..32u32 {
        value = value.wrapping_mul(31).wrapping_add(7);
        let address = 0x4000 + i * 2;
        assert!(memory.set16(address, value).is_ok());
        assert_eq!(memory.get16(address).unwrap(), value);
    }
}
